use vstd::prelude::*;

use crate::body::{error_views, parse_variants, rest_after, nameless_at, variants_from};
use crate::cursor::Cursor;
use crate::diagnostic::{
    CompileError, EXPECTED_ENUM, EXPECTED_ENUM_BODY, EXPECTED_ENUM_NAME, EXPECTED_VARIANT_NAME,
    UNEXPECTED_TOKEN,
};
use crate::token::{is_group, is_ident, is_punct, span_of, Delimiter, Ident, Span, TokenTree};
use crate::variant::{missing_ident_span, Variant};

verus! {

/// The modifiers are `doc` alone, which asks for documentation attributes.
pub open spec fn wants_docs(a: Seq<TokenTree>) -> bool {
    a.len() == 1 && is_ident(a[0], "doc"@)
}

/// The diagnostics the modifiers `a` give: a token other than `doc`, or one
/// after it.
pub open spec fn modifier_errors(a: Seq<TokenTree>) -> Seq<(Span, Seq<char>)> {
    if a.len() == 0 {
        seq![]
    } else if is_ident(a[0], "doc"@) {
        if a.len() > 1 {
            seq![(span_of(a[1]), UNEXPECTED_TOKEN@)]
        } else {
            seq![]
        }
    } else {
        seq![(span_of(a[0]), UNEXPECTED_TOKEN@)]
    }
}

/// Reads the modifiers: `doc` alone, or nothing. Anything else is reported
/// and leaves documentation off.
pub fn parse_modifiers(args: &Vec<TokenTree>) -> (r: (bool, Vec<CompileError>))
    ensures
        r.0 == wants_docs(args@),
        error_views(r.1@) == modifier_errors(args@),
{
    let mut errors: Vec<CompileError> = Vec::new();
    let named = args.len() > 0 && args[0].is_ident("doc");
    if named {
        if args.len() > 1 {
            errors.push(CompileError::new(args[1].span(), UNEXPECTED_TOKEN));
        }
    } else if args.len() > 0 {
        errors.push(CompileError::new(args[0].span(), UNEXPECTED_TOKEN));
    }
    assert(error_views(errors@) =~= modifier_errors(args@));
    (named && args.len() == 1, errors)
}

/// Number of tokens up to and including the `enum` keyword, a `#` always
/// taken together with the token after it; `None` where there is no
/// such keyword.
pub open spec fn header_len(s: Seq<TokenTree>) -> Option<nat>
    decreases s.len(),
{
    if s.len() == 0 {
        None
    } else if is_punct(s[0], '#') {
        if s.len() == 1 {
            None
        } else {
            match header_len(s.skip(2)) {
                Some(n) => Some(n + 2),
                None => None,
            }
        }
    } else if is_ident(s[0], "enum"@) {
        Some(1)
    } else {
        match header_len(s.drop_first()) {
            Some(n) => Some(n + 1),
            None => None,
        }
    }
}

/// Number of tokens from just after a `<` to its matching `>`, which is
/// counted, with `depth` brackets open; all of `u` where none matches.
pub open spec fn angle_len(u: Seq<TokenTree>, depth: nat) -> nat
    decreases u.len(),
{
    if u.len() == 0 {
        0
    } else if is_punct(u[0], '>') && depth <= 1 {
        1
    } else if is_punct(u[0], '>') {
        1 + angle_len(u.drop_first(), (depth - 1) as nat)
    } else if is_punct(u[0], '<') {
        1 + angle_len(u.drop_first(), depth + 1)
    } else {
        1 + angle_len(u.drop_first(), depth)
    }
}

/// Number of leading tokens of `u` that are a generic parameter list.
pub open spec fn generics_len(u: Seq<TokenTree>) -> nat {
    if u.len() > 0 && is_punct(u[0], '<') {
        1 + angle_len(u.drop_first(), 1)
    } else {
        0
    }
}

/// Number of leading tokens of `x` before a braced group.
pub open spec fn until_brace(x: Seq<TokenTree>) -> nat
    decreases x.len(),
{
    if x.len() == 0 || is_group(x[0], Delimiter::Brace) {
        0
    } else {
        1 + until_brace(x.drop_first())
    }
}

/// Number of leading tokens of `w` that are a `where` clause.
pub open spec fn where_len(w: Seq<TokenTree>) -> nat {
    if w.len() > 0 && is_ident(w[0], "where"@) {
        1 + until_brace(w.drop_first())
    } else {
        0
    }
}

pub open spec fn after_header(s: Seq<TokenTree>) -> Seq<TokenTree> {
    s.skip(header_len(s)->Some_0 as int)
}

pub open spec fn has_name(s: Seq<TokenTree>) -> bool {
    after_header(s).len() > 0 && after_header(s)[0] is Ident
}

pub open spec fn after_name(s: Seq<TokenTree>) -> Seq<TokenTree> {
    after_header(s).drop_first()
}

pub open spec fn after_generics(s: Seq<TokenTree>) -> Seq<TokenTree> {
    after_name(s).skip(generics_len(after_name(s)) as int)
}

pub open spec fn after_constraints(s: Seq<TokenTree>) -> Seq<TokenTree> {
    after_generics(s).skip(where_len(after_generics(s)) as int)
}

pub open spec fn has_body(s: Seq<TokenTree>) -> bool {
    after_constraints(s).len() > 0 && is_group(after_constraints(s)[0], Delimiter::Brace)
}

/// The tokens inside the braces of the declaration `s`.
pub open spec fn body_stream(s: Seq<TokenTree>) -> Seq<TokenTree> {
    after_constraints(s)[0]->Group_0.stream@
}

/// Where a missing token is reported: at the token found instead, else at
/// the call site.
pub open spec fn found_span(x: Seq<TokenTree>) -> Span {
    if x.len() > 0 {
        span_of(x[0])
    } else {
        Span::CallSite
    }
}

/// The declaration of the tagged union, parsed.
#[derive(Debug)]
pub struct Declaration {
    /// Everything up to and including `enum`, as written
    pub header: Vec<TokenTree>,
    pub name: Ident,
    /// The generic parameter list, angle brackets included, as written
    pub generics: Vec<TokenTree>,
    /// The `where` clause, as written
    pub constraints: Vec<TokenTree>,
    pub variants: Vec<Variant>,
}

/// `d` is the declaration `s`.
pub open spec fn declaration_from(d: Declaration, s: Seq<TokenTree>) -> bool {
    &&& header_len(s) is Some && has_name(s) && has_body(s)
    &&& d.header@ == s.take(header_len(s)->Some_0 as int)
    &&& after_header(s)[0] == TokenTree::Ident(d.name)
    &&& d.generics@ == after_name(s).take(generics_len(after_name(s)) as int)
    &&& d.constraints@ == after_generics(s).take(where_len(after_generics(s)) as int)
    &&& variants_from(d.variants@, body_stream(s))
}

/// The diagnostic that stops the parse of `s`, where one does.
pub open spec fn declaration_error(s: Seq<TokenTree>, e: (Span, Seq<char>)) -> bool {
    if header_len(s) is None {
        e == (Span::CallSite, EXPECTED_ENUM@)
    } else if !has_name(s) {
        e == (found_span(after_header(s)), EXPECTED_ENUM_NAME@)
    } else if !has_body(s) {
        e == (found_span(after_constraints(s)), EXPECTED_ENUM_BODY@)
    } else {
        exists|k: nat| #[trigger] nameless_at(body_stream(s), k) && e == (missing_ident_span(rest_after(body_stream(s), k)), EXPECTED_VARIANT_NAME@)
    }
}

proof fn lemma_angle_len_bound(u: Seq<TokenTree>, depth: nat)
    ensures
        angle_len(u, depth) <= u.len(),
    decreases u.len(),
{
    if u.len() > 0 {
        lemma_angle_len_bound(u.drop_first(), if is_punct(u[0], '>') && depth > 1 { (depth - 1) as nat } else if is_punct(u[0], '<') { depth + 1 } else { depth });
    }
}

proof fn lemma_until_brace_bound(x: Seq<TokenTree>)
    ensures
        until_brace(x) <= x.len(),
    decreases x.len(),
{
    if x.len() > 0 {
        lemma_until_brace_bound(x.drop_first());
    }
}

proof fn lemma_header_len_bound(s: Seq<TokenTree>)
    ensures
        header_len(s) matches Some(n) ==> 0 < n <= s.len(),
    decreases s.len(),
{
    if s.len() > 1 && is_punct(s[0], '#') {
        lemma_header_len_bound(s.skip(2));
    } else if s.len() > 0 {
        lemma_header_len_bound(s.drop_first());
    }
}

pub open spec fn shifted(o: Option<nat>, k: nat) -> Option<nat> {
    match o {
        Some(n) => Some(n + k),
        None => None,
    }
}

/// Takes everything up to and including the `enum` keyword.
fn parse_header(c: &mut Cursor) -> (r: Option<Vec<TokenTree>>)
    ensures
        match r {
            Some(h) => header_len(old(c)@) == Some(h@.len()) && h@ + final(c)@ == old(c)@,
            None => header_len(old(c)@) is None,
        },
{
    let ghost s = c@;
    let mut header: Vec<TokenTree> = Vec::new();
    let mut found = false;
    while !found
        invariant
            s == old(c)@,
            header@ + c@ == s,
            !found ==> header_len(s) == shifted(header_len(c@), header@.len()),
            found ==> header_len(s) == Some(header@.len()),
        decreases c@.len() + (if found { 0int } else { 1int }),
    {
        let ghost c0 = c@;
        match c.next() {
            None => {
                return None;
            },
            Some(t) => {
                if t.is_punct('#') {
                    header.push(t);
                    match c.next() {
                        Some(u) => {
                            header.push(u);
                            assert(c@ =~= c0.skip(2));
                        },
                        None => {
                            return None;
                        },
                    }
                } else if t.is_ident("enum") {
                    header.push(t);
                    found = true;
                } else {
                    header.push(t);
                }
            },
        }
        assert(header@ + c@ =~= s);
    }
    Some(header)
}

/// Takes the generic parameter list, if one follows.
fn parse_generics(c: &mut Cursor, total: usize) -> (r: Vec<TokenTree>)
    requires
        old(c)@.len() <= total,
    ensures
        r@ + final(c)@ == old(c)@,
        r@.len() == generics_len(old(c)@),
{
    let ghost u = c@;
    let mut generics: Vec<TokenTree> = Vec::new();
    if c.peek_punct('<') {
        generics.push(c.next().unwrap());
        let mut depth: usize = 1;
        while depth > 0 && !c.at_end()
            invariant
                generics@ + c@ == u,
                generics@.len() >= 1,
                u.len() <= total,
                depth <= generics@.len(),
                depth > 0 ==> angle_len(u.drop_first(), 1) == (generics@.len() - 1) + angle_len(c@, depth as nat),
                depth == 0 ==> angle_len(u.drop_first(), 1) == generics@.len() - 1,
            decreases c@.len(),
        {
            let t = c.next().unwrap();
            let close = t.is_punct('>');
            let open = t.is_punct('<');
            generics.push(t);
            if close {
                depth = depth - 1;
            } else if open {
                depth = depth + 1;
            }
            assert(generics@ + c@ =~= u);
        }
        proof {
            if depth > 0 {
                assert(c@.len() == 0);
            }
        }
    }
    assert(generics@ + c@ =~= u);
    generics
}

/// Takes the `where` clause, if one follows: everything before the body.
fn parse_constraints(c: &mut Cursor) -> (r: Vec<TokenTree>)
    ensures
        r@ + final(c)@ == old(c)@,
        r@.len() == where_len(old(c)@),
{
    let ghost w = c@;
    let mut constraints: Vec<TokenTree> = Vec::new();
    if c.peek_ident("where") {
        constraints.push(c.next().unwrap());
        while !c.at_end() && !c.peek_group(Delimiter::Brace)
            invariant
                constraints@ + c@ == w,
                constraints@.len() >= 1,
                until_brace(w.drop_first()) == (constraints@.len() - 1) + until_brace(c@),
            decreases c@.len(),
        {
            constraints.push(c.next().unwrap());
            assert(constraints@ + c@ =~= w);
        }
    }
    assert(constraints@ + c@ =~= w);
    constraints
}

/// Parses the declaration `item`: its header, name, generics, `where`
/// clause and variants.
pub fn parse_declaration(item: Vec<TokenTree>) -> (r: Result<Declaration, CompileError>)
    ensures
        match r {
            Ok(d) => declaration_from(d, item@),
            Err(e) => declaration_error(item@, e@),
        },
{
    let ghost s = item@;
    let total = item.len();
    let mut c = Cursor::new(item);
    let header = match parse_header(&mut c) {
        Some(h) => h,
        None => {
            return Err(CompileError::new(Span::CallSite, EXPECTED_ENUM));
        },
    };
    assert(header@ =~= s.take(header_len(s)->Some_0 as int));
    assert(c@ =~= after_header(s));
    let name = match c.next() {
        Some(TokenTree::Ident(i)) => i,
        Some(t) => {
            return Err(CompileError::new(t.span(), EXPECTED_ENUM_NAME));
        },
        None => {
            return Err(CompileError::new(Span::CallSite, EXPECTED_ENUM_NAME));
        },
    };
    let ghost u = c@;
    let generics = parse_generics(&mut c, total);
    assert(generics@ =~= u.take(generics_len(u) as int));
    assert(c@ =~= after_generics(s));
    let ghost w = c@;
    let constraints = parse_constraints(&mut c);
    assert(constraints@ =~= w.take(where_len(w) as int));
    assert(c@ =~= after_constraints(s));
    let stream = match c.next() {
        Some(TokenTree::Group(g)) => {
            if g.delimiter == Delimiter::Brace {
                g.stream
            } else {
                return Err(CompileError::new(g.span, EXPECTED_ENUM_BODY));
            }
        },
        Some(t) => {
            return Err(CompileError::new(t.span(), EXPECTED_ENUM_BODY));
        },
        None => {
            return Err(CompileError::new(Span::CallSite, EXPECTED_ENUM_BODY));
        },
    };
    match parse_variants(stream) {
        Ok(variants) => Ok(Declaration { header, name, generics, constraints, variants }),
        Err(e) => Err(e),
    }
}

} // verus!
