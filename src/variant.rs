use vstd::prelude::*;

use crate::cursor::Cursor;
use crate::diagnostic::{CompileError, EXPECTED_DISCRIMINANT, EXPECTED_VARIANT_NAME};
use crate::fields::{count_positional, field_names, positional_count, scan_named};
use crate::template::{extract_string, outcome, template_of, Template};
use crate::token::{is_group, is_ident, is_punct, span_of, Delimiter, Group, Ident, Literal, Span, TokenTree};

verus! {

/// The fields a variant carries.
#[derive(Debug)]
pub enum Shape {
    Unit,
    Positional(usize),
    Named(Vec<Ident>),
}

/// One variant of the declaration, split into its parts. Every token of the
/// variant but its `=` and template is kept, in order.
#[derive(Debug)]
pub struct Variant {
    /// Leading `#` marks, each with the bracketed group after it
    pub attrs: Vec<TokenTree>,
    /// `pub`, with its parenthesized qualifier if any
    pub vis: Vec<TokenTree>,
    pub ident: Ident,
    /// The field group as written
    pub fields: Option<Group>,
    pub shape: Shape,
    /// The template, or the diagnostic that its absence or form gave
    pub template: Result<Template, CompileError>,
    /// The separator after the variant
    pub comma: Option<TokenTree>,
}

/// Number of leading tokens of `s` that are `#` marks with their groups.
pub open spec fn attrs_len(s: Seq<TokenTree>) -> nat
    decreases s.len(),
{
    if s.len() > 0 && is_punct(s[0], '#') {
        if s.len() == 1 {
            1
        } else {
            2 + attrs_len(s.skip(2))
        }
    } else {
        0
    }
}

/// Number of leading tokens of `s` that are a visibility qualifier.
pub open spec fn vis_len(s: Seq<TokenTree>) -> nat {
    if s.len() > 0 && is_ident(s[0], "pub"@) {
        if s.len() > 1 && is_group(s[1], Delimiter::Parenthesis) {
            2
        } else {
            1
        }
    } else {
        0
    }
}

pub open spec fn after_attrs(s: Seq<TokenTree>) -> Seq<TokenTree> {
    s.skip(attrs_len(s) as int)
}

pub open spec fn after_vis(s: Seq<TokenTree>) -> Seq<TokenTree> {
    after_attrs(s).skip(vis_len(after_attrs(s)) as int)
}

/// The variant that starts `s` has a name.
pub open spec fn has_ident(s: Seq<TokenTree>) -> bool {
    after_vis(s).len() > 0 && after_vis(s)[0] is Ident
}

/// Where a missing variant name is reported.
pub open spec fn missing_ident_span(s: Seq<TokenTree>) -> Span {
    if after_vis(s).len() > 0 {
        span_of(after_vis(s)[0])
    } else {
        Span::CallSite
    }
}

pub open spec fn after_ident(s: Seq<TokenTree>) -> Seq<TokenTree> {
    after_vis(s).drop_first()
}

pub open spec fn has_fields(s: Seq<TokenTree>) -> bool {
    let t = after_ident(s);
    t.len() > 0 && (is_group(t[0], Delimiter::Parenthesis) || is_group(t[0], Delimiter::Brace))
}

pub open spec fn after_fields(s: Seq<TokenTree>) -> Seq<TokenTree> {
    if has_fields(s) {
        after_ident(s).drop_first()
    } else {
        after_ident(s)
    }
}

pub open spec fn has_eq(s: Seq<TokenTree>) -> bool {
    after_fields(s).len() > 0 && is_punct(after_fields(s)[0], '=')
}

pub open spec fn after_template(s: Seq<TokenTree>) -> Seq<TokenTree> {
    if has_eq(s) {
        let t = after_fields(s).drop_first();
        if t.len() > 0 {
            t.drop_first()
        } else {
            t
        }
    } else {
        after_fields(s)
    }
}

pub open spec fn has_comma(s: Seq<TokenTree>) -> bool {
    after_template(s).len() > 0 && is_punct(after_template(s)[0], ',')
}

/// What follows the variant that starts `s`.
pub open spec fn after_variant(s: Seq<TokenTree>) -> Seq<TokenTree> {
    if has_comma(s) {
        after_template(s).drop_first()
    } else {
        after_template(s)
    }
}

/// `sh` is the shape of a variant with field group `fields`.
pub open spec fn shape_fits(sh: Shape, fields: Option<Group>) -> bool {
    match fields {
        None => sh is Unit,
        Some(g) => if g.delimiter == Delimiter::Parenthesis {
            sh matches Shape::Positional(n) && n == positional_count(g.stream@)
        } else {
            sh matches Shape::Named(names) && names@ == field_names(g.stream@)
        },
    }
}

/// The template of the variant that starts `s`, named `ident`.
pub open spec fn variant_template(s: Seq<TokenTree>, ident: Ident) -> Result<(Literal, Seq<TokenTree>), (Span, Seq<char>)> {
    if has_eq(s) {
        template_of(after_fields(s).drop_first(), span_of(after_fields(s)[0]))
    } else {
        Err((ident.span, EXPECTED_DISCRIMINANT@))
    }
}

/// `v` is the variant that starts `s`.
pub open spec fn parsed_from(v: Variant, s: Seq<TokenTree>) -> bool {
    &&& has_ident(s)
    &&& v.attrs@ == s.take(attrs_len(s) as int)
    &&& v.vis@ == after_attrs(s).take(vis_len(after_attrs(s)) as int)
    &&& after_vis(s)[0] == TokenTree::Ident(v.ident)
    &&& match v.fields {
        Some(g) => has_fields(s) && after_ident(s)[0] == TokenTree::Group(g),
        None => !has_fields(s),
    }
    &&& shape_fits(v.shape, v.fields)
    &&& outcome(v.template) == variant_template(s, v.ident)
    &&& match v.comma {
        Some(t) => has_comma(s) && t == after_template(s)[0],
        None => !has_comma(s),
    }
}

/// The attributes of a variant lie within it.
pub proof fn lemma_attrs_len_bound(s: Seq<TokenTree>)
    ensures
        attrs_len(s) <= s.len(),
    decreases s.len(),
{
    if s.len() > 1 && is_punct(s[0], '#') {
        lemma_attrs_len_bound(s.skip(2));
    }
}

/// A named variant consumes at least its name.
pub proof fn lemma_after_variant_shorter(s: Seq<TokenTree>)
    requires
        has_ident(s),
    ensures
        after_variant(s).len() < s.len(),
{
    lemma_attrs_len_bound(s);
}

/// Parses the variant at the cursor. Fails only where the variant has no
/// name, which the host's grammar rules out.
pub fn parse_variant(c: &mut Cursor) -> (r: Result<Variant, CompileError>)
    ensures
        match r {
            Ok(v) => parsed_from(v, old(c)@) && final(c)@ == after_variant(old(c)@),
            Err(e) => !has_ident(old(c)@) && e@ == (missing_ident_span(old(c)@), EXPECTED_VARIANT_NAME@),
        },
{
    let ghost s = c@;
    let mut attrs: Vec<TokenTree> = Vec::new();
    while c.peek_punct('#')
        invariant
            attrs@.len() <= s.len(),
            attrs@ == s.take(attrs@.len() as int),
            c@ == s.skip(attrs@.len() as int),
            attrs_len(s) == attrs@.len() + attrs_len(c@),
        decreases c@.len(),
    {
        let ghost c0 = c@;
        let t = c.next().unwrap();
        attrs.push(t);
        if !c.at_end() {
            let u = c.next().unwrap();
            attrs.push(u);
            assert(c0.skip(2) =~= c@);
        }
        assert(attrs@ =~= s.take(attrs@.len() as int));
        assert(c@ =~= s.skip(attrs@.len() as int));
    }
    assert(c@ == after_attrs(s));
    let ghost a = c@;
    let mut vis: Vec<TokenTree> = Vec::new();
    if c.peek_ident("pub") {
        vis.push(c.next().unwrap());
        if c.peek_group(Delimiter::Parenthesis) {
            vis.push(c.next().unwrap());
        }
    }
    assert(vis@ =~= a.take(vis_len(a) as int));
    assert(c@ =~= after_vis(s));
    let ident = match c.next() {
        Some(TokenTree::Ident(i)) => i,
        Some(t) => {
            return Err(CompileError::new(t.span(), EXPECTED_VARIANT_NAME));
        },
        None => {
            return Err(CompileError::new(Span::CallSite, EXPECTED_VARIANT_NAME));
        },
    };
    assert(c@ == after_ident(s));
    let mut fields: Option<Group> = None;
    let mut shape = Shape::Unit;
    if c.peek_group(Delimiter::Parenthesis) || c.peek_group(Delimiter::Brace) {
        if let Some(TokenTree::Group(g)) = c.next() {
            if g.delimiter == Delimiter::Parenthesis {
                shape = Shape::Positional(count_positional(&g.stream));
            } else {
                shape = Shape::Named(scan_named(&g.stream));
            }
            fields = Some(g);
        }
    }
    assert(c@ == after_fields(s));
    let template = if c.peek_punct('=') {
        let eq = c.next().unwrap();
        extract_string(c, eq.span())
    } else {
        Err(CompileError::new(ident.span, EXPECTED_DISCRIMINANT))
    };
    assert(c@ == after_template(s));
    let comma = if c.peek_punct(',') {
        c.next()
    } else {
        None
    };
    Ok(Variant { attrs, vis, ident, fields, shape, template, comma })
}

} // verus!
