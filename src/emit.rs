use vstd::prelude::*;

use crate::token::{is_ident, Delimiter, Ident, Literal, Punct, Spacing, Span, TokenTree};
use crate::variant::Shape;

verus! {

/// A generated punctuation mark.
pub open spec fn mark(c: char) -> TokenTree {
    TokenTree::Punct(Punct { ch: c, spacing: Spacing::Joint, span: Span::CallSite })
}

/// `t` is a generated identifier spelled `w`.
pub open spec fn is_word(t: TokenTree, w: Seq<char>) -> bool {
    t matches TokenTree::Ident(i) && i.name@ == w && i.span == Span::CallSite
}

/// `s` holds at `i` the path `::a::b`.
pub open spec fn is_path2(s: Seq<TokenTree>, i: int, a: Seq<char>, b: Seq<char>) -> bool {
    &&& 0 <= i && i + 6 <= s.len()
    &&& s[i] == mark(':') && s[i + 1] == mark(':') && is_word(s[i + 2], a)
    &&& s[i + 3] == mark(':') && s[i + 4] == mark(':') && is_word(s[i + 5], b)
}

/// `s` holds at `i` the path `::a::b::c`.
pub open spec fn is_path3(s: Seq<TokenTree>, i: int, a: Seq<char>, b: Seq<char>, c: Seq<char>) -> bool {
    &&& is_path2(s, i, a, b)
    &&& i + 9 <= s.len()
    &&& s[i + 6] == mark(':') && s[i + 7] == mark(':') && is_word(s[i + 8], c)
}

/// `t` is a generated group delimited by `d` around `s`.
pub open spec fn is_group_of(t: TokenTree, d: Delimiter, s: Seq<TokenTree>) -> bool {
    t matches TokenTree::Group(g) && g.delimiter == d && g.span == Span::CallSite && g.stream@ == s
}

/// The decimal digits of `n`.
pub open spec fn decimal(n: nat) -> Seq<char>
    decreases n,
{
    if n < 10 {
        seq![('0' as u8 + n) as char]
    } else {
        decimal(n / 10) + seq![('0' as u8 + n % 10) as char]
    }
}

/// The name bound to the positional field at `i`: `_0`, `_1`, ...
pub open spec fn binding_name(i: nat) -> Seq<char> {
    seq!['_'] + decimal(i)
}

/// Relies on `format!` writing an integer in decimal with no padding.
#[verifier::external_body]
fn positional_binding(i: usize) -> (r: String)
    ensures
        r@ == binding_name(i as nat),
{
    format!("_{}", i)
}

/// `s` binds each of `names` in order, each followed by a comma.
pub open spec fn binds(s: Seq<TokenTree>, names: Seq<Seq<char>>) -> bool {
    &&& s.len() == 2 * names.len()
    &&& forall|k: int| 0 <= k < names.len() ==>
        is_ident(#[trigger] s[2 * k], names[k])
    &&& forall|k: int| 0 <= k < names.len() ==> #[trigger] s[2 * k + 1] == mark(',')
}

/// The names a variant of shape `sh` binds.
pub open spec fn bound_names(sh: Shape) -> Seq<Seq<char>> {
    match sh {
        Shape::Unit => seq![],
        Shape::Positional(n) => Seq::new(n as nat, |k: int| binding_name(k as nat)),
        Shape::Named(names) => names@.map_values(|i: Ident| i.name@),
    }
}

/// `t` is the pattern that destructures a variant of shape `sh`.
pub open spec fn is_destructure(t: TokenTree, sh: Shape) -> bool {
    &&& t matches TokenTree::Group(g)
    &&& g.span == Span::CallSite
    &&& g.delimiter == (if sh is Positional { Delimiter::Parenthesis } else { Delimiter::Brace })
    &&& binds(g.stream@, bound_names(sh))
}

/// The pattern that binds the fields of a variant of shape `sh`.
pub fn destructure(sh: &Shape) -> (r: TokenTree)
    ensures
        is_destructure(r, *sh),
{
    match sh {
        Shape::Unit => {
            let s: Vec<TokenTree> = Vec::new();
            let r = TokenTree::group(Delimiter::Brace, s);
            assert(bound_names(*sh) =~= seq![]);
            r
        },
        Shape::Positional(n) => {
            let mut s: Vec<TokenTree> = Vec::new();
            let mut i: usize = 0;
            while i < *n
                invariant
                    i <= *n,
                    binds(s@, Seq::new(i as nat, |k: int| binding_name(k as nat))),
                decreases *n - i,
            {
                let ghost s0 = s@;
                let name = positional_binding(i);
                s.push(TokenTree::Ident(Ident { name, span: Span::CallSite }));
                s.push(TokenTree::punct(','));
                let ghost names = Seq::new((i + 1) as nat, |k: int| binding_name(k as nat));
                assert forall|k: int| 0 <= k < names.len() implies is_ident(#[trigger] s@[2 * k], names[k]) by {
                    if k < i {
                        assert(s@[2 * k] == s0[2 * k]);
                    }
                }
                assert forall|k: int| 0 <= k < names.len() implies #[trigger] s@[2 * k + 1] == mark(',') by {
                    if k < i {
                        assert(s@[2 * k + 1] == s0[2 * k + 1]);
                    }
                }
                i = i + 1;
            }
            TokenTree::group(Delimiter::Parenthesis, s)
        },
        Shape::Named(names) => {
            let mut s: Vec<TokenTree> = Vec::new();
            let mut i: usize = 0;
            while i < names.len()
                invariant
                    i <= names@.len(),
                    binds(s@, names@.subrange(0, i as int).map_values(|id: Ident| id.name@)),
                    forall|k: int| 0 <= k < i ==> s@[2 * k] == TokenTree::Ident(#[trigger] names@[k]),
                decreases names.len() - i,
            {
                let ghost s0 = s@;
                s.push(TokenTree::Ident(names[i].copy()));
                s.push(TokenTree::punct(','));
                let ghost ns = names@.subrange(0, i + 1).map_values(|id: Ident| id.name@);
                assert forall|k: int| 0 <= k < ns.len() implies is_ident(#[trigger] s@[2 * k], ns[k]) by {
                    if k < i {
                        assert(s@[2 * k] == s0[2 * k]);
                    }
                }
                assert forall|k: int| 0 <= k < ns.len() implies #[trigger] s@[2 * k + 1] == mark(',') by {
                    if k < i {
                        assert(s@[2 * k + 1] == s0[2 * k + 1]);
                    }
                }
                assert forall|k: int| 0 <= k < i + 1 implies s@[2 * k] == TokenTree::Ident(#[trigger] names@[k]) by {
                    if k < i {
                        assert(s@[2 * k] == s0[2 * k]);
                    }
                }
                i = i + 1;
            }
            assert(names@.subrange(0, names@.len() as int) =~= names@);
            TokenTree::group(Delimiter::Brace, s)
        },
    }
}

/// The tokens `::a::b`.
fn path2(a: &str, b: &str) -> (r: Vec<TokenTree>)
    ensures
        r@.len() == 6,
        is_path2(r@, 0, a@, b@),
{
    vec![
        TokenTree::punct(':'),
        TokenTree::punct(':'),
        TokenTree::ident(a),
        TokenTree::punct(':'),
        TokenTree::punct(':'),
        TokenTree::ident(b),
    ]
}

/// The tokens `::a::b::c`.
fn path(a: &str, b: &str, c: &str) -> (r: Vec<TokenTree>)
    ensures
        r@.len() == 9,
        is_path3(r@, 0, a@, b@, c@),
{
    let mut r = path2(a, b);
    r.push(TokenTree::punct(':'));
    r.push(TokenTree::punct(':'));
    r.push(TokenTree::ident(c));
    r
}

/// `a` is the arm `Self::<name> <pattern> => f.write_fmt(::core::format_args!(<literal> <extra>)),`.
pub open spec fn is_arm(a: Seq<TokenTree>, name: Seq<char>, pattern: TokenTree, literal: Literal, extra: Seq<TokenTree>) -> bool {
    &&& a.len() == 12
    &&& is_word(a[0], "Self"@) && a[1] == mark(':') && a[2] == mark(':') && is_word(a[3], name)
    &&& a[4] == pattern
    &&& a[5] == mark('=') && a[6] == mark('>') && is_word(a[7], "f"@) && a[8] == mark('.')
    &&& is_word(a[9], "write_fmt"@)
    &&& a[10] matches TokenTree::Group(g)
    &&& g.delimiter == Delimiter::Parenthesis && g.span == Span::CallSite && g.stream@.len() == 8
    &&& is_path2(g.stream@, 0, "core"@, "format_args"@)
    &&& g.stream@[6] == mark('!')
    &&& is_group_of(g.stream@[7], Delimiter::Parenthesis, seq![TokenTree::Literal(literal)] + extra)
    &&& a[11] == mark(',')
}

/// The arm of the rendering routine for the variant `variant`.
pub fn generate_arm(variant: &Ident, pattern: TokenTree, literal: Literal, extra: Vec<TokenTree>) -> (r: Vec<TokenTree>)
    ensures
        is_arm(r@, variant.name@, pattern, literal, extra@),
{
    let ghost lit = literal;
    let ghost ex = extra@;
    let mut args: Vec<TokenTree> = vec![TokenTree::Literal(literal)];
    let mut extra = extra;
    args.append(&mut extra);
    assert(args@ =~= seq![TokenTree::Literal(lit)] + ex);
    let mut call = path2("core", "format_args");
    call.push(TokenTree::punct('!'));
    call.push(TokenTree::group(Delimiter::Parenthesis, args));
    vec![
        TokenTree::ident("Self"),
        TokenTree::punct(':'),
        TokenTree::punct(':'),
        TokenTree::Ident(Ident { name: variant.name.clone(), span: Span::CallSite }),
        pattern,
        TokenTree::punct('='),
        TokenTree::punct('>'),
        TokenTree::ident("f"),
        TokenTree::punct('.'),
        TokenTree::ident("write_fmt"),
        TokenTree::group(Delimiter::Parenthesis, call),
        TokenTree::punct(','),
    ]
}

/// `d` is the documentation attribute `#[doc = <literal>]`.
pub open spec fn is_doc_comment(d: Seq<TokenTree>, literal: Literal) -> bool {
    &&& d.len() == 2
    &&& d[0] == mark('#')
    &&& d[1] matches TokenTree::Group(g)
    &&& g.delimiter == Delimiter::Bracket && g.span == Span::CallSite && g.stream@.len() == 3
    &&& is_word(g.stream@[0], "doc"@) && g.stream@[1] == mark('=')
    &&& g.stream@[2] == TokenTree::Literal(literal)
}

/// The documentation attribute whose text is the template `literal`.
pub fn doc_comment(literal: Literal) -> (r: Vec<TokenTree>)
    ensures
        is_doc_comment(r@, literal),
{
    let body = vec![TokenTree::ident("doc"), TokenTree::punct('='), TokenTree::Literal(literal)];
    vec![TokenTree::punct('#'), TokenTree::group(Delimiter::Bracket, body)]
}

/// `t` is `impl ::core::fmt::Display for <name> { fn fmt(&self, f: &mut
/// ::core::fmt::Formatter) -> ::core::fmt::Result { match self { <arms> } } }`.
pub open spec fn is_display_impl(t: Seq<TokenTree>, name: Ident, arms: Seq<TokenTree>) -> bool {
    &&& t.len() == 13
    &&& is_word(t[0], "impl"@) && is_path3(t, 1, "core"@, "fmt"@, "Display"@) && is_word(t[10], "for"@)
    &&& t[11] == TokenTree::Ident(name)
    &&& t[12] matches TokenTree::Group(b)
    &&& b.delimiter == Delimiter::Brace && b.span == Span::CallSite
    &&& b.stream@.len() == 15
    &&& is_word(b.stream@[0], "fn"@) && is_word(b.stream@[1], "fmt"@)
    &&& b.stream@[2] matches TokenTree::Group(p)
    &&& p.delimiter == Delimiter::Parenthesis && p.span == Span::CallSite && p.stream@.len() == 16
    &&& p.stream@[0] == mark('&') && is_word(p.stream@[1], "self"@) && p.stream@[2] == mark(',')
    &&& is_word(p.stream@[3], "f"@) && p.stream@[4] == mark(':') && p.stream@[5] == mark('&')
    &&& is_word(p.stream@[6], "mut"@) && is_path3(p.stream@, 7, "core"@, "fmt"@, "Formatter"@)
    &&& b.stream@[3] == mark('-') && b.stream@[4] == mark('>')
    &&& is_path3(b.stream@, 5, "core"@, "fmt"@, "Result"@)
    &&& b.stream@[14] matches TokenTree::Group(m)
    &&& m.delimiter == Delimiter::Brace && m.span == Span::CallSite && m.stream@.len() == 3
    &&& is_word(m.stream@[0], "match"@) && is_word(m.stream@[1], "self"@)
    &&& is_group_of(m.stream@[2], Delimiter::Brace, arms)
}

/// The `Display` impl for the type `name` whose match has the arms `arms`.
pub fn display_impl(name: Ident, arms: Vec<TokenTree>) -> (r: Vec<TokenTree>)
    ensures
        is_display_impl(r@, name, arms@),
{
    let mut params = vec![
        TokenTree::punct('&'),
        TokenTree::ident("self"),
        TokenTree::punct(','),
        TokenTree::ident("f"),
        TokenTree::punct(':'),
        TokenTree::punct('&'),
        TokenTree::ident("mut"),
    ];
    let mut formatter = path("core", "fmt", "Formatter");
    params.append(&mut formatter);
    let block = vec![
        TokenTree::ident("match"),
        TokenTree::ident("self"),
        TokenTree::group(Delimiter::Brace, arms),
    ];
    let mut body = vec![
        TokenTree::ident("fn"),
        TokenTree::ident("fmt"),
        TokenTree::group(Delimiter::Parenthesis, params),
        TokenTree::punct('-'),
        TokenTree::punct('>'),
    ];
    let mut result = path("core", "fmt", "Result");
    body.append(&mut result);
    body.push(TokenTree::group(Delimiter::Brace, block));
    let mut r = vec![TokenTree::ident("impl")];
    let mut display = path("core", "fmt", "Display");
    r.append(&mut display);
    r.push(TokenTree::ident("for"));
    r.push(TokenTree::Ident(name));
    r.push(TokenTree::group(Delimiter::Brace, body));
    r
}

} // verus!
