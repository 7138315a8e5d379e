use vstd::prelude::*;

use crate::cursor::Cursor;
use crate::diagnostic::{CompileError, EXPECTED_VARIANT_NAME};
use crate::emit::{destructure, doc_comment, generate_arm, is_arm, is_destructure, is_doc_comment};
use crate::token::{Literal, LiteralForm, Span, TokenTree};
use crate::variant::{after_variant, lemma_after_variant_shorter, has_ident, missing_ident_span, parse_variant, parsed_from, Variant};

verus! {

/// The tokens left after the first `k` variants of `s`.
pub open spec fn rest_after(s: Seq<TokenTree>, k: nat) -> Seq<TokenTree>
    decreases k,
{
    if k == 0 {
        s
    } else {
        after_variant(rest_after(s, (k - 1) as nat))
    }
}

/// `vs` are the variants that make up the whole of `s`, in order.
pub open spec fn variants_from(vs: Seq<Variant>, s: Seq<TokenTree>) -> bool
    decreases vs.len(),
{
    if vs.len() == 0 {
        s.len() == 0
    } else {
        s.len() > 0 && parsed_from(vs[0], s) && variants_from(vs.drop_first(), after_variant(s))
    }
}

/// The `k`-th variant of `s` has no name, while those before it have one.
pub open spec fn nameless_at(s: Seq<TokenTree>, k: nat) -> bool {
    &&& forall|j: nat| j < k ==> rest_after(s, j).len() > 0 && has_ident(#[trigger] rest_after(s, j))
    &&& rest_after(s, k).len() > 0
    &&& !has_ident(rest_after(s, k))
}

proof fn lemma_variants_from_extend(vs: Seq<Variant>, v: Variant, s: Seq<TokenTree>, k: nat)
    requires
        forall|j: int| 0 <= j < vs.len() ==> parsed_from(#[trigger] vs[j], rest_after(s, j as nat)),
        vs.len() == k,
        rest_after(s, k).len() > 0,
        parsed_from(v, rest_after(s, k)),
    ensures
        forall|j: int| 0 <= j < vs.push(v).len() ==> parsed_from(#[trigger] vs.push(v)[j], rest_after(s, j as nat)),
{
}

proof fn lemma_variants_from_all(vs: Seq<Variant>, s: Seq<TokenTree>)
    requires
        forall|j: int| 0 <= j < vs.len() ==> parsed_from(#[trigger] vs[j], rest_after(s, j as nat)),
        forall|j: nat| j < vs.len() ==> (#[trigger] rest_after(s, j)).len() > 0,
        rest_after(s, vs.len()).len() == 0,
    ensures
        variants_from(vs, s),
    decreases vs.len(),
{
    if vs.len() > 0 {
        let t = after_variant(s);
        assert forall|j: nat| j <= vs.len() - 1 implies #[trigger] rest_after(t, j) == rest_after(s, j + 1) by {
            lemma_rest_after_shift(s, j);
        }
        assert forall|j: int| 0 <= j < vs.drop_first().len() implies parsed_from(#[trigger] vs.drop_first()[j], rest_after(t, j as nat)) by {
            assert(rest_after(t, j as nat) == rest_after(s, (j + 1) as nat));
            assert(vs.drop_first()[j] == vs[j + 1]);
        }
        assert forall|j: nat| j < vs.drop_first().len() implies (#[trigger] rest_after(t, j)).len() > 0 by {
            assert(rest_after(t, j) == rest_after(s, j + 1));
        }
        assert(rest_after(t, (vs.len() - 1) as nat) == rest_after(s, vs.len()));
        assert(rest_after(s, 0) == s);
        lemma_variants_from_all(vs.drop_first(), t);
    }
}

proof fn lemma_rest_after_shift(s: Seq<TokenTree>, j: nat)
    ensures
        rest_after(after_variant(s), j) == rest_after(s, j + 1),
    decreases j,
{
    if j > 0 {
        lemma_rest_after_shift(s, (j - 1) as nat);
        assert(rest_after(s, j + 1) == after_variant(rest_after(s, j)));
        assert(rest_after(s, ((j - 1) as nat + 1) as nat) == rest_after(s, j));
    } else {
        assert(rest_after(s, 1) == after_variant(rest_after(s, 0)));
    }
}

/// Parses every variant of the declaration body `body`. Fails only where a
/// variant has no name, which the host's grammar rules out.
pub fn parse_variants(body: Vec<TokenTree>) -> (r: Result<Vec<Variant>, CompileError>)
    ensures
        match r {
            Ok(vs) => variants_from(vs@, body@),
            Err(e) => exists|k: nat| #[trigger] nameless_at(body@, k) && e@ == (missing_ident_span(rest_after(body@, k)), EXPECTED_VARIANT_NAME@),
        },
{
    let ghost s = body@;
    let mut c = Cursor::new(body);
    let mut vs: Vec<Variant> = Vec::new();
    while !c.at_end()
        invariant
            s == body@,
            c@ == rest_after(s, vs@.len()),
            forall|j: int| 0 <= j < vs@.len() ==> parsed_from(#[trigger] vs@[j], rest_after(s, j as nat)),
            forall|j: nat| j < vs@.len() ==> (#[trigger] rest_after(s, j)).len() > 0 && has_ident(rest_after(s, j)),
        decreases c@.len(),
    {
        let ghost k = vs@.len();
        let ghost before = c@;
        match parse_variant(&mut c) {
            Ok(v) => {
                proof {
                    lemma_variants_from_extend(vs@, v, s, k);
                    lemma_after_variant_shorter(before);
                }
                vs.push(v);
                assert forall|j: nat| j < vs@.len() implies (#[trigger] rest_after(s, j)).len() > 0 && has_ident(rest_after(s, j)) by {
                    if j == k {
                        assert(before.len() > 0);
                        assert(parsed_from(v, before));
                    }
                }
            },
            Err(e) => {
                assert(nameless_at(s, k));
                assert(e@ == (missing_ident_span(rest_after(s, k)), EXPECTED_VARIANT_NAME@));
                assert(exists|k2: nat| #[trigger] nameless_at(s, k2) && e@ == (missing_ident_span(rest_after(s, k2)), EXPECTED_VARIANT_NAME@));
                return Err(e);
            },
        }
    }
    proof {
        lemma_variants_from_all(vs@, s);
    }
    Ok(vs)
}

/// The field group of `v`, as tokens.
pub open spec fn fields_tokens(v: Variant) -> Seq<TokenTree> {
    match v.fields {
        Some(g) => seq![TokenTree::Group(g)],
        None => seq![],
    }
}

/// The separator after `v`, as tokens.
pub open spec fn comma_tokens(v: Variant) -> Seq<TokenTree> {
    match v.comma {
        Some(t) => seq![t],
        None => seq![],
    }
}

/// What follows the attributes and documentation of `v` in the cleaned
/// declaration: visibility, name, field group and separator, as written.
pub open spec fn written_tokens(v: Variant) -> Seq<TokenTree> {
    v.vis@ + seq![TokenTree::Ident(v.ident)] + fields_tokens(v) + comma_tokens(v)
}

/// `v` gets a documentation attribute.
pub open spec fn documented(v: Variant, doc: bool) -> bool {
    doc && v.template is Ok
}

pub open spec fn doc_len(v: Variant, doc: bool) -> nat {
    if documented(v, doc) {
        2
    } else {
        0
    }
}

/// Number of tokens of `v` in the cleaned declaration.
pub open spec fn cleaned_len(v: Variant, doc: bool) -> nat {
    v.attrs@.len() + doc_len(v, doc) + written_tokens(v).len()
}

/// `d` is the variant `v` as it stands in the cleaned declaration: its own
/// tokens without `=` and template, with a documentation attribute holding
/// the template's literal after its attributes when `doc` asks for one.
pub open spec fn is_cleaned(d: Seq<TokenTree>, v: Variant, doc: bool) -> bool {
    let a = v.attrs@.len() as int;
    &&& d.len() == cleaned_len(v, doc)
    &&& d.take(a) == v.attrs@
    &&& documented(v, doc) ==> is_doc_comment(d.subrange(a, a + 2), v.template->Ok_0.literal)
    &&& d.skip(a + doc_len(v, doc)) == written_tokens(v)
}

/// An empty string literal made at the call site.
pub open spec fn is_empty_literal(l: Literal) -> bool {
    l.form matches LiteralForm::Text(t) && t@.len() == 0 && l.span == Span::CallSite
}

/// `a` is the arm for `v`: it destructures `v`'s fields and renders its
/// template, or the empty string where `v` has none.
pub open spec fn is_arm_of(a: Seq<TokenTree>, v: Variant) -> bool {
    &&& a.len() == 12
    &&& is_destructure(a[4], v.shape)
    &&& match v.template {
        Ok(t) => is_arm(a, v.ident.name@, a[4], t.literal, t.extra@),
        Err(_) => exists|l: Literal| is_empty_literal(l) && #[trigger] is_arm(a, v.ident.name@, a[4], l, seq![]),
    }
}

/// The diagnostics of many errors, as values.
pub open spec fn error_views(es: Seq<CompileError>) -> Seq<(Span, Seq<char>)> {
    es.map_values(|e: CompileError| e@)
}

/// The diagnostic that `v` reports, if any.
pub open spec fn variant_errors(v: Variant) -> Seq<(Span, Seq<char>)> {
    match v.template {
        Ok(_) => seq![],
        Err(e) => seq![e@],
    }
}

/// Cleans the variant `v` and builds its arm and diagnostics.
pub fn emit_variant(v: Variant, doc: bool) -> (r: (Vec<TokenTree>, Vec<TokenTree>, Vec<CompileError>))
    ensures
        is_cleaned(r.0@, v, doc),
        is_arm_of(r.1@, v),
        error_views(r.2@) == variant_errors(v),
{
    let ghost v0 = v;
    let Variant { attrs, vis, ident, fields, shape, template, comma } = v;
    let pattern = destructure(&shape);
    let ghost pat = pattern;
    let mut decl = attrs;
    let mut errors: Vec<CompileError> = Vec::new();
    let (literal, extra) = match template {
        Ok(t) => {
            if doc {
                let mut d = doc_comment(t.literal.copy());
                decl.append(&mut d);
            }
            (t.literal, t.extra)
        },
        Err(e) => {
            errors.push(e);
            (Literal::string(""), Vec::new())
        },
    };
    let ghost lit = literal;
    let arm = generate_arm(&ident, pattern, literal, extra);
    let ghost a = v0.attrs@.len() as int;
    let ghost dl = doc_len(v0, doc) as int;
    assert(decl@.take(a) =~= v0.attrs@);
    assert(documented(v0, doc) ==> decl@.subrange(a, a + 2) =~= decl@.skip(a));
    let mut vis = vis;
    decl.append(&mut vis);
    decl.push(TokenTree::Ident(ident));
    if let Some(g) = fields {
        decl.push(TokenTree::Group(g));
    }
    if let Some(t) = comma {
        decl.push(t);
    }
    assert(decl@.take(a) =~= v0.attrs@);
    assert(decl@.skip(a + dl) =~= written_tokens(v0));
    assert(documented(v0, doc) ==> decl@.subrange(a, a + 2) == decl@.skip(a).take(2));
    assert(error_views(errors@) =~= variant_errors(v0));
    assert(arm@[4] == pat);
    proof {
        if v0.template is Err {
            reveal_strlit("");
            assert(is_empty_literal(lit));
            assert(is_arm(arm@, v0.ident.name@, arm@[4], lit, seq![]));
        }
    }
    (decl, arm, errors)
}

/// `d`, `a` and `e` are, variant after variant, the cleaned declarations,
/// the arms and the diagnostics of `vs`.
pub open spec fn emitted(vs: Seq<Variant>, doc: bool, d: Seq<TokenTree>, a: Seq<TokenTree>, e: Seq<(Span, Seq<char>)>) -> bool
    decreases vs.len(),
{
    if vs.len() == 0 {
        d.len() == 0 && a.len() == 0 && e.len() == 0
    } else {
        let v = vs[0];
        let n = cleaned_len(v, doc) as int;
        let m = variant_errors(v).len() as int;
        &&& d.len() >= n && a.len() >= 12 && e.len() >= m
        &&& is_cleaned(d.take(n), v, doc)
        &&& is_arm_of(a.take(12), v)
        &&& e.take(m) == variant_errors(v)
        &&& emitted(vs.drop_first(), doc, d.skip(n), a.skip(12), e.skip(m))
    }
}

proof fn lemma_emitted_push(
    vs: Seq<Variant>,
    v: Variant,
    doc: bool,
    d: Seq<TokenTree>,
    a: Seq<TokenTree>,
    e: Seq<(Span, Seq<char>)>,
    dv: Seq<TokenTree>,
    av: Seq<TokenTree>,
    ev: Seq<(Span, Seq<char>)>,
)
    requires
        emitted(vs, doc, d, a, e),
        is_cleaned(dv, v, doc),
        is_arm_of(av, v),
        ev == variant_errors(v),
    ensures
        emitted(vs.push(v), doc, d + dv, a + av, e + ev),
    decreases vs.len(),
{
    if vs.len() == 0 {
        assert(d + dv =~= dv);
        assert(a + av =~= av);
        assert(e + ev =~= ev);
        assert(vs.push(v).drop_first() =~= seq![]);
        assert(dv.take(dv.len() as int) =~= dv);
        assert(av.take(12) =~= av);
        assert(ev.take(ev.len() as int) =~= ev);
        assert(dv.skip(dv.len() as int) =~= seq![]);
        assert(av.skip(12) =~= seq![]);
        assert(ev.skip(ev.len() as int) =~= seq![]);
        assert(emitted(vs.push(v).drop_first(), doc, dv.skip(dv.len() as int), av.skip(12), ev.skip(ev.len() as int)));
        assert(vs.push(v)[0] == v);
    } else {
        let w = vs[0];
        let n = cleaned_len(w, doc) as int;
        let m = variant_errors(w).len() as int;
        lemma_emitted_push(vs.drop_first(), v, doc, d.skip(n), a.skip(12), e.skip(m), dv, av, ev);
        assert(vs.push(v).drop_first() =~= vs.drop_first().push(v));
        assert(vs.push(v)[0] == w);
        assert((d + dv).take(n) =~= d.take(n));
        assert((a + av).take(12) =~= a.take(12));
        assert((e + ev).take(m) =~= e.take(m));
        assert((d + dv).skip(n) =~= d.skip(n) + dv);
        assert((a + av).skip(12) =~= a.skip(12) + av);
        assert((e + ev).skip(m) =~= e.skip(m) + ev);
    }
}

/// Cleans every variant and builds every arm, in declaration order,
/// collecting the diagnostics on the way.
pub fn emit_variants(vs: Vec<Variant>, doc: bool) -> (r: (Vec<TokenTree>, Vec<TokenTree>, Vec<CompileError>))
    ensures
        emitted(vs@, doc, r.0@, r.1@, error_views(r.2@)),
{
    let ghost all = vs@;
    let mut rest = vs;
    let mut decl: Vec<TokenTree> = Vec::new();
    let mut arms: Vec<TokenTree> = Vec::new();
    let mut errors: Vec<CompileError> = Vec::new();
    assert(all.take(0) =~= seq![]);
    assert(error_views(errors@) =~= seq![]);
    while rest.len() > 0
        invariant
            rest@.len() <= all.len(),
            rest@ == all.skip(all.len() - rest@.len()),
            emitted(all.take(all.len() - rest@.len()), doc, decl@, arms@, error_views(errors@)),
        decreases rest.len(),
    {
        let ghost done = all.take(all.len() - rest@.len());
        let ghost e0 = error_views(errors@);
        let v = rest.remove(0);
        let ghost v0 = v;
        let (mut d, mut a, mut e) = emit_variant(v, doc);
        let ghost ev = error_views(e@);
        proof {
            lemma_emitted_push(done, v0, doc, decl@, arms@, e0, d@, a@, ev);
        }
        decl.append(&mut d);
        arms.append(&mut a);
        errors.append(&mut e);
        assert(error_views(errors@) =~= e0 + ev);
        assert(done.push(v0) =~= all.take(all.len() - rest@.len()));
        assert(rest@ =~= all.skip(all.len() - rest@.len()));
    }
    assert(all.take(all.len() as int) =~= all);
    (decl, arms, errors)
}

} // verus!
