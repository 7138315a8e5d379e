use vstd::prelude::*;

use crate::body::{
    cleaned_len, comma_tokens, doc_len, emitted, fields_tokens, is_cleaned, variant_errors,
    variants_from, written_tokens,
};
use crate::emit::{binding_name, bound_names, decimal, is_destructure, mark};
use crate::fields::{field_names, field_names_from, inner_commas, positional_count, FieldScan};
use crate::template::outcome;
use crate::token::{is_group, is_ident, is_punct, Delimiter, Ident, Span, TokenTree};
use crate::variant::{
    after_attrs, after_fields, after_ident, after_template, after_variant, after_vis, attrs_len,
    has_comma, has_eq, has_fields, lemma_attrs_len_bound, parsed_from, variant_template, vis_len,
    Shape, Variant,
};

verus! {

proof fn lemma_inner_commas_push(s: Seq<TokenTree>, c: TokenTree)
    requires
        s.len() > 0,
    ensures
        inner_commas(s.push(c)) == inner_commas(s) + (if is_punct(s.last(), ',') { 1nat } else { 0nat }),
    decreases s.len(),
{
    assert(s.push(c)[0] == s[0]);
    if s.len() == 1 {
        assert(s.push(c).drop_first() =~= seq![c]);
        assert(inner_commas(seq![c]) == 0);
        assert(s.last() == s[0]);
    } else {
        lemma_inner_commas_push(s.drop_first(), c);
        assert(s.push(c).drop_first() =~= s.drop_first().push(c));
        assert(s.drop_first().last() == s.last());
    }
}

/// A trailing separator adds no positional field: `(T)` and `(T,)` both
/// hold one field.
pub proof fn lemma_trailing_comma_positional(s: Seq<TokenTree>, comma: TokenTree)
    requires
        s.len() > 0,
        !is_punct(s.last(), ','),
        is_punct(comma, ','),
    ensures
        positional_count(s.push(comma)) == positional_count(s),
{
    lemma_inner_commas_push(s, comma);
}

proof fn lemma_field_names_push(s: Seq<TokenTree>, c: TokenTree, st: FieldScan)
    requires
        is_punct(c, ','),
    ensures
        field_names_from(s.push(c), st) == field_names_from(s, st),
    decreases s.len(),
{
    if s.len() == 1 {
        assert(s.push(c).drop_first() =~= seq![c]);
        assert(s.push(c)[1] == c);
        assert(field_names_from(seq![c], FieldScan::BeforeColon) == Seq::<Ident>::empty());
        assert(field_names_from(seq![c], FieldScan::InsideType) == Seq::<Ident>::empty());
    } else if s.len() > 1 {
        assert(s.push(c)[0] == s[0]);
        assert(s.push(c)[1] == s[1]);
        let next = if st == FieldScan::BeforeColon && is_punct(s[1], ':') {
            FieldScan::InsideType
        } else if st == FieldScan::InsideType && is_punct(s[1], ',') {
            FieldScan::BeforeColon
        } else {
            st
        };
        lemma_field_names_push(s.drop_first(), c, next);
        assert(s.push(c).drop_first() =~= s.drop_first().push(c));
    }
}

/// A trailing separator changes no field name: `{ f: T }` and `{ f: T, }`
/// declare the same fields.
pub proof fn lemma_trailing_comma_named(s: Seq<TokenTree>, comma: TokenTree)
    requires
        is_punct(comma, ','),
    ensures
        field_names(s.push(comma)) == field_names(s),
{
    lemma_field_names_push(s, comma, FieldScan::BeforeColon);
}

/// The braced field group `name: type, ...` with one entry for each name.
pub open spec fn field_list(names: Seq<Ident>, types: Seq<Seq<TokenTree>>, colon: TokenTree, comma: TokenTree) -> Seq<TokenTree>
    decreases names.len(),
{
    if names.len() == 0 || types.len() == 0 {
        seq![]
    } else {
        seq![TokenTree::Ident(names[0]), colon] + types[0] + seq![comma] + field_list(
            names.drop_first(),
            types.drop_first(),
            colon,
            comma,
        )
    }
}

/// No token of `ty` is a comma at its top level.
pub open spec fn comma_free(ty: Seq<TokenTree>) -> bool {
    forall|j: int| 0 <= j < ty.len() ==> !is_punct(#[trigger] ty[j], ',')
}

proof fn lemma_skip_type(x: TokenTree, ty: Seq<TokenTree>, comma: TokenTree, rest: Seq<TokenTree>)
    requires
        comma_free(ty),
        is_punct(comma, ','),
    ensures
        field_names_from(seq![x] + ty + seq![comma] + rest, FieldScan::InsideType)
            == field_names_from(seq![comma] + rest, FieldScan::BeforeColon),
    decreases ty.len(),
{
    let u = seq![x] + ty + seq![comma] + rest;
    if ty.len() == 0 {
        assert(u[1] == comma);
        assert(u.drop_first() =~= seq![comma] + rest);
    } else {
        assert(u[1] == ty[0]);
        assert(u.drop_first() =~= seq![ty[0]] + ty.drop_first() + seq![comma] + rest);
        lemma_skip_type(ty[0], ty.drop_first(), comma, rest);
    }
}

proof fn lemma_skip_comma(comma: TokenTree, rest: Seq<TokenTree>)
    requires
        rest.len() == 0 || rest[0] is Ident,
    ensures
        field_names_from(seq![comma] + rest, FieldScan::BeforeColon) == field_names_from(rest, FieldScan::BeforeColon),
{
    let u = seq![comma] + rest;
    if rest.len() > 0 {
        assert(u[1] == rest[0]);
        assert(u.drop_first() =~= rest);
    }
}

/// The names a braced field group binds are exactly its declared names, in
/// order, whatever colons the field types hold (`f: Box<dyn for<'a> Fn(&'a T)>`,
/// `g: <T as Tr>::Out`).
pub proof fn lemma_named_fields(names: Seq<Ident>, types: Seq<Seq<TokenTree>>, colon: TokenTree, comma: TokenTree)
    requires
        names.len() == types.len(),
        is_punct(colon, ':'),
        is_punct(comma, ','),
        forall|k: int| 0 <= k < types.len() ==> comma_free(#[trigger] types[k]),
    ensures
        field_names(field_list(names, types, colon, comma)) == names,
    decreases names.len(),
{
    if names.len() > 0 {
        let rest = field_list(names.drop_first(), types.drop_first(), colon, comma);
        let u = field_list(names, types, colon, comma);
        assert(u == seq![TokenTree::Ident(names[0]), colon] + types[0] + seq![comma] + rest);
        assert(u[1] == colon);
        assert(u[0] == TokenTree::Ident(names[0]));
        assert(u.drop_first() =~= seq![colon] + types[0] + seq![comma] + rest);
        assert(comma_free(types[0]));
        lemma_skip_type(colon, types[0], comma, rest);
        assert forall|k: int| 0 <= k < types.drop_first().len() implies comma_free(#[trigger] types.drop_first()[k]) by {
            assert(types.drop_first()[k] == types[k + 1]);
        }
        lemma_named_fields(names.drop_first(), types.drop_first(), colon, comma);
        if names.len() > 1 {
            assert(rest[0] == TokenTree::Ident(names.drop_first()[0]));
        }
        lemma_skip_comma(comma, rest);
        assert(seq![names[0]] + names.drop_first() =~= names);
    }
}

/// A variant of `n` positional fields binds exactly `n` names, `_0` up to
/// `_{n-1}`, from left to right.
pub proof fn lemma_positional_bindings(t: TokenTree, n: usize)
    requires
        is_destructure(t, Shape::Positional(n)),
    ensures
        is_group(t, Delimiter::Parenthesis),
        t->Group_0.stream@.len() == 2 * n,
        forall|k: int| 0 <= k < n ==> is_ident(#[trigger] t->Group_0.stream@[2 * k], binding_name(k as nat)),
        forall|k: int| 0 <= k < n ==> #[trigger] t->Group_0.stream@[2 * k + 1] == mark(','),
{
    let names = bound_names(Shape::Positional(n));
    assert forall|k: int| 0 <= k < n implies is_ident(#[trigger] t->Group_0.stream@[2 * k], binding_name(k as nat)) by {
        assert(names[k] == binding_name(k as nat));
    }
}

proof fn lemma_decimal_shape(n: nat)
    ensures
        decimal(n).len() >= 1,
        decimal(n).last() == ('0' as u8 + n % 10) as char,
        n < 10 ==> decimal(n).len() == 1,
        n >= 10 ==> decimal(n).drop_last() == decimal(n / 10),
    decreases n,
{
    if n >= 10 {
        lemma_decimal_shape(n / 10);
        assert((decimal(n / 10) + seq![('0' as u8 + n % 10) as char]).drop_last() =~= decimal(n / 10));
    }
}

proof fn lemma_decimal_injective(i: nat, j: nat)
    requires
        decimal(i) == decimal(j),
    ensures
        i == j,
    decreases i,
{
    lemma_decimal_shape(i);
    lemma_decimal_shape(j);
    assert(('0' as u8 + i % 10) as char == ('0' as u8 + j % 10) as char);
    assert(i % 10 == j % 10);
    if i >= 10 && j >= 10 {
        lemma_decimal_injective(i / 10, j / 10);
    } else if i >= 10 {
        lemma_decimal_shape(i / 10);
        assert(decimal(i).len() >= 2);
    } else if j >= 10 {
        lemma_decimal_shape(j / 10);
        assert(decimal(j).len() >= 2);
    }
}

/// Positional binding names are pairwise distinct, so a variant of `n`
/// positional fields binds `n` different names.
pub proof fn lemma_binding_names_distinct(i: nat, j: nat)
    requires
        i != j,
    ensures
        binding_name(i) != binding_name(j),
{
    if binding_name(i) == binding_name(j) {
        assert(binding_name(i).drop_first() =~= decimal(i));
        assert(binding_name(j).drop_first() =~= decimal(j));
        lemma_decimal_injective(i, j);
    }
}

/// Every variant of `vs` has a well-formed template.
pub open spec fn all_templated(vs: Seq<Variant>) -> bool {
    forall|k: int| 0 <= k < vs.len() ==> (#[trigger] vs[k]).template is Ok
}

/// The tokens of the variant that starts `s` before its `=`.
pub open spec fn before_template(s: Seq<TokenTree>) -> Seq<TokenTree> {
    s.take(s.len() - after_fields(s).len())
}

/// The `=` and template of the variant that starts `s`.
pub open spec fn template_tokens(s: Seq<TokenTree>) -> Seq<TokenTree> {
    after_fields(s).take(2)
}

/// The separator after the variant that starts `s`, if it has one.
pub open spec fn separator(s: Seq<TokenTree>) -> Seq<TokenTree> {
    if has_comma(s) {
        seq![after_template(s)[0]]
    } else {
        seq![]
    }
}

/// The first `count` variants of `s`, each without its `=` and template.
pub open spec fn stripped(s: Seq<TokenTree>, count: nat) -> Seq<TokenTree>
    decreases count,
{
    if count == 0 {
        seq![]
    } else {
        before_template(s) + separator(s) + stripped(after_variant(s), (count - 1) as nat)
    }
}

/// The first `count` variants of `s` with their `=` and template put back
/// between what comes before and the separator.
pub open spec fn readded(s: Seq<TokenTree>, count: nat) -> Seq<TokenTree>
    decreases count,
{
    if count == 0 {
        seq![]
    } else {
        before_template(s) + template_tokens(s) + separator(s) + readded(after_variant(s), (count - 1) as nat)
    }
}

proof fn lemma_variant_split(v: Variant, s: Seq<TokenTree>)
    requires
        parsed_from(v, s),
    ensures
        s == v.attrs@ + v.vis@ + seq![TokenTree::Ident(v.ident)] + fields_tokens(v) + after_fields(s),
        before_template(s) == v.attrs@ + v.vis@ + seq![TokenTree::Ident(v.ident)] + fields_tokens(v),
        separator(s) == comma_tokens(v),
{
    lemma_attrs_len_bound(s);
    let t = after_attrs(s);
    assert(s =~= s.take(attrs_len(s) as int) + t);
    assert(t =~= t.take(vis_len(t) as int) + after_vis(s));
    let w = after_vis(s);
    assert(w =~= seq![w[0]] + after_ident(s));
    let x = after_ident(s);
    if has_fields(s) {
        assert(x =~= seq![x[0]] + after_fields(s));
    }
    assert(s =~= v.attrs@ + v.vis@ + seq![TokenTree::Ident(v.ident)] + fields_tokens(v) + after_fields(s));
    assert(before_template(s) =~= v.attrs@ + v.vis@ + seq![TokenTree::Ident(v.ident)] + fields_tokens(v));
    assert(separator(s) =~= comma_tokens(v));
}

/// With templates everywhere and no documentation asked for, the cleaned
/// variant list is the input's, token for token, with each variant's `=`
/// and template taken out, and nothing is reported.
pub proof fn lemma_cleaned_is_stripped(
    vs: Seq<Variant>,
    s: Seq<TokenTree>,
    d: Seq<TokenTree>,
    a: Seq<TokenTree>,
    e: Seq<(Span, Seq<char>)>,
)
    requires
        variants_from(vs, s),
        all_templated(vs),
        emitted(vs, false, d, a, e),
    ensures
        d == stripped(s, vs.len()),
        e.len() == 0,
    decreases vs.len(),
{
    if vs.len() > 0 {
        let v = vs[0];
        assert(v.template is Ok);
        lemma_variant_split(v, s);
        let n = cleaned_len(v, false) as int;
        let x = d.take(n);
        assert(is_cleaned(x, v, false));
        assert(doc_len(v, false) == 0);
        let na = v.attrs@.len() as int;
        assert(x =~= x.take(na) + x.skip(na));
        assert(x =~= v.attrs@ + written_tokens(v));
        assert(x =~= before_template(s) + separator(s));
        assert(variant_errors(v).len() == 0);
        assert(e.skip(0) =~= e);
        assert forall|k: int| 0 <= k < vs.drop_first().len() implies (#[trigger] vs.drop_first()[k]).template is Ok by {
            assert(vs.drop_first()[k] == vs[k + 1]);
        }
        lemma_cleaned_is_stripped(vs.drop_first(), after_variant(s), d.skip(n), a.skip(12), e);
        assert(d =~= x + d.skip(n));
    }
}

proof fn lemma_readded(vs: Seq<Variant>, s: Seq<TokenTree>)
    requires
        variants_from(vs, s),
        all_templated(vs),
    ensures
        readded(s, vs.len()) == s,
    decreases vs.len(),
{
    if vs.len() > 0 {
        let v = vs[0];
        assert(v.template is Ok);
        lemma_variant_split(v, s);
        assert(outcome(v.template) == variant_template(s, v.ident));
        assert(has_eq(s));
        let f = after_fields(s);
        assert(f.drop_first().len() > 0);
        assert(after_template(s) =~= f.skip(2));
        assert(f =~= template_tokens(s) + after_template(s));
        assert(after_template(s) =~= separator(s) + after_variant(s));
        assert forall|k: int| 0 <= k < vs.drop_first().len() implies (#[trigger] vs.drop_first()[k]).template is Ok by {
            assert(vs.drop_first()[k] == vs[k + 1]);
        }
        lemma_readded(vs.drop_first(), after_variant(s));
        assert(s =~= before_template(s) + template_tokens(s) + separator(s) + after_variant(s));
    }
}

proof fn lemma_parse_unique(vs: Seq<Variant>, ws: Seq<Variant>, s: Seq<TokenTree>)
    requires
        variants_from(vs, s),
        variants_from(ws, s),
        all_templated(vs),
    ensures
        vs.len() == ws.len(),
        all_templated(ws),
    decreases vs.len(),
{
    if vs.len() > 0 {
        assert(ws.len() > 0);
        assert(vs[0].ident == ws[0].ident);
        assert(vs[0].template is Ok);
        assert(outcome(ws[0].template) == outcome(vs[0].template));
        assert forall|k: int| 0 <= k < vs.drop_first().len() implies (#[trigger] vs.drop_first()[k]).template is Ok by {
            assert(vs.drop_first()[k] == vs[k + 1]);
        }
        lemma_parse_unique(vs.drop_first(), ws.drop_first(), after_variant(s));
        assert forall|k: int| 0 <= k < ws.len() implies (#[trigger] ws[k]).template is Ok by {
            if k > 0 {
                assert(ws.drop_first()[k - 1] == ws[k]);
            }
        }
    } else {
        if ws.len() > 0 {
            assert(s.len() == 0);
        }
    }
}

/// Cleaning is stable: putting every variant's `=` and template back into
/// the cleaned tokens gives back the input, and the input so rebuilt cleans
/// to the same tokens again.
pub proof fn lemma_round_trip(
    vs: Seq<Variant>,
    s: Seq<TokenTree>,
    d: Seq<TokenTree>,
    a: Seq<TokenTree>,
    e: Seq<(Span, Seq<char>)>,
    ws: Seq<Variant>,
    d2: Seq<TokenTree>,
    a2: Seq<TokenTree>,
    e2: Seq<(Span, Seq<char>)>,
)
    requires
        variants_from(vs, s),
        all_templated(vs),
        emitted(vs, false, d, a, e),
        variants_from(ws, readded(s, vs.len())),
        emitted(ws, false, d2, a2, e2),
    ensures
        readded(s, vs.len()) == s,
        d2 == d,
{
    lemma_readded(vs, s);
    lemma_parse_unique(vs, ws, s);
    lemma_cleaned_is_stripped(vs, s, d, a, e);
    lemma_cleaned_is_stripped(ws, s, d2, a2, e2);
}

} // verus!
