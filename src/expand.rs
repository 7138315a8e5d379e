use vstd::prelude::*;

use crate::body::{emit_variants, emitted, error_views};
use crate::diagnostic::{renders_error, CompileError};
use crate::emit::{display_impl, is_display_impl, is_group_of};
use crate::header::{declaration_error, declaration_from, modifier_errors, parse_declaration, parse_modifiers, wants_docs, Declaration};
use crate::token::{Delimiter, Span, TokenTree};

verus! {

/// `t` reports each of `es` in turn.
pub open spec fn renders_errors(t: Seq<TokenTree>, es: Seq<(Span, Seq<char>)>) -> bool {
    &&& t.len() == 3 * es.len()
    &&& forall|k: int| 0 <= k < es.len() ==> renders_error(#[trigger] t.subrange(3 * k, 3 * k + 3), es[k])
}

/// The tokens that report `errors`, in order.
pub fn render_errors(errors: Vec<CompileError>) -> (r: Vec<TokenTree>)
    ensures
        renders_errors(r@, error_views(errors@)),
{
    let ghost all = error_views(errors@);
    let ghost n = errors@.len();
    let mut rest = errors;
    let mut r: Vec<TokenTree> = Vec::new();
    while rest.len() > 0
        invariant
            rest@.len() <= n,
            n == all.len(),
            error_views(rest@) == all.skip(n - rest@.len()),
            renders_errors(r@, all.take(n - rest@.len())),
        decreases rest.len(),
    {
        let ghost r0 = r@;
        let ghost i = n - rest@.len();
        let ghost rest0 = rest@;
        let e = rest.remove(0);
        assert(all[i] == e@) by {
            assert(error_views(rest0)[0] == e@);
        }
        let mut t = e.to_tokens();
        let ghost tl = t@;
        r.append(&mut t);
        assert(r0.len() == 3 * i);
        assert(error_views(rest@) =~= all.skip(n - rest@.len())) by {
            assert(error_views(rest@) =~= error_views(rest0).drop_first());
        }
        let ghost es = all.take(i + 1);
        assert forall|k: int| 0 <= k < es.len() implies renders_error(#[trigger] r@.subrange(3 * k, 3 * k + 3), es[k]) by {
            if k < i {
                assert(r@.subrange(3 * k, 3 * k + 3) =~= r0.subrange(3 * k, 3 * k + 3));
                assert(all.take(i)[k] == es[k]);
            } else {
                assert(r@.subrange(3 * k, 3 * k + 3) =~= tl);
            }
        }
    }
    assert(all.take(n as int) =~= all);
    r
}

/// `r` is the expansion of the declaration `d` under the modifiers `args`:
/// the cleaned declaration, every diagnostic, and the `Display` impl.
pub open spec fn is_expansion(r: Seq<TokenTree>, args: Seq<TokenTree>, d: Declaration) -> bool {
    exists|decl: Seq<TokenTree>, arms: Seq<TokenTree>, errs: Seq<(Span, Seq<char>)>|
        #[trigger] emitted(d.variants@, wants_docs(args), decl, arms, errs) && {
            let all = modifier_errors(args) + errs;
            let pre = d.header@ + seq![TokenTree::Ident(d.name)] + d.generics@ + d.constraints@;
            let n = pre.len() as int;
            let m = 3 * all.len() as int;
            &&& r.len() == n + 1 + m + 13
            &&& r.take(n) == pre
            &&& is_group_of(r[n], Delimiter::Brace, decl)
            &&& renders_errors(r.subrange(n + 1, n + 1 + m), all)
            &&& is_display_impl(r.skip(n + 1 + m), d.name, arms)
        }
}

/// Expands a tagged-union declaration `item` whose variants carry string
/// templates: the declaration without its templates, one report per
/// diagnostic, and a `Display` impl whose match has one arm per variant.
/// Where the declaration cannot be read at all, the result reports that one
/// diagnostic alone.
pub fn display(args: Vec<TokenTree>, item: Vec<TokenTree>) -> (r: Vec<TokenTree>)
    ensures
        (exists|d: Declaration| #[trigger] declaration_from(d, item@) && is_expansion(r@, args@, d))
            || (exists|e: (Span, Seq<char>)| #[trigger] declaration_error(item@, e) && renders_error(r@, e)),
{
    let (doc, mut errors) = parse_modifiers(&args);
    match parse_declaration(item) {
        Err(e) => {
            let ghost ev = e@;
            let r = e.to_tokens();
            assert(declaration_error(item@, ev) && renders_error(r@, ev));
            r
        },
        Ok(d) => {
            let ghost d0 = d;
            let Declaration { header, name, generics, constraints, variants } = d;
            let ghost e0 = error_views(errors@);
            let (decl, arms, mut verrs) = emit_variants(variants, doc);
            let ghost ev = error_views(verrs@);
            errors.append(&mut verrs);
            assert(error_views(errors@) =~= e0 + ev);
            let mut out = header;
            out.push(TokenTree::Ident(name.copy()));
            let mut generics = generics;
            out.append(&mut generics);
            let mut constraints = constraints;
            out.append(&mut constraints);
            let ghost pre = out@;
            let ghost dl = decl@;
            let ghost al = arms@;
            out.push(TokenTree::group(Delimiter::Brace, decl));
            let mut reports = render_errors(errors);
            let ghost rl = reports@;
            out.append(&mut reports);
            let mut imp = display_impl(name, arms);
            let ghost il = imp@;
            out.append(&mut imp);
            proof {
                let n = pre.len() as int;
                let m = rl.len() as int;
                assert(pre =~= d0.header@ + seq![TokenTree::Ident(d0.name)] + d0.generics@ + d0.constraints@);
                assert(out@.take(n) =~= pre);
                assert(out@.subrange(n + 1, n + 1 + m) =~= rl);
                assert(out@.skip(n + 1 + m) =~= il);
                assert(emitted(d0.variants@, wants_docs(args@), dl, al, ev));
                assert(is_expansion(out@, args@, d0));
            }
            out
        },
    }
}

} // verus!
