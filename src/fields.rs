use vstd::prelude::*;

use crate::token::{is_punct, Ident, TokenTree};

verus! {

/// Commas inside a field group that some other token follows; a trailing
/// comma is not counted.
pub open spec fn inner_commas(s: Seq<TokenTree>) -> nat
    decreases s.len(),
{
    if s.len() < 2 {
        0
    } else {
        (if is_punct(s[0], ',') { 1nat } else { 0nat }) + inner_commas(s.drop_first())
    }
}

/// Number of fields of a parenthesized field group with contents `s`.
pub open spec fn positional_count(s: Seq<TokenTree>) -> nat {
    if s.len() == 0 {
        0
    } else {
        1 + inner_commas(s)
    }
}

/// Where the scan of a braced field group stands: before a field's `:`, or
/// inside the field's type, where colons belong to the type.
#[derive(Clone, Copy, Debug, PartialEq, Eq, Structural)]
pub enum FieldScan {
    BeforeColon,
    InsideType,
}

/// The field names of a braced field group, read from `s` in state `st`: an
/// identifier followed by `:` outside a type names a field and starts its
/// type; a `,` inside a type ends the field.
pub open spec fn field_names_from(s: Seq<TokenTree>, st: FieldScan) -> Seq<Ident>
    decreases s.len(),
{
    if s.len() < 2 {
        seq![]
    } else if st == FieldScan::BeforeColon && is_punct(s[1], ':') {
        let rest = field_names_from(s.drop_first(), FieldScan::InsideType);
        match s[0] {
            TokenTree::Ident(i) => seq![i] + rest,
            _ => rest,
        }
    } else if st == FieldScan::InsideType && is_punct(s[1], ',') {
        field_names_from(s.drop_first(), FieldScan::BeforeColon)
    } else {
        field_names_from(s.drop_first(), st)
    }
}

/// The field names of a braced field group with contents `s`, in order.
pub open spec fn field_names(s: Seq<TokenTree>) -> Seq<Ident> {
    field_names_from(s, FieldScan::BeforeColon)
}

/// Counts the fields of a parenthesized field group.
pub fn count_positional(fields: &Vec<TokenTree>) -> (r: usize)
    ensures
        r == positional_count(fields@),
{
    let n = fields.len();
    if n == 0 {
        return 0;
    }
    let mut commas: usize = 0;
    let mut i: usize = 0;
    assert(fields@.subrange(0, n as int) =~= fields@);
    while i + 1 < n
        invariant
            n == fields@.len(),
            n > 0,
            i < n,
            commas <= i,
            commas + inner_commas(fields@.subrange(i as int, n as int)) == inner_commas(fields@),
        decreases n - i,
    {
        assert(fields@.subrange(i as int, n as int).drop_first() =~= fields@.subrange(i + 1, n as int));
        if fields[i].is_punct(',') {
            commas = commas + 1;
        }
        i = i + 1;
    }
    assert(fields@.subrange(0, n as int) =~= fields@);
    1 + commas
}

/// Collects the field names of a braced field group.
pub fn scan_named(fields: &Vec<TokenTree>) -> (r: Vec<Ident>)
    ensures
        r@ == field_names(fields@),
{
    let n = fields.len();
    let mut names: Vec<Ident> = Vec::new();
    if n == 0 {
        return names;
    }
    let mut st = FieldScan::BeforeColon;
    let mut i: usize = 0;
    assert(fields@.subrange(0, n as int) =~= fields@);
    while i + 1 < n
        invariant
            n == fields@.len(),
            i < n,
            names@ + field_names_from(fields@.subrange(i as int, n as int), st) == field_names(fields@),
        decreases n - i,
    {
        let ghost rest = fields@.subrange(i as int, n as int);
        assert(rest.drop_first() =~= fields@.subrange(i + 1, n as int));
        if st == FieldScan::BeforeColon && fields[i + 1].is_punct(':') {
            match &fields[i] {
                TokenTree::Ident(id) => {
                    names.push(id.copy());
                },
                _ => {},
            }
            st = FieldScan::InsideType;
            assert(names@ + field_names_from(rest.drop_first(), st) =~= field_names(fields@));
        } else if st == FieldScan::InsideType && fields[i + 1].is_punct(',') {
            st = FieldScan::BeforeColon;
        }
        i = i + 1;
    }
    assert(names@ =~= names@ + field_names_from(fields@.subrange(i as int, n as int), st));
    names
}

} // verus!
