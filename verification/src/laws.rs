//! Laws of the derived lookup tables, each stated over the
//! mathematical models that the operations' own contracts use.

use vstd::prelude::*;

use crate::classify::{is_catch_all_decl, lemma_two_catch_alls_rejected, unit_count, unit_entries};
use crate::decl::{ClassifyError, DeclView, ReprType};
use crate::table::{table_outcome, EnumValue, TableView};

verus! {

/// `len` counts exactly the unit variants of the declaration, in
/// particular never the catch-all: every derived table holds one row
/// per unit entry.
pub proof fn lemma_len_counts_unit_variants(
    declared: Option<ReprType>,
    decls: Seq<DeclView>,
    tv: TableView,
)
    requires
        table_outcome(declared, decls) == Ok::<TableView, ClassifyError>(tv),
    ensures
        tv.units.len() == unit_count(decls),
{
    lemma_unit_entries_count(decls);
}

/// The unit entries are exactly as many as the declaration's unit
/// variants.
proof fn lemma_unit_entries_count(decls: Seq<DeclView>)
    ensures
        unit_entries(decls).len() == unit_count(decls),
    decreases decls.len(),
{
    if decls.len() > 0 {
        lemma_unit_entries_count(decls.drop_last());
    }
}

/// Round trip through the ordinal: for every position `i` within
/// `[0, len)`, `from_ordinal(i)` yields a variant whose ordinal is
/// `i`.
pub proof fn lemma_from_ordinal_round_trip(tv: TableView, i: int)
    requires
        tv.wf(),
        0 <= i < tv.units.len(),
    ensures
        tv.spec_from_ordinal(i) matches Some(v) && tv.spec_ordinal(v) == i,
{
}

/// For every position outside `[0, len)`, `from_ordinal` yields
/// nothing.
pub proof fn lemma_from_ordinal_out_of_range(tv: TableView, i: int)
    requires
        !(0 <= i < tv.units.len()),
    ensures
        tv.spec_from_ordinal(i) is None,
{
}

/// The first row from `i` on with discriminant `d` is found whenever
/// some row at or after `i` carries `d`.
proof fn lemma_first_match_found(tv: TableView, d: int, i: int, o: int)
    requires
        0 <= i <= o < tv.units.len(),
        tv.units[o].discriminant == d,
    ensures
        tv.first_match_from(d, i) matches Some(f) && i <= f <= o && tv.units[f].discriminant == d
            && forall|j: int| i <= j < f ==> tv.units[j].discriminant != d,
    decreases o - i,
{
    if tv.units[i].discriminant != d {
        lemma_first_match_found(tv, d, i + 1, o);
    }
}

/// Round trip through the discriminant: for every unit variant,
/// `from_discriminant(discriminant(v))` yields the earliest-declared
/// unit variant sharing that discriminant.
pub proof fn lemma_from_discriminant_earliest(tv: TableView, o: int)
    requires
        tv.wf(),
        0 <= o < tv.units.len(),
    ensures
        ({
            let d = tv.spec_discriminant(EnumValue::Unit(o as usize));
            tv.spec_from_discriminant(d) matches Some(v) && v matches EnumValue::Unit(f) && f <= o
                && tv.units[f as int].discriminant == d && forall|j: int|
                0 <= j < f ==> tv.units[j].discriminant != d
        }),
{
    lemma_first_match_found(tv, tv.units[o].discriminant, 0, o);
}

/// When no earlier-declared unit variant shares the discriminant, the
/// round trip through the discriminant yields the variant itself.
pub proof fn lemma_from_discriminant_round_trip(tv: TableView, o: int)
    requires
        tv.wf(),
        0 <= o < tv.units.len(),
        forall|j: int| 0 <= j < o ==> tv.units[j].discriminant != tv.units[o].discriminant,
    ensures
        tv.spec_from_discriminant(tv.spec_discriminant(EnumValue::Unit(o as usize))) == Some(
            EnumValue::Unit(o as usize),
        ),
{
    lemma_first_match_found(tv, tv.units[o].discriminant, 0, o);
}

/// With a catch-all declared, `from_discriminant` never yields
/// nothing: an unmatched discriminant comes back as the catch-all.
pub proof fn lemma_catch_all_total(tv: TableView, d: int)
    requires
        tv.catch_all is Some,
    ensures
        tv.spec_from_discriminant(d) is Some,
{
}

/// `values` reproduces declaration order and leaves the catch-all
/// out: the sequence holds exactly the unit variants, the one at
/// position `i` carrying the name of the `i`-th unit entry of the
/// declaration. Its content is a function of the table alone, so any
/// two calls on one table yield equal, independent sequences.
pub proof fn lemma_values_declaration_order(
    declared: Option<ReprType>,
    decls: Seq<DeclView>,
    tv: TableView,
)
    requires
        decls.len() <= usize::MAX,
        table_outcome(declared, decls) == Ok::<TableView, ClassifyError>(tv),
    ensures
        tv.values_seq().len() == unit_entries(decls).len(),
        forall|i: int|
            0 <= i < tv.values_seq().len() ==> #[trigger] tv.values_seq()[i] == EnumValue::Unit(
                i as usize,
            ),
        forall|i: int|
            0 <= i < tv.values_seq().len() ==> tv.spec_name(#[trigger] tv.values_seq()[i])
                == unit_entries(decls)[i].name,
{
    lemma_unit_entries_len(decls);
    assert forall|i: int|
        0 <= i < tv.values_seq().len() implies tv.spec_name(#[trigger] tv.values_seq()[i])
        == unit_entries(decls)[i].name by {
        assert(tv.units[i].name == unit_entries(decls)[i].name);
    }
}

/// A declaration never holds fewer entries than its unit entries.
pub proof fn lemma_unit_entries_len(decls: Seq<DeclView>)
    ensures
        unit_entries(decls).len() <= decls.len(),
    decreases decls.len(),
{
    if decls.len() > 0 {
        lemma_unit_entries_len(decls.drop_last());
    }
}

/// A declaration with two catch-all entries never derives a table,
/// whatever else it holds.
pub proof fn lemma_two_catch_alls_reject_derivation(declared: Option<ReprType>, decls: Seq<DeclView>)
    requires
        exists|j: int, k: int|
            0 <= j < k < decls.len() && is_catch_all_decl(#[trigger] decls[j]) && is_catch_all_decl(
                #[trigger] decls[k],
            ),
    ensures
        table_outcome(declared, decls) is Err,
{
    lemma_two_catch_alls_rejected(declared, decls);
}

} // verus!
