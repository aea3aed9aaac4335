//! The variant classifier: partitions a raw ordered variant list into
//! unit entries and at most one catch-all entry, rejecting invalid
//! shapes. Entries are examined in declaration order and the first
//! offending entry decides the error.

use vstd::prelude::*;

use crate::decl::{
    effective_repr, opt_name_view, repr_or_default, ClassifyError, DeclView, ErrorKind, ReprType,
    UnitEntry, UnitView, VariantDecl, VariantShape,
};

verus! {

/// True when the entry declares a unit variant.
pub open spec fn is_unit_decl(d: DeclView) -> bool {
    d.shape is Unit
}

/// True when the entry declares a catch-all variant: a single-payload
/// entry tagged as the catch-all.
pub open spec fn is_catch_all_decl(d: DeclView) -> bool {
    d.shape is Payload && d.catch_all
}

/// The error one entry triggers, if any, given the declared
/// representation and whether a catch-all was already recorded.
pub open spec fn decl_error(d: DeclView, declared: Option<ReprType>, seen_catch_all: bool) -> Option<
    ErrorKind,
> {
    match d.shape {
        VariantShape::Unit { .. } => if d.catch_all {
            Some(ErrorKind::TaggedUnit)
        } else {
            None
        },
        VariantShape::Payload { field_type } => if !d.catch_all {
            Some(ErrorKind::UntaggedPayload)
        } else if seen_catch_all {
            Some(ErrorKind::ExtraCatchAll)
        } else if declared is None {
            Some(ErrorKind::MissingRepr)
        } else if field_type != Some(effective_repr(declared)) {
            Some(ErrorKind::PayloadMismatch)
        } else {
            None
        },
        VariantShape::Irregular => Some(ErrorKind::MalformedVariant),
    }
}

/// Scans the declaration from entry `i` on and yields the first error,
/// threading whether a catch-all was already recorded.
pub open spec fn scan_error(
    decls: Seq<DeclView>,
    declared: Option<ReprType>,
    i: int,
    seen_catch_all: bool,
) -> Option<ClassifyError>
    decreases decls.len() - i,
{
    if i < 0 || i >= decls.len() {
        None
    } else {
        match decl_error(decls[i], declared, seen_catch_all) {
            Some(k) => Some(ClassifyError { kind: k, index: i as usize }),
            None => scan_error(decls, declared, i + 1, seen_catch_all || is_catch_all_decl(decls[i])),
        }
    }
}

/// The first error of the whole declaration, if any.
pub open spec fn classification_error(declared: Option<ReprType>, decls: Seq<DeclView>) -> Option<
    ClassifyError,
> {
    scan_error(decls, declared, 0, false)
}

/// The unit entries of the declaration, in declaration order.
pub open spec fn unit_entries(decls: Seq<DeclView>) -> Seq<UnitView>
    decreases decls.len(),
{
    if decls.len() == 0 {
        Seq::empty()
    } else {
        let front = unit_entries(decls.drop_last());
        match decls.last().shape {
            VariantShape::Unit { explicit_discriminant } => front.push(
                UnitView { name: decls.last().name, explicit_discriminant },
            ),
            _ => front,
        }
    }
}

/// The name of the first catch-all entry, if any.
pub open spec fn catch_all_name(decls: Seq<DeclView>) -> Option<Seq<char>>
    decreases decls.len(),
{
    if decls.len() == 0 {
        None
    } else {
        match catch_all_name(decls.drop_last()) {
            Some(n) => Some(n),
            None => if is_catch_all_decl(decls.last()) {
                Some(decls.last().name)
            } else {
                None
            },
        }
    }
}

/// How many entries of the declaration are unit entries.
pub open spec fn unit_count(decls: Seq<DeclView>) -> nat
    decreases decls.len(),
{
    if decls.len() == 0 {
        0
    } else {
        unit_count(decls.drop_last()) + if is_unit_decl(decls.last()) {
            1nat
        } else {
            0nat
        }
    }
}

/// The classifier's output: the effective representation, the unit
/// entries in declaration order, and the catch-all's name, if any.
pub struct Classified {
    pub repr: ReprType,
    pub units: Vec<UnitEntry>,
    pub catch_all: Option<String>,
}

/// Mathematical model of a [`Classified`].
#[verifier::ext_equal]
pub struct ClassifiedView {
    pub repr: ReprType,
    pub units: Seq<UnitView>,
    pub catch_all: Option<Seq<char>>,
}

impl View for Classified {
    type V = ClassifiedView;

    open spec fn view(&self) -> ClassifiedView {
        ClassifiedView {
            repr: self.repr,
            units: self.units.deep_view(),
            catch_all: opt_name_view(self.catch_all),
        }
    }
}

/// What classifying a declaration yields: the first error when one
/// entry is invalid, the classified declaration otherwise.
pub open spec fn classification(declared: Option<ReprType>, decls: Seq<DeclView>) -> Result<
    ClassifiedView,
    ClassifyError,
> {
    match classification_error(declared, decls) {
        Some(e) => Err(e),
        None => Ok(
            ClassifiedView {
                repr: effective_repr(declared),
                units: unit_entries(decls),
                catch_all: catch_all_name(decls),
            },
        ),
    }
}

/// Partitions the declared variants into unit entries and at most one
/// catch-all entry, in declaration order, rejecting the first invalid
/// entry: a unit entry tagged as catch-all, an untagged or malformed
/// payload entry, a second catch-all, a catch-all without an explicit
/// representation, or a catch-all whose payload type differs from the
/// representation.
pub fn classify(declared: Option<ReprType>, decls: &Vec<VariantDecl>) -> (r: Result<
    Classified,
    ClassifyError,
>)
    ensures
        match r {
            Ok(c) => classification(declared, decls.deep_view()) matches Ok(cv) && c@ == cv,
            Err(e) => classification(declared, decls.deep_view()) matches Err(e2) && e == e2,
        },
{
    let ghost dv = decls.deep_view();
    let repr = repr_or_default(declared);
    let mut units: Vec<UnitEntry> = Vec::new();
    let mut catch_all: Option<String> = None;
    let n = decls.len();
    let mut i: usize = 0;
    while i < n
        invariant
            i <= n,
            n == decls.len(),
            dv == decls.deep_view(),
            dv.len() == n,
            repr == effective_repr(declared),
            scan_error(dv, declared, 0, false) == scan_error(
                dv,
                declared,
                i as int,
                catch_all is Some,
            ),
            units.deep_view() == unit_entries(dv.take(i as int)),
            opt_name_view(catch_all) == catch_all_name(dv.take(i as int)),
        decreases n - i,
    {
        let d = &decls[i];
        proof {
            assert(dv[i as int] == d@);
            assert(dv.take(i as int + 1).drop_last() =~= dv.take(i as int));
            assert(dv.take(i as int + 1).last() == dv[i as int]);
        }
        match &d.shape {
            VariantShape::Unit { explicit_discriminant } => {
                if d.catch_all {
                    return Err(ClassifyError { kind: ErrorKind::TaggedUnit, index: i });
                }
                units.push(
                    UnitEntry { name: d.name.clone(), explicit_discriminant: *explicit_discriminant },
                );
                proof {
                    assert(units.deep_view() =~= unit_entries(dv.take(i as int + 1)));
                }
            },
            VariantShape::Payload { field_type } => {
                if !d.catch_all {
                    return Err(ClassifyError { kind: ErrorKind::UntaggedPayload, index: i });
                }
                if catch_all.is_some() {
                    return Err(ClassifyError { kind: ErrorKind::ExtraCatchAll, index: i });
                }
                if declared.is_none() {
                    return Err(ClassifyError { kind: ErrorKind::MissingRepr, index: i });
                }
                let matches_repr = match field_type {
                    Some(ft) => *ft == repr,
                    None => false,
                };
                if !matches_repr {
                    return Err(ClassifyError { kind: ErrorKind::PayloadMismatch, index: i });
                }
                catch_all = Some(d.name.clone());
            },
            VariantShape::Irregular => {
                return Err(ClassifyError { kind: ErrorKind::MalformedVariant, index: i });
            },
        }
        i += 1;
    }
    proof {
        assert(dv.take(n as int) =~= dv);
    }
    Ok(Classified { repr, units, catch_all })
}

/// What one entry must look like for the declaration to classify: a
/// unit entry must not be tagged as the catch-all, a payload entry
/// must be tagged and carry the enum's explicitly declared
/// representation as its payload type, and no other shape is legal.
pub open spec fn entry_ok(d: DeclView, declared: Option<ReprType>) -> bool {
    match d.shape {
        VariantShape::Unit { .. } => !d.catch_all,
        VariantShape::Payload { field_type } => d.catch_all && declared is Some && field_type
            == Some(effective_repr(declared)),
        VariantShape::Irregular => false,
    }
}

/// True when no two entries of the declaration are both catch-alls.
pub open spec fn at_most_one_catch_all(decls: Seq<DeclView>) -> bool {
    forall|j: int, k: int|
        0 <= j < k < decls.len() ==> !(is_catch_all_decl(#[trigger] decls[j])
            && is_catch_all_decl(#[trigger] decls[k]))
}

/// If no entry from `i` on errors, every entry from `i` on is well
/// shaped.
proof fn scan_ok_entries_ok(
    decls: Seq<DeclView>,
    declared: Option<ReprType>,
    i: int,
    seen_catch_all: bool,
)
    requires
        0 <= i,
        scan_error(decls, declared, i, seen_catch_all) is None,
    ensures
        forall|j: int| i <= j < decls.len() ==> entry_ok(#[trigger] decls[j], declared),
    decreases decls.len() - i,
{
    if i < decls.len() {
        assert(decl_error(decls[i], declared, seen_catch_all) is None);
        scan_ok_entries_ok(decls, declared, i + 1, seen_catch_all || is_catch_all_decl(decls[i]));
    }
}

/// If every entry from `i` on is well shaped, no two of them are both
/// catch-alls, and none is once a catch-all was already recorded, then
/// no entry from `i` on errors.
proof fn entries_ok_scan_ok(
    decls: Seq<DeclView>,
    declared: Option<ReprType>,
    i: int,
    seen_catch_all: bool,
)
    requires
        0 <= i,
        forall|j: int| i <= j < decls.len() ==> entry_ok(#[trigger] decls[j], declared),
        at_most_one_catch_all(decls),
        seen_catch_all ==> forall|j: int|
            i <= j < decls.len() ==> !is_catch_all_decl(#[trigger] decls[j]),
    ensures
        scan_error(decls, declared, i, seen_catch_all) is None,
    decreases decls.len() - i,
{
    if i < decls.len() {
        assert(decl_error(decls[i], declared, seen_catch_all) is None);
        entries_ok_scan_ok(decls, declared, i + 1, seen_catch_all || is_catch_all_decl(decls[i]));
    }
}

/// A declaration classifies exactly when every entry is well shaped
/// and no second catch-all is declared.
pub proof fn lemma_classification_succeeds_iff(declared: Option<ReprType>, decls: Seq<DeclView>)
    ensures
        (classification(declared, decls) is Ok) <==> ((forall|i: int|
            0 <= i < decls.len() ==> entry_ok(#[trigger] decls[i], declared))
            && at_most_one_catch_all(decls)),
{
    if classification_error(declared, decls) is None {
        scan_ok_entries_ok(decls, declared, 0, false);
        scan_ok_single_catch_all(decls, declared, 0, false);
    } else {
        if (forall|i: int| 0 <= i < decls.len() ==> entry_ok(#[trigger] decls[i], declared))
            && at_most_one_catch_all(decls) {
            entries_ok_scan_ok(decls, declared, 0, false);
        }
    }
}

/// If no entry from `i` on errors, then no two entries from `i` on are
/// both catch-all entries, and none is once a catch-all was already
/// recorded.
proof fn scan_ok_single_catch_all(
    decls: Seq<DeclView>,
    declared: Option<ReprType>,
    i: int,
    seen_catch_all: bool,
)
    requires
        0 <= i,
        scan_error(decls, declared, i, seen_catch_all) is None,
    ensures
        seen_catch_all ==> forall|j: int|
            i <= j < decls.len() ==> !is_catch_all_decl(#[trigger] decls[j]),
        forall|j: int, k: int|
            i <= j < k < decls.len() ==> !(is_catch_all_decl(#[trigger] decls[j])
                && is_catch_all_decl(#[trigger] decls[k])),
    decreases decls.len() - i,
{
    if i < decls.len() {
        assert(decl_error(decls[i], declared, seen_catch_all) is None);
        scan_ok_single_catch_all(
            decls,
            declared,
            i + 1,
            seen_catch_all || is_catch_all_decl(decls[i]),
        );
    }
}

/// A declaration with two catch-all entries never classifies, whatever
/// else it holds.
pub proof fn lemma_two_catch_alls_rejected(declared: Option<ReprType>, decls: Seq<DeclView>)
    requires
        exists|j: int, k: int|
            0 <= j < k < decls.len() && is_catch_all_decl(#[trigger] decls[j]) && is_catch_all_decl(
                #[trigger] decls[k],
            ),
    ensures
        classification(declared, decls) is Err,
{
    if classification_error(declared, decls) is None {
        scan_ok_single_catch_all(decls, declared, 0, false);
    }
}

} // verus!
