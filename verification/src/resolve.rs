//! The discriminant resolver: assigns every unit variant, in
//! declaration order, its integer discriminant. An explicit value is
//! taken as written; an omitted value continues from the previous
//! variant's resolved value plus one; the first variant defaults to
//! zero. No uniqueness check is made: two variants may resolve to the
//! same discriminant.

use vstd::prelude::*;

use crate::decl::{in_repr_range, repr_max, ReprType, UnitEntry, UnitView};

verus! {

/// The resolved discriminant of the unit variant at position `i`:
/// its explicit value when one was declared, otherwise one more than
/// the previous variant's resolved value, and zero for the first
/// variant.
pub open spec fn resolved_value(units: Seq<UnitView>, i: int) -> int
    recommends
        0 <= i < units.len(),
    decreases i,
{
    if i <= 0 {
        match units[0].explicit_discriminant {
            Some(v) => v as int,
            None => 0,
        }
    } else {
        match units[i].explicit_discriminant {
            Some(v) => v as int,
            None => resolved_value(units, i - 1) + 1,
        }
    }
}

/// True when every explicit discriminant among the unit entries is a
/// value of the representation `r`.
pub open spec fn explicits_in_range(units: Seq<UnitView>, r: ReprType) -> bool {
    forall|j: int|
        0 <= j < units.len() ==> match (#[trigger] units[j]).explicit_discriminant {
            Some(v) => in_repr_range(r, v as int),
            None => true,
        }
}

/// Every resolved discriminant exceeds the representation's largest
/// value by at most the variant's position: an implicit run climbs by
/// one per variant from a value of the representation (or from zero).
pub proof fn lemma_resolved_value_bound(units: Seq<UnitView>, r: ReprType, i: int)
    requires
        explicits_in_range(units, r),
        0 <= i < units.len(),
    ensures
        resolved_value(units, i) <= repr_max(r) + i,
    decreases i,
{
    if i > 0 && units[i].explicit_discriminant is None {
        lemma_resolved_value_bound(units, r, i - 1);
    }
}

/// Resolves the discriminant of every unit entry, in declaration
/// order, following the implicit-increment rule of [`resolved_value`].
pub fn resolve_discriminants(repr: ReprType, units: &Vec<UnitEntry>) -> (r: Vec<i128>)
    requires
        explicits_in_range(units.deep_view(), repr),
    ensures
        r@.len() == units.deep_view().len(),
        forall|j: int|
            0 <= j < r@.len() ==> #[trigger] r@[j] as int == resolved_value(units.deep_view(), j),
{
    let ghost uv = units.deep_view();
    let mut out: Vec<i128> = Vec::new();
    let mut last: Option<i128> = None;
    let n = units.len();
    let mut i: usize = 0;
    while i < n
        invariant
            i <= n,
            n == units.len(),
            uv == units.deep_view(),
            uv.len() == n,
            explicits_in_range(uv, repr),
            out@.len() == i,
            forall|j: int| 0 <= j < i ==> #[trigger] out@[j] as int == resolved_value(uv, j),
            i == 0 ==> last is None,
            i > 0 ==> match last {
                Some(l) => l as int == resolved_value(uv, i - 1),
                None => false,
            },
        decreases n - i,
    {
        proof {
            assert(uv[i as int] == units[i as int]@);
            if i > 0 {
                lemma_resolved_value_bound(uv, repr, i as int - 1);
                assert(repr_max(repr) <= u64::MAX as int);
            }
        }
        let v: i128 = match units[i].explicit_discriminant {
            Some(e) => e,
            None => match last {
                Some(l) => l + 1,
                None => 0,
            },
        };
        out.push(v);
        last = Some(v);
        i += 1;
    }
    out
}

} // verus!
