//! The lookup table builder: from a classified declaration with
//! resolved discriminants it builds the table behind the operations
//! `name`, `ordinal`, `from_ordinal`, `discriminant`,
//! `from_discriminant`, `len` and `values`. All operations are pure
//! lookups over the fixed table; none mutates it.

use vstd::prelude::*;

use crate::classify::{classification, classify, unit_entries, Classified, ClassifiedView};
use crate::decl::{
    in_repr_range, effective_repr, opt_name_view, ClassifyError, DeclView, ReprType, UnitView,
    VariantDecl, VariantShape,
};
use crate::resolve::{explicits_in_range, resolve_discriminants, resolved_value};

verus! {

/// One unit variant with everything the table needs: its declared
/// name, its zero-based position among unit variants, and its resolved
/// discriminant.
pub struct ResolvedVariant {
    pub name: String,
    pub ordinal: usize,
    pub discriminant: i128,
}

/// Mathematical model of a [`ResolvedVariant`].
#[verifier::ext_equal]
pub struct RowView {
    pub name: Seq<char>,
    pub ordinal: int,
    pub discriminant: int,
}

impl View for ResolvedVariant {
    type V = RowView;

    open spec fn view(&self) -> RowView {
        RowView {
            name: self.name@,
            ordinal: self.ordinal as int,
            discriminant: self.discriminant as int,
        }
    }
}

impl DeepView for ResolvedVariant {
    type V = RowView;

    open spec fn deep_view(&self) -> RowView {
        self@
    }
}

/// An instance of the described enum: a unit variant, identified by
/// its ordinal, or the catch-all variant carrying its payload value.
#[derive(Clone, Copy, Debug, PartialEq, Eq, Structural)]
pub enum EnumValue {
    Unit(usize),
    Other(i128),
}

/// Mathematical model of an [`EnumTable`].
#[verifier::ext_equal]
pub struct TableView {
    pub repr: ReprType,
    pub units: Seq<RowView>,
    pub catch_all: Option<Seq<char>>,
}

impl TableView {
    /// Each row's stored ordinal is its position, and the table is
    /// small enough for positions to be held in a machine word.
    pub open spec fn wf(self) -> bool {
        &&& self.units.len() <= usize::MAX
        &&& forall|i: int| 0 <= i < self.units.len() ==> (#[trigger] self.units[i]).ordinal == i
    }

    /// True when `v` is an instance of the enum this table describes:
    /// a unit variant the table holds, or, where a catch-all is
    /// declared, the catch-all carrying a value of the representation.
    pub open spec fn valid_value(self, v: EnumValue) -> bool {
        match v {
            EnumValue::Unit(o) => o < self.units.len(),
            EnumValue::Other(p) => self.catch_all is Some && in_repr_range(self.repr, p as int),
        }
    }

    /// The declared identifier of the active variant.
    pub open spec fn spec_name(self, v: EnumValue) -> Seq<char>
        recommends
            self.valid_value(v),
    {
        match v {
            EnumValue::Unit(o) => self.units[o as int].name,
            EnumValue::Other(_) => self.catch_all.unwrap(),
        }
    }

    /// The position of the active variant: a unit variant's position
    /// among unit variants, and one past the last for the catch-all,
    /// whatever its payload.
    pub open spec fn spec_ordinal(self, v: EnumValue) -> int {
        match v {
            EnumValue::Unit(o) => o as int,
            EnumValue::Other(_) => self.units.len() as int,
        }
    }

    /// The unit variant at position `ord`; nothing outside
    /// `[0, units.len())`. The catch-all is never reached this way.
    pub open spec fn spec_from_ordinal(self, ord: int) -> Option<EnumValue> {
        if 0 <= ord < self.units.len() {
            Some(EnumValue::Unit(ord as usize))
        } else {
            None
        }
    }

    /// The discriminant of the active variant: a unit variant's
    /// resolved value, the catch-all's payload verbatim.
    pub open spec fn spec_discriminant(self, v: EnumValue) -> int
        recommends
            self.valid_value(v),
    {
        match v {
            EnumValue::Unit(o) => self.units[o as int].discriminant,
            EnumValue::Other(p) => p as int,
        }
    }

    /// The position of the first row from `i` on whose discriminant is
    /// `d`, if any.
    pub open spec fn first_match_from(self, d: int, i: int) -> Option<int>
        decreases self.units.len() - i,
    {
        if i < 0 || i >= self.units.len() {
            None
        } else if self.units[i].discriminant == d {
            Some(i)
        } else {
            self.first_match_from(d, i + 1)
        }
    }

    /// The instance a discriminant maps back to: the earliest-declared
    /// unit variant with that discriminant; where none matches, the
    /// catch-all carrying `d` if one is declared, nothing otherwise.
    pub open spec fn spec_from_discriminant(self, d: int) -> Option<EnumValue> {
        match self.first_match_from(d, 0) {
            Some(i) => Some(EnumValue::Unit(i as usize)),
            None => if self.catch_all is Some {
                Some(EnumValue::Other(d as i128))
            } else {
                None
            },
        }
    }

    /// All unit variants in declaration order; the catch-all is left
    /// out.
    pub open spec fn values_seq(self) -> Seq<EnumValue> {
        Seq::new(self.units.len(), |i: int| EnumValue::Unit(i as usize))
    }
}

/// The lookup table of one enum: its representation, one row per unit
/// variant in declaration order, and the catch-all's name, if any.
pub struct EnumTable {
    pub repr: ReprType,
    pub units: Vec<ResolvedVariant>,
    pub catch_all: Option<String>,
}

impl View for EnumTable {
    type V = TableView;

    open spec fn view(&self) -> TableView {
        TableView {
            repr: self.repr,
            units: self.units.deep_view(),
            catch_all: opt_name_view(self.catch_all),
        }
    }
}

impl EnumTable {
    /// The count of unit variants; the catch-all is not counted.
    pub fn len(&self) -> (r: usize)
        ensures
            r == self@.units.len(),
    {
        self.units.len()
    }

    /// The declared identifier of the active variant; for the
    /// catch-all instance, the catch-all's declared identifier,
    /// whatever its payload.
    pub fn name(&self, v: &EnumValue) -> (r: &str)
        requires
            self@.valid_value(*v),
        ensures
            r@ == self@.spec_name(*v),
    {
        match v {
            EnumValue::Unit(o) => self.units[*o].name.as_str(),
            EnumValue::Other(_) => self.catch_all.as_ref().unwrap().as_str(),
        }
    }

    /// The zero-based position of the active variant among unit
    /// variants; the catch-all sits one past the last unit variant,
    /// whatever its payload.
    pub fn ordinal(&self, v: &EnumValue) -> (r: usize)
        requires
            self@.valid_value(*v),
        ensures
            r as int == self@.spec_ordinal(*v),
    {
        match v {
            EnumValue::Unit(o) => *o,
            EnumValue::Other(_) => self.units.len(),
        }
    }

    /// The unit variant at position `ord`, or nothing when `ord` is
    /// out of range; the catch-all is never reached this way.
    pub fn from_ordinal(&self, ord: usize) -> (r: Option<EnumValue>)
        ensures
            r == self@.spec_from_ordinal(ord as int),
            r matches Some(v) ==> self@.valid_value(v),
    {
        if ord < self.units.len() {
            Some(EnumValue::Unit(ord))
        } else {
            None
        }
    }

    /// The discriminant of the active variant: a unit variant's
    /// resolved value, the catch-all's stored payload verbatim.
    pub fn discriminant(&self, v: &EnumValue) -> (r: i128)
        requires
            self@.valid_value(*v),
        ensures
            r as int == self@.spec_discriminant(*v),
    {
        match v {
            EnumValue::Unit(o) => self.units[*o].discriminant,
            EnumValue::Other(p) => *p,
        }
    }

    /// The instance the discriminant `d` maps back to, scanning unit
    /// variants in declaration order so that the earliest-declared of
    /// several equal discriminants wins. With a catch-all declared the
    /// result is never `None`: an unmatched `d` comes back as the
    /// catch-all carrying `d`.
    pub fn from_discriminant(&self, d: i128) -> (r: Option<EnumValue>)
        requires
            in_repr_range(self@.repr, d as int),
        ensures
            r == self@.spec_from_discriminant(d as int),
            r matches Some(v) ==> self@.valid_value(v),
            self@.catch_all is Some ==> r is Some,
    {
        let n = self.units.len();
        let mut i: usize = 0;
        while i < n
            invariant
                i <= n,
                n == self@.units.len(),
                self@.first_match_from(d as int, 0) == self@.first_match_from(d as int, i as int),
            decreases n - i,
        {
            if self.units[i].discriminant == d {
                return Some(EnumValue::Unit(i));
            }
            i += 1;
        }
        match &self.catch_all {
            Some(_) => Some(EnumValue::Other(d)),
            None => None,
        }
    }

    /// A fresh sequence of all unit variants, in declaration order;
    /// the catch-all is left out. Every call yields an equal,
    /// independent sequence.
    pub fn values(&self) -> (r: Vec<EnumValue>)
        ensures
            r@ == self@.values_seq(),
    {
        let n = self.units.len();
        let mut out: Vec<EnumValue> = Vec::new();
        let mut i: usize = 0;
        while i < n
            invariant
                i <= n,
                n == self@.units.len(),
                out@.len() == i,
                forall|j: int| 0 <= j < i ==> #[trigger] out@[j] == EnumValue::Unit(j as usize),
            decreases n - i,
        {
            out.push(EnumValue::Unit(i));
            i += 1;
        }
        proof {
            assert(out@ =~= self@.values_seq());
        }
        out
    }
}

/// The table rows a classified declaration resolves to: one row per
/// unit entry, in order, carrying its position and its resolved
/// discriminant.
pub open spec fn rows_for(units: Seq<UnitView>) -> Seq<RowView> {
    Seq::new(
        units.len(),
        |i: int|
            RowView { name: units[i].name, ordinal: i, discriminant: resolved_value(units, i) },
    )
}

/// The table a classified declaration resolves to.
pub open spec fn table_view_for(c: ClassifiedView) -> TableView {
    TableView { repr: c.repr, units: rows_for(c.units), catch_all: c.catch_all }
}

/// Builds the lookup table of a classified declaration: resolves every
/// unit entry's discriminant and pairs it with its name and position.
pub fn build_table(c: &Classified) -> (t: EnumTable)
    requires
        explicits_in_range(c.units.deep_view(), c.repr),
    ensures
        t@ == table_view_for(c@),
        t@.wf(),
{
    let discriminants = resolve_discriminants(c.repr, &c.units);
    let n = c.units.len();
    let mut rows: Vec<ResolvedVariant> = Vec::new();
    let mut i: usize = 0;
    while i < n
        invariant
            i <= n,
            n == c.units.len(),
            discriminants@.len() == n,
            forall|j: int|
                0 <= j < n ==> #[trigger] discriminants@[j] as int == resolved_value(
                    c.units.deep_view(),
                    j,
                ),
            rows@.len() == i,
            forall|j: int|
                0 <= j < i ==> #[trigger] rows@[j]@ == rows_for(c.units.deep_view())[j],
        decreases n - i,
    {
        rows.push(
            ResolvedVariant {
                name: c.units[i].name.clone(),
                ordinal: i,
                discriminant: discriminants[i],
            },
        );
        proof {
            assert(rows@[i as int]@ =~= rows_for(c.units.deep_view())[i as int]);
        }
        i += 1;
    }
    let catch_all = match &c.catch_all {
        Some(s) => Some(s.clone()),
        None => None,
    };
    let t = EnumTable { repr: c.repr, units: rows, catch_all };
    proof {
        assert(t@.units =~= rows_for(c@.units));
        assert(t@ =~= table_view_for(c@));
    }
    t
}

/// True when every explicit discriminant in the declaration is a value
/// of the representation `r`; what the front end guarantees, since it
/// evaluates each explicit expression as the underlying type.
pub open spec fn decl_explicits_in_range(decls: Seq<DeclView>, r: ReprType) -> bool {
    forall|j: int|
        0 <= j < decls.len() ==> match (#[trigger] decls[j]).shape {
            VariantShape::Unit { explicit_discriminant } => match explicit_discriminant {
                Some(v) => in_repr_range(r, v as int),
                None => true,
            },
            _ => true,
        }
}

/// In-range explicit discriminants carry over from the declaration to
/// its unit entries.
pub proof fn lemma_unit_entries_in_range(decls: Seq<DeclView>, r: ReprType)
    requires
        decl_explicits_in_range(decls, r),
    ensures
        explicits_in_range(unit_entries(decls), r),
    decreases decls.len(),
{
    if decls.len() > 0 {
        assert(decl_explicits_in_range(decls.drop_last(), r));
        lemma_unit_entries_in_range(decls.drop_last(), r);
    }
}

/// What deriving a table from a declaration yields: the first
/// classification error when one entry is invalid, the resolved lookup
/// table otherwise.
pub open spec fn table_outcome(declared: Option<ReprType>, decls: Seq<DeclView>) -> Result<
    TableView,
    ClassifyError,
> {
    match classification(declared, decls) {
        Ok(c) => Ok(table_view_for(c)),
        Err(e) => Err(e),
    }
}

/// The whole derivation of one enum: classifies the declared variants
/// and builds the lookup table from the resolved discriminants, or
/// rejects the declaration with its first error.
pub fn derive_table(declared: Option<ReprType>, decls: &Vec<VariantDecl>) -> (r: Result<
    EnumTable,
    ClassifyError,
>)
    requires
        decl_explicits_in_range(decls.deep_view(), effective_repr(declared)),
    ensures
        match r {
            Ok(t) => table_outcome(declared, decls.deep_view()) matches Ok(tv) && t@ == tv
                && t@.wf(),
            Err(e) => table_outcome(declared, decls.deep_view()) matches Err(e2) && e == e2,
        },
{
    match classify(declared, decls) {
        Ok(c) => {
            proof {
                lemma_unit_entries_in_range(decls.deep_view(), effective_repr(declared));
            }
            Ok(build_table(&c))
        },
        Err(e) => Err(e),
    }
}

} // verus!
