//! Data model for an enum declaration: the underlying integer
//! representation, the raw variant entries handed in by a declaration
//! front end, the unit entries that classification extracts, and the
//! errors a malformed declaration is rejected with.

use vstd::prelude::*;

verus! {

/// The integer representation underlying an enum's discriminants.
///
/// A declaration without an explicit representation defaults to `I32`.
#[derive(Clone, Copy, Debug, PartialEq, Eq, Structural)]
pub enum ReprType {
    I8,
    I16,
    I32,
    I64,
    Isize,
    U8,
    U16,
    U32,
    U64,
    Usize,
}

/// Smallest value representable in the given representation.
pub open spec fn repr_min(r: ReprType) -> int {
    match r {
        ReprType::I8 => i8::MIN as int,
        ReprType::I16 => i16::MIN as int,
        ReprType::I32 => i32::MIN as int,
        ReprType::I64 => i64::MIN as int,
        ReprType::Isize => isize::MIN as int,
        ReprType::U8 => 0,
        ReprType::U16 => 0,
        ReprType::U32 => 0,
        ReprType::U64 => 0,
        ReprType::Usize => 0,
    }
}

/// Largest value representable in the given representation.
pub open spec fn repr_max(r: ReprType) -> int {
    match r {
        ReprType::I8 => i8::MAX as int,
        ReprType::I16 => i16::MAX as int,
        ReprType::I32 => i32::MAX as int,
        ReprType::I64 => i64::MAX as int,
        ReprType::Isize => isize::MAX as int,
        ReprType::U8 => u8::MAX as int,
        ReprType::U16 => u16::MAX as int,
        ReprType::U32 => u32::MAX as int,
        ReprType::U64 => u64::MAX as int,
        ReprType::Usize => usize::MAX as int,
    }
}

/// True when `v` is a value of the representation `r`.
pub open spec fn in_repr_range(r: ReprType, v: int) -> bool {
    repr_min(r) <= v <= repr_max(r)
}

/// The representation an enum effectively uses: the declared one, or
/// the default when none was declared.
pub open spec fn effective_repr(declared: Option<ReprType>) -> ReprType {
    match declared {
        Some(r) => r,
        None => ReprType::I32,
    }
}

/// Executable counterpart of [`effective_repr`].
pub fn repr_or_default(declared: Option<ReprType>) -> (r: ReprType)
    ensures
        r == effective_repr(declared),
{
    match declared {
        Some(r) => r,
        None => ReprType::I32,
    }
}

/// The shape of one declared variant, as the front end reports it.
#[derive(Clone, Copy, Debug)]
pub enum VariantShape {
    /// A variant without any payload, optionally carrying an explicit
    /// discriminant value (already evaluated as the underlying type).
    Unit { explicit_discriminant: Option<i128> },
    /// A variant with exactly one unnamed payload field; the field's
    /// type is given when it is one of the integer representations,
    /// and `None` when it is any other type.
    Payload { field_type: Option<ReprType> },
    /// Any other shape: several fields, or named fields.
    Irregular,
}

/// One raw entry of a variant declaration, in declaration order.
pub struct VariantDecl {
    /// The declared identifier of the variant.
    pub name: String,
    /// The structural shape of the variant.
    pub shape: VariantShape,
    /// Whether the variant is tagged as the catch-all for undefined
    /// discriminant values.
    pub catch_all: bool,
}

/// Mathematical model of a [`VariantDecl`].
#[verifier::ext_equal]
pub struct DeclView {
    pub name: Seq<char>,
    pub shape: VariantShape,
    pub catch_all: bool,
}

impl View for VariantDecl {
    type V = DeclView;

    open spec fn view(&self) -> DeclView {
        DeclView { name: self.name@, shape: self.shape, catch_all: self.catch_all }
    }
}

impl DeepView for VariantDecl {
    type V = DeclView;

    open spec fn deep_view(&self) -> DeclView {
        self@
    }
}

/// A unit variant as classification extracts it: its name and its
/// explicit discriminant, when one was declared.
pub struct UnitEntry {
    pub name: String,
    pub explicit_discriminant: Option<i128>,
}

/// Mathematical model of a [`UnitEntry`].
#[verifier::ext_equal]
pub struct UnitView {
    pub name: Seq<char>,
    pub explicit_discriminant: Option<i128>,
}

impl View for UnitEntry {
    type V = UnitView;

    open spec fn view(&self) -> UnitView {
        UnitView { name: self.name@, explicit_discriminant: self.explicit_discriminant }
    }
}

impl DeepView for UnitEntry {
    type V = UnitView;

    open spec fn deep_view(&self) -> UnitView {
        self@
    }
}

/// Why a declaration was rejected.
#[derive(Clone, Copy, Debug, PartialEq, Eq, Structural)]
pub enum ErrorKind {
    /// A second catch-all entry was declared; only one is allowed.
    ExtraCatchAll,
    /// A payload-carrying entry was not tagged as the catch-all.
    UntaggedPayload,
    /// An entry has several fields or named fields.
    MalformedVariant,
    /// A unit entry was tagged as the catch-all.
    TaggedUnit,
    /// A catch-all was declared but the enum has no explicit
    /// underlying representation.
    MissingRepr,
    /// The catch-all's payload type differs from the underlying
    /// representation.
    PayloadMismatch,
}

/// A classification error, identifying the offending variant by its
/// position in the declaration.
#[derive(Clone, Copy, Debug, PartialEq, Eq, Structural)]
pub struct ClassifyError {
    pub kind: ErrorKind,
    pub index: usize,
}

/// The model of an optional variant name.
pub open spec fn opt_name_view(o: Option<String>) -> Option<Seq<char>> {
    match o {
        Some(s) => Some(s@),
        None => None,
    }
}

} // verus!
