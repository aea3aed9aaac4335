//! The lookup operations of derived tables, on concrete declarations.

use unit_enum::decl::{ReprType, VariantDecl, VariantShape};
use unit_enum::table::{derive_table, EnumTable, EnumValue};

fn unit(name: &str, explicit: Option<i128>) -> VariantDecl {
    VariantDecl {
        name: String::from(name),
        shape: VariantShape::Unit { explicit_discriminant: explicit },
        catch_all: false,
    }
}

fn catch_all(name: &str, field_type: ReprType) -> VariantDecl {
    VariantDecl {
        name: String::from(name),
        shape: VariantShape::Payload { field_type: Some(field_type) },
        catch_all: true,
    }
}

fn table(declared: Option<ReprType>, decls: Vec<VariantDecl>) -> EnumTable {
    derive_table(declared, &decls).expect("declaration should classify")
}

#[test]
fn len_counts_unit_variants_only() {
    let t = table(
        Some(ReprType::I32),
        vec![unit("A", None), unit("B", None), unit("C", None), catch_all("Rest", ReprType::I32)],
    );
    assert_eq!(t.len(), 3);
}

#[test]
fn len_of_empty_declaration_is_zero() {
    let t = table(None, vec![]);
    assert_eq!(t.len(), 0);
    assert_eq!(t.values(), vec![]);
    assert_eq!(t.from_ordinal(0), None);
    assert_eq!(t.from_discriminant(0), None);
}

#[test]
fn from_ordinal_round_trips_in_range() {
    let t = table(None, vec![unit("A", None), unit("B", Some(10)), unit("C", None)]);
    for i in 0..t.len() {
        let v = t.from_ordinal(i).expect("in range");
        assert_eq!(t.ordinal(&v), i);
    }
}

#[test]
fn from_ordinal_out_of_range_is_none() {
    let t = table(
        Some(ReprType::I32),
        vec![unit("A", None), unit("B", None), catch_all("Rest", ReprType::I32)],
    );
    assert_eq!(t.from_ordinal(2), None);
    assert_eq!(t.from_ordinal(3), None);
    assert_eq!(t.from_ordinal(99), None);
}

#[test]
fn discriminant_sequencing_restarts_at_explicit_values() {
    let t = table(None, vec![unit("A", None), unit("B", Some(10)), unit("C", None)]);
    assert_eq!(t.discriminant(&EnumValue::Unit(0)), 0);
    assert_eq!(t.discriminant(&EnumValue::Unit(1)), 10);
    assert_eq!(t.discriminant(&EnumValue::Unit(2)), 11);
}

#[test]
fn discriminant_sequencing_with_gap_u16() {
    let t = table(
        Some(ReprType::U16),
        vec![unit("Red", Some(10)), unit("Green", None), unit("Blue", Some(45654))],
    );
    assert_eq!(t.discriminant(&EnumValue::Unit(0)), 10);
    assert_eq!(t.discriminant(&EnumValue::Unit(1)), 11);
    assert_eq!(t.discriminant(&EnumValue::Unit(2)), 45654);
    assert_eq!(t.from_discriminant(11), Some(EnumValue::Unit(1)));
    assert_eq!(t.name(&EnumValue::Unit(1)), "Green");
    assert_eq!(t.from_discriminant(0), None);
}

#[test]
fn from_discriminant_round_trips_each_unit_variant() {
    let t = table(None, vec![unit("A", None), unit("B", Some(10)), unit("C", None)]);
    for i in 0..t.len() {
        let v = EnumValue::Unit(i);
        let d = t.discriminant(&v);
        assert_eq!(t.from_discriminant(d), Some(v));
    }
}

#[test]
fn from_discriminant_duplicates_earliest_declared_wins() {
    let t = table(None, vec![unit("A", Some(5)), unit("B", Some(5)), unit("C", Some(4))]);
    assert_eq!(t.from_discriminant(5), Some(EnumValue::Unit(0)));
}

#[test]
fn catch_all_carries_unmatched_discriminants() {
    let t = table(
        Some(ReprType::U16),
        vec![unit("Active", Some(1)), unit("Inactive", Some(2)), catch_all("Unknown", ReprType::U16)],
    );
    assert_eq!(t.from_discriminant(1), Some(EnumValue::Unit(0)));
    assert_eq!(t.from_discriminant(2), Some(EnumValue::Unit(1)));
    assert_eq!(t.from_discriminant(99), Some(EnumValue::Other(99)));
    assert_eq!(t.ordinal(&EnumValue::Other(99)), 2);
    assert_eq!(t.discriminant(&EnumValue::Other(99)), 99);
    assert_eq!(t.name(&EnumValue::Other(99)), "Unknown");
    assert_eq!(t.values(), vec![EnumValue::Unit(0), EnumValue::Unit(1)]);
}

#[test]
fn values_reproduces_declaration_order_and_restarts() {
    let t = table(
        Some(ReprType::I32),
        vec![unit("A", None), unit("B", Some(10)), unit("C", None), catch_all("Rest", ReprType::I32)],
    );
    let first = t.values();
    let second = t.values();
    assert_eq!(first, second);
    assert_eq!(first, vec![EnumValue::Unit(0), EnumValue::Unit(1), EnumValue::Unit(2)]);
    let names: Vec<&str> = first.iter().map(|v| t.name(v)).collect();
    assert_eq!(names, vec!["A", "B", "C"]);
}

#[test]
fn name_returns_declared_identifiers() {
    let t = table(None, vec![unit("North", None), unit("South", None)]);
    assert_eq!(t.name(&EnumValue::Unit(0)), "North");
    assert_eq!(t.name(&EnumValue::Unit(1)), "South");
}

#[test]
fn negative_explicit_discriminants_continue_upward() {
    let t = table(None, vec![unit("X", Some(-3)), unit("Y", None), unit("Z", None)]);
    assert_eq!(t.discriminant(&EnumValue::Unit(0)), -3);
    assert_eq!(t.discriminant(&EnumValue::Unit(1)), -2);
    assert_eq!(t.discriminant(&EnumValue::Unit(2)), -1);
    assert_eq!(t.from_discriminant(-2), Some(EnumValue::Unit(1)));
}

#[test]
fn implicit_increment_may_leave_the_representation() {
    let t = table(Some(ReprType::I8), vec![unit("M", Some(127)), unit("N", None)]);
    assert_eq!(t.discriminant(&EnumValue::Unit(0)), 127);
    assert_eq!(t.discriminant(&EnumValue::Unit(1)), 128);
}

#[test]
fn single_implicit_variant_resolves_to_zero() {
    let t = table(None, vec![unit("Only", None)]);
    assert_eq!(t.discriminant(&EnumValue::Unit(0)), 0);
    assert_eq!(t.from_discriminant(0), Some(EnumValue::Unit(0)));
}
