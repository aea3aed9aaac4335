//! Rejection of malformed declarations, and the classifier's and
//! resolver's own outputs.

use unit_enum::classify::classify;
use unit_enum::decl::{ClassifyError, ErrorKind, ReprType, VariantDecl, VariantShape};
use unit_enum::resolve::resolve_discriminants;
use unit_enum::table::derive_table;

fn unit(name: &str, explicit: Option<i128>) -> VariantDecl {
    VariantDecl {
        name: String::from(name),
        shape: VariantShape::Unit { explicit_discriminant: explicit },
        catch_all: false,
    }
}

fn catch_all(name: &str, field_type: ReprType) -> VariantDecl {
    VariantDecl {
        name: String::from(name),
        shape: VariantShape::Payload { field_type: Some(field_type) },
        catch_all: true,
    }
}

#[test]
fn two_catch_alls_rejected() {
    let decls = vec![
        unit("A", Some(1)),
        catch_all("First", ReprType::U16),
        unit("B", None),
        catch_all("Second", ReprType::U16),
    ];
    let r = derive_table(Some(ReprType::U16), &decls);
    assert_eq!(r.err(), Some(ClassifyError { kind: ErrorKind::ExtraCatchAll, index: 3 }));
}

#[test]
fn tagged_unit_rejected() {
    let decls = vec![
        unit("A", None),
        VariantDecl {
            name: String::from("B"),
            shape: VariantShape::Unit { explicit_discriminant: None },
            catch_all: true,
        },
    ];
    let r = derive_table(None, &decls);
    assert_eq!(r.err(), Some(ClassifyError { kind: ErrorKind::TaggedUnit, index: 1 }));
}

#[test]
fn untagged_payload_rejected() {
    let decls = vec![
        unit("A", None),
        VariantDecl {
            name: String::from("Holder"),
            shape: VariantShape::Payload { field_type: Some(ReprType::I32) },
            catch_all: false,
        },
    ];
    let r = derive_table(None, &decls);
    assert_eq!(r.err(), Some(ClassifyError { kind: ErrorKind::UntaggedPayload, index: 1 }));
}

#[test]
fn malformed_variant_rejected() {
    let decls = vec![
        VariantDecl { name: String::from("Pair"), shape: VariantShape::Irregular, catch_all: true },
        unit("A", None),
    ];
    let r = derive_table(None, &decls);
    assert_eq!(r.err(), Some(ClassifyError { kind: ErrorKind::MalformedVariant, index: 0 }));
}

#[test]
fn catch_all_without_explicit_repr_rejected() {
    let decls = vec![unit("A", None), catch_all("Rest", ReprType::I32)];
    let r = derive_table(None, &decls);
    assert_eq!(r.err(), Some(ClassifyError { kind: ErrorKind::MissingRepr, index: 1 }));
}

#[test]
fn catch_all_payload_type_mismatch_rejected() {
    let decls = vec![unit("A", None), catch_all("Rest", ReprType::I32)];
    let r = derive_table(Some(ReprType::U16), &decls);
    assert_eq!(r.err(), Some(ClassifyError { kind: ErrorKind::PayloadMismatch, index: 1 }));
}

#[test]
fn catch_all_non_integer_payload_rejected() {
    let decls = vec![
        unit("A", None),
        VariantDecl {
            name: String::from("Rest"),
            shape: VariantShape::Payload { field_type: None },
            catch_all: true,
        },
    ];
    let r = derive_table(Some(ReprType::U16), &decls);
    assert_eq!(r.err(), Some(ClassifyError { kind: ErrorKind::PayloadMismatch, index: 1 }));
}

#[test]
fn first_offending_variant_decides_the_error() {
    let decls = vec![
        VariantDecl { name: String::from("Bad"), shape: VariantShape::Irregular, catch_all: false },
        catch_all("First", ReprType::U16),
        catch_all("Second", ReprType::U16),
    ];
    let r = derive_table(Some(ReprType::U16), &decls);
    assert_eq!(r.err(), Some(ClassifyError { kind: ErrorKind::MalformedVariant, index: 0 }));
}

#[test]
fn classifier_partitions_units_and_catch_all() {
    let decls = vec![
        unit("A", Some(7)),
        catch_all("Rest", ReprType::U8),
        unit("B", None),
    ];
    let c = classify(Some(ReprType::U8), &decls).expect("valid declaration");
    assert_eq!(c.repr, ReprType::U8);
    assert_eq!(c.units.len(), 2);
    assert_eq!(c.units[0].name.as_str(), "A");
    assert_eq!(c.units[0].explicit_discriminant, Some(7));
    assert_eq!(c.units[1].name.as_str(), "B");
    assert_eq!(c.units[1].explicit_discriminant, None);
    assert_eq!(c.catch_all.as_deref(), Some("Rest"));
}

#[test]
fn classifier_defaults_to_i32_without_repr() {
    let decls = vec![unit("A", None)];
    let c = classify(None, &decls).expect("valid declaration");
    assert_eq!(c.repr, ReprType::I32);
    assert_eq!(c.catch_all, None);
}

#[test]
fn resolver_follows_the_implicit_increment_rule() {
    let c = classify(
        Some(ReprType::U16),
        &vec![unit("Red", Some(10)), unit("Green", None), unit("Blue", Some(45654)), unit("Next", None)],
    )
    .expect("valid declaration");
    let d = resolve_discriminants(c.repr, &c.units);
    assert_eq!(d, vec![10, 11, 45654, 45655]);
}
