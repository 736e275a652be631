// The assertion-style entry points, and their rendered diagnostics.

use zbus_lockstep::{assert_eq_signatures, assert_ne_signatures, TypeSignature};

#[test]
fn macros_test_assert_eq_signatures() {
    let sig1 = TypeSignature::new("(ii)(ii)");
    let sig2 = TypeSignature::new("((ii)(ii))");

    assert!(assert_eq_signatures(&sig1, &sig2).is_ok());

    let sig1 = TypeSignature::new("a{sv}");
    let sig2 = TypeSignature::new("a{sv}");

    assert!(assert_eq_signatures(&sig1, &sig2).is_ok());

    let sig1 = TypeSignature::new("a{sv}");
    let sig2 = TypeSignature::new("(a{sv})");

    assert!(assert_eq_signatures(&sig1, &sig2).is_ok());

    let sig1 = TypeSignature::new("(ii)(ii)");
    let sig2 = TypeSignature::new("((ii)(ii))");

    assert!(assert_eq_signatures(&sig1, &sig2).is_ok());
}

#[test]
fn macros_test_assert_ne_signatures() {
    let sig1 = TypeSignature::new("(ii)");
    let sig2 = TypeSignature::new("(uu)");

    assert!(assert_ne_signatures(&sig1, &sig2).is_ok());

    let sig1 = TypeSignature::new("a{sv}");
    let sig2 = TypeSignature::new("((a{sv}))");

    assert!(assert_ne_signatures(&sig1, &sig2).is_ok());

    let sig1 = TypeSignature::new("(ii(ii))");
    let sig2 = TypeSignature::new("((ii)(ii))");

    assert!(assert_ne_signatures(&sig1, &sig2).is_ok());
}

#[test]
fn assert_eq_signatures_renders_both_sides() {
    let sig1 = TypeSignature::new("(ii)");
    let sig2 = TypeSignature::new("(uu)");

    let message = assert_eq_signatures(&sig1, &sig2).unwrap_err();
    assert_eq!(message, "Signatures are not equal (Lhs: (ii), Rhs: (uu))");
}

#[test]
fn assert_ne_signatures_renders_both_sides() {
    let sig1 = TypeSignature::new("a{sv}");
    let sig2 = TypeSignature::new("(a{sv})");

    let message = assert_ne_signatures(&sig1, &sig2).unwrap_err();
    assert_eq!(message, "Signatures are equal (Lhs: a{sv}, Rhs: (a{sv}))");
}
