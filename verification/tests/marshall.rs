// The equivalence checker on the classic marshalling examples: one added
// outer pair is tolerated, two are not, deceptive pairs stay, truncated
// input compares unequal.

use zbus_lockstep::{assert_eq_signatures, signatures_are_eq, TypeSignature};

#[test]
fn marshall_test_signatures_are_eq() {
    let sig1 = TypeSignature::new("(ii)(ii)");
    let sig2 = TypeSignature::new("((ii)(ii))");

    assert!(signatures_are_eq(&sig1, &sig2));

    let sig1 = TypeSignature::new("a{sv}");
    let sig2 = TypeSignature::new("a{sv}");

    assert!(signatures_are_eq(&sig1, &sig2));

    let sig1 = TypeSignature::new("a{sv}");
    let sig2 = TypeSignature::new("(a{sv})");

    assert!(signatures_are_eq(&sig1, &sig2));

    let sig1 = TypeSignature::new("a{sv}");
    let sig2 = TypeSignature::new("((a{sv}))");

    assert!(!signatures_are_eq(&sig1, &sig2));

    let sig1 = TypeSignature::new("(ii)(ii)");
    let sig2 = TypeSignature::new("((ii)(ii))");

    assert!(signatures_are_eq(&sig1, &sig2));

    let sig1 = TypeSignature::new("(ii)(ii)");
    let sig2 = TypeSignature::new("ii)(ii");

    assert!(!signatures_are_eq(&sig1, &sig2));
}

#[test]
fn marshall_test_assert_eq_signatures() {
    let sig1 = TypeSignature::new("(ii)(ii)");
    let sig2 = TypeSignature::new("((ii)(ii))");

    assert!(assert_eq_signatures(&sig1, &sig2).is_ok());

    let sig1 = TypeSignature::new("a{sv}");
    let sig2 = TypeSignature::new("a{sv}");

    assert!(assert_eq_signatures(&sig1, &sig2).is_ok());

    let sig1 = TypeSignature::new("a{sv}");
    let sig2 = TypeSignature::new("(a{sv})");

    assert!(assert_eq_signatures(&sig1, &sig2).is_ok());

    let sig1 = TypeSignature::new("(ii)(ii)");
    let sig2 = TypeSignature::new("((ii)(ii))");

    assert!(assert_eq_signatures(&sig1, &sig2).is_ok());
}

#[test]
fn marshall_test_assert_ne_signatures() {
    let sig1 = TypeSignature::new("(ii)");
    let sig2 = TypeSignature::new("(uu)");

    assert!(zbus_lockstep::assert_ne_signatures(&sig1, &sig2).is_ok());

    let sig1 = TypeSignature::new("a{sv}");
    let sig2 = TypeSignature::new("((a{sv}))");

    assert!(zbus_lockstep::assert_ne_signatures(&sig1, &sig2).is_ok());

    let sig1 = TypeSignature::new("(ii(ii))");
    let sig2 = TypeSignature::new("((ii)(ii))");

    assert!(zbus_lockstep::assert_ne_signatures(&sig1, &sig2).is_ok());
}
