// The equivalence checker's laws on concrete values: reflexivity, symmetry,
// one tolerated layer, two rejected layers, and total behaviour on malformed
// or empty input.

use zbus_lockstep::{signatures_are_eq, TypeSignature};

fn sig(s: &str) -> TypeSignature {
    TypeSignature::new(s)
}

#[test]
fn utils_test_signatures_are_eq() {
    let sig1 = TypeSignature::new("(ii)(ii)");
    let sig2 = TypeSignature::new("((ii)(ii))");

    assert!(signatures_are_eq(&sig1, &sig2));

    let sig1 = TypeSignature::new("a{sv}");
    let sig2 = TypeSignature::new("a{sv}");

    assert!(signatures_are_eq(&sig1, &sig2));

    let sig1 = TypeSignature::new("a{sv}");
    let sig2 = TypeSignature::new("(a{sv})");

    assert!(signatures_are_eq(&sig1, &sig2));

    let sig1 = TypeSignature::new("a{sv}");
    let sig2 = TypeSignature::new("((a{sv}))");

    assert!(!signatures_are_eq(&sig1, &sig2));

    let sig1 = TypeSignature::new("(ii)(ii)");
    let sig2 = TypeSignature::new("((ii)(ii))");

    assert!(signatures_are_eq(&sig1, &sig2));

    let sig1 = TypeSignature::new("(ii)(ii)");
    let sig2 = TypeSignature::new("ii)(ii");

    assert!(!signatures_are_eq(&sig1, &sig2));
}

#[test]
fn equivalence_is_reflexive() {
    for s in ["", "i", "a{sv}", "(ii)", "(ii)(ii)", "so", "ii)(ii"] {
        assert!(signatures_are_eq(&sig(s), &sig(s)));
    }
}

#[test]
fn equivalence_is_symmetric() {
    let pairs = [
        ("a{sv}", "(a{sv})"),
        ("a{sv}", "((a{sv}))"),
        ("(ii)(ii)", "((ii)(ii))"),
        ("(ii(ii))", "((ii)(ii))"),
        ("(ii)", "(uu)"),
    ];
    for (l, r) in pairs {
        assert_eq!(
            signatures_are_eq(&sig(l), &sig(r)),
            signatures_are_eq(&sig(r), &sig(l)),
        );
    }
}

#[test]
fn one_added_layer_is_tolerated() {
    assert!(signatures_are_eq(&sig("so"), &sig("(so)")));
    assert!(signatures_are_eq(&sig("su"), &sig("(su)")));
    assert!(signatures_are_eq(&sig("as"), &sig("(as)")));
}

#[test]
fn two_added_layers_are_rejected() {
    assert!(!signatures_are_eq(&sig("ii"), &sig("((ii))")));
    assert!(!signatures_are_eq(&sig("so"), &sig("((so))")));
}

#[test]
fn empty_and_tiny_inputs_do_not_strip() {
    assert!(signatures_are_eq(&sig(""), &sig("")));
    assert!(signatures_are_eq(&sig("("), &sig("(")));
    assert!(signatures_are_eq(&sig(")"), &sig(")")));
    assert!(!signatures_are_eq(&sig("("), &sig(")")));
    // An empty struct is one genuine wrapper around nothing.
    assert!(signatures_are_eq(&sig("()"), &sig("")));
}

#[test]
fn non_ascii_input_is_handled_totally() {
    // Outside the signature alphabet, but the check stays total and exact.
    assert!(signatures_are_eq(&sig("é"), &sig("é")));
    assert!(signatures_are_eq(&sig("é"), &sig("(é)")));
    assert!(!signatures_are_eq(&sig("é"), &sig("è")));
}

#[test]
fn signature_accessors_round_trip() {
    let s = TypeSignature::new("a{sv}");
    assert_eq!(s.as_str(), "a{sv}");
    assert_eq!(s.duplicate().as_str(), "a{sv}");
    let owned = TypeSignature::from_string(String::from("(so)"));
    assert_eq!(owned.as_str(), "(so)");
}
