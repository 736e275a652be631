// The validation orchestrator end to end: a declared structure's derived
// signature against the documents, with each failure rendered for diagnosis.

use zbus_lockstep::{
    validate, Document, Interface, MemberKind, Signal, TypeSignature, ValidationError,
};

fn sig(s: &str) -> TypeSignature {
    TypeSignature::new(s)
}

fn signal(name: &str, body: &[&str]) -> Signal {
    Signal { name: name.to_string(), body: body.iter().map(|t| sig(t)).collect() }
}

fn node_documents() -> Vec<Document> {
    vec![Document {
        name: "node.xml".to_string(),
        interfaces: vec![Interface {
            name: "org.example.Node".to_string(),
            methods: vec![],
            signals: vec![signal("AddNode", &["s", "o"])],
            properties: vec![],
        }],
    }]
}

#[test]
fn validate_accepts_a_marshalled_signal_body() {
    let docs = node_documents();
    let resolved = validate(
        &docs,
        &"AddNode".to_string(),
        &sig("(so)"),
        MemberKind::Signal,
        None,
        None,
    )
    .unwrap();
    assert_eq!(resolved.as_str(), "so");
}

#[test]
fn validate_reports_a_mismatch_with_both_signatures() {
    let docs = node_documents();
    let failure = validate(
        &docs,
        &"AddNode".to_string(),
        &sig("(ss)"),
        MemberKind::Signal,
        None,
        None,
    )
    .unwrap_err();
    assert_eq!(failure.target, "AddNode");
    assert_eq!(failure.member, "AddNode");
    match &failure.error {
        ValidationError::SignatureMismatch { candidate, resolved } => {
            assert_eq!(candidate.as_str(), "(ss)");
            assert_eq!(resolved.as_str(), "so");
        }
        other => panic!("expected a signature mismatch, got {other:?}"),
    }
    assert_eq!(
        failure.message(),
        "Validation of AddNode failed: signature mismatch for signal AddNode \
         (declared: (ss), expected: so)",
    );
}

#[test]
fn validate_reports_absence() {
    let docs = node_documents();
    let failure = validate(
        &docs,
        &"DeletionEvent".to_string(),
        &sig("(so)"),
        MemberKind::Signal,
        Some(&"RemoveNode".to_string()),
        None,
    )
    .unwrap_err();
    assert_eq!(failure.target, "DeletionEvent");
    assert_eq!(failure.member, "RemoveNode");
    assert!(matches!(failure.error, ValidationError::MemberNotFound));
    assert_eq!(
        failure.message(),
        "Validation of DeletionEvent failed: no interface declares signal RemoveNode",
    );
}

#[test]
fn validate_reports_ambiguity_with_all_candidates() {
    let mut docs = node_documents();
    docs.push(Document {
        name: "mirror.xml".to_string(),
        interfaces: vec![Interface {
            name: "org.example.Mirror".to_string(),
            methods: vec![],
            signals: vec![signal("AddNode", &["s", "o"])],
            properties: vec![],
        }],
    });
    let failure = validate(
        &docs,
        &"AddNode".to_string(),
        &sig("(so)"),
        MemberKind::Signal,
        None,
        None,
    )
    .unwrap_err();
    match &failure.error {
        ValidationError::AmbiguousMember { candidates } => {
            assert_eq!(
                candidates,
                &vec!["org.example.Node".to_string(), "org.example.Mirror".to_string()],
            );
        }
        other => panic!("expected an ambiguous member, got {other:?}"),
    }
    assert_eq!(
        failure.message(),
        "Validation of AddNode failed: multiple interfaces declare signal AddNode: \
         org.example.Node, org.example.Mirror; specify an interface",
    );
}

#[test]
fn validate_with_interface_filter_is_definite() {
    let mut docs = node_documents();
    docs.push(Document {
        name: "mirror.xml".to_string(),
        interfaces: vec![Interface {
            name: "org.example.Mirror".to_string(),
            methods: vec![],
            signals: vec![signal("AddNode", &["u", "u"])],
            properties: vec![],
        }],
    });
    let resolved = validate(
        &docs,
        &"AddNode".to_string(),
        &sig("(so)"),
        MemberKind::Signal,
        None,
        Some(&"org.example.Node".to_string()),
    )
    .unwrap();
    assert_eq!(resolved.as_str(), "so");
}
