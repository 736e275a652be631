// The member locator over in-memory document sets: definite hits, absence,
// ambiguity with its candidate list, and the per-kind composition rules.

use zbus_lockstep::{
    locate, method_args_signature, method_return_signature, property_type_signature,
    signal_body_type_signature, signatures_are_eq, Document, Interface, LookupError, MemberKind,
    MemberQuery, Method, Property, Signal, TypeSignature,
};

fn sig(s: &str) -> TypeSignature {
    TypeSignature::new(s)
}

fn sigs(texts: &[&str]) -> Vec<TypeSignature> {
    texts.iter().map(|t| sig(t)).collect()
}

fn method(name: &str, inputs: &[&str], outputs: &[&str]) -> Method {
    Method { name: name.to_string(), inputs: sigs(inputs), outputs: sigs(outputs) }
}

fn signal(name: &str, body: &[&str]) -> Signal {
    Signal { name: name.to_string(), body: sigs(body) }
}

fn property(name: &str, ty: &str) -> Property {
    Property { name: name.to_string(), signature: sig(ty) }
}

fn bus_documents() -> Vec<Document> {
    vec![
        Document {
            name: "node.xml".to_string(),
            interfaces: vec![Interface {
                name: "org.example.Node".to_string(),
                methods: vec![
                    method("RequestName", &["s", "u"], &["u"]),
                    method("GetAll", &[], &["a{sv}", "s"]),
                    method("Halt", &["b"], &[]),
                ],
                signals: vec![signal("AddNode", &["s", "o"]), signal("RemoveNode", &["s", "o"])],
                properties: vec![property("Features", "as")],
            }],
        },
        Document {
            name: "cache.xml".to_string(),
            interfaces: vec![Interface {
                name: "org.example.Cache".to_string(),
                methods: vec![method("GetItems", &[], &["a(so)"])],
                signals: vec![],
                properties: vec![],
            }],
        },
    ]
}

fn ping_documents() -> Vec<Document> {
    vec![
        Document {
            name: "x.xml".to_string(),
            interfaces: vec![Interface {
                name: "X".to_string(),
                methods: vec![],
                signals: vec![signal("Ping", &["s"])],
                properties: vec![],
            }],
        },
        Document {
            name: "y.xml".to_string(),
            interfaces: vec![Interface {
                name: "Y".to_string(),
                methods: vec![],
                signals: vec![signal("Ping", &["u"])],
                properties: vec![],
            }],
        },
    ]
}

#[test]
fn locate_finds_a_unique_signal() {
    let docs = bus_documents();
    let query = MemberQuery::new(&"AddNode".to_string(), MemberKind::Signal, None);
    let loc = locate(&docs, &query).unwrap();
    assert_eq!(loc.document, "node.xml");
    assert_eq!(loc.interface, "org.example.Node");
    assert_eq!(loc.doc_index, 0);
    assert_eq!(loc.iface_index, 0);
    assert_eq!(loc.member_index, 0);
}

#[test]
fn locate_absent_member_is_not_found() {
    let docs = bus_documents();
    let query = MemberQuery::new(&"Pong".to_string(), MemberKind::Signal, None);
    assert!(matches!(locate(&docs, &query), Err(LookupError::NotFound)));
}

#[test]
fn locate_respects_member_kind() {
    let docs = bus_documents();
    // "Features" exists only as a property, not as a method or a signal.
    let query = MemberQuery::new(&"Features".to_string(), MemberKind::Method, None);
    assert!(matches!(locate(&docs, &query), Err(LookupError::NotFound)));
    let query = MemberQuery::new(&"Features".to_string(), MemberKind::Property, None);
    assert!(locate(&docs, &query).is_ok());
}

#[test]
fn locate_ambiguity_lists_both_interfaces() {
    let docs = ping_documents();
    let query = MemberQuery::new(&"Ping".to_string(), MemberKind::Signal, None);
    match locate(&docs, &query) {
        Err(LookupError::Ambiguous { candidates }) => {
            assert_eq!(candidates, vec!["X".to_string(), "Y".to_string()]);
        }
        other => panic!("expected an ambiguous lookup, got {other:?}"),
    }
}

#[test]
fn locate_filter_bypasses_ambiguity() {
    let docs = ping_documents();
    let query = MemberQuery::new(&"Ping".to_string(), MemberKind::Signal, Some(&"X".to_string()));
    let loc = locate(&docs, &query).unwrap();
    assert_eq!(loc.interface, "X");
    assert_eq!(loc.document, "x.xml");
}

#[test]
fn locate_duplicate_in_one_interface_is_ambiguous() {
    let docs = vec![Document {
        name: "twice.xml".to_string(),
        interfaces: vec![Interface {
            name: "X".to_string(),
            methods: vec![],
            signals: vec![signal("Ping", &["s"]), signal("Ping", &["u"])],
            properties: vec![],
        }],
    }];
    let query = MemberQuery::new(&"Ping".to_string(), MemberKind::Signal, None);
    match locate(&docs, &query) {
        Err(LookupError::Ambiguous { candidates }) => {
            // The interface's name is surfaced once, not once per duplicate.
            assert_eq!(candidates, vec!["X".to_string()]);
        }
        other => panic!("expected an ambiguous lookup, got {other:?}"),
    }
}

#[test]
fn locate_filter_does_not_hide_a_reappearance() {
    // The same interface name in two documents: a filter admits both, so the
    // member's reappearance is still surfaced — with the name listed once.
    let one = |file: &str| Document {
        name: file.to_string(),
        interfaces: vec![Interface {
            name: "X".to_string(),
            methods: vec![],
            signals: vec![signal("Ping", &["s"])],
            properties: vec![],
        }],
    };
    let docs = vec![one("x1.xml"), one("x2.xml")];
    let query = MemberQuery::new(&"Ping".to_string(), MemberKind::Signal, Some(&"X".to_string()));
    match locate(&docs, &query) {
        Err(LookupError::Ambiguous { candidates }) => {
            assert_eq!(candidates, vec!["X".to_string()]);
        }
        other => panic!("expected an ambiguous lookup, got {other:?}"),
    }
}

#[test]
fn signal_body_composes_in_declared_order() {
    let docs = bus_documents();
    let body = signal_body_type_signature(&docs, &"AddNode".to_string(), None).unwrap();
    assert_eq!(body.as_str(), "so");
    // The derived, marshalled form differs by one outer pair and still passes.
    assert!(signatures_are_eq(&sig("(so)"), &body));
}

#[test]
fn method_args_compose_in_declared_order() {
    let docs = bus_documents();
    let args = method_args_signature(&docs, &"RequestName".to_string(), None).unwrap();
    assert_eq!(args.as_str(), "su");
    assert!(signatures_are_eq(&sig("(su)"), &args));
}

#[test]
fn method_with_no_inputs_has_empty_args_signature() {
    let docs = bus_documents();
    let args = method_args_signature(&docs, &"GetAll".to_string(), None).unwrap();
    assert_eq!(args.as_str(), "");
}

#[test]
fn method_return_is_the_single_output() {
    let docs = bus_documents();
    let ret = method_return_signature(&docs, &"RequestName".to_string(), None).unwrap();
    assert_eq!(ret.as_str(), "u");
}

#[test]
fn method_return_rejects_other_output_counts() {
    let docs = bus_documents();
    match method_return_signature(&docs, &"GetAll".to_string(), None) {
        Err(LookupError::UnsupportedReturns { count }) => assert_eq!(count, 2),
        other => panic!("expected an unsupported return count, got {other:?}"),
    }
    match method_return_signature(&docs, &"Halt".to_string(), None) {
        Err(LookupError::UnsupportedReturns { count }) => assert_eq!(count, 0),
        other => panic!("expected an unsupported return count, got {other:?}"),
    }
}

#[test]
fn property_signature_is_unmodified() {
    let docs = bus_documents();
    let ty = property_type_signature(&docs, &"Features".to_string(), None).unwrap();
    assert_eq!(ty.as_str(), "as");
}

#[test]
fn composition_not_found_propagates() {
    let docs = bus_documents();
    assert!(matches!(
        signal_body_type_signature(&docs, &"Missing".to_string(), None),
        Err(LookupError::NotFound)
    ));
    assert!(matches!(
        property_type_signature(&docs, &"Missing".to_string(), None),
        Err(LookupError::NotFound)
    ));
}
