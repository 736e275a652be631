//! Passive data model of parsed interface-description documents.
//!
//! A document owns an ordered sequence of interfaces; an interface owns
//! ordered sequences of methods, signals and properties. The model is built
//! once, by an external parser of the raw document format, and only read
//! afterwards: every lookup in this crate is a pure traversal.

use crate::signature::TypeSignature;
use vstd::prelude::*;

verus! {

/// The kind of interface member a lookup targets.
#[derive(Clone, Copy, PartialEq, Eq, Structural, Debug)]
pub enum MemberKind {
    Method,
    Signal,
    Property,
}

/// A method: ordered input arguments and ordered output arguments, each an
/// argument's type signature.
pub struct Method {
    pub name: String,
    pub inputs: Vec<TypeSignature>,
    pub outputs: Vec<TypeSignature>,
}

/// A signal: ordered body arguments, each an argument's type signature.
pub struct Signal {
    pub name: String,
    pub body: Vec<TypeSignature>,
}

/// A property, with its single type signature.
pub struct Property {
    pub name: String,
    pub signature: TypeSignature,
}

/// A named interface and its declared members, in declaration order.
///
/// The name identifies the interface within its document; it is not
/// guaranteed unique across a document set.
pub struct Interface {
    pub name: String,
    pub methods: Vec<Method>,
    pub signals: Vec<Signal>,
    pub properties: Vec<Property>,
}

/// One parsed interface-description document: its identity (for reporting
/// where a member was found) and its interfaces in declaration order.
pub struct Document {
    pub name: String,
    pub interfaces: Vec<Interface>,
}

/// One lookup: a member name, the kind of member wanted, and an optional
/// interface filter that restricts the search to interfaces of that name.
pub struct MemberQuery {
    pub name: String,
    pub kind: MemberKind,
    pub interface: Option<String>,
}

impl MemberQuery {
    /// Builds a query from borrowed parts.
    pub fn new(name: &String, kind: MemberKind, interface: Option<&String>) -> (r: Self)
        ensures
            r.name@ == name@,
            r.kind == kind,
            opt_name_view(r.interface) == opt_ref_view(interface),
    {
        let filter: Option<String> = match interface {
            Some(f) => Some(f.clone()),
            None => None,
        };
        MemberQuery { name: name.clone(), kind, interface: filter }
    }
}

/// The character sequence of an optional owned name.
pub open spec fn opt_name_view(o: Option<String>) -> Option<Seq<char>> {
    match o {
        Some(s) => Some(s@),
        None => None,
    }
}

/// The character sequence of an optional borrowed name.
pub open spec fn opt_ref_view(o: Option<&String>) -> Option<Seq<char>> {
    match o {
        Some(s) => Some(s@),
        None => None,
    }
}

/// The character sequences of a list of signatures, in order.
pub open spec fn sig_views(sigs: Seq<TypeSignature>) -> Seq<Seq<char>> {
    sigs.map_values(|t: TypeSignature| t@)
}

/// The names of an interface's members of the given kind, in declaration
/// order.
pub open spec fn member_names(iface: Interface, kind: MemberKind) -> Seq<Seq<char>> {
    match kind {
        MemberKind::Method => iface.methods@.map_values(|m: Method| m.name@),
        MemberKind::Signal => iface.signals@.map_values(|s: Signal| s.name@),
        MemberKind::Property => iface.properties@.map_values(|p: Property| p.name@),
    }
}

} // verus!
