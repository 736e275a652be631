//! Lockstep validation of wire-format type signatures against a catalogue of
//! remote interface descriptions.
//!
//! The crate has four parts:
//!
//! - [`signature`]: the tolerant equivalence check between two type-signature
//!   strings, which may legally differ by exactly one layer of
//!   marshalling-introduced outer parentheses;
//! - [`model`]: the passive data model of parsed interface-description
//!   documents (interfaces with their methods, signals and properties);
//! - [`locate`]: resolution of a named member of a given kind across a set
//!   of documents, with explicit ambiguity and absence reporting, and the
//!   per-kind composition of the resolved signature;
//! - [`validate`]: the orchestrator that compares a signature derived from a
//!   native data structure with the one resolved from the documents.

pub mod locate;
pub mod model;
pub mod signature;
pub mod validate;

pub use locate::{
    locate, method_args_signature, method_return_signature, property_type_signature,
    signal_body_type_signature, LookupError, MemberLocation,
};
pub use model::{Document, Interface, MemberKind, MemberQuery, Method, Property, Signal};
pub use signature::{assert_eq_signatures, assert_ne_signatures, signatures_are_eq, TypeSignature};
pub use validate::{validate, ValidationError, ValidationFailure};
