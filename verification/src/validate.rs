//! Validation of a declared data structure against the published interface
//! description.
//!
//! At declaration time a native data structure comes with a signature derived
//! by an external reflection facility. The orchestrator resolves the
//! expected signature for the structure — by default under the structure's
//! own name — from the parsed documents, and checks the two for equivalence
//! up to one marshalling layer. Locator failures are propagated as distinct,
//! labelled failures, augmented with the structure's name; an ambiguity
//! names every candidate interface so the caller can retry with a filter.

use crate::locate::{
    candidate_names, concat_all, concat_signatures, is_match, locate, match_count, name_views,
    Lookup, LookupError,
};
use crate::model::{
    member_names, opt_ref_view, sig_views, Document, MemberKind, MemberQuery,
};
use crate::signature::{equivalent, signatures_are_eq, TypeSignature};
use vstd::prelude::*;
use vstd::string::*;

verus! {

/// Why a validation failed.
#[derive(Debug)]
pub enum ValidationError {
    /// The derived and the resolved signature differ by more than one layer
    /// of outer parentheses; both are kept for the diagnostic.
    SignatureMismatch { candidate: TypeSignature, resolved: TypeSignature },
    /// No document declares the queried member: a configuration or usage
    /// error, not a soft default.
    MemberNotFound,
    /// Several members matched; the distinct names of the matching
    /// interfaces, so the caller can re-validate with an explicit filter.
    AmbiguousMember { candidates: Vec<String> },
}

/// A failed validation: the structure under validation, the member and kind
/// that were queried, and what went wrong.
#[derive(Debug)]
pub struct ValidationFailure {
    pub target: String,
    pub member: String,
    pub kind: MemberKind,
    pub error: ValidationError,
}

/// The signature the documents publish for a matching member: for a method,
/// the concatenated input-argument signatures; for a signal, the
/// concatenated body-argument signatures; for a property, its single
/// signature.
pub open spec fn resolved_view(
    docs: Seq<Document>,
    kind: MemberKind,
    d: int,
    i: int,
    m: int,
) -> Seq<char> {
    match kind {
        MemberKind::Method => concat_all(sig_views(docs[d].interfaces@[i].methods@[m].inputs@)),
        MemberKind::Signal => concat_all(sig_views(docs[d].interfaces@[i].signals@[m].body@)),
        MemberKind::Property => docs[d].interfaces@[i].properties@[m].signature@,
    }
}

/// Composes the published signature of the member at the given position.
fn resolve_at(docs: &Vec<Document>, kind: MemberKind, d: usize, i: usize, m: usize) -> (r:
    TypeSignature)
    requires
        d < docs@.len(),
        i < docs@[d as int].interfaces@.len(),
        m < member_names(docs@[d as int].interfaces@[i as int], kind).len(),
    ensures
        r@ == resolved_view(docs@, kind, d as int, i as int, m as int),
{
    let iface = &docs[d].interfaces[i];
    match kind {
        MemberKind::Method => {
            let method = &iface.methods[m];
            concat_signatures(&method.inputs)
        },
        MemberKind::Signal => {
            let signal = &iface.signals[m];
            concat_signatures(&signal.body)
        },
        MemberKind::Property => {
            let property = &iface.properties[m];
            property.signature.duplicate()
        },
    }
}

/// Validates a declared structure against the document set.
///
/// The member name defaults to the structure's own name; an explicit member
/// name or interface filter narrows the lookup. On success the resolved
/// signature is returned; every failure carries the structure's name, the
/// member and kind queried, and the data needed for a diagnostic.
pub fn validate(
    docs: &Vec<Document>,
    target: &String,
    derived: &TypeSignature,
    kind: MemberKind,
    member: Option<&String>,
    interface: Option<&String>,
) -> (r: Result<TypeSignature, ValidationFailure>)
    ensures
        ({
            let name = (match member {
                Some(m) => m@,
                None => target@,
            });
            let lk = (Lookup { name, kind, filter: opt_ref_view(interface) });
            match r {
                Ok(resolved) => {
                    &&& match_count(lk, docs@) == 1
                    &&& equivalent(derived@, resolved@)
                    &&& exists|d: int, i: int, m: int|
                        is_match(lk, docs@, d, i, m) && resolved@ == resolved_view(
                            docs@,
                            kind,
                            d,
                            i,
                            m,
                        )
                },
                Err(f) => {
                    &&& f.target@ == target@
                    &&& f.member@ == name
                    &&& f.kind == kind
                    &&& match f.error {
                        ValidationError::SignatureMismatch { candidate, resolved } => {
                            &&& match_count(lk, docs@) == 1
                            &&& candidate@ == derived@
                            &&& !equivalent(derived@, resolved@)
                            &&& exists|d: int, i: int, m: int|
                                is_match(lk, docs@, d, i, m) && resolved@ == resolved_view(
                                    docs@,
                                    kind,
                                    d,
                                    i,
                                    m,
                                )
                        },
                        ValidationError::MemberNotFound => match_count(lk, docs@) == 0,
                        ValidationError::AmbiguousMember { candidates } => {
                            &&& match_count(lk, docs@) >= 2
                            &&& name_views(candidates@) == candidate_names(lk, docs@)
                        },
                    }
                },
            }
        }),
{
    let member_name: &String = match member {
        Some(m) => m,
        None => target,
    };
    let q = MemberQuery::new(member_name, kind, interface);
    match locate(docs, &q) {
        Ok(loc) => {
            let resolved = resolve_at(docs, kind, loc.doc_index, loc.iface_index, loc.member_index);
            if signatures_are_eq(derived, &resolved) {
                Ok(resolved)
            } else {
                Err(
                    ValidationFailure {
                        target: target.clone(),
                        member: member_name.clone(),
                        kind,
                        error: ValidationError::SignatureMismatch {
                            candidate: derived.duplicate(),
                            resolved,
                        },
                    },
                )
            }
        },
        Err(LookupError::NotFound) => Err(
            ValidationFailure {
                target: target.clone(),
                member: member_name.clone(),
                kind,
                error: ValidationError::MemberNotFound,
            },
        ),
        Err(LookupError::Ambiguous { candidates }) => Err(
            ValidationFailure {
                target: target.clone(),
                member: member_name.clone(),
                kind,
                error: ValidationError::AmbiguousMember { candidates },
            },
        ),
        Err(LookupError::UnsupportedReturns { .. }) => {
            // The locator itself never reports an unsupported return count;
            // the assertion discharges this arm as unreachable.
            proof {
                assert(false);
            }
            Err(
                ValidationFailure {
                    target: target.clone(),
                    member: member_name.clone(),
                    kind,
                    error: ValidationError::MemberNotFound,
                },
            )
        },
    }
}

/// The one-word label of a member kind, as it reads in diagnostics.
pub open spec fn kind_label(kind: MemberKind) -> Seq<char> {
    match kind {
        MemberKind::Method => "method"@,
        MemberKind::Signal => "signal"@,
        MemberKind::Property => "property"@,
    }
}

/// The label of a member kind.
fn kind_label_str(kind: MemberKind) -> (r: &'static str)
    ensures
        r@ == kind_label(kind),
{
    match kind {
        MemberKind::Method => "method",
        MemberKind::Signal => "signal",
        MemberKind::Property => "property",
    }
}

/// The names `names[j..]` joined with a comma between neighbours.
pub open spec fn joined_from(names: Seq<Seq<char>>, j: int) -> Seq<char>
    decreases names.len() - j,
{
    if j < 0 || j >= names.len() {
        Seq::empty()
    } else if j == names.len() - 1 {
        names[j]
    } else {
        names[j] + ", "@ + joined_from(names, j + 1)
    }
}

/// All the names joined with a comma between neighbours.
pub open spec fn joined_names(names: Seq<Seq<char>>) -> Seq<char> {
    joined_from(names, 0)
}

/// Joins names with a comma between neighbours.
fn join_names(names: &Vec<String>) -> (r: String)
    ensures
        r@ == joined_names(name_views(names@)),
{
    let mut acc = String::new();
    proof {
        assert(acc@ + joined_from(name_views(names@), 0) =~= joined_from(name_views(names@), 0));
    }
    let mut j: usize = 0;
    while j < names.len()
        invariant
            j <= names.len(),
            joined_names(name_views(names@)) == acc@ + joined_from(name_views(names@), j as int),
        decreases names.len() - j,
    {
        let ghost pre = acc@;
        let ghost nv = name_views(names@);
        let nj = &names[j];
        acc.append(nj.as_str());
        proof {
            assert(nv[j as int] == names@[j as int]@);
        }
        if j + 1 < names.len() {
            acc.append(", ");
            proof {
                assert((pre + nv[j as int]) + ", "@ =~= pre + (nv[j as int] + ", "@));
                assert((pre + (nv[j as int] + ", "@)) + joined_from(nv, j as int + 1) =~= pre + (
                (nv[j as int] + ", "@) + joined_from(nv, j as int + 1)));
                assert(nv[j as int] + ", "@ + joined_from(nv, j as int + 1) == joined_from(
                    nv,
                    j as int,
                ));
            }
        } else {
            proof {
                assert((pre + nv[j as int]) =~= pre + joined_from(nv, j as int));
            }
        }
        j = j + 1;
    }
    proof {
        assert(acc@ + joined_from(name_views(names@), names@.len() as int) =~= acc@);
    }
    acc
}

/// The diagnostic a failed validation renders: the structure under
/// validation, then the member and kind queried together with both
/// signatures on a mismatch, or the candidate interfaces on an ambiguity.
pub open spec fn failure_message_view(f: ValidationFailure) -> Seq<char> {
    match f.error {
        ValidationError::SignatureMismatch { candidate, resolved } => "Validation of "@ + f.target@
            + " failed: signature mismatch for "@ + kind_label(f.kind) + " "@ + f.member@
            + " (declared: "@ + candidate@ + ", expected: "@ + resolved@ + ")"@,
        ValidationError::MemberNotFound => "Validation of "@ + f.target@
            + " failed: no interface declares "@ + kind_label(f.kind) + " "@ + f.member@,
        ValidationError::AmbiguousMember { candidates } => "Validation of "@ + f.target@
            + " failed: multiple interfaces declare "@ + kind_label(f.kind) + " "@ + f.member@
            + ": "@ + joined_names(name_views(candidates@)) + "; specify an interface"@,
    }
}

impl ValidationFailure {
    /// Renders the failure as one line of plain text, suitable for a failing
    /// assertion.
    pub fn message(&self) -> (r: String)
        ensures
            r@ == failure_message_view(*self),
    {
        let mut acc = ("Validation of ").to_owned();
        acc.append(self.target.as_str());
        match &self.error {
            ValidationError::SignatureMismatch { candidate, resolved } => {
                acc.append(" failed: signature mismatch for ");
                acc.append(kind_label_str(self.kind));
                acc.append(" ");
                acc.append(self.member.as_str());
                acc.append(" (declared: ");
                acc.append(candidate.as_str());
                acc.append(", expected: ");
                acc.append(resolved.as_str());
                acc.append(")");
            },
            ValidationError::MemberNotFound => {
                acc.append(" failed: no interface declares ");
                acc.append(kind_label_str(self.kind));
                acc.append(" ");
                acc.append(self.member.as_str());
            },
            ValidationError::AmbiguousMember { candidates } => {
                acc.append(" failed: multiple interfaces declare ");
                acc.append(kind_label_str(self.kind));
                acc.append(" ");
                acc.append(self.member.as_str());
                acc.append(": ");
                let joined = join_names(candidates);
                acc.append(joined.as_str());
                acc.append("; specify an interface");
            },
        }
        acc
    }
}

} // verus!
