//! Resolution of a named member across a set of interface-description
//! documents.
//!
//! The locator walks the documents in caller-supplied order, the interfaces
//! of each document in declaration order, and the members of the queried
//! kind in declaration order. The first matching member sets the result; any
//! further match anywhere in the set makes the lookup ambiguous, and the
//! distinct names of every matching interface are surfaced so the caller can
//! retry with an explicit filter. A query with an interface filter never
//! scans other interfaces, so it cannot be ambiguous across interfaces of
//! different names.

use crate::model::{
    member_names, opt_name_view, opt_ref_view, sig_views, Document, Interface, MemberKind,
    MemberQuery,
};
use crate::signature::TypeSignature;
use vstd::prelude::*;
use vstd::string::*;

verus! {

/// A lookup, at the specification level: the member name sought, the kind of
/// member, and the optional interface filter.
pub ghost struct Lookup {
    pub name: Seq<char>,
    pub kind: MemberKind,
    pub filter: Option<Seq<char>>,
}

/// The lookup a query stands for.
pub open spec fn lookup_of(q: MemberQuery) -> Lookup {
    Lookup { name: q.name@, kind: q.kind, filter: opt_name_view(q.interface) }
}

/// Whether the filter admits an interface: no filter admits every interface,
/// a filter admits exactly the interfaces bearing its name.
pub open spec fn iface_admitted(filter: Option<Seq<char>>, iface: Interface) -> bool {
    match filter {
        Some(f) => iface.name@ == f,
        None => true,
    }
}

/// How many names in `names[j..]` equal `target`.
pub open spec fn name_match_count(names: Seq<Seq<char>>, target: Seq<char>, j: int) -> nat
    decreases names.len() - j,
{
    if j < 0 || j >= names.len() {
        0
    } else {
        (if names[j] == target {
            1nat
        } else {
            0nat
        }) + name_match_count(names, target, j + 1)
    }
}

/// How many members of the queried kind and name one interface contributes.
pub open spec fn iface_match_count(lk: Lookup, iface: Interface) -> nat {
    if iface_admitted(lk.filter, iface) {
        name_match_count(member_names(iface, lk.kind), lk.name, 0)
    } else {
        0
    }
}

/// How many matches the interfaces `ifaces[i..]` contribute.
pub open spec fn ifaces_match_count(lk: Lookup, ifaces: Seq<Interface>, i: int) -> nat
    decreases ifaces.len() - i,
{
    if i < 0 || i >= ifaces.len() {
        0
    } else {
        iface_match_count(lk, ifaces[i]) + ifaces_match_count(lk, ifaces, i + 1)
    }
}

/// How many matches the documents `docs[d..]` contribute.
pub open spec fn docs_match_count(lk: Lookup, docs: Seq<Document>, d: int) -> nat
    decreases docs.len() - d,
{
    if d < 0 || d >= docs.len() {
        0
    } else {
        ifaces_match_count(lk, docs[d].interfaces@, 0) + docs_match_count(lk, docs, d + 1)
    }
}

/// How many members of the whole document set match the lookup.
pub open spec fn match_count(lk: Lookup, docs: Seq<Document>) -> nat {
    docs_match_count(lk, docs, 0)
}

/// Member `m` of interface `i` of document `d` matches the lookup: the
/// indices are in bounds, the filter admits the interface, and the member of
/// the queried kind bears the queried name.
pub open spec fn is_match(lk: Lookup, docs: Seq<Document>, d: int, i: int, m: int) -> bool {
    &&& 0 <= d < docs.len()
    &&& 0 <= i < docs[d].interfaces@.len()
    &&& iface_admitted(lk.filter, docs[d].interfaces@[i])
    &&& 0 <= m < member_names(docs[d].interfaces@[i], lk.kind).len()
    &&& member_names(docs[d].interfaces@[i], lk.kind)[m] == lk.name
}

/// An interface name joins the candidate list only once, on its first match.
pub open spec fn push_candidate(acc: Seq<Seq<char>>, name: Seq<char>) -> Seq<Seq<char>> {
    if acc.contains(name) {
        acc
    } else {
        acc.push(name)
    }
}

/// The candidate list after scanning `names[j..]` of one interface, starting
/// from `acc`.
pub open spec fn names_candidates(
    names: Seq<Seq<char>>,
    target: Seq<char>,
    iface_name: Seq<char>,
    j: int,
    acc: Seq<Seq<char>>,
) -> Seq<Seq<char>>
    decreases names.len() - j,
{
    if j < 0 || j >= names.len() {
        acc
    } else {
        names_candidates(
            names,
            target,
            iface_name,
            j + 1,
            if names[j] == target {
                push_candidate(acc, iface_name)
            } else {
                acc
            },
        )
    }
}

/// The candidate list after scanning one interface.
pub open spec fn iface_candidates(lk: Lookup, iface: Interface, acc: Seq<Seq<char>>) -> Seq<
    Seq<char>,
> {
    if iface_admitted(lk.filter, iface) {
        names_candidates(member_names(iface, lk.kind), lk.name, iface.name@, 0, acc)
    } else {
        acc
    }
}

/// The candidate list after scanning `ifaces[i..]`.
pub open spec fn ifaces_candidates(
    lk: Lookup,
    ifaces: Seq<Interface>,
    i: int,
    acc: Seq<Seq<char>>,
) -> Seq<Seq<char>>
    decreases ifaces.len() - i,
{
    if i < 0 || i >= ifaces.len() {
        acc
    } else {
        ifaces_candidates(lk, ifaces, i + 1, iface_candidates(lk, ifaces[i], acc))
    }
}

/// The candidate list after scanning `docs[d..]`.
pub open spec fn docs_candidates(lk: Lookup, docs: Seq<Document>, d: int, acc: Seq<Seq<char>>) -> Seq<
    Seq<char>,
>
    decreases docs.len() - d,
{
    if d < 0 || d >= docs.len() {
        acc
    } else {
        docs_candidates(lk, docs, d + 1, ifaces_candidates(lk, docs[d].interfaces@, 0, acc))
    }
}

/// The distinct names of every interface that matches the lookup, in the
/// order of their first match.
pub open spec fn candidate_names(lk: Lookup, docs: Seq<Document>) -> Seq<Seq<char>> {
    docs_candidates(lk, docs, 0, Seq::empty())
}

/// The character sequences of a list of owned names, in order.
pub open spec fn name_views(names: Seq<String>) -> Seq<Seq<char>> {
    names.map_values(|s: String| s@)
}

/// Why a lookup produced no usable signature.
#[derive(Debug)]
pub enum LookupError {
    /// No document declares a member of the queried kind and name; a hard
    /// configuration or usage error, never a soft default.
    NotFound,
    /// More than one member matched. The distinct names of every matching
    /// interface, in the order of their first match, so the caller can retry
    /// with an explicit interface filter.
    Ambiguous { candidates: Vec<String> },
    /// The method matched uniquely but declares a number of output arguments
    /// other than one, which no return-signature rule covers.
    UnsupportedReturns { count: usize },
}

/// Where the uniquely matching member stands: the position of the member in
/// the document set, with the owning document's identity and the declaring
/// interface's name for reporting.
#[derive(Debug)]
pub struct MemberLocation {
    pub doc_index: usize,
    pub iface_index: usize,
    pub member_index: usize,
    pub document: String,
    pub interface: String,
}

/// Whether one of the owned names reads as `name`.
fn contains_name(names: &Vec<String>, name: &String) -> (r: bool)
    ensures
        r == name_views(names@).contains(name@),
{
    let mut i: usize = 0;
    while i < names.len()
        invariant
            i <= names.len(),
            forall|t: int| 0 <= t < i ==> names@[t]@ != name@,
        decreases names.len() - i,
    {
        if names[i] == *name {
            proof {
                assert(name_views(names@)[i as int] == name@);
            }
            return true;
        }
        i = i + 1;
    }
    proof {
        assert forall|j: int| 0 <= j < name_views(names@).len() implies name_views(names@)[j]
            != name@ by {
            assert(name_views(names@)[j] == names@[j]@);
        }
    }
    false
}

/// How many members of the given kind an interface declares.
fn member_count(iface: &Interface, kind: MemberKind) -> (n: usize)
    ensures
        n == member_names(*iface, kind).len(),
{
    match kind {
        MemberKind::Method => iface.methods.len(),
        MemberKind::Signal => iface.signals.len(),
        MemberKind::Property => iface.properties.len(),
    }
}

/// The name of member `j` of the given kind.
fn member_name_at<'a>(iface: &'a Interface, kind: MemberKind, j: usize) -> (r: &'a String)
    requires
        j < member_names(*iface, kind).len(),
    ensures
        r@ == member_names(*iface, kind)[j as int],
{
    match kind {
        MemberKind::Method => &iface.methods[j].name,
        MemberKind::Signal => &iface.signals[j].name,
        MemberKind::Property => &iface.properties[j].name,
    }
}

/// Whether the query's filter admits the interface.
fn iface_passes(q: &MemberQuery, iface: &Interface) -> (r: bool)
    ensures
        r == iface_admitted(lookup_of(*q).filter, *iface),
{
    match &q.interface {
        Some(f) => iface.name == *f,
        None => true,
    }
}

/// Resolves a query against a document set.
///
/// Documents are walked in caller-supplied order, interfaces and members in
/// declaration order; interfaces the filter does not admit are never
/// scanned. Exactly one match yields its location; none yields `NotFound`;
/// more than one yields `Ambiguous` with the distinct names of every
/// matching interface, in first-match order.
#[verifier::loop_isolation(false)]
pub fn locate(docs: &Vec<Document>, q: &MemberQuery) -> (r: Result<MemberLocation, LookupError>)
    ensures
        ({
            let lk = lookup_of(*q);
            match r {
                Ok(loc) => {
                    &&& match_count(lk, docs@) == 1
                    &&& is_match(
                        lk,
                        docs@,
                        loc.doc_index as int,
                        loc.iface_index as int,
                        loc.member_index as int,
                    )
                    &&& loc.document@ == docs@[loc.doc_index as int].name@
                    &&& loc.interface@
                        == docs@[loc.doc_index as int].interfaces@[loc.iface_index as int].name@
                },
                Err(LookupError::NotFound) => match_count(lk, docs@) == 0,
                Err(LookupError::Ambiguous { candidates }) => {
                    &&& match_count(lk, docs@) >= 2
                    &&& name_views(candidates@) == candidate_names(lk, docs@)
                },
                Err(LookupError::UnsupportedReturns { .. }) => false,
            }
        }),
{
    let ghost lk = lookup_of(*q);
    let mut found: Option<MemberLocation> = None;
    let mut extra: bool = false;
    let mut cands: Vec<String> = Vec::new();
    let ghost mut seen: nat = 0;
    proof {
        assert(name_views(cands@) =~= Seq::<Seq<char>>::empty());
    }
    let mut d: usize = 0;
    while d < docs.len()
        invariant
            d <= docs.len(),
            match_count(lk, docs@) == seen + docs_match_count(lk, docs@, d as int),
            candidate_names(lk, docs@) == docs_candidates(lk, docs@, d as int, name_views(cands@)),
            found is None <==> seen == 0,
            extra <==> seen >= 2,
            found matches Some(loc) ==> {
                &&& is_match(
                    lk,
                    docs@,
                    loc.doc_index as int,
                    loc.iface_index as int,
                    loc.member_index as int,
                )
                &&& loc.document@ == docs@[loc.doc_index as int].name@
                &&& loc.interface@
                    == docs@[loc.doc_index as int].interfaces@[loc.iface_index as int].name@
            },
        decreases docs.len() - d,
    {
        let doc = &docs[d];
        let mut i: usize = 0;
        while i < doc.interfaces.len()
            invariant
                i <= doc.interfaces.len(),
                d < docs.len(),
                match_count(lk, docs@) == seen + ifaces_match_count(
                    lk,
                    docs@[d as int].interfaces@,
                    i as int,
                ) + docs_match_count(lk, docs@, d as int + 1),
                candidate_names(lk, docs@) == docs_candidates(
                    lk,
                    docs@,
                    d as int + 1,
                    ifaces_candidates(lk, docs@[d as int].interfaces@, i as int, name_views(cands@)),
                ),
                found is None <==> seen == 0,
                extra <==> seen >= 2,
                found matches Some(loc) ==> {
                    &&& is_match(
                        lk,
                        docs@,
                        loc.doc_index as int,
                        loc.iface_index as int,
                        loc.member_index as int,
                    )
                    &&& loc.document@ == docs@[loc.doc_index as int].name@
                    &&& loc.interface@
                        == docs@[loc.doc_index as int].interfaces@[loc.iface_index as int].name@
                },
            decreases doc.interfaces.len() - i,
        {
            let iface = &doc.interfaces[i];
            if iface_passes(q, iface) {
                let n = member_count(iface, q.kind);
                let mut j: usize = 0;
                while j < n
                    invariant
                        j <= n,
                        d < docs.len(),
                        i < doc.interfaces.len(),
                        n == member_names(docs@[d as int].interfaces@[i as int], lk.kind).len(),
                        iface_admitted(lk.filter, docs@[d as int].interfaces@[i as int]),
                        match_count(lk, docs@) == seen + name_match_count(
                            member_names(docs@[d as int].interfaces@[i as int], lk.kind),
                            lk.name,
                            j as int,
                        ) + ifaces_match_count(lk, docs@[d as int].interfaces@, i as int + 1)
                            + docs_match_count(lk, docs@, d as int + 1),
                        candidate_names(lk, docs@) == docs_candidates(
                            lk,
                            docs@,
                            d as int + 1,
                            ifaces_candidates(
                                lk,
                                docs@[d as int].interfaces@,
                                i as int + 1,
                                names_candidates(
                                    member_names(docs@[d as int].interfaces@[i as int], lk.kind),
                                    lk.name,
                                    docs@[d as int].interfaces@[i as int].name@,
                                    j as int,
                                    name_views(cands@),
                                ),
                            ),
                        ),
                        found is None <==> seen == 0,
                        extra <==> seen >= 2,
                        found matches Some(loc) ==> {
                            &&& is_match(
                                lk,
                                docs@,
                                loc.doc_index as int,
                                loc.iface_index as int,
                                loc.member_index as int,
                            )
                            &&& loc.document@ == docs@[loc.doc_index as int].name@
                            &&& loc.interface@
                                == docs@[loc.doc_index as int].interfaces@[loc.iface_index as int].name@
                        },
                    decreases n - j,
                {
                    let mn = member_name_at(iface, q.kind, j);
                    if *mn == q.name {
                        proof {
                            seen = seen + 1;
                        }
                        if !contains_name(&cands, &iface.name) {
                            let ghost old_cands = cands@;
                            cands.push(iface.name.clone());
                            proof {
                                assert(name_views(cands@) =~= name_views(old_cands).push(
                                    docs@[d as int].interfaces@[i as int].name@,
                                ));
                            }
                        }
                        if found.is_none() {
                            found = Some(
                                MemberLocation {
                                    doc_index: d,
                                    iface_index: i,
                                    member_index: j,
                                    document: doc.name.clone(),
                                    interface: iface.name.clone(),
                                },
                            );
                        } else {
                            extra = true;
                        }
                    }
                    j = j + 1;
                }
            }
            i = i + 1;
        }
        d = d + 1;
    }
    match found {
        None => Err(LookupError::NotFound),
        Some(loc) => {
            if extra {
                Err(LookupError::Ambiguous { candidates: cands })
            } else {
                Ok(loc)
            }
        },
    }
}

/// The concatenation of `sigs[j..]`, in order.
pub open spec fn concat_from(sigs: Seq<Seq<char>>, j: int) -> Seq<char>
    decreases sigs.len() - j,
{
    if j < 0 || j >= sigs.len() {
        Seq::empty()
    } else {
        sigs[j] + concat_from(sigs, j + 1)
    }
}

/// The concatenation of a member's argument signatures, in declared order:
/// logically an unparenthesized tuple, not wrapped in struct delimiters.
pub open spec fn concat_all(sigs: Seq<Seq<char>>) -> Seq<char> {
    concat_from(sigs, 0)
}

/// Concatenates argument signatures in declared order.
pub(crate) fn concat_signatures(sigs: &Vec<TypeSignature>) -> (r: TypeSignature)
    ensures
        r@ == concat_all(sig_views(sigs@)),
{
    let mut acc = String::new();
    proof {
        assert(acc@ + concat_from(sig_views(sigs@), 0) =~= concat_from(sig_views(sigs@), 0));
    }
    let mut j: usize = 0;
    while j < sigs.len()
        invariant
            j <= sigs.len(),
            concat_all(sig_views(sigs@)) == acc@ + concat_from(sig_views(sigs@), j as int),
        decreases sigs.len() - j,
    {
        let ghost pre = acc@;
        let sj = &sigs[j];
        acc.append(sj.as_str());
        proof {
            assert(sig_views(sigs@)[j as int] == sigs@[j as int]@);
            assert((pre + sig_views(sigs@)[j as int]) + concat_from(sig_views(sigs@), j as int + 1)
                =~= pre + (sig_views(sigs@)[j as int] + concat_from(
                sig_views(sigs@),
                j as int + 1,
            )));
        }
        j = j + 1;
    }
    proof {
        assert(acc@ + concat_from(sig_views(sigs@), sigs@.len() as int) =~= acc@);
    }
    TypeSignature::from_string(acc)
}

/// Resolves a method's arguments signature: the concatenation, in declared
/// order, of the uniquely matching method's input-argument signatures.
pub fn method_args_signature(
    docs: &Vec<Document>,
    member: &String,
    interface: Option<&String>,
) -> (r: Result<TypeSignature, LookupError>)
    ensures
        ({
            let lk = (Lookup {
                name: member@,
                kind: MemberKind::Method,
                filter: opt_ref_view(interface),
            });
            match r {
                Ok(sig) => {
                    &&& match_count(lk, docs@) == 1
                    &&& exists|d: int, i: int, m: int|
                        is_match(lk, docs@, d, i, m) && sig@ == concat_all(
                            sig_views(docs@[d].interfaces@[i].methods@[m].inputs@),
                        )
                },
                Err(LookupError::NotFound) => match_count(lk, docs@) == 0,
                Err(LookupError::Ambiguous { candidates }) => {
                    &&& match_count(lk, docs@) >= 2
                    &&& name_views(candidates@) == candidate_names(lk, docs@)
                },
                Err(LookupError::UnsupportedReturns { .. }) => false,
            }
        }),
{
    let q = MemberQuery::new(member, MemberKind::Method, interface);
    match locate(docs, &q) {
        Ok(loc) => {
            let iface = &docs[loc.doc_index].interfaces[loc.iface_index];
            let method = &iface.methods[loc.member_index];
            let sig = concat_signatures(&method.inputs);
            proof {
                assert(is_match(
                    lookup_of(q),
                    docs@,
                    loc.doc_index as int,
                    loc.iface_index as int,
                    loc.member_index as int,
                ));
            }
            Ok(sig)
        },
        Err(e) => Err(e),
    }
}

/// Resolves a method's return signature: the signature of the uniquely
/// matching method's single output argument. A method with no output
/// argument, or more than one, is an explicit unsupported case.
pub fn method_return_signature(
    docs: &Vec<Document>,
    member: &String,
    interface: Option<&String>,
) -> (r: Result<TypeSignature, LookupError>)
    ensures
        ({
            let lk = (Lookup {
                name: member@,
                kind: MemberKind::Method,
                filter: opt_ref_view(interface),
            });
            match r {
                Ok(sig) => {
                    &&& match_count(lk, docs@) == 1
                    &&& exists|d: int, i: int, m: int|
                        is_match(lk, docs@, d, i, m)
                            && docs@[d].interfaces@[i].methods@[m].outputs@.len() == 1 && sig@
                            == docs@[d].interfaces@[i].methods@[m].outputs@[0]@
                },
                Err(LookupError::NotFound) => match_count(lk, docs@) == 0,
                Err(LookupError::Ambiguous { candidates }) => {
                    &&& match_count(lk, docs@) >= 2
                    &&& name_views(candidates@) == candidate_names(lk, docs@)
                },
                Err(LookupError::UnsupportedReturns { count }) => {
                    &&& match_count(lk, docs@) == 1
                    &&& count != 1
                    &&& exists|d: int, i: int, m: int|
                        is_match(lk, docs@, d, i, m)
                            && docs@[d].interfaces@[i].methods@[m].outputs@.len() == count
                },
            }
        }),
{
    let q = MemberQuery::new(member, MemberKind::Method, interface);
    match locate(docs, &q) {
        Ok(loc) => {
            let iface = &docs[loc.doc_index].interfaces[loc.iface_index];
            let method = &iface.methods[loc.member_index];
            proof {
                assert(is_match(
                    lookup_of(q),
                    docs@,
                    loc.doc_index as int,
                    loc.iface_index as int,
                    loc.member_index as int,
                ));
            }
            if method.outputs.len() == 1 {
                let out = &method.outputs[0];
                Ok(out.duplicate())
            } else {
                Err(LookupError::UnsupportedReturns { count: method.outputs.len() })
            }
        },
        Err(e) => Err(e),
    }
}

/// Resolves a signal's body signature: the concatenation, in declared order,
/// of the uniquely matching signal's body-argument signatures.
pub fn signal_body_type_signature(
    docs: &Vec<Document>,
    member: &String,
    interface: Option<&String>,
) -> (r: Result<TypeSignature, LookupError>)
    ensures
        ({
            let lk = (Lookup {
                name: member@,
                kind: MemberKind::Signal,
                filter: opt_ref_view(interface),
            });
            match r {
                Ok(sig) => {
                    &&& match_count(lk, docs@) == 1
                    &&& exists|d: int, i: int, m: int|
                        is_match(lk, docs@, d, i, m) && sig@ == concat_all(
                            sig_views(docs@[d].interfaces@[i].signals@[m].body@),
                        )
                },
                Err(LookupError::NotFound) => match_count(lk, docs@) == 0,
                Err(LookupError::Ambiguous { candidates }) => {
                    &&& match_count(lk, docs@) >= 2
                    &&& name_views(candidates@) == candidate_names(lk, docs@)
                },
                Err(LookupError::UnsupportedReturns { .. }) => false,
            }
        }),
{
    let q = MemberQuery::new(member, MemberKind::Signal, interface);
    match locate(docs, &q) {
        Ok(loc) => {
            let iface = &docs[loc.doc_index].interfaces[loc.iface_index];
            let signal = &iface.signals[loc.member_index];
            let sig = concat_signatures(&signal.body);
            proof {
                assert(is_match(
                    lookup_of(q),
                    docs@,
                    loc.doc_index as int,
                    loc.iface_index as int,
                    loc.member_index as int,
                ));
            }
            Ok(sig)
        },
        Err(e) => Err(e),
    }
}

/// Resolves a property's signature: the uniquely matching property's single
/// declared signature, unmodified.
pub fn property_type_signature(
    docs: &Vec<Document>,
    member: &String,
    interface: Option<&String>,
) -> (r: Result<TypeSignature, LookupError>)
    ensures
        ({
            let lk = (Lookup {
                name: member@,
                kind: MemberKind::Property,
                filter: opt_ref_view(interface),
            });
            match r {
                Ok(sig) => {
                    &&& match_count(lk, docs@) == 1
                    &&& exists|d: int, i: int, m: int|
                        is_match(lk, docs@, d, i, m) && sig@
                            == docs@[d].interfaces@[i].properties@[m].signature@
                },
                Err(LookupError::NotFound) => match_count(lk, docs@) == 0,
                Err(LookupError::Ambiguous { candidates }) => {
                    &&& match_count(lk, docs@) >= 2
                    &&& name_views(candidates@) == candidate_names(lk, docs@)
                },
                Err(LookupError::UnsupportedReturns { .. }) => false,
            }
        }),
{
    let q = MemberQuery::new(member, MemberKind::Property, interface);
    match locate(docs, &q) {
        Ok(loc) => {
            let iface = &docs[loc.doc_index].interfaces[loc.iface_index];
            let property = &iface.properties[loc.member_index];
            proof {
                assert(is_match(
                    lookup_of(q),
                    docs@,
                    loc.doc_index as int,
                    loc.iface_index as int,
                    loc.member_index as int,
                ));
            }
            Ok(property.signature.duplicate())
        },
        Err(e) => Err(e),
    }
}

proof fn lemma_name_count_ge_one(names: Seq<Seq<char>>, target: Seq<char>, j: int, m: int)
    requires
        0 <= j <= m < names.len(),
        names[m] == target,
    ensures
        name_match_count(names, target, j) >= 1,
    decreases m - j,
{
    if j < m {
        lemma_name_count_ge_one(names, target, j + 1, m);
    }
}

proof fn lemma_name_count_ge_two(names: Seq<Seq<char>>, target: Seq<char>, j: int, m1: int, m2: int)
    requires
        0 <= j <= m1 < m2 < names.len(),
        names[m1] == target,
        names[m2] == target,
    ensures
        name_match_count(names, target, j) >= 2,
    decreases m1 - j,
{
    if j < m1 {
        lemma_name_count_ge_two(names, target, j + 1, m1, m2);
    } else {
        lemma_name_count_ge_one(names, target, j + 1, m2);
    }
}

proof fn lemma_ifaces_count_ge_iface(lk: Lookup, ifaces: Seq<Interface>, i: int, t: int)
    requires
        0 <= i <= t < ifaces.len(),
    ensures
        ifaces_match_count(lk, ifaces, i) >= iface_match_count(lk, ifaces[t]),
    decreases t - i,
{
    if i < t {
        lemma_ifaces_count_ge_iface(lk, ifaces, i + 1, t);
    }
}

proof fn lemma_ifaces_count_ge_two_ifaces(lk: Lookup, ifaces: Seq<Interface>, i: int, t1: int, t2: int)
    requires
        0 <= i <= t1 < t2 < ifaces.len(),
    ensures
        ifaces_match_count(lk, ifaces, i) >= iface_match_count(lk, ifaces[t1]) + iface_match_count(
            lk,
            ifaces[t2],
        ),
    decreases t1 - i,
{
    if i < t1 {
        lemma_ifaces_count_ge_two_ifaces(lk, ifaces, i + 1, t1, t2);
    } else {
        lemma_ifaces_count_ge_iface(lk, ifaces, i + 1, t2);
    }
}

proof fn lemma_docs_count_ge_doc(lk: Lookup, docs: Seq<Document>, d: int, t: int)
    requires
        0 <= d <= t < docs.len(),
    ensures
        docs_match_count(lk, docs, d) >= ifaces_match_count(lk, docs[t].interfaces@, 0),
    decreases t - d,
{
    if d < t {
        lemma_docs_count_ge_doc(lk, docs, d + 1, t);
    }
}

proof fn lemma_docs_count_ge_two_docs(lk: Lookup, docs: Seq<Document>, d: int, t1: int, t2: int)
    requires
        0 <= d <= t1 < t2 < docs.len(),
    ensures
        docs_match_count(lk, docs, d) >= ifaces_match_count(lk, docs[t1].interfaces@, 0)
            + ifaces_match_count(lk, docs[t2].interfaces@, 0),
    decreases t1 - d,
{
    if d < t1 {
        lemma_docs_count_ge_two_docs(lk, docs, d + 1, t1, t2);
    } else {
        lemma_docs_count_ge_doc(lk, docs, d + 1, t2);
    }
}

proof fn lemma_iface_count_ge_one(lk: Lookup, docs: Seq<Document>, d: int, i: int, m: int)
    requires
        is_match(lk, docs, d, i, m),
    ensures
        iface_match_count(lk, docs[d].interfaces@[i]) >= 1,
{
    lemma_name_count_ge_one(member_names(docs[d].interfaces@[i], lk.kind), lk.name, 0, m);
}

/// Uniqueness: when exactly one member of the set matches the lookup — the
/// case in which the locator succeeds — any two matching positions are the
/// same position.
pub proof fn lemma_unique_match(
    lk: Lookup,
    docs: Seq<Document>,
    d1: int,
    i1: int,
    m1: int,
    d2: int,
    i2: int,
    m2: int,
)
    requires
        match_count(lk, docs) == 1,
        is_match(lk, docs, d1, i1, m1),
        is_match(lk, docs, d2, i2, m2),
    ensures
        d1 == d2,
        i1 == i2,
        m1 == m2,
{
    lemma_iface_count_ge_one(lk, docs, d1, i1, m1);
    lemma_iface_count_ge_one(lk, docs, d2, i2, m2);
    if d1 == d2 && i1 == i2 {
        if m1 != m2 {
            let names = member_names(docs[d1].interfaces@[i1], lk.kind);
            if m1 < m2 {
                lemma_name_count_ge_two(names, lk.name, 0, m1, m2);
            } else {
                lemma_name_count_ge_two(names, lk.name, 0, m2, m1);
            }
            lemma_ifaces_count_ge_iface(lk, docs[d1].interfaces@, 0, i1);
            lemma_docs_count_ge_doc(lk, docs, 0, d1);
            assert(false);
        }
    } else if d1 == d2 {
        let ifaces = docs[d1].interfaces@;
        if i1 < i2 {
            lemma_ifaces_count_ge_two_ifaces(lk, ifaces, 0, i1, i2);
        } else {
            lemma_ifaces_count_ge_two_ifaces(lk, ifaces, 0, i2, i1);
        }
        lemma_docs_count_ge_doc(lk, docs, 0, d1);
        assert(false);
    } else {
        lemma_ifaces_count_ge_iface(lk, docs[d1].interfaces@, 0, i1);
        lemma_ifaces_count_ge_iface(lk, docs[d2].interfaces@, 0, i2);
        if d1 < d2 {
            lemma_docs_count_ge_two_docs(lk, docs, 0, d1, d2);
        } else {
            lemma_docs_count_ge_two_docs(lk, docs, 0, d2, d1);
        }
        assert(false);
    }
}

proof fn lemma_name_count_zero(names: Seq<Seq<char>>, target: Seq<char>, j: int)
    requires
        0 <= j <= names.len(),
    ensures
        (name_match_count(names, target, j) == 0) <==> (forall|t: int|
            j <= t < names.len() ==> names[t] != target),
    decreases names.len() - j,
{
    if j < names.len() {
        lemma_name_count_zero(names, target, j + 1);
    }
}

proof fn lemma_ifaces_count_zero(lk: Lookup, ifaces: Seq<Interface>, i: int)
    requires
        0 <= i <= ifaces.len(),
    ensures
        (ifaces_match_count(lk, ifaces, i) == 0) <==> (forall|t: int|
            i <= t < ifaces.len() ==> iface_match_count(lk, ifaces[t]) == 0),
    decreases ifaces.len() - i,
{
    if i < ifaces.len() {
        lemma_ifaces_count_zero(lk, ifaces, i + 1);
    }
}

proof fn lemma_docs_count_zero(lk: Lookup, docs: Seq<Document>, d: int)
    requires
        0 <= d <= docs.len(),
    ensures
        (docs_match_count(lk, docs, d) == 0) <==> (forall|t: int|
            d <= t < docs.len() ==> ifaces_match_count(lk, docs[t].interfaces@, 0) == 0),
    decreases docs.len() - d,
{
    if d < docs.len() {
        lemma_docs_count_zero(lk, docs, d + 1);
    }
}

/// Absence, exactly: a lookup matches nothing — and so resolves to
/// `NotFound` — precisely when no member of any document's interfaces of the
/// queried kind bears the queried name under the filter.
pub proof fn lemma_count_zero_iff_no_match(lk: Lookup, docs: Seq<Document>)
    ensures
        (match_count(lk, docs) == 0) <==> (forall|d: int, i: int, m: int|
            !is_match(lk, docs, d, i, m)),
{
    lemma_docs_count_zero(lk, docs, 0);
    if match_count(lk, docs) == 0 {
        assert forall|d: int, i: int, m: int| !is_match(lk, docs, d, i, m) by {
            if is_match(lk, docs, d, i, m) {
                let ifaces = docs[d].interfaces@;
                lemma_ifaces_count_zero(lk, ifaces, 0);
                assert(iface_match_count(lk, ifaces[i]) == 0);
                lemma_name_count_zero(member_names(ifaces[i], lk.kind), lk.name, 0);
                assert(false);
            }
        }
    } else {
        let t = choose|t: int|
            0 <= t < docs.len() && ifaces_match_count(lk, docs[t].interfaces@, 0) != 0;
        let ifaces = docs[t].interfaces@;
        lemma_ifaces_count_zero(lk, ifaces, 0);
        let i = choose|i: int| 0 <= i < ifaces.len() && iface_match_count(lk, ifaces[i]) != 0;
        assert(iface_admitted(lk.filter, ifaces[i]));
        lemma_name_count_zero(member_names(ifaces[i], lk.kind), lk.name, 0);
        let m = choose|m: int|
            0 <= m < member_names(ifaces[i], lk.kind).len() && member_names(ifaces[i], lk.kind)[m]
                == lk.name;
        assert(is_match(lk, docs, t, i, m));
    }
}

proof fn lemma_push_contains(s: Seq<Seq<char>>, v: Seq<char>, x: Seq<char>)
    ensures
        s.push(v).contains(x) <==> (s.contains(x) || x == v),
{
    if s.contains(x) {
        let i = choose|i: int| 0 <= i < s.len() && s[i] == x;
        assert(s.push(v)[i] == x);
    }
    if x == v {
        assert(s.push(v)[s.len() as int] == x);
    }
    if s.push(v).contains(x) {
        let i = choose|i: int| 0 <= i < s.push(v).len() && s.push(v)[i] == x;
        if i < s.len() {
            assert(s[i] == x);
        }
    }
}

proof fn lemma_push_candidate_props(acc: Seq<Seq<char>>, name: Seq<char>, x: Seq<char>)
    ensures
        push_candidate(acc, name).contains(x) <==> (acc.contains(x) || x == name),
        acc.no_duplicates() ==> push_candidate(acc, name).no_duplicates(),
{
    lemma_push_contains(acc, name, x);
    if !acc.contains(name) && acc.no_duplicates() {
        let p = acc.push(name);
        assert forall|a: int, b: int| 0 <= a < b < p.len() implies p[a] != p[b] by {
            if b < acc.len() {
                assert(p[a] == acc[a] && p[b] == acc[b]);
            } else {
                assert(p[b] == name);
                assert(p[a] == acc[a]);
                if p[a] == name {
                    assert(acc.contains(name));
                }
            }
        }
    }
    if acc.contains(name) {
        let i = choose|i: int| 0 <= i < acc.len() && acc[i] == name;
        assert(push_candidate(acc, name) == acc);
    }
}

proof fn lemma_names_candidates_props(
    names: Seq<Seq<char>>,
    target: Seq<char>,
    iface_name: Seq<char>,
    j: int,
    acc: Seq<Seq<char>>,
    x: Seq<char>,
)
    requires
        0 <= j <= names.len(),
    ensures
        names_candidates(names, target, iface_name, j, acc).contains(x) <==> (acc.contains(x) || (x
            == iface_name && name_match_count(names, target, j) >= 1)),
        acc.no_duplicates() ==> names_candidates(names, target, iface_name, j, acc).no_duplicates(),
    decreases names.len() - j,
{
    if j < names.len() {
        let acc2 = if names[j] == target {
            push_candidate(acc, iface_name)
        } else {
            acc
        };
        lemma_push_candidate_props(acc, iface_name, x);
        lemma_names_candidates_props(names, target, iface_name, j + 1, acc2, x);
    }
}

proof fn lemma_iface_candidates_props(lk: Lookup, iface: Interface, acc: Seq<Seq<char>>, x: Seq<char>)
    ensures
        iface_candidates(lk, iface, acc).contains(x) <==> (acc.contains(x) || (x == iface.name@
            && iface_match_count(lk, iface) >= 1)),
        acc.no_duplicates() ==> iface_candidates(lk, iface, acc).no_duplicates(),
{
    if iface_admitted(lk.filter, iface) {
        lemma_names_candidates_props(member_names(iface, lk.kind), lk.name, iface.name@, 0, acc, x);
    }
}

proof fn lemma_ifaces_candidates_props(
    lk: Lookup,
    ifaces: Seq<Interface>,
    i: int,
    acc: Seq<Seq<char>>,
    x: Seq<char>,
)
    requires
        0 <= i <= ifaces.len(),
    ensures
        ifaces_candidates(lk, ifaces, i, acc).contains(x) <==> (acc.contains(x) || exists|t: int|
            i <= t < ifaces.len() && iface_match_count(lk, ifaces[t]) >= 1 && ifaces[t].name@ == x),
        acc.no_duplicates() ==> ifaces_candidates(lk, ifaces, i, acc).no_duplicates(),
    decreases ifaces.len() - i,
{
    if i < ifaces.len() {
        let acc2 = iface_candidates(lk, ifaces[i], acc);
        lemma_iface_candidates_props(lk, ifaces[i], acc, x);
        lemma_ifaces_candidates_props(lk, ifaces, i + 1, acc2, x);
        if acc2.contains(x) && !acc.contains(x) {
            assert(iface_match_count(lk, ifaces[i]) >= 1 && ifaces[i].name@ == x);
        }
        if exists|t: int|
            i <= t < ifaces.len() && iface_match_count(lk, ifaces[t]) >= 1 && ifaces[t].name@
                == x {
            let t = choose|t: int|
                i <= t < ifaces.len() && iface_match_count(lk, ifaces[t]) >= 1 && ifaces[t].name@
                    == x;
            if t == i {
                assert(acc2.contains(x));
            }
        }
    }
}

proof fn lemma_docs_candidates_props(
    lk: Lookup,
    docs: Seq<Document>,
    d: int,
    acc: Seq<Seq<char>>,
    x: Seq<char>,
)
    requires
        0 <= d <= docs.len(),
    ensures
        docs_candidates(lk, docs, d, acc).contains(x) <==> (acc.contains(x) || exists|
            t: int,
            i: int,
        |
            d <= t < docs.len() && 0 <= i < docs[t].interfaces@.len() && iface_match_count(
                lk,
                docs[t].interfaces@[i],
            ) >= 1 && docs[t].interfaces@[i].name@ == x),
        acc.no_duplicates() ==> docs_candidates(lk, docs, d, acc).no_duplicates(),
    decreases docs.len() - d,
{
    if d < docs.len() {
        let ifaces = docs[d].interfaces@;
        let acc2 = ifaces_candidates(lk, ifaces, 0, acc);
        lemma_ifaces_candidates_props(lk, ifaces, 0, acc, x);
        lemma_docs_candidates_props(lk, docs, d + 1, acc2, x);
        if acc2.contains(x) && !acc.contains(x) {
            let i = choose|i: int|
                0 <= i < ifaces.len() && iface_match_count(lk, ifaces[i]) >= 1 && ifaces[i].name@
                    == x;
            assert(d <= d < docs.len() && 0 <= i < docs[d].interfaces@.len() && iface_match_count(
                lk,
                docs[d].interfaces@[i],
            ) >= 1 && docs[d].interfaces@[i].name@ == x);
        }
        if exists|t: int, i: int|
            d <= t < docs.len() && 0 <= i < docs[t].interfaces@.len() && iface_match_count(
                lk,
                docs[t].interfaces@[i],
            ) >= 1 && docs[t].interfaces@[i].name@ == x {
            let (t, i) = choose|t: int, i: int|
                d <= t < docs.len() && 0 <= i < docs[t].interfaces@.len() && iface_match_count(
                    lk,
                    docs[t].interfaces@[i],
                ) >= 1 && docs[t].interfaces@[i].name@ == x;
            if t == d {
                assert(0 <= i < ifaces.len() && iface_match_count(lk, ifaces[i]) >= 1
                    && ifaces[i].name@ == x);
                assert(acc2.contains(x));
            }
        }
    }
}

/// The candidate list never names an interface twice.
pub proof fn lemma_candidates_distinct(lk: Lookup, docs: Seq<Document>)
    ensures
        candidate_names(lk, docs).no_duplicates(),
{
    lemma_docs_candidates_props(lk, docs, 0, Seq::empty(), Seq::empty());
}

/// The candidate list holds exactly the names of the interfaces in which
/// some member matches the lookup.
pub proof fn lemma_candidates_complete(lk: Lookup, docs: Seq<Document>, x: Seq<char>)
    ensures
        candidate_names(lk, docs).contains(x) <==> exists|d: int, i: int, m: int|
            is_match(lk, docs, d, i, m) && docs[d].interfaces@[i].name@ == x,
{
    lemma_docs_candidates_props(lk, docs, 0, Seq::empty(), x);
    if candidate_names(lk, docs).contains(x) {
        let (t, i) = choose|t: int, i: int|
            0 <= t < docs.len() && 0 <= i < docs[t].interfaces@.len() && iface_match_count(
                lk,
                docs[t].interfaces@[i],
            ) >= 1 && docs[t].interfaces@[i].name@ == x;
        let names = member_names(docs[t].interfaces@[i], lk.kind);
        lemma_name_count_zero(names, lk.name, 0);
        let m = choose|m: int| 0 <= m < names.len() && names[m] == lk.name;
        assert(is_match(lk, docs, t, i, m));
    }
    if exists|d: int, i: int, m: int| is_match(lk, docs, d, i, m) && docs[d].interfaces@[i].name@
        == x {
        let (d, i, m) = choose|d: int, i: int, m: int|
            is_match(lk, docs, d, i, m) && docs[d].interfaces@[i].name@ == x;
        lemma_iface_count_ge_one(lk, docs, d, i, m);
        assert(0 <= d < docs.len() && 0 <= i < docs[d].interfaces@.len() && iface_match_count(
            lk,
            docs[d].interfaces@[i],
        ) >= 1 && docs[d].interfaces@[i].name@ == x);
    }
}

} // verus!
