use vstd::prelude::*;

use crate::addr::{addr_of, Address, Family};
use crate::bytes::{bytes_ends_with, bytes_range, clone_bytes, ends_with};
use crate::store::{domain_named, wf, DomainV, Store};

verus! {

/// Time-to-live, in seconds, of every synthesized answer record.
pub const ANSWER_TTL: u32 = 300;

/// The question types this zone answers with data; everything else is
/// "no such data here", not an error.
#[derive(Clone, Copy, Debug, PartialEq, Eq, Structural)]
pub enum RecordKind {
    A,
    Aaaa,
    Other,
}

/// The response codes of the refusal paths.
#[derive(Clone, Copy, Debug, PartialEq, Eq, Structural)]
pub enum DnsCode {
    FormatError,
    NotImplemented,
    Refused,
}

/// One decoded inbound message, as the transport hands it over: not a
/// standard query at all, a query whose question could not be parsed, or
/// a well-formed question (name fully qualified and dot-terminated, as
/// the wire form prints).
pub enum DnsMessage {
    NonQuery,
    Malformed,
    Question { name: Vec<u8>, qtype: RecordKind },
}

/// Mathematical image of a decoded message.
pub enum DnsMessageV {
    NonQuery,
    Malformed,
    Question { name: Seq<u8>, qtype: RecordKind },
}

impl View for DnsMessage {
    type V = DnsMessageV;

    open spec fn view(&self) -> DnsMessageV {
        match self {
            DnsMessage::NonQuery => DnsMessageV::NonQuery,
            DnsMessage::Malformed => DnsMessageV::Malformed,
            DnsMessage::Question { name, qtype } => DnsMessageV::Question {
                name: name@,
                qtype: *qtype,
            },
        }
    }
}

/// One outbound response: a refusal with its code, a single
/// authoritative answer record, or an authoritative success with no
/// records.
#[derive(Debug, PartialEq, Eq)]
pub enum DnsAnswer {
    Failure(DnsCode),
    Answer { name: Vec<u8>, ttl: u32, addr: Address },
    Empty,
}

/// Mathematical image of a response.
pub enum DnsAnswerV {
    Failure(DnsCode),
    Answer { name: Seq<u8>, ttl: u32, addr: Address },
    Empty,
}

impl View for DnsAnswer {
    type V = DnsAnswerV;

    open spec fn view(&self) -> DnsAnswerV {
        match self {
            DnsAnswer::Failure(c) => DnsAnswerV::Failure(*c),
            DnsAnswer::Answer { name, ttl, addr } => DnsAnswerV::Answer {
                name: name@,
                ttl: *ttl,
                addr: *addr,
            },
            DnsAnswer::Empty => DnsAnswerV::Empty,
        }
    }
}

/// The responder's configuration: the one zone it is authoritative for
/// (fully qualified, dot-terminated) and the operator's default address
/// per family, if configured.
pub struct Resolver {
    pub zone: Vec<u8>,
    pub default_v4: Option<u32>,
    pub default_v6: Option<u128>,
}

/// Mathematical image of the configuration.
pub struct ResolverV {
    pub zone: Seq<u8>,
    pub default_v4: Option<u32>,
    pub default_v6: Option<u128>,
}

impl View for Resolver {
    type V = ResolverV;

    open spec fn view(&self) -> ResolverV {
        ResolverV { zone: self.zone@, default_v4: self.default_v4, default_v6: self.default_v6 }
    }
}

impl Resolver {
    pub fn new(zone: Vec<u8>, default_v4: Option<u32>, default_v6: Option<u128>) -> (r: Resolver)
        ensures
            r@.zone == zone@,
            r@.default_v4 == default_v4,
            r@.default_v6 == default_v6,
    {
        Resolver { zone, default_v4, default_v6 }
    }
}

/// The operator's default address for one family.
pub open spec fn default_of(rv: ResolverV, family: Family) -> Option<Address> {
    addr_of(rv.default_v4, rv.default_v6, family)
}

/// The family a question type resolves in, if any.
pub open spec fn family_of_kind(k: RecordKind) -> Option<Family> {
    match k {
        RecordKind::A => Some(Family::V4),
        RecordKind::Aaaa => Some(Family::V6),
        RecordKind::Other => None,
    }
}

/// The candidate subdomain label of an in-zone name: what is left after
/// the zone suffix is stripped, minus the last byte of that remainder
/// (the dot separating label and zone). A remainder of at most one byte
/// means the zone apex: no label to look up.
pub open spec fn label_of(name: Seq<u8>, zone: Seq<u8>) -> Option<Seq<u8>> {
    let rem = name.take(name.len() - zone.len());
    if rem.len() > 1 {
        Some(rem.take(rem.len() - 1))
    } else {
        None
    }
}

/// The stored binding's address for an in-zone question: the label's
/// binding, read in the requested family. Apex questions and unknown
/// labels have none.
pub open spec fn binding_addr(
    domains: Seq<DomainV>,
    name: Seq<u8>,
    zone: Seq<u8>,
    family: Family,
) -> Option<Address> {
    match label_of(name, zone) {
        Some(l) => match domain_named(domains, l) {
            Some(d) => d.addr(family),
            None => None,
        },
        None => None,
    }
}

/// The answer once the binding's columns are in hand: the binding's
/// address for the family if set, else the configured default, else a
/// successful empty response.
pub open spec fn answer_spec(
    rv: ResolverV,
    name: Seq<u8>,
    family: Family,
    binding: Option<(Option<u32>, Option<u128>)>,
) -> DnsAnswerV {
    let from_binding = match binding {
        Some(c) => addr_of(c.0, c.1, family),
        None => None,
    };
    let resolved = if from_binding is Some {
        from_binding
    } else {
        default_of(rv, family)
    };
    match resolved {
        Some(a) => DnsAnswerV::Answer { name, ttl: ANSWER_TTL, addr: a },
        None => DnsAnswerV::Empty,
    }
}

/// The address columns behind an optional binding.
pub open spec fn domain_cols(od: Option<DomainV>) -> Option<(Option<u32>, Option<u128>)> {
    match od {
        Some(d) => Some((d.ipv4, d.ipv6)),
        None => None,
    }
}

/// The whole responder, one query at a time: classify the message, match
/// the zone, dispatch on the record type, and resolve against the stored
/// bindings with the default as fallback.
pub open spec fn resolve_spec(rv: ResolverV, domains: Seq<DomainV>, m: DnsMessageV) -> DnsAnswerV {
    match m {
        DnsMessageV::NonQuery => DnsAnswerV::Failure(DnsCode::NotImplemented),
        DnsMessageV::Malformed => DnsAnswerV::Failure(DnsCode::FormatError),
        DnsMessageV::Question { name, qtype } => {
            if !ends_with(name, rv.zone) {
                DnsAnswerV::Failure(DnsCode::Refused)
            } else {
                match family_of_kind(qtype) {
                    None => DnsAnswerV::Empty,
                    Some(family) => answer_spec(
                        rv,
                        name,
                        family,
                        domain_cols(
                            match label_of(name, rv.zone) {
                                Some(l) => domain_named(domains, l),
                                None => None,
                            },
                        ),
                    ),
                }
            }
        },
    }
}

/// What is still to do for a query: everything except a binding lookup
/// can be answered from the message and the configuration alone.
pub enum QueryStep {
    Done(DnsAnswer),
    Lookup { family: Family, label: Vec<u8>, name: Vec<u8> },
}

/// Classify a message as far as the configuration allows: every path but
/// an in-zone address question with a label is answered outright; the
/// remaining path names the label whose binding must be fetched.
pub fn plan_query(r: &Resolver, msg: &DnsMessage) -> (p: QueryStep)
    ensures
        p matches QueryStep::Done(a) ==> forall|doms: Seq<DomainV>| #[trigger] resolve_spec(
            r@,
            doms,
            msg@,
        ) == a@,
        p matches QueryStep::Lookup { family, label, name } ==> ({
            &&& msg@ matches DnsMessageV::Question { name: qn, qtype } && ({
                &&& name@ == qn
                &&& ends_with(qn, r@.zone)
                &&& family_of_kind(qtype) == Some(family)
                &&& label_of(qn, r@.zone) == Some(label@)
                &&& forall|doms: Seq<DomainV>| #[trigger] resolve_spec(r@, doms, msg@)
                    == answer_spec(r@, qn, family, domain_cols(domain_named(doms, label@)))
            })
        }),
{
    match msg {
        DnsMessage::NonQuery => QueryStep::Done(DnsAnswer::Failure(DnsCode::NotImplemented)),
        DnsMessage::Malformed => QueryStep::Done(DnsAnswer::Failure(DnsCode::FormatError)),
        DnsMessage::Question { name, qtype } => {
            if !bytes_ends_with(name, &r.zone) {
                return QueryStep::Done(DnsAnswer::Failure(DnsCode::Refused));
            }
            let family = match qtype {
                RecordKind::A => Family::V4,
                RecordKind::Aaaa => Family::V6,
                RecordKind::Other => {
                    return QueryStep::Done(DnsAnswer::Empty);
                },
            };
            let rem_len = name.len() - r.zone.len();
            if rem_len > 1 {
                let label = bytes_range(name, 0, rem_len - 1);
                proof {
                    assert(name@.take(rem_len as int) =~= name@.subrange(0, rem_len as int));
                    assert(name@.take(rem_len as int).take(rem_len - 1) =~= name@.subrange(
                        0,
                        rem_len - 1,
                    ));
                }
                QueryStep::Lookup { family, label, name: clone_bytes(name) }
            } else {
                QueryStep::Done(answer_from(r, clone_bytes(name), family, None))
            }
        },
    }
}

/// Build the response from a question's resolved parts: the binding's
/// columns as fetched (or nothing, for apex and unknown labels), the
/// default as fallback. Every answer record carries the queried name,
/// the fixed time-to-live, and is flagged authoritative by construction.
pub fn answer_from(
    r: &Resolver,
    name: Vec<u8>,
    family: Family,
    binding: Option<(Option<u32>, Option<u128>)>,
) -> (a: DnsAnswer)
    ensures
        a@ == answer_spec(r@, name@, family, binding),
{
    let from_binding: Option<Address> = match binding {
        Some(c) => match family {
            Family::V4 => match c.0 {
                Some(b) => Some(Address::V4(b)),
                None => None,
            },
            Family::V6 => match c.1 {
                Some(b) => Some(Address::V6(b)),
                None => None,
            },
        },
        None => None,
    };
    let resolved: Option<Address> = match from_binding {
        Some(a) => Some(a),
        None => match family {
            Family::V4 => match r.default_v4 {
                Some(b) => Some(Address::V4(b)),
                None => None,
            },
            Family::V6 => match r.default_v6 {
                Some(b) => Some(Address::V6(b)),
                None => None,
            },
        },
    };
    match resolved {
        Some(addr) => DnsAnswer::Answer { name, ttl: ANSWER_TTL, addr },
        None => DnsAnswer::Empty,
    }
}

/// Answer one query against the stored bindings: the authoritative
/// responder end to end.
pub fn resolve(r: &Resolver, store: &Store, msg: &DnsMessage) -> (a: DnsAnswer)
    requires
        wf(store@),
    ensures
        a@ == resolve_spec(r@, store@.domains, msg@),
        msg@ matches DnsMessageV::Question { name, qtype } ==> ({
            // An out-of-zone name is refused, whatever the record type.
            &&& !ends_with(name, r@.zone) ==> a@ == DnsAnswerV::Failure(DnsCode::Refused)
            // For in-zone address questions the stored binding decides:
            // no address for the family falls back to the configured
            // default (or a successful empty answer without one), and a
            // stored address overrides the default.
            &&& ends_with(name, r@.zone) ==> (family_of_kind(qtype) matches Some(family) ==> ({
                &&& binding_addr(store@.domains, name, r@.zone, family) is None ==> a@ == (match
                    default_of(r@, family) {
                    Some(ad) => DnsAnswerV::Answer { name, ttl: ANSWER_TTL, addr: ad },
                    None => DnsAnswerV::Empty,
                })
                &&& binding_addr(store@.domains, name, r@.zone, family) matches Some(ad) ==> a@
                    == (DnsAnswerV::Answer { name, ttl: ANSWER_TTL, addr: ad })
            }))
        }),
{
    match plan_query(r, msg) {
        QueryStep::Done(a) => a,
        QueryStep::Lookup { family, label, name } => {
            let binding = store.lookup_domain(&label);
            answer_from(r, name, family, binding)
        },
    }
}

} // verus!
