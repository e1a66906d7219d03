//! The answer resolver: interpreting a DNS answer set as one address and port.

use vstd::prelude::*;
use crate::addr::Ipv4;
use crate::policy::QueryType;
use crate::records::DnsAnswerSet;
use crate::records::DnsRecord;
use crate::records::RecordData;
use crate::records::ResolveError;

verus! {

/// Compares two byte strings for equality.
fn bytes_eq(x: &Vec<u8>, y: &Vec<u8>) -> (r: bool)
    ensures
        r <==> x@ == y@,
{
    if x.len() != y.len() {
        return false;
    }
    let mut i: usize = 0;
    while i < x.len()
        invariant
            i <= x.len() == y.len(),
            forall|m: int| 0 <= m < i ==> x@[m] == y@[m],
        decreases x.len() - i,
    {
        if x[i] != y[i] {
            return false;
        }
        i = i + 1;
    }
    assert(x@ =~= y@);
    true
}

/// The first record in `records` whose name is `target`, if any.
pub open spec fn spec_find_named(records: Seq<DnsRecord>, target: Seq<u8>) -> Option<DnsRecord>
    decreases records.len(),
{
    if records.len() == 0 {
        None
    } else if records[0].name@ == target {
        Some(records[0])
    } else {
        spec_find_named(records.drop_first(), target)
    }
}

/// What looking up `target` among `records` yields: the address of the first
/// record named `target` together with `port`; `MissingCorrelatedRecord` when
/// no record is named `target`; `UnexpectedRecordType` when the first such
/// record does not carry A data.
pub open spec fn spec_lookup_a(records: Seq<DnsRecord>, target: Seq<u8>, port: Option<u16>) -> Result<
    (Ipv4, Option<u16>),
    ResolveError,
> {
    match spec_find_named(records, target) {
        Option::None => Result::Err(ResolveError::MissingCorrelatedRecord),
        Option::Some(rec) => match rec.data {
            RecordData::A(ip) => Result::Ok((ip, port)),
            _ => Result::Err(ResolveError::UnexpectedRecordType),
        },
    }
}

/// Finds the first record whose name is `target`, returning its index.
fn find_named(records: &Vec<DnsRecord>, target: &Vec<u8>) -> (r: Option<usize>)
    ensures
        match r {
            Some(idx) => idx < records@.len() && spec_find_named(records@, target@) == Some(
                records@[idx as int],
            ),
            None => spec_find_named(records@, target@) is None,
        },
{
    let mut i: usize = 0;
    assert(records@.skip(0) =~= records@);
    while i < records.len()
        invariant
            i <= records.len(),
            spec_find_named(records@, target@) == spec_find_named(
                records@.skip(i as int),
                target@,
            ),
        decreases records.len() - i,
    {
        let ghost rest = records@.skip(i as int);
        assert(rest[0] == records@[i as int]);
        if bytes_eq(&records[i].name, target) {
            return Some(i);
        }
        assert(rest.drop_first() =~= records@.skip(i + 1));
        i = i + 1;
    }
    assert(records@.skip(i as int) =~= Seq::<DnsRecord>::empty());
    None
}

/// Looks up `target` among `records` and pairs the found address with `port`.
fn lookup_a(records: &Vec<DnsRecord>, target: &Vec<u8>, port: Option<u16>) -> (r: Result<
    (Ipv4, Option<u16>),
    ResolveError,
>)
    ensures
        r == spec_lookup_a(records@, target@, port),
{
    match find_named(records, target) {
        Some(idx) => match records[idx].data {
            RecordData::A(ip) => Ok((ip, port)),
            _ => Err(ResolveError::UnexpectedRecordType),
        },
        None => Err(ResolveError::MissingCorrelatedRecord),
    }
}

/// What resolving an answer set yields once the selection among answers is
/// fixed to `choice`.
///
/// An empty answer section fails with `EmptyAnswer` whatever the queried
/// record type. For an SRV query the chosen answer must carry SRV data, and
/// its target is looked up among the additional records, the SRV port
/// overriding the requested one. For an A query the queried name is looked
/// up among the answers themselves, keeping the requested port.
pub open spec fn spec_resolve(
    set: DnsAnswerSet,
    qtype: QueryType,
    qname: Seq<u8>,
    req_port: Option<u16>,
    choice: int,
) -> Result<(Ipv4, Option<u16>), ResolveError> {
    if set.answers@.len() == 0 {
        Result::Err(ResolveError::EmptyAnswer)
    } else if qtype is Srv {
        match set.answers@[choice].data {
            RecordData::Srv { port, target, .. } => spec_lookup_a(
                set.additionals@,
                target@,
                Some(port),
            ),
            _ => Result::Err(ResolveError::UnexpectedRecordType),
        }
    } else {
        spec_lookup_a(set.answers@, qname, req_port)
    }
}

/// Resolves an answer set with the selection among answers fixed to `choice`:
/// the outcome is exactly `spec_resolve` of the inputs, so equal inputs give
/// equal outcomes.
pub fn resolve_with_choice(
    set: &DnsAnswerSet,
    qtype: QueryType,
    qname: &Vec<u8>,
    req_port: Option<u16>,
    choice: usize,
) -> (r: Result<(Ipv4, Option<u16>), ResolveError>)
    requires
        set.answers@.len() == 0 || choice < set.answers@.len(),
    ensures
        r == spec_resolve(*set, qtype, qname@, req_port, choice as int),
        set.answers@.len() == 0 ==> r == Result::<(Ipv4, Option<u16>), ResolveError>::Err(
            ResolveError::EmptyAnswer,
        ),
{
    if set.answers.len() == 0 {
        return Err(ResolveError::EmptyAnswer);
    }
    match qtype {
        QueryType::Srv => {
            match &set.answers[choice].data {
                RecordData::Srv { port, target, .. } => lookup_a(
                    &set.additionals,
                    target,
                    Some(*port),
                ),
                _ => Err(ResolveError::UnexpectedRecordType),
            }
        },
        QueryType::A => lookup_a(&set.answers, qname, req_port),
    }
}

/// Relies on rand::random_range: a uniformly random value in the given
/// range, which panics only on an empty range.
#[verifier::external_body]
fn random_index(n: usize) -> (r: usize)
    requires
        n > 0,
    ensures
        r < n,
{
    rand::random_range(0..n)
}

/// Resolves an answer set, selecting among the answers uniformly at random.
///
/// Priority and weight of SRV answers are intentionally ignored: every
/// answer is equally likely to be chosen. The outcome is `spec_resolve` of
/// the inputs under some valid choice; for an A query the choice is
/// irrelevant and the outcome is deterministic.
pub fn resolve_answers(
    set: &DnsAnswerSet,
    qtype: QueryType,
    qname: &Vec<u8>,
    req_port: Option<u16>,
) -> (r: Result<(Ipv4, Option<u16>), ResolveError>)
    ensures
        set.answers@.len() > 0 ==> exists|choice: int|
            0 <= choice < set.answers@.len() && r == spec_resolve(
                *set,
                qtype,
                qname@,
                req_port,
                choice,
            ),
        set.answers@.len() == 0 ==> r == Result::<(Ipv4, Option<u16>), ResolveError>::Err(
            ResolveError::EmptyAnswer,
        ),
        qtype is A ==> r == spec_resolve(*set, qtype, qname@, req_port, 0),
{
    let choice: usize = if set.answers.len() > 0 {
        random_index(set.answers.len())
    } else {
        0
    };
    let r = resolve_with_choice(set, qtype, qname, req_port, choice);
    assert(r == spec_resolve(*set, qtype, qname@, req_port, choice as int));
    r
}

/// Law: resolution is idempotent. Resolving the same immutable answer set
/// twice, holding the random choice fixed, yields the identical outcome.
pub proof fn lemma_resolution_idempotent(
    set: DnsAnswerSet,
    qtype: QueryType,
    qname: Seq<u8>,
    req_port: Option<u16>,
    choice: int,
    r1: Result<(Ipv4, Option<u16>), ResolveError>,
    r2: Result<(Ipv4, Option<u16>), ResolveError>,
)
    requires
        r1 == spec_resolve(set, qtype, qname, req_port, choice),
        r2 == spec_resolve(set, qtype, qname, req_port, choice),
    ensures
        r1 == r2,
{
}

} // verus!
