//! The DNS answer model: records, answer sets, and resolution failures.

use vstd::prelude::*;
use crate::addr::Ipv4;

verus! {

/// The data carried by one DNS record, as far as resolution reads it.
#[derive(Debug, Clone)]
pub enum RecordData {
    /// An address record: an IPv4 address.
    A(Ipv4),
    /// A service record: priority and weight are carried but intentionally
    /// ignored by selection; the target name and port drive resolution.
    Srv { priority: u16, weight: u16, port: u16, target: Vec<u8> },
    /// Any other record type; resolution treats it as non-conforming.
    Other,
}

/// One DNS record: the name it answers for, and its data.
#[derive(Debug, Clone)]
pub struct DnsRecord {
    /// The owning name of the record.
    pub name: Vec<u8>,
    /// The record's data.
    pub data: RecordData,
}

/// The sections of a DNS response that resolution reads.
#[derive(Debug, Clone)]
pub struct DnsAnswerSet {
    /// The answer section, in response order.
    pub answers: Vec<DnsRecord>,
    /// The additional-records section, in response order.
    pub additionals: Vec<DnsRecord>,
}

/// Why a resolution attempt failed. Every failure is terminal for the
/// connection attempt; there is no retry or fallback.
#[derive(Debug, Clone, Copy, PartialEq, Eq, Structural)]
pub enum ResolveError {
    /// The DNS transport failed or the query timed out.
    QueryFailed,
    /// The response was well formed but its answer section was empty.
    EmptyAnswer,
    /// A record expected to carry SRV or A data carried something else.
    UnexpectedRecordType,
    /// No A record matched the SRV target (or the queried name).
    MissingCorrelatedRecord,
}

} // verus!
