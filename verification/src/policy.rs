//! Resolution policy: which DNS record type to query for a request.

use vstd::prelude::*;

verus! {

/// The configured lookup strategy of a connector.
#[derive(Debug, Clone, PartialEq, Eq, Structural)]
pub enum RecordType {
    /// Always look up address (A) records.
    A,
    /// Always look up service (SRV) records.
    SRV,
    /// Infer the record type from the request: SRV when the caller gave no
    /// explicit port, A otherwise.
    AUTO,
}

/// The record type of one concrete DNS query: the policy with `AUTO` already
/// resolved against the request.
#[derive(Debug, Clone, Copy, PartialEq, Eq, Structural)]
pub enum QueryType {
    /// An address (A) query.
    A,
    /// A service (SRV) query.
    Srv,
}

/// What record type a policy picks for a request with the given port.
pub open spec fn spec_decide(policy: RecordType, port: Option<u16>) -> QueryType {
    match policy {
        RecordType::A => QueryType::A,
        RecordType::SRV => QueryType::Srv,
        RecordType::AUTO => if port is None {
            QueryType::Srv
        } else {
            QueryType::A
        },
    }
}

/// Decides which record type to query: `A` and `SRV` policies are fixed;
/// `AUTO` queries SRV exactly when the caller supplied no explicit port.
pub fn decide_query_type(policy: &RecordType, port: Option<u16>) -> (r: QueryType)
    ensures
        r == spec_decide(*policy, port),
        *policy is AUTO && port is None ==> r is Srv,
        *policy is AUTO && port is Some ==> r is A,
{
    match policy {
        RecordType::A => QueryType::A,
        RecordType::SRV => QueryType::Srv,
        RecordType::AUTO => {
            if port.is_none() {
                QueryType::Srv
            } else {
                QueryType::A
            }
        },
    }
}

} // verus!
