//! The resolution driver: from a connection request to a query plan, and
//! from a returned answer set to the final endpoint.

use vstd::prelude::*;
use crate::addr::classify;
use crate::addr::Ipv4;
use crate::addr::ipv4_text;
use crate::addr::is_ipv4_text;
use crate::addr::HostClass;
use crate::addr::DOT;
use crate::bytes::copy_bytes;
use crate::endpoint::assemble;
use crate::endpoint::ResolvedEndpoint;
use crate::policy::decide_query_type;
use crate::policy::spec_decide;
use crate::policy::QueryType;
use crate::policy::RecordType;
use crate::records::DnsAnswerSet;
use crate::records::ResolveError;
use crate::resolver::resolve_answers;
use crate::resolver::resolve_with_choice;
use crate::resolver::spec_resolve;

verus! {

/// How long one DNS query may take before it surfaces as `QueryFailed`, in
/// milliseconds. A query is single-shot: no retry, no fallback resolver.
pub const QUERY_TIMEOUT_MS: u64 = 30000;

/// The fully-qualified form of a host name: the host with a trailing root
/// label appended when absent.
pub open spec fn spec_fqdn(s: Seq<u8>) -> Seq<u8> {
    if s.len() > 0 && s.last() == DOT {
        s
    } else {
        s.push(DOT)
    }
}

/// Builds the fully-qualified query name: appends a trailing `'.'` to the
/// host unless it already ends with one.
pub fn to_fqdn(host: &Vec<u8>) -> (r: Vec<u8>)
    ensures
        r@ == spec_fqdn(host@),
{
    let mut out = copy_bytes(host);
    if out.len() == 0 || out[out.len() - 1] != DOT {
        out.push(DOT);
    }
    out
}

/// What a connection request requires before the delegate can be invoked.
#[derive(Debug, Clone, PartialEq, Eq)]
pub enum ConnectPlan {
    /// The host is a literal IPv4 address: hand the request to the delegate
    /// unchanged, issuing no DNS query.
    Bypass,
    /// The host is a domain name: issue one DNS query for `name` with record
    /// type `qtype`, then resolve the answers.
    Query {
        /// The fully-qualified name to query.
        name: Vec<u8>,
        /// The record type to query.
        qtype: QueryType,
    },
}

/// Decides how a connection request is served: literal IPv4 hosts bypass
/// resolution entirely; domain names are queried under the configured
/// policy, with the query name fully qualified.
pub fn plan_connection(host: &Vec<u8>, port: Option<u16>, policy: &RecordType) -> (r: ConnectPlan)
    ensures
        r is Bypass <==> is_ipv4_text(host@),
        r matches ConnectPlan::Query { name, qtype } ==> name@ == spec_fqdn(host@) && qtype
            == spec_decide(*policy, port),
{
    match classify(host) {
        HostClass::Literal(_) => ConnectPlan::Bypass,
        HostClass::DomainName => ConnectPlan::Query {
            name: to_fqdn(host),
            qtype: decide_query_type(policy, port),
        },
    }
}

/// Whether the assembled outcome `r` reflects the resolver outcome `res`
/// under the request's scheme and the configured forced scheme: failures are
/// passed through unchanged, and a resolved address/port pair becomes an
/// endpoint with that address as host, that port, and the effective scheme.
pub open spec fn endpoint_matches(
    r: Result<ResolvedEndpoint, ResolveError>,
    res: Result<(Ipv4, Option<u16>), ResolveError>,
    scheme: Seq<u8>,
    forced_scheme: Option<Vec<u8>>,
) -> bool {
    match res {
        Result::Ok((ip, port)) => {
            &&& r matches Result::Ok(ep)
            &&& ep.scheme@ == (match forced_scheme {
                Some(f) => f@,
                None => scheme,
            })
            &&& ep.host@ == ipv4_text(ip)
            &&& ep.port == port
        },
        Result::Err(e) => r matches Result::Err(e2) && e2 == e,
    }
}

/// Resolves a returned answer set into the final endpoint with the selection
/// among answers fixed to `choice`: the outcome reflects exactly
/// `spec_resolve` of the inputs.
pub fn complete_resolution_with_choice(
    set: &DnsAnswerSet,
    qtype: QueryType,
    qname: &Vec<u8>,
    req_port: Option<u16>,
    scheme: &Vec<u8>,
    forced_scheme: &Option<Vec<u8>>,
    choice: usize,
) -> (r: Result<ResolvedEndpoint, ResolveError>)
    requires
        set.answers@.len() == 0 || choice < set.answers@.len(),
    ensures
        endpoint_matches(
            r,
            spec_resolve(*set, qtype, qname@, req_port, choice as int),
            scheme@,
            *forced_scheme,
        ),
{
    match resolve_with_choice(set, qtype, qname, req_port, choice) {
        Ok((ip, port)) => Ok(assemble(scheme, ip, port, forced_scheme)),
        Err(e) => Err(e),
    }
}

/// Resolves a returned answer set into the final endpoint, selecting among
/// the answers uniformly at random.
pub fn complete_resolution(
    set: &DnsAnswerSet,
    qtype: QueryType,
    qname: &Vec<u8>,
    req_port: Option<u16>,
    scheme: &Vec<u8>,
    forced_scheme: &Option<Vec<u8>>,
) -> (r: Result<ResolvedEndpoint, ResolveError>)
    ensures
        set.answers@.len() > 0 ==> exists|choice: int|
            0 <= choice < set.answers@.len() && endpoint_matches(
                r,
                spec_resolve(*set, qtype, qname@, req_port, choice),
                scheme@,
                *forced_scheme,
            ),
        set.answers@.len() == 0 ==> r == Result::<ResolvedEndpoint, ResolveError>::Err(
            ResolveError::EmptyAnswer,
        ),
{
    match resolve_answers(set, qtype, qname, req_port) {
        Ok((ip, port)) => {
            let ep = assemble(scheme, ip, port, forced_scheme);
            proof {
                let choice = choose|choice: int|
                    0 <= choice < set.answers@.len() && Result::<
                        (Ipv4, Option<u16>),
                        ResolveError,
                    >::Ok((ip, port)) == spec_resolve(*set, qtype, qname@, req_port, choice);
                assert(endpoint_matches(
                    Result::Ok(ep),
                    spec_resolve(*set, qtype, qname@, req_port, choice),
                    scheme@,
                    *forced_scheme,
                ));
            }
            Ok(ep)
        },
        Err(e) => Err(e),
    }
}

/// Law: resolution is idempotent through to the assembled endpoint. Two
/// outcomes that reflect the same resolver outcome of one immutable answer
/// set, under the same scheme and forced scheme, are the same endpoint (or
/// the same failure).
pub proof fn lemma_endpoint_idempotent(
    r1: Result<ResolvedEndpoint, ResolveError>,
    r2: Result<ResolvedEndpoint, ResolveError>,
    res: Result<(Ipv4, Option<u16>), ResolveError>,
    scheme: Seq<u8>,
    forced_scheme: Option<Vec<u8>>,
)
    requires
        endpoint_matches(r1, res, scheme, forced_scheme),
        endpoint_matches(r2, res, scheme, forced_scheme),
    ensures
        r1 matches Result::Ok(e1) ==> r2 matches Result::Ok(e2) && e1.scheme@ == e2.scheme@
            && e1.host@ == e2.host@ && e1.port == e2.port,
        r1 is Err ==> r1 == r2,
{
}

} // verus!
