//! The endpoint assembler: one resolved address, port and scheme.

use vstd::prelude::*;
use crate::addr::format_ipv4;
use crate::addr::ipv4_text;
use crate::addr::Ipv4;
use crate::bytes::copy_bytes;

verus! {

/// The final connection target handed to the underlying connector.
#[derive(Debug, Clone, PartialEq, Eq)]
pub struct ResolvedEndpoint {
    /// The scheme of the endpoint, e.g. `http` or `https`.
    pub scheme: Vec<u8>,
    /// The host of the endpoint: the dotted decimal text of the resolved
    /// address.
    pub host: Vec<u8>,
    /// The port of the endpoint, kept only when one was determined.
    pub port: Option<u16>,
}

/// Assembles the final endpoint from the resolved address and port and the
/// request's scheme. A configured forced scheme overrides the request's
/// scheme unconditionally.
pub fn assemble(
    scheme: &Vec<u8>,
    ip: Ipv4,
    port: Option<u16>,
    forced_scheme: &Option<Vec<u8>>,
) -> (r: ResolvedEndpoint)
    ensures
        r.scheme@ == (match *forced_scheme {
            Some(f) => f@,
            None => scheme@,
        }),
        r.host@ == ipv4_text(ip),
        r.port == port,
{
    let s = match forced_scheme {
        Some(f) => copy_bytes(f),
        None => copy_bytes(scheme),
    };
    ResolvedEndpoint { scheme: s, host: format_ipv4(ip), port }
}

} // verus!
