//! DNS-driven endpoint resolution for a connector stack.
//!
//! The library decides, from a requested scheme/host/port and a configured
//! resolution policy, whether a DNS lookup is needed, which record type to
//! query, how to interpret the returned answer set (including matching SRV
//! targets against additional records), and what final endpoint to hand to
//! the underlying connector.

pub mod addr;
mod bytes;
pub mod connector;
pub mod endpoint;
pub mod policy;
pub mod records;
pub mod resolver;

pub use addr::HostClass;
pub use addr::Ipv4;
pub use connector::ConnectPlan;
pub use endpoint::ResolvedEndpoint;
pub use policy::QueryType;
pub use policy::RecordType;
pub use records::DnsAnswerSet;
pub use records::DnsRecord;
pub use records::RecordData;
pub use records::ResolveError;
