//! Verified core of a local-network mapping tool.
//!
//! The library holds the engine of the tool: a topology graph of discovered
//! hosts, an ICMP echo prober, a host-discovery scanner, a TCP port scanner
//! with banner grabbing and fuzzing, a reverse-DNS resolver and a status
//! reporter.  All decision logic is verified; network transports run outside
//! the library and feed their observations back in as plain values.

pub mod discovery;
pub mod graph_store;
pub mod icmp;
pub mod net;
pub mod portscan;
pub mod resolver;
pub mod status;
pub mod textfmt;
pub mod topology;
pub mod ui_support;

pub use net::IpAddress;
