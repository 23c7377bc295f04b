//! A userspace responder that answers ICMP echo probes with forged ICMP
//! errors, so that the host looks like a chain of routers.

pub mod config;
pub mod icmp;
pub mod ip;
pub mod ipv4;
pub mod netinet;
pub mod router;
pub mod tun;
