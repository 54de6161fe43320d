//! Single-hop redirect probing: response parsing and failure mapping.

pub mod response;
pub mod transport;
pub mod resolver;
pub mod projection;
pub mod pinning;
