//! Verified core of a small UDP request/acknowledgement system with
//! least-loaded server selection and a ring election among servers.
pub mod chat;
pub mod client;
pub mod protocol;
pub mod server;
pub mod text;
