//! The server side: request accounting, load replies and the ring election.
pub mod election;
pub mod receiver;
pub mod ring;
