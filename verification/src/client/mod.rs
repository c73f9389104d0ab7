//! The client side: server selection by load, request bookkeeping and
//! statistics, and the acknowledging receiver.
pub mod receiver;
pub mod sender;
