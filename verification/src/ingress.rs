//! The worker's network ingress, without its sockets: how a connection is
//! classified, where each message goes, and in which order replies leave.

pub mod connection;
pub mod frames;
pub mod order;
pub mod protocol;
