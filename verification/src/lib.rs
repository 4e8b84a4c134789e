//! Core of a DAG-based BFT consensus node.
//!
//! `consensus` holds the virtual consensus state: the DAG that is derived
//! from the virtual metadata of certificates, the rule by which a certificate
//! is admitted, the cleanup after a commit, and the election of the
//! steady-state and fallback leaders of a round.
//!
//! `ingress` holds the decisions of the worker's network ingress as a state
//! machine without sockets: how a connection is classified by its banner,
//! which backend channel takes a control message, and the order in which
//! replies leave a connection.
//!
//! Every function is verified against its contract. The laws that relate
//! several functions are public proof functions: see `consensus::laws` and
//! `ingress::order`.

pub mod consensus;
pub mod identity;
pub mod ingress;
pub mod rounds;
