//! The virtual consensus state: the DAG derived from the virtual metadata of
//! certificates, the per-wave authority sets, and leader election.

pub mod certificate;
pub mod committee;
pub mod dag;
pub mod election;
pub mod key_set;
pub mod laws;
pub mod round_map;
pub mod round_slice;
pub mod virtual_state;
pub mod wave_sets;
