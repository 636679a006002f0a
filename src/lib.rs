//! A store of fixed-capacity byte buffers held in slots whose addresses are
//! derived from a namespace, an owner and a seed, with a write-once policy and
//! an owner-gated overwrite policy.

pub mod address;
pub mod laws;
pub mod store;
