//! Challenge-response authentication over SSH keys: one-time binding of a
//! user to an Ed25519 public key, login by detached signature under one of
//! two anti-replay policies, and a replayer for captured traffic.

pub mod errors;
pub mod guard;
pub mod harness;
pub mod identity;
pub mod keys;
pub mod service;
