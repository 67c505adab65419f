//! Credential store, session registry and authentication core of a
//! self-hosted synchronisation server.
use vstd::prelude::*;

pub mod account;
pub mod config;
pub mod database;
pub mod digest;
pub mod server;
pub mod session;

verus! {

} // verus!
