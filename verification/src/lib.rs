//! Cage: the verified core of an age encryption automation toolkit.
use vstd::prelude::*;

pub mod adapter;
pub mod adapter_v2;
pub mod age_engine;

pub mod audit;
pub mod buff;
pub mod chunker;
pub mod cli;
pub mod clock_text;
pub mod config;
pub mod crud;
pub mod crud_manager;
pub mod digest;
pub mod error;
pub mod in_place;
pub mod keygen;
pub mod lifecycle;
pub mod operations;
pub mod order;
pub mod passphrase;
pub mod paths;
pub mod progress;
pub mod pty;
pub mod requests;
pub mod security;
pub mod text;
pub mod tty_automation;

verus! {

/// The library's version.
pub const VERSION: &'static str = "0.1.0";

/// The security clearance of the library.
pub const SECURITY_LEVEL: &'static str = "FORTRESS_CLEARED";

/// The threat the library eliminates.
pub const THREAT_STATUS: &'static str = "T2.1_ELIMINATED";

} // verus!
