//! Verified core of the Appmon device console: device identifiers, parsers for
//! the device-listing output of `adb`, `emulator` and `simctl`, input
//! validation, shell quoting and the small wire formats used by the server.

use vstd::prelude::*;

pub mod android_grpc;
pub mod appmo;
pub mod bootstrap;
pub mod commands;
pub mod config;
pub mod control;
pub mod devices;
pub mod error;
pub mod routes;
pub mod runner;
pub mod stream;
pub mod table;
pub mod text;
pub mod validation;

verus! {

} // verus!
