//! The decisions behind the server's configuration: which UDP address to
//! listen on, which gRPC endpoint to use, and the defaults.

use vstd::prelude::*;
use vstd::string::*;

use crate::error::{is_invalid_input, AppError, AppResult};

use crate::stream::{lower_code, lower_eq};
use crate::text::chars_of;

verus! {

/// The web server address used when none is configured.
pub const DEFAULT_BIND: &'static str = "0.0.0.0:8080";

/// `xcrun` when `IOS_XCRUN_PATH` is not set.
pub const DEFAULT_XCRUN_PATH: &'static str = "/usr/bin/xcrun";

/// `osascript` when no path is configured.
pub const DEFAULT_OSASCRIPT_PATH: &'static str = "/usr/bin/osascript";

/// `str::eq_ignore_ascii_case`.
pub open spec fn eq_ignore_case(a: Seq<char>, b: Seq<char>) -> bool {
    &&& a.len() == b.len()
    &&& forall|i: int| 0 <= i < a.len() ==> lower_code(#[trigger] a[i]) == lower_code(b[i])
}

pub fn eq_ignore_ascii_case(a: &str, b: &str) -> (r: bool)
    ensures
        r == eq_ignore_case(a@, b@),
{
    let x = chars_of(a);
    let y = chars_of(b);
    if x.len() != y.len() {
        return false;
    }
    let mut i: usize = 0;
    while i < x.len()
        invariant
            x@ == a@,
            y@ == b@,
            x@.len() == y@.len(),
            i <= x@.len(),
            forall|k: int| 0 <= k < i ==> lower_code(#[trigger] x@[k]) == lower_code(y@[k]),
        decreases x@.len() - i,
    {
        let c = x[i];
        let d = y[i];
        let lc = if 'A' <= c && c <= 'Z' {
            c as u32 + 32
        } else {
            c as u32
        };
        let ld = if 'A' <= d && d <= 'Z' {
            d as u32 + 32
        } else {
            d as u32
        };
        if lc != ld {
            return false;
        }
        i = i + 1;
    }
    true
}

/// Where UDP control listens.
#[derive(Debug, PartialEq, Eq)]
pub enum UdpBindChoice {
    /// UDP control is switched off (`off` or `false`).
    Disabled,
    /// The configured address, still to be parsed.
    Address(String),
    /// The web server's address with the next port.
    NextPort,
}

/// The UDP setting: `off` or `false` (any ASCII case) disable it, another value
/// is the address, and no value means the port after the web server's.
pub fn udp_bind_choice(value: Option<String>) -> (r: UdpBindChoice)
    ensures
        match value {
            None => r == UdpBindChoice::NextPort,
            Some(v) => if eq_ignore_case(v@, "off"@) || eq_ignore_case(v@, "false"@) {
                r == UdpBindChoice::Disabled
            } else {
                r == UdpBindChoice::Address(v)
            },
        },
{
    match value {
        None => UdpBindChoice::NextPort,
        Some(v) => {
            if eq_ignore_ascii_case(v.as_str(), "off") || eq_ignore_ascii_case(v.as_str(), "false") {
                UdpBindChoice::Disabled
            } else {
                UdpBindChoice::Address(v)
            }
        },
    }
}

/// The port after `port`, or `port` itself when it is the last one.
pub fn next_port(port: u16) -> (r: u16)
    ensures
        port < u16::MAX ==> r == port + 1,
        port == u16::MAX ==> r == port,
{
    if port < u16::MAX {
        port + 1
    } else {
        port
    }
}

/// The Android emulator gRPC endpoint: the configured value unless it is
/// empty or `off` (any ASCII case).
pub fn grpc_endpoint_setting(value: Option<String>) -> (r: Option<String>)
    ensures
        match value {
            Some(v) => if v@.len() == 0 || eq_ignore_case(v@, "off"@) {
                r is None
            } else {
                r == Some(v)
            },
            None => r is None,
        },
{
    match value {
        Some(v) => {
            if v.as_str().is_empty() || eq_ignore_ascii_case(v.as_str(), "off") {
                None
            } else {
                Some(v)
            }
        },
        None => None,
    }
}

/// The web server's address from the parse of its setting: the address, or
/// the refusal when the setting is not `host:port`.
pub fn checked_bind<A>(parsed: Option<A>) -> (r: AppResult<A>)
    ensures
        match parsed {
            Some(a) => r == Ok::<A, AppError>(a),
            None => is_invalid_input(r, "APPMON_BIND must be host:port"@),
        },
{
    match parsed {
        Some(a) => Ok(a),
        None => Err(AppError::InvalidInput(String::from_str("APPMON_BIND must be host:port"))),
    }
}

/// The UDP control address from the parse of a configured address: the
/// address, or the refusal naming what the setting may be.
pub fn checked_udp_bind<A>(parsed: Option<A>) -> (r: AppResult<A>)
    ensures
        match parsed {
            Some(a) => r == Ok::<A, AppError>(a),
            None => is_invalid_input(r, "APPMON_UDP_BIND must be host:port, off, or false"@),
        },
{
    match parsed {
        Some(a) => Ok(a),
        None => Err(
            AppError::InvalidInput(String::from_str("APPMON_UDP_BIND must be host:port, off, or false")),
        ),
    }
}

} // verus!
