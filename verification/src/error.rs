//! The library's error type.

use vstd::prelude::*;

verus! {

/// `std::io::Error`, carried through unexamined.
#[verifier::external_type_specification]
#[verifier::external_body]
pub struct ExIoError(std::io::Error);

/// `serde_json::Error`, carried through unexamined.
#[verifier::external_type_specification]
#[verifier::external_body]
pub struct ExJsonError(serde_json::Error);

/// Every way a device operation can fail.
#[derive(Debug)]
pub enum AppError {
    ToolMissing(String),
    DeviceNotFound(String),
    CommandFailed { program: String, args: Vec<String>, status: Option<i32>, stderr: String },
    Unauthorized,
    UnsupportedCapability(String),
    InvalidInput(String),
    Io(std::io::Error),
    Json(serde_json::Error),
}

pub type AppResult<T> = Result<T, AppError>;

/// `r` is the `InvalidInput` error with message `msg`.
pub open spec fn is_invalid_input<T>(r: AppResult<T>, msg: Seq<char>) -> bool {
    r matches Err(AppError::InvalidInput(m)) && m@ == msg
}

/// An `InvalidInput` error whose message is `prefix` followed by `suffix`.
pub fn invalid_input(prefix: &str, suffix: &str) -> (e: AppError)
    ensures
        e matches AppError::InvalidInput(m) && m@ == prefix@ + suffix@,
{
    let mut m = String::from_str(prefix);
    m.append(suffix);
    AppError::InvalidInput(m)
}

} // verus!
