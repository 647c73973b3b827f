//! The outcome of running an external program.

use vstd::prelude::*;
use vstd::string::*;

use crate::error::{AppError, AppResult};
use crate::text::{chars_of, string_of, strings_view, trim, trim_chars};

verus! {

/// What a program that ran printed, and how it exited.
#[derive(Clone, Debug, PartialEq, Eq)]
pub struct CommandOutput {
    pub status: Option<i32>,
    pub stdout: Vec<u8>,
    pub stderr: String,
}

/// Runs programs as child processes of the server.
#[derive(Clone, Default)]
pub struct TokioProcessRunner;

/// The text that `String::from_utf8_lossy` makes of some bytes.
pub uninterp spec fn lossy_text(bytes: Seq<u8>) -> Seq<char>;

/// `String::from_utf8_lossy`, owned: the bytes decoded as UTF-8 with each
/// invalid sequence replaced by U+FFFD. The result is named, not spelled out.
#[verifier::external_body]
pub(crate) fn utf8_lossy(bytes: &[u8]) -> (s: String)
    ensures
        s@ == lossy_text(bytes@),
{
    String::from_utf8_lossy(bytes).to_string()
}

pub fn copy_strings(v: &[String]) -> (r: Vec<String>)
    ensures
        strings_view(r@) == strings_view(v@),
{
    let mut r: Vec<String> = Vec::new();
    let mut i: usize = 0;
    while i < v.len()
        invariant
            i <= v@.len(),
            strings_view(r@) =~= strings_view(v@.subrange(0, i as int)),
        decreases v@.len() - i,
    {
        let s = String::from_str(v[i].as_str());
        let ghost before = r@;
        r.push(s);
        assert(strings_view(r@) =~= strings_view(before).push(s@));
        assert(v@.subrange(0, i + 1) =~= v@.subrange(0, i as int).push(v@[i as int]));
        i = i + 1;
    }
    assert(v@.subrange(0, v@.len() as int) =~= v@);
    r
}

/// The result of a finished program: a success gives its output with the
/// error text trimmed; a failure gives `CommandFailed` naming the program,
/// its arguments, its exit code and the trimmed error text.
pub fn command_outcome(
    program: &str,
    args: &[String],
    status: Option<i32>,
    success: bool,
    stdout: Vec<u8>,
    stderr: &[u8],
) -> (r: AppResult<CommandOutput>)
    ensures
        success ==> (r matches Ok(out) && out.status == status && out.stdout@ == stdout@
            && out.stderr@ == trim(lossy_text(stderr@))),
        !success ==> (r matches Err(AppError::CommandFailed { program: p, args: a, status: s, stderr: e })
            && p@ == program@ && strings_view(a@) == strings_view(args@) && s == status && e@ == trim(
            lossy_text(stderr@),
        )),
{
    let text = utf8_lossy(stderr);
    let cs = chars_of(text.as_str());
    let trimmed = trim_chars(cs.as_slice());
    let stderr_text = string_of(trimmed.as_slice());
    if !success {
        return Err(
            AppError::CommandFailed {
                program: String::from_str(program),
                args: copy_strings(args),
                status,
                stderr: stderr_text,
            },
        );
    }
    Ok(CommandOutput { status, stdout, stderr: stderr_text })
}

/// The error for a program that is not installed at the given path.
pub fn tool_missing(program: &str) -> (e: AppError)
    ensures
        e matches AppError::ToolMissing(p) && p@ == program@,
{
    AppError::ToolMissing(String::from_str(program))
}

} // verus!
