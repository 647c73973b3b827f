//! Checks applied to user input before any device command runs.

use vstd::prelude::*;
use vstd::string::*;

use crate::error::{invalid_input, is_invalid_input, AppError, AppResult};
use crate::text::{chars_of, is_alnum, trim, trim_chars, ascii_alnum};

verus! {

/// `std::path::Path`, whose existence on disk only the file system knows.
#[verifier::external_type_specification]
#[verifier::external_body]
pub struct ExPath(std::path::Path);

/// `std::path::PathBuf`.
#[verifier::external_type_specification]
#[verifier::external_body]
pub struct ExPathBuf(std::path::PathBuf);

/// `PathBuf::clone`, which the derived `Clone` of the install and record
/// requests calls; nothing is stated of the copy.
pub assume_specification[ <std::path::PathBuf as std::clone::Clone>::clone ](
    p: &std::path::PathBuf,
) -> std::path::PathBuf;

/// The message of the error `non_empty` returns for `field`.
pub open spec fn empty_field_message(field: Seq<char>) -> Seq<char> {
    field + " cannot be empty"@
}

/// `value` is empty once surrounding whitespace is removed.
pub open spec fn is_blank(value: Seq<char>) -> bool {
    trim(value).len() == 0
}

/// Rejects a value that is empty or only whitespace.
pub fn non_empty(value: &str, field: &str) -> (r: AppResult<()>)
    ensures
        is_blank(value@) ==> is_invalid_input(r, empty_field_message(field@)),
        !is_blank(value@) ==> r is Ok,
{
    let cs = chars_of(value);
    let t = trim_chars(cs.as_slice());
    if t.len() == 0 {
        return Err(invalid_input(field, " cannot be empty"));
    }
    Ok(())
}

/// A character allowed in a package name or bundle id.
pub open spec fn is_app_id_char(c: char) -> bool {
    is_alnum(c) || c == '.' || c == '_' || c == '-'
}

pub open spec fn all_app_id_chars(s: Seq<char>) -> bool {
    forall|i: int| 0 <= i < s.len() ==> is_app_id_char(#[trigger] s[i])
}

/// Accepts an Android package name or iOS bundle id: not blank, and made only
/// of ASCII letters, digits, `.`, `_` and `-`.
pub fn package_or_bundle_id(value: &str) -> (r: AppResult<()>)
    ensures
        is_blank(value@) ==> is_invalid_input(r, empty_field_message("package_or_bundle_id"@)),
        !is_blank(value@) && all_app_id_chars(value@) ==> r is Ok,
        !is_blank(value@) && !all_app_id_chars(value@) ==> is_invalid_input(
            r,
            "package_or_bundle_id contains unsupported characters"@,
        ),
{
    non_empty(value, "package_or_bundle_id")?;
    let cs = chars_of(value);
    let mut i: usize = 0;
    while i < cs.len()
        invariant
            cs@ == value@,
            !is_blank(value@),
            i <= cs@.len(),
            forall|k: int| 0 <= k < i ==> is_app_id_char(#[trigger] cs@[k]),
        decreases cs@.len() - i,
    {
        let c = cs[i];
        if !(ascii_alnum(c) || c == '.' || c == '_' || c == '-') {
            return Err(AppError::InvalidInput(
                String::from_str("package_or_bundle_id contains unsupported characters"),
            ));
        }
        i = i + 1;
    }
    Ok(())
}

/// `Path::is_file`: whether the path names a regular file (following links)
/// at the moment of the call; the file system decides, so nothing is promised.
#[verifier::external_body]
fn path_is_file(path: &std::path::Path) -> bool {
    path.is_file()
}

/// `Path::display` rendered to a `String`.
#[verifier::external_body]
pub(crate) fn path_display(path: &std::path::Path) -> String {
    path.display().to_string()
}

/// The answer to an install path: accepted when it names a regular file,
/// else refused with the path as shown.
pub fn file_check(is_file: bool, shown: &str) -> (r: AppResult<()>)
    ensures
        is_file ==> r is Ok,
        !is_file ==> is_invalid_input(r, "file does not exist: "@ + shown@),
{
    if is_file {
        Ok(())
    } else {
        Err(invalid_input("file does not exist: ", shown))
    }
}

/// Accepts a path that names an existing regular file; the file system
/// decides, and a refusal shows the path.
pub fn readable_file(path: &std::path::Path) -> (r: AppResult<()>)
    ensures
        r is Ok || (r matches Err(AppError::InvalidInput(m)) && "file does not exist: "@.is_prefix_of(
            m@,
        )),
{
    let is_file = path_is_file(path);
    let shown = path_display(path);
    let r = file_check(is_file, shown.as_str());
    proof {
        if let Err(AppError::InvalidInput(m)) = &r {
            assert(m@.subrange(0, "file does not exist: "@.len() as int) =~= "file does not exist: "@);
        }
    }
    r
}

/// The longest text, in UTF-8 bytes, that text input accepts.
pub const MAX_TEXT_BYTES: usize = 4096;

/// A control character that text input refuses.
pub open spec fn is_refused_text_char(c: char) -> bool {
    c == '\n' || c == '\r' || c == '\0'
}

pub open spec fn has_refused_text_char(s: Seq<char>) -> bool {
    exists|i: int| 0 <= i < s.len() && is_refused_text_char(#[trigger] s[i])
}

/// Accepts text of at most 4096 UTF-8 bytes without newline, carriage return or NUL.
pub fn text_input(value: &str) -> (r: AppResult<()>)
    ensures
        value.len() > 4096 ==> is_invalid_input(r, "text is too long"@),
        value.len() <= 4096 && has_refused_text_char(value@) ==> is_invalid_input(
            r,
            "text contains unsupported control characters"@,
        ),
        value.len() <= 4096 && !has_refused_text_char(value@) ==> r is Ok,
{
    if value.len() > MAX_TEXT_BYTES {
        return Err(AppError::InvalidInput(String::from_str("text is too long")));
    }
    let cs = chars_of(value);
    let mut i: usize = 0;
    while i < cs.len()
        invariant
            cs@ == value@,
            value.len() <= 4096,
            i <= cs@.len(),
            forall|k: int| 0 <= k < i ==> !is_refused_text_char(#[trigger] cs@[k]),
        decreases cs@.len() - i,
    {
        let c = cs[i];
        if c == '\n' || c == '\r' || c == '\0' {
            assert(is_refused_text_char(cs@[i as int]));
            return Err(
                AppError::InvalidInput(
                    String::from_str("text contains unsupported control characters"),
                ),
            );
        }
        i = i + 1;
    }
    Ok(())
}

/// A character allowed in a key name.
pub open spec fn is_key_char(c: char) -> bool {
    is_alnum(c) || c == '_' || c == '-' || c == '.'
}

pub open spec fn all_key_chars(s: Seq<char>) -> bool {
    forall|i: int| 0 <= i < s.len() ==> is_key_char(#[trigger] s[i])
}

/// Accepts a key name: not blank, and made only of ASCII letters, digits, `_`, `-` and `.`.
pub fn key_input(value: &str) -> (r: AppResult<()>)
    ensures
        is_blank(value@) ==> is_invalid_input(r, empty_field_message("key"@)),
        !is_blank(value@) && all_key_chars(value@) ==> r is Ok,
        !is_blank(value@) && !all_key_chars(value@) ==> is_invalid_input(
            r,
            "key contains unsupported characters"@,
        ),
{
    non_empty(value, "key")?;
    let cs = chars_of(value);
    let mut i: usize = 0;
    while i < cs.len()
        invariant
            cs@ == value@,
            !is_blank(value@),
            i <= cs@.len(),
            forall|k: int| 0 <= k < i ==> is_key_char(#[trigger] cs@[k]),
        decreases cs@.len() - i,
    {
        let c = cs[i];
        if !(ascii_alnum(c) || c == '_' || c == '-' || c == '.') {
            return Err(AppError::InvalidInput(String::from_str("key contains unsupported characters")));
        }
        i = i + 1;
    }
    Ok(())
}

/// The largest coordinate accepted for touch input.
pub const MAX_COORDINATE: u32 = 100_000;

/// Accepts a coordinate of at most 100000.
pub fn coordinate(value: u32, field: &str) -> (r: AppResult<()>)
    ensures
        value <= 100_000 ==> r is Ok,
        value > 100_000 ==> is_invalid_input(r, field@ + " is out of range"@),
{
    if value <= MAX_COORDINATE {
        Ok(())
    } else {
        Err(invalid_input(field, " is out of range"))
    }
}

/// What `coordinate` answers for a value under a field name.
pub open spec fn coordinate_check(value: u32, field: Seq<char>) -> Result<(), Seq<char>> {
    if value <= 100_000 {
        Ok(())
    } else {
        Err(field + " is out of range"@)
    }
}

/// The first refusal among checks made in order, or none.
pub open spec fn first_refusal(checks: Seq<Result<(), Seq<char>>>) -> Result<(), Seq<char>>
    decreases checks.len(),
{
    if checks.len() == 0 {
        Ok(())
    } else {
        match checks[0] {
            Err(m) => Err(m),
            Ok(_) => first_refusal(checks.drop_first()),
        }
    }
}

/// `r` answers as `expected` does: the same refusal message, or success.
pub open spec fn answers(r: AppResult<()>, expected: Result<(), Seq<char>>) -> bool {
    match expected {
        Ok(_) => r is Ok,
        Err(m) => is_invalid_input(r, m),
    }
}

/// Accepts a touch point `(x, y)`: `x` is checked first, then `y`.
pub fn point(x: u32, y: u32) -> (r: AppResult<()>)
    ensures
        answers(r, first_refusal(seq![coordinate_check(x, "x"@), coordinate_check(y, "y"@)])),
{
    reveal_with_fuel(first_refusal, 3);
    coordinate(x, "x")?;
    coordinate(y, "y")?;
    Ok(())
}

/// Accepts the ends of a swipe, checked in the order `x1`, `y1`, `x2`, `y2`.
pub fn swipe_points(x1: u32, y1: u32, x2: u32, y2: u32) -> (r: AppResult<()>)
    ensures
        answers(
            r,
            first_refusal(
                seq![
                    coordinate_check(x1, "x1"@),
                    coordinate_check(y1, "y1"@),
                    coordinate_check(x2, "x2"@),
                    coordinate_check(y2, "y2"@),
                ],
            ),
        ),
{
    reveal_with_fuel(first_refusal, 5);
    coordinate(x1, "x1")?;
    coordinate(y1, "y1")?;
    coordinate(x2, "x2")?;
    coordinate(y2, "y2")?;
    Ok(())
}

} // verus!
