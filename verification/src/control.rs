//! Control messages: the commands that the WebSocket and UDP endpoints accept,
//! and the JSON replies they send.

use vstd::prelude::*;
use vstd::string::*;

use crate::devices::{
    parse_device_id, DeviceId, KeyRequest, MotionAction, MotionRequest, SwipeRequest, TapRequest,
    TextRequest,
};
use crate::error::{is_invalid_input, AppError, AppResult};

verus! {

/// One input command of a control message.
#[derive(Debug)]
pub enum ControlCommand {
    Tap { x: u32, y: u32, source_width: Option<u32>, source_height: Option<u32> },
    Swipe {
        x1: u32,
        y1: u32,
        x2: u32,
        y2: u32,
        duration_ms: Option<u32>,
        source_width: Option<u32>,
        source_height: Option<u32>,
    },
    Motion {
        action: MotionAction,
        x: u32,
        y: u32,
        source_width: Option<u32>,
        source_height: Option<u32>,
    },
    Key { key: String },
    Text { text: String },
}

/// A control message: which device, which command, and an id to answer with.
#[derive(Debug)]
pub struct ControlRequest {
    pub request_id: String,
    pub device_id: String,
    pub command: ControlCommand,
}

/// The reply to a control message.
#[derive(Debug)]
pub struct ControlResponse {
    pub kind: &'static str,
    pub request_id: Option<String>,
    pub ok: bool,
    pub error: Option<String>,
}

/// What a control message asks a device to do.
#[derive(Debug)]
pub enum DeviceOperation {
    Tap(TapRequest),
    Swipe(SwipeRequest),
    Motion(MotionRequest),
    Key(KeyRequest),
    Text(TextRequest),
}

/// `op` is the operation that `command` names, carrying the same values.
pub open spec fn names_operation(command: ControlCommand, op: DeviceOperation) -> bool {
    match command {
        ControlCommand::Tap { x, y, source_width, source_height } => op matches DeviceOperation::Tap(t)
            && t == (TapRequest { x, y, source_width, source_height }),
        ControlCommand::Swipe { x1, y1, x2, y2, duration_ms, source_width, source_height } => op matches DeviceOperation::Swipe(s)
            && s == (SwipeRequest { x1, y1, x2, y2, duration_ms, source_width, source_height }),
        ControlCommand::Motion { action, x, y, source_width, source_height } => op matches DeviceOperation::Motion(m)
            && m == (MotionRequest { action, x, y, source_width, source_height }),
        ControlCommand::Key { key } => op matches DeviceOperation::Key(k) && k == (KeyRequest { key }),
        ControlCommand::Text { text } => op matches DeviceOperation::Text(t) && t == (TextRequest { text }),
    }
}

/// The device and operation of a control message; the message's device id
/// is parsed as `DeviceId::parse` does, and refused with its error.
pub fn control_operation(request: ControlRequest) -> (r: AppResult<(DeviceId, DeviceOperation)>)
    ensures
        match parse_device_id(request.device_id@) {
            Ok((k, raw)) => r matches Ok((id, op)) && id.kind == k && id.raw@ == raw
                && names_operation(request.command, op),
            Err(msg) => is_invalid_input(r, msg),
        },
{
    let id = match DeviceId::parse(request.device_id.as_str()) {
        Ok(id) => id,
        Err(e) => return Err(e),
    };
    let op = match request.command {
        ControlCommand::Tap { x, y, source_width, source_height } => DeviceOperation::Tap(
            TapRequest { x, y, source_width, source_height },
        ),
        ControlCommand::Swipe { x1, y1, x2, y2, duration_ms, source_width, source_height } => DeviceOperation::Swipe(
            SwipeRequest { x1, y1, x2, y2, duration_ms, source_width, source_height },
        ),
        ControlCommand::Motion { action, x, y, source_width, source_height } => DeviceOperation::Motion(
            MotionRequest { action, x, y, source_width, source_height },
        ),
        ControlCommand::Key { key } => DeviceOperation::Key(KeyRequest { key }),
        ControlCommand::Text { text } => DeviceOperation::Text(TextRequest { text }),
    };
    Ok((id, op))
}

/// The body of a successful REST command.
#[derive(Debug)]
pub struct CommandResponse {
    pub ok: bool,
}

impl CommandResponse {
    pub fn ok() -> (r: CommandResponse)
        ensures
            r.ok,
    {
        CommandResponse { ok: true }
    }
}

impl ControlResponse {
    /// The reply to a command that succeeded.
    pub fn ok(request_id: Option<String>) -> (r: ControlResponse)
        ensures
            r.kind@ == "control_result"@,
            r.request_id == request_id,
            r.ok,
            r.error is None,
    {
        ControlResponse { kind: "control_result", request_id, ok: true, error: None }
    }

    /// The reply to a command that failed with `error`.
    pub fn error(request_id: Option<String>, error: String) -> (r: ControlResponse)
        ensures
            r.kind@ == "control_result"@,
            r.request_id == request_id,
            !r.ok,
            r.error == Some(error),
    {
        ControlResponse { kind: "control_result", request_id, ok: false, error: Some(error) }
    }

    /// The reply as JSON: `{"type":..,"request_id":..,"ok":..,"error":..}`,
    /// each string written as a JSON string literal and absent values as `null`.
    pub fn to_json(&self) -> (r: String)
        ensures
            r@ == control_json_text(
                json_string_literal(self.kind@),
                match self.request_id {
                    Some(s) => Some(json_string_literal(s@)),
                    None => None,
                },
                self.ok,
                match self.error {
                    Some(s) => Some(json_string_literal(s@)),
                    None => None,
                },
            ),
    {
        let kind = match json_string(self.kind) {
            Ok(k) => k,
            Err(_) => return String::from_str(FALLBACK_CONTROL_JSON),
        };
        let id = match &self.request_id {
            Some(s) => match json_string(s.as_str()) {
                Ok(j) => Some(j),
                Err(_) => return String::from_str(FALLBACK_CONTROL_JSON),
            },
            None => None,
        };
        let error = match &self.error {
            Some(s) => match json_string(s.as_str()) {
                Ok(j) => Some(j),
                Err(_) => return String::from_str(FALLBACK_CONTROL_JSON),
            },
            None => None,
        };
        render_control_json(&kind, &id, self.ok, &error)
    }
}

/// The reply sent when the reply itself could not be written.
pub const FALLBACK_CONTROL_JSON: &'static str = "{\"type\":\"control_result\",\"request_id\":null,\"ok\":false,\"error\":\"serialization failed\"}";

pub open spec fn fallback_control_json() -> Seq<char> {
    FALLBACK_CONTROL_JSON@
}

/// A hexadecimal digit as `serde_json` writes it, in lower case.
pub open spec fn hex_digit(d: int) -> char {
    seq!['0', '1', '2', '3', '4', '5', '6', '7', '8', '9', 'a', 'b', 'c', 'd', 'e', 'f'][d]
}

/// How `serde_json` writes one character inside a string: `"` and `\` and
/// the control characters below U+0020 are escaped (`\b`, `\t`, `\n`, `\f`,
/// `\r`, else `\u00XX`); every other character is written as it is.
pub open spec fn json_escape(c: char) -> Seq<char> {
    if c == '"' {
        seq!['\\', '"']
    } else if c == '\\' {
        seq!['\\', '\\']
    } else if c == '\u{8}' {
        seq!['\\', 'b']
    } else if c == '\t' {
        seq!['\\', 't']
    } else if c == '\n' {
        seq!['\\', 'n']
    } else if c == '\u{c}' {
        seq!['\\', 'f']
    } else if c == '\r' {
        seq!['\\', 'r']
    } else if (c as int) < 0x20 {
        seq!['\\', 'u', '0', '0', hex_digit((c as int) / 16), hex_digit((c as int) % 16)]
    } else {
        seq![c]
    }
}

/// The characters of `s`, each written as `json_escape` writes it.
pub open spec fn json_escaped(s: Seq<char>) -> Seq<char>
    decreases s.len(),
{
    if s.len() == 0 {
        seq![]
    } else {
        json_escaped(s.drop_last()) + json_escape(s.last())
    }
}

/// The JSON string literal of `s`: its escaped characters between quotes.
pub open spec fn json_string_literal(s: Seq<char>) -> Seq<char> {
    seq!['"'] + json_escaped(s) + seq!['"']
}

/// `serde_json::to_string` on a string slice: the JSON string literal. It
/// writes into a `Vec`, which cannot fail, so the result is always `Ok`.
#[verifier::external_body]
fn json_string(s: &str) -> (r: Result<String, serde_json::Error>)
    ensures
        r is Ok,
        r matches Ok(j) ==> j@ == json_string_literal(s@),
{
    serde_json::to_string(s)
}

/// A JSON value that may be `null`.
pub open spec fn json_or_null(v: Option<Seq<char>>) -> Seq<char> {
    match v {
        Some(t) => t,
        None => "null"@,
    }
}

/// The JSON object of a reply, from the JSON texts of its strings.
pub open spec fn control_json_text(
    kind_json: Seq<char>,
    request_id_json: Option<Seq<char>>,
    ok: bool,
    error_json: Option<Seq<char>>,
) -> Seq<char> {
    "{\"type\":"@ + kind_json + ",\"request_id\":"@ + json_or_null(request_id_json) + ",\"ok\":"@
        + (if ok {
        "true"@
    } else {
        "false"@
    }) + ",\"error\":"@ + json_or_null(error_json) + "}"@
}

/// Lays out the JSON object of a reply from the JSON texts of its strings.
pub fn render_control_json(
    kind_json: &String,
    request_id_json: &Option<String>,
    ok: bool,
    error_json: &Option<String>,
) -> (r: String)
    ensures
        r@ == control_json_text(
            kind_json@,
            match request_id_json {
                Some(s) => Some(s@),
                None => None,
            },
            ok,
            match error_json {
                Some(s) => Some(s@),
                None => None,
            },
        ),
{
    let mut s = String::from_str("{\"type\":");
    s.append(kind_json.as_str());
    s.append(",\"request_id\":");
    match request_id_json {
        Some(j) => s.append(j.as_str()),
        None => s.append("null"),
    }
    s.append(",\"ok\":");
    if ok {
        s.append("true");
    } else {
        s.append("false");
    }
    s.append(",\"error\":");
    match error_json {
        Some(j) => s.append(j.as_str()),
        None => s.append("null"),
    }
    s.append("}");
    s
}

/// The HTTP status of an error reply: 401 unauthorized, 400 invalid input,
/// 404 unknown device, 424 missing tool, 501 unsupported, 502 failed command,
/// 500 for I/O and JSON errors.
pub fn error_status(e: &AppError) -> (r: u16)
    ensures
        r == match e {
            AppError::Unauthorized => 401u16,
            AppError::InvalidInput(_) => 400u16,
            AppError::DeviceNotFound(_) => 404u16,
            AppError::ToolMissing(_) => 424u16,
            AppError::UnsupportedCapability(_) => 501u16,
            AppError::CommandFailed { .. } => 502u16,
            AppError::Io(_) => 500u16,
            AppError::Json(_) => 500u16,
        },
{
    match e {
        AppError::Unauthorized => 401,
        AppError::InvalidInput(_) => 400,
        AppError::DeviceNotFound(_) => 404,
        AppError::ToolMissing(_) => 424,
        AppError::UnsupportedCapability(_) => 501,
        AppError::CommandFailed { .. } => 502,
        AppError::Io(_) | AppError::Json(_) => 500,
    }
}

} // verus!
