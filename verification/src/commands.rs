//! The programs and arguments that device operations run, the lines written
//! to a persistent `adb shell`, and how their failures are reported.

use vstd::prelude::*;
use vstd::string::*;

use crate::devices::{
    ios_button, ios_button_for_key, is_app_switch_key, is_ios_app_switch_key, saturating_sub,
    scale_coordinate, scaled_coordinate, PointDimensions, TapRequest, motion_action_word, android_motion_action, shell_quote, shell_quoted, DeviceId, DeviceKind,
    MotionAction,
};
use crate::error::AppError;
use crate::text::{chars_of, decimal, push_chars, push_decimal, strings_view, string_of};

verus! {

/// The programs that device operations run; the server's configuration gives
/// the path of each.
#[derive(Clone, Copy, Debug, PartialEq, Eq, Structural)]
pub enum Tool {
    Adb,
    Emulator,
    Xcrun,
    Osascript,
    Idb,
}

/// A program to run, with its arguments, under a name for the logs.
pub struct ToolCommand {
    pub op: &'static str,
    pub tool: Tool,
    pub args: Vec<String>,
}

/// `c` runs `tool` with the arguments `args`.
pub open spec fn runs(c: ToolCommand, tool: Tool, args: Seq<Seq<char>>) -> bool {
    c.tool == tool && strings_view(c.args@) == args
}

fn lit(s: &str) -> (r: String)
    ensures
        r@ == s@,
{
    String::from_str(s)
}

fn copy(s: &String) -> (r: String)
    ensures
        r@ == s@,
{
    String::from_str(s.as_str())
}

fn num(n: u64) -> (r: String)
    ensures
        r@ == decimal(n as nat),
{
    crate::text::decimal_string(n)
}

/// The screenshot command and the media type of the image it prints.
pub fn screenshot_command(id: &DeviceId) -> (r: (ToolCommand, &'static str))
    ensures
        match id.kind {
            DeviceKind::Android => runs(
                r.0,
                Tool::Adb,
                seq!["-s"@, id.raw@, "exec-out"@, "screencap"@, "-p"@],
            ) && r.1@ == "image/png"@,
            DeviceKind::Ios => runs(
                r.0,
                Tool::Xcrun,
                seq!["simctl"@, "io"@, id.raw@, "screenshot"@, "--type=jpeg"@, "-"@],
            ) && r.1@ == "image/jpeg"@,
        },
{
    let mut a: Vec<String> = Vec::new();
    match id.kind {
        DeviceKind::Android => {
            a.push(lit("-s"));
            a.push(copy(&id.raw));
            a.push(lit("exec-out"));
            a.push(lit("screencap"));
            a.push(lit("-p"));
            assert(strings_view(a@) =~= seq!["-s"@, id.raw@, "exec-out"@, "screencap"@, "-p"@]);
            (ToolCommand { op: "android_screenshot", tool: Tool::Adb, args: a }, "image/png")
        },
        DeviceKind::Ios => {
            a.push(lit("simctl"));
            a.push(lit("io"));
            a.push(copy(&id.raw));
            a.push(lit("screenshot"));
            a.push(lit("--type=jpeg"));
            a.push(lit("-"));
            assert(strings_view(a@) =~= seq![
                "simctl"@,
                "io"@,
                id.raw@,
                "screenshot"@,
                "--type=jpeg"@,
                "-"@,
            ]);
            (ToolCommand { op: "ios_screenshot_stdout", tool: Tool::Xcrun, args: a }, "image/jpeg")
        },
    }
}

/// The line that taps `(x, y)` through `adb shell`.
pub fn tap_input_line(x: u32, y: u32) -> (r: String)
    ensures
        r@ == "input tap "@ + decimal(x as nat) + " "@ + decimal(y as nat),
{
    let mut s = lit("input tap ");
    push_decimal(&mut s, x as u64);
    s.append(" ");
    push_decimal(&mut s, y as u64);
    s
}

/// The swipe duration: the requested one (300 ms when none) capped at a minute.
pub open spec fn swipe_duration_of(requested: Option<u32>) -> u32 {
    let d = match requested {
        Some(d) => d,
        None => 300,
    };
    if d < 60_000 {
        d
    } else {
        60_000
    }
}

pub fn swipe_duration(requested: Option<u32>) -> (r: u32)
    ensures
        r == swipe_duration_of(requested),
{
    let d = match requested {
        Some(d) => d,
        None => 300,
    };
    if d < 60_000 {
        d
    } else {
        60_000
    }
}

/// The line that swipes from `(x1, y1)` to `(x2, y2)` in `duration` ms through `adb shell`.
pub fn swipe_input_line(x1: u32, y1: u32, x2: u32, y2: u32, duration: u32) -> (r: String)
    ensures
        r@ == "input swipe "@ + decimal(x1 as nat) + " "@ + decimal(y1 as nat) + " "@ + decimal(
            x2 as nat,
        ) + " "@ + decimal(y2 as nat) + " "@ + decimal(duration as nat),
{
    let mut s = lit("input swipe ");
    push_decimal(&mut s, x1 as u64);
    s.append(" ");
    push_decimal(&mut s, y1 as u64);
    s.append(" ");
    push_decimal(&mut s, x2 as u64);
    s.append(" ");
    push_decimal(&mut s, y2 as u64);
    s.append(" ");
    push_decimal(&mut s, duration as u64);
    s
}

/// The line that sends one phase of a pointer gesture through `adb shell`.
pub fn motion_input_line(action: MotionAction, x: u32, y: u32) -> (r: String)
    ensures
        r@ == "input motionevent "@ + motion_action_word(action) + " "@ + decimal(x as nat) + " "@
            + decimal(y as nat),
{
    let mut s = lit("input motionevent ");
    s.append(android_motion_action(action));
    s.append(" ");
    push_decimal(&mut s, x as u64);
    s.append(" ");
    push_decimal(&mut s, y as u64);
    s
}

/// `s` with every space written as `%s`, as `input text` expects.
pub open spec fn percent_spaces(s: Seq<char>) -> Seq<char>
    decreases s.len(),
{
    if s.len() == 0 {
        seq![]
    } else {
        percent_spaces(s.drop_last()) + if s.last() == ' ' {
            seq!['%', 's']
        } else {
            seq![s.last()]
        }
    }
}

fn percent_spaces_exec(cs: &[char]) -> (r: Vec<char>)
    ensures
        r@ == percent_spaces(cs@),
{
    let mut r: Vec<char> = Vec::new();
    let mut i: usize = 0;
    while i < cs.len()
        invariant
            i <= cs@.len(),
            r@ == percent_spaces(cs@.take(i as int)),
        decreases cs@.len() - i,
    {
        let c = cs[i];
        assert(cs@.take(i + 1).drop_last() =~= cs@.take(i as int));
        if c == ' ' {
            r.push('%');
            r.push('s');
        } else {
            r.push(c);
        }
        assert(r@ =~= percent_spaces(cs@.take(i + 1)));
        i = i + 1;
    }
    assert(cs@.take(i as int) =~= cs@);
    r
}

/// `text` with every space written as `%s`, as a `String`.
pub fn percent_spaces_string(cs: &[char]) -> (r: String)
    ensures
        r@ == percent_spaces(cs@),
{
    string_of(percent_spaces_exec(cs).as_slice())
}

/// The line that types `text` through `adb shell`: spaces as `%s`, then quoted.
pub fn text_input_line(text: &str) -> (r: String)
    ensures
        r@ == "input text "@ + shell_quoted(percent_spaces(text@)),
{
    let cs = chars_of(text);
    let escaped = string_of(percent_spaces_exec(cs.as_slice()).as_slice());
    let mut s = lit("input text ");
    let q = shell_quote(escaped.as_str());
    s.append(q.as_str());
    s
}

/// The line that presses `key` through `adb shell`.
pub fn key_input_line(key: &str) -> (r: String)
    ensures
        r@ == "input keyevent "@ + shell_quoted(key@),
{
    let mut s = lit("input keyevent ");
    let q = shell_quote(key);
    s.append(q.as_str());
    s
}

/// A key name that key input accepts reaches the persistent shell as it is:
/// accepted names never need quoting.
pub proof fn law_accepted_keys_are_unquoted(key: Seq<char>)
    requires
        !crate::validation::is_blank(key),
        crate::validation::all_key_chars(key),
    ensures
        shell_quoted(key) == key,
        "input keyevent "@ + shell_quoted(key) == "input keyevent "@ + key,
{
    assert(crate::devices::all_shell_plain(key)) by {
        assert forall|i: int| 0 <= i < key.len() implies crate::devices::is_shell_plain(#[trigger] key[i]) by {
            assert(crate::validation::is_key_char(key[i]));
        }
    }
}

/// The command that starts a device: the emulator for an AVD, adding
/// `-grpc <port>` when a gRPC port is configured; `simctl boot` for a simulator.
pub fn start_device_command(id: &DeviceId, grpc_port: Option<u16>) -> (r: ToolCommand)
    ensures
        match id.kind {
            DeviceKind::Android => runs(
                r,
                Tool::Emulator,
                match grpc_port {
                    Some(p) => seq!["-avd"@, id.raw@, "-grpc"@, decimal(p as nat)],
                    None => seq!["-avd"@, id.raw@],
                },
            ),
            DeviceKind::Ios => runs(r, Tool::Xcrun, seq!["simctl"@, "boot"@, id.raw@]),
        },
{
    let mut a: Vec<String> = Vec::new();
    match id.kind {
        DeviceKind::Android => {
            a.push(lit("-avd"));
            a.push(copy(&id.raw));
            match grpc_port {
                Some(p) => {
                    a.push(lit("-grpc"));
                    a.push(num(p as u64));
                    assert(strings_view(a@) =~= seq!["-avd"@, id.raw@, "-grpc"@, decimal(p as nat)]);
                },
                None => {
                    assert(strings_view(a@) =~= seq!["-avd"@, id.raw@]);
                },
            }
            ToolCommand { op: "android_emulator_start", tool: Tool::Emulator, args: a }
        },
        DeviceKind::Ios => {
            a.push(lit("simctl"));
            a.push(lit("boot"));
            a.push(copy(&id.raw));
            assert(strings_view(a@) =~= seq!["simctl"@, "boot"@, id.raw@]);
            ToolCommand { op: "ios_boot", tool: Tool::Xcrun, args: a }
        },
    }
}

/// The arguments that start the AVD `raw` under the configured emulator
/// endpoint: `-grpc <port>` is added when the endpoint names a port.
pub open spec fn avd_start_args(raw: Seq<char>, grpc_endpoint: Option<Seq<char>>) -> Seq<Seq<char>> {
    match grpc_endpoint {
        Some(e) => match crate::devices::endpoint_port(e) {
            Some(p) => seq!["-avd"@, raw, "-grpc"@, decimal(p)],
            None => seq!["-avd"@, raw],
        },
        None => seq!["-avd"@, raw],
    }
}

/// The command that starts a device under the configured emulator endpoint.
pub fn start_command(id: &DeviceId, grpc_endpoint: Option<&str>) -> (r: ToolCommand)
    ensures
        match id.kind {
            DeviceKind::Android => runs(
                r,
                Tool::Emulator,
                avd_start_args(
                    id.raw@,
                    match grpc_endpoint {
                        Some(e) => Some(e@),
                        None => None,
                    },
                ),
            ),
            DeviceKind::Ios => runs(r, Tool::Xcrun, seq!["simctl"@, "boot"@, id.raw@]),
        },
{
    let port = match grpc_endpoint {
        Some(e) => crate::devices::android_grpc_port_from_endpoint(e),
        None => None,
    };
    start_device_command(id, port)
}

/// With the emulator endpoint `http://<host>:<port>` configured, an AVD is
/// started with `-grpc <port>`.
pub proof fn law_endpoint_port_reaches_start(raw: Seq<char>, host: Seq<char>, port: nat)
    requires
        port <= 65535,
        forall|i: int| 0 <= i < host.len() ==> #[trigger] host[i] != '/',
    ensures
        avd_start_args(raw, Some("http://"@ + host + seq![':'] + decimal(port))) == seq![
            "-avd"@,
            raw,
            "-grpc"@,
            decimal(port),
        ],
{
    crate::devices::law_endpoint_port_reads_back(host, port);
}

/// `s` contains `p`.
pub open spec fn contains(s: Seq<char>, p: Seq<char>) -> bool {
    crate::text::find(s, p) is Some
}

/// Whether the text `s` contains the text `p` (`str::contains`).
pub fn str_contains(s: &str, p: &str) -> (r: bool)
    ensures
        r == contains(s@, p@),
{
    let a = chars_of(s);
    let b = chars_of(p);
    crate::text::find_chars(a.as_slice(), b.as_slice()).is_some()
}

/// A failed `simctl boot` whose error says the simulator is already booted.
pub open spec fn says_already_booted(stderr: Seq<char>) -> bool {
    contains(stderr, "current state: Booted"@) || contains(
        stderr,
        "Unable to boot device in current state: Booted"@,
    )
}

pub fn already_booted(stderr: &str) -> (r: bool)
    ensures
        r == says_already_booted(stderr@),
{
    str_contains(stderr, "current state: Booted") || str_contains(
        stderr,
        "Unable to boot device in current state: Booted",
    )
}

/// The command that stops a device.
pub fn stop_device_command(id: &DeviceId) -> (r: ToolCommand)
    ensures
        match id.kind {
            DeviceKind::Android => runs(r, Tool::Adb, seq!["-s"@, id.raw@, "emu"@, "kill"@]),
            DeviceKind::Ios => runs(r, Tool::Xcrun, seq!["simctl"@, "shutdown"@, id.raw@]),
        },
{
    let mut a: Vec<String> = Vec::new();
    match id.kind {
        DeviceKind::Android => {
            a.push(lit("-s"));
            a.push(copy(&id.raw));
            a.push(lit("emu"));
            a.push(lit("kill"));
            assert(strings_view(a@) =~= seq!["-s"@, id.raw@, "emu"@, "kill"@]);
            ToolCommand { op: "android_emulator_stop", tool: Tool::Adb, args: a }
        },
        DeviceKind::Ios => {
            a.push(lit("simctl"));
            a.push(lit("shutdown"));
            a.push(copy(&id.raw));
            assert(strings_view(a@) =~= seq!["simctl"@, "shutdown"@, id.raw@]);
            ToolCommand { op: "ios_shutdown", tool: Tool::Xcrun, args: a }
        },
    }
}

/// A failed `simctl shutdown` whose error says the simulator is already shut down.
pub open spec fn says_already_shutdown(stderr: Seq<char>) -> bool {
    contains(stderr, "current state: Shutdown"@) || contains(
        stderr,
        "Unable to shutdown device in current state: Shutdown"@,
    )
}

pub fn already_shutdown(stderr: &str) -> (r: bool)
    ensures
        r == says_already_shutdown(stderr@),
{
    str_contains(stderr, "current state: Shutdown") || str_contains(
        stderr,
        "Unable to shutdown device in current state: Shutdown",
    )
}

/// The command that installs the app at `path`.
pub fn install_command(id: &DeviceId, path: &str) -> (r: ToolCommand)
    ensures
        match id.kind {
            DeviceKind::Android => runs(r, Tool::Adb, seq!["-s"@, id.raw@, "install"@, "-r"@, path@]),
            DeviceKind::Ios => runs(r, Tool::Xcrun, seq!["simctl"@, "install"@, id.raw@, path@]),
        },
{
    let mut a: Vec<String> = Vec::new();
    match id.kind {
        DeviceKind::Android => {
            a.push(lit("-s"));
            a.push(copy(&id.raw));
            a.push(lit("install"));
            a.push(lit("-r"));
            a.push(lit(path));
            assert(strings_view(a@) =~= seq!["-s"@, id.raw@, "install"@, "-r"@, path@]);
            ToolCommand { op: "android_install", tool: Tool::Adb, args: a }
        },
        DeviceKind::Ios => {
            a.push(lit("simctl"));
            a.push(lit("install"));
            a.push(copy(&id.raw));
            a.push(lit(path));
            assert(strings_view(a@) =~= seq!["simctl"@, "install"@, id.raw@, path@]);
            ToolCommand { op: "ios_install", tool: Tool::Xcrun, args: a }
        },
    }
}

/// The command that launches the app `app_id`.
pub fn launch_command(id: &DeviceId, app_id: &str) -> (r: ToolCommand)
    ensures
        match id.kind {
            DeviceKind::Android => runs(
                r,
                Tool::Adb,
                seq!["-s"@, id.raw@, "shell"@, "monkey"@, "-p"@, app_id@, "1"@],
            ),
            DeviceKind::Ios => runs(r, Tool::Xcrun, seq!["simctl"@, "launch"@, id.raw@, app_id@]),
        },
{
    let mut a: Vec<String> = Vec::new();
    match id.kind {
        DeviceKind::Android => {
            a.push(lit("-s"));
            a.push(copy(&id.raw));
            a.push(lit("shell"));
            a.push(lit("monkey"));
            a.push(lit("-p"));
            a.push(lit(app_id));
            a.push(lit("1"));
            assert(strings_view(a@) =~= seq![
                "-s"@,
                id.raw@,
                "shell"@,
                "monkey"@,
                "-p"@,
                app_id@,
                "1"@,
            ]);
            ToolCommand { op: "android_launch", tool: Tool::Adb, args: a }
        },
        DeviceKind::Ios => {
            a.push(lit("simctl"));
            a.push(lit("launch"));
            a.push(copy(&id.raw));
            a.push(lit(app_id));
            assert(strings_view(a@) =~= seq!["simctl"@, "launch"@, id.raw@, app_id@]);
            ToolCommand { op: "ios_launch", tool: Tool::Xcrun, args: a }
        },
    }
}

/// The command that stops the app `app_id`.
pub fn terminate_command(id: &DeviceId, app_id: &str) -> (r: ToolCommand)
    ensures
        match id.kind {
            DeviceKind::Android => runs(
                r,
                Tool::Adb,
                seq!["-s"@, id.raw@, "shell"@, "am"@, "force-stop"@, app_id@],
            ),
            DeviceKind::Ios => runs(r, Tool::Xcrun, seq!["simctl"@, "terminate"@, id.raw@, app_id@]),
        },
{
    let mut a: Vec<String> = Vec::new();
    match id.kind {
        DeviceKind::Android => {
            a.push(lit("-s"));
            a.push(copy(&id.raw));
            a.push(lit("shell"));
            a.push(lit("am"));
            a.push(lit("force-stop"));
            a.push(lit(app_id));
            assert(strings_view(a@) =~= seq![
                "-s"@,
                id.raw@,
                "shell"@,
                "am"@,
                "force-stop"@,
                app_id@,
            ]);
            ToolCommand { op: "android_terminate", tool: Tool::Adb, args: a }
        },
        DeviceKind::Ios => {
            a.push(lit("simctl"));
            a.push(lit("terminate"));
            a.push(copy(&id.raw));
            a.push(lit(app_id));
            assert(strings_view(a@) =~= seq!["simctl"@, "terminate"@, id.raw@, app_id@]);
            ToolCommand { op: "ios_terminate", tool: Tool::Xcrun, args: a }
        },
    }
}

/// How many log lines to read: the requested number (200 when none) kept within 1..=2000.
pub open spec fn log_line_count_of(requested: Option<u32>) -> u32 {
    let n = match requested {
        Some(n) => n,
        None => 200,
    };
    if n < 1 {
        1
    } else if n > 2000 {
        2000
    } else {
        n
    }
}

pub fn log_line_count(requested: Option<u32>) -> (r: u32)
    ensures
        r == log_line_count_of(requested),
        1 <= r <= 2000,
{
    let n = match requested {
        Some(n) => n,
        None => 200,
    };
    if n < 1 {
        1
    } else if n > 2000 {
        2000
    } else {
        n
    }
}

/// The command that reads recent logs: the last lines of logcat, or the last
/// two minutes of a simulator's log.
pub fn logs_command(id: &DeviceId, lines: Option<u32>) -> (r: ToolCommand)
    ensures
        match id.kind {
            DeviceKind::Android => runs(
                r,
                Tool::Adb,
                seq![
                    "-s"@,
                    id.raw@,
                    "logcat"@,
                    "-d"@,
                    "-t"@,
                    decimal(log_line_count_of(lines) as nat),
                ],
            ),
            DeviceKind::Ios => runs(
                r,
                Tool::Xcrun,
                seq![
                    "simctl"@,
                    "spawn"@,
                    id.raw@,
                    "log"@,
                    "show"@,
                    "--style"@,
                    "compact"@,
                    "--last"@,
                    "2m"@,
                ],
            ),
        },
{
    let count = log_line_count(lines);
    let mut a: Vec<String> = Vec::new();
    match id.kind {
        DeviceKind::Android => {
            a.push(lit("-s"));
            a.push(copy(&id.raw));
            a.push(lit("logcat"));
            a.push(lit("-d"));
            a.push(lit("-t"));
            a.push(num(count as u64));
            assert(strings_view(a@) =~= seq![
                "-s"@,
                id.raw@,
                "logcat"@,
                "-d"@,
                "-t"@,
                decimal(count as nat),
            ]);
            ToolCommand { op: "android_logs", tool: Tool::Adb, args: a }
        },
        DeviceKind::Ios => {
            a.push(lit("simctl"));
            a.push(lit("spawn"));
            a.push(copy(&id.raw));
            a.push(lit("log"));
            a.push(lit("show"));
            a.push(lit("--style"));
            a.push(lit("compact"));
            a.push(lit("--last"));
            a.push(lit("2m"));
            assert(strings_view(a@) =~= seq![
                "simctl"@,
                "spawn"@,
                id.raw@,
                "log"@,
                "show"@,
                "--style"@,
                "compact"@,
                "--last"@,
                "2m"@,
            ]);
            ToolCommand { op: "ios_logs", tool: Tool::Xcrun, args: a }
        },
    }
}

/// The path on an Android device where a recording named by `token` is written.
pub fn android_recording_path(token: &str) -> (r: String)
    ensures
        r@ == "/sdcard/appmon-"@ + token@ + ".mp4"@,
{
    let mut s = lit("/sdcard/appmon-");
    s.append(token);
    s.append(".mp4");
    s
}

/// The file name of a simulator recording named by `token`, in the temporary directory.
pub fn ios_recording_file_name(token: &str) -> (r: String)
    ensures
        r@ == "appmon-ios-"@ + token@ + ".mp4"@,
{
    let mut s = lit("appmon-ios-");
    s.append(token);
    s.append(".mp4");
    s
}

/// The command that records the screen to `path` until it is stopped.
pub fn record_command(id: &DeviceId, path: &str) -> (r: ToolCommand)
    ensures
        match id.kind {
            DeviceKind::Android => runs(
                r,
                Tool::Adb,
                seq!["-s"@, id.raw@, "shell"@, "screenrecord"@, path@],
            ),
            DeviceKind::Ios => runs(
                r,
                Tool::Xcrun,
                seq!["simctl"@, "io"@, id.raw@, "recordVideo"@, path@],
            ),
        },
{
    let mut a: Vec<String> = Vec::new();
    match id.kind {
        DeviceKind::Android => {
            a.push(lit("-s"));
            a.push(copy(&id.raw));
            a.push(lit("shell"));
            a.push(lit("screenrecord"));
            a.push(lit(path));
            assert(strings_view(a@) =~= seq!["-s"@, id.raw@, "shell"@, "screenrecord"@, path@]);
            ToolCommand { op: "android_record", tool: Tool::Adb, args: a }
        },
        DeviceKind::Ios => {
            a.push(lit("simctl"));
            a.push(lit("io"));
            a.push(copy(&id.raw));
            a.push(lit("recordVideo"));
            a.push(lit(path));
            assert(strings_view(a@) =~= seq!["simctl"@, "io"@, id.raw@, "recordVideo"@, path@]);
            ToolCommand { op: "ios_record", tool: Tool::Xcrun, args: a }
        },
    }
}

/// The command that lists attached Android devices.
pub fn android_list_command() -> (r: ToolCommand)
    ensures
        runs(r, Tool::Adb, seq!["devices"@, "-l"@]),
{
    let mut a: Vec<String> = Vec::new();
    a.push(lit("devices"));
    a.push(lit("-l"));
    assert(strings_view(a@) =~= seq!["devices"@, "-l"@]);
    ToolCommand { op: "android_list", tool: Tool::Adb, args: a }
}

/// The command that lists Android virtual devices.
pub fn avd_list_command() -> (r: ToolCommand)
    ensures
        runs(r, Tool::Emulator, seq!["-list-avds"@]),
{
    let mut a: Vec<String> = Vec::new();
    a.push(lit("-list-avds"));
    assert(strings_view(a@) =~= seq!["-list-avds"@]);
    ToolCommand { op: "android_avd_list", tool: Tool::Emulator, args: a }
}

/// The command that lists simulators as JSON.
pub fn ios_list_command() -> (r: ToolCommand)
    ensures
        runs(r, Tool::Xcrun, seq!["simctl"@, "list"@, "devices"@, "--json"@]),
{
    let mut a: Vec<String> = Vec::new();
    a.push(lit("simctl"));
    a.push(lit("list"));
    a.push(lit("devices"));
    a.push(lit("--json"));
    assert(strings_view(a@) =~= seq!["simctl"@, "list"@, "devices"@, "--json"@]);
    ToolCommand { op: "ios_list", tool: Tool::Xcrun, args: a }
}

/// `ms` milliseconds written in seconds with three decimals, as
/// `format!("{:.3}", ms as f64 / 1000.0)` writes them.
pub open spec fn seconds_text(ms: nat) -> Seq<char> {
    let f = ms % 1000;
    decimal(ms / 1000) + seq!['.'] + seq![
        crate::text::digit_char(f / 100),
        crate::text::digit_char((f / 10) % 10),
        crate::text::digit_char(f % 10),
    ]
}

pub fn seconds(ms: u32) -> (r: String)
    ensures
        r@ == seconds_text(ms as nat),
{
    let mut s = num((ms / 1000) as u64);
    let f = (ms % 1000) as u64;
    s.push('.');
    s.push(crate::text::digit_to_char(f / 100));
    s.push(crate::text::digit_to_char((f / 10) % 10));
    s.push(crate::text::digit_to_char(f % 10));
    assert(s@ =~= seconds_text(ms as nat));
    s
}

/// Whether a point in an image must be scaled to simulator points: only when
/// both image sides are known and positive.
pub open spec fn scales_points(source_width: Option<u32>, source_height: Option<u32>) -> bool {
    (source_width matches Some(w) && w > 0) && (source_height matches Some(h) && h > 0)
}

/// A point of the preview is scaled to simulator points exactly when both
/// image sides are given and positive, whatever the image's shape.
pub proof fn law_points_scaled_when_sides_known(w: Option<u32>, h: Option<u32>)
    ensures
        scales_points(w, h) <==> (w is Some && h is Some && w->0 > 0 && h->0 > 0),
        forall|a: u32, b: u32| a > 0 && b > 0 ==> #[trigger] scales_points(Some(a), Some(b)),
        forall|b: u32| !#[trigger] scales_points(None, Some(b)),
        forall|a: u32| !#[trigger] scales_points(Some(a), None),
        forall|a: u32, b: u32| (a == 0 || b == 0) ==> !#[trigger] scales_points(Some(a), Some(b)),
{
}

/// `percent_spaces` works character by character: it distributes over
/// joined text, writes a space as `%s` and keeps every other character.
pub proof fn lemma_percent_spaces_join(a: Seq<char>, b: Seq<char>)
    ensures
        percent_spaces(a + b) == percent_spaces(a) + percent_spaces(b),
    decreases b.len(),
{
    if b.len() == 0 {
        assert(a + b =~= a);
        assert(percent_spaces(a) + percent_spaces(b) =~= percent_spaces(a));
    } else {
        lemma_percent_spaces_join(a, b.drop_last());
        assert((a + b).drop_last() =~= a + b.drop_last());
        assert((a + b).last() == b.last());
    }
}

/// Text typed through the persistent `adb shell` has every space written as
/// `%s` and every other character kept: escaping distributes over joined
/// text, a space becomes `%s`, any other character stays, and the escaped
/// text holds no space.
pub proof fn law_every_space_escaped(a: Seq<char>, b: Seq<char>, c: char)
    ensures
        percent_spaces(a + seq![' '] + b) == percent_spaces(a) + seq!['%', 's'] + percent_spaces(b),
        c != ' ' ==> percent_spaces(a + seq![c] + b) == percent_spaces(a) + seq![c] + percent_spaces(b),
        percent_spaces(a + b) == percent_spaces(a) + percent_spaces(b),
        forall|i: int| 0 <= i < percent_spaces(a).len() ==> #[trigger] percent_spaces(a)[i] != ' ',
    decreases a.len(),
{
    lemma_percent_spaces_join(a + seq![' '], b);
    lemma_percent_spaces_join(a, seq![' ']);
    lemma_percent_spaces_join(a + seq![c], b);
    lemma_percent_spaces_join(a, seq![c]);
    lemma_percent_spaces_join(a, b);
    assert(seq![' '].drop_last() =~= Seq::<char>::empty());
    assert(seq![c].drop_last() =~= Seq::<char>::empty());
    assert(percent_spaces(Seq::<char>::empty()) =~= Seq::<char>::empty());
    assert(seq![' '].last() == ' ');
    assert(seq![c].last() == c);
    assert(percent_spaces(seq![' ']) =~= seq!['%', 's']);
    assert(percent_spaces(seq![c]) =~= (if c == ' ' { seq!['%', 's'] } else { seq![c] }));
    if a.len() > 0 {
        law_every_space_escaped(a.drop_last(), b, c);
        let p = percent_spaces(a.drop_last());
        let t = if a.last() == ' ' { seq!['%', 's'] } else { seq![a.last()] };
        assert(percent_spaces(a) == p + t);
        assert forall|i: int| 0 <= i < percent_spaces(a).len() implies #[trigger] percent_spaces(a)[i] != ' ' by {
            if i < p.len() {
                assert(percent_spaces(a)[i] == p[i]);
            } else {
                assert(percent_spaces(a)[i] == t[i - p.len()]);
            }
        }
    }
}

pub fn needs_point_scaling(source_width: Option<u32>, source_height: Option<u32>) -> (r: bool)
    ensures
        r == scales_points(source_width, source_height),
{
    match (source_width, source_height) {
        (Some(w), Some(h)) => w > 0 && h > 0,
        _ => false,
    }
}

/// `(x, y)` in an image mapped to a screen of `points`.
pub fn scale_point(
    x: u32,
    y: u32,
    source_width: u32,
    source_height: u32,
    points: PointDimensions,
) -> (r: (u32, u32))
    requires
        source_width > 0,
        source_height > 0,
    ensures
        r.0 == scaled_coordinate(x as int, source_width as int, points.width as int),
        r.1 == scaled_coordinate(y as int, source_height as int, points.height as int),
{
    (
        scale_coordinate(x, source_width, points.width),
        scale_coordinate(y, source_height, points.height),
    )
}

/// The screen size read from `idb describe`, or 390 by 844 points when it could not be read.
pub fn point_dimensions_or_default(parsed: Option<PointDimensions>) -> (r: PointDimensions)
    ensures
        match parsed {
            Some(p) => r == p,
            None => r == PointDimensions { width: 390, height: 844 },
        },
{
    match parsed {
        Some(p) => p,
        None => PointDimensions { width: 390, height: 844 },
    }
}

/// The arguments `--udid <udid>` that address a simulator.
pub open spec fn udid_args(udid: Seq<char>) -> Seq<Seq<char>> {
    seq!["--udid"@, udid]
}

fn push_udid(a: &mut Vec<String>, udid: &String)
    ensures
        strings_view(final(a)@) == strings_view(old(a)@) + udid_args(udid@),
{
    let ghost start = strings_view(a@);
    a.push(lit("--udid"));
    a.push(copy(udid));
    assert(strings_view(a@) =~= start + udid_args(udid@));
}

/// `idb ui tap x y` for the simulator.
pub fn idb_tap_command(id: &DeviceId, x: u32, y: u32) -> (r: ToolCommand)
    ensures
        runs(r, Tool::Idb, seq!["ui"@, "tap"@, decimal(x as nat), decimal(y as nat)] + udid_args(
            id.raw@,
        )),
{
    let mut a: Vec<String> = Vec::new();
    a.push(lit("ui"));
    a.push(lit("tap"));
    a.push(num(x as u64));
    a.push(num(y as u64));
    assert(strings_view(a@) =~= seq!["ui"@, "tap"@, decimal(x as nat), decimal(y as nat)]);
    push_udid(&mut a, &id.raw);
    ToolCommand { op: "ios_idb_tap", tool: Tool::Idb, args: a }
}

/// `idb ui swipe x1 y1 x2 y2 --duration <seconds>` for the simulator.
pub fn idb_swipe_command(
    id: &DeviceId,
    x1: u32,
    y1: u32,
    x2: u32,
    y2: u32,
    duration_ms: u32,
) -> (r: ToolCommand)
    ensures
        runs(
            r,
            Tool::Idb,
            seq![
                "ui"@,
                "swipe"@,
                decimal(x1 as nat),
                decimal(y1 as nat),
                decimal(x2 as nat),
                decimal(y2 as nat),
                "--duration"@,
                seconds_text(duration_ms as nat),
            ] + udid_args(id.raw@),
        ),
{
    let mut a: Vec<String> = Vec::new();
    a.push(lit("ui"));
    a.push(lit("swipe"));
    a.push(num(x1 as u64));
    a.push(num(y1 as u64));
    a.push(num(x2 as u64));
    a.push(num(y2 as u64));
    a.push(lit("--duration"));
    a.push(seconds(duration_ms));
    assert(strings_view(a@) =~= seq![
        "ui"@,
        "swipe"@,
        decimal(x1 as nat),
        decimal(y1 as nat),
        decimal(x2 as nat),
        decimal(y2 as nat),
        "--duration"@,
        seconds_text(duration_ms as nat),
    ]);
    push_udid(&mut a, &id.raw);
    ToolCommand { op: "ios_idb_swipe", tool: Tool::Idb, args: a }
}

/// `idb ui text <text>` for the simulator.
pub fn idb_text_command(id: &DeviceId, text: &str) -> (r: ToolCommand)
    ensures
        runs(r, Tool::Idb, seq!["ui"@, "text"@, text@] + udid_args(id.raw@)),
{
    let mut a: Vec<String> = Vec::new();
    a.push(lit("ui"));
    a.push(lit("text"));
    a.push(lit(text));
    assert(strings_view(a@) =~= seq!["ui"@, "text"@, text@]);
    push_udid(&mut a, &id.raw);
    ToolCommand { op: "ios_idb_text", tool: Tool::Idb, args: a }
}

/// What a key press on a simulator does.
pub enum IosKeyAction {
    /// Swipe up from the bottom edge to show the app switcher.
    AppSwitch,
    /// Press a hardware button.
    Button(&'static str),
    /// Send the key by name.
    Key,
}

/// The action for a key: the app switcher first, then hardware buttons, else the key itself.
pub fn ios_key_action(key: &str) -> (r: IosKeyAction)
    ensures
        is_app_switch_key(key@) ==> r is AppSwitch,
        !is_app_switch_key(key@) ==> match ios_button(key@) {
            Some(b) => r matches IosKeyAction::Button(s) && s@ == b,
            None => r is Key,
        },
{
    if is_ios_app_switch_key(key) {
        return IosKeyAction::AppSwitch;
    }
    match ios_button_for_key(key) {
        Some(b) => IosKeyAction::Button(b),
        None => IosKeyAction::Key,
    }
}

/// `idb ui button <button>` for the simulator.
pub fn idb_button_command(id: &DeviceId, button: &str) -> (r: ToolCommand)
    ensures
        runs(r, Tool::Idb, seq!["ui"@, "button"@, button@] + udid_args(id.raw@)),
{
    let mut a: Vec<String> = Vec::new();
    a.push(lit("ui"));
    a.push(lit("button"));
    a.push(lit(button));
    assert(strings_view(a@) =~= seq!["ui"@, "button"@, button@]);
    push_udid(&mut a, &id.raw);
    ToolCommand { op: "ios_idb_button", tool: Tool::Idb, args: a }
}

/// `idb ui key <key>` for the simulator.
pub fn idb_key_command(id: &DeviceId, key: &str) -> (r: ToolCommand)
    ensures
        runs(r, Tool::Idb, seq!["ui"@, "key"@, key@] + udid_args(id.raw@)),
{
    let mut a: Vec<String> = Vec::new();
    a.push(lit("ui"));
    a.push(lit("key"));
    a.push(lit(key));
    assert(strings_view(a@) =~= seq!["ui"@, "key"@, key@]);
    push_udid(&mut a, &id.raw);
    ToolCommand { op: "ios_idb_key", tool: Tool::Idb, args: a }
}

/// The swipe that opens the app switcher on a screen of `points`: up the
/// middle, from 8 points above the bottom edge to 52% of the height, in 0.65 s.
pub fn idb_app_switch_command(id: &DeviceId, points: PointDimensions) -> (r: ToolCommand)
    ensures
        runs(
            r,
            Tool::Idb,
            seq![
                "ui"@,
                "swipe"@,
                decimal((points.width / 2) as nat),
                decimal(saturating_sub(points.height as int, 8) as nat),
                decimal((points.width / 2) as nat),
                decimal((if points.height * 52 > u32::MAX { u32::MAX as int } else { points.height * 52 }) as nat / 100),
                "--duration"@,
                "0.650"@,
            ] + udid_args(id.raw@),
        ),
{
    let x = points.width / 2;
    let y_start = points.height.saturating_sub(8);
    let wide = points.height as u64 * 52;
    let y_end = (if wide > u32::MAX as u64 { u32::MAX as u64 } else { wide } / 100) as u32;
    let mut a: Vec<String> = Vec::new();
    a.push(lit("ui"));
    a.push(lit("swipe"));
    a.push(num(x as u64));
    a.push(num(y_start as u64));
    a.push(num(x as u64));
    a.push(num(y_end as u64));
    a.push(lit("--duration"));
    a.push(lit("0.650"));
    assert(strings_view(a@) =~= seq![
        "ui"@,
        "swipe"@,
        decimal(x as nat),
        decimal(y_start as nat),
        decimal(x as nat),
        decimal(y_end as nat),
        "--duration"@,
        "0.650"@,
    ]);
    push_udid(&mut a, &id.raw);
    ToolCommand { op: "ios_idb_app_switch", tool: Tool::Idb, args: a }
}

/// `idb describe` for the simulator.
pub fn idb_describe_command(id: &DeviceId) -> (r: ToolCommand)
    ensures
        runs(r, Tool::Idb, seq!["describe"@] + udid_args(id.raw@)),
{
    let mut a: Vec<String> = Vec::new();
    a.push(lit("describe"));
    assert(strings_view(a@) =~= seq!["describe"@]);
    push_udid(&mut a, &id.raw);
    ToolCommand { op: "ios_idb_describe", tool: Tool::Idb, args: a }
}

/// `idb connect <udid>`.
pub fn idb_connect_command(id: &DeviceId) -> (r: ToolCommand)
    ensures
        runs(r, Tool::Idb, seq!["connect"@, id.raw@]),
{
    let mut a: Vec<String> = Vec::new();
    a.push(lit("connect"));
    a.push(copy(&id.raw));
    assert(strings_view(a@) =~= seq!["connect"@, id.raw@]);
    ToolCommand { op: "ios_idb_connect", tool: Tool::Idb, args: a }
}

/// `io::Error::kind() == NotFound`: the error says a file was not found.
#[verifier::external_body]
fn io_error_is_not_found(e: &std::io::Error) -> bool {
    e.kind() == std::io::ErrorKind::NotFound
}

/// The message given when `idb` is missing.
pub open spec fn idb_missing_message() -> Seq<char> {
    "idb is required for full iOS simulator touch control; install fb-idb/idb-companion and set APPMON_IDB_PATH if needed"@
}

fn idb_missing() -> (e: AppError)
    ensures
        e matches AppError::UnsupportedCapability(m) && m@ == idb_missing_message(),
{
    AppError::UnsupportedCapability(
        lit(
            "idb is required for full iOS simulator touch control; install fb-idb/idb-companion and set APPMON_IDB_PATH if needed",
        ),
    )
}

/// An I/O failure of `idb`, as reported: when it says the program was not
/// found, `UnsupportedCapability` with the install hint; otherwise unchanged.
pub fn idb_io_error(io: std::io::Error, not_found: bool) -> (r: AppError)
    ensures
        not_found ==> (r matches AppError::UnsupportedCapability(m) && m@ == idb_missing_message()),
        !not_found ==> r == AppError::Io(io),
{
    if not_found {
        idb_missing()
    } else {
        AppError::Io(io)
    }
}

/// A failure to run `idb connect`, as reported: a missing `idb` becomes
/// `UnsupportedCapability` with the install hint; other errors pass unchanged.
pub fn idb_connect_error(e: AppError) -> (r: AppError)
    ensures
        e is ToolMissing ==> (r matches AppError::UnsupportedCapability(m) && m@
            == idb_missing_message()),
        !(e is ToolMissing) && !(e is Io) ==> r == e,
        e is Io ==> r == e || (r matches AppError::UnsupportedCapability(m) && m@
            == idb_missing_message()),
{
    match e {
        AppError::ToolMissing(_) => idb_missing(),
        AppError::Io(io) => {
            let not_found = io_error_is_not_found(&io);
            idb_io_error(io, not_found)
        },
        other => other,
    }
}

/// An `idb` failure text that means the simulator cannot be controlled.
pub open spec fn idb_unreachable_text(stderr: Seq<char>) -> bool {
    contains(stderr, "No such file"@) || contains(stderr, "not found"@) || contains(
        stderr,
        "No target"@,
    ) || contains(stderr, "not connected"@)
}

/// A failure of an `idb ui` command, as reported: a missing `idb` becomes
/// `UnsupportedCapability` with the install hint, a failure whose text says
/// the simulator cannot be reached becomes `UnsupportedCapability` quoting
/// that text, and other errors pass unchanged.
pub fn idb_ui_error(e: AppError) -> (r: AppError)
    ensures
        e is ToolMissing ==> (r matches AppError::UnsupportedCapability(m) && m@
            == idb_missing_message()),
        e is Io ==> r == e || (r matches AppError::UnsupportedCapability(m) && m@
            == idb_missing_message()),
        (e matches AppError::CommandFailed { stderr, .. } && idb_unreachable_text(stderr@)) ==> (
        r matches AppError::UnsupportedCapability(m) && m@
            == "idb could not control this iOS simulator: "@ + e->stderr@),
        (e matches AppError::CommandFailed { stderr, .. } && !idb_unreachable_text(stderr@)) ==> r
            == e,
        !(e is ToolMissing) && !(e is Io) && !(e is CommandFailed) ==> r == e,
{
    match e {
        AppError::ToolMissing(_) => idb_missing(),
        AppError::Io(io) => {
            let not_found = io_error_is_not_found(&io);
            idb_io_error(io, not_found)
        },
        AppError::CommandFailed { program, args, status, stderr } => {
            let t = stderr.as_str();
            if str_contains(t, "No such file") || str_contains(t, "not found") || str_contains(
                t,
                "No target",
            ) || str_contains(t, "not connected") {
                let mut m = lit("idb could not control this iOS simulator: ");
                m.append(t);
                AppError::UnsupportedCapability(m)
            } else {
                AppError::CommandFailed { program, args, status, stderr }
            }
        },
        other => other,
    }
}

/// The AppleScript that clicks the Simulator window at `(x, y)` of an image
/// `source_width` by `source_height` pixels (1 when not given or 0).
pub open spec fn window_tap_script(x: u32, y: u32, source_width: u32, source_height: u32) -> Seq<
    char,
> {
    "tell application \"Simulator\" to activate\ntell application \"System Events\"\n  tell process \"Simulator\"\n    set frontmost to true\n    set {x1, y1, x2, y2} to bounds of window 1\n    set appmonX to x1 + (((x2 - x1) * "@
        + decimal(x as nat) + ") / "@ + decimal(source_width as nat)
        + ")\n    set appmonY to y1 + (((y2 - y1) * "@ + decimal(y as nat) + ") / "@ + decimal(
        source_height as nat,
    )
        + ")\n    click at {appmonX as integer, appmonY as integer}\n  end tell\nend tell"@
}

/// An image side for the window tap: the given one, at least 1 (1 when not given).
pub open spec fn window_side(side: Option<u32>) -> u32 {
    match side {
        Some(s) if s >= 1 => s,
        _ => 1,
    }
}

/// The `osascript -e <script>` command that taps the Simulator window.
pub fn window_tap_command(req: &TapRequest) -> (r: ToolCommand)
    ensures
        runs(
            r,
            Tool::Osascript,
            seq![
                "-e"@,
                window_tap_script(
                    req.x,
                    req.y,
                    window_side(req.source_width),
                    window_side(req.source_height),
                ),
            ],
        ),
{
    let sw = match req.source_width {
        Some(s) if s >= 1 => s,
        _ => 1,
    };
    let sh = match req.source_height {
        Some(s) if s >= 1 => s,
        _ => 1,
    };
    let mut script = lit(
        "tell application \"Simulator\" to activate\ntell application \"System Events\"\n  tell process \"Simulator\"\n    set frontmost to true\n    set {x1, y1, x2, y2} to bounds of window 1\n    set appmonX to x1 + (((x2 - x1) * ",
    );
    push_decimal(&mut script, req.x as u64);
    script.append(") / ");
    push_decimal(&mut script, sw as u64);
    script.append(")\n    set appmonY to y1 + (((y2 - y1) * ");
    push_decimal(&mut script, req.y as u64);
    script.append(") / ");
    push_decimal(&mut script, sh as u64);
    script.append(")\n    click at {appmonX as integer, appmonY as integer}\n  end tell\nend tell");
    let mut a: Vec<String> = Vec::new();
    a.push(lit("-e"));
    a.push(script);
    assert(strings_view(a@) =~= seq!["-e"@, window_tap_script(req.x, req.y, sw, sh)]);
    ToolCommand { op: "ios_tap_simulator_window", tool: Tool::Osascript, args: a }
}

/// A failure text of `osascript` that means Accessibility permission is missing.
pub open spec fn lacks_accessibility_text(stderr: Seq<char>) -> bool {
    contains(stderr, "not allowed assistive access"@) || contains(stderr, "-1719"@) || contains(
        stderr,
        "-10827"@,
    )
}

/// A failure of the window tap, as reported: missing Accessibility permission
/// becomes `UnsupportedCapability`; other errors pass unchanged.
pub fn window_tap_error(e: AppError) -> (r: AppError)
    ensures
        (e matches AppError::CommandFailed { stderr, .. } && lacks_accessibility_text(stderr@)) ==> (
        r matches AppError::UnsupportedCapability(m) && m@
            == "iOS simulator tap needs macOS Accessibility permission for osascript/System Events"@),
        !(e matches AppError::CommandFailed { stderr, .. } && lacks_accessibility_text(stderr@))
            ==> r == e,
{
    match e {
        AppError::CommandFailed { program, args, status, stderr } => {
            let t = stderr.as_str();
            if str_contains(t, "not allowed assistive access") || str_contains(t, "-1719")
                || str_contains(t, "-10827") {
                AppError::UnsupportedCapability(
                    lit(
                        "iOS simulator tap needs macOS Accessibility permission for osascript/System Events",
                    ),
                )
            } else {
                AppError::CommandFailed { program, args, status, stderr }
            }
        },
        other => other,
    }
}

/// The error for a command that ran longer than `timeout_ms`.
pub fn timeout_error(program: &str, args: &[String], timeout_ms: u64) -> (e: AppError)
    ensures
        e matches AppError::CommandFailed { program: p, args: a, status: s, stderr: m } && p@
            == program@ && strings_view(a@) == strings_view(args@) && s is None && m@
            == "command timed out after "@ + decimal(timeout_ms as nat) + "ms"@,
{
    let mut m = lit("command timed out after ");
    push_decimal(&mut m, timeout_ms);
    m.append("ms");
    AppError::CommandFailed {
        program: lit(program),
        args: crate::runner::copy_strings(args),
        status: None,
        stderr: m,
    }
}

/// The error for a persistent `adb shell` that has exited with `status`.
pub fn adb_shell_exited(status: Option<i32>) -> (e: AppError)
    ensures
        e matches AppError::CommandFailed { program: p, args: a, status: s, stderr: m } && p@
            == "adb"@ && strings_view(a@) == seq!["shell"@] && s == status && m@
            == "persistent adb shell exited"@,
{
    let mut a: Vec<String> = Vec::new();
    a.push(lit("shell"));
    assert(strings_view(a@) =~= seq!["shell"@]);
    AppError::CommandFailed {
        program: lit("adb"),
        args: a,
        status,
        stderr: lit("persistent adb shell exited"),
    }
}

/// The refusal to start a second recording of the device `key`.
pub fn recording_already_running(key: &str) -> (e: AppError)
    ensures
        e matches AppError::InvalidInput(m) && m@ == "recording is already running for "@ + key@,
{
    crate::error::invalid_input("recording is already running for ", key)
}

/// The refusal to stop a recording of the device `key` that is not running.
pub fn no_recording_running(key: &str) -> (e: AppError)
    ensures
        e matches AppError::InvalidInput(m) && m@ == "no recording is running for "@ + key@,
{
    crate::error::invalid_input("no recording is running for ", key)
}

} // verus!
