//! The `appmo` command set: it lists only devices that are online or booted
//! and drives input through one-off `adb shell input` and `simctl io`
//! commands.

use vstd::prelude::*;
use vstd::string::*;

use crate::commands::{contains, runs, str_contains, Tool, ToolCommand};
use crate::devices::{
    adb_line_device, collect_simctl_devices, devices_view,
    simctl_devices, Device, DeviceId, DeviceKind, DeviceRecord, SimctlRuntime,
};
use crate::error::AppError;
use crate::text::{decimal, lines, lines_of, chars_of, strings_view, views};

verus! {

/// A tap at `(x, y)`.
#[derive(Clone, Debug)]
pub struct TapRequest {
    pub x: u32,
    pub y: u32,
}

/// A swipe from `(x1, y1)` to `(x2, y2)`.
#[derive(Clone, Debug)]
pub struct SwipeRequest {
    pub x1: u32,
    pub y1: u32,
    pub x2: u32,
    pub y2: u32,
    pub duration_ms: Option<u32>,
}

/// The device of one `adb devices -l` line, kept only when its state is `device`.
pub open spec fn online_line_device(line: Seq<char>) -> Option<DeviceRecord> {
    match adb_line_device(line) {
        Some(d) => if d.state == "device"@ {
            Some(d)
        } else {
            None
        },
        None => None,
    }
}

pub open spec fn online_lines_devices(ls: Seq<Seq<char>>) -> Seq<DeviceRecord>
    decreases ls.len(),
{
    if ls.len() == 0 {
        seq![]
    } else {
        let r = online_lines_devices(ls.drop_last());
        match online_line_device(ls.last()) {
            Some(d) => r.push(d),
            None => r,
        }
    }
}

/// What `parse_adb_devices` returns for the output `s` of `adb devices -l`.
pub open spec fn online_devices_listed(s: Seq<char>) -> Seq<DeviceRecord> {
    let ls = lines(s);
    if ls.len() == 0 {
        seq![]
    } else {
        online_lines_devices(ls.drop_first())
    }
}

/// A device whose state is `device`.
pub open spec fn is_online(d: DeviceRecord) -> bool {
    d.state == "device"@
}

/// The `appmo` listing is the full `adb devices -l` listing kept to the
/// devices in state `device`, in the same order and with the same fields.
pub proof fn law_online_listing_filters_full_listing(s: Seq<char>)
    ensures
        online_devices_listed(s) == crate::devices::adb_devices_listed(s).filter(
            |d: DeviceRecord| is_online(d),
        ),
        forall|i: int| 0 <= i < online_devices_listed(s).len() ==> (#[trigger] online_devices_listed(
            s,
        )[i]).state == "device"@,
{
    let ls = lines(s);
    if ls.len() == 0 {
        reveal(Seq::filter);
        assert(Seq::<DeviceRecord>::empty().filter(|d: DeviceRecord| is_online(d)) =~= seq![]);
    } else {
        lemma_online_lines(ls.drop_first());
    }
    let pred = |d: DeviceRecord| is_online(d);
    assert forall|i: int| 0 <= i < online_devices_listed(s).len() implies (#[trigger] online_devices_listed(
        s,
    )[i]).state == "device"@ by {
        crate::devices::adb_devices_listed(s).lemma_filter_pred(pred, i);
    }
}

proof fn lemma_online_lines(ls: Seq<Seq<char>>)
    ensures
        online_lines_devices(ls) == crate::devices::adb_lines_devices(ls).filter(
            |d: DeviceRecord| is_online(d),
        ),
    decreases ls.len(),
{
    reveal(Seq::filter);
    let pred = |d: DeviceRecord| is_online(d);
    if ls.len() == 0 {
        assert(crate::devices::adb_lines_devices(ls).filter(pred) =~= seq![]);
    } else {
        lemma_online_lines(ls.drop_last());
        let full = crate::devices::adb_lines_devices(ls.drop_last());
        match adb_line_device(ls.last()) {
            Some(d) => {
                assert(full.push(d).drop_last() =~= full);
                assert(full.push(d).last() == d);
            },
            None => {},
        }
    }
}

/// Parses the output of `adb devices -l`, keeping the devices in state `device`.
pub fn parse_adb_devices(input: &str) -> (r: Vec<Device>)
    ensures
        devices_view(r@) == online_devices_listed(input@),
{
    let cs = chars_of(input);
    let ls = lines_of(cs.as_slice());
    let mut out: Vec<Device> = Vec::new();
    if ls.len() == 0 {
        return out;
    }
    let ghost body = views(ls@).drop_first();
    let mut j: usize = 1;
    while j < ls.len()
        invariant
            1 <= j <= ls@.len(),
            body == views(ls@).drop_first(),
            devices_view(out@) == online_lines_devices(body.take(j - 1)),
        decreases ls@.len() - j,
    {
        let d = crate::devices::adb_line_device_exec(&ls[j]);
        proof {
            assert(body.take(j as int).drop_last() =~= body.take(j - 1));
            assert(body.take(j as int).last() == ls@[j as int]@);
        }
        match d {
            Some(d) => {
                let online = crate::text::chars_eq_str(
                    chars_of(d.state.as_str()).as_slice(),
                    "device",
                );
                if online {
                    let ghost before = out@;
                    out.push(d);
                    proof {
                        assert(devices_view(out@) =~= devices_view(before).push(d@));
                    }
                }
            },
            None => {},
        }
        j = j + 1;
    }
    assert(body.take(j - 1) =~= body);
    out
}

/// The booted simulators of a decoded `simctl list devices --json` listing.
pub fn devices_from_simctl(runtimes: &Vec<SimctlRuntime>) -> (r: Vec<Device>)
    ensures
        devices_view(r@) == simctl_devices(runtimes@, true),
{
    collect_simctl_devices(runtimes, true)
}

fn lit(s: &str) -> (r: String)
    ensures
        r@ == s@,
{
    String::from_str(s)
}

fn copy(s: &String) -> (r: String)
    ensures
        r@ == s@,
{
    String::from_str(s.as_str())
}

fn num(n: u32) -> (r: String)
    ensures
        r@ == decimal(n as nat),
{
    crate::text::decimal_string(n as u64)
}

/// The command that saves a screenshot: `adb exec-out screencap -p` prints
/// it, `simctl io screenshot` writes it to `path`.
pub fn screenshot_command(id: &DeviceId, path: &str) -> (r: ToolCommand)
    ensures
        match id.kind {
            DeviceKind::Android => runs(
                r,
                Tool::Adb,
                seq!["-s"@, id.raw@, "exec-out"@, "screencap"@, "-p"@],
            ),
            DeviceKind::Ios => runs(
                r,
                Tool::Xcrun,
                seq!["simctl"@, "io"@, id.raw@, "screenshot"@, path@],
            ),
        },
{
    let mut a: Vec<String> = Vec::new();
    match id.kind {
        DeviceKind::Android => {
            a.push(lit("-s"));
            a.push(copy(&id.raw));
            a.push(lit("exec-out"));
            a.push(lit("screencap"));
            a.push(lit("-p"));
            assert(strings_view(a@) =~= seq!["-s"@, id.raw@, "exec-out"@, "screencap"@, "-p"@]);
            ToolCommand { op: "android_screenshot", tool: Tool::Adb, args: a }
        },
        DeviceKind::Ios => {
            a.push(lit("simctl"));
            a.push(lit("io"));
            a.push(copy(&id.raw));
            a.push(lit("screenshot"));
            a.push(lit(path));
            assert(strings_view(a@) =~= seq!["simctl"@, "io"@, id.raw@, "screenshot"@, path@]);
            ToolCommand { op: "ios_screenshot", tool: Tool::Xcrun, args: a }
        },
    }
}

/// The command that taps `(x, y)`.
pub fn tap_command(id: &DeviceId, req: &TapRequest) -> (r: ToolCommand)
    ensures
        match id.kind {
            DeviceKind::Android => runs(
                r,
                Tool::Adb,
                seq![
                    "-s"@,
                    id.raw@,
                    "shell"@,
                    "input"@,
                    "tap"@,
                    decimal(req.x as nat),
                    decimal(req.y as nat),
                ],
            ),
            DeviceKind::Ios => runs(
                r,
                Tool::Xcrun,
                seq![
                    "simctl"@,
                    "io"@,
                    id.raw@,
                    "tap"@,
                    decimal(req.x as nat),
                    decimal(req.y as nat),
                ],
            ),
        },
{
    let mut a: Vec<String> = Vec::new();
    match id.kind {
        DeviceKind::Android => {
            a.push(lit("-s"));
            a.push(copy(&id.raw));
            a.push(lit("shell"));
            a.push(lit("input"));
            a.push(lit("tap"));
            a.push(num(req.x));
            a.push(num(req.y));
            assert(strings_view(a@) =~= seq![
                "-s"@,
                id.raw@,
                "shell"@,
                "input"@,
                "tap"@,
                decimal(req.x as nat),
                decimal(req.y as nat),
            ]);
            ToolCommand { op: "android_tap", tool: Tool::Adb, args: a }
        },
        DeviceKind::Ios => {
            a.push(lit("simctl"));
            a.push(lit("io"));
            a.push(copy(&id.raw));
            a.push(lit("tap"));
            a.push(num(req.x));
            a.push(num(req.y));
            assert(strings_view(a@) =~= seq![
                "simctl"@,
                "io"@,
                id.raw@,
                "tap"@,
                decimal(req.x as nat),
                decimal(req.y as nat),
            ]);
            ToolCommand { op: "ios_tap", tool: Tool::Xcrun, args: a }
        },
    }
}

/// The command that swipes for `duration` ms.
pub fn swipe_command(id: &DeviceId, req: &SwipeRequest, duration: u32) -> (r: ToolCommand)
    ensures
        match id.kind {
            DeviceKind::Android => runs(
                r,
                Tool::Adb,
                seq![
                    "-s"@,
                    id.raw@,
                    "shell"@,
                    "input"@,
                    "swipe"@,
                    decimal(req.x1 as nat),
                    decimal(req.y1 as nat),
                    decimal(req.x2 as nat),
                    decimal(req.y2 as nat),
                    decimal(duration as nat),
                ],
            ),
            DeviceKind::Ios => runs(
                r,
                Tool::Xcrun,
                seq![
                    "simctl"@,
                    "io"@,
                    id.raw@,
                    "swipe"@,
                    decimal(req.x1 as nat),
                    decimal(req.y1 as nat),
                    decimal(req.x2 as nat),
                    decimal(req.y2 as nat),
                    decimal(duration as nat),
                ],
            ),
        },
{
    let mut a: Vec<String> = Vec::new();
    match id.kind {
        DeviceKind::Android => {
            a.push(lit("-s"));
            a.push(copy(&id.raw));
            a.push(lit("shell"));
            a.push(lit("input"));
            a.push(lit("swipe"));
        },
        DeviceKind::Ios => {
            a.push(lit("simctl"));
            a.push(lit("io"));
            a.push(copy(&id.raw));
            a.push(lit("swipe"));
        },
    }
    a.push(num(req.x1));
    a.push(num(req.y1));
    a.push(num(req.x2));
    a.push(num(req.y2));
    a.push(num(duration));
    match id.kind {
        DeviceKind::Android => {
            assert(strings_view(a@) =~= seq![
                "-s"@,
                id.raw@,
                "shell"@,
                "input"@,
                "swipe"@,
                decimal(req.x1 as nat),
                decimal(req.y1 as nat),
                decimal(req.x2 as nat),
                decimal(req.y2 as nat),
                decimal(duration as nat),
            ]);
            ToolCommand { op: "android_swipe", tool: Tool::Adb, args: a }
        },
        DeviceKind::Ios => {
            assert(strings_view(a@) =~= seq![
                "simctl"@,
                "io"@,
                id.raw@,
                "swipe"@,
                decimal(req.x1 as nat),
                decimal(req.y1 as nat),
                decimal(req.x2 as nat),
                decimal(req.y2 as nat),
                decimal(duration as nat),
            ]);
            ToolCommand { op: "ios_swipe", tool: Tool::Xcrun, args: a }
        },
    }
}

/// The command that types `text` on an Android device, spaces written as `%s`.
pub fn android_text_command(id: &DeviceId, text: &str) -> (r: ToolCommand)
    ensures
        runs(
            r,
            Tool::Adb,
            seq![
                "-s"@,
                id.raw@,
                "shell"@,
                "input"@,
                "text"@,
                crate::commands::percent_spaces(text@),
            ],
        ),
{
    let cs = chars_of(text);
    let escaped = crate::commands::percent_spaces_string(cs.as_slice());
    let mut a: Vec<String> = Vec::new();
    a.push(lit("-s"));
    a.push(copy(&id.raw));
    a.push(lit("shell"));
    a.push(lit("input"));
    a.push(lit("text"));
    a.push(escaped);
    assert(strings_view(a@) =~= seq![
        "-s"@,
        id.raw@,
        "shell"@,
        "input"@,
        "text"@,
        crate::commands::percent_spaces(text@),
    ]);
    ToolCommand { op: "android_text", tool: Tool::Adb, args: a }
}

/// The refusal of text input on a simulator.
pub fn ios_text_unsupported() -> (e: AppError)
    ensures
        e matches AppError::UnsupportedCapability(m) && m@
            == "simctl does not provide reliable text input in this v1"@,
{
    AppError::UnsupportedCapability(lit("simctl does not provide reliable text input in this v1"))
}

/// The command that presses `key`.
pub fn key_command(id: &DeviceId, key: &str) -> (r: ToolCommand)
    ensures
        match id.kind {
            DeviceKind::Android => runs(
                r,
                Tool::Adb,
                seq!["-s"@, id.raw@, "shell"@, "input"@, "keyevent"@, key@],
            ),
            DeviceKind::Ios => runs(r, Tool::Xcrun, seq!["simctl"@, "io"@, id.raw@, "key"@, key@]),
        },
{
    let mut a: Vec<String> = Vec::new();
    match id.kind {
        DeviceKind::Android => {
            a.push(lit("-s"));
            a.push(copy(&id.raw));
            a.push(lit("shell"));
            a.push(lit("input"));
            a.push(lit("keyevent"));
            a.push(lit(key));
            assert(strings_view(a@) =~= seq![
                "-s"@,
                id.raw@,
                "shell"@,
                "input"@,
                "keyevent"@,
                key@,
            ]);
            ToolCommand { op: "android_key", tool: Tool::Adb, args: a }
        },
        DeviceKind::Ios => {
            a.push(lit("simctl"));
            a.push(lit("io"));
            a.push(copy(&id.raw));
            a.push(lit("key"));
            a.push(lit(key));
            assert(strings_view(a@) =~= seq!["simctl"@, "io"@, id.raw@, "key"@, key@]);
            ToolCommand { op: "ios_key", tool: Tool::Xcrun, args: a }
        },
    }
}

/// A failure text of `simctl io` that means the input command does not exist.
pub open spec fn simctl_lacks_input_text(stderr: Seq<char>) -> bool {
    contains(stderr, "Invalid device command"@) || contains(stderr, "Usage:"@) || contains(
        stderr,
        "unrecognized"@,
    )
}

/// A failure of a `simctl io` input command, as reported: a missing input
/// command becomes `UnsupportedCapability`; other errors pass unchanged.
pub fn simctl_input_error(e: AppError) -> (r: AppError)
    ensures
        (e matches AppError::CommandFailed { stderr, .. } && simctl_lacks_input_text(stderr@)) ==> (
        r matches AppError::UnsupportedCapability(m) && m@
            == "simctl input is not supported by the installed Xcode command line tools"@),
        !(e matches AppError::CommandFailed { stderr, .. } && simctl_lacks_input_text(stderr@))
            ==> r == e,
{
    match e {
        AppError::CommandFailed { program, args, status, stderr } => {
            let t = stderr.as_str();
            if str_contains(t, "Invalid device command") || str_contains(t, "Usage:")
                || str_contains(t, "unrecognized") {
                AppError::UnsupportedCapability(
                    lit("simctl input is not supported by the installed Xcode command line tools"),
                )
            } else {
                AppError::CommandFailed { program, args, status, stderr }
            }
        },
        other => other,
    }
}

/// The path on an Android device where a recording named by `token` is written.
pub fn android_recording_path(token: &str) -> (r: String)
    ensures
        r@ == "/sdcard/appmo-"@ + token@ + ".mp4"@,
{
    let mut s = lit("/sdcard/appmo-");
    s.append(token);
    s.append(".mp4");
    s
}

/// The file name of a simulator recording named by `token`, in the temporary directory.
pub fn ios_recording_file_name(token: &str) -> (r: String)
    ensures
        r@ == "appmo-ios-"@ + token@ + ".mp4"@,
{
    let mut s = lit("appmo-ios-");
    s.append(token);
    s.append(".mp4");
    s
}

} // verus!
