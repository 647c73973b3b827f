//! Devices, device identifiers, the request types of device operations, and
//! the parsers for the device listings printed by `adb` and `emulator`.

use vstd::prelude::*;
use vstd::string::*;

use crate::error::{is_invalid_input, AppError, AppResult};
use crate::text::{
    decimal, lead_digits, parse_unsigned, parse_unsigned_chars, rfind_char, rfind_char_exec, leading_digits,
    trim_start, trim_start_chars, upper_eq, upper_equals, is_alnum, chars_start_with, strings_view, chars_eq_str, chars_of, find, find_chars, lines, lines_of, replace_char, replace_chars,
    starts_with, string_of, slice_chars, trim, trim_chars, views, words, words_of,
};
use crate::validation::{empty_field_message, is_blank, non_empty};

verus! {

/// The platform of a device.
#[derive(Clone, Debug, PartialEq, Eq, Structural)]
pub enum DeviceKind {
    Android,
    Ios,
}

/// A device as the web client names it: its platform and the platform's own id
/// (an adb serial, an AVD name or a simulator UDID).
#[derive(Clone, Debug, PartialEq, Eq)]
pub struct DeviceId {
    pub kind: DeviceKind,
    pub raw: String,
}

/// The text that starts the web id of a device of kind `k`.
pub open spec fn kind_prefix(k: DeviceKind) -> Seq<char> {
    match k {
        DeviceKind::Android => "android:"@,
        DeviceKind::Ios => "ios:"@,
    }
}

/// The web id of the device `raw` of kind `k`: `android:<raw>` or `ios:<raw>`.
pub open spec fn web_id_of(k: DeviceKind, raw: Seq<char>) -> Seq<char> {
    kind_prefix(k) + raw
}

/// `str::split_once` on one character.
pub open spec fn split_once(s: Seq<char>, c: char) -> Option<(Seq<char>, Seq<char>)> {
    match find(s, seq![c]) {
        Some(k) => Some((s.take(k), s.skip(k + 1))),
        None => None,
    }
}

/// What `DeviceId::parse` makes of `s`: the kind and raw id, or the message of
/// the `InvalidInput` error.
pub open spec fn parse_device_id(s: Seq<char>) -> Result<(DeviceKind, Seq<char>), Seq<char>> {
    match split_once(s, ':') {
        None => Err("device id must be android:<id> or ios:<id>"@),
        Some((prefix, raw)) => {
            if is_blank(raw) {
                Err(empty_field_message("device id"@))
            } else if prefix == "android"@ {
                Ok((DeviceKind::Android, raw))
            } else if prefix == "ios"@ {
                Ok((DeviceKind::Ios, raw))
            } else {
                Err("unknown device platform"@)
            }
        },
    }
}

impl DeviceId {
    /// Parses a web id `android:<id>` or `ios:<id>`; the text after the first
    /// `:` must not be blank.
    pub fn parse(value: &str) -> (r: AppResult<DeviceId>)
        ensures
            match parse_device_id(value@) {
                Ok((k, raw)) => r matches Ok(id) && id.kind == k && id.raw@ == raw,
                Err(msg) => is_invalid_input(r, msg),
            },
    {
        let cs = chars_of(value);
        let sep = vec![':'];
        assert(sep@ =~= seq![':']);
        let k = match find_chars(cs.as_slice(), sep.as_slice()) {
            Some(k) => k,
            None => {
                return Err(
                    AppError::InvalidInput(
                        String::from_str("device id must be android:<id> or ios:<id>"),
                    ),
                );
            },
        };
        proof {
            crate::text::lemma_find_from_bounds(cs@, sep@, 0);
            assert(k + 1 <= cs@.len());
        }
        let prefix = slice_chars(cs.as_slice(), 0, k);
        let n = cs.len();
        let raw = slice_chars(cs.as_slice(), k + 1, n);
        assert(prefix@ =~= cs@.take(k as int));
        assert(raw@ =~= cs@.skip(k + 1));
        let raw_s = string_of(raw.as_slice());
        non_empty(raw_s.as_str(), "device id")?;
        let kind = if chars_eq_str(prefix.as_slice(), "android") {
            DeviceKind::Android
        } else if chars_eq_str(prefix.as_slice(), "ios") {
            DeviceKind::Ios
        } else {
            return Err(AppError::InvalidInput(String::from_str("unknown device platform")));
        };
        Ok(DeviceId { kind, raw: raw_s })
    }

    /// The web id: `android:<raw>` or `ios:<raw>`.
    pub fn web_id(&self) -> (s: String)
        ensures
            s@ == web_id_of(self.kind, self.raw@),
    {
        let mut s = match self.kind {
            DeviceKind::Android => String::from_str("android:"),
            DeviceKind::Ios => String::from_str("ios:"),
        };
        s.append(self.raw.as_str());
        s
    }
}

/// A character found by `split_once` is the first of its kind.
proof fn lemma_split_once_at(s: Seq<char>, c: char, k: int)
    requires
        0 <= k < s.len(),
        s[k] == c,
        forall|i: int| 0 <= i < k ==> s[i] != c,
    ensures
        split_once(s, c) == Some((s.take(k), s.skip(k + 1))),
{
    assert(s.subrange(k, k + 1) =~= seq![c]);
    assert forall|i: int| 0 <= i < k implies !#[trigger] crate::text::occurs_at(s, seq![c], i) by {
        assert(s.subrange(i, i + 1)[0] == s[i]);
    }
    crate::text::lemma_find_first(s, seq![c], k);
}

/// Reading the web id of a device gives back the device: for every kind and
/// every raw id that is not blank, parsing `web_id_of(kind, raw)` yields
/// `(kind, raw)`.
pub proof fn law_parse_web_id(kind: DeviceKind, raw: Seq<char>)
    requires
        !is_blank(raw),
    ensures
        parse_device_id(web_id_of(kind, raw)) == Ok::<(DeviceKind, Seq<char>), Seq<char>>((kind, raw)),
{
    reveal_strlit("android:");
    reveal_strlit("ios:");
    reveal_strlit("android");
    reveal_strlit("ios");
    let s = web_id_of(kind, raw);
    let pre = kind_prefix(kind);
    let k = pre.len() - 1;
    assert forall|i: int| 0 <= i < k implies s[i] != ':' by {
        assert(s[i] == pre[i]);
    }
    assert(s[k] == ':');
    lemma_split_once_at(s, ':', k);
    assert(s.skip(k + 1) =~= raw);
    match kind {
        DeviceKind::Android => {
            assert(s.take(k) =~= "android"@);
        },
        DeviceKind::Ios => {
            assert(s.take(k) =~= "ios"@);
            assert(s.take(k) != "android"@);
        },
    }
}

/// A web id that parses is exactly the web id of what it parses to.
pub proof fn law_web_id_of_parsed(s: Seq<char>)
    requires
        parse_device_id(s) is Ok,
    ensures
        web_id_of(parse_device_id(s)->Ok_0.0, parse_device_id(s)->Ok_0.1) == s,
{
    reveal_strlit("android:");
    reveal_strlit("ios:");
    reveal_strlit("android");
    reveal_strlit("ios");
    let k = find(s, seq![':'])->Some_0;
    crate::text::lemma_find_from_bounds(s, seq![':'], 0);
    assert(s.subrange(k, k + 1)[0] == s[k]);
    let (kind, raw) = parse_device_id(s)->Ok_0;
    assert(s =~= s.take(k).push(':') + s.skip(k + 1));
    assert(raw == s.skip(k + 1));
    if kind == DeviceKind::Android {
        assert(s.take(k) == "android"@);
        assert(kind_prefix(kind) =~= s.take(k).push(':'));
    } else {
        assert(s.take(k) == "ios"@);
        assert(kind_prefix(kind) =~= s.take(k).push(':'));
    }
    assert(web_id_of(kind, raw) =~= s);
}

/// A device as the device list reports it.
#[derive(Clone, Debug, PartialEq, Eq)]
pub struct Device {
    pub id: String,
    pub kind: DeviceKind,
    pub name: String,
    pub state: String,
    pub details: Vec<String>,
}

/// The mathematical value of a `Device`.
pub struct DeviceRecord {
    pub id: Seq<char>,
    pub kind: DeviceKind,
    pub name: Seq<char>,
    pub state: Seq<char>,
    pub details: Seq<Seq<char>>,
}

impl View for Device {
    type V = DeviceRecord;

    open spec fn view(&self) -> DeviceRecord {
        DeviceRecord {
            id: self.id@,
            kind: self.kind,
            name: self.name@,
            state: self.state@,
            details: strings_view(self.details@),
        }
    }
}

/// The values of a sequence of devices.
pub open spec fn devices_view(v: Seq<Device>) -> Seq<DeviceRecord> {
    v.map_values(|d: Device| d@)
}

/// The model named by the first `model:` detail, or `fallback` when none is.
pub open spec fn model_or(details: Seq<Seq<char>>, fallback: Seq<char>) -> Seq<char>
    decreases details.len(),
{
    if details.len() == 0 {
        fallback
    } else if starts_with(details[0], "model:"@) {
        details[0].skip("model:"@.len() as int)
    } else {
        model_or(details.drop_first(), fallback)
    }
}

/// The device that one line of `adb devices -l` describes: the line's first
/// word is the serial, its second the state, the rest are details; the name
/// is the model (or the serial) with `_` shown as a space.
pub open spec fn adb_line_device(line: Seq<char>) -> Option<DeviceRecord> {
    let t = trim(line);
    let w = words(t);
    if t.len() == 0 || w.len() < 2 {
        None
    } else {
        Some(
            DeviceRecord {
                id: web_id_of(DeviceKind::Android, w[0]),
                kind: DeviceKind::Android,
                name: replace_char(model_or(w.skip(2), w[0]), '_', ' '),
                state: w[1],
                details: w.skip(2),
            },
        )
    }
}

/// The devices that a sequence of lines describes, in order, with `line_device`.
pub open spec fn adb_lines_devices(ls: Seq<Seq<char>>) -> Seq<DeviceRecord>
    decreases ls.len(),
{
    if ls.len() == 0 {
        seq![]
    } else {
        let r = adb_lines_devices(ls.drop_last());
        match adb_line_device(ls.last()) {
            Some(d) => r.push(d),
            None => r,
        }
    }
}

/// What `parse_adb_devices` returns for the output `s` of `adb devices -l`:
/// the devices of the lines after the first (the header).
pub open spec fn adb_devices_listed(s: Seq<char>) -> Seq<DeviceRecord> {
    let ls = lines(s);
    if ls.len() == 0 {
        seq![]
    } else {
        adb_lines_devices(ls.drop_first())
    }
}

/// The model detail's value, or `fallback`.
fn model_or_exec(details: &[Vec<char>], fallback: &Vec<char>) -> (r: Vec<char>)
    ensures
        r@ == model_or(views(details@), fallback@),
{
    let mut i: usize = 0;
    assert(views(details@).skip(0) =~= views(details@));
    while i < details.len()
        invariant
            i <= details@.len(),
            model_or(views(details@), fallback@) == model_or(
                views(details@).skip(i as int),
                fallback@,
            ),
        decreases details@.len() - i,
    {
        let ghost rest = views(details@).skip(i as int);
        assert(rest[0] == details@[i as int]@);
        if chars_start_with(details[i].as_slice(), "model:") {
            let d = &details[i];
            let n = d.len();
            let plen = chars_of("model:").len();
            return slice_chars(d.as_slice(), plen, n);
        }
        assert(rest.drop_first() =~= views(details@).skip(i + 1));
        i = i + 1;
    }
    assert(views(details@).skip(i as int) =~= Seq::<Seq<char>>::empty());
    slice_chars(fallback.as_slice(), 0, fallback.len())
}

/// A new `String` holding the web id of an Android device.
fn android_web_id(raw: &[char]) -> (s: String)
    ensures
        s@ == web_id_of(DeviceKind::Android, raw@),
{
    let mut s = String::from_str("android:");
    crate::text::push_chars(&mut s, raw);
    s
}

/// The device on one line of `adb devices -l` output, if the line names one.
pub(crate) fn adb_line_device_exec(line: &Vec<char>) -> (r: Option<Device>)
    ensures
        match r {
            Some(d) => adb_line_device(line@) == Some(d@),
            None => adb_line_device(line@) is None,
        },
{
    let t = trim_chars(line.as_slice());
    if t.len() == 0 {
        return None;
    }
    let w = words_of(t.as_slice());
    if w.len() < 2 {
        return None;
    }
    let serial = &w[0];
    let state = &w[1];
    let rest = split_tail(&w, 2);
    let model = model_or_exec(rest.as_slice(), serial);
    let name = replace_chars(model.as_slice(), '_', ' ');
    let details = crate::text::strings_of(rest.as_slice());
    let d = Device {
        id: android_web_id(serial.as_slice()),
        kind: DeviceKind::Android,
        name: string_of(name.as_slice()),
        state: string_of(state.as_slice()),
        details,
    };
    proof {
        assert(views(w@)[0] == w@[0]@);
        assert(views(w@)[1] == w@[1]@);
        assert(views(rest@) =~= views(w@).skip(2));
    }
    Some(d)
}

/// Copies of the elements of `v` from index `from` on.
fn split_tail(v: &Vec<Vec<char>>, from: usize) -> (r: Vec<Vec<char>>)
    requires
        from <= v@.len(),
    ensures
        views(r@) == views(v@).skip(from as int),
{
    let mut r: Vec<Vec<char>> = Vec::new();
    let mut i = from;
    while i < v.len()
        invariant
            from <= i <= v@.len(),
            views(r@) =~= views(v@).subrange(from as int, i as int),
        decreases v@.len() - i,
    {
        let x = slice_chars(v[i].as_slice(), 0, v[i].len());
        assert(x@ =~= v@[i as int]@);
        let ghost before = r@;
        r.push(x);
        assert(views(r@) =~= views(before).push(x@));
        assert(views(v@).subrange(from as int, i + 1) =~= views(v@).subrange(from as int, i as int).push(
            v@[i as int]@,
        ));
        i = i + 1;
    }
    r
}

/// Parses the output of `adb devices -l`: every line after the header that
/// holds at least a serial and a state becomes an Android device.
pub fn parse_adb_devices(input: &str) -> (r: Vec<Device>)
    ensures
        devices_view(r@) == adb_devices_listed(input@),
{
    let cs = chars_of(input);
    let ls = lines_of(cs.as_slice());
    let mut out: Vec<Device> = Vec::new();
    if ls.len() == 0 {
        return out;
    }
    let ghost body = views(ls@).drop_first();
    let mut j: usize = 1;
    while j < ls.len()
        invariant
            1 <= j <= ls@.len(),
            body == views(ls@).drop_first(),
            devices_view(out@) == adb_lines_devices(body.take(j - 1)),
        decreases ls@.len() - j,
    {
        let d = adb_line_device_exec(&ls[j]);
        proof {
            assert(body.take(j as int).drop_last() =~= body.take(j - 1));
            assert(body.take(j as int).last() == ls@[j as int]@);
        }
        match d {
            Some(d) => {
                out.push(d);
                proof {
                    assert(devices_view(out@) =~= adb_lines_devices(body.take(j - 1)).push(
                        out@.last()@,
                    ));
                }
            },
            None => {},
        }
        j = j + 1;
    }
    assert(body.take(j - 1) =~= body);
    out
}

/// The device that one line of `emulator -list-avds` names: a shut down
/// Android virtual device whose name shows `_` as a space.
pub open spec fn avd_line_device(line: Seq<char>) -> Option<DeviceRecord> {
    let avd = trim(line);
    if avd.len() == 0 {
        None
    } else {
        Some(
            DeviceRecord {
                id: web_id_of(DeviceKind::Android, avd),
                kind: DeviceKind::Android,
                name: replace_char(avd, '_', ' '),
                state: "Shutdown"@,
                details: seq!["avd"@],
            },
        )
    }
}

pub open spec fn avd_lines_devices(ls: Seq<Seq<char>>) -> Seq<DeviceRecord>
    decreases ls.len(),
{
    if ls.len() == 0 {
        seq![]
    } else {
        let r = avd_lines_devices(ls.drop_last());
        match avd_line_device(ls.last()) {
            Some(d) => r.push(d),
            None => r,
        }
    }
}

/// Parses the output of `emulator -list-avds`: every non-blank line names a
/// shut down Android virtual device.
pub fn parse_android_avds(input: &str) -> (r: Vec<Device>)
    ensures
        devices_view(r@) == avd_lines_devices(lines(input@)),
{
    let cs = chars_of(input);
    let ls = lines_of(cs.as_slice());
    let ghost all = views(ls@);
    let mut out: Vec<Device> = Vec::new();
    let mut j: usize = 0;
    while j < ls.len()
        invariant
            j <= ls@.len(),
            all == views(ls@),
            devices_view(out@) == avd_lines_devices(all.take(j as int)),
        decreases ls@.len() - j,
    {
        proof {
            assert(all.take(j + 1).drop_last() =~= all.take(j as int));
            assert(all.take(j + 1).last() == ls@[j as int]@);
        }
        let avd = trim_chars(ls[j].as_slice());
        if avd.len() > 0 {
            let mut details: Vec<String> = Vec::new();
            details.push(String::from_str("avd"));
            let name = replace_chars(avd.as_slice(), '_', ' ');
            let d = Device {
                id: android_web_id(avd.as_slice()),
                kind: DeviceKind::Android,
                name: string_of(name.as_slice()),
                state: String::from_str("Shutdown"),
                details,
            };
            proof {
                assert(strings_view(d.details@) =~= seq!["avd"@]);
            }
            let ghost before = out@;
            out.push(d);
            proof {
                assert(devices_view(out@) =~= devices_view(before).push(d@));
            }
        }
        j = j + 1;
    }
    assert(all.take(j as int) =~= all);
    out
}

/// One simulator as `simctl list devices --json` describes it.
pub struct SimctlDevice {
    pub name: String,
    pub udid: String,
    pub state: String,
    pub is_available: Option<bool>,
    pub availability_error: Option<String>,
}

/// The simulators of one runtime, under the runtime's identifier.
pub struct SimctlRuntime {
    pub runtime: String,
    pub devices: Vec<SimctlDevice>,
}

/// The device that a simulator entry becomes: entries marked unavailable are
/// left out, and so, when `booted_only`, are entries not in state `Booted`.
/// The details are the runtime, then the availability error if there is one.
pub open spec fn simctl_entry_device(
    runtime: Seq<char>,
    d: SimctlDevice,
    booted_only: bool,
) -> Option<DeviceRecord> {
    if d.is_available == Some(false) || (booted_only && d.state@ != "Booted"@) {
        None
    } else {
        Some(
            DeviceRecord {
                id: web_id_of(DeviceKind::Ios, d.udid@),
                kind: DeviceKind::Ios,
                name: d.name@,
                state: d.state@,
                details: match d.availability_error {
                    Some(e) => seq![runtime, e@],
                    None => seq![runtime],
                },
            },
        )
    }
}

pub open spec fn simctl_runtime_devices(
    runtime: Seq<char>,
    ds: Seq<SimctlDevice>,
    booted_only: bool,
) -> Seq<DeviceRecord>
    decreases ds.len(),
{
    if ds.len() == 0 {
        seq![]
    } else {
        let r = simctl_runtime_devices(runtime, ds.drop_last(), booted_only);
        match simctl_entry_device(runtime, ds.last(), booted_only) {
            Some(d) => r.push(d),
            None => r,
        }
    }
}

/// The devices of all runtimes, runtime by runtime, in the order given.
pub open spec fn simctl_devices(rs: Seq<SimctlRuntime>, booted_only: bool) -> Seq<DeviceRecord>
    decreases rs.len(),
{
    if rs.len() == 0 {
        seq![]
    } else {
        simctl_devices(rs.drop_last(), booted_only) + simctl_runtime_devices(
            rs.last().runtime@,
            rs.last().devices@,
            booted_only,
        )
    }
}

fn clone_string(s: &String) -> (r: String)
    ensures
        r@ == s@,
{
    String::from_str(s.as_str())
}

/// The devices of the simulator listing, runtime by runtime.
pub fn collect_simctl_devices(runtimes: &Vec<SimctlRuntime>, booted_only: bool) -> (r: Vec<Device>)
    ensures
        devices_view(r@) == simctl_devices(runtimes@, booted_only),
{
    let mut out: Vec<Device> = Vec::new();
    let mut i: usize = 0;
    while i < runtimes.len()
        invariant
            i <= runtimes@.len(),
            devices_view(out@) == simctl_devices(runtimes@.take(i as int), booted_only),
        decreases runtimes@.len() - i,
    {
        let rt = &runtimes[i];
        let ghost before_rt = devices_view(out@);
        let mut j: usize = 0;
        while j < rt.devices.len()
            invariant
                j <= rt.devices@.len(),
                devices_view(out@) == before_rt + simctl_runtime_devices(
                    rt.runtime@,
                    rt.devices@.take(j as int),
                    booted_only,
                ),
            decreases rt.devices@.len() - j,
        {
            let d = &rt.devices[j];
            proof {
                assert(rt.devices@.take(j + 1).drop_last() =~= rt.devices@.take(j as int));
                assert(rt.devices@.take(j + 1).last() == *d);
            }
            let unavailable = match d.is_available {
                Some(false) => true,
                _ => false,
            };
            let skip = unavailable || (booted_only && !chars_eq_str(
                chars_of(d.state.as_str()).as_slice(),
                "Booted",
            ));
            if !skip {
                let mut details: Vec<String> = Vec::new();
                details.push(clone_string(&rt.runtime));
                match &d.availability_error {
                    Some(e) => details.push(clone_string(e)),
                    None => {},
                }
                let dev = Device {
                    id: {
                        let mut s = String::from_str("ios:");
                        s.append(d.udid.as_str());
                        s
                    },
                    kind: DeviceKind::Ios,
                    name: clone_string(&d.name),
                    state: clone_string(&d.state),
                    details,
                };
                proof {
                    match &d.availability_error {
                        Some(e) => {
                            assert(strings_view(dev.details@) =~= seq![rt.runtime@, e@]);
                        },
                        None => {
                            assert(strings_view(dev.details@) =~= seq![rt.runtime@]);
                        },
                    }
                }
                let ghost before = out@;
                out.push(dev);
                proof {
                    assert(devices_view(out@) =~= devices_view(before).push(dev@));
                }
            }
            j = j + 1;
        }
        proof {
            assert(rt.devices@.take(rt.devices@.len() as int) =~= rt.devices@);
            assert(runtimes@.take(i + 1).drop_last() =~= runtimes@.take(i as int));
            assert(runtimes@.take(i + 1).last() == *rt);
        }
        i = i + 1;
    }
    assert(runtimes@.take(i as int) =~= runtimes@);
    out
}

/// The devices of a decoded `simctl list devices --json` listing: every
/// simulator not marked unavailable.
pub fn devices_from_simctl(runtimes: &Vec<SimctlRuntime>) -> (r: Vec<Device>)
    ensures
        devices_view(r@) == simctl_devices(runtimes@, false),
{
    collect_simctl_devices(runtimes, false)
}

/// An image captured from a device, with its media type.
#[derive(Clone, Debug, PartialEq, Eq)]
pub struct Screenshot {
    pub content_type: &'static str,
    pub bytes: Vec<u8>,
}

/// A tap at `(x, y)` in the coordinates of an image `source_width` by
/// `source_height` pixels, when those are given.
#[derive(Clone, Debug)]
pub struct TapRequest {
    pub x: u32,
    pub y: u32,
    pub source_width: Option<u32>,
    pub source_height: Option<u32>,
}

/// A swipe from `(x1, y1)` to `(x2, y2)`.
#[derive(Clone, Debug)]
pub struct SwipeRequest {
    pub x1: u32,
    pub y1: u32,
    pub x2: u32,
    pub y2: u32,
    pub duration_ms: Option<u32>,
    pub source_width: Option<u32>,
    pub source_height: Option<u32>,
}

/// The phase of a pointer gesture.
#[derive(Clone, Copy, Debug)]
pub enum MotionAction {
    Down,
    Move,
    Up,
}

/// One step of a pointer gesture.
#[derive(Clone, Debug)]
pub struct MotionRequest {
    pub action: MotionAction,
    pub x: u32,
    pub y: u32,
    pub source_width: Option<u32>,
    pub source_height: Option<u32>,
}

/// Text to type.
#[derive(Clone, Debug)]
pub struct TextRequest {
    pub text: String,
}

/// A key to press.
#[derive(Clone, Debug)]
pub struct KeyRequest {
    pub key: String,
}

/// An app package to install.
#[derive(Clone, Debug)]
pub struct AppInstallRequest {
    pub path: std::path::PathBuf,
}

/// An app to launch.
#[derive(Clone, Debug)]
pub struct AppLaunchRequest {
    pub app_id: String,
}

/// An app to stop.
#[derive(Clone, Debug)]
pub struct AppTerminateRequest {
    pub app_id: String,
}

/// How many log lines to read.
#[derive(Clone, Debug)]
pub struct LogRequest {
    pub lines: Option<u32>,
}

/// Where to store a screen recording.
#[derive(Clone, Debug)]
pub struct RecordRequest {
    pub output_path: Option<std::path::PathBuf>,
}

/// What can drive devices.
pub trait DeviceController {

}

/// The size of a simulator screen in points.
#[derive(Clone, Copy, Debug, PartialEq, Eq)]
pub struct PointDimensions {
    pub width: u32,
    pub height: u32,
}

/// A character that needs no quoting in a shell word.
pub open spec fn is_shell_plain(c: char) -> bool {
    is_alnum(c) || c == '_' || c == '-' || c == '.' || c == '%' || c == ':' || c == '/' || c == ','
}

pub open spec fn all_shell_plain(s: Seq<char>) -> bool {
    forall|i: int| 0 <= i < s.len() ==> is_shell_plain(#[trigger] s[i])
}

/// `s` with every `'` written as `'\''`.
pub open spec fn escape_single_quotes(s: Seq<char>) -> Seq<char>
    decreases s.len(),
{
    if s.len() == 0 {
        seq![]
    } else {
        escape_single_quotes(s.drop_last()) + if s.last() == '\'' {
            seq!['\'', '\\', '\'', '\'']
        } else {
            seq![s.last()]
        }
    }
}

/// `s` between single quotes, each `'` inside written as `'\''`.
pub open spec fn single_quoted(s: Seq<char>) -> Seq<char> {
    seq!['\''] + escape_single_quotes(s) + seq!['\'']
}

/// What `shell_quote` returns: the value itself when every character is plain,
/// else the value in single quotes.
pub open spec fn shell_quoted(s: Seq<char>) -> Seq<char> {
    if all_shell_plain(s) {
        s
    } else {
        single_quoted(s)
    }
}

/// Quotes a value for a POSIX shell command line.
pub fn shell_quote(value: &str) -> (r: String)
    ensures
        r@ == shell_quoted(value@),
{
    let cs = chars_of(value);
    let mut plain = true;
    let mut i: usize = 0;
    while i < cs.len()
        invariant
            i <= cs@.len(),
            plain == (forall|k: int| 0 <= k < i ==> is_shell_plain(#[trigger] cs@[k])),
        decreases cs@.len() - i,
    {
        let c = cs[i];
        if !(crate::text::ascii_alnum(c) || c == '_' || c == '-' || c == '.' || c == '%' || c == ':'
            || c == '/' || c == ',') {
            plain = false;
        }
        i = i + 1;
    }
    if plain {
        return string_of(cs.as_slice());
    }
    let mut out = String::new();
    out.push('\'');
    let mut j: usize = 0;
    while j < cs.len()
        invariant
            j <= cs@.len(),
            out@ == seq!['\''] + escape_single_quotes(cs@.take(j as int)),
        decreases cs@.len() - j,
    {
        let c = cs[j];
        proof {
            assert(cs@.take(j + 1).drop_last() =~= cs@.take(j as int));
            assert(cs@.take(j + 1).last() == c);
        }
        if c == '\'' {
            out.push('\'');
            out.push('\\');
            out.push('\'');
            out.push('\'');
        } else {
            out.push(c);
        }
        proof {
            assert(out@ =~= seq!['\''] + escape_single_quotes(cs@.take(j + 1)));
        }
        j = j + 1;
    }
    out.push('\'');
    assert(cs@.take(j as int) =~= cs@);
    assert(out@ =~= single_quoted(cs@));
    out
}

/// `a` saturating minus `b`.
pub open spec fn saturating_sub(a: int, b: int) -> int {
    if a > b {
        a - b
    } else {
        0
    }
}

/// `value` scaled from a range of `source` to one of `target`, and kept below
/// `target`: `min(value * target / source, target - 1)` (saturating at 0).
pub open spec fn scaled_coordinate(value: int, source: int, target: int) -> int {
    let scaled = value * target / source;
    let cap = saturating_sub(target, 1);
    if scaled < cap {
        scaled
    } else {
        cap
    }
}

/// Maps a coordinate in an image `source` pixels wide to a screen `target` points wide.
pub fn scale_coordinate(value: u32, source: u32, target: u32) -> (r: u32)
    requires
        source > 0,
    ensures
        r == scaled_coordinate(value as int, source as int, target as int),
{
    assert(value as int * target as int <= u32::MAX as int * u32::MAX as int) by (nonlinear_arith)
        requires
            value <= u32::MAX,
            target <= u32::MAX,
    ;
    let product = value as u64 * target as u64;
    let scaled = product / source as u64;
    let cap = target.saturating_sub(1);
    if scaled < cap as u64 {
        scaled as u32
    } else {
        cap
    }
}

/// A point of the image always lands on the screen: its scaled coordinate is
/// below `target`; scaling keeps the order of points; and when the image is
/// as large as the screen, a point of the image stays where it is.
pub proof fn law_scaled_point_on_screen(v1: int, v2: int, source: int, target: int)
    requires
        source > 0,
        target > 0,
        0 <= v1 <= v2,
    ensures
        0 <= scaled_coordinate(v1, source, target) < target,
        scaled_coordinate(v1, source, target) <= scaled_coordinate(v2, source, target),
        v1 < source && source == target ==> scaled_coordinate(v1, source, target) == v1,
{
    assert(0 <= v1 * target / source) by (nonlinear_arith)
        requires
            source > 0,
            target > 0,
            v1 >= 0,
    ;
    assert(v1 * target / source <= v2 * target / source) by (nonlinear_arith)
        requires
            source > 0,
            target > 0,
            0 <= v1 <= v2,
    {
        assert(v1 * target <= v2 * target);
        vstd::arithmetic::div_mod::lemma_div_is_ordered(v1 * target, v2 * target, source);
    }
    if source == target {
        assert(v1 * target / source == v1) by (nonlinear_arith)
            requires
                source > 0,
                source == target,
                v1 >= 0,
        {
            vstd::arithmetic::div_mod::lemma_div_by_multiple(v1, source);
        }
    }
}

/// The word that `input motionevent` takes for a gesture phase.
pub open spec fn motion_action_word(action: MotionAction) -> Seq<char> {
    match action {
        MotionAction::Down => "DOWN"@,
        MotionAction::Move => "MOVE"@,
        MotionAction::Up => "UP"@,
    }
}

pub fn android_motion_action(action: MotionAction) -> (r: &'static str)
    ensures
        r@ == motion_action_word(action),
{
    match action {
        MotionAction::Down => "DOWN",
        MotionAction::Move => "MOVE",
        MotionAction::Up => "UP",
    }
}

/// `endpoint` without a leading `http://` or `https://`.
pub open spec fn without_scheme(endpoint: Seq<char>) -> Seq<char> {
    if starts_with(endpoint, "http://"@) {
        endpoint.skip("http://"@.len() as int)
    } else if starts_with(endpoint, "https://"@) {
        endpoint.skip("https://"@.len() as int)
    } else {
        endpoint
    }
}

/// The text before the first `/`.
pub open spec fn before_slash(s: Seq<char>) -> Seq<char> {
    match find(s, seq!['/']) {
        Some(k) => s.take(k),
        None => s,
    }
}

/// The port that an emulator gRPC endpoint names: the number after the last
/// `:` of the authority (the part before the first `/`, after the scheme).
pub open spec fn endpoint_port(endpoint: Seq<char>) -> Option<nat> {
    let authority = before_slash(without_scheme(endpoint));
    match rfind_char(authority, ':') {
        Some(k) => parse_unsigned(authority.skip(k + 1), 65535),
        None => None,
    }
}

/// Strips `prefix` from `cs` when `cs` starts with it.
fn strip_prefix_chars(cs: &[char], prefix: &str) -> (r: Option<Vec<char>>)
    ensures
        r matches Some(v) ==> starts_with(cs@, prefix@) && v@ == cs@.skip(prefix@.len() as int),
        r is None ==> !starts_with(cs@, prefix@),
{
    if chars_start_with(cs, prefix) {
        let n = cs.len();
        let p = chars_of(prefix);
        Some(slice_chars(cs, p.len(), n))
    } else {
        None
    }
}

/// The gRPC port named by an Android emulator endpoint such as `http://127.0.0.1:8554`.
pub fn android_grpc_port_from_endpoint(endpoint: &str) -> (r: Option<u16>)
    ensures
        match endpoint_port(endpoint@) {
            Some(p) => r == Some(p as u16) && p <= 65535,
            None => r is None,
        },
{
    let cs = chars_of(endpoint);
    let rest = match strip_prefix_chars(cs.as_slice(), "http://") {
        Some(v) => v,
        None => match strip_prefix_chars(cs.as_slice(), "https://") {
            Some(v) => v,
            None => cs,
        },
    };
    let slash = vec!['/'];
    assert(slash@ =~= seq!['/']);
    let authority = match find_chars(rest.as_slice(), slash.as_slice()) {
        Some(k) => {
            proof {
                crate::text::lemma_find_from_bounds(rest@, slash@, 0);
            }
            slice_chars(rest.as_slice(), 0, k)
        },
        None => rest,
    };
    assert(authority@ == before_slash(without_scheme(endpoint@)));
    match rfind_char_exec(authority.as_slice(), ':') {
        Some(k) => {
            let n = authority.len();
            let port = slice_chars(authority.as_slice(), k + 1, n);
            match parse_unsigned_chars(port.as_slice(), 65535) {
                Some(p) => Some(p as u16),
                None => None,
            }
        },
        None => None,
    }
}

/// The number after `key` in `input`: the first occurrence of `key`, then
/// optional whitespace, an optional `=`, optional whitespace, and the digits
/// that follow.
pub open spec fn idb_dimension(input: Seq<char>, key: Seq<char>) -> Option<nat> {
    match find(input, key) {
        None => None,
        Some(k) => {
            let rest = trim_start(input.skip(k + key.len()));
            let rest = if starts_with(rest, seq!['=']) {
                rest.drop_first()
            } else {
                rest
            };
            let rest = trim_start(rest);
            parse_unsigned(rest.take(lead_digits(rest) as int), u32::MAX as nat)
        },
    }
}

/// A dimension that `idb describe` writes as `<key>=<n>` reads back as `n`,
/// when `key` occurs nowhere earlier and the number is followed by nothing or
/// by a character that is not a digit.
pub proof fn law_idb_dimension_reads_back(prefix: Seq<char>, key: Seq<char>, n: nat, rest: Seq<char>)
    requires
        n <= u32::MAX,
        forall|i: int| 0 <= i < prefix.len() ==> !#[trigger] crate::text::occurs_at(prefix + key, key, i),
        rest.len() == 0 || !crate::text::is_digit(rest[0]),
    ensures
        idb_dimension(prefix + key + seq!['='] + decimal(n) + rest, key) == Some(n),
{
    let d = decimal(n);
    crate::text::lemma_decimal_digits(n);
    let s = prefix + key + seq!['='] + d + rest;
    let pk = prefix + key;
    let k = prefix.len() as int;
    assert(s.subrange(k, k + key.len()) =~= key);
    assert forall|i: int| 0 <= i < k implies !#[trigger] crate::text::occurs_at(s, key, i) by {
        assert(s.subrange(i, i + key.len()) =~= pk.subrange(i, i + key.len()));
        assert(!crate::text::occurs_at(pk, key, i));
    }
    crate::text::lemma_find_first(s, key, k);
    let after = s.skip(k + key.len());
    assert(after =~= seq!['='] + d + rest);
    crate::text::lemma_lead_ws(after, 0);
    assert(trim_start(after) =~= after);
    assert(after.take(1) =~= seq!['=']);
    assert(starts_with(after, seq!['=']));
    let r1 = after.drop_first();
    assert(r1 =~= d + rest);
    assert(!crate::text::is_ws(r1[0]));
    crate::text::lemma_lead_ws(r1, 0);
    assert(trim_start(r1) =~= r1);
    assert forall|j: int| 0 <= j < d.len() implies crate::text::is_digit(#[trigger] r1[j]) by {
        assert(r1[j] == d[j]);
    }
    if rest.len() > 0 {
        assert(r1[d.len() as int] == rest[0]);
    }
    crate::text::lemma_lead_digits(r1, d.len() as int);
    assert(r1.take(d.len() as int) =~= d);
    crate::text::law_decimal_reads_back(n, u32::MAX as nat);
}

/// Reads the number after `key` in `idb describe` output.
pub fn parse_idb_dimension(input: &str, key: &str) -> (r: Option<u32>)
    ensures
        match idb_dimension(input@, key@) {
            Some(v) => r == Some(v as u32) && v <= u32::MAX,
            None => r is None,
        },
{
    let cs = chars_of(input);
    let kv = chars_of(key);
    let k = match find_chars(cs.as_slice(), kv.as_slice()) {
        Some(k) => k,
        None => return None,
    };
    proof {
        crate::text::lemma_find_from_bounds(cs@, kv@, 0);
    }
    let n = cs.len();
    let after = slice_chars(cs.as_slice(), k + kv.len(), n);
    let rest = trim_start_chars(after.as_slice());
    let eq = vec!['='];
    assert(eq@ =~= seq!['=']);
    let rest = if chars_starts_with_chars(rest.as_slice(), eq.as_slice()) {
        let m = rest.len();
        slice_chars(rest.as_slice(), 1, m)
    } else {
        rest
    };
    let rest = trim_start_chars(rest.as_slice());
    let digits = leading_digits(rest.as_slice());
    parse_unsigned_chars(digits.as_slice(), u32::MAX)
}

/// Whether the characters `s` begin with the characters `p`.
fn chars_starts_with_chars(s: &[char], p: &[char]) -> (r: bool)
    ensures
        r == starts_with(s@, p@),
{
    if p.len() > s.len() {
        return false;
    }
    let n = p.len();
    let head = slice_chars(s, 0, n);
    crate::text::chars_equal(head.as_slice(), p)
}

/// The screen size that `idb describe` reports in `width_points` and `height_points`.
pub fn parse_idb_point_dimensions(input: &str) -> (r: Option<PointDimensions>)
    ensures
        match (idb_dimension(input@, "width_points"@), idb_dimension(input@, "height_points"@)) {
            (Some(w), Some(h)) => r == Some(PointDimensions { width: w as u32, height: h as u32 }),
            _ => r is None,
        },
{
    let width = parse_idb_dimension(input, "width_points")?;
    let height = parse_idb_dimension(input, "height_points")?;
    Some(PointDimensions { width, height })
}

/// The screen size that `idb describe` writes as
/// `width_points=<w> height_points=<h>` reads back as `w` by `h`.
pub proof fn law_idb_point_dimensions_read_back(w: nat, h: nat)
    requires
        w <= u32::MAX,
        h <= u32::MAX,
    ensures
        idb_dimension("width_points="@ + decimal(w) + " height_points="@ + decimal(h), "width_points"@)
            == Some(w),
        idb_dimension("width_points="@ + decimal(w) + " height_points="@ + decimal(h), "height_points"@)
            == Some(h),
{
    reveal_strlit("width_points=");
    reveal_strlit(" height_points=");
    reveal_strlit("width_points");
    reveal_strlit("height_points");
    let wk = "width_points"@;
    let hk = "height_points"@;
    let dw = decimal(w);
    let dh = decimal(h);
    crate::text::lemma_decimal_digits(w);
    crate::text::lemma_decimal_digits(h);
    let input = "width_points="@ + dw + " height_points="@ + dh;
    let rest_w = seq![' '] + hk + seq!['='] + dh;
    assert(input =~= Seq::<char>::empty() + wk + seq!['='] + dw + rest_w);
    law_idb_dimension_reads_back(Seq::<char>::empty(), wk, w, rest_w);
    let prefix = wk + seq!['='] + dw + seq![' '];
    assert(input =~= prefix + hk + seq!['='] + dh + Seq::<char>::empty());
    assert forall|i: int| 0 <= i < prefix.len() implies !#[trigger] crate::text::occurs_at(prefix + hk, hk, i) by {
        let pk = prefix + hk;
        if crate::text::occurs_at(pk, hk, i) {
            assert(pk.subrange(i, i + hk.len())[0] == hk[0]);
            assert(pk.subrange(i, i + hk.len())[1] == hk[1]);
            assert(pk[i] == 'h');
            assert(pk[i + 1] == 'e');
            if i < wk.len() {
                assert(pk[i] == wk[i]);
            } else if i == wk.len() {
                assert(pk[i] == '=');
            } else if i < wk.len() + 1 + dw.len() {
                assert(pk[i] == dw[i - wk.len() - 1]);
            } else {
                assert(pk[i] == ' ');
            }
        }
    }
    law_idb_dimension_reads_back(prefix, hk, h, Seq::<char>::empty());
}

/// The simulator hardware button that a key name presses, if any.
pub open spec fn ios_button(key: Seq<char>) -> Option<Seq<char>> {
    if upper_eq(key, "HOME"@) {
        Some("HOME"@)
    } else if upper_eq(key, "LOCK"@) || upper_eq(key, "SLEEP"@) {
        Some("LOCK"@)
    } else if upper_eq(key, "SIRI"@) {
        Some("SIRI"@)
    } else if upper_eq(key, "SIDE_BUTTON"@) || upper_eq(key, "SIDE-BUTTON"@) {
        Some("SIDE_BUTTON"@)
    } else if upper_eq(key, "APPLE_PAY"@) || upper_eq(key, "APPLE-PAY"@) {
        Some("APPLE_PAY"@)
    } else if upper_eq(key, "BACK"@) {
        Some("HOME"@)
    } else {
        None
    }
}

/// The `idb ui button` that a key name stands for (ignoring ASCII case).
pub fn ios_button_for_key(key: &str) -> (r: Option<&'static str>)
    ensures
        match ios_button(key@) {
            Some(b) => r matches Some(s) && s@ == b,
            None => r is None,
        },
{
    let k = chars_of(key);
    let ks = k.as_slice();
    if upper_equals(ks, "HOME") {
        Some("HOME")
    } else if upper_equals(ks, "LOCK") || upper_equals(ks, "SLEEP") {
        Some("LOCK")
    } else if upper_equals(ks, "SIRI") {
        Some("SIRI")
    } else if upper_equals(ks, "SIDE_BUTTON") || upper_equals(ks, "SIDE-BUTTON") {
        Some("SIDE_BUTTON")
    } else if upper_equals(ks, "APPLE_PAY") || upper_equals(ks, "APPLE-PAY") {
        Some("APPLE_PAY")
    } else if upper_equals(ks, "BACK") {
        Some("HOME")
    } else {
        None
    }
}

/// Whether a key name asks for the app switcher (ignoring ASCII case).
pub open spec fn is_app_switch_key(key: Seq<char>) -> bool {
    upper_eq(key, "APP_SWITCH"@) || upper_eq(key, "RECENTS"@)
}

pub fn is_ios_app_switch_key(key: &str) -> (r: bool)
    ensures
        r == is_app_switch_key(key@),
{
    let k = chars_of(key);
    upper_equals(k.as_slice(), "APP_SWITCH") || upper_equals(k.as_slice(), "RECENTS")
}

/// The number of characters before the first `'` in `s`.
pub open spec fn unquoted_run(s: Seq<char>) -> nat
    decreases s.len(),
{
    if s.len() > 0 && s[0] != '\'' {
        1 + unquoted_run(s.drop_first())
    } else {
        0
    }
}

pub proof fn lemma_unquoted_run(s: Seq<char>, j: int)
    requires
        0 <= j <= s.len(),
        forall|k: int| 0 <= k < j ==> #[trigger] s[k] != '\'',
        j == s.len() || s[j] == '\'',
    ensures
        unquoted_run(s) == j,
    decreases j,
{
    if j > 0 {
        let t = s.drop_first();
        assert forall|k: int| 0 <= k < j - 1 implies #[trigger] t[k] != '\'' by {
            assert(t[k] == s[k + 1]);
        }
        lemma_unquoted_run(t, j - 1);
    }
}

pub proof fn lemma_unquoted_run_bound(s: Seq<char>)
    ensures
        unquoted_run(s) <= s.len(),
    decreases s.len(),
{
    if s.len() > 0 && s[0] != '\'' {
        lemma_unquoted_run_bound(s.drop_first());
    }
}

/// The value a POSIX shell gives a word made of plain characters,
/// backslash-escaped characters and single-quoted runs; `None` for a word
/// with anything else or an unclosed quote.
pub open spec fn shell_word(w: Seq<char>) -> Option<Seq<char>>
    decreases w.len(),
{
    if w.len() == 0 {
        Some(seq![])
    } else if w[0] == '\'' {
        let q = unquoted_run(w.drop_first());
        proof {
            lemma_unquoted_run_bound(w.drop_first());
        }
        if q + 1 >= w.len() {
            None
        } else {
            match shell_word(w.skip(q as int + 2)) {
                Some(r) => Some(w.subrange(1, q as int + 1) + r),
                None => None,
            }
        }
    } else if w[0] == '\\' {
        if w.len() < 2 {
            None
        } else {
            match shell_word(w.skip(2)) {
                Some(r) => Some(seq![w[1]] + r),
                None => None,
            }
        }
    } else if is_shell_plain(w[0]) {
        match shell_word(w.drop_first()) {
            Some(r) => Some(seq![w[0]] + r),
            None => None,
        }
    } else {
        None
    }
}

proof fn lemma_escape_append(x: Seq<char>, y: Seq<char>)
    ensures
        escape_single_quotes(x + y) == escape_single_quotes(x) + escape_single_quotes(y),
    decreases y.len(),
{
    if y.len() == 0 {
        assert(x + y =~= x);
        assert(escape_single_quotes(x) + escape_single_quotes(y) =~= escape_single_quotes(x));
    } else {
        lemma_escape_append(x, y.drop_last());
        assert((x + y).drop_last() =~= x + y.drop_last());
        assert((x + y).last() == y.last());
    }
}

proof fn lemma_escape_unquoted(x: Seq<char>)
    requires
        forall|k: int| 0 <= k < x.len() ==> #[trigger] x[k] != '\'',
    ensures
        escape_single_quotes(x) == x,
    decreases x.len(),
{
    if x.len() > 0 {
        lemma_escape_unquoted(x.drop_last());
        assert(escape_single_quotes(x) =~= x.drop_last() + seq![x.last()]);
        assert(x.drop_last() + seq![x.last()] =~= x);
    }
}

#[verifier::spinoff_prover]
#[verifier::rlimit(40)]
proof fn lemma_shell_word_quoted(v: Seq<char>)
    ensures
        shell_word(single_quoted(v)) == Some(v),
    decreases v.len(),
{
    let w = single_quoted(v);
    let i = unquoted_run(v);
    lemma_unquoted_run_bound(v);
    let a = v.take(i as int);
    assert forall|k: int| 0 <= k < a.len() implies #[trigger] a[k] != '\'' by {
        lemma_prefix_unquoted(v, k);
    }
    lemma_escape_unquoted(a);
    if i == v.len() {
        assert(a =~= v);
        assert(w =~= seq!['\''] + v + seq!['\'']);
        let t = w.drop_first();
        assert(t =~= v + seq!['\'']);
        assert forall|k: int| 0 <= k < v.len() implies #[trigger] t[k] != '\'' by {
            assert(t[k] == a[k]);
        }
        lemma_unquoted_run(t, v.len() as int);
        assert(w.skip(v.len() as int + 2) =~= Seq::<char>::empty());
        assert(w.subrange(1, v.len() as int + 1) =~= v);
        assert(shell_word(w.skip(v.len() as int + 2)) == Some(Seq::<char>::empty()));
        assert(v + Seq::<char>::empty() =~= v);
    } else {
        lemma_quote_at_run(v);
        let b = v.skip(i as int + 1);
        assert(v =~= a + seq!['\''] + b);
        lemma_escape_append(a + seq!['\''], b);
        lemma_escape_append(a, seq!['\'']);
        assert(seq!['\''].drop_last() =~= Seq::<char>::empty());
        assert(escape_single_quotes(Seq::<char>::empty()) =~= Seq::<char>::empty());
        assert(seq!['\''].last() == '\'');
        assert(escape_single_quotes(seq!['\'']) =~= seq!['\'', '\\', '\'', '\'']);
        let e = escape_single_quotes(b);
        assert(w =~= seq!['\''] + a + seq!['\'', '\\', '\'', '\''] + e + seq!['\'']);
        let t = w.drop_first();
        assert forall|k: int| 0 <= k < a.len() implies #[trigger] t[k] != '\'' by {
            assert(t[k] == a[k]);
        }
        assert(t[a.len() as int] == '\'');
        lemma_unquoted_run(t, a.len() as int);
        assert(w.subrange(1, a.len() as int + 1) =~= a);
        let rest = w.skip(a.len() as int + 2);
        assert(rest =~= seq!['\\', '\''] + single_quoted(b));
        assert(rest.skip(2) =~= single_quoted(b));
        lemma_shell_word_quoted(b);
        assert(shell_word(rest) == Some(seq!['\''] + b));
        assert(a + (seq!['\''] + b) =~= v);
    }
}

proof fn lemma_prefix_unquoted(v: Seq<char>, k: int)
    requires
        0 <= k < unquoted_run(v),
    ensures
        v[k] != '\'',
    decreases k,
{
    lemma_unquoted_run_bound(v);
    if k > 0 {
        lemma_prefix_unquoted(v.drop_first(), k - 1);
    }
}

proof fn lemma_quote_at_run(v: Seq<char>)
    requires
        unquoted_run(v) < v.len(),
    ensures
        v[unquoted_run(v) as int] == '\'',
    decreases v.len(),
{
    if v.len() > 0 && v[0] != '\'' {
        lemma_quote_at_run(v.drop_first());
    }
}

proof fn lemma_shell_word_plain(v: Seq<char>)
    requires
        all_shell_plain(v),
    ensures
        shell_word(v) == Some(v),
    decreases v.len(),
{
    if v.len() > 0 {
        let t = v.drop_first();
        assert forall|k: int| 0 <= k < t.len() implies is_shell_plain(#[trigger] t[k]) by {
            assert(t[k] == v[k + 1]);
        }
        lemma_shell_word_plain(t);
        assert(is_shell_plain(v[0]));
        assert(seq![v[0]] + t =~= v);
    }
}

/// A quoted argument reads back as the value: for every non-empty value, a
/// POSIX shell gives the word `shell_quoted(value)` the value itself. (An
/// empty value is passed unquoted, so the shell sees no word at all.)
pub proof fn law_shell_quote_reads_back(value: Seq<char>)
    requires
        value.len() > 0,
    ensures
        shell_word(shell_quoted(value)) == Some(value),
{
    if all_shell_plain(value) {
        lemma_shell_word_plain(value);
    } else {
        lemma_shell_word_quoted(value);
    }
}

/// The port of an endpoint reads back: for a host without `/` and a port
/// number, the endpoint `http://<host>:<port>` names that port.
pub proof fn law_endpoint_port_reads_back(host: Seq<char>, port: nat)
    requires
        port <= 65535,
        forall|i: int| 0 <= i < host.len() ==> #[trigger] host[i] != '/',
    ensures
        endpoint_port("http://"@ + host + seq![':'] + decimal(port)) == Some(port),
{
    reveal_strlit("http://");
    let d = decimal(port);
    crate::text::lemma_decimal_digits(port);
    let s = "http://"@ + host + seq![':'] + d;
    let rest = host + seq![':'] + d;
    assert(s.take(7) =~= "http://"@);
    assert(s.skip(7) =~= rest);
    assert(without_scheme(s) == rest);
    assert forall|i: int| 0 <= i < rest.len() implies #[trigger] rest[i] != '/' by {
        if i < host.len() {
            assert(rest[i] == host[i]);
        } else if i > host.len() {
            assert(rest[i] == d[i - host.len() - 1]);
            assert(crate::text::is_digit(d[i - host.len() - 1]));
        }
    }
    crate::text::lemma_find_char_absent(rest, '/');
    assert(before_slash(rest) == rest);
    assert forall|i: int| 0 <= i < d.len() implies #[trigger] d[i] != ':' by {
        assert(crate::text::is_digit(d[i]));
    }
    crate::text::lemma_rfind_char_last(host, ':', d);
    assert(rest.skip(host.len() as int + 1) =~= d);
    crate::text::law_decimal_reads_back(port, 65535);
}

/// The words of a text are non-empty and hold no whitespace.
pub proof fn lemma_words_solid(s: Seq<char>)
    ensures
        forall|k: int| 0 <= k < words(s).len() ==> #[trigger] words(s)[k].len() > 0,
        forall|k: int, j: int|
            0 <= k < words(s).len() && 0 <= j < words(s)[k].len() ==> !crate::text::is_ws(
                #[trigger] words(s)[k][j],
            ),
    decreases s.len(),
{
    if s.len() > 0 {
        lemma_words_solid(s.drop_last());
        let r = words(s.drop_last());
        if crate::text::is_ws(s.last()) {
        } else if s.len() >= 2 && !crate::text::is_ws(s[s.len() - 2]) {
            let w = words(s);
            assert(r.len() > 0) by {
                lemma_words_end(s.drop_last());
            }
            assert forall|k: int, j: int|
                0 <= k < w.len() && 0 <= j < w[k].len() implies !crate::text::is_ws(
                #[trigger] w[k][j],
            ) by {
                if k < r.len() - 1 {
                    assert(w[k] == r[k]);
                } else {
                    assert(w[k] == r.last().push(s.last()));
                    if j < r.last().len() {
                        assert(w[k][j] == r[k][j]);
                    }
                }
            }
        } else {
            let w = words(s);
            assert forall|k: int, j: int|
                0 <= k < w.len() && 0 <= j < w[k].len() implies !crate::text::is_ws(
                #[trigger] w[k][j],
            ) by {
                if k < r.len() {
                    assert(w[k] == r[k]);
                }
            }
        }
    }
}

/// A text ending in a character that is not whitespace has a word.
proof fn lemma_words_end(s: Seq<char>)
    requires
        s.len() > 0,
        !crate::text::is_ws(s.last()),
    ensures
        words(s).len() > 0,
    decreases s.len(),
{
    if s.len() >= 2 && !crate::text::is_ws(s[s.len() - 2]) {
        assert(s.drop_last().last() == s[s.len() - 2]);
        lemma_words_end(s.drop_last());
    }
}

/// A solid non-empty word is not blank.
proof fn lemma_solid_not_blank(w: Seq<char>)
    requires
        w.len() > 0,
        forall|j: int| 0 <= j < w.len() ==> !crate::text::is_ws(#[trigger] w[j]),
    ensures
        !is_blank(w),
{
    crate::text::lemma_lead_ws(w, 0);
    assert(w.skip(0) =~= w);
    crate::text::lemma_trail_ws(w, w.len() as int);
    assert(w.take(w.len() as int) =~= w);
}

/// A trimmed text that is not empty is not blank.
proof fn lemma_trimmed_not_blank(x: Seq<char>)
    requires
        trim(x).len() > 0,
    ensures
        !is_blank(trim(x)),
{
    let t0 = crate::text::trim_start(x);
    let t = trim(x);
    lemma_lead_ws_stop(x);
    lemma_trail_ws_stop(t0);
    assert(t[0] == t0[0]);
    crate::text::lemma_lead_ws(t, 0);
    crate::text::lemma_trail_ws(t, t.len() as int);
    assert(t.skip(0) =~= t);
    assert(t.take(t.len() as int) =~= t);
}

proof fn lemma_lead_ws_stop(s: Seq<char>)
    ensures
        crate::text::lead_ws(s) <= s.len(),
        crate::text::lead_ws(s) < s.len() ==> !crate::text::is_ws(s[crate::text::lead_ws(s) as int]),
    decreases s.len(),
{
    if s.len() > 0 && crate::text::is_ws(s[0]) {
        lemma_lead_ws_stop(s.drop_first());
    }
}

proof fn lemma_trail_ws_stop(s: Seq<char>)
    ensures
        crate::text::trail_ws(s) <= s.len(),
        crate::text::trail_ws(s) < s.len() ==> !crate::text::is_ws(
            s[s.len() - crate::text::trail_ws(s) - 1],
        ),
    decreases s.len(),
{
    if s.len() > 0 && crate::text::is_ws(s.last()) {
        lemma_trail_ws_stop(s.drop_last());
    }
}

/// The device id is the web id of an Android device whose raw id is not blank.
pub open spec fn android_id_parses(d: DeviceRecord) -> bool {
    exists|raw: Seq<char>|
        !is_blank(raw) && #[trigger] web_id_of(DeviceKind::Android, raw) == d.id
            && parse_device_id(d.id) == Ok::<(DeviceKind, Seq<char>), Seq<char>>((DeviceKind::Android, raw))
}

/// Every device that `adb devices -l` output lists is an Android device whose
/// id `DeviceId::parse` accepts, giving back that device.
pub proof fn law_adb_listed_ids_parse(s: Seq<char>)
    ensures
        forall|i: int| 0 <= i < adb_devices_listed(s).len() ==> (#[trigger] adb_devices_listed(s)[i]).kind
            == DeviceKind::Android && android_id_parses(adb_devices_listed(s)[i]),
{
    let ls = lines(s);
    if ls.len() > 0 {
        lemma_adb_lines_ids(ls.drop_first());
    }
}

proof fn lemma_adb_lines_ids(ls: Seq<Seq<char>>)
    ensures
        forall|i: int| 0 <= i < adb_lines_devices(ls).len() ==> (#[trigger] adb_lines_devices(ls)[i]).kind
            == DeviceKind::Android && android_id_parses(adb_lines_devices(ls)[i]),
    decreases ls.len(),
{
    if ls.len() > 0 {
        lemma_adb_lines_ids(ls.drop_last());
        let r = adb_lines_devices(ls.drop_last());
        match adb_line_device(ls.last()) {
            Some(d) => {
                let w = words(trim(ls.last()));
                lemma_words_solid(trim(ls.last()));
                assert(w[0].len() > 0);
                lemma_solid_not_blank(w[0]);
                law_parse_web_id(DeviceKind::Android, w[0]);
                assert(android_id_parses(d));
                assert forall|i: int| 0 <= i < r.push(d).len() implies (#[trigger] r.push(d)[i]).kind
                    == DeviceKind::Android && android_id_parses(r.push(d)[i]) by {
                    if i < r.len() {
                        assert(r.push(d)[i] == r[i]);
                    }
                }
            },
            None => {},
        }
    }
}

/// Every device that `emulator -list-avds` output lists is an Android device
/// whose id `DeviceId::parse` accepts, giving back that device.
pub proof fn law_avd_listed_ids_parse(s: Seq<char>)
    ensures
        forall|i: int| 0 <= i < avd_lines_devices(lines(s)).len() ==> (#[trigger] avd_lines_devices(
            lines(s),
        )[i]).kind == DeviceKind::Android && android_id_parses(avd_lines_devices(lines(s))[i]),
{
    lemma_avd_lines_ids(lines(s));
}

proof fn lemma_avd_lines_ids(ls: Seq<Seq<char>>)
    ensures
        forall|i: int| 0 <= i < avd_lines_devices(ls).len() ==> (#[trigger] avd_lines_devices(ls)[i]).kind
            == DeviceKind::Android && android_id_parses(avd_lines_devices(ls)[i]),
    decreases ls.len(),
{
    if ls.len() > 0 {
        lemma_avd_lines_ids(ls.drop_last());
        let r = avd_lines_devices(ls.drop_last());
        match avd_line_device(ls.last()) {
            Some(d) => {
                let avd = trim(ls.last());
                lemma_trimmed_not_blank(ls.last());
                law_parse_web_id(DeviceKind::Android, avd);
                assert(android_id_parses(d));
                assert forall|i: int| 0 <= i < r.push(d).len() implies (#[trigger] r.push(d)[i]).kind
                    == DeviceKind::Android && android_id_parses(r.push(d)[i]) by {
                    if i < r.len() {
                        assert(r.push(d)[i] == r[i]);
                    }
                }
            },
            None => {},
        }
    }
}

/// The device id is the web id, for the device's own kind, of a raw id that
/// is not blank, and `DeviceId::parse` gives back that kind and raw id.
pub open spec fn id_parses_back(d: DeviceRecord) -> bool {
    exists|raw: Seq<char>|
        !is_blank(raw) && #[trigger] web_id_of(d.kind, raw) == d.id
            && parse_device_id(d.id) == Ok::<(DeviceKind, Seq<char>), Seq<char>>((d.kind, raw))
}

/// No simulator of the listing has a blank UDID.
pub open spec fn udids_not_blank(rs: Seq<SimctlRuntime>) -> bool {
    forall|j: int, k: int|
        0 <= j < rs.len() && 0 <= k < rs[j].devices@.len() ==> !is_blank(
            (#[trigger] rs[j].devices@[k]).udid@,
        )
}

/// Every device of a simulator listing whose UDIDs are not blank is an iOS
/// device whose id `DeviceId::parse` accepts, giving back that simulator.
pub proof fn law_simctl_listed_ids_parse(rs: Seq<SimctlRuntime>, booted_only: bool)
    requires
        udids_not_blank(rs),
    ensures
        forall|i: int| 0 <= i < simctl_devices(rs, booted_only).len() ==> (#[trigger] simctl_devices(
            rs,
            booted_only,
        )[i]).kind == DeviceKind::Ios && id_parses_back(simctl_devices(rs, booted_only)[i]),
    decreases rs.len(),
{
    if rs.len() > 0 {
        let front = rs.drop_last();
        assert forall|j: int, k: int|
            0 <= j < front.len() && 0 <= k < front[j].devices@.len() implies !is_blank(
            (#[trigger] front[j].devices@[k]).udid@,
        ) by {
            assert(front[j] == rs[j]);
        }
        law_simctl_listed_ids_parse(front, booted_only);
        let last = rs.last();
        assert forall|k: int| 0 <= k < last.devices@.len() implies !is_blank(
            (#[trigger] last.devices@[k]).udid@,
        ) by {
            assert(rs[rs.len() - 1].devices@[k] == last.devices@[k]);
        }
        lemma_simctl_runtime_ids(last.runtime@, last.devices@, booted_only);
        let a = simctl_devices(front, booted_only);
        let b = simctl_runtime_devices(last.runtime@, last.devices@, booted_only);
        assert forall|i: int| 0 <= i < (a + b).len() implies (#[trigger] (a + b)[i]).kind
            == DeviceKind::Ios && id_parses_back((a + b)[i]) by {
            if i < a.len() {
                assert((a + b)[i] == a[i]);
            } else {
                assert((a + b)[i] == b[i - a.len()]);
            }
        }
    }
}

proof fn lemma_simctl_runtime_ids(runtime: Seq<char>, ds: Seq<SimctlDevice>, booted_only: bool)
    requires
        forall|k: int| 0 <= k < ds.len() ==> !is_blank((#[trigger] ds[k]).udid@),
    ensures
        forall|i: int| 0 <= i < simctl_runtime_devices(runtime, ds, booted_only).len() ==> (
        #[trigger] simctl_runtime_devices(runtime, ds, booted_only)[i]).kind == DeviceKind::Ios
            && id_parses_back(simctl_runtime_devices(runtime, ds, booted_only)[i]),
    decreases ds.len(),
{
    if ds.len() > 0 {
        let front = ds.drop_last();
        assert forall|k: int| 0 <= k < front.len() implies !is_blank((#[trigger] front[k]).udid@) by {
            assert(front[k] == ds[k]);
        }
        lemma_simctl_runtime_ids(runtime, front, booted_only);
        let r = simctl_runtime_devices(runtime, front, booted_only);
        match simctl_entry_device(runtime, ds.last(), booted_only) {
            Some(d) => {
                assert(ds[ds.len() - 1] == ds.last());
                law_parse_web_id(DeviceKind::Ios, ds.last().udid@);
                assert(id_parses_back(d));
                assert forall|i: int| 0 <= i < r.push(d).len() implies (#[trigger] r.push(d)[i]).kind
                    == DeviceKind::Ios && id_parses_back(r.push(d)[i]) by {
                    if i < r.len() {
                        assert(r.push(d)[i] == r[i]);
                    }
                }
            },
            None => {},
        }
    }
}

/// `d` is the device listed for the simulator entry `e` of `runtime`: its id
/// is `ios:` and the entry's UDID, and it carries the entry's name and state,
/// with the runtime as its first detail; the entry is not marked unavailable.
pub open spec fn listed_from(d: DeviceRecord, runtime: Seq<char>, e: SimctlDevice) -> bool {
    &&& d.id == "ios:"@ + e.udid@
    &&& d.kind == DeviceKind::Ios
    &&& d.name == e.name@
    &&& d.state == e.state@
    &&& d.details.len() >= 1
    &&& d.details[0] == runtime
    &&& e.is_available != Some(false)
}

/// Every device of a simulator listing is the device of one of its entries:
/// same UDID, name and state, its runtime first among the details, never an
/// entry marked unavailable; with `booted_only`, only booted simulators.
pub proof fn law_simctl_devices_come_from_entries(rs: Seq<SimctlRuntime>, booted_only: bool)
    ensures
        forall|i: int|
            0 <= i < simctl_devices(rs, booted_only).len() ==> exists|j: int, k: int|
                0 <= j < rs.len() && 0 <= k < rs[j].devices@.len() && listed_from(
                    #[trigger] simctl_devices(rs, booted_only)[i],
                    rs[j].runtime@,
                    rs[j].devices@[k],
                ),
        booted_only ==> forall|i: int|
            0 <= i < simctl_devices(rs, booted_only).len() ==> (#[trigger] simctl_devices(
                rs,
                booted_only,
            )[i]).state == "Booted"@,
    decreases rs.len(),
{
    if rs.len() > 0 {
        let front = rs.drop_last();
        law_simctl_devices_come_from_entries(front, booted_only);
        let last = rs.last();
        lemma_runtime_devices_come_from_entries(last.runtime@, last.devices@, booted_only);
        let a = simctl_devices(front, booted_only);
        let b = simctl_runtime_devices(last.runtime@, last.devices@, booted_only);
        assert(simctl_devices(rs, booted_only) == a + b);
        assert forall|i: int| 0 <= i < (a + b).len() implies exists|j: int, k: int|
            0 <= j < rs.len() && 0 <= k < rs[j].devices@.len() && listed_from(
                #[trigger] (a + b)[i],
                rs[j].runtime@,
                rs[j].devices@[k],
            ) by {
            if i < a.len() {
                assert((a + b)[i] == a[i]);
                let (j, k) = choose|j: int, k: int|
                    0 <= j < front.len() && 0 <= k < front[j].devices@.len() && listed_from(
                        #[trigger] a[i],
                        front[j].runtime@,
                        front[j].devices@[k],
                    );
                assert(front[j] == rs[j]);
                assert(listed_from((a + b)[i], rs[j].runtime@, rs[j].devices@[k]));
            } else {
                assert((a + b)[i] == b[i - a.len()]);
                let k = choose|k: int|
                    0 <= k < last.devices@.len() && listed_from(
                        #[trigger] b[i - a.len()],
                        last.runtime@,
                        last.devices@[k],
                    );
                assert(rs[rs.len() - 1] == last);
                assert(listed_from((a + b)[i], rs[rs.len() - 1].runtime@, rs[rs.len() - 1].devices@[k]));
            }
        }
        if booted_only {
            assert forall|i: int| 0 <= i < (a + b).len() implies (#[trigger] (a + b)[i]).state == "Booted"@ by {
                if i < a.len() {
                    assert((a + b)[i] == a[i]);
                } else {
                    assert((a + b)[i] == b[i - a.len()]);
                }
            }
        }
    }
}

proof fn lemma_runtime_devices_come_from_entries(runtime: Seq<char>, ds: Seq<SimctlDevice>, booted_only: bool)
    ensures
        forall|i: int|
            0 <= i < simctl_runtime_devices(runtime, ds, booted_only).len() ==> exists|k: int|
                0 <= k < ds.len() && listed_from(
                    #[trigger] simctl_runtime_devices(runtime, ds, booted_only)[i],
                    runtime,
                    ds[k],
                ),
        booted_only ==> forall|i: int|
            0 <= i < simctl_runtime_devices(runtime, ds, booted_only).len() ==> (
            #[trigger] simctl_runtime_devices(runtime, ds, booted_only)[i]).state == "Booted"@,
    decreases ds.len(),
{
    if ds.len() > 0 {
        let front = ds.drop_last();
        lemma_runtime_devices_come_from_entries(runtime, front, booted_only);
        let r = simctl_runtime_devices(runtime, front, booted_only);
        match simctl_entry_device(runtime, ds.last(), booted_only) {
            Some(d) => {
                let n = ds.len() - 1;
                assert(ds[n] == ds.last());
                assert(listed_from(d, runtime, ds[n]));
                assert forall|i: int| 0 <= i < r.push(d).len() implies exists|k: int|
                    0 <= k < ds.len() && listed_from(#[trigger] r.push(d)[i], runtime, ds[k]) by {
                    if i < r.len() {
                        assert(r.push(d)[i] == r[i]);
                        let k = choose|k: int| 0 <= k < front.len() && listed_from(#[trigger] r[i], runtime, front[k]);
                        assert(front[k] == ds[k]);
                        assert(listed_from(r.push(d)[i], runtime, ds[k]));
                    } else {
                        assert(r.push(d)[i] == d);
                        assert(listed_from(r.push(d)[i], runtime, ds[n]));
                    }
                }
                if booted_only {
                    assert forall|i: int| 0 <= i < r.push(d).len() implies (#[trigger] r.push(d)[i]).state
                        == "Booted"@ by {
                        if i < r.len() {
                            assert(r.push(d)[i] == r[i]);
                        }
                    }
                }
            },
            None => {},
        }
    }
}

} // verus!
