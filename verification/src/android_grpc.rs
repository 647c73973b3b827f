//! What the Android emulator gRPC controller is sent: key names, touch
//! pressure and expiry per gesture phase, and touch coordinates.

use vstd::prelude::*;

use crate::devices::MotionAction;
use crate::text::{chars_of, upper_code, upper_eq, upper_equals};

verus! {

/// The touch identifier used for every touch.
pub const TOUCH_IDENTIFIER: i32 = 1;

/// The pressure of a finger that is down.
pub const TOUCH_PRESSURE: i32 = 0x7000;

/// The major and minor axis of a touch.
pub const TOUCH_SIZE: i32 = 8;

/// The emulator key name for a key: `BACK`, `HOME`, `APP_SWITCH`/`RECENTS`
/// and `POWER` (in any ASCII case) are renamed, other names pass unchanged.
pub open spec fn grpc_key_name(key: Seq<char>) -> Seq<char> {
    if upper_eq(key, "BACK"@) {
        "GoBack"@
    } else if upper_eq(key, "HOME"@) {
        "GoHome"@
    } else if upper_eq(key, "APP_SWITCH"@) || upper_eq(key, "RECENTS"@) {
        "AppSwitch"@
    } else if upper_eq(key, "POWER"@) {
        "Power"@
    } else {
        key
    }
}

/// The emulator presses the named key: `BACK` becomes `GoBack`, `HOME`
/// becomes `GoHome`, `APP_SWITCH` and `RECENTS` become `AppSwitch`, `POWER`
/// becomes `Power` (each in any ASCII case), and every other key name is
/// passed on as it is.
pub proof fn law_grpc_key_names(key: Seq<char>)
    ensures
        upper_eq(key, "BACK"@) ==> grpc_key_name(key) == "GoBack"@,
        upper_eq(key, "HOME"@) ==> grpc_key_name(key) == "GoHome"@,
        upper_eq(key, "APP_SWITCH"@) ==> grpc_key_name(key) == "AppSwitch"@,
        upper_eq(key, "RECENTS"@) ==> grpc_key_name(key) == "AppSwitch"@,
        upper_eq(key, "POWER"@) ==> grpc_key_name(key) == "Power"@,
        !upper_eq(key, "BACK"@) && !upper_eq(key, "HOME"@) && !upper_eq(key, "APP_SWITCH"@)
            && !upper_eq(key, "RECENTS"@) && !upper_eq(key, "POWER"@) ==> grpc_key_name(key) == key,
        grpc_key_name("HOME"@) == "GoHome"@,
        grpc_key_name("home"@) == "GoHome"@,
{
    reveal_strlit("BACK");
    reveal_strlit("HOME");
    reveal_strlit("home");
    reveal_strlit("APP_SWITCH");
    reveal_strlit("RECENTS");
    reveal_strlit("POWER");
    if upper_eq(key, "HOME"@) {
        assert(upper_code(key[0]) == 'H' as u32);
        assert(!upper_eq(key, "BACK"@));
    }
    assert(upper_eq("HOME"@, "HOME"@));
    assert(upper_eq("home"@, "HOME"@));
    assert(!upper_eq("HOME"@, "BACK"@)) by {
        assert(upper_code("HOME"@[0]) != "BACK"@[0] as u32);
    }
    assert(!upper_eq("home"@, "BACK"@)) by {
        assert(upper_code("home"@[0]) != "BACK"@[0] as u32);
    }
}

pub fn android_grpc_key(key: &str) -> (r: &str)
    ensures
        r@ == grpc_key_name(key@),
{
    let k = chars_of(key);
    let ks = k.as_slice();
    if upper_equals(ks, "BACK") {
        "GoBack"
    } else if upper_equals(ks, "HOME") {
        "GoHome"
    } else if upper_equals(ks, "APP_SWITCH") || upper_equals(ks, "RECENTS") {
        "AppSwitch"
    } else if upper_equals(ks, "POWER") {
        "Power"
    } else {
        key
    }
}

/// How one gesture phase is sent as a touch.
#[derive(Clone, Copy, Debug, PartialEq, Eq)]
pub struct TouchPlan {
    /// The pressure: `TOUCH_PRESSURE` while the finger is down, 0 once lifted.
    pub pressure: i32,
    /// Whether the touch never expires (it does not once lifted).
    pub never_expires: bool,
}

/// The touch that a gesture phase becomes: down and move press, up lifts.
pub fn motion_touch(action: MotionAction) -> (t: TouchPlan)
    ensures
        match action {
            MotionAction::Up => t.pressure == 0 && !t.never_expires,
            _ => t.pressure == TOUCH_PRESSURE && t.never_expires,
        },
{
    match action {
        MotionAction::Down | MotionAction::Move => TouchPlan { pressure: TOUCH_PRESSURE, never_expires: true },
        MotionAction::Up => TouchPlan { pressure: 0, never_expires: false },
    }
}

/// A coordinate as the touch event carries it: capped at `i32::MAX`.
pub fn touch_coordinate(v: u32) -> (r: i32)
    ensures
        v <= i32::MAX ==> r == v,
        v > i32::MAX ==> r == i32::MAX,
{
    if v > i32::MAX as u32 {
        i32::MAX
    } else {
        v as i32
    }
}

} // verus!
