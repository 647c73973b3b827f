//! How input reaches a device, and what is tried when a way fails.
//!
//! Android input goes through the emulator's gRPC controller when an endpoint
//! is configured, and falls back to the persistent `adb shell`; swipes always
//! use the shell. iOS input goes through `idb`; a tap that `idb` cannot make
//! falls back to clicking the Simulator window; a pointer that goes down or
//! moves sends nothing, and one that is lifted taps with `idb`.

use vstd::prelude::*;

use crate::devices::{DeviceKind, MotionAction};

verus! {

/// An input operation.
#[derive(Clone, Copy, Debug)]
pub enum InputOp {
    Tap,
    Swipe,
    Motion(MotionAction),
    Text,
    Key,
}

/// A way of delivering input.
#[derive(Clone, Copy, Debug, PartialEq, Eq, Structural)]
pub enum InputRoute {
    /// The Android emulator's gRPC controller.
    Grpc,
    /// A line written to the device's persistent `adb shell`.
    AdbShell,
    /// An `idb` command for the simulator.
    Idb,
    /// AppleScript clicking the Simulator window.
    WindowTap,
}

/// The ways tried for an operation, in order.
pub open spec fn input_routes(kind: DeviceKind, op: InputOp, grpc_configured: bool) -> Seq<InputRoute> {
    match kind {
        DeviceKind::Android => match op {
            InputOp::Swipe => seq![InputRoute::AdbShell],
            _ => if grpc_configured {
                seq![InputRoute::Grpc, InputRoute::AdbShell]
            } else {
                seq![InputRoute::AdbShell]
            },
        },
        DeviceKind::Ios => match op {
            InputOp::Tap => seq![InputRoute::Idb, InputRoute::WindowTap],
            InputOp::Motion(MotionAction::Up) => seq![InputRoute::Idb],
            InputOp::Motion(_) => seq![],
            _ => seq![InputRoute::Idb],
        },
    }
}

/// The first way to try, or none when the operation sends nothing.
pub fn first_route(kind: DeviceKind, op: InputOp, grpc_configured: bool) -> (r: Option<InputRoute>)
    ensures
        input_routes(kind, op, grpc_configured).len() == 0 ==> r is None,
        input_routes(kind, op, grpc_configured).len() > 0 ==> r == Some(
            input_routes(kind, op, grpc_configured)[0],
        ),
{
    match kind {
        DeviceKind::Android => match op {
            InputOp::Swipe => Some(InputRoute::AdbShell),
            _ => if grpc_configured {
                Some(InputRoute::Grpc)
            } else {
                Some(InputRoute::AdbShell)
            },
        },
        DeviceKind::Ios => match op {
            InputOp::Motion(MotionAction::Down) | InputOp::Motion(MotionAction::Move) => None,
            _ => Some(InputRoute::Idb),
        },
    }
}

/// The way to try after `failed` failed: the way that follows it in
/// `input_routes` (whether or not gRPC is configured), or none when it is
/// the last way or not one of them.
pub fn next_route(kind: DeviceKind, op: InputOp, failed: InputRoute) -> (r: Option<InputRoute>)
    ensures
        forall|g: bool, i: int|
            0 <= i < input_routes(kind, op, g).len() && #[trigger] input_routes(kind, op, g)[i] == failed
                ==> r == if i + 1 < input_routes(kind, op, g).len() {
                Some(input_routes(kind, op, g)[i + 1])
            } else {
                None::<InputRoute>
            },
        (forall|g: bool, i: int|
            0 <= i < input_routes(kind, op, g).len() ==> #[trigger] input_routes(kind, op, g)[i] != failed)
            ==> r is None,
{
    let r = match (kind, failed) {
        (DeviceKind::Android, InputRoute::Grpc) => match op {
            InputOp::Swipe => None,
            _ => Some(InputRoute::AdbShell),
        },
        (DeviceKind::Ios, InputRoute::Idb) => match op {
            InputOp::Tap => Some(InputRoute::WindowTap),
            _ => None,
        },
        _ => None,
    };
    proof {
        assert(input_routes(kind, op, true).len() <= 2 && input_routes(kind, op, false).len() <= 2);
    }
    r
}

} // verus!
