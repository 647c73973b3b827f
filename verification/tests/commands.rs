use appmon::android_grpc::{android_grpc_key, motion_touch, touch_coordinate, TOUCH_PRESSURE};
use appmon::commands::{
    already_booted, already_shutdown, idb_app_switch_command, idb_swipe_command, idb_ui_error,
    ios_key_action, key_input_line, log_line_count, logs_command, motion_input_line,
    point_dimensions_or_default, screenshot_command, seconds, start_device_command,
    swipe_duration, swipe_input_line, tap_input_line, text_input_line, timeout_error,
    window_tap_command, window_tap_error, IosKeyAction, Tool,
};
use appmon::devices::{DeviceId, DeviceKind, MotionAction, PointDimensions, TapRequest};
use appmon::error::AppError;

fn android(raw: &str) -> DeviceId {
    DeviceId { kind: DeviceKind::Android, raw: raw.to_string() }
}

fn ios(raw: &str) -> DeviceId {
    DeviceId { kind: DeviceKind::Ios, raw: raw.to_string() }
}

#[test]
fn input_lines_for_the_persistent_shell() {
    assert_eq!(tap_input_line(10, 20), "input tap 10 20");
    assert_eq!(swipe_input_line(1, 2, 3, 4, 300), "input swipe 1 2 3 4 300");
    assert_eq!(motion_input_line(MotionAction::Move, 5, 6), "input motionevent MOVE 5 6");
    assert_eq!(text_input_line("hello world"), "input text hello%sworld");
    assert_eq!(text_input_line("it's"), "input text 'it'\\''s'");
    assert_eq!(key_input_line("BACK"), "input keyevent BACK");
}

#[test]
fn durations_and_log_counts_are_bounded() {
    assert_eq!(swipe_duration(None), 300);
    assert_eq!(swipe_duration(Some(90_000)), 60_000);
    assert_eq!(swipe_duration(Some(5)), 5);
    assert_eq!(log_line_count(None), 200);
    assert_eq!(log_line_count(Some(0)), 1);
    assert_eq!(log_line_count(Some(5000)), 2000);
    assert_eq!(seconds(300), "0.300");
    assert_eq!(seconds(60_000), "60.000");
    assert_eq!(seconds(1_234), "1.234");
    assert_eq!(seconds(5), "0.005");
}

#[test]
fn device_commands_name_the_tool_and_arguments() {
    let (c, ct) = screenshot_command(&android("e1"));
    assert_eq!(c.tool, Tool::Adb);
    assert_eq!(c.args, ["-s", "e1", "exec-out", "screencap", "-p"]);
    assert_eq!(ct, "image/png");
    let (c, ct) = screenshot_command(&ios("U"));
    assert_eq!(c.tool, Tool::Xcrun);
    assert_eq!(c.args, ["simctl", "io", "U", "screenshot", "--type=jpeg", "-"]);
    assert_eq!(ct, "image/jpeg");
    let c = start_device_command(&android("Pixel"), Some(8554));
    assert_eq!(c.tool, Tool::Emulator);
    assert_eq!(c.args, ["-avd", "Pixel", "-grpc", "8554"]);
    assert_eq!(start_device_command(&ios("U"), None).args, ["simctl", "boot", "U"]);
    let c = logs_command(&android("e1"), Some(50));
    assert_eq!(c.args, ["-s", "e1", "logcat", "-d", "-t", "50"]);
}

#[test]
fn idb_commands_address_the_simulator() {
    let c = idb_swipe_command(&ios("U"), 1, 2, 3, 4, 650);
    assert_eq!(c.tool, Tool::Idb);
    assert_eq!(c.args, ["ui", "swipe", "1", "2", "3", "4", "--duration", "0.650", "--udid", "U"]);
    let c = idb_app_switch_command(&ios("U"), PointDimensions { width: 430, height: 932 });
    assert_eq!(c.args, ["ui", "swipe", "215", "924", "215", "484", "--duration", "0.650", "--udid", "U"]);
    assert!(matches!(ios_key_action("recents"), IosKeyAction::AppSwitch));
    assert!(matches!(ios_key_action("lock"), IosKeyAction::Button("LOCK")));
    assert!(matches!(ios_key_action("a"), IosKeyAction::Key));
    assert_eq!(point_dimensions_or_default(None), PointDimensions { width: 390, height: 844 });
}

#[test]
fn boot_and_shutdown_messages_are_recognised() {
    assert!(already_booted("Unable to boot device in current state: Booted"));
    assert!(!already_booted("Invalid device"));
    assert!(already_shutdown("Unable to shutdown device in current state: Shutdown"));
    assert!(!already_shutdown("current state: Booted"));
}

fn failed(stderr: &str) -> AppError {
    AppError::CommandFailed {
        program: "idb".to_string(),
        args: vec![],
        status: Some(1),
        stderr: stderr.to_string(),
    }
}

#[test]
fn idb_failures_are_reported_as_unsupported() {
    match idb_ui_error(AppError::ToolMissing("idb".to_string())) {
        AppError::UnsupportedCapability(m) => assert!(m.starts_with("idb is required")),
        other => panic!("{other:?}"),
    }
    match idb_ui_error(AppError::Io(std::io::Error::from(std::io::ErrorKind::NotFound))) {
        AppError::UnsupportedCapability(m) => assert!(m.starts_with("idb is required")),
        other => panic!("{other:?}"),
    }
    match idb_ui_error(AppError::Io(std::io::Error::from(std::io::ErrorKind::PermissionDenied))) {
        AppError::Io(_) => {}
        other => panic!("{other:?}"),
    }
    match idb_ui_error(failed("device not connected")) {
        AppError::UnsupportedCapability(m) => {
            assert_eq!(m, "idb could not control this iOS simulator: device not connected")
        }
        other => panic!("{other:?}"),
    }
    assert!(matches!(idb_ui_error(failed("boom")), AppError::CommandFailed { .. }));
}

#[test]
fn window_tap_uses_the_image_size() {
    let c = window_tap_command(&TapRequest { x: 10, y: 20, source_width: Some(0), source_height: None });
    assert_eq!(c.tool, Tool::Osascript);
    assert_eq!(c.args[0], "-e");
    assert!(c.args[1].contains("(((x2 - x1) * 10) / 1)"));
    assert!(c.args[1].contains("(((y2 - y1) * 20) / 1)"));
    match window_tap_error(failed("execution error: -1719")) {
        AppError::UnsupportedCapability(m) => assert!(m.contains("Accessibility")),
        other => panic!("{other:?}"),
    }
}

#[test]
fn timeouts_name_the_command() {
    match timeout_error("/bin/idb", &["ui".to_string()], 3000) {
        AppError::CommandFailed { program, args, status, stderr } => {
            assert_eq!(program, "/bin/idb");
            assert_eq!(args, ["ui"]);
            assert_eq!(status, None);
            assert_eq!(stderr, "command timed out after 3000ms");
        }
        other => panic!("{other:?}"),
    }
}

#[test]
fn grpc_keys_and_touches() {
    assert_eq!(android_grpc_key("back"), "GoBack");
    assert_eq!(android_grpc_key("Recents"), "AppSwitch");
    assert_eq!(android_grpc_key("POWER"), "Power");
    assert_eq!(android_grpc_key("KEYCODE_A"), "KEYCODE_A");
    assert_eq!(motion_touch(MotionAction::Down).pressure, TOUCH_PRESSURE);
    assert_eq!(motion_touch(MotionAction::Up).pressure, 0);
    assert!(!motion_touch(MotionAction::Up).never_expires);
    assert_eq!(touch_coordinate(u32::MAX), i32::MAX);
    assert_eq!(touch_coordinate(7), 7);
}

#[test]
fn accepted_keys_reach_the_shell_unquoted() {
    for key in ["KEYCODE_VOLUME_UP", "home", "a.b-c_1"] {
        assert!(appmon::validation::key_input(key).is_ok());
        assert_eq!(key_input_line(key), format!("input keyevent {key}"));
    }
}

#[test]
fn idb_io_errors_follow_the_error_kind() {
    let io = || std::io::Error::from(std::io::ErrorKind::NotFound);
    match appmon::commands::idb_io_error(io(), true) {
        AppError::UnsupportedCapability(m) => assert!(m.contains("APPMON_IDB_PATH")),
        other => panic!("{other:?}"),
    }
    assert!(matches!(appmon::commands::idb_io_error(io(), false), AppError::Io(_)));
}

#[test]
fn configured_endpoints_start_emulators_with_grpc() {
    let avd = DeviceId { kind: DeviceKind::Android, raw: "Pixel_8_API_35".to_string() };
    let c = appmon::commands::start_command(&avd, Some("http://127.0.0.1:8554"));
    assert_eq!(c.tool, Tool::Emulator);
    assert_eq!(c.args, ["-avd", "Pixel_8_API_35", "-grpc", "8554"]);
    assert_eq!(appmon::commands::start_command(&avd, Some("localhost")).args, ["-avd", "Pixel_8_API_35"]);
    assert_eq!(appmon::commands::start_command(&avd, None).args, ["-avd", "Pixel_8_API_35"]);
    let sim = DeviceId { kind: DeviceKind::Ios, raw: "A-B".to_string() };
    let c = appmon::commands::start_command(&sim, Some("http://127.0.0.1:8554"));
    assert_eq!(c.tool, Tool::Xcrun);
    assert_eq!(c.args, ["simctl", "boot", "A-B"]);
}
