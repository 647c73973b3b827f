use appmon::appmo;
use appmon::devices::{android_motion_action, ios_button_for_key, is_ios_app_switch_key, MotionAction};
use appmon::devices::{
    android_grpc_port_from_endpoint, devices_from_simctl, parse_adb_devices, parse_android_avds,
    parse_idb_dimension, parse_idb_point_dimensions, scale_coordinate, shell_quote, DeviceId,
    DeviceKind, SimctlDevice, SimctlRuntime,
};

#[test]
fn parses_adb_devices() {
    let input = "List of devices attached\nemulator-5554 device product:sdk model:Pixel_8 device:emu\nabc offline\n";
    let devices = parse_adb_devices(input);
    assert_eq!(devices.len(), 2);
    assert_eq!(devices[0].id, "android:emulator-5554");
    assert_eq!(devices[0].name, "Pixel 8");
    assert_eq!(devices[1].id, "android:abc");
    assert_eq!(devices[1].state, "offline");
}

#[test]
fn devices_parses_adb_devices() {
    let input = "List of devices attached\nemulator-5554 device product:sdk model:Pixel_8 device:emu\nabc offline\n";
    let devices = appmo::parse_adb_devices(input);
    assert_eq!(devices.len(), 1);
    assert_eq!(devices[0].id, "android:emulator-5554");
    assert_eq!(devices[0].name, "Pixel 8");
}

#[test]
fn parses_android_avds() {
    let devices = parse_android_avds("Pixel_8_API_35\nTablet API 35\n\n");
    assert_eq!(devices.len(), 2);
    assert_eq!(devices[0].id, "android:Pixel_8_API_35");
    assert_eq!(devices[0].name, "Pixel 8 API 35");
    assert_eq!(devices[0].state, "Shutdown");
    assert_eq!(devices[0].details, ["avd"]);
}

#[test]
fn validates_device_ids() {
    assert!(DeviceId::parse("android:emulator-5554").is_ok());
    assert!(DeviceId::parse("ios:abc").is_ok());
    assert!(DeviceId::parse("abc").is_err());
}

#[test]
fn devices_validates_device_ids() {
    assert!(DeviceId::parse("android:emulator-5554").is_ok());
    assert!(DeviceId::parse("ios:abc").is_ok());
    assert!(DeviceId::parse("abc").is_err());
}

#[test]
fn quotes_shell_arguments_for_persistent_input() {
    assert_eq!(shell_quote("BACK"), "BACK");
    assert_eq!(shell_quote("hello%s"), "hello%s");
    assert_eq!(shell_quote("can't"), "'can'\\''t'");
}

#[test]
fn parses_idb_point_dimensions() {
    let output = "name=iPhone width_points=430 height_points=932 other=value";
    let dimensions = parse_idb_point_dimensions(output).unwrap();
    assert_eq!(dimensions.width, 430);
    assert_eq!(dimensions.height, 932);
}

#[test]
fn scales_coordinates_to_idb_points() {
    assert_eq!(scale_coordinate(660, 1320, 430), 215);
    assert_eq!(scale_coordinate(2868, 2868, 932), 931);
}

#[test]
fn extracts_android_grpc_port_from_endpoint() {
    assert_eq!(
        android_grpc_port_from_endpoint("http://127.0.0.1:8554"),
        Some(8554)
    );
    assert_eq!(
        android_grpc_port_from_endpoint("https://localhost:9554/foo"),
        Some(9554)
    );
    assert_eq!(android_grpc_port_from_endpoint("localhost"), None);
}

fn sim(name: &str, udid: &str, state: &str, available: Option<bool>) -> SimctlDevice {
    SimctlDevice {
        name: name.to_string(),
        udid: udid.to_string(),
        state: state.to_string(),
        is_available: available,
        availability_error: None,
    }
}

fn runtime() -> Vec<SimctlRuntime> {
    vec![SimctlRuntime {
        runtime: "com.apple.CoreSimulator.SimRuntime.iOS-17-5".to_string(),
        devices: vec![
            sim("iPhone 15", "A-B-C", "Booted", Some(true)),
            sim("iPhone 14", "D-E-F", "Shutdown", Some(true)),
            sim("iPhone 13", "G-H-I", "Shutdown", Some(false)),
        ],
    }]
}

#[test]
fn simctl_listing_keeps_available_devices() {
    let devices = devices_from_simctl(&runtime());
    assert_eq!(devices.len(), 2);
    assert_eq!(devices[0].id, "ios:A-B-C");
    assert_eq!(devices[1].id, "ios:D-E-F");
    assert_eq!(devices[1].state, "Shutdown");
    assert_eq!(devices[0].details, ["com.apple.CoreSimulator.SimRuntime.iOS-17-5"]);
    assert_eq!(devices[0].kind, DeviceKind::Ios);
}

#[test]
fn appmo_simctl_listing_keeps_booted_devices() {
    let devices = appmo::devices_from_simctl(&runtime());
    assert_eq!(devices.len(), 1);
    assert_eq!(devices[0].id, "ios:A-B-C");
}

#[test]
fn simctl_listing_reports_availability_error() {
    let mut rt = runtime();
    rt[0].devices[0].availability_error = Some("runtime profile not found".to_string());
    let devices = devices_from_simctl(&rt);
    assert_eq!(devices[0].details, ["com.apple.CoreSimulator.SimRuntime.iOS-17-5", "runtime profile not found"]);
}

#[test]
fn device_id_errors_name_the_problem() {
    let message = |value: &str| match DeviceId::parse(value) {
        Err(appmon::error::AppError::InvalidInput(m)) => m,
        other => panic!("unexpected {other:?}"),
    };
    assert_eq!(message("abc"), "device id must be android:<id> or ios:<id>");
    assert_eq!(message("android:  "), "device id cannot be empty");
    assert_eq!(message("windows:x"), "unknown device platform");
}

#[test]
fn web_id_parses_back() {
    for (kind, raw) in [(DeviceKind::Android, "emulator-5554"), (DeviceKind::Ios, "A:B:C")] {
        let id = DeviceId { kind: kind.clone(), raw: raw.to_string() };
        let parsed = DeviceId::parse(&id.web_id()).unwrap();
        assert_eq!(parsed, id);
        assert_eq!(parsed.web_id(), id.web_id());
    }
    assert_eq!(DeviceId::parse("ios:A:B").unwrap().raw, "A:B");
}

#[test]
fn adb_listing_edge_cases() {
    assert!(parse_adb_devices("").is_empty());
    assert!(parse_adb_devices("List of devices attached").is_empty());
    let devices = parse_adb_devices("header\r\n  serial1   device  \r\nlonely\r\n\r\n");
    assert_eq!(devices.len(), 1);
    assert_eq!(devices[0].id, "android:serial1");
    assert_eq!(devices[0].name, "serial1");
    assert!(devices[0].details.is_empty());
    for device in parse_adb_devices("h\nx_y device model:A_B\n") {
        assert!(DeviceId::parse(&device.id).is_ok());
        assert_eq!(device.name, "A B");
    }
}

#[test]
fn avd_ids_parse_back() {
    for device in parse_android_avds("  Pixel_7 \n\t\nTablet\n") {
        let id = DeviceId::parse(&device.id).unwrap();
        assert_eq!(id.kind, DeviceKind::Android);
        assert_eq!(id.web_id(), device.id);
    }
}

#[test]
fn shell_quote_quotes_everything_else() {
    assert_eq!(shell_quote(""), "");
    assert_eq!(shell_quote("a b"), "'a b'");
    assert_eq!(shell_quote("a'b'c"), "'a'\\''b'\\''c'");
    assert_eq!(shell_quote("x/y:z,1.2-3_4"), "x/y:z,1.2-3_4");
}

#[test]
fn scale_coordinate_stays_on_screen() {
    assert_eq!(scale_coordinate(100, 200, 0), 0);
    assert_eq!(scale_coordinate(u32::MAX, 1, u32::MAX), u32::MAX - 1);
    assert_eq!(scale_coordinate(10, 100, 50), 5);
}

#[test]
fn port_extraction_edge_cases() {
    assert_eq!(android_grpc_port_from_endpoint("127.0.0.1:65535"), Some(65535));
    assert_eq!(android_grpc_port_from_endpoint("127.0.0.1:65536"), None);
    assert_eq!(android_grpc_port_from_endpoint("host:+80"), Some(80));
    assert_eq!(android_grpc_port_from_endpoint("host:"), None);
    assert_eq!(android_grpc_port_from_endpoint("http://h:1/x:2"), Some(1));
}

#[test]
fn idb_dimension_edge_cases() {
    assert_eq!(parse_idb_dimension("width_points = 12px", "width_points"), Some(12));
    assert_eq!(parse_idb_dimension("width_points:12", "width_points"), None);
    assert_eq!(parse_idb_dimension("nothing", "width_points"), None);
    assert_eq!(parse_idb_dimension("width_points=99999999999", "width_points"), None);
    assert!(parse_idb_point_dimensions("width_points=1").is_none());
}

#[test]
fn ios_keys_and_buttons() {
    assert_eq!(ios_button_for_key("home"), Some("HOME"));
    assert_eq!(ios_button_for_key("Sleep"), Some("LOCK"));
    assert_eq!(ios_button_for_key("side-button"), Some("SIDE_BUTTON"));
    assert_eq!(ios_button_for_key("apple_pay"), Some("APPLE_PAY"));
    assert_eq!(ios_button_for_key("back"), Some("HOME"));
    assert_eq!(ios_button_for_key("siri"), Some("SIRI"));
    assert_eq!(ios_button_for_key("ENTER"), None);
    assert!(is_ios_app_switch_key("recents"));
    assert!(is_ios_app_switch_key("App_Switch"));
    assert!(!is_ios_app_switch_key("home"));
    assert_eq!(android_motion_action(MotionAction::Down), "DOWN");
    assert_eq!(android_motion_action(MotionAction::Move), "MOVE");
    assert_eq!(android_motion_action(MotionAction::Up), "UP");
}

#[test]
fn simctl_ids_parse_back() {
    for booted_only in [false, true] {
        let devices = if booted_only { appmo::devices_from_simctl(&runtime()) } else { devices_from_simctl(&runtime()) };
        for device in devices {
            let id = DeviceId::parse(&device.id).unwrap();
            assert_eq!(id.kind, DeviceKind::Ios);
            assert_eq!(id.web_id(), device.id);
        }
    }
    let blank = vec![SimctlRuntime { runtime: "r".to_string(), devices: vec![sim("x", "", "Booted", None)] }];
    let devices = devices_from_simctl(&blank);
    assert_eq!(devices[0].id, "ios:");
    assert!(DeviceId::parse(&devices[0].id).is_err());
}

#[test]
fn scaled_points_keep_order() {
    let mut last = 0;
    for x in 0..1320 {
        let scaled = scale_coordinate(x, 1320, 430);
        assert!(scaled < 430);
        assert!(scaled >= last);
        last = scaled;
    }
    for x in 0..932 {
        assert_eq!(scale_coordinate(x, 932, 932), x);
    }
}

#[test]
fn idb_sizes_read_back() {
    for (w, h) in [(0u32, 0u32), (430, 932), (u32::MAX, 1)] {
        let text = format!("width_points={w} height_points={h}");
        let size = parse_idb_point_dimensions(&text).unwrap();
        assert_eq!((size.width, size.height), (w, h));
        assert_eq!(parse_idb_dimension(&format!("a b width_points={w}x"), "width_points"), Some(w));
    }
}

#[test]
fn appmo_listing_keeps_online_devices_of_the_full_listing() {
    let input = "List of devices attached\nemulator-5554 device model:Pixel_8\nabc offline\nxyz unauthorized usb:1\nr2 device\n";
    let full = parse_adb_devices(input);
    let online: Vec<_> = full.into_iter().filter(|d| d.state == "device").collect();
    assert_eq!(appmo::parse_adb_devices(input), online);
    assert_eq!(online.len(), 2);
}
