use appmon::bootstrap::{auto_install_enabled, idb_install_commands, setup_plan, InstalledTools, SetupStep};
use appmon::config::{grpc_endpoint_setting, next_port, udp_bind_choice, UdpBindChoice};
use appmon::control::{
    control_operation, error_status, render_control_json, CommandResponse, ControlCommand,
    ControlRequest, ControlResponse, DeviceOperation,
};
use appmon::config::{checked_bind, checked_udp_bind};
use appmon::devices::{DeviceKind, MotionAction, PointDimensions};
use appmon::error::AppError;
use appmon::routes::{first_route, next_route, InputOp, InputRoute};
use appmon::runner::command_outcome;
use appmon::stream::{encoder_wait_step, vp8_encoder_command_args, EncoderWait};
use appmon::stream::{
    encode_stream_frame, frame_delay_ms, ivf_frame_length, multipart_part,
    multipart_stream_settings, prepare_video_jpeg_frame, should_encode_jpeg,
    stream_resize_target, webrtc_frame_packets, webrtc_stream_settings,
};
use appmon::table::{ensure_not_recording, take_recording, DeviceTable};

#[test]
fn control_replies_are_json() {
    let ok = ControlResponse::ok(Some("tap-1".to_string()));
    assert_eq!(ok.to_json(), r#"{"type":"control_result","request_id":"tap-1","ok":true,"error":null}"#);
    let err = ControlResponse::error(None, "bad \"id\"".to_string());
    assert_eq!(err.to_json(), r#"{"type":"control_result","request_id":null,"ok":false,"error":"bad \"id\""}"#);
    assert!(CommandResponse::ok().ok);
    let text = render_control_json(&"\"k\"".to_string(), &None, true, &Some("1".to_string()));
    assert_eq!(text, r#"{"type":"k","request_id":null,"ok":true,"error":1}"#);
}

#[test]
fn error_statuses() {
    assert_eq!(error_status(&AppError::InvalidInput(String::new())), 400);
    assert_eq!(error_status(&AppError::Unauthorized), 401);
    assert_eq!(error_status(&AppError::DeviceNotFound(String::new())), 404);
    assert_eq!(error_status(&AppError::ToolMissing(String::new())), 424);
    assert_eq!(error_status(&AppError::UnsupportedCapability(String::new())), 501);
    assert_eq!(error_status(&AppError::Io(std::io::Error::from(std::io::ErrorKind::Other))), 500);
}

#[test]
fn stream_settings_are_clamped() {
    let s = multipart_stream_settings(None, None, None);
    assert_eq!((s.fps, s.max_width, s.quality), (8, 720, 70));
    let s = multipart_stream_settings(Some(100), Some(10), Some(100));
    assert_eq!((s.fps, s.max_width, s.quality), (15, 240, 95));
    let s = webrtc_stream_settings(Some(0), Some(9000), Some(0));
    assert_eq!((s.fps, s.max_width, s.quality), (1, 4096, 35));
    assert_eq!(webrtc_stream_settings(None, None, None).fps, 12);
    assert_eq!(frame_delay_ms(8), 125);
    assert!(should_encode_jpeg("JPEG", true, "image/png"));
    assert!(!should_encode_jpeg("native", false, "image/png"));
    assert!(should_encode_jpeg("auto", false, "image/png"));
    assert!(!should_encode_jpeg("auto", true, "image/png"));
    assert!(!should_encode_jpeg("auto", false, "image/jpeg"));
}

#[test]
fn multipart_parts_carry_the_frame() {
    let part = multipart_part("appmon-frame", "image/png", &[1, 2, 3]);
    let header = "\r\n--appmon-frame\r\nContent-Type: image/png\r\nContent-Length: 3\r\nCache-Control: no-store\r\n\r\n";
    assert_eq!(&part[..header.len()], header.as_bytes());
    assert_eq!(&part[header.len()..], &[1, 2, 3]);
}

#[test]
fn webrtc_packets_split_and_rejoin_the_frame() {
    let frame: Vec<u8> = (0..30_000u32).map(|i| (i % 251) as u8).collect();
    let packets = webrtc_frame_packets(7, "image/jpeg", &frame);
    assert_eq!(packets.len(), 3);
    assert_eq!(&packets[0][0..4], &7u32.to_be_bytes());
    assert_eq!(packets[0][4], 1);
    assert_eq!(packets[1][4], 0);
    assert_eq!(packets[2][4], 2);
    assert_eq!(packets[0][5], 10);
    assert_eq!(&packets[0][6..10], &30_000u32.to_be_bytes());
    assert_eq!(&packets[0][10..20], b"image/jpeg");
    let mut joined = Vec::new();
    joined.extend_from_slice(&packets[0][20..]);
    joined.extend_from_slice(&packets[1][10..]);
    joined.extend_from_slice(&packets[2][10..]);
    assert_eq!(joined, frame);
    assert!(webrtc_frame_packets(1, "x", &[]).is_empty());
    let single = webrtc_frame_packets(1, "x", &[9]);
    assert_eq!(single.len(), 1);
    assert_eq!(single[0][4], 3);
}

#[test]
fn ivf_frame_lengths_are_checked() {
    let mut header = [0u8; 12];
    header[0..4].copy_from_slice(&1000u32.to_le_bytes());
    assert_eq!(ivf_frame_length(&header), Ok(1000));
    header[0..4].copy_from_slice(&0u32.to_le_bytes());
    assert_eq!(ivf_frame_length(&header), Err("ffmpeg emitted invalid VP8 frame length: 0".to_string()));
    header[0..4].copy_from_slice(&(8 * 1024 * 1024 + 1u32).to_le_bytes());
    assert!(ivf_frame_length(&header).is_err());
}

fn png(width: u32, height: u32) -> Vec<u8> {
    let img = image::RgbImage::from_pixel(width, height, image::Rgb([10, 200, 30]));
    let mut bytes = Vec::new();
    image::DynamicImage::ImageRgb8(img)
        .write_to(&mut std::io::Cursor::new(&mut bytes), image::ImageFormat::Png)
        .unwrap();
    bytes
}

#[test]
fn frames_are_reencoded_as_jpeg() {
    assert_eq!(stream_resize_target(100, 50, 240), None);
    assert_eq!(stream_resize_target(1000, 500, 250), Some((250, 125)));
    assert_eq!(stream_resize_target(1000, 1, 250), Some((250, 1)));
    let (ct, jpeg) = encode_stream_frame(&png(600, 300), 240, 70).unwrap();
    assert_eq!(ct, "image/jpeg");
    let decoded = image::load_from_memory(&jpeg).unwrap();
    assert_eq!((decoded.width(), decoded.height()), (240, 120));
    assert!(encode_stream_frame(b"not an image", 240, 70).is_err());
    let same = prepare_video_jpeg_frame("image/jpeg", vec![1, 2], 4096, 70).unwrap();
    assert_eq!(same, vec![1, 2]);
    assert!(prepare_video_jpeg_frame("image/png", vec![1, 2], 4096, 70).is_err());
}

#[test]
fn device_tables_read_back_writes() {
    let mut table: DeviceTable<u32> = DeviceTable::new();
    assert!(!table.contains_key("android:a"));
    table.insert("android:a".to_string(), 1);
    table.insert("ios:b".to_string(), 2);
    table.insert("android:a".to_string(), 3);
    assert_eq!(table.get("android:a"), Some(&3));
    assert_eq!(table.remove("android:a"), Some(3));
    assert_eq!(table.get("android:a"), None);
    assert_eq!(table.get("ios:b"), Some(&2));
    assert_eq!(take_recording(&mut table, "ios:b").unwrap(), 2);
    match take_recording(&mut table, "ios:b") {
        Err(AppError::InvalidInput(m)) => assert_eq!(m, "no recording is running for ios:b"),
        other => panic!("{other:?}"),
    }
}

#[test]
fn command_outcomes() {
    let ok = command_outcome("adb", &[], Some(0), true, vec![1], b"  warn \n").unwrap();
    assert_eq!(ok.stdout, vec![1]);
    assert_eq!(ok.stderr, "warn");
    match command_outcome("adb", &["devices".to_string()], Some(2), false, vec![], b"bad \xff\n") {
        Err(AppError::CommandFailed { program, args, status, stderr }) => {
            assert_eq!(program, "adb");
            assert_eq!(args, ["devices"]);
            assert_eq!(status, Some(2));
            assert_eq!(stderr, "bad \u{fffd}");
        }
        other => panic!("{other:?}"),
    }
}

#[test]
fn configuration_choices() {
    assert_eq!(udp_bind_choice(None), UdpBindChoice::NextPort);
    assert_eq!(udp_bind_choice(Some("OFF".to_string())), UdpBindChoice::Disabled);
    assert_eq!(udp_bind_choice(Some("False".to_string())), UdpBindChoice::Disabled);
    assert_eq!(
        udp_bind_choice(Some("127.0.0.1:9".to_string())),
        UdpBindChoice::Address("127.0.0.1:9".to_string())
    );
    assert_eq!(next_port(8080), 8081);
    assert_eq!(next_port(u16::MAX), u16::MAX);
    assert_eq!(grpc_endpoint_setting(Some("Off".to_string())), None);
    assert_eq!(grpc_endpoint_setting(Some(String::new())), None);
    assert_eq!(
        grpc_endpoint_setting(Some("http://127.0.0.1:8554".to_string())),
        Some("http://127.0.0.1:8554".to_string())
    );
}

#[test]
fn dependency_setup_plans() {
    assert!(auto_install_enabled(None));
    assert!(!auto_install_enabled(Some("No")));
    assert!(!auto_install_enabled(Some("0")));
    assert!(auto_install_enabled(Some("yes")));
    let all = InstalledTools { xcrun: true, adb: true, idb: true, ffmpeg: true };
    assert!(setup_plan(true, all).is_empty());
    assert_eq!(setup_plan(false, all), vec![SetupStep::ReportDisabled]);
    let none = InstalledTools { xcrun: false, adb: false, idb: false, ffmpeg: false };
    assert_eq!(
        setup_plan(true, none),
        vec![
            SetupStep::WarnXcrunMissing,
            SetupStep::InstallAndroidPlatformTools,
            SetupStep::InstallIdb,
            SetupStep::InstallFfmpeg
        ]
    );
    let cmds = idb_install_commands(false, Some("/opt/python3"));
    assert_eq!(cmds.len(), 5);
    assert_eq!(cmds[4].program, "pipx");
    assert_eq!(cmds[4].args, ["install", "--python", "/opt/python3", "fb-idb"]);
    assert_eq!(idb_install_commands(true, None)[3].args, ["install", "fb-idb"]);
}

fn control(device_id: &str, command: ControlCommand) -> ControlRequest {
    ControlRequest { request_id: "r-1".to_string(), device_id: device_id.to_string(), command }
}

#[test]
fn control_messages_name_device_operations() {
    let tap = ControlCommand::Tap { x: 320, y: 640, source_width: Some(1080), source_height: None };
    let (id, op) = control_operation(control("android:emulator-5554", tap)).unwrap();
    assert_eq!((id.kind, id.raw.as_str()), (DeviceKind::Android, "emulator-5554"));
    match op {
        DeviceOperation::Tap(t) => {
            assert_eq!((t.x, t.y, t.source_width, t.source_height), (320, 640, Some(1080), None))
        }
        other => panic!("{other:?}"),
    }
    let swipe = ControlCommand::Swipe {
        x1: 1,
        y1: 2,
        x2: 3,
        y2: 4,
        duration_ms: Some(250),
        source_width: None,
        source_height: Some(7),
    };
    match control_operation(control("ios:A-B", swipe)).unwrap() {
        (id, DeviceOperation::Swipe(s)) => {
            assert_eq!(id.kind, DeviceKind::Ios);
            assert_eq!((s.x1, s.y1, s.x2, s.y2, s.duration_ms, s.source_height), (1, 2, 3, 4, Some(250), Some(7)));
        }
        other => panic!("{other:?}"),
    }
    let motion = ControlCommand::Motion { action: MotionAction::Up, x: 5, y: 6, source_width: None, source_height: None };
    match control_operation(control("ios:A", motion)).unwrap().1 {
        DeviceOperation::Motion(m) => assert!(matches!(m.action, MotionAction::Up) && m.x == 5 && m.y == 6),
        other => panic!("{other:?}"),
    }
    match control_operation(control("android:x", ControlCommand::Key { key: "BACK".to_string() })).unwrap().1 {
        DeviceOperation::Key(k) => assert_eq!(k.key, "BACK"),
        other => panic!("{other:?}"),
    }
    match control_operation(control("android:x", ControlCommand::Text { text: "hi there".to_string() })).unwrap().1 {
        DeviceOperation::Text(t) => assert_eq!(t.text, "hi there"),
        other => panic!("{other:?}"),
    }
    for (device_id, expected) in [
        ("emulator-5554", "device id must be android:<id> or ios:<id>"),
        ("ios: ", "device id cannot be empty"),
        ("tvos:x", "unknown device platform"),
    ] {
        match control_operation(control(device_id, ControlCommand::Key { key: "HOME".to_string() })) {
            Err(AppError::InvalidInput(m)) => assert_eq!(m, expected),
            other => panic!("{other:?}"),
        }
    }
}

#[test]
fn recordings_start_once_and_stop_once() {
    let mut recordings: DeviceTable<&str> = DeviceTable::new();
    assert!(ensure_not_recording(&recordings, "android:e").is_ok());
    recordings.insert("android:e".to_string(), "/sdcard/appmon-1.mp4");
    match ensure_not_recording(&recordings, "android:e") {
        Err(AppError::InvalidInput(m)) => assert_eq!(m, "recording is already running for android:e"),
        other => panic!("{other:?}"),
    }
    assert!(ensure_not_recording(&recordings, "ios:s").is_ok());
    assert_eq!(take_recording(&mut recordings, "android:e").unwrap(), "/sdcard/appmon-1.mp4");
    assert!(ensure_not_recording(&recordings, "android:e").is_ok());
    assert!(take_recording(&mut recordings, "android:e").is_err());
}

#[test]
fn control_reply_strings_are_escaped() {
    let reply = ControlResponse::error(Some("a\"b".to_string()), "x\\y\n\u{1}\t\u{7f}é".to_string());
    assert_eq!(
        reply.to_json(),
        "{\"type\":\"control_result\",\"request_id\":\"a\\\"b\",\"ok\":false,\"error\":\"x\\\\y\\n\\u0001\\t\u{7f}é\"}"
    );
}

#[test]
fn reencoding_keeps_small_frames_and_quality_matters() {
    let (_, small) = encode_stream_frame(&png(200, 100), 240, 70).unwrap();
    let decoded = image::load_from_memory(&small).unwrap();
    assert_eq!((decoded.width(), decoded.height()), (200, 100));
    let low = encode_stream_frame(&png(600, 300), 4096, 35).unwrap().1;
    let high = encode_stream_frame(&png(600, 300), 4096, 95).unwrap().1;
    assert_ne!(low, high);
    let video = prepare_video_jpeg_frame("image/png", png(600, 300), 240, 70).unwrap();
    assert_eq!(video, encode_stream_frame(&png(600, 300), 240, 70).unwrap().1);
    let jpeg = encode_stream_frame(&png(300, 200), 4096, 70).unwrap().1;
    assert_eq!(prepare_video_jpeg_frame("image/jpeg", jpeg.clone(), 1080, 70).unwrap(), encode_stream_frame(&jpeg, 1080, 70).unwrap().1);
}

#[test]
fn vp8_encoder_arguments_and_wait() {
    let args = vp8_encoder_command_args(12);
    assert_eq!(args.len(), 33);
    assert_eq!(&args[9..11], ["-framerate", "12"]);
    assert_eq!(&args[14..16], ["-c:v", "libvpx"]);
    assert_eq!(args.last().unwrap(), "pipe:1");
    assert_eq!(encoder_wait_step(true, true, u64::MAX), EncoderWait::Start);
    assert_eq!(encoder_wait_step(false, true, 0), EncoderWait::Closed);
    assert_eq!(encoder_wait_step(false, false, 8_000_000_001), EncoderWait::TimedOut);
    assert_eq!(encoder_wait_step(false, false, 8_000_000_000), EncoderWait::Wait);
}

#[test]
fn install_commands_name_their_failures() {
    let cmds = idb_install_commands(false, None);
    let contexts: Vec<&str> = cmds.iter().map(|c| c.context).collect();
    assert_eq!(
        contexts,
        [
            "brew tap facebook/fb failed",
            "brew trust facebook/fb failed",
            "brew install idb-companion failed",
            "brew install pipx failed",
            "pipx install fb-idb failed",
        ]
    );
}

#[test]
fn input_routes_fall_back_as_documented() {
    let a = DeviceKind::Android;
    let i = DeviceKind::Ios;
    assert_eq!(first_route(a.clone(), InputOp::Tap, true), Some(InputRoute::Grpc));
    assert_eq!(next_route(a.clone(), InputOp::Tap, InputRoute::Grpc), Some(InputRoute::AdbShell));
    assert_eq!(next_route(a.clone(), InputOp::Tap, InputRoute::AdbShell), None);
    assert_eq!(first_route(a.clone(), InputOp::Key, false), Some(InputRoute::AdbShell));
    assert_eq!(first_route(a.clone(), InputOp::Swipe, true), Some(InputRoute::AdbShell));
    assert_eq!(first_route(a.clone(), InputOp::Motion(MotionAction::Move), true), Some(InputRoute::Grpc));
    assert_eq!(first_route(i.clone(), InputOp::Tap, true), Some(InputRoute::Idb));
    assert_eq!(next_route(i.clone(), InputOp::Tap, InputRoute::Idb), Some(InputRoute::WindowTap));
    assert_eq!(next_route(i.clone(), InputOp::Tap, InputRoute::WindowTap), None);
    for op in [InputOp::Swipe, InputOp::Text, InputOp::Key, InputOp::Motion(MotionAction::Up)] {
        assert_eq!(first_route(i.clone(), op, false), Some(InputRoute::Idb));
        assert_eq!(next_route(i.clone(), op, InputRoute::Idb), None);
    }
    assert_eq!(first_route(i.clone(), InputOp::Motion(MotionAction::Down), false), None);
    assert_eq!(first_route(i, InputOp::Motion(MotionAction::Move), true), None);
}

#[test]
fn device_state_steps() {
    let mut shells: DeviceTable<u8> = DeviceTable::new();
    appmon::table::keep_shell_after_write(&mut shells, "emulator-5554".to_string(), 1, true);
    assert_eq!(shells.get("emulator-5554"), Some(&1));
    appmon::table::keep_shell_after_write(&mut shells, "emulator-5554".to_string(), 2, false);
    assert_eq!(shells.get("emulator-5554"), None);
    let mut sizes: DeviceTable<PointDimensions> = DeviceTable::new();
    let p = appmon::table::remember_points(&mut sizes, "A".to_string(), None);
    assert_eq!((p.width, p.height), (390, 844));
    let q = PointDimensions { width: 430, height: 932 };
    assert_eq!(appmon::table::remember_points(&mut sizes, "B".to_string(), Some(q)), q);
    assert_eq!(sizes.get("A"), Some(&p));
    assert_eq!(sizes.get("B"), Some(&q));
}

#[test]
fn bind_settings_are_checked() {
    assert_eq!(checked_bind(Some(8080)).unwrap(), 8080);
    match checked_bind::<u16>(None) {
        Err(AppError::InvalidInput(m)) => assert_eq!(m, "APPMON_BIND must be host:port"),
        other => panic!("{other:?}"),
    }
    match checked_udp_bind::<u16>(None) {
        Err(AppError::InvalidInput(m)) => assert_eq!(m, "APPMON_UDP_BIND must be host:port, off, or false"),
        other => panic!("{other:?}"),
    }
    assert_eq!(checked_udp_bind(Some("127.0.0.1:18082")).unwrap(), "127.0.0.1:18082");
}
