use transfel::adb::{getprop, pick_tool, reverse_args, run_output, shell, tool_candidates, tool_name};
use transfel::device::{parse_resolution, DeviceInfo};
use transfel::stream::{frame_fits, latest_frame, packet_step, rgba_len, PacketStep, MAX_PACKET};
use transfel::watcher::{
    emit, encode_request, is_okay, parse_devices, payload_len, strip_header, track_request,
    DeviceEvent, DeviceSummary,
};

fn summary(serial: &str, state: &str, wifi: bool) -> DeviceSummary {
    DeviceSummary { serial: serial.to_string(), state: state.to_string(), Wifi: wifi }
}

fn same(a: &[DeviceSummary], b: &[DeviceSummary]) -> bool {
    a.len() == b.len()
        && a.iter().zip(b.iter()).all(|(x, y)| x.serial == y.serial && x.state == y.state && x.Wifi == y.Wifi)
}

// ───────────── adb ─────────────

#[test]
fn run_output_trims_on_success() {
    assert_eq!(run_output(true, "  hello\n"), Some("hello".to_string()));
    assert_eq!(run_output(false, "hello"), None);
}

#[test]
fn shell_and_getprop_arguments() {
    assert_eq!(shell("abc", "wm size"), vec!["-s", "abc", "shell", "wm size"]);
    assert_eq!(
        getprop("abc", "ro.product.model"),
        vec!["-s", "abc", "shell", "getprop ro.product.model"]
    );
    assert_eq!(reverse_args("abc"), vec!["-s", "abc", "reverse", "tcp:5000", "tcp:5000"]);
}

#[test]
fn tool_name_adds_exe_on_windows() {
    assert_eq!(tool_name("adb", true), "adb.exe");
    assert_eq!(tool_name("ffmpeg", false), "ffmpeg");
}

#[test]
fn tool_candidates_beside_and_above_the_program() {
    let (installed, dev) = tool_candidates("/opt/app/bin/transfel", "adb");
    assert_eq!(installed, "/opt/app/bin/tools/adb");
    assert_eq!(dev, Some("/opt/tools/adb".to_string()));
    let (installed, dev) = tool_candidates("/transfel", "adb");
    assert_eq!(installed, "/tools/adb");
    assert_eq!(dev, None);
}

#[test]
fn pick_tool_prefers_installed_then_dev_then_path() {
    assert_eq!(pick_tool("adb", "/a/tools/adb", true, Some("/b/tools/adb"), true), "/a/tools/adb");
    assert_eq!(pick_tool("adb", "/a/tools/adb", false, Some("/b/tools/adb"), true), "/b/tools/adb");
    assert_eq!(pick_tool("adb", "/a/tools/adb", false, Some("/b/tools/adb"), false), "adb");
    assert_eq!(pick_tool("adb", "/a/tools/adb", false, None, true), "adb");
}

// ───────────── device ─────────────

#[test]
fn parse_resolution_reads_width_and_height() {
    assert_eq!(parse_resolution("1080x2400"), Some((1080, 2400)));
    assert_eq!(parse_resolution("  720 x 1280 "), Some((720, 1280)));
    assert_eq!(parse_resolution("+720x1280"), Some((720, 1280)));
    assert_eq!(parse_resolution("1080*2400"), None);
    assert_eq!(parse_resolution("x2400"), None);
    assert_eq!(parse_resolution("1080x"), None);
    assert_eq!(parse_resolution("-5x10"), None);
    assert_eq!(parse_resolution("10x20x30"), None);
}

#[test]
fn disconnected_device_defaults() {
    let d = DeviceInfo::disconnected();
    assert!(d.serial.is_none());
    assert!(!d.is_connected());
    assert_eq!(d.model, "-");
    assert_eq!(d.android, "-");
    assert_eq!(d.resolution, "-");
    assert_eq!(d.density, "-");
    assert_eq!((d.width, d.height), (720, 1280));
    let e = DeviceInfo::default();
    assert_eq!((e.width, e.height), (720, 1280));
}

#[test]
fn detect_picks_the_first_ready_device() {
    let out = "List of devices attached\nR58M123\tunauthorized\nemulator-5554\tdevice\n192.168.1.5:5555\tdevice";
    assert_eq!(DeviceInfo::detect(Some(out)), Ok("emulator-5554".to_string()));
}

#[test]
fn detect_errors() {
    assert_eq!(DeviceInfo::detect(None), Err("No se pudo iniciar ADB".to_string()));
    assert_eq!(
        DeviceInfo::detect(Some("List of devices attached\n")),
        Err("Conecta tu dispositivo Android".to_string())
    );
    assert_eq!(
        DeviceInfo::detect(Some("List of devices attached\nabc\toffline")),
        Err("Conecta tu dispositivo Android".to_string())
    );
    // the header line is never a device
    assert_eq!(DeviceInfo::detect(Some("abc device")), Err("Conecta tu dispositivo Android".to_string()));
}

#[test]
fn from_probe_strips_labels_and_reads_size() {
    let d = DeviceInfo::from_probe(
        "abc".to_string(),
        Some("Pixel 7".to_string()),
        Some("14".to_string()),
        Some("Physical size: 1080x2400".to_string()),
        Some("Physical density: 420".to_string()),
    );
    assert_eq!(d.serial, Some("abc".to_string()));
    assert!(d.is_connected());
    assert_eq!(d.model, "Pixel 7");
    assert_eq!(d.android, "14");
    assert_eq!(d.resolution, "1080x2400");
    assert_eq!(d.density, "420");
    assert_eq!((d.width, d.height), (1080, 2400));
}

#[test]
fn from_probe_keeps_defaults_where_commands_failed() {
    let d = DeviceInfo::from_probe("abc".to_string(), None, None, Some("Physical size: big".to_string()), None);
    assert_eq!(d.model, "-");
    assert_eq!(d.android, "-");
    assert_eq!(d.resolution, "big");
    assert_eq!(d.density, "-");
    assert_eq!((d.width, d.height), (720, 1280));
}

// ───────────── watcher ─────────────

#[test]
fn parse_devices_reads_serial_state_and_wifi() {
    let list = parse_devices("emulator-5554\tdevice\n192.168.1.5:5555\toffline\n\nbad\n");
    assert!(same(
        &list,
        &[summary("emulator-5554", "device", false), summary("192.168.1.5:5555", "offline", true)]
    ));
    assert!(list[0].ready());
    assert!(!list[1].ready());
}

#[test]
fn summary_labels() {
    assert_eq!(summary("abc", "device", false).label(), "🔌  abc");
    assert_eq!(summary("1.2.3.4:5555", "device", true).label(), "📶  1.2.3.4:5555");
}

#[test]
fn emit_sends_only_changes() {
    let mut last: Vec<DeviceSummary> = Vec::new();
    match emit("abc\tdevice\n", &mut last) {
        Some(DeviceEvent::Devices(v)) => assert!(same(&v, &[summary("abc", "device", false)])),
        None => panic!("a new list is sent"),
    }
    assert!(same(&last, &[summary("abc", "device", false)]));
    assert!(emit("abc\tdevice", &mut last).is_none());
    match emit("", &mut last) {
        Some(DeviceEvent::Devices(v)) => assert!(v.is_empty()),
        None => panic!("an emptied list is sent"),
    }
    assert!(last.is_empty());
}

#[test]
fn strip_header_drops_first_line() {
    assert_eq!(strip_header("List of devices attached\na\tdevice\nb\toffline\n"), "a\tdevice\nb\toffline");
    assert_eq!(strip_header(""), "");
}

#[test]
fn encode_request_prefixes_hex_length() {
    assert_eq!(encode_request("host:version"), b"000chost:version".to_vec());
    assert_eq!(encode_request(""), b"0000".to_vec());
    assert_eq!(track_request(), b"0012host:track-devices".to_vec());
    let long = "a".repeat(0x1abc);
    let r = encode_request(&long);
    assert_eq!(&r[..4], b"1abc");
    assert_eq!(r.len(), 4 + 0x1abc);
}

#[test]
fn okay_status() {
    assert!(is_okay(b"OKAY"));
    assert!(!is_okay(b"FAIL"));
    assert!(!is_okay(b"okay"));
}

#[test]
fn payload_len_reads_hex() {
    assert_eq!(payload_len(*b"001a"), 26);
    assert_eq!(payload_len(*b"00FF"), 255);
    assert_eq!(payload_len(*b"ffff"), 65535);
    assert_eq!(payload_len(*b"+0ff"), 255);
    assert_eq!(payload_len(*b"00g1"), 0);
    assert_eq!(payload_len(*b"0000"), 0);
}

#[test]
fn header_round_trip_on_values() {
    for n in [0usize, 1, 15, 16, 255, 4096, 65535] {
        let msg = "x".repeat(n);
        let r = encode_request(&msg);
        let h = [r[0], r[1], r[2], r[3]];
        assert_eq!(payload_len(h), n);
    }
}

// ───────────── stream ─────────────

#[test]
fn packet_headers() {
    assert_eq!(packet_step([0, 0, 0, 0]), PacketStep::Skip);
    assert_eq!(packet_step([0, 0, 1, 0]), PacketStep::Read(256));
    assert_eq!(packet_step([0x01, 0x31, 0x2d, 0x00]), PacketStep::Read(20_000_000));
    assert_eq!(packet_step([0x01, 0x31, 0x2d, 0x01]), PacketStep::Stop);
    assert_eq!(packet_step([0xff, 0xff, 0xff, 0xff]), PacketStep::Stop);
    assert_eq!(MAX_PACKET, 20_000_000);
}

#[test]
fn frame_sizes() {
    assert!(frame_fits(720 * 1280 * 4, 720, 1280));
    assert!(!frame_fits(720 * 1280 * 3, 720, 1280));
    assert!(!frame_fits(usize::MAX, usize::MAX, 2));
    assert_eq!(rgba_len(720, 1280), Some(3_686_400));
    assert_eq!(rgba_len(usize::MAX, 2), None);
    assert_eq!(rgba_len(0, 5), Some(0));
}

#[test]
fn latest_frame_keeps_newest() {
    assert_eq!(latest_frame(vec![vec![1u8], vec![2u8, 3]]), Some(vec![2u8, 3]));
    assert_eq!(latest_frame(Vec::new()), None);
}
