use simhub::clock::{screenshot_file_name, format_logcat_time, local_now_parts, ClockParts};
use simhub::harmony::{
    build_harmony_kill_args, build_harmony_start_args, build_harmony_stop_args, get_emulator_path,
    get_hdc_path, list_harmony_emulators, parse_harmony_list, parse_hdc_targets,
};
use simhub::ios::{build_ios_simulators, list_ios_simulators, SimRecord};
use simhub::model::LifecycleError;
use simhub::usb::{
    c_buf_to_bytes, decode_ascii_string, decode_c_string, decode_usb_device, list_usb_devices,
    usb_type_name, UsbRecord,
};

#[test]
fn harmony_listing_skips_header_furniture() {
    let names = parse_harmony_list("List of local devices:\n---\nHuawei_Phone\n\nHuawei_Pad\n");
    assert_eq!(names, vec!["Huawei_Phone", "Huawei_Pad"]);
}

#[test]
fn harmony_targets_skip_bracketed_status() {
    let targets = parse_hdc_targets("[Empty]\n127.0.0.1:5555\n");
    assert_eq!(targets, vec!["127.0.0.1:5555"]);
}

#[test]
fn harmony_correlation_claims_by_containment() {
    let devices = list_harmony_emulators(
        "Huawei_Phone\nHuawei_Pad\n",
        Some("Huawei_Phone_127.0.0.1\n"),
    );
    assert_eq!(devices.len(), 2);
    assert_eq!(devices[0].id, "Huawei_Phone_127.0.0.1");
    assert_eq!(devices[0].status, "running");
    assert_eq!(devices[1].id, "Huawei_Pad");
    assert_eq!(devices[1].status, "stopped");
    assert_eq!(devices[0].device_type, "HarmonyOS Device");
    assert_eq!(devices[0].os_version, "HarmonyOS NEXT");
}

#[test]
fn harmony_listing_without_live_source_is_all_stopped() {
    let devices = list_harmony_emulators("Huawei_Phone\n", None);
    assert_eq!(devices[0].status, "stopped");
}

#[test]
fn harmony_path_errors_name_the_setting() {
    let err = get_emulator_path(None, false).unwrap_err();
    assert!(matches!(err, LifecycleError::ConfigurationMissing { .. }));
    assert_eq!(
        err.message(),
        "Emulator path not configured. Please set DevEco Studio path or Emulator path in Settings."
    );
    let err = get_emulator_path(Some("/t/Emulator".to_string()), false).unwrap_err();
    assert!(matches!(err, LifecycleError::ToolNotFound { .. }));
    assert_eq!(err.message(), "Emulator not found at: /t/Emulator. Please check your settings.");
    assert_eq!(get_emulator_path(Some("/t/Emulator".to_string()), true).unwrap(), "/t/Emulator");

    let err = get_hdc_path(None, true).unwrap_err();
    assert_eq!(
        err.message(),
        "hdc path not configured. Please set DevEco Studio path or hdc path in Settings."
    );
}

#[test]
fn harmony_arg_builders_are_exact() {
    let start = build_harmony_start_args("dev1", "/emu", "/img");
    let got: Vec<&str> = start.iter().map(|s| s.as_str()).collect();
    assert_eq!(got, vec!["-hvd", "dev1", "-path", "/emu", "-imageRoot", "/img"]);

    let stop = build_harmony_stop_args("dev1");
    let got: Vec<&str> = stop.iter().map(|s| s.as_str()).collect();
    assert_eq!(got, vec!["-t", "dev1", "shell", "reboot", "-p"]);

    let kill = build_harmony_kill_args("dev1");
    let got: Vec<&str> = kill.iter().map(|s| s.as_str()).collect();
    assert_eq!(got, vec!["-kill", "dev1"]);
}

#[test]
fn ios_listing_reads_the_json_document() {
    // Through the outside JSON parser: a wrapper that handed the
    // text back unchanged could not produce these fields.
    let json = "{\"devices\":{\"com.apple.CoreSimulator.SimRuntime.iOS-17-2\":[\
        {\"udid\":\"ABC-123\",\"name\":\"iPhone 15\",\"state\":\"Booted\",\
        \"deviceTypeIdentifier\":\"com.apple.CoreSimulator.SimDeviceType.iPhone-15\"},\
        {\"udid\":\"DEF-456\",\"name\":\"iPhone SE\",\"state\":\"Shutdown\"},\
        {\"name\":\"incomplete\"}]}}";
    let sims = list_ios_simulators(json);
    assert_eq!(sims.len(), 2);
    assert_eq!(sims[0].id, "ABC-123");
    assert_eq!(sims[0].name, "iPhone 15");
    assert_eq!(sims[0].status, "running");
    assert_eq!(sims[0].device_type, "iPhone-15");
    assert_eq!(sims[0].os_version, "iOS-17-2");
    assert_eq!(sims[1].id, "DEF-456");
    assert_eq!(sims[1].status, "stopped");
    assert_eq!(sims[1].device_type, "iPhone SE");
}

#[test]
fn ios_listing_of_invalid_json_is_empty() {
    assert!(list_ios_simulators("not json at all").is_empty());
}

#[test]
fn ios_builder_strips_prefixes_everywhere() {
    let recs = vec![SimRecord {
        runtime: "com.apple.CoreSimulator.SimRuntime.iOS-16-0".to_string(),
        udid: Some("U".to_string()),
        name: Some("N".to_string()),
        state: Some("Shutdown".to_string()),
        device_type: None,
    }];
    let sims = build_ios_simulators(&recs);
    assert_eq!(sims[0].device_type, "N");
    assert_eq!(sims[0].os_version, "iOS-16-0");
}

#[test]
fn screenshot_name_is_exact() {
    let p = ClockParts { year: 2024, month: 2, day: 4, hour: 10, minute: 30, second: 7 };
    assert_eq!(screenshot_file_name("Pixel_6", &p), "screenshot_Pixel_6_20240204_103007.png");
    assert_eq!(format_logcat_time(&p), "02-04 10:30:07.000");
}

#[test]
fn live_clock_is_in_range() {
    let p = local_now_parts();
    assert!((1..=12).contains(&p.month));
    assert!((1..=31).contains(&p.day));
    assert!(p.hour <= 23 && p.minute <= 59 && p.second <= 59);
}

#[test]
fn c_buffers_truncate_at_the_first_nul() {
    assert_eq!(c_buf_to_bytes(&[b'a', b'b', 0, b'c']), vec![b'a', b'b']);
    assert_eq!(c_buf_to_bytes(&[b'a', b'b']), vec![b'a', b'b']);
    assert_eq!(c_buf_to_bytes(&[0, b'x']), Vec::<u8>::new());
}

#[test]
fn ascii_fields_decode_one_to_one() {
    assert_eq!(decode_ascii_string(&[b'1', b'2', b'a', 0, 0]), "12a");
    assert_eq!(decode_ascii_string(&[0]), "");
}

#[test]
fn text_fields_decode_gbk_on_windows() {
    // The GBK bytes of two Chinese characters; a wrapper handing the
    // bytes back unchanged could not produce this text.
    let buf = [0xC4u8, 0xE3, 0xBA, 0xC3, 0, 0];
    assert_eq!(decode_c_string(&buf, true), "\u{4f60}\u{597d}");
    assert_eq!(decode_c_string(&[b'o', b'k', 0], false), "ok");
}

#[test]
fn usb_type_tags_map_to_platform_names() {
    assert_eq!(usb_type_name(0), "android");
    assert_eq!(usb_type_name(1), "ios");
    assert_eq!(usb_type_name(2), "harmony");
    assert_eq!(usb_type_name(9), "unknown");
}

fn record(tag: i32) -> UsbRecord {
    UsbRecord {
        device_type: tag,
        name: b"Phone\0".to_vec(),
        serial: b"SER123\0".to_vec(),
        brand: b"Maker\0".to_vec(),
        vendor_id: b"18d1\0".to_vec(),
        product_id: b"4ee7\0".to_vec(),
        usb_debugging: true,
        trusted: false,
    }
}

#[test]
fn usb_flags_depend_on_the_platform() {
    let android = decode_usb_device(&record(0), false);
    assert_eq!(android.device_type, "android");
    assert_eq!(android.name, "Phone");
    assert_eq!(android.serial, "SER123");
    assert_eq!(android.vendor_id, "18d1");
    assert_eq!(android.usb_debugging, Some(true));
    assert_eq!(android.trusted, None);

    let ios = decode_usb_device(&record(1), false);
    assert_eq!(ios.usb_debugging, None);
    assert_eq!(ios.trusted, Some(false));
}

#[test]
fn usb_scan_failure_is_the_fixed_error() {
    assert_eq!(list_usb_devices(None, false).unwrap_err(), "USB scan failed");
    let records = vec![record(0), record(2)];
    let devices = list_usb_devices(Some(&records), false).unwrap();
    assert_eq!(devices.len(), 2);
    assert_eq!(devices[1].device_type, "harmony");
}
