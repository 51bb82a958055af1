use simhub::android::{
    adb_shows_ready, build_emulator_args, correlate_android, delete_failure_message,
    evaluate_start_poll, find_target_serial, force_kill_pids, list_android_emulators,
    lookup_serial, parse_adb_devices, parse_avd_list, resolve_stop_serial, settle_decision,
    ExitCapture, IdentityPair, PollObservation, SettleDecision,
};
use simhub::model::{HostOs, LifecycleError};
use simhub::settings::EmulatorLaunchParams;

fn pair(serial: &str, avd: &str) -> IdentityPair {
    IdentityPair { serial: serial.to_string(), avd: avd.to_string() }
}

#[test]
fn avd_list_trims_and_skips_blanks() {
    let names = parse_avd_list("Pixel_6\n\n  Tablet_API_34  \r\n");
    assert_eq!(names.len(), 2);
    assert_eq!(names[0], "Pixel_6");
    assert_eq!(names[1], "Tablet_API_34");
}

#[test]
fn avd_list_dedupes_first_match() {
    let names = parse_avd_list("Pixel_6\nTablet\nPixel_6\n");
    assert_eq!(names.len(), 2);
    assert_eq!(names[0], "Pixel_6");
    assert_eq!(names[1], "Tablet");
}

#[test]
fn adb_devices_picks_live_serials() {
    let out = "List of devices attached\nemulator-5554\tdevice\nemulator-5556\toffline\n";
    let serials = parse_adb_devices(out);
    assert_eq!(serials.len(), 1);
    assert_eq!(serials[0], "emulator-5554");
}

#[test]
fn correlation_replaces_id_with_live_serial() {
    // A declared device whose identity query answers its name is
    // listed as running under the live serial.
    let devices = list_android_emulators(
        "Pixel_6\n",
        &vec![pair("emulator-5554", "Pixel_6")],
        "",
    );
    assert_eq!(devices.len(), 1);
    assert_eq!(devices[0].id, "emulator-5554");
    assert_eq!(devices[0].status, "running");
    assert_eq!(devices[0].name, "Pixel_6");
}

#[test]
fn uncorrelated_devices_stay_stopped() {
    let devices = list_android_emulators("Pixel_6\nTablet\n", &Vec::new(), "");
    assert_eq!(devices.len(), 2);
    assert_eq!(devices[0].id, "Pixel_6");
    assert_eq!(devices[0].status, "stopped");
    assert_eq!(devices[1].status, "stopped");
}

#[test]
fn process_table_fallback_marks_running_without_serial() {
    let ps = "user 321 /sdk/emulator/qemu-system-x86_64 -avd Pixel_6\n";
    let devices = list_android_emulators("Pixel_6\n", &Vec::new(), ps);
    assert_eq!(devices[0].id, "Pixel_6");
    assert_eq!(devices[0].status, "running");
}

#[test]
fn listing_has_no_duplicate_ids() {
    let devices = list_android_emulators(
        "Pixel_6\nPixel_6\nTablet\n",
        &vec![pair("emulator-5554", "Pixel_6")],
        "",
    );
    for i in 0..devices.len() {
        for j in 0..devices.len() {
            if i != j {
                assert_ne!(devices[i].id, devices[j].id);
            }
        }
    }
}

#[test]
fn lookup_serial_takes_first_pair() {
    let pairs = vec![pair("emulator-5554", "A"), pair("emulator-5556", "A")];
    assert_eq!(lookup_serial(&pairs, "A").unwrap(), "emulator-5554");
    assert!(lookup_serial(&pairs, "B").is_none());
}

#[test]
fn emulator_args_map_params_one_to_one() {
    let mut p = EmulatorLaunchParams::default();
    p.no_window = true;
    p.dns_server = "8.8.8.8".to_string();
    p.gps_longitude = "121.47".to_string();
    p.gps_latitude = "31.23".to_string();
    p.memory = Some(2048);
    p.http_proxy = "http://proxy:8080".to_string();
    let args = build_emulator_args("Pixel_6", &p);
    let expect = vec![
        "-avd",
        "Pixel_6",
        "-no-window",
        "-dns-server",
        "8.8.8.8",
        "-gps",
        "121.47,31.23",
        "-memory",
        "2048",
        "-http-proxy",
        "http://proxy:8080",
    ];
    let got: Vec<&str> = args.iter().map(|s| s.as_str()).collect();
    assert_eq!(got, expect);
}

#[test]
fn default_params_build_bare_args() {
    let args = build_emulator_args("Pixel_6", &EmulatorLaunchParams::default());
    let got: Vec<&str> = args.iter().map(|s| s.as_str()).collect();
    assert_eq!(got, vec!["-avd", "Pixel_6"]);
}

#[test]
fn settle_prefers_stderr_then_stdout_then_status() {
    let fail = |stderr: &str, stdout: &str| ExitCapture {
        success: false,
        stderr: stderr.to_string(),
        stdout: stdout.to_string(),
        status_text: "exit status: 1".to_string(),
    };
    match settle_decision(Some(fail("boom", "noise"))) {
        SettleDecision::Fail { error } => assert_eq!(error.message(), "boom"),
        _ => panic!("expected a failure"),
    }
    match settle_decision(Some(fail("", "noise"))) {
        SettleDecision::Fail { error } => assert_eq!(error.message(), "noise"),
        _ => panic!("expected a failure"),
    }
    match settle_decision(Some(fail("", ""))) {
        SettleDecision::Fail { error } => {
            assert_eq!(error.message(), "Emulator exited with status: exit status: 1")
        },
        _ => panic!("expected a failure"),
    }
    assert!(matches!(settle_decision(None), SettleDecision::Poll));
}

#[test]
fn ready_scan_sees_device_lines_but_not_header() {
    assert!(adb_shows_ready("List of devices attached\nemulator-5554\tdevice\n", "zzz"));
    assert!(!adb_shows_ready("List of devices attached\n", "zzz"));
    assert!(adb_shows_ready("anything with the id", "the id"));
}

#[test]
fn start_times_out_into_success() {
    // The child stays alive through the whole polling budget without
    // confirmed readiness: the start still succeeds.
    let quiet = PollObservation { ready: false, child_exited: false };
    let obs: Vec<PollObservation> = (0..30).map(|_| quiet).collect();
    assert!(evaluate_start_poll(30, &obs).is_ok());
}

#[test]
fn start_fails_when_child_dies_while_polling() {
    let obs = vec![
        PollObservation { ready: false, child_exited: false },
        PollObservation { ready: false, child_exited: true },
    ];
    let err = evaluate_start_poll(30, &obs).unwrap_err();
    assert_eq!(err.message(), "Emulator process terminated unexpectedly");
}

#[test]
fn start_succeeds_on_readiness() {
    let obs = vec![
        PollObservation { ready: false, child_exited: false },
        PollObservation { ready: true, child_exited: true },
    ];
    assert!(evaluate_start_poll(30, &obs).is_ok());
}

#[test]
fn stop_resolves_serial_from_matching_line() {
    let out = "List of devices attached\nemulator-5554\tdevice\n";
    assert_eq!(find_target_serial(out, "5554").unwrap(), "emulator-5554");
    assert!(find_target_serial(out, "5556").is_none());
}

#[test]
fn stop_miss_is_a_not_found_error() {
    let err = resolve_stop_serial("List of devices attached\n", "Pixel_6").unwrap_err();
    assert!(matches!(err, LifecycleError::NotFound { .. }));
    assert_eq!(err.message(), "Emulator 'Pixel_6' not found in running devices");
}

#[test]
fn forced_termination_targets_only_matching_lines() {
    // One line matches the tool binary and the device; the unrelated
    // lines must contribute no process id.
    let lines = vec![
        "user 123 0.0 qemu-system-x86_64 -avd Pixel_6".to_string(),
        "user 456 0.0 /usr/bin/editor notes.txt".to_string(),
        "user 789 0.0 qemu-system-x86_64 -avd Other".to_string(),
    ];
    let pids = force_kill_pids(&lines, "Pixel_6", "emulator-5554", HostOs::Linux).unwrap();
    assert_eq!(pids, vec![123]);
}

#[test]
fn forced_termination_generic_pass_and_miss() {
    // Nothing matches the device: the generic emulator signature is
    // the fallback.
    let lines = vec!["user 55 0.0 qemu-system-x86_64 -avd Other".to_string()];
    let pids = force_kill_pids(&lines, "Pixel_6", "emulator-5554", HostOs::MacOs).unwrap();
    assert_eq!(pids, vec![55]);

    let none = vec!["user 56 0.0 /usr/bin/editor".to_string()];
    let err = force_kill_pids(&none, "Pixel_6", "emulator-5554", HostOs::Linux).unwrap_err();
    assert_eq!(err.message(), "Cannot find process for emulator: Pixel_6");
}

#[test]
fn forced_termination_reads_csv_pids_on_windows() {
    let lines = vec![
        "NODE,emulator.exe -avd Pixel_6,4242".to_string(),
        "NODE,notepad.exe,17".to_string(),
    ];
    let pids = force_kill_pids(&lines, "Pixel_6", "emulator-5554", HostOs::Windows).unwrap();
    assert_eq!(pids, vec![4242]);
}

#[test]
fn delete_message_prefers_streams() {
    assert_eq!(delete_failure_message("A", "bad", "out"), "bad");
    assert_eq!(delete_failure_message("A", "", "out"), "out");
    assert_eq!(delete_failure_message("A", "", ""), "Failed to delete AVD: A");
}

#[test]
fn correlate_prefers_serial_over_process_table() {
    let ps = "user 1 qemu-system -avd Pixel_6\n";
    let devices =
        correlate_android(&vec!["Pixel_6".to_string()], &vec![pair("emulator-5554", "Pixel_6")], ps);
    assert_eq!(devices[0].id, "emulator-5554");
    assert_eq!(devices[0].status, "running");
}
