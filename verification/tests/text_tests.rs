use simhub::model::HostOs;
use simhub::num::{i32_to_dec, pad_zeros, parse_u64, u64_to_dec, u64_to_dec_pad};
use simhub::text::{
    remove_all, split_lines, split_tokens, str_contains, str_eq, starts_with, trim,
};
use simhub::tools::{
    adb_path, android_emulator_path, avdmanager_path, build_avd_name_args, build_delete_avd_args,
    build_emu_kill_args, build_list_packages_args, build_open_simulator_args,
    build_screencap_args, build_simctl_boot_args, build_simctl_device_args,
    build_simctl_screenshot_args, join_path, opener_command,
};

#[test]
fn lines_split_like_the_tool_output() {
    assert_eq!(split_lines("a\nb\r\nc"), vec!["a", "b", "c"]);
    assert_eq!(split_lines("a\n"), vec!["a"]);
    assert_eq!(split_lines("a\n\nb"), vec!["a", "", "b"]);
    assert!(split_lines("").is_empty());
    assert_eq!(split_lines("\n"), vec![""]);
    assert_eq!(split_lines("x\r"), vec!["x\r"]);
}

#[test]
fn tokens_split_on_any_whitespace() {
    assert_eq!(split_tokens("emulator-5554\tdevice"), vec!["emulator-5554", "device"]);
    assert_eq!(split_tokens("  a  b "), vec!["a", "b"]);
    assert!(split_tokens("   ").is_empty());
}

#[test]
fn trim_strips_both_ends() {
    assert_eq!(trim("  x y\t"), "x y");
    assert_eq!(trim("xy"), "xy");
    assert_eq!(trim(" \t "), "");
}

#[test]
fn containment_and_prefixes() {
    assert!(str_contains("qemu-system-x86 -avd Pixel", "-avd Pixel"));
    assert!(!str_contains("short", "longer than the text"));
    assert!(str_contains("anything", ""));
    assert!(starts_with("package:com.x", "package:"));
    assert!(!starts_with("pack", "package:"));
    assert!(str_eq("same", "same"));
    assert!(!str_eq("same", "Same"));
}

#[test]
fn removal_deletes_every_occurrence() {
    assert_eq!(remove_all("aXbXc", "X"), "abc");
    assert_eq!(remove_all("XX", "X"), "");
    assert_eq!(remove_all("abc", "zz"), "abc");
    assert_eq!(
        remove_all("com.apple.CoreSimulator.SimDeviceType.iPhone-15", "com.apple.CoreSimulator.SimDeviceType."),
        "iPhone-15"
    );
}

#[test]
fn decimal_parsing_matches_the_grammar() {
    assert_eq!(parse_u64("123"), Some(123));
    assert_eq!(parse_u64("0"), Some(0));
    assert_eq!(parse_u64(""), None);
    assert_eq!(parse_u64("12a"), None);
    assert_eq!(parse_u64("-3"), None);
    assert_eq!(parse_u64("18446744073709551615"), Some(u64::MAX));
    assert_eq!(parse_u64("18446744073709551616"), None);
}

#[test]
fn decimal_rendering_is_exact() {
    assert_eq!(u64_to_dec(0), "0");
    assert_eq!(u64_to_dec(90210), "90210");
    assert_eq!(i32_to_dec(-42), "-42");
    assert_eq!(i32_to_dec(7), "7");
    assert_eq!(u64_to_dec_pad(7, 2), "07");
    assert_eq!(u64_to_dec_pad(123, 2), "123");
    assert_eq!(pad_zeros("9".to_string(), 4), "0009");
}

#[test]
fn tool_paths_follow_the_sdk_layout() {
    assert_eq!(android_emulator_path("/sdk", HostOs::Linux), "/sdk/emulator/emulator");
    assert_eq!(
        android_emulator_path("C:\\sdk", HostOs::Windows),
        "C:\\sdk\\emulator\\emulator.exe"
    );
    assert_eq!(adb_path("/sdk", HostOs::MacOs), "/sdk/platform-tools/adb");
    assert_eq!(
        avdmanager_path("/sdk", HostOs::Linux),
        "/sdk/cmdline-tools/latest/bin/avdmanager"
    );
    assert_eq!(join_path("/a", "b", HostOs::Linux), "/a/b");
}

#[test]
fn fixed_argument_grammars_are_exact() {
    let strs = |v: Vec<String>| v.iter().map(|s| s.to_string()).collect::<Vec<_>>();
    assert_eq!(
        strs(build_avd_name_args("emulator-5554")),
        vec!["-s", "emulator-5554", "emu", "avd", "name"]
    );
    assert_eq!(
        strs(build_emu_kill_args("emulator-5554")),
        vec!["-s", "emulator-5554", "emu", "kill"]
    );
    assert_eq!(strs(build_delete_avd_args("A")), vec!["delete", "avd", "-n", "A"]);
    assert_eq!(
        strs(build_screencap_args("emulator-5554")),
        vec!["-s", "emulator-5554", "exec-out", "screencap", "-p"]
    );
    assert_eq!(
        strs(build_list_packages_args("d", false)),
        vec!["-s", "d", "shell", "pm", "list", "packages"]
    );
    assert_eq!(
        strs(build_list_packages_args("d", true)),
        vec!["-s", "d", "shell", "pm", "list", "packages", "-s"]
    );
    assert_eq!(strs(build_simctl_boot_args("U")), vec!["simctl", "boot", "U"]);
    assert_eq!(strs(build_simctl_device_args("shutdown", "U")), vec!["simctl", "shutdown", "U"]);
    assert_eq!(strs(build_simctl_device_args("erase", "U")), vec!["simctl", "erase", "U"]);
    assert_eq!(
        strs(build_open_simulator_args("U")),
        vec!["-a", "Simulator", "--args", "-CurrentDeviceUDID", "U"]
    );
    assert_eq!(
        strs(build_simctl_screenshot_args("U", "/p.png")),
        vec!["simctl", "io", "U", "screenshot", "/p.png"]
    );
}

#[test]
fn opener_follows_the_host() {
    assert_eq!(opener_command(HostOs::Windows), "explorer");
    assert_eq!(opener_command(HostOs::MacOs), "open");
    assert_eq!(opener_command(HostOs::Linux), "xdg-open");
}
