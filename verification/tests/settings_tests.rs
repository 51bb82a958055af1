use simhub::model::HostOs;
use simhub::packages::get_device_packages;
use simhub::settings::{
    get_android_force_kill, get_android_home, get_deveco_home, get_emulator_launch_params,
    get_emulator_launch_params_sync, get_harmony_emulator_location, get_harmony_emulator_path,
    get_harmony_hdc_path, get_harmony_image_location, get_screenshot_dir, get_settings,
    load_settings, params_file_name, EmulatorLaunchParams, ParamsFile, Settings, SettingsFile,
};
use simhub::tools::{params_dir_path, settings_file_path};
use simhub::wipe::{evaluate_wipe, parse_ini_path, resolve_avd_dir, wipe_targets, WipeAttempt};

#[test]
fn default_settings_hold_the_documented_values() {
    let s = Settings::default();
    assert_eq!(s.language, "zh-CN");
    assert_eq!(s.theme, "system");
    assert!(!s.auto_start);
    assert!(s.minimize_to_tray);
    assert_eq!(s.android_home, "");
    assert!(!s.android_force_kill);
}

#[test]
fn loading_a_missing_file_yields_defaults() {
    let s = load_settings(SettingsFile::Missing).unwrap();
    assert_eq!(s.language, "zh-CN");
}

#[test]
fn load_failures_carry_the_reader_text() {
    let e = load_settings(SettingsFile::Unreadable { error: "denied".to_string() }).unwrap_err();
    assert_eq!(e, "Failed to read settings file: denied");
    let e = load_settings(SettingsFile::Malformed { error: "eof".to_string() }).unwrap_err();
    assert_eq!(e, "Failed to parse settings: eof");
}

#[test]
fn android_home_prefers_settings_then_environment() {
    let mut s = Settings::default();
    s.android_home = "/opt/sdk".to_string();
    assert_eq!(
        get_android_home(Some(&s), Some("/env".to_string()), None, None).unwrap(),
        "/opt/sdk"
    );
    let empty = Settings::default();
    assert_eq!(
        get_android_home(Some(&empty), Some("/env".to_string()), None, None).unwrap(),
        "/env"
    );
    assert_eq!(
        get_android_home(Some(&empty), None, Some("/root2".to_string()), None).unwrap(),
        "/root2"
    );
    assert_eq!(
        get_android_home(None, None, None, Some("/home/u/Library/Android/sdk".to_string()))
            .unwrap(),
        "/home/u/Library/Android/sdk"
    );
    assert!(get_android_home(Some(&empty), None, None, None).is_none());
}

#[test]
fn force_kill_defaults_to_graceful() {
    assert!(!get_android_force_kill(None));
    let mut s = Settings::default();
    s.android_force_kill = true;
    assert!(get_android_force_kill(Some(&s)));
}

#[test]
fn screenshot_dir_falls_back_to_pictures() {
    let mut s = Settings::default();
    assert_eq!(
        get_screenshot_dir(Some(&s), Some("/pics".to_string())).unwrap(),
        "/pics"
    );
    s.screenshot_dir = "/shots".to_string();
    assert_eq!(get_screenshot_dir(Some(&s), Some("/pics".to_string())).unwrap(), "/shots");
}

#[test]
fn harmony_locations_require_configuration() {
    let s = Settings::default();
    assert!(get_harmony_emulator_location(Some(&s)).is_none());
    assert!(get_harmony_image_location(Some(&s)).is_none());
    let mut s2 = Settings::default();
    s2.harmony_emulator_location = "/emu".to_string();
    s2.harmony_image_location = "/img".to_string();
    assert_eq!(get_harmony_emulator_location(Some(&s2)).unwrap(), "/emu");
    assert_eq!(get_harmony_image_location(Some(&s2)).unwrap(), "/img");
}

#[test]
fn harmony_paths_compose_from_the_studio_location() {
    let mut s = Settings::default();
    s.deveco_home = "/opt/deveco".to_string();
    assert_eq!(
        get_harmony_emulator_path(Some(&s), HostOs::MacOs).unwrap(),
        "/opt/deveco/Contents/tools/emulator/Emulator"
    );
    assert_eq!(
        get_harmony_emulator_path(Some(&s), HostOs::Windows).unwrap(),
        "/opt/deveco/tools/emulator/Emulator.exe"
    );
    assert_eq!(
        get_harmony_hdc_path(Some(&s), HostOs::Linux).unwrap(),
        "/opt/deveco/sdk/default/openharmony/toolchains/hdc"
    );
    s.harmony_hdc_path = "/explicit/hdc".to_string();
    assert_eq!(get_harmony_hdc_path(Some(&s), HostOs::Linux).unwrap(), "/explicit/hdc");
    assert!(get_harmony_emulator_path(Some(&Settings::default()), HostOs::Linux).is_none());
}

#[test]
fn deveco_home_falls_back_to_environment() {
    assert_eq!(
        get_deveco_home(Some(&Settings::default()), Some("/env/deveco".to_string())).unwrap(),
        "/env/deveco"
    );
}

#[test]
fn settings_pick_up_environment_defaults() {
    let s = get_settings(
        Settings::default(),
        Some("/env/sdk".to_string()),
        None,
        Some("/env/deveco".to_string()),
        None,
        Some("/pics".to_string()),
        HostOs::MacOs,
    );
    assert_eq!(s.android_home, "/env/sdk");
    assert_eq!(s.deveco_home, "/env/deveco");
    assert_eq!(s.xcode_home, "/Applications/Xcode.app/Contents/Developer");
    assert_eq!(s.screenshot_dir, "/pics");

    let s2 = get_settings(
        Settings::default(),
        None,
        Some("/sdk2".to_string()),
        None,
        Some("/dev/dir".to_string()),
        None,
        HostOs::MacOs,
    );
    assert_eq!(s2.android_home, "/sdk2");
    assert_eq!(s2.xcode_home, "/dev/dir");

    let s3 = get_settings(Settings::default(), None, None, None, None, None, HostOs::Linux);
    assert_eq!(s3.xcode_home, "");
}

#[test]
fn default_launch_params_hold_the_documented_values() {
    let p = EmulatorLaunchParams::default();
    assert!(!p.no_window && !p.wipe_data && !p.no_snapshot);
    assert_eq!(p.dns_server, "");
    assert!(p.memory.is_none() && p.cores.is_none());
    assert_eq!(p.gpu, "auto");
}

#[test]
fn launch_params_fall_back_to_defaults() {
    let p = get_emulator_launch_params(ParamsFile::Missing).unwrap();
    assert_eq!(p.gpu, "auto");
    let p = get_emulator_launch_params(ParamsFile::Contents { params: None }).unwrap();
    assert_eq!(p.gpu, "auto");
    let mut custom = EmulatorLaunchParams::default();
    custom.no_window = true;
    let p = get_emulator_launch_params(ParamsFile::Contents { params: Some(custom) }).unwrap();
    assert!(p.no_window);
    let e = get_emulator_launch_params(ParamsFile::Unreadable { error: "io".to_string() })
        .unwrap_err();
    assert_eq!(e, "Failed to read emulator params file: io");
}

#[test]
fn silent_loading_never_fails() {
    let p = get_emulator_launch_params_sync(None);
    assert_eq!(p.gpu, "auto");
    let p = get_emulator_launch_params_sync(Some(ParamsFile::Unreadable {
        error: "io".to_string(),
    }));
    assert_eq!(p.gpu, "auto");
}

#[test]
fn configuration_paths_are_exact() {
    assert_eq!(params_file_name("android", "Pixel_6"), "android_Pixel_6.json");
    assert_eq!(
        settings_file_path("/home/u/.config", HostOs::Linux),
        "/home/u/.config/SimHub/settings.json"
    );
    assert_eq!(
        params_dir_path("/home/u/.config", HostOs::Linux),
        "/home/u/.config/SimHub/emulator_params"
    );
}

#[test]
fn ini_indirection_wins_over_the_convention() {
    let ini = "avd.ini.encoding=UTF-8\npath=/data/avd/Pixel_6.avd\npath.rel=avd/Pixel_6.avd\n";
    assert_eq!(parse_ini_path(ini).unwrap(), "/data/avd/Pixel_6.avd");
    assert!(parse_ini_path("no path here\n").is_none());
    assert_eq!(
        resolve_avd_dir("/home/u/.android/avd", "Pixel_6", Some(ini), HostOs::Linux),
        "/data/avd/Pixel_6.avd"
    );
    assert_eq!(
        resolve_avd_dir("/home/u/.android/avd", "Pixel_6", None, HostOs::Linux),
        "/home/u/.android/avd/Pixel_6.avd"
    );
}

#[test]
fn wipe_targets_are_the_five_state_files() {
    let t = wipe_targets();
    let got: Vec<&str> = t.iter().map(|s| s.as_str()).collect();
    assert_eq!(
        got,
        vec![
            "userdata-qemu.img",
            "userdata-qemu.img.qcow2",
            "cache.img",
            "cache.img.qcow2",
            "snapshots",
        ]
    );
}

fn attempt(name: &str, present: bool, removed: bool, error: &str) -> WipeAttempt {
    WipeAttempt {
        name: name.to_string(),
        present,
        removed,
        error: error.to_string(),
    }
}

#[test]
fn wipe_with_nothing_present_is_a_clean_success() {
    // None of the five target files exists: success, zero deletions.
    let attempts = vec![
        attempt("userdata-qemu.img", false, false, ""),
        attempt("cache.img", false, false, ""),
        attempt("snapshots", false, false, ""),
    ];
    assert_eq!(evaluate_wipe(&attempts).unwrap(), 0);
}

#[test]
fn wipe_counts_removed_files() {
    let attempts = vec![
        attempt("userdata-qemu.img", true, true, ""),
        attempt("cache.img", false, false, ""),
        attempt("snapshots", true, true, ""),
    ];
    assert_eq!(evaluate_wipe(&attempts).unwrap(), 2);
}

#[test]
fn wipe_stops_at_the_first_failure() {
    let attempts = vec![
        attempt("userdata-qemu.img", true, true, ""),
        attempt("cache.img", true, false, "busy"),
    ];
    let e = evaluate_wipe(&attempts).unwrap_err();
    assert_eq!(e.message(), "Failed to delete cache.img: busy");
}

#[test]
fn packages_are_flagged_and_ordered() {
    let all = "package:com.vendor.app\npackage:com.android.settings\npackage:com.alpha.tool\n";
    let system = "package:com.android.settings\n";
    let pkgs = get_device_packages(all, system);
    let got: Vec<(&str, bool)> = pkgs.iter().map(|p| (p.name.as_str(), p.is_system)).collect();
    assert_eq!(
        got,
        vec![
            ("com.alpha.tool", false),
            ("com.vendor.app", false),
            ("com.android.settings", true),
        ]
    );
}

#[test]
fn package_lines_without_the_prefix_are_ignored() {
    let pkgs = get_device_packages("junk\npackage: com.x \n", "");
    assert_eq!(pkgs.len(), 1);
    assert_eq!(pkgs[0].name, "com.x");
    assert!(!pkgs[0].is_system);
}
