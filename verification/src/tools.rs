//! Tool locations and the fixed argument grammar of each operation.
//!
//! Each platform toolchain lives at a conventional place under its
//! installation root, with host-specific executable names, and each
//! operation takes a fixed argument list. Both are composed and
//! verified here; running the tools is the caller's work.

use vstd::prelude::*;
use vstd::string::*;
use crate::model::HostOs;
use crate::text::views;

verus! {

/// The path separator convention of the host.
pub open spec fn sep_char(os: HostOs) -> char {
    match os {
        HostOs::Windows => '\\',
        _ => '/',
    }
}

fn sep_str(os: HostOs) -> (r: &'static str)
    ensures
        r@ =~= seq![sep_char(os)],
{
    proof {
        reveal_strlit("\\");
        reveal_strlit("/");
    }
    match os {
        HostOs::Windows => "\\",
        HostOs::MacOs => "/",
        HostOs::Linux => "/",
    }
}

/// Joins one path component onto a base directory.
pub fn join_path(base: &str, component: &str, os: HostOs) -> (r: String)
    ensures
        r@ == base@ + seq![sep_char(os)] + component@,
{
    let mut p = base.to_owned();
    p.append(sep_str(os));
    p.append(component);
    p
}

/// The emulator binary's name on the host.
pub open spec fn emulator_exe(os: HostOs) -> Seq<char> {
    if os == HostOs::Windows {
        "emulator.exe"@
    } else {
        "emulator"@
    }
}

/// The debug-bridge binary's name on the host.
pub open spec fn adb_exe(os: HostOs) -> Seq<char> {
    if os == HostOs::Windows {
        "adb.exe"@
    } else {
        "adb"@
    }
}

/// The device-manager script's name on the host.
pub open spec fn avdmanager_exe(os: HostOs) -> Seq<char> {
    if os == HostOs::Windows {
        "avdmanager.bat"@
    } else {
        "avdmanager"@
    }
}

/// Where the emulator binary lives under the SDK root.
pub fn android_emulator_path(android_home: &str, os: HostOs) -> (r: String)
    ensures
        r@ == android_home@ + seq![sep_char(os)] + "emulator"@ + seq![sep_char(os)] + emulator_exe(
            os,
        ),
{
    let dir = join_path(android_home, "emulator", os);
    if let HostOs::Windows = os {
        join_path(dir.as_str(), "emulator.exe", os)
    } else {
        join_path(dir.as_str(), "emulator", os)
    }
}

/// Where the debug bridge lives under the SDK root.
pub fn adb_path(android_home: &str, os: HostOs) -> (r: String)
    ensures
        r@ == android_home@ + seq![sep_char(os)] + "platform-tools"@ + seq![sep_char(os)]
            + adb_exe(os),
{
    let dir = join_path(android_home, "platform-tools", os);
    if let HostOs::Windows = os {
        join_path(dir.as_str(), "adb.exe", os)
    } else {
        join_path(dir.as_str(), "adb", os)
    }
}

/// Where the device manager lives under the SDK root.
pub fn avdmanager_path(android_home: &str, os: HostOs) -> (r: String)
    ensures
        r@ == android_home@ + seq![sep_char(os)] + "cmdline-tools"@ + seq![sep_char(os)]
            + "latest"@ + seq![sep_char(os)] + "bin"@ + seq![sep_char(os)] + avdmanager_exe(os),
{
    let a = join_path(android_home, "cmdline-tools", os);
    let b = join_path(a.as_str(), "latest", os);
    let c = join_path(b.as_str(), "bin", os);
    if let HostOs::Windows = os {
        join_path(c.as_str(), "avdmanager.bat", os)
    } else {
        join_path(c.as_str(), "avdmanager", os)
    }
}

/// The identity query of one live serial: ask the instance which
/// declared device it is.
pub fn build_avd_name_args(serial: &str) -> (r: Vec<String>)
    ensures
        views(r@) == seq!["-s"@, serial@, "emu"@, "avd"@, "name"@],
{
    let mut args: Vec<String> = Vec::new();
    args.push("-s".to_owned());
    args.push(serial.to_owned());
    args.push("emu".to_owned());
    args.push("avd".to_owned());
    args.push("name".to_owned());
    proof {
        assert(views(args@) =~= seq!["-s"@, serial@, "emu"@, "avd"@, "name"@]);
    }
    args
}

/// The graceful stop of one live serial.
pub fn build_emu_kill_args(serial: &str) -> (r: Vec<String>)
    ensures
        views(r@) == seq!["-s"@, serial@, "emu"@, "kill"@],
{
    let mut args: Vec<String> = Vec::new();
    args.push("-s".to_owned());
    args.push(serial.to_owned());
    args.push("emu".to_owned());
    args.push("kill".to_owned());
    proof {
        assert(views(args@) =~= seq!["-s"@, serial@, "emu"@, "kill"@]);
    }
    args
}

/// The deletion of one declared device.
pub fn build_delete_avd_args(id: &str) -> (r: Vec<String>)
    ensures
        views(r@) == seq!["delete"@, "avd"@, "-n"@, id@],
{
    let mut args: Vec<String> = Vec::new();
    args.push("delete".to_owned());
    args.push("avd".to_owned());
    args.push("-n".to_owned());
    args.push(id.to_owned());
    proof {
        assert(views(args@) =~= seq!["delete"@, "avd"@, "-n"@, id@]);
    }
    args
}

/// The screenshot capture of one live serial, written to its stdout.
pub fn build_screencap_args(id: &str) -> (r: Vec<String>)
    ensures
        views(r@) == seq!["-s"@, id@, "exec-out"@, "screencap"@, "-p"@],
{
    let mut args: Vec<String> = Vec::new();
    args.push("-s".to_owned());
    args.push(id.to_owned());
    args.push("exec-out".to_owned());
    args.push("screencap".to_owned());
    args.push("-p".to_owned());
    proof {
        assert(views(args@) =~= seq!["-s"@, id@, "exec-out"@, "screencap"@, "-p"@]);
    }
    args
}

/// The package listing of one live device; `system_only` adds the
/// system-package restriction.
pub fn build_list_packages_args(device_id: &str, system_only: bool) -> (r: Vec<String>)
    ensures
        views(r@) == (if system_only {
            seq!["-s"@, device_id@, "shell"@, "pm"@, "list"@, "packages"@, "-s"@]
        } else {
            seq!["-s"@, device_id@, "shell"@, "pm"@, "list"@, "packages"@]
        }),
{
    let mut args: Vec<String> = Vec::new();
    args.push("-s".to_owned());
    args.push(device_id.to_owned());
    args.push("shell".to_owned());
    args.push("pm".to_owned());
    args.push("list".to_owned());
    args.push("packages".to_owned());
    if system_only {
        args.push("-s".to_owned());
        proof {
            assert(views(args@) =~= seq![
                "-s"@,
                device_id@,
                "shell"@,
                "pm"@,
                "list"@,
                "packages"@,
                "-s"@,
            ]);
        }
    } else {
        proof {
            assert(views(args@) =~= seq![
                "-s"@,
                device_id@,
                "shell"@,
                "pm"@,
                "list"@,
                "packages"@,
            ]);
        }
    }
    args
}

/// The boot of one simulator.
pub fn build_simctl_boot_args(id: &str) -> (r: Vec<String>)
    ensures
        views(r@) == seq!["simctl"@, "boot"@, id@],
{
    let mut args: Vec<String> = Vec::new();
    args.push("simctl".to_owned());
    args.push("boot".to_owned());
    args.push(id.to_owned());
    proof {
        assert(views(args@) =~= seq!["simctl"@, "boot"@, id@]);
    }
    args
}

/// One simulator subcommand that takes the device alone: shutdown,
/// delete, or erase.
pub fn build_simctl_device_args(subcommand: &str, id: &str) -> (r: Vec<String>)
    ensures
        views(r@) == seq!["simctl"@, subcommand@, id@],
{
    let mut args: Vec<String> = Vec::new();
    args.push("simctl".to_owned());
    args.push(subcommand.to_owned());
    args.push(id.to_owned());
    proof {
        assert(views(args@) =~= seq!["simctl"@, subcommand@, id@]);
    }
    args
}

/// The launch of the simulator application onto one device.
pub fn build_open_simulator_args(id: &str) -> (r: Vec<String>)
    ensures
        views(r@) == seq!["-a"@, "Simulator"@, "--args"@, "-CurrentDeviceUDID"@, id@],
{
    let mut args: Vec<String> = Vec::new();
    args.push("-a".to_owned());
    args.push("Simulator".to_owned());
    args.push("--args".to_owned());
    args.push("-CurrentDeviceUDID".to_owned());
    args.push(id.to_owned());
    proof {
        assert(views(args@) =~= seq!["-a"@, "Simulator"@, "--args"@, "-CurrentDeviceUDID"@, id@]);
    }
    args
}

/// The screenshot of one simulator, written to the given file.
pub fn build_simctl_screenshot_args(id: &str, path: &str) -> (r: Vec<String>)
    ensures
        views(r@) == seq!["simctl"@, "io"@, id@, "screenshot"@, path@],
{
    let mut args: Vec<String> = Vec::new();
    args.push("simctl".to_owned());
    args.push("io".to_owned());
    args.push(id.to_owned());
    args.push("screenshot".to_owned());
    args.push(path.to_owned());
    proof {
        assert(views(args@) =~= seq!["simctl"@, "io"@, id@, "screenshot"@, path@]);
    }
    args
}

/// The on-device capture of one HarmonyOS target.
pub fn build_harmony_snapshot_args(id: &str, remote: &str) -> (r: Vec<String>)
    ensures
        views(r@) == seq!["-t"@, id@, "shell"@, "snapshot_display"@, "-f"@, remote@],
{
    let mut args: Vec<String> = Vec::new();
    args.push("-t".to_owned());
    args.push(id.to_owned());
    args.push("shell".to_owned());
    args.push("snapshot_display".to_owned());
    args.push("-f".to_owned());
    args.push(remote.to_owned());
    proof {
        assert(views(args@) =~= seq!["-t"@, id@, "shell"@, "snapshot_display"@, "-f"@, remote@]);
    }
    args
}

/// The retrieval of a captured file from one HarmonyOS target.
pub fn build_harmony_recv_args(id: &str, remote: &str, local: &str) -> (r: Vec<String>)
    ensures
        views(r@) == seq!["-t"@, id@, "file"@, "recv"@, remote@, local@],
{
    let mut args: Vec<String> = Vec::new();
    args.push("-t".to_owned());
    args.push(id.to_owned());
    args.push("file".to_owned());
    args.push("recv".to_owned());
    args.push(remote.to_owned());
    args.push(local.to_owned());
    proof {
        assert(views(args@) =~= seq!["-t"@, id@, "file"@, "recv"@, remote@, local@]);
    }
    args
}

/// The file browser that opens a path on the host.
pub open spec fn opener_spec(os: HostOs) -> Seq<char> {
    match os {
        HostOs::Windows => "explorer"@,
        HostOs::MacOs => "open"@,
        HostOs::Linux => "xdg-open"@,
    }
}

/// Which command opens a file or directory on the host.
pub fn opener_command(os: HostOs) -> (r: String)
    ensures
        r@ == opener_spec(os),
{
    match os {
        HostOs::Windows => "explorer".to_owned(),
        HostOs::MacOs => "open".to_owned(),
        HostOs::Linux => "xdg-open".to_owned(),
    }
}

/// Where the settings document lives under the user's configuration
/// directory.
pub fn settings_file_path(config_dir: &str, os: HostOs) -> (r: String)
    ensures
        r@ == config_dir@ + seq![sep_char(os)] + "SimHub"@ + seq![sep_char(os)] + "settings.json"@,
{
    let a = join_path(config_dir, "SimHub", os);
    join_path(a.as_str(), "settings.json", os)
}

/// Where the per-device launch parameters live under the user's
/// configuration directory.
pub fn params_dir_path(config_dir: &str, os: HostOs) -> (r: String)
    ensures
        r@ == config_dir@ + seq![sep_char(os)] + "SimHub"@ + seq![sep_char(os)]
            + "emulator_params"@,
{
    let a = join_path(config_dir, "SimHub", os);
    join_path(a.as_str(), "emulator_params", os)
}

} // verus!
