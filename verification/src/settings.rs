//! Settings and per-device launch parameters.
//!
//! The settings document itself is persisted by a collaborator; this
//! module owns what the orchestrator decides from it: which toolchain
//! locations apply, with which environment fallbacks, and what a
//! missing or unreadable document means for a load.

use vstd::prelude::*;
use vstd::string::*;
use crate::model::HostOs;

verus! {

/// The persisted global settings.
#[derive(Debug)]
pub struct Settings {
    pub language: String,
    pub theme: String,
    pub auto_start: bool,
    pub minimize_to_tray: bool,
    pub android_home: String,
    pub deveco_home: String,
    pub harmony_image_location: String,
    pub harmony_emulator_location: String,
    pub harmony_emulator_path: String,
    pub harmony_hdc_path: String,
    pub xcode_home: String,
    pub screenshot_dir: String,
    pub android_force_kill: bool,
}

/// The field values of fresh settings.
pub open spec fn is_default_settings(s: Settings) -> bool {
    &&& s.language@ == "zh-CN"@
    &&& s.theme@ == "system"@
    &&& !s.auto_start
    &&& s.minimize_to_tray
    &&& s.android_home@.len() == 0
    &&& s.deveco_home@.len() == 0
    &&& s.harmony_image_location@.len() == 0
    &&& s.harmony_emulator_location@.len() == 0
    &&& s.harmony_emulator_path@.len() == 0
    &&& s.harmony_hdc_path@.len() == 0
    &&& s.xcode_home@.len() == 0
    &&& s.screenshot_dir@.len() == 0
    &&& !s.android_force_kill
}

impl Default for Settings {
    /// Fresh settings: Chinese UI, system theme, tray minimization on,
    /// force kill off, and every path unset. The screenshot directory
    /// starts unset too; callers that know the user's picture
    /// directory fill it through [`get_settings`].
    fn default() -> (r: Settings)
        ensures
            is_default_settings(r),
    {
        Settings {
            language: "zh-CN".to_owned(),
            theme: "system".to_owned(),
            auto_start: false,
            minimize_to_tray: true,
            android_home: String::new(),
            deveco_home: String::new(),
            harmony_image_location: String::new(),
            harmony_emulator_location: String::new(),
            harmony_emulator_path: String::new(),
            harmony_hdc_path: String::new(),
            xcode_home: String::new(),
            screenshot_dir: String::new(),
            android_force_kill: false,
        }
    }
}

/// What the settings file held when the caller looked.
pub enum SettingsFile {
    /// No settings file exists yet.
    Missing,
    /// The file exists but could not be read; the payload is the
    /// reader's error text.
    Unreadable { error: String },
    /// The file was read but does not parse as settings; the payload
    /// is the parser's error text.
    Malformed { error: String },
    /// The parsed settings.
    Parsed { settings: Settings },
}

/// Loads the settings from what the file held: a missing file means
/// fresh defaults, a parsed file means its contents, and a read or
/// parse failure is surfaced with the collaborator's error text.
pub fn load_settings(file: SettingsFile) -> (r: Result<Settings, String>)
    ensures
        file is Missing ==> (r matches Ok(s) && is_default_settings(s)),
        file matches SettingsFile::Parsed { settings } ==> r == Ok::<Settings, String>(settings),
        file matches SettingsFile::Unreadable { error } ==> (r matches Err(m) && m@
            == "Failed to read settings file: "@ + error@),
        file matches SettingsFile::Malformed { error } ==> (r matches Err(m) && m@
            == "Failed to parse settings: "@ + error@),
{
    match file {
        SettingsFile::Missing => Ok(Settings::default()),
        SettingsFile::Parsed { settings } => Ok(settings),
        SettingsFile::Unreadable { error } => {
            let mut m = "Failed to read settings file: ".to_owned();
            m.append(error.as_str());
            Err(m)
        },
        SettingsFile::Malformed { error } => {
            let mut m = "Failed to parse settings: ".to_owned();
            m.append(error.as_str());
            Err(m)
        },
    }
}

/// The view of an optional string.
pub open spec fn opt_view(o: Option<String>) -> Option<Seq<char>> {
    match o {
        Some(s) => Some(s@),
        None => None,
    }
}

/// The Android SDK preference order: the configured path when set
/// (an empty configured string counts as unset), then the
/// `ANDROID_HOME` environment value, then `ANDROID_SDK_ROOT`, then
/// the host default.
pub open spec fn android_home_choice(
    cfg: Option<Seq<char>>,
    env_ah: Option<Seq<char>>,
    env_sr: Option<Seq<char>>,
    host_default: Option<Seq<char>>,
) -> Option<Seq<char>> {
    if cfg matches Some(c) && cfg->0.len() > 0 {
        cfg
    } else if env_ah is Some {
        env_ah
    } else if env_sr is Some {
        env_sr
    } else {
        host_default
    }
}

/// The view of the configured Android SDK path, when settings loaded.
pub open spec fn cfg_android_home(settings: Option<&Settings>) -> Option<Seq<char>> {
    match settings {
        Some(s) => Some(s.android_home@),
        None => None,
    }
}

/// The Android SDK location, in the preference order of
/// [`android_home_choice`]. The host default is a path the caller
/// already checked on disk (the macOS `~/Library/Android/sdk`
/// convention).
pub fn get_android_home(
    settings: Option<&Settings>,
    env_android_home: Option<String>,
    env_sdk_root: Option<String>,
    host_default: Option<String>,
) -> (r: Option<String>)
    ensures
        opt_view(r) == android_home_choice(
            cfg_android_home(settings),
            opt_view(env_android_home),
            opt_view(env_sdk_root),
            opt_view(host_default),
        ),
{
    if let Some(s) = settings {
        if !s.android_home.as_str().is_empty() {
            return Some(s.android_home.clone());
        }
    }
    if let Some(e) = env_android_home {
        return Some(e);
    }
    if let Some(e) = env_sdk_root {
        return Some(e);
    }
    host_default
}

/// Whether forced termination is configured for Android stops; an
/// unreadable settings document means the graceful default.
pub fn get_android_force_kill(settings: Option<&Settings>) -> (r: bool)
    ensures
        r == match settings {
            Some(s) => s.android_force_kill,
            None => false,
        },
{
    match settings {
        Some(s) => s.android_force_kill,
        None => false,
    }
}

/// The directory screenshots are written to: the configured one when
/// set, else the user's picture directory.
pub fn get_screenshot_dir(settings: Option<&Settings>, picture_dir: Option<String>) -> (r: Option<
    String,
>)
    ensures
        match settings {
            Some(s) if s.screenshot_dir@.len() > 0 => (r matches Some(v) && v@
                == s.screenshot_dir@),
            _ => r == picture_dir,
        },
{
    if let Some(s) = settings {
        if !s.screenshot_dir.as_str().is_empty() {
            return Some(s.screenshot_dir.clone());
        }
    }
    picture_dir
}

/// The DevEco Studio location: the configured path when set, else the
/// `DEVECO_SDK_HOME` environment value.
pub fn get_deveco_home(settings: Option<&Settings>, env_deveco: Option<String>) -> (r: Option<
    String,
>)
    ensures
        match settings {
            Some(s) if s.deveco_home@.len() > 0 => (r matches Some(v) && v@ == s.deveco_home@),
            _ => r == env_deveco,
        },
{
    if let Some(s) = settings {
        if !s.deveco_home.as_str().is_empty() {
            return Some(s.deveco_home.clone());
        }
    }
    env_deveco
}

/// The configured local-emulator location for HarmonyOS, when set.
pub fn get_harmony_emulator_location(settings: Option<&Settings>) -> (r: Option<String>)
    ensures
        match settings {
            Some(s) if s.harmony_emulator_location@.len() > 0 => (r matches Some(v) && v@
                == s.harmony_emulator_location@),
            _ => r is None,
        },
{
    if let Some(s) = settings {
        if !s.harmony_emulator_location.as_str().is_empty() {
            return Some(s.harmony_emulator_location.clone());
        }
    }
    None
}

/// The configured local-image location for HarmonyOS, when set.
pub fn get_harmony_image_location(settings: Option<&Settings>) -> (r: Option<String>)
    ensures
        match settings {
            Some(s) if s.harmony_image_location@.len() > 0 => (r matches Some(v) && v@
                == s.harmony_image_location@),
            _ => r is None,
        },
{
    if let Some(s) = settings {
        if !s.harmony_image_location.as_str().is_empty() {
            return Some(s.harmony_image_location.clone());
        }
    }
    None
}

/// Where the HarmonyOS emulator binary lives under a DevEco Studio
/// installation, per host.
pub open spec fn harmony_emulator_suffix(os: HostOs) -> Seq<char> {
    match os {
        HostOs::MacOs => "/Contents/tools/emulator/Emulator"@,
        HostOs::Windows => "/tools/emulator/Emulator.exe"@,
        HostOs::Linux => "/tools/emulator/Emulator"@,
    }
}

/// Where the hdc binary lives under a DevEco Studio installation, per host.
pub open spec fn harmony_hdc_suffix(os: HostOs) -> Seq<char> {
    match os {
        HostOs::MacOs => "/Contents/sdk/default/openharmony/toolchains/hdc"@,
        HostOs::Windows => "/sdk/default/openharmony/toolchains/hdc.exe"@,
        HostOs::Linux => "/sdk/default/openharmony/toolchains/hdc"@,
    }
}

fn harmony_emulator_suffix_str(os: HostOs) -> (r: &'static str)
    ensures
        r@ == harmony_emulator_suffix(os),
{
    match os {
        HostOs::MacOs => "/Contents/tools/emulator/Emulator",
        HostOs::Windows => "/tools/emulator/Emulator.exe",
        HostOs::Linux => "/tools/emulator/Emulator",
    }
}

fn harmony_hdc_suffix_str(os: HostOs) -> (r: &'static str)
    ensures
        r@ == harmony_hdc_suffix(os),
{
    match os {
        HostOs::MacOs => "/Contents/sdk/default/openharmony/toolchains/hdc",
        HostOs::Windows => "/sdk/default/openharmony/toolchains/hdc.exe",
        HostOs::Linux => "/sdk/default/openharmony/toolchains/hdc",
    }
}

/// The HarmonyOS emulator binary: the explicitly configured path when
/// set, else the conventional location under a configured DevEco
/// Studio installation.
pub fn get_harmony_emulator_path(settings: Option<&Settings>, os: HostOs) -> (r: Option<String>)
    ensures
        match settings {
            Some(s) => {
                if s.harmony_emulator_path@.len() > 0 {
                    r matches Some(v) && v@ == s.harmony_emulator_path@
                } else if s.deveco_home@.len() > 0 {
                    r matches Some(v) && v@ == s.deveco_home@ + harmony_emulator_suffix(os)
                } else {
                    r is None
                }
            },
            None => r is None,
        },
{
    if let Some(s) = settings {
        if !s.harmony_emulator_path.as_str().is_empty() {
            return Some(s.harmony_emulator_path.clone());
        }
        if !s.deveco_home.as_str().is_empty() {
            let mut p = s.deveco_home.clone();
            p.append(harmony_emulator_suffix_str(os));
            return Some(p);
        }
    }
    None
}

/// The hdc binary: the explicitly configured path when set, else the
/// conventional location under a configured DevEco Studio installation.
pub fn get_harmony_hdc_path(settings: Option<&Settings>, os: HostOs) -> (r: Option<String>)
    ensures
        match settings {
            Some(s) => {
                if s.harmony_hdc_path@.len() > 0 {
                    r matches Some(v) && v@ == s.harmony_hdc_path@
                } else if s.deveco_home@.len() > 0 {
                    r matches Some(v) && v@ == s.deveco_home@ + harmony_hdc_suffix(os)
                } else {
                    r is None
                }
            },
            None => r is None,
        },
{
    if let Some(s) = settings {
        if !s.harmony_hdc_path.as_str().is_empty() {
            return Some(s.harmony_hdc_path.clone());
        }
        if !s.deveco_home.as_str().is_empty() {
            let mut p = s.deveco_home.clone();
            p.append(harmony_hdc_suffix_str(os));
            return Some(p);
        }
    }
    None
}

/// Fills the loaded settings with the environment values the caller
/// resolved: the Android SDK from `ANDROID_HOME` then
/// `ANDROID_SDK_ROOT` when unset, DevEco Studio from
/// `DEVECO_SDK_HOME` when unset, the Xcode location from
/// `DEVELOPER_DIR` or the standard install path on macOS when unset,
/// and the screenshot directory from the picture directory when unset.
pub fn get_settings(
    loaded: Settings,
    env_android_home: Option<String>,
    env_sdk_root: Option<String>,
    env_deveco: Option<String>,
    env_developer_dir: Option<String>,
    picture_dir: Option<String>,
    os: HostOs,
) -> (r: Settings)
    ensures
        r.android_home@ == (if loaded.android_home@.len() > 0 {
            loaded.android_home@
        } else {
            match env_android_home {
                Some(e) => e@,
                None => match env_sdk_root {
                    Some(e) => e@,
                    None => Seq::<char>::empty(),
                },
            }
        }),
        r.deveco_home@ == (if loaded.deveco_home@.len() > 0 {
            loaded.deveco_home@
        } else {
            match env_deveco {
                Some(e) => e@,
                None => Seq::<char>::empty(),
            }
        }),
        r.xcode_home@ == (if os == HostOs::MacOs && loaded.xcode_home@.len() == 0 {
            match env_developer_dir {
                Some(e) => e@,
                None => "/Applications/Xcode.app/Contents/Developer"@,
            }
        } else {
            loaded.xcode_home@
        }),
        r.screenshot_dir@ == (if loaded.screenshot_dir@.len() == 0 {
            match picture_dir {
                Some(p) => p@,
                None => Seq::<char>::empty(),
            }
        } else {
            loaded.screenshot_dir@
        }),
        r.language == loaded.language,
        r.theme == loaded.theme,
        r.auto_start == loaded.auto_start,
        r.minimize_to_tray == loaded.minimize_to_tray,
        r.harmony_image_location == loaded.harmony_image_location,
        r.harmony_emulator_location == loaded.harmony_emulator_location,
        r.harmony_emulator_path == loaded.harmony_emulator_path,
        r.harmony_hdc_path == loaded.harmony_hdc_path,
        r.android_force_kill == loaded.android_force_kill,
{
    let mut s = loaded;
    if s.android_home.as_str().is_empty() {
        if let Some(e) = env_android_home {
            s.android_home = e;
        } else if let Some(e) = env_sdk_root {
            s.android_home = e;
        }
    }
    if s.deveco_home.as_str().is_empty() {
        if let Some(e) = env_deveco {
            s.deveco_home = e;
        }
    }
    if os == HostOs::MacOs && s.xcode_home.as_str().is_empty() {
        match env_developer_dir {
            Some(e) => s.xcode_home = e,
            None => s.xcode_home = "/Applications/Xcode.app/Contents/Developer".to_owned(),
        }
    }
    if s.screenshot_dir.as_str().is_empty() {
        if let Some(p) = picture_dir {
            s.screenshot_dir = p;
        }
    }
    s
}

/// Per-device launch configuration for Android starts.
#[derive(Debug)]
pub struct EmulatorLaunchParams {
    pub no_window: bool,
    pub wipe_data: bool,
    pub no_snapshot: bool,
    pub dns_server: String,
    pub gps_longitude: String,
    pub gps_latitude: String,
    pub memory: Option<i32>,
    pub http_proxy: String,
    pub cores: Option<i32>,
    pub gpu: String,
}

/// The field values of launch parameters before any customization.
pub open spec fn is_default_params(p: EmulatorLaunchParams) -> bool {
    &&& !p.no_window
    &&& !p.wipe_data
    &&& !p.no_snapshot
    &&& p.dns_server@.len() == 0
    &&& p.gps_longitude@.len() == 0
    &&& p.gps_latitude@.len() == 0
    &&& p.memory is None
    &&& p.http_proxy@.len() == 0
    &&& p.cores is None
    &&& p.gpu@ == "auto"@
}

impl Default for EmulatorLaunchParams {
    /// Launch parameters before any customization: every flag off,
    /// every override empty, automatic GPU selection.
    fn default() -> (r: EmulatorLaunchParams)
        ensures
            is_default_params(r),
    {
        EmulatorLaunchParams {
            no_window: false,
            wipe_data: false,
            no_snapshot: false,
            dns_server: String::new(),
            gps_longitude: String::new(),
            gps_latitude: String::new(),
            memory: None,
            http_proxy: String::new(),
            cores: None,
            gpu: "auto".to_owned(),
        }
    }
}

/// What the per-device parameter file held when the caller looked.
pub enum ParamsFile {
    /// No parameter file exists for this device yet.
    Missing,
    /// The file exists but could not be read; the payload is the
    /// reader's error text.
    Unreadable { error: String },
    /// The file was read; `None` means it did not parse, which falls
    /// back to the defaults rather than failing.
    Contents { params: Option<EmulatorLaunchParams> },
}

/// Loads launch parameters for one device: a missing file and a file
/// that does not parse both mean the defaults; only a read failure is
/// an error.
pub fn get_emulator_launch_params(file: ParamsFile) -> (r: Result<EmulatorLaunchParams, String>)
    ensures
        file is Missing ==> (r matches Ok(p) && is_default_params(p)),
        file matches ParamsFile::Contents { params: Some(p) } ==> r == Ok::<
            EmulatorLaunchParams,
            String,
        >(p),
        file matches ParamsFile::Contents { params: None } ==> (r matches Ok(p) && is_default_params(
            p,
        )),
        file matches ParamsFile::Unreadable { error } ==> (r matches Err(m) && m@
            == "Failed to read emulator params file: "@ + error@),
{
    match file {
        ParamsFile::Missing => Ok(EmulatorLaunchParams::default()),
        ParamsFile::Contents { params: Some(p) } => Ok(p),
        ParamsFile::Contents { params: None } => Ok(EmulatorLaunchParams::default()),
        ParamsFile::Unreadable { error } => {
            let mut m = "Failed to read emulator params file: ".to_owned();
            m.append(error.as_str());
            Err(m)
        },
    }
}

/// Loads launch parameters where no failure may surface: any missing,
/// unreadable, or malformed file means the defaults. `None` stands
/// for a caller that could not even resolve the file's location.
pub fn get_emulator_launch_params_sync(file: Option<ParamsFile>) -> (r: EmulatorLaunchParams)
    ensures
        file matches Some(ParamsFile::Contents { params: Some(p) }) ==> r == p,
        !(file matches Some(ParamsFile::Contents { params: Some(p) })) ==> is_default_params(r),
{
    match file {
        Some(ParamsFile::Contents { params: Some(p) }) => p,
        _ => EmulatorLaunchParams::default(),
    }
}

/// The file that stores one device's launch parameters:
/// `<platform>_<device id>.json` under the parameter directory.
pub fn params_file_name(emulator_type: &str, emulator_id: &str) -> (r: String)
    ensures
        r@ == emulator_type@ + "_"@ + emulator_id@ + ".json"@,
{
    let mut n = emulator_type.to_owned();
    n.append("_");
    n.append(emulator_id);
    n.append(".json");
    n
}

} // verus!
