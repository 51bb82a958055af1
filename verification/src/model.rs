//! The unified device model and the structured error type.

use vstd::prelude::*;
use vstd::string::*;

verus! {

/// The host operating system a toolchain invocation runs on. The
/// orchestration core never reads it from the environment; callers say
/// which conventions (executable suffixes, process-table shape) apply.
#[derive(Clone, Copy, PartialEq, Eq, Structural)]
pub enum HostOs {
    Windows,
    MacOs,
    Linux,
}

/// One declared or running Android virtual device.
pub struct AndroidEmulator {
    pub id: String,
    pub name: String,
    pub device_type: String,
    pub os_version: String,
    pub status: String,
}

/// One declared or running HarmonyOS emulator.
pub struct HarmonyEmulator {
    pub id: String,
    pub name: String,
    pub device_type: String,
    pub os_version: String,
    pub status: String,
}

/// One iOS simulator known to the platform toolchain.
pub struct IOSSimulator {
    pub id: String,
    pub name: String,
    pub device_type: String,
    pub os_version: String,
    pub status: String,
}

/// One installed package reported by a live Android device.
pub struct PackageInfo {
    pub name: String,
    pub is_system: bool,
}

/// Why a lifecycle operation failed. The variants follow the error
/// taxonomy of the orchestrator: each carries the human-readable detail
/// that the caller surfaces.
#[derive(Debug)]
pub enum LifecycleError {
    /// A required toolchain location is not configured.
    ConfigurationMissing { detail: String },
    /// The resolved tool path does not exist on disk.
    ToolNotFound { detail: String },
    /// The operating system could not start the tool process.
    SpawnFailure { detail: String },
    /// The tool ran and exited with a failure status.
    ExitFailure { detail: String },
    /// The target device was absent from every live-instance source.
    NotFound { detail: String },
}

impl LifecycleError {
    /// The human-readable detail carried by any variant.
    pub open spec fn detail_spec(&self) -> Seq<char> {
        match self {
            LifecycleError::ConfigurationMissing { detail } => detail@,
            LifecycleError::ToolNotFound { detail } => detail@,
            LifecycleError::SpawnFailure { detail } => detail@,
            LifecycleError::ExitFailure { detail } => detail@,
            LifecycleError::NotFound { detail } => detail@,
        }
    }

    /// The message surfaced at the operation boundary.
    pub fn message(&self) -> (r: String)
        ensures
            r@ == self.detail_spec(),
    {
        match self {
            LifecycleError::ConfigurationMissing { detail } => detail.clone(),
            LifecycleError::ToolNotFound { detail } => detail.clone(),
            LifecycleError::SpawnFailure { detail } => detail.clone(),
            LifecycleError::ExitFailure { detail } => detail.clone(),
            LifecycleError::NotFound { detail } => detail.clone(),
        }
    }
}

/// The message preference for a tool that exited with a failure status:
/// captured stderr first, then captured stdout, then the synthesized text.
pub open spec fn exit_message_spec(stderr: Seq<char>, stdout: Seq<char>, fallback: Seq<char>) -> Seq<
    char,
> {
    if stderr.len() > 0 {
        stderr
    } else if stdout.len() > 0 {
        stdout
    } else {
        fallback
    }
}

/// Chooses the error text for a non-zero tool exit.
pub fn exit_failure_message(stderr: &str, stdout: &str, fallback: String) -> (r: String)
    ensures
        r@ == exit_message_spec(stderr@, stdout@, fallback@),
{
    if !stderr.is_empty() {
        stderr.to_owned()
    } else if !stdout.is_empty() {
        stdout.to_owned()
    } else {
        fallback
    }
}

} // verus!
