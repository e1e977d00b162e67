//! What can go wrong, and how it is told.

use vstd::prelude::*;

use crate::text::{
    decimal, hexadecimal, join, joined, push_decimal, push_hexadecimal, texts, trim, trimmed,
};

verus! {

/// Why a launch or an installation did not go on.
#[derive(Debug, PartialEq, Eq)]
pub enum LaunchError {
    /// A Codex process runs already, so startup settings would not reach a fresh one.
    AlreadyRunning,
    /// The app-server runs without these variables.
    EnvNotInherited { pid: u32, missing: Vec<String> },
    /// No app-server was seen in time.
    AppServerNotObserved { timeout_ms: u64 },
    /// The system did not say where a process keeps its data.
    ProcessQueryFailed { status: i32 },
    /// Processes of this width cannot be read.
    RemoteReadUnsupported,
    /// Fewer bytes of another process were read than asked for.
    ShortRead { address: u64, expected: usize, got: usize },
    /// The list of processes could not be had.
    TasklistFailed { exit_status: String },
    /// The executable that was asked for is no file.
    ExeMissing { path: String },
    /// The executable of the installed package is no file.
    DefaultExeMissing { path: String },
    /// The installed package cannot be looked for on this system.
    DiscoveryUnsupported,
    /// Looking for the installed package failed.
    PackageQueryFailed { package_name: String, stderr: String },
    /// The installed package has no location.
    EmptyInstallLocation,
    /// An environment variable that names a directory is not set.
    EnvVarNotSet { name: String },
    /// The path of the shortcut is not text.
    ShortcutPathNotUtf8,
    /// The path that the shortcut points to is not text.
    TargetPathNotUtf8,
    /// The working directory of the shortcut is not text.
    WorkingDirNotUtf8,
    /// The shortcut was not made.
    ShortcutFailed { shortcut: String, stderr: String },
    /// Shortcuts cannot be made on this system.
    ShortcutUnsupported,
}

/// The bits of a status code, read as a number without a sign.
pub open spec fn status_bits(status: i32) -> nat {
    if status < 0 {
        (status + 0x1_0000_0000) as nat
    } else {
        status as nat
    }
}

impl LaunchError {
    /// The words of the error.
    pub open spec fn text(self) -> Seq<char> {
        match self {
            LaunchError::AlreadyRunning =>
                "Codex.exe is already running. Close Codex first so startup proxy settings are applied to a fresh process, or pass --allow-existing-instance to skip this guard."@,
            LaunchError::EnvNotInherited { pid, missing } => "Codex app-server pid "@ + decimal(
                pid as nat,
            ) + " did not inherit proxy env; missing "@ + joined(texts(missing@), ", "@) + "."@,
            LaunchError::AppServerNotObserved { timeout_ms } =>
                "Codex app-server child process was not observed within "@ + decimal(
                timeout_ms as nat,
            ) + " ms"@,
            LaunchError::ProcessQueryFailed { status } =>
                "NtQueryInformationProcess failed with status 0x"@ + hexadecimal(
                status_bits(status),
            ),
            LaunchError::RemoteReadUnsupported =>
                "remote environment reading is only implemented for 64-bit processes"@,
            LaunchError::ShortRead { address, expected, got } => "short read at 0x"@ + hexadecimal(
                address as nat,
            ) + ": expected "@ + decimal(expected as nat) + ", got "@ + decimal(got as nat),
            LaunchError::TasklistFailed { exit_status } => "tasklist failed with status "@ + exit_status@,
            LaunchError::ExeMissing { path } => "Codex executable does not exist: "@ + path@,
            LaunchError::DefaultExeMissing { path } => "resolved Codex.exe does not exist: "@
                + path@,
            LaunchError::DiscoveryUnsupported =>
                "automatic Codex.exe discovery is only supported on Windows; pass --codex-exe"@,
            LaunchError::PackageQueryFailed { package_name, stderr } =>
                "failed to resolve Codex install location with Get-AppxPackage -Name "@
                + package_name@ + ": "@ + trimmed(stderr@),
            LaunchError::EmptyInstallLocation =>
                "Get-AppxPackage returned an empty InstallLocation"@,
            LaunchError::EnvVarNotSet { name } => name@ + " is not set"@,
            LaunchError::ShortcutPathNotUtf8 => "shortcut path is not valid UTF-8"@,
            LaunchError::TargetPathNotUtf8 => "target path is not valid UTF-8"@,
            LaunchError::WorkingDirNotUtf8 => "working directory path is not valid UTF-8"@,
            LaunchError::ShortcutFailed { shortcut, stderr } =>
                "failed to create Start Menu shortcut "@ + shortcut@ + ": "@ + trimmed(stderr@),
            LaunchError::ShortcutUnsupported =>
                "Start Menu shortcut installation is only supported on Windows"@,
        }
    }

    /// The words of the error.
    pub fn message(&self) -> (message: String)
        ensures
            message@ == self.text(),
    {
        match self {
            LaunchError::AlreadyRunning =>
                "Codex.exe is already running. Close Codex first so startup proxy settings are applied to a fresh process, or pass --allow-existing-instance to skip this guard.".to_string(),
            LaunchError::EnvNotInherited { pid, missing } => {
                let mut s = "Codex app-server pid ".to_string();
                push_decimal(&mut s, *pid as u64);
                s.append(" did not inherit proxy env; missing ");
                s.append(join(missing, ", ").as_str());
                s.append(".");
                s
            },
            LaunchError::AppServerNotObserved { timeout_ms } => {
                let mut s =
                    "Codex app-server child process was not observed within ".to_string();
                push_decimal(&mut s, *timeout_ms);
                s.append(" ms");
                s
            },
            LaunchError::ProcessQueryFailed { status } => {
                let mut s = "NtQueryInformationProcess failed with status 0x".to_string();
                let bits: i64 = if *status < 0 {
                    *status as i64 + 0x1_0000_0000
                } else {
                    *status as i64
                };
                push_hexadecimal(&mut s, bits as u64);
                s
            },
            LaunchError::RemoteReadUnsupported =>
                "remote environment reading is only implemented for 64-bit processes".to_string(),
            LaunchError::ShortRead { address, expected, got } => {
                let mut s = "short read at 0x".to_string();
                push_hexadecimal(&mut s, *address);
                s.append(": expected ");
                push_decimal(&mut s, *expected as u64);
                s.append(", got ");
                push_decimal(&mut s, *got as u64);
                s
            },
            LaunchError::TasklistFailed { exit_status } => {
                "tasklist failed with status ".to_string().concat(exit_status.as_str())
            },
            LaunchError::ExeMissing { path } => {
                "Codex executable does not exist: ".to_string().concat(path.as_str())
            },
            LaunchError::DefaultExeMissing { path } => {
                "resolved Codex.exe does not exist: ".to_string().concat(path.as_str())
            },
            LaunchError::DiscoveryUnsupported =>
                "automatic Codex.exe discovery is only supported on Windows; pass --codex-exe".to_string(),
            LaunchError::PackageQueryFailed { package_name, stderr } => {
                let mut s =
                    "failed to resolve Codex install location with Get-AppxPackage -Name ".to_string();
                s.append(package_name.as_str());
                s.append(": ");
                s.append(trim(stderr.as_str()).as_str());
                s
            },
            LaunchError::EmptyInstallLocation =>
                "Get-AppxPackage returned an empty InstallLocation".to_string(),
            LaunchError::EnvVarNotSet { name } => name.clone().concat(" is not set"),
            LaunchError::ShortcutPathNotUtf8 => "shortcut path is not valid UTF-8".to_string(),
            LaunchError::TargetPathNotUtf8 => "target path is not valid UTF-8".to_string(),
            LaunchError::WorkingDirNotUtf8 =>
                "working directory path is not valid UTF-8".to_string(),
            LaunchError::ShortcutFailed { shortcut, stderr } => {
                let mut s = "failed to create Start Menu shortcut ".to_string();
                s.append(shortcut.as_str());
                s.append(": ");
                s.append(trim(stderr.as_str()).as_str());
                s
            },
            LaunchError::ShortcutUnsupported =>
                "Start Menu shortcut installation is only supported on Windows".to_string(),
        }
    }
}

} // verus!
