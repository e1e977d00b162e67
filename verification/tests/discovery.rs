use std::path::PathBuf;

use codexlaunch::discovery::{
    default_codex_exe_path, find_appx_install_location, install_location, package_exe_components,
    package_query_script, powershell_args, resolve_codex_exe, ExeCandidate, Resolution,
};
use codexlaunch::error::LaunchError;

fn candidate(is_file: bool) -> ExeCandidate {
    ExeCandidate {
        path: PathBuf::from(r"C:\Codex.exe"),
        display: r"C:\Codex.exe".to_string(),
        is_file,
    }
}

#[test]
fn an_explicit_executable_must_be_a_file() {
    assert_eq!(
        resolve_codex_exe(Some(candidate(true))),
        Resolution::Found(PathBuf::from(r"C:\Codex.exe"))
    );
    match resolve_codex_exe(Some(candidate(false))) {
        Resolution::Failed(error) => {
            assert_eq!(error.message(), r"Codex executable does not exist: C:\Codex.exe")
        }
        other => panic!("{:?}", other),
    }
    assert_eq!(resolve_codex_exe(None), Resolution::UseDefault);
}

#[test]
fn the_default_executable_must_be_a_file() {
    assert_eq!(
        default_codex_exe_path(Some(candidate(true))),
        Ok(PathBuf::from(r"C:\Codex.exe"))
    );
    assert_eq!(
        default_codex_exe_path(Some(candidate(false))).unwrap_err().message(),
        r"resolved Codex.exe does not exist: C:\Codex.exe"
    );
    assert_eq!(
        default_codex_exe_path(None).unwrap_err().message(),
        "automatic Codex.exe discovery is only supported on Windows; pass --codex-exe"
    );
}

#[test]
fn the_executable_is_in_the_app_directory() {
    assert_eq!(package_exe_components(), ["app", "Codex.exe"]);
}

#[test]
fn the_newest_package_is_asked_for() {
    assert_eq!(
        package_query_script("OpenAI.Codex"),
        "$pkg = Get-AppxPackage -Name 'OpenAI.Codex' | Sort-Object Version -Descending | Select-Object -First 1; if ($null -eq $pkg) { exit 2 }; Write-Output $pkg.InstallLocation"
    );
    assert_eq!(
        powershell_args("x y"),
        vec!["-NoProfile", "-NonInteractive", "-ExecutionPolicy", "Bypass", "-Command", "x y"]
    );
}

#[test]
fn the_first_line_that_is_not_blank_is_the_location() {
    assert_eq!(
        install_location("\r\n  \r\n  C:\\Program Files\\x \r\nC:\\y\r\n"),
        Some(r"C:\Program Files\x".to_string())
    );
    assert_eq!(install_location("\u{a0}\n\n"), None);
    assert_eq!(install_location(""), None);
}

#[test]
fn the_package_query_gives_a_location() {
    assert_eq!(
        find_appx_install_location("OpenAI.Codex", true, "\n\u{e9}\r\n".as_bytes(), b""),
        Ok("\u{e9}".to_string())
    );
    assert_eq!(
        find_appx_install_location("OpenAI.Codex", true, b"\xe9", b""),
        Ok("\u{fffd}".to_string())
    );
    assert_eq!(
        find_appx_install_location("OpenAI.Codex", true, b" \r\n", b"warning"),
        Err(LaunchError::EmptyInstallLocation)
    );
    assert_eq!(
        LaunchError::EmptyInstallLocation.message(),
        "Get-AppxPackage returned an empty InstallLocation"
    );
}

#[test]
fn a_failed_package_query_is_told() {
    assert_eq!(
        find_appx_install_location("OpenAI.Codex", false, b"C:\\x", b" no \xff such\r\n")
            .unwrap_err()
            .message(),
        "failed to resolve Codex install location with Get-AppxPackage -Name OpenAI.Codex: no \u{fffd} such"
    );
}

#[test]
fn a_failed_query_keeps_what_was_told() {
    let told = " caf\u{e9} \u{1f600}\r\n";
    assert_eq!(
        find_appx_install_location("P", false, b"", told.as_bytes()),
        Err(LaunchError::PackageQueryFailed {
            package_name: "P".to_string(),
            stderr: told.to_string(),
        })
    );
}
