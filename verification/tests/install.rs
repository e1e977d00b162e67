use codexlaunch::error::LaunchError;
use codexlaunch::install::{
    create_start_menu_shortcut, default_install_dir, default_installed_exe_path,
    default_start_menu_shortcut_path, install, legacy_start_menu_shortcut_path, same_file_path, shortcut_outcome, InstallAction, InstallEvent,
    InstallPath, InstallPaths, InstallStep,
};
use codexlaunch::options::InstallOptions;

fn paths() -> InstallPaths {
    InstallPaths {
        source: "S".to_string(),
        target: "T".to_string(),
        shortcut: "L".to_string(),
        icon: "I".to_string(),
    }
}

fn step(dry_run: bool, event: InstallEvent) -> InstallStep {
    install(&InstallOptions { dry_run }, &paths(), event)
}

const CREATE_DIR: InstallAction = InstallAction::CreateDir { dir: InstallPath::InstallDir };

const COPY_EXE: InstallAction =
    InstallAction::CopyExe { from: InstallPath::Source, to: InstallPath::Target };

const CREATE_SHORTCUT: InstallAction = InstallAction::CreateShortcut {
    shortcut: InstallPath::Shortcut,
    target: InstallPath::Target,
    working_dir: InstallPath::InstallDir,
    icon: InstallPath::Icon,
};

const LOOK_FOR_LEGACY: InstallAction =
    InstallAction::LookForLegacy { path: InstallPath::LegacyShortcut };

const REMOVE_LEGACY: InstallAction =
    InstallAction::RemoveLegacy { path: InstallPath::LegacyShortcut };

#[test]
fn paths_are_below_the_profile() {
    assert_eq!(default_install_dir(true).unwrap(), vec!["CodexLaunch"]);
    assert_eq!(default_installed_exe_path(true).unwrap(), vec!["CodexLaunch", "CodexLaunch.exe"]);
    assert_eq!(
        default_start_menu_shortcut_path(true).unwrap(),
        vec!["Microsoft", "Windows", "Start Menu", "Programs", "CodexLaunch.lnk"]
    );
    assert_eq!(
        legacy_start_menu_shortcut_path(true).unwrap(),
        vec!["Microsoft", "Windows", "Start Menu", "Programs", "Codex++.lnk"]
    );
}

#[test]
fn the_profile_must_be_known() {
    assert_eq!(
        default_install_dir(false).unwrap_err().message(),
        "LOCALAPPDATA is not set"
    );
    assert_eq!(
        default_installed_exe_path(false).unwrap_err().message(),
        "LOCALAPPDATA is not set"
    );
    assert_eq!(
        default_start_menu_shortcut_path(false).unwrap_err().message(),
        "APPDATA is not set"
    );
    assert_eq!(
        legacy_start_menu_shortcut_path(false).unwrap_err().message(),
        "APPDATA is not set"
    );
}

#[test]
fn files_are_the_same_where_their_canonical_paths_are() {
    assert!(same_file_path(Some(b"/a/b"), Some(b"/a/b")));
    assert!(!same_file_path(Some(b"/a/b"), Some(b"/a/c")));
    assert!(!same_file_path(Some(b"/a/b"), Some(b"/a/bc")));
    assert!(!same_file_path(None, None));
    assert!(!same_file_path(Some(b"/a"), None));
    assert!(!same_file_path(None, Some(b"/a")));
}

#[test]
fn the_shortcut_script_quotes_its_paths() {
    assert_eq!(
        create_start_menu_shortcut(true, Some("L'nk"), Some("T x"), Some("W"), "I").unwrap(),
        "\n$ErrorActionPreference = 'Stop'\n$shell = New-Object -ComObject WScript.Shell\n$shortcut = $shell.CreateShortcut('L''nk')\n$shortcut.TargetPath = 'T x'\n$shortcut.Arguments = 'launch'\n$shortcut.WorkingDirectory = 'W'\n$shortcut.IconLocation = 'I,0'\n$shortcut.Save()\n"
    );
}

#[test]
fn the_first_path_that_is_not_text_is_told() {
    assert_eq!(
        create_start_menu_shortcut(true, None, None, None, "I").unwrap_err().message(),
        "shortcut path is not valid UTF-8"
    );
    assert_eq!(
        create_start_menu_shortcut(true, Some("L"), None, None, "I").unwrap_err().message(),
        "target path is not valid UTF-8"
    );
    assert_eq!(
        create_start_menu_shortcut(true, Some("L"), Some("T"), None, "I").unwrap_err().message(),
        "working directory path is not valid UTF-8"
    );
    assert_eq!(
        create_start_menu_shortcut(false, None, Some("T"), Some("W"), "I").unwrap_err().message(),
        "Start Menu shortcut installation is only supported on Windows"
    );
}

#[test]
fn a_failed_shortcut_is_told() {
    assert_eq!(shortcut_outcome(true, "L", b"warning"), Ok(()));
    let error = shortcut_outcome(false, "L", b"\r\n denied\xff \r\n").unwrap_err();
    assert_eq!(
        error,
        LaunchError::ShortcutFailed {
            shortcut: "L".to_string(),
            stderr: "\r\n denied\u{fffd} \r\n".to_string(),
        }
    );
    assert_eq!(error.message(), "failed to create Start Menu shortcut L: denied\u{fffd}");
}

#[test]
fn a_dry_run_installs_nothing() {
    let lines = vec![
        "CodexLaunch install source: S",
        "CodexLaunch install target: T",
        "CodexLaunch shortcut: L",
        "CodexLaunch shortcut icon: I,0",
    ];
    let dry = step(true, InstallEvent::PathsResolved);
    assert_eq!(dry.lines, lines);
    assert_eq!(dry.action, InstallAction::Stop);
    let real = step(false, InstallEvent::PathsResolved);
    assert_eq!(real.lines, lines);
    assert_eq!(real.action, CREATE_DIR);
}

#[test]
fn the_executable_is_not_copied_onto_itself() {
    for target_exists in [false, true] {
        for same_file in [false, true] {
            let next = step(false, InstallEvent::DirCreated { target_exists, same_file });
            if target_exists && same_file {
                assert_eq!(next.action, CREATE_SHORTCUT);
                assert_eq!(
                    next.lines,
                    vec!["CodexLaunch is already running from the install target; skipping copy."]
                );
            } else {
                assert_eq!(next.action, COPY_EXE);
                assert!(next.lines.is_empty());
            }
        }
    }
}

#[test]
fn the_shortcut_follows_the_executable() {
    let next = step(false, InstallEvent::Copied);
    assert_eq!(next.action, CREATE_SHORTCUT);
    assert_eq!(next.lines, vec!["Installed CodexLaunch executable."]);
    let next = step(false, InstallEvent::ShortcutCreated);
    assert_eq!(next.action, LOOK_FOR_LEGACY);
    assert_eq!(next.lines, vec!["Installed CodexLaunch Start Menu shortcut."]);
}

#[test]
fn the_former_shortcut_is_removed_where_it_is() {
    let next = step(false, InstallEvent::LegacyLooked { exists: true });
    assert_eq!(next.action, REMOVE_LEGACY);
    assert!(next.lines.is_empty());
    let next = step(false, InstallEvent::LegacyLooked { exists: false });
    assert_eq!(next.action, InstallAction::Stop);
    assert!(next.lines.is_empty());
    let next = step(false, InstallEvent::LegacyRemoved { shortcut: "P".to_string() });
    assert_eq!(next.action, InstallAction::Stop);
    assert_eq!(next.lines, vec!["Removed legacy Start Menu shortcut P."]);
}

#[test]
fn a_finished_installation_is_complete() {
    let mut done: Vec<InstallAction> = Vec::new();
    let mut event = InstallEvent::PathsResolved;
    loop {
        let action = step(false, event).action;
        event = match action {
            InstallAction::CreateDir { .. } => {
                InstallEvent::DirCreated { target_exists: true, same_file: false }
            }
            InstallAction::CopyExe { .. } => InstallEvent::Copied,
            InstallAction::CreateShortcut { .. } => InstallEvent::ShortcutCreated,
            InstallAction::LookForLegacy { .. } => InstallEvent::LegacyLooked { exists: true },
            InstallAction::RemoveLegacy { .. } => InstallEvent::LegacyRemoved { shortcut: "P".to_string() },
            InstallAction::Stop => break,
        };
        done.push(action);
    }
    assert_eq!(
        done,
        vec![
            CREATE_DIR,
            COPY_EXE,
            CREATE_SHORTCUT,
            LOOK_FOR_LEGACY,
            REMOVE_LEGACY,
        ]
    );
}

#[test]
fn a_failed_shortcut_keeps_what_was_told() {
    let told = " caf\u{e9} \u{1f600}\r\n";
    assert_eq!(
        shortcut_outcome(false, "L", told.as_bytes()),
        Err(LaunchError::ShortcutFailed { shortcut: "L".to_string(), stderr: told.to_string() })
    );
}
