//! What an installation does, and where, said of its steps and paths.

use vstd::prelude::*;

use crate::error::LaunchError;
use crate::install::{
    default_install_dir, default_installed_exe_path, default_start_menu_shortcut_path, install,
    install_action, install_follows, install_run, legacy_start_menu_shortcut_path, same_file_path,
    shortcut_outcome, InstallAction, InstallEvent, InstallPaths, InstallStep,
};
use crate::options::InstallOptions;
use crate::text::{texts, utf8_lossy};

verus! {

/// An installation goes on with every event: it ends just where it is a dry run, where no shortcut
/// with the former name is there, and where that was removed; and each step names the paths it is
/// about.
pub proof fn law_installation_goes_on(
    options: &InstallOptions,
    paths: &InstallPaths,
    event: InstallEvent,
    step: InstallStep,
)
    requires
        call_ensures(install, (options, paths, event), step),
    ensures
        step.action is Stop <==> (event is PathsResolved && options.dry_run) || event == (
        InstallEvent::LegacyLooked { exists: false }) || event is LegacyRemoved,
        step.action is CreateDir <==> event is PathsResolved && !options.dry_run,
        step.action is CopyExe <==> (event matches InstallEvent::DirCreated {
            target_exists,
            same_file,
        } && !(target_exists && same_file)),
        step.action is CreateShortcut <==> event is Copied || event == (InstallEvent::DirCreated {
            target_exists: true,
            same_file: true,
        }),
        step.action is LookForLegacy <==> event is ShortcutCreated,
        step.action is RemoveLegacy <==> event == (InstallEvent::LegacyLooked { exists: true }),
        step.action matches InstallAction::CreateDir { dir } ==> dir is InstallDir,
        step.action matches InstallAction::CopyExe { from, to } ==> from is Source && to is Target,
        step.action matches InstallAction::CreateShortcut { shortcut, target, working_dir, icon } ==> {
            &&& shortcut is Shortcut
            &&& target is Target
            &&& working_dir is InstallDir
            &&& icon is Icon
        },
        step.action matches InstallAction::LookForLegacy { path } ==> path is LegacyShortcut,
        step.action matches InstallAction::RemoveLegacy { path } ==> path is LegacyShortcut,
{
}

/// What is told first: the four paths, whatever they are.
pub proof fn law_paths_are_told(options: &InstallOptions, paths: &InstallPaths, step: InstallStep)
    requires
        call_ensures(install, (options, paths, InstallEvent::PathsResolved), step),
    ensures
        step.lines@.len() == 4,
        step.lines@[0]@ == "CodexLaunch"@ + " install source: "@ + paths.source@,
        step.lines@[1]@ == "CodexLaunch"@ + " install target: "@ + paths.target@,
        step.lines@[2]@ == "CodexLaunch"@ + " shortcut: "@ + paths.shortcut@,
        step.lines@[3]@ == "CodexLaunch"@ + " shortcut icon: "@ + paths.icon@ + ",0"@,
{
    let lines = texts(step.lines@);
    assert(lines.len() == step.lines@.len());
    assert(lines[0] == step.lines@[0]@ && lines[1] == step.lines@[1]@ && lines[2]
        == step.lines@[2]@ && lines[3] == step.lines@[3]@);
}

/// What is told later: each thing that was done, and that the copy was left out where it was.
pub proof fn law_later_install_steps_are_told(
    options: &InstallOptions,
    paths: &InstallPaths,
    event: InstallEvent,
    step: InstallStep,
)
    requires
        call_ensures(install, (options, paths, event), step),
        event !is PathsResolved,
    ensures
        step.lines@.len() == 0 <==> step.action is CopyExe || event is LegacyLooked,
        step.lines@.len() <= 1,
        event is DirCreated && step.action is CreateShortcut ==> step.lines@[0]@ == "CodexLaunch"@
            + " is already running from the install target; skipping copy."@,
        event is Copied ==> step.lines@[0]@ == "Installed "@ + "CodexLaunch"@ + " executable."@,
        event is ShortcutCreated ==> step.lines@[0]@ == "Installed "@ + "CodexLaunch"@
            + " Start Menu shortcut."@,
        event matches InstallEvent::LegacyRemoved { shortcut } ==> step.lines@[0]@
            == "Removed legacy Start Menu shortcut "@ + shortcut@ + "."@,
{
    let lines = texts(step.lines@);
    assert(lines.len() == step.lines@.len());
    if lines.len() > 0 {
        assert(lines[0] == step.lines@[0]@);
    }
}

/// Where the user asked for a dry run, nothing is asked for once the paths were told; and where not,
/// the directory is made.
pub proof fn law_dry_run_asked_for_installs_nothing(
    options: InstallOptions,
    events: Seq<InstallEvent>,
)
    requires
        install_run(options.dry_run, events),
    ensures
        options.dry_run ==> events.len() <= 1,
        !options.dry_run ==> install_action(options.dry_run, InstallEvent::PathsResolved)
            is CreateDir,
        !options.dry_run && events.len() > 1 ==> events[1] is DirCreated,
{
    if events.len() > 1 {
        assert(install_follows(options.dry_run, events, 1));
    }
}

/// The installation is in its own directory of the profile, and the executable in that directory;
/// where the profile is not known, the variable that should name it is told.
pub proof fn law_executable_is_in_the_install_dir(
    known: bool,
    dir: Result<Vec<String>, LaunchError>,
    exe: Result<Vec<String>, LaunchError>,
)
    requires
        call_ensures(default_install_dir, (known,), dir),
        call_ensures(default_installed_exe_path, (known,), exe),
    ensures
        known <==> dir is Ok,
        known <==> exe is Ok,
        dir matches Ok(parts) ==> parts@.len() == 1 && parts@[0]@ == "CodexLaunch"@,
        exe matches Ok(parts) ==> parts@.len() == 2 && parts@[0]@ == "CodexLaunch"@ && parts@[1]@
            == "CodexLaunch.exe"@,
        dir matches Err(error) ==> (error matches LaunchError::EnvVarNotSet { name } && name@
            == "LOCALAPPDATA"@),
        exe matches Err(error) ==> (error matches LaunchError::EnvVarNotSet { name } && name@
            == "LOCALAPPDATA"@),
{
    if let Ok(parts) = dir {
        assert(texts(parts@).len() == parts@.len());
        assert(texts(parts@)[0] == parts@[0]@);
    }
    if let Ok(parts) = exe {
        assert(texts(parts@).len() == parts@.len());
        assert(texts(parts@)[0] == parts@[0]@ && texts(parts@)[1] == parts@[1]@);
    }
}

/// The shortcut and the one with the former name are in the same directory of the Start Menu.
pub proof fn law_shortcuts_are_in_the_start_menu(
    known: bool,
    shortcut: Result<Vec<String>, LaunchError>,
    legacy: Result<Vec<String>, LaunchError>,
)
    requires
        call_ensures(default_start_menu_shortcut_path, (known,), shortcut),
        call_ensures(legacy_start_menu_shortcut_path, (known,), legacy),
    ensures
        known <==> shortcut is Ok,
        known <==> legacy is Ok,
        shortcut matches Ok(parts) ==> {
            &&& parts@.len() == 5
            &&& parts@[0]@ == "Microsoft"@ && parts@[1]@ == "Windows"@
            &&& parts@[2]@ == "Start Menu"@ && parts@[3]@ == "Programs"@
            &&& parts@[4]@ == "CodexLaunch.lnk"@
        },
        legacy matches Ok(parts) ==> {
            &&& parts@.len() == 5
            &&& parts@[0]@ == "Microsoft"@ && parts@[1]@ == "Windows"@
            &&& parts@[2]@ == "Start Menu"@ && parts@[3]@ == "Programs"@
            &&& parts@[4]@ == "Codex++.lnk"@
        },
        shortcut matches Err(error) ==> (error matches LaunchError::EnvVarNotSet { name } && name@
            == "APPDATA"@),
        legacy matches Err(error) ==> (error matches LaunchError::EnvVarNotSet { name } && name@
            == "APPDATA"@),
{
    if let Ok(parts) = shortcut {
        let all = texts(parts@);
        assert(all.len() == parts@.len());
        assert(all[0] == parts@[0]@ && all[1] == parts@[1]@ && all[2] == parts@[2]@ && all[3]
            == parts@[3]@ && all[4] == parts@[4]@);
    }
    if let Ok(parts) = legacy {
        let all = texts(parts@);
        assert(all.len() == parts@.len());
        assert(all[0] == parts@[0]@ && all[1] == parts@[1]@ && all[2] == parts@[2]@ && all[3]
            == parts@[3]@ && all[4] == parts@[4]@);
    }
}

/// Two paths are of the same file just where both have a canonical form and it is the same one,
/// whichever is named first.
pub proof fn law_same_file(
    left: Option<&[u8]>,
    right: Option<&[u8]>,
    same: bool,
    turned: bool,
)
    requires
        call_ensures(same_file_path, (left, right), same),
        call_ensures(same_file_path, (right, left), turned),
    ensures
        same == turned,
        same ==> left is Some && right is Some && left->0@ == right->0@,
        !same ==> left is None || right is None || left->0@ != right->0@,
{
}

/// A shortcut is told as failed just where its script failed, with its path and what the script told.
pub proof fn law_failed_shortcut_is_told(
    success: bool,
    shortcut: &str,
    stderr: &[u8],
    outcome: Result<(), LaunchError>,
)
    requires
        call_ensures(shortcut_outcome, (success, shortcut, stderr), outcome),
    ensures
        outcome is Ok <==> success,
        outcome matches Err(error) ==> (error matches LaunchError::ShortcutFailed {
            shortcut: path,
            stderr: told,
        } && path@ == shortcut@ && told@ == utf8_lossy(stderr@) && (vstd::utf8::valid_utf8(stderr@)
            ==> told@ == vstd::utf8::decode_utf8(stderr@))),
{
}

} // verus!
