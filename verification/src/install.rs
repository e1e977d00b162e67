//! The installation for the current user: its paths, its steps and its Start Menu shortcut.

use vstd::prelude::*;

use crate::error::LaunchError;
use crate::options::InstallOptions;
use crate::quoting::{powershell_quoted, quote_powershell_string};
use crate::text::{text_of_utf8, texts, utf8_lossy};

verus! {

/// The name of the launcher.
pub const APP_DISPLAY_NAME: &'static str = "CodexLaunch";

/// The name of the installed executable.
pub const INSTALLED_EXE_NAME: &'static str = "CodexLaunch.exe";

/// The name of the Start Menu shortcut.
pub const START_MENU_SHORTCUT_NAME: &'static str = "CodexLaunch.lnk";

/// The name that the Start Menu shortcut once had.
pub const LEGACY_START_MENU_SHORTCUT_NAME: &'static str = "Codex++.lnk";

/// The directories of the Start Menu below the one that `APPDATA` names, and the shortcut in it.
pub open spec fn start_menu_path(shortcut: Seq<char>) -> Seq<Seq<char>> {
    seq!["Microsoft"@, "Windows"@, "Start Menu"@, "Programs"@, shortcut]
}

/// Where the launcher is installed, below the directory that `LOCALAPPDATA` names.
pub fn default_install_dir(local_app_data_set: bool) -> (components: Result<
    Vec<String>,
    LaunchError,
>)
    ensures
        local_app_data_set ==> (components matches Ok(list) && texts(list@) == seq![
            APP_DISPLAY_NAME@,
        ]),
        !local_app_data_set ==> (components matches Err(LaunchError::EnvVarNotSet { name }) && name@
            == "LOCALAPPDATA"@),
{
    if !local_app_data_set {
        return Err(LaunchError::EnvVarNotSet { name: "LOCALAPPDATA".to_string() });
    }
    let mut list: Vec<String> = Vec::new();
    list.push(APP_DISPLAY_NAME.to_string());
    assert(texts(list@) == seq![APP_DISPLAY_NAME@]);
    Ok(list)
}

/// Where the installed executable is, below the directory that `LOCALAPPDATA` names.
pub fn default_installed_exe_path(local_app_data_set: bool) -> (components: Result<
    Vec<String>,
    LaunchError,
>)
    ensures
        local_app_data_set ==> (components matches Ok(list) && texts(list@) == seq![
            APP_DISPLAY_NAME@,
            INSTALLED_EXE_NAME@,
        ]),
        !local_app_data_set ==> (components matches Err(LaunchError::EnvVarNotSet { name }) && name@
            == "LOCALAPPDATA"@),
{
    match default_install_dir(local_app_data_set) {
        Ok(dir) => {
            let mut list = dir;
            let ghost before = texts(list@);
            let name = INSTALLED_EXE_NAME.to_string();
            list.push(name);
            assert(texts(list@) == before.push(name@));
            Ok(list)
        },
        Err(error) => Err(error),
    }
}

/// Where a shortcut is in the Start Menu, below the directory that `APPDATA` names.
fn start_menu_components(app_data_set: bool, shortcut: &str) -> (components: Result<
    Vec<String>,
    LaunchError,
>)
    ensures
        app_data_set ==> (components matches Ok(list) && texts(list@) == start_menu_path(
            shortcut@,
        )),
        !app_data_set ==> (components matches Err(LaunchError::EnvVarNotSet { name }) && name@
            == "APPDATA"@),
{
    if !app_data_set {
        return Err(LaunchError::EnvVarNotSet { name: "APPDATA".to_string() });
    }
    let mut list: Vec<String> = Vec::new();
    list.push("Microsoft".to_string());
    list.push("Windows".to_string());
    list.push("Start Menu".to_string());
    list.push("Programs".to_string());
    list.push(shortcut.to_string());
    assert(texts(list@) == start_menu_path(shortcut@));
    Ok(list)
}

/// Where the Start Menu shortcut is, below the directory that `APPDATA` names.
pub fn default_start_menu_shortcut_path(app_data_set: bool) -> (components: Result<
    Vec<String>,
    LaunchError,
>)
    ensures
        app_data_set ==> (components matches Ok(list) && texts(list@) == start_menu_path(
            START_MENU_SHORTCUT_NAME@,
        )),
        !app_data_set ==> (components matches Err(LaunchError::EnvVarNotSet { name }) && name@
            == "APPDATA"@),
{
    start_menu_components(app_data_set, START_MENU_SHORTCUT_NAME)
}

/// Where the Start Menu shortcut once was, below the directory that `APPDATA` names.
pub fn legacy_start_menu_shortcut_path(app_data_set: bool) -> (components: Result<
    Vec<String>,
    LaunchError,
>)
    ensures
        app_data_set ==> (components matches Ok(list) && texts(list@) == start_menu_path(
            LEGACY_START_MENU_SHORTCUT_NAME@,
        )),
        !app_data_set ==> (components matches Err(LaunchError::EnvVarNotSet { name }) && name@
            == "APPDATA"@),
{
    start_menu_components(app_data_set, LEGACY_START_MENU_SHORTCUT_NAME)
}

/// Whether the two slices hold the same bytes.
fn same_bytes(a: &[u8], b: &[u8]) -> (same: bool)
    ensures
        same == (a@ == b@),
{
    if a.len() != b.len() {
        return false;
    }
    let mut i: usize = 0;
    while i < a.len()
        invariant
            i <= a@.len() == b@.len(),
            forall|j: int| 0 <= j < i ==> a@[j] == b@[j],
        decreases a@.len() - i,
    {
        if a[i] != b[i] {
            return false;
        }
        i = i + 1;
    }
    assert(a@ == b@);
    true
}

/// Whether two paths are of the same file: each is given as the bytes of its canonical form, and as
/// nothing where it has none.
pub fn same_file_path(left: Option<&[u8]>, right: Option<&[u8]>) -> (same: bool)
    ensures
        same == (left is Some && right is Some && left->0@ == right->0@),
{
    match (left, right) {
        (Some(left), Some(right)) => same_bytes(left, right),
        _ => false,
    }
}

/// The PowerShell script that makes the Start Menu shortcut.
pub open spec fn shortcut_script(
    shortcut: Seq<char>,
    target: Seq<char>,
    working_dir: Seq<char>,
    icon: Seq<char>,
) -> Seq<char> {
    "\n$ErrorActionPreference = 'Stop'\n$shell = New-Object -ComObject WScript.Shell\n$shortcut = $shell.CreateShortcut("@
        + powershell_quoted(shortcut) + ")\n$shortcut.TargetPath = "@ + powershell_quoted(target)
        + "\n$shortcut.Arguments = "@ + powershell_quoted("launch"@)
        + "\n$shortcut.WorkingDirectory = "@ + powershell_quoted(working_dir)
        + "\n$shortcut.IconLocation = "@ + powershell_quoted(icon + ",0"@)
        + "\n$shortcut.Save()\n"@
}

/// The PowerShell script that makes the Start Menu shortcut. A path that is not text is given as
/// nothing; the first of them is told. The icon is given as its path is displayed.
pub fn create_start_menu_shortcut(
    supported: bool,
    shortcut_path: Option<&str>,
    target_exe: Option<&str>,
    working_dir: Option<&str>,
    icon_path: &str,
) -> (script: Result<String, LaunchError>)
    ensures
        match script {
            Ok(text) => {
                &&& supported
                &&& shortcut_path is Some
                &&& target_exe is Some
                &&& working_dir is Some
                &&& text@ == shortcut_script(
                    shortcut_path->0@,
                    target_exe->0@,
                    working_dir->0@,
                    icon_path@,
                )
            },
            Err(error) => if !supported {
                error == LaunchError::ShortcutUnsupported
            } else if shortcut_path is None {
                error == LaunchError::ShortcutPathNotUtf8
            } else if target_exe is None {
                error == LaunchError::TargetPathNotUtf8
            } else {
                working_dir is None && error == LaunchError::WorkingDirNotUtf8
            },
        },
{
    if !supported {
        return Err(LaunchError::ShortcutUnsupported);
    }
    let shortcut = match shortcut_path {
        Some(path) => quote_powershell_string(path),
        None => {
            return Err(LaunchError::ShortcutPathNotUtf8);
        },
    };
    let target = match target_exe {
        Some(path) => quote_powershell_string(path),
        None => {
            return Err(LaunchError::TargetPathNotUtf8);
        },
    };
    let arguments = quote_powershell_string("launch");
    let directory = match working_dir {
        Some(path) => quote_powershell_string(path),
        None => {
            return Err(LaunchError::WorkingDirNotUtf8);
        },
    };
    let icon = quote_powershell_string(icon_path.to_string().concat(",0").as_str());
    let mut script =
        "\n$ErrorActionPreference = 'Stop'\n$shell = New-Object -ComObject WScript.Shell\n$shortcut = $shell.CreateShortcut(".to_string();
    script.append(shortcut.as_str());
    script.append(")\n$shortcut.TargetPath = ");
    script.append(target.as_str());
    script.append("\n$shortcut.Arguments = ");
    script.append(arguments.as_str());
    script.append("\n$shortcut.WorkingDirectory = ");
    script.append(directory.as_str());
    script.append("\n$shortcut.IconLocation = ");
    script.append(icon.as_str());
    script.append("\n$shortcut.Save()\n");
    Ok(script)
}

/// Says whether the shortcut was made, once the script ended. The shortcut is given as its path is
/// displayed.
pub fn shortcut_outcome(success: bool, shortcut: &str, stderr: &[u8]) -> (outcome: Result<
    (),
    LaunchError,
>)
    ensures
        success ==> outcome is Ok,
        !success ==> (outcome matches Err(
            LaunchError::ShortcutFailed { shortcut: told, stderr: words },
        ) && told@ == shortcut@ && words@ == utf8_lossy(stderr@) && (vstd::utf8::valid_utf8(stderr@)
            ==> words@ == vstd::utf8::decode_utf8(stderr@))),
{
    if success {
        return Ok(());
    }
    Err(
        LaunchError::ShortcutFailed {
            shortcut: shortcut.to_string(),
            stderr: text_of_utf8(stderr),
        },
    )
}

/// The paths of an installation, as they are displayed.
#[derive(Debug, PartialEq, Eq)]
pub struct InstallPaths {
    /// The executable that runs.
    pub source: String,
    /// Where it is installed.
    pub target: String,
    /// The Start Menu shortcut.
    pub shortcut: String,
    /// The file with the icon of the shortcut.
    pub icon: String,
}

/// A path of an installation, by what is there.
#[derive(Debug, Clone, Copy, PartialEq, Eq)]
pub enum InstallPath {
    /// The executable that runs.
    Source,
    /// The directory of the installation.
    InstallDir,
    /// The installed executable.
    Target,
    /// The Start Menu shortcut.
    Shortcut,
    /// The file with the icon of the shortcut.
    Icon,
    /// The Start Menu shortcut with the former name.
    LegacyShortcut,
}

/// What happened last in an installation.
#[derive(Debug, PartialEq, Eq)]
pub enum InstallEvent {
    /// The paths are known.
    PathsResolved,
    /// The directory is there: whether something is at the target, and whether it is the same file
    /// as the source.
    DirCreated { target_exists: bool, same_file: bool },
    /// The executable was copied.
    Copied,
    /// The shortcut was made.
    ShortcutCreated,
    /// The shortcut with the former name was looked for.
    LegacyLooked { exists: bool },
    /// The shortcut with the former name, at this path, was removed.
    LegacyRemoved { shortcut: String },
}

/// What an installation does next.
#[derive(Debug, PartialEq, Eq)]
pub enum InstallAction {
    /// Make this directory.
    CreateDir { dir: InstallPath },
    /// Copy the executable.
    CopyExe { from: InstallPath, to: InstallPath },
    /// Make the shortcut here, to this executable, with this working directory and this icon.
    CreateShortcut {
        shortcut: InstallPath,
        target: InstallPath,
        working_dir: InstallPath,
        icon: InstallPath,
    },
    /// Look for the shortcut with the former name here.
    LookForLegacy { path: InstallPath },
    /// Remove the shortcut with the former name here.
    RemoveLegacy { path: InstallPath },
    /// Nothing more.
    Stop,
}

/// What an installation tells, and what it does then.
#[derive(Debug, PartialEq, Eq)]
pub struct InstallStep {
    /// The lines to tell.
    pub lines: Vec<String>,
    /// What to do then.
    pub action: InstallAction,
}

/// What is told once an event happened.
pub open spec fn install_lines(paths: InstallPaths, event: InstallEvent) -> Seq<Seq<char>> {
    match event {
        InstallEvent::PathsResolved => seq![
            APP_DISPLAY_NAME@ + " install source: "@ + paths.source@,
            APP_DISPLAY_NAME@ + " install target: "@ + paths.target@,
            APP_DISPLAY_NAME@ + " shortcut: "@ + paths.shortcut@,
            APP_DISPLAY_NAME@ + " shortcut icon: "@ + paths.icon@ + ",0"@,
        ],
        InstallEvent::DirCreated { target_exists, same_file } => if target_exists && same_file {
            seq![
                APP_DISPLAY_NAME@
                    + " is already running from the install target; skipping copy."@,
            ]
        } else {
            seq![]
        },
        InstallEvent::Copied => seq!["Installed "@ + APP_DISPLAY_NAME@ + " executable."@],
        InstallEvent::ShortcutCreated => seq![
            "Installed "@ + APP_DISPLAY_NAME@ + " Start Menu shortcut."@,
        ],
        InstallEvent::LegacyLooked { exists } => seq![],
        InstallEvent::LegacyRemoved { shortcut } => seq![
            "Removed legacy Start Menu shortcut "@ + shortcut@ + "."@,
        ],
    }
}

/// The making of the shortcut: it starts the installed executable, in its directory.
pub open spec fn make_shortcut() -> InstallAction {
    InstallAction::CreateShortcut {
        shortcut: InstallPath::Shortcut,
        target: InstallPath::Target,
        working_dir: InstallPath::InstallDir,
        icon: InstallPath::Icon,
    }
}

/// What is done once an event happened. The executable is not copied onto itself.
pub open spec fn install_action(dry_run: bool, event: InstallEvent) -> InstallAction {
    match event {
        InstallEvent::PathsResolved => if dry_run {
            InstallAction::Stop
        } else {
            InstallAction::CreateDir { dir: InstallPath::InstallDir }
        },
        InstallEvent::DirCreated { target_exists, same_file } => if target_exists && same_file {
            make_shortcut()
        } else {
            InstallAction::CopyExe { from: InstallPath::Source, to: InstallPath::Target }
        },
        InstallEvent::Copied => make_shortcut(),
        InstallEvent::ShortcutCreated => InstallAction::LookForLegacy { path: InstallPath::LegacyShortcut },
        InstallEvent::LegacyLooked { exists } => if exists {
            InstallAction::RemoveLegacy { path: InstallPath::LegacyShortcut }
        } else {
            InstallAction::Stop
        },
        InstallEvent::LegacyRemoved { shortcut } => InstallAction::Stop,
    }
}

/// Says what to tell and what to do next in an installation.
pub fn install(options: &InstallOptions, paths: &InstallPaths, event: InstallEvent) -> (step:
    InstallStep)
    ensures
        texts(step.lines@) == install_lines(*paths, event),
        step.action == install_action(options.dry_run, event),
{
    let mut lines: Vec<String> = Vec::new();
    let action = match event {
        InstallEvent::PathsResolved => {
            let mut source = APP_DISPLAY_NAME.to_string();
            source.append(" install source: ");
            source.append(paths.source.as_str());
            lines.push(source);
            let mut target = APP_DISPLAY_NAME.to_string();
            target.append(" install target: ");
            target.append(paths.target.as_str());
            lines.push(target);
            let mut shortcut = APP_DISPLAY_NAME.to_string();
            shortcut.append(" shortcut: ");
            shortcut.append(paths.shortcut.as_str());
            lines.push(shortcut);
            let mut icon = APP_DISPLAY_NAME.to_string();
            icon.append(" shortcut icon: ");
            icon.append(paths.icon.as_str());
            icon.append(",0");
            lines.push(icon);
            if options.dry_run {
                InstallAction::Stop
            } else {
                InstallAction::CreateDir { dir: InstallPath::InstallDir }
            }
        },
        InstallEvent::DirCreated { target_exists, same_file } => {
            if target_exists && same_file {
                let mut line = APP_DISPLAY_NAME.to_string();
                line.append(" is already running from the install target; skipping copy.");
                lines.push(line);
                InstallAction::CreateShortcut {
                    shortcut: InstallPath::Shortcut,
                    target: InstallPath::Target,
                    working_dir: InstallPath::InstallDir,
                    icon: InstallPath::Icon,
                }
            } else {
                InstallAction::CopyExe { from: InstallPath::Source, to: InstallPath::Target }
            }
        },
        InstallEvent::Copied => {
            let mut line = "Installed ".to_string();
            line.append(APP_DISPLAY_NAME);
            line.append(" executable.");
            lines.push(line);
            InstallAction::CreateShortcut {
                shortcut: InstallPath::Shortcut,
                target: InstallPath::Target,
                working_dir: InstallPath::InstallDir,
                icon: InstallPath::Icon,
            }
        },
        InstallEvent::ShortcutCreated => {
            let mut line = "Installed ".to_string();
            line.append(APP_DISPLAY_NAME);
            line.append(" Start Menu shortcut.");
            lines.push(line);
            InstallAction::LookForLegacy { path: InstallPath::LegacyShortcut }
        },
        InstallEvent::LegacyLooked { exists } => {
            if exists {
                InstallAction::RemoveLegacy { path: InstallPath::LegacyShortcut }
            } else {
                InstallAction::Stop
            }
        },
        InstallEvent::LegacyRemoved { shortcut } => {
            let mut line = "Removed legacy Start Menu shortcut ".to_string();
            line.append(shortcut.as_str());
            line.append(".");
            lines.push(line);
            InstallAction::Stop
        },
    };
    assert(texts(lines@) == install_lines(*paths, event));
    InstallStep { lines, action }
}

/// An event can come of an action.
pub open spec fn install_answers(action: InstallAction, event: InstallEvent) -> bool {
    match action {
        InstallAction::CreateDir { .. } => event is DirCreated,
        InstallAction::CopyExe { .. } => event is Copied,
        InstallAction::CreateShortcut { .. } => event is ShortcutCreated,
        InstallAction::LookForLegacy { .. } => event is LegacyLooked,
        InstallAction::RemoveLegacy { .. } => event is LegacyRemoved,
        InstallAction::Stop => false,
    }
}

/// The event at `i` came of what the one before it asked for.
pub open spec fn install_follows(dry_run: bool, events: Seq<InstallEvent>, i: int) -> bool {
    install_answers(install_action(dry_run, events[i - 1]), events[i])
}

/// The events of an installation, as far as it went: each came of what the one before it asked
/// for.
pub open spec fn install_run(dry_run: bool, events: Seq<InstallEvent>) -> bool {
    &&& events.len() > 0 ==> events[0] is PathsResolved
    &&& forall|i: int| 1 <= i < events.len() ==> #[trigger] install_follows(dry_run, events, i)
}

/// A dry run of an installation changes nothing: nothing is asked for once the paths were told.
pub proof fn law_dry_run_installs_nothing(events: Seq<InstallEvent>)
    requires
        install_run(true, events),
    ensures
        events.len() <= 1,
{
    if events.len() > 1 {
        assert(install_follows(true, events, 1));
    }
}

/// An installation that came to its end made the shortcut and left none with the former name,
/// unless it was a dry run.
pub proof fn law_finished_installation_is_complete(events: Seq<InstallEvent>)
    requires
        install_run(false, events),
        events.len() > 0,
        install_action(false, events.last()) is Stop,
    ensures
        exists|i: int| 0 <= i < events.len() && #[trigger] events[i] is ShortcutCreated,
        events.last() is LegacyRemoved || events.last() == (InstallEvent::LegacyLooked {
            exists: false,
        }),
{
    let last = events.len() - 1;
    if last > 0 {
        assert(install_follows(false, events, last));
    }
    if events[last] is LegacyRemoved {
        assert(install_follows(false, events, last - 1));
        assert(events[last - 2] is ShortcutCreated);
    } else {
        assert(events[last - 1] is ShortcutCreated);
    }
}

/// In every installation the executable is copied just where it does not run from the target, and
/// the shortcut is made only once the executable is in its place.
pub proof fn law_shortcut_follows_the_executable(
    dry_run: bool,
    events: Seq<InstallEvent>,
    i: int,
)
    requires
        install_run(dry_run, events),
        0 <= i < events.len(),
    ensures
        events[i] is Copied ==> i == 2 && (events[1] matches InstallEvent::DirCreated {
            target_exists,
            same_file,
        } && !(target_exists && same_file)),
        events[i] is ShortcutCreated ==> (i == 3 && events[2] is Copied) || (i == 2 && (events[1]
            matches InstallEvent::DirCreated { target_exists, same_file } && target_exists
            && same_file)),
        events[i] is LegacyRemoved ==> i > 0 && events[i - 1] == (InstallEvent::LegacyLooked {
            exists: true,
        }),
    decreases i,
{
    if i > 0 {
        law_shortcut_follows_the_executable(dry_run, events, i - 1);
        assert(install_follows(dry_run, events, i));
        if i > 1 {
            assert(install_follows(dry_run, events, i - 1));
        }
        if i > 2 {
            assert(install_follows(dry_run, events, i - 2));
        }
    }
}

} // verus!
