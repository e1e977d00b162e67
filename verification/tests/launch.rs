use codexlaunch::environment::child_env_edits;
use codexlaunch::error::LaunchError;
use codexlaunch::launch::{
    launch, time_is_up, wait_for_app_server_proxy_env, LaunchAction, LaunchEvent, WaitAction,
    WaitEvent,
};
use codexlaunch::options::{default_launch_options, LaunchOptions};
use codexlaunch::plan::{build_launch_plan, proxy_env_vars, LaunchPlan};
use codexlaunch::processes::ProcessEntry;

fn plan(change: fn(&mut LaunchOptions)) -> LaunchPlan {
    let mut options = default_launch_options();
    change(&mut options);
    build_launch_plan(options).unwrap()
}

fn start_of(plan: &LaunchPlan) -> LaunchAction {
    LaunchAction::Spawn {
        args: plan.args.clone(),
        edits: child_env_edits(&plan.proxy_env, &plan.proxy_env_removals),
    }
}

fn listed(children: &[(u32, u32, &str)]) -> WaitEvent {
    WaitEvent::ProcessesListed {
        entries: children
            .iter()
            .map(|(pid, parent_pid, exe)| ProcessEntry {
                pid: *pid,
                parent_pid: *parent_pid,
                exe_file: exe.encode_utf16().collect(),
                image_path: None,
            })
            .collect(),
    }
}

fn complete_env() -> Vec<String> {
    ["HTTP_PROXY=p", "https_proxy=p", "ALL_PROXY=p", "NO_PROXY=n"]
        .iter()
        .map(|entry| entry.to_string())
        .collect()
}

#[test]
fn the_command_is_told_first() {
    let step = launch(&plan(|_| ()), r"C:\a b\Codex.exe", LaunchEvent::ExeResolved);
    assert_eq!(
        step.lines,
        vec![
            "Proxy env: per-process HTTP_PROXY/HTTPS_PROXY/ALL_PROXY/NO_PROXY",
            r"Codex exe: C:\a b\Codex.exe",
            r#"Starting: "C:\a b\Codex.exe" --proxy-server=http://127.0.0.1:7897"#,
        ]
    );
    assert_eq!(
        step.action,
        LaunchAction::CheckInstance { image_name: "Codex.exe".to_string() }
    );
}

#[test]
fn a_removed_environment_is_told() {
    let mut removed = plan(|options| options.no_env = true);
    assert_eq!(
        launch(&removed, "x", LaunchEvent::ExeResolved).lines[0],
        "Proxy env: disabled; inherited proxy env will be removed"
    );
    removed.proxy_env_removals.clear();
    assert_eq!(
        launch(&removed, "x", LaunchEvent::ExeResolved).lines[0],
        "Proxy env: disabled"
    );
}

#[test]
fn a_dry_run_launches_nothing() {
    let step = launch(&plan(|options| options.dry_run = true), "x", LaunchEvent::ExeResolved);
    assert_eq!(step.lines.len(), 3);
    assert_eq!(step.action, LaunchAction::Stop);
    let both = plan(|options| {
        options.dry_run = true;
        options.allow_existing_instance = true;
    });
    assert_eq!(launch(&both, "x", LaunchEvent::ExeResolved).action, LaunchAction::Stop);
}

#[test]
fn an_existing_instance_may_be_allowed() {
    let allowed = plan(|options| options.allow_existing_instance = true);
    assert_eq!(launch(&allowed, "x", LaunchEvent::ExeResolved).action, start_of(&allowed));
}

#[test]
fn a_running_instance_ends_the_launch() {
    let guarded = plan(|_| ());
    let step = launch(&guarded, "x", LaunchEvent::InstanceChecked { running: true });
    assert_eq!(step.action, LaunchAction::Refuse(LaunchError::AlreadyRunning));
    assert!(step.lines.is_empty());
    assert_eq!(
        LaunchError::AlreadyRunning.message(),
        "Codex.exe is already running. Close Codex first so startup proxy settings are applied to a fresh process, or pass --allow-existing-instance to skip this guard."
    );
    let step = launch(&guarded, "x", LaunchEvent::InstanceChecked { running: false });
    assert_eq!(step.action, start_of(&guarded));
}

#[test]
fn the_environment_is_confirmed_after_the_start() {
    let step = launch(&plan(|_| ()), "x", LaunchEvent::Spawned { pid: 4294967295 });
    assert_eq!(step.lines, vec!["Started Codex process id: 4294967295"]);
    assert_eq!(
        step.action,
        LaunchAction::ConfirmEnv {
            pid: 4294967295,
            expected: proxy_env_vars("http://127.0.0.1:7897", "localhost,127.0.0.1,::1"),
            timeout_ms: 10_000,
        }
    );
    let unchecked = plan(|options| options.no_env_check = true);
    assert_eq!(
        launch(&unchecked, "x", LaunchEvent::Spawned { pid: 7 }).action,
        LaunchAction::Stop
    );
    let step = launch(&plan(|_| ()), "x", LaunchEvent::EnvConfirmed);
    assert_eq!(step.lines, vec!["Proxy env confirmed in Codex app-server."]);
    assert_eq!(step.action, LaunchAction::Stop);
}

#[test]
fn nothing_expected_is_nothing_to_wait_for() {
    assert_eq!(
        wait_for_app_server_proxy_env(1, &[], 10, WaitEvent::Started),
        WaitAction::Confirmed
    );
    assert_eq!(
        wait_for_app_server_proxy_env(1, &proxy_env_vars("p", "n"), 10, WaitEvent::Started),
        WaitAction::ReadClock
    );
}

#[test]
fn the_app_server_is_looked_for_until_the_time_is_up() {
    let expected = proxy_env_vars("p", "n");
    let next = |event: WaitEvent| wait_for_app_server_proxy_env(9, &expected, 1500, event);
    assert_eq!(next(WaitEvent::ClockRead { elapsed_ms: 1499 }), WaitAction::ListProcesses);
    assert_eq!(next(listed(&[])), WaitAction::Sleep { ms: 200 });
    assert_eq!(next(listed(&[(5, 8, "codex.exe")])), WaitAction::Sleep { ms: 200 });
    assert_eq!(next(WaitEvent::Slept), WaitAction::ReadClock);
    assert_eq!(next(listed(&[(5, 9, "codex.exe")])), WaitAction::ReadEnvironment { pid: 5 });
    match next(WaitEvent::ClockRead { elapsed_ms: 1500 }) {
        WaitAction::Fail(error) => assert_eq!(
            error.message(),
            "Codex app-server child process was not observed within 1500 ms"
        ),
        other => panic!("{:?}", other),
    }
}

#[test]
fn the_environment_of_the_app_server_decides() {
    let expected = proxy_env_vars("p", "n");
    let complete = complete_env();
    let event = WaitEvent::EnvironmentRead { pid: 5, env_vars: complete.clone() };
    assert_eq!(wait_for_app_server_proxy_env(9, &expected, 10, event), WaitAction::Confirmed);
    let event = WaitEvent::EnvironmentRead { pid: 5, env_vars: complete[2..].to_vec() };
    match wait_for_app_server_proxy_env(9, &expected, 10, event) {
        WaitAction::Fail(error) => assert_eq!(
            error.message(),
            "Codex app-server pid 5 did not inherit proxy env; missing HTTP_PROXY, HTTPS_PROXY."
        ),
        other => panic!("{:?}", other),
    }
}

#[test]
fn statuses_and_addresses_are_told_in_hexadecimal() {
    assert_eq!(
        LaunchError::ProcessQueryFailed { status: -1073741819 }.message(),
        "NtQueryInformationProcess failed with status 0xc0000005"
    );
    assert_eq!(
        LaunchError::ProcessQueryFailed { status: 259 }.message(),
        "NtQueryInformationProcess failed with status 0x103"
    );
    assert_eq!(
        LaunchError::ShortRead { address: 0x7ff0, expected: 8, got: 3 }.message(),
        "short read at 0x7ff0: expected 8, got 3"
    );
}

/// The events of a launch where Codex does not run and starts as process 7.
fn events_of_launch(plan: &LaunchPlan) -> Vec<LaunchEvent> {
    let mut events = vec![LaunchEvent::ExeResolved];
    let mut event = LaunchEvent::ExeResolved;
    loop {
        let (next, copy) = match launch(plan, "x", event).action {
            LaunchAction::CheckInstance { .. } => (
                LaunchEvent::InstanceChecked { running: false },
                LaunchEvent::InstanceChecked { running: false },
            ),
            LaunchAction::Spawn { .. } => (LaunchEvent::Spawned { pid: 7 }, LaunchEvent::Spawned { pid: 7 }),
            LaunchAction::ConfirmEnv { pid, .. } => {
                assert_eq!(pid, 7);
                (LaunchEvent::EnvConfirmed, LaunchEvent::EnvConfirmed)
            }
            LaunchAction::Stop => return events,
            LaunchAction::Refuse(error) => panic!("{:?}", error),
        };
        event = next;
        events.push(copy);
    }
}

#[test]
fn a_finished_launch_started_codex_once() {
    assert_eq!(
        events_of_launch(&plan(|_| ())),
        vec![
            LaunchEvent::ExeResolved,
            LaunchEvent::InstanceChecked { running: false },
            LaunchEvent::Spawned { pid: 7 },
            LaunchEvent::EnvConfirmed,
        ]
    );
    assert_eq!(
        events_of_launch(&plan(|options| {
            options.no_env = true;
            options.allow_existing_instance = true;
        })),
        vec![LaunchEvent::ExeResolved, LaunchEvent::Spawned { pid: 7 }]
    );
    assert_eq!(
        events_of_launch(&plan(|options| options.dry_run = true)),
        vec![LaunchEvent::ExeResolved]
    );
}

/// Waits for the app-server of process 9, where every look finds these processes and every
/// environment is complete; each look takes 200 ms. Gives how it ends and which processes are read.
fn wait_among(children: &[(u32, u32, &str)]) -> (WaitAction, Vec<u32>) {
    let expected = proxy_env_vars("p", "n");
    let mut elapsed_ms = 0;
    let mut read = Vec::new();
    let mut event = WaitEvent::Started;
    loop {
        event = match wait_for_app_server_proxy_env(9, &expected, 600, event) {
            WaitAction::ReadClock => WaitEvent::ClockRead { elapsed_ms },
            WaitAction::ListProcesses => listed(children),
            WaitAction::ReadEnvironment { pid } => {
                read.push(pid);
                WaitEvent::EnvironmentRead { pid, env_vars: complete_env() }
            }
            WaitAction::Sleep { ms } => {
                elapsed_ms += ms;
                WaitEvent::Slept
            }
            end => return (end, read),
        };
    }
}

#[test]
fn helpers_do_not_confirm() {
    let not_observed =
        WaitAction::Fail(LaunchError::AppServerNotObserved { timeout_ms: 600 });
    assert_eq!(wait_among(&[]), (not_observed, vec![]));
    let (end, read) = wait_among(&[(10, 9, "Codex.exe"), (11, 9, "Codex.exe")]);
    assert!(read.is_empty());
    match end {
        WaitAction::Fail(error) => assert_eq!(
            error.message(),
            "Codex app-server child process was not observed within 600 ms"
        ),
        other => panic!("{:?}", other),
    }
}

#[test]
fn only_the_app_server_that_was_seen_is_read() {
    let children = [(10, 9, "Codex.exe"), (11, 8, "codex.exe"), (12, 9, "codex.exe")];
    assert_eq!(wait_among(&children), (WaitAction::Confirmed, vec![12]));
}

#[test]
fn the_time_is_up_once_it_went_by() {
    assert!(!time_is_up(0, 1));
    assert!(!time_is_up(599, 600));
    assert!(time_is_up(600, 600));
    assert!(time_is_up(u64::MAX, 600));
}

#[test]
fn codex_starts_with_the_arguments_and_the_environment_of_the_plan() {
    let bare = plan(|options| {
        options.no_env = true;
        options.extra_args = vec!["--flag".to_string()];
    });
    match launch(&bare, "x", LaunchEvent::InstanceChecked { running: false }).action {
        LaunchAction::Spawn { args, edits } => {
            assert_eq!(args, vec!["--proxy-server=http://127.0.0.1:7897", "--flag"]);
            assert_eq!(edits.len(), 8);
        }
        other => panic!("{:?}", other),
    }
}
