//! The steps of a launch, and of waiting for the app-server.

use vstd::prelude::*;

use crate::environment::{
    child_env_edits, edit_views, env_edits, is_set, missing, missing_env_vars, EnvEdit,
    EnvEditView,
};
use crate::environment_laws::law_nothing_is_missing_where_all_is_set;
use crate::error::LaunchError;
use crate::plan::{LaunchPlan, LaunchPlanView};
use crate::processes::{
    find_app_server, first_app_server, law_helpers_are_not_the_app_server, only_helpers,
    ProcessEntry, CODEX_IMAGE_NAME,
};
use crate::quoting::{direct_command, format_direct_command};
use crate::text::{copy_text_pairs, copy_texts, decimal, push_decimal, text_pairs, texts};

verus! {

/// How long to wait between two looks for the app-server.
pub const POLL_INTERVAL_MS: u64 = 200;

/// What happened last in a launch.
#[derive(Debug, PartialEq, Eq)]
pub enum LaunchEvent {
    /// The executable is known.
    ExeResolved,
    /// Codex was looked for among the processes.
    InstanceChecked { running: bool },
    /// Codex was started.
    Spawned { pid: u32 },
    /// The app-server has the proxy environment.
    EnvConfirmed,
}

/// What a launch does next.
#[derive(Debug, PartialEq, Eq)]
pub enum LaunchAction {
    /// Look for this image among the processes.
    CheckInstance { image_name: String },
    /// Start the executable with these arguments and these changes to the inherited environment.
    Spawn { args: Vec<String>, edits: Vec<EnvEdit> },
    /// Wait for the app-server of this process and check that its environment holds these
    /// variables.
    ConfirmEnv { pid: u32, expected: Vec<(String, String)>, timeout_ms: u64 },
    /// Nothing more.
    Stop,
    /// Give up.
    Refuse(LaunchError),
}

/// What a launch does next, with its texts.
#[verifier::ext_equal]
pub enum LaunchActionView {
    CheckInstance { image_name: Seq<char> },
    Spawn { args: Seq<Seq<char>>, edits: Seq<EnvEditView> },
    ConfirmEnv { pid: u32, expected: Seq<(Seq<char>, Seq<char>)>, timeout_ms: u64 },
    Stop,
    Refuse { error: LaunchError },
}

impl View for LaunchAction {
    type V = LaunchActionView;

    open spec fn view(&self) -> LaunchActionView {
        match *self {
            LaunchAction::CheckInstance { image_name } => LaunchActionView::CheckInstance {
                image_name: image_name@,
            },
            LaunchAction::Spawn { args, edits } => LaunchActionView::Spawn {
                args: texts(args@),
                edits: edit_views(edits@),
            },
            LaunchAction::ConfirmEnv { pid, expected, timeout_ms } => LaunchActionView::ConfirmEnv {
                pid,
                expected: text_pairs(expected@),
                timeout_ms,
            },
            LaunchAction::Stop => LaunchActionView::Stop,
            LaunchAction::Refuse(error) => LaunchActionView::Refuse { error },
        }
    }
}

/// What a launch tells, and what it does then.
#[derive(Debug, PartialEq, Eq)]
pub struct LaunchStep {
    /// The lines to tell.
    pub lines: Vec<String>,
    /// What to do then.
    pub action: LaunchAction,
}

/// What is told of the environment of a launch.
pub open spec fn env_line(plan: LaunchPlanView) -> Seq<char> {
    if plan.proxy_env.len() > 0 {
        "Proxy env: per-process HTTP_PROXY/HTTPS_PROXY/ALL_PROXY/NO_PROXY"@
    } else if plan.proxy_env_removals.len() > 0 {
        "Proxy env: disabled; inherited proxy env will be removed"@
    } else {
        "Proxy env: disabled"@
    }
}

/// What is told once an event happened.
pub open spec fn launch_lines(
    plan: LaunchPlanView,
    executable: Seq<char>,
    event: LaunchEvent,
) -> Seq<Seq<char>> {
    match event {
        LaunchEvent::ExeResolved => seq![
            env_line(plan),
            "Codex exe: "@ + executable,
            "Starting: "@ + direct_command(executable, plan.args),
        ],
        LaunchEvent::InstanceChecked { running } => seq![],
        LaunchEvent::Spawned { pid } => seq!["Started Codex process id: "@ + decimal(pid as nat)],
        LaunchEvent::EnvConfirmed => seq!["Proxy env confirmed in Codex app-server."@],
    }
}

/// The start of Codex: with the arguments of the plan, and with its changes to the environment.
pub open spec fn start_of(plan: LaunchPlanView) -> LaunchActionView {
    LaunchActionView::Spawn {
        args: plan.args,
        edits: env_edits(plan.proxy_env, plan.proxy_env_removals),
    }
}

/// What is done once an event happened.
pub open spec fn launch_action(plan: LaunchPlanView, event: LaunchEvent) -> LaunchActionView {
    match event {
        LaunchEvent::ExeResolved => if plan.dry_run {
            LaunchActionView::Stop
        } else if plan.allow_existing_instance {
            start_of(plan)
        } else {
            LaunchActionView::CheckInstance { image_name: CODEX_IMAGE_NAME@ }
        },
        LaunchEvent::InstanceChecked { running } => if running {
            LaunchActionView::Refuse { error: LaunchError::AlreadyRunning }
        } else {
            start_of(plan)
        },
        LaunchEvent::Spawned { pid } => match plan.env_check_timeout {
            Some(timeout_ms) => LaunchActionView::ConfirmEnv {
                pid,
                expected: plan.proxy_env,
                timeout_ms,
            },
            None => LaunchActionView::Stop,
        },
        LaunchEvent::EnvConfirmed => LaunchActionView::Stop,
    }
}

/// The start of Codex that the plan asks for.
fn start(plan: &LaunchPlan) -> (action: LaunchAction)
    ensures
        action@ == start_of(plan@),
{
    LaunchAction::Spawn {
        args: copy_texts(&plan.args),
        edits: child_env_edits(&plan.proxy_env, &plan.proxy_env_removals),
    }
}

/// Says what to tell and what to do next in a launch. The executable is given as its path is
/// displayed.
pub fn launch(plan: &LaunchPlan, executable: &str, event: LaunchEvent) -> (step: LaunchStep)
    ensures
        texts(step.lines@) == launch_lines(plan@, executable@, event),
        step.action@ == launch_action(plan@, event),
{
    let mut lines: Vec<String> = Vec::new();
    let action = match event {
        LaunchEvent::ExeResolved => {
            if plan.proxy_env.len() > 0 {
                lines.push(
                    "Proxy env: per-process HTTP_PROXY/HTTPS_PROXY/ALL_PROXY/NO_PROXY".to_string(),
                );
            } else if plan.proxy_env_removals.len() > 0 {
                lines.push("Proxy env: disabled; inherited proxy env will be removed".to_string());
            } else {
                lines.push("Proxy env: disabled".to_string());
            }
            lines.push("Codex exe: ".to_string().concat(executable));
            let command = format_direct_command(executable, &plan.args);
            lines.push("Starting: ".to_string().concat(command.as_str()));
            if plan.dry_run {
                LaunchAction::Stop
            } else if plan.allow_existing_instance {
                start(plan)
            } else {
                LaunchAction::CheckInstance { image_name: CODEX_IMAGE_NAME.to_string() }
            }
        },
        LaunchEvent::InstanceChecked { running } => {
            if running {
                LaunchAction::Refuse(LaunchError::AlreadyRunning)
            } else {
                start(plan)
            }
        },
        LaunchEvent::Spawned { pid } => {
            let mut line = "Started Codex process id: ".to_string();
            push_decimal(&mut line, pid as u64);
            lines.push(line);
            match plan.env_check_timeout {
                Some(timeout_ms) => LaunchAction::ConfirmEnv {
                    pid,
                    expected: copy_text_pairs(&plan.proxy_env),
                    timeout_ms,
                },
                None => LaunchAction::Stop,
            }
        },
        LaunchEvent::EnvConfirmed => {
            lines.push("Proxy env confirmed in Codex app-server.".to_string());
            LaunchAction::Stop
        },
    };
    assert(texts(lines@) == launch_lines(plan@, executable@, event));
    LaunchStep { lines, action }
}

/// What happened last in waiting for the app-server.
#[derive(Debug, PartialEq, Eq)]
pub enum WaitEvent {
    /// The app was started.
    Started,
    /// The clock was read: so much time went by since waiting began.
    ClockRead { elapsed_ms: u64 },
    /// The processes were listed.
    ProcessesListed { entries: Vec<ProcessEntry> },
    /// The environment of the app-server was read.
    EnvironmentRead { pid: u32, env_vars: Vec<String> },
    /// Some time went by.
    Slept,
}

/// What waiting for the app-server does next.
#[derive(Debug, PartialEq, Eq)]
pub enum WaitAction {
    /// Read the clock.
    ReadClock,
    /// List the processes, to look for the app-server among them.
    ListProcesses,
    /// Read the environment of the app-server.
    ReadEnvironment { pid: u32 },
    /// Let some time go by.
    Sleep { ms: u64 },
    /// The app-server has what is expected.
    Confirmed,
    /// Give up.
    Fail(LaunchError),
}

/// What waiting for the app-server does next, with its texts.
#[verifier::ext_equal]
pub enum WaitActionView {
    ReadClock,
    ListProcesses,
    ReadEnvironment { pid: u32 },
    Sleep { ms: u64 },
    Confirmed,
    NotObserved { timeout_ms: u64 },
    NotInherited { pid: u32, names: Seq<Seq<char>> },
    Other { error: LaunchError },
}

impl View for WaitAction {
    type V = WaitActionView;

    open spec fn view(&self) -> WaitActionView {
        match *self {
            WaitAction::ReadClock => WaitActionView::ReadClock,
            WaitAction::ListProcesses => WaitActionView::ListProcesses,
            WaitAction::ReadEnvironment { pid } => WaitActionView::ReadEnvironment { pid },
            WaitAction::Sleep { ms } => WaitActionView::Sleep { ms },
            WaitAction::Confirmed => WaitActionView::Confirmed,
            WaitAction::Fail(LaunchError::AppServerNotObserved { timeout_ms }) =>
                WaitActionView::NotObserved { timeout_ms },
            WaitAction::Fail(LaunchError::EnvNotInherited { pid, missing }) =>
                WaitActionView::NotInherited { pid, names: texts(missing@) },
            WaitAction::Fail(error) => WaitActionView::Other { error },
        }
    }
}

/// Whether the time is up.
pub fn time_is_up(elapsed_ms: u64, timeout_ms: u64) -> (up: bool)
    ensures
        up == (elapsed_ms >= timeout_ms),
{
    elapsed_ms >= timeout_ms
}

/// What is done once an event happened: the app-server of `parent_pid` is looked for until the time
/// is up, and its environment decides once it is seen. Where nothing is expected there is nothing
/// to wait for.
pub open spec fn wait_action(
    parent_pid: u32,
    expected: Seq<(Seq<char>, Seq<char>)>,
    timeout_ms: u64,
    event: WaitEvent,
) -> WaitActionView {
    match event {
        WaitEvent::Started => if expected.len() == 0 {
            WaitActionView::Confirmed
        } else {
            WaitActionView::ReadClock
        },
        WaitEvent::ClockRead { elapsed_ms } => if elapsed_ms >= timeout_ms {
            WaitActionView::NotObserved { timeout_ms }
        } else {
            WaitActionView::ListProcesses
        },
        WaitEvent::ProcessesListed { entries } => match first_app_server(entries@, parent_pid) {
            Some(pid) => WaitActionView::ReadEnvironment { pid },
            None => WaitActionView::Sleep { ms: POLL_INTERVAL_MS },
        },
        WaitEvent::EnvironmentRead { pid, env_vars } => {
            let names = missing(texts(env_vars@), expected);
            if names.len() == 0 {
                WaitActionView::Confirmed
            } else {
                WaitActionView::NotInherited { pid, names }
            }
        },
        WaitEvent::Slept => WaitActionView::ReadClock,
    }
}

/// Says what to do next in waiting for the app-server of `parent_pid`.
pub fn wait_for_app_server_proxy_env(
    parent_pid: u32,
    expected: &[(String, String)],
    timeout_ms: u64,
    event: WaitEvent,
) -> (action: WaitAction)
    ensures
        action@ == wait_action(parent_pid, text_pairs(expected@), timeout_ms, event),
{
    match event {
        WaitEvent::Started => {
            if expected.len() == 0 {
                WaitAction::Confirmed
            } else {
                WaitAction::ReadClock
            }
        },
        WaitEvent::ClockRead { elapsed_ms } => {
            if time_is_up(elapsed_ms, timeout_ms) {
                WaitAction::Fail(LaunchError::AppServerNotObserved { timeout_ms })
            } else {
                WaitAction::ListProcesses
            }
        },
        WaitEvent::ProcessesListed { entries } => {
            match find_app_server(&entries, parent_pid) {
                Some(pid) => WaitAction::ReadEnvironment { pid },
                None => WaitAction::Sleep { ms: POLL_INTERVAL_MS },
            }
        },
        WaitEvent::EnvironmentRead { pid, env_vars } => {
            let names = missing_env_vars(&env_vars, expected);
            assert(names@.len() == texts(names@).len());
            if names.len() == 0 {
                WaitAction::Confirmed
            } else {
                WaitAction::Fail(LaunchError::EnvNotInherited { pid, missing: names })
            }
        },
        WaitEvent::Slept => WaitAction::ReadClock,
    }
}

/// An event can come of an action.
pub open spec fn launch_answers(action: LaunchActionView, event: LaunchEvent) -> bool {
    match action {
        LaunchActionView::CheckInstance { image_name } => event is InstanceChecked,
        LaunchActionView::Spawn { args, edits } => event is Spawned,
        LaunchActionView::ConfirmEnv { pid, expected, timeout_ms } => event is EnvConfirmed,
        LaunchActionView::Stop => false,
        LaunchActionView::Refuse { error } => false,
    }
}

/// The event at `i` came of what the one before it asked for.
pub open spec fn launch_follows(plan: LaunchPlanView, events: Seq<LaunchEvent>, i: int) -> bool {
    launch_answers(launch_action(plan, events[i - 1]), events[i])
}

/// The events of a launch, as far as it went: each came of what the one before it asked for.
pub open spec fn launch_run(plan: LaunchPlanView, events: Seq<LaunchEvent>) -> bool {
    &&& events.len() > 0 ==> events[0] is ExeResolved
    &&& forall|i: int| 1 <= i < events.len() ==> #[trigger] launch_follows(plan, events, i)
}

/// A dry run starts nothing and looks for nothing: nothing is asked for once the command was told.
pub proof fn law_dry_run_launches_nothing(plan: LaunchPlanView, events: Seq<LaunchEvent>)
    requires
        plan.dry_run,
        launch_run(plan, events),
    ensures
        events.len() <= 1,
{
    if events.len() > 1 {
        assert(launch_follows(plan, events, 1));
    }
}

/// Codex is started over a running one only where that is allowed: otherwise it was looked for just
/// before, and did not run.
pub proof fn law_no_launch_over_a_running_instance(
    plan: LaunchPlanView,
    events: Seq<LaunchEvent>,
    i: int,
)
    requires
        !plan.allow_existing_instance,
        launch_run(plan, events),
        0 <= i < events.len(),
        events[i] is Spawned,
    ensures
        i > 0,
        events[i - 1] == (LaunchEvent::InstanceChecked { running: false }),
{
    assert(launch_follows(plan, events, i));
}

/// Where Codex runs already and that is not allowed, the launch ends there.
pub proof fn law_running_instance_ends_the_launch(
    plan: LaunchPlanView,
    events: Seq<LaunchEvent>,
    i: int,
)
    requires
        launch_run(plan, events),
        0 <= i < events.len(),
        events[i] == (LaunchEvent::InstanceChecked { running: true }),
    ensures
        i == events.len() - 1,
        launch_action(plan, events[i]) == (LaunchActionView::Refuse {
            error: LaunchError::AlreadyRunning,
        }),
{
    if i < events.len() - 1 {
        assert(launch_follows(plan, events, i + 1));
    }
}

/// A launch that came to its end started Codex, unless it was a dry run; and where its environment
/// is to be checked, the app-server was found to have it.
pub proof fn law_finished_launch_started_codex(plan: LaunchPlanView, events: Seq<LaunchEvent>)
    requires
        !plan.dry_run,
        launch_run(plan, events),
        events.len() > 0,
        launch_action(plan, events.last()) is Stop,
    ensures
        exists|i: int| 0 <= i < events.len() && #[trigger] events[i] is Spawned,
        plan.env_check_timeout is Some ==> events.last() is EnvConfirmed,
{
    let last = events.len() - 1;
    if last > 0 {
        assert(launch_follows(plan, events, last));
    }
    if events[last] is EnvConfirmed {
        assert(events[last - 1] is Spawned);
    }
}

/// Wherever Codex is started, it gets the arguments of the plan and the changes of the plan to the
/// environment; wherever it is looked for, it is looked for by its name; and the environment that is
/// checked is the one that the plan sets, in the process that was started.
pub proof fn law_launch_does_what_was_planned(plan: LaunchPlanView, event: LaunchEvent)
    ensures
        match launch_action(plan, event) {
            LaunchActionView::CheckInstance { image_name } => image_name == CODEX_IMAGE_NAME@,
            LaunchActionView::Spawn { args, edits } => args == plan.args && edits == env_edits(
                plan.proxy_env,
                plan.proxy_env_removals,
            ),
            LaunchActionView::ConfirmEnv { pid, expected, timeout_ms } => {
                &&& event == (LaunchEvent::Spawned { pid })
                &&& expected == plan.proxy_env
                &&& plan.env_check_timeout == Some(timeout_ms)
            },
            _ => true,
        },
{
}

/// A launch starts Codex at most once.
pub proof fn law_codex_is_started_once(
    plan: LaunchPlanView,
    events: Seq<LaunchEvent>,
    i: int,
    j: int,
)
    requires
        launch_run(plan, events),
        0 <= i < events.len(),
        0 <= j < events.len(),
        events[i] is Spawned,
        events[j] is Spawned,
    ensures
        i == j,
{
    if i < j {
        lemma_after_spawn(plan, events, i, j);
    } else if j < i {
        lemma_after_spawn(plan, events, j, i);
    }
}

/// Behind the start of Codex there is only the check of its environment.
proof fn lemma_after_spawn(plan: LaunchPlanView, events: Seq<LaunchEvent>, i: int, j: int)
    requires
        launch_run(plan, events),
        0 <= i < j < events.len(),
        events[i] is Spawned,
    ensures
        events[j] is EnvConfirmed,
{
    assert(launch_follows(plan, events, i + 1));
    if j > i + 1 {
        assert(launch_follows(plan, events, i + 2));
    }
}

/// An event can come of an action of waiting.
pub open spec fn wait_answers(action: WaitActionView, event: WaitEvent) -> bool {
    match action {
        WaitActionView::ReadClock => event is ClockRead,
        WaitActionView::ListProcesses => event is ProcessesListed,
        WaitActionView::ReadEnvironment { pid } => event matches WaitEvent::EnvironmentRead {
            pid: read,
            ..
        } && read == pid,
        WaitActionView::Sleep { ms } => event is Slept,
        WaitActionView::Confirmed => false,
        WaitActionView::NotObserved { timeout_ms } => false,
        WaitActionView::NotInherited { pid, names } => false,
        WaitActionView::Other { error } => false,
    }
}

/// The event at `i` came of what the one before it asked for.
pub open spec fn wait_follows(
    parent_pid: u32,
    expected: Seq<(Seq<char>, Seq<char>)>,
    timeout_ms: u64,
    events: Seq<WaitEvent>,
    i: int,
) -> bool {
    wait_answers(wait_action(parent_pid, expected, timeout_ms, events[i - 1]), events[i])
}

/// The events of waiting, as far as it went: each came of what the one before it asked for.
pub open spec fn wait_run(
    parent_pid: u32,
    expected: Seq<(Seq<char>, Seq<char>)>,
    timeout_ms: u64,
    events: Seq<WaitEvent>,
) -> bool {
    &&& events.len() > 0 ==> events[0] is Started
    &&& forall|i: int|
        1 <= i < events.len() ==> #[trigger] wait_follows(
            parent_pid,
            expected,
            timeout_ms,
            events,
            i,
        )
}

/// Waiting gives up for want of an app-server only where the time is up and no list of the
/// processes had one.
pub proof fn law_no_app_server_was_seen(
    parent_pid: u32,
    expected: Seq<(Seq<char>, Seq<char>)>,
    timeout_ms: u64,
    events: Seq<WaitEvent>,
    i: int,
)
    requires
        wait_run(parent_pid, expected, timeout_ms, events),
        events.len() > 0,
        wait_action(parent_pid, expected, timeout_ms, events.last()) is NotObserved,
        0 <= i < events.len(),
    ensures
        events.last() matches WaitEvent::ClockRead { elapsed_ms } && elapsed_ms >= timeout_ms,
        events[i] matches WaitEvent::ProcessesListed { entries } ==> first_app_server(
            entries@,
            parent_pid,
        ) is None,
{
    if events[i] is ProcessesListed && i < events.len() - 1 {
        assert(wait_follows(parent_pid, expected, timeout_ms, events, i + 1));
        if i + 1 < events.len() - 1 {
            assert(wait_follows(parent_pid, expected, timeout_ms, events, i + 2));
        }
    }
}

/// An environment is read only of the process that was found to be the app-server just before, and
/// the app-server is looked for only while there is time.
pub proof fn law_only_the_app_server_is_read(
    parent_pid: u32,
    expected: Seq<(Seq<char>, Seq<char>)>,
    timeout_ms: u64,
    events: Seq<WaitEvent>,
    i: int,
)
    requires
        wait_run(parent_pid, expected, timeout_ms, events),
        0 <= i < events.len(),
    ensures
        events[i] matches WaitEvent::EnvironmentRead { pid, .. } ==> i > 0 && (events[i - 1]
            matches WaitEvent::ProcessesListed { entries } && first_app_server(entries@, parent_pid)
            == Some(pid)),
        events[i] is ProcessesListed ==> i > 0 && (events[i - 1] matches WaitEvent::ClockRead {
            elapsed_ms,
        } && elapsed_ms < timeout_ms),
{
    if i > 0 {
        assert(wait_follows(parent_pid, expected, timeout_ms, events, i));
    }
}

/// Waiting ends well only where nothing is expected, or where the process that was found to be the
/// app-server holds every expected variable.
pub proof fn law_confirmed_environment_holds_all(
    parent_pid: u32,
    expected: Seq<(Seq<char>, Seq<char>)>,
    timeout_ms: u64,
    events: Seq<WaitEvent>,
)
    requires
        wait_run(parent_pid, expected, timeout_ms, events),
        events.len() > 0,
        wait_action(parent_pid, expected, timeout_ms, events.last()) is Confirmed,
        expected.len() > 0,
    ensures
        events.last() matches WaitEvent::EnvironmentRead { pid, env_vars } && {
            &&& forall|i: int|
                0 <= i < expected.len() ==> is_set(
                    texts(env_vars@),
                    (#[trigger] expected[i]).0,
                    expected[i].1,
                )
            &&& events.len() > 1
            &&& events[events.len() - 2] matches WaitEvent::ProcessesListed { entries }
            &&& first_app_server(entries@, parent_pid) == Some(pid)
        },
{
    law_only_the_app_server_is_read(
        parent_pid,
        expected,
        timeout_ms,
        events,
        events.len() - 1,
    );
    if let WaitEvent::EnvironmentRead { pid, env_vars } = events.last() {
        law_nothing_is_missing_where_all_is_set(texts(env_vars@), expected);
    }
}

/// Where the only children that are ever seen are helpers of the app, waiting never reads an
/// environment and never ends well: it ends once the time is up, for want of an app-server.
pub proof fn law_helpers_do_not_confirm(
    parent_pid: u32,
    expected: Seq<(Seq<char>, Seq<char>)>,
    timeout_ms: u64,
    events: Seq<WaitEvent>,
)
    requires
        wait_run(parent_pid, expected, timeout_ms, events),
        events.len() > 0,
        expected.len() > 0,
        forall|i: int|
            0 <= i < events.len() ==> (#[trigger] events[i] matches WaitEvent::ProcessesListed {
                entries,
            } ==> only_helpers(entries@, parent_pid)),
    ensures
        events.last() !is EnvironmentRead,
        match wait_action(parent_pid, expected, timeout_ms, events.last()) {
            WaitActionView::ReadClock => true,
            WaitActionView::ListProcesses => true,
            WaitActionView::Sleep { ms } => true,
            WaitActionView::NotObserved { timeout_ms: told } => told == timeout_ms,
            _ => false,
        },
        events.last() matches WaitEvent::ClockRead { elapsed_ms } && elapsed_ms >= timeout_ms
            ==> wait_action(parent_pid, expected, timeout_ms, events.last()) == (
        WaitActionView::NotObserved { timeout_ms }),
{
    let last = events.len() - 1;
    law_only_the_app_server_is_read(parent_pid, expected, timeout_ms, events, last);
    if let WaitEvent::ProcessesListed { entries } = events[last] {
        law_helpers_are_not_the_app_server(entries@, parent_pid);
    }
    if last > 0 {
        if let WaitEvent::ProcessesListed { entries } = events[last - 1] {
            law_helpers_are_not_the_app_server(entries@, parent_pid);
        }
    }
}

} // verus!
