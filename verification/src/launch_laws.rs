//! What a launch does with what the user asked for, from the options to the last step.

use vstd::prelude::*;

use crate::command_line::{law_direct_command_reads_back, split_command_line};
use crate::environment::{missing, EnvEdit};
use crate::error::LaunchError;
use crate::launch::{
    env_line, launch, launch_action, launch_follows, launch_lines, launch_run, start_of,
    time_is_up, wait_action, wait_for_app_server_proxy_env, LaunchAction, LaunchActionView,
    LaunchEvent, LaunchStep, WaitAction, WaitEvent,
};
use crate::listing_laws::{app_server_of, lemma_first_app_server};
use crate::options::{
    default_command, default_launch_options, Command, LaunchOptions, LaunchOptionsView,
};
use crate::plan::{
    build_launch_plan, debugging_args, planned, proxy_env_removal_keys, proxy_env_vars,
    proxy_variables, LaunchPlan, LaunchPlanView,
};
use crate::quoting::direct_command;
use crate::text::{decimal, text_pairs, texts};
use crate::text_laws::{is_number, law_numbers_are_written};
use crate::variable_laws::{env_gives, lemma_all_given, lemma_changes};

verus! {

/// The plan keeps what the user asked for: the executable, the dry run, the leave to launch over a
/// running Codex, and the time of the check, where a check is made.
pub proof fn law_plan_keeps_what_was_asked(options: LaunchOptionsView)
    ensures
        planned(options).codex_exe == options.codex_exe,
        planned(options).dry_run == options.dry_run,
        planned(options).allow_existing_instance == options.allow_existing_instance,
        planned(options).env_check_timeout == if !options.no_env && !options.no_env_check
            && options.env_check_timeout_ms > 0 {
            Some(options.env_check_timeout_ms)
        } else {
            None
        },
{
}

/// The number of arguments that debugging takes.
pub open spec fn debugging_count(options: LaunchOptions) -> int {
    match options.remote_debugging_port {
        Some(_) => if options.remote_allow_origins is Some {
            2
        } else {
            1
        },
        None => 0,
    }
}

/// Every launch is planned as it was asked for: no option is dropped, and none changes what another
/// one asks for.
pub proof fn law_launch_is_planned_as_asked(
    options: LaunchOptions,
    result: Result<LaunchPlan, LaunchError>,
)
    requires
        call_ensures(build_launch_plan, (options,), result),
    ensures
        result matches Ok(plan) && {
            &&& plan.codex_exe == options.codex_exe
            &&& plan.dry_run == options.dry_run
            &&& plan.allow_existing_instance == options.allow_existing_instance
            &&& plan.env_check_timeout == if !options.no_env && !options.no_env_check
                && options.env_check_timeout_ms > 0 {
                Some(options.env_check_timeout_ms)
            } else {
                None
            }
        },
{
    let plan = result->Ok_0;
    assert(plan@.codex_exe == plan.codex_exe);
}

/// The arguments of every plan: the proxy first, then the port and the origins where debugging was
/// asked for, then what the user added, one for one.
pub proof fn law_arguments_are_those_asked_for(
    options: LaunchOptions,
    result: Result<LaunchPlan, LaunchError>,
)
    requires
        call_ensures(build_launch_plan, (options,), result),
    ensures
        result matches Ok(plan) && {
            let count = debugging_count(options);
            let args = plan.args@;
            &&& args.len() == 1 + count + options.extra_args@.len()
            &&& args[0]@ == "--proxy-server="@ + options.proxy@
            &&& options.remote_debugging_port matches Some(port) ==> exists|digits: Seq<char>|
                args[1]@ == "--remote-debugging-port="@ + digits && #[trigger] is_number(
                    digits,
                    port as nat,
                    10,
                )
            &&& count == 2 ==> args[2]@ == "--remote-allow-origins="@
                + options.remote_allow_origins->0@
            &&& forall|i: int|
                0 <= i < options.extra_args@.len() ==> args[1 + count + i]@ == (
                #[trigger] options.extra_args@[i])@
        },
{
    let plan = result->Ok_0;
    let args = texts(plan.args@);
    let count = debugging_count(options);
    assert(args == plan@.args);
    assert(args.len() == plan.args@.len());
    assert(args[0] == plan.args@[0]@);
    let middle = debugging_args(options@.remote_debugging_port, options@.remote_allow_origins);
    assert(middle.len() == count);
    if let Some(port) = options.remote_debugging_port {
        law_numbers_are_written(port as nat);
        assert(args[1] == middle[0]);
        assert(args[1] == plan.args@[1]@);
        assert(is_number(decimal(port as nat), port as nat, 10));
        if count == 2 {
            assert(args[2] == middle[1]);
            assert(args[2] == plan.args@[2]@);
        }
    }
    assert forall|i: int| 0 <= i < options.extra_args@.len() implies plan.args@[1 + count + i]@ == (
    #[trigger] options.extra_args@[i])@ by {
        assert(args[1 + count + i] == texts(options.extra_args@)[i]);
    }
}

/// The pair of a variable.
pub open spec fn pair_is(pair: (String, String), key: Seq<char>, value: Seq<char>) -> bool {
    pair.0@ == key && pair.1@ == value
}

/// The variables are the three names of the proxy and that of the hosts without one, with just the
/// texts that were given.
pub open spec fn are_proxy_variables(
    vars: Seq<(String, String)>,
    proxy: Seq<char>,
    no_proxy: Seq<char>,
) -> bool {
    &&& vars.len() == 4
    &&& pair_is(vars[0], "HTTP_PROXY"@, proxy)
    &&& pair_is(vars[1], "HTTPS_PROXY"@, proxy)
    &&& pair_is(vars[2], "ALL_PROXY"@, proxy)
    &&& pair_is(vars[3], "NO_PROXY"@, no_proxy)
}

/// The names are those of the proxy variables, in upper and in lower case.
pub open spec fn are_proxy_names(names: Seq<String>) -> bool {
    &&& names.len() == 8
    &&& names[0]@ == "HTTP_PROXY"@ && names[4]@ == "http_proxy"@
    &&& names[1]@ == "HTTPS_PROXY"@ && names[5]@ == "https_proxy"@
    &&& names[2]@ == "ALL_PROXY"@ && names[6]@ == "all_proxy"@
    &&& names[3]@ == "NO_PROXY"@ && names[7]@ == "no_proxy"@
}

proof fn lemma_proxy_variables(vars: Seq<(String, String)>, proxy: Seq<char>, no_proxy: Seq<char>)
    requires
        text_pairs(vars) == proxy_variables(proxy, no_proxy),
    ensures
        are_proxy_variables(vars, proxy, no_proxy),
{
    let pairs = text_pairs(vars);
    assert(pairs.len() == vars.len());
    assert(pairs[0] == (vars[0].0@, vars[0].1@));
    assert(pairs[1] == (vars[1].0@, vars[1].1@));
    assert(pairs[2] == (vars[2].0@, vars[2].1@));
    assert(pairs[3] == (vars[3].0@, vars[3].1@));
}

/// The variables of a proxy hold the proxy and the hosts without one, whatever these are.
pub proof fn law_proxy_variables_hold_the_proxy(
    proxy: &str,
    no_proxy: &str,
    vars: Vec<(String, String)>,
)
    requires
        call_ensures(proxy_env_vars, (proxy, no_proxy), vars),
    ensures
        are_proxy_variables(vars@, proxy@, no_proxy@),
{
    lemma_proxy_variables(vars@, proxy@, no_proxy@);
}

/// The names under which a proxy may be inherited are those of the proxy variables, in upper and in
/// lower case.
pub proof fn law_inherited_names_are_in_both_cases(keys: [&'static str; 8])
    requires
        call_ensures(proxy_env_removal_keys, (), keys),
    ensures
        keys@[0]@ == "HTTP_PROXY"@ && keys@[4]@ == "http_proxy"@,
        keys@[1]@ == "HTTPS_PROXY"@ && keys@[5]@ == "https_proxy"@,
        keys@[2]@ == "ALL_PROXY"@ && keys@[6]@ == "all_proxy"@,
        keys@[3]@ == "NO_PROXY"@ && keys@[7]@ == "no_proxy"@,
{
    let names = keys@.map_values(|key: &'static str| key@);
    assert(names[0] == keys@[0]@ && names[4] == keys@[4]@);
    assert(names[1] == keys@[1]@ && names[5] == keys@[5]@);
    assert(names[2] == keys@[2]@ && names[6] == keys@[6]@);
    assert(names[3] == keys@[3]@ && names[7] == keys@[7]@);
}

/// A plan sets the variables of the proxy that was asked for and takes none away; or, without an
/// environment, it sets none and takes all of their names away.
pub proof fn law_environment_is_that_asked_for(
    options: LaunchOptions,
    result: Result<LaunchPlan, LaunchError>,
)
    requires
        call_ensures(build_launch_plan, (options,), result),
    ensures
        result matches Ok(plan) && {
            &&& !options.no_env ==> are_proxy_variables(
                plan.proxy_env@,
                options.proxy@,
                options.no_proxy@,
            ) && plan.proxy_env_removals@.len() == 0
            &&& options.no_env ==> plan.proxy_env@.len() == 0 && are_proxy_names(
                plan.proxy_env_removals@,
            )
        },
{
    let plan = result->Ok_0;
    let names = texts(plan.proxy_env_removals@);
    assert(names == plan@.proxy_env_removals);
    assert(text_pairs(plan.proxy_env@) == plan@.proxy_env);
    assert(names.len() == plan.proxy_env_removals@.len());
    assert(text_pairs(plan.proxy_env@).len() == plan.proxy_env@.len());
    if options.no_env {
        assert forall|i: int| 0 <= i < 8 implies names[i] == (
        #[trigger] plan.proxy_env_removals@[i])@ by {}
        assert(names[0] == plan.proxy_env_removals@[0]@);
        assert(names[1] == plan.proxy_env_removals@[1]@);
        assert(names[2] == plan.proxy_env_removals@[2]@);
        assert(names[3] == plan.proxy_env_removals@[3]@);
        assert(names[4] == plan.proxy_env_removals@[4]@);
        assert(names[5] == plan.proxy_env_removals@[5]@);
        assert(names[6] == plan.proxy_env_removals@[6]@);
        assert(names[7] == plan.proxy_env_removals@[7]@);
    } else {
        lemma_proxy_variables(plan.proxy_env@, options.proxy@, options.no_proxy@);
    }
}

/// Where the user asked for a dry run, nothing is asked for once the command was told, whatever else
/// was asked for.
pub proof fn law_dry_run_asked_for_launches_nothing(
    options: LaunchOptionsView,
    events: Seq<LaunchEvent>,
)
    requires
        options.dry_run,
        launch_run(planned(options), events),
    ensures
        events.len() <= 1,
{
    if events.len() > 1 {
        assert(launch_follows(planned(options), events, 1));
    }
}

/// Where the user gave no leave to launch over a running Codex, it is started only where it was
/// looked for just before and did not run, whatever else was asked for.
pub proof fn law_guard_holds_unless_waived(
    options: LaunchOptionsView,
    events: Seq<LaunchEvent>,
    i: int,
)
    requires
        !options.allow_existing_instance,
        launch_run(planned(options), events),
        0 <= i < events.len(),
        events[i] is Spawned,
    ensures
        i > 0,
        events[i - 1] == (LaunchEvent::InstanceChecked { running: false }),
{
    assert(launch_follows(planned(options), events, i));
}

/// What is told at the start: the environment, the executable, and a command line that is read back
/// as the executable and just the arguments with which Codex is started.
pub proof fn law_told_command_is_the_one_that_is_run(plan: LaunchPlanView, executable: Seq<char>)
    ensures
        ({
            let told = launch_lines(plan, executable, LaunchEvent::ExeResolved);
            &&& told.len() == 3
            &&& told[1] == "Codex exe: "@ + executable
            &&& exists|command: Seq<char>|
                {
                    &&& told[2] == #[trigger] ("Starting: "@ + command)
                    &&& start_of(plan) matches LaunchActionView::Spawn { args, .. }
                    &&& split_command_line(command) == seq![executable] + args
                }
        }),
{
    law_direct_command_reads_back(executable, plan.args);
    let told = launch_lines(plan, executable, LaunchEvent::ExeResolved);
    assert(told[2] == "Starting: "@ + direct_command(executable, plan.args));
}

/// The command that is told is the command that is run: where a launch of a plan told its command,
/// and a step of a launch of that plan starts Codex, the command is read back as the executable and
/// the arguments of the start; and these are the arguments of the plan.
pub proof fn law_preview_shows_what_is_started(
    plan: &LaunchPlan,
    executable: &str,
    told: LaunchStep,
    event: LaunchEvent,
    started: LaunchStep,
)
    requires
        call_ensures(launch, (plan, executable, LaunchEvent::ExeResolved), told),
        call_ensures(launch, (plan, executable, event), started),
        started.action is Spawn,
    ensures
        told.lines@.len() == 3,
        told.lines@[1]@ == "Codex exe: "@ + executable@,
        exists|command: Seq<char>|
            {
                &&& told.lines@[2]@ == #[trigger] ("Starting: "@ + command)
                &&& started.action matches LaunchAction::Spawn { args, .. }
                &&& split_command_line(command) == seq![executable@] + texts(args@)
            },
        started.action matches LaunchAction::Spawn { args, edits } ==> {
            &&& texts(args@) == texts(plan.args@)
            &&& edits@.len() == plan.proxy_env_removals@.len() + plan.proxy_env@.len()
            &&& forall|i: int|
                0 <= i < plan.proxy_env_removals@.len() ==> (#[trigger] edits@[i]
                    matches EnvEdit::Remove { key } && key@ == plan.proxy_env_removals@[i]@)
            &&& forall|i: int|
                plan.proxy_env_removals@.len() <= i < edits@.len() ==> (#[trigger] edits@[i]
                    matches EnvEdit::Assign { key, value } && key@ == plan.proxy_env@[i
                    - plan.proxy_env_removals@.len()].0@ && value@ == plan.proxy_env@[i
                    - plan.proxy_env_removals@.len()].1@)
        },
{
    law_told_command_is_the_one_that_is_run(plan@, executable@);
    let lines = texts(told.lines@);
    assert(lines.len() == told.lines@.len());
    assert(lines[1] == told.lines@[1]@);
    assert(lines[2] == told.lines@[2]@);
    if let LaunchAction::Spawn { args, edits } = started.action {
        lemma_changes(plan.proxy_env@, plan.proxy_env_removals@, edits@);
    }
}

/// What is told of the environment: that it is set where the plan sets one, that inherited variables
/// are taken away where the plan takes some, and else that there is none.
pub proof fn law_environment_is_told(plan: &LaunchPlan, executable: &str, told: LaunchStep)
    requires
        call_ensures(launch, (plan, executable, LaunchEvent::ExeResolved), told),
    ensures
        told.lines@.len() == 3,
        plan.proxy_env@.len() > 0 ==> told.lines@[0]@
            == "Proxy env: per-process HTTP_PROXY/HTTPS_PROXY/ALL_PROXY/NO_PROXY"@,
        plan.proxy_env@.len() == 0 && plan.proxy_env_removals@.len() > 0 ==> told.lines@[0]@
            == "Proxy env: disabled; inherited proxy env will be removed"@,
        plan.proxy_env@.len() == 0 && plan.proxy_env_removals@.len() == 0 ==> told.lines@[0]@
            == "Proxy env: disabled"@,
{
    let lines = texts(told.lines@);
    assert(lines.len() == told.lines@.len());
    assert(lines[0] == told.lines@[0]@);
    assert(env_line(plan@) == told.lines@[0]@);
}

/// What is told later: the number of the process that was started, that its environment was
/// confirmed, and nothing once Codex was looked for.
pub proof fn law_later_steps_are_told(
    plan: &LaunchPlan,
    executable: &str,
    event: LaunchEvent,
    told: LaunchStep,
)
    requires
        call_ensures(launch, (plan, executable, event), told),
    ensures
        match event {
            LaunchEvent::ExeResolved => true,
            LaunchEvent::InstanceChecked { running } => told.lines@.len() == 0,
            LaunchEvent::Spawned { pid } => told.lines@.len() == 1 && exists|digits: Seq<char>|
                told.lines@[0]@ == "Started Codex process id: "@ + digits && #[trigger] is_number(
                    digits,
                    pid as nat,
                    10,
                ),
            LaunchEvent::EnvConfirmed => told.lines@.len() == 1 && told.lines@[0]@
                == "Proxy env confirmed in Codex app-server."@,
        },
{
    let lines = texts(told.lines@);
    assert(lines.len() == told.lines@.len());
    if lines.len() > 0 {
        assert(lines[0] == told.lines@[0]@);
    }
    if let LaunchEvent::Spawned { pid } = event {
        law_numbers_are_written(pid as nat);
        assert(is_number(decimal(pid as nat), pid as nat, 10));
    }
}

/// A launch goes on with every event: it is refused just where Codex runs, Codex is started just
/// where it may be, its environment is checked just where the plan gives time for it, and the launch
/// ends just where nothing of this is left.
pub proof fn law_launch_goes_on(
    plan: &LaunchPlan,
    executable: &str,
    event: LaunchEvent,
    step: LaunchStep,
)
    requires
        call_ensures(launch, (plan, executable, event), step),
    ensures
        step.action is Stop <==> (event is ExeResolved && plan.dry_run) || (event is Spawned
            && plan.env_check_timeout is None) || event is EnvConfirmed,
        step.action is Refuse <==> event == (LaunchEvent::InstanceChecked { running: true }),
        step.action matches LaunchAction::Refuse(error) ==> error is AlreadyRunning,
        step.action is CheckInstance <==> event is ExeResolved && !plan.dry_run
            && !plan.allow_existing_instance,
        step.action matches LaunchAction::CheckInstance { image_name } ==> image_name@
            == "Codex.exe"@,
        step.action is Spawn <==> (event is ExeResolved && !plan.dry_run
            && plan.allow_existing_instance) || event == (LaunchEvent::InstanceChecked {
            running: false,
        }),
        step.action is ConfirmEnv <==> event is Spawned && plan.env_check_timeout is Some,
        step.action matches LaunchAction::ConfirmEnv { pid, expected, timeout_ms } ==> {
            &&& event == (LaunchEvent::Spawned { pid })
            &&& text_pairs(expected@) == text_pairs(plan.proxy_env@)
            &&& plan.env_check_timeout == Some(timeout_ms)
        },
{
    assert(plan@.dry_run == plan.dry_run);
    assert(plan@.allow_existing_instance == plan.allow_existing_instance);
    assert(plan@.env_check_timeout == plan.env_check_timeout);
    assert(step.action@ == launch_action(plan@, event));
    match step.action {
        LaunchAction::CheckInstance { image_name } => {
            assert(step.action@ is CheckInstance);
        },
        LaunchAction::Spawn { args, edits } => {
            assert(step.action@ is Spawn);
        },
        LaunchAction::ConfirmEnv { pid, expected, timeout_ms } => {
            assert(step.action@ is ConfirmEnv);
        },
        LaunchAction::Stop => {
            assert(step.action@ is Stop);
        },
        LaunchAction::Refuse(error) => {
            assert(step.action@ == (LaunchActionView::Refuse { error }));
        },
    }
}

/// Waiting goes on with every event: it ends well just where nothing is expected or every expected
/// variable is there with exactly its value; it gives up just where the time is up, or where the
/// app-server lacks a variable; the environment is read just of the first app-server of a list; and
/// else it waits and looks again.
pub proof fn law_waiting_goes_on(
    parent_pid: u32,
    expected: &[(String, String)],
    timeout_ms: u64,
    event: WaitEvent,
    action: WaitAction,
)
    requires
        call_ensures(
            wait_for_app_server_proxy_env,
            (parent_pid, expected, timeout_ms, event),
            action,
        ),
    ensures
        match event {
            WaitEvent::Started => action == if expected@.len() == 0 {
                WaitAction::Confirmed
            } else {
                WaitAction::ReadClock
            },
            WaitEvent::Slept => action == WaitAction::ReadClock,
            WaitEvent::ClockRead { elapsed_ms } => action == if elapsed_ms < timeout_ms {
                WaitAction::ListProcesses
            } else {
                WaitAction::Fail(LaunchError::AppServerNotObserved { timeout_ms })
            },
            WaitEvent::ProcessesListed { entries } => match action {
                WaitAction::ReadEnvironment { pid } => exists|i: int|
                    {
                        &&& 0 <= i < entries@.len()
                        &&& app_server_of(#[trigger] entries@[i], parent_pid)
                        &&& entries@[i].pid == pid
                        &&& forall|j: int|
                            0 <= j < i ==> !app_server_of(#[trigger] entries@[j], parent_pid)
                    },
                WaitAction::Sleep { ms } => ms == 200 && forall|i: int|
                    0 <= i < entries@.len() ==> !app_server_of(#[trigger] entries@[i], parent_pid),
                _ => false,
            },
            WaitEvent::EnvironmentRead { pid, env_vars } => {
                &&& action is Confirmed <==> forall|i: int|
                    0 <= i < expected@.len() ==> env_gives(
                        env_vars@,
                        (#[trigger] expected@[i]).0@,
                        expected@[i].1@,
                    )
                &&& action !is Confirmed ==> (action matches WaitAction::Fail(
                    LaunchError::EnvNotInherited { pid: told, missing: names },
                ) && told == pid && texts(names@) == missing(
                    texts(env_vars@),
                    text_pairs(expected@),
                ))
            },
        },
{
    let view = wait_action(parent_pid, text_pairs(expected@), timeout_ms, event);
    assert(action@ == view);
    assert(text_pairs(expected@).len() == expected@.len());
    match event {
        WaitEvent::ProcessesListed { entries } => {
            lemma_first_app_server(entries@, parent_pid);
        },
        WaitEvent::EnvironmentRead { pid, env_vars } => {
            lemma_all_given(env_vars@, expected@);
        },
        _ => {},
    }
}

/// The time is up just where it went by.
pub proof fn law_time_is_up_once_it_went_by(elapsed_ms: u64, timeout_ms: u64, up: bool)
    requires
        call_ensures(time_is_up, (elapsed_ms, timeout_ms), up),
    ensures
        !up <==> elapsed_ms < timeout_ms,
{
}

/// Where nothing is asked for, Codex is launched with the default proxy, in every way guarded and
/// checked.
pub proof fn law_defaults(options: LaunchOptions, command: Command)
    requires
        call_ensures(default_launch_options, (), options),
        call_ensures(default_command, (), command),
    ensures
        options.codex_exe is None,
        options.proxy@ == "http://127.0.0.1:7897"@,
        options.no_proxy@ == "localhost,127.0.0.1,::1"@,
        !options.no_env && !options.no_env_check && !options.dry_run
            && !options.allow_existing_instance,
        options.env_check_timeout_ms == 10_000,
        options.remote_debugging_port is None,
        options.remote_allow_origins is None,
        options.extra_args@.len() == 0,
        command matches Command::Launch(launched) && launched@ == options@,
{
    assert(options@.extra_args.len() == options.extra_args@.len());
    assert(options@.codex_exe == options.codex_exe);
    assert(options@.proxy == options.proxy@);
    assert(options@.remote_allow_origins is None);
}

} // verus!
