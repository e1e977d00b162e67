//! From the options of a launch to its arguments and its environment.

use vstd::prelude::*;

use std::path::PathBuf;

use crate::error::LaunchError;
use crate::options::{LaunchOptions, LaunchOptionsView};
use crate::text::{decimal, push_decimal, text_pairs, texts};

verus! {

/// What a launch does.
#[derive(Debug)]
pub struct LaunchPlan {
    /// The executable; without one, that of the installed package.
    pub codex_exe: Option<PathBuf>,
    /// The arguments of Codex.
    pub args: Vec<String>,
    /// The variables that are set for Codex.
    pub proxy_env: Vec<(String, String)>,
    /// The variables that are taken from Codex.
    pub proxy_env_removals: Vec<String>,
    /// Tell what would be launched, and launch nothing.
    pub dry_run: bool,
    /// Launch though Codex runs already.
    pub allow_existing_instance: bool,
    /// How long to wait for the app-server, in milliseconds; without it, no check.
    pub env_check_timeout: Option<u64>,
}

/// The plan with its texts.
#[verifier::ext_equal]
pub struct LaunchPlanView {
    pub codex_exe: Option<PathBuf>,
    pub args: Seq<Seq<char>>,
    pub proxy_env: Seq<(Seq<char>, Seq<char>)>,
    pub proxy_env_removals: Seq<Seq<char>>,
    pub dry_run: bool,
    pub allow_existing_instance: bool,
    pub env_check_timeout: Option<u64>,
}

impl View for LaunchPlan {
    type V = LaunchPlanView;

    open spec fn view(&self) -> LaunchPlanView {
        LaunchPlanView {
            codex_exe: self.codex_exe,
            args: texts(self.args@),
            proxy_env: text_pairs(self.proxy_env@),
            proxy_env_removals: texts(self.proxy_env_removals@),
            dry_run: self.dry_run,
            allow_existing_instance: self.allow_existing_instance,
            env_check_timeout: self.env_check_timeout,
        }
    }
}

/// The variables of a proxy environment.
pub open spec fn proxy_variables(proxy: Seq<char>, no_proxy: Seq<char>) -> Seq<
    (Seq<char>, Seq<char>),
> {
    seq![
        ("HTTP_PROXY"@, proxy),
        ("HTTPS_PROXY"@, proxy),
        ("ALL_PROXY"@, proxy),
        ("NO_PROXY"@, no_proxy),
    ]
}

/// The names under which a proxy may stand in an inherited environment.
pub open spec fn inherited_names() -> Seq<Seq<char>> {
    seq![
        "HTTP_PROXY"@,
        "HTTPS_PROXY"@,
        "ALL_PROXY"@,
        "NO_PROXY"@,
        "http_proxy"@,
        "https_proxy"@,
        "all_proxy"@,
        "no_proxy"@,
    ]
}

/// The arguments for remote debugging: origins count only where there is a port.
pub open spec fn debugging_args(port: Option<u16>, origins: Option<Seq<char>>) -> Seq<Seq<char>> {
    match (port, origins) {
        (None, _) => seq![],
        (Some(port), None) => seq!["--remote-debugging-port="@ + decimal(port as nat)],
        (Some(port), Some(origins)) => seq![
            "--remote-debugging-port="@ + decimal(port as nat),
            "--remote-allow-origins="@ + origins,
        ],
    }
}

/// The plan for the options: the proxy comes first among the arguments, and what the user adds
/// comes last.
pub open spec fn planned(options: LaunchOptionsView) -> LaunchPlanView {
    LaunchPlanView {
        codex_exe: options.codex_exe,
        args: seq!["--proxy-server="@ + options.proxy] + debugging_args(
            options.remote_debugging_port,
            options.remote_allow_origins,
        ) + options.extra_args,
        proxy_env: if options.no_env {
            seq![]
        } else {
            proxy_variables(options.proxy, options.no_proxy)
        },
        proxy_env_removals: if options.no_env {
            inherited_names()
        } else {
            seq![]
        },
        dry_run: options.dry_run,
        allow_existing_instance: options.allow_existing_instance,
        env_check_timeout: if options.no_env_check || options.no_env
            || options.env_check_timeout_ms == 0 {
            None
        } else {
            Some(options.env_check_timeout_ms)
        },
    }
}

/// Plans a launch.
pub fn build_launch_plan(options: LaunchOptions) -> (plan: Result<LaunchPlan, LaunchError>)
    ensures
        plan is Ok,
        plan->Ok_0@ == planned(options@),
{
    let mut args: Vec<String> = Vec::new();
    args.push("--proxy-server=".to_string().concat(options.proxy.as_str()));
    assert(texts(args@) == seq!["--proxy-server="@ + options.proxy@]);
    let ghost first = texts(args@);
    let proxy_env: Vec<(String, String)> = if options.no_env {
        Vec::new()
    } else {
        proxy_env_vars(options.proxy.as_str(), options.no_proxy.as_str())
    };
    let mut proxy_env_removals: Vec<String> = Vec::new();
    if options.no_env {
        let keys = proxy_env_removal_keys();
        let ghost names = keys@.map_values(|key: &'static str| key@);
        let mut i: usize = 0;
        while i < 8
            invariant
                i <= 8,
                names == keys@.map_values(|key: &'static str| key@),
                texts(proxy_env_removals@) == names.take(i as int),
            decreases 8 - i,
        {
            let ghost before = texts(proxy_env_removals@);
            let key = keys[i].to_string();
            proxy_env_removals.push(key);
            assert(texts(proxy_env_removals@) == before.push(key@));
            i = i + 1;
        }
        assert(names.take(8) == names);
    }
    let mut extra_args = options.extra_args;
    let ghost extra = texts(extra_args@);
    if let Some(port) = options.remote_debugging_port {
        let mut arg = "--remote-debugging-port=".to_string();
        push_decimal(&mut arg, port as u64);
        args.push(arg);
        assert(texts(args@) == first.push(arg@));
        if let Some(origins) = options.remote_allow_origins {
            let arg2 = "--remote-allow-origins=".to_string().concat(origins.as_str());
            args.push(arg2);
            assert(texts(args@) == first.push(arg@).push(arg2@));
        }
    }
    let ghost middle = texts(args@);
    assert(middle == first + debugging_args(
        options@.remote_debugging_port,
        options@.remote_allow_origins,
    ));
    args.append(&mut extra_args);
    assert(texts(args@) == middle + extra);
    let env_check_timeout: Option<u64> = if options.no_env_check || options.no_env
        || options.env_check_timeout_ms == 0 {
        None
    } else {
        Some(options.env_check_timeout_ms)
    };
    let plan = LaunchPlan {
        codex_exe: options.codex_exe,
        args,
        proxy_env,
        proxy_env_removals,
        dry_run: options.dry_run,
        allow_existing_instance: options.allow_existing_instance,
        env_check_timeout,
    };
    assert(plan@ == planned(options@));
    Ok(plan)
}

/// The variables of a proxy environment.
pub fn proxy_env_vars(proxy: &str, no_proxy: &str) -> (vars: Vec<(String, String)>)
    ensures
        text_pairs(vars@) == proxy_variables(proxy@, no_proxy@),
{
    let mut vars: Vec<(String, String)> = Vec::new();
    vars.push(("HTTP_PROXY".to_string(), proxy.to_string()));
    vars.push(("HTTPS_PROXY".to_string(), proxy.to_string()));
    vars.push(("ALL_PROXY".to_string(), proxy.to_string()));
    vars.push(("NO_PROXY".to_string(), no_proxy.to_string()));
    vars
}

/// The names under which a proxy may stand in an inherited environment.
pub fn proxy_env_removal_keys() -> (keys: [&'static str; 8])
    ensures
        keys@.map_values(|key: &'static str| key@) == inherited_names(),
{
    [
        "HTTP_PROXY",
        "HTTPS_PROXY",
        "ALL_PROXY",
        "NO_PROXY",
        "http_proxy",
        "https_proxy",
        "all_proxy",
        "no_proxy",
    ]
}

} // verus!
