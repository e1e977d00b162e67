use std::path::PathBuf;

use codexlaunch::options::{default_command, default_launch_options, Command};
use codexlaunch::plan::{build_launch_plan, proxy_env_removal_keys, proxy_env_vars};

#[test]
fn builds_proxy_env_vars() {
    let vars = proxy_env_vars("http://127.0.0.1:7897", "localhost");
    assert!(vars.contains(&(
        "HTTP_PROXY".to_string(),
        "http://127.0.0.1:7897".to_string()
    )));
    assert!(vars.contains(&("NO_PROXY".to_string(), "localhost".to_string())));
}

#[test]
fn default_plan_uses_proxy_env() {
    let plan = build_launch_plan(default_launch_options()).unwrap();

    assert!(plan.codex_exe.is_none());
    assert_eq!(
        plan.args,
        vec!["--proxy-server=http://127.0.0.1:7897".to_string()]
    );
    assert_eq!(plan.proxy_env.len(), 4);
    assert!(plan.env_check_timeout.is_some());
}

#[test]
fn no_env_disables_proxy_env_and_env_check() {
    let mut options = default_launch_options();
    options.no_env = true;

    let plan = build_launch_plan(options).unwrap();

    assert!(plan.proxy_env.is_empty());
    assert!(plan.proxy_env_removals.contains(&"HTTP_PROXY".to_string()));
    assert!(plan.proxy_env_removals.contains(&"http_proxy".to_string()));
    assert!(plan.env_check_timeout.is_none());
}

#[test]
fn custom_codex_exe_is_kept_in_plan() {
    let mut options = default_launch_options();
    options.codex_exe = Some(PathBuf::from(r"C:\Codex.exe"));

    let plan = build_launch_plan(options).unwrap();

    assert_eq!(plan.codex_exe, Some(PathBuf::from(r"C:\Codex.exe")));
}

#[test]
fn proxy_env_is_in_order() {
    let vars = proxy_env_vars("p", "n");
    let expected: Vec<(String, String)> = [
        ("HTTP_PROXY", "p"),
        ("HTTPS_PROXY", "p"),
        ("ALL_PROXY", "p"),
        ("NO_PROXY", "n"),
    ]
    .iter()
    .map(|(key, value)| (key.to_string(), value.to_string()))
    .collect();
    assert_eq!(vars, expected);
}

#[test]
fn removes_both_cases_of_every_name() {
    let keys = proxy_env_removal_keys();
    assert_eq!(
        keys,
        [
            "HTTP_PROXY", "HTTPS_PROXY", "ALL_PROXY", "NO_PROXY", "http_proxy", "https_proxy",
            "all_proxy", "no_proxy",
        ]
    );
    let mut options = default_launch_options();
    options.no_env = true;
    assert_eq!(build_launch_plan(options).unwrap().proxy_env_removals, keys);
}

#[test]
fn default_command_launches_with_the_defaults() {
    match default_command() {
        Command::Launch(options) => {
            assert!(options.codex_exe.is_none());
            assert_eq!(options.proxy, "http://127.0.0.1:7897");
            assert_eq!(options.no_proxy, "localhost,127.0.0.1,::1");
            assert_eq!(options.env_check_timeout_ms, 10_000);
            assert_eq!(options.remote_debugging_port, None);
            assert_eq!(options.remote_allow_origins, None);
            assert!(options.extra_args.is_empty());
            assert!(!options.no_env && !options.no_env_check);
            assert!(!options.dry_run && !options.allow_existing_instance);
        }
        Command::Install(_) => panic!("an installation"),
    }
}

#[test]
fn debugging_arguments_follow_the_proxy() {
    let mut options = default_launch_options();
    options.remote_debugging_port = Some(9229);
    options.remote_allow_origins = Some("http://127.0.0.1:9229".to_string());
    options.extra_args = vec!["--some-electron-flag=value".to_string(), "x".to_string()];
    assert_eq!(
        build_launch_plan(options).unwrap().args,
        vec![
            "--proxy-server=http://127.0.0.1:7897",
            "--remote-debugging-port=9229",
            "--remote-allow-origins=http://127.0.0.1:9229",
            "--some-electron-flag=value",
            "x",
        ]
    );
}

#[test]
fn debugging_port_may_come_alone() {
    let mut options = default_launch_options();
    options.remote_debugging_port = Some(0);
    assert_eq!(
        build_launch_plan(options).unwrap().args,
        vec!["--proxy-server=http://127.0.0.1:7897", "--remote-debugging-port=0"]
    );
}

#[test]
fn origins_do_nothing_without_a_port() {
    let mut options = default_launch_options();
    options.remote_allow_origins = Some("*".to_string());
    options.extra_args = vec!["y".to_string()];
    assert_eq!(
        build_launch_plan(options).unwrap().args,
        vec!["--proxy-server=http://127.0.0.1:7897", "y"]
    );
}

#[test]
fn a_set_environment_is_not_removed() {
    let plan = build_launch_plan(default_launch_options()).unwrap();
    assert!(plan.proxy_env_removals.is_empty());
    assert_eq!(plan.env_check_timeout, Some(10_000));
}

#[test]
fn no_check_without_time_or_on_request() {
    let mut options = default_launch_options();
    options.env_check_timeout_ms = 0;
    assert_eq!(build_launch_plan(options).unwrap().env_check_timeout, None);
    let mut options = default_launch_options();
    options.no_env_check = true;
    let plan = build_launch_plan(options).unwrap();
    assert_eq!(plan.env_check_timeout, None);
    assert_eq!(plan.proxy_env.len(), 4);
}

#[test]
fn flags_are_kept_in_plan() {
    let mut options = default_launch_options();
    options.dry_run = true;
    options.allow_existing_instance = true;
    options.env_check_timeout_ms = 7;
    let plan = build_launch_plan(options).unwrap();
    assert!(plan.dry_run && plan.allow_existing_instance);
    assert_eq!(plan.env_check_timeout, Some(7));
}
