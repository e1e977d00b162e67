//! What a user asks for, and what is done where nothing is asked for.

use vstd::prelude::*;

use std::path::PathBuf;

use crate::text::texts;

verus! {

/// The name of the installed package.
pub const DEFAULT_PACKAGE_NAME: &'static str = "OpenAI.Codex";

/// The proxy that is used where none is given.
pub const DEFAULT_PROXY: &'static str = "http://127.0.0.1:7897";

/// The hosts that are reached without the proxy where none are given.
pub const DEFAULT_NO_PROXY: &'static str = "localhost,127.0.0.1,::1";

/// How long the environment of the app-server is waited for where no time is given.
pub const DEFAULT_ENV_CHECK_TIMEOUT_MS: u64 = 10_000;

/// `std::path::PathBuf`, carried from the options to the plan and never looked into.
#[verifier::external_type_specification]
#[verifier::external_body]
pub struct ExPathBuf(std::path::PathBuf);

/// What to do.
#[derive(Debug, Clone)]
pub enum Command {
    /// Launch Codex with proxy arguments and a proxy environment.
    Launch(LaunchOptions),
    /// Install the launcher for the current user.
    Install(InstallOptions),
}

/// How to install.
#[derive(Debug, Clone)]
pub struct InstallOptions {
    /// Tell the paths of the installation, and install nothing.
    pub dry_run: bool,
}

/// How to launch.
#[derive(Debug, Clone)]
pub struct LaunchOptions {
    /// The executable; without one, that of the installed package.
    pub codex_exe: Option<PathBuf>,
    /// The proxy for Chromium and for the environment.
    pub proxy: String,
    /// The hosts that are reached without the proxy.
    pub no_proxy: String,
    /// Leave the proxy out of the environment.
    pub no_env: bool,
    /// Do not look whether the app-server got the environment.
    pub no_env_check: bool,
    /// How long to wait for the app-server, in milliseconds.
    pub env_check_timeout_ms: u64,
    /// The port for remote debugging.
    pub remote_debugging_port: Option<u16>,
    /// The origins that may debug.
    pub remote_allow_origins: Option<String>,
    /// Tell what would be launched, and launch nothing.
    pub dry_run: bool,
    /// Launch though Codex runs already.
    pub allow_existing_instance: bool,
    /// Further arguments for Codex.
    pub extra_args: Vec<String>,
}

/// The options with their texts.
#[verifier::ext_equal]
pub struct LaunchOptionsView {
    pub codex_exe: Option<PathBuf>,
    pub proxy: Seq<char>,
    pub no_proxy: Seq<char>,
    pub no_env: bool,
    pub no_env_check: bool,
    pub env_check_timeout_ms: u64,
    pub remote_debugging_port: Option<u16>,
    pub remote_allow_origins: Option<Seq<char>>,
    pub dry_run: bool,
    pub allow_existing_instance: bool,
    pub extra_args: Seq<Seq<char>>,
}

impl View for LaunchOptions {
    type V = LaunchOptionsView;

    open spec fn view(&self) -> LaunchOptionsView {
        LaunchOptionsView {
            codex_exe: self.codex_exe,
            proxy: self.proxy@,
            no_proxy: self.no_proxy@,
            no_env: self.no_env,
            no_env_check: self.no_env_check,
            env_check_timeout_ms: self.env_check_timeout_ms,
            remote_debugging_port: self.remote_debugging_port,
            remote_allow_origins: match self.remote_allow_origins {
                Some(origins) => Some(origins@),
                None => None,
            },
            dry_run: self.dry_run,
            allow_existing_instance: self.allow_existing_instance,
            extra_args: texts(self.extra_args@),
        }
    }
}

/// The options where nothing is asked for.
pub open spec fn default_options() -> LaunchOptionsView {
    LaunchOptionsView {
        codex_exe: None,
        proxy: DEFAULT_PROXY@,
        no_proxy: DEFAULT_NO_PROXY@,
        no_env: false,
        no_env_check: false,
        env_check_timeout_ms: DEFAULT_ENV_CHECK_TIMEOUT_MS,
        remote_debugging_port: None,
        remote_allow_origins: None,
        dry_run: false,
        allow_existing_instance: false,
        extra_args: seq![],
    }
}

/// The options where nothing is asked for.
pub fn default_launch_options() -> (options: LaunchOptions)
    ensures
        options@ == default_options(),
{
    LaunchOptions {
        codex_exe: None,
        proxy: DEFAULT_PROXY.to_string(),
        no_proxy: DEFAULT_NO_PROXY.to_string(),
        no_env: false,
        no_env_check: false,
        env_check_timeout_ms: DEFAULT_ENV_CHECK_TIMEOUT_MS,
        remote_debugging_port: None,
        remote_allow_origins: None,
        dry_run: false,
        allow_existing_instance: false,
        extra_args: Vec::new(),
    }
}

/// What is done where no command is given: a launch with nothing asked for.
pub fn default_command() -> (command: Command)
    ensures
        command matches Command::Launch(options) && options@ == default_options(),
{
    Command::Launch(default_launch_options())
}

} // verus!
