# codexlaunch

The logic of CodexLaunch, a launcher that starts the Microsoft Store Codex app on Windows with
Chromium proxy flags and per-process proxy environment variables, and that checks that the app-server
got them. The library is written in Verus: its functions are verified against their contracts. What
it trusts of the standard library is stated in `src/text.rs` and `src/options.rs`.

- `src/options.rs`, `src/plan.rs`: from the options of a launch to its arguments and environment.
- `src/quoting.rs`: arguments on a Windows command line, strings in PowerShell.
- `src/launch.rs`, `src/install.rs`: the steps of a launch, of waiting for the app-server, and of an
  installation. Each step takes what happened and says what to tell and what to do next.
- `src/environment.rs`, `src/processes.rs`, `src/discovery.rs`, `src/utf16.rs`: what is made of what
  the system answers.
- `src/text.rs`, `src/error.rs`: texts and the words of errors.
- `src/command_line.rs`, `src/environment_laws.rs`, `src/environment_runs.rs`, `src/plan_laws.rs`,
  `src/shortcut_laws.rs`, and the `law_` functions elsewhere: what holds of the library as a whole.

`app/` is the program: it parses arguments, asks the system, and performs what the library decides.
