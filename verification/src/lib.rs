//! The logic of a launcher that starts the Codex app with proxy settings and checks that its
//! app-server got them.

pub mod command_line;
pub mod discovery;
pub mod environment;
pub mod environment_laws;
pub mod environment_runs;
pub mod error;
pub mod install;
pub mod install_laws;
pub mod launch;
pub mod launch_laws;
pub mod listing_laws;
pub mod message_laws;
pub mod options;
pub mod plan;
pub mod plan_laws;
pub mod processes;
pub mod quoting;
pub mod quoting_laws;
pub mod shortcut_laws;
pub mod text;
pub mod text_laws;
pub mod utf16;
pub mod utf16_laws;
pub mod variable_laws;
