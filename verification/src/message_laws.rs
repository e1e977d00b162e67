//! What the words of errors tell.

use vstd::prelude::*;

use crate::error::LaunchError;
use crate::text::{decimal, hexadecimal, joined, texts};
use crate::text_laws::{
    all_white, ends_dark, is_number, law_numbers_are_written, law_trimmed, starts_dark,
};

verus! {

/// An app-server without its variables is told by its number and all the names that are missing.
pub proof fn law_missing_variables_are_told(
    pid: u32,
    missing: Vec<String>,
    message: String,
)
    requires
        call_ensures(
            LaunchError::message,
            (&LaunchError::EnvNotInherited { pid, missing },),
            message,
        ),
    ensures
        exists|digits: Seq<char>|
            #[trigger] is_number(digits, pid as nat, 10) && message@ == "Codex app-server pid "@
                + digits + " did not inherit proxy env; missing "@ + joined(
                texts(missing@),
                ", "@,
            ) + "."@,
{
    law_numbers_are_written(pid as nat);
    assert(is_number(decimal(pid as nat), pid as nat, 10));
}

/// Names are told one behind the other, with a comma and a space between them.
pub proof fn law_names_are_told_in_order(names: Seq<Seq<char>>, name: Seq<char>, separator: Seq<char>)
    ensures
        joined(seq![name], separator) == name,
        names.len() > 0 ==> joined(names.push(name), separator) == joined(names, separator)
            + separator + name,
        joined(Seq::empty(), separator).len() == 0,
{
    assert(names.push(name).drop_last() == names);
}

/// The time that was waited in vain is told in milliseconds.
pub proof fn law_time_is_told(timeout_ms: u64, message: String)
    requires
        call_ensures(
            LaunchError::message,
            (&LaunchError::AppServerNotObserved { timeout_ms },),
            message,
        ),
    ensures
        exists|digits: Seq<char>|
            #[trigger] is_number(digits, timeout_ms as nat, 10) && message@
                == "Codex app-server child process was not observed within "@ + digits + " ms"@,
{
    law_numbers_are_written(timeout_ms as nat);
    assert(is_number(decimal(timeout_ms as nat), timeout_ms as nat, 10));
}

/// The status of a failed query is told in hexadecimal digits, a negative one as its 32 bits.
pub proof fn law_status_is_told(status: i32, message: String)
    requires
        call_ensures(
            LaunchError::message,
            (&LaunchError::ProcessQueryFailed { status },),
            message,
        ),
    ensures
        exists|digits: Seq<char>, bits: nat|
            #[trigger] is_number(digits, bits, 16) && bits == (if status < 0 {
                status + 0x1_0000_0000
            } else {
                status as int
            }) && message@ == "NtQueryInformationProcess failed with status 0x"@ + digits,
{
    let bits: nat = if status < 0 {
        (status + 0x1_0000_0000) as nat
    } else {
        status as nat
    };
    law_numbers_are_written(bits);
    assert(is_number(hexadecimal(bits), bits, 16));
}

/// A short read is told by its address, in hexadecimal digits, and by how much was asked for and
/// read.
pub proof fn law_short_read_is_told(address: u64, expected: usize, got: usize, message: String)
    requires
        call_ensures(
            LaunchError::message,
            (&LaunchError::ShortRead { address, expected, got },),
            message,
        ),
    ensures
        exists|at: Seq<char>, asked: Seq<char>, read: Seq<char>|
            {
                &&& #[trigger] is_number(at, address as nat, 16)
                &&& #[trigger] is_number(asked, expected as nat, 10)
                &&& #[trigger] is_number(read, got as nat, 10)
                &&& message@ == "short read at 0x"@ + at + ": expected "@ + asked + ", got "@ + read
            },
{
    law_numbers_are_written(address as nat);
    law_numbers_are_written(expected as nat);
    law_numbers_are_written(got as nat);
    assert(is_number(hexadecimal(address as nat), address as nat, 16));
    assert(is_number(decimal(expected as nat), expected as nat, 10));
    assert(is_number(decimal(got as nat), got as nat, 10));
}

/// What a failed program told is told without the white space around it, and with what it was asked
/// for.
pub proof fn law_failed_program_is_told(
    error: LaunchError,
    before: Seq<char>,
    words: Seq<char>,
    behind: Seq<char>,
    message: String,
)
    requires
        call_ensures(LaunchError::message, (&error,), message),
        all_white(before),
        all_white(behind),
        starts_dark(words),
        ends_dark(words),
    ensures
        error matches LaunchError::PackageQueryFailed { package_name, stderr } ==> stderr@ == before
            + words + behind ==> message@
            == "failed to resolve Codex install location with Get-AppxPackage -Name "@
            + package_name@ + ": "@ + words,
        error matches LaunchError::ShortcutFailed { shortcut, stderr } ==> stderr@ == before + words
            + behind ==> message@ == "failed to create Start Menu shortcut "@ + shortcut@ + ": "@
            + words,
{
    law_trimmed(before, words, behind);
}

/// What an error is about is told as it is.
pub proof fn law_subject_is_told(error: LaunchError, message: String)
    requires
        call_ensures(LaunchError::message, (&error,), message),
    ensures
        error matches LaunchError::TasklistFailed { exit_status } ==> message@
            == "tasklist failed with status "@ + exit_status@,
        error matches LaunchError::ExeMissing { path } ==> message@
            == "Codex executable does not exist: "@ + path@,
        error matches LaunchError::DefaultExeMissing { path } ==> message@
            == "resolved Codex.exe does not exist: "@ + path@,
        error matches LaunchError::EnvVarNotSet { name } ==> message@ == name@ + " is not set"@,
{
}

/// Errors without a subject have words of their own.
pub proof fn law_plain_errors_are_told(error: LaunchError, message: String)
    requires
        call_ensures(LaunchError::message, (&error,), message),
    ensures
        error is AlreadyRunning ==> message@
            == "Codex.exe is already running. Close Codex first so startup proxy settings are applied to a fresh process, or pass --allow-existing-instance to skip this guard."@,
        error is RemoteReadUnsupported ==> message@
            == "remote environment reading is only implemented for 64-bit processes"@,
        error is DiscoveryUnsupported ==> message@
            == "automatic Codex.exe discovery is only supported on Windows; pass --codex-exe"@,
        error is EmptyInstallLocation ==> message@
            == "Get-AppxPackage returned an empty InstallLocation"@,
        error is ShortcutPathNotUtf8 ==> message@ == "shortcut path is not valid UTF-8"@,
        error is TargetPathNotUtf8 ==> message@ == "target path is not valid UTF-8"@,
        error is WorkingDirNotUtf8 ==> message@ == "working directory path is not valid UTF-8"@,
        error is ShortcutUnsupported ==> message@
            == "Start Menu shortcut installation is only supported on Windows"@,
{
}

} // verus!
