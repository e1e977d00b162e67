//! Which processes run.

use vstd::prelude::*;

use crate::error::LaunchError;
use crate::text::{
    chars_of, ends_ignoring_ascii_case, eq_ignoring_ascii_case, has_prefix,
    has_suffix_ignoring_ascii_case, lines, lines_of, same_ignoring_ascii_case, starts_with,
    text_of_utf8, texts, trim_start, trimmed_start, utf8_lossy,
};
use crate::utf16::{decoded, first_nul, nul_terminated_utf16_to_string, text_of_units};

verus! {

/// The image of the app that is launched, and of the helpers that it starts.
pub const CODEX_IMAGE_NAME: &'static str = "Codex.exe";

/// The image of the app-server that the app starts. Only the case of a letter tells its name from
/// that of the helpers.
pub const APP_SERVER_IMAGE_NAME: &'static str = "codex.exe";

/// How the path of the app-server's image ends. Case does not tell paths apart.
pub const APP_SERVER_IMAGE_PATH_END: &'static str = "\\resources\\codex.exe";

/// A process as the system lists it.
#[derive(Debug, PartialEq, Eq)]
pub struct ProcessEntry {
    /// The process.
    pub pid: u32,
    /// The process that started it.
    pub parent_pid: u32,
    /// The name of its executable, up to a zero unit.
    pub exe_file: Vec<u16>,
    /// The path of its executable, where the system tells it.
    pub image_path: Option<Vec<u16>>,
}

impl ProcessEntry {
    /// The name of the executable.
    pub open spec fn exe_name(self) -> Seq<char> {
        decoded(self.exe_file@.take(first_nul(self.exe_file@)))
    }

    /// The process was started by `parent_pid` and runs `image_name`, whatever the case of its
    /// ASCII letters.
    pub open spec fn is_child(self, parent_pid: u32, image_name: Seq<char>) -> bool {
        self.parent_pid == parent_pid && same_ignoring_ascii_case(self.exe_name(), image_name)
    }

    /// The path of the executable ends as that of the app-server does.
    pub open spec fn lies_with_app_server(self) -> bool {
        self.image_path matches Some(path) && ends_ignoring_ascii_case(
            decoded(path@),
            APP_SERVER_IMAGE_PATH_END@,
        )
    }

    /// The process is the app-server that `parent_pid` started: its executable has the name of the
    /// app-server's and lies where that lies. Where the system does not tell the path, the case of
    /// the name decides. The list of processes does not tell their arguments.
    pub open spec fn is_app_server(self, parent_pid: u32) -> bool {
        &&& self.is_child(parent_pid, APP_SERVER_IMAGE_NAME@)
        &&& if self.image_path is Some {
            self.lies_with_app_server()
        } else {
            self.exe_name() == APP_SERVER_IMAGE_NAME@
        }
    }

    /// The process is a helper of the app: its executable has the name of the app's, and is not
    /// that of the app-server.
    pub open spec fn is_helper(self) -> bool {
        self.exe_name() == CODEX_IMAGE_NAME@ && !self.lies_with_app_server()
    }
}

/// The first process that `parent_pid` started and that runs `image_name`.
pub open spec fn first_child(
    entries: Seq<ProcessEntry>,
    parent_pid: u32,
    image_name: Seq<char>,
) -> Option<u32>
    decreases entries.len(),
{
    if entries.len() == 0 {
        None
    } else if entries[0].is_child(parent_pid, image_name) {
        Some(entries[0].pid)
    } else {
        first_child(entries.skip(1), parent_pid, image_name)
    }
}

/// The first process that is the app-server of `parent_pid`.
pub open spec fn first_app_server(entries: Seq<ProcessEntry>, parent_pid: u32) -> Option<u32>
    decreases entries.len(),
{
    if entries.len() == 0 {
        None
    } else if entries[0].is_app_server(parent_pid) {
        Some(entries[0].pid)
    } else {
        first_app_server(entries.skip(1), parent_pid)
    }
}

/// A line of the list of processes names the image.
pub open spec fn line_names(line: Seq<char>, image_name: Seq<char>) -> bool {
    starts_with(trimmed_start(line), seq!['"'] + image_name + seq!['"'])
}

/// Some line of the list of processes names the image.
pub open spec fn listing_names(listing: Seq<char>, image_name: Seq<char>) -> bool {
    exists|i: int| 0 <= i < lines(listing).len() && line_names(#[trigger] lines(listing)[i], image_name)
}

/// Finds a child of a process by the name of its executable: the first one, in the order in which
/// the system lists processes. The case of ASCII letters does not matter.
pub fn find_child_process_by_name(
    entries: &[ProcessEntry],
    parent_pid: u32,
    image_name: &str,
) -> (pid: Option<u32>)
    ensures
        pid == first_child(entries@, parent_pid, image_name@),
{
    let name = chars_of(image_name);
    let mut i: usize = 0;
    assert(entries@.skip(0) == entries@);
    while i < entries.len()
        invariant
            i <= entries@.len(),
            name@ == image_name@,
            first_child(entries@, parent_pid, image_name@) == first_child(
                entries@.skip(i as int),
                parent_pid,
                image_name@,
            ),
        decreases entries@.len() - i,
    {
        let exe = nul_terminated_utf16_to_string(&entries[i].exe_file);
        let same = eq_ignoring_ascii_case(&chars_of(exe.as_str()), &name);
        if entries[i].parent_pid == parent_pid && same {
            return Some(entries[i].pid);
        }
        assert(entries@.skip(i as int).skip(1) == entries@.skip(i + 1));
        i = i + 1;
    }
    None
}

/// Whether the process is the app-server of `parent_pid`.
fn runs_app_server(entry: &ProcessEntry, parent_pid: u32) -> (found: bool)
    ensures
        found == entry.is_app_server(parent_pid),
{
    let name = nul_terminated_utf16_to_string(&entry.exe_file);
    let child = entry.parent_pid == parent_pid && eq_ignoring_ascii_case(
        &chars_of(name.as_str()),
        &chars_of(APP_SERVER_IMAGE_NAME),
    );
    child && match &entry.image_path {
        Some(path) => has_suffix_ignoring_ascii_case(
            text_of_units(path).as_str(),
            APP_SERVER_IMAGE_PATH_END,
        ),
        None => name == APP_SERVER_IMAGE_NAME.to_string(),
    }
}

/// Finds the app-server among the children of a process. There is none where no child has its
/// name.
pub fn find_app_server(entries: &[ProcessEntry], parent_pid: u32) -> (pid: Option<u32>)
    ensures
        pid == first_app_server(entries@, parent_pid),
{
    if find_child_process_by_name(entries, parent_pid, APP_SERVER_IMAGE_NAME).is_none() {
        proof {
            law_app_server_is_found_by_name(entries@, parent_pid);
        }
        return None;
    }
    let mut i: usize = 0;
    assert(entries@.skip(0) == entries@);
    while i < entries.len()
        invariant
            i <= entries@.len(),
            first_app_server(entries@, parent_pid) == first_app_server(
                entries@.skip(i as int),
                parent_pid,
            ),
        decreases entries@.len() - i,
    {
        if runs_app_server(&entries[i], parent_pid) {
            return Some(entries[i].pid);
        }
        assert(entries@.skip(i as int).skip(1) == entries@.skip(i + 1));
        i = i + 1;
    }
    None
}

/// Where there is an app-server, the process has a child of the app-server's name.
pub proof fn law_app_server_is_found_by_name(entries: Seq<ProcessEntry>, parent_pid: u32)
    ensures
        first_app_server(entries, parent_pid) is Some ==> first_child(
            entries,
            parent_pid,
            APP_SERVER_IMAGE_NAME@,
        ) is Some,
    decreases entries.len(),
{
    if entries.len() > 0 {
        law_app_server_is_found_by_name(entries.skip(1), parent_pid);
    }
}

/// What is found as the app-server is the first process of the list that is the app-server, and
/// nothing is found just where none is.
pub proof fn law_found_app_server_is_the_app_server(entries: Seq<ProcessEntry>, parent_pid: u32)
    ensures
        match first_app_server(entries, parent_pid) {
            Some(pid) => exists|i: int|
                {
                    &&& 0 <= i < entries.len()
                    &&& (#[trigger] entries[i]).is_app_server(parent_pid)
                    &&& entries[i].pid == pid
                    &&& forall|j: int|
                        0 <= j < i ==> !(#[trigger] entries[j]).is_app_server(parent_pid)
                },
            None => forall|i: int|
                0 <= i < entries.len() ==> !(#[trigger] entries[i]).is_app_server(parent_pid),
        },
    decreases entries.len(),
{
    if entries.len() > 0 && !entries[0].is_app_server(parent_pid) {
        let rest = entries.skip(1);
        law_found_app_server_is_the_app_server(rest, parent_pid);
        match first_app_server(rest, parent_pid) {
            Some(pid) => {
                let k = choose|k: int|
                    {
                        &&& 0 <= k < rest.len()
                        &&& (#[trigger] rest[k]).is_app_server(parent_pid)
                        &&& rest[k].pid == pid
                        &&& forall|j: int|
                            0 <= j < k ==> !(#[trigger] rest[j]).is_app_server(parent_pid)
                    };
                assert(entries[k + 1] == rest[k]);
                assert forall|j: int| 0 <= j < k + 1 implies !(
                #[trigger] entries[j]).is_app_server(parent_pid) by {
                    if j > 0 {
                        assert(entries[j] == rest[j - 1]);
                    }
                }
            },
            None => {
                assert forall|i: int| 0 <= i < entries.len() implies !(
                #[trigger] entries[i]).is_app_server(parent_pid) by {
                    if i > 0 {
                        assert(entries[i] == rest[i - 1]);
                    }
                }
            },
        }
    }
}

/// Every child of `parent_pid` is a helper of the app.
pub open spec fn only_helpers(entries: Seq<ProcessEntry>, parent_pid: u32) -> bool {
    forall|i: int|
        0 <= i < entries.len() && (#[trigger] entries[i]).parent_pid == parent_pid
            ==> entries[i].is_helper()
}

/// A helper of the app is never taken for the app-server.
pub proof fn law_helpers_are_not_the_app_server(entries: Seq<ProcessEntry>, parent_pid: u32)
    requires
        only_helpers(entries, parent_pid),
    ensures
        first_app_server(entries, parent_pid) is None,
    decreases entries.len(),
{
    reveal_strlit("Codex.exe");
    reveal_strlit("codex.exe");
    assert(CODEX_IMAGE_NAME@[0] != APP_SERVER_IMAGE_NAME@[0]);
    if entries.len() > 0 {
        let rest = entries.skip(1);
        assert forall|i: int|
            0 <= i < rest.len() && (#[trigger] rest[i]).parent_pid == parent_pid implies
            rest[i].is_helper() by {
            assert(rest[i] == entries[i + 1]);
        }
        law_helpers_are_not_the_app_server(rest, parent_pid);
    }
}

/// The arguments that make `tasklist` list the processes of an image, one line each.
pub fn tasklist_args(image_name: &str) -> (args: Vec<String>)
    ensures
        texts(args@) == seq![
            "/FI"@,
            "IMAGENAME eq "@ + image_name@,
            "/FO"@,
            "CSV"@,
            "/NH"@,
        ],
{
    let mut args: Vec<String> = Vec::new();
    args.push("/FI".to_string());
    args.push("IMAGENAME eq ".to_string().concat(image_name));
    args.push("/FO".to_string());
    args.push("CSV".to_string());
    args.push("/NH".to_string());
    args
}

/// Whether a list of processes names an image.
pub fn lists_process(listing: &str, image_name: &str) -> (found: bool)
    ensures
        found == listing_names(listing@, image_name@),
{
    let mut prefix = String::new();
    prefix.push('"');
    prefix.append(image_name);
    prefix.push('"');
    assert(prefix@ == seq!['"'] + image_name@ + seq!['"']);
    let all = lines_of(listing);
    let mut i: usize = 0;
    while i < all.len()
        invariant
            i <= all@.len(),
            texts(all@) == lines(listing@),
            prefix@ == seq!['"'] + image_name@ + seq!['"'],
            forall|j: int|
                0 <= j < i ==> !line_names(#[trigger] lines(listing@)[j], image_name@),
        decreases all@.len() - i,
    {
        assert(texts(all@)[i as int] == all@[i as int]@);
        let line = trim_start(all[i].as_str());
        if has_prefix(line.as_str(), prefix.as_str()) {
            assert(line_names(lines(listing@)[i as int], image_name@));
            return true;
        }
        i = i + 1;
    }
    false
}

/// Whether an image runs, once `tasklist` ended: what it printed, or how it failed.
pub fn process_is_running(
    image_name: &str,
    success: bool,
    exit_status: &str,
    stdout: &[u8],
) -> (running: Result<bool, LaunchError>)
    ensures
        success ==> (running matches Ok(found) && found == listing_names(
            utf8_lossy(stdout@),
            image_name@,
        )),
        success && vstd::utf8::valid_utf8(stdout@) ==> (running matches Ok(found) && found
            == listing_names(vstd::utf8::decode_utf8(stdout@), image_name@)),
        !success ==> (running matches Err(LaunchError::TasklistFailed { exit_status: told })
            && told@ == exit_status@),
{
    if !success {
        return Err(LaunchError::TasklistFailed { exit_status: exit_status.to_string() });
    }
    let listing = text_of_utf8(stdout);
    Ok(lists_process(listing.as_str(), image_name))
}

} // verus!
