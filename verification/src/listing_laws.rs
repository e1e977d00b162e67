//! What is read from the lists and answers of the system, said of their texts.

use vstd::prelude::*;

use std::path::PathBuf;

use crate::discovery::{
    default_codex_exe_path, find_appx_install_location, first_nonblank, install_location,
    named_location, package_query_script, powershell_args, resolve_codex_exe, ExeCandidate,
    Resolution,
};
use crate::error::LaunchError;
use crate::processes::{
    find_app_server, find_child_process_by_name, first_app_server, first_child,
    law_found_app_server_is_the_app_server, line_names, lists_process, listing_names,
    process_is_running, tasklist_args, ProcessEntry,
};
use crate::text::{
    first_index, lemma_first_index, lines, texts, trimmed_start, utf8_lossy, white_space,
    without_return,
};
use crate::text_laws::{
    all_white, ends_dark, law_line_feed_ends_a_line, law_lines_concat, law_lines_stand_in_the_text,
    law_last_line_needs_no_line_feed, law_only_ascii_case_is_ignored, law_trimmed,
    law_trimmed_start, law_trimmed_start_splits, lemma_suffix, one_line, starts_dark, texts_alike,
};
use crate::utf16::decoded;

verus! {

/// A line that begins with a text, in what follows, begins with that text among the lines too.
proof fn lemma_first_line(line: Seq<char>, rest: Seq<char>)
    requires
        one_line(line),
        line.len() > 0,
        line[line.len() - 1] != '\r',
    ensures
        lines(line + rest).len() > 0,
        exists|end: Seq<char>| lines(line + rest)[0] == #[trigger] (line + end),
        rest.len() == 0 || rest[0] == '\n' ==> lines(line + rest)[0] == line,
{
    let s = line + rest;
    let n = line.len() as int;
    lemma_first_index(s, '\n');
    let at = first_index(s, '\n');
    if at < n {
        assert(line[at] != '\n');
    }
    if at < s.len() {
        let first = without_return(s.take(at));
        assert(lines(s) == seq![first] + lines(s.skip(at + 1)));
        if first.len() < n {
            assert(s.take(at).last() == line[n - 1]);
        }
        assert(first == line + first.skip(n));
        if rest.len() == 0 || rest[0] == '\n' {
            assert(s[n] == '\n');
            assert(s.take(n) == line);
        }
    } else {
        assert(lines(s) == seq![s]);
        if rest.len() > 0 && rest[0] == '\n' {
            assert(s[n] == '\n');
        }
        if rest.len() == 0 {
            assert(s == line);
        }
    }
}

/// The quoted name of an image.
pub open spec fn quoted_image(image_name: Seq<char>) -> Seq<char> {
    seq!['"'] + image_name + seq!['"']
}

/// A listing that has a row for an image names the image, whatever else stands in the row or in the
/// other rows.
pub proof fn law_listed_image_is_named(
    before: Seq<char>,
    blank: Seq<char>,
    image_name: Seq<char>,
    rest: Seq<char>,
)
    requires
        before.len() == 0 || before[before.len() - 1] == '\n',
        all_white(blank),
        one_line(blank),
        one_line(image_name),
    ensures
        listing_names(before + (blank + quoted_image(image_name) + rest), image_name),
{
    let quoted = quoted_image(image_name);
    let row = blank + quoted;
    let tail = blank + quoted + rest;
    let listing = before + tail;
    assert(tail == row + rest);
    assert forall|i: int| 0 <= i < row.len() implies #[trigger] row[i] != '\n' by {
        if i < blank.len() {
            assert(blank[i] != '\n');
        } else if blank.len() < i < row.len() - 1 {
            assert(row[i] == image_name[i - blank.len() - 1]);
        }
    }
    law_lines_concat(before, tail);
    lemma_first_line(row, rest);
    let end = choose|end: Seq<char>| lines(row + rest)[0] == #[trigger] (row + end);
    let at = lines(before).len() as int;
    assert(lines(listing)[at] == row + end);
    assert(row + end == blank + (quoted + end));
    law_trimmed_start(blank, quoted + end);
    assert((quoted + end).take(quoted.len() as int) == quoted);
    assert(line_names(lines(listing)[at], image_name));
}

/// A listing names an image only where it has a row for it: white space and the quoted name at its
/// start or behind a line feed.
pub proof fn law_named_image_is_listed(listing: Seq<char>, image_name: Seq<char>)
    requires
        listing_names(listing, image_name),
    ensures
        exists|before: Seq<char>, blank: Seq<char>, rest: Seq<char>|
            {
                &&& listing == #[trigger] (before + (blank + quoted_image(image_name) + rest))
                &&& before.len() == 0 || before[before.len() - 1] == '\n'
                &&& all_white(blank)
                &&& one_line(blank)
                &&& one_line(image_name)
            },
{
    let i = choose|i: int|
        0 <= i < lines(listing).len() && line_names(#[trigger] lines(listing)[i], image_name);
    let line = lines(listing)[i];
    let quoted = quoted_image(image_name);
    law_lines_stand_in_the_text(listing, i);
    let (before, behind) = choose|before: Seq<char>, behind: Seq<char>|
        listing == #[trigger] (before + lines(listing)[i] + behind) && (before.len() == 0
            || before[before.len() - 1] == '\n');
    law_trimmed_start_splits(line);
    let row = trimmed_start(line);
    let n = line.len() - row.len();
    let blank = line.take(n);
    assert(row.take(quoted.len() as int) == quoted);
    let end = row.skip(quoted.len() as int);
    assert(row == quoted + end);
    assert(line == blank + (quoted + end));
    let rest = end + behind;
    assert(listing == before + (blank + quoted + rest));
    assert forall|j: int| 0 <= j < blank.len() implies #[trigger] blank[j] != '\n' by {
        assert(line[j] != '\n');
    }
    assert forall|j: int| 0 <= j < image_name.len() implies #[trigger] image_name[j] != '\n' by {
        assert(line[n + 1 + j] == image_name[j]);
    }
}

/// A row for an image is found in a listing, whatever else stands in the row, and nothing else is
/// taken for one.
pub proof fn law_row_of_image_is_found(listing: &str, image_name: &str, found: bool)
    requires
        call_ensures(lists_process, (listing, image_name), found),
    ensures
        found <==> exists|before: Seq<char>, blank: Seq<char>, rest: Seq<char>|
            {
                &&& listing@ == #[trigger] (before + (blank + quoted_image(image_name@) + rest))
                &&& before.len() == 0 || before[before.len() - 1] == '\n'
                &&& all_white(blank)
                &&& one_line(blank)
                &&& one_line(image_name@)
            },
{
    lemma_listing_names(listing@, image_name@);
}

proof fn lemma_listing_names(listing: Seq<char>, image_name: Seq<char>)
    ensures
        listing_names(listing, image_name) <==> exists|
            before: Seq<char>,
            blank: Seq<char>,
            rest: Seq<char>,
        |
            {
                &&& listing == #[trigger] (before + (blank + quoted_image(image_name) + rest))
                &&& before.len() == 0 || before[before.len() - 1] == '\n'
                &&& all_white(blank)
                &&& one_line(blank)
                &&& one_line(image_name)
            },
{
    if listing_names(listing, image_name) {
        law_named_image_is_listed(listing, image_name);
    }
    if exists|before: Seq<char>, blank: Seq<char>, rest: Seq<char>|
        {
            &&& listing == #[trigger] (before + (blank + quoted_image(image_name) + rest))
            &&& before.len() == 0 || before[before.len() - 1] == '\n'
            &&& all_white(blank)
            &&& one_line(blank)
            &&& one_line(image_name)
        } {
        let (before, blank, rest) = choose|before: Seq<char>, blank: Seq<char>, rest: Seq<char>|
            {
                &&& listing == #[trigger] (before + (blank + quoted_image(image_name) + rest))
                &&& before.len() == 0 || before[before.len() - 1] == '\n'
                &&& all_white(blank)
                &&& one_line(blank)
                &&& one_line(image_name)
            };
        law_listed_image_is_named(before, blank, image_name, rest);
    }
}

/// An image runs just where the list of processes has a row for it, and a list that could not be had
/// is an error.
pub proof fn law_guard_sees_running_image(
    image_name: &str,
    success: bool,
    exit_status: &str,
    stdout: &[u8],
    running: Result<bool, LaunchError>,
)
    requires
        call_ensures(process_is_running, (image_name, success, exit_status, stdout), running),
    ensures
        success <==> running is Ok,
        !success ==> (running matches Err(LaunchError::TasklistFailed { exit_status: told })
            && told@ == exit_status@),
        running matches Ok(found) ==> (found <==> exists|
            before: Seq<char>,
            blank: Seq<char>,
            rest: Seq<char>,
        |
            {
                &&& utf8_lossy(stdout@) == #[trigger] (before + (blank + quoted_image(image_name@)
                    + rest))
                &&& before.len() == 0 || before[before.len() - 1] == '\n'
                &&& all_white(blank)
                &&& one_line(blank)
                &&& one_line(image_name@)
            }),
        running matches Ok(found) ==> vstd::utf8::valid_utf8(stdout@) ==> (found <==> exists|
            before: Seq<char>,
            blank: Seq<char>,
            rest: Seq<char>,
        |
            {
                &&& vstd::utf8::decode_utf8(stdout@) == #[trigger] (before + (blank + quoted_image(
                    image_name@,
                ) + rest))
                &&& before.len() == 0 || before[before.len() - 1] == '\n'
                &&& all_white(blank)
                &&& one_line(blank)
                &&& one_line(image_name@)
            }),
{
    lemma_listing_names(utf8_lossy(stdout@), image_name@);
    lemma_listing_names(vstd::utf8::decode_utf8(stdout@), image_name@);
}

/// The list of processes is asked for the image alone, in rows and without a heading.
pub proof fn law_tasklist_is_asked_for_the_image(image_name: &str, args: Vec<String>)
    requires
        call_ensures(tasklist_args, (image_name,), args),
    ensures
        args@.len() == 5,
        args@[0]@ == "/FI"@,
        args@[1]@ == "IMAGENAME eq "@ + image_name@,
        args@[2]@ == "/FO"@,
        args@[3]@ == "CSV"@,
        args@[4]@ == "/NH"@,
{
    let all = texts(args@);
    assert(all.len() == args@.len());
    assert(all[0] == args@[0]@ && all[1] == args@[1]@ && all[2] == args@[2]@ && all[3]
        == args@[3]@ && all[4] == args@[4]@);
}

/// The lines of white space are white space.
proof fn lemma_blank_lines(s: Seq<char>)
    requires
        all_white(s),
    ensures
        forall|i: int| 0 <= i < lines(s).len() ==> all_white(#[trigger] lines(s)[i]),
        first_nonblank(lines(s)) is None,
{
    assert forall|i: int| 0 <= i < lines(s).len() implies all_white(#[trigger] lines(s)[i]) by {
        law_lines_stand_in_the_text(s, i);
        let line = lines(s)[i];
        let (before, behind) = choose|before: Seq<char>, behind: Seq<char>|
            s == #[trigger] (before + lines(s)[i] + behind) && (before.len() == 0
                || before[before.len() - 1] == '\n');
        assert forall|j: int| 0 <= j < line.len() implies white_space(#[trigger] line[j]) by {
            assert(line[j] == s[before.len() + j]);
        }
    }
    lemma_first_nonblank_behind(lines(s), seq![]);
    assert(lines(s) + Seq::<Seq<char>>::empty() == lines(s));
}

/// Blank lines are passed over.
proof fn lemma_first_nonblank_behind(blank: Seq<Seq<char>>, list: Seq<Seq<char>>)
    requires
        forall|i: int| 0 <= i < blank.len() ==> all_white(#[trigger] blank[i]),
    ensures
        first_nonblank(blank + list) == first_nonblank(list),
    decreases blank.len(),
{
    if blank.len() == 0 {
        assert(blank + list == list);
    } else {
        let empty = Seq::<char>::empty();
        assert(all_white(blank[0]));
        assert(blank[0] + empty + empty == blank[0]);
        law_trimmed(blank[0], empty, empty);
        assert((blank + list).skip(1) == blank.skip(1) + list);
        assert forall|i: int| 0 <= i < blank.skip(1).len() implies all_white(
            #[trigger] blank.skip(1)[i],
        ) by {
            assert(all_white(blank[i + 1]));
        }
        lemma_first_nonblank_behind(blank.skip(1), list);
    }
}

/// The answer of the package query names a location: behind white space, on a line of its own but
/// for white space around it, whatever stands on the lines behind.
pub open spec fn answer_names(
    answer: Seq<char>,
    before: Seq<char>,
    front: Seq<char>,
    location: Seq<char>,
    end: Seq<char>,
    rest: Seq<char>,
) -> bool {
    &&& answer == before + (front + location + end + rest)
    &&& all_white(before)
    &&& before.len() == 0 || before[before.len() - 1] == '\n'
    &&& all_white(front)
    &&& one_line(front)
    &&& location.len() > 0
    &&& one_line(location)
    &&& starts_dark(location)
    &&& ends_dark(location)
    &&& all_white(end)
    &&& one_line(end)
    &&& rest.len() == 0 || rest[0] == '\n'
}

/// The location is the first line that is more than white space, without the white space around it.
pub proof fn law_named_location(
    answer: Seq<char>,
    before: Seq<char>,
    front: Seq<char>,
    location: Seq<char>,
    end: Seq<char>,
    rest: Seq<char>,
)
    requires
        answer_names(answer, before, front, location, end, rest),
    ensures
        named_location(answer) == Some(location),
{
    let tail = front + location + end + rest;
    let row = front + location + end;
    assert(tail == row + rest);
    law_lines_concat(before, tail);
    lemma_blank_lines(before);
    lemma_first_nonblank_behind(lines(before), lines(tail));
    assert forall|i: int| 0 <= i < row.len() implies #[trigger] row[i] != '\n' by {
        if i < front.len() {
            assert(front[i] != '\n');
        } else if i < front.len() + location.len() {
            assert(location[i - front.len()] != '\n');
        } else {
            assert(end[i - front.len() - location.len()] != '\n');
        }
    }
    let first = lines(tail)[0];
    if rest.len() > 0 {
        let behind = rest.skip(1);
        assert(rest == seq!['\n'] + behind);
        assert(tail == row.push('\n') + behind);
        law_line_feed_ends_a_line(row, behind);
        if row[row.len() - 1] == '\r' {
            assert(white_space('\r'));
            if end.len() == 0 {
                assert(row[row.len() - 1] == location[location.len() - 1]);
            }
            let shorter = end.take(end.len() - 1);
            assert(first == front + location + shorter);
            assert forall|i: int| 0 <= i < shorter.len() implies white_space(
                #[trigger] shorter[i],
            ) by {
                assert(white_space(end[i]));
            }
            law_trimmed(front, location, shorter);
        } else {
            assert(first == row);
            law_trimmed(front, location, end);
        }
    } else {
        assert(tail == row);
        law_last_line_needs_no_line_feed(row);
        law_trimmed(front, location, end);
    }
    assert(first_nonblank(lines(tail)) == Some(location));
}

/// An answer of white space names no location.
pub proof fn law_blank_answer_names_nothing(answer: Seq<char>)
    requires
        all_white(answer),
    ensures
        named_location(answer) is None,
{
    lemma_blank_lines(answer);
}

/// The location is the first line of the answer that is more than white space, trimmed.
pub proof fn law_location_is_the_first_line(
    answer: &str,
    before: Seq<char>,
    front: Seq<char>,
    named: Seq<char>,
    end: Seq<char>,
    rest: Seq<char>,
    location: Option<String>,
)
    requires
        call_ensures(install_location, (answer,), location),
    ensures
        all_white(answer@) ==> location is None,
        answer_names(answer@, before, front, named, end, rest) ==> (location matches Some(text)
            && text@ == named),
{
    if all_white(answer@) {
        law_blank_answer_names_nothing(answer@);
    }
    if answer_names(answer@, before, front, named, end, rest) {
        law_named_location(answer@, before, front, named, end, rest);
    }
}

/// A query that succeeded gives the first line of its answer that is more than white space, or tells
/// that there is none; one that failed tells what it was asked for and what it told.
pub proof fn law_package_is_where_the_query_says(
    package_name: &str,
    success: bool,
    stdout: &[u8],
    stderr: &[u8],
    before: Seq<char>,
    front: Seq<char>,
    named: Seq<char>,
    end: Seq<char>,
    rest: Seq<char>,
    location: Result<String, LaunchError>,
)
    requires
        call_ensures(
            find_appx_install_location,
            (package_name, success, stdout, stderr),
            location,
        ),
    ensures
        success && all_white(utf8_lossy(stdout@)) ==> location == Err::<String, LaunchError>(
            LaunchError::EmptyInstallLocation,
        ),
        success && answer_names(utf8_lossy(stdout@), before, front, named, end, rest) ==> (location
            matches Ok(text) && text@ == named),
        success && vstd::utf8::valid_utf8(stdout@) && answer_names(
            vstd::utf8::decode_utf8(stdout@),
            before,
            front,
            named,
            end,
            rest,
        ) ==> (location matches Ok(text) && text@ == named),
        !success ==> (location matches Err(
            LaunchError::PackageQueryFailed { package_name: name, stderr: told },
        ) && name@ == package_name@ && told@ == utf8_lossy(stderr@)),
        !success && vstd::utf8::valid_utf8(stderr@) ==> (location matches Err(
            LaunchError::PackageQueryFailed { package_name: name, stderr: told },
        ) && told@ == vstd::utf8::decode_utf8(stderr@)),
{
    if all_white(utf8_lossy(stdout@)) {
        law_blank_answer_names_nothing(utf8_lossy(stdout@));
    }
    if answer_names(utf8_lossy(stdout@), before, front, named, end, rest) {
        law_named_location(utf8_lossy(stdout@), before, front, named, end, rest);
    }
    if answer_names(vstd::utf8::decode_utf8(stdout@), before, front, named, end, rest) {
        law_named_location(vstd::utf8::decode_utf8(stdout@), before, front, named, end, rest);
    }
}

/// The package query is one script for every package, but for the name of the package.
pub proof fn law_query_asks_for_the_package(package_name: &str, script: String)
    requires
        call_ensures(package_query_script, (package_name,), script),
    ensures
        script@ == "$pkg = Get-AppxPackage -Name '"@ + package_name@
            + "' | Sort-Object Version -Descending | Select-Object -First 1; if ($null -eq $pkg) { exit 2 }; Write-Output $pkg.InstallLocation"@,
{
}

/// PowerShell runs the script as it is, and reads no profile.
pub proof fn law_powershell_runs_the_script(script: &str, args: Vec<String>)
    requires
        call_ensures(powershell_args, (script,), args),
    ensures
        args@.len() == 6,
        args@[0]@ == "-NoProfile"@,
        args@[1]@ == "-NonInteractive"@,
        args@[2]@ == "-ExecutionPolicy"@,
        args@[3]@ == "Bypass"@,
        args@[4]@ == "-Command"@,
        args@[5]@ == script@,
{
    let all = texts(args@);
    assert(all.len() == args@.len());
    assert(all[0] == args@[0]@ && all[1] == args@[1]@ && all[2] == args@[2]@ && all[3]
        == args@[3]@ && all[4] == args@[4]@ && all[5] == args@[5]@);
}

/// The executable that was asked for is taken just where it is a file; without one, that of the
/// package is looked for; and one that is no file is told as it is displayed.
pub proof fn law_explicit_executable_is_taken(
    explicit: Option<ExeCandidate>,
    resolution: Resolution,
)
    requires
        call_ensures(resolve_codex_exe, (explicit,), resolution),
    ensures
        match resolution {
            Resolution::Found(path) => explicit matches Some(exe) && exe.is_file && path == exe.path,
            Resolution::Failed(error) => explicit matches Some(exe) && !exe.is_file && (error
                matches LaunchError::ExeMissing { path } && path@ == exe.display@),
            Resolution::UseDefault => explicit is None,
        },
{
}

/// The executable of the package is taken just where it is a file.
pub proof fn law_package_executable_is_taken(
    candidate: Option<ExeCandidate>,
    path: Result<PathBuf, LaunchError>,
)
    requires
        call_ensures(default_codex_exe_path, (candidate,), path),
    ensures
        match path {
            Ok(path) => candidate matches Some(exe) && exe.is_file && path == exe.path,
            Err(LaunchError::DefaultExeMissing { path: told }) => candidate matches Some(exe)
                && !exe.is_file && told@ == exe.display@,
            Err(error) => candidate is None && error == LaunchError::DiscoveryUnsupported,
        },
{
}

/// A process is a child of this name: it was started by the parent, and the name of its executable
/// is this name but for the case of ASCII letters.
pub open spec fn child_of_name(entry: ProcessEntry, parent_pid: u32, name: Seq<char>) -> bool {
    entry.parent_pid == parent_pid && texts_alike(entry.exe_name(), name)
}

proof fn lemma_first_child(entries: Seq<ProcessEntry>, parent_pid: u32, name: Seq<char>)
    ensures
        match first_child(entries, parent_pid, name) {
            Some(pid) => exists|i: int|
                {
                    &&& 0 <= i < entries.len()
                    &&& child_of_name(#[trigger] entries[i], parent_pid, name)
                    &&& entries[i].pid == pid
                    &&& forall|j: int|
                        0 <= j < i ==> !child_of_name(#[trigger] entries[j], parent_pid, name)
                },
            None => forall|i: int|
                0 <= i < entries.len() ==> !child_of_name(#[trigger] entries[i], parent_pid, name),
        },
    decreases entries.len(),
{
    if entries.len() > 0 {
        law_only_ascii_case_is_ignored(entries[0].exe_name(), name);
        if !child_of_name(entries[0], parent_pid, name) {
            let rest = entries.skip(1);
            lemma_first_child(rest, parent_pid, name);
            match first_child(rest, parent_pid, name) {
                Some(pid) => {
                    let k = choose|k: int|
                        {
                            &&& 0 <= k < rest.len()
                            &&& child_of_name(#[trigger] rest[k], parent_pid, name)
                            &&& rest[k].pid == pid
                            &&& forall|j: int|
                                0 <= j < k ==> !child_of_name(#[trigger] rest[j], parent_pid, name)
                        };
                    assert(entries[k + 1] == rest[k]);
                    assert forall|j: int| 0 <= j < k + 1 implies !child_of_name(
                        #[trigger] entries[j],
                        parent_pid,
                        name,
                    ) by {
                        if j > 0 {
                            assert(entries[j] == rest[j - 1]);
                        }
                    }
                },
                None => {
                    assert forall|i: int| 0 <= i < entries.len() implies !child_of_name(
                        #[trigger] entries[i],
                        parent_pid,
                        name,
                    ) by {
                        if i > 0 {
                            assert(entries[i] == rest[i - 1]);
                        }
                    }
                },
            }
        } else {
            assert(child_of_name(entries[0], parent_pid, name));
        }
    }
}

/// What is found by its name is the first child of that name, and nothing is found just where there
/// is none.
pub proof fn law_first_child_of_name_is_found(
    entries: &[ProcessEntry],
    parent_pid: u32,
    image_name: &str,
    pid: Option<u32>,
)
    requires
        call_ensures(find_child_process_by_name, (entries, parent_pid, image_name), pid),
    ensures
        match pid {
            Some(pid) => exists|i: int|
                {
                    &&& 0 <= i < entries@.len()
                    &&& child_of_name(#[trigger] entries@[i], parent_pid, image_name@)
                    &&& entries@[i].pid == pid
                    &&& forall|j: int|
                        0 <= j < i ==> !child_of_name(
                            #[trigger] entries@[j],
                            parent_pid,
                            image_name@,
                        )
                },
            None => forall|i: int|
                0 <= i < entries@.len() ==> !child_of_name(
                    #[trigger] entries@[i],
                    parent_pid,
                    image_name@,
                ),
        },
{
    lemma_first_child(entries@, parent_pid, image_name@);
}

/// A process is the app-server of the parent: a child named `codex.exe`, in a directory `resources`
/// where its path is told, and spelled just so where it is not.
pub open spec fn app_server_of(entry: ProcessEntry, parent_pid: u32) -> bool {
    &&& child_of_name(entry, parent_pid, "codex.exe"@)
    &&& match entry.image_path {
        Some(path) => exists|front: Seq<char>, end: Seq<char>|
            decoded(path@) == #[trigger] (front + end) && texts_alike(
                end,
                "\\resources\\codex.exe"@,
            ),
        None => entry.exe_name() == "codex.exe"@,
    }
}

/// Being the app-server depends on the parent, the name and the path, as told.
pub proof fn law_app_server_by_name_and_place(entry: ProcessEntry, parent_pid: u32)
    ensures
        entry.is_app_server(parent_pid) <==> app_server_of(entry, parent_pid),
{
    law_only_ascii_case_is_ignored(entry.exe_name(), "codex.exe"@);
    if let Some(path) = entry.image_path {
        lemma_suffix(decoded(path@), "\\resources\\codex.exe"@);
    }
}

/// What is found as the app-server is the first process that is the app-server, and nothing is found
/// just where there is none.
pub proof fn law_first_app_server_is_found(
    entries: &[ProcessEntry],
    parent_pid: u32,
    pid: Option<u32>,
)
    requires
        call_ensures(find_app_server, (entries, parent_pid), pid),
    ensures
        match pid {
            Some(pid) => exists|i: int|
                {
                    &&& 0 <= i < entries@.len()
                    &&& app_server_of(#[trigger] entries@[i], parent_pid)
                    &&& entries@[i].pid == pid
                    &&& forall|j: int|
                        0 <= j < i ==> !app_server_of(#[trigger] entries@[j], parent_pid)
                },
            None => forall|i: int|
                0 <= i < entries@.len() ==> !app_server_of(#[trigger] entries@[i], parent_pid),
        },
{
    lemma_first_app_server(entries@, parent_pid);
}

/// The first app-server of a list.
pub proof fn lemma_first_app_server(entries: Seq<ProcessEntry>, parent_pid: u32)
    ensures
        match first_app_server(entries, parent_pid) {
            Some(pid) => exists|i: int|
                {
                    &&& 0 <= i < entries.len()
                    &&& app_server_of(#[trigger] entries[i], parent_pid)
                    &&& entries[i].pid == pid
                    &&& forall|j: int|
                        0 <= j < i ==> !app_server_of(#[trigger] entries[j], parent_pid)
                },
            None => forall|i: int|
                0 <= i < entries.len() ==> !app_server_of(#[trigger] entries[i], parent_pid),
        },
{
    law_found_app_server_is_the_app_server(entries, parent_pid);
    assert forall|i: int| 0 <= i < entries.len() implies (app_server_of(
        #[trigger] entries[i],
        parent_pid,
    ) <==> entries[i].is_app_server(parent_pid)) by {
        law_app_server_by_name_and_place(entries[i], parent_pid);
    }
}

} // verus!
