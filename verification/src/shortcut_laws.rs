//! What holds of the script that makes the Start Menu shortcut.

use vstd::prelude::*;

use crate::command_line::{
    law_powershell_string_reads_back, read_powershell_body, read_powershell_string,
};
use crate::error::LaunchError;
use crate::install::{create_start_menu_shortcut, shortcut_script};
use crate::quoting::{powershell_escaped, powershell_quoted};

verus! {

/// The values of the single-quoted strings in PowerShell code that has no others and no comments,
/// in order.
pub open spec fn powershell_values(code: Seq<char>) -> Seq<Seq<char>>
    decreases code.len(),
    via powershell_values_decreases
{
    if code.len() == 0 {
        seq![]
    } else if code[0] != '\'' {
        powershell_values(code.skip(1))
    } else {
        match read_powershell_body(code.skip(1)) {
            Some((value, rest)) => seq![value] + powershell_values(rest),
            None => seq![],
        }
    }
}

#[via_fn]
proof fn powershell_values_decreases(code: Seq<char>) {
    if code.len() > 0 {
        lemma_read_powershell_body_shortens(code.skip(1));
    }
}

/// What follows a string is shorter than the string and what follows it.
proof fn lemma_read_powershell_body_shortens(code: Seq<char>)
    ensures
        read_powershell_body(code) matches Some((value, rest)) ==> rest.len() < code.len(),
    decreases code.len(),
{
    if code.len() > 0 {
        if code[0] != '\'' {
            lemma_read_powershell_body_shortens(code.skip(1));
        } else if code.len() > 1 && code[1] == '\'' {
            lemma_read_powershell_body_shortens(code.skip(2));
        }
    }
}

/// Code without an apostrophe holds no value.
proof fn lemma_values_behind_code(code: Seq<char>, rest: Seq<char>)
    requires
        forall|i: int| 0 <= i < code.len() ==> #[trigger] code[i] != '\'',
    ensures
        powershell_values(code + rest) == powershell_values(rest),
    decreases code.len(),
{
    if code.len() == 0 {
        assert(code + rest == rest);
    } else {
        assert((code + rest).skip(1) == code.skip(1) + rest);
        assert(code[0] != '\'');
        lemma_values_behind_code(code.skip(1), rest);
    }
}

/// A quoted value is the first value of the code that it begins.
proof fn lemma_values_behind_value(value: Seq<char>, rest: Seq<char>)
    requires
        rest.len() > 0 ==> rest[0] != '\'',
    ensures
        powershell_values(powershell_quoted(value) + rest) == seq![value] + powershell_values(rest),
{
    law_powershell_string_reads_back(value, rest);
    assert(read_powershell_string(powershell_quoted(value) + rest) is Some);
}

/// The code before the path of the shortcut holds one value.
proof fn lemma_values_behind_head(rest: Seq<char>)
    ensures
        powershell_values(
            "\n$ErrorActionPreference = 'Stop'\n$shell = New-Object -ComObject WScript.Shell\n$shortcut = $shell.CreateShortcut("@ + rest,
        ) == seq!["Stop"@] + powershell_values(rest),
{
    let head = "\n$ErrorActionPreference = 'Stop'\n$shell = New-Object -ComObject WScript.Shell\n$shortcut = $shell.CreateShortcut("@;
    reveal_strlit(
        "\n$ErrorActionPreference = 'Stop'\n$shell = New-Object -ComObject WScript.Shell\n$shortcut = $shell.CreateShortcut(",
    );
    reveal_strlit("Stop");
    let before = head.take(26);
    let behind = head.skip(32);
    assert(powershell_escaped("Stop"@) == "Stop"@) by {
        reveal_with_fuel(powershell_escaped, 5);
    }
    assert(head.subrange(26, 32) == powershell_quoted("Stop"@));
    assert(head + rest == before + (powershell_quoted("Stop"@) + (behind + rest)));
    lemma_values_behind_code(before, powershell_quoted("Stop"@) + (behind + rest));
    lemma_values_behind_value("Stop"@, behind + rest);
    lemma_values_behind_code(behind, rest);
}

/// Whatever the paths hold, the strings of the script are these paths, the argument `launch` and
/// the icon of the executable: the shortcut starts the installed launcher with `launch`.
pub proof fn law_shortcut_script_reads_back(
    shortcut: Seq<char>,
    target: Seq<char>,
    working_dir: Seq<char>,
    icon: Seq<char>,
)
    ensures
        powershell_values(shortcut_script(shortcut, target, working_dir, icon)) == seq![
            "Stop"@,
            shortcut,
            target,
            "launch"@,
            working_dir,
            icon + ",0"@,
        ],
{
    reveal_strlit(")\n$shortcut.TargetPath = ");
    reveal_strlit("\n$shortcut.Arguments = ");
    reveal_strlit("\n$shortcut.WorkingDirectory = ");
    reveal_strlit("\n$shortcut.IconLocation = ");
    reveal_strlit("\n$shortcut.Save()\n");
    let end = "\n$shortcut.Save()\n"@;
    let at_icon = powershell_quoted(icon + ",0"@) + end;
    let to_icon = "\n$shortcut.IconLocation = "@ + at_icon;
    let at_dir = powershell_quoted(working_dir) + to_icon;
    let to_dir = "\n$shortcut.WorkingDirectory = "@ + at_dir;
    let at_args = powershell_quoted("launch"@) + to_dir;
    let to_args = "\n$shortcut.Arguments = "@ + at_args;
    let at_target = powershell_quoted(target) + to_args;
    let to_target = ")\n$shortcut.TargetPath = "@ + at_target;
    let at_shortcut = powershell_quoted(shortcut) + to_target;
    assert(shortcut_script(shortcut, target, working_dir, icon)
        == "\n$ErrorActionPreference = 'Stop'\n$shell = New-Object -ComObject WScript.Shell\n$shortcut = $shell.CreateShortcut("@
        + at_shortcut);
    lemma_values_behind_head(at_shortcut);
    lemma_values_behind_value(shortcut, to_target);
    lemma_values_behind_code(")\n$shortcut.TargetPath = "@, at_target);
    lemma_values_behind_value(target, to_args);
    lemma_values_behind_code("\n$shortcut.Arguments = "@, at_args);
    lemma_values_behind_value("launch"@, to_dir);
    lemma_values_behind_code("\n$shortcut.WorkingDirectory = "@, at_dir);
    lemma_values_behind_value(working_dir, to_icon);
    lemma_values_behind_code("\n$shortcut.IconLocation = "@, at_icon);
    lemma_values_behind_value(icon + ",0"@, end);
    lemma_values_behind_code(end, seq![]);
    assert(end + Seq::<char>::empty() == end);
    assert(powershell_values(end) == Seq::<Seq<char>>::empty());
}

/// PowerShell code with every single-quoted string made empty: what the code does, but for the values
/// of its strings.
pub open spec fn powershell_skeleton(code: Seq<char>) -> Seq<char>
    decreases code.len(),
    via powershell_skeleton_decreases
{
    if code.len() == 0 {
        seq![]
    } else if code[0] != '\'' {
        seq![code[0]] + powershell_skeleton(code.skip(1))
    } else {
        match read_powershell_body(code.skip(1)) {
            Some((value, rest)) => seq!['\'', '\''] + powershell_skeleton(rest),
            None => code,
        }
    }
}

#[via_fn]
proof fn powershell_skeleton_decreases(code: Seq<char>) {
    if code.len() > 0 {
        lemma_read_powershell_body_shortens(code.skip(1));
    }
}

/// Code without an apostrophe stands in the skeleton as it is.
proof fn lemma_skeleton_behind_code(code: Seq<char>, rest: Seq<char>)
    requires
        forall|i: int| 0 <= i < code.len() ==> #[trigger] code[i] != '\'',
    ensures
        powershell_skeleton(code + rest) == code + powershell_skeleton(rest),
    decreases code.len(),
{
    if code.len() == 0 {
        assert(code + rest == rest);
        assert(code + powershell_skeleton(rest) == powershell_skeleton(rest));
    } else {
        assert((code + rest).skip(1) == code.skip(1) + rest);
        assert(code[0] != '\'');
        lemma_skeleton_behind_code(code.skip(1), rest);
        assert(code == seq![code[0]] + code.skip(1));
        assert(powershell_skeleton(code + rest) == code + powershell_skeleton(rest));
    }
}

/// A quoted value stands in the skeleton as an empty string.
proof fn lemma_skeleton_behind_value(value: Seq<char>, rest: Seq<char>)
    requires
        rest.len() > 0 ==> rest[0] != '\'',
    ensures
        powershell_skeleton(powershell_quoted(value) + rest) == seq!['\'', '\'']
            + powershell_skeleton(rest),
{
    law_powershell_string_reads_back(value, rest);
    assert(read_powershell_string(powershell_quoted(value) + rest) is Some);
}

/// The skeleton of the code before the path of the shortcut is the same whatever follows.
proof fn lemma_skeleton_behind_head(rest: Seq<char>)
    ensures
        powershell_skeleton(
            "\n$ErrorActionPreference = 'Stop'\n$shell = New-Object -ComObject WScript.Shell\n$shortcut = $shell.CreateShortcut("@ + rest,
        ) == "\n$ErrorActionPreference = 'Stop'\n$shell = New-Object -ComObject WScript.Shell\n$shortcut = $shell.CreateShortcut("@.take(27) + "\n$ErrorActionPreference = 'Stop'\n$shell = New-Object -ComObject WScript.Shell\n$shortcut = $shell.CreateShortcut("@.skip(31) + powershell_skeleton(rest),
{
    let head = "\n$ErrorActionPreference = 'Stop'\n$shell = New-Object -ComObject WScript.Shell\n$shortcut = $shell.CreateShortcut("@;
    reveal_strlit(
        "\n$ErrorActionPreference = 'Stop'\n$shell = New-Object -ComObject WScript.Shell\n$shortcut = $shell.CreateShortcut(",
    );
    reveal_strlit("Stop");
    let before = head.take(26);
    let behind = head.skip(32);
    assert(powershell_escaped("Stop"@) == "Stop"@) by {
        reveal_with_fuel(powershell_escaped, 5);
    }
    assert(head.subrange(26, 32) == powershell_quoted("Stop"@));
    assert(head + rest == before + (powershell_quoted("Stop"@) + (behind + rest)));
    lemma_skeleton_behind_code(before, powershell_quoted("Stop"@) + (behind + rest));
    lemma_skeleton_behind_value("Stop"@, behind + rest);
    lemma_skeleton_behind_code(behind, rest);
    assert(head.take(27) == before.push('\''));
    assert(head.skip(31) == seq!['\''] + behind);
    assert(before + (seq!['\'', '\''] + (behind + powershell_skeleton(rest))) == head.take(27)
        + head.skip(31) + powershell_skeleton(rest));
}

/// The skeleton of the script is that of the fixed code.
proof fn lemma_script_skeleton(
    shortcut: Seq<char>,
    target: Seq<char>,
    working_dir: Seq<char>,
    icon: Seq<char>,
)
    ensures
        powershell_skeleton(shortcut_script(shortcut, target, working_dir, icon))
            == "\n$ErrorActionPreference = 'Stop'\n$shell = New-Object -ComObject WScript.Shell\n$shortcut = $shell.CreateShortcut("@.take(27) + "\n$ErrorActionPreference = 'Stop'\n$shell = New-Object -ComObject WScript.Shell\n$shortcut = $shell.CreateShortcut("@.skip(31)
            + (seq!['\'', '\''] + (")\n$shortcut.TargetPath = "@ + (seq!['\'', '\''] + (
        "\n$shortcut.Arguments = "@ + (seq!['\'', '\''] + ("\n$shortcut.WorkingDirectory = "@ + (seq![
            '\'',
            '\'',
        ] + ("\n$shortcut.IconLocation = "@ + (seq!['\'', '\''] + "\n$shortcut.Save()\n"@))))))))),
{
    reveal_strlit(")\n$shortcut.TargetPath = ");
    reveal_strlit("\n$shortcut.Arguments = ");
    reveal_strlit("\n$shortcut.WorkingDirectory = ");
    reveal_strlit("\n$shortcut.IconLocation = ");
    reveal_strlit("\n$shortcut.Save()\n");
    let end = "\n$shortcut.Save()\n"@;
    let at_icon = powershell_quoted(icon + ",0"@) + end;
    let to_icon = "\n$shortcut.IconLocation = "@ + at_icon;
    let at_dir = powershell_quoted(working_dir) + to_icon;
    let to_dir = "\n$shortcut.WorkingDirectory = "@ + at_dir;
    let at_args = powershell_quoted("launch"@) + to_dir;
    let to_args = "\n$shortcut.Arguments = "@ + at_args;
    let at_target = powershell_quoted(target) + to_args;
    let to_target = ")\n$shortcut.TargetPath = "@ + at_target;
    let at_shortcut = powershell_quoted(shortcut) + to_target;
    assert(shortcut_script(shortcut, target, working_dir, icon)
        == "\n$ErrorActionPreference = 'Stop'\n$shell = New-Object -ComObject WScript.Shell\n$shortcut = $shell.CreateShortcut("@
        + at_shortcut);
    lemma_skeleton_behind_head(at_shortcut);
    lemma_skeleton_behind_value(shortcut, to_target);
    lemma_skeleton_behind_code(")\n$shortcut.TargetPath = "@, at_target);
    lemma_skeleton_behind_value(target, to_args);
    lemma_skeleton_behind_code("\n$shortcut.Arguments = "@, at_args);
    lemma_skeleton_behind_value("launch"@, to_dir);
    lemma_skeleton_behind_code("\n$shortcut.WorkingDirectory = "@, at_dir);
    lemma_skeleton_behind_value(working_dir, to_icon);
    lemma_skeleton_behind_code("\n$shortcut.IconLocation = "@, at_icon);
    lemma_skeleton_behind_value(icon + ",0"@, end);
    lemma_skeleton_behind_code(end, seq![]);
    assert(end + Seq::<char>::empty() == end);
    assert(powershell_skeleton(end) == end);
}

/// What the script does is the same for all paths: two scripts differ in the values of their strings
/// alone.
pub proof fn law_scripts_differ_in_their_strings_alone(
    shortcut: Seq<char>,
    target: Seq<char>,
    working_dir: Seq<char>,
    icon: Seq<char>,
    shortcut2: Seq<char>,
    target2: Seq<char>,
    working_dir2: Seq<char>,
    icon2: Seq<char>,
)
    ensures
        powershell_skeleton(shortcut_script(shortcut, target, working_dir, icon))
            == powershell_skeleton(shortcut_script(shortcut2, target2, working_dir2, icon2)),
{
    lemma_script_skeleton(shortcut, target, working_dir, icon);
    lemma_script_skeleton(shortcut2, target2, working_dir2, icon2);
}

/// There is a script just where shortcuts can be made and all three paths are text; its strings are
/// these paths, the argument `launch` and the icon, and what it does is the same for all paths.
/// Without a script the first thing that stands against it is told.
pub proof fn law_shortcut_is_made_of_its_paths(
    supported: bool,
    shortcut_path: Option<&str>,
    target_exe: Option<&str>,
    working_dir: Option<&str>,
    icon_path: &str,
    script: Result<String, LaunchError>,
)
    requires
        call_ensures(
            create_start_menu_shortcut,
            (supported, shortcut_path, target_exe, working_dir, icon_path),
            script,
        ),
    ensures
        script is Ok <==> supported && shortcut_path is Some && target_exe is Some
            && working_dir is Some,
        script matches Ok(text) ==> {
            &&& powershell_values(text@) == seq![
                "Stop"@,
                shortcut_path->0@,
                target_exe->0@,
                "launch"@,
                working_dir->0@,
                icon_path@ + ",0"@,
            ]
            &&& powershell_skeleton(text@) == powershell_skeleton(
                shortcut_script(seq![], seq![], seq![], seq![]),
            )
        },
        script matches Err(error) ==> if !supported {
            error is ShortcutUnsupported
        } else if shortcut_path is None {
            error is ShortcutPathNotUtf8
        } else if target_exe is None {
            error is TargetPathNotUtf8
        } else {
            error is WorkingDirNotUtf8
        },
{
    if let Ok(text) = script {
        law_shortcut_script_reads_back(
            shortcut_path->0@,
            target_exe->0@,
            working_dir->0@,
            icon_path@,
        );
        law_scripts_differ_in_their_strings_alone(
            shortcut_path->0@,
            target_exe->0@,
            working_dir->0@,
            icon_path@,
            seq![],
            seq![],
            seq![],
            seq![],
        );
    }
}

} // verus!
