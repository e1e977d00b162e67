//! Arguments quoted for a Windows command line, and strings quoted for PowerShell.

use vstd::prelude::*;

use crate::text::{
    chars_of, is_white_space, join, joined, push_repeated, repeated, texts, white_space,
};

verus! {

/// How many backslashes `s` ends in.
pub open spec fn trailing_backslashes(s: Seq<char>) -> nat
    decreases s.len(),
{
    if s.len() > 0 && s.last() == '\\' {
        1 + trailing_backslashes(s.drop_last())
    } else {
        0
    }
}

/// An argument whose text would be lost or split without quotes: an empty one, or one that holds
/// white space or a double quote.
pub open spec fn needs_quotes(arg: Seq<char>) -> bool {
    arg.len() == 0 || exists|i: int|
        0 <= i < arg.len() && (#[trigger] arg[i] == '"' || white_space(arg[i]))
}

/// The text of an argument between the quotes: before each double quote stands one backslash, and
/// the backslashes that ran up to that quote stand twice.
pub open spec fn escaped(arg: Seq<char>) -> Seq<char>
    decreases arg.len(),
{
    if arg.len() == 0 {
        seq![]
    } else {
        let before = arg.drop_last();
        if arg.last() == '"' {
            (escaped(before) + repeated('\\', trailing_backslashes(before) + 1)).push('"')
        } else {
            escaped(before).push(arg.last())
        }
    }
}

/// An argument as it stands on a Windows command line. The backslashes at the end of a quoted one
/// stand twice, so that none of them escapes the closing quote.
pub open spec fn windows_quoted(arg: Seq<char>) -> Seq<char> {
    if needs_quotes(arg) {
        (seq!['"'] + escaped(arg) + repeated('\\', trailing_backslashes(arg))).push('"')
    } else {
        arg
    }
}

/// The command line that starts `executable` with `args`.
pub open spec fn direct_command(executable: Seq<char>, args: Seq<Seq<char>>) -> Seq<char> {
    joined((seq![executable] + args).map_values(|arg: Seq<char>| windows_quoted(arg)), seq![' '])
}

/// A value inside a single-quoted PowerShell string: an apostrophe stands twice.
pub open spec fn powershell_escaped(value: Seq<char>) -> Seq<char>
    decreases value.len(),
{
    if value.len() == 0 {
        seq![]
    } else if value.last() == '\'' {
        powershell_escaped(value.drop_last()).push('\'').push('\'')
    } else {
        powershell_escaped(value.drop_last()).push(value.last())
    }
}

/// A value as a single-quoted PowerShell string.
pub open spec fn powershell_quoted(value: Seq<char>) -> Seq<char> {
    (seq!['\''] + powershell_escaped(value)).push('\'')
}

/// Quotes an argument for a Windows command line where it needs quotes.
pub fn quote_windows_arg(arg: &str) -> (quoted: String)
    ensures
        quoted@ == windows_quoted(arg@),
{
    let chars = chars_of(arg);
    let mut plain = chars.len() > 0;
    let mut i: usize = 0;
    while i < chars.len()
        invariant
            i <= chars@.len(),
            chars@ == arg@,
            plain == (chars@.len() > 0 && forall|j: int|
                0 <= j < i ==> #[trigger] chars@[j] != '"' && !white_space(chars@[j])),
        decreases chars@.len() - i,
    {
        if chars[i] == '"' || is_white_space(chars[i]) {
            plain = false;
        }
        i = i + 1;
    }
    if plain {
        return arg.to_string();
    }
    let mut quoted = String::new();
    quoted.push('"');
    let mut backslashes: usize = 0;
    i = 0;
    while i < chars.len()
        invariant
            i <= chars@.len(),
            backslashes <= i,
            backslashes == trailing_backslashes(chars@.take(i as int)),
            quoted@ + repeated('\\', backslashes as nat) == seq!['"'] + escaped(
                chars@.take(i as int),
            ),
        decreases chars@.len() - i,
    {
        let c = chars[i];
        let ghost before = chars@.take(i as int);
        assert(chars@.take(i + 1).drop_last() == before);
        assert(chars@.take(i + 1).last() == c);
        if c == '\\' {
            assert(repeated('\\', (backslashes + 1) as nat) == repeated(
                '\\',
                backslashes as nat,
            ).push('\\'));
            assert(quoted@ + repeated('\\', (backslashes + 1) as nat) == (quoted@ + repeated(
                '\\',
                backslashes as nat,
            )).push('\\'));
            backslashes = backslashes + 1;
        } else if c == '"' {
            push_repeated(&mut quoted, '\\', backslashes);
            push_repeated(&mut quoted, '\\', backslashes);
            quoted.push('\\');
            quoted.push('"');
            assert(repeated('\\', (backslashes + 1) as nat) == repeated(
                '\\',
                backslashes as nat,
            ).push('\\'));
            backslashes = 0;
            assert(quoted@ + repeated('\\', 0) == quoted@);
            assert(quoted@ == seq!['"'] + escaped(chars@.take(i + 1)));
        } else {
            push_repeated(&mut quoted, '\\', backslashes);
            backslashes = 0;
            quoted.push(c);
            assert(quoted@ + repeated('\\', 0) == quoted@);
        }
        i = i + 1;
    }
    assert(chars@.take(i as int) == arg@);
    push_repeated(&mut quoted, '\\', backslashes);
    push_repeated(&mut quoted, '\\', backslashes);
    quoted.push('"');
    quoted
}

/// The command line that starts `executable`, given as its path is displayed, with `args`.
pub fn format_direct_command(executable: &str, args: &[String]) -> (command: String)
    ensures
        command@ == direct_command(executable@, texts(args@)),
{
    let mut parts: Vec<String> = Vec::new();
    parts.push(quote_windows_arg(executable));
    let ghost words = seq![executable@] + texts(args@);
    let ghost quoted = words.map_values(|arg: Seq<char>| windows_quoted(arg));
    let mut i: usize = 0;
    assert(texts(parts@) == quoted.take(1));
    while i < args.len()
        invariant
            i <= args@.len(),
            words == seq![executable@] + texts(args@),
            quoted == words.map_values(|arg: Seq<char>| windows_quoted(arg)),
            texts(parts@) == quoted.take(i + 1),
        decreases args@.len() - i,
    {
        let ghost before = texts(parts@);
        let part = quote_windows_arg(args[i].as_str());
        assert(words[i + 1] == args@[i as int]@);
        parts.push(part);
        assert(texts(parts@) == before.push(part@));
        assert(quoted.take(i + 2) == quoted.take(i + 1).push(quoted[i + 1]));
        i = i + 1;
    }
    assert(quoted.take(i + 1) == quoted);
    proof {
        reveal_strlit(" ");
        assert(" "@ == seq![' ']);
    }
    join(&parts, " ")
}

/// Quotes a value as a single-quoted PowerShell string.
pub fn quote_powershell_string(value: &str) -> (quoted: String)
    ensures
        quoted@ == powershell_quoted(value@),
{
    let chars = chars_of(value);
    let mut quoted = String::new();
    quoted.push('\'');
    let mut i: usize = 0;
    while i < chars.len()
        invariant
            i <= chars@.len(),
            quoted@ == seq!['\''] + powershell_escaped(chars@.take(i as int)),
        decreases chars@.len() - i,
    {
        assert(chars@.take(i + 1).drop_last() == chars@.take(i as int));
        assert(chars@.take(i + 1).last() == chars@[i as int]);
        if chars[i] == '\'' {
            quoted.push('\'');
        }
        quoted.push(chars[i]);
        i = i + 1;
    }
    assert(chars@.take(i as int) == value@);
    quoted.push('\'');
    quoted
}

} // verus!
