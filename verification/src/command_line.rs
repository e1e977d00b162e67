//! How a Windows command line is read back into arguments, and how a single-quoted PowerShell
//! string is read back into its value: what is quoted is read back unchanged.

use vstd::prelude::*;

use crate::quoting::{
    direct_command, escaped, needs_quotes, powershell_escaped, powershell_quoted,
    trailing_backslashes, windows_quoted,
};
use crate::text::{joined, repeated, white_space};

verus! {

/// A command line that has been read up to some place.
pub struct Reading {
    /// The arguments that have ended.
    pub done: Seq<Seq<char>>,
    /// The argument that has begun, without the backslashes that were read last.
    pub current: Option<Seq<char>>,
    /// The backslashes that were read last: what they mean depends on what follows.
    pub backslashes: nat,
    /// Inside double quotes.
    pub quoted: bool,
}

impl Reading {
    /// The start of a command line.
    pub open spec fn start() -> Reading {
        Reading { done: seq![], current: None, backslashes: 0, quoted: false }
    }

    /// The argument that has begun, or an empty one.
    pub open spec fn text(self) -> Seq<char> {
        match self.current {
            Some(text) => text,
            None => seq![],
        }
    }

    /// Reads one more character. An even number of backslashes before a double quote stands for
    /// half of them, and the quote opens or closes; an odd number stands for half of them,
    /// rounded down, and a literal quote. Other backslashes stand for themselves. Spaces and tabs
    /// outside quotes end an argument.
    pub open spec fn step(self, c: char) -> Reading {
        let literal = self.text() + repeated('\\', self.backslashes);
        let halved = self.text() + repeated('\\', self.backslashes / 2);
        if c == '\\' {
            Reading { current: Some(self.text()), backslashes: self.backslashes + 1, ..self }
        } else if c == '"' && self.backslashes % 2 == 1 {
            Reading { current: Some(halved.push('"')), backslashes: 0, ..self }
        } else if c == '"' {
            Reading { current: Some(halved), backslashes: 0, quoted: !self.quoted, ..self }
        } else if (c == ' ' || c == '\t') && !self.quoted {
            if self.current is Some {
                Reading { done: self.done.push(literal), current: None, backslashes: 0, ..self }
            } else {
                self
            }
        } else {
            Reading { current: Some(literal.push(c)), backslashes: 0, ..self }
        }
    }

    /// Reads all of `line`.
    pub open spec fn read(self, line: Seq<char>) -> Reading
        decreases line.len(),
    {
        if line.len() == 0 {
            self
        } else {
            self.read(line.drop_last()).step(line.last())
        }
    }

    /// The arguments, where the line ends here.
    pub open spec fn finish(self) -> Seq<Seq<char>> {
        if self.current is Some {
            self.done.push(self.text() + repeated('\\', self.backslashes))
        } else {
            self.done
        }
    }
}

/// The arguments that Windows reads from a command line.
pub open spec fn split_command_line(line: Seq<char>) -> Seq<Seq<char>> {
    Reading::start().read(line).finish()
}

/// The value of the single-quoted PowerShell string that opened just before `code`, and what
/// follows its closing apostrophe: two apostrophes stand for one.
pub open spec fn read_powershell_body(code: Seq<char>) -> Option<(Seq<char>, Seq<char>)>
    decreases code.len(),
{
    if code.len() == 0 {
        None
    } else if code[0] != '\'' {
        match read_powershell_body(code.skip(1)) {
            Some((value, rest)) => Some((seq![code[0]] + value, rest)),
            None => None,
        }
    } else if code.len() > 1 && code[1] == '\'' {
        match read_powershell_body(code.skip(2)) {
            Some((value, rest)) => Some((seq!['\''] + value, rest)),
            None => None,
        }
    } else {
        Some((seq![], code.skip(1)))
    }
}

/// The value of the single-quoted PowerShell string at the start of `code`, and what follows it.
pub open spec fn read_powershell_string(code: Seq<char>) -> Option<(Seq<char>, Seq<char>)> {
    if code.len() > 0 && code[0] == '\'' {
        read_powershell_body(code.skip(1))
    } else {
        None
    }
}

/// Reading two texts one behind the other is reading the first and then the second.
proof fn lemma_read_concat(from: Reading, a: Seq<char>, b: Seq<char>)
    ensures
        from.read(a + b) == from.read(a).read(b),
    decreases b.len(),
{
    if b.len() == 0 {
        assert(a + b == a);
    } else {
        assert((a + b).drop_last() == a + b.drop_last());
        lemma_read_concat(from, a, b.drop_last());
    }
}

/// Backslashes inside an argument are counted.
proof fn lemma_read_backslashes(from: Reading, n: nat)
    requires
        from.current is Some,
    ensures
        from.read(repeated('\\', n)) == (Reading { backslashes: from.backslashes + n, ..from }),
    decreases n,
{
    let run = repeated('\\', n);
    if n > 0 {
        assert(run.drop_last() == repeated('\\', (n - 1) as nat));
        lemma_read_backslashes(from, (n - 1) as nat);
    }
}

/// A text and the backslashes that it ends in.
proof fn lemma_trailing_backslashes(s: Seq<char>)
    ensures
        trailing_backslashes(s) <= s.len(),
        s == s.take(s.len() - trailing_backslashes(s)) + repeated('\\', trailing_backslashes(s)),
    decreases s.len(),
{
    if s.len() > 0 && s.last() == '\\' {
        let before = s.drop_last();
        lemma_trailing_backslashes(before);
        assert(s.take(s.len() - trailing_backslashes(s)) == before.take(
            before.len() - trailing_backslashes(before),
        ));
        assert(s == before.push('\\'));
    }
}

/// Reading the text between the quotes of an argument gives the argument.
proof fn lemma_read_escaped(done: Seq<Seq<char>>, arg: Seq<char>)
    ensures
        (Reading { done, current: Some(seq![]), backslashes: 0, quoted: true }).read(escaped(arg))
            == (Reading {
            done,
            current: Some(arg.take(arg.len() - trailing_backslashes(arg))),
            backslashes: trailing_backslashes(arg),
            quoted: true,
        }),
    decreases arg.len(),
{
    let opened = Reading { done, current: Some(seq![]), backslashes: 0, quoted: true };
    if arg.len() == 0 {
        assert(arg.take(0) == Seq::<char>::empty());
    } else {
        let before = arg.drop_last();
        let c = arg.last();
        let n = trailing_backslashes(before);
        lemma_read_escaped(done, before);
        lemma_trailing_backslashes(before);
        let middle = opened.read(escaped(before));
        if c == '"' {
            let run = repeated('\\', n + 1);
            let head = escaped(before) + run;
            lemma_read_concat(opened, escaped(before), run);
            lemma_read_backslashes(middle, n + 1);
            assert(escaped(arg).drop_last() == head);
            assert(opened.read(head).backslashes == 2 * n + 1);
            assert((2 * n + 1) / 2 == n && (2 * n + 1) % 2 == 1);
            assert(arg == before.push('"'));
            assert(arg.take(arg.len() as int) == arg);
        } else {
            assert(escaped(arg).drop_last() == escaped(before));
            assert(arg == before.push(c));
            if c == '\\' {
                assert(arg.take(arg.len() - trailing_backslashes(arg)) == before.take(
                    before.len() - n,
                ));
            } else {
                assert(arg.take(arg.len() as int) == arg);
            }
        }
    }
}

/// Reading an argument that needs no quotes gives the argument.
proof fn lemma_read_plain(done: Seq<Seq<char>>, arg: Seq<char>)
    requires
        arg.len() > 0,
        forall|i: int| 0 <= i < arg.len() ==> #[trigger] arg[i] != '"' && arg[i] != ' ' && arg[i]
            != '\t',
    ensures
        (Reading { done, current: None, backslashes: 0, quoted: false }).read(arg) == (Reading {
            done,
            current: Some(arg.take(arg.len() - trailing_backslashes(arg))),
            backslashes: trailing_backslashes(arg),
            quoted: false,
        }),
    decreases arg.len(),
{
    let idle = Reading { done, current: None, backslashes: 0, quoted: false };
    let before = arg.drop_last();
    let c = arg.last();
    assert(arg == before.push(c));
    lemma_trailing_backslashes(before);
    if before.len() > 0 {
        assert forall|i: int| 0 <= i < before.len() implies #[trigger] before[i] != '"'
            && before[i] != ' ' && before[i] != '\t' by {
            assert(before[i] == arg[i]);
        }
        lemma_read_plain(done, before);
    } else {
        assert(idle.read(before) == idle);
        assert(before.take(0) == Seq::<char>::empty());
    }
    if c == '\\' {
        assert(arg.take(arg.len() - trailing_backslashes(arg)) == before.take(
            before.len() - trailing_backslashes(before),
        ));
    } else {
        assert(idle.read(before).text() + repeated('\\', idle.read(before).backslashes) == before);
        assert(arg.take(arg.len() as int) == arg);
    }
}

/// From between two arguments, reading a quoted argument begins that argument and leaves it open
/// to what follows, outside quotes.
proof fn lemma_read_quoted(done: Seq<Seq<char>>, arg: Seq<char>)
    ensures
        ({
            let after = (Reading { done, current: None, backslashes: 0, quoted: false }).read(
                windows_quoted(arg),
            );
            &&& after.done == done
            &&& after.current is Some
            &&& after.text() + repeated('\\', after.backslashes) == arg
            &&& !after.quoted
        }),
{
    let idle = Reading { done, current: None, backslashes: 0, quoted: false };
    lemma_trailing_backslashes(arg);
    if needs_quotes(arg) {
        let n = trailing_backslashes(arg);
        let opened = Reading { done, current: Some(seq![]), backslashes: 0, quoted: true };
        let open = seq!['"'];
        let run = repeated('\\', n);
        assert(idle.read(open) == opened) by {
            reveal_with_fuel(Reading::read, 2);
            assert(idle.text() + repeated('\\', 0) == Seq::<char>::empty());
            assert(open.drop_last() == Seq::<char>::empty());
        }
        lemma_read_concat(idle, open, escaped(arg));
        lemma_read_escaped(done, arg);
        let body = opened.read(escaped(arg));
        lemma_read_concat(idle, open + escaped(arg), run);
        lemma_read_backslashes(body, n);
        assert(windows_quoted(arg).drop_last() == open + escaped(arg) + run);
        let last = idle.read(open + escaped(arg) + run);
        assert(last.backslashes == 2 * n);
        assert((2 * n) / 2 == n && (2 * n) % 2 == 0);
        let after = idle.read(windows_quoted(arg));
        assert(after == last.step('"'));
        assert(after.text() + repeated('\\', 0) == arg);
    } else {
        lemma_read_plain(done, arg);
    }
}

/// Reading the first words of a command leaves the last of them open and the others done.
proof fn lemma_read_words(words: Seq<Seq<char>>)
    requires
        words.len() > 0,
    ensures
        ({
            let after = Reading::start().read(
                joined(words.map_values(|w: Seq<char>| windows_quoted(w)), seq![' ']),
            );
            &&& after.done == words.drop_last()
            &&& after.current is Some
            &&& after.text() + repeated('\\', after.backslashes) == words.last()
            &&& !after.quoted
        }),
    decreases words.len(),
{
    let quoted = words.map_values(|w: Seq<char>| windows_quoted(w));
    let line = joined(quoted, seq![' ']);
    let before = words.drop_last();
    lemma_read_quoted(before, words.last());
    assert(quoted.last() == windows_quoted(words.last()));
    if before.len() > 0 {
        assert(quoted.drop_last() == before.map_values(|w: Seq<char>| windows_quoted(w)));
        let head = joined(quoted.drop_last(), seq![' ']);
        let space = seq![' '];
        lemma_read_words(before);
        lemma_read_concat(Reading::start(), head, space);
        lemma_read_concat(Reading::start(), head + space, windows_quoted(words.last()));
        let middle = Reading::start().read(head);
        assert(middle.read(space) == middle.step(' ')) by {
            reveal_with_fuel(Reading::read, 2);
            assert(space.drop_last() == Seq::<char>::empty());
        }
        assert(middle.done.push(before.last()) == before);
        assert(middle.step(' ') == (Reading {
            done: before,
            current: None,
            backslashes: 0,
            quoted: false,
        }));
    } else {
        assert(before == Seq::<Seq<char>>::empty());
        assert(line == windows_quoted(words.last()));
    }
}

/// A quoted argument is read back as the one argument that was quoted, whatever it holds.
pub proof fn law_quoted_argument_reads_back(arg: Seq<char>)
    ensures
        split_command_line(windows_quoted(arg)) == seq![arg],
{
    let done = Seq::<Seq<char>>::empty();
    lemma_read_quoted(done, arg);
    assert(done.push(arg) == seq![arg]);
}

/// The command line of a command is read back as its executable and its arguments, in order, where
/// the executable is read as an argument is.
pub proof fn law_direct_command_reads_back(executable: Seq<char>, args: Seq<Seq<char>>)
    ensures
        split_command_line(direct_command(executable, args)) == seq![executable] + args,
{
    let words = seq![executable] + args;
    lemma_read_words(words);
    assert(words.map_values(|w: Seq<char>| windows_quoted(w)) == words.map_values(
        |arg: Seq<char>| windows_quoted(arg),
    ));
    assert(words.drop_last().push(words.last()) == words);
}

/// An argument that needs no quotes is on the command line as it is.
pub proof fn law_plain_argument_is_unchanged(arg: Seq<char>)
    requires
        arg.len() > 0,
        forall|i: int|
            0 <= i < arg.len() ==> #[trigger] arg[i] != '"' && !white_space(arg[i]),
    ensures
        windows_quoted(arg) == arg,
{
}

/// Escaping works through a value from either end.
proof fn lemma_powershell_escaped_front(value: Seq<char>)
    requires
        value.len() > 0,
    ensures
        powershell_escaped(value) == powershell_escaped(seq![value[0]]) + powershell_escaped(
            value.skip(1),
        ),
        powershell_escaped(seq![value[0]]) == if value[0] == '\'' {
            seq!['\'', '\'']
        } else {
            seq![value[0]]
        },
    decreases value.len(),
{
    let first = seq![value[0]];
    assert(first.drop_last() == Seq::<char>::empty());
    assert(powershell_escaped(first.drop_last()) == Seq::<char>::empty());
    if value.len() == 1 {
        assert(value == first);
        assert(value.skip(1) == Seq::<char>::empty());
    } else {
        let before = value.drop_last();
        lemma_powershell_escaped_front(before);
        assert(before.skip(1) == value.skip(1).drop_last());
    }
}

/// Reading the inside of a quoted value gives the value and what follows the closing apostrophe.
proof fn lemma_read_powershell_body(value: Seq<char>, rest: Seq<char>)
    requires
        rest.len() > 0 ==> rest[0] != '\'',
    ensures
        read_powershell_body(powershell_escaped(value).push('\'') + rest) == Some((value, rest)),
    decreases value.len(),
{
    let code = powershell_escaped(value).push('\'') + rest;
    if value.len() == 0 {
        assert(code.skip(1) == rest);
        assert(value == Seq::<char>::empty());
    } else {
        lemma_powershell_escaped_front(value);
        let tail = powershell_escaped(value.skip(1)).push('\'') + rest;
        lemma_read_powershell_body(value.skip(1), rest);
        assert(seq![value[0]] + value.skip(1) == value);
        if value[0] == '\'' {
            assert(code.skip(2) == tail);
        } else {
            assert(code.skip(1) == tail);
        }
    }
}

/// A quoted value inside PowerShell code is read back as the value, and the string ends where the
/// value ends, whatever the value holds.
pub proof fn law_powershell_string_reads_back(value: Seq<char>, rest: Seq<char>)
    requires
        rest.len() > 0 ==> rest[0] != '\'',
    ensures
        read_powershell_string(powershell_quoted(value) + rest) == Some((value, rest)),
{
    lemma_read_powershell_body(value, rest);
    let code = powershell_quoted(value) + rest;
    assert(code.skip(1) == powershell_escaped(value).push('\'') + rest);
}

} // verus!
