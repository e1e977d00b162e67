//! How arguments are quoted, said of their characters.

use vstd::prelude::*;

use crate::command_line::{
    law_direct_command_reads_back, law_powershell_string_reads_back,
    law_quoted_argument_reads_back, read_powershell_string, split_command_line,
};
use crate::quoting::{
    escaped, format_direct_command, needs_quotes, powershell_quoted,
    quote_powershell_string, quote_windows_arg, trailing_backslashes, windows_quoted,
};
use crate::text::{joined, repeated, texts, white_space};

verus! {

/// The argument is not empty, and holds neither a double quote nor white space.
pub open spec fn is_plain(arg: Seq<char>) -> bool {
    arg.len() > 0 && forall|i: int|
        0 <= i < arg.len() ==> #[trigger] arg[i] != '"' && !white_space(arg[i])
}

/// The text does not end in a backslash.
pub open spec fn ends_without_backslash(s: Seq<char>) -> bool {
    s.len() > 0 ==> s[s.len() - 1] != '\\'
}

/// The backslashes at the end of a text are those behind its last other character.
proof fn lemma_backslashes_behind(s: Seq<char>, n: nat)
    requires
        ends_without_backslash(s),
    ensures
        trailing_backslashes(s + repeated('\\', n)) == n,
    decreases n,
{
    let all = s + repeated('\\', n);
    if n == 0 {
        assert(all == s);
    } else {
        assert(all.drop_last() == s + repeated('\\', (n - 1) as nat));
        lemma_backslashes_behind(s, (n - 1) as nat);
    }
}

/// How many backslashes a text ends in is not changed by what stands before one of its other
/// characters.
proof fn lemma_backslashes_of_tail(a: Seq<char>, b: Seq<char>)
    requires
        ends_without_backslash(a),
    ensures
        trailing_backslashes(a + b) == trailing_backslashes(b),
    decreases b.len(),
{
    if b.len() == 0 {
        assert(a + b == a);
    } else {
        assert((a + b).drop_last() == a + b.drop_last());
        lemma_backslashes_of_tail(a, b.drop_last());
    }
}

/// What stands behind a character that is no backslash is escaped as if it stood alone.
pub proof fn law_escaping_goes_by_runs(a: Seq<char>, b: Seq<char>)
    requires
        ends_without_backslash(a),
    ensures
        escaped(a + b) == escaped(a) + escaped(b),
    decreases b.len(),
{
    if b.len() == 0 {
        assert(a + b == a);
        assert(escaped(a) + escaped(b) == escaped(a));
    } else {
        let before = b.drop_last();
        assert((a + b).drop_last() == a + before);
        law_escaping_goes_by_runs(a, before);
        lemma_backslashes_of_tail(a, before);
        assert(escaped(a + b) == escaped(a) + escaped(b));
    }
}

/// A text without a double quote needs no escapes.
pub proof fn law_text_without_quotes_is_not_escaped(s: Seq<char>)
    requires
        forall|i: int| 0 <= i < s.len() ==> #[trigger] s[i] != '"',
    ensures
        escaped(s) == s,
    decreases s.len(),
{
    if s.len() > 0 {
        let before = s.drop_last();
        assert forall|i: int| 0 <= i < before.len() implies #[trigger] before[i] != '"' by {
            assert(before[i] == s[i]);
        }
        law_text_without_quotes_is_not_escaped(before);
        assert(s[s.len() - 1] != '"');
        assert(s == before.push(s.last()));
    }
}

/// A double quote gets one backslash, and the backslashes before it stand twice.
pub proof fn law_quote_and_its_backslashes(n: nat)
    ensures
        escaped(repeated('\\', n).push('"')) == repeated('\\', 2 * n + 1).push('"'),
{
    let run = repeated('\\', n);
    let s = run.push('"');
    assert(s.drop_last() == run);
    law_text_without_quotes_is_not_escaped(run);
    lemma_backslashes_behind(seq![], n);
    assert(Seq::<char>::empty() + run == run);
    assert(run + repeated('\\', n + 1) == repeated('\\', 2 * n + 1));
}

/// An argument is quoted just where it has to be. A quoted one stands between double quotes, with
/// the backslashes at its end twice; what stands before them is escaped.
pub proof fn law_argument_is_quoted_where_it_must(
    arg: &str,
    text: Seq<char>,
    n: nat,
    quoted: String,
)
    requires
        call_ensures(quote_windows_arg, (arg,), quoted),
        arg@ == text + repeated('\\', n),
        ends_without_backslash(text),
    ensures
        is_plain(arg@) ==> quoted@ == arg@,
        !is_plain(arg@) ==> quoted@ == seq!['"'] + escaped(text) + repeated('\\', 2 * n) + seq!['"'],
        split_command_line(quoted@) == seq![arg@],
{
    law_quoted_argument_reads_back(arg@);
    let run = repeated('\\', n);
    lemma_backslashes_behind(text, n);
    law_escaping_goes_by_runs(text, run);
    law_text_without_quotes_is_not_escaped(run);
    if !is_plain(arg@) {
        assert(needs_quotes(arg@));
        assert(run + run == repeated('\\', 2 * n));
        assert(windows_quoted(arg@) == seq!['"'] + escaped(text) + repeated('\\', 2 * n) + seq![
            '"',
        ]);
    }
}

/// Whether an argument is quoted depends on its characters alone.
pub proof fn law_plain_arguments(arg: Seq<char>)
    ensures
        needs_quotes(arg) <==> !is_plain(arg),
{
}

/// A command is its executable and, behind it, its arguments, each quoted by itself and with a space
/// before it; and it is read back as these.
pub proof fn law_command_grows_by_its_arguments(
    executable: &str,
    args: &[String],
    more: &[String],
    last: &str,
    command: String,
    longer: String,
    exe: String,
    quoted: String,
)
    requires
        call_ensures(format_direct_command, (executable, args), command),
        call_ensures(format_direct_command, (executable, more), longer),
        call_ensures(quote_windows_arg, (executable,), exe),
        call_ensures(quote_windows_arg, (last,), quoted),
        texts(more@) == texts(args@).push(last@),
    ensures
        args@.len() == 0 ==> command@ == exe@,
        longer@ == command@ + seq![' '] + quoted@,
        split_command_line(command@) == seq![executable@] + texts(args@),
{
    law_direct_command_reads_back(executable@, texts(args@));
    assert(texts(args@).len() == args@.len());
    let f = |arg: Seq<char>| windows_quoted(arg);
    let parts = (seq![executable@] + texts(args@)).map_values(f);
    let all = (seq![executable@] + texts(more@)).map_values(f);
    assert(all.drop_last() == parts);
    assert(all.last() == windows_quoted(last@));
    assert(joined(all, seq![' ']) == joined(parts, seq![' ']) + seq![' '] + windows_quoted(last@));
    if args@.len() == 0 {
        assert(parts.len() == 1);
        assert(parts[0] == windows_quoted(executable@));
    }
}

/// A PowerShell string is read back as its value and nothing is left, whatever the value holds.
pub proof fn law_powershell_string_is_its_value(value: &str, quoted: String)
    requires
        call_ensures(quote_powershell_string, (value,), quoted),
    ensures
        read_powershell_string(quoted@) == Some((value@, Seq::<char>::empty())),
{
    law_powershell_string_reads_back(value@, seq![]);
    assert(powershell_quoted(value@) + Seq::<char>::empty() == powershell_quoted(value@));
}

} // verus!
