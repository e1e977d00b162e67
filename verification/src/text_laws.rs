//! What the operations on text do, said of their inputs and results.

use vstd::prelude::*;

use crate::text::{
    ascii_lower, decimal, digit_char, digits, ends_ignoring_ascii_case, eq_ignoring_ascii_case, find_from,
    first_index, has_prefix, has_suffix_ignoring_ascii_case, hexadecimal, is_white_space, join,
    law_digits_read_back, lemma_first_index, lemma_first_index_unique, lines, lines_of,
    number_of, push_decimal, push_hexadecimal, same_ignoring_ascii_case, texts, trim, trim_start, trimmed, trimmed_end,
    trimmed_start, white_space, without_return,
};

verus! {

/// The two characters are equal, or one is an ASCII letter and the other is that letter in the
/// other case.
pub open spec fn alike(a: char, b: char) -> bool {
    ||| a == b
    ||| 'A' <= a <= 'Z' && b as int == a as int + 32
    ||| 'A' <= b <= 'Z' && a as int == b as int + 32
}

/// The two texts have characters that are alike, one for one.
pub open spec fn texts_alike(a: Seq<char>, b: Seq<char>) -> bool {
    a.len() == b.len() && forall|i: int| 0 <= i < a.len() ==> alike(#[trigger] a[i], b[i])
}

/// Only the case of ASCII letters is ignored.
pub proof fn law_only_ascii_case_is_ignored(a: Seq<char>, b: Seq<char>)
    ensures
        same_ignoring_ascii_case(a, b) <==> texts_alike(a, b),
{
    if same_ignoring_ascii_case(a, b) {
        assert forall|i: int| 0 <= i < a.len() implies alike(#[trigger] a[i], b[i]) by {}
    }
    if texts_alike(a, b) {
        assert forall|i: int| 0 <= i < a.len() implies ascii_lower(#[trigger] a[i])
            == ascii_lower(b[i]) by {
            assert(alike(a[i], b[i]));
        }
    }
}

/// Comparing ignores the case of ASCII letters, and nothing else.
pub proof fn law_comparing_ignores_ascii_case(a: &[char], b: &[char], same: bool)
    requires
        call_ensures(eq_ignoring_ascii_case, (a, b), same),
    ensures
        same <==> texts_alike(a@, b@),
{
    law_only_ascii_case_is_ignored(a@, b@);
}

/// A text has a prefix just where it is the prefix and something behind it.
pub proof fn law_prefix(s: &str, prefix: &str, found: bool)
    requires
        call_ensures(has_prefix, (s, prefix), found),
    ensures
        found <==> exists|rest: Seq<char>| s@ == #[trigger] (prefix@ + rest),
{
    if found {
        assert(s@ == prefix@ + s@.skip(prefix@.len() as int));
    }
    if exists|rest: Seq<char>| s@ == #[trigger] (prefix@ + rest) {
        let rest = choose|rest: Seq<char>| s@ == #[trigger] (prefix@ + rest);
        assert((prefix@ + rest).take(prefix@.len() as int) == prefix@);
    }
}

/// A text ends in a suffix just where it is something and, behind it, a text like the suffix.
pub proof fn law_suffix(s: &str, suffix: &str, found: bool)
    requires
        call_ensures(has_suffix_ignoring_ascii_case, (s, suffix), found),
    ensures
        found <==> exists|front: Seq<char>, end: Seq<char>|
            s@ == #[trigger] (front + end) && texts_alike(end, suffix@),
{
    lemma_suffix(s@, suffix@);
}

/// A text ends in a suffix just where it is something and, behind it, a text like the suffix.
pub proof fn lemma_suffix(s: Seq<char>, suffix: Seq<char>)
    ensures
        ends_ignoring_ascii_case(s, suffix) <==> exists|front: Seq<char>, end: Seq<char>|
            s == #[trigger] (front + end) && texts_alike(end, suffix),
{
    if ends_ignoring_ascii_case(s, suffix) {
        let front = s.take(s.len() - suffix.len());
        let end = s.skip(s.len() - suffix.len());
        law_only_ascii_case_is_ignored(end, suffix);
        assert(s == front + end);
    }
    if exists|front: Seq<char>, end: Seq<char>|
        s == #[trigger] (front + end) && texts_alike(end, suffix) {
        let (front, end) = choose|front: Seq<char>, end: Seq<char>|
            s == #[trigger] (front + end) && texts_alike(end, suffix);
        assert((front + end).skip(front.len() as int) == end);
        law_only_ascii_case_is_ignored(end, suffix);
    }
}

/// Every character of the text is white space.
pub open spec fn all_white(s: Seq<char>) -> bool {
    forall|i: int| 0 <= i < s.len() ==> white_space(#[trigger] s[i])
}

/// No white space stands at the start.
pub open spec fn starts_dark(s: Seq<char>) -> bool {
    s.len() > 0 ==> !white_space(s[0])
}

/// No white space stands at the end.
pub open spec fn ends_dark(s: Seq<char>) -> bool {
    s.len() > 0 ==> !white_space(s[s.len() - 1])
}

/// Trimming the start takes away white space in front of a text that starts with something else.
pub proof fn law_trimmed_start(blank: Seq<char>, text: Seq<char>)
    requires
        all_white(blank),
        starts_dark(text),
    ensures
        trimmed_start(blank + text) == text,
    decreases blank.len(),
{
    let s = blank + text;
    if blank.len() == 0 {
        assert(s == text);
    } else {
        assert(white_space(blank[0]));
        assert(s.drop_first() == blank.skip(1) + text);
        assert forall|i: int| 0 <= i < blank.skip(1).len() implies white_space(
            #[trigger] blank.skip(1)[i],
        ) by {
            assert(white_space(blank[i + 1]));
        }
        law_trimmed_start(blank.skip(1), text);
    }
}

/// Trimming the end takes away white space behind a text that ends with something else.
pub proof fn law_trimmed_end(text: Seq<char>, blank: Seq<char>)
    requires
        all_white(blank),
        ends_dark(text),
    ensures
        trimmed_end(text + blank) == text,
    decreases blank.len(),
{
    let s = text + blank;
    if blank.len() == 0 {
        assert(s == text);
    } else {
        assert(white_space(blank[blank.len() - 1]));
        assert(s.drop_last() == text + blank.drop_last());
        assert forall|i: int| 0 <= i < blank.drop_last().len() implies white_space(
            #[trigger] blank.drop_last()[i],
        ) by {
            assert(white_space(blank[i]));
        }
        law_trimmed_end(text, blank.drop_last());
    }
}

/// Trimming takes away the white space around a text, and nothing of the text.
pub proof fn law_trimmed(before: Seq<char>, text: Seq<char>, behind: Seq<char>)
    requires
        all_white(before),
        all_white(behind),
        starts_dark(text),
        ends_dark(text),
    ensures
        trimmed(before + text + behind) == text,
{
    let inner = text + behind;
    assert(before + text + behind == before + inner);
    if text.len() > 0 {
        law_trimmed_start(before, inner);
        law_trimmed_end(text, behind);
    } else {
        let all = before + behind;
        assert(before + text + behind == all);
        assert(all + Seq::<char>::empty() == all);
        assert forall|i: int| 0 <= i < all.len() implies white_space(#[trigger] all[i]) by {
            if i < before.len() {
                assert(white_space(before[i]));
            } else {
                assert(white_space(behind[i - before.len()]));
            }
        }
        law_trimmed_start(all, seq![]);
        assert(trimmed_end(seq![]) == Seq::<char>::empty());
        assert(text == Seq::<char>::empty());
    }
}

/// Every text is white space and, behind it, a text that starts with something else: what trimming
/// the start gives.
pub proof fn law_trimmed_start_splits(s: Seq<char>)
    ensures
        trimmed_start(s).len() <= s.len(),
        s == s.take(s.len() - trimmed_start(s).len()) + trimmed_start(s),
        all_white(s.take(s.len() - trimmed_start(s).len())),
        starts_dark(trimmed_start(s)),
    decreases s.len(),
{
    let t = trimmed_start(s);
    if s.len() > 0 && white_space(s[0]) {
        let rest = s.drop_first();
        law_trimmed_start_splits(rest);
        let n = s.len() - t.len();
        assert(s == s.take(n) + t) by {
            assert(rest == rest.take(n - 1) + t);
            assert(s == seq![s[0]] + rest);
            assert(s.take(n) == seq![s[0]] + rest.take(n - 1));
        }
        assert forall|i: int| 0 <= i < n implies white_space(#[trigger] s.take(n)[i]) by {
            if i > 0 {
                assert(white_space(rest.take(n - 1)[i - 1]));
            }
        }
    } else {
        assert(s == s.take(0) + t);
    }
}

/// Trimming takes away white space at both ends, and nothing else.
pub proof fn law_trim(s: &str, before: Seq<char>, text: Seq<char>, behind: Seq<char>, t: String)
    requires
        call_ensures(trim, (s,), t),
        s@ == before + text + behind,
        all_white(before),
        all_white(behind),
        starts_dark(text),
        ends_dark(text),
    ensures
        t@ == text,
{
    law_trimmed(before, text, behind);
}

/// Trimming the start takes away white space there, and nothing else.
pub proof fn law_trim_start(s: &str, before: Seq<char>, text: Seq<char>, t: String)
    requires
        call_ensures(trim_start, (s,), t),
        s@ == before + text,
        all_white(before),
        starts_dark(text),
    ensures
        t@ == text,
{
    law_trimmed_start(before, text);
}

/// The text has no line feed.
pub open spec fn one_line(s: Seq<char>) -> bool {
    forall|i: int| 0 <= i < s.len() ==> #[trigger] s[i] != '\n'
}

/// What stands before a line feed is a line, without the carriage return at its end, and what stands
/// behind it is made of the lines that it has alone.
pub proof fn law_line_feed_ends_a_line(line: Seq<char>, rest: Seq<char>)
    requires
        one_line(line),
    ensures
        lines(line.push('\n') + rest) == seq![
            if line.len() > 0 && line[line.len() - 1] == '\r' {
                line.take(line.len() - 1)
            } else {
                line
            },
        ] + lines(rest),
{
    let s = line.push('\n') + rest;
    let n = line.len() as int;
    assert forall|i: int| 0 <= i < n implies s[i] != '\n' by {
        assert(line[i] != '\n');
    }
    lemma_first_index_unique(s, '\n', n);
    assert(s.take(n) == line);
    assert(s.skip(n + 1) == rest);
    if n > 0 {
        assert(line.drop_last() == line.take(n - 1));
    }
}

/// A text without a line feed is one line, and an empty text has none.
pub proof fn law_last_line_needs_no_line_feed(line: Seq<char>)
    requires
        one_line(line),
    ensures
        line.len() > 0 ==> lines(line) == seq![line],
        line.len() == 0 ==> lines(line).len() == 0,
{
    lemma_first_index_unique(line, '\n', line.len() as int);
}

/// The lines of a text are found in it: a line feed ends the first one.
pub proof fn law_lines_of(s: &str, t: &str, line: Seq<char>, all: Vec<String>, others: Vec<String>)
    requires
        call_ensures(lines_of, (s,), all),
        call_ensures(lines_of, (t,), others),
        s@ == line.push('\n') + t@,
        one_line(line),
    ensures
        all@.len() == others@.len() + 1,
        all@[0]@ == if line.len() > 0 && line[line.len() - 1] == '\r' {
            line.take(line.len() - 1)
        } else {
            line
        },
        forall|i: int| 0 <= i < others@.len() ==> all@[i + 1]@ == (#[trigger] others@[i])@,
{
    law_line_feed_ends_a_line(line, t@);
    assert(texts(all@).len() == all@.len());
    assert(texts(others@).len() == others@.len());
    assert(texts(all@)[0] == all@[0]@);
    assert forall|i: int| 0 <= i < others@.len() implies all@[i + 1]@ == (#[trigger] others@[i])@ by {
        assert(texts(all@)[i + 1] == texts(others@)[i]);
    }
}

/// The lines of two texts one behind the other are those of the first and those of the second, where
/// a line feed ends the first.
pub proof fn law_lines_concat(a: Seq<char>, b: Seq<char>)
    requires
        a.len() == 0 || a[a.len() - 1] == '\n',
    ensures
        lines(a + b) == lines(a) + lines(b),
    decreases a.len(),
{
    if a.len() == 0 {
        assert(a + b == b);
        assert(lines(a) + lines(b) == lines(b));
    } else {
        lemma_first_index(a, '\n');
        let at = first_index(a, '\n');
        let line = a.take(at);
        let rest = a.skip(at + 1);
        assert(a == line.push('\n') + rest);
        assert(a + b == line.push('\n') + (rest + b));
        assert forall|i: int| 0 <= i < line.len() implies #[trigger] line[i] != '\n' by {
            assert(a[i] != '\n');
        }
        law_line_feed_ends_a_line(line, rest);
        law_line_feed_ends_a_line(line, rest + b);
        law_lines_concat(rest, b);
        assert(lines(a + b) == lines(a) + lines(b));
    }
}

/// Every line stands in the text, at its start or behind a line feed.
pub proof fn law_lines_stand_in_the_text(s: Seq<char>, i: int)
    requires
        0 <= i < lines(s).len(),
    ensures
        one_line(lines(s)[i]),
        exists|before: Seq<char>, behind: Seq<char>|
            s == #[trigger] (before + lines(s)[i] + behind) && (before.len() == 0
                || before[before.len() - 1] == '\n'),
    decreases s.len(),
{
    lemma_first_index(s, '\n');
    let at = first_index(s, '\n');
    let line = lines(s)[i];
    if at == s.len() {
        assert(lines(s) == seq![s]);
        assert(s == Seq::<char>::empty() + line + Seq::<char>::empty());
    } else {
        let rest = s.skip(at + 1);
        let first = without_return(s.take(at));
        assert(lines(s) == seq![first] + lines(rest));
        if i == 0 {
            let behind = s.skip(first.len() as int);
            assert(line == first);
            assert(first == s.take(first.len() as int));
            assert(s == Seq::<char>::empty() + line + behind);
            assert forall|j: int| 0 <= j < line.len() implies #[trigger] line[j] != '\n' by {
                assert(line[j] == s[j]);
            }
        } else {
            assert(line == lines(rest)[i - 1]);
            law_lines_stand_in_the_text(rest, i - 1);
            let (before, behind) = choose|before: Seq<char>, behind: Seq<char>|
                rest == #[trigger] (before + lines(rest)[i - 1] + behind) && (before.len() == 0
                    || before[before.len() - 1] == '\n');
            let front = s.take(at + 1) + before;
            assert(s == s.take(at + 1) + rest);
            assert(s == front + line + behind);
        }
    }
}

/// The first place of a character is found.
pub proof fn law_first_place_is_found(chars: &[char], from: usize, c: char, at: usize)
    requires
        from <= chars@.len(),
        call_ensures(find_from, (chars, from, c), at),
    ensures
        from <= at <= chars@.len(),
        at < chars@.len() ==> chars@[at as int] == c,
        forall|i: int| from <= i < at ==> #[trigger] chars@[i] != c,
{
    let rest = chars@.skip(from as int);
    lemma_first_index(rest, c);
    assert forall|i: int| from <= i < at implies #[trigger] chars@[i] != c by {
        assert(rest[i - from] != c);
    }
}

/// One more part comes behind the others, with the separator between them.
pub proof fn law_join(
    parts: &[String],
    more: &[String],
    separator: &str,
    whole: String,
    longer: String,
)
    requires
        call_ensures(join, (parts, separator), whole),
        call_ensures(join, (more, separator), longer),
        more@.len() == parts@.len() + 1,
        more@.take(parts@.len() as int) == parts@,
    ensures
        parts@.len() == 0 ==> whole@.len() == 0 && longer@ == more@[0]@,
        parts@.len() > 0 ==> longer@ == whole@ + separator@ + more@[parts@.len() as int]@,
{
    let all = texts(more@);
    assert(all.drop_last() == texts(parts@)) by {
        assert forall|i: int| 0 <= i < parts@.len() implies all.drop_last()[i] == texts(
            parts@,
        )[i] by {
            assert(more@.take(parts@.len() as int)[i] == more@[i]);
        }
    }
}

/// A digit is the character that stands for it.
pub proof fn law_digit(d: nat)
    requires
        d < 16,
    ensures
        digit_char(d) == "0123456789abcdef"@[d as int],
{
    reveal_strlit("0123456789abcdef");
}

/// A number is written in the digits of its base, without a zero in front.
pub proof fn law_digits_are_plain(n: nat, base: nat)
    requires
        2 <= base <= 16,
    ensures
        digits(n, base).len() > 0,
        forall|i: int|
            0 <= i < digits(n, base).len() ==> exists|d: nat|
                d < base && #[trigger] digits(n, base)[i] == #[trigger] "0123456789abcdef"@[d as int],
        digits(n, base)[0] == '0' ==> n == 0 && digits(n, base).len() == 1,
    decreases n,
{
    reveal_strlit("0123456789abcdef");
    let s = digits(n, base);
    if n < base {
        law_digit(n);
        assert(s[0] == "0123456789abcdef"@[n as int]);
    } else {
        assert(n / base < n && n / base > 0) by (nonlinear_arith)
            requires
                n >= base,
                base >= 2,
        ;
        let d = n % base;
        assert(0 <= d < base) by (nonlinear_arith)
            requires
                d == n % base,
                base >= 2,
        ;
        law_digits_are_plain(n / base, base);
        law_digit(d);
        let head = digits(n / base, base);
        assert forall|i: int| 0 <= i < s.len() implies exists|d: nat|
            d < base && #[trigger] s[i] == #[trigger] "0123456789abcdef"@[d as int] by {
            if i < head.len() {
                assert(s[i] == head[i]);
            } else {
                assert(s[i] == "0123456789abcdef"@[d as int]);
            }
        }
    }
}

/// The text is the number, written in this base without a zero in front.
pub open spec fn is_number(text: Seq<char>, n: nat, base: nat) -> bool {
    &&& text.len() > 0
    &&& forall|i: int|
        0 <= i < text.len() ==> exists|d: nat|
            d < base && #[trigger] text[i] == #[trigger] "0123456789abcdef"@[d as int]
    &&& text[0] == '0' ==> n == 0 && text.len() == 1
    &&& number_of(text, base) == n
}

/// Decimal and hexadecimal digits are the number in base ten and sixteen.
pub proof fn law_numbers_are_written(n: nat)
    ensures
        is_number(decimal(n), n, 10),
        is_number(hexadecimal(n), n, 16),
{
    law_digits_are_plain(n, 10);
    law_digits_are_plain(n, 16);
    law_digits_read_back(n, 10);
    law_digits_read_back(n, 16);
}

/// A number is added to the end of a text, in decimal or in hexadecimal digits.
pub proof fn law_numbers_are_added(n: u64)
    ensures
        forall|s: &mut String| #[trigger]
            call_ensures(push_decimal, (s, n), ()) ==> exists|digits: Seq<char>|
                final(s)@ == s@ + digits && #[trigger] is_number(digits, n as nat, 10),
        forall|s: &mut String| #[trigger]
            call_ensures(push_hexadecimal, (s, n), ()) ==> exists|digits: Seq<char>|
                final(s)@ == s@ + digits && #[trigger] is_number(digits, n as nat, 16),
{
    law_numbers_are_written(n as nat);
    assert forall|s: &mut String| #[trigger] call_ensures(push_decimal, (s, n), ()) implies exists|
        digits: Seq<char>,
    |
        final(s)@ == s@ + digits && #[trigger] is_number(digits, n as nat, 10) by {
        assert(is_number(decimal(n as nat), n as nat, 10));
    }
    assert forall|s: &mut String| #[trigger]
        call_ensures(push_hexadecimal, (s, n), ()) implies exists|digits: Seq<char>|
        final(s)@ == s@ + digits && #[trigger] is_number(digits, n as nat, 16) by {
        assert(is_number(hexadecimal(n as nat), n as nat, 16));
    }
}

/// Whether a character is white space depends on the character alone, and is told as it is.
pub proof fn law_white_space_is_told(c: char, told: bool)
    requires
        call_ensures(is_white_space, (c,), told),
    ensures
        told == white_space(c),
        c == ' ' || c == '\t' || c == '\n' || c == '\r' ==> told,
        '!' <= c <= '~' ==> !told,
{
}

} // verus!
