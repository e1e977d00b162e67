//! What holds of environments as a whole: blocks are read back as they were written, however they
//! were cut, and what a launch sets is what its check looks for.

use vstd::prelude::*;

use crate::environment::{
    block_text, edited, entry_sets, env_edits, environment_entries, is_set, missing, with_all,
    without,
};
use crate::plan::proxy_variables;
use crate::text::{ascii_lower, lemma_first_index_unique, same_ignoring_ascii_case};
use crate::utf16::{
    char_units, double_nul_at, double_nul_position, encoded, is_double_nul_position,
    law_encoded_text_reads_back, lemma_double_nul_position, units_of,
};

verus! {

/// The entry that gives a variable its value.
pub open spec fn entry_for(key: Seq<char>, value: Seq<char>) -> Seq<char> {
    key.push('=') + value
}

/// Entries that an environment block can hold: none is empty, and none holds a NUL.
pub open spec fn block_entries(entries: Seq<Seq<char>>) -> bool {
    &&& entries.len() > 0
    &&& forall|i: int| 0 <= i < entries.len() ==> (#[trigger] entries[i]).len() > 0
    &&& forall|i: int, j: int|
        0 <= i < entries.len() && 0 <= j < entries[i].len() ==> #[trigger] entries[i][j] != '\0'
}

/// The entries, each with a NUL behind it.
pub open spec fn terminated(entries: Seq<Seq<char>>) -> Seq<char>
    decreases entries.len(),
{
    if entries.len() == 0 {
        seq![]
    } else {
        entries[0].push('\0') + terminated(entries.skip(1))
    }
}

/// The bytes of the units, low byte first.
pub open spec fn bytes_of(units: Seq<u16>) -> Seq<u8> {
    Seq::new(
        2 * units.len(),
        |i: int|
            if i % 2 == 0 {
                (units[i / 2] % 256) as u8
            } else {
                (units[i / 2] / 256) as u8
            },
    )
}

/// The environment block of the entries: each ends in a NUL, and one more NUL ends the block.
pub open spec fn environment_block(entries: Seq<Seq<char>>) -> Seq<u8> {
    bytes_of(encoded(terminated(entries).push('\0')))
}

/// A NUL stands at `i`, and another one behind it.
spec fn nuls_at(text: Seq<char>, i: int) -> bool {
    text[i] == '\0' && text[i + 1] == '\0'
}

/// No two NULs stand side by side.
spec fn nuls_apart(text: Seq<char>) -> bool {
    forall|i: int| 0 <= i < text.len() - 1 ==> !#[trigger] nuls_at(text, i)
}

/// A zero unit stands at `i`, and another one behind it.
spec fn zeros_at(units: Seq<u16>, i: int) -> bool {
    units[i] == 0 && units[i + 1] == 0
}

/// No two zero units stand side by side.
spec fn zeros_apart(units: Seq<u16>) -> bool {
    forall|i: int| 0 <= i < units.len() - 1 ==> !#[trigger] zeros_at(units, i)
}

proof fn lemma_encoded_concat(a: Seq<char>, b: Seq<char>)
    ensures
        encoded(a + b) == encoded(a) + encoded(b),
    decreases a.len(),
{
    if a.len() == 0 {
        assert(a + b == b);
        assert(encoded(a) + encoded(b) == encoded(b));
    } else {
        assert((a + b).skip(1) == a.skip(1) + b);
        lemma_encoded_concat(a.skip(1), b);
        assert(encoded(a + b) == encoded(a) + encoded(b));
    }
}

/// The units of a character are not zero, but for that of NUL.
proof fn lemma_char_units_zero(c: char)
    ensures
        0 < char_units(c).len() <= 2,
        char_units(c).len() == 2 ==> c != '\0',
        forall|i: int| 0 <= i < char_units(c).len() ==> (#[trigger] char_units(c)[i] == 0 <==> c == '\0'),
{
    let units = char_units(c);
    if (c as u32) < 0x10000 {
        assert(units[0] as char == c);
    } else {
        let code = c as u32 - 0x10000;
        assert(0 <= code / 0x400 < 0x400);
        assert(units[0] == 0xd800 + code / 0x400);
        assert(units[1] == 0xdc00 + code % 0x400);
    }
}

/// Zero units come from NULs, and from nothing else.
proof fn lemma_encoded_zeros(text: Seq<char>)
    requires
        nuls_apart(text),
    ensures
        zeros_apart(encoded(text)),
        text.len() > 0 ==> encoded(text).len() > 0,
        text.len() > 0 ==> (encoded(text)[0] == 0 <==> text[0] == '\0'),
        text.len() > 0 ==> (encoded(text).last() == 0 <==> text.last() == '\0'),
    decreases text.len(),
{
    if text.len() > 0 {
        let rest = text.skip(1);
        let head = char_units(text[0]);
        lemma_char_units_zero(text[0]);
        assert forall|i: int| 0 <= i < rest.len() - 1 implies !#[trigger] nuls_at(rest, i) by {
            assert(!nuls_at(text, i + 1));
        }
        lemma_encoded_zeros(rest);
        let units = encoded(text);
        assert(units == head + encoded(rest));
        assert(units[0] == head[0]);
        if rest.len() == 0 {
            assert(encoded(rest) == Seq::<u16>::empty());
        } else {
            assert(rest.last() == text.last());
            assert(rest[0] == text[1]);
        }
        assert forall|i: int| 0 <= i < units.len() - 1 implies !#[trigger] zeros_at(units, i) by {
            if i >= head.len() {
                assert(!zeros_at(encoded(rest), i - head.len()));
                assert(units[i] == encoded(rest)[i - head.len()]);
                assert(units[i + 1] == encoded(rest)[i - head.len() + 1]);
            } else if i == head.len() - 1 {
                assert(units[i + 1] == encoded(rest)[0]);
                assert(!nuls_at(text, 0));
                assert(units[i] == head[i]);
            } else {
                assert(units[i] == head[i]);
            }
        }
    }
}

/// The two bytes of a unit.
proof fn lemma_unit_bytes(units: Seq<u16>, i: int)
    requires
        0 <= i < units.len(),
    ensures
        bytes_of(units)[2 * i] == units[i] % 256,
        bytes_of(units)[2 * i + 1] == units[i] / 256,
        (bytes_of(units)[2 * i] == 0 && bytes_of(units)[2 * i + 1] == 0) <==> units[i] == 0,
{
    assert((2 * i) / 2 == i && (2 * i) % 2 == 0);
    assert((2 * i + 1) / 2 == i && (2 * i + 1) % 2 == 1);
}

/// The bytes of units are read back as the units.
proof fn lemma_bytes_of(units: Seq<u16>)
    ensures
        units_of(bytes_of(units)) == units,
{
    let bytes = bytes_of(units);
    assert forall|i: int| 0 <= i < units.len() implies #[trigger] units_of(bytes)[i] == units[i] by {
        lemma_unit_bytes(units, i);
    }
}

/// The text of a block, without the NUL of its last entry.
proof fn lemma_terminated(entries: Seq<Seq<char>>)
    requires
        block_entries(entries),
    ensures
        terminated(entries).len() > 1,
        terminated(entries).last() == '\0',
        terminated(entries)[0] != '\0',
        terminated(entries).drop_last().last() != '\0',
        nuls_apart(terminated(entries).drop_last()),
        environment_entries(terminated(entries).drop_last()) == entries,
    decreases entries.len(),
{
    let all = terminated(entries);
    let text = all.drop_last();
    let first = entries[0];
    let others = entries.skip(1);
    assert(first.len() > 0);
    assert forall|j: int| 0 <= j < first.len() implies first[j] != '\0' by {
        assert(entries[0][j] != '\0');
    }
    if entries.len() == 1 {
        assert(terminated(others) == Seq::<char>::empty());
        assert(text == first);
        lemma_first_index_unique(text, '\0', first.len() as int);
        assert(text.take(first.len() as int) == first);
        assert(entries == seq![first]);
        assert(seq![first] + Seq::<Seq<char>>::empty() == seq![first]);
    } else {
        assert forall|i: int, j: int|
            0 <= i < others.len() && 0 <= j < others[i].len() implies #[trigger] others[i][j]
            != '\0' by {
            assert(others[i] == entries[i + 1]);
            assert(entries[i + 1][j] != '\0');
        }
        assert forall|i: int| 0 <= i < others.len() implies (#[trigger] others[i]).len() > 0 by {
            assert(others[i] == entries[i + 1]);
        }
        lemma_terminated(others);
        let tail = terminated(others).drop_last();
        assert(text == first.push('\0') + tail);
        lemma_first_index_unique(text, '\0', first.len() as int);
        assert(text.take(first.len() as int) == first);
        assert(text.skip(first.len() + 1int) == tail);
        assert(entries == seq![first] + others);
        assert forall|i: int| 0 <= i < text.len() - 1 implies !#[trigger] nuls_at(text, i) by {
            if i > first.len() {
                assert(!nuls_at(tail, i - first.len() - 1));
                assert(text[i] == tail[i - first.len() - 1]);
                assert(text[i + 1] == tail[i - first.len()]);
            } else if i == first.len() {
                assert(text[i + 1] == tail[0]);
                assert(tail[0] == terminated(others)[0]);
            }
        }
    }
}

/// Two zero units behind others end a block, and what stands before them is the others.
proof fn lemma_block_position(head: Seq<u16>, behind: Seq<u8>)
    requires
        zeros_apart(head),
        head.len() > 0 ==> head.last() != 0,
    ensures
        ({
            let memory = bytes_of(head + seq![0u16, 0u16]) + behind;
            &&& double_nul_position(memory) == Some(2 * head.len() as int)
            &&& is_double_nul_position(memory, Some(2 * head.len() as int))
            &&& memory.take(2 * head.len() as int) == bytes_of(head)
        }),
{
    let units = head + seq![0u16, 0u16];
    let memory = bytes_of(units) + behind;
    let at = 2 * head.len() as int;
    let n = head.len() as int;
    lemma_unit_bytes(units, n);
    lemma_unit_bytes(units, n + 1);
    assert(units[n] == 0 && units[n + 1] == 0);
    assert(2 * (n + 1) == at + 2);
    assert(double_nul_at(memory, at));
    assert forall|i: int| 0 <= i < at implies !#[trigger] double_nul_at(memory, i) by {
        if double_nul_at(memory, i) {
            let k = i / 2;
            assert(i == 2 * k);
            assert(i + 2 == 2 * (k + 1));
            lemma_unit_bytes(units, k);
            lemma_unit_bytes(units, k + 1);
            assert(units[k] == 0 && units[k + 1] == 0);
            if k + 1 < n {
                assert(zeros_at(head, k));
            } else {
                assert(head.last() == 0);
            }
        }
    }
    lemma_double_nul_position(memory, Some(at));
    assert(memory.take(at) == bytes_of(head)) by {
        assert forall|i: int| 0 <= i < at implies memory[i] == bytes_of(head)[i] by {
            assert(units[i / 2] == head[i / 2]);
        }
    }
}

/// The two zero units that end an environment block are the first of the block, and the text before
/// them is that of the entries.
pub proof fn lemma_block_end(entries: Seq<Seq<char>>, behind: Seq<u8>)
    requires
        block_entries(entries),
    ensures
        ({
            let block = environment_block(entries);
            let memory = block + behind;
            &&& is_double_nul_position(memory, Some(block.len() - 4))
            &&& block_text(memory) == terminated(entries).drop_last()
        }),
{
    let text = terminated(entries).drop_last();
    lemma_terminated(entries);
    let nuls = seq!['\0', '\0'];
    assert(terminated(entries).push('\0') == text + nuls);
    lemma_encoded_concat(text, nuls);
    let head = encoded(text);
    assert(encoded(nuls) == seq![0u16, 0u16]) by {
        reveal_with_fuel(encoded, 3);
    }
    let units = head + seq![0u16, 0u16];
    assert(encoded(terminated(entries).push('\0')) == units);
    lemma_encoded_zeros(text);
    lemma_block_position(head, behind);
    lemma_bytes_of(head);
    law_encoded_text_reads_back(text);
}

/// An environment block is read back as the entries that it was made of, whatever stands behind
/// it in memory.
pub proof fn law_environment_block_reads_back(entries: Seq<Seq<char>>, behind: Seq<u8>)
    requires
        block_entries(entries),
    ensures
        environment_entries(block_text(environment_block(entries) + behind)) == entries,
{
    lemma_block_end(entries, behind);
    lemma_terminated(entries);
}

/// Where the end of a block is among the bytes that were read, the text is that of all the memory:
/// how the memory was cut into chunks does not matter.
pub proof fn law_chunks_do_not_change_the_text(memory: Seq<u8>, read: int)
    requires
        0 <= read <= memory.len(),
        exists|at: int| double_nul_at(memory.take(read), at),
    ensures
        block_text(memory.take(read)) == block_text(memory),
{
    let part = memory.take(read);
    let some = choose|at: int| double_nul_at(part, at);
    lemma_least_double_nul(part, some);
    let at = double_nul_position(part)->0;
    assert(double_nul_at(memory, at));
    assert forall|i: int| 0 <= i < at implies !#[trigger] double_nul_at(memory, i) by {
        assert(!double_nul_at(part, i));
    }
    lemma_double_nul_position(memory, Some(at));
    assert(part.take(at) == memory.take(at));
}

/// Where two zero units stand somewhere, they stand somewhere first.
proof fn lemma_least_double_nul(bytes: Seq<u8>, at: int)
    requires
        double_nul_at(bytes, at),
    ensures
        double_nul_position(bytes) is Some,
        is_double_nul_position(bytes, double_nul_position(bytes)),
    decreases at,
{
    if exists|i: int| 0 <= i < at && #[trigger] double_nul_at(bytes, i) {
        let i = choose|i: int| 0 <= i < at && #[trigger] double_nul_at(bytes, i);
        lemma_least_double_nul(bytes, i);
    } else {
        assert(is_double_nul_position(bytes, Some(at)));
        lemma_double_nul_position(bytes, Some(at));
    }
}

/// The changes of a launch leave an environment without what is taken away and with what is set,
/// whatever the environment was and however the system tells names apart.
pub proof fn law_edits_remove_then_set(
    env: Map<Seq<char>, Seq<char>>,
    vars: Seq<(Seq<char>, Seq<char>)>,
    keys: Seq<Seq<char>>,
    fold: spec_fn(Seq<char>) -> Seq<char>,
)
    ensures
        edited(env, env_edits(vars, keys), fold) == with_all(without(env, keys, fold), vars, fold),
    decreases keys.len() + vars.len(),
{
    let edits = env_edits(vars, keys);
    if vars.len() > 0 {
        law_edits_remove_then_set(env, vars.drop_last(), keys, fold);
        assert(edits.drop_last() == env_edits(vars.drop_last(), keys));
    } else if keys.len() > 0 {
        law_edits_remove_then_set(env, vars, keys.drop_last(), fold);
        assert(edits.drop_last() == env_edits(vars, keys.drop_last()));
        assert(edits.last() == env_edits(vars, keys)[keys.len() - 1]);
    }
}

/// No name is missing just where every expected variable is set.
pub proof fn law_nothing_is_missing_where_all_is_set(
    env: Seq<Seq<char>>,
    expected: Seq<(Seq<char>, Seq<char>)>,
)
    ensures
        missing(env, expected).len() == 0 <==> forall|i: int|
            0 <= i < expected.len() ==> is_set(env, (#[trigger] expected[i]).0, expected[i].1),
    decreases expected.len(),
{
    if expected.len() > 0 {
        let before = expected.drop_last();
        law_nothing_is_missing_where_all_is_set(env, before);
        assert(forall|i: int| 0 <= i < before.len() ==> before[i] == expected[i]);
        if missing(env, before).len() > 0 {
            let i = choose|i: int|
                0 <= i < before.len() && !is_set(env, (#[trigger] before[i]).0, before[i].1);
            assert(!is_set(env, expected[i].0, expected[i].1));
        }
        if missing(env, expected).len() > 0 && missing(env, before).len() == 0 {
            assert(!is_set(env, expected[expected.len() - 1].0, expected[expected.len() - 1].1));
        }
    }
}

/// Some entry gives a variable its value, under its name in any case of the ASCII letters.
pub open spec fn holds_variable(env: Seq<Seq<char>>, key: Seq<char>, value: Seq<char>) -> bool {
    exists|name: Seq<char>|
        same_ignoring_ascii_case(name, key) && #[trigger] env.contains(entry_for(name, value))
}

/// The entry for a variable sets it.
proof fn lemma_entry_for(name: Seq<char>, key: Seq<char>, value: Seq<char>)
    requires
        same_ignoring_ascii_case(name, key),
        forall|i: int| 0 <= i < key.len() ==> #[trigger] key[i] != '=',
    ensures
        entry_sets(entry_for(name, value), key, value),
{
    let entry = entry_for(name, value);
    assert forall|i: int| 0 <= i < name.len() implies entry[i] != '=' by {
        assert(ascii_lower(name[i]) == ascii_lower(key[i]));
        assert(key[i] != '=');
    }
    lemma_first_index_unique(entry, '=', name.len() as int);
    assert(entry.take(name.len() as int) == name);
    assert(entry.skip(name.len() + 1int) == value);
}

/// A process that holds the variables of the proxy environment, under their names in any case of
/// the letters, passes the check for them.
pub proof fn law_inherited_proxy_env_passes(
    env: Seq<Seq<char>>,
    proxy: Seq<char>,
    no_proxy: Seq<char>,
)
    requires
        forall|i: int|
            0 <= i < 4 ==> holds_variable(
                env,
                (#[trigger] proxy_variables(proxy, no_proxy)[i]).0,
                proxy_variables(proxy, no_proxy)[i].1,
            ),
    ensures
        missing(env, proxy_variables(proxy, no_proxy)).len() == 0,
{
    let expected = proxy_variables(proxy, no_proxy);
    reveal_strlit("HTTP_PROXY");
    reveal_strlit("HTTPS_PROXY");
    reveal_strlit("ALL_PROXY");
    reveal_strlit("NO_PROXY");
    assert forall|i: int| 0 <= i < expected.len() implies is_set(
        env,
        (#[trigger] expected[i]).0,
        expected[i].1,
    ) by {
        let (key, value) = expected[i];
        let name = choose|name: Seq<char>|
            same_ignoring_ascii_case(name, key) && #[trigger] env.contains(entry_for(name, value));
        lemma_entry_for(name, key, value);
        let j = env.index_of(entry_for(name, value));
        assert(entry_sets(env[j], key, value));
    }
    law_nothing_is_missing_where_all_is_set(env, expected);
}

/// The case of the letters in an entry's name does not matter to the check.
pub proof fn law_name_case_does_not_matter(
    name: Seq<char>,
    other: Seq<char>,
    key: Seq<char>,
    value: Seq<char>,
    set_value: Seq<char>,
)
    requires
        same_ignoring_ascii_case(name, other),
        forall|i: int| 0 <= i < name.len() ==> #[trigger] name[i] != '=',
        forall|i: int| 0 <= i < other.len() ==> #[trigger] other[i] != '=',
    ensures
        entry_sets(entry_for(name, set_value), key, value) == entry_sets(
            entry_for(other, set_value),
            key,
            value,
        ),
{
    let a = entry_for(name, set_value);
    let b = entry_for(other, set_value);
    lemma_first_index_unique(a, '=', name.len() as int);
    lemma_first_index_unique(b, '=', other.len() as int);
    assert(a.take(name.len() as int) == name);
    assert(b.take(other.len() as int) == other);
    assert(a.skip(name.len() + 1int) == set_value);
    assert(b.skip(other.len() + 1int) == set_value);
    if same_ignoring_ascii_case(name, key) {
        assert forall|i: int| 0 <= i < other.len() implies ascii_lower(#[trigger] other[i])
            == ascii_lower(key[i]) by {
            assert(ascii_lower(name[i]) == ascii_lower(other[i]));
        }
    }
    if same_ignoring_ascii_case(other, key) {
        assert forall|i: int| 0 <= i < name.len() implies ascii_lower(#[trigger] name[i])
            == ascii_lower(key[i]) by {
            assert(ascii_lower(other[i]) == ascii_lower(key[i]));
        }
    }
}

} // verus!
