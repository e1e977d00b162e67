//! What is looked for in an environment, and how one is changed and read, said of entries and bytes.

use vstd::prelude::*;

use crate::environment::{
    block_text, child_env_edits, chunk_step, edit_views, entries_of_block, entry_matches,
    entry_sets, env_edits, env_read_action, environment_entries, environment_text, gathered,
    in_memory, is_in_memory, is_set, little_endian, missing, missing_env_vars,
    read_process_environment, read_remote_usize, read_remote_utf16_double_nul_string, ChunkRead,
    ChunkStep, ChunkStepView, EnvEdit, EnvReadAction, EnvReadActionView, EnvReadEvent,
};
use crate::environment_laws::{
    block_entries, entry_for, environment_block, holds_variable, law_environment_block_reads_back,
    law_nothing_is_missing_where_all_is_set,
};
use crate::error::LaunchError;
use crate::text::{
    first_index, lemma_first_index, lemma_first_index_unique, same_ignoring_ascii_case, text_pairs,
    texts,
};
use crate::text_laws::{alike, law_only_ascii_case_is_ignored, texts_alike};
use crate::utf16::{
    decoded, double_nul_at, double_nul_position, is_double_nul_position, lemma_double_nul_position,
    units_of,
};

verus! {

/// The text has no such character.
pub open spec fn is_free_of(s: Seq<char>, c: char) -> bool {
    forall|i: int| 0 <= i < s.len() ==> #[trigger] s[i] != c
}

/// The entry is the name, but for the case of ASCII letters, an equals sign, and just the value.
pub open spec fn entry_gives(entry: Seq<char>, key: Seq<char>, value: Seq<char>) -> bool {
    &&& is_free_of(key, '=')
    &&& entry.len() == key.len() + 1 + value.len()
    &&& texts_alike(entry.take(key.len() as int), key)
    &&& entry[key.len() as int] == '='
    &&& entry.skip(key.len() + 1int) == value
}

/// An entry sets a variable just where it is the name, an equals sign, and the value to its last
/// character.
pub proof fn law_entry_sets_its_variable(entry: Seq<char>, key: Seq<char>, value: Seq<char>)
    ensures
        entry_sets(entry, key, value) <==> entry_gives(entry, key, value),
{
    lemma_first_index(entry, '=');
    let at = first_index(entry, '=');
    let n = key.len() as int;
    if entry_sets(entry, key, value) {
        let name = entry.take(at);
        law_only_ascii_case_is_ignored(name, key);
        assert(at == n);
        assert forall|i: int| 0 <= i < key.len() implies #[trigger] key[i] != '=' by {
            assert(alike(name[i], key[i]));
            assert(entry[i] != '=');
        }
    }
    if entry_gives(entry, key, value) {
        let name = entry.take(n);
        law_only_ascii_case_is_ignored(name, key);
        assert forall|i: int| 0 <= i < n implies entry[i] != '=' by {
            assert(alike(name[i], key[i]));
            assert(key[i] != '=');
        }
        lemma_first_index_unique(entry, '=', n);
    }
}

/// A variable is set only where an entry holds its name, an equals sign and just its value; and
/// where one does, it is set.
pub proof fn law_set_variable_is_held(env: Seq<Seq<char>>, key: Seq<char>, value: Seq<char>)
    ensures
        is_set(env, key, value) ==> holds_variable(env, key, value),
        is_free_of(key, '=') && holds_variable(env, key, value) ==> is_set(env, key, value),
        !is_free_of(key, '=') ==> !is_set(env, key, value),
        is_set(env, key, value) <==> exists|i: int|
            0 <= i < env.len() && entry_gives(#[trigger] env[i], key, value),
{
    let n = key.len() as int;
    assert forall|i: int| 0 <= i < env.len() implies (entry_sets(#[trigger] env[i], key, value)
        <==> entry_gives(env[i], key, value)) by {
        law_entry_sets_its_variable(env[i], key, value);
    }
    if is_set(env, key, value) {
        let i = choose|i: int| 0 <= i < env.len() && entry_sets(#[trigger] env[i], key, value);
        let name = env[i].take(n);
        law_only_ascii_case_is_ignored(name, key);
        assert(env[i] == entry_for(name, value));
        assert(env.contains(entry_for(name, value)));
    }
    if is_free_of(key, '=') && holds_variable(env, key, value) {
        let name = choose|name: Seq<char>|
            same_ignoring_ascii_case(name, key) && #[trigger] env.contains(entry_for(name, value));
        let entry = entry_for(name, value);
        let i = env.index_of(entry);
        law_only_ascii_case_is_ignored(name, key);
        assert(entry.take(n) == name);
        assert(entry.skip(n + 1) == value);
        assert(entry_gives(env[i], key, value));
    }
}

/// An entry matches a variable just where it gives it exactly this value.
pub proof fn law_entry_matches(entry: &str, key: &str, value: &str, set: bool)
    requires
        call_ensures(entry_matches, (entry, key, value), set),
    ensures
        set <==> entry_gives(entry@, key@, value@),
{
    law_entry_sets_its_variable(entry@, key@, value@);
}

/// Some string of the environment gives the variable exactly this value.
pub open spec fn env_gives(env_vars: Seq<String>, key: Seq<char>, value: Seq<char>) -> bool {
    exists|i: int| 0 <= i < env_vars.len() && entry_gives((#[trigger] env_vars[i])@, key, value)
}

proof fn lemma_env_gives(env_vars: Seq<String>, key: Seq<char>, value: Seq<char>)
    ensures
        env_gives(env_vars, key, value) <==> is_set(texts(env_vars), key, value),
{
    let env = texts(env_vars);
    law_set_variable_is_held(env, key, value);
    if env_gives(env_vars, key, value) {
        let i = choose|i: int|
            0 <= i < env_vars.len() && entry_gives((#[trigger] env_vars[i])@, key, value);
        assert(env[i] == env_vars[i]@);
    }
    if is_set(env, key, value) {
        let i = choose|i: int| 0 <= i < env.len() && entry_gives(#[trigger] env[i], key, value);
        assert(env[i] == env_vars[i]@);
    }
}

/// The names that are missing of two lists one behind the other are those of the first and those of
/// the second.
pub proof fn law_missing_concat(
    env: Seq<Seq<char>>,
    a: Seq<(Seq<char>, Seq<char>)>,
    b: Seq<(Seq<char>, Seq<char>)>,
)
    ensures
        missing(env, a + b) == missing(env, a) + missing(env, b),
    decreases b.len(),
{
    if b.len() == 0 {
        assert(a + b == a);
        assert(missing(env, a) + missing(env, b) == missing(env, a));
    } else {
        assert((a + b).drop_last() == a + b.drop_last());
        law_missing_concat(env, a, b.drop_last());
        assert(missing(env, a + b) == missing(env, a) + missing(env, b));
    }
}

/// A name is told as missing just where no entry gives its variable exactly the expected value; and
/// names are told in the order in which they are expected.
pub proof fn law_missing_names_are_those_not_held(
    env_vars: &[String],
    expected: &[(String, String)],
    more: &[(String, String)],
    names: Vec<String>,
    more_names: Vec<String>,
)
    requires
        call_ensures(missing_env_vars, (env_vars, expected), names),
        call_ensures(missing_env_vars, (env_vars, more), more_names),
        more@.len() == expected@.len() + 1,
        more@.take(expected@.len() as int) == expected@,
    ensures
        ({
            let key = more@[expected@.len() as int].0@;
            let value = more@[expected@.len() as int].1@;
            &&& expected@.len() == 0 ==> names@.len() == 0
            &&& env_gives(env_vars@, key, value) ==> texts(more_names@) == texts(names@)
            &&& !env_gives(env_vars@, key, value) ==> texts(more_names@) == texts(names@).push(key)
        }),
{
    let all = text_pairs(more@);
    let n = expected@.len() as int;
    assert(all.drop_last() == text_pairs(expected@)) by {
        assert forall|i: int| 0 <= i < n implies all.drop_last()[i] == text_pairs(expected@)[i] by {
            assert(more@.take(n)[i] == more@[i]);
        }
    }
    assert(all.last() == (more@[n].0@, more@[n].1@));
    lemma_env_gives(env_vars@, more@[n].0@, more@[n].1@);
    if expected@.len() == 0 {
        assert(texts(names@).len() == names@.len());
    }
}

/// Nothing is missing only where every expected variable is there with exactly its value.
pub proof fn law_nothing_missing_means_all_given(
    env_vars: &[String],
    expected: &[(String, String)],
    names: Vec<String>,
)
    requires
        call_ensures(missing_env_vars, (env_vars, expected), names),
    ensures
        names@.len() == 0 <==> forall|i: int|
            0 <= i < expected@.len() ==> env_gives(
                env_vars@,
                (#[trigger] expected@[i]).0@,
                expected@[i].1@,
            ),
{
    lemma_all_given(env_vars@, expected@);
    assert(texts(names@).len() == names@.len());
}

/// Nothing is missing only where every expected variable is there with exactly its value.
pub proof fn lemma_all_given(env_vars: Seq<String>, expected: Seq<(String, String)>)
    ensures
        missing(texts(env_vars), text_pairs(expected)).len() == 0 <==> forall|i: int|
            0 <= i < expected.len() ==> env_gives(
                env_vars,
                (#[trigger] expected[i]).0@,
                expected[i].1@,
            ),
{
    let env = texts(env_vars);
    let pairs = text_pairs(expected);
    law_nothing_is_missing_where_all_is_set(env, pairs);
    assert forall|i: int| 0 <= i < expected.len() implies (env_gives(
        env_vars,
        (#[trigger] expected[i]).0@,
        expected[i].1@,
    ) <==> is_set(env, pairs[i].0, pairs[i].1)) by {
        lemma_env_gives(env_vars, expected[i].0@, expected[i].1@);
    }
    if missing(env, pairs).len() == 0 {
        assert forall|i: int| 0 <= i < expected.len() implies env_gives(
            env_vars,
            (#[trigger] expected[i]).0@,
            expected[i].1@,
        ) by {
            assert(is_set(env, pairs[i].0, pairs[i].1));
        }
    }
    if forall|i: int|
        0 <= i < expected.len() ==> env_gives(
            env_vars,
            (#[trigger] expected[i]).0@,
            expected[i].1@,
        ) {
        assert forall|i: int| 0 <= i < pairs.len() implies is_set(
            env,
            (#[trigger] pairs[i]).0,
            pairs[i].1,
        ) by {
            assert(env_gives(env_vars, expected[i].0@, expected[i].1@));
        }
    }
}

/// Every name that is to go is taken away, in order, and then every variable is set, in order, and
/// nothing else is done.
pub proof fn law_every_change_is_made(
    proxy_env: &[(String, String)],
    proxy_env_removals: &[String],
    edits: Vec<EnvEdit>,
)
    requires
        call_ensures(child_env_edits, (proxy_env, proxy_env_removals), edits),
    ensures
        edits@.len() == proxy_env_removals@.len() + proxy_env@.len(),
        forall|i: int|
            0 <= i < proxy_env_removals@.len() ==> (#[trigger] edits@[i] matches EnvEdit::Remove {
                key,
            } && key@ == proxy_env_removals@[i]@),
        forall|i: int|
            proxy_env_removals@.len() <= i < edits@.len() ==> (#[trigger] edits@[i]
                matches EnvEdit::Assign { key, value } && key@ == proxy_env@[i
                - proxy_env_removals@.len()].0@ && value@ == proxy_env@[i
                - proxy_env_removals@.len()].1@),
{
    lemma_changes(proxy_env@, proxy_env_removals@, edits@);
}

/// The changes, one by one.
pub proof fn lemma_changes(
    proxy_env: Seq<(String, String)>,
    removals: Seq<String>,
    edits: Seq<EnvEdit>,
)
    requires
        edit_views(edits) == env_edits(text_pairs(proxy_env), texts(removals)),
    ensures
        edits.len() == removals.len() + proxy_env.len(),
        forall|i: int|
            0 <= i < removals.len() ==> (#[trigger] edits[i] matches EnvEdit::Remove { key } && key@
                == removals[i]@),
        forall|i: int|
            removals.len() <= i < edits.len() ==> (#[trigger] edits[i] matches EnvEdit::Assign {
                key,
                value,
            } && key@ == proxy_env[i - removals.len()].0@ && value@ == proxy_env[i
                - removals.len()].1@),
{
    let all = env_edits(text_pairs(proxy_env), texts(removals));
    assert(edit_views(edits).len() == edits.len());
    assert forall|i: int| 0 <= i < removals.len() implies (#[trigger] edits[i]
        matches EnvEdit::Remove { key } && key@ == removals[i]@) by {
        assert(edit_views(edits)[i] == all[i]);
    }
    assert forall|i: int| removals.len() <= i < edits.len() implies (#[trigger] edits[i]
        matches EnvEdit::Assign { key, value } && key@ == proxy_env[i - removals.len()].0@ && value@
        == proxy_env[i - removals.len()].1@) by {
        assert(edit_views(edits)[i] == all[i]);
    }
}

/// An address is its bytes, each worth 256 times the one before it; where not all of them were read
/// there is none, and what was read is told.
pub proof fn law_address_is_its_bytes(
    address: u64,
    buffer: &[u8],
    bytes_read: usize,
    value: Result<u64, LaunchError>,
)
    requires
        buffer@.len() == 8,
        call_ensures(read_remote_usize, (address, buffer, bytes_read), value),
    ensures
        bytes_read == 8 <==> value is Ok,
        value matches Ok(v) ==> v == buffer@[0] + 0x100 * buffer@[1] + 0x1_0000 * buffer@[2]
            + 0x100_0000 * buffer@[3] + 0x1_0000_0000 * buffer@[4] + 0x100_0000_0000 * buffer@[5]
            + 0x1_0000_0000_0000 * buffer@[6] + 0x100_0000_0000_0000 * buffer@[7],
        value matches Err(error) ==> error == (LaunchError::ShortRead {
            address,
            expected: 8,
            got: bytes_read,
        }),
{
    reveal_with_fuel(little_endian, 9);
}

/// What stands before a NUL and what stands behind it have each their own entries.
pub proof fn law_nul_parts_entries(a: Seq<char>, b: Seq<char>)
    ensures
        environment_entries(a.push('\0') + b) == environment_entries(a) + environment_entries(b),
    decreases a.len(),
{
    let s = a.push('\0') + b;
    lemma_first_index(a, '\0');
    let at = first_index(a, '\0');
    assert forall|i: int| 0 <= i < at implies s[i] != '\0' by {
        assert(s[i] == a[i]);
    }
    lemma_first_index_unique(s, '\0', at);
    assert(s.take(at) == a.take(at));
    if at < a.len() {
        let rest = a.skip(at + 1);
        assert(s.skip(at + 1) == rest.push('\0') + b);
        law_nul_parts_entries(rest, b);
    } else {
        assert(s.skip(at + 1) == b);
    }
    assert(environment_entries(s) == environment_entries(a) + environment_entries(b));
}

/// A text without a NUL is one entry, and an empty text is none.
pub proof fn law_text_without_nul_is_an_entry(entry: Seq<char>)
    requires
        is_free_of(entry, '\0'),
    ensures
        entry.len() > 0 ==> environment_entries(entry) == seq![entry],
        entry.len() == 0 ==> environment_entries(entry).len() == 0,
{
    lemma_first_index_unique(entry, '\0', entry.len() as int);
    assert(entry.take(entry.len() as int) == entry);
    assert(seq![entry] + Seq::<Seq<char>>::empty() == seq![entry]);
}

/// The entries of a block are what stands between its NULs, if anything does.
pub proof fn law_entries_of_block(
    raw: &str,
    rest: &str,
    entry: Seq<char>,
    entries: Vec<String>,
    others: Vec<String>,
)
    requires
        call_ensures(entries_of_block, (raw,), entries),
        call_ensures(entries_of_block, (rest,), others),
        is_free_of(entry, '\0'),
    ensures
        raw@ == entry.push('\0') + rest@ && entry.len() > 0 ==> texts(entries@) == seq![entry]
            + texts(others@),
        raw@ == entry.push('\0') + rest@ && entry.len() == 0 ==> texts(entries@) == texts(others@),
        raw@ == entry && entry.len() > 0 ==> texts(entries@) == seq![entry],
        raw@ == entry && entry.len() == 0 ==> entries@.len() == 0,
{
    law_nul_parts_entries(entry, rest@);
    law_text_without_nul_is_an_entry(entry);
    assert(texts(entries@).len() == entries@.len());
    if entry.len() == 0 {
        assert(environment_entries(entry) + environment_entries(rest@) == environment_entries(
            rest@,
        ));
    }
}

/// The text of a block is that of the units before its first two zero units, or of all units where
/// there are none.
pub proof fn law_text_of_block(bytes: &[u8], text: String)
    requires
        call_ensures(environment_text, (bytes,), text),
    ensures
        forall|at: int| #[trigger]
            is_double_nul_position(bytes@, Some(at)) ==> text@ == decoded(
                units_of(bytes@).take(at / 2),
            ),
        (forall|at: int| !#[trigger] double_nul_at(bytes@, at)) ==> text@ == decoded(
            units_of(bytes@),
        ),
{
    assert forall|at: int| #[trigger] is_double_nul_position(bytes@, Some(at)) implies text@
        == decoded(units_of(bytes@).take(at / 2)) by {
        lemma_double_nul_position(bytes@, Some(at));
        assert(double_nul_at(bytes@, at));
        assert(units_of(bytes@.take(at)) == units_of(bytes@).take(at / 2));
    }
    if forall|at: int| !#[trigger] double_nul_at(bytes@, at) {
        assert(is_double_nul_position(bytes@, None));
        lemma_double_nul_position(bytes@, None);
    }
}

/// The block of some entries is read back as these entries.
pub proof fn law_block_is_read_back(
    bytes: &[u8],
    text: String,
    raw: &str,
    entries: Vec<String>,
    written: Seq<Seq<char>>,
    behind: Seq<u8>,
)
    requires
        call_ensures(environment_text, (bytes,), text),
        call_ensures(entries_of_block, (raw,), entries),
        raw@ == text@,
        block_entries(written),
        bytes@ == environment_block(written) + behind,
    ensures
        texts(entries@) == written,
{
    law_environment_block_reads_back(written, behind);
}

/// Reading in chunks goes on just where a chunk came, two zero units are not among what was read, and
/// less than the limit was read; it goes on where it stopped.
pub proof fn law_reading_goes_on(before: Seq<u8>, chunk: ChunkRead)
    ensures
        gathered(before, chunk) == match chunk {
            ChunkRead::Bytes(read) => before + read@,
            ChunkRead::Failed => before,
        },
        match chunk_step(before, chunk) {
            ChunkStepView::ReadAt { offset } => {
                &&& chunk is Bytes
                &&& offset == gathered(before, chunk).len()
                &&& offset < 256 * 1024
                &&& forall|at: int| !#[trigger] double_nul_at(gathered(before, chunk), at)
            },
            ChunkStepView::Unreadable => chunk is Failed && before.len() == 0,
            ChunkStepView::Text { text } => {
                &&& text == block_text(gathered(before, chunk))
                &&& chunk is Failed ==> before.len() > 0
                &&& chunk is Bytes ==> gathered(before, chunk).len() >= 256 * 1024 || exists|at: int| #[trigger]
                    double_nul_at(gathered(before, chunk), at)
            },
        },
{
    let all = gathered(before, chunk);
    lemma_position_is_told(all);
}

/// What reading a chunk does: what was read is kept and the chunk comes behind it. The text is given
/// just where the end of the block was read, where enough was read, or where no more can be read;
/// else reading goes on where it stopped.
pub open spec fn reads_on(
    before: Seq<u8>,
    after: Seq<u8>,
    chunk: ChunkRead,
    step: ChunkStep,
) -> bool {
    match chunk {
        ChunkRead::Failed => {
            &&& after == before
            &&& step is Unreadable <==> before.len() == 0
            &&& before.len() > 0 ==> (step matches ChunkStep::Text(text) && text@ == block_text(
                before,
            ))
        },
        ChunkRead::Bytes(read) => {
            &&& after == before + read@
            &&& match step {
                ChunkStep::ReadAt(offset) => {
                    &&& offset == after.len()
                    &&& after.len() < 256 * 1024
                    &&& forall|at: int| !#[trigger] double_nul_at(after, at)
                },
                ChunkStep::Text(text) => {
                    &&& text@ == block_text(after)
                    &&& after.len() >= 256 * 1024 || exists|at: int| #[trigger]
                        double_nul_at(after, at)
                },
                ChunkStep::Unreadable => false,
            }
        },
    }
}

/// Every chunk is read on as it should be, whatever was read before it.
pub proof fn law_chunks_are_read_on(chunk: ChunkRead, step: ChunkStep)
    ensures
        forall|bytes: &mut Vec<u8>| #[trigger]
            call_ensures(read_remote_utf16_double_nul_string, (bytes, chunk), step) ==> reads_on(
                bytes@,
                final(bytes)@,
                chunk,
                step,
            ),
{
    assert forall|bytes: &mut Vec<u8>| #[trigger]
        call_ensures(read_remote_utf16_double_nul_string, (bytes, chunk), step) implies reads_on(
        bytes@,
        final(bytes)@,
        chunk,
        step,
    ) by {
        law_reading_goes_on(bytes@, chunk);
        assert(step@ == chunk_step(bytes@, chunk));
    }
}

/// There is a first place of two zero units just where there is one.
proof fn lemma_position_is_told(bytes: Seq<u8>)
    ensures
        double_nul_position(bytes) is Some <==> exists|at: int| #[trigger] double_nul_at(bytes, at),
{
    if exists|at: int| #[trigger] double_nul_at(bytes, at) {
        let at = choose|at: int| #[trigger] double_nul_at(bytes, at);
        lemma_least(bytes, at);
    } else {
        assert(is_double_nul_position(bytes, None));
        lemma_double_nul_position(bytes, None);
    }
}

proof fn lemma_least(bytes: Seq<u8>, at: int)
    requires
        double_nul_at(bytes, at),
    ensures
        double_nul_position(bytes) is Some,
    decreases at,
{
    if exists|i: int| 0 <= i < at && #[trigger] double_nul_at(bytes, i) {
        let i = choose|i: int| 0 <= i < at && #[trigger] double_nul_at(bytes, i);
        lemma_least(bytes, i);
    } else {
        assert(is_double_nul_position(bytes, Some(at)));
        lemma_double_nul_position(bytes, Some(at));
    }
}

/// Reading the environment of a process goes on with every event that leads on: it fails just where
/// the query failed or the process is not of 64 bits, and is done just where the text was read. The
/// addresses are those that the process tells, and the offsets behind them.
pub proof fn law_reading_a_process_goes_on(event: EnvReadEvent, action: EnvReadAction)
    requires
        in_memory(event),
        call_ensures(read_process_environment, (event,), action),
    ensures
        match event {
            EnvReadEvent::ProcessQueried { status, peb_base_address, is_64_bit } => {
                &&& action is Fail <==> status != 0 || !is_64_bit
                &&& status != 0 ==> action == EnvReadAction::Fail(
                    LaunchError::ProcessQueryFailed { status },
                )
                &&& status == 0 && !is_64_bit ==> action == EnvReadAction::Fail(
                    LaunchError::RemoteReadUnsupported,
                )
                &&& status == 0 && is_64_bit ==> (action matches EnvReadAction::ReadParameters {
                    address,
                } && address == peb_base_address + 0x20)
            },
            EnvReadEvent::ParametersRead { process_parameters } => action
                matches EnvReadAction::ReadPointer { address } && address == process_parameters
                + 0x80,
            EnvReadEvent::PointerRead { environment_address } => action
                matches EnvReadAction::ReadText { address } && address == environment_address,
            EnvReadEvent::TextRead { raw } => action matches EnvReadAction::Done(entries) && texts(
                entries@,
            ) == environment_entries(raw@),
        },
{
}

/// A successful query of a process of 64 bits leads on from wherever the process keeps its data, and
/// nothing but a failed query or another width ends the reading before the text was read.
pub proof fn law_reading_does_not_give_up(event: EnvReadEvent)
    ensures
        env_read_action(event) is Fail <==> (event matches EnvReadEvent::ProcessQueried {
            status,
            is_64_bit,
            ..
        } && (status != 0 || !is_64_bit)),
        env_read_action(event) is Done <==> event is TextRead,
        env_read_action(event) is ReadPointer <==> event is ParametersRead,
        env_read_action(event) is ReadText <==> event is PointerRead,
        event matches EnvReadEvent::ProcessQueried { status: 0, peb_base_address, is_64_bit: true }
            ==> env_read_action(event) == (EnvReadActionView::ReadParameters {
            address: peb_base_address + 0x20,
        }),
{
}

/// An event leads on within memory just where the address and its offset do not go beyond it.
pub proof fn law_addresses_lie_in_memory(event: EnvReadEvent, ok: bool)
    requires
        call_ensures(is_in_memory, (&event,), ok),
    ensures
        ok <==> match event {
            EnvReadEvent::ProcessQueried { status, peb_base_address, is_64_bit } => status != 0
                || !is_64_bit || peb_base_address + 0x20 < 0x1_0000_0000_0000_0000,
            EnvReadEvent::ParametersRead { process_parameters } => process_parameters + 0x80
                < 0x1_0000_0000_0000_0000,
            _ => true,
        },
{
}

} // verus!
