//! The environment of a process: how it is changed before a start, read from memory, and checked.

use vstd::prelude::*;

use vstd::slice::slice_subrange;

use crate::error::LaunchError;
use crate::text::{
    chars_of, eq_ignoring_ascii_case, find_from, first_index, lemma_first_index,
    same_ignoring_ascii_case, split_once, string_of, text_pairs, texts,
};
use crate::utf16::{
    contains_utf16_double_nul, decoded, double_nul_position, text_of_units, units_of, units_of_bytes,
    utf16_double_nul_position,
};

verus! {

/// Where the address of the process parameters stands behind the address of the process
/// environment block.
pub const PEB_PROCESS_PARAMETERS_OFFSET: u64 = 0x20;

/// Where the address of the environment stands behind the address of the process parameters.
pub const PROCESS_PARAMETERS_ENVIRONMENT_OFFSET: u64 = 0x80;

/// How many bytes an address takes.
pub const POINTER_BYTES: usize = 8;

/// How many bytes of an environment are read at once.
pub const ENVIRONMENT_CHUNK: usize = 4096;

/// How many bytes of an environment are enough.
pub const ENVIRONMENT_LIMIT: usize = 262144;

/// A change to the environment that a started process inherits.
#[derive(Debug, PartialEq, Eq)]
pub enum EnvEdit {
    /// The variable is taken away.
    Remove { key: String },
    /// The variable gets this value.
    Assign { key: String, value: String },
}

/// A change to an environment, with its texts.
#[verifier::ext_equal]
pub enum EnvEditView {
    Remove { key: Seq<char> },
    Assign { key: Seq<char>, value: Seq<char> },
}

impl View for EnvEdit {
    type V = EnvEditView;

    open spec fn view(&self) -> EnvEditView {
        match *self {
            EnvEdit::Remove { key } => EnvEditView::Remove { key: key@ },
            EnvEdit::Assign { key, value } => EnvEditView::Assign { key: key@, value: value@ },
        }
    }
}

impl EnvEditView {
    /// The environment after the change. An environment has one value for each name, and two names
    /// are the same to the system where `fold` makes them equal: on Windows the case of letters
    /// does not tell names apart, elsewhere it does.
    pub open spec fn applied(
        self,
        env: Map<Seq<char>, Seq<char>>,
        fold: spec_fn(Seq<char>) -> Seq<char>,
    ) -> Map<Seq<char>, Seq<char>> {
        match self {
            EnvEditView::Remove { key } => env.remove(fold(key)),
            EnvEditView::Assign { key, value } => env.insert(fold(key), value),
        }
    }
}

/// The changes with their texts.
pub open spec fn edit_views(edits: Seq<EnvEdit>) -> Seq<EnvEditView> {
    edits.map_values(|edit: EnvEdit| edit@)
}

/// The changes that take variables away and then set others.
pub open spec fn env_edits(vars: Seq<(Seq<char>, Seq<char>)>, keys: Seq<Seq<char>>) -> Seq<
    EnvEditView,
> {
    keys.map_values(|key: Seq<char>| EnvEditView::Remove { key }) + vars.map_values(
        |var: (Seq<char>, Seq<char>)| EnvEditView::Assign { key: var.0, value: var.1 },
    )
}

/// The environment after changes, the first one first.
pub open spec fn edited(
    env: Map<Seq<char>, Seq<char>>,
    edits: Seq<EnvEditView>,
    fold: spec_fn(Seq<char>) -> Seq<char>,
) -> Map<Seq<char>, Seq<char>>
    decreases edits.len(),
{
    if edits.len() == 0 {
        env
    } else {
        edits.last().applied(edited(env, edits.drop_last(), fold), fold)
    }
}

/// An environment without some variables.
pub open spec fn without(
    env: Map<Seq<char>, Seq<char>>,
    keys: Seq<Seq<char>>,
    fold: spec_fn(Seq<char>) -> Seq<char>,
) -> Map<Seq<char>, Seq<char>>
    decreases keys.len(),
{
    if keys.len() == 0 {
        env
    } else {
        without(env, keys.drop_last(), fold).remove(fold(keys.last()))
    }
}

/// An environment with some variables set, the last value of a name winning.
pub open spec fn with_all(
    env: Map<Seq<char>, Seq<char>>,
    vars: Seq<(Seq<char>, Seq<char>)>,
    fold: spec_fn(Seq<char>) -> Seq<char>,
) -> Map<Seq<char>, Seq<char>>
    decreases vars.len(),
{
    if vars.len() == 0 {
        env
    } else {
        with_all(env, vars.drop_last(), fold).insert(fold(vars.last().0), vars.last().1)
    }
}

/// An environment entry gives a variable its value. Names are told apart without the case of
/// ASCII letters.
pub open spec fn entry_sets(entry: Seq<char>, key: Seq<char>, value: Seq<char>) -> bool {
    match split_once(entry, '=') {
        Some((entry_key, entry_value)) => same_ignoring_ascii_case(entry_key, key) && entry_value
            == value,
        None => false,
    }
}

/// Some entry gives a variable its value.
pub open spec fn is_set(env: Seq<Seq<char>>, key: Seq<char>, value: Seq<char>) -> bool {
    exists|i: int| 0 <= i < env.len() && entry_sets(#[trigger] env[i], key, value)
}

/// The names of the expected variables that no entry sets, in order.
pub open spec fn missing(env: Seq<Seq<char>>, expected: Seq<(Seq<char>, Seq<char>)>) -> Seq<
    Seq<char>,
>
    decreases expected.len(),
{
    if expected.len() == 0 {
        seq![]
    } else {
        let (key, value) = expected.last();
        if is_set(env, key, value) {
            missing(env, expected.drop_last())
        } else {
            missing(env, expected.drop_last()).push(key)
        }
    }
}

/// The number that the bytes hold, low byte first.
pub open spec fn little_endian(bytes: Seq<u8>) -> nat
    decreases bytes.len(),
{
    if bytes.len() == 0 {
        0
    } else {
        bytes[0] as nat + 256 * little_endian(bytes.skip(1))
    }
}

/// The text of an environment block: what stands before two zero units, or all of it.
pub open spec fn block_text(bytes: Seq<u8>) -> Seq<char> {
    match double_nul_position(bytes) {
        Some(at) => decoded(units_of(bytes.take(at))),
        None => decoded(units_of(bytes)),
    }
}

/// The entries of an environment block: what stands between the NULs, if anything does.
pub open spec fn environment_entries(text: Seq<char>) -> Seq<Seq<char>>
    decreases text.len(),
    via environment_entries_decreases
{
    let at = first_index(text, '\0');
    let first = text.take(at);
    let others = if at < text.len() {
        environment_entries(text.skip(at + 1))
    } else {
        seq![]
    };
    if first.len() > 0 {
        seq![first] + others
    } else {
        others
    }
}

#[via_fn]
proof fn environment_entries_decreases(text: Seq<char>) {
    lemma_first_index(text, '\0');
}

/// The changes that bring the environment of a launch about: variables are taken away first, then
/// set.
pub fn child_env_edits(proxy_env: &[(String, String)], proxy_env_removals: &[String]) -> (edits:
    Vec<EnvEdit>)
    ensures
        edit_views(edits@) == env_edits(text_pairs(proxy_env@), texts(proxy_env_removals@)),
{
    let mut edits: Vec<EnvEdit> = Vec::new();
    let ghost removals = proxy_env_removals@.len() as int;
    let ghost all = env_edits(text_pairs(proxy_env@), texts(proxy_env_removals@));
    let mut i: usize = 0;
    while i < proxy_env_removals.len()
        invariant
            i <= proxy_env_removals@.len(),
            all == env_edits(text_pairs(proxy_env@), texts(proxy_env_removals@)),
            edit_views(edits@) == all.take(i as int),
        decreases proxy_env_removals@.len() - i,
    {
        let ghost before = edit_views(edits@);
        let edit = EnvEdit::Remove { key: proxy_env_removals[i].clone() };
        let ghost view = edit@;
        edits.push(edit);
        assert(edit_views(edits@) == before.push(view));
        assert(view == all[i as int]);
        i = i + 1;
    }
    i = 0;
    while i < proxy_env.len()
        invariant
            i <= proxy_env@.len(),
            removals == proxy_env_removals@.len(),
            all == env_edits(text_pairs(proxy_env@), texts(proxy_env_removals@)),
            edit_views(edits@) == all.take(removals + i),
        decreases proxy_env@.len() - i,
    {
        let ghost before = edit_views(edits@);
        let edit = EnvEdit::Assign { key: proxy_env[i].0.clone(), value: proxy_env[i].1.clone() };
        let ghost view = edit@;
        edits.push(edit);
        assert(edit_views(edits@) == before.push(view));
        assert(view == all[removals + i]);
        i = i + 1;
    }
    assert(all.take(removals + i) == all);
    edits
}

/// Whether an environment entry gives a variable its value.
pub fn entry_matches(entry: &str, key: &str, value: &str) -> (set: bool)
    ensures
        set == entry_sets(entry@, key@, value@),
{
    let chars = chars_of(entry);
    assert(chars@.skip(0) == chars@);
    let at = find_from(&chars, 0, '=');
    if at == chars.len() {
        return false;
    }
    let entry_key = slice_subrange(&chars, 0, at);
    let entry_value = string_of(&chars, at + 1, chars.len());
    assert(entry_key@ == entry@.take(at as int));
    assert(entry_value@ == entry@.skip(at + 1));
    eq_ignoring_ascii_case(entry_key, &chars_of(key)) && entry_value == value.to_string()
}

/// The names of the expected variables that the environment does not hold with the expected value,
/// in order.
pub fn missing_env_vars(env_vars: &[String], expected: &[(String, String)]) -> (names: Vec<String>)
    ensures
        texts(names@) == missing(texts(env_vars@), text_pairs(expected@)),
{
    let ghost env = texts(env_vars@);
    let ghost vars = text_pairs(expected@);
    let mut names: Vec<String> = Vec::new();
    let mut i: usize = 0;
    while i < expected.len()
        invariant
            i <= expected@.len(),
            env == texts(env_vars@),
            vars == text_pairs(expected@),
            texts(names@) == missing(env, vars.take(i as int)),
        decreases expected@.len() - i,
    {
        let ghost before = texts(names@);
        let key = &expected[i].0;
        let value = &expected[i].1;
        let mut found = false;
        let mut j: usize = 0;
        while j < env_vars.len()
            invariant
                j <= env_vars@.len(),
                env == texts(env_vars@),
                found == exists|k: int|
                    0 <= k < j && entry_sets(#[trigger] env[k], key@, value@),
            decreases env_vars@.len() - j,
        {
            let set = entry_matches(env_vars[j].as_str(), key.as_str(), value.as_str());
            assert(env[j as int] == env_vars@[j as int]@);
            if set {
                found = true;
            }
            j = j + 1;
        }
        assert(vars.take(i + 1).drop_last() == vars.take(i as int));
        assert(vars.take(i + 1).last() == (key@, value@));
        if !found {
            let name = key.clone();
            names.push(name);
            assert(texts(names@) == before.push(name@));
        }
        i = i + 1;
    }
    assert(vars.take(i as int) == vars);
    names
}

/// The address that was read at `address` of another process. Every system that this is read on
/// keeps the low byte first.
pub fn read_remote_usize(address: u64, buffer: &[u8], bytes_read: usize) -> (value: Result<
    u64,
    LaunchError,
>)
    requires
        buffer@.len() == POINTER_BYTES,
    ensures
        bytes_read != POINTER_BYTES ==> value == Err::<u64, LaunchError>(
            LaunchError::ShortRead { address, expected: POINTER_BYTES, got: bytes_read },
        ),
        bytes_read == POINTER_BYTES ==> (value matches Ok(v) && v == little_endian(buffer@)),
{
    if bytes_read != buffer.len() {
        return Err(LaunchError::ShortRead { address, expected: buffer.len(), got: bytes_read });
    }
    let value: u64 = buffer[0] as u64 + 0x100 * buffer[1] as u64 + 0x1_0000 * buffer[2] as u64
        + 0x100_0000 * buffer[3] as u64 + 0x1_0000_0000 * buffer[4] as u64 + 0x100_0000_0000
        * buffer[5] as u64 + 0x1_0000_0000_0000 * buffer[6] as u64 + 0x100_0000_0000_0000
        * buffer[7] as u64;
    assert(value == little_endian(buffer@)) by {
        reveal_with_fuel(little_endian, 9);
    }
    Ok(value)
}

/// What came of reading a chunk of an environment.
#[derive(Debug, PartialEq, Eq)]
pub enum ChunkRead {
    /// Nothing could be read.
    Failed,
    /// These bytes were read.
    Bytes(Vec<u8>),
}

/// What comes next in reading an environment.
#[derive(Debug, PartialEq, Eq)]
pub enum ChunkStep {
    /// Read a chunk this far behind the start.
    ReadAt(usize),
    /// The environment cannot be read.
    Unreadable,
    /// The environment was read; this is its text.
    Text(String),
}

/// What comes next in reading an environment, with its text.
#[verifier::ext_equal]
pub enum ChunkStepView {
    ReadAt { offset: nat },
    Unreadable,
    Text { text: Seq<char> },
}

impl View for ChunkStep {
    type V = ChunkStepView;

    open spec fn view(&self) -> ChunkStepView {
        match *self {
            ChunkStep::ReadAt(offset) => ChunkStepView::ReadAt { offset: offset as nat },
            ChunkStep::Unreadable => ChunkStepView::Unreadable,
            ChunkStep::Text(text) => ChunkStepView::Text { text: text@ },
        }
    }
}

/// What was read of an environment, once a chunk came.
pub open spec fn gathered(before: Seq<u8>, chunk: ChunkRead) -> Seq<u8> {
    match chunk {
        ChunkRead::Failed => before,
        ChunkRead::Bytes(read) => before + read@,
    }
}

/// What comes next, once a chunk came. Reading ends where two zero units were read, where enough
/// was read, and where the next chunk cannot be read; an environment of which nothing could be read
/// is unreadable.
pub open spec fn chunk_step(before: Seq<u8>, chunk: ChunkRead) -> ChunkStepView {
    let all = gathered(before, chunk);
    match chunk {
        ChunkRead::Failed => if all.len() == 0 {
            ChunkStepView::Unreadable
        } else {
            ChunkStepView::Text { text: block_text(all) }
        },
        ChunkRead::Bytes(read) => if double_nul_position(all) is Some || all.len()
            >= ENVIRONMENT_LIMIT {
            ChunkStepView::Text { text: block_text(all) }
        } else {
            ChunkStepView::ReadAt { offset: all.len() }
        },
    }
}

/// The text of the environment block that the bytes hold.
pub fn environment_text(bytes: &[u8]) -> (text: String)
    ensures
        text@ == block_text(bytes@),
{
    match utf16_double_nul_position(bytes) {
        Some(at) => {
            let head = slice_subrange(bytes, 0, at);
            assert(head@ == bytes@.take(at as int));
            text_of_units(&units_of_bytes(head))
        },
        None => text_of_units(&units_of_bytes(bytes)),
    }
}

/// Goes on reading an environment: `bytes` holds what was read so far, from its start.
pub fn read_remote_utf16_double_nul_string(bytes: &mut Vec<u8>, chunk: ChunkRead) -> (step:
    ChunkStep)
    ensures
        final(bytes)@ == gathered(old(bytes)@, chunk),
        step@ == chunk_step(old(bytes)@, chunk),
{
    match chunk {
        ChunkRead::Failed => {
            if bytes.len() == 0 {
                return ChunkStep::Unreadable;
            }
            ChunkStep::Text(environment_text(bytes))
        },
        ChunkRead::Bytes(read) => {
            let mut read = read;
            bytes.append(&mut read);
            if contains_utf16_double_nul(bytes) || bytes.len() >= ENVIRONMENT_LIMIT {
                ChunkStep::Text(environment_text(bytes))
            } else {
                ChunkStep::ReadAt(bytes.len())
            }
        },
    }
}

/// The entries of an environment block.
pub fn entries_of_block(raw: &str) -> (entries: Vec<String>)
    ensures
        texts(entries@) == environment_entries(raw@),
{
    let chars = chars_of(raw);
    let mut entries: Vec<String> = Vec::new();
    let mut from: usize = 0;
    let mut more = true;
    assert(raw@.skip(0) == raw@);
    while more
        invariant
            from <= chars@.len(),
            chars@ == raw@,
            more ==> environment_entries(raw@) == texts(entries@) + environment_entries(
                raw@.skip(from as int),
            ),
            !more ==> environment_entries(raw@) == texts(entries@),
        decreases chars@.len() - from, (if more { 1int } else { 0int }),
    {
        let ghost rest = raw@.skip(from as int);
        let ghost before = texts(entries@);
        let at = find_from(&chars, from, '\0');
        assert(rest.take(at - from) == chars@.subrange(from as int, at as int));
        if at > from {
            let entry = string_of(&chars, from, at);
            entries.push(entry);
            assert(texts(entries@) == before.push(entry@));
        }
        if at < chars.len() {
            assert(rest.skip(at - from + 1) == raw@.skip(at + 1));
            from = at + 1;
        } else {
            more = false;
        }
    }
    entries
}

/// What happened last in reading the environment of another process.
#[derive(Debug, PartialEq, Eq)]
pub enum EnvReadEvent {
    /// The system was asked where the process keeps its data.
    ProcessQueried { status: i32, peb_base_address: u64, is_64_bit: bool },
    /// The address of the process parameters was read.
    ParametersRead { process_parameters: u64 },
    /// The address of the environment was read.
    PointerRead { environment_address: u64 },
    /// The text of the environment block was read.
    TextRead { raw: String },
}

/// What reading the environment of another process does next.
#[derive(Debug, PartialEq, Eq)]
pub enum EnvReadAction {
    /// Read the address of the process parameters here.
    ReadParameters { address: u64 },
    /// Read the address of the environment here.
    ReadPointer { address: u64 },
    /// Read the text of the environment block from here on.
    ReadText { address: u64 },
    /// These are the variables.
    Done(Vec<String>),
    /// Give up.
    Fail(LaunchError),
}

/// The addresses that are read lie in memory.
pub open spec fn in_memory(event: EnvReadEvent) -> bool {
    match event {
        EnvReadEvent::ProcessQueried { status, peb_base_address, is_64_bit } => status == 0
            && is_64_bit ==> peb_base_address + PEB_PROCESS_PARAMETERS_OFFSET <= u64::MAX,
        EnvReadEvent::ParametersRead { process_parameters } => process_parameters
            + PROCESS_PARAMETERS_ENVIRONMENT_OFFSET <= u64::MAX,
        _ => true,
    }
}

/// Whether the addresses that are read lie in memory.
pub fn is_in_memory(event: &EnvReadEvent) -> (ok: bool)
    ensures
        ok == in_memory(*event),
{
    match event {
        EnvReadEvent::ProcessQueried { status, peb_base_address, is_64_bit } => {
            *status != 0 || !*is_64_bit || *peb_base_address <= u64::MAX
                - PEB_PROCESS_PARAMETERS_OFFSET
        },
        EnvReadEvent::ParametersRead { process_parameters } => {
            *process_parameters <= u64::MAX - PROCESS_PARAMETERS_ENVIRONMENT_OFFSET
        },
        EnvReadEvent::PointerRead { .. } => true,
        EnvReadEvent::TextRead { .. } => true,
    }
}

/// What reading the environment of another process does next, with its texts.
#[verifier::ext_equal]
pub enum EnvReadActionView {
    ReadParameters { address: int },
    ReadPointer { address: int },
    ReadText { address: int },
    Done { entries: Seq<Seq<char>> },
    Fail { error: LaunchError },
}

impl View for EnvReadAction {
    type V = EnvReadActionView;

    open spec fn view(&self) -> EnvReadActionView {
        match *self {
            EnvReadAction::ReadParameters { address } => EnvReadActionView::ReadParameters {
                address: address as int,
            },
            EnvReadAction::ReadPointer { address } => EnvReadActionView::ReadPointer {
                address: address as int,
            },
            EnvReadAction::ReadText { address } => EnvReadActionView::ReadText {
                address: address as int,
            },
            EnvReadAction::Done(entries) => EnvReadActionView::Done { entries: texts(entries@) },
            EnvReadAction::Fail(error) => EnvReadActionView::Fail { error },
        }
    }
}

/// What is done once an event happened: from the process environment block to the parameters, from
/// these to the environment, and from the text of this to the variables.
pub open spec fn env_read_action(event: EnvReadEvent) -> EnvReadActionView {
    match event {
        EnvReadEvent::ProcessQueried { status, peb_base_address, is_64_bit } => if status != 0 {
            EnvReadActionView::Fail { error: LaunchError::ProcessQueryFailed { status } }
        } else if !is_64_bit {
            EnvReadActionView::Fail { error: LaunchError::RemoteReadUnsupported }
        } else {
            EnvReadActionView::ReadParameters {
                address: peb_base_address + PEB_PROCESS_PARAMETERS_OFFSET,
            }
        },
        EnvReadEvent::ParametersRead { process_parameters } => EnvReadActionView::ReadPointer {
            address: process_parameters + PROCESS_PARAMETERS_ENVIRONMENT_OFFSET,
        },
        EnvReadEvent::PointerRead { environment_address } => EnvReadActionView::ReadText {
            address: environment_address as int,
        },
        EnvReadEvent::TextRead { raw } => EnvReadActionView::Done {
            entries: environment_entries(raw@),
        },
    }
}

/// Says what to do next in reading the environment of another process.
pub fn read_process_environment(event: EnvReadEvent) -> (action: EnvReadAction)
    requires
        in_memory(event),
    ensures
        action@ == env_read_action(event),
{
    match event {
        EnvReadEvent::ProcessQueried { status, peb_base_address, is_64_bit } => {
            if status != 0 {
                EnvReadAction::Fail(LaunchError::ProcessQueryFailed { status })
            } else if !is_64_bit {
                EnvReadAction::Fail(LaunchError::RemoteReadUnsupported)
            } else {
                EnvReadAction::ReadParameters {
                    address: peb_base_address + PEB_PROCESS_PARAMETERS_OFFSET,
                }
            }
        },
        EnvReadEvent::ParametersRead { process_parameters } => EnvReadAction::ReadPointer {
            address: process_parameters + PROCESS_PARAMETERS_ENVIRONMENT_OFFSET,
        },
        EnvReadEvent::PointerRead { environment_address } => EnvReadAction::ReadText {
            address: environment_address,
        },
        EnvReadEvent::TextRead { raw } => EnvReadAction::Done(entries_of_block(raw.as_str())),
    }
}

} // verus!
