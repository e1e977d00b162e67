//! What holds of reading an environment from its start to its end, whatever the memory of the process
//! holds.

use vstd::prelude::*;

use crate::environment::{
    block_text, chunk_step, env_read_action, environment_entries, gathered, little_endian,
    ChunkRead, ChunkStepView, EnvReadActionView, EnvReadEvent, ENVIRONMENT_LIMIT,
    PEB_PROCESS_PARAMETERS_OFFSET, POINTER_BYTES, PROCESS_PARAMETERS_ENVIRONMENT_OFFSET,
};
use crate::environment_laws::{
    block_entries, environment_block, law_chunks_do_not_change_the_text,
    law_environment_block_reads_back, lemma_block_end,
};
use crate::utf16::{double_nul_at, is_double_nul_position, lemma_double_nul_position};

verus! {

/// What was read, once these chunks came.
pub open spec fn gathered_all(chunks: Seq<ChunkRead>) -> Seq<u8>
    decreases chunks.len(),
{
    if chunks.len() == 0 {
        seq![]
    } else {
        gathered(gathered_all(chunks.drop_last()), chunks.last())
    }
}

/// What comes next, once these chunks came.
pub open spec fn next_step(chunks: Seq<ChunkRead>) -> ChunkStepView
    recommends
        chunks.len() > 0,
{
    chunk_step(gathered_all(chunks.drop_last()), chunks.last())
}

/// The chunk at `i` was asked for by the step before it, and holds what is in memory there.
pub open spec fn chunk_follows(memory: Seq<u8>, chunks: Seq<ChunkRead>, i: int) -> bool {
    let offset = gathered_all(chunks.take(i)).len();
    &&& i > 0 ==> next_step(chunks.take(i)) == (ChunkStepView::ReadAt { offset })
    &&& chunks[i] matches ChunkRead::Bytes(read) ==> {
        &&& offset + read@.len() <= memory.len()
        &&& read@ == memory.subrange(offset as int, (offset + read@.len()) as int)
    }
}

/// The chunks of reading an environment, as far as it went, where `memory` is what stands from the
/// environment on. How the memory is cut is open.
pub open spec fn chunk_run(memory: Seq<u8>, chunks: Seq<ChunkRead>) -> bool {
    forall|i: int| 0 <= i < chunks.len() ==> #[trigger] chunk_follows(memory, chunks, i)
}

/// What was read is the start of the memory.
proof fn lemma_gathered_is_memory(memory: Seq<u8>, chunks: Seq<ChunkRead>)
    requires
        chunk_run(memory, chunks),
    ensures
        gathered_all(chunks).len() <= memory.len(),
        gathered_all(chunks) == memory.take(gathered_all(chunks).len() as int),
    decreases chunks.len(),
{
    if chunks.len() > 0 {
        let before = chunks.drop_last();
        assert forall|i: int| 0 <= i < before.len() implies #[trigger] chunk_follows(
            memory,
            before,
            i,
        ) by {
            assert(chunk_follows(memory, chunks, i));
            assert(before.take(i) == chunks.take(i));
        }
        lemma_gathered_is_memory(memory, before);
        assert(chunk_follows(memory, chunks, chunks.len() - 1));
        assert(chunks.take(chunks.len() - 1) == before);
    }
}

/// Where an environment ends within the limit and no read fails, reading goes on just until its end
/// was read, and gives then the text of the environment, however the memory was cut.
pub proof fn law_chunks_read_the_environment(memory: Seq<u8>, chunks: Seq<ChunkRead>, end: int)
    requires
        chunk_run(memory, chunks),
        chunks.len() > 0,
        chunks.last() is Bytes,
        is_double_nul_position(memory, Some(end)),
        end + 4 <= ENVIRONMENT_LIMIT,
    ensures
        ({
            let read = gathered_all(chunks).len();
            next_step(chunks) == if read >= end + 4 {
                ChunkStepView::Text { text: block_text(memory) }
            } else {
                ChunkStepView::ReadAt { offset: read }
            }
        }),
{
    let all = gathered_all(chunks);
    let read = all.len() as int;
    lemma_gathered_is_memory(memory, chunks);
    if read >= end + 4 {
        assert(double_nul_at(all, end));
        assert forall|i: int| 0 <= i < end implies !#[trigger] double_nul_at(all, i) by {
            assert(!double_nul_at(memory, i));
        }
        lemma_double_nul_position(all, Some(end));
        law_chunks_do_not_change_the_text(memory, read);
    } else {
        assert forall|i: int| !#[trigger] double_nul_at(all, i) by {
            if double_nul_at(all, i) {
                assert(double_nul_at(memory, i));
            }
        }
        lemma_double_nul_position(all, None);
    }
}

/// Whatever ends the reading of an environment, the text is that of what was read, and what was read
/// is the start of the memory; the environment is unreadable just where the first read fails.
pub proof fn law_text_is_of_what_was_read(memory: Seq<u8>, chunks: Seq<ChunkRead>)
    requires
        chunk_run(memory, chunks),
        chunks.len() > 0,
    ensures
        ({
            let read = gathered_all(chunks).len() as int;
            &&& read <= memory.len()
            &&& match next_step(chunks) {
                ChunkStepView::ReadAt { offset } => offset == read && read < ENVIRONMENT_LIMIT
                    && chunks.last() is Bytes,
                ChunkStepView::Text { text } => text == block_text(memory.take(read)),
                ChunkStepView::Unreadable => read == 0 && chunks.last() is Failed,
            }
        }),
{
    lemma_gathered_is_memory(memory, chunks);
}

/// Every chunk that is not empty brings the end of the reading nearer: no environment takes more
/// such chunks than the limit has bytes.
pub proof fn law_reading_in_chunks_ends(memory: Seq<u8>, chunks: Seq<ChunkRead>)
    requires
        chunk_run(memory, chunks),
        forall|i: int|
            0 <= i < chunks.len() ==> (#[trigger] chunks[i] matches ChunkRead::Bytes(read)
                && read@.len() > 0),
    ensures
        chunks.len() <= ENVIRONMENT_LIMIT,
{
    if chunks.len() > 1 {
        let last = chunks.len() - 1;
        let before = chunks.take(last);
        assert(chunk_follows(memory, chunks, last));
        assert forall|i: int| 0 <= i < before.len() implies (#[trigger] before[i]
            matches ChunkRead::Bytes(read) && read@.len() > 0) by {
            assert(before[i] == chunks[i]);
        }
        lemma_gathered_grows(before);
        assert(before.last() is Bytes);
    }
}

/// Chunks that are not empty hold a byte each at least.
proof fn lemma_gathered_grows(chunks: Seq<ChunkRead>)
    requires
        forall|i: int|
            0 <= i < chunks.len() ==> (#[trigger] chunks[i] matches ChunkRead::Bytes(read)
                && read@.len() > 0),
    ensures
        gathered_all(chunks).len() >= chunks.len(),
    decreases chunks.len(),
{
    if chunks.len() > 0 {
        let before = chunks.drop_last();
        assert forall|i: int| 0 <= i < before.len() implies (#[trigger] before[i]
            matches ChunkRead::Bytes(read) && read@.len() > 0) by {
            assert(before[i] == chunks[i]);
        }
        lemma_gathered_grows(before);
        assert(chunks[chunks.len() - 1] is Bytes);
    }
}

/// The address that stands at `address` of a memory.
pub open spec fn word_at(memory: Seq<u8>, address: int) -> nat {
    little_endian(memory.subrange(address, address + POINTER_BYTES))
}

/// Reading chunks of `memory`, none of which failed, ended in this text.
pub open spec fn text_was_read(memory: Seq<u8>, text: Seq<char>) -> bool {
    exists|chunks: Seq<ChunkRead>|
        {
            &&& #[trigger] chunk_run(memory, chunks)
            &&& chunks.len() > 0
            &&& chunks.last() is Bytes
            &&& next_step(chunks) == (ChunkStepView::Text { text })
        }
}

/// An event can come of an action, where `memory` is that of the process, from address zero on.
pub open spec fn env_read_answers(
    memory: Seq<u8>,
    action: EnvReadActionView,
    event: EnvReadEvent,
) -> bool {
    match action {
        EnvReadActionView::ReadParameters { address } => {
            &&& address + POINTER_BYTES <= memory.len()
            &&& event matches EnvReadEvent::ParametersRead { process_parameters }
            &&& process_parameters == word_at(memory, address)
        },
        EnvReadActionView::ReadPointer { address } => {
            &&& address + POINTER_BYTES <= memory.len()
            &&& event matches EnvReadEvent::PointerRead { environment_address }
            &&& environment_address == word_at(memory, address)
        },
        EnvReadActionView::ReadText { address } => {
            &&& address <= memory.len()
            &&& event matches EnvReadEvent::TextRead { raw }
            &&& text_was_read(memory.skip(address), raw@)
        },
        EnvReadActionView::Done { entries } => false,
        EnvReadActionView::Fail { error } => false,
    }
}

/// The event at `i` came of what the one before it asked for.
pub open spec fn env_read_follows(memory: Seq<u8>, events: Seq<EnvReadEvent>, i: int) -> bool {
    env_read_answers(memory, env_read_action(events[i - 1]), events[i])
}

/// The events of reading the environment of a process, as far as it went: each came of what the one
/// before it asked for.
pub open spec fn env_read_run(memory: Seq<u8>, events: Seq<EnvReadEvent>) -> bool {
    &&& events.len() > 0 ==> events[0] is ProcessQueried
    &&& forall|i: int| 1 <= i < events.len() ==> #[trigger] env_read_follows(memory, events, i)
}

/// Where the environment stands that a process environment block leads to.
pub open spec fn environment_start(memory: Seq<u8>, peb_base_address: u64) -> nat {
    word_at(
        memory,
        word_at(memory, peb_base_address + PEB_PROCESS_PARAMETERS_OFFSET)
            + PROCESS_PARAMETERS_ENVIRONMENT_OFFSET,
    )
}

/// Reading that came to its end went from the process environment block, over the parameters and
/// the address that stands there, to the environment; the variables are those of the text that was
/// read there, and of the whole environment where that ends within the limit.
pub proof fn law_variables_are_those_of_the_process(memory: Seq<u8>, events: Seq<EnvReadEvent>)
    requires
        env_read_run(memory, events),
        events.len() > 0,
        env_read_action(events.last()) is Done,
    ensures
        events.len() == 4,
        events[0] matches EnvReadEvent::ProcessQueried { status, peb_base_address, is_64_bit } && {
            let start = environment_start(memory, peb_base_address) as int;
            let environment = memory.skip(start);
            &&& status == 0
            &&& is_64_bit
            &&& start <= memory.len()
            &&& events[3] matches EnvReadEvent::TextRead { raw }
            &&& text_was_read(environment, raw@)
            &&& env_read_action(events.last()) == (EnvReadActionView::Done {
                entries: environment_entries(raw@),
            })
            &&& forall|end: int| #[trigger]
                is_double_nul_position(environment, Some(end)) && end + 4 <= ENVIRONMENT_LIMIT
                    ==> raw@ == block_text(environment)
        },
{
    let n = events.len() as int;
    assert(n > 1 ==> env_read_follows(memory, events, 1));
    assert(n > 2 ==> env_read_follows(memory, events, 2));
    assert(n > 3 ==> env_read_follows(memory, events, 3));
    assert(n > 4 ==> env_read_follows(memory, events, 4));
    if let EnvReadEvent::ProcessQueried { status, peb_base_address, is_64_bit } = events[0] {
        let environment = memory.skip(environment_start(memory, peb_base_address) as int);
        if let EnvReadEvent::TextRead { raw } = events[3] {
            let chunks = choose|chunks: Seq<ChunkRead>|
                {
                    &&& #[trigger] chunk_run(environment, chunks)
                    &&& chunks.len() > 0
                    &&& chunks.last() is Bytes
                    &&& next_step(chunks) == (ChunkStepView::Text { text: raw@ })
                };
            assert forall|end: int| #[trigger]
                is_double_nul_position(environment, Some(end)) && end + 4
                    <= ENVIRONMENT_LIMIT implies raw@ == block_text(environment) by {
                law_chunks_read_the_environment(environment, chunks, end);
            }
        }
    }
}

/// Where the parameters of a process lead to the environment block of some entries, and the block is
/// within the limit, reading that came to its end gives these entries.
pub proof fn law_process_environment_reads_back(
    memory: Seq<u8>,
    events: Seq<EnvReadEvent>,
    peb_base_address: u64,
    entries: Seq<Seq<char>>,
    behind: Seq<u8>,
)
    requires
        env_read_run(memory, events),
        events.len() > 0,
        env_read_action(events.last()) is Done,
        events[0] matches EnvReadEvent::ProcessQueried { peb_base_address: queried, .. } && queried
            == peb_base_address,
        block_entries(entries),
        environment_block(entries).len() <= ENVIRONMENT_LIMIT,
        memory.skip(environment_start(memory, peb_base_address) as int) == environment_block(entries)
            + behind,
    ensures
        env_read_action(events.last()) == (EnvReadActionView::Done { entries }),
{
    law_variables_are_those_of_the_process(memory, events);
    let environment = memory.skip(environment_start(memory, peb_base_address) as int);
    lemma_block_end(entries, behind);
    let end = environment_block(entries).len() - 4;
    assert(is_double_nul_position(environment, Some(end)));
    law_environment_block_reads_back(entries, behind);
}

} // verus!
