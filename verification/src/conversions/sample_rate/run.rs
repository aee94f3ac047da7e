//! Whole runs of a conversion: what comes out, whatever spans and chunks it comes in.
use crate::common::samples_of;
use crate::conversions::sample_rate::rubato::{
    after_chunks, frames_of_delay, frames_of_sound, frames_put_in,
    law_sound_is_neither_lost_nor_added, RubatoResample,
};
use crate::source::{law_delay_spans_chunks, without_delay, Source};
use vstd::arithmetic::mul::*;
use vstd::math::*;
use vstd::prelude::*;

verus! {

/// A chunk that goes through the resampler: the states that the conversion goes through meanwhile,
/// and what the resampler reports.
pub struct ChunkTurn<I: Source, R> {
    /// The number of frames that the resampler needs.
    pub needed: usize,
    /// The input buffer has been filled.
    pub filled: RubatoResample<I, R>,
    /// The resampler has written its output.
    pub written: RubatoResample<I, R>,
    /// The number of frames of output that the chunk amounts to.
    pub expected: usize,
    /// The number of frames that the resampler has written.
    pub frames_out: usize,
}

/// One turn of a conversion.
pub enum Turn<I: Source, R> {
    /// A sample was emitted.
    Sample(I::Item),
    /// A chunk was processed.
    Chunk(ChunkTurn<I, R>),
}

/// The resampler has written to the output buffer, and nothing else has changed but itself.
pub open spec fn has_written<I: Source, R>(
    before: RubatoResample<I, R>,
    after: RubatoResample<I, R>,
) -> bool {
    &&& after == (RubatoResample { resampler: after.resampler, output: after.output, ..before })
    &&& after.output.samples().len() == before.output.samples().len()
    &&& after.output.channel_count() == before.output.channel_count()
    &&& after.output.rate() == before.output.rate()
}

/// `turn` leads from `before` to `after`.
pub open spec fn leads_to<I: Source, R>(
    before: RubatoResample<I, R>,
    turn: Turn<I, R>,
    after: RubatoResample<I, R>,
) -> bool {
    match turn {
        Turn::Sample(sample) => before.has_emitted(after, sample),
        Turn::Chunk(chunk) => {
            &&& before.output.unread().len() == 0
            &&& before.is_filled(chunk.filled, chunk.needed as int)
            &&& chunk.filled.output == before.output
            &&& has_written(chunk.filled, chunk.written)
            &&& samples_of(chunk.frames_out as int, before.channel_count())
                <= chunk.written.output.samples().len()
            &&& chunk.written.has_accepted(after, chunk.expected as int, chunk.frames_out as int)
        },
    }
}

/// The turns lead from each of the states to the next one.
pub open spec fn is_run<I: Source, R>(
    states: Seq<RubatoResample<I, R>>,
    turns: Seq<Turn<I, R>>,
) -> bool {
    &&& states.len() == turns.len() + 1
    &&& forall|i: int| 0 <= i < states.len() ==> (#[trigger] states[i]).wf()
    &&& forall|i: int|
        #![trigger turns[i]]
        0 <= i < turns.len() ==> leads_to(states[i], turns[i], states[i + 1])
}

/// The samples that were emitted.
pub open spec fn emitted<I: Source, R>(turns: Seq<Turn<I, R>>) -> Seq<I::Item>
    decreases turns.len(),
{
    if turns.len() == 0 {
        Seq::empty()
    } else {
        match turns.last() {
            Turn::Sample(sample) => emitted(turns.drop_last()).push(sample),
            Turn::Chunk(_) => emitted(turns.drop_last()),
        }
    }
}

/// What the resampler has written in a turn, without the padding behind the sound.
pub open spec fn sound<I: Source, R>(chunk: ChunkTurn<I, R>) -> Seq<I::Item> {
    chunk.written.output.samples().take(
        samples_of(
            frames_of_sound(
                chunk.written.in_resampler_state.0 + chunk.expected,
                chunk.frames_out as int,
            ),
            chunk.written.channel_count(),
        ),
    )
}

/// All the sound that the resampler has written, chunk after chunk, with the start-up delay before
/// it.
pub open spec fn produced<I: Source, R>(turns: Seq<Turn<I, R>>) -> Seq<I::Item>
    decreases turns.len(),
{
    if turns.len() == 0 {
        Seq::empty()
    } else {
        match turns.last() {
            Turn::Sample(_) => produced(turns.drop_last()),
            Turn::Chunk(chunk) => produced(turns.drop_last()) + sound(chunk),
        }
    }
}

/// The numbers of frames that the chunks put into the resampler and that it wrote.
pub open spec fn chunks<I: Source, R>(turns: Seq<Turn<I, R>>) -> Seq<(int, int)>
    decreases turns.len(),
{
    if turns.len() == 0 {
        Seq::empty()
    } else {
        match turns.last() {
            Turn::Sample(_) => chunks(turns.drop_last()),
            Turn::Chunk(chunk) => chunks(turns.drop_last()).push(
                (chunk.expected as int, chunk.frames_out as int),
            ),
        }
    }
}

/// What every state of a run has in common.
pub open spec fn is_reached<I: Source, R>(
    first: RubatoResample<I, R>,
    turns: Seq<Turn<I, R>>,
    last: RubatoResample<I, R>,
) -> bool {
    let c = first.channel_count();
    let delay = samples_of(first.output_delay_remaining.0 as int, c);
    let (inside, left, handed_on) = after_chunks(
        first.in_resampler_state.0 as int,
        first.output_delay_remaining.0 as int,
        chunks(turns),
    );
    &&& last.channel_count() == c
    &&& last.in_resampler_state.0 == inside
    &&& last.output_delay_remaining.0 == left
    &&& samples_of(left, c) == delay - min(delay, produced(turns).len() as int)
    &&& emitted(turns) + last.output.unread() == without_delay(produced(turns), delay)
    &&& emitted(turns).len() + last.output.unread().len() == samples_of(handed_on, c)
}

proof fn lemma_run<I: Source, R>(states: Seq<RubatoResample<I, R>>, turns: Seq<Turn<I, R>>)
    requires
        is_run(states, turns),
        states[0].output.unread().len() == 0,
    ensures
        is_reached(states[0], turns, states.last()),
    decreases turns.len(),
{
    let first = states[0];
    let last = states.last();
    let c = first.channel_count();
    let delay = samples_of(first.output_delay_remaining.0 as int, c);
    assert(first.wf());
    lemma_mul_basics(c);
    lemma_mul_nonnegative(first.output_delay_remaining.0 as int, c);
    if turns.len() == 0 {
        assert(Seq::<I::Item>::empty() + last.output.unread() =~= without_delay(
            Seq::<I::Item>::empty(),
            delay,
        ));
    } else {
        let earlier = turns.drop_last();
        let n = turns.len() - 1;
        let before = states[n];
        assert(leads_to(states[n], turns[n], states[n + 1]));
        assert(before.wf() && states[n + 1].wf());
        assert forall|i: int|
            #![trigger earlier[i]]
            0 <= i < earlier.len() implies leads_to(
            states.drop_last()[i],
            earlier[i],
            states.drop_last()[i + 1],
        ) by {
            assert(leads_to(states[i], turns[i], states[i + 1]));
        }
        lemma_run(states.drop_last(), earlier);
        match turns.last() {
            Turn::Sample(sample) => {
                let rest = before.output.unread();
                assert(emitted(earlier).push(sample) + rest.skip(1) =~= emitted(earlier) + rest);
            },
            Turn::Chunk(chunk) => {
                lemma_chunk(before, chunk, last);
                law_delay_spans_chunks(produced(earlier), sound(chunk), delay);
                assert(chunks(turns).drop_last() =~= chunks(earlier));
                assert(emitted(earlier) + before.output.unread() =~= emitted(earlier));
                let frames = frames_of_sound(
                    before.in_resampler_state.0 + chunk.expected,
                    chunk.frames_out as int,
                );
                let skipped = frames_of_delay(before.output_delay_remaining.0 as int, frames);
                let (_, _, handed_on) = after_chunks(
                    first.in_resampler_state.0 as int,
                    first.output_delay_remaining.0 as int,
                    chunks(earlier),
                );
                lemma_mul_is_distributive_add_other_way(c, handed_on, frames - skipped);
            },
        }
    }
}

/// What a chunk does to the output side of a conversion.
proof fn lemma_chunk<I: Source, R>(
    before: RubatoResample<I, R>,
    chunk: ChunkTurn<I, R>,
    after: RubatoResample<I, R>,
)
    requires
        before.wf(),
        after.wf(),
        leads_to(before, Turn::Chunk(chunk), after),
    ensures
        ({
            let c = before.channel_count();
            let frames = frames_of_sound(
                before.in_resampler_state.0 + chunk.expected,
                chunk.frames_out as int,
            );
            let skipped = frames_of_delay(before.output_delay_remaining.0 as int, frames);
            let left = samples_of(before.output_delay_remaining.0 as int, c);
            &&& after.channel_count() == c
            &&& sound(chunk).len() == samples_of(frames, c)
            &&& after.output.unread() == without_delay(sound(chunk), left)
            &&& after.output.unread().len() == samples_of(frames - skipped, c)
            &&& after.output_delay_remaining.0 == before.output_delay_remaining.0 - skipped
            &&& samples_of(after.output_delay_remaining.0 as int, c) == left - min(
                left,
                sound(chunk).len() as int,
            )
            &&& after.in_resampler_state.0 == before.in_resampler_state.0 + chunk.expected - (frames
                - skipped)
        }),
{
    let c = before.channel_count();
    let frames = frames_of_sound(
        before.in_resampler_state.0 + chunk.expected,
        chunk.frames_out as int,
    );
    let delay = before.output_delay_remaining.0 as int;
    let skipped = frames_of_delay(delay, frames);
    lemma_mul_nonnegative(frames, c);
    lemma_mul_inequality(frames, chunk.frames_out as int, c);
    if delay <= frames {
        lemma_mul_inequality(delay, frames, c);
    } else {
        lemma_mul_inequality(frames, delay, c);
    }
    lemma_mul_is_distributive_sub_other_way(c, frames, skipped);
    lemma_mul_is_distributive_sub_other_way(c, delay, skipped);
    assert(sound(chunk).len() == samples_of(frames, c));
    assert(after.output.unread() =~= without_delay(sound(chunk), samples_of(delay, c)));
}

/// A run hands on what the resampler wrote, in order, without the start-up delay, and without the
/// padding behind the sound of each chunk: nothing else is lost, and nothing is repeated or
/// reordered, neither between chunks nor where the delay spans several.
pub proof fn law_run_emits_the_sound_without_its_delay<I: Source, R>(
    states: Seq<RubatoResample<I, R>>,
    turns: Seq<Turn<I, R>>,
)
    requires
        is_run(states, turns),
        states[0].output.unread().len() == 0,
    ensures
        emitted(turns) + states.last().output.unread() == without_delay(
            produced(turns),
            samples_of(
                states[0].output_delay_remaining.0 as int,
                states[0].channel_count(),
            ),
        ),
{
    lemma_run(states, turns);
}

/// The accounts of a conversion are kept by its chunks: what is in the resampler and how much delay
/// is to come are what the chunks make of them.
pub proof fn law_run_keeps_accounts<I: Source, R>(
    states: Seq<RubatoResample<I, R>>,
    turns: Seq<Turn<I, R>>,
)
    requires
        is_run(states, turns),
        states[0].output.unread().len() == 0,
    ensures
        ({
            let (inside, delay, handed_on) = after_chunks(
                states[0].in_resampler_state.0 as int,
                states[0].output_delay_remaining.0 as int,
                chunks(turns),
            );
            &&& states.last().in_resampler_state.0 == inside
            &&& states.last().output_delay_remaining.0 == delay
            &&& emitted(turns).len() + states.last().output.unread().len() == samples_of(
                handed_on,
                states[0].channel_count(),
            )
        }),
{
    lemma_run(states, turns);
}

proof fn lemma_chunks_are_counts<I: Source, R>(turns: Seq<Turn<I, R>>)
    ensures
        forall|i: int|
            #![trigger chunks(turns)[i]]
            0 <= i < chunks(turns).len() ==> chunks(turns)[i].0 >= 0 && chunks(turns)[i].1 >= 0,
    decreases turns.len(),
{
    if turns.len() > 0 {
        lemma_chunks_are_counts(turns.drop_last());
        assert forall|i: int|
            #![trigger chunks(turns)[i]]
            0 <= i < chunks(turns).len() implies chunks(turns)[i].0 >= 0 && chunks(turns)[i].1
            >= 0 by {
            let earlier = chunks(turns.drop_last());
            if i < earlier.len() {
                assert(chunks(turns)[i] == earlier[i]);
            }
        }
    }
}

/// A run that comes to its end has emitted as many frames as went into the resampler, counted at the
/// rate of the output.
pub proof fn law_run_emits_all_the_sound<I: Source, R>(
    states: Seq<RubatoResample<I, R>>,
    turns: Seq<Turn<I, R>>,
)
    requires
        is_run(states, turns),
        states[0].output.unread().len() == 0,
        states[0].in_resampler_state.0 == 0,
        states.last().output.unread().len() == 0,
        states.last().in_resampler_state.0 == 0,
    ensures
        emitted(turns).len() == samples_of(
            frames_put_in(chunks(turns)),
            states[0].channel_count(),
        ),
{
    lemma_run(states, turns);
    lemma_chunks_are_counts(turns);
    law_sound_is_neither_lost_nor_added(
        0,
        states[0].output_delay_remaining.0 as int,
        chunks(turns),
    );
}

/// All that the resampler has written, chunk after chunk.
pub open spec fn written<I: Source, R>(turns: Seq<Turn<I, R>>) -> Seq<I::Item>
    decreases turns.len(),
{
    if turns.len() == 0 {
        Seq::empty()
    } else {
        match turns.last() {
            Turn::Sample(_) => written(turns.drop_last()),
            Turn::Chunk(chunk) => written(turns.drop_last()) + chunk.written.output.samples().take(
                chunk.frames_out * chunk.written.output.channel_count()@,
            ),
        }
    }
}

/// As long as there is as much sound inside as the resampler writes, whole chunks are handed on:
/// what was emitted and what is unread is all that was written, one chunk after the other, from the
/// end of the delay on.
pub proof fn law_whole_chunks_are_handed_on_while_there_is_sound<I: Source, R>(
    states: Seq<RubatoResample<I, R>>,
    turns: Seq<Turn<I, R>>,
)
    requires
        is_run(states, turns),
        states[0].output.unread().len() == 0,
        forall|i: int|
            #![trigger turns[i]]
            0 <= i < turns.len() ==> (turns[i] matches Turn::Chunk(chunk)
                ==> chunk.written.in_resampler_state.0 + chunk.expected >= chunk.frames_out),
    ensures
        ({
            let delay = states[0].output_delay_remaining.0 * states[0].output.channel_count()@;
            let all = written(turns);
            let handed_on = emitted(turns) + states.last().output.unread();
            &&& delay <= all.len() ==> handed_on == all.subrange(delay, all.len() as int)
            &&& delay >= all.len() ==> handed_on.len() == 0
        }),
{
    lemma_run(states, turns);
    lemma_whole_chunks(turns);
    assert(states[0].wf());
    lemma_mul_nonnegative(
        states[0].output_delay_remaining.0 as int,
        states[0].output.channel_count()@,
    );
}

proof fn lemma_whole_chunks<I: Source, R>(turns: Seq<Turn<I, R>>)
    requires
        forall|i: int|
            #![trigger turns[i]]
            0 <= i < turns.len() ==> (turns[i] matches Turn::Chunk(chunk)
                ==> chunk.written.in_resampler_state.0 + chunk.expected >= chunk.frames_out),
    ensures
        produced(turns) == written(turns),
    decreases turns.len(),
{
    if turns.len() > 0 {
        let earlier = turns.drop_last();
        assert forall|i: int|
            #![trigger earlier[i]]
            0 <= i < earlier.len() implies (earlier[i] matches Turn::Chunk(chunk)
            ==> chunk.written.in_resampler_state.0 + chunk.expected >= chunk.frames_out) by {
            assert(earlier[i] == turns[i]);
        }
        lemma_whole_chunks(earlier);
        assert(turns.last() == turns[turns.len() - 1]);
    }
}

} // verus!
