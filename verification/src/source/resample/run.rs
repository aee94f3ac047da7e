//! Whole runs of a resampling: what comes out between the first sample and the last.
use crate::common::{law_frames_survive_samples, samples_of, whole_frames};
use crate::source::resample::rubato::RubatoResample;
use crate::source::{law_delay_spans_chunks, law_samples_available, without_delay, Source};
use vstd::arithmetic::div_mod::*;
use vstd::arithmetic::mul::*;
use vstd::math::*;
use vstd::prelude::*;

verus! {

/// A chunk that goes through the resampler: the states that the resampling goes through meanwhile,
/// and what the resampler reports.
pub struct ChunkTurn<I: Source, R> {
    /// The number of frames that the resampler needs.
    pub needed: usize,
    /// The input buffer has been filled.
    pub filled: RubatoResample<I, R>,
    /// The resampler has written its output.
    pub written: RubatoResample<I, R>,
    /// The number of frames that it reports consumed.
    pub frames_in: usize,
    /// The number of frames that it has written.
    pub frames_out: usize,
    /// The input has been taken out of the input buffer.
    pub consumed: RubatoResample<I, R>,
    /// The number of frames of output that are due for all the input so far.
    pub expected_frames: usize,
}

/// One turn of a resampling.
pub enum Turn<I: Source, R> {
    /// A sample was emitted.
    Sample(I::Item),
    /// A chunk was processed.
    Chunk(ChunkTurn<I, R>),
}

/// The resampler has written to the output buffer, and nothing else has changed but itself.
pub open spec fn has_written<I: Source, R>(
    before: RubatoResample<I, R>,
    after: RubatoResample<I, R>,
) -> bool {
    &&& after == (RubatoResample {
        resampler: after.resampler,
        output_buffer: after.output_buffer,
        ..before
    })
    &&& after.output_buffer.data().len() == before.output_buffer.data().len()
    &&& after.output_buffer.cursor() == before.output_buffer.cursor()
    &&& after.output_buffer.valid() == before.output_buffer.valid()
}

/// `turn` leads from `before` to `after`. A chunk for which the resampler writes nothing, once the
/// input has ended, is no turn: it ends the run. `due` says how many frames of output are due for a
/// number of frames of input.
pub open spec fn leads_to<I: Source, R>(
    before: RubatoResample<I, R>,
    turn: Turn<I, R>,
    after: RubatoResample<I, R>,
    due: spec_fn(int) -> int,
) -> bool {
    match turn {
        Turn::Sample(sample) => before.has_emitted(&after, sample),
        Turn::Chunk(chunk) => {
            &&& before.output_buffer.unread().len() == 0
            &&& !before.is_finished()
            &&& before.is_filled_to(&chunk.filled, chunk.needed as int)
            &&& has_written(chunk.filled, chunk.written)
            &&& chunk.written.has_consumed(&chunk.consumed, chunk.frames_in as int)
            &&& chunk.filled.input_exhausted ==> chunk.frames_out > 0
            &&& samples_of(chunk.frames_out as int, before.channels@)
                <= chunk.written.output_buffer.data().len()
            &&& chunk.expected_frames == due(chunk.consumed.total_input_frames as int)
            &&& chunk.consumed.has_accepted(
                &after,
                chunk.frames_out as int,
                chunk.expected_frames as int,
            )
        },
    }
}

/// The turns lead from each of the states to the next one.
pub open spec fn is_run<I: Source, R>(
    states: Seq<RubatoResample<I, R>>,
    turns: Seq<Turn<I, R>>,
    due: spec_fn(int) -> int,
) -> bool {
    &&& states.len() == turns.len() + 1
    &&& forall|i: int| 0 <= i < states.len() ==> (#[trigger] states[i]).wf()
    &&& forall|i: int|
        #![trigger turns[i]]
        0 <= i < turns.len() ==> leads_to(states[i], turns[i], states[i + 1], due)
}

/// Once the input has ended, the resampler consumes all the frames that it is given.
pub open spec fn consumes_the_rest<I: Source, R>(turns: Seq<Turn<I, R>>) -> bool {
    forall|i: int|
        #![trigger turns[i]]
        0 <= i < turns.len() ==> (turns[i] matches Turn::Chunk(chunk) ==> (
        chunk.filled.input_exhausted ==> chunk.frames_in >= chunk.filled.input_frame_count))
}

/// The samples that were emitted.
pub open spec fn emitted<I: Source, R>(turns: Seq<Turn<I, R>>) -> Seq<I::Item>
    decreases turns.len(),
{
    if turns.len() == 0 {
        Seq::empty()
    } else {
        match turns.last() {
            Turn::Sample(sample) => emitted(turns.drop_last()).push(sample),
            Turn::Chunk(_) => emitted(turns.drop_last()),
        }
    }
}

/// What the resampler has written in a turn.
pub open spec fn written<I: Source, R>(chunk: ChunkTurn<I, R>) -> Seq<I::Item> {
    chunk.written.output_buffer.data().take(
        samples_of(chunk.frames_out as int, chunk.written.channels@),
    )
}

/// All that the resampler has written, chunk after chunk.
pub open spec fn produced<I: Source, R>(turns: Seq<Turn<I, R>>) -> Seq<I::Item>
    decreases turns.len(),
{
    if turns.len() == 0 {
        Seq::empty()
    } else {
        match turns.last() {
            Turn::Sample(_) => produced(turns.drop_last()),
            Turn::Chunk(chunk) => produced(turns.drop_last()) + written(chunk),
        }
    }
}

/// The samples that are due for all the input that has been consumed.
pub open spec fn samples_due<I: Source, R>(
    state: RubatoResample<I, R>,
    due: spec_fn(int) -> int,
) -> int {
    samples_of(due(state.total_input_frames as int), state.channels@)
}

/// What a chunk does to the input side of a resampling.
proof fn lemma_chunk_consumes<I: Source, R>(
    before: RubatoResample<I, R>,
    chunk: ChunkTurn<I, R>,
    after: RubatoResample<I, R>,
    due: spec_fn(int) -> int,
)
    requires
        before.wf(),
        leads_to(before, Turn::Chunk(chunk), after, due),
    ensures
        after.channels == before.channels,
        after.real_frames_read() == before.real_frames_read() + before.frames_taken(
            chunk.needed as int,
        ),
        after.input == chunk.filled.input,
        after.input_exhausted == chunk.filled.input_exhausted,
        before.input_exhausted ==> after.input_exhausted,
        chunk.frames_in >= chunk.filled.input_frame_count ==> after.real_frames_in_buffer == 0,
        before.input_exhausted && before.real_frames_in_buffer == 0 ==> {
            &&& after.total_input_frames == before.total_input_frames
            &&& after.real_frames_in_buffer == 0
        },
        after.expected_output_samples == samples_due(after, due),
{
    let c = before.channels@;
    law_samples_available(before.input, before.samples_wanted(chunk.needed as int));
    lemma_div_pos_is_pos(before.samples_taken(chunk.needed as int) as int, c);
    lemma_small_mod(0, c as nat);
    lemma_div_basics(c);
}

/// What a chunk does to the output side of a resampling.
proof fn lemma_chunk_produces<I: Source, R>(
    before: RubatoResample<I, R>,
    chunk: ChunkTurn<I, R>,
    after: RubatoResample<I, R>,
    due: spec_fn(int) -> int,
)
    requires
        before.wf(),
        after.wf(),
        leads_to(before, Turn::Chunk(chunk), after, due),
    ensures
        ({
            let all = written(chunk);
            let skipped = min(before.output_delay_remaining as int, all.len() as int);
            let kept = all.skip(skipped);
            let capped = after.input_exhausted && samples_due(after, due) > 0;
            let left = max(samples_due(after, due) - before.total_output_samples, 0);
            &&& after.total_output_samples == before.total_output_samples
            &&& after.output_delay_remaining == before.output_delay_remaining - skipped
            &&& capped ==> after.output_buffer.unread() == kept.take(
                min(kept.len() as int, left),
            )
            &&& !capped ==> after.output_buffer.unread() == kept
        }),
{
    let c = before.channels@;
    lemma_mul_nonnegative(chunk.frames_out as int, c);
}

/// A run is a shorter run and one more turn.
proof fn lemma_run_goes_on<I: Source, R>(
    states: Seq<RubatoResample<I, R>>,
    turns: Seq<Turn<I, R>>,
    due: spec_fn(int) -> int,
)
    requires
        is_run(states, turns, due),
        turns.len() > 0,
    ensures
        is_run(states.drop_last(), turns.drop_last(), due),
        states.drop_last().last() == states[states.len() - 2],
        states.drop_last()[0] == states[0],
        leads_to(states[states.len() - 2], turns.last(), states.last(), due),
        states[states.len() - 2].wf(),
        states.last().wf(),
        consumes_the_rest(turns) ==> consumes_the_rest(turns.drop_last()),
        consumes_the_rest(turns) ==> (turns.last() matches Turn::Chunk(chunk) ==> (
        chunk.filled.input_exhausted ==> chunk.frames_in >= chunk.filled.input_frame_count)),
{
    let n = turns.len() - 1;
    if consumes_the_rest(turns) {
        assert forall|i: int|
            #![trigger turns.drop_last()[i]]
            0 <= i < n implies (turns.drop_last()[i] matches Turn::Chunk(chunk) ==> (
        chunk.filled.input_exhausted ==> chunk.frames_in >= chunk.filled.input_frame_count)) by {
            assert(turns.drop_last()[i] == turns[i]);
        }
        assert(turns.last() == turns[n]);
    }
    assert(leads_to(states[n], turns[n], states[n + 1], due));
    assert(states[n].wf() && states[n + 1].wf());
    assert forall|i: int|
        #![trigger turns.drop_last()[i]]
        0 <= i < n implies leads_to(
        states.drop_last()[i],
        turns.drop_last()[i],
        states.drop_last()[i + 1],
        due,
    ) by {
        assert(leads_to(states[i], turns[i], states[i + 1], due));
    }
}

/// What every state of a run has in common.
pub open spec fn is_reached<I: Source, R>(
    first: RubatoResample<I, R>,
    turns: Seq<Turn<I, R>>,
    last: RubatoResample<I, R>,
    due: spec_fn(int) -> int,
) -> bool {
    let stream = without_delay(produced(turns), first.output_delay_remaining as int);
    &&& last.channels == first.channels
    // No frame of the input waits after its end.
    &&& consumes_the_rest(turns) && last.input_exhausted ==> last.real_frames_in_buffer == 0
    // Every sample is counted.
    &&& last.total_output_samples == emitted(turns).len()
    &&& last.input_exhausted ==> last.expected_output_samples == samples_due(last, due)
    &&& due(0) == 0 ==> last.expected_output_samples == samples_due(last, due)
    // What is left of the delay.
    &&& last.output_delay_remaining == first.output_delay_remaining - min(
        first.output_delay_remaining as int,
        produced(turns).len() as int,
    )
    // What was emitted, and what is next.
    &&& !last.input_exhausted || consumes_the_rest(turns) ==> {
        &&& last.output_total() <= stream.len()
        &&& emitted(turns) + last.output_buffer.unread() == stream.take(last.output_total())
        &&& last.output_total() == stream.len() || (last.input_exhausted && 0 < samples_due(
            last,
            due,
        ) <= last.output_total())
    }
}

proof fn lemma_run<I: Source, R>(
    states: Seq<RubatoResample<I, R>>,
    turns: Seq<Turn<I, R>>,
    due: spec_fn(int) -> int,
    delay_frames: int,
)
    requires
        is_run(states, turns, due),
        states[0].starts_over(delay_frames),
    ensures
        is_reached(states[0], turns, states.last(), due),
    decreases turns.len(),
{
    let first = states[0];
    let last = states.last();
    let c = first.channels@;
    let delay = first.output_delay_remaining as int;
    if turns.len() == 0 {
        let stream = without_delay(Seq::<I::Item>::empty(), delay);
        assert(last.output_buffer.unread() =~= Seq::<I::Item>::empty());
        assert(stream =~= Seq::<I::Item>::empty());
        assert(stream.take(0) =~= Seq::<I::Item>::empty());
        assert(Seq::<I::Item>::empty() + last.output_buffer.unread() =~= stream.take(0));
        lemma_mul_basics(c);
    } else {
        let earlier = turns.drop_last();
        let before = states[states.len() - 2];
        lemma_run_goes_on(states, turns, due);
        lemma_run(states.drop_last(), earlier, due, delay_frames);
        let stream = without_delay(produced(earlier), delay);
        match turns.last() {
            Turn::Sample(sample) => {
                let rest = before.output_buffer.unread();
                assert(emitted(earlier).push(sample) + rest.drop_first() =~= emitted(earlier)
                    + rest);
            },
            Turn::Chunk(chunk) => {
                lemma_chunk_consumes(before, chunk, last, due);
                lemma_chunk_produces(before, chunk, last, due);
                law_delay_spans_chunks(produced(earlier), written(chunk), delay);
                let left = before.output_delay_remaining as int;
                let kept = without_delay(written(chunk), left);
                let whole = stream + kept;
                assert(before.output_buffer.unread() =~= Seq::<I::Item>::empty());
                assert(emitted(earlier) + before.output_buffer.unread() =~= emitted(earlier));
                let unread = last.output_buffer.unread();
                if !last.input_exhausted || consumes_the_rest(turns) {
                    if before.output_total() == stream.len() {
                        assert(stream.take(stream.len() as int) =~= stream);
                        assert(emitted(earlier) + unread =~= whole.take(last.output_total()));
                    } else {
                        assert(unread =~= Seq::<I::Item>::empty());
                        assert(emitted(earlier) + unread =~= whole.take(last.output_total()));
                    }
                }
            },
        }
    }
}

/// A run emits what the resampler writes, without the start-up delay, in order: nothing is repeated,
/// lost or reordered, neither between chunks nor where the delay spans several. It is cut off only
/// after the input has ended, and not before as many samples were emitted as are due for it. Once
/// the input has ended, the resampler has to consume what it is given: output that is cut off as not
/// due yet is lost where more is due later.
pub proof fn law_run_emits_the_output_without_its_delay<I: Source, R>(
    states: Seq<RubatoResample<I, R>>,
    turns: Seq<Turn<I, R>>,
    due: spec_fn(int) -> int,
    delay_frames: int,
)
    requires
        is_run(states, turns, due),
        states[0].starts_over(delay_frames),
        !states.last().input_exhausted || consumes_the_rest(turns),
    ensures
        ({
            let last = states.last();
            let stream = without_delay(
                produced(turns),
                samples_of(max(delay_frames - 1, 0), states[0].channels@),
            );
            &&& emitted(turns).len() <= stream.len()
            &&& emitted(turns) == stream.take(emitted(turns).len() as int)
            &&& last.output_buffer.unread().len() == 0 && emitted(turns).len() < stream.len()
                ==> last.input_exhausted && emitted(turns).len() >= samples_due(last, due) > 0
        }),
{
    lemma_run(states, turns, due, delay_frames);
    let last = states.last();
    let stream = without_delay(produced(turns), states[0].output_delay_remaining as int);
    assert(last.wf());
    assert(stream.take(last.output_total()).take(emitted(turns).len() as int) =~= stream.take(
        emitted(turns).len() as int,
    ));
    assert((emitted(turns) + last.output_buffer.unread()).take(emitted(turns).len() as int)
        =~= emitted(turns));
}

/// The counters of a resampling are right in every state: the samples that were emitted, the frames
/// that wait, and, where nothing is due for no input, the samples that are due.
pub proof fn law_run_keeps_count<I: Source, R>(
    states: Seq<RubatoResample<I, R>>,
    turns: Seq<Turn<I, R>>,
    due: spec_fn(int) -> int,
    delay_frames: int,
)
    requires
        is_run(states, turns, due),
        states[0].starts_over(delay_frames),
    ensures
        states.last().total_output_samples == emitted(turns).len(),
        states.last().input_samples_consumed as int % states.last().channels@ == 0,
        states.last().real_frames_in_buffer <= states.last().input_frame_count,
        samples_of(states.last().input_frame_count as int, states.last().channels@)
            <= states.last().input_buffer@.len(),
        due(0) == 0 ==> states.last().expected_output_samples == samples_due(states.last(), due),
{
    lemma_run(states, turns, due, delay_frames);
    assert(states.last().wf());
}

/// The frames of an input of `len` samples that have been consumed, and where the input is.
proof fn lemma_run_consumes_the_input<I: Source, R>(
    states: Seq<RubatoResample<I, R>>,
    turns: Seq<Turn<I, R>>,
    due: spec_fn(int) -> int,
    delay_frames: int,
    len: nat,
)
    requires
        is_run(states, turns, due),
        states[0].starts_over(delay_frames),
        forall|n: nat| n < len ==> #[trigger] states[0].input.upcoming(n) is Some,
        states[0].input.upcoming(len) is None,
    ensures
        ({
            let first = states[0];
            let last = states.last();
            let c = first.channels@;
            let read = samples_of(last.real_frames_read(), c);
            &&& last.channels == first.channels
            &&& last.input_exhausted ==> last.real_frames_read() == whole_frames(len as int, c)
            &&& !last.input_exhausted ==> {
                &&& 0 <= read <= len
                &&& forall|n: nat| #[trigger]
                    last.input.upcoming(n) == first.input.upcoming((n + read) as nat)
            }
        }),
    decreases turns.len(),
{
    let first = states[0];
    let last = states.last();
    let c = first.channels@;
    assert(first.wf());
    lemma_mul_basics(c);
    if turns.len() > 0 {
        let earlier = turns.drop_last();
        let before = states[states.len() - 2];
        lemma_run_goes_on(states, turns, due);
        lemma_run(states.drop_last(), earlier, due, delay_frames);
        lemma_run_consumes_the_input(states.drop_last(), earlier, due, delay_frames, len);
        match turns.last() {
            Turn::Sample(_) => {},
            Turn::Chunk(chunk) => {
                lemma_chunk_consumes(before, chunk, last, due);
                if !before.input_exhausted {
                    let needed = chunk.needed as int;
                    let wanted = before.samples_wanted(needed);
                    let taken = before.samples_taken(needed);
                    let read = samples_of(before.real_frames_read(), c);
                    let wanted_frames = max(needed - before.input_frame_count, 0);
                    law_samples_available(before.input, wanted);
                    lemma_mul_nonnegative(wanted_frames, c);
                    lemma_mul_is_distributive_add_other_way(
                        c,
                        before.real_frames_read(),
                        before.frames_taken(needed),
                    );
                    // What was taken comes before the end of the input.
                    if read + taken > len {
                        let n = (len - read) as nat;
                        assert(before.input.upcoming(n) is Some);
                        assert(before.input.upcoming(n) == first.input.upcoming((n + read) as nat));
                    }
                    if taken < wanted {
                        assert(before.input.upcoming(taken) is None);
                        assert(before.input.upcoming(taken) == first.input.upcoming(
                            (taken + read) as nat,
                        ));
                        assert(read + taken == len);
                        assert(whole_frames(len as int, c) == before.real_frames_read()
                            + taken as int / c) by {
                            lemma_hoist_over_denominator(
                                taken as int,
                                before.real_frames_read(),
                                c as nat,
                            );
                            lemma_mul_is_commutative(before.real_frames_read(), c);
                        }
                    } else {
                        law_frames_survive_samples(wanted_frames, c);
                        lemma_mul_basics(c);
                        assert forall|n: nat| #[trigger]
                            last.input.upcoming(n) == first.input.upcoming(
                                (n + samples_of(last.real_frames_read(), c)) as nat,
                            ) by {
                            assert(chunk.filled.input.upcoming(n) == before.input.upcoming(
                                n + taken,
                            ));
                        }
                    }
                }
            },
        }
    }
}

/// A run over an input of `len` samples that comes to its end has emitted as many samples as are due
/// for the whole frames of the input, and no other: an incomplete last frame is dropped, and the
/// tail that is flushed out of the resampler is cut off. The resampler has to consume what it is given
/// once the input has ended, and may write no more before that than is due for all of the input.
pub proof fn law_run_emits_what_is_due<I: Source, R>(
    states: Seq<RubatoResample<I, R>>,
    turns: Seq<Turn<I, R>>,
    due: spec_fn(int) -> int,
    delay_frames: int,
    len: nat,
)
    requires
        is_run(states, turns, due),
        states[0].starts_over(delay_frames),
        consumes_the_rest(turns),
        forall|n: nat| n < len ==> #[trigger] states[0].input.upcoming(n) is Some,
        states[0].input.upcoming(len) is None,
        samples_of(due(whole_frames(len as int, states[0].channels@)), states[0].channels@) > 0,
        forall|i: int|
            0 <= i < states.len() && !(#[trigger] states[i]).input_exhausted
                ==> states[i].output_total() <= samples_of(
                due(whole_frames(len as int, states[0].channels@)),
                states[0].channels@,
            ),
        states.last().is_finished(),
    ensures
        emitted(turns).len() == samples_of(
            due(whole_frames(len as int, states[0].channels@)),
            states[0].channels@,
        ),
        states.last().total_input_frames == whole_frames(len as int, states[0].channels@),
{
    lemma_run(states, turns, due, delay_frames);
    lemma_run_consumes_the_input(states, turns, due, delay_frames, len);
    lemma_run_stays_within_what_is_due(states, turns, due, delay_frames, len);
    assert(states.last().wf());
}

proof fn lemma_run_stays_within_what_is_due<I: Source, R>(
    states: Seq<RubatoResample<I, R>>,
    turns: Seq<Turn<I, R>>,
    due: spec_fn(int) -> int,
    delay_frames: int,
    len: nat,
)
    requires
        is_run(states, turns, due),
        states[0].starts_over(delay_frames),
        consumes_the_rest(turns),
        forall|n: nat| n < len ==> #[trigger] states[0].input.upcoming(n) is Some,
        states[0].input.upcoming(len) is None,
        samples_of(due(whole_frames(len as int, states[0].channels@)), states[0].channels@) > 0,
        forall|i: int|
            0 <= i < states.len() && !(#[trigger] states[i]).input_exhausted
                ==> states[i].output_total() <= samples_of(
                due(whole_frames(len as int, states[0].channels@)),
                states[0].channels@,
            ),
    ensures
        states.last().output_total() <= samples_of(
            due(whole_frames(len as int, states[0].channels@)),
            states[0].channels@,
        ),
    decreases turns.len(),
{
    let last = states.last();
    assert(last == states[states.len() - 1]);
    if turns.len() > 0 && last.input_exhausted {
        let earlier = turns.drop_last();
        let before = states[states.len() - 2];
        lemma_run_goes_on(states, turns, due);
        lemma_run_stays_within_what_is_due(states.drop_last(), earlier, due, delay_frames, len);
        lemma_run_consumes_the_input(states, turns, due, delay_frames, len);
        lemma_run(states, turns, due, delay_frames);
        match turns.last() {
            Turn::Sample(_) => {},
            Turn::Chunk(chunk) => {
                lemma_chunk_produces(before, chunk, last, due);
            },
        }
    }
}

} // verus!
