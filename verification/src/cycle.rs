//! What holds of the mixer over whole cycles.
//!
//! A cycle is one sample on each output channel. It starts with the cursor on
//! the first channel: the mixer handles the requests that have arrived, and
//! every source that plays has its turn. The laws here follow the sources
//! through one such start and through a run of them.

use vstd::prelude::*;
use crate::located_source::{
    changes_keep_identity,
    Intake,
    LocatedSourcesMsgView,
    MixerView,
    SourceView,
};
use crate::sample::SampleSource;

verus! {

/// The sources that still play after each of `sources` has had its turn: those
/// that yielded a sample, in their order, each as its turn left it.
pub open spec fn survivors<S>(sources: Seq<SourceView<S>>, intakes: Seq<Intake<S>>) -> Seq<
    SourceView<S>,
>
    decreases intakes.len(),
{
    if intakes.len() == 0 || sources.len() == 0 {
        Seq::empty()
    } else {
        let later = survivors(sources.skip(1), intakes.skip(1));
        if intakes[0].sample is Some {
            seq![sources[0].served(intakes[0])] + later
        } else {
            later
        }
    }
}

/// The number of sources before the one at `index` that yielded a sample.
pub open spec fn yields_before<S>(intakes: Seq<Intake<S>>, index: int) -> int
    decreases index,
{
    if index <= 0 {
        0
    } else if intakes[index - 1].sample is Some {
        yields_before(intakes, index - 1) + 1
    } else {
        yields_before(intakes, index - 1)
    }
}

/// Where the source at `index` stands after the turns: behind the sources
/// before it that yielded a sample; `None` where its own sequence has ended.
pub open spec fn place_after<S>(intakes: Seq<Intake<S>>, index: int) -> Option<int> {
    if intakes[index].sample is Some {
        Some(yields_before(intakes, index))
    } else {
        None
    }
}

/// The turns of the sources from `first` on leave the sources before `first`
/// as they are, keep of the others those that yielded a sample, and touch
/// nothing else but what is due on the channels.
pub proof fn turns_keep_the_yielding<S: SampleSource>(
    mixer: MixerView<S>,
    intakes: Seq<Intake<S>>,
    first: int,
)
    requires
        0 <= first,
        first + intakes.len() == mixer.sources.len(),
    ensures
        mixer.frame_from(intakes, first).sources == mixer.sources.take(first) + survivors(
            mixer.sources.skip(first),
            intakes,
        ),
        mixer.frame_from(intakes, first).output_channels == mixer.output_channels,
        mixer.frame_from(intakes, first).current_processing_channel
            == mixer.current_processing_channel,
        mixer.frame_from(intakes, first).sample_rate == mixer.sample_rate,
        mixer.frame_from(intakes, first).sound_velocity == mixer.sound_velocity,
        mixer.frame_from(intakes, first).msg_channel == mixer.msg_channel,
    decreases intakes.len(),
{
    let rest = mixer.sources.skip(first);
    if intakes.len() > 0 {
        turns_keep_the_yielding(mixer, intakes.skip(1), first + 1);
        assert(rest.skip(1) =~= mixer.sources.skip(first + 1));
        assert(mixer.frame_from(intakes, first).sources =~= mixer.sources.take(first) + survivors(
            rest,
            intakes,
        ));
    }
}

/// After a cycle has started, the sources that play are those that yielded a
/// sample at their turn, in their order, each as its turn left it: a source
/// plays on exactly when its sequence has not ended.
pub proof fn frame_keeps_the_yielding<S: SampleSource>(mixer: MixerView<S>, intakes: Seq<Intake<S>>)
    requires
        intakes.len() == mixer.sources.len(),
    ensures
        mixer.frame(intakes).sources == survivors(mixer.sources, intakes),
        mixer.frame(intakes).output_channels == mixer.output_channels,
        mixer.frame(intakes).current_processing_channel == mixer.current_processing_channel,
        mixer.frame(intakes).sample_rate == mixer.sample_rate,
        mixer.frame(intakes).sound_velocity == mixer.sound_velocity,
        mixer.frame(intakes).msg_channel == mixer.msg_channel,
{
    turns_keep_the_yielding(mixer, intakes, 0);
    assert(mixer.sources.skip(0) =~= mixer.sources);
    assert(mixer.sources.take(0) + survivors(mixer.sources, intakes) =~= survivors(
        mixer.sources,
        intakes,
    ));
}

/// Requests drop no source that plays: the sources that played before a run of
/// requests play after it, in their places. Nor does a request move the cursor,
/// change the number of output channels, or touch what is due on any channel;
/// and a mixer that was valid stays valid.
pub proof fn requests_keep_active_sources<S: SampleSource>(
    mixer: MixerView<S>,
    msgs: Seq<LocatedSourcesMsgView<S>>,
)
    ensures
        mixer.handle_all(msgs).sources.len() >= mixer.sources.len(),
        mixer.handle_all(msgs).sources.take(mixer.sources.len() as int) == mixer.sources,
        mixer.handle_all(msgs).output_channels.len() == mixer.output_channels.len(),
        mixer.handle_all(msgs).current_processing_channel == mixer.current_processing_channel,
        mixer.handle_all(msgs).delay_buffer == mixer.delay_buffer,
        mixer.handle_all(msgs).sample_rate == mixer.sample_rate,
        mixer.handle_all(msgs).sound_velocity == mixer.sound_velocity,
        mixer.handle_all(msgs).msg_channel == mixer.msg_channel,
        mixer.valid() ==> mixer.handle_all(msgs).valid(),
    decreases msgs.len(),
{
    if msgs.len() > 0 {
        requests_keep_active_sources(mixer, msgs.drop_last());
        let before = mixer.handle_all(msgs.drop_last());
        let after = before.handle(msgs.last());
        assert(after.sources.take(mixer.sources.len() as int) =~= before.sources.take(
            mixer.sources.len() as int,
        ));
    }
}

/// The mixer after `count` samples have left it, each from the channel that
/// the cursor was on.
pub open spec fn played<S: SampleSource>(mixer: MixerView<S>, count: nat) -> MixerView<S>
    decreases count,
{
    if count == 0 {
        mixer
    } else {
        played(mixer, (count - 1) as nat).emitted()
    }
}

/// Samples leave the mixer channel by channel, round and round: after `count`
/// samples the cursor has moved on by `count` channels, and the sources and
/// the listeners are as they were.
pub proof fn cursor_goes_round<S: SampleSource>(mixer: MixerView<S>, count: nat)
    requires
        mixer.valid(),
    ensures
        played(mixer, count).valid(),
        played(mixer, count).current_processing_channel == (mixer.current_processing_channel
            + count) % (mixer.output_channels.len() as int),
        played(mixer, count).sources == mixer.sources,
        played(mixer, count).output_channels == mixer.output_channels,
    decreases count,
{
    let channels = mixer.output_channels.len() as int;
    let cursor = mixer.current_processing_channel as int;
    if count == 0 {
        assert(cursor % channels == cursor) by (nonlinear_arith)
            requires
                0 <= cursor < channels,
        ;
    } else {
        cursor_goes_round(mixer, (count - 1) as nat);
        let before = (cursor + count - 1) % channels;
        assert(0 <= before < channels) by (nonlinear_arith)
            requires
                before == (cursor + count - 1) % channels,
                channels > 0,
        ;
        assert((cursor + count) % channels == if before + 1 == channels {
            0
        } else {
            before + 1
        }) by (nonlinear_arith)
            requires
                before == (cursor + count - 1) % channels,
                channels > 0,
        ;
    }
}

/// What the start of one cycle takes in: the requests that had arrived, and
/// what each source that plays then brings in.
pub ghost struct CycleStart<S> {
    pub msgs: Seq<LocatedSourcesMsgView<S>>,
    pub intakes: Seq<Intake<S>>,
}

/// The mixer after one whole cycle: the start of the cycle, and one sample on
/// each output channel.
pub open spec fn after_cycle<S: SampleSource>(
    mixer: MixerView<S>,
    start: CycleStart<S>,
) -> MixerView<S> {
    played(mixer.staged(start.msgs, start.intakes), mixer.output_channels.len())
}

/// The mixer after a run of whole cycles.
pub open spec fn after_run<S: SampleSource>(
    mixer: MixerView<S>,
    run: Seq<CycleStart<S>>,
) -> MixerView<S>
    decreases run.len(),
{
    if run.len() == 0 {
        mixer
    } else {
        after_cycle(after_run(mixer, run.drop_last()), run.last())
    }
}

/// In each cycle of the run, every source that plays when the turns begin
/// brings something in, and nothing else does.
pub open spec fn run_fits<S: SampleSource>(mixer: MixerView<S>, run: Seq<CycleStart<S>>) -> bool
    decreases run.len(),
{
    run.len() == 0 || {
        &&& run_fits(mixer, run.drop_last())
        &&& run.last().intakes.len() == after_run(mixer, run.drop_last()).handle_all(
            run.last().msgs,
        ).sources.len()
    }
}

/// Where the source that stood at `index` before a run of cycles stands after
/// it; `None` once its sequence has ended.
pub open spec fn place_after_run<S>(run: Seq<CycleStart<S>>, index: int) -> Option<int>
    decreases run.len(),
{
    if run.len() == 0 {
        Some(index)
    } else {
        match place_after_run(run.drop_last(), index) {
            Some(place) => place_after(run.last().intakes, place),
            None => None,
        }
    }
}

/// What the source that stood at `index` before the run yields in cycle
/// `cycle` of it; `None` once its sequence has ended.
pub open spec fn yield_in_cycle<S>(run: Seq<CycleStart<S>>, index: int, cycle: int) -> Option<i16> {
    match place_after_run(run.take(cycle), index) {
        Some(place) => run[cycle].intakes[place].sample,
        None => None,
    }
}

/// The source that stood at `index` before the run, as its turns in the run
/// have left it.
pub open spec fn source_after_run<S>(
    source: SourceView<S>,
    run: Seq<CycleStart<S>>,
    index: int,
) -> SourceView<S>
    decreases run.len(),
{
    if run.len() == 0 {
        source
    } else {
        match place_after_run(run.drop_last(), index) {
            Some(place) => source_after_run(source, run.drop_last(), index).served(
                run.last().intakes[place],
            ),
            None => source,
        }
    }
}

/// The source that stood at `index` before the run plays after it: it stands
/// among the sources that play, where `place_after_run` says, as its turns
/// have left it.
pub open spec fn plays_after_run<S: SampleSource>(
    mixer: MixerView<S>,
    run: Seq<CycleStart<S>>,
    index: int,
) -> bool {
    place_after_run(run, index) matches Some(place) && 0 <= place < after_run(
        mixer,
        run,
    ).sources.len() && after_run(mixer, run).sources[place] == source_after_run(
        mixer.sources[index],
        run,
        index,
    )
}

/// Counting the sources that yielded from the second one on.
proof fn yields_before_shifts<S>(intakes: Seq<Intake<S>>, index: int)
    requires
        0 < index <= intakes.len(),
    ensures
        yields_before(intakes, index) == yields_before(intakes.skip(1), index - 1)
            + if intakes[0].sample is Some {
            1int
        } else {
            0int
        },
    decreases index,
{
    if index > 1 {
        yields_before_shifts(intakes, index - 1);
    } else {
        assert(yields_before(intakes, 0) == 0);
    }
}

/// A source that yields a sample stays: after the turns it stands behind the
/// sources before it that yielded, as its turn left it.
pub proof fn yielding_source_stays<S>(
    sources: Seq<SourceView<S>>,
    intakes: Seq<Intake<S>>,
    index: int,
)
    requires
        intakes.len() == sources.len(),
        0 <= index < sources.len(),
        intakes[index].sample is Some,
    ensures
        0 <= yields_before(intakes, index) < survivors(sources, intakes).len(),
        survivors(sources, intakes)[yields_before(intakes, index)] == sources[index].served(
            intakes[index],
        ),
    decreases index,
{
    if index > 0 {
        yielding_source_stays(sources.skip(1), intakes.skip(1), index - 1);
        yields_before_shifts(intakes, index);
    }
}

/// The start of a cycle keeps a valid mixer valid: every source that plays
/// after it has the mixer's sample rate, and the cursor and the number of
/// output channels are as they were.
pub proof fn cycle_start_keeps_valid<S: SampleSource>(
    mixer: MixerView<S>,
    msgs: Seq<LocatedSourcesMsgView<S>>,
    intakes: Seq<Intake<S>>,
)
    requires
        mixer.valid(),
        intakes.len() == mixer.handle_all(msgs).sources.len(),
    ensures
        mixer.staged(msgs, intakes).valid(),
        mixer.staged(msgs, intakes).current_processing_channel == mixer.current_processing_channel,
        mixer.staged(msgs, intakes).output_channels.len() == mixer.output_channels.len(),
{
    requests_keep_active_sources(mixer, msgs);
    let handled = mixer.handle_all(msgs);
    frame_keeps_the_yielding(handled, intakes);
    let staged = mixer.staged(msgs, intakes);
    assert forall|i: int| 0 <= i < staged.sources.len() implies (#[trigger] staged.sources[i])
        .sample_rate == staged.sample_rate by {
        survivors_keep_rate(handled.sources, intakes, handled.sample_rate, i);
    }
}

/// A source whose sequence has ended leaves: the sources that play after the
/// turns are the same as if it had not been among the sources at all.
pub proof fn ended_source_leaves<S>(
    sources: Seq<SourceView<S>>,
    intakes: Seq<Intake<S>>,
    index: int,
)
    requires
        intakes.len() == sources.len(),
        0 <= index < sources.len(),
        intakes[index].sample is None,
    ensures
        survivors(sources, intakes) == survivors(sources.remove(index), intakes.remove(index)),
    decreases index,
{
    if index > 0 {
        ended_source_leaves(sources.skip(1), intakes.skip(1), index - 1);
        assert(sources.remove(index).skip(1) =~= sources.skip(1).remove(index - 1));
        assert(intakes.remove(index).skip(1) =~= intakes.skip(1).remove(index - 1));
    }
}

/// The whole cycles of a run leave the cursor on the first channel, and the
/// mixer valid.
proof fn run_keeps_cycle_start<S: SampleSource>(mixer: MixerView<S>, run: Seq<CycleStart<S>>)
    requires
        mixer.valid(),
        mixer.current_processing_channel == 0,
        run_fits(mixer, run),
    ensures
        after_run(mixer, run).valid(),
        after_run(mixer, run).current_processing_channel == 0,
        after_run(mixer, run).output_channels.len() == mixer.output_channels.len(),
    decreases run.len(),
{
    if run.len() > 0 {
        let before = after_run(mixer, run.drop_last());
        run_keeps_cycle_start(mixer, run.drop_last());
        let staged = before.staged(run.last().msgs, run.last().intakes);
        cycle_start_keeps_valid(before, run.last().msgs, run.last().intakes);
        cursor_goes_round(staged, before.output_channels.len());
        let channels = before.output_channels.len() as int;
        assert((0 + channels) % channels == 0) by (nonlinear_arith)
            requires
                channels > 0,
        ;
    }
}

/// The sources that still play have the sample rate that all had.
proof fn survivors_keep_rate<S>(
    sources: Seq<SourceView<S>>,
    intakes: Seq<Intake<S>>,
    sample_rate: u32,
    index: int,
)
    requires
        intakes.len() == sources.len(),
        forall|i: int|
            0 <= i < sources.len() ==> (#[trigger] sources[i]).sample_rate == sample_rate,
        0 <= index < survivors(sources, intakes).len(),
    ensures
        survivors(sources, intakes)[index].sample_rate == sample_rate,
    decreases intakes.len(),
{
    if intakes.len() > 0 {
        assert forall|i: int| 0 <= i < sources.skip(1).len() implies (#[trigger] sources.skip(
            1,
        )[i]).sample_rate == sample_rate by {}
        if intakes[0].sample is Some {
            if index == 0 {
                changes_keep_identity(sources[0], intakes[0].updates);
            } else {
                survivors_keep_rate(sources.skip(1), intakes.skip(1), sample_rate, index - 1);
            }
        } else {
            survivors_keep_rate(sources.skip(1), intakes.skip(1), sample_rate, index);
        }
    }
}

/// A source that yields a sample in every cycle of a run plays after the run.
pub proof fn source_plays_on<S: SampleSource>(
    mixer: MixerView<S>,
    run: Seq<CycleStart<S>>,
    index: int,
)
    requires
        mixer.valid(),
        mixer.current_processing_channel == 0,
        0 <= index < mixer.sources.len(),
        run_fits(mixer, run),
        forall|cycle: int| 0 <= cycle < run.len() ==> yield_in_cycle(run, index, cycle) is Some,
    ensures
        plays_after_run(mixer, run, index),
    decreases run.len(),
{
    if run.len() > 0 {
        let earlier = run.drop_last();
        let last = run.last();
        assert forall|cycle: int| 0 <= cycle < earlier.len() implies yield_in_cycle(
            earlier,
            index,
            cycle,
        ) is Some by {
            assert(earlier.take(cycle) =~= run.take(cycle));
            assert(yield_in_cycle(run, index, cycle) is Some);
        }
        source_plays_on(mixer, earlier, index);
        run_keeps_cycle_start(mixer, earlier);
        let before = after_run(mixer, earlier);
        let place = place_after_run(earlier, index)->Some_0;
        assert(yield_in_cycle(run, index, run.len() - 1) is Some);
        requests_keep_active_sources(before, last.msgs);
        let handled = before.handle_all(last.msgs);
        frame_keeps_the_yielding(handled, last.intakes);
        yielding_source_stays(handled.sources, last.intakes, place);
        let staged = before.staged(last.msgs, last.intakes);
        cycle_start_keeps_valid(before, last.msgs, last.intakes);
        cursor_goes_round(staged, before.output_channels.len());
    }
}

/// A source whose sequence yields exactly `n` samples plays for exactly `n`
/// cycles: after each of the first `n` cycles of the run it is among the
/// sources that play, and after the next one it is not. The sources that play
/// then are the same as if it had not been among them when that cycle began
/// its turns.
pub proof fn source_plays_while_it_yields<S: SampleSource>(
    mixer: MixerView<S>,
    run: Seq<CycleStart<S>>,
    index: int,
    n: nat,
)
    requires
        mixer.valid(),
        mixer.current_processing_channel == 0,
        0 <= index < mixer.sources.len(),
        run.len() == n + 1,
        run_fits(mixer, run),
        forall|cycle: int| 0 <= cycle < n ==> yield_in_cycle(run, index, cycle) is Some,
        yield_in_cycle(run, index, n as int) is None,
    ensures
        forall|cycles: int|
            0 <= cycles <= n ==> plays_after_run(mixer, #[trigger] run.take(cycles), index),
        place_after_run(run, index) is None,
        ({
            let place = place_after_run(run.drop_last(), index)->Some_0;
            let turning = after_run(mixer, run.drop_last()).handle_all(run.last().msgs);
            after_run(mixer, run).sources == survivors(
                turning.sources.remove(place),
                run.last().intakes.remove(place),
            )
        }),
{
    assert forall|cycles: int| 0 <= cycles <= n implies plays_after_run(
        mixer,
        #[trigger] run.take(cycles),
        index,
    ) by {
        let part = run.take(cycles);
        run_fits_each_part(mixer, run, cycles);
        assert forall|cycle: int| 0 <= cycle < part.len() implies yield_in_cycle(
            part,
            index,
            cycle,
        ) is Some by {
            assert(part.take(cycle) =~= run.take(cycle));
            assert(yield_in_cycle(run, index, cycle) is Some);
        }
        source_plays_on(mixer, part, index);
    }
    let earlier = run.drop_last();
    let last = run.last();
    let place = place_after_run(earlier, index)->Some_0;
    let before = after_run(mixer, earlier);
    run_fits_each_part(mixer, run, n as int);
    run_keeps_cycle_start(mixer, earlier);
    requests_keep_active_sources(before, last.msgs);
    let turning = before.handle_all(last.msgs);
    frame_keeps_the_yielding(turning, last.intakes);
    ended_source_leaves(turning.sources, last.intakes, place);
    cycle_start_keeps_valid(before, last.msgs, last.intakes);
    cursor_goes_round(before.staged(last.msgs, last.intakes), before.output_channels.len());
}

/// A run that fits, fits up to each of its cycles.
proof fn run_fits_each_part<S: SampleSource>(
    mixer: MixerView<S>,
    run: Seq<CycleStart<S>>,
    cycles: int,
)
    requires
        run_fits(mixer, run),
        0 <= cycles <= run.len(),
    ensures
        run_fits(mixer, run.take(cycles)),
    decreases run.len(),
{
    if cycles == run.len() {
        assert(run.take(cycles) =~= run);
    } else {
        run_fits_each_part(mixer, run.drop_last(), cycles);
        assert(run.drop_last().take(cycles) =~= run.take(cycles));
    }
}

} // verus!
