//! Located sources and the mixer that turns them into one interleaved stream.

use vstd::prelude::*;
use crossbeam_channel::Receiver;
use crate::cycle::{frame_keeps_the_yielding, requests_keep_active_sources};
use crate::geometry::{
    distance,
    euclidian_distance,
    floor_sqrt_monotonic,
    squared_distance,
    Position,
};
use crate::propagation::{
    attenuation_factor,
    attenuation_monotonic,
    compute_attenuation,
    compute_delay,
    delay_in_samples,
};
use crate::delay_buffer::{bank_with, bank_without_front, front_of, DelayBufferBank};
use crate::sample::{amplified, amplify, SampleSource};

verus! {

/// A change to one source, sent to it through its own channel.
pub enum SingleLocatedSourceMsg {
    /// The source is now at this position.
    Move(Position),
    /// The source is, or is no longer, delayed by its distance.
    SetDoppler(bool),
    /// The gain of the source before attenuation.
    SetAmplify(u32),
}

/// A sound source at a position in space.
pub struct SingleLocatedSource<S: SampleSource> {
    source: S,
    sample_rate: u32,
    position: Position,
    attenuation_rate: u32,
    amplify: u32,
    doppler: bool,
    msg_channel: Receiver<SingleLocatedSourceMsg>,
    curr_delay_atten: Vec<(usize, u32)>,
}

/// What a located source is: its sample sequence, its channel, and its
/// parameters. The delays and gains that it keeps for each listener are left
/// out: they follow from these and the listeners.
pub ghost struct SourceView<S> {
    pub source: S,
    pub msg_channel: Receiver<SingleLocatedSourceMsg>,
    pub sample_rate: u32,
    pub position: Position,
    pub attenuation_rate: u32,
    pub amplify: u32,
    pub doppler: bool,
}

impl<S> SourceView<S> {
    /// The source after one change.
    pub open spec fn apply(self, msg: SingleLocatedSourceMsg) -> Self {
        match msg {
            SingleLocatedSourceMsg::Move(position) => SourceView { position, ..self },
            SingleLocatedSourceMsg::SetDoppler(doppler) => SourceView { doppler, ..self },
            SingleLocatedSourceMsg::SetAmplify(amplify) => SourceView { amplify, ..self },
        }
    }

    /// The source after a run of changes, the first of them applied first.
    pub open spec fn apply_all(self, msgs: Seq<SingleLocatedSourceMsg>) -> Self
        decreases msgs.len(),
    {
        if msgs.len() == 0 {
            self
        } else {
            self.apply_all(msgs.drop_last()).apply(msgs.last())
        }
    }

    /// The source with its sample sequence in another state.
    pub open spec fn with_source(self, source: S) -> Self {
        SourceView { source, ..self }
    }

    /// The source after its turn at the start of a cycle: it has made the
    /// changes that had arrived for it, and its sequence has moved on.
    pub open spec fn served(self, intake: Intake<S>) -> Self {
        self.apply_all(intake.updates).with_source(intake.source)
    }

    /// The delay in samples and the gain with which a listener at `listener`
    /// hears the source.
    pub open spec fn delay_atten(self, listener: Position, sound_velocity: u32) -> (usize, u32) {
        let d = distance(listener, self.position);
        (
            if self.doppler {
                delay_in_samples(d, sound_velocity, self.sample_rate)
            } else {
                0
            },
            attenuation_factor(self.amplify, self.attenuation_rate, d),
        )
    }

    /// The delay and the gain for each listener, by channel.
    pub open spec fn delay_atten_all(self, listeners: Seq<Position>, sound_velocity: u32) -> Seq<
        (usize, u32),
    > {
        Seq::new(listeners.len(), |c: int| self.delay_atten(listeners[c], sound_velocity))
    }
}

/// No change that reaches a source through its channel touches its sample
/// sequence, its channel, its sample rate or its attenuation rate.
pub proof fn changes_keep_identity<S>(source: SourceView<S>, msgs: Seq<SingleLocatedSourceMsg>)
    ensures
        source.apply_all(msgs).source == source.source,
        source.apply_all(msgs).msg_channel == source.msg_channel,
        source.apply_all(msgs).sample_rate == source.sample_rate,
        source.apply_all(msgs).attenuation_rate == source.attenuation_rate,
    decreases msgs.len(),
{
    if msgs.len() > 0 {
        changes_keep_identity(source, msgs.drop_last());
    }
}

/// The delay and the gain of a source for a listener do not depend on the
/// state of its sample sequence.
pub proof fn sequence_leaves_delay_atten<S>(
    source: SourceView<S>,
    sequence: S,
    listeners: Seq<Position>,
    sound_velocity: u32,
)
    ensures
        source.with_source(sequence).delay_atten_all(listeners, sound_velocity)
            == source.delay_atten_all(listeners, sound_velocity),
{
    assert(source.with_source(sequence).delay_atten_all(listeners, sound_velocity)
        =~= source.delay_atten_all(listeners, sound_velocity));
}

/// Of two listeners, the one farther from a source never hears it louder.
pub proof fn farther_listener_hears_no_louder<S>(
    source: SourceView<S>,
    near: Position,
    far: Position,
    sound_velocity: u32,
)
    requires
        squared_distance(near, source.position) <= squared_distance(far, source.position),
    ensures
        source.delay_atten(near, sound_velocity).1 >= source.delay_atten(far, sound_velocity).1,
{
    floor_sqrt_monotonic(
        squared_distance(near, source.position),
        squared_distance(far, source.position),
    );
    if distance(near, source.position) < distance(far, source.position) {
        attenuation_monotonic(
            source.amplify,
            source.attenuation_rate,
            distance(near, source.position),
            distance(far, source.position),
        );
    }
}

impl<S: SampleSource> View for SingleLocatedSource<S> {
    type V = SourceView<S>;

    closed spec fn view(&self) -> SourceView<S> {
        SourceView {
            source: self.source,
            msg_channel: self.msg_channel,
            sample_rate: self.sample_rate,
            position: self.position,
            attenuation_rate: self.attenuation_rate,
            amplify: self.amplify,
            doppler: self.doppler,
        }
    }
}

impl<S: SampleSource> SingleLocatedSource<S> {
    /// The delay and the gain that the source keeps for each listener, by
    /// channel, as `update_listener` last computed them.
    pub closed spec fn cached(&self) -> Seq<(usize, u32)> {
        self.curr_delay_atten@
    }

    /// A source at `position` that plays `source`, or `None` where
    /// `attenuation_rate` is zero. The sample rate is what `source` gives for
    /// it when asked, once, here.
    pub fn new(
        source: S,
        position: Position,
        attenuation_rate: u32,
        amplify: u32,
        doppler: bool,
        msg_channel: Receiver<SingleLocatedSourceMsg>,
    ) -> (made: Option<Self>)
        ensures
            made is Some <==> attenuation_rate > 0,
            made matches Some(located) ==> {
                &&& located@ == (SourceView {
                    source,
                    msg_channel,
                    sample_rate: located@.sample_rate,
                    position,
                    attenuation_rate,
                    amplify,
                    doppler,
                })
                &&& located.cached() == Seq::<(usize, u32)>::empty()
                &&& call_ensures(S::sample_rate, (&source,), located@.sample_rate)
            },
    {
        if attenuation_rate == 0 {
            None
        } else {
            let sample_rate = source.sample_rate();
            Some(
                SingleLocatedSource {
                    source,
                    sample_rate,
                    position,
                    attenuation_rate,
                    amplify,
                    doppler,
                    msg_channel,
                    curr_delay_atten: Vec::new(),
                },
            )
        }
    }

    /// The number of samples per second of the source's sequence.
    pub fn sample_rate(&self) -> (sample_rate: u32)
        ensures
            sample_rate == self@.sample_rate,
    {
        self.sample_rate
    }

    /// Where the source is.
    pub fn position(&self) -> (position: Position)
        ensures
            position == self@.position,
    {
        self.position
    }

    /// How fast the source fades with distance.
    pub fn attenuation_rate(&self) -> (attenuation_rate: u32)
        ensures
            attenuation_rate == self@.attenuation_rate,
    {
        self.attenuation_rate
    }

    /// The gain of the source before attenuation.
    pub fn amplify(&self) -> (amplify: u32)
        ensures
            amplify == self@.amplify,
    {
        self.amplify
    }

    /// Whether the source is delayed by its distance.
    pub fn doppler(&self) -> (doppler: bool)
        ensures
            doppler == self@.doppler,
    {
        self.doppler
    }

    /// The delay and the gain that the source keeps for each listener.
    pub fn curr_delay_atten(&self) -> (kept: &Vec<(usize, u32)>)
        ensures
            kept@ == self.cached(),
    {
        &self.curr_delay_atten
    }

    /// Makes one change to the source.
    pub fn apply(&mut self, msg: SingleLocatedSourceMsg)
        ensures
            final(self)@ == old(self)@.apply(msg),
            final(self).cached() == old(self).cached(),
    {
        match msg {
            SingleLocatedSourceMsg::Move(position) => {
                self.position = position;
            },
            SingleLocatedSourceMsg::SetDoppler(doppler) => {
                self.doppler = doppler;
            },
            SingleLocatedSourceMsg::SetAmplify(amplify) => {
                self.amplify = amplify;
            },
        }
    }

    /// Makes the changes that have arrived on the source's channel, one after
    /// the other as the channel hands them out, until it has none left, and
    /// tells whether there was any.
    pub fn update(&mut self) -> (changed: bool)
        ensures
            final(self).cached() == old(self).cached(),
            exists|updates: Seq<SingleLocatedSourceMsg>|
                {
                    &&& final(self)@ == #[trigger] old(self)@.apply_all(updates)
                    &&& changed <==> updates.len() > 0
                },
    {
        let mut taken: usize = 0;
        let ghost mut updates: Seq<SingleLocatedSourceMsg> = Seq::empty();
        while taken < usize::MAX
            invariant
                updates.len() == taken,
                self@ == old(self)@.apply_all(updates),
                self.cached() == old(self).cached(),
            decreases usize::MAX - taken,
        {
            match self.msg_channel.try_recv() {
                Ok(msg) => {
                    proof {
                        assert(updates.push(msg).drop_last() =~= updates);
                        updates = updates.push(msg);
                    }
                    self.apply(msg);
                },
                Err(_) => {
                    break ;
                },
            }
            taken += 1;
        }
        taken > 0
    }

    /// Computes anew, for each listener, the delay and the gain with which it
    /// hears the source.
    pub fn update_listener(&mut self, new_pos: &Vec<Position>, sound_velocity: u32)
        ensures
            final(self)@ == old(self)@,
            final(self).cached() == old(self)@.delay_atten_all(new_pos@, sound_velocity),
    {
        self.curr_delay_atten.clear();
        let mut i: usize = 0;
        while i < new_pos.len()
            invariant
                i <= new_pos@.len(),
                self@ == old(self)@,
                self.cached() == self@.delay_atten_all(new_pos@.take(i as int), sound_velocity),
            decreases new_pos@.len() - i,
        {
            let d = euclidian_distance(&new_pos[i], &self.position);
            let delay = if self.doppler {
                compute_delay(d, sound_velocity, self.sample_rate)
            } else {
                0
            };
            let attenuation = compute_attenuation(self.amplify, self.attenuation_rate, d);
            self.curr_delay_atten.push((delay, attenuation));
            assert(self.cached() =~= self@.delay_atten_all(
                new_pos@.take(i + 1 as int),
                sound_velocity,
            ));
            i += 1;
        }
    }

    /// Takes what the source's sequence yields next: a sample, or `None` when
    /// the sequence has ended. Only the sequence changes, as its own call does.
    pub fn pull(&mut self) -> (sample: Option<i16>)
        ensures
            final(self)@ == old(self)@.with_source(final(self)@.source),
            final(self).cached() == old(self).cached(),
            exists|sequence: &mut S|
                mut_ref_current(sequence) == old(self)@.source && mut_ref_future(sequence)
                    == final(self)@.source && #[trigger] call_ensures(
                    S::next_sample,
                    (sequence,),
                    sample,
                ),
    {
        self.source.next_sample()
    }
}

/// A request to the mixer, sent to it through its channel.
pub enum LocatedSourcesMsg<S: SampleSource> {
    /// The listeners are now at these positions, one for each output channel.
    MoveListener(Vec<Position>),
    /// This source is to be played.
    AddSource(SingleLocatedSource<S>),
}

/// What a request to the mixer says.
pub ghost enum LocatedSourcesMsgView<S> {
    MoveListener(Seq<Position>),
    AddSource(SourceView<S>),
}

impl<S: SampleSource> View for LocatedSourcesMsg<S> {
    type V = LocatedSourcesMsgView<S>;

    open spec fn view(&self) -> LocatedSourcesMsgView<S> {
        match self {
            LocatedSourcesMsg::MoveListener(positions) => LocatedSourcesMsgView::MoveListener(
                positions@,
            ),
            LocatedSourcesMsg::AddSource(source) => LocatedSourcesMsgView::AddSource(source@),
        }
    }
}

/// What one source brings in at the start of a cycle: the changes that had
/// arrived on its channel, its sample sequence as the pull left it, and the
/// sample pulled, `None` when the sequence has ended.
pub ghost struct Intake<S> {
    pub updates: Seq<SingleLocatedSourceMsg>,
    pub source: S,
    pub sample: Option<i16>,
}

/// A bank after one sample of a source has been added to the first `channels`
/// channels, in the order of the channels: to each with the delay and the gain
/// that `delay_atten` holds for it.
pub open spec fn bank_after(
    bank: Seq<Seq<i16>>,
    delay_atten: Seq<(usize, u32)>,
    sample: i16,
    channels: nat,
) -> Seq<Seq<i16>>
    decreases channels,
{
    if channels == 0 {
        bank
    } else {
        let channel = (channels - 1) as nat;
        bank_with(
            bank_after(bank, delay_atten, sample, channel),
            channel,
            delay_atten[channel as int].0 as nat,
            amplified(sample, delay_atten[channel as int].1),
        )
    }
}

/// The mixer: the sources that play, the listeners, and what is due on each
/// output channel.
///
/// The mixer produces one sample for each call of `next`, for each output
/// channel in turn. Before the sample of the first channel it takes in what has
/// arrived on its channel, pulls one sample from every source, and adds it to
/// what is due on each channel.
#[verifier::reject_recursive_types(S)]
pub struct LocatedSources<S: SampleSource> {
    sources: Vec<SingleLocatedSource<S>>,
    sample_rate: u32,
    delay_buffer: DelayBufferBank,
    sound_velocity: u32,
    current_processing_channel: usize,
    output_channels: Vec<Position>,
    listener_moved: bool,
    msg_channel: Receiver<LocatedSourcesMsg<S>>,
}

/// The state of a mixer.
#[verifier::reject_recursive_types(S)]
pub ghost struct MixerView<S: SampleSource> {
    /// The sources that play, in the order of their admission.
    pub sources: Seq<SourceView<S>>,
    /// The sample rate of the output, and of every source that plays.
    pub sample_rate: u32,
    /// What is due on each output channel, the next sample first.
    pub delay_buffer: Seq<Seq<i16>>,
    /// The distance that sound covers in a second.
    pub sound_velocity: u32,
    /// The channel of the sample that `next` produces next.
    pub current_processing_channel: usize,
    /// The position of the listener of each output channel.
    pub output_channels: Seq<Position>,
    /// The channel on which requests arrive.
    pub msg_channel: Receiver<LocatedSourcesMsg<S>>,
}

impl<S: SampleSource> MixerView<S> {
    /// What every mixer keeps to: it has an output channel, and no more than
    /// can be counted; its cursor is on one of them; and every source that
    /// plays has the mixer's sample rate.
    pub open spec fn valid(self) -> bool {
        &&& 0 < self.output_channels.len() <= usize::MAX
        &&& self.current_processing_channel < self.output_channels.len()
        &&& forall|i: int|
            0 <= i < self.sources.len() ==> (#[trigger] self.sources[i]).sample_rate
                == self.sample_rate
    }

    /// The mixer after one request.
    ///
    /// New listener positions replace the old ones where there are as many of
    /// them, and are dropped otherwise. A source joins the sources that play,
    /// behind them, where its sample rate is the mixer's, and is dropped
    /// otherwise.
    pub open spec fn handle(self, msg: LocatedSourcesMsgView<S>) -> Self {
        match msg {
            LocatedSourcesMsgView::MoveListener(positions) => {
                if positions.len() == self.output_channels.len() {
                    MixerView { output_channels: positions, ..self }
                } else {
                    self
                }
            },
            LocatedSourcesMsgView::AddSource(source) => {
                if source.sample_rate == self.sample_rate {
                    MixerView { sources: self.sources.push(source), ..self }
                } else {
                    self
                }
            },
        }
    }

    /// The mixer after a run of requests, the first of them handled first.
    pub open spec fn handle_all(self, msgs: Seq<LocatedSourcesMsgView<S>>) -> Self
        decreases msgs.len(),
    {
        if msgs.len() == 0 {
            self
        } else {
            self.handle_all(msgs.drop_last()).handle(msgs.last())
        }
    }

    /// The mixer after the source at `index` has yielded `pulled`: a sample is
    /// added to what is due on each channel, with the delay and the gain of
    /// the source for that channel's listener; a source whose sequence has
    /// ended leaves the sources that play, and the others keep their order.
    pub open spec fn mix(self, index: int, pulled: Option<i16>) -> Self {
        match pulled {
            Some(sample) => MixerView {
                delay_buffer: bank_after(
                    self.delay_buffer,
                    self.sources[index].delay_atten_all(self.output_channels, self.sound_velocity),
                    sample,
                    self.output_channels.len(),
                ),
                ..self
            },
            None => MixerView { sources: self.sources.remove(index), ..self },
        }
    }

    /// The mixer after the turn of the source at `index`: the source makes the
    /// changes that had arrived for it, its sequence moves on, and what it
    /// yielded is mixed in.
    pub open spec fn serve(self, index: int, intake: Intake<S>) -> Self {
        let served = self.sources[index].served(intake);
        (MixerView { sources: self.sources.update(index, served), ..self }).mix(
            index,
            intake.sample,
        )
    }

    /// The mixer after the turns of the sources from index `first` on, the
    /// last source first; `intakes[k]` is what the source at `first + k` brings
    /// in.
    pub open spec fn frame_from(self, intakes: Seq<Intake<S>>, first: int) -> Self
        decreases intakes.len(),
    {
        if intakes.len() == 0 {
            self
        } else {
            self.frame_from(intakes.skip(1), first + 1).serve(first, intakes[0])
        }
    }

    /// The mixer after every source has had its turn, the last source first;
    /// `intakes[i]` is what the source at `i` brings in.
    pub open spec fn frame(self, intakes: Seq<Intake<S>>) -> Self {
        self.frame_from(intakes, 0)
    }

    /// The mixer at the start of a cycle, once it has handled the requests
    /// `msgs` and every source that plays then has had its turn.
    pub open spec fn staged(
        self,
        msgs: Seq<LocatedSourcesMsgView<S>>,
        intakes: Seq<Intake<S>>,
    ) -> Self {
        self.handle_all(msgs).frame(intakes)
    }

    /// The sample that is due next: the front of the queue of the channel
    /// that the cursor is on, or silence.
    pub open spec fn due(self) -> i16 {
        front_of(self.delay_buffer, self.current_processing_channel as nat)
    }

    /// The mixer after the sample that is due next has left it: the cursor is
    /// on the next channel, or on the first one after the last.
    pub open spec fn emitted(self) -> Self {
        MixerView {
            delay_buffer: bank_without_front(
                self.delay_buffer,
                self.current_processing_channel as nat,
            ),
            current_processing_channel: if self.current_processing_channel + 1
                == self.output_channels.len() {
                0
            } else {
                (self.current_processing_channel + 1) as usize
            },
            ..self
        }
    }
}

impl<S: SampleSource> View for LocatedSources<S> {
    type V = MixerView<S>;

    closed spec fn view(&self) -> MixerView<S> {
        MixerView {
            sources: Seq::new(self.sources@.len(), |i: int| self.sources@[i]@),
            sample_rate: self.sample_rate,
            delay_buffer: self.delay_buffer@,
            sound_velocity: self.sound_velocity,
            current_processing_channel: self.current_processing_channel,
            output_channels: self.output_channels@,
            msg_channel: self.msg_channel,
        }
    }
}

impl<S: SampleSource> LocatedSources<S> {
    /// The delays and gains that each source keeps, by source and by channel.
    pub closed spec fn caches(&self) -> Seq<Seq<(usize, u32)>> {
        Seq::new(self.sources@.len(), |i: int| self.sources@[i].cached())
    }

    /// The listeners have moved since the sources were last brought in step
    /// with them.
    pub closed spec fn listener_pending(&self) -> bool {
        self.listener_moved
    }

    /// The source at `index` keeps, for each listener, the delay and the gain
    /// with which that listener hears it now.
    pub open spec fn in_step(&self, index: int) -> bool {
        self.caches()[index] == self@.sources[index].delay_atten_all(
            self@.output_channels,
            self@.sound_velocity,
        )
    }

    /// The mixer is sound: its state is valid, and every source is in step
    /// with the listeners unless the mixer has noted that the listeners moved.
    pub open spec fn wf(&self) -> bool {
        &&& self@.valid()
        &&& self.caches().len() == self@.sources.len()
        &&& self.listener_pending() || forall|i: int|
            0 <= i < self@.sources.len() ==> self.in_step(i)
    }

    /// A mixer stays sound while its sources, what they keep, and the
    /// listeners stay as they are.
    proof fn stays_sound(&self, before: &Self)
        requires
            before.wf(),
            self@.valid(),
            self@.sources == before@.sources,
            self@.output_channels == before@.output_channels,
            self@.sound_velocity == before@.sound_velocity,
            self.caches() == before.caches(),
            self.listener_pending() == before.listener_pending(),
        ensures
            self.wf(),
    {
        assert forall|i: int|
            0 <= i < self@.sources.len() && !self.listener_pending() implies self.in_step(i) by {
            assert(before.in_step(i));
        }
    }

    /// The mixer has no more queues, and a queue no more entries, than can be
    /// counted.
    pub proof fn delay_buffer_fits(&self)
        ensures
            self@.delay_buffer.len() <= usize::MAX,
            forall|c: int|
                0 <= c < self@.delay_buffer.len() ==> (#[trigger] self@.delay_buffer[c]).len()
                    <= usize::MAX,
    {
        self.delay_buffer.fits();
    }

    /// A mixer without sources, with the cursor on the first channel and
    /// nothing due on any channel; `None` where `output_channels` is empty.
    pub fn new(
        sample_rate: u32,
        sound_velocity: u32,
        output_channels: Vec<Position>,
        msg_channel: Receiver<LocatedSourcesMsg<S>>,
    ) -> (made: Option<Self>)
        ensures
            made is Some <==> output_channels@.len() > 0,
            made matches Some(mixer) ==> {
                &&& mixer.wf()
                &&& mixer@ == (MixerView {
                    sources: Seq::<SourceView<S>>::empty(),
                    sample_rate,
                    delay_buffer: Seq::<Seq<i16>>::empty(),
                    sound_velocity,
                    current_processing_channel: 0,
                    output_channels: output_channels@,
                    msg_channel,
                })
            },
    {
        if output_channels.len() == 0 {
            None
        } else {
            let mixer = LocatedSources {
                sources: Vec::new(),
                sample_rate,
                delay_buffer: DelayBufferBank::new(),
                sound_velocity,
                current_processing_channel: 0,
                output_channels,
                listener_moved: false,
                msg_channel,
            };
            assert(mixer@.sources =~= Seq::<SourceView<S>>::empty());
            Some(mixer)
        }
    }

    /// The number of sources that play.
    pub fn source_count(&self) -> (count: usize)
        ensures
            count == self@.sources.len(),
    {
        self.sources.len()
    }

    /// The source at `index` in the order of admission, or `None` where fewer
    /// sources play.
    pub fn source(&self, index: usize) -> (found: Option<&SingleLocatedSource<S>>)
        ensures
            found is Some <==> index < self@.sources.len(),
            found matches Some(source) ==> {
                &&& source@ == self@.sources[index as int]
                &&& source.cached() == self.caches()[index as int]
            },
    {
        if index < self.sources.len() {
            Some(&self.sources[index])
        } else {
            None
        }
    }

    /// The position of the listener of each output channel.
    pub fn output_channels(&self) -> (positions: &Vec<Position>)
        ensures
            positions@ == self@.output_channels,
    {
        &self.output_channels
    }

    /// The channel of the sample that `next` produces next.
    pub fn current_processing_channel(&self) -> (channel: usize)
        ensures
            channel == self@.current_processing_channel,
    {
        self.current_processing_channel
    }

    /// The sample rate of the output.
    pub fn sample_rate(&self) -> (sample_rate: u32)
        ensures
            sample_rate == self@.sample_rate,
    {
        self.sample_rate
    }

    /// The distance that sound covers in a second.
    pub fn sound_velocity(&self) -> (sound_velocity: u32)
        ensures
            sound_velocity == self@.sound_velocity,
    {
        self.sound_velocity
    }

    /// Adds `sample` to what is due on `channel` in `delay` samples.
    pub fn insert_channel(&mut self, channel: usize, delay: usize, sample: i16)
        requires
            old(self).wf(),
            channel < usize::MAX,
            delay < usize::MAX,
        ensures
            final(self).wf(),
            final(self)@ == (MixerView {
                delay_buffer: bank_with(
                    old(self)@.delay_buffer,
                    channel as nat,
                    delay as nat,
                    sample,
                ),
                ..old(self)@
            }),
            final(self).caches() == old(self).caches(),
            final(self).listener_pending() == old(self).listener_pending(),
    {
        self.delay_buffer.insert(channel, delay, sample);
        proof {
            self.stays_sound(old(self));
        }
    }

    /// Takes the sample due next on `channel`, or silence where none is due.
    pub fn pop_channel(&mut self, channel: usize) -> (sample: i16)
        requires
            old(self).wf(),
        ensures
            final(self).wf(),
            sample == front_of(old(self)@.delay_buffer, channel as nat),
            final(self)@ == (MixerView {
                delay_buffer: bank_without_front(old(self)@.delay_buffer, channel as nat),
                ..old(self)@
            }),
            final(self).caches() == old(self).caches(),
            final(self).listener_pending() == old(self).listener_pending(),
    {
        let sample = self.delay_buffer.pop(channel);
        proof {
            self.stays_sound(old(self));
        }
        sample
    }

    /// Handles one request.
    ///
    /// New listener positions replace the old ones where there are as many of
    /// them; the sources are brought in step with them at the start of the
    /// next cycle. A source whose sample rate is the mixer's joins the sources
    /// that play, in step with the listeners. Any other request is dropped and
    /// leaves the mixer as it was.
    pub fn handle_message(&mut self, msg: LocatedSourcesMsg<S>)
        requires
            old(self).wf(),
        ensures
            final(self).wf(),
            final(self)@ == old(self)@.handle(msg@),
            msg@ matches LocatedSourcesMsgView::MoveListener(positions) ==> (positions.len() != old(
                self,
            )@.output_channels.len() ==> final(self)@ == old(self)@),
            msg@ matches LocatedSourcesMsgView::AddSource(source) ==> (source.sample_rate != old(
                self,
            )@.sample_rate ==> final(self)@ == old(self)@),
            msg@ matches LocatedSourcesMsgView::AddSource(source) ==> (source.sample_rate == old(
                self,
            )@.sample_rate ==> final(self)@.sources == old(self)@.sources.push(source)),
            final(self).listener_pending() == (old(self).listener_pending() || (msg@ matches
                LocatedSourcesMsgView::MoveListener(positions) && positions.len() == old(
                self,
            )@.output_channels.len())),
            final(self).caches() == match msg@ {
                LocatedSourcesMsgView::AddSource(source) if source.sample_rate == old(
                    self,
                )@.sample_rate => old(self).caches().push(
                    source.delay_atten_all(old(self)@.output_channels, old(self)@.sound_velocity),
                ),
                _ => old(self).caches(),
            },
    {
        match msg {
            LocatedSourcesMsg::MoveListener(new_pos) => {
                if new_pos.len() == self.output_channels.len() {
                    self.listener_moved = true;
                    self.output_channels = new_pos;
                }
            },
            LocatedSourcesMsg::AddSource(source) => {
                let mut source = source;
                if source.sample_rate == self.sample_rate {
                    source.update_listener(&self.output_channels, self.sound_velocity);
                    self.sources.push(source);
                    assert(self@.sources =~= old(self)@.sources.push(source@));
                    assert forall|i: int|
                        0 <= i < self@.sources.len()
                            && !self.listener_pending() implies self.in_step(i) by {
                        if i < old(self)@.sources.len() {
                            assert(old(self).in_step(i));
                        }
                    }
                }
            },
        }
    }

    /// Mixes in what the source at `index` has yielded at the start of a
    /// cycle: a sample is added to what is due on each channel, a source whose
    /// sequence has ended leaves the sources that play.
    pub fn mix_sample(&mut self, index: usize, pulled: Option<i16>)
        requires
            old(self).wf(),
            old(self)@.current_processing_channel == 0,
            index < old(self)@.sources.len(),
            old(self).in_step(index as int),
        ensures
            final(self).wf(),
            final(self)@ == old(self)@.mix(index as int, pulled),
            final(self).listener_pending() == old(self).listener_pending(),
            final(self).caches() == match pulled {
                Some(_) => old(self).caches(),
                None => old(self).caches().remove(index as int),
            },
    {
        match pulled {
            None => {
                let _ = self.sources.remove(index);
                assert(self@.sources =~= old(self)@.sources.remove(index as int));
                assert forall|i: int|
                    0 <= i < self@.sources.len() && !self.listener_pending() implies self.in_step(
                    i,
                ) by {
                    assert(old(self).in_step(
                        if i < index {
                            i
                        } else {
                            i + 1
                        },
                    ));
                }
            },
            Some(sample) => {
                let channels = self.sources[index].curr_delay_atten.len();
                let mut channel: usize = 0;
                while channel < channels
                    invariant
                        channel <= channels,
                        channels == self.output_channels@.len(),
                        index < self.sources@.len(),
                        self.sources@ == old(self).sources@,
                        self.output_channels@ == old(self).output_channels@,
                        self.sound_velocity == old(self).sound_velocity,
                        self.sample_rate == old(self).sample_rate,
                        self.current_processing_channel == old(self).current_processing_channel,
                        self.listener_moved == old(self).listener_moved,
                        self.msg_channel == old(self).msg_channel,
                        old(self).in_step(index as int),
                        self.delay_buffer@ == bank_after(
                            old(self).delay_buffer@,
                            old(self).sources@[index as int].cached(),
                            sample,
                            channel as nat,
                        ),
                    decreases channels - channel,
                {
                    let (delay, attenuation) = self.sources[index].curr_delay_atten[channel];
                    self.delay_buffer.insert(channel, delay, amplify(sample, attenuation));
                    channel += 1;
                }
                proof {
                    self.stays_sound(old(self));
                }
            },
        }
    }

    /// Produces the sample that is due, and moves the cursor to the next
    /// channel, or back to the first one after the last.
    pub fn emit(&mut self) -> (sample: i16)
        requires
            old(self).wf(),
        ensures
            final(self).wf(),
            sample == old(self)@.due(),
            final(self)@ == old(self)@.emitted(),
            final(self).caches() == old(self).caches(),
            final(self).listener_pending() == old(self).listener_pending(),
    {
        let channels = self.output_channels.len();
        let sample = self.pop_channel(self.current_processing_channel);
        self.current_processing_channel += 1;
        if self.current_processing_channel == channels {
            self.current_processing_channel = 0;
        }
        proof {
            self.stays_sound(old(self));
        }
        sample
    }

    /// Handles the requests that have arrived on the mixer's channel, one
    /// after the other as the channel hands them out, until it has none left.
    fn receive_messages(&mut self)
        requires
            old(self).wf(),
        ensures
            final(self).wf(),
            exists|msgs: Seq<LocatedSourcesMsgView<S>>|
                final(self)@ == #[trigger] old(self)@.handle_all(msgs),
    {
        let mut taken: usize = 0;
        let ghost mut msgs: Seq<LocatedSourcesMsgView<S>> = Seq::empty();
        while taken < usize::MAX
            invariant
                self.wf(),
                self@ == old(self)@.handle_all(msgs),
            decreases usize::MAX - taken,
        {
            match self.msg_channel.try_recv() {
                Ok(msg) => {
                    proof {
                        assert(msgs.push(msg@).drop_last() =~= msgs);
                        msgs = msgs.push(msg@);
                    }
                    self.handle_message(msg);
                },
                Err(_) => {
                    break ;
                },
            }
            taken += 1;
        }
    }

    /// Gives every source its turn, the last source first: the source makes
    /// the changes that have arrived for it, is brought in step with the
    /// listeners where they or the source have changed, and yields one sample,
    /// which is mixed in. What a source brings in is what its own sequence
    /// yields, called once on the state it was in.
    fn prepare_frame(&mut self)
        requires
            old(self).wf(),
            old(self)@.current_processing_channel == 0,
        ensures
            final(self).wf(),
            !final(self).listener_pending(),
            exists|intakes: Seq<Intake<S>>|
                {
                    &&& intakes.len() == old(self)@.sources.len()
                    &&& final(self)@ == #[trigger] old(self)@.frame(intakes)
                    &&& forall|k: int|
                        #![trigger intakes[k]]
                        0 <= k < intakes.len() ==> exists|sequence: &mut S|
                            #![trigger call_ensures(S::next_sample, (sequence,), intakes[k].sample)]
                            mut_ref_current(sequence) == old(self)@.sources[k].source
                                && mut_ref_future(sequence) == intakes[k].source && call_ensures(
                                S::next_sample,
                                (sequence,),
                                intakes[k].sample,
                            )
                },
    {
        let mut i: usize = self.sources.len();
        let ghost mut done: Seq<Intake<S>> = Seq::empty();
        while i > 0
            invariant
                i <= self@.sources.len(),
                done.len() + i == old(self)@.sources.len(),
                self.wf(),
                self@.current_processing_channel == 0,
                self.listener_pending() == old(self).listener_pending(),
                forall|j: int| i <= j < self@.sources.len() ==> self.in_step(j),
                self@ == old(self)@.frame_from(done, i as int),
                forall|j: int| 0 <= j < i ==> self@.sources[j] == old(self)@.sources[j],
                forall|k: int|
                    #![trigger done[k]]
                    0 <= k < done.len() ==> exists|sequence: &mut S|
                        #![trigger call_ensures(S::next_sample, (sequence,), done[k].sample)]
                        mut_ref_current(sequence) == old(self)@.sources[i + k].source
                            && mut_ref_future(sequence) == done[k].source && call_ensures(
                            S::next_sample,
                            (sequence,),
                            done[k].sample,
                        ),
            decreases i,
        {
            i -= 1;
            let ghost before = *self;
            let ghost earlier = done;
            let changed = self.sources[i].update();
            let ghost updates = choose|updates: Seq<SingleLocatedSourceMsg>|
                {
                    &&& self.sources@[i as int]@ == #[trigger] before.sources@[i as int]@.apply_all(
                        updates,
                    )
                    &&& changed <==> updates.len() > 0
                };
            if self.listener_moved || changed {
                self.sources[i].update_listener(&self.output_channels, self.sound_velocity);
            }
            let pulled = self.sources[i].pull();
            let ghost ready = *self;
            proof {
                let intake = Intake {
                    updates,
                    source: self.sources@[i as int]@.source,
                    sample: pulled,
                };
                let changed_source = before@.sources[i as int].apply_all(updates);
                let served = changed_source.with_source(intake.source);
                changes_keep_identity(before@.sources[i as int], updates);
                sequence_leaves_delay_atten(
                    changed_source,
                    intake.source,
                    self@.output_channels,
                    self@.sound_velocity,
                );
                assert(self@.sources =~= before@.sources.update(i as int, served));
                assert(self.caches() =~= before.caches().update(
                    i as int,
                    self.sources@[i as int].cached(),
                ));
                assert(before.in_step(i as int) || self.listener_pending() || changed);
                assert forall|j: int| i < j < self@.sources.len() implies self.in_step(j) by {
                    assert(before.in_step(j));
                }
                assert forall|j: int|
                    0 <= j < i && !self.listener_pending() implies self.in_step(j) by {
                    assert(before.in_step(j));
                }
                assert((seq![intake] + done).skip(1) =~= done);
                done = seq![intake] + done;
                assert(before@.sources[i as int] == old(self)@.sources[i as int]);
                assert forall|k: int| #![trigger done[k]] 0 <= k < done.len() implies exists|
                    sequence: &mut S,
                |
                    #![trigger call_ensures(S::next_sample, (sequence,), done[k].sample)]
                    mut_ref_current(sequence) == old(self)@.sources[i + k].source
                        && mut_ref_future(sequence) == done[k].source && call_ensures(
                        S::next_sample,
                        (sequence,),
                        done[k].sample,
                    ) by {
                    if k > 0 {
                        assert(done[k] == earlier[k - 1]);
                    }
                }
            }
            self.mix_sample(i, pulled);
            proof {
                assert forall|j: int| i <= j < self@.sources.len() implies self.in_step(j) by {
                    if pulled is None {
                        assert(ready.in_step(j + 1));
                    } else {
                        assert(ready.in_step(j));
                    }
                }
            }
        }
        let ghost mixed = *self;
        self.listener_moved = false;
        proof {
            assert forall|j: int| 0 <= j < self@.sources.len() implies self.in_step(j) by {
                assert(mixed.in_step(j));
            }
            assert(old(self)@.frame(done) == old(self)@.frame_from(done, 0));
        }
    }

    /// Produces the next sample of the interleaved output: the sample that is
    /// due on the channel that the cursor is on. Always `Some`.
    ///
    /// With the cursor on the first channel a cycle begins: before the sample
    /// is produced, the mixer handles the requests that have arrived, and
    /// every source has its turn. What arrives is not up to the mixer, and
    /// what a source brings in is what its own sequence yields, called once on
    /// the state it was in; the mixer is in the state that follows from them.
    pub fn next(&mut self) -> (sample: Option<i16>)
        requires
            old(self).wf(),
        ensures
            final(self).wf(),
            sample is Some,
            final(self)@.current_processing_channel == if old(self)@.current_processing_channel + 1
                == old(self)@.output_channels.len() {
                0
            } else {
                old(self)@.current_processing_channel + 1
            },
            final(self)@.output_channels.len() == old(self)@.output_channels.len(),
            final(self)@.sample_rate == old(self)@.sample_rate,
            final(self)@.sound_velocity == old(self)@.sound_velocity,
            final(self)@.msg_channel == old(self)@.msg_channel,
            old(self)@.current_processing_channel != 0 ==> {
                &&& final(self)@ == old(self)@.emitted()
                &&& sample == Some(old(self)@.due())
                &&& final(self).caches() == old(self).caches()
                &&& final(self).listener_pending() == old(self).listener_pending()
            },
            old(self)@.current_processing_channel == 0 ==> !final(self).listener_pending(),
            old(self)@.current_processing_channel == 0 ==> exists|
                msgs: Seq<LocatedSourcesMsgView<S>>,
                intakes: Seq<Intake<S>>,
            |
                {
                    &&& intakes.len() == old(self)@.handle_all(msgs).sources.len()
                    &&& final(self)@ == (#[trigger] old(self)@.staged(msgs, intakes)).emitted()
                    &&& sample == Some(old(self)@.staged(msgs, intakes).due())
                    &&& forall|k: int|
                        #![trigger intakes[k]]
                        0 <= k < intakes.len() ==> exists|sequence: &mut S|
                            #![trigger call_ensures(S::next_sample, (sequence,), intakes[k].sample)]
                            mut_ref_current(sequence) == old(self)@.handle_all(
                                msgs,
                            ).sources[k].source && mut_ref_future(sequence) == intakes[k].source
                                && call_ensures(S::next_sample, (sequence,), intakes[k].sample)
                },
    {
        if self.current_processing_channel == 0 {
            self.receive_messages();
            let ghost received = self@;
            let ghost msgs = choose|msgs: Seq<LocatedSourcesMsgView<S>>|
                received == #[trigger] old(self)@.handle_all(msgs);
            proof {
                requests_keep_active_sources(old(self)@, msgs);
            }
            self.prepare_frame();
            let ghost intakes = choose|intakes: Seq<Intake<S>>|
                {
                    &&& intakes.len() == received.sources.len()
                    &&& self@ == #[trigger] received.frame(intakes)
                    &&& forall|k: int|
                        #![trigger intakes[k]]
                        0 <= k < intakes.len() ==> exists|sequence: &mut S|
                            #![trigger call_ensures(S::next_sample, (sequence,), intakes[k].sample)]
                            mut_ref_current(sequence) == received.sources[k].source
                                && mut_ref_future(sequence) == intakes[k].source && call_ensures(
                                S::next_sample,
                                (sequence,),
                                intakes[k].sample,
                            )
                };
            proof {
                frame_keeps_the_yielding(received, intakes);
            }
            assert(self@ == old(self)@.staged(msgs, intakes));
        }
        Some(self.emit())
    }
}

} // verus!
