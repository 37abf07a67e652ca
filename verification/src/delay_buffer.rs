//! The delay buffer bank: one queue of samples for each output channel.
//!
//! The front of a queue is the next sample due on its channel; the entry at
//! index `d` is due `d` samples later. A contribution is added to the entry at
//! its delay, so that sources which reach a channel at the same moment are
//! mixed, and a queue only ever grows at its back and shrinks at its front.

use vstd::prelude::*;
use std::collections::VecDeque;
use crate::sample::{saturating_add, saturating_sum, SILENCE};

verus! {

/// `count` silent samples.
pub open spec fn silence(count: nat) -> Seq<i16> {
    Seq::new(count, |i: int| SILENCE)
}

/// A queue after a contribution of `sample` at `delay`: added, without
/// wrapping, to the entry at `delay` where the queue has one; otherwise the
/// queue is filled with silence up to `delay` and `sample` is put behind it.
pub open spec fn queue_with(queue: Seq<i16>, delay: nat, sample: i16) -> Seq<i16> {
    if delay < queue.len() {
        queue.update(delay as int, saturating_sum(queue[delay as int], sample))
    } else {
        (queue + silence((delay - queue.len()) as nat)).push(sample)
    }
}

/// A bank with a queue for each of the first `channels` channels: the bank
/// itself where it has them, otherwise the bank with empty queues behind it.
pub open spec fn bank_of(bank: Seq<Seq<i16>>, channels: nat) -> Seq<Seq<i16>> {
    if channels <= bank.len() {
        bank
    } else {
        bank + Seq::new((channels - bank.len()) as nat, |c: int| Seq::<i16>::empty())
    }
}

/// A bank after a contribution of `sample` at `delay` on `channel`.
///
/// The contribution goes to the queue of `channel` and to no other. Where the
/// bank has no queue for `channel` yet, it first grows up to that channel by
/// empty queues.
pub open spec fn bank_with(bank: Seq<Seq<i16>>, channel: nat, delay: nat, sample: i16) -> Seq<
    Seq<i16>,
> {
    let wide = bank_of(bank, channel + 1);
    wide.update(channel as int, queue_with(wide[channel as int], delay, sample))
}

/// A contribution reaches the queue of its own channel and no other: the queues
/// that the bank had for other channels stay as they were, and the queues that
/// the bank grows by below the channel are empty.
pub proof fn contribution_stays_on_its_channel(
    bank: Seq<Seq<i16>>,
    channel: nat,
    delay: nat,
    sample: i16,
)
    ensures
        ({
            let after = bank_with(bank, channel, delay, sample);
            &&& after.len() == if channel < bank.len() {
                bank.len()
            } else {
                channel + 1
            }
            &&& after[channel as int] == queue_with(
                if channel < bank.len() {
                    bank[channel as int]
                } else {
                    Seq::empty()
                },
                delay,
                sample,
            )
            &&& forall|c: int| 0 <= c < bank.len() && c != channel ==> after[c] == bank[c]
            &&& forall|c: int| bank.len() <= c < channel ==> after[c] == Seq::<i16>::empty()
            &&& forall|c: nat| c != channel ==> #[trigger] front_of(after, c) == front_of(bank, c)
        }),
{
}

/// The sample due next on `channel`: the front of its queue, or silence where
/// the queue is empty or the bank has none for the channel.
pub open spec fn front_of(bank: Seq<Seq<i16>>, channel: nat) -> i16 {
    if channel < bank.len() && bank[channel as int].len() > 0 {
        bank[channel as int][0]
    } else {
        SILENCE
    }
}

/// A bank after the sample due next on `channel` has left it.
pub open spec fn bank_without_front(bank: Seq<Seq<i16>>, channel: nat) -> Seq<Seq<i16>> {
    if channel < bank.len() && bank[channel as int].len() > 0 {
        bank.update(channel as int, bank[channel as int].skip(1))
    } else {
        bank
    }
}

/// Two contributions to the same slot, the same delay on the same channel, add
/// up, and the sum is held at the ends of the sample range instead of wrapping
/// round; nothing else that was due changes.
pub proof fn overlapping_contributions_saturate(
    bank: Seq<Seq<i16>>,
    channel: nat,
    delay: nat,
    first: i16,
    second: i16,
)
    ensures
        ({
            let once = bank_with(bank, channel, delay, first);
            let twice = bank_with(once, channel, delay, second);
            let slot = channel as int;
            let at = delay as int;
            &&& channel < once.len() == twice.len()
            &&& delay < once[slot].len() == twice[slot].len()
            &&& once[slot][at] == if channel < bank.len() && delay < bank[slot].len() {
                saturating_sum(bank[slot][at], first)
            } else {
                first
            }
            &&& twice[slot][at] == saturating_sum(once[slot][at], second)
            &&& i16::MIN <= twice[slot][at] <= i16::MAX
            &&& forall|c: int| 0 <= c < once.len() && c != channel ==> twice[c] == once[c]
            &&& forall|i: int|
                0 <= i < once[slot].len() && i != delay ==> twice[slot][i] == once[slot][i]
        }),
{
}

/// `VecDeque::get_mut` of std: a reference to the entry at `index`, through
/// which the caller may replace that entry and no other, or `None` where the
/// queue has no entry at `index`, in which case the queue stays as it is.
#[verifier::external_body]
fn slot_mut(queue: &mut VecDeque<i16>, index: usize) -> (slot: Option<&mut i16>)
    ensures
        match slot {
            Some(entry) => {
                &&& index < old(queue)@.len()
                &&& *entry == old(queue)@[index as int]
                &&& final(queue)@ == old(queue)@.update(index as int, *final(entry))
            },
            None => {
                &&& index >= old(queue)@.len()
                &&& final(queue)@ == old(queue)@
            },
        },
{
    queue.get_mut(index)
}

/// Adds a contribution to one queue.
fn contribute(queue: &mut VecDeque<i16>, delay: usize, sample: i16)
    requires
        delay < usize::MAX,
    ensures
        final(queue)@ == queue_with(old(queue)@, delay as nat, sample),
{
    match slot_mut(queue, delay) {
        Some(entry) => {
            *entry = saturating_add(*entry, sample);
        },
        None => {
            queue.resize(delay, SILENCE);
            queue.push_back(sample);
        },
    }
}

/// The queues of all output channels, indexed by channel.
pub struct DelayBufferBank {
    queues: Vec<VecDeque<i16>>,
}

impl View for DelayBufferBank {
    type V = Seq<Seq<i16>>;

    /// The queues, front first, by channel.
    closed spec fn view(&self) -> Seq<Seq<i16>> {
        Seq::new(self.queues@.len(), |c: int| self.queues@[c]@)
    }
}

impl DelayBufferBank {
    /// A bank has no more queues, and a queue no more entries, than can be
    /// counted.
    pub proof fn fits(&self)
        ensures
            self@.len() <= usize::MAX,
            forall|c: int| 0 <= c < self@.len() ==> (#[trigger] self@[c]).len() <= usize::MAX,
    {
        assert(self.queues@.len() == self.queues.len());
        assert forall|c: int| 0 <= c < self@.len() implies (#[trigger] self@[c]).len()
            <= usize::MAX by {
            assert(self.queues@[c]@.len() == self.queues@[c].len());
        }
    }

    /// A bank without any queue.
    pub fn new() -> (bank: DelayBufferBank)
        ensures
            bank@ == Seq::<Seq<i16>>::empty(),
    {
        DelayBufferBank { queues: Vec::new() }
    }

    /// Adds `sample` to what is due on `channel` in `delay` samples.
    pub fn insert(&mut self, channel: usize, delay: usize, sample: i16)
        requires
            channel < usize::MAX,
            delay < usize::MAX,
        ensures
            final(self)@ == bank_with(old(self)@, channel as nat, delay as nat, sample),
            final(self)@.len() >= old(self)@.len(),
    {
        while self.queues.len() <= channel
            invariant
                old(self).queues@.len() <= self.queues@.len(),
                self.queues@.len() <= channel + 1 || self.queues@.len() == old(self).queues@.len(),
                channel < usize::MAX,
                forall|c: int|
                    0 <= c < old(self).queues@.len() ==> self.queues@[c] == old(self).queues@[c],
                forall|c: int|
                    old(self).queues@.len() <= c < self.queues@.len()
                        ==> #[trigger] self.queues@[c]@ == Seq::<i16>::empty(),
            decreases channel + 1 - self.queues@.len(),
        {
            self.queues.push(VecDeque::new());
        }
        assert(self@ =~= bank_of(old(self)@, (channel + 1) as nat));
        contribute(&mut self.queues[channel], delay, sample);
    }

    /// Takes the sample due next on `channel`, or silence where none is queued.
    pub fn pop(&mut self, channel: usize) -> (sample: i16)
        ensures
            sample == front_of(old(self)@, channel as nat),
            final(self)@ == bank_without_front(old(self)@, channel as nat),
            final(self)@.len() == old(self)@.len(),
    {
        if channel < self.queues.len() {
            let front = self.queues[channel].pop_front();
            match front {
                Some(sample) => sample,
                None => SILENCE,
            }
        } else {
            SILENCE
        }
    }
}

} // verus!
