//! The control channel: the queue through which other threads reach the mixer.
//!
//! The queue is a channel of `crossbeam_channel`. Producers keep its sending
//! half and send whenever they like; the mixer holds the receiving half and
//! only ever asks it for what has already arrived, so that the thread which
//! produces sound never waits. What arrives, and when, is up to the producers:
//! nothing is claimed here of what a call returns.

use vstd::prelude::*;
use crossbeam_channel::{Receiver, TryRecvError};

verus! {

/// The receiving half of a channel, `crossbeam_channel::Receiver`.
#[verifier::external_type_specification]
#[verifier::external_body]
#[verifier::reject_recursive_types(T)]
pub struct ExReceiver<T>(Receiver<T>);

/// Why a receiver handed out no message, `crossbeam_channel::TryRecvError`.
#[verifier::external_type_specification]
#[verifier::external_body]
pub struct ExTryRecvError(TryRecvError);

/// `Receiver::try_recv` takes a message out of the channel, or reports that
/// none is there, without waiting. Which of the two happens depends on the
/// producers, so nothing is claimed of the result.
pub assume_specification<T>[ Receiver::<T>::try_recv ](receiver: &Receiver<T>) -> (message: Result<
    T,
    TryRecvError,
>)
;

} // verus!
