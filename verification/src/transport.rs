//! The channel primitive that the streams consume: `crossbeam::channel`.
//!
//! Nothing in this module is proved. Each item states what is believed of the
//! channel crate, and the rest of the library is verified against these
//! statements alone.

use crossbeam::channel::{Receiver, RecvError, Sender};
use vstd::prelude::*;

verus! {

/// `crossbeam::channel::Sender`: the sending half of a channel. Opaque here;
/// the library only hands it to the producer.
#[verifier::external_type_specification]
#[verifier::external_body]
#[verifier::reject_recursive_types(T)]
pub struct ExSender<T>(Sender<T>);

/// `crossbeam::channel::Receiver`: the receiving half of a channel. Opaque
/// here; the library carries it from one stream state to the next.
#[verifier::external_type_specification]
#[verifier::external_body]
#[verifier::reject_recursive_types(T)]
pub struct ExReceiver<T>(Receiver<T>);

/// `crossbeam::channel::RecvError`: the channel is empty and every sender is
/// gone.
#[verifier::external_type_specification]
#[verifier::external_body]
pub struct ExRecvError(RecvError);

/// `crossbeam::channel::bounded` makes a channel that holds at most `cap`
/// messages. It panics with "capacity is too large" when twice the power of
/// two above `cap` does not fit its index type, which is at least as wide as
/// `usize`; the bound here rules that out. Running out of memory for the
/// buffer is outside this statement, as it is for `Vec`. Nothing is claimed
/// of the two halves that come back.
pub assume_specification<T>[ crossbeam::channel::bounded::<T> ](cap: usize) -> (ends: (
    Sender<T>,
    Receiver<T>,
))
    requires
        cap <= usize::MAX / 4,
;

/// `crossbeam::channel::unbounded` makes a channel that holds any number of
/// messages. Nothing is claimed of the two halves that come back.
pub assume_specification<T>[ crossbeam::channel::unbounded::<T> ]() -> (ends: (
    Sender<T>,
    Receiver<T>,
));

/// `Receiver::recv` blocks until a message arrives or the channel is empty
/// and disconnected. What it answers depends on the senders, so nothing is
/// claimed of the answer.
pub assume_specification<T>[ Receiver::<T>::recv ](receiver: &Receiver<T>) -> (answer: Result<
    T,
    RecvError,
>);

} // verus!
