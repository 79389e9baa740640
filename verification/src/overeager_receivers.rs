//! Streams as overeager receivers of messages: one message is always held
//! ready, so reading never waits on the channel.

use crossbeam::channel::{bounded, unbounded, Receiver, RecvError, Sender};
use vstd::prelude::*;

verus! {

/// The most messages that a channel made for capacity `cap` holds at a time:
/// `cap` itself where it is positive, and no limit at all for `0`.
pub fn queue_limit(cap: usize) -> (limit: Option<usize>)
    ensures
        limit == (if cap > 0 {
            Some(cap)
        } else {
            None::<usize>
        }),
{
    if cap > 0 {
        Some(cap)
    } else {
        None
    }
}

/// A stream backed by a channel which always buffers one message.
#[verifier::reject_recursive_types(X)]
pub struct OvereagerReceiver<X> {
    /// overeagerly received message
    message: X,
    /// receiver of messages
    receiver: Receiver<X>,
}

impl<X> View for OvereagerReceiver<X> {
    type V = X;

    /// A stream state is seen as the message it holds ready: what `head`
    /// reads. There is always exactly one.
    closed spec fn view(&self) -> X {
        self.message
    }
}

impl<X> OvereagerReceiver<X> {
    /// The receiving half of the channel that feeds this stream.
    pub closed spec fn source(self) -> Receiver<X> {
        self.receiver
    }

    /// The state that follows `self` once `message` has been received: the
    /// buffer holds `message`, the channel is the same.
    pub closed spec fn advanced(self, message: X) -> Self {
        OvereagerReceiver { message, receiver: self.receiver }
    }

    /// The state reached from `self` after the channel has delivered
    /// `deliveries`, first to last, one to each advance.
    pub open spec fn after(self, deliveries: Seq<X>) -> Self
        decreases deliveries.len(),
    {
        if deliveries.len() == 0 {
            self
        } else {
            self.after(deliveries.drop_last()).advanced(deliveries.last())
        }
    }

    /// Create a channel with an overeager receiver instead of a normal one.
    /// - `cap` is the number of messages the channel can hold where `0` means
    ///   it can hold any number of messages.
    /// - `message` is an initial placeholder for what the overeager receiver
    ///   overeagerly receives.
    ///
    /// Whatever `cap` is, the stream that comes back has `message` as its
    /// head. The bound on `cap` is the largest capacity for which the
    /// channel's index arithmetic does not overflow.
    pub fn channel(cap: usize, message: X) -> (made: (Sender<X>, Self))
        requires
            cap <= usize::MAX / 4,
        ensures
            made.1@ == message,
    {
        let (tx, receiver) = match queue_limit(cap) {
            Some(limit) => bounded(limit),
            None => unbounded(),
        };
        (tx, OvereagerReceiver { message, receiver })
    }

    /// Make the message buffer of `self` the head.
    ///
    /// The head is read from the state alone: the channel is not consulted,
    /// the call cannot fail, and as long as the state is not advanced every
    /// read gives the same message.
    pub fn head(&self) -> (current: &X)
        ensures
            *current == self@,
        no_unwind
    {
        &self.message
    }

    /// Replace the buffered message by `message`, which the channel has just
    /// delivered. The channel itself is kept.
    pub fn accept(self, message: X) -> (next: Self)
        ensures
            next == self.advanced(message),
    {
        OvereagerReceiver { message, receiver: self.receiver }
    }

    /// Decide what follows `self` from what the channel answered. A message
    /// that was delivered becomes the buffered one and the channel is kept.
    /// The channel's error means that it is empty and every sender is gone:
    /// then no state follows, and `self` is given up.
    pub fn settle(self, answer: Result<X, RecvError>) -> (next: Option<Self>)
        ensures
            match answer {
                Ok(message) => next == Some(self.advanced(message)),
                Err(_) => next is None,
            },
    {
        match answer {
            Ok(message) => Some(self.accept(message)),
            Err(_) => None,
        }
    }

    /// Blocks the current thread until the channel answers, and makes `self`
    /// with the message that was delivered in its buffer the tail.
    ///
    /// If the channel is empty and every sender is gone there is no next
    /// message and no tail: the result is `None`, and a consumer that relies
    /// on an endless stream has to stop there. Which message arrives is up to
    /// the senders, so all that is known of a state that comes back is that
    /// it is `self` advanced by the message it now holds.
    pub fn tail(self) -> (next: Option<Self>)
        ensures
            next matches Some(state) ==> state == self.advanced(state@),
    {
        let answer = self.receiver.recv();
        self.settle(answer)
    }

    /// Advancing replaces the buffered message and nothing else.
    pub proof fn lemma_advanced(state: Self, message: X)
        ensures
            state.advanced(message)@ == message,
            state.advanced(message).source() == state.source(),
    {
    }

    /// Order is kept. When the channel delivers `deliveries` first to last,
    /// the message read after `n` advances is the one delivered as number
    /// `n`: no message is skipped, repeated or moved. The message that was
    /// buffered before the first advance is never read again, and the stream
    /// reads from the same channel throughout.
    pub proof fn lemma_order_preserved(state: Self, deliveries: Seq<X>)
        ensures
            forall|n: int|
                1 <= n <= deliveries.len() ==> #[trigger] state.after(deliveries.take(n))@
                    == deliveries[n - 1],
            deliveries.len() > 0 ==> state.after(deliveries)@ == deliveries.last(),
            deliveries.len() == 0 ==> state.after(deliveries) == state,
            state.after(deliveries).source() == state.source(),
        decreases deliveries.len(),
    {
        if deliveries.len() > 0 {
            Self::lemma_order_preserved(state, deliveries.drop_last());
        }
        assert forall|n: int| 1 <= n <= deliveries.len() implies #[trigger] state.after(
            deliveries.take(n),
        )@ == deliveries[n - 1] by {
            assert(deliveries.take(n).last() == deliveries[n - 1]);
        }
    }
}

} // verus!
