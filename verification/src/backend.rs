//! Handing the queued intents to the backend over a channel.
//!
//! The channel is that of async-std. An intent is offered without waiting:
//! the channel takes it, or it gives it back because it is full or because
//! the backend has gone. What the channel gives back goes to the front of
//! the queue again, so nothing is lost and nothing changes its place.
use crate::action::{Action, ActionQueue, ActionView};
use async_std::channel::{Sender, TrySendError};
use vstd::prelude::*;

verus! {

/// The sending half of async-std's channel. Nothing is known of what it
/// holds: the backend takes from it at any time.
#[verifier::external_type_specification]
#[verifier::external_body]
#[verifier::reject_recursive_types(T)]
pub struct ExSender<T>(Sender<T>);

/// An intent that the channel gave back, with the reason.
#[derive(Debug)]
pub enum Refusal {
    /// The channel has no room now.
    Full(Action),
    /// The channel is closed: the backend has gone.
    Closed(Action),
}

impl Refusal {
    /// The intent that was given back.
    pub open spec fn intent(self) -> ActionView {
        match self {
            Refusal::Full(action) => action@,
            Refusal::Closed(action) => action@,
        }
    }
}

/// How a hand-over ended.
#[derive(Clone, Copy, PartialEq, Eq, Structural, Debug)]
pub enum HandOver {
    /// The channel took everything that waited.
    Done,
    /// The channel had no more room; the rest still waits.
    Full,
    /// The backend has gone; the rest still waits and the queue is closed.
    Closed,
}

/// Offers one intent to the channel without waiting, by `Sender::try_send`
/// of async-std's channel. Whether the channel takes it depends on the
/// backend, so nothing is promised of that. Where the channel does not take
/// it, it gives back the very intent that was offered, and says whether it
/// is full or closed.
#[verifier::external_body]
fn try_send(sender: &Sender<Action>, action: Action) -> (r: Result<(), Refusal>)
    ensures
        r matches Err(refusal) ==> refusal.intent() == action@,
{
    match sender.try_send(action) {
        Ok(()) => Ok(()),
        Err(TrySendError::Full(back)) => Err(Refusal::Full(back)),
        Err(TrySendError::Closed(back)) => Err(Refusal::Closed(back)),
    }
}

/// What the queue holds after the channel has answered for the intent that
/// was taken from its front: after a refusal, that intent in front of
/// `rest` again.
pub open spec fn settled(rest: Seq<ActionView>, answer: Result<(), Refusal>) -> Seq<ActionView> {
    match answer {
        Ok(_) => rest,
        Err(refusal) => seq![refusal.intent()] + rest,
    }
}

/// How a hand-over goes on after an answer of the channel.
pub open spec fn outcome_of(answer: Result<(), Refusal>) -> HandOver {
    match answer {
        Ok(_) => HandOver::Done,
        Err(Refusal::Full(_)) => HandOver::Full,
        Err(Refusal::Closed(_)) => HandOver::Closed,
    }
}

impl ActionQueue {
    /// Takes note of the channel's answer for the intent that was taken from
    /// the front. An intent that was given back waits at the front again. A
    /// closed channel closes the queue.
    pub fn settle(&mut self, answer: Result<(), Refusal>) -> (outcome: HandOver)
        ensures
            outcome == outcome_of(answer),
            final(self)@ == settled(old(self)@, answer),
            final(self).is_closed() == (old(self).is_closed() || outcome == HandOver::Closed),
    {
        match answer {
            Ok(_) => {
                assert(self@ =~= settled(old(self)@, answer));
                HandOver::Done
            },
            Err(Refusal::Full(action)) => {
                self.put_back(action);
                HandOver::Full
            },
            Err(Refusal::Closed(action)) => {
                self.put_back(action);
                self.close();
                HandOver::Closed
            },
        }
    }

    /// Hands the waiting intents to the channel, the oldest first, until
    /// none is left or the channel gives one back. Says how many the channel
    /// took. The others still wait in their order.
    pub fn forward(&mut self, sender: &Sender<Action>) -> (r: (usize, HandOver))
        ensures
            r.0 <= old(self)@.len(),
            final(self)@ == old(self)@.skip(r.0 as int),
            r.1 == HandOver::Done <==> r.0 == old(self)@.len(),
            final(self).is_closed() == (old(self).is_closed() || r.1 == HandOver::Closed),
    {
        let ghost all = self@;
        let total = self.len();
        let mut sent: usize = 0;
        assert(all.skip(0) =~= all);
        loop
            invariant
                all == old(self)@,
                all.len() == total,
                sent <= all.len(),
                self@ == all.skip(sent as int),
                self.is_closed() == old(self).is_closed(),
            decreases all.len() - sent,
        {
            let ghost rest = self@;
            match self.dequeue() {
                None => {
                    return (sent, HandOver::Done);
                },
                Some(action) => {
                    let answer = try_send(sender, action);
                    let outcome = self.settle(answer);
                    match outcome {
                        HandOver::Done => {
                            assert(self@ =~= all.skip(sent + 1));
                            sent = sent + 1;
                        },
                        _ => {
                            assert(self@ =~= all.skip(sent as int));
                            return (sent, outcome);
                        },
                    }
                },
            }
        }
    }
}

} // verus!
