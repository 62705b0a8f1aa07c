//! Intents for the backend and the queue that carries them.
//!
//! The queue is first in, first out: the backend takes intents in the order
//! in which the writers put them, each of them once. It has no bound, so a
//! writer never waits for room. Once closed it accepts nothing more, but
//! what it still holds can be taken.
use crate::error::{ErrorView, NetworkStateError};
use crate::model::{Connection, ConnectionView};
use crate::types::DeviceType;
use vstd::prelude::*;

verus! {

/// A change that the backend is asked to make.
#[derive(Debug)]
pub enum Action {
    /// Add a connection of the given id and type.
    AddConnection(String, DeviceType),
    /// Remove the connection of the given id.
    RemoveConnection(String),
    /// Take over the connection as it stands in this snapshot.
    UpdateConnection(Connection),
    /// Apply the configuration.
    Apply,
}

/// An intent as a mathematical value.
pub enum ActionView {
    AddConnection(Seq<char>, DeviceType),
    RemoveConnection(Seq<char>),
    UpdateConnection(ConnectionView),
    Apply,
}

impl View for Action {
    type V = ActionView;

    open spec fn view(&self) -> ActionView {
        match self {
            Action::AddConnection(id, t) => ActionView::AddConnection(id@, *t),
            Action::RemoveConnection(id) => ActionView::RemoveConnection(id@),
            Action::UpdateConnection(c) => ActionView::UpdateConnection(c@),
            Action::Apply => ActionView::Apply,
        }
    }
}

impl Clone for Action {
    fn clone(&self) -> (r: Self)
        ensures
            r@ == self@,
    {
        match self {
            Action::AddConnection(id, t) => Action::AddConnection(id.clone(), *t),
            Action::RemoveConnection(id) => Action::RemoveConnection(id.clone()),
            Action::UpdateConnection(c) => Action::UpdateConnection(c.clone()),
            Action::Apply => Action::Apply,
        }
    }
}

/// The views of a list of intents, one for one.
pub open spec fn action_views(items: Seq<Action>) -> Seq<ActionView> {
    Seq::new(items.len(), |i: int| items[i]@)
}

/// The queue of intents between the writers and the backend.
#[derive(Debug)]
pub struct ActionQueue {
    pending: Vec<Action>,
    closed: bool,
}

impl View for ActionQueue {
    type V = Seq<ActionView>;

    /// The intents that wait for the backend, the oldest first.
    closed spec fn view(&self) -> Seq<ActionView> {
        action_views(self.pending@)
    }
}

impl ActionQueue {
    /// Whether the queue has been closed.
    pub closed spec fn is_closed(&self) -> bool {
        self.closed
    }

    /// An open queue that holds nothing.
    pub fn new() -> (q: Self)
        ensures
            q@ == Seq::<ActionView>::empty(),
            !q.is_closed(),
    {
        let q = ActionQueue { pending: Vec::new(), closed: false };
        assert(q@ =~= Seq::<ActionView>::empty());
        q
    }

    /// How many intents wait.
    pub fn len(&self) -> (n: usize)
        ensures
            n == self@.len(),
    {
        self.pending.len()
    }

    /// Whether no intent waits.
    pub fn is_empty(&self) -> (b: bool)
        ensures
            b == (self@.len() == 0),
    {
        self.pending.len() == 0
    }

    /// Whether the queue has been closed.
    pub fn closed(&self) -> (b: bool)
        ensures
            b == self.is_closed(),
    {
        self.closed
    }

    /// Closes the queue. What waits in it stays.
    pub fn close(&mut self)
        ensures
            final(self).is_closed(),
            final(self)@ == old(self)@,
    {
        self.closed = true;
    }

    /// Puts an intent behind all that wait. A closed queue takes nothing and
    /// reports that the backend is unavailable.
    pub fn enqueue(&mut self, action: Action) -> (r: Result<(), NetworkStateError>)
        ensures
            final(self).is_closed() == old(self).is_closed(),
            match r {
                Ok(_) => !old(self).is_closed() && final(self)@ == old(self)@.push(action@),
                Err(e) => old(self).is_closed() && e@ == ErrorView::BackendUnavailable
                    && final(self)@ == old(self)@,
            },
    {
        if self.closed {
            return Err(NetworkStateError::BackendUnavailable);
        }
        self.pending.push(action);
        assert(self@ =~= old(self)@.push(action@));
        Ok(())
    }

    /// Takes the intent that has waited longest.
    pub fn dequeue(&mut self) -> (r: Option<Action>)
        ensures
            final(self).is_closed() == old(self).is_closed(),
            match r {
                Some(action) => old(self)@.len() > 0 && action@ == old(self)@[0] && final(self)@
                    == old(self)@.drop_first(),
                None => old(self)@.len() == 0 && final(self)@ == old(self)@,
            },
    {
        if self.pending.len() == 0 {
            return None;
        }
        let action = self.pending.remove(0);
        assert(self@ =~= old(self)@.drop_first());
        Some(action)
    }

    /// Puts an intent in front of all that wait: the place of an intent that
    /// was taken out and could not be delivered.
    pub fn put_back(&mut self, action: Action)
        ensures
            final(self).is_closed() == old(self).is_closed(),
            final(self)@ == seq![action@] + old(self)@,
    {
        self.pending.insert(0, action);
        assert(self@ =~= seq![action@] + old(self)@);
    }

    /// Takes everything that waits, the oldest intent first.
    pub fn drain(&mut self) -> (taken: Vec<Action>)
        ensures
            final(self).is_closed() == old(self).is_closed(),
            action_views(taken@) == old(self)@,
            final(self)@ == Seq::<ActionView>::empty(),
    {
        let mut taken: Vec<Action> = Vec::new();
        let ghost all = self@;
        assert(action_views(taken@) =~= Seq::<ActionView>::empty());
        while self.pending.len() > 0
            invariant
                self.closed == old(self).closed,
                action_views(taken@) + self@ == all,
            decreases self.pending.len(),
        {
            let ghost done = action_views(taken@);
            let ghost rest = self@;
            let action = self.pending.remove(0);
            taken.push(action);
            proof {
                assert(self@ =~= rest.drop_first());
                assert(action_views(taken@) =~= done.push(rest[0]));
                assert(action_views(taken@) + self@ =~= done + rest);
            }
        }
        assert(self@ =~= Seq::<ActionView>::empty());
        assert(action_views(taken@) =~= action_views(taken@) + self@);
        taken
    }
}

/// What queueing one intent does. An open queue takes it behind all that
/// wait; a closed queue takes nothing and the backend is reported
/// unavailable.
pub open spec fn queued(
    intent: ActionView,
    before: &ActionQueue,
    after: &ActionQueue,
    r: Result<(), NetworkStateError>,
) -> bool {
    &&& after.is_closed() == before.is_closed()
    &&& if before.is_closed() {
        &&& r matches Err(e)
        &&& e@ == ErrorView::BackendUnavailable
        &&& after@ == before@
    } else {
        &&& r is Ok
        &&& after@ == before@.push(intent)
    }
}

/// Intents reach the backend in the order in which they were queued: of two
/// intents queued one after the other, both wait behind everything that
/// waited before, and the first of them before the second.
pub proof fn lemma_queue_keeps_order(
    a: ActionView,
    b: ActionView,
    q0: &ActionQueue,
    q1: &ActionQueue,
    q2: &ActionQueue,
    r1: Result<(), NetworkStateError>,
    r2: Result<(), NetworkStateError>,
)
    requires
        !q0.is_closed(),
        queued(a, q0, q1, r1),
        queued(b, q1, q2, r2),
    ensures
        r1 is Ok && r2 is Ok,
        q2@ == q0@ + seq![a, b],
        q2@.len() == q0@.len() + 2,
        forall|i: int| 0 <= i < q0@.len() ==> q2@[i] == q0@[i],
        q2@[q0@.len() as int] == a,
        q2@[q0@.len() as int + 1] == b,
{
    assert(q2@ =~= q0@ + seq![a, b]);
}

/// A closed queue stays as it is: it refuses every intent, and what waits
/// in it is neither lost nor reordered.
pub proof fn lemma_closed_queue_refuses(
    a: ActionView,
    q0: &ActionQueue,
    q1: &ActionQueue,
    r: Result<(), NetworkStateError>,
)
    requires
        q0.is_closed(),
        queued(a, q0, q1, r),
    ensures
        r matches Err(e) && e@.kind() == crate::error::ErrorKind::BackendUnavailable,
        q1@ == q0@,
        q1.is_closed(),
{
}

} // verus!
