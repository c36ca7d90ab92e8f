//! The event bridge: a fixed-capacity queue of decoded key presses, filled
//! by the interrupt side and drained by task-side readers. Neither side
//! ever blocks: a push to a full bridge drops the event and reports
//! failure, a pop from an empty bridge reports nothing.

use vstd::prelude::*;

verus! {

broadcast use {vstd::std_specs::vec::group_vec_axioms, vstd::seq::group_seq_axioms};

/// A decoded key press: a printable or control character, or a named
/// non-printable key.
#[derive(Debug, Clone, Copy, PartialEq, Eq, Structural)]
pub enum Key {
    Char(char),
    Backspace,
    Escape,
}

/// What a push does to the queue: append when there is room, else leave it
/// exactly as it was and report failure.
pub open spec fn spec_push(q: Seq<Key>, cap: nat, e: Key) -> (Seq<Key>, bool) {
    if q.len() < cap {
        (q.push(e), true)
    } else {
        (q, false)
    }
}

/// What a pop does to the queue: take the head when there is one.
pub open spec fn spec_pop(q: Seq<Key>) -> (Seq<Key>, Option<Key>) {
    if q.len() == 0 {
        (q, None)
    } else {
        (q.drop_first(), Some(q.first()))
    }
}

/// The bridge: oldest event first, capacity fixed at construction.
pub struct EventBridge {
    pub items: Vec<Key>,
    pub capacity: usize,
}

impl EventBridge {
    /// The queued events, oldest first.
    pub open spec fn view(self) -> Seq<Key> {
        self.items@
    }

    /// The fixed capacity.
    pub open spec fn cap(self) -> nat {
        self.capacity as nat
    }

    /// Invariant: never more events than the capacity.
    pub open spec fn wf(self) -> bool {
        self.items@.len() <= self.capacity
    }

    /// An empty bridge of the given capacity.
    pub fn new(capacity: usize) -> (r: EventBridge)
        ensures
            r.wf(),
            r.view() == Seq::<Key>::empty(),
            r.cap() == capacity,
    {
        let r = EventBridge { items: Vec::new(), capacity };
        proof {
            assert(r.view() =~= Seq::<Key>::empty());
        }
        r
    }

    /// How many events are queued.
    pub fn len(&self) -> (r: usize)
        ensures
            r == self.view().len(),
    {
        self.items.len()
    }

    /// Appends `e` at the tail if there is room and reports success;
    /// against a full bridge it reports failure and the queued events and
    /// their order are exactly as before.
    pub fn push(&mut self, e: Key) -> (r: bool)
        requires
            old(self).wf(),
        ensures
            final(self).wf(),
            final(self).cap() == old(self).cap(),
            (final(self).view(), r) == spec_push(old(self).view(), old(self).cap(), e),
    {
        if self.items.len() < self.capacity {
            self.items.push(e);
            true
        } else {
            false
        }
    }

    /// Removes and returns the oldest event, or nothing when the bridge is
    /// empty.
    pub fn pop(&mut self) -> (r: Option<Key>)
        requires
            old(self).wf(),
        ensures
            final(self).wf(),
            final(self).cap() == old(self).cap(),
            (final(self).view(), r) == spec_pop(old(self).view()),
    {
        if self.items.len() == 0 {
            None
        } else {
            let e = self.items.remove(0);
            proof {
                assert(self.items@ =~= old(self).items@.drop_first());
            }
            Some(e)
        }
    }
}

/// The queue after pushing each of `evs`, in order.
pub open spec fn push_seq(q: Seq<Key>, cap: nat, evs: Seq<Key>) -> Seq<Key>
    decreases evs.len(),
{
    if evs.len() == 0 {
        q
    } else {
        push_seq(spec_push(q, cap, evs.first()).0, cap, evs.drop_first())
    }
}

/// Pushing a batch that fits appends it whole.
pub proof fn lemma_push_seq(q: Seq<Key>, cap: nat, evs: Seq<Key>)
    requires
        q.len() + evs.len() <= cap,
    ensures
        push_seq(q, cap, evs) == q + evs,
    decreases evs.len(),
{
    if evs.len() == 0 {
        assert(q + evs =~= q);
    } else {
        lemma_push_seq(q.push(evs.first()), cap, evs.drop_first());
        assert(q.push(evs.first()) + evs.drop_first() =~= q + evs);
    }
}

/// Law: for any sequence of pushes that does not exceed the capacity of an
/// empty bridge, the pops yield the events in exactly the order pushed —
/// the k-th pop returns the k-th event pushed and leaves the rest queued.
pub proof fn lemma_fifo_order(evs: Seq<Key>, cap: nat)
    requires
        evs.len() <= cap,
    ensures
        push_seq(Seq::<Key>::empty(), cap, evs) == evs,
        forall|k: int|
            0 <= k < evs.len() ==> spec_pop(evs.skip(k)) == (evs.skip(k + 1), Some(evs[k])),
{
    lemma_push_seq(Seq::<Key>::empty(), cap, evs);
    assert(Seq::<Key>::empty() + evs =~= evs);
    assert forall|k: int| 0 <= k < evs.len() implies spec_pop(evs.skip(k)) == (
        evs.skip(k + 1),
        Some(evs[k]),
    ) by {
        assert(evs.skip(k).len() == evs.len() - k);
        assert(evs.skip(k).first() == evs[k]);
        assert(evs.skip(k).drop_first() =~= evs.skip(k + 1));
    }
}

} // verus!
