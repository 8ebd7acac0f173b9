use vstd::prelude::*;

use std::collections::VecDeque;

use crate::input::Event;

verus! {

/// A first-in first-out queue of events with room for `N - 1` of them.
pub struct EventQueue<const N: usize> {
    items: VecDeque<Event>,
}

impl<const N: usize> EventQueue<N> {
    /// The events waiting, oldest first.
    pub closed spec fn items(&self) -> Seq<Event> {
        self.items@
    }

    /// The queue never holds more than its capacity.
    pub open spec fn wf(&self) -> bool {
        &&& N > 1
        &&& self.items().len() <= N - 1
    }

    /// An empty queue. A queue needs `N > 1`.
    pub fn new() -> (q: Self)
        requires
            N > 1,
        ensures
            q.wf(),
            q.items() == Seq::<Event>::empty(),
    {
        EventQueue { items: VecDeque::new() }
    }

    /// The number of events the queue can hold.
    pub fn capacity(&self) -> (c: usize)
        requires
            self.wf(),
        ensures
            c == N - 1,
    {
        N - 1
    }

    pub fn len(&self) -> (l: usize)
        ensures
            l == self.items().len(),
    {
        self.items.len()
    }

    pub fn is_empty(&self) -> (b: bool)
        ensures
            b == (self.items().len() == 0),
    {
        self.items.len() == 0
    }

    pub fn is_full(&self) -> (b: bool)
        requires
            self.wf(),
        ensures
            b == (self.items().len() == N - 1),
    {
        self.items.len() == N - 1
    }

    /// Appends `event` at the back; hands it back when the queue is full.
    pub fn enqueue(&mut self, event: Event) -> (r: Result<(), Event>)
        requires
            old(self).wf(),
        ensures
            final(self).wf(),
            r is Ok <==> old(self).items().len() < N - 1,
            r is Ok ==> final(self).items() == old(self).items().push(event),
            r matches Err(e) ==> e == event && final(self).items() == old(self).items(),
    {
        if self.items.len() == N - 1 {
            Err(event)
        } else {
            self.items.push_back(event);
            Ok(())
        }
    }

    /// Removes and returns the oldest event, if any.
    pub fn dequeue(&mut self) -> (r: Option<Event>)
        requires
            old(self).wf(),
        ensures
            final(self).wf(),
            r is None <==> old(self).items().len() == 0,
            r is None ==> final(self).items() == old(self).items(),
            r matches Some(e) ==> e == old(self).items()[0]
                && final(self).items() == old(self).items().drop_first(),
    {
        self.items.pop_front()
    }
}

} // verus!
