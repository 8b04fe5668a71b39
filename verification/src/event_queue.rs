//! The events that a session has yet to act on, oldest first.

use vstd::prelude::*;
use std::collections::VecDeque;
use crate::event::{Event, EventView};

verus! {

/// The views of a run of events, in order.
pub open spec fn event_views(events: Seq<Event>) -> Seq<EventView> {
    events.map_values(|event: Event| event@)
}

/// A first-in, first-out queue of events.
#[derive(PartialEq, Eq, Debug, Hash)]
pub struct EventQueue(VecDeque<Event>);

impl View for EventQueue {
    type V = Seq<EventView>;

    /// The events that wait, the oldest first.
    closed spec fn view(&self) -> Seq<EventView> {
        event_views(self.0@)
    }
}

impl Clone for EventQueue {
    fn clone(&self) -> (copy: Self)
        ensures
            copy@ == self@,
    {
        let mut events: VecDeque<Event> = VecDeque::new();
        let mut index: usize = 0;
        while index < self.0.len()
            invariant
                index <= self.0.len(),
                event_views(events@) == event_views(self.0@).take(index as int),
            decreases self.0.len() - index,
        {
            let event = self.0[index].clone();
            let ghost before = event_views(events@);
            events.push_back(event);
            assert(event_views(events@) =~= before.push(event@));
            index += 1;
        }
        EventQueue(events)
    }
}

impl EventQueue {
    /// A queue in which nothing waits.
    pub fn new() -> (queue: Self)
        ensures
            queue@ == Seq::<EventView>::empty(),
    {
        let queue = EventQueue(VecDeque::new());
        queue
    }

    /// Puts an event behind all that wait.
    pub fn enqueue(&mut self, event: Event)
        ensures
            final(self)@ == old(self)@.push(event@),
    {
        self.0.push_back(event);
    }

    /// Takes out the event that has waited longest, if any waits.
    pub fn dequeue(&mut self) -> (event: Option<Event>)
        ensures
            match event {
                Some(taken) => old(self)@.len() > 0 && taken@ == old(self)@[0] && final(self)@
                    == old(self)@.drop_first(),
                None => old(self)@.len() == 0 && final(self)@ == old(self)@,
            },
    {
        let event = self.0.pop_front();
        event
    }

    /// The number of events that wait.
    pub fn len(&self) -> (len: usize)
        ensures
            len == self@.len(),
    {
        self.0.len()
    }
}

} // verus!
