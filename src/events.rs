//! Double-buffered event queues.
use vstd::prelude::*;

verus! {

/// Number of an event: how many events of its queue came before it.
#[derive(Clone, Copy, Debug, PartialEq, Eq, Structural)]
pub struct EventId(pub usize);

/// An event with its number.
pub struct Event<E> {
    pub event_id: EventId,
    pub event: E,
}

/// Which of the two buffers receives new events.
#[derive(Clone, Copy, Debug, PartialEq, Eq, Structural)]
pub enum State {
    A,
    B,
}

impl State {
    /// Makes the other buffer receive new events.
    pub fn swap(&mut self)
        ensures
            *final(self) == (if *old(self) == State::A {
                State::B
            } else {
                State::A
            }),
    {
        *self = match self {
            State::A => State::B,
            State::B => State::A,
        }
    }
}

/// Events of type `E`, kept in two buffers.
pub struct Events<E> {
    pub events_a: Vec<Event<E>>,
    pub events_b: Vec<Event<E>>,
    pub a_start_event_count: usize,
    pub b_start_event_count: usize,
    /// Number of events sent so far.
    pub event_count: usize,
    pub state: State,
}

impl<E> Default for Events<E> {
    fn default() -> (e: Events<E>)
        ensures
            e.events_a@.len() == 0,
            e.events_b@.len() == 0,
            e.a_start_event_count == 0,
            e.b_start_event_count == 0,
            e.event_count == 0,
            e.state == State::A,
    {
        Events {
            events_a: Vec::new(),
            events_b: Vec::new(),
            a_start_event_count: 0,
            b_start_event_count: 0,
            event_count: 0,
            state: State::A,
        }
    }
}

impl<E> Events<E> {
    /// Appends `event`, numbered with the count of events sent before it, to
    /// the buffer that receives new events.
    pub fn send(&mut self, event: E)
        requires
            old(self).event_count < usize::MAX,
        ensures
            final(self).event_count == old(self).event_count + 1,
            final(self).state == old(self).state,
            final(self).a_start_event_count == old(self).a_start_event_count,
            final(self).b_start_event_count == old(self).b_start_event_count,
            old(self).state == State::A ==> final(self).events_a@ == old(self).events_a@.push(
                Event { event_id: EventId(old(self).event_count as usize), event },
            ) && final(self).events_b@ == old(self).events_b@,
            old(self).state == State::B ==> final(self).events_b@ == old(self).events_b@.push(
                Event { event_id: EventId(old(self).event_count as usize), event },
            ) && final(self).events_a@ == old(self).events_a@,
    {
        let event_instance = Event { event_id: EventId(self.event_count), event };
        match self.state {
            State::A => self.events_a.push(event_instance),
            State::B => self.events_b.push(event_instance),
        }
        self.event_count = self.event_count + 1;
    }
}

} // verus!
