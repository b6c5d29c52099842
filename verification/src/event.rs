//! Events delivered from the session's concurrent context to the single
//! polling consumer, and the lossless FIFO queue that carries them.
use vstd::prelude::*;

verus! {

/// One unit of information handed to the consumer. Ordering is FIFO per
/// session and no event is dropped while the queue is held.
#[derive(Debug, PartialEq, Eq)]
pub enum Event {
    /// The transport opened.
    Connected,
    /// The session closed in an orderly way; authoritative stop confirmation.
    Disconnected,
    /// One decoded message record: its command tag and its payload text.
    Inbound { command: String, payload: String },
    /// A transport or stream-level failure; the session is closed.
    Failure { message: String },
    /// A diagnostic note; nothing about the session changed.
    Trace { message: String },
}

/// Ordered, unbounded queue of events with a single consumer; the
/// abstract value is the sequence of queued events, oldest first.
pub struct EventQueue {
    items: Vec<Event>,
}

impl View for EventQueue {
    type V = Seq<Event>;

    closed spec fn view(&self) -> Seq<Event> {
        self.items@
    }
}

impl EventQueue {
    /// An empty queue.
    pub fn new() -> (q: EventQueue)
        ensures
            q@ == Seq::<Event>::empty(),
    {
        EventQueue { items: Vec::new() }
    }

    /// How many events are queued.
    pub fn len(&self) -> (n: usize)
        ensures
            n == self@.len(),
    {
        self.items.len()
    }

    /// Appends one event at the back; nothing already queued moves.
    pub fn push(&mut self, e: Event)
        ensures
            final(self)@ == old(self)@.push(e),
    {
        self.items.push(e);
    }

    /// Moves every event of `events` to the back, preserving their order.
    pub fn push_all(&mut self, events: Vec<Event>)
        ensures
            final(self)@ == old(self)@ + events@,
    {
        let mut rest = events;
        let ghost moved = rest@;
        let ghost mut done: int = 0;
        proof {
            assert(self@ + moved.subrange(0, done) =~= old(self)@);
        }
        while rest.len() > 0
            invariant
                0 <= done,
                done + rest@.len() == moved.len(),
                rest@ == moved.subrange(done, moved.len() as int),
                self@ == old(self)@ + moved.subrange(0, done),
            decreases rest@.len(),
        {
            let e = rest.remove(0);
            self.items.push(e);
            proof {
                done = done + 1;
                assert(moved.subrange(0, done) =~= moved.subrange(0, done - 1).push(
                    moved[done - 1],
                ));
                assert(self@ =~= old(self)@ + moved.subrange(0, done));
                assert(rest@ =~= moved.subrange(done, moved.len() as int));
            }
        }
        proof {
            assert(moved.subrange(0, moved.len() as int) =~= moved);
        }
    }

    /// Non-blocking poll: removes and returns the oldest event, if any;
    /// everything else keeps its order.
    pub fn poll(&mut self) -> (r: Option<Event>)
        ensures
            match r {
                Option::None => old(self)@.len() == 0 && final(self)@ == old(self)@,
                Option::Some(e) => old(self)@.len() > 0 && e == old(self)@[0] && final(self)@
                    == old(self)@.drop_first(),
            },
    {
        if self.items.len() == 0 {
            None
        } else {
            let e = self.items.remove(0);
            proof {
                assert(self@ =~= old(self)@.drop_first());
            }
            Some(e)
        }
    }
}

} // verus!
