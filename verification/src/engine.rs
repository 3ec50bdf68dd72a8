//! The engine of the bus: the queue, the permits, the id counter and the
//! counters, as one value with one owner. Every call is one step of the
//! state machine of `model`. It never waits and never runs a handler: the
//! one who drives it does both.

use crate::event_bus::Event;
use crate::model::{BusState, Decision, Op, Record};
use crate::steps::{
    lemma_begin, lemma_close, lemma_complete, lemma_initial, lemma_launch, lemma_publish,
    lemma_register,
};
use std::collections::VecDeque;
use vstd::prelude::*;

verus! {

/// Why the bus refused a call.
#[derive(Clone, Copy, Debug, PartialEq, Eq, Structural)]
pub enum BusError {
    /// The queue is closed: the bus is shut down and takes no more events.
    BusClosed,
    /// The bus was asked for with no permit at all.
    ConfigurationError,
}

/// The next thing for the dispatch loop to do.
pub enum Step<T> {
    /// A dispatch was started: `event` left the queue and holds a permit
    /// under `ticket` until `complete(ticket)`.
    Launch { ticket: u64, event: Event<T> },
    /// An event waits, and every permit is out: wait for a dispatch to end.
    AwaitPermit,
    /// The queue is empty and open: wait for an event.
    AwaitEvent,
    /// The queue is empty and closed: the loop is over.
    Exit,
}

/// A permit that is out, and the snapshot its dispatch has taken, if any.
struct Slot {
    ticket: u64,
    snapshot: Option<usize>,
}

/// The state of one bus.
pub struct Engine<T> {
    name: String,
    limit: usize,
    closed: bool,
    subscribers: usize,
    queue: VecDeque<Event<T>>,
    slots: Vec<Slot>,
    published: u64,
    launched: u64,
    handled: u64,
    history: Ghost<Seq<Record<T>>>,
}

impl<T> View for Engine<T> {
    type V = BusState<T>;

    closed spec fn view(&self) -> BusState<T> {
        BusState {
            name: self.name@,
            limit: self.limit as nat,
            closed: self.closed,
            subscribers: self.subscribers as nat,
            history: self.history@,
            launched: self.launched as nat,
            handled: self.handled as nat,
        }
    }
}

impl<T> Engine<T> {
    /// Whether some slot holds `ticket`.
    spec fn holds(&self, ticket: int) -> bool {
        exists|i: int| 0 <= i < self.slots@.len() && (#[trigger] self.slots@[i]).ticket == ticket
    }

    /// The fields agree with the history.
    pub closed spec fn inv(&self) -> bool {
        &&& self.history@.len() == self.published
        &&& self.queue@ == self@.pending()
        &&& self.slots@.len() == self@.running().len()
        &&& forall|i: int|
            0 <= i < self.slots@.len() ==> {
                let slot = #[trigger] self.slots@[i];
                &&& self@.in_flight(slot.ticket as int)
                &&& match slot.snapshot {
                    Some(n) => self.history@[slot.ticket as int].snapshot == Some(n as nat),
                    None => self.history@[slot.ticket as int].snapshot is None,
                }
            }
        &&& forall|i: int, j: int|
            0 <= i < j < self.slots@.len() ==> (#[trigger] self.slots@[i]).ticket < (
            #[trigger] self.slots@[j]).ticket
        &&& forall|k: int| self@.in_flight(k) ==> self.holds(k)
    }

    /// `inv` looks only at the history, the queue, the slots and two counters.
    proof fn lemma_inv_frame(&self, other: &Engine<T>)
        requires
            self.inv(),
            other.history@ == self.history@,
            other.queue@ == self.queue@,
            other.slots@ == self.slots@,
            other.published == self.published,
            other.launched == self.launched,
        ensures
            other.inv(),
            other@.running() == self@.running(),
    {
        assert forall|k: int| other@.in_flight(k) == self@.in_flight(k) by {}
        assert(other@.running() =~= self@.running());
        assert(other@.pending() =~= self@.pending());
        assert forall|k: int| other@.in_flight(k) implies other.holds(k) by {
            assert(self.holds(k));
        }
    }

    /// The engine is in a state that its own calls can reach.
    pub open spec fn wf(&self) -> bool {
        self@.wf() && self.inv()
    }

    /// A bus named `name` with `concurrency_limit` permits, or
    /// `ConfigurationError` when that is zero.
    pub fn new(name: String, concurrency_limit: usize) -> (made: Result<Engine<T>, BusError>)
        ensures
            made is Err <==> concurrency_limit == 0,
            made matches Err(e) ==> e == BusError::ConfigurationError,
            made matches Ok(bus) ==> bus.wf() && bus@ == BusState::<T>::initial(
                name@,
                concurrency_limit as nat,
            ),
    {
        if concurrency_limit == 0 {
            return Err(BusError::ConfigurationError);
        }
        let ghost label = name@;
        let bus = Engine {
            name,
            limit: concurrency_limit,
            closed: false,
            subscribers: 0,
            queue: VecDeque::new(),
            slots: Vec::new(),
            published: 0,
            launched: 0,
            handled: 0,
            history: Ghost(Seq::empty()),
        };
        proof {
            lemma_initial::<T>(label, concurrency_limit as nat);
        }
        Ok(bus)
    }

    /// The label of the bus.
    pub fn name(&self) -> (name: &String)
        ensures
            name@ == self@.name,
    {
        &self.name
    }

    /// How many dispatches may be in flight at once.
    pub fn concurrency_limit(&self) -> (limit: usize)
        ensures
            limit == self@.limit,
    {
        self.limit
    }

    /// Whether the queue is closed.
    pub fn is_closed(&self) -> (closed: bool)
        ensures
            closed == self@.closed,
    {
        self.closed
    }

    /// How many subscribers are registered.
    pub fn subscribers(&self) -> (count: usize)
        ensures
            count == self@.subscribers,
    {
        self.subscribers
    }

    /// The "published" counter: events accepted so far.
    pub fn published(&self) -> (count: u64)
        requires
            self.wf(),
        ensures
            count == self@.published(),
    {
        self.published
    }

    /// Dispatches started so far; the next ticket.
    pub fn launched(&self) -> (count: u64)
        ensures
            count == self@.launched,
    {
        self.launched
    }

    /// The "handled" counter: dispatches finished so far.
    pub fn handled(&self) -> (count: u64)
        ensures
            count == self@.handled,
    {
        self.handled
    }

    /// The "pending" gauge: events accepted and not yet started.
    pub fn pending(&self) -> (count: usize)
        requires
            self.wf(),
        ensures
            count == self@.pending().len(),
            count == self@.published() - self@.launched,
    {
        self.queue.len()
    }

    /// The "handling" gauge: dispatches in flight, each holding one permit.
    pub fn handling(&self) -> (count: usize)
        requires
            self.wf(),
        ensures
            count == self@.handling(),
            count <= self@.limit,
    {
        self.slots.len()
    }

    /// Allocates the next subscriber id.
    pub fn register(&mut self) -> (id: usize)
        requires
            old(self).wf(),
            old(self)@.subscribers < usize::MAX,
        ensures
            final(self).wf(),
            id == old(self)@.subscribers,
            final(self)@ == old(self)@.register(),
    {
        let id = self.subscribers;
        proof {
            lemma_register(self@);
        }
        self.subscribers = id + 1;
        proof {
            old(self).lemma_inv_frame(self);
        }
        id
    }

    /// Puts `event` at the tail of the queue, unless the queue is closed.
    pub fn publish(&mut self, event: Event<T>) -> (sent: Result<(), BusError>)
        requires
            old(self).wf(),
            old(self)@.published() < u64::MAX,
        ensures
            final(self).wf(),
            sent is Err <==> old(self)@.closed,
            sent matches Err(e) ==> e == BusError::BusClosed && final(self)@ == old(self)@,
            sent is Ok ==> final(self)@ == old(self)@.publish(event),
    {
        if self.closed {
            return Err(BusError::BusClosed);
        }
        proof {
            lemma_publish(self@, event);
        }
        let ghost record = Record {
            event,
            registered: self.subscribers as nat,
            snapshot: None,
            done: false,
        };
        self.history = Ghost(self.history@.push(record));
        self.queue.push_back(event);
        self.published = self.published + 1;
        proof {
            let before = old(self)@;
            let after = self@;
            assert(after == before.publish(event));
            assert forall|i: int| 0 <= i < self.slots@.len() implies {
                let slot = #[trigger] self.slots@[i];
                &&& after.in_flight(slot.ticket as int)
                &&& match slot.snapshot {
                    Some(n) => self.history@[slot.ticket as int].snapshot == Some(n as nat),
                    None => self.history@[slot.ticket as int].snapshot is None,
                }
            } by {
                let slot = self.slots@[i];
                assert(before.in_flight(slot.ticket as int));
                assert(after.running().contains(slot.ticket as int));
            }
            assert forall|k: int| after.in_flight(k) implies self.holds(k) by {
                assert(before.running().contains(k));
                assert(old(self).holds(k));
            }
        }
        Ok(())
    }

    /// Closes the queue: every later `publish` fails, and the loop ends once
    /// the queue is drained.
    pub fn close(&mut self)
        requires
            old(self).wf(),
        ensures
            final(self).wf(),
            final(self)@ == old(self)@.close(),
    {
        proof {
            lemma_close(self@);
        }
        self.closed = true;
        proof {
            old(self).lemma_inv_frame(self);
        }
    }

    /// The slot that holds `ticket`, if one does.
    fn find(&self, ticket: u64) -> (found: Option<usize>)
        ensures
            found matches Some(i) ==> i < self.slots@.len() && self.slots@[i as int].ticket
                == ticket,
            found is None ==> !self.holds(ticket as int),
    {
        let mut i: usize = 0;
        while i < self.slots.len()
            invariant
                i <= self.slots@.len(),
                forall|j: int| 0 <= j < i ==> (#[trigger] self.slots@[j]).ticket != ticket,
            decreases self.slots@.len() - i,
        {
            if self.slots[i].ticket == ticket {
                return Some(i);
            }
            i = i + 1;
        }
        None
    }

    /// The decision of the dispatch loop, taken at once where it is a launch:
    /// the oldest queued event leaves the queue with a permit and a ticket.
    /// In every other case nothing changes.
    pub fn poll(&mut self) -> (step: Step<T>)
        requires
            old(self).wf(),
        ensures
            final(self).wf(),
            match old(self)@.decision() {
                Decision::Launch => {
                    &&& step matches Step::Launch { ticket, event }
                    &&& ticket == old(self)@.launched
                    &&& event == old(self)@.pending()[0]
                    &&& final(self)@ == old(self)@.launch()
                },
                Decision::AwaitPermit => step is AwaitPermit && final(self)@ == old(self)@,
                Decision::AwaitEvent => step is AwaitEvent && final(self)@ == old(self)@,
                Decision::Exit => step is Exit && final(self)@ == old(self)@,
            },
    {
        if self.queue.len() == 0 {
            return if self.closed {
                Step::Exit
            } else {
                Step::AwaitEvent
            };
        }
        if self.slots.len() >= self.limit {
            return Step::AwaitPermit;
        }
        proof {
            lemma_launch(self@);
        }
        let ticket = self.launched;
        let event = self.queue.pop_front().unwrap();
        self.launched = ticket + 1;
        self.slots.push(Slot { ticket, snapshot: None });
        proof {
            let before = old(self)@;
            let after = self@;
            assert(after == before.launch());
            let last = self.slots@.len() - 1;
            assert forall|i: int| 0 <= i < self.slots@.len() implies {
                let slot = #[trigger] self.slots@[i];
                &&& after.in_flight(slot.ticket as int)
                &&& match slot.snapshot {
                    Some(n) => self.history@[slot.ticket as int].snapshot == Some(n as nat),
                    None => self.history@[slot.ticket as int].snapshot is None,
                }
            } by {
                if i < last {
                    assert(self.slots@[i] == old(self).slots@[i]);
                    assert(before.in_flight(old(self).slots@[i].ticket as int));
                }
            }
            assert forall|i: int, j: int| 0 <= i < j < self.slots@.len() implies (
            #[trigger] self.slots@[i]).ticket < (#[trigger] self.slots@[j]).ticket by {
                assert(self.slots@[i] == old(self).slots@[i]);
                assert(before.in_flight(old(self).slots@[i].ticket as int));
                if j < last {
                    assert(self.slots@[j] == old(self).slots@[j]);
                }
            }
            assert forall|k: int| after.in_flight(k) implies self.holds(k) by {
                if k == ticket {
                    assert(self.slots@[last].ticket == k);
                } else {
                    assert(before.in_flight(k));
                    assert(old(self).holds(k));
                    let i = choose|i: int|
                        0 <= i < old(self).slots@.len() && (#[trigger] old(self).slots@[i]).ticket
                            == k;
                    assert(self.slots@[i] == old(self).slots@[i]);
                }
            }
        }
        Step::Launch { ticket, event }
    }

    /// The dispatch of `ticket` begins to iterate: it is given the size of
    /// the registry as it is now, once. The subscribers with an id below the
    /// result are its snapshot. `None`, and nothing changes, when `ticket`
    /// holds no permit or has its snapshot already.
    pub fn begin(&mut self, ticket: u64) -> (snapshot: Option<usize>)
        requires
            old(self).wf(),
        ensures
            final(self).wf(),
            snapshot is Some <==> old(self)@.enabled(Op::Begin(ticket as int)),
            snapshot matches Some(n) ==> n == old(self)@.subscribers && final(self)@ == old(
                self,
            )@.begin(ticket as int),
            snapshot is None ==> final(self)@ == old(self)@,
    {
        let at = match self.find(ticket) {
            Some(at) => at,
            None => {
                return None;
            },
        };
        if self.slots[at].snapshot.is_some() {
            return None;
        }
        proof {
            lemma_begin(self@, ticket as int);
        }
        let size = self.subscribers;
        self.slots.set(at, Slot { ticket, snapshot: Some(size) });
        let ghost record = Record { snapshot: Some(size as nat), ..self.history@[ticket as int] };
        self.history = Ghost(self.history@.update(ticket as int, record));
        proof {
            let before = old(self)@;
            let after = self@;
            assert(after == before.begin(ticket as int));
            assert forall|i: int| 0 <= i < self.slots@.len() implies {
                let slot = #[trigger] self.slots@[i];
                &&& after.in_flight(slot.ticket as int)
                &&& match slot.snapshot {
                    Some(n) => self.history@[slot.ticket as int].snapshot == Some(n as nat),
                    None => self.history@[slot.ticket as int].snapshot is None,
                }
            } by {
                let was = old(self).slots@[i];
                assert(before.in_flight(was.ticket as int));
                assert(after.running().contains(was.ticket as int));
                if i != at {
                    assert(self.slots@[i] == was);
                    if i < at {
                        assert(was.ticket < old(self).slots@[at as int].ticket);
                    } else {
                        assert(old(self).slots@[at as int].ticket < was.ticket);
                    }
                }
            }
            assert forall|i: int, j: int| 0 <= i < j < self.slots@.len() implies (
            #[trigger] self.slots@[i]).ticket < (#[trigger] self.slots@[j]).ticket by {
                assert(self.slots@[i].ticket == old(self).slots@[i].ticket);
                assert(self.slots@[j].ticket == old(self).slots@[j].ticket);
            }
            assert forall|k: int| after.in_flight(k) implies self.holds(k) by {
                assert(before.running().contains(k));
                assert(old(self).holds(k));
                let i = choose|i: int|
                    0 <= i < old(self).slots@.len() && (#[trigger] old(self).slots@[i]).ticket
                        == k;
                assert(self.slots@[i].ticket == old(self).slots@[i].ticket);
            }
        }
        Some(size)
    }

    /// The dispatch of `ticket` is over, however it ended: its permit goes
    /// back and "handled" goes up by one. `false`, and nothing changes, when
    /// `ticket` holds no permit, so that no permit is given back twice.
    pub fn complete(&mut self, ticket: u64) -> (released: bool)
        requires
            old(self).wf(),
        ensures
            final(self).wf(),
            released <==> old(self)@.in_flight(ticket as int),
            released ==> final(self)@ == old(self)@.complete(ticket as int),
            !released ==> final(self)@ == old(self)@,
    {
        let at = match self.find(ticket) {
            Some(at) => at,
            None => {
                return false;
            },
        };
        proof {
            lemma_complete(self@, ticket as int);
        }
        self.slots.remove(at);
        self.handled = self.handled + 1;
        let ghost record = Record { done: true, ..self.history@[ticket as int] };
        self.history = Ghost(self.history@.update(ticket as int, record));
        proof {
            let before = old(self)@;
            let after = self@;
            assert(after == before.complete(ticket as int));
            assert forall|i: int| 0 <= i < self.slots@.len() implies {
                let slot = #[trigger] self.slots@[i];
                &&& after.in_flight(slot.ticket as int)
                &&& match slot.snapshot {
                    Some(n) => self.history@[slot.ticket as int].snapshot == Some(n as nat),
                    None => self.history@[slot.ticket as int].snapshot is None,
                }
            } by {
                let from = if i < at { i } else { i + 1 };
                let was = old(self).slots@[from];
                assert(self.slots@[i] == was);
                assert(before.in_flight(was.ticket as int));
                if from < at {
                    assert(was.ticket < old(self).slots@[at as int].ticket);
                } else {
                    assert(old(self).slots@[at as int].ticket < was.ticket);
                }
                assert(after.running().contains(was.ticket as int));
            }
            assert forall|i: int, j: int| 0 <= i < j < self.slots@.len() implies (
            #[trigger] self.slots@[i]).ticket < (#[trigger] self.slots@[j]).ticket by {
                let from_i = if i < at { i } else { i + 1 };
                let from_j = if j < at { j } else { j + 1 };
                assert(self.slots@[i] == old(self).slots@[from_i]);
                assert(self.slots@[j] == old(self).slots@[from_j]);
            }
            assert forall|k: int| after.in_flight(k) implies self.holds(k) by {
                assert(after.running().contains(k));
                assert(before.in_flight(k) && k != ticket);
                assert(old(self).holds(k));
                let i = choose|i: int|
                    0 <= i < old(self).slots@.len() && (#[trigger] old(self).slots@[i]).ticket
                        == k;
                let to = if i < at { i } else { i - 1 };
                assert(self.slots@[to] == old(self).slots@[i]);
            }
        }
        true
    }
}

} // verus!
