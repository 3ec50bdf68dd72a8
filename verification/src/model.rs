//! The bus as a mathematical state machine.
//!
//! The state is the history of every accepted event, in publish order, with
//! three counters and a flag beside it. The index of an event in the history
//! is its ticket. Everything else (the queue, the set of dispatches in
//! flight, the gauges) is read off the history.

use crate::event_bus::Event;
use vstd::prelude::*;

verus! {

/// What the bus remembers of one accepted event.
pub struct Record<T> {
    /// The event as it was published.
    pub event: Event<T>,
    /// How many subscribers were registered when the event was accepted.
    pub registered: nat,
    /// The size of the registry when the dispatch began to iterate over it;
    /// `None` until then. The subscribers with an id below it are the ones
    /// that receive the event.
    pub snapshot: Option<nat>,
    /// Whether the dispatch is over and its permit has been given back.
    pub done: bool,
}

/// The abstract state of a bus.
pub struct BusState<T> {
    /// Label for metrics and diagnostics.
    pub name: Seq<char>,
    /// How many dispatches may be in flight at once.
    pub limit: nat,
    /// Whether the queue has been closed for producers.
    pub closed: bool,
    /// Number of registrations so far; also the next id.
    pub subscribers: nat,
    /// Every accepted event, oldest first.
    pub history: Seq<Record<T>>,
    /// Number of dispatches started so far; also the next ticket.
    pub launched: nat,
    /// Number of dispatches finished so far.
    pub handled: nat,
}

/// What the dispatch loop does next.
pub enum Decision {
    /// Take the oldest queued event and a permit, and start its dispatch.
    Launch,
    /// An event waits but every permit is out.
    AwaitPermit,
    /// The queue is empty and still open.
    AwaitEvent,
    /// The queue is empty and closed: the loop ends.
    Exit,
}

/// One step of the bus, as a value.
pub enum Op<T> {
    /// A subscriber registers.
    Register,
    /// A producer publishes the event.
    Publish(Event<T>),
    /// The last producer goes away.
    Close,
    /// The loop starts the dispatch of the oldest queued event.
    Launch,
    /// The dispatch of the ticket takes its snapshot.
    Begin(int),
    /// The dispatch of the ticket ends.
    Complete(int),
}

impl<T> BusState<T> {
    /// A fresh bus: nothing published, nobody registered.
    pub open spec fn initial(name: Seq<char>, limit: nat) -> BusState<T> {
        BusState {
            name,
            limit,
            closed: false,
            subscribers: 0,
            history: Seq::empty(),
            launched: 0,
            handled: 0,
        }
    }

    /// The "published" counter.
    pub open spec fn published(self) -> nat {
        self.history.len()
    }

    /// Whether the dispatch of ticket `k` has been started.
    pub open spec fn started(self, k: int) -> bool {
        0 <= k < self.launched && k < self.history.len()
    }

    /// Whether ticket `k` holds a permit: started and not yet finished.
    pub open spec fn in_flight(self, k: int) -> bool {
        self.started(k) && !self.history[k].done
    }

    /// The tickets that hold a permit.
    pub open spec fn running(self) -> Set<int> {
        Set::new(|k: int| self.in_flight(k))
    }

    /// The "handling" gauge.
    pub open spec fn handling(self) -> nat {
        self.running().len()
    }

    /// The queue: the accepted events that have not been started, oldest first.
    pub open spec fn pending(self) -> Seq<Event<T>> {
        Seq::new(
            (self.history.len() - self.launched) as nat,
            |i: int| self.history[self.launched + i].event,
        )
    }

    /// Whether subscriber `id` is in the snapshot that the dispatch of ticket
    /// `k` took, that is, whether the event is handed to it.
    pub open spec fn delivers(self, k: int, id: int) -> bool {
        &&& 0 <= k < self.history.len()
        &&& self.history[k].snapshot matches Some(n)
        &&& 0 <= id < n
    }

    /// Nothing queued and nothing in flight.
    pub open spec fn settled(self) -> bool {
        self.launched == self.history.len() && self.running() =~= Set::<int>::empty()
    }

    /// The invariant of the bus.
    pub open spec fn wf(self) -> bool {
        &&& self.limit >= 1
        &&& self.launched <= self.history.len()
        &&& self.running().finite()
        &&& self.running().len() <= self.limit
        &&& self.handled + self.running().len() == self.launched
        &&& forall|k: int|
            #![trigger self.history[k]]
            self.launched <= k < self.history.len() ==> !self.history[k].done
                && self.history[k].snapshot is None
        &&& forall|k: int|
            #![trigger self.history[k]]
            0 <= k < self.history.len() ==> self.history[k].registered <= self.subscribers
        &&& forall|k: int|
            #![trigger self.history[k]]
            0 <= k < self.history.len() ==> (self.history[k].snapshot matches Some(n)
                ==> self.history[k].registered <= n <= self.subscribers)
    }

    /// The decision of the dispatch loop in this state.
    pub open spec fn decision(self) -> Decision {
        if self.launched < self.history.len() {
            if self.running().len() < self.limit {
                Decision::Launch
            } else {
                Decision::AwaitPermit
            }
        } else if self.closed {
            Decision::Exit
        } else {
            Decision::AwaitEvent
        }
    }

    /// A subscriber is added; its id is the old `subscribers`.
    pub open spec fn register(self) -> BusState<T> {
        BusState { subscribers: self.subscribers + 1, ..self }
    }

    /// `event` is accepted at the tail of the queue.
    pub open spec fn publish(self, event: Event<T>) -> BusState<T> {
        BusState {
            history: self.history.push(
                Record { event, registered: self.subscribers, snapshot: None, done: false },
            ),
            ..self
        }
    }

    /// The producers are gone.
    pub open spec fn close(self) -> BusState<T> {
        BusState { closed: true, ..self }
    }

    /// The oldest queued event leaves the queue with a permit; its ticket is
    /// the old `launched`.
    pub open spec fn launch(self) -> BusState<T> {
        BusState { launched: self.launched + 1, ..self }
    }

    /// The dispatch of `ticket` takes its snapshot of the registry.
    pub open spec fn begin(self, ticket: int) -> BusState<T> {
        BusState {
            history: self.history.update(
                ticket,
                Record { snapshot: Some(self.subscribers), ..self.history[ticket] },
            ),
            ..self
        }
    }

    /// The dispatch of `ticket` ends and gives its permit back.
    pub open spec fn complete(self, ticket: int) -> BusState<T> {
        BusState {
            history: self.history.update(ticket, Record { done: true, ..self.history[ticket] }),
            handled: self.handled + 1,
            ..self
        }
    }

    /// Whether `op` can be taken in this state.
    pub open spec fn enabled(self, op: Op<T>) -> bool {
        match op {
            Op::Register => true,
            Op::Publish(_) => !self.closed,
            Op::Close => true,
            Op::Launch => self.decision() is Launch,
            Op::Begin(ticket) => self.in_flight(ticket) && self.history[ticket].snapshot is None,
            Op::Complete(ticket) => self.in_flight(ticket),
        }
    }

    /// The state after `op`; an `op` that cannot be taken changes nothing.
    pub open spec fn apply(self, op: Op<T>) -> BusState<T> {
        if !self.enabled(op) {
            self
        } else {
            match op {
                Op::Register => self.register(),
                Op::Publish(event) => self.publish(event),
                Op::Close => self.close(),
                Op::Launch => self.launch(),
                Op::Begin(ticket) => self.begin(ticket),
                Op::Complete(ticket) => self.complete(ticket),
            }
        }
    }

    /// One whole dispatch of the oldest queued event, with nothing else in
    /// between: launch, snapshot, end.
    pub open spec fn serve(self) -> BusState<T> {
        let ticket = self.launched as int;
        self.launch().begin(ticket).complete(ticket)
    }

    /// The queue served in order until it is empty.
    pub open spec fn drain(self) -> BusState<T>
        decreases self.history.len() - self.launched,
    {
        if self.launched < self.history.len() {
            self.serve().drain()
        } else {
            self
        }
    }

    /// The end of every dispatch that is in flight among the tickets below
    /// `upto`: each permit that is out comes back.
    pub open spec fn finish(self, upto: nat) -> BusState<T>
        decreases upto,
    {
        if upto == 0 {
            self
        } else {
            self.finish((upto - 1) as nat).apply(Op::Complete(upto - 1))
        }
    }

    /// `events` published one after the other, first to last.
    pub open spec fn publish_all(self, events: Seq<Event<T>>) -> BusState<T>
        decreases events.len(),
    {
        if events.len() == 0 {
            self
        } else {
            self.publish_all(events.drop_last()).apply(Op::Publish(events.last()))
        }
    }

    /// Whether `later` can come after this state: nothing that was accepted
    /// is lost, reordered or rewritten, no counter goes back, and whatever
    /// was accepted in between saw at least the subscribers of this state.
    pub open spec fn precedes(self, later: BusState<T>) -> bool {
        &&& later.name == self.name
        &&& later.limit == self.limit
        &&& self.closed ==> later.closed
        &&& self.subscribers <= later.subscribers
        &&& self.launched <= later.launched
        &&& self.handled <= later.handled
        &&& self.history.len() <= later.history.len()
        &&& forall|k: int|
            #![trigger later.history[k]]
            0 <= k < self.history.len() ==> {
                &&& later.history[k].event == self.history[k].event
                &&& later.history[k].registered == self.history[k].registered
                &&& self.history[k].snapshot is Some ==> later.history[k].snapshot
                    == self.history[k].snapshot
                &&& self.history[k].done ==> later.history[k].done
            }
        &&& forall|k: int|
            #![trigger later.history[k]]
            self.history.len() <= k < later.history.len() ==> self.subscribers
                <= later.history[k].registered
    }

    /// The state after the steps `ops`, first to last.
    pub open spec fn run(self, ops: Seq<Op<T>>) -> BusState<T>
        decreases ops.len(),
    {
        if ops.len() == 0 {
            self
        } else {
            self.run(ops.drop_last()).apply(ops.last())
        }
    }
}

} // verus!
