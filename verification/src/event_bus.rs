//! The bus with its subscribers: events are published to a FIFO queue and
//! `handle` hands each of them, oldest first, to every subscriber that is
//! registered when its dispatch begins.

use crate::engine::{BusError, Engine, Step};
use crate::model::BusState;
use crate::steps::{
    lemma_begin, lemma_close, lemma_complete, lemma_drain, lemma_initial, lemma_launch,
    lemma_publish, lemma_register, lemma_serve,
};
use vstd::prelude::*;

verus! {

/// An immutable envelope around one payload.
pub struct Event<T> {
    pub data: T,
}

impl<T> Event<T> {
    /// Wraps `data`.
    pub fn new(data: T) -> (event: Event<T>)
        ensures
            event.data == data,
    {
        Event { data }
    }

    /// The payload.
    pub fn get_data(&self) -> (data: &T)
        ensures
            *data == self.data,
    {
        &self.data
    }
}

impl<T> From<T> for Event<T> {
    fn from(data: T) -> (event: Event<T>) {
        Event::new(data)
    }
}

impl<T> vstd::std_specs::convert::FromSpecImpl<T> for Event<T> {
    open spec fn obeys_from_spec() -> bool {
        true
    }

    open spec fn from_spec(data: T) -> Event<T> {
        Event { data }
    }
}

/// A handler that reacts to the events of one payload type.
pub trait Subscriber: Send + Sync {
    type Input;

    /// Reacts to `event`. Nothing is returned: a failure stays inside the
    /// handler, which logs or retries as it sees fit.
    fn on_event(&self, event: &Event<Self::Input>);
}

/// A subscriber seen through its payload type alone, so that handlers of
/// different types fit in one registry.
trait Deliver<T> {
    /// Hands `event` to the subscriber.
    fn deliver(&self, event: &Event<T>);
}

impl<T, R: Subscriber<Input = T>> Deliver<T> for R {
    fn deliver(&self, event: &Event<T>) {
        self.on_event(event)
    }
}

/// One entry of the registry: an id and the handler it was given for.
#[verifier::reject_recursive_types(T)]
struct Registration<T> {
    id: usize,
    handler: Box<dyn Deliver<T>>,
}

impl<T> Registration<T> {
    /// The id of this registration.
    spec fn key(&self) -> usize {
        self.id
    }

    fn new<R: Subscriber<Input = T> + 'static>(id: usize, listener: R) -> (made: Registration<T>)
        ensures
            made.key() == id,
    {
        Registration { id, handler: Box::new(listener) }
    }
}

/// A bus and its subscribers.
#[verifier::reject_recursive_types(T)]
pub struct EventBus<T> {
    engine: Engine<T>,
    registry: Vec<Registration<T>>,
}

impl<T> View for EventBus<T> {
    type V = BusState<T>;

    closed spec fn view(&self) -> BusState<T> {
        self.engine@
    }
}

impl<T> EventBus<T> {
    /// The registry holds the ids `0..subscribers`, each at its own index.
    pub closed spec fn inv(&self) -> bool {
        &&& self.engine.inv()
        &&& self.registry@.len() == self.engine@.subscribers
        &&& forall|i: int|
            0 <= i < self.registry@.len() ==> (#[trigger] self.registry@[i]).key() == i
    }

    /// The bus is in a state that its own calls can reach: between two calls
    /// no dispatch is in flight.
    pub open spec fn wf(&self) -> bool {
        self@.wf() && self@.handling() == 0 && self.inv()
    }

    /// A bus named `name` that lets `concurrency_limit` dispatches run at
    /// once, or `ConfigurationError` when that is zero.
    pub fn new(name: String, concurrency_limit: usize) -> (made: Result<EventBus<T>, BusError>)
        ensures
            made is Err <==> concurrency_limit == 0,
            made matches Err(e) ==> e == BusError::ConfigurationError,
            made matches Ok(bus) ==> bus.wf() && bus@ == BusState::<T>::initial(
                name@,
                concurrency_limit as nat,
            ),
    {
        match Engine::new(name, concurrency_limit) {
            Ok(engine) => {
                proof {
                    lemma_initial::<T>(name@, concurrency_limit as nat);
                }
                Ok(EventBus { engine, registry: Vec::new() })
            },
            Err(e) => Err(e),
        }
    }

    /// Adds `listener` to the registry and returns its id. It receives every
    /// event whose dispatch begins from now on.
    pub fn subscribe<R: Subscriber<Input = T> + 'static>(&mut self, listener: R) -> (id: usize)
        requires
            old(self).wf(),
        ensures
            final(self).wf(),
            id == old(self)@.subscribers,
            final(self)@ == old(self)@.register(),
    {
        let id = self.registry.len();
        let registration = Registration::new(id, listener);
        self.registry.push(registration);
        let count = self.registry.len();
        assert(id < count);
        proof {
            lemma_register(self.engine@);
        }
        self.engine.register()
    }

    /// Puts `event` at the tail of the queue. Fails with `BusClosed`, and
    /// only then, when the queue is closed.
    pub fn publish(&mut self, event: Event<T>) -> (sent: Result<(), BusError>)
        requires
            old(self).wf(),
            old(self)@.published() < u64::MAX,
        ensures
            final(self).wf(),
            sent is Err <==> old(self)@.closed,
            sent matches Err(e) ==> e == BusError::BusClosed && final(self)@ == old(self)@,
            sent is Ok ==> final(self)@ == old(self)@.publish(event),
    {
        proof {
            lemma_publish(self.engine@, event);
        }
        self.engine.publish(event)
    }

    /// Closes the queue: the producers are gone. What is queued is still
    /// dispatched by `handle`.
    pub fn close(&mut self)
        requires
            old(self).wf(),
        ensures
            final(self).wf(),
            final(self)@ == old(self)@.close(),
    {
        proof {
            lemma_close(self.engine@);
        }
        self.engine.close()
    }

    /// The dispatch loop: takes the queued events oldest first, and hands
    /// each to every subscriber of the registry, one after the other, before
    /// it takes the next. Returns when the queue is empty: `true` when it is
    /// closed as well, so that the loop is over for good, and `false` when
    /// more events may come.
    pub fn handle(&mut self) -> (exited: bool)
        requires
            old(self).wf(),
        ensures
            final(self).wf(),
            final(self)@ == old(self)@.drain(),
            final(self)@.settled(),
            final(self)@.handled == final(self)@.published(),
            exited == old(self)@.closed,
    {
        proof {
            lemma_drain(self@);
        }
        loop
            invariant
                self.wf(),
                self@.drain() == old(self)@.drain(),
                self@.closed == old(self)@.closed,
                old(self)@.drain().settled(),
                old(self)@.drain().handled == old(self)@.drain().published(),
            decreases self@.published() - self@.launched,
        {
            let ghost before = self@;
            let step = self.engine.poll();
            match step {
                Step::Launch { ticket, event } => {
                    proof {
                        lemma_launch(before);
                        assert(before.launch().running().contains(ticket as int));
                        lemma_begin(before.launch(), ticket as int);
                        assert(before.launch().begin(ticket as int).running().contains(
                            ticket as int,
                        ));
                    }
                    let snapshot = self.engine.begin(ticket);
                    let count = match snapshot {
                        Some(count) => count,
                        None => 0,
                    };
                    let mut at: usize = 0;
                    while at < count
                        invariant
                            at <= count,
                            count == self.registry@.len(),
                        decreases count - at,
                    {
                        self.registry[at].handler.deliver(&event);
                        at = at + 1;
                    }
                    proof {
                        lemma_complete(
                            before.launch().begin(ticket as int),
                            ticket as int,
                        );
                        lemma_serve(before);
                    }
                    self.engine.complete(ticket);
                },
                Step::Exit => {
                    return true;
                },
                _ => {
                    return false;
                },
            }
        }
    }

    /// The label of the bus.
    pub fn name(&self) -> (name: &String)
        ensures
            name@ == self@.name,
    {
        self.engine.name()
    }

    /// How many dispatches may run at once.
    pub fn concurrency_limit(&self) -> (limit: usize)
        ensures
            limit == self@.limit,
    {
        self.engine.concurrency_limit()
    }

    /// Whether the queue is closed.
    pub fn is_closed(&self) -> (closed: bool)
        ensures
            closed == self@.closed,
    {
        self.engine.is_closed()
    }

    /// How many subscribers are registered.
    pub fn subscribers(&self) -> (count: usize)
        ensures
            count == self@.subscribers,
    {
        self.engine.subscribers()
    }

    /// The "published" counter: events accepted so far.
    pub fn published(&self) -> (count: u64)
        requires
            self.wf(),
        ensures
            count == self@.published(),
    {
        self.engine.published()
    }

    /// The "handled" counter: events dispatched so far.
    pub fn handled(&self) -> (count: u64)
        ensures
            count == self@.handled,
    {
        self.engine.handled()
    }

    /// The "pending" gauge: events accepted and not yet dispatched.
    pub fn pending(&self) -> (count: usize)
        requires
            self.wf(),
        ensures
            count == self@.pending().len(),
    {
        self.engine.pending()
    }
}

} // verus!
