//! What each step of the bus does to the queue and to the set of dispatches
//! in flight, and that it keeps the invariant.

use crate::event_bus::Event;
use crate::model::{BusState, Op, Record};
use vstd::prelude::*;

verus! {

/// A fresh bus with at least one permit is well formed, empty and idle.
pub proof fn lemma_initial<T>(name: Seq<char>, limit: nat)
    requires
        limit >= 1,
    ensures
        BusState::<T>::initial(name, limit).wf(),
        BusState::<T>::initial(name, limit).running() == Set::<int>::empty(),
        BusState::<T>::initial(name, limit).pending() == Seq::<Event<T>>::empty(),
        BusState::<T>::initial(name, limit).settled(),
{
    let s = BusState::<T>::initial(name, limit);
    assert(s.running() =~= Set::<int>::empty());
    assert(s.pending() =~= Seq::<Event<T>>::empty());
}

/// Registering touches neither the queue nor the dispatches in flight.
pub proof fn lemma_register<T>(s: BusState<T>)
    requires
        s.wf(),
    ensures
        s.register().wf(),
        s.register().running() == s.running(),
        s.register().pending() == s.pending(),
{
    let t = s.register();
    assert(t.running() =~= s.running());
    assert(t.pending() =~= s.pending());
}

/// Closing touches neither the queue nor the dispatches in flight.
pub proof fn lemma_close<T>(s: BusState<T>)
    requires
        s.wf(),
    ensures
        s.close().wf(),
        s.close().running() == s.running(),
        s.close().pending() == s.pending(),
{
    let t = s.close();
    assert(t.running() =~= s.running());
    assert(t.pending() =~= s.pending());
}

/// An accepted event goes to the tail of the queue.
pub proof fn lemma_publish<T>(s: BusState<T>, event: Event<T>)
    requires
        s.wf(),
    ensures
        s.publish(event).wf(),
        s.publish(event).running() == s.running(),
        s.publish(event).pending() == s.pending().push(event),
{
    let t = s.publish(event);
    assert forall|k: int| t.in_flight(k) == s.in_flight(k) by {
        if 0 <= k < s.history.len() {
            assert(t.history[k] == s.history[k]);
        }
    }
    assert(t.running() =~= s.running());
    assert(t.pending() =~= s.pending().push(event));
}

/// A launch takes the head of the queue and one permit.
pub proof fn lemma_launch<T>(s: BusState<T>)
    requires
        s.wf(),
        s.decision() is Launch,
    ensures
        s.launch().wf(),
        !s.running().contains(s.launched as int),
        s.launch().running() == s.running().insert(s.launched as int),
        s.launch().handling() == s.handling() + 1,
        s.pending().len() > 0,
        s.pending()[0] == s.history[s.launched as int].event,
        s.launch().pending() == s.pending().subrange(1, s.pending().len() as int),
{
    let t = s.launch();
    let k0 = s.launched as int;
    assert(!s.history[k0].done);
    assert forall|k: int| t.in_flight(k) == (s.in_flight(k) || k == k0) by {}
    assert(t.running() =~= s.running().insert(k0));
    assert(t.pending() =~= s.pending().subrange(1, s.pending().len() as int));
}

/// Taking the snapshot touches neither the queue nor the dispatches in flight.
pub proof fn lemma_begin<T>(s: BusState<T>, ticket: int)
    requires
        s.wf(),
        s.enabled(Op::Begin(ticket)),
    ensures
        s.begin(ticket).wf(),
        s.begin(ticket).running() == s.running(),
        s.begin(ticket).pending() == s.pending(),
        s.begin(ticket).history[ticket].snapshot == Some(s.subscribers),
{
    let t = s.begin(ticket);
    assert forall|k: int| t.in_flight(k) == s.in_flight(k) by {
        if 0 <= k < s.history.len() {
            assert(t.history[k].done == s.history[k].done);
        }
    }
    assert(t.running() =~= s.running());
    assert(t.pending() =~= s.pending());
    assert forall|k: int| 0 <= k < t.history.len() implies (#[trigger] t.history[k]).registered
        <= t.subscribers && (t.history[k].snapshot matches Some(n) ==> t.history[k].registered
        <= n <= t.subscribers) by {
        assert(s.history[k].registered <= s.subscribers);
    }
}

/// The end of a dispatch frees exactly its own permit.
pub proof fn lemma_complete<T>(s: BusState<T>, ticket: int)
    requires
        s.wf(),
        s.in_flight(ticket),
    ensures
        s.complete(ticket).wf(),
        s.complete(ticket).running() == s.running().remove(ticket),
        s.complete(ticket).handling() + 1 == s.handling(),
        s.complete(ticket).pending() == s.pending(),
{
    let t = s.complete(ticket);
    assert forall|k: int| t.in_flight(k) == (s.in_flight(k) && k != ticket) by {
        if 0 <= k < s.history.len() && k != ticket {
            assert(t.history[k] == s.history[k]);
        }
    }
    assert(t.running() =~= s.running().remove(ticket));
    assert(s.running().contains(ticket));
    assert(t.pending() =~= s.pending());
    assert forall|k: int| 0 <= k < t.history.len() implies (#[trigger] t.history[k]).registered
        <= t.subscribers && (t.history[k].snapshot matches Some(n) ==> t.history[k].registered
        <= n <= t.subscribers) by {
        assert(s.history[k].registered <= s.subscribers);
    }
}

/// Every step keeps the invariant.
pub proof fn lemma_apply<T>(s: BusState<T>, op: Op<T>)
    requires
        s.wf(),
    ensures
        s.apply(op).wf(),
{
    if s.enabled(op) {
        match op {
            Op::Register => lemma_register(s),
            Op::Publish(event) => lemma_publish(s, event),
            Op::Close => lemma_close(s),
            Op::Launch => lemma_launch(s),
            Op::Begin(ticket) => lemma_begin(s, ticket),
            Op::Complete(ticket) => lemma_complete(s, ticket),
        }
    }
}

/// Every run keeps the invariant.
pub proof fn lemma_run<T>(s: BusState<T>, ops: Seq<Op<T>>)
    requires
        s.wf(),
    ensures
        s.run(ops).wf(),
    decreases ops.len(),
{
    if ops.len() > 0 {
        lemma_run(s, ops.drop_last());
        lemma_apply(s.run(ops.drop_last()), ops.last());
    }
}

/// One whole dispatch moves the head of the queue into the handled events,
/// with the registry of that moment as its snapshot, and gives the permit
/// back.
pub proof fn lemma_serve<T>(s: BusState<T>)
    requires
        s.wf(),
        s.decision() is Launch,
    ensures
        s.serve().wf(),
        s.serve() == (BusState {
            history: s.history.update(
                s.launched as int,
                Record {
                    snapshot: Some(s.subscribers),
                    done: true,
                    ..s.history[s.launched as int]
                },
            ),
            launched: s.launched + 1,
            handled: s.handled + 1,
            ..s
        }),
        s.serve().running() == s.running(),
        s.serve().pending() == s.pending().subrange(1, s.pending().len() as int),
{
    let ticket = s.launched as int;
    let a = s.launch();
    lemma_launch(s);
    assert(a.running().contains(ticket));
    assert(a.in_flight(ticket));
    let b = a.begin(ticket);
    lemma_begin(a, ticket);
    assert(b.running().contains(ticket));
    assert(b.in_flight(ticket));
    let c = b.complete(ticket);
    lemma_complete(b, ticket);
    assert(c.history =~= s.history.update(
        ticket,
        Record { snapshot: Some(s.subscribers), done: true, ..s.history[ticket] },
    ));
    assert(c.running() =~= s.running());
}

/// Serving the queue to its end, with nothing in flight at the start,
/// leaves the bus settled: every accepted event has been dispatched, each
/// of the queued ones against the whole registry.
pub proof fn lemma_drain<T>(s: BusState<T>)
    requires
        s.wf(),
        s.handling() == 0,
    ensures
        s.drain().wf(),
        s.drain().settled(),
        s.drain().handling() == 0,
        s.drain().name == s.name,
        s.drain().limit == s.limit,
        s.drain().closed == s.closed,
        s.drain().subscribers == s.subscribers,
        s.drain().launched == s.published(),
        s.drain().handled == s.handled + s.pending().len(),
        s.drain().handled == s.published(),
        s.drain().history.len() == s.history.len(),
        forall|k: int|
            0 <= k < s.launched ==> #[trigger] s.drain().history[k] == s.history[k],
        forall|k: int|
            s.launched <= k < s.history.len() ==> #[trigger] s.drain().history[k] == (Record {
                snapshot: Some(s.subscribers),
                done: true,
                ..s.history[k]
            }),
    decreases s.history.len() - s.launched,
{
    if s.launched < s.history.len() {
        lemma_serve(s);
        let t = s.serve();
        lemma_drain(t);
        assert forall|k: int| 0 <= k < s.launched implies #[trigger] s.drain().history[k]
            == s.history[k] by {
            assert(t.history[k] == s.history[k]);
        }
        assert forall|k: int| s.launched <= k < s.history.len() implies #[trigger] s.drain().history[k]
            == (Record { snapshot: Some(s.subscribers), done: true, ..s.history[k] }) by {
            if k > s.launched {
                assert(t.history[k] == s.history[k]);
            }
        }
    } else {
        assert(s.running().len() == 0);
        assert(s.running() =~= Set::<int>::empty());
    }
}

} // verus!
