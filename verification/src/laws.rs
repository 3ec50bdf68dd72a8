//! What holds of every bus, whatever the order in which it is used.

use crate::event_bus::Event;
use crate::model::{BusState, Op};
use crate::steps::{
    lemma_apply, lemma_complete, lemma_drain, lemma_initial, lemma_launch, lemma_publish,
    lemma_register, lemma_run,
};
use vstd::prelude::*;

verus! {

/// A step loses nothing: the events accepted so far stay in the history, in
/// their order and as they were published, a snapshot once taken stays as it
/// is, and no counter goes back.
pub proof fn law_step_keeps_history<T>(s: BusState<T>, op: Op<T>)
    requires
        s.wf(),
    ensures
        s.precedes(s.apply(op)),
{
    let t = s.apply(op);
    if s.enabled(op) {
        match op {
            Op::Begin(ticket) => {
                assert forall|k: int| 0 <= k < s.history.len() implies {
                    &&& (#[trigger] t.history[k]).event == s.history[k].event
                    &&& t.history[k].registered == s.history[k].registered
                    &&& s.history[k].snapshot is Some ==> t.history[k].snapshot
                        == s.history[k].snapshot
                    &&& s.history[k].done ==> t.history[k].done
                } by {
                    if k != ticket {
                        assert(t.history[k] == s.history[k]);
                    }
                }
            },
            Op::Complete(ticket) => {
                assert forall|k: int| 0 <= k < s.history.len() implies {
                    &&& (#[trigger] t.history[k]).event == s.history[k].event
                    &&& t.history[k].registered == s.history[k].registered
                    &&& s.history[k].snapshot is Some ==> t.history[k].snapshot
                        == s.history[k].snapshot
                    &&& s.history[k].done ==> t.history[k].done
                } by {
                    if k != ticket {
                        assert(t.history[k] == s.history[k]);
                    }
                }
            },
            Op::Publish(event) => {
                assert forall|k: int| 0 <= k < s.history.len() implies (
                #[trigger] t.history[k]) == s.history[k] by {}
            },
            _ => {},
        }
    }
}

/// `precedes` is transitive.
pub proof fn law_precedes_chains<T>(a: BusState<T>, b: BusState<T>, c: BusState<T>)
    requires
        a.precedes(b),
        b.precedes(c),
    ensures
        a.precedes(c),
{
    assert forall|k: int| 0 <= k < a.history.len() implies {
        &&& (#[trigger] c.history[k]).event == a.history[k].event
        &&& c.history[k].registered == a.history[k].registered
        &&& a.history[k].snapshot is Some ==> c.history[k].snapshot == a.history[k].snapshot
        &&& a.history[k].done ==> c.history[k].done
    } by {
        assert(b.history[k].event == a.history[k].event);
    }
    assert forall|k: int| a.history.len() <= k < c.history.len() implies a.subscribers <= (
    #[trigger] c.history[k]).registered by {
        if k < b.history.len() {
            assert(a.subscribers <= b.history[k].registered);
        }
    }
}

/// No accepted event is ever dropped: after any steps, in any order, the
/// events accepted before them are still in the history, in publish order.
pub proof fn law_run_keeps_history<T>(s: BusState<T>, ops: Seq<Op<T>>)
    requires
        s.wf(),
    ensures
        s.run(ops).wf(),
        s.precedes(s.run(ops)),
    decreases ops.len(),
{
    if ops.len() > 0 {
        let mid = s.run(ops.drop_last());
        law_run_keeps_history(s, ops.drop_last());
        law_step_keeps_history(mid, ops.last());
        lemma_apply(mid, ops.last());
        law_precedes_chains(s, mid, mid.apply(ops.last()));
    }
}

/// Once nothing is queued and nothing is in flight, every accepted event has
/// been handled: "handled" equals "published", every dispatch is over, and a
/// dispatch that took its snapshot handed its event to every subscriber that
/// was registered when the event was accepted.
pub proof fn law_settled_bus_handled_all<T>(s: BusState<T>)
    requires
        s.wf(),
        s.settled(),
    ensures
        s.handled == s.published(),
        s.handling() == 0,
        s.pending().len() == 0,
        forall|k: int| 0 <= k < s.published() ==> (#[trigger] s.history[k]).done,
        forall|k: int, id: int|
            0 <= k < s.published() && s.history[k].snapshot is Some && 0 <= id
                < s.history[k].registered ==> #[trigger] s.delivers(k, id),
{
    assert forall|k: int| 0 <= k < s.published() implies (#[trigger] s.history[k]).done by {
        if !s.history[k].done {
            assert(s.in_flight(k));
            assert(s.running().contains(k));
        }
    }
}

/// With one subscriber registered first, then any events published, then
/// the queue served to its end: the subscriber has been handed every one of
/// the events, in publish order, and "handled" equals their number.
pub proof fn law_single_subscriber_receives_all<T>(
    name: Seq<char>,
    limit: nat,
    events: Seq<Event<T>>,
)
    requires
        limit >= 1,
    ensures
        ({
            let s = BusState::<T>::initial(name, limit).register().publish_all(events).drain();
            &&& s.wf()
            &&& s.settled()
            &&& s.subscribers == 1
            &&& s.published() == events.len()
            &&& s.handled == events.len()
            &&& forall|k: int|
                #![trigger s.history[k]]
                0 <= k < events.len() ==> s.history[k].event == events[k] && s.delivers(k, 0)
        }),
{
    let fresh = BusState::<T>::initial(name, limit).register();
    lemma_initial::<T>(name, limit);
    lemma_register(BusState::<T>::initial(name, limit));
    lemma_publish_all(fresh, events);
    let queued = fresh.publish_all(events);
    lemma_drain(queued);
    let s = queued.drain();
    assert forall|k: int| 0 <= k < events.len() implies (#[trigger] s.history[k]).event
        == events[k] && s.delivers(k, 0) by {
        assert(fresh.history.len() == 0);
        assert(queued.history[fresh.history.len() + k].event == events[k]);
        assert(s.history[k].event == queued.history[k].event);
        assert(s.history[k].snapshot == Some(1nat));
    }
}

/// Publishing to an open bus appends the events to the history, each seen
/// by the subscribers of that moment, and touches nothing else.
pub proof fn lemma_publish_all<T>(s: BusState<T>, events: Seq<Event<T>>)
    requires
        s.wf(),
        !s.closed,
    ensures
        s.publish_all(events).wf(),
        s.precedes(s.publish_all(events)),
        s.publish_all(events).running() == s.running(),
        s.publish_all(events).closed == s.closed,
        s.publish_all(events).subscribers == s.subscribers,
        s.publish_all(events).launched == s.launched,
        s.publish_all(events).handled == s.handled,
        s.publish_all(events).history.len() == s.history.len() + events.len(),
        forall|k: int|
            0 <= k < s.history.len() ==> #[trigger] s.publish_all(events).history[k]
                == s.history[k],
        forall|i: int|
            0 <= i < events.len() ==> (#[trigger] s.publish_all(events).history[s.history.len()
                + i]).event == events[i],
    decreases events.len(),
{
    if events.len() > 0 {
        let mid = s.publish_all(events.drop_last());
        lemma_publish_all(s, events.drop_last());
        lemma_publish(mid, events.last());
        law_step_keeps_history(mid, Op::Publish(events.last()));
        law_precedes_chains(s, mid, mid.apply(Op::Publish(events.last())));
        let t = s.publish_all(events);
        assert forall|k: int| 0 <= k < s.history.len() implies #[trigger] t.history[k]
            == s.history[k] by {
            assert(mid.history[k] == s.history[k]);
        }
        assert forall|i: int| 0 <= i < events.len() implies (#[trigger] t.history[s.history.len()
            + i]).event == events[i] by {
            if i < events.len() - 1 {
                assert(mid.history[s.history.len() + i].event == events.drop_last()[i]);
            }
        }
    } else {
        assert(s.publish_all(events).running() =~= s.running());
    }
}

/// Dispatches start in publish order: when the dispatch of an event has
/// been started, so has that of every event accepted before it.
pub proof fn law_dispatch_starts_in_publish_order<T>(s: BusState<T>, a: int, b: int)
    requires
        s.wf(),
        0 <= a <= b < s.published(),
        s.started(b),
    ensures
        s.started(a),
{
}

/// A launch starts the oldest event that has not been started, and no other:
/// the head of the queue leaves it, and the rest keeps its order.
pub proof fn law_launch_takes_oldest<T>(s: BusState<T>)
    requires
        s.wf(),
        s.enabled(Op::Launch),
    ensures
        s.pending().len() > 0,
        s.pending()[0] == s.history[s.launched as int].event,
        s.apply(Op::Launch).pending() == s.pending().drop_first(),
        forall|k: int| #[trigger] s.apply(Op::Launch).started(k) <==> s.started(k) || k == s.launched,
{
    lemma_launch(s);
}

/// An accepted event goes behind everything that is queued.
pub proof fn law_publish_appends<T>(s: BusState<T>, event: Event<T>)
    requires
        s.wf(),
        s.enabled(Op::Publish(event)),
    ensures
        s.apply(Op::Publish(event)).pending() == s.pending().push(event),
        s.apply(Op::Publish(event)).published() == s.published() + 1,
        s.apply(Op::Publish(event)).history[s.published() as int].event == event,
{
    lemma_publish(s, event);
}

/// On a bus made with `limit` permits, after any steps in any order, no
/// more than `limit` dispatches hold a permit.
pub proof fn law_concurrency_bound<T>(name: Seq<char>, limit: nat, ops: Seq<Op<T>>)
    requires
        limit >= 1,
    ensures
        BusState::<T>::initial(name, limit).run(ops).handling() <= limit,
        BusState::<T>::initial(name, limit).run(ops).limit == limit,
{
    let fresh = BusState::<T>::initial(name, limit);
    lemma_initial::<T>(name, limit);
    lemma_run(fresh, ops);
    law_run_keeps_history(fresh, ops);
}

/// While every permit is out no dispatch is started, whatever is queued; the
/// end of any one dispatch that is in flight lets the next one start.
pub proof fn law_launch_waits_for_permit<T>(s: BusState<T>, ticket: int)
    requires
        s.wf(),
        s.handling() == s.limit,
        s.pending().len() > 0,
        s.in_flight(ticket),
    ensures
        !s.enabled(Op::Launch),
        s.apply(Op::Launch) == s,
        s.apply(Op::Complete(ticket)).enabled(Op::Launch),
{
    lemma_complete(s, ticket);
}

/// Every accepted event is in exactly one place: in the queue, in flight, or
/// handled. So the two gauges and the "handled" counter add up to the
/// "published" counter.
pub proof fn law_counters_add_up<T>(s: BusState<T>)
    requires
        s.wf(),
    ensures
        s.pending().len() + s.handling() + s.handled == s.published(),
{
}

/// A permit is given back once: after the end of a dispatch its ticket holds
/// no permit again, whatever happens later, so that a second end of the same
/// dispatch changes nothing.
pub proof fn law_permit_released_once<T>(s: BusState<T>, ticket: int, ops: Seq<Op<T>>)
    requires
        s.wf(),
        s.in_flight(ticket),
    ensures
        s.apply(Op::Complete(ticket)).handling() + 1 == s.handling(),
        !s.apply(Op::Complete(ticket)).run(ops).in_flight(ticket),
        !s.apply(Op::Complete(ticket)).run(ops).enabled(Op::Complete(ticket)),
{
    let ended = s.apply(Op::Complete(ticket));
    lemma_complete(s, ticket);
    law_run_keeps_history(ended, ops);
    assert(ended.history[ticket].done);
    assert(ended.run(ops).history[ticket].done);
}

/// No two registrations share an id: the id given out by a registration is
/// below every id that is given out later.
pub proof fn law_ids_never_repeat<T>(s: BusState<T>, ops: Seq<Op<T>>)
    requires
        s.wf(),
    ensures
        s.subscribers < s.apply(Op::Register).run(ops).subscribers,
{
    lemma_register(s);
    law_run_keeps_history(s.apply(Op::Register), ops);
}

/// A subscriber that registers after a dispatch has taken its snapshot
/// never receives that event, whatever happens later.
pub proof fn law_late_subscriber_misses_snapshot<T>(s: BusState<T>, ops: Seq<Op<T>>, k: int)
    requires
        s.wf(),
        0 <= k < s.published(),
        s.history[k].snapshot is Some,
    ensures
        !s.register().run(ops).delivers(k, s.subscribers as int),
{
    lemma_register(s);
    law_run_keeps_history(s.register(), ops);
    let t = s.register().run(ops);
    assert(s.register().history[k].snapshot is Some);
    assert(t.history[k].snapshot == s.history[k].snapshot);
}

/// A subscriber receives every event that is published after it has
/// registered, as soon as the dispatch of that event takes its snapshot.
pub proof fn law_subscriber_receives_later_events<T>(s: BusState<T>, ops: Seq<Op<T>>, k: int)
    requires
        s.wf(),
        s.published() <= k < s.register().run(ops).published(),
        s.register().run(ops).history[k].snapshot is Some,
    ensures
        s.register().run(ops).delivers(k, s.subscribers as int),
{
    lemma_register(s);
    law_run_keeps_history(s.register(), ops);
    let t = s.register().run(ops);
    assert(s.register().subscribers <= t.history[k].registered);
}

/// The permits that are out come back one by one, and nothing else changes.
pub proof fn lemma_finish<T>(s: BusState<T>, upto: nat)
    requires
        s.wf(),
        upto <= s.launched,
    ensures
        s.finish(upto).wf(),
        s.precedes(s.finish(upto)),
        s.finish(upto).closed == s.closed,
        s.finish(upto).subscribers == s.subscribers,
        s.finish(upto).launched == s.launched,
        s.finish(upto).history.len() == s.history.len(),
        forall|k: int| 0 <= k < upto ==> !#[trigger] s.finish(upto).in_flight(k),
        forall|k: int|
            upto <= k < s.history.len() ==> #[trigger] s.finish(upto).history[k] == s.history[k],
    decreases upto,
{
    if upto > 0 {
        let mid = s.finish((upto - 1) as nat);
        let op = Op::<T>::Complete(upto - 1);
        lemma_finish(s, (upto - 1) as nat);
        lemma_apply(mid, op);
        law_step_keeps_history(mid, op);
        law_precedes_chains(s, mid, mid.apply(op));
        let t = s.finish(upto);
        assert(t == mid.apply(op));
        assert forall|k: int| 0 <= k < upto implies !#[trigger] t.in_flight(k) by {
            if k < upto - 1 {
                assert(!mid.in_flight(k));
                assert(mid.history[k].done ==> t.history[k].done);
            }
        }
        assert forall|k: int| upto <= k < s.history.len() implies #[trigger] t.history[k]
            == s.history[k] by {
            assert(mid.history[k] == s.history[k]);
        }
    }
}

/// No accepted event waits for ever: from any state, once the permits that
/// are out have come back and the loop has served the queue, the dispatch of
/// every accepted event has been started and is over, and the events are
/// the ones that were published.
pub proof fn law_every_accepted_event_is_dispatched<T>(s: BusState<T>, k: int)
    requires
        s.wf(),
        0 <= k < s.published(),
    ensures
        ({
            let end = s.finish(s.launched).drain();
            &&& end.wf()
            &&& end.settled()
            &&& end.started(k)
            &&& end.history[k].done
            &&& end.history[k].event == s.history[k].event
            &&& k >= s.launched ==> end.history[k].snapshot == Some(s.subscribers)
        }),
{
    let idle = s.finish(s.launched);
    lemma_finish(s, s.launched);
    assert(idle.running() =~= Set::<int>::empty()) by {
        assert forall|j: int| !idle.running().contains(j) by {
            if idle.in_flight(j) {
                assert(0 <= j < s.launched);
            }
        }
    }
    lemma_drain(idle);
    let end = idle.drain();
    law_settled_bus_handled_all(end);
    assert(end.history[k].event == idle.history[k].event);
    assert(idle.history[k].event == s.history[k].event);
    if k >= s.launched {
        assert(idle.history[k] == s.history[k]);
    }
}

/// An event waits in the queue only while it has to: whenever the queue is
/// not empty, either a launch can be taken at once, or every permit is out
/// and some dispatch is in flight whose end makes the launch possible.
pub proof fn law_queue_never_stalls<T>(s: BusState<T>)
    requires
        s.wf(),
        s.pending().len() > 0,
    ensures
        s.enabled(Op::Launch) || (s.handling() == s.limit && exists|ticket: int|
            #[trigger] s.in_flight(ticket) && s.apply(Op::Complete(ticket)).enabled(Op::Launch)),
{
    if !s.enabled(Op::<T>::Launch) {
        assert(s.running().len() > 0);
        let ticket = s.running().choose();
        assert(s.running().contains(ticket));
        assert(s.in_flight(ticket));
        lemma_complete(s, ticket);
    }
}

} // verus!
