use eventbus::engine::{BusError, Engine, Step};
use eventbus::event_bus::Event;

fn expect_launch<T>(step: Step<T>) -> (u64, T) {
    match step {
        Step::Launch { ticket, event } => (ticket, event.data),
        Step::AwaitPermit => panic!("waits for a permit"),
        Step::AwaitEvent => panic!("waits for an event"),
        Step::Exit => panic!("is over"),
    }
}

#[test]
fn engine_starts_empty() {
    let mut bus = Engine::<u32>::new("t".to_string(), 3).unwrap();
    assert_eq!("t", bus.name());
    assert_eq!(3, bus.concurrency_limit());
    assert_eq!(0, bus.published());
    assert_eq!(0, bus.launched());
    assert_eq!(0, bus.handled());
    assert_eq!(0, bus.pending());
    assert_eq!(0, bus.handling());
    assert_eq!(0, bus.subscribers());
    assert!(!bus.is_closed());
    assert!(matches!(bus.poll(), Step::AwaitEvent));
}

#[test]
fn engine_rejects_zero_permits() {
    assert!(matches!(Engine::<u32>::new("t".to_string(), 0), Err(BusError::ConfigurationError)));
    assert!(Engine::<u32>::new("t".to_string(), 1).is_ok());
}

#[test]
fn gauges_and_counters_follow_each_step() {
    let mut bus = Engine::new("t".to_string(), 2).unwrap();
    assert_eq!(Ok(()), bus.publish(Event::new('a')));
    assert_eq!(Ok(()), bus.publish(Event::new('b')));
    assert_eq!((2, 2, 0, 0), (bus.published(), bus.pending(), bus.handling(), bus.handled()));
    let (ticket, data) = expect_launch(bus.poll());
    assert_eq!((0, 'a'), (ticket, data));
    assert_eq!((2, 1, 1, 0), (bus.published(), bus.pending(), bus.handling(), bus.handled()));
    assert_eq!(Some(0), bus.begin(ticket));
    assert_eq!((2, 1, 1, 0), (bus.published(), bus.pending(), bus.handling(), bus.handled()));
    assert!(bus.complete(ticket));
    assert_eq!((2, 1, 0, 1), (bus.published(), bus.pending(), bus.handling(), bus.handled()));
    assert_eq!(1, bus.launched());
}

#[test]
fn dispatches_start_in_publish_order() {
    let mut bus = Engine::new("t".to_string(), 8).unwrap();
    for i in 0..5u32 {
        assert_eq!(Ok(()), bus.publish(Event::new(i * 10)));
    }
    // The later dispatches end first; the order of the starts is untouched.
    let mut started = Vec::new();
    for _ in 0..5 {
        started.push(expect_launch(bus.poll()));
    }
    assert_eq!(vec![(0, 0), (1, 10), (2, 20), (3, 30), (4, 40)], started);
    for ticket in [4u64, 2, 3, 0, 1] {
        assert!(bus.complete(ticket));
    }
    assert_eq!(5, bus.handled());
    assert!(matches!(bus.poll(), Step::AwaitEvent));
}

#[test]
fn no_more_dispatches_in_flight_than_permits() {
    let limit = 3usize;
    let mut bus = Engine::new("t".to_string(), limit).unwrap();
    for i in 0..(limit as u32 + 1) {
        assert_eq!(Ok(()), bus.publish(Event::new(i)));
    }
    for expected in 0..limit as u64 {
        let (ticket, _) = expect_launch(bus.poll());
        assert_eq!(expected, ticket);
        assert!(bus.handling() <= limit);
    }
    assert_eq!(limit, bus.handling());
    // The one too many waits, however often the loop asks.
    assert!(matches!(bus.poll(), Step::AwaitPermit));
    assert!(matches!(bus.poll(), Step::AwaitPermit));
    assert_eq!(1, bus.pending());
    assert_eq!(limit, bus.handling());
    // One permit comes back, and it starts.
    assert!(bus.complete(1));
    let (ticket, data) = expect_launch(bus.poll());
    assert_eq!((3, 3), (ticket, data));
    assert_eq!(limit, bus.handling());
}

#[test]
fn one_permit_lets_the_second_start_only_after_the_first_ends() {
    let mut bus = Engine::new("t".to_string(), 1).unwrap();
    assert_eq!(Ok(()), bus.publish(Event::new("first")));
    assert_eq!(Ok(()), bus.publish(Event::new("second")));
    assert_eq!((0, "first"), expect_launch(bus.poll()));
    assert!(matches!(bus.poll(), Step::AwaitPermit));
    assert!(bus.complete(0));
    assert_eq!((1, "second"), expect_launch(bus.poll()));
}

#[test]
fn a_permit_is_given_back_once() {
    let mut bus = Engine::new("t".to_string(), 2).unwrap();
    assert_eq!(Ok(()), bus.publish(Event::new(1u8)));
    let (ticket, _) = expect_launch(bus.poll());
    assert!(!bus.complete(ticket + 1));
    assert!(bus.complete(ticket));
    assert!(!bus.complete(ticket));
    assert_eq!(1, bus.handled());
    assert_eq!(0, bus.handling());
}

#[test]
fn a_dispatch_may_end_without_a_snapshot() {
    let mut bus = Engine::new("t".to_string(), 1).unwrap();
    assert_eq!(Ok(()), bus.publish(Event::new(1u8)));
    let (ticket, _) = expect_launch(bus.poll());
    assert!(bus.complete(ticket));
    assert_eq!(None, bus.begin(ticket));
    assert_eq!(1, bus.handled());
}

#[test]
fn snapshot_is_taken_when_the_dispatch_begins() {
    let mut bus = Engine::new("t".to_string(), 4).unwrap();
    assert_eq!(0, bus.register());
    assert_eq!(Ok(()), bus.publish(Event::new(1u8)));
    // Registered after the publish and before the snapshot: in it.
    assert_eq!(1, bus.register());
    let (first, _) = expect_launch(bus.poll());
    // Registered after the launch and before the snapshot: in it.
    assert_eq!(2, bus.register());
    assert_eq!(Some(3), bus.begin(first));
    // Registered after the snapshot: not in it, and the snapshot is final.
    assert_eq!(3, bus.register());
    assert_eq!(None, bus.begin(first));
    // In the snapshot of whatever is published from now on.
    assert_eq!(Ok(()), bus.publish(Event::new(2u8)));
    let (second, _) = expect_launch(bus.poll());
    assert_eq!(Some(4), bus.begin(second));
    assert!(bus.complete(first));
    assert!(bus.complete(second));
}

#[test]
fn snapshot_needs_a_ticket_in_flight() {
    let mut bus = Engine::new("t".to_string(), 1).unwrap();
    assert_eq!(None, bus.begin(0));
    assert_eq!(Ok(()), bus.publish(Event::new(1u8)));
    assert_eq!(None, bus.begin(0));
    let (ticket, _) = expect_launch(bus.poll());
    assert_eq!(None, bus.begin(ticket + 1));
    assert_eq!(Some(0), bus.begin(ticket));
}

#[test]
fn closed_queue_is_drained_before_the_loop_ends() {
    let mut bus = Engine::new("t".to_string(), 1).unwrap();
    assert_eq!(Ok(()), bus.publish(Event::new(1u8)));
    assert_eq!(Ok(()), bus.publish(Event::new(2u8)));
    bus.close();
    assert!(bus.is_closed());
    assert_eq!(Err(BusError::BusClosed), bus.publish(Event::new(3u8)));
    assert_eq!(2, bus.published());
    assert_eq!((0, 1), expect_launch(bus.poll()));
    assert!(matches!(bus.poll(), Step::AwaitPermit));
    assert!(bus.complete(0));
    assert_eq!((1, 2), expect_launch(bus.poll()));
    // The queue is empty and closed: the loop ends, with a dispatch still in flight.
    assert!(matches!(bus.poll(), Step::Exit));
    assert!(bus.complete(1));
    assert!(matches!(bus.poll(), Step::Exit));
    assert_eq!(2, bus.handled());
}

#[test]
fn closing_an_unused_bus_ends_the_loop() {
    let mut bus = Engine::<u8>::new("t".to_string(), 1).unwrap();
    bus.close();
    assert!(matches!(bus.poll(), Step::Exit));
    assert_eq!(0, bus.published());
    assert_eq!(0, bus.handled());
}

#[test]
fn every_accepted_event_is_dispatched_in_the_end() {
    let mut bus = Engine::new("t".to_string(), 2).unwrap();
    let mut seen = Vec::new();
    let mut in_flight = Vec::new();
    for i in 0..7u32 {
        assert_eq!(Ok(()), bus.publish(Event::new(i)));
    }
    loop {
        match bus.poll() {
            Step::Launch { ticket, event } => {
                seen.push(event.data);
                in_flight.push(ticket);
            }
            Step::AwaitPermit => {
                let ticket = in_flight.remove(0);
                assert!(bus.complete(ticket));
            }
            Step::AwaitEvent => break,
            Step::Exit => panic!("the queue was never closed"),
        }
    }
    assert_eq!(vec![0, 1, 2, 3, 4, 5, 6], seen);
    for ticket in in_flight {
        assert!(bus.complete(ticket));
    }
    assert_eq!(7, bus.handled());
    assert_eq!(bus.published(), bus.handled());
    assert_eq!(0, bus.handling());
}
