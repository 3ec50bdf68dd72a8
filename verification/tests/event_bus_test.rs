use eventbus::engine::BusError;
use eventbus::event_bus::{Event, EventBus, Subscriber};
use std::sync::atomic::{AtomicI64, Ordering};
use std::sync::{Arc, Mutex};
use std::time::{Duration, Instant};

struct SimpleCallback {
    flag: Arc<AtomicI64>,
}

impl Subscriber for SimpleCallback {
    type Input = String;

    fn on_event(&self, event: &Event<Self::Input>) {
        println!("SimpleCallback has accepted event: {:?}", event.get_data());
        self.flag.fetch_add(1, Ordering::SeqCst);
    }
}

struct Recorder {
    log: Arc<Mutex<Vec<String>>>,
}

impl Subscriber for Recorder {
    type Input = String;

    fn on_event(&self, event: &Event<Self::Input>) {
        self.log.lock().unwrap().push(event.get_data().clone());
    }
}

struct Tagger {
    tag: u32,
    log: Arc<Mutex<Vec<(u32, u32)>>>,
}

impl Subscriber for Tagger {
    type Input = u32;

    fn on_event(&self, event: &Event<Self::Input>) {
        self.log.lock().unwrap().push((self.tag, *event.get_data()));
    }
}

struct SlowStamp {
    stamps: Arc<Mutex<Vec<Instant>>>,
}

impl Subscriber for SlowStamp {
    type Input = u32;

    fn on_event(&self, _event: &Event<Self::Input>) {
        let begun = Instant::now();
        while begun.elapsed() < Duration::from_millis(200) {
            std::hint::spin_loop();
        }
        self.stamps.lock().unwrap().push(Instant::now());
    }
}

#[test]
fn test_event_bus() {
    let mut event_bus = EventBus::new("test".to_string(), 1usize).unwrap();

    let flag = Arc::new(AtomicI64::new(0));

    let flag_cloned = flag.clone();
    event_bus.subscribe(SimpleCallback { flag: flag_cloned });

    let _ = event_bus.publish("singleEvent".to_string().into());
    event_bus.handle();

    // case1: check the handle logic
    assert!(flag.load(Ordering::SeqCst) == 1);

    // case2: check the metrics
    assert_eq!(1, event_bus.handled());
    assert_eq!(1, event_bus.published());
}

#[test]
fn event_keeps_its_payload() {
    let event = Event::new(7u32);
    assert_eq!(7, *event.get_data());
    assert_eq!(7, event.data);
    let event: Event<String> = "singleEvent".to_string().into();
    assert_eq!("singleEvent", event.get_data());
    let event = Event::from(vec![1u8, 2, 3]);
    assert_eq!(&vec![1u8, 2, 3], event.get_data());
}

#[test]
fn new_bus_is_empty_and_open() {
    let bus = EventBus::<u32>::new("spill".to_string(), 4).unwrap();
    assert_eq!("spill", bus.name());
    assert_eq!(4, bus.concurrency_limit());
    assert!(!bus.is_closed());
    assert_eq!(0, bus.subscribers());
    assert_eq!(0, bus.published());
    assert_eq!(0, bus.handled());
    assert_eq!(0, bus.pending());
}

#[test]
fn zero_concurrency_is_a_configuration_error() {
    match EventBus::<u32>::new("t".to_string(), 0) {
        Err(e) => assert_eq!(BusError::ConfigurationError, e),
        Ok(_) => panic!("a bus without a permit was made"),
    }
}

#[test]
fn subscribe_hands_out_ids_in_order() {
    let mut bus = EventBus::<u32>::new("t".to_string(), 1).unwrap();
    let log = Arc::new(Mutex::new(Vec::new()));
    assert_eq!(0, bus.subscribe(Tagger { tag: 10, log: log.clone() }));
    assert_eq!(1, bus.subscribe(Tagger { tag: 11, log: log.clone() }));
    assert_eq!(2, bus.subscribe(Tagger { tag: 12, log: log.clone() }));
    assert_eq!(3, bus.subscribers());
}

#[test]
fn single_subscriber_counts_every_event() {
    for n in [0i64, 1, 2, 17, 100] {
        let mut bus = EventBus::new("count".to_string(), 3).unwrap();
        let flag = Arc::new(AtomicI64::new(0));
        bus.subscribe(SimpleCallback { flag: flag.clone() });
        for i in 0..n {
            assert_eq!(Ok(()), bus.publish(Event::new(format!("e{}", i))));
        }
        assert_eq!(n as u64, bus.published());
        assert_eq!(n as usize, bus.pending());
        assert!(!bus.handle());
        assert_eq!(n, flag.load(Ordering::SeqCst));
        assert_eq!(n as u64, bus.handled());
        assert_eq!(n as u64, bus.published());
        assert_eq!(0, bus.pending());
    }
}

#[test]
fn scenario_log_in_publish_order() {
    let mut bus = EventBus::new("t".to_string(), 1).unwrap();
    let log = Arc::new(Mutex::new(Vec::new()));
    bus.subscribe(Recorder { log: log.clone() });
    assert_eq!(Ok(()), bus.publish(Event::new("A".to_string())));
    assert_eq!(Ok(()), bus.publish(Event::new("B".to_string())));
    bus.handle();
    assert_eq!(vec!["A".to_string(), "B".to_string()], *log.lock().unwrap());
    assert_eq!(2, bus.handled());
}

#[test]
fn scenario_one_permit_serializes_slow_handlers() {
    let mut bus = EventBus::new("slow".to_string(), 1).unwrap();
    let stamps = Arc::new(Mutex::new(Vec::new()));
    bus.subscribe(SlowStamp { stamps: stamps.clone() });
    assert_eq!(Ok(()), bus.publish(Event::new(1u32)));
    assert_eq!(Ok(()), bus.publish(Event::new(2u32)));
    bus.handle();
    let stamps = stamps.lock().unwrap();
    assert_eq!(2, stamps.len());
    assert!(stamps[1].duration_since(stamps[0]) >= Duration::from_millis(200));
}

#[test]
fn scenario_closed_without_publishing_ends_the_loop() {
    let mut bus = EventBus::<u32>::new("idle".to_string(), 2).unwrap();
    bus.close();
    assert!(bus.is_closed());
    assert!(bus.handle());
    assert_eq!(0, bus.published());
    assert_eq!(0, bus.handled());
}

#[test]
fn open_bus_loop_reports_that_it_may_go_on() {
    let mut bus = EventBus::<u32>::new("open".to_string(), 2).unwrap();
    assert!(!bus.handle());
    assert_eq!(Ok(()), bus.publish(Event::new(5)));
    assert!(!bus.handle());
}

#[test]
fn publish_after_close_is_bus_closed() {
    let mut bus = EventBus::new("t".to_string(), 1).unwrap();
    let log = Arc::new(Mutex::new(Vec::new()));
    bus.subscribe(Tagger { tag: 0, log: log.clone() });
    assert_eq!(Ok(()), bus.publish(Event::new(1u32)));
    bus.close();
    assert_eq!(Err(BusError::BusClosed), bus.publish(Event::new(2u32)));
    assert_eq!(1, bus.published());
    assert_eq!(1, bus.pending());
    assert!(bus.handle());
    assert_eq!(vec![(0, 1)], *log.lock().unwrap());
    assert_eq!(1, bus.handled());
}

#[test]
fn publishing_without_subscribers_is_handled() {
    let mut bus = EventBus::new("lonely".to_string(), 1).unwrap();
    assert_eq!(Ok(()), bus.publish(Event::new(1u32)));
    assert_eq!(Ok(()), bus.publish(Event::new(2u32)));
    bus.handle();
    assert_eq!(2, bus.handled());
    assert_eq!(2, bus.published());
}

#[test]
fn late_subscriber_receives_only_later_events() {
    let mut bus = EventBus::new("t".to_string(), 2).unwrap();
    let log = Arc::new(Mutex::new(Vec::new()));
    bus.subscribe(Tagger { tag: 0, log: log.clone() });
    assert_eq!(Ok(()), bus.publish(Event::new(1u32)));
    bus.handle();
    bus.subscribe(Tagger { tag: 1, log: log.clone() });
    assert_eq!(Ok(()), bus.publish(Event::new(2u32)));
    bus.handle();
    assert_eq!(vec![(0, 1), (0, 2), (1, 2)], *log.lock().unwrap());
}

#[test]
fn every_subscriber_receives_each_event_before_the_next() {
    let mut bus = EventBus::new("t".to_string(), 1).unwrap();
    let log = Arc::new(Mutex::new(Vec::new()));
    bus.subscribe(Tagger { tag: 0, log: log.clone() });
    bus.subscribe(Tagger { tag: 1, log: log.clone() });
    for i in 0..3u32 {
        assert_eq!(Ok(()), bus.publish(Event::new(i)));
    }
    bus.handle();
    assert_eq!(
        vec![(0, 0), (1, 0), (0, 1), (1, 1), (0, 2), (1, 2)],
        *log.lock().unwrap()
    );
    assert_eq!(3, bus.handled());
}
