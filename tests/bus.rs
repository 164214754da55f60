use engine_core::bus::{Bus, Delivery};
use engine_core::state::State;
use engine_core::types::{CVarValue, LogLevel, Message};
use engine_core::window::record_window_size;

fn names(plan: &[Delivery]) -> Vec<(usize, Message)> {
    plan.iter().map(|d| (d.subscriber, d.event.clone())).collect()
}

#[test]
fn every_subscriber_gets_every_event_in_post_order() {
    let mut bus: Bus<&str> = Bus::new();
    bus.subscribe("a");
    bus.subscribe("b");
    bus.subscribe("c");
    let events = vec![
        Message::MouseMoved(1, 2),
        Message::KeyPressed(65, 30),
        Message::LoadStaticModel { path: "cube.obj".to_string() },
    ];
    for e in &events {
        bus.post(e.clone());
    }
    let plan = bus.dispatch();
    assert_eq!(plan.len(), 9);
    for sub in 0..3usize {
        let got: Vec<Message> =
            plan.iter().filter(|d| d.subscriber == sub).map(|d| d.event.clone()).collect();
        assert_eq!(got, events);
    }
    assert_eq!(plan[4], Delivery { subscriber: 1, event: Message::KeyPressed(65, 30) });
    assert!(bus.queue().is_empty());
}

#[test]
fn dispatch_on_empty_queue_is_a_no_op() {
    let mut bus: Bus<u8> = Bus::new();
    bus.subscribe(7);
    let plan = bus.dispatch();
    assert!(plan.is_empty());
    assert!(bus.queue().is_empty());
    assert_eq!(bus.subscriber_count(), 1);
    assert!(bus.dispatch().is_empty());
}

#[test]
fn earlier_subscriber_is_invoked_first() {
    let mut bus: Bus<&str> = Bus::new();
    bus.subscribe("A");
    bus.subscribe("B");
    bus.post(Message::WindowResized(1, 1));
    let plan = bus.dispatch();
    let order: Vec<&str> = plan.iter().map(|d| *bus.subscriber(d.subscriber)).collect();
    assert_eq!(order, vec!["A", "B"]);
}

#[test]
fn events_posted_during_delivery_wait_for_next_dispatch() {
    let mut bus: Bus<u8> = Bus::new();
    bus.subscribe(0);
    bus.post(Message::KeyReleased(1, 2));
    let plan = bus.dispatch();
    assert_eq!(plan.len(), 1);
    bus.post(Message::Log { level: LogLevel::Info, message: "later".to_string() });
    assert_eq!(bus.queue().len(), 1);
    let next = bus.dispatch();
    assert_eq!(
        names(&next),
        vec![(0, Message::Log { level: LogLevel::Info, message: "later".to_string() })]
    );
}

#[test]
fn post_without_subscribers_delivers_nothing() {
    let mut bus: Bus<u8> = Bus::new();
    bus.post(Message::MouseMoved(3, 4));
    assert_eq!(bus.queue().len(), 1);
    assert!(bus.dispatch().is_empty());
    assert!(bus.queue().is_empty());
}

#[test]
fn resize_scenario_updates_registry() {
    let mut state = State::new();
    state.register("window_width", CVarValue::Int(800));
    state.register("window_height", CVarValue::Int(600));
    let mut bus: Bus<fn(&mut State, &Message, &mut Vec<(u32, u32)>)> = Bus::new();
    bus.subscribe(|state, event, seen| {
        if let Message::WindowResized(w, h) = event {
            seen.push((*w, *h));
            record_window_size(state, event);
        }
    });
    bus.post(Message::WindowResized(1024, 768));
    let mut seen = Vec::new();
    for d in bus.dispatch() {
        (bus.subscriber(d.subscriber))(&mut state, &d.event, &mut seen);
    }
    assert_eq!(seen, vec![(1024, 768)]);
    assert_eq!(state.get("window_width"), &CVarValue::Int(1024));
    assert_eq!(state.get("window_height"), &CVarValue::Int(768));
}

#[test]
fn duplicate_equals_original() {
    let m = Message::Log { level: LogLevel::Warn, message: "w".to_string() };
    assert_eq!(m.duplicate(), m);
    let m = Message::StaticModelReady { id: 42 };
    assert_eq!(m.duplicate(), m);
}
