//! The delivery-path tests: bus ordering, overrun, handle release, and the
//! end-to-end session scenarios.

use starbus::bus::{BusPoll, EventBus};
use starbus::context::Context;
use starbus::database::DatabasePool;
use starbus::executor::ExecutionResult;
use starbus::frames::execution_result_json;
use starbus::models::{Episode, Human, NewHuman};
use starbus::schema::Mutation;
use starbus::session::{keepalive_ticks, OutboundFrame, Session};

fn human(name: &str, tags: Vec<Episode>, planet: &str) -> Human {
    Human {
        id: format!("id-{}", name),
        name: name.to_string(),
        appears_in: tags,
        home_planet: planet.to_string(),
    }
}

fn expect_event(bus: &mut EventBus, h: &starbus::bus::BusHandle) -> Human {
    match bus.next(h) {
        BusPoll::Event(e) => e,
        BusPoll::Overrun => panic!("unexpected overrun"),
        BusPoll::Pending => panic!("unexpected pending"),
        BusPoll::Closed => panic!("unexpected closed"),
    }
}

#[test]
fn subscriber_sees_publishes_in_order() {
    // A run of publishes no longer than the retention capacity arrives
    // whole and in publish order.
    let mut bus = EventBus::new(100);
    let h = bus.subscribe();
    for k in 0..5 {
        let name = format!("human-{}", k);
        bus.publish(human(&name, vec![Episode::NewHope], "Tatooine"));
    }
    for k in 0..5 {
        let e = expect_event(&mut bus, &h);
        assert_eq!(e.name, format!("human-{}", k));
    }
    assert!(matches!(bus.next(&h), BusPoll::Pending));
}

#[test]
fn late_subscriber_sees_no_replay() {
    // A handle attached after a publish never observes that publish.
    let mut bus = EventBus::new(100);
    bus.publish(human("early", vec![Episode::Empire], "Hoth"));
    let h = bus.subscribe();
    assert!(matches!(bus.next(&h), BusPoll::Pending));
    bus.publish(human("late", vec![Episode::Jedi], "Endor"));
    let e = expect_event(&mut bus, &h);
    assert_eq!(e.name, "late");
    assert!(matches!(bus.next(&h), BusPoll::Pending));
}

#[test]
fn lagged_subscriber_sees_one_overrun_then_resumes() {
    // A reader that falls more than the retention capacity behind observes
    // exactly one overrun, then resumes with the oldest retained event.
    let mut bus = EventBus::new(2);
    let h = bus.subscribe();
    for k in 0..5 {
        let name = format!("human-{}", k);
        bus.publish(human(&name, vec![Episode::NewHope], "Tatooine"));
    }
    assert!(matches!(bus.next(&h), BusPoll::Overrun));
    let e = expect_event(&mut bus, &h);
    assert_eq!(e.name, "human-3");
    let e = expect_event(&mut bus, &h);
    assert_eq!(e.name, "human-4");
    assert!(matches!(bus.next(&h), BusPoll::Pending));
}

#[test]
fn closing_session_releases_its_handle() {
    // Closing a session gives its bus handle back: the subscriber count
    // returns to the baseline and later publishes owe it nothing.
    let mut bus = EventBus::new(100);
    let baseline = bus.subscriber_count();
    assert_eq!(baseline, 0);

    let mut session = Session::new();
    assert!(session.accept(Some("websocket"), Some("Upgrade")));
    let req = session.on_text_frame(&mut bus, "{\"query\":\"subscription { humanCreated { id } }\"}");
    assert!(req.is_some());
    assert_eq!(bus.subscriber_count(), 1);

    session.close(&mut bus);
    assert_eq!(bus.subscriber_count(), baseline);

    let notified = bus.publish(human("after-close", vec![Episode::Jedi], "Endor"));
    assert_eq!(notified, 0);
    assert_eq!(bus.subscriber_count(), baseline);
}

#[test]
fn mutation_fans_out_to_open_subscription() {
    // Client A subscribes, client B creates a record: A's stream carries
    // exactly one result whose data is the created record.
    let mut bus = EventBus::new(100);
    let ctx = Context { db: DatabasePool };

    let mut session_a = Session::new();
    assert!(session_a.accept(Some("WebSocket"), Some("keep-alive, Upgrade")));
    let req = session_a.on_text_frame(
        &mut bus,
        "{\"query\":\"subscription { humanCreated { id name } }\"}",
    );
    assert!(req.is_some());

    let new_human = NewHuman {
        name: "Han Solo".to_string(),
        appears_in: vec![Episode::NewHope, Episode::Empire, Episode::Jedi],
        home_planet: "Corellia".to_string(),
    };
    let created = Mutation::create_human(new_human, &ctx, &mut bus);
    assert!(created.is_ok());

    let result = session_a.poll_outbound(&mut bus);
    let result = result.expect("one result should be ready");
    let frame = execution_result_json(&result);
    assert_eq!(
        frame,
        "{\"data\":{\"id\":\"generated-id\",\"name\":\"Han Solo\",\
         \"appears_in\":[\"NEW_HOPE\",\"EMPIRE\",\"JEDI\"],\
         \"home_planet\":\"Corellia\"}}"
    );
    assert!(session_a.poll_outbound(&mut bus).is_none());
}

#[test]
fn mutation_without_subscribers_still_succeeds() {
    // With nobody attached the publish is a no-op, and the mutation's own
    // caller still gets the created record.
    let mut bus = EventBus::new(100);
    let ctx = Context { db: DatabasePool };
    assert_eq!(bus.subscriber_count(), 0);

    let new_human = NewHuman {
        name: "Lando".to_string(),
        appears_in: vec![Episode::Empire],
        home_planet: "Socorro".to_string(),
    };
    let created = Mutation::create_human(new_human, &ctx, &mut bus);
    assert!(created.is_ok());
    let h = created.unwrap();
    assert_eq!(h.id, "generated-id");
    assert_eq!(h.name, "Lando");
    assert_eq!(bus.subscriber_count(), 0);
}

#[test]
fn idle_session_pings_twice_in_thirty_seconds() {
    // Thirty quiet seconds at the fifteen-second interval mean exactly two
    // keep-alive pings, and the session stays open.
    assert_eq!(keepalive_ticks(30), 2);

    let mut bus = EventBus::new(100);
    let mut session = Session::new();
    assert!(session.accept(Some("websocket"), Some("upgrade")));

    let mut pings = 0;
    for _ in 0..keepalive_ticks(30) {
        match session.on_tick() {
            OutboundFrame::Ping => pings += 1,
            OutboundFrame::Text(_) => panic!("a tick emits a ping"),
        }
    }
    assert_eq!(pings, 2);

    // Still open: the session keeps serving its loop.
    assert!(session.poll_outbound(&mut bus).is_none());
}

#[test]
fn malformed_frame_keeps_session_open() {
    // An invalid payload is dropped whole; the same session then accepts a
    // valid subscribe frame and streams.
    let mut bus = EventBus::new(100);
    let ctx = Context { db: DatabasePool };
    let mut session = Session::new();
    assert!(session.accept(Some("websocket"), Some("upgrade")));

    assert!(session.on_text_frame(&mut bus, "{not json at all").is_none());
    assert_eq!(bus.subscriber_count(), 0);

    let req = session.on_text_frame(&mut bus, "{\"query\":\"subscription { humanCreated { id } }\"}");
    assert!(req.is_some());
    assert_eq!(bus.subscriber_count(), 1);

    let new_human = NewHuman {
        name: "Chewbacca".to_string(),
        appears_in: vec![Episode::NewHope],
        home_planet: "Kashyyyk".to_string(),
    };
    assert!(Mutation::create_human(new_human, &ctx, &mut bus).is_ok());
    let result = session.poll_outbound(&mut bus);
    match result {
        Some(ExecutionResult::Data(h)) => assert_eq!(h.name, "Chewbacca"),
        _ => panic!("the subscription should stream after the recovery"),
    }
}

#[test]
fn resubscribe_replaces_the_first_subscription() {
    // A second subscribe frame replaces the first: the old handle is
    // released, so the subscriber count stays at one.
    let mut bus = EventBus::new(100);
    let mut session = Session::new();
    assert!(session.accept(Some("websocket"), Some("upgrade")));

    assert!(session.on_text_frame(&mut bus, "{\"query\":\"subscription { a }\"}").is_some());
    assert_eq!(bus.subscriber_count(), 1);
    assert!(session.on_text_frame(&mut bus, "{\"query\":\"subscription { b }\"}").is_some());
    assert_eq!(bus.subscriber_count(), 1);
}

#[test]
fn overrun_reaches_session_as_one_error_result() {
    // A session whose subscription lagged past retention gets one in-band
    // error result, then the stream resumes.
    let mut bus = EventBus::new(1);
    let ctx = Context { db: DatabasePool };
    let mut session = Session::new();
    assert!(session.accept(Some("websocket"), Some("upgrade")));
    assert!(session.on_text_frame(&mut bus, "{\"query\":\"subscription { humanCreated { id } }\"}").is_some());

    for name in ["first", "second", "third"] {
        let new_human = NewHuman {
            name: name.to_string(),
            appears_in: vec![Episode::NewHope],
            home_planet: "Tatooine".to_string(),
        };
        assert!(Mutation::create_human(new_human, &ctx, &mut bus).is_ok());
    }

    match session.poll_outbound(&mut bus) {
        Some(ExecutionResult::EventsMissed) => {}
        _ => panic!("the lagged subscription should see one overrun"),
    }
    match session.poll_outbound(&mut bus) {
        Some(ExecutionResult::Data(h)) => assert_eq!(h.name, "third"),
        _ => panic!("streaming should resume after the overrun"),
    }
    assert!(session.poll_outbound(&mut bus).is_none());
}

#[test]
fn closed_bus_ends_the_stream() {
    // Once the bus closes, the subscription terminates and releases its
    // handle; the session itself stays open.
    let mut bus = EventBus::new(100);
    let mut session = Session::new();
    assert!(session.accept(Some("websocket"), Some("upgrade")));
    assert!(session.on_text_frame(&mut bus, "{\"query\":\"subscription { humanCreated { id } }\"}").is_some());
    assert_eq!(bus.subscriber_count(), 1);

    bus.close();
    assert!(session.poll_outbound(&mut bus).is_none());
    assert_eq!(bus.subscriber_count(), 0);
}

#[test]
fn closed_bus_polls_closed_terminally() {
    let mut bus = EventBus::new(4);
    let h = bus.subscribe();
    bus.publish(human("before", vec![Episode::NewHope], "Tatooine"));
    bus.close();
    assert!(matches!(bus.next(&h), BusPoll::Closed));
    assert!(matches!(bus.next(&h), BusPoll::Closed));
}

#[test]
fn fan_out_reaches_every_subscriber_independently() {
    // Every handle attached before a publish sees it, each at its own pace.
    let mut bus = EventBus::new(100);
    let first = bus.subscribe();
    let second = bus.subscribe();
    let notified = bus.publish(human("solo", vec![Episode::Empire], "Corellia"));
    assert_eq!(notified, 2);

    let e = expect_event(&mut bus, &first);
    assert_eq!(e.name, "solo");
    assert!(matches!(bus.next(&first), BusPoll::Pending));

    // The second subscriber still has the event waiting.
    let e = expect_event(&mut bus, &second);
    assert_eq!(e.name, "solo");
    assert!(matches!(bus.next(&second), BusPoll::Pending));
}

#[test]
fn releasing_a_handle_shrinks_the_count() {
    let mut bus = EventBus::new(8);
    let first = bus.subscribe();
    let second = bus.subscribe();
    assert_eq!(bus.subscriber_count(), 2);
    bus.release(first);
    assert_eq!(bus.subscriber_count(), 1);
    let notified = bus.publish(human("left", vec![Episode::Jedi], "Endor"));
    assert_eq!(notified, 1);
    let e = expect_event(&mut bus, &second);
    assert_eq!(e.name, "left");
}
