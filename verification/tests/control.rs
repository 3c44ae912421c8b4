use laundry_scraper::config::ApiConfig;
use laundry_scraper::endpoint::RoomMachinesEndpoint;
use laundry_scraper::router::{
    db_controller, engine_start, engine_step, http_controller, EngineAction, EngineEvent,
    EnginePhase, EngineSignal, RouterAction, RouterEvent, RouterState,
};
use laundry_scraper::scrape::{
    get_minute_dur_offset, http_endpoints, scrape_start, scrape_task, PollPolicy, ScrapeAction,
    ScrapeEvent, ScrapeState, ScrapeStep, BASE_INTERVAL, MAX_OFFSET, MIN_OFFSET,
};

fn step(state: ScrapeState, action: ScrapeAction) -> Option<ScrapeStep> {
    Some(ScrapeStep { state, action })
}

#[test]
fn policy_constants() {
    assert_eq!(BASE_INTERVAL, 60);
    assert_eq!(MIN_OFFSET, -9);
    assert_eq!(MAX_OFFSET, 9);
    let p = PollPolicy::symmetric();
    assert_eq!((p.base_secs, p.min_offset, p.max_offset), (60, -9, 9));
    let p = PollPolicy::one_sided();
    assert_eq!((p.base_secs, p.min_offset, p.max_offset), (60, 0, 9));
}

#[test]
fn delay_is_base_plus_offset() {
    let p = PollPolicy::symmetric();
    assert_eq!(p.delay_for(-9), 51);
    assert_eq!(p.delay_for(-1), 59);
    assert_eq!(p.delay_for(0), 60);
    assert_eq!(p.delay_for(9), 69);
    let p = PollPolicy::one_sided();
    assert_eq!(p.delay_for(0), 60);
    assert_eq!(p.delay_for(4), 64);
}

#[test]
fn policy_of_ones_own() {
    let p = PollPolicy::new(10, -10, 5).unwrap();
    assert_eq!(p.delay_for(-10), 0);
    assert_eq!(p.delay_for(5), 15);
    assert!(PollPolicy::new(10, -11, 5).is_none());
    assert!(PollPolicy::new(10, 5, 4).is_none());
    assert!(PollPolicy::new(u64::MAX, 0, 1).is_none());
    assert!(PollPolicy::new(u64::MAX, -1, 0).is_some());
    assert!(PollPolicy::new(0, i64::MIN, 0).is_none());
    let p = PollPolicy::new(1 << 63, i64::MIN, i64::MAX).unwrap();
    assert_eq!(p.delay_for(i64::MIN), 0);
    assert_eq!(p.delay_for(i64::MAX), u64::MAX);
    let p = PollPolicy::new(3, 7, 7).unwrap();
    assert_eq!(p.next_delay(), 10);
}

#[test]
fn jitter_stays_in_its_range() {
    let mut seen = std::collections::BTreeSet::new();
    for _ in 0..2000 {
        let d = get_minute_dur_offset();
        assert!((51..=69).contains(&d));
        seen.insert(d);
    }
    assert!(seen.len() > 1);
    let p = PollPolicy::one_sided();
    for _ in 0..2000 {
        let d = p.next_delay();
        assert!((60..=69).contains(&d));
    }
}

#[test]
fn task_starts_asleep() {
    assert_eq!(
        scrape_start(),
        ScrapeStep { state: ScrapeState::Sleeping, action: ScrapeAction::Sleep }
    );
}

#[test]
fn task_cycle() {
    for emit in [true, false] {
        assert_eq!(
            scrape_task(ScrapeState::Sleeping, ScrapeEvent::Woke, emit),
            step(ScrapeState::Fetching, ScrapeAction::Fetch)
        );
        for status in [200u16, 204, 299] {
            assert_eq!(
                scrape_task(ScrapeState::Fetching, ScrapeEvent::Response(status), emit),
                step(ScrapeState::Sending, ScrapeAction::EmitSuccess)
            );
        }
        assert_eq!(
            scrape_task(ScrapeState::Sending, ScrapeEvent::Sent, emit),
            step(ScrapeState::Sleeping, ScrapeAction::Sleep)
        );
    }
}

#[test]
fn task_failures() {
    for status in [0u16, 100, 199, 300, 301, 404, 500, 599, 65535] {
        assert_eq!(
            scrape_task(ScrapeState::Fetching, ScrapeEvent::Response(status), true),
            step(ScrapeState::Sending, ScrapeAction::EmitFailure)
        );
        assert_eq!(
            scrape_task(ScrapeState::Fetching, ScrapeEvent::Response(status), false),
            step(ScrapeState::Sleeping, ScrapeAction::Sleep)
        );
    }
    assert_eq!(
        scrape_task(ScrapeState::Fetching, ScrapeEvent::TransportError, true),
        step(ScrapeState::Sending, ScrapeAction::EmitFailure)
    );
    assert_eq!(
        scrape_task(ScrapeState::Fetching, ScrapeEvent::TransportError, false),
        step(ScrapeState::Sleeping, ScrapeAction::Sleep)
    );
}

#[test]
fn task_stops_on_cancellation_while_asleep() {
    for emit in [true, false] {
        assert_eq!(
            scrape_task(ScrapeState::Sleeping, ScrapeEvent::Cancelled, emit),
            step(ScrapeState::Stopped, ScrapeAction::Stop)
        );
    }
}

#[test]
fn task_stops_when_the_receiver_is_gone() {
    assert_eq!(
        scrape_task(ScrapeState::Sending, ScrapeEvent::ReceiverDropped, true),
        step(ScrapeState::Stopped, ScrapeAction::Stop)
    );
}

#[test]
fn task_meets_no_event_out_of_turn() {
    let events = [
        ScrapeEvent::Cancelled,
        ScrapeEvent::Woke,
        ScrapeEvent::Response(200),
        ScrapeEvent::TransportError,
        ScrapeEvent::Sent,
        ScrapeEvent::ReceiverDropped,
    ];
    for e in events {
        assert_eq!(scrape_task(ScrapeState::Stopped, e, true), None);
    }
    assert_eq!(scrape_task(ScrapeState::Fetching, ScrapeEvent::Cancelled, true), None);
    assert_eq!(scrape_task(ScrapeState::Sending, ScrapeEvent::Cancelled, true), None);
    assert_eq!(scrape_task(ScrapeState::Sleeping, ScrapeEvent::Sent, true), None);
    assert_eq!(scrape_task(ScrapeState::Sleeping, ScrapeEvent::Response(200), true), None);
    assert_eq!(scrape_task(ScrapeState::Fetching, ScrapeEvent::Woke, true), None);
    assert_eq!(scrape_task(ScrapeState::Sending, ScrapeEvent::Woke, true), None);
}

#[test]
fn one_task_for_each_endpoint() {
    let mut c = ApiConfig::with_defaults(vec![
        RoomMachinesEndpoint::new("L1", "R1"),
        RoomMachinesEndpoint::new("L1", "R2"),
        RoomMachinesEndpoint::new("L2", "R1"),
    ]);
    c.port = 8443;
    let targets = http_endpoints(&c);
    assert_eq!(targets.len(), 3);
    assert_eq!(targets[0].endpoint.location_id, "L1");
    assert_eq!(targets[0].endpoint.room_id, "R1");
    assert_eq!(targets[0].url, "https://mycscgo.com:8443/api/v1/location/L1/room/R1/machines");
    assert_eq!(targets[1].url, "https://mycscgo.com:8443/api/v1/location/L1/room/R2/machines");
    assert_eq!(targets[2].endpoint.location_id, "L2");
    assert_eq!(targets[2].url, "https://mycscgo.com:8443/api/v1/location/L2/room/R1/machines");
    assert_eq!(http_endpoints(&ApiConfig::with_defaults(vec![])).len(), 0);
}

#[test]
fn router_answers_a_request_once() {
    let c = ApiConfig::with_defaults(vec![]);
    let request = RouterEvent::MetadataRequest("L1".to_string());
    let s = http_controller(&c, RouterState::Waiting, &request).unwrap();
    assert_eq!(s.state, RouterState::Fetching);
    match s.action {
        RouterAction::Fetch(url) => {
            assert_eq!(url, "https://mycscgo.com:443/api/v1/location/L1")
        }
        other => panic!("{:?}", other),
    }
    let s = http_controller(&c, RouterState::Fetching, &RouterEvent::Fetched).unwrap();
    assert_eq!(s.state, RouterState::Waiting);
    assert!(matches!(s.action, RouterAction::Reply));
    assert!(http_controller(&c, RouterState::Waiting, &RouterEvent::Fetched).is_none());
}

#[test]
fn router_brings_a_fetch_to_its_reply() {
    let c = ApiConfig::with_defaults(vec![]);
    assert!(http_controller(&c, RouterState::Fetching, &RouterEvent::Cancelled).is_none());
    assert!(http_controller(&c, RouterState::Fetching, &RouterEvent::ChannelClosed).is_none());
    assert!(http_controller(&c, RouterState::Fetching, &RouterEvent::ScrapeResult).is_none());
    let again = RouterEvent::MetadataRequest("L2".to_string());
    assert!(http_controller(&c, RouterState::Fetching, &again).is_none());
}

#[test]
fn router_forwards_and_stops() {
    let c = ApiConfig::with_defaults(vec![]);
    let s = http_controller(&c, RouterState::Waiting, &RouterEvent::ScrapeResult).unwrap();
    assert_eq!(s.state, RouterState::Waiting);
    assert!(matches!(s.action, RouterAction::Forward));
    let s = http_controller(&c, RouterState::Waiting, &RouterEvent::Cancelled).unwrap();
    assert_eq!(s.state, RouterState::Stopped);
    assert!(matches!(s.action, RouterAction::Stop));
    let s = http_controller(&c, RouterState::Waiting, &RouterEvent::ChannelClosed).unwrap();
    assert_eq!(s.state, RouterState::Stopped);
    assert!(matches!(s.action, RouterAction::Stop));
    assert!(http_controller(&c, RouterState::Stopped, &RouterEvent::Cancelled).is_none());
    assert!(http_controller(&c, RouterState::Stopped, &RouterEvent::ScrapeResult).is_none());
}

#[test]
fn engine_steady_state() {
    assert_eq!(db_controller(EngineEvent::Cancelled), EngineAction::Stop);
    assert_eq!(db_controller(EngineEvent::ChannelClosed), EngineAction::Stop);
    assert_eq!(db_controller(EngineEvent::ScrapeSuccess), EngineAction::Accept);
    assert_eq!(db_controller(EngineEvent::ScrapeFailure), EngineAction::LogFailure);
}

#[test]
fn one_send_for_each_request_of_a_task() {
    let events = [
        ScrapeEvent::Woke,
        ScrapeEvent::Response(200),
        ScrapeEvent::Sent,
        ScrapeEvent::Woke,
        ScrapeEvent::TransportError,
        ScrapeEvent::Sent,
        ScrapeEvent::Woke,
        ScrapeEvent::Response(503),
        ScrapeEvent::Sent,
        ScrapeEvent::Cancelled,
    ];
    let mut state = scrape_start().state;
    let (mut fetches, mut sends) = (0, 0);
    for event in events {
        let next = scrape_task(state, event, true).unwrap();
        match next.action {
            ScrapeAction::Fetch => fetches += 1,
            ScrapeAction::EmitSuccess | ScrapeAction::EmitFailure => sends += 1,
            _ => {}
        }
        state = next.state;
    }
    assert_eq!(state, ScrapeState::Stopped);
    assert_eq!((fetches, sends), (3, 3));
}

#[test]
fn one_reply_for_each_request_of_the_router() {
    let c = ApiConfig::with_defaults(vec![]);
    let events = vec![
        RouterEvent::ScrapeResult,
        RouterEvent::MetadataRequest("L1".to_string()),
        RouterEvent::Fetched,
        RouterEvent::MetadataRequest("L2".to_string()),
        RouterEvent::Fetched,
        RouterEvent::ScrapeResult,
        RouterEvent::ChannelClosed,
    ];
    let mut state = RouterState::Waiting;
    let (mut fetches, mut replies, mut forwards) = (0, 0, 0);
    for event in &events {
        let next = http_controller(&c, state, event).unwrap();
        match next.action {
            RouterAction::Fetch(_) => fetches += 1,
            RouterAction::Reply => replies += 1,
            RouterAction::Forward => forwards += 1,
            RouterAction::Stop => {}
        }
        state = next.state;
    }
    assert_eq!(state, RouterState::Stopped);
    assert_eq!((fetches, replies, forwards), (2, 2, 2));
}

const ENGINE_EVENTS: [EngineEvent; 4] = [
    EngineEvent::Cancelled,
    EngineEvent::ChannelClosed,
    EngineEvent::ScrapeSuccess,
    EngineEvent::ScrapeFailure,
];

#[test]
fn engine_starts_in_the_startup_pass() {
    assert_eq!(engine_start(), EnginePhase::Precheck);
}

#[test]
fn engine_leaves_the_startup_pass_only_by_its_end() {
    assert_eq!(
        engine_step(EnginePhase::Precheck, EngineSignal::PrecheckEnded),
        Some((EnginePhase::Steady, EngineAction::Listen))
    );
    for event in ENGINE_EVENTS {
        assert_eq!(engine_step(EnginePhase::Precheck, EngineSignal::Event(event)), None);
    }
}

#[test]
fn engine_never_goes_back_into_the_startup_pass() {
    assert_eq!(engine_step(EnginePhase::Steady, EngineSignal::PrecheckEnded), None);
    assert_eq!(engine_step(EnginePhase::Stopped, EngineSignal::PrecheckEnded), None);
    for phase in [EnginePhase::Precheck, EnginePhase::Steady, EnginePhase::Stopped] {
        let mut signals = vec![EngineSignal::PrecheckEnded];
        signals.extend(ENGINE_EVENTS.iter().map(|e| EngineSignal::Event(*e)));
        for signal in signals {
            if let Some((next, _)) = engine_step(phase, signal) {
                assert_ne!(next, EnginePhase::Precheck);
            }
        }
    }
}

#[test]
fn engine_in_the_steady_state() {
    let steady = EnginePhase::Steady;
    assert_eq!(
        engine_step(steady, EngineSignal::Event(EngineEvent::ScrapeSuccess)),
        Some((EnginePhase::Steady, EngineAction::Accept))
    );
    assert_eq!(
        engine_step(steady, EngineSignal::Event(EngineEvent::ScrapeFailure)),
        Some((EnginePhase::Steady, EngineAction::LogFailure))
    );
    assert_eq!(
        engine_step(steady, EngineSignal::Event(EngineEvent::Cancelled)),
        Some((EnginePhase::Stopped, EngineAction::Stop))
    );
    assert_eq!(
        engine_step(steady, EngineSignal::Event(EngineEvent::ChannelClosed)),
        Some((EnginePhase::Stopped, EngineAction::Stop))
    );
}

#[test]
fn engine_once_stopped_meets_nothing() {
    assert_eq!(engine_step(EnginePhase::Stopped, EngineSignal::PrecheckEnded), None);
    for event in ENGINE_EVENTS {
        assert_eq!(engine_step(EnginePhase::Stopped, EngineSignal::Event(event)), None);
    }
}

#[test]
fn engine_runs_the_startup_pass_first_and_once() {
    let signals = [
        EngineSignal::PrecheckEnded,
        EngineSignal::Event(EngineEvent::ScrapeSuccess),
        EngineSignal::Event(EngineEvent::ScrapeFailure),
        EngineSignal::Event(EngineEvent::ScrapeSuccess),
        EngineSignal::Event(EngineEvent::Cancelled),
    ];
    let mut phase = engine_start();
    let mut actions = vec![];
    for signal in signals {
        let (next, action) = engine_step(phase, signal).unwrap();
        phase = next;
        actions.push(action);
    }
    assert_eq!(phase, EnginePhase::Stopped);
    assert_eq!(
        actions,
        vec![
            EngineAction::Listen,
            EngineAction::Accept,
            EngineAction::LogFailure,
            EngineAction::Accept,
            EngineAction::Stop
        ]
    );
    // scrape results that wait on the channel are not taken before the pass has ended
    let early = EngineSignal::Event(EngineEvent::ScrapeSuccess);
    assert_eq!(engine_step(engine_start(), early), None);
}
