use rbuilder_constraints::constraint_input::constraints_poller::{
    current_and_next, get_current_slot, get_slots_to_poll, is_kept, slot_at, slot_at_time,
    ConstraintsPoller, PollAction, PollEvent, PollWarning,
};
use rbuilder_constraints::constraint_input::messages::{
    Constraint, ConstraintsMessage, SignedConstraints,
};
use rbuilder_constraints::constraint_input::server_url::{
    address_of, server_address, ServerUrlError, UrlParts, DEFAULT_CONSTRAINT_SERVER_URL,
};

fn answer(slot: u64) -> PollEvent {
    PollEvent::Answered(vec![SignedConstraints {
        message: ConstraintsMessage { slot, constraints: vec![Constraint { payload: vec![7] }] },
    }])
}

fn woken(current_slot: u64) -> PollEvent {
    PollEvent::Woken { current_slot }
}

#[test]
fn slot_follows_the_clock() {
    assert_eq!(slot_at(1000, 1000), 0);
    assert_eq!(slot_at(1000, 1011), 0);
    assert_eq!(slot_at(1000, 1012), 1);
    assert_eq!(slot_at(0, u64::MAX), u64::MAX / 12);
    assert_eq!(slot_at_time(1000, Some(1036)), Some(3));
    assert_eq!(slot_at_time(1000, Some(999)), None);
    assert_eq!(slot_at_time(1000, None), None);
    assert_eq!(current_and_next(Some(3)), Some((3, 4)));
    assert_eq!(current_and_next(None), None);
}

#[test]
fn current_slot_follows_the_system_time() {
    let now = std::time::SystemTime::now()
        .duration_since(std::time::UNIX_EPOCH)
        .unwrap()
        .as_secs();
    let slot = get_current_slot(0).unwrap();
    assert!(slot >= now / 12 && slot <= now / 12 + 2);
    let (current, next) = get_slots_to_poll(0).unwrap();
    assert!(current >= slot && next == current + 1);
    assert_eq!(get_current_slot(u64::MAX), None);
    assert_eq!(get_slots_to_poll(u64::MAX), None);
}

#[test]
fn both_slots_are_polled() {
    let mut poller = ConstraintsPoller::new();
    let (action, warning) = poller.advance(woken(50)).unwrap();
    assert!(matches!(action, PollAction::Request { slot: 50 }));
    assert_eq!(warning, None);
    let (action, _) = poller.advance(answer(50)).unwrap();
    assert!(matches!(
        action,
        PollAction::Forward { message } if message.slot == 50 && message.constraints.len() == 1
    ));
    let (action, warning) = poller.advance(PollEvent::Handed { ok: true }).unwrap();
    assert!(matches!(action, PollAction::Request { slot: 51 }));
    assert_eq!(warning, None);
    let (action, warning) = poller.advance(PollEvent::Answered(vec![])).unwrap();
    assert!(matches!(action, PollAction::Sleep { millis: 200 }));
    assert_eq!(warning, None);
}

#[test]
fn polled_slot_is_not_polled_again() {
    let mut poller = ConstraintsPoller::default();
    poller.advance(woken(50));
    poller.advance(answer(50));
    let (_, warning) = poller.advance(PollEvent::Handed { ok: false }).unwrap();
    assert_eq!(warning, Some(PollWarning::NotHanded { slot: 50 }));
    let (action, warning) = poller.advance(PollEvent::RequestFailed).unwrap();
    assert!(matches!(action, PollAction::Sleep { millis: 200 }));
    assert_eq!(warning, None);
    let (action, _) = poller.advance(woken(50)).unwrap();
    assert!(matches!(action, PollAction::Request { slot: 51 }));
    poller.advance(answer(51));
    poller.advance(PollEvent::Handed { ok: true });
    let (action, _) = poller.advance(woken(50)).unwrap();
    assert!(matches!(action, PollAction::Sleep { millis: 500 }));
}

#[test]
fn constraints_for_another_slot_are_not_handed_on() {
    let mut poller = ConstraintsPoller::new();
    poller.advance(woken(50));
    let (action, warning) = poller.advance(answer(60)).unwrap();
    assert!(matches!(action, PollAction::Request { slot: 51 }));
    assert_eq!(
        warning,
        Some(PollWarning::SlotMismatch {
            requested_slot: 50,
            returned_slot: 60,
            constraint_count: 1
        })
    );
    let (action, _) = poller.advance(PollEvent::Answered(vec![])).unwrap();
    assert!(matches!(action, PollAction::Sleep { millis: 500 }));
    let (action, _) = poller.advance(woken(50)).unwrap();
    assert!(matches!(action, PollAction::Request { slot: 51 }));
}

#[test]
fn only_the_current_slot_is_worth_a_warning() {
    let mut poller = ConstraintsPoller::new();
    poller.advance(woken(50));
    let (_, warning) = poller.advance(PollEvent::Answered(vec![])).unwrap();
    assert_eq!(warning, Some(PollWarning::NoConstraints { slot: 50 }));
    poller.advance(PollEvent::Answered(vec![]));
    poller.advance(woken(50));
    let (_, warning) = poller.advance(PollEvent::RequestFailed).unwrap();
    assert_eq!(warning, Some(PollWarning::RequestFailed { slot: 50 }));
}

#[test]
fn slots_are_forgotten_once_long_past() {
    let mut poller = ConstraintsPoller::new();
    for slot in [50u64, 51] {
        poller.advance(woken(50));
        poller.advance(answer(slot));
        poller.advance(PollEvent::Handed { ok: true });
        if slot == 50 {
            poller.advance(PollEvent::Answered(vec![]));
        }
    }
    // Within the interval nothing is forgotten; after it, slots up to two back stay.
    poller.advance(woken(55));
    poller.advance(PollEvent::RequestFailed);
    poller.advance(PollEvent::RequestFailed);
    assert!(matches!(poller.advance(woken(50)).unwrap().0, PollAction::Sleep { millis: 500 }));
    poller.advance(woken(56));
    poller.advance(PollEvent::RequestFailed);
    poller.advance(PollEvent::RequestFailed);
    assert!(matches!(
        poller.advance(woken(50)).unwrap().0,
        PollAction::Request { slot: 50 }
    ));
    assert!(is_kept(54, 54) && !is_kept(53, 54));
}

#[test]
fn answered_slot_is_polled_once_while_the_clock_runs_on() {
    let mut poller = ConstraintsPoller::new();
    let mut requested = vec![];
    let mut forwarded = vec![];
    for current_slot in 40u64..80 {
        let mut event = woken(current_slot);
        loop {
            event = match poller.advance(event).unwrap().0 {
                PollAction::Request { slot } => {
                    requested.push(slot);
                    // Every third slot is answered with constraints for another one.
                    answer(if slot % 3 == 0 { slot + 1 } else { slot })
                }
                PollAction::Forward { message } => {
                    forwarded.push(message.slot);
                    PollEvent::Handed { ok: false }
                }
                PollAction::Sleep { .. } => break,
            };
        }
    }
    assert_eq!(requested, (40u64..81).collect::<Vec<u64>>());
    assert_eq!(forwarded, (40u64..81).filter(|slot| slot % 3 != 0).collect::<Vec<u64>>());
}

#[test]
fn event_out_of_place_changes_nothing() {
    let mut poller = ConstraintsPoller::new();
    assert!(poller.advance(PollEvent::RequestFailed).is_none());
    poller.advance(woken(50));
    assert!(poller.advance(woken(60)).is_none());
    assert!(poller.advance(PollEvent::Handed { ok: true }).is_none());
    assert!(matches!(poller.advance(answer(50)).unwrap().0, PollAction::Forward { .. }));
}

#[test]
fn server_url_gives_host_and_port() {
    let address = server_address(DEFAULT_CONSTRAINT_SERVER_URL).unwrap();
    assert_eq!(address, ("127.0.0.1".to_string(), 8547));
    assert_eq!(
        server_address("https://relay.example:9000/x").unwrap(),
        ("relay.example".to_string(), 9000)
    );
    assert!(matches!(server_address("not a url"), Err(ServerUrlError::Parse(_))));
    assert!(matches!(server_address("data:text/plain,x"), Err(ServerUrlError::MissingHost)));
    assert!(matches!(server_address("http://relay.example"), Err(ServerUrlError::MissingPort)));
    assert!(matches!(server_address("http://relay.example:80"), Err(ServerUrlError::MissingPort)));
    let parts = UrlParts { host: Some("h".to_string()), port: Some(1) };
    assert_eq!(address_of(Ok(parts)).unwrap(), ("h".to_string(), 1));
}
