use rsi_service::session::{session_step, Phase, SessionAction, SessionEvent};

#[test]
fn delivered_item_is_written_then_receiving_resumes() {
    let mut p = Phase::Receiving;
    match session_step(&mut p, SessionEvent::Delivered("{\"rsi\":100.0}".to_string())) {
        SessionAction::Write(f) => assert_eq!(f, "{\"rsi\":100.0}"),
        _ => panic!("the frame must be written"),
    }
    assert_eq!(p, Phase::Writing);
    assert!(matches!(session_step(&mut p, SessionEvent::Written), SessionAction::Receive));
    assert_eq!(p, Phase::Receiving);
}

#[test]
fn missed_items_are_skipped() {
    let mut p = Phase::Receiving;
    assert!(matches!(session_step(&mut p, SessionEvent::Missed(3)), SessionAction::Receive));
    assert_eq!(p, Phase::Receiving);
}

#[test]
fn closed_hub_ends_the_session() {
    let mut p = Phase::Receiving;
    assert!(matches!(session_step(&mut p, SessionEvent::HubClosed), SessionAction::Stop));
    assert_eq!(p, Phase::Finished);
}

#[test]
fn failed_write_ends_the_session() {
    let mut p = Phase::Writing;
    assert!(matches!(session_step(&mut p, SessionEvent::WriteFailed), SessionAction::Stop));
    assert_eq!(p, Phase::Finished);
}

#[test]
fn finished_session_stays_finished() {
    let mut p = Phase::Finished;
    let ev = SessionEvent::Delivered("x".to_string());
    assert!(matches!(session_step(&mut p, ev), SessionAction::Stop));
    assert_eq!(p, Phase::Finished);
}

#[test]
fn out_of_place_event_ends_the_session() {
    let mut p = Phase::Writing;
    let ev = SessionEvent::Delivered("x".to_string());
    assert!(matches!(session_step(&mut p, ev), SessionAction::Stop));
    assert_eq!(p, Phase::Finished);
}
