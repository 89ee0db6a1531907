use vless_relay::relay::{
    setup_actions, step, CloseReason, RelayAction, RelayEvent, RelayState,
};

/// Runs a whole session over the given events, as the host loop would:
/// stop at the first event that closes the session.
fn run(events: Vec<RelayEvent>) -> (RelayState, Vec<RelayAction>) {
    let mut state = RelayState::AwaitingFirstChunk;
    let mut all: Vec<RelayAction> = Vec::new();
    for ev in events {
        if state == RelayState::Closed {
            break;
        }
        let (next, acts) = step(state, ev);
        all.extend(acts);
        state = next;
    }
    (state, all)
}

fn count_markers(acts: &[RelayAction]) -> usize {
    acts.iter()
        .filter(|a| matches!(a, RelayAction::SendMarker))
        .count()
}

fn count_closes(acts: &[RelayAction]) -> usize {
    acts.iter()
        .filter(|a| matches!(a, RelayAction::SendClose(_)))
        .count()
}

#[test]
fn marker_sent_once_for_single_read() {
    let (state, acts) = run(vec![
        RelayEvent::TargetChunk(b"response".to_vec()),
        RelayEvent::TargetEof,
    ]);
    assert_eq!(state, RelayState::Closed);
    assert_eq!(count_markers(&acts), 1);
    assert!(matches!(acts[0], RelayAction::SendMarker));
    match &acts[1] {
        RelayAction::SendTransport(b) => assert_eq!(b.as_slice(), b"response".as_slice()),
        _ => panic!("expected the first chunk after the marker"),
    }
}

#[test]
fn marker_sent_once_for_many_reads() {
    let (_, acts) = run(vec![
        RelayEvent::TargetChunk(b"a".to_vec()),
        RelayEvent::TargetChunk(b"b".to_vec()),
        RelayEvent::TargetChunk(b"c".to_vec()),
        RelayEvent::TargetEof,
    ]);
    assert_eq!(count_markers(&acts), 1);
    let sends: Vec<&RelayAction> = acts
        .iter()
        .filter(|a| matches!(a, RelayAction::SendTransport(_)))
        .collect();
    assert_eq!(sends.len(), 3);
}

#[test]
fn target_eof_closes_exactly_once_with_code_1000() {
    let (state, acts) = run(vec![
        RelayEvent::TargetChunk(b"a".to_vec()),
        RelayEvent::TargetChunk(b"b".to_vec()),
        RelayEvent::TargetEof,
        // anything after the close must contribute nothing
        RelayEvent::TargetChunk(b"late".to_vec()),
    ]);
    assert_eq!(state, RelayState::Closed);
    assert_eq!(count_closes(&acts), 1);
    match acts.last() {
        Some(RelayAction::SendClose(r)) => {
            assert_eq!(*r, CloseReason::TargetClosed);
            assert_eq!(r.code(), 1000);
            assert_eq!(r.text(), "target closed");
        }
        _ => panic!("the close must be the last action"),
    }
}

#[test]
fn transport_close_stops_all_forwarding() {
    let (state, acts) = run(vec![
        RelayEvent::TargetChunk(b"a".to_vec()),
        RelayEvent::TransportClosed,
        RelayEvent::TargetChunk(b"late".to_vec()),
        RelayEvent::TargetEof,
    ]);
    assert_eq!(state, RelayState::Closed);
    // nothing after the close event: one marker, one send, no close sent
    assert_eq!(acts.len(), 2);
    assert_eq!(count_closes(&acts), 0);
    assert_eq!(count_markers(&acts), 1);
}

#[test]
fn transport_bytes_are_written_to_target_verbatim() {
    let (state, acts) = run(vec![
        RelayEvent::TransportBinary(b"hello target".to_vec()),
        RelayEvent::TransportIgnored,
        RelayEvent::TransportBinary(b"more".to_vec()),
    ]);
    assert_eq!(state, RelayState::AwaitingFirstChunk);
    assert_eq!(acts.len(), 2);
    match &acts[0] {
        RelayAction::WriteTarget(b) => assert_eq!(b.as_slice(), b"hello target".as_slice()),
        _ => panic!("expected a target write"),
    }
    match &acts[1] {
        RelayAction::WriteTarget(b) => assert_eq!(b.as_slice(), b"more".as_slice()),
        _ => panic!("expected a target write"),
    }
    // no marker is owed for client-to-target traffic
    assert_eq!(count_markers(&acts), 0);
}

#[test]
fn failures_end_the_session_silently() {
    for ev in [RelayEvent::TargetFailed, RelayEvent::TransportFailed] {
        let (state, acts) = run(vec![ev]);
        assert_eq!(state, RelayState::Closed);
        assert!(acts.is_empty());
    }
}

#[test]
fn inline_payload_is_flushed_before_the_loop() {
    let acts = setup_actions(b"GET / HTTP/1.1\r\n\r\n".to_vec());
    assert_eq!(acts.len(), 1);
    match &acts[0] {
        RelayAction::WriteTarget(b) => {
            assert_eq!(b.as_slice(), b"GET / HTTP/1.1\r\n\r\n".as_slice())
        }
        _ => panic!("expected a target write"),
    }
    assert!(setup_actions(Vec::new()).is_empty());
}

#[test]
fn close_reason_codes_and_texts() {
    assert_eq!(CloseReason::TargetClosed.code(), 1000);
    assert_eq!(CloseReason::InvalidRequest.code(), 1003);
    assert_eq!(CloseReason::UnsupportedCommand.code(), 1003);
    assert_eq!(CloseReason::InvalidRequest.text(), "invalid request");
    assert_eq!(CloseReason::UnsupportedCommand.text(), "unsupported command");
}
