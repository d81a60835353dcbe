use zher::discovery::{
    answer, is_discovery_probe, poll, probe_reply, probe_text, Answer, DiscoveryService, Poll,
    Received, DISCOVERY_PORT, IDLE_MILLIS, READ_TIMEOUT_MILLIS,
};
use zher::state::AppState;

#[test]
fn a_probe_is_answered_with_the_service_word() {
    match answer(&Received::Datagram(b"ZHER_DISCOVERY\n".to_vec())) {
        Answer::Reply(bytes) => assert_eq!(bytes, b"ZHER_SERVICE:4836".to_vec()),
        _ => panic!("the probe was not answered"),
    }
    assert_eq!(probe_reply(), b"ZHER_SERVICE:4836".to_vec());
}

#[test]
fn other_datagrams_are_passed_over() {
    assert!(matches!(answer(&Received::Datagram(b"HELLO".to_vec())), Answer::Nothing));
    assert!(matches!(answer(&Received::Datagram(Vec::new())), Answer::Nothing));
    assert!(matches!(answer(&Received::TimedOut), Answer::Nothing));
    assert!(matches!(answer(&Received::Failed), Answer::Report));
}

#[test]
fn probes_may_have_white_space_round_them() {
    assert!(is_discovery_probe(b"ZHER_DISCOVERY"));
    assert!(is_discovery_probe(b"  ZHER_DISCOVERY\r\n"));
    assert!(is_discovery_probe("\u{00A0}ZHER_DISCOVERY\u{2003}".as_bytes()));
    assert!(!is_discovery_probe(b"ZHER_ DISCOVERY"));
    assert!(!is_discovery_probe(b"zher_discovery"));
    assert!(!is_discovery_probe(b"ZHER_DISCOVERY!"));
    assert!(!is_discovery_probe(b"ZHER_DISCOVERYZHER_DISCOVERY"));
    // Bytes that are no UTF-8 are read as U+FFFD, which is no white space.
    assert!(!is_discovery_probe(b"\xFFZHER_DISCOVERY"));
    assert!(!is_discovery_probe(b"ZHER_DISCOVERY\xC2"));
    assert!(probe_text("\tZHER_DISCOVERY "));
    assert!(!probe_text("\u{FFFD}ZHER_DISCOVERY"));
}

#[test]
fn the_responder_polls_its_flags() {
    assert_eq!(poll(false, true), Poll::Stop);
    assert_eq!(poll(false, false), Poll::Stop);
    assert_eq!(poll(true, false), Poll::Idle);
    assert_eq!(poll(true, true), Poll::Receive);
    assert_eq!(DISCOVERY_PORT, 4837);
    assert!(READ_TIMEOUT_MILLIS <= 1_000);
    assert!(IDLE_MILLIS > 0);
}

#[test]
fn the_switch_starts_once_and_stops_once() {
    let mut service = DiscoveryService::new(true);
    assert!(service.is_enabled());
    assert!(!service.is_running());
    assert!(!service.stop());
    assert!(service.start());
    assert!(service.is_running());
    assert!(!service.start());
    service.set_enabled(false);
    assert!(!service.is_enabled());
    assert!(service.is_running());
    assert!(service.stop());
    assert!(!service.is_running());
    assert!(!service.stop());
    assert!(service.start());
    let off = DiscoveryService::new(false);
    assert!(!off.is_enabled());
}

#[test]
fn the_store_holds_the_switch() {
    let mut state = AppState::default();
    assert!(state.discovery().is_enabled());
    assert!(!state.discovery().is_running());
    assert!(state.start_discovery());
    assert!(!state.start_discovery());
    state.set_discovery_enabled(false);
    assert!(!state.discovery().is_enabled());
    assert!(state.discovery().is_running());
    assert!(state.stop_discovery());
    assert!(!state.stop_discovery());
}
