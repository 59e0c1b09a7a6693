use uptimers::prober::{
    initial_prober_state, probe_result, prober_step, ProbeEvent, ProberState, MAX_PROBE_ATTEMPTS,
    SENTINEL_BAD_GATEWAY,
};

#[test]
fn fresh_probe_response_ends() {
    let s = initial_prober_state();
    assert_eq!(s, ProberState::Attempting(1));
    let (next, backoff) = prober_step(s, ProbeEvent::Response(204));
    assert_eq!(next, ProberState::Done(204));
    assert_eq!(backoff, 0);
}

#[test]
fn transport_failures_back_off_then_response_wins() {
    let s = initial_prober_state();
    let (s, b) = prober_step(s, ProbeEvent::TransportError);
    assert_eq!(s, ProberState::Attempting(2));
    assert_eq!(b, 1);
    let (s, b) = prober_step(s, ProbeEvent::TransportError);
    assert_eq!(s, ProberState::Attempting(3));
    assert_eq!(b, 2);
    let (s, b) = prober_step(s, ProbeEvent::Response(503));
    assert_eq!(s, ProberState::Done(503));
    assert_eq!(b, 0);
}

#[test]
fn five_transport_failures_yield_sentinel() {
    let mut s = initial_prober_state();
    let expected_backoffs = [1u64, 2, 3, 4, 0];
    for (attempt, expected) in expected_backoffs.iter().enumerate() {
        assert_eq!(s, ProberState::Attempting(attempt as u8 + 1));
        let (next, backoff) = prober_step(s, ProbeEvent::TransportError);
        assert_eq!(backoff, *expected);
        s = next;
    }
    assert_eq!(s, ProberState::Done(SENTINEL_BAD_GATEWAY));
}

#[test]
fn replay_stops_at_first_response() {
    let events = vec![
        ProbeEvent::TransportError,
        ProbeEvent::TransportError,
        ProbeEvent::Response(404),
        ProbeEvent::Response(200),
    ];
    // A non-2xx/3xx response still ends the probe; only transport
    // failures are retried.
    assert_eq!(probe_result(&events), Some((404, false, 3)));
}

#[test]
fn replay_of_all_failures_uses_five_attempts() {
    let events = vec![ProbeEvent::TransportError; 8];
    assert_eq!(probe_result(&events), Some((SENTINEL_BAD_GATEWAY, false, 5)));
}

#[test]
fn replay_without_an_ending_reports_none() {
    let events = vec![ProbeEvent::TransportError; 3];
    assert_eq!(probe_result(&events), None);
}

#[test]
fn replay_of_immediate_success() {
    let events = vec![ProbeEvent::Response(301)];
    assert_eq!(probe_result(&events), Some((301, true, 1)));
}

#[test]
fn never_more_than_five_attempts() {
    let mut s = initial_prober_state();
    let mut attempts = 0u32;
    while let ProberState::Attempting(_) = s {
        attempts += 1;
        let (next, _) = prober_step(s, ProbeEvent::TransportError);
        s = next;
    }
    assert_eq!(attempts, MAX_PROBE_ATTEMPTS as u32);
    assert!(matches!(s, ProberState::Done(_)));
    // A finished probe consumes nothing further.
    let (next, backoff) = prober_step(s, ProbeEvent::Response(200));
    assert_eq!(next, s);
    assert_eq!(backoff, 0);
}
