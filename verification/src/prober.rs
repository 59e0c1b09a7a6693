//! The probe retry state machine.
//!
//! One probe issues up to five attempts against a site.  An attempt that
//! yields any HTTP response — successful or not — ends the probe with that
//! status; only transport failures are retried, with a backoff of
//! `attempt` seconds between attempt `attempt` and the next.  When all
//! five attempts fail at the transport level, the probe ends with the
//! bad-gateway sentinel status.  The caller performs the network request
//! and the sleep, and feeds each attempt's outcome into [`prober_step`].

use vstd::prelude::*;
use crate::detector::{is_success_code, status_success};

verus! {

/// Most attempts one probe may make.
pub const MAX_PROBE_ATTEMPTS: u8 = 5;

/// Status recorded when every attempt failed at the transport level.
pub const SENTINEL_BAD_GATEWAY: u16 = 502;

/// Hard timeout of a single attempt, in seconds.
pub const PROBE_TIMEOUT_SECS: u64 = 10;

/// What one attempt came back with: an HTTP response of some status, or a
/// transport-level failure (timeout, connection error).
#[derive(Clone, Copy, PartialEq, Eq, Structural, Debug)]
pub enum ProbeEvent {
    Response(u16),
    TransportError,
}

/// Where a probe stands: waiting on attempt `n` of 5, or finished with a
/// status code.
#[derive(Clone, Copy, PartialEq, Eq, Structural, Debug)]
pub enum ProberState {
    Attempting(u8),
    Done(u16),
}

impl ProberState {
    /// Attempt numbers run from 1 to 5.
    pub open spec fn wf(self) -> bool {
        match self {
            ProberState::Attempting(n) => 1 <= n <= MAX_PROBE_ATTEMPTS,
            ProberState::Done(_) => true,
        }
    }

    pub open spec fn is_done(self) -> bool {
        self is Done
    }
}

/// One transition of the retry machine.  A response ends the probe with
/// its status; a transport failure moves on to the next attempt, or ends
/// the probe with the sentinel when attempt 5 has failed.  A finished
/// probe stays finished.
pub open spec fn spec_prober_step(s: ProberState, e: ProbeEvent) -> ProberState {
    match s {
        ProberState::Done(_) => s,
        ProberState::Attempting(n) => match e {
            ProbeEvent::Response(code) => ProberState::Done(code),
            ProbeEvent::TransportError => if n < MAX_PROBE_ATTEMPTS {
                ProberState::Attempting((n + 1) as u8)
            } else {
                ProberState::Done(SENTINEL_BAD_GATEWAY)
            },
        },
    }
}

/// Seconds to wait before the next attempt: `n` after failed attempt `n`,
/// nothing when the probe is over.
pub open spec fn spec_backoff(s: ProberState, e: ProbeEvent) -> u64 {
    match (s, e) {
        (ProberState::Attempting(n), ProbeEvent::TransportError) => if n < MAX_PROBE_ATTEMPTS {
            n as u64
        } else {
            0
        },
        _ => 0,
    }
}

/// The state a fresh probe starts in.
pub fn initial_prober_state() -> (r: ProberState)
    ensures
        r == ProberState::Attempting(1u8),
        r.wf(),
{
    ProberState::Attempting(1)
}

/// Feeds one attempt's outcome into the machine.  Returns the next state
/// and the seconds of backoff to sleep before the next attempt.
pub fn prober_step(state: ProberState, event: ProbeEvent) -> (r: (ProberState, u64))
    requires
        state.wf(),
    ensures
        r.0 == spec_prober_step(state, event),
        r.1 == spec_backoff(state, event),
        r.0.wf(),
{
    match state {
        ProberState::Done(_) => (state, 0),
        ProberState::Attempting(n) => match event {
            ProbeEvent::Response(code) => (ProberState::Done(code), 0),
            ProbeEvent::TransportError => if n < MAX_PROBE_ATTEMPTS {
                (ProberState::Attempting(n + 1), n as u64)
            } else {
                (ProberState::Done(SENTINEL_BAD_GATEWAY), 0)
            },
        },
    }
}

/// The machine run over a whole sequence of attempt outcomes.
pub open spec fn run_prober(s: ProberState, events: Seq<ProbeEvent>) -> ProberState
    decreases events.len(),
{
    if events.len() == 0 {
        s
    } else {
        run_prober(spec_prober_step(s, events[0]), events.skip(1))
    }
}

/// Running the machine one event further: appending an outcome steps
/// the state the run reached.
pub proof fn lemma_run_prober_push(s: ProberState, events: Seq<ProbeEvent>, e: ProbeEvent)
    ensures
        run_prober(s, events.push(e)) == spec_prober_step(run_prober(s, events), e),
    decreases events.len(),
{
    if events.len() == 0 {
        assert(events.push(e)[0] == e);
        assert(events.push(e).skip(1) =~= Seq::<ProbeEvent>::empty());
        assert(run_prober(s, events.push(e)) == run_prober(
            spec_prober_step(s, e),
            Seq::<ProbeEvent>::empty(),
        ));
    } else {
        assert(events.push(e)[0] == events[0]);
        assert(events.push(e).skip(1) =~= events.skip(1).push(e));
        lemma_run_prober_push(spec_prober_step(s, events[0]), events.skip(1), e);
        assert(run_prober(s, events.push(e)) == run_prober(
            spec_prober_step(s, events[0]),
            events.skip(1).push(e),
        ));
        assert(run_prober(s, events) == run_prober(spec_prober_step(s, events[0]), events.skip(1)));
    }
}

/// Replays a probe's attempt outcomes in order and returns what the
/// probe ends with: the status code, whether it counts as success, and
/// the attempts used — at most five, stopping at the first response.
/// Nothing is returned when the outcomes run out before the probe ends.
pub fn probe_result(events: &Vec<ProbeEvent>) -> (r: Option<(u16, bool, u8)>)
    ensures
        r is None ==> !run_prober(ProberState::Attempting(1u8), events@).is_done(),
        r matches Some((code, ok, attempts)) ==> {
            &&& 1 <= attempts <= MAX_PROBE_ATTEMPTS
            &&& attempts <= events@.len()
            &&& run_prober(ProberState::Attempting(1u8), events@.take(attempts as int))
                == ProberState::Done(code)
            &&& forall|k: int|
                0 <= k < attempts ==> !run_prober(
                    ProberState::Attempting(1u8),
                    events@.take(k),
                ).is_done()
            &&& ok == is_success_code(code as int)
        },
{
    let n = events.len();
    let mut state = initial_prober_state();
    let mut i: usize = 0;
    proof {
        assert(events@.take(0) =~= Seq::<ProbeEvent>::empty());
    }
    while i < n
        invariant
            i <= n,
            n == events@.len(),
            state.wf(),
            state == run_prober(ProberState::Attempting(1u8), events@.take(i as int)),
            state matches ProberState::Attempting(a) && a == i + 1,
            forall|k: int|
                0 <= k <= i ==> !run_prober(ProberState::Attempting(1u8), events@.take(k))
                    .is_done(),
        decreases n - i,
    {
        let (next, _backoff) = prober_step(state, events[i]);
        proof {
            assert(events@.take(i + 1) =~= events@.take(i as int).push(events@[i as int]));
            lemma_run_prober_push(
                ProberState::Attempting(1u8),
                events@.take(i as int),
                events@[i as int],
            );
        }
        i += 1;
        match next {
            ProberState::Done(code) => {
                return Some((code, status_success(code), i as u8));
            },
            ProberState::Attempting(_) => {
                state = next;
            },
        }
    }
    proof {
        assert(events@.take(n as int) =~= events@);
    }
    None
}

/// A finished probe stays finished whatever else arrives.
pub proof fn lemma_done_stable(code: u16, events: Seq<ProbeEvent>)
    ensures
        run_prober(ProberState::Done(code), events) == ProberState::Done(code),
    decreases events.len(),
{
    if events.len() > 0 {
        lemma_done_stable(code, events.skip(1));
    }
}

/// Retry bound: from attempt `n`, at most `6 - n` further outcomes are
/// consumed before the probe is finished — so a probe never makes more
/// than five attempts.
pub proof fn lemma_retry_bound_from(s: ProberState, events: Seq<ProbeEvent>)
    requires
        s.wf(),
        s matches ProberState::Attempting(n) && events.len() >= 6 - n,
    ensures
        run_prober(s, events).is_done(),
    decreases events.len(),
{
    let next = spec_prober_step(s, events[0]);
    match next {
        ProberState::Done(code) => {
            lemma_done_stable(code, events.skip(1));
        },
        ProberState::Attempting(_) => {
            lemma_retry_bound_from(next, events.skip(1));
        },
    }
}

/// Retry bound: a fresh probe is finished after at most five attempt
/// outcomes.
pub proof fn lemma_retry_bound(events: Seq<ProbeEvent>)
    requires
        events.len() >= 5,
    ensures
        run_prober(ProberState::Attempting(1u8), events).is_done(),
{
    lemma_retry_bound_from(ProberState::Attempting(1u8), events);
}

/// The probe stops at the first attempt that yields any HTTP response,
/// and finishes with exactly that status.
pub proof fn lemma_stops_at_first_response(events: Seq<ProbeEvent>, i: int, code: u16)
    requires
        0 <= i < events.len(),
        i < 5,
        forall|j: int| 0 <= j < i ==> events[j] == ProbeEvent::TransportError,
        events[i] == ProbeEvent::Response(code),
    ensures
        run_prober(ProberState::Attempting(1u8), events) == ProberState::Done(code),
{
    lemma_stops_at_first_response_from(ProberState::Attempting(1u8), events, i, code);
}

/// As [`lemma_stops_at_first_response`], from any live attempt whose
/// remaining budget covers the response.
proof fn lemma_stops_at_first_response_from(
    s: ProberState,
    events: Seq<ProbeEvent>,
    i: int,
    code: u16,
)
    requires
        s.wf(),
        s matches ProberState::Attempting(n) && i < 6 - n,
        0 <= i < events.len(),
        forall|j: int| 0 <= j < i ==> events[j] == ProbeEvent::TransportError,
        events[i] == ProbeEvent::Response(code),
    ensures
        run_prober(s, events) == ProberState::Done(code),
    decreases events.len(),
{
    if i == 0 {
        lemma_done_stable(code, events.skip(1));
    } else {
        let next = spec_prober_step(s, events[0]);
        assert(forall|j: int| 0 <= j < i - 1 ==> events.skip(1)[j] == ProbeEvent::TransportError);
        lemma_stops_at_first_response_from(next, events.skip(1), i - 1, code);
    }
}

/// Five transport failures in a row end the probe with the bad-gateway
/// sentinel.
pub proof fn lemma_exhausted_probe(events: Seq<ProbeEvent>)
    requires
        events.len() >= 5,
        forall|j: int| 0 <= j < 5 ==> events[j] == ProbeEvent::TransportError,
    ensures
        run_prober(ProberState::Attempting(1u8), events)
            == ProberState::Done(SENTINEL_BAD_GATEWAY),
{
    lemma_exhausted_probe_from(ProberState::Attempting(1u8), events);
}

/// As [`lemma_exhausted_probe`], from any live attempt: transport
/// failures through attempt 5 yield the sentinel.
proof fn lemma_exhausted_probe_from(s: ProberState, events: Seq<ProbeEvent>)
    requires
        s.wf(),
        s matches ProberState::Attempting(n) && events.len() >= 6 - n,
        s matches ProberState::Attempting(n)
            ==> forall|j: int| 0 <= j < 6 - n ==> events[j] == ProbeEvent::TransportError,
    ensures
        run_prober(s, events) == ProberState::Done(SENTINEL_BAD_GATEWAY),
    decreases events.len(),
{
    let next = spec_prober_step(s, events[0]);
    match next {
        ProberState::Done(code) => {
            lemma_done_stable(code, events.skip(1));
        },
        ProberState::Attempting(_) => {
            lemma_exhausted_probe_from(next, events.skip(1));
        },
    }
}

} // verus!
