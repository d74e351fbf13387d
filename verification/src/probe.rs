//! The probe policy: one HTTP GET per attempt against a single URL, with a
//! bounded per-attempt timeout, a fixed retry budget and a constant backoff
//! wait between attempts.
//!
//! The network call itself happens outside the library. The caller performs
//! one GET per attempt and feeds what it observed (a response, or a
//! transport-level failure) into a [`ProbeMachine`], which decides whether
//! to retry and assembles the final [`ProbeOutcome`]. Any received HTTP
//! status code, including 4xx and 5xx, ends the probe as a `Success`; only
//! transport-level failures consume the retry budget. Events must respect
//! the data model's status-code range (the shell checks each code where it
//! receives the response), and every outcome provably respects it too.

use vstd::prelude::*;
use crate::outcome::{AttemptEvent, ProbeOutcome, ProbeStatus, clamp_u64, sat_add_u64};

verus! {

/// Fixed wait, in milliseconds, between a failed attempt and its retry.
pub const BACKOFF_MS: u64 = 100;

/// A sequence of attempt events suffices for a probe with `retries`
/// additional attempts after the first.
pub open spec fn enough_events(events: Seq<AttemptEvent>, retries: int) -> bool {
    events.len() >= retries + 1
}

/// Every response event in the sequence carries a code in the data model's
/// range; the shell guarantees this where it receives each response.
pub open spec fn events_wf(events: Seq<AttemptEvent>) -> bool {
    forall|i: int| 0 <= i < events.len() ==> (#[trigger] events[i]).wf()
}

/// The status a probe reports, given the event each attempt would observe:
/// the first response wins; otherwise the last transport error is reported.
pub open spec fn status_from(events: Seq<AttemptEvent>, i: int, retries: int) -> ProbeStatus
    recommends
        0 <= i <= retries,
        enough_events(events, retries),
    decreases retries - i,
{
    match events[i] {
        AttemptEvent::Response(c) => ProbeStatus::Success(c),
        AttemptEvent::TransportError(e) => if i >= retries {
            ProbeStatus::Failure(e)
        } else {
            status_from(events, i + 1, retries)
        },
    }
}

/// How many attempts a probe makes, given the event each attempt would
/// observe: it stops at the first response, or after `retries + 1` attempts.
pub open spec fn attempts_from(events: Seq<AttemptEvent>, i: int, retries: int) -> int
    recommends
        0 <= i <= retries,
        enough_events(events, retries),
    decreases retries - i,
{
    match events[i] {
        AttemptEvent::Response(c) => i + 1,
        AttemptEvent::TransportError(e) => if i >= retries {
            i + 1
        } else {
            attempts_from(events, i + 1, retries)
        },
    }
}

/// Total attempt time a probe consumes, given each attempt's duration:
/// the durations of the attempts actually made, plus one backoff wait
/// after every attempt that is retried.
pub open spec fn elapsed_from(
    events: Seq<AttemptEvent>,
    attempt_ms: Seq<u64>,
    i: int,
    retries: int,
) -> int
    recommends
        0 <= i <= retries,
        enough_events(events, retries),
        attempt_ms.len() == events.len(),
    decreases retries - i,
{
    match events[i] {
        AttemptEvent::Response(c) => attempt_ms[i] as int,
        AttemptEvent::TransportError(e) => if i >= retries {
            attempt_ms[i] as int
        } else {
            attempt_ms[i] + BACKOFF_MS + elapsed_from(events, attempt_ms, i + 1, retries)
        },
    }
}

/// Sum of the attempt durations actually consumed, without backoff waits.
pub open spec fn consumed_ms(
    events: Seq<AttemptEvent>,
    attempt_ms: Seq<u64>,
    i: int,
    retries: int,
) -> int
    recommends
        0 <= i <= retries,
        enough_events(events, retries),
        attempt_ms.len() == events.len(),
    decreases retries - i,
{
    match events[i] {
        AttemptEvent::Response(c) => attempt_ms[i] as int,
        AttemptEvent::TransportError(e) => if i >= retries {
            attempt_ms[i] as int
        } else {
            attempt_ms[i] + consumed_ms(events, attempt_ms, i + 1, retries)
        },
    }
}

/// What the probe loop does after recording one attempt.
#[derive(Debug)]
pub enum ProbeAction {
    /// Wait [`BACKOFF_MS`] milliseconds, perform one more GET, and record it.
    RetryAfterBackoff,
    /// The probe is finished; collect the outcome.
    Finished,
}

/// State of one probe in progress: which URL, how many attempts the budget
/// allows and how many were made, the time consumed so far, and the final
/// status once the probe is decided.
pub struct ProbeMachine {
    pub url: String,
    pub retries: u32,
    pub attempts: u64,
    pub elapsed_ms: u64,
    pub done: Option<ProbeStatus>,
}

impl ProbeMachine {
    /// The machine never exceeds its attempt budget, and only a recorded
    /// attempt can have decided it.
    pub open spec fn wf(self) -> bool {
        &&& self.attempts <= self.retries + 1
        &&& (self.done is None ==> self.attempts <= self.retries)
        &&& (self.done is Some ==> self.attempts >= 1)
        &&& (match self.done {
            Some(s) => s.wf(),
            None => true,
        })
    }

    /// A fresh probe for `url` with `retries` additional attempts allowed
    /// after the first.
    pub fn new(url: String, retries: u32) -> (m: ProbeMachine)
        ensures
            m.wf(),
            m.url == url,
            m.retries == retries,
            m.attempts == 0,
            m.elapsed_ms == 0,
            m.done is None,
    {
        ProbeMachine { url, retries, attempts: 0, elapsed_ms: 0, done: None }
    }

    /// Record what one GET attempt observed and how long it took, and decide
    /// whether to retry. A response of any status code finishes the probe as
    /// a `Success`; a transport error finishes it as a `Failure` only once
    /// the retry budget is exhausted, and otherwise asks the caller to wait
    /// one backoff interval and try again (whose wait is already counted
    /// into the elapsed time here).
    pub fn record_attempt(&mut self, event: AttemptEvent, attempt_ms: u64) -> (a: ProbeAction)
        requires
            old(self).wf(),
            old(self).done is None,
            event.wf(),
        ensures
            final(self).wf(),
            final(self).url == old(self).url,
            final(self).retries == old(self).retries,
            final(self).attempts == old(self).attempts + 1,
            (match event {
                AttemptEvent::Response(c) => {
                    &&& final(self).done == Some(ProbeStatus::Success(c))
                    &&& a is Finished
                    &&& final(self).elapsed_ms == clamp_u64(old(self).elapsed_ms + attempt_ms)
                },
                AttemptEvent::TransportError(e) => {
                    if old(self).attempts < old(self).retries {
                        &&& final(self).done is None
                        &&& a is RetryAfterBackoff
                        &&& final(self).elapsed_ms == clamp_u64(
                            old(self).elapsed_ms + attempt_ms + BACKOFF_MS,
                        )
                    } else {
                        &&& final(self).done == Some(ProbeStatus::Failure(e))
                        &&& a is Finished
                        &&& final(self).elapsed_ms == clamp_u64(old(self).elapsed_ms + attempt_ms)
                    }
                },
            }),
    {
        self.attempts = self.attempts + 1;
        match event {
            AttemptEvent::Response(c) => {
                self.elapsed_ms = sat_add_u64(self.elapsed_ms, attempt_ms);
                self.done = Some(ProbeStatus::Success(c));
                ProbeAction::Finished
            },
            AttemptEvent::TransportError(e) => {
                if self.attempts <= self.retries as u64 {
                    self.elapsed_ms = sat_add_u64(
                        self.elapsed_ms,
                        sat_add_u64(attempt_ms, BACKOFF_MS),
                    );
                    ProbeAction::RetryAfterBackoff
                } else {
                    self.elapsed_ms = sat_add_u64(self.elapsed_ms, attempt_ms);
                    self.done = Some(ProbeStatus::Failure(e));
                    ProbeAction::Finished
                }
            },
        }
    }

    /// Turn a decided probe into its outcome, stamped with the completion
    /// time the caller observed.
    pub fn finish(self, observed_at_ms: u64) -> (r: ProbeOutcome)
        requires
            self.wf(),
            self.done is Some,
        ensures
            r.wf(),
            r.url == self.url,
            Some(r.status) == self.done,
            r.elapsed_ms == self.elapsed_ms,
            r.observed_at_ms == observed_at_ms,
    {
        let status = match self.done {
            Some(s) => s,
            // excluded by the precondition; the arm only satisfies the type
            None => ProbeStatus::Failure(String::new()),
        };
        ProbeOutcome {
            url: self.url,
            status,
            elapsed_ms: self.elapsed_ms,
            observed_at_ms,
        }
    }
}

/// Clamping a sum to `u64::MAX` in two steps or one gives the same value.
proof fn lemma_clamp_add(a: int, b: int)
    requires
        a >= 0,
        b >= 0,
    ensures
        clamp_u64(clamp_u64(a) + b) == clamp_u64(a + b),
{
}

/// Run a whole probe against a fixed, pre-decided event per attempt: the
/// deterministic model of a probe, used to reason about and test the retry
/// policy without any network. Returns the outcome and how many attempts
/// were made.
pub fn probe_with_events(
    url: String,
    retries: u32,
    events: &Vec<AttemptEvent>,
    attempt_ms: &Vec<u64>,
    observed_at_ms: u64,
) -> (r: (ProbeOutcome, u64))
    requires
        events@.len() == attempt_ms@.len(),
        enough_events(events@, retries as int),
        events_wf(events@),
    ensures
        r.0.wf(),
        r.0.url == url,
        r.0.status == status_from(events@, 0, retries as int),
        r.0.elapsed_ms == clamp_u64(elapsed_from(events@, attempt_ms@, 0, retries as int)),
        r.0.observed_at_ms == observed_at_ms,
        r.1 == attempts_from(events@, 0, retries as int),
{
    let mut m = ProbeMachine::new(url, retries);
    let ghost mut spent: int = 0;
    let mut i: usize = 0;
    let n = events.len();
    loop
        invariant
            m.wf(),
            m.retries == retries,
            m.url == url,
            events@.len() == attempt_ms@.len(),
            enough_events(events@, retries as int),
            events_wf(events@),
            i == m.attempts,
            i <= retries + 1,
            i <= n,
            n == events@.len(),
            spent >= 0,
            m.elapsed_ms == clamp_u64(spent),
            m.done is None ==> i <= retries,
            m.done is None ==> status_from(events@, 0, retries as int) == status_from(
                events@,
                i as int,
                retries as int,
            ),
            m.done is None ==> attempts_from(events@, 0, retries as int) == attempts_from(
                events@,
                i as int,
                retries as int,
            ),
            m.done is None ==> elapsed_from(events@, attempt_ms@, 0, retries as int) == spent
                + elapsed_from(events@, attempt_ms@, i as int, retries as int),
            m.done is Some ==> m.done == Some(status_from(events@, 0, retries as int)),
            m.done is Some ==> m.attempts == attempts_from(events@, 0, retries as int),
            m.done is Some ==> spent == elapsed_from(events@, attempt_ms@, 0, retries as int),
        ensures
            m.done is Some,
        decreases retries + 1 - i,
    {
        if m.done.is_some() {
            break;
        }
        let ev = match &events[i] {
            AttemptEvent::Response(c) => AttemptEvent::Response(*c),
            AttemptEvent::TransportError(e) => AttemptEvent::TransportError(e.clone()),
        };
        assert(ev == events@[i as int]);
        let ms = attempt_ms[i];
        proof {
            match events@[i as int] {
                AttemptEvent::Response(c) => {
                    lemma_clamp_add(spent, ms as int);
                    spent = spent + ms;
                },
                AttemptEvent::TransportError(e) => {
                    if i < retries {
                        lemma_clamp_add(spent, ms + BACKOFF_MS);
                        spent = spent + ms + BACKOFF_MS;
                    } else {
                        lemma_clamp_add(spent, ms as int);
                        spent = spent + ms;
                    }
                },
            }
        }
        m.record_attempt(ev, ms);
        assert(i < n);
        i = i + 1;
    }
    let attempts = m.attempts;
    (m.finish(observed_at_ms), attempts)
}

/// The status the probe policy assigns to well-formed events respects the
/// data model: a success only ever carries a received code, so its code
/// lies in the range 100 to 599.
pub proof fn lemma_status_from_wf(events: Seq<AttemptEvent>, i: int, retries: int)
    requires
        0 <= i <= retries,
        enough_events(events, retries),
        events_wf(events),
    ensures
        status_from(events, i, retries).wf(),
    decreases retries - i,
{
    if i < retries && events[i] is TransportError {
        lemma_status_from_wf(events, i + 1, retries);
    }
}

/// Against an endpoint that always fails at the transport level, a probe
/// with a retry budget of `retries` makes exactly `retries + 1` attempts
/// and reports the last error as a `Failure`.
pub proof fn lemma_all_failures_exhaust_budget(events: Seq<AttemptEvent>, i: int, retries: int)
    requires
        0 <= i <= retries,
        enough_events(events, retries),
        forall|j: int| i <= j <= retries ==> events[j] is TransportError,
    ensures
        attempts_from(events, i, retries) == retries + 1,
        status_from(events, i, retries) is Failure,
    decreases retries - i,
{
    if i < retries {
        lemma_all_failures_exhaust_budget(events, i + 1, retries);
    }
}

/// An attempt that obtains an HTTP response ends the probe at once as a
/// `Success` carrying that response's status code, whatever the code: a
/// received status, 4xx and 5xx included, is never retried.
pub proof fn lemma_response_ends_probe(events: Seq<AttemptEvent>, i: int, retries: int, code: u16)
    requires
        0 <= i <= retries,
        enough_events(events, retries),
        events[i] == AttemptEvent::Response(code),
    ensures
        status_from(events, i, retries) == ProbeStatus::Success(code),
        attempts_from(events, i, retries) == i + 1,
{
}

/// The time a probe consumes equals the durations of the attempts actually
/// made plus one backoff wait per retry; in particular it is at least the
/// sum of the per-attempt times consumed, and at least the backoff waits.
pub proof fn lemma_elapsed_accounts_for_attempts(
    events: Seq<AttemptEvent>,
    attempt_ms: Seq<u64>,
    i: int,
    retries: int,
)
    requires
        0 <= i <= retries,
        enough_events(events, retries),
        attempt_ms.len() == events.len(),
    ensures
        elapsed_from(events, attempt_ms, i, retries) == consumed_ms(events, attempt_ms, i, retries)
            + BACKOFF_MS * (attempts_from(events, i, retries) - i - 1),
        consumed_ms(events, attempt_ms, i, retries) >= 0,
        elapsed_from(events, attempt_ms, i, retries) >= consumed_ms(
            events,
            attempt_ms,
            i,
            retries,
        ),
    decreases retries - i,
{
    match events[i] {
        AttemptEvent::Response(c) => {},
        AttemptEvent::TransportError(e) => {
            if i < retries {
                lemma_elapsed_accounts_for_attempts(events, attempt_ms, i + 1, retries);
            }
        },
    }
}

/// The outcome reported when the HTTP client itself could not be built:
/// an immediate `Failure`, with no network attempt and no retry.
pub fn client_failure_outcome(url: String, elapsed_ms: u64, observed_at_ms: u64) -> (r:
    ProbeOutcome)
    ensures
        r.url == url,
        r.status matches ProbeStatus::Failure(m) && m@ == "Failed to create client"@,
        r.elapsed_ms == elapsed_ms,
        r.observed_at_ms == observed_at_ms,
{
    ProbeOutcome {
        url,
        status: ProbeStatus::Failure(String::from_str("Failed to create client")),
        elapsed_ms,
        observed_at_ms,
    }
}

} // verus!
