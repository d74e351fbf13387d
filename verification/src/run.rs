//! The run coordinator model: configuration validation and the deterministic
//! semantics of a whole run — one outcome per input URL, each the result of
//! the probe policy applied to that URL alone.
//!
//! The binary runs the pool with real threads, one queue and one sink; the
//! functions here give the same run against pre-decided attempt events (a
//! deterministic fake probe), which is what the concurrent run must agree
//! with up to arrival order.

use vstd::prelude::*;
use crate::outcome::{AttemptEvent, ProbeOutcome, clamp_u64};
use crate::probe::{enough_events, events_wf, lemma_status_from_wf, status_from, elapsed_from, probe_with_events};
use crate::queue::WorkQueue;

use crate::sink::ResultSink;

verus! {


/// The element-wise views of a sequence of vectors.
pub open spec fn views_of<T>(vs: Seq<Vec<T>>) -> Seq<Seq<T>> {
    Seq::new(vs.len(), |k: int| vs[k]@)
}

/// Parameters of one run, uniform across all URLs.
pub struct RunConfig {
    /// How many workers pull from the shared queue; at least 1.
    pub workers: usize,
    /// Per-attempt timeout in seconds; positive.
    pub timeout_secs: u64,
    /// How many additional attempts are allowed after the first.
    pub retries: u32,
}

/// Why a run was rejected before any probing started.
#[derive(Debug)]
pub enum ConfigError {
    /// The input URL sequence was empty.
    NoUrls,
    /// The worker count was zero.
    NoWorkers,
    /// The per-attempt timeout was zero.
    NoTimeout,
}

impl RunConfig {
    /// A configuration a run may start with.
    pub open spec fn valid(self) -> bool {
        &&& self.workers >= 1
        &&& self.timeout_secs >= 1
    }
}

/// A run is accepted exactly when the configuration is valid and there is
/// at least one URL; otherwise the error names the first defect found, in
/// this order: no URLs, no workers, no timeout.
pub open spec fn spec_validate(n_targets: int, config: RunConfig) -> Result<(), ConfigError> {
    if n_targets == 0 {
        Err(ConfigError::NoUrls)
    } else if config.workers == 0 {
        Err(ConfigError::NoWorkers)
    } else if config.timeout_secs == 0 {
        Err(ConfigError::NoTimeout)
    } else {
        Ok(())
    }
}

/// Reject an invalid run before anything is spawned or enqueued.
pub fn validate(n_targets: usize, config: &RunConfig) -> (r: Result<(), ConfigError>)
    ensures
        r == spec_validate(n_targets as int, *config),
        r is Ok <==> n_targets > 0 && config.valid(),
{
    if n_targets == 0 {
        Err(ConfigError::NoUrls)
    } else if config.workers == 0 {
        Err(ConfigError::NoWorkers)
    } else if config.timeout_secs == 0 {
        Err(ConfigError::NoTimeout)
    } else {
        Ok(())
    }
}

/// Event sequences sufficient to decide a probe for every target.
pub open spec fn enough_events_for_all(
    targets: Seq<String>,
    events: Seq<Seq<AttemptEvent>>,
    attempt_ms: Seq<Seq<u64>>,
    retries: int,
) -> bool {
    &&& events.len() == targets.len()
    &&& attempt_ms.len() == targets.len()
    &&& forall|k: int|
        0 <= k < targets.len() ==> #[trigger] events[k].len() == attempt_ms[k].len()
            && enough_events(events[k], retries)
}

/// Every response event of every target carries a code in the data model's
/// range; the shell guarantees this where it receives each response.
pub open spec fn all_events_wf(events: Seq<Seq<AttemptEvent>>) -> bool {
    forall|k: int| 0 <= k < events.len() ==> events_wf(#[trigger] events[k])
}

/// The outcome the probe policy assigns to target `k`: each target's
/// outcome depends on that target's own events alone.
pub open spec fn outcome_for(
    targets: Seq<String>,
    events: Seq<Seq<AttemptEvent>>,
    attempt_ms: Seq<Seq<u64>>,
    retries: int,
    observed_at_ms: u64,
    k: int,
) -> ProbeOutcome {
    ProbeOutcome {
        url: targets[k],
        status: status_from(events[k], 0, retries),
        elapsed_ms: clamp_u64(elapsed_from(events[k], attempt_ms[k], 0, retries)) as u64,
        observed_at_ms,
    }
}

/// The full result of a run, in input order: exactly one outcome per
/// input URL.
pub open spec fn run_outcomes(
    targets: Seq<String>,
    events: Seq<Seq<AttemptEvent>>,
    attempt_ms: Seq<Seq<u64>>,
    retries: int,
    observed_at_ms: u64,
) -> Seq<ProbeOutcome> {
    Seq::new(targets.len(), |k: int| outcome_for(targets, events, attempt_ms, retries, observed_at_ms, k))
}

/// Run the whole batch against pre-decided attempt events: validate, feed
/// every target through the queue, probe each, and collect through the
/// sink. Returns exactly one outcome per input URL, in input order.
pub fn run_with_events(
    targets: Vec<String>,
    config: &RunConfig,
    events: &Vec<Vec<AttemptEvent>>,
    attempt_ms: &Vec<Vec<u64>>,
    observed_at_ms: u64,
) -> (r: Result<Vec<ProbeOutcome>, ConfigError>)
    requires
        enough_events_for_all(targets@, views_of(events@), views_of(attempt_ms@), config.retries as int),
        all_events_wf(views_of(events@)),
    ensures
        (match r {
            Ok(outs) => {
                &&& spec_validate(targets@.len() as int, *config) is Ok
                &&& outs@ == run_outcomes(
                    targets@,
                    views_of(events@),
                    views_of(attempt_ms@),
                    config.retries as int,
                    observed_at_ms,
                )
                &&& outs@.len() == targets@.len()
                &&& forall|k: int| 0 <= k < outs@.len() ==> (#[trigger] outs@[k]).wf()
            },
            Err(e) => spec_validate(targets@.len() as int, *config) == Err::<(), ConfigError>(e),
        }),
{
    let ghost spec_targets = targets@;
    let ghost ev = views_of(events@);
    let ghost ms = views_of(attempt_ms@);
    let n = targets.len();
    match validate(n, config) {
        Err(e) => Err(e),
        Ok(()) => {
            let mut queue = WorkQueue::new();
            let mut targets = targets;
            let mut j: usize = 0;
            while j < n
                invariant
                    n == spec_targets.len(),
                    targets@ == spec_targets,
                    j <= n,
                    queue.wf(),
                    !queue.is_closed_spec(),
                    queue.pending() == spec_targets.take(j as int),
                decreases n - j,
            {
                let t = targets[j].clone();
                queue.enqueue(t);
                proof {
                    assert(queue.pending() =~= spec_targets.take(j as int + 1));
                }
                j = j + 1;
            }
            queue.close();
            proof {
                assert(queue.pending() =~= spec_targets);
            }
            let mut sink = ResultSink::new();
            let mut i: usize = 0;
            loop
                invariant
                    n == spec_targets.len(),
                    ev == views_of(events@),
                    ms == views_of(attempt_ms@),
                    events@.len() == n,
                    attempt_ms@.len() == n,
                    enough_events_for_all(spec_targets, ev, ms, config.retries as int),
                    all_events_wf(ev),
                    i <= n,
                    queue.wf(),
                    queue.is_closed_spec(),
                    queue.pending() == spec_targets.skip(i as int),
                    sink.collected() == run_outcomes(
                        spec_targets,
                        ev,
                        ms,
                        config.retries as int,
                        observed_at_ms,
                    ).take(i as int),
                ensures
                    i == n,
                    sink.collected() == run_outcomes(
                        spec_targets,
                        ev,
                        ms,
                        config.retries as int,
                        observed_at_ms,
                    ),
                decreases n - i,
            {
                match queue.dequeue() {
                    None => {
                        proof {
                            assert(spec_targets.skip(i as int).len() == 0);
                            assert(i == n);
                            assert(sink.collected() =~= run_outcomes(
                                spec_targets,
                                ev,
                                ms,
                                config.retries as int,
                                observed_at_ms,
                            ));
                        }
                        break;
                    },
                    Some(url) => {
                        proof {
                            assert(url == spec_targets[i as int]);
                            assert(queue.pending() =~= spec_targets.skip(i as int + 1));
                            assert(events@[i as int]@ == ev[i as int]);
                            assert(attempt_ms@[i as int]@ == ms[i as int]);
                        }
                        let (out, _attempts) = probe_with_events(
                            url,
                            config.retries,
                            &events[i],
                            &attempt_ms[i],
                            observed_at_ms,
                        );
                        proof {
                            assert(out == outcome_for(
                                spec_targets,
                                ev,
                                ms,
                                config.retries as int,
                                observed_at_ms,
                                i as int,
                            ));
                        }
                        sink.push(out);
                        proof {
                            assert(sink.collected() =~= run_outcomes(
                                spec_targets,
                                ev,
                                ms,
                                config.retries as int,
                                observed_at_ms,
                            ).take(i as int + 1));
                        }
                        i = i + 1;
                    },
                }
            }
            proof {
                assert forall|k: int|
                    0 <= k < sink.collected().len() implies (#[trigger] sink.collected()[k]).wf() by {
                    lemma_status_from_wf(ev[k], 0, config.retries as int);
                }
            }
            Ok(sink.into_results())
        },
    }
}


/// An arrival order: each of the `n` outcomes arrives exactly once, in some
/// order the scheduler alone decides.
pub open spec fn is_arrival_order(order: Seq<usize>, n: int) -> bool {
    &&& order.len() == n
    &&& forall|k: int| 0 <= k < n ==> #[trigger] order[k] < n
    &&& forall|k1: int, k2: int| 0 <= k1 < k2 < n ==> order[k1] != order[k2]
}

/// Reading a sequence through a permutation of its indices keeps exactly
/// the same elements: the multiset of what arrives does not depend on the
/// order of arrival.
pub proof fn lemma_arrival_order_keeps_content<A>(s: Seq<A>, order: Seq<usize>)
    requires
        is_arrival_order(order, s.len() as int),
    ensures
        Seq::new(order.len(), |k: int| s[order[k] as int]).to_multiset() =~= s.to_multiset(),
    decreases order.len(),
{
    broadcast use vstd::seq_lib::group_to_multiset_ensures;
    broadcast use vstd::multiset::group_multiset_axioms;

    let sel = Seq::new(order.len(), |k: int| s[order[k] as int]);
    if order.len() == 0 {
        assert(sel =~= s);
    } else {
        let m = order.len() - 1;
        let v = order[m as int] as int;
        let s2 = s.remove(v);
        let order2 = Seq::new(m as nat, |k: int| if order[k] < v { order[k] } else { (order[k] - 1) as usize });
        assert(is_arrival_order(order2, s2.len() as int)) by {
            assert(forall|k: int| 0 <= k < m ==> order[k] != order[m as int]);
        }
        lemma_arrival_order_keeps_content(s2, order2);
        let sel2 = Seq::new(order2.len(), |k: int| s2[order2[k] as int]);
        assert(sel2 =~= sel.subrange(0, m as int)) by {
            assert(forall|k: int| 0 <= k < m ==> s2[order2[k] as int] == s[order[k] as int]);
        }
        assert(sel =~= sel.subrange(0, m as int).push(sel[m as int]));
        assert(sel.to_multiset() =~= sel2.to_multiset().insert(s[v]));
        assert(s2.to_multiset() =~= s.to_multiset().remove(s[v]));
        assert(s.contains(s[v]));
        assert(s.to_multiset().count(s[v]) > 0);
        assert(sel.to_multiset() =~= s.to_multiset().remove(s[v]).insert(s[v]));
        assert(sel.to_multiset() =~= s.to_multiset());
    }
}

/// The run against a deterministic fake probe, observed in an arbitrary
/// arrival order: what a pool of any number of workers may deliver. The
/// content is exactly that of the in-order run; only the order differs.
pub fn run_in_arrival_order(
    targets: &Vec<String>,
    config: &RunConfig,
    events: &Vec<Vec<AttemptEvent>>,
    attempt_ms: &Vec<Vec<u64>>,
    observed_at_ms: u64,
    order: &Vec<usize>,
) -> (r: Result<Vec<ProbeOutcome>, ConfigError>)
    requires
        enough_events_for_all(targets@, views_of(events@), views_of(attempt_ms@), config.retries as int),
        all_events_wf(views_of(events@)),
        is_arrival_order(order@, targets@.len() as int),
    ensures
        (match r {
            Ok(outs) => {
                &&& spec_validate(targets@.len() as int, *config) is Ok
                &&& outs@ == Seq::new(
                    targets@.len(),
                    |k: int| run_outcomes(
                        targets@,
                        views_of(events@),
                        views_of(attempt_ms@),
                        config.retries as int,
                        observed_at_ms,
                    )[order@[k] as int],
                )
                &&& outs@.to_multiset() == run_outcomes(
                    targets@,
                    views_of(events@),
                    views_of(attempt_ms@),
                    config.retries as int,
                    observed_at_ms,
                ).to_multiset()
                &&& outs@.len() == targets@.len()
                &&& forall|k: int| 0 <= k < outs@.len() ==> (#[trigger] outs@[k]).wf()
            },
            Err(e) => spec_validate(targets@.len() as int, *config) == Err::<(), ConfigError>(e),
        }),
{
    let ghost ev = views_of(events@);
    let ghost ms = views_of(attempt_ms@);
    let ghost spec_outs = run_outcomes(targets@, ev, ms, config.retries as int, observed_at_ms);
    let n = targets.len();
    match validate(n, config) {
        Err(e) => Err(e),
        Ok(()) => {
            let mut sink = ResultSink::new();
            let mut k: usize = 0;
            while k < n
                invariant
                    n == targets@.len(),
                    ev == views_of(events@),
                    ms == views_of(attempt_ms@),
                    events@.len() == n,
                    attempt_ms@.len() == n,
                    spec_outs == run_outcomes(targets@, ev, ms, config.retries as int, observed_at_ms),
                    enough_events_for_all(targets@, ev, ms, config.retries as int),
                    all_events_wf(ev),
                    is_arrival_order(order@, n as int),
                    k <= n,
                    sink.collected() == Seq::new(k as nat, |j: int| spec_outs[order@[j] as int]),
                decreases n - k,
            {
                let idx = order[k];
                let url = targets[idx].clone();
                let (out, _attempts) = probe_with_events(
                    url,
                    config.retries,
                    &events[idx],
                    &attempt_ms[idx],
                    observed_at_ms,
                );
                proof {
                    assert(events@[idx as int]@ == ev[idx as int]);
                    assert(attempt_ms@[idx as int]@ == ms[idx as int]);
                    assert(out == spec_outs[idx as int]);
                }
                sink.push(out);
                proof {
                    assert(sink.collected() =~= Seq::new(
                        (k + 1) as nat,
                        |j: int| spec_outs[order@[j] as int],
                    ));
                }
                k = k + 1;
            }
            proof {
                lemma_arrival_order_keeps_content(spec_outs, order@);
                assert(sink.collected() =~= Seq::new(
                    order@.len(),
                    |j: int| spec_outs[order@[j] as int],
                ));
                assert forall|j: int|
                    0 <= j < sink.collected().len() implies (#[trigger] sink.collected()[j]).wf() by {
                    lemma_status_from_wf(ev[order@[j] as int], 0, config.retries as int);
                }
            }
            Ok(sink.into_results())
        },
    }
}

/// Running the same fixed, deterministic input twice gives the same
/// outcomes: the result of a run is a function of its inputs alone.
pub proof fn lemma_run_deterministic(
    targets: Seq<String>,
    events: Seq<Seq<AttemptEvent>>,
    attempt_ms: Seq<Seq<u64>>,
    retries: int,
    observed_at_ms: u64,
    first: Seq<ProbeOutcome>,
    second: Seq<ProbeOutcome>,
)
    requires
        first == run_outcomes(targets, events, attempt_ms, retries, observed_at_ms),
        second == run_outcomes(targets, events, attempt_ms, retries, observed_at_ms),
    ensures
        first == second,
        first.to_multiset() == second.to_multiset(),
{
}


/// Exactly one outcome per input URL, whatever the retry budget and however
/// many workers pull from the queue: the run's results correspond one to
/// one, in input order, to the input URLs.
pub proof fn lemma_one_outcome_per_url(
    targets: Seq<String>,
    events: Seq<Seq<AttemptEvent>>,
    attempt_ms: Seq<Seq<u64>>,
    retries: int,
    observed_at_ms: u64,
)
    ensures
        run_outcomes(targets, events, attempt_ms, retries, observed_at_ms).len() == targets.len(),
        forall|k: int|
            0 <= k < targets.len() ==> #[trigger] run_outcomes(
                targets,
                events,
                attempt_ms,
                retries,
                observed_at_ms,
            )[k].url == targets[k],
{
}


} // verus!
