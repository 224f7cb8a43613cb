//! Collection scheduler: the decisions of one collection cycle.
//!
//! A cycle starts from the ids that the registry lists, has the metrics of
//! every such sandbox fetched and parsed, and publishes what came back in one
//! step. Fetching, parsing and the timer are the caller's part.

use crate::monitor::metrics_cache::{run_adds, MetricsCache, StagingBuffer, StoreOp, StoreView};
use crate::monitor::sandbox_cache::SandboxCache;
use crate::text::texts;
use vstd::prelude::*;

verus! {

/// What one collection cycle achieved.
#[derive(Debug, Clone, Copy, PartialEq, Eq, Structural)]
pub struct CycleStats {
    /// Sandboxes whose metrics were fetched, parsed and stored.
    pub success_count: usize,
    /// Sandboxes whose fetch or parse failed.
    pub failure_count: usize,
}

/// What the fetch and parse of one sandbox came to, as plain values: the id,
/// and the parsed metrics unless the fetch or the parse failed.
pub open spec fn outcomes<M>(results: Seq<(String, Option<M>)>) -> Seq<(Seq<char>, Option<M>)> {
    Seq::new(results.len(), |i: int| (results[i].0@, results[i].1))
}

/// The records that a cycle makes for `results`: one for each sandbox whose
/// metrics came back, in order. A sandbox whose fetch or parse failed has
/// none.
pub open spec fn successes<M>(results: Seq<(Seq<char>, Option<M>)>) -> Seq<(Seq<char>, M)>
    decreases results.len(),
{
    if results.len() == 0 {
        Seq::empty()
    } else {
        match results.last().1 {
            Some(m) => successes(results.drop_last()).push((results.last().0, m)),
            None => successes(results.drop_last()),
        }
    }
}

/// Collects metrics from sandboxes at regular intervals.
pub struct MetricsCollector {
    metrics_interval_secs: u64,
}

impl MetricsCollector {
    /// Create a new metrics collector that runs a cycle every
    /// `metrics_interval_secs` seconds.
    pub fn new(metrics_interval_secs: u64) -> (collector: Self)
        ensures
            collector.interval() == metrics_interval_secs,
    {
        MetricsCollector { metrics_interval_secs }
    }

    /// Seconds between two cycles.
    pub closed spec fn interval(&self) -> u64 {
        self.metrics_interval_secs
    }

    /// Seconds between two cycles.
    pub fn metrics_interval_secs(&self) -> (secs: u64)
        ensures
            secs == self.interval(),
    {
        self.metrics_interval_secs
    }

    /// Begins a cycle. Where the registry lists no sandbox the cycle is
    /// skipped and staging is left as it is. Otherwise staging is emptied
    /// and the ids to fetch are handed out: those that the registry lists,
    /// each once. The current generation is out of reach of this function.
    pub fn start_cycle<M>(&self, sandbox_cache: &SandboxCache, staging: &mut StagingBuffer<M>) -> (ids:
        Option<Vec<String>>)
        ensures
            match ids {
                None => sandbox_cache@.dom() == Set::<Seq<char>>::empty() && final(staging)@
                    == old(staging)@,
                Some(list) => {
                    &&& list@.len() > 0
                    &&& texts(list@).no_duplicates()
                    &&& texts(list@).to_set() == sandbox_cache@.dom()
                    &&& final(staging)@ == Map::<Seq<char>, M>::empty()
                },
            },
    {
        let sandboxes = sandbox_cache.get_sandbox_list();
        if sandboxes.len() == 0 {
            proof {
                assert(texts(sandboxes@).to_set() =~= Set::<Seq<char>>::empty());
            }
            return None;
        }
        staging.start_collection();
        Some(sandboxes)
    }

    /// Takes in what the fetches of a cycle came to. `results` holds, for
    /// each sandbox that was fetched, its id and its parsed metrics, or
    /// nothing where the fetch or the parse failed. The metrics that came
    /// back are recorded in staging, in order; a sandbox that failed is
    /// counted and has no record.
    pub fn record_results<M>(&self, staging: &mut StagingBuffer<M>, results: Vec<(String, Option<M>)>) -> (stats:
        CycleStats)
        ensures
            final(staging)@ == recorded(old(staging)@, successes(outcomes(results@))),
            stats.success_count == successes(outcomes(results@)).len(),
            stats.success_count + stats.failure_count == results@.len(),
    {
        let ghost start = staging@;
        let ghost all = outcomes(results@);
        let total = results.len();
        let mut success_count: usize = 0;
        let mut failure_count: usize = 0;
        for item in it: results
            invariant
                it.seq() == results@,
                all == outcomes(results@),
                total == results@.len(),
                staging@ == recorded(start, successes(all.take(it.index() as int))),
                success_count == successes(all.take(it.index() as int)).len(),
                success_count + failure_count == it.index(),
        {
            let ghost i = it.index() as int;
            proof {
                assert(all.take(i + 1).drop_last() =~= all.take(i));
                assert(all.take(i + 1).last() == all[i]);
                assert(all[i] == (item.0@, item.1));
            }
            let (sandbox_id, parsed) = item;
            match parsed {
                Some(metrics) => {
                    proof {
                        let made = successes(all.take(i + 1));
                        assert(made.drop_last() =~= successes(all.take(i)));
                        assert(made.last() == (sandbox_id@, metrics));
                    }
                    staging.add_metrics(sandbox_id, metrics);
                    success_count += 1;
                },
                None => {
                    failure_count += 1;
                },
            }
        }
        proof {
            assert(all.take(results@.len() as int) =~= all);
        }
        CycleStats { success_count, failure_count }
    }

    /// Ends a cycle: the metrics that came back are recorded in staging, in
    /// order, and then published as the current generation, whole; staging
    /// is left empty. A sandbox that failed has no entry in the new
    /// generation, whatever an earlier generation held for it.
    pub fn finish_cycle<M>(&self, metrics_cache: &mut MetricsCache<M>, results: Vec<(String, Option<M>)>) -> (stats:
        CycleStats)
        ensures
            final(metrics_cache)@ == StoreOp::<M>::Finish.apply(
                run_adds(old(metrics_cache)@, successes(outcomes(results@))),
            ),
            stats.success_count == successes(outcomes(results@)).len(),
            stats.success_count + stats.failure_count == results@.len(),
    {
        let stats = self.record_results(&mut metrics_cache.staging, results);
        proof {
            lemma_recorded_is_run_adds(old(metrics_cache)@, successes(outcomes(results@)));
        }
        metrics_cache.current.publish(&mut metrics_cache.staging);
        stats
    }
}

/// Staging after the records `adds` were made, in order, on a staging
/// generation that held `staging`.
pub open spec fn recorded<M>(staging: Map<Seq<char>, M>, adds: Seq<(Seq<char>, M)>) -> Map<
    Seq<char>,
    M,
>
    decreases adds.len(),
{
    if adds.len() == 0 {
        staging
    } else {
        recorded(staging, adds.drop_last()).insert(adds.last().0, adds.last().1)
    }
}

proof fn lemma_recorded_is_run_adds<M>(s: StoreView<M>, adds: Seq<(Seq<char>, M)>)
    ensures
        run_adds(s, adds).staging == recorded(s.staging, adds),
        run_adds(s, adds).current == s.current,
    decreases adds.len(),
{
    if adds.len() > 0 {
        lemma_recorded_is_run_adds(s, adds.drop_last());
    }
}

/// A sandbox whose fetch or parse failed is absent from the generation that
/// the cycle publishes, unless a later result of the same cycle brought
/// metrics for the same id.
pub proof fn lemma_failed_sandbox_is_absent<M>(
    s: StoreView<M>,
    results: Seq<(Seq<char>, Option<M>)>,
    id: Seq<char>,
)
    requires
        forall|i: int| 0 <= i < results.len() && results[i].0 == id ==> results[i].1 is None,
    ensures
        !StoreOp::<M>::Finish.apply(
            run_adds(StoreOp::<M>::Start.apply(s), successes(results)),
        ).current.contains_key(id),
{
    lemma_successes_ids(results, id);
    lemma_adds_domain(StoreOp::<M>::Start.apply(s), successes(results), id);
}

/// A sandbox whose metrics came back is present in the generation that the
/// cycle publishes, with the metrics of its last result.
pub proof fn lemma_fetched_sandbox_is_present<M>(
    s: StoreView<M>,
    results: Seq<(Seq<char>, Option<M>)>,
    id: Seq<char>,
    metrics: M,
)
    requires
        results.len() > 0,
        results.last() == (id, Some(metrics)),
    ensures
        StoreOp::<M>::Finish.apply(
            run_adds(StoreOp::<M>::Start.apply(s), successes(results)),
        ).current.contains_key(id),
        StoreOp::<M>::Finish.apply(
            run_adds(StoreOp::<M>::Start.apply(s), successes(results)),
        ).current[id] == metrics,
{
    let recorded = successes(results);
    assert(recorded.last() == (id, metrics));
}

proof fn lemma_successes_ids<M>(results: Seq<(Seq<char>, Option<M>)>, id: Seq<char>)
    requires
        forall|i: int| 0 <= i < results.len() && results[i].0 == id ==> results[i].1 is None,
    ensures
        forall|k: int| 0 <= k < successes(results).len() ==> successes(results)[k].0 != id,
    decreases results.len(),
{
    if results.len() > 0 {
        let rest = results.drop_last();
        let last = results[results.len() - 1];
        assert(results.last() == last);
        assert forall|i: int| 0 <= i < rest.len() && rest[i].0 == id implies rest[i].1 is None by {
            if 0 <= i < rest.len() {
                assert(rest[i] == results[i]);
            }
        }
        lemma_successes_ids(rest, id);
        let earlier = successes(rest);
        assert forall|k: int| 0 <= k < successes(results).len() implies successes(results)[k].0
            != id by {
            if k < earlier.len() {
                assert(successes(results)[k] == earlier[k]);
            } else {
                assert(last.1 is Some);
                assert(successes(results)[k].0 == last.0);
            }
        }
    }
}

proof fn lemma_adds_domain<M>(s: StoreView<M>, adds: Seq<(Seq<char>, M)>, id: Seq<char>)
    requires
        forall|k: int| 0 <= k < adds.len() ==> adds[k].0 != id,
    ensures
        run_adds(s, adds).staging.contains_key(id) == s.staging.contains_key(id),
    decreases adds.len(),
{
    if adds.len() > 0 {
        let rest = adds.drop_last();
        assert forall|k: int| 0 <= k < rest.len() implies rest[k].0 != id by {
            assert(rest[k] == adds[k]);
        }
        lemma_adds_domain(s, rest, id);
        assert(adds.last() == adds[adds.len() - 1]);
    }
}

} // verus!
