//! Double-buffered store of the metrics of the most recently completed
//! collection cycle.
//!
//! Readers see the *current* generation only. A collection cycle fills the
//! *staging* generation and publishes it in one step when it finishes.

use crate::strmap::StrMap;
use vstd::prelude::*;

verus! {

/// Metrics of one sandbox as parsed from one scrape.
#[derive(Debug, Clone)]
pub struct CachedMetrics<M> {
    /// The parsed metrics.
    pub metrics: M,
}

/// The two generations of the store.
pub struct StoreView<M> {
    /// What readers see.
    pub current: Map<Seq<char>, M>,
    /// What the cycle in progress has collected so far.
    pub staging: Map<Seq<char>, M>,
}

/// One call made on the store.
pub enum StoreOp<M> {
    /// `start_collection`.
    Start,
    /// `add_metrics` with this id and these metrics.
    Add(Seq<char>, M),
    /// `finish_collection`.
    Finish,
    /// `delete_metrics` with this id.
    Delete(Seq<char>),
}

impl<M> StoreOp<M> {
    /// The store after the call, if it was `s` before.
    pub open spec fn apply(self, s: StoreView<M>) -> StoreView<M> {
        match self {
            StoreOp::Start => StoreView { current: s.current, staging: Map::empty() },
            StoreOp::Add(id, m) => StoreView {
                current: s.current,
                staging: s.staging.insert(id, m),
            },
            StoreOp::Finish => StoreView { current: s.staging, staging: Map::empty() },
            StoreOp::Delete(id) => StoreView {
                current: s.current.remove(id),
                staging: s.staging,
            },
        }
    }
}

/// The store after the calls `ops`, made in order on a store that was `s`.
pub open spec fn run_store_ops<M>(s: StoreView<M>, ops: Seq<StoreOp<M>>) -> StoreView<M>
    decreases ops.len(),
{
    if ops.len() == 0 {
        s
    } else {
        ops.last().apply(run_store_ops(s, ops.drop_last()))
    }
}

/// The current generation: what readers see.
pub struct CurrentBuffer<M> {
    entries: StrMap<CachedMetrics<M>>,
}

/// The staging generation: what the cycle in progress has recorded.
pub struct StagingBuffer<M> {
    entries: StrMap<CachedMetrics<M>>,
}

impl<M> View for CurrentBuffer<M> {
    type V = Map<Seq<char>, M>;

    closed spec fn view(&self) -> Map<Seq<char>, M> {
        self.entries@.map_values(|c: CachedMetrics<M>| c.metrics)
    }
}

impl<M> View for StagingBuffer<M> {
    type V = Map<Seq<char>, M>;

    closed spec fn view(&self) -> Map<Seq<char>, M> {
        self.entries@.map_values(|c: CachedMetrics<M>| c.metrics)
    }
}

impl<M> CurrentBuffer<M> {
    /// An empty generation.
    pub fn new() -> (buffer: Self)
        ensures
            buffer@ == Map::<Seq<char>, M>::empty(),
    {
        let buffer = CurrentBuffer { entries: StrMap::new() };
        assert(buffer@ =~= Map::<Seq<char>, M>::empty());
        buffer
    }

    /// The metrics of `sandbox_id`, if the generation holds any.
    pub fn get_metrics(&self, sandbox_id: &str) -> (found: Option<&CachedMetrics<M>>)
        ensures
            match found {
                Some(c) => self@.contains_key(sandbox_id@) && c.metrics == self@[sandbox_id@],
                None => !self@.contains_key(sandbox_id@),
            },
    {
        self.entries.get(sandbox_id)
    }

    /// Removes `sandbox_id`. Returns true iff the id was present.
    pub fn delete_metrics(&mut self, sandbox_id: &str) -> (was_present: bool)
        ensures
            was_present == old(self)@.contains_key(sandbox_id@),
            final(self)@ == old(self)@.remove(sandbox_id@),
    {
        let prior = self.entries.remove(sandbox_id);
        proof {
            assert(self@ =~= old(self)@.remove(sandbox_id@));
        }
        prior.is_some()
    }

    /// Publishes a cycle: what `staging` holds becomes this generation,
    /// whole, and `staging` is left empty.
    pub fn publish(&mut self, staging: &mut StagingBuffer<M>)
        ensures
            final(self)@ == old(staging)@,
            final(staging)@ == Map::<Seq<char>, M>::empty(),
    {
        let mut fresh: StrMap<CachedMetrics<M>> = StrMap::new();
        std::mem::swap(&mut staging.entries, &mut fresh);
        self.entries = fresh;
        proof {
            assert(staging@ =~= Map::<Seq<char>, M>::empty());
        }
    }
}

impl<M> StagingBuffer<M> {
    /// An empty generation.
    pub fn new() -> (buffer: Self)
        ensures
            buffer@ == Map::<Seq<char>, M>::empty(),
    {
        let buffer = StagingBuffer { entries: StrMap::new() };
        assert(buffer@ =~= Map::<Seq<char>, M>::empty());
        buffer
    }

    /// Starts a collection cycle: empties the generation.
    pub fn start_collection(&mut self)
        ensures
            final(self)@ == Map::<Seq<char>, M>::empty(),
    {
        self.entries.clear();
        proof {
            assert(self@ =~= Map::<Seq<char>, M>::empty());
        }
    }

    /// Records the metrics of one sandbox.
    pub fn add_metrics(&mut self, sandbox_id: String, metrics: M)
        ensures
            final(self)@ == old(self)@.insert(sandbox_id@, metrics),
    {
        self.entries.insert(sandbox_id.as_str(), CachedMetrics { metrics });
        proof {
            assert(self@ =~= old(self)@.insert(sandbox_id@, metrics));
        }
    }
}

/// Double-buffered cache for metrics from all sandboxes. The two
/// generations are separate values, so that each can be guarded on its own
/// and readers of the current one never wait for a writer of staging.
pub struct MetricsCache<M> {
    /// What readers see.
    pub current: CurrentBuffer<M>,
    /// What the cycle in progress has recorded.
    pub staging: StagingBuffer<M>,
}

impl<M> View for MetricsCache<M> {
    type V = StoreView<M>;

    open spec fn view(&self) -> StoreView<M> {
        StoreView { current: self.current@, staging: self.staging@ }
    }
}

impl<M> MetricsCache<M> {
    /// Create a new store with both generations empty.
    pub fn new() -> (cache: Self)
        ensures
            cache@.current == Map::<Seq<char>, M>::empty(),
            cache@.staging == Map::<Seq<char>, M>::empty(),
    {
        MetricsCache { current: CurrentBuffer::new(), staging: StagingBuffer::new() }
    }

    /// The metrics of `sandbox_id` in the current generation. Staging is not
    /// consulted.
    pub fn get_metrics(&self, sandbox_id: &str) -> (found: Option<&CachedMetrics<M>>)
        ensures
            match found {
                Some(c) => self@.current.contains_key(sandbox_id@) && c.metrics
                    == self@.current[sandbox_id@],
                None => !self@.current.contains_key(sandbox_id@),
            },
    {
        self.current.get_metrics(sandbox_id)
    }

    /// Starts a collection cycle: empties staging. Readers are not affected.
    pub fn start_collection(&mut self)
        ensures
            final(self)@ == StoreOp::<M>::Start.apply(old(self)@),
    {
        self.staging.start_collection();
    }

    /// Records the metrics of one sandbox in staging. Readers are not
    /// affected.
    pub fn add_metrics(&mut self, sandbox_id: String, metrics: M)
        ensures
            final(self)@ == StoreOp::Add(sandbox_id@, metrics).apply(old(self)@),
    {
        self.staging.add_metrics(sandbox_id, metrics);
    }

    /// Finishes a collection cycle: what staging holds becomes the current
    /// generation, whole, and staging is left empty.
    pub fn finish_collection(&mut self)
        ensures
            final(self)@ == StoreOp::<M>::Finish.apply(old(self)@),
    {
        self.current.publish(&mut self.staging);
    }

    /// Removes `sandbox_id` from the current generation; staging is not
    /// touched. Returns true iff the id was present.
    pub fn delete_metrics(&mut self, sandbox_id: &str) -> (was_present: bool)
        ensures
            was_present == old(self)@.current.contains_key(sandbox_id@),
            final(self)@ == StoreOp::<M>::Delete(sandbox_id@).apply(old(self)@),
    {
        self.current.delete_metrics(sandbox_id)
    }
}

impl<M> Default for MetricsCache<M> {
    fn default() -> (cache: Self)
        ensures
            cache@.current == Map::<Seq<char>, M>::empty(),
            cache@.staging == Map::<Seq<char>, M>::empty(),
    {
        Self::new()
    }
}

/// The metrics that a cycle publishes when `adds` were recorded in order:
/// for each id, those of its last record.
pub open spec fn collected<M>(adds: Seq<(Seq<char>, M)>) -> Map<Seq<char>, M>
    decreases adds.len(),
{
    if adds.len() == 0 {
        Map::empty()
    } else {
        collected(adds.drop_last()).insert(adds.last().0, adds.last().1)
    }
}

/// The calls of one cycle up to, but not including, its finish: the start
/// and the first `k` records of `adds`.
pub open spec fn cycle_prefix<M>(adds: Seq<(Seq<char>, M)>, k: int) -> Seq<StoreOp<M>>
    recommends
        0 <= k <= adds.len(),
{
    seq![StoreOp::Start] + Seq::new(k as nat, |i: int| StoreOp::Add(adds[i].0, adds[i].1))
}

/// Double-buffer atomicity. At every point of a collection cycle before its
/// finish, readers see exactly the prior generation; once it has finished
/// they see exactly what the whole cycle collected. No partly filled
/// generation is ever visible.
pub proof fn lemma_cycle_is_atomic<M>(s: StoreView<M>, adds: Seq<(Seq<char>, M)>, k: int)
    requires
        0 <= k <= adds.len(),
    ensures
        run_store_ops(s, cycle_prefix(adds, k)).current == s.current,
        run_store_ops(s, cycle_prefix(adds, k)).staging == collected(adds.take(k)),
        run_store_ops(s, cycle_prefix(adds, adds.len() as int).push(StoreOp::Finish)).current
            == collected(adds),
        run_store_ops(s, cycle_prefix(adds, adds.len() as int).push(StoreOp::Finish)).staging
            == Map::<Seq<char>, M>::empty(),
{
    lemma_cycle_prefix(s, adds, k);
    lemma_cycle_prefix(s, adds, adds.len() as int);
    let whole = cycle_prefix(adds, adds.len() as int);
    assert(whole.push(StoreOp::Finish).drop_last() =~= whole);
    assert(adds.take(adds.len() as int) =~= adds);
}

proof fn lemma_cycle_prefix<M>(s: StoreView<M>, adds: Seq<(Seq<char>, M)>, k: int)
    requires
        0 <= k <= adds.len(),
    ensures
        run_store_ops(s, cycle_prefix(adds, k)).current == s.current,
        run_store_ops(s, cycle_prefix(adds, k)).staging == collected(adds.take(k)),
    decreases k,
{
    let ops = cycle_prefix(adds, k);
    if k == 0 {
        assert(ops =~= seq![StoreOp::Start]);
        assert(ops.drop_last() =~= Seq::<StoreOp<M>>::empty());
        assert(run_store_ops(s, ops.drop_last()) == s);
        assert(adds.take(0) =~= Seq::<(Seq<char>, M)>::empty());
    } else {
        lemma_cycle_prefix(s, adds, k - 1);
        assert(ops.drop_last() =~= cycle_prefix(adds, k - 1));
        assert(ops.last() == StoreOp::Add(adds[k - 1].0, adds[k - 1].1));
        assert(adds.take(k).drop_last() =~= adds.take(k - 1));
        assert(adds.take(k).last() == adds[k - 1]);
    }
}

/// Deleting is idempotent. After `delete_metrics(id)` the id is absent from
/// the current generation and a second delete finds nothing to remove.
/// Records made by a cycle in progress do not bring the id back before that
/// cycle finishes; when it does, the id is present again exactly if staging
/// held it.
pub proof fn lemma_delete_is_idempotent<M>(s: StoreView<M>, id: Seq<char>, adds: Seq<(Seq<char>, M)>)
    ensures
        !StoreOp::<M>::Delete(id).apply(s).current.contains_key(id),
        StoreOp::<M>::Delete(id).apply(StoreOp::<M>::Delete(id).apply(s)) == StoreOp::<M>::Delete(
            id,
        ).apply(s),
        !run_adds(StoreOp::<M>::Delete(id).apply(s), adds).current.contains_key(id),
        StoreOp::<M>::Finish.apply(
            run_adds(StoreOp::<M>::Delete(id).apply(s), adds),
        ).current.contains_key(id) == run_adds(s, adds).staging.contains_key(id),
{
    let once = StoreOp::<M>::Delete(id).apply(s);
    assert(once.current.remove(id) =~= once.current);
    lemma_adds_keep_current(once, adds);
    lemma_adds_keep_current(s, adds);
    lemma_adds_staging(once, s, adds);
}

/// The store after the records `adds`, made in order on a store that was `s`.
pub open spec fn run_adds<M>(s: StoreView<M>, adds: Seq<(Seq<char>, M)>) -> StoreView<M>
    decreases adds.len(),
{
    if adds.len() == 0 {
        s
    } else {
        StoreOp::Add(adds.last().0, adds.last().1).apply(run_adds(s, adds.drop_last()))
    }
}

proof fn lemma_adds_keep_current<M>(s: StoreView<M>, adds: Seq<(Seq<char>, M)>)
    ensures
        run_adds(s, adds).current == s.current,
    decreases adds.len(),
{
    if adds.len() > 0 {
        lemma_adds_keep_current(s, adds.drop_last());
    }
}

proof fn lemma_adds_staging<M>(a: StoreView<M>, b: StoreView<M>, adds: Seq<(Seq<char>, M)>)
    requires
        a.staging == b.staging,
    ensures
        run_adds(a, adds).staging == run_adds(b, adds).staging,
    decreases adds.len(),
{
    if adds.len() > 0 {
        lemma_adds_staging(a, b, adds.drop_last());
    }
}

} // verus!
