//! Lifecycle reconciler: keeps the registry in agreement with the sandbox
//! directories on disk, and has the registry enriched with pod metadata.
//!
//! Reading the directory, asking the runtime and sleeping are the caller's
//! part. The functions here take what was read and decide what changes.

use crate::monitor::cri::{pod_views, sync_pods, sync_sandboxes, PodSandbox, SyncState};
use crate::monitor::metrics_cache::CurrentBuffer;
use crate::monitor::sandbox_cache::{
    empty_metadata,
    MetadataView,
    SandboxCRIMetadata,
    SandboxCache,
};
use crate::text::{clone_list, lemma_texts_push, list_contains, texts};
use vstd::prelude::*;

verus! {

/// Seconds to wait before the sandbox directory is read again after it
/// could not be read.
pub const FS_MONITOR_RETRY_DELAY_SECONDS: u64 = 60;

/// Seconds between two metadata syncs.
pub const POD_CACHE_REFRESH_DELAY_SECONDS: u64 = 5;

/// Seconds between two filesystem reconciliations.
pub const FS_CHECK_INTERVAL_SECONDS: u64 = 5;

/// Milliseconds that the monitoring loop sleeps between two ticks.
pub const MONITOR_POLL_MILLIS: u64 = 100;

/// Where the reconciler stands in its life.
#[derive(Debug, Clone, Copy, PartialEq, Eq, Structural)]
pub enum ManagerPhase {
    /// Not started.
    Unready,
    /// Started; the sandbox directory has not been read successfully yet.
    Scanning,
    /// The initial inventory is in the registry; changes are followed.
    Monitoring,
}

/// What `start` asks of its caller.
#[derive(Debug)]
pub enum StartStep {
    /// The inventory was taken: monitor the directory, starting from this
    /// list of tracked ids.
    Monitor(Vec<String>),
    /// The directory could not be read: wait this many seconds and read it
    /// again.
    RetryAfter(u64),
}

/// Which of the two periodic actions are due at a tick.
#[derive(Debug, Clone, Copy, PartialEq, Eq, Structural)]
pub struct TickPlan {
    /// Sync the metadata now.
    pub sync_metadata: bool,
    /// Reconcile with the filesystem now.
    pub check_filesystem: bool,
}

/// State of the monitoring loop: the tracked ids and the times, in
/// milliseconds, at which each periodic action is next due.
#[derive(Debug)]
pub struct MonitorState {
    pub sandbox_list: Vec<String>,
    pub next_cache_update: u64,
    pub next_fs_check: u64,
}

impl MonitorState {
    /// One turn of the monitoring loop at time `now`, in milliseconds. An
    /// action is due when its time has come; it is then next due one period
    /// after `now`. The two actions are timed independently, and the tracked
    /// ids are not touched.
    pub fn tick(&mut self, now: u64) -> (plan: TickPlan)
        ensures
            plan.sync_metadata == (now >= old(self).next_cache_update),
            plan.check_filesystem == (now >= old(self).next_fs_check),
            final(self).next_cache_update == if plan.sync_metadata {
                deadline(now, POD_CACHE_REFRESH_DELAY_SECONDS)
            } else {
                old(self).next_cache_update
            },
            final(self).next_fs_check == if plan.check_filesystem {
                deadline(now, FS_CHECK_INTERVAL_SECONDS)
            } else {
                old(self).next_fs_check
            },
            final(self).sandbox_list == old(self).sandbox_list,
    {
        let sync_metadata = now >= self.next_cache_update;
        if sync_metadata {
            self.next_cache_update = after_seconds(now, POD_CACHE_REFRESH_DELAY_SECONDS);
        }
        let check_filesystem = now >= self.next_fs_check;
        if check_filesystem {
            self.next_fs_check = after_seconds(now, FS_CHECK_INTERVAL_SECONDS);
        }
        TickPlan { sync_metadata, check_filesystem }
    }
}

/// The time, in milliseconds, that lies `seconds` seconds after `now`, or
/// the latest time that can be told if that comes first.
pub open spec fn deadline(now: u64, seconds: u64) -> u64 {
    if now + seconds * 1000 <= u64::MAX {
        (now + seconds * 1000) as u64
    } else {
        u64::MAX
    }
}

fn after_seconds(now: u64, seconds: u64) -> (at: u64)
    ensures
        at == deadline(now, seconds),
{
    match seconds.checked_mul(1000) {
        Some(millis) => match now.checked_add(millis) {
            Some(at) => at,
            None => u64::MAX,
        },
        None => u64::MAX,
    }
}

/// The names of `listing` that are neither tracked nor registered: each
/// once, in the order of their first occurrence.
pub open spec fn discovered(
    listing: Seq<Seq<char>>,
    known: Seq<Seq<char>>,
    registered: Set<Seq<char>>,
) -> Seq<Seq<char>>
    decreases listing.len(),
{
    if listing.len() == 0 {
        Seq::empty()
    } else {
        let earlier = discovered(listing.drop_last(), known, registered);
        let name = listing.last();
        if known.contains(name) || registered.contains(name) || earlier.contains(name) {
            earlier
        } else {
            earlier.push(name)
        }
    }
}

/// The ids that are tracked and registered, and that are no longer in
/// `listing`.
pub open spec fn vanished(
    listing: Seq<Seq<char>>,
    known: Seq<Seq<char>>,
    registered: Set<Seq<char>>,
) -> Set<Seq<char>> {
    Set::new(
        |id: Seq<char>| known.contains(id) && registered.contains(id) && !listing.contains(id),
    )
}

/// `list` without the elements that are in `gone`.
pub open spec fn without(list: Seq<Seq<char>>, gone: Set<Seq<char>>) -> Seq<Seq<char>>
    decreases list.len(),
{
    if list.len() == 0 {
        Seq::empty()
    } else if gone.contains(list.last()) {
        without(list.drop_last(), gone)
    } else {
        without(list.drop_last(), gone).push(list.last())
    }
}

/// `registry` with an entry of empty metadata for each of `names` that it
/// did not hold.
pub open spec fn with_discovered(
    registry: Map<Seq<char>, MetadataView>,
    names: Seq<Seq<char>>,
) -> Map<Seq<char>, MetadataView> {
    Map::new(
        |id: Seq<char>| registry.contains_key(id) || names.contains(id),
        |id: Seq<char>|
            if registry.contains_key(id) {
                registry[id]
            } else {
                empty_metadata()
            },
    )
}

proof fn lemma_discovered_step(
    listing: Seq<Seq<char>>,
    known: Seq<Seq<char>>,
    registered: Set<Seq<char>>,
    i: int,
)
    requires
        0 <= i < listing.len(),
    ensures
        discovered(listing.take(i + 1), known, registered) == ({
            let earlier = discovered(listing.take(i), known, registered);
            if known.contains(listing[i]) || registered.contains(listing[i]) || earlier.contains(
                listing[i],
            ) {
                earlier
            } else {
                earlier.push(listing[i])
            }
        }),
{
    assert(listing.take(i + 1).drop_last() =~= listing.take(i));
    assert(listing.take(i + 1).last() == listing[i]);
}

proof fn lemma_discovered_facts(
    listing: Seq<Seq<char>>,
    known: Seq<Seq<char>>,
    registered: Set<Seq<char>>,
)
    ensures
        forall|id: Seq<char>| #[trigger]
            discovered(listing, known, registered).contains(id) ==> listing.contains(id)
                && !known.contains(id) && !registered.contains(id),
        forall|id: Seq<char>| #[trigger]
            listing.contains(id) ==> known.contains(id) || registered.contains(id) || discovered(
                listing,
                known,
                registered,
            ).contains(id),
    decreases listing.len(),
{
    let found = discovered(listing, known, registered);
    if listing.len() > 0 {
        let rest = listing.drop_last();
        let earlier = discovered(rest, known, registered);
        let name = listing.last();
        lemma_discovered_facts(rest, known, registered);
        assert(listing[listing.len() - 1] == name);
        assert forall|id: Seq<char>| #[trigger] found.contains(id) implies listing.contains(id)
            && !known.contains(id) && !registered.contains(id) by {
            let k = choose|k: int| 0 <= k < found.len() && found[k] == id;
            if k < earlier.len() {
                assert(earlier[k] == id);
                assert(earlier.contains(id));
                let j = choose|j: int| 0 <= j < rest.len() && rest[j] == id;
                assert(listing[j] == id);
            }
        }
        assert forall|id: Seq<char>| #[trigger] listing.contains(id) implies known.contains(id)
            || registered.contains(id) || found.contains(id) by {
            let j = choose|j: int| 0 <= j < listing.len() && listing[j] == id;
            if j < rest.len() {
                assert(rest[j] == id);
                assert(rest.contains(id));
                if earlier.contains(id) {
                    let k = choose|k: int| 0 <= k < earlier.len() && earlier[k] == id;
                    assert(found[k] == id);
                }
            } else {
                if !known.contains(id) && !registered.contains(id) && !earlier.contains(id) {
                    assert(found[earlier.len() as int] == id);
                } else if earlier.contains(id) {
                    let k = choose|k: int| 0 <= k < earlier.len() && earlier[k] == id;
                    assert(found[k] == id);
                }
            }
        }
    }
}

proof fn lemma_without_step(list: Seq<Seq<char>>, gone: Set<Seq<char>>, i: int)
    requires
        0 <= i < list.len(),
    ensures
        without(list.take(i + 1), gone) == if gone.contains(list[i]) {
            without(list.take(i), gone)
        } else {
            without(list.take(i), gone).push(list[i])
        },
{
    assert(list.take(i + 1).drop_last() =~= list.take(i));
    assert(list.take(i + 1).last() == list[i]);
}

proof fn lemma_contains_push(list: Seq<Seq<char>>, x: Seq<char>, id: Seq<char>)
    ensures
        list.push(x).contains(id) <==> list.contains(id) || id == x,
{
    if list.contains(id) {
        let k = choose|k: int| 0 <= k < list.len() && list[k] == id;
        assert(list.push(x)[k] == id);
    }
    if id == x {
        assert(list.push(x)[list.len() as int] == id);
    }
}

proof fn lemma_contains_add(a: Seq<Seq<char>>, b: Seq<Seq<char>>, id: Seq<char>)
    ensures
        (a + b).contains(id) <==> a.contains(id) || b.contains(id),
{
    if a.contains(id) {
        let k = choose|k: int| 0 <= k < a.len() && a[k] == id;
        assert((a + b)[k] == id);
    }
    if b.contains(id) {
        let k = choose|k: int| 0 <= k < b.len() && b[k] == id;
        assert((a + b)[a.len() + k] == id);
    }
    if (a + b).contains(id) {
        let k = choose|k: int| 0 <= k < (a + b).len() && (a + b)[k] == id;
        if k < a.len() {
            assert(a[k] == id);
        } else {
            assert(b[k - a.len()] == id);
        }
    }
}

proof fn lemma_contains_take(list: Seq<Seq<char>>, i: int, id: Seq<char>)
    requires
        0 <= i < list.len(),
    ensures
        list.take(i + 1).contains(id) <==> list.take(i).contains(id) || id == list[i],
{
    assert(list.take(i + 1) =~= list.take(i).push(list[i]));
    lemma_contains_push(list.take(i), list[i], id);
}

proof fn lemma_without_contains(list: Seq<Seq<char>>, gone: Set<Seq<char>>, id: Seq<char>)
    ensures
        without(list, gone).contains(id) <==> list.contains(id) && !gone.contains(id),
    decreases list.len(),
{
    if list.len() > 0 {
        let rest = list.drop_last();
        lemma_without_contains(rest, gone, id);
        assert(list =~= rest.push(list.last()));
        lemma_contains_push(rest, list.last(), id);
        if !gone.contains(list.last()) {
            lemma_contains_push(without(rest, gone), list.last(), id);
        }
    }
}

/// Reconciliation brings the tracked ids and the registry into agreement
/// with the directory. After a filesystem pass over `listing`, every name of
/// the listing is tracked or registered, no id that is both tracked and
/// registered is missing from the listing, and an id that was neither found
/// nor gone is tracked and registered exactly as before.
pub proof fn lemma_pass_agrees_with_listing(
    listing: Seq<Seq<char>>,
    known: Seq<Seq<char>>,
    registry: Map<Seq<char>, MetadataView>,
)
    ensures
        ({
            let found = discovered(listing, known, registry.dom());
            let gone = vanished(listing, known, registry.dom());
            let known_after = without(known + found, gone);
            let registry_after = with_discovered(registry, found).remove_keys(gone);
            &&& forall|id: Seq<char>| #[trigger]
                listing.contains(id) ==> known_after.contains(id) || registry_after.contains_key(
                    id,
                )
            &&& vanished(listing, known_after, registry_after.dom()) == Set::<Seq<char>>::empty()
            &&& forall|id: Seq<char>|
                !found.contains(id) && !gone.contains(id) ==> (#[trigger] known_after.contains(id)
                    <==> known.contains(id)) && (registry_after.contains_key(id)
                    <==> registry.contains_key(id))
            &&& forall|id: Seq<char>| #[trigger]
                registry_after.contains_key(id) && registry.contains_key(id)
                    ==> registry_after[id] == registry[id]
        }),
{
    let found = discovered(listing, known, registry.dom());
    let gone = vanished(listing, known, registry.dom());
    let known_after = without(known + found, gone);
    let registry_after = with_discovered(registry, found).remove_keys(gone);
    lemma_discovered_facts(listing, known, registry.dom());
    assert forall|id: Seq<char>|
        known_after.contains(id) <==> (known.contains(id) || found.contains(id)) && !gone.contains(
            id,
        ) by {
        lemma_without_contains(known + found, gone, id);
        lemma_contains_add(known, found, id);
    }
    assert(vanished(listing, known_after, registry_after.dom()) =~= Set::<Seq<char>>::empty());
}

/// Removes from `list`, in place, the elements that occur in `gone`.
fn retain_absent(list: &mut Vec<String>, gone: &Vec<String>)
    ensures
        texts(final(list)@) == without(texts(old(list)@), texts(gone@).to_set()),
{
    let ghost start = texts(list@);
    let ghost gone_set = texts(gone@).to_set();
    let ghost mut seen: int = 0;
    let mut i: usize = 0;
    while i < list.len()
        invariant
            0 <= i <= list@.len(),
            i <= seen,
            seen + (list@.len() - i) == start.len(),
            texts(list@).take(i as int) == without(start.take(seen), gone_set),
            texts(list@).skip(i as int) == start.skip(seen),
            gone_set == texts(gone@).to_set(),
        decreases list@.len() - i,
    {
        proof {
            assert(texts(list@).skip(i as int)[0] == start.skip(seen)[0]);
            assert(list@[i as int]@ == start[seen]);
            lemma_without_step(start, gone_set, seen);
        }
        let ghost before = texts(list@);
        if list_contains(gone, list[i].as_str()) {
            list.remove(i);
            proof {
                assert(texts(list@) =~= before.remove(i as int));
                assert(texts(list@).take(i as int) =~= before.take(i as int));
                assert(texts(list@).skip(i as int) =~= before.skip(i as int).skip(1));
                assert(start.skip(seen).skip(1) =~= start.skip(seen + 1));
                seen = seen + 1;
            }
        } else {
            proof {
                assert(before.take(i + 1) =~= before.take(i as int).push(before[i as int]));
                assert(before.skip(i + 1) =~= before.skip(i as int).skip(1));
                assert(start.skip(seen).skip(1) =~= start.skip(seen + 1));
                seen = seen + 1;
            }
            i += 1;
        }
    }
    proof {
        assert(texts(list@).take(i as int) =~= texts(list@));
        assert(start.take(seen) =~= start);
    }
}

/// Manages the registry: monitors the sandbox directory for additions and
/// deletions and has the metadata synced from the container runtime.
pub struct SandboxCacheManager {
    runtime_endpoint: String,
    phase: ManagerPhase,
}

impl SandboxCacheManager {
    /// Create a new sandbox cache manager. It is not started yet.
    pub fn new(runtime_endpoint: String) -> (manager: Self)
        ensures
            manager.endpoint_text() == runtime_endpoint@,
            manager.current_phase() == ManagerPhase::Unready,
    {
        SandboxCacheManager { runtime_endpoint, phase: ManagerPhase::Unready }
    }

    /// The endpoint of the container runtime, as text.
    pub closed spec fn endpoint_text(&self) -> Seq<char> {
        self.runtime_endpoint@
    }

    /// The phase that the manager is in.
    pub closed spec fn current_phase(&self) -> ManagerPhase {
        self.phase
    }

    /// The endpoint of the container runtime.
    pub fn runtime_endpoint(&self) -> (endpoint: &str)
        ensures
            endpoint@ == self.endpoint_text(),
    {
        self.runtime_endpoint.as_str()
    }

    /// The phase that the manager is in.
    pub fn phase(&self) -> (phase: ManagerPhase)
        ensures
            phase == self.current_phase(),
    {
        self.phase
    }

    /// Takes in one attempt to read the sandbox directory at start-up.
    ///
    /// `listing` holds the names of the directory's entries, or nothing if the
    /// directory could not be read. With a listing, every name becomes a
    /// tracked id and is registered with empty metadata unless it is
    /// registered already, and the manager goes on to monitoring. Without
    /// one nothing changes but the phase, and the caller is told to try again
    /// after the retry delay, however often that has happened before.
    pub fn start(&mut self, cache: &mut SandboxCache, listing: Option<Vec<String>>) -> (step:
        StartStep)
        ensures
            final(self).endpoint_text() == old(self).endpoint_text(),
            match listing {
                Some(names) => {
                    &&& final(self).current_phase() == ManagerPhase::Monitoring
                    &&& step matches StartStep::Monitor(sandbox_list)
                    &&& texts(sandbox_list@) == texts(names@)
                    &&& final(cache)@ == with_discovered(old(cache)@, texts(names@))
                },
                None => {
                    &&& final(self).current_phase() == if old(self).current_phase()
                        == ManagerPhase::Monitoring {
                        ManagerPhase::Monitoring
                    } else {
                        ManagerPhase::Scanning
                    }
                    &&& step matches StartStep::RetryAfter(seconds)
                    &&& seconds == FS_MONITOR_RETRY_DELAY_SECONDS
                    &&& final(cache)@ == old(cache)@
                },
            },
    {
        let names = match listing {
            Some(names) => names,
            None => {
                if self.phase != ManagerPhase::Monitoring {
                    self.phase = ManagerPhase::Scanning;
                }
                return StartStep::RetryAfter(FS_MONITOR_RETRY_DELAY_SECONDS);
            },
        };
        let mut i: usize = 0;
        while i < names.len()
            invariant
                i <= names@.len(),
                cache@ == with_discovered(old(cache)@, texts(names@).take(i as int)),
            decreases names@.len() - i,
        {
            cache.put_if_not_exists(names[i].as_str(), SandboxCRIMetadata::default());
            proof {
                let name = names@[i as int]@;
                assert(texts(names@)[i as int] == name);
                assert forall|id: Seq<char>|
                    texts(names@).take(i + 1).contains(id) <==> texts(names@).take(
                        i as int,
                    ).contains(id) || id == name by {
                    lemma_contains_take(texts(names@), i as int, id);
                }
                assert(cache@ =~= with_discovered(old(cache)@, texts(names@).take(i + 1)));
            }
            i += 1;
        }
        proof {
            assert(texts(names@).take(names@.len() as int) =~= texts(names@));
        }
        self.phase = ManagerPhase::Monitoring;
        StartStep::Monitor(names)
    }

    /// The state with which monitoring begins at time `now`, in
    /// milliseconds: the tracked ids are those of `initial_list`, and both
    /// periodic actions are first due one period from now.
    pub fn monitor_directory(&self, initial_list: &Vec<String>, now: u64) -> (state: MonitorState)
        ensures
            texts(state.sandbox_list@) == texts(initial_list@),
            state.next_cache_update == deadline(now, POD_CACHE_REFRESH_DELAY_SECONDS),
            state.next_fs_check == deadline(now, FS_CHECK_INTERVAL_SECONDS),
    {
        let sandbox_list = clone_list(initial_list);
        MonitorState {
            sandbox_list,
            next_cache_update: after_seconds(now, POD_CACHE_REFRESH_DELAY_SECONDS),
            next_fs_check: after_seconds(now, FS_CHECK_INTERVAL_SECONDS),
        }
    }

    /// Metadata sync: has the registry enriched from what the runtime
    /// answered, if it answered.
    ///
    /// The tracked ids are never replaced or shrunk by a sync, whatever the
    /// runtime answered and whichever ids it matched: a sandbox that awaits
    /// metadata still exists. Only `check_filesystem_changes` adds or removes
    /// tracked ids. A sync without an answer changes nothing at all.
    pub fn sync_cri_metadata(
        &self,
        cache: &mut SandboxCache,
        sandbox_list: &mut Vec<String>,
        listing: Option<Vec<PodSandbox>>,
    )
        ensures
            texts(final(sandbox_list)@) == texts(old(sandbox_list)@),
            final(cache)@ == match listing {
                None => old(cache)@,
                Some(pods) => sync_pods(
                    SyncState { registry: old(cache)@, pending: texts(old(sandbox_list)@) },
                    pod_views(pods@),
                ).registry,
            },
    {
        let pending = clone_list(sandbox_list);
        sync_sandboxes(cache, pending, listing);
    }

    /// Filesystem reconciliation: brings the tracked ids, the registry and
    /// the metrics store into agreement with the directory's entries.
    ///
    /// `listing` holds the names of the entries, or nothing if the directory
    /// could not be read, in which case nothing changes. Every name that is
    /// neither tracked nor registered is registered with empty metadata and
    /// tracked from now on. Every tracked id that is registered and no longer
    /// listed leaves the registry, the current generation of the metrics
    /// store and the tracked ids. Staging is out of reach of this function.
    pub fn check_filesystem_changes<M>(
        &self,
        cache: &mut SandboxCache,
        metrics: &mut CurrentBuffer<M>,
        sandbox_list: &mut Vec<String>,
        listing: Option<Vec<String>>,
    )
        ensures
            match listing {
                None => {
                    &&& texts(final(sandbox_list)@) == texts(old(sandbox_list)@)
                    &&& final(cache)@ == old(cache)@
                    &&& final(metrics)@ == old(metrics)@
                },
                Some(names) => {
                    let found = discovered(
                        texts(names@),
                        texts(old(sandbox_list)@),
                        old(cache)@.dom(),
                    );
                    let gone = vanished(
                        texts(names@),
                        texts(old(sandbox_list)@),
                        old(cache)@.dom(),
                    );
                    &&& texts(final(sandbox_list)@) == without(
                        texts(old(sandbox_list)@) + found,
                        gone,
                    )
                    &&& final(cache)@ == with_discovered(old(cache)@, found).remove_keys(gone)
                    &&& final(metrics)@ == old(metrics)@.remove_keys(gone)
                },
            },
    {
        let current_list = match listing {
            Some(names) => names,
            None => {
                return ;
            },
        };
        let ghost listed = texts(current_list@);
        let ghost known0 = texts(sandbox_list@);
        let ghost registry0 = cache@;
        let ghost store0 = metrics@;

        // New sandboxes.
        let mut i: usize = 0;
        while i < current_list.len()
            invariant
                i <= current_list@.len(),
                listed == texts(current_list@),
                texts(sandbox_list@) == known0 + discovered(
                    listed.take(i as int),
                    known0,
                    registry0.dom(),
                ),
                cache@ == with_discovered(
                    registry0,
                    discovered(listed.take(i as int), known0, registry0.dom()),
                ),
            decreases current_list@.len() - i,
        {
            let sandbox = &current_list[i];
            let ghost earlier = discovered(listed.take(i as int), known0, registry0.dom());
            proof {
                assert(listed[i as int] == sandbox@);
                lemma_discovered_step(listed, known0, registry0.dom(), i as int);
                lemma_contains_add(known0, earlier, sandbox@);
            }
            let known = list_contains(sandbox_list, sandbox.as_str());
            if !known {
                let registered = cache.get_sandbox_list();
                let is_registered = list_contains(&registered, sandbox.as_str());
                proof {
                    assert(texts(registered@).to_set().contains(sandbox@) == texts(
                        registered@,
                    ).contains(sandbox@));
                    assert(is_registered == cache@.dom().contains(sandbox@));
                    assert(cache@.contains_key(sandbox@) == (registry0.contains_key(sandbox@)
                        || earlier.contains(sandbox@)));
                }
                if !is_registered {
                    let inserted = cache.put_if_not_exists(
                        sandbox.as_str(),
                        SandboxCRIMetadata::default(),
                    );
                    assert(inserted);
                    let added = sandbox.clone();
                    proof {
                        lemma_texts_push(sandbox_list@, added);
                    }
                    sandbox_list.push(added);
                    proof {
                        assert(texts(sandbox_list@) =~= known0 + earlier.push(sandbox@));
                        assert forall|id: Seq<char>|
                            earlier.push(sandbox@).contains(id) <==> earlier.contains(id) || id
                                == sandbox@ by {
                            lemma_contains_push(earlier, sandbox@, id);
                        }
                        assert(cache@ =~= with_discovered(registry0, earlier.push(sandbox@)));
                    }
                }
            }
            i += 1;
        }
        proof {
            assert(listed.take(current_list@.len() as int) =~= listed);
        }
        let ghost found = discovered(listed, known0, registry0.dom());
        let ghost known1 = texts(sandbox_list@);
        let ghost registry1 = cache@;

        // Deleted sandboxes.
        let mut to_remove: Vec<String> = Vec::new();
        let mut j: usize = 0;
        while j < sandbox_list.len()
            invariant
                j <= sandbox_list@.len(),
                listed == texts(current_list@),
                known1 == texts(sandbox_list@),
                texts(to_remove@).to_set() == leaving(listed, known1.take(j as int), registry1),
                cache@ == registry1.remove_keys(
                    leaving(listed, known1.take(j as int), registry1),
                ),
                metrics@ == store0.remove_keys(leaving(listed, known1.take(j as int), registry1)),
            decreases sandbox_list@.len() - j,
        {
            let sandbox = &sandbox_list[j];
            let ghost so_far = leaving(listed, known1.take(j as int), registry1);
            let ghost next = leaving(listed, known1.take(j + 1), registry1);
            proof {
                assert(known1[j as int] == sandbox@);
                assert forall|id: Seq<char>|
                    known1.take(j + 1).contains(id) <==> known1.take(j as int).contains(id)
                        || id == sandbox@ by {
                    lemma_contains_take(known1, j as int, id);
                }
            }
            if !list_contains(&current_list, sandbox.as_str()) {
                
                if cache.delete_if_exists(sandbox.as_str()) {
                    metrics.delete_metrics(sandbox.as_str());
                    let ghost removed_before = texts(to_remove@);
                    let leaver = sandbox.clone();
                    proof {
                        lemma_texts_push(to_remove@, leaver);
                    }
                    to_remove.push(leaver);
                    proof {
                        assert(next =~= so_far.insert(sandbox@));
                        assert(texts(to_remove@) =~= removed_before.push(sandbox@));
                        assert forall|id: Seq<char>|
                            removed_before.push(sandbox@).contains(id) <==> removed_before.contains(
                                id,
                            ) || id == sandbox@ by {
                            lemma_contains_push(removed_before, sandbox@, id);
                        }
                        assert(texts(to_remove@).to_set() =~= next);
                        assert(cache@ =~= registry1.remove_keys(next));
                        assert(metrics@ =~= store0.remove_keys(next));
                    }
                } else {
                    proof {
                        assert(next =~= so_far);
                    }
                }
            } else {
                proof {
                    assert(next =~= so_far);
                }
            }
            j += 1;
        }
        proof {
            assert(known1.take(sandbox_list@.len() as int) =~= known1);
        }
        let ghost gone = leaving(listed, known1, registry1);
        retain_absent(sandbox_list, &to_remove);
        proof {
            lemma_discovered_facts(listed, known0, registry0.dom());
            assert(gone =~= vanished(listed, known0, registry0.dom())) by {
                assert forall|id: Seq<char>| gone.contains(id) <==> vanished(
                    listed,
                    known0,
                    registry0.dom(),
                ).contains(id) by {
                    lemma_contains_add(known0, found, id);
                }
            }
        }
    }
}

/// The ids of `tracked` that are registered in `registry` and not in
/// `listing`.
pub open spec fn leaving(
    listing: Seq<Seq<char>>,
    known: Seq<Seq<char>>,
    registry: Map<Seq<char>, MetadataView>,
) -> Set<Seq<char>> {
    Set::new(
        |id: Seq<char>| known.contains(id) && registry.contains_key(id) && !listing.contains(id),
    )
}

} // verus!
