//! Enrichment of the registry with the pod metadata that the container
//! runtime reports.

use crate::monitor::cri_client::{duration_nanos, CRIClient, CRIClientConfig, ConnectionState};
use crate::monitor::sandbox_cache::{MetadataView, SandboxCRIMetadata, SandboxCache};
use crate::text::{position, texts};
use std::time::Duration;
use vstd::prelude::*;

verus! {

/// Identity of a pod as the runtime reports it.
#[derive(Debug)]
pub struct PodSandboxMetadata {
    pub uid: String,
    pub name: String,
    pub namespace: String,
}

/// One pod sandbox of the runtime's list.
#[derive(Debug)]
pub struct PodSandbox {
    /// Id of the sandbox.
    pub id: String,
    /// Metadata of the pod, where the runtime has any.
    pub metadata: Option<PodSandboxMetadata>,
}

/// A pod sandbox as plain values: its id and the metadata that enrichment
/// stores for it.
pub struct PodView {
    pub id: Seq<char>,
    pub metadata: MetadataView,
}

impl View for PodSandbox {
    type V = PodView;

    /// A pod without metadata is enriched with three empty fields.
    open spec fn view(&self) -> PodView {
        PodView {
            id: self.id@,
            metadata: match self.metadata {
                Some(m) => MetadataView { uid: m.uid@, name: m.name@, namespace: m.namespace@ },
                None => MetadataView {
                    uid: Seq::empty(),
                    name: Seq::empty(),
                    namespace: Seq::empty(),
                },
            },
        }
    }
}

/// The view of each pod of a list.
pub open spec fn pod_views(pods: Seq<PodSandbox>) -> Seq<PodView> {
    Seq::new(pods.len(), |i: int| pods[i]@)
}

/// Create the CRI client for `endpoint`, with a timeout of ten seconds and
/// three retries. It is not connected yet.
pub fn init_cri_client(endpoint: &str) -> (client: CRIClient)
    ensures
        client.state() == ConnectionState::Disconnected,
        client.config().endpoint@ == endpoint@,
        duration_nanos(client.config().timeout) == 10_000_000_000nat,
        client.config().max_retries == 3,
        duration_nanos(client.config().retry_backoff) == 100_000_000nat,
{
    let config = CRIClientConfig::with_endpoint(endpoint).with_timeout(
        Duration::from_secs(10),
    ).with_max_retries(3);
    CRIClient::new(config)
}

/// `list` without the first occurrence of `id`.
pub open spec fn remove_first(list: Seq<Seq<char>>, id: Seq<char>) -> Seq<Seq<char>>
    decreases list.len(),
{
    if list.len() == 0 {
        list
    } else if list[0] == id {
        list.drop_first()
    } else {
        seq![list[0]] + remove_first(list.drop_first(), id)
    }
}

/// The registry and the list of sandboxes that still await metadata.
pub struct SyncState {
    pub registry: Map<Seq<char>, MetadataView>,
    pub pending: Seq<Seq<char>>,
}

/// Takes in one pod of the runtime's list. A pod whose id is pending has its
/// metadata stored, all three fields at once, and its id leaves the pending
/// list. Any other pod changes nothing.
pub open spec fn sync_pod(s: SyncState, pod: PodView) -> SyncState {
    if s.pending.contains(pod.id) {
        SyncState {
            registry: s.registry.insert(pod.id, pod.metadata),
            pending: remove_first(s.pending, pod.id),
        }
    } else {
        s
    }
}

/// Takes in the pods of the runtime's list, in order.
pub open spec fn sync_pods(s: SyncState, pods: Seq<PodView>) -> SyncState
    decreases pods.len(),
{
    if pods.len() == 0 {
        s
    } else {
        sync_pod(sync_pods(s, pods.drop_last()), pods.last())
    }
}

/// Enrichment only adds to the registry and only shortens the list of
/// pending ids: every id that was registered stays registered, and every id
/// that is still pending was pending before.
pub proof fn lemma_sync_keeps_sandboxes(s: SyncState, pods: Seq<PodView>)
    ensures
        forall|id: Seq<char>| #[trigger]
            s.registry.contains_key(id) ==> sync_pods(s, pods).registry.contains_key(id),
        forall|id: Seq<char>| #[trigger]
            sync_pods(s, pods).pending.contains(id) ==> s.pending.contains(id),
    decreases pods.len(),
{
    if pods.len() > 0 {
        let earlier = sync_pods(s, pods.drop_last());
        lemma_sync_keeps_sandboxes(s, pods.drop_last());
        let pod = pods.last();
        assert forall|id: Seq<char>| #[trigger]
            remove_first(earlier.pending, pod.id).contains(id) implies earlier.pending.contains(
            id,
        ) by {
            lemma_remove_first_contains(earlier.pending, pod.id, id);
        }
    }
}

proof fn lemma_remove_first_contains(list: Seq<Seq<char>>, gone: Seq<char>, id: Seq<char>)
    requires
        remove_first(list, gone).contains(id),
    ensures
        list.contains(id),
    decreases list.len(),
{
    if list.len() > 0 {
        let rest = list.drop_first();
        if list[0] == gone {
            let k = choose|k: int| 0 <= k < rest.len() && rest[k] == id;
            assert(list[k + 1] == id);
        } else {
            let shorter = remove_first(rest, gone);
            let k = choose|k: int|
                0 <= k < (seq![list[0]] + shorter).len() && (seq![list[0]] + shorter)[k] == id;
            if k == 0 {
                assert(list[0] == id);
            } else {
                assert(shorter[k - 1] == id);
                lemma_remove_first_contains(rest, gone, id);
                let j = choose|j: int| 0 <= j < rest.len() && rest[j] == id;
                assert(list[j + 1] == id);
            }
        }
    }
}

proof fn lemma_remove_first(list: Seq<Seq<char>>, id: Seq<char>, at: int)
    requires
        0 <= at < list.len(),
        list[at] == id,
        forall|k: int| 0 <= k < at ==> list[k] != id,
    ensures
        remove_first(list, id) == list.remove(at),
    decreases at,
{
    if at == 0 {
        assert(list.remove(0) =~= list.drop_first());
    } else {
        lemma_remove_first(list.drop_first(), id, at - 1);
        assert(seq![list[0]] + list.drop_first().remove(at - 1) =~= list.remove(at));
    }
}

/// Sync sandboxes with CRI runtime metadata.
///
/// `sandbox_list` holds the ids that await metadata. `listing` is what the
/// runtime answered: the pods, or nothing when the runtime could not be
/// reached or the listing failed. Without a listing nothing changes and the
/// whole list is handed back. With one, every pod whose id is in the list has
/// its metadata stored in the registry. What is returned are the ids that no
/// pod matched; they are tried again next time.
pub fn sync_sandboxes(
    cache: &mut SandboxCache,
    sandbox_list: Vec<String>,
    listing: Option<Vec<PodSandbox>>,
) -> (remaining: Vec<String>)
    ensures
        match listing {
            None => final(cache)@ == old(cache)@ && texts(remaining@) == texts(sandbox_list@),
            Some(pods) => {
                let end = sync_pods(
                    SyncState { registry: old(cache)@, pending: texts(sandbox_list@) },
                    pod_views(pods@),
                );
                final(cache)@ == end.registry && texts(remaining@) == end.pending
            },
        },
{
    let pods = match listing {
        Some(pods) => pods,
        None => {
            return sandbox_list;
        },
    };
    let mut sandbox_list = sandbox_list;
    let ghost start = SyncState { registry: cache@, pending: texts(sandbox_list@) };
    let mut i: usize = 0;
    while i < pods.len()
        invariant
            i <= pods@.len(),
            sync_pods(start, pod_views(pods@).take(i as int)) == (SyncState {
                registry: cache@,
                pending: texts(sandbox_list@),
            }),
        decreases pods@.len() - i,
    {
        let pod = &pods[i];
        let ghost before = SyncState { registry: cache@, pending: texts(sandbox_list@) };
        proof {
            let prefix = pod_views(pods@).take(i + 1);
            assert(prefix.drop_last() =~= pod_views(pods@).take(i as int));
            assert(prefix.last() == pod@);
        }
        match position(&sandbox_list, pod.id.as_str()) {
            Some(pos) => {
                let metadata = match &pod.metadata {
                    Some(m) => SandboxCRIMetadata {
                        uid: m.uid.clone(),
                        name: m.name.clone(),
                        namespace: m.namespace.clone(),
                    },
                    None => SandboxCRIMetadata {
                        uid: String::new(),
                        name: String::new(),
                        namespace: String::new(),
                    },
                };
                proof {
                    assert(texts(sandbox_list@)[pos as int] == pod.id@);
                    assert forall|k: int| 0 <= k < pos implies texts(sandbox_list@)[k]
                        != pod.id@ by {
                        assert(texts(sandbox_list@)[k] == sandbox_list@[k]@);
                    }
                    lemma_remove_first(texts(sandbox_list@), pod.id@, pos as int);
                    assert(metadata@ == pod@.metadata);
                }
                cache.set_cri_metadata(pod.id.as_str(), metadata);
                sandbox_list.remove(pos);
                proof {
                    assert(texts(sandbox_list@) =~= before.pending.remove(pos as int));
                }
            },
            None => {},
        }
        i += 1;
    }
    proof {
        assert(pod_views(pods@).take(pods@.len() as int) =~= pod_views(pods@));
    }
    sandbox_list
}

} // verus!
