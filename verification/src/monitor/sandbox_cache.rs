//! Registry of the sandboxes that are known to exist, with the orchestrator
//! metadata of each.

use crate::strmap::StrMap;
use crate::text::texts;
use vstd::prelude::*;

verus! {

/// Identity that the orchestrator gives a sandbox. All fields are empty until
/// enrichment has succeeded.
#[derive(Debug)]
pub struct SandboxCRIMetadata {
    pub uid: String,
    pub name: String,
    pub namespace: String,
}

/// The three fields of a `SandboxCRIMetadata` as plain text.
pub struct MetadataView {
    pub uid: Seq<char>,
    pub name: Seq<char>,
    pub namespace: Seq<char>,
}

impl View for SandboxCRIMetadata {
    type V = MetadataView;

    open spec fn view(&self) -> MetadataView {
        MetadataView { uid: self.uid@, name: self.name@, namespace: self.namespace@ }
    }
}

/// Metadata with all three fields empty.
pub open spec fn empty_metadata() -> MetadataView {
    MetadataView { uid: Seq::empty(), name: Seq::empty(), namespace: Seq::empty() }
}

impl Clone for SandboxCRIMetadata {
    fn clone(&self) -> (r: Self)
        ensures
            r@ == self@,
    {
        SandboxCRIMetadata {
            uid: self.uid.clone(),
            name: self.name.clone(),
            namespace: self.namespace.clone(),
        }
    }
}

impl Default for SandboxCRIMetadata {
    fn default() -> (r: Self)
        ensures
            r@ == empty_metadata(),
    {
        SandboxCRIMetadata { uid: String::new(), name: String::new(), namespace: String::new() }
    }
}

/// Mapping from sandbox id to metadata. Keys are unique; their order is not
/// part of the contract.
pub struct SandboxCache {
    sandboxes: StrMap<SandboxCRIMetadata>,
}

impl View for SandboxCache {
    type V = Map<Seq<char>, MetadataView>;

    closed spec fn view(&self) -> Map<Seq<char>, MetadataView> {
        self.sandboxes@.map_values(|m: SandboxCRIMetadata| m@)
    }
}

impl SandboxCache {
    /// Create a new, empty sandbox cache.
    pub fn new() -> (cache: Self)
        ensures
            cache@ == Map::<Seq<char>, MetadataView>::empty(),
    {
        let cache = SandboxCache { sandboxes: StrMap::new() };
        assert(cache@ =~= Map::<Seq<char>, MetadataView>::empty());
        cache
    }

    /// Snapshot of the ids that are present: each once, in no particular
    /// order.
    pub fn get_sandbox_list(&self) -> (ids: Vec<String>)
        ensures
            texts(ids@).no_duplicates(),
            texts(ids@).to_set() == self@.dom(),
    {
        let ids = self.sandboxes.keys();
        proof {
            assert(self@.dom() =~= self.sandboxes@.dom());
        }
        ids
    }

    /// Removes `id` if it is present. Returns true iff an entry existed and
    /// was removed.
    pub fn delete_if_exists(&mut self, id: &str) -> (removed: bool)
        ensures
            removed == RegistryOp::Delete(id@).succeeds(old(self)@),
            final(self)@ == RegistryOp::Delete(id@).apply(old(self)@),
    {
        let prior = self.sandboxes.remove(id);
        proof {
            assert(self@ =~= old(self)@.remove(id@));
        }
        prior.is_some()
    }

    /// Inserts `id` with `value` unless `id` is already present, in which
    /// case the existing entry is left untouched. Returns true iff the entry
    /// was newly inserted.
    pub fn put_if_not_exists(&mut self, id: &str, value: SandboxCRIMetadata) -> (inserted: bool)
        ensures
            inserted == RegistryOp::Put(id@, value@).succeeds(old(self)@),
            final(self)@ == RegistryOp::Put(id@, value@).apply(old(self)@),
    {
        if self.sandboxes.contains_key(id) {
            false
        } else {
            self.sandboxes.insert(id, value);
            proof {
                assert(self@ =~= old(self)@.insert(id@, value@));
            }
            true
        }
    }

    /// Sets the metadata of `id`, whether or not it was present before.
    pub fn set_cri_metadata(&mut self, id: &str, value: SandboxCRIMetadata)
        ensures
            final(self)@ == old(self)@.insert(id@, value@),
    {
        self.sandboxes.insert(id, value);
        proof {
            assert(self@ =~= old(self)@.insert(id@, value@));
        }
    }

    /// Snapshot of every entry: each id once, with its metadata.
    pub fn get_sandboxes_with_metadata(&self) -> (entries: Vec<(String, SandboxCRIMetadata)>)
        ensures
            pair_keys(entries@).no_duplicates(),
            pair_keys(entries@).to_set() == self@.dom(),
            forall|i: int|
                0 <= i < entries@.len() ==> (#[trigger] entries@[i]).1@ == self@[entries@[i].0@],
    {
        let n = self.sandboxes.len();
        let mut entries: Vec<(String, SandboxCRIMetadata)> = Vec::new();
        let mut i: usize = 0;
        while i < n
            invariant
                i <= n,
                n == self.sandboxes.key_order().len(),
                entries@.len() == i,
                forall|j: int|
                    0 <= j < i ==> (#[trigger] entries@[j]).0@ == self.sandboxes.key_order()[j],
                forall|j: int|
                    0 <= j < i ==> self@.contains_key((#[trigger] entries@[j]).0@) && entries@[j].1@
                        == self@[entries@[j].0@],
            decreases n - i,
        {
            let (id, metadata) = self.sandboxes.entry_at(i);
            let id_copy = id.clone();
            let metadata_copy = metadata.clone();
            proof {
                assert(self.sandboxes@.contains_key(id@));
                assert(self@[id@] == metadata@);
            }
            let ghost before = entries@;
            entries.push((id_copy, metadata_copy));
            proof {
                assert forall|j: int| 0 <= j <= i implies self@.contains_key(
                    (#[trigger] entries@[j]).0@,
                ) && entries@[j].1@ == self@[entries@[j].0@] by {
                    if j < i {
                        assert(entries@[j] == before[j]);
                    }
                }
            }
            i += 1;
        }
        proof {
            assert(pair_keys(entries@) =~= self.sandboxes.key_order());
            assert(self@.dom() =~= self.sandboxes@.dom());
        }
        entries
    }

    /// The metadata of `id`, if it is present. Never waits.
    pub fn get_metadata_try(&self, id: &str) -> (found: Option<SandboxCRIMetadata>)
        ensures
            match found {
                Some(m) => self@.contains_key(id@) && m@ == self@[id@],
                None => !self@.contains_key(id@),
            },
    {
        match self.sandboxes.get(id) {
            Some(m) => Some(m.clone()),
            None => None,
        }
    }
}

/// The lookup of a caller that must not wait. `registry` is the registry if
/// it could be had at once, or nothing while a writer holds it; the answer is
/// then absent, whatever the registry holds.
pub fn metadata_unless_busy(registry: Option<&SandboxCache>, id: &str) -> (found: Option<
    SandboxCRIMetadata,
>)
    ensures
        match registry {
            None => found is None,
            Some(cache) => match found {
                Some(m) => cache@.contains_key(id@) && m@ == cache@[id@],
                None => !cache@.contains_key(id@),
            },
        },
{
    match registry {
        Some(cache) => cache.get_metadata_try(id),
        None => None,
    }
}

/// The id of each pair of a list of entries.
pub open spec fn pair_keys(entries: Seq<(String, SandboxCRIMetadata)>) -> Seq<Seq<char>> {
    Seq::new(entries.len(), |i: int| entries[i].0@)
}

/// One conditional change asked of the registry.
pub enum RegistryOp {
    /// `put_if_not_exists` with this id and metadata.
    Put(Seq<char>, MetadataView),
    /// `delete_if_exists` with this id.
    Delete(Seq<char>),
}

impl RegistryOp {
    /// Whether the call returns true on a registry that holds `m`.
    pub open spec fn succeeds(self, m: Map<Seq<char>, MetadataView>) -> bool {
        match self {
            RegistryOp::Put(id, _) => !m.contains_key(id),
            RegistryOp::Delete(id) => m.contains_key(id),
        }
    }

    /// What the registry holds after the call, if it held `m` before.
    pub open spec fn apply(self, m: Map<Seq<char>, MetadataView>) -> Map<
        Seq<char>,
        MetadataView,
    > {
        match self {
            RegistryOp::Put(id, value) => if m.contains_key(id) {
                m
            } else {
                m.insert(id, value)
            },
            RegistryOp::Delete(id) => m.remove(id),
        }
    }
}

/// What the registry holds after the calls `ops`, made in order on a registry
/// that held `m`.
pub open spec fn run_ops(m: Map<Seq<char>, MetadataView>, ops: Seq<RegistryOp>) -> Map<
    Seq<char>,
    MetadataView,
>
    decreases ops.len(),
{
    if ops.len() == 0 {
        m
    } else {
        ops.last().apply(run_ops(m, ops.drop_last()))
    }
}

/// The ids that were present at first, plus the id of every insert that
/// returned true, minus the id of every removal that returned true, taken in
/// the order of the calls.
pub open spec fn net_ids(m: Map<Seq<char>, MetadataView>, ops: Seq<RegistryOp>) -> Set<Seq<char>>
    decreases ops.len(),
{
    if ops.len() == 0 {
        m.dom()
    } else {
        let earlier = net_ids(m, ops.drop_last());
        let state = run_ops(m, ops.drop_last());
        match ops.last() {
            RegistryOp::Put(id, _) => if ops.last().succeeds(state) {
                earlier.insert(id)
            } else {
                earlier
            },
            RegistryOp::Delete(id) => if ops.last().succeeds(state) {
                earlier.remove(id)
            } else {
                earlier
            },
        }
    }
}

/// After any sequence of conditional inserts and removals, the ids that the
/// registry lists are exactly the net set of successful inserts minus
/// successful removals.
pub proof fn lemma_list_reflects_net_changes(m: Map<Seq<char>, MetadataView>, ops: Seq<RegistryOp>)
    ensures
        run_ops(m, ops).dom() == net_ids(m, ops),
    decreases ops.len(),
{
    if ops.len() > 0 {
        lemma_list_reflects_net_changes(m, ops.drop_last());
        let state = run_ops(m, ops.drop_last());
        match ops.last() {
            RegistryOp::Put(id, value) => {
                if state.contains_key(id) {
                } else {
                    assert(state.insert(id, value).dom() =~= state.dom().insert(id));
                }
            },
            RegistryOp::Delete(id) => {
                assert(state.remove(id).dom() =~= state.dom().remove(id));
            },
        }
    }
}

impl Default for SandboxCache {
    fn default() -> (cache: Self)
        ensures
            cache@ == Map::<Seq<char>, MetadataView>::empty(),
    {
        Self::new()
    }
}

} // verus!
