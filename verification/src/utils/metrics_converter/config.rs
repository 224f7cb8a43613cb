//! Configuration and label enrichment for metrics conversion.

use crate::monitor::sandbox_cache::{MetadataView, SandboxCRIMetadata, SandboxCache};
use crate::text::{ends_with, is_prefix, is_suffix, starts_with, str_eq, to_chars};
use std::sync::Arc;
use vstd::prelude::*;

verus! {

/// Enriched labels from CRI metadata.
#[derive(Debug)]
pub struct EnrichedLabels {
    /// Kubernetes pod UID.
    pub pod_uid: String,
    /// Kubernetes pod name.
    pub pod_name: String,
    /// Kubernetes namespace.
    pub pod_namespace: String,
}

/// Enriched labels as plain text.
pub struct EnrichedView {
    pub pod_uid: Seq<char>,
    pub pod_name: Seq<char>,
    pub pod_namespace: Seq<char>,
}

impl View for EnrichedLabels {
    type V = EnrichedView;

    open spec fn view(&self) -> EnrichedView {
        EnrichedView {
            pod_uid: self.pod_uid@,
            pod_name: self.pod_name@,
            pod_namespace: self.pod_namespace@,
        }
    }
}

/// Enriched labels with all three fields empty.
pub open spec fn no_labels() -> EnrichedView {
    EnrichedView { pod_uid: Seq::empty(), pod_name: Seq::empty(), pod_namespace: Seq::empty() }
}

/// The labels that the metadata of a sandbox gives, or empty labels where
/// there is no metadata.
pub open spec fn labels_of(metadata: Option<MetadataView>) -> EnrichedView {
    match metadata {
        Some(m) => EnrichedView { pod_uid: m.uid, pod_name: m.name, pod_namespace: m.namespace },
        None => no_labels(),
    }
}

impl Default for EnrichedLabels {
    fn default() -> (labels: Self)
        ensures
            labels@ == no_labels(),
    {
        EnrichedLabels {
            pod_uid: String::new(),
            pod_name: String::new(),
            pod_namespace: String::new(),
        }
    }
}

impl Clone for EnrichedLabels {
    fn clone(&self) -> (labels: Self)
        ensures
            labels@ == self@,
    {
        EnrichedLabels {
            pod_uid: self.pod_uid.clone(),
            pod_name: self.pod_name.clone(),
            pod_namespace: self.pod_namespace.clone(),
        }
    }
}

impl EnrichedLabels {
    /// Create enriched labels with all fields.
    pub fn new(pod_uid: &str, pod_name: &str, pod_namespace: &str) -> (labels: Self)
        ensures
            labels@ == (EnrichedView {
                pod_uid: pod_uid@,
                pod_name: pod_name@,
                pod_namespace: pod_namespace@,
            }),
    {
        EnrichedLabels {
            pod_uid: pod_uid.to_owned(),
            pod_name: pod_name.to_owned(),
            pod_namespace: pod_namespace.to_owned(),
        }
    }

    /// The labels for what a lookup in the registry gave: those of the
    /// metadata, or empty labels where the lookup found nothing.
    pub fn from_lookup(found: Option<SandboxCRIMetadata>) -> (labels: Self)
        ensures
            labels@ == labels_of(
                match found {
                    Some(m) => Some(m@),
                    None => None,
                },
            ),
    {
        match found {
            Some(metadata) => EnrichedLabels {
                pod_uid: metadata.uid,
                pod_name: metadata.name,
                pod_namespace: metadata.namespace,
            },
            None => EnrichedLabels::default(),
        }
    }
}

/// Supported hypervisor types.
#[derive(Debug, Clone, Copy, PartialEq, Eq, Structural)]
pub enum HypervisorType {
    /// Cloud Hypervisor.
    CloudHypervisor,
}

/// Configuration for metrics conversion.
#[derive(Debug)]
pub struct ConversionConfig {
    /// Which hypervisor metrics we're converting from.
    pub hypervisor_type: HypervisorType,
    /// Whether to include per-CPU breakdown.
    pub include_per_cpu: bool,
    /// Whether to include per-interface network details.
    pub include_per_interface: bool,
    /// Whether to include per-device disk details.
    pub include_per_device: bool,
    /// Network interface filter: only interfaces that match one of these
    /// patterns are included.
    pub network_interface_patterns: Vec<String>,
}

/// Whether `interface` matches `pattern`. A pattern that ends in `.*`
/// matches every name that begins with what stands before the `.*`; any
/// other pattern matches only itself.
pub open spec fn pattern_matches(pattern: Seq<char>, interface: Seq<char>) -> bool {
    if is_suffix(seq!['.', '*'], pattern) {
        is_prefix(pattern.take(pattern.len() - 2), interface)
    } else {
        interface == pattern
    }
}

/// Whether `interface` matches one of `patterns`.
pub open spec fn matches_any(patterns: Seq<String>, interface: Seq<char>) -> bool {
    exists|i: int| 0 <= i < patterns.len() && pattern_matches(#[trigger] patterns[i]@, interface)
}

/// The interface patterns of the default configuration.
pub open spec fn default_patterns() -> Seq<Seq<char>> {
    seq!["eth0"@, "veth.*"@, "tap.*"@, "tun.*"@]
}

impl Default for ConversionConfig {
    fn default() -> (config: Self)
        ensures
            config.hypervisor_type == HypervisorType::CloudHypervisor,
            !config.include_per_cpu,
            !config.include_per_interface,
            !config.include_per_device,
            crate::text::texts(config.network_interface_patterns@) == default_patterns(),
    {
        let mut patterns: Vec<String> = Vec::new();
        patterns.push("eth0".to_owned());
        patterns.push("veth.*".to_owned());
        patterns.push("tap.*".to_owned());
        patterns.push("tun.*".to_owned());
        proof {
            assert(crate::text::texts(patterns@) =~= default_patterns());
        }
        ConversionConfig {
            hypervisor_type: HypervisorType::CloudHypervisor,
            include_per_cpu: false,
            include_per_interface: false,
            include_per_device: false,
            network_interface_patterns: patterns,
        }
    }
}

impl Clone for ConversionConfig {
    fn clone(&self) -> (config: Self)
        ensures
            config.hypervisor_type == self.hypervisor_type,
            config.include_per_cpu == self.include_per_cpu,
            config.include_per_interface == self.include_per_interface,
            config.include_per_device == self.include_per_device,
            crate::text::texts(config.network_interface_patterns@) == crate::text::texts(
                self.network_interface_patterns@,
            ),
    {
        ConversionConfig {
            hypervisor_type: self.hypervisor_type,
            include_per_cpu: self.include_per_cpu,
            include_per_interface: self.include_per_interface,
            include_per_device: self.include_per_device,
            network_interface_patterns: crate::text::clone_list(&self.network_interface_patterns),
        }
    }
}

impl ConversionConfig {
    /// Check if an interface name matches the configured patterns.
    pub fn matches_network_interface(&self, interface: &str) -> (matched: bool)
        ensures
            matched == matches_any(self.network_interface_patterns@, interface@),
    {
        let name = to_chars(interface);
        let glob: Vec<char> = vec!['.', '*'];
        let mut i: usize = 0;
        while i < self.network_interface_patterns.len()
            invariant
                i <= self.network_interface_patterns@.len(),
                name@ == interface@,
                glob@ == seq!['.', '*'],
                forall|k: int|
                    0 <= k < i ==> !pattern_matches(
                        #[trigger] self.network_interface_patterns@[k]@,
                        interface@,
                    ),
            decreases self.network_interface_patterns@.len() - i,
        {
            let pattern = to_chars(self.network_interface_patterns[i].as_str());
            let hit = if ends_with(&pattern, &glob) {
                let mut prefix = pattern;
                prefix.truncate(prefix.len() - 2);
                starts_with(&name, &prefix)
            } else {
                str_eq(interface, self.network_interface_patterns[i].as_str())
            };
            if hit {
                return true;
            }
            i += 1;
        }
        false
    }
}

/// Trait for enriching metrics labels with Kubernetes metadata.
pub trait LabelEnricher {
    /// Enrich labels for a sandbox: given a sandbox id, return the labels
    /// that are known for it, or empty labels if none are available.
    fn enrich(&self, sandbox_id: &str) -> EnrichedLabels;
}

/// CRI-based label enricher that looks up pod name, namespace and UID in a
/// snapshot of the registry.
pub struct CRILabelEnricher {
    sandbox_cache: Arc<SandboxCache>,
}

impl CRILabelEnricher {
    /// Create a new CRI-based label enricher.
    pub fn new(sandbox_cache: Arc<SandboxCache>) -> (enricher: Self)
        ensures
            enricher.registry() == sandbox_cache@,
    {
        CRILabelEnricher { sandbox_cache }
    }

    /// What the registry that the enricher looks into holds.
    pub closed spec fn registry(&self) -> Map<Seq<char>, MetadataView> {
        self.sandbox_cache@
    }

    /// The labels of `sandbox_id`: those of its metadata in the registry, or
    /// empty labels where the registry does not hold the id.
    pub fn labels_for(&self, sandbox_id: &str) -> (labels: EnrichedLabels)
        ensures
            labels@ == labels_of(
                if self.registry().contains_key(sandbox_id@) {
                    Some(self.registry()[sandbox_id@])
                } else {
                    None
                },
            ),
    {
        EnrichedLabels::from_lookup(self.sandbox_cache.get_metadata_try(sandbox_id))
    }
}

impl LabelEnricher for CRILabelEnricher {
    fn enrich(&self, sandbox_id: &str) -> (labels: EnrichedLabels)
        ensures
            labels@ == labels_of(
                if self.registry().contains_key(sandbox_id@) {
                    Some(self.registry()[sandbox_id@])
                } else {
                    None
                },
            ),
    {
        self.labels_for(sandbox_id)
    }
}

} // verus!
