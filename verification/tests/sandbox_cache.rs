use kata_pulse::monitor::sandbox_cache::{metadata_unless_busy, SandboxCRIMetadata, SandboxCache};

fn meta(uid: &str, name: &str, namespace: &str) -> SandboxCRIMetadata {
    SandboxCRIMetadata {
        uid: uid.to_string(),
        name: name.to_string(),
        namespace: namespace.to_string(),
    }
}

fn sorted(mut ids: Vec<String>) -> Vec<String> {
    ids.sort();
    ids
}

#[test]
fn new_registry_is_empty() {
    let cache = SandboxCache::new();
    assert!(cache.get_sandbox_list().is_empty());
    assert!(cache.get_sandboxes_with_metadata().is_empty());
    assert!(cache.get_metadata_try("sbx-1").is_none());
    assert!(SandboxCache::default().get_sandbox_list().is_empty());
}

#[test]
fn put_if_not_exists_inserts_once() {
    let mut cache = SandboxCache::new();
    assert!(cache.put_if_not_exists("sbx-1", meta("u1", "n1", "ns1")));
    assert!(!cache.put_if_not_exists("sbx-1", meta("u2", "n2", "ns2")));
    let found = cache.get_metadata_try("sbx-1").unwrap();
    assert_eq!(found.uid, "u1");
    assert_eq!(found.name, "n1");
    assert_eq!(found.namespace, "ns1");
    assert_eq!(cache.get_sandbox_list(), vec!["sbx-1".to_string()]);
}

#[test]
fn delete_if_exists_reports_presence() {
    let mut cache = SandboxCache::new();
    assert!(!cache.delete_if_exists("sbx-1"));
    assert!(cache.put_if_not_exists("sbx-1", SandboxCRIMetadata::default()));
    assert!(cache.delete_if_exists("sbx-1"));
    assert!(!cache.delete_if_exists("sbx-1"));
    assert!(cache.get_sandbox_list().is_empty());
}

#[test]
fn set_cri_metadata_inserts_or_overwrites() {
    let mut cache = SandboxCache::new();
    cache.set_cri_metadata("sbx-1", meta("u1", "n1", "ns1"));
    cache.set_cri_metadata("sbx-1", meta("u2", "n2", "ns2"));
    let found = cache.get_metadata_try("sbx-1").unwrap();
    assert_eq!(found.uid, "u2");
    assert_eq!(found.name, "n2");
    assert_eq!(found.namespace, "ns2");
    assert_eq!(cache.get_sandbox_list().len(), 1);
}

#[test]
fn snapshot_with_metadata_holds_every_entry() {
    let mut cache = SandboxCache::new();
    cache.set_cri_metadata("a", meta("ua", "na", "nsa"));
    cache.set_cri_metadata("b", meta("ub", "nb", "nsb"));
    let mut entries = cache.get_sandboxes_with_metadata();
    entries.sort_by(|x, y| x.0.cmp(&y.0));
    assert_eq!(entries.len(), 2);
    assert_eq!(entries[0].0, "a");
    assert_eq!(entries[0].1.uid, "ua");
    assert_eq!(entries[1].0, "b");
    assert_eq!(entries[1].1.namespace, "nsb");
}

#[test]
fn list_reflects_net_inserts_minus_removes() {
    let mut cache = SandboxCache::new();
    let mut expected: Vec<String> = Vec::new();
    let steps: Vec<(bool, &str)> = vec![
        (true, "a"),
        (true, "b"),
        (true, "a"),
        (false, "c"),
        (false, "a"),
        (true, "c"),
        (false, "b"),
        (true, "a"),
        (false, "a"),
        (false, "a"),
        (true, "d"),
    ];
    for (insert, id) in steps {
        if insert {
            if cache.put_if_not_exists(id, SandboxCRIMetadata::default()) {
                expected.push(id.to_string());
            }
        } else if cache.delete_if_exists(id) {
            expected.retain(|x| x != id);
        }
        assert_eq!(sorted(cache.get_sandbox_list()), sorted(expected.clone()));
    }
    assert_eq!(sorted(cache.get_sandbox_list()), vec!["c".to_string(), "d".to_string()]);
}

#[test]
fn ids_that_differ_outside_ascii_are_kept_apart() {
    let mut cache = SandboxCache::new();
    assert!(cache.put_if_not_exists("sbx-é", meta("u1", "", "")));
    assert!(cache.put_if_not_exists("sbx-e", meta("u2", "", "")));
    assert_eq!(cache.get_metadata_try("sbx-é").unwrap().uid, "u1");
    assert_eq!(cache.get_metadata_try("sbx-e").unwrap().uid, "u2");
    assert!(cache.get_metadata_try("sbx-").is_none());
}

#[test]
fn metadata_default_is_empty_and_clone_keeps_fields() {
    let empty = SandboxCRIMetadata::default();
    assert_eq!(empty.uid, "");
    assert_eq!(empty.name, "");
    assert_eq!(empty.namespace, "");
    let copy = meta("u", "n", "ns").clone();
    assert_eq!(copy.uid, "u");
    assert_eq!(copy.name, "n");
    assert_eq!(copy.namespace, "ns");
}

#[test]
fn lookup_is_absent_while_the_registry_is_busy() {
    let mut cache = SandboxCache::new();
    cache.set_cri_metadata("sbx-1", meta("u1", "n1", "ns1"));
    assert!(metadata_unless_busy(None, "sbx-1").is_none());
    assert_eq!(metadata_unless_busy(Some(&cache), "sbx-1").unwrap().uid, "u1");
    assert!(metadata_unless_busy(Some(&cache), "sbx-2").is_none());
}
