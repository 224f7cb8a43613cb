use kata_pulse::monitor::cri_client::{
    failure_hint, CRIClient, CRIClientConfig, ConnectError, ConnectOutcome, FailureHint,
    ListError, ListStep,
};
use std::time::Duration;

#[test]
fn test_cri_client_config_default() {
    let config = CRIClientConfig::default();
    assert_eq!(config.endpoint, "/run/containerd/containerd.sock");
    assert_eq!(config.timeout, Duration::from_secs(10));
    assert_eq!(config.max_retries, 3);
}

#[test]
fn test_cri_client_config_with_endpoint() {
    let config = CRIClientConfig::with_endpoint("/run/crio/crio.sock");
    assert_eq!(config.endpoint, "/run/crio/crio.sock");
}

#[test]
fn test_cri_client_config_builder() {
    let config = CRIClientConfig::with_endpoint("/tmp/test.sock")
        .with_timeout(Duration::from_secs(20))
        .with_max_retries(5);

    assert_eq!(config.endpoint, "/tmp/test.sock");
    assert_eq!(config.timeout, Duration::from_secs(20));
    assert_eq!(config.max_retries, 5);
}

#[test]
fn test_cri_client_creation() {
    let config = CRIClientConfig::default();
    let _client = CRIClient::new(config);
}

#[test]
fn test_cri_client_clone() {
    let config = CRIClientConfig::default();
    let client1 = CRIClient::new(config);
    let client2 = client1.clone();

    assert_eq!(client1.endpoint(), client2.endpoint());
}

#[test]
fn test_cri_client_config_retry_backoff() {
    let config = CRIClientConfig::default();
    assert_eq!(config.retry_backoff, Duration::from_millis(100));
}

#[test]
fn with_endpoint_keeps_the_other_defaults() {
    let config = CRIClientConfig::with_endpoint("/run/crio/crio.sock");
    assert_eq!(config.timeout, Duration::from_secs(10));
    assert_eq!(config.max_retries, 3);
    assert_eq!(config.retry_backoff, Duration::from_millis(100));
}

#[test]
fn config_clone_keeps_every_field() {
    let config = CRIClientConfig::with_endpoint("/a.sock")
        .with_timeout(Duration::from_millis(1500))
        .with_max_retries(7);
    let copy = config.clone();
    assert_eq!(copy.endpoint, "/a.sock");
    assert_eq!(copy.timeout, Duration::from_millis(1500));
    assert_eq!(copy.max_retries, 7);
    assert_eq!(copy.retry_backoff, Duration::from_millis(100));
}

#[test]
fn new_client_is_disconnected() {
    let client = CRIClient::new(CRIClientConfig::default());
    assert!(!client.is_connected());
    assert_eq!(client.timeout(), Duration::from_secs(10));
}

#[test]
fn socket_path_strips_the_unix_scheme() {
    let client = CRIClient::new(CRIClientConfig::with_endpoint("unix:///run/crio/crio.sock"));
    assert_eq!(client.socket_path(), "/run/crio/crio.sock");
}

#[test]
fn socket_path_keeps_a_plain_path() {
    let client = CRIClient::new(CRIClientConfig::with_endpoint("/run/containerd/containerd.sock"));
    assert_eq!(client.socket_path(), "/run/containerd/containerd.sock");
}

#[test]
fn socket_path_of_the_bare_scheme_is_empty() {
    let client = CRIClient::new(CRIClientConfig::with_endpoint("unix://"));
    assert_eq!(client.socket_path(), "");
}

#[test]
fn socket_path_of_a_short_endpoint_is_kept() {
    let client = CRIClient::new(CRIClientConfig::with_endpoint("unix:/"));
    assert_eq!(client.socket_path(), "unix:/");
}

#[test]
fn connect_established_connects() {
    let mut client = CRIClient::new(CRIClientConfig::default());
    assert!(client.connect(ConnectOutcome::Established).is_ok());
    assert!(client.is_connected());
}

#[test]
fn connect_refused_reports_endpoint_and_reason() {
    let mut client = CRIClient::new(CRIClientConfig::with_endpoint("/tmp/x.sock"));
    match client.connect(ConnectOutcome::Refused("permission denied".to_string())) {
        Err(ConnectError::Failed { endpoint, reason }) => {
            assert_eq!(endpoint, "/tmp/x.sock");
            assert_eq!(reason, "permission denied");
        }
        other => panic!("unexpected result: {:?}", other),
    }
    assert!(!client.is_connected());
}

#[test]
fn connect_timeout_reports_whole_seconds() {
    let config = CRIClientConfig::with_endpoint("/tmp/x.sock")
        .with_timeout(Duration::from_millis(2500));
    let mut client = CRIClient::new(config);
    match client.connect(ConnectOutcome::TimedOut) {
        Err(ConnectError::Timeout { endpoint, timeout_secs }) => {
            assert_eq!(endpoint, "/tmp/x.sock");
            assert_eq!(timeout_secs, 2);
        }
        other => panic!("unexpected result: {:?}", other),
    }
    assert!(!client.is_connected());
}

#[test]
fn failed_connect_resets_a_connected_client() {
    let mut client = CRIClient::new(CRIClientConfig::default());
    assert!(client.connect(ConnectOutcome::Established).is_ok());
    assert!(client.connect(ConnectOutcome::TimedOut).is_err());
    assert!(!client.is_connected());
}

#[test]
fn listing_without_connection_fails_at_once() {
    let client = CRIClient::new(CRIClientConfig::default());
    assert!(matches!(
        client.list_pod_sandboxes(),
        ListStep::Fail(ListError::NotConnected)
    ));
    assert!(matches!(
        client.list_pod_sandboxes_with_filter(2),
        ListStep::Fail(ListError::NotConnected)
    ));
}

#[test]
fn listing_retries_up_to_the_bound_with_backoff() {
    let mut client = CRIClient::new(CRIClientConfig::default());
    assert!(client.connect(ConnectOutcome::Established).is_ok());
    assert!(matches!(client.list_pod_sandboxes(), ListStep::Send));
    for failed in 1..=3u32 {
        match client.list_pod_sandboxes_with_filter(failed) {
            ListStep::SendAfter(delay) => assert_eq!(delay, Duration::from_millis(100)),
            _ => panic!("attempt {} should be retried", failed),
        }
    }
    assert!(matches!(
        client.list_pod_sandboxes_with_filter(4),
        ListStep::Fail(ListError::RetriesExhausted)
    ));
}

#[test]
fn listing_without_retries_sends_once() {
    let mut client = CRIClient::new(CRIClientConfig::default().with_max_retries(0));
    assert!(client.connect(ConnectOutcome::Established).is_ok());
    assert!(matches!(client.list_pod_sandboxes_with_filter(0), ListStep::Send));
    assert!(matches!(
        client.list_pod_sandboxes_with_filter(1),
        ListStep::Fail(ListError::RetriesExhausted)
    ));
}

#[test]
fn failure_hint_reads_the_reason() {
    assert_eq!(failure_hint("Permission denied (os error 13)"), FailureHint::Permission);
    assert_eq!(failure_hint("no permission"), FailureHint::Permission);
    assert_eq!(failure_hint("Connection refused"), FailureHint::Connection);
    assert_eq!(failure_hint("connection reset"), FailureHint::Connection);
    assert_eq!(failure_hint("timeout elapsed"), FailureHint::Timeout);
    assert_eq!(failure_hint("ENOENT"), FailureHint::NotFound);
    assert_eq!(failure_hint("No such file or directory"), FailureHint::NotFound);
    assert_eq!(failure_hint("transport error"), FailureHint::Unknown);
    assert_eq!(failure_hint(""), FailureHint::Unknown);
}

#[test]
fn failure_hint_prefers_permission_over_connection() {
    assert_eq!(
        failure_hint("connection failed: permission denied"),
        FailureHint::Permission
    );
    assert_eq!(failure_hint("Timeout"), FailureHint::Unknown);
}

#[test]
fn connect_error_messages() {
    let failed = ConnectError::Failed {
        endpoint: "/tmp/x.sock".to_string(),
        reason: "transport error".to_string(),
    };
    assert_eq!(
        failed.message(),
        "Failed to connect to containerd socket at /tmp/x.sock: transport error. Possible causes: (1) containerd not running, (2) socket permissions (run as root?), (3) SELinux policies, (4) network namespace mismatch, (5) socket is not a valid Unix socket"
    );
    let timeout = ConnectError::Timeout { endpoint: "/tmp/x.sock".to_string(), timeout_secs: 10 };
    assert_eq!(
        timeout.message(),
        "Timeout connecting to containerd socket at /tmp/x.sock (10s). Possible causes: (1) containerd service is slow/hung, (2) gRPC serialization overhead, (3) high system load"
    );
}

#[test]
fn list_error_messages() {
    assert_eq!(
        ListError::NotConnected.message(3),
        "CRI client not connected. Call connect() first."
    );
    assert_eq!(
        ListError::RetriesExhausted.message(3),
        "Failed to list pod sandboxes after 3 retries"
    );
}
