//! Client side of the container runtime's metadata service: its
//! configuration, its connection state and its retry policy.
//!
//! The transport itself is not here. The caller performs each connection
//! attempt and each request, and reports how it went; the functions of this
//! module decide what happens next.

use crate::config::{strip_unix_scheme, without_unix_scheme};
use crate::text::{contains, contains_text, decimal, push_decimal, to_chars};
use vstd::string::*;
use std::time::Duration;
use vstd::prelude::*;

verus! {

/// The total length of a `Duration` in nanoseconds, as `Duration::as_nanos`
/// reports it.
pub uninterp spec fn duration_nanos(d: Duration) -> nat;

/// `Duration::from_secs` makes a duration of that many whole seconds.
pub assume_specification[ Duration::from_secs ](secs: u64) -> (d: Duration)
    ensures
        duration_nanos(d) == secs * 1_000_000_000,
;

/// `Duration::from_millis` makes a duration of that many milliseconds.
pub assume_specification[ Duration::from_millis ](millis: u64) -> (d: Duration)
    ensures
        duration_nanos(d) == millis * 1_000_000,
;

/// Socket of the container runtime that is used when none is configured.
pub const DEFAULT_ENDPOINT: &'static str = "/run/containerd/containerd.sock";

/// Configuration for the CRI client.
#[derive(Debug)]
pub struct CRIClientConfig {
    /// Path to the CRI runtime socket.
    pub endpoint: String,
    /// Connection timeout.
    pub timeout: Duration,
    /// Maximum number of retries for transient failures.
    pub max_retries: u32,
    /// Retry backoff duration.
    pub retry_backoff: Duration,
}

impl Default for CRIClientConfig {
    fn default() -> (config: Self)
        ensures
            config.endpoint@ == DEFAULT_ENDPOINT@,
            duration_nanos(config.timeout) == 10_000_000_000nat,
            config.max_retries == 3,
            duration_nanos(config.retry_backoff) == 100_000_000nat,
    {
        CRIClientConfig {
            endpoint: DEFAULT_ENDPOINT.to_owned(),
            timeout: Duration::from_secs(10),
            max_retries: 3,
            retry_backoff: Duration::from_millis(100),
        }
    }
}

impl Clone for CRIClientConfig {
    fn clone(&self) -> (config: Self)
        ensures
            config.endpoint@ == self.endpoint@,
            config.timeout == self.timeout,
            config.max_retries == self.max_retries,
            config.retry_backoff == self.retry_backoff,
    {
        CRIClientConfig {
            endpoint: self.endpoint.clone(),
            timeout: self.timeout,
            max_retries: self.max_retries,
            retry_backoff: self.retry_backoff,
        }
    }
}

impl CRIClientConfig {
    /// Create a new config with endpoint; the rest is as in the default.
    pub fn with_endpoint(endpoint: &str) -> (config: Self)
        ensures
            config.endpoint@ == endpoint@,
            duration_nanos(config.timeout) == 10_000_000_000nat,
            config.max_retries == 3,
            duration_nanos(config.retry_backoff) == 100_000_000nat,
    {
        CRIClientConfig {
            endpoint: endpoint.to_owned(),
            timeout: Duration::from_secs(10),
            max_retries: 3,
            retry_backoff: Duration::from_millis(100),
        }
    }

    /// Set the connection timeout.
    pub fn with_timeout(self, timeout: Duration) -> (config: Self)
        ensures
            config.endpoint == self.endpoint,
            config.timeout == timeout,
            config.max_retries == self.max_retries,
            config.retry_backoff == self.retry_backoff,
    {
        CRIClientConfig {
            endpoint: self.endpoint,
            timeout,
            max_retries: self.max_retries,
            retry_backoff: self.retry_backoff,
        }
    }

    /// Set the maximum retries.
    pub fn with_max_retries(self, retries: u32) -> (config: Self)
        ensures
            config.endpoint == self.endpoint,
            config.timeout == self.timeout,
            config.max_retries == retries,
            config.retry_backoff == self.retry_backoff,
    {
        CRIClientConfig {
            endpoint: self.endpoint,
            timeout: self.timeout,
            max_retries: retries,
            retry_backoff: self.retry_backoff,
        }
    }
}

/// `Duration::as_secs` gives the whole seconds of a duration.
pub assume_specification[ Duration::as_secs ](d: &Duration) -> (secs: u64)
    ensures
        secs == duration_nanos(*d) / 1_000_000_000,
;

/// Whether a channel to the runtime is held.
#[derive(Debug, Clone, Copy, PartialEq, Eq, Structural)]
pub enum ConnectionState {
    /// No channel: none was opened yet, or the last attempt failed.
    Disconnected,
    /// A channel is open.
    Connected,
}

/// How one attempt to open the channel went, as the transport reports it.
#[derive(Debug)]
pub enum ConnectOutcome {
    /// The channel is open.
    Established,
    /// The transport refused, with this reason.
    Refused(String),
    /// No answer came within the configured timeout.
    TimedOut,
}

/// Why `connect` failed.
#[derive(Debug)]
pub enum ConnectError {
    /// The channel could not be created.
    Failed { endpoint: String, reason: String },
    /// The runtime did not answer in time.
    Timeout { endpoint: String, timeout_secs: u64 },
}

impl ConnectError {
    /// The text of the error: what failed, at which endpoint, and what may
    /// have caused it.
    pub open spec fn text(self) -> Seq<char> {
        match self {
            ConnectError::Failed { endpoint, reason } => "Failed to connect to containerd socket at "@
                + endpoint@ + ": "@ + reason@
                + ". Possible causes: (1) containerd not running, (2) socket permissions (run as root?), (3) SELinux policies, (4) network namespace mismatch, (5) socket is not a valid Unix socket"@,
            ConnectError::Timeout { endpoint, timeout_secs } => "Timeout connecting to containerd socket at "@
                + endpoint@ + " ("@ + decimal(timeout_secs as nat)
                + "s). Possible causes: (1) containerd service is slow/hung, (2) gRPC serialization overhead, (3) high system load"@,
        }
    }

    /// The text of the error.
    pub fn message(&self) -> (text: String)
        ensures
            text@ == self.text(),
    {
        match self {
            ConnectError::Failed { endpoint, reason } => {
                let mut text = "Failed to connect to containerd socket at ".to_owned();
                text.append(endpoint.as_str());
                text.append(": ");
                text.append(reason.as_str());
                text.append(
                    ". Possible causes: (1) containerd not running, (2) socket permissions (run as root?), (3) SELinux policies, (4) network namespace mismatch, (5) socket is not a valid Unix socket",
                );
                text
            },
            ConnectError::Timeout { endpoint, timeout_secs } => {
                let mut text = "Timeout connecting to containerd socket at ".to_owned();
                text.append(endpoint.as_str());
                text.append(" (");
                push_decimal(&mut text, *timeout_secs);
                text.append(
                    "s). Possible causes: (1) containerd service is slow/hung, (2) gRPC serialization overhead, (3) high system load",
                );
                text
            },
        }
    }
}

/// What a failure to connect most likely comes from, judged by its text.
#[derive(Debug, Clone, Copy, PartialEq, Eq, Structural)]
pub enum FailureHint {
    /// Socket permissions or container privileges.
    Permission,
    /// The socket does not exist or is not accessible.
    Connection,
    /// The runtime is slow or hung.
    Timeout,
    /// The socket path is wrong or the socket is not created yet.
    NotFound,
    /// Nothing in the text tells.
    Unknown,
}

/// The hint that `failure_hint` gives for the text `reason`.
pub open spec fn hint_of(reason: Seq<char>) -> FailureHint {
    if contains_text(reason, "permission"@) || contains_text(reason, "Permission"@) {
        FailureHint::Permission
    } else if contains_text(reason, "connection"@) || contains_text(reason, "Connection"@) {
        FailureHint::Connection
    } else if contains_text(reason, "timeout"@) {
        FailureHint::Timeout
    } else if contains_text(reason, "ENOENT"@) || contains_text(reason, "No such file"@) {
        FailureHint::NotFound
    } else {
        FailureHint::Unknown
    }
}

/// Classifies the reason of a failed connection attempt for diagnostics.
pub fn failure_hint(reason: &str) -> (hint: FailureHint)
    ensures
        hint == hint_of(reason@),
{
    let text = to_chars(reason);
    if contains(&text, &to_chars("permission")) || contains(&text, &to_chars("Permission")) {
        FailureHint::Permission
    } else if contains(&text, &to_chars("connection")) || contains(&text, &to_chars("Connection")) {
        FailureHint::Connection
    } else if contains(&text, &to_chars("timeout")) {
        FailureHint::Timeout
    } else if contains(&text, &to_chars("ENOENT")) || contains(&text, &to_chars("No such file")) {
        FailureHint::NotFound
    } else {
        FailureHint::Unknown
    }
}

/// What to do next in order to list the pod sandboxes.
#[derive(Debug)]
pub enum ListStep {
    /// Send the request now.
    Send,
    /// Wait this long, then send the request again.
    SendAfter(Duration),
    /// Give up.
    Fail(ListError),
}

/// Why listing the pod sandboxes was given up.
#[derive(Debug, Clone, Copy, PartialEq, Eq, Structural)]
pub enum ListError {
    /// No connection was ever established, so nothing is retried.
    NotConnected,
    /// Every attempt failed.
    RetriesExhausted,
}

impl ListError {
    /// The text of the error, for a client that retries `max_retries` times.
    pub open spec fn text(self, max_retries: u32) -> Seq<char> {
        match self {
            ListError::NotConnected => "CRI client not connected. Call connect() first."@,
            ListError::RetriesExhausted => "Failed to list pod sandboxes after "@ + decimal(
                max_retries as nat,
            ) + " retries"@,
        }
    }

    /// The text of the error.
    pub fn message(&self, max_retries: u32) -> (text: String)
        ensures
            text@ == self.text(max_retries),
    {
        match self {
            ListError::NotConnected => "CRI client not connected. Call connect() first.".to_owned(),
            ListError::RetriesExhausted => {
                let mut text = "Failed to list pod sandboxes after ".to_owned();
                push_decimal(&mut text, max_retries as u64);
                text.append(" retries");
                text
            },
        }
    }
}

/// CRI runtime service client: the configuration and the connection state.
pub struct CRIClient {
    config: CRIClientConfig,
    state: ConnectionState,
}

impl CRIClient {
    /// Create a new CRI client with the given configuration. It starts out
    /// disconnected.
    pub fn new(config: CRIClientConfig) -> (client: Self)
        ensures
            client.config() == config,
            client.state() == ConnectionState::Disconnected,
    {
        CRIClient { config, state: ConnectionState::Disconnected }
    }

    /// The configuration that the client was made with.
    pub closed spec fn config(&self) -> CRIClientConfig {
        self.config
    }

    /// The connection state.
    pub closed spec fn state(&self) -> ConnectionState {
        self.state
    }

    /// The configured endpoint.
    pub fn endpoint(&self) -> (endpoint: &str)
        ensures
            endpoint@ == self.config().endpoint@,
    {
        self.config.endpoint.as_str()
    }

    /// The configured connection timeout.
    pub fn timeout(&self) -> (timeout: Duration)
        ensures
            timeout == self.config().timeout,
    {
        self.config.timeout
    }

    /// The configured number of retries.
    pub fn max_retries(&self) -> (retries: u32)
        ensures
            retries == self.config().max_retries,
    {
        self.config.max_retries
    }

    /// The configured backoff between two requests.
    pub fn retry_backoff(&self) -> (backoff: Duration)
        ensures
            backoff == self.config().retry_backoff,
    {
        self.config.retry_backoff
    }

    /// Whether a channel is held.
    pub fn is_connected(&self) -> (connected: bool)
        ensures
            connected == (self.state() == ConnectionState::Connected),
    {
        self.state == ConnectionState::Connected
    }

    /// The filesystem path to connect to: the configured endpoint, in either
    /// of the forms `unix:///path` and `/path`, as a plain path.
    pub fn socket_path(&self) -> (path: String)
        ensures
            path@ == without_unix_scheme(self.config().endpoint@),
    {
        strip_unix_scheme(self.config.endpoint.as_str())
    }

    /// Takes in the outcome of one connection attempt. The client is
    /// connected afterwards exactly if the channel was established; a failed
    /// attempt leaves it disconnected, whatever it was before.
    pub fn connect(&mut self, outcome: ConnectOutcome) -> (result: Result<(), ConnectError>)
        ensures
            final(self).config() == old(self).config(),
            match outcome {
                ConnectOutcome::Established => {
                    &&& result is Ok
                    &&& final(self).state() == ConnectionState::Connected
                },
                ConnectOutcome::Refused(reason) => {
                    &&& final(self).state() == ConnectionState::Disconnected
                    &&& result matches Err(ConnectError::Failed { endpoint, reason: r })
                    &&& endpoint@ == old(self).config().endpoint@
                    &&& r == reason
                },
                ConnectOutcome::TimedOut => {
                    &&& final(self).state() == ConnectionState::Disconnected
                    &&& result matches Err(ConnectError::Timeout { endpoint, timeout_secs })
                    &&& endpoint@ == old(self).config().endpoint@
                    &&& timeout_secs == duration_nanos(old(self).config().timeout) / 1_000_000_000
                },
            },
    {
        match outcome {
            ConnectOutcome::Established => {
                self.state = ConnectionState::Connected;
                Ok(())
            },
            ConnectOutcome::Refused(reason) => {
                self.state = ConnectionState::Disconnected;
                Err(ConnectError::Failed { endpoint: self.config.endpoint.clone(), reason })
            },
            ConnectOutcome::TimedOut => {
                self.state = ConnectionState::Disconnected;
                Err(
                    ConnectError::Timeout {
                        endpoint: self.config.endpoint.clone(),
                        timeout_secs: self.config.timeout.as_secs(),
                    },
                )
            },
        }
    }

    /// The first step of listing the pod sandboxes: send the request, unless
    /// no connection was established.
    pub fn list_pod_sandboxes(&self) -> (step: ListStep)
        ensures
            step == list_step(self.state(), self.config(), 0),
    {
        self.list_pod_sandboxes_with_filter(0)
    }

    /// The next step of listing the pod sandboxes when `failed_attempts`
    /// requests have failed so far. A client that is not connected gives up
    /// at once. Otherwise the request is sent once and then sent again, after
    /// the configured backoff, as long as no more than `max_retries` requests
    /// have failed.
    pub fn list_pod_sandboxes_with_filter(&self, failed_attempts: u32) -> (step: ListStep)
        ensures
            step == list_step(self.state(), self.config(), failed_attempts),
    {
        if self.state == ConnectionState::Disconnected {
            ListStep::Fail(ListError::NotConnected)
        } else if failed_attempts == 0 {
            ListStep::Send
        } else if failed_attempts <= self.config.max_retries {
            ListStep::SendAfter(self.config.retry_backoff)
        } else {
            ListStep::Fail(ListError::RetriesExhausted)
        }
    }
}

/// The step that follows `failed_attempts` failed requests.
pub open spec fn list_step(
    state: ConnectionState,
    config: CRIClientConfig,
    failed_attempts: u32,
) -> ListStep {
    if state == ConnectionState::Disconnected {
        ListStep::Fail(ListError::NotConnected)
    } else if failed_attempts == 0 {
        ListStep::Send
    } else if failed_attempts <= config.max_retries {
        ListStep::SendAfter(config.retry_backoff)
    } else {
        ListStep::Fail(ListError::RetriesExhausted)
    }
}

/// A connected client sends the request at most `max_retries + 1` times: it
/// gives up exactly when more requests than `max_retries` have failed.
pub proof fn lemma_retries_are_bounded(config: CRIClientConfig, failed_attempts: u32)
    ensures
        list_step(ConnectionState::Connected, config, failed_attempts) is Fail <==> failed_attempts
            > config.max_retries,
        list_step(ConnectionState::Disconnected, config, failed_attempts) == ListStep::Fail(
            ListError::NotConnected,
        ),
{
}

impl Clone for CRIClient {
    fn clone(&self) -> (client: Self)
        ensures
            client.config().endpoint@ == self.config().endpoint@,
            client.config().timeout == self.config().timeout,
            client.config().max_retries == self.config().max_retries,
            client.config().retry_backoff == self.config().retry_backoff,
            client.state() == self.state(),
    {
        CRIClient { config: self.config.clone(), state: self.state }
    }
}

} // verus!
