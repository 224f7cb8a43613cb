//! cAdvisor-compatible metrics output models and their rendering in the
//! Prometheus text format.

use crate::strmap::StrMap;
use crate::scan::find_in;
use crate::text::{decimal, from_chars, push_decimal, to_chars};
use vstd::prelude::*;
use vstd::string::*;

verus! {

/// How one character of a label value is written.
pub open spec fn escaped_char(c: char) -> Seq<char> {
    if c == '\\' {
        seq!['\\', '\\']
    } else if c == '"' {
        seq!['\\', '"']
    } else if c == '\n' {
        seq!['\\', 'n']
    } else {
        seq![c]
    }
}

/// A label value with backslash, double quote and line feed escaped.
pub open spec fn escaped(value: Seq<char>) -> Seq<char>
    decreases value.len(),
{
    if value.len() == 0 {
        Seq::empty()
    } else {
        escaped(value.drop_last()) + escaped_char(value.last())
    }
}

/// Appends the escaped form of `value` to `out`.
fn push_escaped(out: &mut String, value: &str)
    ensures
        final(out)@ == old(out)@ + escaped(value@),
{
    let ghost start = out@;
    for ch in it: value.chars()
        invariant
            it.seq() == value@,
            out@ == start + escaped(value@.take(it.index() as int)),
    {
        let ghost i = it.index() as int;
        proof {
            assert(value@.take(i + 1).drop_last() =~= value@.take(i));
            assert(value@.take(i + 1).last() == ch);
        }
        let ghost before = out@;
        if ch == '\\' {
            out.push('\\');
            out.push('\\');
        } else if ch == '"' {
            out.push('\\');
            out.push('"');
        } else if ch == '\n' {
            out.push('\\');
            out.push('n');
        } else {
            out.push(ch);
        }
        proof {
            assert(out@ =~= before + escaped_char(ch));
            assert(out@ =~= start + escaped(value@.take(i + 1)));
        }
    }
    proof {
        assert(value@.take(value@.len() as int) =~= value@);
    }
}

/// Helper function to escape label values for Prometheus format.
pub fn escape_label_value(value: &str) -> (result: String)
    ensures
        result@ == escaped(value@),
{
    let mut result = String::new();
    push_escaped(&mut result, value);
    result
}

/// Standard cAdvisor labels present on all container metrics.
#[derive(Debug)]
pub struct StandardLabels {
    /// Container ID.
    pub container: String,
    /// Cgroup path or pod UID.
    pub id: String,
    /// Container image URI.
    pub image: String,
    /// Container/pod name.
    pub name: String,
    /// Kubernetes namespace.
    pub namespace: String,
    /// Kubernetes pod name.
    pub pod: String,
}

/// The six standard labels as plain text.
pub struct LabelsView {
    pub container: Seq<char>,
    pub id: Seq<char>,
    pub image: Seq<char>,
    pub name: Seq<char>,
    pub namespace: Seq<char>,
    pub pod: Seq<char>,
}

impl View for StandardLabels {
    type V = LabelsView;

    open spec fn view(&self) -> LabelsView {
        LabelsView {
            container: self.container@,
            id: self.id@,
            image: self.image@,
            name: self.name@,
            namespace: self.namespace@,
            pod: self.pod@,
        }
    }
}

impl Default for StandardLabels {
    fn default() -> (labels: Self)
        ensures
            labels@ == StandardLabels::default_view(),
    {
        StandardLabels {
            container: String::new(),
            id: String::new(),
            image: String::new(),
            name: String::new(),
            namespace: String::new(),
            pod: String::new(),
        }
    }
}

impl Clone for StandardLabels {
    fn clone(&self) -> (labels: Self)
        ensures
            labels@ == self@,
    {
        StandardLabels {
            container: self.container.clone(),
            id: self.id.clone(),
            image: self.image.clone(),
            name: self.name.clone(),
            namespace: self.namespace.clone(),
            pod: self.pod.clone(),
        }
    }
}

/// One label as it is written: the key, and the escaped value in double
/// quotes.
pub open spec fn label_pair(key: Seq<char>, value: Seq<char>) -> Seq<char> {
    key + seq!['=', '"'] + escaped(value) + seq!['"']
}

/// The six standard labels as they are written, separated by commas.
pub open spec fn standard_pairs(labels: LabelsView) -> Seq<char> {
    label_pair("container"@, labels.container) + seq![','] + label_pair("id"@, labels.id) + seq![
        ',',
    ] + label_pair("image"@, labels.image) + seq![','] + label_pair("name"@, labels.name) + seq![
        ',',
    ] + label_pair("namespace"@, labels.namespace) + seq![','] + label_pair("pod"@, labels.pod)
}

/// Further labels as they are written, each after a comma.
pub open spec fn extra_pairs(extras: Seq<(Seq<char>, Seq<char>)>) -> Seq<char>
    decreases extras.len(),
{
    if extras.len() == 0 {
        Seq::empty()
    } else {
        extra_pairs(extras.drop_last()) + seq![','] + label_pair(extras.last().0, extras.last().1)
    }
}

/// The label set of a sample: the standard labels, then `extras`, in braces.
pub open spec fn label_string(labels: LabelsView, extras: Seq<(Seq<char>, Seq<char>)>) -> Seq<
    char,
> {
    seq!['{'] + standard_pairs(labels) + extra_pairs(extras) + seq!['}']
}

/// The keys and values of a list of further labels, as text.
pub open spec fn extras_view(extras: Seq<(&str, &str)>) -> Seq<(Seq<char>, Seq<char>)> {
    Seq::new(extras.len(), |i: int| (extras[i].0@, extras[i].1@))
}

pub(crate) fn push_pair(out: &mut String, key: &str, value: &str)
    ensures
        final(out)@ == old(out)@ + label_pair(key@, value@),
{
    out.append(key);
    out.push('=');
    out.push('"');
    push_escaped(out, value);
    out.push('"');
    proof {
        assert(out@ =~= old(out)@ + label_pair(key@, value@));
    }
}

impl StandardLabels {
    /// The labels that `default` gives: all six empty.
    pub open spec fn default_view() -> LabelsView {
        LabelsView {
            container: Seq::empty(),
            id: Seq::empty(),
            image: Seq::empty(),
            name: Seq::empty(),
            namespace: Seq::empty(),
            pod: Seq::empty(),
        }
    }

    /// Create StandardLabels from CRI metadata components: the pod UID, the
    /// pod name and the namespace.
    pub fn new(pod_uid: &str, pod_name: &str, pod_namespace: &str) -> (labels: Self)
        ensures
            labels@ == (LabelsView {
                container: "kata"@,
                id: pod_uid@,
                image: "unknown"@,
                name: pod_name@,
                namespace: pod_namespace@,
                pod: pod_name@,
            }),
    {
        StandardLabels {
            container: "kata".to_owned(),
            id: pod_uid.to_owned(),
            image: "unknown".to_owned(),
            name: pod_name.to_owned(),
            namespace: pod_namespace.to_owned(),
            pod: pod_name.to_owned(),
        }
    }

    fn push_standard(&self, out: &mut String)
        ensures
            final(out)@ == old(out)@ + standard_pairs(self@),
    {
        push_pair(out, "container", self.container.as_str());
        out.push(',');
        push_pair(out, "id", self.id.as_str());
        out.push(',');
        push_pair(out, "image", self.image.as_str());
        out.push(',');
        push_pair(out, "name", self.name.as_str());
        out.push(',');
        push_pair(out, "namespace", self.namespace.as_str());
        out.push(',');
        push_pair(out, "pod", self.pod.as_str());
        proof {
            assert(out@ =~= old(out)@ + standard_pairs(self@));
        }
    }

    /// Convert to label string for Prometheus format.
    pub fn to_label_string(&self) -> (text: String)
        ensures
            text@ == label_string(self@, Seq::empty()),
    {
        let mut text = String::new();
        text.push('{');
        self.push_standard(&mut text);
        text.push('}');
        proof {
            assert(text@ =~= label_string(self@, Seq::empty()));
        }
        text
    }

    /// Convert to label string with additional labels.
    pub fn to_label_string_with_extras(&self, extras: &[(&str, &str)]) -> (text: String)
        ensures
            text@ == label_string(self@, extras_view(extras@)),
    {
        let mut text = String::new();
        text.push('{');
        self.push_standard(&mut text);
        let ghost head = text@;
        let mut i: usize = 0;
        while i < extras.len()
            invariant
                i <= extras@.len(),
                text@ == head + extra_pairs(extras_view(extras@).take(i as int)),
            decreases extras@.len() - i,
        {
            let (key, value) = extras[i];
            text.push(',');
            push_pair(&mut text, key, value);
            proof {
                let all = extras_view(extras@);
                assert(all.take(i + 1).drop_last() =~= all.take(i as int));
                assert(all.take(i + 1).last() == (key@, value@));
                assert(text@ =~= head + extra_pairs(all.take(i + 1)));
            }
            i += 1;
        }
        text.push('}');
        proof {
            assert(extras_view(extras@).take(extras@.len() as int) =~= extras_view(extras@));
            assert(text@ =~= label_string(self@, extras_view(extras@)));
        }
        text
    }
}

/// Trait for converting metrics to Prometheus text format, including HELP
/// and TYPE annotations.
pub trait PrometheusFormat {
    /// The text that `to_prometheus_format` gives.
    spec fn prometheus_text(&self) -> Seq<char>;

    /// Convert this metric to Prometheus text format. The sandbox id has no
    /// part in the text.
    fn to_prometheus_format(&self, _sandbox_id: Option<&str>) -> (text: String)
        ensures
            text@ == self.prometheus_text(),
    ;
}

/// The HELP line and the TYPE line of a metric family.
pub open spec fn family_header(name: Seq<char>, help: Seq<char>, kind: Seq<char>) -> Seq<char> {
    "# HELP "@ + name + seq![' '] + help + seq!['\n'] + "# TYPE "@ + name + seq![' '] + kind
        + seq!['\n']
}

/// One sample line: the name, the label set, a space, the value in decimal
/// and a line feed.
pub open spec fn sample_line(name: Seq<char>, labels: Seq<char>, value: nat) -> Seq<char> {
    name + labels + seq![' '] + decimal(value) + seq!['\n']
}

/// A metric family with a single sample.
pub open spec fn family(
    name: Seq<char>,
    help: Seq<char>,
    kind: Seq<char>,
    labels: Seq<char>,
    value: nat,
) -> Seq<char> {
    family_header(name, help, kind) + sample_line(name, labels, value)
}

/// A metric family with a single sample where there is a value, nothing
/// where there is none.
pub open spec fn optional_family(
    name: Seq<char>,
    help: Seq<char>,
    kind: Seq<char>,
    labels: Seq<char>,
    value: Option<u64>,
) -> Seq<char> {
    match value {
        Some(v) => family(name, help, kind, labels, v as nat),
        None => Seq::empty(),
    }
}

/// `text` where `present` holds, nothing where it does not.
pub open spec fn when(present: bool, text: Seq<char>) -> Seq<char> {
    if present {
        text
    } else {
        Seq::empty()
    }
}

fn push_header(out: &mut String, name: &str, help: &str, kind: &str)
    ensures
        final(out)@ == old(out)@ + family_header(name@, help@, kind@),
{
    out.append("# HELP ");
    out.append(name);
    out.push(' ');
    out.append(help);
    out.push('\n');
    out.append("# TYPE ");
    out.append(name);
    out.push(' ');
    out.append(kind);
    out.push('\n');
    proof {
        assert(out@ =~= old(out)@ + family_header(name@, help@, kind@));
    }
}

fn push_sample(out: &mut String, name: &str, labels: &str, value: u64)
    ensures
        final(out)@ == old(out)@ + sample_line(name@, labels@, value as nat),
{
    out.append(name);
    out.append(labels);
    out.push(' ');
    push_decimal(out, value);
    out.push('\n');
    proof {
        assert(out@ =~= old(out)@ + sample_line(name@, labels@, value as nat));
    }
}

fn push_family(out: &mut String, name: &str, help: &str, kind: &str, labels: &str, value: u64)
    ensures
        final(out)@ == old(out)@ + family(name@, help@, kind@, labels@, value as nat),
{
    push_header(out, name, help, kind);
    push_sample(out, name, labels, value);
    proof {
        assert(out@ =~= old(out)@ + family(name@, help@, kind@, labels@, value as nat));
    }
}

fn push_optional_family(
    out: &mut String,
    name: &str,
    help: &str,
    kind: &str,
    labels: &str,
    value: Option<u64>,
)
    ensures
        final(out)@ == old(out)@ + optional_family(name@, help@, kind@, labels@, value),
{
    match value {
        Some(v) => {
            push_family(out, name, help, kind, labels, v);
        },
        None => {
            assert(out@ =~= old(out)@ + Seq::<char>::empty());
        },
    }
}

fn push_family_when(
    out: &mut String,
    present: bool,
    name: &str,
    help: &str,
    kind: &str,
    labels: &str,
    value: u64,
)
    ensures
        final(out)@ == old(out)@ + when(
            present,
            family(name@, help@, kind@, labels@, value as nat),
        ),
{
    if present {
        push_family(out, name, help, kind, labels, value);
    } else {
        assert(out@ =~= old(out)@ + Seq::<char>::empty());
    }
}

/// Whether `key` holds a colon at `at` and nowhere else.
pub open spec fn only_colon_at(key: Seq<char>, at: int) -> bool {
    &&& 0 <= at < key.len()
    &&& key[at] == ':'
    &&& forall|k: int| 0 <= k < key.len() && k != at ==> key[k] != ':'
}

/// The two parts of `key` around its colon, if it holds exactly one.
pub open spec fn colon_parts(key: Seq<char>) -> Option<(Seq<char>, Seq<char>)> {
    if exists|at: int| only_colon_at(key, at) {
        let at = choose|at: int| only_colon_at(key, at);
        Some((key.take(at), key.skip(at + 1)))
    } else {
        None
    }
}

fn split_at_only_colon(key: &str) -> (parts: Option<(String, String)>)
    ensures
        match parts {
            Some((a, b)) => colon_parts(key@) == Some((a@, b@)),
            None => colon_parts(key@) is None,
        },
{
    let chars = to_chars(key);
    let n = chars.len();
    match find_in(&chars, ':', 0, n) {
        Some(at) => match find_in(&chars, ':', at + 1, n) {
            Some(second) => {
                proof {
                    assert forall|i: int| !only_colon_at(key@, i) by {
                        if only_colon_at(key@, i) {
                            if i == at as int {
                                assert(key@[second as int] == ':');
                            } else {
                                assert(key@[at as int] == ':');
                            }
                        }
                    }
                }
                None
            },
            None => {
                proof {
                    assert(only_colon_at(key@, at as int));
                    let chosen = choose|i: int| only_colon_at(key@, i);
                    assert(chosen == at as int);
                    assert(key@.take(at as int) =~= chars@.subrange(0, at as int));
                    assert(key@.skip(at + 1) =~= chars@.subrange(at + 1, chars@.len() as int));
                }
                Some((from_chars(&chars, 0, at), from_chars(&chars, at + 1, n)))
            },
        },
        None => {
            proof {
                assert forall|i: int| !only_colon_at(key@, i) by {}
            }
            None
        },
    }
}

/// Memory metrics in cAdvisor format.
#[derive(Debug, Clone)]
pub struct MemoryMetrics {
    /// Total memory in use (in bytes).
    pub usage_bytes: u64,
    /// Working set size (in bytes).
    pub working_set_bytes: Option<u64>,
    /// Memory cache (in bytes).
    pub cache_bytes: Option<u64>,
    /// Resident set size (in bytes).
    pub rss_bytes: Option<u64>,
    /// Swap usage (in bytes).
    pub swap_bytes: Option<u64>,
    /// Memory-mapped file size (in bytes).
    pub mapped_file_bytes: Option<u64>,
    /// Memory failure counts by a key of the form `failure_type:scope`.
    pub failures: StrMap<u64>,
    /// Standard cAdvisor labels.
    pub standard_labels: StandardLabels,
}

impl Default for MemoryMetrics {
    fn default() -> (m: Self)
        ensures
            m.usage_bytes == 0,
            m.working_set_bytes is None,
            m.cache_bytes is None,
            m.rss_bytes is None,
            m.swap_bytes is None,
            m.mapped_file_bytes is None,
            m.failures@ == Map::<Seq<char>, u64>::empty(),
            m.standard_labels@ == StandardLabels::default_view(),
    {
        MemoryMetrics {
            usage_bytes: 0,
            working_set_bytes: None,
            cache_bytes: None,
            rss_bytes: None,
            swap_bytes: None,
            mapped_file_bytes: None,
            failures: StrMap::new(),
            standard_labels: StandardLabels::default(),
        }
    }
}

/// The line of one memory failure count: a sample with the two parts of the
/// key as further labels, or nothing where the key is not of the form
/// `failure_type:scope`.
pub open spec fn failure_line(labels: LabelsView, key: Seq<char>, count: u64) -> Seq<char> {
    match colon_parts(key) {
        Some((kind, scope)) => sample_line(
            "container_memory_failures_total"@,
            label_string(labels, seq![("failure_type"@, kind), ("scope"@, scope)]),
            count as nat,
        ),
        None => Seq::empty(),
    }
}

/// The lines of the memory failure counts under `keys`, in order.
pub open spec fn failure_lines(
    labels: LabelsView,
    keys: Seq<Seq<char>>,
    counts: Map<Seq<char>, u64>,
) -> Seq<char>
    decreases keys.len(),
{
    if keys.len() == 0 {
        Seq::empty()
    } else {
        failure_lines(labels, keys.drop_last(), counts) + failure_line(
            labels,
            keys.last(),
            counts[keys.last()],
        )
    }
}

impl PrometheusFormat for MemoryMetrics {
    open spec fn prometheus_text(&self) -> Seq<char> {
        let labels = label_string(self.standard_labels@, Seq::empty());
        family(
            "container_memory_usage_bytes"@,
            "Memory usage in bytes"@,
            "gauge"@,
            labels,
            self.usage_bytes as nat,
        ) + optional_family(
            "container_memory_working_set_bytes"@,
            "Working set size in bytes"@,
            "gauge"@,
            labels,
            self.working_set_bytes,
        ) + optional_family(
            "container_memory_cache_bytes"@,
            "Memory cache in bytes"@,
            "gauge"@,
            labels,
            self.cache_bytes,
        ) + optional_family(
            "container_memory_rss_bytes"@,
            "Resident set size in bytes"@,
            "gauge"@,
            labels,
            self.rss_bytes,
        ) + optional_family(
            "container_memory_swap_bytes"@,
            "Swap usage in bytes"@,
            "gauge"@,
            labels,
            self.swap_bytes,
        ) + when(
            self.failures.key_order().len() > 0,
            family_header(
                "container_memory_failures_total"@,
                "Memory failure count"@,
                "counter"@,
            ) + failure_lines(self.standard_labels@, self.failures.key_order(), self.failures@),
        )
    }

    fn to_prometheus_format(&self, _sandbox_id: Option<&str>) -> (text: String) {
        let mut output = String::new();
        let labels_suffix = self.standard_labels.to_label_string();
        let labels = labels_suffix.as_str();
        push_family(
            &mut output,
            "container_memory_usage_bytes",
            "Memory usage in bytes",
            "gauge",
            labels,
            self.usage_bytes,
        );
        proof {
            assert(output@ =~= family(
                "container_memory_usage_bytes"@,
                "Memory usage in bytes"@,
                "gauge"@,
                labels@,
                self.usage_bytes as nat,
            ));
        }
        push_optional_family(
            &mut output,
            "container_memory_working_set_bytes",
            "Working set size in bytes",
            "gauge",
            labels,
            self.working_set_bytes,
        );
        push_optional_family(
            &mut output,
            "container_memory_cache_bytes",
            "Memory cache in bytes",
            "gauge",
            labels,
            self.cache_bytes,
        );
        push_optional_family(
            &mut output,
            "container_memory_rss_bytes",
            "Resident set size in bytes",
            "gauge",
            labels,
            self.rss_bytes,
        );
        push_optional_family(
            &mut output,
            "container_memory_swap_bytes",
            "Swap usage in bytes",
            "gauge",
            labels,
            self.swap_bytes,
        );
        self.push_failures(&mut output);
        output
    }
}

impl MemoryMetrics {
    fn push_failures(&self, out: &mut String)
        ensures
            final(out)@ == old(out)@ + when(
                self.failures.key_order().len() > 0,
                family_header(
                    "container_memory_failures_total"@,
                    "Memory failure count"@,
                    "counter"@,
                ) + failure_lines(self.standard_labels@, self.failures.key_order(), self.failures@),
            ),
    {
        let n = self.failures.len();
        if n == 0 {
            assert(out@ =~= old(out)@ + Seq::<char>::empty());
            return ;
        }
        push_header(out, "container_memory_failures_total", "Memory failure count", "counter");
        let ghost header = family_header(
            "container_memory_failures_total"@,
            "Memory failure count"@,
            "counter"@,
        );
        let ghost keys = self.failures.key_order();
        proof {
            assert(out@ =~= old(out)@ + (header + failure_lines(
                self.standard_labels@,
                keys.take(0),
                self.failures@,
            )));
        }
        let mut i: usize = 0;
        while i < n
            invariant
                i <= n,
                n == self.failures.key_order().len(),
                keys == self.failures.key_order(),
                out@ == old(out)@ + (header + failure_lines(
                    self.standard_labels@,
                    keys.take(i as int),
                    self.failures@,
                )),
            decreases n - i,
        {
            let (key, count) = self.failures.entry_at(i);
            let ghost before = out@;
            let ghost earlier = failure_lines(
                self.standard_labels@,
                keys.take(i as int),
                self.failures@,
            );
            proof {
                assert(keys.take(i + 1).drop_last() =~= keys.take(i as int));
                assert(keys.take(i + 1).last() == key@);
            }
            match split_at_only_colon(key.as_str()) {
                Some((failure_type, scope)) => {
                    let mut extras: Vec<(&str, &str)> = Vec::new();
                    extras.push(("failure_type", failure_type.as_str()));
                    extras.push(("scope", scope.as_str()));
                    let failure_labels = self.standard_labels.to_label_string_with_extras(
                        extras.as_slice(),
                    );
                    proof {
                        assert(extras_view(extras@) =~= seq![
                            ("failure_type"@, failure_type@),
                            ("scope"@, scope@),
                        ]);
                    }
                    push_sample(
                        out,
                        "container_memory_failures_total",
                        failure_labels.as_str(),
                        *count,
                    );
                },
                None => {
                    assert(out@ =~= before + Seq::<char>::empty());
                },
            }
            proof {
                let line = failure_line(self.standard_labels@, key@, self.failures@[key@]);
                assert(out@ == before + line);
                assert(old(out)@ + (header + earlier) + line =~= old(out)@ + (header + (earlier
                    + line)));
            }
            i += 1;
        }
        proof {
            assert(keys.take(n as int) =~= keys);
        }
    }
}

/// Process metrics in cAdvisor format.
#[derive(Debug, Clone)]
pub struct ProcessMetrics {
    /// Number of running processes.
    pub count: u64,
    /// Total thread count.
    pub thread_count: u64,
    /// Maximum thread count allowed.
    pub thread_count_max: Option<u64>,
    /// Total open file descriptors.
    pub file_descriptors: u64,
    /// Task counts by state.
    pub tasks_by_state: StrMap<u64>,
    /// Standard cAdvisor labels.
    pub standard_labels: StandardLabels,
}

impl Default for ProcessMetrics {
    fn default() -> (m: Self)
        ensures
            m.count == 0,
            m.thread_count == 0,
            m.thread_count_max is None,
            m.file_descriptors == 0,
            m.tasks_by_state@ == Map::<Seq<char>, u64>::empty(),
            m.standard_labels@ == StandardLabels::default_view(),
    {
        ProcessMetrics {
            count: 0,
            thread_count: 0,
            thread_count_max: None,
            file_descriptors: 0,
            tasks_by_state: StrMap::new(),
            standard_labels: StandardLabels::default(),
        }
    }
}

/// The sample lines of the task counts under `states`, in order, each with
/// its state as a further label.
pub open spec fn task_state_lines(
    labels: LabelsView,
    states: Seq<Seq<char>>,
    counts: Map<Seq<char>, u64>,
) -> Seq<char>
    decreases states.len(),
{
    if states.len() == 0 {
        Seq::empty()
    } else {
        task_state_lines(labels, states.drop_last(), counts) + sample_line(
            "container_tasks_state"@,
            label_string(labels, seq![("state"@, states.last())]),
            counts[states.last()] as nat,
        )
    }
}

impl PrometheusFormat for ProcessMetrics {
    open spec fn prometheus_text(&self) -> Seq<char> {
        let labels = label_string(self.standard_labels@, Seq::empty());
        when(
            self.count > 0,
            family(
                "container_processes_count"@,
                "Number of running processes"@,
                "gauge"@,
                labels,
                self.count as nat,
            ),
        ) + when(
            self.thread_count > 0,
            family(
                "container_threads_count"@,
                "Number of threads"@,
                "gauge"@,
                labels,
                self.thread_count as nat,
            ),
        ) + optional_family(
            "container_threads_max_count"@,
            "Maximum number of threads allowed"@,
            "gauge"@,
            labels,
            self.thread_count_max,
        ) + when(
            self.file_descriptors > 0,
            family(
                "container_file_descriptors"@,
                "Number of open file descriptors"@,
                "gauge"@,
                labels,
                self.file_descriptors as nat,
            ),
        ) + when(
            self.tasks_by_state.key_order().len() > 0,
            family_header(
                "container_tasks_state"@,
                "Number of tasks in each state"@,
                "gauge"@,
            ) + task_state_lines(
                self.standard_labels@,
                self.tasks_by_state.key_order(),
                self.tasks_by_state@,
            ),
        )
    }

    fn to_prometheus_format(&self, _sandbox_id: Option<&str>) -> (text: String) {
        let mut output = String::new();
        let labels_suffix = self.standard_labels.to_label_string();
        let labels = labels_suffix.as_str();
        push_family_when(
            &mut output,
            self.count > 0,
            "container_processes_count",
            "Number of running processes",
            "gauge",
            labels,
            self.count,
        );
        proof {
            assert(output@ =~= when(
                self.count > 0,
                family(
                    "container_processes_count"@,
                    "Number of running processes"@,
                    "gauge"@,
                    labels@,
                    self.count as nat,
                ),
            ));
        }
        push_family_when(
            &mut output,
            self.thread_count > 0,
            "container_threads_count",
            "Number of threads",
            "gauge",
            labels,
            self.thread_count,
        );
        push_optional_family(
            &mut output,
            "container_threads_max_count",
            "Maximum number of threads allowed",
            "gauge",
            labels,
            self.thread_count_max,
        );
        push_family_when(
            &mut output,
            self.file_descriptors > 0,
            "container_file_descriptors",
            "Number of open file descriptors",
            "gauge",
            labels,
            self.file_descriptors,
        );
        self.push_task_states(&mut output);
        output
    }
}

impl ProcessMetrics {
    fn push_task_states(&self, out: &mut String)
        ensures
            final(out)@ == old(out)@ + when(
                self.tasks_by_state.key_order().len() > 0,
                family_header(
                    "container_tasks_state"@,
                    "Number of tasks in each state"@,
                    "gauge"@,
                ) + task_state_lines(
                    self.standard_labels@,
                    self.tasks_by_state.key_order(),
                    self.tasks_by_state@,
                ),
            ),
    {
        let n = self.tasks_by_state.len();
        if n == 0 {
            assert(out@ =~= old(out)@ + Seq::<char>::empty());
            return ;
        }
        push_header(out, "container_tasks_state", "Number of tasks in each state", "gauge");
        let ghost header = family_header(
            "container_tasks_state"@,
            "Number of tasks in each state"@,
            "gauge"@,
        );
        let ghost states = self.tasks_by_state.key_order();
        proof {
            assert(out@ =~= old(out)@ + (header + task_state_lines(
                self.standard_labels@,
                states.take(0),
                self.tasks_by_state@,
            )));
        }
        let mut i: usize = 0;
        while i < n
            invariant
                i <= n,
                n == self.tasks_by_state.key_order().len(),
                states == self.tasks_by_state.key_order(),
                out@ == old(out)@ + (header + task_state_lines(
                    self.standard_labels@,
                    states.take(i as int),
                    self.tasks_by_state@,
                )),
            decreases n - i,
        {
            let (state, count) = self.tasks_by_state.entry_at(i);
            proof {
                assert(states.take(i + 1).drop_last() =~= states.take(i as int));
                assert(states.take(i + 1).last() == state@);
            }
            let mut extras: Vec<(&str, &str)> = Vec::new();
            extras.push(("state", state.as_str()));
            let state_labels = self.standard_labels.to_label_string_with_extras(extras.as_slice());
            proof {
                assert(extras_view(extras@) =~= seq![("state"@, state@)]);
            }
            push_sample(out, "container_tasks_state", state_labels.as_str(), *count);
            proof {
                let earlier = task_state_lines(
                    self.standard_labels@,
                    states.take(i as int),
                    self.tasks_by_state@,
                );
                let line = sample_line(
                    "container_tasks_state"@,
                    state_labels@,
                    *count as nat,
                );
                assert(old(out)@ + (header + earlier) + line =~= old(out)@ + (header + (earlier
                    + line)));
            }
            i += 1;
        }
        proof {
            assert(states.take(n as int) =~= states);
        }
    }
}

/// Per-interface network metrics.
#[derive(Debug, Clone)]
pub struct InterfaceMetrics {
    /// Interface name, used for the interface label.
    pub name: String,
    pub receive_bytes: u64,
    pub transmit_bytes: u64,
    pub receive_packets: u64,
    pub transmit_packets: u64,
    pub receive_errors: Option<u64>,
    pub transmit_errors: Option<u64>,
    pub receive_dropped: Option<u64>,
    pub transmit_dropped: Option<u64>,
}

/// Per-interface network metrics as plain values.
pub struct InterfaceView {
    pub name: Seq<char>,
    pub receive_bytes: u64,
    pub transmit_bytes: u64,
    pub receive_packets: u64,
    pub transmit_packets: u64,
    pub receive_errors: Option<u64>,
    pub transmit_errors: Option<u64>,
    pub receive_dropped: Option<u64>,
    pub transmit_dropped: Option<u64>,
}

impl View for InterfaceMetrics {
    type V = InterfaceView;

    open spec fn view(&self) -> InterfaceView {
        InterfaceView {
            name: self.name@,
            receive_bytes: self.receive_bytes,
            transmit_bytes: self.transmit_bytes,
            receive_packets: self.receive_packets,
            transmit_packets: self.transmit_packets,
            receive_errors: self.receive_errors,
            transmit_errors: self.transmit_errors,
            receive_dropped: self.receive_dropped,
            transmit_dropped: self.transmit_dropped,
        }
    }
}

/// An interface of which nothing is known: no name, no traffic.
pub open spec fn unknown_interface() -> InterfaceView {
    InterfaceView {
        name: Seq::empty(),
        receive_bytes: 0,
        transmit_bytes: 0,
        receive_packets: 0,
        transmit_packets: 0,
        receive_errors: None,
        transmit_errors: None,
        receive_dropped: None,
        transmit_dropped: None,
    }
}

impl Default for InterfaceMetrics {
    fn default() -> (m: Self)
        ensures
            m@ == unknown_interface(),
    {
        InterfaceMetrics {
            name: String::new(),
            receive_bytes: 0,
            transmit_bytes: 0,
            receive_packets: 0,
            transmit_packets: 0,
            receive_errors: None,
            transmit_errors: None,
            receive_dropped: None,
            transmit_dropped: None,
        }
    }
}

/// The four traffic counters of an interface.
#[derive(Debug, Clone, Copy, PartialEq, Eq, Structural)]
pub enum TrafficCounter {
    ReceiveBytes,
    TransmitBytes,
    ReceivePackets,
    TransmitPackets,
}

impl TrafficCounter {
    /// The name of the metric family of this counter.
    pub open spec fn metric_name(self) -> Seq<char> {
        match self {
            TrafficCounter::ReceiveBytes => "container_network_receive_bytes_total"@,
            TrafficCounter::TransmitBytes => "container_network_transmit_bytes_total"@,
            TrafficCounter::ReceivePackets => "container_network_receive_packets_total"@,
            TrafficCounter::TransmitPackets => "container_network_transmit_packets_total"@,
        }
    }

    /// The help text of the family over all interfaces.
    pub open spec fn total_help(self) -> Seq<char> {
        match self {
            TrafficCounter::ReceiveBytes => "Total bytes received"@,
            TrafficCounter::TransmitBytes => "Total bytes transmitted"@,
            TrafficCounter::ReceivePackets => "Total packets received"@,
            TrafficCounter::TransmitPackets => "Total packets transmitted"@,
        }
    }

    /// The help text of the family per interface.
    pub open spec fn interface_help(self) -> Seq<char> {
        match self {
            TrafficCounter::ReceiveBytes => "Total bytes received per interface"@,
            TrafficCounter::TransmitBytes => "Total bytes transmitted per interface"@,
            TrafficCounter::ReceivePackets => "Total packets received per interface"@,
            TrafficCounter::TransmitPackets => "Total packets transmitted per interface"@,
        }
    }

    /// The value of this counter on `iface`.
    pub open spec fn of(self, iface: InterfaceMetrics) -> u64 {
        match self {
            TrafficCounter::ReceiveBytes => iface.receive_bytes,
            TrafficCounter::TransmitBytes => iface.transmit_bytes,
            TrafficCounter::ReceivePackets => iface.receive_packets,
            TrafficCounter::TransmitPackets => iface.transmit_packets,
        }
    }

    fn name(self) -> (name: &'static str)
        ensures
            name@ == self.metric_name(),
    {
        match self {
            TrafficCounter::ReceiveBytes => "container_network_receive_bytes_total",
            TrafficCounter::TransmitBytes => "container_network_transmit_bytes_total",
            TrafficCounter::ReceivePackets => "container_network_receive_packets_total",
            TrafficCounter::TransmitPackets => "container_network_transmit_packets_total",
        }
    }

    fn help(self) -> (help: &'static str)
        ensures
            help@ == self.total_help(),
    {
        match self {
            TrafficCounter::ReceiveBytes => "Total bytes received",
            TrafficCounter::TransmitBytes => "Total bytes transmitted",
            TrafficCounter::ReceivePackets => "Total packets received",
            TrafficCounter::TransmitPackets => "Total packets transmitted",
        }
    }

    fn help_per_interface(self) -> (help: &'static str)
        ensures
            help@ == self.interface_help(),
    {
        match self {
            TrafficCounter::ReceiveBytes => "Total bytes received per interface",
            TrafficCounter::TransmitBytes => "Total bytes transmitted per interface",
            TrafficCounter::ReceivePackets => "Total packets received per interface",
            TrafficCounter::TransmitPackets => "Total packets transmitted per interface",
        }
    }

    fn value(self, iface: &InterfaceMetrics) -> (v: u64)
        ensures
            v == self.of(*iface),
    {
        match self {
            TrafficCounter::ReceiveBytes => iface.receive_bytes,
            TrafficCounter::TransmitBytes => iface.transmit_bytes,
            TrafficCounter::ReceivePackets => iface.receive_packets,
            TrafficCounter::TransmitPackets => iface.transmit_packets,
        }
    }
}

/// Network metrics in cAdvisor format.
#[derive(Debug, Clone)]
pub struct NetworkMetrics {
    /// Total bytes received.
    pub receive_bytes_total: u64,
    /// Total bytes transmitted.
    pub transmit_bytes_total: u64,
    /// Total packets received.
    pub receive_packets_total: u64,
    /// Total packets transmitted.
    pub transmit_packets_total: u64,
    /// Total receive errors.
    pub receive_errors_total: Option<u64>,
    /// Total transmit errors.
    pub transmit_errors_total: Option<u64>,
    /// Total dropped receive packets.
    pub receive_packets_dropped_total: Option<u64>,
    /// Total dropped transmit packets.
    pub transmit_packets_dropped_total: Option<u64>,
    /// Per-interface breakdown.
    pub per_interface: StrMap<InterfaceMetrics>,
    /// Standard cAdvisor labels.
    pub standard_labels: StandardLabels,
}

impl Default for NetworkMetrics {
    fn default() -> (m: Self)
        ensures
            m.receive_bytes_total == 0,
            m.transmit_bytes_total == 0,
            m.receive_packets_total == 0,
            m.transmit_packets_total == 0,
            m.receive_errors_total is None,
            m.transmit_errors_total is None,
            m.receive_packets_dropped_total is None,
            m.transmit_packets_dropped_total is None,
            m.per_interface@ == Map::<Seq<char>, InterfaceMetrics>::empty(),
            m.standard_labels@ == StandardLabels::default_view(),
    {
        NetworkMetrics {
            receive_bytes_total: 0,
            transmit_bytes_total: 0,
            receive_packets_total: 0,
            transmit_packets_total: 0,
            receive_errors_total: None,
            transmit_errors_total: None,
            receive_packets_dropped_total: None,
            transmit_packets_dropped_total: None,
            per_interface: StrMap::new(),
            standard_labels: StandardLabels::default(),
        }
    }
}

/// The sample lines of one traffic counter for the interfaces under `keys`,
/// in order: one line for each interface on which the counter is above zero,
/// with the interface's name as a further label.
pub open spec fn interface_lines(
    labels: LabelsView,
    counter: TrafficCounter,
    keys: Seq<Seq<char>>,
    interfaces: Map<Seq<char>, InterfaceMetrics>,
) -> Seq<char>
    decreases keys.len(),
{
    if keys.len() == 0 {
        Seq::empty()
    } else {
        let iface = interfaces[keys.last()];
        interface_lines(labels, counter, keys.drop_last(), interfaces) + when(
            counter.of(iface) > 0,
            sample_line(
                counter.metric_name(),
                label_string(labels, seq![("interface"@, iface.name@)]),
                counter.of(iface) as nat,
            ),
        )
    }
}

/// The family of one traffic counter per interface: its header and its
/// sample lines.
pub open spec fn interface_family(
    labels: LabelsView,
    counter: TrafficCounter,
    keys: Seq<Seq<char>>,
    interfaces: Map<Seq<char>, InterfaceMetrics>,
) -> Seq<char> {
    family_header(counter.metric_name(), counter.interface_help(), "counter"@) + interface_lines(
        labels,
        counter,
        keys,
        interfaces,
    )
}

impl NetworkMetrics {
    fn push_interface_family(&self, out: &mut String, counter: TrafficCounter)
        ensures
            final(out)@ == old(out)@ + interface_family(
                self.standard_labels@,
                counter,
                self.per_interface.key_order(),
                self.per_interface@,
            ),
    {
        push_header(out, counter.name(), counter.help_per_interface(), "counter");
        let ghost top = out@;
        let ghost keys = self.per_interface.key_order();
        let n = self.per_interface.len();
        let mut i: usize = 0;
        while i < n
            invariant
                i <= n,
                n == self.per_interface.key_order().len(),
                keys == self.per_interface.key_order(),
                out@ == top + interface_lines(
                    self.standard_labels@,
                    counter,
                    keys.take(i as int),
                    self.per_interface@,
                ),
            decreases n - i,
        {
            let (key, iface) = self.per_interface.entry_at(i);
            proof {
                assert(keys.take(i + 1).drop_last() =~= keys.take(i as int));
                assert(keys.take(i + 1).last() == key@);
            }
            let value = counter.value(iface);
            if value > 0 {
                let mut extras: Vec<(&str, &str)> = Vec::new();
                extras.push(("interface", iface.name.as_str()));
                let iface_labels = self.standard_labels.to_label_string_with_extras(
                    extras.as_slice(),
                );
                proof {
                    assert(extras_view(extras@) =~= seq![("interface"@, iface.name@)]);
                }
                push_sample(out, counter.name(), iface_labels.as_str(), value);
            }
            proof {
                assert(out@ =~= top + interface_lines(
                    self.standard_labels@,
                    counter,
                    keys.take(i + 1),
                    self.per_interface@,
                ));
            }
            i += 1;
        }
        proof {
            assert(keys.take(n as int) =~= keys);
            assert(out@ =~= old(out)@ + interface_family(
                self.standard_labels@,
                counter,
                keys,
                self.per_interface@,
            ));
        }
    }

    /// The four families of the totals over all interfaces.
    pub open spec fn totals_text(&self) -> Seq<char> {
        let labels = label_string(self.standard_labels@, Seq::empty());
        family(
            TrafficCounter::ReceiveBytes.metric_name(),
            TrafficCounter::ReceiveBytes.total_help(),
            "counter"@,
            labels,
            self.receive_bytes_total as nat,
        ) + family(
            TrafficCounter::TransmitBytes.metric_name(),
            TrafficCounter::TransmitBytes.total_help(),
            "counter"@,
            labels,
            self.transmit_bytes_total as nat,
        ) + family(
            TrafficCounter::ReceivePackets.metric_name(),
            TrafficCounter::ReceivePackets.total_help(),
            "counter"@,
            labels,
            self.receive_packets_total as nat,
        ) + family(
            TrafficCounter::TransmitPackets.metric_name(),
            TrafficCounter::TransmitPackets.total_help(),
            "counter"@,
            labels,
            self.transmit_packets_total as nat,
        )
    }

    /// The four families per interface.
    pub open spec fn per_interface_text(&self) -> Seq<char> {
        let keys = self.per_interface.key_order();
        interface_family(
            self.standard_labels@,
            TrafficCounter::ReceiveBytes,
            keys,
            self.per_interface@,
        ) + interface_family(
            self.standard_labels@,
            TrafficCounter::TransmitBytes,
            keys,
            self.per_interface@,
        ) + interface_family(
            self.standard_labels@,
            TrafficCounter::ReceivePackets,
            keys,
            self.per_interface@,
        ) + interface_family(
            self.standard_labels@,
            TrafficCounter::TransmitPackets,
            keys,
            self.per_interface@,
        )
    }
}

impl PrometheusFormat for NetworkMetrics {
    /// The totals are written where bytes were received or transmitted, the
    /// error totals where they are known, and the families per interface
    /// where there is an interface. Dropped packets are not written.
    open spec fn prometheus_text(&self) -> Seq<char> {
        let labels = label_string(self.standard_labels@, Seq::empty());
        when(
            self.receive_bytes_total > 0 || self.transmit_bytes_total > 0,
            self.totals_text(),
        ) + optional_family(
            "container_network_receive_errors_total"@,
            "Receive errors"@,
            "counter"@,
            labels,
            self.receive_errors_total,
        ) + optional_family(
            "container_network_transmit_errors_total"@,
            "Transmit errors"@,
            "counter"@,
            labels,
            self.transmit_errors_total,
        ) + when(self.per_interface.key_order().len() > 0, self.per_interface_text())
    }

    fn to_prometheus_format(&self, _sandbox_id: Option<&str>) -> (text: String) {
        let mut output = String::new();
        let labels_suffix = self.standard_labels.to_label_string();
        let labels = labels_suffix.as_str();
        self.push_totals(&mut output, labels);
        proof {
            assert(output@ =~= when(
                self.receive_bytes_total > 0 || self.transmit_bytes_total > 0,
                self.totals_text(),
            ));
        }
        push_optional_family(
            &mut output,
            "container_network_receive_errors_total",
            "Receive errors",
            "counter",
            labels,
            self.receive_errors_total,
        );
        push_optional_family(
            &mut output,
            "container_network_transmit_errors_total",
            "Transmit errors",
            "counter",
            labels,
            self.transmit_errors_total,
        );
        self.push_per_interface(&mut output);
        output
    }
}

impl NetworkMetrics {
    fn push_totals(&self, out: &mut String, labels: &str)
        requires
            labels@ == label_string(self.standard_labels@, Seq::empty()),
        ensures
            final(out)@ == old(out)@ + when(
                self.receive_bytes_total > 0 || self.transmit_bytes_total > 0,
                self.totals_text(),
            ),
    {
        if self.receive_bytes_total > 0 || self.transmit_bytes_total > 0 {
            let ghost first = family(
                TrafficCounter::ReceiveBytes.metric_name(),
                TrafficCounter::ReceiveBytes.total_help(),
                "counter"@,
                labels@,
                self.receive_bytes_total as nat,
            );
            let ghost second = family(
                TrafficCounter::TransmitBytes.metric_name(),
                TrafficCounter::TransmitBytes.total_help(),
                "counter"@,
                labels@,
                self.transmit_bytes_total as nat,
            );
            let ghost third = family(
                TrafficCounter::ReceivePackets.metric_name(),
                TrafficCounter::ReceivePackets.total_help(),
                "counter"@,
                labels@,
                self.receive_packets_total as nat,
            );
            let ghost fourth = family(
                TrafficCounter::TransmitPackets.metric_name(),
                TrafficCounter::TransmitPackets.total_help(),
                "counter"@,
                labels@,
                self.transmit_packets_total as nat,
            );
            push_family(
                out,
                TrafficCounter::ReceiveBytes.name(),
                TrafficCounter::ReceiveBytes.help(),
                "counter",
                labels,
                self.receive_bytes_total,
            );
            push_family(
                out,
                TrafficCounter::TransmitBytes.name(),
                TrafficCounter::TransmitBytes.help(),
                "counter",
                labels,
                self.transmit_bytes_total,
            );
            push_family(
                out,
                TrafficCounter::ReceivePackets.name(),
                TrafficCounter::ReceivePackets.help(),
                "counter",
                labels,
                self.receive_packets_total,
            );
            push_family(
                out,
                TrafficCounter::TransmitPackets.name(),
                TrafficCounter::TransmitPackets.help(),
                "counter",
                labels,
                self.transmit_packets_total,
            );
            proof {
                assert(self.totals_text() == first + second + third + fourth);
                assert(old(out)@ + first + second + third + fourth =~= old(out)@ + (first + second
                    + third + fourth));
            }
        } else {
            assert(out@ =~= old(out)@ + Seq::<char>::empty());
        }
    }

    fn push_per_interface(&self, out: &mut String)
        ensures
            final(out)@ == old(out)@ + when(
                self.per_interface.key_order().len() > 0,
                self.per_interface_text(),
            ),
    {
        if self.per_interface.len() > 0 {
            let ghost keys = self.per_interface.key_order();
            let ghost first = interface_family(
                self.standard_labels@,
                TrafficCounter::ReceiveBytes,
                keys,
                self.per_interface@,
            );
            let ghost second = interface_family(
                self.standard_labels@,
                TrafficCounter::TransmitBytes,
                keys,
                self.per_interface@,
            );
            let ghost third = interface_family(
                self.standard_labels@,
                TrafficCounter::ReceivePackets,
                keys,
                self.per_interface@,
            );
            let ghost fourth = interface_family(
                self.standard_labels@,
                TrafficCounter::TransmitPackets,
                keys,
                self.per_interface@,
            );
            self.push_interface_family(out, TrafficCounter::ReceiveBytes);
            self.push_interface_family(out, TrafficCounter::TransmitBytes);
            self.push_interface_family(out, TrafficCounter::ReceivePackets);
            self.push_interface_family(out, TrafficCounter::TransmitPackets);
            proof {
                assert(self.per_interface_text() == first + second + third + fourth);
                assert(old(out)@ + first + second + third + fourth =~= old(out)@ + (first + second
                    + third + fourth));
            }
        } else {
            assert(out@ =~= old(out)@ + Seq::<char>::empty());
        }
    }
}

} // verus!
