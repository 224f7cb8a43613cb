//! Cloud Hypervisor metrics converter: turns the guest metrics that Kata
//! reports into cAdvisor format.
//!
//! The values of the samples are taken as whole numbers.

use crate::strmap::StrMap;
use crate::text::{contains, contains_text, ends_with, is_prefix, is_suffix, starts_with, str_eq, to_chars};
use crate::utils::metrics_converter::cadvisor::{
    unknown_interface,
    InterfaceMetrics,
    InterfaceView,
    LabelsView,
    MemoryMetrics,
    NetworkMetrics,
    ProcessMetrics,
    StandardLabels,
};
use crate::utils::metrics_converter::config::{
    matches_any,
    ConversionConfig,
    no_labels,
    EnrichedLabels,
    EnrichedView,
    HypervisorType,
    LabelEnricher,
};
use crate::utils::prometheus_parser::{
    MetricSample,
    MetricView,
    PrometheusMetrics,
    SampleView,
};
use vstd::prelude::*;

verus! {

/// The families of guest metrics that the conversions read.
#[derive(Debug, Clone, Copy, PartialEq, Eq, Structural)]
pub enum Family {
    /// Memory information of the guest.
    Meminfo,
    /// Statistics of the guest's network devices.
    Netdev,
    /// Task counts of the guest.
    Tasks,
    /// Thread counts of the shim, the hypervisor, the agent and virtiofsd.
    Threads,
    /// Counts of open file descriptors of the same components.
    Fds,
    /// CPU time of the guest, in jiffies.
    CpuTime,
    /// Statistics of the guest's disks.
    Diskstat,
}

/// Whether `name` names one of the components whose threads and file
/// descriptors are counted.
pub open spec fn names_component(name: Seq<char>) -> bool {
    contains_text(name, "shim"@) || contains_text(name, "hypervisor"@) || contains_text(
        name,
        "agent"@,
    ) || contains_text(name, "virtiofsd"@)
}

impl Family {
    /// Whether a metric of the given name belongs to the family.
    pub open spec fn takes(self, name: Seq<char>) -> bool {
        match self {
            Family::Meminfo => is_prefix("kata_guest_meminfo"@, name),
            Family::Netdev => is_prefix("kata_guest_netdev_stat"@, name),
            Family::Tasks => is_prefix("kata_guest_tasks"@, name),
            Family::Threads => is_suffix("_threads"@, name) && names_component(name),
            Family::Fds => is_suffix("_fds"@, name) && names_component(name),
            Family::CpuTime => is_prefix("kata_guest_cpu_time"@, name),
            Family::Diskstat => is_prefix("kata_guest_diskstat"@, name),
        }
    }

    /// Whether a metric of the given name belongs to the family.
    pub fn includes(self, name: &str) -> (r: bool)
        ensures
            r == self.takes(name@),
    {
        let chars = to_chars(name);
        match self {
            Family::Meminfo => starts_with(&chars, &to_chars("kata_guest_meminfo")),
            Family::Netdev => starts_with(&chars, &to_chars("kata_guest_netdev_stat")),
            Family::Tasks => starts_with(&chars, &to_chars("kata_guest_tasks")),
            Family::Threads => ends_with(&chars, &to_chars("_threads")) && component_in(&chars),
            Family::Fds => ends_with(&chars, &to_chars("_fds")) && component_in(&chars),
            Family::CpuTime => starts_with(&chars, &to_chars("kata_guest_cpu_time")),
            Family::Diskstat => starts_with(&chars, &to_chars("kata_guest_diskstat")),
        }
    }
}

fn component_in(name: &Vec<char>) -> (r: bool)
    ensures
        r == names_component(name@),
{
    contains(name, &to_chars("shim")) || contains(name, &to_chars("hypervisor")) || contains(
        name,
        &to_chars("agent"),
    ) || contains(name, &to_chars("virtiofsd"))
}

/// The samples of the metrics under `keys` that belong to `family`, metric
/// after metric, each metric's samples in their order.
pub open spec fn selected<V>(
    keys: Seq<Seq<char>>,
    metrics: Map<Seq<char>, MetricView<V>>,
    family: Family,
) -> Seq<SampleView<V>>
    decreases keys.len(),
{
    if keys.len() == 0 {
        Seq::empty()
    } else {
        let metric = metrics[keys.last()];
        selected(keys.drop_last(), metrics, family) + if family.takes(metric.name) {
            metric.samples
        } else {
            Seq::empty()
        }
    }
}

/// The views of the samples that a list refers to.
pub open spec fn views_of<V>(samples: Seq<&MetricSample<V>>) -> Seq<SampleView<V>> {
    Seq::new(samples.len(), |i: int| samples[i]@)
}

/// The samples of `metrics` that belong to `family`.
pub fn select<V>(metrics: &PrometheusMetrics<V>, family: Family) -> (samples: Vec<
    &MetricSample<V>,
>)
    ensures
        views_of(samples@) == selected(metrics.metrics.key_order(), metrics@, family),
{
    let mut samples: Vec<&MetricSample<V>> = Vec::new();
    let n = metrics.metrics.len();
    let ghost keys = metrics.metrics.key_order();
    proof {
        assert(views_of(samples@) =~= selected(keys.take(0), metrics@, family));
    }
    let mut i: usize = 0;
    while i < n
        invariant
            i <= n,
            n == keys.len(),
            keys == metrics.metrics.key_order(),
            views_of(samples@) == selected(keys.take(i as int), metrics@, family),
        decreases n - i,
    {
        let (key, metric) = metrics.metrics.entry_at(i);
        proof {
            assert(keys.take(i + 1).drop_last() =~= keys.take(i as int));
            assert(keys.take(i + 1).last() == key@);
            assert(metrics@[key@] == metric@);
        }
        let ghost earlier = views_of(samples@);
        if family.includes(metric.name.as_str()) {
            let mut k: usize = 0;
            while k < metric.samples.len()
                invariant
                    k <= metric.samples@.len(),
                    views_of(samples@) == earlier + metric@.samples.take(k as int),
                decreases metric.samples@.len() - k,
            {
                let ghost before = views_of(samples@);
                samples.push(&metric.samples[k]);
                proof {
                    assert(views_of(samples@) =~= before.push(metric.samples@[k as int]@));
                    assert(metric@.samples.take(k + 1) =~= metric@.samples.take(k as int).push(
                        metric.samples@[k as int]@,
                    ));
                    assert(views_of(samples@) =~= earlier + metric@.samples.take(k + 1));
                }
                k += 1;
            }
            proof {
                assert(metric@.samples.take(metric.samples@.len() as int) =~= metric@.samples);
            }
        } else {
            proof {
                assert(earlier + Seq::<SampleView<V>>::empty() =~= earlier);
            }
        }
        i += 1;
    }
    proof {
        assert(keys.take(n as int) =~= keys);
    }
    samples
}

/// The value of the label `key` of a sample, if it has that label.
pub open spec fn label<V>(sample: SampleView<V>, key: Seq<char>) -> Option<Seq<char>> {
    if sample.labels.contains_key(key) {
        Some(sample.labels[key])
    } else {
        None
    }
}

fn label_of<'a, V>(sample: &'a MetricSample<V>, key: &str) -> (r: Option<&'a String>)
    ensures
        match r {
            Some(text) => label(sample@, key@) == Some(text@),
            None => label(sample@, key@) is None,
        },
{
    sample.labels.get(key)
}

/// The memory information that the samples give: for each item, the value of
/// the last sample that names it.
pub open spec fn meminfo(samples: Seq<SampleView<u64>>) -> Map<Seq<char>, u64>
    decreases samples.len(),
{
    if samples.len() == 0 {
        Map::empty()
    } else {
        match label(samples.last(), "item"@) {
            Some(item) => meminfo(samples.drop_last()).insert(item, samples.last().value),
            None => meminfo(samples.drop_last()),
        }
    }
}

/// The item `a` of `info`, if it is there.
pub open spec fn item(info: Map<Seq<char>, u64>, a: Seq<char>) -> Option<u64> {
    if info.contains_key(a) {
        Some(info[a])
    } else {
        None
    }
}

/// Item `a` less item `b`, but not below zero, if both are there.
pub open spec fn difference(info: Map<Seq<char>, u64>, a: Seq<char>, b: Seq<char>) -> Option<u64> {
    if info.contains_key(a) && info.contains_key(b) {
        Some(info[a].saturating_sub(info[b]))
    } else {
        None
    }
}

/// Item `a` plus item `b`, wrapping at 64 bits, if both are there.
pub open spec fn sum(info: Map<Seq<char>, u64>, a: Seq<char>, b: Seq<char>) -> Option<u64> {
    if info.contains_key(a) && info.contains_key(b) {
        Some(info[a].wrapping_add(info[b]))
    } else {
        None
    }
}

fn item_of(info: &StrMap<u64>, a: &str) -> (r: Option<u64>)
    ensures
        r == item(info@, a@),
{
    match info.get(a) {
        Some(v) => Some(*v),
        None => None,
    }
}

fn difference_of(info: &StrMap<u64>, a: &str, b: &str) -> (r: Option<u64>)
    ensures
        r == difference(info@, a@, b@),
{
    match (info.get(a), info.get(b)) {
        (Some(x), Some(y)) => Some(x.saturating_sub(*y)),
        _ => None,
    }
}

fn sum_of(info: &StrMap<u64>, a: &str, b: &str) -> (r: Option<u64>)
    ensures
        r == sum(info@, a@, b@),
{
    match (info.get(a), info.get(b)) {
        (Some(x), Some(y)) => Some(x.wrapping_add(*y)),
        _ => None,
    }
}

/// Whether `memory` holds what the memory information of the metrics gives.
pub open spec fn memory_matches(
    memory: MemoryMetrics,
    keys: Seq<Seq<char>>,
    metrics: Map<Seq<char>, MetricView<u64>>,
) -> bool {
    let info = meminfo(selected(keys, metrics, Family::Meminfo));
    &&& memory.usage_bytes == match difference(info, "memtotal"@, "memfree"@) {
        Some(v) => v,
        None => 0,
    }
    &&& memory.working_set_bytes == sum(info, "active"@, "inactive_file"@)
    &&& memory.cache_bytes == sum(info, "cached"@, "buffers"@)
    &&& memory.rss_bytes == item(info, "anon_pages"@)
    &&& memory.swap_bytes == difference(info, "swaptotal"@, "swapfree"@)
    &&& memory.mapped_file_bytes == item(info, "mapped"@)
    &&& memory.failures@ == Map::<Seq<char>, u64>::empty()
}

/// Memory metrics from the guest's memory information, with the given
/// standard labels. Usage is total less free memory, the working set active
/// plus inactive file pages, the cache cached pages plus buffers, the
/// resident set the anonymous pages, swap the total less the free swap. No
/// failures are counted.
pub fn memory_from(metrics: &PrometheusMetrics<u64>, labels: StandardLabels) -> (memory:
    MemoryMetrics)
    ensures
        memory_matches(memory, metrics.metrics.key_order(), metrics@),
        memory.standard_labels == labels,
{
    let samples = select(metrics, Family::Meminfo);
    let mut info: StrMap<u64> = StrMap::new();
    proof {
        assert(views_of(samples@).take(0) =~= Seq::<SampleView<u64>>::empty());
    }
    let mut i: usize = 0;
    while i < samples.len()
        invariant
            i <= samples@.len(),
            info@ == meminfo(views_of(samples@).take(i as int)),
        decreases samples@.len() - i,
    {
        let sample = samples[i];
        proof {
            let all = views_of(samples@);
            assert(all.take(i + 1).drop_last() =~= all.take(i as int));
            assert(all.take(i + 1).last() == sample@);
        }
        match label_of(sample, "item") {
            Some(name) => {
                info.insert(name.as_str(), sample.value);
            },
            None => {},
        }
        i += 1;
    }
    proof {
        assert(views_of(samples@).take(samples@.len() as int) =~= views_of(samples@));
    }
    let usage_bytes = match difference_of(&info, "memtotal", "memfree") {
        Some(v) => v,
        None => 0,
    };
    MemoryMetrics {
        usage_bytes,
        working_set_bytes: sum_of(&info, "active", "inactive_file"),
        cache_bytes: sum_of(&info, "cached", "buffers"),
        rss_bytes: item_of(&info, "anon_pages"),
        swap_bytes: difference_of(&info, "swaptotal", "swapfree"),
        mapped_file_bytes: item_of(&info, "mapped"),
        failures: StrMap::new(),
        standard_labels: labels,
    }
}

/// The value of the last of `samples` whose item is `name`, if there is one.
pub open spec fn last_value(samples: Seq<SampleView<u64>>, name: Seq<char>) -> Option<u64>
    decreases samples.len(),
{
    if samples.len() == 0 {
        None
    } else if label(samples.last(), "item"@) == Some(name) {
        Some(samples.last().value)
    } else {
        last_value(samples.drop_last(), name)
    }
}

/// The values of `samples` added up, wrapping at 64 bits.
pub open spec fn total(samples: Seq<SampleView<u64>>) -> u64
    decreases samples.len(),
{
    if samples.len() == 0 {
        0
    } else {
        total(samples.drop_last()).wrapping_add(samples.last().value)
    }
}

fn total_of(samples: &Vec<&MetricSample<u64>>) -> (r: u64)
    ensures
        r == total(views_of(samples@)),
{
    let mut r: u64 = 0;
    proof {
        assert(views_of(samples@).take(0) =~= Seq::<SampleView<u64>>::empty());
    }
    let mut i: usize = 0;
    while i < samples.len()
        invariant
            i <= samples@.len(),
            r == total(views_of(samples@).take(i as int)),
        decreases samples@.len() - i,
    {
        proof {
            let all = views_of(samples@);
            assert(all.take(i + 1).drop_last() =~= all.take(i as int));
            assert(all.take(i + 1).last() == samples@[i as int]@);
        }
        r = r.wrapping_add(samples[i].value);
        i += 1;
    }
    proof {
        assert(views_of(samples@).take(samples@.len() as int) =~= views_of(samples@));
    }
    r
}

/// Whether `process` holds what the task, thread and file descriptor counts
/// of the metrics give.
pub open spec fn process_matches(
    process: ProcessMetrics,
    keys: Seq<Seq<char>>,
    metrics: Map<Seq<char>, MetricView<u64>>,
) -> bool {
    let tasks = selected(keys, metrics, Family::Tasks);
    &&& process.count == match last_value(tasks, "cur"@) {
        Some(v) => v,
        None => 0,
    }
    &&& process.thread_count_max == last_value(tasks, "max"@)
    &&& process.thread_count == total(selected(keys, metrics, Family::Threads))
    &&& process.file_descriptors == total(selected(keys, metrics, Family::Fds))
    &&& process.tasks_by_state@ == Map::<Seq<char>, u64>::empty()
}

/// Process metrics from the guest's task counts and from the thread and
/// file descriptor counts of the components, with the given standard labels.
/// The process count is the current task count and the thread limit the
/// maximal one, each as the last sample gives it; threads and file
/// descriptors are added up over all components.
pub fn process_from(metrics: &PrometheusMetrics<u64>, labels: StandardLabels) -> (process:
    ProcessMetrics)
    ensures
        process_matches(process, metrics.metrics.key_order(), metrics@),
        process.standard_labels == labels,
{
    let tasks = select(metrics, Family::Tasks);
    let mut count: u64 = 0;
    let mut thread_count_max: Option<u64> = None;
    proof {
        assert(views_of(tasks@).take(0) =~= Seq::<SampleView<u64>>::empty());
    }
    let mut i: usize = 0;
    while i < tasks.len()
        invariant
            i <= tasks@.len(),
            count == match last_value(views_of(tasks@).take(i as int), "cur"@) {
                Some(v) => v,
                None => 0,
            },
            thread_count_max == last_value(views_of(tasks@).take(i as int), "max"@),
        decreases tasks@.len() - i,
    {
        let sample = tasks[i];
        proof {
            let all = views_of(tasks@);
            assert(all.take(i + 1).drop_last() =~= all.take(i as int));
            assert(all.take(i + 1).last() == sample@);
        }
        proof {
            lemma_cur_is_not_max();
        }
        match label_of(sample, "item") {
            Some(name) => {
                if str_eq(name.as_str(), "cur") {
                    count = sample.value;
                } else if str_eq(name.as_str(), "max") {
                    thread_count_max = Some(sample.value);
                }
            },
            None => {},
        }
        i += 1;
    }
    proof {
        assert(views_of(tasks@).take(tasks@.len() as int) =~= views_of(tasks@));
    }
    let threads = select(metrics, Family::Threads);
    let fds = select(metrics, Family::Fds);
    ProcessMetrics {
        count,
        thread_count: total_of(&threads),
        thread_count_max,
        file_descriptors: total_of(&fds),
        tasks_by_state: StrMap::new(),
        standard_labels: labels,
    }
}

proof fn lemma_cur_is_not_max()
    ensures
        "cur"@ != "max"@,
{
    reveal_strlit("cur");
    reveal_strlit("max");
    assert("cur"@[0] == 'c');
    assert("max"@[0] == 'm');
}

/// Whether a sample counts towards the CPU usage: it is a total over all
/// CPUs, of the time spent in user, system, guest or nice mode.
pub open spec fn counts_as_usage(sample: SampleView<u64>) -> bool {
    label(sample, "cpu"@) == Some("total"@) && (label(sample, "item"@) == Some("user"@) || label(
        sample,
        "item"@,
    ) == Some("system"@) || label(sample, "item"@) == Some("guest"@) || label(sample, "item"@)
        == Some("nice"@))
}

/// The jiffies of the samples that count towards the CPU usage, added up,
/// wrapping at 64 bits.
pub open spec fn usage_jiffies(samples: Seq<SampleView<u64>>) -> u64
    decreases samples.len(),
{
    if samples.len() == 0 {
        0
    } else if counts_as_usage(samples.last()) {
        usage_jiffies(samples.drop_last()).wrapping_add(samples.last().value)
    } else {
        usage_jiffies(samples.drop_last())
    }
}

fn is_usage(sample: &MetricSample<u64>) -> (r: bool)
    ensures
        r == counts_as_usage(sample@),
{
    let whole = match label_of(sample, "cpu") {
        Some(cpu) => str_eq(cpu.as_str(), "total"),
        None => false,
    };
    if !whole {
        return false;
    }
    match label_of(sample, "item") {
        Some(what) => {
            let what = what.as_str();
            str_eq(what, "user") || str_eq(what, "system") || str_eq(what, "guest") || str_eq(
                what,
                "nice",
            )
        },
        None => false,
    }
}

/// The CPU time that the guest used in all modes that count, in jiffies: the
/// totals over all CPUs, not the values per CPU, so that no time is counted
/// twice.
pub fn cpu_jiffies_from(metrics: &PrometheusMetrics<u64>) -> (jiffies: u64)
    ensures
        jiffies == usage_jiffies(selected(metrics.metrics.key_order(), metrics@, Family::CpuTime)),
{
    let samples = select(metrics, Family::CpuTime);
    let mut jiffies: u64 = 0;
    proof {
        assert(views_of(samples@).take(0) =~= Seq::<SampleView<u64>>::empty());
    }
    let mut i: usize = 0;
    while i < samples.len()
        invariant
            i <= samples@.len(),
            jiffies == usage_jiffies(views_of(samples@).take(i as int)),
        decreases samples@.len() - i,
    {
        proof {
            let all = views_of(samples@);
            assert(all.take(i + 1).drop_last() =~= all.take(i as int));
            assert(all.take(i + 1).last() == samples@[i as int]@);
        }
        if is_usage(samples[i]) {
            jiffies = jiffies.wrapping_add(samples[i].value);
        }
        i += 1;
    }
    proof {
        assert(views_of(samples@).take(samples@.len() as int) =~= views_of(samples@));
    }
    jiffies
}

/// The counters of one disk.
#[derive(Debug, Clone)]
pub struct DeviceCounts {
    /// Name of the device.
    pub device: String,
    /// Read operations.
    pub reads: u64,
    /// Write operations.
    pub writes: u64,
    /// Bytes read.
    pub reads_bytes: u64,
    /// Bytes written.
    pub writes_bytes: u64,
}

/// The counters of one disk as plain values.
pub struct DeviceView {
    pub device: Seq<char>,
    pub reads: u64,
    pub writes: u64,
    pub reads_bytes: u64,
    pub writes_bytes: u64,
}

impl View for DeviceCounts {
    type V = DeviceView;

    open spec fn view(&self) -> DeviceView {
        DeviceView {
            device: self.device@,
            reads: self.reads,
            writes: self.writes,
            reads_bytes: self.reads_bytes,
            writes_bytes: self.writes_bytes,
        }
    }
}

/// A disk of which nothing is known.
pub open spec fn unknown_device() -> DeviceView {
    DeviceView { device: Seq::empty(), reads: 0, writes: 0, reads_bytes: 0, writes_bytes: 0 }
}

impl Default for DeviceCounts {
    fn default() -> (d: Self)
        ensures
            d@ == unknown_device(),
    {
        DeviceCounts { device: String::new(), reads: 0, writes: 0, reads_bytes: 0, writes_bytes: 0 }
    }
}

/// The disk counters that are whole numbers: operations and bytes, over all
/// disks and per disk.
#[derive(Debug, Clone)]
pub struct DiskCounts {
    /// Total disk read operations.
    pub reads_total: u64,
    /// Total disk write operations.
    pub writes_total: u64,
    /// Total bytes read.
    pub reads_bytes_total: u64,
    /// Total bytes written.
    pub writes_bytes_total: u64,
    /// Per-device breakdown.
    pub per_device: StrMap<DeviceCounts>,
}

/// The disk totals and the disks seen so far.
pub struct DiskState {
    pub reads_total: u64,
    pub writes_total: u64,
    pub reads_bytes_total: u64,
    pub writes_bytes_total: u64,
    pub devices: Map<Seq<char>, DeviceView>,
}

/// Nothing counted and no disk seen.
pub open spec fn disk_start() -> DiskState {
    DiskState {
        reads_total: 0,
        writes_total: 0,
        reads_bytes_total: 0,
        writes_bytes_total: 0,
        devices: Map::empty(),
    }
}

/// Bytes of a number of sectors of 512 bytes, wrapping at 64 bits.
pub open spec fn sector_bytes(sectors: u64) -> u64 {
    sectors.wrapping_mul(512)
}

/// Takes in one sample of the disk statistics. A sample without a disk
/// label changes nothing. Any other sample makes its disk known; where its
/// item counts operations or sectors, the counter of the disk is set and
/// the value is added to the total, sectors counted as bytes.
pub open spec fn disk_step(s: DiskState, sample: SampleView<u64>) -> DiskState {
    match label(sample, "disk"@) {
        None => s,
        Some(name) => {
            let known = if s.devices.contains_key(name) {
                s.devices[name]
            } else {
                unknown_device()
            };
            let entry = DeviceView { device: name, ..known };
            let v = sample.value;
            let what = label(sample, "item"@);
            if what == Some("reads"@) {
                DiskState {
                    reads_total: s.reads_total.wrapping_add(v),
                    devices: s.devices.insert(name, DeviceView { reads: v, ..entry }),
                    ..s
                }
            } else if what == Some("writes"@) {
                DiskState {
                    writes_total: s.writes_total.wrapping_add(v),
                    devices: s.devices.insert(name, DeviceView { writes: v, ..entry }),
                    ..s
                }
            } else if what == Some("sectors_read"@) {
                DiskState {
                    reads_bytes_total: s.reads_bytes_total.wrapping_add(sector_bytes(v)),
                    devices: s.devices.insert(
                        name,
                        DeviceView { reads_bytes: sector_bytes(v), ..entry },
                    ),
                    ..s
                }
            } else if what == Some("sectors_written"@) {
                DiskState {
                    writes_bytes_total: s.writes_bytes_total.wrapping_add(sector_bytes(v)),
                    devices: s.devices.insert(
                        name,
                        DeviceView { writes_bytes: sector_bytes(v), ..entry },
                    ),
                    ..s
                }
            } else {
                DiskState { devices: s.devices.insert(name, entry), ..s }
            }
        },
    }
}

/// Takes in the samples of the disk statistics, in order.
pub open spec fn disk_fold(samples: Seq<SampleView<u64>>) -> DiskState
    decreases samples.len(),
{
    if samples.len() == 0 {
        disk_start()
    } else {
        disk_step(disk_fold(samples.drop_last()), samples.last())
    }
}

/// The view of each disk of a map.
pub open spec fn device_views(devices: Map<Seq<char>, DeviceCounts>) -> Map<Seq<char>, DeviceView> {
    devices.map_values(|d: DeviceCounts| d@)
}

/// The totals and disks that disk counters hold.
pub open spec fn disk_state(disk: DiskCounts) -> DiskState {
    DiskState {
        reads_total: disk.reads_total,
        writes_total: disk.writes_total,
        reads_bytes_total: disk.reads_bytes_total,
        writes_bytes_total: disk.writes_bytes_total,
        devices: device_views(disk.per_device@),
    }
}

fn disk_apply(disk: &mut DiskCounts, sample: &MetricSample<u64>)
    ensures
        disk_state(*final(disk)) == disk_step(disk_state(*old(disk)), sample@),
{
    let name = match label_of(sample, "disk") {
        Some(name) => name,
        None => {
            return ;
        },
    };
    let ghost before = disk_state(*disk);
    let earlier = disk.per_device.insert(name.as_str(), DeviceCounts::default());
    let mut entry = match earlier {
        Some(known) => known,
        None => DeviceCounts::default(),
    };
    entry.device = name.clone();
    let value = sample.value;
    match label_of(sample, "item") {
        Some(what) => {
            let what = what.as_str();
            if str_eq(what, "reads") {
                entry.reads = value;
                disk.reads_total = disk.reads_total.wrapping_add(value);
            } else if str_eq(what, "writes") {
                entry.writes = value;
                disk.writes_total = disk.writes_total.wrapping_add(value);
            } else if str_eq(what, "sectors_read") {
                let bytes = value.wrapping_mul(512);
                entry.reads_bytes = bytes;
                disk.reads_bytes_total = disk.reads_bytes_total.wrapping_add(bytes);
            } else if str_eq(what, "sectors_written") {
                let bytes = value.wrapping_mul(512);
                entry.writes_bytes = bytes;
                disk.writes_bytes_total = disk.writes_bytes_total.wrapping_add(bytes);
            }
        },
        None => {},
    }
    let ghost filled = entry@;
    disk.per_device.insert(name.as_str(), entry);
    proof {
        assert(device_views(disk.per_device@) =~= before.devices.insert(name@, filled));
    }
}

/// Whether `disk` holds what the disk statistics of the metrics give: the
/// totals over all disks and, where the configuration asks for it, the disks
/// themselves.
pub open spec fn disk_matches(
    disk: DiskCounts,
    keys: Seq<Seq<char>>,
    metrics: Map<Seq<char>, MetricView<u64>>,
    config: ConversionConfig,
) -> bool {
    let end = disk_fold(selected(keys, metrics, Family::Diskstat));
    &&& disk.reads_total == end.reads_total
    &&& disk.writes_total == end.writes_total
    &&& disk.reads_bytes_total == end.reads_bytes_total
    &&& disk.writes_bytes_total == end.writes_bytes_total
    &&& device_views(disk.per_device@) == if config.include_per_device {
        end.devices
    } else {
        Map::empty()
    }
}

/// The whole-number disk counters from the guest's disk statistics.
pub fn disk_counts_from(metrics: &PrometheusMetrics<u64>, config: &ConversionConfig) -> (disk:
    DiskCounts)
    ensures
        disk_matches(disk, metrics.metrics.key_order(), metrics@, *config),
{
    let samples = select(metrics, Family::Diskstat);
    let mut disk = DiskCounts {
        reads_total: 0,
        writes_total: 0,
        reads_bytes_total: 0,
        writes_bytes_total: 0,
        per_device: StrMap::new(),
    };
    proof {
        assert(views_of(samples@).take(0) =~= Seq::<SampleView<u64>>::empty());
        assert(device_views(disk.per_device@) =~= Map::<Seq<char>, DeviceView>::empty());
    }
    let mut i: usize = 0;
    while i < samples.len()
        invariant
            i <= samples@.len(),
            disk_state(disk) == disk_fold(views_of(samples@).take(i as int)),
        decreases samples@.len() - i,
    {
        proof {
            let all = views_of(samples@);
            assert(all.take(i + 1).drop_last() =~= all.take(i as int));
            assert(all.take(i + 1).last() == samples@[i as int]@);
        }
        disk_apply(&mut disk, samples[i]);
        i += 1;
    }
    proof {
        assert(views_of(samples@).take(samples@.len() as int) =~= views_of(samples@));
    }
    if !config.include_per_device {
        disk.per_device = StrMap::new();
        proof {
            assert(device_views(disk.per_device@) =~= Map::<Seq<char>, DeviceView>::empty());
        }
    }
    disk
}

/// The network totals and the interfaces seen so far.
pub struct NetState {
    pub receive_bytes_total: u64,
    pub transmit_bytes_total: u64,
    pub receive_packets_total: u64,
    pub transmit_packets_total: u64,
    pub receive_errors_total: Option<u64>,
    pub transmit_errors_total: Option<u64>,
    pub receive_packets_dropped_total: Option<u64>,
    pub transmit_packets_dropped_total: Option<u64>,
    pub interfaces: Map<Seq<char>, InterfaceView>,
}

/// Nothing counted and no interface seen.
pub open spec fn net_start() -> NetState {
    NetState {
        receive_bytes_total: 0,
        transmit_bytes_total: 0,
        receive_packets_total: 0,
        transmit_packets_total: 0,
        receive_errors_total: None,
        transmit_errors_total: None,
        receive_packets_dropped_total: None,
        transmit_packets_dropped_total: None,
        interfaces: Map::empty(),
    }
}

/// An optional total with `v` added, wrapping at 64 bits; a total that was
/// not there counts as zero.
pub open spec fn bumped(total: Option<u64>, v: u64) -> Option<u64> {
    match total {
        Some(t) => Some(t.wrapping_add(v)),
        None => Some(0u64.wrapping_add(v)),
    }
}

/// Takes in one sample of the network device statistics. A sample without
/// an interface label, or of an interface that matches none of `patterns`,
/// changes nothing. Any other sample makes its interface known; where its
/// item is one of the eight counters, the counter of the interface is set to
/// the sample's value and the value is added to the total.
pub open spec fn net_step(s: NetState, sample: SampleView<u64>, patterns: Seq<String>) -> NetState {
    match label(sample, "interface"@) {
        None => s,
        Some(name) => if !matches_any(patterns, name) {
            s
        } else {
            let known = if s.interfaces.contains_key(name) {
                s.interfaces[name]
            } else {
                unknown_interface()
            };
            let entry = InterfaceView { name, ..known };
            let v = sample.value;
            let what = label(sample, "item"@);
            if what == Some("recv_bytes"@) {
                NetState {
                    receive_bytes_total: s.receive_bytes_total.wrapping_add(v),
                    interfaces: s.interfaces.insert(
                        name,
                        InterfaceView { receive_bytes: v, ..entry },
                    ),
                    ..s
                }
            } else if what == Some("xmit_bytes"@) {
                NetState {
                    transmit_bytes_total: s.transmit_bytes_total.wrapping_add(v),
                    interfaces: s.interfaces.insert(
                        name,
                        InterfaceView { transmit_bytes: v, ..entry },
                    ),
                    ..s
                }
            } else if what == Some("recv_packets"@) {
                NetState {
                    receive_packets_total: s.receive_packets_total.wrapping_add(v),
                    interfaces: s.interfaces.insert(
                        name,
                        InterfaceView { receive_packets: v, ..entry },
                    ),
                    ..s
                }
            } else if what == Some("xmit_packets"@) {
                NetState {
                    transmit_packets_total: s.transmit_packets_total.wrapping_add(v),
                    interfaces: s.interfaces.insert(
                        name,
                        InterfaceView { transmit_packets: v, ..entry },
                    ),
                    ..s
                }
            } else if what == Some("recv_errs"@) {
                NetState {
                    receive_errors_total: bumped(s.receive_errors_total, v),
                    interfaces: s.interfaces.insert(
                        name,
                        InterfaceView { receive_errors: Some(v), ..entry },
                    ),
                    ..s
                }
            } else if what == Some("xmit_errs"@) {
                NetState {
                    transmit_errors_total: bumped(s.transmit_errors_total, v),
                    interfaces: s.interfaces.insert(
                        name,
                        InterfaceView { transmit_errors: Some(v), ..entry },
                    ),
                    ..s
                }
            } else if what == Some("recv_drop"@) {
                NetState {
                    receive_packets_dropped_total: bumped(s.receive_packets_dropped_total, v),
                    interfaces: s.interfaces.insert(
                        name,
                        InterfaceView { receive_dropped: Some(v), ..entry },
                    ),
                    ..s
                }
            } else if what == Some("xmit_drop"@) {
                NetState {
                    transmit_packets_dropped_total: bumped(s.transmit_packets_dropped_total, v),
                    interfaces: s.interfaces.insert(
                        name,
                        InterfaceView { transmit_dropped: Some(v), ..entry },
                    ),
                    ..s
                }
            } else {
                NetState { interfaces: s.interfaces.insert(name, entry), ..s }
            }
        },
    }
}

/// Takes in the samples of the network device statistics, in order.
pub open spec fn net_fold(samples: Seq<SampleView<u64>>, patterns: Seq<String>) -> NetState
    decreases samples.len(),
{
    if samples.len() == 0 {
        net_start()
    } else {
        net_step(net_fold(samples.drop_last(), patterns), samples.last(), patterns)
    }
}

/// The view of each interface of a map.
pub open spec fn interface_views(interfaces: Map<Seq<char>, InterfaceMetrics>) -> Map<
    Seq<char>,
    InterfaceView,
> {
    interfaces.map_values(|i: InterfaceMetrics| i@)
}

/// The totals and interfaces that network metrics hold.
pub open spec fn net_state(network: NetworkMetrics) -> NetState {
    NetState {
        receive_bytes_total: network.receive_bytes_total,
        transmit_bytes_total: network.transmit_bytes_total,
        receive_packets_total: network.receive_packets_total,
        transmit_packets_total: network.transmit_packets_total,
        receive_errors_total: network.receive_errors_total,
        transmit_errors_total: network.transmit_errors_total,
        receive_packets_dropped_total: network.receive_packets_dropped_total,
        transmit_packets_dropped_total: network.transmit_packets_dropped_total,
        interfaces: interface_views(network.per_interface@),
    }
}

fn bump(total: Option<u64>, v: u64) -> (r: Option<u64>)
    ensures
        r == bumped(total, v),
{
    match total {
        Some(t) => Some(t.wrapping_add(v)),
        None => Some(0u64.wrapping_add(v)),
    }
}

fn net_apply(network: &mut NetworkMetrics, sample: &MetricSample<u64>, config: &ConversionConfig)
    ensures
        net_state(*final(network)) == net_step(
            net_state(*old(network)),
            sample@,
            config.network_interface_patterns@,
        ),
        final(network).standard_labels == old(network).standard_labels,
{
    let name = match label_of(sample, "interface") {
        Some(name) => name,
        None => {
            return ;
        },
    };
    if !config.matches_network_interface(name.as_str()) {
        return ;
    }
    let ghost before = net_state(*network);
    let earlier = network.per_interface.insert(name.as_str(), InterfaceMetrics::default());
    let mut entry = match earlier {
        Some(known) => known,
        None => InterfaceMetrics::default(),
    };
    entry.name = name.clone();
    let value = sample.value;
    match label_of(sample, "item") {
        Some(what) => {
            let what = what.as_str();
            if str_eq(what, "recv_bytes") {
                entry.receive_bytes = value;
                network.receive_bytes_total = network.receive_bytes_total.wrapping_add(value);
            } else if str_eq(what, "xmit_bytes") {
                entry.transmit_bytes = value;
                network.transmit_bytes_total = network.transmit_bytes_total.wrapping_add(value);
            } else if str_eq(what, "recv_packets") {
                entry.receive_packets = value;
                network.receive_packets_total = network.receive_packets_total.wrapping_add(
                    value,
                );
            } else if str_eq(what, "xmit_packets") {
                entry.transmit_packets = value;
                network.transmit_packets_total = network.transmit_packets_total.wrapping_add(
                    value,
                );
            } else if str_eq(what, "recv_errs") {
                entry.receive_errors = Some(value);
                network.receive_errors_total = bump(network.receive_errors_total, value);
            } else if str_eq(what, "xmit_errs") {
                entry.transmit_errors = Some(value);
                network.transmit_errors_total = bump(network.transmit_errors_total, value);
            } else if str_eq(what, "recv_drop") {
                entry.receive_dropped = Some(value);
                network.receive_packets_dropped_total = bump(
                    network.receive_packets_dropped_total,
                    value,
                );
            } else if str_eq(what, "xmit_drop") {
                entry.transmit_dropped = Some(value);
                network.transmit_packets_dropped_total = bump(
                    network.transmit_packets_dropped_total,
                    value,
                );
            }
        },
        None => {},
    }
    let ghost filled = entry@;
    network.per_interface.insert(name.as_str(), entry);
    proof {
        assert(interface_views(network.per_interface@) =~= before.interfaces.insert(
            name@,
            filled,
        ));
    }
}

/// Whether `network` holds what the network device statistics of the
/// metrics give: the totals over the interfaces that match the configured
/// patterns and, where the configuration asks for it, the interfaces
/// themselves.
pub open spec fn network_matches(
    network: NetworkMetrics,
    keys: Seq<Seq<char>>,
    metrics: Map<Seq<char>, MetricView<u64>>,
    config: ConversionConfig,
) -> bool {
    let end = net_fold(selected(keys, metrics, Family::Netdev), config.network_interface_patterns@);
    &&& network.receive_bytes_total == end.receive_bytes_total
    &&& network.transmit_bytes_total == end.transmit_bytes_total
    &&& network.receive_packets_total == end.receive_packets_total
    &&& network.transmit_packets_total == end.transmit_packets_total
    &&& network.receive_errors_total == end.receive_errors_total
    &&& network.transmit_errors_total == end.transmit_errors_total
    &&& network.receive_packets_dropped_total == end.receive_packets_dropped_total
    &&& network.transmit_packets_dropped_total == end.transmit_packets_dropped_total
    &&& interface_views(network.per_interface@) == if config.include_per_interface {
        end.interfaces
    } else {
        Map::empty()
    }
}

/// Network metrics from the guest's network device statistics, with the
/// given standard labels.
pub fn network_from(
    metrics: &PrometheusMetrics<u64>,
    config: &ConversionConfig,
    labels: StandardLabels,
) -> (network: NetworkMetrics)
    ensures
        network_matches(network, metrics.metrics.key_order(), metrics@, *config),
        network.standard_labels == labels,
{
    let samples = select(metrics, Family::Netdev);
    let mut network = NetworkMetrics::default();
    proof {
        assert(views_of(samples@).take(0) =~= Seq::<SampleView<u64>>::empty());
        assert(interface_views(network.per_interface@) =~= Map::<
            Seq<char>,
            InterfaceView,
        >::empty());
    }
    let mut i: usize = 0;
    while i < samples.len()
        invariant
            i <= samples@.len(),
            net_state(network) == net_fold(
                views_of(samples@).take(i as int),
                config.network_interface_patterns@,
            ),
        decreases samples@.len() - i,
    {
        proof {
            let all = views_of(samples@);
            assert(all.take(i + 1).drop_last() =~= all.take(i as int));
            assert(all.take(i + 1).last() == samples@[i as int]@);
        }
        net_apply(&mut network, samples[i], config);
        i += 1;
    }
    proof {
        assert(views_of(samples@).take(samples@.len() as int) =~= views_of(samples@));
    }
    if !config.include_per_interface {
        network.per_interface = StrMap::new();
        proof {
            assert(interface_views(network.per_interface@) =~= Map::<
                Seq<char>,
                InterfaceView,
            >::empty());
        }
    }
    network.standard_labels = labels;
    network
}

/// The standard labels that enriched labels give: the pod UID as the id and
/// the pod name as both name and pod, in the container `kata` of an unknown
/// image.
pub open spec fn standard_view(labels: EnrichedView) -> LabelsView {
    LabelsView {
        container: "kata"@,
        id: labels.pod_uid,
        image: "unknown"@,
        name: labels.pod_name,
        namespace: labels.pod_namespace,
        pod: labels.pod_name,
    }
}

/// Whether `labels` are those of a pod in the container `kata`: the image is
/// unknown and the name is that of the pod.
pub open spec fn is_kata_pod(labels: LabelsView) -> bool {
    labels.container == "kata"@ && labels.image == "unknown"@ && labels.name == labels.pod
}

/// The standard labels for what an enricher gave.
pub fn standard_labels_of(labels: &EnrichedLabels) -> (standard: StandardLabels)
    ensures
        standard@ == standard_view(labels@),
{
    StandardLabels::new(
        labels.pod_uid.as_str(),
        labels.pod_name.as_str(),
        labels.pod_namespace.as_str(),
    )
}

/// A conversion failed.
#[derive(Debug)]
pub struct ConversionError {
    pub message: String,
}

/// Main trait for metrics conversion: implementations convert
/// hypervisor-specific metrics to cAdvisor format.
pub trait MetricsConverter {
    /// Convert memory metrics.
    fn convert_memory(&self, metrics: &PrometheusMetrics<u64>) -> Result<
        MemoryMetrics,
        ConversionError,
    >;

    /// Convert network metrics.
    fn convert_network(&self, metrics: &PrometheusMetrics<u64>) -> Result<
        NetworkMetrics,
        ConversionError,
    >;

    /// Convert process metrics.
    fn convert_process(&self, metrics: &PrometheusMetrics<u64>) -> Result<
        ProcessMetrics,
        ConversionError,
    >;
}

/// Whether `labels` is what `enricher` may give for the sandbox
/// `sandbox_id`.
pub open spec fn enriched_by<E: LabelEnricher>(
    enricher: E,
    sandbox_id: Seq<char>,
    labels: EnrichedLabels,
) -> bool {
    exists|id: &str| id@ == sandbox_id && call_ensures(E::enrich, (&enricher, id), labels)
}

/// Cloud Hypervisor metrics converter.
pub struct CloudHypervisorConverter<E: LabelEnricher> {
    config: ConversionConfig,
    label_enricher: Option<E>,
    sandbox_id: Option<String>,
}

impl<E: LabelEnricher> CloudHypervisorConverter<E> {
    /// The configuration of the converter.
    pub closed spec fn configuration(&self) -> ConversionConfig {
        self.config
    }

    /// The sandbox whose metrics are converted.
    pub closed spec fn sandbox(&self) -> Option<String> {
        self.sandbox_id
    }

    /// The label enricher that is asked for the labels of the sandbox.
    pub closed spec fn enricher(&self) -> Option<E> {
        self.label_enricher
    }

    /// Whether `labels` are standard labels as this converter creates them:
    /// those that follow from what its enricher gives for its sandbox, or
    /// from empty labels where it has no enricher or no sandbox.
    pub open spec fn labels_it_gives(&self, labels: StandardLabels) -> bool {
        match (self.enricher(), self.sandbox()) {
            (Some(enricher), Some(id)) => exists|enriched: EnrichedLabels|
                enriched_by(enricher, id@, enriched) && labels@ == standard_view(enriched@),
            _ => labels@ == standard_view(no_labels()),
        }
    }

    /// Create a new converter with label enricher and sandbox ID.
    pub fn with_enricher(config: ConversionConfig, label_enricher: E, sandbox_id: String) -> (converter:
        Self)
        ensures
            converter.configuration() == config,
            converter.enricher() == Some(label_enricher),
            converter.sandbox() == Some(sandbox_id),
    {
        CloudHypervisorConverter {
            config,
            label_enricher: Some(label_enricher),
            sandbox_id: Some(sandbox_id),
        }
    }

    /// Create standard cAdvisor labels from what the enricher gives for the
    /// sandbox. Whatever it gives, the container is `kata`, the image is
    /// unknown and the name is that of the pod.
    pub fn create_standard_labels(&self) -> (labels: StandardLabels)
        ensures
            self.labels_it_gives(labels),
            labels@.container == "kata"@,
            labels@.image == "unknown"@,
            labels@.name == labels@.pod,
    {
        match (&self.label_enricher, &self.sandbox_id) {
            (Some(enricher), Some(sandbox_id)) => {
                let id = sandbox_id.as_str();
                let enriched = enricher.enrich(id);
                let labels = standard_labels_of(&enriched);
                proof {
                    assert(enriched_by(*enricher, sandbox_id@, enriched));
                    assert(self.labels_it_gives(labels));
                }
                labels
            },
            _ => standard_labels_of(&EnrichedLabels::default()),
        }
    }
}

impl<E: LabelEnricher> MetricsConverter for CloudHypervisorConverter<E> {
    fn convert_memory(&self, metrics: &PrometheusMetrics<u64>) -> (r: Result<
        MemoryMetrics,
        ConversionError,
    >)
        ensures
            r matches Ok(memory) && memory_matches(
                memory,
                metrics.metrics.key_order(),
                metrics@,
            ) && self.labels_it_gives(memory.standard_labels) && is_kata_pod(
                memory.standard_labels@,
            ),
    {
        Ok(memory_from(metrics, self.create_standard_labels()))
    }

    fn convert_network(&self, metrics: &PrometheusMetrics<u64>) -> (r: Result<
        NetworkMetrics,
        ConversionError,
    >)
        ensures
            r matches Ok(network) && network_matches(
                network,
                metrics.metrics.key_order(),
                metrics@,
                self.configuration(),
            ) && self.labels_it_gives(network.standard_labels) && is_kata_pod(
                network.standard_labels@,
            ),
    {
        Ok(network_from(metrics, &self.config, self.create_standard_labels()))
    }

    fn convert_process(&self, metrics: &PrometheusMetrics<u64>) -> (r: Result<
        ProcessMetrics,
        ConversionError,
    >)
        ensures
            r matches Ok(process) && process_matches(
                process,
                metrics.metrics.key_order(),
                metrics@,
            ) && self.labels_it_gives(process.standard_labels) && is_kata_pod(
                process.standard_labels@,
            ),
    {
        Ok(process_from(metrics, self.create_standard_labels()))
    }
}

/// Factory function to create the converter for the configured hypervisor,
/// with a label enricher.
pub fn create_converter<E: LabelEnricher>(
    config: ConversionConfig,
    label_enricher: E,
    sandbox_id: String,
) -> (converter: CloudHypervisorConverter<E>)
    ensures
        converter.configuration() == config,
        converter.enricher() == Some(label_enricher),
        converter.sandbox() == Some(sandbox_id),
{
    match config.hypervisor_type {
        HypervisorType::CloudHypervisor => CloudHypervisorConverter::with_enricher(
            config,
            label_enricher,
            sandbox_id,
        ),
    }
}

} // verus!
