//! Reading of the Prometheus text exposition format.
//!
//! The value of a sample is kept as the parser's caller reads it: the
//! functions here find the value's text and leave its meaning to the caller.

use crate::scan::{
    find_in,
    first_index,
    first_word,
    integer_of,
    parse_i64,
    replace,
    replaced,
    split,
    split_bounds,
    split_once,
    strip,
    strip_bounds,
    trimmed,
    word_bounds,
    pieces,
    Strip,
};
use crate::strmap::StrMap;
use crate::text::{
    decimal,
    ends_with,
    from_chars,
    is_prefix,
    is_suffix,
    push_decimal,
    starts_with,
    to_chars,
};
use crate::utils::metrics_converter::cadvisor::{label_pair, push_pair, PrometheusFormat};
use vstd::string::*;
use vstd::prelude::*;

verus! {

/// Represents a single sample of a metric with its labels and value.
#[derive(Debug, Clone)]
pub struct MetricSample<V> {
    /// Full metric name with suffix.
    pub name: String,
    /// Label key-value pairs.
    pub labels: StrMap<String>,
    /// Metric value.
    pub value: V,
    /// Timestamp (optional).
    pub timestamp: Option<i64>,
}

/// A sample as plain values.
pub struct SampleView<V> {
    pub name: Seq<char>,
    pub labels: Map<Seq<char>, Seq<char>>,
    pub value: V,
    pub timestamp: Option<i64>,
}

/// The text of each label value.
pub open spec fn label_texts(labels: Map<Seq<char>, String>) -> Map<Seq<char>, Seq<char>> {
    labels.map_values(|v: String| v@)
}

impl<V> View for MetricSample<V> {
    type V = SampleView<V>;

    open spec fn view(&self) -> SampleView<V> {
        SampleView {
            name: self.name@,
            labels: label_texts(self.labels@),
            value: self.value,
            timestamp: self.timestamp,
        }
    }
}

/// Represents a single Prometheus metric.
#[derive(Debug, Clone)]
pub struct PrometheusMetric<V> {
    /// Metric name.
    pub name: String,
    /// Metric type (counter, gauge, histogram, summary, etc.).
    pub metric_type: Option<String>,
    /// Metric help/description.
    pub help: Option<String>,
    /// Samples for this metric.
    pub samples: Vec<MetricSample<V>>,
}

/// A metric as plain values.
pub struct MetricView<V> {
    pub name: Seq<char>,
    pub metric_type: Option<Seq<char>>,
    pub help: Option<Seq<char>>,
    pub samples: Seq<SampleView<V>>,
}

/// The text of an optional string.
pub open spec fn optional_text(s: Option<String>) -> Option<Seq<char>> {
    match s {
        Some(text) => Some(text@),
        None => None,
    }
}

/// The view of each sample of a list.
pub open spec fn sample_views<V>(samples: Seq<MetricSample<V>>) -> Seq<SampleView<V>> {
    Seq::new(samples.len(), |i: int| samples[i]@)
}

impl<V> View for PrometheusMetric<V> {
    type V = MetricView<V>;

    open spec fn view(&self) -> MetricView<V> {
        MetricView {
            name: self.name@,
            metric_type: optional_text(self.metric_type),
            help: optional_text(self.help),
            samples: sample_views(self.samples@),
        }
    }
}

/// A metric of the given name about which nothing is known yet.
pub open spec fn fresh_metric<V>(name: Seq<char>) -> MetricView<V> {
    MetricView { name, metric_type: None, help: None, samples: Seq::empty() }
}

impl<V> PrometheusMetric<V> {
    /// A metric of the given name without type, help or samples.
    pub fn named(name: &str) -> (metric: Self)
        ensures
            metric@ == fresh_metric::<V>(name@),
    {
        let metric = PrometheusMetric {
            name: name.to_owned(),
            metric_type: None,
            help: None,
            samples: Vec::new(),
        };
        assert(metric@.samples =~= Seq::<SampleView<V>>::empty());
        metric
    }
}

/// `full` without the first of the suffixes `_total`, `_count`, `_sum`,
/// `_bucket`, `_info` and `_created` that it ends in, or `full` itself if it
/// ends in none.
pub open spec fn base_name(full: Seq<char>) -> Seq<char> {
    if is_suffix("_total"@, full) {
        full.take(full.len() - "_total"@.len())
    } else if is_suffix("_count"@, full) {
        full.take(full.len() - "_count"@.len())
    } else if is_suffix("_sum"@, full) {
        full.take(full.len() - "_sum"@.len())
    } else if is_suffix("_bucket"@, full) {
        full.take(full.len() - "_bucket"@.len())
    } else if is_suffix("_info"@, full) {
        full.take(full.len() - "_info"@.len())
    } else if is_suffix("_created"@, full) {
        full.take(full.len() - "_created"@.len())
    } else {
        full
    }
}

fn strip_suffix(full: &Vec<char>, suffix: &str) -> (r: Option<String>)
    ensures
        match r {
            Some(base) => is_suffix(suffix@, full@) && base@ == full@.take(
                full@.len() - suffix@.len(),
            ),
            None => !is_suffix(suffix@, full@),
        },
{
    let tail = to_chars(suffix);
    if ends_with(full, &tail) {
        let base = from_chars(full, 0, full.len() - tail.len());
        proof {
            assert(full@.subrange(0, full@.len() - tail@.len()) =~= full@.take(
                full@.len() - suffix@.len(),
            ));
        }
        Some(base)
    } else {
        None
    }
}

/// Extract the base metric name from a full metric name, removing suffixes
/// like `_total`, `_count`, `_bucket`.
pub fn extract_base_metric_name(full_name: &str) -> (base: String)
    ensures
        base@ == base_name(full_name@),
{
    let full = to_chars(full_name);
    if let Some(base) = strip_suffix(&full, "_total") {
        return base;
    }
    if let Some(base) = strip_suffix(&full, "_count") {
        return base;
    }
    if let Some(base) = strip_suffix(&full, "_sum") {
        return base;
    }
    if let Some(base) = strip_suffix(&full, "_bucket") {
        return base;
    }
    if let Some(base) = strip_suffix(&full, "_info") {
        return base;
    }
    if let Some(base) = strip_suffix(&full, "_created") {
        return base;
    }
    full_name.to_owned()
}

/// The metric name and the text of a HELP or TYPE line: what stands before
/// and after the first space that follows `prefix`. There are none where the
/// line does not begin with `prefix` or holds no space after it.
pub open spec fn metadata_parts(line: Seq<char>, prefix: Seq<char>) -> Option<
    (Seq<char>, Seq<char>),
> {
    if is_prefix(prefix, line) {
        split_once(line.skip(prefix.len() as int), ' ')
    } else {
        None
    }
}

fn metadata_in(line: &Vec<char>, prefix: &str) -> (r: Option<(String, String)>)
    ensures
        match r {
            Some((name, text)) => metadata_parts(line@, prefix@) == Some((name@, text@)),
            None => metadata_parts(line@, prefix@) is None,
        },
{
    let head = to_chars(prefix);
    if !starts_with(line, &head) {
        return None;
    }
    let ghost rest = line@.skip(head@.len() as int);
    proof {
        assert(rest =~= line@.subrange(head@.len() as int, line@.len() as int));
    }
    match find_in(line, ' ', head.len(), line.len()) {
        Some(at) => {
            proof {
                assert(rest.take(at - head@.len()) =~= line@.subrange(
                    head@.len() as int,
                    at as int,
                ));
                assert(rest.skip(at - head@.len() + 1) =~= line@.subrange(
                    at + 1,
                    line@.len() as int,
                ));
            }
            Some((from_chars(line, head.len(), at), from_chars(line, at + 1, line.len())))
        },
        None => None,
    }
}

/// Parse metadata line (HELP or TYPE). Returns the metric name and the text
/// if successful.
pub fn parse_metadata_line(line: &str, prefix: &str) -> (r: Option<(String, String)>)
    ensures
        match r {
            Some((name, text)) => metadata_parts(line@, prefix@) == Some((name@, text@)),
            None => metadata_parts(line@, prefix@) is None,
        },
{
    let chars = to_chars(line);
    metadata_in(&chars, prefix)
}

/// The value of a label as it is stored: what stands between the double
/// quotes, with the escapes for double quote, line feed, tab and backslash
/// resolved, in this order.
pub open spec fn label_value(raw: Seq<char>) -> Seq<char> {
    replaced(
        replaced(
            replaced(
                replaced(strip(raw, Strip::Quote), seq!['\\', '"'], seq!['"']),
                seq!['\\', 'n'],
                seq!['\n'],
            ),
            seq!['\\', 't'],
            seq!['\t'],
        ),
        seq!['\\', '\\'],
        seq!['\\'],
    )
}

/// Takes in one piece of a label text. An empty piece is passed over. Any
/// other piece, once trimmed, must hold an equals sign: what stands before,
/// trimmed, is the key, and what stands after gives the value.
pub open spec fn add_label(acc: Map<Seq<char>, Seq<char>>, piece: Seq<char>) -> Result<
    Map<Seq<char>, Seq<char>>,
    Seq<char>,
> {
    if piece.len() == 0 {
        Ok(acc)
    } else {
        match split_once(trimmed(piece), '=') {
            None => Err(trimmed(piece)),
            Some((key, value)) => Ok(acc.insert(trimmed(key), label_value(value))),
        }
    }
}

/// Takes in the pieces of a label text, in order, up to the first that is
/// not a label pair.
pub open spec fn labels_from(parts: Seq<Seq<char>>) -> Result<
    Map<Seq<char>, Seq<char>>,
    Seq<char>,
>
    decreases parts.len(),
{
    if parts.len() == 0 {
        Ok(Map::empty())
    } else {
        match labels_from(parts.drop_last()) {
            Err(pair) => Err(pair),
            Ok(acc) => add_label(acc, parts.last()),
        }
    }
}

/// The labels that the text between the braces of a sample line holds:
/// pairs of the form `key="value"`, separated by commas. A later pair of the
/// same key replaces an earlier one. The error is the first piece that is
/// not a pair.
pub open spec fn parsed_labels(text: Seq<char>) -> Result<Map<Seq<char>, Seq<char>>, Seq<char>> {
    labels_from(split(text, ','))
}

/// Why a line is no sample.
#[derive(Debug)]
pub enum SampleError {
    /// The line holds an opening brace and no closing one.
    MissingClosingBrace,
    /// The first closing brace comes before the first opening one.
    MisplacedBrace,
    /// The line holds neither labels nor a space.
    InvalidFormat,
    /// Nothing follows the name and the labels.
    MissingValue,
    /// This piece of the label text is not of the form `key=value`.
    InvalidLabel(String),
}

/// A `SampleError` as plain values.
pub enum SampleErrorView {
    MissingClosingBrace,
    MisplacedBrace,
    InvalidFormat,
    MissingValue,
    InvalidLabel(Seq<char>),
}

impl View for SampleError {
    type V = SampleErrorView;

    open spec fn view(&self) -> SampleErrorView {
        match self {
            SampleError::MissingClosingBrace => SampleErrorView::MissingClosingBrace,
            SampleError::MisplacedBrace => SampleErrorView::MisplacedBrace,
            SampleError::InvalidFormat => SampleErrorView::InvalidFormat,
            SampleError::MissingValue => SampleErrorView::MissingValue,
            SampleError::InvalidLabel(pair) => SampleErrorView::InvalidLabel(pair@),
        }
    }
}

fn sub_vec(s: &Vec<char>, from: usize, to: usize) -> (r: Vec<char>)
    requires
        from <= to <= s@.len(),
    ensures
        r@ == s@.subrange(from as int, to as int),
{
    let mut r: Vec<char> = Vec::new();
    let mut i: usize = from;
    while i < to
        invariant
            from <= i <= to <= s@.len(),
            r@ == s@.subrange(from as int, i as int),
        decreases to - i,
    {
        r.push(s[i]);
        proof {
            assert(r@ =~= s@.subrange(from as int, i + 1));
        }
        i += 1;
    }
    r
}

fn read_label_value(s: &Vec<char>, from: usize, to: usize) -> (value: String)
    requires
        from <= to <= s@.len(),
    ensures
        value@ == label_value(s@.subrange(from as int, to as int)),
{
    let (a, b) = strip_bounds(s, from, to, Strip::Quote);
    let inner = sub_vec(s, a, b);
    let quote: Vec<char> = vec!['\\', '"'];
    let to_quote: Vec<char> = vec!['"'];
    let feed: Vec<char> = vec!['\\', 'n'];
    let to_feed: Vec<char> = vec!['\n'];
    let tab: Vec<char> = vec!['\\', 't'];
    let to_tab: Vec<char> = vec!['\t'];
    let slash: Vec<char> = vec!['\\', '\\'];
    let to_slash: Vec<char> = vec!['\\'];
    proof {
        assert(quote@ =~= seq!['\\', '"']);
        assert(to_quote@ =~= seq!['"']);
        assert(feed@ =~= seq!['\\', 'n']);
        assert(to_feed@ =~= seq!['\n']);
        assert(tab@ =~= seq!['\\', 't']);
        assert(to_tab@ =~= seq!['\t']);
        assert(slash@ =~= seq!['\\', '\\']);
        assert(to_slash@ =~= seq!['\\']);
    }
    let step1 = replace(&inner, &quote, &to_quote);
    let step2 = replace(&step1, &feed, &to_feed);
    let step3 = replace(&step2, &tab, &to_tab);
    let step4 = replace(&step3, &slash, &to_slash);
    let value = from_chars(&step4, 0, step4.len());
    proof {
        assert(step4@.subrange(0, step4@.len() as int) =~= step4@);
    }
    value
}

fn labels_in(s: &Vec<char>, from: usize, to: usize) -> (r: Result<StrMap<String>, SampleError>)
    requires
        from <= to <= s@.len(),
    ensures
        match r {
            Ok(labels) => parsed_labels(s@.subrange(from as int, to as int)) == Ok::<
                Map<Seq<char>, Seq<char>>,
                Seq<char>,
            >(label_texts(labels@)),
            Err(e) => e matches SampleError::InvalidLabel(pair) && parsed_labels(
                s@.subrange(from as int, to as int),
            ) == Err::<Map<Seq<char>, Seq<char>>, Seq<char>>(pair@),
        },
{
    let bounds = split_bounds(s, ',', from, to);
    let ghost parts = pieces(s@, bounds@);
    let mut labels: StrMap<String> = StrMap::new();
    proof {
        assert(label_texts(labels@) =~= Map::<Seq<char>, Seq<char>>::empty());
        assert(parts.take(0) =~= Seq::<Seq<char>>::empty());
    }
    let mut i: usize = 0;
    while i < bounds.len()
        invariant
            i <= bounds@.len(),
            from <= to <= s@.len(),
            parts == pieces(s@, bounds@),
            parts == split(s@.subrange(from as int, to as int), ','),
            forall|k: int|
                0 <= k < bounds@.len() ==> from <= (#[trigger] bounds@[k]).0 <= bounds@[k].1 <= to,
            labels_from(parts.take(i as int)) == Ok::<Map<Seq<char>, Seq<char>>, Seq<char>>(
                label_texts(labels@),
            ),
        decreases bounds@.len() - i,
    {
        let (a, b) = bounds[i];
        let ghost piece = s@.subrange(a as int, b as int);
        proof {
            assert(parts.take(i + 1).drop_last() =~= parts.take(i as int));
            assert(parts.take(i + 1).last() == piece);
        }
        if a < b {
            let (ta, tb) = strip_bounds(s, a, b, Strip::Space);
            let ghost pair = s@.subrange(ta as int, tb as int);
            match find_in(s, '=', ta, tb) {
                Some(eq) => {
                    let (ka, kb) = strip_bounds(s, ta, eq, Strip::Space);
                    let key = from_chars(s, ka, kb);
                    let value = read_label_value(s, eq + 1, tb);
                    proof {
                        assert(pair.take(eq - ta) =~= s@.subrange(ta as int, eq as int));
                        assert(pair.skip(eq - ta + 1) =~= s@.subrange(eq + 1, tb as int));
                    }
                    let ghost before = labels@;
                    labels.insert(key.as_str(), value);
                    proof {
                        assert(label_texts(labels@) =~= label_texts(before).insert(
                            key@,
                            value@,
                        ));
                    }
                },
                None => {
                    let text = from_chars(s, ta, tb);
                    proof {
                        lemma_labels_stop(parts, i + 1, pair);
                    }
                    return Err(SampleError::InvalidLabel(text));
                },
            }
        }
        i += 1;
    }
    proof {
        assert(parts.take(bounds@.len() as int) =~= parts);
    }
    Ok(labels)
}

proof fn lemma_labels_stop(parts: Seq<Seq<char>>, n: int, pair: Seq<char>)
    requires
        0 <= n <= parts.len(),
        labels_from(parts.take(n)) == Err::<Map<Seq<char>, Seq<char>>, Seq<char>>(pair),
    ensures
        labels_from(parts) == Err::<Map<Seq<char>, Seq<char>>, Seq<char>>(pair),
    decreases parts.len() - n,
{
    if n < parts.len() {
        assert(parts.take(n + 1).drop_last() =~= parts.take(n));
        lemma_labels_stop(parts, n + 1, pair);
    } else {
        assert(parts.take(n) =~= parts);
    }
}

/// Parse label pairs from a label string of the form
/// `label1="value1",label2="value2"`.
pub fn parse_labels(labels_str: &str) -> (r: Result<StrMap<String>, SampleError>)
    ensures
        match r {
            Ok(labels) => parsed_labels(labels_str@) == Ok::<
                Map<Seq<char>, Seq<char>>,
                Seq<char>,
            >(label_texts(labels@)),
            Err(e) => e matches SampleError::InvalidLabel(pair) && parsed_labels(labels_str@)
                == Err::<Map<Seq<char>, Seq<char>>, Seq<char>>(pair@),
        },
{
    let chars = to_chars(labels_str);
    proof {
        assert(chars@.subrange(0, chars@.len() as int) =~= labels_str@);
    }
    labels_in(&chars, 0, chars.len())
}

/// The three parts of a sample line: the name, the text between the braces
/// if there are braces, and what follows, trimmed.
pub struct SampleParts {
    pub name: Seq<char>,
    pub labels: Option<Seq<char>>,
    pub rest: Seq<char>,
}

/// Cuts a sample line into its parts. With an opening brace the name ends
/// there, the labels run up to the first closing brace and the rest follows
/// it. Without one the name ends at the first space.
pub open spec fn sample_parts(line: Seq<char>) -> Result<SampleParts, SampleErrorView> {
    let open = first_index(line, '{');
    let close = first_index(line, '}');
    if 0 <= open < line.len() {
        if !(0 <= close < line.len()) {
            Err(SampleErrorView::MissingClosingBrace)
        } else if close < open {
            Err(SampleErrorView::MisplacedBrace)
        } else {
            Ok(
                SampleParts {
                    name: line.take(open),
                    labels: Some(line.subrange(open + 1, close)),
                    rest: trimmed(line.skip(close + 1)),
                },
            )
        }
    } else {
        match split_once(line, ' ') {
            None => Err(SampleErrorView::InvalidFormat),
            Some((name, rest)) => Ok(SampleParts { name, labels: None, rest: trimmed(rest) }),
        }
    }
}

/// The timestamp of a sample: the second word after the name and the labels,
/// if there is one and it is an integer.
pub open spec fn timestamp_of(after_value: Seq<char>) -> Option<i64> {
    match first_word(after_value) {
        Some((word, _)) => integer_of(word),
        None => None,
    }
}

/// The sample that a line of the form
/// `name{label="value",...} value [timestamp]` holds, with the value as it
/// is written.
pub open spec fn sample_of(line: Seq<char>) -> Result<SampleView<Seq<char>>, SampleErrorView> {
    match sample_parts(line) {
        Err(e) => Err(e),
        Ok(parts) => match first_word(parts.rest) {
            None => Err(SampleErrorView::MissingValue),
            Some((value, after)) => match parts.labels {
                None => Ok(
                    SampleView {
                        name: parts.name,
                        labels: Map::empty(),
                        value,
                        timestamp: timestamp_of(after),
                    },
                ),
                Some(text) => match parsed_labels(text) {
                    Err(pair) => Err(SampleErrorView::InvalidLabel(pair)),
                    Ok(labels) => Ok(
                        SampleView {
                            name: parts.name,
                            labels,
                            value,
                            timestamp: timestamp_of(after),
                        },
                    ),
                },
            },
        },
    }
}

/// A sample whose value is held as text, with that text as its value.
pub open spec fn as_written(sample: SampleView<String>) -> SampleView<Seq<char>> {
    SampleView {
        name: sample.name,
        labels: sample.labels,
        value: sample.value@,
        timestamp: sample.timestamp,
    }
}

fn sample_in(line: &Vec<char>) -> (r: Result<MetricSample<String>, SampleError>)
    ensures
        match r {
            Ok(sample) => sample_of(line@) == Ok::<SampleView<Seq<char>>, SampleErrorView>(
                as_written(sample@),
            ),
            Err(e) => sample_of(line@) == Err::<SampleView<Seq<char>>, SampleErrorView>(e@),
        },
{
    let n = line.len();
    proof {
        assert(line@.subrange(0, n as int) =~= line@);
    }
    let name_end: usize;
    let labels_range: Option<(usize, usize)>;
    let rest_from: usize;
    match find_in(line, '{', 0, n) {
        Some(open) => {
            match find_in(line, '}', 0, n) {
                None => {
                    return Err(SampleError::MissingClosingBrace);
                },
                Some(close) => {
                    if close < open {
                        return Err(SampleError::MisplacedBrace);
                    }
                    name_end = open;
                    labels_range = Some((open + 1, close));
                    rest_from = close + 1;
                },
            }
        },
        None => {
            match find_in(line, ' ', 0, n) {
                None => {
                    return Err(SampleError::InvalidFormat);
                },
                Some(space) => {
                    name_end = space;
                    labels_range = None;
                    rest_from = space + 1;
                },
            }
        },
    }
    let (ra, rb) = strip_bounds(line, rest_from, n, Strip::Space);
    let ghost parts = sample_parts(line@)->Ok_0;
    proof {
        assert(line@.skip(rest_from as int) =~= line@.subrange(rest_from as int, n as int));
        assert(line@.take(name_end as int) =~= line@.subrange(0, name_end as int));
        assert(sample_parts(line@) is Ok);
        assert(parts.rest == line@.subrange(ra as int, rb as int));
        assert(parts.name == line@.subrange(0, name_end as int));
    }
    let (va, vb) = match word_bounds(line, ra, rb) {
        None => {
            return Err(SampleError::MissingValue);
        },
        Some(bounds) => bounds,
    };
    let timestamp = match word_bounds(line, vb, rb) {
        Some((ta, tb)) => parse_i64(line, ta, tb),
        None => None,
    };
    let labels = match labels_range {
        Some((la, lb)) => match labels_in(line, la, lb) {
            Ok(labels) => labels,
            Err(e) => {
                return Err(e);
            },
        },
        None => {
            let empty: StrMap<String> = StrMap::new();
            proof {
                assert(label_texts(empty@) =~= Map::<Seq<char>, Seq<char>>::empty());
            }
            empty
        },
    };
    Ok(
        MetricSample {
            name: from_chars(line, 0, name_end),
            labels,
            value: from_chars(line, va, vb),
            timestamp,
        },
    )
}

/// Parse a single metric sample line of the form
/// `metric_name{label1="value1",label2="value2"} value [timestamp]`. The
/// value is handed out as it is written.
pub fn parse_metric_sample(line: &str) -> (r: Result<MetricSample<String>, SampleError>)
    ensures
        match r {
            Ok(sample) => sample_of(line@) == Ok::<SampleView<Seq<char>>, SampleErrorView>(
                as_written(sample@),
            ),
            Err(e) => sample_of(line@) == Err::<SampleView<Seq<char>>, SampleErrorView>(e@),
        },
{
    let chars = to_chars(line);
    sample_in(&chars)
}

/// What one line of the text holds.
#[derive(Debug)]
pub enum LineItem {
    /// Nothing: the line is empty or a comment.
    Skip,
    /// The help text of a metric.
    Help { metric: String, text: String },
    /// The type of a metric.
    Type { metric: String, kind: String },
    /// A sample, with its value as it is written.
    Sample(MetricSample<String>),
    /// Something that is no sample.
    Malformed(SampleError),
}

/// A `LineItem` as plain values.
pub enum LineView {
    Skip,
    Help(Seq<char>, Seq<char>),
    Type(Seq<char>, Seq<char>),
    Sample(SampleView<Seq<char>>),
    Malformed(SampleErrorView),
}

impl View for LineItem {
    type V = LineView;

    open spec fn view(&self) -> LineView {
        match self {
            LineItem::Skip => LineView::Skip,
            LineItem::Help { metric, text } => LineView::Help(metric@, text@),
            LineItem::Type { metric, kind } => LineView::Type(metric@, kind@),
            LineItem::Sample(sample) => LineView::Sample(as_written(sample@)),
            LineItem::Malformed(e) => LineView::Malformed(e@),
        }
    }
}

/// Whether a trimmed line is passed over: it is empty, or it begins with `#`
/// and is neither a HELP nor a TYPE line.
pub open spec fn is_skipped(line: Seq<char>) -> bool {
    line.len() == 0 || (line[0] == '#' && !is_prefix("# HELP "@, line) && !is_prefix(
        "# TYPE "@,
        line,
    ))
}

/// What a line holds. The line is trimmed first. A HELP or TYPE line that
/// names a metric and gives a text is taken as such; any other line that is
/// not passed over is read as a sample.
pub open spec fn line_item(line: Seq<char>) -> LineView {
    let t = trimmed(line);
    if is_skipped(t) {
        LineView::Skip
    } else {
        match metadata_parts(t, "# HELP "@) {
            Some((metric, text)) => LineView::Help(metric, text),
            None => match metadata_parts(t, "# TYPE "@) {
                Some((metric, kind)) => LineView::Type(metric, kind),
                None => match sample_of(t) {
                    Ok(sample) => LineView::Sample(sample),
                    Err(e) => LineView::Malformed(e),
                },
            },
        }
    }
}

fn line_in(s: &Vec<char>, from: usize, to: usize) -> (item: LineItem)
    requires
        from <= to <= s@.len(),
    ensures
        item@ == line_item(s@.subrange(from as int, to as int)),
{
    let (a, b) = strip_bounds(s, from, to, Strip::Space);
    let t = sub_vec(s, a, b);
    if t.len() == 0 {
        return LineItem::Skip;
    }
    if t[0] == '#' && !starts_with(&t, &to_chars("# HELP ")) && !starts_with(
        &t,
        &to_chars("# TYPE "),
    ) {
        return LineItem::Skip;
    }
    if let Some((metric, text)) = metadata_in(&t, "# HELP ") {
        return LineItem::Help { metric, text };
    }
    if let Some((metric, kind)) = metadata_in(&t, "# TYPE ") {
        return LineItem::Type { metric, kind };
    }
    match sample_in(&t) {
        Ok(sample) => LineItem::Sample(sample),
        Err(e) => LineItem::Malformed(e),
    }
}

/// Reads one line of the text.
pub fn parse_line(line: &str) -> (item: LineItem)
    ensures
        item@ == line_item(line@),
{
    let chars = to_chars(line);
    proof {
        assert(chars@.subrange(0, chars@.len() as int) =~= line@);
    }
    line_in(&chars, 0, chars.len())
}

/// Parsed Prometheus metrics text format.
#[derive(Debug, Clone)]
pub struct PrometheusMetrics<V> {
    /// Metrics grouped by base name.
    pub metrics: StrMap<PrometheusMetric<V>>,
}

impl<V> View for PrometheusMetrics<V> {
    type V = Map<Seq<char>, MetricView<V>>;

    open spec fn view(&self) -> Map<Seq<char>, MetricView<V>> {
        self.metrics@.map_values(|m: PrometheusMetric<V>| m@)
    }
}

/// The metric under `base`, or a fresh one of that name if there is none.
pub open spec fn metric_at<V>(m: Map<Seq<char>, MetricView<V>>, base: Seq<char>) -> MetricView<V> {
    if m.contains_key(base) {
        m[base]
    } else {
        fresh_metric(base)
    }
}

/// `m` with `help` as the help text of the metric that `name` belongs to.
pub open spec fn with_help<V>(
    m: Map<Seq<char>, MetricView<V>>,
    name: Seq<char>,
    help: Seq<char>,
) -> Map<Seq<char>, MetricView<V>> {
    let metric = metric_at(m, base_name(name));
    m.insert(
        base_name(name),
        MetricView {
            name: metric.name,
            metric_type: metric.metric_type,
            help: Some(help),
            samples: metric.samples,
        },
    )
}

/// `m` with `kind` as the type of the metric that `name` belongs to.
pub open spec fn with_type<V>(
    m: Map<Seq<char>, MetricView<V>>,
    name: Seq<char>,
    kind: Seq<char>,
) -> Map<Seq<char>, MetricView<V>> {
    let metric = metric_at(m, base_name(name));
    m.insert(
        base_name(name),
        MetricView {
            name: metric.name,
            metric_type: Some(kind),
            help: metric.help,
            samples: metric.samples,
        },
    )
}

/// `m` with `sample` as the last sample of the metric that its name belongs
/// to.
pub open spec fn with_sample<V>(m: Map<Seq<char>, MetricView<V>>, sample: SampleView<V>) -> Map<
    Seq<char>,
    MetricView<V>,
> {
    let metric = metric_at(m, base_name(sample.name));
    m.insert(
        base_name(sample.name),
        MetricView {
            name: metric.name,
            metric_type: metric.metric_type,
            help: metric.help,
            samples: metric.samples.push(sample),
        },
    )
}

/// Why a line cannot be taken in.
#[derive(Debug)]
pub enum LineError {
    /// The line is neither empty, nor a comment, nor a sample.
    Malformed(SampleError),
    /// The line is a sample whose value, given here as it is written, was
    /// not understood.
    InvalidValue(String),
}

/// A `LineError` as plain values.
pub enum LineErrorView {
    Malformed(SampleErrorView),
    InvalidValue(Seq<char>),
}

impl View for LineError {
    type V = LineErrorView;

    open spec fn view(&self) -> LineErrorView {
        match self {
            LineError::Malformed(e) => LineErrorView::Malformed(e@),
            LineError::InvalidValue(value) => LineErrorView::InvalidValue(value@),
        }
    }
}

/// Why a text cannot be parsed: the first line, counted from zero, that
/// cannot be taken in, and what is wrong with it.
#[derive(Debug)]
pub struct ParseError {
    pub line: usize,
    pub error: LineError,
}

/// A `ParseError` as plain values.
pub struct ParseErrorView {
    pub line: nat,
    pub error: LineErrorView,
}

impl View for ParseError {
    type V = ParseErrorView;

    open spec fn view(&self) -> ParseErrorView {
        ParseErrorView { line: self.line as nat, error: self.error@ }
    }
}

/// What is wrong with a line, if anything. `value` is the value of the
/// line's sample as its reader understood it, or `None`. A line is wrong
/// where it is malformed, and where it is a sample whose value was not
/// understood.
pub open spec fn line_failure<V>(item: LineView, value: Option<V>) -> Option<LineErrorView> {
    match item {
        LineView::Malformed(e) => Some(LineErrorView::Malformed(e)),
        LineView::Sample(sample) => match value {
            Some(_) => None,
            None => Some(LineErrorView::InvalidValue(sample.value)),
        },
        _ => None,
    }
}

/// `m` after one line was taken in. `value` is the value of the line's
/// sample as its reader understood it. A line with which something is wrong
/// leaves `m` as it is.
pub open spec fn apply_line<V>(
    m: Map<Seq<char>, MetricView<V>>,
    item: LineView,
    value: Option<V>,
) -> Map<Seq<char>, MetricView<V>> {
    match item {
        LineView::Skip => m,
        LineView::Malformed(_) => m,
        LineView::Help(metric, text) => with_help(m, metric, text),
        LineView::Type(metric, kind) => with_type(m, metric, kind),
        LineView::Sample(sample) => match value {
            Some(v) => with_sample(
                m,
                SampleView {
                    name: sample.name,
                    labels: sample.labels,
                    value: v,
                    timestamp: sample.timestamp,
                },
            ),
            None => m,
        },
    }
}

impl<V> PrometheusMetrics<V> {
    /// Create an empty metrics container.
    pub fn new() -> (metrics: Self)
        ensures
            metrics@ == Map::<Seq<char>, MetricView<V>>::empty(),
    {
        let metrics = PrometheusMetrics { metrics: StrMap::new() };
        assert(metrics@ =~= Map::<Seq<char>, MetricView<V>>::empty());
        metrics
    }

    fn take_metric(&mut self, base: &str) -> (metric: PrometheusMetric<V>)
        ensures
            metric@ == metric_at(old(self)@, base@),
            final(self)@ == old(self)@.insert(base@, fresh_metric::<V>(base@)),
    {
        let placeholder = PrometheusMetric::named(base);
        let earlier = self.metrics.insert(base, placeholder);
        proof {
            assert(self@ =~= old(self)@.insert(base@, fresh_metric::<V>(base@)));
        }
        match earlier {
            Some(metric) => metric,
            None => PrometheusMetric::named(base),
        }
    }

    fn put_metric(&mut self, base: &str, metric: PrometheusMetric<V>)
        ensures
            final(self)@ == old(self)@.insert(base@, metric@),
    {
        self.metrics.insert(base, metric);
        proof {
            assert(self@ =~= old(self)@.insert(base@, metric@));
        }
    }

    /// Records the help text of the metric that `metric_name` belongs to.
    pub fn set_help(&mut self, metric_name: &str, help: String)
        ensures
            final(self)@ == with_help(old(self)@, metric_name@, help@),
    {
        let base = extract_base_metric_name(metric_name);
        let mut metric = self.take_metric(base.as_str());
        metric.help = Some(help);
        self.put_metric(base.as_str(), metric);
        proof {
            assert(self@ =~= with_help(old(self)@, metric_name@, help@));
        }
    }

    /// Records the type of the metric that `metric_name` belongs to.
    pub fn set_type(&mut self, metric_name: &str, kind: String)
        ensures
            final(self)@ == with_type(old(self)@, metric_name@, kind@),
    {
        let base = extract_base_metric_name(metric_name);
        let mut metric = self.take_metric(base.as_str());
        metric.metric_type = Some(kind);
        self.put_metric(base.as_str(), metric);
        proof {
            assert(self@ =~= with_type(old(self)@, metric_name@, kind@));
        }
    }

    /// Adds a sample to the metric that its name belongs to.
    pub fn add_sample(&mut self, sample: MetricSample<V>)
        ensures
            final(self)@ == with_sample(old(self)@, sample@),
    {
        let base = extract_base_metric_name(sample.name.as_str());
        let mut metric = self.take_metric(base.as_str());
        let ghost before = metric@.samples;
        metric.samples.push(sample);
        proof {
            assert(metric@.samples =~= before.push(sample@));
        }
        self.put_metric(base.as_str(), metric);
        proof {
            assert(self@ =~= with_sample(old(self)@, sample@));
        }
    }

    /// Takes in one line. `value` is the value of the line's sample as the
    /// caller understood it, or `None`. A line that is no sample, and a
    /// sample whose value was not understood, is an error and changes
    /// nothing.
    pub fn add_line(&mut self, item: LineItem, value: Option<V>) -> (r: Result<(), LineError>)
        ensures
            match r {
                Ok(()) => line_failure(item@, value) is None && final(self)@ == apply_line(
                    old(self)@,
                    item@,
                    value,
                ),
                Err(e) => line_failure(item@, value) == Some(e@) && final(self)@ == old(self)@,
            },
    {
        match item {
            LineItem::Skip => Ok(()),
            LineItem::Malformed(e) => Err(LineError::Malformed(e)),
            LineItem::Help { metric, text } => {
                self.set_help(metric.as_str(), text);
                Ok(())
            },
            LineItem::Type { metric, kind } => {
                self.set_type(metric.as_str(), kind);
                Ok(())
            },
            LineItem::Sample(sample) => {
                match value {
                    Some(v) => {
                        self.add_sample(
                            MetricSample {
                                name: sample.name,
                                labels: sample.labels,
                                value: v,
                                timestamp: sample.timestamp,
                            },
                        );
                        Ok(())
                    },
                    None => Err(LineError::InvalidValue(sample.value)),
                }
            },
        }
    }
}

/// Whether `value` is what the reader `value_of` made of the line `item`:
/// for a sample, what it gave for the value as written; for any other line,
/// nothing.
pub open spec fn read_by<V, F: Fn(&str) -> Option<V>>(
    value_of: F,
    item: LineView,
    value: Option<V>,
) -> bool {
    match item {
        LineView::Sample(sample) => exists|token: &str|
            token@ == sample.value && call_ensures(value_of, (token,), value),
        _ => value is None,
    }
}

/// The metrics that `lines` give when they are taken in one after the other
/// and the value of the sample of line `i` is understood as `values[i]`.
pub open spec fn assemble<V>(lines: Seq<Seq<char>>, values: Seq<Option<V>>) -> Map<
    Seq<char>,
    MetricView<V>,
>
    recommends
        lines.len() == values.len(),
    decreases lines.len(),
{
    if lines.len() == 0 || values.len() == 0 {
        Map::empty()
    } else {
        apply_line(
            assemble(lines.drop_last(), values.drop_last()),
            line_item(lines.last()),
            values.last(),
        )
    }
}

/// Whether `metrics` is what the text `content` gives when `value_of` reads
/// the values and gives `values` for the lines, in order, and nothing is
/// wrong with any line.
pub open spec fn parsed_as<V, F: Fn(&str) -> Option<V>>(
    content: Seq<char>,
    value_of: F,
    values: Seq<Option<V>>,
    metrics: Map<Seq<char>, MetricView<V>>,
) -> bool {
    let lines = split(content, '\n');
    &&& values.len() == lines.len()
    &&& forall|i: int| 0 <= i < lines.len() ==> read_by(value_of, line_item(lines[i]), values[i])
    &&& forall|i: int|
        0 <= i < lines.len() ==> line_failure(line_item(lines[i]), values[i]) is None
    &&& metrics == assemble(lines, values)
}

/// Whether `error` tells the first line of `content` with which something is
/// wrong, when `value_of` reads the values and gives `values` for the lines
/// up to and including that one.
pub open spec fn failed_as<V, F: Fn(&str) -> Option<V>>(
    content: Seq<char>,
    value_of: F,
    values: Seq<Option<V>>,
    error: ParseErrorView,
) -> bool {
    let lines = split(content, '\n');
    &&& error.line < lines.len()
    &&& values.len() == error.line + 1
    &&& forall|i: int| 0 <= i <= error.line ==> read_by(value_of, line_item(lines[i]), values[i])
    &&& forall|i: int|
        0 <= i < error.line ==> line_failure(line_item(lines[i]), values[i]) is None
    &&& line_failure(line_item(lines[error.line as int]), values[error.line as int]) == Some(
        error.error,
    )
}

impl<V> PrometheusMetrics<V> {
    /// Parse Prometheus text format metrics. The lines of `content` are
    /// separated by line feeds and taken in one after the other. The value of
    /// each sample is read by `value_of`, which is given the value as
    /// written.
    ///
    /// Malformed input yields an error, not a partial result: the text is
    /// refused if and only if one of its lines is neither empty, nor a
    /// comment, nor a sample, or is a sample whose value `value_of` does not
    /// understand. The error tells the first such line.
    pub fn parse<F: Fn(&str) -> Option<V>>(content: &str, value_of: F) -> (r: Result<
        Self,
        ParseError,
    >)
        requires
            forall|token: &str| call_requires(value_of, (token,)),
        ensures
            match r {
                Ok(metrics) => exists|values: Seq<Option<V>>|
                    parsed_as(content@, value_of, values, metrics@),
                Err(e) => exists|values: Seq<Option<V>>|
                    failed_as(content@, value_of, values, e@),
            },
    {
        let chars = to_chars(content);
        let bounds = split_bounds(&chars, '\n', 0, chars.len());
        let ghost lines = split(content@, '\n');
        proof {
            assert(chars@.subrange(0, chars@.len() as int) =~= content@);
        }
        let mut metrics: PrometheusMetrics<V> = PrometheusMetrics::new();
        let ghost mut values: Seq<Option<V>> = Seq::empty();
        proof {
            assert(lines.take(0) =~= Seq::<Seq<char>>::empty());
        }
        let mut i: usize = 0;
        while i < bounds.len()
            invariant
                i <= bounds@.len(),
                lines == pieces(chars@, bounds@),
                lines == split(content@, '\n'),
                forall|token: &str| call_requires(value_of, (token,)),
                forall|k: int|
                    0 <= k < bounds@.len() ==> (#[trigger] bounds@[k]).0 <= bounds@[k].1
                        <= chars@.len(),
                values.len() == i,
                forall|k: int|
                    0 <= k < i ==> read_by(value_of, line_item(lines[k]), #[trigger] values[k]),
                forall|k: int|
                    0 <= k < i ==> line_failure(line_item(lines[k]), #[trigger] values[k])
                        is None,
                metrics@ == assemble(lines.take(i as int), values),
            decreases bounds@.len() - i,
        {
            let (a, b) = bounds[i];
            let item = line_in(&chars, a, b);
            let value = match &item {
                LineItem::Sample(sample) => value_of(sample.value.as_str()),
                _ => None,
            };
            let ghost earlier = values;
            proof {
                assert(lines[i as int] == chars@.subrange(a as int, b as int));
                assert(read_by(value_of, line_item(lines[i as int]), value));
                values = values.push(value);
                assert(values.drop_last() =~= earlier);
                assert(lines.take(i + 1).drop_last() =~= lines.take(i as int));
                assert(lines.take(i + 1).last() == lines[i as int]);
                assert forall|k: int| 0 <= k < i + 1 implies read_by(
                    value_of,
                    line_item(lines[k]),
                    #[trigger] values[k],
                ) by {
                    if k < i {
                        assert(values[k] == earlier[k]);
                    }
                }
                assert forall|k: int| 0 <= k < i implies line_failure(
                    line_item(lines[k]),
                    #[trigger] values[k],
                ) is None by {
                    assert(values[k] == earlier[k]);
                }
            }
            match metrics.add_line(item, value) {
                Ok(()) => {},
                Err(error) => {
                    let failure = ParseError { line: i, error };
                    proof {
                        assert(failed_as(content@, value_of, values, failure@));
                    }
                    return Err(failure);
                },
            }
            i += 1;
        }
        proof {
            assert(lines.take(bounds@.len() as int) =~= lines);
            assert(parsed_as(content@, value_of, values, metrics@));
        }
        let r: Result<Self, ParseError> = Ok(metrics);
        proof {
            assert(parsed_as(content@, value_of, values, r->Ok_0@));
        }
        r
    }
}

/// Malformed input yields an error. A text with a line that is neither
/// empty, nor a comment, nor a sample is never parsed, whatever the reader
/// makes of the values.
pub proof fn lemma_malformed_text_is_refused<V, F: Fn(&str) -> Option<V>>(
    content: Seq<char>,
    value_of: F,
    k: int,
)
    requires
        0 <= k < split(content, '\n').len(),
        line_item(split(content, '\n')[k]) is Malformed,
    ensures
        forall|values: Seq<Option<V>>, metrics: Map<Seq<char>, MetricView<V>>|
            !parsed_as(content, value_of, values, metrics),
{
    assert forall|values: Seq<Option<V>>, metrics: Map<Seq<char>, MetricView<V>>|
        !parsed_as(content, value_of, values, metrics) by {
        if parsed_as(content, value_of, values, metrics) {
            assert(line_failure(line_item(split(content, '\n')[k]), values[k]) is None);
        }
    }
}

/// Only malformed input yields an error. A text in which no line is
/// malformed, and in which the reader understands the value of every sample,
/// is never refused.
pub proof fn lemma_sound_text_is_parsed<V, F: Fn(&str) -> Option<V>>(
    content: Seq<char>,
    value_of: F,
)
    requires
        forall|k: int|
            0 <= k < split(content, '\n').len() ==> !(line_item(
                #[trigger] split(content, '\n')[k],
            ) is Malformed),
        forall|k: int, value: Option<V>|
            0 <= k < split(content, '\n').len() && line_item(split(content, '\n')[k]) is Sample
                && #[trigger] read_by(value_of, line_item(split(content, '\n')[k]), value)
                ==> value is Some,
    ensures
        forall|values: Seq<Option<V>>, error: ParseErrorView|
            !failed_as(content, value_of, values, error),
{
    assert forall|values: Seq<Option<V>>, error: ParseErrorView|
        !failed_as(content, value_of, values, error) by {
        if failed_as(content, value_of, values, error) {
            let k = error.line as int;
            let item = line_item(split(content, '\n')[k]);
            assert(!(item is Malformed));
            assert(read_by(value_of, item, values[k]));
        }
    }
}

impl<V> Default for PrometheusMetrics<V> {
    fn default() -> (metrics: Self)
        ensures
            metrics@ == Map::<Seq<char>, MetricView<V>>::empty(),
    {
        Self::new()
    }
}

/// A signed integer in decimal, with a minus sign where it is below zero.
pub open spec fn signed_decimal(n: i64) -> Seq<char> {
    if n < 0 {
        seq!['-'] + decimal((-(n as int)) as nat)
    } else {
        decimal(n as nat)
    }
}

fn push_signed(out: &mut String, n: i64)
    ensures
        final(out)@ == old(out)@ + signed_decimal(n),
{
    if n < 0 {
        out.push('-');
        let magnitude: u64 = if n == i64::MIN {
            0x8000_0000_0000_0000
        } else {
            (-n) as u64
        };
        push_decimal(out, magnitude);
        proof {
            assert(out@ =~= old(out)@ + signed_decimal(n));
        }
    } else {
        push_decimal(out, n as u64);
    }
}

/// The labels under `keys` as they are written: pairs of the form
/// `key="value"`, the value escaped, separated by commas.
pub open spec fn pairs_text(keys: Seq<Seq<char>>, labels: Map<Seq<char>, String>) -> Seq<char>
    decreases keys.len(),
{
    if keys.len() == 0 {
        Seq::empty()
    } else if keys.len() == 1 {
        label_pair(keys[0], labels[keys[0]]@)
    } else {
        pairs_text(keys.drop_last(), labels) + seq![','] + label_pair(
            keys.last(),
            labels[keys.last()]@,
        )
    }
}

/// The labels of a sample as they are written: in braces, or nothing where
/// the sample has none.
pub open spec fn labels_text(labels: StrMap<String>) -> Seq<char> {
    if labels.key_order().len() == 0 {
        Seq::empty()
    } else {
        seq!['{'] + pairs_text(labels.key_order(), labels@) + seq!['}']
    }
}

/// The timestamp of a sample as it is written: after a space, or nothing
/// where the sample has none.
pub open spec fn timestamp_text(timestamp: Option<i64>) -> Seq<char> {
    match timestamp {
        Some(t) => seq![' '] + signed_decimal(t),
        None => Seq::empty(),
    }
}

/// The line of a sample: its name, its labels, its value as it is held and
/// its timestamp.
pub open spec fn sample_text(sample: MetricSample<String>) -> Seq<char> {
    sample.name@ + labels_text(sample.labels) + seq![' '] + sample.value@ + timestamp_text(
        sample.timestamp,
    ) + seq!['\n']
}

/// The lines of the samples, in order.
pub open spec fn samples_text(samples: Seq<MetricSample<String>>) -> Seq<char>
    decreases samples.len(),
{
    if samples.len() == 0 {
        Seq::empty()
    } else {
        samples_text(samples.drop_last()) + sample_text(samples.last())
    }
}

/// A line that gives `text` for the metric `name` under the keyword `word`,
/// or nothing where there is no text.
pub open spec fn note_text(word: Seq<char>, name: Seq<char>, text: Option<String>) -> Seq<char> {
    match text {
        Some(t) => seq!['#', ' '] + word + seq![' '] + name + seq![' '] + t@ + seq!['\n'],
        None => Seq::empty(),
    }
}

/// The lines of a metric: its HELP line and its TYPE line, where it has
/// them, and its samples.
pub open spec fn metric_text(metric: PrometheusMetric<String>) -> Seq<char> {
    note_text("HELP"@, metric.name@, metric.help) + note_text(
        "TYPE"@,
        metric.name@,
        metric.metric_type,
    ) + samples_text(metric.samples@)
}

/// The lines of the metrics under `keys`, in order.
pub open spec fn metrics_text(
    keys: Seq<Seq<char>>,
    metrics: Map<Seq<char>, PrometheusMetric<String>>,
) -> Seq<char>
    decreases keys.len(),
{
    if keys.len() == 0 {
        Seq::empty()
    } else {
        metrics_text(keys.drop_last(), metrics) + metric_text(metrics[keys.last()])
    }
}

fn push_labels(out: &mut String, labels: &StrMap<String>)
    ensures
        final(out)@ == old(out)@ + labels_text(*labels),
{
    let n = labels.len();
    if n == 0 {
        assert(out@ =~= old(out)@ + Seq::<char>::empty());
        return ;
    }
    let ghost keys = labels.key_order();
    out.push('{');
    let (first_key, first_value) = labels.entry_at(0);
    push_pair(out, first_key.as_str(), first_value.as_str());
    proof {
        assert(keys.take(1).len() == 1);
        assert(keys.take(1)[0] == keys[0]);
        assert(out@ =~= old(out)@ + (seq!['{'] + pairs_text(keys.take(1), labels@)));
    }
    let mut i: usize = 1;
    while i < n
        invariant
            1 <= i <= n,
            n == labels.key_order().len(),
            keys == labels.key_order(),
            out@ == old(out)@ + (seq!['{'] + pairs_text(keys.take(i as int), labels@)),
        decreases n - i,
    {
        let (key, value) = labels.entry_at(i);
        let ghost earlier = pairs_text(keys.take(i as int), labels@);
        proof {
            assert(keys.take(i + 1).drop_last() =~= keys.take(i as int));
            assert(keys.take(i + 1).last() == key@);
            assert(keys.take(i + 1).len() == i + 1);
        }
        out.push(',');
        push_pair(out, key.as_str(), value.as_str());
        proof {
            let pair = label_pair(key@, value@);
            assert(old(out)@ + (seq!['{'] + earlier) + seq![','] + pair =~= old(out)@ + (seq!['{']
                + (earlier + seq![','] + pair)));
            assert((old(out)@ + (seq!['{'] + earlier)).push(',') =~= old(out)@ + (seq!['{']
                + earlier) + seq![',']);
        }
        i += 1;
    }
    out.push('}');
    proof {
        assert(keys.take(n as int) =~= keys);
        assert(out@ =~= old(out)@ + labels_text(*labels));
    }
}

fn push_sample_text(out: &mut String, sample: &MetricSample<String>)
    ensures
        final(out)@ == old(out)@ + sample_text(*sample),
{
    out.append(sample.name.as_str());
    push_labels(out, &sample.labels);
    out.push(' ');
    out.append(sample.value.as_str());
    let ghost before = out@;
    match sample.timestamp {
        Some(t) => {
            out.push(' ');
            push_signed(out, t);
            proof {
                assert(out@ =~= before + timestamp_text(sample.timestamp));
            }
        },
        None => {
            assert(out@ =~= before + timestamp_text(sample.timestamp));
        },
    }
    out.push('\n');
    proof {
        assert(out@ =~= old(out)@ + sample_text(*sample));
    }
}

fn push_note(out: &mut String, word: &str, name: &str, text: &Option<String>)
    ensures
        final(out)@ == old(out)@ + note_text(word@, name@, *text),
{
    match text {
        Some(t) => {
            out.push('#');
            out.push(' ');
            out.append(word);
            out.push(' ');
            out.append(name);
            out.push(' ');
            out.append(t.as_str());
            out.push('\n');
            proof {
                assert(out@ =~= old(out)@ + note_text(word@, name@, *text));
            }
        },
        None => {
            assert(out@ =~= old(out)@ + Seq::<char>::empty());
        },
    }
}

fn push_metric_text(out: &mut String, metric: &PrometheusMetric<String>)
    ensures
        final(out)@ == old(out)@ + metric_text(*metric),
{
    push_note(out, "HELP", metric.name.as_str(), &metric.help);
    push_note(out, "TYPE", metric.name.as_str(), &metric.metric_type);
    let ghost head = note_text("HELP"@, metric.name@, metric.help) + note_text(
        "TYPE"@,
        metric.name@,
        metric.metric_type,
    );
    proof {
        assert(out@ =~= old(out)@ + (head + samples_text(metric.samples@.take(0))));
    }
    let mut i: usize = 0;
    while i < metric.samples.len()
        invariant
            i <= metric.samples@.len(),
            out@ == old(out)@ + (head + samples_text(metric.samples@.take(i as int))),
        decreases metric.samples@.len() - i,
    {
        let ghost earlier = samples_text(metric.samples@.take(i as int));
        proof {
            let all = metric.samples@;
            assert(all.take(i + 1).drop_last() =~= all.take(i as int));
            assert(all.take(i + 1).last() == all[i as int]);
        }
        push_sample_text(out, &metric.samples[i]);
        proof {
            let line = sample_text(metric.samples@[i as int]);
            assert(old(out)@ + (head + earlier) + line =~= old(out)@ + (head + (earlier + line)));
        }
        i += 1;
    }
    proof {
        assert(metric.samples@.take(metric.samples@.len() as int) =~= metric.samples@);
    }
}

impl PrometheusFormat for PrometheusMetrics<String> {
    /// The metrics as they were scraped: every metric with its HELP and TYPE
    /// lines and its samples, the values as they are held.
    open spec fn prometheus_text(&self) -> Seq<char> {
        metrics_text(self.metrics.key_order(), self.metrics@)
    }

    fn to_prometheus_format(&self, _sandbox_id: Option<&str>) -> (text: String) {
        let mut output = String::new();
        let n = self.metrics.len();
        let ghost keys = self.metrics.key_order();
        proof {
            assert(output@ =~= metrics_text(keys.take(0), self.metrics@));
        }
        let mut i: usize = 0;
        while i < n
            invariant
                i <= n,
                n == self.metrics.key_order().len(),
                keys == self.metrics.key_order(),
                output@ == metrics_text(keys.take(i as int), self.metrics@),
            decreases n - i,
        {
            let (key, metric) = self.metrics.entry_at(i);
            proof {
                assert(keys.take(i + 1).drop_last() =~= keys.take(i as int));
                assert(keys.take(i + 1).last() == key@);
            }
            push_metric_text(&mut output, metric);
            i += 1;
        }
        proof {
            assert(keys.take(n as int) =~= keys);
        }
        output
    }
}

} // verus!
