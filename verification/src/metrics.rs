//! Metric samples of scenario runs, and the port through which exporters take them.
//!
//! | Name | Kind | Unit | Emitted when |
//! |------|------|------|--------------|
//! | [`FAULTS_INJECTED_TOTAL`] | counter | count | a fault was injected |
//! | [`FAULTS_SKIPPED_TOTAL`] | counter | count | a fault was skipped |
//! | [`FAULT_INTENSITY`] | gauge | ratio | a fault was injected |
//! | [`FAULT_LATENCY_MS`] | histogram | milliseconds | a fault reports a latency |
//! | [`SCENARIO_DURATION_MS`] | histogram | milliseconds | a scenario has finished |

use crate::fault::{ContextView, Fault, FaultContext};
use crate::scalar::{nearest_count, round_to_count, Scalar, ONE_BITS};
use crate::scenario::{
    event_views, injected_events, peak_intensity, result_views, ChaosScenario, ReportView,
    ScenarioRegime, ScenarioReport, ScenarioRun,
};
use crate::text;
use crate::types::{EventView, FaultEvent, FaultResult, ResultView, SkipReason};
use std::sync::Arc;
use vstd::prelude::*;

pub mod otel;
pub mod prometheus;
pub mod statsd;
pub mod timeout;

verus! {

/// Counter of injected faults.
pub const FAULTS_INJECTED_TOTAL: &'static str = "malcolm_faults_injected_total";

/// Counter of skipped faults.
pub const FAULTS_SKIPPED_TOTAL: &'static str = "malcolm_faults_skipped_total";

/// Gauge of the latest intensity of a fault on a node.
pub const FAULT_INTENSITY: &'static str = "malcolm_fault_intensity";

/// Histogram of the latencies that faults report.
pub const FAULT_LATENCY_MS: &'static str = "malcolm_fault_latency_ms";

/// Histogram of scenario durations.
pub const SCENARIO_DURATION_MS: &'static str = "malcolm_scenario_duration_ms";

/// Kind of series that a sample belongs to.
#[derive(Clone, Copy, Debug, PartialEq, Eq, Structural)]
pub enum MetricKind {
    /// Cumulative count.
    Counter,
    /// Value at a point in time.
    Gauge,
    /// Distribution of observed values.
    Histogram,
}

/// Unit of a sample's value.
#[derive(Clone, Copy, Debug, PartialEq, Eq, Structural)]
pub enum MetricUnit {
    /// Dimensionless count.
    Count,
    /// Milliseconds.
    Milliseconds,
    /// Ratio between zero and one.
    Ratio,
    /// Bytes.
    Bytes,
}

/// One observation.
#[derive(Debug, PartialEq, Eq)]
pub struct MetricSample {
    /// Name of the metric.
    pub name: &'static str,
    /// Kind of series.
    pub kind: MetricKind,
    /// Value: counters add it, gauges take it, histograms observe it.
    pub value: Scalar,
    /// Unit of the value.
    pub unit: MetricUnit,
    /// Labels, each a key and a value.
    pub labels: Vec<(&'static str, String)>,
    /// Wall-clock time in milliseconds.
    pub timestamp_ms: u64,
}

/// Model of a sample.
pub struct SampleView {
    pub name: Seq<char>,
    pub kind: MetricKind,
    pub value: Scalar,
    pub unit: MetricUnit,
    pub labels: Seq<(Seq<char>, Seq<char>)>,
    pub timestamp_ms: u64,
}

/// Models of a list of labels.
pub open spec fn label_views(labels: Seq<(&'static str, String)>) -> Seq<(Seq<char>, Seq<char>)> {
    Seq::new(labels.len(), |i: int| (labels[i].0@, labels[i].1@))
}

impl View for MetricSample {
    type V = SampleView;

    open spec fn view(&self) -> SampleView {
        SampleView {
            name: self.name@,
            kind: self.kind,
            value: self.value,
            unit: self.unit,
            labels: label_views(self.labels@),
            timestamp_ms: self.timestamp_ms,
        }
    }
}

/// A copy of `labels`.
pub fn copy_labels(labels: &Vec<(&'static str, String)>) -> (out: Vec<(&'static str, String)>)
    ensures
        label_views(out@) == label_views(labels@),
{
    let mut out: Vec<(&'static str, String)> = Vec::new();
    let mut i: usize = 0;
    while i < labels.len()
        invariant
            i <= labels@.len(),
            out@.len() == i,
            forall|j: int|
                0 <= j < i ==> (#[trigger] out@[j]).0@ == labels@[j].0@ && out@[j].1@
                    == labels@[j].1@,
        decreases labels@.len() - i,
    {
        out.push((labels[i].0, labels[i].1.clone()));
        i += 1;
    }
    assert(label_views(out@) =~= label_views(labels@));
    out
}

impl Clone for MetricSample {
    fn clone(&self) -> (r: Self)
        ensures
            r@ == self@,
    {
        MetricSample {
            name: self.name,
            kind: self.kind,
            value: self.value,
            unit: self.unit,
            labels: copy_labels(&self.labels),
            timestamp_ms: self.timestamp_ms,
        }
    }
}

/// Models of a list of samples.
pub open spec fn sample_views(samples: Seq<MetricSample>) -> Seq<SampleView> {
    Seq::new(samples.len(), |i: int| samples[i]@)
}

/// Sink that takes samples.
pub trait MetricsRecorder {
    /// True if this recorder took the sample.
    open spec fn took(&self, sample: &MetricSample) -> bool {
        true
    }

    /// Takes one sample.
    fn record(&self, sample: &MetricSample)
        ensures
            self.took(sample),
    ;
}

/// Recorder that drops every sample.
#[derive(Clone, Copy, Debug, Default)]
pub struct NoopRecorder;

impl MetricsRecorder for NoopRecorder {
    fn record(&self, _sample: &MetricSample) {
    }
}

/// Recorder that hands each sample to a list of recorders, in the order in which
/// they were registered. Hubs nest.
pub struct MetricsHub {
    recorders: Vec<Arc<dyn MetricsRecorder>>,
}

/// `list` followed by `item`. The item comes first, so that the type of a recorder
/// behind a pointer is settled by it alone.
pub open spec fn appended<T>(item: T, list: Seq<T>) -> Seq<T> {
    list.push(item)
}

fn append_item<T>(item: T, list: &mut Vec<T>)
    ensures
        final(list)@ == appended(item, old(list)@),
{
    list.push(item);
}

impl Clone for MetricsHub {
    /// Another hub with the same recorders.
    fn clone(&self) -> (r: Self)
        ensures
            r.registered() == self.registered(),
    {
        let mut recorders: Vec<Arc<dyn MetricsRecorder>> = Vec::new();
        let mut i: usize = 0;
        while i < self.recorders.len()
            invariant
                i <= self.recorders@.len(),
                recorders@ =~= self.recorders@.take(i as int),
            decreases self.recorders@.len() - i,
        {
            append_item(self.recorders[i].clone(), &mut recorders);
            i += 1;
        }
        MetricsHub { recorders }
    }
}

impl Default for MetricsHub {
    fn default() -> (r: Self)
        ensures
            r.registered().len() == 0,
    {
        MetricsHub::new()
    }
}

impl MetricsHub {
    /// The registered recorders, in order.
    pub closed spec fn registered(self) -> Seq<Arc<dyn MetricsRecorder>> {
        self.recorders@
    }

    /// A hub without recorders, which drops every sample.
    pub fn new() -> (r: Self)
        ensures
            r.registered().len() == 0,
    {
        MetricsHub { recorders: Vec::new() }
    }

    /// This hub with `recorder` registered last.
    pub fn with_recorder(self, recorder: Arc<dyn MetricsRecorder>) -> (r: Self)
        ensures
            r.registered() == appended(recorder, self.registered()),
    {
        let mut recorders = self.recorders;
        append_item(recorder, &mut recorders);
        MetricsHub { recorders }
    }

    /// This hub with all of `recorders` registered last, in their order.
    pub fn with_recorders(self, recorders: Vec<Arc<dyn MetricsRecorder>>) -> (r: Self)
        ensures
            r.registered() == self.registered() + recorders@,
    {
        let mut all = self.recorders;
        let mut more = recorders;
        all.append(&mut more);
        MetricsHub { recorders: all }
    }

    /// Number of registered recorders.
    pub fn recorder_count(&self) -> (n: usize)
        ensures
            n == self.registered().len(),
    {
        self.recorders.len()
    }

    /// Hands each of `samples` in order to all recorders.
    pub fn record_all(&self, samples: &Vec<MetricSample>)
        ensures
            took_all(*self, samples@),
    {
        let mut i: usize = 0;
        while i < samples.len()
            invariant
                i <= samples@.len(),
                forall|j: int| 0 <= j < i ==> self.took(#[trigger] &samples@[j]),
            decreases samples@.len() - i,
        {
            self.record(&samples[i]);
            i += 1;
        }
    }
}

impl MetricsRecorder for MetricsHub {
    /// A hub takes what all of its recorders take.
    open spec fn took(&self, sample: &MetricSample) -> bool {
        forall|i: int|
            0 <= i < self.registered().len() ==> (#[trigger] self.registered()[i]).took(sample)
    }

    fn record(&self, sample: &MetricSample) {
        let mut i: usize = 0;
        while i < self.recorders.len()
            invariant
                i <= self.recorders@.len(),
                forall|j: int| 0 <= j < i ==> (#[trigger] self.recorders@[j]).took(sample),
            decreases self.recorders@.len() - i,
        {
            self.recorders[i].record(sample);
            i += 1;
        }
    }
}

/// True if the hub took each of `samples`.
pub open spec fn took_all(hub: MetricsHub, samples: Seq<MetricSample>) -> bool {
    forall|i: int| 0 <= i < samples.len() ==> hub.took(#[trigger] &samples[i])
}

/// How a region is written in a label.
pub open spec fn regime_text(regime: ScenarioRegime) -> Seq<char> {
    match regime {
        ScenarioRegime::Stable => "stable"@,
        ScenarioRegime::Sensitive => "sensitive"@,
        ScenarioRegime::Chaotic => "chaotic"@,
    }
}

/// How a region is written in a label.
pub fn regime_label(regime: ScenarioRegime) -> (r: &'static str)
    ensures
        r@ == regime_text(regime),
{
    match regime {
        ScenarioRegime::Stable => "stable",
        ScenarioRegime::Sensitive => "sensitive",
        ScenarioRegime::Chaotic => "chaotic",
    }
}

/// How a reason is written in a label.
pub open spec fn skip_reason_text(reason: SkipReason) -> Seq<char> {
    match reason {
        SkipReason::BelowThreshold => "below_threshold"@,
        SkipReason::DryRun => "dry_run"@,
        SkipReason::Cancelled => "cancelled"@,
    }
}

/// How a reason is written in a label.
pub fn skip_reason_label(reason: SkipReason) -> (r: &'static str)
    ensures
        r@ == skip_reason_text(reason),
{
    match reason {
        SkipReason::BelowThreshold => "below_threshold",
        SkipReason::DryRun => "dry_run",
        SkipReason::Cancelled => "cancelled",
    }
}

/// How a truth value is written in a label.
pub open spec fn flag_text(flag: bool) -> Seq<char> {
    if flag {
        "true"@
    } else {
        "false"@
    }
}

/// The samples of an injected fault: one count and its intensity.
pub open spec fn fault_samples(
    event: EventView,
    scenario: Seq<char>,
    regime: ScenarioRegime,
    timestamp_ms: u64,
) -> Seq<SampleView> {
    seq![
        SampleView {
            name: FAULTS_INJECTED_TOTAL@,
            kind: MetricKind::Counter,
            value: (Scalar { bits: ONE_BITS }),
            unit: MetricUnit::Count,
            labels: seq![
                ("fault_type"@, event.fault_type),
                ("node_id"@, event.node_id),
                ("scenario"@, scenario),
                ("regime"@, regime_text(regime)),
                ("dry_run"@, flag_text(event.dry_run)),
            ],
            timestamp_ms,
        },
        SampleView {
            name: FAULT_INTENSITY@,
            kind: MetricKind::Gauge,
            value: event.intensity,
            unit: MetricUnit::Ratio,
            labels: seq![
                ("fault_type"@, event.fault_type),
                ("node_id"@, event.node_id),
                ("scenario"@, scenario),
            ],
            timestamp_ms,
        },
    ]
}

/// The sample of a skipped fault.
pub open spec fn skipped_sample(
    fault_type: Seq<char>,
    node_id: Seq<char>,
    scenario: Seq<char>,
    reason: SkipReason,
    timestamp_ms: u64,
) -> SampleView {
    SampleView {
        name: FAULTS_SKIPPED_TOTAL@,
        kind: MetricKind::Counter,
        value: (Scalar { bits: ONE_BITS }),
        unit: MetricUnit::Count,
        labels: seq![
            ("fault_type"@, fault_type),
            ("node_id"@, node_id),
            ("scenario"@, scenario),
            ("skip_reason"@, skip_reason_text(reason)),
        ],
        timestamp_ms,
    }
}

/// A duration as a sample value; at most what fits in 32 bits.
pub open spec fn bounded_duration(ms: u64) -> u32 {
    if ms > u32::MAX {
        u32::MAX
    } else {
        ms as u32
    }
}

/// True if `sample` is the duration sample of a report.
pub open spec fn is_duration_sample(
    sample: SampleView,
    name: Seq<char>,
    regime: ScenarioRegime,
    total_duration_ms: u64,
) -> bool {
    &&& sample.name == SCENARIO_DURATION_MS@
    &&& sample.kind == MetricKind::Histogram
    &&& sample.value == Scalar::of_count(bounded_duration(total_duration_ms))
    &&& sample.unit == MetricUnit::Milliseconds
    &&& sample.labels == seq![("scenario"@, name), ("regime"@, regime_text(regime))]
    &&& sample.timestamp_ms == total_duration_ms
}

fn pair(key: &'static str, value: &str) -> (r: (&'static str, String))
    ensures
        r.0@ == key@,
        r.1@ == value@,
{
    (key, value.to_owned())
}

/// The samples of an injected fault.
pub fn samples_for_fault_result(
    fault: &FaultEvent,
    scenario_name: &str,
    regime: ScenarioRegime,
    timestamp_ms: u64,
) -> (r: Vec<MetricSample>)
    ensures
        sample_views(r@) == fault_samples(fault@, scenario_name@, regime, timestamp_ms),
{
    let mut counted: Vec<(&'static str, String)> = Vec::new();
    counted.push(pair("fault_type", fault.fault_type.as_str()));
    counted.push(pair("node_id", fault.node_id.as_str()));
    counted.push(pair("scenario", scenario_name));
    counted.push(pair("regime", regime_label(regime)));
    if fault.dry_run {
        counted.push(pair("dry_run", "true"));
    } else {
        counted.push(pair("dry_run", "false"));
    }
    let mut measured: Vec<(&'static str, String)> = Vec::new();
    measured.push(pair("fault_type", fault.fault_type.as_str()));
    measured.push(pair("node_id", fault.node_id.as_str()));
    measured.push(pair("scenario", scenario_name));
    let ghost want = fault_samples(fault@, scenario_name@, regime, timestamp_ms);
    assert(label_views(counted@) =~= want[0].labels);
    assert(label_views(measured@) =~= want[1].labels);
    let mut samples: Vec<MetricSample> = Vec::new();
    samples.push(
        MetricSample {
            name: FAULTS_INJECTED_TOTAL,
            kind: MetricKind::Counter,
            value: Scalar::one(),
            unit: MetricUnit::Count,
            labels: counted,
            timestamp_ms,
        },
    );
    samples.push(
        MetricSample {
            name: FAULT_INTENSITY,
            kind: MetricKind::Gauge,
            value: fault.intensity,
            unit: MetricUnit::Ratio,
            labels: measured,
            timestamp_ms,
        },
    );
    assert(sample_views(samples@) =~= want);
    samples
}

/// The sample of a skipped fault.
pub fn sample_for_skipped_fault(
    fault_type: &'static str,
    node_id: &str,
    scenario_name: &str,
    reason: SkipReason,
    timestamp_ms: u64,
) -> (r: MetricSample)
    ensures
        r@ == skipped_sample(fault_type@, node_id@, scenario_name@, reason, timestamp_ms),
{
    let mut labels: Vec<(&'static str, String)> = Vec::new();
    labels.push(pair("fault_type", fault_type));
    labels.push(pair("node_id", node_id));
    labels.push(pair("scenario", scenario_name));
    labels.push(pair("skip_reason", skip_reason_label(reason)));
    assert(label_views(labels@) =~= skipped_sample(
        fault_type@,
        node_id@,
        scenario_name@,
        reason,
        timestamp_ms,
    ).labels);
    MetricSample {
        name: FAULTS_SKIPPED_TOTAL,
        kind: MetricKind::Counter,
        value: Scalar::one(),
        unit: MetricUnit::Count,
        labels,
        timestamp_ms,
    }
}

/// The duration sample of a finished scenario.
pub fn sample_for_scenario_duration(report: &ScenarioReport) -> (r: MetricSample)
    ensures
        is_duration_sample(r@, report@.name, report@.regime, report@.total_duration_ms),
{
    let mut labels: Vec<(&'static str, String)> = Vec::new();
    labels.push(pair("scenario", report.name.as_str()));
    labels.push(pair("regime", regime_label(report.regime)));
    assert(label_views(labels@) =~= seq![
        ("scenario"@, report@.name),
        ("regime"@, regime_text(report@.regime)),
    ]);
    let bounded: u32 = if report.total_duration_ms > u32::MAX as u64 {
        u32::MAX
    } else {
        report.total_duration_ms as u32
    };
    MetricSample {
        name: SCENARIO_DURATION_MS,
        kind: MetricKind::Histogram,
        value: Scalar::from_u32(bounded),
        unit: MetricUnit::Milliseconds,
        labels,
        timestamp_ms: report.total_duration_ms,
    }
}

/// The sample of a latency that a fault reports.
pub fn sample_for_fault_latency(
    fault_type: &'static str,
    node_id: &str,
    latency_ms: Scalar,
    timestamp_ms: u64,
) -> (r: MetricSample)
    ensures
        r@ == (SampleView {
            name: FAULT_LATENCY_MS@,
            kind: MetricKind::Histogram,
            value: latency_ms,
            unit: MetricUnit::Milliseconds,
            labels: seq![("fault_type"@, fault_type@), ("node_id"@, node_id@)],
            timestamp_ms,
        }),
{
    let mut labels: Vec<(&'static str, String)> = Vec::new();
    labels.push(pair("fault_type", fault_type));
    labels.push(pair("node_id", node_id));
    assert(label_views(labels@) =~= seq![("fault_type"@, fault_type@), ("node_id"@, node_id@)]);
    MetricSample {
        name: FAULT_LATENCY_MS,
        kind: MetricKind::Histogram,
        value: latency_ms,
        unit: MetricUnit::Milliseconds,
        labels,
        timestamp_ms,
    }
}

/// The series of the taxonomy.
#[derive(Clone, Copy, Debug, PartialEq, Eq, Structural)]
pub enum Series {
    /// [`FAULTS_INJECTED_TOTAL`].
    FaultsInjected,
    /// [`FAULTS_SKIPPED_TOTAL`].
    FaultsSkipped,
    /// [`FAULT_INTENSITY`].
    FaultIntensity,
    /// [`FAULT_LATENCY_MS`].
    FaultLatency,
    /// [`SCENARIO_DURATION_MS`].
    ScenarioDuration,
}

impl Series {
    /// The name of the series.
    pub open spec fn title(self) -> Seq<char> {
        match self {
            Series::FaultsInjected => FAULTS_INJECTED_TOTAL@,
            Series::FaultsSkipped => FAULTS_SKIPPED_TOTAL@,
            Series::FaultIntensity => FAULT_INTENSITY@,
            Series::FaultLatency => FAULT_LATENCY_MS@,
            Series::ScenarioDuration => SCENARIO_DURATION_MS@,
        }
    }

    /// The kind of the series.
    pub open spec fn sort(self) -> MetricKind {
        match self {
            Series::FaultsInjected => MetricKind::Counter,
            Series::FaultsSkipped => MetricKind::Counter,
            Series::FaultIntensity => MetricKind::Gauge,
            Series::FaultLatency => MetricKind::Histogram,
            Series::ScenarioDuration => MetricKind::Histogram,
        }
    }

    /// The name of the series.
    pub fn name(self) -> (r: &'static str)
        ensures
            r@ == self.title(),
    {
        match self {
            Series::FaultsInjected => FAULTS_INJECTED_TOTAL,
            Series::FaultsSkipped => FAULTS_SKIPPED_TOTAL,
            Series::FaultIntensity => FAULT_INTENSITY,
            Series::FaultLatency => FAULT_LATENCY_MS,
            Series::ScenarioDuration => SCENARIO_DURATION_MS,
        }
    }

    /// The kind of the series.
    pub fn kind(self) -> (r: MetricKind)
        ensures
            r == self.sort(),
    {
        match self {
            Series::FaultsInjected => MetricKind::Counter,
            Series::FaultsSkipped => MetricKind::Counter,
            Series::FaultIntensity => MetricKind::Gauge,
            Series::FaultLatency => MetricKind::Histogram,
            Series::ScenarioDuration => MetricKind::Histogram,
        }
    }

    /// The series of that name, if the taxonomy has one.
    pub fn named(name: &str) -> (r: Option<Series>)
        ensures
            match r {
                Some(series) => series.title() == name@,
                None => forall|series: Series| (#[trigger] series.title()) != name@,
            },
    {
        if text::same(name, FAULTS_INJECTED_TOTAL) {
            Some(Series::FaultsInjected)
        } else if text::same(name, FAULTS_SKIPPED_TOTAL) {
            Some(Series::FaultsSkipped)
        } else if text::same(name, FAULT_INTENSITY) {
            Some(Series::FaultIntensity)
        } else if text::same(name, FAULT_LATENCY_MS) {
            Some(Series::FaultLatency)
        } else if text::same(name, SCENARIO_DURATION_MS) {
            Some(Series::ScenarioDuration)
        } else {
            None
        }
    }
}

/// No two series share a name, so that a name leads to one series.
pub proof fn series_names_are_distinct(a: Series, b: Series)
    ensures
        a.title() == b.title() ==> a == b,
{
    reveal_strlit("malcolm_faults_injected_total");
    reveal_strlit("malcolm_faults_skipped_total");
    reveal_strlit("malcolm_fault_intensity");
    reveal_strlit("malcolm_fault_latency_ms");
    reveal_strlit("malcolm_scenario_duration_ms");
    assert(FAULTS_INJECTED_TOTAL@.len() == 29);
    assert(FAULTS_SKIPPED_TOTAL@.len() == 28);
    assert(FAULT_INTENSITY@.len() == 23);
    assert(FAULT_LATENCY_MS@.len() == 24);
    assert(SCENARIO_DURATION_MS@.len() == 28);
    assert(FAULTS_SKIPPED_TOTAL@[8] == 'f');
    assert(SCENARIO_DURATION_MS@[8] == 's');
}

/// What a sample does to its series.
#[derive(Clone, Copy, Debug, PartialEq, Eq, Structural)]
pub enum Update {
    /// The counter grows by this much.
    Add(u64),
    /// The gauge takes this value.
    Replace(Scalar),
    /// The histogram observes this value.
    Observe(Scalar),
}

/// What a sample of the given value does to a series of the given kind. Counters
/// grow by the nearest whole number; a negative value leaves them alone.
pub open spec fn update_of(kind: MetricKind, value: Scalar) -> Update {
    match kind {
        MetricKind::Counter => Update::Add(nearest_count(value)),
        MetricKind::Gauge => Update::Replace(value),
        MetricKind::Histogram => Update::Observe(value),
    }
}

/// What a sample of the given value does to a series of the given kind.
pub fn update_for(kind: MetricKind, value: Scalar) -> (r: Update)
    ensures
        r == update_of(kind, value),
{
    match kind {
        MetricKind::Counter => Update::Add(round_to_count(value)),
        MetricKind::Gauge => Update::Replace(value),
        MetricKind::Histogram => Update::Observe(value),
    }
}

/// The names that were reported as unknown.
#[derive(Debug)]
pub struct UnknownNames {
    names: Vec<String>,
}

impl UnknownNames {
    /// The reported names.
    pub closed spec fn reported(self) -> Set<Seq<char>> {
        Set::new(|s: Seq<char>| text::views(self.names@).contains(s))
    }

    /// No name reported yet.
    pub fn new() -> (r: Self)
        ensures
            r.reported() == Set::<Seq<char>>::empty(),
    {
        let r = UnknownNames { names: Vec::new() };
        assert(r.reported() =~= Set::<Seq<char>>::empty());
        r
    }

    /// Notes a name; true the first time.
    pub fn warn_once(&mut self, name: &str) -> (first: bool)
        ensures
            first == !old(self).reported().contains(name@),
            final(self).reported() == old(self).reported().insert(name@),
    {
        if text::contains(&self.names, name) {
            assert(self.reported() =~= old(self).reported().insert(name@));
            return false;
        }
        self.names.push(name.to_owned());
        proof {
            let before = text::views(old(self).names@);
            let after = text::views(self.names@);
            assert(after =~= before.push(name@));
            assert forall|s: Seq<char>| after.contains(s) == (before.contains(s) || s == name@) by {
                if before.contains(s) {
                    let k = choose|k: int| 0 <= k < before.len() && before[k] == s;
                    assert(after[k] == s);
                }
                if s == name@ {
                    assert(after[before.len() as int] == s);
                }
                if after.contains(s) && s != name@ {
                    let k = choose|k: int| 0 <= k < after.len() && after[k] == s;
                    assert(before[k] == s);
                }
            }
            assert(self.reported() =~= old(self).reported().insert(name@));
        }
        true
    }
}

/// Outcome of one fault of a run.
#[derive(Debug, PartialEq, Eq)]
pub struct FaultOutcome {
    /// Identifier for the kind of fault.
    pub fault_type: &'static str,
    /// What the injection gave.
    pub result: FaultResult,
}

/// Model of the outcome of one fault.
pub struct OutcomeView {
    pub fault_type: Seq<char>,
    pub result: ResultView,
}

impl View for FaultOutcome {
    type V = OutcomeView;

    open spec fn view(&self) -> OutcomeView {
        OutcomeView { fault_type: self.fault_type@, result: self.result@ }
    }
}

/// Models of a list of outcomes.
pub open spec fn outcome_views(outcomes: Seq<FaultOutcome>) -> Seq<OutcomeView> {
    Seq::new(outcomes.len(), |i: int| outcomes[i]@)
}

/// The bare outcomes.
pub open spec fn bare_results(outcomes: Seq<OutcomeView>) -> Seq<ResultView> {
    Seq::new(outcomes.len(), |i: int| outcomes[i].result)
}

/// The samples of one outcome: those of an injected fault carry the time of the
/// event, that of a skipped one the time of the run.
pub open spec fn outcome_samples(
    outcome: OutcomeView,
    scenario: Seq<char>,
    node_id: Seq<char>,
    regime: ScenarioRegime,
    timestamp_ms: u64,
) -> Seq<SampleView> {
    match outcome.result {
        ResultView::Injected(event) => fault_samples(event, scenario, regime, event.timestamp_ms),
        ResultView::Skipped(reason) => seq![
            skipped_sample(outcome.fault_type, node_id, scenario, reason, timestamp_ms),
        ],
    }
}

/// The samples of all outcomes, in order.
pub open spec fn run_samples(
    outcomes: Seq<OutcomeView>,
    scenario: Seq<char>,
    node_id: Seq<char>,
    regime: ScenarioRegime,
    timestamp_ms: u64,
) -> Seq<SampleView>
    decreases outcomes.len(),
{
    if outcomes.len() == 0 {
        Seq::empty()
    } else {
        run_samples(outcomes.drop_last(), scenario, node_id, regime, timestamp_ms)
            + outcome_samples(outcomes.last(), scenario, node_id, regime, timestamp_ms)
    }
}

/// Number of samples under a name.
pub open spec fn count_named(samples: Seq<SampleView>, name: Seq<char>) -> nat
    decreases samples.len(),
{
    if samples.len() == 0 {
        0
    } else {
        count_named(samples.drop_last(), name) + if samples.last().name == name {
            1nat
        } else {
            0
        }
    }
}

proof fn count_of_concat(a: Seq<SampleView>, b: Seq<SampleView>, name: Seq<char>)
    ensures
        count_named(a + b, name) == count_named(a, name) + count_named(b, name),
    decreases b.len(),
{
    if b.len() == 0 {
        assert(a + b =~= a);
    } else {
        assert((a + b).drop_last() =~= a + b.drop_last());
        count_of_concat(a, b.drop_last(), name);
    }
}

/// A run emits one injected count for each event of its report, and one skipped
/// count for each fault that was not injected.
pub proof fn every_fault_is_counted_once(
    outcomes: Seq<OutcomeView>,
    scenario: Seq<char>,
    node_id: Seq<char>,
    regime: ScenarioRegime,
    timestamp_ms: u64,
)
    ensures
        count_named(
            run_samples(outcomes, scenario, node_id, regime, timestamp_ms),
            FAULTS_INJECTED_TOTAL@,
        ) == injected_events(bare_results(outcomes)).len(),
        count_named(
            run_samples(outcomes, scenario, node_id, regime, timestamp_ms),
            FAULTS_SKIPPED_TOTAL@,
        ) == outcomes.len() - injected_events(bare_results(outcomes)).len(),
    decreases outcomes.len(),
{
    if outcomes.len() > 0 {
        every_fault_is_counted_once(outcomes.drop_last(), scenario, node_id, regime, timestamp_ms);
        series_names_are_distinct(Series::FaultsInjected, Series::FaultsSkipped);
        series_names_are_distinct(Series::FaultsInjected, Series::FaultIntensity);
        series_names_are_distinct(Series::FaultsSkipped, Series::FaultIntensity);
        let front = run_samples(outcomes.drop_last(), scenario, node_id, regime, timestamp_ms);
        let back = outcome_samples(outcomes.last(), scenario, node_id, regime, timestamp_ms);
        count_of_concat(front, back, FAULTS_INJECTED_TOTAL@);
        count_of_concat(front, back, FAULTS_SKIPPED_TOTAL@);
        assert(bare_results(outcomes).drop_last() =~= bare_results(outcomes.drop_last()));
        reveal_with_fuel(count_named, 3);
    }
}

/// What the injections of a run have given, with the outcome of each fault.
#[derive(Debug, PartialEq, Eq)]
pub struct MeteredRun {
    /// The run.
    pub run: ScenarioRun,
    /// Outcome of each fault, in execution order.
    pub outcomes: Vec<FaultOutcome>,
    /// Targeted node.
    pub node_id: String,
    /// Time of the run in milliseconds.
    pub timestamp_ms: u64,
}

impl MeteredRun {
    /// The samples of this run, in execution order.
    pub fn samples(&self, regime: ScenarioRegime) -> (r: Vec<MetricSample>)
        ensures
            sample_views(r@) == run_samples(
                outcome_views(self.outcomes@),
                self.run.name@,
                self.node_id@,
                regime,
                self.timestamp_ms,
            ),
    {
        let mut out: Vec<MetricSample> = Vec::new();
        let ghost all = outcome_views(self.outcomes@);
        let mut i: usize = 0;
        assert(all.take(0) =~= Seq::empty());
        assert(sample_views(out@) =~= Seq::empty());
        while i < self.outcomes.len()
            invariant
                i <= self.outcomes@.len(),
                all == outcome_views(self.outcomes@),
                sample_views(out@) == run_samples(
                    all.take(i as int),
                    self.run.name@,
                    self.node_id@,
                    regime,
                    self.timestamp_ms,
                ),
            decreases self.outcomes@.len() - i,
        {
            let ghost before = out@;
            proof {
                assert(all.take(i + 1).drop_last() =~= all.take(i as int));
            }
            match &self.outcomes[i].result {
                FaultResult::Injected(event) => {
                    let mut more = samples_for_fault_result(
                        event,
                        self.run.name.as_str(),
                        regime,
                        event.timestamp_ms,
                    );
                    let ghost added = more@;
                    out.append(&mut more);
                    assert(sample_views(out@) =~= sample_views(before) + sample_views(added));
                },
                FaultResult::Skipped(reason) => {
                    let one = sample_for_skipped_fault(
                        self.outcomes[i].fault_type,
                        self.node_id.as_str(),
                        self.run.name.as_str(),
                        *reason,
                        self.timestamp_ms,
                    );
                    out.push(one);
                    assert(sample_views(out@) =~= sample_views(before) + seq![one@]);
                },
            }
            i += 1;
        }
        assert(all.take(all.len() as int) =~= all);
        out
    }

    /// Records the samples of this run and its duration, and gives its report.
    pub fn finish(
        self,
        hub: &MetricsHub,
        regime: ScenarioRegime,
        total_duration_ms: u64,
    ) -> (r: ScenarioReport)
        ensures
            r@ == (ReportView {
                name: self.run.name@,
                seed: self.run.seed,
                regime,
                events: event_views(self.run.events@),
                total_duration_ms,
            }),
            exists|samples: Seq<MetricSample>, last: MetricSample|
                {
                    &&& #[trigger] took_all(*hub, samples)
                    &&& sample_views(samples) == run_samples(
                        outcome_views(self.outcomes@),
                        self.run.name@,
                        self.node_id@,
                        regime,
                        self.timestamp_ms,
                    )
                    &&& #[trigger] hub.took(&last)
                    &&& is_duration_sample(last@, self.run.name@, regime, total_duration_ms)
                },
    {
        let samples = self.samples(regime);
        hub.record_all(&samples);
        let report = self.run.into_report(regime, total_duration_ms);
        let last = sample_for_scenario_duration(&report);
        hub.record(&last);
        report
    }
}

impl ChaosScenario {
    /// Keeps the outcome of each injection of a run for the samples.
    pub fn meter(&self, ctx: &FaultContext, results: Vec<FaultResult>) -> (r: MeteredRun)
        requires
            results@.len() == self.members().len(),
        ensures
            r.node_id@ == ctx@.node_id,
            r.timestamp_ms == ctx@.timestamp_ms,
            r.run.name@ == self.title(),
            r.run.seed == self.shared_seed(),
            r.outcomes@.len() == self.members().len(),
            forall|i: int|
                0 <= i < r.outcomes@.len() ==> self.members()[i].is_kind(
                    (#[trigger] r.outcomes@[i]).fault_type@,
                ),
            bare_results(outcome_views(r.outcomes@)) == result_views(results@),
            event_views(r.run.events@) == injected_events(result_views(results@)),
            r.run.max_intensity == peak_intensity(injected_events(result_views(results@))),
    {
        let mut outcomes: Vec<FaultOutcome> = Vec::new();
        let mut i: usize = 0;
        while i < results.len()
            invariant
                i <= results@.len(),
                results@.len() == self.members().len(),
                outcomes@.len() == i,
                forall|j: int|
                    0 <= j < i ==> self.members()[j].is_kind(
                        (#[trigger] outcomes@[j]).fault_type@,
                    ) && outcomes@[j].result@ == results@[j]@,
            decreases results@.len() - i,
        {
            let fault_type = self.kind_at(i);
            outcomes.push(FaultOutcome { fault_type, result: results[i].clone() });
            i += 1;
        }
        assert(bare_results(outcome_views(outcomes@)) =~= result_views(results@));
        MeteredRun {
            run: self.gather(results),
            outcomes,
            node_id: ctx.node_id.clone(),
            timestamp_ms: ctx.timestamp_ms,
        }
    }

    /// Injects all faults in order, as [`ChaosScenario::run`] does, and keeps the
    /// outcome of each fault for the samples.
    pub fn run_with_metrics(&self, ctx: &mut FaultContext) -> (r: MeteredRun)
        ensures
            *final(ctx) == *old(ctx),
            r.node_id@ == old(ctx)@.node_id,
            r.timestamp_ms == old(ctx)@.timestamp_ms,
            r.run.name@ == self.title(),
            r.run.seed == self.shared_seed(),
            r.outcomes@.len() == self.members().len(),
            forall|i: int|
                0 <= i < r.outcomes@.len() ==> self.members()[i].is_kind(
                    (#[trigger] r.outcomes@[i]).fault_type@,
                ),
            self.outcomes(old(ctx)@, bare_results(outcome_views(r.outcomes@))),
            event_views(r.run.events@) == injected_events(
                bare_results(outcome_views(r.outcomes@)),
            ),
            r.run.max_intensity == peak_intensity(
                injected_events(bare_results(outcome_views(r.outcomes@))),
            ),
    {
        let results = self.inject_all(ctx);
        self.meter(ctx, results)
    }
}

} // verus!
