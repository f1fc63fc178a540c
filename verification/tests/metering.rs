use std::sync::{Arc, Mutex, MutexGuard};

use malcolm::fault::{Fault, FaultContext};
use malcolm::faults::any::AnyFault;
use malcolm::faults::network::PacketLoss;
use malcolm::message::Message;
use malcolm::metrics::otel::{OtelRecorderState, OtelRoute};
use malcolm::metrics::prometheus::{PrometheusRecorder, Route};
use malcolm::metrics::{
    sample_for_fault_latency, sample_for_scenario_duration, sample_for_skipped_fault,
    samples_for_fault_result, MetricKind, MetricSample, MetricUnit, MetricsHub, MetricsRecorder,
    NoopRecorder, Series, UnknownNames, Update, FAULTS_INJECTED_TOTAL, FAULTS_SKIPPED_TOTAL,
    FAULT_INTENSITY, FAULT_LATENCY_MS, SCENARIO_DURATION_MS,
};
use malcolm::scalar::Scalar;
use malcolm::scenario::{ChaosScenario, ScenarioRegime, ScenarioReport};
use malcolm::types::{BifurcationProfile, DryRunReport, FaultEvent, FaultResult, SkipReason};

fn s(x: f64) -> Scalar {
    Scalar::from_bits(x.to_bits())
}

fn lock_or_recover<T>(mutex: &Mutex<T>) -> MutexGuard<'_, T> {
    match mutex.lock() {
        Ok(guard) => guard,
        Err(poisoned) => poisoned.into_inner(),
    }
}

struct AlwaysBelowThreshold;

impl Fault for AlwaysBelowThreshold {
    fn inject(&self, _ctx: &FaultContext) -> FaultResult {
        FaultResult::Skipped(SkipReason::BelowThreshold)
    }
    fn dry_run(&self, _ctx: &FaultContext) -> DryRunReport {
        DryRunReport {
            fault_type: "always_below_threshold".to_owned(),
            node_id: String::new(),
            would_inject: false,
            reason: Message::text("below threshold"),
        }
    }
    fn fault_type(&self) -> &'static str {
        "always_below_threshold"
    }
}

#[derive(Default)]
struct CollectingRecorder(Mutex<Vec<MetricSample>>);

impl MetricsRecorder for CollectingRecorder {
    fn record(&self, sample: &MetricSample) {
        lock_or_recover(&self.0).push(sample.clone());
    }
}

fn sample_ctx(seed: u64) -> FaultContext {
    FaultContext {
        seed,
        timestamp_ms: 0,
        node_id: "node-0".to_owned(),
        profile: BifurcationProfile::network_partition(),
    }
}

fn loss(seed: u64) -> PacketLoss {
    PacketLoss::builder().seed(seed).intensity(s(0.9)).build()
}

fn count_name(samples: &[MetricSample], name: &str) -> usize {
    samples.iter().filter(|s| s.name == name).count()
}

fn label<'a>(sample: &'a MetricSample, key: &str) -> Option<&'a str> {
    sample
        .labels
        .iter()
        .find(|(k, _)| *k == key)
        .map(|(_, v)| v.as_str())
}

fn bare(name: &'static str) -> MetricSample {
    MetricSample {
        name,
        kind: MetricKind::Counter,
        value: s(1.0),
        unit: MetricUnit::Count,
        labels: Vec::new(),
        timestamp_ms: 0,
    }
}

fn event() -> FaultEvent {
    FaultEvent {
        fault_type: "packet_loss".to_owned(),
        node_id: "ephemeral-pod-1234".to_owned(),
        seed: 1,
        intensity: s(0.5),
        dry_run: false,
        timestamp_ms: 1,
    }
}

#[test]
fn noop_recorder_accepts_samples_without_panicking() {
    let rec = NoopRecorder;
    rec.record(&bare(FAULTS_INJECTED_TOTAL));
}

#[test]
fn empty_hub_records_nothing() {
    let hub = MetricsHub::new();
    let recorder = Arc::new(CollectingRecorder::default());
    hub.record(&bare(FAULTS_INJECTED_TOTAL));
    assert_eq!(lock_or_recover(&recorder.0).len(), 0);
    assert_eq!(hub.recorder_count(), 0);
}

#[test]
fn copied_hubs_share_their_recorders() {
    let a = Arc::new(CollectingRecorder::default());
    let hub = MetricsHub::default().with_recorder(a.clone());
    let copy = hub.clone();
    assert_eq!(copy.recorder_count(), 1);
    copy.record(&bare(FAULTS_INJECTED_TOTAL));
    hub.record(&bare(FAULTS_INJECTED_TOTAL));
    assert_eq!(lock_or_recover(&a.0).len(), 2);
}

#[test]
fn hub_fans_out_to_every_registered_recorder() {
    let a = Arc::new(CollectingRecorder::default());
    let b = Arc::new(CollectingRecorder::default());
    let hub = MetricsHub::new()
        .with_recorder(a.clone())
        .with_recorder(b.clone());
    let mut sample = bare(FAULTS_INJECTED_TOTAL);
    sample.labels = vec![("fault_type", "packet_loss".to_owned())];
    hub.record(&sample);
    assert_eq!(lock_or_recover(&a.0).len(), 1);
    assert_eq!(lock_or_recover(&b.0).len(), 1);
    assert_eq!(hub.recorder_count(), 2);
    assert_eq!(lock_or_recover(&a.0)[0], sample);
}

#[test]
fn hubs_nest_and_take_lists() {
    let a = Arc::new(CollectingRecorder::default());
    let inner = MetricsHub::new().with_recorders(vec![a.clone(), a.clone()]);
    assert_eq!(inner.recorder_count(), 2);
    let outer = MetricsHub::new().with_recorder(Arc::new(inner));
    outer.record(&bare(FAULTS_INJECTED_TOTAL));
    assert_eq!(lock_or_recover(&a.0).len(), 2);
}

#[test]
fn scenario_emits_one_injected_counter_per_fault() {
    let recorder = Arc::new(CollectingRecorder::default());
    let hub = MetricsHub::new().with_recorder(recorder.clone());
    let scenario = ChaosScenario::builder()
        .name("metrics-wiring")
        .seed(1337)
        .add_fault(loss(42))
        .add_fault(loss(43))
        .profile(BifurcationProfile::network_partition())
        .build();
    let mut ctx = sample_ctx(1337);
    let _report = scenario
        .run_with_metrics(&mut ctx)
        .finish(&hub, ScenarioRegime::Chaotic, 3);
    let samples = lock_or_recover(&recorder.0).clone();
    assert_eq!(
        count_name(&samples, FAULTS_INJECTED_TOTAL),
        2,
        "expected one injected counter per fault, samples={samples:?}",
    );
    assert_eq!(count_name(&samples, FAULT_INTENSITY), 2);
    assert!(samples.iter().any(|s| s.name == SCENARIO_DURATION_MS));
    for s in samples.iter().filter(|s| s.name == FAULTS_INJECTED_TOTAL) {
        assert_eq!(label(s, "fault_type"), Some("packet_loss"));
        assert_eq!(label(s, "scenario"), Some("metrics-wiring"));
        assert_eq!(label(s, "node_id"), Some("node-0"));
        assert_eq!(label(s, "regime"), Some("chaotic"));
        assert_eq!(label(s, "dry_run"), Some("false"));
    }
}

#[test]
fn scenario_emits_skipped_counter_with_reason_label() {
    let recorder = Arc::new(CollectingRecorder::default());
    let hub = MetricsHub::new().with_recorder(recorder.clone());
    let scenario = ChaosScenario::builder()
        .name("skipped-only")
        .seed(1337)
        .add_fault(AnyFault::Custom(Box::new(AlwaysBelowThreshold)))
        .profile(BifurcationProfile::network_partition())
        .build();
    let mut ctx = sample_ctx(1337);
    let _report = scenario
        .run_with_metrics(&mut ctx)
        .finish(&hub, ScenarioRegime::Stable, 0);
    let samples = lock_or_recover(&recorder.0).clone();
    let skipped: Vec<_> = samples
        .iter()
        .filter(|s| s.name == FAULTS_SKIPPED_TOTAL)
        .collect();
    assert_eq!(skipped.len(), 1);
    assert_eq!(label(skipped[0], "skip_reason"), Some("below_threshold"));
    assert_eq!(
        label(skipped[0], "fault_type"),
        Some("always_below_threshold")
    );
    assert_eq!(count_name(&samples, FAULTS_INJECTED_TOTAL), 0);
}

#[test]
fn run_without_hub_is_byte_identical_to_run_with_empty_hub() {
    let scenario = ChaosScenario::builder()
        .name("noop-compat")
        .seed(99)
        .add_fault(loss(7))
        .profile(BifurcationProfile::network_partition())
        .build();
    let report_a = scenario
        .run(&mut sample_ctx(99))
        .into_report(ScenarioRegime::Chaotic, 1);
    let report_b = scenario.run_with_metrics(&mut sample_ctx(99)).finish(
        &MetricsHub::new(),
        ScenarioRegime::Chaotic,
        1,
    );
    assert_eq!(report_a.name, report_b.name);
    assert_eq!(report_a.seed, report_b.seed);
    assert_eq!(report_a.regime, report_b.regime);
    assert_eq!(report_a.events.len(), report_b.events.len());
    for (a, b) in report_a.events.iter().zip(report_b.events.iter()) {
        assert_eq!(a, b);
    }
}

#[test]
fn samples_for_fault_result_produces_injected_and_intensity() {
    let event = FaultEvent {
        fault_type: "latency_spike".to_owned(),
        node_id: "node-1".to_owned(),
        seed: 7,
        intensity: s(0.5),
        dry_run: false,
        timestamp_ms: 1234,
    };
    let samples = samples_for_fault_result(&event, "demo", ScenarioRegime::Sensitive, 1234);
    assert_eq!(samples.len(), 2);
    let injected = samples.first().expect("expected first sample");
    assert_eq!(injected.name, FAULTS_INJECTED_TOTAL);
    assert_eq!(f64::from_bits(injected.value.to_bits()), 1.0);
    let intensity = samples.get(1).expect("expected second sample");
    assert_eq!(intensity.name, FAULT_INTENSITY);
    assert_eq!(f64::from_bits(intensity.value.to_bits()), 0.5);
    assert_eq!(intensity.unit, MetricUnit::Ratio);
}

#[test]
fn sample_for_skipped_fault_carries_skip_reason() {
    let sample =
        sample_for_skipped_fault("memory_pressure", "node-2", "demo", SkipReason::DryRun, 99);
    assert_eq!(sample.name, FAULTS_SKIPPED_TOTAL);
    assert_eq!(label(&sample, "skip_reason"), Some("dry_run"));
    let other = sample_for_skipped_fault("m", "n", "d", SkipReason::Cancelled, 1);
    assert_eq!(label(&other, "skip_reason"), Some("cancelled"));
}

#[test]
fn sample_for_scenario_duration_uses_report_label() {
    let mut report = ScenarioReport {
        name: "demo".to_owned(),
        seed: 1,
        regime: ScenarioRegime::Chaotic,
        events: Vec::new(),
        total_duration_ms: 250,
    };
    let sample = sample_for_scenario_duration(&report);
    assert_eq!(sample.name, SCENARIO_DURATION_MS);
    assert_eq!(f64::from_bits(sample.value.to_bits()), 250.0);
    assert_eq!(label(&sample, "scenario"), Some("demo"));
    assert_eq!(label(&sample, "regime"), Some("chaotic"));
    report.total_duration_ms = u64::MAX;
    let long = sample_for_scenario_duration(&report);
    assert_eq!(f64::from_bits(long.value.to_bits()), f64::from(u32::MAX));
    assert_eq!(long.timestamp_ms, u64::MAX);
}

#[test]
fn sample_for_latency_is_a_histogram() {
    let sample = sample_for_fault_latency("latency_spike", "n", s(12.5), 3);
    assert_eq!(sample.name, FAULT_LATENCY_MS);
    assert_eq!(sample.kind, MetricKind::Histogram);
    assert_eq!(sample.unit, MetricUnit::Milliseconds);
    assert_eq!(sample.value, s(12.5));
    assert_eq!(sample.labels.len(), 2);
}

#[test]
fn samples_reach_their_series() {
    let mut recorder = PrometheusRecorder::new();
    let samples = samples_for_fault_result(&event(), "demo", ScenarioRegime::Stable, 1);
    assert_eq!(
        recorder.route(&samples[0]),
        Route::Deliver {
            series: Series::FaultsInjected,
            labels: vec![
                "packet_loss".to_owned(),
                "ephemeral-pod-1234".to_owned(),
                "demo".to_owned(),
                "stable".to_owned(),
                "false".to_owned(),
            ],
            update: Update::Add(1),
        }
    );
    assert_eq!(
        recorder.route(&sample_for_fault_latency("x", "n", s(2.5), 0)),
        Route::Deliver {
            series: Series::FaultLatency,
            labels: vec!["x".to_owned(), "n".to_owned()],
            update: Update::Observe(s(2.5)),
        }
    );
}

#[test]
fn dropping_node_id_omits_label_from_rendered_output() {
    let mut recorder = PrometheusRecorder::dropping_high_cardinality_labels();
    let report = ScenarioReport {
        name: "demo".to_owned(),
        seed: 1,
        regime: ScenarioRegime::Stable,
        events: Vec::new(),
        total_duration_ms: 5,
    };
    let mut samples = samples_for_fault_result(&event(), "demo", ScenarioRegime::Stable, 1);
    samples.push(sample_for_skipped_fault(
        "memory_pressure",
        "ephemeral-pod-1234",
        "demo",
        SkipReason::BelowThreshold,
        1,
    ));
    samples.push(sample_for_scenario_duration(&report));
    let mut kinds = Vec::new();
    for sample in &samples {
        match recorder.route(sample) {
            Route::Deliver { labels, series, .. } => {
                assert!(!labels.contains(&"ephemeral-pod-1234".to_owned()));
                kinds.push(series);
            }
            other => panic!("not delivered: {other:?}"),
        }
    }
    assert_eq!(
        kinds,
        vec![
            Series::FaultsInjected,
            Series::FaultIntensity,
            Series::FaultsSkipped,
            Series::ScenarioDuration
        ]
    );
    for family in recorder.registry() {
        assert!(!family.labels.contains(&"node_id"));
    }
}

#[test]
fn unknown_metric_name_is_logged_and_skipped_without_panic() {
    let mut recorder = PrometheusRecorder::new();
    let bogus = bare("malcolm_does_not_exist");
    assert_eq!(recorder.route(&bogus), Route::Unknown { first: true });
    assert_eq!(recorder.route(&bogus), Route::Unknown { first: false });
}

#[test]
fn labels_that_do_not_fit_are_skipped() {
    let mut recorder = PrometheusRecorder::new();
    assert_eq!(recorder.route(&bare(FAULTS_INJECTED_TOTAL)), Route::Misfit);
}

#[test]
fn families_are_registered_once_each() {
    let families = PrometheusRecorder::new().registry();
    let names: Vec<&str> = families.iter().map(|f| f.series.name()).collect();
    assert_eq!(
        names,
        vec![
            FAULTS_INJECTED_TOTAL,
            FAULTS_SKIPPED_TOTAL,
            FAULT_INTENSITY,
            FAULT_LATENCY_MS,
            SCENARIO_DURATION_MS
        ]
    );
    assert_eq!(families[3].labels, vec!["fault_type", "node_id"]);
    assert_eq!(families[0].help, "Total faults successfully injected.");
    assert_eq!(families[2].series.kind(), MetricKind::Gauge);
}

#[test]
fn unknown_metric_name_is_warned_and_skipped_without_panic() {
    let mut state = OtelRecorderState::new();
    let bogus = bare("malcolm_does_not_exist");
    assert_eq!(state.route(&bogus), OtelRoute::Unknown(true));
    assert_eq!(state.route(&bogus), OtelRoute::Unknown(false));
}

#[test]
fn shutdown_begins_once() {
    let mut state = OtelRecorderState::new();
    assert!(state.begin_shutdown());
    assert!(!state.begin_shutdown());
}

#[test]
fn nothing_is_delivered_after_a_shutdown() {
    let mut state = OtelRecorderState::new();
    let sample = sample_for_skipped_fault(
        "memory_pressure",
        "node-7",
        "otel-closed",
        SkipReason::BelowThreshold,
        1,
    );
    assert!(matches!(state.route(&sample), OtelRoute::Deliver(_, _)));
    assert!(state.begin_shutdown());
    assert_eq!(state.route(&sample), OtelRoute::Closed);
}

#[test]
fn skipped_sample_routes_through_recorder_without_panic() {
    let mut state = OtelRecorderState::new();
    let sample = sample_for_skipped_fault(
        "memory_pressure",
        "node-7",
        "otel-skipped",
        SkipReason::BelowThreshold,
        1,
    );
    assert_eq!(
        state.route(&sample),
        OtelRoute::Deliver(Series::FaultsSkipped, Update::Add(1))
    );
}

#[test]
fn duration_sample_routes_through_recorder_without_panic() {
    let mut state = OtelRecorderState::new();
    let report = ScenarioReport {
        name: "demo".to_owned(),
        seed: 1,
        regime: ScenarioRegime::Stable,
        events: Vec::new(),
        total_duration_ms: 42,
    };
    assert_eq!(
        state.route(&sample_for_scenario_duration(&report)),
        OtelRoute::Deliver(Series::ScenarioDuration, Update::Observe(s(42.0)))
    );
}

#[test]
fn names_are_reported_once() {
    let mut names = UnknownNames::new();
    assert!(names.warn_once("a"));
    assert!(!names.warn_once("a"));
    assert!(names.warn_once("b"));
}
