//! Laws of runs: what each fault leaves behind, what becomes of the outcomes, and what is
//! counted.

use crate::fault::{bounded_millis, unset_count, ContextView, Fault};
use crate::faults::any::{AnyFault, Effect};
use crate::faults::clock::JumpDirection;
use crate::faults::network::{all_inject, raised_base};
use crate::faults::resource::Load;
use crate::message::Sample;
use crate::metrics::{
    count_named, is_duration_sample, run_samples, skipped_sample, update_of, OutcomeView,
    SampleView, Update, FAULTS_INJECTED_TOTAL, FAULT_INTENSITY,
};
use crate::metrics::{MetricKind, MetricUnit};
use crate::metrics::prometheus::{kept_labels, label_names, without_node};
use crate::metrics::Series;
use crate::scalar::{nearest_count, Scalar};
use crate::scenario::{injected_events, ChaosScenario, ScenarioRegime};
use crate::topology::bayesian::marginal_in;
use crate::types::{DryRunView, EventView, FaultResult, ResultView, SkipReason};
use vstd::prelude::*;

verus! {

/// The events of a run are those of its injections, in order; what was skipped leaves none.
pub proof fn every_injection_leaves_its_event(results: Seq<ResultView>)
    ensures
        injected_events(results) == results.filter_map(
            |r: ResultView|
                match r {
                    ResultView::Injected(event) => Some(event),
                    ResultView::Skipped(_) => None,
                },
        ),
    decreases results.len(),
{
    if results.len() > 0 {
        every_injection_leaves_its_event(results.drop_last());
        if let ResultView::Injected(event) = results.last() {
            let front = injected_events(results.drop_last());
            assert(front.push(event) =~= front + seq![event]);
        }
    }
}

/// The seed that a fault of the library was given.
pub open spec fn own_seed(fault: AnyFault) -> u64 {
    match fault {
        AnyFault::NetworkPartition(f) => f.seed,
        AnyFault::PacketLoss(f) => f.seed,
        AnyFault::LatencySpike(f) => f.seed,
        AnyFault::BandwidthThrottle(f) => f.seed,
        AnyFault::MemoryPressure(f) => f.seed,
        AnyFault::CpuThrottle(f) => f.seed,
        AnyFault::ClockFreeze(f) => f.seed,
        AnyFault::ClockJump(f) => f.seed,
        AnyFault::LyingNode(f) => f.seed,
        AnyFault::PartialResponse(f) => f.seed,
        AnyFault::SlowCorrect(f) => f.seed,
        AnyFault::Custom(_) => 0,
    }
}

/// The intensity that a fault of the library was given; one for those that have none.
pub open spec fn own_intensity(fault: AnyFault) -> Scalar {
    match fault {
        AnyFault::NetworkPartition(f) => f.intensity,
        AnyFault::PacketLoss(f) => f.intensity,
        AnyFault::LatencySpike(f) => f.intensity,
        AnyFault::BandwidthThrottle(f) => f.intensity,
        AnyFault::MemoryPressure(f) => f.intensity,
        AnyFault::CpuThrottle(f) => f.fraction,
        AnyFault::LyingNode(f) => f.byzantine_probability,
        _ => Scalar { bits: 0x3FF0_0000_0000_0000 },
    }
}

/// Every fault of the library is injected, for real, on the node of the context, under its own
/// kind and seed and with its own intensity; but for the faults of clocks at the time of the
/// context.
pub proof fn injections_carry_the_fault(fault: AnyFault, ctx: ContextView, result: ResultView)
    requires
        !(fault is Custom),
        fault.injects(ctx, result),
    ensures
        result matches ResultView::Injected(e) && {
            &&& e.node_id == ctx.node_id
            &&& fault.is_kind(e.fault_type)
            &&& e.seed == own_seed(fault)
            &&& e.intensity == own_intensity(fault)
            &&& !e.dry_run
            &&& !(fault is ClockFreeze) && !(fault is ClockJump) ==> e.timestamp_ms
                == ctx.timestamp_ms
        },
{
}

/// The kind of each fault of the library has one name.
pub proof fn kinds_have_their_names(fault: AnyFault, kind: Seq<char>)
    requires
        !(fault is Custom),
    ensures
        fault.is_kind(kind) <==> kind == match fault {
            AnyFault::NetworkPartition(_) => "network_partition"@,
            AnyFault::PacketLoss(_) => "packet_loss"@,
            AnyFault::LatencySpike(_) => "latency_spike"@,
            AnyFault::BandwidthThrottle(_) => "bandwidth_throttle"@,
            AnyFault::MemoryPressure(_) => "memory_pressure"@,
            AnyFault::CpuThrottle(_) => "cpu_throttle"@,
            AnyFault::ClockFreeze(_) => "clock_freeze"@,
            AnyFault::ClockJump(_) => "clock_jump"@,
            AnyFault::LyingNode(_) => "lying_node"@,
            AnyFault::PartialResponse(_) => "partial_response"@,
            AnyFault::SlowCorrect(_) => "slow_correct"@,
            AnyFault::Custom(_) => kind,
        },
{
}

/// A frozen clock dates the event by what it shows; one that jumps by what it shows then: later
/// if it jumps forward, earlier if it jumps backward, by the size of the jump, as far as
/// timestamps reach.
pub proof fn clocks_date_their_events(fault: AnyFault, ctx: ContextView, result: ResultView) -> (now:
    u64)
    requires
        fault is ClockFreeze || fault is ClockJump,
        fault.injects(ctx, result),
    ensures
        result is Injected,
        match fault {
            AnyFault::ClockFreeze(f) => f.inner.reads(now) && result->Injected_0.timestamp_ms == now,
            AnyFault::ClockJump(f) => f.inner.reads(now) && match f.direction {
                JumpDirection::Forward => result->Injected_0.timestamp_ms == if now + f.jump_ms
                    > u64::MAX {
                    u64::MAX as int
                } else {
                    now + f.jump_ms
                },
                JumpDirection::Backward => result->Injected_0.timestamp_ms == if f.jump_ms > now {
                    0
                } else {
                    now - f.jump_ms
                },
            },
            _ => true,
        },
{
    let clock = match fault {
        AnyFault::ClockFreeze(f) => f.inner,
        AnyFault::ClockJump(f) => f.inner,
        _ => arbitrary(),
    };
    let delta = match fault {
        AnyFault::ClockJump(f) => f.direction.signed(f.jump_ms),
        _ => 0,
    };
    choose|now: u64| #[trigger]
        clock.reads(now) && result->Injected_0.timestamp_ms == crate::fault::jumped(now, delta)
}

/// A dry run of a fault of the library says that it would be injected, on the node of the
/// context and under its own kind.
pub proof fn previews_carry_the_fault(fault: AnyFault, ctx: ContextView, report: DryRunView)
    requires
        !(fault is Custom),
        fault.previews(ctx, report),
    ensures
        report.node_id == ctx.node_id,
        fault.is_kind(report.fault_type),
        report.would_inject,
{
}

/// Each fault of a scenario is run with the seed and the profile of the scenario, on the node
/// and at the time of the context, and gives one outcome, in the order of the faults.
pub proof fn faults_run_in_order(
    scenario: ChaosScenario,
    ctx: ContextView,
    results: Seq<ResultView>,
    i: int,
)
    requires
        scenario.outcomes(ctx, results),
        0 <= i < scenario.members().len(),
    ensures
        results.len() == scenario.members().len(),
        scenario.members()[i].injects(
            (ContextView {
                seed: scenario.shared_seed(),
                timestamp_ms: ctx.timestamp_ms,
                node_id: ctx.node_id,
                profile: scenario.stability().label@,
            }),
            results[i],
        ),
{
}

/// The samples of a run are those of its outcomes, one after the other: an injected fault is
/// counted by one and its intensity is shown, at the time of the event; a skipped one is
/// counted by one, at the time of the run.
pub proof fn every_outcome_has_its_samples(
    outcomes: Seq<OutcomeView>,
    scenario: Seq<char>,
    node_id: Seq<char>,
    regime: ScenarioRegime,
    timestamp_ms: u64,
)
    ensures
        run_samples(outcomes, scenario, node_id, regime, timestamp_ms) == outcomes.map_values(
            |o: OutcomeView|
                crate::metrics::outcome_samples(o, scenario, node_id, regime, timestamp_ms),
        ).flatten(),
    decreases outcomes.len(),
{
    if outcomes.len() > 0 {
        every_outcome_has_its_samples(
            outcomes.drop_last(),
            scenario,
            node_id,
            regime,
            timestamp_ms,
        );
        crate::laws::lists::flat_images_grow(
            outcomes,
            |o: OutcomeView|
                crate::metrics::outcome_samples(o, scenario, node_id, regime, timestamp_ms),
        );
    }
}

/// How a region is written in a label.
pub open spec fn region_word(regime: ScenarioRegime) -> Seq<char> {
    match regime {
        ScenarioRegime::Stable => "stable"@,
        ScenarioRegime::Sensitive => "sensitive"@,
        ScenarioRegime::Chaotic => "chaotic"@,
    }
}

/// What the samples of one outcome say.
pub proof fn samples_tell_the_outcome(
    outcome: OutcomeView,
    scenario: Seq<char>,
    node_id: Seq<char>,
    regime: ScenarioRegime,
    timestamp_ms: u64,
)
    ensures
        ({
            let samples = crate::metrics::outcome_samples(
                outcome,
                scenario,
                node_id,
                regime,
                timestamp_ms,
            );
            match outcome.result {
                ResultView::Injected(e) => {
                    &&& samples.len() == 2
                    &&& samples[0].name == FAULTS_INJECTED_TOTAL@
                    &&& samples[0].kind == MetricKind::Counter
                    &&& samples[0].value == (Scalar { bits: 0x3FF0_0000_0000_0000 })
                    &&& samples[0].timestamp_ms == e.timestamp_ms
                    &&& samples[0].labels.contains(("fault_type"@, e.fault_type))
                    &&& samples[0].labels.contains(("node_id"@, e.node_id))
                    &&& samples[0].labels.contains(("scenario"@, scenario))
                    &&& samples[0].labels.contains(
                        (
                            "dry_run"@,
                            if e.dry_run {
                                "true"@
                            } else {
                                "false"@
                            },
                        ),
                    )
                    &&& samples[0].labels.contains(("regime"@, region_word(regime)))
                    &&& samples[0].labels.len() == 5
                    &&& samples[0].unit == MetricUnit::Count
                    &&& samples[1].unit == MetricUnit::Ratio
                    &&& samples[1].labels.len() == 3
                    &&& samples[1].name == FAULT_INTENSITY@
                    &&& samples[1].kind == MetricKind::Gauge
                    &&& samples[1].value == e.intensity
                    &&& samples[1].timestamp_ms == e.timestamp_ms
                    &&& samples[1].labels.contains(("fault_type"@, e.fault_type))
                    &&& samples[1].labels.contains(("node_id"@, e.node_id))
                    &&& samples[1].labels.contains(("scenario"@, scenario))
                },
                ResultView::Skipped(reason) => {
                    &&& samples.len() == 1
                    &&& samples[0].name == crate::metrics::FAULTS_SKIPPED_TOTAL@
                    &&& samples[0].kind == MetricKind::Counter
                    &&& samples[0].unit == MetricUnit::Count
                    &&& samples[0].value == (Scalar { bits: 0x3FF0_0000_0000_0000 })
                    &&& samples[0].timestamp_ms == timestamp_ms
                    &&& samples[0].labels.len() == 4
                    &&& samples[0].labels.contains(
                        (
                            "skip_reason"@,
                            match reason {
                                SkipReason::BelowThreshold => "below_threshold"@,
                                SkipReason::DryRun => "dry_run"@,
                                SkipReason::Cancelled => "cancelled"@,
                            },
                        ),
                    )
                    &&& samples[0].labels.contains(("fault_type"@, outcome.fault_type))
                    &&& samples[0].labels.contains(("node_id"@, node_id))
                    &&& samples[0].labels.contains(("scenario"@, scenario))
                },
            }
        }),
{
    let samples = crate::metrics::outcome_samples(
        outcome,
        scenario,
        node_id,
        regime,
        timestamp_ms,
    );
    match outcome.result {
        ResultView::Injected(e) => {
            let a = samples[0].labels;
            let b = samples[1].labels;
            assert(a[0] == ("fault_type"@, e.fault_type) && a[1] == ("node_id"@, e.node_id) && a[2]
                == ("scenario"@, scenario) && a[4].0 == "dry_run"@);
            assert(a.contains(a[0]) && a.contains(a[1]) && a.contains(a[2]) && a.contains(a[3]) && a.contains(a[4]));
            assert(b[0] == a[0] && b[1] == a[1] && b[2] == a[2]);
            assert(b.contains(b[0]) && b.contains(b[1]) && b.contains(b[2]));
        },
        ResultView::Skipped(reason) => {
            let a = skipped_sample(
                outcome.fault_type,
                node_id,
                scenario,
                reason,
                timestamp_ms,
            ).labels;
            assert(a.contains(a[0]) && a.contains(a[1]) && a.contains(a[2]) && a.contains(a[3]));
        },
    }
}

/// The samples under a name are counted one by one.
pub proof fn samples_are_counted(samples: Seq<SampleView>, name: Seq<char>)
    ensures
        count_named(samples, name) == samples.filter(|s: SampleView| s.name == name).len(),
    decreases samples.len(),
{
    reveal(Seq::filter);
    if samples.len() > 0 {
        samples_are_counted(samples.drop_last(), name);
    }
}

/// The flags that are not set are counted one by one: as many as there are places that hold
/// one.
pub proof fn unset_flags_are_counted(flags: Seq<bool>)
    ensures
        unset_count(flags) == flags.filter(|b: bool| !b).len(),
        unset_count(flags) == Set::new(|i: int| 0 <= i < flags.len() && !flags[i]).len(),
    decreases flags.len(),
{
    flags_are_filtered(flags);
    let p = |b: bool| !b;
    crate::laws::lists::places_are_counted(flags, p);
    assert(Set::new(|i: int| 0 <= i < flags.len() && !flags[i]) =~= Set::new(
        |i: int| 0 <= i < flags.len() && p(flags[i]),
    ));
}

proof fn flags_are_filtered(flags: Seq<bool>)
    ensures
        unset_count(flags) == flags.filter(|b: bool| !b).len(),
    decreases flags.len(),
{
    reveal(Seq::filter);
    if flags.len() > 0 {
        flags_are_filtered(flags.drop_last());
    }
}

/// Dropping the node from labels takes away the labels of the node and keeps all others, in
/// order.
pub proof fn only_the_node_is_dropped(labels: Seq<(Seq<char>, Seq<char>)>)
    ensures
        without_node(labels) == labels.filter(|l: (Seq<char>, Seq<char>)| l.0 != "node_id"@),
    decreases labels.len(),
{
    reveal(Seq::filter);
    if labels.len() > 0 {
        only_the_node_is_dropped(labels.drop_last());
    }
}

/// A series without the node has the labels of the series with it, but for the node.
pub proof fn series_lose_the_node_alone(series: Series)
    ensures
        label_names(series, true) == label_names(series, false).filter(
            |n: Seq<char>| n != "node_id"@,
        ),
        series != Series::ScenarioDuration ==> label_names(series, false).contains("node_id"@),
{
    reveal_strlit("node_id");
    reveal_strlit("fault_type");
    reveal_strlit("scenario");
    reveal_strlit("regime");
    reveal_strlit("dry_run");
    reveal_strlit("skip_reason");
    assert("dry_run"@[0] == 'd' && "node_id"@[0] == 'n');
    assert("fault_type"@.len() == 10 && "node_id"@.len() == 7 && "scenario"@.len() == 8
        && "regime"@.len() == 6 && "skip_reason"@.len() == 11);
    let p = |n: Seq<char>| n != "node_id"@;
    let all = label_names(series, false);
    reveal_with_fuel(Seq::filter, 6);
    if series != Series::ScenarioDuration {
        assert(all[1] == "node_id"@);
    }
    match series {
        Series::FaultsInjected => {
            assert(all =~= seq!["fault_type"@].push("node_id"@).push("scenario"@).push(
                "regime"@,
            ).push("dry_run"@));
        },
        Series::FaultsSkipped => {
            assert(all =~= seq!["fault_type"@].push("node_id"@).push("scenario"@).push(
                "skip_reason"@,
            ));
        },
        Series::FaultIntensity => {
            assert(all =~= seq!["fault_type"@].push("node_id"@).push("scenario"@));
        },
        Series::FaultLatency => {
            assert(all =~= seq!["fault_type"@].push("node_id"@));
        },
        Series::ScenarioDuration => {
            assert(all =~= seq!["scenario"@].push("regime"@));
        },
    }
    broadcast use vstd::seq_lib::group_seq_properties;

    assert(label_names(series, true) =~= all.filter(p));
}

/// The probability of a node is that of its first entry, and zero without an entry.
pub proof fn first_entry_gives_the_probability(
    values: Seq<(Seq<char>, Scalar)>,
    node: Seq<char>,
    k: int,
)
    ensures
        0 <= k < values.len() && values[k].0 == node && (forall|j: int|
            0 <= j < k ==> (#[trigger] values[j]).0 != node) ==> marginal_in(values, node)
            == values[k].1,
        (forall|j: int| 0 <= j < values.len() ==> (#[trigger] values[j]).0 != node) ==> marginal_in(
            values,
            node,
        ) == (Scalar { bits: 0 }),
    decreases values.len(),
{
    if values.len() > 0 {
        let rest = values.drop_first();
        first_entry_gives_the_probability(rest, node, k - 1);
        assert(forall|j: int| 0 <= j < rest.len() ==> #[trigger] rest[j] == values[j + 1]);
        if forall|j: int| 0 <= j < values.len() ==> (#[trigger] values[j]).0 != node {
            assert forall|j: int| 0 <= j < rest.len() implies (#[trigger] rest[j]).0 != node by {
                assert(values[j + 1].0 != node);
            }
        }
        if 0 < k < values.len() && (forall|j: int| 0 <= j < k ==> (#[trigger] values[j]).0 != node) {
            assert forall|j: int| 0 <= j < k - 1 implies (#[trigger] rest[j]).0 != node by {
                assert(values[j + 1].0 != node);
            }
        }
    }
}

/// The duration of a run is one sample of a histogram: its milliseconds, as far as 32 bits
/// reach, under the name and the region of the run.
pub proof fn durations_are_sampled(
    sample: SampleView,
    name: Seq<char>,
    regime: ScenarioRegime,
    total_duration_ms: u64,
)
    requires
        is_duration_sample(sample, name, regime, total_duration_ms),
    ensures
        sample.kind == MetricKind::Histogram,
        sample.unit == MetricUnit::Milliseconds,
        total_duration_ms <= u32::MAX ==> sample.value == Scalar::of_count(
            total_duration_ms as u32,
        ),
        total_duration_ms > u32::MAX ==> sample.value == Scalar::of_count(u32::MAX),
        sample.labels == seq![("scenario"@, name), ("regime"@, region_word(regime))],
        sample.timestamp_ms == total_duration_ms,
{
}

/// A counter is added to, a gauge is replaced and a histogram observes; the series of the library
/// are of the kind that their samples say.
pub proof fn kinds_decide_the_update(value: Scalar)
    ensures
        update_of(MetricKind::Counter, value) == Update::Add(nearest_count(value)),
        update_of(MetricKind::Gauge, value) == Update::Replace(value),
        update_of(MetricKind::Histogram, value) == Update::Observe(value),
        Series::FaultsInjected.sort() == MetricKind::Counter,
        Series::FaultsSkipped.sort() == MetricKind::Counter,
        Series::FaultIntensity.sort() == MetricKind::Gauge,
        Series::FaultLatency.sort() == MetricKind::Histogram,
        Series::ScenarioDuration.sort() == MetricKind::Histogram,
{
}

/// Memory pressure and a busy processor put a load on the process, a slow answer delays it, each
/// with the figures of its fault; no other fault of the library touches the process.
pub proof fn faults_do_their_own_work(fault: AnyFault)
    ensures
        fault matches AnyFault::MemoryPressure(f) ==> fault.work() == Effect::Load(
            Load::Memory {
                ratio: f.intensity,
                max_bytes: f.max_bytes,
                duration_ms: f.duration_ms,
            },
        ),
        fault matches AnyFault::CpuThrottle(f) ==> fault.work() == Effect::Load(
            Load::Processor { fraction: f.fraction, duration_ms: f.duration_ms, seed: f.seed },
        ),
        fault matches AnyFault::SlowCorrect(f) ==> fault.work() == Effect::Delay(
            Sample::LogNormal { mu: f.mu, sigma: f.sigma, seed: f.seed },
        ),
        !(fault is MemoryPressure) && !(fault is CpuThrottle) && !(fault is SlowCorrect)
            ==> fault.work() == Effect::Silent,
{
}

/// Faults that are injected together are injected in the same context, each by itself and in
/// order.
pub proof fn groups_inject_each_member(
    faults: Seq<AnyFault>,
    ctx: ContextView,
    results: Seq<FaultResult>,
    i: int,
)
    requires
        all_inject(faults, ctx, results),
        0 <= i < faults.len(),
    ensures
        results.len() == faults.len(),
        faults[i].injects(ctx, results[i]@),
{
    assert(faults[i].injects(ctx, results[i]@));
}

/// The base of a latency is raised to the smallest one and otherwise kept.
pub proof fn small_bases_are_raised(base_ms: Scalar)
    ensures
        (Scalar { bits: 0x3CB0_0000_0000_0000 }).below(base_ms) ==> raised_base(base_ms) == base_ms,
        !(Scalar { bits: 0x3CB0_0000_0000_0000 }).below(base_ms) ==> raised_base(base_ms) == (
        Scalar { bits: 0x3CB0_0000_0000_0000 }),
{
}

/// A reading of the system clock is kept as far as timestamps reach; without one it is zero.
pub proof fn readings_are_kept(ms: u128)
    ensures
        ms <= u64::MAX ==> bounded_millis(Some(ms)) == ms,
        ms > u64::MAX ==> bounded_millis(Some(ms)) == u64::MAX,
        bounded_millis(None) == 0,
{
}

/// Labels lose the node exactly if that was asked for, and those of a whole run never do.
pub proof fn labels_are_kept(series: Series, labels: Seq<(Seq<char>, Seq<char>)>)
    ensures
        kept_labels(series, labels, false) == labels,
        series == Series::ScenarioDuration ==> kept_labels(series, labels, true) == labels,
        series != Series::ScenarioDuration ==> kept_labels(series, labels, true) == labels.filter(
            |l: (Seq<char>, Seq<char>)| l.0 != "node_id"@,
        ),
{
    only_the_node_is_dropped(labels);
}

} // verus!
