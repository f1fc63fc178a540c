use malcolm::fault::{Fault, FaultContext, MockClock};
use malcolm::faults::any::{AnyFault, Effect, IntoFault};
use malcolm::faults::byzantine::SlowCorrect;
use malcolm::faults::clock::{ClockJump, JumpDirection};
use malcolm::faults::network::PacketLoss;
use malcolm::faults::resource::{CpuThrottle, Load, MemoryPressure};
use malcolm::macro_dsl::inline_scenario;
use malcolm::message::{Message, Sample};
use malcolm::presets::{clock_drift, clock_drift_size, preset, PRESET_NAMES};
use malcolm::scalar::Scalar;
use malcolm::scenario::{tally, ChaosScenario, ScenarioRegime};
use malcolm::topology::Topology;
use malcolm::types::{BifurcationProfile, DryRunReport, FaultEvent, FaultResult, SkipReason};

fn s(x: f64) -> Scalar {
    Scalar::from_bits(x.to_bits())
}

struct AlwaysSkipFault;

impl Fault for AlwaysSkipFault {
    fn inject(&self, _ctx: &FaultContext) -> FaultResult {
        FaultResult::Skipped(SkipReason::DryRun)
    }

    fn dry_run(&self, ctx: &FaultContext) -> DryRunReport {
        DryRunReport {
            fault_type: self.fault_type().to_owned(),
            node_id: ctx.node_id.clone(),
            would_inject: false,
            reason: Message::text("skipped in test"),
        }
    }

    fn fault_type(&self) -> &'static str {
        "always_skip"
    }
}

fn make_ctx(seed: u64, node: &str) -> FaultContext {
    FaultContext {
        seed,
        timestamp_ms: 42,
        node_id: node.to_owned(),
        profile: BifurcationProfile::network_partition(),
    }
}

fn loss(seed: u64, intensity: f64) -> PacketLoss {
    PacketLoss::builder().seed(seed).intensity(s(intensity)).build()
}

fn event(intensity: f64) -> FaultEvent {
    FaultEvent {
        fault_type: "x".to_owned(),
        node_id: "n".to_owned(),
        seed: 1,
        intensity: s(intensity),
        dry_run: false,
        timestamp_ms: 2,
    }
}

#[test]
fn same_seed_and_faults_produce_identical_reports() {
    let build = || {
        ChaosScenario::builder()
            .name("deterministic")
            .seed(7)
            .add_fault(loss(11, 0.8))
            .profile(BifurcationProfile::network_partition())
            .build()
    };
    let report_a = build()
        .run(&mut make_ctx(7, "node-a"))
        .into_report(ScenarioRegime::Chaotic, 1);
    let report_b = build()
        .run(&mut make_ctx(7, "node-a"))
        .into_report(ScenarioRegime::Chaotic, 2);
    assert_eq!(report_a.name, report_b.name);
    assert_eq!(report_a.seed, report_b.seed);
    assert_eq!(report_a.regime, report_b.regime);
    assert_eq!(report_a.events, report_b.events);
}

#[test]
fn dry_run_returns_no_side_effects_for_mock_fault() {
    let scenario = ChaosScenario::builder()
        .name("dry-run")
        .seed(9)
        .add_fault(AnyFault::Custom(Box::new(AlwaysSkipFault)))
        .profile(BifurcationProfile::network_partition())
        .build();
    let ctx = make_ctx(9, "dry-node");
    let report = scenario.dry_run(&ctx);
    assert_eq!(report.name, "dry-run");
    assert_eq!(report.fault_reports.len(), 1);
    assert!(!report.would_inject_any);
    let first_report = report.fault_reports.first().expect("one report");
    assert_eq!(first_report.fault_type, "always_skip");
}

#[test]
fn dry_run_tells_whether_anything_would_be_injected() {
    let scenario = ChaosScenario::builder()
        .add_fault(AnyFault::Custom(Box::new(AlwaysSkipFault)))
        .add_fault(loss(1, 0.5))
        .build();
    let report = scenario.dry_run(&make_ctx(0, "n"));
    assert!(report.would_inject_any);
    assert_eq!(report.clone(), report);
    assert_eq!(report.name, "default-scenario");
    assert_eq!(report.seed, 0);
}

#[test]
fn peak_intensity_is_the_largest() {
    let results = vec![
        FaultResult::Injected(event(0.25)),
        FaultResult::Skipped(SkipReason::Cancelled),
        FaultResult::Injected(event(0.75)),
        FaultResult::Injected(event(f64::NAN)),
        FaultResult::Injected(event(0.5)),
    ];
    let (events, peak) = tally(results);
    assert_eq!(events.len(), 4);
    assert_eq!(peak, s(0.75));
    let (none, zero) = tally(vec![FaultResult::Injected(event(-1.0))]);
    assert_eq!(none.len(), 1);
    assert_eq!(zero, s(0.0));
}

#[test]
fn scenario_seed_and_profile_reach_the_faults() {
    struct Echo;
    impl Fault for Echo {
        fn inject(&self, ctx: &FaultContext) -> FaultResult {
            FaultResult::Injected(FaultEvent {
                fault_type: ctx.profile.label.to_owned(),
                node_id: ctx.node_id.clone(),
                seed: ctx.seed,
                intensity: s(0.5),
                dry_run: false,
                timestamp_ms: ctx.timestamp_ms,
            })
        }
        fn dry_run(&self, ctx: &FaultContext) -> DryRunReport {
            AlwaysSkipFault.dry_run(ctx)
        }
        fn fault_type(&self) -> &'static str {
            "echo"
        }
    }
    let scenario = ChaosScenario::builder()
        .seed(5)
        .profile(BifurcationProfile::clock_skew())
        .add_fault(AnyFault::Custom(Box::new(Echo)))
        .build();
    let run = scenario.run(&mut make_ctx(77, "here"));
    assert_eq!(run.events[0].seed, 5);
    assert_eq!(run.events[0].fault_type, "clock_skew");
    assert_eq!(run.events[0].node_id, "here");
    assert_eq!(run.events[0].timestamp_ms, 42);
    assert_eq!(run.max_intensity, s(0.5));
}

#[test]
fn builds_inline_scenario_without_topology() {
    let scenario = inline_scenario(
        "macro-demo",
        19,
        BifurcationProfile::network_partition(),
        None,
        vec![loss(3, 0.7).into_fault()],
    );
    assert_eq!(scenario.name(), "macro-demo");
    assert_eq!(scenario.seed(), 19);
    assert_eq!(scenario.profile().label, "network_partition");
    assert!(scenario.topology().is_none());
    let report = scenario.run(&mut make_ctx(19, "node-a"));
    assert_eq!(report.name, "macro-demo");
    assert_eq!(report.events.len(), 1);
}

#[test]
fn builds_inline_scenario_with_topology() {
    let topology = Topology::builder()
        .name("cluster")
        .add_edge("a", "b", s(1.0))
        .build();
    let scenario = inline_scenario(
        "macro-topology",
        23,
        BifurcationProfile::network_partition(),
        Some(topology),
        vec![],
    );
    assert_eq!(scenario.name(), "macro-topology");
    assert_eq!(scenario.seed(), 23);
    let attached = scenario.topology().expect("topology attached");
    assert_eq!(attached.name(), "cluster");
    let report = scenario.run(&mut make_ctx(23, "a"));
    assert!(report.events.is_empty());
}

#[test]
fn every_named_preset_resolves() {
    for name in PRESET_NAMES {
        assert!(preset(name, 20).is_some(), "preset '{name}' should resolve");
    }
}

#[test]
fn unknown_preset_returns_none() {
    assert!(preset("does-not-exist", 20).is_none());
}

#[test]
fn presets_emit_at_least_one_event() {
    for name in PRESET_NAMES {
        let builder = preset(name, 20).expect("known preset");
        let scenario = builder.name(name).seed(42).build();
        let report = scenario.run(&mut make_ctx(42, "node-0"));
        assert!(
            !report.events.is_empty(),
            "preset '{name}' should inject at least one event"
        );
    }
}

#[test]
fn preset_names_are_unique() {
    let mut sorted: Vec<&str> = PRESET_NAMES.to_vec();
    sorted.sort_unstable();
    sorted.dedup();
    assert_eq!(sorted.len(), PRESET_NAMES.len(), "duplicate preset name");
}

#[test]
fn preset_intensities_are_exact() {
    let run = preset("flaky_net", 20)
        .expect("known preset")
        .build()
        .run(&mut make_ctx(1, "n"));
    let seen: Vec<f64> = run
        .events
        .iter()
        .map(|e| f64::from_bits(e.intensity.to_bits()))
        .collect();
    assert_eq!(seen, vec![0.7, 0.6]);
    assert_eq!(f64::from_bits(run.max_intensity.to_bits()), 0.7);
}

#[test]
fn regimes_have_names() {
    assert_eq!(ScenarioRegime::Stable.show(), "Stable");
    assert_eq!(ScenarioRegime::Sensitive.show(), "Sensitive");
    assert_eq!(ScenarioRegime::Chaotic.show(), "Chaotic");
}

#[test]
fn each_fault_tells_its_work() {
    let memory = MemoryPressure::builder()
        .seed(1)
        .max_bytes(64)
        .duration_ms(5)
        .intensity(s(0.5))
        .build();
    assert_eq!(
        memory.into_fault().effect(),
        Effect::Load(Load::Memory { ratio: s(0.5), max_bytes: 64, duration_ms: 5 })
    );
    let busy = CpuThrottle::builder().seed(2).fraction(s(0.1)).duration_ms(7).build();
    assert_eq!(
        busy.into_fault().effect(),
        Effect::Load(Load::Processor { fraction: s(0.1), duration_ms: 7, seed: 2 })
    );
    let slow = SlowCorrect::builder().seed(3).mu(s(1.0)).sigma(s(0.5)).build();
    assert_eq!(
        slow.into_fault().effect(),
        Effect::Delay(Sample::LogNormal { mu: s(1.0), sigma: s(0.5), seed: 3 })
    );
    assert_eq!(loss(4, 0.5).into_fault().effect(), Effect::Silent);
}

#[test]
fn a_run_can_be_made_step_by_step() {
    let jump = ClockJump::builder()
        .seed(7)
        .mu(s(3.0))
        .sigma(s(1.0))
        .direction(JumpDirection::Forward)
        .mock_clock(MockClock::at(1_000))
        .build(20);
    let scenario = ChaosScenario::builder()
        .name("steps")
        .seed(42)
        .add_fault(loss(1, 0.25))
        .add_fault(jump)
        .build();
    let ctx = make_ctx(0, "node-9");
    assert_eq!(scenario.fault_count(), 2);
    assert_eq!(scenario.fault_at(1).effect(), Effect::Silent);
    let results = vec![scenario.inject_at(0, &ctx), scenario.inject_at(1, &ctx)];
    let run = scenario.gather(results);
    assert_eq!(run.name, "steps");
    assert_eq!(run.seed, 42);
    assert_eq!(run.events.len(), 2);
    assert_eq!(run.events[0].timestamp_ms, 42);
    assert_eq!(run.events[1].timestamp_ms, 1_020);
    assert_eq!(run.events[1].node_id, "node-9");
    assert_eq!(run.max_intensity, s(1.0));
}

#[test]
fn the_drifting_clock_jumps_by_the_drawn_size() {
    assert_eq!(
        clock_drift_size(),
        Sample::LogNormal { mu: s(3.0), sigma: s(0.4), seed: 31 }
    );
    let run = clock_drift(17).build().run(&mut make_ctx(1, "n"));
    assert_eq!(run.events.len(), 1);
    assert_eq!(run.events[0].fault_type, "clock_jump");
    assert_eq!(run.events[0].timestamp_ms, 17);
}
