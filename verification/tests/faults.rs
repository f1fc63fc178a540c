use malcolm::fault::{Fault, FaultContext, MalcolmClock, MockClock};
use malcolm::faults::byzantine::{
    ByzantineProfile, ByzantineSuite, CorruptionStrategy, LyingNode, PartialResponse, SlowCorrect,
};
use malcolm::faults::clock::{
    ClockFreeze, ClockJump, ClockSkew, JumpDirection,
};
use malcolm::faults::network::{
    BandwidthThrottle, LatencySpike, NetworkFaultSuite, NetworkPartition, NoiseType, PacketLoss,
};
use malcolm::faults::resource::{CpuThrottle, Load, MemoryPressure, ResourceFaultSuite};
use malcolm::message::{Part, Sample};
use malcolm::scalar::Scalar;
use malcolm::types::{BifurcationProfile, FaultEvent, FaultResult};
use rand::rngs::SmallRng;
use rand::{Rng, SeedableRng};

fn s(x: f64) -> Scalar {
    Scalar::from_bits(x.to_bits())
}

fn ctx(node_id: &str) -> FaultContext {
    FaultContext {
        seed: 42,
        timestamp_ms: 1_000,
        node_id: node_id.to_owned(),
        profile: BifurcationProfile::byzantine_node(),
    }
}

fn injected(result: FaultResult) -> FaultEvent {
    match result {
        FaultResult::Injected(event) => event,
        FaultResult::Skipped(reason) => panic!("skipped: {reason:?}"),
    }
}

fn words(parts: &[Part]) -> String {
    let mut out = String::new();
    for part in parts {
        match part {
            Part::Text(t) => out.push_str(t),
            _ => out.push('#'),
        }
    }
    out
}

#[test]
fn lying_node_bitflip_flips_exactly_configured_bits() {
    let payload = vec![0xAA_u8, 0xBB, 0xCC, 0xDD];
    let num_bits = 6;
    let fault = LyingNode::builder()
        .seed(42)
        .payload(payload.clone())
        .strategy(CorruptionStrategy::BitFlip { num_bits })
        .byzantine_probability(s(1.0))
        .build();
    let corrupted = fault.respond(payload.clone());
    let differing_bits: u32 = payload
        .iter()
        .zip(corrupted.iter())
        .map(|(a, b)| (a ^ b).count_ones())
        .sum();
    let expected = num_bits as u32;
    assert_eq!(
        differing_bits, expected,
        "expected exactly {num_bits} bit flips, got {differing_bits}"
    );
}

#[test]
fn lying_node_field_substitution_patches_correct_bytes() {
    let payload = vec![0x00_u8, 0x01, 0x02, 0x03, 0x04];
    let fault = LyingNode::builder()
        .seed(1)
        .payload(payload.clone())
        .strategy(CorruptionStrategy::FieldSubstitution {
            offset: 2,
            replacement: vec![0xFF, 0xFE],
        })
        .byzantine_probability(s(1.0))
        .build();
    let mut rng = SmallRng::seed_from_u64(1);
    let corrupted = fault.corrupt(payload, &mut rng);
    assert_eq!(
        corrupted.get(2).copied(),
        Some(0xFF),
        "byte at offset 2 should be 0xFF"
    );
    assert_eq!(
        corrupted.get(3).copied(),
        Some(0xFE),
        "byte at offset 3 should be 0xFE"
    );
    assert_eq!(corrupted, vec![0x00, 0x01, 0xFF, 0xFE, 0x04]);
}

#[test]
fn substitution_stops_at_the_end() {
    let fault = LyingNode::builder()
        .strategy(CorruptionStrategy::FieldSubstitution {
            offset: 3,
            replacement: vec![9, 9, 9],
        })
        .build();
    assert_eq!(
        fault.corrupt_with(vec![1, 2, 3, 4], &vec![]),
        vec![1, 2, 3, 9]
    );
    assert_eq!(fault.corrupt_with(vec![1, 2], &vec![]), vec![1, 2]);
}

#[test]
fn structural_corruption_is_exact() {
    let fault = LyingNode::builder()
        .strategy(CorruptionStrategy::StructuralCorruption { fill_byte: 7 })
        .build();
    let out = fault.corrupt_with(vec![1, 2, 3, 4, 5], &vec![]);
    assert_eq!(out.len(), 5);
    assert!(out.iter().any(|b| *b == 7));
    assert_eq!(fault.corrupt_with(vec![], &vec![]), Vec::<u8>::new());
}

#[test]
fn bits_to_flip_are_bounded_by_the_payload() {
    let fault = LyingNode::builder()
        .strategy(CorruptionStrategy::BitFlip { num_bits: 100 })
        .byzantine_probability(s(1.0))
        .build();
    assert_eq!(fault.respond(vec![0xF0]), vec![0x0F]);
}

#[test]
fn honest_node_answers_unchanged() {
    let fault = LyingNode::builder()
        .seed(3)
        .strategy(CorruptionStrategy::BitFlip { num_bits: 4 })
        .byzantine_probability(s(0.0))
        .build();
    assert_eq!(fault.respond(vec![1, 2, 3]), vec![1, 2, 3]);
}

#[test]
fn lying_node_inject_returns_injected_and_logs() {
    let fault = LyingNode::builder()
        .seed(7)
        .payload(vec![0xDE, 0xAD, 0xBE, 0xEF])
        .strategy(CorruptionStrategy::StructuralCorruption { fill_byte: 0x00 })
        .byzantine_probability(s(1.0))
        .build();
    let event = injected(fault.inject(&ctx("node-0")));
    assert_eq!(event.fault_type, "lying_node");
    assert_eq!(event.node_id, "node-0");
    assert_eq!(event.seed, 7);
    assert_eq!(event.timestamp_ms, 1_000);
    assert!(!event.dry_run);
    assert!(fault.dry_run(&ctx("node-0")).would_inject);
}

#[test]
fn partial_response_inject_returns_injected_and_logs() {
    let fault = PartialResponse::builder()
        .seed(5)
        .payload(vec![0u8; 256])
        .alpha(s(2.0))
        .x_min(s(1.0))
        .build();
    let event = injected(fault.inject(&ctx("node-1")));
    assert_eq!(event.fault_type, "partial_response");
}

#[test]
fn partial_responses_lose_their_tail() {
    let fault = PartialResponse::builder().seed(5).build();
    assert_eq!(fault.truncate(vec![1, 2, 3, 4], 1), vec![1, 2, 3]);
    assert_eq!(fault.truncate(vec![1, 2, 3, 4], 0), vec![1, 2, 3, 4]);
    assert_eq!(fault.truncate(vec![1, 2], u64::MAX), Vec::<u8>::new());
    assert!(matches!(fault.loss(), Sample::Pareto { seed: 5, .. }));
}

#[test]
fn slow_correct_inject_returns_injected_with_correct_fault_type() {
    let fault = SlowCorrect::builder()
        .seed(11)
        .payload(vec![0x01, 0x02, 0x03])
        .mu(s(-20.0))
        .sigma(s(0.1))
        .build();
    let result = fault.inject(&ctx("node-2"));
    assert!(matches!(result, FaultResult::Injected(_)));
    assert_eq!(fault.fault_type(), "slow_correct");
}

#[test]
fn slow_correct_returns_correct_response_content() {
    let response = vec![0x10, 0x20, 0x30, 0x40];
    let fault = SlowCorrect::builder()
        .seed(11)
        .payload(response.clone())
        .mu(s(-20.0))
        .sigma(s(0.1))
        .build();
    let (delay, returned) = fault.respond(response.clone());
    assert_eq!(
        returned, response,
        "slow-correct must preserve payload bytes"
    );
    assert_eq!(
        delay,
        Sample::LogNormal {
            mu: s(-20.0),
            sigma: s(0.1),
            seed: 11
        }
    );
}

#[test]
fn byzantine_profile_probability_converges_to_configured_fraction() {
    const TRIALS: usize = 10_000;
    let profile = ByzantineProfile {
        probability: s(0.3),
    };
    let mut rng = SmallRng::seed_from_u64(0);
    let mut fired = 0usize;
    for _ in 0..TRIALS {
        if profile.is_byzantine(&mut rng) {
            fired = fired.saturating_add(1);
        }
    }
    let observed = fired as f64 / TRIALS as f64;
    let err = (observed - 0.3).abs();
    assert!(
        err < 0.03,
        "observed fraction {observed:.4} should converge near configured 0.3"
    );
}

#[test]
fn byzantine_profile_probability_zero_never_fires() {
    let profile = ByzantineProfile {
        probability: s(0.0),
    };
    let mut rng = SmallRng::seed_from_u64(0);
    for _ in 0..1_000 {
        assert!(
            !profile.is_byzantine(&mut rng),
            "probability=0.0 should never return true"
        );
    }
}

#[test]
fn byzantine_profile_probability_one_always_fires() {
    let profile = ByzantineProfile {
        probability: s(1.0),
    };
    let mut rng = SmallRng::seed_from_u64(0);
    for _ in 0..1_000 {
        assert!(
            profile.is_byzantine(&mut rng),
            "probability=1.0 should always return true"
        );
    }
}

#[test]
fn byzantine_decisions_follow_the_word() {
    let profile = ByzantineProfile {
        probability: s(0.5),
    };
    assert!(profile.decide(0));
    assert!(profile.decide((1 << 63) - 1));
    assert!(!profile.decide(1 << 63));
    assert!(!profile.decide(u64::MAX));
}

#[test]
fn byzantine_suite_len_is_three() {
    let suite = ByzantineSuite::builder().build();
    assert_eq!(suite.len(), 3);
    assert!(!suite.is_empty());
    let results = suite.inject_all(&ctx("n"));
    assert_eq!(results.len(), 3);
    let kinds: Vec<String> = results.into_iter().map(|r| injected(r).fault_type).collect();
    assert_eq!(kinds, vec!["lying_node", "partial_response", "slow_correct"]);
}

#[test]
fn answers_follow_the_words_under_the_seed() {
    let mut lies = 0;
    for seed in 0..64_u64 {
        let fault = LyingNode::builder()
            .seed(seed)
            .strategy(CorruptionStrategy::BitFlip { num_bits: 3 })
            .byzantine_probability(s(0.5))
            .build();
        let payload = vec![0x5A_u8, 0xC3, 0x0F];
        let mut rng = SmallRng::seed_from_u64(seed);
        let draw = (rng.next_u64() >> 11) as f64 / (1_u64 << 53) as f64;
        let expected = if draw < 0.5 {
            lies += 1;
            let words = vec![rng.next_u64(), rng.next_u64(), rng.next_u64()];
            fault.corrupt_with(payload.clone(), &words)
        } else {
            payload.clone()
        };
        assert_eq!(fault.respond(payload.clone()), expected);
        assert_eq!(fault.respond(payload), expected);
    }
    assert!(lies > 10 && lies < 54);
}

#[test]
fn mock_clock_advance_increments_time() {
    let mut clock = MockClock::default();
    let initial = clock.now_ms();
    clock.advance(100);
    assert_eq!(clock.now_ms(), initial + 100);
}

#[test]
fn mock_clock_freeze_returns_same_value() {
    let mut clock = MockClock::at(5_000);
    clock.freeze();
    let t1 = clock.now_ms();
    clock.advance(999); // ignored while frozen
    let t2 = clock.now_ms();
    clock.advance(999);
    let t3 = clock.now_ms();
    assert_eq!(t1, 5_000);
    assert_eq!(t2, 5_000);
    assert_eq!(t3, 5_000);
}

#[test]
fn mock_clock_jump_forward_and_backward() {
    let mut clock = MockClock::at(1_000);
    clock.jump(500);
    assert_eq!(clock.now_ms(), 1_500);
    clock.jump(-200);
    assert_eq!(clock.now_ms(), 1_300);
}

#[test]
fn clock_skew_dry_run_does_not_advance_noise() {
    let fault = ClockSkew::builder()
        .seed(42)
        .drift_rate_ms_per_step(s(10.0))
        .intensity(s(1.0))
        .clock(Box::new(MockClock::default()))
        .build();
    let report1 = fault.dry_run(&ctx("node-0"));
    let report2 = fault.dry_run(&ctx("node-0"));
    assert!(report1.would_inject);
    assert!(report2.would_inject);
    assert_eq!(report1.reason, report2.reason);
    assert_eq!(report1.fault_type, "clock_skew");
    assert!(words(&report1.reason.parts).starts_with("would drift clock for node node-0"));
}

#[test]
fn clock_skew_records_the_drifted_time() {
    let fault = ClockSkew::builder()
        .seed(1)
        .clock(Box::new(MockClock::at(100)))
        .build();
    let ahead = injected(fault.inject_drift(&ctx("n"), JumpDirection::Forward, 7));
    assert_eq!(ahead.timestamp_ms, 107);
    let behind = injected(fault.inject_drift(&ctx("n"), JumpDirection::Backward, 500));
    assert_eq!(behind.timestamp_ms, 0);
    assert_eq!(behind.fault_type, "clock_skew");
}

#[test]
fn clock_jump_inject_emits_warn() {
    let fault = ClockJump::builder()
        .seed(7)
        .mu(s(3.0))
        .sigma(s(1.0))
        .direction(JumpDirection::Forward)
        .clock(Box::new(MockClock::default()));
    assert_eq!(
        fault.size(),
        Sample::LogNormal { mu: s(3.0), sigma: s(1.0), seed: 7 }
    );
    let fault = fault.build(25);
    let event = injected(fault.inject(&ctx("n")));
    assert_eq!(event.fault_type, "clock_jump");
    assert_eq!(event.timestamp_ms, 25);
    assert!(matches!(fault.size(), Sample::LogNormal { seed: 7, .. }));
}

#[test]
fn clock_freeze_inject_returns_injected() {
    let fault = ClockFreeze::builder()
        .seed(3)
        .freeze_duration_ms(200)
        .clock(Box::new(MockClock::at(42_000)))
        .build();
    let event = injected(fault.inject(&ctx("n")));
    assert_eq!(event.timestamp_ms, 42_000);
}

#[test]
fn jumps_saturate() {
    assert_eq!(JumpDirection::Forward.moved(u64::MAX, 3), u64::MAX);
    assert_eq!(JumpDirection::Backward.moved(2, 3), 0);
    assert_eq!(JumpDirection::Backward.moved(10, 3), 7);
}

#[test]
fn network_partition_inject_returns_injected_and_emits_event() {
    let fault = NetworkPartition::builder()
        .seed(42)
        .alpha(s(1.5))
        .intensity(s(0.7))
        .build();
    let event = injected(fault.inject(&ctx("node-0")));
    assert_eq!(event.fault_type, "network_partition");
    assert_eq!(event.intensity, s(0.7));
}

#[test]
fn packet_loss_dry_run_would_inject() {
    let fault = PacketLoss::builder()
        .seed(7)
        .alpha(s(2.0))
        .x_min(s(1.0))
        .intensity(s(0.5))
        .build();
    let report = fault.dry_run(&ctx("router-0"));
    assert!(report.would_inject);
    assert_eq!(report.fault_type, "packet_loss");
    assert_eq!(report.node_id, "router-0");
}

#[test]
fn latency_base_is_raised_to_a_positive_one() {
    let fault = LatencySpike::builder()
        .base_ms(s(-5.0))
        .noise(NoiseType::Pink)
        .build();
    assert!(f64::from_bits(fault.base_ms.to_bits()) > 0.0);
    let plain = LatencySpike::builder().build();
    assert_eq!(f64::from_bits(plain.base_ms.to_bits()), 50.0);
    assert_eq!(f64::from_bits(plain.sigma.to_bits()), 0.3);
}

#[test]
fn bandwidth_throttle_inject_returns_injected() {
    let fault = BandwidthThrottle::builder()
        .seed(1)
        .bytes_per_sec(1_048_576)
        .intensity(s(0.9))
        .build();
    assert!(matches!(fault.inject(&ctx("edge-0")), FaultResult::Injected(_)));
    let report = fault.dry_run(&ctx("edge-0"));
    assert!(words(&report.reason.parts).contains("1048576"));
}

#[test]
fn network_suite_injects_in_order() {
    let suite = NetworkFaultSuite::builder()
        .name("net")
        .profile(BifurcationProfile::network_partition())
        .fault(PacketLoss::builder().seed(1).build())
        .fault(NetworkPartition::builder().seed(2).build())
        .build();
    assert_eq!(suite.name(), "net");
    assert_eq!(suite.len(), 2);
    assert!(!suite.is_empty());
    assert_eq!(suite.profile().label, "network_partition");
    let kinds: Vec<String> = suite
        .inject_all(&ctx("n"))
        .into_iter()
        .map(|r| injected(r).fault_type)
        .collect();
    assert_eq!(kinds, vec!["packet_loss", "network_partition"]);
    assert!(NetworkFaultSuite::builder().build().is_empty());
}

#[test]
fn memory_pressure_inject_returns_injected_with_correct_intensity() {
    let fault = MemoryPressure::builder()
        .seed(42)
        .max_bytes(1_024)
        .duration_ms(0)
        .intensity(s(0.5))
        .build();
    let event = injected(fault.inject(&ctx("node-0")));
    assert!(
        (f64::from_bits(event.intensity.to_bits()) - 0.5).abs() < f64::EPSILON,
        "intensity mismatch",
    );
    assert_eq!(event.fault_type, "memory_pressure");
    assert_eq!(
        fault.load(),
        Load::Memory {
            ratio: s(0.5),
            max_bytes: 1_024,
            duration_ms: 0
        }
    );
}

#[test]
fn memory_pressure_dry_run_does_not_allocate() {
    let fault = MemoryPressure::builder()
        .seed(1)
        .max_bytes(1)
        .duration_ms(0)
        .intensity(s(1.0))
        .build();
    let report = fault.dry_run(&ctx("dry-node"));
    assert!(report.would_inject);
    assert_eq!(report.fault_type, "memory_pressure");
    assert_eq!(report.node_id, "dry-node");
}

#[test]
fn cpu_throttle_inject_completes_and_returns_injected() {
    let fault = CpuThrottle::builder()
        .seed(99)
        .fraction(s(0.1))
        .duration_ms(10)
        .build();
    assert!(matches!(fault.inject(&ctx("worker-0")), FaultResult::Injected(_)));
    assert_eq!(
        fault.load(),
        Load::Processor {
            fraction: s(0.1),
            duration_ms: 10,
            seed: 99
        }
    );
}

#[test]
fn resource_fault_suite_builds_without_panic() {
    let suite = ResourceFaultSuite::builder()
        .name("test-suite")
        .memory_pressure(
            MemoryPressure::builder()
                .seed(1)
                .max_bytes(512)
                .duration_ms(0)
                .intensity(s(0.25))
                .build(),
        )
        .cpu_throttle(
            CpuThrottle::builder()
                .seed(2)
                .fraction(s(0.05))
                .duration_ms(1)
                .build(),
        )
        .build();
    assert_eq!(suite.name(), "test-suite");
    assert_eq!(suite.len(), 2);
    assert!(!suite.is_empty());
}
