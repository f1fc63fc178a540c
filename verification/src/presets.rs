//! Ready-made scenarios.

use crate::fault::MockClock;
use crate::faults::any::AnyFault;
use crate::faults::byzantine::{LyingNode, SlowCorrect, StrategyView};
use crate::faults::clock::{ClockJump, ClockSource, JumpDirection};
use crate::faults::network::{LatencySpike, NetworkPartition, NoiseType, PacketLoss};
use crate::faults::resource::{CpuThrottle, MemoryPressure};
use crate::message::Sample;
use crate::scalar::{Scalar, ONE_BITS};
use crate::scenario::{ChaosScenario, ChaosScenarioBuilder};
use crate::text;
use crate::types::BifurcationProfile;
use vstd::prelude::*;

verus! {

/// Bit pattern of 0.3.
pub const THREE_TENTHS: u64 = 0x3FD3_3333_3333_3333;

/// Bit pattern of 0.4.
pub const FOUR_TENTHS: u64 = 0x3FD9_9999_9999_999A;

/// Bit pattern of 0.5.
pub const HALF: u64 = 0x3FE0_0000_0000_0000;

/// Bit pattern of 0.6.
pub const SIX_TENTHS: u64 = 0x3FE3_3333_3333_3333;

/// Bit pattern of 0.7.
pub const SEVEN_TENTHS: u64 = 0x3FE6_6666_6666_6666;

/// Bit pattern of 0.8.
pub const EIGHT_TENTHS: u64 = 0x3FE9_9999_9999_999A;

/// Bit pattern of 1.5.
pub const THREE_HALVES: u64 = 0x3FF8_0000_0000_0000;

/// Bit pattern of 2.
pub const TWO: u64 = 0x4000_0000_0000_0000;

/// Bit pattern of 3.
pub const THREE: u64 = 0x4008_0000_0000_0000;

/// Bit pattern of 4.
pub const FOUR: u64 = 0x4010_0000_0000_0000;

/// Bit pattern of 50.
pub const FIFTY: u64 = 0x4049_0000_0000_0000;

/// True if `b` sets the given name and profile, no seed and no graph, and holds
/// `count` faults.
pub open spec fn is_preset(
    b: ChaosScenarioBuilder,
    name: Seq<char>,
    profile: Seq<char>,
    count: nat,
) -> bool {
    &&& b.name matches Some(n) && n@ == name
    &&& b.profile matches Some(p) && p.label@ == profile
    &&& b.seed is None
    &&& b.topology is None
    &&& b.faults@.len() == count
}

/// Heavy packet loss and a partition: the builder of the preset.
pub open spec fn is_flaky_net(r: ChaosScenarioBuilder) -> bool {
    &&& is_preset(r, "flaky_net"@, "network_partition"@, 2)
    &&& r.faults@[0] == AnyFault::PacketLoss(
        PacketLoss {
            seed: 11,
            alpha: Scalar { bits: TWO },
            x_min: Scalar { bits: ONE_BITS },
            intensity: Scalar { bits: SEVEN_TENTHS },
        },
    )
    &&& r.faults@[1] == AnyFault::NetworkPartition(
        NetworkPartition {
            seed: 13,
            alpha: Scalar { bits: THREE_HALVES },
            intensity: Scalar { bits: SIX_TENTHS },
        },
    )
}

/// Heavy packet loss and a partition.
pub fn flaky_net() -> (r: ChaosScenarioBuilder)
    ensures
        is_flaky_net(r),
{
    ChaosScenario::builder().name("flaky_net").add_fault(
        PacketLoss::builder().seed(11).alpha(Scalar::from_bits(TWO)).x_min(
            Scalar::one(),
        ).intensity(Scalar::from_bits(SEVEN_TENTHS)).build(),
    ).add_fault(
        NetworkPartition::builder().seed(13).alpha(Scalar::from_bits(THREE_HALVES)).intensity(
            Scalar::from_bits(SIX_TENTHS),
        ).build(),
    ).profile(BifurcationProfile::network_partition())
}

/// Latency with drifting jitter, and some memory pressure: the builder of the preset.
pub open spec fn is_slow_disk(r: ChaosScenarioBuilder) -> bool {
    &&& is_preset(r, "slow_disk"@, "latency_cascade"@, 2)
    &&& r.faults@[0] == AnyFault::LatencySpike(
        LatencySpike {
            seed: 17,
            base_ms: Scalar { bits: FIFTY },
            sigma: Scalar { bits: SIX_TENTHS },
            noise_type: NoiseType::Brown,
            intensity: Scalar { bits: EIGHT_TENTHS },
        },
    )
    &&& r.faults@[1] == AnyFault::MemoryPressure(
        MemoryPressure {
            seed: 19,
            intensity: Scalar { bits: FOUR_TENTHS },
            max_bytes: 4_096,
            duration_ms: 0,
        },
    )
}

/// Latency with drifting jitter, and some memory pressure.
pub fn slow_disk() -> (r: ChaosScenarioBuilder)
    ensures
        is_slow_disk(r),
{
    ChaosScenario::builder().name("slow_disk").add_fault(
        LatencySpike::builder().seed(17).base_ms(Scalar::from_bits(FIFTY)).sigma(
            Scalar::from_bits(SIX_TENTHS),
        ).noise(NoiseType::Brown).intensity(Scalar::from_bits(EIGHT_TENTHS)).build(),
    ).add_fault(
        MemoryPressure::builder().seed(19).max_bytes(4_096).duration_ms(0).intensity(
            Scalar::from_bits(FOUR_TENTHS),
        ).build(),
    ).profile(BifurcationProfile::latency_cascade())
}

/// A node that sometimes lies, and one that answers late: the builder of the preset.
pub open spec fn is_byzantine_cluster(r: ChaosScenarioBuilder) -> bool {
    &&& is_preset(r, "byzantine_cluster"@, "byzantine_node"@, 2)
    &&& r.faults@[0] matches AnyFault::LyingNode(f) && {
        &&& f.seed == 23
        &&& f.payload@ == seq![0xAAu8, 0xBB, 0xCC, 0xDD]
        &&& f.strategy@ == (StrategyView::BitFlip { num_bits: 1 })
        &&& f.byzantine_probability == (Scalar { bits: THREE_TENTHS })
    }
    &&& r.faults@[1] matches AnyFault::SlowCorrect(f) && {
        &&& f.seed == 29
        &&& f.payload@ == seq![0xAAu8, 0xBB, 0xCC, 0xDD]
        &&& f.mu == (Scalar { bits: FOUR })
        &&& f.sigma == (Scalar { bits: HALF })
    }
}

/// A node that sometimes lies, and one that answers late.
pub fn byzantine_cluster() -> (r: ChaosScenarioBuilder)
    ensures
        is_byzantine_cluster(r),
{
    let payload: Vec<u8> = vec![0xAA, 0xBB, 0xCC, 0xDD];
    assert(payload@ =~= seq![0xAAu8, 0xBB, 0xCC, 0xDD]);
    let copy: Vec<u8> = payload.clone();
    assert(copy@ =~= payload@);
    ChaosScenario::builder().name("byzantine_cluster").add_fault(
        LyingNode::builder().seed(23).payload(payload).byzantine_probability(
            Scalar::from_bits(THREE_TENTHS),
        ).build(),
    ).add_fault(
        SlowCorrect::builder().seed(29).payload(copy).mu(Scalar::from_bits(FOUR)).sigma(
            Scalar::from_bits(HALF),
        ).build(),
    ).profile(BifurcationProfile::byzantine_node())
}

/// A clock that jumps forward by `jump_ms`: the builder of the preset.
pub open spec fn is_clock_drift(r: ChaosScenarioBuilder, jump_ms: u64) -> bool {
    &&& is_preset(r, "clock_drift"@, "clock_skew"@, 1)
    &&& r.faults@[0] matches AnyFault::ClockJump(f) && {
        &&& f.seed == 31
        &&& f.mu == (Scalar { bits: THREE })
        &&& f.sigma == (Scalar { bits: FOUR_TENTHS })
        &&& f.direction == JumpDirection::Forward
        &&& f.jump_ms == jump_ms
        &&& f.inner matches ClockSource::Mock(clock) && clock.time() == 0 && !clock.is_frozen()
    }
}

/// The random size of the jump in [`clock_drift`]; its whole part counts.
pub fn clock_drift_size() -> (r: Sample)
    ensures
        r == (Sample::LogNormal {
            mu: Scalar { bits: THREE },
            sigma: Scalar { bits: FOUR_TENTHS },
            seed: 31,
        }),
{
    Sample::LogNormal {
        mu: Scalar::from_bits(THREE),
        sigma: Scalar::from_bits(FOUR_TENTHS),
        seed: 31,
    }
}

/// A clock that jumps forward by `jump_ms`, drawn as [`clock_drift_size`] says.
pub fn clock_drift(jump_ms: u64) -> (r: ChaosScenarioBuilder)
    ensures
        is_clock_drift(r, jump_ms),
{
    ChaosScenario::builder().name("clock_drift").add_fault(
        ClockJump::builder().seed(31).mu(Scalar::from_bits(THREE)).sigma(
            Scalar::from_bits(FOUR_TENTHS),
        ).direction(JumpDirection::Forward).mock_clock(MockClock::default()).build(jump_ms),
    ).profile(BifurcationProfile::clock_skew())
}

/// Memory pressure and a busy processor: the builder of the preset.
pub open spec fn is_memory_pressure(r: ChaosScenarioBuilder) -> bool {
    &&& is_preset(r, "memory_pressure"@, "memory_pressure"@, 2)
    &&& r.faults@[0] == AnyFault::MemoryPressure(
        MemoryPressure {
            seed: 37,
            intensity: Scalar { bits: SEVEN_TENTHS },
            max_bytes: 8_192,
            duration_ms: 0,
        },
    )
    &&& r.faults@[1] == AnyFault::CpuThrottle(
        CpuThrottle { seed: 41, fraction: Scalar { bits: HALF }, duration_ms: 20 },
    )
}

/// Memory pressure and a busy processor.
pub fn memory_pressure() -> (r: ChaosScenarioBuilder)
    ensures
        is_memory_pressure(r),
{
    ChaosScenario::builder().name("memory_pressure").add_fault(
        MemoryPressure::builder().seed(37).max_bytes(8_192).duration_ms(0).intensity(
            Scalar::from_bits(SEVEN_TENTHS),
        ).build(),
    ).add_fault(
        CpuThrottle::builder().seed(41).fraction(Scalar::from_bits(HALF)).duration_ms(20).build(),
    ).profile(BifurcationProfile::memory_pressure())
}

/// Names of all presets.
pub const PRESET_NAMES: [&'static str; 5] = [
    "flaky_net",
    "slow_disk",
    "byzantine_cluster",
    "clock_drift",
    "memory_pressure",
];

/// True if `name` names a preset.
pub open spec fn is_preset_name(name: Seq<char>) -> bool {
    ||| name == "flaky_net"@
    ||| name == "slow_disk"@
    ||| name == "byzantine_cluster"@
    ||| name == "clock_drift"@
    ||| name == "memory_pressure"@
}

/// True if `b` is the builder of the preset called `name`, where `jump_ms` was drawn
/// for [`clock_drift`].
pub open spec fn is_preset_builder(
    name: Seq<char>,
    jump_ms: u64,
    b: ChaosScenarioBuilder,
) -> bool {
    ||| name == "flaky_net"@ && is_flaky_net(b)
    ||| name == "slow_disk"@ && is_slow_disk(b)
    ||| name == "byzantine_cluster"@ && is_byzantine_cluster(b)
    ||| name == "clock_drift"@ && is_clock_drift(b, jump_ms)
    ||| name == "memory_pressure"@ && is_memory_pressure(b)
}

/// The preset of the given name. `jump_ms` is the size that was drawn for the jump in
/// [`clock_drift`].
pub fn preset(name: &str, jump_ms: u64) -> (r: Option<ChaosScenarioBuilder>)
    ensures
        r is Some <==> is_preset_name(name@),
        r matches Some(b) ==> is_preset_builder(name@, jump_ms, b),
{
    if text::same(name, "flaky_net") {
        Some(flaky_net())
    } else if text::same(name, "slow_disk") {
        Some(slow_disk())
    } else if text::same(name, "byzantine_cluster") {
        Some(byzantine_cluster())
    } else if text::same(name, "clock_drift") {
        Some(clock_drift(jump_ms))
    } else if text::same(name, "memory_pressure") {
        Some(memory_pressure())
    } else {
        None
    }
}

/// No two presets share a name.
pub proof fn preset_names_differ(i: int, j: int)
    requires
        0 <= i < j < PRESET_NAMES@.len(),
    ensures
        PRESET_NAMES@[i]@ != PRESET_NAMES@[j]@,
{
    reveal_strlit("flaky_net");
    reveal_strlit("slow_disk");
    reveal_strlit("byzantine_cluster");
    reveal_strlit("clock_drift");
    reveal_strlit("memory_pressure");
    assert("flaky_net"@[0] == 'f');
    assert("slow_disk"@[0] == 's');
    assert("byzantine_cluster"@[0] == 'b');
    assert("clock_drift"@[0] == 'c');
    assert("memory_pressure"@[0] == 'm');
}

/// The listed names are those that name a preset.
pub proof fn listed_names_are_presets(name: Seq<char>)
    ensures
        is_preset_name(name) <==> exists|i: int|
            0 <= i < PRESET_NAMES@.len() && (#[trigger] PRESET_NAMES@[i])@ == name,
{
    let list = PRESET_NAMES@;
    assert(list[0]@ == "flaky_net"@);
    assert(list[1]@ == "slow_disk"@);
    assert(list[2]@ == "byzantine_cluster"@);
    assert(list[3]@ == "clock_drift"@);
    assert(list[4]@ == "memory_pressure"@);
}

} // verus!
