//! Laws of the ready-made scenarios.

use crate::fault::MalcolmClock;
use crate::faults::any::AnyFault;
use crate::faults::byzantine::StrategyView;
use crate::faults::clock::{ClockSource, JumpDirection};
use crate::faults::network::NoiseType;
use crate::presets::{is_preset_builder, is_preset_name};
use crate::scenario::ChaosScenarioBuilder;
use vstd::prelude::*;

verus! {

proof fn names_begin_differently()
    ensures
        "flaky_net"@[0] == 'f',
        "slow_disk"@[0] == 's',
        "byzantine_cluster"@[0] == 'b',
        "clock_drift"@[0] == 'c',
        "memory_pressure"@[0] == 'm',
{
    reveal_strlit("flaky_net");
    reveal_strlit("slow_disk");
    reveal_strlit("byzantine_cluster");
    reveal_strlit("clock_drift");
    reveal_strlit("memory_pressure");
}

/// A preset carries its name, and leaves the seed and the graph to its user.
pub proof fn presets_carry_their_names(name: Seq<char>, jump_ms: u64, b: ChaosScenarioBuilder)
    requires
        is_preset_builder(name, jump_ms, b),
    ensures
        is_preset_name(name),
        b.name matches Some(n) && n@ == name,
        b.seed is None,
        b.topology is None,
        b.faults@.len() == if name == "clock_drift"@ {
            1nat
        } else {
            2nat
        },
{
    names_begin_differently();
}

/// The flaky net loses packets under seed 11 and is parted under seed 13.
pub proof fn the_flaky_net(jump_ms: u64, b: ChaosScenarioBuilder)
    requires
        is_preset_builder("flaky_net"@, jump_ms, b),
    ensures
        b.profile matches Some(p) && p.label@ == "network_partition"@,
        b.faults@[0] matches AnyFault::PacketLoss(f) && f.seed == 11 && f.alpha.bits
            == 0x4000_0000_0000_0000 && f.x_min.bits == 0x3FF0_0000_0000_0000 && f.intensity.bits
            == 0x3FE6_6666_6666_6666,
        b.faults@[1] matches AnyFault::NetworkPartition(f) && f.seed == 13 && f.alpha.bits
            == 0x3FF8_0000_0000_0000 && f.intensity.bits == 0x3FE3_3333_3333_3333,
{
    names_begin_differently();
}

/// The slow disk answers late under seed 17 and presses on the memory under seed 19.
pub proof fn the_slow_disk(jump_ms: u64, b: ChaosScenarioBuilder)
    requires
        is_preset_builder("slow_disk"@, jump_ms, b),
    ensures
        b.profile matches Some(p) && p.label@ == "latency_cascade"@,
        b.faults@[0] matches AnyFault::LatencySpike(f) && f.seed == 17 && f.base_ms.bits
            == 0x4049_0000_0000_0000 && f.sigma.bits == 0x3FE3_3333_3333_3333 && f.noise_type
            == NoiseType::Brown && f.intensity.bits == 0x3FE9_9999_9999_999A,
        b.faults@[1] matches AnyFault::MemoryPressure(f) && f.seed == 19 && f.intensity.bits
            == 0x3FD9_9999_9999_999A && f.max_bytes == 4_096 && f.duration_ms == 0,
{
    names_begin_differently();
}

/// In the Byzantine cluster one node flips a bit now and then under seed 23, and one answers
/// late under seed 29; both were given the same payload.
pub proof fn the_byzantine_cluster(jump_ms: u64, b: ChaosScenarioBuilder)
    requires
        is_preset_builder("byzantine_cluster"@, jump_ms, b),
    ensures
        b.profile matches Some(p) && p.label@ == "byzantine_node"@,
        b.faults@[0] matches AnyFault::LyingNode(f) && f.seed == 23 && f.strategy@ == (
        StrategyView::BitFlip { num_bits: 1 }) && f.byzantine_probability.bits
            == 0x3FD3_3333_3333_3333,
        b.faults@[1] matches AnyFault::SlowCorrect(f) && f.seed == 29 && f.mu.bits
            == 0x4010_0000_0000_0000 && f.sigma.bits == 0x3FE0_0000_0000_0000,
        (b.faults@[0] matches AnyFault::LyingNode(f) && f.payload@ == seq![0xAAu8, 0xBB, 0xCC, 0xDD]),
        (b.faults@[1] matches AnyFault::SlowCorrect(f) && f.payload@
            == seq![0xAAu8, 0xBB, 0xCC, 0xDD]),
{
    names_begin_differently();
}

/// The drifting clock stands at zero and jumps forward under seed 31, by what was drawn.
pub proof fn the_drifting_clock(jump_ms: u64, b: ChaosScenarioBuilder)
    requires
        is_preset_builder("clock_drift"@, jump_ms, b),
    ensures
        b.profile matches Some(p) && p.label@ == "clock_skew"@,
        b.faults@[0] matches AnyFault::ClockJump(f) && f.seed == 31 && f.mu.bits
            == 0x4008_0000_0000_0000 && f.sigma.bits == 0x3FD9_9999_9999_999A && f.direction
            == JumpDirection::Forward && f.jump_ms == jump_ms && (
        f.inner matches ClockSource::Mock(clock) && clock.reads(0) && !clock.is_frozen()),
{
    names_begin_differently();
}

/// Memory pressure comes under seed 37, with a busy processor under seed 41.
pub proof fn the_memory_pressure(jump_ms: u64, b: ChaosScenarioBuilder)
    requires
        is_preset_builder("memory_pressure"@, jump_ms, b),
    ensures
        b.profile matches Some(p) && p.label@ == "memory_pressure"@,
        b.faults@[0] matches AnyFault::MemoryPressure(f) && f.seed == 37 && f.intensity.bits
            == 0x3FE6_6666_6666_6666 && f.max_bytes == 8_192 && f.duration_ms == 0,
        b.faults@[1] matches AnyFault::CpuThrottle(f) && f.seed == 41 && f.fraction.bits
            == 0x3FE0_0000_0000_0000 && f.duration_ms == 20,
{
    names_begin_differently();
}

} // verus!
