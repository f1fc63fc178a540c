//! One type for all faults.

use crate::fault::{ContextView, Fault, FaultContext};
use crate::faults::byzantine::{LyingNode, PartialResponse, SlowCorrect};
use crate::faults::clock::{ClockFreeze, ClockJump};
use crate::faults::network::{BandwidthThrottle, LatencySpike, NetworkPartition, PacketLoss};
use crate::faults::resource::{CpuThrottle, Load, MemoryPressure};
use crate::message::Sample;
use crate::types::{DryRunReport, DryRunView, FaultResult, ResultView};
use vstd::prelude::*;

verus! {

/// A fault of this crate, or any other one.
pub enum AnyFault {
    /// A network partition.
    NetworkPartition(NetworkPartition),
    /// Packet loss.
    PacketLoss(PacketLoss),
    /// A latency spike.
    LatencySpike(LatencySpike),
    /// A bandwidth cap.
    BandwidthThrottle(BandwidthThrottle),
    /// Memory pressure.
    MemoryPressure(MemoryPressure),
    /// A busy processor.
    CpuThrottle(CpuThrottle),
    /// A frozen clock.
    ClockFreeze(ClockFreeze),
    /// A jumping clock.
    ClockJump(ClockJump),
    /// A lying node.
    LyingNode(LyingNode),
    /// A partial response.
    PartialResponse(PartialResponse),
    /// A slow but correct answer.
    SlowCorrect(SlowCorrect),
    /// A fault from elsewhere.
    Custom(Box<dyn Fault>),
}

impl Fault for AnyFault {
    open spec fn injects(&self, ctx: ContextView, result: ResultView) -> bool {
        match self {
            AnyFault::NetworkPartition(f) => f.injects(ctx, result),
            AnyFault::PacketLoss(f) => f.injects(ctx, result),
            AnyFault::LatencySpike(f) => f.injects(ctx, result),
            AnyFault::BandwidthThrottle(f) => f.injects(ctx, result),
            AnyFault::MemoryPressure(f) => f.injects(ctx, result),
            AnyFault::CpuThrottle(f) => f.injects(ctx, result),
            AnyFault::ClockFreeze(f) => f.injects(ctx, result),
            AnyFault::ClockJump(f) => f.injects(ctx, result),
            AnyFault::LyingNode(f) => f.injects(ctx, result),
            AnyFault::PartialResponse(f) => f.injects(ctx, result),
            AnyFault::SlowCorrect(f) => f.injects(ctx, result),
            AnyFault::Custom(f) => f.injects(ctx, result),
        }
    }

    open spec fn previews(&self, ctx: ContextView, report: DryRunView) -> bool {
        match self {
            AnyFault::NetworkPartition(f) => f.previews(ctx, report),
            AnyFault::PacketLoss(f) => f.previews(ctx, report),
            AnyFault::LatencySpike(f) => f.previews(ctx, report),
            AnyFault::BandwidthThrottle(f) => f.previews(ctx, report),
            AnyFault::MemoryPressure(f) => f.previews(ctx, report),
            AnyFault::CpuThrottle(f) => f.previews(ctx, report),
            AnyFault::ClockFreeze(f) => f.previews(ctx, report),
            AnyFault::ClockJump(f) => f.previews(ctx, report),
            AnyFault::LyingNode(f) => f.previews(ctx, report),
            AnyFault::PartialResponse(f) => f.previews(ctx, report),
            AnyFault::SlowCorrect(f) => f.previews(ctx, report),
            AnyFault::Custom(f) => f.previews(ctx, report),
        }
    }

    open spec fn is_kind(&self, kind: Seq<char>) -> bool {
        match self {
            AnyFault::NetworkPartition(f) => f.is_kind(kind),
            AnyFault::PacketLoss(f) => f.is_kind(kind),
            AnyFault::LatencySpike(f) => f.is_kind(kind),
            AnyFault::BandwidthThrottle(f) => f.is_kind(kind),
            AnyFault::MemoryPressure(f) => f.is_kind(kind),
            AnyFault::CpuThrottle(f) => f.is_kind(kind),
            AnyFault::ClockFreeze(f) => f.is_kind(kind),
            AnyFault::ClockJump(f) => f.is_kind(kind),
            AnyFault::LyingNode(f) => f.is_kind(kind),
            AnyFault::PartialResponse(f) => f.is_kind(kind),
            AnyFault::SlowCorrect(f) => f.is_kind(kind),
            AnyFault::Custom(f) => f.is_kind(kind),
        }
    }

    fn inject(&self, ctx: &FaultContext) -> (r: FaultResult) {
        match self {
            AnyFault::NetworkPartition(f) => f.inject(ctx),
            AnyFault::PacketLoss(f) => f.inject(ctx),
            AnyFault::LatencySpike(f) => f.inject(ctx),
            AnyFault::BandwidthThrottle(f) => f.inject(ctx),
            AnyFault::MemoryPressure(f) => f.inject(ctx),
            AnyFault::CpuThrottle(f) => f.inject(ctx),
            AnyFault::ClockFreeze(f) => f.inject(ctx),
            AnyFault::ClockJump(f) => f.inject(ctx),
            AnyFault::LyingNode(f) => f.inject(ctx),
            AnyFault::PartialResponse(f) => f.inject(ctx),
            AnyFault::SlowCorrect(f) => f.inject(ctx),
            AnyFault::Custom(f) => f.inject(ctx),
        }
    }

    fn dry_run(&self, ctx: &FaultContext) -> (r: DryRunReport) {
        match self {
            AnyFault::NetworkPartition(f) => f.dry_run(ctx),
            AnyFault::PacketLoss(f) => f.dry_run(ctx),
            AnyFault::LatencySpike(f) => f.dry_run(ctx),
            AnyFault::BandwidthThrottle(f) => f.dry_run(ctx),
            AnyFault::MemoryPressure(f) => f.dry_run(ctx),
            AnyFault::CpuThrottle(f) => f.dry_run(ctx),
            AnyFault::ClockFreeze(f) => f.dry_run(ctx),
            AnyFault::ClockJump(f) => f.dry_run(ctx),
            AnyFault::LyingNode(f) => f.dry_run(ctx),
            AnyFault::PartialResponse(f) => f.dry_run(ctx),
            AnyFault::SlowCorrect(f) => f.dry_run(ctx),
            AnyFault::Custom(f) => f.dry_run(ctx),
        }
    }

    fn fault_type(&self) -> (r: &'static str) {
        match self {
            AnyFault::NetworkPartition(f) => f.fault_type(),
            AnyFault::PacketLoss(f) => f.fault_type(),
            AnyFault::LatencySpike(f) => f.fault_type(),
            AnyFault::BandwidthThrottle(f) => f.fault_type(),
            AnyFault::MemoryPressure(f) => f.fault_type(),
            AnyFault::CpuThrottle(f) => f.fault_type(),
            AnyFault::ClockFreeze(f) => f.fault_type(),
            AnyFault::ClockJump(f) => f.fault_type(),
            AnyFault::LyingNode(f) => f.fault_type(),
            AnyFault::PartialResponse(f) => f.fault_type(),
            AnyFault::SlowCorrect(f) => f.fault_type(),
            AnyFault::Custom(f) => f.fault_type(),
        }
    }
}

/// What an injection does to the process, beside the event that it records.
#[derive(Clone, Copy, Debug, PartialEq, Eq, Structural)]
pub enum Effect {
    /// Nothing.
    Silent,
    /// A resource is put under load.
    Load(Load),
    /// The process waits for the whole part of a random number of milliseconds.
    Delay(Sample),
}

impl AnyFault {
    /// What an injection does to the process. That of a fault from elsewhere does
    /// its own work.
    pub open spec fn work(self) -> Effect {
        match self {
            AnyFault::MemoryPressure(f) => Effect::Load(
                Load::Memory {
                    ratio: f.intensity,
                    max_bytes: f.max_bytes,
                    duration_ms: f.duration_ms,
                },
            ),
            AnyFault::CpuThrottle(f) => Effect::Load(
                Load::Processor {
                    fraction: f.fraction,
                    duration_ms: f.duration_ms,
                    seed: f.seed,
                },
            ),
            AnyFault::SlowCorrect(f) => Effect::Delay(
                Sample::LogNormal { mu: f.mu, sigma: f.sigma, seed: f.seed },
            ),
            _ => Effect::Silent,
        }
    }

    /// What an injection does to the process.
    pub fn effect(&self) -> (r: Effect)
        ensures
            r == self.work(),
    {
        match self {
            AnyFault::MemoryPressure(f) => Effect::Load(f.load()),
            AnyFault::CpuThrottle(f) => Effect::Load(f.load()),
            AnyFault::SlowCorrect(f) => Effect::Delay(f.delay()),
            _ => Effect::Silent,
        }
    }
}

/// What can be turned into an [`AnyFault`].
pub trait IntoFault: Sized {
    /// The fault that this turns into.
    spec fn as_fault(self) -> AnyFault;

    /// Turns this into a fault of the common type.
    fn into_fault(self) -> (r: AnyFault)
        ensures
            r == self.as_fault(),
    ;
}

impl IntoFault for AnyFault {
    open spec fn as_fault(self) -> AnyFault {
        self
    }

    fn into_fault(self) -> (r: AnyFault) {
        self
    }
}

impl IntoFault for NetworkPartition {
    open spec fn as_fault(self) -> AnyFault {
        AnyFault::NetworkPartition(self)
    }

    fn into_fault(self) -> (r: AnyFault) {
        AnyFault::NetworkPartition(self)
    }
}

impl IntoFault for PacketLoss {
    open spec fn as_fault(self) -> AnyFault {
        AnyFault::PacketLoss(self)
    }

    fn into_fault(self) -> (r: AnyFault) {
        AnyFault::PacketLoss(self)
    }
}

impl IntoFault for LatencySpike {
    open spec fn as_fault(self) -> AnyFault {
        AnyFault::LatencySpike(self)
    }

    fn into_fault(self) -> (r: AnyFault) {
        AnyFault::LatencySpike(self)
    }
}

impl IntoFault for BandwidthThrottle {
    open spec fn as_fault(self) -> AnyFault {
        AnyFault::BandwidthThrottle(self)
    }

    fn into_fault(self) -> (r: AnyFault) {
        AnyFault::BandwidthThrottle(self)
    }
}

impl IntoFault for MemoryPressure {
    open spec fn as_fault(self) -> AnyFault {
        AnyFault::MemoryPressure(self)
    }

    fn into_fault(self) -> (r: AnyFault) {
        AnyFault::MemoryPressure(self)
    }
}

impl IntoFault for CpuThrottle {
    open spec fn as_fault(self) -> AnyFault {
        AnyFault::CpuThrottle(self)
    }

    fn into_fault(self) -> (r: AnyFault) {
        AnyFault::CpuThrottle(self)
    }
}

impl IntoFault for ClockFreeze {
    open spec fn as_fault(self) -> AnyFault {
        AnyFault::ClockFreeze(self)
    }

    fn into_fault(self) -> (r: AnyFault) {
        AnyFault::ClockFreeze(self)
    }
}

impl IntoFault for ClockJump {
    open spec fn as_fault(self) -> AnyFault {
        AnyFault::ClockJump(self)
    }

    fn into_fault(self) -> (r: AnyFault) {
        AnyFault::ClockJump(self)
    }
}

impl IntoFault for LyingNode {
    open spec fn as_fault(self) -> AnyFault {
        AnyFault::LyingNode(self)
    }

    fn into_fault(self) -> (r: AnyFault) {
        AnyFault::LyingNode(self)
    }
}

impl IntoFault for PartialResponse {
    open spec fn as_fault(self) -> AnyFault {
        AnyFault::PartialResponse(self)
    }

    fn into_fault(self) -> (r: AnyFault) {
        AnyFault::PartialResponse(self)
    }
}

impl IntoFault for SlowCorrect {
    open spec fn as_fault(self) -> AnyFault {
        AnyFault::SlowCorrect(self)
    }

    fn into_fault(self) -> (r: AnyFault) {
        AnyFault::SlowCorrect(self)
    }
}

} // verus!
