//! Resource faults: memory pressure and CPU throttling.
//!
//! A fault states the load that it stands for; whoever runs it applies that load.

use crate::fault::{
    injected_at, record_injected, report_preview, would_inject, ContextView, Fault, FaultContext,
};
use crate::message::{Message, Part, PartView};
use crate::scalar::{Scalar, ONE_BITS};
use crate::text;
use crate::types::{BifurcationProfile, DryRunReport, DryRunView, FaultResult, ResultView};
use vstd::prelude::*;

verus! {

/// Work that puts a resource under load.
#[derive(Clone, Copy, Debug, PartialEq, Eq, Structural)]
pub enum Load {
    /// Hold the whole part of `ratio` times `max_bytes` bytes for a time.
    Memory { ratio: Scalar, max_bytes: usize, duration_ms: u64 },
    /// Spin for the whole part of `fraction` times a burst factor times
    /// `duration_ms` milliseconds. The burst factor is a power-law draw under
    /// `seed`, at most two.
    Processor { fraction: Scalar, duration_ms: u64, seed: u64 },
}

/// Holds memory for a time.
#[derive(Clone, Copy, Debug, PartialEq, Eq, Structural)]
pub struct MemoryPressure {
    /// Seed recorded with the event.
    pub seed: u64,
    /// Share of the ceiling that is allocated.
    pub intensity: Scalar,
    /// Ceiling of the allocation.
    pub max_bytes: usize,
    /// How long the allocation is held.
    pub duration_ms: u64,
}

impl MemoryPressure {
    /// The load that an injection stands for.
    pub fn load(&self) -> (r: Load)
        ensures
            r == (Load::Memory {
                ratio: self.intensity,
                max_bytes: self.max_bytes,
                duration_ms: self.duration_ms,
            }),
    {
        Load::Memory {
            ratio: self.intensity,
            max_bytes: self.max_bytes,
            duration_ms: self.duration_ms,
        }
    }
}

impl MemoryPressure {
    /// How a dry run explains this fault.
    pub open spec fn reason(self, node_id: Seq<char>) -> Seq<PartView> {
        seq![
            PartView::Text("would allocate "@),
            PartView::Share { ratio: self.intensity, whole: self.max_bytes as u64 },
            PartView::Text(" bytes ("@),
            PartView::Percent { value: self.intensity, decimals: 1 },
            PartView::Text(
                "% of "@ + text::decimal(self.max_bytes as nat) + " byte ceiling) for "@
                    + text::decimal(self.duration_ms as nat) + "ms on node "@ + node_id,
            ),
        ]
    }
}

impl Fault for MemoryPressure {
    open spec fn injects(&self, ctx: ContextView, result: ResultView) -> bool {
        result == injected_at(
            "memory_pressure"@,
            ctx.node_id,
            self.seed,
            self.intensity,
            ctx.timestamp_ms,
        )
    }

    open spec fn previews(&self, ctx: ContextView, report: DryRunView) -> bool {
        report == would_inject("memory_pressure"@, ctx.node_id, self.reason(ctx.node_id))
    }

    open spec fn is_kind(&self, kind: Seq<char>) -> bool {
        kind == "memory_pressure"@
    }

    fn inject(&self, ctx: &FaultContext) -> (r: FaultResult) {
        record_injected("memory_pressure", ctx, self.seed, self.intensity, ctx.timestamp_ms)
    }

    fn dry_run(&self, ctx: &FaultContext) -> (r: DryRunReport) {
        let mut reason = Message::text("would allocate ");
        reason.push(Part::Share { ratio: self.intensity, whole: self.max_bytes as u64 });
        reason.push_text(" bytes (");
        reason.push(Part::Percent { value: self.intensity, decimals: 1 });
        let ceiling: String = text::decimal_of(self.max_bytes as u64);
        let time: String = text::decimal_of(self.duration_ms);
        let mut words: String = text::concat3("% of ", ceiling.as_str(), " byte ceiling) for ");
        words.append(time.as_str());
        words.append("ms on node ");
        words.append(ctx.node_id.as_str());
        reason.push_text(words.as_str());
        assert(reason@ =~= self.reason(ctx@.node_id));
        report_preview("memory_pressure", ctx, reason)
    }

    fn fault_type(&self) -> (r: &'static str) {
        "memory_pressure"
    }
}

/// Builder for [`MemoryPressure`].
///
/// Unset fields: seed zero, intensity one, one mebibyte, 100 ms.
#[derive(Debug, Default)]
pub struct MemoryPressureBuilder {
    /// Seed recorded with the event.
    pub seed: Option<u64>,
    /// Share of the ceiling that is allocated.
    pub intensity: Option<Scalar>,
    /// Ceiling of the allocation.
    pub max_bytes: Option<usize>,
    /// How long the allocation is held.
    pub duration_ms: Option<u64>,
}

impl MemoryPressureBuilder {
    /// Sets: seed recorded with the event.
    pub fn seed(self, seed: u64) -> (r: Self)
        ensures
            r == (MemoryPressureBuilder { seed: Some(seed), ..self }),
    {
        MemoryPressureBuilder { seed: Some(seed), ..self }
    }

    /// Sets: share of the ceiling that is allocated.
    pub fn intensity(self, intensity: Scalar) -> (r: Self)
        ensures
            r == (MemoryPressureBuilder { intensity: Some(intensity), ..self }),
    {
        MemoryPressureBuilder { intensity: Some(intensity), ..self }
    }

    /// Sets: ceiling of the allocation.
    pub fn max_bytes(self, max_bytes: usize) -> (r: Self)
        ensures
            r == (MemoryPressureBuilder { max_bytes: Some(max_bytes), ..self }),
    {
        MemoryPressureBuilder { max_bytes: Some(max_bytes), ..self }
    }

    /// Sets: how long the allocation is held.
    pub fn duration_ms(self, duration_ms: u64) -> (r: Self)
        ensures
            r == (MemoryPressureBuilder { duration_ms: Some(duration_ms), ..self }),
    {
        MemoryPressureBuilder { duration_ms: Some(duration_ms), ..self }
    }

    /// Builds the fault.
    pub fn build(self) -> (r: MemoryPressure)
        ensures
            r.seed == match self.seed {
                Some(v) => v,
                None => 0u64,
            },
            r.intensity == match self.intensity {
                Some(v) => v,
                None => (Scalar { bits: ONE_BITS }),
            },
            r.max_bytes == match self.max_bytes {
                Some(v) => v,
                None => 1_048_576,
            },
            r.duration_ms == match self.duration_ms {
                Some(v) => v,
                None => 100u64,
            },
    {
        MemoryPressure {
            seed: match self.seed {
                Some(v) => v,
                None => 0,
            },
            intensity: match self.intensity {
                Some(v) => v,
                None => Scalar { bits: ONE_BITS },
            },
            max_bytes: match self.max_bytes {
                Some(v) => v,
                None => 1_048_576,
            },
            duration_ms: match self.duration_ms {
                Some(v) => v,
                None => 100,
            },
        }
    }
}

impl MemoryPressure {
    /// Starts building a fault.
    pub fn builder() -> (r: MemoryPressureBuilder)
        ensures
            r == (MemoryPressureBuilder { seed: None, intensity: None, max_bytes: None, duration_ms: None }),
    {
        MemoryPressureBuilder { seed: None, intensity: None, max_bytes: None, duration_ms: None }
    }
}

/// Keeps a processor busy for a time.
#[derive(Clone, Copy, Debug, PartialEq, Eq, Structural)]
pub struct CpuThrottle {
    /// Seed of the random draws.
    pub seed: u64,
    /// Share of the window that is spent spinning.
    pub fraction: Scalar,
    /// Length of the window.
    pub duration_ms: u64,
}

impl CpuThrottle {
    /// The load that an injection stands for.
    pub fn load(&self) -> (r: Load)
        ensures
            r == (Load::Processor {
                fraction: self.fraction,
                duration_ms: self.duration_ms,
                seed: self.seed,
            }),
    {
        Load::Processor {
            fraction: self.fraction,
            duration_ms: self.duration_ms,
            seed: self.seed,
        }
    }
}

impl CpuThrottle {
    /// How a dry run explains this fault.
    pub open spec fn reason(self, node_id: Seq<char>) -> Seq<PartView> {
        seq![
            PartView::Text("would spin-wait for ~"@),
            PartView::Share { ratio: self.fraction, whole: self.duration_ms },
            PartView::Text("ms ("@),
            PartView::Percent { value: self.fraction, decimals: 1 },
            PartView::Text(
                "% of "@ + text::decimal(self.duration_ms as nat) + "ms window) on node "@
                    + node_id,
            ),
        ]
    }
}

impl Fault for CpuThrottle {
    open spec fn injects(&self, ctx: ContextView, result: ResultView) -> bool {
        result == injected_at(
            "cpu_throttle"@,
            ctx.node_id,
            self.seed,
            self.fraction,
            ctx.timestamp_ms,
        )
    }

    open spec fn previews(&self, ctx: ContextView, report: DryRunView) -> bool {
        report == would_inject("cpu_throttle"@, ctx.node_id, self.reason(ctx.node_id))
    }

    open spec fn is_kind(&self, kind: Seq<char>) -> bool {
        kind == "cpu_throttle"@
    }

    fn inject(&self, ctx: &FaultContext) -> (r: FaultResult) {
        record_injected("cpu_throttle", ctx, self.seed, self.fraction, ctx.timestamp_ms)
    }

    fn dry_run(&self, ctx: &FaultContext) -> (r: DryRunReport) {
        let mut reason = Message::text("would spin-wait for ~");
        reason.push(Part::Share { ratio: self.fraction, whole: self.duration_ms });
        reason.push_text("ms (");
        reason.push(Part::Percent { value: self.fraction, decimals: 1 });
        let time: String = text::decimal_of(self.duration_ms);
        let mut words: String = text::concat3("% of ", time.as_str(), "ms window) on node ");
        words.append(ctx.node_id.as_str());
        reason.push_text(words.as_str());
        assert(reason@ =~= self.reason(ctx@.node_id));
        report_preview("cpu_throttle", ctx, reason)
    }

    fn fault_type(&self) -> (r: &'static str) {
        "cpu_throttle"
    }
}

/// Builder for [`CpuThrottle`].
///
/// Unset fields: seed zero, one half, 100 ms.
#[derive(Debug, Default)]
pub struct CpuThrottleBuilder {
    /// Seed of the random draws.
    pub seed: Option<u64>,
    /// Share of the window that is spent spinning.
    pub fraction: Option<Scalar>,
    /// Length of the window.
    pub duration_ms: Option<u64>,
}

impl CpuThrottleBuilder {
    /// Sets: seed of the random draws.
    pub fn seed(self, seed: u64) -> (r: Self)
        ensures
            r == (CpuThrottleBuilder { seed: Some(seed), ..self }),
    {
        CpuThrottleBuilder { seed: Some(seed), ..self }
    }

    /// Sets: share of the window that is spent spinning.
    pub fn fraction(self, fraction: Scalar) -> (r: Self)
        ensures
            r == (CpuThrottleBuilder { fraction: Some(fraction), ..self }),
    {
        CpuThrottleBuilder { fraction: Some(fraction), ..self }
    }

    /// Sets: length of the window.
    pub fn duration_ms(self, duration_ms: u64) -> (r: Self)
        ensures
            r == (CpuThrottleBuilder { duration_ms: Some(duration_ms), ..self }),
    {
        CpuThrottleBuilder { duration_ms: Some(duration_ms), ..self }
    }

    /// Builds the fault.
    pub fn build(self) -> (r: CpuThrottle)
        ensures
            r.seed == match self.seed {
                Some(v) => v,
                None => 0u64,
            },
            r.fraction == match self.fraction {
                Some(v) => v,
                None => (Scalar { bits: 0x3FE0_0000_0000_0000 }),
            },
            r.duration_ms == match self.duration_ms {
                Some(v) => v,
                None => 100u64,
            },
    {
        CpuThrottle {
            seed: match self.seed {
                Some(v) => v,
                None => 0,
            },
            fraction: match self.fraction {
                Some(v) => v,
                None => Scalar { bits: 0x3FE0_0000_0000_0000 },
            },
            duration_ms: match self.duration_ms {
                Some(v) => v,
                None => 100,
            },
        }
    }
}

impl CpuThrottle {
    /// Starts building a fault.
    pub fn builder() -> (r: CpuThrottleBuilder)
        ensures
            r == (CpuThrottleBuilder { seed: None, fraction: None, duration_ms: None }),
    {
        CpuThrottleBuilder { seed: None, fraction: None, duration_ms: None }
    }
}

/// Both resource faults under one name.
#[derive(Debug)]
pub struct ResourceFaultSuite {
    name: String,
    profile: BifurcationProfile,
    memory_pressure: MemoryPressure,
    cpu_throttle: CpuThrottle,
}

impl ResourceFaultSuite {
    /// The name.
    pub closed spec fn title(self) -> Seq<char> {
        self.name@
    }

    /// The profile.
    pub closed spec fn stability(self) -> BifurcationProfile {
        self.profile
    }

    /// The memory fault.
    pub closed spec fn memory(self) -> MemoryPressure {
        self.memory_pressure
    }

    /// The processor fault.
    pub closed spec fn processor(self) -> CpuThrottle {
        self.cpu_throttle
    }

    /// Starts building a suite.
    pub fn builder() -> (r: ResourceFaultSuiteBuilder)
        ensures
            r == (ResourceFaultSuiteBuilder {
                name: None,
                profile: None,
                memory_pressure: None,
                cpu_throttle: None,
            }),
    {
        ResourceFaultSuiteBuilder {
            name: None,
            profile: None,
            memory_pressure: None,
            cpu_throttle: None,
        }
    }

    /// The name.
    pub fn name(&self) -> (r: &str)
        ensures
            r@ == self.title(),
    {
        self.name.as_str()
    }

    /// The profile.
    pub fn profile(&self) -> (r: &BifurcationProfile)
        ensures
            *r == self.stability(),
    {
        &self.profile
    }

    /// Number of faults.
    pub fn len(&self) -> (n: usize)
        ensures
            n == 2,
    {
        2
    }

    /// A suite is never empty.
    pub fn is_empty(&self) -> (r: bool)
        ensures
            !r,
    {
        false
    }

    /// Injects both faults in order.
    pub fn inject_all(&self, ctx: &FaultContext) -> (out: Vec<FaultResult>)
        ensures
            out@.len() == 2,
            self.memory().injects(ctx@, out@[0]@),
            self.processor().injects(ctx@, out@[1]@),
    {
        let mut out: Vec<FaultResult> = Vec::new();
        out.push(self.memory_pressure.inject(ctx));
        out.push(self.cpu_throttle.inject(ctx));
        out
    }
}

/// Builder for [`ResourceFaultSuite`].
///
/// Unset fields: the name `default`, the profile of memory pressure, and the
/// faults that their own builders give.
#[derive(Debug, Default)]
pub struct ResourceFaultSuiteBuilder {
    /// Name of the suite.
    pub name: Option<String>,
    /// Stability profile.
    pub profile: Option<BifurcationProfile>,
    /// The memory fault.
    pub memory_pressure: Option<MemoryPressure>,
    /// The processor fault.
    pub cpu_throttle: Option<CpuThrottle>,
}

impl ResourceFaultSuiteBuilder {
    /// Sets the name.
    pub fn name(self, name: &str) -> (r: Self)
        ensures
            r.name matches Some(s) && s@ == name@,
            r == (ResourceFaultSuiteBuilder { name: r.name, ..self }),
    {
        ResourceFaultSuiteBuilder { name: Some(name.to_owned()), ..self }
    }

    /// Sets the profile.
    pub fn profile(self, profile: BifurcationProfile) -> (r: Self)
        ensures
            r == (ResourceFaultSuiteBuilder { profile: Some(profile), ..self }),
    {
        ResourceFaultSuiteBuilder { profile: Some(profile), ..self }
    }

    /// Sets the memory fault.
    pub fn memory_pressure(self, fault: MemoryPressure) -> (r: Self)
        ensures
            r == (ResourceFaultSuiteBuilder { memory_pressure: Some(fault), ..self }),
    {
        ResourceFaultSuiteBuilder { memory_pressure: Some(fault), ..self }
    }

    /// Sets the processor fault.
    pub fn cpu_throttle(self, fault: CpuThrottle) -> (r: Self)
        ensures
            r == (ResourceFaultSuiteBuilder { cpu_throttle: Some(fault), ..self }),
    {
        ResourceFaultSuiteBuilder { cpu_throttle: Some(fault), ..self }
    }

    /// Builds the suite.
    pub fn build(self) -> (r: ResourceFaultSuite)
        ensures
            r.title() == match self.name {
                Some(name) => name@,
                None => "default"@,
            },
            match self.profile {
                Some(profile) => r.stability() == profile,
                None => r.stability().label@ == "memory_pressure"@,
            },
            r.memory() == match self.memory_pressure {
                Some(fault) => fault,
                None => (MemoryPressure {
                    seed: 0,
                    intensity: Scalar { bits: ONE_BITS },
                    max_bytes: 1_048_576,
                    duration_ms: 100,
                }),
            },
            r.processor() == match self.cpu_throttle {
                Some(fault) => fault,
                None => (CpuThrottle {
                    seed: 0,
                    fraction: Scalar { bits: 0x3FE0_0000_0000_0000 },
                    duration_ms: 100,
                }),
            },
    {
        ResourceFaultSuite {
            name: match self.name {
                Some(name) => name,
                None => "default".to_owned(),
            },
            profile: match self.profile {
                Some(profile) => profile,
                None => BifurcationProfile::memory_pressure(),
            },
            memory_pressure: match self.memory_pressure {
                Some(fault) => fault,
                None => MemoryPressure::builder().build(),
            },
            cpu_throttle: match self.cpu_throttle {
                Some(fault) => fault,
                None => CpuThrottle::builder().build(),
            },
        }
    }
}

} // verus!
