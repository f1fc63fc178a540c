//! Network faults: partition, packet loss, latency spike, bandwidth throttle.

use crate::fault::{
    injected_at, record_injected, report_preview, would_inject, ContextView, Fault, FaultContext,
};
use crate::faults::any::{AnyFault, IntoFault};
use crate::message::{Message, Part, PartView, Sample};
use crate::scalar::{Scalar, ONE_BITS};
use crate::text;
use crate::types::{BifurcationProfile, DryRunReport, DryRunView, FaultResult, ResultView};
use vstd::prelude::*;

verus! {

/// Bit pattern of the smallest latency that a base latency is raised to: two to
/// the power -52.
pub const SMALLEST_BASE_BITS: u64 = 0x3CB0_0000_0000_0000;

/// Which noise generator modulates latency jitter.
#[derive(Clone, Copy, Debug, PartialEq, Eq, Structural)]
pub enum NoiseType {
    /// Pink noise: correlated jitter.
    Pink,
    /// Brown noise: drifting jitter.
    Brown,
}

impl NoiseType {
    /// The name of the generator.
    pub open spec fn label(self) -> Seq<char> {
        match self {
            NoiseType::Pink => "Pink"@,
            NoiseType::Brown => "Brown"@,
        }
    }

    fn show(self) -> (r: &'static str)
        ensures
            r@ == self.label(),
    {
        match self {
            NoiseType::Pink => "Pink",
            NoiseType::Brown => "Brown",
        }
    }
}

/// Cuts a node off for a heavy-tailed time.
#[derive(Clone, Copy, Debug, PartialEq, Eq, Structural)]
pub struct NetworkPartition {
    /// Seed of the random draws.
    pub seed: u64,
    /// Exponent of the power law of the duration.
    pub alpha: Scalar,
    /// Normalised intensity.
    pub intensity: Scalar,
}

impl NetworkPartition {
    /// How a dry run explains this fault.
    pub open spec fn reason(self, node_id: Seq<char>) -> Seq<PartView> {
        seq![
            PartView::Text("would partition node "@ + node_id + " for "@),
            PartView::Sampled {
                sample: Sample::PowerLaw { alpha: self.alpha, seed: self.seed },
                decimals: 2,
            },
            PartView::Text("s at intensity "@),
            PartView::Fixed { value: self.intensity, decimals: 2 },
        ]
    }
}

impl Fault for NetworkPartition {
    open spec fn injects(&self, ctx: ContextView, result: ResultView) -> bool {
        result == injected_at(
            "network_partition"@,
            ctx.node_id,
            self.seed,
            self.intensity,
            ctx.timestamp_ms,
        )
    }

    open spec fn previews(&self, ctx: ContextView, report: DryRunView) -> bool {
        report == would_inject("network_partition"@, ctx.node_id, self.reason(ctx.node_id))
    }

    open spec fn is_kind(&self, kind: Seq<char>) -> bool {
        kind == "network_partition"@
    }

    fn inject(&self, ctx: &FaultContext) -> (r: FaultResult) {
        record_injected("network_partition", ctx, self.seed, self.intensity, ctx.timestamp_ms)
    }

    fn dry_run(&self, ctx: &FaultContext) -> (r: DryRunReport) {
        let words: String = text::concat3(
            "would partition node ",
            ctx.node_id.as_str(),
            " for ",
        );
        let mut reason = Message::text(words.as_str());
        reason.push(
            Part::Sampled {
                sample: Sample::PowerLaw { alpha: self.alpha, seed: self.seed },
                decimals: 2,
            },
        );
        reason.push_text("s at intensity ");
        reason.push(Part::Fixed { value: self.intensity, decimals: 2 });
        assert(reason@ =~= self.reason(ctx@.node_id));
        report_preview("network_partition", ctx, reason)
    }

    fn fault_type(&self) -> (r: &'static str) {
        "network_partition"
    }
}

/// Builder for [`NetworkPartition`].
///
/// Unset fields: seed zero, exponent three halves, intensity one.
#[derive(Debug, Default)]
pub struct NetworkPartitionBuilder {
    /// Seed of the random draws.
    pub seed: Option<u64>,
    /// Exponent of the power law of the duration.
    pub alpha: Option<Scalar>,
    /// Normalised intensity.
    pub intensity: Option<Scalar>,
}

impl NetworkPartitionBuilder {
    /// Sets: seed of the random draws.
    pub fn seed(self, seed: u64) -> (r: Self)
        ensures
            r == (NetworkPartitionBuilder { seed: Some(seed), ..self }),
    {
        NetworkPartitionBuilder { seed: Some(seed), ..self }
    }

    /// Sets: exponent of the power law of the duration.
    pub fn alpha(self, alpha: Scalar) -> (r: Self)
        ensures
            r == (NetworkPartitionBuilder { alpha: Some(alpha), ..self }),
    {
        NetworkPartitionBuilder { alpha: Some(alpha), ..self }
    }

    /// Sets: normalised intensity.
    pub fn intensity(self, intensity: Scalar) -> (r: Self)
        ensures
            r == (NetworkPartitionBuilder { intensity: Some(intensity), ..self }),
    {
        NetworkPartitionBuilder { intensity: Some(intensity), ..self }
    }

    /// Builds the fault.
    pub fn build(self) -> (r: NetworkPartition)
        ensures
            r.seed == match self.seed {
                Some(v) => v,
                None => 0u64,
            },
            r.alpha == match self.alpha {
                Some(v) => v,
                None => (Scalar { bits: 0x3FF8_0000_0000_0000 }),
            },
            r.intensity == match self.intensity {
                Some(v) => v,
                None => (Scalar { bits: ONE_BITS }),
            },
    {
        NetworkPartition {
            seed: match self.seed {
                Some(v) => v,
                None => 0,
            },
            alpha: match self.alpha {
                Some(v) => v,
                None => Scalar { bits: 0x3FF8_0000_0000_0000 },
            },
            intensity: match self.intensity {
                Some(v) => v,
                None => Scalar { bits: ONE_BITS },
            },
        }
    }
}

impl NetworkPartition {
    /// Starts building a fault.
    pub fn builder() -> (r: NetworkPartitionBuilder)
        ensures
            r == (NetworkPartitionBuilder { seed: None, alpha: None, intensity: None }),
    {
        NetworkPartitionBuilder { seed: None, alpha: None, intensity: None }
    }
}

/// Drops packets at a heavy-tailed rate.
#[derive(Clone, Copy, Debug, PartialEq, Eq, Structural)]
pub struct PacketLoss {
    /// Seed of the random draws.
    pub seed: u64,
    /// Shape of the Pareto distribution of the rate.
    pub alpha: Scalar,
    /// Scale of that distribution.
    pub x_min: Scalar,
    /// Normalised intensity.
    pub intensity: Scalar,
}

impl PacketLoss {
    /// How a dry run explains this fault.
    pub open spec fn reason(self, node_id: Seq<char>) -> Seq<PartView> {
        seq![
            PartView::Text("would drop packets at rate "@),
            PartView::Sampled {
                sample: Sample::Pareto { alpha: self.alpha, x_min: self.x_min, seed: self.seed },
                decimals: 3,
            },
            PartView::Text(" on node "@ + node_id + " (Pareto alpha="@),
            PartView::Fixed { value: self.alpha, decimals: 2 },
            PartView::Text(", x_min="@),
            PartView::Fixed { value: self.x_min, decimals: 2 },
            PartView::Text(")"@),
        ]
    }
}

impl Fault for PacketLoss {
    open spec fn injects(&self, ctx: ContextView, result: ResultView) -> bool {
        result == injected_at(
            "packet_loss"@,
            ctx.node_id,
            self.seed,
            self.intensity,
            ctx.timestamp_ms,
        )
    }

    open spec fn previews(&self, ctx: ContextView, report: DryRunView) -> bool {
        report == would_inject("packet_loss"@, ctx.node_id, self.reason(ctx.node_id))
    }

    open spec fn is_kind(&self, kind: Seq<char>) -> bool {
        kind == "packet_loss"@
    }

    fn inject(&self, ctx: &FaultContext) -> (r: FaultResult) {
        record_injected("packet_loss", ctx, self.seed, self.intensity, ctx.timestamp_ms)
    }

    fn dry_run(&self, ctx: &FaultContext) -> (r: DryRunReport) {
        let mut reason = Message::text("would drop packets at rate ");
        reason.push(
            Part::Sampled {
                sample: Sample::Pareto { alpha: self.alpha, x_min: self.x_min, seed: self.seed },
                decimals: 3,
            },
        );
        let words: String = text::concat3(" on node ", ctx.node_id.as_str(), " (Pareto alpha=");
        reason.push_text(words.as_str());
        reason.push(Part::Fixed { value: self.alpha, decimals: 2 });
        reason.push_text(", x_min=");
        reason.push(Part::Fixed { value: self.x_min, decimals: 2 });
        reason.push_text(")");
        assert(reason@ =~= self.reason(ctx@.node_id));
        report_preview("packet_loss", ctx, reason)
    }

    fn fault_type(&self) -> (r: &'static str) {
        "packet_loss"
    }
}

/// Builder for [`PacketLoss`].
///
/// Unset fields: seed zero, shape two, scale one, intensity one.
#[derive(Debug, Default)]
pub struct PacketLossBuilder {
    /// Seed of the random draws.
    pub seed: Option<u64>,
    /// Shape of the Pareto distribution of the rate.
    pub alpha: Option<Scalar>,
    /// Scale of that distribution.
    pub x_min: Option<Scalar>,
    /// Normalised intensity.
    pub intensity: Option<Scalar>,
}

impl PacketLossBuilder {
    /// Sets: seed of the random draws.
    pub fn seed(self, seed: u64) -> (r: Self)
        ensures
            r == (PacketLossBuilder { seed: Some(seed), ..self }),
    {
        PacketLossBuilder { seed: Some(seed), ..self }
    }

    /// Sets: shape of the Pareto distribution of the rate.
    pub fn alpha(self, alpha: Scalar) -> (r: Self)
        ensures
            r == (PacketLossBuilder { alpha: Some(alpha), ..self }),
    {
        PacketLossBuilder { alpha: Some(alpha), ..self }
    }

    /// Sets: scale of that distribution.
    pub fn x_min(self, x_min: Scalar) -> (r: Self)
        ensures
            r == (PacketLossBuilder { x_min: Some(x_min), ..self }),
    {
        PacketLossBuilder { x_min: Some(x_min), ..self }
    }

    /// Sets: normalised intensity.
    pub fn intensity(self, intensity: Scalar) -> (r: Self)
        ensures
            r == (PacketLossBuilder { intensity: Some(intensity), ..self }),
    {
        PacketLossBuilder { intensity: Some(intensity), ..self }
    }

    /// Builds the fault.
    pub fn build(self) -> (r: PacketLoss)
        ensures
            r.seed == match self.seed {
                Some(v) => v,
                None => 0u64,
            },
            r.alpha == match self.alpha {
                Some(v) => v,
                None => (Scalar { bits: 0x4000_0000_0000_0000 }),
            },
            r.x_min == match self.x_min {
                Some(v) => v,
                None => (Scalar { bits: ONE_BITS }),
            },
            r.intensity == match self.intensity {
                Some(v) => v,
                None => (Scalar { bits: ONE_BITS }),
            },
    {
        PacketLoss {
            seed: match self.seed {
                Some(v) => v,
                None => 0,
            },
            alpha: match self.alpha {
                Some(v) => v,
                None => Scalar { bits: 0x4000_0000_0000_0000 },
            },
            x_min: match self.x_min {
                Some(v) => v,
                None => Scalar { bits: ONE_BITS },
            },
            intensity: match self.intensity {
                Some(v) => v,
                None => Scalar { bits: ONE_BITS },
            },
        }
    }
}

impl PacketLoss {
    /// Starts building a fault.
    pub fn builder() -> (r: PacketLossBuilder)
        ensures
            r == (PacketLossBuilder { seed: None, alpha: None, x_min: None, intensity: None }),
    {
        PacketLossBuilder { seed: None, alpha: None, x_min: None, intensity: None }
    }
}

/// Delays traffic by a log-normal latency with correlated jitter.
#[derive(Clone, Copy, Debug, PartialEq, Eq, Structural)]
pub struct LatencySpike {
    /// Seed of the random draws.
    pub seed: u64,
    /// Median latency in milliseconds.
    pub base_ms: Scalar,
    /// Log-space standard deviation.
    pub sigma: Scalar,
    /// Generator of the jitter.
    pub noise_type: NoiseType,
    /// Normalised intensity.
    pub intensity: Scalar,
}

impl LatencySpike {
    /// How a dry run explains this fault.
    pub open spec fn reason(self, node_id: Seq<char>) -> Seq<PartView> {
        seq![
            PartView::Text("would inject "@),
            PartView::Sampled {
                sample: Sample::Latency {
                    base_ms: self.base_ms,
                    sigma: self.sigma,
                    noise: self.noise_type,
                    seed: self.seed,
                },
                decimals: 2,
            },
            PartView::Text("ms latency on node "@ + node_id + " (mu="@),
            PartView::Log { value: self.base_ms, decimals: 2 },
            PartView::Text(", sigma="@),
            PartView::Fixed { value: self.sigma, decimals: 2 },
            PartView::Text(", noise="@ + self.noise_type.label() + ")"@),
        ]
    }
}

impl Fault for LatencySpike {
    open spec fn injects(&self, ctx: ContextView, result: ResultView) -> bool {
        result == injected_at(
            "latency_spike"@,
            ctx.node_id,
            self.seed,
            self.intensity,
            ctx.timestamp_ms,
        )
    }

    open spec fn previews(&self, ctx: ContextView, report: DryRunView) -> bool {
        report == would_inject("latency_spike"@, ctx.node_id, self.reason(ctx.node_id))
    }

    open spec fn is_kind(&self, kind: Seq<char>) -> bool {
        kind == "latency_spike"@
    }

    fn inject(&self, ctx: &FaultContext) -> (r: FaultResult) {
        record_injected("latency_spike", ctx, self.seed, self.intensity, ctx.timestamp_ms)
    }

    fn dry_run(&self, ctx: &FaultContext) -> (r: DryRunReport) {
        let mut reason = Message::text("would inject ");
        reason.push(
            Part::Sampled {
                sample: Sample::Latency {
                    base_ms: self.base_ms,
                    sigma: self.sigma,
                    noise: self.noise_type,
                    seed: self.seed,
                },
                decimals: 2,
            },
        );
        let words: String = text::concat3("ms latency on node ", ctx.node_id.as_str(), " (mu=");
        reason.push_text(words.as_str());
        reason.push(Part::Log { value: self.base_ms, decimals: 2 });
        reason.push_text(", sigma=");
        reason.push(Part::Fixed { value: self.sigma, decimals: 2 });
        let tail: String = text::concat3(", noise=", self.noise_type.show(), ")");
        reason.push_text(tail.as_str());
        assert(reason@ =~= self.reason(ctx@.node_id));
        report_preview("latency_spike", ctx, reason)
    }

    fn fault_type(&self) -> (r: &'static str) {
        "latency_spike"
    }
}

/// `base_ms`, or the smallest base latency if `base_ms` is not above it.
pub open spec fn raised_base(base_ms: Scalar) -> Scalar {
    if (Scalar { bits: SMALLEST_BASE_BITS }).below(base_ms) {
        base_ms
    } else {
        Scalar { bits: SMALLEST_BASE_BITS }
    }
}

fn raise_base(base_ms: Scalar) -> (r: Scalar)
    ensures
        r == raised_base(base_ms),
{
    let smallest = Scalar { bits: SMALLEST_BASE_BITS };
    if smallest.less(base_ms) {
        base_ms
    } else {
        smallest
    }
}

/// Builder for [`LatencySpike`].
///
/// Unset fields: seed zero, 50 ms, deviation 0.3, pink noise, intensity one. A base latency
/// that is not above two to the power -52 is raised to that.
#[derive(Debug, Default)]
pub struct LatencySpikeBuilder {
    /// Seed of the random draws.
    pub seed: Option<u64>,
    /// Median latency in milliseconds.
    pub base_ms: Option<Scalar>,
    /// Log-space standard deviation.
    pub sigma: Option<Scalar>,
    /// Generator of the jitter.
    pub noise_type: Option<NoiseType>,
    /// Normalised intensity.
    pub intensity: Option<Scalar>,
}

impl LatencySpikeBuilder {
    /// Sets: seed of the random draws.
    pub fn seed(self, seed: u64) -> (r: Self)
        ensures
            r == (LatencySpikeBuilder { seed: Some(seed), ..self }),
    {
        LatencySpikeBuilder { seed: Some(seed), ..self }
    }

    /// Sets: median latency in milliseconds.
    pub fn base_ms(self, base_ms: Scalar) -> (r: Self)
        ensures
            r == (LatencySpikeBuilder { base_ms: Some(base_ms), ..self }),
    {
        LatencySpikeBuilder { base_ms: Some(base_ms), ..self }
    }

    /// Sets: log-space standard deviation.
    pub fn sigma(self, sigma: Scalar) -> (r: Self)
        ensures
            r == (LatencySpikeBuilder { sigma: Some(sigma), ..self }),
    {
        LatencySpikeBuilder { sigma: Some(sigma), ..self }
    }

    /// Sets: generator of the jitter.
    pub fn noise(self, noise_type: NoiseType) -> (r: Self)
        ensures
            r == (LatencySpikeBuilder { noise_type: Some(noise_type), ..self }),
    {
        LatencySpikeBuilder { noise_type: Some(noise_type), ..self }
    }

    /// Sets: normalised intensity.
    pub fn intensity(self, intensity: Scalar) -> (r: Self)
        ensures
            r == (LatencySpikeBuilder { intensity: Some(intensity), ..self }),
    {
        LatencySpikeBuilder { intensity: Some(intensity), ..self }
    }

    /// Builds the fault.
    pub fn build(self) -> (r: LatencySpike)
        ensures
            r.seed == match self.seed {
                Some(v) => v,
                None => 0u64,
            },
            r.base_ms == match self.base_ms {
                Some(v) => raised_base(v),
                None => (Scalar { bits: 0x4049_0000_0000_0000 }),
            },
            r.sigma == match self.sigma {
                Some(v) => v,
                None => (Scalar { bits: 0x3FD3_3333_3333_3333 }),
            },
            r.noise_type == match self.noise_type {
                Some(v) => v,
                None => NoiseType::Pink,
            },
            r.intensity == match self.intensity {
                Some(v) => v,
                None => (Scalar { bits: ONE_BITS }),
            },
    {
        LatencySpike {
            seed: match self.seed {
                Some(v) => v,
                None => 0,
            },
            base_ms: match self.base_ms {
                Some(v) => raise_base(v),
                None => Scalar { bits: 0x4049_0000_0000_0000 },
            },
            sigma: match self.sigma {
                Some(v) => v,
                None => Scalar { bits: 0x3FD3_3333_3333_3333 },
            },
            noise_type: match self.noise_type {
                Some(v) => v,
                None => NoiseType::Pink,
            },
            intensity: match self.intensity {
                Some(v) => v,
                None => Scalar { bits: ONE_BITS },
            },
        }
    }
}

impl LatencySpike {
    /// Starts building a fault.
    pub fn builder() -> (r: LatencySpikeBuilder)
        ensures
            r == (LatencySpikeBuilder { seed: None, base_ms: None, sigma: None, noise_type: None, intensity: None }),
    {
        LatencySpikeBuilder { seed: None, base_ms: None, sigma: None, noise_type: None, intensity: None }
    }
}

/// Caps the bandwidth of a node.
#[derive(Clone, Copy, Debug, PartialEq, Eq, Structural)]
pub struct BandwidthThrottle {
    /// Seed recorded with the event.
    pub seed: u64,
    /// Bandwidth cap.
    pub bytes_per_sec: u64,
    /// Normalised intensity.
    pub intensity: Scalar,
}

impl BandwidthThrottle {
    /// How a dry run explains this fault.
    pub open spec fn reason(self, node_id: Seq<char>) -> Seq<PartView> {
        seq![
            PartView::Text(
                "would cap bandwidth to "@ + text::decimal(self.bytes_per_sec as nat)
                    + " bytes/sec on node "@ + node_id + " at intensity "@,
            ),
            PartView::Fixed { value: self.intensity, decimals: 2 },
        ]
    }
}

impl Fault for BandwidthThrottle {
    open spec fn injects(&self, ctx: ContextView, result: ResultView) -> bool {
        result == injected_at(
            "bandwidth_throttle"@,
            ctx.node_id,
            self.seed,
            self.intensity,
            ctx.timestamp_ms,
        )
    }

    open spec fn previews(&self, ctx: ContextView, report: DryRunView) -> bool {
        report == would_inject("bandwidth_throttle"@, ctx.node_id, self.reason(ctx.node_id))
    }

    open spec fn is_kind(&self, kind: Seq<char>) -> bool {
        kind == "bandwidth_throttle"@
    }

    fn inject(&self, ctx: &FaultContext) -> (r: FaultResult) {
        record_injected("bandwidth_throttle", ctx, self.seed, self.intensity, ctx.timestamp_ms)
    }

    fn dry_run(&self, ctx: &FaultContext) -> (r: DryRunReport) {
        let cap: String = text::decimal_of(self.bytes_per_sec);
        let mut words: String = text::concat3(
            "would cap bandwidth to ",
            cap.as_str(),
            " bytes/sec on node ",
        );
        words.append(ctx.node_id.as_str());
        words.append(" at intensity ");
        let mut reason = Message::text(words.as_str());
        reason.push(Part::Fixed { value: self.intensity, decimals: 2 });
        assert(reason@ =~= self.reason(ctx@.node_id));
        report_preview("bandwidth_throttle", ctx, reason)
    }

    fn fault_type(&self) -> (r: &'static str) {
        "bandwidth_throttle"
    }
}

/// Builder for [`BandwidthThrottle`].
///
/// Unset fields: seed zero, one mebibyte per second, intensity one.
#[derive(Debug, Default)]
pub struct BandwidthThrottleBuilder {
    /// Seed recorded with the event.
    pub seed: Option<u64>,
    /// Bandwidth cap.
    pub bytes_per_sec: Option<u64>,
    /// Normalised intensity.
    pub intensity: Option<Scalar>,
}

impl BandwidthThrottleBuilder {
    /// Sets: seed recorded with the event.
    pub fn seed(self, seed: u64) -> (r: Self)
        ensures
            r == (BandwidthThrottleBuilder { seed: Some(seed), ..self }),
    {
        BandwidthThrottleBuilder { seed: Some(seed), ..self }
    }

    /// Sets: bandwidth cap.
    pub fn bytes_per_sec(self, bytes_per_sec: u64) -> (r: Self)
        ensures
            r == (BandwidthThrottleBuilder { bytes_per_sec: Some(bytes_per_sec), ..self }),
    {
        BandwidthThrottleBuilder { bytes_per_sec: Some(bytes_per_sec), ..self }
    }

    /// Sets: normalised intensity.
    pub fn intensity(self, intensity: Scalar) -> (r: Self)
        ensures
            r == (BandwidthThrottleBuilder { intensity: Some(intensity), ..self }),
    {
        BandwidthThrottleBuilder { intensity: Some(intensity), ..self }
    }

    /// Builds the fault.
    pub fn build(self) -> (r: BandwidthThrottle)
        ensures
            r.seed == match self.seed {
                Some(v) => v,
                None => 0u64,
            },
            r.bytes_per_sec == match self.bytes_per_sec {
                Some(v) => v,
                None => 1_048_576,
            },
            r.intensity == match self.intensity {
                Some(v) => v,
                None => (Scalar { bits: ONE_BITS }),
            },
    {
        BandwidthThrottle {
            seed: match self.seed {
                Some(v) => v,
                None => 0,
            },
            bytes_per_sec: match self.bytes_per_sec {
                Some(v) => v,
                None => 1_048_576,
            },
            intensity: match self.intensity {
                Some(v) => v,
                None => Scalar { bits: ONE_BITS },
            },
        }
    }
}

impl BandwidthThrottle {
    /// Starts building a fault.
    pub fn builder() -> (r: BandwidthThrottleBuilder)
        ensures
            r == (BandwidthThrottleBuilder { seed: None, bytes_per_sec: None, intensity: None }),
    {
        BandwidthThrottleBuilder { seed: None, bytes_per_sec: None, intensity: None }
    }
}

/// Faults under one name and one profile.
pub struct NetworkFaultSuite {
    name: String,
    profile: BifurcationProfile,
    faults: Vec<AnyFault>,
}

/// True if `results` are possible outcomes of injecting `faults` one after the
/// other in the same context.
pub open spec fn all_inject(
    faults: Seq<AnyFault>,
    ctx: ContextView,
    results: Seq<FaultResult>,
) -> bool {
    &&& results.len() == faults.len()
    &&& forall|i: int| 0 <= i < faults.len() ==> faults[i].injects(ctx, #[trigger] results[i]@)
}

impl NetworkFaultSuite {
    /// The name.
    pub closed spec fn title(self) -> Seq<char> {
        self.name@
    }

    /// The profile.
    pub closed spec fn stability(self) -> BifurcationProfile {
        self.profile
    }

    /// The faults in order.
    pub closed spec fn members(self) -> Seq<AnyFault> {
        self.faults@
    }

    /// Starts building a suite.
    pub fn builder() -> (r: NetworkFaultSuiteBuilder)
        ensures
            r.name is None,
            r.profile is None,
            r.faults@.len() == 0,
    {
        NetworkFaultSuiteBuilder { name: None, profile: None, faults: Vec::new() }
    }

    /// The name.
    pub fn name(&self) -> (r: &str)
        ensures
            r@ == self.title(),
    {
        self.name.as_str()
    }

    /// The profile.
    pub fn profile(&self) -> (r: &BifurcationProfile)
        ensures
            *r == self.stability(),
    {
        &self.profile
    }

    /// Number of faults.
    pub fn len(&self) -> (n: usize)
        ensures
            n == self.members().len(),
    {
        self.faults.len()
    }

    /// True if there are no faults.
    pub fn is_empty(&self) -> (r: bool)
        ensures
            r == (self.members().len() == 0),
    {
        self.faults.len() == 0
    }

    /// Injects all faults in order.
    pub fn inject_all(&self, ctx: &FaultContext) -> (out: Vec<FaultResult>)
        ensures
            all_inject(self.members(), ctx@, out@),
    {
        let mut out: Vec<FaultResult> = Vec::new();
        let mut i: usize = 0;
        while i < self.faults.len()
            invariant
                i <= self.faults@.len(),
                out@.len() == i,
                forall|j: int|
                    0 <= j < i ==> self.faults@[j].injects(ctx@, #[trigger] out@[j]@),
            decreases self.faults@.len() - i,
        {
            out.push(self.faults[i].inject(ctx));
            i += 1;
        }
        out
    }
}

/// Builder for [`NetworkFaultSuite`].
///
/// Unset fields: the name `default`, the profile of network partitions.
#[derive(Default)]
pub struct NetworkFaultSuiteBuilder {
    /// Name of the suite.
    pub name: Option<String>,
    /// Stability profile.
    pub profile: Option<BifurcationProfile>,
    /// The faults in order.
    pub faults: Vec<AnyFault>,
}

impl NetworkFaultSuiteBuilder {
    /// Sets the name.
    pub fn name(self, name: &str) -> (r: Self)
        ensures
            r.name matches Some(s) && s@ == name@,
            r == (NetworkFaultSuiteBuilder { name: r.name, ..self }),
    {
        NetworkFaultSuiteBuilder { name: Some(name.to_owned()), ..self }
    }

    /// Sets the profile.
    pub fn profile(self, profile: BifurcationProfile) -> (r: Self)
        ensures
            r == (NetworkFaultSuiteBuilder { profile: Some(profile), ..self }),
    {
        NetworkFaultSuiteBuilder { profile: Some(profile), ..self }
    }

    /// Appends a fault.
    pub fn fault<F: IntoFault>(self, fault: F) -> (r: Self)
        ensures
            r.faults@ == self.faults@.push(fault.as_fault()),
            r.name == self.name,
            r.profile == self.profile,
    {
        let mut faults: Vec<AnyFault> = self.faults;
        faults.push(fault.into_fault());
        NetworkFaultSuiteBuilder { name: self.name, profile: self.profile, faults }
    }

    /// Builds the suite.
    pub fn build(self) -> (r: NetworkFaultSuite)
        ensures
            r.title() == match self.name {
                Some(name) => name@,
                None => "default"@,
            },
            match self.profile {
                Some(profile) => r.stability() == profile,
                None => r.stability().label@ == "network_partition"@,
            },
            r.members() == self.faults@,
    {
        NetworkFaultSuite {
            name: match self.name {
                Some(name) => name,
                None => "default".to_owned(),
            },
            profile: match self.profile {
                Some(profile) => profile,
                None => BifurcationProfile::network_partition(),
            },
            faults: self.faults,
        }
    }
}

} // verus!
