//! Clock faults: skew, freeze, jump.
//!
//! They affect only code that reads time through [`MalcolmClock`]; the system
//! clock is not touched.

use crate::fault::{
    injected_at, jumped, record_injected, report_preview, would_inject, ContextView, Fault,
    FaultContext, MalcolmClock, MockClock, RealClock,
};
use crate::message::{Message, Part, PartView, Sample};
use crate::scalar::{Scalar, ONE_BITS};
use crate::text;
use crate::types::{BifurcationProfile, DryRunReport, DryRunView, FaultResult, ResultView};
use vstd::prelude::*;

verus! {

/// Direction of a clock jump.
#[derive(Clone, Copy, Debug, PartialEq, Eq, Structural)]
pub enum JumpDirection {
    /// To a later time.
    Forward,
    /// To an earlier time, not before zero.
    Backward,
}

impl JumpDirection {
    /// The name of the direction.
    pub open spec fn label(self) -> Seq<char> {
        match self {
            JumpDirection::Forward => "Forward"@,
            JumpDirection::Backward => "Backward"@,
        }
    }

    /// Signed distance of a move by `ms` in this direction.
    pub open spec fn signed(self, ms: u64) -> int {
        match self {
            JumpDirection::Forward => ms as int,
            JumpDirection::Backward => -(ms as int),
        }
    }

    fn show(self) -> (r: &'static str)
        ensures
            r@ == self.label(),
    {
        match self {
            JumpDirection::Forward => "Forward",
            JumpDirection::Backward => "Backward",
        }
    }

    /// `now_ms` moved by `ms` in this direction, within the range of a timestamp.
    pub fn moved(self, now_ms: u64, ms: u64) -> (r: u64)
        ensures
            r == jumped(now_ms, self.signed(ms)),
    {
        match self {
            JumpDirection::Forward => now_ms.saturating_add(ms),
            JumpDirection::Backward => now_ms.saturating_sub(ms),
        }
    }
}

/// The clock that a fault reads.
#[derive(Default)]
pub enum ClockSource {
    /// The clock of the system.
    #[default]
    System,
    /// A clock under the control of its owner.
    Mock(MockClock),
    /// A clock from elsewhere.
    Other(Box<dyn MalcolmClock>),
}

impl ClockSource {
    /// True if `ms` is a possible reading.
    pub open spec fn reads(self, ms: u64) -> bool {
        match self {
            ClockSource::System => RealClock.reads(ms),
            ClockSource::Mock(clock) => clock.reads(ms),
            ClockSource::Other(clock) => clock.reads(ms),
        }
    }

    /// True if only one reading is possible.
    pub open spec fn is_steady(self) -> bool {
        forall|a: u64, b: u64| #[trigger] self.reads(a) && #[trigger] self.reads(b) ==> a == b
    }

    /// Current time in milliseconds.
    pub fn now_ms(&self) -> (ms: u64)
        ensures
            self.reads(ms),
    {
        match self {
            ClockSource::System => RealClock.now_ms(),
            ClockSource::Mock(clock) => clock.now_ms(),
            ClockSource::Other(clock) => clock.now_ms(),
        }
    }
}

/// True if `result` records a fault of the given kind at the time that `clock`
/// shows, moved by `delta`.
pub open spec fn injected_by_clock(
    clock: ClockSource,
    kind: Seq<char>,
    node_id: Seq<char>,
    seed: u64,
    intensity: Scalar,
    delta: int,
    result: ResultView,
) -> bool {
    exists|now: u64|
        #[trigger] clock.reads(now) && result == injected_at(
            kind,
            node_id,
            seed,
            intensity,
            jumped(now, delta),
        )
}

/// A clock that drifts.
///
/// Each step of the drift is one value of a noise generator, scaled by the drift
/// rate and the intensity. The generator runs outside; a step comes in as a
/// direction and a number of whole milliseconds.
pub struct ClockSkew {
    /// The clock that is read.
    pub inner: ClockSource,
    /// Seed of the noise generator.
    pub seed: u64,
    /// Largest drift per step in milliseconds.
    pub drift_rate_ms_per_step: Scalar,
    /// Normalised intensity.
    pub intensity: Scalar,
}

impl ClockSkew {
    /// How a dry run explains this fault.
    pub open spec fn reason(self, node_id: Seq<char>) -> Seq<PartView> {
        seq![
            PartView::Text("would drift clock for node "@ + node_id + " by up to \u{00b1}"@),
            PartView::Product {
                left: self.drift_rate_ms_per_step,
                right: self.intensity,
                decimals: 2,
            },
            PartView::Text("ms per step (intensity "@),
            PartView::Fixed { value: self.intensity, decimals: 2 },
            PartView::Text(")"@),
        ]
    }

    /// Records one step of the drift.
    pub fn inject_drift(
        &self,
        ctx: &FaultContext,
        direction: JumpDirection,
        drift_ms: u64,
    ) -> (r: FaultResult)
        ensures
            injected_by_clock(
                self.inner,
                "clock_skew"@,
                ctx@.node_id,
                self.seed,
                self.intensity,
                direction.signed(drift_ms),
                r@,
            ),
    {
        let real_ms: u64 = self.inner.now_ms();
        record_injected(
            "clock_skew",
            ctx,
            self.seed,
            self.intensity,
            direction.moved(real_ms, drift_ms),
        )
    }

    /// Describes what a step of the drift would do.
    pub fn dry_run(&self, ctx: &FaultContext) -> (r: DryRunReport)
        ensures
            r@ == would_inject("clock_skew"@, ctx@.node_id, self.reason(ctx@.node_id)),
    {
        let words: String = text::concat3(
            "would drift clock for node ",
            ctx.node_id.as_str(),
            " by up to \u{00b1}",
        );
        let mut reason = Message::text(words.as_str());
        reason.push(
            Part::Product {
                left: self.drift_rate_ms_per_step,
                right: self.intensity,
                decimals: 2,
            },
        );
        reason.push_text("ms per step (intensity ");
        reason.push(Part::Fixed { value: self.intensity, decimals: 2 });
        reason.push_text(")");
        assert(reason@ =~= self.reason(ctx@.node_id));
        report_preview("clock_skew", ctx, reason)
    }

    /// Short, stable identifier of this fault kind.
    pub fn fault_type(&self) -> (r: &'static str)
        ensures
            r@ == "clock_skew"@,
    {
        "clock_skew"
    }

    /// Starts building a fault.
    pub fn builder() -> (r: ClockSkewBuilder)
        ensures
            r.seed is None,
            r.drift_rate_ms_per_step is None,
            r.intensity is None,
            r.clock is System,
    {
        ClockSkewBuilder { seed: None, drift_rate_ms_per_step: None, intensity: None, clock: ClockSource::System }
    }
}

/// Builder for [`ClockSkew`].
///
/// Unset fields: seed zero, 10 ms per step, intensity one, the system clock.
#[derive(Default)]
pub struct ClockSkewBuilder {
    /// Seed of the noise generator.
    pub seed: Option<u64>,
    /// Largest drift per step in milliseconds.
    pub drift_rate_ms_per_step: Option<Scalar>,
    /// Normalised intensity.
    pub intensity: Option<Scalar>,
    /// The clock that is read.
    pub clock: ClockSource,
}

impl ClockSkewBuilder {
    /// Sets the seed of the noise generator.
    pub fn seed(self, seed: u64) -> (r: Self)
        ensures
            r == (ClockSkewBuilder { seed: Some(seed), ..self }),
    {
        ClockSkewBuilder { seed: Some(seed), ..self }
    }

    /// Sets the largest drift per step.
    pub fn drift_rate_ms_per_step(self, rate: Scalar) -> (r: Self)
        ensures
            r == (ClockSkewBuilder { drift_rate_ms_per_step: Some(rate), ..self }),
    {
        ClockSkewBuilder { drift_rate_ms_per_step: Some(rate), ..self }
    }

    /// Sets the intensity.
    pub fn intensity(self, intensity: Scalar) -> (r: Self)
        ensures
            r == (ClockSkewBuilder { intensity: Some(intensity), ..self }),
    {
        ClockSkewBuilder { intensity: Some(intensity), ..self }
    }

    /// Sets the clock that is read.
    pub fn clock(self, clock: Box<dyn MalcolmClock>) -> (r: Self)
        ensures
            r == (ClockSkewBuilder { clock: ClockSource::Other(clock), ..self }),
    {
        ClockSkewBuilder { clock: ClockSource::Other(clock), ..self }
    }

    /// Sets a clock under the control of its owner as the one that is read.
    pub fn mock_clock(self, clock: MockClock) -> (r: Self)
        ensures
            r == (ClockSkewBuilder { clock: ClockSource::Mock(clock), ..self }),
    {
        ClockSkewBuilder { clock: ClockSource::Mock(clock), ..self }
    }

    /// Builds the fault.
    pub fn build(self) -> (r: ClockSkew)
        ensures
            r.seed == match self.seed {
                Some(v) => v,
                None => 0u64,
            },
            r.drift_rate_ms_per_step == match self.drift_rate_ms_per_step {
                Some(v) => v,
                None => (Scalar { bits: 0x4024_0000_0000_0000 }),
            },
            r.intensity == match self.intensity {
                Some(v) => v,
                None => (Scalar { bits: ONE_BITS }),
            },
            r.inner == self.clock,
    {
        ClockSkew {
            inner: self.clock,
            seed: match self.seed {
                Some(v) => v,
                None => 0,
            },
            drift_rate_ms_per_step: match self.drift_rate_ms_per_step {
                Some(v) => v,
                None => Scalar { bits: 0x4024_0000_0000_0000 },
            },
            intensity: match self.intensity {
                Some(v) => v,
                None => Scalar::one(),
            },
        }
    }
}

/// A clock that stands still for a time.
///
/// The time shown is the one that the inner clock had when the fault was injected.
pub struct ClockFreeze {
    /// The clock that is read.
    pub inner: ClockSource,
    /// Seed recorded with the event.
    pub seed: u64,
    /// Intended length of the freeze.
    pub freeze_duration_ms: u64,
}

impl ClockFreeze {
    /// How a dry run explains this fault, for a clock that shows `now`.
    pub open spec fn reason(self, node_id: Seq<char>, now: u64) -> Seq<PartView> {
        seq![
            PartView::Text(
                "would freeze clock for node "@ + node_id + " at "@ + text::decimal(now as nat)
                    + "ms for "@ + text::decimal(self.freeze_duration_ms as nat) + "ms"@,
            ),
        ]
    }

    /// Starts building a fault.
    pub fn builder() -> (r: ClockFreezeBuilder)
        ensures
            r.seed is None,
            r.freeze_duration_ms is None,
            r.clock is System,
    {
        ClockFreezeBuilder { seed: None, freeze_duration_ms: None, clock: ClockSource::System }
    }
}

impl Fault for ClockFreeze {
    open spec fn injects(&self, ctx: ContextView, result: ResultView) -> bool {
        injected_by_clock(
            self.inner,
            "clock_freeze"@,
            ctx.node_id,
            self.seed,
            Scalar { bits: ONE_BITS },
            0,
            result,
        )
    }

    open spec fn previews(&self, ctx: ContextView, report: DryRunView) -> bool {
        exists|now: u64|
            #[trigger] self.inner.reads(now) && report == would_inject(
                "clock_freeze"@,
                ctx.node_id,
                self.reason(ctx.node_id, now),
            )
    }

    open spec fn is_kind(&self, kind: Seq<char>) -> bool {
        kind == "clock_freeze"@
    }

    fn inject(&self, ctx: &FaultContext) -> (r: FaultResult) {
        let frozen_ms: u64 = self.inner.now_ms();
        record_injected("clock_freeze", ctx, self.seed, Scalar::one(), frozen_ms)
    }

    fn dry_run(&self, ctx: &FaultContext) -> (r: DryRunReport) {
        let frozen_ms: u64 = self.inner.now_ms();
        let now: String = text::decimal_of(frozen_ms);
        let length: String = text::decimal_of(self.freeze_duration_ms);
        let mut words: String = text::concat3(
            "would freeze clock for node ",
            ctx.node_id.as_str(),
            " at ",
        );
        words.append(now.as_str());
        words.append("ms for ");
        words.append(length.as_str());
        words.append("ms");
        let reason = Message::text(words.as_str());
        assert(reason@ =~= self.reason(ctx@.node_id, frozen_ms));
        report_preview("clock_freeze", ctx, reason)
    }

    fn fault_type(&self) -> (r: &'static str) {
        "clock_freeze"
    }
}

/// Builder for [`ClockFreeze`].
///
/// Unset fields: seed zero, 1000 ms, the system clock.
#[derive(Default)]
pub struct ClockFreezeBuilder {
    /// Seed recorded with the event.
    pub seed: Option<u64>,
    /// Intended length of the freeze.
    pub freeze_duration_ms: Option<u64>,
    /// The clock that is read.
    pub clock: ClockSource,
}

impl ClockFreezeBuilder {
    /// Sets the seed recorded with the event.
    pub fn seed(self, seed: u64) -> (r: Self)
        ensures
            r == (ClockFreezeBuilder { seed: Some(seed), ..self }),
    {
        ClockFreezeBuilder { seed: Some(seed), ..self }
    }

    /// Sets the intended length of the freeze.
    pub fn freeze_duration_ms(self, ms: u64) -> (r: Self)
        ensures
            r == (ClockFreezeBuilder { freeze_duration_ms: Some(ms), ..self }),
    {
        ClockFreezeBuilder { freeze_duration_ms: Some(ms), ..self }
    }

    /// Sets the clock that is read.
    pub fn clock(self, clock: Box<dyn MalcolmClock>) -> (r: Self)
        ensures
            r == (ClockFreezeBuilder { clock: ClockSource::Other(clock), ..self }),
    {
        ClockFreezeBuilder { clock: ClockSource::Other(clock), ..self }
    }

    /// Sets a clock under the control of its owner as the one that is read.
    pub fn mock_clock(self, clock: MockClock) -> (r: Self)
        ensures
            r == (ClockFreezeBuilder { clock: ClockSource::Mock(clock), ..self }),
    {
        ClockFreezeBuilder { clock: ClockSource::Mock(clock), ..self }
    }

    /// Builds the fault.
    pub fn build(self) -> (r: ClockFreeze)
        ensures
            r.seed == match self.seed {
                Some(v) => v,
                None => 0u64,
            },
            r.freeze_duration_ms == match self.freeze_duration_ms {
                Some(v) => v,
                None => 1_000,
            },
            r.inner == self.clock,
    {
        ClockFreeze {
            inner: self.clock,
            seed: match self.seed {
                Some(v) => v,
                None => 0,
            },
            freeze_duration_ms: match self.freeze_duration_ms {
                Some(v) => v,
                None => 1_000,
            },
        }
    }
}

/// An abrupt jump of the clock.
///
/// The size of the jump is a log-normal draw. It is drawn outside and comes in as a
/// number of whole milliseconds.
pub struct ClockJump {
    /// The clock that is read.
    pub inner: ClockSource,
    /// Seed of the random draws.
    pub seed: u64,
    /// Log-space mean of the size.
    pub mu: Scalar,
    /// Log-space standard deviation of the size.
    pub sigma: Scalar,
    /// Direction of the jump.
    pub direction: JumpDirection,
    /// Size of the jump in whole milliseconds.
    pub jump_ms: u64,
}

impl ClockJump {
    /// How a dry run explains this fault.
    pub open spec fn reason(self, node_id: Seq<char>) -> Seq<PartView> {
        seq![
            PartView::Text(
                "would jump clock for node "@ + node_id + " "@ + self.direction.label() + " by "@,
            ),
            PartView::Sampled {
                sample: Sample::LogNormal { mu: self.mu, sigma: self.sigma, seed: self.seed },
                decimals: 2,
            },
            PartView::Text("ms (LogNormal mu="@),
            PartView::Fixed { value: self.mu, decimals: 2 },
            PartView::Text(" sigma="@),
            PartView::Fixed { value: self.sigma, decimals: 2 },
            PartView::Text(")"@),
        ]
    }

    /// The random size of the jump in milliseconds; its whole part counts.
    pub fn size(&self) -> (r: Sample)
        ensures
            r == (Sample::LogNormal { mu: self.mu, sigma: self.sigma, seed: self.seed }),
    {
        Sample::LogNormal { mu: self.mu, sigma: self.sigma, seed: self.seed }
    }

    /// Starts building a fault.
    pub fn builder() -> (r: ClockJumpBuilder)
        ensures
            r.seed is None,
            r.mu is None,
            r.sigma is None,
            r.direction is None,
            r.clock is System,
    {
        ClockJumpBuilder {
            seed: None,
            mu: None,
            sigma: None,
            direction: None,
            clock: ClockSource::System,
        }
    }
}

impl Fault for ClockJump {
    open spec fn injects(&self, ctx: ContextView, result: ResultView) -> bool {
        injected_by_clock(
            self.inner,
            "clock_jump"@,
            ctx.node_id,
            self.seed,
            Scalar { bits: ONE_BITS },
            self.direction.signed(self.jump_ms),
            result,
        )
    }

    open spec fn previews(&self, ctx: ContextView, report: DryRunView) -> bool {
        report == would_inject("clock_jump"@, ctx.node_id, self.reason(ctx.node_id))
    }

    open spec fn is_kind(&self, kind: Seq<char>) -> bool {
        kind == "clock_jump"@
    }

    fn inject(&self, ctx: &FaultContext) -> (r: FaultResult) {
        let real_ms: u64 = self.inner.now_ms();
        record_injected(
            "clock_jump",
            ctx,
            self.seed,
            Scalar::one(),
            self.direction.moved(real_ms, self.jump_ms),
        )
    }

    fn dry_run(&self, ctx: &FaultContext) -> (r: DryRunReport) {
        let mut words: String = text::concat3(
            "would jump clock for node ",
            ctx.node_id.as_str(),
            " ",
        );
        words.append(self.direction.show());
        words.append(" by ");
        let mut reason = Message::text(words.as_str());
        reason.push(Part::Sampled { sample: self.size(), decimals: 2 });
        reason.push_text("ms (LogNormal mu=");
        reason.push(Part::Fixed { value: self.mu, decimals: 2 });
        reason.push_text(" sigma=");
        reason.push(Part::Fixed { value: self.sigma, decimals: 2 });
        reason.push_text(")");
        assert(reason@ =~= self.reason(ctx@.node_id));
        report_preview("clock_jump", ctx, reason)
    }

    fn fault_type(&self) -> (r: &'static str) {
        "clock_jump"
    }
}

/// Builder for [`ClockJump`].
///
/// Unset fields: seed zero, mean three, deviation one, forward, the system clock,
/// size zero.
#[derive(Default)]
pub struct ClockJumpBuilder {
    /// Seed of the random draws.
    pub seed: Option<u64>,
    /// Log-space mean of the size.
    pub mu: Option<Scalar>,
    /// Log-space standard deviation of the size.
    pub sigma: Option<Scalar>,
    /// Direction of the jump.
    pub direction: Option<JumpDirection>,
    /// The clock that is read.
    pub clock: ClockSource,
}

impl ClockJumpBuilder {
    /// Sets the seed of the random draws.
    pub fn seed(self, seed: u64) -> (r: Self)
        ensures
            r == (ClockJumpBuilder { seed: Some(seed), ..self }),
    {
        ClockJumpBuilder { seed: Some(seed), ..self }
    }

    /// Sets the log-space mean of the size.
    pub fn mu(self, mu: Scalar) -> (r: Self)
        ensures
            r == (ClockJumpBuilder { mu: Some(mu), ..self }),
    {
        ClockJumpBuilder { mu: Some(mu), ..self }
    }

    /// Sets the log-space standard deviation of the size.
    pub fn sigma(self, sigma: Scalar) -> (r: Self)
        ensures
            r == (ClockJumpBuilder { sigma: Some(sigma), ..self }),
    {
        ClockJumpBuilder { sigma: Some(sigma), ..self }
    }

    /// Sets the direction.
    pub fn direction(self, direction: JumpDirection) -> (r: Self)
        ensures
            r == (ClockJumpBuilder { direction: Some(direction), ..self }),
    {
        ClockJumpBuilder { direction: Some(direction), ..self }
    }

    /// Sets the clock that is read.
    pub fn clock(self, clock: Box<dyn MalcolmClock>) -> (r: Self)
        ensures
            r == (ClockJumpBuilder { clock: ClockSource::Other(clock), ..self }),
    {
        ClockJumpBuilder { clock: ClockSource::Other(clock), ..self }
    }

    /// Sets a clock under the control of its owner as the one that is read.
    pub fn mock_clock(self, clock: MockClock) -> (r: Self)
        ensures
            r == (ClockJumpBuilder { clock: ClockSource::Mock(clock), ..self }),
    {
        ClockJumpBuilder { clock: ClockSource::Mock(clock), ..self }
    }

    /// The random size of the jump that is to be drawn for the fault; its whole part
    /// counts.
    pub fn size(&self) -> (r: Sample)
        ensures
            r == (Sample::LogNormal {
                mu: match self.mu {
                    Some(v) => v,
                    None => (Scalar { bits: 0x4008_0000_0000_0000 }),
                },
                sigma: match self.sigma {
                    Some(v) => v,
                    None => (Scalar { bits: ONE_BITS }),
                },
                seed: match self.seed {
                    Some(v) => v,
                    None => 0u64,
                },
            }),
    {
        Sample::LogNormal {
            mu: match self.mu {
                Some(v) => v,
                None => Scalar { bits: 0x4008_0000_0000_0000 },
            },
            sigma: match self.sigma {
                Some(v) => v,
                None => Scalar::one(),
            },
            seed: match self.seed {
                Some(v) => v,
                None => 0,
            },
        }
    }

    /// Builds the fault, given the size that was drawn for its jump.
    pub fn build(self, jump_ms: u64) -> (r: ClockJump)
        ensures
            r.seed == match self.seed {
                Some(v) => v,
                None => 0u64,
            },
            r.mu == match self.mu {
                Some(v) => v,
                None => (Scalar { bits: 0x4008_0000_0000_0000 }),
            },
            r.sigma == match self.sigma {
                Some(v) => v,
                None => (Scalar { bits: ONE_BITS }),
            },
            r.direction == match self.direction {
                Some(v) => v,
                None => JumpDirection::Forward,
            },
            r.jump_ms == jump_ms,
            r.inner == self.clock,
    {
        ClockJump {
            inner: self.clock,
            seed: match self.seed {
                Some(v) => v,
                None => 0,
            },
            mu: match self.mu {
                Some(v) => v,
                None => Scalar { bits: 0x4008_0000_0000_0000 },
            },
            sigma: match self.sigma {
                Some(v) => v,
                None => Scalar::one(),
            },
            direction: match self.direction {
                Some(v) => v,
                None => JumpDirection::Forward,
            },
            jump_ms,
        }
    }
}

/// The three clock faults with seeds in a row.
pub struct ClockFaultSuite {
    /// The drifting clock.
    pub skew: ClockSkew,
    /// The frozen clock.
    pub freeze: ClockFreeze,
    /// The jumping clock.
    pub jump: ClockJump,
    /// Stability profile.
    pub profile: BifurcationProfile,
}

impl ClockFaultSuite {
    /// A suite whose faults take `seed` and the two seeds after it, in wrapping
    /// order, and otherwise what their builders give. `jump_ms` is the size that was
    /// drawn for the jump.
    pub fn new(seed: u64, jump_ms: u64) -> (r: Self)
        ensures
            r.skew.seed == seed,
            r.freeze.seed == (seed + 1) % 0x1_0000_0000_0000_0000,
            r.jump.seed == (seed + 2) % 0x1_0000_0000_0000_0000,
            r.skew.intensity == (Scalar { bits: ONE_BITS }),
            r.skew.drift_rate_ms_per_step == (Scalar { bits: 0x4024_0000_0000_0000 }),
            r.freeze.freeze_duration_ms == 1_000,
            r.jump.mu == (Scalar { bits: 0x4008_0000_0000_0000 }),
            r.jump.sigma == (Scalar { bits: ONE_BITS }),
            r.jump.direction == JumpDirection::Forward,
            r.jump.jump_ms == jump_ms,
            r.skew.inner is System,
            r.freeze.inner is System,
            r.jump.inner is System,
            r.profile.label@ == "clock_skew"@,
    {
        ClockFaultSuite {
            skew: ClockSkew::builder().seed(seed).build(),
            freeze: ClockFreeze::builder().seed(seed.wrapping_add(1)).build(),
            jump: ClockJump::builder().seed(seed.wrapping_add(2)).build(jump_ms),
            profile: BifurcationProfile::clock_skew(),
        }
    }

    /// Injects the three faults in order: one step of the drift, the freeze, and
    /// the jump.
    pub fn inject_all(
        &self,
        ctx: &FaultContext,
        drift: JumpDirection,
        drift_ms: u64,
    ) -> (out: Vec<FaultResult>)
        ensures
            out@.len() == 3,
            injected_by_clock(
                self.skew.inner,
                "clock_skew"@,
                ctx@.node_id,
                self.skew.seed,
                self.skew.intensity,
                drift.signed(drift_ms),
                out@[0]@,
            ),
            self.freeze.injects(ctx@, out@[1]@),
            self.jump.injects(ctx@, out@[2]@),
    {
        let mut out: Vec<FaultResult> = Vec::new();
        out.push(self.skew.inject_drift(ctx, drift, drift_ms));
        out.push(self.freeze.inject(ctx));
        out.push(self.jump.inject(ctx));
        out
    }
}

} // verus!
