//! Laws of dry runs: what the explanation of a fault tells its reader.

use crate::fault::{jumped, ContextView, Fault};
use crate::faults::any::AnyFault;
use crate::faults::byzantine::StrategyView;
use crate::faults::clock::{injected_by_clock, ClockSkew, JumpDirection};
use crate::message::{PartView, Sample};
use crate::text::{decimal, joined};
use crate::topology::cascade::CascadeFault;
use crate::types::{DryRunView, ResultView};
use vstd::prelude::*;

verus! {

/// True if the text at place `k` holds `word` from place `p` on.
pub open spec fn is_said_at(reason: Seq<PartView>, word: Seq<char>, k: int, p: int) -> bool {
    0 <= k < reason.len() && (reason[k] matches PartView::Text(t) && 0 <= p && p + word.len()
        <= t.len() && t.subrange(p, p + word.len()) == word)
}

/// True if a text of the explanation holds `word`.
pub open spec fn is_said(reason: Seq<PartView>, word: Seq<char>) -> bool {
    exists|k: int, p: int| #[trigger] is_said_at(reason, word, k, p)
}

proof fn words_between_are_said(
    reason: Seq<PartView>,
    k: int,
    before: Seq<char>,
    word: Seq<char>,
    after: Seq<char>,
)
    requires
        0 <= k < reason.len(),
        reason[k] == PartView::Text(before + word + after),
    ensures
        is_said(reason, word),
{
    let t = before + word + after;
    assert(t.subrange(before.len() as int, (before.len() + word.len()) as int) =~= word);
    assert(is_said_at(reason, word, k, before.len() as int));
}

/// A dry run names the node.
pub proof fn previews_name_the_node(fault: AnyFault, ctx: ContextView, report: DryRunView)
    requires
        !(fault is Custom),
        fault.previews(ctx, report),
    ensures
        is_said(report.reason, ctx.node_id),
{
    let r = report.reason;
    let n = ctx.node_id;
    match fault {
        AnyFault::NetworkPartition(_) => {
            words_between_are_said(r, 0, "would partition node "@, n, " for "@);
        },
        AnyFault::PacketLoss(_) => {
            words_between_are_said(r, 2, " on node "@, n, " (Pareto alpha="@);
        },
        AnyFault::LatencySpike(_) => {
            words_between_are_said(r, 2, "ms latency on node "@, n, " (mu="@);
        },
        AnyFault::BandwidthThrottle(f) => {
            words_between_are_said(
                r,
                0,
                "would cap bandwidth to "@ + decimal(f.bytes_per_sec as nat) + " bytes/sec on node "@,
                n,
                " at intensity "@,
            );
        },
        AnyFault::MemoryPressure(f) => {
            let before = "% of "@ + decimal(f.max_bytes as nat) + " byte ceiling) for "@ + decimal(
                f.duration_ms as nat,
            ) + "ms on node "@;
            assert(before + n =~= before + n + Seq::empty());
            words_between_are_said(r, 4, before, n, Seq::empty());
        },
        AnyFault::CpuThrottle(f) => {
            let before = "% of "@ + decimal(f.duration_ms as nat) + "ms window) on node "@;
            assert(before + n =~= before + n + Seq::empty());
            words_between_are_said(r, 4, before, n, Seq::empty());
        },
        AnyFault::ClockFreeze(f) => {
            let now = choose|now: u64|
                #[trigger] f.inner.reads(now) && report == crate::fault::would_inject(
                    "clock_freeze"@,
                    ctx.node_id,
                    f.reason(ctx.node_id, now),
                );
            let after = " at "@ + decimal(now as nat) + "ms for "@ + decimal(
                f.freeze_duration_ms as nat,
            ) + "ms"@;
            assert("would freeze clock for node "@ + n + " at "@ + decimal(now as nat) + "ms for "@
                + decimal(f.freeze_duration_ms as nat) + "ms"@ =~= "would freeze clock for node "@
                + n + after);
            words_between_are_said(r, 0, "would freeze clock for node "@, n, after);
        },
        AnyFault::ClockJump(f) => {
            let after = " "@ + f.direction.label() + " by "@;
            assert("would jump clock for node "@ + n + " "@ + f.direction.label() + " by "@
                =~= "would jump clock for node "@ + n + after);
            words_between_are_said(r, 0, "would jump clock for node "@, n, after);
        },
        AnyFault::LyingNode(f) => {
            let before = "would corrupt "@ + decimal(f.payload@.len())
                + "-byte payload for node "@;
            let shown = crate::faults::byzantine::strategy_text(f.strategy@);
            let after = " (strategy: "@ + shown + ", p="@;
            assert(before + n + " (strategy: "@ + shown + ", p="@ =~= before + n + after);
            words_between_are_said(r, 0, before, n, after);
        },
        AnyFault::PartialResponse(f) => {
            let before = "would truncate "@ + decimal(f.payload@.len())
                + "-byte payload for node "@;
            words_between_are_said(r, 0, before, n, " using Pareto(alpha="@);
        },
        AnyFault::SlowCorrect(_) => {
            words_between_are_said(r, 0, "would delay response to node "@, n, " by ~"@);
        },
        AnyFault::Custom(_) => {},
    }
}

/// A dry run tells the parameters of the fault: what would be drawn, under the seed of the
/// fault and from its own distribution, and the figures that the fault was given.
pub proof fn previews_tell_the_parameters(fault: AnyFault, ctx: ContextView, report: DryRunView)
    requires
        !(fault is Custom),
        fault.previews(ctx, report),
    ensures
        match fault {
            AnyFault::NetworkPartition(f) => {
                &&& report.reason.contains(
                    PartView::Sampled {
                        sample: Sample::PowerLaw { alpha: f.alpha, seed: f.seed },
                        decimals: 2,
                    },
                )
                &&& report.reason.contains(PartView::Fixed { value: f.intensity, decimals: 2 })
            },
            AnyFault::PacketLoss(f) => {
                &&& report.reason.contains(
                    PartView::Sampled {
                        sample: Sample::Pareto { alpha: f.alpha, x_min: f.x_min, seed: f.seed },
                        decimals: 3,
                    },
                )
                &&& report.reason[3] == (PartView::Fixed { value: f.alpha, decimals: 2 })
                &&& report.reason[5] == (PartView::Fixed { value: f.x_min, decimals: 2 })
            },
            AnyFault::LatencySpike(f) => {
                &&& report.reason.contains(
                    PartView::Sampled {
                        sample: Sample::Latency {
                            base_ms: f.base_ms,
                            sigma: f.sigma,
                            noise: f.noise_type,
                            seed: f.seed,
                        },
                        decimals: 2,
                    },
                )
                &&& report.reason[3] == (PartView::Log { value: f.base_ms, decimals: 2 })
                &&& report.reason[5] == (PartView::Fixed { value: f.sigma, decimals: 2 })
                &&& is_said(report.reason, f.noise_type.label())
            },
            AnyFault::BandwidthThrottle(f) => {
                &&& is_said(report.reason, decimal(f.bytes_per_sec as nat))
                &&& report.reason.contains(PartView::Fixed { value: f.intensity, decimals: 2 })
            },
            AnyFault::MemoryPressure(f) => {
                &&& report.reason.contains(
                    PartView::Share { ratio: f.intensity, whole: f.max_bytes as u64 },
                )
                &&& report.reason.contains(PartView::Percent { value: f.intensity, decimals: 1 })
                &&& is_said(report.reason, decimal(f.max_bytes as nat))
                &&& is_said(report.reason, decimal(f.duration_ms as nat) + "ms on node "@)
            },
            AnyFault::CpuThrottle(f) => {
                &&& report.reason.contains(
                    PartView::Share { ratio: f.fraction, whole: f.duration_ms },
                )
                &&& report.reason.contains(PartView::Percent { value: f.fraction, decimals: 1 })
                &&& is_said(report.reason, decimal(f.duration_ms as nat))
            },
            AnyFault::ClockFreeze(f) => exists|now: u64| #[trigger]
                f.inner.reads(now) && is_said(report.reason, " at "@ + decimal(now as nat) + "ms for "@
                    + decimal(f.freeze_duration_ms as nat) + "ms"@),
            AnyFault::ClockJump(f) => {
                &&& report.reason.contains(
                    PartView::Sampled {
                        sample: Sample::LogNormal { mu: f.mu, sigma: f.sigma, seed: f.seed },
                        decimals: 2,
                    },
                )
                &&& is_said(
                    report.reason,
                    match f.direction {
                        JumpDirection::Forward => "Forward"@,
                        JumpDirection::Backward => "Backward"@,
                    },
                )
                &&& report.reason[3] == (PartView::Fixed { value: f.mu, decimals: 2 })
                &&& report.reason[5] == (PartView::Fixed { value: f.sigma, decimals: 2 })
            },
            AnyFault::LyingNode(f) => {
                &&& is_said(report.reason, decimal(f.payload@.len()))
                &&& is_said(
                    report.reason,
                    match f.strategy@ {
                        StrategyView::BitFlip { num_bits } => "BitFlip { num_bits: "@ + decimal(
                            num_bits as nat,
                        ) + " }"@,
                        StrategyView::FieldSubstitution { offset, replacement } => {
                            "FieldSubstitution { offset: "@ + decimal(offset as nat)
                                + ", replacement: ["@ + joined(
                                replacement.map_values(|b: u8| decimal(b as nat)),
                                ", "@,
                            ) + "] }"@
                        },
                        StrategyView::StructuralCorruption { fill_byte } => {
                            "StructuralCorruption { fill_byte: "@ + decimal(fill_byte as nat)
                                + " }"@
                        },
                    },
                )
                &&& report.reason.contains(
                    PartView::Fixed { value: f.byzantine_probability, decimals: 2 },
                )
            },
            AnyFault::PartialResponse(f) => {
                &&& is_said(report.reason, decimal(f.payload@.len()))
                &&& report.reason[1] == (PartView::Fixed { value: f.alpha, decimals: 2 })
                &&& report.reason[3] == (PartView::Fixed { value: f.x_min, decimals: 2 })
            },
            AnyFault::SlowCorrect(f) => {
                &&& report.reason.contains(
                    PartView::Sampled {
                        sample: Sample::LogNormal { mu: f.mu, sigma: f.sigma, seed: f.seed },
                        decimals: 2,
                    },
                )
                &&& report.reason[3] == (PartView::Fixed { value: f.mu, decimals: 2 })
                &&& report.reason[5] == (PartView::Fixed { value: f.sigma, decimals: 2 })
            },
            AnyFault::Custom(_) => true,
        },
{
    let r = report.reason;
    let n = ctx.node_id;
    match fault {
        AnyFault::NetworkPartition(f) => {
            assert(r.contains(r[1]) && r.contains(r[3]));
        },
        AnyFault::PacketLoss(f) => {
            assert(r.contains(r[1]));
        },
        AnyFault::LatencySpike(f) => {
            assert(r.contains(r[1]));
            words_between_are_said(r, 6, ", noise="@, f.noise_type.label(), ")"@);
        },
        AnyFault::BandwidthThrottle(f) => {
            assert(r.contains(r[1]));
            let after = " bytes/sec on node "@ + n + " at intensity "@;
            let d = decimal(f.bytes_per_sec as nat);
            assert("would cap bandwidth to "@ + d + " bytes/sec on node "@ + n + " at intensity "@
                =~= "would cap bandwidth to "@ + d + after);
            words_between_are_said(r, 0, "would cap bandwidth to "@, d, after);
        },
        AnyFault::MemoryPressure(f) => {
            assert(r.contains(r[1]) && r.contains(r[3]));
            let m = decimal(f.max_bytes as nat);
            let d = decimal(f.duration_ms as nat);
            let whole = "% of "@ + m + " byte ceiling) for "@ + d + "ms on node "@ + n;
            assert(whole =~= "% of "@ + m + (" byte ceiling) for "@ + d + "ms on node "@ + n));
            words_between_are_said(r, 4, "% of "@, m, " byte ceiling) for "@ + d + "ms on node "@ + n);
            assert(whole =~= ("% of "@ + m + " byte ceiling) for "@) + (d + "ms on node "@) + n);
            words_between_are_said(r, 4, "% of "@ + m + " byte ceiling) for "@, d + "ms on node "@, n);
        },
        AnyFault::CpuThrottle(f) => {
            assert(r.contains(r[1]) && r.contains(r[3]));
            let d = decimal(f.duration_ms as nat);
            assert("% of "@ + d + "ms window) on node "@ + n =~= "% of "@ + d + (
            "ms window) on node "@ + n));
            words_between_are_said(r, 4, "% of "@, d, "ms window) on node "@ + n);
        },
        AnyFault::ClockFreeze(f) => {
            let now = choose|now: u64|
                #[trigger] f.inner.reads(now) && report == crate::fault::would_inject(
                    "clock_freeze"@,
                    ctx.node_id,
                    f.reason(ctx.node_id, now),
                );
            let said = " at "@ + decimal(now as nat) + "ms for "@ + decimal(
                f.freeze_duration_ms as nat,
            ) + "ms"@;
            assert("would freeze clock for node "@ + n + " at "@ + decimal(now as nat) + "ms for "@
                + decimal(f.freeze_duration_ms as nat) + "ms"@ =~= ("would freeze clock for node "@
                + n) + said + Seq::empty());
            words_between_are_said(r, 0, "would freeze clock for node "@ + n, said, Seq::empty());
        },
        AnyFault::ClockJump(f) => {
            assert(r.contains(r[1]));
            words_between_are_said(
                r,
                0,
                "would jump clock for node "@ + n + " "@,
                f.direction.label(),
                " by "@,
            );
        },
        AnyFault::LyingNode(f) => {
            assert(r.contains(r[1]));
            let d = decimal(f.payload@.len());
            let shown = crate::faults::byzantine::strategy_text(f.strategy@);
            let after = "-byte payload for node "@ + n + " (strategy: "@ + shown + ", p="@;
            assert("would corrupt "@ + d + "-byte payload for node "@ + n + " (strategy: "@ + shown
                + ", p="@ =~= "would corrupt "@ + d + after);
            words_between_are_said(r, 0, "would corrupt "@, d, after);
            words_between_are_said(
                r,
                0,
                "would corrupt "@ + d + "-byte payload for node "@ + n + " (strategy: "@,
                shown,
                ", p="@,
            );
            if let StrategyView::FieldSubstitution { offset, replacement } = f.strategy@ {
                assert(crate::faults::byzantine::byte_texts(replacement) =~= replacement.map_values(
                    |b: u8| decimal(b as nat),
                ));
            }
        },
        AnyFault::PartialResponse(f) => {
            let d = decimal(f.payload@.len());
            let after = "-byte payload for node "@ + n + " using Pareto(alpha="@;
            assert("would truncate "@ + d + "-byte payload for node "@ + n
                + " using Pareto(alpha="@ =~= "would truncate "@ + d + after);
            words_between_are_said(r, 0, "would truncate "@, d, after);
        },
        AnyFault::SlowCorrect(f) => {
            assert(r.contains(r[1]));
        },
        AnyFault::Custom(_) => {},
    }
}

/// A dry run of a drifting clock names the node and tells the largest drift of a step: the
/// drift rate times the intensity.
pub proof fn drifts_are_explained(skew: ClockSkew, node_id: Seq<char>)
    ensures
        is_said(skew.reason(node_id), node_id),
        skew.reason(node_id).contains(
            PartView::Product {
                left: skew.drift_rate_ms_per_step,
                right: skew.intensity,
                decimals: 2,
            },
        ),
        skew.reason(node_id).contains(PartView::Fixed { value: skew.intensity, decimals: 2 }),
{
    let r = skew.reason(node_id);
    words_between_are_said(r, 0, "would drift clock for node "@, node_id, " by up to \u{00b1}"@);
    assert(r.contains(r[1]) && r.contains(r[3]));
}

/// A dry run of a cascade says what that of the wrapped fault says, and names the graph and the
/// node.
pub proof fn cascades_are_explained(fault: CascadeFault, node_id: Seq<char>, inner: DryRunView)
    ensures
        fault.preview_of(node_id, inner).node_id == node_id,
        fault.preview_of(node_id, inner).would_inject == inner.would_inject,
        fault.preview_of(node_id, inner).fault_type == "cascade_fault"@,
        fault.preview_of(node_id, inner).reason.len() == inner.reason.len() + 2,
        fault.preview_of(node_id, inner).reason.subrange(1, (inner.reason.len() + 1) as int)
            == inner.reason,
        is_said(fault.preview_of(node_id, inner).reason, fault.topology.title()),
        is_said(fault.preview_of(node_id, inner).reason, node_id),
{
    let r = fault.preview_of(node_id, inner).reason;
    let title = fault.topology.title();
    let a = "cascade dry-run on topology '"@;
    assert(r.subrange(1, (inner.reason.len() + 1) as int) =~= inner.reason);
    assert(a + title + "' for node "@ + node_id + " (inner: "@ =~= a + title + ("' for node "@
        + node_id + " (inner: "@));
    words_between_are_said(r, 0, a, title, "' for node "@ + node_id + " (inner: "@);
    words_between_are_said(r, 0, a + title + "' for node "@, node_id, " (inner: "@);
}

/// A time that is moved keeps within the range of timestamps and lies, within it, exactly as far
/// from where it was as it was moved: a move back undoes a move that reached no end.
pub proof fn moves_can_be_undone(now: u64, delta: int)
    ensures
        0 <= now + delta <= u64::MAX ==> jumped(now, delta) - now == delta && jumped(
            jumped(now, delta),
            -delta,
        ) == now,
        now + delta < 0 ==> jumped(now, delta) == 0,
        now + delta > u64::MAX ==> jumped(now, delta) == u64::MAX,
{
}

/// A step of a drifting clock is recorded as an injection, on the node that was given and with
/// seed and intensity of the fault, at a reading of the clock, moved by the step.
pub proof fn drifts_are_recorded(
    skew: ClockSkew,
    node_id: Seq<char>,
    direction: JumpDirection,
    drift_ms: u64,
    result: ResultView,
) -> (now: u64)
    requires
        injected_by_clock(
            skew.inner,
            "clock_skew"@,
            node_id,
            skew.seed,
            skew.intensity,
            direction.signed(drift_ms),
            result,
        ),
    ensures
        skew.inner.reads(now),
        result matches ResultView::Injected(e) && {
            &&& e.fault_type == "clock_skew"@
            &&& e.node_id == node_id
            &&& e.seed == skew.seed
            &&& e.intensity == skew.intensity
            &&& !e.dry_run
            &&& direction == JumpDirection::Forward ==> e.timestamp_ms >= now && (e.timestamp_ms
                - now == drift_ms || e.timestamp_ms == u64::MAX)
            &&& direction == JumpDirection::Backward ==> e.timestamp_ms <= now && (now
                - e.timestamp_ms == drift_ms || e.timestamp_ms == 0)
        },
{
    choose|now: u64| #[trigger]
        skew.inner.reads(now) && result == crate::fault::injected_at(
            "clock_skew"@,
            node_id,
            skew.seed,
            skew.intensity,
            jumped(now, direction.signed(drift_ms)),
        )
}

} // verus!
