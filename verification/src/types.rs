//! Fault events, outcomes and reports.

use crate::message::{Message, PartView};
use crate::scalar::Scalar;
use vstd::prelude::*;

verus! {

/// A stability profile of the target system, named by its label.
///
/// The thresholds that belong to a label are looked up where a regime is
/// classified.
#[derive(Clone, Copy, Debug, PartialEq, Eq)]
pub struct BifurcationProfile {
    /// Short stable name.
    pub label: &'static str,
}

impl BifurcationProfile {
    /// Profile of network partitions.
    pub fn network_partition() -> (r: Self)
        ensures
            r.label@ == "network_partition"@,
    {
        BifurcationProfile { label: "network_partition" }
    }

    /// Profile of memory pressure.
    pub fn memory_pressure() -> (r: Self)
        ensures
            r.label@ == "memory_pressure"@,
    {
        BifurcationProfile { label: "memory_pressure" }
    }

    /// Profile of latency cascades.
    pub fn latency_cascade() -> (r: Self)
        ensures
            r.label@ == "latency_cascade"@,
    {
        BifurcationProfile { label: "latency_cascade" }
    }

    /// Profile of Byzantine nodes.
    pub fn byzantine_node() -> (r: Self)
        ensures
            r.label@ == "byzantine_node"@,
    {
        BifurcationProfile { label: "byzantine_node" }
    }

    /// Profile of clock skew.
    pub fn clock_skew() -> (r: Self)
        ensures
            r.label@ == "clock_skew"@,
    {
        BifurcationProfile { label: "clock_skew" }
    }
}

/// Record of one injected fault.
#[derive(Debug, PartialEq, Eq)]
pub struct FaultEvent {
    /// Identifier for the kind of fault.
    pub fault_type: String,
    /// Identifier of the targeted node.
    pub node_id: String,
    /// Seed used for deterministic replay.
    pub seed: u64,
    /// Normalised fault intensity.
    pub intensity: Scalar,
    /// Whether this event came from dry-run mode.
    pub dry_run: bool,
    /// Event timestamp in milliseconds.
    pub timestamp_ms: u64,
}

/// Model of a fault event.
pub struct EventView {
    pub fault_type: Seq<char>,
    pub node_id: Seq<char>,
    pub seed: u64,
    pub intensity: Scalar,
    pub dry_run: bool,
    pub timestamp_ms: u64,
}

impl View for FaultEvent {
    type V = EventView;

    open spec fn view(&self) -> EventView {
        EventView {
            fault_type: self.fault_type@,
            node_id: self.node_id@,
            seed: self.seed,
            intensity: self.intensity,
            dry_run: self.dry_run,
            timestamp_ms: self.timestamp_ms,
        }
    }
}

impl Clone for FaultEvent {
    fn clone(&self) -> (r: Self)
        ensures
            r == *self,
    {
        FaultEvent {
            fault_type: self.fault_type.clone(),
            node_id: self.node_id.clone(),
            seed: self.seed,
            intensity: self.intensity,
            dry_run: self.dry_run,
            timestamp_ms: self.timestamp_ms,
        }
    }
}

/// Why a fault was not injected.
#[derive(Clone, Copy, Debug, PartialEq, Eq, Structural)]
pub enum SkipReason {
    /// The intensity stayed below the threshold.
    BelowThreshold,
    /// The call was a dry run.
    DryRun,
    /// The fault was cancelled.
    Cancelled,
}

/// Outcome of one injection.
#[derive(Debug, PartialEq, Eq)]
pub enum FaultResult {
    /// The fault was injected.
    Injected(FaultEvent),
    /// The fault was skipped.
    Skipped(SkipReason),
}

/// Model of an injection outcome.
pub enum ResultView {
    Injected(EventView),
    Skipped(SkipReason),
}

impl View for FaultResult {
    type V = ResultView;

    open spec fn view(&self) -> ResultView {
        match *self {
            FaultResult::Injected(event) => ResultView::Injected(event@),
            FaultResult::Skipped(reason) => ResultView::Skipped(reason),
        }
    }
}

impl Clone for FaultResult {
    fn clone(&self) -> (r: Self)
        ensures
            r == *self,
    {
        match self {
            FaultResult::Injected(event) => FaultResult::Injected(event.clone()),
            FaultResult::Skipped(reason) => FaultResult::Skipped(*reason),
        }
    }
}

/// What a fault would do, without side effects.
#[derive(Debug, PartialEq, Eq)]
pub struct DryRunReport {
    /// Identifier for the kind of fault.
    pub fault_type: String,
    /// Identifier of the targeted node.
    pub node_id: String,
    /// Whether the fault would be injected.
    pub would_inject: bool,
    /// Explanation for a reader.
    pub reason: Message,
}

/// Model of a dry-run report.
pub struct DryRunView {
    pub fault_type: Seq<char>,
    pub node_id: Seq<char>,
    pub would_inject: bool,
    pub reason: Seq<PartView>,
}

impl View for DryRunReport {
    type V = DryRunView;

    open spec fn view(&self) -> DryRunView {
        DryRunView {
            fault_type: self.fault_type@,
            node_id: self.node_id@,
            would_inject: self.would_inject,
            reason: self.reason@,
        }
    }
}

impl Clone for DryRunReport {
    fn clone(&self) -> (r: Self)
        ensures
            r@ == self@,
    {
        DryRunReport {
            fault_type: self.fault_type.clone(),
            node_id: self.node_id.clone(),
            would_inject: self.would_inject,
            reason: self.reason.clone(),
        }
    }
}

} // verus!
