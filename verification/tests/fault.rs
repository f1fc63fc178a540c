use malcolm::fault::{
    bound_millis, count_unset, Fault, FaultContext, FaultHandle, FaultRegistry, MalcolmClock,
    MockClock, RealClock,
};
use malcolm::message::Message;
use malcolm::scalar::Scalar;
use malcolm::types::{BifurcationProfile, DryRunReport, FaultEvent, FaultResult, SkipReason};

struct MockFault;

impl Fault for MockFault {
    fn inject(&self, ctx: &FaultContext) -> FaultResult {
        FaultResult::Injected(FaultEvent {
            fault_type: self.fault_type().to_owned(),
            node_id: ctx.node_id.clone(),
            seed: ctx.seed,
            intensity: Scalar::from_bits(0.8_f64.to_bits()),
            dry_run: false,
            timestamp_ms: ctx.timestamp_ms,
        })
    }

    fn dry_run(&self, ctx: &FaultContext) -> DryRunReport {
        DryRunReport {
            fault_type: self.fault_type().to_owned(),
            node_id: ctx.node_id.clone(),
            would_inject: true,
            reason: Message::text("mock fault always injects"),
        }
    }

    fn fault_type(&self) -> &'static str {
        "mock"
    }
}

fn make_ctx() -> FaultContext {
    FaultContext {
        seed: 42,
        timestamp_ms: 1_000,
        node_id: "node-0".to_owned(),
        profile: BifurcationProfile::network_partition(),
    }
}

#[test]
fn fault_handle_starts_uncancelled() {
    let handle = FaultHandle::new();
    assert!(!handle.is_cancelled());
}

#[test]
fn fault_handle_cancel_sets_flag() {
    let handle = FaultHandle::new();
    handle.cancel();
    assert!(handle.is_cancelled());
}

#[test]
fn fault_handle_clone_shares_flag() {
    let h1 = FaultHandle::new();
    let h2 = h1.clone();
    h1.cancel();
    assert!(h2.is_cancelled());
}

#[test]
fn fault_registry_cancel_node() {
    let mut registry = FaultRegistry::new();
    let h1 = FaultHandle::new();
    let h2 = FaultHandle::new();
    registry.register("node-a", h1);
    registry.register("node-a", h2);
    assert_eq!(registry.active_count("node-a"), 2);
    registry.cancel_node("node-a");
    assert_eq!(registry.active_count("node-a"), 0);
}

#[test]
fn fault_registry_active_count_unknown_node() {
    let registry = FaultRegistry::new();
    assert_eq!(registry.active_count("unknown"), 0);
}

#[test]
fn fault_registry_clear_cancels_all() {
    let mut registry = FaultRegistry::new();
    let h = FaultHandle::new();
    let h_clone = h.clone();
    registry.register("node-b", h);
    registry.clear();
    assert!(h_clone.is_cancelled());
    assert_eq!(registry.active_count("node-b"), 0);
}

#[test]
fn registry_keeps_nodes_apart() {
    let mut registry = FaultRegistry::new();
    registry.register("node-a", FaultHandle::new());
    let other = FaultHandle::new();
    registry.register("node-b", other.clone());
    registry.cancel_node("node-a");
    registry.cancel_node("node-z");
    assert_eq!(registry.active_count("node-a"), 0);
    assert_eq!(registry.active_count("node-b"), 1);
    assert!(!other.is_cancelled());
    assert_eq!(registry.handles_of("node-b").len(), 1);
    assert_eq!(registry.handles_of("node-z").len(), 0);
}

#[test]
fn registering_counts_one_more_unless_cancelled() {
    let mut registry = FaultRegistry::new();
    registry.register("node-b", FaultHandle::new());
    let active = FaultHandle::new();
    registry.register("node-a", active.clone());
    assert_eq!(registry.active_count("node-a"), 1);
    let done = FaultHandle::new();
    done.cancel();
    registry.register("node-a", done);
    assert_eq!(registry.active_count("node-a"), 1);
    registry.register("node-a", FaultHandle::new());
    assert_eq!(registry.active_count("node-a"), 2);
    assert_eq!(registry.active_count("node-b"), 1);
    assert!(!active.is_cancelled());
    assert_eq!(registry.handles_of("node-a").len(), 3);
    active.cancel();
    assert_eq!(registry.active_count("node-a"), 1);
}

#[test]
fn unset_flags_are_counted() {
    assert_eq!(count_unset(&vec![]), 0);
    assert_eq!(count_unset(&vec![true, false, false, true]), 2);
}

#[test]
fn mock_fault_dry_run_returns_would_inject_true() {
    let fault = MockFault;
    let ctx = make_ctx();
    let report = fault.dry_run(&ctx);
    assert!(report.would_inject);
    assert_eq!(report.fault_type, "mock");
}

#[test]
fn mock_fault_inject_returns_injected() {
    let fault = MockFault;
    let ctx = make_ctx();
    let result = fault.inject(&ctx);
    assert!(matches!(result, FaultResult::Injected(_)));
}

#[test]
fn fault_result_skipped_variant() {
    let result = FaultResult::Skipped(SkipReason::BelowThreshold);
    assert!(matches!(
        result,
        FaultResult::Skipped(SkipReason::BelowThreshold)
    ));
}

#[test]
fn traits_module_reexports_clock_ports() {
    let clock = malcolm::traits::MockClock::default();
    let now = malcolm::traits::MalcolmClock::now_ms(&clock);
    assert_eq!(now, 0);
}

#[test]
fn real_clock_reads_the_epoch_time() {
    let system = std::time::SystemTime::now()
        .duration_since(std::time::UNIX_EPOCH)
        .map(|d| d.as_millis() as u64)
        .unwrap_or(0);
    let read = RealClock.now_ms();
    assert!(read >= system && read - system < 60_000);
}

#[test]
fn milliseconds_are_bounded() {
    assert_eq!(bound_millis(None), 0);
    assert_eq!(bound_millis(Some(17)), 17);
    assert_eq!(bound_millis(Some(u128::from(u64::MAX) + 5)), u64::MAX);
}

#[test]
fn mock_clock_saturates_at_both_ends() {
    let mut clock = MockClock::at(10);
    clock.jump(-20);
    assert_eq!(clock.now_ms(), 0);
    clock.jump(i64::MIN);
    assert_eq!(clock.now_ms(), 0);
    let mut late = MockClock::at(u64::MAX - 1);
    late.jump(5);
    assert_eq!(late.now_ms(), u64::MAX);
}

#[test]
fn all_handles_are_listed() {
    let mut registry = FaultRegistry::new();
    let (a, b, c) = (FaultHandle::new(), FaultHandle::new(), FaultHandle::new());
    registry.register("node-a", a.clone());
    registry.register("node-b", b.clone());
    registry.register("node-a", c.clone());
    let all = registry.all_handles();
    assert_eq!(all.len(), 3);
    for handle in &all {
        handle.cancel();
    }
    assert!(a.is_cancelled() && b.is_cancelled() && c.is_cancelled());
}
