use malcolm::assertions::{
    budget_format, format_outcome, BudgetError, BudgetFormat, BudgetOutcome, FaultTypeCaps,
    ResilienceBudget, Violation,
};
use malcolm::fault::FaultContext;
use malcolm::faults::network::PacketLoss;
use malcolm::scalar::Scalar;
use malcolm::scenario::{ChaosScenario, ScenarioRegime, ScenarioReport};
use malcolm::types::BifurcationProfile;

fn ctx() -> FaultContext {
    FaultContext {
        seed: 7,
        timestamp_ms: 0,
        node_id: "node-0".to_owned(),
        profile: BifurcationProfile::network_partition(),
    }
}

fn run_scenario(intensity: f64) -> ScenarioReport {
    let scenario = ChaosScenario::builder()
        .name("budget-test")
        .seed(7)
        .add_fault(
            PacketLoss::builder()
                .seed(7)
                .intensity(Scalar::from_bits(intensity.to_bits()))
                .build(),
        )
        .profile(BifurcationProfile::network_partition())
        .build();
    scenario.run(&mut ctx()).into_report(ScenarioRegime::Chaotic, 0)
}

fn run_empty_scenario() -> ScenarioReport {
    let scenario = ChaosScenario::builder()
        .name("budget-empty")
        .seed(7)
        .profile(BifurcationProfile::network_partition())
        .build();
    scenario.run(&mut ctx()).into_report(ScenarioRegime::Stable, 0)
}

#[test]
fn empty_budget_always_passes() {
    let report = run_scenario(0.9);
    let outcome = ResilienceBudget::default().evaluate(&report);
    assert!(outcome.passed);
    assert_eq!(outcome.violations.len(), 0);
}

#[test]
fn min_injected_total_catches_dry_run() {
    let report = run_empty_scenario();
    let outcome = ResilienceBudget {
        min_injected_total: Some(1),
        ..Default::default()
    }
    .evaluate(&report);
    assert!(!outcome.passed);
    assert_eq!(outcome.violations.len(), 1);
    let first = outcome.violations.first().expect("one violation");
    assert_eq!(first.rule, "min_injected_total");
}

#[test]
fn max_injected_total_breach_accumulates() {
    let report = run_scenario(0.9);
    let outcome = ResilienceBudget {
        max_injected_total: Some(0),
        ..Default::default()
    }
    .evaluate(&report);
    assert!(!outcome.passed);
    let first = outcome.violations.first().expect("one violation");
    assert_eq!(first.rule, "max_injected_total");
}

#[test]
fn multiple_breaches_accumulate_not_short_circuit() {
    let report = run_scenario(0.9);
    let outcome = ResilienceBudget {
        max_injected_total: Some(0),
        min_injected_total: Some(99),
        forbid_regime: Some(vec![ScenarioRegime::Sensitive, ScenarioRegime::Chaotic]),
        ..Default::default()
    }
    .evaluate(&report);
    assert!(!outcome.passed);
    assert_eq!(
        outcome.violations.len(),
        3,
        "all three breaches should be reported: {:?}",
        outcome.violations
    );
    assert_eq!(outcome.violation_count(), 3);
}

#[test]
fn per_fault_type_cap_breach_reports_one_violation() {
    let report = run_scenario(0.9);
    let mut caps = FaultTypeCaps::new();
    caps.insert("packet_loss", 0);
    let outcome = ResilienceBudget {
        max_injected_per_fault_type: Some(caps),
        ..Default::default()
    }
    .evaluate(&report);
    assert!(!outcome.passed);
    assert_eq!(outcome.violations.len(), 1);
    let first = outcome.violations.first().expect("one violation");
    assert!(
        first.rule.starts_with("max_injected_per_fault_type"),
        "rule was {}",
        first.rule
    );
}

#[test]
fn require_fault_types_absent_is_violation() {
    let report = run_scenario(0.9);
    let outcome = ResilienceBudget {
        require_fault_types: Some(vec!["non_existent_fault".to_owned()]),
        ..Default::default()
    }
    .evaluate(&report);
    assert!(!outcome.passed);
    assert_eq!(outcome.violations.len(), 1);
    let first = outcome.violations.first().expect("one violation");
    assert!(
        first.rule.starts_with("require_fault_types"),
        "rule was {}",
        first.rule
    );
}

#[test]
fn forbid_regime_breach_detected() {
    let report = run_scenario(0.9);
    let outcome = ResilienceBudget {
        forbid_regime: Some(vec![ScenarioRegime::Sensitive, ScenarioRegime::Chaotic]),
        ..Default::default()
    }
    .evaluate(&report);
    assert!(
        outcome.violations.iter().any(|v| v.rule == "forbid_regime"),
        "forbid_regime should fire: {:?}",
        outcome.violations
    );
}

#[test]
fn max_scenario_duration_ms_breach() {
    let report = run_scenario(0.9);
    let outcome = ResilienceBudget {
        max_scenario_duration_ms: Some(1_000),
        ..Default::default()
    }
    .evaluate(&report);
    assert!(outcome.passed, "fast scenario should satisfy a 1s budget");

    let mut synthetic = report.clone();
    synthetic.total_duration_ms = 10;
    let outcome = ResilienceBudget {
        max_scenario_duration_ms: Some(5),
        ..Default::default()
    }
    .evaluate(&synthetic);
    assert!(!outcome.passed);
    let first = outcome.violations.first().expect("one violation");
    assert_eq!(first.rule, "max_scenario_duration_ms");
}

#[test]
fn violations_come_in_the_order_of_the_rules() {
    let report = run_scenario(0.9);
    let mut caps = FaultTypeCaps::new();
    caps.insert("zeta", 0);
    caps.insert("packet_loss", 0);
    caps.insert("packet_loss", 0);
    let outcome = ResilienceBudget {
        max_injected_total: Some(0),
        min_injected_total: Some(2),
        max_injected_per_fault_type: Some(caps),
        require_fault_types: Some(vec!["packet_loss".to_owned(), "x".to_owned()]),
        forbid_regime: Some(vec![ScenarioRegime::Chaotic]),
        max_scenario_duration_ms: None,
    }
    .evaluate(&report);
    let rules: Vec<&str> = outcome.violations.iter().map(|v| v.rule.as_str()).collect();
    assert_eq!(rules.len(), 5);
    assert_eq!(rules[0], "max_injected_total");
    assert_eq!(rules[1], "min_injected_total");
    assert!(rules[2].contains("packet_loss"));
    assert!(rules[3].contains("x"));
    assert_eq!(rules[4], "forbid_regime");
}

#[test]
fn limits_that_are_just_met_hold() {
    let report = run_scenario(0.9);
    let mut caps = FaultTypeCaps::new();
    caps.insert("packet_loss", 1);
    let outcome = ResilienceBudget {
        max_injected_total: Some(1),
        min_injected_total: Some(1),
        max_injected_per_fault_type: Some(caps),
        require_fault_types: Some(vec!["packet_loss".to_owned()]),
        forbid_regime: Some(vec![ScenarioRegime::Stable]),
        max_scenario_duration_ms: Some(0),
    }
    .evaluate(&report);
    assert!(outcome.passed, "{:?}", outcome.violations);
}

#[test]
fn outcomes_are_formatted() {
    let good = BudgetOutcome {
        passed: true,
        violations: vec![],
    };
    assert_eq!(format_outcome(&good), "resilience budget: satisfied");
    let violation = Violation {
        rule: "min_injected_total".to_owned(),
        expected: ">= 1".to_owned(),
        actual: "0".to_owned(),
    };
    let line = violation.describe();
    let bad = BudgetOutcome {
        passed: false,
        violations: vec![violation],
    };
    assert_eq!(
        format_outcome(&bad),
        format!("resilience budget: VIOLATED\n  1. {line}\n")
    );
    assert!(line.contains("min_injected_total"));
    assert!(line.contains(">= 1"));
}

#[test]
fn inline_limits_replace_those_of_the_budget() {
    let b = ResilienceBudget {
        min_injected_total: Some(1),
        max_injected_total: Some(2),
        ..Default::default()
    }
    .with_min_injected(3)
    .with_max_injected(4);
    assert_eq!(b.min_injected_total, Some(3));
    assert_eq!(b.max_injected_total, Some(4));
}

#[test]
fn caps_are_kept_in_ascending_order() {
    let mut caps = FaultTypeCaps::new();
    caps.insert("b", 1);
    caps.insert("a", 2);
    caps.insert("c", 3);
    caps.insert("b", 9);
    assert_eq!(
        caps.entries(),
        &vec![
            ("a".to_owned(), 2),
            ("b".to_owned(), 9),
            ("c".to_owned(), 3)
        ]
    );
}

#[test]
fn budget_formats_follow_the_extension() {
    assert_eq!(budget_format(Some("toml")).ok(), Some(BudgetFormat::Toml));
    assert_eq!(budget_format(Some("JSON")).ok(), Some(BudgetFormat::Json));
    assert_eq!(budget_format(Some("yml")).ok(), Some(BudgetFormat::Yaml));
    assert_eq!(budget_format(Some("yaml")).ok(), Some(BudgetFormat::Yaml));
    assert!(matches!(
        budget_format(Some("bin")),
        Err(BudgetError::UnsupportedExtension { .. })
    ));
    assert!(matches!(
        budget_format(None),
        Err(BudgetError::UnsupportedExtension { .. })
    ));
}

#[test]
fn budgets_can_be_copied() {
    let mut caps = FaultTypeCaps::new();
    caps.insert("packet_loss", 3);
    caps.insert("clock_skew", 1);
    let budget = ResilienceBudget {
        max_injected_total: Some(5),
        min_injected_total: Some(1),
        max_injected_per_fault_type: Some(caps),
        require_fault_types: Some(vec!["packet_loss".to_owned()]),
        forbid_regime: Some(vec![ScenarioRegime::Chaotic]),
        max_scenario_duration_ms: Some(9),
    };
    assert_eq!(budget.clone(), budget);
    let empty = ResilienceBudget::default();
    assert_eq!(empty.clone(), empty);
}
