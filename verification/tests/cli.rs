use malcolm::assertions::ResilienceBudget;
use malcolm::cli::{
    budget_block, dry_report, judge, profile_for, record_format, run_exit_code, Args, CliError,
    Plan, RecordFormat, EXIT_ARGUMENT, EXIT_BUDGET, EXIT_IO, EXIT_SUCCESS, EXIT_UNKNOWN,
};
use malcolm::json::Json;
use malcolm::scalar::Scalar;
use malcolm::scenario::{ScenarioEvent, ScenarioRegime, ScenarioReport};
use malcolm::types::BifurcationProfile;

fn parse(tokens: &[&str]) -> Result<Args, CliError> {
    let list: Vec<String> = tokens.iter().map(|t| (*t).to_owned()).collect();
    Args::parse(&list)
}

fn args(tokens: &[&str]) -> Args {
    parse(tokens).expect("must parse")
}

fn report(events: usize) -> ScenarioReport {
    ScenarioReport {
        name: "r".to_owned(),
        seed: 1,
        regime: ScenarioRegime::Stable,
        events: (0..events)
            .map(|i| ScenarioEvent {
                fault_type: "x".to_owned(),
                node_id: "n".to_owned(),
                seed: 1,
                intensity: Scalar::one(),
                dry_run: false,
                timestamp_ms: i as u64,
            })
            .collect(),
        total_duration_ms: 0,
    }
}

#[test]
fn defaults_are_seed_42_on_node_0() {
    let a = args(&[]);
    assert_eq!(a.seed, 42);
    assert_eq!(a.node, "node-0");
    assert!(!a.help && !a.list_presets && !a.dry_run && !a.fail_fast);
    assert!(a.preset.is_none() && a.profile.is_none() && a.budget.is_none());
}

#[test]
fn all_arguments_are_read() {
    let a = args(&[
        "--preset", "flaky_net", "--seed", "7", "--node", "edge", "--profile", "clock_skew",
        "--dry-run", "--output", "o", "--record", "r", "--budget", "b", "--assert-min-injected",
        "1", "--assert-max-injected", "2", "--fail-fast", "--junit", "j", "--sarif", "s",
        "--list-presets", "-h",
    ]);
    assert_eq!(a.preset.as_deref(), Some("flaky_net"));
    assert_eq!(a.seed, 7);
    assert_eq!(a.node, "edge");
    assert_eq!(a.profile.as_deref(), Some("clock_skew"));
    assert_eq!(a.output.as_deref(), Some("o"));
    assert_eq!(a.record.as_deref(), Some("r"));
    assert_eq!(a.budget.as_deref(), Some("b"));
    assert_eq!(a.assert_min_injected, Some(1));
    assert_eq!(a.assert_max_injected, Some(2));
    assert_eq!(a.junit.as_deref(), Some("j"));
    assert_eq!(a.sarif.as_deref(), Some("s"));
    assert!(a.help && a.list_presets && a.dry_run && a.fail_fast);
}

#[test]
fn argument_errors_are_typed() {
    assert_eq!(
        parse(&["--seed"]).err(),
        Some(CliError::MissingValue("--seed".to_owned()))
    );
    assert_eq!(
        parse(&["--seed", "x"]).err(),
        Some(CliError::NotANumber("--seed".to_owned(), "x".to_owned()))
    );
    assert_eq!(
        parse(&["--assert-min-injected", "-1"]).err(),
        Some(CliError::NotANumber(
            "--assert-min-injected".to_owned(),
            "-1".to_owned()
        ))
    );
    assert_eq!(
        parse(&["--what"]).err(),
        Some(CliError::Unrecognised("--what".to_owned()))
    );
    assert_eq!(CliError::MissingPreset.exit_code(), EXIT_ARGUMENT);
    assert_eq!(
        CliError::UnknownPreset("x".to_owned()).exit_code(),
        EXIT_UNKNOWN
    );
}

#[test]
fn later_arguments_replace_earlier_ones() {
    assert_eq!(args(&["--seed", "1", "--seed", "+2"]).seed, 2);
    assert_eq!(args(&["--preset", "--seed"]).preset.as_deref(), Some("--seed"));
}

#[test]
fn plans_follow_the_arguments() {
    assert!(matches!(args(&["-h", "--list-presets"]).plan(20), Ok(Plan::Help)));
    assert!(matches!(args(&["--list-presets"]).plan(20), Ok(Plan::ListPresets)));
    assert!(matches!(args(&[]).plan(20), Err(CliError::MissingPreset)));
    assert!(matches!(
        args(&["--preset", "nope"]).plan(20),
        Err(CliError::UnknownPreset(n)) if n == "nope"
    ));
    assert!(matches!(
        args(&["--preset", "slow_disk", "--profile", "nope"]).plan(20),
        Err(CliError::UnknownProfile(n)) if n == "nope"
    ));
    match args(&["--preset", "slow_disk", "--seed", "9"]).plan(20) {
        Ok(Plan::Run(scenario)) => {
            assert_eq!(scenario.name(), "slow_disk");
            assert_eq!(scenario.seed(), 9);
            assert_eq!(scenario.profile().label, "network_partition");
        }
        _ => panic!("expected a run"),
    }
}

#[test]
fn profiles_are_found_by_label() {
    for label in [
        "network_partition",
        "memory_pressure",
        "latency_cascade",
        "byzantine_node",
        "clock_skew",
    ] {
        assert_eq!(profile_for(label).map(|p| p.label), Ok(label));
    }
    assert!(profile_for("x").is_err());
}

#[test]
fn context_is_made_of_the_arguments() {
    let ctx = args(&["--seed", "5", "--node", "db"]).context(BifurcationProfile::clock_skew());
    assert_eq!((ctx.seed, ctx.timestamp_ms), (5, 0));
    assert_eq!(ctx.node_id, "db");
    assert_eq!(ctx.profile.label, "clock_skew");
}

#[test]
fn inline_limits_are_put_over_the_loaded_budget() {
    assert!(args(&[]).build_budget(None).is_none());
    let inline = args(&["--assert-min-injected", "3"])
        .build_budget(None)
        .expect("budget");
    assert_eq!(inline.min_injected_total, Some(3));
    assert_eq!(inline.max_injected_total, None);
    let loaded = ResilienceBudget {
        min_injected_total: Some(1),
        max_scenario_duration_ms: Some(9),
        ..Default::default()
    };
    let merged = args(&["--budget", "f", "--assert-max-injected", "8"])
        .build_budget(Some(loaded))
        .expect("budget");
    assert_eq!(merged.min_injected_total, Some(1));
    assert_eq!(merged.max_injected_total, Some(8));
    assert_eq!(merged.max_scenario_duration_ms, Some(9));
}

#[test]
fn fail_fast_reports_the_first_violation_only() {
    let budget = ResilienceBudget {
        max_injected_total: Some(0),
        min_injected_total: Some(5),
        ..Default::default()
    };
    let all = judge(&budget, &report(1), false);
    assert_eq!(all.violations.len(), 2);
    let first = judge(&budget, &report(1), true);
    assert_eq!(first.violations.len(), 1);
    assert_eq!(first.violations[0].rule, "max_injected_total");
    assert!(!first.passed);
    assert_eq!(run_exit_code(Some(&first)), EXIT_BUDGET);
    assert_eq!(run_exit_code(None), EXIT_SUCCESS);
    assert_eq!(EXIT_IO, 4);
    let block = budget_block(&first);
    assert_eq!(block.get("passed"), Some(&Json::Bool(false)));
    match block.get("violations").and_then(|v| v.at(0)) {
        Some(v) => assert_eq!(v.get("rule"), Some(&Json::text("max_injected_total"))),
        None => panic!("no violation listed"),
    }
}

#[test]
fn conclusions_settle_the_exit_code() {
    let a = args(&["--junit", "j", "--record", "r"]);
    let plain = a.conclude(&report(1), None);
    assert_eq!(plain.exit_code, EXIT_SUCCESS);
    assert!(plain.outcome.is_none() && plain.summary.is_none() && plain.sarif.is_none());
    assert!(plain.junit.is_some_and(|x| x.contains("failures=\"0\"")));
    assert!(plain.write_record && !plain.record_skipped);
    let budget = ResilienceBudget {
        min_injected_total: Some(5),
        ..Default::default()
    };
    let broken = args(&["--sarif", "s", "--dry-run", "--record", "r"])
        .conclude(&report(1), Some(&budget));
    assert_eq!(broken.exit_code, EXIT_BUDGET);
    assert!(broken.summary.is_some_and(|x| x.starts_with("resilience budget: VIOLATED\n")));
    assert!(broken.budget_on_dry_run && broken.record_skipped && !broken.write_record);
    assert!(broken.sarif.is_some() && broken.junit.is_none());
}

#[test]
fn dry_runs_report_no_events() {
    let scenario = match args(&["--preset", "flaky_net"]).plan(20) {
        Ok(Plan::Run(scenario)) => scenario,
        _ => panic!("expected a run"),
    };
    let ctx = args(&[]).context(scenario.profile());
    let r = dry_report(&scenario.dry_run(&ctx));
    assert_eq!(r.name, "flaky_net");
    assert_eq!(r.seed, 42);
    assert!(r.events.is_empty());
    assert_eq!(r.regime, ScenarioRegime::Stable);
}

#[test]
fn record_formats_follow_the_extension() {
    assert_eq!(record_format("YAML"), RecordFormat::Yaml);
    assert_eq!(record_format("yml"), RecordFormat::Yaml);
    assert_eq!(record_format("json"), RecordFormat::Json);
    assert_eq!(record_format(""), RecordFormat::Json);
}
