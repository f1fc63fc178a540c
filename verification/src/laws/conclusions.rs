//! Laws of how a run is planned and concluded.

use crate::assertions::{format_of, outcome_text, violations, BudgetFormat, BudgetView, ViolationView};
use crate::cli::{
    budget_json, chosen_profile, concludes_with_budget, concludes_without_budget, plan_error,
    default_args, is_chosen, reported_violations, ArgsView, CliErrorView, Conclusion,
};
use crate::json::JsonView;
use crate::presets::is_preset_builder;
use crate::scenario::{ChaosScenario, ChaosScenarioBuilder, ReportView};
use crate::text::lower;
use vstd::prelude::*;

verus! {

/// All violations are reported, in order; a run that is to fail fast reports the first one
/// alone. Either way something is reported exactly if a rule is broken.
pub proof fn violations_are_reported(budget: BudgetView, report: ReportView)
    ensures
        reported_violations(budget, report, false) == violations(budget, report),
        violations(budget, report).len() > 0 ==> reported_violations(budget, report, true)
            == seq![violations(budget, report)[0]],
        violations(budget, report).len() == 0 ==> reported_violations(budget, report, true)
            == Seq::<ViolationView>::empty(),
{
}

/// A run with a budget succeeds exactly if no rule is broken, and says so everywhere: in the
/// outcome, in its words and in the exit code, which is three otherwise. A run that fails fast
/// concludes as any other, but for the list of violations.
pub proof fn broken_rules_decide_the_conclusion(
    c: Conclusion,
    args: ArgsView,
    report: ReportView,
    budget: BudgetView,
)
    requires
        concludes_with_budget(c, args, report, budget),
    ensures
        c.exit_code == if violations(budget, report).len() == 0 {
            0u8
        } else {
            3u8
        },
        c.outcome is Some && c.budget_block is Some && c.summary is Some,
        c.outcome->Some_0.passed <==> violations(budget, report).len() == 0,
        c.outcome->Some_0.violations@.len() == 0 <==> violations(budget, report).len() == 0,
        !args.fail_fast ==> c.outcome->Some_0.violations@.len() == violations(budget, report).len(),
        args.fail_fast ==> c.outcome->Some_0.violations@.len() <= 1,
        forall|i: int|
            0 <= i < c.outcome->Some_0.violations@.len() ==> (
            #[trigger] c.outcome->Some_0.violations@[i])@ == violations(budget, report)[i],
        c.summary->Some_0@ == "resilience budget: satisfied"@ <==> violations(
            budget,
            report,
        ).len() == 0,
        c.junit is Some <==> args.junit is Some,
        c.sarif is Some <==> args.sarif is Some,
        c.budget_on_dry_run <==> args.dry_run,
{
    let list = reported_violations(budget, report, args.fail_fast);
    let o = c.outcome->Some_0;
    assert(crate::assertions::violation_views(o.violations@).len() == o.violations@.len());
    assert forall|i: int| 0 <= i < o.violations@.len() implies (#[trigger] o.violations@[i])@
        == violations(budget, report)[i] by {
        assert(crate::assertions::violation_views(o.violations@)[i] == list[i]);
    }
    reveal_strlit("resilience budget: satisfied");
    reveal_strlit("resilience budget: VIOLATED\n");
    assert("resilience budget: satisfied"@[19] == 's');
    assert("resilience budget: VIOLATED\n"@[19] == 'V');
    if violations(budget, report).len() > 0 {
        assert(outcome_text(false, list)[19] == 'V');
    }
}

/// A run without a budget succeeds, whatever it did, and reports no violation.
pub proof fn nothing_is_broken_without_a_budget(c: Conclusion, args: ArgsView, report: ReportView)
    requires
        concludes_without_budget(c, args, report),
    ensures
        c.exit_code == 0,
        c.outcome is None && c.budget_block is None && c.summary is None,
        c.junit is Some <==> args.junit is Some,
        c.sarif is Some <==> args.sarif is Some,
        !c.budget_on_dry_run,
{
}

/// The `budget` block says whether the budget was kept, and has one entry for each violation,
/// in order, with what was broken, what was asked for and what was found.
pub proof fn the_budget_block_lists_violations(passed: bool, list: Seq<ViolationView>, i: int)
    requires
        0 <= i < list.len(),
    ensures
        budget_json(passed, list) matches JsonView::Object(members) && {
            &&& members.len() == 2
            &&& members[0] == ("passed"@, JsonView::Bool(passed))
            &&& members[1].0 == "violations"@
            &&& members[1].1 matches JsonView::List(entries) && {
                &&& entries.len() == list.len()
                &&& entries[i] matches JsonView::Object(said) && {
                    &&& said.len() == 3
                    &&& said[0] == ("rule"@, JsonView::Text(list[i].rule))
                    &&& said[1] == ("expected"@, JsonView::Text(list[i].expected))
                    &&& said[2] == ("actual"@, JsonView::Text(list[i].actual))
                }
            }
        },
{
}

/// A scenario can be planned exactly if a known preset was asked for, and a known profile or
/// none at all; what is missing or unknown is reported, the preset first.
pub proof fn plans_need_known_names(args: ArgsView)
    ensures
        args.preset is None ==> plan_error(args) == Some(CliErrorView::MissingPreset),
        args.preset matches Some(name) ==> {
            let known = name == "flaky_net"@ || name == "slow_disk"@ || name == "byzantine_cluster"@
                || name == "clock_drift"@ || name == "memory_pressure"@;
            &&& !known ==> plan_error(args) == Some(CliErrorView::UnknownPreset(name))
            &&& known && args.profile is None ==> plan_error(args) is None
            &&& args.profile matches Some(label) ==> {
                let usual = label == "network_partition"@ || label == "memory_pressure"@ || label
                    == "latency_cascade"@ || label == "byzantine_node"@ || label == "clock_skew"@;
                &&& known && usual ==> plan_error(args) is None
                &&& known && !usual ==> plan_error(args) == Some(
                    CliErrorView::UnknownProfile(label),
                )
            }
        },
        chosen_profile(args) == match args.profile {
            Some(label) => label,
            None => "network_partition"@,
        },
{
}

/// The extension of a budget file decides its format, in large letters as in small ones.
pub proof fn extensions_decide_the_format(ext: Seq<char>)
    ensures
        format_of(Some(ext)) == format_of(Some(lower(ext))),
        format_of(Some("toml"@)) == Some(BudgetFormat::Toml),
        format_of(Some("json"@)) == Some(BudgetFormat::Json),
        format_of(Some("yaml"@)) == Some(BudgetFormat::Yaml),
        format_of(Some("yml"@)) == Some(BudgetFormat::Yaml),
        format_of(Some(ext)) is Some <==> lower(ext) == "toml"@ || lower(ext) == "json"@ || lower(
            ext,
        ) == "yaml"@ || lower(ext) == "yml"@,
        format_of(None) is None,
{
    reveal_strlit("toml");
    reveal_strlit("json");
    reveal_strlit("yaml");
    reveal_strlit("yml");
    assert(lower(lower(ext)) =~= lower(ext));
    assert(lower("toml"@) =~= "toml"@);
    assert(lower("json"@) =~= "json"@);
    assert(lower("yaml"@) =~= "yaml"@);
    assert(lower("yml"@) =~= "yml"@);
    assert("toml"@[0] == 't' && "json"@[0] == 'j' && "yaml"@[0] == 'y' && "yml"@[0] == 'y');
}

/// Without arguments the seed is 42, the node is `node-0` and nothing else is asked for.
pub proof fn little_is_assumed()
    ensures
        default_args().seed == 42,
        default_args().node == "node-0"@,
        !default_args().list_presets && !default_args().help && !default_args().dry_run
            && !default_args().fail_fast,
        default_args().preset is None && default_args().profile is None,
        default_args().output is None && default_args().record is None && default_args().budget
            is None && default_args().junit is None && default_args().sarif is None,
        default_args().assert_min_injected is None && default_args().assert_max_injected is None,
{
}

/// The scenario of a run has the name of its preset, the seed and the profile that were asked
/// for, no graph, and the faults of the preset.
pub proof fn the_chosen_scenario_is_the_preset(
    scenario: ChaosScenario,
    name: Seq<char>,
    seed: u64,
    profile: Seq<char>,
    jump_ms: u64,
) -> (b: ChaosScenarioBuilder)
    requires
        is_chosen(scenario, name, seed, profile, jump_ms),
    ensures
        scenario.title() == name,
        scenario.shared_seed() == seed,
        scenario.stability().label@ == profile,
        scenario.graph() is None,
        is_preset_builder(name, jump_ms, b),
        scenario.members() == b.faults@,
{
    choose|b: ChaosScenarioBuilder|
        {
            &&& #[trigger] is_preset_builder(name, jump_ms, b)
            &&& scenario.members() == b.faults@
        }
}

} // verus!
