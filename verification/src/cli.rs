//! Arguments and decisions of the scenario runner.
//!
//! Exit codes: 0 success, 1 argument error, 2 unknown preset or profile, 3 budget
//! violated, 4 input or output error.

use crate::assertions::{
    format_outcome, outcome_text, violation_views, violations, BudgetOutcome, BudgetView,
    ResilienceBudget, Violation, ViolationView,
};
use crate::fault::FaultContext;
use crate::json::{Json, JsonView};
use crate::presets::{is_preset_name, preset};
use crate::report_formats::{junit, outcome_violations, sarif, to_junit_xml, to_sarif};
use crate::scenario::{
    ChaosScenario, ChaosScenarioBuilder, ReportView, ScenarioDryRunReport, ScenarioRegime,
    ScenarioReport,
};
use crate::text;
use crate::text::parsed_unsigned;
use crate::types::BifurcationProfile;
use vstd::prelude::*;

verus! {

/// Exit code of a successful run.
pub const EXIT_SUCCESS: u8 = 0;

/// Exit code of an argument error.
pub const EXIT_ARGUMENT: u8 = 1;

/// Exit code of an unknown preset or profile.
pub const EXIT_UNKNOWN: u8 = 2;

/// Exit code of a violated budget.
pub const EXIT_BUDGET: u8 = 3;

/// Exit code of an input or output error.
pub const EXIT_IO: u8 = 4;

/// The arguments of the runner.
#[derive(Debug)]
pub struct Args {
    /// Print the preset names.
    pub list_presets: bool,
    /// Print the help text.
    pub help: bool,
    /// Preset to run.
    pub preset: Option<String>,
    /// Scenario seed.
    pub seed: u64,
    /// Targeted node.
    pub node: String,
    /// Label of the profile.
    pub profile: Option<String>,
    /// Only dry-run.
    pub dry_run: bool,
    /// File for the report.
    pub output: Option<String>,
    /// File for the record.
    pub record: Option<String>,
    /// File that holds a budget.
    pub budget: Option<String>,
    /// Smallest number of injected faults.
    pub assert_min_injected: Option<u64>,
    /// Largest number of injected faults.
    pub assert_max_injected: Option<u64>,
    /// Report the first violation only.
    pub fail_fast: bool,
    /// File for the JUnit report.
    pub junit: Option<String>,
    /// File for the SARIF report.
    pub sarif: Option<String>,
}

/// Model of the arguments.
pub struct ArgsView {
    pub list_presets: bool,
    pub help: bool,
    pub preset: Option<Seq<char>>,
    pub seed: u64,
    pub node: Seq<char>,
    pub profile: Option<Seq<char>>,
    pub dry_run: bool,
    pub output: Option<Seq<char>>,
    pub record: Option<Seq<char>>,
    pub budget: Option<Seq<char>>,
    pub assert_min_injected: Option<u64>,
    pub assert_max_injected: Option<u64>,
    pub fail_fast: bool,
    pub junit: Option<Seq<char>>,
    pub sarif: Option<Seq<char>>,
}

/// Model of an optional text.
pub open spec fn text_view(t: Option<String>) -> Option<Seq<char>> {
    match t {
        Some(s) => Some(s@),
        None => None,
    }
}

impl View for Args {
    type V = ArgsView;

    open spec fn view(&self) -> ArgsView {
        ArgsView {
            list_presets: self.list_presets,
            help: self.help,
            preset: text_view(self.preset),
            seed: self.seed,
            node: self.node@,
            profile: text_view(self.profile),
            dry_run: self.dry_run,
            output: text_view(self.output),
            record: text_view(self.record),
            budget: text_view(self.budget),
            assert_min_injected: self.assert_min_injected,
            assert_max_injected: self.assert_max_injected,
            fail_fast: self.fail_fast,
            junit: text_view(self.junit),
            sarif: text_view(self.sarif),
        }
    }
}

/// What the runner does without arguments: seed 42 on `node-0`.
pub open spec fn default_args() -> ArgsView {
    ArgsView {
        list_presets: false,
        help: false,
        preset: None,
        seed: 42,
        node: "node-0"@,
        profile: None,
        dry_run: false,
        output: None,
        record: None,
        budget: None,
        assert_min_injected: None,
        assert_max_injected: None,
        fail_fast: false,
        junit: None,
        sarif: None,
    }
}

/// An argument that stands alone.
#[derive(Clone, Copy, Debug, PartialEq, Eq, Structural)]
pub enum Switch {
    ListPresets,
    Help,
    DryRun,
    FailFast,
}

/// An argument that takes a value.
#[derive(Clone, Copy, Debug, PartialEq, Eq, Structural)]
pub enum Setting {
    Preset,
    Seed,
    Node,
    Profile,
    Output,
    Record,
    Budget,
    MinInjected,
    MaxInjected,
    Junit,
    Sarif,
}

/// The switch that is written as `token`.
pub open spec fn switch_of(token: Seq<char>) -> Option<Switch> {
    if token == "--list-presets"@ {
        Some(Switch::ListPresets)
    } else if token == "-h"@ || token == "--help"@ {
        Some(Switch::Help)
    } else if token == "--dry-run"@ {
        Some(Switch::DryRun)
    } else if token == "--fail-fast"@ {
        Some(Switch::FailFast)
    } else {
        None
    }
}

/// The setting that is written as `token`.
pub open spec fn setting_of(token: Seq<char>) -> Option<Setting> {
    if token == "--preset"@ {
        Some(Setting::Preset)
    } else if token == "--seed"@ {
        Some(Setting::Seed)
    } else if token == "--node"@ {
        Some(Setting::Node)
    } else if token == "--profile"@ {
        Some(Setting::Profile)
    } else if token == "--output"@ {
        Some(Setting::Output)
    } else if token == "--record"@ {
        Some(Setting::Record)
    } else if token == "--budget"@ {
        Some(Setting::Budget)
    } else if token == "--assert-min-injected"@ {
        Some(Setting::MinInjected)
    } else if token == "--assert-max-injected"@ {
        Some(Setting::MaxInjected)
    } else if token == "--junit"@ {
        Some(Setting::Junit)
    } else if token == "--sarif"@ {
        Some(Setting::Sarif)
    } else {
        None
    }
}

fn find_switch(token: &str) -> (r: Option<Switch>)
    ensures
        r == switch_of(token@),
{
    if text::same(token, "--list-presets") {
        Some(Switch::ListPresets)
    } else if text::same(token, "-h") || text::same(token, "--help") {
        Some(Switch::Help)
    } else if text::same(token, "--dry-run") {
        Some(Switch::DryRun)
    } else if text::same(token, "--fail-fast") {
        Some(Switch::FailFast)
    } else {
        None
    }
}

fn find_setting(token: &str) -> (r: Option<Setting>)
    ensures
        r == setting_of(token@),
{
    if text::same(token, "--preset") {
        Some(Setting::Preset)
    } else if text::same(token, "--seed") {
        Some(Setting::Seed)
    } else if text::same(token, "--node") {
        Some(Setting::Node)
    } else if text::same(token, "--profile") {
        Some(Setting::Profile)
    } else if text::same(token, "--output") {
        Some(Setting::Output)
    } else if text::same(token, "--record") {
        Some(Setting::Record)
    } else if text::same(token, "--budget") {
        Some(Setting::Budget)
    } else if text::same(token, "--assert-min-injected") {
        Some(Setting::MinInjected)
    } else if text::same(token, "--assert-max-injected") {
        Some(Setting::MaxInjected)
    } else if text::same(token, "--junit") {
        Some(Setting::Junit)
    } else if text::same(token, "--sarif") {
        Some(Setting::Sarif)
    } else {
        None
    }
}

/// Why the runner cannot start.
#[derive(Debug, PartialEq, Eq)]
pub enum CliError {
    /// The argument, given as it was written, has no value.
    MissingValue(String),
    /// The value of the argument is no number that fits in 64 bits.
    NotANumber(String, String),
    /// The argument is not known.
    Unrecognised(String),
    /// No preset is named.
    MissingPreset,
    /// The preset is not known.
    UnknownPreset(String),
    /// The profile is not known.
    UnknownProfile(String),
}

/// Model of a start error.
pub enum CliErrorView {
    MissingValue(Seq<char>),
    NotANumber(Seq<char>, Seq<char>),
    Unrecognised(Seq<char>),
    MissingPreset,
    UnknownPreset(Seq<char>),
    UnknownProfile(Seq<char>),
}

impl View for CliError {
    type V = CliErrorView;

    open spec fn view(&self) -> CliErrorView {
        match *self {
            CliError::MissingValue(flag) => CliErrorView::MissingValue(flag@),
            CliError::NotANumber(flag, raw) => CliErrorView::NotANumber(flag@, raw@),
            CliError::Unrecognised(token) => CliErrorView::Unrecognised(token@),
            CliError::MissingPreset => CliErrorView::MissingPreset,
            CliError::UnknownPreset(name) => CliErrorView::UnknownPreset(name@),
            CliError::UnknownProfile(label) => CliErrorView::UnknownProfile(label@),
        }
    }
}

impl CliError {
    /// The exit code: 2 for an unknown preset or profile, 1 for all else.
    pub fn exit_code(&self) -> (r: u8)
        ensures
            r == match self@ {
                CliErrorView::UnknownPreset(_) => EXIT_UNKNOWN,
                CliErrorView::UnknownProfile(_) => EXIT_UNKNOWN,
                _ => EXIT_ARGUMENT,
            },
    {
        match self {
            CliError::UnknownPreset(_) => EXIT_UNKNOWN,
            CliError::UnknownProfile(_) => EXIT_UNKNOWN,
            _ => EXIT_ARGUMENT,
        }
    }
}

/// The arguments after a switch.
pub open spec fn switched(args: ArgsView, switch: Switch) -> ArgsView {
    match switch {
        Switch::ListPresets => ArgsView { list_presets: true, ..args },
        Switch::Help => ArgsView { help: true, ..args },
        Switch::DryRun => ArgsView { dry_run: true, ..args },
        Switch::FailFast => ArgsView { fail_fast: true, ..args },
    }
}

/// The arguments after a setting, written as `flag`.
pub open spec fn set(
    args: ArgsView,
    setting: Setting,
    flag: Seq<char>,
    raw: Seq<char>,
) -> Result<ArgsView, CliErrorView> {
    let number = parsed_unsigned(raw, u64::MAX as nat);
    match setting {
        Setting::Preset => Ok(ArgsView { preset: Some(raw), ..args }),
        Setting::Node => Ok(ArgsView { node: raw, ..args }),
        Setting::Profile => Ok(ArgsView { profile: Some(raw), ..args }),
        Setting::Output => Ok(ArgsView { output: Some(raw), ..args }),
        Setting::Record => Ok(ArgsView { record: Some(raw), ..args }),
        Setting::Budget => Ok(ArgsView { budget: Some(raw), ..args }),
        Setting::Junit => Ok(ArgsView { junit: Some(raw), ..args }),
        Setting::Sarif => Ok(ArgsView { sarif: Some(raw), ..args }),
        Setting::Seed => match number {
            Some(n) => Ok(ArgsView { seed: n as u64, ..args }),
            None => Err(CliErrorView::NotANumber(flag, raw)),
        },
        Setting::MinInjected => match number {
            Some(n) => Ok(ArgsView { assert_min_injected: Some(n as u64), ..args }),
            None => Err(CliErrorView::NotANumber(flag, raw)),
        },
        Setting::MaxInjected => match number {
            Some(n) => Ok(ArgsView { assert_max_injected: Some(n as u64), ..args }),
            None => Err(CliErrorView::NotANumber(flag, raw)),
        },
    }
}

/// The arguments after reading `tokens` from left to right. A later argument
/// replaces an earlier one; the first fault is reported.
pub open spec fn read(args: ArgsView, tokens: Seq<Seq<char>>) -> Result<ArgsView, CliErrorView>
    decreases tokens.len(),
{
    if tokens.len() == 0 {
        Ok(args)
    } else {
        match switch_of(tokens[0]) {
            Some(switch) => read(switched(args, switch), tokens.skip(1)),
            None => match setting_of(tokens[0]) {
                None => Err(CliErrorView::Unrecognised(tokens[0])),
                Some(setting) => if tokens.len() == 1 {
                    Err(CliErrorView::MissingValue(tokens[0]))
                } else {
                    match set(args, setting, tokens[0], tokens[1]) {
                        Ok(next) => read(next, tokens.skip(2)),
                        Err(e) => Err(e),
                    }
                },
            },
        }
    }
}

fn number_of(flag: &str, raw: &str) -> (r: Result<u64, CliError>)
    ensures
        match r {
            Ok(n) => parsed_unsigned(raw@, u64::MAX as nat) == Some(n as nat),
            Err(e) => parsed_unsigned(raw@, u64::MAX as nat) is None && e@
                == CliErrorView::NotANumber(flag@, raw@),
        },
{
    match text::parse_unsigned(raw, u64::MAX) {
        Some(n) => Ok(n),
        None => Err(CliError::NotANumber(flag.to_owned(), raw.to_owned())),
    }
}

impl Args {
    fn switch(&mut self, switch: Switch)
        ensures
            final(self)@ == switched(old(self)@, switch),
    {
        match switch {
            Switch::ListPresets => {
                self.list_presets = true;
            },
            Switch::Help => {
                self.help = true;
            },
            Switch::DryRun => {
                self.dry_run = true;
            },
            Switch::FailFast => {
                self.fail_fast = true;
            },
        }
    }

    fn apply(&mut self, setting: Setting, flag: &str, raw: &str) -> (r: Result<(), CliError>)
        ensures
            match r {
                Ok(()) => set(old(self)@, setting, flag@, raw@) == Ok::<ArgsView, CliErrorView>(
                    final(self)@,
                ),
                Err(e) => set(old(self)@, setting, flag@, raw@) == Err::<ArgsView, CliErrorView>(
                    e@,
                ),
            },
    {
        match setting {
            Setting::Preset => {
                self.preset = Some(raw.to_owned());
            },
            Setting::Node => {
                self.node = raw.to_owned();
            },
            Setting::Profile => {
                self.profile = Some(raw.to_owned());
            },
            Setting::Output => {
                self.output = Some(raw.to_owned());
            },
            Setting::Record => {
                self.record = Some(raw.to_owned());
            },
            Setting::Budget => {
                self.budget = Some(raw.to_owned());
            },
            Setting::Junit => {
                self.junit = Some(raw.to_owned());
            },
            Setting::Sarif => {
                self.sarif = Some(raw.to_owned());
            },
            Setting::Seed => match number_of(flag, raw) {
                Ok(n) => {
                    self.seed = n;
                },
                Err(e) => {
                    return Err(e);
                },
            },
            Setting::MinInjected => match number_of(flag, raw) {
                Ok(n) => {
                    self.assert_min_injected = Some(n);
                },
                Err(e) => {
                    return Err(e);
                },
            },
            Setting::MaxInjected => match number_of(flag, raw) {
                Ok(n) => {
                    self.assert_max_injected = Some(n);
                },
                Err(e) => {
                    return Err(e);
                },
            },
        }
        Ok(())
    }

    /// Reads the arguments that follow the program name.
    pub fn parse(tokens: &Vec<String>) -> (r: Result<Args, CliError>)
        ensures
            match r {
                Ok(args) => read(default_args(), text::views(tokens@)) == Ok::<
                    ArgsView,
                    CliErrorView,
                >(args@),
                Err(e) => read(default_args(), text::views(tokens@)) == Err::<
                    ArgsView,
                    CliErrorView,
                >(e@),
            },
    {
        let mut args = Args {
            list_presets: false,
            help: false,
            preset: None,
            seed: 42,
            node: "node-0".to_owned(),
            profile: None,
            dry_run: false,
            output: None,
            record: None,
            budget: None,
            assert_min_injected: None,
            assert_max_injected: None,
            fail_fast: false,
            junit: None,
            sarif: None,
        };
        let ghost all = text::views(tokens@);
        let mut i: usize = 0;
        assert(all.skip(0) =~= all);
        while i < tokens.len()
            invariant
                i <= tokens@.len(),
                all == text::views(tokens@),
                read(default_args(), all) == read(args@, all.skip(i as int)),
            decreases tokens@.len() - i,
        {
            let ghost rest = all.skip(i as int);
            proof {
                assert(rest[0] == tokens@[i as int]@);
                assert(rest.skip(1) =~= all.skip(i + 1));
            }
            match find_switch(tokens[i].as_str()) {
                Some(switch) => {
                    args.switch(switch);
                    i += 1;
                },
                None => match find_setting(tokens[i].as_str()) {
                    None => {
                        return Err(CliError::Unrecognised(tokens[i].clone()));
                    },
                    Some(setting) => {
                        if tokens.len() - i == 1 {
                            return Err(CliError::MissingValue(tokens[i].clone()));
                        }
                        proof {
                            assert(rest[1] == tokens@[i + 1]@);
                            assert(rest.skip(2) =~= all.skip(i + 2));
                        }
                        match args.apply(setting, tokens[i].as_str(), tokens[i + 1].as_str()) {
                            Ok(()) => {},
                            Err(e) => {
                                return Err(e);
                            },
                        }
                        i += 2;
                    },
                },
            }
        }
        assert(all.skip(all.len() as int) =~= Seq::empty());
        Ok(args)
    }
}

/// True if `label` names a profile.
pub open spec fn is_profile_label(label: Seq<char>) -> bool {
    ||| label == "network_partition"@
    ||| label == "memory_pressure"@
    ||| label == "latency_cascade"@
    ||| label == "byzantine_node"@
    ||| label == "clock_skew"@
}

/// The profile of the given label.
pub fn profile_for(label: &str) -> (r: Result<BifurcationProfile, CliError>)
    ensures
        match r {
            Ok(profile) => is_profile_label(label@) && profile.label@ == label@,
            Err(e) => !is_profile_label(label@) && e@ == CliErrorView::UnknownProfile(label@),
        },
{
    if text::same(label, "network_partition") {
        Ok(BifurcationProfile::network_partition())
    } else if text::same(label, "memory_pressure") {
        Ok(BifurcationProfile::memory_pressure())
    } else if text::same(label, "latency_cascade") {
        Ok(BifurcationProfile::latency_cascade())
    } else if text::same(label, "byzantine_node") {
        Ok(BifurcationProfile::byzantine_node())
    } else if text::same(label, "clock_skew") {
        Ok(BifurcationProfile::clock_skew())
    } else {
        Err(CliError::UnknownProfile(label.to_owned()))
    }
}

/// What the runner is to do.
pub enum Plan {
    /// Print the help text.
    Help,
    /// Print the preset names.
    ListPresets,
    /// Run, or dry-run, a scenario.
    Run(ChaosScenario),
}

/// The label of the profile that the run uses.
pub open spec fn chosen_profile(args: ArgsView) -> Seq<char> {
    match args.profile {
        Some(label) => label,
        None => "network_partition"@,
    }
}

/// Why a scenario cannot be made from the arguments, if so.
pub open spec fn plan_error(args: ArgsView) -> Option<CliErrorView> {
    match args.preset {
        None => Some(CliErrorView::MissingPreset),
        Some(name) => if !is_preset_name(name) {
            Some(CliErrorView::UnknownPreset(name))
        } else if !is_profile_label(chosen_profile(args)) {
            Some(CliErrorView::UnknownProfile(chosen_profile(args)))
        } else {
            None
        },
    }
}

/// True if `scenario` is the preset of that name, with the given seed, profile and
/// size of its jump.
pub open spec fn is_chosen(
    scenario: ChaosScenario,
    name: Seq<char>,
    seed: u64,
    profile: Seq<char>,
    jump_ms: u64,
) -> bool {
    &&& scenario.title() == name
    &&& scenario.shared_seed() == seed
    &&& scenario.stability().label@ == profile
    &&& scenario.graph() is None
    &&& exists|b: ChaosScenarioBuilder|
        {
            &&& #[trigger] crate::presets::is_preset_builder(name, jump_ms, b)
            &&& scenario.members() == b.faults@
        }
}

impl Args {
    /// Decides what to do. Help comes before the list of presets, and that before
    /// a run. `jump_ms` is the size that was drawn for the jump in the preset that
    /// has one.
    pub fn plan(&self, jump_ms: u64) -> (r: Result<Plan, CliError>)
        ensures
            match r {
                Ok(Plan::Help) => self@.help,
                Ok(Plan::ListPresets) => !self@.help && self@.list_presets,
                Ok(Plan::Run(scenario)) => {
                    &&& !self@.help && !self@.list_presets
                    &&& plan_error(self@) is None
                    &&& is_chosen(
                        scenario,
                        self@.preset->0,
                        self@.seed,
                        chosen_profile(self@),
                        jump_ms,
                    )
                },
                Err(e) => !self@.help && !self@.list_presets && plan_error(self@) == Some(e@),
            },
    {
        if self.help {
            return Ok(Plan::Help);
        }
        if self.list_presets {
            return Ok(Plan::ListPresets);
        }
        let name = match &self.preset {
            Some(name) => name,
            None => {
                return Err(CliError::MissingPreset);
            },
        };
        let builder = match preset(name.as_str(), jump_ms) {
            Some(builder) => builder,
            None => {
                return Err(CliError::UnknownPreset(name.clone()));
            },
        };
        proof {
            assert(crate::presets::is_preset_builder(name@, jump_ms, builder));
        }
        let profile = match &self.profile {
            Some(label) => match profile_for(label.as_str()) {
                Ok(profile) => profile,
                Err(e) => {
                    return Err(e);
                },
            },
            None => BifurcationProfile::network_partition(),
        };
        Ok(Plan::Run(builder.seed(self.seed).profile(profile).build()))
    }

    /// The context of a run: the chosen seed, node and profile, at time zero.
    pub fn context(&self, profile: BifurcationProfile) -> (r: FaultContext)
        ensures
            r.seed == self.seed,
            r.timestamp_ms == 0,
            r.node_id@ == self.node@,
            r.profile == profile,
    {
        FaultContext { seed: self.seed, timestamp_ms: 0, node_id: self.node.clone(), profile }
    }

    /// The budget of the run: what was loaded from the budget file, or one that
    /// checks nothing, with the two inline limits put over it. `None` if neither a
    /// file nor a limit was given.
    pub fn build_budget(&self, loaded: Option<ResilienceBudget>) -> (r: Option<ResilienceBudget>)
        requires
            loaded is Some <==> self.budget is Some,
        ensures
            r is None <==> self.budget is None && self.assert_min_injected is None
                && self.assert_max_injected is None,
            r matches Some(b) ==> {
                let base = match loaded {
                    Some(l) => l@,
                    None => crate::assertions::empty_budget(),
                };
                b@ == (BudgetView {
                    min_injected_total: match self.assert_min_injected {
                        Some(n) => Some(n),
                        None => base.min_injected_total,
                    },
                    max_injected_total: match self.assert_max_injected {
                        Some(n) => Some(n),
                        None => base.max_injected_total,
                    },
                    ..base
                })
            },
    {
        if self.budget.is_none() && self.assert_min_injected.is_none()
            && self.assert_max_injected.is_none() {
            return None;
        }
        let mut budget = match loaded {
            Some(budget) => budget,
            None => ResilienceBudget {
                max_injected_total: None,
                min_injected_total: None,
                max_injected_per_fault_type: None,
                require_fault_types: None,
                forbid_regime: None,
                max_scenario_duration_ms: None,
            },
        };
        if self.assert_min_injected.is_some() {
            budget.min_injected_total = self.assert_min_injected;
        }
        if self.assert_max_injected.is_some() {
            budget.max_injected_total = self.assert_max_injected;
        }
        Some(budget)
    }
}

/// Evaluates a budget; with `fail_fast`, only the first violation is reported.
pub fn judge(budget: &ResilienceBudget, report: &ScenarioReport, fail_fast: bool) -> (r:
    BudgetOutcome)
    ensures
        r.passed == (violations(budget@, report@).len() == 0),
        violation_views(r.violations@) == reported_violations(budget@, report@, fail_fast),
{
    let mut outcome = budget.evaluate(report);
    if fail_fast && outcome.violations.len() > 1 {
        let ghost before = outcome.violations@;
        outcome.violations.truncate(1);
        assert(violation_views(outcome.violations@) =~= violation_views(before).take(1));
    }
    outcome
}

/// The exit code of a run that was carried out.
pub fn run_exit_code(outcome: Option<&BudgetOutcome>) -> (r: u8)
    ensures
        r == match outcome {
            Some(o) => if o.passed {
                EXIT_SUCCESS
            } else {
                EXIT_BUDGET
            },
            None => EXIT_SUCCESS,
        },
{
    match outcome {
        Some(o) => if o.passed {
            EXIT_SUCCESS
        } else {
            EXIT_BUDGET
        },
        None => EXIT_SUCCESS,
    }
}

/// The report of a dry run, which injects nothing.
pub fn dry_report(dry: &ScenarioDryRunReport) -> (r: ScenarioReport)
    ensures
        r.name@ == dry.name@,
        r.seed == dry.seed,
        r.regime == ScenarioRegime::Stable,
        r.events@.len() == 0,
        r.total_duration_ms == 0,
{
    ScenarioReport {
        name: dry.name.clone(),
        seed: dry.seed,
        regime: ScenarioRegime::Stable,
        events: Vec::new(),
        total_duration_ms: 0,
    }
}

/// What remains to be written and said once a scenario was run.
#[derive(Debug)]
pub struct Conclusion {
    /// Outcome of the budget, if one was asked for.
    pub outcome: Option<BudgetOutcome>,
    /// The `budget` block of the report, if a budget was asked for.
    pub budget_block: Option<Json>,
    /// The outcome in words, if a budget was asked for.
    pub summary: Option<String>,
    /// True if a budget was evaluated against a dry run, which never has events.
    pub budget_on_dry_run: bool,
    /// The JUnit report, if one was asked for.
    pub junit: Option<String>,
    /// The SARIF report, if one was asked for.
    pub sarif: Option<Json>,
    /// True if a record is to be written.
    pub write_record: bool,
    /// True if a record was asked for but a dry run gives none.
    pub record_skipped: bool,
    /// Exit code of the program.
    pub exit_code: u8,
}

/// The violations that a run reports.
pub open spec fn reported_violations(
    budget: BudgetView,
    report: ReportView,
    fail_fast: bool,
) -> Seq<ViolationView> {
    let all = violations(budget, report);
    if fail_fast && all.len() > 1 {
        all.take(1)
    } else {
        all
    }
}

/// True if `c` is the conclusion of a run without a budget.
pub open spec fn concludes_without_budget(c: Conclusion, args: ArgsView, report: ReportView) -> bool {
    &&& c.outcome is None
    &&& c.budget_block is None
    &&& c.summary is None
    &&& !c.budget_on_dry_run
    &&& c.junit is Some <==> args.junit is Some
    &&& c.junit matches Some(xml) ==> xml@ == junit(report, Seq::empty())
    &&& c.sarif is Some <==> args.sarif is Some
    &&& c.sarif matches Some(doc) ==> doc.model() == sarif(report, true, Seq::empty())
    &&& c.exit_code == EXIT_SUCCESS
}

/// True if `c` is the conclusion of a run with a budget.
pub open spec fn concludes_with_budget(
    c: Conclusion,
    args: ArgsView,
    report: ReportView,
    budget: BudgetView,
) -> bool {
    let list = reported_violations(budget, report, args.fail_fast);
    let passed = violations(budget, report).len() == 0;
    &&& c.outcome matches Some(o) && o.passed == passed && violation_views(o.violations@) == list
    &&& c.budget_block matches Some(block) && block.model() == budget_json(passed, list)
    &&& c.summary matches Some(words) && words@ == outcome_text(passed, list)
    &&& c.budget_on_dry_run == args.dry_run
    &&& c.junit is Some <==> args.junit is Some
    &&& c.junit matches Some(xml) ==> xml@ == junit(report, list)
    &&& c.sarif is Some <==> args.sarif is Some
    &&& c.sarif matches Some(doc) ==> doc.model() == sarif(report, passed, list)
    &&& c.exit_code == if passed {
        EXIT_SUCCESS
    } else {
        EXIT_BUDGET
    }
}

impl Args {
    fn side_reports(
        &self,
        report: &ScenarioReport,
        outcome: Option<&BudgetOutcome>,
    ) -> (r: (Option<String>, Option<Json>))
        requires
            report.events@.len() + outcome_violations(outcome).len() <= u64::MAX,
        ensures
            r.0 is Some <==> self.junit is Some,
            r.0 matches Some(xml) ==> xml@ == junit(report@, outcome_violations(outcome)),
            r.1 is Some <==> self.sarif is Some,
            r.1 matches Some(doc) ==> doc.model() == sarif(
                report@,
                match outcome {
                    Some(o) => o.passed,
                    None => true,
                },
                outcome_violations(outcome),
            ),
    {
        let junit = if self.junit.is_some() {
            Some(to_junit_xml(report, outcome))
        } else {
            None
        };
        let sarif = if self.sarif.is_some() {
            Some(to_sarif(report, outcome))
        } else {
            None
        };
        (junit, sarif)
    }

    /// Draws the conclusion of a run: holds its report against the budget, makes
    /// the side reports that were asked for, and settles the exit code.
    pub fn conclude(&self, report: &ScenarioReport, budget: Option<&ResilienceBudget>) -> (r:
        Conclusion)
        requires
            report.events@.len() + match budget {
                Some(b) => violations(b@, report@).len(),
                None => 0,
            } <= u64::MAX,
        ensures
            match budget {
                Some(b) => concludes_with_budget(r, self@, report@, b@),
                None => concludes_without_budget(r, self@, report@),
            },
            r.write_record == (self@.record is Some && !self@.dry_run),
            r.record_skipped == (self@.record is Some && self@.dry_run),
    {
        let write_record: bool = self.record.is_some() && !self.dry_run;
        let record_skipped: bool = self.record.is_some() && self.dry_run;
        match budget {
            Some(b) => {
                let outcome = judge(b, report, self.fail_fast);
                let block = budget_block(&outcome);
                let words = format_outcome(&outcome);
                let (junit, sarif) = self.side_reports(report, Some(&outcome));
                let exit_code: u8 = run_exit_code(Some(&outcome));
                Conclusion {
                    outcome: Some(outcome),
                    budget_block: Some(block),
                    summary: Some(words),
                    budget_on_dry_run: self.dry_run,
                    junit,
                    sarif,
                    write_record,
                    record_skipped,
                    exit_code,
                }
            },
            None => {
                let (junit, sarif) = self.side_reports(report, None);
                Conclusion {
                    outcome: None,
                    budget_block: None,
                    summary: None,
                    budget_on_dry_run: false,
                    junit,
                    sarif,
                    write_record,
                    record_skipped,
                    exit_code: run_exit_code(None),
                }
            },
        }
    }
}

/// Format of a record file.
#[derive(Clone, Copy, Debug, PartialEq, Eq, Structural)]
pub enum RecordFormat {
    Yaml,
    Json,
}

/// The format of a record file by its extension: YAML for `yaml` and `yml` in any
/// case of letters, JSON for all else.
pub fn record_format(ext: &str) -> (r: RecordFormat)
    ensures
        r == if text::lower(ext@) == "yaml"@ || text::lower(ext@) == "yml"@ {
            RecordFormat::Yaml
        } else {
            RecordFormat::Json
        },
{
    let name = text::to_lower(ext);
    if text::same(name.as_str(), "yaml") || text::same(name.as_str(), "yml") {
        RecordFormat::Yaml
    } else {
        RecordFormat::Json
    }
}

/// The JSON form of one violation.
pub open spec fn violation_json(v: ViolationView) -> JsonView {
    JsonView::Object(
        seq![
            ("rule"@, JsonView::Text(v.rule)),
            ("expected"@, JsonView::Text(v.expected)),
            ("actual"@, JsonView::Text(v.actual)),
        ],
    )
}

/// The `budget` block of a report.
pub open spec fn budget_json(passed: bool, list: Seq<ViolationView>) -> JsonView {
    JsonView::Object(
        seq![
            ("passed"@, JsonView::Bool(passed)),
            (
                "violations"@,
                JsonView::List(Seq::new(list.len(), |i: int| violation_json(list[i]))),
            ),
        ],
    )
}

fn violation_block(v: &Violation) -> (r: Json)
    ensures
        r.model() == violation_json(v@),
{
    let r = Json::object().with("rule", Json::text(v.rule.as_str())).with(
        "expected",
        Json::text(v.expected.as_str()),
    ).with("actual", Json::text(v.actual.as_str()));
    assert(r.model()->Object_0 =~= violation_json(v@)->Object_0);
    r
}

/// The `budget` block of a report.
pub fn budget_block(outcome: &BudgetOutcome) -> (r: Json)
    ensures
        r.model() == budget_json(outcome.passed, violation_views(outcome.violations@)),
{
    let ghost want = budget_json(outcome.passed, violation_views(outcome.violations@));
    let ghost items = want->Object_0[1].1->List_0;
    let mut list = Json::list();
    let mut i: usize = 0;
    while i < outcome.violations.len()
        invariant
            i <= outcome.violations@.len(),
            items.len() == outcome.violations@.len(),
            forall|j: int| 0 <= j < items.len() ==> #[trigger] items[j] == violation_json(
                outcome.violations@[j]@,
            ),
            list is List,
            list.model() is List,
            list.model()->List_0 =~= items.take(i as int),
        decreases outcome.violations@.len() - i,
    {
        let entry = violation_block(&outcome.violations[i]);
        list = list.with_item(entry);
        i += 1;
    }
    assert(list.model()->List_0 =~= items);
    let r = Json::object().with("passed", Json::Bool(outcome.passed)).with("violations", list);
    assert(r.model()->Object_0 =~= want->Object_0);
    r
}

} // verus!
