//! Resilience budgets: pass or fail thresholds for a run.
//!
//! Evaluating a budget checks every rule and reports every violation.

use crate::names::copy_named;
use crate::scenario::{event_views, ReportView, ScenarioRegime, ScenarioReport};
use crate::text;
use crate::text::{decimal, joined, precedes, views};
use crate::types::EventView;
use vstd::prelude::*;

verus! {

/// A cap for each of some fault types, in ascending order of the names.
#[derive(Debug, Default, PartialEq, Eq)]
pub struct FaultTypeCaps {
    entries: Vec<(String, u64)>,
}

/// Models of a list of named caps.
pub open spec fn cap_views(entries: Seq<(String, u64)>) -> Seq<(Seq<char>, u64)> {
    Seq::new(entries.len(), |i: int| (entries[i].0@, entries[i].1))
}

/// `list` with the cap of `key` set, put before the first name that follows `key`.
pub open spec fn cap_inserted(list: Seq<(Seq<char>, u64)>, key: Seq<char>, cap: u64) -> Seq<
    (Seq<char>, u64),
>
    decreases list.len(),
{
    if list.len() == 0 || precedes(key, list[0].0) {
        seq![(key, cap)] + list
    } else if key == list[0].0 {
        seq![(key, cap)] + list.skip(1)
    } else {
        seq![list[0]] + cap_inserted(list.skip(1), key, cap)
    }
}

/// True if each name comes before all later ones.
pub open spec fn caps_ascend(list: Seq<(Seq<char>, u64)>) -> bool {
    forall|i: int, j: int|
        0 <= i < j < list.len() ==> precedes((#[trigger] list[i]).0, (#[trigger] list[j]).0)
}

proof fn cap_inserted_at(list: Seq<(Seq<char>, u64)>, key: Seq<char>, cap: u64, i: int)
    requires
        0 <= i <= list.len(),
        forall|j: int| 0 <= j < i ==> precedes((#[trigger] list[j]).0, key),
        i < list.len() ==> !precedes(list[i].0, key),
    ensures
        cap_inserted(list, key, cap) == if i < list.len() && list[i].0 == key {
            list.update(i, (key, cap))
        } else {
            list.insert(i, (key, cap))
        },
    decreases list.len(),
{
    text::precedes_irreflexive(key);
    if i == 0 {
        if list.len() > 0 {
            text::precedes_total(list[0].0, key);
            if list[0].0 == key {
                assert(cap_inserted(list, key, cap) =~= list.update(0, (key, cap)));
            } else {
                assert(cap_inserted(list, key, cap) =~= list.insert(0, (key, cap)));
            }
        } else {
            assert(cap_inserted(list, key, cap) =~= list.insert(0, (key, cap)));
        }
    } else {
        assert(precedes(list[0].0, key));
        if precedes(key, list[0].0) {
            text::precedes_transitive(key, list[0].0, key);
        }
        let rest = list.skip(1);
        assert forall|j: int| 0 <= j < i - 1 implies precedes((#[trigger] rest[j]).0, key) by {
            assert(list[j + 1] == rest[j]);
        }
        cap_inserted_at(rest, key, cap, i - 1);
        if i < list.len() && list[i].0 == key {
            assert(seq![list[0]] + rest.update(i - 1, (key, cap)) =~= list.update(
                i,
                (key, cap),
            ));
        } else {
            assert(seq![list[0]] + rest.insert(i - 1, (key, cap)) =~= list.insert(
                i,
                (key, cap),
            ));
        }
    }
}

/// Setting a cap keeps the names in ascending order, without repeats.
pub proof fn cap_inserted_ascends(list: Seq<(Seq<char>, u64)>, key: Seq<char>, cap: u64)
    requires
        caps_ascend(list),
    ensures
        caps_ascend(cap_inserted(list, key, cap)),
        forall|i: int|
            0 <= i < cap_inserted(list, key, cap).len() ==> (#[trigger] cap_inserted(
                list,
                key,
                cap,
            )[i]).0 == key || exists|j: int|
                0 <= j < list.len() && cap_inserted(list, key, cap)[i] == #[trigger] list[j],
    decreases list.len(),
{
    let out = cap_inserted(list, key, cap);
    if list.len() == 0 {
    } else if precedes(key, list[0].0) {
        assert forall|i: int, j: int| 0 <= i < j < out.len() implies precedes(
            (#[trigger] out[i]).0,
            (#[trigger] out[j]).0,
        ) by {
            assert(out[j] == list[j - 1]);
            if i == 0 {
                if j > 1 {
                    assert(precedes(list[0].0, list[j - 1].0));
                    text::precedes_transitive(key, list[0].0, list[j - 1].0);
                }
            } else {
                assert(out[i] == list[i - 1]);
            }
        }
        assert forall|i: int| 0 <= i < out.len() implies (#[trigger] out[i]).0 == key || exists|
            j: int,
        |
            0 <= j < list.len() && out[i] == #[trigger] list[j] by {
            if i > 0 {
                assert(out[i] == list[i - 1]);
            }
        }
    } else if key == list[0].0 {
        assert(out =~= list.update(0, (key, cap)));
        assert forall|i: int, j: int| 0 <= i < j < out.len() implies precedes(
            (#[trigger] out[i]).0,
            (#[trigger] out[j]).0,
        ) by {
            assert(out[i].0 == list[i].0 && out[j].0 == list[j].0);
        }
        assert forall|i: int| 0 <= i < out.len() implies (#[trigger] out[i]).0 == key || exists|
            j: int,
        |
            0 <= j < list.len() && out[i] == #[trigger] list[j] by {
            if i > 0 {
                assert(out[i] == list[i]);
            }
        }
    } else {
        let rest = list.skip(1);
        assert forall|i: int, j: int| 0 <= i < j < rest.len() implies precedes(
            (#[trigger] rest[i]).0,
            (#[trigger] rest[j]).0,
        ) by {
            assert(rest[i] == list[i + 1] && rest[j] == list[j + 1]);
        }
        cap_inserted_ascends(rest, key, cap);
        text::precedes_total(key, list[0].0);
        let tail = cap_inserted(rest, key, cap);
        assert forall|i: int| 0 <= i < tail.len() implies precedes(
            list[0].0,
            (#[trigger] tail[i]).0,
        ) by {
            if tail[i].0 != key {
                let j = choose|j: int| 0 <= j < rest.len() && tail[i] == #[trigger] rest[j];
                assert(rest[j] == list[j + 1]);
            }
        }
        assert forall|i: int, j: int| 0 <= i < j < out.len() implies precedes(
            (#[trigger] out[i]).0,
            (#[trigger] out[j]).0,
        ) by {
            assert(out[j] == tail[j - 1]);
            if i > 0 {
                assert(out[i] == tail[i - 1]);
            }
        }
        assert forall|i: int| 0 <= i < out.len() implies (#[trigger] out[i]).0 == key || exists|
            j: int,
        |
            0 <= j < list.len() && out[i] == #[trigger] list[j] by {
            if i == 0 {
                assert(out[0] == list[0]);
            } else {
                assert(out[i] == tail[i - 1]);
                if tail[i - 1].0 != key {
                    let j = choose|j: int|
                        0 <= j < rest.len() && tail[i - 1] == #[trigger] rest[j];
                    assert(list[j + 1] == out[i]);
                }
            }
        }
    }
}

impl View for FaultTypeCaps {
    type V = Seq<(Seq<char>, u64)>;

    closed spec fn view(&self) -> Seq<(Seq<char>, u64)> {
        cap_views(self.entries@)
    }
}

impl Clone for FaultTypeCaps {
    fn clone(&self) -> (r: Self)
        ensures
            r@ == self@,
    {
        proof {
            use_type_invariant(self);
        }
        FaultTypeCaps { entries: copy_named(&self.entries) }
    }
}

impl FaultTypeCaps {
    #[verifier::type_invariant]
    spec fn well_formed(self) -> bool {
        caps_ascend(cap_views(self.entries@))
    }

    /// No caps.
    pub fn new() -> (r: Self)
        ensures
            r@ == Seq::<(Seq<char>, u64)>::empty(),
    {
        let r = FaultTypeCaps { entries: Vec::new() };
        assert(r@ =~= Seq::empty());
        r
    }

    /// Sets the cap of one fault type.
    pub fn insert(&mut self, fault_type: &str, cap: u64)
        ensures
            final(self)@ == cap_inserted(old(self)@, fault_type@, cap),
    {
        proof {
            use_type_invariant(&*self);
        }
        let ghost list = self@;
        let mut entries: Vec<(String, u64)> = Vec::new();
        std::mem::swap(&mut entries, &mut self.entries);
        let mut i: usize = 0;
        while i < entries.len() && text::less(entries[i].0.as_str(), fault_type)
            invariant
                i <= entries@.len(),
                list == cap_views(entries@),
                forall|j: int| 0 <= j < i ==> precedes((#[trigger] list[j]).0, fault_type@),
            decreases entries@.len() - i,
        {
            i += 1;
        }
        proof {
            cap_inserted_at(list, fault_type@, cap, i as int);
            cap_inserted_ascends(list, fault_type@, cap);
        }
        if i < entries.len() && text::same(entries[i].0.as_str(), fault_type) {
            entries.set(i, (fault_type.to_owned(), cap));
            assert(cap_views(entries@) =~= list.update(i as int, (fault_type@, cap)));
        } else {
            entries.insert(i, (fault_type.to_owned(), cap));
            assert(cap_views(entries@) =~= list.insert(i as int, (fault_type@, cap)));
        }
        self.entries = entries;
    }

    /// The entries in ascending order of their names, without repeats.
    pub fn entries(&self) -> (r: &Vec<(String, u64)>)
        ensures
            cap_views(r@) == self@,
            caps_ascend(self@),
    {
        proof {
            use_type_invariant(self);
        }
        &self.entries
    }
}

/// Thresholds for one run. What is not set is not checked.
#[derive(Debug, Default, PartialEq, Eq)]
pub struct ResilienceBudget {
    /// Largest number of injected faults.
    pub max_injected_total: Option<u64>,
    /// Smallest number of injected faults.
    pub min_injected_total: Option<u64>,
    /// Largest number of injected faults of each type.
    pub max_injected_per_fault_type: Option<FaultTypeCaps>,
    /// Fault types that must occur.
    pub require_fault_types: Option<Vec<String>>,
    /// Operating regions that must not be reached.
    pub forbid_regime: Option<Vec<ScenarioRegime>>,
    /// Longest run in milliseconds.
    pub max_scenario_duration_ms: Option<u64>,
}

/// Model of a budget.
pub struct BudgetView {
    pub max_injected_total: Option<u64>,
    pub min_injected_total: Option<u64>,
    pub max_injected_per_fault_type: Option<Seq<(Seq<char>, u64)>>,
    pub require_fault_types: Option<Seq<Seq<char>>>,
    pub forbid_regime: Option<Seq<ScenarioRegime>>,
    pub max_scenario_duration_ms: Option<u64>,
}

impl View for ResilienceBudget {
    type V = BudgetView;

    open spec fn view(&self) -> BudgetView {
        BudgetView {
            max_injected_total: self.max_injected_total,
            min_injected_total: self.min_injected_total,
            max_injected_per_fault_type: match self.max_injected_per_fault_type {
                Some(caps) => Some(caps@),
                None => None,
            },
            require_fault_types: match self.require_fault_types {
                Some(list) => Some(views(list@)),
                None => None,
            },
            forbid_regime: match self.forbid_regime {
                Some(list) => Some(list@),
                None => None,
            },
            max_scenario_duration_ms: self.max_scenario_duration_ms,
        }
    }
}

impl Clone for ResilienceBudget {
    fn clone(&self) -> (r: Self)
        ensures
            r@ == self@,
    {
        let max_injected_per_fault_type: Option<FaultTypeCaps> =
            match &self.max_injected_per_fault_type {
            Some(caps) => Some(caps.clone()),
            None => None,
        };
        let require_fault_types: Option<Vec<String>> = match &self.require_fault_types {
            Some(list) => {
                let copy: Vec<String> = list.clone();
                assert(views(copy@) =~= views(list@));
                Some(copy)
            },
            None => None,
        };
        let forbid_regime: Option<Vec<ScenarioRegime>> = match &self.forbid_regime {
            Some(list) => {
                let copy: Vec<ScenarioRegime> = list.clone();
                assert(copy@ =~= list@);
                Some(copy)
            },
            None => None,
        };
        ResilienceBudget {
            max_injected_total: self.max_injected_total,
            min_injected_total: self.min_injected_total,
            max_injected_per_fault_type,
            require_fault_types,
            forbid_regime,
            max_scenario_duration_ms: self.max_scenario_duration_ms,
        }
    }
}

/// The budget that checks nothing.
pub open spec fn empty_budget() -> BudgetView {
    BudgetView {
        max_injected_total: None,
        min_injected_total: None,
        max_injected_per_fault_type: None,
        require_fault_types: None,
        forbid_regime: None,
        max_scenario_duration_ms: None,
    }
}

/// One broken rule.
#[derive(Debug, PartialEq, Eq)]
pub struct Violation {
    /// Stable identifier of the rule.
    pub rule: String,
    /// Expected value, for a reader.
    pub expected: String,
    /// Actual value, for a reader.
    pub actual: String,
}

/// Model of a violation.
pub struct ViolationView {
    pub rule: Seq<char>,
    pub expected: Seq<char>,
    pub actual: Seq<char>,
}

impl View for Violation {
    type V = ViolationView;

    open spec fn view(&self) -> ViolationView {
        ViolationView { rule: self.rule@, expected: self.expected@, actual: self.actual@ }
    }
}

impl Clone for Violation {
    fn clone(&self) -> (r: Self)
        ensures
            r == *self,
    {
        Violation {
            rule: self.rule.clone(),
            expected: self.expected.clone(),
            actual: self.actual.clone(),
        }
    }
}

/// Models of a list of violations.
pub open spec fn violation_views(list: Seq<Violation>) -> Seq<ViolationView> {
    Seq::new(list.len(), |i: int| list[i]@)
}

/// How a violation reads.
pub open spec fn violation_text(v: ViolationView) -> Seq<char> {
    "["@ + v.rule + "] expected "@ + v.expected + ", got "@ + v.actual
}

impl Violation {
    /// This violation in words.
    pub fn describe(&self) -> (out: String)
        ensures
            out@ == violation_text(self@),
    {
        let mut out: String = text::concat3("[", self.rule.as_str(), "] expected ");
        out.append(self.expected.as_str());
        out.append(", got ");
        out.append(self.actual.as_str());
        out
    }
}

/// Result of evaluating a budget.
#[derive(Debug, PartialEq, Eq)]
pub struct BudgetOutcome {
    /// True if no rule was broken.
    pub passed: bool,
    /// All broken rules in the order of evaluation.
    pub violations: Vec<Violation>,
}

impl BudgetOutcome {
    /// Number of broken rules.
    pub fn violation_count(&self) -> (n: usize)
        ensures
            n == self.violations@.len(),
    {
        self.violations.len()
    }
}

impl Clone for BudgetOutcome {
    fn clone(&self) -> (r: Self)
        ensures
            r.passed == self.passed,
            r.violations@ == self.violations@,
    {
        BudgetOutcome { passed: self.passed, violations: self.violations.clone() }
    }
}

/// Number of events of the given fault type.
pub open spec fn count_of(events: Seq<EventView>, fault_type: Seq<char>) -> nat
    decreases events.len(),
{
    if events.len() == 0 {
        0
    } else {
        count_of(events.drop_last(), fault_type) + if events.last().fault_type == fault_type {
            1nat
        } else {
            0nat
        }
    }
}

/// The violation of a rule that asks for at most `cap`.
pub open spec fn too_many(rule: Seq<char>, cap: u64, actual: nat) -> ViolationView {
    ViolationView { rule, expected: "<= "@ + decimal(cap as nat), actual: decimal(actual) }
}

/// Broken caps on the number of events of each fault type.
pub open spec fn broken_caps(caps: Seq<(Seq<char>, u64)>, events: Seq<EventView>) -> Seq<
    ViolationView,
>
    decreases caps.len(),
{
    if caps.len() == 0 {
        Seq::empty()
    } else {
        let front = broken_caps(caps.drop_last(), events);
        let (fault_type, cap) = caps.last();
        if count_of(events, fault_type) > cap {
            front.push(
                too_many(
                    "max_injected_per_fault_type["@ + fault_type + "]"@,
                    cap,
                    count_of(events, fault_type),
                ),
            )
        } else {
            front
        }
    }
}

/// Required fault types that do not occur.
pub open spec fn missing_types(required: Seq<Seq<char>>, events: Seq<EventView>) -> Seq<
    ViolationView,
>
    decreases required.len(),
{
    if required.len() == 0 {
        Seq::empty()
    } else {
        let front = missing_types(required.drop_last(), events);
        if count_of(events, required.last()) == 0 {
            front.push(
                ViolationView {
                    rule: "require_fault_types["@ + required.last() + "]"@,
                    expected: ">= 1 occurrence"@,
                    actual: "0 occurrences"@,
                },
            )
        } else {
            front
        }
    }
}

/// Names of a list of operating regions.
pub open spec fn regime_labels(list: Seq<ScenarioRegime>) -> Seq<Seq<char>> {
    Seq::new(list.len(), |i: int| list[i].label())
}

/// `v` in a list of its own if `broken` holds, else no violation.
pub open spec fn if_broken(broken: bool, v: ViolationView) -> Seq<ViolationView> {
    if broken {
        seq![v]
    } else {
        Seq::empty()
    }
}

/// Violation of the largest total.
pub open spec fn over_total(max: Option<u64>, report: ReportView) -> Seq<ViolationView> {
    match max {
        Some(cap) => if_broken(
            report.events.len() > cap,
            too_many("max_injected_total"@, cap, report.events.len()),
        ),
        None => Seq::empty(),
    }
}

/// Violation of the smallest total.
pub open spec fn under_total(min: Option<u64>, report: ReportView) -> Seq<ViolationView> {
    match min {
        Some(floor) => if_broken(
            report.events.len() < floor,
            ViolationView {
                rule: "min_injected_total"@,
                expected: ">= "@ + decimal(floor as nat),
                actual: decimal(report.events.len()),
            },
        ),
        None => Seq::empty(),
    }
}

/// Violation of the forbidden operating regions.
pub open spec fn in_forbidden(
    forbidden: Option<Seq<ScenarioRegime>>,
    report: ReportView,
) -> Seq<ViolationView> {
    match forbidden {
        Some(list) => if_broken(
            list.contains(report.regime),
            ViolationView {
                rule: "forbid_regime"@,
                expected: "not in ["@ + joined(regime_labels(list), ", "@) + "]"@,
                actual: report.regime.label(),
            },
        ),
        None => Seq::empty(),
    }
}

/// Violation of the longest run.
pub open spec fn over_time(max: Option<u64>, report: ReportView) -> Seq<ViolationView> {
    match max {
        Some(cap) => if_broken(
            report.total_duration_ms > cap,
            too_many("max_scenario_duration_ms"@, cap, report.total_duration_ms as nat),
        ),
        None => Seq::empty(),
    }
}

/// All violations of a budget by a report, rule by rule.
pub open spec fn violations(budget: BudgetView, report: ReportView) -> Seq<ViolationView> {
    over_total(budget.max_injected_total, report) + under_total(budget.min_injected_total, report)
        + (match budget.max_injected_per_fault_type {
        Some(caps) => broken_caps(caps, report.events),
        None => Seq::empty(),
    }) + (match budget.require_fault_types {
        Some(required) => missing_types(required, report.events),
        None => Seq::empty(),
    }) + in_forbidden(budget.forbid_regime, report) + over_time(
        budget.max_scenario_duration_ms,
        report,
    )
}

/// An empty budget accepts every report.
pub proof fn empty_budget_passes(report: ReportView)
    ensures
        violations(empty_budget(), report).len() == 0,
{
}

proof fn no_broken_caps(caps: Seq<(Seq<char>, u64)>, events: Seq<EventView>)
    ensures
        broken_caps(caps, events).len() == 0 <==> forall|i: int|
            0 <= i < caps.len() ==> count_of(events, (#[trigger] caps[i]).0) <= caps[i].1,
    decreases caps.len(),
{
    if caps.len() > 0 {
        let front = caps.drop_last();
        no_broken_caps(front, events);
        assert(forall|i: int| 0 <= i < front.len() ==> #[trigger] caps[i] == front[i]);
        if broken_caps(caps, events).len() == 0 {
            assert forall|i: int| 0 <= i < caps.len() implies count_of(
                events,
                (#[trigger] caps[i]).0,
            ) <= caps[i].1 by {
                if i < front.len() {
                    assert(front[i] == caps[i]);
                }
            }
        } else if forall|i: int|
            0 <= i < caps.len() ==> count_of(events, (#[trigger] caps[i]).0) <= caps[i].1 {
            assert(count_of(events, caps[caps.len() - 1].0) <= caps[caps.len() - 1].1);
            assert forall|i: int| 0 <= i < front.len() implies count_of(
                events,
                (#[trigger] front[i]).0,
            ) <= front[i].1 by {
                assert(front[i] == caps[i]);
            }
        }
    }
}

proof fn no_missing_types(required: Seq<Seq<char>>, events: Seq<EventView>)
    ensures
        missing_types(required, events).len() == 0 <==> forall|i: int|
            0 <= i < required.len() ==> count_of(events, #[trigger] required[i]) > 0,
    decreases required.len(),
{
    if required.len() > 0 {
        let front = required.drop_last();
        no_missing_types(front, events);
        if missing_types(required, events).len() == 0 {
            assert forall|i: int| 0 <= i < required.len() implies count_of(
                events,
                #[trigger] required[i],
            ) > 0 by {
                if i < front.len() {
                    assert(front[i] == required[i]);
                }
            }
        } else if forall|i: int|
            0 <= i < required.len() ==> count_of(events, #[trigger] required[i]) > 0 {
            assert(count_of(events, required[required.len() - 1]) > 0);
            assert forall|i: int| 0 <= i < front.len() implies count_of(
                events,
                #[trigger] front[i],
            ) > 0 by {
                assert(front[i] == required[i]);
            }
        }
    }
}

/// A report passes a budget exactly if it keeps every rule that is set.
pub proof fn passes_if_all_rules_hold(budget: BudgetView, report: ReportView)
    ensures
        violations(budget, report).len() == 0 <==> {
            &&& budget.max_injected_total matches Some(cap) ==> report.events.len() <= cap
            &&& budget.min_injected_total matches Some(floor) ==> report.events.len() >= floor
            &&& budget.max_injected_per_fault_type matches Some(caps) ==> forall|i: int|
                0 <= i < caps.len() ==> count_of(report.events, (#[trigger] caps[i]).0)
                    <= caps[i].1
            &&& budget.require_fault_types matches Some(required) ==> forall|i: int|
                0 <= i < required.len() ==> count_of(report.events, #[trigger] required[i]) > 0
            &&& budget.forbid_regime matches Some(list) ==> !list.contains(report.regime)
            &&& budget.max_scenario_duration_ms matches Some(cap) ==> report.total_duration_ms
                <= cap
        },
{
    if let Some(caps) = budget.max_injected_per_fault_type {
        no_broken_caps(caps, report.events);
    }
    if let Some(required) = budget.require_fault_types {
        no_missing_types(required, report.events);
    }
}

fn count_events(report: &ScenarioReport, fault_type: &str) -> (n: u64)
    ensures
        n == count_of(report@.events, fault_type@),
{
    let mut n: u64 = 0;
    let mut i: usize = 0;
    let ghost all = event_views(report.events@);
    assert(all.take(0) =~= Seq::empty());
    while i < report.events.len()
        invariant
            i <= report.events@.len(),
            all == event_views(report.events@),
            n <= i,
            n == count_of(all.take(i as int), fault_type@),
        decreases report.events@.len() - i,
    {
        assert(all.take(i + 1).drop_last() =~= all.take(i as int));
        if text::same(report.events[i].fault_type.as_str(), fault_type) {
            n += 1;
        }
        i += 1;
    }
    assert(all.take(all.len() as int) =~= all);
    n
}

fn too_many_of(rule: &str, cap: u64, actual: u64) -> (v: Violation)
    ensures
        v@ == too_many(rule@, cap, actual as nat),
{
    let limit: String = text::decimal_of(cap);
    Violation {
        rule: rule.to_owned(),
        expected: text::concat("<= ", limit.as_str()),
        actual: text::decimal_of(actual),
    }
}

fn push_violation(list: &mut Vec<Violation>, v: Violation)
    ensures
        violation_views(final(list)@) == violation_views(old(list)@).push(v@),
{
    list.push(v);
    assert(violation_views(list@) =~= violation_views(old(list)@).push(v@));
}

fn check_caps(caps: &FaultTypeCaps, report: &ScenarioReport, out: &mut Vec<Violation>)
    ensures
        violation_views(final(out)@) == violation_views(old(out)@) + broken_caps(
            caps@,
            report@.events,
        ),
{
    let entries: &Vec<(String, u64)> = caps.entries();
    let mut i: usize = 0;
    assert(caps@.take(0) =~= Seq::empty());
    while i < entries.len()
        invariant
            i <= entries@.len(),
            caps@ == cap_views(entries@),
            violation_views(out@) =~= violation_views(old(out)@) + broken_caps(
                caps@.take(i as int),
                report@.events,
            ),
        decreases entries@.len() - i,
    {
        assert(caps@.take(i + 1).drop_last() =~= caps@.take(i as int));
        assert(caps@.take(i + 1).last() == (entries@[i as int].0@, entries@[i as int].1));
        let actual: u64 = count_events(report, entries[i].0.as_str());
        if actual > entries[i].1 {
            let rule: String = text::concat3(
                "max_injected_per_fault_type[",
                entries[i].0.as_str(),
                "]",
            );
            let v = too_many_of(rule.as_str(), entries[i].1, actual);
            push_violation(out, v);
        }
        i += 1;
    }
    assert(caps@.take(caps@.len() as int) =~= caps@);
}

fn check_required(required: &Vec<String>, report: &ScenarioReport, out: &mut Vec<Violation>)
    ensures
        violation_views(final(out)@) == violation_views(old(out)@) + missing_types(
            views(required@),
            report@.events,
        ),
{
    let ghost all = views(required@);
    let mut i: usize = 0;
    assert(all.take(0) =~= Seq::empty());
    while i < required.len()
        invariant
            i <= required@.len(),
            all == views(required@),
            violation_views(out@) =~= violation_views(old(out)@) + missing_types(
                all.take(i as int),
                report@.events,
            ),
        decreases required@.len() - i,
    {
        assert(all.take(i + 1).drop_last() =~= all.take(i as int));
        let seen: u64 = count_events(report, required[i].as_str());
        if seen == 0 {
            push_violation(
                out,
                Violation {
                    rule: text::concat3("require_fault_types[", required[i].as_str(), "]"),
                    expected: ">= 1 occurrence".to_owned(),
                    actual: "0 occurrences".to_owned(),
                },
            );
        }
        i += 1;
    }
    assert(all.take(all.len() as int) =~= all);
}

fn regime_listed(list: &Vec<ScenarioRegime>, regime: ScenarioRegime) -> (r: bool)
    ensures
        r == list@.contains(regime),
{
    let mut i: usize = 0;
    while i < list.len()
        invariant
            i <= list@.len(),
            forall|j: int| 0 <= j < i ==> #[trigger] list@[j] != regime,
        decreases list@.len() - i,
    {
        if list[i] == regime {
            assert(list@[i as int] == regime);
            return true;
        }
        i += 1;
    }
    false
}

fn show_regimes(list: &Vec<ScenarioRegime>) -> (out: String)
    ensures
        out@ == joined(regime_labels(list@), ", "@),
{
    let mut labels: Vec<String> = Vec::new();
    while labels.len() < list.len()
        invariant
            labels@.len() <= list@.len(),
            forall|i: int|
                0 <= i < labels@.len() ==> #[trigger] labels@[i]@ == list@[i].label(),
        decreases list@.len() - labels@.len(),
    {
        let regime: ScenarioRegime = list[labels.len()];
        labels.push(regime.show().to_owned());
    }
    assert(views(labels@) =~= regime_labels(list@));
    text::join(&labels, ", ")
}

impl ResilienceBudget {
    /// Sets the smallest number of injected faults.
    pub fn with_min_injected(self, n: u64) -> (r: Self)
        ensures
            r == (ResilienceBudget { min_injected_total: Some(n), ..self }),
    {
        ResilienceBudget { min_injected_total: Some(n), ..self }
    }

    /// Sets the largest number of injected faults.
    pub fn with_max_injected(self, n: u64) -> (r: Self)
        ensures
            r == (ResilienceBudget { max_injected_total: Some(n), ..self }),
    {
        ResilienceBudget { max_injected_total: Some(n), ..self }
    }

    fn check_totals(&self, report: &ScenarioReport) -> (out: Vec<Violation>)
        ensures
            violation_views(out@) == over_total(self.max_injected_total, report@) + under_total(
                self.min_injected_total,
                report@,
            ),
    {
        let mut out: Vec<Violation> = Vec::new();
        let total: u64 = report.events.len() as u64;
        assert(violation_views(out@) =~= Seq::empty());
        if let Some(cap) = self.max_injected_total {
            if total > cap {
                push_violation(&mut out, too_many_of("max_injected_total", cap, total));
            }
        }
        assert(violation_views(out@) =~= over_total(self.max_injected_total, report@));
        if let Some(floor) = self.min_injected_total {
            if total < floor {
                let limit: String = text::decimal_of(floor);
                push_violation(
                    &mut out,
                    Violation {
                        rule: "min_injected_total".to_owned(),
                        expected: text::concat(">= ", limit.as_str()),
                        actual: text::decimal_of(total),
                    },
                );
            }
        }
        assert(violation_views(out@) =~= over_total(self.max_injected_total, report@)
            + under_total(self.min_injected_total, report@));
        out
    }

    fn check_regime_and_time(&self, report: &ScenarioReport, out: &mut Vec<Violation>)
        ensures
            violation_views(final(out)@) == violation_views(old(out)@) + in_forbidden(
                self@.forbid_regime,
                report@,
            ) + over_time(self.max_scenario_duration_ms, report@),
    {
        let ghost start = violation_views(out@);
        if let Some(forbidden) = &self.forbid_regime {
            if regime_listed(forbidden, report.regime) {
                let list: String = show_regimes(forbidden);
                push_violation(
                    out,
                    Violation {
                        rule: "forbid_regime".to_owned(),
                        expected: text::concat3("not in [", list.as_str(), "]"),
                        actual: report.regime.show().to_owned(),
                    },
                );
            }
        }
        assert(violation_views(out@) =~= start + in_forbidden(self@.forbid_regime, report@));
        if let Some(cap) = self.max_scenario_duration_ms {
            if report.total_duration_ms > cap {
                push_violation(
                    out,
                    too_many_of("max_scenario_duration_ms", cap, report.total_duration_ms),
                );
            }
        }
        assert(violation_views(out@) =~= start + in_forbidden(self@.forbid_regime, report@)
            + over_time(self.max_scenario_duration_ms, report@));
    }

    /// Checks every rule that is set against a report and collects all violations.
    /// Those of the caps come in ascending order of the fault types.
    pub fn evaluate(&self, report: &ScenarioReport) -> (r: BudgetOutcome)
        ensures
            self@.max_injected_per_fault_type matches Some(caps) ==> caps_ascend(caps),
            violation_views(r.violations@) == violations(self@, report@),
            r.passed == (violations(self@, report@).len() == 0),
    {
        let mut out: Vec<Violation> = self.check_totals(report);
        if let Some(caps) = &self.max_injected_per_fault_type {
            proof {
                use_type_invariant(caps);
            }
            check_caps(caps, report, &mut out);
        }
        if let Some(required) = &self.require_fault_types {
            check_required(required, report, &mut out);
        }
        self.check_regime_and_time(report, &mut out);
        assert(violation_views(out@) =~= violations(self@, report@));
        BudgetOutcome { passed: out.len() == 0, violations: out }
    }
}

/// The numbered lines of a list of violations.
pub open spec fn violation_lines(list: Seq<ViolationView>) -> Seq<char>
    decreases list.len(),
{
    if list.len() == 0 {
        Seq::empty()
    } else {
        violation_lines(list.drop_last()) + "  "@ + decimal(list.len()) + ". "@ + violation_text(
            list.last(),
        ) + "\n"@
    }
}

/// An outcome in words.
pub open spec fn outcome_text(passed: bool, list: Seq<ViolationView>) -> Seq<char> {
    if passed {
        "resilience budget: satisfied"@
    } else {
        "resilience budget: VIOLATED\n"@ + violation_lines(list)
    }
}

/// An outcome as a summary of one or more lines.
pub fn format_outcome(outcome: &BudgetOutcome) -> (out: String)
    ensures
        out@ == outcome_text(outcome.passed, violation_views(outcome.violations@)),
{
    if outcome.passed {
        return "resilience budget: satisfied".to_owned();
    }
    let mut out: String = "resilience budget: VIOLATED\n".to_owned();
    let ghost all = violation_views(outcome.violations@);
    let mut i: usize = 0;
    assert(all.take(0) =~= Seq::empty());
    while i < outcome.violations.len()
        invariant
            i <= outcome.violations@.len(),
            all == violation_views(outcome.violations@),
            out@ =~= "resilience budget: VIOLATED\n"@ + violation_lines(all.take(i as int)),
        decreases outcome.violations@.len() - i,
    {
        assert(all.take(i + 1).drop_last() =~= all.take(i as int));
        let number: String = text::decimal_of(i as u64 + 1);
        let line: String = outcome.violations[i].describe();
        out.append("  ");
        out.append(number.as_str());
        out.append(". ");
        out.append(line.as_str());
        out.append("\n");
        i += 1;
    }
    assert(all.take(all.len() as int) =~= all);
    out
}

/// File formats of a budget.
#[derive(Clone, Copy, Debug, PartialEq, Eq, Structural)]
pub enum BudgetFormat {
    Toml,
    Json,
    Yaml,
}

impl BudgetFormat {
    /// The name of the format.
    pub open spec fn label(self) -> Seq<char> {
        match self {
            BudgetFormat::Toml => "toml"@,
            BudgetFormat::Json => "json"@,
            BudgetFormat::Yaml => "yaml"@,
        }
    }

    /// The name of the format.
    pub fn name(self) -> (r: &'static str)
        ensures
            r@ == self.label(),
    {
        match self {
            BudgetFormat::Toml => "toml",
            BudgetFormat::Json => "json",
            BudgetFormat::Yaml => "yaml",
        }
    }
}

/// Why a budget file could not be used.
#[derive(Debug, PartialEq, Eq)]
pub enum BudgetError {
    /// The file could not be read.
    Io {
        /// Path of the file.
        path: String,
        /// What the system said.
        message: String,
    },
    /// The file extension stands for no known format.
    UnsupportedExtension {
        /// The extension in lower case, without the dot.
        ext: Option<String>,
    },
    /// The contents are not in the expected format.
    Parse {
        /// Path of the file.
        path: String,
        /// The format that was expected.
        format: BudgetFormat,
        /// What the parser said.
        message: String,
    },
}

/// The format that a file extension stands for, whatever its case.
pub open spec fn format_of(ext: Option<Seq<char>>) -> Option<BudgetFormat> {
    match ext {
        Some(e) => {
            let low = text::lower(e);
            if low == "toml"@ {
                Some(BudgetFormat::Toml)
            } else if low == "json"@ {
                Some(BudgetFormat::Json)
            } else if low == "yaml"@ || low == "yml"@ {
                Some(BudgetFormat::Yaml)
            } else {
                None
            }
        },
        None => None,
    }
}

/// Chooses the format of a budget file by its extension.
pub fn budget_format(ext: Option<&str>) -> (r: Result<BudgetFormat, BudgetError>)
    ensures
        match r {
            Ok(format) => ext is Some && format_of(Some(ext->0@)) == Some(format),
            Err(e) => {
                &&& format_of(
                    match ext {
                        Some(s) => Some(s@),
                        None => None,
                    },
                ) is None
                &&& e matches BudgetError::UnsupportedExtension { ext: found } && match found {
                    Some(s) => ext is Some && s@ == text::lower(ext->0@),
                    None => ext is None,
                }
            },
        },
{
    match ext {
        Some(e) => {
            let low: String = text::to_lower(e);
            if text::same(low.as_str(), "toml") {
                Ok(BudgetFormat::Toml)
            } else if text::same(low.as_str(), "json") {
                Ok(BudgetFormat::Json)
            } else if text::same(low.as_str(), "yaml") || text::same(low.as_str(), "yml") {
                Ok(BudgetFormat::Yaml)
            } else {
                Err(BudgetError::UnsupportedExtension { ext: Some(low) })
            }
        },
        None => Err(BudgetError::UnsupportedExtension { ext: None }),
    }
}

} // verus!
