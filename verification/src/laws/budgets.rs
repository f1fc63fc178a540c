//! Laws of budgets: what is counted, and which rules a run breaks.

use crate::assertions::{
    broken_caps, cap_inserted, caps_ascend, count_of, missing_types, violation_lines, violations,
    BudgetView, ViolationView,
};
use crate::scenario::{ReportView, ScenarioRegime};
use crate::text::{decimal, joined, precedes};
use crate::types::EventView;
use vstd::prelude::*;

verus! {

/// The events of a fault type are counted one by one: their number is that of the places
/// in the list that hold the type, and one more event of the type raises it by one.
pub proof fn events_of_a_type_are_counted(events: Seq<EventView>, fault_type: Seq<char>)
    ensures
        Set::new(|i: int| 0 <= i < events.len() && events[i].fault_type == fault_type).finite(),
        count_of(events, fault_type) == Set::new(
            |i: int| 0 <= i < events.len() && events[i].fault_type == fault_type,
        ).len(),
        forall|e: EventView|
            count_of(#[trigger] events.push(e), fault_type) == count_of(events, fault_type)
                + if e.fault_type == fault_type {
                1nat
            } else {
                0nat
            },
    decreases events.len(),
{
    let p = |e: EventView| e.fault_type == fault_type;
    crate::laws::lists::places_are_counted(events, p);
    assert(Set::new(|i: int| 0 <= i < events.len() && events[i].fault_type == fault_type)
        =~= Set::new(|i: int| 0 <= i < events.len() && p(events[i])));
    count_is_filter(events, fault_type);
    assert forall|e: EventView|
        count_of(#[trigger] events.push(e), fault_type) == count_of(events, fault_type)
            + if e.fault_type == fault_type {
            1nat
        } else {
            0nat
        } by {
        assert(events.push(e).drop_last() =~= events);
    }
}

proof fn count_is_filter(events: Seq<EventView>, fault_type: Seq<char>)
    ensures
        count_of(events, fault_type) == events.filter(
            |e: EventView| e.fault_type == fault_type,
        ).len(),
    decreases events.len(),
{
    reveal(Seq::filter);
    if events.len() > 0 {
        count_is_filter(events.drop_last(), fault_type);
    }
}

/// The caps that a run exceeds are reported in their order, and no others: each with the
/// fault type, the cap, and the number of events of the type.
pub proof fn exceeded_caps_are_reported(caps: Seq<(Seq<char>, u64)>, events: Seq<EventView>)
    ensures
        broken_caps(caps, events) == caps.filter_map(
            |c: (Seq<char>, u64)|
                {
                    let n = events.filter(|e: EventView| e.fault_type == c.0).len();
                    if n > c.1 {
                        Some(
                            ViolationView {
                                rule: "max_injected_per_fault_type["@ + c.0 + "]"@,
                                expected: "<= "@ + decimal(c.1 as nat),
                                actual: decimal(n),
                            },
                        )
                    } else {
                        None
                    }
                },
        ),
    decreases caps.len(),
{
    if caps.len() > 0 {
        exceeded_caps_are_reported(caps.drop_last(), events);
        count_is_filter(events, caps.last().0);
    }
}

/// The required fault types that do not occur are reported in their order, and no others.
pub proof fn absent_types_are_reported(required: Seq<Seq<char>>, events: Seq<EventView>)
    ensures
        missing_types(required, events) == required.filter_map(
            |t: Seq<char>|
                if forall|i: int| 0 <= i < events.len() ==> (#[trigger] events[i]).fault_type != t {
                    Some(
                        ViolationView {
                            rule: "require_fault_types["@ + t + "]"@,
                            expected: ">= 1 occurrence"@,
                            actual: "0 occurrences"@,
                        },
                    )
                } else {
                    None
                },
        ),
    decreases required.len(),
{
    if required.len() > 0 {
        let t = required.last();
        absent_types_are_reported(required.drop_last(), events);
        count_is_filter(events, t);
        crate::laws::lists::nothing_is_chosen(events, |e: EventView| e.fault_type == t);
        assert((forall|i: int|
            0 <= i < events.len() ==> (#[trigger] events[i]).fault_type != t) <==> (count_of(
            events,
            t,
        ) == 0));
    }
}

proof fn caps_are_counted(caps: Seq<(Seq<char>, u64)>, events: Seq<EventView>)
    ensures
        broken_caps(caps, events).len() == caps.filter(
            |c: (Seq<char>, u64)|
                events.filter(|e: EventView| e.fault_type == c.0).len() > c.1,
        ).len(),
    decreases caps.len(),
{
    reveal(Seq::filter);
    if caps.len() > 0 {
        caps_are_counted(caps.drop_last(), events);
        count_is_filter(events, caps.last().0);
    }
}

proof fn types_are_counted(required: Seq<Seq<char>>, events: Seq<EventView>)
    ensures
        missing_types(required, events).len() == required.filter(
            |t: Seq<char>| events.filter(|e: EventView| e.fault_type == t).len() == 0,
        ).len(),
    decreases required.len(),
{
    reveal(Seq::filter);
    if required.len() > 0 {
        types_are_counted(required.drop_last(), events);
        count_is_filter(events, required.last());
    }
}

/// Every broken rule is listed once: a total that is too large or too small, each exceeded
/// cap, each absent type, a forbidden region and a run that took too long.
pub proof fn every_broken_rule_is_listed(budget: BudgetView, report: ReportView)
    ensures
        violations(budget, report).len() == (if budget.max_injected_total matches Some(cap)
            && report.events.len() > cap {
            1nat
        } else {
            0nat
        }) + (if budget.min_injected_total matches Some(floor) && report.events.len() < floor {
            1nat
        } else {
            0nat
        }) + (match budget.max_injected_per_fault_type {
            Some(caps) => caps.filter(
                |c: (Seq<char>, u64)|
                    report.events.filter(|e: EventView| e.fault_type == c.0).len() > c.1,
            ).len(),
            None => 0nat,
        }) + (match budget.require_fault_types {
            Some(required) => required.filter(
                |t: Seq<char>| report.events.filter(|e: EventView| e.fault_type == t).len() == 0,
            ).len(),
            None => 0nat,
        }) + (if budget.forbid_regime matches Some(list) && list.contains(report.regime) {
            1nat
        } else {
            0nat
        }) + (if budget.max_scenario_duration_ms matches Some(cap) && report.total_duration_ms > cap {
            1nat
        } else {
            0nat
        }),
{
    if let Some(caps) = budget.max_injected_per_fault_type {
        caps_are_counted(caps, report.events);
    }
    if let Some(required) = budget.require_fault_types {
        types_are_counted(required, report.events);
    }
}

/// The lines of a list of violations are numbered from one, in the order of the list.
pub proof fn violations_are_numbered(list: Seq<ViolationView>)
    ensures
        violation_lines(list) == Seq::new(
            list.len(),
            |i: int|
                "  "@ + decimal((i + 1) as nat) + ". ["@ + list[i].rule + "] expected "@
                    + list[i].expected + ", got "@ + list[i].actual + "\n"@,
        ).flatten(),
    decreases list.len(),
{
    let lines = Seq::new(
        list.len(),
        |i: int|
            "  "@ + decimal((i + 1) as nat) + ". ["@ + list[i].rule + "] expected "@
                + list[i].expected + ", got "@ + list[i].actual + "\n"@,
    );
    if list.len() == 0 {
        assert(lines =~= Seq::empty());
    } else {
        let front = list.drop_last();
        violations_are_numbered(front);
        let earlier = Seq::new(
            front.len(),
            |i: int|
                "  "@ + decimal((i + 1) as nat) + ". ["@ + front[i].rule + "] expected "@
                    + front[i].expected + ", got "@ + front[i].actual + "\n"@,
        );
        let v = list.last();
        let last = "  "@ + decimal(list.len()) + ". ["@ + v.rule + "] expected "@ + v.expected
            + ", got "@ + v.actual + "\n"@;
        assert(lines =~= earlier.push(last));
        earlier.lemma_flatten_push(last);
        reveal_strlit(". [");
        reveal_strlit(". ");
        reveal_strlit("[");
        assert(violation_lines(list) =~= violation_lines(front) + last);
    }
}

/// Setting a cap changes that cap alone: the list then holds it once, and every other cap
/// as before.
pub proof fn setting_a_cap_keeps_the_others(
    list: Seq<(Seq<char>, u64)>,
    key: Seq<char>,
    cap: u64,
    entry: (Seq<char>, u64),
)
    requires
        caps_ascend(list),
    ensures
        cap_inserted(list, key, cap).contains(entry) <==> if entry.0 == key {
            entry.1 == cap
        } else {
            list.contains(entry)
        },
    decreases list.len(),
{
    let out = cap_inserted(list, key, cap);
    if list.len() == 0 {
        assert(out =~= seq![(key, cap)]);
        assert(out[0] == (key, cap));
    } else {
        let rest = list.skip(1);
        assert(list =~= seq![list[0]] + rest);
        assert(list.contains(entry) <==> entry == list[0] || rest.contains(entry)) by {
            if rest.contains(entry) {
                let k = choose|k: int| 0 <= k < rest.len() && rest[k] == entry;
                assert(list[k + 1] == entry);
            }
            if list.contains(entry) && entry != list[0] {
                let k = choose|k: int| 0 <= k < list.len() && list[k] == entry;
                assert(rest[k - 1] == entry);
            }
            assert(list[0] == list[0]);
        }
        if precedes(key, list[0].0) {
            assert(!exists|k: int| 0 <= k < list.len() && (#[trigger] list[k]).0 == key) by {
                assert forall|k: int| 0 <= k < list.len() implies (#[trigger] list[k]).0 != key by {
                    if k > 0 {
                        assert(precedes(list[0].0, list[k].0));
                        crate::text::precedes_transitive(key, list[0].0, list[k].0);
                    }
                    crate::text::precedes_irreflexive(key);
                }
            }
            assert(out =~= seq![(key, cap)] + list);
            assert(out.contains(entry) <==> entry == (key, cap) || list.contains(entry)) by {
                if list.contains(entry) {
                    let k = choose|k: int| 0 <= k < list.len() && list[k] == entry;
                    assert(out[k + 1] == entry);
                }
                if out.contains(entry) && entry != (key, cap) {
                    let k = choose|k: int| 0 <= k < out.len() && out[k] == entry;
                    assert(list[k - 1] == entry);
                }
                assert(out[0] == (key, cap));
            }
        } else if key == list[0].0 {
            assert forall|k: int| 0 <= k < rest.len() implies (#[trigger] rest[k]).0 != key by {
                assert(precedes(list[0].0, list[k + 1].0));
                crate::text::precedes_irreflexive(key);
            }
            assert(out.contains(entry) <==> entry == (key, cap) || rest.contains(entry)) by {
                if rest.contains(entry) {
                    let k = choose|k: int| 0 <= k < rest.len() && rest[k] == entry;
                    assert(out[k + 1] == entry);
                }
                if out.contains(entry) && entry != (key, cap) {
                    let k = choose|k: int| 0 <= k < out.len() && out[k] == entry;
                    assert(rest[k - 1] == entry);
                }
                assert(out[0] == (key, cap));
            }
        } else {
            let tail = cap_inserted(rest, key, cap);
            assert(caps_ascend(rest)) by {
                assert forall|i: int, j: int| 0 <= i < j < rest.len() implies precedes(
                    (#[trigger] rest[i]).0,
                    (#[trigger] rest[j]).0,
                ) by {
                    assert(precedes(list[i + 1].0, list[j + 1].0));
                }
            }
            setting_a_cap_keeps_the_others(rest, key, cap, entry);
            assert(out.contains(entry) <==> entry == list[0] || tail.contains(entry)) by {
                if tail.contains(entry) {
                    let k = choose|k: int| 0 <= k < tail.len() && tail[k] == entry;
                    assert(out[k + 1] == entry);
                }
                if out.contains(entry) && entry != list[0] {
                    let k = choose|k: int| 0 <= k < out.len() && out[k] == entry;
                    assert(tail[k - 1] == entry);
                }
                assert(out[0] == list[0]);
            }
        }
    }
}

/// A broken rule is listed under its own name, with what was asked for and what was found.
pub proof fn broken_rules_tell_what_was_found(budget: BudgetView, report: ReportView)
    ensures
        budget.max_injected_total matches Some(cap) ==> report.events.len() > cap ==> violations(
            budget,
            report,
        ).contains(
            ViolationView {
                rule: "max_injected_total"@,
                expected: "<= "@ + decimal(cap as nat),
                actual: decimal(report.events.len()),
            },
        ),
        budget.min_injected_total matches Some(floor) ==> report.events.len() < floor ==> violations(
            budget,
            report,
        ).contains(
            ViolationView {
                rule: "min_injected_total"@,
                expected: ">= "@ + decimal(floor as nat),
                actual: decimal(report.events.len()),
            },
        ),
        budget.forbid_regime matches Some(list) ==> list.contains(report.regime) ==> violations(
            budget,
            report,
        ).contains(
            ViolationView {
                rule: "forbid_regime"@,
                expected: "not in ["@ + joined(
                    list.map_values(
                        |r: ScenarioRegime|
                            match r {
                                ScenarioRegime::Stable => "Stable"@,
                                ScenarioRegime::Sensitive => "Sensitive"@,
                                ScenarioRegime::Chaotic => "Chaotic"@,
                            },
                    ),
                    ", "@,
                ) + "]"@,
                actual: match report.regime {
                    ScenarioRegime::Stable => "Stable"@,
                    ScenarioRegime::Sensitive => "Sensitive"@,
                    ScenarioRegime::Chaotic => "Chaotic"@,
                },
            },
        ),
        budget.max_scenario_duration_ms matches Some(cap) ==> report.total_duration_ms > cap
            ==> violations(budget, report).contains(
            ViolationView {
                rule: "max_scenario_duration_ms"@,
                expected: "<= "@ + decimal(cap as nat),
                actual: decimal(report.total_duration_ms as nat),
            },
        ),
{
    let a = crate::assertions::over_total(budget.max_injected_total, report);
    let b = crate::assertions::under_total(budget.min_injected_total, report);
    let c = match budget.max_injected_per_fault_type {
        Some(caps) => broken_caps(caps, report.events),
        None => Seq::empty(),
    };
    let d = match budget.require_fault_types {
        Some(required) => missing_types(required, report.events),
        None => Seq::empty(),
    };
    let e = crate::assertions::in_forbidden(budget.forbid_regime, report);
    let f = crate::assertions::over_time(budget.max_scenario_duration_ms, report);
    let all = violations(budget, report);
    assert(all == a + b + c + d + e + f);
    if a.len() > 0 {
        assert(all[0] == a[0]);
    }
    if b.len() > 0 {
        assert(all[a.len() as int] == b[0]);
    }
    if e.len() > 0 {
        assert(all[(a.len() + b.len() + c.len() + d.len()) as int] == e[0]);
    }
    if f.len() > 0 {
        assert(all[(a.len() + b.len() + c.len() + d.len() + e.len()) as int] == f[0]);
    }
    if let Some(list) = budget.forbid_regime {
        assert(crate::assertions::regime_labels(list) =~= list.map_values(
            |r: ScenarioRegime|
                match r {
                    ScenarioRegime::Stable => "Stable"@,
                    ScenarioRegime::Sensitive => "Sensitive"@,
                    ScenarioRegime::Chaotic => "Chaotic"@,
                },
        ));
    }
}

/// Broken rules are listed in the order in which a budget names its rules: the totals, the caps,
/// the required types, the regions, the duration. What follows from a budget is what follows
/// from each of its rules by itself.
pub proof fn rules_are_checked_one_by_one(budget: BudgetView, report: ReportView)
    ensures
        violations(budget, report) == violations(
            BudgetView { max_injected_total: budget.max_injected_total, ..no_rules() },
            report,
        ) + violations(
            BudgetView { min_injected_total: budget.min_injected_total, ..no_rules() },
            report,
        ) + violations(
            BudgetView {
                max_injected_per_fault_type: budget.max_injected_per_fault_type,
                ..no_rules()
            },
            report,
        ) + violations(
            BudgetView { require_fault_types: budget.require_fault_types, ..no_rules() },
            report,
        ) + violations(
            BudgetView { forbid_regime: budget.forbid_regime, ..no_rules() },
            report,
        ) + violations(
            BudgetView {
                max_scenario_duration_ms: budget.max_scenario_duration_ms,
                ..no_rules()
            },
            report,
        ),
        violations(no_rules(), report) == Seq::<ViolationView>::empty(),
{
}

/// The budget without rules.
pub open spec fn no_rules() -> BudgetView {
    BudgetView {
        max_injected_total: None,
        min_injected_total: None,
        max_injected_per_fault_type: None,
        require_fault_types: None,
        forbid_regime: None,
        max_scenario_duration_ms: None,
    }
}

} // verus!
