//! Laws of the reports for continuous integration: every event and every broken rule has
//! a case of its own.

use crate::assertions::ViolationView;
use crate::json::JsonView;
use crate::report_formats::{
    event_case, event_cases, junit, sarif, sarif_invocation, sarif_results, seconds_text,
    violation_case, violation_cases, xml_attr, xml_text,
};
use crate::scenario::ReportView;
use crate::text::{decimal, digit_char, lower};
use crate::types::EventView;
use vstd::prelude::*;

verus! {

/// The cases of the injected faults are those of all events, one after the other: each
/// names the run and the fault type of its event.
pub proof fn every_event_has_a_case(suite: Seq<char>, events: Seq<EventView>)
    ensures
        event_cases(suite, events) == events.map_values(
            |e: EventView|
                "  <testcase classname=\"malcolm\" name=\""@ + xml_attr(suite) + ".inject."@
                    + xml_attr(e.fault_type) + "\" time=\"0.000\"/>\n"@,
        ).flatten(),
    decreases events.len(),
{
    let line = |e: EventView|
        "  <testcase classname=\"malcolm\" name=\""@ + xml_attr(suite) + ".inject."@ + xml_attr(
            e.fault_type,
        ) + "\" time=\"0.000\"/>\n"@;
    if events.len() > 0 {
        every_event_has_a_case(suite, events.drop_last());
        crate::laws::lists::flat_images_grow(events, line);
        let e = events.last();
        crate::report_formats::entities::xml_attr_of_pieces(suite, ".inject."@ + e.fault_type);
        crate::report_formats::entities::xml_attr_of_pieces(".inject."@, e.fault_type);
        assert(suite + ".inject."@ + e.fault_type =~= suite + (".inject."@ + e.fault_type));
        plain_text_stays();
        assert(event_case(suite, e) =~= line(e));
    }
}

/// What the library writes into attributes by itself needs no escaping.
proof fn plain_text_stays()
    ensures
        xml_attr(".inject."@) == ".inject."@,
        xml_attr("budget."@) == "budget."@,
{
    reveal_strlit(".inject.");
    reveal_strlit("budget.");
    plain_stays(".inject."@);
    plain_stays("budget."@);
}

proof fn plain_stays(s: Seq<char>)
    requires
        forall|i: int|
            0 <= i < s.len() ==> #[trigger] s[i] != '&' && s[i] != '<' && s[i] != '>' && s[i] != '"'
                && s[i] != '\'',
    ensures
        xml_attr(s) == s,
    decreases s.len(),
{
    if s.len() > 0 {
        let front = s.drop_last();
        assert forall|i: int| 0 <= i < front.len() implies #[trigger] front[i] != '&' && front[i]
            != '<' && front[i] != '>' && front[i] != '"' && front[i] != '\'' by {
            assert(front[i] == s[i]);
        }
        plain_stays(front);
        assert(s[s.len() - 1] == s.last());
        assert(xml_attr(s) =~= front + seq![s.last()]);
        assert(s =~= front + seq![s.last()]);
    }
}

/// The cases of the broken rules are those of all violations, one after the other: each
/// names its rule and says what was expected and what came.
pub proof fn every_violation_has_a_case(list: Seq<ViolationView>)
    ensures
        violation_cases(list) == list.map_values(
            |v: ViolationView|
                "  <testcase classname=\"malcolm::budget\" name=\"budget."@ + xml_attr(v.rule)
                    + "\" time=\"0.000\">\n    <failure message=\""@ + xml_attr(v.rule)
                    + "\" type=\""@ + xml_attr(v.rule) + "\">"@ + xml_text(
                    "expected "@ + v.expected + ", got "@ + v.actual,
                ) + "</failure>\n  </testcase>\n"@,
        ).flatten(),
    decreases list.len(),
{
    let line = |v: ViolationView|
        "  <testcase classname=\"malcolm::budget\" name=\"budget."@ + xml_attr(v.rule)
            + "\" time=\"0.000\">\n    <failure message=\""@ + xml_attr(v.rule) + "\" type=\""@
            + xml_attr(v.rule) + "\">"@ + xml_text("expected "@ + v.expected + ", got "@ + v.actual)
            + "</failure>\n  </testcase>\n"@;
    if list.len() > 0 {
        every_violation_has_a_case(list.drop_last());
        crate::laws::lists::flat_images_grow(list, line);
        let v = list.last();
        crate::report_formats::entities::xml_attr_of_pieces("budget."@, v.rule);
        plain_text_stays();
        reveal_strlit("  <testcase classname=\"malcolm::budget\" name=\"budget.");
        reveal_strlit("  <testcase classname=\"malcolm::budget\" name=\"");
        reveal_strlit("budget.");
        assert("  <testcase classname=\"malcolm::budget\" name=\""@ + "budget."@
            =~= "  <testcase classname=\"malcolm::budget\" name=\"budget."@);
        assert("  <testcase classname=\"malcolm::budget\" name=\""@ + ("budget."@ + xml_attr(v.rule))
            =~= ("  <testcase classname=\"malcolm::budget\" name=\""@ + "budget."@) + xml_attr(
            v.rule,
        ));
        assert(violation_case(v) == line(v));
    }
}

/// The places in `s` at which the tag of a case opens.
pub open spec fn case_openings(s: Seq<char>) -> Set<int> {
    Set::new(|p: int| 0 <= p && p + 9 <= s.len() && s.subrange(p, p + 9) == "<testcase"@)
}

/// True if every tag in `s` is long enough to tell what it is.
spec fn tags_are_whole(s: Seq<char>) -> bool {
    forall|p: int| 0 <= p < s.len() && #[trigger] s[p] == '<' ==> p + 9 <= s.len()
}

/// True if `s` holds `n` openings of a case and no tag that is cut off.
spec fn opens(s: Seq<char>, n: nat) -> bool {
    &&& case_openings(s).finite()
    &&& case_openings(s).len() == n
    &&& tags_are_whole(s)
}

proof fn openings_add(a: Seq<char>, b: Seq<char>, m: nat, n: nat)
    requires
        opens(a, m),
        opens(b, n),
    ensures
        opens(a + b, m + n),
{
    reveal_strlit("<testcase");
    let s = a + b;
    let x = case_openings(a);
    let y = case_openings(b);
    let f = |p: int| p + a.len();
    let moved = y.map(f);
    vstd::set_lib::lemma_map_size(y, moved, f);
    assert forall|p: int| #[trigger] case_openings(s).contains(p) <==> x.contains(p)
        || moved.contains(p) by {
        if x.contains(p) {
            assert(s.subrange(p, p + 9) =~= a.subrange(p, p + 9));
        }
        if moved.contains(p) {
            let q = choose|q: int| y.contains(q) && f(q) == p;
            assert(s.subrange(p, p + 9) =~= b.subrange(q, q + 9));
        }
        if case_openings(s).contains(p) {
            assert(s.subrange(p, p + 9)[0] == '<');
            assert(s[p] == '<');
            if p < a.len() {
                assert(a[p] == '<');
                assert(s.subrange(p, p + 9) =~= a.subrange(p, p + 9));
            } else {
                let q = p - a.len();
                assert(s.subrange(p, p + 9) =~= b.subrange(q, q + 9));
                assert(y.contains(q));
                assert(f(q) == p);
            }
        }
    }
    assert(case_openings(s) =~= x + moved);
    assert(x.disjoint(moved)) by {
        assert forall|p: int| moved.contains(p) implies !x.contains(p) by {
            let q = choose|q: int| y.contains(q) && f(q) == p;
        }
    }
    vstd::set_lib::lemma_set_disjoint_lens(x, moved);
    assert forall|p: int| 0 <= p < s.len() && #[trigger] s[p] == '<' implies p + 9 <= s.len() by {
        if p < a.len() {
            assert(a[p] == '<');
        } else {
            assert(b[p - a.len()] == '<');
        }
    }
}

proof fn no_tag_no_opening(s: Seq<char>)
    requires
        !s.contains('<'),
    ensures
        opens(s, 0),
{
    reveal_strlit("<testcase");
    assert forall|p: int| !#[trigger] case_openings(s).contains(p) by {
        if case_openings(s).contains(p) {
            assert(s.subrange(p, p + 9)[0] == '<');
            assert(s[p] == '<');
        }
    }
    assert(case_openings(s) =~= Set::empty());
    assert forall|p: int| 0 <= p < s.len() && #[trigger] s[p] == '<' implies p + 9 <= s.len() by {
        assert(s.contains(s[p]));
    }
}

proof fn decimals_hold_no_tag(n: nat)
    ensures
        !decimal(n).contains('<'),
    decreases n,
{
    if n >= 10 {
        decimals_hold_no_tag(n / 10);
        assert forall|i: int| 0 <= i < decimal(n).len() implies decimal(n)[i] != '<' by {
            if i < decimal(n / 10).len() {
                assert(decimal(n / 10).contains(decimal(n / 10)[i]));
            }
        }
    }
}

proof fn seconds_hold_no_tag(ms: u64)
    ensures
        !seconds_text(ms).contains('<'),
{
    reveal_strlit(".");
    let bounded = if ms > 0xFFFF_FFFF {
        0xFFFF_FFFF
    } else {
        ms
    };
    decimals_hold_no_tag((bounded / 1000) as nat);
    let whole = decimal((bounded / 1000) as nat);
    assert forall|i: int| 0 <= i < seconds_text(ms).len() implies seconds_text(ms)[i] != '<' by {
        if i < whole.len() {
            assert(seconds_text(ms)[i] == whole[i]);
            assert(whole.contains(whole[i]));
        }
    }
}

proof fn event_case_opens_one(suite: Seq<char>, e: EventView)
    ensures
        opens(event_case(suite, e), 1),
{
    let a = "  <testcase classname=\"malcolm\" name=\""@;
    let x = xml_attr(suite + ".inject."@ + e.fault_type);
    let b = "\" time=\"0.000\"/>\n"@;
    reveal_strlit("  <testcase classname=\"malcolm\" name=\"");
    reveal_strlit("\" time=\"0.000\"/>\n");
    reveal_strlit("<testcase");
    assert(opens(a, 1)) by {
        assert forall|p: int| 0 <= p < a.len() && #[trigger] a[p] == '<' implies p == 2 by {}
        assert forall|p: int| #[trigger] case_openings(a).contains(p) <==> p == 2 by {
            if case_openings(a).contains(p) {
                assert(a.subrange(p, p + 9)[0] == '<');
                assert(a[p] == '<');
            }
            assert(a.subrange(2, 11) =~= "<testcase"@);
        }
        assert(case_openings(a) =~= set![2int]);
    }
    crate::report_formats::xml_attr_is_harmless(suite + ".inject."@ + e.fault_type);
    no_tag_no_opening(x);
    assert(!b.contains('<'));
    no_tag_no_opening(b);
    openings_add(a, x, 1, 0);
    openings_add(a + x, b, 1, 0);
}

proof fn violation_case_opens_one(v: ViolationView)
    ensures
        opens(violation_case(v), 1),
{
    let a = "  <testcase classname=\"malcolm::budget\" name=\""@;
    let b = "\" time=\"0.000\">\n    <failure message=\""@;
    let c = "\" type=\""@;
    let d = "\">"@;
    let e = "</failure>\n  </testcase>\n"@;
    let x = xml_attr("budget."@ + v.rule);
    let y = xml_attr(v.rule);
    let z = xml_text(crate::report_formats::violation_detail(v));
    reveal_strlit("<testcase");
    assert(opens(a, 1)) by {
        reveal_strlit("  <testcase classname=\"malcolm::budget\" name=\"");
        assert forall|p: int| 0 <= p < a.len() && #[trigger] a[p] == '<' implies p == 2 by {}
        assert forall|p: int| #[trigger] case_openings(a).contains(p) <==> p == 2 by {
            if case_openings(a).contains(p) {
                assert(a.subrange(p, p + 9)[0] == '<');
                assert(a[p] == '<');
            }
            assert(a.subrange(2, 11) =~= "<testcase"@);
        }
        assert(case_openings(a) =~= set![2int]);
    }
    assert(opens(b, 0)) by {
        reveal_strlit("\" time=\"0.000\">\n    <failure message=\"");
        assert forall|p: int| !#[trigger] case_openings(b).contains(p) by {
            if case_openings(b).contains(p) {
                assert(b.subrange(p, p + 9)[0] == '<');
                assert(b.subrange(p, p + 9)[1] == 't');
                assert(b[p] == '<' && b[p + 1] == 't');
            }
        }
        assert(case_openings(b) =~= Set::empty());
    }
    assert(opens(e, 0)) by {
        reveal_strlit("</failure>\n  </testcase>\n");
        assert forall|p: int| !#[trigger] case_openings(e).contains(p) by {
            if case_openings(e).contains(p) {
                assert(e.subrange(p, p + 9)[0] == '<');
                assert(e.subrange(p, p + 9)[1] == 't');
                assert(e[p] == '<' && e[p + 1] == 't');
            }
        }
        assert(case_openings(e) =~= Set::empty());
    }
    assert(opens(c, 0) && opens(d, 0)) by {
        reveal_strlit("\" type=\"");
        reveal_strlit("\">");
        no_tag_no_opening(c);
        no_tag_no_opening(d);
    }
    crate::report_formats::xml_attr_is_harmless("budget."@ + v.rule);
    crate::report_formats::xml_attr_is_harmless(v.rule);
    crate::report_formats::xml_text_is_harmless(crate::report_formats::violation_detail(v));
    no_tag_no_opening(x);
    no_tag_no_opening(y);
    no_tag_no_opening(z);
    openings_add(a, x, 1, 0);
    openings_add(a + x, b, 1, 0);
    openings_add(a + x + b, y, 1, 0);
    openings_add(a + x + b + y, c, 1, 0);
    openings_add(a + x + b + y + c, y, 1, 0);
    openings_add(a + x + b + y + c + y, d, 1, 0);
    openings_add(a + x + b + y + c + y + d, z, 1, 0);
    openings_add(a + x + b + y + c + y + d + z, e, 1, 0);
}

proof fn event_cases_open(suite: Seq<char>, events: Seq<EventView>)
    ensures
        opens(event_cases(suite, events), events.len()),
    decreases events.len(),
{
    if events.len() == 0 {
        no_tag_no_opening(Seq::<char>::empty());
    } else {
        event_cases_open(suite, events.drop_last());
        event_case_opens_one(suite, events.last());
        openings_add(
            event_cases(suite, events.drop_last()),
            event_case(suite, events.last()),
            events.drop_last().len(),
            1,
        );
    }
}

proof fn violation_cases_open(list: Seq<ViolationView>)
    ensures
        opens(violation_cases(list), list.len()),
    decreases list.len(),
{
    if list.len() == 0 {
        no_tag_no_opening(Seq::<char>::empty());
    } else {
        violation_cases_open(list.drop_last());
        violation_case_opens_one(list.last());
        openings_add(
            violation_cases(list.drop_last()),
            violation_case(list.last()),
            list.drop_last().len(),
            1,
        );
    }
}

/// The head of a JUnit report.
pub open spec fn junit_head(report: ReportView, tests: nat, failures: nat) -> Seq<char> {
    "<?xml version=\"1.0\" encoding=\"UTF-8\"?>\n<testsuite name=\""@ + xml_attr(report.name)
        + "\" tests=\""@ + decimal(tests) + "\" failures=\""@ + decimal(failures) + "\" time=\""@
        + seconds_text(report.total_duration_ms) + "\">\n"@
}

proof fn head_opens_nothing(report: ReportView, tests: nat, failures: nat)
    ensures
        opens(junit_head(report, tests, failures), 0),
{
    let a = "<?xml version=\"1.0\" encoding=\"UTF-8\"?>\n<testsuite name=\""@;
    let b = "\" tests=\""@;
    let c = "\" failures=\""@;
    let d = "\" time=\""@;
    let e = "\">\n"@;
    let x = xml_attr(report.name);
    let m = decimal(tests);
    let n = decimal(failures);
    let t = seconds_text(report.total_duration_ms);
    reveal_strlit("<testcase");
    assert(opens(a, 0)) by {
        reveal_strlit("<?xml version=\"1.0\" encoding=\"UTF-8\"?>\n<testsuite name=\"");
        assert forall|p: int| !#[trigger] case_openings(a).contains(p) by {
            if case_openings(a).contains(p) {
                assert(a.subrange(p, p + 9)[0] == '<');
                assert(a.subrange(p, p + 9)[5] == 'c');
                assert(a[p] == '<' && a[p + 5] == 'c');
            }
        }
        assert(case_openings(a) =~= Set::empty());
    }
    assert(opens(b, 0) && opens(c, 0) && opens(d, 0) && opens(e, 0)) by {
        reveal_strlit("\" tests=\"");
        reveal_strlit("\" failures=\"");
        reveal_strlit("\" time=\"");
        reveal_strlit("\">\n");
        no_tag_no_opening(b);
        no_tag_no_opening(c);
        no_tag_no_opening(d);
        no_tag_no_opening(e);
    }
    crate::report_formats::xml_attr_is_harmless(report.name);
    decimals_hold_no_tag(tests);
    decimals_hold_no_tag(failures);
    seconds_hold_no_tag(report.total_duration_ms);
    no_tag_no_opening(x);
    no_tag_no_opening(m);
    no_tag_no_opening(n);
    no_tag_no_opening(t);
    openings_add(a, x, 0, 0);
    openings_add(a + x, b, 0, 0);
    openings_add(a + x + b, m, 0, 0);
    openings_add(a + x + b + m, c, 0, 0);
    openings_add(a + x + b + m + c, n, 0, 0);
    openings_add(a + x + b + m + c + n, d, 0, 0);
    openings_add(a + x + b + m + c + n + d, t, 0, 0);
    openings_add(a + x + b + m + c + n + d + t, e, 0, 0);
}

/// A JUnit report has as many cases as its `tests` attribute says, which is the number of
/// events and broken rules together, and as many failures as there are broken rules; the
/// events come first. A report of nothing is empty.
pub proof fn cases_are_as_many_as_announced(report: ReportView, list: Seq<ViolationView>)
    ensures
        case_openings(junit(report, list)).finite(),
        case_openings(junit(report, list)).len() == report.events.len() + list.len(),
        report.events.len() + list.len() > 0 ==> junit(report, list).take(
            junit_head(report, report.events.len() + list.len(), list.len()).len() as int,
        ) == junit_head(report, report.events.len() + list.len(), list.len()),
        report.events.len() + list.len() == 0 ==> junit(report, list) == Seq::<char>::empty(),
        report.events.len() + list.len() > 0 ==> junit(report, list).skip(
            junit_head(report, report.events.len() + list.len(), list.len()).len() as int,
        ) == event_cases(report.name, report.events) + violation_cases(list) + "</testsuite>\n"@,
{
    if report.events.len() + list.len() == 0 {
        no_tag_no_opening(junit(report, list));
    } else {
        let head = junit_head(report, report.events.len() + list.len(), list.len());
        let x = event_cases(report.name, report.events);
        let y = violation_cases(list);
        let z = "</testsuite>\n"@;
        head_opens_nothing(report, report.events.len() + list.len(), list.len());
        event_cases_open(report.name, report.events);
        violation_cases_open(list);
        assert(opens(z, 0)) by {
            reveal_strlit("</testsuite>\n");
            reveal_strlit("<testcase");
            assert forall|p: int| !#[trigger] case_openings(z).contains(p) by {
                if case_openings(z).contains(p) {
                    assert(z.subrange(p, p + 9)[0] == '<');
                    assert(z.subrange(p, p + 9)[1] == 't');
                    assert(z[p] == '<' && z[p + 1] == 't');
                }
            }
            assert(case_openings(z) =~= Set::empty());
        }
        openings_add(head, x, 0, report.events.len());
        openings_add(head + x, y, report.events.len(), list.len());
        openings_add(head + x + y, z, report.events.len() + list.len(), 0);
        assert(junit(report, list) == head + x + y + z);
        assert(junit(report, list).take(head.len() as int) =~= head);
        assert(junit(report, list).skip(head.len() as int) =~= x + y + z);
    }
}

proof fn three_digits_and_the_rest(x: int)
    requires
        x >= 0,
    ensures
        (x / 1000) * 1000 + (x / 100 % 10) * 100 + (x / 10 % 10) * 10 + x % 10 == x,
{
    let a = x / 10;
    let b = x / 100;
    assert(b == a / 10);
    assert(x / 1000 == b / 10);
}

/// A duration is shown in seconds with three decimals, exactly; only what does not fit in
/// 32 bits is cut.
pub proof fn seconds_are_exact(ms: u64) -> (shown: (nat, nat, nat, nat))
    ensures
        shown.1 < 10,
        shown.2 < 10,
        shown.3 < 10,
        shown.0 * 1000 + shown.1 * 100 + shown.2 * 10 + shown.3 == if ms <= 0xFFFF_FFFF {
            ms as nat
        } else {
            0xFFFF_FFFFnat
        },
        seconds_text(ms) == decimal(shown.0) + "."@ + seq![
            digit_char(shown.1),
            digit_char(shown.2),
            digit_char(shown.3),
        ],
{
    let bounded = if ms > 0xFFFF_FFFF {
        0xFFFF_FFFF
    } else {
        ms
    };
    three_digits_and_the_rest(bounded as int);
    (
        (bounded / 1000) as nat,
        (bounded / 100 % 10) as nat,
        (bounded / 10 % 10) as nat,
        (bounded % 10) as nat,
    )
}

/// The value of the member `key` of an object.
pub open spec fn member(object: JsonView, key: Seq<char>) -> Option<JsonView> {
    match object {
        JsonView::Object(members) => if exists|i: int|
            0 <= i < members.len() && (#[trigger] members[i]).0 == key {
            Some(
                members[choose|i: int|
                    0 <= i < members.len() && (#[trigger] members[i]).0 == key].1,
            )
        } else {
            None
        },
        _ => None,
    }
}

/// A SARIF document has one result for each broken rule, in their order, and each names
/// its own rule.
pub proof fn every_violation_has_a_result(name: Seq<char>, list: Seq<ViolationView>, i: int)
    requires
        0 <= i < list.len(),
    ensures
        sarif_results(name, list).len() == list.len(),
        member(sarif_results(name, list)[i], "ruleId"@) == Some(JsonView::Text(list[i].rule)),
{
    reveal_strlit("ruleId");
    reveal_strlit("level");
    reveal_strlit("message");
    reveal_strlit("locations");
    let object = sarif_results(name, list)[i];
    assert("ruleId"@ != "level"@) by {
        assert("ruleId"@.len() == 6 && "level"@.len() == 5);
    }
    assert("ruleId"@ != "message"@) by {
        assert("message"@.len() == 7);
    }
    assert("ruleId"@ != "locations"@) by {
        assert("locations"@.len() == 9);
    }
    if let JsonView::Object(members) = object {
        assert(members[0].0 == "ruleId"@);
        let k = choose|k: int| 0 <= k < members.len() && (#[trigger] members[k]).0 == "ruleId"@;
        assert(k == 0);
    }
}

/// A SARIF document holds one run: it says whether the run succeeded, tells name, seed, region,
/// number of events and duration of the report, and has the results of the broken rules.
pub proof fn documents_tell_the_run(report: ReportView, successful: bool, list: Seq<ViolationView>)
    ensures
        sarif(report, successful, list) matches JsonView::Object(top) && {
            &&& top.len() == 3
            &&& top[1] == ("version"@, JsonView::Text("2.1.0"@))
            &&& top[2].0 == "runs"@
            &&& top[2].1 matches JsonView::List(runs) && runs.len() == 1 && (
            runs[0] matches JsonView::Object(run) && {
                &&& run.len() == 3
                &&& run[1].0 == "invocations"@
                &&& run[1].1 matches JsonView::List(calls) && calls.len() == 1 && (
                calls[0] matches JsonView::Object(call) && {
                    &&& call.contains(("executionSuccessful"@, JsonView::Bool(successful)))
                    &&& call[1].0 == "properties"@
                    &&& call[1].1 matches JsonView::Object(said) && {
                        &&& said.contains(("scenario_name"@, JsonView::Text(report.name)))
                        &&& said.contains(("seed"@, JsonView::Number(report.seed)))
                        &&& said.contains(
                            ("fault_count"@, JsonView::Number(report.events.len() as u64)),
                        )
                        &&& said.contains(
                            ("total_duration_ms"@, JsonView::Number(report.total_duration_ms)),
                        )
                        &&& said.contains(
                            ("regime"@, JsonView::Text(lower(report.regime.label()))),
                        )
                    }
                })
                &&& run[2] == ("results"@, JsonView::List(sarif_results(report.name, list)))
            })
        },
{
    if let JsonView::Object(call) = sarif_invocation(report, successful) {
        assert(call[0] == ("executionSuccessful"@, JsonView::Bool(successful)));
        assert(call.contains(call[0]));
        if let JsonView::Object(said) = call[1].1 {
            assert(said.contains(said[0]) && said.contains(said[1]) && said.contains(said[2])
                && said.contains(said[3]) && said.contains(said[4]));
        }
    }
}

/// A result says what was asked for and what was found, as an error at the scenario.
pub proof fn results_tell_the_violation(name: Seq<char>, list: Seq<ViolationView>, i: int)
    requires
        0 <= i < list.len(),
    ensures
        sarif_results(name, list)[i] matches JsonView::Object(said) && {
            &&& said.len() == 4
            &&& said[0] == ("ruleId"@, JsonView::Text(list[i].rule))
            &&& said[1] == ("level"@, JsonView::Text("error"@))
            &&& said[2].0 == "message"@
            &&& said[2].1 matches JsonView::Object(words) && words[0] == (
                "text"@,
                JsonView::Text("expected "@ + list[i].expected + ", got "@ + list[i].actual),
            )
            &&& said[3].0 == "locations"@
            &&& said[3].1 matches JsonView::List(places) && places.len() == 1
        },
{
}

} // verus!
