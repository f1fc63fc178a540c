//! Reports for continuous integration: JUnit XML and SARIF 2.1.0.

pub mod entities;

use crate::assertions::{violation_views, BudgetOutcome, ViolationView};
use crate::json::{Json, JsonView};
use crate::scenario::{ReportView, ScenarioReport};
use crate::text;
use crate::text::{decimal, expanded};
use crate::types::EventView;
use vstd::prelude::*;

verus! {

/// Version of this package.
pub const VERSION: &'static str = "0.1.0";

/// Schema of the SARIF documents.
pub const SARIF_SCHEMA: &'static str =
    "https://json.schemastore.org/sarif-2.1.0/json/sarif-2.1.0.json";

/// How a character appears in the text of an XML element.
pub open spec fn xml_text_char(c: char) -> Seq<char> {
    if c == '&' {
        "&amp;"@
    } else if c == '<' {
        "&lt;"@
    } else if c == '>' {
        "&gt;"@
    } else {
        seq![c]
    }
}

/// How a character appears in a quoted XML attribute.
pub open spec fn xml_attr_char(c: char) -> Seq<char> {
    if c == '"' {
        "&quot;"@
    } else if c == '\'' {
        "&apos;"@
    } else {
        xml_text_char(c)
    }
}

/// `s` as the text of an XML element.
pub open spec fn xml_text(s: Seq<char>) -> Seq<char> {
    expanded(s, |c: char| xml_text_char(c))
}

/// `s` as the value of a quoted XML attribute.
pub open spec fn xml_attr(s: Seq<char>) -> Seq<char> {
    expanded(s, |c: char| xml_attr_char(c))
}

fn push_text_char(out: &mut String, c: char)
    ensures
        final(out)@ == old(out)@ + xml_text_char(c),
{
    if c == '&' {
        out.append("&amp;");
    } else if c == '<' {
        out.append("&lt;");
    } else if c == '>' {
        out.append("&gt;");
    } else {
        out.push(c);
        assert(out@ =~= old(out)@ + xml_text_char(c));
    }
}

/// `s` as the value of a quoted XML attribute.
pub fn escape_xml_attr(s: &str) -> (out: String)
    ensures
        out@ == xml_attr(s@),
{
    let chars: Vec<char> = text::chars_of(s);
    let mut out: String = String::new();
    let mut i: usize = 0;
    assert(chars@.take(0) =~= Seq::empty());
    while i < chars.len()
        invariant
            i <= chars@.len(),
            out@ == xml_attr(chars@.take(i as int)),
        decreases chars@.len() - i,
    {
        proof {
            assert(chars@.take(i + 1).drop_last() =~= chars@.take(i as int));
        }
        let c: char = chars[i];
        if c == '"' {
            out.append("&quot;");
        } else if c == '\'' {
            out.append("&apos;");
        } else {
            push_text_char(&mut out, c);
        }
        i += 1;
    }
    assert(chars@.take(chars@.len() as int) =~= chars@);
    out
}

/// `s` as the text of an XML element.
pub fn escape_xml_text(s: &str) -> (out: String)
    ensures
        out@ == xml_text(s@),
{
    let chars: Vec<char> = text::chars_of(s);
    let mut out: String = String::new();
    let mut i: usize = 0;
    assert(chars@.take(0) =~= Seq::empty());
    while i < chars.len()
        invariant
            i <= chars@.len(),
            out@ == xml_text(chars@.take(i as int)),
        decreases chars@.len() - i,
    {
        proof {
            assert(chars@.take(i + 1).drop_last() =~= chars@.take(i as int));
        }
        push_text_char(&mut out, chars[i]);
        i += 1;
    }
    assert(chars@.take(chars@.len() as int) =~= chars@);
    out
}

proof fn escaped_char_is_harmless(c: char)
    ensures
        !xml_attr_char(c).contains('<'),
        !xml_attr_char(c).contains('>'),
        !xml_attr_char(c).contains('"'),
        !xml_attr_char(c).contains('\''),
        !xml_text_char(c).contains('<'),
        !xml_text_char(c).contains('>'),
{
    reveal_strlit("&amp;");
    reveal_strlit("&lt;");
    reveal_strlit("&gt;");
    reveal_strlit("&quot;");
    reveal_strlit("&apos;");
}

/// An escaped attribute value holds no angle bracket and no quote, whatever the
/// text: it cannot end the attribute or the tag around it.
pub proof fn xml_attr_is_harmless(s: Seq<char>)
    ensures
        !xml_attr(s).contains('<'),
        !xml_attr(s).contains('>'),
        !xml_attr(s).contains('"'),
        !xml_attr(s).contains('\''),
    decreases s.len(),
{
    if s.len() > 0 {
        xml_attr_is_harmless(s.drop_last());
        escaped_char_is_harmless(s.last());
        let a = xml_attr(s.drop_last());
        let b = xml_attr_char(s.last());
        assert(xml_attr(s) == a + b);
        assert forall|c: char| !a.contains(c) && !b.contains(c) implies !(#[trigger] (a
            + b).contains(c)) by {
            if (a + b).contains(c) {
                let k = choose|k: int| 0 <= k < (a + b).len() && (a + b)[k] == c;
                if k < a.len() {
                    assert(a[k] == c);
                } else {
                    assert(b[k - a.len()] == c);
                }
            }
        }
    }
}

/// Escaped element text holds no angle bracket, whatever the text.
pub proof fn xml_text_is_harmless(s: Seq<char>)
    ensures
        !xml_text(s).contains('<'),
        !xml_text(s).contains('>'),
    decreases s.len(),
{
    if s.len() > 0 {
        xml_text_is_harmless(s.drop_last());
        escaped_char_is_harmless(s.last());
        let a = xml_text(s.drop_last());
        let b = xml_text_char(s.last());
        assert(xml_text(s) == a + b);
        assert forall|c: char| !a.contains(c) && !b.contains(c) implies !(#[trigger] (a
            + b).contains(c)) by {
            if (a + b).contains(c) {
                let k = choose|k: int| 0 <= k < (a + b).len() && (a + b)[k] == c;
                if k < a.len() {
                    assert(a[k] == c);
                } else {
                    assert(b[k - a.len()] == c);
                }
            }
        }
    }
}

/// `ms` milliseconds in seconds with three decimals; at most what fits in 32 bits
/// is shown.
pub open spec fn seconds_text(ms: u64) -> Seq<char> {
    let bounded = if ms > 0xFFFF_FFFF {
        0xFFFF_FFFF
    } else {
        ms
    };
    decimal((bounded / 1000) as nat) + "."@ + seq![
        text::digit_char((bounded / 100 % 10) as nat),
        text::digit_char((bounded / 10 % 10) as nat),
        text::digit_char((bounded % 10) as nat),
    ]
}

fn show_seconds(ms: u64) -> (out: String)
    ensures
        out@ == seconds_text(ms),
{
    let bounded: u64 = if ms > 0xFFFF_FFFF {
        0xFFFF_FFFF
    } else {
        ms
    };
    let mut out: String = text::decimal_of(bounded / 1000);
    out.append(".");
    let ghost before = out@;
    out.push(text::digit_of(bounded / 100 % 10));
    out.push(text::digit_of(bounded / 10 % 10));
    out.push(text::digit_of(bounded % 10));
    assert(out@ =~= seconds_text(ms));
    out
}

/// The line of an injected fault.
pub open spec fn event_case(suite: Seq<char>, event: EventView) -> Seq<char> {
    "  <testcase classname=\"malcolm\" name=\""@ + xml_attr(
        suite + ".inject."@ + event.fault_type,
    ) + "\" time=\"0.000\"/>\n"@
}

/// The lines of all injected faults.
pub open spec fn event_cases(suite: Seq<char>, events: Seq<EventView>) -> Seq<char>
    decreases events.len(),
{
    if events.len() == 0 {
        Seq::empty()
    } else {
        event_cases(suite, events.drop_last()) + event_case(suite, events.last())
    }
}

/// What a broken rule comes down to.
pub open spec fn violation_detail(v: ViolationView) -> Seq<char> {
    "expected "@ + v.expected + ", got "@ + v.actual
}

/// The lines of a broken rule.
pub open spec fn violation_case(v: ViolationView) -> Seq<char> {
    "  <testcase classname=\"malcolm::budget\" name=\""@ + xml_attr("budget."@ + v.rule)
        + "\" time=\"0.000\">\n    <failure message=\""@ + xml_attr(v.rule) + "\" type=\""@
        + xml_attr(v.rule) + "\">"@ + xml_text(violation_detail(v))
        + "</failure>\n  </testcase>\n"@
}

/// The lines of all broken rules.
pub open spec fn violation_cases(list: Seq<ViolationView>) -> Seq<char>
    decreases list.len(),
{
    if list.len() == 0 {
        Seq::empty()
    } else {
        violation_cases(list.drop_last()) + violation_case(list.last())
    }
}

/// A JUnit report: one passing case for each injected fault, one failing case for
/// each broken rule. Nothing at all if there is neither.
pub open spec fn junit(report: ReportView, list: Seq<ViolationView>) -> Seq<char> {
    if report.events.len() + list.len() == 0 {
        Seq::empty()
    } else {
        "<?xml version=\"1.0\" encoding=\"UTF-8\"?>\n<testsuite name=\""@ + xml_attr(report.name)
            + "\" tests=\""@ + decimal(report.events.len() + list.len()) + "\" failures=\""@
            + decimal(list.len()) + "\" time=\""@ + seconds_text(report.total_duration_ms)
            + "\">\n"@ + event_cases(report.name, report.events) + violation_cases(list)
            + "</testsuite>\n"@
    }
}

/// The broken rules of an outcome; none where no budget was evaluated.
pub open spec fn outcome_violations(outcome: Option<&BudgetOutcome>) -> Seq<ViolationView> {
    match outcome {
        Some(o) => violation_views(o.violations@),
        None => Seq::empty(),
    }
}

fn push_event_cases(out: &mut String, report: &ScenarioReport)
    ensures
        final(out)@ == old(out)@ + event_cases(report@.name, report@.events),
{
    let ghost all = report@.events;
    let mut i: usize = 0;
    assert(all.take(0) =~= Seq::empty());
    while i < report.events.len()
        invariant
            i <= report.events@.len(),
            all == report@.events,
            out@ =~= old(out)@ + event_cases(report@.name, all.take(i as int)),
        decreases report.events@.len() - i,
    {
        proof {
            assert(all.take(i + 1).drop_last() =~= all.take(i as int));
        }
        let name: String = text::concat3(
            report.name.as_str(),
            ".inject.",
            report.events[i].fault_type.as_str(),
        );
        let escaped: String = escape_xml_attr(name.as_str());
        out.append("  <testcase classname=\"malcolm\" name=\"");
        out.append(escaped.as_str());
        out.append("\" time=\"0.000\"/>\n");
        i += 1;
    }
    assert(all.take(all.len() as int) =~= all);
}

fn push_violation_case(out: &mut String, v: &crate::assertions::Violation)
    ensures
        final(out)@ == old(out)@ + violation_case(v@),
{
    let name: String = text::concat("budget.", v.rule.as_str());
    let escaped_name: String = escape_xml_attr(name.as_str());
    let rule: String = escape_xml_attr(v.rule.as_str());
    let mut detail: String = text::concat3("expected ", v.expected.as_str(), ", got ");
    detail.append(v.actual.as_str());
    let body: String = escape_xml_text(detail.as_str());
    out.append("  <testcase classname=\"malcolm::budget\" name=\"");
    out.append(escaped_name.as_str());
    out.append("\" time=\"0.000\">\n    <failure message=\"");
    out.append(rule.as_str());
    out.append("\" type=\"");
    out.append(rule.as_str());
    out.append("\">");
    out.append(body.as_str());
    out.append("</failure>\n  </testcase>\n");
    assert(out@ =~= old(out)@ + violation_case(v@));
}

fn push_violation_cases(out: &mut String, outcome: &BudgetOutcome)
    ensures
        final(out)@ == old(out)@ + violation_cases(violation_views(outcome.violations@)),
{
    let ghost all = violation_views(outcome.violations@);
    let mut i: usize = 0;
    assert(all.take(0) =~= Seq::empty());
    while i < outcome.violations.len()
        invariant
            i <= outcome.violations@.len(),
            all == violation_views(outcome.violations@),
            out@ =~= old(out)@ + violation_cases(all.take(i as int)),
        decreases outcome.violations@.len() - i,
    {
        proof {
            assert(all.take(i + 1).drop_last() =~= all.take(i as int));
        }
        push_violation_case(out, &outcome.violations[i]);
        i += 1;
    }
    assert(all.take(all.len() as int) =~= all);
}

/// A JUnit report of a run and of the outcome of its budget. A run without faults
/// and without broken rules gives the empty string.
pub fn to_junit_xml(report: &ScenarioReport, outcome: Option<&BudgetOutcome>) -> (out: String)
    requires
        report.events@.len() + outcome_violations(outcome).len() <= u64::MAX,
    ensures
        out@ == junit(report@, outcome_violations(outcome)),
{
    let failures: u64 = match outcome {
        Some(o) => o.violations.len() as u64,
        None => 0,
    };
    let tests: u64 = failures + report.events.len() as u64;
    if tests == 0 {
        return String::new();
    }
    let name: String = escape_xml_attr(report.name.as_str());
    let total: String = text::decimal_of(tests);
    let failed: String = text::decimal_of(failures);
    let time: String = show_seconds(report.total_duration_ms);
    let mut out: String = text::concat3(
        "<?xml version=\"1.0\" encoding=\"UTF-8\"?>\n<testsuite name=\"",
        name.as_str(),
        "\" tests=\"",
    );
    out.append(total.as_str());
    out.append("\" failures=\"");
    out.append(failed.as_str());
    out.append("\" time=\"");
    out.append(time.as_str());
    out.append("\">\n");
    push_event_cases(&mut out, report);
    match outcome {
        Some(o) => {
            push_violation_cases(&mut out, o);
        },
        None => {},
    }
    let ghost cases = out@;
    out.append("</testsuite>\n");
    assert(out@ =~= junit(report@, outcome_violations(outcome)));
    out
}

/// A one-member object.
pub open spec fn object1(key: Seq<char>, value: JsonView) -> JsonView {
    JsonView::Object(seq![(key, value)])
}

/// The SARIF result of one broken rule.
pub open spec fn sarif_result(name: Seq<char>, v: ViolationView) -> JsonView {
    JsonView::Object(
        seq![
            ("ruleId"@, JsonView::Text(v.rule)),
            ("level"@, JsonView::Text("error"@)),
            ("message"@, object1("text"@, JsonView::Text(violation_detail(v)))),
            (
                "locations"@,
                JsonView::List(
                    seq![
                        object1(
                            "physicalLocation"@,
                            object1(
                                "artifactLocation"@,
                                object1(
                                    "uri"@,
                                    JsonView::Text("malcolm://scenario/"@ + name),
                                ),
                            ),
                        ),
                    ],
                ),
            ),
        ],
    )
}

/// The SARIF results of all broken rules.
pub open spec fn sarif_results(name: Seq<char>, list: Seq<ViolationView>) -> Seq<JsonView> {
    Seq::new(list.len(), |i: int| sarif_result(name, list[i]))
}

/// The SARIF description of one budget rule.
pub open spec fn sarif_rule(id: Seq<char>, about: Seq<char>) -> JsonView {
    JsonView::Object(
        seq![
            ("id"@, JsonView::Text(id)),
            ("name"@, JsonView::Text(id)),
            ("shortDescription"@, object1("text"@, JsonView::Text(about))),
        ],
    )
}

/// The SARIF descriptions of all budget rules.
pub open spec fn sarif_rule_list() -> JsonView {
    JsonView::List(
        seq![
            sarif_rule(
                "max_injected_total"@,
                "Total injected events exceeded the budget cap."@,
            ),
            sarif_rule(
                "min_injected_total"@,
                "Total injected events fell below the budget floor."@,
            ),
            sarif_rule(
                "max_injected_per_fault_type"@,
                "One fault type exceeded its per-type cap."@,
            ),
            sarif_rule(
                "require_fault_types"@,
                "A required fault type was absent from the run."@,
            ),
            sarif_rule("forbid_regime"@, "The run reached a forbidden regime."@),
            sarif_rule(
                "max_scenario_duration_ms"@,
                "Scenario duration exceeded the budget cap."@,
            ),
        ],
    )
}

/// The SARIF description of this tool.
pub open spec fn sarif_tool() -> JsonView {
    object1(
        "driver"@,
        JsonView::Object(
            seq![
                ("name"@, JsonView::Text("malcolm"@)),
                ("version"@, JsonView::Text(VERSION@)),
                (
                    "informationUri"@,
                    JsonView::Text("https://github.com/greysquirr3l/malcom"@),
                ),
                ("rules"@, sarif_rule_list()),
            ],
        ),
    )
}

/// The SARIF description of a run.
pub open spec fn sarif_invocation(report: ReportView, successful: bool) -> JsonView {
    JsonView::Object(
        seq![
            ("executionSuccessful"@, JsonView::Bool(successful)),
            (
                "properties"@,
                JsonView::Object(
                    seq![
                        ("scenario_name"@, JsonView::Text(report.name)),
                        ("seed"@, JsonView::Number(report.seed)),
                        ("regime"@, JsonView::Text(text::lower(report.regime.label()))),
                        ("fault_count"@, JsonView::Number(report.events.len() as u64)),
                        ("total_duration_ms"@, JsonView::Number(report.total_duration_ms)),
                    ],
                ),
            ),
        ],
    )
}

/// A SARIF document.
pub open spec fn sarif(
    report: ReportView,
    successful: bool,
    list: Seq<ViolationView>,
) -> JsonView {
    JsonView::Object(
        seq![
            ("$schema"@, JsonView::Text(SARIF_SCHEMA@)),
            ("version"@, JsonView::Text("2.1.0"@)),
            (
                "runs"@,
                JsonView::List(
                    seq![
                        JsonView::Object(
                            seq![
                                ("tool"@, sarif_tool()),
                                (
                                    "invocations"@,
                                    JsonView::List(seq![sarif_invocation(report, successful)]),
                                ),
                                ("results"@, JsonView::List(sarif_results(report.name, list))),
                            ],
                        ),
                    ],
                ),
            ),
        ],
    )
}

fn single(key: &str, value: Json) -> (r: Json)
    ensures
        r.model() == object1(key@, value.model()),
{
    let r = Json::object().with(key, value);
    assert(r.model()->Object_0 =~= seq![(key@, value.model())]);
    r
}

fn result_of(name: &str, v: &crate::assertions::Violation) -> (r: Json)
    ensures
        r.model() == sarif_result(name@, v@),
{
    let mut detail: String = text::concat3("expected ", v.expected.as_str(), ", got ");
    detail.append(v.actual.as_str());
    let uri: String = text::concat("malcolm://scenario/", name);
    let location = single(
        "physicalLocation",
        single("artifactLocation", single("uri", Json::text(uri.as_str()))),
    );
    let locations = Json::list().with_item(location);
    assert(locations.model()->List_0 =~= seq![location.model()]);
    let r = Json::object().with("ruleId", Json::text(v.rule.as_str())).with(
        "level",
        Json::text("error"),
    ).with("message", single("text", Json::text(detail.as_str()))).with("locations", locations);
    assert(r.model()->Object_0 =~= sarif_result(name@, v@)->Object_0);
    r
}

fn rule_of(id: &str, about: &str) -> (r: Json)
    ensures
        r.model() == sarif_rule(id@, about@),
{
    let r = Json::object().with("id", Json::text(id)).with("name", Json::text(id)).with(
        "shortDescription",
        single("text", Json::text(about)),
    );
    assert(r.model()->Object_0 =~= sarif_rule(id@, about@)->Object_0);
    r
}

fn sarif_rules() -> (r: Json)
    ensures
        r.model() == sarif_rule_list(),
{
    let r = Json::list().with_item(
        rule_of("max_injected_total", "Total injected events exceeded the budget cap."),
    ).with_item(
        rule_of("min_injected_total", "Total injected events fell below the budget floor."),
    ).with_item(
        rule_of("max_injected_per_fault_type", "One fault type exceeded its per-type cap."),
    ).with_item(
        rule_of("require_fault_types", "A required fault type was absent from the run."),
    ).with_item(rule_of("forbid_regime", "The run reached a forbidden regime.")).with_item(
        rule_of("max_scenario_duration_ms", "Scenario duration exceeded the budget cap."),
    );
    assert(r.model()->List_0 =~= sarif_rule_list()->List_0);
    r
}

fn tool_of() -> (r: Json)
    ensures
        r.model() == sarif_tool(),
{
    let driver = Json::object().with("name", Json::text("malcolm")).with(
        "version",
        Json::text(VERSION),
    ).with("informationUri", Json::text("https://github.com/greysquirr3l/malcom")).with(
        "rules",
        sarif_rules(),
    );
    assert(driver.model()->Object_0 =~= sarif_tool()->Object_0[0].1->Object_0);
    single("driver", driver)
}

fn invocation_of(report: &ScenarioReport, successful: bool) -> (r: Json)
    ensures
        r.model() == sarif_invocation(report@, successful),
{
    let regime: String = text::to_lower(report.regime.show());
    let properties = Json::object().with(
        "scenario_name",
        Json::text(report.name.as_str()),
    ).with("seed", Json::Number(report.seed)).with("regime", Json::text(regime.as_str())).with(
        "fault_count",
        Json::Number(report.events.len() as u64),
    ).with("total_duration_ms", Json::Number(report.total_duration_ms));
    assert(properties.model()->Object_0 =~= sarif_invocation(
        report@,
        successful,
    )->Object_0[1].1->Object_0);
    let r = Json::object().with("executionSuccessful", Json::Bool(successful)).with(
        "properties",
        properties,
    );
    assert(r.model()->Object_0 =~= sarif_invocation(report@, successful)->Object_0);
    r
}

/// A SARIF 2.1.0 document of a run and of the outcome of its budget, with one
/// result for each broken rule.
pub fn to_sarif(report: &ScenarioReport, outcome: Option<&BudgetOutcome>) -> (r: Json)
    ensures
        r.model() == sarif(
            report@,
            match outcome {
                Some(o) => o.passed,
                None => true,
            },
            outcome_violations(outcome),
        ),
{
    let successful: bool = match outcome {
        Some(o) => o.passed,
        None => true,
    };
    let mut results = Json::list();
    let ghost list = outcome_violations(outcome);
    match outcome {
        Some(o) => {
            let mut i: usize = 0;
            while i < o.violations.len()
                invariant
                    i <= o.violations@.len(),
                    list == violation_views(o.violations@),
                    results is List,
                    results.model()->List_0 =~= sarif_results(report@.name, list).take(i as int),
                    results.model() is List,
                decreases o.violations@.len() - i,
            {
                let entry = result_of(report.name.as_str(), &o.violations[i]);
                results = results.with_item(entry);
                i += 1;
            }
        },
        None => {},
    }
    assert(results.model()->List_0 =~= sarif_results(report@.name, list));
    let invocation = invocation_of(report, successful);
    let invocations = Json::list().with_item(invocation);
    assert(invocations.model()->List_0 =~= seq![invocation.model()]);
    let run = Json::object().with("tool", tool_of()).with("invocations", invocations).with(
        "results",
        results,
    );
    let ghost whole = sarif(report@, successful, list);
    assert(run.model()->Object_0 =~= whole->Object_0[2].1->List_0[0]->Object_0);
    let runs = Json::list().with_item(run);
    assert(runs.model()->List_0 =~= whole->Object_0[2].1->List_0);
    let r = Json::object().with("$schema", Json::text(SARIF_SCHEMA)).with(
        "version",
        Json::text("2.1.0"),
    ).with("runs", runs);
    assert(r.model()->Object_0 =~= whole->Object_0);
    r
}

} // verus!
