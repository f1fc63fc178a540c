use malcolm::assertions::{BudgetOutcome, ResilienceBudget, Violation};
use malcolm::fault::FaultContext;
use malcolm::faults::network::PacketLoss;
use malcolm::json::Json;
use malcolm::report_formats::{
    escape_xml_attr, escape_xml_text, to_junit_xml, to_sarif, SARIF_SCHEMA, VERSION,
};
use malcolm::scalar::Scalar;
use malcolm::scenario::{ChaosScenario, ScenarioRegime, ScenarioReport};
use malcolm::types::BifurcationProfile;

fn make_report(name: &str) -> ScenarioReport {
    let scenario = ChaosScenario::builder()
        .name(name)
        .seed(7)
        .add_fault(
            PacketLoss::builder()
                .seed(7)
                .intensity(Scalar::from_bits(0.8_f64.to_bits()))
                .build(),
        )
        .profile(BifurcationProfile::network_partition())
        .build();
    let mut ctx = FaultContext {
        seed: 7,
        timestamp_ms: 0,
        node_id: "node-0".to_owned(),
        profile: BifurcationProfile::network_partition(),
    };
    scenario
        .run(&mut ctx)
        .into_report(ScenarioRegime::Sensitive, 1_234)
}

fn text_at<'a>(json: &'a Json, key: &str) -> &'a str {
    match json.get(key) {
        Some(Json::Text(s)) => s.as_str(),
        other => panic!("no text under {key}: {other:?}"),
    }
}

fn number_at(json: &Json, key: &str) -> u64 {
    match json.get(key) {
        Some(Json::Number(n)) => *n,
        other => panic!("no number under {key}: {other:?}"),
    }
}

fn field<'a>(json: &'a Json, key: &str) -> &'a Json {
    match json.get(key) {
        Some(value) => value,
        None => panic!("no member {key}"),
    }
}

fn item(json: &Json, i: usize) -> &Json {
    match json.at(i) {
        Some(value) => value,
        None => panic!("no item {i}"),
    }
}

fn items(json: &Json) -> usize {
    match json {
        Json::List(list) => list.len(),
        other => panic!("no list: {other:?}"),
    }
}

/// The tags of a document, without their attributes; closing ones keep the slash.
fn tags(xml: &str) -> Vec<String> {
    let mut out = Vec::new();
    let mut rest = xml;
    while let Some(start) = rest.find('<') {
        let after = &rest[start + 1..];
        let Some(end) = after.find('>') else {
            panic!("unterminated tag");
        };
        let inner = &after[..end];
        rest = &after[end + 1..];
        if inner.starts_with('?') {
            continue;
        }
        let name: String = inner
            .split(|c: char| c.is_whitespace())
            .next()
            .unwrap_or("")
            .to_owned();
        if inner.ends_with('/') {
            let bare = name.trim_end_matches('/').to_owned();
            out.push(bare.clone());
            out.push(format!("/{bare}"));
        } else {
            out.push(name);
        }
    }
    out
}

#[test]
fn escape_xml_attr_neutralises_special_chars() {
    assert_eq!(escape_xml_attr("a<b>&\"c'"), "a&lt;b&gt;&amp;&quot;c&apos;");
}

fn read_entities(escaped: &str) -> String {
    let entities = [("&amp;", '&'), ("&lt;", '<'), ("&gt;", '>'), ("&quot;", '"'), ("&apos;", '\'')];
    let mut out = String::new();
    let mut rest = escaped;
    while let Some(c) = rest.chars().next() {
        match entities.iter().find(|(entity, _)| rest.starts_with(entity)) {
            Some((entity, stands_for)) => {
                out.push(*stands_for);
                rest = &rest[entity.len()..];
            }
            None => {
                assert_ne!(c, '&', "{rest}");
                out.push(c);
                rest = &rest[c.len_utf8()..];
            }
        }
    }
    out
}

#[test]
fn escaped_text_is_read_back() {
    let texts = ["", "&", "&amp;", "&amp;lt;", "a<b>&\"c'", "&&<<", "plain é text", "&quot"];
    for text in texts {
        assert_eq!(read_entities(&escape_xml_attr(text)), text);
        assert_eq!(read_entities(&escape_xml_text(text)), text);
        for more in texts {
            let both = format!("{text}{more}");
            assert_eq!(
                escape_xml_attr(&both),
                format!("{}{}", escape_xml_attr(text), escape_xml_attr(more))
            );
            assert_eq!(
                escape_xml_text(&both),
                format!("{}{}", escape_xml_text(text), escape_xml_text(more))
            );
        }
    }
}

#[test]
fn escape_xml_text_skips_attribute_quotes() {
    assert_eq!(escape_xml_text("a<b>&\"c'"), "a&lt;b&gt;&amp;\"c'");
}

#[test]
fn junit_xml_with_no_budget_lists_one_testcase_per_fault() {
    let report = make_report("simple-budget");
    let xml = to_junit_xml(&report, None);
    assert!(xml.starts_with("<?xml version=\"1.0\" encoding=\"UTF-8\"?>"));
    assert!(xml.contains("<testsuite name=\"simple-budget\""));
    assert!(xml.contains("classname=\"malcolm\""));
    assert!(xml.contains("name=\"simple-budget.inject.packet_loss\""));
    assert!(xml.contains("</testsuite>"));
}

#[test]
fn junit_document_is_exact() {
    let report = make_report("exact");
    let outcome = BudgetOutcome {
        passed: false,
        violations: vec![Violation {
            rule: "max_injected_total".to_owned(),
            expected: "<= 0".to_owned(),
            actual: "1".to_owned(),
        }],
    };
    assert_eq!(
        to_junit_xml(&report, Some(&outcome)),
        "<?xml version=\"1.0\" encoding=\"UTF-8\"?>\n\
         <testsuite name=\"exact\" tests=\"2\" failures=\"1\" time=\"1.234\">\n  \
         <testcase classname=\"malcolm\" name=\"exact.inject.packet_loss\" time=\"0.000\"/>\n  \
         <testcase classname=\"malcolm::budget\" name=\"budget.max_injected_total\" time=\"0.000\">\n    \
         <failure message=\"max_injected_total\" type=\"max_injected_total\">expected &lt;= 0, got 1</failure>\n  \
         </testcase>\n\
         </testsuite>\n"
    );
}

#[test]
fn junit_of_nothing_is_empty() {
    let report = ScenarioReport {
        name: "empty".to_owned(),
        seed: 1,
        regime: ScenarioRegime::Stable,
        events: Vec::new(),
        total_duration_ms: 5,
    };
    assert_eq!(to_junit_xml(&report, None), "");
    let satisfied = BudgetOutcome {
        passed: true,
        violations: Vec::new(),
    };
    assert_eq!(to_junit_xml(&report, Some(&satisfied)), "");
}

#[test]
fn junit_time_is_bounded() {
    let mut report = make_report("long");
    report.total_duration_ms = u64::MAX;
    assert!(to_junit_xml(&report, None).contains(" time=\"4294967.295\">"));
    report.total_duration_ms = 7;
    assert!(to_junit_xml(&report, None).contains(" time=\"0.007\">"));
}

#[test]
fn junit_xml_escapes_user_controlled_name() {
    let report = make_report("a<b>&\"c'");
    let xml = to_junit_xml(&report, None);
    assert!(!xml.contains("name=\"a<b>&\"c'"));
    assert!(xml.contains("name=\"a&lt;b&gt;&amp;&quot;c&apos;\""));
}

#[test]
fn junit_xml_reports_violations_as_failures() {
    let report = make_report("violated-budget");
    let budget = ResilienceBudget {
        min_injected_total: Some(99),
        ..Default::default()
    };
    let outcome = budget.evaluate(&report);
    let xml = to_junit_xml(&report, Some(&outcome));
    assert!(xml.contains("failures=\"1\""));
    assert!(xml.contains("<failure message=\"min_injected_total\""));
    assert!(xml.contains("expected &gt;= 99, got 1"), "{xml}");
}

#[test]
fn junit_xml_words_are_well_formed() {
    let report = make_report("well-formed");
    let budget = ResilienceBudget {
        max_injected_total: Some(0),
        ..Default::default()
    };
    let outcome = budget.evaluate(&report);
    let xml = to_junit_xml(&report, Some(&outcome));
    let mut counter = 0usize;
    let mut opened: Vec<String> = Vec::new();
    for name in tags(&xml) {
        if let Some(close_name) = name.strip_prefix('/') {
            let open = opened.pop().expect("malformed close");
            assert_eq!(open, close_name, "mismatched close tag in XML");
        } else {
            opened.push(name);
        }
        counter += 1;
    }
    assert_eq!(opened, Vec::<String>::new(), "unclosed XML tags");
    assert!(counter > 0, "tag iterator produced no tags");
}

#[test]
fn sarif_top_level_matches_2_1_0() {
    let report = make_report("sarif-doc");
    let sarif = to_sarif(&report, None);
    assert_eq!(text_at(&sarif, "$schema"), SARIF_SCHEMA);
    assert_eq!(text_at(&sarif, "version"), "2.1.0");
    let run = item(field(&sarif, "runs"), 0);
    let driver = field(field(run, "tool"), "driver");
    assert_eq!(text_at(driver, "name"), "malcolm");
    assert_eq!(text_at(driver, "version"), VERSION);
    assert_eq!(VERSION, "0.1.0");
    assert_eq!(items(field(driver, "rules")), 6);
    assert_eq!(items(field(run, "results")), 0);
}

#[test]
fn sarif_emits_one_result_per_violation() {
    let report = make_report("sarif-vio");
    let budget = ResilienceBudget {
        max_injected_total: Some(0),
        min_injected_total: Some(99),
        forbid_regime: Some(vec![ScenarioRegime::Sensitive]),
        ..Default::default()
    };
    let outcome = budget.evaluate(&report);
    let sarif = to_sarif(&report, Some(&outcome));
    let run = item(field(&sarif, "runs"), 0);
    let results = field(run, "results");
    assert!(items(results) >= 2, "expected >= 2 results, got {results:?}");
    assert_eq!(items(results), outcome.violations.len());
    for i in 0..items(results) {
        let entry = item(results, i);
        assert_eq!(text_at(entry, "level"), "error");
        assert_eq!(text_at(entry, "ruleId"), outcome.violations[i].rule);
        assert!(text_at(field(entry, "message"), "text").starts_with("expected "));
    }
    let invocation = item(field(run, "invocations"), 0);
    assert_eq!(field(invocation, "executionSuccessful"), &Json::Bool(false));
}

#[test]
fn sarif_includes_invocation_metadata() {
    let report = make_report("sarif-meta");
    let sarif = to_sarif(&report, None);
    let run = item(field(&sarif, "runs"), 0);
    let properties = field(item(field(run, "invocations"), 0), "properties");
    assert_eq!(text_at(properties, "scenario_name"), "sarif-meta");
    assert_eq!(number_at(properties, "seed"), 7);
    assert_eq!(number_at(properties, "fault_count"), 1);
    assert_eq!(text_at(properties, "regime"), "sensitive");
    assert_eq!(number_at(properties, "total_duration_ms"), 1_234);
}
