use malcolm::names::NameSet;
use malcolm::rootcause::{
    root_cause_from_scenario, root_cause_with_observation, took_down, Observation, RootCauseConfig,
    SerializableCandidate, SerializablePosterior,
};
use malcolm::scalar::whole::{from_i64, snap, whole_of_i64};
use malcolm::scalar::{draw_below, round_to_count, Scalar};
use malcolm::scenario::{ScenarioEvent, ScenarioRegime, ScenarioReport};
use malcolm::search::{
    check_search, seed_for, Dimension, FaultConfig, Objective, SearchConfig, SearchError,
    SearchPlan, SearchSpace, Trace,
};
use malcolm::test_util::slice_recv;
use malcolm::topology::Topology;
use malcolm::tracing_layer::{trim_quotes, EventFields};
use malcolm::MalcolmLayer;

fn s(x: f64) -> Scalar {
    Scalar::from_bits(x.to_bits())
}

fn f(x: Scalar) -> f64 {
    f64::from_bits(x.to_bits())
}

fn event(i: usize, node: &str, intensity: f64, dry_run: bool) -> ScenarioEvent {
    ScenarioEvent {
        fault_type: format!("test_fault_{i}"),
        node_id: node.to_owned(),
        seed: 42,
        intensity: s(intensity),
        dry_run,
        timestamp_ms: i as u64,
    }
}

fn make_report_with_nodes(name: &str, nodes: &[&str]) -> ScenarioReport {
    ScenarioReport {
        name: name.to_owned(),
        seed: 42,
        regime: ScenarioRegime::Stable,
        events: nodes
            .iter()
            .enumerate()
            .map(|(i, n)| event(i, n, 1.0, false))
            .collect(),
        total_duration_ms: 0,
    }
}

fn chain() -> Topology {
    Topology::builder()
        .name("chain")
        .add_edge("A", "B", s(0.5))
        .add_edge("B", "C", s(0.5))
        .build()
}

fn posterior(origins: &[(&str, f64)]) -> SerializablePosterior {
    SerializablePosterior {
        candidates: origins
            .iter()
            .map(|(o, p)| SerializableCandidate {
                origin: (*o).to_owned(),
                posterior: s(*p),
                log_likelihood: s(0.0),
                log_prior: s(0.0),
            })
            .collect(),
        entropy: s(0.25),
    }
}

#[test]
fn root_cause_config_default_sample_count_is_ten_thousand() {
    let cfg = RootCauseConfig::new();
    assert_eq!(cfg.sample_count, 10_000);
    assert_eq!(cfg.with_sample_count(7).sample_count, 7);
}

#[test]
fn candidates_are_distinct_and_ascending() {
    let report = make_report_with_nodes("r", &["C", "A", "C", "B"]);
    let query = root_cause_from_scenario(&report, &chain(), &RootCauseConfig::new());
    let names: Vec<&str> = query.prior.iter().map(|(n, _)| n.as_str()).collect();
    assert_eq!(names, vec!["A", "B", "C"]);
    assert!(query.prior.iter().all(|(_, w)| f(*w) == 1.0));
    assert_eq!(query.graph.nodes, vec!["A", "B", "C"]);
    assert_eq!(query.observation.failed(), &vec!["A", "B", "C"]);
    assert!(query.observation.healthy().is_empty());
}

#[test]
fn prior_weights_that_are_not_positive_count_as_one() {
    let report = make_report_with_nodes("r", &["A", "B", "C", "D"]);
    let mut config = RootCauseConfig::new();
    config.set_prior("A", s(9.0));
    config.set_prior("B", s(0.0));
    config.set_prior("C", s(-2.0));
    config.set_prior("A", s(3.0));
    let query = root_cause_from_scenario(&report, &chain(), &config);
    let weights: Vec<f64> = query.prior.iter().map(|(_, w)| f(*w)).collect();
    assert_eq!(weights, vec![3.0, 1.0, 1.0, 1.0]);
}

#[test]
fn later_observations_replace_earlier_ones() {
    let topology = Topology::builder()
        .name("v")
        .add_edge("A", "C", s(1.0))
        .add_edge("B", "C", s(0.5))
        .build();
    let report = make_report_with_nodes("v", &["A", "B"]);
    let query = root_cause_with_observation(
        &report,
        &topology,
        &RootCauseConfig::new(),
        Some("C"),
        Some("A"),
    );
    assert_eq!(query.observation.failed(), &vec!["B", "C"]);
    assert_eq!(query.observation.healthy(), &vec!["A"]);
    let mut config = RootCauseConfig::new();
    config.add_failed("C").add_healthy("A");
    let same = root_cause_from_scenario(&report, &topology, &config);
    assert_eq!(same.observation.failed(), query.observation.failed());
    assert_eq!(same.observation.healthy(), query.observation.healthy());
}

#[test]
fn events_without_effect_leave_the_node_healthy() {
    assert!(took_down(&event(0, "A", 0.5, false)));
    assert!(!took_down(&event(0, "A", 0.5, true)));
    assert!(!took_down(&event(0, "A", 0.0, false)));
    assert!(!took_down(&event(0, "A", f64::NAN, false)));
    let mut o = Observation::new();
    o.add_healthy("x");
    o.add_failed("x");
    assert_eq!(o.failed(), &vec!["x"]);
    assert!(o.healthy().is_empty());
}

#[test]
fn root_cause_reports_count_the_nodes() {
    let report = make_report_with_nodes("chain", &["A"]);
    let query = root_cause_from_scenario(&report, &chain(), &RootCauseConfig::new());
    let rcr = query.report(posterior(&[("A", 1.0)]));
    assert_eq!(rcr.candidate_count, 1);
    assert_eq!(rcr.graph_node_count, 3);
    assert_eq!(rcr.observation.failed, vec!["A"]);
    assert_eq!(rcr.observation.unobserved_count, 2);
    assert_eq!(rcr.most_probable().map(|c| c.origin.as_str()), Some("A"));
    assert_eq!(f(rcr.entropy()), 0.25);
    let none = query.report(posterior(&[]));
    assert!(none.most_probable().is_none());
    let outside = make_report_with_nodes("o", &["w", "x", "y", "z"]);
    let far = root_cause_from_scenario(&outside, &chain(), &RootCauseConfig::new());
    assert_eq!(far.report(posterior(&[])).observation.unobserved_count, 0);
}

#[test]
fn root_cause_settings_chain_and_can_be_copied() {
    let mut config = RootCauseConfig::new();
    config
        .add_failed("b")
        .add_failed("a")
        .add_healthy("c")
        .set_prior("a", s(2.0))
        .add_healthy("d");
    assert_eq!(config.observed_failed.items(), &vec!["a", "b"]);
    assert_eq!(config.observed_healthy.items(), &vec!["c", "d"]);
    assert_eq!(config.prior_weights, vec![("a".to_owned(), s(2.0))]);
    let copy = config.clone();
    config.add_failed("z");
    assert_eq!(copy.observed_failed.items(), &vec!["a", "b"]);
    assert_eq!(copy.observed_healthy.items(), &vec!["c", "d"]);
    assert_eq!(copy.prior_weights, config.prior_weights);
    assert_eq!(copy.sample_count, 10_000);
    assert_eq!(RootCauseConfig::default().sample_count, 0);
    let report = make_report_with_nodes("chain", &["A"]);
    let rcr = root_cause_from_scenario(&report, &chain(), &RootCauseConfig::new())
        .report(posterior(&[("A", 1.0)]));
    assert_eq!(rcr.clone(), rcr);
}

#[test]
fn name_sets_are_sorted() {
    let mut set = NameSet::new();
    for n in ["b", "a", "c", "a", "é"] {
        set.insert(n);
    }
    assert_eq!(set.items(), &vec!["a", "b", "c", "é"]);
    set.remove("b");
    set.remove("zz");
    assert_eq!(set.items(), &vec!["a", "c", "é"]);
    assert_eq!(set.len(), 3);
    assert!(set.contains("c"));
    assert!(!set.contains("b"));
    assert_eq!(set.clone(), set);
}

#[derive(Clone)]
struct Parabola;

impl Objective for Parabola {
    fn evaluate(&self, cfg: &FaultConfig, _seed: u64) -> Scalar {
        let x = f(cfg.params[0]);
        s(-(x - 5.0) * (x - 5.0))
    }
}

struct SeedEcho;

impl Objective for SeedEcho {
    fn evaluate(&self, _cfg: &FaultConfig, seed: u64) -> Scalar {
        Scalar::from_bits(seed)
    }
}

fn continuous(lo: f64, hi: f64) -> Dimension {
    Dimension::Continuous {
        lo: s(lo),
        hi: s(hi),
        name: "x".to_owned(),
    }
}

fn integer(lo: i64, hi: i64) -> Dimension {
    Dimension::Integer {
        lo,
        hi,
        name: "n".to_owned(),
    }
}

#[test]
fn rejects_empty_space() {
    let err = check_search(&SearchSpace::new(vec![]), &SearchConfig::default());
    assert_eq!(err, Err(SearchError::EmptySpace));
    assert_eq!(
        SearchError::EmptySpace.describe(),
        "search space must have ≥1 dimension"
    );
}

#[test]
fn rejects_zero_budget() {
    let space = SearchSpace::new(vec![continuous(0.0, 10.0)]);
    for (max_iters, n_doe) in [(0, 4), (4, 0)] {
        let config = SearchConfig {
            max_iters,
            n_doe,
            ..SearchConfig::default()
        };
        assert_eq!(check_search(&space, &config), Err(SearchError::ZeroBudget));
    }
    assert_eq!(check_search(&space, &SearchConfig::default()), Ok(()));
    assert_eq!(
        SearchError::ZeroBudget.describe(),
        "max_iters and n_doe must be ≥1"
    );
    assert_eq!(
        SearchError::Backend("x".to_owned()).describe(),
        "egobox backend error: x"
    );
}

#[test]
fn integer_dimension_is_rounded_to_grid() {
    let space = SearchSpace::new(vec![integer(0, 10)]);
    for (raw, want) in [
        (2.4, 2.0),
        (2.5, 3.0),
        (-0.5, 0.0),
        (-7.0, 0.0),
        (99.0, 10.0),
        (f64::INFINITY, 10.0),
        (f64::NEG_INFINITY, 0.0),
        (f64::NAN, 0.0),
    ] {
        assert_eq!(f(space.from_raw(&vec![s(raw)]).params[0]), want, "{raw}");
    }
}

#[test]
fn mixed_dimensions_decode_correctly() {
    let space = SearchSpace::new(vec![continuous(0.0, 1.0), integer(-5, 5)]);
    assert_eq!(space.len(), 2);
    assert!(!space.is_empty());
    assert_eq!(space.dimensions[0].name(), "x");
    assert_eq!(space.dimensions[1].name(), "n");
    let cfg = space.from_raw(&vec![s(1.5), s(-3.5), s(9.25)]);
    let params: Vec<f64> = cfg.params.iter().map(|p| f(*p)).collect();
    assert_eq!(params, vec![1.0, -4.0, 9.25]);
    assert_eq!(
        space.limits(),
        vec![(s(0.0), s(1.0)), (s(-5.0), s(5.0))]
    );
}

#[test]
fn whole_numbers_convert_as_floats_do() {
    for n in [
        0_i64,
        1,
        -1,
        7,
        1 << 52,
        (1 << 53) - 1,
        1 << 53,
        (1 << 53) + 1,
        (1 << 53) + 2,
        (1 << 53) + 3,
        (1 << 54) + 2,
        (1 << 54) + 6,
        -((1 << 54) + 6),
        i64::MAX,
        i64::MAX - 511,
        i64::MAX - 512,
        i64::MAX - 513,
        i64::MIN,
        i64::MIN + 1,
        1_234_567_890_123_456_789,
    ] {
        assert_eq!(from_i64(n), s(n as f64), "{n}");
        assert_eq!(whole_of_i64(n), (n as f64) as i128, "{n}");
    }
    for raw in [0.5_f64, -0.5, 1e300, -1e300, 4503599627370497.5, 9.3e18, -9.3e18] {
        let (lo, hi) = (i64::MIN, i64::MAX);
        let want = raw.round().clamp(lo as f64, hi as f64) as i64 as f64;
        assert_eq!(f(snap(s(raw), lo, hi)), want, "{raw}");
    }
}

#[test]
fn counts_round_as_floats_do() {
    for x in [
        0.0_f64,
        -0.0,
        0.49,
        0.5,
        0.49999999999999994,
        1.0,
        1.5,
        2.5,
        -3.0,
        f64::NAN,
        f64::INFINITY,
        1e19,
        1.8446744073709552e19,
        9007199254740993.0,
        5e-324,
        4503599627370495.5,
    ] {
        let want = x.max(0.0).round() as u64;
        assert_eq!(round_to_count(s(x)), want, "{x}");
    }
}

#[test]
fn scalars_order_and_convert_as_floats_do() {
    let list = [
        f64::NEG_INFINITY,
        -1.5,
        -0.0,
        0.0,
        5e-324,
        0.3,
        1.0,
        2.0,
        f64::INFINITY,
        f64::NAN,
    ];
    for a in list {
        for b in list {
            assert_eq!(s(a).less(s(b)), a < b, "{a} {b}");
            assert_eq!(
                s(a).total_less(s(b)),
                a.total_cmp(&b) == std::cmp::Ordering::Less,
                "{a} {b}"
            );
        }
        assert_eq!(s(a).negate(), s(-a));
        assert_eq!(s(a).clamp_unit(), s(a.clamp(0.0, 1.0)), "{a}");
    }
    for n in [0_u32, 1, 2, 3, 1000, u32::MAX] {
        assert_eq!(Scalar::from_u32(n), s(f64::from(n)));
    }
    for (word, p) in [
        (0_u64, 0.0_f64),
        (0, 5e-324),
        (1 << 11, 1.1102230246251565e-16),
        (u64::MAX, 1.0),
        (u64::MAX, 0.9999999999999999),
        (1 << 63, 0.5),
        ((1 << 63) - 1, 0.5),
        (1 << 62, 0.3),
    ] {
        let draw = (word >> 11) as f64 / (1_u64 << 53) as f64;
        assert_eq!(draw_below(word, s(p)), draw < p, "{word} {p}");
    }
}

#[test]
fn deterministic_under_fixed_seed() {
    let space = SearchSpace::new(vec![continuous(0.0, 10.0)]);
    let config = SearchConfig { max_iters: 3, n_doe: 1, ..SearchConfig::default() };
    let run = || {
        let mut trace = Trace::new(&config);
        let mut turned = Vec::new();
        for raw in [0.0, 5.0, 12.0] {
            let score = trace.evaluate(&space, &Parabola, 42, &vec![s(raw)]);
            turned.push(score.expect("within the limit"));
        }
        assert_eq!(trace.evaluate(&space, &Parabola, 42, &vec![s(1.0)]), None);
        let best = trace.finish(&space, &vec![s(5.0)], turned[1]);
        (turned, best)
    };
    let (turned, result) = run();
    let scores: Vec<f64> = turned.iter().map(|t| f(*t)).collect();
    assert_eq!(scores, vec![25.0, 0.0, 25.0]);
    assert_eq!(f(result.best_config.params[0]), 5.0);
    assert_eq!(f(result.best_score), 0.0);
    assert_eq!(result.evaluations, 3);
    let iterations: Vec<usize> = result.trace.iter().map(|e| e.iteration).collect();
    assert_eq!(iterations, vec![0, 1, 2]);
    assert_eq!(f(result.trace[2].config.params[0]), 10.0);
    assert_eq!(run().1, result);
}

#[test]
fn evaluation_seeds_follow_the_iteration() {
    assert_eq!(seed_for(42, 0), 42);
    assert_eq!(seed_for(42, 3), 45);
    assert_eq!(seed_for(u64::MAX, 3), 2);
    let space = SearchSpace::new(vec![continuous(0.0, 1.0)]);
    let config = SearchConfig { max_iters: 4, n_doe: 2, ..SearchConfig::default() };
    let mut trace = Trace::new(&config);
    let mut seeds = Vec::new();
    for _ in 0..4 {
        let turned = trace
            .evaluate(&space, &SeedEcho, 42, &vec![s(0.5)])
            .expect("within the limit");
        seeds.push(turned.negate().to_bits());
    }
    assert_eq!(seeds, vec![42, 42, 43, 44]);
    let result = trace.finish(&space, &vec![s(0.5)], s(0.0));
    let iterations: Vec<usize> = result.trace.iter().map(|e| e.iteration).collect();
    assert_eq!(iterations, vec![0, 0, 1, 2]);
}

#[test]
fn a_design_beyond_the_limit_is_cut() {
    let space = SearchSpace::new(vec![continuous(0.0, 1.0)]);
    let config = SearchConfig { max_iters: 2, n_doe: 5, ..SearchConfig::default() };
    let mut trace = Trace::new(&config);
    for _ in 0..2 {
        assert!(trace.evaluate(&space, &SeedEcho, 7, &vec![s(0.5)]).is_some());
    }
    assert_eq!(trace.evaluate(&space, &SeedEcho, 7, &vec![s(0.5)]), None);
    let result = trace.finish(&space, &vec![s(0.5)], s(0.0));
    let iterations: Vec<usize> = result.trace.iter().map(|e| e.iteration).collect();
    assert_eq!(iterations, vec![0, 0]);
}

#[test]
fn integer_values_are_whole_and_within_bounds() {
    let cases = [
        (-3_i64, 8_i64, 2.5, 3.0),
        (-3, 8, -2.5, -3.0),
        (-3, 8, 100.0, 8.0),
        (-3, 8, f64::NEG_INFINITY, -3.0),
        (-3, 8, f64::INFINITY, 8.0),
        (i64::MIN, i64::MAX, 1e300, 9_223_372_036_854_775_808.0),
        (i64::MIN, i64::MAX, -1e300, -9_223_372_036_854_775_808.0),
        (
            9_007_199_254_740_993,
            9_007_199_254_740_995,
            0.0,
            9_007_199_254_740_992.0,
        ),
    ];
    for (lo, hi, raw, want) in cases {
        let dimension = Dimension::Integer { lo, hi, name: "n".to_owned() };
        let got = f(dimension.decode(s(raw)));
        assert_eq!(got, want);
        assert_eq!(got, got.trunc());
        let (low, high) = dimension.bounds();
        assert!(f(low) <= got && got <= f(high));
    }
}

#[test]
fn search_values_can_be_copied() {
    let space = SearchSpace::new(vec![
        continuous(0.0, 1.0),
        Dimension::Integer { lo: -2, hi: 9, name: "n".to_owned() },
    ]);
    assert_eq!(space.clone(), space);
    assert_eq!(space.dimensions[1].clone(), space.dimensions[1]);
    assert!(SearchSpace::default().is_empty());
    let error = SearchError::Backend("x".to_owned());
    assert_eq!(error.clone(), error);
    let config = SearchConfig { max_iters: 2, n_doe: 1, ..SearchConfig::default() };
    let mut trace = Trace::new(&config);
    for raw in [0.25, 0.75] {
        assert!(trace.evaluate(&space, &SeedEcho, 1, &vec![s(raw), s(3.4)]).is_some());
    }
    let result = trace.finish(&space, &vec![s(0.75), s(3.4)], s(-1.0));
    assert_eq!(result.clone(), result);
    assert_eq!(result.trace[1].clone(), result.trace[1]);
}

#[test]
fn captures_malcolm_target_events() {
    let mut layer = MalcolmLayer::new();
    let mut fields = EventFields::new();
    fields.record_str("fault_type", "packet_loss");
    fields.record_str("node_id", "node-1");
    fields.record_u64("seed", 7);
    fields.record_scalar("intensity", s(0.8));
    fields.record_bool("dry_run", false);
    fields.record_u64("timestamp_ms", 12);
    fields.record_debug("message", "packet loss injected", None);
    layer.on_event("malcolm", fields);
    let events = layer.events();
    assert_eq!(events.len(), 1);
    let event = events.first().expect("expected one captured event");
    assert_eq!(event.fault_type, "packet_loss");
    assert_eq!(event.node_id, "node-1");
    assert_eq!(event.seed, 7);
    assert_eq!(event.intensity, s(0.8));
    assert_eq!(event.timestamp_ms, 12);
    assert!(!event.dry_run);
    layer.clear();
    assert!(layer.events().is_empty());
}

#[test]
fn other_targets_and_bare_events_are_passed_over() {
    let mut layer = MalcolmLayer::new();
    let mut named = EventFields::new();
    named.record_str("fault_type", "x");
    layer.on_event("other", named);
    layer.on_event("malcolm", EventFields::new());
    assert!(layer.events().is_empty());
}

#[test]
fn rendered_fields_are_read_back() {
    let mut fields = EventFields::new();
    fields.record_debug("malcolm.fault_type", "\"x\"", None);
    fields.record_debug("node_id", "plain", None);
    fields.record_debug("seed", "17", None);
    fields.record_debug("dry_run", "true", None);
    fields.record_debug("timestamp_ms", "soon", None);
    fields.record_debug("intensity", "0.5", Some(s(0.5)));
    let mut layer = MalcolmLayer::new();
    layer.on_event("malcolm", fields);
    let event = &layer.events()[0];
    assert_eq!(event.fault_type, "x");
    assert_eq!(event.node_id, "plain");
    assert_eq!(event.seed, 17);
    assert!(event.dry_run);
    assert_eq!(event.timestamp_ms, 0);
    assert_eq!(event.intensity, s(0.5));
}

#[test]
fn quotes_are_trimmed_in_pairs() {
    assert_eq!(trim_quotes("\"a\""), "a");
    assert_eq!(trim_quotes("\""), "\"");
    assert_eq!(trim_quotes("\"\""), "");
    assert_eq!(trim_quotes("a\""), "a\"");
}

#[test]
fn received_slices_are_bounded() {
    assert_eq!(slice_recv(&[1, 2, 3], 2), &[1, 2]);
    assert_eq!(slice_recv(&[1, 2, 3], 3), &[1, 2, 3]);
    assert_eq!(slice_recv::<u8>(&[], 0), &[] as &[u8]);
}

#[test]
fn the_design_counts_as_evaluations() {
    let config = SearchConfig {
        max_iters: 8,
        n_doe: 3,
        ..SearchConfig::default()
    };
    assert_eq!(config.plan(), SearchPlan { design: 3, infill: 5 });
    let tight = SearchConfig {
        max_iters: 2,
        n_doe: 3,
        ..SearchConfig::default()
    };
    assert_eq!(tight.plan(), SearchPlan { design: 2, infill: 0 });
}
