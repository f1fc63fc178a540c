use malcolm::fault::{Fault, FaultContext};
use malcolm::message::{Message, Part};
use malcolm::scalar::Scalar;
use malcolm::topology::bayesian::{
    BayesianCascade, BlastRadiusResult, MarginalResult, KIND,
};
use malcolm::topology::cascade::{path_from, CascadeFault, HopScale};
use malcolm::topology::{escape_dot, escape_mermaid, FailureGraph, Topology};
use malcolm::types::{BifurcationProfile, DryRunReport, FaultEvent, FaultResult, SkipReason};
use rand::rngs::SmallRng;
use rand::{Rng, SeedableRng};

fn s(x: f64) -> Scalar {
    Scalar::from_bits(x.to_bits())
}

fn render(message: &Message) -> String {
    let mut out = String::new();
    for part in &message.parts {
        match part {
            Part::Text(t) => out.push_str(t),
            Part::Fixed { value, decimals } => {
                let x = f64::from_bits(value.to_bits());
                out.push_str(&format!("{x:.*}", usize::from(*decimals)));
            }
            Part::Percent { value, decimals } => {
                let x = f64::from_bits(value.to_bits()) * 100.0;
                out.push_str(&format!("{x:.*}", usize::from(*decimals)));
            }
            Part::BoundedPercent { value } => {
                let x = (f64::from_bits(value.to_bits()) * 100.0).clamp(0.0, 100.0);
                out.push_str(&format!("{x:.0}"));
            }
            other => panic!("not expected here: {other:?}"),
        }
    }
    out
}

struct FixedIntensityFault {
    intensity: f64,
}

impl Fault for FixedIntensityFault {
    fn inject(&self, ctx: &FaultContext) -> FaultResult {
        FaultResult::Injected(FaultEvent {
            fault_type: self.fault_type().to_owned(),
            node_id: ctx.node_id.clone(),
            seed: ctx.seed,
            intensity: s(self.intensity),
            dry_run: false,
            timestamp_ms: ctx.timestamp_ms,
        })
    }

    fn dry_run(&self, ctx: &FaultContext) -> DryRunReport {
        DryRunReport {
            fault_type: self.fault_type().to_owned(),
            node_id: ctx.node_id.clone(),
            would_inject: true,
            reason: Message::text("fixed intensity dry-run"),
        }
    }

    fn fault_type(&self) -> &'static str {
        "fixed_intensity"
    }
}

struct SkipFault;

impl Fault for SkipFault {
    fn inject(&self, _ctx: &FaultContext) -> FaultResult {
        FaultResult::Skipped(SkipReason::BelowThreshold)
    }

    fn dry_run(&self, ctx: &FaultContext) -> DryRunReport {
        DryRunReport {
            fault_type: self.fault_type().to_owned(),
            node_id: ctx.node_id.clone(),
            would_inject: false,
            reason: Message::text("below threshold"),
        }
    }

    fn fault_type(&self) -> &'static str {
        "skip_fault"
    }
}

fn ctx(node_id: &str) -> FaultContext {
    FaultContext {
        seed: 1,
        timestamp_ms: 0,
        node_id: node_id.to_owned(),
        profile: BifurcationProfile::network_partition(),
    }
}

fn full() -> Box<FixedIntensityFault> {
    Box::new(FixedIntensityFault { intensity: 1.0 })
}

#[test]
fn linear_chain_weight_one_propagates_all_nodes() {
    let topology = Topology::builder()
        .name("chain")
        .add_edge("a", "b", s(1.0))
        .add_edge("b", "c", s(1.0))
        .build();
    let fault = CascadeFault::new(full(), topology, 42);
    let nodes = fault.propagation_path("a", &HopScale::unscaled());
    assert_eq!(nodes, vec!["a", "b", "c"]);
}

#[test]
fn weight_zero_never_propagates_beyond_source() {
    let topology = Topology::builder()
        .name("zero")
        .add_edge("a", "b", s(0.0))
        .add_edge("b", "c", s(0.0))
        .build();
    let fault = CascadeFault::new(full(), topology, 7);
    let nodes = fault.propagation_path("a", &HopScale::unscaled());
    assert_eq!(nodes, vec!["a"]);
}

#[test]
fn weight_half_converges_near_fifty_percent() {
    let topology = Topology::builder()
        .name("half")
        .add_edge("a", "b", s(0.5))
        .build();
    let mut injected_count = 0usize;
    for seed in 0..1_000_u64 {
        let fault = CascadeFault::new(full(), topology.clone(), seed);
        let nodes = fault.propagation_path("a", &HopScale::unscaled());
        if nodes.iter().any(|node| node == "b") {
            injected_count = injected_count.saturating_add(1);
        }
    }
    assert!(
        (450..=550).contains(&injected_count),
        "expected ~50% propagation to b, got {injected_count}/1000"
    );
}

#[test]
fn propagation_path_is_deterministic_for_seed() {
    let topology = Topology::builder()
        .name("det")
        .add_edge("a", "b", s(0.5))
        .add_edge("b", "c", s(0.5))
        .build();
    let fault_a = CascadeFault::new(full(), topology.clone(), 123);
    let fault_b = CascadeFault::new(full(), topology, 123);
    assert_eq!(
        fault_a.propagation_path("a", &HopScale::unscaled()),
        fault_b.propagation_path("a", &HopScale::unscaled())
    );
}

#[test]
fn cascade_walks_by_the_given_words() {
    let topology = Topology::builder()
        .name("words")
        .add_edge("a", "b", s(0.5))
        .add_edge("a", "c", s(0.5))
        .add_edge("c", "a", s(1.0))
        .build();
    let fault = CascadeFault::new(full(), topology, 0);
    let low = 0_u64;
    let high = u64::MAX;
    let hops = fault.hops_for_words("a", &HopScale::unscaled(), &vec![high, low, low]);
    assert_eq!(hops.len(), 3);
    assert_eq!((hops[0].to.as_str(), hops[0].injected), ("b", false));
    assert_eq!((hops[1].to.as_str(), hops[1].injected), ("c", true));
    assert_eq!((hops[2].from.as_str(), hops[2].to.as_str()), ("c", "a"));
    assert_eq!(path_from("a", &hops), vec!["a", "c"]);
}

#[test]
fn cascade_follows_the_words_under_the_seed() {
    let topology = Topology::builder()
        .name("words")
        .add_edge("a", "b", s(0.5))
        .add_edge("a", "c", s(0.5))
        .add_edge("b", "d", s(0.5))
        .add_edge("c", "d", s(0.5))
        .build();
    for seed in 0..32_u64 {
        let fault = CascadeFault::new(full(), topology.clone(), seed);
        let mut rng = SmallRng::seed_from_u64(seed);
        let words: Vec<u64> = (0..4).map(|_| rng.next_u64()).collect();
        let expected = fault.hops_for_words("a", &HopScale::unscaled(), &words);
        let hops = fault.propagation_hops("a", &HopScale::unscaled());
        assert_eq!(hops.len(), expected.len());
        for (x, y) in hops.iter().zip(expected.iter()) {
            assert_eq!((&x.from, &x.to, x.injected), (&y.from, &y.to, y.injected));
        }
    }
}

#[test]
fn hops_are_limited() {
    let topology = Topology::builder()
        .name("limit")
        .add_edge("a", "b", s(1.0))
        .add_edge("b", "c", s(1.0))
        .build();
    let fault = CascadeFault::new(full(), topology.clone(), 1).with_max_hops(1);
    assert_eq!(
        fault.propagation_path("a", &HopScale::unscaled()),
        vec!["a", "b"]
    );
    let none = CascadeFault::new(full(), topology, 1).with_max_hops(0);
    assert_eq!(none.propagation_path("a", &HopScale::unscaled()), vec!["a"]);
}

#[test]
fn paths_enter_nodes_by_edges_that_can_be_crossed() {
    let edges = [
        ("a", "b", 0.5),
        ("a", "c", 0.0),
        ("b", "d", 0.5),
        ("c", "d", 1.0),
        ("d", "c", 0.25),
        ("d", "e", 0.0),
        ("c", "f", 1.0),
    ];
    let mut builder = Topology::builder().name("mixed");
    for (from, to, weight) in edges {
        builder = builder.add_edge(from, to, s(weight));
    }
    let topology = builder.build();
    let mut longest = 0;
    for seed in 0..200_u64 {
        let fault = CascadeFault::new(full(), topology.clone(), seed).with_max_hops(3);
        let path = fault.propagation_path("a", &HopScale::unscaled());
        assert_eq!(path[0], "a");
        for k in 1..path.len() {
            assert!(edges.iter().any(|(from, to, weight)| *to == path[k]
                && *weight > 0.0
                && path[..k].iter().any(|earlier| earlier == from)));
        }
        assert!(!path.iter().any(|node| node == "e" || node == "f"));
        longest = longest.max(path.len());
    }
    assert_eq!(longest, 4);
}

#[test]
fn scaled_weights_decide() {
    let topology = Topology::builder()
        .name("scaled")
        .add_edge("a", "b", s(1.0))
        .build();
    let fault = CascadeFault::new(full(), topology, 1);
    let scale = HopScale {
        products: vec![(s(1.0), s(0.0))],
    };
    assert_eq!(fault.propagation_path("a", &scale), vec!["a"]);
    assert_eq!(scale.hop_probability(s(1.0)), s(0.0));
    assert_eq!(HopScale::unscaled().hop_probability(s(7.0)), s(1.0));
}

#[test]
fn cascade_inject_emits_per_hop_events() {
    let topology = Topology::builder()
        .name("hop")
        .add_edge("a", "b", s(1.0))
        .build();
    let fault = CascadeFault::new(full(), topology, 99);
    let result = fault.inject(&ctx("a"));
    assert!(matches!(result, FaultResult::Injected(_)));
    let hops = fault.propagation_hops("a", &HopScale::unscaled());
    assert_eq!(hops.len(), 1);
    assert_eq!(hops[0].to, "b");
}

#[test]
fn cascade_passes_through_skip_result() {
    let topology = Topology::builder()
        .name("skip")
        .add_edge("a", "b", s(1.0))
        .build();
    let cascade = CascadeFault::new(Box::new(SkipFault), topology, 1);
    let result = cascade.inject(&ctx("a"));
    assert!(matches!(
        result,
        FaultResult::Skipped(SkipReason::BelowThreshold)
    ));
    assert!(!cascade.dry_run(&ctx("a")).would_inject);
}

#[test]
fn to_dot_includes_header_nodes_and_weighted_edges() {
    let topology = Topology::builder()
        .name("cluster-a")
        .add_edge("a", "b", s(1.0))
        .add_edge("b", "c", s(0.25))
        .build();
    let dot = render(&topology.to_dot());
    assert!(dot.starts_with("digraph \"cluster-a\" {"));
    assert!(dot.contains("\"a\";"));
    assert!(dot.contains("\"b\";"));
    assert!(dot.contains("\"c\";"));
    assert!(
        dot.contains("\"a\" -> \"b\" [label=\"100%\", weight=\"1.000\"]"),
        "{dot}"
    );
    assert!(dot.contains("\"b\" -> \"c\" [label=\"25%\", weight=\"0.250\"]"));
    assert!(dot.trim_end().ends_with('}'));
}

#[test]
fn to_dot_escapes_quotes_in_topology_name() {
    let topology = Topology::builder()
        .name("a\"b")
        .add_edge("a", "b", s(0.5))
        .build();
    let dot = render(&topology.to_dot());
    assert!(dot.contains("digraph \"a\\\"b\""));
}

#[test]
fn to_mermaid_emits_graph_td_block() {
    let topology = Topology::builder()
        .name("cluster")
        .add_edge("a", "b", s(1.0))
        .add_edge("b", "c", s(0.5))
        .build();
    let mermaid = render(&topology.to_mermaid());
    assert!(mermaid.starts_with("graph TD\n"));
    assert!(mermaid.contains("a[\"a\"]"));
    assert!(mermaid.contains("b[\"b\"]"));
    assert!(mermaid.contains("c[\"c\"]"));
    assert!(mermaid.contains("a -->|100%| b"));
    assert!(mermaid.contains("b -->|50%| c"));
}

#[test]
fn to_mermaid_sanitises_node_ids() {
    let topology = Topology::builder()
        .name("n")
        .add_edge("a-b", "c.d", s(0.5))
        .build();
    let mermaid = render(&topology.to_mermaid());
    assert!(mermaid.contains("a_b"));
    assert!(mermaid.contains("c_d"));
}

#[test]
fn names_are_escaped() {
    assert_eq!(escape_dot("a\"b\\c"), "a\\\"b\\\\c");
    assert_eq!(escape_mermaid("a-b.c d"), "a_b_c_d");
}

#[test]
fn topology_lists_nodes_and_edges_in_order() {
    let topology = Topology::builder()
        .name("order")
        .add_node("z")
        .add_edge("c", "a", s(0.5))
        .add_edge("a", "c", s(0.25))
        .build();
    assert_eq!(topology.node_ids(), vec!["a", "c", "z"]);
    assert_eq!(topology.node_count(), 3);
    assert_eq!(
        topology.edges(),
        vec![
            ("a".to_owned(), "c".to_owned(), s(0.25)),
            ("c".to_owned(), "a".to_owned(), s(0.5)),
        ]
    );
    assert!(topology.neighbors("z").is_some_and(|n| n.is_empty()));
    assert!(topology.neighbors("missing").is_none());
    assert_eq!(topology.name(), "order");
}

#[test]
fn weights_are_clamped_to_the_unit_interval() {
    let topology = Topology::builder()
        .name("clamp")
        .add_edge("a", "b", s(7.5))
        .add_edge("a", "c", s(-1.0))
        .build();
    let weights: Vec<Scalar> = topology.edges().iter().map(|e| e.2).collect();
    assert_eq!(weights, vec![s(1.0), s(0.0)]);
}

#[test]
fn failure_graph_holds_isolated_nodes() {
    let topology = Topology::builder()
        .name("iso")
        .add_node("lonely")
        .add_edge("a", "b", s(0.5))
        .build();
    let graph = topology.to_failure_graph();
    assert_eq!(graph.nodes, vec!["a", "b", "lonely"]);
    assert_eq!(graph.edges.len(), 1);
}

#[test]
fn bayesian_reports_list_the_nodes_of_the_graph() {
    let topology = Topology::builder()
        .name("chain")
        .add_edge("A", "B", s(1.0))
        .build();
    let cascade = BayesianCascade::from_topology(&topology);
    assert_eq!(cascade.graph().nodes, vec!["A", "B"]);
    let report = cascade.analyse(
        MarginalResult {
            values: vec![("A".to_owned(), s(1.0)), ("X".to_owned(), s(0.5))],
            exact: true,
        },
        BlastRadiusResult {
            expected: s(1.0),
            mode: 1,
            exact: false,
        },
    );
    assert_eq!(
        report.per_node,
        vec![("A".to_owned(), s(1.0)), ("B".to_owned(), s(0.0))]
    );
    assert!(report.is_exact());
    assert!(!report.is_exact_blast_radius());
    assert_eq!(report.clone(), report);
    assert_eq!(report.node_marginal("X"), s(0.5));
    assert_eq!(report.node_marginal("Y"), s(0.0));
    assert_eq!(KIND, "bayesian_cascade");
    let direct = BayesianCascade::from_graph(FailureGraph {
        nodes: vec!["q".to_owned()],
        edges: vec![],
    });
    assert_eq!(direct.graph().nodes, vec!["q"]);
}
