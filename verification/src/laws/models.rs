//! Laws of the models that contracts speak of: a model shows the fields of its value, each in
//! its place, and the model of a list shows its elements in order.

use crate::assertions::{violation_views, ResilienceBudget, Violation};
use crate::cli::Args;
use crate::environment::pair_views;
use crate::fault::FaultContext;
use crate::faults::byzantine::{CorruptionStrategy, StrategyView};
use crate::json::{Json, JsonView};
use crate::message::{Message, Part, PartView};
use crate::metrics::otel::OtelConfig;
use crate::metrics::statsd::StatsdConfig;
use crate::metrics::{label_views, MetricSample};
use crate::replay::{ScenarioRecord, TopologyEdgeSnapshot, TopologySnapshot};
use crate::rootcause::weight_views;
use crate::scalar::Scalar;
use crate::scenario::{event_views, ScenarioEvent, ScenarioReport};
use crate::search::TraceEntry;
use crate::text::views;
use crate::topology::cascade::PropagationHop;
use crate::topology::{links, Edge};
use crate::tracing_layer::EventFields;
use crate::types::{DryRunReport, FaultEvent, FaultResult, ResultView};
use vstd::prelude::*;

verus! {

/// The models of events, outcomes and dry-run reports show their fields.
pub proof fn event_models_are_exact(
    a: FaultEvent,
    b: ScenarioEvent,
    r: FaultResult,
    d: DryRunReport,
    c: FaultContext,
)
    ensures
        a@.fault_type == a.fault_type@ && a@.node_id == a.node_id@ && a@.seed == a.seed
            && a@.intensity == a.intensity && a@.dry_run == a.dry_run && a@.timestamp_ms
            == a.timestamp_ms,
        b@.fault_type == b.fault_type@ && b@.node_id == b.node_id@ && b@.seed == b.seed
            && b@.intensity == b.intensity && b@.dry_run == b.dry_run && b@.timestamp_ms
            == b.timestamp_ms,
        match r {
            FaultResult::Injected(e) => r@ == ResultView::Injected(e@),
            FaultResult::Skipped(why) => r@ == ResultView::Skipped(why),
        },
        d@.fault_type == d.fault_type@ && d@.node_id == d.node_id@ && d@.would_inject
            == d.would_inject && d@.reason == d.reason@,
        c@.seed == c.seed && c@.timestamp_ms == c.timestamp_ms && c@.node_id == c.node_id@
            && c@.profile == c.profile.label@,
{
}

/// The model of a report shows its fields, and every event in its place.
pub proof fn report_models_are_exact(report: ScenarioReport, i: int)
    ensures
        report@.name == report.name@,
        report@.seed == report.seed,
        report@.regime == report.regime,
        report@.total_duration_ms == report.total_duration_ms,
        report@.events.len() == report.events@.len(),
        0 <= i < report.events@.len() ==> report@.events[i] == report.events@[i]@,
        event_views(report.events@).len() == report.events@.len(),
{
}

/// The models of a record and of a recorded graph show their fields.
pub proof fn record_models_are_exact(
    record: ScenarioRecord,
    graph: TopologySnapshot,
    edge: TopologyEdgeSnapshot,
    i: int,
)
    ensures
        record@.scenario_name == record.scenario_name@,
        record@.seed == record.seed,
        record@.profile_label == record.profile_label@,
        record@.regime == record.regime,
        record@.fault_sequence.len() == record.fault_sequence@.len(),
        0 <= i < record.fault_sequence@.len() ==> record@.fault_sequence[i]
            == record.fault_sequence@[i]@,
        record@.events.len() == record.events@.len(),
        0 <= i < record.events@.len() ==> record@.events[i] == record.events@[i]@,
        match record.topology {
            Some(t) => record@.topology == Some(t@),
            None => record@.topology is None,
        },
        record@.first_timestamp_ms == record.first_timestamp_ms,
        record@.last_timestamp_ms == record.last_timestamp_ms,
        record@.integrity_tag == record.integrity_tag,
        graph@.name == graph.name@,
        graph@.nodes.len() == graph.nodes@.len(),
        0 <= i < graph.nodes@.len() ==> graph@.nodes[i] == graph.nodes@[i]@,
        graph@.edges.len() == graph.edges@.len(),
        0 <= i < graph.edges@.len() ==> graph@.edges[i] == graph.edges@[i]@,
        edge@.from == edge.from@ && edge@.to == edge.to@ && edge@.weight == edge.weight,
{
}

/// The models of edges, hops and lists of edges show their fields.
pub proof fn graph_models_are_exact(
    edge: Edge,
    hop: PropagationHop,
    edges: Seq<(String, String, Scalar)>,
    i: int,
)
    ensures
        edge@.to == edge.to@ && edge@.weight == edge.weight,
        hop@.from == hop.from@ && hop@.to == hop.to@ && hop@.probability == hop.probability
            && hop@.injected == hop.injected,
        links(edges).len() == edges.len(),
        0 <= i < edges.len() ==> links(edges)[i].from == edges[i].0@ && links(edges)[i].to
            == edges[i].1@ && links(edges)[i].weight == edges[i].2,
{
}

/// The models of a violation and of a budget show their fields.
pub proof fn budget_models_are_exact(v: Violation, list: Seq<Violation>, b: ResilienceBudget, i: int)
    ensures
        v@.rule == v.rule@ && v@.expected == v.expected@ && v@.actual == v.actual@,
        violation_views(list).len() == list.len(),
        0 <= i < list.len() ==> violation_views(list)[i] == list[i]@,
        b@.max_injected_total == b.max_injected_total,
        b@.min_injected_total == b.min_injected_total,
        b@.max_scenario_duration_ms == b.max_scenario_duration_ms,
        match b.max_injected_per_fault_type {
            Some(caps) => b@.max_injected_per_fault_type == Some(caps@),
            None => b@.max_injected_per_fault_type is None,
        },
        match b.require_fault_types {
            Some(names) => b@.require_fault_types matches Some(shown) && shown.len() == names@.len()
                && (0 <= i < names@.len() ==> shown[i] == names@[i]@),
            None => b@.require_fault_types is None,
        },
        match b.forbid_regime {
            Some(regimes) => b@.forbid_regime == Some(regimes@),
            None => b@.forbid_regime is None,
        },
{
}

/// The model of a sample shows its fields, and every label in its place.
pub proof fn sample_models_are_exact(s: MetricSample, i: int)
    ensures
        s@.name == s.name@ && s@.kind == s.kind && s@.value == s.value && s@.unit == s.unit
            && s@.timestamp_ms == s.timestamp_ms,
        s@.labels.len() == s.labels@.len(),
        0 <= i < s.labels@.len() ==> s@.labels[i].0 == s.labels@[i].0@ && s@.labels[i].1
            == s.labels@[i].1@,
        label_views(s.labels@).len() == s.labels@.len(),
{
}

/// The models of the configurations of exporters show their fields.
pub proof fn config_models_are_exact(a: OtelConfig, b: StatsdConfig, i: int)
    ensures
        a@.endpoint == a.endpoint@ && a@.protocol == a.protocol && a@.service_name
            == a.service_name@ && a@.timeout_ns == a.timeout.nanoseconds(),
        a@.headers.len() == a.headers@.len(),
        0 <= i < a.headers@.len() ==> a@.headers[i].0 == a.headers@[i].0@ && a@.headers[i].1
            == a.headers@[i].1@,
        b@.host == b.host@ && b@.port == b.port && b@.prefix == b.prefix@ && b@.dialect
            == b.dialect && b@.max_packet_bytes == b.max_packet_bytes && b@.timeout_ns
            == b.timeout.nanoseconds(),
        b@.constant_tags.len() == b.constant_tags@.len(),
        0 <= i < b.constant_tags@.len() ==> b@.constant_tags[i].0 == b.constant_tags@[i].0@
            && b@.constant_tags[i].1 == b.constant_tags@[i].1@,
        pair_views(a.headers@).len() == a.headers@.len(),
{
}

/// The model of the arguments shows their fields.
pub proof fn argument_models_are_exact(a: Args)
    ensures
        a@.list_presets == a.list_presets && a@.help == a.help && a@.seed == a.seed && a@.node
            == a.node@ && a@.dry_run == a.dry_run && a@.fail_fast == a.fail_fast,
        a@.assert_min_injected == a.assert_min_injected,
        a@.assert_max_injected == a.assert_max_injected,
        a.preset matches Some(s) ==> a@.preset == Some(s@),
        a.preset is None ==> a@.preset is None,
        a.profile matches Some(s) ==> a@.profile == Some(s@),
        a.profile is None ==> a@.profile is None,
        a.output matches Some(s) ==> a@.output == Some(s@),
        a.output is None ==> a@.output is None,
        a.record matches Some(s) ==> a@.record == Some(s@),
        a.record is None ==> a@.record is None,
        a.budget matches Some(s) ==> a@.budget == Some(s@),
        a.budget is None ==> a@.budget is None,
        a.junit matches Some(s) ==> a@.junit == Some(s@),
        a.junit is None ==> a@.junit is None,
        a.sarif matches Some(s) ==> a@.sarif == Some(s@),
        a.sarif is None ==> a@.sarif is None,
{
}

/// The model of the fields of a trace event shows them.
pub proof fn field_models_are_exact(f: EventFields)
    ensures
        f.fault_type matches Some(s) ==> f@.fault_type == Some(s@),
        f.fault_type is None ==> f@.fault_type is None,
        f.node_id matches Some(s) ==> f@.node_id == Some(s@),
        f.node_id is None ==> f@.node_id is None,
        f@.seed == f.seed && f@.intensity == f.intensity && f@.dry_run == f.dry_run
            && f@.timestamp_ms == f.timestamp_ms,
{
}

/// The models of an evaluation, of a corruption and of the pieces of a message show their
/// fields.
pub proof fn other_models_are_exact(
    t: TraceEntry,
    c: CorruptionStrategy,
    m: Message,
    texts: Seq<String>,
    weights: Seq<(String, Scalar)>,
    i: int,
)
    ensures
        t@.config == t.config.params@ && t@.score == t.score && t@.iteration == t.iteration,
        match c {
            CorruptionStrategy::BitFlip { num_bits } => c@ == (StrategyView::BitFlip { num_bits }),
            CorruptionStrategy::FieldSubstitution { offset, replacement } => c@ == (
            StrategyView::FieldSubstitution { offset, replacement: replacement@ }),
            CorruptionStrategy::StructuralCorruption { fill_byte } => c@ == (
            StrategyView::StructuralCorruption { fill_byte }),
        },
        m@.len() == m.parts@.len(),
        0 <= i < m.parts@.len() ==> m@[i] == m.parts@[i]@,
        0 <= i < m.parts@.len() ==> (m.parts@[i] matches Part::Text(s) ==> m@[i] == PartView::Text(
            s@,
        )),
        0 <= i < m.parts@.len() ==> (m.parts@[i] matches Part::Fixed { value, decimals } ==> m@[i]
            == PartView::Fixed { value, decimals }),
        0 <= i < m.parts@.len() ==> (m.parts@[i] matches Part::Percent { value, decimals } ==> m@[i]
            == PartView::Percent { value, decimals }),
        0 <= i < m.parts@.len() ==> (m.parts@[i] matches Part::BoundedPercent { value } ==> m@[i]
            == PartView::BoundedPercent { value }),
        0 <= i < m.parts@.len() ==> (m.parts@[i] matches Part::Share { ratio, whole } ==> m@[i]
            == PartView::Share { ratio, whole }),
        0 <= i < m.parts@.len() ==> (m.parts@[i] matches Part::Sampled { sample, decimals } ==> m@[i]
            == PartView::Sampled { sample, decimals }),
        views(texts).len() == texts.len(),
        0 <= i < texts.len() ==> views(texts)[i] == texts[i]@,
        weight_views(weights).len() == weights.len(),
        0 <= i < weights.len() ==> weight_views(weights)[i] == (weights[i].0@, weights[i].1),
{
}

/// The model of a JSON value shows it: the elements of an array and the members of an object
/// in order, each by its own model.
pub proof fn json_models_are_exact(json: Json, i: int)
    ensures
        match json {
            Json::Bool(b) => json.model() == JsonView::Bool(b),
            Json::Number(n) => json.model() == JsonView::Number(n),
            Json::Text(s) => json.model() == JsonView::Text(s@),
            Json::List(items) => json.model() matches JsonView::List(shown) && shown.len()
                == items@.len() && (0 <= i < items@.len() ==> shown[i] == items@[i].model()),
            Json::Object(members) => json.model() matches JsonView::Object(shown) && shown.len()
                == members@.len() && (0 <= i < members@.len() ==> shown[i].0 == members@[i].0@
                && shown[i].1 == members@[i].1.model()),
        },
{
}

} // verus!
