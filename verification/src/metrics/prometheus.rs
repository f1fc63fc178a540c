//! What the Prometheus exporter registers, and how a sample reaches a series.
//!
//! Node identifiers are chosen by users, so that they can drive the number of time
//! series up without bound. A recorder can drop that label.

use crate::metrics::{
    copy_labels, label_views, update_for, update_of, MetricKind, MetricSample, SampleView, Series,
    UnknownNames, Update, FAULTS_INJECTED_TOTAL, FAULTS_SKIPPED_TOTAL, FAULT_INTENSITY,
    FAULT_LATENCY_MS, SCENARIO_DURATION_MS,
};
use crate::metrics::{fault_samples, is_duration_sample, skipped_sample};
use crate::scenario::ScenarioRegime;
use crate::text;
use crate::types::{EventView, SkipReason};
use vstd::prelude::*;

verus! {

/// One metric as it is registered.
#[derive(Debug, PartialEq, Eq)]
pub struct Family {
    /// The series.
    pub series: Series,
    /// Help text.
    pub help: &'static str,
    /// Names of the labels, in the order in which values are given.
    pub labels: Vec<&'static str>,
}

/// Models of a list of label names.
pub open spec fn name_views(names: Seq<&'static str>) -> Seq<Seq<char>> {
    Seq::new(names.len(), |i: int| names[i]@)
}

/// Help text of a series.
pub open spec fn help_text(series: Series) -> Seq<char> {
    match series {
        Series::FaultsInjected => "Total faults successfully injected."@,
        Series::FaultsSkipped => "Total faults skipped."@,
        Series::FaultIntensity => "Last observed intensity per (fault_type, node_id)."@,
        Series::FaultLatency => "Fault-reported latency (ms)."@,
        Series::ScenarioDuration => "Scenario wall-clock duration (ms)."@,
    }
}

/// Label names of a series, with or without the node.
pub open spec fn label_names(series: Series, drop_node_id: bool) -> Seq<Seq<char>> {
    match series {
        Series::FaultsInjected => if drop_node_id {
            seq!["fault_type"@, "scenario"@, "regime"@, "dry_run"@]
        } else {
            seq!["fault_type"@, "node_id"@, "scenario"@, "regime"@, "dry_run"@]
        },
        Series::FaultsSkipped => if drop_node_id {
            seq!["fault_type"@, "scenario"@, "skip_reason"@]
        } else {
            seq!["fault_type"@, "node_id"@, "scenario"@, "skip_reason"@]
        },
        Series::FaultIntensity => if drop_node_id {
            seq!["fault_type"@, "scenario"@]
        } else {
            seq!["fault_type"@, "node_id"@, "scenario"@]
        },
        Series::FaultLatency => if drop_node_id {
            seq!["fault_type"@]
        } else {
            seq!["fault_type"@, "node_id"@]
        },
        Series::ScenarioDuration => seq!["scenario"@, "regime"@],
    }
}

/// True if `family` describes `series`.
pub open spec fn is_family(family: Family, series: Series, drop_node_id: bool) -> bool {
    &&& family.series == series
    &&& family.help@ == help_text(series)
    &&& name_views(family.labels@) == label_names(series, drop_node_id)
}

fn labels_for(series: Series, drop_node_id: bool) -> (r: Vec<&'static str>)
    ensures
        name_views(r@) == label_names(series, drop_node_id),
{
    let mut r: Vec<&'static str> = Vec::new();
    match series {
        Series::ScenarioDuration => {
            r.push("scenario");
        },
        _ => {
            r.push("fault_type");
            if !drop_node_id {
                r.push("node_id");
            }
        },
    }
    match series {
        Series::FaultsInjected => {
            r.push("scenario");
            r.push("regime");
            r.push("dry_run");
        },
        Series::FaultsSkipped => {
            r.push("scenario");
            r.push("skip_reason");
        },
        Series::FaultIntensity => {
            r.push("scenario");
        },
        Series::FaultLatency => {},
        Series::ScenarioDuration => {
            r.push("regime");
        },
    }
    assert(name_views(r@) =~= label_names(series, drop_node_id));
    r
}

fn family_of(series: Series, drop_node_id: bool) -> (r: Family)
    ensures
        is_family(r, series, drop_node_id),
{
    let help: &'static str = match series {
        Series::FaultsInjected => "Total faults successfully injected.",
        Series::FaultsSkipped => "Total faults skipped.",
        Series::FaultIntensity => "Last observed intensity per (fault_type, node_id).",
        Series::FaultLatency => "Fault-reported latency (ms).",
        Series::ScenarioDuration => "Scenario wall-clock duration (ms).",
    };
    Family { series, help, labels: labels_for(series, drop_node_id) }
}

/// `labels` without those of the node.
pub open spec fn without_node(labels: Seq<(Seq<char>, Seq<char>)>) -> Seq<(Seq<char>, Seq<char>)>
    decreases labels.len(),
{
    if labels.len() == 0 {
        Seq::empty()
    } else if labels.last().0 == "node_id"@ {
        without_node(labels.drop_last())
    } else {
        without_node(labels.drop_last()).push(labels.last())
    }
}

/// The labels of a sample that are handed on.
pub open spec fn kept_labels(
    series: Series,
    labels: Seq<(Seq<char>, Seq<char>)>,
    drop_node_id: bool,
) -> Seq<(Seq<char>, Seq<char>)> {
    if drop_node_id && series != Series::ScenarioDuration {
        without_node(labels)
    } else {
        labels
    }
}

/// The keys of a list of labels.
pub open spec fn keys(labels: Seq<(Seq<char>, Seq<char>)>) -> Seq<Seq<char>> {
    Seq::new(labels.len(), |i: int| labels[i].0)
}

/// The values of a list of labels.
pub open spec fn values(labels: Seq<(Seq<char>, Seq<char>)>) -> Seq<Seq<char>> {
    Seq::new(labels.len(), |i: int| labels[i].1)
}

/// How a sample reaches a series.
#[derive(Debug, PartialEq, Eq)]
pub enum Route {
    /// The series with these label values is updated.
    Deliver {
        /// The series.
        series: Series,
        /// Label values in the order of the label names.
        labels: Vec<String>,
        /// What happens to the series.
        update: Update,
    },
    /// The number of labels is not that of the series: the sample is skipped.
    Misfit,
    /// No series has this name: the sample is skipped. The name is reported the
    /// first time only.
    Unknown {
        /// True the first time that this name came.
        first: bool,
    },
}

/// The label part and the warning part of a Prometheus recorder.
#[derive(Debug)]
pub struct PrometheusRecorder {
    drop_node_id: bool,
    unknown: UnknownNames,
}

impl Default for PrometheusRecorder {
    fn default() -> (r: Self)
        ensures
            !r.drops_node_id(),
            r.reported() == Set::<Seq<char>>::empty(),
    {
        PrometheusRecorder::new()
    }
}

impl PrometheusRecorder {
    /// True if the node label is dropped.
    pub closed spec fn drops_node_id(self) -> bool {
        self.drop_node_id
    }

    /// The unknown names reported so far.
    pub closed spec fn reported(self) -> Set<Seq<char>> {
        self.unknown.reported()
    }

    /// A recorder that keeps every label.
    pub fn new() -> (r: Self)
        ensures
            !r.drops_node_id(),
            r.reported() == Set::<Seq<char>>::empty(),
    {
        PrometheusRecorder::with_options(false)
    }

    /// A recorder that drops the node label from every series.
    pub fn dropping_high_cardinality_labels() -> (r: Self)
        ensures
            r.drops_node_id(),
            r.reported() == Set::<Seq<char>>::empty(),
    {
        PrometheusRecorder::with_options(true)
    }

    fn with_options(drop_node_id: bool) -> (r: Self)
        ensures
            r.drops_node_id() == drop_node_id,
            r.reported() == Set::<Seq<char>>::empty(),
    {
        PrometheusRecorder { drop_node_id, unknown: UnknownNames::new() }
    }

    /// The metrics to register.
    pub fn registry(&self) -> (r: Vec<Family>)
        ensures
            r@.len() == 5,
            is_family(r@[0], Series::FaultsInjected, self.drops_node_id()),
            is_family(r@[1], Series::FaultsSkipped, self.drops_node_id()),
            is_family(r@[2], Series::FaultIntensity, self.drops_node_id()),
            is_family(r@[3], Series::FaultLatency, self.drops_node_id()),
            is_family(r@[4], Series::ScenarioDuration, self.drops_node_id()),
    {
        let mut r: Vec<Family> = Vec::new();
        r.push(family_of(Series::FaultsInjected, self.drop_node_id));
        r.push(family_of(Series::FaultsSkipped, self.drop_node_id));
        r.push(family_of(Series::FaultIntensity, self.drop_node_id));
        r.push(family_of(Series::FaultLatency, self.drop_node_id));
        r.push(family_of(Series::ScenarioDuration, self.drop_node_id));
        r
    }

    fn drop_node(
        &self,
        series: Series,
        labels: &Vec<(&'static str, String)>,
    ) -> (out: Vec<(&'static str, String)>)
        ensures
            label_views(out@) == kept_labels(
                series,
                label_views(labels@),
                self.drops_node_id(),
            ),
    {
        if !self.drop_node_id || series == Series::ScenarioDuration {
            return copy_labels(labels);
        }
        let ghost all = label_views(labels@);
        let mut out: Vec<(&'static str, String)> = Vec::new();
        let mut i: usize = 0;
        assert(all.take(0) =~= Seq::empty());
        assert(label_views(out@) =~= Seq::empty());
        while i < labels.len()
            invariant
                i <= labels@.len(),
                all == label_views(labels@),
                label_views(out@) == without_node(all.take(i as int)),
            decreases labels@.len() - i,
        {
            let ghost before = label_views(out@);
            proof {
                assert(all.take(i + 1).drop_last() =~= all.take(i as int));
            }
            if !text::same(labels[i].0, "node_id") {
                out.push((labels[i].0, labels[i].1.clone()));
                assert(label_views(out@) =~= before.push(all[i as int]));
            }
            i += 1;
        }
        assert(all.take(all.len() as int) =~= all);
        out
    }

    /// Decides what a sample does.
    pub fn route(&mut self, sample: &MetricSample) -> (r: Route)
        ensures
            final(self).drops_node_id() == old(self).drops_node_id(),
            match r {
                Route::Deliver { series, labels, update } => {
                    let kept = kept_labels(series, sample@.labels, old(self).drops_node_id());
                    &&& series.title() == sample@.name
                    &&& text::views(labels@) == values(kept)
                    &&& kept.len() == label_names(series, old(self).drops_node_id()).len()
                    &&& update == update_of(series.sort(), sample@.value)
                    &&& final(self).reported() == old(self).reported()
                },
                Route::Misfit => {
                    &&& exists|series: Series|
                        {
                            &&& #[trigger] series.title() == sample@.name
                            &&& kept_labels(
                                series,
                                sample@.labels,
                                old(self).drops_node_id(),
                            ).len() != label_names(series, old(self).drops_node_id()).len()
                        }
                    &&& final(self).reported() == old(self).reported()
                },
                Route::Unknown { first } => {
                    &&& forall|series: Series| (#[trigger] series.title()) != sample@.name
                    &&& first == !old(self).reported().contains(sample@.name)
                    &&& final(self).reported() == old(self).reported().insert(sample@.name)
                },
            },
    {
        match Series::named(sample.name) {
            Some(series) => {
                let labels = self.drop_node(series, &sample.labels);
                let names = labels_for(series, self.drop_node_id);
                if labels.len() != names.len() {
                    assert(series.title() == sample@.name);
                    assert(label_views(labels@).len() == labels@.len());
                    assert(name_views(names@).len() == names@.len());
                    return Route::Misfit;
                }
                let mut taken: Vec<String> = Vec::new();
                let mut i: usize = 0;
                while i < labels.len()
                    invariant
                        i <= labels@.len(),
                        taken@.len() == i,
                        forall|j: int| 0 <= j < i ==> (#[trigger] taken@[j])@ == labels@[j].1@,
                    decreases labels@.len() - i,
                {
                    taken.push(labels[i].1.clone());
                    i += 1;
                }
                proof {
                    assert(text::views(taken@) =~= values(label_views(labels@)));
                    assert(label_views(labels@).len() == labels@.len());
                    assert(name_views(names@).len() == names@.len());
                }
                Route::Deliver {
                    series,
                    labels: taken,
                    update: update_for(series.kind(), sample.value),
                }
            },
            None => {
                let first = self.unknown.warn_once(sample.name);
                Route::Unknown { first }
            },
        }
    }
}

/// Once the node label is dropped, no label of the node is left.
pub proof fn no_node_is_left(labels: Seq<(Seq<char>, Seq<char>)>)
    ensures
        forall|i: int|
            0 <= i < without_node(labels).len() ==> (#[trigger] without_node(labels)[i]).0
                != "node_id"@,
    decreases labels.len(),
{
    if labels.len() > 0 {
        let front = without_node(labels.drop_last());
        no_node_is_left(labels.drop_last());
        assert forall|i: int| 0 <= i < without_node(labels).len() implies (
        #[trigger] without_node(labels)[i]).0 != "node_id"@ by {
            if i < front.len() {
                assert(without_node(labels)[i] == front[i]);
            }
        }
    }
}

proof fn label_keys_differ()
    ensures
        "fault_type"@ != "node_id"@,
        "scenario"@ != "node_id"@,
        "regime"@ != "node_id"@,
        "dry_run"@ != "node_id"@,
        "skip_reason"@ != "node_id"@,
{
    reveal_strlit("fault_type");
    reveal_strlit("node_id");
    reveal_strlit("scenario");
    reveal_strlit("regime");
    reveal_strlit("dry_run");
    reveal_strlit("skip_reason");
    assert("node_id"@[0] == 'n');
    assert("fault_type"@[0] == 'f');
    assert("scenario"@[0] == 's');
    assert("regime"@[0] == 'r');
    assert("dry_run"@[0] == 'd');
    assert("skip_reason"@[0] == 's');
}

/// The samples of a fault carry the labels that their series are registered with,
/// in that order, whether the node label is dropped or not.
pub proof fn fault_samples_fit(
    event: EventView,
    scenario: Seq<char>,
    regime: ScenarioRegime,
    timestamp_ms: u64,
    drop_node_id: bool,
)
    ensures
        keys(
            kept_labels(
                Series::FaultsInjected,
                fault_samples(event, scenario, regime, timestamp_ms)[0].labels,
                drop_node_id,
            ),
        ) == label_names(Series::FaultsInjected, drop_node_id),
        keys(
            kept_labels(
                Series::FaultIntensity,
                fault_samples(event, scenario, regime, timestamp_ms)[1].labels,
                drop_node_id,
            ),
        ) == label_names(Series::FaultIntensity, drop_node_id),
{
    label_keys_differ();
    reveal_with_fuel(without_node, 6);
    let a = fault_samples(event, scenario, regime, timestamp_ms)[0].labels;
    let b = fault_samples(event, scenario, regime, timestamp_ms)[1].labels;
    assert(keys(kept_labels(Series::FaultsInjected, a, drop_node_id)) =~= label_names(
        Series::FaultsInjected,
        drop_node_id,
    ));
    assert(keys(kept_labels(Series::FaultIntensity, b, drop_node_id)) =~= label_names(
        Series::FaultIntensity,
        drop_node_id,
    ));
}

/// The sample of a skipped fault carries the labels that its series is registered
/// with, in that order.
pub proof fn skipped_sample_fits(
    fault_type: Seq<char>,
    node_id: Seq<char>,
    scenario: Seq<char>,
    reason: SkipReason,
    timestamp_ms: u64,
    drop_node_id: bool,
)
    ensures
        keys(
            kept_labels(
                Series::FaultsSkipped,
                skipped_sample(fault_type, node_id, scenario, reason, timestamp_ms).labels,
                drop_node_id,
            ),
        ) == label_names(Series::FaultsSkipped, drop_node_id),
{
    label_keys_differ();
    reveal_with_fuel(without_node, 5);
    let a = skipped_sample(fault_type, node_id, scenario, reason, timestamp_ms).labels;
    assert(keys(kept_labels(Series::FaultsSkipped, a, drop_node_id)) =~= label_names(
        Series::FaultsSkipped,
        drop_node_id,
    ));
}

/// The duration sample of a report carries the labels that its series is
/// registered with, in that order.
pub proof fn duration_sample_fits(
    sample: SampleView,
    name: Seq<char>,
    regime: ScenarioRegime,
    total_duration_ms: u64,
    drop_node_id: bool,
)
    requires
        is_duration_sample(sample, name, regime, total_duration_ms),
    ensures
        keys(kept_labels(Series::ScenarioDuration, sample.labels, drop_node_id)) == label_names(
            Series::ScenarioDuration,
            drop_node_id,
        ),
{
    assert(keys(sample.labels) =~= label_names(Series::ScenarioDuration, drop_node_id));
}

} // verus!
