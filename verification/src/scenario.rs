//! Named bundles of faults that share a seed and a profile.

use crate::fault::{ContextView, Fault, FaultContext};
use crate::faults::any::{AnyFault, IntoFault};
use crate::scalar::Scalar;
use crate::topology::Topology;
use crate::types::{
    BifurcationProfile, DryRunReport, EventView, FaultEvent, FaultResult, ResultView,
};
use vstd::prelude::*;

verus! {

/// Operating region of the system under test.
#[derive(Clone, Copy, Debug, PartialEq, Eq, Structural)]
pub enum ScenarioRegime {
    /// Stable operating region.
    Stable,
    /// Near-threshold operating region.
    Sensitive,
    /// Chaotic operating region.
    Chaotic,
}

impl ScenarioRegime {
    /// The name of the region.
    pub open spec fn label(self) -> Seq<char> {
        match self {
            ScenarioRegime::Stable => "Stable"@,
            ScenarioRegime::Sensitive => "Sensitive"@,
            ScenarioRegime::Chaotic => "Chaotic"@,
        }
    }

    /// The name of the region.
    pub fn show(self) -> (r: &'static str)
        ensures
            r@ == self.label(),
    {
        match self {
            ScenarioRegime::Stable => "Stable",
            ScenarioRegime::Sensitive => "Sensitive",
            ScenarioRegime::Chaotic => "Chaotic",
        }
    }
}

/// One injected fault as a report lists it.
#[derive(Debug, PartialEq, Eq)]
pub struct ScenarioEvent {
    /// Identifier for the kind of fault.
    pub fault_type: String,
    /// Identifier of the targeted node.
    pub node_id: String,
    /// Seed used for deterministic replay.
    pub seed: u64,
    /// Normalised fault intensity.
    pub intensity: Scalar,
    /// Whether this event came from dry-run mode.
    pub dry_run: bool,
    /// Event timestamp in milliseconds.
    pub timestamp_ms: u64,
}

impl View for ScenarioEvent {
    type V = EventView;

    open spec fn view(&self) -> EventView {
        EventView {
            fault_type: self.fault_type@,
            node_id: self.node_id@,
            seed: self.seed,
            intensity: self.intensity,
            dry_run: self.dry_run,
            timestamp_ms: self.timestamp_ms,
        }
    }
}

impl Clone for ScenarioEvent {
    fn clone(&self) -> (r: Self)
        ensures
            r == *self,
    {
        ScenarioEvent {
            fault_type: self.fault_type.clone(),
            node_id: self.node_id.clone(),
            seed: self.seed,
            intensity: self.intensity,
            dry_run: self.dry_run,
            timestamp_ms: self.timestamp_ms,
        }
    }
}

impl ScenarioEvent {
    /// The report entry of a fault event.
    pub fn of(event: FaultEvent) -> (r: Self)
        ensures
            r@ == event@,
    {
        ScenarioEvent {
            fault_type: event.fault_type,
            node_id: event.node_id,
            seed: event.seed,
            intensity: event.intensity,
            dry_run: event.dry_run,
            timestamp_ms: event.timestamp_ms,
        }
    }
}

/// Models of a list of report entries.
pub open spec fn event_views(events: Seq<ScenarioEvent>) -> Seq<EventView> {
    Seq::new(events.len(), |i: int| events[i]@)
}

/// Full report of one run.
#[derive(Debug, PartialEq, Eq)]
pub struct ScenarioReport {
    /// Scenario name.
    pub name: String,
    /// Scenario seed.
    pub seed: u64,
    /// Operating region that the observed intensity falls into.
    pub regime: ScenarioRegime,
    /// Injected faults in execution order.
    pub events: Vec<ScenarioEvent>,
    /// Wall time of the run in milliseconds.
    pub total_duration_ms: u64,
}

/// Model of a report.
pub struct ReportView {
    pub name: Seq<char>,
    pub seed: u64,
    pub regime: ScenarioRegime,
    pub events: Seq<EventView>,
    pub total_duration_ms: u64,
}

impl View for ScenarioReport {
    type V = ReportView;

    open spec fn view(&self) -> ReportView {
        ReportView {
            name: self.name@,
            seed: self.seed,
            regime: self.regime,
            events: event_views(self.events@),
            total_duration_ms: self.total_duration_ms,
        }
    }
}

impl Clone for ScenarioReport {
    fn clone(&self) -> (r: Self)
        ensures
            r@ == self@,
    {
        let events: Vec<ScenarioEvent> = self.events.clone();
        assert(event_views(events@) =~= event_views(self.events@));
        ScenarioReport {
            name: self.name.clone(),
            seed: self.seed,
            regime: self.regime,
            events,
            total_duration_ms: self.total_duration_ms,
        }
    }
}

/// Dry-run report of a whole scenario.
#[derive(Debug, PartialEq, Eq)]
pub struct ScenarioDryRunReport {
    /// Scenario name.
    pub name: String,
    /// Scenario seed.
    pub seed: u64,
    /// Report of each fault in execution order.
    pub fault_reports: Vec<DryRunReport>,
    /// True if at least one fault would be injected.
    pub would_inject_any: bool,
}

impl Clone for ScenarioDryRunReport {
    fn clone(&self) -> (r: Self)
        ensures
            r.name == self.name,
            r.seed == self.seed,
            r.fault_reports@.len() == self.fault_reports@.len(),
            forall|i: int|
                0 <= i < r.fault_reports@.len() ==> (#[trigger] r.fault_reports@[i])@
                    == self.fault_reports@[i]@,
            r.would_inject_any == self.would_inject_any,
    {
        ScenarioDryRunReport {
            name: self.name.clone(),
            seed: self.seed,
            fault_reports: self.fault_reports.clone(),
            would_inject_any: self.would_inject_any,
        }
    }
}

/// Models of a list of outcomes.
pub open spec fn result_views(results: Seq<FaultResult>) -> Seq<ResultView> {
    Seq::new(results.len(), |i: int| results[i]@)
}

/// The events of the outcomes that are injections, in order.
pub open spec fn injected_events(results: Seq<ResultView>) -> Seq<EventView>
    decreases results.len(),
{
    if results.len() == 0 {
        Seq::empty()
    } else {
        match results.last() {
            ResultView::Injected(event) => injected_events(results.drop_last()).push(event),
            ResultView::Skipped(_) => injected_events(results.drop_last()),
        }
    }
}

/// The largest intensity among `events`, or zero if none is above zero.
pub open spec fn peak_intensity(events: Seq<EventView>) -> Scalar
    decreases events.len(),
{
    if events.len() == 0 {
        Scalar { bits: 0 }
    } else {
        let front = peak_intensity(events.drop_last());
        if front.below(events.last().intensity) {
            events.last().intensity
        } else {
            front
        }
    }
}

/// No intensity lies above the peak, and the peak is zero or one of the
/// intensities.
pub proof fn peak_is_largest(events: Seq<EventView>)
    ensures
        forall|i: int|
            0 <= i < events.len() ==> !peak_intensity(events).below(
                (#[trigger] events[i]).intensity,
            ),
        !peak_intensity(events).below(Scalar { bits: 0 }),
        !peak_intensity(events).is_nan(),
        peak_intensity(events) == (Scalar { bits: 0 }) || exists|i: int|
            0 <= i < events.len() && (#[trigger] events[i]).intensity == peak_intensity(events),
    decreases events.len(),
{
    if events.len() > 0 {
        let front = events.drop_last();
        peak_is_largest(front);
        assert forall|i: int| 0 <= i < events.len() implies !peak_intensity(events).below(
            (#[trigger] events[i]).intensity,
        ) by {
            if i < front.len() {
                assert(front[i] == events[i]);
            }
        }
        if !peak_intensity(front).below(events.last().intensity) {
            if peak_intensity(front) != (Scalar { bits: 0 }) {
                let i = choose|i: int|
                    0 <= i < front.len() && (#[trigger] front[i]).intensity == peak_intensity(
                        front,
                    );
                assert(events[i] == front[i]);
            }
        } else {
            assert(events[events.len() - 1].intensity == peak_intensity(events));
        }
    }
}

/// What the injections of a run have given, before the operating region is known.
#[derive(Debug, PartialEq, Eq)]
pub struct ScenarioRun {
    /// Scenario name.
    pub name: String,
    /// Scenario seed.
    pub seed: u64,
    /// Injected faults in execution order.
    pub events: Vec<ScenarioEvent>,
    /// Largest intensity among them, or zero; the region is classified by it.
    pub max_intensity: Scalar,
}

impl ScenarioRun {
    /// The report of this run.
    pub fn into_report(self, regime: ScenarioRegime, total_duration_ms: u64) -> (r: ScenarioReport)
        ensures
            r@ == (ReportView {
                name: self.name@,
                seed: self.seed,
                regime,
                events: event_views(self.events@),
                total_duration_ms,
            }),
    {
        ScenarioReport {
            name: self.name,
            seed: self.seed,
            regime,
            events: self.events,
            total_duration_ms,
        }
    }
}

/// Collects the injected events of a list of outcomes, and their peak intensity.
pub fn tally(results: Vec<FaultResult>) -> (r: (Vec<ScenarioEvent>, Scalar))
    ensures
        event_views(r.0@) == injected_events(result_views(results@)),
        r.1 == peak_intensity(injected_events(result_views(results@))),
{
    let mut events: Vec<ScenarioEvent> = Vec::new();
    let mut max_intensity: Scalar = Scalar::zero();
    let ghost all = result_views(results@);
    let mut i: usize = 0;
    assert(all.take(0) =~= Seq::empty());
    assert(event_views(events@) =~= Seq::empty());
    while i < results.len()
        invariant
            i <= results@.len(),
            all == result_views(results@),
            event_views(events@) == injected_events(all.take(i as int)),
            max_intensity == peak_intensity(injected_events(all.take(i as int))),
        decreases results@.len() - i,
    {
        let ghost before = event_views(events@);
        proof {
            assert(all.take(i + 1).drop_last() =~= all.take(i as int));
            assert(all.take(i + 1).last() == results@[i as int]@);
        }
        match &results[i] {
            FaultResult::Injected(event) => {
                if max_intensity.less(event.intensity) {
                    max_intensity = event.intensity;
                }
                let entry = ScenarioEvent::of(event.clone());
                events.push(entry);
                proof {
                    assert(event_views(events@) =~= before.push(event@));
                    assert(before.push(event@).drop_last() =~= before);
                }
            },
            FaultResult::Skipped(_) => {},
        }
        i += 1;
    }
    assert(all.take(all.len() as int) =~= all);
    (events, max_intensity)
}

/// A named bundle of faults.
pub struct ChaosScenario {
    name: String,
    seed: u64,
    faults: Vec<AnyFault>,
    profile: BifurcationProfile,
    topology: Option<Topology>,
}

impl ChaosScenario {
    /// The name.
    pub closed spec fn title(self) -> Seq<char> {
        self.name@
    }

    /// The seed that all faults are run with.
    pub closed spec fn shared_seed(self) -> u64 {
        self.seed
    }

    /// The faults in execution order.
    pub closed spec fn members(self) -> Seq<AnyFault> {
        self.faults@
    }

    /// The profile that all faults are run with.
    pub closed spec fn stability(self) -> BifurcationProfile {
        self.profile
    }

    /// The attached graph.
    pub closed spec fn graph(self) -> Option<Topology> {
        self.topology
    }

    /// The context that each fault is run in: node and time of `ctx`, seed and
    /// profile of the scenario.
    pub open spec fn fault_context(self, ctx: ContextView) -> ContextView {
        ContextView {
            seed: self.shared_seed(),
            timestamp_ms: ctx.timestamp_ms,
            node_id: ctx.node_id,
            profile: self.stability().label@,
        }
    }

    /// True if `results` are possible outcomes of injecting all faults in order.
    pub open spec fn outcomes(self, ctx: ContextView, results: Seq<ResultView>) -> bool {
        &&& results.len() == self.members().len()
        &&& forall|i: int|
            0 <= i < results.len() ==> self.members()[i].injects(
                self.fault_context(ctx),
                #[trigger] results[i],
            )
    }

    fn context_for(&self, ctx: &FaultContext) -> (r: FaultContext)
        ensures
            r@ == self.fault_context(ctx@),
    {
        FaultContext {
            seed: self.seed,
            timestamp_ms: ctx.timestamp_ms,
            node_id: ctx.node_id.clone(),
            profile: self.profile,
        }
    }

    /// The name.
    pub fn name(&self) -> (r: &str)
        ensures
            r@ == self.title(),
    {
        self.name.as_str()
    }

    /// The seed.
    pub fn seed(&self) -> (r: u64)
        ensures
            r == self.shared_seed(),
    {
        self.seed
    }

    /// The profile.
    pub fn profile(&self) -> (r: BifurcationProfile)
        ensures
            r == self.stability(),
    {
        self.profile
    }

    /// The attached graph, if there is one.
    pub fn topology(&self) -> (r: Option<&Topology>)
        ensures
            match r {
                Some(t) => self.graph() == Some(*t),
                None => self.graph() is None,
            },
    {
        match &self.topology {
            Some(t) => Some(t),
            None => None,
        }
    }

    /// Number of faults.
    pub fn fault_count(&self) -> (n: usize)
        ensures
            n == self.members().len(),
    {
        self.faults.len()
    }

    /// The fault at `i`.
    pub fn fault_at(&self, i: usize) -> (r: &AnyFault)
        requires
            i < self.members().len(),
        ensures
            *r == self.members()[i as int],
    {
        &self.faults[i]
    }

    /// Injects the fault at `i`.
    pub fn inject_at(&self, i: usize, ctx: &FaultContext) -> (r: FaultResult)
        requires
            i < self.members().len(),
        ensures
            self.members()[i as int].injects(self.fault_context(ctx@), r@),
    {
        let fault_ctx: FaultContext = self.context_for(ctx);
        self.faults[i].inject(&fault_ctx)
    }

    /// Collects what the injections of a run gave.
    pub fn gather(&self, results: Vec<FaultResult>) -> (r: ScenarioRun)
        ensures
            r.name@ == self.title(),
            r.seed == self.shared_seed(),
            event_views(r.events@) == injected_events(result_views(results@)),
            r.max_intensity == peak_intensity(injected_events(result_views(results@))),
    {
        let (events, max_intensity) = tally(results);
        ScenarioRun { name: self.name.clone(), seed: self.seed, events, max_intensity }
    }

    /// Injects all faults in order.
    pub fn inject_all(&self, ctx: &FaultContext) -> (r: Vec<FaultResult>)
        ensures
            self.outcomes(ctx@, result_views(r@)),
    {
        let mut results: Vec<FaultResult> = Vec::new();
        let mut i: usize = 0;
        while i < self.faults.len()
            invariant
                i <= self.faults@.len(),
                results@.len() == i,
                forall|j: int|
                    0 <= j < i ==> self.faults@[j].injects(
                        self.fault_context(ctx@),
                        #[trigger] results@[j]@,
                    ),
            decreases self.faults@.len() - i,
        {
            results.push(self.inject_at(i, ctx));
            i += 1;
        }
        proof {
            let all = result_views(results@);
            assert forall|j: int| 0 <= j < all.len() implies self.members()[j].injects(
                self.fault_context(ctx@),
                #[trigger] all[j],
            ) by {
                assert(all[j] == results@[j]@);
            }
        }
        results
    }

    /// The identifier of the fault at `i`.
    pub fn kind_at(&self, i: usize) -> (r: &'static str)
        requires
            i < self.members().len(),
        ensures
            self.members()[i as int].is_kind(r@),
    {
        self.faults[i].fault_type()
    }

    /// Injects all faults in order and collects what they gave.
    pub fn run(&self, ctx: &mut FaultContext) -> (r: ScenarioRun)
        ensures
            *final(ctx) == *old(ctx),
            r.name@ == self.title(),
            r.seed == self.shared_seed(),
            exists|results: Seq<ResultView>|
                {
                    &&& #[trigger] self.outcomes(old(ctx)@, results)
                    &&& event_views(r.events@) == injected_events(results)
                    &&& r.max_intensity == peak_intensity(injected_events(results))
                },
    {
        let results = self.inject_all(ctx);
        self.gather(results)
    }

    /// Dry-runs all faults in order.
    pub fn dry_run(&self, ctx: &FaultContext) -> (r: ScenarioDryRunReport)
        ensures
            r.name@ == self.title(),
            r.seed == self.shared_seed(),
            r.fault_reports@.len() == self.members().len(),
            forall|i: int|
                0 <= i < r.fault_reports@.len() ==> self.members()[i].previews(
                    self.fault_context(ctx@),
                    #[trigger] r.fault_reports@[i]@,
                ),
            r.would_inject_any <==> exists|i: int|
                0 <= i < r.fault_reports@.len() && (#[trigger] r.fault_reports@[i]).would_inject,
    {
        let mut fault_reports: Vec<DryRunReport> = Vec::new();
        let mut would_inject_any: bool = false;
        let mut i: usize = 0;
        while i < self.faults.len()
            invariant
                i <= self.faults@.len(),
                fault_reports@.len() == i,
                forall|j: int|
                    0 <= j < i ==> self.faults@[j].previews(
                        self.fault_context(ctx@),
                        #[trigger] fault_reports@[j]@,
                    ),
                would_inject_any <==> exists|j: int|
                    0 <= j < i && (#[trigger] fault_reports@[j]).would_inject,
            decreases self.faults@.len() - i,
        {
            let fault_ctx: FaultContext = self.context_for(ctx);
            let report: DryRunReport = self.faults[i].dry_run(&fault_ctx);
            let ghost before = fault_reports@;
            let hit: bool = report.would_inject;
            fault_reports.push(report);
            proof {
                assert forall|j: int| 0 <= j < i implies #[trigger] fault_reports@[j]
                    == before[j] by {}
                assert(fault_reports@[i as int].would_inject == hit);
                if would_inject_any {
                    let j = choose|j: int| 0 <= j < i && (#[trigger] before[j]).would_inject;
                    assert(fault_reports@[j].would_inject);
                }
            }
            would_inject_any = would_inject_any || hit;
            i += 1;
        }
        ScenarioDryRunReport {
            name: self.name.clone(),
            seed: self.seed,
            fault_reports,
            would_inject_any,
        }
    }

    /// Starts building a scenario.
    pub fn builder() -> (r: ChaosScenarioBuilder)
        ensures
            r.name is None,
            r.seed is None,
            r.faults@.len() == 0,
            r.profile is None,
            r.topology is None,
    {
        ChaosScenarioBuilder {
            name: None,
            seed: None,
            faults: Vec::new(),
            profile: None,
            topology: None,
        }
    }
}

/// True if the outcome of an injection follows from the context alone: a clock that
/// is read must give one reading only, and a fault from elsewhere one outcome only.
pub open spec fn is_determined(fault: AnyFault) -> bool {
    match fault {
        AnyFault::ClockFreeze(f) => f.inner.is_steady(),
        AnyFault::ClockJump(f) => f.inner.is_steady(),
        AnyFault::Custom(f) => forall|ctx: ContextView, a: ResultView, b: ResultView|
            #[trigger] f.injects(ctx, a) && #[trigger] f.injects(ctx, b) ==> a == b,
        _ => true,
    }
}

/// Two runs of a scenario in equal contexts give the same outcomes, and so the same
/// events, if each of its faults is determined.
pub proof fn runs_are_deterministic(
    scenario: ChaosScenario,
    ctx: ContextView,
    a: Seq<ResultView>,
    b: Seq<ResultView>,
)
    requires
        forall|i: int|
            0 <= i < scenario.members().len() ==> is_determined(#[trigger] scenario.members()[i]),
        scenario.outcomes(ctx, a),
        scenario.outcomes(ctx, b),
    ensures
        a == b,
        injected_events(a) == injected_events(b),
{
    assert forall|i: int| 0 <= i < a.len() implies a[i] == b[i] by {
        let fault = scenario.members()[i];
        assert(is_determined(fault));
        assert(fault.injects(scenario.fault_context(ctx), a[i]));
        assert(fault.injects(scenario.fault_context(ctx), b[i]));
    }
    assert(a =~= b);
}

/// Builder for [`ChaosScenario`].
///
/// Unset fields: the name `default-scenario`, seed zero, the profile of network
/// partitions, no graph.
#[derive(Default)]
pub struct ChaosScenarioBuilder {
    /// Scenario name.
    pub name: Option<String>,
    /// Scenario seed.
    pub seed: Option<u64>,
    /// The faults in execution order.
    pub faults: Vec<AnyFault>,
    /// Stability profile.
    pub profile: Option<BifurcationProfile>,
    /// Attached graph.
    pub topology: Option<Topology>,
}

impl ChaosScenarioBuilder {
    /// Sets the name.
    pub fn name(self, name: &str) -> (r: Self)
        ensures
            r.name matches Some(s) && s@ == name@,
            r == (ChaosScenarioBuilder { name: r.name, ..self }),
    {
        ChaosScenarioBuilder { name: Some(name.to_owned()), ..self }
    }

    /// Sets the seed.
    pub fn seed(self, seed: u64) -> (r: Self)
        ensures
            r == (ChaosScenarioBuilder { seed: Some(seed), ..self }),
    {
        ChaosScenarioBuilder { seed: Some(seed), ..self }
    }

    /// Appends a fault.
    pub fn add_fault<F: IntoFault>(self, fault: F) -> (r: Self)
        ensures
            r.name == self.name,
            r.seed == self.seed,
            r.profile == self.profile,
            r.topology == self.topology,
            r.faults@ == self.faults@.push(fault.as_fault()),
    {
        let mut faults: Vec<AnyFault> = self.faults;
        faults.push(fault.into_fault());
        ChaosScenarioBuilder {
            name: self.name,
            seed: self.seed,
            faults,
            profile: self.profile,
            topology: self.topology,
        }
    }

    /// Sets the profile.
    pub fn profile(self, profile: BifurcationProfile) -> (r: Self)
        ensures
            r == (ChaosScenarioBuilder { profile: Some(profile), ..self }),
    {
        ChaosScenarioBuilder { profile: Some(profile), ..self }
    }

    /// Attaches a graph.
    pub fn topology(self, topology: Topology) -> (r: Self)
        ensures
            r == (ChaosScenarioBuilder { topology: Some(topology), ..self }),
    {
        ChaosScenarioBuilder { topology: Some(topology), ..self }
    }

    /// Builds the scenario.
    pub fn build(self) -> (r: ChaosScenario)
        ensures
            r.title() == match self.name {
                Some(name) => name@,
                None => "default-scenario"@,
            },
            r.shared_seed() == match self.seed {
                Some(seed) => seed,
                None => 0,
            },
            r.members() == self.faults@,
            match self.profile {
                Some(profile) => r.stability() == profile,
                None => r.stability().label@ == "network_partition"@,
            },
            r.graph() == self.topology,
    {
        ChaosScenario {
            name: match self.name {
                Some(name) => name,
                None => "default-scenario".to_owned(),
            },
            seed: match self.seed {
                Some(seed) => seed,
                None => 0,
            },
            faults: self.faults,
            profile: match self.profile {
                Some(profile) => profile,
                None => BifurcationProfile::network_partition(),
            },
            topology: self.topology,
        }
    }
}

} // verus!
