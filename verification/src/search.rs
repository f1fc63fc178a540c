//! Adaptive search for the most fragile fault configuration: the search space, the
//! evaluation of one point, and the trace of all evaluations.
//!
//! The optimizer that proposes points is not part of this module. It minimizes,
//! whereas a search maximizes: scores are handed to it with their sign turned.

use crate::message::{Message, Part, PartView};
use crate::scalar::nearest::is_integer;
use crate::scalar::whole::{from_i64, nearest_whole, number_equal_to, snap, snapped};
use crate::scalar::Scalar;
use crate::text;
use vstd::arithmetic::power2::pow2;
use vstd::prelude::*;

verus! {

/// One point of a search space.
#[derive(Debug, PartialEq, Eq)]
pub struct FaultConfig {
    /// Parameter values in the order of the dimensions.
    pub params: Vec<Scalar>,
}

impl View for FaultConfig {
    type V = Seq<Scalar>;

    open spec fn view(&self) -> Seq<Scalar> {
        self.params@
    }
}

impl Clone for FaultConfig {
    fn clone(&self) -> (r: Self)
        ensures
            r@ == self@,
    {
        let params: Vec<Scalar> = self.params.clone();
        assert(params@ =~= self.params@);
        FaultConfig { params }
    }
}

/// How fragile a configuration is; higher is more fragile.
pub trait Objective {
    /// True if `score` is a possible score of a point under a seed.
    open spec fn scores(&self, point: Seq<Scalar>, seed: u64, score: Scalar) -> bool {
        true
    }

    /// Scores a point under a seed.
    fn evaluate(&self, cfg: &FaultConfig, seed: u64) -> (score: Scalar)
        ensures
            self.scores(cfg@, seed, score),
    ;
}

/// One dimension of a search space.
#[derive(Debug, PartialEq, Eq)]
pub enum Dimension {
    /// Real numbers from `lo` to `hi`.
    Continuous {
        /// Lower bound.
        lo: Scalar,
        /// Upper bound.
        hi: Scalar,
        /// Name for a reader.
        name: String,
    },
    /// Whole numbers from `lo` to `hi`.
    Integer {
        /// Lower bound.
        lo: i64,
        /// Upper bound.
        hi: i64,
        /// Name for a reader.
        name: String,
    },
}

impl Clone for Dimension {
    fn clone(&self) -> (r: Self)
        ensures
            r == *self,
    {
        match self {
            Dimension::Continuous { lo, hi, name } => Dimension::Continuous {
                lo: *lo,
                hi: *hi,
                name: name.clone(),
            },
            Dimension::Integer { lo, hi, name } => Dimension::Integer {
                lo: *lo,
                hi: *hi,
                name: name.clone(),
            },
        }
    }
}

impl Dimension {
    /// The name.
    pub open spec fn label(self) -> Seq<char> {
        match self {
            Dimension::Continuous { name, .. } => name@,
            Dimension::Integer { name, .. } => name@,
        }
    }

    /// True if the lower bound does not lie above the upper one.
    pub open spec fn is_valid(self) -> bool {
        match self {
            Dimension::Continuous { lo, hi, .. } => !lo.is_nan() && !hi.is_nan() && !hi.below(lo),
            Dimension::Integer { lo, hi, .. } => nearest_whole(lo as int) <= nearest_whole(
                hi as int,
            ),
        }
    }

    /// What a raw value stands for: the nearest value between the bounds, on whole
    /// numbers in an integer dimension.
    pub open spec fn decoded(self, raw: Scalar) -> Scalar {
        match self {
            Dimension::Continuous { lo, hi, .. } => if raw.below(lo) {
                lo
            } else if hi.below(raw) {
                hi
            } else {
                raw
            },
            Dimension::Integer { lo, hi, .. } => snapped(raw, lo, hi),
        }
    }

    /// The bounds as real numbers.
    pub open spec fn limits(self) -> (Scalar, Scalar) {
        match self {
            Dimension::Continuous { lo, hi, .. } => (lo, hi),
            Dimension::Integer { lo, hi, .. } => (
                number_equal_to(nearest_whole(lo as int)),
                number_equal_to(nearest_whole(hi as int)),
            ),
        }
    }

    /// The name.
    pub fn name(&self) -> (r: &str)
        ensures
            r@ == self.label(),
    {
        match self {
            Dimension::Continuous { name, .. } => name.as_str(),
            Dimension::Integer { name, .. } => name.as_str(),
        }
    }

    /// What a raw value stands for.
    pub fn decode(&self, raw: Scalar) -> (r: Scalar)
        requires
            self.is_valid(),
        ensures
            r == self.decoded(raw),
    {
        match self {
            Dimension::Continuous { lo, hi, .. } => if raw.less(*lo) {
                *lo
            } else if hi.less(raw) {
                *hi
            } else {
                raw
            },
            Dimension::Integer { lo, hi, .. } => snap(raw, *lo, *hi),
        }
    }

    /// The bounds as real numbers.
    pub fn bounds(&self) -> (r: (Scalar, Scalar))
        ensures
            r == self.limits(),
    {
        match self {
            Dimension::Continuous { lo, hi, .. } => (*lo, *hi),
            Dimension::Integer { lo, hi, .. } => (from_i64(*lo), from_i64(*hi)),
        }
    }
}

/// A decoded value lies between the bounds, and is an integer in an integer dimension,
/// unless the raw value is no number.
pub proof fn decoded_is_within(dimension: Dimension, raw: Scalar)
    requires
        dimension.is_valid(),
        !raw.is_nan(),
    ensures
        !dimension.decoded(raw).is_nan(),
        !dimension.decoded(raw).below(dimension.limits().0),
        !dimension.limits().1.below(dimension.decoded(raw)),
        dimension matches Dimension::Integer { lo, hi, .. } ==> exists|n: int| #[trigger]
            is_integer(dimension.decoded(raw), n) && nearest_whole(lo as int) <= n
                <= nearest_whole(hi as int),
{
    if let Dimension::Integer { lo, hi, .. } = dimension {
        let value = dimension.decoded(raw);
        let (low, high) = dimension.limits();
        crate::scalar::nearest::snapped_is_within(raw, lo, hi);
        crate::scalar::nearest::rounded_integer_is_number(lo as int);
        crate::scalar::nearest::rounded_integer_is_number(hi as int);
        let n = choose|n: int| #[trigger]
            is_integer(value, n) && nearest_whole(lo as int) <= n <= nearest_whole(hi as int);
        let a = nearest_whole(lo as int);
        let b = nearest_whole(hi as int);
        crate::scalar::below_is_numeric(value, low);
        crate::scalar::below_is_numeric(high, value);
        assert(a * pow2(1075) <= n * pow2(1075) <= b * pow2(1075)) by (nonlinear_arith)
            requires
                a <= n <= b,
        ;
    }
}

/// An ordered list of dimensions.
#[derive(Debug, PartialEq, Eq)]
pub struct SearchSpace {
    /// The dimensions.
    pub dimensions: Vec<Dimension>,
}

impl Clone for SearchSpace {
    fn clone(&self) -> (r: Self)
        ensures
            r.dimensions@ == self.dimensions@,
    {
        let dimensions: Vec<Dimension> = self.dimensions.clone();
        assert(dimensions@ =~= self.dimensions@);
        SearchSpace { dimensions }
    }
}

impl Default for SearchSpace {
    /// A space without dimensions.
    fn default() -> (r: Self)
        ensures
            r.dimensions@.len() == 0,
    {
        SearchSpace { dimensions: Vec::new() }
    }
}

/// What a raw point stands for. Values beyond the last dimension stay as they are.
pub open spec fn decoded_point(dimensions: Seq<Dimension>, raw: Seq<Scalar>) -> Seq<Scalar> {
    Seq::new(
        raw.len(),
        |i: int|
            if i < dimensions.len() {
                dimensions[i].decoded(raw[i])
            } else {
                raw[i]
            },
    )
}

impl SearchSpace {
    /// True if every dimension is valid.
    pub open spec fn is_valid(self) -> bool {
        forall|i: int| 0 <= i < self.dimensions@.len() ==> (#[trigger] self.dimensions@[i]).is_valid()
    }

    /// A space of the given dimensions.
    pub fn new(dimensions: Vec<Dimension>) -> (r: Self)
        ensures
            r == (SearchSpace { dimensions }),
    {
        SearchSpace { dimensions }
    }

    /// Number of dimensions.
    pub fn len(&self) -> (n: usize)
        ensures
            n == self.dimensions@.len(),
    {
        self.dimensions.len()
    }

    /// True if there is no dimension.
    pub fn is_empty(&self) -> (r: bool)
        ensures
            r == (self.dimensions@.len() == 0),
    {
        self.dimensions.len() == 0
    }

    /// What a raw point stands for.
    pub fn from_raw(&self, raw: &Vec<Scalar>) -> (r: FaultConfig)
        requires
            self.is_valid(),
        ensures
            r@ == decoded_point(self.dimensions@, raw@),
    {
        let mut params: Vec<Scalar> = Vec::new();
        let mut i: usize = 0;
        while i < raw.len()
            invariant
                i <= raw@.len(),
                self.is_valid(),
                params@ =~= decoded_point(self.dimensions@, raw@).take(i as int),
            decreases raw@.len() - i,
        {
            if i < self.dimensions.len() {
                params.push(self.dimensions[i].decode(raw[i]));
            } else {
                params.push(raw[i]);
            }
            i += 1;
        }
        assert(params@ =~= decoded_point(self.dimensions@, raw@));
        FaultConfig { params }
    }

    /// The bounds of all dimensions as real numbers.
    pub fn limits(&self) -> (r: Vec<(Scalar, Scalar)>)
        ensures
            r@ == Seq::new(
                self.dimensions@.len(),
                |i: int| self.dimensions@[i].limits(),
            ),
    {
        let mut r: Vec<(Scalar, Scalar)> = Vec::new();
        let mut i: usize = 0;
        while i < self.dimensions.len()
            invariant
                i <= self.dimensions@.len(),
                r@.len() == i,
                forall|j: int| 0 <= j < i ==> #[trigger] r@[j] == self.dimensions@[j].limits(),
            decreases self.dimensions@.len() - i,
        {
            r.push(self.dimensions[i].bounds());
            i += 1;
        }
        r
    }
}

/// Settings of a search.
#[derive(Clone, Copy, Debug, PartialEq, Eq)]
pub struct SearchConfig {
    /// Master seed. An evaluation runs under this seed plus its iteration.
    pub seed: u64,
    /// Largest number of evaluations, those of the initial design among them.
    pub max_iters: usize,
    /// Size of the initial design.
    pub n_doe: usize,
    /// Whether the optimizer runs on one thread, which keeps replay exact.
    pub single_threaded: bool,
}

impl Default for SearchConfig {
    fn default() -> (r: Self)
        ensures
            r == (SearchConfig { seed: 42, max_iters: 32, n_doe: 4, single_threaded: true }),
    {
        SearchConfig { seed: 42, max_iters: 32, n_doe: 4, single_threaded: true }
    }
}

/// How the evaluations of a search are shared out.
#[derive(Clone, Copy, Debug, PartialEq, Eq, Structural)]
pub struct SearchPlan {
    /// Evaluations of the initial design.
    pub design: usize,
    /// Evaluations after it, one in each step of the optimizer.
    pub infill: usize,
}

impl SearchConfig {
    /// Shares out the evaluations: the initial design first, and what is left of
    /// `max_iters` after it. Both together are `max_iters`.
    pub fn plan(&self) -> (r: SearchPlan)
        ensures
            r.infill == if self.n_doe <= self.max_iters {
                self.max_iters - self.n_doe
            } else {
                0
            },
            r.design + r.infill == self.max_iters,
    {
        if self.n_doe <= self.max_iters {
            SearchPlan { design: self.n_doe, infill: self.max_iters - self.n_doe }
        } else {
            SearchPlan { design: self.max_iters, infill: 0 }
        }
    }
}

/// Why a search failed.
#[derive(Debug, PartialEq, Eq)]
pub enum SearchError {
    /// The space has no dimension.
    EmptySpace,
    /// The number of evaluations or the size of the initial design is zero.
    ZeroBudget,
    /// The optimizer failed.
    Backend(String),
}

impl Clone for SearchError {
    fn clone(&self) -> (r: Self)
        ensures
            r == *self,
    {
        match self {
            SearchError::EmptySpace => SearchError::EmptySpace,
            SearchError::ZeroBudget => SearchError::ZeroBudget,
            SearchError::Backend(e) => SearchError::Backend(e.clone()),
        }
    }
}

impl SearchError {
    /// The error in words.
    pub fn describe(&self) -> (r: String)
        ensures
            r@ == match *self {
                SearchError::EmptySpace => "search space must have ≥1 dimension"@,
                SearchError::ZeroBudget => "max_iters and n_doe must be ≥1"@,
                SearchError::Backend(e) => "egobox backend error: "@ + e@,
            },
    {
        match self {
            SearchError::EmptySpace => "search space must have ≥1 dimension".to_owned(),
            SearchError::ZeroBudget => "max_iters and n_doe must be ≥1".to_owned(),
            SearchError::Backend(e) => text::concat("egobox backend error: ", e.as_str()),
        }
    }
}

/// Checks that a search can start.
pub fn check_search(space: &SearchSpace, config: &SearchConfig) -> (r: Result<(), SearchError>)
    ensures
        match r {
            Ok(()) => space.dimensions@.len() > 0 && config.max_iters > 0 && config.n_doe > 0,
            Err(SearchError::EmptySpace) => space.dimensions@.len() == 0,
            Err(SearchError::ZeroBudget) => space.dimensions@.len() > 0 && (config.max_iters == 0
                || config.n_doe == 0),
            Err(SearchError::Backend(_)) => false,
        },
{
    if space.is_empty() {
        return Err(SearchError::EmptySpace);
    }
    if config.max_iters == 0 || config.n_doe == 0 {
        return Err(SearchError::ZeroBudget);
    }
    Ok(())
}

/// One evaluation.
#[derive(Debug, PartialEq, Eq)]
pub struct TraceEntry {
    /// The point.
    pub config: FaultConfig,
    /// Its score.
    pub score: Scalar,
    /// Zero in the initial design; after it the evaluations count from one.
    pub iteration: usize,
}

/// Model of an evaluation.
pub struct EntryView {
    pub config: Seq<Scalar>,
    pub score: Scalar,
    pub iteration: usize,
}

impl View for TraceEntry {
    type V = EntryView;

    open spec fn view(&self) -> EntryView {
        EntryView { config: self.config@, score: self.score, iteration: self.iteration }
    }
}

impl Clone for TraceEntry {
    fn clone(&self) -> (r: Self)
        ensures
            r@ == self@,
    {
        TraceEntry {
            config: self.config.clone(),
            score: self.score,
            iteration: self.iteration,
        }
    }
}

/// Models of a list of evaluations.
pub open spec fn entry_views(entries: Seq<TraceEntry>) -> Seq<EntryView> {
    Seq::new(entries.len(), |i: int| entries[i]@)
}

/// The evaluations of a search so far: those of the initial design, then the others.
/// There are never more than a limit that is set at the start.
#[derive(Debug)]
pub struct Trace {
    entries: Vec<TraceEntry>,
    plan: SearchPlan,
    max_iters: usize,
}

impl View for Trace {
    type V = Seq<EntryView>;

    closed spec fn view(&self) -> Seq<EntryView> {
        entry_views(self.entries@)
    }
}

/// Iteration of the evaluation at `place`, if the initial design has `design`
/// evaluations.
pub open spec fn iteration_at(place: nat, design: usize) -> int {
    if place < design {
        0
    } else {
        place - design + 1
    }
}

/// The seed of an evaluation: the master seed plus its iteration, in 64 bits.
pub open spec fn evaluation_seed(master_seed: u64, iteration: u64) -> u64 {
    ((master_seed + iteration) % 0x1_0000_0000_0000_0000) as u64
}

/// The seed of an evaluation.
pub fn seed_for(master_seed: u64, iteration: u64) -> (r: u64)
    ensures
        r == evaluation_seed(master_seed, iteration),
{
    master_seed.wrapping_add(iteration)
}

impl Trace {
    #[verifier::type_invariant]
    spec fn well_formed(self) -> bool {
        &&& self.entries@.len() <= self.max_iters
        &&& forall|i: int|
            0 <= i < self.entries@.len() ==> (#[trigger] self.entries@[i]).iteration
                == iteration_at(i as nat, self.plan.design)
    }

    /// Largest number of evaluations.
    pub closed spec fn limit(self) -> usize {
        self.max_iters
    }

    /// Number of evaluations of the initial design.
    pub closed spec fn design(self) -> usize {
        self.plan.design
    }

    /// No evaluation yet, and those to come that the settings plan.
    pub fn new(config: &SearchConfig) -> (r: Self)
        ensures
            r@ == Seq::<EntryView>::empty(),
            r.limit() == config.max_iters,
            r.design() == if config.n_doe <= config.max_iters {
                config.n_doe
            } else {
                config.max_iters
            },
    {
        let r = Trace { entries: Vec::new(), plan: config.plan(), max_iters: config.max_iters };
        assert(r@ =~= Seq::<EntryView>::empty());
        r
    }

    /// Evaluates one raw point and notes it. Gives the score with its sign turned.
    /// Once the limit is reached nothing is evaluated and nothing is given.
    pub fn evaluate<O: Objective>(
        &mut self,
        space: &SearchSpace,
        objective: &O,
        master_seed: u64,
        raw: &Vec<Scalar>,
    ) -> (r: Option<Scalar>)
        requires
            space.is_valid(),
        ensures
            final(self).limit() == old(self).limit(),
            final(self).design() == old(self).design(),
            r is None <==> old(self)@.len() >= old(self).limit(),
            r is None ==> final(self)@ == old(self)@,
            r matches Some(turned) ==> {
                &&& final(self)@.len() == old(self)@.len() + 1
                &&& final(self)@.drop_last() == old(self)@
                &&& final(self)@.last().config == decoded_point(space.dimensions@, raw@)
                &&& final(self)@.last().iteration == iteration_at(
                    old(self)@.len(),
                    old(self).design(),
                )
                &&& objective.scores(
                    decoded_point(space.dimensions@, raw@),
                    evaluation_seed(
                        master_seed,
                        iteration_at(old(self)@.len(), old(self).design()) as u64,
                    ),
                    final(self)@.last().score,
                )
                &&& turned == final(self)@.last().score.negated()
            },
    {
        proof {
            use_type_invariant(&*self);
        }
        let ghost before = self@;
        let place: usize = self.entries.len();
        if place >= self.max_iters {
            return None;
        }
        let iteration: usize = if place < self.plan.design {
            0
        } else {
            place - self.plan.design + 1
        };
        let config = space.from_raw(raw);
        let seed: u64 = seed_for(master_seed, iteration as u64);
        let score: Scalar = objective.evaluate(&config, seed);
        let mut entries: Vec<TraceEntry> = Vec::new();
        std::mem::swap(&mut entries, &mut self.entries);
        entries.push(TraceEntry { config, score, iteration });
        self.entries = entries;
        proof {
            assert(self@.drop_last() =~= before);
        }
        Some(score.negate())
    }

    /// The result of the search, given the best raw point and its score with the
    /// sign turned, as the optimizer, which looks for the least, found them. If indeed
    /// no evaluation gave less, no score is above the best one.
    pub fn finish(self, space: &SearchSpace, best: &Vec<Scalar>, best_turned: Scalar) -> (r:
        SearchResult)
        requires
            space.is_valid(),
        ensures
            r.best_config@ == decoded_point(space.dimensions@, best@),
            r.best_score == best_turned.negated(),
            entry_views(r.trace@) == self@,
            r.evaluations == r.trace@.len(),
            r.evaluations <= self.limit(),
            forall|i: int|
                0 <= i < r.trace@.len() ==> (#[trigger] r.trace@[i]).iteration == iteration_at(
                    i as nat,
                    self.design(),
                ),
            (forall|i: int|
                0 <= i < self@.len() ==> !(#[trigger] self@[i]).score.negated().below(best_turned))
                ==> forall|i: int|
                0 <= i < self@.len() ==> !r.best_score.below((#[trigger] self@[i]).score),
    {
        proof {
            use_type_invariant(&self);
            assert forall|i: int|
                0 <= i < self@.len() && !(#[trigger] self@[i]).score.negated().below(
                    best_turned,
                ) implies !best_turned.negated().below(self@[i].score) by {
                crate::scalar::negation_turns_the_order(best_turned.negated(), self@[i].score);
                crate::scalar::negation_turns_the_order(best_turned, best_turned);
            }
        }
        SearchResult {
            best_config: space.from_raw(best),
            best_score: best_turned.negate(),
            evaluations: self.entries.len(),
            trace: self.entries,
        }
    }
}

/// Result of a search.
#[derive(Debug, PartialEq, Eq)]
pub struct SearchResult {
    /// Best point found.
    pub best_config: FaultConfig,
    /// Its score.
    pub best_score: Scalar,
    /// All evaluations in order.
    pub trace: Vec<TraceEntry>,
    /// Number of evaluations.
    pub evaluations: usize,
}

impl Clone for SearchResult {
    fn clone(&self) -> (r: Self)
        ensures
            r.best_config@ == self.best_config@,
            r.best_score == self.best_score,
            entry_views(r.trace@) == entry_views(self.trace@),
            r.evaluations == self.evaluations,
    {
        let trace: Vec<TraceEntry> = self.trace.clone();
        assert(entry_views(trace@) =~= entry_views(self.trace@));
        SearchResult {
            best_config: self.best_config.clone(),
            best_score: self.best_score,
            trace,
            evaluations: self.evaluations,
        }
    }
}

impl SearchResult {
    /// The result in one line.
    pub fn describe(&self) -> (r: Message)
        ensures
            r@ == seq![
                PartView::Text("SearchResult { best_score = "@),
                PartView::Fixed { value: self.best_score, decimals: 4 },
                PartView::Text(", evaluations = "@),
                PartView::Text(text::decimal(self.evaluations as nat)),
                PartView::Text(" }"@),
            ],
    {
        let mut r = Message::new();
        r.push_text("SearchResult { best_score = ");
        r.push(Part::Fixed { value: self.best_score, decimals: 4 });
        r.push_text(", evaluations = ");
        let count = text::decimal_of(self.evaluations as u64);
        r.push_text(count.as_str());
        r.push_text(" }");
        assert(r@ =~= seq![
            PartView::Text("SearchResult { best_score = "@),
            PartView::Fixed { value: self.best_score, decimals: 4 },
            PartView::Text(", evaluations = "@),
            PartView::Text(text::decimal(self.evaluations as nat)),
            PartView::Text(" }"@),
        ]);
        r
    }
}

} // verus!
