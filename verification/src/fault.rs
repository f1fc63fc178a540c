//! The fault port: context, trait, cancellation handles and their registry, and
//! the clock port.

use crate::message::{Message, PartView};
use crate::scalar::Scalar;
use crate::text;
use crate::types::{
    BifurcationProfile, DryRunReport, DryRunView, EventView, FaultEvent, FaultResult, ResultView,
};
use std::sync::atomic::AtomicBool;
use std::sync::Arc;
use std::time::{Duration, SystemTime};
use vstd::prelude::*;

verus! {

/// All context that a fault needs at injection time.
///
/// The time is supplied by the caller, which keeps replay deterministic.
#[derive(Debug)]
pub struct FaultContext {
    /// Seed for deterministic draws within the fault.
    pub seed: u64,
    /// Wall-clock time at injection, in milliseconds.
    pub timestamp_ms: u64,
    /// Identifier of the targeted node.
    pub node_id: String,
    /// Stability profile of the target system.
    pub profile: BifurcationProfile,
}

impl Clone for FaultContext {
    fn clone(&self) -> (r: Self)
        ensures
            r == *self,
    {
        FaultContext {
            seed: self.seed,
            timestamp_ms: self.timestamp_ms,
            node_id: self.node_id.clone(),
            profile: self.profile,
        }
    }
}

/// Model of a fault context.
pub struct ContextView {
    pub seed: u64,
    pub timestamp_ms: u64,
    pub node_id: Seq<char>,
    pub profile: Seq<char>,
}

impl View for FaultContext {
    type V = ContextView;

    open spec fn view(&self) -> ContextView {
        ContextView {
            seed: self.seed,
            timestamp_ms: self.timestamp_ms,
            node_id: self.node_id@,
            profile: self.profile.label@,
        }
    }
}

/// A fault that can be injected or dry-run.
///
/// The relations `injects` and `previews` hold every outcome that the two
/// operations may have in a given context. A fault that leaves them out may have any
/// outcome.
pub trait Fault {
    /// True if `result` is a possible outcome of an injection.
    open spec fn injects(&self, ctx: ContextView, result: ResultView) -> bool {
        true
    }

    /// True if `report` is a possible outcome of a dry run.
    open spec fn previews(&self, ctx: ContextView, report: DryRunView) -> bool {
        true
    }

    /// True if `kind` is the identifier of this fault kind.
    open spec fn is_kind(&self, kind: Seq<char>) -> bool {
        true
    }

    /// Inject the fault and return the outcome.
    fn inject(&self, ctx: &FaultContext) -> (r: FaultResult)
        ensures
            self.injects(ctx@, r@),
    ;

    /// Describe what an injection would do.
    fn dry_run(&self, ctx: &FaultContext) -> (r: DryRunReport)
        ensures
            self.previews(ctx@, r@),
    ;

    /// Short, stable identifier of this fault kind.
    fn fault_type(&self) -> (r: &'static str)
        ensures
            self.is_kind(r@),
    ;
}

/// The outcome of an injection that records the event under the given time.
pub open spec fn injected_at(
    kind: Seq<char>,
    node_id: Seq<char>,
    seed: u64,
    intensity: Scalar,
    timestamp_ms: u64,
) -> ResultView {
    ResultView::Injected(
        EventView { fault_type: kind, node_id, seed, intensity, dry_run: false, timestamp_ms },
    )
}

/// The dry-run report of a fault that would be injected.
pub open spec fn would_inject(
    kind: Seq<char>,
    node_id: Seq<char>,
    reason: Seq<PartView>,
) -> DryRunView {
    DryRunView { fault_type: kind, node_id, would_inject: true, reason }
}

/// Records an injected fault.
pub(crate) fn record_injected(
    kind: &str,
    ctx: &FaultContext,
    seed: u64,
    intensity: Scalar,
    timestamp_ms: u64,
) -> (r: FaultResult)
    ensures
        r@ == injected_at(kind@, ctx@.node_id, seed, intensity, timestamp_ms),
{
    FaultResult::Injected(
        FaultEvent {
            fault_type: kind.to_owned(),
            node_id: ctx.node_id.clone(),
            seed,
            intensity,
            dry_run: false,
            timestamp_ms,
        },
    )
}

/// Reports a fault that would be injected.
pub(crate) fn report_preview(kind: &str, ctx: &FaultContext, reason: Message) -> (r: DryRunReport)
    ensures
        r@ == would_inject(kind@, ctx@.node_id, reason@),
{
    DryRunReport {
        fault_type: kind.to_owned(),
        node_id: ctx.node_id.clone(),
        would_inject: true,
        reason,
    }
}

/// A cancellation token. Clones share one flag.
///
/// The flag may be set at any time by whoever holds a clone. The relations `reads`,
/// `was_set` and `starts_unset` tie each call to the flag of this very handle; which
/// answer a read gives at a given time is not stated.
#[derive(Debug, Default)]
pub struct FaultHandle {
    cancelled: Arc<AtomicBool>,
}

impl Clone for FaultHandle {
    /// Another handle on the same flag.
    fn clone(&self) -> (r: Self)
        ensures
            r == *self,
    {
        FaultHandle { cancelled: self.cancelled.clone() }
    }
}

impl FaultHandle {
    /// True if `r` is a possible answer of a read of this handle's flag.
    pub closed spec fn reads(self, r: bool) -> bool {
        call_ensures(
            AtomicBool::load,
            (&*self.cancelled, std::sync::atomic::Ordering::Acquire),
            r,
        )
    }

    /// True if this handle's flag was set.
    pub closed spec fn was_set(self) -> bool {
        call_ensures(
            AtomicBool::store,
            (&*self.cancelled, true, std::sync::atomic::Ordering::Release),
            (),
        )
    }

    /// True if this handle's flag was made unset.
    pub closed spec fn starts_unset(self) -> bool {
        call_ensures(AtomicBool::new, (false,), *self.cancelled)
    }

    /// A new handle that is not cancelled.
    pub fn new() -> (r: Self)
        ensures
            r.starts_unset(),
    {
        FaultHandle { cancelled: Arc::new(AtomicBool::new(false)) }
    }

    /// Sets the flag for all clones of this handle.
    pub fn cancel(&self)
        ensures
            self.was_set(),
    {
        self.cancelled.store(true, std::sync::atomic::Ordering::Release);
    }

    /// Reads the flag.
    pub fn is_cancelled(&self) -> (r: bool)
        ensures
            self.reads(r),
    {
        self.cancelled.load(std::sync::atomic::Ordering::Acquire)
    }
}

/// Number of flags that are not set.
pub open spec fn unset_count(flags: Seq<bool>) -> nat
    decreases flags.len(),
{
    if flags.len() == 0 {
        0
    } else {
        unset_count(flags.drop_last()) + if flags.last() {
            0nat
        } else {
            1nat
        }
    }
}

/// Counts the flags that are not set.
pub fn count_unset(flags: &Vec<bool>) -> (n: usize)
    ensures
        n == unset_count(flags@),
        n <= flags@.len(),
{
    let mut n: usize = 0;
    let mut i: usize = 0;
    assert(flags@.take(0) =~= Seq::empty());
    while i < flags.len()
        invariant
            i <= flags@.len(),
            n == unset_count(flags@.take(i as int)),
            n <= i,
        decreases flags@.len() - i,
    {
        assert(flags@.take(i + 1).drop_last() =~= flags@.take(i as int));
        if !flags[i] {
            n += 1;
        }
        i += 1;
    }
    assert(flags@.take(flags@.len() as int) =~= flags@);
    n
}

/// True if `flags` are possible answers of a read of each handle's flag, in order.
pub open spec fn are_readings(handles: Seq<FaultHandle>, flags: Seq<bool>) -> bool {
    &&& flags.len() == handles.len()
    &&& forall|i: int| 0 <= i < flags.len() ==> handles[i].reads(#[trigger] flags[i])
}

/// Active handles, grouped by node.
#[derive(Debug, Default)]
pub struct FaultRegistry {
    entries: Vec<(String, Vec<FaultHandle>)>,
}

impl View for FaultRegistry {
    type V = Map<Seq<char>, Seq<FaultHandle>>;

    closed spec fn view(&self) -> Map<Seq<char>, Seq<FaultHandle>> {
        registry_map(self.entries@)
    }
}

spec fn registry_map(entries: Seq<(String, Vec<FaultHandle>)>) -> Map<Seq<char>, Seq<FaultHandle>>
    decreases entries.len(),
{
    if entries.len() == 0 {
        Map::empty()
    } else {
        registry_map(entries.drop_last()).insert(entries.last().0@, entries.last().1@)
    }
}

spec fn distinct_nodes(entries: Seq<(String, Vec<FaultHandle>)>) -> bool {
    forall|i: int, j: int|
        0 <= i < j < entries.len() ==> #[trigger] entries[i].0@ != #[trigger] entries[j].0@
}

proof fn registry_lookup(entries: Seq<(String, Vec<FaultHandle>)>)
    requires
        distinct_nodes(entries),
    ensures
        forall|i: int|
            0 <= i < entries.len() ==> #[trigger] registry_map(entries).contains_pair(
                entries[i].0@,
                entries[i].1@,
            ),
        forall|k: Seq<char>| #[trigger]
            registry_map(entries).contains_key(k) ==> exists|i: int|
                0 <= i < entries.len() && entries[i].0@ == k,
    decreases entries.len(),
{
    if entries.len() > 0 {
        let front = entries.drop_last();
        registry_lookup(front);
        assert forall|i: int| 0 <= i < entries.len() implies #[trigger] registry_map(
            entries,
        ).contains_pair(entries[i].0@, entries[i].1@) by {
            if i < front.len() {
                assert(front[i] == entries[i]);
                assert(registry_map(front).contains_pair(front[i].0@, front[i].1@));
            }
        }
        assert forall|k: Seq<char>| #[trigger] registry_map(entries).contains_key(k) implies exists|
            i: int,
        |
            0 <= i < entries.len() && entries[i].0@ == k by {
            if k == entries.last().0@ {
                assert(entries[entries.len() - 1].0@ == k);
            } else {
                assert(registry_map(front).contains_key(k));
                let i = choose|i: int| 0 <= i < front.len() && front[i].0@ == k;
                assert(entries[i].0@ == k);
            }
        }
    }
}

impl FaultRegistry {
    #[verifier::type_invariant]
    spec fn well_formed(self) -> bool {
        distinct_nodes(self.entries@)
    }

    /// The handles registered under `node`, oldest first.
    pub open spec fn handles(self, node: Seq<char>) -> Seq<FaultHandle> {
        if self@.contains_key(node) {
            self@[node]
        } else {
            Seq::empty()
        }
    }

    /// True if `handle` is registered under some node.
    pub open spec fn is_registered(self, handle: FaultHandle) -> bool {
        exists|node: Seq<char>, i: int|
            0 <= i < self.handles(node).len() && #[trigger] self.handles(node)[i] == handle
    }

    /// An empty registry.
    pub fn new() -> (r: Self)
        ensures
            r@ == Map::<Seq<char>, Seq<FaultHandle>>::empty(),
    {
        FaultRegistry { entries: Vec::new() }
    }

    fn position(&self, node_id: &str) -> (r: Option<usize>)
        ensures
            match r {
                Some(i) => {
                    &&& i < self.entries@.len()
                    &&& self.entries@[i as int].0@ == node_id@
                    &&& self@.contains_pair(node_id@, self.entries@[i as int].1@)
                },
                None => {
                    &&& forall|i: int|
                        0 <= i < self.entries@.len() ==> #[trigger] self.entries@[i].0@ != node_id@
                    &&& !self@.contains_key(node_id@)
                },
            },
    {
        proof {
            use_type_invariant(self);
            registry_lookup(self.entries@);
        }
        let mut i: usize = 0;
        while i < self.entries.len()
            invariant
                i <= self.entries@.len(),
                forall|j: int| 0 <= j < i ==> #[trigger] self.entries@[j].0@ != node_id@,
                forall|j: int|
                    0 <= j < self.entries@.len() ==> #[trigger] self@.contains_pair(
                        self.entries@[j].0@,
                        self.entries@[j].1@,
                    ),
            decreases self.entries@.len() - i,
        {
            if text::same(self.entries[i].0.as_str(), node_id) {
                assert(self@.contains_pair(self.entries@[i as int].0@, self.entries@[i as int].1@));
                return Some(i);
            }
            i += 1;
        }
        None
    }

    /// Registers a handle under the given node.
    pub fn register(&mut self, node_id: &str, handle: FaultHandle)
        ensures
            final(self)@ == old(self)@.insert(node_id@, old(self).handles(node_id@).push(handle)),
    {
        let found = self.position(node_id);
        proof {
            use_type_invariant(&*self);
        }
        let ghost before = self.entries@;
        let mut entries: Vec<(String, Vec<FaultHandle>)> = Vec::new();
        std::mem::swap(&mut entries, &mut self.entries);
        match found {
            Some(i) => {
                entries[i].1.push(handle);
                proof {
                    assert(distinct_nodes(entries@));
                    registry_update(before, i as int, entries@);
                }
            },
            None => {
                let mut handles: Vec<FaultHandle> = Vec::new();
                handles.push(handle);
                entries.push((node_id.to_owned(), handles));
                proof {
                    assert(entries@.drop_last() =~= before);
                    assert(handles@ =~= Seq::empty().push(handle));
                }
            },
        }
        self.entries = entries;
    }

    /// The handles registered under `node_id`, oldest first.
    pub fn handles_of(&self, node_id: &str) -> (r: Vec<FaultHandle>)
        ensures
            r@ == self.handles(node_id@),
    {
        match self.position(node_id) {
            Some(i) => self.entries[i].1.clone(),
            None => Vec::new(),
        }
    }

    /// Sets the flag of every handle registered under `node_id`.
    pub fn cancel_node(&self, node_id: &str)
        ensures
            forall|i: int|
                0 <= i < self.handles(node_id@).len() ==> (#[trigger] self.handles(
                    node_id@,
                )[i]).was_set(),
    {
        let handles = self.handles_of(node_id);
        let mut i: usize = 0;
        while i < handles.len()
            invariant
                i <= handles@.len(),
                forall|j: int| 0 <= j < i ==> (#[trigger] handles@[j]).was_set(),
            decreases handles@.len() - i,
        {
            handles[i].cancel();
            i += 1;
        }
    }

    /// Counts the handles under `node_id` whose flag is not set.
    pub fn active_count(&self, node_id: &str) -> (n: usize)
        ensures
            exists|flags: Seq<bool>| #[trigger]
                are_readings(self.handles(node_id@), flags) && n == unset_count(flags),
            n <= self.handles(node_id@).len(),
    {
        let handles = self.handles_of(node_id);
        let mut flags: Vec<bool> = Vec::new();
        let mut i: usize = 0;
        while i < handles.len()
            invariant
                i <= handles@.len(),
                flags@.len() == i,
                forall|j: int| 0 <= j < i ==> handles@[j].reads(#[trigger] flags@[j]),
            decreases handles@.len() - i,
        {
            flags.push(handles[i].is_cancelled());
            i += 1;
        }
        assert(are_readings(handles@, flags@));
        count_unset(&flags)
    }

    /// Every registered handle.
    pub fn all_handles(&self) -> (r: Vec<FaultHandle>)
        ensures
            forall|handle: FaultHandle| #[trigger]
                r@.contains(handle) <==> self.is_registered(handle),
    {
        proof {
            use_type_invariant(self);
            registry_lookup(self.entries@);
        }
        let mut out: Vec<FaultHandle> = Vec::new();
        let mut i: usize = 0;
        while i < self.entries.len()
            invariant
                i <= self.entries@.len(),
                forall|j: int|
                    0 <= j < self.entries@.len() ==> #[trigger] self@.contains_pair(
                        self.entries@[j].0@,
                        self.entries@[j].1@,
                    ),
                forall|j: int, k: int|
                    0 <= j < i && 0 <= k < self.entries@[j].1@.len() ==> out@.contains(
                        #[trigger] self.entries@[j].1@[k],
                    ),
                forall|k: int| 0 <= k < out@.len() ==> self.is_registered(#[trigger] out@[k]),
            decreases self.entries@.len() - i,
        {
            let handles: &Vec<FaultHandle> = &self.entries[i].1;
            let ghost start = out@;
            let mut j: usize = 0;
            while j < handles.len()
                invariant
                    i < self.entries@.len(),
                    *handles == self.entries@[i as int].1,
                    j <= handles@.len(),
                    out@ =~= start + handles@.take(j as int),
                decreases handles@.len() - j,
            {
                out.push(handles[j].clone());
                j += 1;
            }
            proof {
                let node = self.entries@[i as int].0@;
                assert(self@.contains_pair(node, self.entries@[i as int].1@));
                assert(self.handles(node) == handles@);
                assert(out@ =~= start + handles@);
                assert forall|m: int, k: int|
                    0 <= m < i + 1 && 0 <= k < self.entries@[m].1@.len() implies out@.contains(
                    #[trigger] self.entries@[m].1@[k],
                ) by {
                    let h = self.entries@[m].1@[k];
                    if m < i {
                        assert(start.contains(h));
                        let at = choose|at: int| 0 <= at < start.len() && start[at] == h;
                        assert(out@[at] == h);
                    } else {
                        assert(out@[start.len() + k] == h);
                    }
                }
                assert forall|k: int| 0 <= k < out@.len() implies self.is_registered(
                    #[trigger] out@[k],
                ) by {
                    if k < start.len() {
                        assert(out@[k] == start[k]);
                    } else {
                        assert(self.handles(node)[k - start.len()] == out@[k]);
                    }
                }
            }
            i += 1;
        }
        proof {
            assert forall|handle: FaultHandle| self.is_registered(handle) implies #[trigger]
                out@.contains(handle) by {
                let (node, k) = choose|node: Seq<char>, k: int|
                    0 <= k < self.handles(node).len() && #[trigger] self.handles(node)[k] == handle;
                assert(registry_map(self.entries@).contains_key(node));
                let j = choose|j: int| 0 <= j < self.entries@.len() && self.entries@[j].0@ == node;
                assert(self@.contains_pair(self.entries@[j].0@, self.entries@[j].1@));
                assert(handle == self.entries@[j].1@[k]);
            }
        }
        out
    }

    /// Sets the flag of every handle, then removes all entries.
    pub fn clear(&mut self)
        ensures
            final(self)@ == Map::<Seq<char>, Seq<FaultHandle>>::empty(),
            forall|handle: FaultHandle| #[trigger]
                old(self).is_registered(handle) ==> handle.was_set(),
    {
        let handles = self.all_handles();
        let mut i: usize = 0;
        while i < handles.len()
            invariant
                i <= handles@.len(),
                forall|j: int| 0 <= j < i ==> (#[trigger] handles@[j]).was_set(),
            decreases handles@.len() - i,
        {
            handles[i].cancel();
            i += 1;
        }
        assert forall|handle: FaultHandle| #[trigger]
            old(self).is_registered(handle) implies handle.was_set() by {
            assert(handles@.contains(handle));
        }
        self.entries = Vec::new();
    }
}

/// What registering does to a count of active handles: the readings of the handles
/// that were there before, and one of the new handle, are readings of the handles that
/// are there now, and they count one more if the new handle is not cancelled. The handles
/// of other nodes stay as they are.
pub proof fn registering_counts_one_more(
    before: FaultRegistry,
    after: FaultRegistry,
    node: Seq<char>,
    handle: FaultHandle,
    flags: Seq<bool>,
    flag: bool,
)
    requires
        after@ == before@.insert(node, before.handles(node).push(handle)),
        are_readings(before.handles(node), flags),
        handle.reads(flag),
    ensures
        are_readings(after.handles(node), flags.push(flag)),
        unset_count(flags.push(flag)) == unset_count(flags) + if flag {
            0nat
        } else {
            1nat
        },
        forall|other: Seq<char>| other != node ==> #[trigger] after.handles(other)
            == before.handles(other),
{
    let more = flags.push(flag);
    assert(more.drop_last() =~= flags);
    assert forall|i: int| 0 <= i < more.len() implies after.handles(node)[i].reads(
        #[trigger] more[i],
    ) by {
        if i < flags.len() {
            assert(more[i] == flags[i]);
        }
    }
}

proof fn registry_update(
    before: Seq<(String, Vec<FaultHandle>)>,
    i: int,
    after: Seq<(String, Vec<FaultHandle>)>,
)
    requires
        distinct_nodes(before),
        0 <= i < before.len(),
        after.len() == before.len(),
        after[i].0@ == before[i].0@,
        forall|j: int| 0 <= j < before.len() && j != i ==> after[j] == before[j],
    ensures
        registry_map(after) == registry_map(before).insert(before[i].0@, after[i].1@),
    decreases before.len(),
{
    let front = before.drop_last();
    if i == before.len() - 1 {
        assert(after.drop_last() =~= front);
        assert(registry_map(after) =~= registry_map(before).insert(before[i].0@, after[i].1@));
    } else {
        registry_update(front, i, after.drop_last());
        assert(before[before.len() - 1].0@ != before[i].0@);
        assert(registry_map(after) =~= registry_map(before).insert(before[i].0@, after[i].1@));
    }
}

/// A clock that faults read time from.
pub trait MalcolmClock {
    /// True if `ms` is a possible reading.
    open spec fn reads(&self, ms: u64) -> bool {
        true
    }

    /// Current time in milliseconds.
    fn now_ms(&self) -> (ms: u64)
        ensures
            self.reads(ms),
    ;
}

/// A clock under the control of its owner.
#[derive(Clone, Copy, Debug, PartialEq, Eq, Structural)]
pub struct MockClock {
    now: u64,
    frozen: bool,
}

impl MockClock {
    /// The time that the clock shows.
    pub closed spec fn time(self) -> u64 {
        self.now
    }

    /// True if the clock stands still.
    pub closed spec fn is_frozen(self) -> bool {
        self.frozen
    }

    /// A running clock that shows `ms`.
    pub fn at(ms: u64) -> (r: Self)
        ensures
            r.time() == ms,
            !r.is_frozen(),
    {
        MockClock { now: ms, frozen: false }
    }

    /// Lets `ms` milliseconds pass, up to the largest time that can be shown. A
    /// frozen clock does not move.
    pub fn advance(&mut self, ms: u64)
        ensures
            final(self).time() == if old(self).is_frozen() {
                old(self).time()
            } else {
                jumped(old(self).time(), ms as int)
            },
            final(self).is_frozen() == old(self).is_frozen(),
    {
        if !self.frozen {
            self.now = self.now.saturating_add(ms);
        }
    }

    /// Stops the clock.
    pub fn freeze(&mut self)
        ensures
            final(self).is_frozen(),
            final(self).time() == old(self).time(),
    {
        self.frozen = true;
    }

    /// Moves the clock by `delta_ms`, within the range that can be shown.
    pub fn jump(&mut self, delta_ms: i64)
        ensures
            final(self).is_frozen() == old(self).is_frozen(),
            final(self).time() == jumped(old(self).time(), delta_ms as int),
    {
        let moved: i128 = self.now as i128 + delta_ms as i128;
        if moved > u64::MAX as i128 {
            self.now = u64::MAX;
        } else if moved < 0 {
            self.now = 0;
        } else {
            self.now = moved as u64;
        }
    }
}

/// `now` moved by `delta`, within the range of a timestamp.
pub open spec fn jumped(now: u64, delta: int) -> u64 {
    if now + delta > u64::MAX {
        u64::MAX
    } else if now + delta < 0 {
        0
    } else {
        (now + delta) as u64
    }
}

impl Default for MockClock {
    fn default() -> (r: Self)
        ensures
            r.time() == 0,
            !r.is_frozen(),
    {
        MockClock { now: 0, frozen: false }
    }
}

impl MalcolmClock for MockClock {
    open spec fn reads(&self, ms: u64) -> bool {
        ms == self.time()
    }

    fn now_ms(&self) -> (ms: u64) {
        self.now
    }
}

/// A reading of the system clock.
#[verifier::external_type_specification]
#[verifier::external_body]
pub struct ExSystemTime(SystemTime);

/// The time by `SystemTime::now`; any reading may come.
#[verifier::external_body]
fn system_now() -> (r: SystemTime) {
    SystemTime::now()
}

/// The time since the Unix epoch by `SystemTime::duration_since`; nothing if the
/// reading lies before the epoch. Nothing is stated of it, since a reading is
/// opaque.
#[verifier::external_body]
fn since_epoch(now: SystemTime) -> (r: Option<Duration>) {
    now.duration_since(std::time::UNIX_EPOCH).ok()
}

/// The whole milliseconds of a duration by `Duration::as_millis`. Nothing is stated
/// of them, since a duration is opaque.
#[verifier::external_body]
fn whole_millis(duration: Duration) -> (r: u128) {
    duration.as_millis()
}

/// `ms` as a timestamp: zero if there is none, bounded by the largest one.
pub open spec fn bounded_millis(ms: Option<u128>) -> u64 {
    match ms {
        Some(v) => if v > u64::MAX {
            u64::MAX
        } else {
            v as u64
        },
        None => 0,
    }
}

/// Turns a reading of the system clock into a timestamp.
pub fn bound_millis(ms: Option<u128>) -> (r: u64)
    ensures
        r == bounded_millis(ms),
{
    match ms {
        Some(v) => {
            if v > u64::MAX as u128 {
                u64::MAX
            } else {
                v as u64
            }
        },
        None => 0,
    }
}

/// True if the system clock may show `now`, which lies `since` after the epoch, and that
/// is `whole` milliseconds.
spec fn is_reading(now: SystemTime, since: Option<Duration>, whole: Option<u128>) -> bool {
    &&& call_ensures(system_now, (), now)
    &&& call_ensures(since_epoch, (now,), since)
    &&& match (since, whole) {
        (Some(duration), Some(ms)) => call_ensures(whole_millis, (duration,), ms),
        (None, None) => true,
        _ => false,
    }
}

/// The clock of the system.
#[derive(Clone, Copy, Debug, Default, PartialEq, Eq)]
pub struct RealClock;

impl MalcolmClock for RealClock {
    /// A reading is the time since the epoch that the system clock showed.
    closed spec fn reads(&self, ms: u64) -> bool {
        exists|now: SystemTime, since: Option<Duration>, whole: Option<u128>| #[trigger]
            is_reading(now, since, whole) && ms == bounded_millis(whole)
    }

    fn now_ms(&self) -> (ms: u64) {
        let now: SystemTime = system_now();
        let since: Option<Duration> = since_epoch(now);
        let whole: Option<u128> = match since {
            Some(duration) => Some(whole_millis(duration)),
            None => None,
        };
        assert(is_reading(now, since, whole));
        bound_millis(whole)
    }
}

} // verus!
