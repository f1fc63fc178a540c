//! Records of runs, their integrity tags, and replay.

pub mod envelope;
pub mod tampering;

use crate::scalar::Scalar;
use crate::scenario::{
    event_views, ChaosScenario, ReportView, ScenarioEvent, ScenarioRegime, ScenarioReport,
    ScenarioRun,
};
use crate::text;
use crate::text::views;
use crate::topology::{links, Link, Topology};
use crate::types::EventView;
use vstd::prelude::*;
use vstd::utf8::encode_utf8;

verus! {

/// Initial value of the 64-bit FNV-1a hash.
pub const FNV_OFFSET_BASIS: u64 = 0xcbf2_9ce4_8422_2325;

/// Multiplier of the 64-bit FNV-1a hash.
pub const FNV_PRIME: u64 = 1_099_511_628_211;

/// One edge of a recorded graph.
#[derive(Debug, PartialEq, Eq)]
pub struct TopologyEdgeSnapshot {
    /// Source node.
    pub from: String,
    /// Destination node.
    pub to: String,
    /// Propagation weight.
    pub weight: Scalar,
}

impl View for TopologyEdgeSnapshot {
    type V = Link;

    open spec fn view(&self) -> Link {
        Link { from: self.from@, to: self.to@, weight: self.weight }
    }
}

impl Clone for TopologyEdgeSnapshot {
    fn clone(&self) -> (r: Self)
        ensures
            r == *self,
    {
        TopologyEdgeSnapshot {
            from: self.from.clone(),
            to: self.to.clone(),
            weight: self.weight,
        }
    }
}

/// Models of a list of recorded edges.
pub open spec fn edge_snapshot_views(edges: Seq<TopologyEdgeSnapshot>) -> Seq<Link> {
    Seq::new(edges.len(), |i: int| edges[i]@)
}

/// A recorded graph.
#[derive(Debug, PartialEq, Eq)]
pub struct TopologySnapshot {
    /// Name of the graph.
    pub name: String,
    /// All nodes in ascending order.
    pub nodes: Vec<String>,
    /// All edges in ascending order.
    pub edges: Vec<TopologyEdgeSnapshot>,
}

/// Model of a recorded graph.
pub struct SnapshotView {
    pub name: Seq<char>,
    pub nodes: Seq<Seq<char>>,
    pub edges: Seq<Link>,
}

impl View for TopologySnapshot {
    type V = SnapshotView;

    open spec fn view(&self) -> SnapshotView {
        SnapshotView {
            name: self.name@,
            nodes: views(self.nodes@),
            edges: edge_snapshot_views(self.edges@),
        }
    }
}

impl Clone for TopologySnapshot {
    fn clone(&self) -> (r: Self)
        ensures
            r@ == self@,
    {
        let r = TopologySnapshot {
            name: self.name.clone(),
            nodes: self.nodes.clone(),
            edges: self.edges.clone(),
        };
        assert(views(r.nodes@) =~= views(self.nodes@));
        assert(edge_snapshot_views(r.edges@) =~= edge_snapshot_views(self.edges@));
        r
    }
}

/// Persisted record of one run.
#[derive(Debug, PartialEq, Eq)]
pub struct ScenarioRecord {
    /// Scenario name.
    pub scenario_name: String,
    /// Scenario seed.
    pub seed: u64,
    /// Label of the stability profile.
    pub profile_label: String,
    /// Operating region of the run.
    pub regime: ScenarioRegime,
    /// Fault types in execution order.
    pub fault_sequence: Vec<String>,
    /// Recorded events.
    pub events: Vec<ScenarioEvent>,
    /// Recorded graph.
    pub topology: Option<TopologySnapshot>,
    /// Timestamp of the first event.
    pub first_timestamp_ms: u64,
    /// Timestamp of the last event.
    pub last_timestamp_ms: u64,
    /// Tag over all other fields.
    pub integrity_tag: u64,
}

/// Model of a record.
pub struct RecordView {
    pub scenario_name: Seq<char>,
    pub seed: u64,
    pub profile_label: Seq<char>,
    pub regime: ScenarioRegime,
    pub fault_sequence: Seq<Seq<char>>,
    pub events: Seq<EventView>,
    pub topology: Option<SnapshotView>,
    pub first_timestamp_ms: u64,
    pub last_timestamp_ms: u64,
    pub integrity_tag: u64,
}

impl View for ScenarioRecord {
    type V = RecordView;

    open spec fn view(&self) -> RecordView {
        RecordView {
            scenario_name: self.scenario_name@,
            seed: self.seed,
            profile_label: self.profile_label@,
            regime: self.regime,
            fault_sequence: views(self.fault_sequence@),
            events: event_views(self.events@),
            topology: match self.topology {
                Some(t) => Some(t@),
                None => None,
            },
            first_timestamp_ms: self.first_timestamp_ms,
            last_timestamp_ms: self.last_timestamp_ms,
            integrity_tag: self.integrity_tag,
        }
    }
}

impl Clone for ScenarioRecord {
    fn clone(&self) -> (r: Self)
        ensures
            r@ == self@,
    {
        let r = ScenarioRecord {
            scenario_name: self.scenario_name.clone(),
            seed: self.seed,
            profile_label: self.profile_label.clone(),
            regime: self.regime,
            fault_sequence: self.fault_sequence.clone(),
            events: self.events.clone(),
            topology: match &self.topology {
                Some(t) => Some(t.clone()),
                None => None,
            },
            first_timestamp_ms: self.first_timestamp_ms,
            last_timestamp_ms: self.last_timestamp_ms,
            integrity_tag: self.integrity_tag,
        };
        assert(views(r.fault_sequence@) =~= views(self.fault_sequence@));
        assert(event_views(r.events@) =~= event_views(self.events@));
        r
    }
}

/// The eight bytes of `x`, lowest first.
pub open spec fn le_bytes(x: u64) -> Seq<u8> {
    seq![
        (x % 256) as u8,
        (x / 0x100 % 256) as u8,
        (x / 0x1_0000 % 256) as u8,
        (x / 0x100_0000 % 256) as u8,
        (x / 0x1_0000_0000 % 256) as u8,
        (x / 0x100_0000_0000 % 256) as u8,
        (x / 0x1_0000_0000_0000 % 256) as u8,
        (x / 0x100_0000_0000_0000 % 256) as u8,
    ]
}

/// One step of the FNV-1a hash.
pub open spec fn fnv_step(hash: u64, byte: u8) -> u64 {
    (hash ^ (byte as u64)).wrapping_mul(FNV_PRIME)
}

/// The FNV-1a hash of `bytes`, continued from `hash`.
pub open spec fn fnv(hash: u64, bytes: Seq<u8>) -> u64
    decreases bytes.len(),
{
    if bytes.len() == 0 {
        hash
    } else {
        fnv_step(fnv(hash, bytes.drop_last()), bytes.last())
    }
}

/// The UTF-8 bytes of a list of texts in a row.
pub open spec fn text_bytes(list: Seq<Seq<char>>) -> Seq<u8>
    decreases list.len(),
{
    if list.len() == 0 {
        Seq::empty()
    } else {
        text_bytes(list.drop_last()) + encode_utf8(list.last())
    }
}

/// The bytes of one event that the tag covers.
pub open spec fn event_bytes(e: EventView) -> Seq<u8> {
    encode_utf8(e.fault_type) + encode_utf8(e.node_id) + le_bytes(e.seed) + le_bytes(
        e.intensity.bits,
    ) + seq![
        if e.dry_run {
            1u8
        } else {
            0u8
        },
    ] + le_bytes(e.timestamp_ms)
}

/// The bytes of a list of events in a row.
pub open spec fn events_bytes(list: Seq<EventView>) -> Seq<u8>
    decreases list.len(),
{
    if list.len() == 0 {
        Seq::empty()
    } else {
        events_bytes(list.drop_last()) + event_bytes(list.last())
    }
}

/// The bytes of a list of recorded edges in a row.
pub open spec fn links_bytes(list: Seq<Link>) -> Seq<u8>
    decreases list.len(),
{
    if list.len() == 0 {
        Seq::empty()
    } else {
        links_bytes(list.drop_last()) + encode_utf8(list.last().from) + encode_utf8(
            list.last().to,
        ) + le_bytes(list.last().weight.bits)
    }
}

/// The bytes of a recorded graph.
pub open spec fn snapshot_bytes(topology: Option<SnapshotView>) -> Seq<u8> {
    match topology {
        Some(t) => encode_utf8(t.name) + text_bytes(t.nodes) + links_bytes(t.edges),
        None => Seq::empty(),
    }
}

/// All bytes of a record that the tag covers.
pub open spec fn record_bytes(r: RecordView) -> Seq<u8> {
    encode_utf8(r.scenario_name) + le_bytes(r.seed) + encode_utf8(r.profile_label) + encode_utf8(
        r.regime.label(),
    ) + text_bytes(r.fault_sequence) + events_bytes(r.events) + snapshot_bytes(r.topology)
        + le_bytes(r.first_timestamp_ms) + le_bytes(r.last_timestamp_ms)
}

/// The tag that a record should carry.
pub open spec fn tag_of(r: RecordView) -> u64 {
    fnv(FNV_OFFSET_BASIS, record_bytes(r))
}

/// Hashing two byte strings in a row is hashing their concatenation.
pub proof fn fnv_concat(hash: u64, a: Seq<u8>, b: Seq<u8>)
    ensures
        fnv(hash, a + b) == fnv(fnv(hash, a), b),
    decreases b.len(),
{
    if b.len() == 0 {
        assert(a + b =~= a);
    } else {
        fnv_concat(hash, a, b.drop_last());
        assert((a + b).drop_last() =~= a + b.drop_last());
    }
}

proof fn multiplier_is_invertible(x: u64)
    ensures
        (x.wrapping_mul(FNV_PRIME) as int * 14_886_173_955_864_302_971int)
            % 0x1_0000_0000_0000_0000 == x,
{
    let m = 0x1_0000_0000_0000_0000int;
    let inv = 14_886_173_955_864_302_971int;
    let p = FNV_PRIME as int;
    assert(x.wrapping_mul(FNV_PRIME) == (x * p) % m);
    vstd::arithmetic::div_mod::lemma_mul_mod_noop_left(x * p, inv, m);
    assert((x * p) * inv == x * (p * inv)) by (nonlinear_arith);
    assert(p * inv == 1 + 887_285_111_055int * m) by (nonlinear_arith)
        requires
            p == 1_099_511_628_211,
            inv == 14_886_173_955_864_302_971int,
            m == 0x1_0000_0000_0000_0000int,
    ;
    assert(x * (p * inv) == x + (x * 887_285_111_055int) * m) by (nonlinear_arith)
        requires
            p * inv == 1 + 887_285_111_055int * m,
    ;
    vstd::arithmetic::div_mod::lemma_mod_multiples_vanish(x * 887_285_111_055int, x as int, m);
    assert(x + (x * 887_285_111_055int) * m == m * (x * 887_285_111_055int) + x)
        by (nonlinear_arith);
}

proof fn step_is_injective(h: u64, k: u64, a: u8, b: u8)
    ensures
        fnv_step(h, a) == fnv_step(k, b) ==> h ^ (a as u64) == k ^ (b as u64),
{
    multiplier_is_invertible(h ^ (a as u64));
    multiplier_is_invertible(k ^ (b as u64));
}

proof fn hash_is_injective_in_start(h: u64, k: u64, bytes: Seq<u8>)
    requires
        h != k,
    ensures
        fnv(h, bytes) != fnv(k, bytes),
    decreases bytes.len(),
{
    if bytes.len() > 0 {
        hash_is_injective_in_start(h, k, bytes.drop_last());
        let x = fnv(h, bytes.drop_last());
        let y = fnv(k, bytes.drop_last());
        let c = bytes.last() as u64;
        step_is_injective(x, y, bytes.last(), bytes.last());
        assert(x ^ c == y ^ c ==> x == y) by (bit_vector);
    }
}

/// Changing any one byte changes the hash.
pub proof fn one_byte_change_is_detected(hash: u64, bytes: Seq<u8>, i: int, byte: u8)
    requires
        0 <= i < bytes.len(),
        bytes[i] != byte,
    ensures
        fnv(hash, bytes) != fnv(hash, bytes.update(i, byte)),
{
    let front = bytes.take(i);
    let back = bytes.skip(i + 1);
    let old_byte = bytes[i];
    assert(bytes =~= (front + seq![old_byte]) + back);
    assert(bytes.update(i, byte) =~= (front + seq![byte]) + back);
    fnv_concat(hash, front + seq![old_byte], back);
    fnv_concat(hash, front + seq![byte], back);
    let h = fnv(hash, front);
    assert((front + seq![old_byte]).drop_last() =~= front);
    assert((front + seq![byte]).drop_last() =~= front);
    let x = fnv(hash, front + seq![old_byte]);
    let y = fnv(hash, front + seq![byte]);
    assert(x == fnv_step(h, old_byte));
    assert(y == fnv_step(h, byte));
    step_is_injective(h, h, old_byte, byte);
    let a = old_byte as u64;
    let b = byte as u64;
    assert(h ^ a == h ^ b ==> a == b) by (bit_vector);
    assert(x != y);
    hash_is_injective_in_start(x, y, back);
}

/// No tag fits two records whose covered bytes differ in exactly one place: who
/// changes one byte of a record that verifies, and keeps the tag, has a record
/// that does not.
pub proof fn tampering_is_detected(a: RecordView, b: RecordView, i: int)
    requires
        a.integrity_tag == tag_of(a),
        b.integrity_tag == a.integrity_tag,
        record_bytes(a).len() == record_bytes(b).len(),
        0 <= i < record_bytes(a).len(),
        record_bytes(a)[i] != record_bytes(b)[i],
        forall|j: int|
            0 <= j < record_bytes(a).len() && j != i ==> record_bytes(a)[j] == record_bytes(b)[j],
    ensures
        b.integrity_tag != tag_of(b),
{
    one_byte_change_is_detected(FNV_OFFSET_BASIS, record_bytes(a), i, record_bytes(b)[i]);
    assert(record_bytes(a).update(i, record_bytes(b)[i]) =~= record_bytes(b));
}

/// Continues a hash with `bytes`.
pub fn push_bytes(hash: &mut u64, bytes: &[u8])
    ensures
        *final(hash) == fnv(*old(hash), bytes@),
{
    let mut i: usize = 0;
    assert(bytes@.take(0) =~= Seq::empty());
    while i < bytes.len()
        invariant
            i <= bytes@.len(),
            *hash == fnv(*old(hash), bytes@.take(i as int)),
        decreases bytes@.len() - i,
    {
        assert(bytes@.take(i + 1).drop_last() =~= bytes@.take(i as int));
        *hash = (*hash ^ (bytes[i] as u64)).wrapping_mul(FNV_PRIME);
        i += 1;
    }
    assert(bytes@.take(bytes@.len() as int) =~= bytes@);
}

fn push_text(hash: &mut u64, s: &str)
    ensures
        *final(hash) == fnv(*old(hash), encode_utf8(s@)),
{
    push_bytes(hash, s.as_bytes());
}

fn push_u64(hash: &mut u64, x: u64)
    ensures
        *final(hash) == fnv(*old(hash), le_bytes(x)),
{
    let bytes: [u8; 8] = [
        (x % 256) as u8,
        (x / 0x100 % 256) as u8,
        (x / 0x1_0000 % 256) as u8,
        (x / 0x100_0000 % 256) as u8,
        (x / 0x1_0000_0000 % 256) as u8,
        (x / 0x100_0000_0000 % 256) as u8,
        (x / 0x1_0000_0000_0000 % 256) as u8,
        (x / 0x100_0000_0000_0000 % 256) as u8,
    ];
    push_bytes(hash, &bytes);
    assert(bytes@ =~= le_bytes(x));
}

fn push_texts(hash: &mut u64, list: &Vec<String>)
    ensures
        *final(hash) == fnv(*old(hash), text_bytes(views(list@))),
{
    let ghost all = views(list@);
    let mut i: usize = 0;
    assert(all.take(0) =~= Seq::empty());
    while i < list.len()
        invariant
            i <= list@.len(),
            all == views(list@),
            *hash == fnv(*old(hash), text_bytes(all.take(i as int))),
        decreases list@.len() - i,
    {
        proof {
            assert(all.take(i + 1).drop_last() =~= all.take(i as int));
            fnv_concat(*old(hash), text_bytes(all.take(i as int)), encode_utf8(all[i as int]));
        }
        push_text(hash, list[i].as_str());
        i += 1;
    }
    assert(all.take(all.len() as int) =~= all);
}

fn push_event(hash: &mut u64, event: &ScenarioEvent)
    ensures
        *final(hash) == fnv(*old(hash), event_bytes(event@)),
{
    let flag: u8 = if event.dry_run {
        1
    } else {
        0
    };
    let flags: [u8; 1] = [flag];
    proof {
        let h = *old(hash);
        let a = encode_utf8(event.fault_type@);
        let b = a + encode_utf8(event.node_id@);
        let c = b + le_bytes(event.seed);
        let d = c + le_bytes(event.intensity.bits);
        let e = d + seq![flag];
        fnv_concat(h, a, encode_utf8(event.node_id@));
        fnv_concat(h, b, le_bytes(event.seed));
        fnv_concat(h, c, le_bytes(event.intensity.bits));
        fnv_concat(h, d, seq![flag]);
        fnv_concat(h, e, le_bytes(event.timestamp_ms));
        assert(flags@ =~= seq![flag]);
    }
    push_text(hash, event.fault_type.as_str());
    push_text(hash, event.node_id.as_str());
    push_u64(hash, event.seed);
    push_u64(hash, event.intensity.to_bits());
    push_bytes(hash, &flags);
    push_u64(hash, event.timestamp_ms);
}

fn push_events(hash: &mut u64, list: &Vec<ScenarioEvent>)
    ensures
        *final(hash) == fnv(*old(hash), events_bytes(event_views(list@))),
{
    let ghost all = event_views(list@);
    let mut i: usize = 0;
    assert(all.take(0) =~= Seq::empty());
    while i < list.len()
        invariant
            i <= list@.len(),
            all == event_views(list@),
            *hash == fnv(*old(hash), events_bytes(all.take(i as int))),
        decreases list@.len() - i,
    {
        proof {
            assert(all.take(i + 1).drop_last() =~= all.take(i as int));
            fnv_concat(*old(hash), events_bytes(all.take(i as int)), event_bytes(all[i as int]));
        }
        push_event(hash, &list[i]);
        i += 1;
    }
    assert(all.take(all.len() as int) =~= all);
}

fn push_edges(hash: &mut u64, list: &Vec<TopologyEdgeSnapshot>)
    ensures
        *final(hash) == fnv(*old(hash), links_bytes(edge_snapshot_views(list@))),
{
    let ghost all = edge_snapshot_views(list@);
    let mut i: usize = 0;
    assert(all.take(0) =~= Seq::empty());
    while i < list.len()
        invariant
            i <= list@.len(),
            all == edge_snapshot_views(list@),
            *hash == fnv(*old(hash), links_bytes(all.take(i as int))),
        decreases list@.len() - i,
    {
        proof {
            let h = *old(hash);
            let link = all[i as int];
            assert(all.take(i + 1).drop_last() =~= all.take(i as int));
            let a = links_bytes(all.take(i as int));
            let b = a + encode_utf8(link.from);
            let c = b + encode_utf8(link.to);
            fnv_concat(h, a, encode_utf8(link.from));
            fnv_concat(h, b, encode_utf8(link.to));
            fnv_concat(h, c, le_bytes(link.weight.bits));
        }
        push_text(hash, list[i].from.as_str());
        push_text(hash, list[i].to.as_str());
        push_u64(hash, list[i].weight.to_bits());
        i += 1;
    }
    assert(all.take(all.len() as int) =~= all);
}

fn push_snapshot(hash: &mut u64, topology: &Option<TopologySnapshot>)
    ensures
        *final(hash) == fnv(
            *old(hash),
            snapshot_bytes(
                match *topology {
                    Some(t) => Some(t@),
                    None => None,
                },
            ),
        ),
{
    if let Some(t) = topology {
        proof {
            let h = *old(hash);
            let a = encode_utf8(t.name@);
            let b = a + text_bytes(views(t.nodes@));
            fnv_concat(h, a, text_bytes(views(t.nodes@)));
            fnv_concat(h, b, links_bytes(edge_snapshot_views(t.edges@)));
        }
        push_text(hash, t.name.as_str());
        push_texts(hash, &t.nodes);
        push_edges(hash, &t.edges);
    }
}

/// The fault types of a list of events.
pub open spec fn fault_types(events: Seq<EventView>) -> Seq<Seq<char>> {
    Seq::new(events.len(), |i: int| events[i].fault_type)
}

/// The record of a graph.
pub open spec fn snapshot_of(topology: Topology) -> SnapshotView {
    SnapshotView {
        name: topology.title(),
        nodes: topology.node_list(),
        edges: topology.edge_list(),
    }
}

/// The fields of a record but for its tag, taken from a scenario and what a run of
/// it gave.
pub open spec fn recorded(
    scenario: ChaosScenario,
    regime: ScenarioRegime,
    events: Seq<EventView>,
    tag: u64,
) -> RecordView {
    RecordView {
        scenario_name: scenario.title(),
        seed: scenario.shared_seed(),
        profile_label: scenario.stability().label@,
        regime,
        fault_sequence: fault_types(events),
        events,
        topology: match scenario.graph() {
            Some(t) => Some(snapshot_of(t)),
            None => None,
        },
        first_timestamp_ms: if events.len() > 0 {
            events[0].timestamp_ms
        } else {
            0
        },
        last_timestamp_ms: if events.len() > 0 {
            events.last().timestamp_ms
        } else {
            0
        },
        integrity_tag: tag,
    }
}

fn take_snapshot(topology: &Topology) -> (r: TopologySnapshot)
    ensures
        r@ == snapshot_of(*topology),
{
    let all: Vec<(String, String, Scalar)> = topology.edges();
    let mut edges: Vec<TopologyEdgeSnapshot> = Vec::new();
    let mut i: usize = 0;
    while i < all.len()
        invariant
            i <= all@.len(),
            edges@.len() == i,
            forall|j: int| 0 <= j < i ==> #[trigger] edges@[j]@ == links(all@)[j],
        decreases all@.len() - i,
    {
        edges.push(
            TopologyEdgeSnapshot {
                from: all[i].0.clone(),
                to: all[i].1.clone(),
                weight: all[i].2,
            },
        );
        assert(links(all@)[i as int] == edges@[i as int]@);
        i += 1;
    }
    assert(edge_snapshot_views(edges@) =~= links(all@));
    TopologySnapshot { name: topology.name().to_owned(), nodes: topology.node_ids(), edges }
}

impl ScenarioRecord {
    /// The record of a run, with its tag.
    pub fn from_report(scenario: &ChaosScenario, report: &ScenarioReport) -> (r: Self)
        ensures
            r@ == recorded(*scenario, report.regime, report@.events, tag_of(r@)),
    {
        Self::build(scenario, report.regime, report.events.clone())
    }

    fn build(scenario: &ChaosScenario, regime: ScenarioRegime, events: Vec<ScenarioEvent>) -> (r:
        Self)
        ensures
            r@ == recorded(*scenario, regime, event_views(events@), tag_of(r@)),
    {
        let topology: Option<TopologySnapshot> = match scenario.topology() {
            Some(t) => Some(take_snapshot(t)),
            None => None,
        };
        let mut fault_sequence: Vec<String> = Vec::new();
        let mut i: usize = 0;
        while i < events.len()
            invariant
                i <= events@.len(),
                fault_sequence@.len() == i,
                forall|j: int|
                    0 <= j < i ==> #[trigger] fault_sequence@[j]@ == events@[j].fault_type@,
            decreases events@.len() - i,
        {
            fault_sequence.push(events[i].fault_type.clone());
            i += 1;
        }
        assert(views(fault_sequence@) =~= fault_types(event_views(events@)));
        let first_timestamp_ms: u64 = if events.len() > 0 {
            events[0].timestamp_ms
        } else {
            0
        };
        let last_timestamp_ms: u64 = if events.len() > 0 {
            events[events.len() - 1].timestamp_ms
        } else {
            0
        };
        let mut record = ScenarioRecord {
            scenario_name: scenario.name().to_owned(),
            seed: scenario.seed(),
            profile_label: scenario.profile().label.to_owned(),
            regime,
            fault_sequence,
            events,
            topology,
            first_timestamp_ms,
            last_timestamp_ms,
            integrity_tag: 0,
        };
        record.integrity_tag = record.compute_integrity_tag();
        record
    }

    /// The tag that this record should carry.
    pub fn compute_integrity_tag(&self) -> (tag: u64)
        ensures
            tag == tag_of(self@),
    {
        let mut hash: u64 = FNV_OFFSET_BASIS;
        proof {
            let v = self@;
            let b1 = encode_utf8(v.scenario_name);
            let b2 = b1 + le_bytes(v.seed);
            let b3 = b2 + encode_utf8(v.profile_label);
            let b4 = b3 + encode_utf8(v.regime.label());
            let b5 = b4 + text_bytes(v.fault_sequence);
            let b6 = b5 + events_bytes(v.events);
            let b7 = b6 + snapshot_bytes(v.topology);
            let b8 = b7 + le_bytes(v.first_timestamp_ms);
            fnv_concat(hash, b1, le_bytes(v.seed));
            fnv_concat(hash, b2, encode_utf8(v.profile_label));
            fnv_concat(hash, b3, encode_utf8(v.regime.label()));
            fnv_concat(hash, b4, text_bytes(v.fault_sequence));
            fnv_concat(hash, b5, events_bytes(v.events));
            fnv_concat(hash, b6, snapshot_bytes(v.topology));
            fnv_concat(hash, b7, le_bytes(v.first_timestamp_ms));
            fnv_concat(hash, b8, le_bytes(v.last_timestamp_ms));
        }
        push_text(&mut hash, self.scenario_name.as_str());
        push_u64(&mut hash, self.seed);
        push_text(&mut hash, self.profile_label.as_str());
        push_text(&mut hash, self.regime.show());
        push_texts(&mut hash, &self.fault_sequence);
        push_events(&mut hash, &self.events);
        push_snapshot(&mut hash, &self.topology);
        push_u64(&mut hash, self.first_timestamp_ms);
        push_u64(&mut hash, self.last_timestamp_ms);
        hash
    }

    /// True if this record carries the tag that it should.
    pub fn verify(&self) -> (r: bool)
        ensures
            r == (self.integrity_tag == tag_of(self@)),
    {
        self.compute_integrity_tag() == self.integrity_tag
    }
}

/// A fresh record carries the tag that it should.
pub proof fn fresh_record_verifies(
    scenario: ChaosScenario,
    regime: ScenarioRegime,
    events: Seq<EventView>,
    record: RecordView,
)
    requires
        record == recorded(scenario, regime, events, tag_of(record)),
    ensures
        record.integrity_tag == tag_of(record),
{
}

/// Turns runs of one scenario into records.
pub struct RecordingHarness<'a> {
    /// The scenario that is run.
    pub scenario: &'a ChaosScenario,
}

impl<'a> RecordingHarness<'a> {
    /// A harness for the given scenario.
    pub fn new(scenario: &'a ChaosScenario) -> (r: Self)
        ensures
            r.scenario == scenario,
    {
        RecordingHarness { scenario }
    }

    /// The record of a run that fell into the given operating region.
    pub fn record(&self, run: ScenarioRun, regime: ScenarioRegime) -> (r: ScenarioRecord)
        ensures
            r@ == recorded(*self.scenario, regime, event_views(run.events@), tag_of(r@)),
    {
        ScenarioRecord::build(self.scenario, regime, run.events)
    }
}

/// Replays and verifies one record.
pub struct ReplayHarness {
    /// The record.
    pub record: ScenarioRecord,
}

/// The report that a record stands for.
pub open spec fn replayed(r: RecordView) -> ReportView {
    ReportView {
        name: r.scenario_name,
        seed: r.seed,
        regime: r.regime,
        events: r.events,
        total_duration_ms: if r.last_timestamp_ms >= r.first_timestamp_ms {
            (r.last_timestamp_ms - r.first_timestamp_ms) as u64
        } else {
            0
        },
    }
}

/// A replay of a recorded run has the scenario's name and seed, and the region and
/// the events of the run.
pub proof fn replay_keeps_the_run(
    scenario: ChaosScenario,
    regime: ScenarioRegime,
    events: Seq<EventView>,
    tag: u64,
)
    ensures
        replayed(recorded(scenario, regime, events, tag)).name == scenario.title(),
        replayed(recorded(scenario, regime, events, tag)).seed == scenario.shared_seed(),
        replayed(recorded(scenario, regime, events, tag)).regime == regime,
        replayed(recorded(scenario, regime, events, tag)).events == events,
{
}

impl ReplayHarness {
    /// A harness for the given record.
    pub fn new(record: ScenarioRecord) -> (r: Self)
        ensures
            r.record == record,
    {
        ReplayHarness { record }
    }

    /// The report that the record stands for.
    pub fn replay(&self) -> (r: ScenarioReport)
        ensures
            r@ == replayed(self.record@),
    {
        let events: Vec<ScenarioEvent> = self.record.events.clone();
        assert(event_views(events@) =~= event_views(self.record.events@));
        ScenarioReport {
            name: self.record.scenario_name.clone(),
            seed: self.record.seed,
            regime: self.record.regime,
            events,
            total_duration_ms: self.record.last_timestamp_ms.saturating_sub(
                self.record.first_timestamp_ms,
            ),
        }
    }

    /// True if the record carries the tag that it should.
    pub fn verify(&self) -> (r: bool)
        ensures
            r == (self.record.integrity_tag == tag_of(self.record@)),
    {
        self.record.verify()
    }

    /// The record.
    pub fn record(&self) -> (r: &ScenarioRecord)
        ensures
            *r == self.record,
    {
        &self.record
    }
}

} // verus!
