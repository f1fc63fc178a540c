//! What the tag of a record protects: a change of one byte in any field.
//!
//! The tag is a hash of 64 bits, so that there are records that share one; what a
//! change of several bytes does to it is a matter of chance. A change that alters a
//! single byte of a field is always noticed.

use crate::replay::{
    event_bytes, events_bytes, fnv, le_bytes, links_bytes, record_bytes, snapshot_bytes, tag_of,
    text_bytes, RecordView, SnapshotView, FNV_OFFSET_BASIS,
};
use crate::topology::Link;
use crate::types::EventView;
use vstd::prelude::*;
use vstd::utf8::encode_utf8;

verus! {

/// True if the two byte strings differ in exactly one place.
pub open spec fn one_byte_apart(a: Seq<u8>, b: Seq<u8>) -> bool {
    a.len() == b.len() && exists|i: int|
        0 <= i < a.len() && a[i] != b[i] && b == #[trigger] a.update(i, b[i])
}

/// True if the record carries the tag that it should.
pub open spec fn verifies(r: RecordView) -> bool {
    r.integrity_tag == tag_of(r)
}

/// Two byte strings that differ in one place between equal ends have different hashes.
proof fn apart_inside(hash: u64, front: Seq<u8>, a: Seq<u8>, b: Seq<u8>, back: Seq<u8>)
    requires
        one_byte_apart(a, b),
    ensures
        fnv(hash, front + a + back) != fnv(hash, front + b + back),
{
    let i = choose|i: int|
        0 <= i < a.len() && a[i] != b[i] && b == #[trigger] a.update(i, b[i]);
    let whole = front + a + back;
    let k = front.len() + i;
    assert(whole[k] == a[i]);
    crate::replay::one_byte_change_is_detected(hash, whole, k, b[i]);
    assert(whole.update(k, b[i]) =~= front + b + back);
}

/// Records whose covered bytes differ in one place between equal ends do not share a
/// tag.
proof fn apart_in_record(a: RecordView, b: RecordView, front: Seq<u8>, x: Seq<u8>, y: Seq<u8>, back:
    Seq<u8>)
    requires
        verifies(a),
        b.integrity_tag == a.integrity_tag,
        record_bytes(a) == front + x + back,
        record_bytes(b) == front + y + back,
        one_byte_apart(x, y),
    ensures
        !verifies(b),
{
    apart_inside(FNV_OFFSET_BASIS, front, x, y, back);
}

/// A changed tag is noticed.
pub proof fn changed_tag_is_noticed(a: RecordView, tag: u64)
    requires
        verifies(a),
        tag != a.integrity_tag,
    ensures
        !verifies(RecordView { integrity_tag: tag, ..a }),
{
    let b = RecordView { integrity_tag: tag, ..a };
    assert(record_bytes(b) == record_bytes(a));
}

proof fn regrouped(a: Seq<u8>, b: Seq<u8>, c: Seq<u8>)
    ensures
        a + b + c == a + (b + c),
{
    assert(a + b + c =~= a + (b + c));
}

/// A part inside a part: its ends are those of both.
proof fn nested(front: Seq<u8>, f: Seq<u8>, x: Seq<u8>, b: Seq<u8>, back: Seq<u8>)
    ensures
        front + (f + x + b) + back == (front + f) + x + (b + back),
{
    assert(front + (f + x + b) + back =~= (front + f) + x + (b + back));
}

/// The covered bytes before the fault types, before the events and so on.
spec fn before_seed(r: RecordView) -> Seq<u8> {
    encode_utf8(r.scenario_name)
}

spec fn before_profile(r: RecordView) -> Seq<u8> {
    before_seed(r) + le_bytes(r.seed)
}

spec fn before_regime(r: RecordView) -> Seq<u8> {
    before_profile(r) + encode_utf8(r.profile_label)
}

spec fn before_sequence(r: RecordView) -> Seq<u8> {
    before_regime(r) + encode_utf8(r.regime.label())
}

spec fn before_events(r: RecordView) -> Seq<u8> {
    before_sequence(r) + text_bytes(r.fault_sequence)
}

spec fn before_topology(r: RecordView) -> Seq<u8> {
    before_events(r) + events_bytes(r.events)
}

spec fn before_first(r: RecordView) -> Seq<u8> {
    before_topology(r) + snapshot_bytes(r.topology)
}

spec fn before_last(r: RecordView) -> Seq<u8> {
    before_first(r) + le_bytes(r.first_timestamp_ms)
}

/// The covered bytes after the graph, after the events and so on.
spec fn after_topology(r: RecordView) -> Seq<u8> {
    le_bytes(r.first_timestamp_ms) + le_bytes(r.last_timestamp_ms)
}

spec fn after_events(r: RecordView) -> Seq<u8> {
    snapshot_bytes(r.topology) + after_topology(r)
}

spec fn after_sequence(r: RecordView) -> Seq<u8> {
    events_bytes(r.events) + after_events(r)
}

spec fn after_regime(r: RecordView) -> Seq<u8> {
    text_bytes(r.fault_sequence) + after_sequence(r)
}

spec fn after_profile(r: RecordView) -> Seq<u8> {
    encode_utf8(r.regime.label()) + after_regime(r)
}

spec fn after_seed(r: RecordView) -> Seq<u8> {
    encode_utf8(r.profile_label) + after_profile(r)
}

spec fn after_name(r: RecordView) -> Seq<u8> {
    le_bytes(r.seed) + after_seed(r)
}

/// The covered bytes, taken apart around each field.
proof fn parts(r: RecordView)
    ensures
        record_bytes(r) == encode_utf8(r.scenario_name) + after_name(r),
        record_bytes(r) == before_seed(r) + le_bytes(r.seed) + after_seed(r),
        record_bytes(r) == before_profile(r) + encode_utf8(r.profile_label) + after_profile(r),
        record_bytes(r) == before_sequence(r) + text_bytes(r.fault_sequence) + after_sequence(r),
        record_bytes(r) == before_events(r) + events_bytes(r.events) + after_events(r),
        record_bytes(r) == before_topology(r) + snapshot_bytes(r.topology) + after_topology(r),
        record_bytes(r) == before_first(r) + le_bytes(r.first_timestamp_ms) + le_bytes(
            r.last_timestamp_ms,
        ),
{
    regrouped(before_first(r), le_bytes(r.first_timestamp_ms), le_bytes(r.last_timestamp_ms));
    regrouped(before_topology(r), snapshot_bytes(r.topology), after_topology(r));
    regrouped(before_events(r), events_bytes(r.events), after_events(r));
    regrouped(before_sequence(r), text_bytes(r.fault_sequence), after_sequence(r));
    regrouped(before_regime(r), encode_utf8(r.regime.label()), after_regime(r));
    regrouped(before_profile(r), encode_utf8(r.profile_label), after_profile(r));
    regrouped(before_seed(r), le_bytes(r.seed), after_seed(r));
}

proof fn nothing_before(x: Seq<u8>, back: Seq<u8>)
    ensures
        Seq::<u8>::empty() + x + back == x + back,
{
    assert(Seq::<u8>::empty() + x =~= x);
}

proof fn nothing_after(front: Seq<u8>, x: Seq<u8>)
    ensures
        front + x + Seq::<u8>::empty() == front + x,
{
    assert(front + x + Seq::<u8>::empty() =~= front + x);
}

/// A change of one byte of the name is noticed.
pub proof fn changed_name_is_noticed(a: RecordView, name: Seq<char>)
    requires
        verifies(a),
        one_byte_apart(encode_utf8(a.scenario_name), encode_utf8(name)),
    ensures
        !verifies(RecordView { scenario_name: name, ..a }),
{
    let b = RecordView { scenario_name: name, ..a };
    parts(a);
    parts(b);
    let x = encode_utf8(a.scenario_name);
    let y = encode_utf8(name);
    nothing_before(x, after_name(a));
    nothing_before(y, after_name(a));
    apart_in_record(a, b, Seq::empty(), x, y, after_name(a));
}

/// A change of one byte of the seed is noticed.
pub proof fn changed_seed_is_noticed(a: RecordView, seed: u64)
    requires
        verifies(a),
        one_byte_apart(le_bytes(a.seed), le_bytes(seed)),
    ensures
        !verifies(RecordView { seed, ..a }),
{
    let b = RecordView { seed, ..a };
    parts(a);
    parts(b);
    apart_in_record(a, b, before_seed(a), le_bytes(a.seed), le_bytes(seed), after_seed(a));
}

/// A change of one byte of the profile label is noticed.
pub proof fn changed_profile_is_noticed(a: RecordView, label: Seq<char>)
    requires
        verifies(a),
        one_byte_apart(encode_utf8(a.profile_label), encode_utf8(label)),
    ensures
        !verifies(RecordView { profile_label: label, ..a }),
{
    let b = RecordView { profile_label: label, ..a };
    parts(a);
    parts(b);
    let x = encode_utf8(a.profile_label);
    let y = encode_utf8(label);
    apart_in_record(a, b, before_profile(a), x, y, after_profile(a));
}

proof fn texts_split(list: Seq<Seq<char>>, i: int, text: Seq<char>) -> (ends: (Seq<u8>, Seq<u8>))
    requires
        0 <= i < list.len(),
    ensures
        text_bytes(list) == ends.0 + encode_utf8(list[i]) + ends.1,
        text_bytes(list.update(i, text)) == ends.0 + encode_utf8(text) + ends.1,
    decreases list.len(),
{
    let other = list.update(i, text);
    if i == list.len() - 1 {
        let front = text_bytes(list.drop_last());
        assert(other.drop_last() =~= list.drop_last());
        assert(text_bytes(list) =~= front + encode_utf8(list[i]) + Seq::<u8>::empty());
        assert(text_bytes(other) =~= front + encode_utf8(text) + Seq::<u8>::empty());
        (front, Seq::empty())
    } else {
        let (front, back) = texts_split(list.drop_last(), i, text);
        assert(other.drop_last() =~= list.drop_last().update(i, text));
        let more = back + encode_utf8(list.last());
        assert(text_bytes(list) =~= front + encode_utf8(list[i]) + more);
        assert(text_bytes(other) =~= front + encode_utf8(text) + more);
        (front, more)
    }
}

/// A change of one byte of a listed fault type is noticed.
pub proof fn changed_fault_sequence_is_noticed(a: RecordView, i: int, text: Seq<char>)
    requires
        verifies(a),
        0 <= i < a.fault_sequence.len(),
        one_byte_apart(encode_utf8(a.fault_sequence[i]), encode_utf8(text)),
    ensures
        !verifies(RecordView { fault_sequence: a.fault_sequence.update(i, text), ..a }),
{
    let b = RecordView { fault_sequence: a.fault_sequence.update(i, text), ..a };
    let (front, back) = texts_split(a.fault_sequence, i, text);
    let start = before_sequence(a) + front;
    let end = back + after_sequence(a);
    let x = encode_utf8(a.fault_sequence[i]);
    let y = encode_utf8(text);
    parts(a);
    parts(b);
    nested(before_sequence(a), front, x, back, after_sequence(a));
    nested(before_sequence(a), front, y, back, after_sequence(a));
    apart_in_record(a, b, start, x, y, end);
}

proof fn events_split(list: Seq<EventView>, i: int, event: EventView) -> (ends: (Seq<u8>, Seq<u8>))
    requires
        0 <= i < list.len(),
    ensures
        events_bytes(list) == ends.0 + event_bytes(list[i]) + ends.1,
        events_bytes(list.update(i, event)) == ends.0 + event_bytes(event) + ends.1,
    decreases list.len(),
{
    let other = list.update(i, event);
    if i == list.len() - 1 {
        let front = events_bytes(list.drop_last());
        assert(other.drop_last() =~= list.drop_last());
        assert(events_bytes(list) =~= front + event_bytes(list[i]) + Seq::<u8>::empty());
        assert(events_bytes(other) =~= front + event_bytes(event) + Seq::<u8>::empty());
        (front, Seq::empty())
    } else {
        let (front, back) = events_split(list.drop_last(), i, event);
        assert(other.drop_last() =~= list.drop_last().update(i, event));
        let more = back + event_bytes(list.last());
        assert(events_bytes(list) =~= front + event_bytes(list[i]) + more);
        assert(events_bytes(other) =~= front + event_bytes(event) + more);
        (front, more)
    }
}

/// A change of one byte of an event is noticed.
pub proof fn changed_event_is_noticed(a: RecordView, i: int, event: EventView)
    requires
        verifies(a),
        0 <= i < a.events.len(),
        one_byte_apart(event_bytes(a.events[i]), event_bytes(event)),
    ensures
        !verifies(RecordView { events: a.events.update(i, event), ..a }),
{
    let b = RecordView { events: a.events.update(i, event), ..a };
    let (front, back) = events_split(a.events, i, event);
    let start = before_events(a) + front;
    let end = back + after_events(a);
    let x = event_bytes(a.events[i]);
    let y = event_bytes(event);
    parts(a);
    parts(b);
    nested(before_events(a), front, x, back, after_events(a));
    nested(before_events(a), front, y, back, after_events(a));
    apart_in_record(a, b, start, x, y, end);
}

/// One byte apart between equal ends is one byte apart.
proof fn apart_between(front: Seq<u8>, a: Seq<u8>, b: Seq<u8>, back: Seq<u8>)
    requires
        one_byte_apart(a, b),
    ensures
        one_byte_apart(front + a + back, front + b + back),
{
    let i = choose|i: int|
        0 <= i < a.len() && a[i] != b[i] && b == #[trigger] a.update(i, b[i]);
    let k = front.len() + i;
    let x = front + a + back;
    let y = front + b + back;
    assert(x[k] == a[i] && y[k] == b[i]);
    assert(y =~= x.update(k, y[k]));
}

spec fn event_head(e: EventView) -> Seq<u8> {
    encode_utf8(e.fault_type) + encode_utf8(e.node_id)
}

spec fn event_mark(e: EventView) -> Seq<u8> {
    seq![
        if e.dry_run {
            1u8
        } else {
            0u8
        },
    ]
}

spec fn before_mark(e: EventView) -> Seq<u8> {
    event_head(e) + le_bytes(e.seed) + le_bytes(e.intensity.bits)
}

spec fn after_intensity(e: EventView) -> Seq<u8> {
    event_mark(e) + le_bytes(e.timestamp_ms)
}

spec fn after_event_seed(e: EventView) -> Seq<u8> {
    le_bytes(e.intensity.bits) + after_intensity(e)
}

spec fn after_node(e: EventView) -> Seq<u8> {
    le_bytes(e.seed) + after_event_seed(e)
}

spec fn after_kind(e: EventView) -> Seq<u8> {
    encode_utf8(e.node_id) + after_node(e)
}

/// The bytes of an event, taken apart around each field.
proof fn event_parts(e: EventView)
    ensures
        event_bytes(e) == encode_utf8(e.fault_type) + after_kind(e),
        event_bytes(e) == encode_utf8(e.fault_type) + encode_utf8(e.node_id) + after_node(e),
        event_bytes(e) == event_head(e) + le_bytes(e.seed) + after_event_seed(e),
        event_bytes(e) == event_head(e) + le_bytes(e.seed) + le_bytes(e.intensity.bits)
            + after_intensity(e),
        event_bytes(e) == before_mark(e) + event_mark(e) + le_bytes(e.timestamp_ms),
{
    regrouped(before_mark(e), event_mark(e), le_bytes(e.timestamp_ms));
    regrouped(event_head(e) + le_bytes(e.seed), le_bytes(e.intensity.bits), after_intensity(e));
    regrouped(event_head(e), le_bytes(e.seed), after_event_seed(e));
    regrouped(encode_utf8(e.fault_type), encode_utf8(e.node_id), after_node(e));
}

proof fn marks_are_apart(e: EventView)
    ensures
        one_byte_apart(event_mark(e), event_mark(EventView { dry_run: !e.dry_run, ..e })),
{
    let x = event_mark(e);
    let y = event_mark(EventView { dry_run: !e.dry_run, ..e });
    assert(x[0] != y[0]);
    assert(y =~= x.update(0, y[0]));
}

/// What a change of one field of an event does to its bytes: each of these changes
/// alters one byte of them, and turning the dry-run mark always does.
pub proof fn event_fields_are_covered(
    e: EventView,
    fault_type: Seq<char>,
    node_id: Seq<char>,
    seed: u64,
    intensity: crate::scalar::Scalar,
    timestamp_ms: u64,
)
    ensures
        one_byte_apart(encode_utf8(e.fault_type), encode_utf8(fault_type)) ==> one_byte_apart(
            event_bytes(e),
            event_bytes(EventView { fault_type, ..e }),
        ),
        one_byte_apart(encode_utf8(e.node_id), encode_utf8(node_id)) ==> one_byte_apart(
            event_bytes(e),
            event_bytes(EventView { node_id, ..e }),
        ),
        one_byte_apart(le_bytes(e.seed), le_bytes(seed)) ==> one_byte_apart(
            event_bytes(e),
            event_bytes(EventView { seed, ..e }),
        ),
        one_byte_apart(le_bytes(e.intensity.bits), le_bytes(intensity.bits)) ==> one_byte_apart(
            event_bytes(e),
            event_bytes(EventView { intensity, ..e }),
        ),
        one_byte_apart(event_bytes(e), event_bytes(EventView { dry_run: !e.dry_run, ..e })),
        one_byte_apart(le_bytes(e.timestamp_ms), le_bytes(timestamp_ms)) ==> one_byte_apart(
            event_bytes(e),
            event_bytes(EventView { timestamp_ms, ..e }),
        ),
{
    event_parts(e);
    if one_byte_apart(encode_utf8(e.fault_type), encode_utf8(fault_type)) {
        let none = Seq::<u8>::empty();
        event_parts(EventView { fault_type, ..e });
        nothing_before(encode_utf8(e.fault_type), after_kind(e));
        nothing_before(encode_utf8(fault_type), after_kind(e));
        apart_between(none, encode_utf8(e.fault_type), encode_utf8(fault_type), after_kind(e));
    }
    if one_byte_apart(encode_utf8(e.node_id), encode_utf8(node_id)) {
        event_parts(EventView { node_id, ..e });
        apart_between(
            encode_utf8(e.fault_type),
            encode_utf8(e.node_id),
            encode_utf8(node_id),
            after_node(e),
        );
    }
    if one_byte_apart(le_bytes(e.seed), le_bytes(seed)) {
        event_parts(EventView { seed, ..e });
        apart_between(event_head(e), le_bytes(e.seed), le_bytes(seed), after_event_seed(e));
    }
    if one_byte_apart(le_bytes(e.intensity.bits), le_bytes(intensity.bits)) {
        event_parts(EventView { intensity, ..e });
        apart_between(
            event_head(e) + le_bytes(e.seed),
            le_bytes(e.intensity.bits),
            le_bytes(intensity.bits),
            after_intensity(e),
        );
    }
    let turned = EventView { dry_run: !e.dry_run, ..e };
    event_parts(turned);
    marks_are_apart(e);
    apart_between(before_mark(e), event_mark(e), event_mark(turned), le_bytes(e.timestamp_ms));
    if one_byte_apart(le_bytes(e.timestamp_ms), le_bytes(timestamp_ms)) {
        event_parts(EventView { timestamp_ms, ..e });
        let most = before_mark(e) + event_mark(e);
        nothing_after(most, le_bytes(e.timestamp_ms));
        nothing_after(most, le_bytes(timestamp_ms));
        apart_between(most, le_bytes(e.timestamp_ms), le_bytes(timestamp_ms), Seq::empty());
    }
}

/// A change of one byte of the recorded graph is noticed.
pub proof fn changed_topology_is_noticed(a: RecordView, topology: Option<SnapshotView>)
    requires
        verifies(a),
        one_byte_apart(snapshot_bytes(a.topology), snapshot_bytes(topology)),
    ensures
        !verifies(RecordView { topology, ..a }),
{
    let b = RecordView { topology, ..a };
    let x = snapshot_bytes(a.topology);
    let y = snapshot_bytes(topology);
    parts(a);
    parts(b);
    apart_in_record(a, b, before_topology(a), x, y, after_topology(a));
}

proof fn links_split(list: Seq<Link>, i: int, weight: crate::scalar::Scalar) -> (ends: (
    Seq<u8>,
    Seq<u8>,
))
    requires
        0 <= i < list.len(),
    ensures
        links_bytes(list) == ends.0 + le_bytes(list[i].weight.bits) + ends.1,
        links_bytes(list.update(i, Link { weight, ..list[i] })) == ends.0 + le_bytes(weight.bits)
            + ends.1,
    decreases list.len(),
{
    let edge = Link { weight, ..list[i] };
    let other = list.update(i, edge);
    if i == list.len() - 1 {
        let front = links_bytes(list.drop_last()) + encode_utf8(edge.from) + encode_utf8(edge.to);
        assert(other.drop_last() =~= list.drop_last());
        assert(links_bytes(list) =~= front + le_bytes(list[i].weight.bits) + Seq::<u8>::empty());
        assert(links_bytes(other) =~= front + le_bytes(weight.bits) + Seq::<u8>::empty());
        (front, Seq::empty())
    } else {
        let (front, back) = links_split(list.drop_last(), i, weight);
        assert(other.drop_last() =~= list.drop_last().update(i, edge));
        let last = list.last();
        let more = back + encode_utf8(last.from) + encode_utf8(last.to) + le_bytes(
            last.weight.bits,
        );
        assert(links_bytes(list) =~= front + le_bytes(list[i].weight.bits) + more);
        assert(links_bytes(other) =~= front + le_bytes(weight.bits) + more);
        (front, more)
    }
}

/// What a change of the recorded graph does to its bytes: a change of one byte of its
/// name, of one of its nodes or of one of its weights alters one byte of them.
pub proof fn graph_fields_are_covered(
    t: SnapshotView,
    name: Seq<char>,
    i: int,
    node: Seq<char>,
    j: int,
    weight: crate::scalar::Scalar,
)
    ensures
        one_byte_apart(encode_utf8(t.name), encode_utf8(name)) ==> one_byte_apart(
            snapshot_bytes(Some(t)),
            snapshot_bytes(Some(SnapshotView { name, ..t })),
        ),
        0 <= i < t.nodes.len() && one_byte_apart(encode_utf8(t.nodes[i]), encode_utf8(node))
            ==> one_byte_apart(
            snapshot_bytes(Some(t)),
            snapshot_bytes(Some(SnapshotView { nodes: t.nodes.update(i, node), ..t })),
        ),
        0 <= j < t.edges.len() && one_byte_apart(
            le_bytes(t.edges[j].weight.bits),
            le_bytes(weight.bits),
        ) ==> one_byte_apart(
            snapshot_bytes(Some(t)),
            snapshot_bytes(
                Some(
                    SnapshotView { edges: t.edges.update(j, Link { weight, ..t.edges[j] }), ..t },
                ),
            ),
        ),
{
    let title = encode_utf8(t.name);
    let nodes = text_bytes(t.nodes);
    let edges = links_bytes(t.edges);
    if one_byte_apart(title, encode_utf8(name)) {
        regrouped(title, nodes, edges);
        regrouped(encode_utf8(name), nodes, edges);
        nothing_before(title, nodes + edges);
        nothing_before(encode_utf8(name), nodes + edges);
        apart_between(Seq::empty(), title, encode_utf8(name), nodes + edges);
    }
    if 0 <= i < t.nodes.len() && one_byte_apart(encode_utf8(t.nodes[i]), encode_utf8(node)) {
        let (front, back) = texts_split(t.nodes, i, node);
        let x = encode_utf8(t.nodes[i]);
        let y = encode_utf8(node);
        nested(title, front, x, back, edges);
        nested(title, front, y, back, edges);
        apart_between(title + front, x, y, back + edges);
    }
    if 0 <= j < t.edges.len() && one_byte_apart(
        le_bytes(t.edges[j].weight.bits),
        le_bytes(weight.bits),
    ) {
        let (front, back) = links_split(t.edges, j, weight);
        let x = le_bytes(t.edges[j].weight.bits);
        let y = le_bytes(weight.bits);
        let none = Seq::<u8>::empty();
        nested(title + nodes, front, x, back, none);
        nested(title + nodes, front, y, back, none);
        nothing_after(title + nodes, front + x + back);
        nothing_after(title + nodes, front + y + back);
        apart_between(title + nodes + front, x, y, back + none);
    }
}

/// A change of one byte of the first timestamp is noticed.
pub proof fn changed_first_timestamp_is_noticed(a: RecordView, first_timestamp_ms: u64)
    requires
        verifies(a),
        one_byte_apart(le_bytes(a.first_timestamp_ms), le_bytes(first_timestamp_ms)),
    ensures
        !verifies(RecordView { first_timestamp_ms, ..a }),
{
    let b = RecordView { first_timestamp_ms, ..a };
    let x = le_bytes(a.first_timestamp_ms);
    let y = le_bytes(first_timestamp_ms);
    let back = le_bytes(a.last_timestamp_ms);
    parts(a);
    parts(b);
    apart_in_record(a, b, before_first(a), x, y, back);
}

/// A change of one byte of the last timestamp is noticed.
pub proof fn changed_last_timestamp_is_noticed(a: RecordView, last_timestamp_ms: u64)
    requires
        verifies(a),
        one_byte_apart(le_bytes(a.last_timestamp_ms), le_bytes(last_timestamp_ms)),
    ensures
        !verifies(RecordView { last_timestamp_ms, ..a }),
{
    let b = RecordView { last_timestamp_ms, ..a };
    let x = le_bytes(a.last_timestamp_ms);
    let y = le_bytes(last_timestamp_ms);
    parts(a);
    parts(b);
    nothing_after(before_last(a), x);
    nothing_after(before_last(a), y);
    apart_in_record(a, b, before_last(a), x, y, Seq::empty());
}

/// Numbers that differ only in their lowest byte are one byte apart.
pub proof fn lowest_byte_apart(a: u64, b: u64)
    requires
        a != b,
        a / 256 == b / 256,
    ensures
        one_byte_apart(le_bytes(a), le_bytes(b)),
{
    let x = le_bytes(a);
    let y = le_bytes(b);
    assert(a / 0x1_0000 == (a / 256) / 0x100 && b / 0x1_0000 == (b / 256) / 0x100);
    assert(a / 0x100_0000 == (a / 256) / 0x1_0000 && b / 0x100_0000 == (b / 256) / 0x1_0000);
    assert(a / 0x1_0000_0000 == (a / 256) / 0x100_0000 && b / 0x1_0000_0000 == (b / 256)
        / 0x100_0000);
    assert(a / 0x100_0000_0000 == (a / 256) / 0x1_0000_0000 && b / 0x100_0000_0000 == (b / 256)
        / 0x1_0000_0000);
    assert(a / 0x1_0000_0000_0000 == (a / 256) / 0x100_0000_0000 && b / 0x1_0000_0000_0000 == (b
        / 256) / 0x100_0000_0000);
    assert(a / 0x100_0000_0000_0000 == (a / 256) / 0x1_0000_0000_0000 && b
        / 0x100_0000_0000_0000 == (b / 256) / 0x1_0000_0000_0000);
    assert(a % 256 != b % 256);
    assert(y =~= x.update(0, y[0]));
    assert(x[0] != y[0]);
}

} // verus!
