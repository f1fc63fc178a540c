//! Laws of records: what a record keeps of a run, what a replay gives back, and what the tag
//! is taken over.

use crate::replay::{
    event_bytes, events_bytes, fnv, le_bytes, links_bytes, record_bytes, recorded, replayed,
    tag_of, text_bytes, RecordView, ScenarioRecord,
};
use crate::scenario::{event_views, ChaosScenario, ScenarioEvent, ScenarioRegime, ScenarioReport};
use crate::text::views;
use crate::topology::Link;
use crate::types::EventView;
use vstd::prelude::*;
use vstd::utf8::encode_utf8;

verus! {

/// True if two entries of a report are the same, field by field.
pub open spec fn same_event(a: ScenarioEvent, b: ScenarioEvent) -> bool {
    &&& a.fault_type@ == b.fault_type@
    &&& a.node_id@ == b.node_id@
    &&& a.seed == b.seed
    &&& a.intensity == b.intensity
    &&& a.dry_run == b.dry_run
    &&& a.timestamp_ms == b.timestamp_ms
}

/// A record keeps the run: its scenario's name, seed and profile, the region, every event with
/// all of its fields, the fault types in the order of the events, the times of the first and
/// the last event, and the graph if there is one.
pub proof fn records_keep_the_run(
    record: ScenarioRecord,
    scenario: ChaosScenario,
    regime: ScenarioRegime,
    events: Seq<ScenarioEvent>,
    tag: u64,
)
    requires
        record@ == recorded(scenario, regime, event_views(events), tag),
    ensures
        record.scenario_name@ == scenario.title(),
        record.seed == scenario.shared_seed(),
        record.profile_label@ == scenario.stability().label@,
        record.regime == regime,
        record.integrity_tag == tag,
        record.events@.len() == events.len(),
        forall|i: int| 0 <= i < events.len() ==> same_event(record.events@[i], #[trigger] events[i]),
        record.fault_sequence@.len() == events.len(),
        forall|i: int|
            0 <= i < events.len() ==> (#[trigger] record.fault_sequence@[i])@
                == events[i].fault_type@,
        events.len() > 0 ==> record.first_timestamp_ms == events[0].timestamp_ms,
        events.len() > 0 ==> record.last_timestamp_ms == events[events.len() - 1].timestamp_ms,
        events.len() == 0 ==> record.first_timestamp_ms == 0 && record.last_timestamp_ms == 0,
        record.topology is Some <==> scenario.graph() is Some,
        record.topology matches Some(snapshot) ==> snapshot@ == crate::replay::snapshot_of(
            scenario.graph()->0,
        ),
{
    assert(event_views(record.events@) == event_views(events));
    assert(event_views(record.events@).len() == record.events@.len());
    assert forall|i: int| 0 <= i < events.len() implies same_event(
        record.events@[i],
        #[trigger] events[i],
    ) by {
        assert(event_views(record.events@)[i] == record.events@[i]@);
        assert(event_views(events)[i] == events[i]@);
    }
    assert(views(record.fault_sequence@).len() == record.fault_sequence@.len());
    assert forall|i: int| 0 <= i < events.len() implies (#[trigger] record.fault_sequence@[i])@
        == events[i].fault_type@ by {
        assert(views(record.fault_sequence@)[i] == record.fault_sequence@[i]@);
        assert(event_views(events)[i] == events[i]@);
    }
    if events.len() > 0 {
        assert(event_views(events)[0] == events[0]@);
        assert(event_views(events).last() == events[events.len() - 1]@);
    }
}

/// A replay gives back what the record keeps: name, seed and region, every event with all of
/// its fields, and the time from the first to the last event, or zero if they are not in order.
pub proof fn replays_give_back_the_record(report: ScenarioReport, record: ScenarioRecord)
    requires
        report@ == replayed(record@),
    ensures
        report.name@ == record.scenario_name@,
        report.seed == record.seed,
        report.regime == record.regime,
        report.events@.len() == record.events@.len(),
        forall|i: int|
            0 <= i < record.events@.len() ==> same_event(
                report.events@[i],
                #[trigger] record.events@[i],
            ),
        record.first_timestamp_ms <= record.last_timestamp_ms ==> record.first_timestamp_ms
            + report.total_duration_ms == record.last_timestamp_ms,
        record.first_timestamp_ms > record.last_timestamp_ms ==> report.total_duration_ms == 0,
{
    assert(event_views(report.events@) == event_views(record.events@));
    assert(event_views(report.events@).len() == report.events@.len());
    assert forall|i: int| 0 <= i < record.events@.len() implies same_event(
        report.events@[i],
        #[trigger] record.events@[i],
    ) by {
        assert(event_views(report.events@)[i] == report.events@[i]@);
        assert(event_views(record.events@)[i] == record.events@[i]@);
    }
}

/// The tag is FNV-1a with 64 bits: nothing leaves it as it is, and one more byte is combined
/// with its lowest bits before it is multiplied by the prime of that hash, in 64 bits.
pub proof fn one_more_byte_is_mixed_in(hash: u64, bytes: Seq<u8>, byte: u8)
    ensures
        fnv(hash, Seq::<u8>::empty()) == hash,
        fnv(hash, bytes.push(byte)) == ((fnv(hash, bytes) ^ (byte as u64)) * 0x100_0000_01B3)
            % 0x1_0000_0000_0000_0000,
{
    assert(bytes.push(byte).drop_last() =~= bytes);
    let x = fnv(hash, bytes) ^ (byte as u64);
    assert(crate::replay::FNV_PRIME == 0x100_0000_01B3);
    assert(x.wrapping_mul(0x100_0000_01B3) == (x * 0x100_0000_01B3) % 0x1_0000_0000_0000_0000);
}

/// The eight bytes of a number stand for it, the lowest first.
pub proof fn bytes_stand_for_the_number(x: u64)
    ensures
        le_bytes(x).len() == 8,
        le_bytes(x)[0] + 0x100 * (le_bytes(x)[1] + 0x100 * (le_bytes(x)[2] + 0x100 * (
        le_bytes(x)[3] + 0x100 * (le_bytes(x)[4] + 0x100 * (le_bytes(x)[5] + 0x100 * (le_bytes(
            x,
        )[6] + 0x100 * le_bytes(x)[7])))))) == x,
{
    let a = x as int / 0x100;
    let b = a / 0x100;
    let c = b / 0x100;
    let d = c / 0x100;
    let e = d / 0x100;
    let f = e / 0x100;
    let g = f / 0x100;
    assert(x as int / 0x1_0000 == b);
    assert(x as int / 0x100_0000 == c);
    assert(x as int / 0x1_0000_0000 == d);
    assert(x as int / 0x100_0000_0000 == e);
    assert(x as int / 0x1_0000_0000_0000 == f);
    assert(x as int / 0x100_0000_0000_0000 == g);
    assert(g < 0x100);
    assert(le_bytes(x)[7] == g);
    assert(le_bytes(x)[6] == f % 0x100);
    assert(le_bytes(x)[5] == e % 0x100);
    assert(le_bytes(x)[4] == d % 0x100);
    assert(le_bytes(x)[3] == c % 0x100);
    assert(le_bytes(x)[2] == b % 0x100);
    assert(le_bytes(x)[1] == a % 0x100);
    assert(le_bytes(x)[0] == x as int % 0x100);
}

/// The bytes of a list of texts are those of each text, one after the other.
pub proof fn texts_are_written_in_a_row(list: Seq<Seq<char>>)
    ensures
        text_bytes(list) == list.map_values(|t: Seq<char>| encode_utf8(t)).flatten(),
    decreases list.len(),
{
    if list.len() > 0 {
        texts_are_written_in_a_row(list.drop_last());
        crate::laws::lists::flat_images_grow(list, |t: Seq<char>| encode_utf8(t));
    }
}

/// The bytes of a list of events are those of each event, one after the other.
pub proof fn events_are_written_in_a_row(list: Seq<EventView>)
    ensures
        events_bytes(list) == list.map_values(|e: EventView| event_bytes(e)).flatten(),
    decreases list.len(),
{
    if list.len() > 0 {
        events_are_written_in_a_row(list.drop_last());
        crate::laws::lists::flat_images_grow(list, |e: EventView| event_bytes(e));
    }
}

/// The bytes of a list of edges are those of each edge, one after the other: where it leaves,
/// where it ends, and its weight.
pub proof fn edges_are_written_in_a_row(list: Seq<Link>)
    ensures
        links_bytes(list) == list.map_values(
            |l: Link| encode_utf8(l.from) + encode_utf8(l.to) + le_bytes(l.weight.bits),
        ).flatten(),
    decreases list.len(),
{
    let f = |l: Link| encode_utf8(l.from) + encode_utf8(l.to) + le_bytes(l.weight.bits);
    if list.len() > 0 {
        edges_are_written_in_a_row(list.drop_last());
        crate::laws::lists::flat_images_grow(list, f);
        let l = list.last();
        let front = links_bytes(list.drop_last());
        assert(front + encode_utf8(l.from) + encode_utf8(l.to) + le_bytes(l.weight.bits) =~= front
            + f(l));
    }
}

/// The tag starts from the offset basis of FNV-1a with 64 bits and covers every field of the
/// record but itself, in the order of the fields.
pub proof fn the_tag_covers_the_record(r: RecordView)
    ensures
        tag_of(r) == fnv(0xCBF2_9CE4_8422_2325, record_bytes(r)),
        record_bytes(r) == encode_utf8(r.scenario_name) + le_bytes(r.seed) + encode_utf8(
            r.profile_label,
        ) + encode_utf8(
            match r.regime {
                ScenarioRegime::Stable => "Stable"@,
                ScenarioRegime::Sensitive => "Sensitive"@,
                ScenarioRegime::Chaotic => "Chaotic"@,
            },
        ) + text_bytes(r.fault_sequence) + events_bytes(r.events) + (match r.topology {
            Some(t) => encode_utf8(t.name) + text_bytes(t.nodes) + links_bytes(t.edges),
            None => Seq::empty(),
        }) + le_bytes(r.first_timestamp_ms) + le_bytes(r.last_timestamp_ms),
{
    assert(crate::replay::FNV_OFFSET_BASIS == 0xCBF2_9CE4_8422_2325);
}

} // verus!
