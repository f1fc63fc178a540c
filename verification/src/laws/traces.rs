//! Laws of collected trace events: which fields are taken, and what they make up.

use crate::scalar::Scalar;
use crate::text::decimal;
use crate::tracing_layer::{assembled, field_of, no_fields, rendered, EventField, FieldsView};
use vstd::prelude::*;

verus! {

proof fn field_names_differ()
    ensures
        field_of("fault_type"@) == Some(EventField::FaultType),
        field_of("malcolm.fault_type"@) == Some(EventField::FaultType),
        field_of("node_id"@) == Some(EventField::NodeId),
        field_of("malcolm.node_id"@) == Some(EventField::NodeId),
        field_of("seed"@) == Some(EventField::Seed),
        field_of("malcolm.seed"@) == Some(EventField::Seed),
        field_of("intensity"@) == Some(EventField::Intensity),
        field_of("malcolm.intensity"@) == Some(EventField::Intensity),
        field_of("dry_run"@) == Some(EventField::DryRun),
        field_of("malcolm.dry_run"@) == Some(EventField::DryRun),
        field_of("timestamp_ms"@) == Some(EventField::TimestampMs),
        field_of("malcolm.timestamp_ms"@) == Some(EventField::TimestampMs),
{
    reveal_strlit("fault_type");
    reveal_strlit("malcolm.fault_type");
    reveal_strlit("node_id");
    reveal_strlit("malcolm.node_id");
    reveal_strlit("seed");
    reveal_strlit("malcolm.seed");
    reveal_strlit("intensity");
    reveal_strlit("malcolm.intensity");
    reveal_strlit("dry_run");
    reveal_strlit("malcolm.dry_run");
    reveal_strlit("timestamp_ms");
    reveal_strlit("malcolm.timestamp_ms");
    assert("fault_type"@.len() == 10 && "malcolm.fault_type"@.len() == 18 && "node_id"@.len() == 7
        && "malcolm.node_id"@.len() == 15 && "seed"@.len() == 4 && "malcolm.seed"@.len() == 12
        && "intensity"@.len() == 9 && "malcolm.intensity"@.len() == 17 && "dry_run"@.len() == 7
        && "malcolm.dry_run"@.len() == 15 && "timestamp_ms"@.len() == 12
        && "malcolm.timestamp_ms"@.len() == 20);
    assert("node_id"@[0] == 'n' && "dry_run"@[0] == 'd');
    assert("malcolm.node_id"@[8] == 'n' && "malcolm.dry_run"@[8] == 'd');
    assert("malcolm.seed"@[0] == 'm' && "timestamp_ms"@[0] == 't');
}

/// A rendered field sets what it is named after, with or without the prefix of the library, and
/// nothing else; a field of another name sets nothing.
pub proof fn rendered_fields_are_taken_by_name(
    fields: FieldsView,
    shown: Seq<char>,
    n: u64,
    flag: bool,
    number: Option<Scalar>,
    name: Seq<char>,
)
    ensures
        rendered(fields, "fault_type"@, seq!['"'] + shown + seq!['"'], number) == (FieldsView {
            fault_type: Some(shown),
            ..fields
        }),
        rendered(fields, "malcolm.node_id"@, seq!['"'] + shown + seq!['"'], number) == (FieldsView {
            node_id: Some(shown),
            ..fields
        }),
        rendered(fields, "node_id"@, seq!['"'] + shown + seq!['"'], number) == (FieldsView {
            node_id: Some(shown),
            ..fields
        }),
        rendered(fields, "seed"@, decimal(n as nat), number) == (FieldsView {
            seed: Some(n),
            ..fields
        }),
        rendered(fields, "timestamp_ms"@, decimal(n as nat), number) == (FieldsView {
            timestamp_ms: Some(n),
            ..fields
        }),
        rendered(
            fields,
            "dry_run"@,
            if flag {
                "true"@
            } else {
                "false"@
            },
            number,
        ) == (FieldsView { dry_run: Some(flag), ..fields }),
        rendered(fields, "intensity"@, shown, number) == (FieldsView { intensity: number, ..fields }),
        field_of(name) is None ==> rendered(fields, name, shown, number) == fields,
{
    field_names_differ();
    crate::laws::words::quotes_are_taken_away(shown);
    crate::text::parsed_decimal(n as nat, u64::MAX as nat);
    reveal_strlit("true");
    reveal_strlit("false");
    assert("true"@.len() == 4 && "false"@.len() == 5);
}

/// The prefix of the library makes no difference to a field, and no other name is a field.
pub proof fn prefixes_make_no_difference(name: Seq<char>)
    ensures
        field_of("malcolm.fault_type"@) == field_of("fault_type"@),
        field_of("malcolm.node_id"@) == field_of("node_id"@),
        field_of("malcolm.seed"@) == field_of("seed"@),
        field_of("malcolm.intensity"@) == field_of("intensity"@),
        field_of("malcolm.dry_run"@) == field_of("dry_run"@),
        field_of("malcolm.timestamp_ms"@) == field_of("timestamp_ms"@),
        field_of(name) is Some <==> name == "fault_type"@ || name == "malcolm.fault_type"@ || name
            == "node_id"@ || name == "malcolm.node_id"@ || name == "seed"@ || name
            == "malcolm.seed"@ || name == "intensity"@ || name == "malcolm.intensity"@ || name
            == "dry_run"@ || name == "malcolm.dry_run"@ || name == "timestamp_ms"@ || name
            == "malcolm.timestamp_ms"@,
{
    field_names_differ();
}

/// Fields make up an event exactly if the fault type is among them; each field of the event is
/// the one that was seen, and empty, zero or false without one.
pub proof fn events_are_made_of_their_fields(fields: FieldsView)
    ensures
        assembled(fields) is Some <==> fields.fault_type is Some,
        assembled(fields) matches Some(e) ==> {
            &&& fields.fault_type == Some(e.fault_type)
            &&& fields.node_id matches Some(s) ==> e.node_id == s
            &&& fields.node_id is None ==> e.node_id.len() == 0
            &&& fields.seed matches Some(n) ==> e.seed == n
            &&& fields.seed is None ==> e.seed == 0
            &&& fields.intensity matches Some(x) ==> e.intensity == x
            &&& fields.intensity is None ==> e.intensity == (Scalar { bits: 0 })
            &&& fields.dry_run matches Some(b) ==> e.dry_run == b
            &&& fields.dry_run is None ==> !e.dry_run
            &&& fields.timestamp_ms matches Some(n) ==> e.timestamp_ms == n
            &&& fields.timestamp_ms is None ==> e.timestamp_ms == 0
        },
        assembled(no_fields()) is None,
{
}

} // verus!
