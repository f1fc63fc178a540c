//! Collector of structured events: turns the fields of a trace event into a fault
//! event.

use crate::scalar::Scalar;
use crate::text;
use crate::text::parsed_unsigned;
use crate::types::{EventView, FaultEvent};
use vstd::prelude::*;

verus! {

/// Target whose events are collected.
pub const TARGET: &'static str = "malcolm";

/// The fields that a fault event is made of.
#[derive(Clone, Copy, Debug, PartialEq, Eq, Structural)]
pub enum EventField {
    FaultType,
    NodeId,
    Seed,
    Intensity,
    DryRun,
    TimestampMs,
}

/// The field of the given name, which may carry the prefix `malcolm.`.
pub open spec fn field_of(name: Seq<char>) -> Option<EventField> {
    if name == "fault_type"@ || name == "malcolm.fault_type"@ {
        Some(EventField::FaultType)
    } else if name == "node_id"@ || name == "malcolm.node_id"@ {
        Some(EventField::NodeId)
    } else if name == "seed"@ || name == "malcolm.seed"@ {
        Some(EventField::Seed)
    } else if name == "intensity"@ || name == "malcolm.intensity"@ {
        Some(EventField::Intensity)
    } else if name == "dry_run"@ || name == "malcolm.dry_run"@ {
        Some(EventField::DryRun)
    } else if name == "timestamp_ms"@ || name == "malcolm.timestamp_ms"@ {
        Some(EventField::TimestampMs)
    } else {
        None
    }
}

fn find_field(name: &str) -> (r: Option<EventField>)
    ensures
        r == field_of(name@),
{
    if text::same(name, "fault_type") || text::same(name, "malcolm.fault_type") {
        Some(EventField::FaultType)
    } else if text::same(name, "node_id") || text::same(name, "malcolm.node_id") {
        Some(EventField::NodeId)
    } else if text::same(name, "seed") || text::same(name, "malcolm.seed") {
        Some(EventField::Seed)
    } else if text::same(name, "intensity") || text::same(name, "malcolm.intensity") {
        Some(EventField::Intensity)
    } else if text::same(name, "dry_run") || text::same(name, "malcolm.dry_run") {
        Some(EventField::DryRun)
    } else if text::same(name, "timestamp_ms") || text::same(name, "malcolm.timestamp_ms") {
        Some(EventField::TimestampMs)
    } else {
        None
    }
}

/// `s` without the quotes around it, if it stands in quotes.
pub open spec fn unquoted(s: Seq<char>) -> Seq<char> {
    if s.len() >= 2 && s[0] == '"' && s.last() == '"' {
        s.subrange(1, s.len() - 1)
    } else {
        s
    }
}

/// `value` without the quotes around it, if it stands in quotes.
pub fn trim_quotes(value: &str) -> (out: String)
    ensures
        out@ == unquoted(value@),
{
    let chars = text::chars_of(value);
    let n: usize = chars.len();
    if n >= 2 && chars[0] == '"' && chars[n - 1] == '"' {
        text::string_of(&chars, 1, n - 1)
    } else {
        value.to_owned()
    }
}

/// The truth value that is written as `s`.
pub open spec fn parsed_flag(s: Seq<char>) -> Option<bool> {
    if s == "true"@ {
        Some(true)
    } else if s == "false"@ {
        Some(false)
    } else {
        None
    }
}

fn parse_flag(s: &str) -> (r: Option<bool>)
    ensures
        r == parsed_flag(s@),
{
    proof {
        reveal_strlit("true");
        reveal_strlit("false");
        assert("true"@[0] == 't');
        assert("false"@[0] == 'f');
    }
    if text::same(s, "true") {
        Some(true)
    } else if text::same(s, "false") {
        Some(false)
    } else {
        None
    }
}

/// The number of 64 bits that is written as `s`.
pub open spec fn parsed_word(s: Seq<char>) -> Option<u64> {
    match parsed_unsigned(s, u64::MAX as nat) {
        Some(n) => Some(n as u64),
        None => None,
    }
}

/// The fields of one trace event, as far as they were seen.
#[derive(Debug)]
pub struct EventFields {
    pub fault_type: Option<String>,
    pub node_id: Option<String>,
    pub seed: Option<u64>,
    pub intensity: Option<Scalar>,
    pub dry_run: Option<bool>,
    pub timestamp_ms: Option<u64>,
}

/// Model of the fields.
pub struct FieldsView {
    pub fault_type: Option<Seq<char>>,
    pub node_id: Option<Seq<char>>,
    pub seed: Option<u64>,
    pub intensity: Option<Scalar>,
    pub dry_run: Option<bool>,
    pub timestamp_ms: Option<u64>,
}

impl View for EventFields {
    type V = FieldsView;

    open spec fn view(&self) -> FieldsView {
        FieldsView {
            fault_type: match self.fault_type {
                Some(s) => Some(s@),
                None => None,
            },
            node_id: match self.node_id {
                Some(s) => Some(s@),
                None => None,
            },
            seed: self.seed,
            intensity: self.intensity,
            dry_run: self.dry_run,
            timestamp_ms: self.timestamp_ms,
        }
    }
}

/// No field seen.
pub open spec fn no_fields() -> FieldsView {
    FieldsView {
        fault_type: None,
        node_id: None,
        seed: None,
        intensity: None,
        dry_run: None,
        timestamp_ms: None,
    }
}

/// The fields after one that was rendered as text. `number` is what the text gives
/// as a real number.
pub open spec fn rendered(
    fields: FieldsView,
    name: Seq<char>,
    shown: Seq<char>,
    number: Option<Scalar>,
) -> FieldsView {
    match field_of(name) {
        Some(EventField::FaultType) => FieldsView { fault_type: Some(unquoted(shown)), ..fields },
        Some(EventField::NodeId) => FieldsView { node_id: Some(unquoted(shown)), ..fields },
        Some(EventField::Seed) => FieldsView { seed: parsed_word(shown), ..fields },
        Some(EventField::Intensity) => FieldsView { intensity: number, ..fields },
        Some(EventField::DryRun) => FieldsView { dry_run: parsed_flag(shown), ..fields },
        Some(EventField::TimestampMs) => FieldsView { timestamp_ms: parsed_word(shown), ..fields },
        None => fields,
    }
}

impl EventFields {
    /// No field seen.
    pub fn new() -> (r: Self)
        ensures
            r@ == no_fields(),
    {
        EventFields {
            fault_type: None,
            node_id: None,
            seed: None,
            intensity: None,
            dry_run: None,
            timestamp_ms: None,
        }
    }

    /// Takes a field that was rendered as text. `number` is what the text gives as
    /// a real number, if it does.
    pub fn record_debug(&mut self, name: &str, shown: &str, number: Option<Scalar>)
        ensures
            final(self)@ == rendered(old(self)@, name@, shown@, number),
    {
        match find_field(name) {
            Some(EventField::FaultType) => {
                self.fault_type = Some(trim_quotes(shown));
            },
            Some(EventField::NodeId) => {
                self.node_id = Some(trim_quotes(shown));
            },
            Some(EventField::Seed) => {
                self.seed = text::parse_unsigned(shown, u64::MAX);
            },
            Some(EventField::Intensity) => {
                self.intensity = number;
            },
            Some(EventField::DryRun) => {
                self.dry_run = parse_flag(shown);
            },
            Some(EventField::TimestampMs) => {
                self.timestamp_ms = text::parse_unsigned(shown, u64::MAX);
            },
            None => {},
        }
    }

    /// Takes a field that holds text.
    pub fn record_str(&mut self, name: &str, value: &str)
        ensures
            final(self)@ == match field_of(name@) {
                Some(EventField::FaultType) => FieldsView {
                    fault_type: Some(value@),
                    ..old(self)@
                },
                Some(EventField::NodeId) => FieldsView { node_id: Some(value@), ..old(self)@ },
                _ => old(self)@,
            },
    {
        match find_field(name) {
            Some(EventField::FaultType) => {
                self.fault_type = Some(value.to_owned());
            },
            Some(EventField::NodeId) => {
                self.node_id = Some(value.to_owned());
            },
            _ => {},
        }
    }

    /// Takes a field that holds an unsigned number.
    pub fn record_u64(&mut self, name: &str, value: u64)
        ensures
            final(self)@ == match field_of(name@) {
                Some(EventField::Seed) => FieldsView { seed: Some(value), ..old(self)@ },
                Some(EventField::TimestampMs) => FieldsView {
                    timestamp_ms: Some(value),
                    ..old(self)@
                },
                _ => old(self)@,
            },
    {
        match find_field(name) {
            Some(EventField::Seed) => {
                self.seed = Some(value);
            },
            Some(EventField::TimestampMs) => {
                self.timestamp_ms = Some(value);
            },
            _ => {},
        }
    }

    /// Takes a field that holds a real number.
    pub fn record_scalar(&mut self, name: &str, value: Scalar)
        ensures
            final(self)@ == match field_of(name@) {
                Some(EventField::Intensity) => FieldsView { intensity: Some(value), ..old(self)@ },
                _ => old(self)@,
            },
    {
        match find_field(name) {
            Some(EventField::Intensity) => {
                self.intensity = Some(value);
            },
            _ => {},
        }
    }

    /// Takes a field that holds a truth value.
    pub fn record_bool(&mut self, name: &str, value: bool)
        ensures
            final(self)@ == match field_of(name@) {
                Some(EventField::DryRun) => FieldsView { dry_run: Some(value), ..old(self)@ },
                _ => old(self)@,
            },
    {
        match find_field(name) {
            Some(EventField::DryRun) => {
                self.dry_run = Some(value);
            },
            _ => {},
        }
    }
}

/// The fault event that the fields make up: none without a fault type; what else
/// was not seen is empty, zero or false.
pub open spec fn assembled(fields: FieldsView) -> Option<EventView> {
    match fields.fault_type {
        None => None,
        Some(fault_type) => Some(
            EventView {
                fault_type,
                node_id: match fields.node_id {
                    Some(s) => s,
                    None => Seq::empty(),
                },
                seed: match fields.seed {
                    Some(n) => n,
                    None => 0,
                },
                intensity: match fields.intensity {
                    Some(x) => x,
                    None => Scalar { bits: 0 },
                },
                dry_run: match fields.dry_run {
                    Some(b) => b,
                    None => false,
                },
                timestamp_ms: match fields.timestamp_ms {
                    Some(n) => n,
                    None => 0,
                },
            },
        ),
    }
}

/// Models of a list of fault events.
pub open spec fn fault_event_views(events: Seq<FaultEvent>) -> Seq<EventView> {
    Seq::new(events.len(), |i: int| events[i]@)
}

/// The events collected so far.
#[derive(Debug)]
pub struct MalcolmLayer {
    events: Vec<FaultEvent>,
}

impl View for MalcolmLayer {
    type V = Seq<EventView>;

    closed spec fn view(&self) -> Seq<EventView> {
        fault_event_views(self.events@)
    }
}

impl Default for MalcolmLayer {
    fn default() -> (r: Self)
        ensures
            r@ == Seq::<EventView>::empty(),
    {
        MalcolmLayer::new()
    }
}

impl MalcolmLayer {
    /// An empty collector.
    pub fn new() -> (r: Self)
        ensures
            r@ == Seq::<EventView>::empty(),
    {
        let r = MalcolmLayer { events: Vec::new() };
        assert(r@ =~= Seq::<EventView>::empty());
        r
    }

    /// The collected events, in order.
    pub fn events(&self) -> (r: Vec<FaultEvent>)
        ensures
            fault_event_views(r@) == self@,
    {
        let r: Vec<FaultEvent> = self.events.clone();
        assert(fault_event_views(r@) =~= self@);
        r
    }

    /// Forgets all events.
    pub fn clear(&mut self)
        ensures
            final(self)@ == Seq::<EventView>::empty(),
    {
        self.events = Vec::new();
        assert(self@ =~= Seq::<EventView>::empty());
    }

    /// Takes one trace event: keeps it if it has the target of this library and
    /// names a fault type.
    pub fn on_event(&mut self, target: &str, fields: EventFields)
        ensures
            final(self)@ == match assembled(fields@) {
                Some(event) => if target@ == TARGET@ {
                    old(self)@.push(event)
                } else {
                    old(self)@
                },
                None => old(self)@,
            },
    {
        if !text::same(target, TARGET) {
            return;
        }
        if let Some(fault_type) = fields.fault_type {
            let event = FaultEvent {
                fault_type,
                node_id: match fields.node_id {
                    Some(s) => s,
                    None => String::new(),
                },
                seed: match fields.seed {
                    Some(n) => n,
                    None => 0,
                },
                intensity: match fields.intensity {
                    Some(x) => x,
                    None => Scalar::zero(),
                },
                dry_run: match fields.dry_run {
                    Some(b) => b,
                    None => false,
                },
                timestamp_ms: match fields.timestamp_ms {
                    Some(n) => n,
                    None => 0,
                },
            };
            self.events.push(event);
            assert(self@ =~= old(self)@.push(event@));
        }
    }
}

} // verus!
