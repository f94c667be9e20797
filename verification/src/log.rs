//! Operator events: what happened, at which level, with named fields.
use vstd::prelude::*;

verus! {

/// The value of an event field.
pub enum FieldValue {
    Text(String),
    Count(u64),
    Flag(bool),
}

/// A field value, as contracts speak of it.
pub enum FieldView {
    Text(Seq<char>),
    Count(u64),
    Flag(bool),
}

impl View for FieldValue {
    type V = FieldView;

    open spec fn view(&self) -> FieldView {
        match self {
            FieldValue::Text(s) => FieldView::Text(s@),
            FieldValue::Count(n) => FieldView::Count(*n),
            FieldValue::Flag(b) => FieldView::Flag(*b),
        }
    }
}

/// The fields, by name; a later field replaces an earlier one of the same name.
pub open spec fn field_map(fields: Seq<(String, FieldValue)>) -> Map<Seq<char>, FieldView>
    decreases fields.len(),
{
    if fields.len() == 0 {
        Map::empty()
    } else {
        field_map(fields.drop_last()).insert(fields.last().0@, fields.last().1@)
    }
}

/// One operator event.
pub struct LogEvent {
    service: String,
    event: String,
    level: &'static str,
    message: String,
    fields: Vec<(String, FieldValue)>,
}

pub struct EventView {
    pub service: Seq<char>,
    pub event: Seq<char>,
    pub level: Seq<char>,
    pub message: Seq<char>,
    pub fields: Map<Seq<char>, FieldView>,
}

impl View for LogEvent {
    type V = EventView;

    closed spec fn view(&self) -> EventView {
        EventView {
            service: self.service@,
            event: self.event@,
            level: self.level@,
            message: self.message@,
            fields: field_map(self.fields@),
        }
    }
}

impl LogEvent {
    /// An event at level `info`, without fields.
    pub fn info(service: &str, event: &str, message: String) -> (r: Self)
        ensures
            r@ == (EventView {
                service: service@,
                event: event@,
                level: "info"@,
                message: message@,
                fields: Map::empty(),
            }),
    {
        LogEvent {
            service: String::from_str(service),
            event: String::from_str(event),
            level: "info",
            message,
            fields: Vec::new(),
        }
    }

    /// An event at level `error`, without fields.
    pub fn error(service: &str, event: &str, message: String) -> (r: Self)
        ensures
            r@ == (EventView {
                service: service@,
                event: event@,
                level: "error"@,
                message: message@,
                fields: Map::empty(),
            }),
    {
        LogEvent {
            service: String::from_str(service),
            event: String::from_str(event),
            level: "error",
            message,
            fields: Vec::new(),
        }
    }

    /// The event with one more field (replacing a field of the same name).
    pub fn with_field(self, key: &str, value: FieldValue) -> (r: Self)
        ensures
            r@ == (EventView { fields: self@.fields.insert(key@, value@), ..self@ }),
    {
        let mut e = self;
        let ghost before = e.fields@;
        e.fields.push((String::from_str(key), value));
        assert(e.fields@.drop_last() == before);
        e
    }

    pub fn service(&self) -> (r: &str)
        ensures
            r@ == self@.service,
    {
        self.service.as_str()
    }

    pub fn event(&self) -> (r: &str)
        ensures
            r@ == self@.event,
    {
        self.event.as_str()
    }

    pub fn level(&self) -> (r: &str)
        ensures
            r@ == self@.level,
    {
        self.level
    }

    pub fn message(&self) -> (r: &str)
        ensures
            r@ == self@.message,
    {
        self.message.as_str()
    }

    /// The fields in the order they were added (later ones win over earlier ones).
    pub fn fields(&self) -> (r: &Vec<(String, FieldValue)>)
        ensures
            field_map(r@) == self@.fields,
    {
        &self.fields
    }

    /// The line written under text logs: the message alone.
    pub fn text_line(&self) -> (r: String)
        ensures
            r@ == self@.message.push('\n'),
    {
        let mut r = self.message.clone();
        crate::text::push_char(&mut r, '\n');
        r
    }
}

} // verus!
