//! The change-feed requests the runner accepts: a resolved watermark, or a batch of row events.
use vstd::prelude::*;

use crate::metrics::WebhookKind;
use crate::schema::{QualifiedTableName, SqlIdentifier};
use crate::text::trim;

verus! {

/// A JSON number: its text, and its value when it is a non-negative integer that fits a `u64`.
pub struct JsonNumber {
    pub text: String,
    pub as_u64: Option<u64>,
}

/// A JSON value, as the runner reads a request body.
pub enum JsonValue {
    Null,
    Bool(bool),
    Number(JsonNumber),
    String(String),
    Array(Vec<JsonValue>),
    Object(JsonObject),
}

/// A JSON object: its members in order, each key once.
pub struct JsonObject {
    pub entries: Vec<(String, JsonValue)>,
}

/// The value of the first member named `key`.
pub open spec fn lookup(entries: Seq<(String, JsonValue)>, key: Seq<char>) -> Option<JsonValue>
    decreases entries.len(),
{
    if entries.len() == 0 {
        None
    } else if entries[0].0@ == key {
        Some(entries[0].1)
    } else {
        lookup(entries.drop_first(), key)
    }
}

pub open spec fn member(o: JsonObject, key: Seq<char>) -> Option<JsonValue> {
    lookup(o.entries@, key)
}

/// A string member's text, trimmed, when it is not blank.
pub open spec fn nonblank_text(v: Option<JsonValue>) -> Option<Seq<char>> {
    match v {
        Some(JsonValue::String(s)) => if trim(s@).len() > 0 {
            Some(trim(s@))
        } else {
            None
        },
        _ => None,
    }
}

/// Why a request body was refused.
#[derive(Debug)]
pub enum RunnerWebhookPayloadError {
    InvalidJson { message: String },
    ExpectedObject,
    InvalidResolved,
    UnsupportedShape,
    MissingPayload,
    MissingLength,
    LengthMismatch,
    EmptyPayload,
    InvalidRowEvent,
    MissingSource,
    InvalidSource,
    MissingSourceField { field: &'static str },
    MissingOperation,
    UnsupportedOperation { op: String },
    MissingKey,
    InvalidKey,
    MissingAfter,
    InvalidAfter,
}

/// A payload error, as contracts speak of it.
pub enum PayloadErrorView {
    InvalidJson,
    ExpectedObject,
    InvalidResolved,
    UnsupportedShape,
    MissingPayload,
    MissingLength,
    LengthMismatch,
    EmptyPayload,
    InvalidRowEvent,
    MissingSource,
    InvalidSource,
    MissingSourceField { field: Seq<char> },
    MissingOperation,
    UnsupportedOperation { op: Seq<char> },
    MissingKey,
    InvalidKey,
    MissingAfter,
    InvalidAfter,
}

impl View for RunnerWebhookPayloadError {
    type V = PayloadErrorView;

    open spec fn view(&self) -> PayloadErrorView {
        match self {
            RunnerWebhookPayloadError::InvalidJson { .. } => PayloadErrorView::InvalidJson,
            RunnerWebhookPayloadError::ExpectedObject => PayloadErrorView::ExpectedObject,
            RunnerWebhookPayloadError::InvalidResolved => PayloadErrorView::InvalidResolved,
            RunnerWebhookPayloadError::UnsupportedShape => PayloadErrorView::UnsupportedShape,
            RunnerWebhookPayloadError::MissingPayload => PayloadErrorView::MissingPayload,
            RunnerWebhookPayloadError::MissingLength => PayloadErrorView::MissingLength,
            RunnerWebhookPayloadError::LengthMismatch => PayloadErrorView::LengthMismatch,
            RunnerWebhookPayloadError::EmptyPayload => PayloadErrorView::EmptyPayload,
            RunnerWebhookPayloadError::InvalidRowEvent => PayloadErrorView::InvalidRowEvent,
            RunnerWebhookPayloadError::MissingSource => PayloadErrorView::MissingSource,
            RunnerWebhookPayloadError::InvalidSource => PayloadErrorView::InvalidSource,
            RunnerWebhookPayloadError::MissingSourceField { field } =>
                PayloadErrorView::MissingSourceField { field: field@ },
            RunnerWebhookPayloadError::MissingOperation => PayloadErrorView::MissingOperation,
            RunnerWebhookPayloadError::UnsupportedOperation { op } =>
                PayloadErrorView::UnsupportedOperation { op: op@ },
            RunnerWebhookPayloadError::MissingKey => PayloadErrorView::MissingKey,
            RunnerWebhookPayloadError::InvalidKey => PayloadErrorView::InvalidKey,
            RunnerWebhookPayloadError::MissingAfter => PayloadErrorView::MissingAfter,
            RunnerWebhookPayloadError::InvalidAfter => PayloadErrorView::InvalidAfter,
        }
    }
}

/// What a row event does to its row.
#[derive(Clone, Copy, Debug, PartialEq, Eq, Structural)]
pub enum RowOperation {
    Upsert,
    Delete,
}

/// A row's primary key: named columns, or values in primary-key order.
pub enum RowKey {
    Named(JsonObject),
    Positional(Vec<JsonValue>),
}

/// The change a row event carries.
pub struct RowMutation {
    operation: RowOperation,
    key: RowKey,
    values: Option<JsonObject>,
}

/// Where a row event comes from.
pub struct SourceMetadata {
    database_name: String,
    source_table: QualifiedTableName,
}

/// One row event of a batch.
pub struct RowEvent {
    source: SourceMetadata,
    mutation: RowMutation,
}

/// A batch of row events.
pub struct RowBatchRequest {
    rows: Vec<RowEvent>,
}

/// A resolved watermark.
pub struct ResolvedRequest {
    resolved: String,
}

/// A change-feed request.
pub enum WebhookRequest {
    RowBatch(RowBatchRequest),
    Resolved(ResolvedRequest),
}

/// A row event, as contracts speak of it.
pub struct RowEventView {
    pub database_name: Seq<char>,
    pub table: (Seq<char>, Seq<char>),
    pub operation: RowOperation,
    pub key: RowKey,
    pub values: Option<JsonObject>,
}

/// A request, as contracts speak of it.
pub enum RequestView {
    RowBatch(Seq<RowEventView>),
    Resolved(Seq<char>),
}

impl RowMutation {
    pub closed spec fn operation_spec(&self) -> RowOperation {
        self.operation
    }

    pub closed spec fn key_spec(&self) -> RowKey {
        self.key
    }

    pub closed spec fn values_spec(&self) -> Option<JsonObject> {
        self.values
    }

    pub fn from_parts(operation: RowOperation, key: RowKey, values: Option<JsonObject>) -> (r: Self)
        ensures
            r.operation_spec() == operation,
            r.key_spec() == key,
            r.values_spec() == values,
    {
        RowMutation { operation, key, values }
    }

    pub fn into_raw_parts(self) -> (r: (RowOperation, RowKey, Option<JsonObject>))
        ensures
            r == (self.operation_spec(), self.key_spec(), self.values_spec()),
    {
        (self.operation, self.key, self.values)
    }

    pub fn operation(&self) -> (r: RowOperation)
        ensures
            r == self.operation_spec(),
    {
        self.operation
    }

    pub fn key(&self) -> (r: &RowKey)
        ensures
            *r == self.key_spec(),
    {
        &self.key
    }

    pub fn values(&self) -> (r: Option<&JsonObject>)
        ensures
            match r {
                Some(v) => self.values_spec() == Some(*v),
                None => self.values_spec() is None,
            },
    {
        match &self.values {
            Some(v) => Some(v),
            None => None,
        }
    }
}

impl SourceMetadata {
    pub closed spec fn database_spec(&self) -> Seq<char> {
        self.database_name@
    }

    pub closed spec fn table_spec(&self) -> (Seq<char>, Seq<char>) {
        self.source_table@
    }

    pub fn database_name(&self) -> (r: &str)
        ensures
            r@ == self.database_spec(),
    {
        self.database_name.as_str()
    }

    pub fn source_table(&self) -> (r: &QualifiedTableName)
        ensures
            r@ == self.table_spec(),
    {
        &self.source_table
    }
}

pub open spec fn row_event_view(e: RowEvent) -> RowEventView {
    RowEventView {
        database_name: e.source_spec().database_spec(),
        table: e.source_spec().table_spec(),
        operation: e.mutation_spec().operation_spec(),
        key: e.mutation_spec().key_spec(),
        values: e.mutation_spec().values_spec(),
    }
}

impl RowEvent {
    pub closed spec fn source_spec(&self) -> SourceMetadata {
        self.source
    }

    pub closed spec fn mutation_spec(&self) -> RowMutation {
        self.mutation
    }

    pub fn source(&self) -> (r: &SourceMetadata)
        ensures
            *r == self.source_spec(),
    {
        &self.source
    }

    pub fn into_mutation(self) -> (r: RowMutation)
        ensures
            r == self.mutation_spec(),
    {
        self.mutation
    }
}

impl RowBatchRequest {
    pub closed spec fn rows_spec(&self) -> Seq<RowEvent> {
        self.rows@
    }

    pub fn rows(&self) -> (r: &Vec<RowEvent>)
        ensures
            r@ == self.rows_spec(),
    {
        &self.rows
    }

    pub fn into_rows(self) -> (r: Vec<RowEvent>)
        ensures
            r@ == self.rows_spec(),
    {
        self.rows
    }
}

impl ResolvedRequest {
    pub closed spec fn resolved_spec(&self) -> Seq<char> {
        self.resolved@
    }

    pub fn resolved(&self) -> (r: &str)
        ensures
            r@ == self.resolved_spec(),
    {
        self.resolved.as_str()
    }
}

impl WebhookRequest {
    /// The kind of request, for metrics.
    pub fn kind(&self) -> (r: WebhookKind)
        ensures
            r == match self {
                WebhookRequest::RowBatch(_) => WebhookKind::RowBatch,
                WebhookRequest::Resolved(_) => WebhookKind::Resolved,
            },
    {
        match self {
            WebhookRequest::RowBatch(_) => WebhookKind::RowBatch,
            WebhookRequest::Resolved(_) => WebhookKind::Resolved,
        }
    }
}

/// The operation a row event names: `c`, `u`, `r` upsert, `d` delete.
pub open spec fn operation_of(o: JsonObject) -> Result<RowOperation, PayloadErrorView> {
    match nonblank_text(member(o, "op"@)) {
        None => Err(PayloadErrorView::MissingOperation),
        Some(op) => if op == "c"@ || op == "u"@ || op == "r"@ {
            Ok(RowOperation::Upsert)
        } else if op == "d"@ {
            Ok(RowOperation::Delete)
        } else {
            Err(PayloadErrorView::UnsupportedOperation { op })
        },
    }
}

/// An object member, or the error for a missing or non-object member.
pub open spec fn object_member(
    o: JsonObject,
    key: Seq<char>,
    missing: PayloadErrorView,
    invalid: PayloadErrorView,
) -> Result<JsonObject, PayloadErrorView> {
    match member(o, key) {
        None => Err(missing),
        Some(JsonValue::Object(x)) => Ok(x),
        Some(_) => Err(invalid),
    }
}

/// One row event: its source, then its operation, key, and (for upserts) row values.
pub open spec fn row_event_spec(v: JsonValue) -> Result<RowEventView, PayloadErrorView> {
    match v {
        JsonValue::Object(o) => match member(o, "source"@) {
            None => Err(PayloadErrorView::MissingSource),
            Some(JsonValue::Object(s)) => match nonblank_text(member(s, "database_name"@)) {
                None => Err(PayloadErrorView::MissingSourceField { field: "database_name"@ }),
                Some(db) => match nonblank_text(member(s, "schema_name"@)) {
                    None => Err(PayloadErrorView::MissingSourceField { field: "schema_name"@ }),
                    Some(schema) => match nonblank_text(member(s, "table_name"@)) {
                        None => Err(PayloadErrorView::MissingSourceField { field: "table_name"@ }),
                        Some(table) => match operation_of(o) {
                            Err(e) => Err(e),
                            Ok(op) => match object_member(
                                o,
                                "key"@,
                                PayloadErrorView::MissingKey,
                                PayloadErrorView::InvalidKey,
                            ) {
                                Err(e) => Err(e),
                                Ok(key) => if op == RowOperation::Upsert {
                                    match object_member(
                                        o,
                                        "after"@,
                                        PayloadErrorView::MissingAfter,
                                        PayloadErrorView::InvalidAfter,
                                    ) {
                                        Err(e) => Err(e),
                                        Ok(after) => Ok(
                                            RowEventView {
                                                database_name: db,
                                                table: (schema, table),
                                                operation: op,
                                                key: RowKey::Named(key),
                                                values: Some(after),
                                            },
                                        ),
                                    }
                                } else {
                                    Ok(
                                        RowEventView {
                                            database_name: db,
                                            table: (schema, table),
                                            operation: op,
                                            key: RowKey::Named(key),
                                            values: None,
                                        },
                                    )
                                },
                            },
                        },
                    },
                },
            },
            Some(_) => Err(PayloadErrorView::InvalidSource),
        },
        _ => Err(PayloadErrorView::InvalidRowEvent),
    }
}

/// The row events of a payload, in order; the first bad one stops the reading.
pub open spec fn row_events_spec(rows: Seq<JsonValue>) -> Result<Seq<RowEventView>, PayloadErrorView>
    decreases rows.len(),
{
    if rows.len() == 0 {
        Ok(seq![])
    } else {
        match row_events_spec(rows.drop_last()) {
            Err(e) => Err(e),
            Ok(prev) => match row_event_spec(rows.last()) {
                Err(e) => Err(e),
                Ok(r) => Ok(prev.push(r)),
            },
        }
    }
}

/// A request body (already read as JSON): a resolved watermark when it has `resolved`;
/// otherwise a `payload` array whose `length` matches and which is not empty.
pub open spec fn request_spec(v: JsonValue) -> Result<RequestView, PayloadErrorView> {
    match v {
        JsonValue::Object(o) => match member(o, "resolved"@) {
            Some(r) => match nonblank_text(Some(r)) {
                Some(t) => Ok(RequestView::Resolved(t)),
                None => Err(PayloadErrorView::InvalidResolved),
            },
            None => match member(o, "payload"@) {
                None => Err(PayloadErrorView::UnsupportedShape),
                Some(JsonValue::Array(rows)) => match member(o, "length"@) {
                    Some(JsonValue::Number(n)) if n.as_u64 is Some => if n.as_u64->0 != rows@.len() {
                        Err(PayloadErrorView::LengthMismatch)
                    } else if rows@.len() == 0 {
                        Err(PayloadErrorView::EmptyPayload)
                    } else {
                        match row_events_spec(rows@) {
                            Err(e) => Err(e),
                            Ok(events) => Ok(RequestView::RowBatch(events)),
                        }
                    },
                    _ => Err(PayloadErrorView::MissingLength),
                },
                Some(_) => Err(PayloadErrorView::MissingPayload),
            },
        },
        _ => Err(PayloadErrorView::ExpectedObject),
    }
}

pub open spec fn request_view(r: WebhookRequest) -> RequestView {
    match r {
        WebhookRequest::Resolved(x) => RequestView::Resolved(x.resolved_spec()),
        WebhookRequest::RowBatch(b) => RequestView::RowBatch(
            b.rows_spec().map_values(|e: RowEvent| row_event_view(e)),
        ),
    }
}

proof fn lemma_lookup(entries: Seq<(String, JsonValue)>, key: Seq<char>, i: int)
    requires
        0 <= i <= entries.len(),
        forall|j: int| 0 <= j < i ==> (#[trigger] entries[j]).0@ != key,
        i == entries.len() || entries[i].0@ == key,
    ensures
        lookup(entries, key) == if i == entries.len() {
            None
        } else {
            Some(entries[i].1)
        },
    decreases i,
{
    if i > 0 {
        let t = entries.drop_first();
        assert forall|j: int| 0 <= j < i - 1 implies (#[trigger] t[j]).0@ != key by {
            assert(t[j] == entries[j + 1]);
        }
        if i < entries.len() {
            assert(t[i - 1] == entries[i]);
        }
        lemma_lookup(t, key, i - 1);
    }
}

impl JsonObject {
    /// Where the first member named `key` is.
    fn position(&self, key: &str) -> (r: Option<usize>)
        ensures
            match r {
                Some(i) => i < self.entries@.len() && self.entries@[i as int].0@ == key@ && member(
                    *self,
                    key@,
                ) == Some(self.entries@[i as int].1),
                None => member(*self, key@) is None,
            },
    {
        let mut i: usize = 0;
        while i < self.entries.len()
            invariant
                i <= self.entries.len(),
                forall|j: int| 0 <= j < i ==> (#[trigger] self.entries@[j]).0@ != key@,
            decreases self.entries.len() - i,
        {
            if crate::text::str_eq(self.entries[i].0.as_str(), key) {
                proof {
                    lemma_lookup(self.entries@, key@, i as int);
                }
                return Some(i);
            }
            i += 1;
        }
        proof {
            lemma_lookup(self.entries@, key@, self.entries@.len() as int);
        }
        None
    }

    /// The value of the first member named `key`.
    pub fn get(&self, key: &str) -> (r: Option<&JsonValue>)
        ensures
            match r {
                Some(v) => member(*self, key@) == Some(*v),
                None => member(*self, key@) is None,
            },
    {
        match self.position(key) {
            Some(i) => Some(&self.entries[i].1),
            None => None,
        }
    }

}

/// A string member's trimmed text, when it is not blank.
fn nonblank(v: Option<&JsonValue>) -> (r: Option<String>)
    ensures
        match r {
            Some(s) => nonblank_text(match v {
                Some(x) => Some(*x),
                None => None,
            }) == Some(s@),
            None => nonblank_text(match v {
                Some(x) => Some(*x),
                None => None,
            }) is None,
        },
{
    match v {
        Some(JsonValue::String(s)) => {
            let t = crate::text::trim_str(s.as_str());
            if crate::text::chars_of(t.as_str()).len() > 0 {
                Some(t)
            } else {
                None
            }
        },
        _ => None,
    }
}

fn parse_operation(o: &JsonObject) -> (r: Result<RowOperation, RunnerWebhookPayloadError>)
    ensures
        match (operation_of(*o), r) {
            (Ok(a), Ok(b)) => a == b,
            (Err(a), Err(b)) => a == b@,
            _ => false,
        },
{
    let op = match nonblank(o.get("op")) {
        Some(op) => op,
        None => return Err(RunnerWebhookPayloadError::MissingOperation),
    };
    let s = op.as_str();
    if crate::text::str_eq(s, "c") || crate::text::str_eq(s, "u") || crate::text::str_eq(s, "r") {
        Ok(RowOperation::Upsert)
    } else if crate::text::str_eq(s, "d") {
        Ok(RowOperation::Delete)
    } else {
        Err(RunnerWebhookPayloadError::UnsupportedOperation { op })
    }
}

/// Reads one row event.
fn parse_row_event(value: JsonValue) -> (r: Result<RowEvent, RunnerWebhookPayloadError>)
    ensures
        match (row_event_spec(value), r) {
            (Ok(a), Ok(b)) => row_event_view(b) == a,
            (Err(a), Err(b)) => a == b@,
            _ => false,
        },
{
    let o = match value {
        JsonValue::Object(o) => o,
        _ => return Err(RunnerWebhookPayloadError::InvalidRowEvent),
    };
    let source = match o.get("source") {
        None => return Err(RunnerWebhookPayloadError::MissingSource),
        Some(JsonValue::Object(s)) => s,
        Some(_) => return Err(RunnerWebhookPayloadError::InvalidSource),
    };
    let database_name = match nonblank(source.get("database_name")) {
        Some(x) => x,
        None => return Err(RunnerWebhookPayloadError::MissingSourceField { field: "database_name" }),
    };
    let schema_name = match nonblank(source.get("schema_name")) {
        Some(x) => x,
        None => return Err(RunnerWebhookPayloadError::MissingSourceField { field: "schema_name" }),
    };
    let table_name = match nonblank(source.get("table_name")) {
        Some(x) => x,
        None => return Err(RunnerWebhookPayloadError::MissingSourceField { field: "table_name" }),
    };
    let operation = match parse_operation(&o) {
        Ok(op) => op,
        Err(e) => return Err(e),
    };
    let ki = match o.position("key") {
        Some(i) => i,
        None => return Err(RunnerWebhookPayloadError::MissingKey),
    };
    match &o.entries[ki].1 {
        JsonValue::Object(_) => {},
        _ => return Err(RunnerWebhookPayloadError::InvalidKey),
    }
    let ai: Option<usize> = match operation {
        RowOperation::Upsert => {
            let ai = match o.position("after") {
                Some(i) => i,
                None => return Err(RunnerWebhookPayloadError::MissingAfter),
            };
            match &o.entries[ai].1 {
                JsonValue::Object(_) => {},
                _ => return Err(RunnerWebhookPayloadError::InvalidAfter),
            }
            proof {
                reveal_strlit("key");
                reveal_strlit("after");
                assert("key"@.len() == 3);
                assert("after"@.len() == 5);
                assert(o.entries@[ki as int].0@ == "key"@);
                assert(o.entries@[ai as int].0@ == "after"@);
                assert(o.entries@[ki as int].0@ != o.entries@[ai as int].0@);
            }
            Some(ai)
        },
        RowOperation::Delete => None,
    };
    let mut entries = o.entries;
    let (key_value, after_value) = match ai {
        None => (entries.remove(ki).1, None),
        Some(ai) => {
            if ki > ai {
                let k = entries.remove(ki).1;
                let a = entries.remove(ai).1;
                (k, Some(a))
            } else {
                let a = entries.remove(ai).1;
                let k = entries.remove(ki).1;
                (k, Some(a))
            }
        },
    };
    let key = match key_value {
        JsonValue::Object(k) => k,
        _ => return Err(RunnerWebhookPayloadError::InvalidKey),
    };
    let values = match after_value {
        Some(JsonValue::Object(a)) => Some(a),
        Some(_) => return Err(RunnerWebhookPayloadError::InvalidAfter),
        None => None,
    };
    Ok(
        RowEvent {
            source: SourceMetadata {
                database_name,
                source_table: QualifiedTableName::new(
                    SqlIdentifier::from_string(schema_name),
                    SqlIdentifier::from_string(table_name),
                ),
            },
            mutation: RowMutation { operation, key: RowKey::Named(key), values },
        },
    )
}

pub proof fn lemma_row_events_err(rows: Seq<JsonValue>, k: int)
    requires
        0 <= k <= rows.len(),
        row_events_spec(rows.take(k)) is Err,
    ensures
        row_events_spec(rows) == row_events_spec(rows.take(k)),
    decreases rows.len() - k,
{
    if k < rows.len() {
        assert(rows.take(k + 1).drop_last() == rows.take(k));
        lemma_row_events_err(rows, k + 1);
    } else {
        assert(rows.take(k) == rows);
    }
}

/// Reads a change-feed request body (already read as JSON).
pub fn parse_webhook_request(value: JsonValue) -> (r: Result<WebhookRequest, RunnerWebhookPayloadError>)
    ensures
        match (request_spec(value), r) {
            (Ok(a), Ok(b)) => request_view(b) == a,
            (Err(a), Err(b)) => a == b@,
            _ => false,
        },
{
    let o = match value {
        JsonValue::Object(o) => o,
        _ => return Err(RunnerWebhookPayloadError::ExpectedObject),
    };
    match o.get("resolved") {
        Some(r) => {
            return match nonblank(Some(r)) {
                Some(t) => Ok(WebhookRequest::Resolved(ResolvedRequest { resolved: t })),
                None => Err(RunnerWebhookPayloadError::InvalidResolved),
            };
        },
        None => {},
    }
    let pi = match o.position("payload") {
        Some(i) => i,
        None => return Err(RunnerWebhookPayloadError::UnsupportedShape),
    };
    let n_rows = match &o.entries[pi].1 {
        JsonValue::Array(rows) => rows.len(),
        _ => return Err(RunnerWebhookPayloadError::MissingPayload),
    };
    let length = match o.get("length") {
        Some(JsonValue::Number(n)) => match n.as_u64 {
            Some(l) => l,
            None => return Err(RunnerWebhookPayloadError::MissingLength),
        },
        _ => return Err(RunnerWebhookPayloadError::MissingLength),
    };
    if length as u128 != n_rows as u128 {
        return Err(RunnerWebhookPayloadError::LengthMismatch);
    }
    if n_rows == 0 {
        return Err(RunnerWebhookPayloadError::EmptyPayload);
    }
    let mut entries = o.entries;
    let rows = match entries.remove(pi).1 {
        JsonValue::Array(rows) => rows,
        _ => return Err(RunnerWebhookPayloadError::MissingPayload),
    };
    let ghost rv = rows@;
    let mut events: Vec<RowEvent> = Vec::new();
    let mut rows = rows;
    let mut i: usize = 0;
    assert(rv.take(0) =~= seq![]);
    assert(rv.skip(0) =~= rv);
    assert(events@.map_values(|e: RowEvent| row_event_view(e)) =~= seq![]);
    let ghost target = request_spec(value);
    assert(target == match row_events_spec(rv) {
        Err(e) => Err(e),
        Ok(ev) => Ok(RequestView::RowBatch(ev)),
    });
    while i < n_rows
        invariant
            i <= n_rows,
            n_rows == rv.len(),
            rows@ == rv.skip(i as int),
            target == request_spec(value),
            target == match row_events_spec(rv) {
                Err(e) => Err(e),
                Ok(ev) => Ok(RequestView::RowBatch(ev)),
            },
            row_events_spec(rv.take(i as int)) == Ok::<Seq<RowEventView>, PayloadErrorView>(
                events@.map_values(|e: RowEvent| row_event_view(e)),
            ),
        decreases n_rows - i,
    {
        let row = rows.remove(0);
        assert(row == rv[i as int]);
        assert(rows@ =~= rv.skip(i + 1));
        assert(rv.take(i + 1).drop_last() == rv.take(i as int));
        assert(rv.take(i + 1).last() == rv[i as int]);
        match parse_row_event(row) {
            Ok(e) => {
                let ghost prev = events@;
                events.push(e);
                assert(events@.map_values(|e: RowEvent| row_event_view(e)) =~= prev.map_values(
                    |e: RowEvent| row_event_view(e),
                ).push(row_event_view(events@.last())));
            },
            Err(e) => {
                proof {
                    lemma_row_events_err(rv, i + 1);
                }
                return Err(e);
            },
        }
        i += 1;
    }
    assert(rv.take(n_rows as int) == rv);
    Ok(WebhookRequest::RowBatch(RowBatchRequest { rows: events }))
}

/// The message of a payload error.
pub open spec fn payload_error_text(e: &RunnerWebhookPayloadError) -> Seq<char> {
    match e {
        RunnerWebhookPayloadError::InvalidJson { message } => "request body is not valid JSON: "@ + message@,
        RunnerWebhookPayloadError::ExpectedObject => "request body must be a JSON object"@,
        RunnerWebhookPayloadError::InvalidResolved => "`resolved` must be a non-empty string"@,
        RunnerWebhookPayloadError::UnsupportedShape => "request body must carry `resolved` or `payload`"@,
        RunnerWebhookPayloadError::MissingPayload => "`payload` must be an array"@,
        RunnerWebhookPayloadError::MissingLength => "`length` must be a non-negative integer"@,
        RunnerWebhookPayloadError::LengthMismatch => "`length` does not match the number of rows"@,
        RunnerWebhookPayloadError::EmptyPayload => "`payload` must not be empty"@,
        RunnerWebhookPayloadError::InvalidRowEvent => "each row event must be a JSON object"@,
        RunnerWebhookPayloadError::MissingSource => "row event is missing `source`"@,
        RunnerWebhookPayloadError::InvalidSource => "row event `source` must be an object"@,
        RunnerWebhookPayloadError::MissingOperation => "row event is missing `op`"@,
        RunnerWebhookPayloadError::MissingKey => "row event is missing `key`"@,
        RunnerWebhookPayloadError::InvalidKey => "row event `key` must be an object"@,
        RunnerWebhookPayloadError::MissingAfter => "row event is missing `after`"@,
        RunnerWebhookPayloadError::InvalidAfter => "row event `after` must be an object"@,
        RunnerWebhookPayloadError::MissingSourceField { field } => "row event source is missing `"@ + field@ + "`"@,
        RunnerWebhookPayloadError::UnsupportedOperation { op } => "unsupported row operation `"@ + op@ + "`"@,
    }
}

impl RunnerWebhookPayloadError {
    /// The error's message.
    pub fn render(&self) -> (r: String)
        ensures
            r@ == payload_error_text(self),
    {
        match self {
            RunnerWebhookPayloadError::InvalidJson { message } => {
                let mut s = String::from_str("request body is not valid JSON: ");
                s.append(message.as_str());
                s
            },
            RunnerWebhookPayloadError::ExpectedObject => String::from_str("request body must be a JSON object"),
            RunnerWebhookPayloadError::InvalidResolved => String::from_str("`resolved` must be a non-empty string"),
            RunnerWebhookPayloadError::UnsupportedShape => String::from_str("request body must carry `resolved` or `payload`"),
            RunnerWebhookPayloadError::MissingPayload => String::from_str("`payload` must be an array"),
            RunnerWebhookPayloadError::MissingLength => String::from_str("`length` must be a non-negative integer"),
            RunnerWebhookPayloadError::LengthMismatch => String::from_str("`length` does not match the number of rows"),
            RunnerWebhookPayloadError::EmptyPayload => String::from_str("`payload` must not be empty"),
            RunnerWebhookPayloadError::InvalidRowEvent => String::from_str("each row event must be a JSON object"),
            RunnerWebhookPayloadError::MissingSource => String::from_str("row event is missing `source`"),
            RunnerWebhookPayloadError::InvalidSource => String::from_str("row event `source` must be an object"),
            RunnerWebhookPayloadError::MissingOperation => String::from_str("row event is missing `op`"),
            RunnerWebhookPayloadError::MissingKey => String::from_str("row event is missing `key`"),
            RunnerWebhookPayloadError::InvalidKey => String::from_str("row event `key` must be an object"),
            RunnerWebhookPayloadError::MissingAfter => String::from_str("row event is missing `after`"),
            RunnerWebhookPayloadError::InvalidAfter => String::from_str("row event `after` must be an object"),
            RunnerWebhookPayloadError::MissingSourceField { field } => {
                let mut s = String::from_str("row event source is missing `");
                s.append(field);
                s.append("`");
                s
            },
            RunnerWebhookPayloadError::UnsupportedOperation { op } => {
                let mut s = String::from_str("unsupported row operation `");
                s.append(op.as_str());
                s.append("`");
                s
            },
        }
    }
}

/// A row event that parses is an upsert exactly when its trimmed `op` is `c`, `u` or `r` (an
/// initial-scan row), and then its values are its `after` object; it is a delete exactly when
/// its `op` is `d`, and then it carries no values. None of these four is refused as an
/// unsupported operation.
pub proof fn lemma_row_operation_follows_op(o: JsonObject)
    ensures
        row_event_spec(JsonValue::Object(o)) matches Ok(r) ==> {
            let op = nonblank_text(member(o, "op"@));
            &&& (op == Some("c"@) || op == Some("u"@) || op == Some("r"@)) <==> r.operation
                == RowOperation::Upsert
            &&& (op == Some("d"@)) <==> r.operation == RowOperation::Delete
            &&& r.operation == RowOperation::Upsert ==> r.values is Some && member(o, "after"@)
                == Some(JsonValue::Object(r.values->0))
            &&& r.operation == RowOperation::Delete ==> r.values is None
        },
        row_event_spec(JsonValue::Object(o)) matches Err(PayloadErrorView::UnsupportedOperation { op }) ==> {
            &&& nonblank_text(member(o, "op"@)) == Some(op)
            &&& op != "c"@ && op != "u"@ && op != "r"@ && op != "d"@
        },
{
    reveal_strlit("c");
    reveal_strlit("u");
    reveal_strlit("r");
    reveal_strlit("d");
    assert("c"@ != "d"@ && "u"@ != "d"@ && "r"@ != "d"@) by {
        assert("c"@[0] != "d"@[0] && "u"@[0] != "d"@[0] && "r"@[0] != "d"@[0]);
    }
    if let Ok(r) = row_event_spec(JsonValue::Object(o)) {
        assert(operation_of(o) == Ok::<RowOperation, PayloadErrorView>(r.operation));
        if r.operation == RowOperation::Upsert {
            assert(object_member(o, "after"@, PayloadErrorView::MissingAfter, PayloadErrorView::InvalidAfter)
                == Ok::<JsonObject, PayloadErrorView>(r.values->0));
        }
    }
}

/// The rows of a payload that parses are its row events, each parsed on its own, in order.
pub proof fn lemma_row_events_each(rows: Seq<JsonValue>)
    ensures
        row_events_spec(rows) matches Ok(evs) ==> evs.len() == rows.len() && forall|i: int|
            0 <= i < rows.len() ==> row_event_spec(#[trigger] rows[i]) == Ok::<RowEventView, PayloadErrorView>(
                evs[i],
            ),
    decreases rows.len(),
{
    if rows.len() > 0 {
        lemma_row_events_each(rows.drop_last());
        if let Ok(evs) = row_events_spec(rows) {
            let prev = row_events_spec(rows.drop_last())->Ok_0;
            assert forall|i: int| 0 <= i < rows.len() implies row_event_spec(#[trigger] rows[i]) == Ok::<
                RowEventView,
                PayloadErrorView,
            >(evs[i]) by {
                if i < rows.len() - 1 {
                    assert(rows.drop_last()[i] == rows[i]);
                    assert(evs[i] == prev[i]);
                }
            }
        }
    }
}

/// A parsed row against the event it came from: `c`, `u`, `r` give an upsert carrying the
/// event's `after` object, `d` a delete carrying nothing.
pub open spec fn row_matches_op(ev: RowEventView, row: JsonValue) -> bool {
    match row {
        JsonValue::Object(ro) => {
            let op = nonblank_text(member(ro, "op"@));
            &&& (op == Some("c"@) || op == Some("u"@) || op == Some("r"@)) ==> ev.operation
                == RowOperation::Upsert && member(ro, "after"@) == Some(JsonValue::Object(ev.values->0))
            &&& op == Some("d"@) ==> ev.operation == RowOperation::Delete && ev.values is None
        },
        _ => false,
    }
}

/// Every row of a parsed batch has the operation its event's `op` names: `c`, `u`, `r` are
/// upserts carrying the event's `after` object, `d` deletes carrying nothing.
pub proof fn lemma_batch_row_operations(v: JsonValue)
    ensures
        request_spec(v) matches Ok(RequestView::RowBatch(evs)) ==> (v matches JsonValue::Object(o) && (
        member(o, "payload"@) matches Some(JsonValue::Array(rows)) && evs.len() == rows@.len() && forall|
            i: int,
        | 0 <= i < evs.len() ==> row_matches_op(#[trigger] evs[i], rows@[i]))),
{
    if let Ok(RequestView::RowBatch(evs)) = request_spec(v) {
        if let JsonValue::Object(o) = v {
            if let Some(JsonValue::Array(rows)) = member(o, "payload"@) {
                lemma_row_events_each(rows@);
                assert forall|i: int| 0 <= i < evs.len() implies row_matches_op(#[trigger] evs[i], rows@[i]) by {
                    assert(row_event_spec(rows@[i]) == Ok::<RowEventView, PayloadErrorView>(evs[i]));
                    if let JsonValue::Object(ro) = rows@[i] {
                        lemma_row_operation_follows_op(ro);
                    }
                }
            }
        }
    }
}

} // verus!
