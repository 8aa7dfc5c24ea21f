//! The read path against the embedded store: the filter-to-query compiler,
//! the strict decoding of stored rows back into events, and the fixed
//! statements the store is prepared and seeded with.

use crate::client::EventFilter;
use crate::text::{spec_decimal_text, u64_decimal};
use crate::types::{
    pairs_to_map, parse_timestamp, payload_keys_unique, payload_model, spec_parse_timestamp,
    spec_parse_type, Event, EventModel,
};
use vstd::prelude::*;

verus! {

/// Configuration of the embedded store client.
#[derive(Clone, Debug)]
pub struct SqliteClientConfig {
    /// Path to the database file; `":memory:"` opens an in-memory database.
    pub path: String,
    /// Whether to seed the store with generated example events.
    pub create_testdata: bool,
}

impl Default for SqliteClientConfig {
    /// An in-memory database without generated example events.
    fn default() -> (r: SqliteClientConfig)
        ensures
            r.path@ == ":memory:"@,
            r.create_testdata == false,
    {
        SqliteClientConfig { path: String::from_str(":memory:"), create_testdata: false }
    }
}

/// Mathematical model of a bound query parameter.
pub ghost enum QueryParamModel {
    Text(Seq<char>),
    Count(int),
}

/// One parameter bound to a compiled query, in binding order.
#[derive(Debug, Clone)]
pub enum QueryParam {
    /// A text value.
    Text(String),
    /// A result-count limit.
    Count(u32),
}

impl View for QueryParam {
    type V = QueryParamModel;

    open spec fn view(&self) -> QueryParamModel {
        match self {
            QueryParam::Text(s) => QueryParamModel::Text(s@),
            QueryParam::Count(n) => QueryParamModel::Count(*n as int),
        }
    }
}

/// The bound parameters of a query as their models, in binding order.
pub open spec fn params_model(params: Seq<QueryParam>) -> Seq<QueryParamModel> {
    params.map_values(|p: QueryParam| p@)
}

/// A compiled read query: its text, with one `?` placeholder per bound
/// parameter, and the parameters in binding order.
#[derive(Debug)]
pub struct CompiledQuery {
    /// The query text.
    pub text: String,
    /// The bound parameters, in placeholder order.
    pub params: Vec<QueryParam>,
}

/// The text a filter compiles to: the fixed select, one parameterized
/// predicate clause for every variant but `All`, and the parameterized
/// limit. Values reach the query only through `?` placeholders, never by
/// interpolation.
pub open spec fn spec_query_text(filter: EventFilter) -> Seq<char> {
    "SELECT * FROM event "@ + (match filter {
        EventFilter::All => Seq::<char>::empty(),
        EventFilter::ByType(_) => "WHERE event_type = "@ + "?"@,
        EventFilter::ByObject(_) => "WHERE objectId = "@ + "?"@,
        EventFilter::ById(_) => "WHERE id = "@ + "?"@,
    }) + " LIMIT "@ + "?"@
}

/// The parameters a filter compiles to: the filter's carried value, where it
/// has one — the type filter binds the type's canonical text — followed by
/// the limit, always bound last.
pub open spec fn spec_query_params(filter: EventFilter, limit: int) -> Seq<QueryParamModel> {
    (match filter {
        EventFilter::All => Seq::<QueryParamModel>::empty(),
        EventFilter::ByType(t) => seq![
            QueryParamModel::Text(crate::types::spec_type_text(t@)),
        ],
        EventFilter::ByObject(o) => seq![QueryParamModel::Text(o@)],
        EventFilter::ById(i) => seq![QueryParamModel::Text(i@)],
    }) + seq![QueryParamModel::Count(limit)]
}

/// Compile a filter and a result-count limit into a parameterized query.
/// Pure: the same filter and limit always compile to the same text and the
/// same parameter list.
pub fn build_query(count: u32, filter: EventFilter) -> (r: CompiledQuery)
    ensures
        r.text@ == spec_query_text(filter),
        params_model(r.params@) == spec_query_params(filter, count as int),
{
    let ghost filter_model = filter;
    let mut text = String::from_str("SELECT * FROM event ");
    let mut params: Vec<QueryParam> = Vec::new();
    match filter {
        EventFilter::All => {},
        EventFilter::ByType(t) => {
            text.append("WHERE event_type = ");
            text.append("?");
            params.push(QueryParam::Text(t.to_text()));
        },
        EventFilter::ByObject(o) => {
            text.append("WHERE objectId = ");
            text.append("?");
            params.push(QueryParam::Text(o));
        },
        EventFilter::ById(i) => {
            text.append("WHERE id = ");
            text.append("?");
            params.push(QueryParam::Text(i));
        },
    }
    text.append(" LIMIT ");
    text.append("?");
    params.push(QueryParam::Count(count));
    proof {
        assert(text@ =~= spec_query_text(filter_model));
        assert(params_model(params@) =~= spec_query_params(filter_model, count as int));
    }
    CompiledQuery { text, params }
}

/// Query compilation is deterministic: any two compilations of the same
/// filter and limit yield the same query text and the same bound parameters.
pub proof fn lemma_query_compilation_deterministic(
    a: CompiledQuery,
    b: CompiledQuery,
    filter: EventFilter,
    limit: int,
)
    requires
        a.text@ == spec_query_text(filter),
        params_model(a.params@) == spec_query_params(filter, limit),
        b.text@ == spec_query_text(filter),
        params_model(b.params@) == spec_query_params(filter, limit),
    ensures
        a.text@ == b.text@,
        params_model(a.params@) == params_model(b.params@),
{
}

/// What serde_json reads from the stored payload column: the key/value
/// bindings of a JSON object whose values are all strings, or nothing where
/// the text is not such an object.
pub uninterp spec fn json_string_map(s: Seq<char>) -> Option<Map<Seq<char>, Seq<char>>>;

/// Relies on `serde_json::from_str` deserializing a `HashMap<String,
/// String>`: which texts are accepted, and which bindings they carry, depend
/// on the text alone; the keys of the resulting map are unique; the order in
/// which the map hands its entries out is not fixed, so nothing is said of
/// the order of the returned pairs.
#[verifier::external_body]
fn parse_payload_map(s: &str) -> (r: Option<Vec<(String, String)>>)
    ensures
        match r {
            Some(v) => json_string_map(s@) matches Some(m) && payload_keys_unique(
                payload_model(v@),
            ) && pairs_to_map(payload_model(v@)) == m,
            None => json_string_map(s@) is None,
        },
{
    match serde_json::from_str::<std::collections::HashMap<String, String>>(s) {
        Ok(m) => Some(m.into_iter().collect()),
        Err(_) => None,
    }
}

/// Mathematical model of an [`EventRow`]: the column values as character
/// sequences.
pub ghost struct RowModel {
    pub id: Seq<char>,
    pub object_id: Option<Seq<char>>,
    pub event_type: Seq<char>,
    pub timestamp: Seq<char>,
    pub payload: Seq<char>,
}

/// The columns of one stored row, as the store hands them out.
#[derive(Debug)]
pub struct EventRow {
    /// The `id` column.
    pub id: String,
    /// The nullable `objectId` column.
    pub object_id: Option<String>,
    /// The `event_type` column.
    pub event_type: String,
    /// The `timestamp` column.
    pub timestamp: String,
    /// The `payload` column.
    pub payload: String,
}

impl View for EventRow {
    type V = RowModel;

    open spec fn view(&self) -> RowModel {
        RowModel {
            id: self.id@,
            object_id: match self.object_id {
                Some(o) => Some(o@),
                None => None,
            },
            event_type: self.event_type@,
            timestamp: self.timestamp@,
            payload: self.payload@,
        }
    }
}

/// The stored rows as their models, in storage iteration order.
pub open spec fn rows_model(rows: Seq<EventRow>) -> Seq<RowModel> {
    rows.map_values(|r: EventRow| r@)
}

/// A row decodes when its `event_type`, `timestamp` and `payload` columns
/// each parse.
pub open spec fn row_ok(r: RowModel) -> bool {
    &&& spec_parse_type(r.event_type) is Some
    &&& spec_parse_timestamp(r.timestamp) is Some
    &&& json_string_map(r.payload) is Some
}

/// The error of a row that does not decode: the first column that fails to
/// parse, named, together with the row's event identifier.
pub open spec fn row_error(r: RowModel) -> Seq<char> {
    if spec_parse_type(r.event_type) is None {
        "invalid event_type in row "@ + r.id
    } else if spec_parse_timestamp(r.timestamp) is None {
        "invalid timestamp in row "@ + r.id
    } else {
        "invalid payload in row "@ + r.id
    }
}

/// The event a decodable row denotes: identifying columns taken as they are,
/// the parsed type and instant, and the payload pairs denoting exactly the
/// stored mapping (their order, like the mapping, is unordered).
pub open spec fn event_matches_row(e: EventModel, r: RowModel) -> bool {
    &&& e.event_id == r.id
    &&& e.object_id == r.object_id
    &&& spec_parse_type(r.event_type) == Some(e.event_type)
    &&& spec_parse_timestamp(r.timestamp) == Some(e.timestamp)
    &&& json_string_map(r.payload) matches Some(m) && payload_keys_unique(e.payload)
        && pairs_to_map(e.payload) == m
}

/// Decode one stored row into an event. The identifying columns are taken as
/// they are; the `event_type`, `timestamp` and `payload` columns must each
/// parse, and the first that does not fails the whole row with an error
/// naming the column and the row's event identifier — no partial event is
/// ever returned.
pub fn decode_row(row: EventRow) -> (r: Result<Event, String>)
    ensures
        match r {
            Ok(e) => row_ok(row@) && event_matches_row(e@, row@),
            Err(m) => !row_ok(row@) && m@ == row_error(row@),
        },
{
    let EventRow { id, object_id, event_type, timestamp, payload } = row;
    let parsed_type = match crate::types::EventType::from_str(event_type.as_str()) {
        Ok(t) => t,
        Err(_) => {
            let mut e = String::from_str("invalid event_type in row ");
            e.append(id.as_str());
            return Err(e);
        },
    };
    let parsed_timestamp = match parse_timestamp(timestamp.as_str()) {
        Some(t) => t,
        None => {
            let mut e = String::from_str("invalid timestamp in row ");
            e.append(id.as_str());
            return Err(e);
        },
    };
    let parsed_payload = match parse_payload_map(payload.as_str()) {
        Some(p) => p,
        None => {
            let mut e = String::from_str("invalid payload in row ");
            e.append(id.as_str());
            return Err(e);
        },
    };
    Ok(
        Event {
            event_id: id,
            object_id,
            event_type: parsed_type,
            timestamp: parsed_timestamp,
            payload: parsed_payload,
        },
    )
}

/// The error of the first row, in storage order, that does not decode — or
/// nothing where every row decodes.
pub open spec fn first_row_error(rows: Seq<RowModel>) -> Option<Seq<char>>
    decreases rows.len(),
{
    if rows.len() == 0 {
        None
    } else if !row_ok(rows[0]) {
        Some(row_error(rows[0]))
    } else {
        first_row_error(rows.drop_first())
    }
}

/// Decode a whole read result: every row, in storage iteration order, each
/// into one event. The first row that does not decode fails the whole call
/// with that row's error; no partial or best-effort result is returned.
pub fn decode_rows(rows: Vec<EventRow>) -> (r: Result<Vec<Event>, String>)
    ensures
        match r {
            Ok(evs) => {
                &&& first_row_error(rows_model(rows@)) is None
                &&& evs@.len() == rows@.len()
                &&& forall|i: int|
                    0 <= i < rows@.len() ==> event_matches_row(
                        (#[trigger] evs@[i])@,
                        rows@[i]@,
                    )
            },
            Err(m) => first_row_error(rows_model(rows@)) == Some(m@),
        },
{
    let ghost orig = rows_model(rows@);
    let mut rows = rows;
    let mut evs: Vec<Event> = Vec::new();
    proof {
        assert(orig.skip(0) =~= orig);
        assert(orig.len() == rows@.len());
    }
    #[verifier::loop_isolation(false)]
    while rows.len() > 0
        invariant
            evs@.len() + rows@.len() == orig.len(),
            forall|j: int| 0 <= j < rows@.len() ==> (#[trigger] rows@[j])@ == orig[evs@.len() + j],
            forall|k: int|
                0 <= k < evs@.len() ==> event_matches_row((#[trigger] evs@[k])@, orig[k]),
            first_row_error(orig) == first_row_error(orig.skip(evs@.len() as int)),
        decreases rows@.len(),
    {
        let ghost k = evs@.len() as int;
        let row = rows.remove(0);
        proof {
            assert(row@ == orig[k]);
            assert(orig.skip(k)[0] == orig[k]);
        }
        match decode_row(row) {
            Ok(e) => {
                let ghost old_evs = evs@;
                evs.push(e);
                proof {
                    assert(evs@ == old_evs.push(evs@.last()));
                    assert(forall|j: int| 0 <= j < old_evs.len() ==> evs@[j] == old_evs[j]);
                    assert(orig.skip(k).drop_first() =~= orig.skip(k + 1));
                }
            },
            Err(m) => {
                proof {
                    assert(first_row_error(orig.skip(k)) == Some(row_error(orig[k])));
                }
                return Err(m);
            },
        }
    }
    proof {
        assert(orig.skip(evs@.len() as int) =~= Seq::<RowModel>::empty());
    }
    Ok(evs)
}

/// How many example events the seeded store holds.
pub const TESTDATA_EVENT_COUNT: u32 = 1000;

/// The statement that prepares the store: issued once before the first use.
pub fn create_table_sql() -> (r: &'static str)
    ensures
        r@ == "CREATE TABLE IF NOT EXISTS event (\n            id TEXT PRIMARY KEY,\n            event_type TEXT NOT NULL,\n            objectId TEXT,\n            timestamp INTEGER NOT NULL,\n            payload JSON NOT NULL\n        );"@,
{
    "CREATE TABLE IF NOT EXISTS event (\n            id TEXT PRIMARY KEY,\n            event_type TEXT NOT NULL,\n            objectId TEXT,\n            timestamp INTEGER NOT NULL,\n            payload JSON NOT NULL\n        );"
}

/// The statement that clears the store before seeding it.
pub fn delete_events_sql() -> (r: &'static str)
    ensures
        r@ == "DELETE FROM event;"@,
{
    "DELETE FROM event;"
}

/// The parameterized statement one seeded event is inserted with.
pub fn insert_event_sql() -> (r: &'static str)
    ensures
        r@ == "INSERT INTO event (id, event_type, objectId, timestamp, payload) VALUES (?, ?, ?, ?, ?)"@,
{
    "INSERT INTO event (id, event_type, objectId, timestamp, payload) VALUES (?, ?, ?, ?, ?)"
}

/// The bind values of the `i`-th seeded example event, given the text of its
/// timestamp: in insert order, its identifier `"event-<i>"`, the fixed
/// example type and subject, the timestamp, and the fixed example payload.
pub fn testdata_row(i: u32, timestamp_text: String) -> (r: Vec<QueryParam>)
    ensures
        params_model(r@) == seq![
            QueryParamModel::Text("event-"@ + spec_decimal_text(i as int)),
            QueryParamModel::Text("metio.bagaluten.io/test-event/v1"@),
            QueryParamModel::Text("testObject"@),
            QueryParamModel::Text(timestamp_text@),
            QueryParamModel::Text("{\"test\": \"test\"}"@),
        ],
{
    let mut id = String::from_str("event-");
    let digits = u64_decimal(i as u64);
    id.append(digits.as_str());
    let mut r: Vec<QueryParam> = Vec::new();
    r.push(QueryParam::Text(id));
    r.push(QueryParam::Text(String::from_str("metio.bagaluten.io/test-event/v1")));
    r.push(QueryParam::Text(String::from_str("testObject")));
    r.push(QueryParam::Text(timestamp_text));
    r.push(QueryParam::Text(String::from_str("{\"test\": \"test\"}")));
    proof {
        assert(params_model(r@) =~= seq![
            QueryParamModel::Text("event-"@ + spec_decimal_text(i as int)),
            QueryParamModel::Text("metio.bagaluten.io/test-event/v1"@),
            QueryParamModel::Text("testObject"@),
            QueryParamModel::Text(timestamp_text@),
            QueryParamModel::Text("{\"test\": \"test\"}"@),
        ]);
    }
    r
}

} // verus!
