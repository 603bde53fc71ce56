//! Running a statement: whether it gives rows, and how many of them are answered.

use vstd::prelude::*;
use vstd::string::*;
use vstd::pervasive::unreached;

use crate::cells::{row_json, row_to_json};
use crate::json::{items_view, lemma_json_view, members_view, named, Json, JsonView};
use crate::protocol::{
    fail, fail_missing, fail_poisoned, fails, is_missing, is_poisoned, strings_view, Action,
    ActionView, Event, EventView, Pending, PendingView, Response, ResponseView, Step, StepView,
};
use crate::target::string_view;
use crate::text::{ascii_lower, joined, starts_with, to_lower, trim_start, trimmed_start};

verus! {

/// The words that a statement which gives rows starts with.
pub open spec fn query_words() -> Seq<Seq<char>> {
    seq![
        "select"@,
        "with"@,
        "show"@,
        "pragma"@,
        "explain"@,
        "describe"@,
        "values"@,
        "table"@,
        "call"@,
    ]
}

/// Whether a statement gives rows: after leading white space it starts with one of the words, in
/// any case.
pub open spec fn gives_rows(sql: Seq<char>) -> bool {
    exists|i: int|
        0 <= i < query_words().len() && (#[trigger] query_words()[i]).is_prefix_of(
            ascii_lower(trimmed_start(sql)),
        )
}

/// Whether a statement gives rows.
pub fn is_query(sql: &str) -> (r: bool)
    ensures
        r == gives_rows(sql@),
{
    let lead = to_lower(&trim_start(sql));
    let words: [&str; 9] = [
        "select",
        "with",
        "show",
        "pragma",
        "explain",
        "describe",
        "values",
        "table",
        "call",
    ];
    let mut i: usize = 0;
    assert(forall|k: int| 0 <= k < 9 ==> (#[trigger] words@[k])@ == query_words()[k]);
    while i < 9
        invariant
            i <= 9,
            lead@ == ascii_lower(trimmed_start(sql@)),
            forall|k: int| 0 <= k < 9 ==> (#[trigger] words@[k])@ == query_words()[k],
            forall|k: int|
                0 <= k < i ==> !(#[trigger] query_words()[k]).is_prefix_of(lead@),
        decreases 9 - i,
    {
        assert(words@[i as int]@ == query_words()[i as int]);
        if starts_with(&lead, words[i]) {
            return true;
        }
        i += 1;
    }
    false
}

/// How far a query has got.
#[derive(Debug, PartialEq, Eq)]
pub enum Querying {
    /// The connection is being looked for.
    Finding { connection_id: String, sql: String, cap: usize },
    /// A statement that gives no rows is running.
    Executing { connection_id: String },
    /// A statement that gives rows is being started.
    Starting { connection_id: String, cap: usize },
    /// The next row is being fetched.
    Fetching { connection_id: String, columns: Vec<String>, cap: usize, rows: Vec<Json> },
    /// The cells of a row are being read.
    Reading { connection_id: String, columns: Vec<String>, cap: usize, rows: Vec<Json> },
}

/// The content of a [`Querying`] state.
#[verifier::ext_equal]
pub ghost enum QueryingView {
    Finding { connection_id: Seq<char>, sql: Seq<char>, cap: usize },
    Executing { connection_id: Seq<char> },
    Starting { connection_id: Seq<char>, cap: usize },
    Fetching {
        connection_id: Seq<char>,
        columns: Seq<Seq<char>>,
        cap: usize,
        rows: Seq<JsonView>,
    },
    Reading { connection_id: Seq<char>, columns: Seq<Seq<char>>, cap: usize, rows: Seq<JsonView> },
}

impl View for Querying {
    type V = QueryingView;

    open spec fn view(&self) -> QueryingView {
        match self {
            Querying::Finding { connection_id, sql, cap } => QueryingView::Finding {
                connection_id: connection_id@,
                sql: sql@,
                cap: *cap,
            },
            Querying::Executing { connection_id } => QueryingView::Executing {
                connection_id: connection_id@,
            },
            Querying::Starting { connection_id, cap } => QueryingView::Starting {
                connection_id: connection_id@,
                cap: *cap,
            },
            Querying::Fetching { connection_id, columns, cap, rows } => QueryingView::Fetching {
                connection_id: connection_id@,
                columns: strings_view(columns@),
                cap: *cap,
                rows: items_view(rows@),
            },
            Querying::Reading { connection_id, columns, cap, rows } => QueryingView::Reading {
                connection_id: connection_id@,
                columns: strings_view(columns@),
                cap: *cap,
                rows: items_view(rows@),
            },
        }
    }
}

/// An action on the way to the result of a query.
pub open spec fn query_goes_on(action: ActionView, state: QueryingView) -> StepView {
    StepView::Perform(action, PendingView::Query(state))
}

/// The first step of a query call; `cap` is the largest number of rows to answer.
pub open spec fn query_spec(
    connection_id: Seq<char>,
    sql: Option<Seq<char>>,
    cap: usize,
) -> StepView {
    match sql {
        Some(sql) => query_goes_on(
            ActionView::FindConnection(connection_id),
            QueryingView::Finding { connection_id, sql, cap },
        ),
        None => fails("connector.invalidRequest"@, "query requires a string sql field."@),
    }
}

/// The failure of the driver during a query.
pub open spec fn query_fails(message: Seq<char>) -> StepView {
    fails("connector.queryFailed"@, "query failed: "@ + message)
}

/// The response to a query call that succeeded.
pub open spec fn queried(
    connection_id: Seq<char>,
    columns: Seq<Seq<char>>,
    rows: Seq<JsonView>,
    truncated: bool,
) -> ResponseView {
    ResponseView::Fields(
        seq![
            ("connectionId"@, JsonView::Text(connection_id)),
            (
                "columns"@,
                JsonView::Array(columns.map_values(|c: Seq<char>| JsonView::Text(c))),
            ),
            ("rows"@, JsonView::Array(rows)),
            ("truncated"@, JsonView::Bool(truncated)),
        ],
    )
}

/// The next step of a query call; nothing where the event does not answer the action. Rows are
/// taken as long as there are fewer than the cap; a row beyond the cap is not read, and the
/// result is truncated.
pub open spec fn query_next(state: QueryingView, event: EventView) -> Option<StepView> {
    match state {
        QueryingView::Finding { connection_id, sql, cap } => match event {
            EventView::Done => Some(
                if gives_rows(sql) {
                    query_goes_on(
                        ActionView::StartQuery(sql),
                        QueryingView::Starting { connection_id, cap },
                    )
                } else {
                    query_goes_on(
                        ActionView::RunStatement(sql),
                        QueryingView::Executing { connection_id },
                    )
                },
            ),
            EventView::Missing => Some(is_missing(connection_id)),
            EventView::Poisoned => Some(is_poisoned()),
            _ => None,
        },
        QueryingView::Executing { connection_id } => match event {
            EventView::Done => Some(
                StepView::Respond(queried(connection_id, seq![], seq![], false)),
            ),
            EventView::Failed(e) => Some(query_fails(e)),
            _ => None,
        },
        QueryingView::Starting { connection_id, cap } => match event {
            EventView::Columns(columns) => Some(
                query_goes_on(
                    ActionView::FetchRow,
                    QueryingView::Fetching { connection_id, columns, cap, rows: seq![] },
                ),
            ),
            EventView::Failed(e) => Some(query_fails(e)),
            _ => None,
        },
        QueryingView::Fetching { connection_id, columns, cap, rows } => match event {
            EventView::Row => Some(
                if rows.len() >= cap {
                    StepView::Respond(queried(connection_id, columns, rows, true))
                } else {
                    query_goes_on(
                        ActionView::ReadCells(columns.len() as usize),
                        QueryingView::Reading { connection_id, columns, cap, rows },
                    )
                },
            ),
            EventView::EndOfRows => Some(
                StepView::Respond(queried(connection_id, columns, rows, false)),
            ),
            EventView::Failed(e) => Some(query_fails(e)),
            _ => None,
        },
        QueryingView::Reading { connection_id, columns, cap, rows } => match event {
            EventView::Cells(cells) => if cells.len() == columns.len() {
                Some(
                    query_goes_on(
                        ActionView::FetchRow,
                        QueryingView::Fetching {
                            connection_id,
                            columns,
                            cap,
                            rows: rows.push(row_json(cells)),
                        },
                    ),
                )
            } else {
                None
            },
            _ => None,
        },
    }
}

fn go_on(action: Action, state: Querying) -> (r: Step)
    ensures
        r@ == query_goes_on(action@, state@),
{
    Step::Perform(action, Pending::Query(state))
}

fn fail_query(message: &str) -> (r: Step)
    ensures
        r@ == query_fails(message@),
{
    fail("connector.queryFailed", joined("query failed: ", message))
}

/// The response to a query call that succeeded.
pub fn query_response(
    connection_id: String,
    columns: Vec<String>,
    rows: Vec<Json>,
    truncated: bool,
) -> (r: Response)
    ensures
        r@ == queried(connection_id@, strings_view(columns@), items_view(rows@), truncated),
{
    broadcast use lemma_json_view;

    let ghost names = strings_view(columns@);
    let mut items: Vec<Json> = Vec::new();
    for column in it: columns.into_iter()
        invariant
            it.seq() == columns@,
            names == strings_view(columns@),
            items@.len() == it.index(),
            forall|k: int|
                0 <= k < it.index() ==> (#[trigger] items@[k])@ == JsonView::Text(names[k]),
    {
        items.push(Json::Text(column));
    }
    assert(items_view(items@) =~= names.map_values(|c: Seq<char>| JsonView::Text(c)));
    let fields = vec![
        named("connectionId", Json::Text(connection_id)),
        named("columns", Json::Array(items)),
        named("rows", Json::Array(rows)),
        named("truncated", Json::Bool(truncated)),
    ];
    assert(members_view(fields@) =~= queried(
        connection_id@,
        names,
        items_view(rows@),
        truncated,
    )->Fields_0);
    Response::Fields(fields)
}

/// The first step of a query call. `sql` is the statement, where the request gives one as a
/// string; `max_rows` is the largest number of rows to answer.
pub fn query(connection_id: String, sql: Option<String>, max_rows: usize) -> (r: Step)
    ensures
        r@ == query_spec(connection_id@, string_view(sql), max_rows),
{
    match sql {
        Some(sql) => {
            let id = connection_id.clone();
            go_on(
                Action::FindConnection(id),
                Querying::Finding { connection_id, sql, cap: max_rows },
            )
        },
        None => fail(
            "connector.invalidRequest",
            "query requires a string sql field.".to_owned(),
        ),
    }
}

/// Whether the event answers the action of the state.
pub fn query_expects(state: &Querying, event: &Event) -> (r: bool)
    ensures
        r == query_next(state@, event@) is Some,
{
    match state {
        Querying::Finding { .. } => matches!(event, Event::Done | Event::Missing | Event::Poisoned),
        Querying::Executing { .. } => matches!(event, Event::Done | Event::Failed(_)),
        Querying::Starting { .. } => matches!(event, Event::Columns(_) | Event::Failed(_)),
        Querying::Fetching { .. } => matches!(
            event,
            Event::Row | Event::EndOfRows | Event::Failed(_)
        ),
        Querying::Reading { columns, .. } => match event {
            Event::Cells(cells) => cells.len() == columns.len(),
            _ => false,
        },
    }
}

/// The next step of a query call: runs the statement and collects its rows up to the cap.
pub fn run_query(state: Querying, event: Event) -> (r: Step)
    requires
        query_next(state@, event@) is Some,
    ensures
        query_next(state@, event@) == Some(r@),
{
    match (state, event) {
        (Querying::Finding { connection_id, sql, cap }, Event::Done) => {
            if is_query(&sql) {
                go_on(Action::StartQuery(sql), Querying::Starting { connection_id, cap })
            } else {
                go_on(Action::RunStatement(sql), Querying::Executing { connection_id })
            }
        },
        (Querying::Finding { connection_id, .. }, Event::Missing) => fail_missing(&connection_id),
        (Querying::Finding { .. }, Event::Poisoned) => fail_poisoned(),
        (Querying::Executing { connection_id }, Event::Done) => {
            let columns: Vec<String> = Vec::new();
            let rows: Vec<Json> = Vec::new();
            assert(strings_view(columns@) =~= seq![]);
            assert(items_view(rows@) =~= seq![]);
            Step::Respond(query_response(connection_id, columns, rows, false))
        },
        (Querying::Executing { .. }, Event::Failed(e)) => fail_query(&e),
        (Querying::Starting { connection_id, cap }, Event::Columns(columns)) => {
            let rows: Vec<Json> = Vec::new();
            assert(items_view(rows@) =~= seq![]);
            go_on(Action::FetchRow, Querying::Fetching { connection_id, columns, cap, rows })
        },
        (Querying::Starting { .. }, Event::Failed(e)) => fail_query(&e),
        (Querying::Fetching { connection_id, columns, cap, rows }, Event::Row) => {
            if rows.len() >= cap {
                Step::Respond(query_response(connection_id, columns, rows, true))
            } else {
                let n = columns.len();
                go_on(
                    Action::ReadCells(n),
                    Querying::Reading { connection_id, columns, cap, rows },
                )
            }
        },
        (
            Querying::Fetching { connection_id, columns, cap: _, rows },
            Event::EndOfRows,
        ) => Step::Respond(query_response(connection_id, columns, rows, false)),
        (Querying::Fetching { .. }, Event::Failed(e)) => fail_query(&e),
        (Querying::Reading { connection_id, columns, cap, rows }, Event::Cells(cells)) => {
            let ghost before = items_view(rows@);
            let mut rows = rows;
            let row = row_to_json(cells);
            rows.push(row);
            assert(items_view(rows@) =~= before.push(row@));
            go_on(Action::FetchRow, Querying::Fetching { connection_id, columns, cap, rows })
        },
        _ => unreached(),
    }
}

} // verus!
