//! What each call does and answers, from the call itself to its last action and its response.

use vstd::prelude::*;

use crate::cells::{cell_json, row_json, CellView};
use crate::connecting::ConnectingView;
use crate::content_laws::{a_member_is_found_under_its_key, is_integer};
use crate::document::parsed_text;
use crate::json::{member, JsonView};
use crate::laws::{actions, connection_of, query_answers_the_first_rows, row_events, run};
use crate::listing::ListingView;
use crate::protocol::{ActionView, EventView, PendingView, ResponseView, StepView};
use crate::querying::{gives_rows, query_goes_on, query_words, QueryingView};
use crate::registry::found;
use crate::session::{call_spec, needs_request_spec, next, CallView, ConnectorView};
use crate::text::{ascii_lower, trimmed_start};

verus! {

/// What tells the names of the methods apart.
pub(crate) proof fn lemma_method_names()
    ensures
        "health"@.len() == 6 && "health"@[0] == 'h' && "health"@[1] == 'e',
        "ping"@.len() == 4 && "ping"@[0] == 'p' && "ping"@[1] == 'i',
        "describe"@.len() == 8 && "describe"@[0] == 'd' && "describe"@[1] == 'e',
        "capabilities"@.len() == 12 && "capabilities"@[0] == 'c' && "capabilities"@[1] == 'a',
        "manifest"@.len() == 8 && "manifest"@[0] == 'm' && "manifest"@[1] == 'a',
        "config"@.len() == 6 && "config"@[0] == 'c' && "config"@[1] == 'o',
        "connect"@.len() == 7 && "connect"@[0] == 'c' && "connect"@[1] == 'o',
        "query"@.len() == 5 && "query"@[0] == 'q' && "query"@[1] == 'u',
        "metadata"@.len() == 8 && "metadata"@[0] == 'm' && "metadata"@[1] == 'e',
        "close"@.len() == 5 && "close"@[0] == 'c' && "close"@[1] == 'l',
{
    reveal_strlit("health");
    reveal_strlit("ping");
    reveal_strlit("describe");
    reveal_strlit("capabilities");
    reveal_strlit("manifest");
    reveal_strlit("config");
    reveal_strlit("connect");
    reveal_strlit("query");
    reveal_strlit("metadata");
    reveal_strlit("close");
}

/// What tells the keys of responses apart.
pub(crate) proof fn lemma_keys()
    ensures
        "engine"@.len() == 6 && "engine"@[0] == 'e' && "engine"@[1] == 'n',
        "abiVersion"@.len() == 10 && "abiVersion"@[0] == 'a' && "abiVersion"@[1] == 'b',
        "driverLinked"@.len() == 12 && "driverLinked"@[0] == 'd' && "driverLinked"@[1] == 'r',
        "manifest"@.len() == 8 && "manifest"@[0] == 'm' && "manifest"@[1] == 'a',
        "config"@.len() == 6 && "config"@[0] == 'c' && "config"@[1] == 'o',
        "connectionId"@.len() == 12 && "connectionId"@[0] == 'c' && "connectionId"@[1] == 'o',
        "columns"@.len() == 7 && "columns"@[0] == 'c' && "columns"@[1] == 'o',
        "rows"@.len() == 4 && "rows"@[0] == 'r' && "rows"@[1] == 'o',
        "truncated"@.len() == 9 && "truncated"@[0] == 't' && "truncated"@[1] == 'r',
        "serverVersion"@.len() == 13 && "serverVersion"@[0] == 's' && "serverVersion"@[1] == 'e',
        "closed"@.len() == 6 && "closed"@[0] == 'c' && "closed"@[1] == 'l',
        "metadata"@.len() == 8 && "metadata"@[0] == 'm' && "metadata"@[1] == 'e',
        "schemas"@.len() == 7 && "schemas"@[0] == 's' && "schemas"@[1] == 'c',
        "name"@.len() == 4 && "name"@[0] == 'n' && "name"@[1] == 'a',
        "objects"@.len() == 7 && "objects"@[0] == 'o' && "objects"@[1] == 'b',
        "schema"@.len() == 6 && "schema"@[0] == 's' && "schema"@[1] == 'c',
        "kind"@.len() == 4 && "kind"@[0] == 'k' && "kind"@[1] == 'i',
        "dataType"@.len() == 8 && "dataType"@[0] == 'd' && "dataType"@[1] == 'a',
        "nullable"@.len() == 8 && "nullable"@[0] == 'n' && "nullable"@[1] == 'u',
        "ordinal"@.len() == 7 && "ordinal"@[0] == 'o' && "ordinal"@[1] == 'r',
{
    reveal_strlit("engine");
    reveal_strlit("abiVersion");
    reveal_strlit("driverLinked");
    reveal_strlit("manifest");
    reveal_strlit("config");
    reveal_strlit("connectionId");
    reveal_strlit("columns");
    reveal_strlit("rows");
    reveal_strlit("truncated");
    reveal_strlit("serverVersion");
    reveal_strlit("closed");
    reveal_strlit("metadata");
    reveal_strlit("schemas");
    reveal_strlit("name");
    reveal_strlit("objects");
    reveal_strlit("schema");
    reveal_strlit("kind");
    reveal_strlit("dataType");
    reveal_strlit("nullable");
    reveal_strlit("ordinal");
}

/// The connector tells its health: its engine, its version and that it has its driver.
pub proof fn health_tells_the_connector(connector: ConnectorView, call: CallView)
    requires
        call.method == "health"@ || call.method == "ping"@,
    ensures
        call_spec(connector, call) matches StepView::Respond(ResponseView::Fields(fields)) && {
            &&& fields.len() == 3
            &&& member(fields, "engine"@) == Some(JsonView::Text(connector.engine))
            &&& member(fields, "abiVersion"@) is Some
            &&& is_integer(member(fields, "abiVersion"@)->0, connector.abi_version as int)
            &&& member(fields, "driverLinked"@) == Some(JsonView::Bool(true))
        },
{
    lemma_method_names();
    lemma_keys();
    let fields = call_spec(connector, call)->Respond_0->Fields_0;
    a_member_is_found_under_its_key(fields, 0);
    a_member_is_found_under_its_key(fields, 1);
    a_member_is_found_under_its_key(fields, 2);
}

/// The connector describes itself: what it tells of its health, and what its manifest and its
/// configuration hold, or null where one of them is no JSON document.
pub proof fn description_tells_the_documents(connector: ConnectorView, call: CallView)
    requires
        call.method == "describe"@ || call.method == "capabilities"@,
    ensures
        call_spec(connector, call) matches StepView::Respond(ResponseView::Fields(fields)) && {
            &&& fields.len() == 5
            &&& member(fields, "engine"@) == Some(JsonView::Text(connector.engine))
            &&& member(fields, "abiVersion"@) is Some
            &&& is_integer(member(fields, "abiVersion"@)->0, connector.abi_version as int)
            &&& member(fields, "driverLinked"@) == Some(JsonView::Bool(true))
            &&& member(fields, "manifest"@) == (if parsed_text(connector.manifest) is Some {
                parsed_text(connector.manifest)
            } else {
                Some(JsonView::Null)
            })
            &&& member(fields, "config"@) == (if parsed_text(connector.config) is Some {
                parsed_text(connector.config)
            } else {
                Some(JsonView::Null)
            })
        },
{
    lemma_method_names();
    lemma_keys();
    let fields = call_spec(connector, call)->Respond_0->Fields_0;
    a_member_is_found_under_its_key(fields, 0);
    a_member_is_found_under_its_key(fields, 1);
    a_member_is_found_under_its_key(fields, 2);
    a_member_is_found_under_its_key(fields, 3);
    a_member_is_found_under_its_key(fields, 4);
}

/// The documents are given as they are, and a method that is none of the ten is refused by its
/// name.
pub proof fn documents_are_given_and_unknown_methods_refused(
    connector: ConnectorView,
    call: CallView,
)
    ensures
        call.method == "manifest"@ ==> call_spec(connector, call) == StepView::Respond(
            ResponseView::Document(connector.manifest),
        ),
        call.method == "config"@ ==> call_spec(connector, call) == StepView::Respond(
            ResponseView::Document(connector.config),
        ),
        !set![
            "health"@,
            "ping"@,
            "describe"@,
            "capabilities"@,
            "manifest"@,
            "config"@,
            "connect"@,
            "query"@,
            "metadata"@,
            "close"@,
        ].contains(call.method) ==> call_spec(connector, call) == StepView::Respond(
            ResponseView::Failure {
                code: "connector.unknownMethod"@,
                message: "unknown connector method: "@ + call.method,
            },
        ),
{
    lemma_method_names();
}

/// A close call removes the connection under its id and tells whether there was one.
pub proof fn close_tells_whether_a_connection_was_open(
    connector: ConnectorView,
    call: CallView,
    existed: bool,
)
    requires
        call.method == "close"@,
    ensures
        actions(call_spec(connector, call), seq![EventView::Removed(existed)]) == seq![
            ActionView::RemoveConnection(call.connection_id),
        ],
        run(call_spec(connector, call), seq![EventView::Removed(existed)]) matches Some(
            StepView::Respond(ResponseView::Fields(fields)),
        ) && {
            &&& fields.len() == 2
            &&& member(fields, "connectionId"@) == Some(JsonView::Text(call.connection_id))
            &&& member(fields, "closed"@) == Some(JsonView::Bool(existed))
        },
{
    lemma_method_names();
    lemma_keys();
    reveal_with_fuel(run, 2);
    reveal_with_fuel(actions, 2);
    let start = call_spec(connector, call);
    let events = seq![EventView::Removed(existed)];
    assert(actions(start, events) =~= seq![ActionView::RemoveConnection(call.connection_id)]);
    let fields = run(start, events)->0->Respond_0->Fields_0;
    a_member_is_found_under_its_key(fields, 0);
    a_member_is_found_under_its_key(fields, 1);
}

/// A call that looks for a connection learns whether one is open under the id, and nothing else.
pub proof fn a_connection_is_found_exactly_if_it_is_open<C>(
    connections: Map<Seq<char>, C>,
    id: Seq<char>,
)
    ensures
        connections.contains_key(id) ==> found(connections, id) == EventView::Done,
        !connections.contains_key(id) ==> found(connections, id) == EventView::Missing,
{
}

/// A query or a listing of a connection that is not open is refused with its id, and a call that
/// cannot reach the open connections is told so.
pub proof fn refusals_tell_their_reason(connector: ConnectorView, call: CallView)
    requires
        (call.method == "query"@ && call.sql is Some) || call.method == "metadata"@ || call.method
            == "close"@,
    ensures
        call.method != "close"@ ==> run(call_spec(connector, call), seq![EventView::Missing])
            == Some(
            StepView::Respond(
                ResponseView::Failure {
                    code: "connector.connectionNotFound"@,
                    message: "no open connection: "@ + call.connection_id,
                },
            ),
        ),
        run(call_spec(connector, call), seq![EventView::Poisoned]) == Some(
            StepView::Respond(
                ResponseView::Failure {
                    code: "connector.statePoisoned"@,
                    message: "Connector connection state is poisoned."@,
                },
            ),
        ),
{
    lemma_method_names();
    reveal_with_fuel(run, 2);
}

/// Whatever a call was doing, it is refused in the same words where its connection is not open, and
/// where the open connections cannot be reached.
pub proof fn refusals_have_their_words(pending: PendingView)
    ensures
        next(pending, EventView::Missing) matches Some(step) ==> step == StepView::Respond(
            ResponseView::Failure {
                code: "connector.connectionNotFound"@,
                message: "no open connection: "@ + connection_of(pending),
            },
        ),
        next(pending, EventView::Poisoned) matches Some(step) ==> step == StepView::Respond(
            ResponseView::Failure {
                code: "connector.statePoisoned"@,
                message: "Connector connection state is poisoned."@,
            },
        ),
{
}

/// Four methods are about a connection and need a request; a call of another method is answered at
/// once, without any action.
pub proof fn four_methods_need_a_request(connector: ConnectorView, call: CallView)
    ensures
        needs_request_spec(call.method) <==> set![
            "connect"@,
            "query"@,
            "metadata"@,
            "close"@,
        ].contains(call.method),
        !needs_request_spec(call.method) ==> call_spec(connector, call) is Respond,
{
}

/// A query without a statement is refused.
pub proof fn a_query_needs_a_statement(connector: ConnectorView, call: CallView)
    requires
        call.method == "query"@,
        call.sql is None,
    ensures
        call_spec(connector, call) == StepView::Respond(
            ResponseView::Failure {
                code: "connector.invalidRequest"@,
                message: "query requires a string sql field."@,
            },
        ),
{
    lemma_method_names();
}

/// A failure of the driver is told with a code and words that say what was being done, and with
/// the driver's own message; but where a token was being applied that message is withheld.
pub proof fn failures_tell_what_was_being_done(pending: PendingView, message: Seq<char>)
    ensures
        ({
            let told = |code: Seq<char>, message: Seq<char>|
                Some(StepView::Respond(ResponseView::Failure { code, message }));
            let answer = next(pending, EventView::Failed(message));
            match pending {
                PendingView::Connect(state) => match state {
                    ConnectingView::Opening { .. } => answer == told(
                        "connector.connectFailed"@,
                        "connect failed: "@ + message,
                    ),
                    ConnectingView::OpeningMotherDuck { .. } => answer == told(
                        "connector.connectFailed"@,
                        "MotherDuck connect failed: "@ + message,
                    ),
                    ConnectingView::LoadingExtension { .. } => answer == told(
                        "connector.connectFailed"@,
                        "loading the MotherDuck extension failed: "@ + message,
                    ),
                    ConnectingView::ApplyingToken { .. } => answer == told(
                        "connector.connectFailed"@,
                        "applying the MotherDuck token failed."@,
                    ),
                    ConnectingView::Attaching { .. } => answer == told(
                        "connector.connectFailed"@,
                        "attaching the MotherDuck database failed: "@ + message,
                    ),
                    ConnectingView::CreatingSample { .. } => answer == told(
                        "connector.seedFailed"@,
                        "duckdb sample schema failed: "@ + message,
                    ),
                    ConnectingView::FillingSample { .. } => answer == told(
                        "connector.seedFailed"@,
                        "duckdb sample data failed: "@ + message,
                    ),
                    _ => answer is None,
                },
                PendingView::Query(state) => if state is Executing || state is Starting
                    || state is Fetching {
                    answer == told("connector.queryFailed"@, "query failed: "@ + message)
                } else {
                    answer is None
                },
                PendingView::Metadata(state) => match state {
                    ListingView::Tables { .. } => answer == told(
                        "connector.metadataFailed"@,
                        "metadata objects failed: "@ + message,
                    ),
                    ListingView::Columns { .. } => answer == told(
                        "connector.metadataFailed"@,
                        "metadata columns failed: "@ + message,
                    ),
                    _ => answer is None,
                },
                PendingView::Close { .. } => answer is None,
            }
        }),
{
}

/// A call takes as answers exactly the events that its action can come to.
pub proof fn only_what_an_action_can_come_to_is_an_answer(pending: PendingView, event: EventView)
    ensures
        next(pending, event) is Some <==> match pending {
            PendingView::Connect(ConnectingView::ReadingVersion { .. }) => event is Text,
            PendingView::Connect(ConnectingView::CountingSample { .. }) => event is Count,
            PendingView::Connect(ConnectingView::Storing { .. }) => event is Done
                || event is Poisoned,
            PendingView::Connect(_) => event is Done || event is Failed,
            PendingView::Query(QueryingView::Finding { .. }) => event is Done || event is Missing
                || event is Poisoned,
            PendingView::Query(QueryingView::Executing { .. }) => event is Done || event is Failed,
            PendingView::Query(QueryingView::Starting { .. }) => event is Columns
                || event is Failed,
            PendingView::Query(QueryingView::Fetching { .. }) => event is Row || event is EndOfRows
                || event is Failed,
            PendingView::Query(QueryingView::Reading { columns, .. }) => event is Cells
                && event->Cells_0.len() == columns.len(),
            PendingView::Metadata(ListingView::Finding { .. }) => event is Done
                || event is Missing || event is Poisoned,
            PendingView::Metadata(ListingView::Tables { .. }) => event is Tables
                || event is Failed,
            PendingView::Metadata(ListingView::Columns { .. }) => event is TableColumns
                || event is Failed,
            PendingView::Close { .. } => event is Removed || event is Poisoned,
        },
{
}

/// A statement gives rows exactly if, after its leading white space, it starts with one of nine
/// words, in any case.
pub proof fn nine_words_start_a_query(sql: Seq<char>, word: Seq<char>)
    ensures
        set![
            "select"@,
            "with"@,
            "show"@,
            "pragma"@,
            "explain"@,
            "describe"@,
            "values"@,
            "table"@,
            "call"@,
        ].contains(word) && word.is_prefix_of(ascii_lower(trimmed_start(sql))) ==> gives_rows(sql),
        gives_rows(sql) ==> exists|w: Seq<char>|
            set![
                "select"@,
                "with"@,
                "show"@,
                "pragma"@,
                "explain"@,
                "describe"@,
                "values"@,
                "table"@,
                "call"@,
            ].contains(w) && #[trigger] w.is_prefix_of(ascii_lower(trimmed_start(sql))),
{
    let words = query_words();
    assert(words[0] == "select"@ && words[1] == "with"@ && words[2] == "show"@ && words[3]
        == "pragma"@ && words[4] == "explain"@ && words[5] == "describe"@ && words[6] == "values"@
        && words[7] == "table"@ && words[8] == "call"@);
    let lead = ascii_lower(trimmed_start(sql));
    if gives_rows(sql) {
        let i = choose|i: int|
            0 <= i < query_words().len() && (#[trigger] query_words()[i]).is_prefix_of(lead);
        assert(words[i].is_prefix_of(lead));
    }
}

/// A statement that gives no rows is run as it is, on the connection of the call, and answered with
/// no columns and no rows.
pub proof fn a_statement_without_rows_is_run(
    connector: ConnectorView,
    call: CallView,
    sql: Seq<char>,
)
    requires
        call.method == "query"@,
        call.sql == Some(sql),
        !gives_rows(sql),
    ensures
        ({
            let start = call_spec(connector, call);
            let events = seq![EventView::Done, EventView::Done];
            &&& actions(start, events) == seq![
                ActionView::FindConnection(call.connection_id),
                ActionView::RunStatement(sql),
            ]
            &&& run(start, events) matches Some(StepView::Respond(ResponseView::Fields(fields)))
            &&& fields.len() == 4
            &&& member(fields, "connectionId"@) == Some(JsonView::Text(call.connection_id))
            &&& member(fields, "columns"@) == Some(JsonView::Array(Seq::empty()))
            &&& member(fields, "rows"@) == Some(JsonView::Array(Seq::empty()))
            &&& member(fields, "truncated"@) == Some(JsonView::Bool(false))
        }),
{
    lemma_method_names();
    lemma_keys();
    reveal_with_fuel(run, 3);
    reveal_with_fuel(actions, 3);
    let start = call_spec(connector, call);
    let events = seq![EventView::Done, EventView::Done];
    assert(events.drop_first()[0] == EventView::Done);
    assert(actions(start, events) =~= seq![
        ActionView::FindConnection(call.connection_id),
        ActionView::RunStatement(sql),
    ]);
    let fields = run(start, events)->0->Respond_0->Fields_0;
    a_member_is_found_under_its_key(fields, 0);
    a_member_is_found_under_its_key(fields, 1);
    a_member_is_found_under_its_key(fields, 2);
    a_member_is_found_under_its_key(fields, 3);
    assert(fields[1].1->Array_0 =~= Seq::empty());
    assert(fields[2].1->Array_0 =~= Seq::empty());
}

/// A query is answered with what the driver has: the names of the columns, and the rows from the
/// first on, value by value, all of them or as many as the call asks for at most. The answer is
/// truncated exactly if there are more.
pub proof fn a_query_answers_what_the_driver_has(
    connector: ConnectorView,
    call: CallView,
    sql: Seq<char>,
    columns: Seq<Seq<char>>,
    rows: Seq<Seq<CellView>>,
)
    requires
        call.method == "query"@,
        call.sql == Some(sql),
        gives_rows(sql),
        forall|i: int| 0 <= i < rows.len() ==> (#[trigger] rows[i]).len() == columns.len(),
    ensures
        ({
            let events = seq![EventView::Done, EventView::Columns(columns)] + row_events(rows);
            &&& run(call_spec(connector, call), events) matches Some(
                StepView::Respond(ResponseView::Fields(fields)),
            )
            &&& fields.len() == 4
            &&& member(fields, "connectionId"@) == Some(JsonView::Text(call.connection_id))
            &&& member(fields, "columns"@) matches Some(JsonView::Array(names))
            &&& names.len() == columns.len()
            &&& forall|i: int|
                0 <= i < columns.len() ==> #[trigger] names[i] == JsonView::Text(columns[i])
            &&& member(fields, "rows"@) matches Some(JsonView::Array(values))
            &&& values.len() == if rows.len() <= call.max_rows {
                rows.len() as int
            } else {
                call.max_rows as int
            }
            &&& forall|i: int|
                0 <= i < values.len() ==> ((#[trigger] values[i]) is Array
                    && values[i]->Array_0.len() == columns.len())
            &&& forall|i: int, j: int|
                0 <= i < values.len() && 0 <= j < columns.len() ==> #[trigger] values[i]->Array_0[j]
                    == cell_json(rows[i][j])
            &&& member(fields, "truncated"@) == Some(JsonView::Bool(rows.len() > call.max_rows))
        }),
{
    lemma_method_names();
    lemma_keys();
    query_answers_the_first_rows(call.connection_id, sql, call.max_rows, columns, rows);
    let events = seq![EventView::Done, EventView::Columns(columns)] + row_events(rows);
    let fields = run(call_spec(connector, call), events)->0->Respond_0->Fields_0;
    a_member_is_found_under_its_key(fields, 0);
    a_member_is_found_under_its_key(fields, 1);
    a_member_is_found_under_its_key(fields, 2);
    a_member_is_found_under_its_key(fields, 3);
    let values = fields[2].1->Array_0;
    assert forall|i: int| 0 <= i < values.len() implies #[trigger] values[i] == row_json(
        rows[i],
    ) by {}
}

proof fn lemma_fetching_actions(
    connection_id: Seq<char>,
    columns: Seq<Seq<char>>,
    cap: usize,
    taken: Seq<JsonView>,
    rows: Seq<Seq<CellView>>,
)
    requires
        taken.len() <= cap,
        columns.len() <= usize::MAX,
        forall|i: int| 0 <= i < rows.len() ==> (#[trigger] rows[i]).len() == columns.len(),
    ensures
        ({
            let room = cap - taken.len();
            let read = if rows.len() <= room {
                rows.len() as int
            } else {
                room
            };
            let performed = actions(
                query_goes_on(
                    ActionView::FetchRow,
                    QueryingView::Fetching { connection_id, columns, cap, rows: taken },
                ),
                row_events(rows),
            );
            &&& performed.len() == 2 * read + 1
            &&& forall|i: int|
                0 <= i < performed.len() ==> #[trigger] performed[i] == if i % 2 == 0 {
                    ActionView::FetchRow
                } else {
                    ActionView::ReadCells(columns.len() as usize)
                }
        }),
    decreases rows.len(),
{
    let start = query_goes_on(
        ActionView::FetchRow,
        QueryingView::Fetching { connection_id, columns, cap, rows: taken },
    );
    let events = row_events(rows);
    let performed = actions(start, events);
    if rows.len() == 0 || taken.len() == cap {
        let after = next(start->Perform_1, events[0])->0;
        assert(after is Respond);
        assert(actions(after, events.drop_first()) =~= seq![]);
        assert(performed =~= seq![ActionView::FetchRow]);
    } else {
        let tail = rows.drop_first();
        let rest = events.drop_first();
        assert(rest.drop_first() =~= row_events(tail));
        assert(rest[0] == EventView::Cells(rows[0]));
        let more = taken.push(row_json(rows[0]));
        let reading = query_goes_on(
            ActionView::ReadCells(columns.len() as usize),
            QueryingView::Reading { connection_id, columns, cap, rows: taken },
        );
        let fetching = query_goes_on(
            ActionView::FetchRow,
            QueryingView::Fetching { connection_id, columns, cap, rows: more },
        );
        lemma_fetching_actions(connection_id, columns, cap, more, tail);
        let later = actions(fetching, row_events(tail));
        assert(next(start->Perform_1, events[0]) == Some(reading));
        assert(next(reading->Perform_1, rest[0]) == Some(fetching));
        assert(actions(reading, rest) == seq![ActionView::ReadCells(columns.len() as usize)]
            + later);
        assert(performed == seq![ActionView::FetchRow] + actions(reading, rest));
        assert forall|i: int| 0 <= i < performed.len() implies #[trigger] performed[i] == if i % 2
            == 0 {
            ActionView::FetchRow
        } else {
            ActionView::ReadCells(columns.len() as usize)
        } by {
            if i >= 2 {
                assert(performed[i] == later[i - 2]);
                assert((i - 2) % 2 == i % 2);
            }
        }
    }
}

/// A query finds the connection of the call and runs the statement as it is. Then it fetches one
/// row after the other, and reads as many cells of each as there are columns, up to the largest
/// number of rows; of a row beyond it reads none.
pub proof fn a_query_reads_no_further_than_it_answers(
    connector: ConnectorView,
    call: CallView,
    sql: Seq<char>,
    columns: Seq<Seq<char>>,
    rows: Seq<Seq<CellView>>,
)
    requires
        call.method == "query"@,
        call.sql == Some(sql),
        gives_rows(sql),
        columns.len() <= usize::MAX,
        forall|i: int| 0 <= i < rows.len() ==> (#[trigger] rows[i]).len() == columns.len(),
    ensures
        ({
            let events = seq![EventView::Done, EventView::Columns(columns)] + row_events(rows);
            let performed = actions(call_spec(connector, call), events);
            let read = if rows.len() <= call.max_rows {
                rows.len() as int
            } else {
                call.max_rows as int
            };
            &&& performed.len() == 3 + 2 * read
            &&& performed[0] == ActionView::FindConnection(call.connection_id)
            &&& performed[1] == ActionView::StartQuery(sql)
            &&& forall|i: int|
                2 <= i < performed.len() ==> #[trigger] performed[i] == if i % 2 == 0 {
                    ActionView::FetchRow
                } else {
                    ActionView::ReadCells(columns.len() as usize)
                }
        }),
{
    lemma_method_names();
    reveal_with_fuel(actions, 3);
    let start = call_spec(connector, call);
    let events = seq![EventView::Done, EventView::Columns(columns)] + row_events(rows);
    assert(events.drop_first()[0] == EventView::Columns(columns));
    assert(events.drop_first().drop_first() =~= row_events(rows));
    lemma_fetching_actions(call.connection_id, columns, call.max_rows, seq![], rows);
    let later = actions(
        query_goes_on(
            ActionView::FetchRow,
            QueryingView::Fetching {
                connection_id: call.connection_id,
                columns,
                cap: call.max_rows,
                rows: seq![],
            },
        ),
        row_events(rows),
    );
    let performed = actions(start, events);
    assert(performed =~= seq![
        ActionView::FindConnection(call.connection_id),
        ActionView::StartQuery(sql),
    ] + later);
    assert forall|i: int| 2 <= i < performed.len() implies #[trigger] performed[i] == if i % 2
        == 0 {
        ActionView::FetchRow
    } else {
        ActionView::ReadCells(columns.len() as usize)
    } by {
        assert(performed[i] == later[i - 2]);
        assert((i - 2) % 2 == i % 2);
    }
}

} // verus!
