//! What holds of every call, whatever its surroundings answer.

use vstd::prelude::*;

use crate::catalog::{
    catalog_of, every_table_is_under_its_schema, flattened, grouped, is_catalog, is_listed,
    object_of, rows_have_a_catalog, schemas_hold_the_catalog, ColumnRowView, Key, TableRowView,
};
use crate::cells::{row_json, CellView};
use crate::connecting::{
    attach_statement, connect_spec, connect_to, token_statement, ConnectingView, PlanView,
};
use crate::json::{member, JsonView};
use crate::listing::{listed, metadata_spec, ListingView};
use crate::protocol::{
    is_missing, is_poisoned, ActionView, EventView, PendingView, ResponseView, StepView,
};
use crate::querying::{gives_rows, queried, query_goes_on, query_spec, QueryingView};
use crate::quoting::{literal_body, quoting_is_safe, read_literal, sql_literal};
use crate::registry::found;
use crate::session::{call_spec, needs_request_spec, next, CallView, ConnectorView};
use crate::target::{database_of, motherduck_is_never_a_file, target_of, token_of, TargetView};
use crate::text::{ascii_lower, ascii_lower_char, is_white_space_spec, trimmed_start};

verus! {

/// Where a call stands after the events, each the answer to the action before it; nothing where
/// an event does not answer its action. Events after the response are ignored.
pub open spec fn run(step: StepView, events: Seq<EventView>) -> Option<StepView>
    decreases events.len(),
{
    match step {
        StepView::Respond(_) => Some(step),
        StepView::Perform(_, pending) => if events.len() == 0 {
            Some(step)
        } else {
            match next(pending, events[0]) {
                Some(after) => run(after, events.drop_first()),
                None => None,
            }
        },
    }
}

/// The actions that a call performs on the way.
pub open spec fn actions(step: StepView, events: Seq<EventView>) -> Seq<ActionView>
    decreases events.len(),
{
    match step {
        StepView::Respond(_) => seq![],
        StepView::Perform(action, pending) => if events.len() == 0 {
            seq![action]
        } else {
            match next(pending, events[0]) {
                Some(after) => seq![action] + actions(after, events.drop_first()),
                None => seq![action],
            }
        },
    }
}

/// How many further actions a call can still come to.
pub open spec fn rank(pending: PendingView) -> nat {
    match pending {
        PendingView::Connect(state) => match state {
            ConnectingView::OpeningMotherDuck { .. } => 8,
            ConnectingView::LoadingExtension { .. } => 7,
            ConnectingView::ApplyingToken { .. } => 6,
            ConnectingView::Attaching { .. } => 5,
            ConnectingView::Opening { .. } => 5,
            ConnectingView::ReadingVersion { .. } => 4,
            ConnectingView::CreatingSample { .. } => 3,
            ConnectingView::CountingSample { .. } => 2,
            ConnectingView::FillingSample { .. } => 1,
            ConnectingView::Storing { .. } => 0,
        },
        PendingView::Query(state) => match state {
            QueryingView::Finding { cap, .. } => (2 * cap + 2) as nat,
            QueryingView::Starting { cap, .. } => (2 * cap + 1) as nat,
            QueryingView::Executing { .. } => 0,
            QueryingView::Fetching { cap, rows, .. } => if rows.len() < cap {
                (2 * (cap - rows.len())) as nat
            } else {
                0
            },
            QueryingView::Reading { cap, rows, .. } => if rows.len() < cap {
                (2 * (cap - rows.len()) - 1) as nat
            } else {
                1
            },
        },
        PendingView::Metadata(state) => match state {
            ListingView::Finding { .. } => 2,
            ListingView::Tables { .. } => 1,
            ListingView::Columns { .. } => 0,
        },
        PendingView::Close { .. } => 0,
    }
}

/// Every call ends: after as many answers as its rank and one more, it has responded.
pub proof fn every_call_ends(step: StepView, events: Seq<EventView>)
    requires
        run(step, events) is Some,
        step matches StepView::Perform(_, pending) ==> events.len() > rank(pending),
    ensures
        run(step, events)->0 is Respond,
    decreases events.len(),
{
    if let StepView::Perform(_, pending) = step {
        let after = next(pending, events[0])->0;
        if let StepView::Perform(_, later) = after {
            assert(rank(later) < rank(pending));
        }
        every_call_ends(after, events.drop_first());
    }
}

/// A failure of the driver ends the call, with a failure whose message ends with the driver's
/// own; but where a token was being applied, the driver's message is withheld.
pub proof fn driver_failure_ends_the_call(pending: PendingView, message: Seq<char>)
    ensures
        next(pending, EventView::Failed(message)) matches Some(step) ==> {
            &&& step matches StepView::Respond(ResponseView::Failure { message: told, .. })
            &&& if pending matches PendingView::Connect(ConnectingView::ApplyingToken { .. }) {
                told == "applying the MotherDuck token failed."@
            } else {
                message.is_suffix_of(told)
            }
        },
{
    if let Some(StepView::Respond(ResponseView::Failure { message: told, .. })) = next(
        pending,
        EventView::Failed(message),
    ) {
        if !(pending matches PendingView::Connect(ConnectingView::ApplyingToken { .. })) {
            assert(told.subrange(told.len() - message.len(), told.len() as int) =~= message);
        }
    }
}

/// The id of the connection that a call is about.
pub open spec fn connection_of(pending: PendingView) -> Seq<char> {
    match pending {
        PendingView::Connect(state) => state.plan().connection_id,
        PendingView::Query(state) => match state {
            QueryingView::Finding { connection_id, .. } => connection_id,
            QueryingView::Starting { connection_id, .. } => connection_id,
            QueryingView::Executing { connection_id } => connection_id,
            QueryingView::Fetching { connection_id, .. } => connection_id,
            QueryingView::Reading { connection_id, .. } => connection_id,
        },
        PendingView::Metadata(state) => match state {
            ListingView::Finding { connection_id } => connection_id,
            ListingView::Tables { connection_id } => connection_id,
            ListingView::Columns { connection_id, .. } => connection_id,
        },
        PendingView::Close { connection_id } => connection_id,
    }
}

/// A call whose connection is not open, or that cannot reach the open connections, is refused in
/// the same words, whatever its method.
pub proof fn refusals_are_uniform(pending: PendingView)
    ensures
        next(pending, EventView::Missing) matches Some(step) ==> step == is_missing(
            connection_of(pending),
        ),
        next(pending, EventView::Poisoned) matches Some(step) ==> step == is_poisoned(),
{
}

/// A step about one connection: what it stores, finds or removes is that connection, what it
/// waits for is about it, and a response with fields names it.
pub open spec fn is_about(step: StepView, id: Seq<char>) -> bool {
    match step {
        StepView::Perform(action, pending) => {
            &&& connection_of(pending) == id
            &&& match action {
                ActionView::StoreConnection(a) => a == id,
                ActionView::FindConnection(a) => a == id,
                ActionView::RemoveConnection(a) => a == id,
                _ => true,
            }
        },
        StepView::Respond(ResponseView::Fields(fields)) => member(fields, "connectionId"@) == Some(
            JsonView::Text(id),
        ),
        StepView::Respond(_) => true,
    }
}

proof fn lemma_keys_differ()
    ensures
        "connectionId"@ != "serverVersion"@,
        "connectionId"@ != "driverLinked"@,
        "connectionId"@ != "rows"@,
        "connectionId"@ != "columns"@,
        "connectionId"@ != "truncated"@,
        "connectionId"@ != "metadata"@,
        "connectionId"@ != "closed"@,
{
    reveal_strlit("connectionId");
    reveal_strlit("serverVersion");
    reveal_strlit("driverLinked");
    reveal_strlit("rows");
    reveal_strlit("columns");
    reveal_strlit("truncated");
    reveal_strlit("metadata");
    reveal_strlit("closed");
    assert("connectionId"@[0] == 'c' && "serverVersion"@[0] == 's');
    assert("driverLinked"@[0] == 'd');
    assert("columns"@.len() == 7 && "connectionId"@.len() == 12);
}

proof fn lemma_next_is_about(pending: PendingView, event: EventView)
    ensures
        next(pending, event) matches Some(step) ==> is_about(step, connection_of(pending)),
{
    lemma_keys_differ();
    reveal_with_fuel(member, 5);
    if let Some(StepView::Respond(ResponseView::Fields(fields))) = next(pending, event) {
        let n = fields.len() as int;
        assert(fields.drop_last().last() == fields[n - 2]);
        if n == 4 {
            assert(fields.drop_last().drop_last().last() == fields[1]);
            assert(fields.drop_last().drop_last().drop_last().last() == fields[0]);
        }
    }
}

proof fn lemma_run_is_about(step: StepView, id: Seq<char>, events: Seq<EventView>)
    requires
        is_about(step, id),
    ensures
        run(step, events) matches Some(last) ==> is_about(last, id),
    decreases events.len(),
{
    if let StepView::Perform(_, pending) = step {
        if events.len() > 0 {
            lemma_next_is_about(pending, events[0]);
            if let Some(after) = next(pending, events[0]) {
                lemma_run_is_about(after, id, events.drop_first());
            }
        }
    }
}

proof fn lemma_methods_differ()
    ensures
        !needs_request_spec("health"@),
        !needs_request_spec("ping"@),
        !needs_request_spec("describe"@),
        !needs_request_spec("capabilities"@),
        !needs_request_spec("manifest"@),
        !needs_request_spec("config"@),
{
    reveal_strlit("connect");
    reveal_strlit("query");
    reveal_strlit("metadata");
    reveal_strlit("close");
    reveal_strlit("health");
    reveal_strlit("ping");
    reveal_strlit("describe");
    reveal_strlit("capabilities");
    reveal_strlit("manifest");
    reveal_strlit("config");
    assert("connect"@[0] == 'c' && "query"@[0] == 'q' && "metadata"@[1] == 'e' && "close"@[0]
        == 'c');
    assert("health"@[0] == 'h' && "ping"@[0] == 'p' && "describe"@[0] == 'd' && "manifest"@[1]
        == 'a');
    assert("capabilities"@.len() == 12 && "config"@.len() == 6);
}

/// A call stays with its connection: through all its steps a call that is about a connection
/// stores, finds and removes no other connection, and a response with fields names it.
pub proof fn a_call_stays_with_its_connection(
    connector: ConnectorView,
    call: CallView,
    events: Seq<EventView>,
)
    requires
        needs_request_spec(call.method),
    ensures
        run(call_spec(connector, call), events) matches Some(step) ==> is_about(
            step,
            call.connection_id,
        ),
{
    lemma_methods_differ();
    lemma_run_is_about(call_spec(connector, call), call.connection_id, events);
}

/// A MotherDuck target is never opened as a file: a path that a connect call opens has no
/// MotherDuck scheme; and without a token a MotherDuck target is refused before anything is
/// opened.
pub proof fn connect_opens_no_motherduck_file(
    engine: Seq<char>,
    request: JsonView,
    connection_id: Seq<char>,
    environment: Option<Seq<char>>,
)
    ensures
        connect_spec(engine, request, connection_id, environment) matches StepView::Perform(
            ActionView::OpenFile(path),
            _,
        ) ==> database_of(path) is None && path.len() > 0,
        target_of(request) is MotherDuck && token_of(request, environment) is None
            ==> connect_spec(engine, request, connection_id, environment)
            matches StepView::Respond(ResponseView::Failure { .. }),
{
    motherduck_is_never_a_file(request);
}

/// A MotherDuck database is opened in this order: a connection in memory, the extension, the
/// token, the database; then the version is read.
pub proof fn motherduck_is_opened_in_order(
    plan: PlanView,
    database: Seq<char>,
    token: Seq<char>,
)
    ensures
        ({
            let start = connect_to(TargetView::MotherDuck(database), Some(token), plan);
            let done = seq![EventView::Done, EventView::Done, EventView::Done, EventView::Done];
            actions(start, done) == seq![
                ActionView::OpenInMemory,
                ActionView::RunBatch("install motherduck; load motherduck;"@),
                ActionView::RunBatch(token_statement(token)),
                ActionView::RunBatch(attach_statement(database)),
                ActionView::ReadText("select version()"@),
            ]
        }),
{
    let start = connect_to(TargetView::MotherDuck(database), Some(token), plan);
    let done = seq![EventView::Done, EventView::Done, EventView::Done, EventView::Done];
    reveal_with_fuel(actions, 6);
    assert(done.drop_first() =~= seq![EventView::Done, EventView::Done, EventView::Done]);
    assert(done.drop_first().drop_first() =~= seq![EventView::Done, EventView::Done]);
    assert(done.drop_first().drop_first().drop_first() =~= seq![EventView::Done]);
    assert(done.drop_first().drop_first().drop_first().drop_first() =~= seq![]);
    assert(actions(start, done) =~= seq![
        ActionView::OpenInMemory,
        ActionView::RunBatch("install motherduck; load motherduck;"@),
        ActionView::RunBatch(token_statement(token)),
        ActionView::RunBatch(attach_statement(database)),
        ActionView::ReadText("select version()"@),
    ]);
}

/// Two actions that differ at most in the token that they apply.
pub open spec fn same_action_but_token(
    a: ActionView,
    b: ActionView,
    token: Seq<char>,
    other: Seq<char>,
) -> bool {
    ||| a == b
    ||| a == ActionView::RunBatch(token_statement(token)) && b == ActionView::RunBatch(
        token_statement(other),
    )
}

/// Two steps of which one has a token where the other has another one: the same response, or
/// actions and states that are equal but for the token.
pub open spec fn same_but_token(
    a: StepView,
    b: StepView,
    token: Seq<char>,
    other: Seq<char>,
) -> bool {
    match (a, b) {
        (StepView::Respond(x), StepView::Respond(y)) => x == y,
        (
            StepView::Perform(f, PendingView::Connect(x)),
            StepView::Perform(g, PendingView::Connect(y)),
        ) => {
            &&& same_action_but_token(f, g, token, other)
            &&& match (x, y) {
                (
                    ConnectingView::OpeningMotherDuck { plan: p, database: d, token: t },
                    ConnectingView::OpeningMotherDuck { plan: q, database: e, token: u },
                ) => p == q && d == e && t == token && u == other,
                (
                    ConnectingView::LoadingExtension { plan: p, database: d, token: t },
                    ConnectingView::LoadingExtension { plan: q, database: e, token: u },
                ) => p == q && d == e && t == token && u == other,
                _ => x == y,
            }
        },
        _ => a == b,
    }
}

proof fn lemma_same_but_token(
    a: StepView,
    b: StepView,
    token: Seq<char>,
    other: Seq<char>,
    events: Seq<EventView>,
)
    requires
        same_but_token(a, b, token, other),
    ensures
        match (run(a, events), run(b, events)) {
            (Some(x), Some(y)) => same_but_token(x, y, token, other),
            (x, y) => x is None && y is None,
        },
        actions(a, events).len() == actions(b, events).len(),
        forall|i: int|
            0 <= i < actions(a, events).len() ==> same_action_but_token(
                #[trigger] actions(a, events)[i],
                actions(b, events)[i],
                token,
                other,
            ),
    decreases events.len(),
{
    match (a, b) {
        (StepView::Perform(f, p), StepView::Perform(g, q)) => {
            assert(same_action_but_token(f, g, token, other));
            if events.len() > 0 {
                match (next(p, events[0]), next(q, events[0])) {
                    (Some(x), Some(y)) => {
                        assert(same_but_token(x, y, token, other));
                        lemma_same_but_token(x, y, token, other, events.drop_first());
                        let tail_a = actions(x, events.drop_first());
                        let tail_b = actions(y, events.drop_first());
                        assert forall|i: int|
                            0 <= i < actions(a, events).len() implies same_action_but_token(
                            #[trigger] actions(a, events)[i],
                            actions(b, events)[i],
                            token,
                            other,
                        ) by {
                            if i > 0 {
                                assert(actions(a, events)[i] == tail_a[i - 1]);
                                assert(actions(b, events)[i] == tail_b[i - 1]);
                            }
                        }
                    },
                    _ => {},
                }
            }
        },
        _ => {},
    }
}

/// The token stays where it belongs: whatever the driver answers, a call with another token in
/// its place is answered the same, and performs the same actions but for the one statement that
/// applies the token. So no response holds the token, nor does the target that is attached.
pub proof fn token_stays_in_its_statement(
    plan: PlanView,
    database: Seq<char>,
    token: Seq<char>,
    other: Seq<char>,
    events: Seq<EventView>,
)
    ensures
        ({
            let a = connect_to(TargetView::MotherDuck(database), Some(token), plan);
            let b = connect_to(TargetView::MotherDuck(database), Some(other), plan);
            &&& run(a, events) matches Some(StepView::Respond(response)) ==> run(b, events)
                == Some(StepView::Respond(response))
            &&& actions(a, events).len() == actions(b, events).len()
            &&& forall|i: int|
                0 <= i < actions(a, events).len() ==> same_action_but_token(
                    #[trigger] actions(a, events)[i],
                    actions(b, events)[i],
                    token,
                    other,
                )
        }),
{
    lemma_same_but_token(
        connect_to(TargetView::MotherDuck(database), Some(token), plan),
        connect_to(TargetView::MotherDuck(database), Some(other), plan),
        token,
        other,
        events,
    );
}

/// What a driver answers that has these rows: each row, its cells, and the end.
pub open spec fn row_events(rows: Seq<Seq<CellView>>) -> Seq<EventView>
    decreases rows.len(),
{
    if rows.len() == 0 {
        seq![EventView::EndOfRows]
    } else {
        seq![EventView::Row, EventView::Cells(rows[0])] + row_events(rows.drop_first())
    }
}

/// Rows in JSON.
pub open spec fn rows_json(rows: Seq<Seq<CellView>>) -> Seq<JsonView> {
    rows.map_values(|row: Seq<CellView>| row_json(row))
}

proof fn lemma_fetching(
    connection_id: Seq<char>,
    columns: Seq<Seq<char>>,
    cap: usize,
    taken: Seq<JsonView>,
    rows: Seq<Seq<CellView>>,
)
    requires
        taken.len() <= cap,
        forall|i: int| 0 <= i < rows.len() ==> (#[trigger] rows[i]).len() == columns.len(),
    ensures
        ({
            let room = cap - taken.len();
            let fits = if rows.len() <= room {
                rows.len() as int
            } else {
                room
            };
            run(
                query_goes_on(
                    ActionView::FetchRow,
                    QueryingView::Fetching { connection_id, columns, cap, rows: taken },
                ),
                row_events(rows),
            ) == Some(
                StepView::Respond(
                    queried(
                        connection_id,
                        columns,
                        taken + rows_json(rows.take(fits)),
                        rows.len() > room,
                    ),
                ),
            )
        }),
    decreases rows.len(),
{
    reveal_with_fuel(run, 3);
    let events = row_events(rows);
    if rows.len() == 0 {
        assert(taken + rows_json(rows.take(0)) =~= taken);
    } else {
        let tail = rows.drop_first();
        assert(events.drop_first().drop_first() =~= row_events(tail));
        assert(events.drop_first()[0] == EventView::Cells(rows[0]));
        if taken.len() == cap {
            assert(taken + rows_json(rows.take(0)) =~= taken);
        } else {
            let more = taken.push(row_json(rows[0]));
            lemma_fetching(connection_id, columns, cap, more, tail);
            let room = cap - taken.len();
            let fits = if rows.len() <= room {
                rows.len() as int
            } else {
                room
            };
            assert(more + rows_json(tail.take(fits - 1)) =~= taken + rows_json(rows.take(fits)));
        }
    }
}

/// A query answers the first rows: of what the driver has, a cell for each column, as many as the
/// cap allows, in order and cell by cell; and the result is truncated exactly if there are more.
pub proof fn query_answers_the_first_rows(
    connection_id: Seq<char>,
    sql: Seq<char>,
    cap: usize,
    columns: Seq<Seq<char>>,
    rows: Seq<Seq<CellView>>,
)
    requires
        gives_rows(sql),
        forall|i: int| 0 <= i < rows.len() ==> (#[trigger] rows[i]).len() == columns.len(),
    ensures
        run(
            query_goes_on(
                ActionView::FindConnection(connection_id),
                QueryingView::Finding { connection_id, sql, cap },
            ),
            seq![EventView::Done, EventView::Columns(columns)] + row_events(rows),
        ) == Some(
            StepView::Respond(
                queried(
                    connection_id,
                    columns,
                    rows_json(
                        rows.take(
                            if rows.len() <= cap {
                                rows.len() as int
                            } else {
                                cap as int
                            },
                        ),
                    ),
                    rows.len() > cap,
                ),
            ),
        ),
{
    let events = seq![EventView::Done, EventView::Columns(columns)] + row_events(rows);
    reveal_with_fuel(run, 3);
    assert(events.drop_first()[0] == EventView::Columns(columns));
    assert(events.drop_first().drop_first() =~= row_events(rows));
    lemma_fetching(connection_id, columns, cap, seq![], rows);
    let fits = if rows.len() <= cap {
        rows.len() as int
    } else {
        cap as int
    };
    assert(Seq::<JsonView>::empty() + rows_json(rows.take(fits)) =~= rows_json(rows.take(fits)));
}

proof fn lemma_lower_keeps_white_space(s: Seq<char>)
    ensures
        trimmed_start(ascii_lower(s)) == ascii_lower(trimmed_start(s)),
        ascii_lower(ascii_lower(s)) == ascii_lower(s),
    decreases s.len(),
{
    assert(ascii_lower(ascii_lower(s)) =~= ascii_lower(s));
    if s.len() > 0 {
        assert(is_white_space_spec(ascii_lower_char(s[0])) == is_white_space_spec(s[0]));
        assert(ascii_lower(s).drop_first() =~= ascii_lower(s.drop_first()));
        lemma_lower_keeps_white_space(s.drop_first());
    }
}

/// A statement that gives rows is recognised in any case and after any white space.
pub proof fn query_is_recognised_in_any_case(sql: Seq<char>, other: Seq<char>)
    requires
        ascii_lower(trimmed_start(sql)) == ascii_lower(trimmed_start(other)) || ascii_lower(sql)
            == ascii_lower(other),
    ensures
        gives_rows(sql) == gives_rows(other),
{
    lemma_lower_keeps_white_space(sql);
    lemma_lower_keeps_white_space(other);
}

/// The life of a connection: once it is stored, a query on it is run and its catalog is listed;
/// once it is removed, both are refused as not found, and so is every id under which nothing was
/// stored.
pub proof fn only_open_connections_are_served<C>(
    connections: Map<Seq<char>, C>,
    id: Seq<char>,
    connection: C,
    sql: Seq<char>,
    cap: usize,
)
    ensures
        ({
            let stored = found(connections.insert(id, connection), id);
            let removed = found(connections.remove(id), id);
            let start = query_spec(id, Some(sql), cap);
            &&& run(start, seq![stored]) matches Some(StepView::Perform(action, _)) && action == (
            if gives_rows(sql) {
                ActionView::StartQuery(sql)
            } else {
                ActionView::RunStatement(sql)
            })
            &&& run(metadata_spec(id), seq![stored]) matches Some(
                StepView::Perform(ActionView::ListTables(_), _),
            )
            &&& run(start, seq![removed]) == Some(is_missing(id))
            &&& run(metadata_spec(id), seq![removed]) == Some(is_missing(id))
            &&& !connections.contains_key(id) ==> run(start, seq![found(connections, id)]) == Some(
                is_missing(id),
            )
        }),
{
    reveal_with_fuel(run, 2);
}

/// The statements carry their values whole: SQL reads the literal in the statement that applies a
/// token as that token, and the one in the statement that attaches a database as `md:` and its
/// name, whatever they hold, and nothing follows.
pub proof fn statements_carry_their_values(token: Seq<char>, database: Seq<char>)
    ensures
        read_literal(token_statement(token).skip("set motherduck_token = "@.len() as int)) == Some(
            (token, Seq::<char>::empty()),
        ),
        read_literal(attach_statement(database).skip("attach "@.len() as int)) == Some(
            ("md:"@ + database, Seq::<char>::empty()),
        ),
{
    let nothing = Seq::<char>::empty();
    quoting_is_safe(token, nothing);
    assert(token_statement(token).skip("set motherduck_token = "@.len() as int) =~= sql_literal(
        token,
    ) + nothing);
    quoting_is_safe("md:"@ + database, nothing);
    if database.len() == 0 {
        reveal_strlit("attach 'md:'");
        reveal_strlit("attach ");
        reveal_strlit("md:");
        assert("md:"@ + database =~= seq!['m', 'd', ':']);
        reveal_with_fuel(literal_body, 4);
        let body = literal_body(seq!['m', 'd', ':']);
        assert(seq!['m', 'd', ':'].drop_first() =~= seq!['d', ':']);
        assert(seq!['d', ':'].drop_first() =~= seq![':']);
        assert(seq![':'].drop_first() =~= seq![]);
        assert(body =~= seq!['m', 'd', ':']);
        assert(attach_statement(database).skip("attach "@.len() as int) =~= sql_literal(
            "md:"@ + database,
        ) + nothing);
    } else {
        assert(attach_statement(database).skip("attach "@.len() as int) =~= sql_literal(
            "md:"@ + database,
        ) + nothing);
    }
}

/// A metadata call answers the catalog of the rows that the driver lists: a response with the
/// tables in ascending order, arranged by schema. Every table that is listed, and nothing else, is
/// in it, under the schema of its name and with the columns that its rows give.
pub proof fn metadata_answers_the_catalog(
    connection_id: Seq<char>,
    tables: Seq<TableRowView>,
    columns: Seq<ColumnRowView>,
    key: Key,
)
    ensures
        run(
            metadata_spec(connection_id),
            seq![EventView::Done, EventView::Tables(tables), EventView::TableColumns(columns)],
        ) == Some(StepView::Respond(listed(connection_id, tables, columns))),
        is_catalog(catalog_of(tables, columns), tables, columns),
        flattened(grouped(catalog_of(tables, columns))) == catalog_of(tables, columns),
        is_listed(tables, key) <==> exists|i: int, k: int|
            {
                &&& 0 <= i < grouped(catalog_of(tables, columns)).len()
                &&& 0 <= k < grouped(catalog_of(tables, columns))[i].objects.len()
                &&& #[trigger] grouped(catalog_of(tables, columns))[i].objects[k] == object_of(
                    tables,
                    columns,
                    key,
                )
                &&& grouped(catalog_of(tables, columns))[i].name == key.0
            },
{
    let events = seq![
        EventView::Done,
        EventView::Tables(tables),
        EventView::TableColumns(columns),
    ];
    reveal_with_fuel(run, 4);
    assert(events.drop_first()[0] == EventView::Tables(tables));
    assert(events.drop_first().drop_first()[0] == EventView::TableColumns(columns));
    rows_have_a_catalog(tables, columns);
    schemas_hold_the_catalog(catalog_of(tables, columns));
    every_table_is_under_its_schema(catalog_of(tables, columns), tables, columns, key);
}

} // verus!
