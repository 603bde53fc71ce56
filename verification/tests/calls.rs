use motherduck_connector::catalog::{ColumnRow, TableRow};
use motherduck_connector::cells::Cell;
use motherduck_connector::json::{Json, JsonNumber};
use motherduck_connector::protocol::{Action, Event, Pending, Response, Step};
use motherduck_connector::querying::is_query;
use motherduck_connector::registry::Registry;
use motherduck_connector::session::{
    call_json, describe, expects, needs_request, resume, Call, Connector,
};

fn connector() -> Connector {
    Connector {
        engine: "motherduck".to_string(),
        abi_version: 3,
        manifest: r#"{"name":"m"}"#.to_string(),
        config: "not a document".to_string(),
    }
}

fn call(method: &str, request: Option<&str>) -> Call {
    Call {
        method: method.to_string(),
        request: request.map(|text| Json::parse(text).expect("a JSON document")),
        connection_id: "id".to_string(),
        sql: None,
        max_rows: 2,
        environment: None,
    }
}

fn query(sql: &str, max_rows: usize) -> Call {
    Call {
        sql: Some(sql.to_string()),
        max_rows,
        ..call("query", Some("{}"))
    }
}

fn text(t: &str) -> Json {
    Json::Text(t.to_string())
}

fn failure(code: &str, message: &str) -> Response {
    Response::Failure {
        code: code.to_string(),
        message: message.to_string(),
    }
}

fn fields(members: Vec<(&str, Json)>) -> Response {
    Response::Fields(
        members
            .into_iter()
            .map(|(key, value)| (key.to_string(), value))
            .collect(),
    )
}

/// Answers the actions of a call with the events, and gives the actions and the response.
fn run(call: Call, events: Vec<Event>) -> (Vec<Action>, Response) {
    let mut events = events.into_iter();
    let mut actions = Vec::new();
    let mut step = call_json(&connector(), call);
    loop {
        match step {
            Step::Respond(response) => {
                assert_eq!(events.next(), None);
                return (actions, response);
            }
            Step::Perform(action, pending) => {
                actions.push(action);
                let event = events.next().expect("an event");
                assert!(expects(&pending, &event), "{:?} {:?}", pending, event);
                step = resume(pending, event);
            }
        }
    }
}

fn failed() -> Event {
    Event::Failed("boom".to_string())
}

#[test]
fn the_connector_tells_its_health() {
    for method in ["health", "ping"] {
        assert_eq!(
            run(call(method, None), vec![]),
            (
                vec![],
                fields(vec![
                    ("engine", text("motherduck")),
                    ("abiVersion", Json::Number(JsonNumber::Unsigned(3))),
                    ("driverLinked", Json::Bool(true)),
                ])
            )
        );
    }
}

#[test]
fn the_connector_describes_itself() {
    let expected = fields(vec![
        ("engine", text("motherduck")),
        ("abiVersion", Json::Number(JsonNumber::Unsigned(3))),
        ("driverLinked", Json::Bool(true)),
        ("manifest", Json::Object(vec![("name".to_string(), text("m"))])),
        ("config", Json::Null),
    ]);
    for method in ["describe", "capabilities"] {
        assert_eq!(run(call(method, None), vec![]).1, expected);
    }
    assert_eq!(
        describe(
            &connector(),
            Json::Object(vec![("name".to_string(), text("m"))]),
            Json::Null
        ),
        expected
    );
}

#[test]
fn the_documents_are_given_as_they_are() {
    assert_eq!(
        run(call("manifest", None), vec![]).1,
        Response::Document(r#"{"name":"m"}"#.to_string())
    );
    assert_eq!(
        run(call("config", None), vec![]).1,
        Response::Document("not a document".to_string())
    );
}

#[test]
fn an_unknown_method_is_refused_by_name() {
    for method in ["drop", "", "Connect", "health "] {
        assert_eq!(
            run(call(method, None), vec![]).1,
            failure(
                "connector.unknownMethod",
                &format!("unknown connector method: {}", method)
            )
        );
    }
}

#[test]
fn four_methods_need_a_request() {
    for method in ["connect", "query", "metadata", "close"] {
        assert!(needs_request(method));
    }
    for method in ["health", "ping", "describe", "capabilities", "manifest", "config", "x"] {
        assert!(!needs_request(method));
    }
}

#[test]
fn a_local_database_is_connected() {
    let (actions, response) = run(
        call("connect", Some(r#"{"database":"/tmp/x.duckdb"}"#)),
        vec![Event::Done, Event::Text(Some("v1".to_string())), Event::Done],
    );
    assert_eq!(
        actions,
        vec![
            Action::OpenFile("/tmp/x.duckdb".to_string()),
            Action::ReadText("select version()".to_string()),
            Action::StoreConnection("id".to_string()),
        ]
    );
    assert_eq!(
        response,
        fields(vec![
            ("engine", text("motherduck")),
            ("connectionId", text("id")),
            ("serverVersion", text("v1")),
            ("driverLinked", Json::Bool(true)),
        ])
    );
}

#[test]
fn a_version_that_cannot_be_read_is_unknown() {
    let (_, response) = run(
        call("connect", Some("{}")),
        vec![Event::Done, Event::Text(None), Event::Done],
    );
    match response {
        Response::Fields(members) => assert_eq!(members[2].1, text("unknown")),
        other => panic!("{:?}", other),
    }
}

#[test]
fn an_open_that_fails_is_reported() {
    assert_eq!(
        run(call("connect", Some("{}")), vec![failed()]),
        (
            vec![Action::OpenInMemory],
            failure("connector.connectFailed", "connect failed: boom")
        )
    );
}

#[test]
fn motherduck_needs_a_token() {
    assert_eq!(
        run(call("connect", Some(r#"{"database":"md:x"}"#)), vec![]),
        (
            vec![],
            failure(
                "connector.invalidRequest",
                "MotherDuck needs a service token. Enter it in the MotherDuck token field, or set the motherduck_token environment variable."
            )
        )
    );
}

fn motherduck(database: &str, token: &str) -> Call {
    Call {
        environment: Some(token.to_string()),
        ..call(
            "connect",
            Some(&format!(r#"{{"database":"{}"}}"#, database)),
        )
    }
}

#[test]
fn motherduck_is_opened_in_order() {
    let (actions, response) = run(
        motherduck("md:it's", "to'k"),
        vec![
            Event::Done,
            Event::Done,
            Event::Done,
            Event::Done,
            Event::Text(Some("v1".to_string())),
            Event::Done,
        ],
    );
    assert_eq!(
        actions,
        vec![
            Action::OpenInMemory,
            Action::RunBatch("install motherduck; load motherduck;".to_string()),
            Action::RunBatch("set motherduck_token = 'to''k'".to_string()),
            Action::RunBatch("attach 'md:it''s'".to_string()),
            Action::ReadText("select version()".to_string()),
            Action::StoreConnection("id".to_string()),
        ]
    );
    assert!(matches!(response, Response::Fields(_)));
}

#[test]
fn no_name_attaches_the_default_database() {
    let (actions, _) = run(
        motherduck("md:", "tok"),
        vec![Event::Done, Event::Done, Event::Done, failed()],
    );
    assert_eq!(actions[3], Action::RunBatch("attach 'md:'".to_string()));
}

#[test]
fn each_failure_on_the_way_to_motherduck_is_told_without_the_token() {
    for (before, message) in [
        (0, "MotherDuck connect failed: boom"),
        (1, "loading the MotherDuck extension failed: boom"),
        (2, "applying the MotherDuck token failed."),
        (3, "attaching the MotherDuck database failed: boom"),
    ] {
        for token in ["one", "two"] {
            let mut events: Vec<Event> = (0..before).map(|_| Event::Done).collect();
            events.push(failed());
            assert_eq!(
                run(motherduck("md:x", token), events).1,
                failure("connector.connectFailed", message)
            );
        }
    }
}

fn seeding() -> Call {
    call("connect", Some(r#"{"seedSample":true}"#))
}

#[test]
fn an_empty_sample_is_filled() {
    for count in [Some(0), None] {
        let (actions, response) = run(
            seeding(),
            vec![
                Event::Done,
                Event::Text(None),
                Event::Done,
                Event::Count(count),
                Event::Done,
                Event::Done,
            ],
        );
        assert_eq!(
            actions[2..5],
            [
                Action::RunBatch(
                    "create table if not exists customers (id integer, name varchar);".to_string()
                ),
                Action::ReadCount("select count(*) from customers".to_string()),
                Action::RunBatch(
                    "insert into customers values (1, 'Kawase Foods'), (2, 'Minato Labs');"
                        .to_string()
                ),
            ]
        );
        assert!(matches!(response, Response::Fields(_)));
    }
}

#[test]
fn a_sample_with_rows_is_left_alone() {
    let (actions, response) = run(
        seeding(),
        vec![
            Event::Done,
            Event::Text(None),
            Event::Done,
            Event::Count(Some(2)),
            Event::Done,
        ],
    );
    assert_eq!(actions[4], Action::StoreConnection("id".to_string()));
    assert!(matches!(response, Response::Fields(_)));
}

#[test]
fn a_sample_that_cannot_be_seeded_is_reported() {
    assert_eq!(
        run(seeding(), vec![Event::Done, Event::Text(None), failed()]).1,
        failure("connector.seedFailed", "duckdb sample schema failed: boom")
    );
    assert_eq!(
        run(
            seeding(),
            vec![
                Event::Done,
                Event::Text(None),
                Event::Done,
                Event::Count(None),
                failed()
            ]
        )
        .1,
        failure("connector.seedFailed", "duckdb sample data failed: boom")
    );
}

/// The rows of the sample, where it has a table.
type Sample = Option<Vec<(i32, &'static str)>>;

/// Performs a connect call on a sample; what it fails on is answered with a failure. The
/// connection is stored under the number.
fn perform_connect(
    call: Call,
    sample: &mut Sample,
    failing: Option<&str>,
    registry: &mut Registry<i32>,
    number: i32,
) -> Response {
    let mut step = call_json(&connector(), call);
    loop {
        let (action, pending) = match step {
            Step::Respond(response) => return response,
            Step::Perform(action, pending) => (action, pending),
        };
        let event = match action {
            Action::OpenInMemory if failing == Some("open") => failed(),
            Action::OpenInMemory => Event::Done,
            Action::ReadText(_) => Event::Text(None),
            Action::RunBatch(sql) if failing.is_some_and(|start| sql.starts_with(start)) => {
                failed()
            }
            Action::RunBatch(sql) if sql.starts_with("create table if not exists customers") => {
                sample.get_or_insert(Vec::new());
                Event::Done
            }
            Action::RunBatch(sql) if sql.starts_with("insert into customers") => {
                let rows = sample.as_mut().expect("a table");
                rows.extend([(1, "Kawase Foods"), (2, "Minato Labs")]);
                Event::Done
            }
            Action::ReadCount(_) => Event::Count(sample.as_ref().map(|rows| rows.len() as i64)),
            Action::StoreConnection(id) => {
                registry.store(id, number);
                Event::Done
            }
            other => panic!("{:?}", other),
        };
        assert!(expects(&pending, &event));
        step = resume(pending, event);
    }
}

#[test]
fn a_second_seeding_changes_nothing() {
    let filled = Some(vec![(1, "Kawase Foods"), (2, "Minato Labs")]);
    let other = Some(vec![(7, "Other")]);
    for (before, after) in [
        (None, filled.clone()),
        (Some(vec![]), filled.clone()),
        (filled.clone(), filled),
        (other.clone(), other),
    ] {
        let mut sample: Sample = before;
        let mut registry = Registry::new();
        for number in 0..3 {
            let response =
                perform_connect(seeding(), &mut sample, None, &mut registry, number);
            assert!(matches!(response, Response::Fields(_)));
            assert_eq!(sample, after);
        }
    }
}

#[test]
fn a_connect_that_fails_leaves_an_older_connection() {
    let mut sample: Sample = None;
    let mut registry = Registry::new();
    perform_connect(seeding(), &mut sample, None, &mut registry, 1);
    assert_eq!(registry.find("id"), Some(&1));
    sample = Some(vec![]);
    for (failing, code) in [
        ("open", "connector.connectFailed"),
        ("create", "connector.seedFailed"),
        ("insert", "connector.seedFailed"),
    ] {
        match perform_connect(seeding(), &mut sample, Some(failing), &mut registry, 2) {
            Response::Failure { code: told, .. } => assert_eq!(told, code),
            other => panic!("{:?}", other),
        }
        assert_eq!(registry.find("id"), Some(&1));
        assert_eq!(sample, Some(vec![]));
    }
    perform_connect(seeding(), &mut sample, None, &mut registry, 3);
    assert_eq!(registry.find("id"), Some(&3));
}

#[test]
fn a_connect_without_a_sample_runs_no_batch() {
    let mut sample: Sample = None;
    let mut registry = Registry::new();
    let response =
        perform_connect(call("connect", Some("{}")), &mut sample, None, &mut registry, 1);
    assert!(matches!(response, Response::Fields(_)));
    assert_eq!(sample, None);
}

#[test]
fn poisoned_connections_are_refused_alike() {
    let poisoned = failure(
        "connector.statePoisoned",
        "Connector connection state is poisoned.",
    );
    assert_eq!(
        run(
            call("connect", Some("{}")),
            vec![Event::Done, Event::Text(None), Event::Poisoned]
        )
        .1,
        poisoned
    );
    assert_eq!(run(query("select 1", 1), vec![Event::Poisoned]).1, poisoned);
    assert_eq!(
        run(call("metadata", Some("{}")), vec![Event::Poisoned]).1,
        poisoned
    );
    assert_eq!(
        run(call("close", Some("{}")), vec![Event::Poisoned]).1,
        poisoned
    );
}

#[test]
fn a_missing_connection_is_refused_by_its_id() {
    let missing = failure("connector.connectionNotFound", "no open connection: id");
    assert_eq!(
        run(query("select 1", 1), vec![Event::Missing]),
        (vec![Action::FindConnection("id".to_string())], missing)
    );
    assert_eq!(
        run(call("metadata", Some("{}")), vec![Event::Missing]).1,
        failure("connector.connectionNotFound", "no open connection: id")
    );
}

#[test]
fn only_open_connections_are_served() {
    let mut registry: Registry<()> = Registry::new();
    assert_eq!(registry.answer_find("id"), Event::Missing);
    registry.store("id".to_string(), ());
    assert_eq!(registry.answer_find("id"), Event::Done);
    let (_, response) = run(call("close", Some("{}")), vec![registry.answer_remove("id")]);
    assert_eq!(
        response,
        fields(vec![("connectionId", text("id")), ("closed", Json::Bool(true))])
    );
    let (_, response) = run(call("close", Some("{}")), vec![registry.answer_remove("id")]);
    assert_eq!(
        response,
        fields(vec![("connectionId", text("id")), ("closed", Json::Bool(false))])
    );
    assert_eq!(
        run(query("select 1", 1), vec![registry.answer_find("id")]).1,
        failure("connector.connectionNotFound", "no open connection: id")
    );
}

#[test]
fn a_query_needs_a_statement() {
    assert_eq!(
        run(call("query", Some("{}")), vec![]),
        (
            vec![],
            failure(
                "connector.invalidRequest",
                "query requires a string sql field."
            )
        )
    );
}

#[test]
fn statements_that_give_rows_are_recognised() {
    for sql in [
        "select 1",
        " \n\u{a0}SELECT 1",
        "With x as (select 1) select * from x",
        "show tables",
        "PRAGMA x",
        "explain select 1",
        "describe t",
        "values (1)",
        "table t",
        "call f()",
        "selection",
    ] {
        assert!(is_query(sql), "{}", sql);
    }
    for sql in ["", "insert into t values (1)", "create table t (n integer)", "-- x\nselect 1", "(select 1)"] {
        assert!(!is_query(sql), "{}", sql);
    }
}

#[test]
fn a_statement_without_rows_is_run() {
    assert_eq!(
        run(query("drop table t", 5), vec![Event::Done, Event::Done]),
        (
            vec![
                Action::FindConnection("id".to_string()),
                Action::RunStatement("drop table t".to_string()),
            ],
            fields(vec![
                ("connectionId", text("id")),
                ("columns", Json::Array(vec![])),
                ("rows", Json::Array(vec![])),
                ("truncated", Json::Bool(false)),
            ])
        )
    );
    assert_eq!(
        run(query("drop table t", 5), vec![Event::Done, failed()]).1,
        failure("connector.queryFailed", "query failed: boom")
    );
}

fn row(n: i32) -> Json {
    Json::Array(vec![Json::Number(JsonNumber::Unsigned(n as u64))])
}

fn result(rows: Vec<Json>, truncated: bool) -> Response {
    fields(vec![
        ("connectionId", text("id")),
        ("columns", Json::Array(vec![text("n")])),
        ("rows", Json::Array(rows)),
        ("truncated", Json::Bool(truncated)),
    ])
}

#[test]
fn a_query_answers_the_first_rows() {
    for (cap, total, truncated) in [(0, 0, false), (0, 1, true), (2, 1, false), (2, 2, false), (2, 3, true)] {
        let mut events = vec![Event::Done, Event::Columns(vec!["n".to_string()])];
        for n in 0..total {
            events.push(Event::Row);
            if n == cap {
                break;
            }
            events.push(Event::Cells(vec![Cell::Int(n)]));
        }
        if !truncated {
            events.push(Event::EndOfRows);
        }
        let (actions, response) = run(query("select n", cap as usize), events);
        assert_eq!(
            response,
            result((0..total.min(cap)).map(row).collect(), truncated)
        );
        let reads = actions
            .iter()
            .filter(|action| **action == Action::ReadCells(1))
            .count();
        assert_eq!(reads, total.min(cap) as usize);
    }
}

#[test]
fn a_query_that_fails_on_the_way_is_reported() {
    let expected = failure("connector.queryFailed", "query failed: boom");
    assert_eq!(run(query("select n", 9), vec![Event::Done, failed()]).1, expected);
    assert_eq!(
        run(
            query("select n", 9),
            vec![
                Event::Done,
                Event::Columns(vec!["n".to_string()]),
                Event::Row,
                Event::Cells(vec![Cell::Int(1)]),
                failed(),
            ]
        )
        .1,
        expected
    );
}

#[test]
fn the_catalog_is_listed() {
    let (actions, response) = run(
        call("metadata", Some("{}")),
        vec![
            Event::Done,
            Event::Tables(vec![TableRow {
                schema: "main".to_string(),
                name: "v".to_string(),
                table_type: "view".to_string(),
            }]),
            Event::TableColumns(vec![ColumnRow {
                schema: "main".to_string(),
                table: "v".to_string(),
                name: "c".to_string(),
                data_type: "VARCHAR".to_string(),
                is_nullable: "NO".to_string(),
                ordinal: 1,
            }]),
        ],
    );
    assert_eq!(
        actions,
        vec![
            Action::FindConnection("id".to_string()),
            Action::ListTables(
                "select table_schema, table_name, table_type \
                 from information_schema.tables \
                 where table_schema not in ('information_schema', 'pg_catalog') \
                 order by table_schema, table_name"
                    .to_string()
            ),
            Action::ListColumns(
                "select table_schema, table_name, column_name, data_type, is_nullable, ordinal_position \
                 from information_schema.columns \
                 where table_schema not in ('information_schema', 'pg_catalog') \
                 order by table_schema, table_name, ordinal_position"
                    .to_string()
            ),
        ]
    );
    let members = match response {
        Response::Fields(members) => members,
        other => panic!("{:?}", other),
    };
    assert_eq!(members[0], ("connectionId".to_string(), text("id")));
    assert_eq!(members[1].0, "metadata");
    let schema = match members[1].1.get("schemas") {
        Some(Json::Array(schemas)) => &schemas[0],
        other => panic!("{:?}", other),
    };
    assert_eq!(schema.get("name"), Some(&text("main")));
    let object = match schema.get("objects") {
        Some(Json::Array(objects)) => &objects[0],
        other => panic!("{:?}", other),
    };
    assert_eq!(object.get("kind"), Some(&text("view")));
    let column = match object.get("columns") {
        Some(Json::Array(columns)) => &columns[0],
        other => panic!("{:?}", other),
    };
    assert_eq!(column.get("dataType"), Some(&text("VARCHAR")));
    assert_eq!(column.get("nullable"), Some(&Json::Bool(false)));
}

#[test]
fn rows_in_any_order_are_listed_as_one_catalog() {
    let table = |schema: &str, name: &str, table_type: &str| TableRow {
        schema: schema.to_string(),
        name: name.to_string(),
        table_type: table_type.to_string(),
    };
    let (_, response) = run(
        call("metadata", Some("{}")),
        vec![
            Event::Done,
            Event::Tables(vec![
                table("s", "b", "BASE TABLE"),
                table("r", "c", "VIEW"),
                table("s", "a", "BASE TABLE"),
                table("s", "b", "VIEW"),
            ]),
            Event::TableColumns(vec![]),
        ],
    );
    let members = match response {
        Response::Fields(members) => members,
        other => panic!("{:?}", other),
    };
    let schemas = match members[1].1.get("schemas") {
        Some(Json::Array(schemas)) => schemas,
        other => panic!("{:?}", other),
    };
    let mut listed = Vec::new();
    for schema in schemas {
        match schema.get("objects") {
            Some(Json::Array(objects)) => {
                for object in objects {
                    listed.push((schema.get("name"), object.get("name"), object.get("kind")));
                }
            }
            other => panic!("{:?}", other),
        }
    }
    assert_eq!(schemas.len(), 2);
    assert_eq!(
        listed,
        vec![
            (Some(&text("r")), Some(&text("c")), Some(&text("view"))),
            (Some(&text("s")), Some(&text("a")), Some(&text("table"))),
            (Some(&text("s")), Some(&text("b")), Some(&text("view"))),
        ]
    );
}

#[test]
fn a_listing_that_fails_is_reported() {
    assert_eq!(
        run(call("metadata", Some("{}")), vec![Event::Done, failed()]).1,
        failure("connector.metadataFailed", "metadata objects failed: boom")
    );
    assert_eq!(
        run(
            call("metadata", Some("{}")),
            vec![Event::Done, Event::Tables(vec![]), failed()]
        )
        .1,
        failure("connector.metadataFailed", "metadata columns failed: boom")
    );
}

#[test]
fn an_event_that_does_not_answer_is_not_expected() {
    let pending = Pending::Close {
        connection_id: "id".to_string(),
    };
    assert!(expects(&pending, &Event::Removed(true)));
    assert!(!expects(&pending, &Event::Done));
    match call_json(&connector(), query("select 1", 1)) {
        Step::Perform(_, pending) => {
            assert!(!expects(&pending, &failed()));
            match resume(pending, Event::Done) {
                Step::Perform(_, pending) => {
                    assert!(expects(&pending, &failed()));
                    assert!(!expects(&pending, &Event::Row));
                }
                other => panic!("{:?}", other),
            }
        }
        other => panic!("{:?}", other),
    }
}
