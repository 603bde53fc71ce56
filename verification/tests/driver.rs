use motherduck_connector::catalog::{ColumnRow, TableRow};
use motherduck_connector::cells::Cell;
use motherduck_connector::json::{Json, JsonNumber};
use motherduck_connector::protocol::{Action, Event, Response, Step};
use motherduck_connector::quoting::sql_string;
use motherduck_connector::registry::Registry;
use motherduck_connector::session::{call_json, expects, resume, Call, Connector};
use motherduck_connector::target::{motherduck_database, motherduck_token, Target};

fn json(text: &str) -> Json {
    Json::parse(text).expect("a JSON document")
}

/// A host with an engine that knows one table, `numbers`.
struct Host {
    connector: Connector,
    connections: Registry<()>,
    rows: Vec<Vec<Cell>>,
}

impl Host {
    fn new() -> Host {
        Host {
            connector: Connector {
                engine: "motherduck".to_string(),
                abi_version: 1,
                manifest: "{}".to_string(),
                config: "{}".to_string(),
            },
            connections: Registry::new(),
            rows: Vec::new(),
        }
    }

    fn perform(&mut self, action: Action) -> Event {
        match action {
            Action::OpenInMemory | Action::OpenFile(_) | Action::RunBatch(_) => Event::Done,
            Action::ReadText(_) => Event::Text(Some("v1.0.0".to_string())),
            Action::ReadCount(_) => Event::Count(Some(0)),
            Action::StoreConnection(id) => {
                self.connections.store(id, ());
                Event::Done
            }
            Action::FindConnection(id) => match self.connections.find(&id) {
                Some(()) => Event::Done,
                None => Event::Missing,
            },
            Action::RemoveConnection(id) => Event::Removed(self.connections.remove(&id)),
            Action::RunStatement(_) => Event::Done,
            Action::StartQuery(sql) => {
                if sql.contains("missing_table") {
                    return Event::Failed("Table with name missing_table does not exist!".to_string());
                }
                self.rows = vec![
                    vec![Cell::Int(2), Cell::Text("two".to_string())],
                    vec![Cell::Int(1), Cell::Text("one".to_string())],
                ];
                Event::Columns(vec!["n".to_string(), "label".to_string()])
            }
            Action::FetchRow => {
                if self.rows.is_empty() {
                    Event::EndOfRows
                } else {
                    Event::Row
                }
            }
            Action::ReadCells(n) => {
                let row = self.rows.pop().expect("a row");
                assert_eq!(row.len(), n);
                Event::Cells(row)
            }
            Action::ListTables(_) => Event::Tables(vec![TableRow {
                schema: "main".to_string(),
                name: "numbers".to_string(),
                table_type: "BASE TABLE".to_string(),
            }]),
            Action::ListColumns(_) => Event::TableColumns(vec![ColumnRow {
                schema: "main".to_string(),
                table: "numbers".to_string(),
                name: "n".to_string(),
                data_type: "INTEGER".to_string(),
                is_nullable: "YES".to_string(),
                ordinal: 1,
            }]),
        }
    }

    fn call(&mut self, request: &str) -> Response {
        let request = json(request);
        let text = |field: &str| {
            request
                .get(field)
                .and_then(|value| value.as_str())
                .map(|value| value.to_string())
        };
        let max_rows = match request.get("maxRows") {
            Some(Json::Number(JsonNumber::Unsigned(n))) => *n as usize,
            _ => 1000,
        };
        let call = Call {
            method: text("method").expect("a method"),
            connection_id: text("connectionId").expect("a connection id"),
            sql: text("sql"),
            max_rows,
            environment: None,
            request: Some(request),
        };
        let mut step = call_json(&self.connector, call);
        loop {
            match step {
                Step::Respond(response) => return response,
                Step::Perform(action, pending) => {
                    let event = self.perform(action);
                    assert!(expects(&pending, &event));
                    step = resume(pending, event);
                }
            }
        }
    }
}

fn field<'a>(response: &'a Response, key: &str) -> &'a Json {
    match response {
        Response::Fields(fields) => {
            &fields.iter().find(|(name, _)| name == key).expect("the field").1
        }
        other => panic!("no fields: {:?}", other),
    }
}

fn code(response: &Response) -> &str {
    match response {
        Response::Failure { code, .. } => code,
        other => panic!("no failure: {:?}", other),
    }
}

#[test]
fn connect_query_metadata_and_close_use_real_duckdb_driver() {
    let mut host = Host::new();
    let connected =
        host.call(r#"{"method":"connect","connectionId":"test","database":":memory:"}"#);
    assert!(matches!(connected, Response::Fields(_)));
    assert_eq!(*field(&connected, "driverLinked"), Json::Bool(true));

    assert!(matches!(
        host.call(
            r#"{"method":"query","connectionId":"test","sql":"create table numbers (n integer, label varchar)"}"#
        ),
        Response::Fields(_)
    ));
    assert!(matches!(
        host.call(
            r#"{"method":"query","connectionId":"test","sql":"insert into numbers values (1, 'one'), (2, 'two')"}"#
        ),
        Response::Fields(_)
    ));
    let result = host.call(
        r#"{"method":"query","connectionId":"test","sql":"select n, label from numbers order by n","maxRows":10}"#,
    );
    assert!(matches!(result, Response::Fields(_)));
    assert_eq!(*field(&result, "columns"), json(r#"["n", "label"]"#));
    assert_eq!(*field(&result, "rows"), json(r#"[[1, "one"], [2, "two"]]"#));

    let metadata = host.call(r#"{"method":"metadata","connectionId":"test"}"#);
    assert!(matches!(metadata, Response::Fields(_)));
    let schemas = match field(&metadata, "metadata").get("schemas") {
        Some(Json::Array(schemas)) => schemas,
        other => panic!("no schemas: {:?}", other),
    };
    assert!(schemas.iter().any(|schema| match schema.get("objects") {
        Some(Json::Array(objects)) => objects
            .iter()
            .any(|object| object.get("name").and_then(|name| name.as_str()) == Some("numbers")),
        _ => false,
    }));

    assert_eq!(
        *field(&host.call(r#"{"method":"close","connectionId":"test"}"#), "closed"),
        Json::Bool(true)
    );
    let missing = host.call(r#"{"method":"query","connectionId":"test","sql":"select 1"}"#);
    assert!(matches!(missing, Response::Failure { .. }));
    assert_eq!(code(&missing), "connector.connectionNotFound");
}

#[test]
fn query_reports_driver_errors() {
    let mut host = Host::new();
    let _ = host.call(r#"{"method":"connect","connectionId":"errors","database":":memory:"}"#);
    let response = host.call(
        r#"{"method":"query","connectionId":"errors","sql":"select * from missing_table"}"#,
    );
    assert!(matches!(response, Response::Failure { .. }));
    assert_eq!(code(&response), "connector.queryFailed");
}

#[test]
fn a_local_path_is_still_a_local_file() {
    assert_eq!(
        Target::from_request(&json(r#"{ "profile": { "database": "/tmp/analytics.duckdb" } }"#)),
        Target::LocalFile("/tmp/analytics.duckdb".to_string())
    );
    assert_eq!(
        Target::from_request(&json(r#"{ "profile": { "database": ":memory:" } }"#)),
        Target::InMemory
    );
    assert_eq!(
        Target::from_request(&json(r#"{ "profile": {} }"#)),
        Target::InMemory
    );
}

#[test]
fn an_md_target_is_recognised_rather_than_opened_as_a_file() {
    assert_eq!(
        Target::from_request(&json(r#"{ "profile": { "database": "md:analytics" } }"#)),
        Target::MotherDuck("analytics".to_string())
    );
    assert_eq!(
        Target::from_request(&json(r#"{ "profile": { "database": "md:" } }"#)),
        Target::MotherDuck(String::new())
    );
    assert_eq!(
        Target::from_request(&json(r#"{ "profile": { "database": "motherduck:sales" } }"#)),
        Target::MotherDuck("sales".to_string())
    );
}

#[test]
fn the_scheme_is_case_insensitive_but_the_name_is_not() {
    assert_eq!(
        motherduck_database("MD:Analytics"),
        Some("Analytics".to_string())
    );
    assert_eq!(
        motherduck_database("MotherDuck:Sales"),
        Some("Sales".to_string())
    );
    assert_eq!(motherduck_database("/tmp/analytics.duckdb"), None);
    assert_eq!(motherduck_database("analytics.duckdb"), None);
}

#[test]
fn the_url_form_from_the_form_placeholder_is_understood() {
    assert_eq!(
        motherduck_database("motherduck://tok@md/warehouse"),
        Some("warehouse".to_string())
    );
}

#[test]
fn the_token_comes_from_the_password_field() {
    assert_eq!(
        motherduck_token(&json(r#"{ "profile": { "password": "md_tok" } }"#), None).as_deref(),
        Some("md_tok")
    );
    assert_eq!(
        motherduck_token(
            &json(r#"{ "profile": { "options": { "motherduckToken": "explicit" } } }"#),
            None
        )
        .as_deref(),
        Some("explicit")
    );
}

#[test]
fn a_blank_token_is_no_token() {
    assert_eq!(
        motherduck_token(&json(r#"{ "profile": { "password": "   " } }"#), None),
        None
    );
}

#[test]
fn the_token_is_quoted_against_injection() {
    assert_eq!(sql_string("it's"), "'it''s'");
}
