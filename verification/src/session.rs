//! A call from its method to its response, step by step.

use vstd::prelude::*;
use vstd::string::*;
use vstd::pervasive::unreached;

use crate::connecting::{connect, connect_expects, connect_next, connect_spec, resume_connect};
use crate::document::parsed_text;
use crate::json::{integer, json_unsigned, members_view, named, Json, JsonView};
use crate::listing::{metadata, metadata_expects, metadata_next, metadata_spec, resume_metadata};
use crate::protocol::{
    fail, fail_poisoned, fails, is_poisoned, Action, ActionView, Event, EventView, Pending,
    PendingView, Response, ResponseView, Step, StepView,
};
use crate::querying::{query, query_expects, query_next, query_spec, run_query};
use crate::target::string_view;
use crate::text::{joined, same_text};

verus! {

/// What the connector says of itself.
#[derive(Debug, PartialEq, Eq)]
pub struct Connector {
    /// The name of the engine.
    pub engine: String,
    /// The version of the interface to the host.
    pub abi_version: u32,
    /// The manifest, a JSON document.
    pub manifest: String,
    /// The configuration, a JSON document.
    pub config: String,
}

/// The content of a [`Connector`].
pub ghost struct ConnectorView {
    pub engine: Seq<char>,
    pub abi_version: u32,
    pub manifest: Seq<char>,
    pub config: Seq<char>,
}

impl View for Connector {
    type V = ConnectorView;

    open spec fn view(&self) -> ConnectorView {
        ConnectorView {
            engine: self.engine@,
            abi_version: self.abi_version,
            manifest: self.manifest@,
            config: self.config@,
        }
    }
}

/// A call of the host, with what its envelope says.
#[derive(Debug, PartialEq, Eq)]
pub struct Call {
    /// The name of the method.
    pub method: String,
    /// The request, where the host sent one.
    pub request: Option<Json>,
    /// The id of the connection that the call is about.
    pub connection_id: String,
    /// The statement to run, where the request gives one as a string.
    pub sql: Option<String>,
    /// The largest number of rows to answer.
    pub max_rows: usize,
    /// The value of the environment variable `motherduck_token`, where it is set.
    pub environment: Option<String>,
}

/// The content of a [`Call`].
pub ghost struct CallView {
    pub method: Seq<char>,
    pub request: Option<JsonView>,
    pub connection_id: Seq<char>,
    pub sql: Option<Seq<char>>,
    pub max_rows: usize,
    pub environment: Option<Seq<char>>,
}

impl View for Call {
    type V = CallView;

    open spec fn view(&self) -> CallView {
        CallView {
            method: self.method@,
            request: match self.request {
                Some(request) => Some(request@),
                None => None,
            },
            connection_id: self.connection_id@,
            sql: string_view(self.sql),
            max_rows: self.max_rows,
            environment: string_view(self.environment),
        }
    }
}

/// Whether a method is about a connection; a call of it comes with a request.
pub open spec fn needs_request_spec(method: Seq<char>) -> bool {
    ||| method == "connect"@
    ||| method == "query"@
    ||| method == "metadata"@
    ||| method == "close"@
}

/// The fields that tell the connector.
pub open spec fn identity(connector: ConnectorView) -> Seq<(Seq<char>, JsonView)> {
    seq![
        ("engine"@, JsonView::Text(connector.engine)),
        ("abiVersion"@, JsonView::Number(integer(connector.abi_version as int))),
        ("driverLinked"@, JsonView::Bool(true)),
    ]
}

/// The description of the connector with its two documents.
pub open spec fn described(
    connector: ConnectorView,
    manifest: JsonView,
    config: JsonView,
) -> ResponseView {
    ResponseView::Fields(identity(connector) + seq![("manifest"@, manifest), ("config"@, config)])
}

/// What a document holds; null where the text is no JSON document.
pub open spec fn content_or_null(document: Option<JsonView>) -> JsonView {
    match document {
        Some(content) => content,
        None => JsonView::Null,
    }
}

/// The first step of a close call.
pub open spec fn close_spec(connection_id: Seq<char>) -> StepView {
    StepView::Perform(
        ActionView::RemoveConnection(connection_id),
        PendingView::Close { connection_id },
    )
}

/// The response to a close call, which says whether the connection was open.
pub open spec fn closed(connection_id: Seq<char>, existed: bool) -> ResponseView {
    ResponseView::Fields(
        seq![
            ("connectionId"@, JsonView::Text(connection_id)),
            ("closed"@, JsonView::Bool(existed)),
        ],
    )
}

/// The next step of a close call; nothing where the event does not answer the action.
pub open spec fn close_next(connection_id: Seq<char>, event: EventView) -> Option<StepView> {
    match event {
        EventView::Removed(existed) => Some(StepView::Respond(closed(connection_id, existed))),
        EventView::Poisoned => Some(is_poisoned()),
        _ => None,
    }
}

/// The first step of a call.
pub open spec fn call_spec(connector: ConnectorView, call: CallView) -> StepView {
    let method = call.method;
    if method == "health"@ || method == "ping"@ {
        StepView::Respond(ResponseView::Fields(identity(connector)))
    } else if method == "describe"@ || method == "capabilities"@ {
        StepView::Respond(
            described(
                connector,
                content_or_null(parsed_text(connector.manifest)),
                content_or_null(parsed_text(connector.config)),
            ),
        )
    } else if method == "manifest"@ {
        StepView::Respond(ResponseView::Document(connector.manifest))
    } else if method == "config"@ {
        StepView::Respond(ResponseView::Document(connector.config))
    } else if method == "connect"@ {
        connect_spec(connector.engine, call.request->0, call.connection_id, call.environment)
    } else if method == "query"@ {
        query_spec(call.connection_id, call.sql, call.max_rows)
    } else if method == "metadata"@ {
        metadata_spec(call.connection_id)
    } else if method == "close"@ {
        close_spec(call.connection_id)
    } else {
        fails("connector.unknownMethod"@, "unknown connector method: "@ + method)
    }
}

/// The next step of a call; nothing where the event does not answer the action.
pub open spec fn next(pending: PendingView, event: EventView) -> Option<StepView> {
    match pending {
        PendingView::Connect(state) => connect_next(state, event),
        PendingView::Query(state) => query_next(state, event),
        PendingView::Metadata(state) => metadata_next(state, event),
        PendingView::Close { connection_id } => close_next(connection_id, event),
    }
}

/// The fields that tell the connector.
fn identity_fields(connector: &Connector) -> (r: Vec<(String, Json)>)
    ensures
        members_view(r@) == identity(connector@),
{
    let fields = vec![
        named("engine", Json::Text(connector.engine.clone())),
        named("abiVersion", json_unsigned(connector.abi_version as u64)),
        named("driverLinked", Json::Bool(true)),
    ];
    assert(members_view(fields@) =~= identity(connector@));
    fields
}

/// The description of the connector with its two documents.
pub fn describe(connector: &Connector, manifest: Json, config: Json) -> (r: Response)
    ensures
        r@ == described(connector@, manifest@, config@),
{
    let mut fields = identity_fields(connector);
    fields.push(named("manifest", manifest));
    fields.push(named("config", config));
    assert(members_view(fields@) =~= described(connector@, manifest@, config@)->Fields_0);
    Response::Fields(fields)
}

/// What a text holds as a JSON document; null where it is none.
fn parse_or_null(text: &str) -> (r: Json)
    ensures
        r@ == content_or_null(parsed_text(text@)),
{
    match Json::parse(text) {
        Some(content) => content,
        None => Json::Null,
    }
}

/// The first step of a close call.
pub fn close(connection_id: String) -> (r: Step)
    ensures
        r@ == close_spec(connection_id@),
{
    let id = connection_id.clone();
    Step::Perform(Action::RemoveConnection(id), Pending::Close { connection_id })
}

/// The response to a close call.
fn respond_closed(connection_id: String, existed: bool) -> (r: Step)
    ensures
        r@ == StepView::Respond(closed(connection_id@, existed)),
{
    let fields = vec![
        named("connectionId", Json::Text(connection_id)),
        named("closed", Json::Bool(existed)),
    ];
    assert(members_view(fields@) =~= closed(connection_id@, existed)->Fields_0);
    Step::Respond(Response::Fields(fields))
}

/// Whether a method is about a connection; a call of it comes with a request.
pub fn needs_request(method: &str) -> (r: bool)
    ensures
        r == needs_request_spec(method@),
{
    same_text(method, "connect") || same_text(method, "query") || same_text(method, "metadata")
        || same_text(method, "close")
}

/// The first step of a call.
pub fn call_json(connector: &Connector, call: Call) -> (r: Step)
    requires
        needs_request_spec(call@.method) ==> call@.request is Some,
    ensures
        r@ == call_spec(connector@, call@),
{
    let method = call.method.as_str();
    if same_text(method, "health") || same_text(method, "ping") {
        Step::Respond(Response::Fields(identity_fields(connector)))
    } else if same_text(method, "describe") || same_text(method, "capabilities") {
        let manifest = parse_or_null(&connector.manifest);
        let config = parse_or_null(&connector.config);
        Step::Respond(describe(connector, manifest, config))
    } else if same_text(method, "manifest") {
        Step::Respond(Response::Document(connector.manifest.clone()))
    } else if same_text(method, "config") {
        Step::Respond(Response::Document(connector.config.clone()))
    } else if same_text(method, "connect") {
        match &call.request {
            Some(request) => {
                let environment = match &call.environment {
                    Some(token) => Some(token.as_str()),
                    None => None,
                };
                connect(&connector.engine, request, call.connection_id, environment)
            },
            None => unreached(),
        }
    } else if same_text(method, "query") {
        query(call.connection_id, call.sql, call.max_rows)
    } else if same_text(method, "metadata") {
        metadata(call.connection_id)
    } else if same_text(method, "close") {
        close(call.connection_id)
    } else {
        fail("connector.unknownMethod", joined("unknown connector method: ", method))
    }
}

/// Whether an event answers the action that a call waits for.
pub fn expects(pending: &Pending, event: &Event) -> (r: bool)
    ensures
        r == next(pending@, event@) is Some,
{
    match pending {
        Pending::Connect(state) => connect_expects(state, event),
        Pending::Query(state) => query_expects(state, event),
        Pending::Metadata(state) => metadata_expects(state, event),
        Pending::Close { .. } => matches!(event, Event::Removed(_) | Event::Poisoned),
    }
}

/// The next step of a call, from the state it waits in and what came of the action.
pub fn resume(pending: Pending, event: Event) -> (r: Step)
    requires
        next(pending@, event@) is Some,
    ensures
        next(pending@, event@) == Some(r@),
{
    match pending {
        Pending::Connect(state) => resume_connect(state, event),
        Pending::Query(state) => run_query(state, event),
        Pending::Metadata(state) => resume_metadata(state, event),
        Pending::Close { connection_id } => match event {
            Event::Removed(existed) => respond_closed(connection_id, existed),
            Event::Poisoned => fail_poisoned(),
            _ => unreached(),
        },
    }
}

} // verus!
