//! The conversation between the connector's logic and its surroundings.
//!
//! A call is answered in steps. Each [`Step`] is either the response, or an [`Action`] to perform
//! on the driver or on the open connections; what came of the action is handed back as an
//! [`Event`], together with the [`Pending`] state of the call, for the next step.

use vstd::prelude::*;
use vstd::string::*;

use crate::catalog::{
    column_rows_view, table_rows_view, ColumnRow, ColumnRowView, TableRow, TableRowView,
};
use crate::cells::{cells_view, Cell, CellView};
use crate::connecting::{Connecting, ConnectingView};
use crate::json::{members_view, Json, JsonView};
use crate::listing::{Listing, ListingView};
use crate::querying::{Querying, QueryingView};
use crate::target::string_view;

verus! {

/// What is to be done next on behalf of a call.
#[derive(Debug, PartialEq, Eq)]
pub enum Action {
    /// Open a new connection to a database in memory.
    OpenInMemory,
    /// Open a new connection to the database in a file.
    OpenFile(String),
    /// Run statements on the new connection.
    RunBatch(String),
    /// Read the text in the first column of the first row on the new connection.
    ReadText(String),
    /// Read the integer in the first column of the first row on the new connection.
    ReadCount(String),
    /// Keep the new connection under an id.
    StoreConnection(String),
    /// Find the connection that is kept under an id.
    FindConnection(String),
    /// Drop the connection that is kept under an id.
    RemoveConnection(String),
    /// Run a statement that gives no rows on the connection that was found.
    RunStatement(String),
    /// Run a statement that gives rows on the connection that was found.
    StartQuery(String),
    /// Go to the next row.
    FetchRow,
    /// Read so many cells of the row.
    ReadCells(usize),
    /// Read the rows that list the tables of the connection that was found.
    ListTables(String),
    /// Read the rows that list the columns of the connection that was found.
    ListColumns(String),
}

/// The content of an [`Action`].
pub ghost enum ActionView {
    OpenInMemory,
    OpenFile(Seq<char>),
    RunBatch(Seq<char>),
    ReadText(Seq<char>),
    ReadCount(Seq<char>),
    StoreConnection(Seq<char>),
    FindConnection(Seq<char>),
    RemoveConnection(Seq<char>),
    RunStatement(Seq<char>),
    StartQuery(Seq<char>),
    FetchRow,
    ReadCells(usize),
    ListTables(Seq<char>),
    ListColumns(Seq<char>),
}

impl View for Action {
    type V = ActionView;

    open spec fn view(&self) -> ActionView {
        match self {
            Action::OpenInMemory => ActionView::OpenInMemory,
            Action::OpenFile(path) => ActionView::OpenFile(path@),
            Action::RunBatch(sql) => ActionView::RunBatch(sql@),
            Action::ReadText(sql) => ActionView::ReadText(sql@),
            Action::ReadCount(sql) => ActionView::ReadCount(sql@),
            Action::StoreConnection(id) => ActionView::StoreConnection(id@),
            Action::FindConnection(id) => ActionView::FindConnection(id@),
            Action::RemoveConnection(id) => ActionView::RemoveConnection(id@),
            Action::RunStatement(sql) => ActionView::RunStatement(sql@),
            Action::StartQuery(sql) => ActionView::StartQuery(sql@),
            Action::FetchRow => ActionView::FetchRow,
            Action::ReadCells(n) => ActionView::ReadCells(*n),
            Action::ListTables(sql) => ActionView::ListTables(sql@),
            Action::ListColumns(sql) => ActionView::ListColumns(sql@),
        }
    }
}

/// What came of an action.
#[derive(Debug, PartialEq, Eq)]
pub enum Event {
    /// It was done; a connection that was looked for was found.
    Done,
    /// The driver failed, with this message.
    Failed(String),
    /// The text that was read, if it could be read.
    Text(Option<String>),
    /// The integer that was read, if it could be read.
    Count(Option<i64>),
    /// The open connections cannot be reached: another call broke off while it held them.
    Poisoned,
    /// No connection is kept under the id.
    Missing,
    /// Whether a connection was kept under the id; now none is.
    Removed(bool),
    /// The statement runs; these are the columns of its rows.
    Columns(Vec<String>),
    /// There is a next row.
    Row,
    /// There is no further row.
    EndOfRows,
    /// The cells that were read.
    Cells(Vec<Cell>),
    /// The rows that list the tables.
    Tables(Vec<TableRow>),
    /// The rows that list the columns.
    TableColumns(Vec<ColumnRow>),
}

/// The content of an [`Event`].
pub ghost enum EventView {
    Done,
    Failed(Seq<char>),
    Text(Option<Seq<char>>),
    Count(Option<i64>),
    Poisoned,
    Missing,
    Removed(bool),
    Columns(Seq<Seq<char>>),
    Row,
    EndOfRows,
    Cells(Seq<CellView>),
    Tables(Seq<TableRowView>),
    TableColumns(Seq<ColumnRowView>),
}

/// Strings by their text.
pub open spec fn strings_view(strings: Seq<String>) -> Seq<Seq<char>> {
    strings.map_values(|s: String| s@)
}

impl View for Event {
    type V = EventView;

    open spec fn view(&self) -> EventView {
        match self {
            Event::Done => EventView::Done,
            Event::Failed(message) => EventView::Failed(message@),
            Event::Text(text) => EventView::Text(string_view(*text)),
            Event::Count(count) => EventView::Count(*count),
            Event::Poisoned => EventView::Poisoned,
            Event::Missing => EventView::Missing,
            Event::Removed(existed) => EventView::Removed(*existed),
            Event::Columns(columns) => EventView::Columns(strings_view(columns@)),
            Event::Row => EventView::Row,
            Event::EndOfRows => EventView::EndOfRows,
            Event::Cells(cells) => EventView::Cells(cells_view(cells@)),
            Event::Tables(rows) => EventView::Tables(table_rows_view(rows@)),
            Event::TableColumns(rows) => EventView::TableColumns(column_rows_view(rows@)),
        }
    }
}

/// The answer to a call.
#[derive(Debug, PartialEq, Eq)]
pub enum Response {
    /// The call succeeded, with these fields.
    Fields(Vec<(String, Json)>),
    /// The call failed.
    Failure { code: String, message: String },
    /// The answer is this document, as it is.
    Document(String),
}

/// The content of a [`Response`].
#[verifier::ext_equal]
pub ghost enum ResponseView {
    Fields(Seq<(Seq<char>, JsonView)>),
    Failure { code: Seq<char>, message: Seq<char> },
    Document(Seq<char>),
}

impl View for Response {
    type V = ResponseView;

    open spec fn view(&self) -> ResponseView {
        match self {
            Response::Fields(fields) => ResponseView::Fields(members_view(fields@)),
            Response::Failure { code, message } => ResponseView::Failure {
                code: code@,
                message: message@,
            },
            Response::Document(text) => ResponseView::Document(text@),
        }
    }
}

/// The state of a call that waits for what comes of an action.
#[derive(Debug, PartialEq, Eq)]
pub enum Pending {
    Connect(Connecting),
    Query(Querying),
    Metadata(Listing),
    Close { connection_id: String },
}

/// The content of a [`Pending`] state.
pub ghost enum PendingView {
    Connect(ConnectingView),
    Query(QueryingView),
    Metadata(ListingView),
    Close { connection_id: Seq<char> },
}

impl View for Pending {
    type V = PendingView;

    open spec fn view(&self) -> PendingView {
        match self {
            Pending::Connect(state) => PendingView::Connect(state@),
            Pending::Query(state) => PendingView::Query(state@),
            Pending::Metadata(state) => PendingView::Metadata(state@),
            Pending::Close { connection_id } => PendingView::Close {
                connection_id: connection_id@,
            },
        }
    }
}

/// One step of a call: its response, or an action to perform and the state to go on from.
#[derive(Debug, PartialEq, Eq)]
pub enum Step {
    Respond(Response),
    Perform(Action, Pending),
}

/// The content of a [`Step`].
pub ghost enum StepView {
    Respond(ResponseView),
    Perform(ActionView, PendingView),
}

impl View for Step {
    type V = StepView;

    open spec fn view(&self) -> StepView {
        match self {
            Step::Respond(response) => StepView::Respond(response@),
            Step::Perform(action, pending) => StepView::Perform(action@, pending@),
        }
    }
}

/// The step that answers a call with a failure.
pub open spec fn fails(code: Seq<char>, message: Seq<char>) -> StepView {
    StepView::Respond(ResponseView::Failure { code, message })
}

/// The failure of a call that cannot reach the open connections.
pub open spec fn is_poisoned() -> StepView {
    fails("connector.statePoisoned"@, "Connector connection state is poisoned."@)
}

/// The failure of a call whose connection is not open.
pub open spec fn is_missing(connection_id: Seq<char>) -> StepView {
    fails("connector.connectionNotFound"@, "no open connection: "@ + connection_id)
}

/// Answers a call with a failure.
pub(crate) fn fail(code: &str, message: String) -> (r: Step)
    ensures
        r@ == fails(code@, message@),
{
    Step::Respond(Response::Failure { code: code.to_owned(), message })
}

/// Answers a call that cannot reach the open connections.
pub(crate) fn fail_poisoned() -> (r: Step)
    ensures
        r@ == is_poisoned(),
{
    fail("connector.statePoisoned", "Connector connection state is poisoned.".to_owned())
}

/// Answers a call whose connection is not open.
pub(crate) fn fail_missing(connection_id: &str) -> (r: Step)
    ensures
        r@ == is_missing(connection_id@),
{
    let mut message = "no open connection: ".to_owned();
    message.append(connection_id);
    fail("connector.connectionNotFound", message)
}

} // verus!
