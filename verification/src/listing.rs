//! Listing the catalog: the tables are read, then their columns, and both are arranged.

use vstd::prelude::*;
use vstd::string::*;
use vstd::pervasive::unreached;

use crate::catalog::{
    catalog_of, column_rows_view, grouped, load_metadata, metadata_json, metadata_to_json,
    table_rows_view, ColumnRow, ColumnRowView, TableRow, TableRowView,
};
use crate::json::{members_view, named, Json, JsonView};
use crate::protocol::{
    fail, fail_missing, fail_poisoned, fails, is_missing, is_poisoned, Action, ActionView, Event,
    EventView, Pending, PendingView, Response, ResponseView, Step, StepView,
};
use crate::text::joined;

verus! {

/// How far the listing has got.
#[derive(Debug, PartialEq, Eq)]
pub enum Listing {
    /// The connection is being looked for.
    Finding { connection_id: String },
    /// The tables are being listed.
    Tables { connection_id: String },
    /// The columns are being listed.
    Columns { connection_id: String, tables: Vec<TableRow> },
}

/// The content of a [`Listing`] state.
pub ghost enum ListingView {
    Finding { connection_id: Seq<char> },
    Tables { connection_id: Seq<char> },
    Columns { connection_id: Seq<char>, tables: Seq<TableRowView> },
}

impl View for Listing {
    type V = ListingView;

    open spec fn view(&self) -> ListingView {
        match self {
            Listing::Finding { connection_id } => ListingView::Finding {
                connection_id: connection_id@,
            },
            Listing::Tables { connection_id } => ListingView::Tables {
                connection_id: connection_id@,
            },
            Listing::Columns { connection_id, tables } => ListingView::Columns {
                connection_id: connection_id@,
                tables: table_rows_view(tables@),
            },
        }
    }
}

/// An action on the way to the catalog.
pub open spec fn listing_goes_on(action: ActionView, state: ListingView) -> StepView {
    StepView::Perform(action, PendingView::Metadata(state))
}

/// The first step of a metadata call.
pub open spec fn metadata_spec(connection_id: Seq<char>) -> StepView {
    listing_goes_on(
        ActionView::FindConnection(connection_id),
        ListingView::Finding { connection_id },
    )
}

/// The failure of the driver while the catalog is listed.
pub open spec fn metadata_fails(message: Seq<char>) -> StepView {
    fails("connector.metadataFailed"@, message)
}

/// The response to a metadata call that succeeded.
pub open spec fn listed(
    connection_id: Seq<char>,
    tables: Seq<TableRowView>,
    columns: Seq<ColumnRowView>,
) -> ResponseView {
    ResponseView::Fields(
        seq![
            ("connectionId"@, JsonView::Text(connection_id)),
            ("metadata"@, metadata_json(grouped(catalog_of(tables, columns)))),
        ],
    )
}

/// The next step of a metadata call; nothing where the event does not answer the action.
pub open spec fn metadata_next(state: ListingView, event: EventView) -> Option<StepView> {
    match state {
        ListingView::Finding { connection_id } => match event {
            EventView::Done => Some(
                listing_goes_on(
                    ActionView::ListTables(
                        "select table_schema, table_name, table_type from information_schema.tables where table_schema not in ('information_schema', 'pg_catalog') order by table_schema, table_name"@,
                    ),
                    ListingView::Tables { connection_id },
                ),
            ),
            EventView::Missing => Some(is_missing(connection_id)),
            EventView::Poisoned => Some(is_poisoned()),
            _ => None,
        },
        ListingView::Tables { connection_id } => match event {
            EventView::Tables(tables) => Some(
                listing_goes_on(
                    ActionView::ListColumns(
                        "select table_schema, table_name, column_name, data_type, is_nullable, ordinal_position from information_schema.columns where table_schema not in ('information_schema', 'pg_catalog') order by table_schema, table_name, ordinal_position"@,
                    ),
                    ListingView::Columns { connection_id, tables },
                ),
            ),
            EventView::Failed(e) => Some(metadata_fails("metadata objects failed: "@ + e)),
            _ => None,
        },
        ListingView::Columns { connection_id, tables } => match event {
            EventView::TableColumns(columns) => Some(
                StepView::Respond(listed(connection_id, tables, columns)),
            ),
            EventView::Failed(e) => Some(metadata_fails("metadata columns failed: "@ + e)),
            _ => None,
        },
    }
}

fn go_on(action: Action, state: Listing) -> (r: Step)
    ensures
        r@ == listing_goes_on(action@, state@),
{
    Step::Perform(action, Pending::Metadata(state))
}

/// The response to a metadata call that succeeded.
pub fn metadata_response(
    connection_id: String,
    tables: Vec<TableRow>,
    columns: Vec<ColumnRow>,
) -> (r: Response)
    ensures
        r@ == listed(connection_id@, table_rows_view(tables@), column_rows_view(columns@)),
{
    let metadata = metadata_to_json(load_metadata(tables, columns));
    let fields = vec![
        named("connectionId", Json::Text(connection_id)),
        named("metadata", metadata),
    ];
    assert(members_view(fields@) =~= listed(
        connection_id@,
        table_rows_view(tables@),
        column_rows_view(columns@),
    )->Fields_0);
    Response::Fields(fields)
}

/// The first step of a metadata call.
pub fn metadata(connection_id: String) -> (r: Step)
    ensures
        r@ == metadata_spec(connection_id@),
{
    let id = connection_id.clone();
    go_on(Action::FindConnection(id), Listing::Finding { connection_id })
}

/// Whether the event answers the action of the state.
pub fn metadata_expects(state: &Listing, event: &Event) -> (r: bool)
    ensures
        r == metadata_next(state@, event@) is Some,
{
    match state {
        Listing::Finding { .. } => matches!(event, Event::Done | Event::Missing | Event::Poisoned),
        Listing::Tables { .. } => matches!(event, Event::Tables(_) | Event::Failed(_)),
        Listing::Columns { .. } => matches!(event, Event::TableColumns(_) | Event::Failed(_)),
    }
}

/// The next step of a metadata call.
pub fn resume_metadata(state: Listing, event: Event) -> (r: Step)
    requires
        metadata_next(state@, event@) is Some,
    ensures
        metadata_next(state@, event@) == Some(r@),
{
    match (state, event) {
        (Listing::Finding { connection_id }, Event::Done) => go_on(
            Action::ListTables(
                "select table_schema, table_name, table_type from information_schema.tables where table_schema not in ('information_schema', 'pg_catalog') order by table_schema, table_name".to_owned(),
            ),
            Listing::Tables { connection_id },
        ),
        (Listing::Finding { connection_id }, Event::Missing) => fail_missing(&connection_id),
        (Listing::Finding { .. }, Event::Poisoned) => fail_poisoned(),
        (Listing::Tables { connection_id }, Event::Tables(tables)) => go_on(
            Action::ListColumns(
                "select table_schema, table_name, column_name, data_type, is_nullable, ordinal_position from information_schema.columns where table_schema not in ('information_schema', 'pg_catalog') order by table_schema, table_name, ordinal_position".to_owned(),
            ),
            Listing::Columns { connection_id, tables },
        ),
        (Listing::Tables { .. }, Event::Failed(e)) => fail(
            "connector.metadataFailed",
            joined("metadata objects failed: ", &e),
        ),
        (Listing::Columns { connection_id, tables }, Event::TableColumns(columns)) => Step::Respond(
            metadata_response(connection_id, tables, columns),
        ),
        (Listing::Columns { .. }, Event::Failed(e)) => fail(
            "connector.metadataFailed",
            joined("metadata columns failed: ", &e),
        ),
        _ => unreached(),
    }
}

} // verus!
