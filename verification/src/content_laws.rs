//! What the contents of values stand for, and what becomes of a value in JSON.

use vstd::prelude::*;

use crate::catalog::{ColumnMeta, ColumnRow, ObjectMeta, SchemaMeta, TableRow};
use crate::cells::{cell_json, row_json, Cell, CellView};
use crate::json::{integer, lemma_json_view, member, Json, JsonNumber, JsonView};
use crate::protocol::{Action, ActionView, Event, EventView, Response, ResponseView, Step, StepView};
use crate::quoting::{hex_is_injective, hex_text};
use crate::session::{Call, Connector};
use crate::target::{Target, TargetView};

verus! {

/// The content of a JSON value is all of it: its variant, its scalar, each element and each member
/// in its place.
pub proof fn json_content_is_whole(j: Json)
    ensures
        match j {
            Json::Null => j@ == JsonView::Null,
            Json::Bool(b) => j@ == JsonView::Bool(b),
            Json::Number(n) => j@ == JsonView::Number(n),
            Json::Text(t) => j@ == JsonView::Text(t@),
            Json::Array(items) => j@ matches JsonView::Array(all) && all.len() == items@.len() && (
            forall|i: int| 0 <= i < all.len() ==> #[trigger] all[i] == items@[i]@),
            Json::Object(members) => j@ matches JsonView::Object(all) && all.len()
                == members@.len() && (forall|i: int|
                0 <= i < all.len() ==> #[trigger] all[i] == (members@[i].0@, members@[i].1@)),
        },
{
    broadcast use lemma_json_view;

}

/// The content of a row that lists a table or a column is each of its fields.
pub proof fn row_content_is_whole(table: TableRow, column: ColumnRow)
    ensures
        table@.schema == table.schema@,
        table@.name == table.name@,
        table@.table_type == table.table_type@,
        column@.schema == column.schema@,
        column@.table == column.table@,
        column@.name == column.name@,
        column@.data_type == column.data_type@,
        column@.is_nullable == column.is_nullable@,
        column@.ordinal == column.ordinal,
{
}

/// The content of the catalog is each field of each of its parts, in their places.
pub proof fn catalog_content_is_whole(column: ColumnMeta, object: ObjectMeta, schema: SchemaMeta)
    ensures
        column@.name == column.name@,
        column@.data_type == column.data_type@,
        column@.nullable == column.nullable,
        column@.ordinal == column.ordinal,
        object@.schema == object.schema@,
        object@.name == object.name@,
        object@.is_view == object.is_view,
        object@.columns.len() == object.columns@.len(),
        forall|i: int|
            0 <= i < object.columns@.len() ==> #[trigger] object@.columns[i] == object.columns@[i]@,
        schema@.name == schema.name@,
        schema@.objects.len() == schema.objects@.len(),
        forall|i: int|
            0 <= i < schema.objects@.len() ==> #[trigger] schema@.objects[i] == schema.objects@[i]@,
{
}

/// The content of a call and of the connector that it reaches is each of their fields.
pub proof fn call_content_is_whole(call: Call, connector: Connector)
    ensures
        call@.method == call.method@,
        match call.request {
            Some(request) => call@.request == Some(request@),
            None => call@.request is None,
        },
        call@.connection_id == call.connection_id@,
        match call.sql {
            Some(sql) => call@.sql == Some(sql@),
            None => call@.sql is None,
        },
        call@.max_rows == call.max_rows,
        match call.environment {
            Some(token) => call@.environment == Some(token@),
            None => call@.environment is None,
        },
        connector@.engine == connector.engine@,
        connector@.abi_version == connector.abi_version,
        connector@.manifest == connector.manifest@,
        connector@.config == connector.config@,
{
}

/// The content of an event is its variant and what it carries.
pub proof fn event_content_is_whole(event: Event)
    ensures
        match event {
            Event::Done => event@ == EventView::Done,
            Event::Failed(message) => event@ == EventView::Failed(message@),
            Event::Text(Some(text)) => event@ == EventView::Text(Some(text@)),
            Event::Text(None) => event@ == EventView::Text(None),
            Event::Count(count) => event@ == EventView::Count(count),
            Event::Poisoned => event@ == EventView::Poisoned,
            Event::Missing => event@ == EventView::Missing,
            Event::Removed(existed) => event@ == EventView::Removed(existed),
            Event::Columns(names) => event@ matches EventView::Columns(all) && all.len()
                == names@.len() && (forall|i: int|
                0 <= i < all.len() ==> #[trigger] all[i] == names@[i]@),
            Event::Row => event@ == EventView::Row,
            Event::EndOfRows => event@ == EventView::EndOfRows,
            Event::Cells(cells) => event@ matches EventView::Cells(all) && all.len()
                == cells@.len() && (forall|i: int|
                0 <= i < all.len() ==> #[trigger] all[i] == cells@[i]@),
            Event::Tables(rows) => event@ matches EventView::Tables(all) && all.len()
                == rows@.len() && (forall|i: int|
                0 <= i < all.len() ==> #[trigger] all[i] == rows@[i]@),
            Event::TableColumns(rows) => event@ matches EventView::TableColumns(all) && all.len()
                == rows@.len() && (forall|i: int|
                0 <= i < all.len() ==> #[trigger] all[i] == rows@[i]@),
        },
{
}

/// The content of an action is its variant and what it carries.
pub proof fn action_content_is_whole(action: Action)
    ensures
        match action {
            Action::OpenInMemory => action@ == ActionView::OpenInMemory,
            Action::OpenFile(path) => action@ == ActionView::OpenFile(path@),
            Action::RunBatch(sql) => action@ == ActionView::RunBatch(sql@),
            Action::ReadText(sql) => action@ == ActionView::ReadText(sql@),
            Action::ReadCount(sql) => action@ == ActionView::ReadCount(sql@),
            Action::StoreConnection(id) => action@ == ActionView::StoreConnection(id@),
            Action::FindConnection(id) => action@ == ActionView::FindConnection(id@),
            Action::RemoveConnection(id) => action@ == ActionView::RemoveConnection(id@),
            Action::RunStatement(sql) => action@ == ActionView::RunStatement(sql@),
            Action::StartQuery(sql) => action@ == ActionView::StartQuery(sql@),
            Action::FetchRow => action@ == ActionView::FetchRow,
            Action::ReadCells(n) => action@ == ActionView::ReadCells(n),
            Action::ListTables(sql) => action@ == ActionView::ListTables(sql@),
            Action::ListColumns(sql) => action@ == ActionView::ListColumns(sql@),
        },
{
}

/// The content of a step and of a response is their variant and what they carry, each field of a
/// response in its place.
pub proof fn response_content_is_whole(response: Response, step: Step)
    ensures
        match response {
            Response::Fields(fields) => response@ matches ResponseView::Fields(all) && all.len()
                == fields@.len() && (forall|i: int|
                0 <= i < all.len() ==> #[trigger] all[i] == (fields@[i].0@, fields@[i].1@)),
            Response::Failure { code, message } => response@ == (ResponseView::Failure {
                code: code@,
                message: message@,
            }),
            Response::Document(text) => response@ == ResponseView::Document(text@),
        },
        match step {
            Step::Respond(r) => step@ == StepView::Respond(r@),
            Step::Perform(action, pending) => step@ == StepView::Perform(action@, pending@),
        },
{
}

/// The content of a target is its variant and its path or its database.
pub proof fn target_content_is_whole(target: Target)
    ensures
        match target {
            Target::InMemory => target@ == TargetView::InMemory,
            Target::LocalFile(path) => target@ == TargetView::LocalFile(path@),
            Target::MotherDuck(database) => target@ == TargetView::MotherDuck(database@),
        },
{
}

/// A member is looked up by its key: it is the last one with the key, and there is none exactly
/// where no member has the key or the value is no object.
pub proof fn the_last_member_of_a_key_counts(j: JsonView, key: Seq<char>)
    ensures
        match j {
            JsonView::Object(members) => match j.get(key) {
                Some(value) => exists|i: int|
                    {
                        &&& 0 <= i < members.len()
                        &&& #[trigger] members[i] == (key, value)
                        &&& forall|k: int| i < k < members.len() ==> (#[trigger] members[k]).0 != key
                    },
                None => forall|k: int|
                    0 <= k < members.len() ==> (#[trigger] members[k]).0 != key,
            },
            _ => j.get(key) is None,
        },
{
    if let JsonView::Object(members) = j {
        lemma_member(members, key);
    }
}

proof fn lemma_member(members: Seq<(Seq<char>, JsonView)>, key: Seq<char>)
    ensures
        match member(members, key) {
            Some(value) => exists|i: int|
                {
                    &&& 0 <= i < members.len()
                    &&& #[trigger] members[i] == (key, value)
                    &&& forall|k: int| i < k < members.len() ==> (#[trigger] members[k]).0 != key
                },
            None => forall|k: int| 0 <= k < members.len() ==> (#[trigger] members[k]).0 != key,
        },
    decreases members.len(),
{
    if members.len() > 0 {
        let front = members.drop_last();
        let n = front.len() as int;
        if members.last().0 == key {
            assert(members[n] == (key, members.last().1));
        } else {
            lemma_member(front, key);
            match member(front, key) {
                Some(value) => {
                    let i = choose|i: int|
                        {
                            &&& 0 <= i < front.len()
                            &&& #[trigger] front[i] == (key, value)
                            &&& forall|k: int|
                                i < k < front.len() ==> (#[trigger] front[k]).0 != key
                        };
                    assert(members[i] == (key, value));
                    assert forall|k: int| i < k < members.len() implies (#[trigger] members[k]).0
                        != key by {
                        if k < n {
                            assert(members[k] == front[k]);
                        }
                    }
                },
                None => {
                    assert forall|k: int| 0 <= k < members.len() implies (#[trigger] members[k]).0
                        != key by {
                        if k < n {
                            assert(members[k] == front[k]);
                        }
                    }
                },
            }
        }
    }
}

/// A member is found under its key, unless a later one has the same key.
pub proof fn a_member_is_found_under_its_key(members: Seq<(Seq<char>, JsonView)>, i: int)
    requires
        0 <= i < members.len(),
        forall|k: int| i < k < members.len() ==> (#[trigger] members[k]).0 != members[i].0,
    ensures
        member(members, members[i].0) == Some(members[i].1),
        JsonView::Object(members).get(members[i].0) == Some(members[i].1),
    decreases members.len(),
{
    if i < members.len() - 1 {
        let front = members.drop_last();
        assert(members[members.len() - 1].0 != members[i].0);
        assert forall|k: int| i < k < front.len() implies (#[trigger] front[k]).0 != front[i].0 by {
            assert(front[k] == members[k]);
        }
        a_member_is_found_under_its_key(front, i);
    }
}

/// A value has a text exactly if it is a string, and a truth value exactly if it is a boolean:
/// its own.
pub proof fn scalars_are_read_as_they_are(j: JsonView, text: Seq<char>, truth: bool)
    ensures
        j.as_text() == Some(text) <==> j == JsonView::Text(text),
        j.as_bool() == Some(truth) <==> j == JsonView::Bool(truth),
{
}

/// An integer keeps its value as a JSON number, and is held without a sign exactly if it is not
/// negative.
pub proof fn integers_keep_their_value(n: int)
    requires
        i64::MIN <= n <= u64::MAX,
    ensures
        match integer(n) {
            JsonNumber::Unsigned(value) => value == n,
            JsonNumber::Negative(value) => value == n && n < 0,
            JsonNumber::Double(_) => false,
        },
{
}

/// Every cell has its own value in JSON. A boolean has its truth value, an integer of any width
/// its value, a text its characters, bytes the text `\x` and their digits, and a value of another
/// type the text that describes it. A double is the number with its bits, unless the eleven bits of
/// its exponent are all set; then it is null, as are an absent and an unreadable value.
pub proof fn cells_keep_their_value(cell: Cell)
    ensures
        ({
            let json = cell_json(cell@);
            match cell {
                Cell::Null => json == JsonView::Null,
                Cell::Boolean(b) => json.as_bool() == Some(b),
                Cell::TinyInt(n) => is_integer(json, n as int),
                Cell::SmallInt(n) => is_integer(json, n as int),
                Cell::Int(n) => is_integer(json, n as int),
                Cell::BigInt(n) => is_integer(json, n as int),
                Cell::UTinyInt(n) => is_integer(json, n as int),
                Cell::USmallInt(n) => is_integer(json, n as int),
                Cell::UInt(n) => is_integer(json, n as int),
                Cell::UBigInt(n) => is_integer(json, n as int),
                Cell::Double(bits) => json == if (bits as nat / 0x10_0000_0000_0000) % 0x800
                    == 0x7ff {
                    JsonView::Null
                } else {
                    JsonView::Number(JsonNumber::Double(bits))
                },
                Cell::Text(t) => json.as_text() == Some(t@),
                Cell::Blob(bytes) => json.as_text() == Some(
                    seq!['\\', 'x'] + hex_text(bytes@),
                ),
                Cell::Other(t) => json.as_text() == Some(t@),
                Cell::Unreadable => json == JsonView::Null,
            }
        }),
{
    reveal_strlit("\\x");
    assert("\\x"@ =~= seq!['\\', 'x']);
}

/// Whether a value is the number with the given value: one without a sign exactly if it is not
/// negative.
pub open spec fn is_integer(json: JsonView, n: int) -> bool {
    json matches JsonView::Number(number) && match number {
        JsonNumber::Unsigned(value) => value == n,
        JsonNumber::Negative(value) => value == n && n < 0,
        JsonNumber::Double(_) => false,
    }
}

/// Two cells of one kind with the same JSON are equal: booleans, integers, finite doubles, texts,
/// and bytes.
pub proof fn cells_are_told_apart(a: CellView, b: CellView)
    requires
        cell_json(a) == cell_json(b),
    ensures
        match (a, b) {
            (CellView::Boolean(x), CellView::Boolean(y)) => x == y,
            (CellView::Integer(x), CellView::Integer(y)) => i64::MIN <= x <= u64::MAX && i64::MIN
                <= y <= u64::MAX ==> x == y,
            (CellView::Double(x), CellView::Double(y)) => !(cell_json(a) is Null) ==> x == y,
            (CellView::Text(x), CellView::Text(y)) => x == y,
            (CellView::Other(x), CellView::Other(y)) => x == y,
            (CellView::Blob(x), CellView::Blob(y)) => x == y,
            _ => true,
        },
{
    if let (CellView::Blob(x), CellView::Blob(y)) = (a, b) {
        let n = "\\x"@.len() as int;
        assert(("\\x"@ + hex_text(x)).skip(n) =~= hex_text(x));
        assert(("\\x"@ + hex_text(y)).skip(n) =~= hex_text(y));
        hex_is_injective(x, y);
    }
}

/// A row has as many values as cells, each that of its cell, in order.
pub proof fn rows_keep_their_cells(cells: Seq<CellView>)
    ensures
        row_json(cells) matches JsonView::Array(values) && values.len() == cells.len() && (forall|
            i: int,
        |
            0 <= i < cells.len() ==> #[trigger] values[i] == cell_json(cells[i])),
{
}

} // verus!
