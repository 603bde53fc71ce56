//! What a listing of the catalog tells, said of the rows of the driver and of the members of the
//! response.

use vstd::prelude::*;

use crate::call_laws::{lemma_keys, lemma_method_names};
use crate::catalog::{
    ascending, catalog_of, column_json, columns_of, every_table_is_under_its_schema, flattened,
    grouped, has_key, is_listed, listed_as_view, metadata_json, object_json, object_of,
    rows_have_a_catalog, schema_json, schemas_hold_the_catalog, ColumnRowView, Key, ObjectView, SchemaView,
    TableRowView,
};
use crate::content_laws::{a_member_is_found_under_its_key, is_integer};
use crate::json::{member, JsonView};
use crate::laws::{actions, metadata_answers_the_catalog, run};
use crate::protocol::{ActionView, EventView, ResponseView, StepView};
use crate::session::{call_spec, CallView, ConnectorView};
use crate::text::{ascii_lower, lemma_before_total, text_before};

verus! {

/// Whether a JSON object tells the column of a row: its name, its type, whether it is nullable, and
/// its place.
pub open spec fn tells_column(json: JsonView, row: ColumnRowView) -> bool {
    &&& json is Object
    &&& json->Object_0.len() == 4
    &&& json.get("name"@) == Some(JsonView::Text(row.name))
    &&& json.get("dataType"@) == Some(JsonView::Text(row.data_type))
    &&& json.get("nullable"@) == Some(
        JsonView::Bool(ascii_lower(row.is_nullable) == seq!['y', 'e', 's']),
    )
    &&& json.get("ordinal"@) is Some
    &&& is_integer(json.get("ordinal"@)->0, row.ordinal as int)
}

/// Whether a JSON object tells the columns of a table: one entry for each row of the table, in the
/// order of the rows.
pub open spec fn tells_columns(
    json: JsonView,
    columns: Seq<ColumnRowView>,
    schema: Seq<char>,
    name: Seq<char>,
) -> bool {
    let own = columns.filter(|row: ColumnRowView| row.schema == schema && row.table == name);
    &&& json.get("columns"@) matches Some(JsonView::Array(entries))
    &&& entries.len() == own.len()
    &&& forall|i: int| 0 <= i < own.len() ==> tells_column(#[trigger] entries[i], own[i])
}

/// Whether a JSON object tells a table: its schema, its name, its columns, and whether it is a view
/// by the last row that lists it.
pub open spec fn tells_table(
    json: JsonView,
    tables: Seq<TableRowView>,
    columns: Seq<ColumnRowView>,
    schema: Seq<char>,
    name: Seq<char>,
) -> bool {
    &&& json is Object
    &&& json->Object_0.len() == 4
    &&& json.get("schema"@) == Some(JsonView::Text(schema))
    &&& json.get("name"@) == Some(JsonView::Text(name))
    &&& tells_columns(json, columns, schema, name)
    &&& exists|i: int|
        {
            &&& 0 <= i < tables.len()
            &&& (#[trigger] tables[i]).schema == schema
            &&& tables[i].name == name
            &&& forall|k: int|
                i < k < tables.len() ==> !((#[trigger] tables[k]).schema == schema
                    && tables[k].name == name)
            &&& json.get("kind"@) == Some(
                JsonView::Text(
                    if ascii_lower(tables[i].table_type) == seq!['v', 'i', 'e', 'w'] {
                        "view"@
                    } else {
                        "table"@
                    },
                ),
            )
        }
}

proof fn lemma_columns_are_filtered(columns: Seq<ColumnRowView>, key: Key)
    ensures
        ({
            let own = columns.filter(
                |row: ColumnRowView| row.schema == key.0 && row.table == key.1,
            );
            &&& columns_of(columns, key).len() == own.len()
            &&& forall|i: int|
                0 <= i < own.len() ==> #[trigger] columns_of(columns, key)[i] == own[i].column()
        }),
    decreases columns.len(),
{
    reveal(Seq::filter);
    if columns.len() > 0 {
        lemma_columns_are_filtered(columns.drop_last(), key);
    }
}

proof fn lemma_last_row_decides(tables: Seq<TableRowView>, key: Key)
    requires
        is_listed(tables, key),
    ensures
        exists|i: int|
            {
                &&& 0 <= i < tables.len()
                &&& (#[trigger] tables[i]).key() == key
                &&& forall|k: int| i < k < tables.len() ==> (#[trigger] tables[k]).key() != key
                &&& listed_as_view(tables, key) == tables[i].is_view()
            },
    decreases tables.len(),
{
    let front = tables.drop_last();
    let n = front.len() as int;
    let j = choose|j: int| 0 <= j < tables.len() && (#[trigger] tables[j]).key() == key;
    if tables.last().key() == key {
        assert(tables[n].key() == key);
    } else {
        assert(front[j].key() == key);
        lemma_last_row_decides(front, key);
        let i = choose|i: int|
            {
                &&& 0 <= i < front.len()
                &&& (#[trigger] front[i]).key() == key
                &&& forall|k: int| i < k < front.len() ==> (#[trigger] front[k]).key() != key
                &&& listed_as_view(front, key) == front[i].is_view()
            };
        assert(tables[i].key() == key);
        assert forall|k: int| i < k < tables.len() implies (#[trigger] tables[k]).key() != key by {
            if k < n {
                assert(tables[k] == front[k]);
            }
        }
    }
}

proof fn lemma_column_is_told(row: ColumnRowView)
    ensures
        tells_column(column_json(row.column()), row),
{
    lemma_keys();
    reveal_strlit("yes");
    assert("yes"@ =~= seq!['y', 'e', 's']);
    let members = column_json(row.column())->Object_0;
    a_member_is_found_under_its_key(members, 0);
    a_member_is_found_under_its_key(members, 1);
    a_member_is_found_under_its_key(members, 2);
    a_member_is_found_under_its_key(members, 3);
}

proof fn lemma_object_is_told(
    tables: Seq<TableRowView>,
    columns: Seq<ColumnRowView>,
    key: Key,
)
    requires
        is_listed(tables, key),
    ensures
        tells_table(
            object_json(object_of(tables, columns, key)),
            tables,
            columns,
            key.0,
            key.1,
        ),
{
    lemma_keys();
    reveal_strlit("view");
    assert("view"@ =~= seq!['v', 'i', 'e', 'w']);
    let json = object_json(object_of(tables, columns, key));
    let members = json->Object_0;
    a_member_is_found_under_its_key(members, 0);
    a_member_is_found_under_its_key(members, 1);
    a_member_is_found_under_its_key(members, 2);
    a_member_is_found_under_its_key(members, 3);
    lemma_columns_are_filtered(columns, key);
    let own = columns.filter(|row: ColumnRowView| row.schema == key.0 && row.table == key.1);
    let entries = members[3].1->Array_0;
    assert forall|i: int| 0 <= i < own.len() implies tells_column(#[trigger] entries[i], own[i]) by {
        assert(entries[i] == column_json(columns_of(columns, key)[i]));
        lemma_column_is_told(own[i]);
    }
    assert(tells_columns(json, columns, key.0, key.1));
    lemma_last_row_decides(tables, key);
    let i = choose|i: int|
        {
            &&& 0 <= i < tables.len()
            &&& (#[trigger] tables[i]).key() == key
            &&& forall|k: int| i < k < tables.len() ==> (#[trigger] tables[k]).key() != key
            &&& listed_as_view(tables, key) == tables[i].is_view()
        };
    assert(tables[i].schema == key.0 && tables[i].name == key.1);
    assert forall|k: int| i < k < tables.len() implies !((#[trigger] tables[k]).schema == key.0
        && tables[k].name == key.1) by {
        assert(tables[k].key() != key);
    }
}

/// Where an object of a schema stands among all objects.
proof fn lemma_place_in_catalog(schemas: Seq<SchemaView>, i: int, k: int)
    requires
        0 <= i < schemas.len(),
        0 <= k < schemas[i].objects.len(),
    ensures
        ({
            let place = flattened(schemas.take(i)).len() + k;
            &&& 0 <= place < flattened(schemas).len()
            &&& flattened(schemas)[place] == schemas[i].objects[k]
        }),
    decreases schemas.len(),
{
    let front = schemas.drop_last();
    if i < front.len() {
        lemma_place_in_catalog(front, i, k);
        assert(front.take(i) =~= schemas.take(i));
    } else {
        assert(schemas.take(i) =~= front);
    }
}

/// The schemas in the response to a metadata call.
pub open spec fn schemas_in(response: ResponseView) -> Seq<JsonView> {
    member(response->Fields_0, "metadata"@)->0.get("schemas"@)->0->Array_0
}

/// The name that a JSON object gives.
pub open spec fn name_in(json: JsonView) -> Seq<char> {
    json.get("name"@)->0->Text_0
}

/// The objects that the JSON of a schema gives.
pub open spec fn objects_in(json: JsonView) -> Seq<JsonView> {
    json.get("objects"@)->0->Array_0
}

/// What a metadata call answers, when the driver has listed its tables and its columns.
pub open spec fn metadata_answer(
    connector: ConnectorView,
    call: CallView,
    tables: Seq<TableRowView>,
    columns: Seq<ColumnRowView>,
) -> Option<StepView> {
    run(
        call_spec(connector, call),
        seq![EventView::Done, EventView::Tables(tables), EventView::TableColumns(columns)],
    )
}

proof fn lemma_schema_json(schema: SchemaView)
    ensures
        schema_json(schema) is Object,
        schema_json(schema)->Object_0.len() == 2,
        schema_json(schema).get("name"@) == Some(JsonView::Text(schema.name)),
        schema_json(schema).get("objects"@) is Some,
        schema_json(schema).get("objects"@)->0 is Array,
        objects_in(schema_json(schema)).len() == schema.objects.len(),
        forall|k: int|
            0 <= k < schema.objects.len() ==> #[trigger] objects_in(schema_json(schema))[k]
                == object_json(schema.objects[k]),
{
    lemma_keys();
    let members = schema_json(schema)->Object_0;
    a_member_is_found_under_its_key(members, 0);
    a_member_is_found_under_its_key(members, 1);
}

/// What a metadata call answers in terms of the catalog of its rows.
proof fn lemma_metadata_answer(
    connector: ConnectorView,
    call: CallView,
    tables: Seq<TableRowView>,
    columns: Seq<ColumnRowView>,
)
    requires
        call.method == "metadata"@,
    ensures
        metadata_answer(connector, call, tables, columns) matches Some(
            StepView::Respond(response),
        ) && {
            let schemas = grouped(catalog_of(tables, columns));
            &&& response is Fields
            &&& response->Fields_0.len() == 2
            &&& member(response->Fields_0, "connectionId"@) == Some(
                JsonView::Text(call.connection_id),
            )
            &&& member(response->Fields_0, "metadata"@) is Some
            &&& member(response->Fields_0, "metadata"@)->0 is Object
            &&& member(response->Fields_0, "metadata"@)->0->Object_0.len() == 1
            &&& member(response->Fields_0, "metadata"@)->0.get("schemas"@) is Some
            &&& member(response->Fields_0, "metadata"@)->0.get("schemas"@)->0 is Array
            &&& schemas_in(response).len() == schemas.len()
            &&& forall|i: int|
                0 <= i < schemas.len() ==> #[trigger] schemas_in(response)[i] == schema_json(
                    schemas[i],
                )
        },
{
    lemma_method_names();
    lemma_keys();
    metadata_answers_the_catalog(call.connection_id, tables, columns, (seq![], seq![]));
    let response = metadata_answer(connector, call, tables, columns)->0->Respond_0;
    let fields = response->Fields_0;
    a_member_is_found_under_its_key(fields, 0);
    a_member_is_found_under_its_key(fields, 1);
    a_member_is_found_under_its_key(fields[1].1->Object_0, 0);
}

/// A metadata call is answered with the schemas of the connection, each once and in ascending
/// order, none of them empty, and the objects of each once and in ascending order of their names.
pub proof fn metadata_is_arranged_by_schema_and_name(
    connector: ConnectorView,
    call: CallView,
    tables: Seq<TableRowView>,
    columns: Seq<ColumnRowView>,
)
    requires
        call.method == "metadata"@,
    ensures
        metadata_answer(connector, call, tables, columns) matches Some(
            StepView::Respond(response),
        ) && {
            let schemas = schemas_in(response);
            &&& response is Fields
            &&& response->Fields_0.len() == 2
            &&& member(response->Fields_0, "connectionId"@) == Some(
                JsonView::Text(call.connection_id),
            )
            &&& member(response->Fields_0, "metadata"@) is Some
            &&& member(response->Fields_0, "metadata"@)->0 is Object
            &&& member(response->Fields_0, "metadata"@)->0->Object_0.len() == 1
            &&& member(response->Fields_0, "metadata"@)->0.get("schemas"@) == Some(
                JsonView::Array(schemas),
            )
            &&& forall|i: int|
                0 <= i < schemas.len() ==> {
                    &&& (#[trigger] schemas[i]) is Object
                    &&& schemas[i]->Object_0.len() == 2
                    &&& schemas[i].get("name"@) == Some(JsonView::Text(name_in(schemas[i])))
                    &&& schemas[i].get("objects"@) == Some(JsonView::Array(objects_in(schemas[i])))
                    &&& objects_in(schemas[i]).len() > 0
                }
            &&& forall|i: int, j: int|
                0 <= i < j < schemas.len() ==> text_before(
                    name_in(#[trigger] schemas[i]),
                    name_in(#[trigger] schemas[j]),
                )
            &&& forall|i: int, k: int, l: int|
                0 <= i < schemas.len() && 0 <= k < l < objects_in(schemas[i]).len() ==> text_before(
                    name_in(#[trigger] objects_in(schemas[i])[k]),
                    name_in(#[trigger] objects_in(schemas[i])[l]),
                )
        },
{
    lemma_metadata_answer(connector, call, tables, columns);
    rows_have_a_catalog(tables, columns);
    let catalog = catalog_of(tables, columns);
    schemas_hold_the_catalog(catalog);
    let response = metadata_answer(connector, call, tables, columns)->0->Respond_0;
    let schemas = schemas_in(response);
    let parts = grouped(catalog);
    assert forall|i: int| 0 <= i < schemas.len() implies {
        &&& (#[trigger] schemas[i]) is Object
        &&& schemas[i]->Object_0.len() == 2
        &&& schemas[i].get("name"@) == Some(JsonView::Text(name_in(schemas[i])))
        &&& name_in(schemas[i]) == parts[i].name
        &&& schemas[i].get("objects"@) == Some(JsonView::Array(objects_in(schemas[i])))
        &&& objects_in(schemas[i]).len() > 0
    } by {
        lemma_schema_json(parts[i]);
    }
    assert forall|i: int, k: int, l: int|
        0 <= i < schemas.len() && 0 <= k < l < objects_in(schemas[i]).len() implies text_before(
        name_in(#[trigger] objects_in(schemas[i])[k]),
        name_in(#[trigger] objects_in(schemas[i])[l]),
    ) by {
        lemma_schema_json(parts[i]);
        lemma_object_at(catalog, i, k);
        lemma_object_at(catalog, i, l);
        let offset = flattened(parts.take(i)).len();
        let a = catalog[offset + k];
        let b = catalog[offset + l];
        assert(a.schema == parts[i].objects[k].schema && b.schema == parts[i].objects[l].schema);
        lemma_before_total(a.schema, a.schema);
        lemma_object_names(parts[i].objects[k]);
        lemma_object_names(parts[i].objects[l]);
    }
}

proof fn lemma_object_names(object: ObjectView)
    ensures
        object_json(object).get("schema"@) == Some(JsonView::Text(object.schema)),
        object_json(object).get("name"@) == Some(JsonView::Text(object.name)),
{
    lemma_keys();
    a_member_is_found_under_its_key(object_json(object)->Object_0, 0);
    a_member_is_found_under_its_key(object_json(object)->Object_0, 1);
}

proof fn lemma_object_at(catalog: Seq<ObjectView>, i: int, k: int)
    requires
        ascending(catalog),
        0 <= i < grouped(catalog).len(),
        0 <= k < grouped(catalog)[i].objects.len(),
    ensures
        ({
            let place = flattened(grouped(catalog).take(i)).len() + k;
            &&& 0 <= place < catalog.len()
            &&& catalog[place] == grouped(catalog)[i].objects[k]
            &&& catalog[place].schema == grouped(catalog)[i].name
        }),
{
    schemas_hold_the_catalog(catalog);
    lemma_place_in_catalog(grouped(catalog), i, k);
    assert(grouped(catalog)[i].objects[k].schema == grouped(catalog)[i].name);
}

/// A metadata call tells exactly the tables that the driver lists. Every row that lists a table is
/// told by an object under its schema: with its name, whether it is a view, and with all of its
/// columns in order. And every object in the response tells a table that a row lists.
pub proof fn metadata_tells_exactly_the_listed_tables(
    connector: ConnectorView,
    call: CallView,
    tables: Seq<TableRowView>,
    columns: Seq<ColumnRowView>,
)
    requires
        call.method == "metadata"@,
    ensures
        metadata_answer(connector, call, tables, columns) matches Some(
            StepView::Respond(response),
        ) && {
            let schemas = schemas_in(response);
            &&& forall|t: int|
                0 <= t < tables.len() ==> exists|i: int, k: int|
                    {
                        &&& 0 <= i < schemas.len()
                        &&& name_in(schemas[i]) == (#[trigger] tables[t]).schema
                        &&& 0 <= k < objects_in(schemas[i]).len()
                        &&& tells_table(
                            #[trigger] objects_in(schemas[i])[k],
                            tables,
                            columns,
                            tables[t].schema,
                            tables[t].name,
                        )
                    }
            &&& forall|i: int, k: int|
                0 <= i < schemas.len() && 0 <= k < objects_in(schemas[i]).len() ==> tells_table(
                    #[trigger] objects_in(schemas[i])[k],
                    tables,
                    columns,
                    name_in(schemas[i]),
                    name_in(objects_in(schemas[i])[k]),
                )
        },
{
    lemma_metadata_answer(connector, call, tables, columns);
    rows_have_a_catalog(tables, columns);
    let catalog = catalog_of(tables, columns);
    let response = metadata_answer(connector, call, tables, columns)->0->Respond_0;
    let schemas = schemas_in(response);
    let parts = grouped(catalog);
    assert forall|t: int| 0 <= t < tables.len() implies exists|i: int, k: int|
        {
            &&& 0 <= i < schemas.len()
            &&& name_in(schemas[i]) == (#[trigger] tables[t]).schema
            &&& 0 <= k < objects_in(schemas[i]).len()
            &&& tells_table(
                #[trigger] objects_in(schemas[i])[k],
                tables,
                columns,
                tables[t].schema,
                tables[t].name,
            )
        } by {
        let key = tables[t].key();
        assert(is_listed(tables, key));
        every_table_is_under_its_schema(catalog, tables, columns, key);
        let (i, k) = choose|i: int, k: int|
            {
                &&& 0 <= i < parts.len()
                &&& 0 <= k < parts[i].objects.len()
                &&& #[trigger] parts[i].objects[k] == object_of(tables, columns, key)
                &&& parts[i].name == key.0
            };
        lemma_schema_json(parts[i]);
        lemma_object_is_told(tables, columns, key);
        assert(objects_in(schemas[i])[k] == object_json(parts[i].objects[k]));
    }
    assert forall|i: int, k: int|
        0 <= i < schemas.len() && 0 <= k < objects_in(schemas[i]).len() implies tells_table(
        #[trigger] objects_in(schemas[i])[k],
        tables,
        columns,
        name_in(schemas[i]),
        name_in(objects_in(schemas[i])[k]),
    ) by {
        lemma_schema_json(parts[i]);
        lemma_object_at(catalog, i, k);
        let place = flattened(parts.take(i)).len() + k;
        let key = catalog[place].key();
        assert(has_key(catalog, key));
        assert(is_listed(tables, key));
        assert(catalog[place] == object_of(tables, columns, key));
        lemma_object_is_told(tables, columns, key);
        lemma_object_names(parts[i].objects[k]);
    }
}

/// The JSON of a catalog tells all its parts in order: each schema with its name and its objects,
/// each object with its schema, its name, its kind and its columns, and each column with its name,
/// its type, whether it is nullable, and its place.
pub proof fn catalog_json_tells_all_parts(schemas: Seq<SchemaView>, i: int, k: int, c: int)
    ensures
        ({
            let json = metadata_json(schemas);
            &&& json is Object
            &&& json->Object_0.len() == 1
            &&& json.get("schemas"@) matches Some(JsonView::Array(listed))
            &&& listed.len() == schemas.len()
            &&& 0 <= i < schemas.len() ==> {
                let objects = schemas[i].objects;
                &&& listed[i].get("name"@) == Some(JsonView::Text(schemas[i].name))
                &&& listed[i].get("objects"@) == Some(JsonView::Array(objects_in(listed[i])))
                &&& objects_in(listed[i]).len() == objects.len()
                &&& 0 <= k < objects.len() ==> {
                    let object = objects_in(listed[i])[k];
                    &&& object.get("schema"@) == Some(JsonView::Text(objects[k].schema))
                    &&& object.get("name"@) == Some(JsonView::Text(objects[k].name))
                    &&& object.get("kind"@) == Some(
                        JsonView::Text(
                            if objects[k].is_view {
                                "view"@
                            } else {
                                "table"@
                            },
                        ),
                    )
                    &&& object.get("columns"@) matches Some(JsonView::Array(columns))
                    &&& columns.len() == objects[k].columns.len()
                    &&& 0 <= c < columns.len() ==> {
                        let column = objects[k].columns[c];
                        &&& columns[c].get("name"@) == Some(JsonView::Text(column.name))
                        &&& columns[c].get("dataType"@) == Some(JsonView::Text(column.data_type))
                        &&& columns[c].get("nullable"@) == Some(JsonView::Bool(column.nullable))
                        &&& columns[c].get("ordinal"@) is Some
                        &&& is_integer(columns[c].get("ordinal"@)->0, column.ordinal as int)
                    }
                }
            }
        }),
{
    lemma_keys();
    a_member_is_found_under_its_key(metadata_json(schemas)->Object_0, 0);
    if 0 <= i < schemas.len() {
        lemma_schema_json(schemas[i]);
        let objects = schemas[i].objects;
        if 0 <= k < objects.len() {
            let members = object_json(objects[k])->Object_0;
            a_member_is_found_under_its_key(members, 0);
            a_member_is_found_under_its_key(members, 1);
            a_member_is_found_under_its_key(members, 2);
            a_member_is_found_under_its_key(members, 3);
            if 0 <= c < objects[k].columns.len() {
                let parts = column_json(objects[k].columns[c])->Object_0;
                a_member_is_found_under_its_key(parts, 0);
                a_member_is_found_under_its_key(parts, 1);
                a_member_is_found_under_its_key(parts, 2);
                a_member_is_found_under_its_key(parts, 3);
            }
        }
    }
}

/// A metadata call finds the connection of the call and asks for its tables and then for its
/// columns, leaving out those of the system.
pub proof fn metadata_asks_for_tables_and_columns(
    connector: ConnectorView,
    call: CallView,
    tables: Seq<TableRowView>,
    columns: Seq<ColumnRowView>,
)
    requires
        call.method == "metadata"@,
    ensures
        actions(
            call_spec(connector, call),
            seq![EventView::Done, EventView::Tables(tables), EventView::TableColumns(columns)],
        ) == seq![
            ActionView::FindConnection(call.connection_id),
            ActionView::ListTables(
                "select table_schema, table_name, table_type from information_schema.tables where table_schema not in ('information_schema', 'pg_catalog') order by table_schema, table_name"@,
            ),
            ActionView::ListColumns(
                "select table_schema, table_name, column_name, data_type, is_nullable, ordinal_position from information_schema.columns where table_schema not in ('information_schema', 'pg_catalog') order by table_schema, table_name, ordinal_position"@,
            ),
        ],
{
    lemma_method_names();
    reveal_with_fuel(actions, 4);
    let events = seq![
        EventView::Done,
        EventView::Tables(tables),
        EventView::TableColumns(columns),
    ];
    assert(events.drop_first()[0] == EventView::Tables(tables));
    assert(events.drop_first().drop_first()[0] == EventView::TableColumns(columns));
    assert(actions(call_spec(connector, call), events).len() == 3);
}

} // verus!
