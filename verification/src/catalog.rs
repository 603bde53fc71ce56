//! The catalog of a database: tables and columns, as listed, arranged by schema and object.

use vstd::prelude::*;
use vstd::string::*;

use crate::json::{
    integer, items_view, json_signed, lemma_json_view, members_view, named, Json, JsonView,
};
use crate::text::{
    ascii_lower, comes_before, lemma_before_total, lemma_before_transitive, same_text, text_before,
    to_lower,
};

verus! {

/// A row of the list of tables.
#[derive(Debug, PartialEq, Eq)]
pub struct TableRow {
    pub schema: String,
    pub name: String,
    pub table_type: String,
}

/// A row of the list of columns.
#[derive(Debug, PartialEq, Eq)]
pub struct ColumnRow {
    pub schema: String,
    pub table: String,
    pub name: String,
    pub data_type: String,
    pub is_nullable: String,
    pub ordinal: i32,
}

/// A column of an object.
#[derive(Debug, PartialEq, Eq)]
pub struct ColumnMeta {
    pub name: String,
    pub data_type: String,
    pub nullable: bool,
    pub ordinal: i32,
}

/// A table or a view, with its columns.
#[derive(Debug, PartialEq, Eq)]
pub struct ObjectMeta {
    pub schema: String,
    pub name: String,
    pub is_view: bool,
    pub columns: Vec<ColumnMeta>,
}

/// A schema, with its objects.
#[derive(Debug, PartialEq, Eq)]
pub struct SchemaMeta {
    pub name: String,
    pub objects: Vec<ObjectMeta>,
}

/// The content of a [`TableRow`].
pub ghost struct TableRowView {
    pub schema: Seq<char>,
    pub name: Seq<char>,
    pub table_type: Seq<char>,
}

/// The content of a [`ColumnRow`].
pub ghost struct ColumnRowView {
    pub schema: Seq<char>,
    pub table: Seq<char>,
    pub name: Seq<char>,
    pub data_type: Seq<char>,
    pub is_nullable: Seq<char>,
    pub ordinal: i32,
}

/// The content of a [`ColumnMeta`].
pub ghost struct ColumnView {
    pub name: Seq<char>,
    pub data_type: Seq<char>,
    pub nullable: bool,
    pub ordinal: i32,
}

/// The content of an [`ObjectMeta`].
#[verifier::ext_equal]
pub ghost struct ObjectView {
    pub schema: Seq<char>,
    pub name: Seq<char>,
    pub is_view: bool,
    pub columns: Seq<ColumnView>,
}

/// The content of a [`SchemaMeta`].
#[verifier::ext_equal]
pub ghost struct SchemaView {
    pub name: Seq<char>,
    pub objects: Seq<ObjectView>,
}

impl View for TableRow {
    type V = TableRowView;

    open spec fn view(&self) -> TableRowView {
        TableRowView { schema: self.schema@, name: self.name@, table_type: self.table_type@ }
    }
}

impl View for ColumnRow {
    type V = ColumnRowView;

    open spec fn view(&self) -> ColumnRowView {
        ColumnRowView {
            schema: self.schema@,
            table: self.table@,
            name: self.name@,
            data_type: self.data_type@,
            is_nullable: self.is_nullable@,
            ordinal: self.ordinal,
        }
    }
}

impl View for ColumnMeta {
    type V = ColumnView;

    open spec fn view(&self) -> ColumnView {
        ColumnView {
            name: self.name@,
            data_type: self.data_type@,
            nullable: self.nullable,
            ordinal: self.ordinal,
        }
    }
}

impl View for ObjectMeta {
    type V = ObjectView;

    open spec fn view(&self) -> ObjectView {
        ObjectView {
            schema: self.schema@,
            name: self.name@,
            is_view: self.is_view,
            columns: columns_view(self.columns@),
        }
    }
}

impl View for SchemaMeta {
    type V = SchemaView;

    open spec fn view(&self) -> SchemaView {
        SchemaView { name: self.name@, objects: objects_view(self.objects@) }
    }
}

/// Columns by their content.
pub open spec fn columns_view(columns: Seq<ColumnMeta>) -> Seq<ColumnView> {
    columns.map_values(|c: ColumnMeta| c@)
}

/// Objects by their content.
pub open spec fn objects_view(objects: Seq<ObjectMeta>) -> Seq<ObjectView> {
    objects.map_values(|o: ObjectMeta| o@)
}

/// Schemas by their content.
pub open spec fn schemas_view(schemas: Seq<SchemaMeta>) -> Seq<SchemaView> {
    schemas.map_values(|s: SchemaMeta| s@)
}

/// Table rows by their content.
pub open spec fn table_rows_view(rows: Seq<TableRow>) -> Seq<TableRowView> {
    rows.map_values(|r: TableRow| r@)
}

/// Column rows by their content.
pub open spec fn column_rows_view(rows: Seq<ColumnRow>) -> Seq<ColumnRowView> {
    rows.map_values(|r: ColumnRow| r@)
}

/// What tells one object from another: its schema and its name.
pub type Key = (Seq<char>, Seq<char>);

impl TableRowView {
    pub open spec fn key(self) -> Key {
        (self.schema, self.name)
    }

    /// Whether the row lists a view: its type is `VIEW`, in any case.
    pub open spec fn is_view(self) -> bool {
        ascii_lower(self.table_type) == "view"@
    }
}

impl ColumnRowView {
    /// The object that the column belongs to.
    pub open spec fn key(self) -> Key {
        (self.schema, self.table)
    }

    /// The column that the row lists; it is nullable where the row says `YES`, in any case.
    pub open spec fn column(self) -> ColumnView {
        ColumnView {
            name: self.name,
            data_type: self.data_type,
            nullable: ascii_lower(self.is_nullable) == "yes"@,
            ordinal: self.ordinal,
        }
    }
}

impl ObjectView {
    pub open spec fn key(self) -> Key {
        (self.schema, self.name)
    }
}

/// The order of objects: by schema, and within a schema by name.
pub open spec fn key_before(a: Key, b: Key) -> bool {
    text_before(a.0, b.0) || (a.0 == b.0 && text_before(a.1, b.1))
}

/// Whether a row lists the object.
pub open spec fn is_listed(tables: Seq<TableRowView>, key: Key) -> bool {
    exists|i: int| 0 <= i < tables.len() && (#[trigger] tables[i]).key() == key
}

/// Whether the last row that lists the object lists it as a view.
pub open spec fn listed_as_view(tables: Seq<TableRowView>, key: Key) -> bool
    decreases tables.len(),
{
    if tables.len() == 0 {
        false
    } else if tables.last().key() == key {
        tables.last().is_view()
    } else {
        listed_as_view(tables.drop_last(), key)
    }
}

/// The columns that the rows give the object, in the order of the rows.
pub open spec fn columns_of(rows: Seq<ColumnRowView>, key: Key) -> Seq<ColumnView>
    decreases rows.len(),
{
    if rows.len() == 0 {
        seq![]
    } else if rows.last().key() == key {
        columns_of(rows.drop_last(), key).push(rows.last().column())
    } else {
        columns_of(rows.drop_last(), key)
    }
}

/// The object with the given key, as the rows describe it.
pub open spec fn object_of(
    tables: Seq<TableRowView>,
    columns: Seq<ColumnRowView>,
    key: Key,
) -> ObjectView {
    ObjectView {
        schema: key.0,
        name: key.1,
        is_view: listed_as_view(tables, key),
        columns: columns_of(columns, key),
    }
}

/// Objects in strictly ascending order; so none occurs twice.
pub open spec fn ascending(objects: Seq<ObjectView>) -> bool {
    forall|i: int, j: int|
        0 <= i < j < objects.len() ==> key_before(
            (#[trigger] objects[i]).key(),
            (#[trigger] objects[j]).key(),
        )
}

/// Whether one of the objects has the key.
pub open spec fn has_key(objects: Seq<ObjectView>, key: Key) -> bool {
    exists|i: int| 0 <= i < objects.len() && (#[trigger] objects[i]).key() == key
}

/// Whether `objects` is the catalog of the rows: in ascending order, exactly the objects that
/// the table rows list, each as the rows describe it. Columns of an object that is not listed
/// are left out.
pub open spec fn is_catalog(
    objects: Seq<ObjectView>,
    tables: Seq<TableRowView>,
    columns: Seq<ColumnRowView>,
) -> bool {
    &&& ascending(objects)
    &&& forall|key: Key| #[trigger] has_key(objects, key) <==> is_listed(tables, key)
    &&& forall|i: int|
        0 <= i < objects.len() ==> #[trigger] objects[i] == object_of(
            tables,
            columns,
            objects[i].key(),
        )
}

/// The catalog of the rows.
pub open spec fn catalog_of(
    tables: Seq<TableRowView>,
    columns: Seq<ColumnRowView>,
) -> Seq<ObjectView> {
    choose|objects: Seq<ObjectView>| is_catalog(objects, tables, columns)
}

/// Objects in ascending order, arranged by schema.
pub open spec fn grouped(objects: Seq<ObjectView>) -> Seq<SchemaView>
    decreases objects.len(),
{
    if objects.len() == 0 {
        seq![]
    } else {
        let before = grouped(objects.drop_last());
        let object = objects.last();
        if before.len() > 0 && before.last().name == object.schema {
            before.drop_last().push(
                SchemaView {
                    name: object.schema,
                    objects: before.last().objects.push(object),
                },
            )
        } else {
            before.push(SchemaView { name: object.schema, objects: seq![object] })
        }
    }
}

proof fn lemma_key_before_transitive(a: Key, b: Key, c: Key)
    requires
        key_before(a, b),
        key_before(b, c),
    ensures
        key_before(a, c),
{
    lemma_before_total(a.0, a.0);
    lemma_before_total(b.0, b.0);
    if text_before(a.0, b.0) && text_before(b.0, c.0) {
        lemma_before_transitive(a.0, b.0, c.0);
    }
    if a.0 == b.0 && b.0 == c.0 {
        lemma_before_transitive(a.1, b.1, c.1);
    }
}

proof fn lemma_key_before_total(a: Key, b: Key)
    ensures
        a == b || key_before(a, b) || key_before(b, a),
        !(key_before(a, b) && key_before(b, a)),
        !key_before(a, a),
{
    lemma_before_total(a.0, b.0);
    lemma_before_total(a.1, b.1);
    lemma_before_total(a.0, a.0);
    lemma_before_total(a.1, a.1);
}

/// The rows determine their catalog.
pub proof fn catalog_is_determined(
    a: Seq<ObjectView>,
    b: Seq<ObjectView>,
    tables: Seq<TableRowView>,
    columns: Seq<ColumnRowView>,
)
    requires
        is_catalog(a, tables, columns),
        is_catalog(b, tables, columns),
    ensures
        a == b,
{
    lemma_same_keys(a, b, a.len() as int);
    lemma_same_keys(b, a, b.len() as int);
    assert(a =~= b);
}

/// Two catalogs of the same rows agree up to any place.
proof fn lemma_same_keys(a: Seq<ObjectView>, b: Seq<ObjectView>, n: int)
    requires
        0 <= n <= a.len(),
        ascending(a),
        ascending(b),
        forall|key: Key| #[trigger] has_key(a, key) <==> has_key(b, key),
        forall|i: int, j: int|
            0 <= i < a.len() && 0 <= j < b.len() && (#[trigger] a[i]).key() == (#[trigger] b[j]).key()
                ==> a[i] == b[j],
    ensures
        n <= b.len(),
        forall|i: int| 0 <= i < n ==> #[trigger] a[i] == b[i],
    decreases n,
{
    if n > 0 {
        lemma_same_keys(a, b, n - 1);
        let k = n - 1;
        let key = a[k].key();
        assert(has_key(a, key));
        let m = choose|m: int| 0 <= m < b.len() && (#[trigger] b[m]).key() == key;
        lemma_key_before_total(key, key);
        if m < k {
            assert(a[m] == b[m]);
            assert(key_before(a[m].key(), a[k].key()));
        }
        if m > k {
            let other = b[k].key();
            assert(has_key(b, other));
            assert(has_key(a, other));
            let i = choose|i: int| 0 <= i < a.len() && (#[trigger] a[i]).key() == other;
            assert(key_before(b[k].key(), b[m].key()));
            lemma_key_before_total(other, key);
            if i < k {
                assert(a[i] == b[i]);
                assert(key_before(b[i].key(), b[k].key()));
                lemma_key_before_total(other, other);
            } else if i > k {
                assert(key_before(a[k].key(), a[i].key()));
            }
        }
    }
}

/// Whether one object comes before another.
fn comes_before_key(schema_a: &str, name_a: &str, schema_b: &str, name_b: &str) -> (r: bool)
    ensures
        r == key_before((schema_a@, name_a@), (schema_b@, name_b@)),
{
    comes_before(schema_a, schema_b) || (same_text(schema_a, schema_b) && comes_before(
        name_a,
        name_b,
    ))
}

/// The place of an object among objects in ascending order, and whether it is there.
fn locate(objects: &Vec<ObjectMeta>, schema: &str, name: &str) -> (r: (usize, bool))
    requires
        ascending(objects_view(objects@)),
    ensures
        r.0 <= objects.len(),
        forall|i: int|
            0 <= i < r.0 ==> key_before(
                (#[trigger] objects_view(objects@)[i]).key(),
                (schema@, name@),
            ),
        forall|i: int|
            r.0 <= i < objects.len() ==> !key_before(
                (#[trigger] objects_view(objects@)[i]).key(),
                (schema@, name@),
            ),
        r.1 <==> has_key(objects_view(objects@), (schema@, name@)),
        r.1 ==> r.0 < objects.len() && objects_view(objects@)[r.0 as int].key() == (schema@, name@),
{
    let ghost all = objects_view(objects@);
    let ghost key = (schema@, name@);
    let mut low: usize = 0;
    let mut high: usize = objects.len();
    while low < high
        invariant
            low <= high <= objects.len(),
            all == objects_view(objects@),
            key == (schema@, name@),
            ascending(all),
            forall|i: int| 0 <= i < low ==> key_before((#[trigger] all[i]).key(), key),
            forall|i: int| high <= i < all.len() ==> !key_before((#[trigger] all[i]).key(), key),
        decreases high - low,
    {
        let middle = low + (high - low) / 2;
        let object = &objects[middle];
        assert(all[middle as int].key() == (object.schema@, object.name@));
        if comes_before_key(&object.schema, &object.name, schema, name) {
            assert forall|i: int| 0 <= i < middle + 1 implies key_before(
                (#[trigger] all[i]).key(),
                key,
            ) by {
                if i < middle {
                    lemma_key_before_transitive(all[i].key(), all[middle as int].key(), key);
                }
            }
            low = middle + 1;
        } else {
            assert forall|i: int| middle <= i < all.len() implies !key_before(
                (#[trigger] all[i]).key(),
                key,
            ) by {
                if i > middle && key_before(all[i].key(), key) {
                    lemma_key_before_transitive(all[middle as int].key(), all[i].key(), key);
                }
            }
            high = middle;
        }
    }
    let found = low < objects.len() && same_text(&objects[low].schema, schema) && same_text(
        &objects[low].name,
        name,
    );
    proof {
        lemma_key_before_total(key, key);
        if low < objects.len() {
            assert(all[low as int].key() == (objects@[low as int].schema@, objects@[low as int].name@));
        }
        if has_key(all, key) && !found {
            let i = choose|i: int| 0 <= i < all.len() && (#[trigger] all[i]).key() == key;
            if i > low {
                assert(key_before(all[low as int].key(), all[i].key()));
            }
        }
    }
    (low, found)
}

/// Listing one more table keeps the catalog: the object is put at its place, or takes the place
/// of the one with the same key.
proof fn lemma_add_table(
    objects: Seq<ObjectView>,
    tables: Seq<TableRowView>,
    row: TableRowView,
    place: int,
    found: bool,
)
    requires
        is_catalog(objects, tables, seq![]),
        0 <= place <= objects.len(),
        forall|i: int|
            0 <= i < place ==> key_before((#[trigger] objects[i]).key(), row.key()),
        forall|i: int|
            place <= i < objects.len() ==> !key_before((#[trigger] objects[i]).key(), row.key()),
        found <==> has_key(objects, row.key()),
        found ==> place < objects.len() && objects[place].key() == row.key(),
    ensures
        ({
            let object = ObjectView {
                schema: row.schema,
                name: row.name,
                is_view: row.is_view(),
                columns: seq![],
            };
            is_catalog(
                if found {
                    objects.update(place, object)
                } else {
                    objects.insert(place, object)
                },
                tables.push(row),
                seq![],
            )
        }),
{
    let object = ObjectView {
        schema: row.schema,
        name: row.name,
        is_view: row.is_view(),
        columns: seq![],
    };
    let after = if found {
        objects.update(place, object)
    } else {
        objects.insert(place, object)
    };
    let rows = tables.push(row);
    assert(rows.drop_last() =~= tables);
    assert forall|i: int| 0 <= i < objects.len() && !found implies key_before(
        row.key(),
        #[trigger] objects[i].key(),
    ) || i < place by {
        if i >= place {
            lemma_key_before_total(objects[i].key(), row.key());
            assert(has_key(objects, objects[i].key()));
        }
    }
    assert(ascending(after)) by {
        assert forall|i: int, j: int| 0 <= i < j < after.len() implies key_before(
            (#[trigger] after[i]).key(),
            (#[trigger] after[j]).key(),
        ) by {
            if found {
                assert(after[i].key() == objects[i].key());
                assert(after[j].key() == objects[j].key());
            } else {
                let i0 = if i < place {
                    i
                } else {
                    i - 1
                };
                let j0 = if j < place {
                    j
                } else {
                    j - 1
                };
                if i == place {
                    assert(after[j] == objects[j0]);
                } else if j == place {
                    assert(after[i] == objects[i0]);
                } else {
                    assert(after[i] == objects[i0]);
                    assert(after[j] == objects[j0]);
                }
            }
        }
    }
    assert forall|key: Key| #[trigger] has_key(after, key) <==> is_listed(rows, key) by {
        if has_key(after, key) {
            let i = choose|i: int| 0 <= i < after.len() && (#[trigger] after[i]).key() == key;
            if key == row.key() {
                assert(rows[tables.len() as int].key() == key);
            } else {
                let i0 = if found || i < place {
                    i
                } else {
                    i - 1
                };
                assert(after[i] == objects[i0]);
                assert(has_key(objects, key));
                let k = choose|k: int| 0 <= k < tables.len() && (#[trigger] tables[k]).key() == key;
                assert(rows[k].key() == key);
            }
        }
        if is_listed(rows, key) {
            let k = choose|k: int| 0 <= k < rows.len() && (#[trigger] rows[k]).key() == key;
            if key == row.key() {
                assert(after[place].key() == key);
            } else {
                assert(tables[k].key() == key);
                assert(is_listed(tables, key));
                assert(has_key(objects, key));
                let i = choose|i: int|
                    0 <= i < objects.len() && (#[trigger] objects[i]).key() == key;
                let i1 = if found || i < place {
                    i
                } else {
                    i + 1
                };
                assert(after[i1].key() == key);
            }
        }
    }
    assert forall|i: int| 0 <= i < after.len() implies #[trigger] after[i] == object_of(
        rows,
        seq![],
        after[i].key(),
    ) by {
        if i != place {
            let i0 = if found || i < place {
                i
            } else {
                i - 1
            };
            assert(after[i] == objects[i0]);
            if objects[i0].key() == row.key() {
                assert(has_key(objects, row.key()));
                lemma_key_before_total(row.key(), row.key());
                if i0 < place {
                    assert(key_before(objects[i0].key(), row.key()));
                } else {
                    assert(key_before(objects[place].key(), objects[i0].key()));
                }
            }
        }
    }
}

/// Listing one more column keeps the catalog: it goes to its object, if that is listed.
proof fn lemma_add_column(
    objects: Seq<ObjectView>,
    tables: Seq<TableRowView>,
    columns: Seq<ColumnRowView>,
    row: ColumnRowView,
    place: int,
    found: bool,
)
    requires
        is_catalog(objects, tables, columns),
        found <==> has_key(objects, row.key()),
        found ==> 0 <= place < objects.len() && objects[place].key() == row.key(),
    ensures
        is_catalog(
            if found {
                objects.update(
                    place,
                    ObjectView {
                        columns: objects[place].columns.push(row.column()),
                        ..objects[place]
                    },
                )
            } else {
                objects
            },
            tables,
            columns.push(row),
        ),
{
    let after = if found {
        objects.update(
            place,
            ObjectView {
                columns: objects[place].columns.push(row.column()),
                ..objects[place]
            },
        )
    } else {
        objects
    };
    let rows = columns.push(row);
    assert(rows.drop_last() =~= columns);
    assert(forall|i: int| 0 <= i < after.len() ==> (#[trigger] after[i]).key() == objects[i].key());
    assert(ascending(after)) by {
        assert forall|i: int, j: int| 0 <= i < j < after.len() implies key_before(
            (#[trigger] after[i]).key(),
            (#[trigger] after[j]).key(),
        ) by {
            assert(key_before(objects[i].key(), objects[j].key()));
        }
    }
    assert forall|key: Key| #[trigger] has_key(after, key) <==> is_listed(tables, key) by {
        assert(has_key(objects, key) <==> is_listed(tables, key));
        if has_key(after, key) {
            let i = choose|i: int| 0 <= i < after.len() && (#[trigger] after[i]).key() == key;
            assert(objects[i].key() == key);
        }
        if has_key(objects, key) {
            let i = choose|i: int| 0 <= i < objects.len() && (#[trigger] objects[i]).key() == key;
            assert(after[i].key() == key);
        }
    }
    assert forall|i: int| 0 <= i < after.len() implies #[trigger] after[i] == object_of(
        tables,
        rows,
        after[i].key(),
    ) by {
        assert(objects[i] == object_of(tables, columns, objects[i].key()));
        if objects[i].key() == row.key() {
            assert(has_key(objects, row.key()));
            lemma_key_before_total(row.key(), row.key());
            if i < place {
                assert(key_before(objects[i].key(), objects[place].key()));
            } else if place < i {
                assert(key_before(objects[place].key(), objects[i].key()));
            }
        }
    }
}

/// The objects that the table rows list, in ascending order, without columns.
fn list_objects(tables: Vec<TableRow>) -> (r: Vec<ObjectMeta>)
    ensures
        is_catalog(objects_view(r@), table_rows_view(tables@), seq![]),
{
    let ghost rows = table_rows_view(tables@);
    let mut objects: Vec<ObjectMeta> = Vec::new();
    for row in it: tables.into_iter()
        invariant
            it.seq() == tables@,
            rows == table_rows_view(tables@),
            is_catalog(objects_view(objects@), rows.take(it.index()), seq![]),
    {
        let ghost before = objects_view(objects@);
        let ghost listed = rows.take(it.index());
        let (place, found) = locate(&objects, &row.schema, &row.name);
        proof {
            lemma_add_table(before, listed, row@, place as int, found);
            assert(listed.push(row@) =~= rows.take(it.index() + 1));
        }
        let is_view = same_text(&to_lower(&row.table_type), "view");
        let object = ObjectMeta {
            schema: row.schema,
            name: row.name,
            is_view,
            columns: Vec::new(),
        };
        assert(object@.columns =~= seq![]);
        if found {
            objects.set(place, object);
            assert(objects_view(objects@) =~= before.update(place as int, object@));
        } else {
            objects.insert(place, object);
            assert(objects_view(objects@) =~= before.insert(place as int, object@));
        }
    }
    assert(rows.take(rows.len() as int) =~= rows);
    objects
}

/// The objects with the columns that the column rows give them.
fn fill_columns(
    objects: Vec<ObjectMeta>,
    columns: Vec<ColumnRow>,
    tables: Ghost<Seq<TableRowView>>,
) -> (r: Vec<ObjectMeta>)
    requires
        is_catalog(objects_view(objects@), tables@, seq![]),
    ensures
        is_catalog(objects_view(r@), tables@, column_rows_view(columns@)),
{
    let ghost rows = column_rows_view(columns@);
    let mut objects = objects;
    assert(rows.take(0) =~= seq![]);
    for row in it: columns.into_iter()
        invariant
            it.seq() == columns@,
            rows == column_rows_view(columns@),
            is_catalog(objects_view(objects@), tables@, rows.take(it.index())),
    {
        let ghost before = objects_view(objects@);
        let ghost listed = rows.take(it.index());
        let (place, found) = locate(&objects, &row.schema, &row.table);
        proof {
            lemma_add_column(before, tables@, listed, row@, place as int, found);
            assert(listed.push(row@) =~= rows.take(it.index() + 1));
        }
        if found {
            let nullable = same_text(&to_lower(&row.is_nullable), "yes");
            let column = ColumnMeta {
                name: row.name,
                data_type: row.data_type,
                nullable,
                ordinal: row.ordinal,
            };
            let ghost old_columns = objects@[place as int].columns@;
            objects[place].columns.push(column);
            proof {
                assert(columns_view(old_columns.push(column)) =~= columns_view(old_columns).push(
                    column@,
                ));
                let object = ObjectView {
                    columns: before[place as int].columns.push(column@),
                    ..before[place as int]
                };
                assert(objects_view(objects@) =~= before.update(place as int, object));
            }
        }
    }
    assert(rows.take(rows.len() as int) =~= rows);
    objects
}

/// Objects in ascending order, arranged by schema.
fn group_by_schema(objects: Vec<ObjectMeta>) -> (r: Vec<SchemaMeta>)
    ensures
        schemas_view(r@) == grouped(objects_view(objects@)),
{
    let ghost all = objects_view(objects@);
    let mut schemas: Vec<SchemaMeta> = Vec::new();
    assert(schemas_view(schemas@) =~= grouped(all.take(0)));
    for object in it: objects.into_iter()
        invariant
            it.seq() == objects@,
            all == objects_view(objects@),
            schemas_view(schemas@) == grouped(all.take(it.index())),
    {
        let ghost before = schemas_view(schemas@);
        let ghost content = object@;
        proof {
            assert(all.take(it.index() + 1).drop_last() =~= all.take(it.index()));
            assert(all.take(it.index() + 1).last() == content);
        }
        let n = schemas.len();
        if n > 0 && same_text(&schemas[n - 1].name, &object.schema) {
            let ghost old_objects = schemas@[n - 1].objects@;
            schemas[n - 1].objects.push(object);
            proof {
                assert(objects_view(old_objects.push(object)) =~= objects_view(old_objects).push(
                    content,
                ));
                assert(schemas_view(schemas@) =~= before.drop_last().push(
                    SchemaView {
                        name: content.schema,
                        objects: before.last().objects.push(content),
                    },
                ));
            }
        } else {
            let name = object.schema.clone();
            let mut members: Vec<ObjectMeta> = Vec::new();
            members.push(object);
            let schema = SchemaMeta { name, objects: members };
            assert(schema@.objects =~= seq![content]);
            schemas.push(schema);
            assert(schemas_view(schemas@) =~= before.push(schema@));
        }
    }
    assert(all.take(all.len() as int) =~= all);
    schemas
}

/// The catalog of a database by schema, from the rows that list its tables and its columns.
pub fn load_metadata(tables: Vec<TableRow>, columns: Vec<ColumnRow>) -> (r: Vec<SchemaMeta>)
    ensures
        is_catalog(
            catalog_of(table_rows_view(tables@), column_rows_view(columns@)),
            table_rows_view(tables@),
            column_rows_view(columns@),
        ),
        schemas_view(r@) == grouped(
            catalog_of(table_rows_view(tables@), column_rows_view(columns@)),
        ),
{
    let ghost table_rows = table_rows_view(tables@);
    let ghost column_rows = column_rows_view(columns@);
    let bare = list_objects(tables);
    let objects = fill_columns(bare, columns, Ghost(table_rows));
    proof {
        catalog_is_determined(
            objects_view(objects@),
            catalog_of(table_rows, column_rows),
            table_rows,
            column_rows,
        );
    }
    group_by_schema(objects)
}

/// A column as JSON.
pub open spec fn column_json(column: ColumnView) -> JsonView {
    JsonView::Object(
        seq![
            ("name"@, JsonView::Text(column.name)),
            ("dataType"@, JsonView::Text(column.data_type)),
            ("nullable"@, JsonView::Bool(column.nullable)),
            ("ordinal"@, JsonView::Number(integer(column.ordinal as int))),
        ],
    )
}

/// An object as JSON.
pub open spec fn object_json(object: ObjectView) -> JsonView {
    JsonView::Object(
        seq![
            ("schema"@, JsonView::Text(object.schema)),
            ("name"@, JsonView::Text(object.name)),
            (
                "kind"@,
                JsonView::Text(
                    if object.is_view {
                        "view"@
                    } else {
                        "table"@
                    },
                ),
            ),
            (
                "columns"@,
                JsonView::Array(object.columns.map_values(|c: ColumnView| column_json(c))),
            ),
        ],
    )
}

/// A schema as JSON.
pub open spec fn schema_json(schema: SchemaView) -> JsonView {
    JsonView::Object(
        seq![
            ("name"@, JsonView::Text(schema.name)),
            (
                "objects"@,
                JsonView::Array(schema.objects.map_values(|o: ObjectView| object_json(o))),
            ),
        ],
    )
}

/// A catalog by schema as JSON.
pub open spec fn metadata_json(schemas: Seq<SchemaView>) -> JsonView {
    JsonView::Object(
        seq![
            ("schemas"@, JsonView::Array(schemas.map_values(|s: SchemaView| schema_json(s)))),
        ],
    )
}

impl ColumnMeta {
    /// The column as JSON.
    fn into_json(self) -> (r: Json)
        ensures
            r@ == column_json(self@),
    {
        broadcast use lemma_json_view;

        let members = vec![
            named("name", Json::Text(self.name)),
            named("dataType", Json::Text(self.data_type)),
            named("nullable", Json::Bool(self.nullable)),
            named("ordinal", json_signed(self.ordinal as i64)),
        ];
        assert(members_view(members@) =~= column_json(self@)->Object_0);
        Json::Object(members)
    }
}

impl ObjectMeta {
    /// The object as JSON.
    fn into_json(self) -> (r: Json)
        ensures
            r@ == object_json(self@),
    {
        broadcast use lemma_json_view;

        let ghost content = self@;
        let columns = self.columns;
        let mut items: Vec<Json> = Vec::new();
        for column in it: columns.into_iter()
            invariant
                it.seq() == columns@,
                content.columns == columns_view(columns@),
                items@.len() == it.index(),
                forall|k: int|
                    0 <= k < it.index() ==> (#[trigger] items@[k])@ == column_json(
                        content.columns[k],
                    ),
        {
            items.push(column.into_json());
        }
        assert(items_view(items@) =~= content.columns.map_values(|c: ColumnView| column_json(c)));
        let kind = if self.is_view {
            "view"
        } else {
            "table"
        };
        let members = vec![
            named("schema", Json::Text(self.schema)),
            named("name", Json::Text(self.name)),
            named("kind", Json::Text(kind.to_owned())),
            named("columns", Json::Array(items)),
        ];
        assert(members_view(members@) =~= object_json(content)->Object_0);
        Json::Object(members)
    }
}

impl SchemaMeta {
    /// The schema as JSON.
    fn into_json(self) -> (r: Json)
        ensures
            r@ == schema_json(self@),
    {
        broadcast use lemma_json_view;

        let ghost content = self@;
        let objects = self.objects;
        let mut items: Vec<Json> = Vec::new();
        for object in it: objects.into_iter()
            invariant
                it.seq() == objects@,
                content.objects == objects_view(objects@),
                items@.len() == it.index(),
                forall|k: int|
                    0 <= k < it.index() ==> (#[trigger] items@[k])@ == object_json(
                        content.objects[k],
                    ),
        {
            items.push(object.into_json());
        }
        assert(items_view(items@) =~= content.objects.map_values(|o: ObjectView| object_json(o)));
        let members = vec![
            named("name", Json::Text(self.name)),
            named("objects", Json::Array(items)),
        ];
        assert(members_view(members@) =~= schema_json(content)->Object_0);
        Json::Object(members)
    }
}

/// A catalog by schema as JSON.
pub fn metadata_to_json(schemas: Vec<SchemaMeta>) -> (r: Json)
    ensures
        r@ == metadata_json(schemas_view(schemas@)),
{
    broadcast use lemma_json_view;

    let ghost content = schemas_view(schemas@);
    let mut items: Vec<Json> = Vec::new();
    for schema in it: schemas.into_iter()
        invariant
            it.seq() == schemas@,
            content == schemas_view(schemas@),
            items@.len() == it.index(),
            forall|k: int|
                0 <= k < it.index() ==> (#[trigger] items@[k])@ == schema_json(content[k]),
    {
        items.push(schema.into_json());
    }
    assert(items_view(items@) =~= content.map_values(|s: SchemaView| schema_json(s)));
    let members = vec![named("schemas", Json::Array(items))];
    assert(members_view(members@) =~= metadata_json(content)->Object_0);
    Json::Object(members)
}

/// The place of a key among objects in ascending order: those before it have smaller keys, those
/// from it on have not, and an object with the key stands there.
proof fn lemma_place(objects: Seq<ObjectView>, key: Key) -> (place: int)
    requires
        ascending(objects),
    ensures
        0 <= place <= objects.len(),
        forall|i: int| 0 <= i < place ==> key_before((#[trigger] objects[i]).key(), key),
        forall|i: int|
            place <= i < objects.len() ==> !key_before((#[trigger] objects[i]).key(), key),
        has_key(objects, key) ==> place < objects.len() && objects[place].key() == key,
    decreases objects.len(),
{
    lemma_key_before_total(key, key);
    if objects.len() == 0 {
        0
    } else if key_before(objects.last().key(), key) {
        assert forall|i: int| 0 <= i < objects.len() implies key_before(
            (#[trigger] objects[i]).key(),
            key,
        ) by {
            if i < objects.len() - 1 {
                lemma_key_before_transitive(objects[i].key(), objects.last().key(), key);
            }
        }
        objects.len() as int
    } else {
        let front = objects.drop_last();
        assert(ascending(front));
        let place = lemma_place(front, key);
        assert forall|i: int| 0 <= i < place implies key_before(
            (#[trigger] objects[i]).key(),
            key,
        ) by {
            assert(front[i] == objects[i]);
        }
        assert forall|i: int| place <= i < objects.len() implies !key_before(
            (#[trigger] objects[i]).key(),
            key,
        ) by {
            if i < front.len() {
                assert(front[i] == objects[i]);
            }
        }
        if has_key(objects, key) {
            let m = choose|m: int| 0 <= m < objects.len() && (#[trigger] objects[m]).key() == key;
            if m < front.len() {
                assert(front[m].key() == key);
            } else if place < front.len() {
                assert(key_before(objects[place].key(), objects[m].key()));
            }
        }
        place
    }
}

proof fn lemma_tables_have_a_catalog(tables: Seq<TableRowView>)
    ensures
        exists|objects: Seq<ObjectView>| is_catalog(objects, tables, seq![]),
    decreases tables.len(),
{
    if tables.len() == 0 {
        let nothing: Seq<ObjectView> = seq![];
        assert(is_catalog(nothing, tables, seq![]));
    } else {
        let front = tables.drop_last();
        let row = tables.last();
        lemma_tables_have_a_catalog(front);
        let before = choose|objects: Seq<ObjectView>| is_catalog(objects, front, seq![]);
        let place = lemma_place(before, row.key());
        lemma_add_table(before, front, row, place, has_key(before, row.key()));
        assert(front.push(row) =~= tables);
    }
}

/// All rows have a catalog: whatever tables and columns are listed, in whatever order and however
/// often, their catalog is in ascending order, and holds exactly the tables that are listed, each
/// once and as the rows describe it.
pub proof fn rows_have_a_catalog(tables: Seq<TableRowView>, columns: Seq<ColumnRowView>)
    ensures
        is_catalog(catalog_of(tables, columns), tables, columns),
    decreases columns.len(),
{
    if columns.len() == 0 {
        lemma_tables_have_a_catalog(tables);
        assert(columns =~= seq![]);
    } else {
        let front = columns.drop_last();
        let row = columns.last();
        rows_have_a_catalog(tables, front);
        let before = catalog_of(tables, front);
        let place = lemma_place(before, row.key());
        lemma_add_column(before, tables, front, row, place, has_key(before, row.key()));
        assert(front.push(row) =~= columns);
    }
}

/// The objects of the schemas, one schema after the other.
pub open spec fn flattened(schemas: Seq<SchemaView>) -> Seq<ObjectView>
    decreases schemas.len(),
{
    if schemas.len() == 0 {
        seq![]
    } else {
        flattened(schemas.drop_last()) + schemas.last().objects
    }
}

/// A catalog arranged by schema holds each of its objects once, in the same order, under the
/// schema of its own name; the schemas are in strictly ascending order and none is empty.
pub proof fn schemas_hold_the_catalog(objects: Seq<ObjectView>)
    requires
        ascending(objects),
    ensures
        flattened(grouped(objects)) == objects,
        forall|i: int, j: int|
            0 <= i < j < grouped(objects).len() ==> text_before(
                (#[trigger] grouped(objects)[i]).name,
                (#[trigger] grouped(objects)[j]).name,
            ),
        forall|i: int|
            0 <= i < grouped(objects).len() ==> (#[trigger] grouped(objects)[i]).objects.len() > 0,
        forall|i: int, k: int|
            0 <= i < grouped(objects).len() && 0 <= k < grouped(objects)[i].objects.len()
                ==> (#[trigger] grouped(objects)[i].objects[k]).schema == grouped(objects)[i].name,
    decreases objects.len(),
{
    if objects.len() > 0 {
        let front = objects.drop_last();
        let object = objects.last();
        assert(ascending(front));
        schemas_hold_the_catalog(front);
        let before = grouped(front);
        let after = grouped(objects);
        assert(objects =~= front.push(object));
        if front.len() > 0 {
            lemma_last_schema(front);
            assert(key_before(front.last().key(), object.key())) by {
                assert(front.last() == objects[front.len() - 1]);
            }
        }
        if before.len() > 0 && before.last().name == object.schema {
            assert(after.drop_last() =~= before.drop_last());
            assert(flattened(after) =~= flattened(before).push(object));
        } else {
            assert(after.drop_last() =~= before);
            assert(flattened(after) =~= flattened(before).push(object));
            assert forall|i: int| 0 <= i < before.len() implies text_before(
                (#[trigger] before[i]).name,
                object.schema,
            ) by {
                if i < before.len() - 1 {
                    lemma_before_transitive(before[i].name, before.last().name, object.schema);
                }
            }
        }
    }
}

/// The last schema of a catalog is that of its last object.
proof fn lemma_last_schema(objects: Seq<ObjectView>)
    requires
        objects.len() > 0,
    ensures
        grouped(objects).len() > 0,
        grouped(objects).last().name == objects.last().schema,
{
}

proof fn lemma_flattened_has(schemas: Seq<SchemaView>, key: Key)
    ensures
        has_key(flattened(schemas), key) <==> exists|i: int, k: int|
            0 <= i < schemas.len() && 0 <= k < schemas[i].objects.len() && (
            #[trigger] schemas[i].objects[k]).key() == key,
    decreases schemas.len(),
{
    if schemas.len() > 0 {
        let front = schemas.drop_last();
        let last = schemas.last().objects;
        let all = flattened(schemas);
        let n = flattened(front).len() as int;
        lemma_flattened_has(front, key);
        if has_key(all, key) {
            let m = choose|m: int| 0 <= m < all.len() && (#[trigger] all[m]).key() == key;
            if m < n {
                assert(flattened(front)[m].key() == key);
                assert(has_key(flattened(front), key));
                let (i, k) = choose|i: int, k: int|
                    0 <= i < front.len() && 0 <= k < front[i].objects.len() && (
                    #[trigger] front[i].objects[k]).key() == key;
                assert(schemas[i].objects[k].key() == key);
            } else {
                assert(schemas[schemas.len() - 1].objects[m - n].key() == key);
            }
        }
        if exists|i: int, k: int|
            0 <= i < schemas.len() && 0 <= k < schemas[i].objects.len() && (
            #[trigger] schemas[i].objects[k]).key() == key {
            let (i, k) = choose|i: int, k: int|
                0 <= i < schemas.len() && 0 <= k < schemas[i].objects.len() && (
                #[trigger] schemas[i].objects[k]).key() == key;
            if i < front.len() {
                assert(front[i].objects[k].key() == key);
                assert(has_key(flattened(front), key));
                let m = choose|m: int|
                    0 <= m < n && (#[trigger] flattened(front)[m]).key() == key;
                assert(all[m].key() == key);
            } else {
                assert(all[n + k].key() == key);
            }
        }
    }
}

/// Every table that is listed, and nothing else, is found in the catalog by schema, under the
/// schema of its name.
pub proof fn every_table_is_under_its_schema(
    objects: Seq<ObjectView>,
    tables: Seq<TableRowView>,
    columns: Seq<ColumnRowView>,
    key: Key,
)
    requires
        is_catalog(objects, tables, columns),
    ensures
        is_listed(tables, key) <==> exists|i: int, k: int|
            {
                &&& 0 <= i < grouped(objects).len()
                &&& 0 <= k < grouped(objects)[i].objects.len()
                &&& #[trigger] grouped(objects)[i].objects[k] == object_of(tables, columns, key)
                &&& grouped(objects)[i].name == key.0
            },
{
    let schemas = grouped(objects);
    schemas_hold_the_catalog(objects);
    lemma_flattened_has(schemas, key);
    assert(has_key(objects, key) <==> is_listed(tables, key));
    if is_listed(tables, key) {
        let (i, k) = choose|i: int, k: int|
            0 <= i < schemas.len() && 0 <= k < schemas[i].objects.len() && (
            #[trigger] schemas[i].objects[k]).key() == key;
        let object = schemas[i].objects[k];
        lemma_object_occurs(schemas, i, k);
        let m = choose|m: int| 0 <= m < objects.len() && #[trigger] objects[m] == object;
        assert(objects[m] == object_of(tables, columns, objects[m].key()));
        assert(schemas[i].objects[k].schema == schemas[i].name);
    }
    if exists|i: int, k: int|
        {
            &&& 0 <= i < schemas.len()
            &&& 0 <= k < schemas[i].objects.len()
            &&& #[trigger] schemas[i].objects[k] == object_of(tables, columns, key)
            &&& schemas[i].name == key.0
        } {
        let (i, k) = choose|i: int, k: int|
            {
                &&& 0 <= i < schemas.len()
                &&& 0 <= k < schemas[i].objects.len()
                &&& #[trigger] schemas[i].objects[k] == object_of(tables, columns, key)
                &&& schemas[i].name == key.0
            };
        assert(schemas[i].objects[k].key() == key);
    }
}

/// An object of a schema is among the objects of all schemas.
proof fn lemma_object_occurs(schemas: Seq<SchemaView>, i: int, k: int)
    requires
        0 <= i < schemas.len(),
        0 <= k < schemas[i].objects.len(),
    ensures
        exists|m: int|
            0 <= m < flattened(schemas).len() && #[trigger] flattened(schemas)[m]
                == schemas[i].objects[k],
    decreases schemas.len(),
{
    let front = schemas.drop_last();
    let n = flattened(front).len() as int;
    if i < front.len() {
        lemma_object_occurs(front, i, k);
        let m = choose|m: int|
            0 <= m < n && #[trigger] flattened(front)[m] == front[i].objects[k];
        assert(flattened(schemas)[m] == schemas[i].objects[k]);
    } else {
        assert(flattened(schemas)[n + k] == schemas[i].objects[k]);
    }
}

} // verus!
