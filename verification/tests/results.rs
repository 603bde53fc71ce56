use motherduck_connector::catalog::{
    load_metadata, metadata_to_json, ColumnMeta, ColumnRow, ObjectMeta, SchemaMeta, TableRow,
};
use motherduck_connector::cells::{cell_to_json, row_to_json, Cell};
use motherduck_connector::json::{Json, JsonNumber};
use motherduck_connector::registry::Registry;

fn unsigned(n: u64) -> Json {
    Json::Number(JsonNumber::Unsigned(n))
}

fn negative(n: i64) -> Json {
    Json::Number(JsonNumber::Negative(n))
}

fn text(t: &str) -> Json {
    Json::Text(t.to_string())
}

#[test]
fn every_cell_has_its_json() {
    for (cell, expected) in [
        (Cell::Null, Json::Null),
        (Cell::Boolean(true), Json::Bool(true)),
        (Cell::TinyInt(-128), negative(-128)),
        (Cell::TinyInt(5), unsigned(5)),
        (Cell::SmallInt(-1), negative(-1)),
        (Cell::SmallInt(300), unsigned(300)),
        (Cell::Int(0), unsigned(0)),
        (Cell::Int(i32::MIN), negative(-2147483648)),
        (Cell::BigInt(i64::MIN), negative(i64::MIN)),
        (Cell::BigInt(i64::MAX), unsigned(9223372036854775807)),
        (Cell::UTinyInt(255), unsigned(255)),
        (Cell::USmallInt(65535), unsigned(65535)),
        (Cell::UInt(4294967295), unsigned(4294967295)),
        (Cell::UBigInt(u64::MAX), unsigned(u64::MAX)),
        (Cell::Text("one".to_string()), text("one")),
        (Cell::Blob(vec![0xde, 0xad, 0x00]), text("\\xdead00")),
        (Cell::Blob(vec![]), text("\\x")),
        (Cell::Other("Date32(7)".to_string()), text("Date32(7)")),
        (Cell::Unreadable, Json::Null),
    ] {
        assert_eq!(cell_to_json(cell), expected);
    }
}

#[test]
fn only_a_finite_double_is_a_number() {
    for value in [0.0, -0.0, 1.5, -2.25e300, f64::MIN_POSITIVE, f64::MAX, f64::MIN, 5e-324] {
        assert_eq!(
            cell_to_json(Cell::Double(value.to_bits())),
            Json::Number(JsonNumber::Double(value.to_bits()))
        );
    }
    for value in [f64::INFINITY, f64::NEG_INFINITY, f64::NAN, -f64::NAN] {
        assert_eq!(cell_to_json(Cell::Double(value.to_bits())), Json::Null);
    }
}

#[test]
fn a_row_is_an_array() {
    assert_eq!(
        row_to_json(vec![Cell::Int(1), Cell::Text("one".to_string())]),
        Json::Array(vec![unsigned(1), text("one")])
    );
    assert_eq!(row_to_json(vec![]), Json::Array(vec![]));
}

fn table(schema: &str, name: &str, table_type: &str) -> TableRow {
    TableRow {
        schema: schema.to_string(),
        name: name.to_string(),
        table_type: table_type.to_string(),
    }
}

fn column(schema: &str, table: &str, name: &str, is_nullable: &str, ordinal: i32) -> ColumnRow {
    ColumnRow {
        schema: schema.to_string(),
        table: table.to_string(),
        name: name.to_string(),
        data_type: "INTEGER".to_string(),
        is_nullable: is_nullable.to_string(),
        ordinal,
    }
}

fn column_meta(name: &str, nullable: bool, ordinal: i32) -> ColumnMeta {
    ColumnMeta {
        name: name.to_string(),
        data_type: "INTEGER".to_string(),
        nullable,
        ordinal,
    }
}

fn object(schema: &str, name: &str, is_view: bool, columns: Vec<ColumnMeta>) -> ObjectMeta {
    ObjectMeta {
        schema: schema.to_string(),
        name: name.to_string(),
        is_view,
        columns,
    }
}

#[test]
fn the_catalog_is_arranged_by_schema_and_name() {
    let catalog = load_metadata(
        vec![
            table("main", "b", "BASE TABLE"),
            table("aux", "z", "View"),
            table("main", "a", "VIEW"),
            table("main", "c", "LOCAL TEMPORARY"),
        ],
        vec![
            column("main", "b", "x", "YES", 1),
            column("aux", "z", "only", "no", 1),
            column("main", "gone", "dropped", "YES", 1),
            column("main", "b", "y", "yes", 2),
            column("aux", "b", "dropped too", "YES", 1),
        ],
    );
    assert_eq!(
        catalog,
        vec![
            SchemaMeta {
                name: "aux".to_string(),
                objects: vec![object("aux", "z", true, vec![column_meta("only", false, 1)])],
            },
            SchemaMeta {
                name: "main".to_string(),
                objects: vec![
                    object("main", "a", true, vec![]),
                    object(
                        "main",
                        "b",
                        false,
                        vec![column_meta("x", true, 1), column_meta("y", true, 2)],
                    ),
                    object("main", "c", false, vec![]),
                ],
            },
        ]
    );
}

#[test]
fn a_table_that_is_listed_twice_is_one_object() {
    let catalog = load_metadata(
        vec![table("main", "t", "BASE TABLE"), table("main", "t", "VIEW")],
        vec![column("main", "t", "x", "YES", 1)],
    );
    assert_eq!(
        catalog,
        vec![SchemaMeta {
            name: "main".to_string(),
            objects: vec![object("main", "t", true, vec![column_meta("x", true, 1)])],
        }]
    );
}

#[test]
fn an_empty_database_has_an_empty_catalog() {
    let catalog = load_metadata(vec![], vec![column("main", "t", "x", "YES", 1)]);
    assert_eq!(catalog, vec![]);
    assert_eq!(
        metadata_to_json(catalog),
        Json::parse(r#"{"schemas":[]}"#).unwrap()
    );
}

#[test]
fn the_catalog_has_its_json() {
    let json = metadata_to_json(load_metadata(
        vec![table("s", "t", "BASE TABLE")],
        vec![column("s", "t", "c", "YES", -1)],
    ));
    assert_eq!(
        json,
        Json::Object(vec![(
            "schemas".to_string(),
            Json::Array(vec![Json::Object(vec![
                ("name".to_string(), text("s")),
                (
                    "objects".to_string(),
                    Json::Array(vec![Json::Object(vec![
                        ("schema".to_string(), text("s")),
                        ("name".to_string(), text("t")),
                        ("kind".to_string(), text("table")),
                        (
                            "columns".to_string(),
                            Json::Array(vec![Json::Object(vec![
                                ("name".to_string(), text("c")),
                                ("dataType".to_string(), text("INTEGER")),
                                ("nullable".to_string(), Json::Bool(true)),
                                ("ordinal".to_string(), negative(-1)),
                            ])]),
                        ),
                    ])]),
                ),
            ])]),
        )])
    );
}

#[test]
fn the_registry_keeps_what_is_stored() {
    let mut registry: Registry<u32> = Registry::new();
    assert_eq!(registry.find("a"), None);
    registry.store("a".to_string(), 1);
    registry.store("b".to_string(), 2);
    registry.store("a".to_string(), 3);
    assert_eq!(registry.find("a"), Some(&3));
    assert_eq!(registry.find("b"), Some(&2));
    assert!(registry.remove("a"));
    assert!(!registry.remove("a"));
    assert_eq!(registry.find("a"), None);
    assert_eq!(registry.find("b"), Some(&2));
}
