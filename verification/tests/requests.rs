use motherduck_connector::json::{Json, JsonNumber};
use motherduck_connector::target::{
    motherduck_database, motherduck_token, option_string, should_seed_sample, Target,
};

fn json(text: &str) -> Json {
    Json::parse(text).expect("a JSON document")
}

#[test]
fn a_document_is_read_with_all_its_parts() {
    assert_eq!(
        json(r#"{"a":[null,true,false,"t"],"b":{"c":18446744073709551615,"d":-7,"e":1.5}}"#),
        Json::Object(vec![
            (
                "a".to_string(),
                Json::Array(vec![
                    Json::Null,
                    Json::Bool(true),
                    Json::Bool(false),
                    Json::Text("t".to_string()),
                ]),
            ),
            (
                "b".to_string(),
                Json::Object(vec![
                    (
                        "c".to_string(),
                        Json::Number(JsonNumber::Unsigned(18446744073709551615)),
                    ),
                    ("d".to_string(), Json::Number(JsonNumber::Negative(-7))),
                    (
                        "e".to_string(),
                        Json::Number(JsonNumber::Double(1.5f64.to_bits())),
                    ),
                ]),
            ),
        ])
    );
}

#[test]
fn a_text_that_is_no_document_is_not_read() {
    assert_eq!(Json::parse(""), None);
    assert_eq!(Json::parse("{"), None);
    assert_eq!(Json::parse("{} x"), None);
}

#[test]
fn a_value_is_read_like_its_text() {
    let text = r#"{"profile":{"database":"md:x"},"n":[0,-1,2.25]}"#;
    let value: serde_json::Value = serde_json::from_str(text).unwrap();
    assert_eq!(Json::from_value(&value), json(text));
}

#[test]
fn the_later_member_counts() {
    let object = Json::Object(vec![
        ("a".to_string(), Json::Bool(true)),
        ("a".to_string(), Json::Bool(false)),
    ]);
    assert_eq!(object.get("a"), Some(&Json::Bool(false)));
    assert_eq!(json(r#"{"a":true,"a":false}"#).get("a"), Some(&Json::Bool(false)));
    assert_eq!(object.get("b"), None);
    assert_eq!(Json::Text("a".to_string()).get("a"), None);
    assert_eq!(Json::Null.as_str(), None);
    assert_eq!(Json::Null.as_bool(), None);
}

#[test]
fn an_option_is_found_in_every_container() {
    let fields = ["token", "password"];
    for request in [
        r#"{"token":" t "}"#,
        r#"{"profile":{"token":"t"}}"#,
        r#"{"options":{"token":"t"}}"#,
        r#"{"secrets":{"password":"t"}}"#,
        r#"{"profile":{"options":{"token":"t"}}}"#,
        r#"{"profile":{"secrets":{"password":"\tt"}}}"#,
    ] {
        assert_eq!(
            option_string(&json(request), &fields).as_deref(),
            Some("t"),
            "{}",
            request
        );
    }
    assert_eq!(
        option_string(&json(r#"{"profile":{"secrets":{"other":"t"}}}"#), &fields),
        None
    );
    assert_eq!(option_string(&json(r#"{"secrets":"t"}"#), &fields), None);
}

#[test]
fn the_earlier_container_and_then_the_earlier_field_wins() {
    let fields = ["token", "password"];
    assert_eq!(
        option_string(
            &json(r#"{"password":"outer","profile":{"token":"inner"}}"#),
            &fields
        )
        .as_deref(),
        Some("outer")
    );
    assert_eq!(
        option_string(&json(r#"{"password":"second","token":"first"}"#), &fields).as_deref(),
        Some("first")
    );
    assert_eq!(
        option_string(
            &json(r#"{"token":"  ","password":7,"options":{"password":"next"}}"#),
            &fields
        )
        .as_deref(),
        Some("next")
    );
}

#[test]
fn the_environment_is_the_last_resort_for_a_token() {
    let bare = json("{}");
    assert_eq!(motherduck_token(&bare, None), None);
    assert_eq!(motherduck_token(&bare, Some(" env \n")).as_deref(), Some("env"));
    assert_eq!(motherduck_token(&bare, Some("  ")), None);
    assert_eq!(
        motherduck_token(&json(r#"{"password":"own"}"#), Some("env")).as_deref(),
        Some("own")
    );
    assert_eq!(
        motherduck_token(&json(r#"{"password":" "}"#), Some("env")).as_deref(),
        Some("env")
    );
}

#[test]
fn every_spelling_of_a_target_is_understood() {
    for (raw, database) in [
        ("md:", Some("")),
        ("md:/x", Some("x")),
        ("mD:X", Some("X")),
        ("motherduck:", Some("")),
        ("motherduck://", Some("")),
        ("MOTHERDUCK://Tok@md/Name", Some("Name")),
        ("motherduck://tok@md/", Some("")),
        ("motherduck://tok@md/a@b", Some("a@b")),
        ("motherduck://tok@name", Some("name")),
        ("motherduck://tok@mdmd/x", Some("x")),
        ("md", None),
        ("motherduck", None),
        ("", None),
        (" md:x", None),
        ("\u{1d5c6}d:x", None),
    ] {
        assert_eq!(motherduck_database(raw).as_deref(), database, "{}", raw);
    }
}

#[test]
fn a_target_is_read_from_each_of_its_fields() {
    for field in ["database", "url", "connectionString", "dsn"] {
        let request = Json::Object(vec![(
            field.to_string(),
            Json::Text(" MD:Sales ".to_string()),
        )]);
        assert_eq!(
            Target::from_request(&request),
            Target::MotherDuck("Sales".to_string())
        );
    }
    assert_eq!(
        Target::from_request(&json(r#"{"database":"  "}"#)),
        Target::InMemory
    );
    let file = Target::from_request(&json(r#"{"url":" a b "}"#));
    assert_eq!(file, Target::LocalFile("a b".to_string()));
    assert_eq!(file.clone(), file);
    assert_eq!(Target::from_request(&Json::Null), Target::InMemory);
}

#[test]
fn the_sample_is_seeded_as_asked() {
    assert!(should_seed_sample(&json(r#"{"seedSample":true}"#), "x"));
    assert!(!should_seed_sample(&json(r#"{"seedSample":false}"#), "duckdb-memory"));
    assert!(should_seed_sample(&json(r#"{"profile":{"seedSample":true}}"#), "x"));
    assert!(!should_seed_sample(
        &json(r#"{"seedSample":false,"profile":{"seedSample":true}}"#),
        "x"
    ));
    assert!(!should_seed_sample(&json("{}"), "x"));
    assert!(should_seed_sample(&json("{}"), "duckdb-memory"));
    assert!(should_seed_sample(&json("{}"), "motherduck-memory"));
    assert!(!should_seed_sample(
        &json(r#"{"seedSample":"no","profile":{"seedSample":true}}"#),
        "x"
    ));
    assert!(should_seed_sample(&json(r#"{"seedSample":null}"#), "motherduck-memory"));
}
