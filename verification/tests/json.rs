use open_cowork::json::{
    array2, field, object2, parse_json, parse_tool_input, stringify_value, Fields, Items, Json,
};

fn j(text: &str) -> Json {
    parse_json(text).unwrap()
}

#[test]
fn parse_reads_every_kind_of_value() {
    assert_eq!(j("null"), Json::Null);
    assert_eq!(j("true"), Json::Bool(true));
    assert_eq!(j("17"), Json::Unsigned(17));
    assert_eq!(j("-3"), Json::Signed(-3));
    assert_eq!(j("1.5"), Json::Real("1.5".to_string()));
    assert_eq!(j("\"a\\nb\""), Json::Str("a\nb".to_string()));
    assert_eq!(
        j("[1, \"x\"]"),
        Json::Array(vec![Json::Unsigned(1), Json::Str("x".to_string())])
    );
    assert_eq!(
        j("{\"b\": 1, \"a\": {\"c\": null}}"),
        Json::Object(vec![
            (
                "a".to_string(),
                Json::Object(vec![("c".to_string(), Json::Null)])
            ),
            ("b".to_string(), Json::Unsigned(1)),
        ])
    );
}

#[test]
fn parse_reports_what_is_wrong() {
    let error = parse_json("{not json").unwrap_err();
    assert!(!error.is_empty());
    assert!(parse_json("").is_err());
    assert!(parse_json("1 2").is_err());
}

#[test]
fn stringify_is_the_identity_on_strings() {
    assert_eq!(
        stringify_value(&Json::Str("plain \"text\"".to_string())),
        "plain \"text\""
    );
    assert_eq!(stringify_value(&Json::Str(String::new())), "");
    assert_eq!(stringify_value(&Json::string("{\"a\":1}")), "{\"a\":1}");
}

#[test]
fn stringify_prints_compact_json_for_other_values() {
    assert_eq!(stringify_value(&Json::Null), "null");
    assert_eq!(stringify_value(&Json::Bool(false)), "false");
    assert_eq!(stringify_value(&Json::Unsigned(8000)), "8000");
    assert_eq!(stringify_value(&Json::Signed(-1)), "-1");
    assert_eq!(stringify_value(&Json::Real("2.25".to_string())), "2.25");
    assert_eq!(
        stringify_value(&array2(Json::string("a"), Json::Null)),
        "[\"a\",null]"
    );
    assert_eq!(
        stringify_value(&object2(
            "file_path",
            Json::string("a.txt"),
            "n",
            Json::Unsigned(2)
        )),
        "{\"file_path\":\"a.txt\",\"n\":2}"
    );
}

#[test]
fn parsing_what_stringify_printed_gives_the_value_back() {
    let values = vec![
        Json::Null,
        Json::Bool(true),
        Json::Unsigned(0),
        Json::Unsigned(u64::MAX),
        Json::Signed(i64::MIN),
        Json::Real("0.1".to_string()),
        j("1e100"),
        j("-0.0"),
        Json::Array(vec![]),
        Json::Object(vec![]),
        j("[1,[2,[3,{\"k\":\"v\"}]]]"),
        j("{\"a\":{\"b\":[true,false,null]},\"z\":\"\\u00e9\\n\"}"),
    ];
    for value in values {
        assert_eq!(j(&stringify_value(&value)), value);
    }
}

#[test]
fn numbers_are_printed_as_the_parser_writes_them() {
    assert_eq!(j("1e100"), Json::Real("1e+100".to_string()));
    assert_eq!(stringify_value(&Json::Real("1e100".to_string())), "1e+100");
    assert_eq!(stringify_value(&Json::Real("1.50".to_string())), "1.5");
    assert_eq!(stringify_value(&Json::Signed(5)), "5");
    assert_eq!(j("5"), Json::Unsigned(5));
}

#[test]
fn printed_objects_follow_their_last_fields() {
    let twice = Json::Object(vec![
        field("k", Json::Unsigned(1)),
        field("k", Json::Unsigned(2)),
    ]);
    assert_eq!(twice.get("k"), Some(&Json::Unsigned(2)));
    assert_eq!(stringify_value(&twice), "{\"k\":2}");
}

#[test]
fn numbers_that_are_no_numbers_print_as_null() {
    assert_eq!(stringify_value(&Json::Real("abc".to_string())), "null");
    assert_eq!(
        stringify_value(&Json::Array(vec![Json::Real("[1]".to_string())])),
        "[null]"
    );
}

#[test]
fn get_finds_members_of_objects_only() {
    let v = j("{\"a\": 1, \"b\": \"x\"}");
    assert_eq!(v.get("a"), Some(&Json::Unsigned(1)));
    assert_eq!(v.get("c"), None);
    assert_eq!(v.str_at("b"), Some("x"));
    assert_eq!(v.str_at("a"), None);
    assert_eq!(j("[1]").get("0"), None);
    assert_eq!(Json::Null.get("a"), None);
}

#[test]
fn child_steps_into_objects_and_arrays() {
    let v = j("{\"list\": [10, 20, 30], \"0\": \"zero\"}");
    assert_eq!(v.child("0"), Some(&Json::Str("zero".to_string())));
    let list = v.child("list").unwrap();
    assert_eq!(list.child("0"), Some(&Json::Unsigned(10)));
    assert_eq!(list.child("2"), Some(&Json::Unsigned(30)));
    assert_eq!(list.child("3"), None);
    assert_eq!(list.child("+1"), None);
    assert_eq!(list.child("01"), None);
    assert_eq!(list.child("-1"), None);
    assert_eq!(list.child(""), None);
    assert_eq!(list.child("x"), None);
    assert_eq!(Json::Unsigned(1).child("0"), None);
}

#[test]
fn paths_take_one_step_after_the_other() {
    let v = j("{\"choices\": [{\"delta\": {\"content\": \"hi\"}}]}");
    assert_eq!(
        v.path(&["choices", "0", "delta", "content"])
            .and_then(Json::as_str),
        Some("hi")
    );
    assert_eq!(
        v.child3("choices", "0", "delta"),
        v.path(&["choices", "0", "delta"])
    );
    assert_eq!(v.child2("choices", "1"), None);
    assert_eq!(v.path(&[]), Some(&v));
    assert_eq!(v.path(&["choices", "0", "nothing", "content"]), None);
}

#[test]
fn numbers_are_unsigned_where_they_can_be() {
    assert_eq!(Json::Unsigned(3).as_u64(), Some(3));
    assert_eq!(Json::Signed(3).as_u64(), Some(3));
    assert_eq!(Json::Signed(-3).as_u64(), None);
    assert_eq!(Json::Real("3.0".to_string()).as_u64(), None);
    assert_eq!(Json::Str("3".to_string()).as_u64(), None);
    assert_eq!(j("3.0").as_u64(), None);
    assert_eq!(j("18446744073709551615").as_u64(), Some(u64::MAX));
}

#[test]
fn arrays_and_strings_hand_out_their_contents() {
    assert_eq!(j("[1,2]").as_array().map(|a| a.len()), Some(2));
    assert_eq!(j("{}").as_array(), None);
    assert_eq!(j("\"s\"").as_str(), Some("s"));
    assert_eq!(j("1").as_str(), None);
}

#[test]
fn builders_keep_the_order_of_their_fields_and_items() {
    let built = Fields::new()
        .with("b", Json::Null)
        .with("a", Json::Bool(true))
        .build();
    assert_eq!(
        built,
        Json::Object(vec![
            ("b".to_string(), Json::Null),
            ("a".to_string(), Json::Bool(true))
        ])
    );
    let items = Items::new()
        .with(Json::Unsigned(2))
        .with(Json::Unsigned(1))
        .build();
    assert_eq!(
        items,
        Json::Array(vec![Json::Unsigned(2), Json::Unsigned(1)])
    );
    assert_eq!(Json::empty_string(), Json::Str(String::new()));
}

#[test]
fn clones_are_equal_to_their_originals() {
    let v = j("{\"a\":[1,{\"b\":[null,\"x\",-1,2.5]}]}");
    assert_eq!(v.clone(), v);
}

#[test]
fn tool_input_is_read_as_json_where_it_is_json() {
    assert_eq!(parse_tool_input(""), Json::Null);
    assert_eq!(parse_tool_input("  \n"), Json::Null);
    assert_eq!(
        parse_tool_input("{\"file_path\":\"a.txt\"}"),
        Json::Object(vec![(
            "file_path".to_string(),
            Json::Str("a.txt".to_string())
        )])
    );
    assert_eq!(
        parse_tool_input("{\"file_path\":"),
        Json::Str("{\"file_path\":".to_string())
    );
    assert_eq!(parse_tool_input(" 7 "), Json::Unsigned(7));
}
