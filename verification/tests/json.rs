use server::json::{json_bool, json_int, json_object, json_opt_str, json_str, json_str_array};

#[test]
fn string_literals_escape_quotes_backslashes_and_controls() {
    assert_eq!(json_str("plain"), "\"plain\"");
    assert_eq!(json_str("a\"b\\c"), "\"a\\\"b\\\\c\"");
    assert_eq!(json_str("line\nnext\ttab"), "\"line\\nnext\\ttab\"");
    assert_eq!(json_str("\u{1}"), "\"\\u0001\"");
    assert_eq!(json_str("한글"), "\"한글\"");
    assert_eq!(json_opt_str(None), "null");
}

#[test]
fn objects_and_arrays_frame_their_members_in_order() {
    let members = vec![
        ("name".to_string(), json_str("x\"y")),
        ("count".to_string(), json_int(-3)),
        ("ok".to_string(), json_bool(true)),
        ("tags".to_string(), json_str_array(&vec!["a".to_string(), "b".to_string()])),
    ];
    let text = json_object(&members);
    assert_eq!(text, "{\"name\":\"x\\\"y\",\"count\":-3,\"ok\":true,\"tags\":[\"a\",\"b\"]}");
    let v: serde_json::Value = serde_json::from_str(&text).unwrap();
    assert_eq!(v["name"], "x\"y");
}
