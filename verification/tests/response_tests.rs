use mysql_udf_http::request::HttpError;
use mysql_udf_http::json::json_quote;
use mysql_udf_http::response::format_result;

#[test]
fn result_with_json_body() {
    let r = format_result(Some(b"application/json".to_vec()), 200, "{}", "{\"b\": [1, 2], \"a\": true}").unwrap();
    assert_eq!(
        r,
        "{\"content_type\":\"application/json\",\"headers\":\"{}\",\"result\":{\"a\":true,\"b\":[1,2]},\"status\":200}"
    );
    let v: serde_json::Value = serde_json::from_str(&r).unwrap();
    assert_eq!(v["status"], 200);
}

#[test]
fn result_with_text_body_is_null() {
    let r = format_result(None, 404, "{\"server\": \"x\"}", "<html>not found</html>").unwrap();
    assert_eq!(r, "{\"headers\":\"{\\\"server\\\": \\\"x\\\"}\",\"result\":null,\"status\":404}");
}

#[test]
fn header_text_control_characters_are_escaped() {
    let r = format_result(None, 101, "a\nb\tc\u{1}\\", "").unwrap();
    assert_eq!(r, "{\"headers\":\"a\\nb\\tc\\u0001\\\\\",\"result\":null,\"status\":101}");
}

#[test]
fn content_type_must_be_utf8() {
    assert_eq!(format_result(Some(vec![0xff, 0x00]), 200, "", "1"), Err(HttpError::ContentTypeNotUtf8));
}

#[test]
fn result_is_valid_json_object() {
    let r = format_result(Some("text/plain; charset=\"utf-8\"".as_bytes().to_vec()), 500, "h", "42").unwrap();
    let v: serde_json::Value = serde_json::from_str(&r).unwrap();
    assert_eq!(v["content_type"], "text/plain; charset=\"utf-8\"");
    assert_eq!(v["headers"], "h");
    assert_eq!(v["result"], 42);
    assert_eq!(v["status"], 500);
}

#[test]
fn quoting_matches_serde_json() {
    for text in ["", "plain", "quote\" and \\ slash /", "\u{0}\u{8}\u{b}\u{c}\u{1f}\u{7f}", "é漢字 🎉", "tab\tcr\rlf\n"] {
        assert_eq!(json_quote(text), serde_json::to_string(text).unwrap());
    }
}
