use mysql_udf_http::request::{
    build_url, form_parts, header_name_valid, header_value_valid, method_valid, plan_request, text_starts_with,
    token_char, Body, FormPart, HttpError, MultipartFile, RequestBody, RequestPlan, HEADER_CAPACITY,
    REQUEST_TIMEOUT_SECS,
};

fn plan(method: &str, header: &str, body: Option<&str>) -> Result<RequestPlan, HttpError> {
    plan_request(
        "http://example.com/api",
        None,
        method.to_string(),
        header,
        body.map(|b| b.to_string()),
        None,
    )
}

#[test]
fn url_gets_query_string() {
    assert_eq!(build_url("http://h/p", &Some("a=1&b=2".to_string())), "http://h/p?a=1&b=2");
    assert_eq!(build_url("http://h/p", &Some(String::new())), "http://h/p");
    assert_eq!(build_url("http://h/p", &None), "http://h/p");
}

#[test]
fn starts_with_compares_characters() {
    assert!(text_starts_with("multipart/form-data; boundary=x", "multipart/form-data"));
    assert!(!text_starts_with("multipart/form", "multipart/form-data"));
    assert!(!text_starts_with("application/json", "multipart/form-data"));
    assert!(text_starts_with("é", ""));
}

#[test]
fn plain_get_has_no_headers_and_no_body() {
    let p = plan("GET", "", Some("ignored")).unwrap();
    assert_eq!(p.url, "http://example.com/api");
    assert_eq!(p.method, "GET");
    assert!(p.headers.is_none());
    assert!(p.proxy.is_none());
    assert_eq!(p.body, RequestBody::Empty);
}

#[test]
fn plan_keeps_query_and_proxy() {
    let p = plan_request(
        "http://h",
        Some("q=1".to_string()),
        "GET".to_string(),
        "",
        None,
        Some("http://proxy:3128".to_string()),
    )
    .unwrap();
    assert_eq!(p.url, "http://h?q=1");
    assert_eq!(p.proxy.as_deref(), Some("http://proxy:3128"));
    let p = plan_request("http://h", None, "GET".to_string(), "", None, Some(String::new())).unwrap();
    assert!(p.proxy.is_none());
}

#[test]
fn headers_are_lower_cased_and_kept() {
    let p = plan("POST", "{\"Content-Type\":\"application/json\",\"X-Token\":\"abc\"}", Some("{}")).unwrap();
    let h = p.headers.unwrap();
    assert_eq!(h.len(), 2);
    assert_eq!(h.get("content-type").unwrap(), "application/json");
    assert_eq!(h.get("x-token").unwrap(), "abc");
    assert_eq!(p.body, RequestBody::Text("{}".to_string()));
}

#[test]
fn non_string_header_value_is_empty() {
    let p = plan("GET", "{\"X-Count\":3}", None).unwrap();
    let h = p.headers.unwrap();
    assert_eq!(h.get("x-count").unwrap(), "");
}

#[test]
fn later_header_of_same_name_wins() {
    let p = plan("GET", "{\"X-A\":\"1\",\"x-a\":\"2\"}", None).unwrap();
    let h = p.headers.unwrap();
    assert_eq!(h.len(), 1);
    assert_eq!(h.get("x-a").unwrap(), "2");
}

#[test]
fn header_text_that_is_no_object_adds_nothing() {
    for header in ["not json", "[1,2]", "\"text\"", "null"] {
        let p = plan("GET", header, None).unwrap();
        assert!(p.headers.is_none());
    }
}

#[test]
fn multipart_announcement_makes_a_form() {
    let p = plan(
        "POST",
        "{\"Content-Type\":\"multipart/form-data; boundary=abc\"}",
        Some("{\"fileList\":[],\"parameterMap\":{}}"),
    )
    .unwrap();
    assert!(p.headers.is_none());
    assert_eq!(p.body, RequestBody::Multipart("{\"fileList\":[],\"parameterMap\":{}}".to_string()));
}

#[test]
fn multipart_announcement_on_get_sends_nothing() {
    let p = plan("GET", "{\"Content-Type\":\"multipart/form-data\"}", Some("x")).unwrap();
    assert_eq!(p.body, RequestBody::Empty);
}

#[test]
fn empty_body_is_no_body() {
    let p = plan("PUT", "", Some("")).unwrap();
    assert_eq!(p.body, RequestBody::Empty);
    let p = plan("PUT", "", None).unwrap();
    assert_eq!(p.body, RequestBody::Empty);
}

#[test]
fn invalid_header_name_fails() {
    assert_eq!(plan("GET", "{\"bad name\":\"x\"}", None).err(), Some(HttpError::InvalidHeaderName));
    assert_eq!(plan("GET", "{\"\":\"x\"}", None).err(), Some(HttpError::InvalidHeaderName));
}

#[test]
fn invalid_header_value_fails() {
    assert_eq!(plan("GET", "{\"x-a\":\"line\\nbreak\"}", None).err(), Some(HttpError::InvalidHeaderValue));
}

#[test]
fn header_errors_come_before_method_errors() {
    assert_eq!(plan("BAD METHOD", "{\"bad name\":\"x\"}", None).err(), Some(HttpError::InvalidHeaderName));
}

#[test]
fn invalid_method_fails() {
    assert_eq!(plan("GE T", "", None).err(), Some(HttpError::InvalidMethod));
    assert_eq!(plan("", "", None).err(), Some(HttpError::InvalidMethod));
}

#[test]
fn extension_method_is_accepted() {
    let p = plan("PURGE", "", Some("b")).unwrap();
    assert_eq!(p.method, "PURGE");
    assert_eq!(p.body, RequestBody::Text("b".to_string()));
}

#[test]
fn timeout_is_five_seconds() {
    assert_eq!(REQUEST_TIMEOUT_SECS, 5);
}

fn file(key: &str, value: &str, name: &str) -> MultipartFile {
    MultipartFile { key: key.to_string(), value: value.to_string(), original_filename: name.to_string() }
}

#[test]
fn form_has_fields_then_files() {
    let body = Body::new(
        vec![file("upload", "aGVsbG8=", "a.txt"), file("other", "", "b.bin")],
        vec![("user".to_string(), "alice".to_string())],
    )
    .unwrap();
    let parts = form_parts(&body).unwrap();
    assert_eq!(
        parts,
        vec![
            FormPart::Text { name: "user".to_string(), value: "alice".to_string() },
            FormPart::File { name: "upload".to_string(), bytes: b"hello".to_vec(), file_name: "a.txt".to_string() },
            FormPart::File { name: "other".to_string(), bytes: vec![], file_name: "b.bin".to_string() },
        ]
    );
}

#[test]
fn invalid_base64_fails_the_form() {
    let body = Body::new(vec![file("f", "not base64!", "x")], vec![]).unwrap();
    assert_eq!(form_parts(&body), Err(HttpError::InvalidBase64));
}

#[test]
fn body_names_must_be_distinct() {
    let dup = vec![("a".to_string(), "1".to_string()), ("a".to_string(), "2".to_string())];
    assert!(Body::new(vec![], dup).is_none());
    let ok = vec![("a".to_string(), "1".to_string()), ("b".to_string(), "2".to_string())];
    let body = Body::new(vec![file("f", "", "x")], ok.clone()).unwrap();
    assert_eq!(body.parameter_map(), &ok);
    assert_eq!(body.file_list().len(), 1);
    let (files, params) = body.into_parts();
    assert_eq!(files.len(), 1);
    assert_eq!(params, ok);
}

#[test]
fn unusable_proxy_fails_first() {
    let r = plan_request(
        "http://h",
        None,
        "BAD METHOD".to_string(),
        "{\"bad name\":\"x\"}",
        None,
        Some("http://[::1".to_string()),
    );
    assert_eq!(r.err(), Some(HttpError::InvalidProxy));
}

#[test]
fn proxy_without_scheme_is_accepted() {
    let p = plan_request("http://h", None, "GET".to_string(), "", None, Some("proxy.local:3128".to_string())).unwrap();
    assert_eq!(p.proxy.as_deref(), Some("proxy.local:3128"));
}

#[test]
fn unusable_address_fails_after_method() {
    let r = plan_request("not a url", None, "GET".to_string(), "", None, None);
    assert_eq!(r.err(), Some(HttpError::InvalidUrl));
    let r = plan_request("not a url", None, "BAD METHOD".to_string(), "", None, None);
    assert_eq!(r.err(), Some(HttpError::InvalidMethod));
    let r = plan_request("mailto:someone@example.com", None, "GET".to_string(), "", None, None);
    assert_eq!(r.err(), Some(HttpError::InvalidUrl));
}

#[test]
fn many_headers_are_all_set() {
    let fields: Vec<String> = (0..7000).map(|k| format!("\"x-h{}\":\"v{}\"", k, k)).collect();
    let header = format!("{{{}}}", fields.join(","));
    let p = plan("GET", &header, None).unwrap();
    let h = p.headers.unwrap();
    assert_eq!(h.len(), 7000);
    assert_eq!(h.get("x-h6999").unwrap(), "v6999");
    assert!(7000 > HEADER_CAPACITY);
}

#[test]
fn validators_follow_http_rules() {
    assert!(token_char('a') && token_char('~') && token_char('!'));
    assert!(!token_char(' ') && !token_char(':') && !token_char('é'));
    assert!(header_name_valid("X-Request-Id"));
    assert!(!header_name_valid(""));
    assert!(!header_name_valid("a:b"));
    assert!(header_value_valid("text/html; q=0.9\tx é"));
    assert!(!header_value_valid("a\u{7f}"));
    assert!(!header_value_valid("a\rb"));
    assert!(method_valid("GET") && method_valid("M-SEARCH"));
    assert!(!method_valid("") && !method_valid("G T"));
}
