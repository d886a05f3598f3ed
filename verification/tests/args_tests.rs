use mysql_udf_http::args::{
    get_fd, get_int_param, get_ip, get_msg, get_string_param, http_args, nonempty_text_arg, text_arg, HttpArgs,
    SqlValue,
};

fn text(s: &str) -> SqlValue {
    SqlValue::Bytes(Some(s.as_bytes().to_vec()))
}

#[test]
fn string_param_reads_non_empty_text() {
    let args = vec![text("abc"), text("")];
    assert_eq!(get_string_param(&args, 0), "abc");
    assert_eq!(get_string_param(&args, 1), "");
}

#[test]
fn string_param_ignores_other_kinds() {
    let args = vec![SqlValue::Bytes(None), SqlValue::Int(Some(4)), SqlValue::Other, SqlValue::Bytes(Some(vec![0xc3]))];
    for i in 0..5 {
        assert_eq!(get_string_param(&args, i), "");
    }
}

#[test]
fn ip_is_first_string_param() {
    assert_eq!(get_ip(&vec![text("10.0.0.1")]), "10.0.0.1");
    assert_eq!(get_ip(&vec![]), "");
}

#[test]
fn int_param_reads_integers_only() {
    let args = vec![SqlValue::Int(Some(-5)), SqlValue::Int(None), text("7")];
    assert_eq!(get_int_param(&args, 0), -5);
    assert_eq!(get_int_param(&args, 1), 0);
    assert_eq!(get_int_param(&args, 2), 0);
    assert_eq!(get_int_param(&args, 3), 0);
}

#[test]
fn fd_is_first_integer() {
    assert_eq!(get_fd(&vec![SqlValue::Int(Some(12))]), 12);
    assert_eq!(get_fd(&vec![text("12")]), 0);
}

#[test]
fn msg_keeps_empty_text() {
    assert_eq!(get_msg(&vec![SqlValue::Int(Some(3)), text("hello")]), "hello");
    assert_eq!(get_msg(&vec![SqlValue::Int(Some(3)), text("")]), "");
    assert_eq!(get_msg(&vec![SqlValue::Int(Some(3))]), "");
    assert_eq!(get_msg(&vec![SqlValue::Int(Some(3)), SqlValue::Bytes(Some(vec![0xff]))]), "");
}

#[test]
fn text_args_distinguish_empty() {
    let args = vec![text(""), text("x")];
    assert_eq!(text_arg(&args, 0), Some(String::new()));
    assert_eq!(nonempty_text_arg(&args, 0), None);
    assert_eq!(nonempty_text_arg(&args, 1), Some("x".to_string()));
}

#[test]
fn http_args_default_to_get() {
    let args = vec![text("https://example.com")];
    assert_eq!(
        http_args(&args),
        HttpArgs {
            url: "https://example.com".to_string(),
            params: None,
            method: "GET".to_string(),
            header: String::new(),
            body: None,
            proxy: None,
        }
    );
}

#[test]
fn http_args_reads_all_six() {
    let args = vec![
        text("http://h/p"),
        text("a=1"),
        text("POST"),
        text("{\"x\":\"y\"}"),
        text("payload"),
        text("http://proxy:8080"),
    ];
    let a = http_args(&args);
    assert_eq!(a.url, "http://h/p");
    assert_eq!(a.params.as_deref(), Some("a=1"));
    assert_eq!(a.method, "POST");
    assert_eq!(a.header, "{\"x\":\"y\"}");
    assert_eq!(a.body.as_deref(), Some("payload"));
    assert_eq!(a.proxy.as_deref(), Some("http://proxy:8080"));
}

#[test]
fn http_args_empty_method_falls_back_to_get() {
    let args = vec![text("u"), text(""), text(""), SqlValue::Int(Some(1))];
    let a = http_args(&args);
    assert_eq!(a.method, "GET");
    assert_eq!(a.params, None);
    assert_eq!(a.header, "");
}

#[test]
fn present_args_are_never_empty() {
    let args = vec![text(""), text("a"), SqlValue::Bytes(Some(vec![]))];
    for i in 0..3 {
        if let Some(s) = nonempty_text_arg(&args, i) {
            assert!(!s.is_empty());
        }
    }
}

#[test]
fn absent_method_reads_like_get() {
    let base = vec![text("http://h"), SqlValue::Bytes(None)];
    let with_get = vec![text("http://h"), SqlValue::Bytes(None), text("GET")];
    assert_eq!(http_args(&base), http_args(&with_get));
    let int_method = vec![text("http://h"), SqlValue::Other, SqlValue::Int(Some(1))];
    let with_get = vec![text("http://h"), SqlValue::Other, text("GET")];
    assert_eq!(http_args(&int_method), http_args(&with_get));
}

#[test]
fn absent_args_read_like_empty_strings() {
    let sparse = vec![SqlValue::Int(Some(1)), SqlValue::Bytes(None), text("PUT"), SqlValue::Other];
    let filled = vec![text(""), text(""), text("PUT"), text(""), text(""), text("")];
    assert_eq!(http_args(&sparse), http_args(&filled));
}
