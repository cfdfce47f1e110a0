use reqpipe::pipeline::{handle_request, Request};
use reqpipe::router::Method;

fn get(target: &str) -> Request {
    Request {
        method: Method::Get,
        target: target.to_string(),
        auth_header: None,
        body: String::new(),
    }
}

fn post(target: &str, body: &str) -> Request {
    Request {
        method: Method::Post,
        target: target.to_string(),
        auth_header: None,
        body: body.to_string(),
    }
}

#[test]
fn out_json_fixed_body() {
    let r = handle_request(&get("/out/json"));
    assert_eq!(r.status, 200);
    assert_eq!(r.content_type, "application/json");
    assert_eq!(r.body, "{\"name\":\"roger\",\"age\":39,\"favourite_num\":[1,3,17]}");
    assert!(!r.chunked);
}

#[test]
fn in_qs_echoes_name_and_id() {
    let r = handle_request(&get("/in/qs?name=roger&id=32"));
    assert_eq!(r.status, 200);
    assert_eq!(r.body, "{\"qs\":{\"name\":\"roger\",\"id\":32}}");
}

#[test]
fn in_qs_decodes_plus_and_percent() {
    let r = handle_request(&get("/in/qs?name=a+b%21&id=7"));
    assert_eq!(r.status, 200);
    assert_eq!(r.body, "{\"qs\":{\"name\":\"a b!\",\"id\":7}}");
}

#[test]
fn in_qs_ignores_unknown_keys() {
    let r = handle_request(&get("/in/qs?name=x&other=1&id=3"));
    assert_eq!(r.status, 200);
    assert_eq!(r.body, "{\"qs\":{\"name\":\"x\",\"id\":3}}");
}

#[test]
fn in_qs_missing_id_is_malformed() {
    let r = handle_request(&get("/in/qs?name=x"));
    assert_eq!(r.status, 400);
    assert_eq!(r.body, "malformed input");
}

#[test]
fn in_qs_duplicate_key_is_malformed() {
    let r = handle_request(&get("/in/qs?name=x&name=y&id=3"));
    assert_eq!(r.status, 400);
}

#[test]
fn in_qs_id_overflow_is_malformed() {
    let ok = handle_request(&get("/in/qs?name=x&id=4294967295"));
    assert_eq!(ok.status, 200);
    let over = handle_request(&get("/in/qs?name=x&id=4294967296"));
    assert_eq!(over.status, 400);
}

#[test]
fn err_default_is_500_envelope() {
    let r = handle_request(&get("/err/default"));
    assert_eq!(r.status, 500);
    assert_eq!(r.body, "{\"success\":false,\"message\":\"default error\"}");
}

#[test]
fn err_internal_is_500_envelope() {
    let r = handle_request(&get("/err/custom/internal"));
    assert_eq!(r.status, 500);
    assert_eq!(r.body, "{\"success\":false,\"message\":\"internal error\"}");
}

#[test]
fn err_mapped_is_400_date() {
    let r = handle_request(&get("/err/custom/mapped"));
    assert_eq!(r.status, 400);
    assert_eq!(r.body, "{\"success\":false,\"message\":\"date\"}");
}

#[test]
fn out_custom_absent_content_gives_empty_message() {
    let r = handle_request(&get("/out/custom"));
    assert_eq!(r.status, 200);
    assert_eq!(r.body, "{\"name\":\"Roger\",\"message\":\"\"}");
}

#[test]
fn out_custom_present_content_echoes_message() {
    let r = handle_request(&get("/out/custom/x"));
    assert_eq!(r.status, 200);
    assert_eq!(r.body, "{\"name\":\"Roger\",\"message\":\"x\"}");
}

#[test]
fn out_custom_escapes_quote_in_message() {
    let r = handle_request(&get("/out/custom/a\"b"));
    assert_eq!(r.body, "{\"name\":\"Roger\",\"message\":\"a\\\"b\"}");
}

#[test]
fn out_text_echoes_segment() {
    let r = handle_request(&get("/out/text/hi"));
    assert_eq!(r.status, 200);
    assert_eq!(r.content_type, "text/plain; charset=utf-8");
    assert_eq!(r.body, "text data: hi");
}

#[test]
fn out_text_without_segment_is_not_found() {
    let r = handle_request(&get("/out/text"));
    assert_eq!(r.status, 404);
}

#[test]
fn out_stream_is_chunked() {
    let r = handle_request(&get("/out/stream"));
    assert_eq!(r.status, 200);
    assert_eq!(r.body, "stream content");
    assert!(r.chunked);
}

#[test]
fn repeated_get_requests_are_byte_identical() {
    let targets = [
        "/out/json",
        "/out/custom/x",
        "/out/text/x",
        "/out/stream",
        "/in/qs?name=a&id=1",
        "/err/default",
        "/err/custom/internal",
        "/err/custom/mapped",
        "/err/custom/userinfo",
    ];
    for t in targets.iter() {
        let a = handle_request(&get(t));
        let b = handle_request(&get(t));
        assert_eq!(a.status, b.status);
        assert_eq!(a.body, b.body);
        assert_eq!(a.content_type, b.content_type);
    }
}

#[test]
fn userinfo_with_token_names_roger() {
    let mut req = get("/err/custom/userinfo");
    req.auth_header = Some("abctoken".to_string());
    let r = handle_request(&req);
    assert_eq!(r.status, 200);
    assert_eq!(r.body, "user: roger");
}

#[test]
fn userinfo_with_wrong_token_has_no_user() {
    let mut req = get("/err/custom/userinfo");
    req.auth_header = Some("other".to_string());
    let r = handle_request(&req);
    assert_eq!(r.body, "no user info");
}

#[test]
fn userinfo_without_header_has_no_user() {
    let r = handle_request(&get("/err/custom/userinfo"));
    assert_eq!(r.body, "no user info");
}

#[test]
fn hello_route_answers() {
    let r = handle_request(&get("/hello"));
    assert_eq!(r.status, 200);
    assert_eq!(r.body, "hello, the server is up and running ~");
}

#[test]
fn unknown_path_is_not_found() {
    let r = handle_request(&get("/nope"));
    assert_eq!(r.status, 404);
    assert_eq!(r.body, "");
}

#[test]
fn method_mismatch_is_not_found() {
    let r = handle_request(&post("/out/json", ""));
    assert_eq!(r.status, 404);
}

#[test]
fn in_custom_accepts_declared_shape() {
    let r = handle_request(&post("/in/custom", "{\"name\":\"roger\",\"id\":32}"));
    assert_eq!(r.status, 200);
    assert_eq!(r.body, "{\"name\":\"abc\",\"id\":32}");
}

#[test]
fn in_custom_accepts_null_and_absent_id() {
    let with_null = handle_request(&post("/in/custom", "{\"name\":\"roger\",\"id\":null}"));
    assert_eq!(with_null.status, 200);
    let absent = handle_request(&post("/in/custom", "{\"name\":\"roger\"}"));
    assert_eq!(absent.status, 200);
}

#[test]
fn in_custom_ignores_extra_keys() {
    let r = handle_request(&post("/in/custom", "{\"name\":\"r\",\"extra\":true,\"id\":1}"));
    assert_eq!(r.status, 200);
}

#[test]
fn in_custom_missing_name_is_malformed() {
    let r = handle_request(&post("/in/custom", "{\"id\":32}"));
    assert_eq!(r.status, 400);
}

#[test]
fn in_custom_bad_json_is_malformed() {
    let r = handle_request(&post("/in/custom", "{\"name\":\"roger\""));
    assert_eq!(r.status, 400);
}

#[test]
fn in_json_accepts_any_flat_object() {
    let r = handle_request(&post("/in/json", " { \"a\" : 1 , \"b\" : \"x\" } "));
    assert_eq!(r.status, 200);
    assert_eq!(r.body, "{\"name\":\"abc\",\"id\":32}");
}

#[test]
fn in_json_accepts_any_json_value() {
    let arr = handle_request(&post("/in/json", "[1,2]"));
    assert_eq!(arr.status, 200);
    assert_eq!(arr.body, "{\"name\":\"abc\",\"id\":32}");
    let nested = handle_request(&post("/in/json", "{\"a\":{\"b\":[1,2]}}"));
    assert_eq!(nested.status, 200);
    let bad = handle_request(&post("/in/json", "[1,2"));
    assert_eq!(bad.status, 400);
}

#[test]
fn in_custom_ignores_nested_unknown_members() {
    let r = handle_request(&post(
        "/in/custom",
        "{\"extra\":{\"deep\":[1,-2.5]},\"name\":\"roger\",\"id\":32}",
    ));
    assert_eq!(r.status, 200);
}

#[test]
fn in_qs_decodes_utf8_names() {
    let r = handle_request(&get("/in/qs?name=%C3%A9&id=1"));
    assert_eq!(r.status, 200);
    assert_eq!(r.body, "{\"qs\":{\"name\":\"\u{e9}\",\"id\":1}}");
}

#[test]
fn out_custom_decodes_the_captured_segment() {
    let r = handle_request(&get("/out/custom/a%20b"));
    assert_eq!(r.status, 200);
    assert_eq!(r.body, "{\"name\":\"Roger\",\"message\":\"a b\"}");
    let t = handle_request(&get("/out/text/a%C3%A9"));
    assert_eq!(t.body, "text data: a\u{e9}");
    let bad = handle_request(&get("/out/text/a%zz"));
    assert_eq!(bad.status, 400);
}

#[test]
fn in_form_parses_urlencoded_body() {
    let r = handle_request(&post("/in/form", "name=roger&id=32"));
    assert_eq!(r.status, 200);
    assert_eq!(r.body, "{\"name\":\"abc\",\"id\":32}");
}

#[test]
fn in_form_bad_id_is_malformed() {
    let r = handle_request(&post("/in/form", "name=roger&id=abc"));
    assert_eq!(r.status, 400);
}
