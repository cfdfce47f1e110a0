use reqpipe::error::{
    error_custom_internal, error_custom_mapped, error_default, get_userinfo, ErrorKind, Messagible,
    SysErr,
};
use reqpipe::extractor::{extract_form, extract_query};
use reqpipe::json::{render_custom_out, render_envelope, render_qs_echo};
use reqpipe::jsonbody::{extract_injson, extract_json, extract_object, JsonBody, JsonPrim};
use reqpipe::middleware::{
    resolve_header, verify_token, verify_user_by_bearertoken, BearerTokenMiddlewareInit,
    ChainDecision, UserAuth,
};
use reqpipe::response::ok_text;
use reqpipe::simple_handler::CustomOut;

#[test]
fn bearer_policy_accepts_the_fixed_token() {
    match verify_user_by_bearertoken("abctoken") {
        UserAuth::Present { name, token } => {
            assert_eq!(name, "roger");
            assert_eq!(token, "abctoken");
        }
        UserAuth::Absent => panic!("the fixed token must resolve"),
    }
}

#[test]
fn bearer_policy_rejects_other_values() {
    assert!(matches!(verify_user_by_bearertoken(""), UserAuth::Absent));
    assert!(matches!(verify_user_by_bearertoken("abctoke"), UserAuth::Absent));
    assert!(matches!(verify_user_by_bearertoken("abctokenx"), UserAuth::Absent));
    assert!(matches!(resolve_header(None), UserAuth::Absent));
}

#[test]
fn verify_token_follows_the_policy() {
    match verify_token("abctoken") {
        UserAuth::Present { name, token } => {
            assert_eq!(name, "roger");
            assert_eq!(token, "abctoken");
        }
        UserAuth::Absent => panic!("the fixed token must resolve"),
    }
    assert!(matches!(verify_token(""), UserAuth::Absent));
    assert!(matches!(verify_token("whatever"), UserAuth::Absent));
}

#[test]
fn chain_link_resolves_before_proceeding() {
    let link = BearerTokenMiddlewareInit.new_transform();
    let (auth, decision) = link.call_enter(Some("abctoken"));
    assert!(matches!(auth, UserAuth::Present { .. }));
    assert!(matches!(decision, ChainDecision::Proceed));
    let downstream = ok_text("hi".to_string());
    let out = link.call_exit(downstream);
    assert_eq!(out.body, "hi");
    assert_eq!(out.status, 200);
}

#[test]
fn error_handlers_fail_as_declared() {
    assert!(error_default().is_err());
    assert!(matches!(error_custom_internal(), Err(SysErr::IntenalError)));
    match error_custom_mapped() {
        Err(ErrorKind::BadRequest(m)) => assert_eq!(m, "date"),
        _ => panic!("the mapped handler must fail with a bad request"),
    }
}

#[test]
fn sys_err_maps_to_status_and_envelope() {
    assert_eq!(SysErr::IntenalError.status_code(), 500);
    assert_eq!(SysErr::BadRequestError("x").status_code(), 400);
    let r = SysErr::IntenalError.error_response();
    assert_eq!(r.status, 500);
    assert_eq!(r.content_type, "application/json; charset=utf-8");
    assert_eq!(r.body, "{\"success\":false,\"message\":\"internal error\"}");
    let b = SysErr::BadRequestError("date").error_response();
    assert_eq!(b.status, 400);
    assert_eq!(b.body, "{\"success\":false,\"message\":\"bad request\"}");
}

#[test]
fn messagible_reports_the_reason() {
    assert_eq!(SysErr::IntenalError.message(), "internal error");
    assert_eq!(SysErr::BadRequestError("date").message(), "date");
}

#[test]
fn error_kind_mapping_is_total() {
    assert_eq!(ErrorKind::Internal.to_response().status, 500);
    assert_eq!(ErrorKind::Default.to_response().status, 500);
    assert_eq!(ErrorKind::BadRequest("why").to_response().status, 400);
    assert_eq!(
        ErrorKind::BadRequest("why").to_response().body,
        "{\"success\":false,\"message\":\"why\"}"
    );
}

#[test]
fn userinfo_text_follows_the_auth_value() {
    let present = UserAuth::Present {
        name: "roger".to_string(),
        token: "abctoken".to_string(),
    };
    assert_eq!(get_userinfo(&present), "user: roger");
    assert_eq!(get_userinfo(&UserAuth::Absent), "no user info");
}

#[test]
fn envelope_escapes_its_message() {
    assert_eq!(
        render_envelope("a\"b\\c"),
        "{\"success\":false,\"message\":\"a\\\"b\\\\c\"}"
    );
    assert_eq!(
        render_envelope("tab\there"),
        "{\"success\":false,\"message\":\"tab\\there\"}"
    );
}

#[test]
fn control_characters_escape_as_hex() {
    assert_eq!(
        render_custom_out("n", "\u{1}"),
        "{\"name\":\"n\",\"message\":\"\\u0001\"}"
    );
}

#[test]
fn qs_echo_renders_decimals() {
    assert_eq!(render_qs_echo("n", 0), "{\"qs\":{\"name\":\"n\",\"id\":0}}");
    assert_eq!(
        render_qs_echo("n", 4294967295),
        "{\"qs\":{\"name\":\"n\",\"id\":4294967295}}"
    );
    assert_eq!(render_qs_echo("n", 105), "{\"qs\":{\"name\":\"n\",\"id\":105}}");
}

#[test]
fn custom_out_never_renders_age() {
    let c = CustomOut {
        name: "Roger".to_string(),
        age: 38,
        message: "m".to_string(),
    };
    let r = c.respond_to();
    assert_eq!(r.body, "{\"name\":\"Roger\",\"message\":\"m\"}");
    assert!(!r.body.contains("38"));
}

#[test]
fn query_extraction_reads_both_fields() {
    let q = extract_query("name=ro+ger&id=32").expect("valid query");
    assert_eq!(q.name, "ro ger");
    assert_eq!(q.id, 32);
    let f = extract_form("id=1&name=%41").expect("valid form");
    assert_eq!(f.name, "A");
    assert_eq!(f.id, 1);
}

#[test]
fn query_extraction_rejects_bad_escapes() {
    assert!(extract_query("name=%zz&id=1").is_none());
    assert!(extract_query("name=%4&id=1").is_none());
    assert!(extract_query("name=%ff&id=1").is_none());
}

#[test]
fn json_record_reads_declared_fields() {
    let r = extract_injson("{\"name\":\"x\",\"id\":5}").expect("valid record");
    assert_eq!(r.name, "x");
    assert_eq!(r.id, Some(5));
    let n = extract_injson("{\"id\":null,\"name\":\"x\"}").expect("null id");
    assert_eq!(n.id, None);
}

#[test]
fn json_record_ignores_unknown_members_of_any_shape() {
    let r = extract_injson(
        "{\"list\":[1,2],\"deep\":{\"b\":1},\"neg\":-3,\"frac\":2.5,\"name\":\"x\",\"id\":1}",
    )
    .expect("unknown members are ignored");
    assert_eq!(r.name, "x");
    assert_eq!(r.id, Some(1));
}

#[test]
fn json_record_rejects_wrong_types_and_duplicates() {
    assert!(extract_injson("{\"name\":3,\"id\":5}").is_none());
    assert!(extract_injson("{\"name\":\"x\",\"id\":\"5\"}").is_none());
    assert!(extract_injson("{\"name\":\"x\",\"name\":\"y\",\"id\":1}").is_none());
}

#[test]
fn json_object_preserves_members_in_order() {
    let ps = extract_object("{\"b\":1,\"a\":\"two\",\"c\":true,\"d\":null}").expect("valid object");
    assert_eq!(ps.len(), 4);
    assert_eq!(ps[0].0, "b");
    assert!(matches!(ps[0].1, JsonPrim::JNum(1)));
    assert_eq!(ps[1].0, "a");
    match &ps[1].1 {
        JsonPrim::JStr(s) => assert_eq!(s, "two"),
        _ => panic!("the second member must be a string"),
    }
    assert!(matches!(ps[2].1, JsonPrim::JBool(true)));
    assert!(matches!(ps[3].1, JsonPrim::JNull));
}

#[test]
fn json_object_keeps_composite_members_as_text() {
    let ps = extract_object(
        "{\"a\":[1, 2],\"b\":{\"c\":null},\"d\":-5,\"e\":1.25e3,\"f\":99999999999}",
    )
    .expect("valid object");
    let raw: Vec<&str> = ps
        .iter()
        .map(|p| match &p.1 {
            JsonPrim::JRaw(t) => t.as_str(),
            _ => panic!("every member here is composite"),
        })
        .collect();
    assert_eq!(raw, ["[1, 2]", "{\"c\":null}", "-5", "1.25e3", "99999999999"]);
}

#[test]
fn json_object_resolves_string_escapes() {
    let ps = extract_object("{\"k\":\"a\\n\\\"b\\\\\"}").expect("valid object");
    match &ps[0].1 {
        JsonPrim::JStr(s) => assert_eq!(s, "a\n\"b\\"),
        _ => panic!("the member must be a string"),
    }
}

#[test]
fn json_object_resolves_unicode_escapes() {
    let ps = extract_object("{\"k\":\"\\u0041\\u00e9\\ud83d\\ude00\"}").expect("valid object");
    match &ps[0].1 {
        JsonPrim::JStr(s) => assert_eq!(s, "A\u{e9}\u{1f600}"),
        _ => panic!("the member must be a string"),
    }
    assert!(extract_object("{\"k\":\"\\ud83d\"}").is_none());
    assert!(extract_object("{\"k\":\"\\uzzzz\"}").is_none());
}

#[test]
fn json_object_rejects_trailing_text() {
    assert!(extract_object("{\"a\":1} x").is_none());
    assert!(extract_object("{\"a\":1,}").is_none());
    assert!(extract_object("").is_none());
}

#[test]
fn json_number_rejects_leading_zero() {
    assert!(extract_object("{\"a\":07}").is_none());
    let ok = extract_object("{\"a\":0}").expect("zero is a number");
    assert!(matches!(ok[0].1, JsonPrim::JNum(0)));
}

#[test]
fn empty_json_object_parses() {
    let ps = extract_object(" { } ").expect("empty object");
    assert!(ps.is_empty());
}

#[test]
fn json_catch_all_accepts_any_value() {
    match extract_json("[1, {\"a\":[]}, \"x\"]").expect("valid body") {
        JsonBody::Value(JsonPrim::JRaw(t)) => assert_eq!(t, "[1, {\"a\":[]}, \"x\"]"),
        _ => panic!("an array body is kept whole"),
    }
    match extract_json(" \"hi\" ").expect("valid body") {
        JsonBody::Value(JsonPrim::JStr(t)) => assert_eq!(t, "hi"),
        _ => panic!("a string body is read out"),
    }
    match extract_json("{\"a\":1}").expect("valid body") {
        JsonBody::Object(ps) => assert_eq!(ps.len(), 1),
        _ => panic!("an object body keeps its members"),
    }
    assert!(extract_json("[1,").is_none());
    assert!(extract_json("nul").is_none());
}
