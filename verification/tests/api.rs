use fish_bot::api::{
    access_token_of, after_refresh, after_token, apply_poll, first_auth_step, initial_login_params,
    item_info_call, item_list_call, login_form_from_view_data, login_params_from_html, login_step, mh5tk_call, mtop_request,
    percent_encode, poll_form, qr_ticket, token_call, user_info_call, view_data_of, AuthStep, LoginAction,
};
use fish_bot::cookies::CookieJar;
use fish_bot::error::AppError;
use fish_bot::json::Json;


fn j(text: &str) -> Json {
    Json::parse(text).unwrap()
}

fn param<'a>(ps: &'a [(String, String)], k: &str) -> Option<&'a str> {
    ps.iter().find(|(a, _)| a == k).map(|(_, v)| v.as_str())
}

#[test]
fn t3_42_percent_encode_alphanumeric() {
    assert_eq!(percent_encode("hello123"), "hello123");
    assert_eq!(percent_encode("ABC-DEF_ghi.~"), "ABC-DEF_ghi.~");
}

#[test]
fn t3_43_percent_encode_spaces() {
    assert_eq!(percent_encode("hello world"), "hello%20world");
    assert_eq!(percent_encode("a b c"), "a%20b%20c");
}

#[test]
fn t3_44_percent_encode_special_chars() {
    let encoded = percent_encode("{\"key\":\"value\"}");
    assert!(encoded.contains("%7B"));
    assert!(encoded.contains("%22"));
    assert!(encoded.contains("%3A"));
    assert!(encoded.contains("%7D"));
}

#[test]
fn t3_45_percent_encode_empty() {
    assert_eq!(percent_encode(""), "");
}

#[test]
fn t3_46_percent_encode_chinese() {
    let encoded = percent_encode("你好");
    assert!(!encoded.contains("你好"));
    assert!(encoded.len() > 2);
    assert_eq!(encoded, "%E4%BD%A0%E5%A5%BD");
}

#[test]
fn t3_67_percent_encode_special_all() {
    let encoded = percent_encode("!@#$%^&*()+=[]{}|;:',<>?/`\"");
    assert!(!encoded.contains('!'));
    assert!(!encoded.contains('@'));
    assert!(!encoded.contains('#'));
}

#[test]
fn mtop_request_signs_with_token() {
    let data = j(r#"{"a":1}"#);
    let extra = vec![("log_id".to_string(), "x".to_string()), ("v".to_string(), "9".to_string())];
    let req = mtop_request("MTOP.Demo.Api", "1.0", &data, Some("abc123_999"), 1700000000000, &extra).unwrap();
    assert_eq!(req.url, "https://h5api.m.goofish.com/h5/mtop.demo.api/1.0");
    assert_eq!(req.body, "data=%7B%22a%22%3A1%7D");
    assert_eq!(param(&req.params, "t"), Some("1700000000000"));
    assert_eq!(param(&req.params, "appKey"), Some("34839810"));
    assert_eq!(param(&req.params, "v"), Some("9"));
    assert_eq!(param(&req.params, "log_id"), Some("x"));
    let expected = fish_bot::sign::generate_sign("1700000000000", "abc123", "{\"a\":1}").unwrap();
    assert_eq!(param(&req.params, "sign"), Some(expected.as_str()));
    assert_eq!(req.params.len(), 11);
}

#[test]
fn mtop_request_without_token_or_data() {
    let req = mtop_request("api", "1.0", &Json::Null, None, 5, &vec![]).unwrap();
    assert_eq!(req.body, "data=%7B%7D");
    assert_eq!(param(&req.params, "sign"), Some(""));
    let arr = j("[1,2]");
    let req = mtop_request("api", "1.0", &arr, Some("tok"), 5, &vec![]).unwrap();
    assert_eq!(req.body, "data=%7B%7D");
}

#[test]
fn login_params_from_view_data() {
    let html = r#"<script>window.viewData = {"loginFormData": {"a": "x", "b": true, "c": 3, "d": null, "e": [1]}};</script>"#;
    let ps = login_params_from_html(html);
    assert_eq!(param(&ps, "a"), Some("x"));
    assert_eq!(param(&ps, "b"), Some("true"));
    assert_eq!(param(&ps, "c"), Some("3"));
    assert_eq!(param(&ps, "d"), Some(""));
    assert_eq!(param(&ps, "e"), Some("[1]"));
    assert_eq!(param(&ps, "umidTag"), Some("SERVER"));
    assert_eq!(ps.len(), 6);
}

#[test]
fn login_params_without_view_data() {
    let ps = login_params_from_html("<html></html>");
    assert_eq!(ps, vec![("umidTag".to_string(), "SERVER".to_string())]);
    assert_eq!(view_data_of("window.viewData = {\"a\": {\"b\": 1}} tail"), Some("{\"a\": {\"b\": 1}}".to_string()));
    assert_eq!(view_data_of("window.viewData = {\"a\": 1"), Some(String::new()));
    assert_eq!(view_data_of("window.viewData = 1"), None);
    let quirk = r#"window.viewData = {"loginFormData": {"a": "x"}, "z": "}"};"#;
    assert_eq!(login_params_from_html(quirk).len(), 1);
}

#[test]
fn initial_params_carry_random_text() {
    let ps = initial_login_params("0.5");
    assert_eq!(ps.len(), 11);
    assert_eq!(param(&ps, "appName"), Some("xianyu"));
    assert_eq!(param(&ps, "rnd"), Some("0.5"));
    assert_eq!(param(&ps, "bizParams"), Some(""));
}

#[test]
fn qr_ticket_requires_success_and_content() {
    let ok = j(r#"{"content": {"success": true, "data": {"t": 123, "ck": "ck1", "codeContent": "https://qr"}}}"#);
    let q = qr_ticket(&ok).unwrap();
    assert_eq!(q.t, "123");
    assert_eq!(q.ck, "ck1");
    assert_eq!(q.content, "https://qr");
    assert!(qr_ticket(&j(r#"{"content": {"success": false}}"#)).is_none());
    assert!(qr_ticket(&j(r#"{"content": {"success": true, "data": {"t": "1"}}}"#)).is_none());
}

#[test]
fn poll_form_sets_ticket_and_check() {
    let initial = vec![("t".to_string(), "old".to_string()), ("lang".to_string(), "zh_cn".to_string())];
    let f = poll_form(&initial, "T", "CK");
    assert_eq!(f, vec![
        ("t".to_string(), "T".to_string()),
        ("lang".to_string(), "zh_cn".to_string()),
        ("ck".to_string(), "CK".to_string()),
    ]);
}

#[test]
fn poll_reads_status_and_saves_cookies_on_confirm() {
    let mut jar = CookieJar::new();
    let lines = vec!["unb=42; Path=/".to_string(), "bad".to_string()];
    let (st, changed) = apply_poll(&mut jar, &j(r#"{"content": {"data": {"qrCodeStatus": "NEW"}}}"#), &lines);
    assert_eq!(st.status, "NEW");
    assert!(!changed);
    assert!(jar.is_empty());
    let (st, changed) = apply_poll(&mut jar, &j(r#"{"content": {"data": {"qrCodeStatus": "CONFIRMED"}}}"#), &lines);
    assert_eq!(st.status, "CONFIRMED");
    assert!(changed);
    assert_eq!(jar.my_id(), "42");
    let (st, _) = apply_poll(&mut jar, &j(r#"{"content": {"data": {"iframeRedirect": "https://verify"}}}"#), &lines);
    assert_eq!(st.status, "ERROR");
    assert_eq!(st.redirect_url.as_deref(), Some("https://verify"));
    let (st, _) = apply_poll(&mut jar, &j(r#"{}"#), &lines);
    assert_eq!(st.status, "UNKNOWN");
}

fn auth_details(a: &LoginAction) -> Option<String> {
    match a {
        LoginAction::Fail(AppError::Auth { details }) => Some(details.clone()),
        _ => None,
    }
}

#[test]
fn login_steps_follow_status() {
    let (s, a) = login_step(false, "NEW", "");
    assert!(!s && matches!(a, LoginAction::Wait));
    let (s, a) = login_step(false, "SCANED", "");
    assert!(s && matches!(a, LoginAction::AnnounceScan));
    let (s, a) = login_step(true, "SCANED", "");
    assert!(s && matches!(a, LoginAction::Wait));
    let (_, a) = login_step(true, "CONFIRMED", "");
    assert!(matches!(a, LoginAction::Done));
    let (_, a) = login_step(false, "EXPIRED", "");
    assert_eq!(auth_details(&a).as_deref(), Some("QR code expired, please restart"));
    let (_, a) = login_step(false, "CANCELED", "");
    assert_eq!(auth_details(&a).as_deref(), Some("Login cancelled"));
    let (_, a) = login_step(false, "ERROR", "https://x");
    assert_eq!(auth_details(&a).as_deref(), Some("Risk control: verify at https://x"));
    let (_, a) = login_step(false, "WHATEVER", "");
    assert!(matches!(a, LoginAction::Wait));
}

#[test]
fn auth_steps_follow_token_replies() {
    let mut jar = CookieJar::new();
    assert!(matches!(first_auth_step(&jar), AuthStep::QrLogin));
    jar.insert("unb".into(), "1".into());
    assert!(matches!(first_auth_step(&jar), AuthStep::ValidateToken));
    assert!(matches!(after_token(None), AuthStep::QrLogin));
    assert!(matches!(after_token(Some(&j(r#"{"data": {"accessToken": "a"}}"#))), AuthStep::LoggedIn));
    assert!(matches!(after_token(Some(&j(r#"{"ret": ["FAIL_SYS_SESSION_EXPIRED::x"]}"#))), AuthStep::ClearAndQrLogin));
    assert!(matches!(after_token(Some(&j(r#"{"ret": ["FAIL_SYS_USER_VALIDATE"]}"#))), AuthStep::Fail(AppError::Auth { .. })));
    assert!(matches!(after_token(Some(&j(r#"{"ret": ["OTHER"]}"#))), AuthStep::RefreshToken));
    assert!(matches!(after_refresh(Some(&j(r#"{"data": {"accessToken": 1}}"#))), AuthStep::LoggedIn));
    assert!(matches!(after_refresh(Some(&j(r#"{"data": {}}"#))), AuthStep::QrLogin));
    assert!(matches!(after_refresh(None), AuthStep::QrLogin));
}

#[test]
fn access_token_read_from_reply() {
    assert_eq!(access_token_of(&j(r#"{"data": {"accessToken": "tok"}}"#)).unwrap(), "tok");
    let e = access_token_of(&j(r#"{"data": {}}"#)).unwrap_err();
    assert!(matches!(e, AppError::Auth { ref details } if details == "No accessToken in response"));
}

#[test]
fn call_builders_name_their_apis() {
    let t = token_call("dev1");
    assert_eq!(t.api, "mtop.taobao.idlemessage.pc.login.token");
    assert_eq!(t.data.get_str("deviceId"), Some("dev1"));
    assert_eq!(t.extra.len(), 2);
    assert_eq!(mh5tk_call().api, "mtop.gaia.nodejs.gaia.idle.data.gw.v2.index.get");
    let u = user_info_call("");
    assert_eq!(u.data.get("self").unwrap().as_bool(), Some(true));
    let l = item_list_call("u", 2, 20);
    assert_eq!(l.data.get("pageSize").unwrap().as_u64(), Some(20));
    assert_eq!(item_info_call("i9").data.get_str("itemId"), Some("i9"));
}

#[test]
fn scan_is_announced_once_per_login() {
    let mut scanned = false;
    let mut announced = 0;
    for status in ["NEW", "SCANED", "SCANED", "NEW", "SCANED", "CONFIRMED"] {
        let (next, action) = fish_bot::api::login_step(scanned, status, "");
        if matches!(action, fish_bot::api::LoginAction::AnnounceScan) {
            announced += 1;
        }
        scanned = next;
    }
    assert_eq!(announced, 1);
    assert!(scanned);
}

#[test]
fn percent_encoding_lengths_and_charset() {
    let encoded = percent_encode("你好");
    assert_eq!(encoded, "%E4%BD%A0%E5%A5%BD");
    assert_eq!(encoded.len(), 6 + 2 * 6);
    let mixed = percent_encode("a b~!");
    assert_eq!(mixed, "a%20b~%21");
    assert_eq!(mixed.len(), 5 + 2 * 2);
    assert!(mixed
        .chars()
        .all(|c| c.is_ascii_alphanumeric() || "-_.~%".contains(c)));
}

#[test]
fn percent_encoding_decodes_back() {
    let encoded = percent_encode("a b/ü~");
    assert_eq!(encoded, "a%20b%2F%C3%BC~");
    assert_eq!(urlencoding::decode(&encoded).unwrap(), "a b/ü~");
}

#[test]
fn login_form_is_read_from_view_data() {
    let form = login_form_from_view_data(&j(r#"{"loginFormData":{"a":"1","b":2,"a":"3"},"x":1}"#));
    assert_eq!(form, vec![("a".to_string(), "3".to_string()), ("b".to_string(), "2".to_string())]);
    assert!(login_form_from_view_data(&j(r#"{"loginFormData":[1]}"#)).is_empty());
    assert!(login_form_from_view_data(&j("{}")).is_empty());
}
