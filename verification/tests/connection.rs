use fish_bot::connection::{build_registration_message, build_sync_ack_message, upgrade_headers};
use fish_bot::json::Json;

fn at<'a>(v: &'a Json, path: &[&str]) -> &'a Json {
    let mut cur = v;
    for k in path {
        cur = match k.parse::<usize>() {
            Ok(i) => cur.get_index(i).unwrap(),
            Err(_) => cur.get(k).unwrap(),
        };
    }
    cur
}

fn header<'a>(hs: &'a [(String, String)], name: &str) -> Option<&'a str> {
    hs.iter().find(|(k, _)| k == name).map(|(_, v)| v.as_str())
}

#[test]
fn t_connection_registration_message_matches_reference_shape() {
    let msg = build_registration_message("token-123", "device-456");
    assert_eq!(at(&msg, &["lwp"]).as_str(), Some("/reg"));
    assert_eq!(at(&msg, &["headers", "token"]).as_str(), Some("token-123"));
    assert_eq!(at(&msg, &["headers", "did"]).as_str(), Some("device-456"));
    assert_eq!(at(&msg, &["headers", "sync"]).as_str(), Some("0,0;0;0;"));
}

#[test]
fn t_connection_sync_ack_message_matches_reference_shape() {
    let msg = build_sync_ack_message(1_700_000_000_000);
    assert_eq!(at(&msg, &["lwp"]).as_str(), Some("/r/SyncStatus/ackDiff"));
    assert_eq!(at(&msg, &["body", "0", "pipeline"]).as_str(), Some("sync"));
    assert_eq!(at(&msg, &["body", "0", "pts"]).as_u64(), Some(1_700_000_000_000u64 * 1000));
    assert_eq!(at(&msg, &["body", "0", "timestamp"]).as_u64(), Some(1_700_000_000_000u64));
}

#[test]
fn t_connection_upgrade_request_carries_browser_headers() {
    let headers = upgrade_headers("cookie2=abc; unb=123");
    assert_eq!(header(&headers, "Cookie"), Some("cookie2=abc; unb=123"));
    assert_eq!(header(&headers, "Origin"), Some("https://www.goofish.com"));
    assert_eq!(header(&headers, "Host"), Some("wss-goofish.dingtalk.com"));
}

#[test]
fn t_connection_upgrade_request_skips_empty_cookie() {
    let headers = upgrade_headers("   ");
    assert!(header(&headers, "Cookie").is_none());
}
