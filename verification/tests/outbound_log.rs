use disaster_alert::limited_body::LimitedBody;
use disaster_alert::outbound_log::{
    is_redactable, is_sensitive_query_key, logged_uri, logged_url, mask_json, mask_json_for_log,
    mask_middle, mask_notification_path, redact_http_uri, redact_query_pairs, redact_url,
    redact_url_str, request_failed_message, size_limit_message, transport_error_kind,
    truncate_log_body, LogLevel, PendingOutboundRequest,
};
use disaster_alert::urls::{room_behind_pairs, room_behind_path};

#[test]
fn redacts_amap_key_and_keeps_coordinates() {
    let url = url::Url::parse(
        "https://restapi.amap.com/v3/geocode/regeo?key=secret-key&location=116.480881,39.989410&output=json",
    )
    .unwrap();
    let redacted = redact_url(url.as_str()).unwrap();
    assert!(redacted.contains("key=***"));
    assert!(!redacted.contains("secret-key"));
    assert!(
        redacted.contains("location=116.480881%2C39.989410")
            || redacted.contains("location=116.480881,39.989410")
    );
}

#[test]
fn masks_notification_token_in_relative_uri() {
    let uri: axum::http::Uri =
        "/api/incidents/evt-1/notifications/abcdefg.signaturetoken".parse().unwrap();
    let redacted = redact_http_uri(&uri.to_string());
    assert!(redacted.contains("/api/incidents/evt-1/notifications/abc***ken"));
    assert!(!redacted.contains("abcdefg.signaturetoken"));
}

#[test]
fn masks_device_key_query_in_relative_uri() {
    let uri: axum::http::Uri =
        "/api/admin/subscriptions?device_key=barkdevicekey".parse().unwrap();
    let redacted = redact_http_uri(&uri.to_string());
    assert!(redacted.contains("device_key=bar***key"));
    assert!(!redacted.contains("barkdevicekey"));
}

#[test]
fn masks_device_key_and_detail_token_in_json() {
    let mut payload = serde_json::Map::new();
    payload.insert("device_key".to_string(), serde_json::Value::from("barkdevicekey"));
    payload.insert("title".to_string(), serde_json::Value::from("地震"));
    payload.insert(
        "url".to_string(),
        serde_json::Value::from(
            "https://alert.example.com/incidents/e1/notifications/abcdefghijk.sig",
        ),
    );
    let logged = mask_json_for_log(&serde_json::Value::Object(payload));
    assert!(logged.contains("bar***key"));
    assert!(!logged.contains("barkdevicekey"));
    assert!(logged.contains("abc***sig"));
    assert!(!logged.contains("abcdefghijk.sig"));
}

#[test]
fn mask_middle_keeps_prefix_and_suffix() {
    assert_eq!(mask_middle("short"), "***");
    assert_eq!(mask_middle("barkdevicekey"), "bar***key");
}

#[test]
fn truncates_long_bodies() {
    let body = "测".repeat(3_000);
    let truncated = truncate_log_body(&body);
    assert!(truncated.ends_with("...truncated"));
    assert!(truncated.chars().count() < body.chars().count());
}

#[test]
fn mask_trims_and_counts_characters() {
    assert_eq!(mask_middle("  abcdefg  "), "abc***efg");
    assert_eq!(mask_middle("\u{3000}abcdef\t"), "***");
    assert_eq!(mask_middle("一二三四五六七"), "一二三***五六七");
    assert_eq!(mask_middle(""), "***");
    assert_eq!(mask_middle(&mask_middle("barkdevicekey")), "bar***key");
}

#[test]
fn only_the_last_notification_segment_is_masked() {
    assert_eq!(
        mask_notification_path("/a/notifications/abcdefgh/notifications/ijklmnop/x"),
        "/a/notifications/abcdefgh/notifications/ijk***nop/x"
    );
    assert_eq!(mask_notification_path("/a/notifications/"), "/a/notifications/***");
    assert_eq!(mask_notification_path("/notifications/notifications/x"), "/notifications/notifications/***");
    assert_eq!(mask_notification_path("/a/b"), "/a/b");
}

#[test]
fn a_body_at_the_limit_is_not_cut() {
    let body = "a".repeat(2_048);
    assert_eq!(truncate_log_body(&body), body);
    let longer = "a".repeat(2_049);
    assert_eq!(truncate_log_body(&longer).len(), 2_048 + 12);
}

#[test]
fn sensitive_names_are_found_in_any_case() {
    for key in ["key", "Key", "APIKEY", "token", "Access_Token"] {
        assert!(is_sensitive_query_key(key), "{key}");
    }
    for key in ["keys", "location", "device_key", ""] {
        assert!(!is_sensitive_query_key(key), "{key}");
    }
}

#[test]
fn redacted_pairs_keep_names_and_order() {
    let pairs = vec![
        ("b".to_string(), "1".to_string()),
        ("TOKEN".to_string(), "secret".to_string()),
        ("Device_Key".to_string(), "barkdevicekey".to_string()),
        ("b".to_string(), "2".to_string()),
    ];
    let redacted = redact_query_pairs(&pairs);
    let expected = vec![
        ("b".to_string(), "1".to_string()),
        ("TOKEN".to_string(), "***".to_string()),
        ("Device_Key".to_string(), "bar***key".to_string()),
        ("b".to_string(), "2".to_string()),
    ];
    assert_eq!(redacted, expected);
    assert_eq!(redact_query_pairs(&redacted), expected);
}

#[test]
fn redacted_url_is_read_back_with_its_redacted_pairs() {
    let redacted = redact_url("https://u@example.com:8080/p?token=a%26b&q=%E6%B5%8B+x&token=#f").unwrap();
    let url = url::Url::parse(&redacted).unwrap();
    let pairs: Vec<(String, String)> = url.query_pairs().into_owned().collect();
    assert_eq!(
        pairs,
        vec![
            ("token".to_string(), "***".to_string()),
            ("q".to_string(), "测 x".to_string()),
            ("token".to_string(), "***".to_string()),
        ]
    );
    assert_eq!(url.path(), "/p");
    assert_eq!(url.fragment(), Some("f"));
}

#[test]
fn url_without_query_gets_none() {
    assert_eq!(
        redact_url("https://Example.com/notifications/abcdefghij").as_deref(),
        Some("https://example.com/notifications/abc***hij")
    );
    assert_eq!(redact_url("not a url"), None);
}

#[test]
fn texts_that_are_no_urls_have_their_path_masked() {
    assert_eq!(redact_url_str("x/notifications/abcdefghij"), "x/notifications/abc***hij");
    assert_eq!(redact_url_str("https://h/?key=1"), "https://h/?key=***");
    assert_eq!(redact_http_uri("https://h/?key=1"), "https://h/?key=***");
    assert_eq!(redact_http_uri("/notifications/abcdefghij?key=1"), "/notifications/abc***hij?key=***");
    assert_eq!(redact_http_uri("*"), "*/");
}

#[test]
fn long_urls_are_redacted_like_short_ones() {
    let rest = "1".repeat(2_000_000);
    let long = format!("https://h/?token=x&a={rest}");
    let shown = format!("https://h/?token=***&a={rest}");
    assert_eq!(logged_url(&long), shown);
    assert_eq!(logged_uri(&long), shown);
    assert_eq!(logged_url("https://h/?key=1"), "https://h/?key=***");
    assert_eq!(logged_url("no/notifications/abcdefghij"), "no/notifications/abc***hij");
    assert_eq!(logged_uri("/p?token=1"), "/p?token=***");
    assert!(is_redactable(&long));
}

#[test]
fn room_is_counted_in_written_bytes() {
    assert_eq!(room_behind_path(10, "/a%20*~"), Some(3));
    assert_eq!(room_behind_path(7, "/a%20*~"), Some(0));
    assert_eq!(room_behind_path(6, "/a%20*~"), None);
    assert_eq!(room_behind_path(100, " ?\u{e9}测😀"), Some(100 - 3 - 3 - 6 - 9 - 12));
    let pairs = vec![("a b".to_string(), "*-._/".to_string()), (String::new(), String::new())];
    let mut url = url::Url::parse("http://h/").unwrap();
    url.query_pairs_mut().extend_pairs(&pairs);
    assert_eq!(url.as_str(), "http://h/?a+b=*-._%2F&=");
    let written = url.as_str().len() - "http://h/".len();
    assert_eq!(room_behind_pairs(20, &pairs), Some(20 - written as u64));
    assert_eq!(room_behind_pairs(written as u64 - 1, &pairs), None);
}

#[test]
fn urls_have_their_parts_where_they_had_them() {
    let url = "https://u:p@Example.com:8443/a/../b%2f/notifications/%41bcdefghij/x?token=s&&q=a+b#F";
    let shown = redact_url(url).unwrap();
    assert_eq!(
        shown,
        "https://u:p@example.com:8443/b%2f/notifications/%41***hij/x?token=***&q=a+b#F"
    );
    assert_eq!(redact_url(&shown).unwrap(), shown);
    assert_eq!(redact_url("http://h/a?&&#f").unwrap(), "http://h/a?&&#f");
    assert_eq!(redact_url("http://h").unwrap(), "http://h/");
    assert_eq!(
        redact_url("mailto:a@b/notifications/abcdefghij?key=1").unwrap(),
        "mailto:a@b/notifications/abc***hij?key=***"
    );
}

#[test]
fn web_addresses_that_differ_in_secrets_are_logged_alike() {
    let a = redact_url("https://h/notifications/abcAAAAxyz?key=1&q=2&token=u#f");
    let b = redact_url("https://h/notifications/abcBxyz/../abcBBxyz?key=other&q=2&token=#f");
    assert_eq!(a.as_deref(), Some("https://h/notifications/abc***xyz?key=***&q=2&token=***#f"));
    assert_eq!(a, b);
}

#[test]
fn json_keeps_everything_but_key_and_url() {
    let parsed = |text: &str| serde_json::from_str::<serde_json::Value>(text).unwrap();
    let value = mask_json(&parsed(
        r#"{"a":[1,2],"device_key":"barkdevicekey","n":1.5,"url":"https://h/?key=1"}"#,
    ));
    assert_eq!(value["device_key"], "bar***key");
    assert_eq!(value["url"], "https://h/?key=***");
    assert_eq!(value["n"], 1.5);
    assert_eq!(value["a"][1], 2);
    assert_eq!(
        mask_json_for_log(&parsed(r#"{"url":5, "device_key": "abcdefgh"}"#)),
        r#"{"device_key":"abc***fgh","url":5}"#
    );
    assert_eq!(mask_json(&parsed("[1,2]")), parsed("[1,2]"));
    assert_eq!(mask_json_for_log(&parsed("[1, 2]")), "[1,2]");
    assert_eq!(mask_json_for_log(&parsed(r#""device_key""#)), r#""device_key""#);
}

#[test]
fn json_is_masked_whatever_its_names_are() {
    let reserved = "$serde_json::private::RawValue";
    let mut payload = serde_json::Map::new();
    payload.insert("device_key".to_string(), serde_json::Value::from("barkdevicekey"));
    payload.insert(reserved.to_string(), serde_json::Value::from("no json"));
    payload.insert("url".to_string(), serde_json::Value::from("https://h/?token=1"));
    let value = serde_json::Value::Object(payload);
    let shown = mask_json(&value);
    assert_eq!(shown["device_key"], "bar***key");
    assert_eq!(shown[reserved], "no json");
    assert_eq!(shown["url"], "https://h/?token=***");
    assert_eq!(
        mask_json_for_log(&value),
        r#"{"$serde_json::private::RawValue":"no json","device_key":"bar***key","url":"https://h/?token=***"}"#
    );
}

#[test]
fn nested_json_is_masked_like_any_other() {
    let mut nested = serde_json::Value::Null;
    for _ in 0..1_000 {
        nested = serde_json::Value::Array(vec![nested]);
    }
    let mut payload = serde_json::Map::new();
    payload.insert("device_key".to_string(), serde_json::Value::from("barkdevicekey"));
    payload.insert("nested".to_string(), nested);
    let logged = mask_json_for_log(&serde_json::Value::Object(payload));
    assert!(logged.starts_with(r#"{"device_key":"bar***key","nested":[[["#));
    assert!(logged.contains("null]]]"));
}

#[test]
fn transport_errors_are_named_in_order() {
    assert_eq!(transport_error_kind(true, true, true), "timeout");
    assert_eq!(transport_error_kind(false, true, true), "connect");
    assert_eq!(transport_error_kind(false, false, true), "request");
    assert_eq!(transport_error_kind(false, false, false), "transport");
    assert_eq!(request_failed_message("bark", "timeout"), "bark request failed (timeout)");
    assert_eq!(size_limit_message("bark response"), "bark response exceeded size limit");
}

fn pending<'a>(url: &'a str, body: Option<&'a str>) -> PendingOutboundRequest<'a> {
    PendingOutboundRequest {
        target: "bark",
        method: "POST",
        log_url: url,
        request_body: body,
        level: LogLevel::Info,
    }
}

#[test]
fn lines_speak_of_their_request() {
    let failed = pending("https://h/", Some("{}")).emit_transport_error("connect", 7);
    assert_eq!(failed.error.as_deref(), Some("connect"));
    assert_eq!(failed.status, None);
    assert_eq!(failed.elapsed_ms, 7);
    assert_eq!(failed.request_body, Some("{}"));

    let answered = pending("https://h/", None).finish(200, 8, &b"ok\xff".to_vec());
    assert_eq!(answered.status, Some(200));
    assert_eq!(answered.response_body.as_deref(), Some("ok\u{fffd}"));
    assert_eq!(answered.error, None);

    let unread = pending("https://h/", None).finish_unread(502, 9, "broken");
    assert_eq!(unread.status, Some(502));
    assert_eq!(unread.error.as_deref(), Some("broken"));
    assert_eq!(unread.url, "https://h/");
    assert_eq!(unread.level, LogLevel::Info);
}

#[test]
fn bodies_are_read_up_to_their_limit() {
    assert!(LimitedBody::start(Some(11), 10).is_err());
    let body = LimitedBody::start(Some(10), 10).unwrap();
    let body = body.push_chunk(b"12345").unwrap();
    let body = body.push_chunk(b"67890").unwrap();
    assert_eq!(body.len(), 10);
    assert_eq!(body.into_bytes(), b"1234567890".to_vec());
    let body = LimitedBody::start(None, 4).unwrap().push_chunk(b"1234").unwrap();
    assert!(body.push_chunk(b"5").is_err());
}
