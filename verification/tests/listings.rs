use axum::extract::Query;
use axum::http::{header::AUTHORIZATION, HeaderMap, HeaderValue};
use disaster_alert::admin_subscriptions::{
    device_keys_reply, open_subscriptions_request, parse_admin_subscription_query,
    subscriptions_reply, AdminSubscriptionQuery,
};
use disaster_alert::api::{Status, StoreOutcome};
use disaster_alert::deliveries::{
    deliveries_reply, open_deliveries_request, parse_admin_delivery_query, parse_delivery_query,
    AdminDeliveryQuery, DeliveryQuery, DeviceDeliveryRecord,
};
use disaster_alert::events::{
    decode_cursor, encode_cursor, events_page, events_reply, incidents_to_ask_for, parse_event_query, EventQuery,
};
use disaster_alert::models::{
    AlertRule, DisasterCategory, DisasterEvent, GeoPoint, IncidentRecord, InterruptionLevel,
    MonitoringTarget, NotificationDestination, ProviderChannel, SourceSelection, Subscription,
};

fn bearer_headers(device_key: &str) -> HeaderMap {
    let mut headers = HeaderMap::new();
    headers.insert(
        AUTHORIZATION,
        HeaderValue::from_str(&format!("Bearer {device_key}")).unwrap(),
    );
    headers
}

fn pairs_of(uri: &str) -> std::collections::HashMap<String, String> {
    let uri: axum::http::Uri = uri.parse().unwrap();
    let Query(pairs) = Query::<std::collections::HashMap<String, String>>::try_from_uri(&uri).unwrap();
    pairs
}

fn subscription(device_key: &str, base_url: &str) -> Subscription<f64> {
    Subscription::new(
        NotificationDestination::Bark {
            base_url: base_url.to_string(),
            device_key: device_key.to_string(),
        },
        vec![MonitoringTarget {
            label: "home".to_string(),
            point: GeoPoint { latitude: 31.2, longitude: 121.5 },
            region: Default::default(),
        }],
        vec![AlertRule::EarthquakeReport { sources: SourceSelection::All, min_magnitude: 3.0 }],
    )
}

#[test]
fn missing_or_invalid_device_key_is_rejected() {
    let pairs = pairs_of("/api/admin/subscriptions");
    let query = pairs
        .get("device_key")
        .map(|key| AdminSubscriptionQuery { device_key: key.clone() });
    let (status, _) = parse_admin_subscription_query(query).unwrap_err();
    assert_eq!(status, Status::BadRequest);

    let (status, message) = parse_admin_subscription_query(Some(AdminSubscriptionQuery {
        device_key: "bad key".to_string(),
    }))
    .unwrap_err();
    assert_eq!(status, Status::BadRequest);
    assert_eq!(message, "Bark Key 只能包含字母、数字");
}

#[test]
fn invalid_limit_and_missing_admin_key_are_rejected() {
    let pairs = pairs_of("/api/deliveries?limit=0");
    let limit = pairs.get("limit").map(|limit| limit.parse::<u16>().unwrap());
    let (status, message) = parse_delivery_query(Some(DeliveryQuery { limit })).unwrap_err();
    assert_eq!(status, Status::BadRequest);
    assert_eq!(message, "limit 必须是 1 到 200 的整数");

    let pairs = pairs_of("/api/admin/deliveries");
    let query = pairs
        .get("device_key")
        .map(|key| AdminDeliveryQuery { device_key: key.clone(), limit: None });
    let (status, _) = parse_admin_delivery_query(query).unwrap_err();
    assert_eq!(status, Status::BadRequest);
}

#[test]
fn an_empty_admin_key_stands_for_all_devices() {
    let all = parse_admin_delivery_query(Some(AdminDeliveryQuery {
        device_key: " ".to_string(),
        limit: None,
    }));
    assert_eq!(all, Ok((None, 50)));
    let one = parse_admin_delivery_query(Some(AdminDeliveryQuery {
        device_key: " abc123".to_string(),
        limit: Some(200),
    }));
    assert_eq!(one, Ok((Some("abc123".to_string()), 200)));
    let (_, message) = parse_admin_delivery_query(Some(AdminDeliveryQuery {
        device_key: "a b".to_string(),
        limit: Some(0),
    }))
    .unwrap_err();
    assert_eq!(message, "Bark Key 只能包含字母、数字");
    let (_, message) = parse_admin_delivery_query(Some(AdminDeliveryQuery {
        device_key: "ab".to_string(),
        limit: Some(201),
    }))
    .unwrap_err();
    assert_eq!(message, "limit 必须是 1 到 200 的整数");
}

#[test]
fn admin_subscriptions_missing_bearer_is_unauthorized() {
    let reply = open_subscriptions_request::<f64>(&HeaderMap::new()).unwrap_err();
    assert_eq!(reply.status, Status::Unauthorized);
    assert!(!reply.body.success);
    assert_eq!(reply.body.message, "Bark Key 验证失败");
}

#[test]
fn invalid_bearer_is_unauthorized() {
    let reply = open_subscriptions_request::<f64>(&bearer_headers("bad key")).unwrap_err();
    assert_eq!(reply.status, Status::Unauthorized);
    assert!(!reply.body.success);
    assert_eq!(reply.body.message, "Bark Key 验证失败");
}

#[test]
fn deliveries_missing_bearer_is_unauthorized() {
    let reply =
        open_deliveries_request::<f64>(&HeaderMap::new(), Some(DeliveryQuery { limit: None }))
            .unwrap_err();
    assert_eq!(reply.status, Status::Unauthorized);
    assert!(!reply.body.success);
    assert_eq!(reply.body.message, "Bark Key 验证失败");
}

#[test]
fn deliveries_are_asked_for_by_the_shown_key() {
    let asked =
        open_deliveries_request::<f64>(&bearer_headers("abc123"), Some(DeliveryQuery { limit: Some(7) }));
    assert_eq!(asked.ok(), Some(("abc123".to_string(), 7)));
    let unread = open_deliveries_request::<f64>(&bearer_headers("abc123"), None).unwrap_err();
    assert_eq!(unread.status, Status::BadRequest);
    assert_eq!(unread.body.message, "查询参数无效");
}

#[test]
fn device_key_list_is_empty_when_nothing_is_active() {
    let reply = device_keys_reply(StoreOutcome::Loaded(Vec::new()));
    assert_eq!(reply.status, Status::Succeeded);
    assert!(reply.body.success);
    assert_eq!(reply.body.message, "Bark Key 列表获取成功");
    assert!(reply.body.data.unwrap().device_keys.is_empty());
    let busy = device_keys_reply(StoreOutcome::Busy);
    assert_eq!(busy.status.code(), 503);
    assert_eq!(busy.body.message, "订阅存储繁忙，请稍后重试");
    let failed = device_keys_reply(StoreOutcome::Failed);
    assert_eq!(failed.status.code(), 500);
    assert_eq!(failed.body.message, "订阅列表暂时无法获取");
}

#[test]
fn bearer_lookup_returns_active_subscriptions() {
    assert_eq!(
        open_subscriptions_request::<f64>(&bearer_headers("abc123")).ok(),
        Some("abc123".to_string())
    );
    let reply = subscriptions_reply(StoreOutcome::Loaded(vec![
        subscription("abc123", "https://api.day.app"),
        subscription("abc123", "https://bark.example.com"),
    ]));
    assert_eq!(reply.status, Status::Succeeded);
    assert!(reply.body.success);
    assert_eq!(reply.body.message, "订阅详情获取成功");
    let subscriptions = reply.body.data.unwrap().subscriptions;
    assert_eq!(subscriptions.len(), 2);
    assert!(subscriptions.iter().all(|item| item.device_key() == "abc123"));
}

#[test]
fn admin_lookup_returns_ok_with_success_false_for_unknown_key() {
    let key = parse_admin_subscription_query(Some(AdminSubscriptionQuery {
        device_key: "unknownkey".to_string(),
    }));
    assert_eq!(key, Ok("unknownkey".to_string()));
    let reply = subscriptions_reply::<f64>(StoreOutcome::Loaded(Vec::new()));
    assert_eq!(reply.status, Status::Succeeded);
    assert!(!reply.body.success);
    assert_eq!(reply.body.message, "订阅不存在或已取消");
    assert!(reply.body.data.is_none());
    let failed = subscriptions_reply::<f64>(StoreOutcome::Failed);
    assert_eq!(failed.status, Status::InternalServerError);
    assert_eq!(failed.body.message, "订阅详情暂时无法获取");
}

fn delivery() -> DeviceDeliveryRecord<f64> {
    DeviceDeliveryRecord {
        delivered_at_ms: 1_700_000_000_000,
        incident_id: "i1".to_string(),
        category: DisasterCategory::EarthquakeReport,
        source: None,
        event_id: None,
        title: None,
        interruption_level: InterruptionLevel::Critical,
        distance_km: 12.3,
        estimated_intensity: 3.5,
        target_label: Some("home".to_string()),
        bark_base_url: "https://api.day.app".to_string(),
        device_key: "abc123".to_string(),
    }
}

#[test]
fn bearer_lookup_returns_newest_delivery() {
    let reply = deliveries_reply(StoreOutcome::Loaded(Some(vec![delivery()])), false);
    assert_eq!(reply.status, Status::Succeeded);
    assert!(reply.body.success);
    assert_eq!(reply.body.message, "推送记录获取成功");
    let deliveries = reply.body.data.unwrap().deliveries;
    assert_eq!(deliveries.len(), 1);
    assert_eq!(deliveries[0].category.as_str(), "earthquake_report");
    assert_eq!(deliveries[0].interruption_level.as_str(), "critical");
    assert_eq!(deliveries[0].distance_km, 12.3);
    assert_eq!(deliveries[0].estimated_intensity, 3.5);
    assert_eq!(deliveries[0].target_label.as_deref(), Some("home"));
    assert_eq!(deliveries[0].bark_base_url, "https://api.day.app");
    assert_eq!(deliveries[0].device_key, None);

    let unknown = deliveries_reply::<f64>(StoreOutcome::Loaded(None), false);
    assert_eq!(unknown.status, Status::NotFound);
    assert!(!unknown.body.success);
    assert_eq!(unknown.body.message, "未找到该 Bark Key 的订阅");
}

#[test]
fn operators_see_the_key_of_a_delivery() {
    let reply = deliveries_reply(StoreOutcome::Loaded(Some(vec![delivery()])), true);
    let deliveries = reply.body.data.unwrap().deliveries;
    assert_eq!(deliveries[0].device_key.as_deref(), Some("abc123"));
    let busy = deliveries_reply::<f64>(StoreOutcome::Busy, true);
    assert_eq!(busy.status, Status::ServiceUnavailable);
    let failed = deliveries_reply::<f64>(StoreOutcome::Failed, true);
    assert_eq!(failed.body.message, "推送记录暂时无法获取");
}

fn any_id(id: &str) -> Option<String> {
    if id.is_empty() {
        None
    } else {
        Some(id.to_string())
    }
}

#[test]
fn invalid_limit_is_rejected() {
    let pairs = pairs_of("/api/events?limit=0");
    let limit = pairs.get("limit").map(|limit| limit.parse::<u16>().unwrap());
    let (status, message) =
        parse_event_query(Some(EventQuery { limit, cursor: None }), any_id).unwrap_err();
    assert_eq!(status, Status::BadRequest);
    assert_eq!(message, "limit 必须是 1 到 200 的整数");
}

#[test]
fn invalid_cursor_is_rejected() {
    let pairs = pairs_of("/api/events?cursor=not-a-cursor");
    let (status, message) = parse_event_query(
        Some(EventQuery { limit: None, cursor: pairs.get("cursor").cloned() }),
        any_id,
    )
    .unwrap_err();
    assert_eq!(status, Status::BadRequest);
    assert_eq!(message, "cursor 无效");
}

#[test]
fn cursors_are_read_back() {
    for ms in [0, -1, 1_700_000_000_123, i64::MIN, i64::MAX] {
        let cursor = encode_cursor(ms, "a_b");
        assert_eq!(decode_cursor(&cursor, any_id), Some((ms, "a_b".to_string())));
    }
    assert_eq!(encode_cursor(-12, "x"), "-12_x");
    assert_eq!(decode_cursor("+7_x", any_id), Some((7, "x".to_string())));
    assert_eq!(decode_cursor("9223372036854775808_x", any_id), None);
    assert_eq!(decode_cursor("-_x", any_id), None);
    assert_eq!(decode_cursor("7x", any_id), None);
    assert_eq!(decode_cursor("7_", any_id), None);
}

#[test]
fn an_empty_cursor_begins_at_the_start() {
    let parsed = parse_event_query(
        Some(EventQuery { limit: Some(2), cursor: Some(String::new()) }),
        any_id,
    );
    assert_eq!(parsed, Ok((2, None)));
    let parsed = parse_event_query(
        Some(EventQuery { limit: None, cursor: Some("5_i".to_string()) }),
        any_id,
    );
    assert_eq!(parsed, Ok((50, Some((5, "i".to_string())))));
    let (_, message) = parse_event_query(None, any_id).unwrap_err();
    assert_eq!(message, "查询参数无效");
}

fn report(event_id: &str, title: &str) -> DisasterEvent<f64> {
    DisasterEvent {
        category: DisasterCategory::EarthquakeReport,
        channel: ProviderChannel::Wolfx,
        source: "wolfx.cenc_eqlist".to_string(),
        event_id: event_id.to_string(),
        revision: "1".to_string(),
        report_num: 1,
        title: title.to_string(),
        description: format!("{title} description"),
        latitude: Some(25.0),
        longitude: Some(80.0),
        magnitude: Some(5.5),
        depth_km: Some(10.0),
        affected_regions: vec!["四川".to_string()],
        radius_km: None,
        level: 2,
        occurred_at: "2026-01-01T00:00:00Z".to_string(),
        final_report: false,
        cancel: false,
        training: false,
    }
}

fn incident(id: &str, title: &str, updated_at_ms: i64) -> IncidentRecord<f64, u32> {
    IncidentRecord {
        id: id.to_string(),
        category: DisasterCategory::EarthquakeReport,
        first_seen_at_ms: 1,
        updated_at_ms,
        has_matched_subscribers: false,
        latest_by_source: vec![report(id, title)],
        timeline: vec![1, 2],
    }
}

#[test]
fn empty_store_returns_an_empty_event_list() {
    let reply = events_reply::<f64, u32>(StoreOutcome::Loaded(Vec::new()), 50);
    assert_eq!(reply.status, Status::Succeeded);
    assert!(reply.body.success);
    let data = reply.body.data.unwrap();
    assert!(data.events.is_empty());
    assert!(data.next_cursor.is_none());
    let failed = events_reply::<f64, u32>(StoreOutcome::Failed, 50);
    assert_eq!(failed.body.message, "事件详情暂时无法获取");
    assert_eq!(events_reply::<f64, u32>(StoreOutcome::Busy, 50).status, Status::ServiceUnavailable);
}

#[test]
fn two_incidents_include_event_details_newest_first() {
    let page = events_page(vec![incident("b", "newer", 2), incident("a", "older", 1)], 50);
    assert_eq!(page.events.len(), 2);
    assert_eq!(page.events[0].latest[0].title, "newer");
    assert_eq!(page.events[0].latest[0].source, "wolfx.cenc_eqlist");
    assert_eq!(page.events[0].latest[0].latitude, Some(25.0));
    assert_eq!(page.events[0].latest[0].longitude, Some(80.0));
    assert_eq!(page.events[0].latest[0].description, "newer description");
    assert_eq!(page.events[0].timeline, vec![1, 2]);
    assert_eq!(page.events[1].latest[0].title, "older");
    assert!(page.next_cursor.is_none());
}

#[test]
fn cursor_walks_through_pages_without_overlap_or_gaps() {
    let titles = ["title-4", "title-3", "title-2", "title-1", "title-0"];
    let mut seen = Vec::new();
    let mut cursor: Option<(i64, String)> = None;
    loop {
        let found = titles
            .iter()
            .enumerate()
            .map(|(index, title)| incident(&format!("quake-{index}"), title, 100 - index as i64))
            .skip_while(|incident| {
                cursor.as_ref().is_some_and(|(ms, _)| incident.updated_at_ms >= *ms)
            })
            .take(incidents_to_ask_for(2))
            .collect::<Vec<_>>();
        let page = events_page(found, 2);
        for event in &page.events {
            seen.push(event.latest[0].title.clone());
        }
        match page.next_cursor {
            Some(next) => {
                assert_eq!(page.events.len(), 2);
                cursor = decode_cursor(&next, any_id);
            }
            None => break,
        }
        assert!(cursor.is_some());
    }
    assert_eq!(seen, titles);
}
