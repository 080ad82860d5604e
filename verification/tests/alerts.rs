use axum::http::{header::AUTHORIZATION, HeaderMap, HeaderValue};
use disaster_alert::api::Status;
use disaster_alert::models::{
    AdministrativeRegion, AlertRule, DisasterCategory, GeoPoint, IntensityBand, InterruptionLevel,
    MonitoringTarget, NotificationDestination, ProviderChannel, SourceSelection, Subscription,
};
use disaster_alert::simulate::{
    advance_send, arrival_at, builtin_major_records, dispatch_items, dispatch_outcome, event_source,
    find_history_record, historical_event, history_views, interruption_for_event,
    nearest_or_first_target, occurred_at_ms, parse_notify_level, plan_dispatch,
    require_device_keys, resolve_device_keys, send_result, simulated_event,
    simulation_distance_for_intensity, simulation_magnitude, start_send, target_intensity, test_interruption, DeviceListError, DispatchItem,
    HistoryPreview, SendEvent, SendResult, SendState, SendStep, SimulateMode, SimulatedHypocenter,
};
use disaster_alert::simulate_requests::{
    annotating_subscription, history_reply, open_history_request, open_simulate_request,
    parse_simulate_body, parse_simulate_mode, simulate_reply, HistoryQuery, SimulateData,
    SimulateQuery,
};
use disaster_alert::source_registry;
use disaster_alert::timestamp::{civil_from_unix_days, UtcTimestamp};

const TOKEN: &str = "test-bff-service-token";

fn bearer_headers(value: &str) -> HeaderMap {
    let mut headers = HeaderMap::new();
    headers.insert(
        AUTHORIZATION,
        HeaderValue::from_str(&format!("Bearer {value}")).unwrap(),
    );
    headers
}

fn warning_rule() -> AlertRule<f64> {
    AlertRule::EarthquakeWarning {
        sources: SourceSelection::All,
        estimated_intensity_bands: vec![
            IntensityBand { min: 1, max: 2, interruption_level: InterruptionLevel::Passive },
            IntensityBand { min: 3, max: 4, interruption_level: InterruptionLevel::Active },
            IntensityBand { min: 5, max: 12, interruption_level: InterruptionLevel::Critical },
        ],
    }
}

fn target(label: &str, latitude: f64, longitude: f64) -> MonitoringTarget<f64> {
    MonitoringTarget {
        label: label.to_string(),
        point: GeoPoint { latitude, longitude },
        region: Default::default(),
    }
}

fn subscription(alerts: Vec<AlertRule<f64>>) -> Subscription<f64> {
    Subscription::new(
        NotificationDestination::Bark {
            base_url: "https://api.day.app".to_string(),
            device_key: "abc123".to_string(),
        },
        vec![target("成都锦江", 30.5954, 104.0982)],
        alerts,
    )
}

fn strings(values: &[&str]) -> Vec<String> {
    values.iter().map(|value| value.to_string()).collect()
}

#[test]
fn utc_compact_round_trips_a_known_instant() {
    let stamp = UtcTimestamp::from_unix_seconds(1_788_017_584);
    assert_eq!(stamp.compact(), "20260829153304");
    assert_eq!(stamp.rfc3339_z(), "2026-08-29T15:33:04Z");
}

#[test]
fn dates_before_and_after_the_epoch() {
    assert_eq!(civil_from_unix_days(0), (1970, 1, 1));
    assert_eq!(civil_from_unix_days(-1), (1969, 12, 31));
    assert_eq!(civil_from_unix_days(11_016), (2000, 2, 29));
    assert_eq!(civil_from_unix_days(-25_508), (1900, 3, 1));
    assert_eq!(civil_from_unix_days(-719_528), (0, 1, 1));
    let before = UtcTimestamp::from_unix_seconds(-1);
    assert_eq!(before.rfc3339_z(), "1969-12-31T23:59:59Z");
    let negative = UtcTimestamp::from_unix_seconds(-62_167_219_201);
    assert_eq!(negative.compact(), "-0011231235959");
    let last = UtcTimestamp::from_unix_seconds(i64::MAX);
    assert_eq!((last.hour, last.minute, last.second), (15, 30, 7));
}

#[test]
fn builtin_catalog_contains_live_major_keys() {
    let records = builtin_major_records();
    let keys = records.iter().map(|record| record.key).collect::<Vec<_>>();
    assert_eq!(keys, ["yibin-gaoxian-2026", "wenchuan-2008", "tangshan-1976"]);
}

#[test]
fn historical_event_keeps_catalog_coordinates() {
    let records = builtin_major_records();
    let record = find_history_record(&records, "major", "yibin-gaoxian-2026").unwrap();
    let event = historical_event(record, "HIST-1", "2026-08-29T15:33:04Z");
    assert!(!event.training);
    assert_eq!(event.latitude.map(|value| value as f64 / 1_000.0), Some(28.5));
    assert_eq!(event.magnitude.map(|value| value as f64 / 1_000.0), Some(5.5));
    assert!(event.description.contains("2026-06-29 00:12:00"));
    assert_eq!(event.title, "地震预警 四川宜宾市高县地震");
    assert_eq!(event.source, "wolfx.cenc_eew");
    assert_eq!(event.level, 4);
}

#[test]
fn records_are_found_by_source_in_any_case_and_exact_key() {
    let records = builtin_major_records();
    assert!(find_history_record(&records, "MAJOR", "wenchuan-2008").is_some());
    assert!(find_history_record(&records, "major", "Wenchuan-2008").is_none());
    assert!(find_history_record(&records, "cenc", "wenchuan-2008").is_none());
}

#[test]
fn resolve_device_keys_defaults_to_bearer_and_rejects_empty_list() {
    assert_eq!(
        resolve_device_keys("abc123", None).ok(),
        Some(vec!["abc123".to_string()])
    );
    assert_eq!(
        resolve_device_keys("abc123", Some(Vec::new())),
        Err(DeviceListError::Empty)
    );
    assert_eq!(
        resolve_device_keys("abc123", Some(vec!["keyA".to_string(), "keyA".to_string()])).ok(),
        Some(vec!["keyA".to_string()])
    );
}

#[test]
fn listed_devices_are_checked_and_kept_in_order() {
    assert_eq!(require_device_keys(None), Err(DeviceListError::Missing));
    assert_eq!(
        require_device_keys(Some(strings(&[" b ", "a", "b", "c", "a"]))),
        Ok(strings(&["b", "a", "c"]))
    );
    assert_eq!(
        require_device_keys(Some(vec!["a".to_string(); 33])),
        Err(DeviceListError::TooMany)
    );
    assert_eq!(
        require_device_keys(Some(vec!["a".to_string(); 32])),
        Ok(strings(&["a"]))
    );
    for bad in ["", " ", "a b", "测", &"a".repeat(65)] {
        assert_eq!(
            require_device_keys(Some(strings(&["ok", bad]))),
            Err(DeviceListError::InvalidKey)
        );
    }
}

#[test]
fn notify_levels_are_named_in_any_case() {
    assert_eq!(parse_notify_level(" Passive"), Some(InterruptionLevel::Passive));
    assert_eq!(parse_notify_level("ACTIVE"), Some(InterruptionLevel::Active));
    assert_eq!(parse_notify_level("critical\n"), Some(InterruptionLevel::Critical));
    assert_eq!(parse_notify_level("loud"), None);
}

#[test]
fn empty_device_list_body_is_rejected_before_dispatch() {
    let body = br#"{"device_ID_list":[]}"#;
    let value: serde_json::Value = serde_json::from_slice(body).unwrap();
    let list = value["device_ID_list"].as_array().map(|items| {
        items.iter().filter_map(|item| item.as_str().map(str::to_string)).collect::<Vec<_>>()
    });
    let parsed = parse_simulate_body(body, Some(list));
    assert_eq!(parsed.ok(), Some(Some(Vec::new())));
}

#[test]
fn a_blank_body_lists_nothing() {
    assert_eq!(parse_simulate_body(b"", None), Ok(None));
    assert_eq!(parse_simulate_body(b" \t\r\n\x0c", None), Ok(None));
    assert_eq!(parse_simulate_body(b"{", None), Err("请求体无效"));
    assert_eq!(parse_simulate_body(b"{}", Some(None)), Ok(None));
}

fn simulate_query(level: Option<&str>, source: Option<&str>, key: Option<&str>) -> SimulateQuery {
    SimulateQuery {
        notify_level: level.map(str::to_string),
        source: source.map(str::to_string),
        key: key.map(str::to_string),
    }
}

#[test]
fn simulate_modes_are_mutually_exclusive() {
    let both = parse_simulate_mode(&simulate_query(
        Some("active"),
        Some("major"),
        Some("yibin-gaoxian-2026"),
    ));
    assert!(both.is_err());
    let neither = parse_simulate_mode(&simulate_query(None, None, None));
    assert!(neither.is_err());
    let history =
        parse_simulate_mode(&simulate_query(None, Some("major"), Some("yibin-gaoxian-2026")));
    assert!(matches!(
        history,
        Ok(SimulateMode::History { ref key, .. }) if key == "yibin-gaoxian-2026"
    ));
    let missing =
        parse_simulate_mode(&simulate_query(None, Some("major"), Some("not-a-real-quake")));
    assert_eq!(
        missing.err(),
        Some((Status::NotFound, "未找到该历史地震".to_string()))
    );
    let unsupported = parse_simulate_mode(&simulate_query(None, Some("cenc"), Some("No1")));
    assert_eq!(
        unsupported.err(),
        Some((Status::BadRequest, "不支持的历史目录".to_string()))
    );
}

#[test]
fn incomplete_modes_are_refused_in_their_own_words() {
    let refusal = |level, source, key| {
        parse_simulate_mode(&simulate_query(level, source, key)).err().map(|(_, message)| message)
    };
    assert_eq!(refusal(Some("loud"), None, None).as_deref(), Some("notify_level 无效"));
    assert_eq!(
        refusal(Some("active"), None, Some("k")).as_deref(),
        Some("notify_level 与 source、key 不能同时使用")
    );
    assert_eq!(
        refusal(None, Some("major"), Some(" ")).as_deref(),
        Some("历史回放需要同时提供 source 与 key")
    );
    assert_eq!(
        refusal(None, None, None).as_deref(),
        Some("请指定 notify_level 或 source 与 key")
    );
}

#[test]
fn simulate_without_bearer_fails() {
    let reply = open_simulate_request(
        &HeaderMap::new(),
        TOKEN,
        Some(simulate_query(Some("active"), None, None)),
        b"",
        None,
    )
    .unwrap_err();
    assert_eq!(reply.status, Status::Unauthorized);
    assert!(!reply.body.success);
    assert_eq!(reply.body.message, "服务凭证无效");
}

#[test]
fn simulate_with_bark_bearer_fails() {
    let reply = open_simulate_request(
        &bearer_headers("targetKey"),
        TOKEN,
        Some(simulate_query(Some("active"), None, None)),
        br#"{"device_ID_list":["targetKey"]}"#,
        Some(Some(strings(&["targetKey"]))),
    )
    .unwrap_err();
    assert_eq!(reply.status, Status::Unauthorized);
    assert_eq!(reply.body.message, "服务凭证无效");
}

#[test]
fn simulate_without_device_list_is_bad_request() {
    let reply = open_simulate_request(
        &bearer_headers(TOKEN),
        TOKEN,
        Some(simulate_query(Some("active"), None, None)),
        b"",
        None,
    )
    .unwrap_err();
    assert_eq!(reply.status, Status::BadRequest);
    assert_eq!(reply.body.message, "需要 device_ID_list");
}

#[test]
fn empty_device_list_is_bad_request() {
    let reply = open_simulate_request(
        &bearer_headers(TOKEN),
        TOKEN,
        Some(simulate_query(Some("active"), None, None)),
        br#"{"device_ID_list":[]}"#,
        Some(Some(Vec::new())),
    )
    .unwrap_err();
    assert_eq!(reply.status, Status::BadRequest);
    assert_eq!(reply.body.message, "device_ID_list 不能为空");
}

#[test]
fn unknown_history_key_is_not_found() {
    let reply = open_simulate_request(
        &bearer_headers(TOKEN),
        TOKEN,
        Some(simulate_query(None, Some("major"), Some("does-not-exist"))),
        br#"{"device_ID_list":["targetKey"]}"#,
        Some(Some(strings(&["targetKey"]))),
    )
    .unwrap_err();
    assert_eq!(reply.status, Status::NotFound);
    assert_eq!(reply.body.message, "未找到该历史地震");
}

#[test]
fn refused_requests_say_what_is_wrong() {
    let ask = |query, parsed: Option<Option<Vec<String>>>| {
        open_simulate_request(&bearer_headers(TOKEN), TOKEN, query, b"{}", parsed)
            .unwrap_err()
            .body
            .message
    };
    assert_eq!(ask(None, None), "查询参数无效");
    let active = || Some(simulate_query(Some("active"), None, None));
    assert_eq!(ask(active(), None), "请求体无效");
    assert_eq!(ask(active(), Some(Some(vec!["a".to_string(); 33]))), "device_ID_list 最多 32 个");
    assert_eq!(
        ask(active(), Some(Some(strings(&["a b"])))),
        "device_ID_list 含有无效 Bark Key"
    );
}

struct Sent {
    status: Status,
    success: bool,
    message: String,
    data: SimulateData,
    pushed_keys: Vec<String>,
}

/// Sends a test alert to devices with so many subscriptions.
fn sent(query: SimulateQuery, keys: &[&str], counts: Vec<usize>) -> Sent {
    let (mode, keys) = open_simulate_request(
        &bearer_headers(TOKEN),
        TOKEN,
        Some(query),
        b"{}",
        Some(Some(strings(keys))),
    )
    .unwrap();
    let plan = plan_dispatch(1_788_017_584_999, &mode).unwrap();
    let mut pushed_keys = Vec::new();
    let results = dispatch_items(&plan, &counts)
        .iter()
        .map(|item| {
            if let DispatchItem::Send { device, .. } = item {
                pushed_keys.push(keys[*device].clone());
            }
            send_result(item, true, true)
        })
        .collect::<Vec<_>>();
    let outcome = dispatch_outcome(plan, &results);
    let reply = simulate_reply(&mode, keys.len(), Some(outcome));
    Sent {
        status: reply.status,
        success: reply.body.success,
        message: reply.body.message,
        data: reply.body.data.unwrap(),
        pushed_keys,
    }
}

#[test]
fn unknown_listed_key_is_skipped() {
    let sent = sent(simulate_query(Some("active"), None, None), &["unknownKey"], vec![0]);
    assert_eq!(sent.status, Status::Succeeded);
    assert_eq!((sent.data.pushed, sent.data.skipped), (0, 1));
    assert!(sent.pushed_keys.is_empty());
}

#[test]
fn bearer_only_pushes_the_current_key() {
    let sent = sent(simulate_query(Some("active"), None, None), &["targetKey"], vec![1]);
    assert_eq!(sent.status, Status::Succeeded);
    assert!(sent.success);
    assert_eq!(sent.message, "已向当前 Bark Key 发送模拟预警");
    assert_eq!(sent.data.pushed, 1);
    assert_eq!(sent.data.skipped, 0);
    assert!(!sent.data.temporary);
    assert_eq!(sent.data.notify_level.as_deref(), Some("active"));
    let event_id = sent.data.event_id;
    assert!(event_id.starts_with("SIM-"), "event_id {event_id}");
    assert_eq!(event_id, "SIM-20260829153304");
    assert_eq!(sent.pushed_keys, vec!["targetKey".to_string()]);
}

#[test]
fn device_list_does_not_fan_out_to_other_subscribers() {
    let sent = sent(
        simulate_query(Some("critical"), None, None),
        &["targetKey", "missingKey"],
        vec![1, 0],
    );
    assert_eq!(sent.status, Status::Succeeded);
    assert_eq!(sent.message, "已发送模拟预警");
    assert_eq!((sent.data.pushed, sent.data.skipped), (1, 1));
    assert_eq!(sent.pushed_keys, vec!["targetKey".to_string()]);
}

#[test]
fn history_replay_uses_catalog_event_id() {
    let sent = sent(
        simulate_query(None, Some("major"), Some("yibin-gaoxian-2026")),
        &["targetKey"],
        vec![1],
    );
    assert_eq!(sent.status, Status::Succeeded);
    assert_eq!(sent.message, "已使用历史真实地震数据发送测试预警");
    assert_eq!(sent.data.pushed, 1);
    assert_eq!(sent.data.source.as_deref(), Some("major"));
    assert_eq!(sent.data.key.as_deref(), Some("yibin-gaoxian-2026"));
    let event_id = sent.data.event_id;
    assert!(
        event_id.starts_with("HIST-MAJOR-CENC-202606290012-"),
        "event_id {event_id}"
    );
    assert_eq!(sent.pushed_keys, vec!["targetKey".to_string()]);
}

#[test]
fn only_what_was_sent_counts_as_pushed() {
    let item = DispatchItem::Send { device: 0, subscription: 0, event_id: "e".to_string() };
    assert_eq!(send_result(&item, true, true), SendResult::Pushed);
    assert_eq!(send_result(&item, true, false), SendResult::Skipped);
    assert_eq!(send_result(&item, false, true), SendResult::Skipped);
    assert_eq!(send_result(&DispatchItem::Missing { device: 0 }, true, true), SendResult::Skipped);
}

#[test]
fn links_are_stored_before_they_are_sent() {
    let going_on = |step: SendStep<u8>| match step {
        SendStep::Wait(state) => state,
        other => panic!("{other:?}"),
    };
    assert!(matches!(start_send::<u8>(false), SendStep::Failed));
    let start = || going_on(start_send(true));
    assert!(matches!(advance_send(start(), SendEvent::Prepared(None)), SendStep::Failed));
    assert!(matches!(going_on(advance_send(start(), SendEvent::Sent(true))), SendState::Preparing));
    let storing = || going_on(advance_send(start(), SendEvent::Prepared(Some(7))));
    assert!(matches!(storing(), SendState::Storing { link: 7 }));
    assert!(matches!(advance_send(storing(), SendEvent::Stored(false)), SendStep::Failed));
    let sending = || going_on(advance_send(storing(), SendEvent::Stored(true)));
    assert!(matches!(sending(), SendState::Sending { link: 7 }));
    assert!(matches!(advance_send(sending(), SendEvent::Sent(false)), SendStep::Failed));
    assert!(matches!(advance_send(sending(), SendEvent::Sent(true)), SendStep::Done));
}

#[test]
fn rfc3339_texts_sort_as_moments() {
    let seconds = [0, 59, 60, 86_399, 951_782_400, 1_788_017_584, 253_402_300_799];
    let texts =
        seconds.map(|seconds| UtcTimestamp::from_unix_seconds(seconds).rfc3339_z());
    for pair in texts.windows(2) {
        assert!(pair[0] < pair[1], "{pair:?}");
    }
    assert_eq!(texts[6], "9999-12-31T23:59:59Z");
    for (seconds, text) in seconds.iter().zip(&texts) {
        assert_eq!(text.len(), 20);
        assert_eq!(
            text.replace(['-', 'T', ':', 'Z'], ""),
            UtcTimestamp::from_unix_seconds(*seconds).compact()
        );
    }
}

#[test]
fn alerts_interrupt_actively_unless_asked_otherwise() {
    let simulation = SimulateMode::NotifyLevel(InterruptionLevel::Critical);
    let plan = plan_dispatch(0, &simulation).unwrap();
    assert_eq!(plan.requested_level(), InterruptionLevel::Critical);
    let replay = SimulateMode::History {
        source: "major".to_string(),
        key: "tangshan-1976".to_string(),
    };
    let plan = plan_dispatch(0, &replay).unwrap();
    assert_eq!(plan.requested_level(), InterruptionLevel::Active);
}

#[test]
fn devices_get_events_of_their_own() {
    let mode = SimulateMode::NotifyLevel(InterruptionLevel::Active);
    let plan = plan_dispatch(-1, &mode).unwrap();
    assert_eq!(plan.occurred_at, "1969-12-31T23:59:59Z");
    let items = dispatch_items(&plan, &vec![2, 0, 1]);
    let shown = items
        .iter()
        .map(|item| match item {
            DispatchItem::Missing { device } => format!("{device} missing"),
            DispatchItem::Send { device, subscription, event_id } => {
                format!("{device}.{subscription} {event_id}")
            }
        })
        .collect::<Vec<_>>();
    assert_eq!(
        shown,
        [
            "0.0 SIM-19691231235959",
            "0.1 SIM-19691231235959",
            "1 missing",
            "2.0 SIM-19691231235959-2",
        ]
    );
}

#[test]
fn a_replay_needs_its_record() {
    let mode = SimulateMode::History { source: "major".to_string(), key: "gone".to_string() };
    assert!(plan_dispatch(0, &mode).is_err());
    let mode = SimulateMode::History {
        source: "Major".to_string(),
        key: "tangshan-1976".to_string(),
    };
    let plan = plan_dispatch(0, &mode).unwrap();
    assert_eq!(plan.event_id, "HIST-MAJOR-USGS-Tangshan-1976-19700101000000");
    assert_eq!(plan.source.as_deref(), Some("Major"));
    let items = dispatch_items(&plan, &vec![1, 1]);
    for item in &items {
        match item {
            DispatchItem::Send { event_id, .. } => assert_eq!(event_id, &plan.event_id),
            DispatchItem::Missing { .. } => panic!("every device has a subscription"),
        }
    }
    let failed = simulate_reply(&mode, 1, None);
    assert_eq!(failed.status, Status::InternalServerError);
    assert_eq!(failed.body.message, "模拟推送暂时无法完成");
}

#[test]
fn history_catalog_is_public_and_can_annotate_a_subscription() {
    let asked = |headers: HeaderMap| {
        open_history_request::<f64>(
            &headers,
            Some(HistoryQuery { source: Some("major".to_string()) }),
        )
    };
    assert_eq!(asked(HeaderMap::new()).ok(), Some(None));
    assert_eq!(asked(bearer_headers("targetKey")).ok(), Some(Some("targetKey".to_string())));

    let records = builtin_major_records();
    let reply = history_reply(Some(history_views(&records, None, &vec![None, None, None])));
    assert_eq!(reply.status, Status::Succeeded);
    let data = reply.body.data.unwrap();
    assert_eq!(data.records.len(), 3);
    assert!(data.records[0].distance_km.is_none());
    assert_eq!(data.source, "major");

    let preview = HistoryPreview {
        distance_km: 240_100,
        hypocentral_km: 240_200,
        estimated_intensity: 2_500,
    };
    let place = MonitoringTarget {
        label: "成都锦江".to_string(),
        point: GeoPoint { latitude: 30_595, longitude: 104_098 },
        region: AdministrativeRegion::default(),
    };
    let destination = || NotificationDestination::Bark {
        base_url: "https://api.day.app".to_string(),
        device_key: "abc123".to_string(),
    };
    let measured = vec![Some(preview), None, None];
    let placeless = Subscription::new(destination(), Vec::new(), Vec::new());
    assert!(history_views(&records, Some(&placeless), &measured)[0].distance_km.is_none());
    assert!(history_views(&records, None, &measured)[0].distance_km.is_none());
    let subscription = Subscription::new(destination(), vec![place], Vec::new());
    let annotated = history_views(&records, Some(&subscription), &measured);
    assert_eq!(annotated[0].distance_km, Some(240_100));
    assert_eq!(annotated[0].hypocentral_km, Some(240_200));
    assert_eq!(annotated[0].estimated_intensity, Some(2_500));
    assert_eq!(annotated[0].key, "yibin-gaoxian-2026");
    assert_eq!(annotated[1].latitude, 31_002);
    assert_eq!(annotated[1].note, "2008年汶川地震，USGS Mw7.9；中国地震局常用表述为 Ms8.0。");
}

#[test]
fn unsupported_history_source_is_rejected() {
    let ask = |headers: HeaderMap, source: Option<&str>| {
        open_history_request::<f64>(
            &headers,
            Some(HistoryQuery { source: source.map(str::to_string) }),
        )
        .unwrap_err()
    };
    let reply = ask(HeaderMap::new(), Some("cenc"));
    assert_eq!(reply.status, Status::BadRequest);
    assert_eq!(reply.body.message, "不支持的历史目录");
    let reply = ask(HeaderMap::new(), None);
    assert_eq!(reply.body.message, "请指定历史目录 source=major");
    let reply = ask(bearer_headers("a b"), Some("MAJOR"));
    assert_eq!(reply.status, Status::Unauthorized);
    assert_eq!(reply.body.message, "Bark Key 验证失败");
    let failed = history_reply::<f64>(None);
    assert_eq!(failed.status, Status::InternalServerError);
    assert_eq!(failed.body.message, "历史目录暂时无法获取");
}

#[test]
fn the_last_subscription_annotates() {
    let mut first = subscription(Vec::new());
    first.targets[0].label = "first".to_string();
    let chosen = annotating_subscription(vec![first, subscription(Vec::new())]);
    assert_eq!(chosen.unwrap().targets[0].label, "成都锦江");
    assert!(annotating_subscription::<f64>(Vec::new()).is_none());
}

#[test]
fn simulated_events_aim_at_the_requested_band() {
    let rule = warning_rule();
    let subscription = subscription(vec![warning_rule()]);
    for (level, wanted) in [
        (InterruptionLevel::Passive, 2),
        (InterruptionLevel::Active, 3),
        (InterruptionLevel::Critical, 5),
    ] {
        let intensity = target_intensity(&rule, level);
        assert_eq!(intensity, wanted);
        assert_eq!(
            interruption_for_event(
                &subscription,
                DisasterCategory::EarthquakeWarning,
                Some(intensity)
            ),
            Some(level)
        );
        let event = simulated_event(
            &subscription,
            &rule,
            level,
            "SIM-1",
            "2026-08-29T15:33:04Z",
            SimulatedHypocenter { latitude: 31.0, magnitude: 4.6, depth_km: 10.0 },
        )
        .unwrap();
        assert!(event.training);
        assert_eq!(event.longitude, Some(104.0982));
        assert_eq!(event.latitude, Some(31.0));
        assert_eq!(event.title, format!("地震预警 模拟震源（{} 测试）", level.as_str()));
        assert_eq!(
            source_registry::find(&event.source).map(|source| source.category),
            Some(DisasterCategory::EarthquakeWarning)
        );
    }
    let empty = Subscription::new(
        NotificationDestination::Bark { base_url: String::new(), device_key: String::new() },
        Vec::new(),
        Vec::new(),
    );
    assert!(simulated_event(
        &empty,
        &rule,
        InterruptionLevel::Active,
        "SIM-1",
        "",
        SimulatedHypocenter { latitude: 31.0, magnitude: 4.6, depth_km: 10.0 },
    )
    .is_none());
}

#[test]
fn rules_without_bands_have_fixed_intensities() {
    let rule: AlertRule<f64> = AlertRule::Tsunami { sources: SourceSelection::All, min_severity: 1 };
    assert_eq!(target_intensity(&rule, InterruptionLevel::Passive), 1);
    assert_eq!(target_intensity(&rule, InterruptionLevel::Active), 2);
    assert_eq!(target_intensity(&rule, InterruptionLevel::Critical), 3);
    let wide: AlertRule<f64> = AlertRule::EarthquakeWarning {
        sources: SourceSelection::All,
        estimated_intensity_bands: vec![IntensityBand {
            min: 200,
            max: 250,
            interruption_level: InterruptionLevel::Active,
        }],
    };
    assert_eq!(target_intensity(&wide, InterruptionLevel::Active), 127);
    assert_eq!(target_intensity(&wide, InterruptionLevel::Critical), 3);
    assert_eq!(simulation_magnitude(InterruptionLevel::Passive), (36, 120));
    assert_eq!(simulation_magnitude(InterruptionLevel::Active), (46, 100));
    assert_eq!(simulation_magnitude(InterruptionLevel::Critical), (62, 100));
}

#[test]
fn test_alerts_interrupt_as_asked_where_the_rule_is_silent() {
    let subscription = subscription(vec![warning_rule()]);
    let warning = DisasterCategory::EarthquakeWarning;
    let asked = InterruptionLevel::Active;
    assert_eq!(test_interruption(&subscription, warning, Some(1), asked), InterruptionLevel::Passive);
    assert_eq!(test_interruption(&subscription, warning, Some(0), asked), asked);
    assert_eq!(test_interruption(&subscription, warning, None, asked), asked);
    assert_eq!(test_interruption(&subscription, DisasterCategory::Tsunami, Some(1), asked), asked);
}

#[test]
fn sources_of_test_alerts() {
    let (channel, source) = event_source(&warning_rule());
    assert_eq!((channel, source.as_str()), (ProviderChannel::Wolfx, "wolfx.jma_eew"));
    let listed = |ids: &[&str]| {
        let rule: AlertRule<f64> = AlertRule::EarthquakeWarning {
            sources: SourceSelection::Include { ids: strings(ids) },
            estimated_intensity_bands: Vec::new(),
        };
        event_source(&rule)
    };
    assert_eq!(
        listed(&["nope", "huania.earlywarning"]),
        (ProviderChannel::Huania, "huania.earlywarning".to_string())
    );
    assert_eq!(
        listed(&["wolfx.cenc_eqlist", "wolfx.sc_eew"]),
        (ProviderChannel::Wolfx, "wolfx.cenc_eew".to_string())
    );
    let (_, typhoon) = event_source(&AlertRule::Typhoon {
        sources: SourceSelection::All,
        max_center_distance_km: 1.0,
    });
    assert_eq!(typhoon, "wolfx.cenc_eew");
}

#[test]
fn distances_hit_or_come_close() {
    assert_eq!(simulation_distance_for_intensity(&vec![6, 5, 4, 4, 3], 4), 3);
    assert_eq!(simulation_distance_for_intensity(&vec![9, 7, 7, 2], 5), 2);
    assert_eq!(simulation_distance_for_intensity(&vec![-200, 300], 5), 1);
    assert_eq!(simulation_distance_for_intensity(&vec![-200, 100, 90], 1), 3);
    assert_eq!(simulation_distance_for_intensity(&Vec::new(), 5), 1);
}

#[test]
fn nearest_targets_come_first() {
    let mut subscription = subscription(Vec::new());
    subscription.targets.push(target("b", 1.0, 1.0));
    subscription.targets.push(target("c", 2.0, 2.0));
    assert_eq!(nearest_or_first_target(&subscription, None), Some(0));
    assert_eq!(nearest_or_first_target(&subscription, Some(&vec![3, 1, 1])), Some(1));
    assert_eq!(nearest_or_first_target(&subscription, Some(&vec![3, 3, 3])), Some(0));
    subscription.targets.clear();
    assert_eq!(nearest_or_first_target(&subscription, Some(&Vec::new())), None);
}

#[test]
fn arrivals_saturate() {
    assert_eq!(arrival_at(1_000, Some(500)), 1_500);
    assert_eq!(arrival_at(1_000, None), 1_000);
    assert_eq!(arrival_at(i64::MAX, Some(1)), i64::MAX);
    assert_eq!(arrival_at(i64::MIN, Some(-1)), i64::MIN);
    assert_eq!(occurred_at_ms(Some(2), 7), 2_000);
    assert_eq!(occurred_at_ms(None, 7), 7);
    assert_eq!(occurred_at_ms(Some(i64::MAX), 7), i64::MAX);
    assert_eq!(occurred_at_ms(Some(i64::MIN), 7), i64::MIN);
}
