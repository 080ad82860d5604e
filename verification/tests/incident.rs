use axum::http::header;
use disaster_alert::api::Status;
use disaster_alert::incident::{
    advance_detail, apply_detail_headers, detail_error, detail_not_found, detail_response, detail_unavailable,
    public_rule, public_sources, start_detail, DetailEvent, DetailOutcome, DetailResponse,
    DetailState, DetailStep, LinkOutcome, NotificationEventSnapshot,
    NotificationIntensityBandSnapshot, NotificationRuleSnapshot, NotificationSnapshot,
    NotificationSourcesSnapshot, NotificationTargetSnapshot, NotificationTimingSnapshot,
};
use disaster_alert::models::{
    AlertRule, DisasterCategory, DisasterEvent, IncidentRecord, InterruptionLevel,
    ProviderChannel, SourceSelection,
};

fn assert_private_headers<T>(response: &DetailResponse<T>) {
    let shown = |name: &str| {
        response.headers.get(name).and_then(|value| value.to_str().ok()).map(str::to_string)
    };
    assert_eq!(shown("cache-control").as_deref(), Some("private, no-store"));
    assert_eq!(shown("referrer-policy").as_deref(), Some("no-referrer"));
    assert_eq!(shown("x-robots-tag").as_deref(), Some("noindex, nofollow, noarchive"));
    assert_eq!(shown("pragma").as_deref(), Some("no-cache"));
    assert_eq!(shown("expires").as_deref(), Some("0"));
    assert_eq!(shown("x-content-type-options").as_deref(), Some("nosniff"));
    assert_eq!(shown("x-frame-options").as_deref(), Some("DENY"));
    assert_eq!(response.headers.len(), 7);
}

#[test]
fn public_rule_uses_api_field_names() {
    let rule = public_rule::<f64>(&NotificationRuleSnapshot::EarthquakeWarning {
        sources: NotificationSourcesSnapshot::All,
        intensity_bands: vec![NotificationIntensityBandSnapshot {
            min: 3,
            max: 7,
            interruption_level: InterruptionLevel::Critical,
        }],
    });
    assert_eq!(rule.category().as_str(), "earthquake_warning");
    assert!(matches!(rule.sources(), SourceSelection::All));
    match rule {
        AlertRule::EarthquakeWarning { estimated_intensity_bands, .. } => {
            assert_eq!(estimated_intensity_bands.len(), 1);
            assert_eq!(estimated_intensity_bands[0].min, 3);
            assert_eq!(estimated_intensity_bands[0].max, 7);
            assert_eq!(
                estimated_intensity_bands[0].interruption_level,
                InterruptionLevel::Critical
            );
        }
        other => panic!("{other:?}"),
    }
}

#[test]
fn every_rule_is_shown_as_it_was_stored() {
    let ids = || NotificationSourcesSnapshot::Include(vec!["a".to_string(), "b".to_string()]);
    match public_rule(&NotificationRuleSnapshot::EarthquakeReport {
        sources: ids(),
        min_magnitude: 4.5,
    }) {
        AlertRule::EarthquakeReport { sources: SourceSelection::Include { ids }, min_magnitude } => {
            assert_eq!(ids, vec!["a".to_string(), "b".to_string()]);
            assert_eq!(min_magnitude, 4.5);
        }
        other => panic!("{other:?}"),
    }
    match public_rule(&NotificationRuleSnapshot::WeatherWarning {
        sources: ids(),
        min_severity: 2,
        fallback_radius_km: 30.0,
    }) {
        AlertRule::WeatherWarning { min_severity, fallback_radius_km, .. } => {
            assert_eq!((min_severity, fallback_radius_km), (2, 30.0));
        }
        other => panic!("{other:?}"),
    }
    match public_rule::<f64>(&NotificationRuleSnapshot::Tsunami { sources: ids(), min_severity: 3 }) {
        AlertRule::Tsunami { min_severity, .. } => assert_eq!(min_severity, 3),
        other => panic!("{other:?}"),
    }
    match public_rule(&NotificationRuleSnapshot::Typhoon {
        sources: ids(),
        max_center_distance_km: 500.0,
    }) {
        AlertRule::Typhoon { max_center_distance_km, .. } => {
            assert_eq!(max_center_distance_km, 500.0);
        }
        other => panic!("{other:?}"),
    }
    assert!(matches!(public_sources(&NotificationSourcesSnapshot::All), SourceSelection::All));
}

#[test]
fn detail_error_pages_are_json_and_private() {
    for (response, status, message) in [
        (detail_not_found::<()>(), Status::NotFound, "无法打开灾害详情"),
        (detail_error::<()>(), Status::InternalServerError, "灾害详情加载失败"),
        (detail_unavailable::<()>(), Status::ServiceUnavailable, "灾害详情暂不可用"),
    ] {
        assert_eq!(response.reply.status, status);
        assert_private_headers(&response);
        let mut headers = axum::http::HeaderMap::new();
        apply_detail_headers(&mut headers);
        assert_eq!(
            headers.get(header::CACHE_CONTROL).map(|value| value.as_bytes()),
            Some(b"private, no-store".as_slice())
        );
        assert_eq!(response.reply.body.message, message);
        assert!(!response.reply.body.success);
        assert!(response.reply.body.data.is_none());
    }
}

#[test]
fn detail_headers_replace_what_was_there() {
    let mut headers = axum::http::HeaderMap::new();
    headers.append("expires", axum::http::HeaderValue::from_static("1"));
    headers.append("expires", axum::http::HeaderValue::from_static("2"));
    headers.append("x-other", axum::http::HeaderValue::from_static("kept"));
    apply_detail_headers(&mut headers);
    apply_detail_headers(&mut headers);
    let expires = headers.get_all("expires").iter().collect::<Vec<_>>();
    assert_eq!(expires, ["0"]);
    assert_eq!(headers.get("x-other").unwrap(), "kept");
    assert_eq!(headers.len(), 8);
}

fn event(source: &str) -> DisasterEvent<f64> {
    DisasterEvent {
        category: DisasterCategory::EarthquakeWarning,
        channel: ProviderChannel::FanStudio,
        source: source.to_string(),
        event_id: format!("{source}-event"),
        revision: "1".to_string(),
        report_num: 1,
        title: "<script>alert(1)</script>".to_string(),
        description: "A & B".to_string(),
        latitude: Some(35.0),
        longitude: Some(139.0),
        magnitude: Some(5.0),
        depth_km: Some(10.0),
        affected_regions: vec!["<东京>".to_string()],
        radius_km: Some(120.0),
        level: 3,
        occurred_at: "2026-07-12 12:00:00".to_string(),
        final_report: false,
        cancel: false,
        training: false,
    }
}

fn snapshot() -> NotificationSnapshot<f64> {
    NotificationSnapshot {
        incident_id: "i1".to_string(),
        issued_at_ms: 1_700_000_000_000,
        event: NotificationEventSnapshot {
            category: DisasterCategory::EarthquakeWarning,
            source: "source".to_string(),
            source_event_id: "source-event".to_string(),
            revision: "1".to_string(),
            report_num: 1,
            title: "<script>alert(1)</script>".to_string(),
            description: "A & B".to_string(),
            affected_regions: vec!["<东京>".to_string()],
            latitude: Some(35.0),
            longitude: Some(139.0),
            magnitude: Some(5.0),
            depth_km: Some(10.0),
            radius_km: Some(120.0),
            level: 3,
            occurred_at: "2026-07-12 12:00:00".to_string(),
            final_report: false,
            cancel: false,
            training: false,
        },
        target: NotificationTargetSnapshot {
            label: "<住所>".to_string(),
            latitude: 35.6,
            longitude: 139.6,
            province: "东京都".to_string(),
            city: "东京".to_string(),
            district: String::new(),
        },
        timing: Some(NotificationTimingSnapshot {
            epicentral_distance_km: 1.0,
            hypocentral_distance_km: 2.0,
            estimated_intensity: 3.0,
            p_arrival_at_ms: 4,
            s_arrival_at_ms: 5,
        }),
        interruption_level: "critical".to_string(),
        matched_rule: NotificationRuleSnapshot::EarthquakeWarning {
            sources: NotificationSourcesSnapshot::All,
            intensity_bands: Vec::new(),
        },
    }
}

#[test]
fn invalid_incident_id_is_not_found() {
    let response = detail_response::<f64, u32>(DetailOutcome::InvalidId);
    assert_eq!(response.reply.status, Status::NotFound);
    assert_private_headers(&response);
    assert!(!response.reply.body.success);
    assert_eq!(response.reply.body.message, "无法打开灾害详情");
    assert!(response.reply.body.data.is_none());
}

#[test]
fn invalid_token_is_not_found() {
    let response = detail_response::<f64, u32>(DetailOutcome::InvalidLink);
    assert_eq!(response.reply.status, Status::NotFound);
    assert!(!response.reply.body.success);
    assert_eq!(response.reply.body.message, "无法打开灾害详情");
}

#[test]
fn detail_overloaded_returns_unavailable() {
    let response = detail_response::<f64, u32>(DetailOutcome::Overloaded);
    assert_eq!(response.reply.status, Status::ServiceUnavailable);
    assert_private_headers(&response);
    assert_eq!(response.reply.body.message, "灾害详情暂不可用");
    let failed = detail_response::<f64, u32>(DetailOutcome::Failed);
    assert_eq!(failed.reply.status, Status::InternalServerError);
}

#[test]
fn valid_link_returns_public_json_without_short_keys() {
    let response = detail_response(DetailOutcome::Loaded {
        snapshot: snapshot(),
        incident: Some(IncidentRecord {
            id: "i1".to_string(),
            category: DisasterCategory::EarthquakeWarning,
            first_seen_at_ms: 1,
            updated_at_ms: 2,
            has_matched_subscribers: true,
            latest_by_source: vec![event("source")],
            timeline: vec![7u32],
        }),
    });
    assert_eq!(response.reply.status, Status::Succeeded);
    assert_private_headers(&response);
    assert!(response.reply.body.success);
    assert_eq!(response.reply.body.message, "灾害详情获取成功");
    let data = response.reply.body.data.unwrap();
    assert_eq!(data.snapshot.incident_id, "i1");
    assert_eq!(data.snapshot.event.title, "<script>alert(1)</script>");
    assert_eq!(data.snapshot.event.event_id, "source-event");
    assert_eq!(data.snapshot.target.label, "<住所>");
    assert_eq!(data.snapshot.timing.unwrap().s_arrival_at_ms, 5);
    assert_eq!(data.snapshot.matched_rule.category().as_str(), "earthquake_warning");
    let incident = data.incident.unwrap();
    assert_eq!(incident.latest_by_source[0].source, "source");
    assert_eq!(incident.updated_at_ms, 2);
    assert_eq!(incident.timeline, vec![7]);
}

#[test]
fn missing_incident_keeps_snapshot() {
    let response =
        detail_response::<f64, u32>(DetailOutcome::Loaded { snapshot: snapshot(), incident: None });
    assert_eq!(response.reply.status, Status::Succeeded);
    let data = response.reply.body.data.unwrap();
    assert_eq!(data.snapshot.event.source, "source");
    assert!(data.incident.is_none());
}

fn answered(step: DetailStep<f64, u32>) -> u16 {
    match step {
        DetailStep::Answer(outcome) => detail_response(outcome).reply.status.code(),
        other => panic!("{other:?}"),
    }
}

fn waiting(step: DetailStep<f64, u32>) -> DetailState<f64> {
    match step {
        DetailStep::Wait(state) => state,
        other => panic!("{other:?}"),
    }
}

#[test]
fn details_are_looked_up_in_steps() {
    assert_eq!(answered(start_detail(None)), 404);
    let start = || waiting(start_detail(Some("i1".to_string())));
    assert_eq!(answered(advance_detail(start(), DetailEvent::RequestAdmitted(false))), 503);
    let store = || waiting(advance_detail::<f64, u32>(start(), DetailEvent::RequestAdmitted(true)));
    assert_eq!(answered(advance_detail(store(), DetailEvent::StoreAdmitted(false))), 503);
    let verifying =
        || waiting(advance_detail::<f64, u32>(store(), DetailEvent::StoreAdmitted(true)));
    let verified = |outcome| advance_detail::<f64, u32>(verifying(), DetailEvent::Verified(outcome));
    assert_eq!(answered(verified(LinkOutcome::Invalid)), 404);
    assert_eq!(answered(verified(LinkOutcome::Failed)), 500);
    let loading = || waiting(verified(LinkOutcome::Valid(snapshot())));
    match loading() {
        DetailState::Loading { incident_id, snapshot } => {
            assert_eq!(incident_id, "i1");
            assert_eq!(snapshot.event.source_event_id, "source-event");
        }
        other => panic!("{other:?}"),
    }
    assert_eq!(answered(advance_detail(loading(), DetailEvent::IncidentLoaded(None))), 500);
    assert_eq!(answered(advance_detail(loading(), DetailEvent::IncidentLoaded(Some(None)))), 200);
    let early = advance_detail::<f64, u32>(start(), DetailEvent::IncidentLoaded(Some(None)));
    assert!(matches!(waiting(early), DetailState::AdmittingRequest { .. }));
}
