use axum::http::{header::AUTHORIZATION, HeaderMap, HeaderValue};
use disaster_alert::api::{Status, StoreOutcome};
use disaster_alert::models::{
    AdministrativeRegion, AlertRule, DisasterCategory, GeoPoint, MonitoringTarget, NotificationDestination,
    SourceSelection,
};
use disaster_alert::source_registry::category_options;
use disaster_alert::subscribe::{
    advance_subscribe, advance_unsubscribe, bark_urls_response, detail_concurrency, health_reply,
    normalize_targets, require_subscription_creation_enabled, start_subscribe, start_unsubscribe,
    status_reply, subscription_options, DeleteOutcome, SubscribeEvent,
    SubscribeRequest, SubscribeState, SubscribeStep, SubscriptionConfirmationOutcome,
    UnsubscribeEvent, UnsubscribeRequest, UnsubscribeState, UnsubscribeStep,
    INSTANCE_TERMS_REQUIRED_MESSAGE, MAX_LOCATION_NAME_CHARS,
};

const TOKEN: &str = "test-bff-service-token";

fn bff_headers() -> HeaderMap {
    let mut headers = HeaderMap::new();
    headers.insert(
        AUTHORIZATION,
        HeaderValue::from_static("Bearer test-bff-service-token"),
    );
    headers
}

fn bark_headers() -> HeaderMap {
    let mut headers = HeaderMap::new();
    headers.insert(AUTHORIZATION, HeaderValue::from_static("Bearer abc123"));
    headers
}

fn destination(device_key: &str) -> NotificationDestination {
    NotificationDestination::Bark {
        base_url: "https://api.day.app".to_string(),
        device_key: device_key.to_string(),
    }
}

fn request() -> SubscribeRequest<f64> {
    SubscribeRequest {
        destination: destination("abc123"),
        targets: vec![MonitoringTarget {
            label: "home".to_string(),
            point: GeoPoint { latitude: 35.0, longitude: 105.0 },
            region: AdministrativeRegion::default(),
        }],
        alerts: vec![AlertRule::WeatherWarning {
            sources: SourceSelection::All,
            min_severity: 2,
            fallback_radius_km: 50.0,
        }],
    }
}

fn refusal<N: std::fmt::Debug>(step: SubscribeStep<N>) -> (Status, String) {
    match step {
        SubscribeStep::Answer(reply) => {
            assert!(!reply.body.success);
            assert!(reply.body.data.is_none());
            (reply.status, reply.body.message)
        }
        other => panic!("{other:?}"),
    }
}

fn waits<N: std::fmt::Debug>(step: SubscribeStep<N>) -> SubscribeState<N> {
    match step {
        SubscribeStep::Wait(state) => state,
        other => panic!("{other:?}"),
    }
}

#[test]
fn administrative_fields_obey_location_length_limit() {
    let mut payload = request();
    payload.targets[0].region.province = "省".repeat(MAX_LOCATION_NAME_CHARS + 1);
    assert!(normalize_targets(payload.targets, true).is_err());
}

#[test]
fn places_are_trimmed_and_refused_in_their_own_words() {
    let mut payload = request();
    payload.targets[0].label = format!("  {}  ", "名".repeat(MAX_LOCATION_NAME_CHARS));
    payload.targets[0].region.city = " 成都市\u{3000}".to_string();
    let trimmed = normalize_targets(payload.targets, true).unwrap();
    assert_eq!(trimmed[0].label, "名".repeat(MAX_LOCATION_NAME_CHARS));
    assert_eq!(trimmed[0].region.city, "成都市");
    assert_eq!(trimmed[0].point, GeoPoint { latitude: 35.0, longitude: 105.0 });

    let none = normalize_targets::<f64>(Vec::new(), true).unwrap_err();
    assert_eq!(none, "请至少添加一个有效监测地点");
    let many = (0..4).flat_map(|_| request().targets).collect::<Vec<_>>();
    assert_eq!(normalize_targets(many, true).unwrap_err(), "监测地点最多 3 个");
    assert_eq!(normalize_targets(request().targets, false).unwrap_err(), "监测地点坐标无效");
    let long = || "x".repeat(81);
    let mut payload = request();
    payload.targets[0].region.district = long();
    assert_eq!(normalize_targets(payload.targets, true).unwrap_err(), "监测地点区县最多 80 个字符");
    let mut payload = request();
    payload.targets[0].region.city = long();
    assert_eq!(normalize_targets(payload.targets, true).unwrap_err(), "监测地点城市最多 80 个字符");
    let mut payload = request();
    payload.targets.push(request().targets.remove(0));
    payload.targets[1].label = long();
    payload.targets[1].region.province = long();
    assert_eq!(normalize_targets(payload.targets, true).unwrap_err(), "监测地点名称最多 80 个字符");
}

#[test]
fn subscription_creation_requires_accepted_instance_terms() {
    assert!(require_subscription_creation_enabled(true).is_ok());

    let reply = require_subscription_creation_enabled(false).unwrap_err();
    assert_eq!(reply.status, Status::ServiceUnavailable);
    assert!(!reply.body.success);
    assert_eq!(reply.body.message, INSTANCE_TERMS_REQUIRED_MESSAGE);
    assert!(reply.body.data.is_none());
}

#[test]
fn subscribe_without_service_token_is_unauthorized() {
    let step = start_subscribe(&HeaderMap::new(), TOKEN, true, Some(request()));
    assert_eq!(refusal(step), (Status::Unauthorized, "服务凭证无效".to_string()));
}

#[test]
fn subscribe_with_bark_bearer_is_unauthorized() {
    let step = start_subscribe(&bark_headers(), TOKEN, true, Some(request()));
    assert_eq!(refusal(step), (Status::Unauthorized, "服务凭证无效".to_string()));
}

#[test]
fn subscribe_checks_instance_terms_after_service_token() {
    let step = start_subscribe(&bff_headers(), TOKEN, false, Some(request()));
    assert_eq!(
        refusal(step),
        (Status::ServiceUnavailable, INSTANCE_TERMS_REQUIRED_MESSAGE.to_string())
    );
}

#[test]
fn unsubscribe_without_service_token_is_unauthorized() {
    let payload = UnsubscribeRequest { destination: destination("abc123") };
    match start_unsubscribe(&HeaderMap::new(), TOKEN, Some(payload)) {
        UnsubscribeStep::Answer(reply) => {
            assert_eq!(reply.status, Status::Unauthorized);
            assert_eq!(reply.body.message, "服务凭证无效");
        }
        other => panic!("{other:?}"),
    }
}

/// A request that waits for its place in the queue.
fn admitting(payload: SubscribeRequest<f64>) -> SubscribeState<f64> {
    let state = waits(start_subscribe(&bff_headers(), TOKEN, true, Some(payload)));
    let url = "https://api.day.app/".to_string();
    let state = waits(advance_subscribe(state, SubscribeEvent::UrlNormalized(Some(url))));
    let state = waits(advance_subscribe(state, SubscribeEvent::UrlAllowed(true)));
    let state = waits(advance_subscribe(state, SubscribeEvent::CoordinatesChecked(true)));
    waits(advance_subscribe(state, SubscribeEvent::Validated(None)))
}

#[test]
fn a_subscription_is_stored_as_it_was_asked_for() {
    let mut payload = request();
    payload.destination = destination(" abc123 ");
    payload.targets[0].label = " home ".to_string();
    let state = admitting(payload);
    let state = waits(advance_subscribe(state, SubscribeEvent::RequestAdmitted(true)));
    let state = waits(advance_subscribe(state, SubscribeEvent::StoreAdmitted(true)));
    match &state {
        SubscribeState::Storing { subscription } => {
            assert_eq!(subscription.device_key(), "abc123");
            assert_eq!(subscription.destination.bark_base_url(), "https://api.day.app/");
            assert_eq!(subscription.targets[0].label, "home");
            assert_eq!(subscription.alerts.len(), 1);
        }
        other => panic!("{other:?}"),
    }
    let state = waits(advance_subscribe(state, SubscribeEvent::Stored(true)));
    let outcome = Some(SubscriptionConfirmationOutcome::Activated);
    match advance_subscribe(state, SubscribeEvent::Confirmed(outcome)) {
        SubscribeStep::Answer(reply) => {
            assert_eq!(reply.status, Status::Succeeded);
            assert_eq!(reply.body.message, "订阅已保存，确认通知已发送");
            assert!(reply.body.data.unwrap().saved);
        }
        other => panic!("{other:?}"),
    }
}

#[test]
fn every_step_of_a_subscription_can_refuse() {
    let start = || waits(start_subscribe(&bff_headers(), TOKEN, true, Some(request())));
    assert_eq!(
        refusal(start_subscribe::<f64>(&bff_headers(), TOKEN, true, None)).1,
        "订阅请求体无效"
    );
    let mut payload = request();
    payload.destination = destination("a b");
    assert_eq!(
        refusal(start_subscribe(&bff_headers(), TOKEN, true, Some(payload))).1,
        "Bark Key 只能包含字母、数字"
    );
    assert_eq!(
        refusal(advance_subscribe(start(), SubscribeEvent::UrlNormalized(None))).1,
        "Bark URL 无效"
    );
    let url = || SubscribeEvent::UrlNormalized(Some("https://x".to_string()));
    let checking = || waits(advance_subscribe(start(), url()));
    assert_eq!(
        refusal(advance_subscribe(checking(), SubscribeEvent::UrlAllowed(false))).1,
        "Bark URL 不在允许列表中"
    );
    let located = waits(advance_subscribe(checking(), SubscribeEvent::UrlAllowed(true)));
    assert_eq!(
        refusal(advance_subscribe(located, SubscribeEvent::CoordinatesChecked(false))).1,
        "监测地点坐标无效"
    );
    let located = waits(advance_subscribe(checking(), SubscribeEvent::UrlAllowed(true)));
    let validating = waits(advance_subscribe(located, SubscribeEvent::CoordinatesChecked(true)));
    let fault = SubscribeEvent::Validated(Some("规则无效".to_string()));
    assert_eq!(
        refusal(advance_subscribe(validating, fault)),
        (Status::BadRequest, "规则无效".to_string())
    );
    assert_eq!(
        refusal(advance_subscribe(admitting(request()), SubscribeEvent::RequestAdmitted(false))),
        (Status::ServiceUnavailable, "订阅请求繁忙，请稍后重试".to_string())
    );
    let admitted =
        || waits(advance_subscribe(admitting(request()), SubscribeEvent::RequestAdmitted(true)));
    assert_eq!(
        refusal(advance_subscribe(admitted(), SubscribeEvent::StoreAdmitted(false))).1,
        "订阅存储繁忙，请稍后重试"
    );
    let storing = waits(advance_subscribe(admitted(), SubscribeEvent::StoreAdmitted(true)));
    assert_eq!(
        refusal(advance_subscribe(storing, SubscribeEvent::Stored(false))),
        (Status::InternalServerError, "订阅暂时无法保存，请稍后重试".to_string())
    );
    let waiting = waits(advance_subscribe(start(), SubscribeEvent::Stored(true)));
    assert!(matches!(waiting, SubscribeState::NormalizingUrl { .. }));
}

#[test]
fn confirmations_are_answered_as_they_came_out() {
    let answer = |outcome| match advance_subscribe::<f64>(
        SubscribeState::Confirming,
        SubscribeEvent::Confirmed(outcome),
    ) {
        SubscribeStep::Answer(reply) => reply,
        other => panic!("{other:?}"),
    };
    let pending = answer(Some(SubscriptionConfirmationOutcome::Pending));
    assert_eq!(pending.status, Status::Accepted);
    assert_eq!(pending.status.code(), 202);
    assert!(!pending.body.data.unwrap().saved);
    let rejected = answer(Some(SubscriptionConfirmationOutcome::Rejected));
    assert_eq!(rejected.status.code(), 502);
    assert_eq!(rejected.body.message, "Bark 接收测试失败，请检查 Bark Key；订阅未激活");
    let superseded = answer(Some(SubscriptionConfirmationOutcome::Superseded));
    assert_eq!(superseded.status.code(), 409);
    let failed = answer(None);
    assert_eq!(failed.status.code(), 500);
    assert_eq!(failed.body.message, "订阅确认状态暂时无法更新，后台将自动恢复");
}

fn unsubscribing() -> UnsubscribeState {
    let payload = UnsubscribeRequest { destination: destination(" abc123 ") };
    match start_unsubscribe(&bff_headers(), TOKEN, Some(payload)) {
        UnsubscribeStep::Wait(state) => state,
        other => panic!("{other:?}"),
    }
}

fn goes_on(state: UnsubscribeState, event: UnsubscribeEvent) -> UnsubscribeState {
    match advance_unsubscribe(state, event) {
        UnsubscribeStep::Wait(state) => state,
        other => panic!("{other:?}"),
    }
}

fn ends(state: UnsubscribeState, event: UnsubscribeEvent) -> (u16, String) {
    match advance_unsubscribe(state, event) {
        UnsubscribeStep::Answer(reply) => (reply.status.code(), reply.body.message),
        other => panic!("{other:?}"),
    }
}

#[test]
fn subscriptions_end_in_steps() {
    let url = || UnsubscribeEvent::UrlNormalized(Some("https://x/".to_string()));
    assert_eq!(
        ends(unsubscribing(), UnsubscribeEvent::UrlNormalized(None)),
        (400, "Bark URL 无效".to_string())
    );
    let checking = goes_on(unsubscribing(), url());
    assert_eq!(
        ends(checking, UnsubscribeEvent::UrlAllowed(false)),
        (400, "Bark URL 不在允许列表中".to_string())
    );
    let admitting = || goes_on(goes_on(unsubscribing(), url()), UnsubscribeEvent::UrlAllowed(true));
    assert_eq!(
        ends(admitting(), UnsubscribeEvent::StoreAdmitted(false)),
        (503, "订阅存储繁忙，请稍后重试".to_string())
    );
    let deleting = || goes_on(admitting(), UnsubscribeEvent::StoreAdmitted(true));
    match deleting() {
        UnsubscribeState::Deleting { destination } => {
            assert_eq!(destination.base_url, "https://x/");
            assert_eq!(destination.device_key, "abc123");
        }
        other => panic!("{other:?}"),
    }
    assert_eq!(
        ends(deleting(), UnsubscribeEvent::Deleted(DeleteOutcome::Deleted)),
        (200, "已取消订阅".to_string())
    );
    assert_eq!(
        ends(deleting(), UnsubscribeEvent::Deleted(DeleteOutcome::NotFound)),
        (404, "订阅不存在或已取消".to_string())
    );
    assert_eq!(
        ends(deleting(), UnsubscribeEvent::Deleted(DeleteOutcome::Failed)),
        (500, "取消订阅暂时无法完成，请稍后重试".to_string())
    );
    match start_unsubscribe(&bff_headers(), TOKEN, None) {
        UnsubscribeStep::Answer(reply) => assert_eq!(reply.body.message, "取消订阅请求体无效"),
        other => panic!("{other:?}"),
    }
}

#[test]
fn the_service_tells_how_it_is() {
    let reply = status_reply(true, StoreOutcome::Loaded((12, "fine")));
    assert_eq!(reply.status, Status::Succeeded);
    let status = reply.body.data.unwrap();
    assert!(status.instance_terms_accepted);
    assert_eq!(status.total_subscriptions, 12);
    assert_eq!(status.runtime, "fine");
    let busy = status_reply::<()>(true, StoreOutcome::Busy);
    assert_eq!(busy.body.message, "运行状态查询繁忙，请稍后重试");
    let failed = status_reply::<()>(true, StoreOutcome::Failed);
    assert_eq!(failed.body.message, "运行状态暂时无法获取");
    assert_eq!(health_reply().body.message, "OK");
    let urls = bark_urls_response(vec!["https://api.day.app".to_string()]);
    assert_eq!(urls.data.unwrap().bark_urls.len(), 1);
    let options = subscription_options(category_options::<f64, _, _>(
        true,
        |_: DisasterCategory| "灾害",
        |_: DisasterCategory| AlertRule::Tsunami { sources: SourceSelection::All, min_severity: 1 },
    ));
    assert_eq!(options.message, "订阅选项获取成功");
    assert_eq!(options.data.unwrap().categories.len(), 5);
}

#[test]
fn details_are_looked_up_within_bounds() {
    assert_eq!(detail_concurrency(0), 64);
    assert_eq!(detail_concurrency(16), 64);
    assert_eq!(detail_concurrency(17), 68);
    assert_eq!(detail_concurrency(1_024), 4_096);
    assert_eq!(detail_concurrency(usize::MAX), 4_096);
}
