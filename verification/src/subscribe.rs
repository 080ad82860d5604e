//! Subscribing, unsubscribing, and what a subscriber may choose from.
use crate::api::{self, ApiResponse, Reply, Status, StoreOutcome};
use crate::auth;
use crate::device_key;
use crate::models::{
    AdministrativeRegion, AlertRule, DestinationId, MonitoringTarget, NotificationDestination,
    Subscription,
};
use crate::source_registry::CategoryOption;
use crate::text;
use axum::http::HeaderMap;
use vstd::prelude::*;

verus! {

pub const MAX_LOCATIONS: usize = 3;

pub const MAX_LOCATION_NAME_CHARS: usize = 80;

pub const INSTANCE_TERMS_REQUIRED_MESSAGE: &'static str =
    "当前实例尚未确认部署责任，暂不接受新增或覆盖订阅";

// ---------------------------------------------------------------------------
// The places of a subscription
// ---------------------------------------------------------------------------
/// What is said of a name of a place that is too long.
pub open spec fn too_long(label: Seq<char>) -> Seq<char> {
    "监测地点"@ + label + "最多 "@ + text::decimal(MAX_LOCATION_NAME_CHARS as nat) + " 个字符"@
}

/// Whether a trimmed name is too long.
pub open spec fn is_too_long(value: Seq<char>) -> bool {
    text::trimmed(value).len() > MAX_LOCATION_NAME_CHARS
}

/// What is wrong with the names of a place.
pub open spec fn target_fault<N>(target: MonitoringTarget<N>) -> Option<Seq<char>> {
    if is_too_long(target.label@) {
        Some(too_long("名称"@))
    } else if is_too_long(target.region.province@) {
        Some(too_long("省级行政区"@))
    } else if is_too_long(target.region.city@) {
        Some(too_long("城市"@))
    } else if is_too_long(target.region.district@) {
        Some(too_long("区县"@))
    } else {
        None
    }
}

/// What is wrong with the names of the first place with a fault.
pub open spec fn first_target_fault<N>(targets: Seq<MonitoringTarget<N>>) -> Option<Seq<char>>
    decreases targets.len(),
{
    if targets.len() == 0 {
        None
    } else {
        match first_target_fault(targets.drop_last()) {
            Some(fault) => Some(fault),
            None => target_fault(targets.last()),
        }
    }
}

/// What is wrong with the places of a subscription.
pub open spec fn targets_fault<N>(
    targets: Seq<MonitoringTarget<N>>,
    coordinates_valid: bool,
) -> Option<Seq<char>> {
    if targets.len() == 0 {
        Some("请至少添加一个有效监测地点"@)
    } else if targets.len() > MAX_LOCATIONS {
        Some("监测地点最多 "@ + text::decimal(MAX_LOCATIONS as nat) + " 个"@)
    } else if !coordinates_valid {
        Some("监测地点坐标无效"@)
    } else {
        first_target_fault(targets)
    }
}

/// Whether a place is another one with its names trimmed.
pub open spec fn is_trimmed<N>(r: MonitoringTarget<N>, target: MonitoringTarget<N>) -> bool {
    &&& r.point == target.point
    &&& r.label@ == text::trimmed(target.label@)
    &&& r.region.province@ == text::trimmed(target.region.province@)
    &&& r.region.city@ == text::trimmed(target.region.city@)
    &&& r.region.district@ == text::trimmed(target.region.district@)
}

/// Whether places are others with their names trimmed.
pub open spec fn are_trimmed<N>(
    r: Seq<MonitoringTarget<N>>,
    targets: Seq<MonitoringTarget<N>>,
) -> bool {
    r.len() == targets.len() && forall|i: int|
        0 <= i < r.len() ==> is_trimmed(#[trigger] r[i], targets[i])
}

/// A trimmed name, or what is said of one that is too long.
fn trim_name(value: &str, label: &str) -> (r: Result<String, String>)
    ensures
        match r {
            Ok(name) => !is_too_long(value@) && name@ == text::trimmed(value@),
            Err(message) => is_too_long(value@) && message@ == too_long(label@),
        },
{
    let trimmed = text::trim(value);
    if trimmed.unicode_len() > MAX_LOCATION_NAME_CHARS {
        let mut message = "监测地点".to_owned();
        message.append(label);
        message.append("最多 ");
        message.append(text::decimal_text(MAX_LOCATION_NAME_CHARS as u64).as_str());
        message.append(" 个字符");
        Err(message)
    } else {
        Ok(trimmed.to_owned())
    }
}

/// A place with its names trimmed, or what is said of one that is too long.
fn normalize_target<N: Copy>(target: &MonitoringTarget<N>) -> (r: Result<
    MonitoringTarget<N>,
    String,
>)
    ensures
        match r {
            Ok(t) => target_fault(*target) is None && is_trimmed(t, *target),
            Err(message) => target_fault(*target) == Some(message@),
        },
{
    let label = match trim_name(target.label.as_str(), "名称") {
        Ok(name) => name,
        Err(message) => {
            return Err(message);
        },
    };
    let province = match trim_name(target.region.province.as_str(), "省级行政区") {
        Ok(name) => name,
        Err(message) => {
            return Err(message);
        },
    };
    let city = match trim_name(target.region.city.as_str(), "城市") {
        Ok(name) => name,
        Err(message) => {
            return Err(message);
        },
    };
    let district = match trim_name(target.region.district.as_str(), "区县") {
        Ok(name) => name,
        Err(message) => {
            return Err(message);
        },
    };
    let point = crate::models::GeoPoint {
        latitude: target.point.latitude,
        longitude: target.point.longitude,
    };
    Ok(MonitoringTarget { label, point, region: AdministrativeRegion { province, city, district } })
}

/// The places of a subscription with their names trimmed, or what is wrong with them.
/// `coordinates_valid` says whether all of them lie on earth.
pub fn normalize_targets<N: Copy>(
    targets: Vec<MonitoringTarget<N>>,
    coordinates_valid: bool,
) -> (r: Result<Vec<MonitoringTarget<N>>, String>)
    ensures
        match r {
            Ok(trimmed) => targets_fault(targets@, coordinates_valid) is None && are_trimmed(
                trimmed@,
                targets@,
            ),
            Err(message) => targets_fault(targets@, coordinates_valid) == Some(message@),
        },
{
    if targets.len() == 0 {
        return Err("请至少添加一个有效监测地点".to_owned());
    }
    if targets.len() > MAX_LOCATIONS {
        let mut message = "监测地点最多 ".to_owned();
        message.append(text::decimal_text(MAX_LOCATIONS as u64).as_str());
        message.append(" 个");
        return Err(message);
    }
    if !coordinates_valid {
        return Err("监测地点坐标无效".to_owned());
    }
    let mut trimmed: Vec<MonitoringTarget<N>> = Vec::new();
    let mut i: usize = 0;
    while i < targets.len()
        invariant
            0 < targets@.len() <= MAX_LOCATIONS,
            coordinates_valid,
            i <= targets@.len(),
            first_target_fault(targets@.take(i as int)) is None,
            are_trimmed(trimmed@, targets@.take(i as int)),
        decreases targets@.len() - i,
    {
        proof {
            assert(targets@.take(i + 1).drop_last() =~= targets@.take(i as int));
            assert(targets@.take(i + 1).last() == targets@[i as int]);
        }
        match normalize_target(&targets[i]) {
            Ok(target) => {
                trimmed.push(target);
            },
            Err(message) => {
                proof {
                    lemma_first_target_fault(targets@, i as int);
                }
                return Err(message);
            },
        }
        i += 1;
    }
    assert(targets@.take(i as int) =~= targets@);
    Ok(trimmed)
}

proof fn lemma_first_target_fault<N>(targets: Seq<MonitoringTarget<N>>, i: int)
    requires
        0 <= i < targets.len(),
        first_target_fault(targets.take(i)) is None,
        target_fault(targets[i]) is Some,
    ensures
        first_target_fault(targets) == target_fault(targets[i]),
    decreases targets.len(),
{
    let rest = targets.drop_last();
    if i < rest.len() {
        assert(rest.take(i) =~= targets.take(i));
        lemma_first_target_fault(rest, i);
    } else {
        assert(targets.take(i) =~= rest);
    }
}

/// Accepted places are one to three, and their names have at most eighty characters; accepting
/// them again changes nothing.
pub proof fn law_accepted_targets<N>(
    targets: Seq<MonitoringTarget<N>>,
    accepted: Seq<MonitoringTarget<N>>,
)
    requires
        targets_fault(targets, true) is None,
        are_trimmed(accepted, targets),
    ensures
        1 <= accepted.len() <= MAX_LOCATIONS,
        forall|i: int|
            0 <= i < accepted.len() ==> {
                &&& (#[trigger] accepted[i]).label@.len() <= MAX_LOCATION_NAME_CHARS
                &&& accepted[i].region.province@.len() <= MAX_LOCATION_NAME_CHARS
                &&& accepted[i].region.city@.len() <= MAX_LOCATION_NAME_CHARS
                &&& accepted[i].region.district@.len() <= MAX_LOCATION_NAME_CHARS
            },
        targets_fault(accepted, true) is None,
        are_trimmed(accepted, accepted),
{
    lemma_no_target_fault(targets);
    assert forall|i: int| 0 <= i < accepted.len() implies {
        &&& target_fault(#[trigger] accepted[i]) is None
        &&& is_trimmed(accepted[i], accepted[i])
        &&& accepted[i].label@.len() <= MAX_LOCATION_NAME_CHARS
        &&& accepted[i].region.province@.len() <= MAX_LOCATION_NAME_CHARS
        &&& accepted[i].region.city@.len() <= MAX_LOCATION_NAME_CHARS
        &&& accepted[i].region.district@.len() <= MAX_LOCATION_NAME_CHARS
    } by {
        assert(is_trimmed(accepted[i], targets[i]));
        assert(target_fault(targets[i]) is None);
        text::lemma_trimmed_twice(targets[i].label@);
        text::lemma_trimmed_twice(targets[i].region.province@);
        text::lemma_trimmed_twice(targets[i].region.city@);
        text::lemma_trimmed_twice(targets[i].region.district@);
    }
    lemma_has_no_target_fault(accepted);
}

proof fn lemma_no_target_fault<N>(targets: Seq<MonitoringTarget<N>>)
    requires
        first_target_fault(targets) is None,
    ensures
        forall|i: int| 0 <= i < targets.len() ==> target_fault(#[trigger] targets[i]) is None,
    decreases targets.len(),
{
    if targets.len() > 0 {
        let rest = targets.drop_last();
        lemma_no_target_fault(rest);
        assert forall|i: int| 0 <= i < targets.len() implies target_fault(
            #[trigger] targets[i],
        ) is None by {
            if i < rest.len() {
                assert(rest[i] == targets[i]);
            }
        }
    }
}

proof fn lemma_has_no_target_fault<N>(targets: Seq<MonitoringTarget<N>>)
    requires
        forall|i: int| 0 <= i < targets.len() ==> target_fault(#[trigger] targets[i]) is None,
    ensures
        first_target_fault(targets) is None,
    decreases targets.len(),
{
    if targets.len() > 0 {
        let rest = targets.drop_last();
        assert forall|i: int| 0 <= i < rest.len() implies target_fault(#[trigger] rest[i])
            is None by {
            assert(rest[i] == targets[i]);
        }
        lemma_has_no_target_fault(rest);
        assert(targets.last() == targets[targets.len() - 1]);
    }
}

// ---------------------------------------------------------------------------
// Subscribing
// ---------------------------------------------------------------------------
#[derive(Debug)]
pub struct SubscribeRequest<N> {
    pub destination: NotificationDestination,
    pub targets: Vec<MonitoringTarget<N>>,
    pub alerts: Vec<AlertRule<N>>,
}

#[derive(Debug)]
pub struct UnsubscribeRequest {
    pub destination: NotificationDestination,
}

#[derive(Debug, Clone, Copy, PartialEq, Eq)]
pub struct SubscribeResponse {
    pub saved: bool,
}

/// What came of the test notification that confirms a subscription.
#[derive(Debug, Clone, Copy, PartialEq, Eq, Structural)]
pub enum SubscriptionConfirmationOutcome {
    Activated,
    Pending,
    Rejected,
    Superseded,
}

/// Lets subscriptions be made only where the terms of the instance were accepted.
pub fn require_subscription_creation_enabled(instance_terms_accepted: bool) -> (r: Result<
    (),
    Reply<SubscribeResponse>,
>)
    ensures
        r is Ok <==> instance_terms_accepted,
        r matches Err(reply) ==> reply.is_error(
            Status::ServiceUnavailable,
            INSTANCE_TERMS_REQUIRED_MESSAGE@,
        ),
{
    if instance_terms_accepted {
        Ok(())
    } else {
        Err(Reply::error(Status::ServiceUnavailable, INSTANCE_TERMS_REQUIRED_MESSAGE))
    }
}

/// What a request for a subscription waits for.
#[derive(Debug)]
pub enum SubscribeState<N> {
    /// The URL of the request in its normal form.
    NormalizingUrl { request: SubscribeRequest<N>, device_key: String },
    /// Whether notifications may go to the URL.
    CheckingUrl { request: SubscribeRequest<N>, device_key: String, bark_url: String },
    /// Whether all places lie on earth.
    CheckingCoordinates { request: SubscribeRequest<N>, device_key: String, bark_url: String },
    /// Whether the rules are valid.
    Validating { subscription: Subscription<N> },
    /// Room for one more request.
    AdmittingRequest { subscription: Subscription<N> },
    /// Room for one more access to the store.
    AdmittingStore { subscription: Subscription<N> },
    /// That the subscription is stored, to be confirmed.
    Storing { subscription: Subscription<N> },
    /// What came of the test notification.
    Confirming,
}

/// What a request for a subscription waited for.
#[derive(Debug)]
pub enum SubscribeEvent {
    UrlNormalized(Option<String>),
    UrlAllowed(bool),
    CoordinatesChecked(bool),
    Validated(Option<String>),
    RequestAdmitted(bool),
    StoreAdmitted(bool),
    Stored(bool),
    Confirmed(Option<SubscriptionConfirmationOutcome>),
}

/// A request goes on waiting, or is answered.
#[derive(Debug)]
pub enum SubscribeStep<N> {
    Wait(SubscribeState<N>),
    Answer(Reply<SubscribeResponse>),
}

impl<N> SubscribeStep<N> {
    /// Whether a request is refused in these words.
    pub open spec fn refuses(self, status: Status, message: Seq<char>) -> bool {
        self matches SubscribeStep::Answer(reply) && reply.is_error(status, message)
    }
}

/// Whether the parts of a subscription are as they have to be: a device key, one to three places,
/// and names of places that are trimmed and not too long.
pub open spec fn is_accepted<N>(subscription: Subscription<N>) -> bool {
    &&& device_key::is_device_key(subscription.destination->device_key@)
    &&& targets_fault(subscription.targets@, true) is None
    &&& are_trimmed(subscription.targets@, subscription.targets@)
}

impl<N> SubscribeState<N> {
    /// What holds while a request waits: nothing is waited for without a device key, and no
    /// subscription exists that was not accepted.
    pub open spec fn wf(self) -> bool {
        match self {
            SubscribeState::NormalizingUrl { device_key, .. }
            | SubscribeState::CheckingUrl { device_key, .. }
            | SubscribeState::CheckingCoordinates { device_key, .. } => device_key::is_device_key(
                device_key@,
            ),
            SubscribeState::Validating { subscription }
            | SubscribeState::AdmittingRequest { subscription }
            | SubscribeState::AdmittingStore { subscription }
            | SubscribeState::Storing { subscription } => is_accepted(subscription),
            SubscribeState::Confirming => true,
        }
    }
}

/// Begins with a request for a subscription. A request without the service token learns nothing
/// else, and neither does any request while the terms of the instance are not accepted. `payload`
/// is `None` where the body could not be read.
pub fn start_subscribe<N>(
    headers: &HeaderMap,
    service_token: &str,
    instance_terms_accepted: bool,
    payload: Option<SubscribeRequest<N>>,
) -> (r: SubscribeStep<N>)
    ensures
        if !auth::shows_service_token(*headers, service_token@) {
            r.refuses(Status::Unauthorized, auth::BFF_AUTH_FAILED_MESSAGE@)
        } else if !instance_terms_accepted {
            r.refuses(Status::ServiceUnavailable, INSTANCE_TERMS_REQUIRED_MESSAGE@)
        } else {
            match payload {
                None => r.refuses(Status::BadRequest, "订阅请求体无效"@),
                Some(request) => {
                    let key = text::trimmed(request.destination->device_key@);
                    match device_key::device_key_fault(key) {
                        Some(fault) => r.refuses(Status::BadRequest, fault),
                        None => r matches SubscribeStep::Wait(
                            SubscribeState::NormalizingUrl { request: kept, device_key },
                        ) && kept == request && device_key@ == key,
                    }
                },
            }
        },
        r matches SubscribeStep::Wait(state) ==> state.wf(),
{
    if let Err(refusal) = auth::require_bff_service_token(headers, service_token) {
        return SubscribeStep::Answer(api::refusal_reply(refusal));
    }
    if let Err(reply) = require_subscription_creation_enabled(instance_terms_accepted) {
        return SubscribeStep::Answer(reply);
    }
    let request = match payload {
        Some(request) => request,
        None => {
            return SubscribeStep::Answer(
                Reply::error(Status::BadRequest, "订阅请求体无效"),
            );
        },
    };
    match device_key::validate_device_key(request.destination.bark_device_key()) {
        Ok(device_key) => SubscribeStep::Wait(
            SubscribeState::NormalizingUrl { request, device_key },
        ),
        Err(refusal) => SubscribeStep::Answer(api::refusal_reply(refusal)),
    }
}

/// Whether a subscription is made of the parts of a request.
pub open spec fn is_made_of<N>(
    subscription: Subscription<N>,
    request: SubscribeRequest<N>,
    device_key: String,
    bark_url: String,
) -> bool {
    &&& subscription.destination == (NotificationDestination::Bark {
        base_url: bark_url,
        device_key,
    })
    &&& are_trimmed(subscription.targets@, request.targets@)
    &&& subscription.alerts == request.alerts
}

/// What the outcome of the test notification is answered.
pub open spec fn answers_confirmation(
    reply: Reply<SubscribeResponse>,
    outcome: Option<SubscriptionConfirmationOutcome>,
) -> bool {
    match outcome {
        Some(SubscriptionConfirmationOutcome::Activated) => reply.is_success(
            Status::Succeeded,
            "订阅已保存，确认通知已发送"@,
            Some(SubscribeResponse { saved: true }),
        ),
        Some(SubscriptionConfirmationOutcome::Pending) => reply.is_success(
            Status::Accepted,
            "Bark 服务暂时不可用，订阅确认将在后台重试"@,
            Some(SubscribeResponse { saved: false }),
        ),
        Some(SubscriptionConfirmationOutcome::Rejected) => reply.is_error(
            Status::BadGateway,
            "Bark 接收测试失败，请检查 Bark Key；订阅未激活"@,
        ),
        Some(SubscriptionConfirmationOutcome::Superseded) => reply.is_error(
            Status::Conflict,
            "该 Bark 目标已有更新的订阅请求，请以最新请求为准"@,
        ),
        None => reply.is_error(
            Status::InternalServerError,
            "订阅确认状态暂时无法更新，后台将自动恢复"@,
        ),
    }
}

/// The answer to a request whose test notification came out somehow; `None` where that could not
/// be recorded.
pub fn confirmation_reply(outcome: Option<SubscriptionConfirmationOutcome>) -> (r: Reply<
    SubscribeResponse,
>)
    ensures
        answers_confirmation(r, outcome),
{
    match outcome {
        Some(SubscriptionConfirmationOutcome::Activated) => Reply::success(
            Status::Succeeded,
            "订阅已保存，确认通知已发送",
            Some(SubscribeResponse { saved: true }),
        ),
        Some(SubscriptionConfirmationOutcome::Pending) => Reply::success(
            Status::Accepted,
            "Bark 服务暂时不可用，订阅确认将在后台重试",
            Some(SubscribeResponse { saved: false }),
        ),
        Some(SubscriptionConfirmationOutcome::Rejected) => Reply::error(
            Status::BadGateway,
            "Bark 接收测试失败，请检查 Bark Key；订阅未激活",
        ),
        Some(SubscriptionConfirmationOutcome::Superseded) => Reply::error(
            Status::Conflict,
            "该 Bark 目标已有更新的订阅请求，请以最新请求为准",
        ),
        None => Reply::error(
            Status::InternalServerError,
            "订阅确认状态暂时无法更新，后台将自动恢复",
        ),
    }
}

/// Whether a request goes on rightly when what it waited for has come. What it did not wait for
/// changes nothing.
pub open spec fn subscribe_follows<N>(
    state: SubscribeState<N>,
    event: SubscribeEvent,
    step: SubscribeStep<N>,
) -> bool {
    match (state, event) {
        (
            SubscribeState::NormalizingUrl { request, device_key },
            SubscribeEvent::UrlNormalized(normalized),
        ) => match normalized {
            None => step.refuses(Status::BadRequest, "Bark URL 无效"@),
            Some(bark_url) => step == SubscribeStep::Wait(
                SubscribeState::CheckingUrl { request, device_key, bark_url },
            ),
        },
        (
            SubscribeState::CheckingUrl { request, device_key, bark_url },
            SubscribeEvent::UrlAllowed(allowed),
        ) => if allowed {
            step == SubscribeStep::Wait(
                SubscribeState::CheckingCoordinates { request, device_key, bark_url },
            )
        } else {
            step.refuses(Status::BadRequest, "Bark URL 不在允许列表中"@)
        },
        (
            SubscribeState::CheckingCoordinates { request, device_key, bark_url },
            SubscribeEvent::CoordinatesChecked(valid),
        ) => match targets_fault(request.targets@, valid) {
            Some(fault) => step.refuses(Status::BadRequest, fault),
            None => step matches SubscribeStep::Wait(SubscribeState::Validating { subscription })
                && is_made_of(subscription, request, device_key, bark_url),
        },
        (SubscribeState::Validating { subscription }, SubscribeEvent::Validated(fault)) => match fault {
            Some(message) => step.refuses(Status::BadRequest, message@),
            None => step == SubscribeStep::Wait(
                SubscribeState::AdmittingRequest { subscription },
            ),
        },
        (
            SubscribeState::AdmittingRequest { subscription },
            SubscribeEvent::RequestAdmitted(admitted),
        ) => if admitted {
            step == SubscribeStep::Wait(SubscribeState::AdmittingStore { subscription })
        } else {
            step.refuses(Status::ServiceUnavailable, "订阅请求繁忙，请稍后重试"@)
        },
        (
            SubscribeState::AdmittingStore { subscription },
            SubscribeEvent::StoreAdmitted(admitted),
        ) => if admitted {
            step == SubscribeStep::Wait(SubscribeState::Storing { subscription })
        } else {
            step.refuses(Status::ServiceUnavailable, api::STORE_BUSY_MESSAGE@)
        },
        (SubscribeState::Storing { .. }, SubscribeEvent::Stored(stored)) => if stored {
            step == SubscribeStep::Wait(SubscribeState::<N>::Confirming)
        } else {
            step.refuses(
                Status::InternalServerError,
                "订阅暂时无法保存，请稍后重试"@,
            )
        },
        (SubscribeState::Confirming, SubscribeEvent::Confirmed(outcome)) => step matches
            SubscribeStep::Answer(reply) && answers_confirmation(reply, outcome),
        _ => step == SubscribeStep::Wait(state),
    }
}

/// Goes on with a request for a subscription when what it waited for has come.
pub fn advance_subscribe<N: Copy>(state: SubscribeState<N>, event: SubscribeEvent) -> (r:
    SubscribeStep<N>)
    ensures
        subscribe_follows(state, event, r),
        state.wf() ==> (r matches SubscribeStep::Wait(next) ==> next.wf()),
{
    match (state, event) {
        (
            SubscribeState::NormalizingUrl { request, device_key },
            SubscribeEvent::UrlNormalized(normalized),
        ) => match normalized {
            None => SubscribeStep::Answer(Reply::error(Status::BadRequest, "Bark URL 无效")),
            Some(bark_url) => SubscribeStep::Wait(
                SubscribeState::CheckingUrl { request, device_key, bark_url },
            ),
        },
        (
            SubscribeState::CheckingUrl { request, device_key, bark_url },
            SubscribeEvent::UrlAllowed(allowed),
        ) => if allowed {
            SubscribeStep::Wait(
                SubscribeState::CheckingCoordinates { request, device_key, bark_url },
            )
        } else {
            SubscribeStep::Answer(
                Reply::error(Status::BadRequest, "Bark URL 不在允许列表中"),
            )
        },
        (
            SubscribeState::CheckingCoordinates { request, device_key, bark_url },
            SubscribeEvent::CoordinatesChecked(valid),
        ) => {
            let ghost given = request.targets@;
            match normalize_targets(request.targets, valid) {
                Ok(targets) => {
                    proof {
                        law_accepted_targets(given, targets@);
                    }
                    let subscription = Subscription::new(
                        NotificationDestination::Bark { base_url: bark_url, device_key },
                        targets,
                        request.alerts,
                    );
                    SubscribeStep::Wait(SubscribeState::Validating { subscription })
                },
                Err(message) => SubscribeStep::Answer(
                    Reply::error(Status::BadRequest, message.as_str()),
                ),
            }
        },
        (SubscribeState::Validating { subscription }, SubscribeEvent::Validated(fault)) => match fault {
            Some(message) => SubscribeStep::Answer(
                Reply::error(Status::BadRequest, message.as_str()),
            ),
            None => SubscribeStep::Wait(SubscribeState::AdmittingRequest { subscription }),
        },
        (
            SubscribeState::AdmittingRequest { subscription },
            SubscribeEvent::RequestAdmitted(admitted),
        ) => if admitted {
            SubscribeStep::Wait(SubscribeState::AdmittingStore { subscription })
        } else {
            SubscribeStep::Answer(
                Reply::error(
                    Status::ServiceUnavailable,
                    "订阅请求繁忙，请稍后重试",
                ),
            )
        },
        (
            SubscribeState::AdmittingStore { subscription },
            SubscribeEvent::StoreAdmitted(admitted),
        ) => if admitted {
            SubscribeStep::Wait(SubscribeState::Storing { subscription })
        } else {
            SubscribeStep::Answer(
                Reply::error(Status::ServiceUnavailable, api::STORE_BUSY_MESSAGE),
            )
        },
        (SubscribeState::Storing { .. }, SubscribeEvent::Stored(stored)) => if stored {
            SubscribeStep::Wait(SubscribeState::Confirming)
        } else {
            SubscribeStep::Answer(
                Reply::error(
                    Status::InternalServerError,
                    "订阅暂时无法保存，请稍后重试",
                ),
            )
        },
        (SubscribeState::Confirming, SubscribeEvent::Confirmed(outcome)) => SubscribeStep::Answer(
            confirmation_reply(outcome),
        ),
        (state, _) => SubscribeStep::Wait(state),
    }
}

/// A subscription that is stored is what was asked for: the URL in its normal form, the trimmed
/// key, the places with trimmed names, and the rules as they were.
pub proof fn law_stored_subscription_is_what_was_asked<N>(
    request: SubscribeRequest<N>,
    device_key: String,
    bark_url: String,
    checking: SubscribeState<N>,
    located: SubscribeState<N>,
    validating: SubscribeState<N>,
    admitting: SubscribeState<N>,
    admitted: SubscribeState<N>,
    storing: SubscribeState<N>,
)
    requires
        subscribe_follows(
            SubscribeState::NormalizingUrl { request, device_key },
            SubscribeEvent::UrlNormalized(Some(bark_url)),
            SubscribeStep::Wait(checking),
        ),
        subscribe_follows(
            checking,
            SubscribeEvent::UrlAllowed(true),
            SubscribeStep::Wait(located),
        ),
        subscribe_follows(
            located,
            SubscribeEvent::CoordinatesChecked(true),
            SubscribeStep::Wait(validating),
        ),
        subscribe_follows(
            validating,
            SubscribeEvent::Validated(None),
            SubscribeStep::Wait(admitting),
        ),
        subscribe_follows(
            admitting,
            SubscribeEvent::RequestAdmitted(true),
            SubscribeStep::Wait(admitted),
        ),
        subscribe_follows(
            admitted,
            SubscribeEvent::StoreAdmitted(true),
            SubscribeStep::Wait(storing),
        ),
    ensures
        storing matches SubscribeState::Storing { subscription } && is_made_of(
            subscription,
            request,
            device_key,
            bark_url,
        ) && targets_fault(request.targets@, true) is None,
{
}

/// Whether a state serves a request: what it holds is the request with its trimmed device key, or
/// a subscription that is made of them.
pub open spec fn serves<N>(
    state: SubscribeState<N>,
    request: SubscribeRequest<N>,
    device_key: String,
) -> bool {
    match state {
        SubscribeState::NormalizingUrl { request: r, device_key: k } => r == request && k
            == device_key,
        SubscribeState::CheckingUrl { request: r, device_key: k, .. }
        | SubscribeState::CheckingCoordinates { request: r, device_key: k, .. } => r == request
            && k == device_key,
        SubscribeState::Validating { subscription }
        | SubscribeState::AdmittingRequest { subscription }
        | SubscribeState::AdmittingStore { subscription }
        | SubscribeState::Storing { subscription } => is_from(subscription, request, device_key),
        SubscribeState::Confirming => true,
    }
}

/// Whether a subscription is made of the parts of a request, with some URL.
pub open spec fn is_from<N>(
    subscription: Subscription<N>,
    request: SubscribeRequest<N>,
    device_key: String,
) -> bool {
    exists|bark_url: String| #[trigger]
        is_made_of(subscription, request, device_key, bark_url)
}

/// Whatever comes in whatever order, a request is served with what it asked for: no step mixes
/// in anything but the URL in its normal form.
pub proof fn law_every_step_serves_its_request<N>(
    request: SubscribeRequest<N>,
    device_key: String,
    state: SubscribeState<N>,
    event: SubscribeEvent,
    next: SubscribeState<N>,
)
    requires
        serves(state, request, device_key),
        subscribe_follows(state, event, SubscribeStep::Wait(next)),
    ensures
        serves(next, request, device_key),
{
    if let SubscribeState::CheckingCoordinates { bark_url, .. } = state {
        if let SubscribeState::Validating { subscription } = next {
            assert(is_made_of(subscription, request, device_key, bark_url));
        }
    }
}

/// Only a subscription whose test notification arrived is called saved.
pub proof fn law_only_confirmed_subscriptions_are_saved(
    reply: Reply<SubscribeResponse>,
    outcome: Option<SubscriptionConfirmationOutcome>,
)
    requires
        answers_confirmation(reply, outcome),
    ensures
        (reply.body.data matches Some(data) && data.saved) <==> outcome == Some(
            SubscriptionConfirmationOutcome::Activated,
        ),
{
}

// ---------------------------------------------------------------------------
// Unsubscribing
// ---------------------------------------------------------------------------
/// What a request to end a subscription waits for.
#[derive(Debug)]
pub enum UnsubscribeState {
    /// The URL of the request in its normal form.
    NormalizingUrl { request: UnsubscribeRequest, device_key: String },
    /// Whether notifications may go to the URL.
    CheckingUrl { destination: DestinationId },
    /// Room for one more access to the store.
    AdmittingStore { destination: DestinationId },
    /// That the subscription is removed.
    Deleting { destination: DestinationId },
}

/// What came of removing a subscription.
#[derive(Debug, Clone, Copy, PartialEq, Eq, Structural)]
pub enum DeleteOutcome {
    Deleted,
    NotFound,
    Failed,
}

#[derive(Debug)]
pub enum UnsubscribeEvent {
    UrlNormalized(Option<String>),
    UrlAllowed(bool),
    StoreAdmitted(bool),
    Deleted(DeleteOutcome),
}

#[derive(Debug)]
pub enum UnsubscribeStep {
    Wait(UnsubscribeState),
    Answer(Reply<()>),
}

impl UnsubscribeStep {
    /// Whether a request is refused in these words.
    pub open spec fn refuses(self, status: Status, message: Seq<char>) -> bool {
        self matches UnsubscribeStep::Answer(reply) && reply.is_error(status, message)
    }
}

/// Begins with a request to end a subscription. A request without the service token learns
/// nothing else. `payload` is `None` where the body could not be read.
pub fn start_unsubscribe(
    headers: &HeaderMap,
    service_token: &str,
    payload: Option<UnsubscribeRequest>,
) -> (r: UnsubscribeStep)
    ensures
        if !auth::shows_service_token(*headers, service_token@) {
            r.refuses(Status::Unauthorized, auth::BFF_AUTH_FAILED_MESSAGE@)
        } else {
            match payload {
                None => r.refuses(Status::BadRequest, "取消订阅请求体无效"@),
                Some(request) => {
                    let key = text::trimmed(request.destination->device_key@);
                    match device_key::device_key_fault(key) {
                        Some(fault) => r.refuses(Status::BadRequest, fault),
                        None => r matches UnsubscribeStep::Wait(
                            UnsubscribeState::NormalizingUrl { request: kept, device_key },
                        ) && kept == request && device_key@ == key,
                    }
                },
            }
        },
{
    if let Err(refusal) = auth::require_bff_service_token(headers, service_token) {
        return UnsubscribeStep::Answer(api::refusal_reply(refusal));
    }
    let request = match payload {
        Some(request) => request,
        None => {
            return UnsubscribeStep::Answer(
                Reply::error(Status::BadRequest, "取消订阅请求体无效"),
            );
        },
    };
    match device_key::validate_device_key(request.destination.bark_device_key()) {
        Ok(device_key) => UnsubscribeStep::Wait(
            UnsubscribeState::NormalizingUrl { request, device_key },
        ),
        Err(refusal) => UnsubscribeStep::Answer(api::refusal_reply(refusal)),
    }
}

/// What the outcome of removing a subscription is answered.
pub open spec fn answers_deletion(reply: Reply<()>, outcome: DeleteOutcome) -> bool {
    match outcome {
        DeleteOutcome::Deleted => reply.is_success(Status::Succeeded, "已取消订阅"@, None),
        DeleteOutcome::NotFound => reply.is_error(
            Status::NotFound,
            "订阅不存在或已取消"@,
        ),
        DeleteOutcome::Failed => reply.is_error(
            Status::InternalServerError,
            "取消订阅暂时无法完成，请稍后重试"@,
        ),
    }
}

/// Whether a request to end a subscription goes on rightly when what it waited for has come. What
/// it did not wait for changes nothing.
pub open spec fn unsubscribe_follows(
    state: UnsubscribeState,
    event: UnsubscribeEvent,
    step: UnsubscribeStep,
) -> bool {
    match (state, event) {
        (
            UnsubscribeState::NormalizingUrl { device_key, .. },
            UnsubscribeEvent::UrlNormalized(normalized),
        ) => match normalized {
            None => step.refuses(Status::BadRequest, "Bark URL 无效"@),
            Some(base_url) => step == UnsubscribeStep::Wait(
                UnsubscribeState::CheckingUrl {
                    destination: DestinationId { base_url, device_key },
                },
            ),
        },
        (UnsubscribeState::CheckingUrl { destination }, UnsubscribeEvent::UrlAllowed(allowed)) =>
        if allowed {
            step == UnsubscribeStep::Wait(UnsubscribeState::AdmittingStore { destination })
        } else {
            step.refuses(Status::BadRequest, "Bark URL 不在允许列表中"@)
        },
        (
            UnsubscribeState::AdmittingStore { destination },
            UnsubscribeEvent::StoreAdmitted(admitted),
        ) => if admitted {
            step == UnsubscribeStep::Wait(UnsubscribeState::Deleting { destination })
        } else {
            step.refuses(Status::ServiceUnavailable, api::STORE_BUSY_MESSAGE@)
        },
        (UnsubscribeState::Deleting { .. }, UnsubscribeEvent::Deleted(outcome)) => step matches
            UnsubscribeStep::Answer(reply) && answers_deletion(reply, outcome),
        _ => step == UnsubscribeStep::Wait(state),
    }
}

/// Goes on with a request to end a subscription when what it waited for has come.
pub fn advance_unsubscribe(state: UnsubscribeState, event: UnsubscribeEvent) -> (r:
    UnsubscribeStep)
    ensures
        unsubscribe_follows(state, event, r),
{
    match (state, event) {
        (
            UnsubscribeState::NormalizingUrl { request: _, device_key },
            UnsubscribeEvent::UrlNormalized(normalized),
        ) => match normalized {
            None => UnsubscribeStep::Answer(Reply::error(Status::BadRequest, "Bark URL 无效")),
            Some(base_url) => UnsubscribeStep::Wait(
                UnsubscribeState::CheckingUrl {
                    destination: DestinationId { base_url, device_key },
                },
            ),
        },
        (UnsubscribeState::CheckingUrl { destination }, UnsubscribeEvent::UrlAllowed(allowed)) =>
        if allowed {
            UnsubscribeStep::Wait(UnsubscribeState::AdmittingStore { destination })
        } else {
            UnsubscribeStep::Answer(
                Reply::error(Status::BadRequest, "Bark URL 不在允许列表中"),
            )
        },
        (
            UnsubscribeState::AdmittingStore { destination },
            UnsubscribeEvent::StoreAdmitted(admitted),
        ) => if admitted {
            UnsubscribeStep::Wait(UnsubscribeState::Deleting { destination })
        } else {
            UnsubscribeStep::Answer(
                Reply::error(Status::ServiceUnavailable, api::STORE_BUSY_MESSAGE),
            )
        },
        (UnsubscribeState::Deleting { .. }, UnsubscribeEvent::Deleted(outcome)) => {
            UnsubscribeStep::Answer(
                match outcome {
                    DeleteOutcome::Deleted => Reply::success(
                        Status::Succeeded,
                        "已取消订阅",
                        None,
                    ),
                    DeleteOutcome::NotFound => Reply::error(
                        Status::NotFound,
                        "订阅不存在或已取消",
                    ),
                    DeleteOutcome::Failed => Reply::error(
                        Status::InternalServerError,
                        "取消订阅暂时无法完成，请稍后重试",
                    ),
                },
            )
        },
        (state, _) => UnsubscribeStep::Wait(state),
    }
}

/// The subscription that is removed is the one that was named: by the URL in its normal form and
/// the trimmed key.
pub proof fn law_removed_subscription_is_the_one_named(
    request: UnsubscribeRequest,
    device_key: String,
    base_url: String,
    checking: UnsubscribeState,
    admitting: UnsubscribeState,
    deleting: UnsubscribeState,
)
    requires
        unsubscribe_follows(
            UnsubscribeState::NormalizingUrl { request, device_key },
            UnsubscribeEvent::UrlNormalized(Some(base_url)),
            UnsubscribeStep::Wait(checking),
        ),
        unsubscribe_follows(
            checking,
            UnsubscribeEvent::UrlAllowed(true),
            UnsubscribeStep::Wait(admitting),
        ),
        unsubscribe_follows(
            admitting,
            UnsubscribeEvent::StoreAdmitted(true),
            UnsubscribeStep::Wait(deleting),
        ),
    ensures
        deleting == (UnsubscribeState::Deleting {
            destination: DestinationId { base_url, device_key },
        }),
{
}

// ---------------------------------------------------------------------------
// The rest of the service
// ---------------------------------------------------------------------------
#[derive(Debug)]
pub struct SubscriptionOptionsResponse<N> {
    pub categories: Vec<CategoryOption<N>>,
}

/// The answer to what may be chosen for a subscription.
pub fn subscription_options<N>(categories: Vec<CategoryOption<N>>) -> (r: ApiResponse<
    SubscriptionOptionsResponse<N>,
>)
    ensures
        r.is_success("订阅选项获取成功"@, Some(SubscriptionOptionsResponse { categories })),
{
    ApiResponse::success("订阅选项获取成功", Some(SubscriptionOptionsResponse { categories }))
}

#[derive(Debug)]
pub struct BarkUrlsResponse {
    pub bark_urls: Vec<String>,
}

/// The answer to where notifications may go.
pub fn bark_urls_response(bark_urls: Vec<String>) -> (r: ApiResponse<BarkUrlsResponse>)
    ensures
        r.is_success("Bark URL 列表获取成功"@, Some(BarkUrlsResponse { bark_urls })),
{
    ApiResponse::success("Bark URL 列表获取成功", Some(BarkUrlsResponse { bark_urls }))
}

/// The answer to whether the service runs.
pub fn health_reply() -> (r: Reply<()>)
    ensures
        r.is_success(Status::Succeeded, "OK"@, None),
{
    Reply::success(Status::Succeeded, "OK", None)
}

/// The state of the service, with that of its parts.
#[derive(Debug)]
pub struct StatusResponse<S> {
    pub instance_terms_accepted: bool,
    pub total_subscriptions: usize,
    pub runtime: S,
}

/// The answer to how the service is. The store counts the subscriptions, and with what waits in it
/// the state of the parts is known.
pub fn status_reply<S>(instance_terms_accepted: bool, outcome: StoreOutcome<(usize, S)>) -> (r: Reply<
    StatusResponse<S>,
>)
    ensures
        match outcome {
            StoreOutcome::Busy => r.is_error(
                Status::ServiceUnavailable,
                "运行状态查询繁忙，请稍后重试"@,
            ),
            StoreOutcome::Failed => r.is_error(
                Status::InternalServerError,
                "运行状态暂时无法获取"@,
            ),
            StoreOutcome::Loaded((total_subscriptions, runtime)) => r.is_success(
                Status::Succeeded,
                "运行状态获取成功"@,
                Some(StatusResponse { instance_terms_accepted, total_subscriptions, runtime }),
            ),
        },
{
    match outcome {
        StoreOutcome::Busy => Reply::error(
            Status::ServiceUnavailable,
            "运行状态查询繁忙，请稍后重试",
        ),
        StoreOutcome::Failed => Reply::error(
            Status::InternalServerError,
            "运行状态暂时无法获取",
        ),
        StoreOutcome::Loaded((total_subscriptions, runtime)) => Reply::success(
            Status::Succeeded,
            "运行状态获取成功",
            Some(StatusResponse { instance_terms_accepted, total_subscriptions, runtime }),
        ),
    }
}

/// How many details may be looked up at once: four times as many as notifications are sent at
/// once, but at least 64 and at most 4096.
pub fn detail_concurrency(max_concurrent_notifications: usize) -> (r: usize)
    ensures
        r == (if max_concurrent_notifications * 4 < 64 {
            64
        } else if max_concurrent_notifications * 4 > 4096 {
            4096
        } else {
            max_concurrent_notifications * 4
        }),
{
    if max_concurrent_notifications < 16 {
        64
    } else if max_concurrent_notifications > 1024 {
        4096
    } else {
        max_concurrent_notifications * 4
    }
}

// ---------------------------------------------------------------------------
// What requests come to
// ---------------------------------------------------------------------------
/// An accepted place is the one that was asked for: each of its names is the trimmed name of the
/// same field, and it lies where it was asked for.
pub proof fn law_accepted_place_is_the_one_asked_for<N: Copy>(
    targets: Vec<MonitoringTarget<N>>,
    coordinates_valid: bool,
    r: Result<Vec<MonitoringTarget<N>>, String>,
    i: int,
)
    requires
        call_ensures(normalize_targets::<N>, (targets, coordinates_valid), r),
        r is Ok,
        0 <= i < targets@.len(),
    ensures
        r->Ok_0@.len() == targets@.len(),
        r->Ok_0@[i].label@ == text::trimmed(targets@[i].label@),
        r->Ok_0@[i].point.latitude == targets@[i].point.latitude,
        r->Ok_0@[i].point.longitude == targets@[i].point.longitude,
        r->Ok_0@[i].region.province@ == text::trimmed(targets@[i].region.province@),
        r->Ok_0@[i].region.city@ == text::trimmed(targets@[i].region.city@),
        r->Ok_0@[i].region.district@ == text::trimmed(targets@[i].region.district@),
{
    assert(is_trimmed(r->Ok_0@[i], targets@[i]));
}

/// A place whose names have no white space around them is accepted unchanged.
pub proof fn law_trimmed_place_is_unchanged<N: Copy>(
    targets: Vec<MonitoringTarget<N>>,
    coordinates_valid: bool,
    r: Result<Vec<MonitoringTarget<N>>, String>,
    i: int,
)
    requires
        call_ensures(normalize_targets::<N>, (targets, coordinates_valid), r),
        r is Ok,
        0 <= i < targets@.len(),
        has_no_outer_space(targets@[i].label@),
        has_no_outer_space(targets@[i].region.province@),
        has_no_outer_space(targets@[i].region.city@),
        has_no_outer_space(targets@[i].region.district@),
    ensures
        r->Ok_0@[i].label@ == targets@[i].label@,
        r->Ok_0@[i].point == targets@[i].point,
        r->Ok_0@[i].region.province@ == targets@[i].region.province@,
        r->Ok_0@[i].region.city@ == targets@[i].region.city@,
        r->Ok_0@[i].region.district@ == targets@[i].region.district@,
{
    assert(is_trimmed(r->Ok_0@[i], targets@[i]));
    lemma_no_outer_space(targets@[i].label@);
    lemma_no_outer_space(targets@[i].region.province@);
    lemma_no_outer_space(targets@[i].region.city@);
    lemma_no_outer_space(targets@[i].region.district@);
}

/// Whether a text neither begins nor ends with white space.
pub open spec fn has_no_outer_space(s: Seq<char>) -> bool {
    s.len() > 0 ==> !text::is_space(s[0]) && !text::is_space(s.last())
}

proof fn lemma_no_outer_space(s: Seq<char>)
    requires
        has_no_outer_space(s),
    ensures
        text::trimmed(s) == s,
{
    text::lemma_trimmed_fixed(s);
}

/// Places are accepted exactly where there are one to three of them, all lie on earth, and no
/// trimmed name has more than eighty characters.
pub proof fn law_which_places_are_accepted<N: Copy>(
    targets: Vec<MonitoringTarget<N>>,
    coordinates_valid: bool,
    r: Result<Vec<MonitoringTarget<N>>, String>,
)
    requires
        call_ensures(normalize_targets::<N>, (targets, coordinates_valid), r),
    ensures
        r is Ok <==> {
            &&& 1 <= targets@.len() <= 3
            &&& coordinates_valid
            &&& forall|i: int|
                0 <= i < targets@.len() ==> {
                    &&& text::trimmed((#[trigger] targets@[i]).label@).len() <= 80
                    &&& text::trimmed(targets@[i].region.province@).len() <= 80
                    &&& text::trimmed(targets@[i].region.city@).len() <= 80
                    &&& text::trimmed(targets@[i].region.district@).len() <= 80
                }
        },
{
    if r is Ok {
        lemma_no_target_fault(targets@);
        assert forall|i: int| 0 <= i < targets@.len() implies {
            &&& text::trimmed((#[trigger] targets@[i]).label@).len() <= 80
            &&& text::trimmed(targets@[i].region.province@).len() <= 80
            &&& text::trimmed(targets@[i].region.city@).len() <= 80
            &&& text::trimmed(targets@[i].region.district@).len() <= 80
        } by {
            assert(target_fault(targets@[i]) is None);
        }
    } else if 1 <= targets@.len() <= 3 && coordinates_valid && forall|i: int|
        0 <= i < targets@.len() ==> {
            &&& text::trimmed((#[trigger] targets@[i]).label@).len() <= 80
            &&& text::trimmed(targets@[i].region.province@).len() <= 80
            &&& text::trimmed(targets@[i].region.city@).len() <= 80
            &&& text::trimmed(targets@[i].region.district@).len() <= 80
        } {
        assert forall|i: int| 0 <= i < targets@.len() implies target_fault(
            #[trigger] targets@[i],
        ) is None by {}
        lemma_has_no_target_fault(targets@);
    }
}

/// The words for a name that is too long tell which name it is, in the order label, province, city
/// and district.
pub proof fn law_faults_of_places_name_the_field<N: Copy>(
    targets: Vec<MonitoringTarget<N>>,
    r: Result<Vec<MonitoringTarget<N>>, String>,
)
    requires
        call_ensures(normalize_targets::<N>, (targets, true), r),
        targets@.len() == 1,
        r is Err,
    ensures
        ({
            let place = targets@[0];
            let limit = text::decimal(80);
            let message = r->Err_0@;
            if text::trimmed(place.label@).len() > 80 {
                message == "监测地点"@ + "名称"@ + "最多 "@ + limit + " 个字符"@
            } else if text::trimmed(place.region.province@).len() > 80 {
                message == "监测地点"@ + "省级行政区"@ + "最多 "@ + limit + " 个字符"@
            } else if text::trimmed(place.region.city@).len() > 80 {
                message == "监测地点"@ + "城市"@ + "最多 "@ + limit + " 个字符"@
            } else {
                text::trimmed(place.region.district@).len() > 80 && message == "监测地点"@
                    + "区县"@ + "最多 "@ + limit + " 个字符"@
            }
        }),
{
    assert(first_target_fault(targets@.drop_last()) is None);
    assert(targets@.last() == targets@[0]);
}

/// A request that passes every check is stored as it was asked for: under the URL in its normal
/// form and the key, with the places and the rules of the request.
pub proof fn law_request_is_stored_as_asked_for<N: Copy>(
    request: SubscribeRequest<N>,
    device_key: String,
    bark_url: String,
    checking: SubscribeState<N>,
    located: SubscribeState<N>,
    validating: SubscribeState<N>,
    admitting: SubscribeState<N>,
    admitted: SubscribeState<N>,
    storing: SubscribeStep<N>,
)
    requires
        call_ensures(
            advance_subscribe::<N>,
            (
                SubscribeState::NormalizingUrl { request, device_key },
                SubscribeEvent::UrlNormalized(Some(bark_url)),
            ),
            SubscribeStep::Wait(checking),
        ),
        call_ensures(
            advance_subscribe::<N>,
            (checking, SubscribeEvent::UrlAllowed(true)),
            SubscribeStep::Wait(located),
        ),
        call_ensures(
            advance_subscribe::<N>,
            (located, SubscribeEvent::CoordinatesChecked(true)),
            SubscribeStep::Wait(validating),
        ),
        call_ensures(
            advance_subscribe::<N>,
            (validating, SubscribeEvent::Validated(None)),
            SubscribeStep::Wait(admitting),
        ),
        call_ensures(
            advance_subscribe::<N>,
            (admitting, SubscribeEvent::RequestAdmitted(true)),
            SubscribeStep::Wait(admitted),
        ),
        call_ensures(
            advance_subscribe::<N>,
            (admitted, SubscribeEvent::StoreAdmitted(true)),
            storing,
        ),
    ensures
        storing matches SubscribeStep::Wait(SubscribeState::Storing { subscription }) && {
            &&& subscription.destination matches NotificationDestination::Bark {
                base_url,
                device_key: key,
            } && base_url@ == bark_url@ && key@ == device_key@
            &&& subscription.alerts@ == request.alerts@
            &&& subscription.targets@.len() == request.targets@.len()
            &&& forall|i: int|
                0 <= i < request.targets@.len() ==> {
                    let stored = #[trigger] subscription.targets@[i];
                    let asked = request.targets@[i];
                    &&& stored.label@ == text::trimmed(asked.label@)
                    &&& stored.point.latitude == asked.point.latitude
                    &&& stored.point.longitude == asked.point.longitude
                    &&& stored.region.province@ == text::trimmed(asked.region.province@)
                    &&& stored.region.city@ == text::trimmed(asked.region.city@)
                    &&& stored.region.district@ == text::trimmed(asked.region.district@)
                }
        },
{
    let subscription = storing->Wait_0->Storing_subscription;
    assert forall|i: int| 0 <= i < request.targets@.len() implies is_trimmed(
        #[trigger] subscription.targets@[i],
        request.targets@[i],
    ) by {}
}

/// Each check is made in its turn, and none is passed over: a request comes from one to the next
/// only by what it waited for coming out well, and keeps waiting otherwise or is refused.
pub proof fn law_checks_come_in_order<N: Copy>(
    state: SubscribeState<N>,
    event: SubscribeEvent,
    step: SubscribeStep<N>,
)
    requires
        call_ensures(advance_subscribe::<N>, (state, event), step),
    ensures
        step matches SubscribeStep::Wait(next) ==> {
            ||| next == state
            ||| next is CheckingUrl && state is NormalizingUrl && event matches
                SubscribeEvent::UrlNormalized(Some(_))
            ||| next is CheckingCoordinates && state is CheckingUrl && event
                == SubscribeEvent::UrlAllowed(true)
            ||| next is Validating && state is CheckingCoordinates && event
                == SubscribeEvent::CoordinatesChecked(true)
            ||| next is AdmittingRequest && state is Validating && event matches
                SubscribeEvent::Validated(None)
            ||| next is AdmittingStore && state is AdmittingRequest && event
                == SubscribeEvent::RequestAdmitted(true)
            ||| next is Storing && state is AdmittingStore && event
                == SubscribeEvent::StoreAdmitted(true)
            ||| next is Confirming && state is Storing && event == SubscribeEvent::Stored(true)
        },
        step matches SubscribeStep::Answer(reply) ==> (reply.body.success ==> state is Confirming
            && event is Confirmed),
        step matches SubscribeStep::Answer(reply) ==> (!(state is Confirming) ==> reply.status
            == Status::BadRequest || reply.status == Status::ServiceUnavailable || reply.status
            == Status::InternalServerError),
{
}

/// A request whose check came out badly is refused at once: with what the requester can mend as a
/// bad request, and with what they cannot as an unavailable service.
pub proof fn law_failed_checks_are_refused<N: Copy>(
    state: SubscribeState<N>,
    event: SubscribeEvent,
    step: SubscribeStep<N>,
)
    requires
        call_ensures(advance_subscribe::<N>, (state, event), step),
    ensures
        state is NormalizingUrl && (event matches SubscribeEvent::UrlNormalized(None))
            ==> is_refusal(step, Status::BadRequest),
        state is CheckingUrl && event == SubscribeEvent::UrlAllowed(false) ==> is_refusal(
            step,
            Status::BadRequest,
        ),
        state is CheckingCoordinates && event == SubscribeEvent::CoordinatesChecked(false)
            ==> is_refusal(step, Status::BadRequest),
        state is Validating ==> (event matches SubscribeEvent::Validated(Some(message))
            ==> is_refusal(step, Status::BadRequest) && step->Answer_0.body.message@ == message@),
        state is AdmittingRequest && event == SubscribeEvent::RequestAdmitted(false)
            ==> is_refusal(step, Status::ServiceUnavailable),
        state is AdmittingStore && event == SubscribeEvent::StoreAdmitted(false) ==> is_refusal(
            step,
            Status::ServiceUnavailable,
        ),
        state is Storing && event == SubscribeEvent::Stored(false) ==> is_refusal(
            step,
            Status::InternalServerError,
        ),
{
}

/// Whether a request is refused with a status.
pub open spec fn is_refusal<N>(step: SubscribeStep<N>, status: Status) -> bool {
    step matches SubscribeStep::Answer(reply) && reply.status == status && !reply.body.success
        && reply.body.data is None
}

/// What came of the test notification decides the answer: saved, accepted to be tried again,
/// refused by Bark, overtaken by another request, or unknown.
pub proof fn law_confirmations_are_answered(
    outcome: Option<SubscriptionConfirmationOutcome>,
    r: Reply<SubscribeResponse>,
)
    requires
        call_ensures(confirmation_reply, (outcome,), r),
    ensures
        outcome is None ==> r.status == Status::InternalServerError,
        outcome == Some(SubscriptionConfirmationOutcome::Activated) <==> r.status
            == Status::Succeeded,
        outcome == Some(SubscriptionConfirmationOutcome::Pending) <==> r.status == Status::Accepted,
        outcome == Some(SubscriptionConfirmationOutcome::Rejected) <==> r.status
            == Status::BadGateway,
        outcome == Some(SubscriptionConfirmationOutcome::Superseded) <==> r.status
            == Status::Conflict,
        r.body.success <==> r.status == Status::Succeeded || r.status == Status::Accepted,
        r.body.data is Some <==> r.body.success,
        r.body.data matches Some(data) ==> (data.saved <==> outcome == Some(
            SubscriptionConfirmationOutcome::Activated,
        )),
{
}

/// Who does not show the service token is refused, whatever else holds and whatever they ask.
pub proof fn law_strangers_learn_nothing<N>(
    headers: &HeaderMap,
    service_token: &str,
    accepted: bool,
    payload: Option<SubscribeRequest<N>>,
    r: SubscribeStep<N>,
    other_accepted: bool,
    other_payload: Option<SubscribeRequest<N>>,
    other: SubscribeStep<N>,
)
    requires
        !auth::shows_service_token(*headers, service_token@),
        call_ensures(
            start_subscribe::<N>,
            (headers, service_token, accepted, payload),
            r,
        ),
        call_ensures(
            start_subscribe::<N>,
            (headers, service_token, other_accepted, other_payload),
            other,
        ),
    ensures
        is_refusal(r, Status::Unauthorized),
        is_refusal(other, Status::Unauthorized),
        r->Answer_0.body.message@ == other->Answer_0.body.message@,
{
}

/// Who shows the service token may subscribe where the terms of the instance are accepted, with a
/// request that can be read and a key that is one; the request is then taken as it is, with the
/// trimmed key.
pub proof fn law_who_may_subscribe<N>(
    headers: &HeaderMap,
    service_token: &str,
    accepted: bool,
    payload: Option<SubscribeRequest<N>>,
    r: SubscribeStep<N>,
)
    requires
        auth::shows_service_token(*headers, service_token@),
        call_ensures(
            start_subscribe::<N>,
            (headers, service_token, accepted, payload),
            r,
        ),
    ensures
        r is Wait <==> accepted && payload is Some && device_key::is_device_key(
            text::trimmed(payload->0.destination->device_key@),
        ),
        !accepted ==> is_refusal(r, Status::ServiceUnavailable),
        accepted && r is Answer ==> is_refusal(r, Status::BadRequest),
        r matches SubscribeStep::Wait(state) ==> {
            &&& state is NormalizingUrl
            &&& state->NormalizingUrl_request == payload->0
            &&& state->NormalizingUrl_device_key@ == text::trimmed(
                payload->0.destination->device_key@,
            )
        },
{
    if let Some(request) = payload {
        device_key::lemma_device_key_fault(text::trimmed(request.destination->device_key@));
    }
}

/// Subscriptions are made only where the terms of the instance are accepted.
pub proof fn law_terms_come_first(accepted: bool, r: Result<(), Reply<SubscribeResponse>>)
    requires
        call_ensures(require_subscription_creation_enabled, (accepted,), r),
    ensures
        accepted ==> r is Ok,
        !accepted ==> (r matches Err(reply) && reply.status == Status::ServiceUnavailable
            && !reply.body.success && reply.body.data is None),
{
}

/// The same holds of ending a subscription: who does not show the service token is refused
/// whatever they ask, and who does is heard with the key that they name.
pub proof fn law_who_may_unsubscribe(
    headers: &HeaderMap,
    service_token: &str,
    payload: Option<UnsubscribeRequest>,
    r: UnsubscribeStep,
)
    requires
        call_ensures(start_unsubscribe, (headers, service_token, payload), r),
    ensures
        r is Wait <==> auth::shows_service_token(*headers, service_token@) && payload is Some
            && device_key::is_device_key(text::trimmed(payload->0.destination->device_key@)),
        r matches UnsubscribeStep::Answer(reply) ==> !reply.body.success && (reply.status
            == Status::Unauthorized <==> !auth::shows_service_token(*headers, service_token@)) && (
        reply.status == Status::Unauthorized || reply.status == Status::BadRequest),
        r matches UnsubscribeStep::Wait(state) ==> {
            &&& state is NormalizingUrl
            &&& state->NormalizingUrl_device_key@ == text::trimmed(
                payload->0.destination->device_key@,
            )
        },
{
    if let Some(request) = payload {
        device_key::lemma_device_key_fault(text::trimmed(request.destination->device_key@));
    }
}

/// The subscription that is removed is the one under the URL in its normal form and the key that
/// was named, and it is removed only after both checks came out well.
pub proof fn law_subscription_is_removed_as_asked_for(
    request: UnsubscribeRequest,
    device_key: String,
    base_url: String,
    checking: UnsubscribeState,
    admitting: UnsubscribeState,
    deleting: UnsubscribeStep,
)
    requires
        call_ensures(
            advance_unsubscribe,
            (
                UnsubscribeState::NormalizingUrl { request, device_key },
                UnsubscribeEvent::UrlNormalized(Some(base_url)),
            ),
            UnsubscribeStep::Wait(checking),
        ),
        call_ensures(
            advance_unsubscribe,
            (checking, UnsubscribeEvent::UrlAllowed(true)),
            UnsubscribeStep::Wait(admitting),
        ),
        call_ensures(
            advance_unsubscribe,
            (admitting, UnsubscribeEvent::StoreAdmitted(true)),
            deleting,
        ),
    ensures
        deleting matches UnsubscribeStep::Wait(UnsubscribeState::Deleting { destination })
            && destination.base_url@ == base_url@ && destination.device_key@ == device_key@,
{
}

/// Removing goes on only by what it waited for coming out well, and its outcome decides the
/// answer.
pub proof fn law_removing_comes_in_order(
    state: UnsubscribeState,
    event: UnsubscribeEvent,
    step: UnsubscribeStep,
)
    requires
        call_ensures(advance_unsubscribe, (state, event), step),
    ensures
        step matches UnsubscribeStep::Wait(next) ==> {
            ||| next == state
            ||| next is CheckingUrl && state is NormalizingUrl && event matches
                UnsubscribeEvent::UrlNormalized(Some(_))
            ||| next is AdmittingStore && state is CheckingUrl && event
                == UnsubscribeEvent::UrlAllowed(true)
            ||| next is Deleting && state is AdmittingStore && event
                == UnsubscribeEvent::StoreAdmitted(true)
        },
        step matches UnsubscribeStep::Answer(reply) ==> {
            &&& reply.body.success <==> state is Deleting && event == UnsubscribeEvent::Deleted(
                DeleteOutcome::Deleted,
            )
            &&& reply.body.success <==> reply.status == Status::Succeeded
            &&& reply.status == Status::NotFound <==> state is Deleting && event
                == UnsubscribeEvent::Deleted(DeleteOutcome::NotFound)
            &&& reply.status == Status::InternalServerError <==> state is Deleting && event
                == UnsubscribeEvent::Deleted(DeleteOutcome::Failed)
            &&& reply.status == Status::ServiceUnavailable <==> state is AdmittingStore
        },
        state is NormalizingUrl && (event matches UnsubscribeEvent::UrlNormalized(None)) ==> step
            is Answer,
        state is CheckingUrl && event == UnsubscribeEvent::UrlAllowed(false) ==> step is Answer,
        state is AdmittingStore && event == UnsubscribeEvent::StoreAdmitted(false) ==> step
            is Answer,
        state is Deleting && event is Deleted ==> step is Answer,
{
}

/// The state of the service is told as it was loaded, and nothing is told of it otherwise.
pub proof fn law_status_is_told_as_it_is<S>(
    accepted: bool,
    outcome: StoreOutcome<(usize, S)>,
    r: Reply<StatusResponse<S>>,
)
    requires
        call_ensures(status_reply::<S>, (accepted, outcome), r),
    ensures
        outcome matches StoreOutcome::Loaded((total, runtime)) ==> (r.body.data matches Some(data)
            && data.instance_terms_accepted == accepted && data.total_subscriptions == total
            && data.runtime == runtime && r.body.success && r.status == Status::Succeeded),
        !(outcome is Loaded) ==> r.body.data is None && !r.body.success,
        outcome is Busy ==> r.status == Status::ServiceUnavailable,
        outcome is Failed ==> r.status == Status::InternalServerError,
{
}

/// What may be chosen, and where notifications may go, is told as it is.
pub proof fn law_choices_are_told_as_they_are<N>(
    categories: Vec<CategoryOption<N>>,
    options: ApiResponse<SubscriptionOptionsResponse<N>>,
    bark_urls: Vec<String>,
    urls: ApiResponse<BarkUrlsResponse>,
    health: Reply<()>,
)
    requires
        call_ensures(subscription_options::<N>, (categories,), options),
        call_ensures(bark_urls_response, (bark_urls,), urls),
        call_ensures(health_reply, (), health),
    ensures
        options.success && (options.data matches Some(data) && data.categories@ == categories@),
        urls.success && (urls.data matches Some(data) && data.bark_urls@ == bark_urls@),
        health.body.success && health.status == Status::Succeeded,
{
}

/// At least 64 and at most 4096 details are looked up at once, four for each notification between
/// these bounds, and never fewer where more notifications are sent.
pub proof fn law_detail_concurrency(fewer: usize, more: usize, a: usize, b: usize)
    requires
        fewer <= more,
        call_ensures(detail_concurrency, (fewer,), a),
        call_ensures(detail_concurrency, (more,), b),
    ensures
        64 <= a <= b <= 4096,
        16 <= fewer <= 1024 ==> a == 4 * fewer,
{
}

/// What is said of each outcome of a confirmation and of a removal, and of the rest of the service.
pub proof fn law_words_about_subscribing<N: Copy, S>(
    outcome: Option<SubscriptionConfirmationOutcome>,
    r: Reply<SubscribeResponse>,
    destination: DestinationId,
    deletion: DeleteOutcome,
    removed: UnsubscribeStep,
    accepted: bool,
    status: StoreOutcome<(usize, S)>,
    told: Reply<StatusResponse<S>>,
    terms: Result<(), Reply<SubscribeResponse>>,
)
    requires
        call_ensures(confirmation_reply, (outcome,), r),
        call_ensures(
            advance_unsubscribe,
            (
                (UnsubscribeState::Deleting { destination }),
                UnsubscribeEvent::Deleted(deletion),
            ),
            removed,
        ),
        call_ensures(status_reply::<S>, (accepted, status), told),
        call_ensures(require_subscription_creation_enabled, (accepted,), terms),
    ensures
        r.body.message@ == (match outcome {
            Some(SubscriptionConfirmationOutcome::Activated) => "订阅已保存，确认通知已发送"@,
            Some(SubscriptionConfirmationOutcome::Pending) => "Bark 服务暂时不可用，订阅确认将在后台重试"@,
            Some(SubscriptionConfirmationOutcome::Rejected) => "Bark 接收测试失败，请检查 Bark Key；订阅未激活"@,
            Some(SubscriptionConfirmationOutcome::Superseded) => "该 Bark 目标已有更新的订阅请求，请以最新请求为准"@,
            None => "订阅确认状态暂时无法更新，后台将自动恢复"@,
        }),
        removed matches UnsubscribeStep::Answer(reply) && reply.body.message@ == (match deletion {
            DeleteOutcome::Deleted => "已取消订阅"@,
            DeleteOutcome::NotFound => "订阅不存在或已取消"@,
            DeleteOutcome::Failed => "取消订阅暂时无法完成，请稍后重试"@,
        }) && reply.status == (match deletion {
            DeleteOutcome::Deleted => Status::Succeeded,
            DeleteOutcome::NotFound => Status::NotFound,
            DeleteOutcome::Failed => Status::InternalServerError,
        }),
        told.body.message@ == (match status {
            StoreOutcome::Busy => "运行状态查询繁忙，请稍后重试"@,
            StoreOutcome::Failed => "运行状态暂时无法获取"@,
            StoreOutcome::Loaded(_) => "运行状态获取成功"@,
        }),
        terms matches Err(reply) ==> reply.body.message@
            == "当前实例尚未确认部署责任，暂不接受新增或覆盖订阅"@,
{
}

/// What is said of each check of a request for a subscription that fails.
pub proof fn law_words_about_failed_checks<N: Copy>(
    state: SubscribeState<N>,
    event: SubscribeEvent,
    r: SubscribeStep<N>,
)
    requires
        call_ensures(advance_subscribe::<N>, (state, event), r),
    ensures
        state is NormalizingUrl && event == SubscribeEvent::UrlNormalized(None) ==> (r matches
            SubscribeStep::Answer(reply) && reply.body.message@ == "Bark URL 无效"@),
        state is CheckingUrl && event == SubscribeEvent::UrlAllowed(false) ==> (r matches
            SubscribeStep::Answer(reply) && reply.body.message@
            == "Bark URL 不在允许列表中"@),
        state is Validating ==> (event matches SubscribeEvent::Validated(Some(fault)) ==> (
        r matches SubscribeStep::Answer(reply) && reply.body.message@ == fault@)),
        state is AdmittingRequest && event == SubscribeEvent::RequestAdmitted(false) ==> (r matches
            SubscribeStep::Answer(reply) && reply.body.message@
            == "订阅请求繁忙，请稍后重试"@),
        state is AdmittingStore && event == SubscribeEvent::StoreAdmitted(false) ==> (r matches
            SubscribeStep::Answer(reply) && reply.body.message@
            == "订阅存储繁忙，请稍后重试"@),
        state is Storing && event == SubscribeEvent::Stored(false) ==> (r matches
            SubscribeStep::Answer(reply) && reply.body.message@
            == "订阅暂时无法保存，请稍后重试"@),
{
}

/// What is said of each check of a request to end a subscription that fails.
pub proof fn law_words_about_failed_removals(
    state: UnsubscribeState,
    event: UnsubscribeEvent,
    r: UnsubscribeStep,
)
    requires
        call_ensures(advance_unsubscribe, (state, event), r),
    ensures
        state is NormalizingUrl && event == UnsubscribeEvent::UrlNormalized(None) ==> (r matches
            UnsubscribeStep::Answer(reply) && reply.body.message@ == "Bark URL 无效"@
            && reply.status == Status::BadRequest),
        state is CheckingUrl && event == UnsubscribeEvent::UrlAllowed(false) ==> (r matches
            UnsubscribeStep::Answer(reply) && reply.body.message@
            == "Bark URL 不在允许列表中"@ && reply.status == Status::BadRequest),
        state is AdmittingStore && event == UnsubscribeEvent::StoreAdmitted(false) ==> (r matches
            UnsubscribeStep::Answer(reply) && reply.body.message@
            == "订阅存储繁忙，请稍后重试"@ && reply.status
            == Status::ServiceUnavailable),
{
}

} // verus!
