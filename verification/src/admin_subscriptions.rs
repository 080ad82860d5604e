//! Looking subscriptions up.
use crate::api::{self, Refusal, Reply, Status, StoreOutcome};
use crate::auth;
use crate::device_key;
use crate::models::Subscription;
use crate::text;
use axum::http::HeaderMap;
use vstd::prelude::*;

verus! {

#[derive(Debug)]
pub struct AdminSubscriptionQuery {
    pub device_key: String,
}

#[derive(Debug)]
pub struct DeviceKeysResponse {
    pub device_keys: Vec<String>,
}

#[derive(Debug)]
pub struct SubscriptionsResponse<N> {
    pub subscriptions: Vec<Subscription<N>>,
}

/// Whose subscriptions an operator asks for. `query` is `None` where the query could not be read
/// or lacks the key.
pub fn parse_admin_subscription_query(query: Option<AdminSubscriptionQuery>) -> (r: Result<
    String,
    Refusal,
>)
    ensures
        match query {
            None => r matches Err(refusal) && api::refused_with(
                refusal,
                Status::BadRequest,
                "Bark Key 不能为空"@,
            ),
            Some(query) => {
                let key = text::trimmed(query.device_key@);
                match r {
                    Ok(k) => device_key::is_device_key(key) && k@ == key,
                    Err(refusal) => !device_key::is_device_key(key) && api::refused_with(
                        refusal,
                        Status::BadRequest,
                        device_key::device_key_fault(key)->0,
                    ),
                }
            },
        },
{
    match query {
        Some(query) => device_key::validate_device_key(query.device_key.as_str()),
        None => Err((Status::BadRequest, "Bark Key 不能为空".to_owned())),
    }
}

/// Whose subscriptions a subscriber asks for: those of the device whose key the request shows.
pub fn open_subscriptions_request<N>(headers: &HeaderMap) -> (r: Result<
    String,
    Reply<SubscriptionsResponse<N>>,
>)
    ensures
        match r {
            Ok(key) => auth::shown_device_key(*headers) == Some(key@),
            Err(reply) => auth::shown_device_key(*headers) is None && reply.is_error(
                Status::Unauthorized,
                auth::AUTH_FAILED_MESSAGE@,
            ),
        },
{
    match auth::require_bearer(headers) {
        Ok(key) => Ok(key),
        Err(refusal) => Err(api::refusal_reply(refusal)),
    }
}

/// The answer to the list of all devices with a subscription.
pub fn device_keys_reply(outcome: StoreOutcome<Vec<String>>) -> (r: Reply<DeviceKeysResponse>)
    ensures
        match outcome {
            StoreOutcome::Busy => r.is_error(Status::ServiceUnavailable, api::STORE_BUSY_MESSAGE@),
            StoreOutcome::Failed => r.is_error(
                Status::InternalServerError,
                "订阅列表暂时无法获取"@,
            ),
            StoreOutcome::Loaded(device_keys) => r.is_success(
                Status::Succeeded,
                "Bark Key 列表获取成功"@,
                Some(DeviceKeysResponse { device_keys }),
            ),
        },
{
    match outcome {
        StoreOutcome::Busy => Reply::error(Status::ServiceUnavailable, api::STORE_BUSY_MESSAGE),
        StoreOutcome::Failed => Reply::error(
            Status::InternalServerError,
            "订阅列表暂时无法获取",
        ),
        StoreOutcome::Loaded(device_keys) => Reply::success(
            Status::Succeeded,
            "Bark Key 列表获取成功",
            Some(DeviceKeysResponse { device_keys }),
        ),
    }
}

/// The answer to the subscriptions of a device. A device without any is told so, as an error
/// with the status of a success.
pub fn subscriptions_reply<N>(outcome: StoreOutcome<Vec<Subscription<N>>>) -> (r: Reply<
    SubscriptionsResponse<N>,
>)
    ensures
        match outcome {
            StoreOutcome::Busy => r.is_error(Status::ServiceUnavailable, api::STORE_BUSY_MESSAGE@),
            StoreOutcome::Failed => r.is_error(
                Status::InternalServerError,
                "订阅详情暂时无法获取"@,
            ),
            StoreOutcome::Loaded(subscriptions) => if subscriptions@.len() == 0 {
                r.is_error(Status::Succeeded, "订阅不存在或已取消"@)
            } else {
                r.is_success(
                    Status::Succeeded,
                    "订阅详情获取成功"@,
                    Some(SubscriptionsResponse { subscriptions }),
                )
            },
        },
{
    match outcome {
        StoreOutcome::Busy => Reply::error(Status::ServiceUnavailable, api::STORE_BUSY_MESSAGE),
        StoreOutcome::Failed => Reply::error(
            Status::InternalServerError,
            "订阅详情暂时无法获取",
        ),
        StoreOutcome::Loaded(subscriptions) => if subscriptions.len() == 0 {
            Reply::error(Status::Succeeded, "订阅不存在或已取消")
        } else {
            Reply::success(
                Status::Succeeded,
                "订阅详情获取成功",
                Some(SubscriptionsResponse { subscriptions }),
            )
        },
    }
}

/// An operator sees the subscriptions of the device that they name: by its trimmed key, which has
/// to be one.
pub proof fn law_operators_name_the_device(
    query: Option<AdminSubscriptionQuery>,
    r: Result<String, Refusal>,
)
    requires
        call_ensures(parse_admin_subscription_query, (query,), r),
    ensures
        r is Ok <==> query is Some && device_key::is_device_key(
            text::trimmed(query->0.device_key@),
        ),
        r matches Ok(key) ==> key@ == text::trimmed(query->0.device_key@),
        r matches Err(refusal) ==> refusal.0 == Status::BadRequest,
{
}

/// A subscriber sees the subscriptions of the device whose key they show, and of no other.
pub proof fn law_subscribers_see_their_own_subscriptions<N>(
    headers: &HeaderMap,
    r: Result<String, Reply<SubscriptionsResponse<N>>>,
)
    requires
        call_ensures(open_subscriptions_request::<N>, (headers,), r),
    ensures
        r is Ok <==> auth::shown_device_key(*headers) is Some,
        r matches Ok(key) ==> auth::bearer(*headers) == Some(key@),
        r matches Err(reply) ==> reply.status == Status::Unauthorized && !reply.body.success
            && reply.body.data is None,
{
}

/// The devices and the subscriptions that the store has are listed as they are, all of them and in
/// its order; a device without subscriptions is told so.
pub proof fn law_stored_subscriptions_are_listed<N>(
    keys: StoreOutcome<Vec<String>>,
    of_keys: Reply<DeviceKeysResponse>,
    outcome: StoreOutcome<Vec<Subscription<N>>>,
    r: Reply<SubscriptionsResponse<N>>,
)
    requires
        call_ensures(device_keys_reply, (keys,), of_keys),
        call_ensures(subscriptions_reply::<N>, (outcome,), r),
    ensures
        keys matches StoreOutcome::Loaded(list) ==> (of_keys.body.data matches Some(data)
            && data.device_keys@ == list@ && of_keys.body.success && of_keys.status
            == Status::Succeeded),
        !(keys is Loaded) ==> of_keys.body.data is None && !of_keys.body.success,
        keys is Busy ==> of_keys.status == Status::ServiceUnavailable,
        keys is Failed ==> of_keys.status == Status::InternalServerError,
        outcome matches StoreOutcome::Loaded(list) ==> r.status == Status::Succeeded && (list@.len()
            > 0 <==> r.body.success) && (list@.len() > 0 <==> r.body.data is Some) && (
        r.body.data matches Some(data) ==> data.subscriptions@ == list@),
        !(outcome is Loaded) ==> r.body.data is None && !r.body.success,
        outcome is Busy ==> r.status == Status::ServiceUnavailable,
        outcome is Failed ==> r.status == Status::InternalServerError,
{
}

/// What is said of each outcome.
pub proof fn law_words_about_subscriptions<N>(
    keys: StoreOutcome<Vec<String>>,
    of_keys: Reply<DeviceKeysResponse>,
    outcome: StoreOutcome<Vec<Subscription<N>>>,
    r: Reply<SubscriptionsResponse<N>>,
)
    requires
        call_ensures(device_keys_reply, (keys,), of_keys),
        call_ensures(subscriptions_reply::<N>, (outcome,), r),
    ensures
        keys is Busy ==> of_keys.body.message@ == "订阅存储繁忙，请稍后重试"@,
        keys is Failed ==> of_keys.body.message@ == "订阅列表暂时无法获取"@,
        keys is Loaded ==> of_keys.body.message@ == "Bark Key 列表获取成功"@,
        outcome is Busy ==> r.body.message@ == "订阅存储繁忙，请稍后重试"@,
        outcome is Failed ==> r.body.message@ == "订阅详情暂时无法获取"@,
        outcome matches StoreOutcome::Loaded(list) ==> r.body.message@ == (if list@.len() == 0 {
            "订阅不存在或已取消"@
        } else {
            "订阅详情获取成功"@
        }),
{
}

} // verus!
