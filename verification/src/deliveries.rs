//! Listing the notifications that were delivered.
use crate::api::{self, Refusal, Reply, Status, StoreOutcome};
use crate::auth;
use crate::device_key;
use crate::events;
use crate::models::{DisasterCategory, InterruptionLevel};
use crate::text;
use axum::http::HeaderMap;
use vstd::prelude::*;

verus! {

pub const NOT_FOUND_MESSAGE: &'static str = "未找到该 Bark Key 的订阅";

pub const MISSING_KEY_MESSAGE: &'static str = "Bark Key 不能为空";

#[derive(Debug)]
pub struct DeliveryQuery {
    pub limit: Option<u16>,
}

#[derive(Debug)]
pub struct AdminDeliveryQuery {
    pub device_key: String,
    pub limit: Option<u16>,
}

/// How many deliveries are asked for. `query` is `None` where the query could not be read.
pub fn parse_delivery_query(query: Option<DeliveryQuery>) -> (r: Result<usize, Refusal>)
    ensures
        match query {
            None => r matches Err(refusal) && api::refused_with(
                refusal,
                Status::BadRequest,
                events::QUERY_MESSAGE@,
            ),
            Some(query) => match r {
                Ok(n) => events::page_limit(query.limit) == Some(n as nat),
                Err(refusal) => events::page_limit(query.limit) is None && api::refused_with(
                    refusal,
                    Status::BadRequest,
                    events::LIMIT_MESSAGE@,
                ),
            },
        },
{
    match query {
        Some(query) => events::parse_limit(query.limit),
        None => Err((Status::BadRequest, events::QUERY_MESSAGE.to_owned())),
    }
}

/// Whose deliveries an operator asks for, and how many. An empty key stands for all devices, a
/// missing one is refused: `query` is `None` where the query could not be read or lacks the key.
pub fn parse_admin_delivery_query(query: Option<AdminDeliveryQuery>) -> (r: Result<
    (Option<String>, usize),
    Refusal,
>)
    ensures
        match query {
            None => r matches Err(refusal) && api::refused_with(
                refusal,
                Status::BadRequest,
                MISSING_KEY_MESSAGE@,
            ),
            Some(query) => {
                let key = text::trimmed(query.device_key@);
                match r {
                    Ok((whose, n)) => {
                        &&& events::page_limit(query.limit) == Some(n as nat)
                        &&& if key.len() == 0 {
                            whose is None
                        } else {
                            device_key::is_device_key(key) && (whose matches Some(k) && k@ == key)
                        }
                    },
                    Err(refusal) => if key.len() > 0 && !device_key::is_device_key(key) {
                        api::refused_with(
                            refusal,
                            Status::BadRequest,
                            device_key::device_key_fault(key)->0,
                        )
                    } else {
                        events::page_limit(query.limit) is None && api::refused_with(
                            refusal,
                            Status::BadRequest,
                            events::LIMIT_MESSAGE@,
                        )
                    },
                }
            },
        },
{
    let query = match query {
        Some(query) => query,
        None => {
            return Err((Status::BadRequest, MISSING_KEY_MESSAGE.to_owned()));
        },
    };
    let whose = if text::trim(query.device_key.as_str()).is_empty() {
        None
    } else {
        match device_key::validate_device_key(query.device_key.as_str()) {
            Ok(key) => Some(key),
            Err(refusal) => {
                return Err(refusal);
            },
        }
    };
    match events::parse_limit(query.limit) {
        Ok(limit) => Ok((whose, limit)),
        Err(refusal) => Err(refusal),
    }
}

/// Whose deliveries a subscriber asks for, and how many: those of the device whose key the
/// request shows.
pub fn open_deliveries_request<N>(headers: &HeaderMap, query: Option<DeliveryQuery>) -> (r: Result<
    (String, usize),
    Reply<DeliveriesResponse<N>>,
>)
    ensures
        match auth::shown_device_key(*headers) {
            None => r matches Err(reply) && reply.is_error(
                Status::Unauthorized,
                auth::AUTH_FAILED_MESSAGE@,
            ),
            Some(key) => match query {
                None => r matches Err(reply) && reply.is_error(
                    Status::BadRequest,
                    events::QUERY_MESSAGE@,
                ),
                Some(query) => match events::page_limit(query.limit) {
                    None => r matches Err(reply) && reply.is_error(
                        Status::BadRequest,
                        events::LIMIT_MESSAGE@,
                    ),
                    Some(limit) => r matches Ok((whose, n)) && whose@ == key && n == limit,
                },
            },
        },
{
    let key = match auth::require_bearer(headers) {
        Ok(key) => key,
        Err(refusal) => {
            return Err(api::refusal_reply(refusal));
        },
    };
    match parse_delivery_query(query) {
        Ok(limit) => Ok((key, limit)),
        Err(refusal) => Err(api::refusal_reply(refusal)),
    }
}

/// A delivered notification, as it is stored.
#[derive(Debug)]
pub struct DeviceDeliveryRecord<N> {
    pub delivered_at_ms: i64,
    pub incident_id: String,
    pub category: DisasterCategory,
    pub source: Option<String>,
    pub event_id: Option<String>,
    pub title: Option<String>,
    pub interruption_level: InterruptionLevel,
    pub distance_km: N,
    pub estimated_intensity: N,
    pub target_label: Option<String>,
    pub bark_base_url: String,
    pub device_key: String,
}

/// A delivered notification, as it is listed. Only operators see the key of the device.
#[derive(Debug)]
pub struct DeliveryView<N> {
    pub delivered_at_ms: i64,
    pub incident_id: String,
    pub category: DisasterCategory,
    pub source: Option<String>,
    pub event_id: Option<String>,
    pub title: Option<String>,
    pub interruption_level: InterruptionLevel,
    pub distance_km: N,
    pub estimated_intensity: N,
    pub target_label: Option<String>,
    pub bark_base_url: String,
    pub device_key: Option<String>,
}

impl<N> DeliveryView<N> {
    /// How a delivery is listed.
    pub open spec fn of(record: DeviceDeliveryRecord<N>, with_key: bool) -> DeliveryView<N> {
        DeliveryView {
            delivered_at_ms: record.delivered_at_ms,
            incident_id: record.incident_id,
            category: record.category,
            source: record.source,
            event_id: record.event_id,
            title: record.title,
            interruption_level: record.interruption_level,
            distance_km: record.distance_km,
            estimated_intensity: record.estimated_intensity,
            target_label: record.target_label,
            bark_base_url: record.bark_base_url,
            device_key: if with_key {
                Some(record.device_key)
            } else {
                None
            },
        }
    }

    pub fn from_record(record: DeviceDeliveryRecord<N>, with_key: bool) -> (r: DeliveryView<N>)
        ensures
            r == DeliveryView::of(record, with_key),
    {
        DeliveryView {
            delivered_at_ms: record.delivered_at_ms,
            incident_id: record.incident_id,
            category: record.category,
            source: record.source,
            event_id: record.event_id,
            title: record.title,
            interruption_level: record.interruption_level,
            distance_km: record.distance_km,
            estimated_intensity: record.estimated_intensity,
            target_label: record.target_label,
            bark_base_url: record.bark_base_url,
            device_key: if with_key {
                Some(record.device_key)
            } else {
                None
            },
        }
    }
}

/// The key of a device is listed for operators, and for nobody else.
pub proof fn law_keys_are_listed_for_operators<N>(record: DeviceDeliveryRecord<N>)
    ensures
        DeliveryView::of(record, true).device_key == Some(record.device_key),
        DeliveryView::of(record, false).device_key is None,
{
}

#[derive(Debug)]
pub struct DeliveriesResponse<N> {
    pub deliveries: Vec<DeliveryView<N>>,
}

/// The answer to a list of deliveries. The store has nothing at all for a device that it does
/// not know.
pub fn deliveries_reply<N>(
    outcome: StoreOutcome<Option<Vec<DeviceDeliveryRecord<N>>>>,
    with_keys: bool,
) -> (r: Reply<DeliveriesResponse<N>>)
    ensures
        match outcome {
            StoreOutcome::Busy => r.is_error(Status::ServiceUnavailable, api::STORE_BUSY_MESSAGE@),
            StoreOutcome::Failed => r.is_error(
                Status::InternalServerError,
                "推送记录暂时无法获取"@,
            ),
            StoreOutcome::Loaded(None) => r.is_error(Status::NotFound, NOT_FOUND_MESSAGE@),
            StoreOutcome::Loaded(Some(records)) => {
                &&& r.status == Status::Succeeded
                &&& r.body.success
                &&& r.body.message@ == "推送记录获取成功"@
                &&& r.body.data matches Some(data) && data.deliveries@ == records@.map_values(
                    |record: DeviceDeliveryRecord<N>| DeliveryView::of(record, with_keys),
                )
            },
        },
{
    match outcome {
        StoreOutcome::Busy => Reply::error(Status::ServiceUnavailable, api::STORE_BUSY_MESSAGE),
        StoreOutcome::Failed => Reply::error(
            Status::InternalServerError,
            "推送记录暂时无法获取",
        ),
        StoreOutcome::Loaded(None) => Reply::error(Status::NotFound, NOT_FOUND_MESSAGE),
        StoreOutcome::Loaded(Some(records)) => {
            let ghost all = records@;
            let mut deliveries: Vec<DeliveryView<N>> = Vec::new();
            for record in it: records
                invariant
                    it.seq() == all,
                    deliveries@ == all.take(it.index()).map_values(
                        |record: DeviceDeliveryRecord<N>| DeliveryView::of(record, with_keys),
                    ),
            {
                deliveries.push(DeliveryView::from_record(record, with_keys));
                assert(deliveries@ =~= all.take(it.index() + 1).map_values(
                    |record: DeviceDeliveryRecord<N>| DeliveryView::of(record, with_keys),
                ));
            }
            assert(all.take(all.len() as int) =~= all);
            Reply::success(
                Status::Succeeded,
                "推送记录获取成功",
                Some(DeliveriesResponse { deliveries }),
            )
        },
    }
}

/// A listed delivery says in each field what the stored one says in the field of the same name,
/// but for the key of the device, which only those see who may.
pub proof fn law_listed_delivery_is_the_stored_one<N>(
    record: DeviceDeliveryRecord<N>,
    with_key: bool,
    r: DeliveryView<N>,
)
    requires
        call_ensures(DeliveryView::<N>::from_record, (record, with_key), r),
    ensures
        r.delivered_at_ms == record.delivered_at_ms,
        r.incident_id@ == record.incident_id@,
        r.category == record.category,
        r.source == record.source,
        r.event_id == record.event_id,
        r.title == record.title,
        r.interruption_level == record.interruption_level,
        r.distance_km == record.distance_km,
        r.estimated_intensity == record.estimated_intensity,
        r.target_label == record.target_label,
        r.bark_base_url@ == record.bark_base_url@,
        with_key ==> (r.device_key matches Some(key) && key@ == record.device_key@),
        !with_key ==> r.device_key is None,
{
}

/// All deliveries that the store has are listed, in its order and as they are; a device that it
/// does not know is told so.
pub proof fn law_stored_deliveries_are_listed<N>(
    outcome: StoreOutcome<Option<Vec<DeviceDeliveryRecord<N>>>>,
    with_keys: bool,
    r: Reply<DeliveriesResponse<N>>,
)
    requires
        call_ensures(deliveries_reply::<N>, (outcome, with_keys), r),
    ensures
        r.body.success <==> outcome matches StoreOutcome::Loaded(Some(_)),
        r.body.data is Some <==> outcome matches StoreOutcome::Loaded(Some(_)),
        r.body.success <==> r.status == Status::Succeeded,
        outcome matches StoreOutcome::Loaded(None) ==> r.status == Status::NotFound,
        outcome is Busy ==> r.status == Status::ServiceUnavailable,
        outcome is Failed ==> r.status == Status::InternalServerError,
        outcome matches StoreOutcome::Loaded(Some(records)) ==> {
            let listed = r.body.data->0.deliveries@;
            &&& listed.len() == records@.len()
            &&& forall|i: int|
                0 <= i < records@.len() ==> {
                    &&& (#[trigger] listed[i]).delivered_at_ms == records@[i].delivered_at_ms
                    &&& listed[i].incident_id@ == records@[i].incident_id@
                    &&& listed[i].category == records@[i].category
                    &&& listed[i].source == records@[i].source
                    &&& listed[i].event_id == records@[i].event_id
                    &&& listed[i].title == records@[i].title
                    &&& listed[i].interruption_level == records@[i].interruption_level
                    &&& listed[i].distance_km == records@[i].distance_km
                    &&& listed[i].estimated_intensity == records@[i].estimated_intensity
                    &&& listed[i].target_label == records@[i].target_label
                    &&& listed[i].bark_base_url@ == records@[i].bark_base_url@
                    &&& listed[i].device_key is Some <==> with_keys
                    &&& listed[i].device_key matches Some(key) ==> key@ == records@[i].device_key@
                }
        },
{
}

/// A subscriber sees the deliveries of the device whose key they show, and of no other, as many as
/// they ask for from one to two hundred, and fifty where they do not ask.
pub proof fn law_subscribers_see_their_own_deliveries<N>(
    headers: &HeaderMap,
    query: Option<DeliveryQuery>,
    r: Result<(String, usize), Reply<DeliveriesResponse<N>>>,
)
    requires
        call_ensures(open_deliveries_request::<N>, (headers, query), r),
    ensures
        r is Ok <==> auth::shown_device_key(*headers) is Some && query is Some && (
        query->0.limit is None || 1 <= query->0.limit->0 <= 200),
        r matches Ok((whose, n)) ==> auth::shown_device_key(*headers) == Some(whose@) && n == (
        match query->0.limit {
            Some(asked) => asked as int,
            None => 50,
        }),
        auth::shown_device_key(*headers) is None ==> (r matches Err(reply) && reply.status
            == Status::Unauthorized),
        r matches Err(reply) ==> !reply.body.success && reply.body.data is None,
{
}

/// An operator sees the deliveries of the device that they name, and those of all devices where
/// they name an empty key.
pub proof fn law_operators_see_what_they_ask_for(
    query: Option<AdminDeliveryQuery>,
    r: Result<(Option<String>, usize), Refusal>,
)
    requires
        call_ensures(parse_admin_delivery_query, (query,), r),
    ensures
        r is Ok <==> query is Some && (query->0.limit is None || 1 <= query->0.limit->0 <= 200) && (
        text::trimmed(query->0.device_key@).len() == 0 || device_key::is_device_key(
            text::trimmed(query->0.device_key@),
        )),
        r matches Ok((whose, n)) ==> {
            &&& whose is None <==> text::trimmed(query->0.device_key@).len() == 0
            &&& whose matches Some(key) ==> key@ == text::trimmed(query->0.device_key@)
            &&& query->0.limit matches Some(asked) ==> n == asked
            &&& query->0.limit is None ==> n == 50
        },
        r matches Err(refusal) ==> refusal.0 == Status::BadRequest,
{
}

/// The number of deliveries that is asked for is taken as it is, from one to two hundred.
pub proof fn law_number_of_deliveries(query: Option<DeliveryQuery>, r: Result<usize, Refusal>)
    requires
        call_ensures(parse_delivery_query, (query,), r),
    ensures
        r is Ok <==> query is Some && (query->0.limit is None || 1 <= query->0.limit->0 <= 200),
        r matches Ok(n) ==> n == (match query->0.limit {
            Some(asked) => asked as int,
            None => 50,
        }),
        r matches Err(refusal) ==> refusal.0 == Status::BadRequest,
{
}

/// What is said of each outcome.
pub proof fn law_words_about_deliveries<N>(
    outcome: StoreOutcome<Option<Vec<DeviceDeliveryRecord<N>>>>,
    with_keys: bool,
    r: Reply<DeliveriesResponse<N>>,
    query: Option<DeliveryQuery>,
    number: Result<usize, Refusal>,
)
    requires
        call_ensures(deliveries_reply::<N>, (outcome, with_keys), r),
        call_ensures(parse_delivery_query, (query,), number),
    ensures
        outcome is Busy ==> r.body.message@ == "订阅存储繁忙，请稍后重试"@,
        outcome is Failed ==> r.body.message@ == "推送记录暂时无法获取"@,
        outcome matches StoreOutcome::Loaded(None) ==> r.body.message@
            == "未找到该 Bark Key 的订阅"@,
        outcome matches StoreOutcome::Loaded(Some(_)) ==> r.body.message@
            == "推送记录获取成功"@,
        number matches Err(refusal) ==> refusal.1@ == (if query is None {
            "查询参数无效"@
        } else {
            "limit 必须是 1 到 200 的整数"@
        }),
{
}

} // verus!
