//! Asking for a test alert, and for the catalogue of past earthquakes.
use crate::api::{self, Refusal, Reply, Status};
use crate::auth;
use crate::events;
use crate::headers;
use crate::models::Subscription;
use crate::simulate::{
    self, DeviceListError, HistoryRecordView, SimulateMode, SimulateOutcome, HISTORY_SOURCE_MAJOR,
};
use crate::text;
use axum::http::HeaderMap;
use vstd::prelude::*;

verus! {

#[derive(Debug)]
pub struct SimulateQuery {
    pub notify_level: Option<String>,
    pub source: Option<String>,
    pub key: Option<String>,
}

#[derive(Debug)]
pub struct HistoryQuery {
    pub source: Option<String>,
}

#[derive(Debug)]
pub struct SimulateData {
    pub event_id: String,
    pub pushed: u32,
    pub skipped: u32,
    pub temporary: bool,
    pub notify_level: Option<String>,
    pub source: Option<String>,
    pub key: Option<String>,
}

#[derive(Debug)]
pub struct HistoryData<N> {
    pub source: String,
    pub records: Vec<HistoryRecordView<N>>,
}

/// A trimmed text that is given and not blank.
pub open spec fn given(value: Option<String>) -> Option<Seq<char>> {
    match value {
        Some(s) => if text::trimmed(s@).len() > 0 {
            Some(text::trimmed(s@))
        } else {
            None
        },
        None => None,
    }
}

pub fn nonempty(value: &Option<String>) -> (r: Option<&str>)
    ensures
        match r {
            Some(s) => given(*value) == Some(s@),
            None => given(*value) is None,
        },
{
    match value {
        Some(s) => {
            let trimmed = text::trim(s.as_str());
            if trimmed.is_empty() {
                None
            } else {
                Some(trimmed)
            }
        },
        None => None,
    }
}

/// Whether a text names the catalogue of major earthquakes.
pub open spec fn is_major(source: Seq<char>) -> bool {
    text::ascii_lower(source) == text::ascii_lower(HISTORY_SOURCE_MAJOR@)
}

/// What a test alert shall show; else the status and the words of the refusal. A simulation names
/// an interruption, a replay a catalogue and a key of it, and a request may not name both.
pub open spec fn asked_mode(query: SimulateQuery) -> Result<
    simulate::ModeModel,
    (Status, Seq<char>),
> {
    match (given(query.notify_level), given(query.source), given(query.key)) {
        (Some(level), None, None) => match simulate::named_level(level) {
            Some(level) => Ok(simulate::ModeModel::NotifyLevel(level)),
            None => Err((Status::BadRequest, "notify_level 无效"@)),
        },
        (None, Some(source), Some(key)) => if !is_major(source) {
            Err((Status::BadRequest, "不支持的历史目录"@))
        } else if simulate::record_with(simulate::major_records(), HISTORY_SOURCE_MAJOR@, key)
            is None {
            Err((Status::NotFound, "未找到该历史地震"@))
        } else {
            Ok(simulate::ModeModel::History { source: HISTORY_SOURCE_MAJOR@, key })
        },
        (Some(_), _, _) => Err(
            (Status::BadRequest, "notify_level 与 source、key 不能同时使用"@),
        ),
        (None, None, None) => Err(
            (Status::BadRequest, "请指定 notify_level 或 source 与 key"@),
        ),
        (None, _, _) => Err((Status::BadRequest, "历史回放需要同时提供 source 与 key"@)),
    }
}

pub fn parse_simulate_mode(query: &SimulateQuery) -> (r: Result<SimulateMode, Refusal>)
    ensures
        match r {
            Ok(mode) => asked_mode(*query) == Ok::<simulate::ModeModel, (Status, Seq<char>)>(mode@),
            Err(refusal) => asked_mode(*query) == Err::<simulate::ModeModel, (Status, Seq<char>)>(
                (refusal.0, refusal.1@),
            ),
        },
{
    let notify_level = nonempty(&query.notify_level);
    let source = nonempty(&query.source);
    let key = nonempty(&query.key);
    match (notify_level, source, key) {
        (Some(level), None, None) => match simulate::parse_notify_level(level) {
            Some(level) => Ok(SimulateMode::NotifyLevel(level)),
            None => Err((Status::BadRequest, "notify_level 无效".to_owned())),
        },
        (None, Some(source), Some(key)) => {
            if !text::eq_ignore_ascii_case(source, HISTORY_SOURCE_MAJOR) {
                return Err((Status::BadRequest, "不支持的历史目录".to_owned()));
            }
            let records = simulate::builtin_major_records();
            match simulate::find_history_record(&records, HISTORY_SOURCE_MAJOR, key) {
                Some(_) => Ok(
                    SimulateMode::History {
                        source: HISTORY_SOURCE_MAJOR.to_owned(),
                        key: key.to_owned(),
                    },
                ),
                None => Err((Status::NotFound, "未找到该历史地震".to_owned())),
            }
        },
        (Some(_), _, _) => Err(
            (
                Status::BadRequest,
                "notify_level 与 source、key 不能同时使用".to_owned(),
            ),
        ),
        (None, None, None) => Err(
            (
                Status::BadRequest,
                "请指定 notify_level 或 source 与 key".to_owned(),
            ),
        ),
        (None, _, _) => Err(
            (
                Status::BadRequest,
                "历史回放需要同时提供 source 与 key".to_owned(),
            ),
        ),
    }
}

/// Whether a byte is white space in ASCII.
pub open spec fn is_space_byte(b: u8) -> bool {
    b == 32 || b == 9 || b == 10 || b == 12 || b == 13
}

/// Whether a body has nothing but white space.
pub open spec fn is_blank(body: Seq<u8>) -> bool {
    forall|i: int| 0 <= i < body.len() ==> is_space_byte(#[trigger] body[i])
}

/// The devices that a body lists. A blank body lists none; `parsed` is what the body says as
/// JSON, and `None` where it is none or not such a list.
pub fn parse_simulate_body(body: &[u8], parsed: Option<Option<Vec<String>>>) -> (r: Result<
    Option<Vec<String>>,
    &'static str,
>)
    ensures
        if is_blank(body@) {
            r == Ok::<Option<Vec<String>>, &'static str>(None)
        } else {
            match parsed {
                Some(list) => r == Ok::<Option<Vec<String>>, &'static str>(list),
                None => r matches Err(message) && message@ == "请求体无效"@,
            }
        },
{
    let mut i: usize = 0;
    while i < body.len()
        invariant
            i <= body@.len(),
            forall|k: int| 0 <= k < i ==> is_space_byte(#[trigger] body@[k]),
        decreases body@.len() - i,
    {
        let b: u8 = body[i];
        if !(b == 32 || b == 9 || b == 10 || b == 12 || b == 13) {
            assert(!is_space_byte(body@[i as int]));
            return match parsed {
                Some(list) => Ok(list),
                None => Err("请求体无效"),
            };
        }
        i += 1;
    }
    Ok(None)
}

/// What a refused list of devices is answered.
pub open spec fn device_list_message(error: DeviceListError) -> Seq<char> {
    match error {
        DeviceListError::Missing => "需要 device_ID_list"@,
        DeviceListError::Empty => "device_ID_list 不能为空"@,
        DeviceListError::TooMany => "device_ID_list 最多 32 个"@,
        DeviceListError::InvalidKey => "device_ID_list 含有无效 Bark Key"@,
    }
}

/// The devices of a list that a body has to hold, or what its lack or its fault is answered.
pub open spec fn asked_devices(body: Seq<u8>, parsed: Option<Option<Vec<String>>>) -> Result<
    Seq<Seq<char>>,
    Seq<char>,
> {
    if is_blank(body) {
        Err(device_list_message(DeviceListError::Missing))
    } else {
        match parsed {
            None => Err("请求体无效"@),
            Some(None) => Err(device_list_message(DeviceListError::Missing)),
            Some(Some(list)) => match simulate::device_list_fault(list@) {
                Some(error) => Err(device_list_message(error)),
                None => Ok(simulate::distinct(simulate::trimmed_texts(list@))),
            },
        }
    }
}

/// What a test alert shall show and whom it goes to, or the answer to a request that does not
/// say it rightly. A request without the service token learns nothing else.
pub fn open_simulate_request(
    headers: &HeaderMap,
    service_token: &str,
    query: Option<SimulateQuery>,
    body: &[u8],
    parsed: Option<Option<Vec<String>>>,
) -> (r: Result<(SimulateMode, Vec<String>), Reply<SimulateData>>)
    ensures
        if !auth::shows_service_token(*headers, service_token@) {
            r matches Err(reply) && reply.is_error(
                Status::Unauthorized,
                auth::BFF_AUTH_FAILED_MESSAGE@,
            )
        } else {
            match query {
                None => r matches Err(reply) && reply.is_error(
                    Status::BadRequest,
                    events::QUERY_MESSAGE@,
                ),
                Some(query) => match asked_mode(query) {
                    Err((status, message)) => r matches Err(reply) && reply.is_error(
                        status,
                        message,
                    ),
                    Ok(mode) => match asked_devices(body@, parsed) {
                        Err(message) => r matches Err(reply) && reply.is_error(
                            Status::BadRequest,
                            message,
                        ),
                        Ok(devices) => r matches Ok((m, keys)) && m@ == mode && text::texts(keys@)
                            == devices,
                    },
                },
            }
        },
{
    if let Err(refusal) = auth::require_bff_service_token(headers, service_token) {
        return Err(api::refusal_reply(refusal));
    }
    let query = match query {
        Some(query) => query,
        None => {
            return Err(Reply::error(Status::BadRequest, events::QUERY_MESSAGE));
        },
    };
    let mode = match parse_simulate_mode(&query) {
        Ok(mode) => mode,
        Err(refusal) => {
            return Err(api::refusal_reply(refusal));
        },
    };
    let list = match parse_simulate_body(body, parsed) {
        Ok(list) => list,
        Err(message) => {
            return Err(Reply::error(Status::BadRequest, message));
        },
    };
    match simulate::require_device_keys(list) {
        Ok(keys) => Ok((mode, keys)),
        Err(error) => Err(
            Reply::error(
                Status::BadRequest,
                match error {
                    DeviceListError::Missing => "需要 device_ID_list",
                    DeviceListError::Empty => "device_ID_list 不能为空",
                    DeviceListError::TooMany => "device_ID_list 最多 32 个",
                    DeviceListError::InvalidKey => "device_ID_list 含有无效 Bark Key",
                },
            ),
        ),
    }
}

/// What a test alert that was sent is answered.
pub open spec fn sent_message(mode: simulate::ModeModel, target_count: int) -> Seq<char> {
    match mode {
        simulate::ModeModel::History { .. } => "已使用历史真实地震数据发送测试预警"@,
        simulate::ModeModel::NotifyLevel(_) => if target_count > 1 {
            "已发送模拟预警"@
        } else {
            "已向当前 Bark Key 发送模拟预警"@
        },
    }
}

pub fn success_message(mode: &SimulateMode, target_count: usize) -> (r: &'static str)
    ensures
        r@ == sent_message(mode@, target_count as int),
{
    match mode {
        SimulateMode::History { .. } => "已使用历史真实地震数据发送测试预警",
        SimulateMode::NotifyLevel(_) => if target_count > 1 {
            "已发送模拟预警"
        } else {
            "已向当前 Bark Key 发送模拟预警"
        },
    }
}

impl SimulateData {
    /// What is shown of an outcome.
    pub open spec fn of(outcome: SimulateOutcome) -> SimulateData {
        SimulateData {
            event_id: outcome.event_id,
            pushed: outcome.pushed,
            skipped: outcome.skipped,
            temporary: outcome.temporary,
            notify_level: outcome.notify_level,
            source: outcome.source,
            key: outcome.key,
        }
    }
}

pub fn simulate_data(outcome: SimulateOutcome) -> (r: SimulateData)
    ensures
        r == SimulateData::of(outcome),
{
    SimulateData {
        event_id: outcome.event_id,
        pushed: outcome.pushed,
        skipped: outcome.skipped,
        temporary: outcome.temporary,
        notify_level: outcome.notify_level,
        source: outcome.source,
        key: outcome.key,
    }
}

/// The answer to a test alert. `outcome` is `None` where it could not be sent.
pub fn simulate_reply(
    mode: &SimulateMode,
    target_count: usize,
    outcome: Option<SimulateOutcome>,
) -> (r: Reply<SimulateData>)
    ensures
        match outcome {
            Some(outcome) => r.is_success(
                Status::Succeeded,
                sent_message(mode@, target_count as int),
                Some(SimulateData::of(outcome)),
            ),
            None => r.is_error(Status::InternalServerError, "模拟推送暂时无法完成"@),
        },
{
    match outcome {
        Some(outcome) => Reply::success(
            Status::Succeeded,
            success_message(mode, target_count),
            Some(simulate_data(outcome)),
        ),
        None => Reply::error(Status::InternalServerError, "模拟推送暂时无法完成"),
    }
}

/// For which device the catalogue is annotated, if for one, or the answer to a request that does
/// not name the catalogue or shows a key that is none.
pub fn open_history_request<N>(headers: &HeaderMap, query: Option<HistoryQuery>) -> (r: Result<
    Option<String>,
    Reply<HistoryData<N>>,
>)
    ensures
        match query {
            None => r matches Err(reply) && reply.is_error(
                Status::BadRequest,
                events::QUERY_MESSAGE@,
            ),
            Some(query) => match given(query.source) {
                None => r matches Err(reply) && reply.is_error(
                    Status::BadRequest,
                    "请指定历史目录 source=major"@,
                ),
                Some(source) => if !is_major(source) {
                    r matches Err(reply) && reply.is_error(
                        Status::BadRequest,
                        "不支持的历史目录"@,
                    )
                } else if headers::authorization(*headers) is None {
                    r matches Ok(None)
                } else {
                    match auth::shown_device_key(*headers) {
                        Some(key) => r matches Ok(Some(k)) && k@ == key,
                        None => r matches Err(reply) && reply.is_error(
                            Status::Unauthorized,
                            auth::AUTH_FAILED_MESSAGE@,
                        ),
                    }
                },
            },
        },
{
    let query = match query {
        Some(query) => query,
        None => {
            return Err(Reply::error(Status::BadRequest, events::QUERY_MESSAGE));
        },
    };
    match nonempty(&query.source) {
        None => Err(Reply::error(Status::BadRequest, "请指定历史目录 source=major")),
        Some(source) => {
            if !text::eq_ignore_ascii_case(source, HISTORY_SOURCE_MAJOR) {
                return Err(Reply::error(Status::BadRequest, "不支持的历史目录"));
            }
            match auth::optional_bearer(headers) {
                Ok(key) => Ok(key),
                Err(refusal) => Err(api::refusal_reply(refusal)),
            }
        },
    }
}

/// The subscription by which the catalogue is annotated: the last of the device.
pub fn annotating_subscription<N>(subscriptions: Vec<Subscription<N>>) -> (r: Option<
    Subscription<N>,
>)
    ensures
        match r {
            Some(subscription) => subscriptions@.len() > 0 && subscription == subscriptions@.last(),
            None => subscriptions@.len() == 0,
        },
{
    let mut subscriptions = subscriptions;
    subscriptions.pop()
}

/// The answer to the catalogue. `records` is `None` where the subscription of the device could
/// not be looked up.
pub fn history_reply<N>(records: Option<Vec<HistoryRecordView<N>>>) -> (r: Reply<HistoryData<N>>)
    ensures
        match records {
            None => r.is_error(Status::InternalServerError, "历史目录暂时无法获取"@),
            Some(records) => {
                &&& r.status == Status::Succeeded
                &&& r.body.success
                &&& r.body.message@ == "历史地震目录获取成功"@
                &&& r.body.data matches Some(data) && data.source@ == HISTORY_SOURCE_MAJOR@
                    && data.records == records
            },
        },
{
    match records {
        None => Reply::error(Status::InternalServerError, "历史目录暂时无法获取"),
        Some(records) => Reply::success(
            Status::Succeeded,
            "历史地震目录获取成功",
            Some(HistoryData { source: HISTORY_SOURCE_MAJOR.to_owned(), records }),
        ),
    }
}

/// A replay that was accepted finds its record when it is sent.
pub proof fn law_accepted_replay_finds_its_record(query: SimulateQuery)
    ensures
        asked_mode(query) matches Ok(simulate::ModeModel::History { source, key })
            ==> simulate::record_with(simulate::major_records(), source, key) is Some,
{
}

/// A request may not name an interruption together with a catalogue or a key.
pub proof fn law_modes_exclude_each_other(query: SimulateQuery)
    requires
        given(query.notify_level) is Some,
        given(query.source) is Some || given(query.key) is Some,
    ensures
        asked_mode(query) is Err,
{
}

// ---------------------------------------------------------------------------
// What requests come to
// ---------------------------------------------------------------------------
/// A text counts as given where it has more than white space, and is then taken without the white
/// space around it.
pub proof fn law_blank_texts_are_not_given(value: &Option<String>, r: Option<&str>)
    requires
        call_ensures(nonempty, (value,), r),
    ensures
        r is Some <==> *value is Some && text::trimmed((*value)->0@).len() > 0,
        r matches Some(s) ==> s@ == text::trimmed((*value)->0@),
{
}

/// Whether a text of a request is missing or blank.
pub open spec fn is_missing(value: Option<String>) -> bool {
    value matches Some(s) ==> text::trimmed(s@).len() == 0
}

/// A simulation is accepted with the interruption that it names, and where it names nothing else.
pub proof fn law_simulation_names_an_interruption(
    query: &SimulateQuery,
    r: Result<SimulateMode, Refusal>,
    level: crate::models::InterruptionLevel,
)
    requires
        call_ensures(parse_simulate_mode, (query,), r),
    ensures
        r matches Ok(SimulateMode::NotifyLevel(l)) ==> is_missing(query.source) && is_missing(
            query.key,
        ) && !is_missing(query.notify_level) && text::ascii_lower(
            text::trimmed(query.notify_level->0@),
        ) == l.name()@,
        is_missing(query.source) && is_missing(query.key) && !is_missing(query.notify_level)
            && text::ascii_lower(text::trimmed(query.notify_level->0@)) == level.name()@ ==> r == Ok::<
            SimulateMode,
            Refusal,
        >(SimulateMode::NotifyLevel(level)),
        !is_missing(query.notify_level) && (!is_missing(query.source) || !is_missing(query.key))
            ==> r is Err,
        is_missing(query.notify_level) && (is_missing(query.source) || is_missing(query.key)) ==> r
            is Err,
{
    reveal_strlit("passive");
    reveal_strlit("active");
    reveal_strlit("critical");
    assert("passive"@.len() == 7 && "active"@.len() == 6 && "critical"@.len() == 8);
    if !is_missing(query.notify_level) {
        text::lemma_trimmed_twice(query.notify_level->0@);
    }
}

/// A replay is accepted with the trimmed key that it names, where the catalogue has a record with
/// that key, and refused as not found where it has none.
pub proof fn law_replay_names_a_record(
    query: &SimulateQuery,
    r: Result<SimulateMode, Refusal>,
    records: Vec<simulate::HistoryRecord<i64>>,
)
    requires
        call_ensures(parse_simulate_mode, (query,), r),
        call_ensures(simulate::builtin_major_records, (), records),
    ensures
        r matches Ok(SimulateMode::History { source, key }) ==> {
            &&& is_missing(query.notify_level)
            &&& !is_missing(query.source)
            &&& !is_missing(query.key)
            &&& source@ == "major"@
            &&& text::ascii_lower(text::trimmed(query.source->0@)) == text::ascii_lower("major"@)
            &&& key@ == text::trimmed(query.key->0@)
            &&& exists|k: int| #[trigger]
                simulate::is_first_record(records@, "major"@, key@, k)
        },
        is_missing(query.notify_level) && !is_missing(query.source) && !is_missing(query.key)
            && text::ascii_lower(text::trimmed(query.source->0@)) == text::ascii_lower("major"@)
            ==> {
            let key = text::trimmed(query.key->0@);
            &&& (exists|k: int|
                0 <= k < records@.len() && (#[trigger] records@[k]).key@ == key) ==> r is Ok
            &&& (forall|k: int| 0 <= k < records@.len() ==> (#[trigger] records@[k]).key@ != key)
                ==> (r matches Err(refusal) && refusal.0 == Status::NotFound)
        },
{
    simulate::law_catalogue(records);
    if !is_missing(query.key) {
        let key = text::trimmed(query.key->0@);
        lemma_record_is_there(records@, key);
    }
}

/// Whether the catalogue has a record under a key.
proof fn lemma_record_is_there(records: Seq<simulate::HistoryRecord<i64>>, key: Seq<char>)
    requires
        forall|k: int| 0 <= k < records.len() ==> (#[trigger] records[k]).source@ == "major"@,
    ensures
        match simulate::record_with(records, "major"@, key) {
            Some(_) => exists|k: int| #[trigger]
                simulate::is_first_record(records, "major"@, key, k),
            None => forall|k: int| 0 <= k < records.len() ==> (#[trigger] records[k]).key@ != key,
        },
        (exists|k: int| 0 <= k < records.len() && (#[trigger] records[k]).key@ == key)
            <==> simulate::record_with(records, "major"@, key) is Some,
    decreases records.len(),
{
    if records.len() > 0 {
        if records[0].key@ == key {
            assert(simulate::is_first_record(records, "major"@, key, 0));
        } else {
            let rest = records.drop_first();
            assert forall|k: int| 0 <= k < rest.len() implies (#[trigger] rest[k]).source@
                == "major"@ by {
                assert(rest[k] == records[k + 1]);
            }
            lemma_record_is_there(rest, key);
            assert forall|k: int| 0 < k < records.len() implies #[trigger] records[k] == rest[k
                - 1] by {}
            if simulate::record_with(rest, "major"@, key) is Some {
                let k = choose|k: int| #[trigger]
                    simulate::is_first_record(rest, "major"@, key, k);
                assert(simulate::is_first_record(records, "major"@, key, k + 1));
                assert(records[k + 1].key@ == key);
            }
        }
    }
}

/// A blank body lists no devices, and any other lists what it says; one that cannot be read is
/// refused.
pub proof fn law_body_lists_what_it_says(
    body: &[u8],
    parsed: Option<Option<Vec<String>>>,
    r: Result<Option<Vec<String>>, &'static str>,
)
    requires
        call_ensures(parse_simulate_body, (body, parsed), r),
    ensures
        body@.len() == 0 ==> r matches Ok(None),
        (exists|i: int|
            0 <= i < body@.len() && (#[trigger] body@[i]) != 32 && body@[i] != 9 && body@[i] != 10
                && body@[i] != 12 && body@[i] != 13) ==> (match parsed {
            Some(list) => r == Ok::<Option<Vec<String>>, &'static str>(list),
            None => r is Err,
        }),
        (forall|i: int|
            0 <= i < body@.len() ==> (#[trigger] body@[i]) == 32 || body@[i] == 9 || body@[i] == 10
                || body@[i] == 12 || body@[i] == 13) ==> r matches Ok(None),
{
    if exists|i: int|
        0 <= i < body@.len() && (#[trigger] body@[i]) != 32 && body@[i] != 9 && body@[i] != 10
            && body@[i] != 12 && body@[i] != 13 {
        let i = choose|i: int|
            0 <= i < body@.len() && (#[trigger] body@[i]) != 32 && body@[i] != 9 && body@[i] != 10
                && body@[i] != 12 && body@[i] != 13;
        assert(!is_space_byte(body@[i]));
    }
}

/// Who does not show the service token learns nothing of what they ask; who does is heard with what
/// their query asks for and the devices that their body lists.
pub proof fn law_who_may_send_a_test_alert(
    headers: &HeaderMap,
    service_token: &str,
    query: SimulateQuery,
    body: &[u8],
    list: Vec<String>,
    r: Result<(SimulateMode, Vec<String>), Reply<SimulateData>>,
    mode: Result<SimulateMode, Refusal>,
    keys: Result<Vec<String>, DeviceListError>,
)
    requires
        call_ensures(
            open_simulate_request,
            (headers, service_token, Some(query), body, Some(Some(list))),
            r,
        ),
        call_ensures(parse_simulate_mode, (&query,), mode),
        call_ensures(simulate::require_device_keys, (Some(list),), keys),
        !is_blank(body@),
    ensures
        !auth::shows_service_token(*headers, service_token@) ==> (r matches Err(reply)
            && reply.status == Status::Unauthorized),
        auth::shows_service_token(*headers, service_token@) ==> (r is Ok <==> mode is Ok && keys
            is Ok),
        r is Ok ==> auth::shows_service_token(*headers, service_token@) && r->Ok_0.0@ == mode->Ok_0@
            && text::texts(r->Ok_0.1@) == text::texts(keys->Ok_0@),
        auth::shows_service_token(*headers, service_token@) && mode is Err ==> (r matches Err(reply)
            && reply.status == mode->Err_0.0 && reply.body.message@ == mode->Err_0.1@),
        r matches Err(reply) ==> !reply.body.success && reply.body.data is None,
{
}

/// A test alert is sent only to devices that are listed.
pub proof fn law_test_alert_needs_a_list(
    headers: &HeaderMap,
    service_token: &str,
    query: Option<SimulateQuery>,
    body: &[u8],
    parsed: Option<Option<Vec<String>>>,
    r: Result<(SimulateMode, Vec<String>), Reply<SimulateData>>,
)
    requires
        call_ensures(
            open_simulate_request,
            (headers, service_token, query, body, parsed),
            r,
        ),
        query is None || is_blank(body@) || !(parsed matches Some(Some(_))),
    ensures
        r is Err,
{
}

/// What came of a test alert is told as it is, and an alert that could not be sent is told as a
/// failure.
pub proof fn law_outcome_is_told_as_it_is(
    mode: &SimulateMode,
    target_count: usize,
    outcome: Option<SimulateOutcome>,
    r: Reply<SimulateData>,
)
    requires
        call_ensures(simulate_reply, (mode, target_count, outcome), r),
    ensures
        outcome matches Some(o) ==> (r.body.data matches Some(data) && data.event_id@ == o.event_id@
            && data.pushed == o.pushed && data.skipped == o.skipped && data.temporary
            == o.temporary && data.notify_level == o.notify_level && data.source == o.source
            && data.key == o.key && r.body.success && r.status == Status::Succeeded),
        outcome is None ==> r.body.data is None && !r.body.success && r.status
            == Status::InternalServerError,
{
}

/// What is shown of an outcome is what the outcome says in the field of the same name.
pub proof fn law_shown_outcome_is_the_outcome(o: SimulateOutcome, r: SimulateData)
    requires
        call_ensures(simulate_data, (o,), r),
    ensures
        r.event_id@ == o.event_id@,
        r.pushed == o.pushed,
        r.skipped == o.skipped,
        r.temporary == o.temporary,
        r.notify_level == o.notify_level,
        r.source == o.source,
        r.key == o.key,
{
}

/// A replay, a simulation for one device and one for several are told in words of their own.
pub proof fn law_words_for_test_alerts(mode: &SimulateMode, target_count: usize, r: &'static str)
    requires
        call_ensures(success_message, (mode, target_count), r),
    ensures
        *mode is History <==> r@ == "已使用历史真实地震数据发送测试预警"@,
        *mode is NotifyLevel && target_count > 1 <==> r@ == "已发送模拟预警"@,
        *mode is NotifyLevel && target_count <= 1 <==> r@
            == "已向当前 Bark Key 发送模拟预警"@,
{
    reveal_strlit("已使用历史真实地震数据发送测试预警");
    reveal_strlit("已发送模拟预警");
    reveal_strlit("已向当前 Bark Key 发送模拟预警");
    assert("已使用历史真实地震数据发送测试预警"@[1] == '使');
    assert("已发送模拟预警"@[1] == '发');
    assert("已向当前 Bark Key 发送模拟预警"@[1] == '向');
}

/// The catalogue is shown to whoever names it, and annotated for the device whose key they show; a
/// key that is none is refused.
pub proof fn law_who_sees_the_catalogue<N>(
    headers: &HeaderMap,
    query: Option<HistoryQuery>,
    r: Result<Option<String>, Reply<HistoryData<N>>>,
    shown: Result<Option<String>, Refusal>,
)
    requires
        call_ensures(open_history_request::<N>, (headers, query), r),
        call_ensures(auth::optional_bearer, (headers,), shown),
    ensures
        r is Ok <==> query is Some && !is_missing(query->0.source) && text::ascii_lower(
            text::trimmed(query->0.source->0@),
        ) == text::ascii_lower("major"@) && shown is Ok,
        r matches Ok(Some(key)) ==> (shown matches Ok(Some(k)) && k@ == key@),
        r matches Ok(None) ==> shown matches Ok(None),
        query is None || is_missing(query->0.source) ==> (r matches Err(reply) && reply.status
            == Status::BadRequest),
{
}

/// The catalogue is annotated by the last subscription of the device, and by none where it has
/// none.
pub proof fn law_last_subscription_annotates<N>(
    subscriptions: Vec<Subscription<N>>,
    r: Option<Subscription<N>>,
)
    requires
        call_ensures(annotating_subscription::<N>, (subscriptions,), r),
    ensures
        r is None <==> subscriptions@.len() == 0,
        r matches Some(subscription) ==> subscription == subscriptions@[subscriptions@.len() - 1],
{
}

/// The records are told as they are, under the name of the catalogue.
pub proof fn law_records_are_told_as_they_are<N>(
    records: Option<Vec<HistoryRecordView<N>>>,
    r: Reply<HistoryData<N>>,
)
    requires
        call_ensures(history_reply::<N>, (records,), r),
    ensures
        records matches Some(list) ==> (r.body.data matches Some(data) && data.records@ == list@
            && data.source@ == "major"@ && r.body.success && r.status == Status::Succeeded),
        records is None ==> r.body.data is None && !r.body.success && r.status
            == Status::InternalServerError,
{
}

/// A request for a test alert that does not say rightly what it shall show is told what is wrong: a
/// record that is not there is not found, and everything else is the fault of the request.
pub proof fn law_words_about_modes(query: &SimulateQuery, r: Result<SimulateMode, Refusal>)
    requires
        call_ensures(parse_simulate_mode, (query,), r),
        r is Err,
    ensures
        r->Err_0.0 == Status::NotFound || r->Err_0.0 == Status::BadRequest,
        r->Err_0.0 == Status::NotFound ==> is_missing(query.notify_level) && !is_missing(
            query.source,
        ) && !is_missing(query.key) && r->Err_0.1@ == "未找到该历史地震"@,
        !is_missing(query.notify_level) && is_missing(query.source) && is_missing(query.key)
            ==> r->Err_0.1@ == "notify_level 无效"@,
        !is_missing(query.notify_level) && (!is_missing(query.source) || !is_missing(query.key))
            ==> r->Err_0.1@ == "notify_level 与 source、key 不能同时使用"@,
        is_missing(query.notify_level) && is_missing(query.source) && is_missing(query.key)
            ==> r->Err_0.1@ == "请指定 notify_level 或 source 与 key"@,
        is_missing(query.notify_level) && (is_missing(query.source) <==> !is_missing(query.key))
            ==> r->Err_0.1@ == "历史回放需要同时提供 source 与 key"@,
        is_missing(query.notify_level) && !is_missing(query.source) && !is_missing(query.key)
            && text::ascii_lower(text::trimmed(query.source->0@)) != text::ascii_lower("major"@)
            ==> r->Err_0.0 == Status::BadRequest && r->Err_0.1@ == "不支持的历史目录"@,
{
}

/// A list of devices that is refused is refused for what is wrong with it.
pub proof fn law_words_about_lists(
    headers: &HeaderMap,
    service_token: &str,
    query: SimulateQuery,
    body: &[u8],
    parsed: Option<Option<Vec<String>>>,
    r: Result<(SimulateMode, Vec<String>), Reply<SimulateData>>,
    mode: Result<SimulateMode, Refusal>,
    keys: Result<Vec<String>, DeviceListError>,
)
    requires
        call_ensures(
            open_simulate_request,
            (headers, service_token, Some(query), body, parsed),
            r,
        ),
        auth::shows_service_token(*headers, service_token@),
        call_ensures(parse_simulate_mode, (&query,), mode),
        mode is Ok,
        parsed matches Some(list) ==> call_ensures(simulate::require_device_keys, (list,), keys),
    ensures
        is_blank(body@) ==> (r matches Err(reply) && reply.status == Status::BadRequest
            && reply.body.message@ == "需要 device_ID_list"@),
        !is_blank(body@) && parsed is None ==> (r matches Err(reply) && reply.status
            == Status::BadRequest && reply.body.message@ == "请求体无效"@),
        !is_blank(body@) && parsed is Some ==> (keys matches Err(error) ==> (r matches Err(reply)
            && reply.status == Status::BadRequest && reply.body.message@ == (match error {
            DeviceListError::Missing => "需要 device_ID_list"@,
            DeviceListError::Empty => "device_ID_list 不能为空"@,
            DeviceListError::TooMany => "device_ID_list 最多 32 个"@,
            DeviceListError::InvalidKey => "device_ID_list 含有无效 Bark Key"@,
        }))),
{
}

/// What is said of a test alert and of the catalogue.
pub proof fn law_words_about_outcomes<N>(
    mode: &SimulateMode,
    target_count: usize,
    outcome: Option<SimulateOutcome>,
    r: Reply<SimulateData>,
    message: &'static str,
    records: Option<Vec<HistoryRecordView<N>>>,
    history: Reply<HistoryData<N>>,
)
    requires
        call_ensures(simulate_reply, (mode, target_count, outcome), r),
        call_ensures(success_message, (mode, target_count), message),
        call_ensures(history_reply::<N>, (records,), history),
    ensures
        outcome is Some ==> r.body.message@ == message@,
        outcome is None ==> r.body.message@ == "模拟推送暂时无法完成"@,
        records is Some ==> history.body.message@ == "历史地震目录获取成功"@,
        records is None ==> history.body.message@ == "历史目录暂时无法获取"@,
{
}

} // verus!
