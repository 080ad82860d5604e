//! The details behind a notification, for whoever holds its link.
use crate::api::{ApiResponse, Reply, Status};
use crate::headers;
use crate::models::{
    AlertRule, DisasterCategory, DisasterEvent, IncidentRecord, IntensityBand, InterruptionLevel,
    SourceSelection,
};
use crate::text;
use axum::http::HeaderMap;
use vstd::prelude::*;

verus! {

// ---------------------------------------------------------------------------
// What was stored with a notification
// ---------------------------------------------------------------------------
#[derive(Debug)]
pub enum NotificationSourcesSnapshot {
    All,
    Include(Vec<String>),
}

#[derive(Debug, Clone, Copy)]
pub struct NotificationIntensityBandSnapshot {
    pub min: u8,
    pub max: u8,
    pub interruption_level: InterruptionLevel,
}

/// The rule by which a notification was sent.
#[derive(Debug)]
pub enum NotificationRuleSnapshot<N> {
    EarthquakeWarning {
        sources: NotificationSourcesSnapshot,
        intensity_bands: Vec<NotificationIntensityBandSnapshot>,
    },
    EarthquakeReport { sources: NotificationSourcesSnapshot, min_magnitude: N },
    WeatherWarning {
        sources: NotificationSourcesSnapshot,
        min_severity: u8,
        fallback_radius_km: N,
    },
    Tsunami { sources: NotificationSourcesSnapshot, min_severity: u8 },
    Typhoon { sources: NotificationSourcesSnapshot, max_center_distance_km: N },
}

#[derive(Debug)]
pub struct NotificationEventSnapshot<N> {
    pub category: DisasterCategory,
    pub source: String,
    pub source_event_id: String,
    pub revision: String,
    pub report_num: u32,
    pub title: String,
    pub description: String,
    pub affected_regions: Vec<String>,
    pub latitude: Option<N>,
    pub longitude: Option<N>,
    pub magnitude: Option<N>,
    pub depth_km: Option<N>,
    pub radius_km: Option<N>,
    pub level: u8,
    pub occurred_at: String,
    pub final_report: bool,
    pub cancel: bool,
    pub training: bool,
}

#[derive(Debug)]
pub struct NotificationTargetSnapshot<N> {
    pub label: String,
    pub latitude: N,
    pub longitude: N,
    pub province: String,
    pub city: String,
    pub district: String,
}

#[derive(Debug, Clone, Copy)]
pub struct NotificationTimingSnapshot<N> {
    pub epicentral_distance_km: N,
    pub hypocentral_distance_km: N,
    pub estimated_intensity: N,
    pub p_arrival_at_ms: i64,
    pub s_arrival_at_ms: i64,
}

#[derive(Debug)]
pub struct NotificationSnapshot<N> {
    pub incident_id: String,
    pub issued_at_ms: i64,
    pub event: NotificationEventSnapshot<N>,
    pub target: NotificationTargetSnapshot<N>,
    pub timing: Option<NotificationTimingSnapshot<N>>,
    pub interruption_level: String,
    pub matched_rule: NotificationRuleSnapshot<N>,
}

// ---------------------------------------------------------------------------
// What is shown
// ---------------------------------------------------------------------------
#[derive(Debug)]
pub struct PublicSnapshotEvent<N> {
    pub category: DisasterCategory,
    pub source: String,
    pub event_id: String,
    pub revision: String,
    pub report_num: u32,
    pub title: String,
    pub description: String,
    pub affected_regions: Vec<String>,
    pub latitude: Option<N>,
    pub longitude: Option<N>,
    pub magnitude: Option<N>,
    pub depth_km: Option<N>,
    pub radius_km: Option<N>,
    pub level: u8,
    pub occurred_at: String,
    pub final_report: bool,
    pub cancel: bool,
    pub training: bool,
}

#[derive(Debug)]
pub struct PublicNotificationSnapshot<N> {
    pub incident_id: String,
    pub issued_at_ms: i64,
    pub event: PublicSnapshotEvent<N>,
    pub target: NotificationTargetSnapshot<N>,
    pub timing: Option<NotificationTimingSnapshot<N>>,
    pub interruption_level: String,
    pub matched_rule: AlertRule<N>,
}

#[derive(Debug)]
pub struct PublicIncident<N, R> {
    pub id: String,
    pub category: DisasterCategory,
    pub updated_at_ms: i64,
    pub latest_by_source: Vec<PublicSnapshotEvent<N>>,
    pub timeline: Vec<R>,
}

#[derive(Debug)]
pub struct IncidentDetailResponse<N, R> {
    pub snapshot: PublicNotificationSnapshot<N>,
    pub incident: Option<PublicIncident<N, R>>,
}

/// Whether a selection is the one that was stored.
pub open spec fn shows_sources(
    shown: SourceSelection,
    stored: NotificationSourcesSnapshot,
) -> bool {
    match (shown, stored) {
        (SourceSelection::All, NotificationSourcesSnapshot::All) => true,
        (SourceSelection::Include { ids }, NotificationSourcesSnapshot::Include(kept)) => ids@
            == kept@,
        _ => false,
    }
}

pub fn public_sources(sources: &NotificationSourcesSnapshot) -> (r: SourceSelection)
    ensures
        shows_sources(r, *sources),
{
    match sources {
        NotificationSourcesSnapshot::All => SourceSelection::All,
        NotificationSourcesSnapshot::Include(ids) => SourceSelection::Include {
            ids: text::clone_texts(ids),
        },
    }
}

/// The bands that were stored, as a rule has them.
pub open spec fn shown_bands(stored: Seq<NotificationIntensityBandSnapshot>) -> Seq<IntensityBand> {
    stored.map_values(
        |band: NotificationIntensityBandSnapshot|
            IntensityBand {
                min: band.min,
                max: band.max,
                interruption_level: band.interruption_level,
            },
    )
}

/// Whether a rule is the one that was stored.
pub open spec fn shows_rule<N>(shown: AlertRule<N>, stored: NotificationRuleSnapshot<N>) -> bool {
    match (shown, stored) {
        (
            AlertRule::EarthquakeWarning { sources, estimated_intensity_bands },
            NotificationRuleSnapshot::EarthquakeWarning { sources: kept, intensity_bands },
        ) => shows_sources(sources, kept) && estimated_intensity_bands@ == shown_bands(
            intensity_bands@,
        ),
        (
            AlertRule::EarthquakeReport { sources, min_magnitude },
            NotificationRuleSnapshot::EarthquakeReport { sources: kept, min_magnitude: m },
        ) => shows_sources(sources, kept) && min_magnitude == m,
        (
            AlertRule::WeatherWarning { sources, min_severity, fallback_radius_km },
            NotificationRuleSnapshot::WeatherWarning {
                sources: kept,
                min_severity: s,
                fallback_radius_km: r,
            },
        ) => shows_sources(sources, kept) && min_severity == s && fallback_radius_km == r,
        (
            AlertRule::Tsunami { sources, min_severity },
            NotificationRuleSnapshot::Tsunami { sources: kept, min_severity: s },
        ) => shows_sources(sources, kept) && min_severity == s,
        (
            AlertRule::Typhoon { sources, max_center_distance_km },
            NotificationRuleSnapshot::Typhoon { sources: kept, max_center_distance_km: d },
        ) => shows_sources(sources, kept) && max_center_distance_km == d,
        _ => false,
    }
}

fn public_bands(stored: &Vec<NotificationIntensityBandSnapshot>) -> (r: Vec<IntensityBand>)
    ensures
        r@ == shown_bands(stored@),
{
    let mut r: Vec<IntensityBand> = Vec::new();
    let mut i: usize = 0;
    while i < stored.len()
        invariant
            i <= stored@.len(),
            r@ == shown_bands(stored@.take(i as int)),
        decreases stored@.len() - i,
    {
        let band = stored[i];
        r.push(
            IntensityBand {
                min: band.min,
                max: band.max,
                interruption_level: band.interruption_level,
            },
        );
        assert(r@ =~= shown_bands(stored@.take(i + 1)));
        i += 1;
    }
    assert(stored@.take(i as int) =~= stored@);
    r
}

/// The rule that was stored, in the form in which rules are shown.
pub fn public_rule<N: Copy>(rule: &NotificationRuleSnapshot<N>) -> (r: AlertRule<N>)
    ensures
        shows_rule(r, *rule),
{
    match rule {
        NotificationRuleSnapshot::EarthquakeWarning {
            sources,
            intensity_bands,
        } => AlertRule::EarthquakeWarning {
            sources: public_sources(sources),
            estimated_intensity_bands: public_bands(intensity_bands),
        },
        NotificationRuleSnapshot::EarthquakeReport {
            sources,
            min_magnitude,
        } => AlertRule::EarthquakeReport {
            sources: public_sources(sources),
            min_magnitude: *min_magnitude,
        },
        NotificationRuleSnapshot::WeatherWarning {
            sources,
            min_severity,
            fallback_radius_km,
        } => AlertRule::WeatherWarning {
            sources: public_sources(sources),
            min_severity: *min_severity,
            fallback_radius_km: *fallback_radius_km,
        },
        NotificationRuleSnapshot::Tsunami { sources, min_severity } => AlertRule::Tsunami {
            sources: public_sources(sources),
            min_severity: *min_severity,
        },
        NotificationRuleSnapshot::Typhoon {
            sources,
            max_center_distance_km,
        } => AlertRule::Typhoon {
            sources: public_sources(sources),
            max_center_distance_km: *max_center_distance_km,
        },
    }
}

impl<N> PublicSnapshotEvent<N> {
    /// The event of a notification, as it is shown.
    pub open spec fn of_notification(event: NotificationEventSnapshot<N>) -> PublicSnapshotEvent<
        N,
    > {
        PublicSnapshotEvent {
            category: event.category,
            source: event.source,
            event_id: event.source_event_id,
            revision: event.revision,
            report_num: event.report_num,
            title: event.title,
            description: event.description,
            affected_regions: event.affected_regions,
            latitude: event.latitude,
            longitude: event.longitude,
            magnitude: event.magnitude,
            depth_km: event.depth_km,
            radius_km: event.radius_km,
            level: event.level,
            occurred_at: event.occurred_at,
            final_report: event.final_report,
            cancel: event.cancel,
            training: event.training,
        }
    }

    pub fn from_notification_event(event: NotificationEventSnapshot<N>) -> (r: Self)
        ensures
            r == Self::of_notification(event),
    {
        PublicSnapshotEvent {
            category: event.category,
            source: event.source,
            event_id: event.source_event_id,
            revision: event.revision,
            report_num: event.report_num,
            title: event.title,
            description: event.description,
            affected_regions: event.affected_regions,
            latitude: event.latitude,
            longitude: event.longitude,
            magnitude: event.magnitude,
            depth_km: event.depth_km,
            radius_km: event.radius_km,
            level: event.level,
            occurred_at: event.occurred_at,
            final_report: event.final_report,
            cancel: event.cancel,
            training: event.training,
        }
    }

    /// A report, as it is shown. Its channel is not.
    pub open spec fn of_event(event: DisasterEvent<N>) -> PublicSnapshotEvent<N> {
        PublicSnapshotEvent {
            category: event.category,
            source: event.source,
            event_id: event.event_id,
            revision: event.revision,
            report_num: event.report_num,
            title: event.title,
            description: event.description,
            affected_regions: event.affected_regions,
            latitude: event.latitude,
            longitude: event.longitude,
            magnitude: event.magnitude,
            depth_km: event.depth_km,
            radius_km: event.radius_km,
            level: event.level,
            occurred_at: event.occurred_at,
            final_report: event.final_report,
            cancel: event.cancel,
            training: event.training,
        }
    }

    pub fn from_disaster_event(event: DisasterEvent<N>) -> (r: Self)
        ensures
            r == Self::of_event(event),
    {
        PublicSnapshotEvent {
            category: event.category,
            source: event.source,
            event_id: event.event_id,
            revision: event.revision,
            report_num: event.report_num,
            title: event.title,
            description: event.description,
            affected_regions: event.affected_regions,
            latitude: event.latitude,
            longitude: event.longitude,
            magnitude: event.magnitude,
            depth_km: event.depth_km,
            radius_km: event.radius_km,
            level: event.level,
            occurred_at: event.occurred_at,
            final_report: event.final_report,
            cancel: event.cancel,
            training: event.training,
        }
    }
}

impl<N: Copy> PublicNotificationSnapshot<N> {
    /// Whether this shows what was stored with a notification.
    pub open spec fn shows(self, snapshot: NotificationSnapshot<N>) -> bool {
        &&& self.incident_id == snapshot.incident_id
        &&& self.issued_at_ms == snapshot.issued_at_ms
        &&& self.event == PublicSnapshotEvent::of_notification(snapshot.event)
        &&& self.target == snapshot.target
        &&& self.timing == snapshot.timing
        &&& self.interruption_level == snapshot.interruption_level
        &&& shows_rule(self.matched_rule, snapshot.matched_rule)
    }

    pub fn from_snapshot(snapshot: NotificationSnapshot<N>) -> (r: Self)
        ensures
            r.shows(snapshot),
    {
        let matched_rule = public_rule(&snapshot.matched_rule);
        PublicNotificationSnapshot {
            incident_id: snapshot.incident_id,
            issued_at_ms: snapshot.issued_at_ms,
            event: PublicSnapshotEvent::from_notification_event(snapshot.event),
            target: snapshot.target,
            timing: snapshot.timing,
            interruption_level: snapshot.interruption_level,
            matched_rule,
        }
    }
}

impl<N, R> PublicIncident<N, R> {
    /// Whether this shows an incident. Whether anyone was notified of it is not shown.
    pub open spec fn shows(self, incident: IncidentRecord<N, R>) -> bool {
        &&& self.id == incident.id
        &&& self.category == incident.category
        &&& self.updated_at_ms == incident.updated_at_ms
        &&& self.latest_by_source@ == incident.latest_by_source@.map_values(
            |event: DisasterEvent<N>| PublicSnapshotEvent::of_event(event),
        )
        &&& self.timeline == incident.timeline
    }

    pub fn from_record(incident: IncidentRecord<N, R>) -> (r: Self)
        ensures
            r.shows(incident),
    {
        let ghost events = incident.latest_by_source@;
        let mut latest_by_source: Vec<PublicSnapshotEvent<N>> = Vec::new();
        for event in it: incident.latest_by_source
            invariant
                it.seq() == events,
                latest_by_source@ == events.take(it.index()).map_values(
                    |event: DisasterEvent<N>| PublicSnapshotEvent::of_event(event),
                ),
        {
            latest_by_source.push(PublicSnapshotEvent::from_disaster_event(event));
            assert(latest_by_source@ =~= events.take(it.index() + 1).map_values(
                |event: DisasterEvent<N>| PublicSnapshotEvent::of_event(event),
            ));
        }
        assert(events.take(events.len() as int) =~= events);
        PublicIncident {
            id: incident.id,
            category: incident.category,
            updated_at_ms: incident.updated_at_ms,
            latest_by_source,
            timeline: incident.timeline,
        }
    }
}

// ---------------------------------------------------------------------------
// Answers that nobody keeps
// ---------------------------------------------------------------------------
/// Headers with those that keep an answer private.
pub open spec fn with_detail_headers(h: Map<Seq<char>, Seq<Seq<u8>>>) -> Map<
    Seq<char>,
    Seq<Seq<u8>>,
> {
    h.insert(
        "cache-control"@,
        seq![headers::ascii_bytes("private, no-store"@)],
    ).insert("pragma"@, seq![headers::ascii_bytes("no-cache"@)]).insert(
        "expires"@,
        seq![headers::ascii_bytes("0"@)],
    ).insert("referrer-policy"@, seq![headers::ascii_bytes("no-referrer"@)]).insert(
        "x-content-type-options"@,
        seq![headers::ascii_bytes("nosniff"@)],
    ).insert("x-frame-options"@, seq![headers::ascii_bytes("DENY"@)]).insert(
        "x-robots-tag"@,
        seq![headers::ascii_bytes("noindex, nofollow, noarchive"@)],
    )
}

proof fn lemma_detail_headers()
    ensures
        headers::is_header_name("cache-control"@),
        headers::is_header_name("pragma"@),
        headers::is_header_name("expires"@),
        headers::is_header_name("referrer-policy"@),
        headers::is_header_name("x-content-type-options"@),
        headers::is_header_name("x-frame-options"@),
        headers::is_header_name("x-robots-tag"@),
        headers::is_header_value("private, no-store"@),
        headers::is_header_value("no-cache"@),
        headers::is_header_value("0"@),
        headers::is_header_value("no-referrer"@),
        headers::is_header_value("nosniff"@),
        headers::is_header_value("DENY"@),
        headers::is_header_value("noindex, nofollow, noarchive"@),
{
    reveal_strlit("cache-control");
    reveal_strlit("pragma");
    reveal_strlit("expires");
    reveal_strlit("referrer-policy");
    reveal_strlit("x-content-type-options");
    reveal_strlit("x-frame-options");
    reveal_strlit("x-robots-tag");
    reveal_strlit("private, no-store");
    reveal_strlit("no-cache");
    reveal_strlit("0");
    reveal_strlit("no-referrer");
    reveal_strlit("nosniff");
    reveal_strlit("DENY");
    reveal_strlit("noindex, nofollow, noarchive");
}

/// Adds the headers that keep an answer private.
pub fn apply_detail_headers(headers: &mut HeaderMap)
    requires
        headers::header_contents(*old(headers)).dom().finite(),
        headers::header_contents(*old(headers)).len() + 6 <= headers::MAX_HEADERS,
    ensures
        headers::header_contents(*final(headers)) == with_detail_headers(
            headers::header_contents(*old(headers)),
        ),
{
    proof {
        lemma_detail_headers();
    }
    headers::insert_header(headers, "cache-control", "private, no-store");
    headers::insert_header(headers, "pragma", "no-cache");
    headers::insert_header(headers, "expires", "0");
    headers::insert_header(headers, "referrer-policy", "no-referrer");
    headers::insert_header(headers, "x-content-type-options", "nosniff");
    headers::insert_header(headers, "x-frame-options", "DENY");
    headers::insert_header(headers, "x-robots-tag", "noindex, nofollow, noarchive");
}

/// An answer that nobody keeps.
#[derive(Debug)]
pub struct DetailResponse<T> {
    pub reply: Reply<T>,
    pub headers: HeaderMap,
}

impl<T> DetailResponse<T> {
    /// Whether the answer has the headers that keep it private, and no others.
    pub open spec fn is_private(self) -> bool {
        headers::header_contents(self.headers) == with_detail_headers(Map::empty())
    }
}

/// An answer with the headers that keep it private.
pub fn detail_json<T>(status: Status, body: ApiResponse<T>) -> (r: DetailResponse<T>)
    ensures
        r.reply.status == status,
        r.reply.body == body,
        r.is_private(),
{
    let mut headers = headers::no_headers();
    assert(headers::header_contents(headers) =~= Map::empty());
    apply_detail_headers(&mut headers);
    DetailResponse { reply: Reply { status, body }, headers }
}

pub fn detail_not_found<T>() -> (r: DetailResponse<T>)
    ensures
        r.reply.is_error(Status::NotFound, "无法打开灾害详情"@),
        r.is_private(),
{
    detail_json(Status::NotFound, ApiResponse::error("无法打开灾害详情"))
}

pub fn detail_error<T>() -> (r: DetailResponse<T>)
    ensures
        r.reply.is_error(Status::InternalServerError, "灾害详情加载失败"@),
        r.is_private(),
{
    detail_json(Status::InternalServerError, ApiResponse::error("灾害详情加载失败"))
}

pub fn detail_unavailable<T>() -> (r: DetailResponse<T>)
    ensures
        r.reply.is_error(Status::ServiceUnavailable, "灾害详情暂不可用"@),
        r.is_private(),
{
    detail_json(Status::ServiceUnavailable, ApiResponse::error("灾害详情暂不可用"))
}

/// What came of looking the details of a notification up.
#[derive(Debug)]
pub enum DetailOutcome<N, R> {
    /// The incident has no such identifier.
    InvalidId,
    /// Too many are being looked up.
    Overloaded,
    /// The token does not belong to the incident.
    InvalidLink,
    /// The store failed.
    Failed,
    /// What was stored with the notification, and the incident if it is still known.
    Loaded { snapshot: NotificationSnapshot<N>, incident: Option<IncidentRecord<N, R>> },
}

/// The answer to the details of a notification. It does not tell a wrong incident from a wrong
/// token, and nobody keeps it.
pub fn detail_response<N: Copy, R>(outcome: DetailOutcome<N, R>) -> (r: DetailResponse<
    IncidentDetailResponse<N, R>,
>)
    ensures
        r.is_private(),
        match outcome {
            DetailOutcome::InvalidId | DetailOutcome::InvalidLink => r.reply.is_error(
                Status::NotFound,
                "无法打开灾害详情"@,
            ),
            DetailOutcome::Overloaded => r.reply.is_error(
                Status::ServiceUnavailable,
                "灾害详情暂不可用"@,
            ),
            DetailOutcome::Failed => r.reply.is_error(
                Status::InternalServerError,
                "灾害详情加载失败"@,
            ),
            DetailOutcome::Loaded { snapshot, incident } => {
                &&& r.reply.status == Status::Succeeded
                &&& r.reply.body.success
                &&& r.reply.body.message@ == "灾害详情获取成功"@
                &&& r.reply.body.data matches Some(data) && data.snapshot.shows(snapshot) && (
                match (data.incident, incident) {
                    (Some(shown), Some(incident)) => shown.shows(incident),
                    (None, None) => true,
                    _ => false,
                })
            },
        },
{
    match outcome {
        DetailOutcome::InvalidId => detail_not_found(),
        DetailOutcome::InvalidLink => detail_not_found(),
        DetailOutcome::Overloaded => detail_unavailable(),
        DetailOutcome::Failed => detail_error(),
        DetailOutcome::Loaded { snapshot, incident } => {
            let snapshot = PublicNotificationSnapshot::from_snapshot(snapshot);
            let incident = match incident {
                Some(incident) => Some(PublicIncident::from_record(incident)),
                None => None,
            };
            detail_json(
                Status::Succeeded,
                ApiResponse::success(
                    "灾害详情获取成功",
                    Some(IncidentDetailResponse { snapshot, incident }),
                ),
            )
        },
    }
}

// ---------------------------------------------------------------------------
// Looking the details up
// ---------------------------------------------------------------------------
/// What a request for the details of a notification waits for.
#[derive(Debug)]
pub enum DetailState<N> {
    /// Room for one more request for details.
    AdmittingRequest { incident_id: String },
    /// Room for one more access to the store.
    AdmittingStore { incident_id: String },
    /// Whether the token belongs to the incident.
    Verifying { incident_id: String },
    /// The incident, if it is still known.
    Loading { incident_id: String, snapshot: NotificationSnapshot<N> },
}

/// What came of verifying a token.
#[derive(Debug)]
pub enum LinkOutcome<N> {
    /// The token belongs to the incident, and this was stored with the notification.
    Valid(NotificationSnapshot<N>),
    Invalid,
    Failed,
}

/// What a request for the details of a notification waited for.
#[derive(Debug)]
pub enum DetailEvent<N, R> {
    RequestAdmitted(bool),
    StoreAdmitted(bool),
    Verified(LinkOutcome<N>),
    /// The store was asked for the incident, and failed where this is `None`.
    IncidentLoaded(Option<Option<IncidentRecord<N, R>>>),
}

/// A request goes on waiting, or it is known what came of it.
#[derive(Debug)]
pub enum DetailStep<N, R> {
    Wait(DetailState<N>),
    Answer(DetailOutcome<N, R>),
}

/// Begins with a request for the details of a notification. `incident_id` is `None` where the
/// request names none.
pub fn start_detail<N, R>(incident_id: Option<String>) -> (r: DetailStep<N, R>)
    ensures
        match incident_id {
            Some(incident_id) => r == DetailStep::<N, R>::Wait(
                DetailState::AdmittingRequest { incident_id },
            ),
            None => r == DetailStep::<N, R>::Answer(DetailOutcome::InvalidId),
        },
{
    match incident_id {
        Some(incident_id) => DetailStep::Wait(DetailState::AdmittingRequest { incident_id }),
        None => DetailStep::Answer(DetailOutcome::InvalidId),
    }
}

/// How a request goes on when what it waited for has come. What it did not wait for changes
/// nothing.
pub open spec fn detail_follows<N, R>(state: DetailState<N>, event: DetailEvent<N, R>) -> DetailStep<
    N,
    R,
> {
    match (state, event) {
        (
            DetailState::AdmittingRequest { incident_id },
            DetailEvent::RequestAdmitted(admitted),
        ) => if admitted {
            DetailStep::Wait(DetailState::AdmittingStore { incident_id })
        } else {
            DetailStep::Answer(DetailOutcome::Overloaded)
        },
        (DetailState::AdmittingStore { incident_id }, DetailEvent::StoreAdmitted(admitted)) =>
        if admitted {
            DetailStep::Wait(DetailState::Verifying { incident_id })
        } else {
            DetailStep::Answer(DetailOutcome::Overloaded)
        },
        (DetailState::Verifying { incident_id }, DetailEvent::Verified(outcome)) => match outcome {
            LinkOutcome::Valid(snapshot) => DetailStep::Wait(
                DetailState::Loading { incident_id, snapshot },
            ),
            LinkOutcome::Invalid => DetailStep::Answer(DetailOutcome::InvalidLink),
            LinkOutcome::Failed => DetailStep::Answer(DetailOutcome::Failed),
        },
        (DetailState::Loading { snapshot, .. }, DetailEvent::IncidentLoaded(loaded)) => match loaded {
            Some(incident) => DetailStep::Answer(DetailOutcome::Loaded { snapshot, incident }),
            None => DetailStep::Answer(DetailOutcome::Failed),
        },
        _ => DetailStep::Wait(state),
    }
}

/// Goes on with a request for the details of a notification when what it waited for has come.
pub fn advance_detail<N, R>(state: DetailState<N>, event: DetailEvent<N, R>) -> (r: DetailStep<
    N,
    R,
>)
    ensures
        r == detail_follows(state, event),
{
    match (state, event) {
        (
            DetailState::AdmittingRequest { incident_id },
            DetailEvent::RequestAdmitted(admitted),
        ) => if admitted {
            DetailStep::Wait(DetailState::AdmittingStore { incident_id })
        } else {
            DetailStep::Answer(DetailOutcome::Overloaded)
        },
        (DetailState::AdmittingStore { incident_id }, DetailEvent::StoreAdmitted(admitted)) =>
        if admitted {
            DetailStep::Wait(DetailState::Verifying { incident_id })
        } else {
            DetailStep::Answer(DetailOutcome::Overloaded)
        },
        (DetailState::Verifying { incident_id }, DetailEvent::Verified(outcome)) => match outcome {
            LinkOutcome::Valid(snapshot) => DetailStep::Wait(
                DetailState::Loading { incident_id, snapshot },
            ),
            LinkOutcome::Invalid => DetailStep::Answer(DetailOutcome::InvalidLink),
            LinkOutcome::Failed => DetailStep::Answer(DetailOutcome::Failed),
        },
        (DetailState::Loading { snapshot, .. }, DetailEvent::IncidentLoaded(loaded)) => match loaded {
            Some(incident) => DetailStep::Answer(DetailOutcome::Loaded { snapshot, incident }),
            None => DetailStep::Answer(DetailOutcome::Failed),
        },
        (state, _) => DetailStep::Wait(state),
    }
}

/// Details are shown only behind a token that was verified: whatever comes in whatever order, the
/// only way to them is from a state that holds what was stored with the notification, and the only
/// way into that state is a valid token.
pub proof fn law_details_need_a_valid_token<N, R>(state: DetailState<N>, event: DetailEvent<N, R>)
    ensures
        detail_follows(state, event) matches DetailStep::Answer(
            DetailOutcome::Loaded { snapshot, .. },
        ) ==> (state matches DetailState::Loading { snapshot: stored, .. } && stored == snapshot),
        detail_follows(state, event) matches DetailStep::Wait(
            DetailState::Loading { snapshot, .. },
        ) ==> state == detail_follows(state, event)->Wait_0 || event == DetailEvent::<N, R>::Verified(
            LinkOutcome::Valid(snapshot),
        ),
{
}

/// Whether a header is one of those that keep an answer private.
pub open spec fn is_detail_header(name: Seq<char>) -> bool {
    ||| name == "cache-control"@
    ||| name == "pragma"@
    ||| name == "expires"@
    ||| name == "referrer-policy"@
    ||| name == "x-content-type-options"@
    ||| name == "x-frame-options"@
    ||| name == "x-robots-tag"@
}

/// Every header that keeps an answer private is there with its one value, whatever was there
/// before; every other header stays as it was; and adding them again changes nothing.
pub proof fn law_detail_headers_replace(h: Map<Seq<char>, Seq<Seq<u8>>>)
    ensures
        with_detail_headers(with_detail_headers(h)) == with_detail_headers(h),
        forall|name: Seq<char>|
            is_detail_header(name) ==> #[trigger] with_detail_headers(h).contains_key(name),
        with_detail_headers(h)["cache-control"@] == seq![
            headers::ascii_bytes("private, no-store"@),
        ],
        with_detail_headers(h)["pragma"@] == seq![headers::ascii_bytes("no-cache"@)],
        with_detail_headers(h)["expires"@] == seq![headers::ascii_bytes("0"@)],
        with_detail_headers(h)["referrer-policy"@] == seq![headers::ascii_bytes("no-referrer"@)],
        with_detail_headers(h)["x-content-type-options"@] == seq![headers::ascii_bytes("nosniff"@)],
        with_detail_headers(h)["x-frame-options"@] == seq![headers::ascii_bytes("DENY"@)],
        with_detail_headers(h)["x-robots-tag"@] == seq![
            headers::ascii_bytes("noindex, nofollow, noarchive"@),
        ],
        forall|name: Seq<char>|
            !is_detail_header(name) ==> (#[trigger] with_detail_headers(h).contains_key(name)
                <==> h.contains_key(name)),
        forall|name: Seq<char>|
            !is_detail_header(name) && h.contains_key(name) ==> #[trigger] with_detail_headers(
                h,
            )[name] == h[name],
{
    reveal_strlit("cache-control");
    reveal_strlit("pragma");
    reveal_strlit("expires");
    reveal_strlit("referrer-policy");
    reveal_strlit("x-content-type-options");
    reveal_strlit("x-frame-options");
    reveal_strlit("x-robots-tag");
    assert("cache-control"@.len() == 13);
    assert("pragma"@.len() == 6);
    assert("expires"@.len() == 7);
    assert("referrer-policy"@.len() == 15 && "referrer-policy"@[0] == 'r');
    assert("x-content-type-options"@.len() == 22);
    assert("x-frame-options"@.len() == 15 && "x-frame-options"@[0] == 'x');
    assert("x-robots-tag"@.len() == 12);
    assert(with_detail_headers(with_detail_headers(h)) =~= with_detail_headers(h));
}

// ---------------------------------------------------------------------------
// What details show
// ---------------------------------------------------------------------------
/// The event of a notification is shown as it was stored, each field under its name.
pub proof fn law_shown_event_is_the_stored_one<N>(
    event: NotificationEventSnapshot<N>,
    r: PublicSnapshotEvent<N>,
)
    requires
        call_ensures(PublicSnapshotEvent::<N>::from_notification_event, (event,), r),
    ensures
        r.category == event.category,
        r.source@ == event.source@,
        r.event_id@ == event.source_event_id@,
        r.revision@ == event.revision@,
        r.report_num == event.report_num,
        r.title@ == event.title@,
        r.description@ == event.description@,
        r.affected_regions@ == event.affected_regions@,
        r.latitude == event.latitude,
        r.longitude == event.longitude,
        r.magnitude == event.magnitude,
        r.depth_km == event.depth_km,
        r.radius_km == event.radius_km,
        r.level == event.level,
        r.occurred_at@ == event.occurred_at@,
        r.final_report == event.final_report,
        r.cancel == event.cancel,
        r.training == event.training,
{
}

/// A report is shown as it is, each field under its name.
pub proof fn law_shown_report_is_the_report<N>(event: DisasterEvent<N>, r: PublicSnapshotEvent<N>)
    requires
        call_ensures(PublicSnapshotEvent::<N>::from_disaster_event, (event,), r),
    ensures
        r.category == event.category,
        r.source@ == event.source@,
        r.event_id@ == event.event_id@,
        r.revision@ == event.revision@,
        r.report_num == event.report_num,
        r.title@ == event.title@,
        r.description@ == event.description@,
        r.affected_regions@ == event.affected_regions@,
        r.latitude == event.latitude,
        r.longitude == event.longitude,
        r.magnitude == event.magnitude,
        r.depth_km == event.depth_km,
        r.radius_km == event.radius_km,
        r.level == event.level,
        r.occurred_at@ == event.occurred_at@,
        r.final_report == event.final_report,
        r.cancel == event.cancel,
        r.training == event.training,
{
}

/// A rule is shown as it was stored: of the same kind, with the same sources, bands and numbers.
pub proof fn law_shown_rule_is_the_stored_one<N: Copy>(
    rule: &NotificationRuleSnapshot<N>,
    r: AlertRule<N>,
)
    requires
        call_ensures(public_rule::<N>, (rule,), r),
    ensures
        *rule is EarthquakeWarning <==> r is EarthquakeWarning,
        *rule is EarthquakeReport <==> r is EarthquakeReport,
        *rule is WeatherWarning <==> r is WeatherWarning,
        *rule is Tsunami <==> r is Tsunami,
        *rule is Typhoon <==> r is Typhoon,
        *rule matches NotificationRuleSnapshot::EarthquakeReport { min_magnitude, .. } ==> (
        r matches AlertRule::EarthquakeReport { min_magnitude: m, .. } && m == min_magnitude),
        *rule matches NotificationRuleSnapshot::WeatherWarning {
            min_severity,
            fallback_radius_km,
            ..
        } ==> (r matches AlertRule::WeatherWarning {
            min_severity: s,
            fallback_radius_km: radius,
            ..
        } && s == min_severity && radius == fallback_radius_km),
        *rule matches NotificationRuleSnapshot::Tsunami { min_severity, .. } ==> (r matches
            AlertRule::Tsunami { min_severity: s, .. } && s == min_severity),
        *rule matches NotificationRuleSnapshot::Typhoon { max_center_distance_km, .. } ==> (
        r matches AlertRule::Typhoon { max_center_distance_km: d, .. } && d
            == max_center_distance_km),
        *rule matches NotificationRuleSnapshot::EarthquakeWarning { intensity_bands, .. } ==> (
        r matches AlertRule::EarthquakeWarning { estimated_intensity_bands, .. }
            && estimated_intensity_bands@.len() == intensity_bands@.len() && forall|k: int|
            0 <= k < intensity_bands@.len() ==> {
                &&& (#[trigger] estimated_intensity_bands@[k]).min == intensity_bands@[k].min
                &&& estimated_intensity_bands@[k].max == intensity_bands@[k].max
                &&& estimated_intensity_bands@[k].interruption_level
                    == intensity_bands@[k].interruption_level
            }),
{
}

/// The sources of a rule are shown as they were stored, in their order.
pub proof fn law_shown_sources_are_the_stored_ones(
    sources: &NotificationSourcesSnapshot,
    r: SourceSelection,
)
    requires
        call_ensures(public_sources, (sources,), r),
    ensures
        *sources is All <==> r is All,
        *sources matches NotificationSourcesSnapshot::Include(ids) ==> (r matches
            SourceSelection::Include { ids: shown } && shown@.len() == ids@.len() && forall|i: int|
            0 <= i < ids@.len() ==> #[trigger] shown@[i]@ == ids@[i]@),
{
}

/// A shown rule takes the sources of the stored one, whatever it is about.
pub proof fn law_shown_rule_takes_the_stored_sources<N: Copy>(
    rule: &NotificationRuleSnapshot<N>,
    r: AlertRule<N>,
)
    requires
        call_ensures(public_rule::<N>, (rule,), r),
    ensures
        ({
            let stored = match *rule {
                NotificationRuleSnapshot::EarthquakeWarning { sources, .. } => sources,
                NotificationRuleSnapshot::EarthquakeReport { sources, .. } => sources,
                NotificationRuleSnapshot::WeatherWarning { sources, .. } => sources,
                NotificationRuleSnapshot::Tsunami { sources, .. } => sources,
                NotificationRuleSnapshot::Typhoon { sources, .. } => sources,
            };
            &&& stored is All <==> r.selection() is All
            &&& stored matches NotificationSourcesSnapshot::Include(ids) ==> (r.selection() matches
                SourceSelection::Include { ids: shown } && shown@.len() == ids@.len() && forall|
                i: int,
            |
                0 <= i < ids@.len() ==> #[trigger] shown@[i]@ == ids@[i]@)
        }),
{
}

/// What was stored with a notification is shown with it: the incident, the moment, the event, the
/// place, the times of arrival and how it interrupted.
pub proof fn law_shown_notification_is_the_stored_one<N: Copy>(
    snapshot: NotificationSnapshot<N>,
    r: PublicNotificationSnapshot<N>,
)
    requires
        call_ensures(PublicNotificationSnapshot::<N>::from_snapshot, (snapshot,), r),
    ensures
        r.incident_id@ == snapshot.incident_id@,
        r.issued_at_ms == snapshot.issued_at_ms,
        r.interruption_level@ == snapshot.interruption_level@,
        r.target.label@ == snapshot.target.label@,
        r.target.latitude == snapshot.target.latitude,
        r.target.longitude == snapshot.target.longitude,
        r.target.province@ == snapshot.target.province@,
        r.target.city@ == snapshot.target.city@,
        r.target.district@ == snapshot.target.district@,
        r.timing is Some <==> snapshot.timing is Some,
        r.timing matches Some(timing) ==> {
            let stored = snapshot.timing->0;
            &&& timing.epicentral_distance_km == stored.epicentral_distance_km
            &&& timing.hypocentral_distance_km == stored.hypocentral_distance_km
            &&& timing.estimated_intensity == stored.estimated_intensity
            &&& timing.p_arrival_at_ms == stored.p_arrival_at_ms
            &&& timing.s_arrival_at_ms == stored.s_arrival_at_ms
        },
        r.event.latitude == snapshot.event.latitude,
        r.event.longitude == snapshot.event.longitude,
        r.event.magnitude == snapshot.event.magnitude,
        r.event.depth_km == snapshot.event.depth_km,
        r.event.event_id@ == snapshot.event.source_event_id@,
        r.event.source@ == snapshot.event.source@,
        r.event.title@ == snapshot.event.title@,
        r.event.level == snapshot.event.level,
        r.event.category == snapshot.event.category,
{
}

/// An incident is shown with its identifier, kind, time and timeline, and with the report of each
/// of its sources.
pub proof fn law_shown_incident_is_the_stored_one<N, R>(
    incident: IncidentRecord<N, R>,
    r: PublicIncident<N, R>,
)
    requires
        call_ensures(PublicIncident::<N, R>::from_record, (incident,), r),
    ensures
        r.id@ == incident.id@,
        r.category == incident.category,
        r.updated_at_ms == incident.updated_at_ms,
        r.timeline@ == incident.timeline@,
        r.latest_by_source@.len() == incident.latest_by_source@.len(),
        forall|j: int|
            0 <= j < incident.latest_by_source@.len() ==> {
                let shown = #[trigger] r.latest_by_source@[j];
                let event = incident.latest_by_source@[j];
                &&& shown.category == event.category
                &&& shown.source@ == event.source@
                &&& shown.event_id@ == event.event_id@
                &&& shown.revision@ == event.revision@
                &&& shown.report_num == event.report_num
                &&& shown.title@ == event.title@
                &&& shown.description@ == event.description@
                &&& shown.affected_regions@ == event.affected_regions@
                &&& shown.latitude == event.latitude
                &&& shown.longitude == event.longitude
                &&& shown.magnitude == event.magnitude
                &&& shown.depth_km == event.depth_km
                &&& shown.radius_km == event.radius_km
                &&& shown.level == event.level
                &&& shown.occurred_at@ == event.occurred_at@
                &&& shown.final_report == event.final_report
                &&& shown.cancel == event.cancel
                &&& shown.training == event.training
            },
{
}

/// A wrong incident and a wrong token are answered alike, so that nobody learns which of them was
/// wrong.
pub proof fn law_wrong_links_are_answered_alike<N: Copy, R>(
    of_id: DetailResponse<IncidentDetailResponse<N, R>>,
    of_token: DetailResponse<IncidentDetailResponse<N, R>>,
)
    requires
        call_ensures(detail_response::<N, R>, (DetailOutcome::InvalidId,), of_id),
        call_ensures(detail_response::<N, R>, (DetailOutcome::InvalidLink,), of_token),
    ensures
        of_id.reply.status == Status::NotFound,
        of_id.reply.status == of_token.reply.status,
        of_id.reply.body.message@ == of_token.reply.body.message@,
        of_id.reply.body.data is None && of_token.reply.body.data is None,
        !of_id.reply.body.success && !of_token.reply.body.success,
        headers::header_contents(of_id.headers) == headers::header_contents(of_token.headers),
{
}

/// Details are answered with what was stored and the incident, if it is still known, and with
/// nothing where they could not be loaded. Whatever the answer, nobody may keep it.
pub proof fn law_details_are_answered<N: Copy, R>(
    outcome: DetailOutcome<N, R>,
    r: DetailResponse<IncidentDetailResponse<N, R>>,
)
    requires
        call_ensures(detail_response::<N, R>, (outcome,), r),
    ensures
        r.reply.body.success <==> outcome is Loaded,
        r.reply.body.data is Some <==> outcome is Loaded,
        r.reply.status == Status::Succeeded <==> outcome is Loaded,
        r.reply.status == Status::ServiceUnavailable <==> outcome is Overloaded,
        r.reply.status == Status::InternalServerError <==> outcome is Failed,
        headers::header_contents(r.headers).contains_key("cache-control"@),
        headers::header_contents(r.headers)["cache-control"@] == seq![
            headers::ascii_bytes("private, no-store"@),
        ],
        headers::header_contents(r.headers)["pragma"@] == seq![headers::ascii_bytes("no-cache"@)],
        headers::header_contents(r.headers)["expires"@] == seq![headers::ascii_bytes("0"@)],
        headers::header_contents(r.headers)["referrer-policy"@] == seq![
            headers::ascii_bytes("no-referrer"@),
        ],
        headers::header_contents(r.headers)["x-content-type-options"@] == seq![
            headers::ascii_bytes("nosniff"@),
        ],
        headers::header_contents(r.headers)["x-frame-options"@] == seq![
            headers::ascii_bytes("DENY"@),
        ],
        headers::header_contents(r.headers)["x-robots-tag"@] == seq![
            headers::ascii_bytes("noindex, nofollow, noarchive"@),
        ],
        outcome matches DetailOutcome::Loaded { snapshot, incident } ==> {
            let data = r.reply.body.data->0;
            &&& data.snapshot.incident_id@ == snapshot.incident_id@
            &&& data.snapshot.issued_at_ms == snapshot.issued_at_ms
            &&& data.snapshot.target.label@ == snapshot.target.label@
            &&& data.snapshot.event.latitude == snapshot.event.latitude
            &&& data.snapshot.event.longitude == snapshot.event.longitude
            &&& data.snapshot.event.magnitude == snapshot.event.magnitude
            &&& data.snapshot.event.depth_km == snapshot.event.depth_km
            &&& data.incident is Some <==> incident is Some
            &&& data.incident matches Some(shown) ==> shown.id@ == incident->0.id@
                && shown.category == incident->0.category && shown.updated_at_ms
                == incident->0.updated_at_ms && shown.timeline@ == incident->0.timeline@
        },
{
    law_detail_headers_replace(Map::empty());
    assert(is_detail_header("cache-control"@));
}

/// Details are looked up step by step: for the incident that was named, behind both limits and a
/// valid token, and shown with what was stored under that token.
pub proof fn law_details_are_looked_up_in_order<N, R>(
    incident_id: String,
    start: DetailStep<N, R>,
    admitted: DetailStep<N, R>,
    verifying: DetailStep<N, R>,
    snapshot: NotificationSnapshot<N>,
    loading: DetailStep<N, R>,
    incident: Option<IncidentRecord<N, R>>,
    done: DetailStep<N, R>,
)
    requires
        call_ensures(start_detail::<N, R>, (Some(incident_id),), start),
        start is Wait,
        call_ensures(
            advance_detail::<N, R>,
            (start->Wait_0, DetailEvent::RequestAdmitted(true)),
            admitted,
        ),
        admitted is Wait,
        call_ensures(
            advance_detail::<N, R>,
            (admitted->Wait_0, DetailEvent::StoreAdmitted(true)),
            verifying,
        ),
        verifying is Wait,
        call_ensures(
            advance_detail::<N, R>,
            (verifying->Wait_0, DetailEvent::Verified(LinkOutcome::Valid(snapshot))),
            loading,
        ),
        loading is Wait,
        call_ensures(
            advance_detail::<N, R>,
            (loading->Wait_0, DetailEvent::IncidentLoaded(Some(incident))),
            done,
        ),
    ensures
        verifying->Wait_0 matches DetailState::Verifying { incident_id: id } && id@
            == incident_id@,
        loading->Wait_0 matches DetailState::Loading { incident_id: id, .. } && id@
            == incident_id@,
        done == DetailStep::<N, R>::Answer(DetailOutcome::Loaded { snapshot, incident }),
{
}

/// What came out badly ends the lookup: no identifier, no room, a token that is not valid, a store
/// that fails. What did not come in its turn changes nothing.
pub proof fn law_lookup_ends_where_it_fails<N, R>(
    state: DetailState<N>,
    event: DetailEvent<N, R>,
    r: DetailStep<N, R>,
    nameless: DetailStep<N, R>,
)
    requires
        call_ensures(advance_detail::<N, R>, (state, event), r),
        call_ensures(start_detail::<N, R>, (None,), nameless),
    ensures
        nameless == DetailStep::<N, R>::Answer(DetailOutcome::InvalidId),
        state is AdmittingRequest && event == DetailEvent::<N, R>::RequestAdmitted(false) ==> r
            == DetailStep::<N, R>::Answer(DetailOutcome::Overloaded),
        state is AdmittingStore && event == DetailEvent::<N, R>::StoreAdmitted(false) ==> r
            == DetailStep::<N, R>::Answer(DetailOutcome::Overloaded),
        state is Verifying && event == DetailEvent::<N, R>::Verified(LinkOutcome::Invalid) ==> r
            == DetailStep::<N, R>::Answer(DetailOutcome::InvalidLink),
        state is Verifying && event == DetailEvent::<N, R>::Verified(LinkOutcome::Failed) ==> r
            == DetailStep::<N, R>::Answer(DetailOutcome::Failed),
        state is Loading && event == DetailEvent::<N, R>::IncidentLoaded(None) ==> r
            == DetailStep::<N, R>::Answer(DetailOutcome::Failed),
        r matches DetailStep::Wait(next) ==> {
            ||| next == state
            ||| next is AdmittingStore && state is AdmittingRequest && event is RequestAdmitted
            ||| next is Verifying && state is AdmittingStore && event is StoreAdmitted
            ||| next is Loading && state is Verifying && event is Verified
        },
{
}

/// An answer about details says what it is given, and the failures are told apart by their status;
/// nobody may keep any of them.
pub proof fn law_failures_of_details<T>(
    status: Status,
    body: ApiResponse<T>,
    answer: DetailResponse<T>,
    not_found: DetailResponse<T>,
    error: DetailResponse<T>,
    unavailable: DetailResponse<T>,
)
    requires
        call_ensures(detail_json::<T>, (status, body), answer),
        call_ensures(detail_not_found::<T>, (), not_found),
        call_ensures(detail_error::<T>, (), error),
        call_ensures(detail_unavailable::<T>, (), unavailable),
    ensures
        answer.reply.status == status && answer.reply.body == body,
        not_found.reply.status == Status::NotFound,
        error.reply.status == Status::InternalServerError,
        unavailable.reply.status == Status::ServiceUnavailable,
        !not_found.reply.body.success && not_found.reply.body.data is None,
        !error.reply.body.success && error.reply.body.data is None,
        !unavailable.reply.body.success && unavailable.reply.body.data is None,
        headers::header_contents(answer.headers)["cache-control"@] == seq![
            headers::ascii_bytes("private, no-store"@),
        ],
        headers::header_contents(not_found.headers) == headers::header_contents(answer.headers),
        headers::header_contents(error.headers) == headers::header_contents(answer.headers),
        headers::header_contents(unavailable.headers) == headers::header_contents(answer.headers),
{
    law_detail_headers_replace(Map::empty());
}

/// The event of a notification is shown with it as it is shown by itself, and so is the rule that
/// it was matched by.
pub proof fn law_shown_notification_has_its_event_and_its_rule<N: Copy>(
    snapshot: NotificationSnapshot<N>,
    r: PublicNotificationSnapshot<N>,
    event: PublicSnapshotEvent<N>,
    rule: AlertRule<N>,
)
    requires
        call_ensures(PublicNotificationSnapshot::<N>::from_snapshot, (snapshot,), r),
        call_ensures(PublicSnapshotEvent::<N>::from_notification_event, (snapshot.event,), event),
        call_ensures(public_rule::<N>, (&snapshot.matched_rule,), rule),
    ensures
        r.event == event,
        r.matched_rule.about() == rule.about(),
        r.matched_rule.selection().same_as(rule.selection()),
        r.matched_rule.bands() == rule.bands(),
        rule matches AlertRule::EarthquakeReport { min_magnitude, .. } ==> (r.matched_rule matches
            AlertRule::EarthquakeReport { min_magnitude: m, .. } && m == min_magnitude),
        rule matches AlertRule::WeatherWarning { min_severity, fallback_radius_km, .. } ==> (
        r.matched_rule matches AlertRule::WeatherWarning {
            min_severity: s,
            fallback_radius_km: radius,
            ..
        } && s == min_severity && radius == fallback_radius_km),
        rule matches AlertRule::Tsunami { min_severity, .. } ==> (r.matched_rule matches
            AlertRule::Tsunami { min_severity: s, .. } && s == min_severity),
        rule matches AlertRule::Typhoon { max_center_distance_km, .. } ==> (r.matched_rule matches
            AlertRule::Typhoon { max_center_distance_km: d, .. } && d == max_center_distance_km),
{
}

/// Details show what was stored and the incident as each is shown by itself.
pub proof fn law_details_show_what_was_loaded<N: Copy, R>(
    snapshot: NotificationSnapshot<N>,
    incident: IncidentRecord<N, R>,
    r: DetailResponse<IncidentDetailResponse<N, R>>,
    shown_snapshot: PublicNotificationSnapshot<N>,
    shown_incident: PublicIncident<N, R>,
)
    requires
        call_ensures(
            detail_response::<N, R>,
            ((DetailOutcome::Loaded { snapshot, incident: Some(incident) }),),
            r,
        ),
        call_ensures(PublicNotificationSnapshot::<N>::from_snapshot, (snapshot,), shown_snapshot),
        call_ensures(PublicIncident::<N, R>::from_record, (incident,), shown_incident),
    ensures
        r.reply.body.data matches Some(data) && {
            &&& data.snapshot.event == shown_snapshot.event
            &&& data.snapshot.target == shown_snapshot.target
            &&& data.snapshot.timing == shown_snapshot.timing
            &&& data.snapshot.interruption_level == shown_snapshot.interruption_level
            &&& data.snapshot.incident_id == shown_snapshot.incident_id
            &&& data.snapshot.issued_at_ms == shown_snapshot.issued_at_ms
            &&& data.snapshot.matched_rule.about() == shown_snapshot.matched_rule.about()
            &&& data.snapshot.matched_rule.bands() == shown_snapshot.matched_rule.bands()
            &&& data.snapshot.matched_rule.selection().same_as(
                shown_snapshot.matched_rule.selection(),
            )
            &&& data.incident matches Some(shown) && {
                &&& shown.id == shown_incident.id
                &&& shown.category == shown_incident.category
                &&& shown.updated_at_ms == shown_incident.updated_at_ms
                &&& shown.latest_by_source@ == shown_incident.latest_by_source@
                &&& shown.timeline == shown_incident.timeline
            }
        },
{
}

/// What is said of each outcome.
pub proof fn law_words_about_details<N: Copy, R>(
    outcome: DetailOutcome<N, R>,
    r: DetailResponse<IncidentDetailResponse<N, R>>,
)
    requires
        call_ensures(detail_response::<N, R>, (outcome,), r),
    ensures
        outcome is InvalidId || outcome is InvalidLink ==> r.reply.body.message@
            == "无法打开灾害详情"@,
        outcome is Overloaded ==> r.reply.body.message@ == "灾害详情暂不可用"@,
        outcome is Failed ==> r.reply.body.message@ == "灾害详情加载失败"@,
        outcome is Loaded ==> r.reply.body.message@ == "灾害详情获取成功"@,
{
}

} // verus!
