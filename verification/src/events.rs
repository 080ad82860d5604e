//! Listing incidents, page by page.
use crate::api::{self, Refusal, Reply, Status, StoreOutcome};
use crate::models::{DisasterCategory, DisasterEvent, IncidentRecord, ProviderChannel};
use crate::text;
use vstd::prelude::*;

verus! {

pub const DEFAULT_LIMIT: u16 = 50;

pub const MAX_LIMIT: u16 = 200;

pub const LIMIT_MESSAGE: &'static str = "limit 必须是 1 到 200 的整数";

pub const QUERY_MESSAGE: &'static str = "查询参数无效";

/// How many entries a page holds: as many as were asked for, if that is allowed.
pub open spec fn page_limit(limit: Option<u16>) -> Option<nat> {
    let wanted = match limit {
        Some(n) => n,
        None => DEFAULT_LIMIT,
    };
    if 1 <= wanted <= MAX_LIMIT {
        Some(wanted as nat)
    } else {
        None
    }
}

pub fn parse_limit(limit: Option<u16>) -> (r: Result<usize, Refusal>)
    ensures
        match r {
            Ok(n) => page_limit(limit) == Some(n as nat),
            Err(refusal) => page_limit(limit) is None && api::refused_with(
                refusal,
                Status::BadRequest,
                LIMIT_MESSAGE@,
            ),
        },
{
    let wanted: u16 = match limit {
        Some(n) => n,
        None => DEFAULT_LIMIT,
    };
    if wanted == 0 || wanted > MAX_LIMIT {
        return Err((Status::BadRequest, LIMIT_MESSAGE.to_owned()));
    }
    Ok(wanted as usize)
}

// ---------------------------------------------------------------------------
// Cursors
// ---------------------------------------------------------------------------
/// A cursor: when an incident changed last, and which it is.
pub open spec fn cursor_text(updated_at_ms: i64, incident_id: Seq<char>) -> Seq<char> {
    text::signed_decimal(updated_at_ms as int) + "_"@ + incident_id
}

/// The parts of a cursor; `None` where a text is none.
pub open spec fn cursor_parts(raw: Seq<char>) -> Option<(i64, Seq<char>)> {
    match text::split_at_first(raw, '_') {
        Some((time, id)) => match text::i64_value(time) {
            Some(updated_at_ms) => Some((updated_at_ms, id)),
            None => None,
        },
        None => None,
    }
}

pub fn encode_cursor(updated_at_ms: i64, incident_id: &str) -> (r: String)
    ensures
        r@ == cursor_text(updated_at_ms, incident_id@),
{
    let mut r = text::signed_decimal_text(updated_at_ms);
    r.append("_");
    r.append(incident_id);
    r
}

/// The parts of a cursor are read back from its text.
pub proof fn law_cursor_is_read_back(updated_at_ms: i64, incident_id: Seq<char>)
    ensures
        cursor_parts(cursor_text(updated_at_ms, incident_id)) == Some((updated_at_ms, incident_id)),
{
    reveal_strlit("_");
    let time = text::signed_decimal(updated_at_ms as int);
    let raw = cursor_text(updated_at_ms, incident_id);
    text::lemma_i64_of_signed_decimal(updated_at_ms);
    let n = time.len() as int;
    assert forall|k: int| 0 <= k < n implies raw[k] != '_' by {
        assert(raw[k] == time[k]);
    }
    text::lemma_split_at_first(raw, '_', n);
    assert(raw.subrange(0, n) =~= time);
    assert(raw.subrange(n + 1, raw.len() as int) =~= incident_id);
}

/// Whether a cursor has this time and incident, as `parse_id` reads the identifier of an incident.
pub open spec fn decodes_to<F: Fn(&str) -> Option<String>>(
    raw: Seq<char>,
    parse_id: F,
    decoded: Option<(i64, String)>,
) -> bool {
    match cursor_parts(raw) {
        Some((updated_at_ms, id)) => exists|given: &str, parsed: Option<String>|
            {
                &&& given@ == id
                &&& #[trigger] parse_id.ensures((given,), parsed)
                &&& decoded == (match parsed {
                    Some(incident_id) => Some((updated_at_ms, incident_id)),
                    None => None,
                })
            },
        None => decoded is None,
    }
}

/// The time and the incident of a cursor. `parse_id` reads the identifier of an incident.
pub fn decode_cursor<F: Fn(&str) -> Option<String>>(raw: &str, parse_id: F) -> (r: Option<
    (i64, String),
>)
    requires
        forall|id: &str| parse_id.requires((id,)),
    ensures
        decodes_to(raw@, parse_id, r),
{
    let (time, id) = match text::split_once(raw, '_') {
        Some(parts) => parts,
        None => {
            return None;
        },
    };
    let updated_at_ms: i64 = match text::parse_i64(time) {
        Some(updated_at_ms) => updated_at_ms,
        None => {
            return None;
        },
    };
    match parse_id(id) {
        Some(incident_id) => Some((updated_at_ms, incident_id)),
        None => None,
    }
}

/// What is asked of the list of incidents.
#[derive(Debug)]
pub struct EventQuery {
    pub limit: Option<u16>,
    pub cursor: Option<String>,
}

/// How many incidents a page holds, and behind which it begins. `query` is `None` where the
/// query of the request could not be read; an empty cursor counts as none.
pub fn parse_event_query<F: Fn(&str) -> Option<String>>(
    query: Option<EventQuery>,
    parse_id: F,
) -> (r: Result<(usize, Option<(i64, String)>), Refusal>)
    requires
        forall|id: &str| parse_id.requires((id,)),
    ensures
        match query {
            None => r matches Err(refusal) && api::refused_with(
                refusal,
                Status::BadRequest,
                QUERY_MESSAGE@,
            ),
            Some(query) => match page_limit(query.limit) {
                None => r matches Err(refusal) && api::refused_with(
                    refusal,
                    Status::BadRequest,
                    LIMIT_MESSAGE@,
                ),
                Some(limit) => if query.cursor is Some && query.cursor->0@.len() > 0 {
                    match r {
                        Ok((n, cursor)) => n == limit && cursor is Some && decodes_to(
                            query.cursor->0@,
                            parse_id,
                            cursor,
                        ),
                        Err(refusal) => decodes_to(query.cursor->0@, parse_id, None)
                            && api::refused_with(refusal, Status::BadRequest, "cursor 无效"@),
                    }
                } else {
                    r matches Ok((n, cursor)) && n == limit && cursor is None
                },
            },
        },
{
    let query = match query {
        Some(query) => query,
        None => {
            return Err((Status::BadRequest, QUERY_MESSAGE.to_owned()));
        },
    };
    let limit: usize = match parse_limit(query.limit) {
        Ok(limit) => limit,
        Err(refusal) => {
            return Err(refusal);
        },
    };
    match query.cursor {
        Some(raw) => {
            if raw.as_str().is_empty() {
                return Ok((limit, None));
            }
            match decode_cursor(raw.as_str(), parse_id) {
                Some(cursor) => Ok((limit, Some(cursor))),
                None => Err((Status::BadRequest, "cursor 无效".to_owned())),
            }
        },
        None => Ok((limit, None)),
    }
}

// ---------------------------------------------------------------------------
// Pages
// ---------------------------------------------------------------------------
/// A report, as it is listed.
#[derive(Debug)]
pub struct EventView<N> {
    pub category: DisasterCategory,
    pub channel: ProviderChannel,
    pub source: String,
    pub event_id: String,
    pub revision: String,
    pub report_num: u32,
    pub title: String,
    pub description: String,
    pub affected_regions: Vec<String>,
    pub latitude: Option<N>,
    pub longitude: Option<N>,
    pub magnitude: Option<N>,
    pub depth_km: Option<N>,
    pub radius_km: Option<N>,
    pub level: u8,
    pub occurred_at: String,
    pub final_report: bool,
    pub cancel: bool,
    pub training: bool,
}

impl<N> EventView<N> {
    /// The report that is listed.
    pub open spec fn of(event: DisasterEvent<N>) -> EventView<N> {
        EventView {
            category: event.category,
            channel: event.channel,
            source: event.source,
            event_id: event.event_id,
            revision: event.revision,
            report_num: event.report_num,
            title: event.title,
            description: event.description,
            affected_regions: event.affected_regions,
            latitude: event.latitude,
            longitude: event.longitude,
            magnitude: event.magnitude,
            depth_km: event.depth_km,
            radius_km: event.radius_km,
            level: event.level,
            occurred_at: event.occurred_at,
            final_report: event.final_report,
            cancel: event.cancel,
            training: event.training,
        }
    }

    pub fn from_event(event: DisasterEvent<N>) -> (r: EventView<N>)
        ensures
            r == EventView::of(event),
    {
        EventView {
            category: event.category,
            channel: event.channel,
            source: event.source,
            event_id: event.event_id,
            revision: event.revision,
            report_num: event.report_num,
            title: event.title,
            description: event.description,
            affected_regions: event.affected_regions,
            latitude: event.latitude,
            longitude: event.longitude,
            magnitude: event.magnitude,
            depth_km: event.depth_km,
            radius_km: event.radius_km,
            level: event.level,
            occurred_at: event.occurred_at,
            final_report: event.final_report,
            cancel: event.cancel,
            training: event.training,
        }
    }
}

/// An incident, as it is listed.
#[derive(Debug)]
pub struct IncidentView<N, R> {
    pub incident_id: String,
    pub category: DisasterCategory,
    pub first_seen_at_ms: i64,
    pub updated_at_ms: i64,
    pub has_matched_subscribers: bool,
    pub latest: Vec<EventView<N>>,
    pub timeline: Vec<R>,
}

impl<N, R> IncidentView<N, R> {
    /// Whether this lists an incident.
    pub open spec fn lists(self, incident: IncidentRecord<N, R>) -> bool {
        &&& self.incident_id == incident.id
        &&& self.category == incident.category
        &&& self.first_seen_at_ms == incident.first_seen_at_ms
        &&& self.updated_at_ms == incident.updated_at_ms
        &&& self.has_matched_subscribers == incident.has_matched_subscribers
        &&& self.latest@ == incident.latest_by_source@.map_values(
            |event: DisasterEvent<N>| EventView::of(event),
        )
        &&& self.timeline == incident.timeline
    }

    pub fn from_incident(incident: IncidentRecord<N, R>) -> (r: IncidentView<N, R>)
        ensures
            r.lists(incident),
    {
        let ghost events = incident.latest_by_source@;
        let mut latest: Vec<EventView<N>> = Vec::new();
        for event in it: incident.latest_by_source
            invariant
                it.seq() == events,
                latest@ == events.take(it.index()).map_values(
                    |event: DisasterEvent<N>| EventView::of(event),
                ),
        {
            latest.push(EventView::from_event(event));
            assert(latest@ =~= events.take(it.index() + 1).map_values(
                |event: DisasterEvent<N>| EventView::of(event),
            ));
        }
        assert(events.take(events.len() as int) =~= events);
        IncidentView {
            incident_id: incident.id,
            category: incident.category,
            first_seen_at_ms: incident.first_seen_at_ms,
            updated_at_ms: incident.updated_at_ms,
            has_matched_subscribers: incident.has_matched_subscribers,
            latest,
            timeline: incident.timeline,
        }
    }
}

#[derive(Debug)]
pub struct EventsResponse<N, R> {
    pub events: Vec<IncidentView<N, R>>,
    pub next_cursor: Option<String>,
}

/// How many of the incidents that were found a page shows.
pub open spec fn shown(found: nat, limit: nat) -> nat {
    if found > limit {
        limit
    } else {
        found
    }
}

/// The cursor behind a page: that of the last incident on it, if more were found than it shows.
pub open spec fn next_cursor<N, R>(found: Seq<IncidentRecord<N, R>>, limit: nat) -> Option<
    Seq<char>,
> {
    if found.len() > limit && limit > 0 {
        let last = found[limit - 1];
        Some(cursor_text(last.updated_at_ms, last.id@))
    } else {
        None
    }
}

/// A page of the incidents that were found. The store is asked for one more than a page shows.
pub fn events_page<N, R>(found: Vec<IncidentRecord<N, R>>, limit: usize) -> (r: EventsResponse<
    N,
    R,
>)
    ensures
        r.events@.len() == shown(found@.len(), limit as nat),
        forall|i: int| 0 <= i < r.events@.len() ==> (#[trigger] r.events@[i]).lists(found@[i]),
        text::optional_text(r.next_cursor) == next_cursor(found@, limit as nat),
{
    let ghost all = found@;
    let total = found.len();
    let next = if total > limit && limit > 0 {
        Some(encode_cursor(found[limit - 1].updated_at_ms, found[limit - 1].id.as_str()))
    } else {
        None
    };
    let mut events: Vec<IncidentView<N, R>> = Vec::new();
    for incident in it: found
        invariant
            it.seq() == all,
            total == all.len(),
            events@.len() == shown(it.index() as nat, limit as nat),
            forall|i: int| 0 <= i < events@.len() ==> (#[trigger] events@[i]).lists(all[i]),
    {
        if events.len() < limit {
            events.push(IncidentView::from_incident(incident));
        }
    }
    EventsResponse { events, next_cursor: next }
}

/// Pages leave nothing out and show nothing twice: what was found is what a page shows, followed
/// by what lies behind its cursor, and there is a cursor exactly where something does.
pub proof fn law_pages_cover_what_was_found<N, R>(found: Seq<IncidentRecord<N, R>>, limit: nat)
    requires
        limit > 0,
    ensures
        found == found.take(shown(found.len(), limit) as int) + found.skip(
            shown(found.len(), limit) as int,
        ),
        next_cursor(found, limit) is Some <==> found.skip(
            shown(found.len(), limit) as int,
        ).len() > 0,
        next_cursor(found, limit) matches Some(cursor) ==> {
            let last = found[shown(found.len(), limit) - 1];
            cursor_parts(cursor) == Some((last.updated_at_ms, last.id@))
        },
{
    let n = shown(found.len(), limit) as int;
    assert(found =~= found.take(n) + found.skip(n));
    if next_cursor(found, limit) is Some {
        let last = found[n - 1];
        law_cursor_is_read_back(last.updated_at_ms, last.id@);
    }
}

/// How many incidents the store is asked for: one more than a page shows, by which it is known
/// whether there are more.
pub fn incidents_to_ask_for(limit: usize) -> (r: usize)
    requires
        limit < usize::MAX,
    ensures
        r == limit + 1,
{
    limit + 1
}

/// Whether an incident is the one that a cursor names.
pub open spec fn is_named<N, R>(incident: IncidentRecord<N, R>, at: (i64, Seq<char>)) -> bool {
    incident.updated_at_ms == at.0 && incident.id@ == at.1
}

/// Whether no cursor names two of the incidents.
pub open spec fn are_distinct<N, R>(all: Seq<IncidentRecord<N, R>>) -> bool {
    forall|i: int, j: int|
        0 <= i < j < all.len() ==> (#[trigger] all[i]).updated_at_ms != (
        #[trigger] all[j]).updated_at_ms || all[i].id@ != all[j].id@
}

/// Whether incidents that changed later come first.
pub open spec fn newest_first<N, R>(all: Seq<IncidentRecord<N, R>>) -> bool {
    forall|i: int, j: int|
        0 <= i < j < all.len() ==> (#[trigger] all[i]).updated_at_ms >= (
        #[trigger] all[j]).updated_at_ms
}

/// The incidents behind the one that is named.
pub open spec fn behind<N, R>(all: Seq<IncidentRecord<N, R>>, at: (i64, Seq<char>)) -> Seq<
    IncidentRecord<N, R>,
>
    decreases all.len(),
{
    if all.len() == 0 {
        all
    } else if is_named(all[0], at) {
        all.drop_first()
    } else {
        behind(all.drop_first(), at)
    }
}

/// The incidents behind a cursor, and without a cursor all of them. A text that is no cursor is
/// refused, so there is nothing behind it.
pub open spec fn behind_cursor<N, R>(
    all: Seq<IncidentRecord<N, R>>,
    cursor: Option<Seq<char>>,
) -> Seq<IncidentRecord<N, R>> {
    match cursor {
        None => all,
        Some(raw) => match cursor_parts(raw) {
            Some(at) => behind(all, at),
            None => Seq::empty(),
        },
    }
}

/// What a store with these incidents finds for a page: those behind the cursor, but no more than
/// it is asked for.
pub open spec fn found_behind<N, R>(
    all: Seq<IncidentRecord<N, R>>,
    cursor: Option<Seq<char>>,
    limit: nat,
) -> Seq<IncidentRecord<N, R>> {
    let rest = behind_cursor(all, cursor);
    rest.take(shown(rest.len(), limit + 1) as int)
}

/// A page, with the cursor behind it.
pub struct PageModel<N, R> {
    pub shown: Seq<IncidentRecord<N, R>>,
    pub next: Option<Seq<char>>,
}

/// The page behind a cursor.
pub open spec fn page_behind<N, R>(
    all: Seq<IncidentRecord<N, R>>,
    limit: nat,
    cursor: Option<Seq<char>>,
) -> PageModel<N, R> {
    let found = found_behind(all, cursor, limit);
    PageModel {
        shown: found.take(shown(found.len(), limit) as int),
        next: next_cursor(found, limit),
    }
}

/// The pages from a cursor on: each begins at the cursor behind the one before it, and the last
/// has none.
pub open spec fn walk<N, R>(
    all: Seq<IncidentRecord<N, R>>,
    limit: nat,
    cursor: Option<Seq<char>>,
) -> Seq<PageModel<N, R>>
    decreases behind_cursor(all, cursor).len(),
    when limit > 0 && are_distinct(all)
    via walk_ends::<N, R>
{
    let page = page_behind(all, limit, cursor);
    match page.next {
        Some(_) => seq![page] + walk(all, limit, page.next),
        None => seq![page],
    }
}

#[via_fn]
proof fn walk_ends<N, R>(
    all: Seq<IncidentRecord<N, R>>,
    limit: nat,
    cursor: Option<Seq<char>>,
) {
    lemma_page_behind(all, limit, cursor);
}

/// What pages show, one after the other.
pub open spec fn all_shown<N, R>(pages: Seq<PageModel<N, R>>) -> Seq<IncidentRecord<N, R>>
    decreases pages.len(),
{
    if pages.len() == 0 {
        Seq::empty()
    } else {
        pages[0].shown + all_shown(pages.drop_first())
    }
}

proof fn lemma_behind<N, R>(all: Seq<IncidentRecord<N, R>>, at: (i64, Seq<char>))
    ensures
        exists|k: int| 0 <= k <= all.len() && behind(all, at) == #[trigger] all.skip(k),
    decreases all.len(),
{
    if all.len() == 0 {
        assert(all.skip(0) =~= all);
    } else if is_named(all[0], at) {
        assert(all.skip(1) =~= all.drop_first());
    } else {
        let rest = all.drop_first();
        lemma_behind(rest, at);
        let k = choose|k: int| 0 <= k <= rest.len() && behind(rest, at) == #[trigger] rest.skip(k);
        assert(rest.skip(k) =~= all.skip(k + 1));
    }
}

proof fn lemma_behind_one<N, R>(all: Seq<IncidentRecord<N, R>>, j: int)
    requires
        are_distinct(all),
        0 <= j < all.len(),
    ensures
        behind(all, (all[j].updated_at_ms, all[j].id@)) == all.skip(j + 1),
    decreases all.len(),
{
    if j == 0 {
        assert(all.skip(1) =~= all.drop_first());
    } else {
        let rest = all.drop_first();
        assert(!is_named(all[0], (all[j].updated_at_ms, all[j].id@)));
        assert forall|a: int, b: int| 0 <= a < b < rest.len() implies (
        #[trigger] rest[a]).updated_at_ms != (#[trigger] rest[b]).updated_at_ms || rest[a].id@
            != rest[b].id@ by {
            assert(rest[a] == all[a + 1] && rest[b] == all[b + 1]);
        }
        lemma_behind_one(rest, j - 1);
        assert(rest[j - 1] == all[j]);
        assert(rest.skip(j) =~= all.skip(j + 1));
    }
}

/// A page and what lies behind its cursor are what lies behind the cursor that it begins at.
proof fn lemma_page_behind<N, R>(
    all: Seq<IncidentRecord<N, R>>,
    limit: nat,
    cursor: Option<Seq<char>>,
)
    requires
        limit > 0,
        are_distinct(all),
    ensures
        ({
            let rest = behind_cursor(all, cursor);
            let page = page_behind(all, limit, cursor);
            match page.next {
                Some(_) => page.shown.len() == limit && rest == page.shown + behind_cursor(
                    all,
                    page.next,
                ) && behind_cursor(all, page.next).len() < rest.len(),
                None => page.shown == rest && rest.len() <= limit,
            }
        }),
{
    let rest = behind_cursor(all, cursor);
    let found = found_behind(all, cursor, limit);
    let page = page_behind(all, limit, cursor);
    let k = match cursor {
        None => 0,
        Some(raw) => match cursor_parts(raw) {
            Some(at) => {
                lemma_behind(all, at);
                choose|k: int| 0 <= k <= all.len() && behind(all, at) == #[trigger] all.skip(k)
            },
            None => all.len() as int,
        },
    };
    assert(rest =~= all.skip(k));
    if rest.len() > limit {
        let last = found[limit - 1];
        assert(last == all[k + limit - 1]);
        law_cursor_is_read_back(last.updated_at_ms, last.id@);
        lemma_behind_one(all, k + limit - 1);
        assert(page.shown =~= rest.take(limit as int));
        assert(rest =~= page.shown + all.skip(k + limit));
    } else {
        assert(page.shown =~= rest);
    }
}

proof fn lemma_walk<N, R>(
    all: Seq<IncidentRecord<N, R>>,
    limit: nat,
    cursor: Option<Seq<char>>,
)
    requires
        limit > 0,
        are_distinct(all),
    ensures
        ({
            let pages = walk(all, limit, cursor);
            &&& pages.len() > 0
            &&& all_shown(pages) == behind_cursor(all, cursor)
            &&& forall|i: int|
                0 <= i < pages.len() - 1 ==> (#[trigger] pages[i]).next is Some
                    && pages[i].shown.len() == limit
            &&& pages.last().next is None
            &&& pages.last().shown.len() <= limit
        }),
    decreases behind_cursor(all, cursor).len(),
{
    lemma_page_behind(all, limit, cursor);
    let page = page_behind(all, limit, cursor);
    let pages = walk(all, limit, cursor);
    match page.next {
        Some(_) => {
            let more = walk(all, limit, page.next);
            lemma_walk(all, limit, page.next);
            assert(pages =~= seq![page] + more);
            assert(pages.drop_first() =~= more);
            assert(pages.last() == more.last());
            assert forall|i: int| 0 <= i < pages.len() - 1 implies (#[trigger] pages[i]).next
                is Some && pages[i].shown.len() == limit by {
                if i > 0 {
                    assert(pages[i] == more[i - 1]);
                }
            }
        },
        None => {
            assert(pages =~= seq![page]);
            assert(all_shown(pages.drop_first()) =~= Seq::empty());
            assert(all_shown(pages) =~= page.shown);
        },
    }
}

/// Following the cursors from the first page to the last over a store that does not change shows
/// every incident once and in the order of the store. Every page but the last is full and has a
/// cursor behind it, and the last has none.
pub proof fn law_walk_shows_every_incident_once<N, R>(
    all: Seq<IncidentRecord<N, R>>,
    limit: nat,
)
    requires
        1 <= limit <= MAX_LIMIT,
        are_distinct(all),
        newest_first(all),
    ensures
        ({
            let pages = walk(all, limit, None);
            &&& pages.len() > 0
            &&& all_shown(pages) == all
            &&& are_distinct(all_shown(pages))
            &&& newest_first(all_shown(pages))
            &&& forall|i: int|
                0 <= i < pages.len() - 1 ==> (#[trigger] pages[i]).next is Some
                    && pages[i].shown.len() == limit
            &&& pages.last().next is None
            &&& pages.last().shown.len() <= limit
        }),
{
    lemma_walk(all, limit, None);
}

/// The answer to the list of incidents.
pub fn events_reply<N, R>(
    outcome: StoreOutcome<Vec<IncidentRecord<N, R>>>,
    limit: usize,
) -> (r: Reply<EventsResponse<N, R>>)
    ensures
        match outcome {
            StoreOutcome::Busy => r.is_error(Status::ServiceUnavailable, api::STORE_BUSY_MESSAGE@),
            StoreOutcome::Failed => r.is_error(
                Status::InternalServerError,
                "事件详情暂时无法获取"@,
            ),
            StoreOutcome::Loaded(found) => {
                &&& r.status == Status::Succeeded
                &&& r.body.success
                &&& r.body.message@ == "事件详情获取成功"@
                &&& r.body.data matches Some(page) && {
                    &&& page.events@.len() == shown(found@.len(), limit as nat)
                    &&& forall|i: int|
                        0 <= i < page.events@.len() ==> (#[trigger] page.events@[i]).lists(found@[i])
                    &&& text::optional_text(page.next_cursor) == next_cursor(
                        found@,
                        limit as nat,
                    )
                }
            },
        },
{
    match outcome {
        StoreOutcome::Busy => Reply::error(Status::ServiceUnavailable, api::STORE_BUSY_MESSAGE),
        StoreOutcome::Failed => Reply::error(
            Status::InternalServerError,
            "事件详情暂时无法获取",
        ),
        StoreOutcome::Loaded(found) => Reply::success(
            Status::Succeeded,
            "事件详情获取成功",
            Some(events_page(found, limit)),
        ),
    }
}

// ---------------------------------------------------------------------------
// What a list shows
// ---------------------------------------------------------------------------
/// A listed report says in each field what the report says in the field of the same name.
pub proof fn law_listed_report_is_the_report<N>(event: DisasterEvent<N>, r: EventView<N>)
    requires
        call_ensures(EventView::<N>::from_event, (event,), r),
    ensures
        r.category == event.category,
        r.channel == event.channel,
        r.source@ == event.source@,
        r.event_id@ == event.event_id@,
        r.revision@ == event.revision@,
        r.report_num == event.report_num,
        r.title@ == event.title@,
        r.description@ == event.description@,
        r.affected_regions@ == event.affected_regions@,
        r.latitude == event.latitude,
        r.longitude == event.longitude,
        r.magnitude == event.magnitude,
        r.depth_km == event.depth_km,
        r.radius_km == event.radius_km,
        r.level == event.level,
        r.occurred_at@ == event.occurred_at@,
        r.final_report == event.final_report,
        r.cancel == event.cancel,
        r.training == event.training,
{
}

/// A listed incident is the stored one: it has its identifier, times and timeline, and for each
/// source the report that is stored for it, field by field.
pub proof fn law_listed_incident_is_the_incident<N, R>(
    incident: IncidentRecord<N, R>,
    r: IncidentView<N, R>,
    j: int,
)
    requires
        r.lists(incident),
        0 <= j < incident.latest_by_source@.len(),
    ensures
        r.incident_id@ == incident.id@,
        r.category == incident.category,
        r.first_seen_at_ms == incident.first_seen_at_ms,
        r.updated_at_ms == incident.updated_at_ms,
        r.has_matched_subscribers == incident.has_matched_subscribers,
        r.timeline@ == incident.timeline@,
        r.latest@.len() == incident.latest_by_source@.len(),
        ({
            let listed = r.latest@[j];
            let event = incident.latest_by_source@[j];
            &&& listed.category == event.category
            &&& listed.channel == event.channel
            &&& listed.source@ == event.source@
            &&& listed.event_id@ == event.event_id@
            &&& listed.revision@ == event.revision@
            &&& listed.report_num == event.report_num
            &&& listed.title@ == event.title@
            &&& listed.description@ == event.description@
            &&& listed.affected_regions@ == event.affected_regions@
            &&& listed.latitude == event.latitude
            &&& listed.longitude == event.longitude
            &&& listed.magnitude == event.magnitude
            &&& listed.depth_km == event.depth_km
            &&& listed.radius_km == event.radius_km
            &&& listed.level == event.level
            &&& listed.occurred_at@ == event.occurred_at@
            &&& listed.final_report == event.final_report
            &&& listed.cancel == event.cancel
            &&& listed.training == event.training
        }),
{
}

/// An incident without reports is listed without reports, and otherwise as it is stored.
pub proof fn law_incident_without_reports<N, R>(
    incident: IncidentRecord<N, R>,
    r: IncidentView<N, R>,
)
    requires
        call_ensures(IncidentView::<N, R>::from_incident, (incident,), r),
    ensures
        r.latest@.len() == incident.latest_by_source@.len(),
        r.incident_id@ == incident.id@,
        r.category == incident.category,
        r.first_seen_at_ms == incident.first_seen_at_ms,
        r.updated_at_ms == incident.updated_at_ms,
        r.has_matched_subscribers == incident.has_matched_subscribers,
        r.timeline@ == incident.timeline@,
{
}

/// A page shows the incidents that were found in their order, from the first one on, and as many
/// of them as there are up to the limit. It shows of each what is stored.
pub proof fn law_page_shows_what_was_found<N, R>(
    found: Vec<IncidentRecord<N, R>>,
    limit: usize,
    r: EventsResponse<N, R>,
    i: int,
    j: int,
)
    requires
        call_ensures(events_page::<N, R>, (found, limit), r),
        0 <= i < r.events@.len(),
        0 <= j < found@[i].latest_by_source@.len(),
    ensures
        r.events@.len() <= limit,
        r.events@.len() <= found@.len(),
        r.events@.len() == limit || r.events@.len() == found@.len(),
        r.events@[i].incident_id@ == found@[i].id@,
        r.events@[i].category == found@[i].category,
        r.events@[i].updated_at_ms == found@[i].updated_at_ms,
        r.events@[i].first_seen_at_ms == found@[i].first_seen_at_ms,
        r.events@[i].latest@.len() == found@[i].latest_by_source@.len(),
        r.events@[i].latest@[j].source@ == found@[i].latest_by_source@[j].source@,
        r.events@[i].latest@[j].latitude == found@[i].latest_by_source@[j].latitude,
        r.events@[i].latest@[j].longitude == found@[i].latest_by_source@[j].longitude,
        r.events@[i].latest@[j].magnitude == found@[i].latest_by_source@[j].magnitude,
        r.events@[i].latest@[j].depth_km == found@[i].latest_by_source@[j].depth_km,
        r.events@[i].latest@[j].level == found@[i].latest_by_source@[j].level,
{
    law_listed_incident_is_the_incident(found@[i], r.events@[i], j);
}

/// There is a cursor behind a page exactly where more was found than the page shows, and it names
/// the last incident that the page shows.
pub proof fn law_cursor_names_the_last_shown<N, R>(
    found: Vec<IncidentRecord<N, R>>,
    limit: usize,
    r: EventsResponse<N, R>,
)
    requires
        call_ensures(events_page::<N, R>, (found, limit), r),
        limit > 0,
    ensures
        r.next_cursor is Some <==> found@.len() > r.events@.len(),
        r.next_cursor matches Some(cursor) ==> {
            let last = r.events@.last();
            &&& r.events@.len() == limit
            &&& cursor_parts(cursor@) == Some((last.updated_at_ms, last.incident_id@))
        },
{
    if found@.len() > limit {
        let last = found@[limit - 1];
        law_cursor_is_read_back(last.updated_at_ms, last.id@);
        assert(r.events@[limit - 1].lists(found@[limit - 1]));
    }
}

/// A list that the store could give is answered with the page of it, and with a page only then.
pub proof fn law_list_is_answered_with_its_page<N, R>(
    outcome: StoreOutcome<Vec<IncidentRecord<N, R>>>,
    limit: usize,
    r: Reply<EventsResponse<N, R>>,
)
    requires
        call_ensures(events_reply::<N, R>, (outcome, limit), r),
    ensures
        r.body.success <==> outcome is Loaded,
        r.body.data is Some <==> outcome is Loaded,
        r.status == Status::Succeeded <==> outcome is Loaded,
        outcome is Busy ==> r.status == Status::ServiceUnavailable,
        outcome is Failed ==> r.status == Status::InternalServerError,
        outcome matches StoreOutcome::Loaded(found) ==> {
            let page = r.body.data->0;
            &&& page.events@.len() <= limit
            &&& page.events@.len() == limit || page.events@.len() == found@.len()
            &&& limit > 0 ==> (page.next_cursor is Some <==> found@.len() > page.events@.len())
            &&& forall|i: int|
                0 <= i < page.events@.len() ==> {
                    &&& (#[trigger] page.events@[i]).incident_id@ == found@[i].id@
                    &&& page.events@[i].updated_at_ms == found@[i].updated_at_ms
                    &&& page.events@[i].first_seen_at_ms == found@[i].first_seen_at_ms
                    &&& page.events@[i].category == found@[i].category
                    &&& page.events@[i].has_matched_subscribers
                        == found@[i].has_matched_subscribers
                    &&& page.events@[i].timeline@ == found@[i].timeline@
                }
        },
{
}

/// The next page begins where a page ended: the cursor behind it is read as the time and the
/// identifier of the last incident on it.
pub proof fn law_cursor_leads_back<F: Fn(&str) -> Option<String>>(
    updated_at_ms: i64,
    incident_id: &str,
    cursor: String,
    raw: &str,
    parse_id: F,
    r: Option<(i64, String)>,
)
    requires
        call_ensures(encode_cursor, (updated_at_ms, incident_id), cursor),
        raw@ == cursor@,
        call_ensures(decode_cursor::<F>, (raw, parse_id), r),
    ensures
        r matches Some((time, id)) ==> time == updated_at_ms && exists|given: &str|
            given@ == incident_id@ && #[trigger] parse_id.ensures((given,), Some(id)),
        r is None ==> exists|given: &str|
            given@ == incident_id@ && #[trigger] parse_id.ensures((given,), None),
{
    law_cursor_is_read_back(updated_at_ms, incident_id@);
    lemma_read_identifier(raw@, parse_id, r, updated_at_ms, incident_id@);
}

/// A cursor is read by reading its identifier.
proof fn lemma_read_identifier<F: Fn(&str) -> Option<String>>(
    raw: Seq<char>,
    parse_id: F,
    r: Option<(i64, String)>,
    updated_at_ms: i64,
    incident_id: Seq<char>,
)
    requires
        cursor_parts(raw) == Some((updated_at_ms, incident_id)),
        decodes_to(raw, parse_id, r),
    ensures
        r matches Some((time, id)) ==> time == updated_at_ms && exists|given: &str|
            given@ == incident_id && #[trigger] parse_id.ensures((given,), Some(id)),
        r is None ==> exists|given: &str|
            given@ == incident_id && #[trigger] parse_id.ensures((given,), None),
{
    let (given, parsed) = choose|given: &str, parsed: Option<String>|
        {
            &&& given@ == incident_id
            &&& #[trigger] parse_id.ensures((given,), parsed)
            &&& r == (match parsed {
                Some(id) => Some((updated_at_ms, id)),
                None => None,
            })
        };
    match parsed {
        Some(id) => {
            assert(r == Some((updated_at_ms, id)));
            assert(given@ == incident_id);
            assert(parse_id.ensures((given,), Some(id)));
            let read: String = (r->0).1;
            assert(parse_id.ensures((given,), Some(read)));
        },
        None => {
            assert(parse_id.ensures((given,), None));
        },
    }
}

/// Cursors of incidents that differ in their time or identifier differ.
pub proof fn law_cursors_differ(a_ms: i64, a_id: &str, a: String, b_ms: i64, b_id: &str, b: String)
    requires
        call_ensures(encode_cursor, (a_ms, a_id), a),
        call_ensures(encode_cursor, (b_ms, b_id), b),
        a_ms != b_ms || a_id@ != b_id@,
    ensures
        a@ != b@,
{
    law_cursor_is_read_back(a_ms, a_id@);
    law_cursor_is_read_back(b_ms, b_id@);
}

/// A page holds as many entries as are asked for, from one to two hundred, and fifty where nobody
/// asks; every other number is refused.
pub proof fn law_limit_is_what_was_asked(limit: Option<u16>, r: Result<usize, Refusal>)
    requires
        call_ensures(parse_limit, (limit,), r),
    ensures
        limit is None ==> (r matches Ok(n) && n == 50),
        limit matches Some(asked) ==> (r is Ok <==> 1 <= asked <= 200),
        limit matches Some(asked) ==> (r matches Ok(n) ==> n == asked),
        r matches Err(refusal) ==> refusal.0 == Status::BadRequest,
{
}

/// A query that asks for an allowed number of incidents behind no cursor is accepted with that
/// number. One with another number is refused, whatever else it asks.
pub proof fn law_query_without_a_cursor<F: Fn(&str) -> Option<String>>(
    query: EventQuery,
    parse_id: F,
    r: Result<(usize, Option<(i64, String)>), Refusal>,
)
    requires
        call_ensures(parse_event_query::<F>, (Some(query), parse_id), r),
    ensures
        query.limit matches Some(n) ==> (n == 0 || n > 200 ==> r is Err),
        query.limit matches Some(n) ==> (r matches Ok((limit, _)) ==> limit == n),
        query.limit is None ==> (r matches Ok((limit, _)) ==> limit == 50),
        (query.cursor is None || query.cursor->0@.len() == 0) && (query.limit is None || 1
            <= query.limit->0 <= 200) ==> r matches Ok((_, None)),
        query.cursor is Some && query.cursor->0@.len() > 0 ==> !(r matches Ok((_, None))),
        r matches Err(refusal) ==> refusal.0 == Status::BadRequest,
{
}

/// The incident behind which a page begins is the one that the cursor of the query names.
pub proof fn law_query_begins_behind_its_cursor<F: Fn(&str) -> Option<String>>(
    query: EventQuery,
    parse_id: F,
    updated_at_ms: i64,
    incident_id: Seq<char>,
    r: Result<(usize, Option<(i64, String)>), Refusal>,
)
    requires
        call_ensures(parse_event_query::<F>, (Some(query), parse_id), r),
        query.cursor is Some,
        query.cursor->0@ == cursor_text(updated_at_ms, incident_id),
    ensures
        r matches Ok((_, Some((time, id)))) ==> time == updated_at_ms && exists|given: &str|
            given@ == incident_id && #[trigger] parse_id.ensures((given,), Some(id)),
{
    reveal_strlit("_");
    assert(query.cursor->0@.len() > 0);
    law_cursor_is_read_back(updated_at_ms, incident_id);
    if let Ok((_, Some(read))) = r {
        lemma_read_identifier(query.cursor->0@, parse_id, Some(read), updated_at_ms, incident_id);
    }
}

/// The store is asked for one incident more than a page shows, so that a page that is full and a
/// store that gave all it was asked for mean that there are more.
pub proof fn law_one_more_is_asked_for<N, R>(
    limit: usize,
    asked: usize,
    found: Vec<IncidentRecord<N, R>>,
    r: EventsResponse<N, R>,
)
    requires
        limit > 0,
        call_ensures(incidents_to_ask_for, (limit,), asked),
        found@.len() <= asked,
        call_ensures(events_page::<N, R>, (found, limit), r),
    ensures
        asked == limit + 1,
        r.next_cursor is Some <==> found@.len() == asked,
{
}

/// What is said of each outcome.
pub proof fn law_words_about_events<N, R>(
    outcome: StoreOutcome<Vec<IncidentRecord<N, R>>>,
    limit: usize,
    r: Reply<EventsResponse<N, R>>,
)
    requires
        call_ensures(events_reply::<N, R>, (outcome, limit), r),
    ensures
        outcome is Busy ==> r.body.message@ == "订阅存储繁忙，请稍后重试"@,
        outcome is Failed ==> r.body.message@ == "事件详情暂时无法获取"@,
        outcome is Loaded ==> r.body.message@ == "事件详情获取成功"@,
{
}

/// A query that cannot be read, a limit that is not allowed and a cursor that is none are refused in
/// words of their own.
pub proof fn law_words_about_queries<F: Fn(&str) -> Option<String>>(
    query: Option<EventQuery>,
    parse_id: F,
    r: Result<(usize, Option<(i64, String)>), Refusal>,
)
    requires
        call_ensures(parse_event_query::<F>, (query, parse_id), r),
        r is Err,
    ensures
        r->Err_0.0 == Status::BadRequest,
        query is None ==> r->Err_0.1@ == "查询参数无效"@,
        query matches Some(q) ==> (q.limit matches Some(n) ==> (n == 0 || n > 200
            ==> r->Err_0.1@ == "limit 必须是 1 到 200 的整数"@)),
        query matches Some(q) ==> (q.limit is None || 1 <= q.limit->0 <= 200 ==> r->Err_0.1@
            == "cursor 无效"@),
{
}

} // verus!
