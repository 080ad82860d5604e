//! Test alerts: a simulated earthquake near a subscriber, or one out of a catalogue of past ones.
use crate::device_key;
use crate::models::{
    self, AlertRule, DisasterCategory, DisasterEvent, InterruptionLevel, IntensityBand,
    MonitoringTarget, ProviderChannel, SourceSelection, Subscription,
};
use crate::source_registry;
use crate::text;
use crate::timestamp::UtcTimestamp;
use vstd::prelude::*;

verus! {

pub const HISTORY_SOURCE_MAJOR: &'static str = "major";

/// The most devices that one test alert goes to.
pub const MAX_DEVICE_LIST: usize = 32;

/// The source that stands in where a rule names none that fits.
pub const FALLBACK_SOURCE: &'static str = "wolfx.cenc_eew";

// ---------------------------------------------------------------------------
// What is asked for
// ---------------------------------------------------------------------------
/// What a test alert shows.
#[derive(Debug)]
pub enum SimulateMode {
    NotifyLevel(InterruptionLevel),
    History { source: String, key: String },
}

/// What a test alert shows, as texts.
pub enum ModeModel {
    NotifyLevel(InterruptionLevel),
    History { source: Seq<char>, key: Seq<char> },
}

impl View for SimulateMode {
    type V = ModeModel;

    open spec fn view(&self) -> ModeModel {
        match *self {
            SimulateMode::NotifyLevel(level) => ModeModel::NotifyLevel(level),
            SimulateMode::History { source, key } => ModeModel::History {
                source: source@,
                key: key@,
            },
        }
    }
}

/// The interruption that a text names, in any case and with white space around it.
pub open spec fn named_level(value: Seq<char>) -> Option<InterruptionLevel> {
    let v = text::ascii_lower(text::trimmed(value));
    if v == "passive"@ {
        Some(InterruptionLevel::Passive)
    } else if v == "active"@ {
        Some(InterruptionLevel::Active)
    } else if v == "critical"@ {
        Some(InterruptionLevel::Critical)
    } else {
        None
    }
}

pub fn parse_notify_level(value: &str) -> (r: Option<InterruptionLevel>)
    ensures
        r == named_level(value@),
{
    let lower = text::to_ascii_lowercase(text::trim(value));
    if text::same(lower.as_str(), "passive") {
        Some(InterruptionLevel::Passive)
    } else if text::same(lower.as_str(), "active") {
        Some(InterruptionLevel::Active)
    } else if text::same(lower.as_str(), "critical") {
        Some(InterruptionLevel::Critical)
    } else {
        None
    }
}

/// Each interruption is read back from its name.
pub proof fn law_level_is_read_back(level: InterruptionLevel)
    ensures
        named_level(level.name()@) == Some(level),
{
    reveal_strlit("passive");
    reveal_strlit("active");
    reveal_strlit("critical");
    let name = level.name()@;
    text::lemma_trimmed_fixed(name);
    assert(text::ascii_lower(name) =~= name);
    assert("passive"@.len() == 7 && "active"@.len() == 6 && "critical"@.len() == 8);
}

// ---------------------------------------------------------------------------
// The devices
// ---------------------------------------------------------------------------
/// Why a list of devices is refused.
#[derive(Debug, Clone, Copy, PartialEq, Eq, Structural)]
pub enum DeviceListError {
    Missing,
    Empty,
    TooMany,
    InvalidKey,
}

/// The trimmed texts of a list.
pub open spec fn trimmed_texts(list: Seq<String>) -> Seq<Seq<char>> {
    list.map_values(|s: String| text::trimmed(s@))
}

/// The texts of a list without those that came before, in their order.
pub open spec fn distinct(list: Seq<Seq<char>>) -> Seq<Seq<char>>
    decreases list.len(),
{
    if list.len() == 0 {
        Seq::empty()
    } else {
        let before = distinct(list.drop_last());
        if before.contains(list.last()) {
            before
        } else {
            before.push(list.last())
        }
    }
}

/// Whether every text of a list is a device key.
pub open spec fn all_device_keys(list: Seq<Seq<char>>) -> bool {
    forall|i: int| 0 <= i < list.len() ==> device_key::is_device_key(#[trigger] list[i])
}

/// What is wrong with a list of devices.
pub open spec fn device_list_fault(list: Seq<String>) -> Option<DeviceListError> {
    if list.len() == 0 {
        Some(DeviceListError::Empty)
    } else if list.len() > MAX_DEVICE_LIST {
        Some(DeviceListError::TooMany)
    } else if !all_device_keys(trimmed_texts(list)) {
        Some(DeviceListError::InvalidKey)
    } else {
        None
    }
}

/// The devices of a list, each once.
fn resolve_listed(list: Vec<String>) -> (r: Result<Vec<String>, DeviceListError>)
    ensures
        match r {
            Ok(keys) => device_list_fault(list@) is None && text::texts(keys@) == distinct(
                trimmed_texts(list@),
            ),
            Err(error) => device_list_fault(list@) == Some(error),
        },
{
    if list.len() == 0 {
        return Err(DeviceListError::Empty);
    }
    if list.len() > MAX_DEVICE_LIST {
        return Err(DeviceListError::TooMany);
    }
    let ghost all = trimmed_texts(list@);
    let mut resolved: Vec<String> = Vec::new();
    let mut i: usize = 0;
    assert(text::texts(resolved@) =~= distinct(all.take(0)));
    while i < list.len()
        invariant
            0 < list@.len() <= MAX_DEVICE_LIST,
            i <= list@.len(),
            all == trimmed_texts(list@),
            text::texts(resolved@) == distinct(all.take(i as int)),
            forall|k: int| 0 <= k < i ==> device_key::is_device_key(#[trigger] all[k]),
        decreases list@.len() - i,
    {
        let trimmed = text::trim(list[i].as_str());
        assert(all[i as int] == trimmed@);
        proof {
            device_key::lemma_device_key_fault(trimmed@);
            assert(all.take(i + 1).drop_last() =~= all.take(i as int));
            assert(all.take(i + 1).last() == trimmed@);
        }
        if trimmed.is_empty() || trimmed.as_bytes().len() > device_key::MAX_DEVICE_KEY_CHARS
            || !text::is_all_alphanumeric(trimmed) {
            assert(!device_key::is_device_key(all[i as int]));
            return Err(DeviceListError::InvalidKey);
        }
        if !text::contains_text(&resolved, trimmed) {
            let ghost before = resolved@;
            resolved.push(trimmed.to_owned());
            assert(text::texts(resolved@) =~= text::texts(before).push(trimmed@));
        }
        i += 1;
    }
    assert(all.take(i as int) =~= all);
    Ok(resolved)
}

/// The devices that a test alert goes to: those that are listed, each once, and without a list
/// the one that asks.
pub fn resolve_device_keys(bearer_key: &str, device_id_list: Option<Vec<String>>) -> (r: Result<
    Vec<String>,
    DeviceListError,
>)
    ensures
        match device_id_list {
            None => r matches Ok(keys) && text::texts(keys@) == seq![bearer_key@],
            Some(list) => match r {
                Ok(keys) => device_list_fault(list@) is None && text::texts(keys@) == distinct(
                    trimmed_texts(list@),
                ),
                Err(error) => device_list_fault(list@) == Some(error),
            },
        },
{
    match device_id_list {
        None => {
            let keys = vec![bearer_key.to_owned()];
            assert(text::texts(keys@) =~= seq![bearer_key@]);
            Ok(keys)
        },
        Some(list) => resolve_listed(list),
    }
}

/// The devices that a test alert goes to, which have to be listed.
pub fn require_device_keys(device_id_list: Option<Vec<String>>) -> (r: Result<
    Vec<String>,
    DeviceListError,
>)
    ensures
        match device_id_list {
            None => r == Err::<Vec<String>, DeviceListError>(DeviceListError::Missing),
            Some(list) => match r {
                Ok(keys) => device_list_fault(list@) is None && text::texts(keys@) == distinct(
                    trimmed_texts(list@),
                ),
                Err(error) => device_list_fault(list@) == Some(error),
            },
        },
{
    match device_id_list {
        None => Err(DeviceListError::Missing),
        Some(list) => resolve_listed(list),
    }
}

proof fn lemma_distinct(list: Seq<Seq<char>>)
    ensures
        distinct(list).no_duplicates(),
        distinct(list).len() <= list.len(),
        list.len() > 0 ==> distinct(list).len() > 0,
        forall|x: Seq<char>| distinct(list).contains(x) <==> list.contains(x),
    decreases list.len(),
{
    if list.len() > 0 {
        let rest = list.drop_last();
        let last = list.last();
        let before = distinct(rest);
        lemma_distinct(rest);
        assert forall|x: Seq<char>| distinct(list).contains(x) <==> list.contains(x) by {
            if list.contains(x) {
                let k = choose|k: int| 0 <= k < list.len() && list[k] == x;
                if k < rest.len() {
                    assert(rest[k] == x);
                    assert(rest.contains(x));
                    assert(before.contains(x));
                    let j = choose|j: int| 0 <= j < before.len() && before[j] == x;
                    assert(distinct(list)[j] == x);
                } else if !before.contains(last) {
                    assert(distinct(list)[before.len() as int] == x);
                }
            }
            if distinct(list).contains(x) {
                let j = choose|j: int| 0 <= j < distinct(list).len() && distinct(list)[j] == x;
                if j < before.len() {
                    assert(before[j] == x);
                    assert(before.contains(x));
                    assert(rest.contains(x));
                    let k = choose|k: int| 0 <= k < rest.len() && rest[k] == x;
                    assert(list[k] == x);
                } else {
                    assert(list[list.len() - 1] == x);
                }
            }
        }
    }
}

/// A test alert goes to one to thirty-two devices, to each once, and to those that were listed
/// and no others.
pub proof fn law_listed_devices(list: Seq<String>)
    requires
        device_list_fault(list) is None,
    ensures
        1 <= distinct(trimmed_texts(list)).len() <= MAX_DEVICE_LIST,
        distinct(trimmed_texts(list)).no_duplicates(),
        all_device_keys(distinct(trimmed_texts(list))),
        forall|key: Seq<char>|
            distinct(trimmed_texts(list)).contains(key) <==> trimmed_texts(list).contains(key),
{
    let all = trimmed_texts(list);
    lemma_distinct(all);
    assert forall|i: int| 0 <= i < distinct(all).len() implies device_key::is_device_key(
        #[trigger] distinct(all)[i],
    ) by {
        assert(distinct(all).contains(distinct(all)[i]));
        assert(all.contains(distinct(all)[i]));
    }
}

// ---------------------------------------------------------------------------
// The catalogue
// ---------------------------------------------------------------------------
/// An earthquake of the past.
#[derive(Debug, Clone, Copy)]
pub struct HistoryRecord<N> {
    pub source: &'static str,
    pub key: &'static str,
    pub event_id: &'static str,
    pub origin_time: &'static str,
    pub hypocenter: &'static str,
    pub latitude: N,
    pub longitude: N,
    pub magnitude: N,
    pub depth_km: N,
    pub max_intensity: &'static str,
    pub note: &'static str,
}

/// The catalogue of major earthquakes. Its numbers are in thousandths.
pub open spec fn major_records() -> Seq<HistoryRecord<i64>> {
    seq![
        HistoryRecord {
            source: HISTORY_SOURCE_MAJOR,
            key: "yibin-gaoxian-2026",
            event_id: "CENC-202606290012",
            origin_time: "2026-06-29 00:12:00",
            hypocenter: "四川宜宾市高县地震",
            latitude: 28500,
            longitude: 104690,
            magnitude: 5500,
            depth_km: 6000,
            max_intensity: "未知",
            note: "2026年6月29日四川宜宾市高县5.5级地震；中国地震台网正式测定，震源深度6公里。",
        },
        HistoryRecord {
            source: HISTORY_SOURCE_MAJOR,
            key: "wenchuan-2008",
            event_id: "USGS-usp000g650",
            origin_time: "2008-05-12 14:28:01",
            hypocenter: "四川汶川地震",
            latitude: 31002,
            longitude: 103322,
            magnitude: 7900,
            depth_km: 19000,
            max_intensity: "XI",
            note: "2008年汶川地震，USGS Mw7.9；中国地震局常用表述为 Ms8.0。",
        },
        HistoryRecord {
            source: HISTORY_SOURCE_MAJOR,
            key: "tangshan-1976",
            event_id: "USGS-Tangshan-1976",
            origin_time: "1976-07-28 03:42:00",
            hypocenter: "河北唐山地震",
            latitude: 39570,
            longitude: 117980,
            magnitude: 7800,
            depth_km: 15000,
            max_intensity: "XI",
            note: "1976年唐山地震，USGS 资料记录震级7.8、深度15km、震中烈度XI。",
        },
    ]
}

pub fn builtin_major_records() -> (r: Vec<HistoryRecord<i64>>)
    ensures
        r@ == major_records(),
{
    vec![
        HistoryRecord {
            source: HISTORY_SOURCE_MAJOR,
            key: "yibin-gaoxian-2026",
            event_id: "CENC-202606290012",
            origin_time: "2026-06-29 00:12:00",
            hypocenter: "四川宜宾市高县地震",
            latitude: 28500,
            longitude: 104690,
            magnitude: 5500,
            depth_km: 6000,
            max_intensity: "未知",
            note: "2026年6月29日四川宜宾市高县5.5级地震；中国地震台网正式测定，震源深度6公里。",
        },
        HistoryRecord {
            source: HISTORY_SOURCE_MAJOR,
            key: "wenchuan-2008",
            event_id: "USGS-usp000g650",
            origin_time: "2008-05-12 14:28:01",
            hypocenter: "四川汶川地震",
            latitude: 31002,
            longitude: 103322,
            magnitude: 7900,
            depth_km: 19000,
            max_intensity: "XI",
            note: "2008年汶川地震，USGS Mw7.9；中国地震局常用表述为 Ms8.0。",
        },
        HistoryRecord {
            source: HISTORY_SOURCE_MAJOR,
            key: "tangshan-1976",
            event_id: "USGS-Tangshan-1976",
            origin_time: "1976-07-28 03:42:00",
            hypocenter: "河北唐山地震",
            latitude: 39570,
            longitude: 117980,
            magnitude: 7800,
            depth_km: 15000,
            max_intensity: "XI",
            note: "1976年唐山地震，USGS 资料记录震级7.8、深度15km、震中烈度XI。",
        },
    ]
}

/// The first record of a source, in any case, with a key.
pub open spec fn record_with<N>(
    records: Seq<HistoryRecord<N>>,
    source: Seq<char>,
    key: Seq<char>,
) -> Option<HistoryRecord<N>>
    decreases records.len(),
{
    if records.len() == 0 {
        None
    } else if text::ascii_lower(records[0].source@) == text::ascii_lower(source)
        && records[0].key@ == key {
        Some(records[0])
    } else {
        record_with(records.drop_first(), source, key)
    }
}

pub fn find_history_record<'a, N>(
    records: &'a Vec<HistoryRecord<N>>,
    source: &str,
    key: &str,
) -> (r: Option<&'a HistoryRecord<N>>)
    ensures
        match r {
            Some(record) => record_with(records@, source@, key@) == Some(*record),
            None => record_with(records@, source@, key@) is None,
        },
{
    let mut i: usize = 0;
    assert(records@.skip(0) =~= records@);
    while i < records.len()
        invariant
            i <= records@.len(),
            record_with(records@, source@, key@) == record_with(
                records@.skip(i as int),
                source@,
                key@,
            ),
        decreases records@.len() - i,
    {
        proof {
            assert(records@.skip(i as int)[0] == records@[i as int]);
            assert(records@.skip(i as int).drop_first() =~= records@.skip(i + 1));
        }
        if text::eq_ignore_ascii_case(records[i].source, source) && text::same(
            records[i].key,
            key,
        ) {
            return Some(&records[i]);
        }
        i += 1;
    }
    None
}

/// What an earthquake of the past would mean at a place, rounded for display.
#[derive(Debug, Clone, Copy)]
pub struct HistoryPreview<N> {
    pub distance_km: N,
    pub hypocentral_km: N,
    pub estimated_intensity: N,
}

/// An earthquake of the past, as it is shown.
#[derive(Debug)]
pub struct HistoryRecordView<N> {
    pub source: String,
    pub key: String,
    pub event_id: String,
    pub origin_time: String,
    pub hypocenter: String,
    pub latitude: N,
    pub longitude: N,
    pub magnitude: N,
    pub depth_km: N,
    pub max_intensity: String,
    pub note: String,
    pub estimated_intensity: Option<N>,
    pub distance_km: Option<N>,
    pub hypocentral_km: Option<N>,
}

impl<N> HistoryRecordView<N> {
    /// Whether this shows a record, and what it would mean at a place where that is known.
    pub open spec fn shows(
        self,
        record: HistoryRecord<N>,
        preview: Option<HistoryPreview<N>>,
    ) -> bool {
        &&& self.source@ == record.source@
        &&& self.key@ == record.key@
        &&& self.event_id@ == record.event_id@
        &&& self.origin_time@ == record.origin_time@
        &&& self.hypocenter@ == record.hypocenter@
        &&& self.latitude == record.latitude
        &&& self.longitude == record.longitude
        &&& self.magnitude == record.magnitude
        &&& self.depth_km == record.depth_km
        &&& self.max_intensity@ == record.max_intensity@
        &&& self.note@ == record.note@
        &&& match preview {
            Some(p) => self.estimated_intensity == Some(p.estimated_intensity) && self.distance_km
                == Some(p.distance_km) && self.hypocentral_km == Some(p.hypocentral_km),
            None => self.estimated_intensity is None && self.distance_km is None
                && self.hypocentral_km is None,
        }
    }
}

/// What is shown of what an earthquake of the past would mean for a subscription: nothing without
/// a subscription, and nothing for one without a place.
pub open spec fn shown_preview<N>(
    subscription: Option<&Subscription<N>>,
    measured: Option<HistoryPreview<N>>,
) -> Option<HistoryPreview<N>> {
    match subscription {
        Some(subscription) => if subscription.targets@.len() > 0 {
            measured
        } else {
            None
        },
        None => None,
    }
}

/// The records as they are shown, each with what it would mean for a subscription. `measured`
/// holds what was measured for each record, `None` where it could not be.
pub fn history_views<N: Copy>(
    records: &Vec<HistoryRecord<N>>,
    subscription: Option<&Subscription<N>>,
    measured: &Vec<Option<HistoryPreview<N>>>,
) -> (r: Vec<HistoryRecordView<N>>)
    requires
        measured@.len() == records@.len(),
    ensures
        r@.len() == records@.len(),
        forall|i: int|
            0 <= i < r@.len() ==> (#[trigger] r@[i]).shows(
                records@[i],
                shown_preview(subscription, measured@[i]),
            ),
{
    let has_place = match subscription {
        Some(subscription) => subscription.targets.len() > 0,
        None => false,
    };
    let mut r: Vec<HistoryRecordView<N>> = Vec::new();
    let mut i: usize = 0;
    while i < records.len()
        invariant
            has_place == (subscription is Some && subscription->0.targets@.len() > 0),
            measured@.len() == records@.len(),
            i <= records@.len(),
            r@.len() == i,
            forall|k: int|
                0 <= k < i ==> (#[trigger] r@[k]).shows(
                    records@[k],
                    shown_preview(subscription, measured@[k]),
                ),
        decreases records@.len() - i,
    {
        let record = &records[i];
        let (estimated_intensity, distance_km, hypocentral_km) = match measured[i] {
            Some(p) if has_place => (
                Some(p.estimated_intensity),
                Some(p.distance_km),
                Some(p.hypocentral_km),
            ),
            _ => (None, None, None),
        };
        r.push(
            HistoryRecordView {
                source: record.source.to_owned(),
                key: record.key.to_owned(),
                event_id: record.event_id.to_owned(),
                origin_time: record.origin_time.to_owned(),
                hypocenter: record.hypocenter.to_owned(),
                latitude: record.latitude,
                longitude: record.longitude,
                magnitude: record.magnitude,
                depth_km: record.depth_km,
                max_intensity: record.max_intensity.to_owned(),
                note: record.note.to_owned(),
                estimated_intensity,
                distance_km,
                hypocentral_km,
            },
        );
        i += 1;
    }
    r
}

// ---------------------------------------------------------------------------
// The events
// ---------------------------------------------------------------------------
/// The first identifier of a list that belongs to a source.
pub open spec fn first_known(ids: Seq<String>) -> Option<source_registry::SourceDefinition>
    decreases ids.len(),
{
    if ids.len() == 0 {
        None
    } else {
        match source_registry::source_with_id(ids[0]@) {
            Some(source) => Some(source),
            None => first_known(ids.drop_first()),
        }
    }
}

/// The source that a rule prefers: the first for its kind of disaster, or the first that it
/// lists, if that reports its kind of disaster.
pub open spec fn preferred_source<N>(rule: AlertRule<N>) -> Option<
    source_registry::SourceDefinition,
> {
    match rule.selection() {
        SourceSelection::All => source_registry::source_for(rule.about()),
        SourceSelection::Include { ids } => match first_known(ids@) {
            Some(source) => if source.category == rule.about() {
                Some(source)
            } else {
                None
            },
            None => None,
        },
    }
}

/// The channel and the source under which a test alert for a rule is sent.
pub open spec fn test_source<N>(rule: AlertRule<N>) -> (ProviderChannel, Seq<char>) {
    match preferred_source(rule) {
        Some(source) => (source.channel, source.id@),
        None => fallback_source(),
    }
}

/// The channel and the source that stand in.
pub open spec fn fallback_source() -> (ProviderChannel, Seq<char>) {
    match source_registry::source_with_id(FALLBACK_SOURCE@) {
        Some(source) => (source.channel, source.id@),
        None => (ProviderChannel::Wolfx, FALLBACK_SOURCE@),
    }
}

fn find_first_known(ids: &Vec<String>) -> (r: Option<source_registry::SourceDefinition>)
    ensures
        r == first_known(ids@),
{
    let mut i: usize = 0;
    assert(ids@.skip(0) =~= ids@);
    while i < ids.len()
        invariant
            i <= ids@.len(),
            first_known(ids@) == first_known(ids@.skip(i as int)),
        decreases ids@.len() - i,
    {
        proof {
            assert(ids@.skip(i as int)[0] == ids@[i as int]);
            assert(ids@.skip(i as int).drop_first() =~= ids@.skip(i + 1));
        }
        if let Some(source) = source_registry::find(ids[i].as_str()) {
            return Some(source);
        }
        i += 1;
    }
    None
}

/// The channel and the source that stand in.
fn fallback() -> (r: (ProviderChannel, String))
    ensures
        (r.0, r.1@) == fallback_source(),
{
    match source_registry::find(FALLBACK_SOURCE) {
        Some(source) => (source.channel, source.id.to_owned()),
        None => (ProviderChannel::Wolfx, FALLBACK_SOURCE.to_owned()),
    }
}

/// The channel and the source under which a test alert for a rule is sent.
pub fn event_source<N>(rule: &AlertRule<N>) -> (r: (ProviderChannel, String))
    ensures
        (r.0, r.1@) == test_source(*rule),
{
    let preferred = match rule.sources() {
        SourceSelection::All => source_registry::find_for_category(rule.category()),
        SourceSelection::Include { ids } => match find_first_known(ids) {
            Some(source) => if source.category == rule.category() {
                Some(source)
            } else {
                None
            },
            None => None,
        },
    };
    match preferred {
        Some(source) => (source.channel, source.id.to_owned()),
        None => fallback(),
    }
}

proof fn lemma_known_source_is_listed(ids: Seq<String>)
    ensures
        first_known(ids) matches Some(source) ==> source_registry::source_list().contains(source),
    decreases ids.len(),
{
    if ids.len() > 0 {
        source_registry::law_found_source_has_the_id(ids[0]@);
        lemma_known_source_is_listed(ids.drop_first());
    }
}

/// A test alert for a rule on warnings comes from a registered source of warnings.
pub proof fn law_test_source_reports_warnings<N>(rule: AlertRule<N>)
    requires
        rule.about() == DisasterCategory::EarthquakeWarning,
    ensures
        source_registry::source_with_id(test_source(rule).1) matches Some(source) && source.category
            == DisasterCategory::EarthquakeWarning && source.channel == test_source(rule).0,
{
    let list = source_registry::source_list();
    source_registry::law_sources_are_found(2);
    assert(list[2].id == FALLBACK_SOURCE);
    match preferred_source(rule) {
        Some(source) => {
            match rule.selection() {
                SourceSelection::All => {
                    source_registry::lemma_first_source(
                        list,
                        source_registry::reports(rule.about()),
                    );
                },
                SourceSelection::Include { ids } => {
                    lemma_known_source_is_listed(ids@);
                },
            }
            let i = choose|i: int| 0 <= i < list.len() && list[i] == source;
            source_registry::law_sources_are_found(i);
        },
        None => {},
    }
}

/// The magnitude and the depth in kilometres of a simulated earthquake, in tenths.
pub open spec fn simulated_strength(level: InterruptionLevel) -> (u32, u32) {
    match level {
        InterruptionLevel::Passive => (36, 120),
        InterruptionLevel::Active => (46, 100),
        InterruptionLevel::Critical => (62, 100),
    }
}

pub fn simulation_magnitude(level: InterruptionLevel) -> (r: (u32, u32))
    ensures
        r == simulated_strength(level),
{
    match level {
        InterruptionLevel::Passive => (36, 120),
        InterruptionLevel::Active => (46, 100),
        InterruptionLevel::Critical => (62, 100),
    }
}

/// The severity that a simulated earthquake is reported with.
pub open spec fn simulated_level(level: InterruptionLevel) -> u8 {
    match level {
        InterruptionLevel::Passive => 1,
        InterruptionLevel::Active => 2,
        InterruptionLevel::Critical => 4,
    }
}

/// Where a simulated earthquake lies and how strong it is.
#[derive(Debug, Clone, Copy)]
pub struct SimulatedHypocenter<N> {
    pub latitude: N,
    pub magnitude: N,
    pub depth_km: N,
}

/// Whether an event is a simulated earthquake on the meridian of a place.
pub open spec fn is_simulated<N>(
    event: DisasterEvent<N>,
    rule: AlertRule<N>,
    target: MonitoringTarget<N>,
    notify_level: InterruptionLevel,
    event_id: Seq<char>,
    occurred_at: Seq<char>,
    hypocenter: SimulatedHypocenter<N>,
) -> bool {
    &&& event.category == DisasterCategory::EarthquakeWarning
    &&& (event.channel, event.source@) == test_source(rule)
    &&& event.event_id@ == event_id
    &&& event.revision@ == "1"@
    &&& event.report_num == 1
    &&& event.title@ == "地震预警 模拟震源（"@ + notify_level.name()@ + " 测试）"@
    &&& event.description@ == Seq::<char>::empty()
    &&& event.latitude == Some(hypocenter.latitude)
    &&& event.longitude == Some(target.point.longitude)
    &&& event.magnitude == Some(hypocenter.magnitude)
    &&& event.depth_km == Some(hypocenter.depth_km)
    &&& event.affected_regions@.len() == 0
    &&& event.radius_km is None
    &&& event.level == simulated_level(notify_level)
    &&& event.occurred_at@ == occurred_at
    &&& !event.final_report
    &&& !event.cancel
    &&& event.training
}

/// The rule of a subscription for a kind of disaster, or the one that stands in.
pub open spec fn rule_or<N>(
    subscription: Subscription<N>,
    category: DisasterCategory,
    default_rule: AlertRule<N>,
) -> AlertRule<N> {
    match models::first_rule(subscription.alerts@, category) {
        Some(rule) => rule,
        None => default_rule,
    }
}

/// The rule of a subscription for a kind of disaster, or the one that stands in.
pub fn rule_or_default<'a, N>(
    subscription: &'a Subscription<N>,
    category: DisasterCategory,
    default_rule: &'a AlertRule<N>,
) -> (r: &'a AlertRule<N>)
    ensures
        *r == rule_or(*subscription, category, *default_rule),
{
    match subscription.alert(category) {
        Some(rule) => rule,
        None => default_rule,
    }
}

/// A simulated earthquake for a subscription; `None` where the subscription has no place.
pub fn simulated_event<N: Copy>(
    subscription: &Subscription<N>,
    default_rule: &AlertRule<N>,
    notify_level: InterruptionLevel,
    event_id: &str,
    occurred_at: &str,
    hypocenter: SimulatedHypocenter<N>,
) -> (r: Option<DisasterEvent<N>>)
    ensures
        r is None <==> subscription.targets@.len() == 0,
        r matches Some(event) ==> is_simulated(
            event,
            rule_or(*subscription, DisasterCategory::EarthquakeWarning, *default_rule),
            subscription.targets@[0],
            notify_level,
            event_id@,
            occurred_at@,
            hypocenter,
        ),
{
    if subscription.targets.len() == 0 {
        return None;
    }
    let rule = rule_or_default(subscription, DisasterCategory::EarthquakeWarning, default_rule);
    let (channel, source) = event_source(rule);
    let mut title = "地震预警 模拟震源（".to_owned();
    title.append(notify_level.as_str());
    title.append(" 测试）");
    let level: u8 = match notify_level {
        InterruptionLevel::Passive => 1,
        InterruptionLevel::Active => 2,
        InterruptionLevel::Critical => 4,
    };
    Some(
        DisasterEvent {
            category: DisasterCategory::EarthquakeWarning,
            channel,
            source,
            event_id: event_id.to_owned(),
            revision: "1".to_owned(),
            report_num: 1,
            title,
            description: String::new(),
            latitude: Some(hypocenter.latitude),
            longitude: Some(subscription.targets[0].point.longitude),
            magnitude: Some(hypocenter.magnitude),
            depth_km: Some(hypocenter.depth_km),
            affected_regions: Vec::new(),
            radius_km: None,
            level,
            occurred_at: occurred_at.to_owned(),
            final_report: false,
            cancel: false,
            training: true,
        },
    )
}

/// Whether an event replays an earthquake of the past.
pub open spec fn is_historical<N>(
    event: DisasterEvent<N>,
    record: HistoryRecord<N>,
    event_id: Seq<char>,
    occurred_at: Seq<char>,
) -> bool {
    &&& event.category == DisasterCategory::EarthquakeWarning
    &&& (event.channel, event.source@) == fallback_source()
    &&& event.event_id@ == event_id
    &&& event.revision@ == "1"@
    &&& event.report_num == 1
    &&& event.title@ == "地震预警 "@ + record.hypocenter@
    &&& event.description@ == "原发震时间："@ + record.origin_time@
    &&& event.latitude == Some(record.latitude)
    &&& event.longitude == Some(record.longitude)
    &&& event.magnitude == Some(record.magnitude)
    &&& event.depth_km == Some(record.depth_km)
    &&& event.affected_regions@.len() == 0
    &&& event.radius_km is None
    &&& event.level == 4
    &&& event.occurred_at@ == occurred_at
    &&& !event.final_report
    &&& !event.cancel
    &&& !event.training
}

/// An earthquake of the past as an event of now.
pub fn historical_event<N: Copy>(record: &HistoryRecord<N>, event_id: &str, occurred_at: &str) -> (r:
    DisasterEvent<N>)
    ensures
        is_historical(r, *record, event_id@, occurred_at@),
{
    let (channel, source) = fallback();
    let mut title = "地震预警 ".to_owned();
    title.append(record.hypocenter);
    let mut description = "原发震时间：".to_owned();
    description.append(record.origin_time);
    DisasterEvent {
        category: DisasterCategory::EarthquakeWarning,
        channel,
        source,
        event_id: event_id.to_owned(),
        revision: "1".to_owned(),
        report_num: 1,
        title,
        description,
        latitude: Some(record.latitude),
        longitude: Some(record.longitude),
        magnitude: Some(record.magnitude),
        depth_km: Some(record.depth_km),
        affected_regions: Vec::new(),
        radius_km: None,
        level: 4,
        occurred_at: occurred_at.to_owned(),
        final_report: false,
        cancel: false,
        training: false,
    }
}

// ---------------------------------------------------------------------------
// Intensities
// ---------------------------------------------------------------------------
/// The interruption of the first band that an intensity lies in.
pub open spec fn band_level(bands: Seq<IntensityBand>, rounded: u8) -> Option<InterruptionLevel>
    decreases bands.len(),
{
    if bands.len() == 0 {
        None
    } else if bands[0].min <= rounded <= bands[0].max {
        Some(bands[0].interruption_level)
    } else {
        band_level(bands.drop_first(), rounded)
    }
}

/// The interruption of the first band that an intensity lies in.
pub fn find_band_level(bands: &Vec<IntensityBand>, rounded: u8) -> (r: Option<InterruptionLevel>)
    ensures
        r == band_level(bands@, rounded),
{
    let mut i: usize = 0;
    assert(bands@.skip(0) =~= bands@);
    while i < bands.len()
        invariant
            i <= bands@.len(),
            band_level(bands@, rounded) == band_level(bands@.skip(i as int), rounded),
        decreases bands@.len() - i,
    {
        proof {
            assert(bands@.skip(i as int)[0] == bands@[i as int]);
            assert(bands@.skip(i as int).drop_first() =~= bands@.skip(i + 1));
        }
        if rounded >= bands[i].min && rounded <= bands[i].max {
            return Some(bands[i].interruption_level);
        }
        i += 1;
    }
    None
}

/// How an event interrupts by the rule of a subscription for warnings, from the rounded intensity
/// that is estimated at a place; `None` where the rule does not say.
pub open spec fn event_interruption<N>(
    subscription: Subscription<N>,
    category: DisasterCategory,
    rounded: Option<u8>,
) -> Option<InterruptionLevel> {
    match models::first_rule(subscription.alerts@, category) {
        Some(rule) => match (rule.bands(), rounded) {
            (Some(bands), Some(rounded)) => band_level(bands, rounded),
            _ => None,
        },
        None => None,
    }
}

pub fn interruption_for_event<N>(
    subscription: &Subscription<N>,
    category: DisasterCategory,
    rounded: Option<u8>,
) -> (r: Option<InterruptionLevel>)
    ensures
        r == event_interruption(*subscription, category, rounded),
{
    match subscription.alert(category) {
        Some(AlertRule::EarthquakeWarning { estimated_intensity_bands, .. }) => match rounded {
            Some(rounded) => find_band_level(estimated_intensity_bands, rounded),
            None => None,
        },
        _ => None,
    }
}

/// How a test alert interrupts: as the rule of the subscription says, else as was asked for.
pub fn test_interruption<N>(
    subscription: &Subscription<N>,
    category: DisasterCategory,
    rounded: Option<u8>,
    requested: InterruptionLevel,
) -> (r: InterruptionLevel)
    ensures
        r == (match event_interruption(*subscription, category, rounded) {
            Some(level) => level,
            None => requested,
        }),
{
    match interruption_for_event(subscription, category, rounded) {
        Some(level) => level,
        None => requested,
    }
}

/// The greatest intensity of the bands with an interruption.
pub open spec fn greatest(bands: Seq<IntensityBand>, level: InterruptionLevel) -> Option<u8>
    decreases bands.len(),
{
    if bands.len() == 0 {
        None
    } else {
        let last = bands.last();
        match greatest(bands.drop_last(), level) {
            Some(max) => if last.interruption_level == level && last.max > max {
                Some(last.max)
            } else {
                Some(max)
            },
            None => if last.interruption_level == level {
                Some(last.max)
            } else {
                None
            },
        }
    }
}

/// The least intensity of the bands with an interruption.
pub open spec fn least(bands: Seq<IntensityBand>, level: InterruptionLevel) -> Option<u8>
    decreases bands.len(),
{
    if bands.len() == 0 {
        None
    } else {
        let last = bands.last();
        match least(bands.drop_last(), level) {
            Some(min) => if last.interruption_level == level && last.min < min {
                Some(last.min)
            } else {
                Some(min)
            },
            None => if last.interruption_level == level {
                Some(last.min)
            } else {
                None
            },
        }
    }
}

/// The intensity at which a rule interrupts in a way: the greatest passive one, the middle of the
/// active ones, the least critical one.
pub open spec fn wanted_intensity<N>(rule: AlertRule<N>, level: InterruptionLevel) -> u8 {
    let fixed: u8 = match level {
        InterruptionLevel::Passive => 1,
        InterruptionLevel::Active => 2,
        InterruptionLevel::Critical => 3,
    };
    match rule.bands() {
        Some(bands) => match (least(bands, level), greatest(bands, level)) {
            (Some(min), Some(max)) => match level {
                InterruptionLevel::Passive => max,
                InterruptionLevel::Active => if min + max > 255 {
                    127
                } else {
                    ((min + max) / 2) as u8
                },
                InterruptionLevel::Critical => min,
            },
            _ => fixed,
        },
        None => fixed,
    }
}

/// The least and the greatest intensity of the bands with an interruption.
fn band_range(bands: &Vec<IntensityBand>, level: InterruptionLevel) -> (r: Option<(u8, u8)>)
    ensures
        match r {
            Some((min, max)) => least(bands@, level) == Some(min) && greatest(bands@, level)
                == Some(max),
            None => least(bands@, level) is None && greatest(bands@, level) is None,
        },
{
    let mut range: Option<(u8, u8)> = None;
    let mut i: usize = 0;
    while i < bands.len()
        invariant
            i <= bands@.len(),
            match range {
                Some((min, max)) => least(bands@.take(i as int), level) == Some(min) && greatest(
                    bands@.take(i as int),
                    level,
                ) == Some(max),
                None => least(bands@.take(i as int), level) is None && greatest(
                    bands@.take(i as int),
                    level,
                ) is None,
            },
        decreases bands@.len() - i,
    {
        let band = bands[i];
        proof {
            assert(bands@.take(i + 1).drop_last() =~= bands@.take(i as int));
            assert(bands@.take(i + 1).last() == band);
        }
        if band.interruption_level == level {
            range = match range {
                Some((min, max)) => Some(
                    (
                        if band.min < min {
                            band.min
                        } else {
                            min
                        },
                        if band.max > max {
                            band.max
                        } else {
                            max
                        },
                    ),
                ),
                None => Some((band.min, band.max)),
            };
        }
        i += 1;
    }
    assert(bands@.take(i as int) =~= bands@);
    range
}

/// The intensity that a simulated earthquake should have at a place.
pub fn target_intensity<N>(rule: &AlertRule<N>, level: InterruptionLevel) -> (r: u8)
    ensures
        r == wanted_intensity(*rule, level),
{
    let range = match rule {
        AlertRule::EarthquakeWarning { estimated_intensity_bands, .. } => band_range(
            estimated_intensity_bands,
            level,
        ),
        _ => None,
    };
    match range {
        Some((min, max)) => match level {
            InterruptionLevel::Passive => max,
            InterruptionLevel::Active => {
                let sum: u16 = min as u16 + max as u16;
                if sum > 255 {
                    127
                } else {
                    (sum / 2) as u8
                }
            },
            InterruptionLevel::Critical => min,
        },
        None => match level {
            InterruptionLevel::Passive => 1,
            InterruptionLevel::Active => 2,
            InterruptionLevel::Critical => 3,
        },
    }
}

/// Whether bands are sound: none is empty, and bands that interrupt differently do not overlap.
pub open spec fn bands_are_sound(bands: Seq<IntensityBand>) -> bool {
    &&& forall|i: int| 0 <= i < bands.len() ==> (#[trigger] bands[i]).min <= bands[i].max
    &&& forall|i: int, j: int|
        0 <= i < bands.len() && 0 <= j < bands.len() && (#[trigger] bands[i]).interruption_level
            != (#[trigger] bands[j]).interruption_level ==> bands[i].max < bands[j].min
            || bands[j].max < bands[i].min
}

proof fn lemma_band_level(bands: Seq<IntensityBand>, x: u8, k: int)
    requires
        bands_are_sound(bands),
        0 <= k < bands.len(),
        bands[k].min <= x <= bands[k].max,
    ensures
        band_level(bands, x) == Some(bands[k].interruption_level),
    decreases bands.len(),
{
    if bands[0].min <= x <= bands[0].max {
        assert(bands[0].interruption_level == bands[k].interruption_level);
    } else {
        let rest = bands.drop_first();
        assert forall|i: int| 0 <= i < rest.len() implies #[trigger] rest[i] == bands[i + 1] by {}
        lemma_band_level(rest, x, k - 1);
    }
}

proof fn lemma_greatest(bands: Seq<IntensityBand>, level: InterruptionLevel)
    ensures
        match greatest(bands, level) {
            Some(max) => exists|k: int|
                0 <= k < bands.len() && (#[trigger] bands[k]).interruption_level == level
                    && bands[k].max == max,
            None => forall|k: int|
                0 <= k < bands.len() ==> (#[trigger] bands[k]).interruption_level != level,
        },
    decreases bands.len(),
{
    if bands.len() > 0 {
        let rest = bands.drop_last();
        lemma_greatest(rest, level);
        assert(bands[bands.len() - 1] == bands.last());
        if let Some(max) = greatest(rest, level) {
            let k = choose|k: int|
                0 <= k < rest.len() && (#[trigger] rest[k]).interruption_level == level
                    && rest[k].max == max;
            assert(bands[k] == rest[k]);
        } else {
            assert forall|k: int|
                0 <= k < bands.len() && greatest(bands, level) is None implies (
            #[trigger] bands[k]).interruption_level != level by {
                if k < rest.len() {
                    assert(rest[k] == bands[k]);
                }
            }
        }
    }
}

proof fn lemma_least(bands: Seq<IntensityBand>, level: InterruptionLevel)
    ensures
        match least(bands, level) {
            Some(min) => exists|k: int|
                0 <= k < bands.len() && (#[trigger] bands[k]).interruption_level == level
                    && bands[k].min == min,
            None => forall|k: int|
                0 <= k < bands.len() ==> (#[trigger] bands[k]).interruption_level != level,
        },
    decreases bands.len(),
{
    if bands.len() > 0 {
        let rest = bands.drop_last();
        lemma_least(rest, level);
        assert(bands[bands.len() - 1] == bands.last());
        if let Some(min) = least(rest, level) {
            let k = choose|k: int|
                0 <= k < rest.len() && (#[trigger] rest[k]).interruption_level == level
                    && rest[k].min == min;
            assert(bands[k] == rest[k]);
        } else {
            assert forall|k: int|
                0 <= k < bands.len() && least(bands, level) is None implies (
            #[trigger] bands[k]).interruption_level != level by {
                if k < rest.len() {
                    assert(rest[k] == bands[k]);
                }
            }
        }
    }
}

/// The intensity that is aimed at interrupts as was asked for: passively or critically if there
/// is such a band, actively if there is one such band and it begins below the middle of the scale
/// of the numbers that hold intensities.
pub proof fn law_aim_hits_the_requested_band<N>(
    rule: AlertRule<N>,
    level: InterruptionLevel,
    at: int,
)
    requires
        rule.bands() is Some,
        bands_are_sound(rule.bands()->0),
        0 <= at < rule.bands()->0.len(),
        rule.bands()->0[at].interruption_level == level,
        level == InterruptionLevel::Active ==> rule.bands()->0[at].min <= 127 && forall|i: int|
            0 <= i < rule.bands()->0.len() && (#[trigger] rule.bands()->0[i]).interruption_level
                == level ==> i == at,
    ensures
        band_level(rule.bands()->0, wanted_intensity(rule, level)) == Some(level),
{
    let bands = rule.bands()->0;
    let x = wanted_intensity(rule, level);
    lemma_greatest(bands, level);
    lemma_least(bands, level);
    let g = choose|k: int|
        0 <= k < bands.len() && (#[trigger] bands[k]).interruption_level == level && bands[k].max
            == greatest(bands, level)->0;
    let l = choose|k: int|
        0 <= k < bands.len() && (#[trigger] bands[k]).interruption_level == level && bands[k].min
            == least(bands, level)->0;
    assert(bands[at].interruption_level == level);
    match level {
        InterruptionLevel::Passive => {
            lemma_band_level(bands, x, g);
        },
        InterruptionLevel::Active => {
            assert(g == at && l == at);
            lemma_band_level(bands, x, at);
        },
        InterruptionLevel::Critical => {
            lemma_band_level(bands, x, l);
        },
    }
}

// ---------------------------------------------------------------------------
// Distances
// ---------------------------------------------------------------------------
/// How far an estimate is from the intensity that is aimed at.
pub open spec fn miss(estimate: i32, target: u8) -> int {
    if estimate >= target {
        estimate - target
    } else {
        target - estimate
    }
}

/// The first place of a list with the least miss below 99, if there is one.
pub open spec fn closest(estimates: Seq<i32>, target: u8) -> Option<int>
    decreases estimates.len(),
{
    if estimates.len() == 0 {
        None
    } else {
        let last = miss(estimates.last(), target);
        match closest(estimates.drop_last(), target) {
            Some(at) => if last < miss(estimates[at], target) {
                Some(estimates.len() - 1)
            } else {
                Some(at)
            },
            None => if last < 99 {
                Some(estimates.len() - 1)
            } else {
                None
            },
        }
    }
}

/// The distance in kilometres at which an earthquake has an intensity. `estimates` holds the
/// rounded intensities at one kilometre, at two, and so on. Where none is the one that is aimed
/// at, the first of the closest counts; where none is close, one kilometre.
pub fn simulation_distance_for_intensity(estimates: &Vec<i32>, target: u8) -> (r: usize)
    requires
        estimates@.len() < usize::MAX,
    ensures
        r == (match closest(estimates@, target) {
            Some(at) => at + 1,
            None => 1,
        }),
{
    let mut best: usize = 1;
    let mut best_delta: i64 = 99;
    let mut i: usize = 0;
    while i < estimates.len()
        invariant
            estimates@.len() < usize::MAX,
            i <= estimates@.len(),
            best_delta > 0,
            match closest(estimates@.take(i as int), target) {
                Some(at) => 0 <= at < i && best == at + 1 && best_delta == miss(
                    estimates@[at],
                    target,
                ) && best_delta < 99,
                None => best == 1 && best_delta == 99,
            },
        decreases estimates@.len() - i,
    {
        let delta: i64 = if estimates[i] as i64 >= target as i64 {
            estimates[i] as i64 - target as i64
        } else {
            target as i64 - estimates[i] as i64
        };
        proof {
            assert(estimates@.take(i + 1).drop_last() =~= estimates@.take(i as int));
            assert(estimates@.take(i + 1).last() == estimates@[i as int]);
        }
        if delta < best_delta {
            best = i + 1;
            best_delta = delta;
        }
        if delta == 0 {
            proof {
                lemma_exact_is_closest(estimates@, target, i as int);
            }
            return i + 1;
        }
        i += 1;
    }
    assert(estimates@.take(i as int) =~= estimates@);
    best
}

/// What the closest place is.
proof fn lemma_closest(estimates: Seq<i32>, target: u8)
    ensures
        match closest(estimates, target) {
            Some(at) => {
                &&& 0 <= at < estimates.len()
                &&& miss(estimates[at], target) < 99
                &&& forall|k: int|
                    0 <= k < estimates.len() ==> miss(estimates[at], target) <= miss(
                        #[trigger] estimates[k],
                        target,
                    )
                &&& forall|k: int|
                    0 <= k < at ==> miss(estimates[at], target) < miss(
                        #[trigger] estimates[k],
                        target,
                    )
            },
            None => forall|k: int|
                0 <= k < estimates.len() ==> miss(#[trigger] estimates[k], target) >= 99,
        },
    decreases estimates.len(),
{
    if estimates.len() > 0 {
        let rest = estimates.drop_last();
        lemma_closest(rest, target);
        assert forall|k: int| 0 <= k < rest.len() implies #[trigger] estimates[k] == rest[k] by {}
        assert(estimates[estimates.len() - 1] == estimates.last());
    }
}

/// The first place that is hit exactly is the closest.
proof fn lemma_exact_is_closest(estimates: Seq<i32>, target: u8, i: int)
    requires
        0 <= i < estimates.len(),
        miss(estimates[i], target) == 0,
        closest(estimates.take(i + 1), target) == Some(i),
    ensures
        closest(estimates, target) == Some(i),
{
    lemma_closest(estimates.take(i + 1), target);
    lemma_closest(estimates, target);
    let at = closest(estimates, target)->0;
    assert forall|k: int| 0 <= k < i implies miss(#[trigger] estimates[k], target) > 0 by {
        assert(estimates.take(i + 1)[k] == estimates[k]);
    }
    assert(closest(estimates, target) is Some);
    assert(miss(estimates[at], target) <= miss(estimates[i], target));
}

/// The distance that is chosen hits the intensity wherever one distance does.
pub proof fn law_chosen_distance_is_closest(estimates: Seq<i32>, target: u8, k: int)
    requires
        0 <= k < estimates.len(),
        miss(estimates[k], target) < 99,
    ensures
        closest(estimates, target) matches Some(at) && 0 <= at < estimates.len() && miss(
            estimates[at],
            target,
        ) <= miss(estimates[k], target),
{
    lemma_closest(estimates, target);
}

/// The first place of a list with the least distance.
pub open spec fn nearest(distances: Seq<u64>) -> Option<int>
    decreases distances.len(),
{
    if distances.len() == 0 {
        None
    } else {
        match nearest(distances.drop_last()) {
            Some(at) => if distances.last() < distances[at] {
                Some(distances.len() - 1)
            } else {
                Some(at)
            },
            None => Some(0),
        }
    }
}

/// The place of a subscription that is nearest to an epicentre, the first of them where several
/// are; without an epicentre its first place. `distances` orders the places by their distance.
pub fn nearest_or_first_target<N>(
    subscription: &Subscription<N>,
    distances: Option<&Vec<u64>>,
) -> (r: Option<usize>)
    requires
        distances matches Some(d) ==> d@.len() == subscription.targets@.len(),
    ensures
        match r {
            Some(at) => at < subscription.targets@.len() && (match distances {
                Some(d) => nearest(d@) == Some(at as int),
                None => at == 0,
            }),
            None => subscription.targets@.len() == 0,
        },
{
    if subscription.targets.len() == 0 {
        return None;
    }
    match distances {
        None => Some(0),
        Some(d) => {
            let mut best: usize = 0;
            let mut i: usize = 1;
            assert(nearest(d@.take(1).drop_last()) is None);
            while i < d.len()
                invariant
                    1 <= i <= d@.len(),
                    best < i,
                    nearest(d@.take(i as int)) == Some(best as int),
                decreases d@.len() - i,
            {
                proof {
                    assert(d@.take(i + 1).drop_last() =~= d@.take(i as int));
                    assert(d@.take(i + 1).last() == d@[i as int]);
                }
                if d[i] < d[best] {
                    best = i;
                }
                i += 1;
            }
            assert(d@.take(i as int) =~= d@);
            Some(best)
        },
    }
}

/// The nearest place is at most as far as any other, and the first of those that are as near.
pub proof fn law_nearest_target(distances: Seq<u64>, k: int)
    requires
        0 <= k < distances.len(),
    ensures
        nearest(distances) matches Some(at) && 0 <= at < distances.len() && distances[at]
            <= distances[k] && (k < at ==> distances[at] < distances[k]),
    decreases distances.len(),
{
    let rest = distances.drop_last();
    if rest.len() > 0 {
        if k < rest.len() {
            law_nearest_target(rest, k);
        } else {
            law_nearest_target(rest, 0);
        }
        let at = nearest(rest)->0;
        assert(rest[at] == distances[at]);
    }
}

// ---------------------------------------------------------------------------
// Arrivals
// ---------------------------------------------------------------------------
/// A number as a counter of milliseconds holds it that stops at its ends.
pub open spec fn saturated_ms(n: int) -> i64 {
    if n > i64::MAX {
        i64::MAX
    } else if n < i64::MIN {
        i64::MIN
    } else {
        n as i64
    }
}

/// When an event occurred: as it says in seconds, else now.
pub fn occurred_at_ms(parsed_seconds: Option<i64>, now_ms: i64) -> (r: i64)
    ensures
        r == (match parsed_seconds {
            Some(seconds) => saturated_ms(seconds * 1000),
            None => now_ms,
        }),
{
    match parsed_seconds {
        Some(seconds) => {
            let exact: i128 = seconds as i128 * 1000;
            if exact > i64::MAX as i128 {
                i64::MAX
            } else if exact < i64::MIN as i128 {
                i64::MIN
            } else {
                exact as i64
            }
        },
        None => now_ms,
    }
}

/// When a wave arrives that travels so long; a wave without a speed arrives at once.
pub fn arrival_at(occurred_at_ms: i64, travel_ms: Option<i64>) -> (r: i64)
    ensures
        r == (match travel_ms {
            Some(travel) => saturated_ms(occurred_at_ms + travel),
            None => occurred_at_ms,
        }),
{
    match travel_ms {
        Some(travel) => {
            let exact: i128 = occurred_at_ms as i128 + travel as i128;
            if exact > i64::MAX as i128 {
                i64::MAX
            } else if exact < i64::MIN as i128 {
                i64::MIN
            } else {
                exact as i64
            }
        },
        None => occurred_at_ms,
    }
}

// ---------------------------------------------------------------------------
// Sending
// ---------------------------------------------------------------------------
/// What came of a test alert.
#[derive(Debug)]
pub struct SimulateOutcome {
    pub event_id: String,
    pub pushed: u32,
    pub skipped: u32,
    pub temporary: bool,
    pub notify_level: Option<String>,
    pub source: Option<String>,
    pub key: Option<String>,
}

/// The record that was asked for is not in the catalogue.
#[derive(Debug, Clone, Copy, PartialEq, Eq)]
pub struct HistoryRecordMissing;

/// What is fixed for a test alert before the first device is looked up.
#[derive(Debug)]
pub struct DispatchPlan {
    pub timestamp: UtcTimestamp,
    pub occurred_at: String,
    pub event_id: String,
    pub notify_level: Option<InterruptionLevel>,
    pub source: Option<String>,
    pub key: Option<String>,
    pub shared_event: Option<DisasterEvent<i64>>,
}

/// The identifier of a replayed earthquake.
pub open spec fn history_event_id<N>(
    source: Seq<char>,
    record: HistoryRecord<N>,
    compact: Seq<char>,
) -> Seq<char> {
    "HIST-"@ + text::ascii_upper(source) + "-"@ + record.event_id@ + "-"@ + compact
}

/// The identifier of a simulated earthquake.
pub open spec fn simulation_event_id(compact: Seq<char>) -> Seq<char> {
    "SIM-"@ + compact
}

impl DispatchPlan {
    /// Whether this is the plan for what was asked at a moment.
    pub open spec fn is_for(self, now_ms: i64, mode: SimulateMode) -> bool {
        let compact = self.timestamp.compact_text();
        &&& self.timestamp.wf()
        &&& self.timestamp.unix_seconds() == now_ms as int / 1000
        &&& self.occurred_at@ == self.timestamp.rfc3339_text()
        &&& match mode {
            SimulateMode::NotifyLevel(level) => {
                &&& self.event_id@ == simulation_event_id(compact)
                &&& self.notify_level == Some(level)
                &&& self.source is None
                &&& self.key is None
                &&& self.shared_event is None
            },
            SimulateMode::History { source, key } => {
                let record = record_with(major_records(), source@, key@);
                &&& record is Some
                &&& self.event_id@ == history_event_id(source@, record->0, compact)
                &&& self.notify_level is None
                &&& self.source matches Some(s) && s@ == source@
                &&& self.key matches Some(k) && k@ == key@
                &&& self.shared_event matches Some(event) && is_historical(
                    event,
                    record->0,
                    self.event_id@,
                    self.occurred_at@,
                )
            },
        }
    }
}

/// Fixes what a test alert shows. A replay needs its record in the catalogue.
pub fn plan_dispatch(now_ms: i64, mode: &SimulateMode) -> (r: Result<
    DispatchPlan,
    HistoryRecordMissing,
>)
    ensures
        r matches Ok(plan) ==> plan.is_for(now_ms, *mode),
        r is Err <==> (*mode matches SimulateMode::History { source, key } && record_with(
            major_records(),
            source@,
            key@,
        ) is None),
{
    let seconds: i64 = crate::timestamp::floor_div(now_ms, 1000);
    let timestamp = UtcTimestamp::from_unix_seconds(seconds);
    let occurred_at = timestamp.rfc3339_z();
    let compact = timestamp.compact();
    match mode {
        SimulateMode::NotifyLevel(level) => {
            let mut event_id = "SIM-".to_owned();
            event_id.append(compact.as_str());
            Ok(
                DispatchPlan {
                    timestamp,
                    occurred_at,
                    event_id,
                    notify_level: Some(*level),
                    source: None,
                    key: None,
                    shared_event: None,
                },
            )
        },
        SimulateMode::History { source, key } => {
            let records = builtin_major_records();
            match find_history_record(&records, source.as_str(), key.as_str()) {
                None => Err(HistoryRecordMissing),
                Some(record) => {
                    let mut event_id = "HIST-".to_owned();
                    event_id.append(text::to_ascii_uppercase(source.as_str()).as_str());
                    event_id.append("-");
                    event_id.append(record.event_id);
                    event_id.append("-");
                    event_id.append(compact.as_str());
                    let event = historical_event(record, event_id.as_str(), occurred_at.as_str());
                    Ok(
                        DispatchPlan {
                            timestamp,
                            occurred_at,
                            event_id,
                            notify_level: None,
                            source: Some(source.clone()),
                            key: Some(key.clone()),
                            shared_event: Some(event),
                        },
                    )
                },
            }
        },
    }
}

impl DispatchPlan {
    /// How the alert shall interrupt where the rule of a subscription does not say: as was asked
    /// for, and actively where nothing was.
    pub fn requested_level(&self) -> (r: InterruptionLevel)
        ensures
            r == (match self.notify_level {
                Some(level) => level,
                None => InterruptionLevel::Active,
            }),
    {
        match self.notify_level {
            Some(level) => level,
            None => InterruptionLevel::Active,
        }
    }
}

/// The identifier of the event that goes to a device: that of the alert for the first, and one
/// with the number of the device for every other. A replay has one event for all.
pub open spec fn device_event_id(plan_id: Seq<char>, shared: bool, device: int) -> Seq<char> {
    if shared || device == 0 {
        plan_id
    } else {
        plan_id + "-"@ + text::decimal(device as nat)
    }
}

/// Each device of a simulation has an event of its own.
pub proof fn law_devices_have_their_own_events(plan_id: Seq<char>, a: int, b: int)
    requires
        0 <= a < b,
    ensures
        device_event_id(plan_id, false, a) != device_event_id(plan_id, false, b),
{
    reveal_strlit("-");
    text::lemma_digits_of_decimal(b as nat);
    let x = device_event_id(plan_id, false, a);
    let y = device_event_id(plan_id, false, b);
    if a == 0 {
        assert(x.len() < y.len());
    } else {
        text::lemma_digits_of_decimal(a as nat);
        let n = (plan_id.len() + 1) as int;
        assert(x.skip(n) =~= text::decimal(a as nat));
        assert(y.skip(n) =~= text::decimal(b as nat));
    }
}

/// One thing to do for a test alert.
#[derive(Debug)]
pub enum DispatchItem {
    /// The device has no subscription.
    Missing { device: usize },
    /// An event goes out for one subscription of the device.
    Send { device: usize, subscription: usize, event_id: String },
}

/// One thing to do, as texts.
pub enum ItemModel {
    Missing { device: int },
    Send { device: int, subscription: int, event_id: Seq<char> },
}

impl View for DispatchItem {
    type V = ItemModel;

    open spec fn view(&self) -> ItemModel {
        match *self {
            DispatchItem::Missing { device } => ItemModel::Missing { device: device as int },
            DispatchItem::Send { device, subscription, event_id } => ItemModel::Send {
                device: device as int,
                subscription: subscription as int,
                event_id: event_id@,
            },
        }
    }
}

pub open spec fn item_models(items: Seq<DispatchItem>) -> Seq<ItemModel> {
    items.map_values(|i: DispatchItem| i@)
}

/// What is to do for one device with so many subscriptions.
pub open spec fn device_items(plan_id: Seq<char>, shared: bool, device: int, count: int) -> Seq<
    ItemModel,
> {
    if count <= 0 {
        seq![ItemModel::Missing { device }]
    } else {
        Seq::new(
            count as nat,
            |k: int|
                ItemModel::Send {
                    device,
                    subscription: k,
                    event_id: device_event_id(plan_id, shared, device),
                },
        )
    }
}

/// What is to do for the devices, one after the other.
pub open spec fn all_items(plan_id: Seq<char>, shared: bool, counts: Seq<usize>) -> Seq<ItemModel>
    decreases counts.len(),
{
    if counts.len() == 0 {
        Seq::empty()
    } else {
        all_items(plan_id, shared, counts.drop_last()) + device_items(
            plan_id,
            shared,
            counts.len() - 1,
            counts.last() as int,
        )
    }
}

/// What is to do for a test alert. `counts` holds how many subscriptions each device has.
pub fn dispatch_items(plan: &DispatchPlan, counts: &Vec<usize>) -> (r: Vec<DispatchItem>)
    ensures
        item_models(r@) == all_items(plan.event_id@, plan.shared_event is Some, counts@),
{
    let ghost id = plan.event_id@;
    let ghost shared = plan.shared_event is Some;
    let mut items: Vec<DispatchItem> = Vec::new();
    let mut device: usize = 0;
    assert(item_models(items@) =~= all_items(id, shared, counts@.take(0)));
    while device < counts.len()
        invariant
            id == plan.event_id@,
            shared == plan.shared_event is Some,
            device <= counts@.len(),
            item_models(items@) == all_items(id, shared, counts@.take(device as int)),
        decreases counts@.len() - device,
    {
        let ghost before = item_models(items@);
        let count = counts[device];
        let ghost wanted = device_items(id, shared, device as int, count as int);
        proof {
            assert(counts@.take(device + 1).drop_last() =~= counts@.take(device as int));
            assert(counts@.take(device + 1).last() == count);
        }
        if count == 0 {
            items.push(DispatchItem::Missing { device });
            assert(item_models(items@) =~= before + wanted);
        } else {
            let event_id = if plan.shared_event.is_some() || device == 0 {
                plan.event_id.clone()
            } else {
                let mut event_id = plan.event_id.clone();
                event_id.append("-");
                event_id.append(text::decimal_text(device as u64).as_str());
                event_id
            };
            assert(event_id@ =~= device_event_id(id, shared, device as int));
            let mut k: usize = 0;
            assert(item_models(items@) =~= before + wanted.take(0));
            while k < count
                invariant
                    k <= count,
                    wanted == device_items(id, shared, device as int, count as int),
                    event_id@ == device_event_id(id, shared, device as int),
                    item_models(items@) == before + wanted.take(k as int),
                decreases count - k,
            {
                let ghost old_items = items@;
                items.push(
                    DispatchItem::Send { device, subscription: k, event_id: event_id.clone() },
                );
                proof {
                    assert(items@.last()@ == wanted[k as int]);
                    assert(item_models(items@) =~= item_models(old_items).push(wanted[k as int]));
                    assert(wanted.take(k + 1) =~= wanted.take(k as int).push(wanted[k as int]));
                    assert(item_models(items@) =~= before + wanted.take(k + 1));
                }
                k += 1;
            }
            assert(wanted.take(k as int) =~= wanted);
        }
        device += 1;
    }
    assert(counts@.take(device as int) =~= counts@);
    items
}

/// How one thing to do came out.
#[derive(Debug, Clone, Copy, PartialEq, Eq, Structural)]
pub enum SendResult {
    Pushed,
    Skipped,
}

/// How one thing to do came out: an event that was made and sent is pushed, and everything else is
/// skipped. `event_made` says whether there was an event to send, and `sent` whether it was sent.
pub fn send_result(item: &DispatchItem, event_made: bool, sent: bool) -> (r: SendResult)
    ensures
        r == SendResult::Pushed <==> item is Send && event_made && sent,
{
    match item {
        DispatchItem::Send { .. } => if event_made && sent {
            SendResult::Pushed
        } else {
            SendResult::Skipped
        },
        DispatchItem::Missing { .. } => SendResult::Skipped,
    }
}

/// What sending a test alert for one subscription waits for. `P` is a link to its details.
#[derive(Debug)]
pub enum SendState<P> {
    /// The link.
    Preparing,
    /// That what is behind the link is stored.
    Storing { link: P },
    /// That the notification with the link is sent.
    Sending { link: P },
}

/// What sending a test alert waited for.
#[derive(Debug)]
pub enum SendEvent<P> {
    /// The link, unless there could be none.
    Prepared(Option<P>),
    Stored(bool),
    Sent(bool),
}

/// Sending goes on, has failed, or is done.
#[derive(Debug)]
pub enum SendStep<P> {
    Wait(SendState<P>),
    Failed,
    Done,
}

/// Begins to send a test alert for one subscription, if there is a place that it is about.
pub fn start_send<P>(has_target: bool) -> (r: SendStep<P>)
    ensures
        r == (if has_target {
            SendStep::Wait(SendState::<P>::Preparing)
        } else {
            SendStep::Failed
        }),
{
    if has_target {
        SendStep::Wait(SendState::Preparing)
    } else {
        SendStep::Failed
    }
}

/// How sending goes on when what it waited for has come. What it did not wait for changes
/// nothing.
pub open spec fn send_follows<P>(state: SendState<P>, event: SendEvent<P>) -> SendStep<P> {
    match (state, event) {
        (SendState::Preparing, SendEvent::Prepared(prepared)) => match prepared {
            Some(link) => SendStep::Wait(SendState::Storing { link }),
            None => SendStep::Failed,
        },
        (SendState::Storing { link }, SendEvent::Stored(stored)) => if stored {
            SendStep::Wait(SendState::Sending { link })
        } else {
            SendStep::Failed
        },
        (SendState::Sending { .. }, SendEvent::Sent(sent)) => if sent {
            SendStep::Done
        } else {
            SendStep::Failed
        },
        _ => SendStep::Wait(state),
    }
}

/// Goes on with sending a test alert when what it waited for has come.
pub fn advance_send<P>(state: SendState<P>, event: SendEvent<P>) -> (r: SendStep<P>)
    ensures
        r == send_follows(state, event),
{
    match (state, event) {
        (SendState::Preparing, SendEvent::Prepared(prepared)) => match prepared {
            Some(link) => SendStep::Wait(SendState::Storing { link }),
            None => SendStep::Failed,
        },
        (SendState::Storing { link }, SendEvent::Stored(stored)) => if stored {
            SendStep::Wait(SendState::Sending { link })
        } else {
            SendStep::Failed
        },
        (SendState::Sending { .. }, SendEvent::Sent(sent)) => if sent {
            SendStep::Done
        } else {
            SendStep::Failed
        },
        (state, _) => SendStep::Wait(state),
    }
}

/// A notification goes out only with a link that was prepared and behind which something is
/// stored: whatever comes in whatever order, sending is done only from a state in which it is
/// sent, that state is entered only from one that stores what is behind the same link, and that one
/// only with the link that was prepared.
pub proof fn law_links_are_stored_before_they_are_sent<P>(state: SendState<P>, event: SendEvent<P>)
    ensures
        send_follows(state, event) is Done ==> state is Sending && event == SendEvent::<P>::Sent(
            true,
        ),
        send_follows(state, event) matches SendStep::Wait(SendState::Sending { link }) ==> state == (
        SendState::Sending { link }) || (state == (SendState::Storing { link }) && event
            == SendEvent::<P>::Stored(true)),
        send_follows(state, event) matches SendStep::Wait(SendState::Storing { link }) ==> state == (
        SendState::Storing { link }) || (state is Preparing && event == SendEvent::Prepared(
            Some(link),
        )),
{
}

/// How often something came out in a way, as far as a counter reaches.
pub open spec fn counted(results: Seq<SendResult>, wanted: SendResult) -> int
    decreases results.len(),
{
    if results.len() == 0 {
        0
    } else {
        counted(results.drop_last(), wanted) + (if results.last() == wanted {
            1int
        } else {
            0
        })
    }
}

/// A number as a counter holds it that stops at its greatest value.
pub open spec fn saturated(n: int) -> u32 {
    if n > u32::MAX {
        u32::MAX
    } else {
        n as u32
    }
}

proof fn lemma_counted(results: Seq<SendResult>)
    ensures
        counted(results, SendResult::Pushed) >= 0,
        counted(results, SendResult::Skipped) >= 0,
        counted(results, SendResult::Pushed) + counted(results, SendResult::Skipped)
            == results.len(),
    decreases results.len(),
{
    if results.len() > 0 {
        lemma_counted(results.drop_last());
    }
}

/// Every thing that was to do is counted, either as pushed or as skipped.
pub proof fn law_every_result_is_counted(results: Seq<SendResult>)
    requires
        results.len() <= u32::MAX,
    ensures
        saturated(counted(results, SendResult::Pushed)) + saturated(
            counted(results, SendResult::Skipped),
        ) == results.len(),
{
    lemma_counted(results);
}

/// What came of a test alert, from how each thing to do came out.
pub fn dispatch_outcome(plan: DispatchPlan, results: &Vec<SendResult>) -> (r: SimulateOutcome)
    ensures
        r.event_id == plan.event_id,
        r.pushed == saturated(counted(results@, SendResult::Pushed)),
        r.skipped == saturated(counted(results@, SendResult::Skipped)),
        !r.temporary,
        match plan.notify_level {
            Some(level) => r.notify_level matches Some(name) && name@ == level.name()@,
            None => r.notify_level is None,
        },
        r.source == plan.source,
        r.key == plan.key,
{
    let mut pushed: u32 = 0;
    let mut skipped: u32 = 0;
    let mut i: usize = 0;
    while i < results.len()
        invariant
            i <= results@.len(),
            pushed == saturated(counted(results@.take(i as int), SendResult::Pushed)),
            skipped == saturated(counted(results@.take(i as int), SendResult::Skipped)),
        decreases results@.len() - i,
    {
        proof {
            let next = results@.take(i + 1);
            assert(next.drop_last() =~= results@.take(i as int));
            assert(next.last() == results@[i as int]);
            lemma_counted(results@.take(i as int));
        }
        match results[i] {
            SendResult::Pushed => {
                if pushed < u32::MAX {
                    pushed += 1;
                }
            },
            SendResult::Skipped => {
                if skipped < u32::MAX {
                    skipped += 1;
                }
            },
        }
        i += 1;
    }
    assert(results@.take(i as int) =~= results@);
    SimulateOutcome {
        event_id: plan.event_id,
        pushed,
        skipped,
        temporary: false,
        notify_level: match plan.notify_level {
            Some(level) => Some(level.as_str().to_owned()),
            None => None,
        },
        source: plan.source,
        key: plan.key,
    }
}

// ---------------------------------------------------------------------------
// What a test alert shows
// ---------------------------------------------------------------------------
/// A text names an interruption exactly where it is its name, in any case and with white space
/// around it.
pub proof fn law_levels_are_named(value: &str, r: Option<InterruptionLevel>)
    requires
        call_ensures(parse_notify_level, (value,), r),
    ensures
        r == Some(InterruptionLevel::Passive) <==> text::ascii_lower(text::trimmed(value@))
            == "passive"@,
        r == Some(InterruptionLevel::Active) <==> text::ascii_lower(text::trimmed(value@))
            == "active"@,
        r == Some(InterruptionLevel::Critical) <==> text::ascii_lower(text::trimmed(value@))
            == "critical"@,
{
    reveal_strlit("passive");
    reveal_strlit("active");
    reveal_strlit("critical");
    assert("passive"@.len() == 7 && "active"@.len() == 6 && "critical"@.len() == 8);
}

/// A replay is the earthquake of its record: it lies where the record says, is as strong and as
/// deep, and is called after it and dated as it. It is no drill, and reported as strongly as can be.
pub proof fn law_replay_is_its_record<N: Copy>(
    record: &HistoryRecord<N>,
    event_id: &str,
    occurred_at: &str,
    r: DisasterEvent<N>,
)
    requires
        call_ensures(historical_event::<N>, (record, event_id, occurred_at), r),
    ensures
        r.latitude == Some(record.latitude),
        r.longitude == Some(record.longitude),
        r.magnitude == Some(record.magnitude),
        r.depth_km == Some(record.depth_km),
        r.event_id@ == event_id@,
        r.occurred_at@ == occurred_at@,
        r.category == DisasterCategory::EarthquakeWarning,
        r.level == 4,
        !r.training && !r.cancel && !r.final_report,
        r.radius_km is None,
        r.affected_regions@.len() == 0,
        r.channel == ProviderChannel::Wolfx,
        r.source@ == "wolfx.cenc_eew"@,
        r.revision@ == "1"@ && r.report_num == 1,
        ends_with_text(r.title@, record.hypocenter@),
        ends_with_text(r.description@, record.origin_time@),
{
    reveal_strlit("地震预警 ");
    reveal_strlit("原发震时间：");
    assert(r.title@.skip("地震预警 "@.len() as int) =~= record.hypocenter@);
    assert(r.description@.skip("原发震时间："@.len() as int) =~= record.origin_time@);
    let list = source_registry::source_list();
    source_registry::law_sources_are_found(2);
    assert(list[2].id@ == "wolfx.cenc_eew"@);
}

/// Whether a text ends with another.
pub open spec fn ends_with_text(s: Seq<char>, end: Seq<char>) -> bool {
    s.len() >= end.len() && s.skip(s.len() - end.len()) == end
}

/// Whether the record at a place of a catalogue is the first of a source, in any case, with a key.
pub open spec fn is_first_record<N>(
    records: Seq<HistoryRecord<N>>,
    source: Seq<char>,
    key: Seq<char>,
    k: int,
) -> bool {
    &&& 0 <= k < records.len()
    &&& records[k].key@ == key
    &&& text::ascii_lower(records[k].source@) == text::ascii_lower(source)
    &&& forall|i: int|
        0 <= i < k ==> (#[trigger] records[i]).key@ != key || text::ascii_lower(
            records[i].source@,
        ) != text::ascii_lower(source)
}

proof fn lemma_record_index<N>(records: Seq<HistoryRecord<N>>, source: Seq<char>, key: Seq<char>)
    ensures
        match record_with(records, source, key) {
            Some(record) => exists|k: int| #[trigger]
                is_first_record(records, source, key, k) && records[k] == record,
            None => forall|k: int|
                0 <= k < records.len() ==> (#[trigger] records[k]).key@ != key || text::ascii_lower(
                    records[k].source@,
                ) != text::ascii_lower(source),
        },
    decreases records.len(),
{
    if records.len() > 0 {
        if text::ascii_lower(records[0].source@) == text::ascii_lower(source) && records[0].key@
            == key {
            assert(is_first_record(records, source, key, 0));
        } else {
            let rest = records.drop_first();
            lemma_record_index(rest, source, key);
            assert forall|i: int| 0 < i < records.len() implies #[trigger] records[i] == rest[i
                - 1] by {}
            if let Some(record) = record_with(rest, source, key) {
                let k = choose|k: int| #[trigger]
                    is_first_record(rest, source, key, k) && rest[k] == record;
                assert(is_first_record(records, source, key, k + 1));
            }
        }
    }
}

/// The record that is found has the key and belongs to the source that were asked for, and is the
/// first such one; there is none only where no record is so.
pub proof fn law_found_record_is_the_one_asked_for<N>(
    records: &Vec<HistoryRecord<N>>,
    source: &str,
    key: &str,
    r: Option<&HistoryRecord<N>>,
)
    requires
        call_ensures(find_history_record::<N>, (records, source, key), r),
    ensures
        r matches Some(record) ==> exists|k: int| #[trigger]
            is_first_record(records@, source@, key@, k) && records@[k] == *record,
        r is None ==> forall|k: int|
            0 <= k < records@.len() ==> (#[trigger] records@[k]).key@ != key@ || text::ascii_lower(
                records@[k].source@,
            ) != text::ascii_lower(source@),
{
    lemma_record_index(records@, source@, key@);
}

/// The catalogue has these three earthquakes, with their epicentres, magnitudes and depths in
/// thousandths.
pub proof fn law_catalogue(records: Vec<HistoryRecord<i64>>)
    requires
        call_ensures(builtin_major_records, (), records),
    ensures
        records@.len() == 3,
        records@[0].key@ == "yibin-gaoxian-2026"@,
        (records@[0].latitude, records@[0].longitude) == (28_500i64, 104_690i64),
        (records@[0].magnitude, records@[0].depth_km) == (5_500i64, 6_000i64),
        records@[0].event_id@ == "CENC-202606290012"@,
        records@[0].origin_time@ == "2026-06-29 00:12:00"@,
        records@[1].key@ == "wenchuan-2008"@,
        (records@[1].latitude, records@[1].longitude) == (31_002i64, 103_322i64),
        (records@[1].magnitude, records@[1].depth_km) == (7_900i64, 19_000i64),
        records@[1].event_id@ == "USGS-usp000g650"@,
        records@[1].origin_time@ == "2008-05-12 14:28:01"@,
        records@[2].key@ == "tangshan-1976"@,
        (records@[2].latitude, records@[2].longitude) == (39_570i64, 117_980i64),
        (records@[2].magnitude, records@[2].depth_km) == (7_800i64, 15_000i64),
        records@[2].event_id@ == "USGS-Tangshan-1976"@,
        records@[2].origin_time@ == "1976-07-28 03:42:00"@,
        records@[0].hypocenter@ == "四川宜宾市高县地震"@,
        records@[1].hypocenter@ == "四川汶川地震"@,
        records@[2].hypocenter@ == "河北唐山地震"@,
        records@[0].max_intensity@ == "未知"@,
        records@[1].max_intensity@ == "XI"@,
        records@[2].max_intensity@ == "XI"@,
        forall|k: int| 0 <= k < 3 ==> (#[trigger] records@[k]).source@ == "major"@,
{
}

/// Every earthquake of the catalogue was in China and a strong one; its key ends with the year in
/// which its time begins, and the note on it begins with that year.
pub proof fn law_catalogue_is_plausible(records: Vec<HistoryRecord<i64>>, k: int)
    requires
        call_ensures(builtin_major_records, (), records),
        0 <= k < records@.len(),
    ensures
        18_000 <= records@[k].latitude <= 54_000,
        73_000 <= records@[k].longitude <= 135_000,
        5_000 <= records@[k].magnitude <= 9_500,
        0 <= records@[k].depth_km <= 700_000,
        ends_with_text(records@[k].key@, records@[k].origin_time@.take(4)),
        records@[k].note@.take(4) == records@[k].origin_time@.take(4),
{
    let year = records@[k].origin_time@.take(4);
    let key = records@[k].key@;
    let note = records@[k].note@;
    reveal_strlit("yibin-gaoxian-2026");
    reveal_strlit("2026-06-29 00:12:00");
    reveal_strlit(
        "2026年6月29日四川宜宾市高县5.5级地震；中国地震台网正式测定，震源深度6公里。",
    );
    reveal_strlit("wenchuan-2008");
    reveal_strlit("2008-05-12 14:28:01");
    reveal_strlit("2008年汶川地震，USGS Mw7.9；中国地震局常用表述为 Ms8.0。");
    reveal_strlit("tangshan-1976");
    reveal_strlit("1976-07-28 03:42:00");
    reveal_strlit("1976年唐山地震，USGS 资料记录震级7.8、深度15km、震中烈度XI。");
    assert(key.skip(key.len() - 4) =~= year);
    assert(note.take(4) =~= year);
}

/// A replay that is planned shows the record of the catalogue with the key that was asked for, at
/// its epicentre, as strong and as deep, under an identifier that holds that of the record and the
/// moment, and dated with the moment.
pub proof fn law_planned_replay_is_the_record_asked_for(
    now_ms: i64,
    source: String,
    key: String,
    r: Result<DispatchPlan, HistoryRecordMissing>,
    records: Vec<HistoryRecord<i64>>,
    k: int,
)
    requires
        call_ensures(plan_dispatch, (now_ms, &SimulateMode::History { source, key }), r),
        call_ensures(builtin_major_records, (), records),
        is_first_record(records@, source@, key@, k),
    ensures
        r matches Ok(plan) && {
            &&& plan.shared_event matches Some(event) && {
                &&& event.latitude == Some(records@[k].latitude)
                &&& event.longitude == Some(records@[k].longitude)
                &&& event.magnitude == Some(records@[k].magnitude)
                &&& event.depth_km == Some(records@[k].depth_km)
                &&& event.event_id@ == plan.event_id@
                &&& event.occurred_at@ == plan.occurred_at@
                &&& ends_with_text(event.title@, records@[k].hypocenter@)
                &&& ends_with_text(event.description@, records@[k].origin_time@)
                &&& event.level == 4
                &&& !event.training
            }
            &&& plan.notify_level is None
            &&& plan.source matches Some(s) && s@ == source@
            &&& plan.key matches Some(s) && s@ == key@
            &&& plan.event_id@ == "HIST-"@ + text::ascii_upper(source@) + "-"@
                + records@[k].event_id@ + "-"@ + plan.timestamp.compact_text()
            &&& plan.timestamp.unix_seconds() * 1000 <= now_ms < plan.timestamp.unix_seconds() * 1000
                + 1000
            &&& plan.occurred_at@ == plan.timestamp.rfc3339_text()
        },
{
    lemma_record_index(records@, source@, key@);
    let record = record_with(records@, source@, key@)->0;
    let j = choose|j: int| #[trigger]
        is_first_record(records@, source@, key@, j) && records@[j] == record;
    assert(j == k) by {
        if j < k {
            assert(records@[j].key@ == key@);
        } else if k < j {
            assert(records@[k].key@ == key@);
        }
    }
    let plan = r->Ok_0;
    let event = plan.shared_event->0;
    reveal_strlit("地震预警 ");
    reveal_strlit("原发震时间：");
    assert(event.title@.skip("地震预警 "@.len() as int) =~= record.hypocenter@);
    assert(event.description@.skip("原发震时间："@.len() as int) =~= record.origin_time@);
}

/// A replay without a record is not planned, and a simulation always is: as strong as was asked
/// for, under an identifier that holds the moment, with no event that is shared.
pub proof fn law_what_is_planned(
    now_ms: i64,
    mode: &SimulateMode,
    r: Result<DispatchPlan, HistoryRecordMissing>,
    records: Vec<HistoryRecord<i64>>,
)
    requires
        call_ensures(plan_dispatch, (now_ms, mode), r),
        call_ensures(builtin_major_records, (), records),
    ensures
        *mode matches SimulateMode::NotifyLevel(level) ==> (r matches Ok(plan)
            && plan.notify_level == Some(level) && plan.shared_event is None && plan.source is None
            && plan.key is None && plan.event_id@ == "SIM-"@ + plan.timestamp.compact_text()
            && plan.occurred_at@ == plan.timestamp.rfc3339_text() && plan.timestamp.unix_seconds()
            * 1000 <= now_ms < plan.timestamp.unix_seconds() * 1000 + 1000),
        *mode matches SimulateMode::History { source, key } ==> (r is Err <==> forall|k: int|
            0 <= k < records@.len() ==> (#[trigger] records@[k]).key@ != key@ || text::ascii_lower(
                records@[k].source@,
            ) != text::ascii_lower(source@)),
{
    if let SimulateMode::History { source, key } = *mode {
        lemma_record_index(records@, source@, key@);
        if let Some(record) = record_with(records@, source@, key@) {
            let j = choose|j: int| #[trigger]
                is_first_record(records@, source@, key@, j) && records@[j] == record;
            assert(records@[j].key@ == key@);
        }
    }
}

/// A simulated earthquake lies on the meridian of the first place of the subscription, where and
/// as strong and as deep as it was chosen, is a drill, and is severer the more it shall interrupt.
pub proof fn law_simulation_is_as_chosen<N: Copy>(
    subscription: &Subscription<N>,
    default_rule: &AlertRule<N>,
    level: InterruptionLevel,
    event_id: &str,
    occurred_at: &str,
    hypocenter: SimulatedHypocenter<N>,
    r: Option<DisasterEvent<N>>,
)
    requires
        call_ensures(
            simulated_event::<N>,
            (subscription, default_rule, level, event_id, occurred_at, hypocenter),
            r,
        ),
    ensures
        r is Some <==> subscription.targets@.len() > 0,
        r matches Some(event) ==> {
            &&& event.latitude == Some(hypocenter.latitude)
            &&& event.longitude == Some(subscription.targets@[0].point.longitude)
            &&& event.magnitude == Some(hypocenter.magnitude)
            &&& event.depth_km == Some(hypocenter.depth_km)
            &&& event.event_id@ == event_id@
            &&& event.occurred_at@ == occurred_at@
            &&& event.category == DisasterCategory::EarthquakeWarning
            &&& event.training
            &&& !event.cancel && !event.final_report
            &&& event.radius_km is None
            &&& event.affected_regions@.len() == 0
            &&& level == InterruptionLevel::Passive <==> event.level == 1
            &&& level == InterruptionLevel::Active <==> event.level == 2
            &&& level == InterruptionLevel::Critical <==> event.level == 4
            &&& event.title@ == "地震预警 模拟震源（"@ + level.name()@ + " 测试）"@
        },
{
}

/// What shall interrupt more is simulated stronger: magnitudes of 3.6, 4.6 and 6.2, at twelve and
/// at ten kilometres.
pub proof fn law_simulated_strengths(level: InterruptionLevel, r: (u32, u32))
    requires
        call_ensures(simulation_magnitude, (level,), r),
    ensures
        level == InterruptionLevel::Passive <==> r.0 == 36,
        level == InterruptionLevel::Active <==> r.0 == 46,
        level == InterruptionLevel::Critical <==> r.0 == 62,
        level == InterruptionLevel::Passive ==> r.1 == 120,
        level != InterruptionLevel::Passive ==> r.1 == 100,
{
}

/// The rule of a subscription for a kind of disaster stands in for the default one wherever there
/// is one, and it is the first.
pub proof fn law_own_rule_comes_first<'a, N>(
    subscription: &'a Subscription<N>,
    category: DisasterCategory,
    default_rule: &'a AlertRule<N>,
    r: &'a AlertRule<N>,
    k: int,
)
    requires
        call_ensures(rule_or_default::<N>, (subscription, category, default_rule), r),
    ensures
        models::is_first_about(subscription.alerts@, category, k) ==> *r
            == subscription.alerts@[k],
        (forall|i: int|
            0 <= i < subscription.alerts@.len() ==> (#[trigger] subscription.alerts@[i]).about()
                != category) ==> *r == *default_rule,
{
    models::lemma_first_rule(subscription.alerts@, category);
    if models::is_first_about(subscription.alerts@, category, k) {
        models::lemma_is_first_rule(subscription.alerts@, category, k);
    }
}

/// A test alert comes from a source that its rule takes: the first that it lists and that is
/// registered, if that reports its kind of disaster, and for a rule that takes all a source that
/// reports its kind. Where there is none, it comes from the one that stands in.
pub proof fn law_test_alert_comes_from_a_source_of_the_rule<N>(
    rule: &AlertRule<N>,
    r: (ProviderChannel, String),
    source: source_registry::SourceDefinition,
)
    requires
        call_ensures(event_source::<N>, (rule,), r),
        source_registry::source_list().contains(source),
    ensures
        rule.selection() matches SourceSelection::Include { ids } ==> (ids@.len() > 0 && ids@[0]@
            == source.id@ && source.category == rule.about() ==> r.1@ == source.id@ && r.0
            == source.channel),
        rule.selection() is All && source.category == rule.about() ==> exists|
            s: source_registry::SourceDefinition,
        |
            #[trigger] source_registry::source_list().contains(s) && s.category == rule.about()
                && r.0 == s.channel && r.1@ == s.id@,
        rule.selection() matches SourceSelection::Include { ids } ==> (ids@.len() == 0 ==> r.1@
            == "wolfx.cenc_eew"@ && r.0 == ProviderChannel::Wolfx),
{
    let list = source_registry::source_list();
    let i = choose|i: int| 0 <= i < list.len() && list[i] == source;
    source_registry::law_sources_are_found(i);
    source_registry::law_sources_are_found(2);
    assert(list[2].id == FALLBACK_SOURCE);
    let by_kind = source_registry::reports(rule.about());
    source_registry::lemma_first_source(list, by_kind);
    if rule.selection() is All && source.category == rule.about() {
        assert(by_kind(list[i]));
        let s = source_registry::source_for(rule.about())->0;
        assert(list.contains(s));
    }
}

/// An intensity interrupts as the first band says that it lies in, ends included; where it lies in
/// none, nothing is said.
pub proof fn law_first_band_counts(
    bands: &Vec<IntensityBand>,
    rounded: u8,
    r: Option<InterruptionLevel>,
    k: int,
)
    requires
        call_ensures(find_band_level, (bands, rounded), r),
    ensures
        0 <= k < bands@.len() && bands@[k].min <= rounded <= bands@[k].max && (forall|i: int|
            0 <= i < k ==> rounded < (#[trigger] bands@[i]).min || bands@[i].max < rounded) ==> r
            == Some(bands@[k].interruption_level),
        (forall|i: int|
            0 <= i < bands@.len() ==> rounded < (#[trigger] bands@[i]).min || bands@[i].max
                < rounded) ==> r is None,
{
    if 0 <= k < bands@.len() && bands@[k].min <= rounded <= bands@[k].max && (forall|i: int|
        0 <= i < k ==> rounded < (#[trigger] bands@[i]).min || bands@[i].max < rounded) {
        lemma_first_band(bands@, rounded, k);
    }
    if forall|i: int|
        0 <= i < bands@.len() ==> rounded < (#[trigger] bands@[i]).min || bands@[i].max < rounded {
        lemma_no_band(bands@, rounded);
    }
}

proof fn lemma_first_band(bands: Seq<IntensityBand>, rounded: u8, k: int)
    requires
        0 <= k < bands.len(),
        bands[k].min <= rounded <= bands[k].max,
        forall|i: int|
            0 <= i < k ==> rounded < (#[trigger] bands[i]).min || bands[i].max < rounded,
    ensures
        band_level(bands, rounded) == Some(bands[k].interruption_level),
    decreases bands.len(),
{
    if k > 0 {
        let rest = bands.drop_first();
        assert(rounded < bands[0].min || bands[0].max < rounded);
        assert forall|i: int| 0 <= i < k - 1 implies rounded < (#[trigger] rest[i]).min
            || rest[i].max < rounded by {
            assert(rest[i] == bands[i + 1]);
        }
        lemma_first_band(rest, rounded, k - 1);
    }
}

proof fn lemma_no_band(bands: Seq<IntensityBand>, rounded: u8)
    requires
        forall|i: int|
            0 <= i < bands.len() ==> rounded < (#[trigger] bands[i]).min || bands[i].max < rounded,
    ensures
        band_level(bands, rounded) is None,
    decreases bands.len(),
{
    if bands.len() > 0 {
        let rest = bands.drop_first();
        assert(rounded < bands[0].min || bands[0].max < rounded);
        assert forall|i: int| 0 <= i < rest.len() implies rounded < (#[trigger] rest[i]).min
            || rest[i].max < rounded by {
            assert(rest[i] == bands[i + 1]);
        }
        lemma_no_band(rest, rounded);
    }
}

/// A test alert interrupts as the rule of the subscription says for the intensity at the place, and
/// as was asked for where that rule does not say.
pub proof fn law_rule_decides_the_interruption<N>(
    subscription: &Subscription<N>,
    category: DisasterCategory,
    rounded: Option<u8>,
    requested: InterruptionLevel,
    by_rule: Option<InterruptionLevel>,
    r: InterruptionLevel,
    at: int,
    bands: Vec<IntensityBand>,
    of_band: Option<InterruptionLevel>,
)
    requires
        call_ensures(interruption_for_event::<N>, (subscription, category, rounded), by_rule),
        call_ensures(test_interruption::<N>, (subscription, category, rounded, requested), r),
        rounded matches Some(x) ==> call_ensures(find_band_level, (&bands, x), of_band),
    ensures
        by_rule matches Some(level) ==> r == level,
        by_rule is None ==> r == requested,
        rounded is None ==> by_rule is None,
        models::is_first_about(subscription.alerts@, category, at) && rounded is Some ==> (
        subscription.alerts@[at] matches AlertRule::EarthquakeWarning {
            estimated_intensity_bands,
            ..
        } ==> (estimated_intensity_bands@ == bands@ ==> by_rule == of_band)),
        models::is_first_about(subscription.alerts@, category, at) && !(subscription.alerts@[at]
            is EarthquakeWarning) ==> by_rule is None,
{
    if models::is_first_about(subscription.alerts@, category, at) {
        models::lemma_is_first_rule(subscription.alerts@, category, at);
    }
}

/// The intensity that is aimed at is the greatest of the passive bands, and the least of the
/// critical ones.
pub proof fn law_aim_is_the_end_of_a_band<N>(
    rule: &AlertRule<N>,
    bands: Vec<IntensityBand>,
    passive: u8,
    critical: u8,
    k: int,
)
    requires
        rule.bands() == Some(bands@),
        call_ensures(target_intensity::<N>, (rule, InterruptionLevel::Passive), passive),
        call_ensures(target_intensity::<N>, (rule, InterruptionLevel::Critical), critical),
        0 <= k < bands@.len(),
    ensures
        bands@[k].interruption_level == InterruptionLevel::Passive ==> bands@[k].max <= passive
            && exists|i: int|
            0 <= i < bands@.len() && (#[trigger] bands@[i]).interruption_level
                == InterruptionLevel::Passive && bands@[i].max == passive,
        bands@[k].interruption_level == InterruptionLevel::Critical ==> critical <= bands@[k].min
            && exists|i: int|
            0 <= i < bands@.len() && (#[trigger] bands@[i]).interruption_level
                == InterruptionLevel::Critical && bands@[i].min == critical,
{
    lemma_greatest(bands@, InterruptionLevel::Passive);
    lemma_least(bands@, InterruptionLevel::Passive);
    lemma_greatest(bands@, InterruptionLevel::Critical);
    lemma_least(bands@, InterruptionLevel::Critical);
    match bands@[k].interruption_level {
        InterruptionLevel::Passive => {
            lemma_extremes(bands@, InterruptionLevel::Passive, k);
        },
        InterruptionLevel::Active => {},
        InterruptionLevel::Critical => {
            lemma_extremes(bands@, InterruptionLevel::Critical, k);
        },
    }
}

proof fn lemma_extremes(bands: Seq<IntensityBand>, level: InterruptionLevel, k: int)
    requires
        0 <= k < bands.len(),
        bands[k].interruption_level == level,
    ensures
        least(bands, level) matches Some(min) && min <= bands[k].min,
        greatest(bands, level) matches Some(max) && bands[k].max <= max,
    decreases bands.len(),
{
    let rest = bands.drop_last();
    if k < rest.len() {
        assert(rest[k] == bands[k]);
        lemma_extremes(rest, level, k);
    } else {
        assert(bands.last() == bands[k]);
    }
}

/// A rule with one active band is aimed at in its middle, and a rule without a band of the level
/// that is asked for at one, two or three.
pub proof fn law_aim_without_a_choice<N>(
    rule: &AlertRule<N>,
    level: InterruptionLevel,
    r: u8,
)
    requires
        call_ensures(target_intensity::<N>, (rule, level), r),
    ensures
        level == InterruptionLevel::Active && rule.bands() is Some && rule.bands()->0.len() == 1
            && rule.bands()->0[0].interruption_level == level && rule.bands()->0[0].min
            + rule.bands()->0[0].max <= 255 ==> r == (rule.bands()->0[0].min
            + rule.bands()->0[0].max) / 2,
        rule.bands() is None || (forall|i: int|
            0 <= i < rule.bands()->0.len() ==> (#[trigger] rule.bands()->0[i]).interruption_level
                != level) ==> r == (match level {
            InterruptionLevel::Passive => 1u8,
            InterruptionLevel::Active => 2u8,
            InterruptionLevel::Critical => 3u8,
        }),
{
    if let Some(bands) = rule.bands() {
        lemma_greatest(bands, level);
        lemma_least(bands, level);
        if bands.len() == 1 {
            assert(bands.last() == bands[0]);
            assert(least(bands.drop_last(), level) is None);
            assert(greatest(bands.drop_last(), level) is None);
        }
    }
}

/// The distance that is chosen, counted from one kilometre, is the first with the intensity that is
/// nearest to the one aimed at, if any is within 99 of it.
pub proof fn law_first_best_distance_is_chosen(
    estimates: &Vec<i32>,
    target: u8,
    r: usize,
    k: int,
)
    requires
        call_ensures(simulation_distance_for_intensity, (estimates, target), r),
        0 <= k < estimates@.len(),
        -99 < estimates@[k] - target < 99,
    ensures
        1 <= r <= estimates@.len(),
        ({
            let chosen = estimates@[r - 1] - target;
            let other = estimates@[k] - target;
            let chosen_miss = if chosen < 0 { -chosen } else { chosen };
            let other_miss = if other < 0 { -other } else { other };
            chosen_miss <= other_miss && (k < r - 1 ==> chosen_miss < other_miss)
        }),
{
    lemma_closest(estimates@, target);
    let at = closest(estimates@, target)->0;
    assert(miss(estimates@[at], target) <= miss(estimates@[k], target));
    if k < at {
        assert(miss(estimates@[at], target) < miss(estimates@[k], target));
    }
}

/// The place that a test alert is about is the nearest, and the first of those that are as near;
/// without an epicentre it is the first place, and without places there is none.
pub proof fn law_nearest_place_is_chosen<N>(
    subscription: &Subscription<N>,
    distances: Option<&Vec<u64>>,
    r: Option<usize>,
    k: int,
)
    requires
        call_ensures(nearest_or_first_target::<N>, (subscription, distances), r),
        distances matches Some(d) ==> d@.len() == subscription.targets@.len(),
        0 <= k < subscription.targets@.len(),
    ensures
        r matches Some(at) && at < subscription.targets@.len(),
        distances is None ==> r == Some(0usize),
        distances matches Some(d) ==> d@[r->0 as int] <= d@[k] && (k < r->0 ==> d@[r->0 as int]
            < d@[k]),
{
    if let Some(d) = distances {
        law_nearest_target(d@, k);
    }
}

/// An event occurred when it says, in milliseconds, as far as they reach; a wave arrives as much
/// later as it travels, and one that travels longer not earlier.
pub proof fn law_arrivals(
    seconds: i64,
    now_ms: i64,
    occurred: i64,
    unknown: i64,
    sooner: i64,
    longer: i64,
    first: i64,
    second: i64,
    at_once: i64,
)
    requires
        call_ensures(occurred_at_ms, (Some(seconds), now_ms), occurred),
        call_ensures(occurred_at_ms, (None, now_ms), unknown),
        sooner <= longer,
        call_ensures(arrival_at, (occurred, Some(sooner)), first),
        call_ensures(arrival_at, (occurred, Some(longer)), second),
        call_ensures(arrival_at, (occurred, None), at_once),
    ensures
        -9_000_000_000_000_000 <= seconds <= 9_000_000_000_000_000 ==> occurred == seconds * 1000,
        unknown == now_ms,
        at_once == occurred,
        first <= second,
        -4_000_000_000_000_000_000 <= occurred <= 4_000_000_000_000_000_000
            && -4_000_000_000_000_000_000 <= sooner <= 4_000_000_000_000_000_000 ==> first
            == occurred + sooner,
{
}

/// What is listed of an earthquake of the past is what the catalogue says in the field of the same
/// name, and what it would mean at a place is what was measured for it.
pub proof fn law_listed_record_is_the_record<N: Copy>(
    records: &Vec<HistoryRecord<N>>,
    subscription: Option<&Subscription<N>>,
    measured: &Vec<Option<HistoryPreview<N>>>,
    r: Vec<HistoryRecordView<N>>,
    i: int,
)
    requires
        call_ensures(history_views::<N>, (records, subscription, measured), r),
        measured@.len() == records@.len(),
        0 <= i < records@.len(),
    ensures
        r@.len() == records@.len(),
        r@[i].source@ == records@[i].source@,
        r@[i].key@ == records@[i].key@,
        r@[i].event_id@ == records@[i].event_id@,
        r@[i].origin_time@ == records@[i].origin_time@,
        r@[i].hypocenter@ == records@[i].hypocenter@,
        r@[i].latitude == records@[i].latitude,
        r@[i].longitude == records@[i].longitude,
        r@[i].magnitude == records@[i].magnitude,
        r@[i].depth_km == records@[i].depth_km,
        r@[i].max_intensity@ == records@[i].max_intensity@,
        r@[i].note@ == records@[i].note@,
        subscription is None || subscription->0.targets@.len() == 0 || measured@[i] is None ==> {
            &&& r@[i].distance_km is None
            &&& r@[i].hypocentral_km is None
            &&& r@[i].estimated_intensity is None
        },
        subscription is Some && subscription->0.targets@.len() > 0 ==> (measured@[i] matches Some(
            preview,
        ) ==> {
            &&& r@[i].distance_km == Some(preview.distance_km)
            &&& r@[i].hypocentral_km == Some(preview.hypocentral_km)
            &&& r@[i].estimated_intensity == Some(preview.estimated_intensity)
        }),
{
    assert(r@[i].shows(records@[i], shown_preview(subscription, measured@[i])));
}

// ---------------------------------------------------------------------------
// Whom a test alert goes to
// ---------------------------------------------------------------------------
/// A list of devices is accepted exactly where it names one to thirty-two, and each of them, without
/// the white space around it, is a key of one to sixty-four ASCII letters and digits.
pub proof fn law_which_lists_are_accepted(list: Vec<String>, r: Result<Vec<String>, DeviceListError>)
    requires
        call_ensures(require_device_keys, (Some(list),), r),
    ensures
        r is Ok <==> 1 <= list@.len() <= 32 && forall|i: int|
            0 <= i < list@.len() ==> device_key::is_device_key(
                text::trimmed(#[trigger] list@[i]@),
            ),
        list@.len() == 0 <==> r == Err::<Vec<String>, DeviceListError>(DeviceListError::Empty),
        list@.len() > 32 <==> r == Err::<Vec<String>, DeviceListError>(DeviceListError::TooMany),
{
    let all = trimmed_texts(list@);
    if all_device_keys(all) {
        assert forall|i: int| 0 <= i < list@.len() implies device_key::is_device_key(
            text::trimmed(#[trigger] list@[i]@),
        ) by {
            assert(all[i] == text::trimmed(list@[i]@));
        }
    } else {
        let i = choose|i: int|
            0 <= i < all.len() && !device_key::is_device_key(#[trigger] all[i]);
        assert(all[i] == text::trimmed(list@[i]@));
    }
}

/// A test alert goes to every device of the list and to no other, to each once, and first to the
/// one that is listed first.
pub proof fn law_every_listed_device_is_reached(
    list: Vec<String>,
    r: Result<Vec<String>, DeviceListError>,
    i: int,
    k: int,
)
    requires
        call_ensures(require_device_keys, (Some(list),), r),
        r is Ok,
        0 <= i < list@.len(),
        0 <= k < r->Ok_0@.len(),
    ensures
        exists|j: int|
            0 <= j < r->Ok_0@.len() && #[trigger] r->Ok_0@[j]@ == text::trimmed(list@[i]@),
        exists|j: int|
            0 <= j < list@.len() && text::trimmed(#[trigger] list@[j]@) == r->Ok_0@[k]@,
        forall|j: int|
            0 <= j < r->Ok_0@.len() && j != k ==> #[trigger] r->Ok_0@[j]@ != r->Ok_0@[k]@,
        r->Ok_0@[0]@ == text::trimmed(list@[0]@),
        r->Ok_0@.len() <= list@.len(),
{
    let keys = r->Ok_0@;
    let all = trimmed_texts(list@);
    let kept = distinct(all);
    assert(text::texts(keys) == kept);
    lemma_distinct(all);
    lemma_first_stays_first(all);
    assert(all[i] == text::trimmed(list@[i]@));
    assert(all.contains(all[i]));
    assert(kept.contains(all[i]));
    let j = choose|j: int| 0 <= j < kept.len() && kept[j] == all[i];
    assert(text::texts(keys)[j] == keys[j]@);
    assert(text::texts(keys)[k] == keys[k]@);
    assert(kept.contains(kept[k]));
    assert(all.contains(kept[k]));
    let m = choose|m: int| 0 <= m < all.len() && all[m] == kept[k];
    assert(all[m] == text::trimmed(list@[m]@));
    assert forall|j: int| 0 <= j < keys.len() && j != k implies #[trigger] keys[j]@ != keys[k]@ by {
        assert(text::texts(keys)[j] == keys[j]@);
        assert(kept[j] != kept[k]);
    }
    assert(text::texts(keys)[0] == keys[0]@);
    assert(all[0] == text::trimmed(list@[0]@));
}

proof fn lemma_first_stays_first(list: Seq<Seq<char>>)
    requires
        list.len() > 0,
    ensures
        distinct(list).len() > 0,
        distinct(list)[0] == list[0],
    decreases list.len(),
{
    let rest = list.drop_last();
    if rest.len() > 0 {
        lemma_first_stays_first(rest);
        assert(rest[0] == list[0]);
    } else {
        assert(distinct(rest).len() == 0);
        assert(!distinct(rest).contains(list.last()));
        assert(distinct(list) =~= seq![list.last()]);
    }
}

/// Devices stay in the order in which they are first listed.
pub proof fn law_devices_stay_in_order(
    list: Vec<String>,
    longer: Vec<String>,
    r: Result<Vec<String>, DeviceListError>,
    of_longer: Result<Vec<String>, DeviceListError>,
)
    requires
        call_ensures(require_device_keys, (Some(list),), r),
        call_ensures(require_device_keys, (Some(longer),), of_longer),
        r is Ok,
        of_longer is Ok,
        longer@.len() == list@.len() + 1,
        longer@.drop_last() == list@,
    ensures
        r->Ok_0@.len() <= of_longer->Ok_0@.len() <= r->Ok_0@.len() + 1,
        forall|j: int|
            0 <= j < r->Ok_0@.len() ==> #[trigger] of_longer->Ok_0@[j]@ == r->Ok_0@[j]@,
        of_longer->Ok_0@.len() > r->Ok_0@.len() ==> of_longer->Ok_0@.last()@ == text::trimmed(
            longer@.last()@,
        ),
{
    let a = trimmed_texts(list@);
    let b = trimmed_texts(longer@);
    assert(b.drop_last() =~= a);
    let short = r->Ok_0@;
    let long = of_longer->Ok_0@;
    assert(text::texts(short).len() == short.len());
    assert(text::texts(long).len() == long.len());
    assert forall|j: int| 0 <= j < short.len() implies #[trigger] long[j]@ == short[j]@ by {
        assert(text::texts(long)[j] == long[j]@);
        assert(text::texts(short)[j] == short[j]@);
        assert(distinct(b)[j] == distinct(a)[j]);
    }
    if long.len() > short.len() {
        assert(text::texts(long)[long.len() - 1] == long.last()@);
        assert(b.last() == text::trimmed(longer@.last()@));
    }
}

/// Without a list nothing is sent where a list is needed, and to the device that asks where it is
/// not.
pub proof fn law_without_a_list(
    bearer_key: &str,
    needed: Result<Vec<String>, DeviceListError>,
    optional: Result<Vec<String>, DeviceListError>,
    list: Vec<String>,
    listed: Result<Vec<String>, DeviceListError>,
    also_listed: Result<Vec<String>, DeviceListError>,
)
    requires
        call_ensures(require_device_keys, (None,), needed),
        call_ensures(resolve_device_keys, (bearer_key, None), optional),
        call_ensures(require_device_keys, (Some(list),), listed),
        call_ensures(resolve_device_keys, (bearer_key, Some(list)), also_listed),
    ensures
        needed == Err::<Vec<String>, DeviceListError>(DeviceListError::Missing),
        optional matches Ok(keys) && keys@.len() == 1 && keys@[0]@ == bearer_key@,
        listed is Ok <==> also_listed is Ok,
        listed matches Ok(a) ==> (also_listed matches Ok(b) && text::texts(a@) == text::texts(b@)),
{
    let keys = optional->Ok_0;
    assert(text::texts(keys@).len() == keys@.len());
    assert(text::texts(keys@)[0] == keys@[0]@);
}

/// For each device there is one thing to do for each of its subscriptions, and for a device without
/// any one that says so; there is nothing else to do.
pub proof fn law_every_subscription_is_served(
    plan: &DispatchPlan,
    counts: &Vec<usize>,
    r: Vec<DispatchItem>,
    device: int,
    subscription: int,
)
    requires
        call_ensures(dispatch_items, (plan, counts), r),
        0 <= device < counts@.len(),
    ensures
        0 <= subscription < counts@[device] ==> exists|i: int|
            0 <= i < r@.len() && #[trigger] is_for(r@[i], device, Some(subscription)),
        counts@[device] == 0 ==> exists|i: int|
            0 <= i < r@.len() && #[trigger] is_for(r@[i], device, None),
        r@.len() == items_needed(counts@),
        forall|i: int|
            0 <= i < r@.len() ==> match #[trigger] r@[i] {
                DispatchItem::Missing { device } => device < counts@.len()
                    && counts@[device as int] == 0,
                DispatchItem::Send { device, subscription, .. } => device < counts@.len()
                    && subscription < counts@[device as int],
            },
{
    let id = plan.event_id@;
    let shared = plan.shared_event is Some;
    let all = all_items(id, shared, counts@);
    lemma_items(id, shared, counts@, device, subscription);
    assert(item_models(r@).len() == r@.len());
    if 0 <= subscription < counts@[device] {
        let i = choose|i: int|
            0 <= i < all.len() && #[trigger] is_model_for(all[i], device, Some(subscription));
        assert(item_models(r@)[i] == r@[i]@);
        assert(is_for(r@[i], device, Some(subscription)));
    }
    if counts@[device] == 0 {
        let i = choose|i: int|
            0 <= i < all.len() && #[trigger] is_model_for(all[i], device, None);
        assert(item_models(r@)[i] == r@[i]@);
        assert(is_for(r@[i], device, None));
    }
    assert forall|i: int| 0 <= i < r@.len() implies match #[trigger] r@[i] {
        DispatchItem::Missing { device } => device < counts@.len() && counts@[device as int] == 0,
        DispatchItem::Send { device, subscription, .. } => device < counts@.len() && subscription
            < counts@[device as int],
    } by {
        assert(item_models(r@)[i] == r@[i]@);
        assert(is_valid_item(all[i], counts@));
    }
}

/// Whether a thing to do is for a device and one of its subscriptions, or for one without any.
pub open spec fn is_for(item: DispatchItem, device: int, subscription: Option<int>) -> bool {
    match item {
        DispatchItem::Missing { device: d } => d == device && subscription is None,
        DispatchItem::Send { device: d, subscription: s, .. } => d == device && subscription
            == Some(s as int),
    }
}

spec fn is_model_for(item: ItemModel, device: int, subscription: Option<int>) -> bool {
    match item {
        ItemModel::Missing { device: d } => d == device && subscription is None,
        ItemModel::Send { device: d, subscription: s, .. } => d == device && subscription == Some(
            s,
        ),
    }
}

spec fn is_valid_item(item: ItemModel, counts: Seq<usize>) -> bool {
    match item {
        ItemModel::Missing { device } => 0 <= device < counts.len() && counts[device] == 0,
        ItemModel::Send { device, subscription, .. } => 0 <= device < counts.len() && 0
            <= subscription < counts[device],
    }
}

/// How much there is to do: one thing for each subscription, and one for each device without any.
pub open spec fn items_needed(counts: Seq<usize>) -> nat
    decreases counts.len(),
{
    if counts.len() == 0 {
        0
    } else {
        items_needed(counts.drop_last()) + (if counts.last() == 0 {
            1
        } else {
            counts.last() as nat
        })
    }
}

proof fn lemma_items(
    id: Seq<char>,
    shared: bool,
    counts: Seq<usize>,
    device: int,
    subscription: int,
)
    ensures
        all_items(id, shared, counts).len() == items_needed(counts),
        forall|i: int|
            0 <= i < all_items(id, shared, counts).len() ==> is_valid_item(
                #[trigger] all_items(id, shared, counts)[i],
                counts,
            ),
        0 <= device < counts.len() && 0 <= subscription < counts[device] ==> exists|i: int|
            0 <= i < all_items(id, shared, counts).len() && #[trigger] is_model_for(
                all_items(id, shared, counts)[i],
                device,
                Some(subscription),
            ),
        0 <= device < counts.len() && counts[device] == 0 ==> exists|i: int|
            0 <= i < all_items(id, shared, counts).len() && #[trigger] is_model_for(
                all_items(id, shared, counts)[i],
                device,
                None,
            ),
    decreases counts.len(),
{
    if counts.len() > 0 {
        let rest = counts.drop_last();
        let before = all_items(id, shared, rest);
        let last = counts.len() - 1;
        let more = device_items(id, shared, last, counts.last() as int);
        let all = all_items(id, shared, counts);
        lemma_items(id, shared, rest, device, subscription);
        assert(all == before + more);
        assert forall|i: int| 0 <= i < all.len() implies is_valid_item(#[trigger] all[i], counts) by {
            if i < before.len() {
                assert(all[i] == before[i]);
                assert(is_valid_item(before[i], rest));
            } else {
                assert(all[i] == more[i - before.len()]);
            }
        }
        if 0 <= device < last {
            assert(rest[device] == counts[device]);
            if 0 <= subscription < counts[device] {
                let i = choose|i: int|
                    0 <= i < before.len() && #[trigger] is_model_for(
                        before[i],
                        device,
                        Some(subscription),
                    );
                assert(all[i] == before[i]);
                assert(is_model_for(all[i], device, Some(subscription)));
            }
            if counts[device] == 0 {
                let i = choose|i: int|
                    0 <= i < before.len() && #[trigger] is_model_for(before[i], device, None);
                assert(all[i] == before[i]);
                assert(is_model_for(all[i], device, None));
            }
        } else if device == last {
            if 0 <= subscription < counts[device] {
                let i = before.len() + subscription;
                assert(all[i] == more[subscription]);
                assert(is_model_for(all[i], device, Some(subscription)));
            }
            if counts[device] == 0 {
                let i = before.len() as int;
                assert(all[i] == more[0]);
                assert(is_model_for(all[i], device, None));
            }
        }
    }
}

/// What goes to one device goes under one identifier: that of the alert for a replay and for the
/// first device, and for every other that of the alert with the number of the device behind it.
pub proof fn law_devices_get_their_identifiers(
    plan: &DispatchPlan,
    counts: &Vec<usize>,
    r: Vec<DispatchItem>,
    i: int,
)
    requires
        call_ensures(dispatch_items, (plan, counts), r),
        0 <= i < r@.len(),
    ensures
        r@[i] matches DispatchItem::Send { device, event_id, .. } ==> {
            &&& plan.shared_event is Some || device == 0 ==> event_id@ == plan.event_id@
            &&& plan.shared_event is None && device > 0 ==> event_id@ == plan.event_id@ + seq!['-']
                + text::decimal(device as nat)
        },
{
    reveal_strlit("-");
    assert("-"@ =~= seq!['-']);
    lemma_item_ids(plan.event_id@, plan.shared_event is Some, counts@);
    assert(item_models(r@)[i] == r@[i]@);
}

proof fn lemma_item_ids(id: Seq<char>, shared: bool, counts: Seq<usize>)
    ensures
        forall|i: int|
            0 <= i < all_items(id, shared, counts).len() ==> (#[trigger] all_items(
                id,
                shared,
                counts,
            )[i] matches ItemModel::Send { device, event_id, .. } ==> device >= 0 && event_id
                == device_event_id(id, shared, device)),
    decreases counts.len(),
{
    if counts.len() > 0 {
        let before = all_items(id, shared, counts.drop_last());
        let more = device_items(id, shared, counts.len() - 1, counts.last() as int);
        lemma_item_ids(id, shared, counts.drop_last());
        assert forall|i: int| 0 <= i < all_items(id, shared, counts).len() implies (
        #[trigger] all_items(id, shared, counts)[i] matches ItemModel::Send { device, event_id, .. }
            ==> device >= 0 && event_id == device_event_id(id, shared, device)) by {
            if i < before.len() {
                assert(all_items(id, shared, counts)[i] == before[i]);
            } else {
                assert(all_items(id, shared, counts)[i] == more[i - before.len()]);
            }
        }
    }
}

/// Devices are served in the order of the list, and the subscriptions of a device in theirs.
pub proof fn law_devices_are_served_in_order(
    plan: &DispatchPlan,
    counts: &Vec<usize>,
    r: Vec<DispatchItem>,
    i: int,
    j: int,
)
    requires
        call_ensures(dispatch_items, (plan, counts), r),
        0 <= i < j < r@.len(),
    ensures
        device_of(r@[i]) <= device_of(r@[j]),
        r@[i] matches DispatchItem::Send { device: a, subscription: first, .. } ==> (r@[j] matches
            DispatchItem::Send { device: b, subscription: second, .. } ==> (a == b ==> first
            < second)),
{
    lemma_items_in_order(plan.event_id@, plan.shared_event is Some, counts@, i, j);
    assert(item_models(r@)[i] == r@[i]@);
    assert(item_models(r@)[j] == r@[j]@);
}

/// The device that a thing to do is for.
pub open spec fn device_of(item: DispatchItem) -> usize {
    match item {
        DispatchItem::Missing { device } => device,
        DispatchItem::Send { device, .. } => device,
    }
}

spec fn model_device(item: ItemModel) -> int {
    match item {
        ItemModel::Missing { device } => device,
        ItemModel::Send { device, .. } => device,
    }
}

proof fn lemma_items_in_order(id: Seq<char>, shared: bool, counts: Seq<usize>, i: int, j: int)
    requires
        0 <= i < j < all_items(id, shared, counts).len(),
    ensures
        ({
            let a = all_items(id, shared, counts)[i];
            let b = all_items(id, shared, counts)[j];
            &&& model_device(a) <= model_device(b)
            &&& a matches ItemModel::Send { device: x, subscription: first, .. } ==> (b matches
                ItemModel::Send { device: y, subscription: second, .. } ==> (x == y ==> first
                < second))
        }),
    decreases counts.len(),
{
    if counts.len() > 0 {
        let rest = counts.drop_last();
        let before = all_items(id, shared, rest);
        let more = device_items(id, shared, counts.len() - 1, counts.last() as int);
        let all = all_items(id, shared, counts);
        assert(all == before + more);
        if j < before.len() {
            lemma_items_in_order(id, shared, rest, i, j);
            assert(all[i] == before[i] && all[j] == before[j]);
        } else if i < before.len() {
            lemma_items(id, shared, rest, 0, 0);
            assert(all[i] == before[i]);
            assert(is_valid_item(before[i], rest));
            assert(all[j] == more[j - before.len()]);
        } else {
            assert(all[i] == more[i - before.len()]);
            assert(all[j] == more[j - before.len()]);
        }
    }
}

/// A link that was prepared is stored and then sent, the same one all the way, and then sending is
/// done; whatever fails on the way ends it.
pub proof fn law_sending_runs_to_its_end<P>(
    link: P,
    start: SendStep<P>,
    storing: SendStep<P>,
    sending: SendStep<P>,
    done: SendStep<P>,
    nowhere: SendStep<P>,
    unprepared: SendStep<P>,
    unstored: SendStep<P>,
    unsent: SendStep<P>,
)
    requires
        call_ensures(start_send::<P>, (true,), start),
        call_ensures(start_send::<P>, (false,), nowhere),
        start is Wait,
        call_ensures(
            advance_send::<P>,
            (start->Wait_0, SendEvent::Prepared(Some(link))),
            storing,
        ),
        call_ensures(advance_send::<P>, (start->Wait_0, SendEvent::Prepared(None)), unprepared),
        storing is Wait,
        call_ensures(advance_send::<P>, (storing->Wait_0, SendEvent::Stored(true)), sending),
        call_ensures(advance_send::<P>, (storing->Wait_0, SendEvent::Stored(false)), unstored),
        sending is Wait,
        call_ensures(advance_send::<P>, (sending->Wait_0, SendEvent::Sent(true)), done),
        call_ensures(advance_send::<P>, (sending->Wait_0, SendEvent::Sent(false)), unsent),
    ensures
        start->Wait_0 is Preparing,
        storing->Wait_0 == (SendState::Storing { link }),
        sending->Wait_0 == (SendState::Sending { link }),
        done is Done,
        nowhere is Failed,
        unprepared is Failed,
        unstored is Failed,
        unsent is Failed,
{
}

/// Sending always begins by preparing a link where there is a place, and nowhere else.
pub proof fn law_sending_needs_a_place<P>(has_target: bool, r: SendStep<P>)
    requires
        call_ensures(start_send::<P>, (has_target,), r),
    ensures
        r is Wait <==> has_target,
        r is Failed <==> !has_target,
        r matches SendStep::Wait(state) ==> state is Preparing,
{
}

/// What did not come in its turn changes nothing.
pub proof fn law_other_events_change_nothing<P>(
    state: SendState<P>,
    event: SendEvent<P>,
    r: SendStep<P>,
)
    requires
        call_ensures(advance_send::<P>, (state, event), r),
        !(state is Preparing && event is Prepared),
        !(state is Storing && event is Stored),
        !(state is Sending && event is Sent),
    ensures
        r == SendStep::Wait(state),
{
}

/// Only an event that was made and sent for a subscription counts as pushed; everything else
/// counts as skipped.
pub proof fn law_what_counts_as_pushed(item: &DispatchItem, made: bool, sent: bool, r: SendResult)
    requires
        call_ensures(send_result, (item, made, sent), r),
    ensures
        (item is Send) && made && sent ==> r == SendResult::Pushed,
        (item is Missing) || !made || !sent ==> r == SendResult::Skipped,
{
}

/// One more thing that was pushed makes the count of pushed ones greater by one and leaves that of
/// skipped ones, and the other way round.
pub proof fn law_each_result_counts_once(
    plan: DispatchPlan,
    results: &Vec<SendResult>,
    more: &Vec<SendResult>,
    before: SimulateOutcome,
    after: SimulateOutcome,
)
    requires
        call_ensures(dispatch_outcome, (plan, results), before),
        call_ensures(dispatch_outcome, (plan, more), after),
        more@.len() == results@.len() + 1,
        more@.drop_last() == results@,
        results@.len() < u32::MAX,
    ensures
        more@.last() == SendResult::Pushed ==> after.pushed == before.pushed + 1 && after.skipped
            == before.skipped,
        more@.last() == SendResult::Skipped ==> after.skipped == before.skipped + 1 && after.pushed
            == before.pushed,
        before.pushed + before.skipped == results@.len(),
{
    lemma_counted(results@);
    lemma_counted(more@);
}

/// What came of a test alert is told under the identifier, the level, the catalogue and the key of
/// the alert.
pub proof fn law_outcome_is_that_of_the_plan(
    plan: DispatchPlan,
    results: &Vec<SendResult>,
    r: SimulateOutcome,
)
    requires
        call_ensures(dispatch_outcome, (plan, results), r),
    ensures
        r.event_id@ == plan.event_id@,
        r.source == plan.source,
        r.key == plan.key,
        !r.temporary,
        plan.notify_level is None <==> r.notify_level is None,
        plan.notify_level == Some(InterruptionLevel::Passive) ==> r.notify_level->0@ == "passive"@,
        plan.notify_level == Some(InterruptionLevel::Active) ==> r.notify_level->0@ == "active"@,
        plan.notify_level == Some(InterruptionLevel::Critical) ==> r.notify_level->0@
            == "critical"@,
        results@.len() == 0 ==> r.pushed == 0 && r.skipped == 0,
{
}

/// An alert interrupts as was asked for, and actively where nobody asked.
pub proof fn law_requested_level(plan: &DispatchPlan, r: InterruptionLevel)
    requires
        call_ensures(DispatchPlan::requested_level, (plan,), r),
    ensures
        plan.notify_level matches Some(level) ==> r == level,
        plan.notify_level is None ==> r == InterruptionLevel::Active,
{
}

/// A simulated earthquake comes from the source of the rule of the subscription, or from that of the
/// rule that stands in for it.
pub proof fn law_simulation_comes_from_the_source_of_the_rule<N: Copy>(
    subscription: &Subscription<N>,
    default_rule: &AlertRule<N>,
    level: InterruptionLevel,
    event_id: &str,
    occurred_at: &str,
    hypocenter: SimulatedHypocenter<N>,
    r: Option<DisasterEvent<N>>,
    rule: &AlertRule<N>,
    of_rule: (ProviderChannel, String),
)
    requires
        call_ensures(
            simulated_event::<N>,
            (subscription, default_rule, level, event_id, occurred_at, hypocenter),
            r,
        ),
        call_ensures(
            rule_or_default::<N>,
            (subscription, DisasterCategory::EarthquakeWarning, default_rule),
            rule,
        ),
        call_ensures(event_source::<N>, (rule,), of_rule),
    ensures
        r matches Some(event) ==> event.channel == of_rule.0 && event.source@ == of_rule.1@
            && event.revision@ == "1"@ && event.report_num == 1 && event.description@.len() == 0,
{
}

/// The intensity that is aimed at is in the middle of the active bands, between the least and the
/// greatest of them; where their sum is too great for the numbers that hold intensities, it is half
/// of the greatest such number.
pub proof fn law_aim_is_in_the_middle_of_active_bands<N>(
    rule: &AlertRule<N>,
    bands: Vec<IntensityBand>,
    active: u8,
    k: int,
)
    requires
        rule.bands() == Some(bands@),
        call_ensures(target_intensity::<N>, (rule, InterruptionLevel::Active), active),
        0 <= k < bands@.len(),
        bands@[k].interruption_level == InterruptionLevel::Active,
    ensures
        exists|i: int, j: int|
            {
                &&& 0 <= i < bands@.len()
                &&& 0 <= j < bands@.len()
                &&& (#[trigger] bands@[i]).interruption_level == InterruptionLevel::Active
                &&& (#[trigger] bands@[j]).interruption_level == InterruptionLevel::Active
                &&& bands@[i].min <= bands@[k].min
                &&& bands@[k].max <= bands@[j].max
                &&& bands@[i].min + bands@[j].max <= 255 ==> 2 * active <= bands@[i].min
                    + bands@[j].max <= 2 * active + 1
                &&& bands@[i].min + bands@[j].max > 255 ==> active == 127
            },
{
    let level = InterruptionLevel::Active;
    lemma_greatest(bands@, level);
    lemma_least(bands@, level);
    lemma_extremes(bands@, level, k);
    let i = choose|i: int|
        0 <= i < bands@.len() && (#[trigger] bands@[i]).interruption_level == level && bands@[i].min
            == least(bands@, level)->0;
    let j = choose|j: int|
        0 <= j < bands@.len() && (#[trigger] bands@[j]).interruption_level == level && bands@[j].max
            == greatest(bands@, level)->0;
    assert(bands@[i].interruption_level == level && bands@[j].interruption_level == level);
}

/// Where no distance comes within 99 of the intensity that is aimed at, one kilometre is chosen.
pub proof fn law_no_distance_is_close(estimates: &Vec<i32>, target: u8, r: usize)
    requires
        call_ensures(simulation_distance_for_intensity, (estimates, target), r),
        forall|k: int|
            0 <= k < estimates@.len() ==> !(-99 < #[trigger] estimates@[k] - target < 99),
    ensures
        r == 1,
{
    lemma_closest(estimates@, target);
    if let Some(at) = closest(estimates@, target) {
        assert(!(-99 < estimates@[at] - target < 99));
    }
}

/// Of the sources that a rule lists the first that is registered counts, whatever comes before it
/// that is not; a test alert comes from it if it reports what the rule is about, and else from the
/// source that stands in. A rule for all sources takes the first that reports what it is about.
pub proof fn law_first_registered_source_counts<N>(
    rule: &AlertRule<N>,
    r: (ProviderChannel, String),
    ids: Vec<String>,
    k: int,
    listed: Vec<source_registry::SourceDefinition>,
    at: int,
)
    requires
        call_ensures(event_source::<N>, (rule,), r),
        call_ensures(source_registry::sources, (), listed),
        0 <= at < listed@.len(),
        rule.selection() matches SourceSelection::Include { ids: given } ==> {
            &&& given == ids
            &&& 0 <= k < ids@.len()
            &&& ids@[k]@ == listed@[at].id@
            &&& forall|i: int, j: int|
                0 <= i < k && 0 <= j < listed@.len() ==> #[trigger] ids@[i]@
                    != #[trigger] listed@[j].id@
        },
        rule.selection() is All ==> listed@[at].category == rule.about() && forall|j: int|
            0 <= j < at ==> (#[trigger] listed@[j]).category != rule.about(),
    ensures
        listed@[at].category == rule.about() ==> r.0 == listed@[at].channel && r.1@
            == listed@[at].id@,
        listed@[at].category != rule.about() ==> r.0 == ProviderChannel::Wolfx && r.1@
            == "wolfx.cenc_eew"@,
{
    let list = source_registry::source_list();
    source_registry::law_sources_are_found(2);
    assert(list[2].id@ == "wolfx.cenc_eew"@);
    source_registry::law_sources_are_found(at);
    match rule.selection() {
        SourceSelection::All => {
            source_registry::lemma_is_first_source(
                list,
                source_registry::reports(rule.about()),
                at,
            );
        },
        SourceSelection::Include { ids: given } => {
            lemma_first_registered(ids@, k);
        },
    }
}

proof fn lemma_first_registered(ids: Seq<String>, k: int)
    requires
        0 <= k < ids.len(),
        source_registry::source_with_id(ids[k]@) is Some,
        forall|i: int, j: int|
            0 <= i < k && 0 <= j < source_registry::source_list().len() ==> #[trigger] ids[i]@
                != #[trigger] source_registry::source_list()[j].id@,
    ensures
        first_known(ids) == source_registry::source_with_id(ids[k]@),
    decreases ids.len(),
{
    if k > 0 {
        let rest = ids.drop_first();
        source_registry::law_found_source_has_the_id(ids[0]@);
        if let Some(s) = source_registry::source_with_id(ids[0]@) {
            let list = source_registry::source_list();
            let j = choose|j: int| 0 <= j < list.len() && list[j] == s;
            assert(ids[0]@ != list[j].id@);
        }
        assert forall|i: int, j: int|
            0 <= i < k - 1 && 0 <= j < source_registry::source_list().len() implies #[trigger] rest[i]@
            != #[trigger] source_registry::source_list()[j].id@ by {
            assert(rest[i] == ids[i + 1]);
        }
        lemma_first_registered(rest, k - 1);
    }
}

} // verus!
