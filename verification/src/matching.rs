//! Whether a report of a disaster concerns a subscription.
//!
//! Distances, magnitudes and intensities are measured elsewhere. Distances are handed over as
//! numbers that order them.
use crate::models::{
    self, AlertRule, DisasterCategory, DisasterEvent, InterruptionLevel, SourceSelection,
    Subscription,
};
use crate::simulate;
use crate::source_registry::{self, SourceDefinition};
use crate::text;
use vstd::prelude::*;

verus! {

/// Which place of a subscription a report concerns, and how.
#[derive(Debug, Clone, Copy, PartialEq, Eq, Structural)]
pub struct ReferenceMatch {
    pub target_ordinal: u8,
    /// 1 for a place within a distance, 2 for a place in an affected region.
    pub match_kind: u8,
    pub interruption_level: InterruptionLevel,
}

/// What was measured between a report and one place.
#[derive(Debug)]
pub struct TargetMeasure {
    /// The normalised names of the province, the city and the district.
    pub regions: Vec<String>,
    /// How far the place is, where the report has coordinates.
    pub distance: Option<u64>,
    /// The rounded intensity at the place, where the report has a magnitude.
    pub intensity: Option<u8>,
}

/// What was measured between a report and a subscription.
#[derive(Debug)]
pub struct EventMeasure {
    /// The normalised names of the affected regions.
    pub regions: Vec<String>,
    /// Whether the magnitude is at least the one that the rule asks for.
    pub magnitude_met: bool,
    /// The greatest distance of the rule; `None` where nothing is near enough.
    pub distance_limit: Option<u64>,
    pub targets: Vec<TargetMeasure>,
}

/// Whether a rule takes reports of a source.
pub open spec fn takes_source(selection: SourceSelection, source: Seq<char>) -> bool {
    match selection {
        SourceSelection::All => true,
        SourceSelection::Include { ids } => text::texts(ids@).contains(source),
    }
}

pub fn source_matches(selection: &SourceSelection, source: &str) -> (r: bool)
    ensures
        r == takes_source(*selection, source@),
{
    match selection {
        SourceSelection::All => true,
        SourceSelection::Include { ids } => text::contains_text(ids, source),
    }
}

/// Whether a report is strong enough for a rule.
pub open spec fn is_strong_enough<N>(rule: AlertRule<N>, level: u8, magnitude_met: bool) -> bool {
    match rule {
        AlertRule::EarthquakeWarning { .. } | AlertRule::Typhoon { .. } => true,
        AlertRule::EarthquakeReport { .. } => magnitude_met,
        AlertRule::WeatherWarning { min_severity, .. } | AlertRule::Tsunami {
            min_severity,
            ..
        } => level >= min_severity,
    }
}

pub fn threshold_matches<N>(rule: &AlertRule<N>, level: u8, magnitude_met: bool) -> (r: bool)
    ensures
        r == is_strong_enough(*rule, level, magnitude_met),
{
    match rule {
        AlertRule::EarthquakeWarning { .. } | AlertRule::Typhoon { .. } => true,
        AlertRule::EarthquakeReport { .. } => magnitude_met,
        AlertRule::WeatherWarning { min_severity, .. } | AlertRule::Tsunami {
            min_severity,
            ..
        } => level >= *min_severity,
    }
}

/// How a severity interrupts.
pub open spec fn severity_level(level: u8) -> InterruptionLevel {
    if level >= 3 {
        InterruptionLevel::Critical
    } else if level >= 2 {
        InterruptionLevel::Active
    } else {
        InterruptionLevel::Passive
    }
}

pub fn bark_level(level: u8) -> (r: InterruptionLevel)
    ensures
        r == severity_level(level),
{
    if level >= 3 {
        InterruptionLevel::Critical
    } else if level >= 2 {
        InterruptionLevel::Active
    } else {
        InterruptionLevel::Passive
    }
}

/// Whether a place lies in an affected region: some name of it is the name of one, and not empty.
pub open spec fn is_affected(event_regions: Seq<String>, target_regions: Seq<String>) -> bool {
    exists|i: int|
        0 <= i < target_regions.len() && (#[trigger] target_regions[i])@.len() > 0 && text::texts(
            event_regions,
        ).contains(target_regions[i]@)
}

fn lies_in_affected_region(event_regions: &Vec<String>, target_regions: &Vec<String>) -> (r: bool)
    ensures
        r == is_affected(event_regions@, target_regions@),
{
    let mut i: usize = 0;
    while i < target_regions.len()
        invariant
            i <= target_regions@.len(),
            forall|k: int|
                0 <= k < i ==> (#[trigger] target_regions@[k])@.len() == 0 || !text::texts(
                    event_regions@,
                ).contains(target_regions@[k]@),
        decreases target_regions@.len() - i,
    {
        let name = target_regions[i].as_str();
        if !name.is_empty() && text::contains_text(event_regions, name) {
            assert(target_regions@[i as int]@.len() > 0);
            return true;
        }
        i += 1;
    }
    false
}

/// What one place means for a match.
pub enum TargetOutcome {
    /// Nothing is matched at all.
    Abort,
    /// The place does not match.
    Skip,
    /// The place matches.
    Hit { distance: u64, match_kind: u8, level: InterruptionLevel },
}

pub open spec fn is_within(distance: Option<u64>, limit: Option<u64>) -> bool {
    match (distance, limit) {
        (Some(d), Some(l)) => d <= l,
        _ => false,
    }
}

pub open spec fn or_zero(distance: Option<u64>) -> u64 {
    match distance {
        Some(d) => d,
        None => 0,
    }
}

/// What one place means for a match by a rule.
///
/// A report of an earthquake without coordinates matches nothing, and neither does a warning
/// without magnitude. A warning of weather matches in affected regions, and else within a
/// distance; a tsunami in affected regions only; a typhoon within a distance. A place outside the
/// distance of a warning of weather or a typhoon ends the search.
pub open spec fn target_outcome<N>(
    rule: AlertRule<N>,
    event_level: u8,
    event_regions: Seq<String>,
    limit: Option<u64>,
    target: TargetMeasure,
) -> TargetOutcome {
    let affected = is_affected(event_regions, target.regions@);
    match rule {
        AlertRule::EarthquakeWarning { estimated_intensity_bands, .. } => match target.distance {
            None => TargetOutcome::Abort,
            Some(distance) => if !is_within(Some(distance), limit) {
                TargetOutcome::Skip
            } else {
                match target.intensity {
                    None => TargetOutcome::Abort,
                    Some(rounded) => match simulate::band_level(
                        estimated_intensity_bands@,
                        rounded,
                    ) {
                        Some(level) => TargetOutcome::Hit { distance, match_kind: 1, level },
                        None => TargetOutcome::Skip,
                    },
                }
            },
        },
        AlertRule::EarthquakeReport { .. } => match target.distance {
            None => TargetOutcome::Abort,
            Some(distance) => TargetOutcome::Hit {
                distance,
                match_kind: 1,
                level: InterruptionLevel::Passive,
            },
        },
        AlertRule::WeatherWarning { .. } => if affected {
            TargetOutcome::Hit {
                distance: or_zero(target.distance),
                match_kind: 2,
                level: severity_level(event_level),
            }
        } else if is_within(target.distance, limit) {
            TargetOutcome::Hit {
                distance: or_zero(target.distance),
                match_kind: 1,
                level: severity_level(event_level),
            }
        } else {
            TargetOutcome::Abort
        },
        AlertRule::Tsunami { .. } => if affected {
            TargetOutcome::Hit {
                distance: or_zero(target.distance),
                match_kind: 2,
                level: severity_level(event_level),
            }
        } else {
            TargetOutcome::Skip
        },
        AlertRule::Typhoon { .. } => if is_within(target.distance, limit) {
            TargetOutcome::Hit {
                distance: or_zero(target.distance),
                match_kind: 1,
                level: severity_level(event_level),
            }
        } else {
            TargetOutcome::Abort
        },
    }
}

/// The best match so far: at which place, how far, of which kind and how it interrupts.
pub struct Best {
    pub at: int,
    pub distance: u64,
    pub match_kind: u8,
    pub level: InterruptionLevel,
}

/// The nearest place that matches, the first of those that are as near; `None` where a place ends
/// the search, `Some(None)` where no place matches.
pub open spec fn best_of(outcomes: Seq<TargetOutcome>) -> Option<Option<Best>>
    decreases outcomes.len(),
{
    if outcomes.len() == 0 {
        Some(None)
    } else {
        match best_of(outcomes.drop_last()) {
            None => None,
            Some(best) => match outcomes.last() {
                TargetOutcome::Abort => None,
                TargetOutcome::Skip => Some(best),
                TargetOutcome::Hit { distance, match_kind, level } => {
                    let here = Best { at: outcomes.len() - 1, distance, match_kind, level };
                    match best {
                        None => Some(Some(here)),
                        Some(b) => if distance < b.distance {
                            Some(Some(here))
                        } else {
                            Some(Some(b))
                        },
                    }
                },
            },
        }
    }
}

/// What every place means for a match by a rule.
pub open spec fn outcomes<N>(rule: AlertRule<N>, event_level: u8, measure: EventMeasure) -> Seq<
    TargetOutcome,
> {
    measure.targets@.map_values(
        |target: TargetMeasure|
            target_outcome(
                rule,
                event_level,
                measure.regions@,
                measure.distance_limit,
                target,
            ),
    )
}

/// Which place of a subscription a report concerns.
pub open spec fn matched<N>(
    alerts: Seq<AlertRule<N>>,
    category: DisasterCategory,
    source: Seq<char>,
    level: u8,
    measure: EventMeasure,
) -> Option<ReferenceMatch> {
    match models::first_rule(alerts, category) {
        None => None,
        Some(rule) => if !takes_source(rule.selection(), source) || !is_strong_enough(
            rule,
            level,
            measure.magnitude_met,
        ) {
            None
        } else {
            match best_of(outcomes(rule, level, measure)) {
                Some(Some(best)) => if best.at > u8::MAX {
                    None
                } else {
                    Some(
                        ReferenceMatch {
                            target_ordinal: best.at as u8,
                            match_kind: best.match_kind,
                            interruption_level: best.level,
                        },
                    )
                },
                _ => None,
            }
        },
    }
}

/// What one place means for a match by a rule: `None` where it ends the search, `Some(None)`
/// where it does not match.
fn measure_target<N>(
    rule: &AlertRule<N>,
    event_level: u8,
    event_regions: &Vec<String>,
    limit: Option<u64>,
    target: &TargetMeasure,
) -> (r: Option<Option<(u64, u8, InterruptionLevel)>>)
    ensures
        match target_outcome(*rule, event_level, event_regions@, limit, *target) {
            TargetOutcome::Abort => r is None,
            TargetOutcome::Skip => r == Some(None::<(u64, u8, InterruptionLevel)>),
            TargetOutcome::Hit { distance, match_kind, level } => r == Some(
                Some((distance, match_kind, level)),
            ),
        },
{
    let affected = lies_in_affected_region(event_regions, &target.regions);
    let within = match (target.distance, limit) {
        (Some(d), Some(l)) => d <= l,
        _ => false,
    };
    let distance: u64 = match target.distance {
        Some(d) => d,
        None => 0,
    };
    match rule {
        AlertRule::EarthquakeWarning { estimated_intensity_bands, .. } => {
            if target.distance.is_none() {
                return None;
            }
            if !within {
                return Some(None);
            }
            match target.intensity {
                None => None,
                Some(rounded) => match simulate::find_band_level(
                    estimated_intensity_bands,
                    rounded,
                ) {
                    Some(level) => Some(Some((distance, 1, level))),
                    None => Some(None),
                },
            }
        },
        AlertRule::EarthquakeReport { .. } => {
            if target.distance.is_none() {
                return None;
            }
            Some(Some((distance, 1, InterruptionLevel::Passive)))
        },
        AlertRule::WeatherWarning { .. } => {
            if affected {
                Some(Some((distance, 2, bark_level(event_level))))
            } else if within {
                Some(Some((distance, 1, bark_level(event_level))))
            } else {
                None
            }
        },
        AlertRule::Tsunami { .. } => {
            if affected {
                Some(Some((distance, 2, bark_level(event_level))))
            } else {
                Some(None)
            }
        },
        AlertRule::Typhoon { .. } => {
            if within {
                Some(Some((distance, 1, bark_level(event_level))))
            } else {
                None
            }
        },
    }
}

/// Which place of a subscription a report concerns, and how: the nearest that matches the rule
/// for its kind of disaster.
pub fn match_subscription<N>(
    subscription: &Subscription<N>,
    category: DisasterCategory,
    source: &str,
    level: u8,
    measure: &EventMeasure,
) -> (r: Option<ReferenceMatch>)
    ensures
        r == matched(subscription.alerts@, category, source@, level, *measure),
{
    let rule = match subscription.alert(category) {
        Some(rule) => rule,
        None => {
            return None;
        },
    };
    if !source_matches(rule.sources(), source) || !threshold_matches(
        rule,
        level,
        measure.magnitude_met,
    ) {
        return None;
    }
    let ghost all = outcomes(*rule, level, *measure);
    let mut best: Option<(usize, u64, u8, InterruptionLevel)> = None;
    let mut i: usize = 0;
    assert(best_of(all.take(0)) == Some(None::<Best>));
    while i < measure.targets.len()
        invariant
            models::first_rule(subscription.alerts@, category) == Some(*rule),
            takes_source(rule.selection(), source@),
            is_strong_enough(*rule, level, measure.magnitude_met),
            all == outcomes(*rule, level, *measure),
            i <= measure.targets@.len(),
            match best {
                None => best_of(all.take(i as int)) == Some(None::<Best>),
                Some((at, distance, match_kind, level)) => best_of(all.take(i as int)) == Some(
                    Some(Best { at: at as int, distance, match_kind, level }),
                ),
            },
        decreases measure.targets@.len() - i,
    {
        proof {
            assert(all.take(i + 1).drop_last() =~= all.take(i as int));
            assert(all.take(i + 1).last() == all[i as int]);
        }
        match measure_target(
            rule,
            level,
            &measure.regions,
            measure.distance_limit,
            &measure.targets[i],
        ) {
            None => {
                proof {
                    lemma_abort(all, i as int);
                }
                return None;
            },
            Some(None) => {},
            Some(Some((distance, match_kind, interruption))) => {
                let nearer = match best {
                    None => true,
                    Some((_, current, _, _)) => distance < current,
                };
                if nearer {
                    best = Some((i, distance, match_kind, interruption));
                }
            },
        }
        i += 1;
    }
    assert(all.take(i as int) =~= all);
    match best {
        None => None,
        Some((at, _, match_kind, interruption_level)) => if at > 255 {
            None
        } else {
            Some(ReferenceMatch { target_ordinal: at as u8, match_kind, interruption_level })
        },
    }
}

/// A place that ends the search ends it for all.
proof fn lemma_abort(all: Seq<TargetOutcome>, i: int)
    requires
        0 <= i < all.len(),
        best_of(all.take(i + 1)) is None,
    ensures
        best_of(all) is None,
    decreases all.len(),
{
    if i == all.len() - 1 {
        assert(all.take(i + 1) =~= all);
    } else {
        let rest = all.drop_last();
        assert(rest.take(i + 1) =~= all.take(i + 1));
        lemma_abort(rest, i);
    }
}

/// A reviewed report of an earthquake never interrupts more than passively.
pub proof fn law_reports_are_passive<N>(
    alerts: Seq<AlertRule<N>>,
    source: Seq<char>,
    level: u8,
    measure: EventMeasure,
)
    ensures
        matched(alerts, DisasterCategory::EarthquakeReport, source, level, measure) matches Some(
            m,
        ) ==> m.interruption_level == InterruptionLevel::Passive && m.match_kind == 1,
{
    models::lemma_first_rule(alerts, DisasterCategory::EarthquakeReport);
    if let Some(rule) = models::first_rule(alerts, DisasterCategory::EarthquakeReport) {
        lemma_best(outcomes(rule, level, measure));
    }
}

/// The best match is one of the places that match, none that matches is nearer, and none before
/// it is as near.
proof fn lemma_best(all: Seq<TargetOutcome>)
    ensures
        best_of(all) matches Some(Some(best)) ==> {
            &&& 0 <= best.at < all.len()
            &&& all[best.at] == (TargetOutcome::Hit {
                distance: best.distance,
                match_kind: best.match_kind,
                level: best.level,
            })
            &&& forall|k: int|
                0 <= k < all.len() ==> (#[trigger] all[k] matches TargetOutcome::Hit {
                    distance,
                    ..
                } ==> best.distance <= distance && (k < best.at ==> best.distance < distance))
        },
        best_of(all) is Some ==> forall|k: int|
            0 <= k < all.len() ==> !(#[trigger] all[k] is Abort),
        best_of(all) matches Some(None) ==> forall|k: int|
            0 <= k < all.len() ==> #[trigger] all[k] is Skip,
    decreases all.len(),
{
    if all.len() > 0 {
        let rest = all.drop_last();
        lemma_best(rest);
        assert forall|k: int| 0 <= k < rest.len() implies #[trigger] all[k] == rest[k] by {}
        assert(all[all.len() - 1] == all.last());
    }
}

/// A match names the nearest place that matches, and the first of those that are as near.
pub proof fn law_match_is_nearest<N>(
    rule: AlertRule<N>,
    level: u8,
    measure: EventMeasure,
    k: int,
)
    requires
        0 <= k < outcomes(rule, level, measure).len(),
        outcomes(rule, level, measure)[k] is Hit,
        best_of(outcomes(rule, level, measure)) is Some,
    ensures
        best_of(outcomes(rule, level, measure)) matches Some(Some(best)) && {
            let all = outcomes(rule, level, measure);
            &&& 0 <= best.at < all.len()
            &&& all[best.at] == (TargetOutcome::Hit {
                distance: best.distance,
                match_kind: best.match_kind,
                level: best.level,
            })
            &&& best.distance <= all[k]->distance
            &&& k < best.at ==> best.distance < all[k]->distance
        },
{
    lemma_best(outcomes(rule, level, measure));
}

/// A warning is matched only where the intensity that is estimated at the place lies in a band of
/// the rule, and interrupts as that band says.
pub proof fn law_warnings_need_a_band<N>(
    alerts: Seq<AlertRule<N>>,
    source: Seq<char>,
    level: u8,
    measure: EventMeasure,
)
    ensures
        matched(alerts, DisasterCategory::EarthquakeWarning, source, level, measure) matches Some(
            m,
        ) ==> {
            let rule = models::first_rule(alerts, DisasterCategory::EarthquakeWarning)->0;
            &&& m.target_ordinal < measure.targets@.len()
            &&& measure.targets@[m.target_ordinal as int].intensity is Some
            &&& rule.bands() is Some
            &&& simulate::band_level(
                rule.bands()->0,
                measure.targets@[m.target_ordinal as int].intensity->0,
            ) == Some(m.interruption_level)
        },
{
    models::lemma_first_rule(alerts, DisasterCategory::EarthquakeWarning);
    if let Some(rule) = models::first_rule(alerts, DisasterCategory::EarthquakeWarning) {
        lemma_best(outcomes(rule, level, measure));
    }
}

/// A report of an earthquake that is strong enough is matched however far it is.
pub proof fn law_reports_match_at_any_distance<N>(
    alerts: Seq<AlertRule<N>>,
    source: Seq<char>,
    level: u8,
    measure: EventMeasure,
)
    requires
        models::first_rule(alerts, DisasterCategory::EarthquakeReport) is Some,
        takes_source(
            models::first_rule(alerts, DisasterCategory::EarthquakeReport)->0.selection(),
            source,
        ),
        measure.magnitude_met,
        0 < measure.targets@.len() <= 256,
        forall|i: int|
            0 <= i < measure.targets@.len() ==> (#[trigger] measure.targets@[i]).distance is Some,
    ensures
        matched(alerts, DisasterCategory::EarthquakeReport, source, level, measure) is Some,
{
    models::lemma_first_rule(alerts, DisasterCategory::EarthquakeReport);
    let rule = models::first_rule(alerts, DisasterCategory::EarthquakeReport)->0;
    let all = outcomes(rule, level, measure);
    assert forall|i: int| 0 <= i < all.len() implies #[trigger] all[i] is Hit by {
        assert(measure.targets@[i].distance is Some);
    }
    lemma_hits_have_a_best(all);
    lemma_best(all);
}

proof fn lemma_hits_have_a_best(all: Seq<TargetOutcome>)
    requires
        forall|i: int| 0 <= i < all.len() ==> #[trigger] all[i] is Hit,
    ensures
        best_of(all) is Some,
        all.len() > 0 ==> best_of(all)->0 is Some,
    decreases all.len(),
{
    if all.len() > 0 {
        let rest = all.drop_last();
        assert forall|i: int| 0 <= i < rest.len() implies #[trigger] rest[i] is Hit by {
            assert(rest[i] == all[i]);
        }
        lemma_hits_have_a_best(rest);
        assert(all[all.len() - 1] is Hit);
    }
}

// ---------------------------------------------------------------------------
// Samples
// ---------------------------------------------------------------------------
/// The source of a sample for a rule: the first for its kind of disaster, or the first that it
/// lists.
pub open spec fn source_of_sample<N>(rule: AlertRule<N>) -> Option<SourceDefinition> {
    match rule.selection() {
        SourceSelection::All => source_registry::source_for(rule.about()),
        SourceSelection::Include { ids } => if ids@.len() > 0 {
            source_registry::source_with_id(ids@[0]@)
        } else {
            None
        },
    }
}

pub fn sample_source<N>(rule: &AlertRule<N>) -> (r: Option<SourceDefinition>)
    ensures
        r == source_of_sample(*rule),
{
    match rule.sources() {
        SourceSelection::All => source_registry::find_for_category(rule.category()),
        SourceSelection::Include { ids } => if ids.len() > 0 {
            source_registry::find(ids[0].as_str())
        } else {
            None
        },
    }
}

/// For which subscription, rule and place a sample is.
pub struct SampleOf {
    pub subscription: int,
    pub rule: int,
    pub target: int,
}

/// The samples for the first places of a subscription by one rule.
pub open spec fn rule_samples<N>(s: int, r: int, rule: AlertRule<N>, targets: int) -> Seq<SampleOf> {
    if source_of_sample(rule) is Some {
        Seq::new(targets as nat, |t: int| SampleOf { subscription: s, rule: r, target: t })
    } else {
        Seq::empty()
    }
}

/// The samples for a subscription by its first rules.
pub open spec fn subscription_samples<N>(s: int, subscription: Subscription<N>, rules: int) -> Seq<
    SampleOf,
>
    decreases rules,
{
    if rules <= 0 {
        Seq::empty()
    } else {
        subscription_samples(s, subscription, rules - 1) + rule_samples(
            s,
            rules - 1,
            subscription.alerts@[rules - 1],
            subscription.targets@.len() as int,
        )
    }
}

/// The samples for the first subscriptions.
pub open spec fn samples<N>(subscriptions: Seq<Subscription<N>>, count: int) -> Seq<SampleOf>
    decreases count,
{
    if count <= 0 {
        Seq::empty()
    } else {
        samples(subscriptions, count - 1) + subscription_samples(
            count - 1,
            subscriptions[count - 1],
            subscriptions[count - 1].alerts@.len() as int,
        )
    }
}

/// Whether a function may say this of a text.
pub open spec fn may_say<F: Fn(&str) -> bool>(f: F, s: Seq<char>, b: bool) -> bool {
    exists|x: &str| x@ == s && #[trigger] f.ensures((x,), b)
}

/// Whether these are the affected regions of a sample: the smallest region of the place that has
/// a name.
pub open spec fn is_region_of<N, F: Fn(&str) -> bool>(
    regions: Seq<String>,
    target: models::MonitoringTarget<N>,
    names_region: F,
) -> bool {
    let d = target.region.district@;
    let c = target.region.city@;
    let p = target.region.province@;
    ||| may_say(names_region, d, true) && text::texts(regions) == seq![d]
    ||| may_say(names_region, d, false) && may_say(names_region, c, true) && text::texts(regions)
        == seq![c]
    ||| may_say(names_region, d, false) && may_say(names_region, c, false) && may_say(
        names_region,
        p,
        true,
    ) && text::texts(regions) == seq![p]
    ||| may_say(names_region, d, false) && may_say(names_region, c, false) && may_say(
        names_region,
        p,
        false,
    ) && regions.len() == 0
}

/// Whether an event is a sample.
pub open spec fn is_sample<N, F: Fn(&str) -> bool>(
    event: DisasterEvent<N>,
    number: nat,
    rule: AlertRule<N>,
    target: models::MonitoringTarget<N>,
    magnitude: N,
    depth_km: N,
    names_region: F,
) -> bool {
    &&& source_of_sample(rule) matches Some(source) && event.channel == source.channel
        && event.source@ == source.id@
    &&& event.category == rule.about()
    &&& event.event_id@ == "migration-sample-"@ + text::decimal(number)
    &&& event.revision@ == "1"@
    &&& event.report_num == 1
    &&& event.title@.len() == 0
    &&& event.description@.len() == 0
    &&& event.latitude == Some(target.point.latitude)
    &&& event.longitude == Some(target.point.longitude)
    &&& event.magnitude == Some(magnitude)
    &&& event.depth_km == Some(depth_km)
    &&& is_region_of(event.affected_regions@, target, names_region)
    &&& event.radius_km is None
    &&& event.level == 4
    &&& event.occurred_at@ == "2026-01-01T00:00:00Z"@
    &&& !event.final_report
    &&& !event.cancel
    &&& !event.training
}

/// Whether events are the samples with these numbers.
pub open spec fn are_samples<N, F: Fn(&str) -> bool>(
    events: Seq<DisasterEvent<N>>,
    wanted: Seq<SampleOf>,
    subscriptions: Seq<Subscription<N>>,
    magnitude: N,
    depth_km: N,
    names_region: F,
) -> bool {
    events.len() == wanted.len() && forall|i: int|
        0 <= i < events.len() ==> is_sample(
            #[trigger] events[i],
            i as nat,
            subscriptions[wanted[i].subscription].alerts@[wanted[i].rule],
            subscriptions[wanted[i].subscription].targets@[wanted[i].target],
            magnitude,
            depth_km,
            names_region,
        )
}

/// The smallest region of a place that has a name.
fn sample_region<N, F: Fn(&str) -> bool>(
    target: &models::MonitoringTarget<N>,
    names_region: &F,
) -> (r: Vec<String>)
    requires
        forall|x: &str| names_region.requires((x,)),
    ensures
        is_region_of(r@, *target, *names_region),
{
    let district = target.region.district.as_str();
    if names_region(district) {
        let r = vec![district.to_owned()];
        assert(text::texts(r@) =~= seq![district@]);
        return r;
    }
    let city = target.region.city.as_str();
    if names_region(city) {
        let r = vec![city.to_owned()];
        assert(text::texts(r@) =~= seq![city@]);
        return r;
    }
    let province = target.region.province.as_str();
    if names_region(province) {
        let r = vec![province.to_owned()];
        assert(text::texts(r@) =~= seq![province@]);
        return r;
    }
    Vec::new()
}

/// One sample.
fn sample_event<N: Copy, F: Fn(&str) -> bool>(
    number: usize,
    source: SourceDefinition,
    rule: &AlertRule<N>,
    target: &models::MonitoringTarget<N>,
    magnitude: N,
    depth_km: N,
    names_region: &F,
) -> (r: DisasterEvent<N>)
    requires
        forall|x: &str| names_region.requires((x,)),
        source_of_sample(*rule) == Some(source),
    ensures
        is_sample(r, number as nat, *rule, *target, magnitude, depth_km, *names_region),
{
    let mut event_id = "migration-sample-".to_owned();
    event_id.append(text::decimal_text(number as u64).as_str());
    DisasterEvent {
        category: rule.category(),
        channel: source.channel,
        source: source.id.to_owned(),
        event_id,
        revision: "1".to_owned(),
        report_num: 1,
        title: String::new(),
        description: String::new(),
        latitude: Some(target.point.latitude),
        longitude: Some(target.point.longitude),
        magnitude: Some(magnitude),
        depth_km: Some(depth_km),
        affected_regions: sample_region(target, names_region),
        radius_km: None,
        level: 4,
        occurred_at: "2026-01-01T00:00:00Z".to_owned(),
        final_report: false,
        cancel: false,
        training: false,
    }
}

/// So many of the samples as are wanted, or all of them.
pub open spec fn first_samples(all: Seq<SampleOf>, limit: nat) -> Seq<SampleOf> {
    if all.len() > limit {
        all.take(limit as int)
    } else {
        all
    }
}

/// A strong event at each place of each subscription for each of its rules that has a source, up
/// to a limit. `names_region` says whether the name of a region has anything in it.
pub fn sample_events<N: Copy, F: Fn(&str) -> bool>(
    subscriptions: &Vec<Subscription<N>>,
    limit: usize,
    magnitude: N,
    depth_km: N,
    names_region: F,
) -> (events: Vec<DisasterEvent<N>>)
    requires
        forall|x: &str| names_region.requires((x,)),
    ensures
        are_samples(
            events@,
            first_samples(
                samples(subscriptions@, subscriptions@.len() as int),
                limit as nat,
            ),
            subscriptions@,
            magnitude,
            depth_km,
            names_region,
        ),
{
    let ghost all = samples(subscriptions@, subscriptions@.len() as int);
    let mut events: Vec<DisasterEvent<N>> = Vec::new();
    if limit == 0 {
        assert(first_samples(all, 0) =~= Seq::empty());
        return events;
    }
    let mut s: usize = 0;
    while s < subscriptions.len()
        invariant
            limit > 0,
            forall|x: &str| names_region.requires((x,)),
            all == samples(subscriptions@, subscriptions@.len() as int),
            s <= subscriptions@.len(),
            events@.len() < limit,
            are_samples(
                events@,
                samples(subscriptions@, s as int),
                subscriptions@,
                magnitude,
                depth_km,
                names_region,
            ),
        decreases subscriptions@.len() - s,
    {
        let subscription = &subscriptions[s];
        let ghost before = samples(subscriptions@, s as int);
        let ghost whole = samples(subscriptions@, s + 1);
        proof {
            lemma_samples_grow(subscriptions@, s + 1, subscriptions@.len() as int);
        }
        let mut r: usize = 0;
        assert(before + subscription_samples(s as int, *subscription, 0) =~= before);
        while r < subscription.alerts.len()
            invariant
                limit > 0,
                forall|x: &str| names_region.requires((x,)),
                s < subscriptions@.len(),
                *subscription == subscriptions@[s as int],
                all == samples(subscriptions@, subscriptions@.len() as int),
                before == samples(subscriptions@, s as int),
                whole == before + subscription_samples(
                    s as int,
                    *subscription,
                    subscription.alerts@.len() as int,
                ),
                whole.is_prefix_of(all),
                r <= subscription.alerts@.len(),
                events@.len() < limit,
                are_samples(
                    events@,
                    before + subscription_samples(s as int, *subscription, r as int),
                    subscriptions@,
                    magnitude,
                    depth_km,
                    names_region,
                ),
            decreases subscription.alerts@.len() - r,
        {
            let rule = &subscription.alerts[r];
            let ghost done = before + subscription_samples(s as int, *subscription, r as int);
            let ghost next = rule_samples(
                s as int,
                r as int,
                *rule,
                subscription.targets@.len() as int,
            );
            proof {
                lemma_subscription_samples_grow(
                    s as int,
                    *subscription,
                    r + 1,
                    subscription.alerts@.len() as int,
                );
                assert(before + subscription_samples(s as int, *subscription, r + 1) =~= done
                    + next);
                lemma_prefix(
                    before,
                    subscription_samples(s as int, *subscription, r + 1),
                    subscription_samples(
                        s as int,
                        *subscription,
                        subscription.alerts@.len() as int,
                    ),
                    all,
                );
            }
            if let Some(source) = sample_source(rule) {
                let mut t: usize = 0;
                assert(done + next.take(0) =~= done);
                while t < subscription.targets.len()
                    invariant
                        limit > 0,
                        forall|x: &str| names_region.requires((x,)),
                        s < subscriptions@.len(),
                        *subscription == subscriptions@[s as int],
                        r < subscription.alerts@.len(),
                        *rule == subscription.alerts@[r as int],
                        source_of_sample(*rule) == Some(source),
                        all == samples(subscriptions@, subscriptions@.len() as int),
                        next == rule_samples(
                            s as int,
                            r as int,
                            *rule,
                            subscription.targets@.len() as int,
                        ),
                        (done + next).is_prefix_of(all),
                        t <= subscription.targets@.len(),
                        events@.len() < limit,
                        are_samples(
                            events@,
                            done + next.take(t as int),
                            subscriptions@,
                            magnitude,
                            depth_km,
                            names_region,
                        ),
                    decreases subscription.targets@.len() - t,
                {
                    let ghost old_events = events@;
                    let ghost wanted = done + next.take(t as int);
                    events.push(
                        sample_event(
                            events.len(),
                            source,
                            rule,
                            &subscription.targets[t],
                            magnitude,
                            depth_km,
                            &names_region,
                        ),
                    );
                    proof {
                        assert(next.take(t + 1) =~= next.take(t as int).push(next[t as int]));
                        assert(done + next.take(t + 1) =~= wanted.push(next[t as int]));
                        assert forall|i: int| 0 <= i < events@.len() implies is_sample(
                            #[trigger] events@[i],
                            i as nat,
                            subscriptions@[wanted.push(
                                next[t as int],
                            )[i].subscription].alerts@[wanted.push(next[t as int])[i].rule],
                            subscriptions@[wanted.push(
                                next[t as int],
                            )[i].subscription].targets@[wanted.push(next[t as int])[i].target],
                            magnitude,
                            depth_km,
                            names_region,
                        ) by {
                            if i < old_events.len() {
                                assert(events@[i] == old_events[i]);
                            }
                        }
                    }
                    if events.len() >= limit {
                        proof {
                            assert(events@.len() == limit);
                            assert((done + next.take(t + 1)) =~= first_samples(all, limit as nat))
                                by {
                                assert((done + next).len() >= limit);
                                assert(all.take((done + next).len() as int) =~= done + next);
                                if all.len() == limit {
                                    assert(all.take(limit as int) =~= all);
                                }
                                assert(all.take(limit as int) =~= (done + next).take(limit as int));
                                assert((done + next).take(limit as int) =~= done + next.take(
                                    t + 1,
                                ));
                            }
                        }
                        return events;
                    }
                    t += 1;
                }
                assert(next.take(t as int) =~= next);
            } else {
                assert(done + next =~= done);
            }
            r += 1;
        }
        s += 1;
    }
    events
}

proof fn lemma_samples_grow<N>(subscriptions: Seq<Subscription<N>>, fewer: int, more: int)
    requires
        0 <= fewer <= more,
    ensures
        samples(subscriptions, fewer).is_prefix_of(samples(subscriptions, more)),
    decreases more - fewer,
{
    if fewer < more {
        lemma_samples_grow(subscriptions, fewer, more - 1);
    }
}

proof fn lemma_subscription_samples_grow<N>(
    s: int,
    subscription: Subscription<N>,
    fewer: int,
    more: int,
)
    requires
        0 <= fewer <= more,
    ensures
        subscription_samples(s, subscription, fewer).is_prefix_of(
            subscription_samples(s, subscription, more),
        ),
    decreases more - fewer,
{
    if fewer < more {
        lemma_subscription_samples_grow(s, subscription, fewer, more - 1);
    }
}

proof fn lemma_prefix(a: Seq<SampleOf>, b: Seq<SampleOf>, c: Seq<SampleOf>, all: Seq<SampleOf>)
    requires
        b.is_prefix_of(c),
        (a + c).is_prefix_of(all),
    ensures
        (a + b).is_prefix_of(all),
{
    assert((a + b) =~= (a + c).take((a + b).len() as int));
    assert(all.take((a + b).len() as int) =~= (a + c).take((a + b).len() as int));
}

// ---------------------------------------------------------------------------
// What a match means
// ---------------------------------------------------------------------------
/// A rule takes reports of every source that it lists and of no other, and one that lists none
/// takes all.
pub proof fn law_every_listed_source_is_taken(selection: &SourceSelection, source: &str, r: bool)
    requires
        call_ensures(source_matches, (selection, source), r),
    ensures
        *selection is All ==> r,
        *selection matches SourceSelection::Include { ids } ==> (r <==> exists|i: int|
            0 <= i < ids@.len() && #[trigger] ids@[i]@ == source@),
{
    if let SourceSelection::Include { ids } = *selection {
        lemma_texts_contain(ids@, source@);
    }
}

proof fn lemma_texts_contain(list: Seq<String>, wanted: Seq<char>)
    ensures
        text::texts(list).contains(wanted) <==> exists|i: int|
            0 <= i < list.len() && #[trigger] list[i]@ == wanted,
{
    if text::texts(list).contains(wanted) {
        let i = choose|i: int| 0 <= i < text::texts(list).len() && text::texts(list)[i] == wanted;
        assert(list[i]@ == wanted);
    }
    if exists|i: int| 0 <= i < list.len() && #[trigger] list[i]@ == wanted {
        let i = choose|i: int| 0 <= i < list.len() && #[trigger] list[i]@ == wanted;
        assert(text::texts(list)[i] == wanted);
    }
}

/// Whichever of the sources that its rule lists a report comes from, it is matched alike.
pub proof fn law_listed_sources_are_matched_alike<N>(
    subscription: &Subscription<N>,
    category: DisasterCategory,
    at: int,
    ids: Vec<String>,
    i: int,
    j: int,
    a: &str,
    b: &str,
    level: u8,
    measure: &EventMeasure,
    from_a: Option<ReferenceMatch>,
    from_b: Option<ReferenceMatch>,
)
    requires
        models::is_first_about(subscription.alerts@, category, at),
        subscription.alerts@[at].selection() == (SourceSelection::Include { ids }),
        0 <= i < ids@.len(),
        0 <= j < ids@.len(),
        a@ == ids@[i]@,
        b@ == ids@[j]@,
        call_ensures(match_subscription::<N>, (subscription, category, a, level, measure), from_a),
        call_ensures(match_subscription::<N>, (subscription, category, b, level, measure), from_b),
    ensures
        from_a == from_b,
{
    models::lemma_is_first_rule(subscription.alerts@, category, at);
    lemma_texts_contain(ids@, a@);
    lemma_texts_contain(ids@, b@);
}

/// A report of a source that its rule does not list is not matched.
pub proof fn law_other_sources_are_not_matched<N>(
    subscription: &Subscription<N>,
    category: DisasterCategory,
    at: int,
    ids: Vec<String>,
    source: &str,
    level: u8,
    measure: &EventMeasure,
    r: Option<ReferenceMatch>,
)
    requires
        call_ensures(match_subscription::<N>, (subscription, category, source, level, measure), r),
        models::is_first_about(subscription.alerts@, category, at),
        subscription.alerts@[at].selection() == (SourceSelection::Include { ids }),
        forall|i: int| 0 <= i < ids@.len() ==> #[trigger] ids@[i]@ != source@,
    ensures
        r is None,
{
    models::lemma_is_first_rule(subscription.alerts@, category, at);
    lemma_texts_contain(ids@, source@);
}

/// A report that no rule is about is not matched, and neither is one for a subscription without
/// places.
pub proof fn law_nothing_is_matched_without_a_rule_and_a_place<N>(
    subscription: &Subscription<N>,
    category: DisasterCategory,
    source: &str,
    level: u8,
    measure: &EventMeasure,
    r: Option<ReferenceMatch>,
)
    requires
        call_ensures(match_subscription::<N>, (subscription, category, source, level, measure), r),
        measure.targets@.len() == 0 || forall|k: int|
            0 <= k < subscription.alerts@.len() ==> (#[trigger] subscription.alerts@[k]).about()
                != category,
    ensures
        r is None,
{
    models::lemma_first_rule(subscription.alerts@, category);
}

/// Rules that are about other disasters do not matter, and neither do rules behind the first one
/// that is about this one.
pub proof fn law_only_the_first_rule_of_the_kind_matters<N>(
    a: &Subscription<N>,
    at_a: int,
    b: &Subscription<N>,
    at_b: int,
    category: DisasterCategory,
    source: &str,
    level: u8,
    measure: &EventMeasure,
    from_a: Option<ReferenceMatch>,
    from_b: Option<ReferenceMatch>,
)
    requires
        models::is_first_about(a.alerts@, category, at_a),
        models::is_first_about(b.alerts@, category, at_b),
        a.alerts@[at_a] == b.alerts@[at_b],
        call_ensures(match_subscription::<N>, (a, category, source, level, measure), from_a),
        call_ensures(match_subscription::<N>, (b, category, source, level, measure), from_b),
    ensures
        from_a == from_b,
{
    models::lemma_is_first_rule(a.alerts@, category, at_a);
    models::lemma_is_first_rule(b.alerts@, category, at_b);
}

/// Warnings of weather and tsunamis count from the severity of their rule on, reports of
/// earthquakes from its magnitude on, and all warnings of earthquakes and typhoons count.
pub proof fn law_thresholds<N>(rule: &AlertRule<N>, level: u8, magnitude_met: bool, r: bool)
    requires
        call_ensures(threshold_matches::<N>, (rule, level, magnitude_met), r),
    ensures
        *rule matches AlertRule::WeatherWarning { min_severity, .. } ==> (r <==> min_severity
            <= level),
        *rule matches AlertRule::Tsunami { min_severity, .. } ==> (r <==> min_severity <= level),
        *rule is EarthquakeReport ==> r == magnitude_met,
        *rule is EarthquakeWarning ==> r,
        *rule is Typhoon ==> r,
{
}

/// What is too weak for its rule is not matched, and what is severer is matched at the same place
/// and in the same way.
pub proof fn law_severer_reports_are_matched_too<N>(
    subscription: &Subscription<N>,
    category: DisasterCategory,
    source: &str,
    weaker: u8,
    stronger: u8,
    measure: &EventMeasure,
    of_weaker: Option<ReferenceMatch>,
    of_stronger: Option<ReferenceMatch>,
)
    requires
        weaker <= stronger,
        call_ensures(
            match_subscription::<N>,
            (subscription, category, source, weaker, measure),
            of_weaker,
        ),
        call_ensures(
            match_subscription::<N>,
            (subscription, category, source, stronger, measure),
            of_stronger,
        ),
    ensures
        of_weaker matches Some(w) ==> (of_stronger matches Some(s) && s.target_ordinal
            == w.target_ordinal && s.match_kind == w.match_kind),
{
    if let Some(rule) = models::first_rule(subscription.alerts@, category) {
        let a = outcomes(rule, weaker, *measure);
        let b = outcomes(rule, stronger, *measure);
        assert forall|k: int| 0 <= k < a.len() implies same_but_level(#[trigger] a[k], b[k]) by {}
        lemma_best_but_level(a, b);
    }
}

/// Whether two outcomes differ at most in how they interrupt.
spec fn same_but_level(a: TargetOutcome, b: TargetOutcome) -> bool {
    match (a, b) {
        (TargetOutcome::Abort, TargetOutcome::Abort) => true,
        (TargetOutcome::Skip, TargetOutcome::Skip) => true,
        (
            TargetOutcome::Hit { distance: d, match_kind: k, .. },
            TargetOutcome::Hit { distance, match_kind, .. },
        ) => d == distance && k == match_kind,
        _ => false,
    }
}

proof fn lemma_best_but_level(a: Seq<TargetOutcome>, b: Seq<TargetOutcome>)
    requires
        a.len() == b.len(),
        forall|k: int| 0 <= k < a.len() ==> same_but_level(#[trigger] a[k], b[k]),
    ensures
        match (best_of(a), best_of(b)) {
            (None, None) => true,
            (Some(None), Some(None)) => true,
            (Some(Some(x)), Some(Some(y))) => x.at == y.at && x.distance == y.distance
                && x.match_kind == y.match_kind,
            _ => false,
        },
    decreases a.len(),
{
    if a.len() > 0 {
        let x = a.drop_last();
        let y = b.drop_last();
        assert forall|k: int| 0 <= k < x.len() implies same_but_level(#[trigger] x[k], y[k]) by {
            assert(same_but_level(a[k], b[k]));
        }
        lemma_best_but_level(x, y);
        assert(same_but_level(a[a.len() - 1], b[b.len() - 1]));
    }
}

/// Severities from three on interrupt critically, two actively, and less passively.
pub proof fn law_severities_interrupt(level: u8, r: InterruptionLevel)
    requires
        call_ensures(bark_level, (level,), r),
    ensures
        r == InterruptionLevel::Critical <==> 3 <= level,
        r == InterruptionLevel::Active <==> level == 2,
        r == InterruptionLevel::Passive <==> level < 2,
{
}

/// Whether a name of a place is that of an affected region.
pub open spec fn shares_a_region(event: Seq<String>, place: Seq<String>) -> bool {
    exists|i: int, j: int|
        0 <= i < event.len() && 0 <= j < place.len() && (#[trigger] event[i])@ == (
        #[trigger] place[j])@ && place[j]@.len() > 0
}

proof fn lemma_shares_a_region(event: Seq<String>, place: Seq<String>)
    ensures
        is_affected(event, place) <==> shares_a_region(event, place),
{
    if is_affected(event, place) {
        let j = choose|j: int|
            0 <= j < place.len() && (#[trigger] place[j])@.len() > 0 && text::texts(event).contains(
                place[j]@,
            );
        lemma_texts_contain(event, place[j]@);
        let i = choose|i: int| 0 <= i < event.len() && #[trigger] event[i]@ == place[j]@;
        assert(event[i]@ == place[j]@);
    }
    if shares_a_region(event, place) {
        let (i, j) = choose|i: int, j: int|
            0 <= i < event.len() && 0 <= j < place.len() && (#[trigger] event[i])@ == (
            #[trigger] place[j])@ && place[j]@.len() > 0;
        lemma_texts_contain(event, place[j]@);
        assert(place[j]@.len() > 0);
    }
}

/// Whether the band at a place is the first that an intensity lies in, ends included.
pub open spec fn is_first_band(
    bands: Seq<models::IntensityBand>,
    intensity: u8,
    k: int,
) -> bool {
    &&& 0 <= k < bands.len()
    &&& bands[k].min <= intensity <= bands[k].max
    &&& forall|i: int|
        0 <= i < k ==> intensity < (#[trigger] bands[i]).min || bands[i].max < intensity
}

proof fn lemma_band_index(bands: Seq<models::IntensityBand>, intensity: u8)
    ensures
        match simulate::band_level(bands, intensity) {
            Some(level) => exists|k: int| #[trigger]
                is_first_band(bands, intensity, k) && bands[k].interruption_level == level,
            None => forall|i: int|
                0 <= i < bands.len() ==> intensity < (#[trigger] bands[i]).min || bands[i].max
                    < intensity,
        },
    decreases bands.len(),
{
    if bands.len() > 0 {
        if bands[0].min <= intensity <= bands[0].max {
            assert(is_first_band(bands, intensity, 0));
        } else {
            let rest = bands.drop_first();
            lemma_band_index(rest, intensity);
            assert forall|i: int| 0 < i < bands.len() implies #[trigger] bands[i] == rest[i - 1] by {}
            if let Some(level) = simulate::band_level(rest, intensity) {
                let k = choose|k: int| #[trigger]
                    is_first_band(rest, intensity, k) && rest[k].interruption_level == level;
                assert(is_first_band(bands, intensity, k + 1));
            }
        }
    }
}

/// A match is one that its rule asks for. A warning of an earthquake is matched at a place within
/// the distance whose estimated intensity lies in a band, and interrupts as the first such band
/// says. A report of one is matched wherever it is and interrupts passively. A warning of weather
/// is matched in an affected region, and else within the distance; a tsunami in an affected region;
/// a typhoon within the distance.
pub proof fn law_match_is_what_its_rule_asks_for<N>(
    subscription: &Subscription<N>,
    category: DisasterCategory,
    source: &str,
    level: u8,
    measure: &EventMeasure,
    r: Option<ReferenceMatch>,
)
    requires
        call_ensures(match_subscription::<N>, (subscription, category, source, level, measure), r),
        r is Some,
    ensures
        r->0.target_ordinal < measure.targets@.len(),
        exists|at: int| #[trigger]
            models::is_first_about(subscription.alerts@, category, at) && ({
                let m = r->0;
                let place = measure.targets@[m.target_ordinal as int];
                let shares = shares_a_region(measure.regions@, place.regions@);
                let near = place.distance is Some && measure.distance_limit is Some
                    && place.distance->0 <= measure.distance_limit->0;
                let severity_rank = if level >= 3 {
                    InterruptionLevel::Critical
                } else if level == 2 {
                    InterruptionLevel::Active
                } else {
                    InterruptionLevel::Passive
                };
                match subscription.alerts@[at] {
                    AlertRule::EarthquakeWarning { estimated_intensity_bands, .. } => {
                        &&& near
                        &&& m.match_kind == 1
                        &&& place.intensity is Some
                        &&& exists|k: int| #[trigger]
                            is_first_band(estimated_intensity_bands@, place.intensity->0, k)
                                && m.interruption_level
                                == estimated_intensity_bands@[k].interruption_level
                    },
                    AlertRule::EarthquakeReport { .. } => {
                        &&& place.distance is Some
                        &&& measure.magnitude_met
                        &&& m.match_kind == 1
                        &&& m.interruption_level == InterruptionLevel::Passive
                    },
                    AlertRule::WeatherWarning { min_severity, .. } => {
                        &&& level >= min_severity
                        &&& m.interruption_level == severity_rank
                        &&& m.match_kind == 2 ==> shares
                        &&& m.match_kind != 2 ==> m.match_kind == 1 && !shares && near
                    },
                    AlertRule::Tsunami { min_severity, .. } => {
                        &&& level >= min_severity
                        &&& m.interruption_level == severity_rank
                        &&& m.match_kind == 2
                        &&& shares
                    },
                    AlertRule::Typhoon { .. } => {
                        &&& m.interruption_level == severity_rank
                        &&& m.match_kind == 1
                        &&& near
                    },
                }
            }),
{
    let rule = models::first_rule(subscription.alerts@, category)->0;
    let all = outcomes(rule, level, *measure);
    lemma_best(all);
    models::lemma_first_rule(subscription.alerts@, category);
    let m = r->0;
    let place = measure.targets@[m.target_ordinal as int];
    assert(all[m.target_ordinal as int] is Hit);
    lemma_shares_a_region(measure.regions@, place.regions@);
    if let AlertRule::EarthquakeWarning { estimated_intensity_bands, .. } = rule {
        lemma_band_index(estimated_intensity_bands@, place.intensity->0);
    }
    lemma_rule_index(subscription.alerts@, category);
}

proof fn lemma_rule_index<N>(alerts: Seq<AlertRule<N>>, category: DisasterCategory)
    requires
        models::first_rule(alerts, category) is Some,
    ensures
        exists|k: int| #[trigger]
            models::is_first_about(alerts, category, k) && Some(alerts[k]) == models::first_rule(
                alerts,
                category,
            ),
    decreases alerts.len(),
{
    if alerts[0].about() == category {
        assert(models::is_first_about(alerts, category, 0));
    } else {
        let rest = alerts.drop_first();
        lemma_rule_index(rest, category);
        let k = choose|k: int| #[trigger]
            models::is_first_about(rest, category, k) && Some(rest[k]) == models::first_rule(
                rest,
                category,
            );
        assert forall|i: int| 0 <= i < k + 1 implies (#[trigger] alerts[i]).about() != category by {
            if i > 0 {
                assert(rest[i - 1] == alerts[i]);
            }
        }
        assert(models::is_first_about(alerts, category, k + 1));
    }
}

/// A subscription with one place is told of everything that its rule asks for at that place, and
/// of nothing else.
pub proof fn law_one_place_is_matched_by_its_rule<N>(
    subscription: &Subscription<N>,
    category: DisasterCategory,
    at: int,
    source: &str,
    level: u8,
    measure: &EventMeasure,
    r: Option<ReferenceMatch>,
)
    requires
        call_ensures(match_subscription::<N>, (subscription, category, source, level, measure), r),
        models::is_first_about(subscription.alerts@, category, at),
        measure.targets@.len() == 1,
        subscription.alerts@[at].selection() matches SourceSelection::Include { ids } ==> exists|
            i: int,
        |
            0 <= i < ids@.len() && #[trigger] ids@[i]@ == source@,
    ensures
        r matches Some(m) ==> m.target_ordinal == 0,
        ({
            let place = measure.targets@[0];
            let shares = shares_a_region(measure.regions@, place.regions@);
            let near = place.distance is Some && measure.distance_limit is Some
                && place.distance->0 <= measure.distance_limit->0;
            match subscription.alerts@[at] {
                AlertRule::EarthquakeWarning { estimated_intensity_bands, .. } => r is Some <==> (
                near && place.intensity is Some && exists|k: int| #[trigger]
                    is_first_band(estimated_intensity_bands@, place.intensity->0, k)),
                AlertRule::EarthquakeReport { .. } => r is Some <==> place.distance is Some
                    && measure.magnitude_met,
                AlertRule::WeatherWarning { min_severity, .. } => r is Some <==> level
                    >= min_severity && (shares || near),
                AlertRule::Tsunami { min_severity, .. } => r is Some <==> level >= min_severity
                    && shares,
                AlertRule::Typhoon { .. } => r is Some <==> near,
            }
        }),
{
    models::lemma_is_first_rule(subscription.alerts@, category, at);
    let rule = subscription.alerts@[at];
    if let SourceSelection::Include { ids } = rule.selection() {
        lemma_texts_contain(ids@, source@);
    }
    let place = measure.targets@[0];
    lemma_shares_a_region(measure.regions@, place.regions@);
    let all = outcomes(rule, level, *measure);
    assert(best_of(all.drop_last()) == Some(None::<Best>));
    assert(all.last() == target_outcome(
        rule,
        level,
        measure.regions@,
        measure.distance_limit,
        place,
    ));
    if let AlertRule::EarthquakeWarning { estimated_intensity_bands, .. } = rule {
        if let Some(intensity) = place.intensity {
            lemma_band_index(estimated_intensity_bands@, intensity);
            if exists|k: int| #[trigger]
                is_first_band(estimated_intensity_bands@, intensity, k) {
                let k = choose|k: int| #[trigger]
                    is_first_band(estimated_intensity_bands@, intensity, k);
                assert(estimated_intensity_bands@[k].min <= intensity);
            }
        }
    }
}

/// Of several places the nearest that matches counts: it would match on its own in the same way,
/// and any other place that would is at least as far, and farther if it comes earlier. A place whose
/// distance is not known counts as the nearest.
pub proof fn law_nearest_place_counts<N>(
    subscription: &Subscription<N>,
    category: DisasterCategory,
    source: &str,
    level: u8,
    measure: &EventMeasure,
    r: Option<ReferenceMatch>,
    alone: &EventMeasure,
    k: int,
    of_alone: Option<ReferenceMatch>,
)
    requires
        call_ensures(match_subscription::<N>, (subscription, category, source, level, measure), r),
        r is Some,
        0 <= k < measure.targets@.len(),
        alone.regions@ == measure.regions@,
        alone.magnitude_met == measure.magnitude_met,
        alone.distance_limit == measure.distance_limit,
        alone.targets@ == seq![measure.targets@[k]],
        call_ensures(
            match_subscription::<N>,
            (subscription, category, source, level, alone),
            of_alone,
        ),
    ensures
        k == r->0.target_ordinal ==> (of_alone matches Some(a) && a.match_kind == r->0.match_kind
            && a.interruption_level == r->0.interruption_level),
        of_alone is Some ==> {
            let here = match measure.targets@[r->0.target_ordinal as int].distance {
                Some(distance) => distance,
                None => 0,
            };
            let there = match measure.targets@[k].distance {
                Some(distance) => distance,
                None => 0,
            };
            here <= there && (k < r->0.target_ordinal ==> here < there)
        },
{
    let rule = models::first_rule(subscription.alerts@, category)->0;
    let all = outcomes(rule, level, *measure);
    let one = outcomes(rule, level, *alone);
    lemma_best(all);
    assert(one.last() == all[k]);
    assert(best_of(one.drop_last()) == Some(None::<Best>));
    assert(all[k] is Hit || all[k] is Skip);
    assert(all[r->0.target_ordinal as int] is Hit);
}

/// Where no place would be matched on its own, none is matched; and where one would be and no place
/// ends the search, one is matched. A place ends the search where a warning or a report of an
/// earthquake has no distance to it, and where a warning of weather or a typhoon does not reach it.
pub proof fn law_some_place_is_matched<N>(
    subscription: &Subscription<N>,
    category: DisasterCategory,
    at: int,
    source: &str,
    level: u8,
    measure: &EventMeasure,
    r: Option<ReferenceMatch>,
    alone: &EventMeasure,
    k: int,
    of_alone: Option<ReferenceMatch>,
)
    requires
        call_ensures(match_subscription::<N>, (subscription, category, source, level, measure), r),
        models::is_first_about(subscription.alerts@, category, at),
        0 <= k < measure.targets@.len() <= 256,
        alone.regions@ == measure.regions@,
        alone.magnitude_met == measure.magnitude_met,
        alone.distance_limit == measure.distance_limit,
        alone.targets@ == seq![measure.targets@[k]],
        call_ensures(
            match_subscription::<N>,
            (subscription, category, source, level, alone),
            of_alone,
        ),
        of_alone is Some,
        forall|i: int|
            #![trigger measure.targets@[i]]
            0 <= i < measure.targets@.len() ==> {
                let place = measure.targets@[i];
                let near = place.distance is Some && measure.distance_limit is Some
                    && place.distance->0 <= measure.distance_limit->0;
                match subscription.alerts@[at] {
                    AlertRule::EarthquakeWarning { .. } => place.distance is Some
                        && place.intensity is Some,
                    AlertRule::EarthquakeReport { .. } => place.distance is Some,
                    AlertRule::WeatherWarning { .. } => near || shares_a_region(
                        measure.regions@,
                        place.regions@,
                    ),
                    AlertRule::Tsunami { .. } => true,
                    AlertRule::Typhoon { .. } => near,
                }
            },
    ensures
        r is Some,
{
    models::lemma_is_first_rule(subscription.alerts@, category, at);
    let rule = subscription.alerts@[at];
    let all = outcomes(rule, level, *measure);
    let one = outcomes(rule, level, *alone);
    assert(one.last() == all[k]);
    assert(best_of(one.drop_last()) == Some(None::<Best>));
    assert forall|i: int| 0 <= i < all.len() implies !(#[trigger] all[i] is Abort) by {
        lemma_shares_a_region(measure.regions@, measure.targets@[i].regions@);
    }
    lemma_search_goes_on(all);
    lemma_best(all);
    assert(all[k] is Hit);
}

proof fn lemma_search_goes_on(all: Seq<TargetOutcome>)
    requires
        forall|i: int| 0 <= i < all.len() ==> !(#[trigger] all[i] is Abort),
    ensures
        best_of(all) is Some,
    decreases all.len(),
{
    if all.len() > 0 {
        let rest = all.drop_last();
        assert forall|i: int| 0 <= i < rest.len() implies !(#[trigger] rest[i] is Abort) by {
            assert(rest[i] == all[i]);
        }
        lemma_search_goes_on(rest);
        assert(!(all[all.len() - 1] is Abort));
    }
}

/// A sample has the coordinates of a place of a subscription, comes from a source and is of the
/// kind of a rule of it, and is as strong as was asked. There are no more than were asked for.
pub proof fn law_samples_are_at_the_places<N: Copy, F: Fn(&str) -> bool>(
    subscriptions: &Vec<Subscription<N>>,
    limit: usize,
    magnitude: N,
    depth_km: N,
    names_region: F,
    events: Vec<DisasterEvent<N>>,
    i: int,
)
    requires
        call_ensures(
            sample_events::<N, F>,
            (subscriptions, limit, magnitude, depth_km, names_region),
            events,
        ),
        0 <= i < events@.len(),
    ensures
        events@.len() <= limit,
        events@[i].magnitude == Some(magnitude),
        events@[i].depth_km == Some(depth_km),
        events@[i].level == 4,
        !events@[i].cancel && !events@[i].training && !events@[i].final_report,
        exists|s: int, k: int, t: int| #[trigger]
            is_place_of(subscriptions@, s, k, t) && events@[i].category
                == subscriptions@[s].alerts@[k].about() && events@[i].latitude == Some(
                subscriptions@[s].targets@[t].point.latitude,
            ) && events@[i].longitude == Some(subscriptions@[s].targets@[t].point.longitude),
{
    let all = samples(subscriptions@, subscriptions@.len() as int);
    let wanted = first_samples(all, limit as nat);
    lemma_samples_are_places(subscriptions@, subscriptions@.len() as int);
    assert(wanted[i] == all[i]);
    let of = all[i];
    assert(is_place_of(subscriptions@, of.subscription, of.rule, of.target));
    assert(is_sample(
        events@[i],
        i as nat,
        subscriptions@[of.subscription].alerts@[of.rule],
        subscriptions@[of.subscription].targets@[of.target],
        magnitude,
        depth_km,
        names_region,
    ));
}

/// Whether a subscription has a rule and a place with these numbers.
pub open spec fn is_place_of<N>(subscriptions: Seq<Subscription<N>>, s: int, k: int, t: int) -> bool {
    &&& 0 <= s < subscriptions.len()
    &&& 0 <= k < subscriptions[s].alerts@.len()
    &&& 0 <= t < subscriptions[s].targets@.len()
}

proof fn lemma_subscription_samples_are_places<N>(
    subscriptions: Seq<Subscription<N>>,
    s: int,
    rules: int,
)
    requires
        0 <= s < subscriptions.len(),
        0 <= rules <= subscriptions[s].alerts@.len(),
    ensures
        forall|i: int|
            0 <= i < subscription_samples(s, subscriptions[s], rules).len() ==> {
                let of = #[trigger] subscription_samples(s, subscriptions[s], rules)[i];
                of.subscription == s && is_place_of(subscriptions, s, of.rule, of.target)
            },
    decreases rules,
{
    if rules > 0 {
        lemma_subscription_samples_are_places(subscriptions, s, rules - 1);
        let before = subscription_samples(s, subscriptions[s], rules - 1);
        let more = rule_samples(
            s,
            rules - 1,
            subscriptions[s].alerts@[rules - 1],
            subscriptions[s].targets@.len() as int,
        );
        assert forall|i: int| 0 <= i < subscription_samples(s, subscriptions[s], rules).len() implies {
            let of = #[trigger] subscription_samples(s, subscriptions[s], rules)[i];
            of.subscription == s && is_place_of(subscriptions, s, of.rule, of.target)
        } by {
            if i < before.len() {
                assert(subscription_samples(s, subscriptions[s], rules)[i] == before[i]);
            } else {
                assert(subscription_samples(s, subscriptions[s], rules)[i] == more[i
                    - before.len()]);
            }
        }
    }
}

proof fn lemma_samples_are_places<N>(subscriptions: Seq<Subscription<N>>, count: int)
    requires
        0 <= count <= subscriptions.len(),
    ensures
        forall|i: int|
            0 <= i < samples(subscriptions, count).len() ==> {
                let of = #[trigger] samples(subscriptions, count)[i];
                is_place_of(subscriptions, of.subscription, of.rule, of.target)
            },
    decreases count,
{
    if count > 0 {
        lemma_samples_are_places(subscriptions, count - 1);
        let s = count - 1;
        let rules = subscriptions[s].alerts@.len() as int;
        lemma_subscription_samples_are_places(subscriptions, s, rules);
        let before = samples(subscriptions, count - 1);
        let more = subscription_samples(s, subscriptions[s], rules);
        assert forall|i: int| 0 <= i < samples(subscriptions, count).len() implies {
            let of = #[trigger] samples(subscriptions, count)[i];
            is_place_of(subscriptions, of.subscription, of.rule, of.target)
        } by {
            if i < before.len() {
                assert(samples(subscriptions, count)[i] == before[i]);
            } else {
                assert(samples(subscriptions, count)[i] == more[i - before.len()]);
            }
        }
    }
}

/// Every place gets a sample by every rule that has a source, unless there are as many samples as
/// were asked for.
pub proof fn law_every_place_gets_a_sample<N: Copy, F: Fn(&str) -> bool>(
    subscriptions: &Vec<Subscription<N>>,
    limit: usize,
    magnitude: N,
    depth_km: N,
    names_region: F,
    events: Vec<DisasterEvent<N>>,
    s: int,
    k: int,
    t: int,
)
    requires
        call_ensures(
            sample_events::<N, F>,
            (subscriptions, limit, magnitude, depth_km, names_region),
            events,
        ),
        events@.len() < limit,
        is_place_of(subscriptions@, s, k, t),
        source_of_sample(subscriptions@[s].alerts@[k]) is Some,
    ensures
        exists|i: int|
            0 <= i < events@.len() && (#[trigger] events@[i]).category
                == subscriptions@[s].alerts@[k].about() && events@[i].latitude == Some(
                subscriptions@[s].targets@[t].point.latitude,
            ) && events@[i].longitude == Some(subscriptions@[s].targets@[t].point.longitude)
                && events@[i].source@ == source_of_sample(subscriptions@[s].alerts@[k])->0.id@,
{
    let all = samples(subscriptions@, subscriptions@.len() as int);
    assert(first_samples(all, limit as nat) == all);
    let here = subscription_samples(s, subscriptions@[s], k + 1);
    let before_rules = subscription_samples(s, subscriptions@[s], k);
    let rule = rule_samples(
        s,
        k,
        subscriptions@[s].alerts@[k],
        subscriptions@[s].targets@.len() as int,
    );
    let j = (before_rules.len() + t) as int;
    assert(here[j] == rule[t]);
    lemma_subscription_samples_grow(
        s,
        subscriptions@[s],
        k + 1,
        subscriptions@[s].alerts@.len() as int,
    );
    let whole = subscription_samples(s, subscriptions@[s], subscriptions@[s].alerts@.len() as int);
    assert(whole[j] == here[j]);
    let before = samples(subscriptions@, s);
    let i = before.len() + j;
    assert(samples(subscriptions@, s + 1)[i] == whole[j]);
    lemma_samples_grow(subscriptions@, s + 1, subscriptions@.len() as int);
    assert(all[i] == samples(subscriptions@, s + 1)[i]);
    assert(is_sample(
        events@[i],
        i as nat,
        subscriptions@[s].alerts@[k],
        subscriptions@[s].targets@[t],
        magnitude,
        depth_km,
        names_region,
    ));
    assert(events@[i].category == subscriptions@[s].alerts@[k].about());
}

/// A sample for a rule comes from the first source that the rule lists, and for a rule that lists
/// none from one that reports its kind of disaster.
pub proof fn law_sample_comes_from_a_source_of_the_rule<N>(
    rule: &AlertRule<N>,
    r: Option<SourceDefinition>,
)
    requires
        call_ensures(sample_source::<N>, (rule,), r),
    ensures
        rule.selection() matches SourceSelection::Include { ids } ==> (r matches Some(source)
            ==> ids@.len() > 0 && source.id@ == ids@[0]@),
        rule.selection() is All ==> (r matches Some(source) ==> source.category == rule.about()),
        r matches Some(source) ==> source_registry::source_list().contains(source),
{
    match rule.selection() {
        SourceSelection::All => {
            source_registry::lemma_first_source(
                source_registry::source_list(),
                source_registry::reports(rule.about()),
            );
        },
        SourceSelection::Include { ids } => {
            if ids@.len() > 0 {
                source_registry::law_found_source_has_the_id(ids@[0]@);
            }
        },
    }
}

/// A place ends the search, so that nothing is matched: where an earthquake has no distance to it,
/// where a warning reaches it but has no intensity there, and where a warning of weather or a
/// typhoon does not reach it.
pub proof fn law_where_the_search_ends<N>(
    subscription: &Subscription<N>,
    category: DisasterCategory,
    at: int,
    source: &str,
    level: u8,
    measure: &EventMeasure,
    r: Option<ReferenceMatch>,
    k: int,
)
    requires
        call_ensures(match_subscription::<N>, (subscription, category, source, level, measure), r),
        models::is_first_about(subscription.alerts@, category, at),
        0 <= k < measure.targets@.len(),
        ({
            let place = measure.targets@[k];
            let near = place.distance is Some && measure.distance_limit is Some
                && place.distance->0 <= measure.distance_limit->0;
            match subscription.alerts@[at] {
                AlertRule::EarthquakeWarning { .. } => place.distance is None || (near
                    && place.intensity is None),
                AlertRule::EarthquakeReport { .. } => place.distance is None,
                AlertRule::WeatherWarning { .. } => !near && !shares_a_region(
                    measure.regions@,
                    place.regions@,
                ),
                AlertRule::Tsunami { .. } => false,
                AlertRule::Typhoon { .. } => !near,
            }
        }),
    ensures
        r is None,
{
    models::lemma_is_first_rule(subscription.alerts@, category, at);
    let all = outcomes(subscription.alerts@[at], level, *measure);
    lemma_shares_a_region(measure.regions@, measure.targets@[k].regions@);
    assert(all[k] is Abort);
    lemma_best(all);
}

/// Samples are numbered from zero on, and none of them says more than a first report of the
/// beginning of 2026. A sample concerns the district of its place where that has a name, else its
/// city, else its province, and else no region.
pub proof fn law_what_a_sample_says<N: Copy, F: Fn(&str) -> bool>(
    subscriptions: &Vec<Subscription<N>>,
    limit: usize,
    magnitude: N,
    depth_km: N,
    names_region: F,
    named: spec_fn(Seq<char>) -> bool,
    events: Vec<DisasterEvent<N>>,
    i: int,
    number: String,
)
    requires
        call_ensures(
            sample_events::<N, F>,
            (subscriptions, limit, magnitude, depth_km, names_region),
            events,
        ),
        forall|x: &str, b: bool| #[trigger] names_region.ensures((x,), b) ==> b == named(x@),
        0 <= i < events@.len() <= u64::MAX,
        call_ensures(text::decimal_text, (i as u64,), number),
    ensures
        events@[i].event_id@ == "migration-sample-"@ + number@,
        events@[i].occurred_at@ == "2026-01-01T00:00:00Z"@,
        events@[i].revision@ == "1"@ && events@[i].report_num == 1,
        events@[i].title@.len() == 0 && events@[i].description@.len() == 0,
        events@[i].radius_km is None,
        exists|s: int, k: int, t: int|
            {
                let region = subscriptions@[s].targets@[t].region;
                let regions = events@[i].affected_regions@;
                &&& #[trigger] is_place_of(subscriptions@, s, k, t)
                &&& events@[i].latitude == Some(subscriptions@[s].targets@[t].point.latitude)
                &&& events@[i].longitude == Some(subscriptions@[s].targets@[t].point.longitude)
                &&& regions.len() <= 1
                &&& named(region.district@) ==> regions.len() == 1 && regions[0]@
                    == region.district@
                &&& !named(region.district@) && named(region.city@) ==> regions.len() == 1
                    && regions[0]@ == region.city@
                &&& !named(region.district@) && !named(region.city@) && named(region.province@)
                    ==> regions.len() == 1 && regions[0]@ == region.province@
                &&& !named(region.district@) && !named(region.city@) && !named(region.province@)
                    ==> regions.len() == 0
            },
{
    let all = samples(subscriptions@, subscriptions@.len() as int);
    let wanted = first_samples(all, limit as nat);
    lemma_samples_are_places(subscriptions@, subscriptions@.len() as int);
    assert(wanted[i] == all[i]);
    let of = all[i];
    assert(is_place_of(subscriptions@, of.subscription, of.rule, of.target));
    let target = subscriptions@[of.subscription].targets@[of.target];
    assert(is_sample(
        events@[i],
        i as nat,
        subscriptions@[of.subscription].alerts@[of.rule],
        target,
        magnitude,
        depth_km,
        names_region,
    ));
    let regions = events@[i].affected_regions@;
    assert(is_region_of(regions, target, names_region));
    lemma_may_say(names_region, named, target.region.district@);
    lemma_may_say(names_region, named, target.region.city@);
    lemma_may_say(names_region, named, target.region.province@);
    assert(text::texts(regions).len() == regions.len());
    if regions.len() == 1 {
        assert(text::texts(regions)[0] == regions[0]@);
    }
}

proof fn lemma_may_say<F: Fn(&str) -> bool>(f: F, named: spec_fn(Seq<char>) -> bool, s: Seq<char>)
    requires
        forall|x: &str, b: bool| #[trigger] f.ensures((x,), b) ==> b == named(x@),
    ensures
        may_say(f, s, true) ==> named(s),
        may_say(f, s, false) ==> !named(s),
{
}

/// A rule that lists a registered source first has a sample from it, and a rule for all sources one
/// from the first that reports what it is about.
pub proof fn law_samples_have_their_source<N>(
    rule: &AlertRule<N>,
    r: Option<SourceDefinition>,
    listed: Vec<SourceDefinition>,
    at: int,
)
    requires
        call_ensures(sample_source::<N>, (rule,), r),
        call_ensures(source_registry::sources, (), listed),
        0 <= at < listed@.len(),
        rule.selection() matches SourceSelection::Include { ids } ==> ids@.len() > 0 && ids@[0]@
            == listed@[at].id@,
        rule.selection() is All ==> listed@[at].category == rule.about() && forall|j: int|
            0 <= j < at ==> (#[trigger] listed@[j]).category != rule.about(),
    ensures
        r == Some(listed@[at]),
{
    match rule.selection() {
        SourceSelection::All => {
            source_registry::lemma_is_first_source(
                source_registry::source_list(),
                source_registry::reports(rule.about()),
                at,
            );
        },
        SourceSelection::Include { ids } => {
            source_registry::law_sources_are_found(at);
        },
    }
}

} // verus!
