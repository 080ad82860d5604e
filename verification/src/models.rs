//! Subscriptions, the rules in them, and the disasters that they are about.
//!
//! Coordinates, magnitudes and distances are carried as they come and never computed with, so
//! the types are generic in them.
use crate::text;
use vstd::prelude::*;

verus! {

#[derive(Debug, Clone, Copy, PartialEq, Eq, Hash, Structural)]
pub enum DisasterCategory {
    EarthquakeWarning,
    EarthquakeReport,
    WeatherWarning,
    Tsunami,
    Typhoon,
}

/// All kinds of disasters, in the order in which they are offered.
pub open spec fn category_list() -> Seq<DisasterCategory> {
    seq![
        DisasterCategory::EarthquakeWarning,
        DisasterCategory::EarthquakeReport,
        DisasterCategory::WeatherWarning,
        DisasterCategory::Tsunami,
        DisasterCategory::Typhoon,
    ]
}

/// Every kind of disaster is listed once.
pub proof fn law_categories_are_complete(category: DisasterCategory)
    ensures
        category_list().contains(category),
        category_list().no_duplicates(),
{
    assert(category_list()[0] == DisasterCategory::EarthquakeWarning);
    assert(category_list()[1] == DisasterCategory::EarthquakeReport);
    assert(category_list()[2] == DisasterCategory::WeatherWarning);
    assert(category_list()[3] == DisasterCategory::Tsunami);
    assert(category_list()[4] == DisasterCategory::Typhoon);
}

impl DisasterCategory {
    pub fn all() -> (r: Vec<DisasterCategory>)
        ensures
            r@ == category_list(),
    {
        vec![
            DisasterCategory::EarthquakeWarning,
            DisasterCategory::EarthquakeReport,
            DisasterCategory::WeatherWarning,
            DisasterCategory::Tsunami,
            DisasterCategory::Typhoon,
        ]
    }

    /// The name of a kind of disaster in requests and answers.
    pub open spec fn name(self) -> &'static str {
        match self {
            DisasterCategory::EarthquakeWarning => "earthquake_warning",
            DisasterCategory::EarthquakeReport => "earthquake_report",
            DisasterCategory::WeatherWarning => "weather_warning",
            DisasterCategory::Tsunami => "tsunami",
            DisasterCategory::Typhoon => "typhoon",
        }
    }

    pub fn as_str(self) -> (r: &'static str)
        ensures
            r == self.name(),
    {
        match self {
            DisasterCategory::EarthquakeWarning => "earthquake_warning",
            DisasterCategory::EarthquakeReport => "earthquake_report",
            DisasterCategory::WeatherWarning => "weather_warning",
            DisasterCategory::Tsunami => "tsunami",
            DisasterCategory::Typhoon => "typhoon",
        }
    }
}

#[derive(Debug, Clone, Copy, PartialEq, Eq, Hash, Structural)]
pub enum ProviderChannel {
    Wolfx,
    FanStudio,
    Huania,
}

/// How strongly a notification interrupts.
#[derive(Debug, Clone, Copy, PartialEq, Eq, Hash, Structural)]
pub enum InterruptionLevel {
    Passive,
    Active,
    Critical,
}

impl InterruptionLevel {
    pub open spec fn name(self) -> &'static str {
        match self {
            InterruptionLevel::Passive => "passive",
            InterruptionLevel::Active => "active",
            InterruptionLevel::Critical => "critical",
        }
    }

    pub fn as_str(self) -> (r: &'static str)
        ensures
            r == self.name(),
    {
        match self {
            InterruptionLevel::Passive => "passive",
            InterruptionLevel::Active => "active",
            InterruptionLevel::Critical => "critical",
        }
    }
}

/// From which sources a rule takes events.
#[derive(Debug)]
pub enum SourceSelection {
    All,
    Include { ids: Vec<String> },
}

impl SourceSelection {
    /// Whether two selections take events from the same sources, listed in the same order.
    pub open spec fn same_as(self, other: SourceSelection) -> bool {
        match (self, other) {
            (SourceSelection::All, SourceSelection::All) => true,
            (SourceSelection::Include { ids: a }, SourceSelection::Include { ids: b }) => a@ == b@,
            _ => false,
        }
    }
}

impl Clone for SourceSelection {
    fn clone(&self) -> (r: SourceSelection)
        ensures
            r.same_as(*self),
    {
        match self {
            SourceSelection::All => SourceSelection::All,
            SourceSelection::Include { ids } => SourceSelection::Include {
                ids: text::clone_texts(ids),
            },
        }
    }
}

/// The intensities at which a warning interrupts in some way.
#[derive(Debug, Clone, Copy, PartialEq, Eq, Structural)]
pub struct IntensityBand {
    pub min: u8,
    pub max: u8,
    pub interruption_level: InterruptionLevel,
}

/// What a subscriber wants to hear of a kind of disaster.
#[derive(Debug)]
pub enum AlertRule<N> {
    EarthquakeWarning { sources: SourceSelection, estimated_intensity_bands: Vec<IntensityBand> },
    EarthquakeReport { sources: SourceSelection, min_magnitude: N },
    WeatherWarning { sources: SourceSelection, min_severity: u8, fallback_radius_km: N },
    Tsunami { sources: SourceSelection, min_severity: u8 },
    Typhoon { sources: SourceSelection, max_center_distance_km: N },
}

impl<N> AlertRule<N> {
    pub open spec fn about(self) -> DisasterCategory {
        match self {
            AlertRule::EarthquakeWarning { .. } => DisasterCategory::EarthquakeWarning,
            AlertRule::EarthquakeReport { .. } => DisasterCategory::EarthquakeReport,
            AlertRule::WeatherWarning { .. } => DisasterCategory::WeatherWarning,
            AlertRule::Tsunami { .. } => DisasterCategory::Tsunami,
            AlertRule::Typhoon { .. } => DisasterCategory::Typhoon,
        }
    }

    pub fn category(&self) -> (r: DisasterCategory)
        ensures
            r == self.about(),
    {
        match self {
            AlertRule::EarthquakeWarning { .. } => DisasterCategory::EarthquakeWarning,
            AlertRule::EarthquakeReport { .. } => DisasterCategory::EarthquakeReport,
            AlertRule::WeatherWarning { .. } => DisasterCategory::WeatherWarning,
            AlertRule::Tsunami { .. } => DisasterCategory::Tsunami,
            AlertRule::Typhoon { .. } => DisasterCategory::Typhoon,
        }
    }

    pub open spec fn selection(self) -> SourceSelection {
        match self {
            AlertRule::EarthquakeWarning { sources, .. } => sources,
            AlertRule::EarthquakeReport { sources, .. } => sources,
            AlertRule::WeatherWarning { sources, .. } => sources,
            AlertRule::Tsunami { sources, .. } => sources,
            AlertRule::Typhoon { sources, .. } => sources,
        }
    }

    pub fn sources(&self) -> (r: &SourceSelection)
        ensures
            *r == self.selection(),
    {
        match self {
            AlertRule::EarthquakeWarning { sources, .. } => sources,
            AlertRule::EarthquakeReport { sources, .. } => sources,
            AlertRule::WeatherWarning { sources, .. } => sources,
            AlertRule::Tsunami { sources, .. } => sources,
            AlertRule::Typhoon { sources, .. } => sources,
        }
    }

    /// The intensities at which a rule on warnings interrupts; other rules have none.
    pub open spec fn bands(self) -> Option<Seq<IntensityBand>> {
        match self {
            AlertRule::EarthquakeWarning { estimated_intensity_bands, .. } => Some(
                estimated_intensity_bands@,
            ),
            _ => None,
        }
    }
}

#[derive(Debug, Clone, Copy, PartialEq)]
pub struct GeoPoint<N> {
    pub latitude: N,
    pub longitude: N,
}

#[derive(Debug, Clone, PartialEq, Eq, Default)]
pub struct AdministrativeRegion {
    pub province: String,
    pub city: String,
    pub district: String,
}

/// A place for which a subscriber wants to be warned.
#[derive(Debug, Clone)]
pub struct MonitoringTarget<N> {
    pub label: String,
    pub point: GeoPoint<N>,
    pub region: AdministrativeRegion,
}

/// Where notifications go.
#[derive(Debug, Clone, PartialEq, Eq)]
pub enum NotificationDestination {
    Bark { base_url: String, device_key: String },
}

impl NotificationDestination {
    pub fn bark_device_key(&self) -> (r: &str)
        ensures
            r@ == self->device_key@,
    {
        match self {
            NotificationDestination::Bark { device_key, .. } => device_key.as_str(),
        }
    }

    pub fn bark_base_url(&self) -> (r: &str)
        ensures
            r@ == self->base_url@,
    {
        match self {
            NotificationDestination::Bark { base_url, .. } => base_url.as_str(),
        }
    }
}

/// A destination, as subscriptions are found by it.
#[derive(Debug, Clone, PartialEq, Eq)]
pub struct DestinationId {
    pub base_url: String,
    pub device_key: String,
}

#[derive(Debug)]
pub struct Subscription<N> {
    pub destination: NotificationDestination,
    pub targets: Vec<MonitoringTarget<N>>,
    pub alerts: Vec<AlertRule<N>>,
}

/// The first rule that is about a kind of disaster.
pub open spec fn first_rule<N>(alerts: Seq<AlertRule<N>>, category: DisasterCategory) -> Option<
    AlertRule<N>,
>
    decreases alerts.len(),
{
    if alerts.len() == 0 {
        None
    } else if alerts[0].about() == category {
        Some(alerts[0])
    } else {
        first_rule(alerts.drop_first(), category)
    }
}

impl<N> Subscription<N> {
    pub fn new(
        destination: NotificationDestination,
        targets: Vec<MonitoringTarget<N>>,
        alerts: Vec<AlertRule<N>>,
    ) -> (r: Subscription<N>)
        ensures
            r.destination == destination,
            r.targets == targets,
            r.alerts == alerts,
    {
        Subscription { destination, targets, alerts }
    }

    /// The rule for a kind of disaster.
    pub fn alert(&self, category: DisasterCategory) -> (r: Option<&AlertRule<N>>)
        ensures
            match r {
                Some(rule) => first_rule(self.alerts@, category) == Some(*rule),
                None => first_rule(self.alerts@, category) is None,
            },
    {
        let mut i: usize = 0;
        assert(self.alerts@.skip(0) =~= self.alerts@);
        while i < self.alerts.len()
            invariant
                i <= self.alerts@.len(),
                first_rule(self.alerts@, category) == first_rule(
                    self.alerts@.skip(i as int),
                    category,
                ),
            decreases self.alerts@.len() - i,
        {
            proof {
                let rest = self.alerts@.skip(i as int);
                assert(rest[0] == self.alerts@[i as int]);
                assert(rest.drop_first() =~= self.alerts@.skip(i + 1));
            }
            if self.alerts[i].category() == category {
                return Some(&self.alerts[i]);
            }
            i += 1;
        }
        None
    }

    pub fn device_key(&self) -> (r: &str)
        ensures
            r@ == self.destination->device_key@,
    {
        self.destination.bark_device_key()
    }
}

/// The first rule about a kind of disaster is about it, and there is one if any rule is.
pub proof fn lemma_first_rule<N>(alerts: Seq<AlertRule<N>>, category: DisasterCategory)
    ensures
        first_rule(alerts, category) matches Some(rule) ==> rule.about() == category
            && alerts.contains(rule),
        first_rule(alerts, category) is None <==> forall|i: int|
            0 <= i < alerts.len() ==> (#[trigger] alerts[i]).about() != category,
    decreases alerts.len(),
{
    if alerts.len() > 0 {
        let rest = alerts.drop_first();
        if alerts[0].about() != category {
            lemma_first_rule(rest, category);
            if let Some(rule) = first_rule(rest, category) {
                let k = choose|k: int| 0 <= k < rest.len() && rest[k] == rule;
                assert(alerts[k + 1] == rule);
            }
            if first_rule(rest, category) is None {
                assert forall|i: int| 0 <= i < alerts.len() implies (#[trigger] alerts[i]).about()
                    != category by {
                    if i > 0 {
                        assert(rest[i - 1] == alerts[i]);
                    }
                }
            } else {
                let k = choose|k: int|
                    0 <= k < rest.len() && (#[trigger] rest[k]).about() == category;
                assert(alerts[k + 1].about() == category);
            }
        } else {
            assert(alerts[0].about() == category);
        }
    }
}

/// A report of a disaster.
#[derive(Debug)]
pub struct DisasterEvent<N> {
    pub category: DisasterCategory,
    pub channel: ProviderChannel,
    pub source: String,
    pub event_id: String,
    pub revision: String,
    pub report_num: u32,
    pub title: String,
    pub description: String,
    pub latitude: Option<N>,
    pub longitude: Option<N>,
    pub magnitude: Option<N>,
    pub depth_km: Option<N>,
    pub affected_regions: Vec<String>,
    pub radius_km: Option<N>,
    pub level: u8,
    pub occurred_at: String,
    pub final_report: bool,
    pub cancel: bool,
    pub training: bool,
}

/// A disaster with all that was reported of it. `R` sums one report up.
#[derive(Debug)]
pub struct IncidentRecord<N, R> {
    pub id: String,
    pub category: DisasterCategory,
    pub first_seen_at_ms: i64,
    pub updated_at_ms: i64,
    pub has_matched_subscribers: bool,
    pub latest_by_source: Vec<DisasterEvent<N>>,
    pub timeline: Vec<R>,
}

/// A rule is about the kind of disaster that it is named after.
pub proof fn law_rule_is_about_its_kind<N>(rule: &AlertRule<N>, r: DisasterCategory)
    requires
        call_ensures(AlertRule::<N>::category, (rule,), r),
    ensures
        r == DisasterCategory::EarthquakeWarning <==> rule is EarthquakeWarning,
        r == DisasterCategory::EarthquakeReport <==> rule is EarthquakeReport,
        r == DisasterCategory::WeatherWarning <==> rule is WeatherWarning,
        r == DisasterCategory::Tsunami <==> rule is Tsunami,
        r == DisasterCategory::Typhoon <==> rule is Typhoon,
{
}

/// The sources of a rule are those that it was made with, whatever it is about.
pub proof fn law_rule_has_its_sources<N>(rule: &AlertRule<N>, r: &SourceSelection)
    requires
        call_ensures(AlertRule::<N>::sources, (rule,), r),
    ensures
        rule matches AlertRule::EarthquakeWarning { sources, .. } ==> *r == sources,
        rule matches AlertRule::EarthquakeReport { sources, .. } ==> *r == sources,
        rule matches AlertRule::WeatherWarning { sources, .. } ==> *r == sources,
        rule matches AlertRule::Tsunami { sources, .. } ==> *r == sources,
        rule matches AlertRule::Typhoon { sources, .. } ==> *r == sources,
{
}

/// The bands of a rule on warnings are those that it was made with; no other rule has any.
pub proof fn law_only_warnings_have_bands<N>(rule: AlertRule<N>)
    ensures
        rule matches AlertRule::EarthquakeWarning { estimated_intensity_bands, .. } ==> rule.bands()
            == Some(estimated_intensity_bands@),
        rule.bands() is Some <==> rule is EarthquakeWarning,
{
}

/// The kinds of disasters go by these names, and no two by one.
pub proof fn law_kinds_have_their_names(category: DisasterCategory, r: &'static str)
    requires
        call_ensures(DisasterCategory::as_str, (category,), r),
    ensures
        r@ == "earthquake_warning"@ <==> category == DisasterCategory::EarthquakeWarning,
        r@ == "earthquake_report"@ <==> category == DisasterCategory::EarthquakeReport,
        r@ == "weather_warning"@ <==> category == DisasterCategory::WeatherWarning,
        r@ == "tsunami"@ <==> category == DisasterCategory::Tsunami,
        r@ == "typhoon"@ <==> category == DisasterCategory::Typhoon,
{
    reveal_strlit("earthquake_warning");
    reveal_strlit("earthquake_report");
    reveal_strlit("weather_warning");
    reveal_strlit("tsunami");
    reveal_strlit("typhoon");
    assert("earthquake_warning"@.len() == 18);
    assert("earthquake_report"@.len() == 17);
    assert("weather_warning"@.len() == 15);
    assert("tsunami"@.len() == 7 && "tsunami"@[1] == 's');
    assert("typhoon"@.len() == 7 && "typhoon"@[1] == 'y');
}

/// All kinds of disasters are offered, each once, warnings of earthquakes first.
pub proof fn law_all_kinds_are_offered(r: Vec<DisasterCategory>, category: DisasterCategory)
    requires
        call_ensures(DisasterCategory::all, (), r),
    ensures
        r@.len() == 5,
        r@.contains(category),
        r@.no_duplicates(),
        r@[0] == DisasterCategory::EarthquakeWarning,
        r@[1] == DisasterCategory::EarthquakeReport,
        r@[2] == DisasterCategory::WeatherWarning,
        r@[3] == DisasterCategory::Tsunami,
        r@[4] == DisasterCategory::Typhoon,
{
    law_categories_are_complete(category);
}

/// Interruptions go by these names, and no two by one.
pub proof fn law_interruptions_have_their_names(level: InterruptionLevel, r: &'static str)
    requires
        call_ensures(InterruptionLevel::as_str, (level,), r),
    ensures
        r@ == "passive"@ <==> level == InterruptionLevel::Passive,
        r@ == "active"@ <==> level == InterruptionLevel::Active,
        r@ == "critical"@ <==> level == InterruptionLevel::Critical,
{
    reveal_strlit("passive");
    reveal_strlit("active");
    reveal_strlit("critical");
    assert("passive"@.len() == 7 && "active"@.len() == 6 && "critical"@.len() == 8);
}

/// A copy of a selection lists what the selection lists, in the same order.
pub proof fn law_copied_selection_is_the_selection(a: &SourceSelection, r: SourceSelection)
    requires
        call_ensures(SourceSelection::clone, (a,), r),
    ensures
        *a is All <==> r is All,
        *a matches SourceSelection::Include { ids } ==> (r matches SourceSelection::Include {
            ids: copied,
        } && copied@.len() == ids@.len() && forall|i: int|
            0 <= i < ids@.len() ==> #[trigger] copied@[i]@ == ids@[i]@),
{
}

/// A subscription has the destination, the places and the rules that it was made of.
pub proof fn law_subscription_is_made_of_its_parts<N>(
    destination: NotificationDestination,
    targets: Vec<MonitoringTarget<N>>,
    alerts: Vec<AlertRule<N>>,
    r: Subscription<N>,
    key: &str,
)
    requires
        call_ensures(Subscription::<N>::new, (destination, targets, alerts), r),
        call_ensures(Subscription::<N>::device_key, (&r,), key),
    ensures
        r.destination == destination,
        r.targets@ == targets@,
        r.alerts@ == alerts@,
        destination matches NotificationDestination::Bark { device_key, .. } && key@ == device_key@,
{
}

/// The parts of a destination are not mixed up.
pub proof fn law_destination_has_its_parts(
    destination: &NotificationDestination,
    url: &str,
    key: &str,
)
    requires
        call_ensures(NotificationDestination::bark_base_url, (destination,), url),
        call_ensures(NotificationDestination::bark_device_key, (destination,), key),
    ensures
        *destination matches NotificationDestination::Bark { base_url, device_key } && url@
            == base_url@ && key@ == device_key@,
{
}

/// The rule for a kind of disaster is the first of that kind: it is about it, no rule before it is,
/// and there is none only where no rule is about it.
pub proof fn law_first_rule_of_its_kind_counts<N>(
    subscription: &Subscription<N>,
    category: DisasterCategory,
    r: Option<&AlertRule<N>>,
)
    requires
        call_ensures(Subscription::<N>::alert, (subscription, category), r),
    ensures
        r is None <==> forall|i: int|
            0 <= i < subscription.alerts@.len() ==> (#[trigger] subscription.alerts@[i]).about()
                != category,
        r matches Some(rule) ==> exists|k: int| #[trigger]
            is_first_about(subscription.alerts@, category, k) && subscription.alerts@[k] == *rule,
{
    lemma_first_rule(subscription.alerts@, category);
    lemma_first_rule_index(subscription.alerts@, category);
}

/// Whether the rule at a place is the first that is about a kind of disaster.
pub open spec fn is_first_about<N>(
    alerts: Seq<AlertRule<N>>,
    category: DisasterCategory,
    k: int,
) -> bool {
    &&& 0 <= k < alerts.len()
    &&& alerts[k].about() == category
    &&& forall|i: int| 0 <= i < k ==> (#[trigger] alerts[i]).about() != category
}

proof fn lemma_first_rule_index<N>(alerts: Seq<AlertRule<N>>, category: DisasterCategory)
    ensures
        first_rule(alerts, category) matches Some(rule) ==> exists|k: int| #[trigger]
            is_first_about(alerts, category, k) && alerts[k] == rule,
    decreases alerts.len(),
{
    if alerts.len() > 0 {
        if alerts[0].about() == category {
            assert(is_first_about(alerts, category, 0));
        } else {
            let rest = alerts.drop_first();
            lemma_first_rule_index(rest, category);
            if let Some(rule) = first_rule(rest, category) {
                let k = choose|k: int| #[trigger]
                    is_first_about(rest, category, k) && rest[k] == rule;
                assert forall|i: int| 0 <= i < k + 1 implies (#[trigger] alerts[i]).about()
                    != category by {
                    if i > 0 {
                        assert(rest[i - 1] == alerts[i]);
                    }
                }
                assert(is_first_about(alerts, category, k + 1));
            }
        }
    }
}

/// The first rule about a kind of disaster is the one that is found.
pub proof fn lemma_is_first_rule<N>(
    alerts: Seq<AlertRule<N>>,
    category: DisasterCategory,
    k: int,
)
    requires
        is_first_about(alerts, category, k),
    ensures
        first_rule(alerts, category) == Some(alerts[k]),
    decreases alerts.len(),
{
    if k > 0 {
        let rest = alerts.drop_first();
        assert(alerts[0].about() != category);
        assert forall|i: int| 0 <= i < k - 1 implies (#[trigger] rest[i]).about() != category by {
            assert(rest[i] == alerts[i + 1]);
        }
        lemma_is_first_rule(rest, category, k - 1);
    }
}

} // verus!
