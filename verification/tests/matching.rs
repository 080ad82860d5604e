use disaster_alert::matching::{
    bark_level, match_subscription, sample_events, source_matches, threshold_matches,
    EventMeasure, ReferenceMatch, TargetMeasure,
};
use disaster_alert::models::{
    AdministrativeRegion, AlertRule, DisasterCategory, GeoPoint, IntensityBand, InterruptionLevel,
    MonitoringTarget, NotificationDestination, SourceSelection, Subscription,
};

fn subscription(alerts: Vec<AlertRule<f64>>) -> Subscription<f64> {
    Subscription::new(
        NotificationDestination::Bark {
            base_url: "https://api.day.app".to_string(),
            device_key: "abc123".to_string(),
        },
        vec![MonitoringTarget {
            label: "shanghai".to_string(),
            point: GeoPoint { latitude: 31.2304, longitude: 121.4737 },
            region: AdministrativeRegion::default(),
        }],
        alerts,
    )
}

fn spherical_distance_km(lat1: f64, lon1: f64, lat2: f64, lon2: f64) -> f64 {
    let latitude_delta = (lat2 - lat1).to_radians();
    let longitude_delta = (lon2 - lon1).to_radians();
    let left = lat1.to_radians();
    let right = lat2.to_radians();
    let a = ((latitude_delta / 2.0).sin().powi(2)
        + left.cos() * right.cos() * (longitude_delta / 2.0).sin().powi(2))
    .clamp(0.0, 1.0);
    6_371.008_8 * 2.0 * a.sqrt().atan2((1.0 - a).sqrt())
}

/// A distant report from Xinjiang, measured at each place of a subscription.
fn distant_xinjiang(subscription: &Subscription<f64>, intensity: u8) -> EventMeasure {
    EventMeasure {
        regions: vec!["新疆".to_string()],
        magnitude_met: true,
        distance_limit: Some(20_000.0_f64.to_bits()),
        targets: subscription
            .targets
            .iter()
            .map(|target| TargetMeasure {
                regions: Vec::new(),
                distance: Some(
                    spherical_distance_km(
                        40.99,
                        83.54,
                        target.point.latitude,
                        target.point.longitude,
                    )
                    .to_bits(),
                ),
                intensity: Some(intensity),
            })
            .collect(),
    }
}

#[test]
fn earthquake_report_notifies_far_events_that_meet_min_magnitude() {
    let subscription = subscription(vec![AlertRule::EarthquakeReport {
        sources: SourceSelection::All,
        min_magnitude: 1.0,
    }]);
    let mut measure = distant_xinjiang(&subscription, 0);
    measure.magnitude_met = 3.1 >= 1.0;
    assert!(match_subscription(
        &subscription,
        DisasterCategory::EarthquakeReport,
        "fanstudio.cenc",
        1,
        &measure
    )
    .is_some());
    measure.magnitude_met = false;
    assert!(match_subscription(
        &subscription,
        DisasterCategory::EarthquakeReport,
        "fanstudio.cenc",
        1,
        &measure
    )
    .is_none());
}

#[test]
fn earthquake_report_uses_passive_interruption_regardless_of_event_level() {
    let subscription = subscription(vec![AlertRule::EarthquakeReport {
        sources: SourceSelection::All,
        min_magnitude: 1.0,
    }]);
    let matched = match_subscription(
        &subscription,
        DisasterCategory::EarthquakeReport,
        "fanstudio.cenc",
        4,
        &distant_xinjiang(&subscription, 0),
    )
    .expect("reviewed reports that meet min magnitude should match");
    assert_eq!(matched.interruption_level, InterruptionLevel::Passive);
}

#[test]
fn earthquake_warning_does_not_notify_when_local_intensity_is_below_bands() {
    let subscription = subscription(vec![AlertRule::EarthquakeWarning {
        sources: SourceSelection::All,
        estimated_intensity_bands: vec![IntensityBand {
            min: 1,
            max: 7,
            interruption_level: InterruptionLevel::Passive,
        }],
    }]);
    assert!(match_subscription(
        &subscription,
        DisasterCategory::EarthquakeWarning,
        "fanstudio.cenc",
        1,
        &distant_xinjiang(&subscription, 0),
    )
    .is_none());
    assert_eq!(
        match_subscription(
            &subscription,
            DisasterCategory::EarthquakeWarning,
            "fanstudio.cenc",
            1,
            &distant_xinjiang(&subscription, 7),
        ),
        Some(ReferenceMatch {
            target_ordinal: 0,
            match_kind: 1,
            interruption_level: InterruptionLevel::Passive,
        })
    );
}

fn measured(regions: &[&str], distance: Option<u64>, intensity: Option<u8>) -> TargetMeasure {
    TargetMeasure {
        regions: regions.iter().map(|name| name.to_string()).collect(),
        distance,
        intensity,
    }
}

fn event(limit: Option<u64>, targets: Vec<TargetMeasure>) -> EventMeasure {
    EventMeasure {
        regions: vec!["成都".to_string(), String::new()],
        magnitude_met: true,
        distance_limit: limit,
        targets,
    }
}

#[test]
fn the_nearest_place_is_matched_and_the_first_of_equals() {
    let subscription = subscription(vec![AlertRule::EarthquakeReport {
        sources: SourceSelection::All,
        min_magnitude: 1.0,
    }]);
    let matched = |distances: &[u64]| {
        let targets = distances.iter().map(|d| measured(&[], Some(*d), None)).collect();
        match_subscription(
            &subscription,
            DisasterCategory::EarthquakeReport,
            "any",
            1,
            &event(None, targets),
        )
        .map(|found| found.target_ordinal)
    };
    assert_eq!(matched(&[5, 3, 3]), Some(1));
    assert_eq!(matched(&[3, 5, 3]), Some(0));
    assert_eq!(matched(&[]), None);
}

#[test]
fn weather_matches_regions_and_distances() {
    let subscription = subscription(vec![AlertRule::WeatherWarning {
        sources: SourceSelection::Include { ids: vec!["s".to_string()] },
        min_severity: 2,
        fallback_radius_km: 50.0,
    }]);
    let matched = |source: &str, level: u8, targets: Vec<TargetMeasure>| {
        match_subscription(
            &subscription,
            DisasterCategory::WeatherWarning,
            source,
            level,
            &event(Some(50), targets),
        )
        .map(|found| (found.target_ordinal, found.match_kind, found.interruption_level))
    };
    let near = || measured(&[""], Some(50), None);
    let far = || measured(&["上海"], Some(51), None);
    let inside = || measured(&["四川", "成都"], Some(900), None);
    assert_eq!(matched("s", 2, vec![near()]), Some((0, 1, InterruptionLevel::Active)));
    assert_eq!(matched("s", 3, vec![inside()]), Some((0, 2, InterruptionLevel::Critical)));
    assert_eq!(matched("s", 3, vec![inside(), near()]), Some((1, 1, InterruptionLevel::Critical)));
    assert_eq!(
        matched("s", 3, vec![measured(&["成都"], None, None)]),
        Some((0, 2, InterruptionLevel::Critical))
    );
    assert_eq!(matched("s", 3, vec![near(), far()]), None);
    assert_eq!(matched("s", 3, vec![measured(&[], None, None)]), None);
    assert_eq!(matched("s", 1, vec![near()]), None);
    assert_eq!(matched("t", 3, vec![near()]), None);
}

#[test]
fn tsunamis_match_regions_and_typhoons_distances() {
    let subscription = subscription(vec![
        AlertRule::Tsunami { sources: SourceSelection::All, min_severity: 1 },
        AlertRule::Typhoon { sources: SourceSelection::All, max_center_distance_km: 10.0 },
    ]);
    let matched = |category, targets| {
        match_subscription(&subscription, category, "any", 1, &event(Some(10), targets))
            .map(|found| (found.target_ordinal, found.match_kind))
    };
    let outside = || measured(&["上海"], Some(1), None);
    let inside = || measured(&["成都"], Some(5), None);
    assert_eq!(matched(DisasterCategory::Tsunami, vec![outside(), inside()]), Some((1, 2)));
    assert_eq!(matched(DisasterCategory::Tsunami, vec![outside()]), None);
    assert_eq!(matched(DisasterCategory::Typhoon, vec![inside(), outside()]), Some((1, 1)));
    assert_eq!(
        matched(DisasterCategory::Typhoon, vec![outside(), measured(&["成都"], Some(11), None)]),
        None
    );
    assert_eq!(matched(DisasterCategory::WeatherWarning, vec![inside()]), None);
}

#[test]
fn warnings_need_a_magnitude_and_coordinates() {
    let subscription = subscription(vec![AlertRule::EarthquakeWarning {
        sources: SourceSelection::All,
        estimated_intensity_bands: vec![IntensityBand {
            min: 3,
            max: 4,
            interruption_level: InterruptionLevel::Active,
        }],
    }]);
    let matched = |targets| {
        match_subscription(
            &subscription,
            DisasterCategory::EarthquakeWarning,
            "any",
            4,
            &event(Some(100), targets),
        )
        .map(|found| (found.target_ordinal, found.interruption_level))
    };
    let hit = || measured(&[], Some(9), Some(3));
    assert_eq!(
        matched(vec![measured(&[], Some(1), Some(5)), hit()]),
        Some((1, InterruptionLevel::Active))
    );
    assert_eq!(
        matched(vec![measured(&[], Some(101), None), hit()]),
        Some((1, InterruptionLevel::Active))
    );
    assert_eq!(matched(vec![hit(), measured(&[], Some(1), None)]), None);
    assert_eq!(matched(vec![hit(), measured(&[], None, Some(3))]), None);
}

#[test]
fn levels_and_thresholds() {
    assert_eq!(bark_level(0), InterruptionLevel::Passive);
    assert_eq!(bark_level(2), InterruptionLevel::Active);
    assert_eq!(bark_level(3), InterruptionLevel::Critical);
    let tsunami: AlertRule<f64> =
        AlertRule::Tsunami { sources: SourceSelection::All, min_severity: 2 };
    assert!(threshold_matches(&tsunami, 2, false));
    assert!(!threshold_matches(&tsunami, 1, true));
    let listed = SourceSelection::Include { ids: vec!["a".to_string()] };
    assert!(source_matches(&listed, "a"));
    assert!(!source_matches(&listed, "A"));
    assert!(source_matches(&SourceSelection::All, ""));
}

#[test]
fn zero_sample_limit_returns_no_events() {
    assert!(sample_events::<f64, _>(&Vec::new(), 0, 8.0, 0.0, |_| true).is_empty());
}

#[test]
fn samples_follow_subscriptions_rules_and_places() {
    let mut first = subscription(vec![
        AlertRule::EarthquakeReport { sources: SourceSelection::All, min_magnitude: 1.0 },
        AlertRule::Tsunami { sources: SourceSelection::All, min_severity: 1 },
        AlertRule::EarthquakeWarning {
            sources: SourceSelection::Include { ids: vec!["wolfx.sc_eew".to_string()] },
            estimated_intensity_bands: Vec::new(),
        },
    ]);
    first.targets.push(MonitoringTarget {
        label: "b".to_string(),
        point: GeoPoint { latitude: 1.0, longitude: 2.0 },
        region: AdministrativeRegion {
            province: "p".to_string(),
            city: "c".to_string(),
            district: "-".to_string(),
        },
    });
    let subscriptions = vec![first, subscription(Vec::new())];
    let names = |name: &str| !name.is_empty() && name != "-";
    let events = sample_events(&subscriptions, 10, 8.0, 0.0, names);
    let shown = events
        .iter()
        .map(|event| (event.event_id.as_str(), event.source.as_str(), event.latitude.unwrap()))
        .collect::<Vec<_>>();
    assert_eq!(
        shown,
        [
            ("migration-sample-0", "wolfx.cenc_eqlist", 31.2304),
            ("migration-sample-1", "wolfx.cenc_eqlist", 1.0),
            ("migration-sample-2", "wolfx.sc_eew", 31.2304),
            ("migration-sample-3", "wolfx.sc_eew", 1.0),
        ]
    );
    assert!(events[0].affected_regions.is_empty());
    assert_eq!(events[1].affected_regions, vec!["c".to_string()]);
    assert_eq!(events[1].magnitude, Some(8.0));
    assert_eq!(events[1].occurred_at, "2026-01-01T00:00:00Z");
    assert_eq!(sample_events(&subscriptions, 3, 8.0, 0.0, names).len(), 3);
}
