use disaster_alert::models::{AlertRule, DisasterCategory, ProviderChannel, SourceSelection};
use disaster_alert::provider_values::first_usable;
use disaster_alert::source_registry::{
    category_options, default_utc_offset_seconds, find, find_provider, sources, CategoryOption,
};
use disaster_alert::storage::{
    days_ms, durable_backlog, retention_cutoffs, BacklogCounts, PruneStats, RetentionPolicy,
};

#[test]
fn registry_ids_are_unique_and_every_source_is_grouped() {
    let all = sources();
    let ids = all.iter().map(|source| source.id).collect::<std::collections::HashSet<_>>();
    assert_eq!(ids.len(), all.len());
    let provider_keys = all
        .iter()
        .map(|source| (source.channel, source.provider_key))
        .collect::<std::collections::HashSet<_>>();
    assert_eq!(provider_keys.len(), all.len());
    let mut group_metadata = std::collections::HashMap::new();
    for source in &all {
        let metadata = (source.category, source.group_label);
        assert_eq!(
            group_metadata.entry(source.group_id).or_insert(metadata),
            &metadata
        );
        assert_eq!(
            default_utc_offset_seconds(source.id),
            source.default_utc_offset_seconds
        );
        assert!(source
            .default_utc_offset_seconds
            .is_none_or(|offset| matches!(offset, 28_800 | 32_400)));
    }
    assert_eq!(
        options_with(true)
            .iter()
            .flat_map(|category| &category.source_groups)
            .map(|group| group.sources.len())
            .sum::<usize>(),
        all.len()
    );
}

/// What may be chosen, with labels and default rules of this test.
fn options_with(huania_enabled: bool) -> Vec<CategoryOption<f64>> {
    category_options(
        huania_enabled,
        |category: DisasterCategory| match category {
            DisasterCategory::Tsunami => "海啸",
            _ => "其他",
        },
        |_: DisasterCategory| AlertRule::Tsunami {
            sources: SourceSelection::All,
            min_severity: 2,
        },
    )
}

fn source_ids(options: &[CategoryOption<f64>]) -> Vec<&'static str> {
    options
        .iter()
        .flat_map(|category| &category.source_groups)
        .flat_map(|group| &group.sources)
        .map(|source| source.id)
        .collect()
}

#[test]
fn disabled_huania_is_omitted_from_subscription_options() {
    let options = options_with(false);
    let ids = source_ids(&options);
    assert!(!ids.contains(&"huania.earlywarning"));
    assert!(source_ids(&options_with(true)).contains(&"huania.earlywarning"));
    assert_eq!(
        ids.len(),
        sources()
            .iter()
            .filter(|source| source.channel != ProviderChannel::Huania)
            .count()
    );
}

#[test]
fn source_time_contracts_are_declared_in_the_registry() {
    assert_eq!(default_utc_offset_seconds("wolfx.jma_eew"), Some(32_400));
    assert_eq!(default_utc_offset_seconds("wolfx.cenc_eqlist"), Some(28_800));
    assert_eq!(default_utc_offset_seconds("unknown.source"), None);
}

#[test]
fn options_name_every_category_in_order() {
    let options = options_with(true);
    let ids = options.iter().map(|option| option.id).collect::<Vec<_>>();
    assert_eq!(
        ids,
        ["earthquake_warning", "earthquake_report", "weather_warning", "tsunami", "typhoon"]
    );
    let warning = &options[0];
    assert_eq!(warning.label, "其他");
    assert_eq!(options[3].label, "海啸");
    assert!(matches!(warning.default_alert, AlertRule::Tsunami { min_severity: 2, .. }));
    assert_eq!(warning.source_groups.len(), 2);
    assert_eq!(warning.source_groups[0].id, "wolfx-earthquake-warning");
    assert_eq!(warning.source_groups[0].label, "Wolfx 地震预警");
    assert_eq!(warning.source_groups[0].sources.len(), 5);
    assert_eq!(warning.source_groups[0].sources[2].id, "wolfx.cenc_eew");
    assert_eq!(warning.source_groups[0].sources[2].label, "Wolfx 中国地震台网");
    assert_eq!(warning.source_groups[1].id, "huania-earthquake-warning");
    assert!(options[4].source_groups.is_empty());
}

#[test]
fn sources_are_found_by_id_and_by_provider() {
    assert_eq!(find("wolfx.fj_eew").map(|source| source.label), Some("Wolfx 福建地震局"));
    assert!(find("WOLFX.fj_eew").is_none());
    let found = find_provider(ProviderChannel::Huania, "earlywarning");
    assert_eq!(found.map(|source| source.id), Some("huania.earlywarning"));
    assert!(find_provider(ProviderChannel::Wolfx, "earlywarning").is_none());
    assert!(find_provider(ProviderChannel::FanStudio, "jma_eew").is_none());
}

fn as_number(value: &serde_json::Value) -> Option<f64> {
    value
        .as_f64()
        .or_else(|| value.as_str().and_then(|text| text.trim().parse().ok()))
        .filter(|number: &f64| number.is_finite())
}

#[test]
fn aliases_continue_after_invalid_values() {
    let data: serde_json::Value =
        serde_json::from_str(r#"{"Latitude":"invalid","lat":35.5}"#).unwrap();
    let candidates = ["Latitude", "lat"]
        .iter()
        .map(|key| data.get(*key).and_then(as_number))
        .collect::<Vec<_>>();
    assert_eq!(first_usable(&candidates), Some(35.5));
    assert_eq!(first_usable::<f64>(&vec![None, None]), None);
}

#[test]
fn retention_counts_back_from_now() {
    assert_eq!(days_ms(1), 86_400_000);
    assert_eq!(days_ms(106_751_991_167), 9_223_372_036_828_800_000);
    assert_eq!(days_ms(106_751_991_168), i64::MAX);
    assert_eq!(days_ms(u64::MAX), i64::MAX);
    let cutoffs = retention_cutoffs(
        200_000_000,
        RetentionPolicy { incident_days: 1, delivery_ledger_days: 2, operation_days: u64::MAX },
    );
    assert_eq!(cutoffs.incidents_before_ms, 113_600_000);
    assert_eq!(cutoffs.deliveries_before_ms, 27_200_000);
    assert_eq!(cutoffs.operations_before_ms, 200_000_000 - i64::MAX);
    let early = retention_cutoffs(
        -5,
        RetentionPolicy { incident_days: u64::MAX, delivery_ledger_days: 0, operation_days: 0 },
    );
    assert_eq!(early.incidents_before_ms, i64::MIN);
    assert_eq!(early.deliveries_before_ms, -5);
}

#[test]
fn totals_saturate() {
    let stats = PruneStats { incidents: 1, delivery_records: 2, events: 3 };
    assert_eq!(stats.total(), 6);
    let huge = PruneStats { incidents: usize::MAX, delivery_records: 1, events: 0 };
    assert_eq!(huge.total(), usize::MAX);
}

#[test]
fn backlogs_are_shown_under_their_names() {
    let shown = durable_backlog(
        BacklogCounts { inbox: 1, match_jobs: 2, delivery_batches: 3, retries: 4 },
        5,
    );
    assert_eq!(shown.inbox_pending, 1);
    assert_eq!(shown.match_jobs_pending, 2);
    assert_eq!(shown.delivery_batches_pending, 3);
    assert_eq!(shown.retries_pending, 4);
    assert_eq!(shown.subscription_confirmations_pending, 5);
}
