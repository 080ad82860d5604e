//! The sources of events: which there are, and how they are offered for choice.
use crate::models::{self, AlertRule, DisasterCategory, ProviderChannel};
use crate::text;
use vstd::prelude::*;

verus! {

#[derive(Debug, Clone, Copy)]
pub struct SourceDefinition {
    pub id: &'static str,
    pub provider_key: &'static str,
    pub channel: ProviderChannel,
    pub category: DisasterCategory,
    pub group_id: &'static str,
    pub group_label: &'static str,
    pub label: &'static str,
    pub default_utc_offset_seconds: Option<i64>,
}

/// A source that may be chosen.
#[derive(Debug, Clone, Copy)]
pub struct SourceOption {
    pub id: &'static str,
    pub label: &'static str,
}

/// Sources that are offered together.
#[derive(Debug, Clone)]
pub struct SourceGroup {
    pub id: &'static str,
    pub label: &'static str,
    pub sources: Vec<SourceOption>,
}

/// What may be chosen for a kind of disaster, and the rule that is offered for it.
#[derive(Debug)]
pub struct CategoryOption<N> {
    pub id: &'static str,
    pub label: &'static str,
    pub source_groups: Vec<SourceGroup>,
    pub default_alert: AlertRule<N>,
}

/// All sources.
pub open spec fn source_list() -> Seq<SourceDefinition> {
    seq![
        SourceDefinition {
            id: "wolfx.jma_eew",
            provider_key: "jma_eew",
            channel: ProviderChannel::Wolfx,
            category: DisasterCategory::EarthquakeWarning,
            group_id: "wolfx-earthquake-warning",
            group_label: "Wolfx 地震预警",
            label: "Wolfx 日本气象厅",
            default_utc_offset_seconds: Some(32400),
        },
        SourceDefinition {
            id: "wolfx.sc_eew",
            provider_key: "sc_eew",
            channel: ProviderChannel::Wolfx,
            category: DisasterCategory::EarthquakeWarning,
            group_id: "wolfx-earthquake-warning",
            group_label: "Wolfx 地震预警",
            label: "Wolfx 四川地震局",
            default_utc_offset_seconds: Some(28800),
        },
        SourceDefinition {
            id: "wolfx.cenc_eew",
            provider_key: "cenc_eew",
            channel: ProviderChannel::Wolfx,
            category: DisasterCategory::EarthquakeWarning,
            group_id: "wolfx-earthquake-warning",
            group_label: "Wolfx 地震预警",
            label: "Wolfx 中国地震台网",
            default_utc_offset_seconds: Some(28800),
        },
        SourceDefinition {
            id: "wolfx.fj_eew",
            provider_key: "fj_eew",
            channel: ProviderChannel::Wolfx,
            category: DisasterCategory::EarthquakeWarning,
            group_id: "wolfx-earthquake-warning",
            group_label: "Wolfx 地震预警",
            label: "Wolfx 福建地震局",
            default_utc_offset_seconds: Some(28800),
        },
        SourceDefinition {
            id: "wolfx.cq_eew",
            provider_key: "cq_eew",
            channel: ProviderChannel::Wolfx,
            category: DisasterCategory::EarthquakeWarning,
            group_id: "wolfx-earthquake-warning",
            group_label: "Wolfx 地震预警",
            label: "Wolfx 重庆地震局",
            default_utc_offset_seconds: Some(28800),
        },
        SourceDefinition {
            id: "wolfx.cenc_eqlist",
            provider_key: "cenc_eqlist",
            channel: ProviderChannel::Wolfx,
            category: DisasterCategory::EarthquakeReport,
            group_id: "wolfx-earthquake-report",
            group_label: "Wolfx 地震信息",
            label: "Wolfx 中国地震台网测定",
            default_utc_offset_seconds: Some(28800),
        },
        SourceDefinition {
            id: "huania.earlywarning",
            provider_key: "earlywarning",
            channel: ProviderChannel::Huania,
            category: DisasterCategory::EarthquakeWarning,
            group_id: "huania-earthquake-warning",
            group_label: "Huania 地震预警",
            label: "Huania 地震预警",
            default_utc_offset_seconds: None,
        },
    ]
}

/// All sources.
pub fn sources() -> (r: Vec<SourceDefinition>)
    ensures
        r@ == source_list(),
{
    vec![
        SourceDefinition {
            id: "wolfx.jma_eew",
            provider_key: "jma_eew",
            channel: ProviderChannel::Wolfx,
            category: DisasterCategory::EarthquakeWarning,
            group_id: "wolfx-earthquake-warning",
            group_label: "Wolfx 地震预警",
            label: "Wolfx 日本气象厅",
            default_utc_offset_seconds: Some(32400),
        },
        SourceDefinition {
            id: "wolfx.sc_eew",
            provider_key: "sc_eew",
            channel: ProviderChannel::Wolfx,
            category: DisasterCategory::EarthquakeWarning,
            group_id: "wolfx-earthquake-warning",
            group_label: "Wolfx 地震预警",
            label: "Wolfx 四川地震局",
            default_utc_offset_seconds: Some(28800),
        },
        SourceDefinition {
            id: "wolfx.cenc_eew",
            provider_key: "cenc_eew",
            channel: ProviderChannel::Wolfx,
            category: DisasterCategory::EarthquakeWarning,
            group_id: "wolfx-earthquake-warning",
            group_label: "Wolfx 地震预警",
            label: "Wolfx 中国地震台网",
            default_utc_offset_seconds: Some(28800),
        },
        SourceDefinition {
            id: "wolfx.fj_eew",
            provider_key: "fj_eew",
            channel: ProviderChannel::Wolfx,
            category: DisasterCategory::EarthquakeWarning,
            group_id: "wolfx-earthquake-warning",
            group_label: "Wolfx 地震预警",
            label: "Wolfx 福建地震局",
            default_utc_offset_seconds: Some(28800),
        },
        SourceDefinition {
            id: "wolfx.cq_eew",
            provider_key: "cq_eew",
            channel: ProviderChannel::Wolfx,
            category: DisasterCategory::EarthquakeWarning,
            group_id: "wolfx-earthquake-warning",
            group_label: "Wolfx 地震预警",
            label: "Wolfx 重庆地震局",
            default_utc_offset_seconds: Some(28800),
        },
        SourceDefinition {
            id: "wolfx.cenc_eqlist",
            provider_key: "cenc_eqlist",
            channel: ProviderChannel::Wolfx,
            category: DisasterCategory::EarthquakeReport,
            group_id: "wolfx-earthquake-report",
            group_label: "Wolfx 地震信息",
            label: "Wolfx 中国地震台网测定",
            default_utc_offset_seconds: Some(28800),
        },
        SourceDefinition {
            id: "huania.earlywarning",
            provider_key: "earlywarning",
            channel: ProviderChannel::Huania,
            category: DisasterCategory::EarthquakeWarning,
            group_id: "huania-earthquake-warning",
            group_label: "Huania 地震预警",
            label: "Huania 地震预警",
            default_utc_offset_seconds: None,
        },
    ]
}

// ---------------------------------------------------------------------------
// Finding a source
// ---------------------------------------------------------------------------
/// The first source for which something holds.
pub open spec fn first_source(
    list: Seq<SourceDefinition>,
    wanted: spec_fn(SourceDefinition) -> bool,
) -> Option<SourceDefinition>
    decreases list.len(),
{
    if list.len() == 0 {
        None
    } else if wanted(list[0]) {
        Some(list[0])
    } else {
        first_source(list.drop_first(), wanted)
    }
}

pub open spec fn has_id(id: Seq<char>) -> spec_fn(SourceDefinition) -> bool {
    |s: SourceDefinition| s.id@ == id
}

pub open spec fn reports(category: DisasterCategory) -> spec_fn(SourceDefinition) -> bool {
    |s: SourceDefinition| s.category == category
}

pub open spec fn is_called(channel: ProviderChannel, provider_key: Seq<char>) -> spec_fn(
    SourceDefinition,
) -> bool {
    |s: SourceDefinition| s.channel == channel && s.provider_key@ == provider_key
}

/// The source with an identifier.
pub open spec fn source_with_id(id: Seq<char>) -> Option<SourceDefinition> {
    first_source(source_list(), has_id(id))
}

/// The first source that reports a kind of disaster.
pub open spec fn source_for(category: DisasterCategory) -> Option<SourceDefinition> {
    first_source(source_list(), reports(category))
}

/// The source behind what a provider calls it.
pub open spec fn source_of_provider(channel: ProviderChannel, provider_key: Seq<char>) -> Option<
    SourceDefinition,
> {
    first_source(source_list(), is_called(channel, provider_key))
}

/// The first source for which `wanted` says yes, which is what holds of a source by `model`.
fn find_first<F: Fn(&SourceDefinition) -> bool>(
    wanted: F,
    Ghost(model): Ghost<spec_fn(SourceDefinition) -> bool>,
) -> (r: Option<SourceDefinition>)
    requires
        forall|s: &SourceDefinition| wanted.requires((s,)),
        forall|s: &SourceDefinition, b: bool| wanted.ensures((s,), b) ==> b == model(*s),
    ensures
        r == first_source(source_list(), model),
{
    let list = sources();
    let mut i: usize = 0;
    assert(list@.skip(0) =~= list@);
    while i < list.len()
        invariant
            forall|s: &SourceDefinition| wanted.requires((s,)),
            forall|s: &SourceDefinition, b: bool| wanted.ensures((s,), b) ==> b == model(*s),
            list@ == source_list(),
            i <= list@.len(),
            first_source(list@, model) == first_source(list@.skip(i as int), model),
        decreases list@.len() - i,
    {
        proof {
            assert(list@.skip(i as int)[0] == list@[i as int]);
            assert(list@.skip(i as int).drop_first() =~= list@.skip(i + 1));
        }
        if wanted(&list[i]) {
            return Some(list[i]);
        }
        i += 1;
    }
    None
}

/// The source with an identifier.
pub fn find(id: &str) -> (r: Option<SourceDefinition>)
    ensures
        r == source_with_id(id@),
{
    let wanted = |s: &SourceDefinition| -> (b: bool)
        ensures
            b == (s.id@ == id@),
    {
        text::same(s.id, id)
    };
    find_first(wanted, Ghost(has_id(id@)))
}

/// The first source that reports a kind of disaster.
pub fn find_for_category(category: DisasterCategory) -> (r: Option<SourceDefinition>)
    ensures
        r == source_for(category),
{
    let wanted = |s: &SourceDefinition| -> (b: bool)
        ensures
            b == (s.category == category),
    {
        s.category == category
    };
    find_first(wanted, Ghost(reports(category)))
}

/// The source behind what a provider calls it.
pub fn find_provider(channel: ProviderChannel, provider_key: &str) -> (r: Option<SourceDefinition>)
    ensures
        r == source_of_provider(channel, provider_key@),
{
    let wanted = |s: &SourceDefinition| -> (b: bool)
        ensures
            b == (s.channel == channel && s.provider_key@ == provider_key@),
    {
        s.channel == channel && text::same(s.provider_key, provider_key)
    };
    find_first(wanted, Ghost(is_called(channel, provider_key@)))
}

/// How far the times of a source are from UTC where they do not say it themselves.
pub fn default_utc_offset_seconds(source: &str) -> (r: Option<i64>)
    ensures
        r == (match source_with_id(source@) {
            Some(definition) => definition.default_utc_offset_seconds,
            None => None,
        }),
{
    match find(source) {
        Some(definition) => definition.default_utc_offset_seconds,
        None => None,
    }
}

// ---------------------------------------------------------------------------
// Offering the sources
// ---------------------------------------------------------------------------
/// Sources that are offered together, as texts.
#[verifier::ext_equal]
pub struct GroupModel {
    pub id: Seq<char>,
    pub label: Seq<char>,
    pub sources: Seq<(Seq<char>, Seq<char>)>,
}

impl View for SourceGroup {
    type V = GroupModel;

    open spec fn view(&self) -> GroupModel {
        GroupModel {
            id: self.id@,
            label: self.label@,
            sources: self.sources@.map_values(|o: SourceOption| (o.id@, o.label@)),
        }
    }
}

pub open spec fn group_models(groups: Seq<SourceGroup>) -> Seq<GroupModel> {
    groups.map_values(|g: SourceGroup| g@)
}

/// The first group with an identifier.
pub open spec fn group_index(groups: Seq<GroupModel>, id: Seq<char>) -> Option<int>
    decreases groups.len(),
{
    if groups.len() == 0 {
        None
    } else {
        match group_index(groups.drop_last(), id) {
            Some(at) => Some(at),
            None => if groups.last().id == id {
                Some(groups.len() - 1)
            } else {
                None
            },
        }
    }
}

/// The groups with one more source: at the end of its group, or in a new group at the end.
pub open spec fn with_source(groups: Seq<GroupModel>, s: SourceDefinition) -> Seq<GroupModel> {
    match group_index(groups, s.group_id@) {
        Some(at) => groups.update(
            at,
            GroupModel { sources: groups[at].sources.push((s.id@, s.label@)), ..groups[at] },
        ),
        None => groups.push(
            GroupModel {
                id: s.group_id@,
                label: s.group_label@,
                sources: seq![(s.id@, s.label@)],
            },
        ),
    }
}

/// Sources in their groups, the groups and the sources in the order in which they come.
pub open spec fn grouped(list: Seq<SourceDefinition>) -> Seq<GroupModel>
    decreases list.len(),
{
    if list.len() == 0 {
        Seq::empty()
    } else {
        with_source(grouped(list.drop_last()), list.last())
    }
}

/// Whether a source is offered for a kind of disaster.
pub open spec fn is_offered(
    s: SourceDefinition,
    category: DisasterCategory,
    huania_enabled: bool,
) -> bool {
    s.category == category && (huania_enabled || s.channel != ProviderChannel::Huania)
}

/// The sources that are offered for a kind of disaster.
pub open spec fn offered(category: DisasterCategory, huania_enabled: bool) -> Seq<
    SourceDefinition,
> {
    source_list().filter(|s: SourceDefinition| is_offered(s, category, huania_enabled))
}

proof fn lemma_group_index(groups: Seq<GroupModel>, id: Seq<char>)
    ensures
        match group_index(groups, id) {
            Some(at) => 0 <= at < groups.len() && groups[at].id == id && forall|k: int|
                0 <= k < at ==> (#[trigger] groups[k]).id != id,
            None => forall|k: int| 0 <= k < groups.len() ==> (#[trigger] groups[k]).id != id,
        },
    decreases groups.len(),
{
    if groups.len() > 0 {
        let rest = groups.drop_last();
        lemma_group_index(rest, id);
        assert forall|k: int| 0 <= k < rest.len() implies #[trigger] groups[k] == rest[k] by {}
    }
}

proof fn lemma_is_group_index(groups: Seq<GroupModel>, id: Seq<char>, at: int)
    requires
        0 <= at < groups.len(),
        groups[at].id == id,
        forall|k: int| 0 <= k < at ==> (#[trigger] groups[k]).id != id,
    ensures
        group_index(groups, id) == Some(at),
{
    lemma_group_index(groups, id);
}

/// Puts one more source into the groups.
fn offer_source(groups: Vec<SourceGroup>, source: SourceDefinition) -> (r: Vec<SourceGroup>)
    ensures
        group_models(r@) == with_source(group_models(groups@), source),
{
    let mut groups = groups;
    let ghost before = group_models(groups@);
    let option = SourceOption { id: source.id, label: source.label };
    let mut at: usize = 0;
    while at < groups.len() && !text::same(groups[at].id, source.group_id)
        invariant
            at <= groups@.len(),
            before == group_models(groups@),
            forall|k: int| 0 <= k < at ==> (#[trigger] before[k]).id != source.group_id@,
        decreases groups@.len() - at,
    {
        assert(before[at as int].id == groups@[at as int].id@);
        at += 1;
    }
    if at < groups.len() {
        assert(before[at as int].id == groups@[at as int].id@);
        proof {
            lemma_is_group_index(before, source.group_id@, at as int);
        }
        let ghost old_groups = groups@;
        groups[at].sources.push(option);
        proof {
            assert(groups@[at as int]@.sources =~= old_groups[at as int]@.sources.push(
                (source.id@, source.label@),
            ));
            assert(group_models(groups@) =~= with_source(before, source));
        }
        groups
    } else {
        proof {
            lemma_group_index(before, source.group_id@);
        }
        let ghost old_groups = groups@;
        groups.push(
            SourceGroup { id: source.group_id, label: source.group_label, sources: vec![option] },
        );
        proof {
            let added = groups@.last();
            assert(added@.sources =~= seq![(source.id@, source.label@)]);
            assert(group_models(groups@) =~= with_source(before, source));
        }
        groups
    }
}

/// The groups of sources that are offered for a kind of disaster.
fn offered_groups(category: DisasterCategory, huania_enabled: bool) -> (r: Vec<SourceGroup>)
    ensures
        group_models(r@) == grouped(offered(category, huania_enabled)),
{
    let list = sources();
    let ghost keep = |s: SourceDefinition| is_offered(s, category, huania_enabled);
    let mut groups: Vec<SourceGroup> = Vec::new();
    let mut i: usize = 0;
    proof {
        reveal(Seq::filter);
        assert(list@.take(0).filter(keep) =~= Seq::empty());
        assert(group_models(groups@) =~= grouped(list@.take(0).filter(keep)));
    }
    while i < list.len()
        invariant
            i <= list@.len(),
            keep == (|s: SourceDefinition| is_offered(s, category, huania_enabled)),
            group_models(groups@) == grouped(list@.take(i as int).filter(keep)),
        decreases list@.len() - i,
    {
        let source = list[i];
        proof {
            let next = list@.take(i + 1);
            assert(next.drop_last() =~= list@.take(i as int));
            assert(next.last() == source);
            reveal(Seq::filter);
            if keep(source) {
                assert(next.filter(keep) == list@.take(i as int).filter(keep).push(source));
                assert(next.filter(keep).drop_last() =~= list@.take(i as int).filter(keep));
            } else {
                assert(next.filter(keep) == list@.take(i as int).filter(keep));
            }
        }
        if source.category == category && (huania_enabled || source.channel
            != ProviderChannel::Huania) {
            groups = offer_source(groups, source);
        }
        i += 1;
    }
    assert(list@.take(i as int) =~= list@);
    groups
}

/// Whether this is what may be chosen for a kind of disaster.
pub open spec fn offers<
    N,
    L: Fn(DisasterCategory) -> &'static str,
    D: Fn(DisasterCategory) -> AlertRule<N>,
>(
    option: CategoryOption<N>,
    category: DisasterCategory,
    huania_enabled: bool,
    label: L,
    default_rule: D,
) -> bool {
    &&& option.id == category.name()
    &&& label.ensures((category,), option.label)
    &&& group_models(option.source_groups@) == grouped(offered(category, huania_enabled))
    &&& default_rule.ensures((category,), option.default_alert)
}

/// What may be chosen for each kind of disaster. `label` names a kind of disaster for people, and
/// `default_rule` is what is offered for it.
pub fn category_options<
    N,
    L: Fn(DisasterCategory) -> &'static str,
    D: Fn(DisasterCategory) -> AlertRule<N>,
>(huania_enabled: bool, label: L, default_rule: D) -> (r: Vec<CategoryOption<N>>)
    requires
        forall|category: DisasterCategory| label.requires((category,)),
        forall|category: DisasterCategory| default_rule.requires((category,)),
    ensures
        r@.len() == models::category_list().len(),
        forall|i: int|
            0 <= i < r@.len() ==> offers(
                #[trigger] r@[i],
                models::category_list()[i],
                huania_enabled,
                label,
                default_rule,
            ),
{
    let categories = DisasterCategory::all();
    let mut r: Vec<CategoryOption<N>> = Vec::new();
    let mut i: usize = 0;
    while i < categories.len()
        invariant
            forall|category: DisasterCategory| label.requires((category,)),
            forall|category: DisasterCategory| default_rule.requires((category,)),
            categories@ == models::category_list(),
            i <= categories@.len(),
            r@.len() == i,
            forall|k: int|
                0 <= k < i ==> offers(
                    #[trigger] r@[k],
                    models::category_list()[k],
                    huania_enabled,
                    label,
                    default_rule,
                ),
        decreases categories@.len() - i,
    {
        let category = categories[i];
        r.push(
            CategoryOption {
                id: category.as_str(),
                label: label(category),
                source_groups: offered_groups(category, huania_enabled),
                default_alert: default_rule(category),
            },
        );
        i += 1;
    }
    r
}

// ---------------------------------------------------------------------------
// What holds of the registry
// ---------------------------------------------------------------------------
/// No two sources have one identifier, and no two of one provider have one name there.
pub proof fn law_sources_are_distinct(i: int, j: int)
    requires
        0 <= i < j < source_list().len(),
    ensures
        source_list()[i].id@ != source_list()[j].id@,
        source_list()[i].channel != source_list()[j].channel || source_list()[i].provider_key@
            != source_list()[j].provider_key@,
{
    lemma_registry_texts();
    let a = source_list()[i];
    let b = source_list()[j];
    if a.id@ == b.id@ {
        assert(a.id@.len() == b.id@.len());
        assert(a.id@[6] == b.id@[6]);
    }
    if a.provider_key@ == b.provider_key@ {
        assert(a.provider_key@.len() == b.provider_key@.len());
        assert(a.provider_key@[0] == b.provider_key@[0]);
    }
}

proof fn lemma_registry_texts()
    ensures
        "wolfx.jma_eew"@.len() == 13,
        "wolfx.sc_eew"@.len() == 12 && "wolfx.sc_eew"@[6] == 's',
        "wolfx.cenc_eew"@.len() == 14,
        "wolfx.fj_eew"@.len() == 12 && "wolfx.fj_eew"@[6] == 'f',
        "wolfx.cq_eew"@.len() == 12 && "wolfx.cq_eew"@[6] == 'c',
        "wolfx.cenc_eqlist"@.len() == 17,
        "huania.earlywarning"@.len() == 19,
        "jma_eew"@.len() == 7,
        "sc_eew"@.len() == 6 && "sc_eew"@[0] == 's',
        "cenc_eew"@.len() == 8,
        "fj_eew"@.len() == 6 && "fj_eew"@[0] == 'f',
        "cq_eew"@.len() == 6 && "cq_eew"@[0] == 'c',
        "cenc_eqlist"@.len() == 11,
        "earlywarning"@.len() == 12,
        "wolfx-earthquake-warning"@.len() == 24,
        "wolfx-earthquake-report"@.len() == 23,
        "huania-earthquake-warning"@.len() == 25,
{
    reveal_strlit("wolfx.jma_eew");
    reveal_strlit("wolfx.sc_eew");
    reveal_strlit("wolfx.cenc_eew");
    reveal_strlit("wolfx.fj_eew");
    reveal_strlit("wolfx.cq_eew");
    reveal_strlit("wolfx.cenc_eqlist");
    reveal_strlit("huania.earlywarning");
    reveal_strlit("jma_eew");
    reveal_strlit("sc_eew");
    reveal_strlit("cenc_eew");
    reveal_strlit("fj_eew");
    reveal_strlit("cq_eew");
    reveal_strlit("cenc_eqlist");
    reveal_strlit("earlywarning");
    reveal_strlit("wolfx-earthquake-warning");
    reveal_strlit("wolfx-earthquake-report");
    reveal_strlit("huania-earthquake-warning");
}

/// Sources of one group report one kind of disaster and have one label for their group.
pub proof fn law_groups_are_consistent(i: int, j: int)
    requires
        0 <= i < source_list().len(),
        0 <= j < source_list().len(),
        source_list()[i].group_id@ == source_list()[j].group_id@,
    ensures
        source_list()[i].category == source_list()[j].category,
        source_list()[i].group_label == source_list()[j].group_label,
{
    lemma_registry_texts();
}

/// Where times of a source lack an offset, they are those of China or of Japan.
pub proof fn law_offsets_are_known(i: int)
    requires
        0 <= i < source_list().len(),
    ensures
        source_list()[i].default_utc_offset_seconds matches Some(offset) ==> offset == 28800
            || offset == 32400,
{
}

/// What the first source is: it is listed, is wanted, and no source before it is.
pub proof fn lemma_first_source(
    list: Seq<SourceDefinition>,
    wanted: spec_fn(SourceDefinition) -> bool,
)
    ensures
        match first_source(list, wanted) {
            Some(s) => wanted(s) && list.contains(s),
            None => forall|i: int| 0 <= i < list.len() ==> !wanted(#[trigger] list[i]),
        },
    decreases list.len(),
{
    if list.len() > 0 && !wanted(list[0]) {
        let rest = list.drop_first();
        lemma_first_source(rest, wanted);
        match first_source(rest, wanted) {
            Some(s) => {
                let k = choose|k: int| 0 <= k < rest.len() && rest[k] == s;
                assert(list[k + 1] == s);
            },
            None => {
                assert forall|i: int| 0 <= i < list.len() implies !wanted(#[trigger] list[i]) by {
                    if i > 0 {
                        assert(rest[i - 1] == list[i]);
                    }
                }
            },
        }
    } else if list.len() > 0 {
        assert(list[0] == first_source(list, wanted)->0);
    }
}

/// Each source is found under its identifier, and under what its provider calls it.
pub proof fn law_sources_are_found(i: int)
    requires
        0 <= i < source_list().len(),
    ensures
        source_with_id(source_list()[i].id@) == Some(source_list()[i]),
        source_of_provider(source_list()[i].channel, source_list()[i].provider_key@) == Some(
            source_list()[i],
        ),
{
    let s = source_list()[i];
    let by_id = has_id(s.id@);
    let by_provider = is_called(s.channel, s.provider_key@);
    lemma_first_source(source_list(), by_id);
    lemma_first_source(source_list(), by_provider);
    assert(by_id(source_list()[i]));
    assert(by_provider(source_list()[i]));
    let j = choose|j: int|
        0 <= j < source_list().len() && source_list()[j] == first_source(source_list(), by_id)->0;
    if i < j {
        law_sources_are_distinct(i, j);
    } else if j < i {
        law_sources_are_distinct(j, i);
    }
    let k = choose|k: int|
        0 <= k < source_list().len() && source_list()[k] == first_source(
            source_list(),
            by_provider,
        )->0;
    if i < k {
        law_sources_are_distinct(i, k);
    } else if k < i {
        law_sources_are_distinct(k, i);
    }
}

/// What is found under an identifier has it.
pub proof fn law_found_source_has_the_id(id: Seq<char>)
    ensures
        source_with_id(id) matches Some(s) ==> s.id@ == id && source_list().contains(s),
{
    lemma_first_source(source_list(), has_id(id));
}

/// The sources of a group, as they are offered.
pub open spec fn members(list: Seq<SourceDefinition>, group_id: Seq<char>) -> Seq<
    (Seq<char>, Seq<char>),
> {
    list.filter(|s: SourceDefinition| s.group_id@ == group_id).map_values(
        |s: SourceDefinition| (s.id@, s.label@),
    )
}

/// Grouping puts every source into exactly one group: no two groups have one identifier, each
/// group holds the sources with its identifier in their order, and no source is left out.
pub proof fn law_grouping_keeps_every_source(list: Seq<SourceDefinition>)
    ensures
        forall|i: int, j: int|
            0 <= i < j < grouped(list).len() ==> (#[trigger] grouped(list)[i]).id != (
            #[trigger] grouped(list)[j]).id,
        forall|i: int|
            0 <= i < grouped(list).len() ==> (#[trigger] grouped(list)[i]).sources == members(
                list,
                grouped(list)[i].id,
            ),
        forall|k: int|
            0 <= k < list.len() ==> group_index(grouped(list), (#[trigger] list[k]).group_id@)
                is Some,
    decreases list.len(),
{
    reveal(Seq::filter);
    if list.len() > 0 {
        let rest = list.drop_last();
        let s = list.last();
        let before = grouped(rest);
        let after = grouped(list);
        law_grouping_keeps_every_source(rest);
        lemma_group_index(before, s.group_id@);
        assert forall|id: Seq<char>| #[trigger] members(list, id) == (if id == s.group_id@ {
            members(rest, id).push((s.id@, s.label@))
        } else {
            members(rest, id)
        }) by {
            let p = |d: SourceDefinition| d.group_id@ == id;
            assert(list.filter(p) == if p(s) {
                rest.filter(p).push(s)
            } else {
                rest.filter(p)
            });
            assert(members(list, id) =~= if id == s.group_id@ {
                members(rest, id).push((s.id@, s.label@))
            } else {
                members(rest, id)
            });
        }
        match group_index(before, s.group_id@) {
            Some(at) => {
                assert(after.len() == before.len());
                assert forall|i: int| 0 <= i < after.len() implies (#[trigger] after[i]).sources
                    == members(list, after[i].id) && after[i].id == before[i].id by {
                    if i != at {
                        assert(before[i].id != before[at].id);
                    }
                }
            },
            None => {
                assert(members(rest, s.group_id@) =~= Seq::empty()) by {
                    lemma_no_members(rest, s.group_id@);
                }
                assert forall|i: int| 0 <= i < after.len() implies (#[trigger] after[i]).sources
                    == members(list, after[i].id) by {
                    if i < before.len() {
                        assert(after[i] == before[i]);
                    } else {
                        assert(after[i].sources =~= members(list, s.group_id@));
                    }
                }
            },
        }
        assert forall|k: int| 0 <= k < list.len() implies group_index(
            after,
            (#[trigger] list[k]).group_id@,
        ) is Some by {
            let id = list[k].group_id@;
            lemma_group_index(after, id);
            if k < rest.len() {
                assert(rest[k] == list[k]);
                lemma_group_index(before, id);
                let at = group_index(before, id)->0;
                assert(after[at].id == id);
            } else {
                match group_index(before, s.group_id@) {
                    Some(at) => {
                        assert(after[at].id == id);
                    },
                    None => {
                        assert(after[after.len() - 1].id == id);
                    },
                }
            }
        }
    }
}

/// A group that no source has has no members.
proof fn lemma_no_members(list: Seq<SourceDefinition>, group_id: Seq<char>)
    requires
        forall|k: int| 0 <= k < list.len() ==> (#[trigger] list[k]).group_id@ != group_id,
    ensures
        members(list, group_id).len() == 0,
    decreases list.len(),
{
    reveal(Seq::filter);
    if list.len() > 0 {
        let rest = list.drop_last();
        assert forall|k: int| 0 <= k < rest.len() implies (#[trigger] rest[k]).group_id@
            != group_id by {
            assert(rest[k] == list[k]);
        }
        lemma_no_members(rest, group_id);
        assert(list.last() == list[list.len() - 1]);
    }
}

proof fn lemma_filter<A>(list: Seq<A>, keep: spec_fn(A) -> bool, x: A)
    ensures
        list.filter(keep).contains(x) <==> list.contains(x) && keep(x),
    decreases list.len(),
{
    reveal(Seq::filter);
    if list.len() > 0 {
        let rest = list.drop_last();
        let last = list.last();
        lemma_filter(rest, keep, x);
        if list.contains(x) {
            let k = choose|k: int| 0 <= k < list.len() && list[k] == x;
            if k < rest.len() {
                assert(rest[k] == x);
            }
        }
        if rest.contains(x) {
            let k = choose|k: int| 0 <= k < rest.len() && rest[k] == x;
            assert(list[k] == x);
        }
        assert(list[list.len() - 1] == last);
        let kept = rest.filter(keep);
        if keep(last) {
            assert(list.filter(keep) == kept.push(last));
            if kept.contains(x) {
                let k = choose|k: int| 0 <= k < kept.len() && kept[k] == x;
                assert(kept.push(last)[k] == x);
            }
            assert(kept.push(last)[kept.len() as int] == last);
            if kept.push(last).contains(x) {
                let k = choose|k: int| 0 <= k < kept.len() + 1 && kept.push(last)[k] == x;
                if k < kept.len() {
                    assert(kept[k] == x);
                }
            }
        }
    }
}

/// Every source is offered for what it reports, except those of Huania while it is disabled.
pub proof fn law_offered_sources(s: SourceDefinition, category: DisasterCategory, enabled: bool)
    ensures
        offered(category, enabled).contains(s) <==> source_list().contains(s) && s.category
            == category && (enabled || s.channel != ProviderChannel::Huania),
{
    lemma_filter(source_list(), |d: SourceDefinition| is_offered(d, category, enabled), s);
}

// ---------------------------------------------------------------------------
// What the registry holds and what is found in it
// ---------------------------------------------------------------------------
/// A source is named after its provider and what the provider calls it. Those of Wolfx have times of
/// China, but for the one of Japan; those of Huania say their offset themselves.
pub proof fn law_sources_are_named_after_their_providers(r: Vec<SourceDefinition>, k: int)
    requires
        call_ensures(sources, (), r),
        0 <= k < r@.len(),
    ensures
        r@.len() == 7,
        r@[k].channel == ProviderChannel::Wolfx ==> r@[k].id@ == "wolfx."@ + r@[k].provider_key@,
        r@[k].channel == ProviderChannel::Huania ==> r@[k].id@ == "huania."@ + r@[k].provider_key@,
        r@[k].channel == ProviderChannel::Huania <==> r@[k].provider_key@ == "earlywarning"@,
        r@[k].default_utc_offset_seconds is None <==> r@[k].channel == ProviderChannel::Huania,
        r@[k].default_utc_offset_seconds == Some(32400i64) <==> r@[k].provider_key@ == "jma_eew"@,
        r@[k].default_utc_offset_seconds is None || r@[k].default_utc_offset_seconds == Some(
            32400i64,
        ) || r@[k].default_utc_offset_seconds == Some(28800i64),
        r@[k].category == DisasterCategory::EarthquakeReport <==> r@[k].provider_key@
            == "cenc_eqlist"@,
        r@[k].category == DisasterCategory::EarthquakeReport || r@[k].category
            == DisasterCategory::EarthquakeWarning,
        r@[k].group_id@ == (if r@[k].channel == ProviderChannel::Huania {
            "huania-earthquake-warning"@
        } else if r@[k].category == DisasterCategory::EarthquakeReport {
            "wolfx-earthquake-report"@
        } else {
            "wolfx-earthquake-warning"@
        }),
        r@[k].group_label@ == (if r@[k].channel == ProviderChannel::Huania {
            "Huania 地震预警"@
        } else if r@[k].category == DisasterCategory::EarthquakeReport {
            "Wolfx 地震信息"@
        } else {
            "Wolfx 地震预警"@
        }),
{
    lemma_registry_texts();
    lemma_names_of_sources();
}

proof fn lemma_names_of_sources()
    ensures
        "wolfx.jma_eew"@ == "wolfx."@ + "jma_eew"@,
        "wolfx.sc_eew"@ == "wolfx."@ + "sc_eew"@,
        "wolfx.cenc_eew"@ == "wolfx."@ + "cenc_eew"@,
        "wolfx.fj_eew"@ == "wolfx."@ + "fj_eew"@,
        "wolfx.cq_eew"@ == "wolfx."@ + "cq_eew"@,
        "wolfx.cenc_eqlist"@ == "wolfx."@ + "cenc_eqlist"@,
        "huania.earlywarning"@ == "huania."@ + "earlywarning"@,
{
    reveal_strlit("wolfx.");
    reveal_strlit("huania.");
    reveal_strlit("wolfx.jma_eew");
    reveal_strlit("wolfx.sc_eew");
    reveal_strlit("wolfx.cenc_eew");
    reveal_strlit("wolfx.fj_eew");
    reveal_strlit("wolfx.cq_eew");
    reveal_strlit("wolfx.cenc_eqlist");
    reveal_strlit("huania.earlywarning");
    reveal_strlit("jma_eew");
    reveal_strlit("sc_eew");
    reveal_strlit("cenc_eew");
    reveal_strlit("fj_eew");
    reveal_strlit("cq_eew");
    reveal_strlit("cenc_eqlist");
    reveal_strlit("earlywarning");
    assert("wolfx.jma_eew"@ =~= "wolfx."@ + "jma_eew"@);
    assert("wolfx.sc_eew"@ =~= "wolfx."@ + "sc_eew"@);
    assert("wolfx.cenc_eew"@ =~= "wolfx."@ + "cenc_eew"@);
    assert("wolfx.fj_eew"@ =~= "wolfx."@ + "fj_eew"@);
    assert("wolfx.cq_eew"@ =~= "wolfx."@ + "cq_eew"@);
    assert("wolfx.cenc_eqlist"@ =~= "wolfx."@ + "cenc_eqlist"@);
    assert("huania.earlywarning"@ =~= "huania."@ + "earlywarning"@);
}

/// There is a source for everything that the providers are asked for, and each is shown under a
/// label of its own.
pub proof fn law_which_sources_there_are(r: Vec<SourceDefinition>)
    requires
        call_ensures(sources, (), r),
    ensures
        r@.len() == 7,
        r@[0].provider_key@ == "jma_eew"@ && r@[0].label@ == "Wolfx 日本气象厅"@,
        r@[1].provider_key@ == "sc_eew"@ && r@[1].label@ == "Wolfx 四川地震局"@,
        r@[2].provider_key@ == "cenc_eew"@ && r@[2].label@ == "Wolfx 中国地震台网"@,
        r@[3].provider_key@ == "fj_eew"@ && r@[3].label@ == "Wolfx 福建地震局"@,
        r@[4].provider_key@ == "cq_eew"@ && r@[4].label@ == "Wolfx 重庆地震局"@,
        r@[5].provider_key@ == "cenc_eqlist"@ && r@[5].label@ == "Wolfx 中国地震台网测定"@,
        r@[6].provider_key@ == "earlywarning"@ && r@[6].label@ == "Huania 地震预警"@,
{
}

/// What is found under an identifier has it, and a source that is listed is found. Its times have
/// the offset that is listed with it.
pub proof fn law_source_is_found_by_its_identifier(
    list: Vec<SourceDefinition>,
    id: &str,
    r: Option<SourceDefinition>,
    offset: Option<i64>,
)
    requires
        call_ensures(sources, (), list),
        call_ensures(find, (id,), r),
        call_ensures(default_utc_offset_seconds, (id,), offset),
    ensures
        r matches Some(s) ==> s.id@ == id@ && list@.contains(s) && offset
            == s.default_utc_offset_seconds,
        (exists|k: int| 0 <= k < list@.len() && (#[trigger] list@[k]).id@ == id@) ==> r is Some,
        r is None ==> offset is None,
{
    let wanted = has_id(id@);
    lemma_first_source(source_list(), wanted);
    if exists|k: int| 0 <= k < list@.len() && (#[trigger] list@[k]).id@ == id@ {
        let k = choose|k: int| 0 <= k < list@.len() && (#[trigger] list@[k]).id@ == id@;
        assert(wanted(source_list()[k]));
    }
}

/// What is found for a kind of disaster reports it, and no source before it does.
pub proof fn law_first_source_of_a_kind_is_found(
    list: Vec<SourceDefinition>,
    category: DisasterCategory,
    r: Option<SourceDefinition>,
    k: int,
)
    requires
        call_ensures(sources, (), list),
        call_ensures(find_for_category, (category,), r),
        0 <= k < list@.len(),
        list@[k].category == category,
        forall|i: int| 0 <= i < k ==> (#[trigger] list@[i]).category != category,
    ensures
        r == Some(list@[k]),
{
    lemma_is_first_source(source_list(), reports(category), k);
}

/// Nothing is found for a kind of disaster that no source reports.
pub proof fn law_kinds_without_a_source(
    list: Vec<SourceDefinition>,
    category: DisasterCategory,
    r: Option<SourceDefinition>,
)
    requires
        call_ensures(sources, (), list),
        call_ensures(find_for_category, (category,), r),
        forall|i: int| 0 <= i < list@.len() ==> (#[trigger] list@[i]).category != category,
    ensures
        r is None,
{
    lemma_first_source(source_list(), reports(category));
    if r is Some {
        let i = choose|i: int| 0 <= i < source_list().len() && source_list()[i] == r->0;
        assert(list@[i].category != category);
    }
}

/// A source is the first that is wanted where none before it is.
pub proof fn lemma_is_first_source(
    list: Seq<SourceDefinition>,
    wanted: spec_fn(SourceDefinition) -> bool,
    k: int,
)
    requires
        0 <= k < list.len(),
        wanted(list[k]),
        forall|i: int| 0 <= i < k ==> !wanted(#[trigger] list[i]),
    ensures
        first_source(list, wanted) == Some(list[k]),
    decreases list.len(),
{
    if k > 0 {
        let rest = list.drop_first();
        assert(!wanted(list[0]));
        assert forall|i: int| 0 <= i < k - 1 implies !wanted(#[trigger] rest[i]) by {
            assert(rest[i] == list[i + 1]);
        }
        lemma_is_first_source(rest, wanted, k - 1);
    }
}

/// What is found under the name that a provider uses is a source of that provider with that name,
/// and one that is listed is found.
pub proof fn law_source_is_found_by_its_provider(
    list: Vec<SourceDefinition>,
    channel: ProviderChannel,
    provider_key: &str,
    r: Option<SourceDefinition>,
)
    requires
        call_ensures(sources, (), list),
        call_ensures(find_provider, (channel, provider_key), r),
    ensures
        r matches Some(s) ==> s.channel == channel && s.provider_key@ == provider_key@
            && list@.contains(s),
        (exists|k: int|
            0 <= k < list@.len() && (#[trigger] list@[k]).channel == channel
                && list@[k].provider_key@ == provider_key@) ==> r is Some,
{
    let wanted = is_called(channel, provider_key@);
    lemma_first_source(source_list(), wanted);
    if exists|k: int|
        0 <= k < list@.len() && (#[trigger] list@[k]).channel == channel && list@[k].provider_key@
            == provider_key@ {
        let k = choose|k: int|
            0 <= k < list@.len() && (#[trigger] list@[k]).channel == channel
                && list@[k].provider_key@ == provider_key@;
        assert(wanted(source_list()[k]));
    }
}

/// Every kind of disaster is offered under its name, with its label and its rule.
pub proof fn law_every_kind_is_offered<
    N,
    L: Fn(DisasterCategory) -> &'static str,
    D: Fn(DisasterCategory) -> AlertRule<N>,
>(enabled: bool, label: L, default_rule: D, r: Vec<CategoryOption<N>>)
    requires
        call_ensures(category_options::<N, L, D>, (enabled, label, default_rule), r),
    ensures
        r@.len() == 5,
        r@[0].id@ == "earthquake_warning"@ && label.ensures(
            (DisasterCategory::EarthquakeWarning,),
            r@[0].label,
        ) && default_rule.ensures((DisasterCategory::EarthquakeWarning,), r@[0].default_alert),
        r@[1].id@ == "earthquake_report"@ && label.ensures(
            (DisasterCategory::EarthquakeReport,),
            r@[1].label,
        ) && default_rule.ensures((DisasterCategory::EarthquakeReport,), r@[1].default_alert),
        r@[2].id@ == "weather_warning"@ && label.ensures(
            (DisasterCategory::WeatherWarning,),
            r@[2].label,
        ) && default_rule.ensures((DisasterCategory::WeatherWarning,), r@[2].default_alert),
        r@[3].id@ == "tsunami"@ && label.ensures((DisasterCategory::Tsunami,), r@[3].label)
            && default_rule.ensures((DisasterCategory::Tsunami,), r@[3].default_alert),
        r@[4].id@ == "typhoon"@ && label.ensures((DisasterCategory::Typhoon,), r@[4].label)
            && default_rule.ensures((DisasterCategory::Typhoon,), r@[4].default_alert),
{
}

/// A group that is offered is made of listed sources: it has the identifier and the label of their
/// group, and holds those of them that may be chosen, in their order, each with its own identifier
/// and label.
pub proof fn law_offered_groups_hold_their_sources<
    N,
    L: Fn(DisasterCategory) -> &'static str,
    D: Fn(DisasterCategory) -> AlertRule<N>,
>(
    list: Vec<SourceDefinition>,
    kinds: Vec<DisasterCategory>,
    enabled: bool,
    label: L,
    default_rule: D,
    r: Vec<CategoryOption<N>>,
    i: int,
    g: int,
)
    requires
        call_ensures(sources, (), list),
        call_ensures(DisasterCategory::all, (), kinds),
        call_ensures(category_options::<N, L, D>, (enabled, label, default_rule), r),
        0 <= i < r@.len(),
        0 <= g < r@[i].source_groups@.len(),
    ensures
        ({
            let group = r@[i].source_groups@[g];
            let held = list@.filter(
                |s: SourceDefinition|
                    s.category == kinds@[i] && (enabled || s.channel != ProviderChannel::Huania),
            ).filter(|s: SourceDefinition| s.group_id@ == group.id@);
            &&& held.len() > 0
            &&& group.label@ == held[0].group_label@
            &&& group.sources@.len() == held.len()
            &&& forall|j: int|
                0 <= j < held.len() ==> (#[trigger] group.sources@[j]).id@ == held[j].id@
                    && group.sources@[j].label@ == held[j].label@
        }),
{
    let category = kinds@[i];
    let chosen = offered(category, enabled);
    let keep = |s: SourceDefinition| is_offered(s, category, enabled);
    let keep_raw = |s: SourceDefinition|
        s.category == kinds@[i] && (enabled || s.channel != ProviderChannel::Huania);
    assert(keep =~= keep_raw);
    let groups = grouped(chosen);
    let group = r@[i].source_groups@[g];
    assert(group_models(r@[i].source_groups@)[g] == group@);
    law_grouping_keeps_every_source(chosen);
    lemma_groups_come_from_sources(chosen, g);
    let p = |s: SourceDefinition| s.group_id@ == group.id@;
    let held = chosen.filter(p);
    assert(groups[g].sources == members(chosen, group.id@));
    assert(group@.sources.len() == held.len());
    assert forall|j: int| 0 <= j < held.len() implies (#[trigger] group.sources@[j]).id@
        == held[j].id@ && group.sources@[j].label@ == held[j].label@ by {
        assert(group@.sources[j] == members(chosen, group.id@)[j]);
    }
    let k = choose|k: int|
        0 <= k < chosen.len() && (#[trigger] chosen[k]).group_id@ == groups[g].id
            && chosen[k].group_label@ == groups[g].label;
    lemma_filter(chosen, p, chosen[k]);
    assert(held.contains(chosen[k]));
    let j = choose|j: int| 0 <= j < held.len() && held[j] == chosen[k];
    lemma_filter(chosen, p, held[0]);
    assert(held.contains(held[0]));
    lemma_filter(source_list(), keep, held[0]);
    lemma_filter(source_list(), keep, chosen[k]);
    let a = choose|a: int| 0 <= a < source_list().len() && source_list()[a] == held[0];
    let b = choose|b: int| 0 <= b < source_list().len() && source_list()[b] == chosen[k];
    law_groups_are_consistent(a, b);
}

/// Where the groups come from.
proof fn lemma_groups_come_from_sources(list: Seq<SourceDefinition>, g: int)
    requires
        0 <= g < grouped(list).len(),
    ensures
        exists|k: int|
            0 <= k < list.len() && (#[trigger] list[k]).group_id@ == grouped(list)[g].id
                && list[k].group_label@ == grouped(list)[g].label,
    decreases list.len(),
{
    let rest = list.drop_last();
    let s = list.last();
    assert(list[list.len() - 1] == s);
    lemma_group_index(grouped(rest), s.group_id@);
    if g < grouped(rest).len() {
        lemma_groups_come_from_sources(rest, g);
        let k = choose|k: int|
            0 <= k < rest.len() && (#[trigger] rest[k]).group_id@ == grouped(rest)[g].id
                && rest[k].group_label@ == grouped(rest)[g].label;
        assert(list[k] == rest[k]);
    }
}

/// Every listed source is offered for what it reports, in its group, except those of Huania while it
/// is disabled; and no two groups of one kind have one identifier.
pub proof fn law_every_source_is_offered<
    N,
    L: Fn(DisasterCategory) -> &'static str,
    D: Fn(DisasterCategory) -> AlertRule<N>,
>(
    list: Vec<SourceDefinition>,
    kinds: Vec<DisasterCategory>,
    enabled: bool,
    label: L,
    default_rule: D,
    r: Vec<CategoryOption<N>>,
    i: int,
    k: int,
)
    requires
        call_ensures(sources, (), list),
        call_ensures(DisasterCategory::all, (), kinds),
        call_ensures(category_options::<N, L, D>, (enabled, label, default_rule), r),
        0 <= i < r@.len(),
        0 <= k < list@.len(),
    ensures
        list@[k].category == kinds@[i] && (enabled || list@[k].channel != ProviderChannel::Huania)
            ==> exists|g: int|
            0 <= g < r@[i].source_groups@.len() && (#[trigger] r@[i].source_groups@[g]).id@
                == list@[k].group_id@,
        forall|g: int, h: int|
            0 <= g < h < r@[i].source_groups@.len() ==> (#[trigger] r@[i].source_groups@[g]).id@
                != (#[trigger] r@[i].source_groups@[h]).id@,
{
    let category = kinds@[i];
    let chosen = offered(category, enabled);
    let models = group_models(r@[i].source_groups@);
    law_grouping_keeps_every_source(chosen);
    assert forall|g: int, h: int| 0 <= g < h < r@[i].source_groups@.len() implies (
    #[trigger] r@[i].source_groups@[g]).id@ != (#[trigger] r@[i].source_groups@[h]).id@ by {
        assert(models[g].id == r@[i].source_groups@[g].id@);
        assert(models[h].id == r@[i].source_groups@[h].id@);
        assert(grouped(chosen)[g].id != grouped(chosen)[h].id);
    }
    if list@[k].category == kinds@[i] && (enabled || list@[k].channel != ProviderChannel::Huania) {
        lemma_filter(
            source_list(),
            |s: SourceDefinition| is_offered(s, category, enabled),
            list@[k],
        );
        assert(source_list().contains(list@[k]));
        let j = choose|j: int| 0 <= j < chosen.len() && chosen[j] == list@[k];
        assert(group_index(grouped(chosen), chosen[j].group_id@) is Some);
        lemma_group_index(grouped(chosen), list@[k].group_id@);
        let g = group_index(grouped(chosen), list@[k].group_id@)->0;
        assert(models[g].id == r@[i].source_groups@[g].id@);
    }
}

} // verus!
