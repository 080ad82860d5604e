//! The province, city and district of a place, from two providers, with a cache.
use crate::api::{ApiResponse, Reply, Status};
use crate::text;
use crate::urls;
use vstd::prelude::*;

verus! {

/// How long a result is kept, in nanoseconds.
pub const CACHE_TTL_NS: u64 = 86_400_000_000_000;

/// The least time between two requests to Nominatim, in nanoseconds.
pub const MIN_REQUEST_INTERVAL_NS: u64 = 1_000_000_000;

/// The most results that are kept.
pub const MAX_CACHE_ENTRIES: usize = 1_024;

/// The most bytes of an answer that are read.
pub const MAX_RESPONSE_BYTES: usize = 65_536;

#[derive(Debug)]
pub struct ReverseGeocodeResult {
    pub province: String,
    pub city: String,
    pub district: String,
}

/// A place, as texts.
#[verifier::ext_equal]
pub struct PlaceModel {
    pub province: Seq<char>,
    pub city: Seq<char>,
    pub district: Seq<char>,
}

impl View for ReverseGeocodeResult {
    type V = PlaceModel;

    open spec fn view(&self) -> PlaceModel {
        PlaceModel { province: self.province@, city: self.city@, district: self.district@ }
    }
}

impl Clone for ReverseGeocodeResult {
    fn clone(&self) -> (r: ReverseGeocodeResult)
        ensures
            r == *self,
    {
        ReverseGeocodeResult {
            province: self.province.clone(),
            city: self.city.clone(),
            district: self.district.clone(),
        }
    }
}

// ---------------------------------------------------------------------------
// What Nominatim says
// ---------------------------------------------------------------------------
#[derive(Debug, Default)]
pub struct NominatimAddress {
    pub state: Option<String>,
    pub province: Option<String>,
    pub region: Option<String>,
    pub city: Option<String>,
    pub town: Option<String>,
    pub municipality: Option<String>,
    pub county: Option<String>,
    pub city_district: Option<String>,
    pub district: Option<String>,
    pub borough: Option<String>,
    pub suburb: Option<String>,
}

#[derive(Debug)]
pub struct NominatimResponse {
    pub address: NominatimAddress,
    pub display_name: Option<String>,
    pub error: Option<String>,
}

/// The first text of a list that is given and not blank, trimmed; else nothing.
pub open spec fn first_given(values: Seq<Option<String>>) -> Seq<char>
    decreases values.len(),
{
    if values.len() == 0 {
        Seq::empty()
    } else {
        match values[0] {
            Some(s) => if text::trimmed(s@).len() > 0 {
                text::trimmed(s@)
            } else {
                first_given(values.drop_first())
            },
            None => first_given(values.drop_first()),
        }
    }
}

pub fn first_non_empty<const K: usize>(values: [Option<String>; K]) -> (r: String)
    ensures
        r@ == first_given(values@),
{
    let mut i: usize = 0;
    assert(values@.skip(0) =~= values@);
    while i < K
        invariant
            i <= K,
            values@.len() == K,
            first_given(values@) == first_given(values@.skip(i as int)),
        decreases K - i,
    {
        proof {
            assert(values@.skip(i as int)[0] == values@[i as int]);
            assert(values@.skip(i as int).drop_first() =~= values@.skip(i + 1));
        }
        if let Some(s) = &values[i] {
            let trimmed = text::trim(s.as_str());
            if !trimmed.is_empty() {
                return trimmed.to_owned();
            }
        }
        i += 1;
    }
    assert(values@.skip(K as int).len() == 0);
    let r = String::new();
    assert(r@ =~= Seq::empty());
    r
}

/// Whether a text ends in this character.
pub open spec fn ends_in(s: Seq<char>, last: char) -> bool {
    s.len() > 0 && s.last() == last
}

/// Whether a name looks like that of a Chinese district.
pub open spec fn is_district_name(s: Seq<char>) -> bool {
    ends_in(s, '区') || ends_in(s, '县') || ends_in(s, '旗')
}

pub fn looks_like_chinese_district(value: &str) -> (r: bool)
    ensures
        r == is_district_name(value@),
{
    text::ends_with_char(value, '区') || text::ends_with_char(value, '县')
        || text::ends_with_char(value, '旗')
}

/// Whether a name looks like that of a part of a Chinese district.
pub open spec fn is_subdistrict_name(s: Seq<char>) -> bool {
    text::is_suffix(s, "街道"@) || ends_in(s, '镇') || ends_in(s, '乡')
}

pub fn looks_like_chinese_subdistrict(value: &str) -> (r: bool)
    ensures
        r == is_subdistrict_name(value@),
{
    text::ends_with(value, "街道") || text::ends_with_char(value, '镇')
        || text::ends_with_char(value, '乡')
}

/// Whether a name is that of a prefecture.
pub open spec fn is_prefecture_name(s: Seq<char>) -> bool {
    ends_in(s, '市') && s.len() >= 2
}

/// Whether a character separates the parts of an address.
pub open spec fn is_comma(c: char) -> bool {
    c == ',' || c == '，'
}

/// The length of what stands before the first comma.
pub open spec fn part_len(s: Seq<char>) -> nat
    decreases s.len(),
{
    if s.len() == 0 || is_comma(s[0]) {
        0
    } else {
        1 + part_len(s.drop_first())
    }
}

/// The parts of an address between the commas, trimmed.
pub open spec fn address_parts(s: Seq<char>) -> Seq<Seq<char>>
    decreases s.len(),
{
    let n = part_len(s) as int;
    if n >= s.len() {
        seq![text::trimmed(s)]
    } else {
        seq![text::trimmed(s.take(n))] + address_parts(s.skip(n + 1))
    }
}

/// The first part that is the name of a prefecture.
pub open spec fn first_prefecture(parts: Seq<Seq<char>>) -> Option<Seq<char>>
    decreases parts.len(),
{
    if parts.len() == 0 {
        None
    } else if is_prefecture_name(parts[0]) {
        Some(parts[0])
    } else {
        first_prefecture(parts.drop_first())
    }
}

/// The prefecture that an address names.
pub open spec fn named_prefecture(display_name: Option<Seq<char>>) -> Option<Seq<char>> {
    match display_name {
        Some(name) => first_prefecture(address_parts(name)),
        None => None,
    }
}

proof fn lemma_part_len(s: Seq<char>, n: int)
    requires
        0 <= n <= s.len(),
        forall|k: int| 0 <= k < n ==> !is_comma(#[trigger] s[k]),
        n < s.len() ==> is_comma(s[n]),
    ensures
        part_len(s) == n,
    decreases s.len(),
{
    if n > 0 {
        let rest = s.drop_first();
        assert(!is_comma(s[0]));
        assert forall|k: int| 0 <= k < n - 1 implies !is_comma(#[trigger] rest[k]) by {
            assert(rest[k] == s[k + 1]);
        }
        lemma_part_len(rest, n - 1);
    }
}

/// The prefecture that an address names.
pub fn chinese_prefecture_from_display_name(display_name: Option<&str>) -> (r: Option<String>)
    ensures
        text::optional_text(r) == named_prefecture(text::optional_str(display_name)),
{
    let name = match display_name {
        Some(name) => name,
        None => {
            return None;
        },
    };
    let chars = text::to_chars(name);
    let n = chars.len();
    let mut from: usize = 0;
    assert(chars@.skip(0) =~= chars@);
    loop
        invariant
            n == chars@.len(),
            from <= n,
            name@ == chars@,
            display_name == Some(name),
            first_prefecture(address_parts(name@)) == first_prefecture(
                address_parts(chars@.skip(from as int)),
            ),
        decreases n - from,
    {
        let ghost rest = chars@.skip(from as int);
        let mut to: usize = from;
        while to < n && chars[to] != ',' && chars[to] != '，'
            invariant
                n == chars@.len(),
                from <= to <= n,
                forall|k: int| from <= k < to ==> !is_comma(#[trigger] chars@[k]),
            decreases n - to,
        {
            to += 1;
        }
        let part_text = text::from_chars(&chars, from, to);
        let part = text::trim(part_text.as_str());
        proof {
            assert forall|k: int| 0 <= k < to - from implies !is_comma(#[trigger] rest[k]) by {
                assert(rest[k] == chars@[from + k]);
            }
            lemma_part_len(rest, to - from);
            assert(rest.take(to - from) =~= chars@.subrange(from as int, to as int));
            assert(address_parts(rest)[0] == part@) by {
                if to == n {
                    assert(rest.take(to - from) =~= rest);
                }
            }
            if to < n {
                assert(address_parts(rest).drop_first() =~= address_parts(rest.skip(to - from + 1)));
                assert(rest.skip(to - from + 1) =~= chars@.skip(to + 1));
            } else {
                assert(first_prefecture(address_parts(rest).drop_first()) is None);
            }
        }
        if text::ends_with_char(part, '市') && part.unicode_len() >= 2 {
            return Some(part.to_owned());
        }
        if to >= n {
            return None;
        }
        from = to + 1;
    }
}

impl NominatimAddress {
    /// The place that an address is. Where the city is really a district, the prefecture that the
    /// address names is the city.
    pub open spec fn place(self, display_name: Option<Seq<char>>) -> PlaceModel {
        let province = first_given(seq![self.state, self.province, self.region]);
        let city = first_given(seq![self.city, self.town, self.municipality]);
        let district = first_given(
            seq![self.city_district, self.district, self.borough, self.suburb, self.county],
        );
        if is_district_name(city) {
            PlaceModel {
                province,
                city: match named_prefecture(display_name) {
                    Some(prefecture) => prefecture,
                    None => city,
                },
                district: if district.len() == 0 || is_subdistrict_name(district) {
                    city
                } else {
                    district
                },
            }
        } else {
            PlaceModel { province, city, district }
        }
    }

    pub fn into_result(self, display_name: Option<&str>) -> (r: ReverseGeocodeResult)
        ensures
            r@ == self.place(text::optional_str(display_name)),
    {
        let ghost provinces = seq![self.state, self.province, self.region];
        let ghost cities = seq![self.city, self.town, self.municipality];
        let ghost districts = seq![
            self.city_district,
            self.district,
            self.borough,
            self.suburb,
            self.county,
        ];
        let provinces_given = [self.state, self.province, self.region];
        assert(provinces_given@ =~= provinces);
        let province = first_non_empty(provinces_given);
        let cities_given = [self.city, self.town, self.municipality];
        assert(cities_given@ =~= cities);
        let city = first_non_empty(cities_given);
        let districts_given = [
            self.city_district,
            self.district,
            self.borough,
            self.suburb,
            self.county,
        ];
        assert(districts_given@ =~= districts);
        let district = first_non_empty(districts_given);
        if !looks_like_chinese_district(city.as_str()) {
            return ReverseGeocodeResult { province, city, district };
        }
        let district = if district.as_str().is_empty() || looks_like_chinese_subdistrict(
            district.as_str(),
        ) {
            city.clone()
        } else {
            district
        };
        let city = match chinese_prefecture_from_display_name(display_name) {
            Some(prefecture) => prefecture,
            None => city,
        };
        ReverseGeocodeResult { province, city, district }
    }
}

impl NominatimResponse {
    pub fn into_result(self) -> (r: ReverseGeocodeResult)
        ensures
            r@ == self.address.place(text::optional_text(self.display_name)),
    {
        match self.display_name {
            Some(name) => self.address.into_result(Some(name.as_str())),
            None => self.address.into_result(None),
        }
    }

    /// The place that Nominatim names, unless it says that it refuses.
    pub fn into_place(self) -> (r: Result<ReverseGeocodeResult, &'static str>)
        ensures
            match r {
                Ok(place) => (self.error is None || self.error->0@.len() == 0) && place@
                    == self.address.place(text::optional_text(self.display_name)),
                Err(message) => self.error is Some && self.error->0@.len() > 0 && message@
                    == "reverse geocoding service rejected the coordinates"@,
            },
    {
        let rejected = match &self.error {
            Some(error) => !error.as_str().is_empty(),
            None => false,
        };
        if rejected {
            Err("reverse geocoding service rejected the coordinates")
        } else {
            Ok(self.into_result())
        }
    }
}

proof fn lemma_first_given(values: Seq<Option<String>>)
    ensures
        text::trimmed(first_given(values)) == first_given(values),
    decreases values.len(),
{
    if values.len() > 0 {
        if let Some(s) = values[0] {
            text::lemma_trimmed_twice(s@);
        }
        lemma_first_given(values.drop_first());
    } else {
        text::lemma_trimmed_fixed(first_given(values));
    }
}

proof fn lemma_first_prefecture(parts: Seq<Seq<char>>)
    ensures
        first_prefecture(parts) matches Some(name) ==> is_prefecture_name(name) && parts.contains(
            name,
        ),
    decreases parts.len(),
{
    if parts.len() > 0 {
        if is_prefecture_name(parts[0]) {
            assert(parts.contains(parts[0]));
        } else {
            let rest = parts.drop_first();
            lemma_first_prefecture(rest);
            if let Some(name) = first_prefecture(rest) {
                let k = choose|k: int| 0 <= k < rest.len() && rest[k] == name;
                assert(parts[k + 1] == name);
            }
        }
    }
}

proof fn lemma_address_parts(s: Seq<char>)
    ensures
        forall|k: int|
            0 <= k < address_parts(s).len() ==> text::trimmed(#[trigger] address_parts(s)[k])
                == address_parts(s)[k],
    decreases s.len(),
{
    let n = part_len(s) as int;
    if n >= s.len() {
        text::lemma_trimmed_twice(s);
    } else {
        text::lemma_trimmed_twice(s.take(n));
        let rest = address_parts(s.skip(n + 1));
        lemma_address_parts(s.skip(n + 1));
        assert forall|k: int| 0 <= k < address_parts(s).len() implies text::trimmed(
            #[trigger] address_parts(s)[k],
        ) == address_parts(s)[k] by {
            if k > 0 {
                assert(address_parts(s)[k] == rest[k - 1]);
            }
        }
    }
}

/// A place that Nominatim names has no white space around its names.
pub proof fn law_nominatim_names_are_trimmed(
    address: NominatimAddress,
    display_name: Option<Seq<char>>,
)
    ensures
        ({
            let place = address.place(display_name);
            &&& text::trimmed(place.province) == place.province
            &&& text::trimmed(place.city) == place.city
            &&& text::trimmed(place.district) == place.district
        }),
{
    lemma_first_given(seq![address.state, address.province, address.region]);
    lemma_first_given(seq![address.city, address.town, address.municipality]);
    lemma_first_given(
        seq![
            address.city_district,
            address.district,
            address.borough,
            address.suburb,
            address.county,
        ],
    );
    if let Some(name) = display_name {
        lemma_address_parts(name);
        lemma_first_prefecture(address_parts(name));
        if let Some(prefecture) = first_prefecture(address_parts(name)) {
            let k = choose|k: int|
                0 <= k < address_parts(name).len() && address_parts(name)[k] == prefecture;
            assert(text::trimmed(address_parts(name)[k]) == address_parts(name)[k]);
        }
    }
}

/// Where Nominatim gives a district in the place of a city, the place has a district that is not
/// merely a part of one, and the prefecture that the address names, if it does, is the city.
pub proof fn law_district_in_place_of_a_city(
    address: NominatimAddress,
    display_name: Option<Seq<char>>,
)
    requires
        is_district_name(first_given(seq![address.city, address.town, address.municipality])),
    ensures
        address.place(display_name).district.len() > 0,
        !is_subdistrict_name(address.place(display_name).district),
        named_prefecture(display_name) matches Some(prefecture) ==> address.place(display_name).city
            == prefecture && is_prefecture_name(prefecture),
        named_prefecture(display_name) is None ==> address.place(display_name).city == first_given(
            seq![address.city, address.town, address.municipality],
        ),
{
    reveal_strlit("街道");
    let city = first_given(seq![address.city, address.town, address.municipality]);
    if text::is_suffix(city, "街道"@) {
        let at = city.len() - 2;
        assert(city.subrange(at, at + 2)[1] == "街道"@[1]);
        assert(city.last() == city.subrange(at, at + 2)[1]);
    }
    if let Some(name) = display_name {
        lemma_first_prefecture(address_parts(name));
    }
}

// ---------------------------------------------------------------------------
// What Amap says
// ---------------------------------------------------------------------------
/// A value where Amap should give a text.
#[derive(Debug)]
pub enum AmapValue {
    Missing,
    Text(String),
    Number(String),
    EmptyList,
    /// Anything else, as it is written.
    Other(String),
}

/// The text that a value of Amap stands for.
pub open spec fn amap_value_text(value: AmapValue) -> Result<Seq<char>, Seq<char>> {
    match value {
        AmapValue::Missing | AmapValue::EmptyList => Ok(Seq::empty()),
        AmapValue::Text(s) | AmapValue::Number(s) => Ok(s@),
        AmapValue::Other(s) => Err("expected Amap string, number, or empty array, got "@ + s@),
    }
}

/// The text that a value of Amap stands for, or why it stands for none.
pub fn amap_text(value: AmapValue) -> (r: Result<String, String>)
    ensures
        match r {
            Ok(s) => amap_value_text(value) == Ok::<Seq<char>, Seq<char>>(s@),
            Err(message) => amap_value_text(value) == Err::<Seq<char>, Seq<char>>(message@),
        },
{
    match value {
        AmapValue::Missing | AmapValue::EmptyList => {
            let s = String::new();
            assert(s@ =~= Seq::empty());
            Ok(s)
        },
        AmapValue::Text(s) | AmapValue::Number(s) => Ok(s),
        AmapValue::Other(s) => {
            let mut message = "expected Amap string, number, or empty array, got ".to_owned();
            message.append(s.as_str());
            Err(message)
        },
    }
}

#[derive(Debug, Default)]
pub struct AmapAddressComponent {
    pub province: String,
    pub city: String,
    pub district: String,
}

#[derive(Debug)]
pub struct AmapRegeocode {
    pub address_component: Option<AmapAddressComponent>,
}

#[derive(Debug)]
pub struct AmapResponse {
    pub status: String,
    pub info: String,
    pub infocode: String,
    pub regeocode: Option<AmapRegeocode>,
}

/// The place of an address component: trimmed, and with the province in the place of a city that
/// is missing.
pub open spec fn component_place(province: Seq<char>, city: Seq<char>, district: Seq<char>) -> PlaceModel {
    PlaceModel {
        province: text::trimmed(province),
        city: if text::trimmed(city).len() == 0 {
            text::trimmed(province)
        } else {
            text::trimmed(city)
        },
        district: text::trimmed(district),
    }
}

impl AmapResponse {
    /// The place that is named, before it is known whether it is one.
    pub open spec fn place(self) -> PlaceModel {
        match self.regeocode {
            Some(AmapRegeocode { address_component: Some(component) }) => component_place(
                component.province@,
                component.city@,
                component.district@,
            ),
            _ => component_place(Seq::empty(), Seq::empty(), Seq::empty()),
        }
    }

    /// What a refusal says.
    pub open spec fn rejection(self) -> Seq<char> {
        "amap reverse geocoding rejected the coordinates (status="@ + self.status@ + " info="@
            + self.info@ + " infocode="@ + self.infocode@ + ")"@
    }

    /// The place that Amap names, unless it refuses or names none.
    pub fn into_result(self) -> (r: Result<ReverseGeocodeResult, String>)
        ensures
            match r {
                Ok(place) => self.status@ == "1"@ && place@ == self.place() && (
                place@.province.len() > 0 || place@.city.len() > 0 || place@.district.len() > 0),
                Err(message) => if self.status@ != "1"@ {
                    message@ == self.rejection()
                } else {
                    &&& self.place().province.len() == 0
                    &&& self.place().city.len() == 0
                    &&& self.place().district.len() == 0
                    &&& message@ == "amap reverse geocoding returned an empty address"@
                },
            },
    {
        if !text::same(self.status.as_str(), "1") {
            let mut message =
                "amap reverse geocoding rejected the coordinates (status=".to_owned();
            message.append(self.status.as_str());
            message.append(" info=");
            message.append(self.info.as_str());
            message.append(" infocode=");
            message.append(self.infocode.as_str());
            message.append(")");
            return Err(message);
        }
        let component = match self.regeocode {
            Some(AmapRegeocode { address_component: Some(component) }) => component,
            _ => AmapAddressComponent {
                province: String::new(),
                city: String::new(),
                district: String::new(),
            },
        };
        assert(component_place(component.province@, component.city@, component.district@)
            == self.place());
        let province = text::trim(component.province.as_str()).to_owned();
        let given_city = text::trim(component.city.as_str());
        let district = text::trim(component.district.as_str()).to_owned();
        let city = if given_city.is_empty() {
            province.clone()
        } else {
            given_city.to_owned()
        };
        if province.as_str().is_empty() && city.as_str().is_empty() && district.as_str().is_empty() {
            return Err("amap reverse geocoding returned an empty address".to_owned());
        }
        Ok(ReverseGeocodeResult { province, city, district })
    }
}

/// A place that Amap names has a city wherever it has a province.
pub proof fn law_amap_city_is_never_missing(province: Seq<char>, city: Seq<char>, district: Seq<char>)
    ensures
        component_place(province, city, district).city.len() == 0 ==> component_place(
            province,
            city,
            district,
        ).province.len() == 0,
{
}

// ---------------------------------------------------------------------------
// Which providers are asked, and how
// ---------------------------------------------------------------------------
/// Amap, with the key that it asks for.
#[derive(Debug)]
pub struct AmapPlan<'a> {
    pub endpoint: String,
    pub key: &'a str,
}

/// Which providers are asked.
#[derive(Debug)]
pub enum GeocoderPlan<'a> {
    Disabled,
    Enabled { nominatim_endpoint: String, amap: Option<AmapPlan<'a>> },
}

/// The key of Amap, if one is given.
pub open spec fn amap_key_given(amap_key: Option<&str>) -> Option<Seq<char>> {
    match amap_key {
        Some(key) => if text::trimmed(key@).len() > 0 {
            Some(text::trimmed(key@))
        } else {
            None
        },
        None => None,
    }
}

impl<'a> GeocoderPlan<'a> {
    /// Which providers the settings name. Nothing is read of them while geocoding is disabled,
    /// and no URL of Amap without a key for it.
    pub fn from_settings(
        enabled: bool,
        reverse_geocoding_url: &str,
        amap_regeo_url: &str,
        amap_key: Option<&'a str>,
    ) -> (r: Result<GeocoderPlan<'a>, &'static str>)
        ensures
            if !enabled {
                r == Ok::<GeocoderPlan<'a>, &'static str>(GeocoderPlan::Disabled)
            } else if !urls::is_url(reverse_geocoding_url@) {
                r matches Err(message) && message@ == "failed to parse reverse geocoding URL"@
            } else {
                match amap_key_given(amap_key) {
                    None => r matches Ok(GeocoderPlan::Enabled { nominatim_endpoint, amap })
                        && urls::url_text(reverse_geocoding_url@) == Some(nominatim_endpoint@)
                        && amap is None,
                    Some(key) => if !urls::is_url(amap_regeo_url@) {
                        r matches Err(message) && message@
                            == "failed to parse Amap reverse geocoding URL"@
                    } else {
                        r matches Ok(GeocoderPlan::Enabled { nominatim_endpoint, amap: Some(amap) })
                            && urls::url_text(reverse_geocoding_url@) == Some(nominatim_endpoint@)
                            && urls::url_text(amap_regeo_url@) == Some(amap.endpoint@)
                            && amap.key@ == key
                    },
                }
            },
    {
        if !enabled {
            return Ok(GeocoderPlan::Disabled);
        }
        let nominatim_endpoint = match urls::parse_url(reverse_geocoding_url) {
            Some(endpoint) => endpoint,
            None => {
                return Err("failed to parse reverse geocoding URL");
            },
        };
        let key = match amap_key {
            Some(key) => text::trim(key),
            None => "",
        };
        proof {
            reveal_strlit("");
        }
        if key.is_empty() {
            return Ok(GeocoderPlan::Enabled { nominatim_endpoint, amap: None });
        }
        match urls::parse_url(amap_regeo_url) {
            Some(endpoint) => Ok(
                GeocoderPlan::Enabled {
                    nominatim_endpoint,
                    amap: Some(AmapPlan { endpoint, key }),
                },
            ),
            None => Err("failed to parse Amap reverse geocoding URL"),
        }
    }
}

/// Why there is no URL under which a provider can be asked.
#[derive(Debug, Clone, Copy, PartialEq, Eq, Structural)]
pub enum RequestUrlFault {
    /// The endpoint is no URL.
    NotAUrl,
    /// The endpoint or what it is asked with is too long to be written into a URL.
    TooLong,
}

/// Whether this is the URL under which an endpoint is asked with names and values.
pub open spec fn is_request_url(
    r: Result<String, RequestUrlFault>,
    endpoint: Seq<char>,
    pairs: Seq<(Seq<char>, Seq<char>)>,
) -> bool {
    if !urls::is_url(endpoint) {
        r == Err::<String, RequestUrlFault>(RequestUrlFault::NotAUrl)
    } else if !urls::has_room_for_more_pairs(endpoint, pairs) {
        r == Err::<String, RequestUrlFault>(RequestUrlFault::TooLong)
    } else {
        r matches Ok(url) && urls::url_with_more_pairs(endpoint, pairs) == Some(url@) && (
        urls::is_web_address(endpoint) ==> {
            &&& urls::has_only_new_path(url@, endpoint, urls::url_path(endpoint)->0)
            &&& urls::url_pairs(url@) == Some(urls::url_pairs(endpoint)->0 + pairs)
        })
    }
}

/// The URL under which an endpoint is asked with names and values.
fn request_url(endpoint: &str, pairs: &Vec<(String, String)>) -> (r: Result<
    String,
    RequestUrlFault,
>)
    ensures
        is_request_url(r, endpoint@, urls::pair_texts(pairs@)),
{
    if !urls::fits_with_more_pairs(endpoint, pairs) {
        return Err(RequestUrlFault::TooLong);
    }
    match urls::with_more_pairs(endpoint, pairs) {
        Some(url) => Ok(url),
        None => Err(RequestUrlFault::NotAUrl),
    }
}

/// What Amap is asked with.
pub open spec fn amap_pairs(key: Seq<char>, location: Seq<char>) -> Seq<(Seq<char>, Seq<char>)> {
    seq![
        ("key"@, key),
        ("location"@, location),
        ("extensions"@, "base"@),
        ("output"@, "json"@),
    ]
}

/// The URL under which Amap is asked for a location.
pub fn amap_request_url(endpoint: &str, key: &str, location: &str) -> (r: Result<
    String,
    RequestUrlFault,
>)
    ensures
        is_request_url(r, endpoint@, amap_pairs(key@, location@)),
{
    let mut pairs: Vec<(String, String)> = Vec::new();
    pairs.push(("key".to_owned(), key.to_owned()));
    pairs.push(("location".to_owned(), location.to_owned()));
    pairs.push(("extensions".to_owned(), "base".to_owned()));
    pairs.push(("output".to_owned(), "json".to_owned()));
    assert(urls::pair_texts(pairs@) =~= amap_pairs(key@, location@));
    request_url(endpoint, &pairs)
}

/// What Nominatim is asked with.
pub open spec fn nominatim_pairs(latitude: Seq<char>, longitude: Seq<char>) -> Seq<
    (Seq<char>, Seq<char>),
> {
    seq![
        ("format"@, "jsonv2"@),
        ("addressdetails"@, "1"@),
        ("accept-language"@, "zh-CN,zh,en"@),
        ("zoom"@, "14"@),
        ("lat"@, latitude),
        ("lon"@, longitude),
    ]
}

/// The URL under which Nominatim is asked for a location.
pub fn nominatim_request_url(endpoint: &str, latitude: &str, longitude: &str) -> (r: Result<
    String,
    RequestUrlFault,
>)
    ensures
        is_request_url(r, endpoint@, nominatim_pairs(latitude@, longitude@)),
{
    let mut pairs: Vec<(String, String)> = Vec::new();
    pairs.push(("format".to_owned(), "jsonv2".to_owned()));
    pairs.push(("addressdetails".to_owned(), "1".to_owned()));
    pairs.push(("accept-language".to_owned(), "zh-CN,zh,en".to_owned()));
    pairs.push(("zoom".to_owned(), "14".to_owned()));
    pairs.push(("lat".to_owned(), latitude.to_owned()));
    pairs.push(("lon".to_owned(), longitude.to_owned()));
    assert(urls::pair_texts(pairs@) =~= nominatim_pairs(latitude@, longitude@));
    request_url(endpoint, &pairs)
}

// ---------------------------------------------------------------------------
// The cache
// ---------------------------------------------------------------------------
/// A place on earth, in ten thousandths of a degree.
#[derive(Debug, Clone, Copy, PartialEq, Eq, Hash, Structural)]
pub struct CoordinateKey {
    pub latitude: i32,
    pub longitude: i32,
}

#[derive(Debug)]
struct CacheEntry {
    key: CoordinateKey,
    value: ReverseGeocodeResult,
    stored_at_ns: u64,
}

/// A result that is kept, and since when.
pub struct EntryModel {
    pub key: CoordinateKey,
    pub value: ReverseGeocodeResult,
    pub stored_at_ns: u64,
}

/// Results that are kept, from the one that was stored first to the one that was stored last.
#[derive(Debug)]
pub struct GeocoderCache {
    entries: Vec<CacheEntry>,
}

/// The last result under a key.
pub open spec fn entry_under(entries: Seq<EntryModel>, key: CoordinateKey) -> Option<EntryModel>
    decreases entries.len(),
{
    if entries.len() == 0 {
        None
    } else if entries.last().key == key {
        Some(entries.last())
    } else {
        entry_under(entries.drop_last(), key)
    }
}

/// The results without those under a key.
pub open spec fn without(entries: Seq<EntryModel>, key: CoordinateKey) -> Seq<EntryModel>
    decreases entries.len(),
{
    if entries.len() == 0 {
        Seq::empty()
    } else {
        let rest = without(entries.drop_last(), key);
        if entries.last().key == key {
            rest
        } else {
            rest.push(entries.last())
        }
    }
}

/// The results with one more, which takes the place of another under its key; only the last ones
/// are kept.
pub open spec fn with_entry(entries: Seq<EntryModel>, entry: EntryModel) -> Seq<EntryModel> {
    let all = without(entries, entry.key).push(entry);
    if all.len() > MAX_CACHE_ENTRIES {
        all.skip(all.len() - MAX_CACHE_ENTRIES)
    } else {
        all
    }
}

/// Whether no key occurs twice.
pub open spec fn keys_are_distinct(entries: Seq<EntryModel>) -> bool {
    forall|i: int, j: int|
        0 <= i < j < entries.len() ==> (#[trigger] entries[i]).key != (#[trigger] entries[j]).key
}

impl CacheEntry {
    spec fn model(self) -> EntryModel {
        EntryModel { key: self.key, value: self.value, stored_at_ns: self.stored_at_ns }
    }
}

spec fn entry_models(entries: Seq<CacheEntry>) -> Seq<EntryModel> {
    entries.map_values(|e: CacheEntry| e.model())
}

impl View for GeocoderCache {
    type V = Seq<EntryModel>;

    closed spec fn view(&self) -> Seq<EntryModel> {
        entry_models(self.entries@)
    }
}

/// Whether a result is still good.
pub open spec fn is_fresh(stored_at_ns: u64, now_ns: u64) -> bool {
    now_ns <= stored_at_ns || now_ns - stored_at_ns <= CACHE_TTL_NS
}

/// The result under a key, if it is still good.
pub open spec fn fresh_value(entries: Seq<EntryModel>, key: CoordinateKey, now_ns: u64) -> Option<
    ReverseGeocodeResult,
> {
    match entry_under(entries, key) {
        Some(entry) => if is_fresh(entry.stored_at_ns, now_ns) {
            Some(entry.value)
        } else {
            None
        },
        None => None,
    }
}

impl GeocoderCache {
    /// No key occurs twice, and there are not too many results.
    #[verifier::type_invariant]
    spec fn wf(self) -> bool {
        &&& keys_are_distinct(entry_models(self.entries@))
        &&& self.entries@.len() <= MAX_CACHE_ENTRIES
    }

    /// A cache without results.
    pub fn new() -> (r: GeocoderCache)
        ensures
            r@.len() == 0,
    {
        GeocoderCache { entries: Vec::new() }
    }

    /// How many results are kept.
    pub fn len(&self) -> (n: usize)
        ensures
            n == self@.len(),
            n <= MAX_CACHE_ENTRIES,
            keys_are_distinct(self@),
    {
        proof {
            use_type_invariant(self);
        }
        self.entries.len()
    }

    /// The result for a place, if one is kept and still good.
    pub fn cached(&self, key: CoordinateKey, now_ns: u64) -> (r: Option<ReverseGeocodeResult>)
        ensures
            r == fresh_value(self@, key, now_ns),
    {
        let mut i: usize = self.entries.len();
        assert(self@.take(i as int) =~= self@);
        while i > 0
            invariant
                i <= self.entries@.len(),
                self@.len() == self.entries@.len(),
                entry_under(self@, key) == entry_under(self@.take(i as int), key),
            decreases i,
        {
            let at: usize = i - 1;
            proof {
                assert(self@.take(i as int).drop_last() =~= self@.take(at as int));
                assert(self@.take(i as int).last() == self.entries@[at as int].model());
            }
            if self.entries[at].key == key {
                let stored_at_ns: u64 = self.entries[at].stored_at_ns;
                return if now_ns <= stored_at_ns || now_ns - stored_at_ns <= CACHE_TTL_NS {
                    Some(self.entries[at].value.clone())
                } else {
                    None
                };
            }
            i -= 1;
        }
        None
    }

    /// Keeps a result, and forgets the oldest where there are too many.
    pub fn cache(self, key: CoordinateKey, value: ReverseGeocodeResult, now_ns: u64) -> (r:
        GeocoderCache)
        ensures
            r@ == with_entry(self@, EntryModel { key, value, stored_at_ns: now_ns }),
    {
        proof {
            use_type_invariant(&self);
        }
        let ghost all = entry_models(self.entries@);
        let ghost added = EntryModel { key, value, stored_at_ns: now_ns };
        let mut kept: Vec<CacheEntry> = Vec::new();
        assert(entry_models(kept@) =~= without(all.take(0), key));
        for entry in it: self.entries
            invariant
                it.seq() == self.entries@,
                all == entry_models(self.entries@),
                entry_models(kept@) == without(all.take(it.index()), key),
                kept@.len() <= it.index(),
        {
            let ghost before = kept@;
            proof {
                assert(all.take(it.index() + 1).drop_last() =~= all.take(it.index()));
                assert(all.take(it.index() + 1).last() == entry.model());
            }
            if entry.key != key {
                kept.push(entry);
                assert(entry_models(kept@) =~= entry_models(before).push(entry.model()));
            }
        }
        assert(all.take(all.len() as int) =~= all);
        kept.push(CacheEntry { key, value, stored_at_ns: now_ns });
        proof {
            assert(kept@.last().model() == added);
            assert(entry_models(kept@) =~= without(all, key).push(added));
            lemma_with_entry(all, added);
        }
        if kept.len() > MAX_CACHE_ENTRIES {
            let excess: usize = kept.len() - MAX_CACHE_ENTRIES;
            assert(excess == 1);
            let newest = kept.split_off(excess);
            proof {
                assert(entry_models(newest@) =~= with_entry(all, added));
            }
            GeocoderCache { entries: newest }
        } else {
            GeocoderCache { entries: kept }
        }
    }
}

/// What is left without a key: no result under it, all others, and no key twice.
proof fn lemma_without(entries: Seq<EntryModel>, key: CoordinateKey)
    ensures
        without(entries, key).len() <= entries.len(),
        forall|i: int|
            0 <= i < without(entries, key).len() ==> (#[trigger] without(entries, key)[i]).key
                != key && entries.contains(without(entries, key)[i]),
        keys_are_distinct(entries) ==> keys_are_distinct(without(entries, key)),
        forall|other: CoordinateKey|
            other != key ==> #[trigger] entry_under(without(entries, key), other) == entry_under(
                entries,
                other,
            ),
    decreases entries.len(),
{
    if entries.len() > 0 {
        let rest = entries.drop_last();
        let last = entries.last();
        let left = without(rest, key);
        lemma_without(rest, key);
        assert forall|i: int| 0 <= i < left.len() implies entries.contains(#[trigger] left[i]) by {
            let k = choose|k: int| 0 <= k < rest.len() && rest[k] == left[i];
            assert(entries[k] == left[i]);
        }
        assert(entries[entries.len() - 1] == last);
        if keys_are_distinct(entries) {
            assert(keys_are_distinct(rest)) by {
                assert forall|i: int, j: int| 0 <= i < j < rest.len() implies (
                #[trigger] rest[i]).key != (#[trigger] rest[j]).key by {
                    assert(rest[i] == entries[i] && rest[j] == entries[j]);
                }
            }
            if last.key != key {
                assert forall|i: int| 0 <= i < left.len() implies (#[trigger] left[i]).key
                    != last.key by {
                    let k = choose|k: int| 0 <= k < rest.len() && rest[k] == left[i];
                    assert(entries[k] == left[i]);
                }
            }
        }
        assert forall|other: CoordinateKey| other != key implies #[trigger] entry_under(
            without(entries, key),
            other,
        ) == entry_under(entries, other) by {
            assert(entry_under(left, other) == entry_under(rest, other));
            if last.key != key {
                assert(without(entries, key).drop_last() =~= left);
            }
        }
    }
}

proof fn lemma_with_entry(entries: Seq<EntryModel>, entry: EntryModel)
    requires
        keys_are_distinct(entries),
        entries.len() <= MAX_CACHE_ENTRIES,
    ensures
        keys_are_distinct(with_entry(entries, entry)),
        0 < with_entry(entries, entry).len() <= MAX_CACHE_ENTRIES,
        with_entry(entries, entry).last() == entry,
        without(entries, entry.key).len() <= entries.len(),
{
    lemma_without(entries, entry.key);
}

/// What was kept is read back for as long as it is good.
pub proof fn law_cached_result_is_read_back(
    entries: Seq<EntryModel>,
    key: CoordinateKey,
    value: ReverseGeocodeResult,
    stored_at_ns: u64,
    now_ns: u64,
)
    requires
        keys_are_distinct(entries),
        entries.len() <= MAX_CACHE_ENTRIES,
    ensures
        fresh_value(
            with_entry(entries, EntryModel { key, value, stored_at_ns }),
            key,
            now_ns,
        ) == (if is_fresh(stored_at_ns, now_ns) {
            Some(value)
        } else {
            None
        }),
{
    lemma_with_entry(entries, EntryModel { key, value, stored_at_ns });
}

/// The cache never holds more results than allowed, nor two for one place.
pub proof fn law_cache_is_bounded(entries: Seq<EntryModel>, entry: EntryModel)
    requires
        keys_are_distinct(entries),
        entries.len() <= MAX_CACHE_ENTRIES,
    ensures
        with_entry(entries, entry).len() <= MAX_CACHE_ENTRIES,
        keys_are_distinct(with_entry(entries, entry)),
{
    lemma_with_entry(entries, entry);
}

/// Keeping a result changes no other one, except the oldest where the cache is full.
pub proof fn law_other_results_are_kept(
    entries: Seq<EntryModel>,
    entry: EntryModel,
    other: CoordinateKey,
)
    requires
        keys_are_distinct(entries),
        entries.len() <= MAX_CACHE_ENTRIES,
        other != entry.key,
        without(entries, entry.key).len() == MAX_CACHE_ENTRIES ==> entries[0].key != other,
    ensures
        entry_under(with_entry(entries, entry), other) == entry_under(entries, other),
{
    let left = without(entries, entry.key);
    let all = left.push(entry);
    lemma_without(entries, entry.key);
    assert(all.drop_last() =~= left);
    assert(entry_under(all, other) == entry_under(left, other));
    if all.len() > MAX_CACHE_ENTRIES {
        lemma_without_nothing(entries, entry.key);
        assert(left == entries);
        assert(all[0] == entries[0]);
        lemma_skip_first(all, other);
    }
}

/// Where the cache is full of other results, keeping one more makes it forget the oldest.
pub proof fn law_oldest_result_is_forgotten(entries: Seq<EntryModel>, entry: EntryModel)
    requires
        keys_are_distinct(entries),
        entries.len() == MAX_CACHE_ENTRIES,
        entry_under(entries, entry.key) is None,
    ensures
        entry_under(with_entry(entries, entry), entries[0].key) is None,
        with_entry(entries, entry) == entries.skip(1).push(entry),
{
    lemma_without_missing(entries, entry.key);
    let kept = with_entry(entries, entry);
    assert(kept =~= entries.skip(1).push(entry));
    assert forall|i: int| 0 <= i < kept.len() implies (#[trigger] kept[i]).key
        != entries[0].key by {
        if i < kept.len() - 1 {
            assert(kept[i] == entries[i + 1]);
        } else {
            lemma_under_no_key(entries, entry.key);
        }
    }
    lemma_no_entry_under(kept, entries[0].key);
}

proof fn lemma_under_no_key(entries: Seq<EntryModel>, key: CoordinateKey)
    requires
        entry_under(entries, key) is None,
    ensures
        forall|i: int| 0 <= i < entries.len() ==> (#[trigger] entries[i]).key != key,
    decreases entries.len(),
{
    if entries.len() > 0 {
        let rest = entries.drop_last();
        lemma_under_no_key(rest, key);
        assert forall|i: int| 0 <= i < entries.len() implies (#[trigger] entries[i]).key != key by {
            if i < rest.len() {
                assert(rest[i] == entries[i]);
            }
        }
    }
}

proof fn lemma_no_entry_under(entries: Seq<EntryModel>, key: CoordinateKey)
    requires
        forall|i: int| 0 <= i < entries.len() ==> (#[trigger] entries[i]).key != key,
    ensures
        entry_under(entries, key) is None,
    decreases entries.len(),
{
    if entries.len() > 0 {
        let rest = entries.drop_last();
        assert forall|i: int| 0 <= i < rest.len() implies (#[trigger] rest[i]).key != key by {
            assert(rest[i] == entries[i]);
        }
        assert(entries[entries.len() - 1] == entries.last());
        lemma_no_entry_under(rest, key);
    }
}

proof fn lemma_without_missing(entries: Seq<EntryModel>, key: CoordinateKey)
    requires
        entry_under(entries, key) is None,
    ensures
        without(entries, key) == entries,
    decreases entries.len(),
{
    if entries.len() > 0 {
        let rest = entries.drop_last();
        lemma_without_missing(rest, key);
        assert(rest.push(entries.last()) =~= entries);
    } else {
        assert(without(entries, key) =~= entries);
    }
}

proof fn lemma_without_nothing(entries: Seq<EntryModel>, key: CoordinateKey)
    requires
        without(entries, key).len() == entries.len(),
    ensures
        without(entries, key) == entries,
    decreases entries.len(),
{
    if entries.len() > 0 {
        let rest = entries.drop_last();
        lemma_without(rest, key);
        assert(entries.last().key != key);
        lemma_without_nothing(rest, key);
        assert(rest.push(entries.last()) =~= entries);
    }
}

proof fn lemma_skip_first(entries: Seq<EntryModel>, other: CoordinateKey)
    requires
        entries.len() > 0,
        entries[0].key != other,
    ensures
        entry_under(entries.skip(1), other) == entry_under(entries, other),
    decreases entries.len(),
{
    if entries.len() > 1 {
        let rest = entries.drop_last();
        assert(entries.skip(1).last() == entries.last());
        assert(entries.skip(1).drop_last() =~= rest.skip(1));
        lemma_skip_first(rest, other);
    } else {
        assert(entry_under(entries.drop_last(), other) is None);
    }
}

// ---------------------------------------------------------------------------
// The pace of requests to Nominatim
// ---------------------------------------------------------------------------
/// When Nominatim was last asked.
#[derive(Debug, Clone, Copy, PartialEq, Eq)]
pub struct RequestPace {
    pub last_request_ns: Option<u64>,
}

/// How long a request to Nominatim still has to wait.
pub open spec fn delay(last_request_ns: Option<u64>, now_ns: u64) -> nat {
    match last_request_ns {
        Some(last) => if now_ns < last {
            MIN_REQUEST_INTERVAL_NS as nat
        } else if now_ns - last < MIN_REQUEST_INTERVAL_NS {
            (MIN_REQUEST_INTERVAL_NS - (now_ns - last)) as nat
        } else {
            0
        },
        None => 0,
    }
}

impl RequestPace {
    /// Nominatim was never asked.
    pub fn new() -> (r: RequestPace)
        ensures
            r.last_request_ns is None,
    {
        RequestPace { last_request_ns: None }
    }

    /// Lets a request pass, or says how long it has to wait before it asks again.
    pub fn acquire(self, now_ns: u64) -> (r: (RequestPace, Option<u64>))
        ensures
            match r.1 {
                None => delay(self.last_request_ns, now_ns) == 0 && r.0.last_request_ns == Some(
                    now_ns,
                ),
                Some(wait) => wait == delay(self.last_request_ns, now_ns) && wait > 0 && r.0
                    == self,
            },
    {
        let wait: u64 = match self.last_request_ns {
            Some(last) => {
                let elapsed: u64 = if now_ns < last {
                    0
                } else {
                    now_ns - last
                };
                if elapsed < MIN_REQUEST_INTERVAL_NS {
                    MIN_REQUEST_INTERVAL_NS - elapsed
                } else {
                    0
                }
            },
            None => 0,
        };
        if wait > 0 {
            (self, Some(wait))
        } else {
            (RequestPace { last_request_ns: Some(now_ns) }, None)
        }
    }
}

/// Two requests that pass one after the other are at least the interval apart.
pub proof fn law_requests_keep_their_distance(first_ns: u64, second_ns: u64)
    requires
        delay(Some(first_ns), second_ns) == 0,
    ensures
        second_ns >= first_ns + MIN_REQUEST_INTERVAL_NS,
{
}

/// Who waits as long as was said may pass, if nobody else passed meanwhile.
pub proof fn law_waiting_is_enough(last_request_ns: Option<u64>, now_ns: u64, later_ns: u64)
    requires
        later_ns >= now_ns + delay(last_request_ns, now_ns),
        last_request_ns matches Some(last) ==> last <= now_ns,
    ensures
        delay(last_request_ns, later_ns) == 0,
{
}

// ---------------------------------------------------------------------------
// Finding a place
// ---------------------------------------------------------------------------
/// What is done next to find a place.
#[derive(Debug)]
pub enum ResolveStep {
    /// It was not found.
    Fail(&'static str),
    /// It was kept.
    Known(ReverseGeocodeResult),
    /// Amap is asked.
    AskAmap,
    /// Nominatim is asked, as soon as its pace allows.
    AskNominatim,
    /// It was found, and is kept.
    Found(ReverseGeocodeResult),
}

/// Begins to find a place. `key` is `None` where the coordinates are none.
pub fn start_resolve(
    enabled: bool,
    key: Option<CoordinateKey>,
    cache: &GeocoderCache,
    now_ns: u64,
    has_amap: bool,
) -> (r: ResolveStep)
    ensures
        if !enabled {
            r matches ResolveStep::Fail(message) && message@ == "reverse geocoding is disabled"@
        } else {
            match key {
                None => r matches ResolveStep::Fail(message) && message@ == "invalid coordinates"@,
                Some(key) => match fresh_value(cache@, key, now_ns) {
                    Some(value) => r == ResolveStep::Known(value),
                    None => r == (if has_amap {
                        ResolveStep::AskAmap
                    } else {
                        ResolveStep::AskNominatim
                    }),
                },
            }
        },
{
    if !enabled {
        return ResolveStep::Fail("reverse geocoding is disabled");
    }
    match key {
        None => ResolveStep::Fail("invalid coordinates"),
        Some(key) => match cache.cached(key, now_ns) {
            Some(value) => ResolveStep::Known(value),
            None => if has_amap {
                ResolveStep::AskAmap
            } else {
                ResolveStep::AskNominatim
            },
        },
    }
}

/// Goes on when Amap has answered; `None` where it failed. Nominatim is asked only then.
pub fn after_amap(answer: Option<ReverseGeocodeResult>) -> (r: ResolveStep)
    ensures
        r == (match answer {
            Some(value) => ResolveStep::Found(value),
            None => ResolveStep::AskNominatim,
        }),
{
    match answer {
        Some(value) => ResolveStep::Found(value),
        None => ResolveStep::AskNominatim,
    }
}

/// Goes on when Nominatim has answered. Where it failed, the place is not found, and nothing is
/// kept.
pub fn after_nominatim(answer: Result<ReverseGeocodeResult, &'static str>) -> (r: ResolveStep)
    ensures
        r == (match answer {
            Ok(value) => ResolveStep::Found(value),
            Err(message) => ResolveStep::Fail(message),
        }),
{
    match answer {
        Ok(value) => ResolveStep::Found(value),
        Err(message) => ResolveStep::Fail(message),
    }
}

/// The cache after a step: a place that was found is kept, and nothing else changes the cache.
pub fn keep_found(cache: GeocoderCache, key: CoordinateKey, step: &ResolveStep, now_ns: u64) -> (r:
    GeocoderCache)
    ensures
        r@ == (match *step {
            ResolveStep::Found(value) => with_entry(
                cache@,
                EntryModel { key, value, stored_at_ns: now_ns },
            ),
            _ => cache@,
        }),
{
    match step {
        ResolveStep::Found(value) => cache.cache(key, value.clone(), now_ns),
        _ => cache,
    }
}

/// Whether a status of HTTP is that of a success.
pub fn is_success(status: u16) -> (r: bool)
    ensures
        r == (200 <= status <= 299),
{
    200 <= status && status <= 299
}

/// The error of Amap that did not answer.
pub fn amap_request_failed(kind: &str) -> (r: String)
    ensures
        r@ == "amap reverse geocoding request failed ("@ + kind@ + ")"@,
{
    let mut r = "amap reverse geocoding request failed (".to_owned();
    r.append(kind);
    r.append(")");
    r
}

/// The error of Amap that answered with another status than a success.
pub fn amap_status_failed(status: &str) -> (r: String)
    ensures
        r@ == "amap reverse geocoding service returned an error ("@ + status@ + ")"@,
{
    let mut r = "amap reverse geocoding service returned an error (".to_owned();
    r.append(status);
    r.append(")");
    r
}

// ---------------------------------------------------------------------------
// Asking for a place
// ---------------------------------------------------------------------------
#[derive(Debug, Clone, Copy)]
pub struct ReverseGeocodeQuery<N> {
    pub latitude: N,
    pub longitude: N,
}

/// The coordinates that are asked for. `query` is `None` where the query could not be read.
pub fn parse_reverse_geocode_query<N>(query: Option<ReverseGeocodeQuery<N>>) -> (r: Result<
    ReverseGeocodeQuery<N>,
    ApiResponse<ReverseGeocodeResult>,
>)
    ensures
        match query {
            Some(query) => r matches Ok(kept) && kept == query,
            None => r matches Err(response) && response.is_error("坐标参数无效"@),
        },
{
    match query {
        Some(query) => Ok(query),
        None => Err(ApiResponse::error("坐标参数无效")),
    }
}

/// The coordinates that are asked for, or the answer to a request without any on earth.
pub fn open_reverse_geocode<N>(query: Option<ReverseGeocodeQuery<N>>, on_earth: bool) -> (r: Result<
    ReverseGeocodeQuery<N>,
    Reply<ReverseGeocodeResult>,
>)
    ensures
        match query {
            None => r matches Err(reply) && reply.is_error(
                Status::BadRequest,
                "坐标参数无效"@,
            ),
            Some(query) => if on_earth {
                r matches Ok(kept) && kept == query
            } else {
                r matches Err(reply) && reply.is_error(Status::BadRequest, "坐标无效"@)
            },
        },
{
    match parse_reverse_geocode_query(query) {
        Ok(query) => if on_earth {
            Ok(query)
        } else {
            Err(Reply::error(Status::BadRequest, "坐标无效"))
        },
        Err(body) => Err(Reply { status: Status::BadRequest, body }),
    }
}

/// The answer to a request for a place; `None` where it was not found.
pub fn reverse_geocode_reply(place: Option<ReverseGeocodeResult>) -> (r: Reply<
    ReverseGeocodeResult,
>)
    ensures
        match place {
            Some(place) => r.is_success(
                Status::Succeeded,
                "区域信息解析成功"@,
                Some(place),
            ),
            None => r.is_error(
                Status::ServiceUnavailable,
                "区域信息暂时无法自动解析，请手动填写"@,
            ),
        },
{
    match place {
        Some(place) => Reply::success(
            Status::Succeeded,
            "区域信息解析成功",
            Some(place),
        ),
        None => Reply::error(
            Status::ServiceUnavailable,
            "区域信息暂时无法自动解析，请手动填写",
        ),
    }
}

// ---------------------------------------------------------------------------
// What the answers of the providers mean
// ---------------------------------------------------------------------------
/// Whether a name is missing or has nothing but white space.
pub open spec fn is_blank_name(name: Option<String>) -> bool {
    name matches Some(s) ==> text::trimmed(s@).len() == 0
}

/// The first of some names that is not blank counts, trimmed; where all are, there is no name.
pub proof fn law_first_name_counts<const K: usize>(
    values: [Option<String>; K],
    r: String,
    k: int,
)
    requires
        call_ensures(first_non_empty::<K>, (values,), r),
        0 <= k <= K,
        values@.len() == K,
        forall|i: int| 0 <= i < k ==> is_blank_name(#[trigger] values@[i]),
        k < K ==> !is_blank_name(values@[k]),
    ensures
        k < K ==> r@ == text::trimmed(values@[k]->0@),
        k == K ==> r@.len() == 0,
{
    lemma_first_name(values@, k);
}

proof fn lemma_first_name(values: Seq<Option<String>>, k: int)
    requires
        0 <= k <= values.len(),
        forall|i: int| 0 <= i < k ==> is_blank_name(#[trigger] values[i]),
        k < values.len() ==> !is_blank_name(values[k]),
    ensures
        k < values.len() ==> first_given(values) == text::trimmed(values[k]->0@),
        k == values.len() ==> first_given(values).len() == 0,
    decreases values.len(),
{
    if k > 0 {
        let rest = values.drop_first();
        assert(is_blank_name(values[0]));
        assert forall|i: int| 0 <= i < k - 1 implies is_blank_name(#[trigger] rest[i]) by {
            assert(rest[i] == values[i + 1]);
        }
        lemma_first_name(rest, k - 1);
    }
}

/// The province of a place is the first of state, province and region that Nominatim gives,
/// whatever else it gives.
pub proof fn law_nominatim_province(
    address: NominatimAddress,
    display_name: Option<&str>,
    r: ReverseGeocodeResult,
)
    requires
        call_ensures(NominatimAddress::into_result, (address, display_name), r),
    ensures
        !is_blank_name(address.state) ==> r.province@ == text::trimmed(address.state->0@),
        is_blank_name(address.state) && !is_blank_name(address.province) ==> r.province@
            == text::trimmed(address.province->0@),
        is_blank_name(address.state) && is_blank_name(address.province) && !is_blank_name(
            address.region,
        ) ==> r.province@ == text::trimmed(address.region->0@),
        is_blank_name(address.state) && is_blank_name(address.province) && is_blank_name(
            address.region,
        ) ==> r.province@.len() == 0,
{
    let names = seq![address.state, address.province, address.region];
    lemma_first_of_names(names);
    assert(r@.province == r.province@);
    assert(r@.province == first_given(names));
}

/// Where a name is given, all before it are blank and it counts.
proof fn lemma_first_of_names(names: Seq<Option<String>>)
    ensures
        forall|k: int|
            0 <= k < names.len() && (forall|i: int| 0 <= i < k ==> is_blank_name(#[trigger] names[i]))
                && !is_blank_name(#[trigger] names[k]) ==> first_given(names) == text::trimmed(
                names[k]->0@,
            ),
        (forall|i: int| 0 <= i < names.len() ==> is_blank_name(#[trigger] names[i]))
            ==> first_given(names).len() == 0,
{
    assert forall|k: int|
        0 <= k < names.len() && (forall|i: int| 0 <= i < k ==> is_blank_name(#[trigger] names[i]))
            && !is_blank_name(#[trigger] names[k]) implies first_given(names) == text::trimmed(
        names[k]->0@,
    ) by {
        lemma_first_name(names, k);
    }
    if forall|i: int| 0 <= i < names.len() ==> is_blank_name(#[trigger] names[i]) {
        lemma_first_name(names, names.len() as int);
    }
}

/// The city of a place is the first of city, town and municipality that Nominatim gives, unless
/// that is the name of a district.
pub proof fn law_nominatim_city(
    address: NominatimAddress,
    display_name: Option<&str>,
    r: ReverseGeocodeResult,
)
    requires
        call_ensures(NominatimAddress::into_result, (address, display_name), r),
    ensures
        !is_blank_name(address.city) && !is_district_name(text::trimmed(address.city->0@))
            ==> r.city@ == text::trimmed(address.city->0@),
        is_blank_name(address.city) && !is_blank_name(address.town) && !is_district_name(
            text::trimmed(address.town->0@),
        ) ==> r.city@ == text::trimmed(address.town->0@),
        is_blank_name(address.city) && is_blank_name(address.town) && !is_blank_name(
            address.municipality,
        ) && !is_district_name(text::trimmed(address.municipality->0@)) ==> r.city@
            == text::trimmed(address.municipality->0@),
        is_blank_name(address.city) && is_blank_name(address.town) && is_blank_name(
            address.municipality,
        ) ==> r.city@.len() == 0,
{
    let names = seq![address.city, address.town, address.municipality];
    lemma_first_of_names(names);
    assert(r@.city == r.city@);
    let city = first_given(names);
    assert(!is_district_name(city) ==> r@.city == city);
    if !is_blank_name(address.city) {
        assert(city == text::trimmed(names[0]->0@));
    } else if !is_blank_name(address.town) {
        assert(city == text::trimmed(names[1]->0@));
    } else if !is_blank_name(address.municipality) {
        assert(city == text::trimmed(names[2]->0@));
    }
}

/// The district of a place is the first of city district, district, borough, suburb and county that
/// Nominatim gives, whatever the later ones say, wherever the city is not the name of a district.
pub proof fn law_nominatim_district(
    address: NominatimAddress,
    display_name: Option<&str>,
    r: ReverseGeocodeResult,
)
    requires
        call_ensures(NominatimAddress::into_result, (address, display_name), r),
        !is_blank_name(address.city),
        !is_district_name(text::trimmed(address.city->0@)),
    ensures
        !is_blank_name(address.city_district) ==> r.district@ == text::trimmed(
            address.city_district->0@,
        ),
        is_blank_name(address.city_district) && !is_blank_name(address.district) ==> r.district@
            == text::trimmed(address.district->0@),
        is_blank_name(address.city_district) && is_blank_name(address.district) && !is_blank_name(
            address.borough,
        ) ==> r.district@ == text::trimmed(address.borough->0@),
        is_blank_name(address.city_district) && is_blank_name(address.district) && is_blank_name(
            address.borough,
        ) && !is_blank_name(address.suburb) ==> r.district@ == text::trimmed(address.suburb->0@),
        is_blank_name(address.city_district) && is_blank_name(address.district) && is_blank_name(
            address.borough,
        ) && is_blank_name(address.suburb) && !is_blank_name(address.county) ==> r.district@
            == text::trimmed(address.county->0@),
        is_blank_name(address.city_district) && is_blank_name(address.district) && is_blank_name(
            address.borough,
        ) && is_blank_name(address.suburb) && is_blank_name(address.county) ==> r.district@.len()
            == 0,
{
    let cities = seq![address.city, address.town, address.municipality];
    lemma_first_of_names(cities);
    assert(first_given(cities) == text::trimmed(cities[0]->0@));
    lemma_district_names(address);
    assert(r@.district == r.district@);
}

proof fn lemma_district_names(address: NominatimAddress)
    ensures
        ({
            let d = first_given(
                seq![
                    address.city_district,
                    address.district,
                    address.borough,
                    address.suburb,
                    address.county,
                ],
            );
            if !is_blank_name(address.city_district) {
                d == text::trimmed(address.city_district->0@)
            } else if !is_blank_name(address.district) {
                d == text::trimmed(address.district->0@)
            } else if !is_blank_name(address.borough) {
                d == text::trimmed(address.borough->0@)
            } else if !is_blank_name(address.suburb) {
                d == text::trimmed(address.suburb->0@)
            } else if !is_blank_name(address.county) {
                d == text::trimmed(address.county->0@)
            } else {
                d.len() == 0
            }
        }),
{
    let names = seq![
        address.city_district,
        address.district,
        address.borough,
        address.suburb,
        address.county,
    ];
    lemma_first_of_names(names);
    if !is_blank_name(address.city_district) {
        assert(first_given(names) == text::trimmed(names[0]->0@));
    } else if !is_blank_name(address.district) {
        assert(first_given(names) == text::trimmed(names[1]->0@));
    } else if !is_blank_name(address.borough) {
        assert(first_given(names) == text::trimmed(names[2]->0@));
    } else if !is_blank_name(address.suburb) {
        assert(first_given(names) == text::trimmed(names[3]->0@));
    } else if !is_blank_name(address.county) {
        assert(first_given(names) == text::trimmed(names[4]->0@));
    }
}

/// Where Nominatim gives the name of a district as the city, that name is the district, unless
/// another district is given that is not merely a part of one; and the city is the prefecture that
/// the whole address names, if it names one.
pub proof fn law_district_given_as_city(
    address: NominatimAddress,
    display_name: Option<&str>,
    r: ReverseGeocodeResult,
    prefecture: Option<String>,
)
    requires
        call_ensures(NominatimAddress::into_result, (address, display_name), r),
        call_ensures(chinese_prefecture_from_display_name, (display_name,), prefecture),
        !is_blank_name(address.city),
        is_district_name(text::trimmed(address.city->0@)),
    ensures
        prefecture matches Some(name) ==> r.city@ == name@,
        prefecture is None ==> r.city@ == text::trimmed(address.city->0@),
        is_blank_name(address.city_district) && is_blank_name(address.district) && is_blank_name(
            address.borough,
        ) && is_blank_name(address.suburb) && is_blank_name(address.county) ==> r.district@
            == text::trimmed(address.city->0@),
        !is_blank_name(address.city_district) ==> r.district@ == (if is_subdistrict_name(
            text::trimmed(address.city_district->0@),
        ) {
            text::trimmed(address.city->0@)
        } else {
            text::trimmed(address.city_district->0@)
        }),
{
    let cities = seq![address.city, address.town, address.municipality];
    lemma_first_of_names(cities);
    assert(first_given(cities) == text::trimmed(cities[0]->0@));
    lemma_district_names(address);
    assert(r@.district == r.district@);
    assert(r@.city == r.city@);
    if !is_blank_name(address.city_district) {
        assert(text::trimmed(address.city_district->0@).len() > 0);
    }
}

/// Names that end so are those of districts, and those of parts of districts.
pub proof fn law_names_of_districts(value: &str, district: bool, subdistrict: bool)
    requires
        call_ensures(looks_like_chinese_district, (value,), district),
        call_ensures(looks_like_chinese_subdistrict, (value,), subdistrict),
    ensures
        district <==> value@.len() > 0 && (value@.last() == '区' || value@.last() == '县'
            || value@.last() == '旗'),
        subdistrict <==> value@.len() > 0 && (value@.last() == '镇' || value@.last() == '乡' || (
        value@.len() >= 2 && value@.last() == '道' && value@[value@.len() - 2] == '街')),
{
    reveal_strlit("街道");
    let n = value@.len();
    if n >= 2 {
        let end = value@.subrange(n - 2, n as int);
        assert(end[0] == value@[n - 2] && end[1] == value@[n - 1]);
        if value@.last() == '道' && value@[n - 2] == '街' {
            assert(end =~= "街道"@);
        }
        if end == "街道"@ {
            assert(end[0] == '街' && end[1] == '道');
        }
    }
}

/// Whether a part of an address reaches from one comma, or the beginning, to the next, or the end.
pub open spec fn is_address_part(name: Seq<char>, i: int, j: int) -> bool {
    &&& 0 <= i <= j <= name.len()
    &&& i > 0 ==> name[i - 1] == ',' || name[i - 1] == '，'
    &&& j < name.len() ==> name[j] == ',' || name[j] == '，'
    &&& forall|k: int| i <= k < j ==> name[k] != ',' && name[k] != '，'
}

/// Whether a part of an address, trimmed, is the name of a prefecture: it ends with `市` and has
/// something before it.
pub open spec fn names_prefecture(name: Seq<char>, i: int, j: int) -> bool {
    let part = text::trimmed(name.subrange(i, j));
    part.len() >= 2 && part.last() == '市'
}

/// The prefecture of an address is the first part between its commas that is the name of one,
/// and there is none only where no part is.
pub proof fn law_prefecture_is_a_part_of_the_address(
    name: &str,
    r: Option<String>,
    none: Option<String>,
)
    requires
        call_ensures(chinese_prefecture_from_display_name, (Some(name),), r),
        call_ensures(chinese_prefecture_from_display_name, (None,), none),
    ensures
        none is None,
        r matches Some(prefecture) ==> exists|i: int, j: int| #[trigger]
            is_address_part(name@, i, j) && names_prefecture(name@, i, j) && prefecture@
                == text::trimmed(name@.subrange(i, j)) && forall|a: int, b: int| #[trigger]
                is_address_part(name@, a, b) && a < i ==> !names_prefecture(name@, a, b),
        r is None ==> forall|i: int, j: int| #[trigger]
            is_address_part(name@, i, j) ==> !names_prefecture(name@, i, j),
{
    lemma_prefecture(name@, 0);
    assert(name@.skip(0) =~= name@);
}

proof fn lemma_part_len_of(s: Seq<char>)
    ensures
        part_len(s) <= s.len(),
        forall|k: int| 0 <= k < part_len(s) ==> !is_comma(#[trigger] s[k]),
        part_len(s) < s.len() ==> is_comma(s[part_len(s) as int]),
    decreases s.len(),
{
    if s.len() > 0 && !is_comma(s[0]) {
        let rest = s.drop_first();
        lemma_part_len_of(rest);
        assert forall|k: int| 0 <= k < part_len(s) implies !is_comma(#[trigger] s[k]) by {
            if k > 0 {
                assert(rest[k - 1] == s[k]);
            }
        }
        if part_len(s) < s.len() {
            assert(rest[part_len(rest) as int] == s[part_len(s) as int]);
        }
    }
}

/// The first prefecture of the parts from a place on, which is the beginning or behind a comma.
proof fn lemma_prefecture(name: Seq<char>, from: int)
    requires
        0 <= from <= name.len(),
        from > 0 ==> is_comma(name[from - 1]),
    ensures
        match first_prefecture(address_parts(name.skip(from))) {
            Some(prefecture) => exists|i: int, j: int| #[trigger]
                is_address_part(name, i, j) && from <= i && names_prefecture(name, i, j)
                    && prefecture == text::trimmed(name.subrange(i, j)) && forall|a: int, b: int|
                 #[trigger]
                    is_address_part(name, a, b) && from <= a < i ==> !names_prefecture(name, a, b),
            None => forall|i: int, j: int| #[trigger]
                is_address_part(name, i, j) && from <= i ==> !names_prefecture(name, i, j),
        },
    decreases name.len() - from,
{
    let rest = name.skip(from);
    let n = part_len(rest) as int;
    lemma_part_len_of(rest);
    let to = from + n;
    assert forall|k: int| from <= k < to implies !is_comma(#[trigger] name[k]) by {
        assert(rest[k - from] == name[k]);
    }
    if n < rest.len() {
        assert(name[to] == rest[n]);
    }
    assert(is_address_part(name, from, to));
    assert(rest.take(n) =~= name.subrange(from, to));
    let parts = address_parts(rest);
    assert(parts[0] == text::trimmed(name.subrange(from, to))) by {
        if n >= rest.len() {
            assert(rest.take(n) =~= rest);
        }
    }
    assert forall|i: int, j: int| #[trigger]
        is_address_part(name, i, j) && from <= i implies (i == from && j == to) || i > to by {
        if i == from {
            if j < to {
                assert(!is_comma(name[j]));
            } else if j > to {
                assert(is_comma(name[to]));
            }
        } else if i <= to {
            assert(!is_comma(name[i - 1]));
        }
    }
    if n < rest.len() {
        lemma_prefecture(name, to + 1);
        assert(parts.drop_first() =~= address_parts(rest.skip(n + 1)));
        assert(rest.skip(n + 1) =~= name.skip(to + 1));
        if !is_prefecture_name(parts[0]) {
            if let Some(prefecture) = first_prefecture(parts.drop_first()) {
                let (i, j) = choose|i: int, j: int| #[trigger]
                    is_address_part(name, i, j) && to + 1 <= i && names_prefecture(name, i, j)
                        && prefecture == text::trimmed(name.subrange(i, j)) && forall|
                        a: int,
                        b: int,
                    | #[trigger]
                        is_address_part(name, a, b) && to + 1 <= a < i ==> !names_prefecture(
                            name,
                            a,
                            b,
                        );
                assert(is_address_part(name, i, j));
            }
        }
    } else {
        assert(parts.drop_first() =~= Seq::empty());
    }
}

/// An answer of Nominatim is its address, read with the name that it is displayed under; one that
/// names an error is no place.
pub proof fn law_nominatim_answers(
    response: NominatimResponse,
    r: Result<ReverseGeocodeResult, &'static str>,
    plain: ReverseGeocodeResult,
    display_name: Option<&str>,
    of_address: ReverseGeocodeResult,
)
    requires
        call_ensures(NominatimResponse::into_place, (response,), r),
        call_ensures(NominatimResponse::into_result, (response,), plain),
        call_ensures(NominatimAddress::into_result, (response.address, display_name), of_address),
        display_name is Some <==> response.display_name is Some,
        display_name matches Some(name) ==> name@ == response.display_name->0@,
    ensures
        r is Err <==> response.error is Some && response.error->0@.len() > 0,
        r matches Ok(place) ==> place@ == of_address@,
        plain@ == of_address@,
        of_address@.province == of_address.province@ && of_address@.city == of_address.city@
            && of_address@.district == of_address.district@,
{
    assert(text::optional_str(display_name) == text::optional_text(response.display_name));
}

/// A place that Amap names has the trimmed names of the address component, each in its field, and
/// the province in the place of a city that is missing.
pub proof fn law_amap_place_is_the_component(
    response: AmapResponse,
    component: AmapAddressComponent,
    r: Result<ReverseGeocodeResult, String>,
)
    requires
        call_ensures(AmapResponse::into_result, (response,), r),
        response.regeocode == Some(AmapRegeocode { address_component: Some(component) }),
    ensures
        r is Ok <==> response.status@ == "1"@ && (text::trimmed(component.province@).len() > 0
            || text::trimmed(component.city@).len() > 0 || text::trimmed(component.district@).len()
            > 0),
        r matches Ok(place) ==> {
            &&& place.province@ == text::trimmed(component.province@)
            &&& place.district@ == text::trimmed(component.district@)
            &&& text::trimmed(component.city@).len() > 0 ==> place.city@ == text::trimmed(
                component.city@,
            )
            &&& text::trimmed(component.city@).len() == 0 ==> place.city@ == text::trimmed(
                component.province@,
            )
        },
{
    if let Ok(place) = r {
        assert(place@.province == place.province@ && place@.city == place.city@ && place@.district
            == place.district@);
    }
}

/// An answer of Amap with another status than `1`, or without an address, is no place.
pub proof fn law_amap_refusals(response: AmapResponse, r: Result<ReverseGeocodeResult, String>)
    requires
        call_ensures(AmapResponse::into_result, (response,), r),
        response.status@ != "1"@ || response.regeocode is None
            || response.regeocode->0.address_component is None,
    ensures
        r is Err,
        response.status@ != "1"@ ==> r->Err_0@
            == "amap reverse geocoding rejected the coordinates (status="@ + response.status@
            + " info="@ + response.info@ + " infocode="@ + response.infocode@ + ")"@,
{
    text::lemma_trimmed_ends(Seq::empty());
    if let Ok(place) = r {
        lemma_nothing_trimmed();
        assert(place@.province.len() == 0);
    }
}

proof fn lemma_nothing_trimmed()
    ensures
        text::trimmed(Seq::empty()).len() == 0,
{
    text::lemma_trimmed_fixed(Seq::empty());
}

/// Texts and numbers of Amap stand for themselves, a missing value or an empty list for nothing,
/// and nothing else for a text.
pub proof fn law_amap_values(value: AmapValue, r: Result<String, String>)
    requires
        call_ensures(amap_text, (value,), r),
    ensures
        value matches AmapValue::Text(s) ==> (r matches Ok(t) && t@ == s@),
        value matches AmapValue::Number(s) ==> (r matches Ok(t) && t@ == s@),
        value is Missing || value is EmptyList ==> (r matches Ok(t) && t@.len() == 0),
        r is Err <==> value is Other,
{
}

/// The providers are asked where the settings say: Nominatim under its own URL, and Amap under its
/// own, with the trimmed key, exactly where a key is given that is not blank.
pub proof fn law_settings_name_the_providers<'a>(
    enabled: bool,
    nominatim_url: &str,
    amap_url: &str,
    amap_key: Option<&'a str>,
    r: Result<GeocoderPlan<'a>, &'static str>,
)
    requires
        call_ensures(
            GeocoderPlan::from_settings,
            (enabled, nominatim_url, amap_url, amap_key),
            r,
        ),
    ensures
        !enabled ==> r == Ok::<GeocoderPlan<'a>, &'static str>(GeocoderPlan::Disabled),
        enabled ==> !(r matches Ok(GeocoderPlan::Disabled)),
        r matches Ok(GeocoderPlan::Enabled { nominatim_endpoint, amap }) ==> {
            &&& urls::url_text(nominatim_url@) == Some(nominatim_endpoint@)
            &&& amap is Some <==> amap_key is Some && text::trimmed(amap_key->0@).len() > 0
            &&& amap matches Some(amap) ==> urls::url_text(amap_url@) == Some(amap.endpoint@)
                && amap.key@ == text::trimmed(amap_key->0@)
        },
        r is Err <==> enabled && (!urls::is_url(nominatim_url@) || (amap_key is Some
            && text::trimmed(amap_key->0@).len() > 0 && !urls::is_url(amap_url@))),
{
}

/// Amap is asked with its key as the key and the location as the location.
pub proof fn law_amap_is_asked_for_the_location(
    endpoint: &str,
    key: &str,
    location: &str,
    r: Result<String, RequestUrlFault>,
)
    requires
        call_ensures(amap_request_url, (endpoint, key, location), r),
        urls::is_web_address(endpoint@),
        r is Ok,
    ensures
        ({
            let old_pairs = urls::url_pairs(endpoint@)->0;
            let new_pairs = urls::url_pairs(r->Ok_0@)->0;
            &&& urls::url_pairs(r->Ok_0@) is Some
            &&& new_pairs.len() == old_pairs.len() + 4
            &&& forall|i: int| 0 <= i < old_pairs.len() ==> #[trigger] new_pairs[i] == old_pairs[i]
            &&& new_pairs.contains(("key"@, key@))
            &&& new_pairs.contains(("location"@, location@))
            &&& new_pairs.contains(("extensions"@, "base"@))
            &&& new_pairs.contains(("output"@, "json"@))
        }),
        urls::url_start(r->Ok_0@) == urls::url_start(endpoint@),
        urls::url_path(r->Ok_0@) == Some(urls::url_path(endpoint@)->0),
{
    let n = urls::url_pairs(endpoint@)->0.len() as int;
    let new_pairs = urls::url_pairs(r->Ok_0@)->0;
    assert(new_pairs[n] == ("key"@, key@));
    assert(new_pairs[n + 1] == ("location"@, location@));
    assert(new_pairs[n + 2] == ("extensions"@, "base"@));
    assert(new_pairs[n + 3] == ("output"@, "json"@));
}

/// Nominatim is asked with the latitude as the latitude and the longitude as the longitude.
pub proof fn law_nominatim_is_asked_for_the_coordinates(
    endpoint: &str,
    latitude: &str,
    longitude: &str,
    r: Result<String, RequestUrlFault>,
)
    requires
        call_ensures(nominatim_request_url, (endpoint, latitude, longitude), r),
        urls::is_web_address(endpoint@),
        r is Ok,
    ensures
        ({
            let old_pairs = urls::url_pairs(endpoint@)->0;
            let new_pairs = urls::url_pairs(r->Ok_0@)->0;
            &&& urls::url_pairs(r->Ok_0@) is Some
            &&& new_pairs.len() == old_pairs.len() + 6
            &&& forall|i: int| 0 <= i < old_pairs.len() ==> #[trigger] new_pairs[i] == old_pairs[i]
            &&& new_pairs.contains(("lat"@, latitude@))
            &&& new_pairs.contains(("lon"@, longitude@))
            &&& new_pairs.contains(("format"@, "jsonv2"@))
            &&& new_pairs.contains(("addressdetails"@, "1"@))
            &&& new_pairs.contains(("accept-language"@, "zh-CN,zh,en"@))
            &&& new_pairs.contains(("zoom"@, "14"@))
        }),
        urls::url_start(r->Ok_0@) == urls::url_start(endpoint@),
        urls::url_path(r->Ok_0@) == Some(urls::url_path(endpoint@)->0),
{
    let n = urls::url_pairs(endpoint@)->0.len() as int;
    let new_pairs = urls::url_pairs(r->Ok_0@)->0;
    assert(new_pairs[n] == ("format"@, "jsonv2"@));
    assert(new_pairs[n + 1] == ("addressdetails"@, "1"@));
    assert(new_pairs[n + 2] == ("accept-language"@, "zh-CN,zh,en"@));
    assert(new_pairs[n + 3] == ("zoom"@, "14"@));
    assert(new_pairs[n + 4] == ("lat"@, latitude@));
    assert(new_pairs[n + 5] == ("lon"@, longitude@));
}

/// What is kept for a place is found for it, and unchanged, for a day and no longer.
pub proof fn law_result_is_kept_for_a_day(
    before: GeocoderCache,
    key: CoordinateKey,
    value: ReverseGeocodeResult,
    stored_at_ns: u64,
    after: GeocoderCache,
    now_ns: u64,
    r: Option<ReverseGeocodeResult>,
)
    requires
        keys_are_distinct(before@),
        before@.len() <= 1_024,
        call_ensures(GeocoderCache::cache, (before, key, value, stored_at_ns), after),
        call_ensures(GeocoderCache::cached, (&after, key, now_ns), r),
    ensures
        now_ns <= stored_at_ns + 86_400_000_000_000 ==> r == Some(value),
        now_ns > stored_at_ns + 86_400_000_000_000 ==> r is None,
        after@.len() <= 1_024,
        keys_are_distinct(after@),
{
    law_cached_result_is_read_back(before@, key, value, stored_at_ns, now_ns);
    law_cache_is_bounded(before@, EntryModel { key, value, stored_at_ns });
}

/// Keeping a result leaves what is found for other places, while there is room.
pub proof fn law_other_places_are_found_as_before(
    before: GeocoderCache,
    key: CoordinateKey,
    value: ReverseGeocodeResult,
    stored_at_ns: u64,
    after: GeocoderCache,
    other: CoordinateKey,
    now_ns: u64,
    found_before: Option<ReverseGeocodeResult>,
    found_after: Option<ReverseGeocodeResult>,
)
    requires
        keys_are_distinct(before@),
        before@.len() < 1_024,
        other.latitude != key.latitude || other.longitude != key.longitude,
        call_ensures(GeocoderCache::cache, (before, key, value, stored_at_ns), after),
        call_ensures(GeocoderCache::cached, (&before, other, now_ns), found_before),
        call_ensures(GeocoderCache::cached, (&after, other, now_ns), found_after),
    ensures
        found_after == found_before,
{
    lemma_without(before@, key);
    law_other_results_are_kept(before@, EntryModel { key, value, stored_at_ns }, other);
}

/// A new cache knows no place.
pub proof fn law_new_cache_knows_nothing(
    cache: GeocoderCache,
    key: CoordinateKey,
    now_ns: u64,
    r: Option<ReverseGeocodeResult>,
    n: usize,
)
    requires
        call_ensures(GeocoderCache::new, (), cache),
        call_ensures(GeocoderCache::cached, (&cache, key, now_ns), r),
        call_ensures(GeocoderCache::len, (&cache,), n),
    ensures
        r is None,
        n == 0,
{
}

/// A request to Nominatim passes exactly where none did in the last second, and a request that has
/// to wait is told how long that still is. Only one that passes counts as the last.
pub proof fn law_one_request_a_second(
    pace: RequestPace,
    now_ns: u64,
    r: (RequestPace, Option<u64>),
)
    requires
        call_ensures(RequestPace::acquire, (pace, now_ns), r),
    ensures
        pace.last_request_ns is None ==> r.1 is None,
        pace.last_request_ns matches Some(last) ==> (r.1 is None <==> now_ns >= last
            + 1_000_000_000),
        pace.last_request_ns matches Some(last) ==> (now_ns >= last ==> (r.1 matches Some(wait)
            ==> now_ns + wait == last + 1_000_000_000)),
        r.1 is None ==> r.0.last_request_ns == Some(now_ns),
        r.1 is Some ==> r.0.last_request_ns == pace.last_request_ns,
        r.1 matches Some(wait) ==> 0 < wait <= 1_000_000_000,
{
}

/// The first request to Nominatim passes at once, and the next one not before a second later.
pub proof fn law_second_request_waits(
    pace: RequestPace,
    first_ns: u64,
    first: (RequestPace, Option<u64>),
    second_ns: u64,
    second: (RequestPace, Option<u64>),
)
    requires
        call_ensures(RequestPace::new, (), pace),
        call_ensures(RequestPace::acquire, (pace, first_ns), first),
        call_ensures(RequestPace::acquire, (first.0, second_ns), second),
    ensures
        first.1 is None,
        second.1 is None <==> second_ns >= first_ns + 1_000_000_000,
{
}

/// A place that was found is answered from the cache for a day, without asking anyone; a place that
/// was not is kept by nobody.
pub proof fn law_found_place_is_known_afterwards(
    cache: GeocoderCache,
    key: CoordinateKey,
    step: &ResolveStep,
    found_at_ns: u64,
    kept: GeocoderCache,
    now_ns: u64,
    has_amap: bool,
    next: ResolveStep,
)
    requires
        keys_are_distinct(cache@),
        cache@.len() <= 1_024,
        call_ensures(keep_found, (cache, key, step, found_at_ns), kept),
        call_ensures(start_resolve, (true, Some(key), &kept, now_ns, has_amap), next),
    ensures
        *step matches ResolveStep::Found(place) ==> (now_ns <= found_at_ns + 86_400_000_000_000
            ==> next == ResolveStep::Known(place)),
        *step is Found && now_ns > found_at_ns + 86_400_000_000_000 ==> !(next is Known),
        !(*step is Found) ==> kept@ == cache@,
{
    if let ResolveStep::Found(place) = *step {
        law_cached_result_is_read_back(cache@, key, place, found_at_ns, now_ns);
    }
}

/// A place that is not known is asked of Amap where there is a key for it, and of Nominatim where
/// there is none or Amap does not find it. Nobody is asked while geocoding is disabled, or for
/// coordinates that are none.
pub proof fn law_who_is_asked(
    enabled: bool,
    key: Option<CoordinateKey>,
    cache: &GeocoderCache,
    now_ns: u64,
    has_amap: bool,
    r: ResolveStep,
)
    requires
        call_ensures(start_resolve, (enabled, key, cache, now_ns, has_amap), r),
    ensures
        r is AskAmap ==> has_amap,
        r is AskNominatim ==> !has_amap,
        r is AskAmap || r is AskNominatim ==> enabled && key is Some,
        r is Fail <==> !enabled || key is None,
        !(r is Found),
        enabled && key is Some && cache@.len() == 0 ==> (if has_amap {
            r is AskAmap
        } else {
            r is AskNominatim
        }),
{
}

/// What a provider finds is what is found: Nominatim is asked only where Amap fails, and where it
/// fails too, the place is not found.
pub proof fn law_answers_are_passed_on(
    of_amap: Option<ReverseGeocodeResult>,
    after_first: ResolveStep,
    of_nominatim: Result<ReverseGeocodeResult, &'static str>,
    after_second: ResolveStep,
)
    requires
        call_ensures(after_amap, (of_amap,), after_first),
        call_ensures(after_nominatim, (of_nominatim,), after_second),
    ensures
        of_amap matches Some(place) ==> after_first == ResolveStep::Found(place),
        of_amap is None <==> after_first is AskNominatim,
        of_nominatim matches Ok(place) ==> after_second == ResolveStep::Found(place),
        of_nominatim is Err <==> after_second is Fail,
{
}

/// The coordinates that are looked up are those that were asked for, and only those on earth are.
pub proof fn law_asked_coordinates_are_looked_up<N>(
    query: Option<ReverseGeocodeQuery<N>>,
    on_earth: bool,
    r: Result<ReverseGeocodeQuery<N>, Reply<ReverseGeocodeResult>>,
)
    requires
        call_ensures(open_reverse_geocode::<N>, (query, on_earth), r),
    ensures
        r is Ok <==> query is Some && on_earth,
        r matches Ok(kept) ==> kept.latitude == query->0.latitude && kept.longitude
            == query->0.longitude,
        r matches Err(reply) ==> reply.status == Status::BadRequest && !reply.body.success,
{
}

/// A place that was found is answered as it is, and one that was not as an unavailable service.
pub proof fn law_found_place_is_answered(
    place: Option<ReverseGeocodeResult>,
    r: Reply<ReverseGeocodeResult>,
)
    requires
        call_ensures(reverse_geocode_reply, (place,), r),
    ensures
        place matches Some(found) ==> (r.body.data matches Some(told) && told.province@
            == found.province@ && told.city@ == found.city@ && told.district@ == found.district@
            && r.body.success && r.status == Status::Succeeded),
        place is None ==> r.body.data is None && !r.body.success && r.status
            == Status::ServiceUnavailable,
{
}

/// The statuses of a success are those from 200 to 299.
pub proof fn law_statuses_of_success(status: u16, r: bool)
    requires
        call_ensures(is_success, (status,), r),
    ensures
        r <==> status / 100 == 2,
{
}

/// Coordinates that could be read are taken as they are, and the request is refused where none
/// could be.
pub proof fn law_coordinates_are_taken_as_they_are<N>(
    query: Option<ReverseGeocodeQuery<N>>,
    r: Result<ReverseGeocodeQuery<N>, ApiResponse<ReverseGeocodeResult>>,
)
    requires
        call_ensures(parse_reverse_geocode_query::<N>, (query,), r),
    ensures
        r is Ok <==> query is Some,
        r matches Ok(kept) ==> kept.latitude == query->0.latitude && kept.longitude
            == query->0.longitude,
        r matches Err(response) ==> !response.success && response.data is None,
{
}

/// The errors of Amap tell what was not answered from what was refused, and end in why.
pub proof fn law_errors_of_amap(kind: &str, unanswered: String, status: &str, refused: String)
    requires
        call_ensures(amap_request_failed, (kind,), unanswered),
        call_ensures(amap_status_failed, (status,), refused),
    ensures
        unanswered@ == "amap reverse geocoding request failed ("@ + (kind@ + ")"@),
        refused@ == "amap reverse geocoding service returned an error ("@ + (status@ + ")"@),
        unanswered@ != refused@,
{
    reveal_strlit("amap reverse geocoding request failed (");
    reveal_strlit("amap reverse geocoding service returned an error (");
    assert(unanswered@ =~= "amap reverse geocoding request failed ("@ + (kind@ + ")"@));
    assert(refused@ =~= "amap reverse geocoding service returned an error ("@ + (status@ + ")"@));
    assert(unanswered@[23] == 'r' && refused@[23] == 's');
}

/// What is said of a place that was found, of one that was not, and of coordinates that are none.
pub proof fn law_words_about_places<N>(
    place: Option<ReverseGeocodeResult>,
    r: Reply<ReverseGeocodeResult>,
    query: Option<ReverseGeocodeQuery<N>>,
    on_earth: bool,
    opened: Result<ReverseGeocodeQuery<N>, Reply<ReverseGeocodeResult>>,
)
    requires
        call_ensures(reverse_geocode_reply, (place,), r),
        call_ensures(open_reverse_geocode::<N>, (query, on_earth), opened),
    ensures
        place is Some ==> r.body.message@ == "区域信息解析成功"@,
        place is None ==> r.body.message@ == "区域信息暂时无法自动解析，请手动填写"@,
        query is None ==> (opened matches Err(reply) && reply.body.message@ == "坐标参数无效"@),
        query is Some && !on_earth ==> (opened matches Err(reply) && reply.body.message@
            == "坐标无效"@),
{
}

} // verus!
