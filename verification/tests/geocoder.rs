use disaster_alert::api::Status;
use disaster_alert::reverse_geocoder::{
    after_amap, after_nominatim, amap_request_failed, amap_request_url, amap_status_failed,
    amap_text, chinese_prefecture_from_display_name, first_non_empty, is_success, keep_found,
    looks_like_chinese_district, looks_like_chinese_subdistrict, nominatim_request_url,
    open_reverse_geocode, parse_reverse_geocode_query, reverse_geocode_reply, start_resolve,
    AmapAddressComponent, AmapRegeocode, AmapResponse, AmapValue, CoordinateKey, GeocoderCache,
    GeocoderPlan, NominatimAddress, NominatimResponse, RequestPace, RequestUrlFault, ResolveStep,
    ReverseGeocodeQuery, ReverseGeocodeResult, CACHE_TTL_NS, MAX_CACHE_ENTRIES,
    MIN_REQUEST_INTERVAL_NS,
};
use disaster_alert::urls::fits_with_more_pairs;

fn text_of(value: Option<&serde_json::Value>) -> String {
    let value = match value {
        None | Some(serde_json::Value::Null) => AmapValue::Missing,
        Some(serde_json::Value::String(text)) => AmapValue::Text(text.clone()),
        Some(serde_json::Value::Number(number)) => AmapValue::Number(number.to_string()),
        Some(serde_json::Value::Array(items)) if items.is_empty() => AmapValue::EmptyList,
        Some(other) => AmapValue::Other(other.to_string()),
    };
    amap_text(value).unwrap()
}

#[test]
fn amap_rejection_includes_infocode() {
    let value: serde_json::Value = serde_json::from_str(
        r#"{"status":"0","info":"INVALID_USER_IP","infocode":"10005"}"#,
    )
    .unwrap();
    let parsed = AmapResponse {
        status: text_of(value.get("status")),
        info: text_of(value.get("info")),
        infocode: text_of(value.get("infocode")),
        regeocode: None,
    };
    let message = parsed.into_result().err().unwrap();
    assert!(message.contains("status=0"));
    assert!(message.contains("INVALID_USER_IP"));
    assert!(message.contains("10005"));
}

#[test]
fn disabled_geocoder_does_not_parse_its_endpoint() {
    let plan =
        GeocoderPlan::from_settings(false, "not a URL", "http://127.0.0.1:9/regeo", None).unwrap();
    assert!(matches!(plan, GeocoderPlan::Disabled));
}

#[test]
fn maps_nominatim_address_fallbacks() {
    let result = NominatimAddress {
        state: Some("四川省".to_string()),
        province: None,
        region: None,
        city: None,
        town: Some("成都市".to_string()),
        municipality: None,
        county: None,
        city_district: Some("武侯区".to_string()),
        district: None,
        borough: None,
        suburb: None,
    }
    .into_result(None);
    assert_eq!(result.province, "四川省");
    assert_eq!(result.city, "成都市");
    assert_eq!(result.district, "武侯区");
}

#[test]
fn county_is_a_district_fallback() {
    let result = NominatimAddress {
        city: Some("杭州市".to_string()),
        county: Some("余杭区".to_string()),
        ..NominatimAddress::default()
    }
    .into_result(None);
    assert_eq!(result.city, "杭州市");
    assert_eq!(result.district, "余杭区");
}

#[test]
fn chinese_district_in_city_uses_display_name_prefecture() {
    let result = NominatimAddress {
        state: Some("四川省".to_string()),
        city: Some("锦江区".to_string()),
        suburb: Some("沙河街道".to_string()),
        ..NominatimAddress::default()
    }
    .into_result(Some("静康社区, 沙河街道, 锦江区, 成都市, 四川省, 610066, 中国"));
    assert_eq!(result.province, "四川省");
    assert_eq!(result.city, "成都市");
    assert_eq!(result.district, "锦江区");
}

#[test]
fn districts_keep_their_names() {
    let result = NominatimResponse {
        address: NominatimAddress {
            city: Some(" 锦江区 ".to_string()),
            city_district: Some(" ".to_string()),
            district: Some("别的区".to_string()),
            ..NominatimAddress::default()
        },
        display_name: Some("市，成都市".to_string()),
        error: None,
    }
    .into_result();
    assert_eq!(result.city, "成都市");
    assert_eq!(result.district, "别的区");
    let unnamed = NominatimAddress {
        city: Some("某县".to_string()),
        ..NominatimAddress::default()
    }
    .into_result(Some("某县,"));
    assert_eq!(unnamed.city, "某县");
    assert_eq!(unnamed.district, "某县");
}

#[test]
fn names_are_told_by_their_endings() {
    assert!(looks_like_chinese_district("武侯区"));
    assert!(looks_like_chinese_district("高县"));
    assert!(looks_like_chinese_district("正蓝旗"));
    assert!(!looks_like_chinese_district("成都市"));
    assert!(!looks_like_chinese_district(""));
    assert!(looks_like_chinese_subdistrict("沙河街道"));
    assert!(looks_like_chinese_subdistrict("某镇"));
    assert!(looks_like_chinese_subdistrict("某乡"));
    assert!(!looks_like_chinese_subdistrict("道"));
    assert_eq!(
        chinese_prefecture_from_display_name(Some("a, 市 ， 乐山市 ,成都市")).as_deref(),
        Some("乐山市")
    );
    assert_eq!(chinese_prefecture_from_display_name(Some("")), None);
    assert_eq!(chinese_prefecture_from_display_name(None), None);
    assert_eq!(
        first_non_empty([None, Some(" ".to_string()), Some(" x ".to_string())]),
        "x"
    );
    assert_eq!(first_non_empty::<0>([]), "");
}

fn amap(province: &str, city: &str, district: &str) -> AmapResponse {
    AmapResponse {
        status: "1".to_string(),
        info: String::new(),
        infocode: String::new(),
        regeocode: Some(AmapRegeocode {
            address_component: Some(AmapAddressComponent {
                province: province.to_string(),
                city: city.to_string(),
                district: district.to_string(),
            }),
        }),
    }
}

#[test]
fn amap_empty_city_array_uses_province() {
    let city = amap_text(AmapValue::EmptyList).unwrap();
    let result = amap("北京市", &city, "朝阳区").into_result().unwrap();
    assert_eq!(result.province, "北京市");
    assert_eq!(result.city, "北京市");
    assert_eq!(result.district, "朝阳区");
}

#[test]
fn amap_without_an_address_is_an_error() {
    let message = amap(" ", "", "\t").into_result().err().unwrap();
    assert_eq!(message, "amap reverse geocoding returned an empty address");
    let bare = AmapResponse {
        status: "1".to_string(),
        info: String::new(),
        infocode: String::new(),
        regeocode: None,
    };
    assert!(bare.into_result().is_err());
    assert_eq!(amap_text(AmapValue::Missing), Ok(String::new()));
    assert_eq!(amap_text(AmapValue::Number("1".to_string())), Ok("1".to_string()));
    assert_eq!(
        amap_text(AmapValue::Other("{}".to_string())),
        Err("expected Amap string, number, or empty array, got {}".to_string())
    );
}

#[test]
fn plans_name_their_providers() {
    let plan = GeocoderPlan::from_settings(true, "http://H/reverse", "http://h/regeo", Some(" k "));
    match plan.unwrap() {
        GeocoderPlan::Enabled { nominatim_endpoint, amap: Some(amap) } => {
            assert_eq!(nominatim_endpoint, "http://h/reverse");
            assert_eq!(amap.endpoint, "http://h/regeo");
            assert_eq!(amap.key, "k");
        }
        other => panic!("{other:?}"),
    }
    let error = GeocoderPlan::from_settings(true, "no url", "http://h/", None).err();
    assert_eq!(error, Some("failed to parse reverse geocoding URL"));
    let error = GeocoderPlan::from_settings(true, "http://h/", "no url", Some("k")).err();
    assert_eq!(error, Some("failed to parse Amap reverse geocoding URL"));
}

#[test]
fn requests_carry_their_parameters() {
    assert_eq!(
        amap_request_url("http://h/regeo?a=1", "k&y", "104.111900,30.637600").as_deref(),
        Ok("http://h/regeo?a=1&key=k%26y&location=104.111900%2C30.637600&extensions=base&output=json")
    );
    assert_eq!(
        nominatim_request_url("http://h/reverse", "30.6", "104").as_deref(),
        Ok("http://h/reverse?format=jsonv2&addressdetails=1&accept-language=zh-CN%2Czh%2Cen&zoom=14&lat=30.6&lon=104")
    );
    assert_eq!(amap_request_url("no url", "k", "l"), Err(RequestUrlFault::NotAUrl));
    assert_eq!(nominatim_request_url("no url", "1", "2"), Err(RequestUrlFault::NotAUrl));
    let long = "1".repeat(2_000_000);
    assert_eq!(
        amap_request_url("http://h/", &long, "l"),
        Ok(format!("http://h/?key={long}&location=l&extensions=base&output=json"))
    );
    let pairs = vec![("key".to_string(), long)];
    assert!(fits_with_more_pairs("http://h/", &pairs));
}

fn key(latitude: i32) -> CoordinateKey {
    CoordinateKey { latitude, longitude: 0 }
}

fn place(city: &str) -> ReverseGeocodeResult {
    ReverseGeocodeResult {
        province: "p".to_string(),
        city: city.to_string(),
        district: "d".to_string(),
    }
}

fn city(cache: &GeocoderCache, latitude: i32, now_ns: u64) -> Option<String> {
    cache.cached(key(latitude), now_ns).map(|place| place.city)
}

#[test]
fn cached_places_are_read_back_until_they_expire() {
    let cache = GeocoderCache::new().cache(key(1), place("a"), 10);
    assert_eq!(city(&cache, 1, 10).as_deref(), Some("a"));
    assert_eq!(city(&cache, 1, 10 + CACHE_TTL_NS).as_deref(), Some("a"));
    assert_eq!(city(&cache, 1, 11 + CACHE_TTL_NS), None);
    assert_eq!(city(&cache, 1, 0).as_deref(), Some("a"));
    assert_eq!(city(&cache, 2, 10), None);
    let cache = cache.cache(key(1), place("b"), 20);
    assert_eq!(cache.len(), 1);
    assert_eq!(city(&cache, 1, 11 + CACHE_TTL_NS).as_deref(), Some("b"));
}

#[test]
fn the_oldest_place_is_forgotten() {
    let mut cache = GeocoderCache::new();
    for latitude in 0..MAX_CACHE_ENTRIES as i32 {
        cache = cache.cache(key(latitude), place("x"), 0);
    }
    cache = cache.cache(key(0), place("again"), 0);
    assert_eq!(cache.len(), MAX_CACHE_ENTRIES);
    cache = cache.cache(key(-1), place("new"), 0);
    assert_eq!(cache.len(), MAX_CACHE_ENTRIES);
    assert_eq!(city(&cache, 1, 0), None);
    assert_eq!(city(&cache, 0, 0).as_deref(), Some("again"));
    assert_eq!(city(&cache, 2, 0).as_deref(), Some("x"));
    assert_eq!(city(&cache, -1, 0).as_deref(), Some("new"));
}

#[test]
fn requests_keep_their_distance() {
    let (pace, wait) = RequestPace::new().acquire(5);
    assert_eq!(wait, None);
    let (pace, wait) = pace.acquire(6);
    assert_eq!(wait, Some(MIN_REQUEST_INTERVAL_NS - 1));
    let (pace, wait) = pace.acquire(6 + MIN_REQUEST_INTERVAL_NS - 1);
    assert_eq!(wait, None);
    assert_eq!(pace.last_request_ns, Some(5 + MIN_REQUEST_INTERVAL_NS));
    let (_, wait) = pace.acquire(0);
    assert_eq!(wait, Some(MIN_REQUEST_INTERVAL_NS));
}

#[test]
fn missing_amap_key_uses_only_nominatim() {
    let plan = GeocoderPlan::from_settings(
        true,
        "http://127.0.0.1:8080/reverse",
        "http://127.0.0.1:8080/regeo",
        None,
    )
    .unwrap();
    let has_amap = match plan {
        GeocoderPlan::Enabled { amap, .. } => amap.is_some(),
        GeocoderPlan::Disabled => panic!("geocoding is enabled"),
    };
    assert!(!has_amap);
    let asked = CoordinateKey { latitude: 303_000, longitude: 1_200_000 };
    let step = start_resolve(true, Some(asked), &GeocoderCache::new(), 0, has_amap);
    assert!(matches!(step, ResolveStep::AskNominatim));
    let answer = NominatimResponse {
        address: NominatimAddress {
            state: Some("浙江省".to_string()),
            city: Some("杭州市".to_string()),
            county: Some("余杭区".to_string()),
            ..NominatimAddress::default()
        },
        display_name: None,
        error: None,
    };
    match after_nominatim(answer.into_place()) {
        ResolveStep::Found(place) => assert_eq!(place.city, "杭州市"),
        other => panic!("{other:?}"),
    }
}

#[test]
fn blank_amap_key_is_no_key() {
    let plan = GeocoderPlan::from_settings(true, "http://h/reverse", "no url", Some(" ")).unwrap();
    assert!(matches!(plan, GeocoderPlan::Enabled { amap: None, .. }));
}

#[test]
fn amap_success_skips_nominatim() {
    let step = start_resolve(true, Some(key(1)), &GeocoderCache::new(), 0, true);
    assert!(matches!(step, ResolveStep::AskAmap));
    let answer = amap("四川省", "成都市", "锦江区").into_result().ok();
    match after_amap(answer) {
        ResolveStep::Found(place) => {
            assert_eq!(place.province, "四川省");
            assert_eq!(place.city, "成都市");
            assert_eq!(place.district, "锦江区");
        }
        other => panic!("{other:?}"),
    }
}

#[test]
fn amap_failure_falls_back_to_nominatim() {
    let refused = AmapResponse {
        status: "0".to_string(),
        info: "INVALID_USER_KEY".to_string(),
        infocode: String::new(),
        regeocode: None,
    };
    assert!(matches!(after_amap(refused.into_result().ok()), ResolveStep::AskNominatim));
    let answer = NominatimResponse {
        address: NominatimAddress {
            state: Some("四川省".to_string()),
            city: Some("锦江区".to_string()),
            suburb: Some("沙河街道".to_string()),
            ..NominatimAddress::default()
        },
        display_name: Some("静康社区, 沙河街道, 锦江区, 成都市, 四川省".to_string()),
        error: None,
    };
    match after_nominatim(answer.into_place()) {
        ResolveStep::Found(place) => {
            assert_eq!(place.province, "四川省");
            assert_eq!(place.city, "成都市");
            assert_eq!(place.district, "锦江区");
        }
        other => panic!("{other:?}"),
    }
}

#[test]
fn both_providers_failing_is_an_error() {
    let step = start_resolve(true, Some(key(306_376)), &GeocoderCache::new(), 0, true);
    assert!(matches!(step, ResolveStep::AskAmap));
    assert!(matches!(after_amap(None), ResolveStep::AskNominatim));
    let answer = NominatimResponse {
        address: NominatimAddress::default(),
        display_name: None,
        error: Some("unable to geocode".to_string()),
    };
    assert!(matches!(after_nominatim(answer.into_place()), ResolveStep::Fail(_)));
}

#[test]
fn names_of_places_are_trimmed() {
    let place = NominatimAddress {
        region: Some(" 四川省\n".to_string()),
        municipality: Some("\t锦江区 ".to_string()),
        ..NominatimAddress::default()
    }
    .into_result(Some("某地 ,  成都市 ,"));
    assert_eq!(place.province, "四川省");
    assert_eq!(place.city, "成都市");
    assert_eq!(place.district, "锦江区");
}

#[test]
fn provider_error_is_rejected_without_caching() {
    let answer = NominatimResponse {
        address: NominatimAddress::default(),
        display_name: None,
        error: Some("coordinates rejected".to_string()),
    };
    let step = after_nominatim(answer.into_place());
    match &step {
        ResolveStep::Fail(message) => {
            assert_eq!(*message, "reverse geocoding service rejected the coordinates");
        }
        other => panic!("{other:?}"),
    }
    let cache = keep_found(GeocoderCache::new(), key(1), &step, 0);
    assert_eq!(cache.len(), 0);
    let cache = keep_found(cache, key(1), &ResolveStep::Found(place("a")), 0);
    assert_eq!(city(&cache, 1, 0).as_deref(), Some("a"));
    let cache = keep_found(cache, key(1), &ResolveStep::Known(place("b")), 5);
    assert_eq!(city(&cache, 1, 0).as_deref(), Some("a"));
}

#[test]
fn places_that_are_known_or_impossible_are_not_asked_for() {
    let cache = GeocoderCache::new().cache(key(1), place("a"), 10);
    match start_resolve(true, Some(key(1)), &cache, 10, true) {
        ResolveStep::Known(place) => assert_eq!(place.city, "a"),
        other => panic!("{other:?}"),
    }
    match start_resolve(false, Some(key(1)), &cache, 10, true) {
        ResolveStep::Fail(message) => assert_eq!(message, "reverse geocoding is disabled"),
        other => panic!("{other:?}"),
    }
    match start_resolve(true, None, &cache, 10, true) {
        ResolveStep::Fail(message) => assert_eq!(message, "invalid coordinates"),
        other => panic!("{other:?}"),
    }
    let unnamed = NominatimResponse {
        address: NominatimAddress::default(),
        display_name: None,
        error: Some(String::new()),
    };
    assert!(unnamed.into_place().is_ok());
}

#[test]
fn errors_of_amap_say_what_failed() {
    assert_eq!(amap_request_failed("timeout"), "amap reverse geocoding request failed (timeout)");
    assert_eq!(
        amap_status_failed("500 Internal Server Error"),
        "amap reverse geocoding service returned an error (500 Internal Server Error)"
    );
    assert!(is_success(200) && is_success(299));
    assert!(!is_success(199) && !is_success(300));
}

#[test]
fn reverse_geocode_query_rejection_uses_the_api_envelope() {
    let uri = axum::http::Uri::from_static("/api/reverse-geocode?latitude=31.2");
    let axum::extract::Query(pairs) =
        axum::extract::Query::<std::collections::HashMap<String, f64>>::try_from_uri(&uri).unwrap();
    let query = match (pairs.get("latitude"), pairs.get("longitude")) {
        (Some(latitude), Some(longitude)) => {
            Some(ReverseGeocodeQuery { latitude: *latitude, longitude: *longitude })
        }
        _ => None,
    };
    let response = match parse_reverse_geocode_query(query) {
        Ok(_) => panic!("missing longitude should be rejected"),
        Err(response) => response,
    };
    assert!(!response.success);
    assert_eq!(response.message, "坐标参数无效");
    assert!(response.data.is_none());
}

#[test]
fn places_are_answered() {
    let query = || Some(ReverseGeocodeQuery { latitude: 91.0, longitude: 0.0 });
    let refused = open_reverse_geocode(query(), false).unwrap_err();
    assert_eq!(refused.status, Status::BadRequest);
    assert_eq!(refused.body.message, "坐标无效");
    assert!(open_reverse_geocode(query(), true).is_ok());
    assert_eq!(
        open_reverse_geocode::<f64>(None, true).unwrap_err().body.message,
        "坐标参数无效"
    );
    let found = reverse_geocode_reply(Some(place("a")));
    assert_eq!(found.status, Status::Succeeded);
    assert_eq!(found.body.message, "区域信息解析成功");
    assert_eq!(found.body.data.unwrap().city, "a");
    let failed = reverse_geocode_reply(None);
    assert_eq!(failed.status, Status::ServiceUnavailable);
    assert_eq!(failed.body.message, "区域信息暂时无法自动解析，请手动填写");
}
