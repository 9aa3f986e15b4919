use world_indicators::errors::ApiError;
use world_indicators::models::RawCountry;
use world_indicators::normalize::normalize_countries;
use world_indicators::upstream::{countries_from_reply, series_from_reply};

fn raw(
    id: Option<&str>,
    name: Option<&str>,
    region: Option<&str>,
    capital: Option<&str>,
) -> RawCountry {
    RawCountry {
        id: id.map(|s| s.to_string()),
        name: name.map(|s| s.to_string()),
        region: region.map(|s| s.to_string()),
        capital: capital.map(|s| s.to_string()),
    }
}

#[test]
fn empty_capital_is_excluded() {
    let raws = vec![
        raw(Some("WLD"), Some("World"), Some("Aggregates"), Some("")),
        raw(Some("USA"), Some("United States"), Some("North America"), Some("Washington D.C.")),
    ];
    let out = normalize_countries(&raws);
    assert_eq!(out.len(), 1);
    assert_eq!(out[0].id, "USA");
}

#[test]
fn missing_capital_is_excluded() {
    let raws = vec![raw(Some("EUU"), Some("European Union"), None, None)];
    let out = normalize_countries(&raws);
    assert!(out.is_empty());
}

#[test]
fn missing_id_or_name_is_excluded() {
    let raws = vec![
        raw(None, Some("Nowhere"), None, Some("X")),
        raw(Some("NWH"), None, None, Some("X")),
    ];
    let out = normalize_countries(&raws);
    assert!(out.is_empty());
}

#[test]
fn missing_region_defaults_to_unknown() {
    let raws = vec![raw(Some("ABW"), Some("Aruba"), None, Some("Oranjestad"))];
    let out = normalize_countries(&raws);
    assert_eq!(out.len(), 1);
    assert_eq!(out[0].region, "Unknown");
    assert_eq!(out[0].capital, "Oranjestad");
    assert_eq!(out[0].code, "ABW");
}

#[test]
fn upstream_order_is_preserved() {
    let raws = vec![
        raw(Some("BRA"), Some("Brazil"), Some("Latin America"), Some("Brasilia")),
        raw(Some("ARG"), Some("Argentina"), Some("Latin America"), Some("Buenos Aires")),
    ];
    let out = normalize_countries(&raws);
    assert_eq!(out.len(), 2);
    assert_eq!(out[0].id, "BRA");
    assert_eq!(out[1].id, "ARG");
}

#[test]
fn countries_reply_is_parsed_and_filtered() {
    let text = r#"[
        {"page":1,"pages":1,"per_page":500,"total":3},
        [
            {"id":"USA","name":"United States","region":{"id":"NAC","value":"North America"},"capitalCity":"Washington D.C."},
            {"id":"WLD","name":"World","region":{"id":"NA","value":"Aggregates"},"capitalCity":""},
            {"id":"DEU","name":"Germany","capitalCity":"Berlin"}
        ]
    ]"#;
    let out = countries_from_reply(text).unwrap();
    assert_eq!(out.len(), 2);
    assert_eq!(out[0].id, "USA");
    assert_eq!(out[0].region, "North America");
    assert_eq!(out[1].id, "DEU");
    assert_eq!(out[1].region, "Unknown");
}

#[test]
fn countries_reply_rejects_non_json() {
    let r = countries_from_reply("<html>gateway timeout</html>");
    assert!(matches!(r, Err(ApiError::ExternalApiError(_))));
}

#[test]
fn countries_reply_without_records_is_empty() {
    let out = countries_from_reply(r#"[{"message":"no data"}]"#).unwrap();
    assert!(out.is_empty());
}

#[test]
fn series_reply_is_sorted_and_filtered() {
    let text = r#"[
        {"page":1},
        [
            {"country":{"value":"United States"},"indicator":{"value":"Total population"},"date":"2021","value":331893745},
            {"country":{"value":"United States"},"indicator":{"value":"Total population"},"date":"2019","value":328329953},
            {"country":{"value":"United States"},"indicator":{"value":"Total population"},"date":"2020","value":null},
            {"country":{"value":"United States"},"indicator":{"value":"Total population"},"date":"2018","value":326838199}
        ]
    ]"#;
    let cd = series_from_reply("USA", "SP.POP.TOTL", text).unwrap();
    assert_eq!(cd.country_id, "USA");
    assert_eq!(cd.indicator_id, "SP.POP.TOTL");
    assert_eq!(cd.country_name, "United States");
    assert_eq!(cd.indicator_name, "Total population");
    let years: Vec<&str> = cd.data.iter().map(|p| p.year.as_str()).collect();
    assert_eq!(years, vec!["2018", "2019", "2021"]);
    assert_eq!(cd.data[0].value, "326838199");
    for p in &cd.data {
        assert_eq!(p.year.len(), 4);
        assert!(p.year.chars().all(|c| c.is_ascii_digit()));
    }
}

#[test]
fn series_reply_with_no_usable_points_is_no_data() {
    let text = r#"[
        {"page":1},
        [
            {"country":{"value":"United States"},"indicator":{"value":"X"},"date":"2020","value":null},
            {"country":{"value":"United States"},"indicator":{"value":"X"},"value":1.5}
        ]
    ]"#;
    let r = series_from_reply("USA", "BAD.INDICATOR", text);
    assert!(matches!(r, Err(ApiError::NoDataAvailable)));
}

#[test]
fn series_reply_with_empty_records_is_no_data() {
    let r = series_from_reply("USA", "SP.POP.TOTL", r#"[{"page":1},[]]"#);
    assert!(matches!(r, Err(ApiError::NoDataAvailable)));
}

#[test]
fn series_reply_rejects_non_json() {
    let r = series_from_reply("USA", "SP.POP.TOTL", "not json at all");
    assert!(matches!(r, Err(ApiError::ExternalApiError(_))));
}

#[test]
fn series_reply_missing_names_default_to_unknown() {
    let text = r#"[{"page":1},[{"date":"2000","value":7}]]"#;
    let cd = series_from_reply("USA", "SP.POP.TOTL", text).unwrap();
    assert_eq!(cd.country_name, "Unknown");
    assert_eq!(cd.indicator_name, "Unknown");
    assert_eq!(cd.data.len(), 1);
    assert_eq!(cd.data[0].year, "2000");
    assert_eq!(cd.data[0].value, "7");
}

#[test]
fn series_reply_decimal_values_keep_their_text() {
    let text = r#"[{"page":1},[{"date":"1999","value":12.75}]]"#;
    let cd = series_from_reply("DEU", "FP.CPI.TOTL.ZG", text).unwrap();
    assert_eq!(cd.data[0].value, "12.75");
}
