use world_indicators::compare::{build_comparison, record_success, select_countries, PairOutcome};
use world_indicators::models::{Country, DataPoint};

fn country(id: &str, name: &str) -> Country {
    Country {
        id: id.to_string(),
        name: name.to_string(),
        region: "Somewhere".to_string(),
        capital: "Capital".to_string(),
        code: id.to_string(),
    }
}

fn point(year: &str, value: &str) -> DataPoint {
    DataPoint { year: year.to_string(), value: value.to_string() }
}

fn catalog() -> Vec<Country> {
    vec![
        country("USA", "United States"),
        country("DEU", "Germany"),
        country("JPN", "Japan"),
    ]
}

fn success(cid: &str, iid: &str, points: Vec<DataPoint>) -> PairOutcome {
    PairOutcome {
        country_id: cid.to_string(),
        indicator_id: iid.to_string(),
        points: Some(points),
    }
}

fn failure(cid: &str, iid: &str) -> PairOutcome {
    PairOutcome {
        country_id: cid.to_string(),
        indicator_id: iid.to_string(),
        points: None,
    }
}

#[test]
fn select_keeps_request_order_and_drops_unknown() {
    let selected = select_countries(&catalog(), &vec!["JPN".to_string(), "XYZ".to_string(), "USA".to_string()]);
    let ids: Vec<&str> = selected.iter().map(|c| c.id.as_str()).collect();
    assert_eq!(ids, vec!["JPN", "USA"]);
    assert_eq!(selected[0].name, "Japan");
}

#[test]
fn compare_with_unknown_country_omits_it_silently() {
    let outcomes = vec![
        success("USA", "SP.POP.TOTL", vec![point("2020", "331000000")]),
        failure("XYZ", "SP.POP.TOTL"),
    ];
    let r = build_comparison(
        &catalog(),
        &vec!["USA".to_string(), "XYZ".to_string()],
        &outcomes,
    );
    assert_eq!(r.countries.len(), 1);
    assert_eq!(r.countries[0].id, "USA");
    assert_eq!(r.data.len(), 1);
    assert_eq!(r.data[0].country_id, "USA");
    assert_eq!(r.data[0].series.len(), 1);
    assert_eq!(r.data[0].series[0].indicator_id, "SP.POP.TOTL");
}

#[test]
fn compare_with_failing_indicator_creates_no_outer_key() {
    let outcomes = vec![failure("USA", "BAD.INDICATOR")];
    let r = build_comparison(&catalog(), &vec!["USA".to_string()], &outcomes);
    assert_eq!(r.countries.len(), 1);
    assert_eq!(r.countries[0].id, "USA");
    assert!(r.data.is_empty());
}

#[test]
fn full_success_yields_all_pairs() {
    let countries = ["USA", "DEU"];
    let indicators = ["SP.POP.TOTL", "NY.GDP.MKTP.CD"];
    let mut outcomes = Vec::new();
    for c in &countries {
        for i in &indicators {
            outcomes.push(success(c, i, vec![point("2020", "1")]));
        }
    }
    let r = build_comparison(
        &catalog(),
        &vec!["USA".to_string(), "DEU".to_string()],
        &outcomes,
    );
    assert_eq!(r.countries.len(), 2);
    assert_eq!(r.data.len(), 2);
    for entry in &r.data {
        assert_eq!(entry.series.len(), 2);
    }
    assert_eq!(r.data[0].country_id, "USA");
    assert_eq!(r.data[1].country_id, "DEU");
}

#[test]
fn repeated_pair_overwrites_points() {
    let mut data = Vec::new();
    record_success(
        &mut data,
        &"USA".to_string(),
        &"SP.POP.TOTL".to_string(),
        vec![point("2019", "1")],
    );
    record_success(
        &mut data,
        &"USA".to_string(),
        &"SP.POP.TOTL".to_string(),
        vec![point("2020", "2")],
    );
    assert_eq!(data.len(), 1);
    assert_eq!(data[0].series.len(), 1);
    assert_eq!(data[0].series[0].points.len(), 1);
    assert_eq!(data[0].series[0].points[0].year, "2020");
}

#[test]
fn entries_appear_in_first_success_order() {
    let mut data = Vec::new();
    record_success(&mut data, &"DEU".to_string(), &"A".to_string(), vec![point("2020", "1")]);
    record_success(&mut data, &"USA".to_string(), &"A".to_string(), vec![point("2020", "2")]);
    record_success(&mut data, &"DEU".to_string(), &"B".to_string(), vec![point("2020", "3")]);
    assert_eq!(data.len(), 2);
    assert_eq!(data[0].country_id, "DEU");
    assert_eq!(data[0].series.len(), 2);
    assert_eq!(data[1].country_id, "USA");
    assert_eq!(data[1].series.len(), 1);
}
