use world_indicators::favorites::StorageManager;
use world_indicators::models::{Country, Favorite, Indicator};
use world_indicators::selection::{
    add_selected_country, filter_countries, remove_selected_country,
};

fn country(id: &str, name: &str) -> Country {
    Country {
        id: id.to_string(),
        name: name.to_string(),
        region: "Region".to_string(),
        capital: "Capital".to_string(),
        code: id.to_string(),
    }
}

fn favorite(id: &str) -> Favorite {
    Favorite {
        id: id.to_string(),
        countries: vec![country("USA", "United States")],
        indicator: Indicator {
            id: "SP.POP.TOTL".to_string(),
            name: "Total population".to_string(),
            category: "demographic".to_string(),
            unit: "people".to_string(),
        },
        timestamp: "2024-01-01T00:00:00Z".to_string(),
    }
}

#[test]
fn selection_caps_at_three() {
    let mut selected = Vec::new();
    for id in ["USA", "DEU", "JPN", "FRA"] {
        selected = add_selected_country(selected, country(id, id));
    }
    assert_eq!(selected.len(), 3);
    let ids: Vec<&str> = selected.iter().map(|c| c.id.as_str()).collect();
    assert_eq!(ids, vec!["USA", "DEU", "JPN"]);
}

#[test]
fn selection_rejects_duplicates() {
    let selected = add_selected_country(Vec::new(), country("USA", "United States"));
    let selected = add_selected_country(selected, country("USA", "United States again"));
    assert_eq!(selected.len(), 1);
    assert_eq!(selected[0].name, "United States");
}

#[test]
fn selection_removal_keeps_order() {
    let mut selected = Vec::new();
    for id in ["USA", "DEU", "JPN"] {
        selected = add_selected_country(selected, country(id, id));
    }
    let selected = remove_selected_country(selected, 1);
    let ids: Vec<&str> = selected.iter().map(|c| c.id.as_str()).collect();
    assert_eq!(ids, vec!["USA", "JPN"]);
}

#[test]
fn empty_search_keeps_all_countries() {
    let all = vec![country("USA", "United States"), country("DEU", "Germany")];
    let out = filter_countries(&all, "");
    assert_eq!(out.len(), 2);
}

#[test]
fn search_matches_name_case_insensitively() {
    let all = vec![country("USA", "United States"), country("DEU", "Germany")];
    let out = filter_countries(&all, "united");
    assert_eq!(out.len(), 1);
    assert_eq!(out[0].id, "USA");
}

#[test]
fn search_matches_code_case_insensitively() {
    let all = vec![country("USA", "United States"), country("DEU", "Germany")];
    let out = filter_countries(&all, "deu");
    assert_eq!(out.len(), 1);
    assert_eq!(out[0].id, "DEU");
}

#[test]
fn search_with_no_match_is_empty() {
    let all = vec![country("USA", "United States")];
    let out = filter_countries(&all, "zz");
    assert!(out.is_empty());
}

#[test]
fn favorites_add_is_most_recent_first() {
    let favorites = StorageManager::add_favorite(Vec::new(), favorite("a"));
    let favorites = StorageManager::add_favorite(favorites, favorite("b"));
    assert_eq!(favorites.len(), 2);
    assert_eq!(favorites[0].id, "b");
    assert_eq!(favorites[1].id, "a");
}

#[test]
fn favorites_are_capped_at_ten() {
    let mut favorites = Vec::new();
    for i in 0..12 {
        favorites = StorageManager::add_favorite(favorites, favorite(&format!("f{i}")));
    }
    assert_eq!(favorites.len(), 10);
    assert_eq!(favorites[0].id, "f11");
    assert_eq!(favorites[9].id, "f2");
}

#[test]
fn remove_favorite_filters_by_id() {
    let favorites = vec![favorite("a"), favorite("b"), favorite("a")];
    let favorites = StorageManager::remove_favorite(favorites, "a");
    assert_eq!(favorites.len(), 1);
    assert_eq!(favorites[0].id, "b");
}

#[test]
fn remove_favorite_with_unknown_id_changes_nothing() {
    let favorites = vec![favorite("a"), favorite("b")];
    let favorites = StorageManager::remove_favorite(favorites, "zz");
    assert_eq!(favorites.len(), 2);
}
