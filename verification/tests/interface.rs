use noir_atelier::catalog::{is_favorite, search_products, toggle_favorite};
use noir_atelier::theme::{initial_theme, next_theme};

#[test]
fn theme_defaults_to_dark() {
    assert_eq!(initial_theme(None), "dark");
    assert_eq!(initial_theme(Some("light".to_string())), "light");
    assert_eq!(initial_theme(Some("dark".to_string())), "dark");
    assert_eq!(initial_theme(Some("blue".to_string())), "dark");
    assert_eq!(initial_theme(Some("Light".to_string())), "dark");
}

#[test]
fn theme_button_alternates() {
    assert_eq!(next_theme("dark"), "light");
    assert_eq!(next_theme("light"), "dark");
    assert_eq!(next_theme(next_theme("dark")), "dark");
    assert_eq!(next_theme("sepia"), "dark");
}

fn ids(query: &str) -> Vec<&'static str> {
    search_products(query).iter().map(|p| p.id).collect()
}

#[test]
fn empty_query_shows_the_whole_catalogue() {
    assert_eq!(ids(""), vec!["coat", "hoodie", "trousers", "jacket", "bag", "boots"]);
}

#[test]
fn search_ignores_case_in_both_alphabets() {
    assert_eq!(ids("ПАЛЬТО"), vec!["coat"]);
    assert_eq!(ids("Hoodie"), vec!["hoodie"]);
    assert_eq!(ids("BAG"), vec!["bag"]);
    assert_eq!(ids("обувь"), vec!["boots"]);
}

#[test]
fn search_matches_inside_words_and_keeps_order() {
    assert_eq!(ids("oo"), vec!["hoodie", "boots"]);
    assert_eq!(ids("wear"), vec!["coat", "hoodie"]);
    assert_eq!(ids("xyz"), Vec::<&str>::new());
}

#[test]
fn favourites_toggle_in_and_out() {
    let mut favs: Vec<String> = Vec::new();
    toggle_favorite(&mut favs, "Metal Bag");
    assert!(is_favorite(&favs, "Metal Bag"));
    assert_eq!(favs, vec!["Metal Bag".to_string()]);
    toggle_favorite(&mut favs, "Urban Boots");
    toggle_favorite(&mut favs, "Metal Bag");
    assert!(!is_favorite(&favs, "Metal Bag"));
    assert_eq!(favs, vec!["Urban Boots".to_string()]);
}

#[test]
fn favourite_toggle_removes_only_the_first_copy() {
    let mut favs = vec!["A".to_string(), "B".to_string(), "A".to_string()];
    toggle_favorite(&mut favs, "A");
    assert_eq!(favs, vec!["B".to_string(), "A".to_string()]);
}

#[test]
fn toggling_a_new_favourite_twice_changes_nothing() {
    let before = vec!["Heavy Hoodie".to_string(), "Sharp Jacket".to_string()];
    let mut favs = before.clone();
    toggle_favorite(&mut favs, "Wide Trousers");
    toggle_favorite(&mut favs, "Wide Trousers");
    assert_eq!(favs, before);
}
