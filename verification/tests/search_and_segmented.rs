use cvkg_components::interactive::hrungnirsegmented::{HrungnirSegmented, SegmentedStyle};
use cvkg_components::interactive::mimir_search::{MimirSearch, SearchBarStyle};

#[test]
fn test_segmented_new() {
    let seg = HrungnirSegmented::new(vec!["A".into(), "B".into()], 0);
    assert_eq!(seg.segments.len(), 2);
    assert_eq!(seg.selected, 0);
    assert!(matches!(seg.style, SegmentedStyle::Glass));
}

#[test]
fn test_segmented_select() {
    let mut seg = HrungnirSegmented::new(vec!["A".into(), "B".into(), "C".into()], 0);
    seg.on_select(2);
    assert_eq!(seg.selected, 2);
}

#[test]
fn test_segmented_style() {
    let seg = HrungnirSegmented::new(vec!["A".into()], 0).style(SegmentedStyle::Capsule);
    assert!(matches!(seg.style, SegmentedStyle::Capsule));
}

#[test]
fn test_segmented_single() {
    let seg = HrungnirSegmented::new(vec!["Only".into()], 0);
    assert_eq!(seg.segments.len(), 1);
}

#[test]
fn test_segmented_many() {
    let seg = HrungnirSegmented::new(
        vec!["One".into(), "Two".into(), "Three".into(), "Four".into()],
        3,
    );
    assert_eq!(seg.segments.len(), 4);
    assert_eq!(seg.selected, 3);
}

#[test]
fn test_search_new() {
    let search = MimirSearch::new();
    assert_eq!(search.query, "");
    assert_eq!(search.placeholder, "Search...");
    assert!(matches!(search.style, SearchBarStyle::Compact));
    assert!(!search.searching);
}

#[test]
fn test_search_placeholder() {
    let search = MimirSearch::new().placeholder("Find files...");
    assert_eq!(search.placeholder, "Find files...");
}

#[test]
fn test_search_style() {
    let search = MimirSearch::new().style(SearchBarStyle::Expanded);
    assert!(matches!(search.style, SearchBarStyle::Expanded));
}

#[test]
fn test_search_query() {
    let search = MimirSearch::new().query("test query");
    assert_eq!(search.query, "test query");
}

#[test]
fn test_search_default() {
    let search: MimirSearch = Default::default();
    assert_eq!(search.query, "");
}

#[test]
fn search_shows_placeholder_until_a_query_is_typed() {
    let search = MimirSearch::new();
    assert_eq!(search.shown_text(), "Search...");
    let search = search.query("rune");
    assert_eq!(search.shown_text(), "rune");
}
