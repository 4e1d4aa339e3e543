use std::hash::{Hash, Hasher};
use cvkg_components::keyboard_nav::{
    arrow_direction, current_focus_hash, cycle_focus, focus_id_hash, focus_order_hash,
    ArrowDirection, KeyboardShortcuts,
};

fn order() -> Vec<String> {
    vec!["a".to_string(), "b".to_string(), "c".to_string()]
}

#[test]
fn cycle_focus_forward_and_backward_wrap() {
    assert_eq!(cycle_focus(&order(), "a", true).as_deref(), Some("b"));
    assert_eq!(cycle_focus(&order(), "c", true).as_deref(), Some("a"));
    assert_eq!(cycle_focus(&order(), "a", false).as_deref(), Some("c"));
    assert_eq!(cycle_focus(&order(), "b", false).as_deref(), Some("a"));
}

#[test]
fn cycle_focus_from_nothing_or_unknown() {
    assert_eq!(cycle_focus(&order(), "", true).as_deref(), Some("a"));
    assert_eq!(cycle_focus(&order(), "", false).as_deref(), Some("c"));
    assert_eq!(cycle_focus(&order(), "zzz", false).as_deref(), Some("a"));
    assert_eq!(cycle_focus(&[], "a", true), None);
}

#[test]
fn cycle_focus_round_trip() {
    let o = order();
    for id in &o {
        let next = cycle_focus(&o, id, true).unwrap();
        assert_eq!(cycle_focus(&o, &next, false).as_deref(), Some(id.as_str()));
    }
}

#[test]
fn arrow_keys_map_to_directions() {
    assert_eq!(arrow_direction("ArrowUp"), Some(ArrowDirection::Up));
    assert_eq!(arrow_direction("ArrowRight"), Some(ArrowDirection::Right));
    assert_eq!(arrow_direction("arrowup"), None);
    assert_eq!(arrow_direction("Tab"), None);
}

#[test]
fn focus_hashes_are_stable_and_distinct() {
    assert_eq!(focus_order_hash(), focus_order_hash());
    assert_ne!(focus_order_hash(), current_focus_hash());
    assert_eq!(focus_id_hash("x"), focus_id_hash("x"));
    assert_ne!(focus_id_hash("x"), focus_id_hash("y"));
}

#[test]
fn focus_order_hash_matches_std_default_hasher() {
    let mut s = std::collections::hash_map::DefaultHasher::new();
    "focus_order".hash(&mut s);
    assert_eq!(focus_order_hash(), s.finish());
}

#[test]
fn shortcuts_register_in_order() {
    let ks = KeyboardShortcuts::new()
        .shortcut("Escape", "Close", || {})
        .ctrl_key("S", "Save", || {});
    let all = ks.shortcuts();
    assert_eq!(all.len(), 2);
    assert_eq!(all[0].keys, "Escape");
    assert_eq!(all[1].keys, "Ctrl+S");
    assert_eq!(all[1].description, "Save");
    assert!(KeyboardShortcuts::default().shortcuts().is_empty());
}
