use cvkg_components::lingua_tong::{
    current_locale, init_english, init_english_translations, init_japanese_translations, is_rtl,
    load_translations, set_locale, t, t_or, t_with, LinguaTong,
};

fn pairs(items: &[(&str, &str)]) -> Vec<(String, String)> {
    items.iter().map(|(k, v)| (k.to_string(), v.to_string())).collect()
}

#[test]
fn locale_defaults_to_english_and_first_set_wins() {
    let mut lt = LinguaTong::new();
    assert_eq!(current_locale(&lt), "en");
    set_locale(&mut lt, "ja");
    assert_eq!(current_locale(&lt), "ja");
    set_locale(&mut lt, "fr");
    assert_eq!(current_locale(&lt), "ja");
}

#[test]
fn missing_key_falls_back_to_the_key() {
    let lt = LinguaTong::new();
    assert_eq!(t(&lt, "nothing.here"), "nothing.here");
}

#[test]
fn loaded_translation_is_returned() {
    let mut lt = LinguaTong::new();
    load_translations(&mut lt, "en", pairs(&[("greet", "Hello"), ("bye", "Bye")]));
    assert_eq!(t(&lt, "greet"), "Hello");
    assert_eq!(t(&lt, "bye"), "Bye");
}

#[test]
fn later_pairs_and_later_loads_replace_earlier_ones() {
    let mut lt = LinguaTong::new();
    load_translations(&mut lt, "en", pairs(&[("k", "one"), ("k", "two")]));
    assert_eq!(t(&lt, "k"), "two");
    load_translations(&mut lt, "en", pairs(&[("other", "x")]));
    assert_eq!(t(&lt, "k"), "k");
}

#[test]
fn other_locale_falls_back_to_english() {
    let mut lt = LinguaTong::new();
    set_locale(&mut lt, "de");
    load_translations(&mut lt, "en", pairs(&[("greet", "Hello")]));
    load_translations(&mut lt, "de", pairs(&[("bye", "Tschüss")]));
    assert_eq!(t(&lt, "bye"), "Tschüss");
    assert_eq!(t(&lt, "greet"), "Hello");
    assert_eq!(t(&lt, "none"), "none");
}

#[test]
fn interpolation_replaces_every_placeholder() {
    let mut lt = LinguaTong::new();
    init_english_translations(&mut lt);
    assert_eq!(t_with(&lt, "trustmark.high", &[("name", "Alice")]), "High confidence");
    assert_eq!(t_with(&lt, "consentgate.data_label", &[("data", "email")]), "Data: email");
    assert_eq!(t_with(&lt, "consentgate.items_count", &[("count", "3")]), "(3 items)");
    assert_eq!(t_with(&lt, "{a}{a}-{b}", &[("a", "x"), ("b", "{a}")]), "xx-{a}");
    assert_eq!(t_with(&lt, "plain", &[]), "plain");
}

#[test]
fn japanese_and_english_tables() {
    let mut lt = LinguaTong::new();
    set_locale(&mut lt, "ja");
    init_japanese_translations(&mut lt);
    init_english(&mut lt);
    assert_eq!(t(&lt, "dialog.delete"), "削除");
    assert_eq!(t(&lt, "datepicker.month.december"), "12月");
    assert_eq!(t(&lt, "action.save"), "Save");
    assert_eq!(t(&lt, "nav.logout"), "Sign out");
}

#[test]
fn english_common_strings_replace_component_strings() {
    let mut lt = LinguaTong::new();
    init_english_translations(&mut lt);
    assert_eq!(t(&lt, "dialog.ok"), "OK");
    init_english(&mut lt);
    assert_eq!(t(&lt, "action.ok"), "OK");
    assert_eq!(t(&lt, "dialog.ok"), "dialog.ok");
}

#[test]
fn right_to_left_locales() {
    let lt = LinguaTong::new();
    assert!(!is_rtl(&lt));
    for l in ["ar", "he", "fa", "ur"] {
        let mut lt = LinguaTong::new();
        set_locale(&mut lt, l);
        assert!(is_rtl(&lt));
    }
    let mut lt = LinguaTong::new();
    set_locale(&mut lt, "arb");
    assert!(!is_rtl(&lt));
}

#[test]
fn default_is_used_only_for_untranslated_keys() {
    let mut lt = LinguaTong::new();
    load_translations(&mut lt, "en", pairs(&[("greet", "Hello")]));
    assert_eq!(t_or(&lt, "greet", "Hi"), "Hello");
    assert_eq!(t_or(&lt, "missing", "fallback"), "fallback");
}

#[test]
fn no_arguments_give_the_plain_translation() {
    let mut lt = LinguaTong::new();
    load_translations(&mut lt, "en", pairs(&[("greet", "Hello {name}")]));
    assert_eq!(t_with(&lt, "greet", &[]), t(&lt, "greet"));
    assert_eq!(t_with(&lt, "greet", &[]), "Hello {name}");
}
