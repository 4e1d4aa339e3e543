use cvkg_components::interactive::button::{activation_key, Button, SecureField, Stepper, Toggle};
use cvkg_components::interactive::checkbox::{Checkbox, CheckboxState, Tabs};
use cvkg_components::interactive::clipboard::{CopyButton, CutButton, PasteButton};
use cvkg_components::interactive::hringrpagination::{GeriTransfer, HringrPagination};
use cvkg_components::interactive::input::{key_action, undo_label, Input, InputKeyAction, InputState};
use cvkg_components::interactive::select::{
    select_key_transition, Dropdown, Picker, Select, SelectUiState, ValidationRule,
};
use cvkg_components::interactive::textarea::Textarea;
use cvkg_components::item::Item;
use cvkg_components::landing::feature_grid::{FeatureGrid, FeatureItem};
use cvkg_components::landing::hero::Hero;
use cvkg_components::landing::pricing_table::{PricingCard, PricingTable};
use cvkg_components::landing::testimonial_card::{TestimonialCard, TestimonialItem};
use cvkg_components::m3_components::{KanbanCard, KanbanColumn};
use cvkg_components::mention_input::MentionInput;
use cvkg_components::native_select::NativeSelect;
use cvkg_components::{ButtonSize, ButtonVariant};
use std::sync::atomic::{AtomicUsize, Ordering};
use std::sync::Arc;

#[test]
fn button_builders_and_activation() {
    let hits = Arc::new(AtomicUsize::new(0));
    let h = hits.clone();
    let b = Button::new("Save", move || {
        h.fetch_add(1, Ordering::SeqCst);
    })
    .variant(ButtonVariant::Destructive)
    .size(ButtonSize::Large);
    assert_eq!(b.label, "Save");
    assert_eq!(b.variant, ButtonVariant::Destructive);
    assert!(b.on_key_event("Enter"));
    assert!(b.on_key_event(" "));
    assert!(!b.on_key_event("a"));
    assert_eq!(hits.load(Ordering::SeqCst), 2);
    let disabled = b.clone().disabled(true);
    assert!(!disabled.on_key_event("Enter"));
    let loading = b.loading(true);
    assert!(!loading.on_key_event("Enter"));
    assert_eq!(hits.load(Ordering::SeqCst), 2);
    assert!(activation_key("Enter") && !activation_key("Return"));
}

#[test]
fn toggle_reports_opposite_state() {
    let seen = Arc::new(AtomicUsize::new(9));
    let s = seen.clone();
    let t = Toggle::new("Wifi", true, move |v| s.store(v as usize, Ordering::SeqCst));
    assert_eq!(t.key_target(" "), Some(false));
    assert_eq!(t.key_target("x"), None);
    assert!(t.on_key_event("Enter"));
    assert_eq!(seen.load(Ordering::SeqCst), 0);
    let st = Stepper::new("Qty", -3, |_| {});
    assert_eq!(st.value, -3);
}

#[test]
fn secure_field_masks_bytes_and_edits() {
    let f = SecureField::new("Password", "", |_| {});
    assert_eq!(f.display_text(), "Password");
    let f = SecureField::new("Password", "aé", |_| {});
    assert_eq!(f.display_text(), "***");
    assert_eq!(f.edit_for_key("x").as_deref(), Some("aéx"));
    assert_eq!(f.edit_for_key("Backspace").as_deref(), Some("a"));
    assert_eq!(f.edit_for_key("é"), None);
    assert_eq!(f.edit_for_key("Shift"), None);
    let empty = SecureField::new("P", "", |_| {});
    assert_eq!(empty.edit_for_key("Backspace").as_deref(), Some(""));
}

#[test]
fn checkbox_states_and_keys() {
    let c = Checkbox::new(true, |_| {});
    assert!(c.state == CheckboxState::Checked);
    assert_eq!(c.key_target("Enter"), Some(false));
    let c = c.indeterminate(true).label("Remember me");
    assert!(c.state == CheckboxState::Indeterminate);
    assert_eq!(c.label.as_deref(), Some("Remember me"));
    assert_eq!(c.key_target(" "), Some(true));
    assert!(!c.on_key_event("Tab"));
    let u = Checkbox::new(false, |_| {}).indeterminate(false);
    assert!(u.state == CheckboxState::Unchecked);
}

#[test]
fn tabs_clamp_selection() {
    let t: Tabs<u8> = Tabs::new().tab("One", 1).tab("Two", 2).selected(7);
    assert_eq!(t.selected_index, 1);
    let t = t.selected(0);
    assert_eq!(t.selected_index, 0);
    let empty: Tabs<u8> = Tabs::new().selected(3);
    assert_eq!(empty.selected_index, 0);
}

#[test]
fn pagination_clamps_and_lists_pages() {
    let p = HringrPagination::new(8, |_| {});
    assert_eq!(p.current_page, 1);
    assert_eq!(p.visible_pages(), vec![1, 2, 3, 4, 5]);
    let p = p.current_page(20);
    assert_eq!(p.current_page, 8);
    let p = p.current_page(0);
    assert_eq!(p.current_page, 1);
    let small = HringrPagination::new(2, |_| {});
    assert_eq!(small.visible_pages(), vec![1, 2]);
    let g = GeriTransfer::new(&[1, 2], &[3]);
    let _ = g;
}

#[test]
fn clipboard_labels() {
    let c = CopyButton::new("Link", || {});
    assert_eq!(c.full_label(), "⎘ Link");
    assert_eq!(c.a11y_label(), "Copy Link");
    let c = CopyButton { copied_feedback: true, ..c };
    assert_eq!(c.full_label(), "✓ Copied!");
    let x = CutButton::new("Text", || {}).disabled(true);
    assert!(x.disabled);
    assert_eq!(x.full_label(), "✂ Text");
    let got = Arc::new(std::sync::Mutex::new(String::new()));
    let g = got.clone();
    let p = PasteButton::new(move |t| *g.lock().unwrap() = t).label("Insert");
    assert_eq!(p.full_label(), "📋 Insert");
    assert_eq!(p.a11y_label(), "Paste Insert");
    assert!(p.paste("clip".to_string()));
    assert_eq!(*got.lock().unwrap(), "clip");
    assert!(!p.disabled(true).paste("no".to_string()));
}

#[test]
fn input_builders_and_keys() {
    let i = Input::new("Name");
    assert_eq!(i.display_text(), "Name");
    assert!(i.input_state == InputState::Default);
    let i = i.value("Bob").focused(true);
    assert_eq!(i.display_text(), "Bob");
    assert!(i.input_state == InputState::Focused);
    let i = i.error("Too short");
    assert!(i.input_state == InputState::Error);
    assert_eq!(i.error_message.as_deref(), Some("Too short"));
    assert!(i.success().input_state == InputState::Success);
    assert_eq!(key_action("a"), InputKeyAction::Insert("a".to_string()));
    assert_eq!(key_action("Back"), InputKeyAction::DeleteBackward);
    assert_eq!(key_action("Delete"), InputKeyAction::DeleteForward);
    assert_eq!(key_action("Home"), InputKeyAction::LineStart);
    assert_eq!(key_action("End"), InputKeyAction::LineEnd);
    assert_eq!(key_action("Return"), InputKeyAction::Commit);
    assert_eq!(key_action("\t"), InputKeyAction::Ignore);
    assert_eq!(key_action("ß"), InputKeyAction::Ignore);
    assert_eq!(undo_label("Backspace"), "Delete");
    assert_eq!(undo_label("a"), "Type");
    let ta = Textarea::new("Notes").value("hi").rows(5);
    assert_eq!((ta.text.as_str(), ta.rows), ("hi", 5));
}

#[test]
fn select_validation_and_keys() {
    let mut s: Select<&str> = Select::new("Pick").option("One", "1").option("Two", "2").rules(vec![ValidationRule::Required]);
    assert_eq!(s.validate(), Err("Please make a selection".to_string()));
    assert_eq!(s.error_message.as_deref(), Some("Please make a selection"));
    let mut s = s.selected(1);
    assert_eq!(s.validate(), Ok(()));
    assert!(s.error_message.is_none());
    s.is_open = true;
    assert_eq!(s.handle_key("ArrowDown"), None);
    assert_eq!(s.hover_index, Some(1));
    assert_eq!(s.handle_key("ArrowDown"), None);
    assert_eq!(s.hover_index, Some(1));
    assert_eq!(s.handle_key("ArrowUp"), None);
    assert_eq!(s.hover_index, Some(0));
    assert_eq!(s.handle_key("Enter"), Some(0));
    assert!(!s.is_open);
    assert_eq!(s.selected_index, Some(0));
    let st = SelectUiState { is_open: true, hover_index: None, selected_index: None };
    assert_eq!(select_key_transition(3, st, "Escape").0.is_open, false);
    assert_eq!(select_key_transition(3, st, "Enter"), (SelectUiState { is_open: false, ..st }, None));
    let closed = SelectUiState { is_open: false, hover_index: Some(1), selected_index: None };
    assert_eq!(select_key_transition(3, closed, "Enter"), (SelectUiState { is_open: true, ..closed }, None));
    assert_eq!(select_key_transition(3, closed, " "), (SelectUiState { is_open: true, ..closed }, None));
    assert_eq!(select_key_transition(3, st, " "), (st, None));
}

#[test]
fn dropdown_wraps_and_picker_labels() {
    let opts = vec!["a".to_string(), "b".to_string(), "c".to_string()];
    let d = Dropdown::new(2, opts.clone(), |_| {});
    assert_eq!(d.key_target("ArrowDown"), Some(0));
    assert_eq!(d.key_target("ArrowUp"), Some(1));
    assert_eq!(d.selected_label(), "c");
    assert!(!d.on_key_event("x"));
    let d0 = Dropdown::new(0, opts.clone(), |_| {});
    assert_eq!(d0.key_target("ArrowUp"), Some(2));
    let none = Dropdown::new(0, vec![], |_| {});
    assert_eq!(none.key_target("ArrowDown"), None);
    let p = Picker::new(5, opts, |_| {});
    assert_eq!(p.selected_label(), "");
}

#[test]
fn item_and_mentions() {
    let hits = Arc::new(AtomicUsize::new(0));
    let h = hits.clone();
    let it = Item::new("Settings").subtitle("Prefs").leading("⚙").trailing("›");
    assert!(!it.click());
    let it = it.on_click(move || {
        h.fetch_add(1, Ordering::SeqCst);
    });
    assert!(it.click());
    assert!(!it.clone().disabled(true).click());
    assert_eq!(hits.load(Ordering::SeqCst), 1);
    assert_eq!(it.subtitle.as_deref(), Some("Prefs"));

    let m = MentionInput::new().value("hi @");
    assert_eq!(m.suggestions().map(|v| v.len()), Some(3));
    assert_eq!(m.suggestions().unwrap()[0], "alice");
    assert_eq!(m.with_suggestion("bob"), "hi bob ");
    let m = m.value("tag #").topics(vec!["ui".to_string()]);
    assert_eq!(m.suggestions().unwrap(), &vec!["ui".to_string()]);
    assert!(m.clone().value("plain").suggestions().is_none());
}

#[test]
fn native_select_label_lookup() {
    let opts = vec![("en".to_string(), "English".to_string()), ("fr".to_string(), "French".to_string())];
    let s = NativeSelect::new(opts, "fr", |_| {});
    assert_eq!(s.selected_label(), "French");
    let s = s.value("de").disabled(true).open(true);
    assert_eq!(s.selected_label(), "de");
    assert!(s.disabled && s.is_open);
}

#[test]
fn landing_and_kanban_builders() {
    let g = FeatureGrid::new().item(FeatureItem::new("⚡", "Fast", "Very")).columns(0);
    assert_eq!(g.columns, 1);
    assert_eq!(g.items.len(), 1);
    let h = Hero::new("Title", "Sub");
    assert_eq!(h.cta_text, "Get Started");
    let h = h.cta_text("Go").on_cta(|| {});
    assert!(h.on_cta.is_some());
    let card = PricingCard::new("Pro", "$9").feature("A").feature("B").cta_text("Buy");
    assert_eq!(card.features, vec!["A".to_string(), "B".to_string()]);
    assert_eq!(PricingTable::new().card(card).cards.len(), 1);
    let tc = TestimonialCard::new().item(TestimonialItem::new("Great", "Ann").avatar("ann.png"));
    assert_eq!(tc.items[0].avatar.as_deref(), Some("ann.png"));
    let col = KanbanColumn::new("Todo").card(KanbanCard::new("Write").description("docs"));
    assert_eq!(col.cards[0].description, "docs");
}
