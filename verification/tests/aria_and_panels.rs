use cvkg_components::aria::{AriaProperties, AriaRole};
use cvkg_components::interactive::button::{Button, Toggle};
use cvkg_components::interactive::checkbox::Checkbox;
use cvkg_components::interactive::input::Input;
use cvkg_components::interactive::select::{Dropdown, Select};
use cvkg_components::multi_agent_orchestrator::orchestrator::OrchestratorState;

#[test]
fn aria_builder_sets_each_field() {
    let a = AriaProperties::new(AriaRole::Textbox, "Name")
        .checked(true)
        .value("x".to_string())
        .expanded(true)
        .disabled(true)
        .focused(true);
    assert_eq!(a.role, AriaRole::Textbox);
    assert_eq!(a.label, "Name");
    assert_eq!(a.checked, Some(true));
    assert_eq!(a.value.as_deref(), Some("x"));
    assert_eq!(a.expanded, Some(true));
    assert!(a.disabled && a.focused);
    let b = AriaProperties::new(AriaRole::Button, "Go");
    assert_eq!(b.checked, None);
    assert!(!b.disabled && !b.focused);
}

#[test]
fn button_is_disabled_while_loading() {
    let b = Button::new("Save", || {});
    let a = b.aria_properties().unwrap();
    assert_eq!(a.role, AriaRole::Button);
    assert_eq!(a.label, "Save");
    assert!(!a.disabled);
    let a = Button::new("Save", || {}).loading(true).aria_properties().unwrap();
    assert!(a.disabled);
    let a = Button::new("Save", || {}).disabled(true).aria_properties().unwrap();
    assert!(a.disabled);
}

#[test]
fn toggle_reports_on_and_off() {
    let a = Toggle::new("Wifi", true, |_| {}).aria_properties().unwrap();
    assert_eq!(a.role, AriaRole::Switch);
    assert_eq!(a.checked, Some(true));
    assert_eq!(a.value.as_deref(), Some("on"));
    let a = Toggle::new("Wifi", false, |_| {}).aria_properties().unwrap();
    assert_eq!(a.checked, Some(false));
    assert_eq!(a.value.as_deref(), Some("off"));
}

#[test]
fn checkbox_label_and_mixed_state() {
    let a = Checkbox::new(true, |_| {}).aria_properties().unwrap();
    assert_eq!(a.role, AriaRole::Checkbox);
    assert_eq!(a.label, "Checkbox");
    assert_eq!(a.checked, Some(true));
    let a = Checkbox::new(false, |_| {}).label("Agree").aria_properties().unwrap();
    assert_eq!(a.label, "Agree");
    assert_eq!(a.checked, Some(false));
    let a = Checkbox::new(false, |_| {}).indeterminate(true).aria_properties().unwrap();
    assert_eq!(a.checked, None);
}

#[test]
fn input_reports_text_and_focus() {
    let a = Input::new("Email").value("a@b.c").focused(true).aria_properties().unwrap();
    assert_eq!(a.role, AriaRole::Textbox);
    assert_eq!(a.label, "Email");
    assert_eq!(a.value.as_deref(), Some("a@b.c"));
    assert!(a.focused);
}

#[test]
fn select_and_dropdown_are_combo_boxes() {
    let a = Select::<u32>::new("Pick one").aria_properties().unwrap();
    assert_eq!(a.role, AriaRole::Combobox);
    assert_eq!(a.label, "Pick one");
    let d = Dropdown::new(1, vec!["a".to_string(), "b".to_string()], |_| {});
    let a = d.aria_properties().unwrap();
    assert_eq!(a.label, "b");
    assert_eq!(a.value.as_deref(), Some("b"));
    assert_eq!(a.expanded, Some(false));
    let d = Dropdown::new(5, vec!["a".to_string()], |_| {});
    assert_eq!(d.aria_properties().unwrap().label, "Select");
}

#[test]
fn run_button_counts_runs() {
    let mut s = OrchestratorState::demo();
    s.toggle_run();
    assert!(s.is_executing);
    assert_eq!(s.run_counter, 1);
    assert_eq!(s.active_run_id.as_deref(), Some("run-1"));
    s.toggle_run();
    assert!(!s.is_executing);
    assert_eq!(s.active_run_id.as_deref(), Some("run-1"));
    s.toggle_run();
    assert_eq!(s.active_run_id.as_deref(), Some("run-2"));
}

#[test]
fn panel_buttons_flip_their_panel() {
    let mut s = OrchestratorState::demo();
    assert!(s.show_log_panel);
    s.toggle_log_panel();
    assert!(!s.show_log_panel);
    s.toggle_log_panel();
    assert!(s.show_log_panel);
    assert!(!s.show_metrics_panel);
    s.toggle_metrics_panel();
    assert!(s.show_metrics_panel);
}
