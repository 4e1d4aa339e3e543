use std::sync::{Arc, Mutex};

use cvkg_components::interactive::button::{Button, Stepper, Toggle};
use cvkg_components::interactive::checkbox::Checkbox;
use cvkg_components::interactive::clipboard::{CopyButton, CutButton, PasteButton};
use cvkg_components::interactive::select::{Dropdown, Select};
use cvkg_components::interactive::textarea::Textarea;
use cvkg_components::item::Item;

fn recorder<T: Send + 'static>() -> (Arc<Mutex<Vec<T>>>, impl Fn(T) + Send + Sync + 'static) {
    let log = Arc::new(Mutex::new(Vec::new()));
    let l = log.clone();
    (log, move |v: T| l.lock().unwrap().push(v))
}

fn counter() -> (Arc<Mutex<u32>>, impl Fn() + Send + Sync + 'static) {
    let n = Arc::new(Mutex::new(0));
    let c = n.clone();
    (n, move || *c.lock().unwrap() += 1)
}

#[test]
fn toggle_reports_the_opposite_state() {
    let (log, cb) = recorder::<bool>();
    let t = Toggle::new("Wifi", true, cb);
    assert!(t.on_key_event("Enter"));
    assert!(!t.on_key_event("x"));
    assert!(t.on_key_event(" "));
    assert_eq!(*log.lock().unwrap(), vec![false, false]);
}

#[test]
fn checkbox_reports_the_toggled_value() {
    let (log, cb) = recorder::<bool>();
    let c = Checkbox::new(true, cb);
    assert!(c.on_key_event("Enter"));
    let (log2, cb2) = recorder::<bool>();
    let c2 = Checkbox::new(false, cb2).indeterminate(true);
    assert!(c2.on_key_event(" "));
    assert_eq!(*log.lock().unwrap(), vec![false]);
    assert_eq!(*log2.lock().unwrap(), vec![true]);
}

#[test]
fn dropdown_reports_the_new_selection() {
    let (log, cb) = recorder::<usize>();
    let d = Dropdown::new(1, vec!["a".to_string(), "b".to_string(), "c".to_string()], cb);
    assert!(d.on_key_event("ArrowDown"));
    assert!(d.on_key_event("ArrowUp"));
    assert_eq!(*log.lock().unwrap(), vec![2, 0]);
}

#[test]
fn select_reports_the_committed_value() {
    let (log, cb) = recorder::<u32>();
    let mut s = Select::new("Pick").option("a", 10).option("b", 20).on_change(cb);
    assert_eq!(s.handle_key("Enter"), None);
    assert!(s.is_open);
    s.handle_key("ArrowDown");
    s.handle_key("ArrowDown");
    assert_eq!(s.handle_key("Enter"), Some(1));
    assert_eq!(*log.lock().unwrap(), vec![20]);
}

#[test]
fn paste_hands_on_the_text_unless_disabled() {
    let (log, cb) = recorder::<String>();
    let p = PasteButton::new(cb);
    assert!(p.paste("hello".to_string()));
    let p = p.disabled(true);
    assert!(!p.paste("ignored".to_string()));
    assert_eq!(*log.lock().unwrap(), vec!["hello".to_string()]);
}

#[test]
fn clicks_run_the_click_callback() {
    let (n, cb) = counter();
    let b = Button::new("Go", cb);
    assert!(b.on_key_event("Enter"));
    assert!(!b.on_key_event("a"));
    assert_eq!(*n.lock().unwrap(), 1);

    let (n, cb) = counter();
    let c = CopyButton::new("Copy", cb);
    assert!(c.click());
    assert!(c.click());
    assert!(!CopyButton::new("Copy", || {}).disabled(true).click());
    assert_eq!(*n.lock().unwrap(), 2);

    let (n, cb) = counter();
    let c = CutButton::new("Cut", cb);
    assert!(c.click());
    assert_eq!(*n.lock().unwrap(), 1);

    let (n, cb) = counter();
    let i = Item::new("Row").on_click(cb);
    assert!(i.click());
    assert!(!Item::new("Row").click());
    assert_eq!(*n.lock().unwrap(), 1);
}

#[test]
fn stepper_reports_one_less_or_one_more() {
    let (log, cb) = recorder::<i32>();
    let s = Stepper::new("Qty", 5, cb);
    s.decrement();
    s.increment();
    assert_eq!(*log.lock().unwrap(), vec![4, 6]);
}

#[test]
fn button_click_respects_disabled_and_loading() {
    let (n, cb) = counter();
    let b = Button::new("Go", cb);
    assert!(b.click());
    let b = b.loading(true);
    assert!(!b.click());
    let b = b.loading(false).disabled(true);
    assert!(!b.click());
    assert_eq!(*n.lock().unwrap(), 1);
}

#[test]
fn textarea_edits_and_reports_the_new_text() {
    let t = Textarea::new("Notes").value("ab");
    assert_eq!(t.edit_for_key("c").as_deref(), Some("abc"));
    assert_eq!(t.edit_for_key("Back").as_deref(), Some("a"));
    assert_eq!(t.edit_for_key("Backspace").as_deref(), Some("a"));
    assert_eq!(t.edit_for_key("Enter").as_deref(), Some("ab\n"));
    assert_eq!(t.edit_for_key("Return").as_deref(), Some("ab\n"));
    assert_eq!(t.edit_for_key("ArrowLeft"), None);
    assert_eq!(t.edit_for_key("é"), None);
    assert_eq!(Textarea::new("x").edit_for_key("Back").as_deref(), Some(""));
    assert_eq!(t.with_ime("日本"), "ab日本");
    let (log, cb) = recorder::<String>();
    let t = t.on_change(cb);
    assert!(t.on_key_event("d"));
    assert!(!t.on_key_event("Tab"));
    t.on_ime("語");
    assert_eq!(*log.lock().unwrap(), vec!["abd".to_string(), "ab語".to_string()]);
}
