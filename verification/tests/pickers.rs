use cvkg_components::m3_components::{CalendarDay, DateRangePicker, TimePicker, CALENDAR_DAYS};

#[test]
fn time_picker_wraps_hours_and_minutes() {
    let t = TimePicker::new(25, 61);
    assert_eq!((t.hour, t.minute), (1, 1));
    assert!(t.show_hours);
    let t = TimePicker::new(23, 59).mode(false);
    assert_eq!((t.hour, t.minute), (23, 59));
    assert!(!t.show_hours);
}

#[test]
fn date_range_picker_clamps_the_month() {
    assert_eq!(DateRangePicker::new(0, 2024).month, 1);
    assert_eq!(DateRangePicker::new(13, 2024).month, 12);
    let d = DateRangePicker::new(5, 2024);
    assert_eq!(d.month, 5);
    assert_eq!(d.year, 2024);
    assert_eq!((d.range_start, d.range_end, d.hovered), (0, 0, 0));
}

#[test]
fn month_keys() {
    assert_eq!(DateRangePicker::new(5, 2024).month_key(), "datepicker.month.may_short");
    assert_eq!(DateRangePicker::new(12, 2024).month_key(), "datepicker.month.dec");
    assert_eq!(DateRangePicker::new(1, 2024).month_key(), "datepicker.month.jan");
}

#[test]
fn range_needs_both_ends() {
    let d = DateRangePicker::new(3, 2024);
    assert!(!d.in_range(5));
    let d = d.range(3, 0);
    assert!(!d.in_range(3));
    let d = d.range(3, 7).hovered(9);
    assert_eq!(d.hovered, 9);
    assert!(!d.in_range(2));
    assert!(d.in_range(3));
    assert!(d.in_range(5));
    assert!(d.in_range(7));
    assert!(!d.in_range(8));
}

#[test]
fn calendar_grid_starts_on_monday() {
    let cal = DateRangePicker::new(3, 2024).range(6, 8).calendar();
    assert_eq!(cal.len(), CALENDAR_DAYS as usize);
    assert_eq!(cal[0], CalendarDay { day: 1, row: 0, col: 1, in_range: false, is_endpoint: false });
    assert_eq!(cal[5], CalendarDay { day: 6, row: 0, col: 6, in_range: true, is_endpoint: true });
    assert_eq!(cal[6], CalendarDay { day: 7, row: 1, col: 0, in_range: true, is_endpoint: false });
    assert_eq!(cal[7], CalendarDay { day: 8, row: 1, col: 1, in_range: true, is_endpoint: true });
    assert_eq!(cal[29], CalendarDay { day: 30, row: 4, col: 2, in_range: false, is_endpoint: false });
}
