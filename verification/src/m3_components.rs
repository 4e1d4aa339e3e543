//! Material pickers (time, date range) and kanban board pieces.

use vstd::prelude::*;

verus! {

/// A single kanban card.
#[derive(Clone)]
pub struct KanbanCard {
    /// Card title.
    pub title: String,
    /// Card description.
    pub description: String,
}

impl KanbanCard {
    /// Create a new KanbanCard with an empty description.
    pub fn new(title: &str) -> (r: Self)
        ensures
            r.title@ == title@,
            r.description@.len() == 0,
    {
        KanbanCard { title: title.to_string(), description: String::new() }
    }

    /// Set the description.
    pub fn description(self, d: &str) -> (r: Self)
        ensures
            r.title == self.title,
            r.description@ == d@,
            r == (KanbanCard { description: r.description, ..self }),
    {
        KanbanCard { description: d.to_string(), ..self }
    }
}

/// A kanban column.
#[derive(Clone)]
pub struct KanbanColumn {
    /// Column title.
    pub title: String,
    /// Cards in this column.
    pub cards: Vec<KanbanCard>,
}

impl KanbanColumn {
    /// Create a new KanbanColumn with no cards.
    pub fn new(title: &str) -> (r: Self)
        ensures
            r.title@ == title@,
            r.cards@.len() == 0,
    {
        KanbanColumn { title: title.to_string(), cards: Vec::new() }
    }

    /// Add a card.
    pub fn card(self, card: KanbanCard) -> (r: Self)
        ensures
            r.title == self.title,
            r.cards@ == self.cards@.push(card),
    {
        let mut cards = self.cards;
        cards.push(card);
        KanbanColumn { title: self.title, cards }
    }
}

/// A clock-face time picker (its diameter, a float, is the renderer's).
#[derive(Debug, Clone, Copy)]
pub struct TimePicker {
    /// Selected hour (0-23).
    pub hour: u8,
    /// Selected minute (0-59).
    pub minute: u8,
    /// Whether to show hours (true) or minutes (false).
    pub show_hours: bool,
}

impl TimePicker {
    /// Create a new TimePicker; the hour wraps at 24 and the minute at 60.
    pub fn new(hour: u8, minute: u8) -> (r: Self)
        ensures
            r.hour == hour % 24,
            r.minute == minute % 60,
            r.show_hours,
    {
        TimePicker { hour: hour % 24, minute: minute % 60, show_hours: true }
    }

    /// Toggle between hours and minutes.
    pub fn mode(self, show_hours: bool) -> (r: Self)
        ensures
            r == (TimePicker { show_hours, ..self }),
    {
        TimePicker { show_hours, ..self }
    }
}

/// A month calendar on which a range of days is picked (its width, a float,
/// is the renderer's).
#[derive(Debug, Clone, Copy)]
pub struct DateRangePicker {
    /// Month (1-12).
    pub month: u8,
    /// Year.
    pub year: u32,
    /// Range start day (0 = not set).
    pub range_start: u8,
    /// Range end day (0 = not set).
    pub range_end: u8,
    /// Currently hovered day.
    pub hovered: u8,
}

/// The number of days the calendar grid shows.
pub const CALENDAR_DAYS: u8 = 30;

/// The translation key suffix of a month's short name (January when the
/// month is out of range).
pub open spec fn month_key_of(month: u8) -> Seq<char> {
    if month == 2 {
        "feb"@
    } else if month == 3 {
        "mar"@
    } else if month == 4 {
        "apr"@
    } else if month == 5 {
        "may_short"@
    } else if month == 6 {
        "jun"@
    } else if month == 7 {
        "jul"@
    } else if month == 8 {
        "aug"@
    } else if month == 9 {
        "sep"@
    } else if month == 10 {
        "oct"@
    } else if month == 11 {
        "nov"@
    } else if month == 12 {
        "dec"@
    } else {
        "jan"@
    }
}

/// Whether `day` lies in the picked range; nothing does until both ends are
/// set.
pub open spec fn day_in_range(start: u8, end: u8, day: u8) -> bool {
    start > 0 && end > 0 && start <= day && day <= end
}

/// One day of the calendar grid: where it stands (row and column, weeks
/// starting on Sunday and the month on a Monday) and how it is marked.
#[derive(Debug, Clone, Copy, PartialEq, Eq, Structural)]
pub struct CalendarDay {
    pub day: u8,
    pub row: u8,
    pub col: u8,
    pub in_range: bool,
    pub is_endpoint: bool,
}

/// The grid entry of `day` for a range from `start` to `end`.
pub open spec fn calendar_day(start: u8, end: u8, day: u8) -> CalendarDay {
    CalendarDay {
        day,
        row: (day / 7) as u8,
        col: (day % 7) as u8,
        in_range: day_in_range(start, end, day),
        is_endpoint: day == start || day == end,
    }
}

impl DateRangePicker {
    /// Create a new DateRangePicker; the month is clamped to 1..=12 and no
    /// range is set.
    pub fn new(month: u8, year: u32) -> (r: Self)
        ensures
            r.month == (if month < 1 { 1 } else if month > 12 { 12 } else { month }),
            r.year == year,
            r.range_start == 0,
            r.range_end == 0,
            r.hovered == 0,
    {
        let m = if month < 1 { 1 } else if month > 12 { 12 } else { month };
        DateRangePicker { month: m, year, range_start: 0, range_end: 0, hovered: 0 }
    }

    /// Set the range.
    pub fn range(self, start: u8, end: u8) -> (r: Self)
        ensures
            r == (DateRangePicker { range_start: start, range_end: end, ..self }),
    {
        DateRangePicker { range_start: start, range_end: end, ..self }
    }

    /// Set the hovered day.
    pub fn hovered(self, d: u8) -> (r: Self)
        ensures
            r == (DateRangePicker { hovered: d, ..self }),
    {
        DateRangePicker { hovered: d, ..self }
    }

    /// The translation key of the month's name in the header.
    pub fn month_key(&self) -> (r: String)
        ensures
            r@ == "datepicker.month."@ + month_key_of(self.month),
    {
        let short = match self.month {
            2 => "feb",
            3 => "mar",
            4 => "apr",
            5 => "may_short",
            6 => "jun",
            7 => "jul",
            8 => "aug",
            9 => "sep",
            10 => "oct",
            11 => "nov",
            12 => "dec",
            _ => "jan",
        };
        let mut r = "datepicker.month.".to_string();
        r.append(short);
        proof { reveal_strlit("datepicker.month."); }
        r
    }

    /// Whether `day` lies in the picked range.
    pub fn in_range(&self, day: u8) -> (r: bool)
        ensures
            r == day_in_range(self.range_start, self.range_end, day),
    {
        self.range_start > 0 && self.range_end > 0 && day >= self.range_start && day <= self.range_end
    }

    /// The calendar grid: days 1 to 30 in order, each with its cell and its
    /// marks.
    pub fn calendar(&self) -> (r: Vec<CalendarDay>)
        ensures
            r@.len() == CALENDAR_DAYS,
            forall|i: int| 0 <= i < r@.len() ==> #[trigger] r@[i] == calendar_day(self.range_start, self.range_end, (i + 1) as u8),
    {
        let mut r: Vec<CalendarDay> = Vec::new();
        let mut day: u8 = 1;
        while day <= CALENDAR_DAYS
            invariant
                1 <= day <= CALENDAR_DAYS + 1,
                r@.len() == day - 1,
                forall|i: int| 0 <= i < r@.len() ==> #[trigger] r@[i] == calendar_day(self.range_start, self.range_end, (i + 1) as u8),
            decreases CALENDAR_DAYS + 1 - day,
        {
            r.push(CalendarDay {
                day,
                row: day / 7,
                col: day % 7,
                in_range: self.in_range(day),
                is_endpoint: day == self.range_start || day == self.range_end,
            });
            day = day + 1;
        }
        r
    }
}

} // verus!
