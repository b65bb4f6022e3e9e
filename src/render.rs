//! Read-only views of the state: badges, the seven-day strip and the history
//! listing.
use vstd::prelude::*;
use crate::date::{CalendarDate, iso_text, weekday_from_monday};

verus! {

/// A milestone label for a streak length.
#[derive(Clone, Copy, Debug, PartialEq, Eq, Structural)]
pub enum Badge {
    Week,
    Month,
    Hundred,
    Year,
}

impl Badge {
    pub open spec fn spec_days(self) -> int {
        match self {
            Badge::Week => 7,
            Badge::Month => 30,
            Badge::Hundred => 100,
            Badge::Year => 365,
        }
    }

    /// The streak length at which the badge is awarded.
    pub fn days(self) -> (r: u32)
        ensures
            r == self.spec_days(),
    {
        match self {
            Badge::Week => 7,
            Badge::Month => 30,
            Badge::Hundred => 100,
            Badge::Year => 365,
        }
    }
}

/// The badge awarded at exactly this streak length, if any.
pub open spec fn badge_at(streak: int) -> Option<Badge> {
    if streak == 7 {
        Some(Badge::Week)
    } else if streak == 30 {
        Some(Badge::Month)
    } else if streak == 100 {
        Some(Badge::Hundred)
    } else if streak == 365 {
        Some(Badge::Year)
    } else {
        None
    }
}

/// The badge for a streak of exactly 7, 30, 100 or 365 days; none otherwise.
pub fn badge_for(streak: u32) -> (r: Option<Badge>)
    ensures
        r == badge_at(streak as int),
        r matches Some(b) ==> b.spec_days() == streak,
{
    match streak {
        7 => Some(Badge::Week),
        30 => Some(Badge::Month),
        100 => Some(Badge::Hundred),
        365 => Some(Badge::Year),
        _ => None,
    }
}

/// Initial of a weekday counted from Monday: `M T W T F S S`.
pub open spec fn initial_of(weekday: int) -> char {
    if weekday == 0 {
        'M'
    } else if weekday == 1 {
        'T'
    } else if weekday == 2 {
        'W'
    } else if weekday == 3 {
        'T'
    } else if weekday == 4 {
        'F'
    } else {
        'S'
    }
}

/// Initial of a weekday counted from Monday (0) to Sunday (6).
pub fn weekday_initial(weekday: u32) -> (r: char)
    requires
        weekday < 7,
    ensures
        r == initial_of(weekday as int),
{
    match weekday {
        0 => 'M',
        1 => 'T',
        2 => 'W',
        3 => 'T',
        4 => 'F',
        _ => 'S',
    }
}

/// One day of the weekly strip.
#[derive(Clone, Copy, Debug, PartialEq, Eq, Structural)]
pub struct DaySlot {
    pub date: CalendarDate,
    /// Whether the day was checked in.
    pub filled: bool,
    /// Initial of the day's weekday.
    pub initial: char,
}

/// The slot that the strip shows for `date`.
pub open spec fn slot_for(history: Seq<CalendarDate>, date: CalendarDate) -> DaySlot {
    DaySlot {
        date,
        filled: history.contains(date),
        initial: initial_of(weekday_from_monday(date.year as int, date.month as int, date.day as int)),
    }
}

/// The seven days from six days before `today` up to `today`, in order, each
/// filled when it is in `history`, with its weekday initial.
pub fn weekly_strip(history: &Vec<CalendarDate>, today: CalendarDate) -> (r: Vec<DaySlot>)
    requires
        today.valid(),
    ensures
        r@.len() == 7,
        forall|i: int| 0 <= i < 7 ==> #[trigger] r@[i] == slot_for(history@, today.back((6 - i) as nat)),
{
    let mut back: Vec<CalendarDate> = Vec::new();
    let mut cur = today;
    let mut k: usize = 0;
    while k < 7
        invariant
            today.valid(),
            k <= 7,
            back@.len() == k,
            cur == today.back(k as nat),
            cur.is_day(),
            today.year - k <= cur.year <= today.year,
            forall|j: int| 0 <= j < k ==> #[trigger] back@[j] == today.back(j as nat),
            forall|j: int| 0 <= j < k ==> (#[trigger] back@[j]).in_range(),
        decreases 7 - k,
    {
        back.push(cur);
        cur = cur.previous_day();
        k = k + 1;
    }
    let mut slots: Vec<DaySlot> = Vec::new();
    let mut i: usize = 0;
    while i < 7
        invariant
            i <= 7,
            back@.len() == 7,
            slots@.len() == i,
            forall|j: int| 0 <= j < 7 ==> #[trigger] back@[j] == today.back(j as nat),
            forall|j: int| 0 <= j < 7 ==> (#[trigger] back@[j]).in_range(),
            forall|j: int| 0 <= j < i ==> #[trigger] slots@[j] == slot_for(history@, today.back((6 - j) as nat)),
        decreases 7 - i,
    {
        let date = back[6 - i];
        let filled = crate::engine::history_contains(history, date);
        let initial = weekday_initial(date.weekday());
        slots.push(DaySlot { date, filled, initial });
        i = i + 1;
    }
    slots
}

/// The canonical text of each recorded day, in stored order.
pub fn history_lines(history: &Vec<CalendarDate>) -> (r: Vec<String>)
    requires
        forall|i: int| 0 <= i < history@.len() ==> (#[trigger] history@[i]).valid(),
    ensures
        r@.len() == history@.len(),
        forall|i: int| 0 <= i < history@.len() ==> #[trigger] r@[i]@ == iso_text(history@[i]),
{
    let mut lines: Vec<String> = Vec::new();
    let mut i: usize = 0;
    while i < history.len()
        invariant
            i <= history@.len(),
            lines@.len() == i,
            forall|j: int| 0 <= j < history@.len() ==> (#[trigger] history@[j]).valid(),
            forall|j: int| 0 <= j < i ==> #[trigger] lines@[j]@ == iso_text(history@[j]),
        decreases history@.len() - i,
    {
        lines.push(history[i].to_iso_string());
        i = i + 1;
    }
    lines
}

} // verus!
