use streak_tracker::date::CalendarDate;
use streak_tracker::engine::{history_contains, transition, Outcome, StreakState};

fn day(year: i32, month: u32, day: u32) -> CalendarDate {
    CalendarDate::from_ymd(year, month, day).unwrap()
}

fn state(streak: u32, longest: u32, last: Option<CalendarDate>, history: Vec<CalendarDate>) -> StreakState {
    StreakState { streak, longest, last_date: last, history }
}

fn single(last: CalendarDate) -> StreakState {
    state(1, 1, Some(last), vec![last])
}

#[test]
fn first_ever_checkin() {
    let (next, outcome) = transition(StreakState::new(), day(2025, 1, 10));
    assert_eq!(outcome, Outcome::FirstEver);
    assert_eq!(next.streak, 1);
    assert_eq!(next.longest, 1);
    assert_eq!(next.last_date, Some(day(2025, 1, 10)));
    assert_eq!(next.history, vec![day(2025, 1, 10)]);
}

#[test]
fn incremented_twice() {
    let s = single(day(2025, 1, 10));
    let (s, outcome) = transition(s, day(2025, 1, 11));
    assert_eq!(outcome, Outcome::Incremented);
    assert_eq!((s.streak, s.longest), (2, 2));
    assert_eq!(s.last_date, Some(day(2025, 1, 11)));
    assert_eq!(s.history, vec![day(2025, 1, 10), day(2025, 1, 11)]);
    let (s, outcome) = transition(s, day(2025, 1, 12));
    assert_eq!(outcome, Outcome::Incremented);
    assert_eq!((s.streak, s.longest), (3, 3));
    assert_eq!(s.last_date, Some(day(2025, 1, 12)));
    assert_eq!(s.history, vec![day(2025, 1, 10), day(2025, 1, 11), day(2025, 1, 12)]);
}

#[test]
fn already_checked_in_leaves_state() {
    let h = vec![day(2025, 1, 10), day(2025, 1, 11), day(2025, 1, 12)];
    let s = state(3, 3, Some(day(2025, 1, 12)), h.clone());
    let (next, outcome) = transition(s, day(2025, 1, 12));
    assert_eq!(outcome, Outcome::AlreadyCheckedIn);
    assert_eq!((next.streak, next.longest), (3, 3));
    assert_eq!(next.last_date, Some(day(2025, 1, 12)));
    assert_eq!(next.history, h);
}

#[test]
fn reset_after_gap_keeps_longest() {
    let h: Vec<CalendarDate> = (8..=12).map(|d| day(2025, 1, d)).collect();
    let s = state(5, 5, Some(day(2025, 1, 12)), h.clone());
    let (next, outcome) = transition(s, day(2025, 1, 20));
    assert_eq!(outcome, Outcome::Reset);
    assert_eq!((next.streak, next.longest), (1, 5));
    assert_eq!(next.last_date, Some(day(2025, 1, 20)));
    let mut expected = h;
    expected.push(day(2025, 1, 20));
    assert_eq!(next.history, expected);
}

#[test]
fn month_boundary_increments() {
    let (next, outcome) = transition(single(day(2024, 1, 31)), day(2024, 2, 1));
    assert_eq!(outcome, Outcome::Incremented);
    assert_eq!(next.streak, 2);
}

#[test]
fn year_boundary_increments() {
    let (next, outcome) = transition(single(day(2023, 12, 31)), day(2024, 1, 1));
    assert_eq!(outcome, Outcome::Incremented);
    assert_eq!(next.streak, 2);
}

#[test]
fn leap_day_increments() {
    let (_, outcome) = transition(single(day(2024, 2, 28)), day(2024, 2, 29));
    assert_eq!(outcome, Outcome::Incremented);
    let (_, outcome) = transition(single(day(2024, 2, 29)), day(2024, 3, 1));
    assert_eq!(outcome, Outcome::Incremented);
}

#[test]
fn non_leap_february_end_is_a_gap() {
    let (_, outcome) = transition(single(day(2023, 2, 28)), day(2023, 3, 1));
    assert_eq!(outcome, Outcome::Incremented);
    let (_, outcome) = transition(single(day(2023, 2, 27)), day(2023, 3, 1));
    assert_eq!(outcome, Outcome::Reset);
}

#[test]
fn future_last_date_resets() {
    let s = state(4, 9, Some(day(2025, 3, 5)), vec![day(2025, 3, 5)]);
    let (next, outcome) = transition(s, day(2025, 3, 1));
    assert_eq!(outcome, Outcome::Reset);
    assert_eq!((next.streak, next.longest), (1, 9));
    assert_eq!(next.history, vec![day(2025, 3, 5), day(2025, 3, 1)]);
}

#[test]
fn reset_onto_recorded_day_does_not_duplicate() {
    let h = vec![day(2025, 3, 1), day(2025, 3, 5)];
    let s = state(1, 1, Some(day(2025, 3, 5)), h.clone());
    let (next, outcome) = transition(s, day(2025, 3, 1));
    assert_eq!(outcome, Outcome::Reset);
    assert_eq!(next.history, h);
    assert_eq!(next.last_date, Some(day(2025, 3, 1)));
}

#[test]
fn longest_at_least_streak_after_checkin() {
    let s = state(2, 2, Some(day(2025, 5, 2)), vec![day(2025, 5, 1), day(2025, 5, 2)]);
    for today in [day(2025, 5, 2), day(2025, 5, 3), day(2025, 5, 9), day(2024, 1, 1)] {
        let (next, _) = transition(s.clone(), today);
        assert!(next.longest >= next.streak);
    }
}

#[test]
fn same_day_checkin_is_idempotent() {
    let s = state(2, 3, Some(day(2025, 5, 2)), vec![day(2025, 5, 1), day(2025, 5, 2)]);
    for today in [day(2025, 5, 2), day(2025, 5, 3), day(2025, 6, 1)] {
        let (once, _) = transition(s.clone(), today);
        let (twice, outcome) = transition(once.clone(), today);
        assert_eq!(outcome, Outcome::AlreadyCheckedIn);
        assert_eq!((twice.streak, twice.longest, twice.last_date), (once.streak, once.longest, once.last_date));
        assert_eq!(twice.history, once.history);
    }
}

#[test]
fn history_grows_by_at_most_one() {
    let h = vec![day(2025, 5, 1), day(2025, 5, 2)];
    let s = state(2, 2, Some(day(2025, 5, 2)), h.clone());
    let (next, _) = transition(s.clone(), day(2025, 5, 3));
    assert_eq!(next.history.len(), 3);
    assert_eq!(&next.history[..2], &h[..]);
    let (next, _) = transition(s, day(2025, 5, 1));
    assert_eq!(next.history, h);
}

#[test]
fn streak_stops_at_largest_count() {
    let s = state(u32::MAX, u32::MAX, Some(day(2025, 5, 2)), vec![day(2025, 5, 2)]);
    let (next, outcome) = transition(s, day(2025, 5, 3));
    assert_eq!(outcome, Outcome::Incremented);
    assert_eq!(next.streak, u32::MAX);
}

#[test]
fn contains_finds_recorded_days() {
    let h = vec![day(2025, 1, 1), day(2025, 1, 3)];
    assert!(history_contains(&h, day(2025, 1, 3)));
    assert!(!history_contains(&h, day(2025, 1, 2)));
    assert!(!history_contains(&Vec::new(), day(2025, 1, 2)));
}
