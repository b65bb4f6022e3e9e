//! The streak state and its daily check-in transition.
use vstd::prelude::*;
use crate::date::CalendarDate;

verus! {

/// How a check-in changed the state.
#[derive(Clone, Copy, Debug, PartialEq, Eq, Structural)]
pub enum Outcome {
    /// No check-in had been recorded before.
    FirstEver,
    /// Today was already recorded; nothing changed.
    AlreadyCheckedIn,
    /// The last check-in was yesterday; the streak grew by one.
    Incremented,
    /// The last check-in was neither today nor yesterday; the streak restarts.
    Reset,
}

/// The persisted streak record.
#[derive(Clone, Debug)]
pub struct StreakState {
    /// Consecutive days of check-ins, ending on `last_date`.
    pub streak: u32,
    /// The largest streak ever reached.
    pub longest: u32,
    /// The day of the most recent check-in.
    pub last_date: Option<CalendarDate>,
    /// Every day checked in, in the order first recorded.
    pub history: Vec<CalendarDate>,
}

/// The mathematical content of a `StreakState`.
pub ghost struct StreakModel {
    pub streak: int,
    pub longest: int,
    pub last_date: Option<CalendarDate>,
    pub history: Seq<CalendarDate>,
}

impl View for StreakState {
    type V = StreakModel;

    open spec fn view(&self) -> StreakModel {
        StreakModel {
            streak: self.streak as int,
            longest: self.longest as int,
            last_date: self.last_date,
            history: self.history@,
        }
    }
}

impl StreakModel {
    /// The state's invariant: nothing recorded exactly when the streak is zero;
    /// `longest` bounds `streak`; the history holds valid, distinct days,
    /// among them the last one. The last day is the final entry as long as
    /// check-ins move forward in time; after a check-in dated before an
    /// already recorded day (a clock set back) it may stand earlier.
    pub open spec fn wf(self) -> bool {
        &&& self.streak >= 0
        &&& (self.streak == 0 <==> self.last_date is None)
        &&& (self.last_date is None <==> self.history.len() == 0)
        &&& self.longest >= self.streak
        &&& forall|i: int| 0 <= i < self.history.len() ==> (#[trigger] self.history[i]).valid()
        &&& (self.last_date matches Some(d) ==> d.valid() && self.history.contains(d))
        &&& self.history.no_duplicates()
    }
}

impl StreakState {
    pub open spec fn wf(&self) -> bool {
        self@.wf()
    }

    /// The state before any check-in.
    pub fn new() -> (r: StreakState)
        ensures
            r@ == empty_model(),
            r.wf(),
    {
        StreakState { streak: 0, longest: 0, last_date: None, history: Vec::new() }
    }
}

pub open spec fn empty_model() -> StreakModel {
    StreakModel { streak: 0, longest: 0, last_date: None, history: Seq::empty() }
}

/// Which rule a check-in on `today` takes.
pub open spec fn outcome_of(s: StreakModel, today: CalendarDate) -> Outcome {
    match s.last_date {
        None => Outcome::FirstEver,
        Some(last) => if last == today {
            Outcome::AlreadyCheckedIn
        } else if last == today.prev() {
            Outcome::Incremented
        } else {
            Outcome::Reset
        },
    }
}

/// One more day of streak; the count stops at the largest `u32`.
pub open spec fn one_more(n: int) -> int {
    if n < u32::MAX {
        n + 1
    } else {
        n
    }
}

pub open spec fn larger(a: int, b: int) -> int {
    if a >= b {
        a
    } else {
        b
    }
}

/// The history with `d` appended unless it is already there.
pub open spec fn with_day(h: Seq<CalendarDate>, d: CalendarDate) -> Seq<CalendarDate> {
    if h.contains(d) {
        h
    } else {
        h.push(d)
    }
}

/// The state after recording `today` with the given streak.
pub open spec fn recorded(s: StreakModel, today: CalendarDate, streak: int) -> StreakModel {
    StreakModel {
        streak,
        longest: larger(s.longest, streak),
        last_date: Some(today),
        history: with_day(s.history, today),
    }
}

/// The state after a check-in on `today`.
pub open spec fn next_state(s: StreakModel, today: CalendarDate) -> StreakModel {
    match outcome_of(s, today) {
        Outcome::AlreadyCheckedIn => s,
        Outcome::Incremented => recorded(s, today, one_more(s.streak)),
        _ => recorded(s, today, 1),
    }
}

/// Whether `day` is in `history`.
pub fn history_contains(history: &Vec<CalendarDate>, day: CalendarDate) -> (r: bool)
    ensures
        r == history@.contains(day),
{
    let mut i: usize = 0;
    while i < history.len()
        invariant
            i <= history@.len(),
            forall|j: int| 0 <= j < i ==> history@[j] != day,
        decreases history@.len() - i,
    {
        if history[i] == day {
            return true;
        }
        i = i + 1;
    }
    false
}

/// Records a check-in on `today`: returns the new state and the rule taken.
pub fn transition(prev: StreakState, today: CalendarDate) -> (r: (StreakState, Outcome))
    requires
        today.valid(),
    ensures
        r.0@ == next_state(prev@, today),
        r.1 == outcome_of(prev@, today),
{
    let outcome = match prev.last_date {
        None => Outcome::FirstEver,
        Some(last) => if last == today {
            Outcome::AlreadyCheckedIn
        } else if last == today.previous_day() {
            Outcome::Incremented
        } else {
            Outcome::Reset
        },
    };
    let mut next = prev;
    if outcome == Outcome::AlreadyCheckedIn {
        return (next, outcome);
    }
    let streak: u32 = if outcome == Outcome::Incremented {
        if next.streak < u32::MAX {
            next.streak + 1
        } else {
            next.streak
        }
    } else {
        1
    };
    next.streak = streak;
    if streak > next.longest {
        next.longest = streak;
    }
    next.last_date = Some(today);
    if !history_contains(&next.history, today) {
        next.history.push(today);
    }
    (next, outcome)
}

/// The day before a calendar day comes before it.
pub proof fn lemma_prev_before(d: CalendarDate)
    requires
        d.in_range(),
    ensures
        d.prev().before(d),
{
}

/// After a check-in the longest streak is at least the current one.
pub proof fn lemma_longest_covers_streak(s: StreakModel, today: CalendarDate)
    requires
        s.wf(),
        today.valid(),
    ensures
        next_state(s, today).longest >= next_state(s, today).streak,
{
}

/// A second check-in on the same day changes nothing.
pub proof fn lemma_same_day_idempotent(s: StreakModel, today: CalendarDate)
    ensures
        next_state(next_state(s, today), today) == next_state(s, today),
{
}

/// A check-in keeps every recorded day, adds at most `today`, and keeps the
/// history free of duplicates.
pub proof fn lemma_history_grows(s: StreakModel, today: CalendarDate)
    requires
        s.history.no_duplicates(),
    ensures
        next_state(s, today).history.no_duplicates(),
        next_state(s, today).history == s.history || next_state(s, today).history == s.history.push(
            today,
        ),
        forall|d: CalendarDate| s.history.contains(d) ==> next_state(s, today).history.contains(d),
{
    let h = next_state(s, today).history;
    if h != s.history {
        assert(h == s.history.push(today));
        assert(!s.history.contains(today));
        assert forall|i: int, j: int| 0 <= i < h.len() && 0 <= j < h.len() && i != j implies h[i]
            != h[j] by {
            if i == s.history.len() as int {
                assert(s.history.contains(h[j]));
            } else if j == s.history.len() as int {
                assert(s.history.contains(h[i]));
            }
        }
        assert forall|d: CalendarDate| s.history.contains(d) implies h.contains(d) by {
            let k = choose|k: int| 0 <= k < s.history.len() && s.history[k] == d;
            assert(h[k] == d);
        }
    }
}

/// A last check-in dated after `today` restarts the streak.
pub proof fn lemma_future_last_date_resets(s: StreakModel, today: CalendarDate)
    requires
        today.valid(),
        s.last_date matches Some(last) && today.before(last),
    ensures
        outcome_of(s, today) == Outcome::Reset,
        next_state(s, today).streak == 1,
{
    lemma_prev_before(today);
}

/// A check-in keeps the state's invariant.
pub proof fn lemma_transition_keeps_wf(s: StreakModel, today: CalendarDate)
    requires
        s.wf(),
        today.valid(),
    ensures
        next_state(s, today).wf(),
{
    lemma_history_grows(s, today);
    let n = next_state(s, today);
    if n != s {
        assert(n.history.contains(today)) by {
            if s.history.contains(today) {
            } else {
                assert(n.history[s.history.len() as int] == today);
            }
        }
        assert forall|i: int| 0 <= i < n.history.len() implies (#[trigger] n.history[i]).valid() by {
            if i < s.history.len() {
                assert(n.history[i] == s.history[i]);
            }
        }
    }
}

} // verus!
