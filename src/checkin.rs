//! A check-in as the command runs it: the transition, whether the state must
//! be stored again, and the badge to announce.
use vstd::prelude::*;
use crate::date::CalendarDate;
use crate::engine::{Outcome, StreakState, next_state, outcome_of, transition};
use crate::render::{Badge, badge_at, badge_for};

verus! {

/// What a check-in produced.
#[derive(Debug)]
pub struct CheckinReport {
    /// The state after the check-in.
    pub state: StreakState,
    /// The rule that the check-in took.
    pub outcome: Outcome,
    /// Whether the state changed and has to be stored.
    pub changed: bool,
    /// The badge that the new streak earns, announced only when the state changed.
    pub badge: Option<Badge>,
}

/// Checks in on `today` against the stored state `prev`.
pub fn check_in(prev: StreakState, today: CalendarDate) -> (r: CheckinReport)
    requires
        today.valid(),
    ensures
        r.state@ == next_state(prev@, today),
        r.outcome == outcome_of(prev@, today),
        r.changed == (r.outcome != Outcome::AlreadyCheckedIn),
        r.badge == (if r.changed {
            badge_at(r.state.streak as int)
        } else {
            None
        }),
{
    let (state, outcome) = transition(prev, today);
    let changed = outcome != Outcome::AlreadyCheckedIn;
    let badge = if changed {
        badge_for(state.streak)
    } else {
        None
    };
    CheckinReport { state, outcome, changed, badge }
}

} // verus!
