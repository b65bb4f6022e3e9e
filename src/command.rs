//! The commands of the tracker and the failures that end a run.
use vstd::prelude::*;

verus! {

/// What a run of the tracker does.
#[derive(Clone, Copy, Debug, PartialEq, Eq, Structural)]
pub enum Command {
    Checkin,
    Status,
    Week,
    History,
}

/// Why a run of the tracker failed.
#[derive(Clone, Copy, Debug, PartialEq, Eq, Structural)]
pub enum TrackerError {
    /// The home directory could not be found.
    HomeNotResolved,
    /// The stored document exists but could not be read.
    StoreUnreadable,
    /// The stored document could not be decoded, or breaks the state's invariant.
    StoreCorrupt,
    /// The document could not be written.
    StoreUnwritable,
    /// The command word is not one of the four commands.
    UnknownAction,
}

impl TrackerError {
    pub open spec fn spec_exit_code(self) -> int {
        match self {
            TrackerError::UnknownAction => 2,
            _ => 1,
        }
    }

    /// Process exit status for this failure: 2 for an unknown command, 1 otherwise.
    pub fn exit_code(&self) -> (r: i32)
        ensures
            r == self.spec_exit_code(),
    {
        match self {
            TrackerError::UnknownAction => 2,
            _ => 1,
        }
    }
}

/// The command that a command word names; no word means a check-in.
pub open spec fn command_for(token: Option<Seq<char>>) -> Option<Command> {
    match token {
        None => Some(Command::Checkin),
        Some(t) => if t == "checkin"@ {
            Some(Command::Checkin)
        } else if t == "status"@ {
            Some(Command::Status)
        } else if t == "week"@ {
            Some(Command::Week)
        } else if t == "history"@ {
            Some(Command::History)
        } else {
            None
        },
    }
}

/// Whether two texts hold the same characters.
pub fn same_text(a: &str, b: &str) -> (r: bool)
    ensures
        r == (a@ == b@),
{
    let n = a.unicode_len();
    if n != b.unicode_len() {
        return false;
    }
    let mut i: usize = 0;
    while i < n
        invariant
            n == a@.len() == b@.len(),
            i <= n,
            forall|j: int| 0 <= j < i ==> a@[j] == b@[j],
        decreases n - i,
    {
        if a.get_char(i) != b.get_char(i) {
            return false;
        }
        i = i + 1;
    }
    assert(a@ =~= b@);
    true
}

/// Reads the command word: none, `checkin`, `status`, `week` or `history`;
/// any other word is an unknown action.
pub fn parse_command(token: Option<&str>) -> (r: Result<Command, TrackerError>)
    ensures
        match command_for(
            match token {
                Some(t) => Some(t@),
                None => None,
            },
        ) {
            Some(c) => r == Ok::<Command, TrackerError>(c),
            None => r == Err::<Command, TrackerError>(TrackerError::UnknownAction),
        },
{
    match token {
        None => Ok(Command::Checkin),
        Some(t) => if same_text(t, "checkin") {
            Ok(Command::Checkin)
        } else if same_text(t, "status") {
            Ok(Command::Status)
        } else if same_text(t, "week") {
            Ok(Command::Week)
        } else if same_text(t, "history") {
            Ok(Command::History)
        } else {
            Err(TrackerError::UnknownAction)
        },
    }
}

} // verus!
