//! The stored document form of the streak state: dates as canonical text,
//! checked against the state's invariant when read back.
use vstd::prelude::*;
use crate::command::TrackerError;
use crate::date::{CalendarDate, iso_parse, iso_text, lemma_iso_round_trip, parse_iso};
use crate::engine::{StreakModel, StreakState, history_contains};

verus! {

/// The state as the document holds it: four fields, dates as `YYYY-MM-DD`.
#[derive(Clone, Debug)]
pub struct StreakDocument {
    pub streak: u32,
    pub longest: u32,
    pub last_date: Option<String>,
    pub history: Vec<String>,
}

pub ghost struct DocumentModel {
    pub streak: int,
    pub longest: int,
    pub last_date: Option<Seq<char>>,
    pub history: Seq<Seq<char>>,
}

impl View for StreakDocument {
    type V = DocumentModel;

    open spec fn view(&self) -> DocumentModel {
        DocumentModel {
            streak: self.streak as int,
            longest: self.longest as int,
            last_date: match self.last_date {
                Some(t) => Some(t@),
                None => None,
            },
            history: self.history@.map_values(|t: String| t@),
        }
    }
}

/// The document that holds a state.
pub open spec fn encoded(s: StreakModel) -> DocumentModel {
    DocumentModel {
        streak: s.streak,
        longest: s.longest,
        last_date: match s.last_date {
            Some(d) => Some(iso_text(d)),
            None => None,
        },
        history: s.history.map_values(|d: CalendarDate| iso_text(d)),
    }
}

/// The state that a document holds, if every date in it is canonical text
/// and the state meets its invariant.
pub open spec fn decoded(doc: DocumentModel) -> Option<StreakModel> {
    let m = StreakModel {
        streak: doc.streak,
        longest: doc.longest,
        last_date: match doc.last_date {
            Some(t) => iso_parse(t),
            None => None,
        },
        history: doc.history.map_values(|t: Seq<char>| iso_parse(t)->0),
    };
    let last_ok = match doc.last_date {
        Some(t) => iso_parse(t) is Some,
        None => true,
    };
    let history_ok = forall|i: int| 0 <= i < doc.history.len() ==> (#[trigger] iso_parse(doc.history[i])) is Some;
    if last_ok && history_ok && m.wf() {
        Some(m)
    } else {
        None
    }
}

/// The document form of a state.
pub fn encode(s: &StreakState) -> (r: StreakDocument)
    requires
        s.wf(),
    ensures
        r@ == encoded(s@),
{
    let last_date = match s.last_date {
        Some(d) => Some(d.to_iso_string()),
        None => None,
    };
    let mut history: Vec<String> = Vec::new();
    let mut i: usize = 0;
    while i < s.history.len()
        invariant
            s.wf(),
            i <= s.history@.len(),
            history@.len() == i,
            forall|j: int| 0 <= j < i ==> #[trigger] history@[j]@ == iso_text(s.history@[j]),
        decreases s.history@.len() - i,
    {
        history.push(s.history[i].to_iso_string());
        i = i + 1;
    }
    let r = StreakDocument { streak: s.streak, longest: s.longest, last_date, history };
    assert(r@.history =~= encoded(s@).history);
    r
}

/// Whether no day occurs twice.
pub fn all_distinct(h: &Vec<CalendarDate>) -> (r: bool)
    ensures
        r == h@.no_duplicates(),
{
    let mut i: usize = 0;
    while i < h.len()
        invariant
            i <= h@.len(),
            forall|a: int, b: int| 0 <= a < i && 0 <= b < i && a != b ==> h@[a] != h@[b],
        decreases h@.len() - i,
    {
        let mut j: usize = 0;
        while j < i
            invariant
                i < h@.len(),
                j <= i,
                forall|b: int| 0 <= b < j ==> h@[b] != h@[i as int],
            decreases i - j,
        {
            if h[j] == h[i] {
                return false;
            }
            j = j + 1;
        }
        i = i + 1;
    }
    true
}

/// Whether a state meets its invariant.
pub fn is_well_formed(s: &StreakState) -> (r: bool)
    ensures
        r == s.wf(),
{
    let mut i: usize = 0;
    while i < s.history.len()
        invariant
            i <= s.history@.len(),
            forall|j: int| 0 <= j < i ==> (#[trigger] s.history@[j]).valid(),
        decreases s.history@.len() - i,
    {
        if !s.history[i].is_valid() {
            return false;
        }
        i = i + 1;
    }
    let last_ok = match s.last_date {
        None => s.streak == 0 && s.history.len() == 0,
        Some(d) => s.streak != 0 && d.is_valid() && history_contains(&s.history, d),
    };
    last_ok && s.longest >= s.streak && all_distinct(&s.history)
}

/// The state that a document holds; `StoreCorrupt` where a date is not
/// canonical text or the state breaks its invariant.
pub fn decode(doc: &StreakDocument) -> (r: Result<StreakState, TrackerError>)
    ensures
        decoded(doc@) is Some <==> r is Ok,
        r matches Ok(s) ==> s@ == decoded(doc@)->0,
        r matches Err(e) ==> e == TrackerError::StoreCorrupt,
{
    let last_date = match &doc.last_date {
        None => None,
        Some(t) => match parse_iso(t.as_str()) {
            None => return Err(TrackerError::StoreCorrupt),
            Some(d) => Some(d),
        },
    };
    let mut history: Vec<CalendarDate> = Vec::new();
    let mut i: usize = 0;
    while i < doc.history.len()
        invariant
            i <= doc.history@.len(),
            history@.len() == i,
            forall|j: int| 0 <= j < i ==> iso_parse(#[trigger] doc@.history[j]) == Some(history@[j]),
        decreases doc.history@.len() - i,
    {
        match parse_iso(doc.history[i].as_str()) {
            None => {
                assert(iso_parse(doc@.history[i as int]) is None);
                return Err(TrackerError::StoreCorrupt);
            },
            Some(d) => history.push(d),
        }
        i = i + 1;
    }
    let s = StreakState { streak: doc.streak, longest: doc.longest, last_date, history };
    assert(s@.history =~= doc@.history.map_values(|t: Seq<char>| iso_parse(t)->0));
    if is_well_formed(&s) {
        Ok(s)
    } else {
        Err(TrackerError::StoreCorrupt)
    }
}

/// Reading back the document of a well-formed state gives the state.
pub proof fn lemma_store_round_trip(s: StreakModel)
    requires
        s.wf(),
    ensures
        decoded(encoded(s)) == Some(s),
{
    let doc = encoded(s);
    assert forall|i: int| 0 <= i < doc.history.len() implies #[trigger] iso_parse(doc.history[i])
        == Some(s.history[i]) by {
        lemma_iso_round_trip(s.history[i]);
    }
    if let Some(d) = s.last_date {
        lemma_iso_round_trip(d);
    }
    assert(doc.history.map_values(|t: Seq<char>| iso_parse(t)->0) =~= s.history);
}

} // verus!
