//! The earliest and the latest contact date of a document.

use vstd::prelude::*;

verus! {

/// One contact date as the document gives it: the number and its spelling.
pub struct DateEntry {
    pub value: u32,
    pub text: Seq<char>,
}

/// Where the search for the earliest date starts: only a date before this
/// one is taken.
pub const EARLIEST_START: u32 = 99991231;

/// Where the search for the latest date starts: only a date after this one
/// is taken.
pub const LATEST_START: u32 = 0;

/// The earliest and the latest contact date met so far, each with the
/// spelling it had in the document, and the list of all dates met.
pub struct DateRangeModel {
    pub min_date: u32,
    pub min_text: Seq<char>,
    pub max_date: u32,
    pub max_text: Seq<char>,
    pub seen: Seq<DateEntry>,
}

impl DateRangeModel {
    /// The range before any date has been met.
    pub open spec fn fresh() -> DateRangeModel {
        DateRangeModel {
            min_date: EARLIEST_START,
            min_text: Seq::empty(),
            max_date: LATEST_START,
            max_text: Seq::empty(),
            seen: Seq::empty(),
        }
    }

    /// The range after one more date. Of equal dates the first one met
    /// keeps its place.
    pub open spec fn observed(self, value: u32, text: Seq<char>) -> DateRangeModel {
        DateRangeModel {
            min_date: if value < self.min_date {
                value
            } else {
                self.min_date
            },
            min_text: if value < self.min_date {
                text
            } else {
                self.min_text
            },
            max_date: if value > self.max_date {
                value
            } else {
                self.max_date
            },
            max_text: if value > self.max_date {
                text
            } else {
                self.max_text
            },
            seen: self.seen.push(DateEntry { value, text }),
        }
    }

    /// The range as a header shows it: earliest date, semicolon, latest
    /// date.
    pub open spec fn text(self) -> Seq<char> {
        self.min_text.push(';') + self.max_text
    }

    /// The date met at `place` is the earliest of all, and the first of
    /// those that are equal to it.
    pub open spec fn earliest_at(self, place: int) -> bool {
        &&& 0 <= place < self.seen.len()
        &&& forall|i: int| 0 <= i < self.seen.len() ==> self.seen[place].value <= (#[trigger] self.seen[i]).value
        &&& forall|i: int| 0 <= i < place ==> self.seen[place].value < (#[trigger] self.seen[i]).value
    }

    /// The date met at `place` is the latest of all, and the first of those
    /// that are equal to it.
    pub open spec fn latest_at(self, place: int) -> bool {
        &&& 0 <= place < self.seen.len()
        &&& forall|i: int| 0 <= i < self.seen.len() ==> self.seen[place].value >= (#[trigger] self.seen[i]).value
        &&& forall|i: int| 0 <= i < place ==> self.seen[place].value > (#[trigger] self.seen[i]).value
    }

    /// No date met is early enough to be taken as the earliest.
    pub open spec fn none_early(self) -> bool {
        forall|i: int| 0 <= i < self.seen.len() ==> (#[trigger] self.seen[i]).value >= EARLIEST_START
    }

    /// No date met is late enough to be taken as the latest.
    pub open spec fn none_late(self) -> bool {
        forall|i: int| 0 <= i < self.seen.len() ==> (#[trigger] self.seen[i]).value <= LATEST_START
    }

    /// The two ends of the range are what the dates met make them: the
    /// earliest and the latest of the dates, each in the spelling of the
    /// first date with that value; an end for which no date was taken is
    /// empty.
    pub open spec fn wf(self) -> bool {
        &&& if self.none_early() {
            self.min_date == EARLIEST_START && self.min_text.len() == 0
        } else {
            exists|place: int|
                #![trigger self.seen[place]]
                self.earliest_at(place) && self.min_date == self.seen[place].value
                    && self.min_text == self.seen[place].text
        }
        &&& if self.none_late() {
            self.max_date == LATEST_START && self.max_text.len() == 0
        } else {
            exists|place: int|
                #![trigger self.seen[place]]
                self.latest_at(place) && self.max_date == self.seen[place].value && self.max_text
                    == self.seen[place].text
        }
    }
}

/// A range that is what the dates met make it stays so with one more date.
pub proof fn lemma_observed_wf(range: DateRangeModel, value: u32, text: Seq<char>)
    requires
        range.wf(),
    ensures
        range.observed(value, text).wf(),
{
    let next = range.observed(value, text);
    let last = range.seen.len() as int;
    assert(next.seen[last].value == value);
    assert forall|i: int| 0 <= i < last implies #[trigger] next.seen[i] == range.seen[i] by {}
    if range.none_early() {
        if value < EARLIEST_START {
            assert(next.earliest_at(last));
        } else {
            assert(next.none_early());
        }
    } else {
        let place = choose|place: int|
            #![trigger range.seen[place]]
            range.earliest_at(place) && range.min_date == range.seen[place].value
                && range.min_text == range.seen[place].text;
        assert(!next.none_early()) by {
            let i = choose|i: int| 0 <= i < range.seen.len() && !((#[trigger] range.seen[i]).value >= EARLIEST_START);
            assert(next.seen[i].value < EARLIEST_START);
        }
        if value < range.min_date {
            assert(next.earliest_at(last));
        } else {
            assert(next.seen[place] == range.seen[place]);
            assert(next.earliest_at(place));
        }
    }
    if range.none_late() {
        if value > LATEST_START {
            assert(next.latest_at(last));
        } else {
            assert(next.none_late());
        }
    } else {
        let place = choose|place: int|
            #![trigger range.seen[place]]
            range.latest_at(place) && range.max_date == range.seen[place].value && range.max_text
                == range.seen[place].text;
        assert(!next.none_late()) by {
            let i = choose|i: int| 0 <= i < range.seen.len() && !((#[trigger] range.seen[i]).value <= LATEST_START);
            assert(next.seen[i].value > LATEST_START);
        }
        if value > range.max_date {
            assert(next.latest_at(last));
        } else {
            assert(next.seen[place] == range.seen[place]);
            assert(next.latest_at(place));
        }
    }
}

/// The earliest and the latest contact date of a document.
pub struct DateRange {
    /// The earliest date met, as a number.
    pub min_date: u32,
    /// The earliest date met, as the document spells it.
    pub min_text: String,
    /// The latest date met, as a number.
    pub max_date: u32,
    /// The latest date met, as the document spells it.
    pub max_text: String,
    /// All dates met, in the order of the document.
    pub seen: Ghost<Seq<DateEntry>>,
}

impl View for DateRange {
    type V = DateRangeModel;

    open spec fn view(&self) -> DateRangeModel {
        DateRangeModel {
            min_date: self.min_date,
            min_text: self.min_text@,
            max_date: self.max_date,
            max_text: self.max_text@,
            seen: self.seen@,
        }
    }
}

impl DateRange {
    /// The range before any date has been met.
    pub fn new() -> (range: DateRange)
        ensures
            range@ == DateRangeModel::fresh(),
            range@.wf(),
    {
        DateRange {
            min_date: EARLIEST_START,
            min_text: String::new(),
            max_date: LATEST_START,
            max_text: String::new(),
            seen: Ghost(Seq::empty()),
        }
    }

    /// Takes note of one more date; `text` is its spelling.
    pub fn observe(&mut self, value: u32, text: &str)
        ensures
            final(self)@ == old(self)@.observed(value, text@),
            old(self)@.wf() ==> final(self)@.wf(),
    {
        proof {
            if self@.wf() {
                lemma_observed_wf(self@, value, text@);
            }
        }
        if value < self.min_date {
            self.min_date = value;
            self.min_text = text.to_owned();
        }
        if value > self.max_date {
            self.max_date = value;
            self.max_text = text.to_owned();
        }
        self.seen = Ghost(self.seen@.push(DateEntry { value, text: text@ }));
    }

    /// The range as a header shows it: earliest date, semicolon, latest
    /// date.
    pub fn to_text(&self) -> (text: String)
        ensures
            text@ == self@.text(),
    {
        let mut out = self.min_text.clone();
        out.push(';');
        out.append(self.max_text.as_str());
        out
    }
}

} // verus!
