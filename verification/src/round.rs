//! The input engine: one round over the typing units of a phrase.
//!
//! A round owns the units and a cursor into them. It takes one keystroke or
//! one backspace at a time, and is always left in a valid state: a keystroke
//! that fits nowhere only raises the error flag and the mistake counter.

use crate::dictionary::PatternDictionary;
use crate::segment::{lemma_segment_units_fresh, parse_hiragana, segment};
use crate::unit::{lemma_accept_preserves_wf, units_view, units_wf, CharState, UnitView};
use std::time::{Duration, Instant};
use vstd::prelude::*;

verus! {

/// The mathematical model of a round.
pub struct RoundView {
    /// The typing units of the phrase, in order.
    pub units: Seq<UnitView>,
    /// The index of the unit being typed; the unit count once the phrase is
    /// complete.
    pub cursor: int,
    /// Whether the most recent keystroke advanced no unit.
    pub is_error: bool,
    /// How many keystrokes have been rejected in this round.
    pub mistakes: int,
}

/// The sum of the lengths of the assumed candidates.
pub open spec fn assumed_chars(units: Seq<UnitView>) -> int
    decreases units.len(),
{
    if units.len() == 0 {
        0
    } else {
        assumed_chars(units.drop_last()) + units.last().current().len()
    }
}

/// The sum of the confirmed counts.
pub open spec fn typed_chars(units: Seq<UnitView>) -> int
    decreases units.len(),
{
    if units.len() == 0 {
        0
    } else {
        typed_chars(units.drop_last()) + units.last().typed
    }
}

/// The units as they are before anything is typed: nothing confirmed and
/// the first candidate assumed.
pub open spec fn restarted(units: Seq<UnitView>) -> Seq<UnitView> {
    Seq::new(units.len(), |i: int| UnitView::fresh(units[i].kana, units[i].patterns))
}

impl RoundView {
    /// The round at its start: cursor on the first unit, no error, no
    /// mistakes.
    pub open spec fn start(units: Seq<UnitView>) -> RoundView {
        RoundView { units, cursor: 0, is_error: false, mistakes: 0 }
    }

    /// Every unit is well-formed; the cursor is in range; the units before
    /// the cursor are complete, the unit under the cursor is not, and the
    /// units after it are untouched.
    pub open spec fn wf(self) -> bool {
        &&& units_wf(self.units)
        &&& 0 <= self.cursor <= self.units.len()
        &&& 0 <= self.mistakes
        &&& forall|i: int|
            0 <= i < self.cursor ==> (#[trigger] self.units[i]).typed
                == self.units[i].current().len()
        &&& forall|i: int|
            self.cursor < i < self.units.len() ==> (#[trigger] self.units[i]).typed == 0
        &&& self.cursor < self.units.len() ==> !self.units[self.cursor].is_complete()
    }

    /// The whole phrase is typed.
    pub open spec fn is_complete(self) -> bool {
        self.cursor >= self.units.len()
    }

    /// The round after the keystroke `c`.
    ///
    /// While in progress, a keystroke that the unit under the cursor accepts
    /// clears the error flag and, if it completes the unit, moves the cursor
    /// on in the same step. A keystroke that the unit rejects raises the
    /// error flag and counts as a mistake. Once the round is complete a
    /// keystroke changes nothing.
    pub open spec fn key(self, c: char) -> RoundView {
        if self.is_complete() {
            self
        } else {
            match self.units[self.cursor].accept(c) {
                Some(unit) => RoundView {
                    units: self.units.update(self.cursor, unit),
                    cursor: if unit.is_complete() {
                        self.cursor + 1
                    } else {
                        self.cursor
                    },
                    is_error: false,
                    mistakes: self.mistakes,
                },
                None => RoundView { is_error: true, mistakes: self.mistakes + 1, ..self },
            }
        }
    }

    /// Whether the keystroke `c` would be accepted.
    pub open spec fn accepts(self, c: char) -> bool {
        !self.is_complete() && self.units[self.cursor].accept(c) is Some
    }

    /// The round after one backspace.
    ///
    /// A completed round is first re-opened on its last unit. Then one
    /// confirmed character of the unit under the cursor is taken back; if it
    /// has none, the cursor steps back and the previous unit is re-opened at
    /// its last character. The error flag is cleared in every case.
    pub open spec fn backspace(self) -> RoundView {
        let cursor = if self.cursor >= self.units.len() && self.cursor > 0 {
            self.cursor - 1
        } else {
            self.cursor
        };
        if 0 <= cursor < self.units.len() {
            if self.units[cursor].typed > 0 {
                RoundView {
                    units: self.units.update(cursor, self.units[cursor].retreated()),
                    cursor,
                    is_error: false,
                    mistakes: self.mistakes,
                }
            } else if cursor > 0 {
                RoundView {
                    units: self.units.update(cursor - 1, self.units[cursor - 1].reopened()),
                    cursor: cursor - 1,
                    is_error: false,
                    mistakes: self.mistakes,
                }
            } else {
                RoundView { cursor, is_error: false, ..self }
            }
        } else {
            RoundView { cursor, is_error: false, ..self }
        }
    }

    /// The total of confirmed characters once the round is complete: the
    /// sum of the lengths of the assumed candidates.
    pub open spec fn total_chars(self) -> int {
        assumed_chars(self.units)
    }
}

/// The sum over a prefix of the units never exceeds the sum over all of them.
pub proof fn lemma_assumed_chars_monotone(units: Seq<UnitView>, n: int)
    requires
        0 <= n <= units.len(),
    ensures
        0 <= assumed_chars(units.take(n)) <= assumed_chars(units),
    decreases units.len() - n,
{
    if n == units.len() {
        assert(units.take(n) =~= units);
        lemma_assumed_chars_nonnegative(units);
    } else {
        lemma_assumed_chars_monotone(units, n + 1);
        assert(units.take(n + 1).drop_last() =~= units.take(n));
        lemma_assumed_chars_nonnegative(units.take(n));
    }
}

/// A sum of lengths is not negative.
pub proof fn lemma_assumed_chars_nonnegative(units: Seq<UnitView>)
    ensures
        0 <= assumed_chars(units),
    decreases units.len(),
{
    if units.len() > 0 {
        lemma_assumed_chars_nonnegative(units.drop_last());
    }
}

/// A keystroke leaves a well-formed round well-formed, never lowers the
/// mistake counter, and keeps the cursor in range.
pub proof fn lemma_key_preserves_wf(round: RoundView, c: char)
    requires
        round.wf(),
    ensures
        round.key(c).wf(),
        round.key(c).units.len() == round.units.len(),
        round.key(c).mistakes >= round.mistakes,
        0 <= round.key(c).cursor <= round.units.len(),
{
    if !round.is_complete() {
        let unit = round.units[round.cursor];
        if unit.accept(c) is Some {
            lemma_accept_preserves_wf(unit, c);
        }
    }
}

/// A backspace leaves a well-formed round well-formed, leaves the mistake
/// counter alone, clears the error flag, and never changes which candidate
/// a unit assumes.
pub proof fn lemma_backspace_preserves_wf(round: RoundView)
    requires
        round.wf(),
    ensures
        round.backspace().wf(),
        round.backspace().units.len() == round.units.len(),
        round.backspace().mistakes == round.mistakes,
        !round.backspace().is_error,
        forall|i: int|
            0 <= i < round.units.len() ==> {
                &&& (#[trigger] round.backspace().units[i]).assumed == round.units[i].assumed
                &&& round.backspace().units[i].patterns == round.units[i].patterns
                &&& round.backspace().units[i].kana == round.units[i].kana
            },
{
}

/// One round of typing: the units of the phrase, the cursor, the error flag,
/// the mistake counter, and the time of the first keystroke.
pub struct RoundState {
    char_states: Vec<CharState>,
    current_char_index: usize,
    is_error: bool,
    current_misses: u32,
    start_time: Option<Instant>,
}

impl View for RoundState {
    type V = RoundView;

    closed spec fn view(&self) -> RoundView {
        RoundView {
            units: units_view(self.char_states@),
            cursor: self.current_char_index as int,
            is_error: self.is_error,
            mistakes: self.current_misses as int,
        }
    }
}

impl RoundState {
    /// The round's model is well-formed.
    pub open spec fn wf(&self) -> bool {
        self@.wf()
    }

    /// The clock reading taken at the first keystroke of the round, if any
    /// keystroke has arrived.
    pub closed spec fn start_time(&self) -> Option<Instant> {
        self.start_time
    }

    /// A round over the units of `text`, at its start and with the clock not
    /// yet running.
    pub fn new(text: &str, dict: &PatternDictionary) -> (round: Self)
        requires
            dict.wf(),
        ensures
            round.wf(),
            round@ == RoundView::start(segment(text@, dict@)),
            round.start_time() is None,
    {
        let units = parse_hiragana(text, dict);
        proof {
            lemma_segment_units_fresh(text@, dict@, 0);
        }
        RoundState {
            char_states: units,
            current_char_index: 0,
            is_error: false,
            current_misses: 0,
            start_time: None,
        }
    }

    /// Starts over on the units of `text`: cursor on the first unit, no
    /// error, no mistakes. The clock is left as it is.
    pub fn load_current_question(&mut self, text: &str, dict: &PatternDictionary)
        requires
            dict.wf(),
        ensures
            final(self).wf(),
            final(self)@ == RoundView::start(segment(text@, dict@)),
            final(self).start_time() == old(self).start_time(),
    {
        let units = parse_hiragana(text, dict);
        proof {
            lemma_segment_units_fresh(text@, dict@, 0);
        }
        self.char_states = units;
        self.current_char_index = 0;
        self.is_error = false;
        self.current_misses = 0;
    }

    /// Ends the round and starts the next one on the units of `text`, with
    /// the clock stopped.
    pub fn next_question(&mut self, text: &str, dict: &PatternDictionary)
        requires
            dict.wf(),
        ensures
            final(self).wf(),
            final(self)@ == RoundView::start(segment(text@, dict@)),
            final(self).start_time() is None,
    {
        self.load_current_question(text, dict);
        self.start_time = None;
    }

    /// Starts the round over on the units it has: every unit back on its
    /// first candidate with nothing confirmed, cursor on the first unit, no
    /// error, no mistakes. The clock is left as it is.
    pub fn restart(&mut self)
        requires
            old(self).wf(),
        ensures
            final(self).wf(),
            final(self)@ == RoundView::start(restarted(old(self)@.units)),
            final(self).start_time() == old(self).start_time(),
    {
        let n = self.char_states.len();
        let mut i: usize = 0;
        while i < n
            invariant
                i <= n,
                n == self.char_states@.len(),
                n == old(self)@.units.len(),
                self.start_time == old(self).start_time,
                units_wf(self@.units),
                forall|k: int|
                    0 <= k < i ==> (#[trigger] self@.units[k]) == restarted(old(self)@.units)[k],
                forall|k: int| i <= k < n ==> (#[trigger] self@.units[k]) == old(self)@.units[k],
            decreases n - i,
        {
            let ghost before = self@.units;
            assert(before[i as int].wf());
            self.char_states[i].reset();
            assert(self@.units =~= before.update(i as int, restarted(old(self)@.units)[i as int]));
            i = i + 1;
        }
        self.current_char_index = 0;
        self.is_error = false;
        self.current_misses = 0;
        assert(self@.units =~= restarted(old(self)@.units));
    }

    /// The typing units, in order.
    pub fn char_states(&self) -> (units: &Vec<CharState>)
        ensures
            units_view(units@) == self@.units,
    {
        &self.char_states
    }

    /// The index of the unit being typed; the unit count once the phrase is
    /// complete.
    pub fn current_char_index(&self) -> (cursor: usize)
        ensures
            cursor == self@.cursor,
    {
        self.current_char_index
    }

    /// Whether the most recent keystroke advanced no unit.
    pub fn is_error(&self) -> (flag: bool)
        ensures
            flag == self@.is_error,
    {
        self.is_error
    }

    /// How many keystrokes have been rejected in this round.
    pub fn current_misses(&self) -> (misses: u32)
        ensures
            misses == self@.mistakes,
    {
        self.current_misses
    }

    /// Whether the whole phrase is typed.
    pub fn is_question_complete(&self) -> (complete: bool)
        ensures
            complete == self@.is_complete(),
    {
        self.current_char_index >= self.char_states.len()
    }

    /// Whether a keystroke has arrived in this round.
    pub fn is_started(&self) -> (started: bool)
        ensures
            started == self.start_time() is Some,
    {
        self.start_time.is_some()
    }

    /// The time since the first keystroke of the round, or `None` if no
    /// keystroke has arrived. The duration is whatever the clock says.
    pub fn elapsed(&self) -> (elapsed: Option<Duration>)
        ensures
            elapsed is Some <==> self.start_time() is Some,
    {
        match &self.start_time {
            Some(start) => Some(start.elapsed()),
            None => None,
        }
    }

    /// The sum of the lengths of the assumed candidates, or `None` if the sum
    /// does not fit in a `usize`.
    pub fn total_chars(&self) -> (total: Option<usize>)
        requires
            self.wf(),
        ensures
            match total {
                Some(n) => n == self@.total_chars(),
                None => self@.total_chars() > usize::MAX,
            },
    {
        let n = self.char_states.len();
        let mut sum: usize = 0;
        let mut i: usize = 0;
        while i < n
            invariant
                i <= n,
                n == self.char_states@.len(),
                self.wf(),
                sum == assumed_chars(self@.units.take(i as int)),
            decreases n - i,
        {
            assert(self@.units[i as int].wf());
            let len = self.char_states[i].current_len();
            proof {
                let next = self@.units.take(i + 1);
                assert(next.drop_last() =~= self@.units.take(i as int));
                lemma_assumed_chars_monotone(self@.units, i + 1);
            }
            match sum.checked_add(len) {
                Some(s) => {
                    sum = s;
                },
                None => {
                    return None;
                },
            }
            i = i + 1;
        }
        assert(self@.units.take(n as int) =~= self@.units);
        Some(sum)
    }

    /// Takes the keystroke `c`, with `now` as the current clock reading.
    ///
    /// The first keystroke of a round starts the clock at `now`; later ones
    /// leave it alone. The typing state changes as [`RoundView::key`] says.
    pub fn handle_char_input_at(&mut self, c: char, now: Instant)
        requires
            old(self).wf(),
            old(self)@.mistakes < u32::MAX,
        ensures
            final(self).wf(),
            final(self)@ == old(self)@.key(c),
            final(self).start_time() == match old(self).start_time() {
                Some(start) => Some(start),
                None => Some(now),
            },
    {
        if self.start_time.is_none() {
            self.start_time = Some(now);
        }
        if self.current_char_index >= self.char_states.len() {
            return;
        }
        let idx = self.current_char_index;
        proof {
            lemma_key_preserves_wf(old(self)@, c);
        }
        if self.char_states[idx].accept(c) {
            self.is_error = false;
            if self.char_states[idx].is_complete() {
                self.current_char_index = idx + 1;
            }
            assert(self@.units =~= old(self)@.units.update(
                idx as int,
                old(self)@.units[idx as int].accept(c)->0,
            ));
        } else {
            self.is_error = true;
            self.current_misses = self.current_misses + 1;
            assert(self@.units =~= old(self)@.units);
        }
    }

    /// Takes the keystroke `c`, reading the clock if this is the first
    /// keystroke of the round.
    pub fn handle_char_input(&mut self, c: char)
        requires
            old(self).wf(),
            old(self)@.mistakes < u32::MAX,
        ensures
            final(self).wf(),
            final(self)@ == old(self)@.key(c),
            final(self).start_time() is Some,
            old(self).start_time() is Some ==> final(self).start_time() == old(self).start_time(),
    {
        let now = match self.start_time {
            Some(start) => start,
            None => Instant::now(),
        };
        self.handle_char_input_at(c, now);
    }

    /// Takes one backspace. The typing state changes as
    /// [`RoundView::backspace`] says; the clock is left alone.
    pub fn handle_backspace(&mut self)
        requires
            old(self).wf(),
        ensures
            final(self).wf(),
            final(self)@ == old(self)@.backspace(),
            final(self).start_time() == old(self).start_time(),
    {
        proof {
            lemma_backspace_preserves_wf(old(self)@);
        }
        let n = self.char_states.len();
        if self.current_char_index >= n && self.current_char_index > 0 {
            self.current_char_index = self.current_char_index - 1;
        }
        if self.current_char_index < n {
            let idx = self.current_char_index;
            if self.char_states[idx].typed_count() > 0 {
                self.char_states[idx].retreat();
                assert(self@.units =~= old(self)@.units.update(
                    idx as int,
                    old(self)@.units[idx as int].retreated(),
                ));
            } else if idx > 0 {
                self.current_char_index = idx - 1;
                self.char_states[idx - 1].reopen();
                assert(self@.units =~= old(self)@.units.update(
                    idx - 1,
                    old(self)@.units[idx - 1].reopened(),
                ));
            }
        }
        self.is_error = false;
    }
}

} // verus!
