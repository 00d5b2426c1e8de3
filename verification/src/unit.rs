//! One typing unit and the matcher that runs on it.
//!
//! A unit is a chunk of kana together with every romanization accepted for
//! it. The matcher tracks which romanization is currently assumed and how
//! many of its characters have been confirmed.

use crate::dictionary::{strings_view, valid_patterns};
use vstd::prelude::*;
use vstd::string::*;

verus! {

/// The mathematical model of a typing unit.
pub struct UnitView {
    /// The kana text the unit stands for; kept for display only.
    pub kana: Seq<char>,
    /// The candidate romanizations, in order of preference.
    pub patterns: Seq<Seq<char>>,
    /// The index of the candidate currently assumed.
    pub assumed: int,
    /// How many characters of the assumed candidate are confirmed.
    pub typed: int,
}

impl UnitView {
    /// A unit on which nothing has been typed yet.
    pub open spec fn fresh(kana: Seq<char>, patterns: Seq<Seq<char>>) -> UnitView {
        UnitView { kana, patterns, assumed: 0, typed: 0 }
    }

    /// The candidate list is valid, the assumed index points into it, and the
    /// confirmed count does not exceed the assumed candidate's length.
    pub open spec fn wf(self) -> bool {
        &&& valid_patterns(self.patterns)
        &&& 0 <= self.assumed < self.patterns.len()
        &&& 0 <= self.typed <= self.current().len()
    }

    /// The assumed candidate.
    pub open spec fn current(self) -> Seq<char> {
        self.patterns[self.assumed]
    }

    /// Every character of the assumed candidate is confirmed.
    pub open spec fn is_complete(self) -> bool {
        self.typed >= self.current().len()
    }

    /// The next character of the assumed candidate, if any is left.
    pub open spec fn expected(self) -> Option<char> {
        if 0 <= self.typed < self.current().len() {
            Some(self.current()[self.typed])
        } else {
            None
        }
    }

    /// The confirmed part of the assumed candidate.
    pub open spec fn typed_prefix(self) -> Seq<char> {
        self.current().take(self.typed)
    }

    /// The part of the assumed candidate that is still to be typed.
    pub open spec fn remaining(self) -> Seq<char> {
        self.current().skip(self.typed)
    }

    /// The unit with one more character confirmed.
    pub open spec fn advanced(self) -> UnitView {
        UnitView { typed: self.typed + 1, ..self }
    }

    /// Candidate `i` is another candidate that agrees with everything
    /// confirmed so far and continues with `c`.
    pub open spec fn can_switch_to(self, i: int, c: char) -> bool {
        &&& 0 <= i < self.patterns.len()
        &&& i != self.assumed
        &&& 0 <= self.typed < self.patterns[i].len()
        &&& self.patterns[i].take(self.typed) == self.typed_prefix()
        &&& self.patterns[i][self.typed] == c
    }

    /// The first candidate at index `from` or later to which the unit can
    /// switch on `c`.
    pub open spec fn first_switch(self, c: char, from: int) -> Option<int>
        decreases self.patterns.len() - from,
    {
        if from >= self.patterns.len() {
            None
        } else if self.can_switch_to(from, c) {
            Some(from)
        } else {
            self.first_switch(c, from + 1)
        }
    }

    /// The unit after switching to candidate `i` and confirming one more
    /// character.
    pub open spec fn switched(self, i: int) -> UnitView {
        UnitView { assumed: i, typed: self.typed + 1, ..self }
    }

    /// The unit after the keystroke `c`, or `None` if the keystroke fits
    /// neither the assumed candidate nor any alternate.
    pub open spec fn accept(self, c: char) -> Option<UnitView> {
        if self.expected() == Some(c) {
            Some(self.advanced())
        } else {
            match self.first_switch(c, 0) {
                Some(i) => Some(self.switched(i)),
                None => None,
            }
        }
    }

    /// The unit with one confirmed character taken back, if there is one.
    pub open spec fn retreated(self) -> UnitView {
        if self.typed > 0 {
            UnitView { typed: self.typed - 1, ..self }
        } else {
            self
        }
    }

    /// The unit re-opened at the last character of its assumed candidate.
    pub open spec fn reopened(self) -> UnitView {
        UnitView {
            typed: if self.current().len() > 0 {
                self.current().len() - 1
            } else {
                0
            },
            ..self
        }
    }
}

/// `first_switch` finds the least index that qualifies, and finds one
/// whenever any index qualifies.
pub proof fn lemma_first_switch_is_least(unit: UnitView, c: char, from: int)
    requires
        0 <= from,
    ensures
        match unit.first_switch(c, from) {
            Some(i) => {
                &&& from <= i < unit.patterns.len()
                &&& unit.can_switch_to(i, c)
                &&& forall|j: int| from <= j < i ==> !unit.can_switch_to(j, c)
            },
            None => forall|j: int| from <= j ==> !unit.can_switch_to(j, c),
        },
    decreases unit.patterns.len() - from,
{
    if from < unit.patterns.len() && !unit.can_switch_to(from, c) {
        lemma_first_switch_is_least(unit, c, from + 1);
    }
}

/// A keystroke that is accepted keeps a well-formed unit well-formed, keeps
/// its kana and candidates, and confirms exactly one more character.
pub proof fn lemma_accept_preserves_wf(unit: UnitView, c: char)
    requires
        unit.wf(),
        unit.accept(c) is Some,
    ensures
        unit.accept(c)->0.wf(),
        unit.accept(c)->0.kana == unit.kana,
        unit.accept(c)->0.patterns == unit.patterns,
        unit.accept(c)->0.typed == unit.typed + 1,
{
    if unit.expected() != Some(c) {
        lemma_first_switch_is_least(unit, c, 0);
    }
}

/// Whether the first `n` characters of `a` and `b` agree.
fn shares_prefix(a: &str, b: &str, n: usize) -> (r: bool)
    requires
        n <= a@.len(),
        n <= b@.len(),
    ensures
        r == (a@.take(n as int) == b@.take(n as int)),
{
    let mut i: usize = 0;
    while i < n
        invariant
            i <= n,
            n <= a@.len(),
            n <= b@.len(),
            forall|k: int| 0 <= k < i ==> a@[k] == b@[k],
        decreases n - i,
    {
        if a.get_char(i) != b.get_char(i) {
            assert(a@.take(n as int)[i as int] != b@.take(n as int)[i as int]);
            return false;
        }
        i = i + 1;
    }
    assert(a@.take(n as int) =~= b@.take(n as int));
    true
}

/// A typing unit: its kana, its candidate romanizations, and the matcher's
/// progress on it.
#[derive(Debug, Clone)]
pub struct CharState {
    hiragana: String,
    patterns: Vec<String>,
    current_pattern_idx: usize,
    typed_count: usize,
}

impl View for CharState {
    type V = UnitView;

    closed spec fn view(&self) -> UnitView {
        UnitView {
            kana: self.hiragana@,
            patterns: strings_view(self.patterns@),
            assumed: self.current_pattern_idx as int,
            typed: self.typed_count as int,
        }
    }
}

/// The models of a list of units, in the same order.
pub open spec fn units_view(units: Seq<CharState>) -> Seq<UnitView> {
    Seq::new(units.len(), |i: int| units[i]@)
}

/// Every unit of the list is well-formed.
pub open spec fn units_wf(units: Seq<UnitView>) -> bool {
    forall|i: int| 0 <= i < units.len() ==> (#[trigger] units[i]).wf()
}

impl CharState {
    /// The unit's model is well-formed.
    pub open spec fn wf(&self) -> bool {
        self@.wf()
    }

    /// A unit for `hiragana` with the given candidates, nothing typed yet and
    /// the first candidate assumed.
    pub fn new(hiragana: String, patterns: Vec<String>) -> (unit: Self)
        requires
            valid_patterns(strings_view(patterns@)),
        ensures
            unit@ == UnitView::fresh(hiragana@, strings_view(patterns@)),
            unit.wf(),
    {
        CharState { hiragana, patterns, current_pattern_idx: 0, typed_count: 0 }
    }

    /// The kana text of the unit.
    pub fn hiragana(&self) -> (r: &str)
        ensures
            r@ == self@.kana,
    {
        self.hiragana.as_str()
    }

    /// The candidate romanizations, in order.
    pub fn patterns(&self) -> (r: &Vec<String>)
        ensures
            strings_view(r@) == self@.patterns,
    {
        &self.patterns
    }

    /// The index of the assumed candidate.
    pub fn current_pattern_idx(&self) -> (r: usize)
        ensures
            r == self@.assumed,
    {
        self.current_pattern_idx
    }

    /// The number of confirmed characters.
    pub fn typed_count(&self) -> (r: usize)
        ensures
            r == self@.typed,
    {
        self.typed_count
    }

    /// The assumed candidate.
    pub fn current_pattern(&self) -> (r: &str)
        requires
            self.wf(),
        ensures
            r@ == self@.current(),
    {
        self.patterns[self.current_pattern_idx].as_str()
    }

    /// The length of the assumed candidate, in characters.
    pub fn current_len(&self) -> (r: usize)
        requires
            self.wf(),
        ensures
            r == self@.current().len(),
    {
        self.current_pattern().unicode_len()
    }

    /// Whether every character of the assumed candidate is confirmed.
    pub fn is_complete(&self) -> (r: bool)
        requires
            self.wf(),
        ensures
            r == self@.is_complete(),
    {
        self.typed_count >= self.current_len()
    }

    /// The confirmed part of the assumed candidate.
    pub fn typed(&self) -> (r: &str)
        requires
            self.wf(),
        ensures
            r@ == self@.typed_prefix(),
    {
        self.current_pattern().substring_char(0, self.typed_count)
    }

    /// The part of the assumed candidate that is still to be typed.
    pub fn remaining(&self) -> (r: &str)
        requires
            self.wf(),
        ensures
            r@ == self@.remaining(),
    {
        let pattern = self.current_pattern();
        pattern.substring_char(self.typed_count, pattern.unicode_len())
    }

    /// The next character of the assumed candidate, or `None` if the unit is
    /// complete.
    pub fn expected_char(&self) -> (r: Option<char>)
        requires
            self.wf(),
        ensures
            r == self@.expected(),
    {
        let pattern = self.current_pattern();
        if self.typed_count < pattern.unicode_len() {
            Some(pattern.get_char(self.typed_count))
        } else {
            None
        }
    }

    /// Confirms `c` if it is the expected character; otherwise leaves the
    /// unit untouched.
    pub fn try_advance(&mut self, c: char) -> (advanced: bool)
        requires
            old(self).wf(),
        ensures
            final(self).wf(),
            advanced == (old(self)@.expected() == Some(c)),
            advanced ==> final(self)@ == old(self)@.advanced(),
            !advanced ==> final(self)@ == old(self)@,
    {
        match self.expected_char() {
            Some(e) => {
                if e == c {
                    self.typed_count = self.typed_count + 1;
                    true
                } else {
                    false
                }
            },
            None => false,
        }
    }

    /// Whether the unit can switch to candidate `i` on the keystroke `c`.
    fn can_switch_to(&self, i: usize, c: char) -> (r: bool)
        requires
            self.wf(),
            i < self@.patterns.len(),
        ensures
            r == self@.can_switch_to(i as int, c),
    {
        if i == self.current_pattern_idx {
            return false;
        }
        let candidate = self.patterns[i].as_str();
        if self.typed_count >= candidate.unicode_len() {
            return false;
        }
        if !shares_prefix(candidate, self.current_pattern(), self.typed_count) {
            return false;
        }
        candidate.get_char(self.typed_count) == c
    }

    /// Switches to the first other candidate that agrees with everything
    /// confirmed so far and continues with `c`, and confirms `c` on it. If
    /// there is no such candidate the unit is left untouched.
    pub fn try_switch(&mut self, c: char) -> (switched: bool)
        requires
            old(self).wf(),
        ensures
            final(self).wf(),
            match old(self)@.first_switch(c, 0) {
                Some(i) => switched && final(self)@ == old(self)@.switched(i),
                None => !switched && final(self)@ == old(self)@,
            },
    {
        let n = self.patterns.len();
        let mut i: usize = 0;
        while i < n
            invariant
                i <= n,
                n == self@.patterns.len(),
                *self == *old(self),
                self.wf(),
                self@.first_switch(c, 0) == self@.first_switch(c, i as int),
            decreases n - i,
        {
            if self.can_switch_to(i, c) {
                self.current_pattern_idx = i;
                self.typed_count = self.typed_count + 1;
                return true;
            }
            i = i + 1;
        }
        false
    }

    /// Takes the keystroke `c`: confirms it on the assumed candidate if it
    /// fits, else on the first alternate that fits. Returns whether the
    /// keystroke was accepted.
    pub fn accept(&mut self, c: char) -> (accepted: bool)
        requires
            old(self).wf(),
        ensures
            final(self).wf(),
            match old(self)@.accept(c) {
                Some(unit) => accepted && final(self)@ == unit,
                None => !accepted && final(self)@ == old(self)@,
            },
    {
        if self.try_advance(c) {
            true
        } else {
            self.try_switch(c)
        }
    }

    /// Takes back one confirmed character, if there is one. The assumed
    /// candidate stays as it is.
    pub fn retreat(&mut self)
        requires
            old(self).wf(),
        ensures
            final(self).wf(),
            final(self)@ == old(self)@.retreated(),
    {
        if self.typed_count > 0 {
            self.typed_count = self.typed_count - 1;
        }
    }

    /// Re-opens the unit at the last character of its assumed candidate.
    pub fn reopen(&mut self)
        requires
            old(self).wf(),
        ensures
            final(self).wf(),
            final(self)@ == old(self)@.reopened(),
    {
        let n = self.current_len();
        self.typed_count = if n > 0 {
            n - 1
        } else {
            0
        };
    }

    /// Forgets all progress: nothing typed, first candidate assumed.
    pub fn reset(&mut self)
        requires
            old(self).wf(),
        ensures
            final(self).wf(),
            final(self)@ == UnitView::fresh(old(self)@.kana, old(self)@.patterns),
    {
        self.current_pattern_idx = 0;
        self.typed_count = 0;
    }
}

} // verus!
