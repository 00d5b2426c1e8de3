//! What holds of every round: theorems about sequences of keystrokes and
//! backspaces, stated over the models of [`crate::round`].

use crate::dictionary::dictionary_wf;
use crate::round::{
    assumed_chars, lemma_backspace_preserves_wf, lemma_key_preserves_wf, typed_chars, RoundView,
};
use crate::segment::{lemma_segment_units_fresh, segment};
use crate::unit::{lemma_accept_preserves_wf, units_wf, UnitView};
use vstd::prelude::*;

verus! {

/// The round after the keystrokes `keys`, taken one at a time in order.
pub open spec fn run(round: RoundView, keys: Seq<char>) -> RoundView
    decreases keys.len(),
{
    if keys.len() == 0 {
        round
    } else {
        run(round.key(keys[0]), keys.skip(1))
    }
}

/// The round after `n` backspaces.
pub open spec fn undo(round: RoundView, n: nat) -> RoundView
    decreases n,
{
    if n == 0 {
        round
    } else {
        undo(round.backspace(), (n - 1) as nat)
    }
}

/// Every keystroke of `keys` is accepted when its turn comes.
pub open spec fn all_accepted(round: RoundView, keys: Seq<char>) -> bool
    decreases keys.len(),
{
    keys.len() == 0 || (round.accepts(keys[0]) && all_accepted(round.key(keys[0]), keys.skip(1)))
}

/// How many keystrokes of `keys` are accepted when their turn comes.
pub open spec fn accepted_count(round: RoundView, keys: Seq<char>) -> nat
    decreases keys.len(),
{
    if keys.len() == 0 {
        0
    } else {
        let rest = accepted_count(round.key(keys[0]), keys.skip(1));
        if round.accepts(keys[0]) {
            rest + 1
        } else {
            rest
        }
    }
}

/// How many keystrokes of `keys` are rejected when their turn comes. A
/// keystroke that arrives after the phrase is complete is neither accepted
/// nor rejected.
pub open spec fn rejected_count(round: RoundView, keys: Seq<char>) -> nat
    decreases keys.len(),
{
    if keys.len() == 0 {
        0
    } else {
        let rest = rejected_count(round.key(keys[0]), keys.skip(1));
        if !round.is_complete() && !round.accepts(keys[0]) {
            rest + 1
        } else {
            rest
        }
    }
}

/// The keystroke `c` is the next character of the assumed candidate of the
/// unit under the cursor.
pub open spec fn expects(round: RoundView, c: char) -> bool {
    !round.is_complete() && round.units[round.cursor].expected() == Some(c)
}

/// Every keystroke of `keys` is, when its turn comes, the next character of
/// the candidate assumed at that moment: no keystroke is rejected and none
/// makes a unit switch candidates.
pub open spec fn all_expected(round: RoundView, keys: Seq<char>) -> bool
    decreases keys.len(),
{
    keys.len() == 0 || (expects(round, keys[0]) && all_expected(round.key(keys[0]), keys.skip(1)))
}

/// What is left to type from unit `from` on: the untyped rest of each
/// unit's assumed candidate, joined in order.
pub open spec fn pending_from(units: Seq<UnitView>, from: int) -> Seq<char>
    decreases units.len() - from,
{
    if from < 0 || from >= units.len() {
        Seq::empty()
    } else {
        units[from].remaining() + pending_from(units, from + 1)
    }
}

/// What is left to type in the round.
pub open spec fn pending(round: RoundView) -> Seq<char> {
    pending_from(round.units, round.cursor)
}

/// The assumed candidates of all units, joined in order.
pub open spec fn assumed_text(units: Seq<UnitView>) -> Seq<char>
    decreases units.len(),
{
    if units.len() == 0 {
        Seq::empty()
    } else {
        units[0].current() + assumed_text(units.skip(1))
    }
}

/// The units with every assumed candidate fully confirmed.
pub open spec fn all_confirmed(units: Seq<UnitView>) -> Seq<UnitView> {
    Seq::new(units.len(), |i: int| UnitView { typed: units[i].current().len() as int, ..units[i] })
}

/// The units with nothing confirmed.
pub open spec fn none_confirmed(units: Seq<UnitView>) -> Seq<UnitView> {
    Seq::new(units.len(), |i: int| UnitView { typed: 0, ..units[i] })
}

/// The round is as it is before the first keystroke: cursor on the first
/// unit, nothing confirmed, every unit on its first candidate, and the error
/// flag down.
pub open spec fn is_pristine(round: RoundView) -> bool {
    &&& round.cursor == 0
    &&& !round.is_error
    &&& forall|i: int|
        0 <= i < round.units.len() ==> (#[trigger] round.units[i]).typed == 0
            && round.units[i].assumed == 0
}

/// `pending_from` looks only at the units from `from` on.
proof fn lemma_pending_frame(a: Seq<UnitView>, b: Seq<UnitView>, from: int)
    requires
        a.len() == b.len(),
        forall|i: int| from <= i < a.len() ==> a[i] == b[i],
    ensures
        pending_from(a, from) == pending_from(b, from),
    decreases a.len() - from,
{
    if 0 <= from < a.len() {
        lemma_pending_frame(a, b, from + 1);
    }
}

/// Of untouched units, what is left to type is the whole assumed text.
proof fn lemma_pending_of_untouched(units: Seq<UnitView>, from: int)
    requires
        0 <= from <= units.len(),
        forall|i: int| from <= i < units.len() ==> (#[trigger] units[i]).typed == 0,
    ensures
        pending_from(units, from) == assumed_text(units.skip(from)),
    decreases units.len() - from,
{
    if from < units.len() {
        lemma_pending_of_untouched(units, from + 1);
        assert(units.skip(from).skip(1) =~= units.skip(from + 1));
    }
}

/// A run of keystrokes keeps a well-formed round well-formed, keeps the
/// number of units, and never lowers the mistake counter.
pub proof fn lemma_run_preserves_wf(round: RoundView, keys: Seq<char>)
    requires
        round.wf(),
    ensures
        run(round, keys).wf(),
        run(round, keys).units.len() == round.units.len(),
        run(round, keys).mistakes >= round.mistakes,
    decreases keys.len(),
{
    if keys.len() > 0 {
        lemma_key_preserves_wf(round, keys[0]);
        lemma_run_preserves_wf(round.key(keys[0]), keys.skip(1));
    }
}

/// A rejected keystroke raises the error flag and the mistake counter and
/// leaves units and cursor alone; the accepted keystroke that follows clears
/// the flag and leaves the counter where the rejection put it.
pub proof fn lemma_mistake_is_kept(round: RoundView, wrong: char, right: char)
    requires
        round.wf(),
        !round.is_complete(),
        !round.accepts(wrong),
        round.accepts(right),
    ensures
        round.key(wrong).is_error,
        round.key(wrong).mistakes == round.mistakes + 1,
        round.key(wrong).units == round.units,
        round.key(wrong).cursor == round.cursor,
        !round.key(wrong).key(right).is_error,
        round.key(wrong).key(right).mistakes == round.mistakes + 1,
        round.key(wrong).key(right).units == round.key(right).units,
        round.key(wrong).key(right).cursor == round.key(right).cursor,
{
}

/// Typing what is left of every assumed candidate, in order and without a
/// mistake, completes the round: every unit ends fully confirmed on the
/// candidate it assumed before, and the mistake counter does not move.
pub proof fn lemma_typing_pending_completes(round: RoundView)
    requires
        round.wf(),
    ensures
        all_expected(round, pending(round)),
        run(round, pending(round)).is_complete(),
        run(round, pending(round)).wf(),
        run(round, pending(round)).cursor == round.units.len(),
        run(round, pending(round)).units == all_confirmed(round.units),
        run(round, pending(round)).mistakes == round.mistakes,
        pending(round).len() > 0 ==> !run(round, pending(round)).is_error,
        pending(round).len() == 0 ==> run(round, pending(round)) == round,
    decreases pending(round).len(),
{
    if round.cursor < round.units.len() {
        // The first pending character is the one the unit under the cursor
        // expects, so the keystroke advances that unit.
        let keys = pending(round);
        let next = round.key(keys[0]);
        lemma_key_preserves_wf(round, keys[0]);
        // What is pending afterwards is what was pending, less that
        // character: the later units are as they were.
        lemma_pending_frame(next.units, round.units, round.cursor + 1);
        assert(pending(next) == keys.skip(1));
        lemma_typing_pending_completes(next);
    }
}

/// Typing the full assumed romanization of every unit, in order, takes a
/// round from its start to completion with no mistake counted.
pub proof fn lemma_typing_assumed_text_completes(units: Seq<UnitView>)
    requires
        units_wf(units),
        forall|i: int| 0 <= i < units.len() ==> (#[trigger] units[i]).typed == 0,
    ensures
        RoundView::start(units).wf(),
        all_expected(RoundView::start(units), assumed_text(units)),
        run(RoundView::start(units), assumed_text(units)).wf(),
        run(RoundView::start(units), assumed_text(units)).is_complete(),
        run(RoundView::start(units), assumed_text(units)).mistakes == 0,
        run(RoundView::start(units), assumed_text(units)).units == all_confirmed(units),
        !run(RoundView::start(units), assumed_text(units)).is_error,
{
    lemma_pending_of_untouched(units, 0);
    assert(units.skip(0) =~= units);
    lemma_typing_pending_completes(RoundView::start(units));
}

/// The round over the empty phrase has no units and is complete from the
/// start, with no characters to confirm and no mistakes.
pub proof fn lemma_empty_phrase_is_complete(dict: Map<Seq<char>, Seq<Seq<char>>>)
    ensures
        segment(Seq::<char>::empty(), dict) == Seq::<UnitView>::empty(),
        RoundView::start(segment(Seq::<char>::empty(), dict)).wf(),
        RoundView::start(segment(Seq::<char>::empty(), dict)).is_complete(),
        RoundView::start(segment(Seq::<char>::empty(), dict)).total_chars() == 0,
        RoundView::start(segment(Seq::<char>::empty(), dict)).mistakes == 0,
{
}

/// A backspace with the cursor on the first unit and nothing confirmed on it
/// changes nothing but the error flag, which it clears.
pub proof fn lemma_backspace_at_start_changes_nothing(round: RoundView)
    requires
        round.wf(),
        round.cursor == 0,
        round.units.len() > 0 ==> round.units[0].typed == 0,
    ensures
        round.backspace() == (RoundView { is_error: false, ..round }),
{
}

/// Every phrase can be typed: the round over the units of `text` is
/// well-formed at its start, and typing the first romanization of every
/// unit in order completes it with no mistake counted.
pub proof fn lemma_segmented_round_can_be_completed(
    text: Seq<char>,
    dict: Map<Seq<char>, Seq<Seq<char>>>,
)
    requires
        dictionary_wf(dict),
    ensures
        RoundView::start(segment(text, dict)).wf(),
        is_pristine(RoundView::start(segment(text, dict))),
        run(
            RoundView::start(segment(text, dict)),
            assumed_text(segment(text, dict)),
        ).is_complete(),
        run(RoundView::start(segment(text, dict)), assumed_text(segment(text, dict))).mistakes
            == 0,
{
    lemma_segment_units_fresh(text, dict, 0);
    lemma_typing_assumed_text_completes(segment(text, dict));
}

/// Once a round is complete, the characters confirmed are exactly the
/// characters of the assumed candidates.
pub proof fn lemma_complete_round_is_fully_typed(round: RoundView)
    requires
        round.wf(),
        round.is_complete(),
    ensures
        typed_chars(round.units) == round.total_chars(),
{
    lemma_typed_equals_assumed(round.units);
}

/// Where every unit is fully confirmed, the two sums agree.
proof fn lemma_typed_equals_assumed(units: Seq<UnitView>)
    requires
        forall|i: int|
            0 <= i < units.len() ==> (#[trigger] units[i]).typed == units[i].current().len(),
    ensures
        typed_chars(units) == assumed_chars(units),
    decreases units.len(),
{
    if units.len() > 0 {
        lemma_typed_equals_assumed(units.drop_last());
    }
}

/// Replacing one unit changes the sum of confirmed counts by the difference
/// of that unit's count.
proof fn lemma_typed_chars_update(units: Seq<UnitView>, i: int, unit: UnitView)
    requires
        0 <= i < units.len(),
    ensures
        typed_chars(units.update(i, unit)) == typed_chars(units) - units[i].typed + unit.typed,
    decreases units.len(),
{
    let updated = units.update(i, unit);
    if i == units.len() - 1 {
        assert(updated.drop_last() =~= units.drop_last());
    } else {
        assert(updated.drop_last() =~= units.drop_last().update(i, unit));
        lemma_typed_chars_update(units.drop_last(), i, unit);
    }
}

/// In a list of well-formed units the sum of confirmed counts is at least
/// the count of any single unit, and not negative.
proof fn lemma_typed_chars_bounds(units: Seq<UnitView>, i: int)
    requires
        forall|k: int| 0 <= k < units.len() ==> (#[trigger] units[k]).typed >= 0,
        0 <= i < units.len(),
    ensures
        typed_chars(units) >= units[i].typed,
        typed_chars(units) >= 0,
    decreases units.len(),
{
    lemma_typed_chars_nonnegative(units.drop_last());
    if i < units.len() - 1 {
        lemma_typed_chars_bounds(units.drop_last(), i);
    }
}

/// A sum of confirmed counts that are not negative is not negative.
proof fn lemma_typed_chars_nonnegative(units: Seq<UnitView>)
    requires
        forall|k: int| 0 <= k < units.len() ==> (#[trigger] units[k]).typed >= 0,
    ensures
        typed_chars(units) >= 0,
    decreases units.len(),
{
    if units.len() > 0 {
        lemma_typed_chars_nonnegative(units.drop_last());
    }
}

/// Where nothing is confirmed the sum of confirmed counts is zero.
proof fn lemma_typed_chars_zero(units: Seq<UnitView>)
    requires
        forall|k: int| 0 <= k < units.len() ==> (#[trigger] units[k]).typed == 0,
    ensures
        typed_chars(units) == 0,
    decreases units.len(),
{
    if units.len() > 0 {
        lemma_typed_chars_zero(units.drop_last());
    }
}

/// An accepted keystroke confirms exactly one character and counts no
/// mistake.
pub proof fn lemma_accepted_key_types_one(round: RoundView, c: char)
    requires
        round.wf(),
        round.accepts(c),
    ensures
        typed_chars(round.key(c).units) == typed_chars(round.units) + 1,
        round.key(c).mistakes == round.mistakes,
        !round.key(c).is_error,
{
    let unit = round.units[round.cursor];
    lemma_accept_preserves_wf(unit, c);
    lemma_typed_chars_update(round.units, round.cursor, unit.accept(c)->0);
}

/// While anything is confirmed, a backspace takes back exactly one
/// character.
pub proof fn lemma_backspace_untypes_one(round: RoundView)
    requires
        round.wf(),
        typed_chars(round.units) > 0,
    ensures
        typed_chars(round.backspace().units) == typed_chars(round.units) - 1,
{
    let n = round.units.len() as int;
    if n > 0 {
        let cursor = if round.cursor >= n {
            round.cursor - 1
        } else {
            round.cursor
        };
        let unit = round.units[cursor];
        if unit.typed > 0 {
            lemma_typed_chars_update(round.units, cursor, unit.retreated());
        } else if cursor > 0 {
            // The previous unit is complete and at least one character long.
            lemma_typed_chars_update(round.units, cursor - 1, round.units[cursor - 1].reopened());
        } else {
            // Cursor on the first unit with nothing confirmed: then nothing
            // is confirmed anywhere, against the premise.
            lemma_typed_chars_zero(round.units);
        }
    }
}

/// Taking back everything that is confirmed, one backspace at a time,
/// leaves the cursor on the first unit and nothing confirmed. Each unit
/// keeps the candidate it assumed, and the mistake counter does not move.
pub proof fn lemma_undo_everything(round: RoundView)
    requires
        round.wf(),
    ensures
        typed_chars(round.units) >= 0,
        undo(round, typed_chars(round.units) as nat).wf(),
        undo(round, typed_chars(round.units) as nat).cursor == 0,
        undo(round, typed_chars(round.units) as nat).units == none_confirmed(round.units),
        undo(round, typed_chars(round.units) as nat).mistakes == round.mistakes,
        typed_chars(round.units) > 0 ==> !undo(round, typed_chars(round.units) as nat).is_error,
        typed_chars(round.units) == 0 ==> undo(round, typed_chars(round.units) as nat) == round,
    decreases typed_chars(round.units),
{
    let n = typed_chars(round.units);
    lemma_typed_chars_nonnegative(round.units);
    if n == 0 {
        // A sum of zero leaves every count at zero, and then the cursor
        // cannot have passed the first unit.
        assert forall|k: int| 0 <= k < round.units.len() implies (#[trigger] round.units[k]).typed
            == 0 by {
            lemma_typed_chars_bounds(round.units, k);
        }
        if round.cursor > 0 {
            assert(round.units[0].typed == round.units[0].current().len());
        }
    } else {
        let back = round.backspace();
        lemma_backspace_preserves_wf(round);
        lemma_backspace_untypes_one(round);
        lemma_undo_everything(back);
    }
}

/// A run of accepted keystrokes confirms one character per keystroke,
/// counts no mistake, and keeps every unit's kana and candidates.
pub proof fn lemma_accepted_run_types_all(round: RoundView, keys: Seq<char>)
    requires
        round.wf(),
        all_accepted(round, keys),
    ensures
        run(round, keys).wf(),
        run(round, keys).units.len() == round.units.len(),
        typed_chars(run(round, keys).units) == typed_chars(round.units) + keys.len(),
        run(round, keys).mistakes == round.mistakes,
        forall|i: int|
            0 <= i < round.units.len() ==> {
                &&& (#[trigger] run(round, keys).units[i]).kana == round.units[i].kana
                &&& run(round, keys).units[i].patterns == round.units[i].patterns
            },
    decreases keys.len(),
{
    if keys.len() > 0 {
        let c = keys[0];
        let next = round.key(c);
        lemma_key_preserves_wf(round, c);
        lemma_accepted_key_types_one(round, c);
        lemma_accept_preserves_wf(round.units[round.cursor], c);
        lemma_accepted_run_types_all(next, keys.skip(1));
    }
}

/// Any run of keystrokes confirms one character per accepted keystroke,
/// counts one mistake per rejected keystroke, and keeps every unit's kana
/// and candidates.
pub proof fn lemma_run_counts(round: RoundView, keys: Seq<char>)
    requires
        round.wf(),
    ensures
        run(round, keys).wf(),
        run(round, keys).units.len() == round.units.len(),
        typed_chars(run(round, keys).units) == typed_chars(round.units) + accepted_count(
            round,
            keys,
        ),
        run(round, keys).mistakes == round.mistakes + rejected_count(round, keys),
        forall|i: int|
            0 <= i < round.units.len() ==> {
                &&& (#[trigger] run(round, keys).units[i]).kana == round.units[i].kana
                &&& run(round, keys).units[i].patterns == round.units[i].patterns
            },
    decreases keys.len(),
{
    if keys.len() > 0 {
        let c = keys[0];
        lemma_key_preserves_wf(round, c);
        if round.accepts(c) {
            lemma_accepted_key_types_one(round, c);
            lemma_accept_preserves_wf(round.units[round.cursor], c);
        }
        lemma_run_counts(round.key(c), keys.skip(1));
    }
}

/// Undo after any typing: from a round in which nothing is confirmed, any
/// run of keystrokes followed by as many backspaces as keystrokes were
/// accepted leaves the cursor on the first unit and nothing confirmed.
/// Mistakes are not undone: the counter stays where the rejected keystrokes
/// put it.
pub proof fn lemma_backspaces_undo_any_run(round: RoundView, keys: Seq<char>)
    requires
        round.wf(),
        typed_chars(round.units) == 0,
    ensures
        undo(run(round, keys), accepted_count(round, keys)).wf(),
        undo(run(round, keys), accepted_count(round, keys)).cursor == 0,
        undo(run(round, keys), accepted_count(round, keys)).units == none_confirmed(
            run(round, keys).units,
        ),
        undo(run(round, keys), accepted_count(round, keys)).mistakes == round.mistakes
            + rejected_count(round, keys),
{
    lemma_run_counts(round, keys);
    lemma_undo_everything(run(round, keys));
}

/// A run of expected keystrokes is a run of accepted keystrokes in which no
/// unit switches candidates.
pub proof fn lemma_expected_run_keeps_candidates(round: RoundView, keys: Seq<char>)
    requires
        round.wf(),
        all_expected(round, keys),
    ensures
        all_accepted(round, keys),
        run(round, keys).units.len() == round.units.len(),
        forall|i: int|
            0 <= i < round.units.len() ==> (#[trigger] run(round, keys).units[i]).assumed
                == round.units[i].assumed,
    decreases keys.len(),
{
    if keys.len() > 0 {
        let c = keys[0];
        lemma_key_preserves_wf(round, c);
        lemma_expected_run_keeps_candidates(round.key(c), keys.skip(1));
    }
}

/// Undo after accepted keystrokes: from a round in which nothing is
/// confirmed, any run of accepted keystrokes followed by as many backspaces
/// leaves the cursor on the first unit, nothing confirmed, and the mistake
/// counter where it was. A unit that switched candidates while it was typed
/// keeps the candidate it switched to.
pub proof fn lemma_backspaces_undo_accepted_keys(round: RoundView, keys: Seq<char>)
    requires
        round.wf(),
        typed_chars(round.units) == 0,
        all_accepted(round, keys),
    ensures
        undo(run(round, keys), keys.len()).wf(),
        undo(run(round, keys), keys.len()).cursor == 0,
        undo(run(round, keys), keys.len()).units == none_confirmed(run(round, keys).units),
        undo(run(round, keys), keys.len()).mistakes == round.mistakes,
        keys.len() > 0 ==> !undo(run(round, keys), keys.len()).is_error,
{
    lemma_accepted_run_types_all(round, keys);
    lemma_undo_everything(run(round, keys));
}

/// Backspace symmetry: from a pristine round, any run of keystrokes that
/// are each the expected character, followed by as many backspaces, leads
/// back to exactly the round it started from: cursor on the first unit,
/// nothing confirmed, every unit on its first candidate, error flag down,
/// and the mistake counter unchanged.
pub proof fn lemma_backspace_symmetry(round: RoundView, keys: Seq<char>)
    requires
        round.wf(),
        is_pristine(round),
        all_expected(round, keys),
    ensures
        undo(run(round, keys), keys.len()) == round,
{
    lemma_typed_chars_zero(round.units);
    lemma_expected_run_keeps_candidates(round, keys);
    lemma_accepted_run_types_all(round, keys);
    lemma_undo_everything(run(round, keys));
    assert(undo(run(round, keys), keys.len()).units =~= round.units);
}

} // verus!
