//! What a round shows of itself: the assumed romanization of the phrase, cut
//! into stretches that are drawn alike.

use crate::round::{RoundState, RoundView};
use crate::unit::{units_view, CharState};
use vstd::prelude::*;
use vstd::string::*;

verus! {

/// How a stretch of romanization is drawn.
#[derive(Clone, Copy, Debug, PartialEq, Eq, Structural)]
pub enum SpanStyle {
    /// Confirmed characters.
    Typed,
    /// The character expected next.
    Next,
    /// The character expected next, after a keystroke that was rejected.
    NextError,
    /// The rest of the unit under the cursor.
    Rest,
    /// A unit that the cursor has not reached.
    Pending,
}

/// A stretch of romanization and the way it is drawn.
#[derive(Debug)]
pub struct RomajiSpan {
    /// The characters of the stretch.
    pub text: String,
    /// How they are drawn.
    pub style: SpanStyle,
}

/// The mathematical model of a [`RomajiSpan`].
pub struct SpanView {
    /// The characters of the stretch.
    pub text: Seq<char>,
    /// How they are drawn.
    pub style: SpanStyle,
}

impl View for RomajiSpan {
    type V = SpanView;

    open spec fn view(&self) -> SpanView {
        SpanView { text: self.text@, style: self.style }
    }
}

/// The models of a list of spans, in the same order.
pub open spec fn spans_view(spans: Seq<RomajiSpan>) -> Seq<SpanView> {
    Seq::new(spans.len(), |i: int| spans[i]@)
}

/// The style of the character expected next.
pub open spec fn next_style(is_error: bool) -> SpanStyle {
    if is_error {
        SpanStyle::NextError
    } else {
        SpanStyle::Next
    }
}

/// A span, unless its text is empty.
pub open spec fn span_if_any(text: Seq<char>, style: SpanStyle) -> Seq<SpanView> {
    if text.len() > 0 {
        seq![SpanView { text, style }]
    } else {
        Seq::empty()
    }
}

/// The spans of what is left of the unit under the cursor: the character
/// expected next, then the rest if there is any.
pub open spec fn cursor_spans(rest: Seq<char>, is_error: bool) -> Seq<SpanView> {
    if rest.len() > 0 {
        seq![SpanView { text: rest.take(1), style: next_style(is_error) }] + span_if_any(
            rest.skip(1),
            SpanStyle::Rest,
        )
    } else {
        Seq::empty()
    }
}

/// The spans of unit `i`.
///
/// A unit before the cursor is one span of confirmed characters, a unit
/// after it one pending span. The unit under the cursor is cut into what is
/// confirmed, the character expected next, and the rest; parts that are
/// empty are left out.
pub open spec fn unit_spans(round: RoundView, i: int) -> Seq<SpanView> {
    let unit = round.units[i];
    if i < round.cursor {
        seq![SpanView { text: unit.current(), style: SpanStyle::Typed }]
    } else if i == round.cursor {
        span_if_any(unit.typed_prefix(), SpanStyle::Typed) + cursor_spans(
            unit.remaining(),
            round.is_error,
        )
    } else {
        seq![SpanView { text: unit.current(), style: SpanStyle::Pending }]
    }
}

/// The spans of the first `n` units, in order.
pub open spec fn spans_upto(round: RoundView, n: int) -> Seq<SpanView>
    decreases n,
{
    if n <= 0 {
        Seq::empty()
    } else {
        spans_upto(round, n - 1) + unit_spans(round, n - 1)
    }
}

/// The spans of the whole phrase.
pub open spec fn spans(round: RoundView) -> Seq<SpanView> {
    spans_upto(round, round.units.len() as int)
}

/// Appends a span for the characters `from..to` of `pattern`, unless there
/// are none.
fn push_span(out: &mut Vec<RomajiSpan>, pattern: &str, from: usize, to: usize, style: SpanStyle)
    requires
        from <= to <= pattern@.len(),
    ensures
        spans_view(final(out)@) == spans_view(old(out)@) + span_if_any(
            pattern@.subrange(from as int, to as int),
            style,
        ),
{
    if from < to {
        let text = String::from_str(pattern.substring_char(from, to));
        out.push(RomajiSpan { text, style });
    }
}

/// Appends the spans of the unit under the cursor.
fn push_cursor_spans(out: &mut Vec<RomajiSpan>, unit: &CharState, is_error: bool)
    requires
        unit.wf(),
    ensures
        spans_view(final(out)@) == spans_view(old(out)@) + (span_if_any(
            unit@.typed_prefix(),
            SpanStyle::Typed,
        ) + cursor_spans(unit@.remaining(), is_error)),
{
    let pattern = unit.current_pattern();
    let len = pattern.unicode_len();
    let typed = unit.typed_count();
    let style = if is_error {
        SpanStyle::NextError
    } else {
        SpanStyle::Next
    };
    let ghost p = unit@.current();
    push_span(out, pattern, 0, typed, SpanStyle::Typed);
    if typed < len {
        assert(p.subrange(typed as int, typed + 1) =~= unit@.remaining().take(1));
        assert(p.subrange(typed + 1, len as int) =~= unit@.remaining().skip(1));
        push_span(out, pattern, typed, typed + 1, style);
        push_span(out, pattern, typed + 1, len, SpanStyle::Rest);
    }
}

/// The assumed romanization of the phrase, cut into spans: confirmed
/// characters, the character expected next (marked when the last keystroke
/// was rejected), the rest of the unit under the cursor, and the units yet
/// to come.
pub fn romaji_spans(round: &RoundState) -> (out: Vec<RomajiSpan>)
    requires
        round.wf(),
    ensures
        spans_view(out@) == spans(round@),
{
    let units = round.char_states();
    let cursor = round.current_char_index();
    let is_error = round.is_error();
    let mut out: Vec<RomajiSpan> = Vec::new();
    let mut i: usize = 0;
    while i < units.len()
        invariant
            i <= units.len(),
            round.wf(),
            units_view(units@) == round@.units,
            cursor == round@.cursor,
            is_error == round@.is_error,
            spans_view(out@) == spans_upto(round@, i as int),
        decreases units.len() - i,
    {
        let unit = &units[i];
        assert(round@.units[i as int].wf());
        if i == cursor {
            push_cursor_spans(&mut out, unit, is_error);
        } else {
            let pattern = unit.current_pattern();
            let style = if i < cursor {
                SpanStyle::Typed
            } else {
                SpanStyle::Pending
            };
            out.push(RomajiSpan { text: String::from_str(pattern), style });
        }
        i = i + 1;
    }
    out
}

} // verus!
