//! The segmenter: splits a kana phrase into typing units, always preferring
//! the longest dictionary key that matches at the current position.

use crate::dictionary::{dictionary_wf, strings_view, PatternDictionary};
use crate::unit::{units_view, units_wf, CharState, UnitView};
use vstd::prelude::*;
use vstd::string::*;

verus! {

/// The length of the longest key that matches `text` at `pos`: three, two or
/// one characters, or zero if the character at `pos` starts no key.
pub open spec fn match_len(
    text: Seq<char>,
    dict: Map<Seq<char>, Seq<Seq<char>>>,
    pos: int,
) -> int {
    if pos + 3 <= text.len() && dict.contains_key(text.subrange(pos, pos + 3)) {
        3
    } else if pos + 2 <= text.len() && dict.contains_key(text.subrange(pos, pos + 2)) {
        2
    } else if pos + 1 <= text.len() && dict.contains_key(text.subrange(pos, pos + 1)) {
        1
    } else {
        0
    }
}

/// The units of `text` from position `pos` on. At each position the longest
/// matching key becomes a unit; a character that starts no key is skipped.
pub open spec fn segment_from(
    text: Seq<char>,
    dict: Map<Seq<char>, Seq<Seq<char>>>,
    pos: int,
) -> Seq<UnitView>
    decreases text.len() - pos,
{
    if pos < 0 || pos >= text.len() {
        Seq::empty()
    } else {
        let n = match_len(text, dict, pos);
        if n == 0 {
            segment_from(text, dict, pos + 1)
        } else {
            let key = text.subrange(pos, pos + n);
            seq![UnitView::fresh(key, dict[key])] + segment_from(text, dict, pos + n)
        }
    }
}

/// The units of the whole phrase.
pub open spec fn segment(text: Seq<char>, dict: Map<Seq<char>, Seq<Seq<char>>>) -> Seq<UnitView> {
    segment_from(text, dict, 0)
}

/// The kana texts of the units, joined in order.
pub open spec fn kana_text(units: Seq<UnitView>) -> Seq<char>
    decreases units.len(),
{
    if units.len() == 0 {
        Seq::empty()
    } else {
        units[0].kana + kana_text(units.skip(1))
    }
}

/// Every single character of `text` is a key of `dict`.
pub open spec fn fully_covered(text: Seq<char>, dict: Map<Seq<char>, Seq<Seq<char>>>) -> bool {
    forall|i: int| 0 <= i < text.len() ==> dict.contains_key(#[trigger] text.subrange(i, i + 1))
}

/// Every unit that segmentation yields is fresh and well-formed, given a
/// well-formed dictionary.
pub proof fn lemma_segment_units_fresh(
    text: Seq<char>,
    dict: Map<Seq<char>, Seq<Seq<char>>>,
    pos: int,
)
    requires
        dictionary_wf(dict),
    ensures
        units_wf(segment_from(text, dict, pos)),
        forall|i: int|
            0 <= i < segment_from(text, dict, pos).len() ==> {
                &&& (#[trigger] segment_from(text, dict, pos)[i]).assumed == 0
                &&& segment_from(text, dict, pos)[i].typed == 0
                &&& dict.contains_key(segment_from(text, dict, pos)[i].kana)
                &&& segment_from(text, dict, pos)[i].patterns == dict[segment_from(
                    text,
                    dict,
                    pos,
                )[i].kana]
            },
    decreases text.len() - pos,
{
    if 0 <= pos < text.len() {
        let n = match_len(text, dict, pos);
        if n == 0 {
            lemma_segment_units_fresh(text, dict, pos + 1);
        } else {
            lemma_segment_units_fresh(text, dict, pos + n);
        }
    }
}

/// Segmentation of a fully covered phrase loses nothing: joining the kana
/// texts of the units that start at `pos` gives back the phrase from `pos`
/// on.
pub proof fn lemma_segment_from_covers(
    text: Seq<char>,
    dict: Map<Seq<char>, Seq<Seq<char>>>,
    pos: int,
)
    requires
        fully_covered(text, dict),
        0 <= pos <= text.len(),
    ensures
        kana_text(segment_from(text, dict, pos)) == text.skip(pos),
    decreases text.len() - pos,
{
    if pos < text.len() {
        // Position `pos` is covered, so a unit starts here; the rest of the
        // units are those from the end of its key on.
        let n = match_len(text, dict, pos);
        lemma_segment_from_covers(text, dict, pos + n);
        assert(segment_from(text, dict, pos).skip(1) =~= segment_from(text, dict, pos + n));
    }
}

/// Where every character of the phrase is a key, every character is consumed
/// into exactly one unit: the kana texts of the units, joined in order, are
/// the phrase.
pub proof fn lemma_segment_total(text: Seq<char>, dict: Map<Seq<char>, Seq<Seq<char>>>)
    requires
        fully_covered(text, dict),
    ensures
        kana_text(segment(text, dict)) == text,
{
    lemma_segment_from_covers(text, dict, 0);
}

/// Longest match wins: where two characters at `pos` form a key, the unit
/// that starts at `pos` spans those two characters, or three if these form a
/// key too. It never spans the first character alone.
pub proof fn lemma_longest_match_first(
    text: Seq<char>,
    dict: Map<Seq<char>, Seq<Seq<char>>>,
    pos: int,
)
    requires
        0 <= pos,
        pos + 2 <= text.len(),
        dict.contains_key(text.subrange(pos, pos + 2)),
    ensures
        match_len(text, dict, pos) >= 2,
        segment_from(text, dict, pos).len() >= 1,
        segment_from(text, dict, pos)[0].kana == text.subrange(
            pos,
            pos + match_len(text, dict, pos),
        ),
        segment_from(text, dict, pos).skip(1) == segment_from(
            text,
            dict,
            pos + match_len(text, dict, pos),
        ),
{
}

/// A phrase of two characters that is itself a key becomes one unit of two
/// characters, whether or not its first character is a key as well.
pub proof fn lemma_two_char_key_is_one_unit(text: Seq<char>, dict: Map<Seq<char>, Seq<Seq<char>>>)
    requires
        text.len() == 2,
        dict.contains_key(text),
    ensures
        segment(text, dict) == seq![UnitView::fresh(text, dict[text])],
{
    assert(text.subrange(0, 2) =~= text);
    assert(segment_from(text, dict, 2) =~= Seq::<UnitView>::empty());
}

/// An owned copy of a list of strings.
fn clone_strings(strings: &Vec<String>) -> (r: Vec<String>)
    ensures
        strings_view(r@) == strings_view(strings@),
{
    let mut out: Vec<String> = Vec::new();
    let mut i: usize = 0;
    while i < strings.len()
        invariant
            i <= strings.len(),
            out@.len() == i,
            forall|k: int| 0 <= k < i ==> out@[k]@ == strings@[k]@,
        decreases strings.len() - i,
    {
        out.push(strings[i].clone());
        i = i + 1;
    }
    out
}

/// The unit for the `len` characters of `text` at `pos`, if they form a key.
fn unit_at(text: &str, dict: &PatternDictionary, pos: usize, len: usize) -> (r: Option<CharState>)
    requires
        dict.wf(),
        pos + len <= text@.len(),
        pos + len <= usize::MAX,
    ensures
        match r {
            Some(unit) => {
                &&& dict@.contains_key(text@.subrange(pos as int, pos + len))
                &&& unit@ == UnitView::fresh(
                    text@.subrange(pos as int, pos + len),
                    dict@[text@.subrange(pos as int, pos + len)],
                )
                &&& unit.wf()
            },
            None => !dict@.contains_key(text@.subrange(pos as int, pos + len)),
        },
{
    let key = text.substring_char(pos, pos + len);
    match dict.get(key) {
        Some(patterns) => Some(CharState::new(String::from_str(key), clone_strings(patterns))),
        None => None,
    }
}

/// Splits `text` into typing units. At each position the three-character
/// key is tried first, then the two-character key, then the single
/// character; a character that starts no key yields no unit.
///
/// Where every character of `text` is a key, the kana texts of the units
/// join up to `text`. Where `text` is itself a key of two characters, it
/// becomes a single unit.
pub fn parse_hiragana(text: &str, dict: &PatternDictionary) -> (units: Vec<CharState>)
    requires
        dict.wf(),
    ensures
        units_view(units@) == segment(text@, dict@),
        units_wf(units_view(units@)),
        fully_covered(text@, dict@) ==> kana_text(units_view(units@)) == text@,
        text@.len() == 2 && dict@.contains_key(text@) ==> units_view(units@)
            == seq![UnitView::fresh(text@, dict@[text@])],
{
    proof {
        if fully_covered(text@, dict@) {
            lemma_segment_total(text@, dict@);
        }
        if text@.len() == 2 && dict@.contains_key(text@) {
            lemma_two_char_key_is_one_unit(text@, dict@);
        }
    }
    let n = text.unicode_len();
    let mut out: Vec<CharState> = Vec::new();
    let mut idx: usize = 0;
    while idx < n
        invariant
            n == text@.len(),
            idx <= n,
            dict.wf(),
            units_view(out@) + segment_from(text@, dict@, idx as int) == segment(text@, dict@),
            units_wf(units_view(out@)),
        decreases n - idx,
    {
        let ghost before = units_view(out@);
        let mut found: Option<CharState> = None;
        let mut step: usize = 1;
        if n - idx >= 3 {
            found = unit_at(text, dict, idx, 3);
            step = 3;
        }
        if found.is_none() && n - idx >= 2 {
            found = unit_at(text, dict, idx, 2);
            step = 2;
        }
        if found.is_none() {
            found = unit_at(text, dict, idx, 1);
            step = 1;
        }
        match found {
            Some(unit) => {
                out.push(unit);
                assert(units_view(out@) =~= before + seq![unit@]);
                idx = idx + step;
            },
            None => {
                idx = idx + 1;
            },
        }
    }
    out
}

} // verus!
