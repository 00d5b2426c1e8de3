//! The pattern dictionary: which romanizations are accepted for which kana
//! unit.
//!
//! A dictionary is built explicitly, entry by entry, and then handed to the
//! segmenter by reference. Every entry is validated on insertion, so a
//! dictionary value always satisfies [`PatternDictionary::wf`].

use vstd::hash_map::StringHashMap;
use vstd::prelude::*;
use vstd::string::*;

verus! {

/// The longest kana key, counted in characters.
pub const MAX_KEY_CHARS: usize = 3;

/// The longest romanization, counted in characters.
pub const MAX_PATTERN_CHARS: usize = 4;

/// A lowercase Latin letter, the only kind of character a romanization holds.
pub open spec fn is_lower_latin(c: char) -> bool {
    'a' <= c && c <= 'z'
}

/// A kana key holds between one and three characters.
pub open spec fn valid_key(key: Seq<char>) -> bool {
    1 <= key.len() <= MAX_KEY_CHARS
}

/// A romanization holds between one and four lowercase Latin letters.
pub open spec fn valid_pattern(pattern: Seq<char>) -> bool {
    &&& 1 <= pattern.len() <= MAX_PATTERN_CHARS
    &&& forall|i: int| 0 <= i < pattern.len() ==> is_lower_latin(#[trigger] pattern[i])
}

/// Every romanization of the list is valid.
pub open spec fn all_valid_patterns(patterns: Seq<Seq<char>>) -> bool {
    forall|i: int| 0 <= i < patterns.len() ==> valid_pattern(#[trigger] patterns[i])
}

/// No romanization occurs twice in the list.
pub open spec fn distinct_patterns(patterns: Seq<Seq<char>>) -> bool {
    forall|i: int, j: int|
        0 <= i < j < patterns.len() ==> #[trigger] patterns[i] != #[trigger] patterns[j]
}

/// A candidate list is ordered, non-empty, made of valid romanizations, and
/// free of repetitions.
pub open spec fn valid_patterns(patterns: Seq<Seq<char>>) -> bool {
    &&& patterns.len() >= 1
    &&& all_valid_patterns(patterns)
    &&& distinct_patterns(patterns)
}

/// The character sequences of a list of string slices.
pub open spec fn strs_view(strs: Seq<&str>) -> Seq<Seq<char>> {
    Seq::new(strs.len(), |i: int| strs[i]@)
}

/// The character sequences of a list of owned strings.
pub open spec fn strings_view(strings: Seq<String>) -> Seq<Seq<char>> {
    Seq::new(strings.len(), |i: int| strings[i]@)
}

/// Why an entry was refused.
#[derive(Clone, Copy, Debug, PartialEq, Eq, Structural)]
pub enum DictError {
    /// The kana key is empty or longer than three characters.
    InvalidKey,
    /// The candidate list is empty.
    NoPatterns,
    /// A romanization is empty, too long, or holds something other than a
    /// lowercase Latin letter.
    InvalidPattern,
    /// The same romanization is listed twice.
    DuplicatePattern,
}

/// The verdict on a proposed entry: `None` if it is acceptable, otherwise the
/// first defect in the order key, list, romanizations, repetitions.
pub open spec fn entry_defect(key: Seq<char>, patterns: Seq<Seq<char>>) -> Option<DictError> {
    if !valid_key(key) {
        Some(DictError::InvalidKey)
    } else if patterns.len() == 0 {
        Some(DictError::NoPatterns)
    } else if !all_valid_patterns(patterns) {
        Some(DictError::InvalidPattern)
    } else if !distinct_patterns(patterns) {
        Some(DictError::DuplicatePattern)
    } else {
        None
    }
}

/// Every key and every candidate list of the map is valid.
pub open spec fn dictionary_wf(entries: Map<Seq<char>, Seq<Seq<char>>>) -> bool {
    forall|key: Seq<char>| #[trigger]
        entries.contains_key(key) ==> valid_key(key) && valid_patterns(entries[key])
}

/// A mapping from kana unit to its ordered candidate romanizations.
pub struct PatternDictionary {
    table: StringHashMap<Vec<String>>,
}

impl View for PatternDictionary {
    type V = Map<Seq<char>, Seq<Seq<char>>>;

    closed spec fn view(&self) -> Self::V {
        Map::new(
            |key: Seq<char>| self.table@.contains_key(key),
            |key: Seq<char>| strings_view(self.table@[key]@),
        )
    }
}

/// Whether `c` is a lowercase Latin letter.
pub fn is_lower_latin_char(c: char) -> (r: bool)
    ensures
        r == is_lower_latin(c),
{
    'a' <= c && c <= 'z'
}

/// Whether `pattern` is a valid romanization.
pub fn is_valid_pattern(pattern: &str) -> (r: bool)
    ensures
        r == valid_pattern(pattern@),
{
    let n = pattern.unicode_len();
    if n < 1 || n > MAX_PATTERN_CHARS {
        return false;
    }
    let mut i: usize = 0;
    while i < n
        invariant
            n == pattern@.len(),
            i <= n,
            forall|k: int| 0 <= k < i ==> is_lower_latin(#[trigger] pattern@[k]),
        decreases n - i,
    {
        let c = pattern.get_char(i);
        if !is_lower_latin_char(c) {
            return false;
        }
        i = i + 1;
    }
    true
}

/// Whether every romanization in `patterns` is valid.
fn all_patterns_valid(patterns: &[&str]) -> (r: bool)
    ensures
        r == all_valid_patterns(strs_view(patterns@)),
{
    let mut i: usize = 0;
    while i < patterns.len()
        invariant
            i <= patterns.len(),
            forall|k: int| 0 <= k < i ==> valid_pattern(#[trigger] strs_view(patterns@)[k]),
        decreases patterns.len() - i,
    {
        if !is_valid_pattern(patterns[i]) {
            assert(!valid_pattern(strs_view(patterns@)[i as int]));
            return false;
        }
        i = i + 1;
    }
    true
}

/// Whether two string slices hold the same characters.
fn same_chars(a: &str, b: &str) -> (r: bool)
    ensures
        r == (a@ == b@),
{
    let n = a.unicode_len();
    if n != b.unicode_len() {
        return false;
    }
    let mut i: usize = 0;
    while i < n
        invariant
            n == a@.len(),
            n == b@.len(),
            i <= n,
            forall|k: int| 0 <= k < i ==> a@[k] == b@[k],
        decreases n - i,
    {
        if a.get_char(i) != b.get_char(i) {
            return false;
        }
        i = i + 1;
    }
    assert(a@ =~= b@);
    true
}

/// Whether no romanization occurs twice in `patterns`.
fn all_patterns_distinct(patterns: &[&str]) -> (r: bool)
    ensures
        r == distinct_patterns(strs_view(patterns@)),
{
    let ghost view = strs_view(patterns@);
    let mut j: usize = 0;
    while j < patterns.len()
        invariant
            j <= patterns.len(),
            view == strs_view(patterns@),
            forall|a: int, b: int| 0 <= a < b < j ==> #[trigger] view[a] != #[trigger] view[b],
        decreases patterns.len() - j,
    {
        let mut i: usize = 0;
        while i < j
            invariant
                i <= j,
                j < patterns.len(),
                view == strs_view(patterns@),
                forall|a: int| 0 <= a < i ==> #[trigger] view[a] != view[j as int],
            decreases j - i,
        {
            if same_chars(patterns[i], patterns[j]) {
                assert(view[i as int] == view[j as int]);
                return false;
            }
            i = i + 1;
        }
        j = j + 1;
    }
    true
}

/// Owned copies of the given string slices, in the same order.
fn to_owned_strings(patterns: &[&str]) -> (r: Vec<String>)
    ensures
        strings_view(r@) == strs_view(patterns@),
{
    let mut out: Vec<String> = Vec::new();
    let mut i: usize = 0;
    while i < patterns.len()
        invariant
            i <= patterns.len(),
            out@.len() == i,
            forall|k: int| 0 <= k < i ==> out@[k]@ == patterns@[k]@,
        decreases patterns.len() - i,
    {
        out.push(String::from_str(patterns[i]));
        i = i + 1;
    }
    out
}

impl PatternDictionary {
    /// Every entry of the dictionary is valid.
    pub open spec fn wf(&self) -> bool {
        dictionary_wf(self@)
    }

    /// A dictionary without entries.
    pub fn new() -> (dict: Self)
        ensures
            dict@ == Map::<Seq<char>, Seq<Seq<char>>>::empty(),
            dict.wf(),
    {
        PatternDictionary { table: StringHashMap::new() }
    }

    /// Adds the entry `kana -> patterns`, replacing any earlier entry for the
    /// same key. An entry with a defect is refused and the dictionary is left
    /// as it was.
    pub fn insert(&mut self, kana: &str, patterns: &[&str]) -> (r: Result<(), DictError>)
        requires
            old(self).wf(),
        ensures
            final(self).wf(),
            match r {
                Ok(()) => {
                    &&& entry_defect(kana@, strs_view(patterns@)) is None
                    &&& final(self)@ == old(self)@.insert(kana@, strs_view(patterns@))
                },
                Err(e) => {
                    &&& entry_defect(kana@, strs_view(patterns@)) == Some(e)
                    &&& final(self)@ == old(self)@
                },
            },
    {
        let key_len = kana.unicode_len();
        if key_len < 1 || key_len > MAX_KEY_CHARS {
            return Err(DictError::InvalidKey);
        }
        if patterns.len() == 0 {
            return Err(DictError::NoPatterns);
        }
        if !all_patterns_valid(patterns) {
            return Err(DictError::InvalidPattern);
        }
        if !all_patterns_distinct(patterns) {
            return Err(DictError::DuplicatePattern);
        }
        let owned = to_owned_strings(patterns);
        self.table.insert(String::from_str(kana), owned);
        assert(self@ =~= old(self)@.insert(kana@, strs_view(patterns@)));
        Ok(())
    }

    /// The candidate romanizations of `kana`, if it is a key.
    pub fn get(&self, kana: &str) -> (r: Option<&Vec<String>>)
        ensures
            match r {
                Some(patterns) => self@.contains_key(kana@) && strings_view(patterns@)
                    == self@[kana@],
                None => !self@.contains_key(kana@),
            },
    {
        self.table.get(kana)
    }

    /// Whether `kana` is a key.
    pub fn contains_key(&self, kana: &str) -> (r: bool)
        ensures
            r == self@.contains_key(kana@),
    {
        self.table.contains_key(kana)
    }

    /// The number of entries.
    pub fn len(&self) -> (n: usize)
        ensures
            n == self@.len(),
    {
        assert(self@.dom() =~= self.table@.dom());
        self.table.len()
    }
}

} // verus!
