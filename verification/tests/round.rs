use std::time::{Duration, Instant};
use type_wiz::dictionary::PatternDictionary;
use type_wiz::round::RoundState;

fn dictionary() -> PatternDictionary {
    let mut dict = PatternDictionary::new();
    let entries: [(&str, &[&str]); 8] = [
        ("しゃ", &["sya", "sha"]),
        ("し", &["si", "shi"]),
        ("ん", &["n", "nn"]),
        ("ね", &["ne"]),
        ("こ", &["ko", "co"]),
        ("い", &["i"]),
        ("ぬ", &["nu"]),
        ("ち", &["ti", "chi"]),
    ];
    for (kana, patterns) in entries {
        assert_eq!(dict.insert(kana, patterns), Ok(()));
    }
    dict
}

fn type_all(round: &mut RoundState, keys: &str) {
    for c in keys.chars() {
        round.handle_char_input(c);
    }
}

/// Cursor, then per unit the assumed index and the confirmed count, then the
/// error flag and the mistake counter.
fn snapshot(round: &RoundState) -> (usize, Vec<(usize, usize)>, bool, u32) {
    (
        round.current_char_index(),
        round.char_states().iter().map(|u| (u.current_pattern_idx(), u.typed_count())).collect(),
        round.is_error(),
        round.current_misses(),
    )
}

#[test]
fn new_round_is_at_its_start() {
    let dict = dictionary();
    let round = RoundState::new("しゃしん", &dict);
    assert_eq!(snapshot(&round), (0, vec![(0, 0), (0, 0), (0, 0)], false, 0));
    assert!(!round.is_question_complete());
    assert!(!round.is_started());
    assert!(round.elapsed().is_none());
}

#[test]
fn empty_phrase_is_complete_at_once() {
    let dict = dictionary();
    let round = RoundState::new("", &dict);
    assert!(round.is_question_complete());
    assert_eq!(round.char_states().len(), 0);
    assert_eq!(round.current_misses(), 0);
    assert_eq!(round.total_chars(), Some(0));
}

#[test]
fn typing_the_assumed_romanization_completes_the_round() {
    let dict = dictionary();
    let mut round = RoundState::new("しゃしん", &dict);
    type_all(&mut round, "sya");
    assert_eq!(round.current_char_index(), 1);
    assert!(!round.is_question_complete());
    type_all(&mut round, "si");
    assert_eq!(round.current_char_index(), 2);
    type_all(&mut round, "n");
    assert!(round.is_question_complete());
    assert_eq!(snapshot(&round), (3, vec![(0, 3), (0, 2), (0, 1)], false, 0));
    assert_eq!(round.total_chars(), Some(6));
}

#[test]
fn unit_completion_and_cursor_advance_happen_together() {
    let dict = dictionary();
    let mut round = RoundState::new("ねこ", &dict);
    round.handle_char_input('n');
    assert_eq!(round.current_char_index(), 0);
    round.handle_char_input('e');
    assert_eq!(round.current_char_index(), 1);
    assert!(round.char_states()[0].is_complete());
    assert_eq!(round.char_states()[1].typed_count(), 0);
}

#[test]
fn switching_mid_unit_keeps_the_typed_prefix() {
    let mut dict = PatternDictionary::new();
    assert_eq!(dict.insert("し", &["si", "shi"]), Ok(()));
    let mut round = RoundState::new("し", &dict);
    round.handle_char_input('s');
    assert_eq!(round.char_states()[0].current_pattern(), "si");
    round.handle_char_input('h');
    assert_eq!(round.char_states()[0].current_pattern(), "shi");
    assert!(!round.is_question_complete());
    round.handle_char_input('i');
    assert!(round.is_question_complete());
    assert_eq!(round.char_states()[0].current_pattern(), "shi");
    assert_eq!(round.char_states()[0].current_pattern_idx(), 1);
    assert_eq!(round.char_states()[0].typed_count(), 3);
    assert_eq!(round.current_misses(), 0);
    assert!(!round.is_error());
}

#[test]
fn total_chars_counts_the_assumed_candidates() {
    let dict = dictionary();
    let mut round = RoundState::new("しゃしん", &dict);
    assert_eq!(round.total_chars(), Some(3 + 2 + 1));
    type_all(&mut round, "syash");
    // The second unit now assumes "shi".
    assert_eq!(round.total_chars(), Some(3 + 3 + 1));
    type_all(&mut round, "in");
    assert!(round.is_question_complete());
    assert_eq!(round.total_chars(), Some(7));
}

#[test]
fn a_short_candidate_completes_before_a_longer_one_is_considered() {
    let dict = dictionary();
    let mut round = RoundState::new("んい", &dict);
    round.handle_char_input('n');
    // "n" is complete, so the cursor has moved on; a second 'n' is a mistake.
    assert_eq!(round.current_char_index(), 1);
    round.handle_char_input('n');
    assert!(round.is_error());
    assert_eq!(round.current_misses(), 1);
    assert_eq!(round.char_states()[0].current_pattern(), "n");
}

#[test]
fn a_mistake_is_kept_after_the_correction() {
    let mut dict = PatternDictionary::new();
    assert_eq!(dict.insert("し", &["si", "shi"]), Ok(()));
    let mut round = RoundState::new("し", &dict);
    round.handle_char_input('x');
    assert_eq!(round.current_misses(), 1);
    assert!(round.is_error());
    assert_eq!(round.char_states()[0].typed_count(), 0);
    assert_eq!(round.current_char_index(), 0);
    round.handle_char_input('s');
    assert!(!round.is_error());
    assert_eq!(round.current_misses(), 1);
    assert_eq!(round.char_states()[0].typed_count(), 1);
    round.handle_char_input('i');
    assert!(round.is_question_complete());
    assert_eq!(round.current_misses(), 1);
}

#[test]
fn mistakes_add_up() {
    let dict = dictionary();
    let mut round = RoundState::new("ねこ", &dict);
    type_all(&mut round, "xnyezko");
    assert!(round.is_question_complete());
    assert_eq!(round.current_misses(), 3);
    assert!(!round.is_error());
}

#[test]
fn keystroke_after_completion_changes_nothing() {
    let dict = dictionary();
    let mut round = RoundState::new("ね", &dict);
    type_all(&mut round, "ne");
    let before = snapshot(&round);
    round.handle_char_input('x');
    assert_eq!(snapshot(&round), before);
}

#[test]
fn first_keystroke_starts_the_clock_even_if_rejected() {
    let dict = dictionary();
    let mut round = RoundState::new("ね", &dict);
    assert!(!round.is_started());
    round.handle_char_input('x');
    assert!(round.is_started());
    assert!(round.elapsed().is_some());
}

#[test]
fn keystroke_on_an_empty_round_starts_the_clock() {
    let dict = dictionary();
    let mut round = RoundState::new("", &dict);
    round.handle_char_input('a');
    assert!(round.is_started());
    assert!(round.is_question_complete());
    assert_eq!(round.current_misses(), 0);
}

#[test]
fn explicit_clock_reading_is_kept_for_the_round() {
    let dict = dictionary();
    let mut round = RoundState::new("ね", &dict);
    let now = Instant::now();
    let earlier = now.checked_sub(Duration::from_secs(5)).unwrap_or(now);
    let head_start = now.duration_since(earlier);
    round.handle_char_input_at('n', earlier);
    assert!(round.is_started());
    assert!(round.elapsed().unwrap() >= head_start);
    // A later keystroke does not restart the clock.
    round.handle_char_input_at('e', Instant::now());
    assert!(round.is_question_complete());
    assert!(round.elapsed().unwrap() >= head_start);
    round.handle_char_input('x');
    assert!(round.elapsed().unwrap() >= head_start);
}

#[test]
fn backspace_at_the_very_start_does_nothing() {
    let dict = dictionary();
    let mut round = RoundState::new("ねこ", &dict);
    let before = snapshot(&round);
    round.handle_backspace();
    assert_eq!(snapshot(&round), before);
}

#[test]
fn backspace_on_an_empty_round_does_nothing() {
    let dict = dictionary();
    let mut round = RoundState::new("", &dict);
    round.handle_backspace();
    assert_eq!(round.current_char_index(), 0);
    assert!(round.is_question_complete());
    assert!(!round.is_error());
}

#[test]
fn backspace_within_a_unit_takes_back_one_character() {
    let dict = dictionary();
    let mut round = RoundState::new("しゃ", &dict);
    type_all(&mut round, "sy");
    round.handle_backspace();
    assert_eq!(snapshot(&round), (0, vec![(0, 1)], false, 0));
}

#[test]
fn backspace_across_a_boundary_reopens_the_previous_unit_at_its_last_character() {
    let dict = dictionary();
    let mut round = RoundState::new("しゃし", &dict);
    type_all(&mut round, "sya");
    assert_eq!(round.current_char_index(), 1);
    round.handle_backspace();
    assert_eq!(snapshot(&round), (0, vec![(0, 2), (0, 0)], false, 0));
    assert_eq!(round.char_states()[0].expected_char(), Some('a'));
}

#[test]
fn backspace_reopens_a_completed_round() {
    let dict = dictionary();
    let mut round = RoundState::new("ねこ", &dict);
    type_all(&mut round, "neko");
    assert!(round.is_question_complete());
    round.handle_backspace();
    assert!(!round.is_question_complete());
    assert_eq!(snapshot(&round), (1, vec![(0, 2), (0, 1)], false, 0));
}

#[test]
fn backspace_clears_the_error_flag_and_keeps_the_mistakes() {
    let dict = dictionary();
    let mut round = RoundState::new("ねこ", &dict);
    round.handle_char_input('x');
    assert!(round.is_error());
    round.handle_backspace();
    assert!(!round.is_error());
    assert_eq!(round.current_misses(), 1);
    assert_eq!(round.current_char_index(), 0);
    assert_eq!(round.char_states()[0].typed_count(), 0);
}

#[test]
fn backspace_does_not_stop_the_clock() {
    let dict = dictionary();
    let mut round = RoundState::new("ね", &dict);
    round.handle_char_input('n');
    round.handle_backspace();
    assert!(round.is_started());
}

#[test]
fn as_many_backspaces_as_keystrokes_lead_back_to_the_start() {
    let dict = dictionary();
    let mut round = RoundState::new("しゃしん", &dict);
    let start = snapshot(&round);
    let keys = "syasin";
    for n in 0..=keys.len() {
        let mut round = RoundState::new("しゃしん", &dict);
        type_all(&mut round, &keys[..n]);
        for _ in 0..n {
            round.handle_backspace();
        }
        assert_eq!(snapshot(&round), start);
    }
    type_all(&mut round, keys);
    assert!(round.is_question_complete());
}

#[test]
fn backspaces_do_not_undo_mistakes() {
    let dict = dictionary();
    let mut round = RoundState::new("ねこ", &dict);
    type_all(&mut round, "nxek");
    assert_eq!(round.current_misses(), 1);
    for _ in 0..3 {
        round.handle_backspace();
    }
    assert_eq!(snapshot(&round), (0, vec![(0, 0), (0, 0)], false, 1));
}

#[test]
fn backspace_keeps_the_candidate_a_unit_switched_to() {
    let mut dict = PatternDictionary::new();
    assert_eq!(dict.insert("し", &["si", "shi"]), Ok(()));
    let mut round = RoundState::new("し", &dict);
    type_all(&mut round, "sh");
    round.handle_backspace();
    round.handle_backspace();
    assert_eq!(snapshot(&round), (0, vec![(1, 0)], false, 0));
    // Typing can switch back.
    type_all(&mut round, "si");
    assert!(round.is_question_complete());
    assert_eq!(round.char_states()[0].current_pattern(), "si");
}

#[test]
fn backspace_into_a_switched_unit_uses_the_length_of_its_candidate() {
    let dict = dictionary();
    let mut round = RoundState::new("ちい", &dict);
    type_all(&mut round, "chi");
    assert_eq!(round.current_char_index(), 1);
    round.handle_backspace();
    assert_eq!(snapshot(&round), (0, vec![(1, 2), (0, 0)], false, 0));
}

#[test]
fn load_current_question_starts_over_on_the_new_phrase() {
    let dict = dictionary();
    let mut round = RoundState::new("ねこ", &dict);
    type_all(&mut round, "nxe");
    round.load_current_question("いぬ", &dict);
    assert_eq!(snapshot(&round), (0, vec![(0, 0), (0, 0)], false, 0));
    assert_eq!(round.char_states()[0].hiragana(), "い");
    assert_eq!(round.char_states()[1].hiragana(), "ぬ");
    assert!(round.is_started());
}

#[test]
fn next_question_stops_the_clock() {
    let dict = dictionary();
    let mut round = RoundState::new("ね", &dict);
    type_all(&mut round, "ne");
    assert!(round.is_started());
    round.next_question("いぬ", &dict);
    assert!(!round.is_started());
    assert!(round.elapsed().is_none());
    assert_eq!(snapshot(&round), (0, vec![(0, 0), (0, 0)], false, 0));
}

#[test]
fn restart_forgets_progress_switches_and_mistakes() {
    let dict = dictionary();
    let mut round = RoundState::new("しこ", &dict);
    type_all(&mut round, "shixc");
    assert_eq!(snapshot(&round), (1, vec![(1, 3), (1, 1)], false, 1));
    round.restart();
    assert_eq!(snapshot(&round), (0, vec![(0, 0), (0, 0)], false, 0));
    assert_eq!(round.char_states()[0].hiragana(), "し");
    assert!(round.is_started());
}
