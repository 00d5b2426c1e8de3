use type_wiz::dictionary::PatternDictionary;
use type_wiz::segment::parse_hiragana;
use type_wiz::unit::CharState;

fn dictionary(entries: &[(&str, &[&str])]) -> PatternDictionary {
    let mut dict = PatternDictionary::new();
    for (kana, patterns) in entries {
        assert_eq!(dict.insert(kana, patterns), Ok(()));
    }
    dict
}

fn kana_of(units: &[CharState]) -> Vec<String> {
    units.iter().map(|unit| unit.hiragana().to_string()).collect()
}

#[test]
fn empty_phrase_gives_no_units() {
    let dict = dictionary(&[("あ", &["a"])]);
    assert!(parse_hiragana("", &dict).is_empty());
}

#[test]
fn empty_dictionary_gives_no_units() {
    let dict = PatternDictionary::new();
    assert!(parse_hiragana("ねこ", &dict).is_empty());
}

#[test]
fn shashin_splits_into_three_units() {
    let dict =
        dictionary(&[("しゃ", &["sya", "sha"]), ("し", &["si", "shi"]), ("ん", &["n", "nn"])]);
    let units = parse_hiragana("しゃしん", &dict);
    assert_eq!(kana_of(&units), vec!["しゃ", "し", "ん"]);
    assert_eq!(units[0].patterns(), &vec!["sya".to_string(), "sha".to_string()]);
    assert_eq!(units[1].patterns(), &vec!["si".to_string(), "shi".to_string()]);
    assert_eq!(units[2].patterns(), &vec!["n".to_string(), "nn".to_string()]);
}

#[test]
fn two_character_key_beats_its_first_character() {
    let dict = dictionary(&[("き", &["ki"]), ("ゃ", &["xya"]), ("きゃ", &["kya"])]);
    let units = parse_hiragana("きゃ", &dict);
    assert_eq!(units.len(), 1);
    assert_eq!(units[0].hiragana(), "きゃ");
    assert_eq!(units[0].patterns(), &vec!["kya".to_string()]);
}

#[test]
fn three_character_key_beats_the_two_character_key() {
    let dict = dictionary(
        &[("っ", &["xtu"]), ("っき", &["kki"]), ("きゃ", &["kya"]), ("っきゃ", &["kkya"])],
    );
    let units = parse_hiragana("っきゃ", &dict);
    assert_eq!(kana_of(&units), vec!["っきゃ"]);
}

#[test]
fn three_character_key_needs_three_characters_left() {
    let dict = dictionary(&[("っき", &["kki"]), ("っきゃ", &["kkya"]), ("あ", &["a"])]);
    let units = parse_hiragana("あっき", &dict);
    assert_eq!(kana_of(&units), vec!["あ", "っき"]);
}

#[test]
fn the_scan_is_greedy_and_does_not_look_back() {
    // "あい" is taken first, so "いう" is never tried at the second character.
    let dict = dictionary(&[("あい", &["ai"]), ("いう", &["iu"]), ("う", &["u"])]);
    let units = parse_hiragana("あいう", &dict);
    assert_eq!(kana_of(&units), vec!["あい", "う"]);
}

#[test]
fn characters_without_an_entry_are_skipped() {
    let dict = dictionary(&[("ね", &["ne"]), ("こ", &["ko", "co"])]);
    let units = parse_hiragana("猫ね、こ!", &dict);
    assert_eq!(kana_of(&units), vec!["ね", "こ"]);
}

#[test]
fn units_start_on_their_first_candidate_with_nothing_typed() {
    let dict = dictionary(&[("し", &["si", "shi"]), ("ん", &["n", "nn"])]);
    let units = parse_hiragana("しん", &dict);
    for unit in &units {
        assert_eq!(unit.current_pattern_idx(), 0);
        assert_eq!(unit.typed_count(), 0);
        assert!(!unit.is_complete());
    }
    assert_eq!(units[0].current_pattern(), "si");
    assert_eq!(units[1].current_pattern(), "n");
}

#[test]
fn covered_phrase_is_reproduced_by_its_units() {
    let dict = dictionary(
        &[
            ("こ", &["ko"]),
            ("ん", &["n"]),
            ("に", &["ni"]),
            ("ち", &["ti", "chi"]),
            ("は", &["ha"]),
            ("にち", &["niti"]),
        ],
    );
    let phrase = "こんにちは";
    let units = parse_hiragana(phrase, &dict);
    assert_eq!(kana_of(&units), vec!["こ", "ん", "にち", "は"]);
    assert_eq!(kana_of(&units).concat(), phrase);
}
