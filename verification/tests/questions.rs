use type_wiz::questions::{shuffle_questions, Question, QuestionDeck};

const NAMES: [&str; 12] =
    ["a", "b", "c", "d", "e", "f", "g", "h", "i", "j", "k", "l"];

fn many_questions() -> Vec<Question> {
    NAMES.iter().map(|name| Question { japanese: name, hiragana: name }).collect()
}

fn names_of(questions: &[Question]) -> Vec<&'static str> {
    questions.iter().map(|q| q.japanese).collect()
}

#[test]
fn deck_goes_through_the_phrases_and_wraps_around() {
    let questions = vec![
        Question { japanese: "猫", hiragana: "ねこ" },
        Question { japanese: "犬", hiragana: "いぬ" },
        Question { japanese: "空", hiragana: "そら" },
    ];
    let mut deck = QuestionDeck::new(questions);
    assert_eq!(deck.len(), 3);
    assert_eq!(deck.current_question_index(), 0);
    assert_eq!(deck.get_current_question().hiragana, "ねこ");
    deck.advance();
    assert_eq!(deck.current_question_index(), 1);
    assert_eq!(deck.get_current_question().japanese, "犬");
    deck.advance();
    assert_eq!(deck.get_current_question().hiragana, "そら");
    deck.advance();
    assert_eq!(deck.current_question_index(), 0);
    assert_eq!(deck.get_current_question().hiragana, "ねこ");
}

#[test]
fn deck_of_one_phrase_stays_on_it() {
    let mut deck = QuestionDeck::new(vec![Question { japanese: "海", hiragana: "うみ" }]);
    deck.advance();
    assert_eq!(deck.current_question_index(), 0);
    assert_eq!(deck.get_current_question().hiragana, "うみ");
}

#[test]
fn shuffle_keeps_every_phrase_exactly_once() {
    for _ in 0..20 {
        let shuffled = shuffle_questions(many_questions());
        let mut names = names_of(&shuffled);
        names.sort();
        assert_eq!(names, NAMES.to_vec());
        for q in &shuffled {
            assert_eq!(q.japanese, q.hiragana);
        }
    }
}

#[test]
fn shuffle_of_nothing_and_of_one_phrase() {
    assert!(shuffle_questions(Vec::new()).is_empty());
    let one = shuffle_questions(vec![Question { japanese: "山", hiragana: "やま" }]);
    assert_eq!(names_of(&one), vec!["山"]);
}

#[test]
fn shuffle_changes_the_order() {
    // Twelve phrases have 479001600 orders; forty shuffles that all give back
    // the order that went in do not happen by chance.
    let changed = (0..40).any(|_| names_of(&shuffle_questions(many_questions())) != NAMES.to_vec());
    assert!(changed);
}

#[test]
fn shuffled_deck_starts_on_the_first_phrase_of_its_order() {
    let mut deck = QuestionDeck::shuffled(many_questions());
    assert_eq!(deck.len(), 12);
    assert_eq!(deck.current_question_index(), 0);
    let mut seen = Vec::new();
    for _ in 0..12 {
        seen.push(deck.get_current_question().japanese);
        deck.advance();
    }
    assert_eq!(deck.current_question_index(), 0);
    seen.sort();
    assert_eq!(seen, NAMES.to_vec());
}
