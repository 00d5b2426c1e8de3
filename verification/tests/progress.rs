use type_wiz::progress::{recent_indices, PlayerData, LOG_LIMIT};

#[test]
fn new_player_is_on_level_one() {
    let data = PlayerData::default();
    assert_eq!(
        data,
        PlayerData { level: 1, current_xp: 0, total_typed_chars: 0, total_misses: 0 }
    );
}

#[test]
fn credit_adds_experience_and_characters() {
    let mut data = PlayerData::default();
    data.credit(7, 5);
    data.credit(3, 4);
    assert_eq!(
        data,
        PlayerData { level: 1, current_xp: 10, total_typed_chars: 9, total_misses: 0 }
    );
}

#[test]
fn add_misses_adds_to_the_lifetime_total() {
    let mut data = PlayerData::default();
    data.add_misses(2);
    data.add_misses(0);
    data.add_misses(5);
    assert_eq!(data.total_misses, 7);
    assert_eq!(data.level, 1);
    assert_eq!(data.current_xp, 0);
}

#[test]
fn level_up_pays_the_required_experience() {
    let mut data = PlayerData { level: 1, current_xp: 25, total_typed_chars: 40, total_misses: 3 };
    assert!(data.level_up(10));
    assert_eq!(
        data,
        PlayerData { level: 2, current_xp: 15, total_typed_chars: 40, total_misses: 3 }
    );
}

#[test]
fn level_up_at_exactly_the_required_experience() {
    let mut data = PlayerData { level: 3, current_xp: 33, total_typed_chars: 0, total_misses: 0 };
    assert!(data.level_up(33));
    assert_eq!(data.level, 4);
    assert_eq!(data.current_xp, 0);
}

#[test]
fn level_up_does_nothing_below_the_required_experience() {
    let mut data = PlayerData { level: 2, current_xp: 20, total_typed_chars: 9, total_misses: 1 };
    let before = data;
    assert!(!data.level_up(21));
    assert_eq!(data, before);
}

#[test]
fn several_levels_can_be_gained_from_one_round() {
    let mut data = PlayerData::default();
    data.credit(45, 30);
    let required = [10u32, 21, 33];
    let mut steps = 0;
    while data.level_up(required[(data.level - 1) as usize]) {
        steps += 1;
    }
    assert_eq!(steps, 2);
    assert_eq!(data.level, 3);
    assert_eq!(data.current_xp, 14);
    assert_eq!(data.total_typed_chars, 30);
}

#[test]
fn log_shows_fifteen_rounds() {
    assert_eq!(LOG_LIMIT, 15);
}

#[test]
fn recent_indices_of_an_empty_history() {
    assert!(recent_indices(0, 15).is_empty());
    assert!(recent_indices(7, 0).is_empty());
}

#[test]
fn recent_indices_list_a_short_history_whole_newest_first() {
    assert_eq!(recent_indices(3, 15), vec![2, 1, 0]);
    assert_eq!(recent_indices(15, 15), (0..15).rev().collect::<Vec<usize>>());
}

#[test]
fn recent_indices_keep_only_the_most_recent_rounds() {
    assert_eq!(recent_indices(20, 15), (5..20).rev().collect::<Vec<usize>>());
    assert_eq!(recent_indices(5, 2), vec![4, 3]);
}
