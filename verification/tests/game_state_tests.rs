use xmahjong::game_state::{NameEntryState, ScoreTracker};
use xmahjong::storage::UserProfile;

fn tracker(hints: u32, shuffles: u32, undos: u32, elapsed: u32, pairs: u32, mismatches: u32) -> ScoreTracker {
    ScoreTracker {
        hints_used: hints,
        shuffles_used: shuffles,
        undos_used: undos,
        elapsed_seconds: elapsed,
        pairs_matched: pairs,
        mismatches,
    }
}

fn profile(name: &str, last_played: u64) -> UserProfile {
    UserProfile {
        name: name.to_string(),
        has_save: false,
        save_level: 1,
        max_completed_level: 0,
        streak: 0,
        best_score: 0,
        last_played_epoch_secs: last_played,
    }
}

#[test]
fn score_perfect_game() {
    let tracker = ScoreTracker {
        hints_used: 0,
        shuffles_used: 0,
        undos_used: 0,
        elapsed_seconds: 100,
        pairs_matched: 72,
        mismatches: 0,
    };
    assert_eq!(tracker.calculate_score(), 1264);
}

#[test]
fn score_with_penalties() {
    let tracker = ScoreTracker {
        hints_used: 2,
        shuffles_used: 1,
        undos_used: 0,
        elapsed_seconds: 120,
        pairs_matched: 72,
        mismatches: 0,
    };
    assert_eq!(tracker.calculate_score(), 1224);
}

#[test]
fn score_never_negative() {
    let tracker = ScoreTracker {
        hints_used: 100,
        shuffles_used: 100,
        undos_used: 0,
        elapsed_seconds: 9999,
        pairs_matched: 0,
        mismatches: 0,
    };
    assert_eq!(tracker.calculate_score(), 0);
}

#[test]
fn score_starts_at_zero() {
    let tracker = ScoreTracker {
        hints_used: 0,
        shuffles_used: 0,
        undos_used: 0,
        elapsed_seconds: 0,
        pairs_matched: 0,
        mismatches: 0,
    };
    assert_eq!(tracker.calculate_score(), 0);
}

#[test]
fn score_increases_with_pairs() {
    let tracker = ScoreTracker {
        hints_used: 0,
        shuffles_used: 0,
        undos_used: 0,
        elapsed_seconds: 0,
        pairs_matched: 5,
        mismatches: 0,
    };
    assert_eq!(tracker.live_score(), 60);
}

#[test]
fn name_entry_new_creates_empty_state() {
    let entry = NameEntryState::new(Vec::new(), 500, 120, 0, 0, 0);
    assert_eq!(entry.text, "");
    assert_eq!(entry.score, 500);
    assert_eq!(entry.time_seconds, 120);
    assert!(!entry.is_valid());
}

#[test]
fn name_entry_push_char_adds_characters() {
    let mut entry = NameEntryState::new(Vec::new(), 500, 120, 0, 0, 0);
    assert!(entry.push_char('A'));
    assert!(entry.push_char('l'));
    assert!(entry.push_char('i'));
    assert_eq!(entry.text, "Ali");
    assert!(entry.is_valid());
}

#[test]
fn name_entry_push_char_rejects_beyond_20() {
    let mut entry = NameEntryState::new(Vec::new(), 500, 120, 0, 0, 0);
    for c in "12345678901234567890".chars() {
        assert!(entry.push_char(c));
    }
    assert_eq!(entry.text.chars().count(), 20);
    assert!(entry.is_valid());
    assert!(!entry.push_char('X'));
    assert_eq!(entry.text.chars().count(), 20);
}

#[test]
fn name_entry_pop_char_removes_last() {
    let mut entry = NameEntryState::new(Vec::new(), 500, 120, 0, 0, 0);
    entry.push_char('H');
    entry.push_char('i');
    assert!(entry.pop_char());
    assert_eq!(entry.text, "H");
    assert!(entry.pop_char());
    assert_eq!(entry.text, "");
    assert!(!entry.pop_char());
}

#[test]
fn name_entry_is_valid_checks_1_to_20_chars() {
    let mut entry = NameEntryState::new(Vec::new(), 500, 120, 0, 0, 0);
    assert!(!entry.is_valid());
    entry.push_char('A');
    assert!(entry.is_valid());
    for c in "BCDEFGHIJKLMNOPQRST".chars() {
        entry.push_char(c);
    }
    assert_eq!(entry.text.chars().count(), 20);
    assert!(entry.is_valid());
}

#[test]
fn test_name_entry_navigation() {
    let profiles = vec![
        UserProfile {
            name: "Alice".to_string(),
            has_save: true,
            save_level: 2,
            max_completed_level: 1,
            streak: 3,
            best_score: 500,
            last_played_epoch_secs: 100,
        },
        UserProfile {
            name: "Bob".to_string(),
            has_save: false,
            save_level: 1,
            max_completed_level: 5,
            streak: 1,
            best_score: 800,
            last_played_epoch_secs: 90,
        },
    ];

    let mut entry = NameEntryState::with_profiles(profiles, 0, 0, 0, 0, 0);
    assert_eq!(entry.selected_index, 0);
    assert_eq!(entry.selected_profile().unwrap().name, "Alice");
    assert!(!entry.is_new_player_selected());

    entry.select_next();
    assert_eq!(entry.selected_index, 1);
    assert_eq!(entry.selected_profile().unwrap().name, "Bob");

    entry.select_next();
    assert_eq!(entry.selected_index, 2);
    assert!(entry.is_new_player_selected());

    entry.select_next();
    assert_eq!(entry.selected_index, 0);

    entry.select_prev();
    assert_eq!(entry.selected_index, 2);
    assert!(entry.is_new_player_selected());

    entry.toggle_field();
    assert_eq!(entry.selected_index, 0);
    entry.toggle_field();
    assert_eq!(entry.selected_index, 2);
}

#[test]
fn score_time_bonus_only_when_finished() {
    let playing = tracker(1, 0, 3, 0, 10, 2);
    assert_eq!(playing.live_score(), 115);
    assert_eq!(playing.calculate_score(), 115);
    let finished = tracker(1, 0, 3, 450, 10, 2);
    assert_eq!(finished.calculate_score(), 165);
    let slow = tracker(1, 0, 3, 501, 10, 2);
    assert_eq!(slow.calculate_score(), 115);
}

#[test]
fn score_ignores_undos_and_mismatches() {
    assert_eq!(tracker(0, 1, 0, 0, 3, 0).live_score(), tracker(0, 1, 9, 0, 3, 7).live_score());
    assert_eq!(tracker(0, 1, 0, 0, 3, 0).live_score(), 26);
}

#[test]
fn score_tracker_new_and_default_are_zero() {
    assert_eq!(ScoreTracker::new(), tracker(0, 0, 0, 0, 0, 0));
    assert_eq!(ScoreTracker::default(), ScoreTracker::new());
}

#[test]
fn name_entry_pages_of_three() {
    let profiles: Vec<UserProfile> = (0..7).map(|i| profile(&format!("P{}", i), 100 - i)).collect();
    let mut entry = NameEntryState::with_profiles(profiles, 0, 0, 0, 0, 0);
    assert_eq!(entry.total_pages(), 3);
    assert_eq!(entry.page_start_index(), 0);
    assert_eq!(entry.page_end_index(), 3);
    entry.next_page();
    assert_eq!(entry.page, 1);
    assert_eq!(entry.selected_index, 3);
    entry.next_page();
    assert_eq!(entry.page, 2);
    assert_eq!(entry.page_end_index(), 7);
    entry.next_page();
    assert_eq!(entry.page, 2);
    entry.select_prev();
    assert_eq!(entry.selected_index, 5);
    assert_eq!(entry.page, 1);
    entry.prev_page();
    assert_eq!(entry.page, 0);
    assert_eq!(entry.selected_index, 0);
    entry.prev_page();
    assert_eq!(entry.page, 0);
    entry.select_profile_at_index(6);
    assert_eq!(entry.page, 2);
    assert_eq!(entry.selected_index, 6);
    entry.select_profile_at_index(7);
    assert_eq!(entry.selected_index, 6);
    entry.select_next();
    assert!(entry.is_new_player_selected());
    assert_eq!(entry.page, 2);
    entry.select_prev();
    assert_eq!(entry.selected_index, 6);
    entry.select_new_player();
    assert_eq!(entry.selected_index, 7);
    assert!(entry.selected_profile().is_none());
}

#[test]
fn name_entry_without_profiles_stays_on_new_player() {
    let mut entry = NameEntryState::with_profiles(Vec::new(), 0, 0, 0, 0, 0);
    assert_eq!(entry.total_pages(), 1);
    assert!(entry.is_new_player_selected());
    entry.select_next();
    assert_eq!(entry.selected_index, 0);
    entry.select_prev();
    assert_eq!(entry.selected_index, 0);
    entry.toggle_field();
    assert_eq!(entry.selected_index, 0);
}

#[test]
fn name_entry_typing_focuses_new_player_and_trims() {
    let profiles = vec![profile("Alice", 5)];
    let mut entry = NameEntryState::with_profiles(profiles, 0, 0, 0, 0, 0);
    assert!(!entry.is_new_player_selected());
    entry.push_char(' ');
    assert!(entry.is_new_player_selected());
    assert!(!entry.is_valid());
    entry.push_char('Z');
    entry.push_char('\t');
    assert!(entry.is_valid());
    assert!(entry.pop_char());
    assert_eq!(entry.text, " Z");
}

#[test]
fn name_entry_next_and_prev_undo_each_other() {
    let profiles: Vec<UserProfile> = (0..5).map(|i| profile(&format!("Q{}", i), 50 - i)).collect();
    let mut entry = NameEntryState::with_profiles(profiles, 0, 0, 0, 0, 0);
    for idx in 0..5 {
        entry.select_profile_at_index(idx);
        let (sel, page) = (entry.selected_index, entry.page);
        entry.select_next();
        entry.select_prev();
        assert_eq!((entry.selected_index, entry.page), (sel, page));
        entry.select_prev();
        entry.select_next();
        assert_eq!((entry.selected_index, entry.page), (sel, page));
    }
}
