use xmahjong::storage::{
    default_difficulty_str, default_level, is_profile_folder, merge_user_profiles,
    same_name_ignoring_case, sanitize_user_name, storage_dir_for_user, Leaderboard, LeaderboardEntry, SavedGame, Settings, ShuffleState,
    TrophyState, UserProfile, UserProgress,
};

fn entry(name: &str, score: u32, time: u32, date: &str) -> LeaderboardEntry {
    LeaderboardEntry {
        name: name.to_string(),
        score,
        time_seconds: time,
        hints_used: 0,
        shuffles_used: 0,
        undos_used: 0,
        difficulty: "easy".to_string(),
        date: date.to_string(),
        consecutive_days: 0,
    }
}

fn profile(name: &str, last: u64, max_completed: u32, best: u32) -> UserProfile {
    UserProfile {
        name: name.to_string(),
        has_save: false,
        save_level: 1,
        max_completed_level: max_completed,
        streak: 0,
        best_score: best,
        last_played_epoch_secs: last,
    }
}

fn saved_game(level: u32) -> SavedGame {
    SavedGame {
        tiles: vec![Some(3), None],
        undo_stack: vec![(0, 3, 1, 3)],
        elapsed_ms: 1000,
        hints_used: 0,
        shuffles_used: 0,
        shuffles_remaining: 1,
        pairs_matched: 1,
        undos_used: 0,
        level,
        base_score: 0,
        base_time_ms: 0,
        base_hints: 0,
        base_shuffles: 0,
        base_undos: 0,
        difficulty: default_difficulty_str(),
    }
}

#[test]
fn insert_only_stores_the_last_entry() {
    let mut lb = Leaderboard::default();
    lb.insert(LeaderboardEntry {
        name: "Alice".to_string(),
        score: 500,
        time_seconds: 300,
        hints_used: 0,
        shuffles_used: 0,
        undos_used: 0,
        difficulty: "easy".to_string(),
        date: "2024-01-01".to_string(),
        consecutive_days: 0,
    });
    assert_eq!(lb.entries.len(), 1);
    assert_eq!(lb.entries[0].name, "Alice");

    lb.insert(LeaderboardEntry {
        name: "Bob".to_string(),
        score: 800,
        time_seconds: 200,
        hints_used: 0,
        shuffles_used: 0,
        undos_used: 0,
        difficulty: "easy".to_string(),
        date: "2024-01-02".to_string(),
        consecutive_days: 0,
    });

    assert_eq!(lb.entries.len(), 1);
    assert_eq!(lb.entries[0].name, "Bob");
    assert_eq!(lb.entries[0].score, 800);
}

#[test]
fn qualifies_always_returns_true() {
    let mut lb = Leaderboard::default();
    assert!(lb.qualifies(0));
    assert!(lb.qualifies(1000));
    lb.insert(LeaderboardEntry {
        name: "P".to_string(),
        score: 500,
        time_seconds: 100,
        hints_used: 0,
        shuffles_used: 0,
        undos_used: 0,
        difficulty: "easy".to_string(),
        date: "2024-01-01".to_string(),
        consecutive_days: 0,
    });
    assert!(lb.qualifies(10));
}

#[test]
fn name_validation_1_to_20_chars() {
    assert!(!LeaderboardEntry::is_valid_name(""));
    assert!(LeaderboardEntry::is_valid_name("A"));
    assert!(LeaderboardEntry::is_valid_name("12345678901234567890"));
    assert!(!LeaderboardEntry::is_valid_name("123456789012345678901"));
}

#[test]
fn settings_default_mute_is_false() {
    let settings = Settings::default();
    assert!(!settings.muted);
}

#[test]
fn test_sanitize_user_name() {
    assert_eq!(sanitize_user_name("  "), "default");
    assert_eq!(sanitize_user_name("Alice"), "Alice");
    assert_eq!(sanitize_user_name("Bob/Smith"), "Bob_Smith");
    assert_eq!(sanitize_user_name("User:1*"), "User_1_");
}

#[test]
fn test_storage_dir_for_user() {
    let dir = storage_dir_for_user("/home/player/.local/share/xmahjong", "Alice");
    assert!(dir.ends_with("Alice"));
    assert_eq!(dir, "/home/player/.local/share/xmahjong/Alice");
}

#[test]
fn test_user_progress_load_and_sync() {
    let (progress, changed) = UserProgress::load_and_sync(UserProgress::default(), 13);
    assert!(changed);
    assert_eq!(progress.max_completed_level, 12);
    assert_eq!(progress.completed_levels.len(), 12);
    for lvl in 1..=12 {
        assert!(progress.is_level_completed(lvl));
        assert!(progress.is_level_unlocked(lvl));
    }
    assert!(progress.is_level_unlocked(13));
    assert!(!progress.is_level_completed(13));
    assert!(!progress.is_level_unlocked(14));
}

#[test]
fn test_list_user_profiles() {
    let mut progress = UserProgress::default();
    progress.mark_completed(5);
    let folder = UserProfile::from_records(
        "test_profile_user_abc".to_string(),
        &vec![10, 20],
        None,
        Some(&progress),
        None,
        None,
    );
    let profiles = merge_user_profiles(vec![profile("someone", 5, 0, 0), folder]);
    let found = profiles.iter().find(|p| p.name.to_lowercase() == "test_profile_user_abc");
    assert!(found.is_some());
    let p = found.unwrap();
    assert_eq!(p.max_completed_level, 5);
}

#[test]
fn sanitize_trims_and_replaces_control_characters() {
    assert_eq!(sanitize_user_name("  Zoë \n"), "Zoë");
    assert_eq!(sanitize_user_name("a\u{7}b<c>|d?\"e\\"), "a_b_c__d__e_");
    assert_eq!(sanitize_user_name(""), "default");
    assert_eq!(sanitize_user_name("\u{3000}x\u{2003}"), "x");
    let once = sanitize_user_name(" we?rd ");
    assert_eq!(sanitize_user_name(&once), once);
}

#[test]
fn storage_dir_joins_without_doubling_separator() {
    assert_eq!(storage_dir_for_user("/data/", "Bob/Smith"), "/data/Bob_Smith");
    assert_eq!(storage_dir_for_user("", " "), "default");
}

#[test]
fn achievements_follow_entry_stats() {
    let mut e = entry("A", 10, 120, "2024-01-01");
    assert_eq!(e.get_achievements(), vec!["NO-HNT", "NO-SHF", "NO-UND", "SPEEDY"]);
    e.hints_used = 1;
    e.time_seconds = 180;
    e.consecutive_days = 12;
    assert_eq!(e.get_achievements(), vec!["NO-SHF", "NO-UND", "STRK:12"]);
    e.shuffles_used = 2;
    e.undos_used = 3;
    e.time_seconds = 0;
    e.consecutive_days = 1;
    assert!(e.get_achievements().is_empty());
}

#[test]
fn trophy_checks_count_achievements() {
    let mut t = TrophyState::default();
    assert!(t.check_perfect_combo(0));
    assert!(!t.check_perfect_combo(2));
    assert_eq!(t.perfect_combo_count, 1);
    assert!(t.check_rapid_clear(5, 120));
    assert!(!t.check_rapid_clear(5, 121));
    assert!(!t.check_rapid_clear(5, 0));
    assert!(t.check_rapid_clear(45, 360));
    assert_eq!(t.rapid_clear_count, 2);
    assert!(t.check_no_hints(0));
    assert!(!t.check_no_hints(1));
    assert!(t.check_no_shuffles(0));
    assert!(!t.check_no_undos(4));
    assert_eq!((t.no_hints_count, t.no_shuffles_count, t.no_undos_count), (1, 1, 0));
    assert_eq!(t.total_career_score, 0);
}

#[test]
fn rapid_clear_thresholds_by_tier() {
    assert_eq!(TrophyState::rapid_clear_threshold(1), 120);
    assert_eq!(TrophyState::rapid_clear_threshold(10), 120);
    assert_eq!(TrophyState::rapid_clear_threshold(11), 180);
    assert_eq!(TrophyState::rapid_clear_threshold(25), 240);
    assert_eq!(TrophyState::rapid_clear_threshold(40), 300);
    assert_eq!(TrophyState::rapid_clear_threshold(41), 360);
    assert_eq!(TrophyState::rapid_clear_threshold(0), 360);
}

#[test]
fn daily_bonus_once_per_day() {
    let mut s = ShuffleState::default();
    assert!(s.claim_daily_bonus("2024-05-01"));
    assert_eq!(s.last_bonus_date, "2024-05-01");
    assert!(!s.claim_daily_bonus("2024-05-01"));
    assert!(s.claim_daily_bonus("2024-05-02"));
}

#[test]
fn best_streak_catches_up() {
    let mut s = ShuffleState::default();
    s.consecutive_days = 4;
    s.best_streak = 2;
    s.refresh_best_streak();
    assert_eq!(s.best_streak, 4);
    s.consecutive_days = 1;
    s.refresh_best_streak();
    assert_eq!(s.best_streak, 4);
}

#[test]
fn saved_game_levels_and_defaults() {
    assert_eq!(default_level(), 1);
    assert_eq!(default_difficulty_str(), "easy");
    assert!(saved_game(1).has_playable_level());
    assert!(saved_game(1000).has_playable_level());
    assert!(!saved_game(0).has_playable_level());
    assert!(!saved_game(1001).has_playable_level());
}

#[test]
fn mark_completed_sorts_and_reports_changes() {
    let mut p = UserProgress { max_completed_level: 0, completed_levels: vec![7, 2] };
    assert!(p.mark_completed(4));
    assert_eq!(p.completed_levels, vec![2, 4, 7]);
    assert_eq!(p.max_completed_level, 4);
    assert!(!p.mark_completed(4));
    assert!(p.mark_completed(7));
    assert_eq!(p.max_completed_level, 7);
    assert!(p.is_level_completed(3));
    assert!(!p.is_level_completed(8));
    assert!(p.is_level_unlocked(8));
    assert!(!p.is_level_unlocked(9));
    assert!(p.is_level_unlocked(1));
}

#[test]
fn sync_fills_gaps_and_dedups() {
    let stored = UserProgress { max_completed_level: 3, completed_levels: vec![9, 2, 2] };
    let (p, changed) = UserProgress::load_and_sync(stored, 1);
    assert!(changed);
    assert_eq!(p.max_completed_level, 3);
    assert_eq!(p.completed_levels, vec![1, 2, 3, 9]);
    let (again, changed_again) = UserProgress::load_and_sync(p.clone(), 1);
    assert!(!changed_again);
    assert_eq!(again.completed_levels, p.completed_levels);
    let (top, _) = UserProgress::load_and_sync(UserProgress::default(), 5000);
    assert_eq!(top.max_completed_level, 1000);
    assert_eq!(top.completed_levels.len(), 1000);
    let (none, unchanged) = UserProgress::load_and_sync(UserProgress::default(), 0);
    assert!(!unchanged);
    assert_eq!(none.max_completed_level, 0);
}

#[test]
fn progress_from_stored_records() {
    let kept = UserProgress::from_stored(
        UserProgress { max_completed_level: 2, completed_levels: vec![1, 2] },
        Some(9),
        vec![],
    );
    assert_eq!(kept.completed_levels, vec![1, 2]);
    let from_save = UserProgress::from_stored(UserProgress::default(), Some(4), vec![]);
    assert_eq!(from_save.max_completed_level, 3);
    assert_eq!(from_save.completed_levels, vec![1, 2, 3]);
    let other = UserProgress { max_completed_level: 6, completed_levels: vec![] };
    let merged = UserProgress::from_stored(
        UserProgress::default(),
        None,
        vec![(Some(other), None), (None, Some(3))],
    );
    assert_eq!(merged.max_completed_level, 6);
    assert_eq!(merged.completed_levels, vec![1, 2, 3, 4, 5, 6]);
    let by_save = UserProgress::from_stored(UserProgress::default(), Some(1), vec![(None, Some(9))]);
    assert_eq!(by_save.max_completed_level, 8);
    assert_eq!(by_save.completed_levels.len(), 8);
}

#[test]
fn profiles_merge_by_name_ignoring_case() {
    let mut older = profile("alice", 10, 4, 300);
    older.has_save = true;
    older.save_level = 7;
    let newer = profile("ALICE", 50, 2, 900);
    let bob = profile("Bob", 50, 1, 1);
    let carl = profile("carl", 99, 0, 0);
    let merged = merge_user_profiles(vec![older, bob, newer, carl]);
    let names: Vec<&str> = merged.iter().map(|p| p.name.as_str()).collect();
    assert_eq!(names, vec!["carl", "ALICE", "Bob"]);
    let alice = &merged[1];
    assert_eq!(alice.last_played_epoch_secs, 50);
    assert!(alice.has_save);
    assert_eq!(alice.save_level, 7);
    assert_eq!(alice.max_completed_level, 4);
    assert_eq!(alice.best_score, 900);
}

#[test]
fn profile_from_folder_records() {
    let mut lb = Leaderboard::default();
    lb.insert(entry("Dana", 750, 90, "2024-02-02"));
    let mut shuffles = ShuffleState::default();
    shuffles.consecutive_days = 6;
    shuffles.best_streak = 3;
    let save = saved_game(12);
    let p = UserProfile::from_records("Dana".to_string(), &vec![5, 40, 17], Some(&save), None, Some(&shuffles), Some(&lb));
    assert!(p.has_save);
    assert_eq!(p.save_level, 12);
    assert_eq!(p.max_completed_level, 0);
    assert_eq!(p.streak, 6);
    assert_eq!(p.best_score, 750);
    assert_eq!(p.last_played_epoch_secs, 40);
    let bare = UserProfile::from_records("Eve".to_string(), &vec![], None, None, None, None);
    assert!(!bare.has_save);
    assert_eq!(bare.save_level, 1);
    assert_eq!(bare.last_played_epoch_secs, 0);
}

#[test]
fn sanitize_never_names_the_folder_itself_or_its_parent() {
    assert_eq!(sanitize_user_name("."), "_");
    assert_eq!(sanitize_user_name(" .. "), "__");
    assert_eq!(sanitize_user_name("..."), "...");
    assert_eq!(sanitize_user_name(".hidden"), ".hidden");
    assert_eq!(storage_dir_for_user("/data", ".."), "/data/__");
}

#[test]
fn storage_dir_joins_with_a_single_slash() {
    assert_eq!(storage_dir_for_user("/data/", "x"), "/data/x");
    assert_eq!(storage_dir_for_user("/data", "x"), "/data/x");
    assert_eq!(storage_dir_for_user("C:\\games\\", "x"), "C:\\games\\/x");
    assert_eq!(storage_dir_for_user("", "x"), "x");
}

#[test]
fn profile_folders_skip_hidden_empty_and_scratch() {
    assert!(!is_profile_folder(""));
    assert!(!is_profile_folder(".hidden"));
    assert!(!is_profile_folder("."));
    assert!(!is_profile_folder("scratch"));
    assert!(is_profile_folder("Scratch"));
    assert!(is_profile_folder("scratchpad"));
    assert!(is_profile_folder("Alice"));
}

#[test]
fn same_name_ignores_case_only() {
    assert!(same_name_ignoring_case("ALICE", "alice"));
    assert!(same_name_ignoring_case("Zoë", "ZOË"));
    assert!(!same_name_ignoring_case("Bob", "alice"));
    assert!(!same_name_ignoring_case("alice", "alice "));
}
