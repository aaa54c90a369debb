//! Persistent records of the game: player names and storage folders, the
//! leaderboard, trophies, settings, the daily bonus, saved games, level
//! progress and player profiles.
//!
//! Reading and writing the JSON files is done by the caller; this module holds
//! the records and every decision made on them.

use vstd::prelude::*;

use crate::order::{ascending, contains_level, lemma_insert_multiset, sort_ascending, sort_dedup, strictly_ascending};
use crate::text::{chars_of, decimal, is_ws, lemma_trim_ends, lemma_trim_fixed, lemma_lex_total, lemma_lex_trans, lex_le, lex_le_chars, is_cc, is_control, push_chars, push_decimal, trim, trim_bounds};

verus! {

/// The name used when a user name is blank.
pub open spec fn default_user_name() -> Seq<char> {
    seq!['d', 'e', 'f', 'a', 'u', 'l', 't']
}

/// Characters that may not appear in a folder name on common platforms.
pub open spec fn is_path_reserved(c: char) -> bool {
    c == '/' || c == '\\' || c == ':' || c == '*' || c == '?' || c == '"' || c == '<' || c
        == '>' || c == '|'
}

/// A character of a user name as it appears in its folder name.
pub open spec fn folder_char(c: char) -> char {
    if is_path_reserved(c) || is_cc(c) {
        '_'
    } else {
        c
    }
}

/// `.` or `..`: names that denote the folder itself or its parent.
pub open spec fn is_dot_name(s: Seq<char>) -> bool {
    s == seq!['.'] || s == seq!['.', '.']
}

/// Folder name for a user: the trimmed name with reserved and control characters
/// replaced by `_`; `default` when the trimmed name is empty; and `_` or `__` in
/// place of `.` or `..`, so that the folder is always a child of the base folder.
pub open spec fn spec_sanitize(name: Seq<char>) -> Seq<char> {
    let t = trim(name);
    if t.len() == 0 {
        default_user_name()
    } else if is_dot_name(t) {
        Seq::new(t.len(), |i: int| '_')
    } else {
        t.map_values(|c: char| folder_char(c))
    }
}

/// Sanitizes a username string so it can be safely used as a directory name.
pub fn sanitize_user_name(user_name: &str) -> (s: String)
    ensures
        s@ == spec_sanitize(user_name@),
{
    let v = chars_of(user_name);
    let (lo, hi) = trim_bounds(&v);
    if lo == hi {
        let d = String::from_str("default");
        proof {
            reveal_strlit("default");
        }
        assert(d@ =~= default_user_name());
        return d;
    }
    let ghost t = trim(v@);
    if (hi - lo == 1 && v[lo] == '.') || (hi - lo == 2 && v[lo] == '.' && v[lo + 1] == '.') {
        let mut s = String::new();
        crate::text::string_push(&mut s, '_');
        if hi - lo == 2 {
            crate::text::string_push(&mut s, '_');
        }
        proof {
            if hi - lo == 1 {
                assert(t =~= seq!['.']);
            } else {
                assert(t =~= seq!['.', '.']);
            }
        }
        assert(s@ =~= spec_sanitize(user_name@));
        return s;
    }
    assert(!is_dot_name(t)) by {
        assert(t == v@.subrange(lo as int, hi as int));
        assert(t.len() == hi - lo);
        if t == seq!['.'] {
            assert(seq!['.'][0] == '.');
            assert(t[0] == v@[lo as int]);
        }
        if t == seq!['.', '.'] {
            assert(seq!['.', '.'][0] == '.' && seq!['.', '.'][1] == '.');
            assert(t[0] == v@[lo as int]);
            assert(t[1] == v@[lo + 1]);
        }
    }
    let mut out: Vec<char> = Vec::new();
    let mut i = lo;
    while i < hi
        invariant
            lo <= i <= hi,
            hi <= v@.len(),
            t == v@.subrange(lo as int, hi as int),
            out@ == t.subrange(0, i - lo).map_values(|c: char| folder_char(c)),
        decreases hi - i,
    {
        let c = v[i];
        let mapped = if c == '/' || c == '\\' || c == ':' || c == '*' || c == '?' || c == '"' || c
            == '<' || c == '>' || c == '|' || is_control(c) {
            '_'
        } else {
            c
        };
        out.push(mapped);
        i = i + 1;
        assert(out@ =~= t.subrange(0, i - lo).map_values(|c: char| folder_char(c)));
    }
    assert(t.subrange(0, t.len() as int) =~= t);
    let mut s = String::new();
    push_chars(&mut s, &out, 0, out.len());
    assert(out@.subrange(0, out@.len() as int) =~= out@);
    s
}

/// `base` joined with the folder `name` as `Path::join` joins a relative name on
/// Unix: separated by `/` unless `base` is empty or already ends with `/`.
/// (Windows accepts `/` as a separator as well.)
pub open spec fn join_dir(base: Seq<char>, name: Seq<char>) -> Seq<char> {
    if base.len() == 0 {
        name
    } else if base.last() == '/' {
        base + name
    } else {
        base + seq!['/'] + name
    }
}

/// Returns the storage directory path for a specific username below `base_dir`,
/// e.g. `~/.local/share/xmahjong/<user_name>`.
pub fn storage_dir_for_user(base_dir: &str, user_name: &str) -> (dir: String)
    ensures
        dir@ == join_dir(base_dir@, spec_sanitize(user_name@)),
{
    let safe = sanitize_user_name(user_name);
    let base = chars_of(base_dir);
    let name = chars_of(safe.as_str());
    let mut dir = String::new();
    push_chars(&mut dir, &base, 0, base.len());
    assert(base@.subrange(0, base@.len() as int) =~= base@);
    let n = base.len();
    if n > 0 && base[n - 1] != '/' {
        crate::text::string_push(&mut dir, '/');
    }
    push_chars(&mut dir, &name, 0, name.len());
    assert(name@.subrange(0, name@.len() as int) =~= name@);
    assert(dir@ =~= join_dir(base_dir@, spec_sanitize(user_name@)));
    dir
}

/// Default level value for saved games that do not record one.
pub fn default_level() -> (l: u32)
    ensures
        l == 1,
{
    1
}

/// `easy`, the difficulty assumed for records that do not name one.
pub open spec fn easy_name() -> Seq<char> {
    seq!['e', 'a', 's', 'y']
}

/// Default difficulty value for records that do not name one.
pub fn default_difficulty_str() -> (s: String)
    ensures
        s@ == easy_name(),
{
    let s = String::from_str("easy");
    proof {
        reveal_strlit("easy");
    }
    assert(s@ =~= easy_name());
    s
}

/// Summary profile for an existing player discovered in local storage.
#[derive(Debug, Clone, PartialEq, Eq)]
pub struct UserProfile {
    /// Canonical display name of the player.
    pub name: String,
    /// Whether an in-progress saved game exists.
    pub has_save: bool,
    /// Level number of the saved game (if any, default 1).
    pub save_level: u32,
    /// Highest level completed by the player (0 if none completed yet).
    pub max_completed_level: u32,
    /// Consecutive launch day streak.
    pub streak: u32,
    /// Best recorded leaderboard score.
    pub best_score: u32,
    /// Last played or modified time in epoch seconds (for sorting most recent first).
    pub last_played_epoch_secs: u64,
}

/// A single leaderboard entry recording a completed game.
#[derive(Debug, Clone, PartialEq)]
pub struct LeaderboardEntry {
    /// Player name (1-20 characters).
    pub name: String,
    /// Final game score.
    pub score: u32,
    /// Time to complete in seconds.
    pub time_seconds: u32,
    /// Total number of hints used across all levels.
    pub hints_used: u32,
    /// Total number of shuffles used across all levels.
    pub shuffles_used: u32,
    /// Total number of undos used across all levels.
    pub undos_used: u32,
    /// Difficulty level ("easy" or "normal").
    pub difficulty: String,
    /// Date of completion in ISO 8601 format.
    pub date: String,
    /// Number of consecutive days played when score was achieved.
    pub consecutive_days: u32,
}

/// Achievement tag for a game finished without hints.
pub open spec fn no_hints_tag() -> Seq<char> {
    seq!['N', 'O', '-', 'H', 'N', 'T']
}

/// Achievement tag for a game finished without shuffles.
pub open spec fn no_shuffles_tag() -> Seq<char> {
    seq!['N', 'O', '-', 'S', 'H', 'F']
}

/// Achievement tag for a game finished without undos.
pub open spec fn no_undos_tag() -> Seq<char> {
    seq!['N', 'O', '-', 'U', 'N', 'D']
}

/// Achievement tag for a game finished in under three minutes.
pub open spec fn speedy_tag() -> Seq<char> {
    seq!['S', 'P', 'E', 'E', 'D', 'Y']
}

/// Achievement tag for a streak of `days` consecutive days: `STRK:<days>`.
pub open spec fn streak_tag(days: u32) -> Seq<char> {
    seq!['S', 'T', 'R', 'K', ':'] + decimal(days as nat)
}

/// `seq![tag]` when `cond` holds, the empty sequence otherwise.
pub open spec fn tag_if(cond: bool, tag: Seq<char>) -> Seq<Seq<char>> {
    if cond {
        seq![tag]
    } else {
        Seq::empty()
    }
}

/// Achievements of an entry, in the order they are listed.
pub open spec fn spec_achievements(e: LeaderboardEntry) -> Seq<Seq<char>> {
    tag_if(e.hints_used == 0, no_hints_tag()) + tag_if(e.shuffles_used == 0, no_shuffles_tag())
        + tag_if(e.undos_used == 0, no_undos_tag()) + tag_if(
        0 < e.time_seconds < 180,
        speedy_tag(),
    ) + tag_if(e.consecutive_days > 1, streak_tag(e.consecutive_days))
}

/// The views of a sequence of strings.
pub open spec fn views(v: Seq<String>) -> Seq<Seq<char>> {
    v.map_values(|s: String| s@)
}

/// `tag_if(cond, tag)` holds `x` exactly when `cond` holds and `x` is `tag`.
proof fn lemma_tag_if_contains(cond: bool, tag: Seq<char>, x: Seq<char>)
    ensures
        tag_if(cond, tag).contains(x) <==> cond && x == tag,
{
    broadcast use vstd::seq_lib::lemma_seq_contains;

    if cond {
        assert(tag_if(cond, tag)[0] == tag);
    }
}

/// Each achievement is awarded on its own condition and on no other: `NO-HNT`
/// exactly when no hint was used, `NO-SHF` exactly when no shuffle was used,
/// `NO-UND` exactly when no undo was used, `SPEEDY` exactly for a time of 1 to 179
/// seconds, and the streak tag exactly for a streak of more than one day.
pub proof fn lemma_achievement_conditions(e: LeaderboardEntry)
    ensures
        spec_achievements(e).contains(no_hints_tag()) <==> e.hints_used == 0,
        spec_achievements(e).contains(no_shuffles_tag()) <==> e.shuffles_used == 0,
        spec_achievements(e).contains(no_undos_tag()) <==> e.undos_used == 0,
        spec_achievements(e).contains(speedy_tag()) <==> 0 < e.time_seconds < 180,
        spec_achievements(e).contains(streak_tag(e.consecutive_days)) <==> e.consecutive_days > 1,
{
    broadcast use vstd::seq_lib::lemma_seq_concat_contains_all_elements;

    let h = no_hints_tag();
    let sh = no_shuffles_tag();
    let u = no_undos_tag();
    let sp = speedy_tag();
    let st = streak_tag(e.consecutive_days);
    assert(st[1] == 'T');
    assert(h[3] != sh[3] && h[3] != u[3] && sh[3] != u[3]);
    assert(h[0] != sp[0] || h[1] != sp[1]);
    assert(sh[1] != sp[1] && u[1] != sp[1]);
    assert(h[1] != st[1] && sh[1] != st[1] && u[1] != st[1] && sp[1] != st[1]);
    assert forall|x: Seq<char>| #![trigger spec_achievements(e).contains(x)]
        spec_achievements(e).contains(x) <==> ((e.hints_used == 0 && x == h) || (e.shuffles_used
            == 0 && x == sh) || (e.undos_used == 0 && x == u) || (0 < e.time_seconds < 180 && x
            == sp) || (e.consecutive_days > 1 && x == st)) by {
        lemma_tag_if_contains(e.hints_used == 0, h, x);
        lemma_tag_if_contains(e.shuffles_used == 0, sh, x);
        lemma_tag_if_contains(e.undos_used == 0, u, x);
        lemma_tag_if_contains(0 < e.time_seconds < 180, sp, x);
        lemma_tag_if_contains(e.consecutive_days > 1, st, x);
    }
    assert(spec_achievements(e).contains(h) == (e.hints_used == 0));
    assert(spec_achievements(e).contains(sh) == (e.shuffles_used == 0));
    assert(spec_achievements(e).contains(u) == (e.undos_used == 0));
    assert(spec_achievements(e).contains(sp) == (0 < e.time_seconds < 180));
    assert(spec_achievements(e).contains(st) == (e.consecutive_days > 1));
}

impl LeaderboardEntry {
    /// Validates a player name. Returns true if the name is 1-20 characters.
    pub fn is_valid_name(name: &str) -> (b: bool)
        ensures
            b == (1 <= name@.len() <= 20),
    {
        let len = name.unicode_len();
        1 <= len && len <= 20
    }

    /// Dynamically calculates achievements based on the entry's stats:
    /// `NO-HNT`, `NO-SHF`, `NO-UND` for a game without hints, shuffles or undos,
    /// `SPEEDY` for a time under 180 seconds, `STRK:<days>` for a streak of more than one day.
    pub fn get_achievements(&self) -> (achs: Vec<String>)
        ensures
            views(achs@) == spec_achievements(*self),
    {
        let mut achs: Vec<String> = Vec::new();
        if self.hints_used == 0 {
            let t = String::from_str("NO-HNT");
            proof {
                reveal_strlit("NO-HNT");
            }
            assert(t@ =~= no_hints_tag());
            achs.push(t);
        }
        assert(views(achs@) =~= tag_if(self.hints_used == 0, no_hints_tag()));
        if self.shuffles_used == 0 {
            let t = String::from_str("NO-SHF");
            proof {
                reveal_strlit("NO-SHF");
            }
            assert(t@ =~= no_shuffles_tag());
            achs.push(t);
        }
        assert(views(achs@) =~= tag_if(self.hints_used == 0, no_hints_tag()) + tag_if(
            self.shuffles_used == 0,
            no_shuffles_tag(),
        ));
        if self.undos_used == 0 {
            let t = String::from_str("NO-UND");
            proof {
                reveal_strlit("NO-UND");
            }
            assert(t@ =~= no_undos_tag());
            achs.push(t);
        }
        assert(views(achs@) =~= tag_if(self.hints_used == 0, no_hints_tag()) + tag_if(
            self.shuffles_used == 0,
            no_shuffles_tag(),
        ) + tag_if(self.undos_used == 0, no_undos_tag()));
        if self.time_seconds > 0 && self.time_seconds < 180 {
            let t = String::from_str("SPEEDY");
            proof {
                reveal_strlit("SPEEDY");
            }
            assert(t@ =~= speedy_tag());
            achs.push(t);
        }
        assert(views(achs@) =~= tag_if(self.hints_used == 0, no_hints_tag()) + tag_if(
            self.shuffles_used == 0,
            no_shuffles_tag(),
        ) + tag_if(self.undos_used == 0, no_undos_tag()) + tag_if(
            0 < self.time_seconds < 180,
            speedy_tag(),
        ));
        if self.consecutive_days > 1 {
            let mut t = String::from_str("STRK:");
            proof {
                reveal_strlit("STRK:");
            }
            assert(t@ =~= seq!['S', 'T', 'R', 'K', ':']);
            push_decimal(&mut t, self.consecutive_days as u64);
            achs.push(t);
        }
        assert(views(achs@) =~= spec_achievements(*self));
        achs
    }
}

/// Leaderboard of the player: it keeps only the entry of the last completed game.
#[derive(Debug, Clone)]
pub struct Leaderboard {
    pub entries: Vec<LeaderboardEntry>,
}

impl Default for Leaderboard {
    fn default() -> (lb: Self)
        ensures
            lb.entries@ == Seq::<LeaderboardEntry>::empty(),
    {
        Self { entries: Vec::new() }
    }
}

impl Leaderboard {
    /// Returns true if the given score qualifies for the achievement board (always true).
    pub fn qualifies(&self, _score: u32) -> (b: bool)
        ensures
            b,
    {
        true
    }

    /// Inserts a new entry, replacing any previous entry to only store the last match.
    pub fn insert(&mut self, entry: LeaderboardEntry)
        ensures
            final(self).entries@ == seq![entry],
    {
        self.entries.clear();
        self.entries.push(entry);
    }
}

/// Persistent trophy achievement state: cumulative counts of repeatable achievements.
///
/// - Perfect Combo: complete a level with zero mismatches
/// - Rapid Clear: complete a level within the time threshold of its difficulty tier
/// - levels cleared without hints, without shuffles, without undos
#[derive(Debug, Clone, Copy)]
pub struct TrophyState {
    /// Number of times a Perfect Combo was achieved (0 mismatches in a completed level).
    pub perfect_combo_count: u32,
    /// Number of times a Rapid Clear was achieved (level completed within time threshold).
    pub rapid_clear_count: u32,
    /// Number of levels cleared without using any hints.
    pub no_hints_count: u32,
    /// Number of levels cleared without using any shuffles.
    pub no_shuffles_count: u32,
    /// Number of levels cleared without using any undos.
    pub no_undos_count: u32,
    /// Total career score accumulated across all completed levels.
    pub total_career_score: u64,
}

impl Default for TrophyState {
    fn default() -> (t: Self)
        ensures
            t == (TrophyState {
                perfect_combo_count: 0,
                rapid_clear_count: 0,
                no_hints_count: 0,
                no_shuffles_count: 0,
                no_undos_count: 0,
                total_career_score: 0,
            }),
    {
        Self {
            perfect_combo_count: 0,
            rapid_clear_count: 0,
            no_hints_count: 0,
            no_shuffles_count: 0,
            no_undos_count: 0,
            total_career_score: 0,
        }
    }
}

/// Rapid Clear threshold in seconds by level tier:
/// 120 (levels 1-10), 180 (11-20), 240 (21-30), 300 (31-40), 360 otherwise.
pub open spec fn spec_rapid_clear_threshold(level: u32) -> u32 {
    if 1 <= level <= 10 {
        120
    } else if 11 <= level <= 20 {
        180
    } else if 21 <= level <= 30 {
        240
    } else if 31 <= level <= 40 {
        300
    } else {
        360
    }
}

impl TrophyState {
    /// Returns the rapid clear time threshold in seconds for a given level.
    /// Lower levels have tighter thresholds (easier boards = less time allowed).
    pub fn rapid_clear_threshold(level: u32) -> (t: u32)
        ensures
            t == spec_rapid_clear_threshold(level),
    {
        if 1 <= level && level <= 10 {
            120
        } else if 11 <= level && level <= 20 {
            180
        } else if 21 <= level && level <= 30 {
            240
        } else if 31 <= level && level <= 40 {
            300
        } else {
            360
        }
    }

    /// Checks if a Perfect Combo was achieved (no mismatches in the level).
    /// If so, increments the counter and returns true.
    pub fn check_perfect_combo(&mut self, mismatches: u32) -> (achieved: bool)
        requires
            mismatches == 0 ==> old(self).perfect_combo_count < u32::MAX,
        ensures
            achieved == (mismatches == 0),
            *final(self) == (TrophyState {
                perfect_combo_count: (old(self).perfect_combo_count + if achieved { 1int } else { 0int }) as u32,
                ..*old(self)
            }),
    {
        if mismatches == 0 {
            self.perfect_combo_count = self.perfect_combo_count + 1;
            true
        } else {
            false
        }
    }

    /// Checks if a Rapid Clear was achieved (level completed within threshold).
    /// If so, increments the counter and returns true.
    pub fn check_rapid_clear(&mut self, level: u32, elapsed_seconds: u32) -> (achieved: bool)
        requires
            0 < elapsed_seconds <= spec_rapid_clear_threshold(level) ==> old(self).rapid_clear_count
                < u32::MAX,
        ensures
            achieved == (0 < elapsed_seconds <= spec_rapid_clear_threshold(level)),
            *final(self) == (TrophyState {
                rapid_clear_count: (old(self).rapid_clear_count + if achieved { 1int } else { 0int }) as u32,
                ..*old(self)
            }),
    {
        let threshold = Self::rapid_clear_threshold(level);
        if elapsed_seconds > 0 && elapsed_seconds <= threshold {
            self.rapid_clear_count = self.rapid_clear_count + 1;
            true
        } else {
            false
        }
    }

    /// Checks if a level was cleared without hints. Increments counter if so.
    pub fn check_no_hints(&mut self, hints_used: u32) -> (achieved: bool)
        requires
            hints_used == 0 ==> old(self).no_hints_count < u32::MAX,
        ensures
            achieved == (hints_used == 0),
            *final(self) == (TrophyState {
                no_hints_count: (old(self).no_hints_count + if achieved { 1int } else { 0int }) as u32,
                ..*old(self)
            }),
    {
        if hints_used == 0 {
            self.no_hints_count = self.no_hints_count + 1;
            true
        } else {
            false
        }
    }

    /// Checks if a level was cleared without shuffles. Increments counter if so.
    pub fn check_no_shuffles(&mut self, shuffles_used: u32) -> (achieved: bool)
        requires
            shuffles_used == 0 ==> old(self).no_shuffles_count < u32::MAX,
        ensures
            achieved == (shuffles_used == 0),
            *final(self) == (TrophyState {
                no_shuffles_count: (old(self).no_shuffles_count + if achieved { 1int } else { 0int }) as u32,
                ..*old(self)
            }),
    {
        if shuffles_used == 0 {
            self.no_shuffles_count = self.no_shuffles_count + 1;
            true
        } else {
            false
        }
    }

    /// Checks if a level was cleared without undos. Increments counter if so.
    pub fn check_no_undos(&mut self, undos_used: u32) -> (achieved: bool)
        requires
            undos_used == 0 ==> old(self).no_undos_count < u32::MAX,
        ensures
            achieved == (undos_used == 0),
            *final(self) == (TrophyState {
                no_undos_count: (old(self).no_undos_count + if achieved { 1int } else { 0int }) as u32,
                ..*old(self)
            }),
    {
        if undos_used == 0 {
            self.no_undos_count = self.no_undos_count + 1;
            true
        } else {
            false
        }
    }
}

/// Game settings that persist across sessions.
#[derive(Debug, Clone, Copy)]
pub struct Settings {
    pub muted: bool,
}

impl Default for Settings {
    fn default() -> (s: Self)
        ensures
            !s.muted,
    {
        Self { muted: false }
    }
}

/// Persistent shuffle state tracking the daily bonus and the launch streak.
#[derive(Debug, Clone)]
pub struct ShuffleState {
    /// The last date (ISO 8601 YYYY-MM-DD) the user launched the game and received a daily bonus.
    pub last_bonus_date: String,
    /// Days since unix epoch of the last launch.
    pub last_launch_epoch_days: u64,
    /// Number of consecutive days launched.
    pub consecutive_days: u32,
    /// Maximum streak record achieved.
    pub best_streak: u32,
}

impl Default for ShuffleState {
    fn default() -> (s: Self)
        ensures
            s.last_bonus_date@ == Seq::<char>::empty(),
            s.last_launch_epoch_days == 0,
            s.consecutive_days == 0,
            s.best_streak == 0,
    {
        Self {
            last_bonus_date: String::new(),
            last_launch_epoch_days: 0,
            consecutive_days: 0,
            best_streak: 0,
        }
    }
}

impl ShuffleState {
    /// Brings the best streak up to the current streak when the current one is longer,
    /// as done for every state read from storage.
    pub fn refresh_best_streak(&mut self)
        ensures
            final(self).best_streak == (if old(self).consecutive_days > old(self).best_streak {
                old(self).consecutive_days
            } else {
                old(self).best_streak
            }),
            final(self).last_bonus_date == old(self).last_bonus_date,
            final(self).last_launch_epoch_days == old(self).last_launch_epoch_days,
            final(self).consecutive_days == old(self).consecutive_days,
    {
        if self.consecutive_days > self.best_streak {
            self.best_streak = self.consecutive_days;
        }
    }

    /// Checks if a daily bonus should be applied for the given date.
    /// Returns true if today is different from the last bonus date (bonus should be given).
    /// Updates the last bonus date to today.
    pub fn claim_daily_bonus(&mut self, today: &str) -> (bonus: bool)
        ensures
            claims_bonus(old(self).last_bonus_date@, today@, bonus, final(self).last_bonus_date@),
            final(self).last_launch_epoch_days == old(self).last_launch_epoch_days,
            final(self).consecutive_days == old(self).consecutive_days,
            final(self).best_streak == old(self).best_streak,
    {
        let t = String::from_str(today);
        if !(self.last_bonus_date == t) {
            self.last_bonus_date = t;
            true
        } else {
            false
        }
    }
}

/// A saved game state that can be resumed later: board tile faces (`None` for
/// removed tiles), undo stack, timer and score counters.
#[derive(Debug, Clone, PartialEq)]
pub struct SavedGame {
    /// For each of the 144 positions: `Some(face_id)` if a tile is present, `None` if removed.
    pub tiles: Vec<Option<u8>>,
    /// Undo stack: each entry records (pos_a, face_a, pos_b, face_b).
    pub undo_stack: Vec<(usize, u8, usize, u8)>,
    /// Elapsed time in milliseconds at the time of save.
    pub elapsed_ms: u64,
    /// Number of hints used.
    pub hints_used: u32,
    /// Number of shuffles used.
    pub shuffles_used: u32,
    /// Number of shuffles remaining.
    pub shuffles_remaining: u32,
    /// Number of pairs matched so far.
    pub pairs_matched: u32,
    /// Number of undos used this level.
    pub undos_used: u32,
    /// Current level.
    pub level: u32,
    /// Accumulated score from previous levels.
    pub base_score: u32,
    /// Accumulated time in milliseconds from previous levels.
    pub base_time_ms: u64,
    /// Accumulated hints used from previous levels.
    pub base_hints: u32,
    /// Accumulated shuffles used from previous levels.
    pub base_shuffles: u32,
    /// Accumulated undos used from previous levels.
    pub base_undos: u32,
    /// Difficulty level for this session ("easy" or "normal").
    pub difficulty: String,
}

/// Highest level of the game.
pub const MAX_LEVEL: u32 = 1000;

impl SavedGame {
    /// Whether the saved level is a playable one (1-1000); a save outside that
    /// range is treated as absent when loading.
    pub fn has_playable_level(&self) -> (b: bool)
        ensures
            b == (1 <= self.level <= 1000),
    {
        1 <= self.level && self.level <= MAX_LEVEL
    }
}

/// Persistent level completion progress of a user.
#[derive(Debug, Clone, PartialEq)]
pub struct UserProgress {
    /// Highest level completed by the user (0 if none completed yet).
    pub max_completed_level: u32,
    /// Specific completed level numbers.
    pub completed_levels: Vec<u32>,
}

impl View for UserProgress {
    type V = (u32, Seq<u32>);

    /// The highest completed level and the list of completed levels.
    open spec fn view(&self) -> (u32, Seq<u32>) {
        (self.max_completed_level, self.completed_levels@)
    }
}

impl Default for UserProgress {
    fn default() -> (p: Self)
        ensures
            p@ == (0u32, Seq::<u32>::empty()),
    {
        Self { max_completed_level: 0, completed_levels: Vec::new() }
    }
}

/// The levels `lo, lo + 1, ..., hi - 1`.
pub open spec fn level_range(lo: int, hi: int) -> Seq<u32> {
    Seq::new(if hi > lo { (hi - lo) as nat } else { 0 }, |i: int| (lo + i) as u32)
}

/// Whether `level` counts as completed: listed, or not above the highest completed level.
pub open spec fn spec_is_completed(p: (u32, Seq<u32>), level: u32) -> bool {
    p.1.contains(level) || (p.0 > 0 && level <= p.0)
}

/// Whether `level` may be played: level 1, any level up to one past the highest
/// completed level (within the 1000 levels), or a listed completed level.
pub open spec fn spec_is_unlocked(p: (u32, Seq<u32>), level: u32) -> bool {
    level == 1 || (level <= p.0 + 1 && level <= 1000) || p.1.contains(level)
}

/// Highest level that a game in progress at `current` proves completed (0 for none).
pub open spec fn synced_level(current: u32) -> int {
    if current <= 1 {
        0
    } else if current - 1 < 1000 {
        current - 1
    } else {
        1000
    }
}

/// Progress after the own saved game is taken into account: a save at level `l > 1`
/// marks levels `1..l` completed when nothing was completed yet.
pub open spec fn with_own_save(p: (u32, Seq<u32>), save_level: Option<u32>) -> (u32, Seq<u32>) {
    match save_level {
        Some(l) => if p.0 == 0 && l > 1 {
            ((l - 1) as u32, level_range(1, l as int))
        } else {
            p
        },
        None => p,
    }
}

/// Progress after one folder whose name matches the user's up to case: its
/// progress is taken when it went further, then its saved game is applied.
pub open spec fn with_same_name_record(
    p: (u32, Seq<u32>),
    rec: (Option<(u32, Seq<u32>)>, Option<u32>),
) -> (u32, Seq<u32>) {
    let p1 = match rec.0 {
        Some(o) => if o.0 > p.0 {
            o
        } else {
            p
        },
        None => p,
    };
    match rec.1 {
        Some(l) => if l > 1 && l - 1 > p1.0 {
            ((l - 1) as u32, level_range(1, l as int))
        } else {
            p1
        },
        None => p1,
    }
}

/// Progress after the folders `recs`, taken in order.
pub open spec fn with_same_name_records(
    p: (u32, Seq<u32>),
    recs: Seq<(Option<(u32, Seq<u32>)>, Option<u32>)>,
) -> (u32, Seq<u32>)
    decreases recs.len(),
{
    if recs.len() == 0 {
        p
    } else {
        with_same_name_record(with_same_name_records(p, recs.drop_last()), recs.last())
    }
}

/// The progress a user gets from the stored records: the stored progress, completed
/// from the own saved game and from same-name folders while nothing is completed,
/// with the list filled as `1..=max` when it is empty.
pub open spec fn spec_from_stored(
    stored: (u32, Seq<u32>),
    save_level: Option<u32>,
    recs: Seq<(Option<(u32, Seq<u32>)>, Option<u32>)>,
) -> (u32, Seq<u32>) {
    let a = with_own_save(stored, save_level);
    let b = if a.0 == 0 {
        with_same_name_records(a, recs)
    } else {
        a
    };
    if b.0 > 0 && b.1.len() == 0 {
        (b.0, level_range(1, b.0 + 1))
    } else {
        b
    }
}

/// View of a same-name folder record.
pub open spec fn record_view(r: (Option<UserProgress>, Option<u32>)) -> (
    Option<(u32, Seq<u32>)>,
    Option<u32>,
) {
    (
        match r.0 {
            Some(p) => Some(p@),
            None => None,
        },
        r.1,
    )
}

/// The levels `lo..hi` as a vector.
fn level_vec(lo: u32, hi: u32) -> (v: Vec<u32>)
    ensures
        v@ == level_range(lo as int, hi as int),
{
    let mut v: Vec<u32> = Vec::new();
    let mut l = lo;
    while l < hi
        invariant
            lo <= l <= hi || (hi <= lo && l == lo),
            v@ == level_range(lo as int, l as int),
        decreases hi - l,
    {
        v.push(l);
        l = l + 1;
        assert(v@ =~= level_range(lo as int, l as int));
    }
    assert(v@ =~= level_range(lo as int, hi as int));
    v
}

/// Highest completed level after synchronizing `p` with a game at level `current`.
pub open spec fn synced_max(p: (u32, Seq<u32>), current: u32) -> int {
    if synced_level(current) > p.0 {
        synced_level(current)
    } else {
        p.0 as int
    }
}

/// `r` with flag `changed` is the outcome of synchronizing `stored` with a game at
/// level `current`: the highest completed level becomes `synced_max`, and when
/// anything was missing the list becomes the strictly ascending list of the
/// stored levels and all levels `1..=synced_max`; otherwise it is unchanged.
pub open spec fn syncs_progress(
    stored: (u32, Seq<u32>),
    current: u32,
    r: (u32, Seq<u32>),
    changed: bool,
) -> bool {
    let new_max = synced_max(stored, current);
    let missing = exists|l: u32| 1 <= l <= new_max && !stored.1.contains(l);
    &&& changed == (synced_level(current) > stored.0 || missing)
    &&& r.0 == new_max
    &&& changed ==> strictly_ascending(r.1)
    &&& changed ==> r.1.to_set() == stored.1.to_set() + level_range(1, new_max + 1).to_set()
    &&& !changed ==> r.1 == stored.1
}

/// `new` with flag `changed` is the outcome of marking `level` completed in `old`:
/// the highest completed level is raised to `level` if below it, and a level not
/// yet listed is added with the list sorted ascending.
pub open spec fn marks_completed(
    old: (u32, Seq<u32>),
    level: u32,
    new: (u32, Seq<u32>),
    changed: bool,
) -> bool {
    &&& changed == (!old.1.contains(level) || level > old.0)
    &&& new.0 == (if level > old.0 {
        level
    } else {
        old.0
    })
    &&& old.1.contains(level) ==> new.1 == old.1
    &&& !old.1.contains(level) ==> ascending(new.1) && new.1.to_multiset() == old.1.push(
        level,
    ).to_multiset()
}

/// A level marked completed is completed, and marking it again changes nothing.
pub proof fn lemma_mark_completed_effect(
    old: (u32, Seq<u32>),
    level: u32,
    new: (u32, Seq<u32>),
    changed: bool,
    again: (u32, Seq<u32>),
    changed_again: bool,
)
    requires
        marks_completed(old, level, new, changed),
        marks_completed(new, level, again, changed_again),
    ensures
        spec_is_completed(new, level),
        !changed_again,
        again == new,
{
    broadcast use vstd::seq_lib::group_to_multiset_ensures;

    if !old.1.contains(level) {
        assert(old.1.push(level).to_multiset().count(level) > 0) by {
            assert(old.1.push(level).contains(level)) by {
                assert(old.1.push(level)[old.1.len() as int] == level);
            }
        }
        assert(new.1.to_multiset().count(level) > 0);
    }
    assert(new.1.contains(level));
}

/// Every completed level within the game's 1000 levels can be played.
pub proof fn lemma_completed_is_unlocked(p: (u32, Seq<u32>), level: u32)
    requires
        spec_is_completed(p, level),
        level <= 1000,
    ensures
        spec_is_unlocked(p, level),
{
}

/// After synchronizing with a game at level `current >= 2`, every level below it
/// (up to 1000) is completed, the level of the game itself is unlocked, and a
/// second synchronization changes nothing.
pub proof fn lemma_sync_completes_earlier_levels(
    stored: (u32, Seq<u32>),
    current: u32,
    r: (u32, Seq<u32>),
    changed: bool,
    again: (u32, Seq<u32>),
    changed_again: bool,
)
    requires
        syncs_progress(stored, current, r, changed),
        syncs_progress(r, current, again, changed_again),
    ensures
        forall|l: u32| 1 <= l <= synced_level(current) ==> spec_is_completed(r, l),
        2 <= current <= 1000 ==> spec_is_unlocked(r, current),
        !changed_again,
        again == r,
{
    let new_max = synced_max(stored, current);
    assert forall|l: u32| 1 <= l <= new_max implies r.1.contains(l) by {
        if changed {
            assert(level_range(1, new_max + 1)[l - 1] == l);
            assert(level_range(1, new_max + 1).to_set().contains(l));
            assert(r.1.to_set().contains(l));
        } else {
            if !stored.1.contains(l) {
                assert(1 <= l <= new_max && !stored.1.contains(l));
            }
        }
    }
    assert(synced_max(r, current) == r.0);
    assert(!(exists|l: u32| 1 <= l <= r.0 && !r.1.contains(l)));
}

/// A stored progress with completed levels is taken as it is.
pub proof fn lemma_stored_progress_kept(
    stored: (u32, Seq<u32>),
    save_level: Option<u32>,
    recs: Seq<(Option<(u32, Seq<u32>)>, Option<u32>)>,
)
    requires
        stored.0 > 0,
        stored.1.len() > 0,
    ensures
        spec_from_stored(stored, save_level, recs) == stored,
{
}

impl UserProgress {
    /// The progress of a user as read from storage.
    ///
    /// `stored` is the user's own progress record (the default when absent),
    /// `save_level` the level of the user's own saved game (when present),
    /// and `same_name_records` the progress and saved-game level found in each
    /// storage folder whose name matches the user's up to case.
    /// While nothing is completed, a saved game at level `l > 1` marks `1..l`
    /// completed, and same-name folders that went further are taken; finally an
    /// empty list under a positive maximum is filled with `1..=max`.
    pub fn from_stored(
        stored: UserProgress,
        save_level: Option<u32>,
        same_name_records: Vec<(Option<UserProgress>, Option<u32>)>,
    ) -> (p: UserProgress)
        ensures
            p@ == spec_from_stored(
                stored@,
                save_level,
                same_name_records@.map_values(|r: (Option<UserProgress>, Option<u32>)| record_view(r)),
            ),
    {
        let ghost recs = same_name_records@.map_values(
            |r: (Option<UserProgress>, Option<u32>)| record_view(r),
        );
        let mut progress = stored;
        if progress.max_completed_level == 0 {
            if let Some(l) = save_level {
                if l > 1 {
                    progress.max_completed_level = l - 1;
                    progress.completed_levels = level_vec(1, l);
                }
            }
        }
        assert(progress@ == with_own_save(stored@, save_level));
        if progress.max_completed_level == 0 {
            let ghost start = progress@;
            let mut records = same_name_records;
            let ghost all = records@;
            assert(all.len() == records.len());
            let mut k: usize = 0;
            while records.len() > 0
                invariant
                    k + records@.len() == all.len(),
                    all.len() <= usize::MAX,
                    records@ == all.subrange(k as int, all.len() as int),
                    recs == all.map_values(|r: (Option<UserProgress>, Option<u32>)| record_view(r)),
                    progress@ == with_same_name_records(start, recs.subrange(0, k as int)),
                decreases records.len(),
            {
                let rec = records.remove(0);
                let ghost rv = record_view(rec);
                assert(rv == recs[k as int]);
                let (other_progress, other_save) = rec;
                if let Some(o) = other_progress {
                    if o.max_completed_level > progress.max_completed_level {
                        progress = o;
                    }
                }
                if let Some(l) = other_save {
                    if l > 1 && l - 1 > progress.max_completed_level {
                        progress.max_completed_level = l - 1;
                        progress.completed_levels = level_vec(1, l);
                    }
                }
                assert(recs.subrange(0, k + 1).drop_last() =~= recs.subrange(0, k as int));
                k = k + 1;
                assert(records@ =~= all.subrange(k as int, all.len() as int));
            }
            assert(recs.subrange(0, k as int) =~= recs);
        }
        if progress.max_completed_level > 0 && progress.completed_levels.len() == 0 {
            let top = progress.max_completed_level;
            let mut all = level_vec(1, top);
            all.push(top);
            assert(all@ =~= level_range(1, top + 1));
            progress.completed_levels = all;
        }
        progress
    }

    /// Synchronizes stored progress with the level of the game in memory.
    ///
    /// A game at level `current_game_level > 1` proves levels `1..current_game_level`
    /// completed (at most up to level 1000); every level up to the highest
    /// completed one is added to the list. When anything changed, the list is
    /// sorted and freed of repetitions, and the returned flag asks the caller to
    /// store the result.
    pub fn load_and_sync(stored: UserProgress, current_game_level: u32) -> (r: (UserProgress, bool))
        ensures
            syncs_progress(stored@, current_game_level, r.0@, r.1),
    {
        let mut progress = stored;
        let mut changed = false;
        let up_to: u32 = if current_game_level <= 1 {
            0
        } else if current_game_level - 1 < 1000 {
            current_game_level - 1
        } else {
            1000
        };
        if up_to > progress.max_completed_level {
            progress.max_completed_level = up_to;
            changed = true;
        }
        let new_max = progress.max_completed_level;
        assert(new_max == synced_max(stored@, current_game_level));
        let ghost old_list = stored@.1;
        let ghost keep = |l: u32| !old_list.contains(l);
        let mut lvl: u64 = 1;
        while lvl <= new_max as u64
            invariant
                1 <= lvl <= new_max as u64 + 1,
                new_max == progress.max_completed_level,
                old_list == stored@.1,
                keep == (|l: u32| !old_list.contains(l)),
                progress.completed_levels@ == old_list + level_range(1, lvl as int).filter(keep),
                changed == (up_to > stored@.0 || exists|l: u32| 1 <= l < lvl && !old_list.contains(l)),
            decreases new_max as u64 + 1 - lvl,
        {
            let level = lvl as u32;
            let present = contains_level(&progress.completed_levels, level);
            let ghost prev = level_range(1, lvl as int);
            proof {
                assert(level_range(1, lvl + 1) =~= prev.push(level));
                prev.lemma_filter_push(level, keep);
                if !old_list.contains(level) {
                    assert(!progress.completed_levels@.contains(level)) by {
                        if progress.completed_levels@.contains(level) {
                            let m = choose|m: int|
                                0 <= m < progress.completed_levels@.len()
                                    && #[trigger] progress.completed_levels@[m] == level;
                            if m >= old_list.len() {
                                let f = prev.filter(keep);
                                assert(f[m - old_list.len()] == level);
                                assert(f.contains(level));
                                prev.lemma_filter_contains_rev(keep, level);
                                let j = choose|j: int| 0 <= j < prev.len() && #[trigger] prev[j] == level;
                                assert(prev[j] == 1 + j);
                            } else {
                                assert(old_list[m] == level);
                            }
                        }
                    }
                } else {
                    assert(progress.completed_levels@.contains(level)) by {
                        let m = choose|m: int| 0 <= m < old_list.len() && #[trigger] old_list[m] == level;
                        assert(progress.completed_levels@[m] == level);
                    }
                }
            }
            if !present {
                progress.completed_levels.push(level);
                changed = true;
            }
            assert(progress.completed_levels@ =~= old_list + level_range(1, lvl + 1).filter(keep));
            lvl = lvl + 1;
        }
        let ghost pushed = progress.completed_levels@;
        let ghost full = level_range(1, new_max + 1);
        let ghost added = full.filter(keep);
        proof {
            assert(pushed =~= old_list + added);
            assert(changed == (synced_level(current_game_level) > stored@.0 || exists|l: u32|
                1 <= l <= new_max && !old_list.contains(l)));
            assert(pushed.to_set() =~= old_list.to_set() + full.to_set()) by {
                assert forall|y: u32| pushed.contains(y) implies old_list.contains(y)
                    || full.contains(y) by {
                    let m = choose|m: int| 0 <= m < pushed.len() && #[trigger] pushed[m] == y;
                    if m >= old_list.len() {
                        assert(added[m - old_list.len()] == y);
                        assert(added.contains(y));
                        full.lemma_filter_contains_rev(keep, y);
                    } else {
                        assert(old_list[m] == y);
                    }
                }
                assert forall|y: u32| old_list.contains(y) || full.contains(y)
                    implies pushed.contains(y) by {
                    if old_list.contains(y) {
                        let m = choose|m: int| 0 <= m < old_list.len() && #[trigger] old_list[m] == y;
                        assert(pushed[m] == y);
                    } else {
                        let j = choose|j: int| 0 <= j < full.len() && #[trigger] full[j] == y;
                        full.lemma_filter_contains(keep, j);
                        let m = choose|m: int| 0 <= m < added.len() && #[trigger] added[m] == y;
                        assert(pushed[old_list.len() + m] == y);
                    }
                }
            }
        }
        if changed {
            progress.completed_levels = sort_dedup(&progress.completed_levels);
        } else {
            assert(pushed =~= old_list) by {
                if added.len() > 0 {
                    assert(added.contains(added[0]));
                    full.lemma_filter_contains_rev(keep, added[0]);
                    let j = choose|j: int| 0 <= j < full.len() && #[trigger] full[j] == added[0];
                    assert(1 <= full[j] <= new_max);
                }
            }
        }
        (progress, changed)
    }

    /// Marks a level as completed and updates the highest completed level.
    /// A level not yet listed is added and the list sorted.
    /// Returns true if progress was updated.
    pub fn mark_completed(&mut self, level: u32) -> (changed: bool)
        ensures
            marks_completed(old(self)@, level, final(self)@, changed),
    {
        let mut changed = false;
        if !contains_level(&self.completed_levels, level) {
            self.completed_levels.push(level);
            self.completed_levels = sort_ascending(&self.completed_levels);
            changed = true;
        }
        if level > self.max_completed_level {
            self.max_completed_level = level;
            changed = true;
        }
        changed
    }

    /// Checks whether a given level is unlocked / available to play.
    /// Level 1 is always unlocked. Any completed level or the next playable level is unlocked.
    pub fn is_level_unlocked(&self, level: u32) -> (b: bool)
        requires
            level != 1 ==> self.max_completed_level < u32::MAX,
        ensures
            b == spec_is_unlocked(self@, level),
    {
        if level == 1 {
            return true;
        }
        if level <= self.max_completed_level + 1 && level <= MAX_LEVEL {
            return true;
        }
        contains_level(&self.completed_levels, level)
    }

    /// Checks whether a given level is completed.
    pub fn is_level_completed(&self, level: u32) -> (b: bool)
        ensures
            b == spec_is_completed(self@, level),
    {
        contains_level(&self.completed_levels, level) || (self.max_completed_level > 0 && level
            <= self.max_completed_level)
    }
}

/// A folder name is never empty, never `.` or `..`, holds no reserved or control
/// character, and sanitizing it again leaves it unchanged.
pub proof fn lemma_sanitize_laws(name: Seq<char>)
    ensures
        spec_sanitize(name).len() > 0,
        !is_dot_name(spec_sanitize(name)),
        forall|i: int|
            0 <= i < spec_sanitize(name).len() ==> !is_path_reserved(#[trigger] spec_sanitize(name)[i])
                && !is_cc(spec_sanitize(name)[i]),
        spec_sanitize(spec_sanitize(name)) == spec_sanitize(name),
{
    let t = trim(name);
    let r = spec_sanitize(name);
    lemma_trim_ends(name);
    if t.len() == 0 {
        let d = default_user_name();
        assert(!is_ws(d[0]));
        assert(!is_ws(d.last()));
        lemma_trim_fixed(d);
        assert(d.map_values(|c: char| folder_char(c)) =~= d);
        assert(d.len() == 7);
    } else if is_dot_name(t) {
        assert(!is_ws(r[0]));
        assert(!is_ws(r.last()));
        lemma_trim_fixed(r);
        assert(r.map_values(|c: char| folder_char(c)) =~= r);
        assert(r[0] == '_');
    } else {
        assert(r == t.map_values(|c: char| folder_char(c)));
        assert(!is_ws(r[0]));
        assert(!is_ws(r.last()));
        lemma_trim_fixed(r);
        assert(r.map_values(|c: char| folder_char(c)) =~= r);
        if r.len() == 1 && r[0] == '.' {
            assert(folder_char(t[0]) == '.');
            assert(t =~= seq!['.']);
        }
        if r.len() == 2 && r[0] == '.' && r[1] == '.' {
            assert(folder_char(t[0]) == '.');
            assert(folder_char(t[1]) == '.');
            assert(t =~= seq!['.', '.']);
        }
        assert(!is_dot_name(r)) by {
            if r == seq!['.'] {
                assert(r[0] == '.');
            }
            if r == seq!['.', '.'] {
                assert(r[0] == '.' && r[1] == '.');
            }
        }
    }
}

/// Sanitizing changes a name only where it must: once trimmed, a name other than
/// `.` and `..` keeps its length, every character that is neither reserved nor a
/// control character stays as it is, and the others become `_`. So a trimmed name
/// without such characters is its own folder name.
pub proof fn lemma_sanitize_keeps_plain_characters(name: Seq<char>)
    requires
        trim(name).len() > 0,
        !is_dot_name(trim(name)),
    ensures
        spec_sanitize(name).len() == trim(name).len(),
        forall|i: int|
            0 <= i < trim(name).len() ==> if is_path_reserved(#[trigger] trim(name)[i]) || is_cc(
                trim(name)[i],
            ) {
                spec_sanitize(name)[i] == '_'
            } else {
                spec_sanitize(name)[i] == trim(name)[i]
            },
        (forall|i: int|
            0 <= i < trim(name).len() ==> !is_path_reserved(#[trigger] trim(name)[i]) && !is_cc(
                trim(name)[i],
            )) ==> spec_sanitize(name) == trim(name),
{
    let t = trim(name);
    if forall|i: int| 0 <= i < t.len() ==> !is_path_reserved(#[trigger] t[i]) && !is_cc(t[i]) {
        assert(spec_sanitize(name) =~= t);
    }
}

/// The storage folder of a user is the folder named after the sanitized user
/// name, directly below the base folder.
pub proof fn lemma_storage_dir_ends_with_name(base: Seq<char>, name: Seq<char>)
    ensures
        ({
            let dir = join_dir(base, spec_sanitize(name));
            let n = spec_sanitize(name);
            &&& dir.len() >= n.len()
            &&& dir.subrange(dir.len() - n.len(), dir.len() as int) == n
            &&& base.len() > 0 ==> dir.subrange(0, base.len() as int) == base
        }),
{
    let dir = join_dir(base, spec_sanitize(name));
    let n = spec_sanitize(name);
    assert(dir.subrange(dir.len() - n.len(), dir.len() as int) =~= n);
    if base.len() > 0 {
        assert(dir.subrange(0, base.len() as int) =~= base);
    }
}

/// The Rapid Clear threshold never shrinks as levels go up: lower levels have
/// tighter thresholds.
pub proof fn lemma_rapid_clear_threshold_monotone(a: u32, b: u32)
    requires
        1 <= a <= b,
    ensures
        spec_rapid_clear_threshold(a) <= spec_rapid_clear_threshold(b),
        120 <= spec_rapid_clear_threshold(a) <= 360,
{
}

/// A claim on a state whose last bonus date is `before`, for date `today`, grants
/// `bonus` and leaves `after` as the last bonus date: a bonus is granted exactly
/// when the date differs, and the date becomes `today`.
pub open spec fn claims_bonus(before: Seq<char>, today: Seq<char>, bonus: bool, after: Seq<char>) -> bool {
    bonus == (before != today) && after == today
}

/// A daily bonus is granted at most once per date: claiming again for the same
/// date grants nothing and changes nothing.
pub proof fn lemma_one_bonus_per_day(
    before: Seq<char>,
    today: Seq<char>,
    bonus: bool,
    after: Seq<char>,
    bonus_again: bool,
    after_again: Seq<char>,
)
    requires
        claims_bonus(before, today, bonus, after),
        claims_bonus(after, today, bonus_again, after_again),
    ensures
        !bonus_again,
        after_again == after,
{
}

/// Lower-case form of a string as `str::to_lowercase` maps it (Unicode case mapping,
/// the same on every machine).
pub uninterp spec fn lowercase(s: Seq<char>) -> Seq<char>;

/// Lower-cases `s` with `str::to_lowercase`. The result is `lowercase(s@)`; the
/// Unicode case tables themselves are not restated here.
#[verifier::external_body]
fn to_lowercase(s: &str) -> (r: String)
    ensures
        r@ == lowercase(s@),
{
    s.to_lowercase()
}

/// Profiles whose names are equal up to case belong to the same player.
pub open spec fn profile_key(p: UserProfile) -> Seq<char> {
    lowercase(p.name@)
}

/// The larger of two numbers.
pub open spec fn max_u32(a: u32, b: u32) -> u32 {
    if a >= b {
        a
    } else {
        b
    }
}

/// The largest of `s`, 0 when empty.
pub open spec fn max_of(s: Seq<u64>) -> u64
    decreases s.len(),
{
    if s.len() == 0 {
        0
    } else if s.last() > max_of(s.drop_last()) {
        s.last()
    } else {
        max_of(s.drop_last())
    }
}

/// The best score among `entries`, 0 when empty.
pub open spec fn best_score_of(entries: Seq<LeaderboardEntry>) -> u32
    decreases entries.len(),
{
    if entries.len() == 0 {
        0
    } else {
        max_u32(best_score_of(entries.drop_last()), entries.last().score)
    }
}

/// Profile `e` after folding in profile `p` of a folder with the same name up to case:
/// the more recent name and time are kept, a saved game is kept with the higher
/// level, and the highest completed level, streak and score are kept.
pub open spec fn merged_profile(e: UserProfile, p: UserProfile) -> UserProfile {
    UserProfile {
        name: if p.last_played_epoch_secs > e.last_played_epoch_secs {
            p.name
        } else {
            e.name
        },
        has_save: e.has_save || p.has_save,
        save_level: if p.has_save {
            max_u32(p.save_level, e.save_level)
        } else {
            e.save_level
        },
        max_completed_level: max_u32(e.max_completed_level, p.max_completed_level),
        streak: max_u32(e.streak, p.streak),
        best_score: max_u32(e.best_score, p.best_score),
        last_played_epoch_secs: if p.last_played_epoch_secs > e.last_played_epoch_secs {
            p.last_played_epoch_secs
        } else {
            e.last_played_epoch_secs
        },
    }
}

/// `acc` after adding profile `p`: merged into the profile of the same player, or appended.
pub open spec fn merge_step(acc: Seq<UserProfile>, p: UserProfile) -> Seq<UserProfile> {
    if exists|i: int| 0 <= i < acc.len() && profile_key(acc[i]) == profile_key(p) {
        let i = choose|i: int| 0 <= i < acc.len() && profile_key(acc[i]) == profile_key(p);
        acc.update(i, merged_profile(acc[i], p))
    } else {
        acc.push(p)
    }
}

/// One profile per player, from the profiles of all folders in order.
pub open spec fn merge_all(s: Seq<UserProfile>) -> Seq<UserProfile>
    decreases s.len(),
{
    if s.len() == 0 {
        Seq::empty()
    } else {
        merge_step(merge_all(s.drop_last()), s.last())
    }
}

/// Listing order of profiles: most recently played first, then by name ignoring case.
pub open spec fn profile_le(a: UserProfile, b: UserProfile) -> bool {
    a.last_played_epoch_secs > b.last_played_epoch_secs || (a.last_played_epoch_secs
        == b.last_played_epoch_secs && lex_le(profile_key(a), profile_key(b)))
}

/// `s` is in listing order.
pub open spec fn profiles_sorted(s: Seq<UserProfile>) -> bool {
    forall|i: int, j: int| 0 <= i < j < s.len() ==> profile_le(s[i], s[j])
}

/// The listing order is total: of any two profiles one comes no later than the other.
pub proof fn lemma_profile_le_total(a: UserProfile, b: UserProfile)
    ensures
        profile_le(a, b) || profile_le(b, a),
{
    lemma_lex_total(profile_key(a), profile_key(b));
}

/// The listing order is transitive.
pub proof fn lemma_profile_le_trans(a: UserProfile, b: UserProfile, c: UserProfile)
    requires
        profile_le(a, b),
        profile_le(b, c),
    ensures
        profile_le(a, c),
{
    if a.last_played_epoch_secs == b.last_played_epoch_secs && b.last_played_epoch_secs
        == c.last_played_epoch_secs {
        lemma_lex_trans(profile_key(a), profile_key(b), profile_key(c));
    }
}

/// Merging keeps one profile per player: the merged profiles have pairwise
/// different names up to case, and every folder's player is among them.
pub proof fn lemma_merge_one_profile_per_player(s: Seq<UserProfile>)
    ensures
        forall|a: int, b: int|
            0 <= a < b < merge_all(s).len() ==> profile_key(merge_all(s)[a]) != profile_key(
                merge_all(s)[b],
            ),
        forall|k: int|
            #![trigger s[k]]
            0 <= k < s.len() ==> exists|i: int|
                0 <= i < merge_all(s).len() && profile_key(#[trigger] merge_all(s)[i])
                    == profile_key(s[k]),
    decreases s.len(),
{
    if s.len() > 0 {
        let prev = s.drop_last();
        let acc = merge_all(prev);
        let p = s.last();
        lemma_merge_one_profile_per_player(prev);
        let r = merge_all(s);
        assert(r == merge_step(acc, p));
        if exists|i: int| 0 <= i < acc.len() && profile_key(acc[i]) == profile_key(p) {
            let i = choose|i: int| 0 <= i < acc.len() && profile_key(acc[i]) == profile_key(p);
            assert(r == acc.update(i, merged_profile(acc[i], p)));
            assert(profile_key(merged_profile(acc[i], p)) == profile_key(acc[i]));
            assert forall|a: int| 0 <= a < r.len() implies profile_key(#[trigger] r[a]) == profile_key(acc[a]) by {}
            assert forall|k: int| #![trigger s[k]] 0 <= k < s.len() implies exists|j: int|
                0 <= j < r.len() && profile_key(#[trigger] r[j]) == profile_key(s[k]) by {
                if k == s.len() - 1 {
                    assert(profile_key(r[i]) == profile_key(s[k]));
                } else {
                    assert(s[k] == prev[k]);
                    let j = choose|j: int| 0 <= j < acc.len() && profile_key(#[trigger] acc[j]) == profile_key(prev[k]);
                    assert(profile_key(r[j]) == profile_key(s[k]));
                }
            }
        } else {
            assert(r == acc.push(p));
            assert forall|k: int| #![trigger s[k]] 0 <= k < s.len() implies exists|j: int|
                0 <= j < r.len() && profile_key(#[trigger] r[j]) == profile_key(s[k]) by {
                if k == s.len() - 1 {
                    assert(profile_key(r[acc.len() as int]) == profile_key(s[k]));
                } else {
                    assert(s[k] == prev[k]);
                    let j = choose|j: int| 0 <= j < acc.len() && profile_key(#[trigger] acc[j]) == profile_key(prev[k]);
                    assert(profile_key(r[j]) == profile_key(s[k]));
                }
            }
        }
    }
}

/// `m` carries the largest value of `f` over the folders of its player in `s`,
/// and that value is the one of some folder of the player.
pub open spec fn holds_player_max(
    m: UserProfile,
    s: Seq<UserProfile>,
    f: spec_fn(UserProfile) -> int,
) -> bool {
    &&& forall|k: int|
        0 <= k < s.len() && profile_key(#[trigger] s[k]) == profile_key(m) ==> f(s[k]) <= f(m)
    &&& exists|k: int|
        0 <= k < s.len() && profile_key(#[trigger] s[k]) == profile_key(m) && f(s[k]) == f(m)
}

/// Merging keeps, for a field that merging two profiles takes the larger of, the
/// largest value over all folders of each player.
proof fn lemma_merge_keeps_player_max(s: Seq<UserProfile>, f: spec_fn(UserProfile) -> int)
    requires
        forall|e: UserProfile, p: UserProfile|
            #[trigger] f(merged_profile(e, p)) == if f(p) > f(e) {
                f(p)
            } else {
                f(e)
            },
    ensures
        forall|i: int|
            0 <= i < merge_all(s).len() ==> holds_player_max(#[trigger] merge_all(s)[i], s, f),
    decreases s.len(),
{
    if s.len() > 0 {
        let prev = s.drop_last();
        let acc = merge_all(prev);
        let p = s.last();
        let last = s.len() - 1;
        lemma_merge_keeps_player_max(prev, f);
        lemma_merge_one_profile_per_player(prev);
        let r = merge_all(s);
        assert(r == merge_step(acc, p));
        assert forall|k: int| 0 <= k < prev.len() implies #[trigger] s[k] == prev[k] by {}
        assert(s[last] == p);
        if exists|i: int| 0 <= i < acc.len() && profile_key(acc[i]) == profile_key(p) {
            let i = choose|i: int| 0 <= i < acc.len() && profile_key(acc[i]) == profile_key(p);
            assert(r == acc.update(i, merged_profile(acc[i], p)));
            assert(profile_key(merged_profile(acc[i], p)) == profile_key(acc[i]));
            assert forall|j: int| 0 <= j < r.len() implies holds_player_max(#[trigger] r[j], s, f) by {
                assert(holds_player_max(acc[j], prev, f));
                if j == i {
                    let m = r[j];
                    assert(f(m) == if f(p) > f(acc[i]) { f(p) } else { f(acc[i]) });
                    assert forall|k: int|
                        0 <= k < s.len() && profile_key(#[trigger] s[k]) == profile_key(m) implies f(s[k])
                        <= f(m) by {
                        if k < last {
                            assert(s[k] == prev[k]);
                        }
                    }
                    if f(p) > f(acc[i]) {
                        assert(profile_key(s[last]) == profile_key(m) && f(s[last]) == f(m));
                    } else {
                        let k = choose|k: int|
                            0 <= k < prev.len() && profile_key(#[trigger] prev[k]) == profile_key(acc[i])
                                && f(prev[k]) == f(acc[i]);
                        assert(s[k] == prev[k]);
                        assert(profile_key(s[k]) == profile_key(m) && f(s[k]) == f(m));
                    }
                } else {
                    assert(r[j] == acc[j]);
                    if j < i {
                        assert(profile_key(acc[j]) != profile_key(acc[i]));
                    } else {
                        assert(profile_key(acc[i]) != profile_key(acc[j]));
                    }
                    assert forall|k: int|
                        0 <= k < s.len() && profile_key(#[trigger] s[k]) == profile_key(r[j]) implies f(
                        s[k],
                    ) <= f(r[j]) by {
                        if k < last {
                            assert(s[k] == prev[k]);
                        }
                    }
                    let k = choose|k: int|
                        0 <= k < prev.len() && profile_key(#[trigger] prev[k]) == profile_key(acc[j])
                            && f(prev[k]) == f(acc[j]);
                    assert(s[k] == prev[k]);
                }
            }
        } else {
            assert(r == acc.push(p));
            assert forall|j: int| 0 <= j < r.len() implies holds_player_max(#[trigger] r[j], s, f) by {
                if j < acc.len() {
                    assert(r[j] == acc[j]);
                    assert(holds_player_max(acc[j], prev, f));
                    assert(profile_key(acc[j]) != profile_key(p));
                    assert forall|k: int|
                        0 <= k < s.len() && profile_key(#[trigger] s[k]) == profile_key(r[j]) implies f(
                        s[k],
                    ) <= f(r[j]) by {
                        if k < last {
                            assert(s[k] == prev[k]);
                        }
                    }
                    let k = choose|k: int|
                        0 <= k < prev.len() && profile_key(#[trigger] prev[k]) == profile_key(acc[j])
                            && f(prev[k]) == f(acc[j]);
                    assert(s[k] == prev[k]);
                } else {
                    assert(r[j] == p);
                    assert forall|k: int|
                        0 <= k < s.len() && profile_key(#[trigger] s[k]) == profile_key(p) implies f(s[k])
                        <= f(p) by {
                        if k < last {
                            assert(s[k] == prev[k]);
                            let a = choose|a: int|
                                0 <= a < acc.len() && profile_key(#[trigger] acc[a]) == profile_key(prev[k]);
                            assert(profile_key(acc[a]) == profile_key(p));
                        }
                    }
                    assert(profile_key(s[last]) == profile_key(p) && f(s[last]) == f(p));
                }
            }
        }
    }
}

/// Merging the folders of a player keeps the best of them: the merged profile's
/// best score, highest completed level, streak and last-played time are the
/// largest among the player's folders and each is the value of one of them, and
/// it has a saved game exactly when one of the player's folders has.
pub proof fn lemma_merged_profiles_keep_the_best(s: Seq<UserProfile>)
    ensures
        forall|i: int, k: int|
            #![trigger merge_all(s)[i], s[k]]
            0 <= i < merge_all(s).len() && 0 <= k < s.len() && profile_key(s[k]) == profile_key(
                merge_all(s)[i],
            ) ==> {
                let m = merge_all(s)[i];
                &&& s[k].best_score <= m.best_score
                &&& s[k].max_completed_level <= m.max_completed_level
                &&& s[k].streak <= m.streak
                &&& s[k].last_played_epoch_secs <= m.last_played_epoch_secs
                &&& s[k].has_save ==> m.has_save
            },
        forall|i: int|
            0 <= i < merge_all(s).len() ==> {
                let m = #[trigger] merge_all(s)[i];
                &&& exists|k: int|
                    0 <= k < s.len() && profile_key(s[k]) == profile_key(m) && #[trigger] s[k].best_score
                        == m.best_score
                &&& exists|k: int|
                    0 <= k < s.len() && profile_key(s[k]) == profile_key(m)
                        && #[trigger] s[k].max_completed_level == m.max_completed_level
                &&& exists|k: int|
                    0 <= k < s.len() && profile_key(s[k]) == profile_key(m) && #[trigger] s[k].streak
                        == m.streak
                &&& exists|k: int|
                    0 <= k < s.len() && profile_key(s[k]) == profile_key(m)
                        && #[trigger] s[k].last_played_epoch_secs == m.last_played_epoch_secs
                &&& m.has_save ==> exists|k: int|
                    0 <= k < s.len() && profile_key(s[k]) == profile_key(m) && #[trigger] s[k].has_save
            },
{
    let fb = |q: UserProfile| q.best_score as int;
    let fl = |q: UserProfile| q.max_completed_level as int;
    let fs = |q: UserProfile| q.streak as int;
    let ft = |q: UserProfile| q.last_played_epoch_secs as int;
    let fh = |q: UserProfile| if q.has_save { 1int } else { 0int };
    lemma_merge_keeps_player_max(s, fb);
    lemma_merge_keeps_player_max(s, fl);
    lemma_merge_keeps_player_max(s, fs);
    lemma_merge_keeps_player_max(s, ft);
    lemma_merge_keeps_player_max(s, fh);
    let r = merge_all(s);
    assert forall|i: int, k: int|
        #![trigger r[i], s[k]]
        0 <= i < r.len() && 0 <= k < s.len() && profile_key(s[k]) == profile_key(r[i]) implies {
        let m = r[i];
        &&& s[k].best_score <= m.best_score
        &&& s[k].max_completed_level <= m.max_completed_level
        &&& s[k].streak <= m.streak
        &&& s[k].last_played_epoch_secs <= m.last_played_epoch_secs
        &&& s[k].has_save ==> m.has_save
    } by {
        assert(holds_player_max(r[i], s, fb));
        assert(holds_player_max(r[i], s, fl));
        assert(holds_player_max(r[i], s, fs));
        assert(holds_player_max(r[i], s, ft));
        assert(holds_player_max(r[i], s, fh));
        assert(fb(s[k]) <= fb(r[i]));
        assert(fl(s[k]) <= fl(r[i]));
        assert(fs(s[k]) <= fs(r[i]));
        assert(ft(s[k]) <= ft(r[i]));
        assert(fh(s[k]) <= fh(r[i]));
    }
    assert forall|i: int| 0 <= i < r.len() implies {
        let m = #[trigger] r[i];
        &&& exists|k: int|
            0 <= k < s.len() && profile_key(s[k]) == profile_key(m) && #[trigger] s[k].best_score
                == m.best_score
        &&& exists|k: int|
            0 <= k < s.len() && profile_key(s[k]) == profile_key(m)
                && #[trigger] s[k].max_completed_level == m.max_completed_level
        &&& exists|k: int|
            0 <= k < s.len() && profile_key(s[k]) == profile_key(m) && #[trigger] s[k].streak
                == m.streak
        &&& exists|k: int|
            0 <= k < s.len() && profile_key(s[k]) == profile_key(m)
                && #[trigger] s[k].last_played_epoch_secs == m.last_played_epoch_secs
        &&& m.has_save ==> exists|k: int|
            0 <= k < s.len() && profile_key(s[k]) == profile_key(m) && #[trigger] s[k].has_save
    } by {
        assert(holds_player_max(r[i], s, fb));
        assert(holds_player_max(r[i], s, fl));
        assert(holds_player_max(r[i], s, fs));
        assert(holds_player_max(r[i], s, ft));
        assert(holds_player_max(r[i], s, fh));
        let kb = choose|k: int| 0 <= k < s.len() && profile_key(#[trigger] s[k]) == profile_key(r[i]) && fb(s[k]) == fb(r[i]);
        assert(s[kb].best_score == r[i].best_score);
        let kl = choose|k: int| 0 <= k < s.len() && profile_key(#[trigger] s[k]) == profile_key(r[i]) && fl(s[k]) == fl(r[i]);
        assert(s[kl].max_completed_level == r[i].max_completed_level);
        let ks = choose|k: int| 0 <= k < s.len() && profile_key(#[trigger] s[k]) == profile_key(r[i]) && fs(s[k]) == fs(r[i]);
        assert(s[ks].streak == r[i].streak);
        let kt = choose|k: int| 0 <= k < s.len() && profile_key(#[trigger] s[k]) == profile_key(r[i]) && ft(s[k]) == ft(r[i]);
        assert(s[kt].last_played_epoch_secs == r[i].last_played_epoch_secs);
        let kh = choose|k: int| 0 <= k < s.len() && profile_key(#[trigger] s[k]) == profile_key(r[i]) && fh(s[k]) == fh(r[i]);
        if r[i].has_save {
            assert(s[kh].has_save);
        }
    }
}

/// A reordering of the merged profiles keeps what merging kept of each player.
proof fn lemma_reordered_profiles_keep_the_best(all: Seq<UserProfile>, r: Seq<UserProfile>)
    requires
        r.to_multiset() == merge_all(all).to_multiset(),
    ensures
        forall|i: int, k: int|
            #![trigger r[i], all[k]]
            0 <= i < r.len() && 0 <= k < all.len() && profile_key(all[k]) == profile_key(r[i]) ==> {
                &&& all[k].best_score <= r[i].best_score
                &&& all[k].max_completed_level <= r[i].max_completed_level
                &&& all[k].streak <= r[i].streak
                &&& all[k].last_played_epoch_secs <= r[i].last_played_epoch_secs
                &&& all[k].has_save ==> r[i].has_save
            },
        forall|i: int|
            0 <= i < r.len() ==> exists|k: int|
                0 <= k < all.len() && profile_key(all[k]) == profile_key(#[trigger] r[i])
                    && all[k].best_score == r[i].best_score,
{
    lemma_merged_profiles_keep_the_best(all);
    let m = merge_all(all);
    assert forall|i: int| 0 <= i < r.len() implies m.contains(#[trigger] r[i]) by {
        broadcast use vstd::seq_lib::group_to_multiset_ensures;

        assert(r.contains(r[i]));
        assert(m.to_multiset().count(r[i]) > 0);
    }
    assert forall|i: int, k: int|
        #![trigger r[i], all[k]]
        0 <= i < r.len() && 0 <= k < all.len() && profile_key(all[k]) == profile_key(r[i]) implies {
        &&& all[k].best_score <= r[i].best_score
        &&& all[k].max_completed_level <= r[i].max_completed_level
        &&& all[k].streak <= r[i].streak
        &&& all[k].last_played_epoch_secs <= r[i].last_played_epoch_secs
        &&& all[k].has_save ==> r[i].has_save
    } by {
        assert(m.contains(r[i]));
        let j = choose|j: int| 0 <= j < m.len() && m[j] == r[i];
        assert(m[j] == r[i]);
    }
    assert forall|i: int| 0 <= i < r.len() implies exists|k: int|
        0 <= k < all.len() && profile_key(all[k]) == profile_key(#[trigger] r[i])
            && all[k].best_score == r[i].best_score by {
        assert(m.contains(r[i]));
        let j = choose|j: int| 0 <= j < m.len() && m[j] == r[i];
        assert(m[j] == r[i]);
    }
}

/// Reordering keeps the players distinct and present: a sequence with the same
/// elements as one without two profiles of a player has no two profiles of a
/// player either, and holds a profile of each of its players.
proof fn lemma_permutation_keeps_players(s: Seq<UserProfile>, r: Seq<UserProfile>)
    requires
        r.to_multiset() == s.to_multiset(),
        forall|a: int, b: int| 0 <= a < b < s.len() ==> profile_key(s[a]) != profile_key(s[b]),
    ensures
        forall|a: int, b: int| 0 <= a < b < r.len() ==> profile_key(r[a]) != profile_key(r[b]),
        forall|k: int| 0 <= k < s.len() ==> r.contains(#[trigger] s[k]),
{
    broadcast use vstd::seq_lib::group_to_multiset_ensures;

    assert(s.no_duplicates()) by {
        assert forall|i: int, j: int| 0 <= i < s.len() && 0 <= j < s.len() && i != j implies s[i]
            != s[j] by {
            if i < j {
                assert(profile_key(s[i]) != profile_key(s[j]));
            } else {
                assert(profile_key(s[j]) != profile_key(s[i]));
            }
        }
    }
    s.lemma_multiset_has_no_duplicates();
    r.lemma_multiset_has_no_duplicates_conv();
    assert forall|a: int, b: int| 0 <= a < b < r.len() implies profile_key(r[a]) != profile_key(
        r[b],
    ) by {
        assert(r.contains(r[a]));
        assert(r.contains(r[b]));
        assert(s.to_multiset().count(r[a]) > 0);
        assert(s.to_multiset().count(r[b]) > 0);
        assert(s.contains(r[a]));
        assert(s.contains(r[b]));
        let i = choose|i: int| 0 <= i < s.len() && s[i] == r[a];
        let j = choose|j: int| 0 <= j < s.len() && s[j] == r[b];
        assert(r[a] != r[b]);
        if i < j {
            assert(profile_key(s[i]) != profile_key(s[j]));
        } else if j < i {
            assert(profile_key(s[j]) != profile_key(s[i]));
        }
    }
    assert forall|k: int| 0 <= k < s.len() implies r.contains(#[trigger] s[k]) by {
        assert(s.contains(s[k]));
        assert(r.to_multiset().count(s[k]) > 0);
    }
}

impl UserProfile {
    /// The profile of a player folder from the records read in it.
    ///
    /// `mtimes` are the modification times (epoch seconds) of the folder and of
    /// its record files that could be read; `save`, `progress`, `shuffles` and
    /// `leaderboard` are the records that could be parsed.
    pub fn from_records(
        name: String,
        mtimes: &Vec<u64>,
        save: Option<&SavedGame>,
        progress: Option<&UserProgress>,
        shuffles: Option<&ShuffleState>,
        leaderboard: Option<&Leaderboard>,
    ) -> (p: UserProfile)
        ensures
            p.name == name,
            p.has_save == save is Some,
            p.save_level == (match save {
                Some(s) => s.level,
                None => 1,
            }),
            p.max_completed_level == (match progress {
                Some(q) => q.max_completed_level,
                None => 0,
            }),
            p.streak == (match shuffles {
                Some(s) => max_u32(s.best_streak, s.consecutive_days),
                None => 0,
            }),
            p.best_score == (match leaderboard {
                Some(lb) => best_score_of(lb.entries@),
                None => 0,
            }),
            p.last_played_epoch_secs == max_of(mtimes@),
    {
        let mut latest: u64 = 0;
        let mut i: usize = 0;
        while i < mtimes.len()
            invariant
                i <= mtimes@.len(),
                latest == max_of(mtimes@.subrange(0, i as int)),
            decreases mtimes.len() - i,
        {
            assert(mtimes@.subrange(0, i + 1).drop_last() =~= mtimes@.subrange(0, i as int));
            if mtimes[i] > latest {
                latest = mtimes[i];
            }
            i = i + 1;
        }
        assert(mtimes@.subrange(0, mtimes@.len() as int) =~= mtimes@);
        let (has_save, save_level) = match save {
            Some(s) => (true, s.level),
            None => (false, 1),
        };
        let max_completed_level = match progress {
            Some(q) => q.max_completed_level,
            None => 0,
        };
        let streak = match shuffles {
            Some(s) => if s.best_streak >= s.consecutive_days {
                s.best_streak
            } else {
                s.consecutive_days
            },
            None => 0,
        };
        let best_score = match leaderboard {
            Some(lb) => {
                let mut best: u32 = 0;
                let mut k: usize = 0;
                while k < lb.entries.len()
                    invariant
                        k <= lb.entries@.len(),
                        best == best_score_of(lb.entries@.subrange(0, k as int)),
                    decreases lb.entries.len() - k,
                {
                    assert(lb.entries@.subrange(0, k + 1).drop_last() =~= lb.entries@.subrange(
                        0,
                        k as int,
                    ));
                    if lb.entries[k].score > best {
                        best = lb.entries[k].score;
                    }
                    k = k + 1;
                }
                assert(lb.entries@.subrange(0, lb.entries@.len() as int) =~= lb.entries@);
                best
            },
            None => 0,
        };
        UserProfile {
            name,
            has_save,
            save_level,
            max_completed_level,
            streak,
            best_score,
            last_played_epoch_secs: latest,
        }
    }
}

/// The characters of the lower-cased name of `p`.
fn key_chars(p: &UserProfile) -> (k: Vec<char>)
    ensures
        k@ == profile_key(*p),
{
    let lower = to_lowercase(p.name.as_str());
    chars_of(lower.as_str())
}

/// Whether two character sequences are equal.
fn chars_equal(a: &Vec<char>, b: &Vec<char>) -> (r: bool)
    ensures
        r == (a@ == b@),
{
    if a.len() != b.len() {
        return false;
    }
    let mut i: usize = 0;
    while i < a.len()
        invariant
            a@.len() == b@.len(),
            i <= a@.len(),
            forall|k: int| 0 <= k < i ==> a@[k] == b@[k],
        decreases a.len() - i,
    {
        if a[i] != b[i] {
            return false;
        }
        i = i + 1;
    }
    assert(a@ =~= b@);
    true
}

/// Whether `a` comes no later than `b` in listing order.
fn profile_le_exec(a: &UserProfile, b: &UserProfile) -> (r: bool)
    ensures
        r == profile_le(*a, *b),
{
    if a.last_played_epoch_secs != b.last_played_epoch_secs {
        return a.last_played_epoch_secs > b.last_played_epoch_secs;
    }
    let ka = key_chars(a);
    let kb = key_chars(b);
    lex_le_chars(&ka, &kb)
}

/// Profile `e` with profile `p` of the same player folded in.
fn merge_profile_exec(e: UserProfile, p: UserProfile) -> (m: UserProfile)
    ensures
        m == merged_profile(e, p),
{
    let newer = p.last_played_epoch_secs > e.last_played_epoch_secs;
    UserProfile {
        has_save: e.has_save || p.has_save,
        save_level: if p.has_save {
            if p.save_level >= e.save_level {
                p.save_level
            } else {
                e.save_level
            }
        } else {
            e.save_level
        },
        max_completed_level: if e.max_completed_level >= p.max_completed_level {
            e.max_completed_level
        } else {
            p.max_completed_level
        },
        streak: if e.streak >= p.streak {
            e.streak
        } else {
            p.streak
        },
        best_score: if e.best_score >= p.best_score {
            e.best_score
        } else {
            p.best_score
        },
        last_played_epoch_secs: if newer {
            p.last_played_epoch_secs
        } else {
            e.last_played_epoch_secs
        },
        name: if newer {
            p.name
        } else {
            e.name
        },
    }
}

/// The profiles of `v` in listing order.
fn sort_profiles(v: Vec<UserProfile>) -> (r: Vec<UserProfile>)
    ensures
        profiles_sorted(r@),
        r@.to_multiset() == v@.to_multiset(),
{
    broadcast use vstd::seq_lib::group_to_multiset_ensures;

    let ghost orig = v@;
    let mut rest = v;
    let mut r: Vec<UserProfile> = Vec::new();
    assert(orig.skip(orig.len() as int) =~= Seq::<UserProfile>::empty());
    while rest.len() > 0
        invariant
            rest@ == orig.subrange(0, rest@.len() as int),
            rest@.len() <= orig.len(),
            profiles_sorted(r@),
            r@.to_multiset() == orig.skip(rest@.len() as int).to_multiset(),
        decreases rest.len(),
    {
        let x = rest.pop().unwrap();
        let mut p: usize = 0;
        while p < r.len() && profile_le_exec(&r[p], &x)
            invariant
                p <= r@.len(),
                forall|k: int| 0 <= k < p ==> profile_le(r@[k], x),
            decreases r.len() - p,
        {
            p = p + 1;
        }
        let ghost old_r = r@;
        proof {
            lemma_insert_multiset(old_r, p as int, x);
            let tail = orig.skip((rest@.len() + 1) as int);
            assert(orig.skip(rest@.len() as int) =~= tail.insert(0, x));
            lemma_insert_multiset(tail, 0, x);
            if p < old_r.len() {
                lemma_profile_le_total(old_r[p as int], x);
            }
        }
        r.insert(p, x);
        proof {
            old_r.insert_ensures(p as int, x);
            assert forall|a: int, b: int| 0 <= a < b < r@.len() implies profile_le(r@[a], r@[b]) by {
                if b == p {
                } else if a == p {
                    lemma_profile_le_total(old_r[p as int], x);
                    assert(profile_le(old_r[p as int], old_r[b - 1]) || p == b - 1);
                    if p != b - 1 {
                        lemma_profile_le_trans(x, old_r[p as int], old_r[b - 1]);
                    }
                } else {
                    let a2 = if a < p { a } else { a - 1 };
                    let b2 = if b < p { b } else { b - 1 };
                    assert(r@[a] == old_r[a2]);
                    assert(r@[b] == old_r[b2]);
                }
            }
            assert(r@.to_multiset() =~= orig.skip(rest@.len() as int).to_multiset());
        }
    }
    assert(orig.skip(0) =~= orig);
    r
}

/// One profile per player, in listing order, from the profiles read in each
/// storage folder (in the order the folders were read).
///
/// Folders whose names are equal up to case belong to the same player: their
/// profiles are merged (see `merged_profile`). The list is ordered by most
/// recent play first, then by lower-cased name.
#[verifier::spinoff_prover]
pub fn merge_user_profiles(scanned: Vec<UserProfile>) -> (r: Vec<UserProfile>)
    ensures
        profiles_sorted(r@),
        r@.to_multiset() == merge_all(scanned@).to_multiset(),
        forall|a: int, b: int| 0 <= a < b < r@.len() ==> profile_key(r@[a]) != profile_key(r@[b]),
        forall|k: int|
            #![trigger scanned@[k]]
            0 <= k < scanned@.len() ==> exists|i: int|
                0 <= i < r@.len() && profile_key(#[trigger] r@[i]) == profile_key(scanned@[k]),
        forall|i: int, k: int|
            #![trigger r@[i], scanned@[k]]
            0 <= i < r@.len() && 0 <= k < scanned@.len() && profile_key(scanned@[k]) == profile_key(
                r@[i],
            ) ==> {
                &&& scanned@[k].best_score <= r@[i].best_score
                &&& scanned@[k].max_completed_level <= r@[i].max_completed_level
                &&& scanned@[k].streak <= r@[i].streak
                &&& scanned@[k].last_played_epoch_secs <= r@[i].last_played_epoch_secs
                &&& scanned@[k].has_save ==> r@[i].has_save
            },
        forall|i: int|
            0 <= i < r@.len() ==> exists|k: int|
                0 <= k < scanned@.len() && profile_key(scanned@[k]) == profile_key(#[trigger] r@[i])
                    && scanned@[k].best_score == r@[i].best_score,
{
    let ghost all = scanned@;
    let mut rest = scanned;
    let mut acc: Vec<UserProfile> = Vec::new();
    let mut n: usize = 0;
    assert(all.len() == rest.len());
    while rest.len() > 0
        invariant
            n + rest@.len() == all.len(),
            all.len() <= usize::MAX,
            rest@ == all.subrange(n as int, all.len() as int),
            acc@ == merge_all(all.subrange(0, n as int)),
            forall|a: int, b: int|
                0 <= a < b < acc@.len() ==> profile_key(acc@[a]) != profile_key(acc@[b]),
        decreases rest.len(),
    {
        let p = rest.remove(0);
        assert(p == all[n as int]);
        let key = key_chars(&p);
        let mut j: usize = 0;
        let mut found = false;
        while j < acc.len() && !found
            invariant
                j <= acc@.len(),
                found ==> j < acc@.len() && profile_key(acc@[j as int]) == profile_key(p),
                !found ==> forall|k: int| 0 <= k < j ==> profile_key(acc@[k]) != profile_key(p),
                key@ == profile_key(p),
            decreases acc.len() - j + (if found { 0int } else { 1int }),
        {
            let kj = key_chars(&acc[j]);
            if chars_equal(&kj, &key) {
                found = true;
            } else {
                j = j + 1;
            }
        }
        let ghost prev = acc@;
        let ghost pre = all.subrange(0, n as int);
        assert(all.subrange(0, n + 1).drop_last() =~= pre);
        assert(all.subrange(0, n + 1).last() == p);
        if found {
            let e = acc.remove(j);
            let m = merge_profile_exec(e, p);
            acc.insert(j, m);
            proof {
                let i = choose|i: int| 0 <= i < prev.len() && profile_key(prev[i]) == profile_key(p);
                assert(i == j);
                assert(acc@ =~= prev.update(j as int, merged_profile(prev[j as int], p)));
                assert(profile_key(merged_profile(prev[j as int], p)) == profile_key(prev[j as int]));
            }
        } else {
            acc.push(p);
        }
        assert(acc@ == merge_all(all.subrange(0, n + 1)));
        n = n + 1;
        assert(rest@ =~= all.subrange(n as int, all.len() as int));
    }
    assert(all.subrange(0, n as int) =~= all);
    let r = sort_profiles(acc);
    proof {
        lemma_merge_one_profile_per_player(all);
        lemma_permutation_keeps_players(merge_all(all), r@);
        assert forall|k: int| #![trigger all[k]] 0 <= k < all.len() implies exists|i: int|
            0 <= i < r@.len() && profile_key(#[trigger] r@[i]) == profile_key(all[k]) by {
            let j = choose|j: int|
                0 <= j < merge_all(all).len() && profile_key(#[trigger] merge_all(all)[j])
                    == profile_key(all[k]);
            assert(r@.contains(merge_all(all)[j]));
            let i = choose|i: int| 0 <= i < r@.len() && r@[i] == merge_all(all)[j];
            assert(profile_key(r@[i]) == profile_key(all[k]));
        }
        lemma_reordered_profiles_keep_the_best(all, r@);
    }
    r
}

/// The working folder below the storage folder that belongs to no player.
pub open spec fn scratch_folder_name() -> Seq<char> {
    seq!['s', 'c', 'r', 'a', 't', 'c', 'h']
}

/// Whether a folder below the storage folder holds a player's profile: its name
/// is not empty, does not start with `.` (hidden folders) and is not `scratch`.
pub open spec fn is_profile_folder_name(name: Seq<char>) -> bool {
    &&& name.len() > 0
    &&& name[0] != '.'
    &&& name != scratch_folder_name()
}

/// Whether the folder `name` below the storage folder is scanned as a player's profile.
pub fn is_profile_folder(name: &str) -> (b: bool)
    ensures
        b == is_profile_folder_name(name@),
{
    let v = chars_of(name);
    if v.len() == 0 || v[0] == '.' {
        return false;
    }
    let scratch = chars_of("scratch");
    proof {
        reveal_strlit("scratch");
    }
    assert(scratch@ =~= scratch_folder_name());
    !chars_equal(&v, &scratch)
}

/// Whether two names denote the same player: equal once lower-cased by
/// `str::to_lowercase`.
pub fn same_name_ignoring_case(a: &str, b: &str) -> (r: bool)
    ensures
        r == (lowercase(a@) == lowercase(b@)),
{
    let la = to_lowercase(a);
    let lb = to_lowercase(b);
    let va = chars_of(la.as_str());
    let vb = chars_of(lb.as_str());
    chars_equal(&va, &vb)
}

} // verus!
