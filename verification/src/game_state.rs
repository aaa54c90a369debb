//! Game state types: difficulty, game phase, score tracking, the player
//! selection / name entry flow, hints and board animations.

use std::time::Instant;

use vstd::prelude::*;

use crate::storage::UserProfile;
use crate::text::{string_pop, string_push, trim, trimmed_len};

verus! {

/// The standard library's `std::time::Instant`, carried through as an opaque value.
#[verifier::external_type_specification]
#[verifier::external_body]
pub struct ExInstant(Instant);

/// Difficulty level that affects shuffle behavior.
///
/// - **Easy**: shuffles are guaranteed to produce a solvable board state.
/// - **Normal**: shuffles redistribute faces at random without that guarantee.
#[derive(Debug, Clone, Copy, PartialEq, Eq, Structural)]
pub enum Difficulty {
    /// Guaranteed solvable shuffles.
    Easy,
    /// Pure random shuffles.
    Normal,
}

/// The current phase/status of the game.
#[derive(Debug, Clone, Copy, PartialEq, Eq, Structural)]
pub enum GameStatus {
    /// Game is actively being played.
    Playing,
    /// Game is paused (timer stopped, input disabled).
    Paused,
    /// Player has cleared all tiles.
    Won,
    /// No valid moves remain (but shuffles may still be available).
    Lost,
    /// No valid moves and no shuffles remaining.
    GameOver,
    /// Main menu is displayed.
    Menu,
    /// Player is entering their name for the leaderboard.
    NameEntry,
    /// Leaderboard view is displayed.
    Leaderboard,
    /// Shortcuts popup is displayed.
    Shortcuts,
    /// Level selection screen is displayed.
    LevelSelect,
}

/// Tracks score-relevant statistics for the current game.
#[derive(Debug, Clone, Copy, PartialEq, Eq, Structural)]
pub struct ScoreTracker {
    /// Number of hints used this game.
    pub hints_used: u32,
    /// Number of shuffles used this game.
    pub shuffles_used: u32,
    /// Number of undos used this game.
    pub undos_used: u32,
    /// Elapsed seconds at game completion (snapshot for scoring; 0 while playing).
    pub elapsed_seconds: u32,
    /// Number of pairs matched so far.
    pub pairs_matched: u32,
    /// Number of mismatched (wrong) tile pair attempts this level.
    pub mismatches: u32,
}

/// Points earned by matched pairs: 10 per pair plus a streak bonus of 2 per pair.
pub open spec fn pair_points(t: ScoreTracker) -> int {
    12 * t.pairs_matched
}

/// Points lost: 5 per hint and 10 per shuffle.
pub open spec fn penalty_points(t: ScoreTracker) -> int {
    5 * t.hints_used + 10 * t.shuffles_used
}

/// Score during play: pair points less penalties, never below zero.
pub open spec fn spec_live_score(t: ScoreTracker) -> int {
    if pair_points(t) >= penalty_points(t) {
        pair_points(t) - penalty_points(t)
    } else {
        0
    }
}

/// Time bonus once the game is completed: `max(0, 500 - elapsed_seconds)`,
/// and nothing while `elapsed_seconds` is still 0.
pub open spec fn time_bonus(t: ScoreTracker) -> int {
    if t.elapsed_seconds > 0 && t.elapsed_seconds < 500 {
        500 - t.elapsed_seconds
    } else {
        0
    }
}

/// Final score: live score plus the time bonus.
pub open spec fn spec_final_score(t: ScoreTracker) -> int {
    spec_live_score(t) + time_bonus(t)
}

/// The counters stay small enough for the score arithmetic on `u32`.
pub open spec fn score_fits(t: ScoreTracker) -> bool {
    &&& pair_points(t) <= u32::MAX
    &&& penalty_points(t) <= u32::MAX
    &&& spec_final_score(t) <= u32::MAX
}

impl ScoreTracker {
    /// Creates a new score tracker with zero values.
    pub fn new() -> (t: Self)
        ensures
            t == (ScoreTracker {
                hints_used: 0,
                shuffles_used: 0,
                undos_used: 0,
                elapsed_seconds: 0,
                pairs_matched: 0,
                mismatches: 0,
            }),
    {
        Self {
            hints_used: 0,
            shuffles_used: 0,
            undos_used: 0,
            elapsed_seconds: 0,
            pairs_matched: 0,
            mismatches: 0,
        }
    }

    /// Calculates the final score.
    ///
    /// - Base: 10 points per pair, plus a streak bonus of 2 per pair
    /// - Penalties: 5 per hint used, 10 per shuffle used (the result never goes below 0)
    /// - Time bonus at game completion: `max(0, 500 - elapsed_seconds)`
    ///
    /// During gameplay (`elapsed_seconds == 0`) there is no time bonus.
    pub fn calculate_score(&self) -> (score: u32)
        requires
            score_fits(*self),
        ensures
            score == spec_final_score(*self),
    {
        let base = self.pairs_matched * 10;
        let streak = self.pairs_matched * 2;
        let raw = base + streak;
        let penalty = self.hints_used * 5 + self.shuffles_used * 10;
        let subtotal = raw.saturating_sub(penalty);
        if self.elapsed_seconds > 0 {
            let time_bonus = 500u32.saturating_sub(self.elapsed_seconds);
            subtotal + time_bonus
        } else {
            subtotal
        }
    }

    /// Calculates the live score during gameplay (no time bonus yet).
    pub fn live_score(&self) -> (score: u32)
        requires
            pair_points(*self) <= u32::MAX,
            penalty_points(*self) <= u32::MAX,
        ensures
            score == spec_live_score(*self),
    {
        let base = self.pairs_matched * 10;
        let streak = self.pairs_matched * 2;
        let raw = base + streak;
        let penalty = self.hints_used * 5 + self.shuffles_used * 10;
        raw.saturating_sub(penalty)
    }
}

impl Default for ScoreTracker {
    fn default() -> (t: Self)
        ensures
            t == (ScoreTracker {
                hints_used: 0,
                shuffles_used: 0,
                undos_used: 0,
                elapsed_seconds: 0,
                pairs_matched: 0,
                mismatches: 0,
            }),
    {
        Self::new()
    }
}

/// During gameplay (no elapsed time snapshot yet) the final score is the live
/// score; once the game is completed it exceeds the live score by the time bonus,
/// which is at most 500.
pub proof fn lemma_final_score_vs_live(t: ScoreTracker)
    ensures
        t.elapsed_seconds == 0 ==> spec_final_score(t) == spec_live_score(t),
        spec_live_score(t) <= spec_final_score(t) <= spec_live_score(t) + 500,
        spec_live_score(t) >= 0,
{
}

/// The score never decreases when more pairs are matched, never increases with
/// more hints or shuffles, and does not depend on undos or mismatches.
pub proof fn lemma_score_monotone(a: ScoreTracker, b: ScoreTracker)
    requires
        a.pairs_matched <= b.pairs_matched,
        a.hints_used >= b.hints_used,
        a.shuffles_used >= b.shuffles_used,
        a.elapsed_seconds == b.elapsed_seconds,
    ensures
        spec_live_score(a) <= spec_live_score(b),
        spec_final_score(a) <= spec_final_score(b),
{
}

/// A finished game scores higher the faster it was completed.
pub proof fn lemma_faster_scores_higher(a: ScoreTracker, b: ScoreTracker)
    requires
        0 < a.elapsed_seconds <= b.elapsed_seconds,
        a.pairs_matched == b.pairs_matched,
        a.hints_used == b.hints_used,
        a.shuffles_used == b.shuffles_used,
    ensures
        spec_final_score(a) >= spec_final_score(b),
{
}

/// Longest name that may be typed for a new player.
pub const MAX_NAME_CHARS: usize = 20;

/// Number of pages needed to show `n` profiles (at least one page).
pub open spec fn pages_for(n: int) -> int {
    if n == 0 {
        1
    } else {
        (n + 2) / 3
    }
}

/// State for the leaderboard name entry / player selection flow.
///
/// The selection cycles over the existing profiles `0..profiles.len()` and the
/// "New Player" field, which is selected when `selected_index == profiles.len()`.
#[derive(Debug, Clone, PartialEq, Eq)]
pub struct NameEntryState {
    /// Characters typed so far for a new player.
    pub text: String,
    /// Discovered existing player profiles.
    pub profiles: Vec<UserProfile>,
    /// Selected index: `0..profiles.len()` for existing profiles, `profiles.len()` for new player input.
    pub selected_index: usize,
    /// Current page for existing profiles pagination.
    pub page: usize,
    /// The score that qualified for the leaderboard.
    pub score: u32,
    /// The total elapsed time in seconds at game completion (across all levels).
    pub time_seconds: u32,
    /// Total hints used across all levels.
    pub hints_used: u32,
    /// Total shuffles used across all levels.
    pub shuffles_used: u32,
    /// Total undos used across all levels.
    pub undos_used: u32,
}

/// Selection after moving to the next entry: the next profile (turning to its
/// page), the "New Player" field after the last profile, and from that field
/// the first profile on page 0.
pub open spec fn spec_select_next(s: NameEntryState) -> NameEntryState {
    if s.len() == 0 {
        s.with_cursor(0, s.page as int)
    } else if s.selected_index >= s.len() {
        s.with_cursor(0, 0)
    } else if s.selected_index + 1 < s.len() {
        s.with_cursor(s.selected_index + 1, (s.selected_index + 1) / 3)
    } else {
        s.with_cursor(s.len(), s.page as int)
    }
}

/// Selection after moving to the previous entry: the previous profile (turning
/// to its page), the "New Player" field before the first profile, and from that
/// field the last profile of the current page.
pub open spec fn spec_select_prev(s: NameEntryState) -> NameEntryState {
    if s.len() == 0 {
        s.with_cursor(0, s.page as int)
    } else if s.selected_index >= s.len() {
        s.with_cursor(
            if 3 * s.page + 3 <= s.len() {
                3 * s.page + 2
            } else {
                s.len() - 1
            },
            s.page as int,
        )
    } else if s.selected_index > 0 {
        s.with_cursor(s.selected_index - 1, (s.selected_index - 1) / 3)
    } else {
        s.with_cursor(s.len(), 0)
    }
}

/// Selection after toggling the field: from a profile to the "New Player" field,
/// and from that field to the first profile of the current page (if any).
pub open spec fn spec_toggle_field(s: NameEntryState) -> NameEntryState {
    if s.selected_index >= s.len() {
        if s.len() > 0 {
            s.with_cursor(3 * s.page, s.page as int)
        } else {
            s
        }
    } else {
        s.with_cursor(s.len(), s.page as int)
    }
}

impl NameEntryState {
    /// Number of profiles displayed per page.
    pub const PROFILES_PER_PAGE: usize = 3;

    /// Number of existing profiles.
    pub open spec fn len(&self) -> int {
        self.profiles@.len() as int
    }

    /// Well-formedness: the page is one of the pages, the selection is a profile on
    /// the current page or the "New Player" field.
    pub open spec fn wf(&self) -> bool {
        &&& self.len() + 3 <= usize::MAX
        &&& self.page < pages_for(self.len())
        &&& self.selected_index <= self.len()
        &&& self.selected_index < self.len() ==> self.selected_index / 3 == self.page
    }

    /// `self` with only the selection cursor (selected index and page) replaced.
    pub open spec fn with_cursor(&self, selected: int, page: int) -> NameEntryState {
        NameEntryState { selected_index: selected as usize, page: page as usize, ..*self }
    }

    /// Creates a new name entry state for the given profiles, score, time and cumulative stats.
    /// The first entry (the first profile, or the "New Player" field when there is none) is selected.
    pub fn new(
        profiles: Vec<UserProfile>,
        score: u32,
        time_seconds: u32,
        hints_used: u32,
        shuffles_used: u32,
        undos_used: u32,
    ) -> (s: Self)
        requires
            profiles@.len() + 3 <= usize::MAX,
        ensures
            s.wf(),
            s.text@ == Seq::<char>::empty(),
            s.profiles@ == profiles@,
            s.selected_index == 0,
            s.page == 0,
            s.score == score,
            s.time_seconds == time_seconds,
            s.hints_used == hints_used,
            s.shuffles_used == shuffles_used,
            s.undos_used == undos_used,
    {
        Self::with_profiles(profiles, score, time_seconds, hints_used, shuffles_used, undos_used)
    }

    /// Creates a new name entry state with an explicit list of profiles.
    pub fn with_profiles(
        profiles: Vec<UserProfile>,
        score: u32,
        time_seconds: u32,
        hints_used: u32,
        shuffles_used: u32,
        undos_used: u32,
    ) -> (s: Self)
        requires
            profiles@.len() + 3 <= usize::MAX,
        ensures
            s.wf(),
            s.text@ == Seq::<char>::empty(),
            s.profiles@ == profiles@,
            s.selected_index == 0,
            s.page == 0,
            s.score == score,
            s.time_seconds == time_seconds,
            s.hints_used == hints_used,
            s.shuffles_used == shuffles_used,
            s.undos_used == undos_used,
    {
        Self {
            text: String::new(),
            profiles,
            selected_index: 0,
            page: 0,
            score,
            time_seconds,
            hints_used,
            shuffles_used,
            undos_used,
        }
    }

    /// Total pages for profile list (one page when there are no profiles).
    pub fn total_pages(&self) -> (n: usize)
        requires
            self.len() + 3 <= usize::MAX,
        ensures
            n == pages_for(self.len()),
    {
        if self.profiles.len() == 0 {
            1
        } else {
            (self.profiles.len() + Self::PROFILES_PER_PAGE - 1) / Self::PROFILES_PER_PAGE
        }
    }

    /// Returns start index of profiles for the current page.
    pub fn page_start_index(&self) -> (i: usize)
        requires
            3 * self.page <= usize::MAX,
        ensures
            i == 3 * self.page,
    {
        self.page * Self::PROFILES_PER_PAGE
    }

    /// Returns end index (exclusive) of profiles for the current page.
    pub fn page_end_index(&self) -> (i: usize)
        requires
            3 * self.page + 3 <= usize::MAX,
        ensures
            i == if 3 * self.page + 3 <= self.len() { 3 * self.page + 3 } else { self.len() },
    {
        let end = self.page_start_index() + Self::PROFILES_PER_PAGE;
        if end <= self.profiles.len() {
            end
        } else {
            self.profiles.len()
        }
    }

    /// Returns true if the "New Player" text input field is currently selected.
    pub fn is_new_player_selected(&self) -> (b: bool)
        ensures
            b == (self.selected_index >= self.len()),
    {
        self.selected_index >= self.profiles.len()
    }

    /// Returns the currently selected profile, if an existing profile is selected.
    pub fn selected_profile(&self) -> (p: Option<&UserProfile>)
        ensures
            self.selected_index < self.len() ==> p == Some(&self.profiles@[self.selected_index as int]),
            self.selected_index >= self.len() ==> p is None,
    {
        if self.selected_index < self.profiles.len() {
            Some(&self.profiles[self.selected_index])
        } else {
            None
        }
    }

    /// Moves selection to the previous item (or previous page).
    ///
    /// From a profile, the previous profile is selected (turning to its page);
    /// from the first profile the selection wraps to the "New Player" field;
    /// from the "New Player" field it goes to the last profile of the current page.
    pub fn select_prev(&mut self)
        requires
            old(self).wf(),
        ensures
            final(self).wf(),
            *final(self) == spec_select_prev(*old(self)),
    {
        if self.profiles.len() == 0 {
            self.selected_index = 0;
            return;
        }
        if self.is_new_player_selected() {
            let end = self.page_end_index();
            if end > 0 {
                self.selected_index = end - 1;
            }
        } else if self.selected_index == self.page_start_index() {
            if self.page > 0 {
                self.page = self.page - 1;
                self.selected_index = self.page_end_index().saturating_sub(1);
            } else {
                self.selected_index = self.profiles.len();
            }
        } else {
            self.selected_index = self.selected_index.saturating_sub(1);
        }
    }

    /// Moves selection to the next item (or next page / New Player field).
    ///
    /// From a profile, the next profile is selected (turning to its page); after the
    /// last profile comes the "New Player" field; from that field the selection
    /// wraps to the first profile on page 0.
    pub fn select_next(&mut self)
        requires
            old(self).wf(),
        ensures
            final(self).wf(),
            *final(self) == spec_select_next(*old(self)),
    {
        if self.profiles.len() == 0 {
            self.selected_index = 0;
            return;
        }
        if self.is_new_player_selected() {
            self.page = 0;
            self.selected_index = 0;
        } else if self.selected_index + 1 >= self.page_end_index() {
            if self.page + 1 < self.total_pages() {
                self.page = self.page + 1;
                self.selected_index = self.page_start_index();
            } else {
                self.selected_index = self.profiles.len();
            }
        } else {
            self.selected_index = self.selected_index + 1;
        }
    }

    /// Toggles focus between the existing player list and the new player field.
    pub fn toggle_field(&mut self)
        requires
            old(self).wf(),
        ensures
            final(self).wf(),
            *final(self) == spec_toggle_field(*old(self)),
    {
        if self.is_new_player_selected() {
            if self.profiles.len() != 0 {
                self.selected_index = self.page_start_index();
            }
        } else {
            self.selected_index = self.profiles.len();
        }
    }

    /// Switches to the next page of profiles, selecting its first profile.
    /// Nothing changes on the last page.
    pub fn next_page(&mut self)
        requires
            old(self).wf(),
        ensures
            final(self).wf(),
            old(self).page + 1 < pages_for(old(self).len()) ==> *final(self) == old(self).with_cursor(3 * (old(self).page + 1), old(self).page + 1),
            old(self).page + 1 >= pages_for(old(self).len()) ==> *final(self) == *old(self),
    {
        if self.page + 1 < self.total_pages() {
            self.page = self.page + 1;
            self.selected_index = self.page_start_index();
        }
    }

    /// Switches to the previous page of profiles, selecting its first profile.
    /// Nothing changes on the first page.
    pub fn prev_page(&mut self)
        requires
            old(self).wf(),
        ensures
            final(self).wf(),
            old(self).page > 0 ==> *final(self) == old(self).with_cursor(
                3 * (old(self).page - 1),
                old(self).page - 1,
            ),
            old(self).page == 0 ==> *final(self) == *old(self),
    {
        if self.page > 0 {
            self.page = self.page - 1;
            self.selected_index = self.page_start_index();
        }
    }

    /// Selects a specific profile index (and turns to its page); an index that
    /// is not a profile changes nothing.
    pub fn select_profile_at_index(&mut self, idx: usize)
        ensures
            old(self).wf() ==> final(self).wf(),
            idx < old(self).len() ==> *final(self) == old(self).with_cursor(idx as int, (idx / 3) as int),
            idx >= old(self).len() ==> *final(self) == *old(self),
    {
        if idx < self.profiles.len() {
            self.selected_index = idx;
            self.page = idx / Self::PROFILES_PER_PAGE;
        }
    }

    /// Selects the new player input field.
    pub fn select_new_player(&mut self)
        ensures
            old(self).wf() ==> final(self).wf(),
            *final(self) == old(self).with_cursor(old(self).len(), old(self).page as int),
    {
        self.selected_index = self.profiles.len();
    }

    /// Appends a character to the name buffer if it won't exceed 20 characters.
    /// Auto-focuses the New Player input field.
    /// Returns true if the character was added.
    pub fn push_char(&mut self, c: char) -> (added: bool)
        ensures
            old(self).wf() ==> final(self).wf(),
            added == (old(self).text@.len() < 20),
            final(self).text@ == pushed_name(old(self).text@, c),
            final(self).selected_index == old(self).len(),
            final(self).page == old(self).page,
            final(self).profiles == old(self).profiles,
            final(self).score == old(self).score,
            final(self).time_seconds == old(self).time_seconds,
            final(self).hints_used == old(self).hints_used,
            final(self).shuffles_used == old(self).shuffles_used,
            final(self).undos_used == old(self).undos_used,
    {
        self.selected_index = self.profiles.len();
        if self.text.as_str().unicode_len() < MAX_NAME_CHARS {
            string_push(&mut self.text, c);
            true
        } else {
            false
        }
    }

    /// Removes the last character from the name buffer.
    /// Auto-focuses the New Player input field.
    /// Returns true if a character was removed.
    pub fn pop_char(&mut self) -> (removed: bool)
        ensures
            old(self).wf() ==> final(self).wf(),
            removed == (old(self).text@.len() > 0),
            final(self).text@ == popped_name(old(self).text@),
            final(self).selected_index == old(self).len(),
            final(self).page == old(self).page,
            final(self).profiles == old(self).profiles,
            final(self).score == old(self).score,
            final(self).time_seconds == old(self).time_seconds,
            final(self).hints_used == old(self).hints_used,
            final(self).shuffles_used == old(self).shuffles_used,
            final(self).undos_used == old(self).undos_used,
    {
        self.selected_index = self.profiles.len();
        string_pop(&mut self.text).is_some()
    }

    /// Returns true if the current text, trimmed of surrounding whitespace,
    /// is a valid name of 1-20 characters.
    pub fn is_valid(&self) -> (b: bool)
        ensures
            b == (1 <= trim(self.text@).len() <= 20),
    {
        let len = trimmed_len(self.text.as_str());
        1 <= len && len <= MAX_NAME_CHARS
    }
}

/// Moving to the next entry and back again returns to the same profile and page
/// whenever an existing profile is selected.
pub proof fn lemma_next_then_prev(s: NameEntryState)
    requires
        s.wf(),
        s.selected_index < s.len(),
    ensures
        spec_select_prev(spec_select_next(s)) == s,
{
    assert(spec_select_prev(spec_select_next(s)).selected_index == s.selected_index);
    assert(spec_select_prev(spec_select_next(s)).page == s.page);
}

/// Moving to the previous entry and forward again returns to the same profile
/// and page whenever an existing profile is selected.
pub proof fn lemma_prev_then_next(s: NameEntryState)
    requires
        s.wf(),
        s.selected_index < s.len(),
    ensures
        spec_select_next(spec_select_prev(s)) == s,
{
    assert(spec_select_next(spec_select_prev(s)).selected_index == s.selected_index);
    assert(spec_select_next(spec_select_prev(s)).page == s.page);
}

/// The selection after moving to the next entry `n` times.
pub open spec fn select_next_times(s: NameEntryState, n: nat) -> NameEntryState
    decreases n,
{
    if n == 0 {
        s
    } else {
        spec_select_next(select_next_times(s, (n - 1) as nat))
    }
}

/// Moving on `n` times from profile `i` (at most once around the list): only the
/// cursor moves, onto entry `i + n` counted around the list of the profiles
/// followed by the "New Player" field, and a profile is shown on its page.
proof fn lemma_select_next_walk(s: NameEntryState, n: nat)
    requires
        s.wf(),
        s.selected_index < s.len(),
        n <= s.len() + 1,
    ensures
        ({
            let t = select_next_times(s, n);
            let pos = if s.selected_index + n <= s.len() {
                s.selected_index + n
            } else {
                s.selected_index + n - (s.len() + 1)
            };
            &&& t.wf()
            &&& t == s.with_cursor(pos, t.page as int)
            &&& pos < s.len() ==> t.page == pos / 3
        }),
    decreases n,
{
    if n > 0 {
        lemma_select_next_walk(s, (n - 1) as nat);
        let t = select_next_times(s, (n - 1) as nat);
        assert(select_next_times(s, n) == spec_select_next(t));
    }
}

/// Moving on from the "New Player" field wraps around to the first profile on the
/// first page, whatever page is shown. Moving on from a profile visits the next
/// profiles, then the "New Player" field, then the profiles from the first one on,
/// each on its own page, and after one step per profile and one more the
/// selection is back where it started.
pub proof fn lemma_select_next_cycles(s: NameEntryState)
    requires
        s.wf(),
        s.len() > 0,
    ensures
        s.selected_index == s.len() ==> spec_select_next(s) == s.with_cursor(0, 0),
        s.selected_index < s.len() ==> forall|n: nat|
            n <= s.len() + 1 ==> {
                let t = #[trigger] select_next_times(s, n);
                let pos = if s.selected_index + n <= s.len() {
                    s.selected_index + n
                } else {
                    s.selected_index + n - (s.len() + 1)
                };
                &&& t.selected_index == pos
                &&& pos < s.len() ==> t.page == pos / 3
                &&& t.profiles == s.profiles
            },
        s.selected_index < s.len() ==> select_next_times(s, (s.len() + 1) as nat) == s,
{
    if s.selected_index < s.len() {
        assert forall|n: nat| n <= s.len() + 1 implies {
            let t = #[trigger] select_next_times(s, n);
            let pos = if s.selected_index + n <= s.len() {
                s.selected_index + n
            } else {
                s.selected_index + n - (s.len() + 1)
            };
            &&& t.selected_index == pos
            &&& pos < s.len() ==> t.page == pos / 3
            &&& t.profiles == s.profiles
        } by {
            lemma_select_next_walk(s, n);
        }
        lemma_select_next_walk(s, (s.len() + 1) as nat);
    }
}

/// Toggling the field twice changes nothing when the "New Player" field or the
/// first profile of the page is selected.
pub proof fn lemma_toggle_twice(s: NameEntryState)
    requires
        s.wf(),
        s.selected_index >= s.len() || s.selected_index == 3 * s.page,
    ensures
        spec_toggle_field(spec_toggle_field(s)) == s,
{
    assert(spec_toggle_field(spec_toggle_field(s)).selected_index == s.selected_index);
}

/// A typed name after typing `c`: the character is appended while the name has
/// fewer than 20 characters.
pub open spec fn pushed_name(text: Seq<char>, c: char) -> Seq<char> {
    if text.len() < 20 {
        text.push(c)
    } else {
        text
    }
}

/// A typed name after a backspace: its last character removed, if any.
pub open spec fn popped_name(text: Seq<char>) -> Seq<char> {
    if text.len() > 0 {
        text.drop_last()
    } else {
        text
    }
}

/// Typing never makes a name longer than 20 characters, and a backspace right
/// after a character that was accepted restores the name.
pub proof fn lemma_typing_laws(text: Seq<char>, c: char)
    ensures
        text.len() <= 20 ==> pushed_name(text, c).len() <= 20,
        text.len() < 20 ==> popped_name(pushed_name(text, c)) == text,
        text.len() >= 20 ==> pushed_name(text, c) == text,
{
    assert(text.push(c).drop_last() =~= text);
}

/// State of an active hint highlight.
#[derive(Debug, Clone, Copy, PartialEq, Eq)]
pub struct HintState {
    /// First tile position of the hinted pair.
    pub position_a: usize,
    /// Second tile position of the hinted pair.
    pub position_b: usize,
    /// When the hint was activated (for auto-dismiss after 3 seconds).
    pub activated_at: Instant,
}

/// Animations that can be playing on the board.
#[derive(Debug, Clone, Copy, PartialEq, Eq)]
pub enum Animation {
    /// Fade-out animation when a matched pair is removed.
    TileRemoval { positions: (usize, usize), face_id: u8, start_time: Instant, duration_ms: u32 },
    /// Colorful lightning animation converging in the middle.
    Lightning { positions: (usize, usize), start_time: Instant, duration_ms: u32 },
    /// Red flash animation for mismatched pair.
    TileMismatch { positions: (usize, usize), start_time: Instant, duration_ms: u32 },
    /// Pulsing glow on hinted tiles.
    HintPulse { positions: (usize, usize), start_time: Instant },
    /// Shuffle animation when tiles are rearranged.
    Shuffle { start_time: Instant, duration_ms: u32 },
}

} // verus!
