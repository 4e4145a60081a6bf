use vstd::prelude::*;
use crate::events::{self, Event, EventType};
use crate::patterns::{self, GamePatterns};
use rand::seq::SliceRandom;

verus! {

pub const INTERMISSION_DURATION_IN_SECS: u64 = 10;

pub const CALL_DURATION_IN_SECS: u64 = 8;

pub const ROUND_WIN_DURATION_IN_SECS: u64 = 16;

pub const NEW_ROUND_DURATION_IN_SECS: u64 = 6;

pub const END_OF_GAME_DURATION_IN_SECS: u64 = 16;

/// A resolved claim: who won, with which pattern, and their rank within the
/// round (1 = fastest).
#[derive(Clone, Debug)]
pub struct Winner {
    user_id: u32,
    winning_pattern: Vec<u8>,
    position: u8,
}

impl Winner {
    pub closed spec fn spec_user_id(self) -> u32 {
        self.user_id
    }

    pub closed spec fn spec_winning_pattern(self) -> Seq<u8> {
        self.winning_pattern@
    }

    pub closed spec fn spec_position(self) -> u8 {
        self.position
    }

    pub fn user_id(&self) -> (r: u32)
        ensures
            r == self.spec_user_id(),
    {
        self.user_id
    }

    pub fn winning_pattern(&self) -> (r: &Vec<u8>)
        ensures
            r@ == self.spec_winning_pattern(),
    {
        &self.winning_pattern
    }

    pub fn position(&self) -> (r: u8)
        ensures
            r == self.spec_position(),
    {
        self.position
    }
}

/// A claim of victory: claimant identity, the client-reported moment of the
/// claim (epoch milliseconds), the call index the claimant believes is
/// current, and the claimed pattern.
#[derive(Clone, Debug)]
pub struct WinSubmission {
    pub user_id: u32,
    pub timestamp_millis: i64,
    pub call: u8,
    pub pattern: Vec<u8>,
}

/// The game variant: selects the number pool and the pattern catalog entry
/// used for a match.
#[derive(Clone, Copy, Debug, PartialEq, Eq, Structural)]
pub enum GameType {
    Classic,
    British,
    Picture,
}

impl GameType {
    pub fn random() -> (g: GameType)
        ensures
            g == GameType::British,
    {
        GameType::British
    }
}

/// How many numbers a variant's pool holds; the pool is 1..=pool_size.
pub open spec fn spec_pool_size(game_type: GameType) -> int {
    match game_type {
        GameType::Classic => 75,
        GameType::British => 90,
        GameType::Picture => 60,
    }
}

/// The number pool of a variant in its natural order, before shuffling.
pub open spec fn spec_number_pool(game_type: GameType) -> Seq<u8> {
    Seq::new(spec_pool_size(game_type) as nat, |i: int| (i + 1) as u8)
}

/// A sequence of claims is ordered by claim timestamp.
pub open spec fn spec_sorted_by_ts(s: Seq<WinSubmission>) -> bool {
    forall|i: int, j: int|
        0 <= i < j < s.len() ==> s[i].timestamp_millis <= s[j].timestamp_millis
}

/// Insert a claim after every already-buffered claim whose timestamp is no
/// later: the insertion step of a stable sort by timestamp.
pub open spec fn spec_insert_by_ts(s: Seq<WinSubmission>, x: WinSubmission) -> Seq<WinSubmission>
    decreases s.len(),
{
    if s.len() == 0 {
        seq![x]
    } else if s.last().timestamp_millis <= x.timestamp_millis {
        s.push(x)
    } else {
        spec_insert_by_ts(s.drop_last(), x).push(s.last())
    }
}

/// Sort claims by timestamp, keeping arrival order among equal timestamps:
/// the order in which winners are ranked.
pub open spec fn spec_sort_by_ts(s: Seq<WinSubmission>) -> Seq<WinSubmission>
    decreases s.len(),
{
    if s.len() == 0 {
        Seq::empty()
    } else {
        spec_insert_by_ts(spec_sort_by_ts(s.drop_last()), s.last())
    }
}

proof fn lemma_insert_by_ts_len(s: Seq<WinSubmission>, x: WinSubmission)
    ensures
        spec_insert_by_ts(s, x).len() == s.len() + 1,
    decreases s.len(),
{
    if s.len() > 0 && s.last().timestamp_millis > x.timestamp_millis {
        lemma_insert_by_ts_len(s.drop_last(), x);
    }
}

pub proof fn lemma_sort_by_ts_len(s: Seq<WinSubmission>)
    ensures
        spec_sort_by_ts(s).len() == s.len(),
    decreases s.len(),
{
    if s.len() > 0 {
        lemma_sort_by_ts_len(s.drop_last());
        lemma_insert_by_ts_len(spec_sort_by_ts(s.drop_last()), s.last());
    }
}

proof fn lemma_insert_by_ts_le(s: Seq<WinSubmission>, x: WinSubmission, bound: i64)
    requires
        forall|k: int| 0 <= k < s.len() ==> (#[trigger] s[k]).timestamp_millis <= bound,
        x.timestamp_millis <= bound,
    ensures
        forall|k: int|
            0 <= k < spec_insert_by_ts(s, x).len()
                ==> (#[trigger] spec_insert_by_ts(s, x)[k]).timestamp_millis <= bound,
    decreases s.len(),
{
    if s.len() > 0 && s.last().timestamp_millis > x.timestamp_millis {
        assert(forall|k: int|
            0 <= k < s.drop_last().len()
                ==> (#[trigger] s.drop_last()[k]).timestamp_millis <= bound);
        lemma_insert_by_ts_le(s.drop_last(), x, bound);
        lemma_insert_by_ts_len(s.drop_last(), x);
        let t = spec_insert_by_ts(s.drop_last(), x);
        assert(s[s.len() - 1].timestamp_millis <= bound);
        assert forall|k: int|
            0 <= k < spec_insert_by_ts(s, x).len()
                implies (#[trigger] spec_insert_by_ts(s, x)[k]).timestamp_millis <= bound by {
            assert(spec_insert_by_ts(s, x) == t.push(s.last()));
            if k < t.len() {
                assert(spec_insert_by_ts(s, x)[k] == t[k]);
            } else {
                assert(spec_insert_by_ts(s, x)[k] == s.last());
            }
        }
    }
}

proof fn lemma_insert_by_ts_sorted(s: Seq<WinSubmission>, x: WinSubmission)
    requires
        spec_sorted_by_ts(s),
    ensures
        spec_sorted_by_ts(spec_insert_by_ts(s, x)),
    decreases s.len(),
{
    if s.len() == 0 {
    } else if s.last().timestamp_millis <= x.timestamp_millis {
        assert(forall|i: int, j: int|
            0 <= i < j < s.push(x).len()
                ==> s.push(x)[i].timestamp_millis <= s.push(x)[j].timestamp_millis);
    } else {
        let t = spec_insert_by_ts(s.drop_last(), x);
        assert(spec_sorted_by_ts(s.drop_last()));
        lemma_insert_by_ts_sorted(s.drop_last(), x);
        lemma_insert_by_ts_len(s.drop_last(), x);
        assert(forall|k: int|
            0 <= k < s.drop_last().len()
                ==> (#[trigger] s.drop_last()[k]).timestamp_millis
                    <= s.last().timestamp_millis);
        lemma_insert_by_ts_le(s.drop_last(), x, s.last().timestamp_millis);
        assert(forall|i: int, j: int|
            0 <= i < j < t.push(s.last()).len()
                ==> t.push(s.last())[i].timestamp_millis
                    <= t.push(s.last())[j].timestamp_millis);
    }
}

/// The ranking order is sorted by claim timestamp.
pub proof fn lemma_sort_by_ts_sorted(s: Seq<WinSubmission>)
    ensures
        spec_sorted_by_ts(spec_sort_by_ts(s)),
    decreases s.len(),
{
    if s.len() > 0 {
        lemma_sort_by_ts_sorted(s.drop_last());
        lemma_insert_by_ts_sorted(spec_sort_by_ts(s.drop_last()), s.last());
    }
}

proof fn lemma_insert_by_ts_at(s: Seq<WinSubmission>, x: WinSubmission, p: int)
    requires
        0 <= p <= s.len(),
        forall|k: int| p <= k < s.len() ==> (#[trigger] s[k]).timestamp_millis > x.timestamp_millis,
        p > 0 ==> s[p - 1].timestamp_millis <= x.timestamp_millis,
    ensures
        spec_insert_by_ts(s, x) == s.insert(p, x),
    decreases s.len(),
{
    if p == s.len() {
        if s.len() == 0 {
            assert(spec_insert_by_ts(s, x) =~= s.insert(p, x));
        } else {
            assert(s.last().timestamp_millis <= x.timestamp_millis);
            assert(spec_insert_by_ts(s, x) =~= s.insert(p, x));
        }
    } else {
        assert(s.last().timestamp_millis > x.timestamp_millis);
        assert(forall|k: int|
            p <= k < s.drop_last().len()
                ==> (#[trigger] s.drop_last()[k]).timestamp_millis > x.timestamp_millis);
        lemma_insert_by_ts_at(s.drop_last(), x, p);
        assert(spec_insert_by_ts(s, x) == s.drop_last().insert(p, x).push(s.last()));
        assert(s.drop_last().insert(p, x).push(s.last()) =~= s.insert(p, x));
    }
}

/// An element-for-element copy of a claimed pattern.
fn clone_pattern(pattern: &Vec<u8>) -> (r: Vec<u8>)
    ensures
        r@ == pattern@,
{
    let mut r: Vec<u8> = Vec::new();
    let mut i: usize = 0;
    while i < pattern.len()
        invariant
            i <= pattern@.len(),
            r@ == pattern@.take(i as int),
        decreases pattern@.len() - i,
    {
        r.push(pattern[i]);
        proof {
            assert(pattern@.take(i + 1) =~= pattern@.take(i as int).push(pattern@[i as int]));
        }
        i = i + 1;
    }
    proof {
        assert(pattern@.take(pattern@.len() as int) =~= pattern@);
    }
    r
}

/// A ranked winner carries over a claim's identity and pattern, with the
/// given rank.
pub open spec fn spec_winner_matches(w: Winner, submission: WinSubmission, rank: int) -> bool {
    &&& w.spec_user_id() == submission.user_id
    &&& w.spec_winning_pattern() == submission.pattern@
    &&& w.spec_position() == rank
}

/// How resolution relates a match state to its successor: with no pending
/// claims nothing changes; otherwise the current round's slot receives the
/// pending claims in stable timestamp order, ranked 1..N, the pending buffer
/// empties, and everything else is untouched.
pub open spec fn spec_after_resolution(pre: Game, post: Game) -> bool {
    if pre.pending().len() == 0 {
        post == pre
    } else {
        let slot = pre.current_round_index - 1;
        let ranked = spec_sort_by_ts(pre.pending());
        &&& post.pending().len() == 0
        &&& post.winners@.len() == pre.winners@.len()
        &&& forall|r: int|
            0 <= r < pre.winners@.len() && r != slot ==> post.winners@[r] == pre.winners@[r]
        &&& post.winners@[slot]@.len() == ranked.len()
        &&& forall|k: int|
            0 <= k < ranked.len()
                ==> spec_winner_matches(#[trigger] post.winners@[slot]@[k], ranked[k], k + 1)
        &&& post.game_id == pre.game_id
        &&& post.game_type == pre.game_type
        &&& post.numbers == pre.numbers
        &&& post.patterns == pre.patterns
        &&& post.events == pre.events
        &&& post.current_call_index == pre.current_call_index
        &&& post.last_call_time == pre.last_call_time
        &&& post.current_round_index == pre.current_round_index
    }
}

/// No claimant appears twice in a buffer of accepted claims.
pub open spec fn spec_distinct_claimants(s: Seq<WinSubmission>) -> bool {
    forall|i: int, j: int| 0 <= i < j < s.len() ==> s[i].user_id != s[j].user_id
}

/// The game loop's decision after a call's window has been handled: keep
/// calling in the current round, move on to the next round, or end the match
/// because the terminal round has resolved.
#[derive(Clone, Copy, Debug, PartialEq, Eq, Structural)]
pub enum RoundStep {
    Stay,
    Advanced,
    GameOver,
}

/// The full state of one running match. Created fresh for every cycle of the
/// game loop, owned exclusively by it, and exposed to readers only through
/// immutable snapshots.
#[derive(Clone)]
pub struct Game {
    pub game_id: u128,
    pub game_type: GameType,
    pub numbers: Vec<u8>,
    pub patterns: GamePatterns,
    pub events: Vec<Event>,
    pub winners: Vec<Vec<Winner>>,
    pub pending_winners: Vec<WinSubmission>,
    pub current_call_index: u8,
    pub last_call_time: i64,
    pub current_round_index: u8,
}

impl Game {
    /// The buffer of accepted-but-unranked claims for the currently open call.
    pub open spec fn pending(self) -> Seq<WinSubmission> {
        self.pending_winners@
    }

    /// Well-formedness: indices stay within the number sequence and catalog,
    /// there is one winner slot per round, the bounds fit the index types,
    /// and no claimant appears twice in the pending buffer.
    pub open spec fn wf(self) -> bool {
        &&& 1 <= self.current_round_index as int
        &&& self.current_round_index as int <= self.patterns@.len()
        &&& self.patterns@.len() <= u8::MAX
        &&& self.winners@.len() == self.patterns@.len()
        &&& self.current_call_index as int <= self.numbers@.len()
        &&& self.numbers@.len() <= u8::MAX
        &&& spec_distinct_claimants(self.pending())
    }

    /// Advance to the next round, unless the current round is already the
    /// catalog's terminal round: then report `false` and change nothing.
    pub fn increment_round(&mut self) -> (advanced: bool)
        requires
            old(self).wf(),
        ensures
            advanced == (old(self).current_round_index as int != old(self).patterns@.len()),
            !advanced ==> *final(self) == *old(self),
            advanced ==> *final(self) == (Game {
                current_round_index: (old(self).current_round_index + 1) as u8,
                ..*old(self)
            }),
            final(self).wf(),
    {
        let game_has_ended: bool = self.current_round_index as usize == self.patterns.len();
        if game_has_ended {
            return false;
        }

        self.current_round_index = self.current_round_index + 1;
        true
    }

    /// Whether the current round's winner slot has been written.
    pub fn should_increment_round(&self) -> (r: bool)
        requires
            self.wf(),
        ensures
            r == (self.winners@[self.current_round_index - 1]@.len() > 0),
    {
        self.winners[self.current_round_index as usize - 1].len() > 0
    }

    /// Advance to the next call at the given wall-clock moment, unless the
    /// number pool is exhausted: then report `false` and change nothing.
    pub fn increment_call_at(&mut self, now: i64) -> (called: bool)
        requires
            old(self).wf(),
        ensures
            called == (old(self).current_call_index as int != old(self).numbers@.len()),
            !called ==> *final(self) == *old(self),
            called ==> *final(self) == (Game {
                current_call_index: (old(self).current_call_index + 1) as u8,
                last_call_time: now,
                ..*old(self)
            }),
            final(self).wf(),
    {
        let game_has_ended: bool = self.current_call_index as usize == self.numbers.len();
        if game_has_ended {
            return false;
        }

        self.current_call_index = self.current_call_index + 1;
        self.last_call_time = now;
        true
    }

    /// Advance to the next call, stamping the current wall-clock time as the
    /// anchor for submission timing, unless the number pool is exhausted:
    /// then report `false` and change nothing.
    pub fn increment_call(&mut self) -> (called: bool)
        requires
            old(self).wf(),
        ensures
            called == (old(self).current_call_index as int != old(self).numbers@.len()),
            !called ==> *final(self) == *old(self),
            called ==> final(self).current_call_index == old(self).current_call_index + 1,
            called ==> final(self).game_id == old(self).game_id
                && final(self).game_type == old(self).game_type
                && final(self).numbers == old(self).numbers
                && final(self).patterns == old(self).patterns
                && final(self).events == old(self).events
                && final(self).winners == old(self).winners
                && final(self).pending() == old(self).pending()
                && final(self).current_round_index == old(self).current_round_index,
            final(self).wf(),
    {
        let now: i64 = crate::clock::now_millis();
        self.increment_call_at(now)
    }

    /// Whether `user_id` already has an accepted claim in the pending buffer.
    pub open spec fn spec_already_pending(self, user_id: u32) -> bool {
        exists|i: int|
            0 <= i < self.pending().len() && (#[trigger] self.pending()[i]).user_id == user_id
    }

    /// The adjudicator's acceptance rule: a claim is accepted exactly when it
    /// names the currently open call, falls inside the call's response
    /// window, and its claimant has no accepted claim for this call yet.
    pub open spec fn spec_accepts(self, submission: WinSubmission) -> bool {
        &&& submission.call == self.current_call_index
        &&& submission.timestamp_millis - self.last_call_time < CALL_DURATION_IN_SECS * 1000
        &&& !self.spec_already_pending(submission.user_id)
    }

    /// Validate a claim against the open call and, if it passes, buffer it
    /// for ranking. A rejected claim leaves the state untouched.
    pub fn process_win_submission(&mut self, submission: WinSubmission) -> (accepted: bool)
        requires
            old(self).wf(),
        ensures
            accepted == old(self).spec_accepts(submission),
            !accepted ==> *final(self) == *old(self),
            accepted ==> *final(self) == (Game {
                pending_winners: final(self).pending_winners,
                ..*old(self)
            }),
            accepted ==> final(self).pending() == old(self).pending().push(submission),
            final(self).wf(),
    {
        let valid_submission_call: bool = submission.call == self.current_call_index;
        if !valid_submission_call {
            return false;
        }

        let millis_elapsed_since_call: i128 = submission.timestamp_millis as i128
            - self.last_call_time as i128;
        let valid_submission_time: bool = millis_elapsed_since_call
            < (CALL_DURATION_IN_SECS * 1000) as i128;
        if !valid_submission_time {
            return false;
        }

        let mut i: usize = 0;
        while i < self.pending_winners.len()
            invariant
                *self == *old(self),
                self.wf(),
                i <= self.pending_winners@.len(),
                forall|k: int|
                    0 <= k < i
                        ==> (#[trigger] self.pending_winners@[k]).user_id != submission.user_id,
            decreases self.pending_winners@.len() - i,
        {
            if self.pending_winners[i].user_id == submission.user_id {
                proof {
                    assert(self.pending()[i as int].user_id == submission.user_id);
                }
                return false;
            }
            i = i + 1;
        }

        self.pending_winners.push(submission);
        true
    }

    /// Resolve the open call: rank every pending claim by claim timestamp
    /// (stable: equal timestamps keep arrival order), write the ranked list
    /// into the current round's winner slot, and clear the pending buffer.
    /// With no pending claims this is a no-op.
    pub fn process_winners(&mut self)
        requires
            old(self).wf(),
            old(self).pending().len() <= u8::MAX,
        ensures
            spec_after_resolution(*old(self), *final(self)),
            final(self).wf(),
    {
        if self.pending_winners.is_empty() {
            return;
        }

        let mut rest: Vec<WinSubmission> = Vec::new();
        core::mem::swap(&mut rest, &mut self.pending_winners);
        let ghost orig: Seq<WinSubmission> = rest@;

        let mut sorted: Vec<WinSubmission> = Vec::new();
        while rest.len() > 0
            invariant
                *self == (Game { pending_winners: self.pending_winners, ..*old(self) }),
                self.pending_winners@.len() == 0,
                orig == old(self).pending(),
                sorted@.len() + rest@.len() == orig.len(),
                rest@ == orig.skip(sorted@.len() as int),
                sorted@ == spec_sort_by_ts(orig.take(sorted@.len() as int)),
            decreases rest@.len(),
        {
            let ghost done: int = sorted@.len() as int;
            let x: WinSubmission = rest.remove(0);
            assert(x == orig[done]);

            let mut p: usize = sorted.len();
            while p > 0 && sorted[p - 1].timestamp_millis > x.timestamp_millis
                invariant
                    p <= sorted@.len(),
                    forall|k: int|
                        p <= k < sorted@.len()
                            ==> (#[trigger] sorted@[k]).timestamp_millis > x.timestamp_millis,
                decreases p,
            {
                p = p - 1;
            }
            proof {
                lemma_insert_by_ts_at(sorted@, x, p as int);
            }
            sorted.insert(p, x);
            proof {
                assert(orig.take(done + 1).drop_last() =~= orig.take(done));
                assert(orig.take(done + 1).last() == orig[done]);
                assert(rest@ =~= orig.skip(done + 1));
            }
        }

        proof {
            assert(orig.take(sorted@.len() as int) =~= orig);
            lemma_sort_by_ts_len(orig);
        }

        let ghost ranked: Seq<WinSubmission> = spec_sort_by_ts(orig);
        let mut round_winners: Vec<Winner> = Vec::new();
        let mut i: usize = 0;
        let number_of_winners: usize = sorted.len();
        while i < number_of_winners
            invariant
                number_of_winners == sorted@.len(),
                sorted@ == ranked,
                ranked.len() <= u8::MAX,
                i <= number_of_winners,
                round_winners@.len() == i,
                forall|k: int|
                    0 <= k < i
                        ==> spec_winner_matches(#[trigger] round_winners@[k], ranked[k], k + 1),
            decreases number_of_winners - i,
        {
            let submission: &WinSubmission = &sorted[i];
            let winner = Winner {
                user_id: submission.user_id,
                winning_pattern: clone_pattern(&submission.pattern),
                position: (i as u8) + 1,
            };
            round_winners.push(winner);
            i = i + 1;
        }

        let slot: usize = self.current_round_index as usize - 1;
        self.winners[slot] = round_winners;
    }

    /// Append one phase-change record, stamped at `now`, to the match's
    /// timeline. The timeline only ever grows; nothing else changes.
    pub fn append_event(&mut self, event_type: EventType, duration_secs: u64, now: i64)
        requires
            duration_secs <= u8::MAX,
        ensures
            *final(self) == (Game { events: final(self).events, ..*old(self) }),
            final(self).events@.len() == old(self).events@.len() + 1,
            forall|k: int|
                0 <= k < old(self).events@.len()
                    ==> final(self).events@[k] == old(self).events@[k],
            final(self).events@.last().spec_event_type() == event_type,
            final(self).events@.last().spec_duration() == duration_secs,
            final(self).events@.last().spec_start_time() == now,
            old(self).wf() ==> final(self).wf(),
    {
        let event: Event = events::new_at(event_type, duration_secs, now);
        self.events.push(event);
    }

    /// One step of the game loop: open the next call at wall-clock moment
    /// `now` — advance the call index, anchor the response window at `now`,
    /// and log the NewCall phase. Reports `false`, changing nothing, when the
    /// number pool is exhausted: the match must end.
    pub fn open_call(&mut self, now: i64) -> (opened: bool)
        requires
            old(self).wf(),
        ensures
            opened == (old(self).current_call_index as int != old(self).numbers@.len()),
            !opened ==> *final(self) == *old(self),
            opened ==> *final(self) == (Game {
                current_call_index: (old(self).current_call_index + 1) as u8,
                last_call_time: now,
                events: final(self).events,
                ..*old(self)
            }),
            opened ==> final(self).events@.len() == old(self).events@.len() + 1
                && (forall|k: int|
                    0 <= k < old(self).events@.len()
                        ==> final(self).events@[k] == old(self).events@[k])
                && final(self).events@.last().spec_event_type() == EventType::NewCall
                && final(self).events@.last().spec_duration() == CALL_DURATION_IN_SECS
                && final(self).events@.last().spec_start_time() == now,
            final(self).wf(),
    {
        if !self.increment_call_at(now) {
            return false;
        }
        self.append_event(EventType::NewCall, CALL_DURATION_IN_SECS, now);
        true
    }

    /// One step of the game loop: close the response window at wall-clock
    /// moment `now`. If any claims were accepted, rank them into the current
    /// round's slot and log the RoundWin phase; report whether that happened.
    pub fn resolve_window(&mut self, now: i64) -> (resolved: bool)
        requires
            old(self).wf(),
            old(self).pending().len() <= u8::MAX,
        ensures
            resolved == (old(self).pending().len() > 0),
            !resolved ==> *final(self) == *old(self),
            resolved ==> spec_after_resolution(*old(self), Game {
                events: old(self).events,
                ..*final(self)
            }),
            resolved ==> final(self).events@.len() == old(self).events@.len() + 1
                && (forall|k: int|
                    0 <= k < old(self).events@.len()
                        ==> final(self).events@[k] == old(self).events@[k])
                && final(self).events@.last().spec_event_type() == EventType::RoundWin
                && final(self).events@.last().spec_duration() == ROUND_WIN_DURATION_IN_SECS
                && final(self).events@.last().spec_start_time() == now,
            final(self).wf(),
    {
        if !self.has_pending_winners() {
            return false;
        }
        self.process_winners();
        self.append_event(EventType::RoundWin, ROUND_WIN_DURATION_IN_SECS, now);
        true
    }

    /// One step of the game loop: after a window has been handled, decide at
    /// wall-clock moment `now` whether the match stays in the current round
    /// (no winner yet), advances to the next round and logs the NewRound
    /// phase, or is over because the terminal round has just resolved. A
    /// GameOver decision changes nothing: in particular, no further NewRound
    /// phase is ever logged once the terminal round is done.
    pub fn next_round_decision(&mut self, now: i64) -> (step: RoundStep)
        requires
            old(self).wf(),
        ensures
            step == RoundStep::Stay <==> old(self).winners@[old(
                self,
            ).current_round_index - 1]@.len() == 0,
            step == RoundStep::GameOver <==> old(self).winners@[old(
                self,
            ).current_round_index - 1]@.len() > 0 && old(self).current_round_index as int == old(
                self,
            ).patterns@.len(),
            (step == RoundStep::Stay || step == RoundStep::GameOver) ==> *final(self) == *old(
                self,
            ),
            step == RoundStep::Advanced ==> *final(self) == (Game {
                current_round_index: (old(self).current_round_index + 1) as u8,
                events: final(self).events,
                ..*old(self)
            }),
            step == RoundStep::Advanced ==> final(self).events@.len() == old(
                self,
            ).events@.len() + 1 && (forall|k: int|
                0 <= k < old(self).events@.len()
                    ==> final(self).events@[k] == old(self).events@[k])
                && final(self).events@.last().spec_event_type() == EventType::NewRound
                && final(self).events@.last().spec_duration() == NEW_ROUND_DURATION_IN_SECS
                && final(self).events@.last().spec_start_time() == now,
            final(self).wf(),
    {
        if !self.should_increment_round() {
            return RoundStep::Stay;
        }
        if !self.increment_round() {
            return RoundStep::GameOver;
        }
        self.append_event(EventType::NewRound, NEW_ROUND_DURATION_IN_SECS, now);
        RoundStep::Advanced
    }

    /// Whether any accepted claims are waiting to be ranked.
    pub fn has_pending_winners(&self) -> (r: bool)
        ensures
            r == (self.pending().len() > 0),
    {
        !self.pending_winners.is_empty()
    }

    pub fn ended(&self) {
    }
}

/// Law: a claim whose declared call index differs from the match's current
/// call index is never accepted, so a rejected claim leaves the pending
/// buffer unchanged.
pub proof fn lemma_call_mismatch_rejected(g: Game, submission: WinSubmission)
    requires
        submission.call != g.current_call_index,
    ensures
        !g.spec_accepts(submission),
{
}

/// Law: a claim stamped at or after the close of the call's response window
/// — eight seconds past the call — is never accepted, whatever call index it
/// declares.
pub proof fn lemma_window_expired_rejected(g: Game, submission: WinSubmission)
    requires
        submission.timestamp_millis - g.last_call_time >= CALL_DURATION_IN_SECS * 1000,
    ensures
        !g.spec_accepts(submission),
{
}

/// Law: a well-formed match never buffers two claims from one claimant, and
/// while a claimant is buffered, any further claim of theirs is rejected.
pub proof fn lemma_one_claim_per_claimant(g: Game, i: int, j: int, submission: WinSubmission)
    requires
        g.wf(),
        0 <= i < g.pending().len(),
        0 <= j < g.pending().len(),
        i != j,
    ensures
        g.pending()[i].user_id != g.pending()[j].user_id,
        g.pending()[i].user_id == submission.user_id ==> !g.spec_accepts(submission),
{
    if i < j {
        assert(g.pending()[i].user_id != g.pending()[j].user_id);
    } else {
        assert(g.pending()[j].user_id != g.pending()[i].user_id);
    }
}

/// Law: ranking follows claim timestamps strictly — in a freshly resolved
/// round slot holding the pending claims of `subs` in ranked order, a winner
/// with a strictly earlier claim timestamp holds a strictly smaller rank.
pub proof fn lemma_round_ranks_follow_timestamps(g: Game, subs: Seq<WinSubmission>, slot: int, i: int, j: int)
    requires
        0 <= slot < g.winners@.len(),
        g.winners@[slot]@.len() == spec_sort_by_ts(subs).len(),
        forall|k: int|
            0 <= k < spec_sort_by_ts(subs).len()
                ==> spec_winner_matches(#[trigger] g.winners@[slot]@[k], spec_sort_by_ts(subs)[k], k + 1),
        0 <= i < g.winners@[slot]@.len(),
        0 <= j < g.winners@[slot]@.len(),
        spec_sort_by_ts(subs)[i].timestamp_millis < spec_sort_by_ts(subs)[j].timestamp_millis,
    ensures
        g.winners@[slot]@[i].spec_position() < g.winners@[slot]@[j].spec_position(),
{
    lemma_sort_by_ts_sorted(subs);
    if j <= i {
        assert(spec_sort_by_ts(subs)[j].timestamp_millis
            <= spec_sort_by_ts(subs)[i].timestamp_millis);
    }
    assert(spec_winner_matches(g.winners@[slot]@[i], spec_sort_by_ts(subs)[i], i + 1));
    assert(spec_winner_matches(g.winners@[slot]@[j], spec_sort_by_ts(subs)[j], j + 1));
}

/// Law: round winner slots are write-once. Resolution only ever writes the
/// current round's slot, and the game loop advances the round as soon as a
/// slot is written, so whenever resolution runs, a slot that is already
/// non-empty is either not the current one or no claims are pending — and it
/// is left exactly as it was.
pub proof fn lemma_round_slots_write_once(pre: Game, post: Game, r: int)
    requires
        spec_after_resolution(pre, post),
        0 <= r < pre.winners@.len(),
        pre.winners@[r]@.len() > 0,
        r == pre.current_round_index - 1 ==> pre.pending().len() == 0,
    ensures
        post.winners@[r] == pre.winners@[r],
{
}

/// Relies on rand's `SliceRandom::shuffle` with the thread-local generator:
/// it permutes the slice in place, so the multiset of numbers (and hence the
/// length) is preserved; the resulting order is random.
#[verifier::external_body]
fn shuffle_numbers(numbers: &mut Vec<u8>)
    ensures
        final(numbers)@.to_multiset() == old(numbers)@.to_multiset(),
        final(numbers)@.len() == old(numbers)@.len(),
{
    numbers.shuffle(&mut rand::rng());
}

/// Relies on uuid's `Uuid::new_v4`, reduced to its 128-bit value via
/// `Uuid::as_u128`: a freshly drawn random match identifier. Nothing is
/// assumed of the value.
#[verifier::external_body]
fn fresh_game_id() -> u128 {
    uuid::Uuid::new_v4().as_u128()
}

/// The variant's number pool in natural order: 1 up to the pool size.
fn number_pool(game_type: &GameType) -> (v: Vec<u8>)
    ensures
        v@ == spec_number_pool(*game_type),
{
    let pool_size: u8 = match game_type {
        GameType::Classic => 75,
        GameType::British => 90,
        GameType::Picture => 60,
    };
    let mut v: Vec<u8> = Vec::new();
    let mut n: u8 = 0;
    while n < pool_size
        invariant
            n <= pool_size,
            v@.len() == n as int,
            forall|k: int| 0 <= k < n ==> v@[k] == (k + 1) as u8,
        decreases pool_size - n,
    {
        v.push(n + 1);
        n = n + 1;
    }
    proof {
        assert(v@ =~= spec_number_pool(*game_type));
    }
    v
}

/// Start a fresh match: draw the variant, shuffle its number pool into the
/// call order for the whole match, look up the variant's catalog entry, and
/// stand at round 1 with no number called, no winners and no pending claims.
/// The timeline opens with the Intermission phase.
pub fn new() -> (g: Game)
    ensures
        g.wf(),
        g.game_type == GameType::British,
        g.current_call_index == 0,
        g.current_round_index == 1,
        g.pending().len() == 0,
        g.patterns.deep_view() == patterns::spec_game_patterns(g.game_type),
        g.patterns@.len() == 3,
        g.winners@.len() == g.patterns@.len(),
        forall|r: int| 0 <= r < g.winners@.len() ==> (#[trigger] g.winners@[r])@.len() == 0,
        g.numbers@.len() == spec_pool_size(g.game_type),
        g.numbers@.to_multiset() == spec_number_pool(g.game_type).to_multiset(),
        g.events@.len() == 1,
        g.events@[0].spec_event_type() == EventType::Intermission,
        g.events@[0].spec_duration() == INTERMISSION_DURATION_IN_SECS,
{
    let random_game_type: GameType = GameType::random();
    let game_patterns: GamePatterns = patterns::get_game_patterns(&random_game_type);
    let number_of_rounds: usize = game_patterns.len();

    let mut numbers: Vec<u8> = number_pool(&random_game_type);
    shuffle_numbers(&mut numbers);

    let mut winners: Vec<Vec<Winner>> = Vec::new();
    let mut r: usize = 0;
    while r < number_of_rounds
        invariant
            r <= number_of_rounds,
            winners@.len() == r as int,
            forall|k: int| 0 <= k < r ==> (#[trigger] winners@[k])@.len() == 0,
        decreases number_of_rounds - r,
    {
        winners.push(Vec::new());
        r = r + 1;
    }

    let now: i64 = crate::clock::now_millis();
    let mut timeline: Vec<Event> = Vec::new();
    timeline.push(events::new_at(EventType::Intermission, INTERMISSION_DURATION_IN_SECS, now));

    Game {
        game_id: fresh_game_id(),
        game_type: random_game_type,
        numbers,
        patterns: game_patterns,
        events: timeline,
        winners,
        pending_winners: Vec::new(),
        current_call_index: 0,
        last_call_time: now,
        current_round_index: 1,
    }
}

} // verus!
