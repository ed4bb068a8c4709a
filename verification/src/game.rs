//! The session state and its rules engine.
//!
//! A [`Game`] is the single authoritative state of one session: the player
//! registry, the hidden secret number, the difficulty tier, the vote tally,
//! the phase of the round and the moment the voting window opened.  Every
//! operation here is pure state manipulation: no I/O, and all randomness is
//! drawn from an injected [`GameRng`].

use vstd::prelude::*;
use crate::registry::Players;
use crate::rng::GameRng;
use crate::text::spec_decimal;
use crate::text::u32_to_decimal;

verus! {

/// The text listing of a score table: one `name: score` line per entry, in
/// table order.
pub open spec fn spec_score_lines(s: Seq<(String, u32)>) -> Seq<char>
    decreases s.len(),
{
    if s.len() == 0 {
        Seq::empty()
    } else {
        spec_score_lines(s.drop_last()) + s.last().0@ + ": "@ + spec_decimal(s.last().1 as nat)
            + "\n"@
    }
}

/// Seconds a voting window stays open before the difficulty is resolved.
pub const VOTING_WINDOW_SECS: u64 = 20;

/// The difficulty tiers players can vote for; each tier fixes the inclusive
/// range `[1, range_max]` the secret number is drawn from.
#[derive(Clone, Copy, Debug, PartialEq, Eq, Hash, Structural)]
pub enum Difficulty {
    Easy,
    Medium,
    Hard,
}

impl Difficulty {
    /// Upper end of the inclusive range the secret is drawn from.
    pub open spec fn spec_range_max(self) -> u32 {
        match self {
            Difficulty::Easy => 100,
            Difficulty::Medium => 500,
            Difficulty::Hard => 1000,
        }
    }

    #[verifier::when_used_as_spec(spec_range_max)]
    pub fn range_max(self) -> (r: u32)
        ensures
            r == self.spec_range_max(),
    {
        match self {
            Difficulty::Easy => 100,
            Difficulty::Medium => 500,
            Difficulty::Hard => 1000,
        }
    }
}

/// The stages of one round, advanced only as
/// Identification -> Voting -> Playing -> Identification.
#[derive(Clone, Copy, Debug, PartialEq, Eq, Hash, Structural)]
pub enum GamePhase {
    Identification,
    Voting,
    Playing,
}

/// An operation was attempted outside the phase it is valid in.
#[derive(Clone, Copy, Debug, PartialEq, Eq, Structural)]
pub struct PhaseError;

/// The vote tally: one counter per difficulty tier, reset every round.
#[derive(Clone, Copy, Debug, PartialEq, Eq, Structural)]
pub struct Votes {
    pub easy: u32,
    pub medium: u32,
    pub hard: u32,
}

impl Votes {
    pub fn new() -> (v: Votes)
        ensures
            v == (Votes { easy: 0u32, medium: 0u32, hard: 0u32 }),
    {
        Votes { easy: 0, medium: 0, hard: 0 }
    }

    /// The tally of one tier.
    pub open spec fn spec_count(&self, d: Difficulty) -> u32 {
        match d {
            Difficulty::Easy => self.easy,
            Difficulty::Medium => self.medium,
            Difficulty::Hard => self.hard,
        }
    }

    #[verifier::when_used_as_spec(spec_count)]
    pub fn count(&self, d: Difficulty) -> (r: u32)
        ensures
            r == self.spec_count(d),
    {
        match d {
            Difficulty::Easy => self.easy,
            Difficulty::Medium => self.medium,
            Difficulty::Hard => self.hard,
        }
    }

    /// The highest tally over the three tiers.
    pub open spec fn max_count(self) -> u32 {
        if self.easy >= self.medium && self.easy >= self.hard {
            self.easy
        } else if self.medium >= self.hard {
            self.medium
        } else {
            self.hard
        }
    }
}

/// The authoritative state of one session.
pub struct Game {
    /// Registered players and their stored score (their last winning guess).
    pub players: Players,
    /// The hidden target of the current round.
    pub secret_number: u32,
    /// The difficulty tier the current secret was drawn under.
    pub difficulty: Difficulty,
    /// Log of winning guesses, oldest first.
    pub high_scores: Vec<(String, u32)>,
    /// The tally of difficulty votes for the round being voted on.
    pub difficulty_votes: Votes,
    /// Seconds timestamp at which the voting window opened, if it is open.
    pub start_time: Option<u64>,
    /// The stage the round is in.
    pub phase: GamePhase,
}

impl Game {
    /// The session's invariant: the registry holds one entry per name.
    pub open spec fn wf(self) -> bool {
        self.players.wf()
    }

    /// A fresh session: no players, no votes, an easy-range secret, waiting
    /// for the first player to identify.
    pub fn new() -> (g: Game)
        ensures
            g.wf(),
            g.players@ == Map::<Seq<char>, u32>::empty(),
            g.players.spec_len() == 0,
            1 <= g.secret_number <= Difficulty::Easy.spec_range_max(),
            g.difficulty == Difficulty::Easy,
            g.high_scores@.len() == 0,
            g.difficulty_votes == (Votes { easy: 0u32, medium: 0u32, hard: 0u32 }),
            g.start_time is None,
            g.phase == GamePhase::Identification,
    {
        let mut rng = GameRng::from_entropy();
        Game {
            players: Players::new(),
            secret_number: rng.pick_in_range(1, 100),
            difficulty: Difficulty::Easy,
            high_scores: Vec::new(),
            difficulty_votes: Votes::new(),
            start_time: None,
            phase: GamePhase::Identification,
        }
    }

    /// Registers `name` with score 0.  A duplicate name overwrites: the most
    /// recent join wins for a given name.
    pub fn add_player(&mut self, name: String)
        requires
            old(self).wf(),
        ensures
            final(self).wf(),
            final(self).players@ == old(self).players@.insert(name@, 0u32),
            final(self).secret_number == old(self).secret_number,
            final(self).difficulty == old(self).difficulty,
            final(self).high_scores@ == old(self).high_scores@,
            final(self).difficulty_votes == old(self).difficulty_votes,
            final(self).start_time == old(self).start_time,
            final(self).phase == old(self).phase,
    {
        self.players.insert(name, 0);
    }

    /// Deletes the entry for `name`; a no-op if absent.
    pub fn remove_player(&mut self, name: &str)
        requires
            old(self).wf(),
        ensures
            final(self).wf(),
            final(self).players@ == old(self).players@.remove(name@),
            final(self).secret_number == old(self).secret_number,
            final(self).difficulty == old(self).difficulty,
            final(self).high_scores@ == old(self).high_scores@,
            final(self).difficulty_votes == old(self).difficulty_votes,
            final(self).start_time == old(self).start_time,
            final(self).phase == old(self).phase,
    {
        self.players.remove(name);
    }

    /// Evaluates one guess against the secret.  Outside the playing phase it
    /// fails and leaves the session untouched.  During play it answers with
    /// a hint; on the winning guess it stores the guess as the player's
    /// score and appends it to the high-score log.  The caller ends the
    /// round (see the session dispatch) so the win and the reset are one
    /// step.
    pub fn guess(&mut self, player_name: &str, guess: u32) -> (r: Result<&'static str, PhaseError>)
        requires
            old(self).wf(),
        ensures
            final(self).wf(),
            old(self).phase != GamePhase::Playing ==> r == Err::<&'static str, PhaseError>(
                PhaseError,
            ) && *final(self) == *old(self),
            old(self).phase == GamePhase::Playing && guess < old(self).secret_number ==> (r is Ok
                && r->Ok_0@ == "C’est plus"@ && *final(self) == *old(self)),
            old(self).phase == GamePhase::Playing && guess > old(self).secret_number ==> (r is Ok
                && r->Ok_0@ == "C’est moins"@ && *final(self) == *old(self)),
            old(self).phase == GamePhase::Playing && guess == old(self).secret_number ==> (r is Ok
                && r->Ok_0@ == "Vous avez gagné!"@
                && final(self).players@ == old(self).players@.insert(player_name@, guess)
                && final(self).high_scores@.len() == old(self).high_scores@.len() + 1
                && final(self).high_scores@.drop_last() =~= old(self).high_scores@
                && final(self).high_scores@.last().0@ == player_name@
                && final(self).high_scores@.last().1 == guess
                && final(self).secret_number == old(self).secret_number
                && final(self).difficulty == old(self).difficulty
                && final(self).difficulty_votes == old(self).difficulty_votes
                && final(self).start_time == old(self).start_time
                && final(self).phase == old(self).phase),
    {
        if self.phase != GamePhase::Playing {
            return Err(PhaseError);
        }
        let hint = if guess < self.secret_number {
            "C’est plus"
        } else if guess > self.secret_number {
            "C’est moins"
        } else {
            self.players.insert(player_name.to_owned(), guess);
            self.high_scores.push((player_name.to_owned(), guess));
            proof {
                assert(self.high_scores@.drop_last() =~= old(self).high_scores@);
            }
            "Vous avez gagné!"
        };
        Ok(hint)
    }

    /// Applies `difficulty` and re-rolls the secret over that tier's range.
    pub fn set_difficulty(&mut self, difficulty: Difficulty, rng: &mut GameRng)
        requires
            old(self).wf(),
        ensures
            final(self).wf(),
            final(self).difficulty == difficulty,
            1 <= final(self).secret_number <= difficulty.spec_range_max(),
            final(self).players == old(self).players,
            final(self).high_scores@ == old(self).high_scores@,
            final(self).difficulty_votes == old(self).difficulty_votes,
            final(self).start_time == old(self).start_time,
            final(self).phase == old(self).phase,
    {
        self.difficulty = difficulty;
        self.secret_number = rng.pick_in_range(1, difficulty.range_max());
    }

    /// Counts one vote for `difficulty`.  Valid only while the session is
    /// voting; otherwise it fails and leaves the session untouched.
    pub fn vote_difficulty(&mut self, difficulty: Difficulty) -> (r: Result<(), PhaseError>)
        requires
            old(self).wf(),
            old(self).difficulty_votes.spec_count(difficulty) < u32::MAX,
        ensures
            final(self).wf(),
            old(self).phase != GamePhase::Voting ==> r == Err::<(), PhaseError>(PhaseError)
                && *final(self) == *old(self),
            old(self).phase == GamePhase::Voting ==> (r == Ok::<(), PhaseError>(())
                && final(self).difficulty_votes.spec_count(difficulty) == old(
                self,
            ).difficulty_votes.spec_count(difficulty) + 1
                && (forall|d: Difficulty|
                d != difficulty ==> final(self).difficulty_votes.spec_count(d) == old(
                    self,
                ).difficulty_votes.spec_count(d))
                && final(self).players == old(self).players
                && final(self).secret_number == old(self).secret_number
                && final(self).difficulty == old(self).difficulty
                && final(self).high_scores@ == old(self).high_scores@
                && final(self).start_time == old(self).start_time
                && final(self).phase == old(self).phase),
    {
        if self.phase != GamePhase::Voting {
            return Err(PhaseError);
        }
        match difficulty {
            Difficulty::Easy => {
                self.difficulty_votes.easy = self.difficulty_votes.easy + 1;
            },
            Difficulty::Medium => {
                self.difficulty_votes.medium = self.difficulty_votes.medium + 1;
            },
            Difficulty::Hard => {
                self.difficulty_votes.hard = self.difficulty_votes.hard + 1;
            },
        }
        Ok(())
    }

    /// Resolves the vote: applies a difficulty holding the highest tally,
    /// breaking ties by coin flips from the injected random source, and
    /// re-rolls the secret over the winner's range.  The tally itself is
    /// kept; [`Game::end_game`] clears it.
    pub fn determine_difficulty(&mut self, rng: &mut GameRng)
        requires
            old(self).wf(),
        ensures
            final(self).wf(),
            final(self).difficulty_votes.spec_count(final(self).difficulty) == old(
                self,
            ).difficulty_votes.max_count(),
            1 <= final(self).secret_number <= final(self).difficulty.spec_range_max(),
            final(self).players == old(self).players,
            final(self).high_scores@ == old(self).high_scores@,
            final(self).difficulty_votes == old(self).difficulty_votes,
            final(self).start_time == old(self).start_time,
            final(self).phase == old(self).phase,
    {
        let mut max_votes: u32 = 0;
        let mut selected = Difficulty::Easy;

        let v = self.difficulty_votes.easy;
        if v > max_votes {
            max_votes = v;
            selected = Difficulty::Easy;
        } else if v == max_votes {
            if rng.coin_flip() {
                selected = Difficulty::Easy;
            }
        }
        let v = self.difficulty_votes.medium;
        if v > max_votes {
            max_votes = v;
            selected = Difficulty::Medium;
        } else if v == max_votes {
            if rng.coin_flip() {
                selected = Difficulty::Medium;
            }
        }
        let v = self.difficulty_votes.hard;
        if v > max_votes {
            max_votes = v;
            selected = Difficulty::Hard;
        } else if v == max_votes {
            if rng.coin_flip() {
                selected = Difficulty::Hard;
            }
        }
        self.set_difficulty(selected, rng);
    }

    /// Opens the voting window: the first joiner starts the clock.
    pub fn start_voting_phase(&mut self, now: u64)
        requires
            old(self).wf(),
        ensures
            final(self).wf(),
            final(self).phase == GamePhase::Voting,
            final(self).start_time == Some(now),
            final(self).players == old(self).players,
            final(self).secret_number == old(self).secret_number,
            final(self).difficulty == old(self).difficulty,
            final(self).high_scores@ == old(self).high_scores@,
            final(self).difficulty_votes == old(self).difficulty_votes,
    {
        self.phase = GamePhase::Voting;
        self.start_time = Some(now);
    }

    /// Whether the voting window that opened at `start_time` has elapsed at
    /// the moment `now`.
    pub fn check_voting_phase(&self, now: u64) -> (r: bool)
        ensures
            r == (self.start_time matches Some(t) && now >= t + VOTING_WINDOW_SECS),
    {
        match self.start_time {
            Some(t) => now >= t && now - t >= VOTING_WINDOW_SECS,
            None => false,
        }
    }

    /// Enters the playing phase and clears the round clock.
    pub fn start_game_phase(&mut self)
        requires
            old(self).wf(),
        ensures
            final(self).wf(),
            final(self).phase == GamePhase::Playing,
            final(self).start_time is None,
            final(self).players == old(self).players,
            final(self).secret_number == old(self).secret_number,
            final(self).difficulty == old(self).difficulty,
            final(self).high_scores@ == old(self).high_scores@,
            final(self).difficulty_votes == old(self).difficulty_votes,
    {
        self.phase = GamePhase::Playing;
        self.start_time = None;
    }

    /// Ends the round: clears players, votes and the clock, and returns to
    /// the identification phase.  The high-score log is kept.
    pub fn end_game(&mut self)
        requires
            old(self).wf(),
        ensures
            final(self).wf(),
            final(self).players@ == Map::<Seq<char>, u32>::empty(),
            final(self).players.spec_len() == 0,
            final(self).difficulty_votes == (Votes { easy: 0u32, medium: 0u32, hard: 0u32 }),
            final(self).start_time is None,
            final(self).phase == GamePhase::Identification,
            final(self).secret_number == old(self).secret_number,
            final(self).difficulty == old(self).difficulty,
            final(self).high_scores@ == old(self).high_scores@,
    {
        self.start_time = None;
        self.players.clear();
        self.difficulty_votes = Votes::new();
        self.phase = GamePhase::Identification;
    }

    /// The current score of every registered player, one `name: score` line
    /// per player.
    pub fn get_scores(&self) -> (r: String)
        ensures
            r@ == spec_score_lines(self.players.entries@),
    {
        score_lines(&self.players.entries)
    }

    /// The log of winning guesses, one `name: score` line per win, oldest
    /// first.
    pub fn get_high_scores(&self) -> (r: String)
        ensures
            r@ == spec_score_lines(self.high_scores@),
    {
        score_lines(&self.high_scores)
    }
}

/// A difficulty whose tally is below the highest is never the resolved
/// one: [`Game::determine_difficulty`] promises that the resolved
/// difficulty carries the highest tally.
pub proof fn lemma_resolved_has_max_votes(v: Votes, chosen: Difficulty, other: Difficulty)
    requires
        v.spec_count(chosen) == v.max_count(),
        v.spec_count(other) < v.max_count(),
    ensures
        chosen != other,
{
}

/// When exactly one difficulty holds the highest tally, resolution is
/// deterministic: that difficulty is the resolved one, whatever the
/// random source answers.
pub proof fn lemma_unique_max_is_resolved(v: Votes, chosen: Difficulty, unique: Difficulty)
    requires
        v.spec_count(chosen) == v.max_count(),
        forall|d: Difficulty| d != unique ==> v.spec_count(d) < v.max_count(),
    ensures
        chosen == unique,
{
    if chosen != unique {
        assert(v.spec_count(chosen) < v.max_count());
    }
}

/// Renders a score table as text, one `name: score` line per entry.
fn score_lines(entries: &Vec<(String, u32)>) -> (r: String)
    ensures
        r@ == spec_score_lines(entries@),
{
    let mut out = String::new();
    let n = entries.len();
    let mut i: usize = 0;
    proof {
        assert(entries@.subrange(0, 0) =~= Seq::<(String, u32)>::empty());
    }
    while i < n
        invariant
            n == entries@.len(),
            i <= n,
            out@ == spec_score_lines(entries@.subrange(0, i as int)),
        decreases n - i,
    {
        let e = &entries[i];
        out.append(e.0.as_str());
        out.append(": ");
        let d = u32_to_decimal(e.1);
        out.append(d.as_str());
        out.append("\n");
        proof {
            let pre = entries@.subrange(0, i as int);
            let cur = entries@.subrange(0, i as int + 1);
            assert(cur.drop_last() =~= pre);
            assert(cur.last() == entries@[i as int]);
            assert(out@ =~= spec_score_lines(cur));
        }
        i = i + 1;
    }
    proof {
        assert(entries@.subrange(0, n as int) =~= entries@);
    }
    out
}

} // verus!
