//! The per-client dispatch and the countdown decision.
//!
//! A handler owns one connection; everything it decides about the shared
//! session happens here, as pure functions from state and message to next
//! state and outgoing messages.  The caller performs the actual reads,
//! writes and broadcasts and holds the session lock around each call, so a
//! winning guess and the round reset are one atomic step to every other
//! handler.

use vstd::prelude::*;
use crate::game::Difficulty;
use crate::game::Game;
use crate::game::GamePhase;
use crate::game::VOTING_WINDOW_SECS;
use crate::registry::names_of;
use crate::rng::GameRng;
use crate::wire::ClientMessage;
use crate::wire::ClientMsgV;
use crate::wire::ServerMessage;
use crate::wire::ServerMsgV;

verus! {

/// What the per-client handler must send after one message: answers for
/// the sender's own connection, and messages for every connection.
pub struct DispatchOutcome {
    /// Messages for the sender's own connection only.
    pub direct: Vec<ServerMessage>,
    /// A plain informational line for the sender, reporting an operation
    /// attempted outside its phase; never sent to anyone else.
    pub info: Option<&'static str>,
    /// Messages for every registered connection, in order.
    pub broadcast: Vec<ServerMessage>,
}

/// The voting window that opened at `g.start_time` has elapsed at `now`.
pub open spec fn voting_window_elapsed(g: Game, now: u64) -> bool {
    g.phase == GamePhase::Voting && (g.start_time matches Some(t) && now >= t
        + VOTING_WINDOW_SECS)
}

/// `b` is `a` with the whole round state untouched except the registry.
pub open spec fn same_round_except_players(a: Game, b: Game) -> bool {
    &&& b.secret_number == a.secret_number
    &&& b.difficulty == a.difficulty
    &&& b.high_scores@ == a.high_scores@
    &&& b.difficulty_votes == a.difficulty_votes
}

/// `b` is `a` after the round was won: registry and tally cleared, clock
/// stopped, back to identification, the win logged.
pub open spec fn round_reset_with_win(a: Game, b: Game, name: Seq<char>, g: u32) -> bool {
    &&& b.phase == GamePhase::Identification
    &&& b.players@ == Map::<Seq<char>, u32>::empty()
    &&& b.start_time is None
    &&& b.difficulty_votes == (crate::game::Votes { easy: 0u32, medium: 0u32, hard: 0u32 })
    &&& b.secret_number == a.secret_number
    &&& b.difficulty == a.difficulty
    &&& b.high_scores@.len() == a.high_scores@.len() + 1
    &&& b.high_scores@.drop_last() =~= a.high_scores@
    &&& b.high_scores@.last().0@ == name
    &&& b.high_scores@.last().1 == g
}

/// `b` is `a` with one more vote for `d` and nothing else changed.
pub open spec fn one_more_vote(a: Game, b: Game, d: Difficulty) -> bool {
    &&& b.difficulty_votes.spec_count(d) == a.difficulty_votes.spec_count(d) + 1
    &&& forall|d2: Difficulty|
        d2 != d ==> b.difficulty_votes.spec_count(d2) == a.difficulty_votes.spec_count(d2)
    &&& b.players == a.players
    &&& b.secret_number == a.secret_number
    &&& b.difficulty == a.difficulty
    &&& b.high_scores@ == a.high_scores@
    &&& b.start_time == a.start_time
    &&& b.phase == a.phase
}

/// Handles a join: registers the name with score 0, and if the session was
/// still waiting for identification, the first joiner opens the voting
/// window at `now`.
pub fn register_player(game: &mut Game, name: String, now: u64) -> (started_voting: bool)
    requires
        old(game).wf(),
    ensures
        final(game).wf(),
        final(game).players@ == old(game).players@.insert(name@, 0u32),
        started_voting == (old(game).phase == GamePhase::Identification),
        old(game).phase == GamePhase::Identification ==> final(game).phase == GamePhase::Voting
            && final(game).start_time == Some(now),
        old(game).phase != GamePhase::Identification ==> final(game).phase == old(game).phase
            && final(game).start_time == old(game).start_time,
        same_round_except_players(*old(game), *final(game)),
{
    game.add_player(name);
    if game.phase == GamePhase::Identification {
        game.start_voting_phase(now);
        true
    } else {
        false
    }
}

/// One tick of the countdown scheduler.  While the session is not voting,
/// or the voting window has not elapsed at `now`, nothing happens.  Once
/// it has elapsed, the vote is resolved, the session enters the playing
/// phase, and the start-of-round broadcast is handed back.  Firing leaves
/// the voting phase, so the scheduler fires exactly once per window.
pub fn scheduler_tick(game: &mut Game, now: u64, rng: &mut GameRng) -> (r: Option<ServerMessage>)
    requires
        old(game).wf(),
    ensures
        final(game).wf(),
        !voting_window_elapsed(*old(game), now) ==> r is None && *final(game) == *old(game),
        voting_window_elapsed(*old(game), now) ==> {
            &&& r matches Some(msg) && msg@ == ServerMsgV::GameStart(final(game).difficulty)
            &&& final(game).phase == GamePhase::Playing
            &&& final(game).start_time is None
            &&& final(game).difficulty_votes == old(game).difficulty_votes
            &&& final(game).difficulty_votes.spec_count(final(game).difficulty) == old(
                game,
            ).difficulty_votes.max_count()
            &&& 1 <= final(game).secret_number <= final(game).difficulty.spec_range_max()
            &&& final(game).players == old(game).players
            &&& final(game).high_scores@ == old(game).high_scores@
        },
{
    if game.phase == GamePhase::Voting && game.check_voting_phase(now) {
        game.determine_difficulty(rng);
        let msg = ServerMessage::GameStart(game.difficulty);
        game.start_game_phase();
        Some(msg)
    } else {
        None
    }
}

/// Dispatches one decoded client message against the session, exactly as
/// the per-client handler must act on it: a guess is answered with a hint
/// and announced to everyone, and a winning guess additionally announces
/// the winner, ends the round and resets the session in the same step; a
/// vote is tallied and announced; a player-list request is answered
/// directly; a late join message is ignored.  An operation outside its
/// phase leaves the session untouched and only informs the sender.
pub fn handle_message(game: &mut Game, player_name: &str, msg: ClientMessage) -> (out:
    DispatchOutcome)
    requires
        old(game).wf(),
    ensures
        final(game).wf(),
        match msg@ {
            ClientMsgV::Guess(g) => {
                &&& old(game).phase != GamePhase::Playing ==> {
                    &&& out.info matches Some(t) && t@
                        == "You cannot guess right now. Please wait for the game to start."@
                    &&& out.direct@.len() == 0
                    &&& out.broadcast@.len() == 0
                    &&& *final(game) == *old(game)
                }
                &&& (old(game).phase == GamePhase::Playing && g != old(game).secret_number) ==> {
                    &&& out.info is None
                    &&& out.direct@.len() == 1
                    &&& out.direct@[0]@ == ServerMsgV::Hint(
                        if g < old(game).secret_number {
                            "C’est plus"@
                        } else {
                            "C’est moins"@
                        },
                    )
                    &&& out.broadcast@.len() == 1
                    &&& out.broadcast@[0]@ == ServerMsgV::Guess(g, player_name@)
                    &&& *final(game) == *old(game)
                }
                &&& (old(game).phase == GamePhase::Playing && g == old(game).secret_number) ==> {
                    &&& out.info is None
                    &&& out.direct@.len() == 1
                    &&& out.direct@[0]@ == ServerMsgV::Hint("Vous avez gagné!"@)
                    &&& out.broadcast@.len() == 3
                    &&& out.broadcast@[0]@ == ServerMsgV::PlayerWon(player_name@)
                    &&& out.broadcast@[1]@ == ServerMsgV::GameEnd
                    &&& out.broadcast@[2]@ == ServerMsgV::Guess(g, player_name@)
                    &&& round_reset_with_win(*old(game), *final(game), player_name@, g)
                }
            },
            ClientMsgV::DifficultyVote(d) => {
                &&& old(game).phase != GamePhase::Voting ==> {
                    &&& out.info matches Some(t) && t@
                        == "Voting phase is over. Please wait for the next game."@
                    &&& out.direct@.len() == 0
                    &&& out.broadcast@.len() == 0
                    &&& *final(game) == *old(game)
                }
                &&& old(game).phase == GamePhase::Voting ==> {
                    &&& out.info is None
                    &&& out.direct@.len() == 0
                    &&& out.broadcast@.len() == 1
                    &&& out.broadcast@[0]@ == ServerMsgV::DifficultyVote(d)
                }
                &&& (old(game).phase == GamePhase::Voting && old(
                    game,
                ).difficulty_votes.spec_count(d) < u32::MAX) ==> one_more_vote(
                    *old(game),
                    *final(game),
                    d,
                )
                &&& (old(game).phase == GamePhase::Voting && old(
                    game,
                ).difficulty_votes.spec_count(d) == u32::MAX) ==> *final(game) == *old(game)
            },
            ClientMsgV::RequestPlayers => {
                &&& out.info is None
                &&& out.direct@.len() == 1
                &&& out.direct@[0]@ == ServerMsgV::PlayerList(names_of(old(game).players.entries@))
                &&& out.broadcast@.len() == 0
                &&& *final(game) == *old(game)
            },
            ClientMsgV::Join(_) => {
                &&& out.info is None
                &&& out.direct@.len() == 0
                &&& out.broadcast@.len() == 0
                &&& *final(game) == *old(game)
            },
        },
{
    let mut direct: Vec<ServerMessage> = Vec::new();
    let mut broadcast: Vec<ServerMessage> = Vec::new();
    let mut info: Option<&'static str> = None;
    match msg {
        ClientMessage::Guess(g) => {
            if game.phase != GamePhase::Playing {
                info = Some("You cannot guess right now. Please wait for the game to start.");
            } else {
                let winning = g == game.secret_number;
                match game.guess(player_name, g) {
                    Ok(hint) => {
                        direct.push(ServerMessage::Hint(hint.to_owned()));
                        if winning {
                            broadcast.push(ServerMessage::PlayerWon(player_name.to_owned()));
                            broadcast.push(ServerMessage::GameEnd);
                            game.end_game();
                        }
                        broadcast.push(ServerMessage::Guess(g, player_name.to_owned()));
                    },
                    Err(_) => {
                        // unreachable: the phase was just checked
                    },
                }
            }
        },
        ClientMessage::DifficultyVote(d) => {
            if game.phase != GamePhase::Voting {
                info = Some("Voting phase is over. Please wait for the next game.");
            } else {
                if game.difficulty_votes.count(d) < u32::MAX {
                    let _ = game.vote_difficulty(d);
                }
                broadcast.push(ServerMessage::DifficultyVote(d));
            }
        },
        ClientMessage::RequestPlayers => {
            let names = game.players.names();
            direct.push(ServerMessage::PlayerList(names));
        },
        ClientMessage::Join(_) => {},
    }
    DispatchOutcome { direct, info, broadcast }
}

} // verus!
