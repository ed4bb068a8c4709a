use guess_session::game::Difficulty;
use guess_session::game::Game;
use guess_session::game::GamePhase;
use guess_session::rng::GameRng;
use guess_session::session::handle_message;
use guess_session::session::register_player;
use guess_session::session::scheduler_tick;
use guess_session::wire::ClientMessage;
use guess_session::wire::ServerMessage;

#[test]
fn first_join_opens_voting() {
    let mut game = Game::new();
    let started = register_player(&mut game, "Alice".to_string(), 100);
    assert!(started);
    assert_eq!(game.phase, GamePhase::Voting);
    assert_eq!(game.start_time, Some(100));
    assert!(game.players.contains_key("Alice"));
    let started_again = register_player(&mut game, "Bob".to_string(), 105);
    assert!(!started_again);
    assert_eq!(game.start_time, Some(100));
    assert_eq!(game.players.len(), 2);
}

#[test]
fn scheduler_fires_once_per_window() {
    let mut game = Game::new();
    let mut rng = GameRng::from_seed(3);
    // not voting: nothing happens
    assert!(scheduler_tick(&mut game, 1000, &mut rng).is_none());
    register_player(&mut game, "Alice".to_string(), 100);
    game.vote_difficulty(Difficulty::Hard).unwrap();
    // window still open
    assert!(scheduler_tick(&mut game, 119, &mut rng).is_none());
    assert_eq!(game.phase, GamePhase::Voting);
    // window elapsed: fires, resolving the unique maximum
    let msg = scheduler_tick(&mut game, 120, &mut rng).expect("must fire");
    assert_eq!(msg, ServerMessage::GameStart(Difficulty::Hard));
    assert_eq!(game.difficulty, Difficulty::Hard);
    assert_eq!(game.phase, GamePhase::Playing);
    assert!(game.start_time.is_none());
    assert!(game.secret_number >= 1 && game.secret_number <= 1000);
    // and never a second time for the same window
    assert!(scheduler_tick(&mut game, 121, &mut rng).is_none());
}

#[test]
fn dispatch_guess_outside_playing_informs_only() {
    let mut game = Game::new();
    register_player(&mut game, "Alice".to_string(), 0);
    let out = handle_message(&mut game, "Alice", ClientMessage::Guess(5));
    assert_eq!(
        out.info,
        Some("You cannot guess right now. Please wait for the game to start.")
    );
    assert!(out.direct.is_empty());
    assert!(out.broadcast.is_empty());
    assert_eq!(game.phase, GamePhase::Voting);
}

#[test]
fn dispatch_vote_outside_voting_informs_only() {
    let mut game = Game::new();
    let out = handle_message(&mut game, "Alice", ClientMessage::DifficultyVote(Difficulty::Easy));
    assert_eq!(out.info, Some("Voting phase is over. Please wait for the next game."));
    assert!(out.broadcast.is_empty());
    assert_eq!(game.difficulty_votes.count(Difficulty::Easy), 0);
}

#[test]
fn dispatch_wrong_guess_hints_and_announces() {
    let mut game = Game::new();
    register_player(&mut game, "Alice".to_string(), 0);
    game.phase = GamePhase::Playing;
    game.secret_number = 50;
    let out = handle_message(&mut game, "Alice", ClientMessage::Guess(40));
    assert_eq!(out.info, None);
    assert_eq!(out.direct, vec![ServerMessage::Hint("C’est plus".to_string())]);
    assert_eq!(out.broadcast, vec![ServerMessage::Guess(40, "Alice".to_string())]);
    assert_eq!(game.phase, GamePhase::Playing);
    let out2 = handle_message(&mut game, "Alice", ClientMessage::Guess(60));
    assert_eq!(out2.direct, vec![ServerMessage::Hint("C’est moins".to_string())]);
}

#[test]
fn dispatch_request_players_answers_directly() {
    let mut game = Game::new();
    register_player(&mut game, "Alice".to_string(), 0);
    register_player(&mut game, "Bob".to_string(), 1);
    let out = handle_message(&mut game, "Alice", ClientMessage::RequestPlayers);
    assert_eq!(
        out.direct,
        vec![ServerMessage::PlayerList(vec!["Alice".to_string(), "Bob".to_string()])]
    );
    assert!(out.broadcast.is_empty());
    assert_eq!(out.info, None);
}

#[test]
fn dispatch_late_join_is_ignored() {
    let mut game = Game::new();
    let out = handle_message(&mut game, "Alice", ClientMessage::Join("Alice".to_string()));
    assert_eq!(out.info, None);
    assert!(out.direct.is_empty());
    assert!(out.broadcast.is_empty());
    assert_eq!(game.players.len(), 0);
}

#[test]
fn scenario_full_round() {
    let mut game = Game::new();
    let mut rng = GameRng::from_seed(7);
    // Alice joins while the session waits for identification: voting opens
    let started = register_player(&mut game, "Alice".to_string(), 100);
    assert!(started);
    assert_eq!(game.phase, GamePhase::Voting);
    assert_eq!(game.start_time, Some(100));
    // Alice votes Easy; Bob joins and votes Hard
    let out = handle_message(&mut game, "Alice", ClientMessage::DifficultyVote(Difficulty::Easy));
    assert_eq!(out.info, None);
    assert_eq!(out.broadcast, vec![ServerMessage::DifficultyVote(Difficulty::Easy)]);
    assert!(!register_player(&mut game, "Bob".to_string(), 105));
    handle_message(&mut game, "Bob", ClientMessage::DifficultyVote(Difficulty::Hard));
    // the fixed voting window elapses with no further votes
    assert!(scheduler_tick(&mut game, 110, &mut rng).is_none());
    let msg = scheduler_tick(&mut game, 120, &mut rng).expect("resolution must fire");
    let resolved = game.difficulty;
    assert!(resolved == Difficulty::Easy || resolved == Difficulty::Hard);
    assert_eq!(msg, ServerMessage::GameStart(resolved));
    assert_eq!(game.phase, GamePhase::Playing);
    // Alice guesses the exact secret: win text to her, win and end to all
    let secret = game.secret_number;
    let out = handle_message(&mut game, "Alice", ClientMessage::Guess(secret));
    assert_eq!(out.direct, vec![ServerMessage::Hint("Vous avez gagné!".to_string())]);
    assert_eq!(out.broadcast.len(), 3);
    assert_eq!(out.broadcast[0], ServerMessage::PlayerWon("Alice".to_string()));
    assert_eq!(out.broadcast[1], ServerMessage::GameEnd);
    assert_eq!(out.broadcast[2], ServerMessage::Guess(secret, "Alice".to_string()));
    // the session reset to identification with an empty registry
    assert_eq!(game.phase, GamePhase::Identification);
    assert_eq!(game.players.len(), 0);
    assert_eq!(game.difficulty_votes.count(Difficulty::Easy), 0);
    assert_eq!(game.difficulty_votes.count(Difficulty::Hard), 0);
    assert!(game.start_time.is_none());
}
