use guess_session::game::Difficulty;
use guess_session::game::Game;
use guess_session::game::GamePhase;
use guess_session::rng::GameRng;

#[test]
fn test_game_new() {
    let game = Game::new();
    assert_eq!(game.difficulty, Difficulty::Easy);
    assert_eq!(game.players.len(), 0);
    assert_eq!(game.phase, GamePhase::Identification);
}

#[test]
fn game_test_add_player() {
    let mut game = Game::new();
    game.add_player("Player1".to_string());
    assert_eq!(game.players.len(), 1);
    assert_eq!(game.players.get("Player1").unwrap(), 0);
}

#[test]
fn test_remove_player() {
    let mut game = Game::new();
    game.add_player("Player1".to_string());
    game.remove_player("Player1");
    assert!(game.players.get("Player1").is_none());
}

#[test]
fn test_guess_more() {
    let mut game = Game::new();
    game.secret_number = 50;
    game.phase = GamePhase::Playing;
    let result = game.guess("Player1", 40).unwrap();
    assert_eq!(result, "C’est plus");
}

#[test]
fn test_guess_less() {
    let mut game = Game::new();
    game.secret_number = 50;
    game.phase = GamePhase::Playing;
    let result = game.guess("Player1", 60).unwrap();
    assert_eq!(result, "C’est moins");
}

#[test]
fn test_guess_correct() {
    let mut game = Game::new();
    game.secret_number = 50;
    game.phase = GamePhase::Playing;
    let result = game.guess("Player1", 50).unwrap();
    assert_eq!(result, "Vous avez gagné!");
    assert_eq!(game.players.get("Player1").unwrap(), 50);
}

#[test]
fn test_vote_difficulty() {
    let mut game = Game::new();
    game.start_voting_phase(0);
    game.vote_difficulty(Difficulty::Medium).unwrap();
    assert_eq!(game.difficulty_votes.count(Difficulty::Medium), 1);
}

#[test]
fn test_determine_difficulty() {
    let mut game = Game::new();
    game.start_voting_phase(0);
    game.vote_difficulty(Difficulty::Medium).unwrap();
    game.vote_difficulty(Difficulty::Medium).unwrap();
    game.vote_difficulty(Difficulty::Hard).unwrap();
    let mut rng = GameRng::from_seed(42);
    game.determine_difficulty(&mut rng);
    assert_eq!(game.difficulty, Difficulty::Medium);
}

#[test]
fn test_start_voting_phase() {
    let mut game = Game::new();
    game.start_voting_phase(0);
    assert_eq!(game.phase, GamePhase::Voting);
    assert!(game.start_time.is_some());
}

#[test]
fn test_check_voting_phase() {
    let mut game = Game::new();
    game.start_voting_phase(0);
    assert!(game.check_voting_phase(21));
}

#[test]
fn voting_window_not_elapsed_early() {
    let mut game = Game::new();
    game.start_voting_phase(100);
    assert!(!game.check_voting_phase(119));
    assert!(game.check_voting_phase(120));
    let fresh = Game::new();
    assert!(!fresh.check_voting_phase(1000));
}

#[test]
fn test_start_game_phase() {
    let mut game = Game::new();
    game.start_game_phase();
    assert_eq!(game.phase, GamePhase::Playing);
    assert!(game.start_time.is_none());
}

#[test]
fn test_end_game() {
    let mut game = Game::new();
    game.add_player("Player1".to_string());
    game.end_game();
    assert_eq!(game.players.len(), 0);
    assert_eq!(game.phase, GamePhase::Identification);
}

#[test]
fn test_test_add_player() {
    let mut game = Game::new();
    game.add_player("Player1".to_string());
    assert!(game.players.contains_key("Player1"));
}

#[test]
fn test_guess() {
    let mut game = Game::new();
    game.add_player("Player1".to_string());
    game.phase = GamePhase::Playing;
    let secret_number = game.secret_number;
    let result = game.guess("Player1", secret_number).unwrap();
    assert_eq!(result, "Vous avez gagné!");
}

#[test]
fn test_get_scores() {
    let mut game = Game::new();
    game.add_player("Player1".to_string());
    game.players.insert("Player1".to_string(), 5);
    let scores = game.get_scores();
    assert!(scores.contains("Player1: 5"));
}

#[test]
fn test_difficulty_easy() {
    let mut game = Game::new();
    let mut rng = GameRng::from_seed(1);
    game.set_difficulty(Difficulty::Easy, &mut rng);
    assert!(game.secret_number <= 100);
    assert!(game.secret_number >= 1);
}

#[test]
fn test_difficulty_medium() {
    let mut game = Game::new();
    let mut rng = GameRng::from_seed(1);
    game.set_difficulty(Difficulty::Medium, &mut rng);
    assert!(game.secret_number <= 500);
    assert!(game.secret_number >= 1);
}

#[test]
fn test_difficulty_hard() {
    let mut game = Game::new();
    let mut rng = GameRng::from_seed(1);
    game.set_difficulty(Difficulty::Hard, &mut rng);
    assert!(game.secret_number <= 1000);
    assert!(game.secret_number >= 1);
}

#[test]
fn test_high_scores() {
    let mut game = Game::new();
    game.add_player("Player1".to_string());
    game.add_player("Player2".to_string());
    game.phase = GamePhase::Playing;
    let secret = game.secret_number;
    game.guess("Player1", secret).unwrap();
    game.guess("Player2", secret).unwrap();
    let high_scores = game.get_high_scores();
    assert!(high_scores.contains("Player1:"));
    assert!(high_scores.contains("Player2:"));
}

#[test]
fn evaluate_guess_outside_playing_fails_without_change() {
    let mut game = Game::new();
    game.add_player("Zoe".to_string());
    let before_len = game.players.len();
    let before_secret = game.secret_number;
    let before_phase = game.phase;
    let r = game.guess("Zoe", 3);
    assert!(r.is_err());
    assert_eq!(game.players.len(), before_len);
    assert_eq!(game.players.get("Zoe"), Some(0));
    assert_eq!(game.secret_number, before_secret);
    assert_eq!(game.phase, before_phase);
    assert!(game.get_high_scores().is_empty());
}

#[test]
fn vote_outside_voting_fails_without_change() {
    let mut game = Game::new();
    let r = game.vote_difficulty(Difficulty::Hard);
    assert!(r.is_err());
    assert_eq!(game.difficulty_votes.count(Difficulty::Hard), 0);
    game.start_game_phase();
    let r2 = game.vote_difficulty(Difficulty::Easy);
    assert!(r2.is_err());
    assert_eq!(game.difficulty_votes.count(Difficulty::Easy), 0);
}

#[test]
fn correct_guess_updates_score_and_round_resets() {
    let mut game = Game::new();
    game.add_player("Ann".to_string());
    game.phase = GamePhase::Playing;
    game.secret_number = 77;
    let r = game.guess("Ann", 77).unwrap();
    assert_eq!(r, "Vous avez gagné!");
    assert_eq!(game.players.get("Ann"), Some(77));
    assert!(game.get_high_scores().contains("Ann: 77"));
    game.end_game();
    assert_eq!(game.phase, GamePhase::Identification);
    assert_eq!(game.players.len(), 0);
}

#[test]
fn determine_difficulty_tie_never_picks_lowest() {
    for seed in 0..20u64 {
        let mut game = Game::new();
        game.start_voting_phase(0);
        game.vote_difficulty(Difficulty::Easy).unwrap();
        game.vote_difficulty(Difficulty::Easy).unwrap();
        game.vote_difficulty(Difficulty::Medium).unwrap();
        game.vote_difficulty(Difficulty::Medium).unwrap();
        game.vote_difficulty(Difficulty::Hard).unwrap();
        let mut rng = GameRng::from_seed(seed);
        game.determine_difficulty(&mut rng);
        assert!(game.difficulty == Difficulty::Easy || game.difficulty == Difficulty::Medium);
    }
}

#[test]
fn determine_difficulty_unique_max_deterministic() {
    for seed in 0..20u64 {
        let mut game = Game::new();
        game.start_voting_phase(0);
        game.vote_difficulty(Difficulty::Hard).unwrap();
        game.vote_difficulty(Difficulty::Hard).unwrap();
        game.vote_difficulty(Difficulty::Hard).unwrap();
        let mut rng = GameRng::from_seed(seed);
        game.determine_difficulty(&mut rng);
        assert_eq!(game.difficulty, Difficulty::Hard);
    }
}

#[test]
fn add_player_overwrites_duplicate() {
    let mut game = Game::new();
    game.add_player("Sam".to_string());
    game.players.insert("Sam".to_string(), 9);
    assert_eq!(game.players.len(), 1);
    assert_eq!(game.players.get("Sam"), Some(9));
    game.remove_player("Sam");
    assert!(!game.players.contains_key("Sam"));
    game.remove_player("Sam");
    assert_eq!(game.players.len(), 0);
}

#[test]
fn scores_text_exact() {
    let mut game = Game::new();
    game.players.insert("A".to_string(), 0);
    game.players.insert("B".to_string(), 12345);
    assert_eq!(game.get_scores(), "A: 0\nB: 12345\n");
}
