use guess_session::player::Player;
use guess_session::player::PlayerDirection;
use guess_session::player::PlayerMapData;

#[test]
fn test_player_creation() {
    let player = Player::new("TestPlayer".to_string());
    assert_eq!(player.name, "TestPlayer");
    assert_eq!(player.score, 0);
}

#[test]
fn test_increment_score() {
    let mut player = Player::new("TestPlayer".to_string());
    player.increment_score();
    assert_eq!(player.score, 1);
}

#[test]
fn direction_from_move_prefers_horizontal() {
    assert_eq!(PlayerDirection::from_move(1, 1), Some(PlayerDirection::Right));
    assert_eq!(PlayerDirection::from_move(-2, 1), Some(PlayerDirection::Left));
    assert_eq!(PlayerDirection::from_move(0, 3), Some(PlayerDirection::Down));
    assert_eq!(PlayerDirection::from_move(0, -3), Some(PlayerDirection::Up));
    assert_eq!(PlayerDirection::from_move(0, 0), None);
}

#[test]
fn player_map_data_replaces_tile_under() {
    let mut data = PlayerMapData::init('a', (2, 3));
    assert_eq!(data.coord, (2, 3));
    assert_eq!(data.direction, PlayerDirection::Down);
    let prev = data.replace_tile_under('b');
    assert_eq!(prev, 'a');
    assert_eq!(data.tile_under, 'b');
    assert_eq!(data.coord, (2, 3));
}
