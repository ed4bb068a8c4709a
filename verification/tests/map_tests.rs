use guess_session::map::coord_move;
use guess_session::map::BasicTile;
use guess_session::map::TileMap;
use guess_session::player::PlayerDirection;

#[test]
fn test_coord_move() {
    assert_eq!(coord_move(0, -1, 0, 5), 0);
    assert_eq!(coord_move(1, -1, 0, 5), 0);
    assert_eq!(coord_move(3, -2, 0, 5), 1);
    assert_eq!(coord_move(4, 1, 0, 5), 5);
    assert_eq!(coord_move(4, 2, 0, 5), 5);
}

#[test]
fn coord_move_respects_lower_bound() {
    assert_eq!(coord_move(2, -5, 1, 9), 1);
    assert_eq!(coord_move(2, 3, 1, 9), 5);
    assert_eq!(coord_move(0, isize::MIN, 0, 9), 0);
}

#[test]
fn tile_map_init_and_render() {
    let m: TileMap<BasicTile> = TileMap::init(3, 2);
    assert_eq!(m.width, 3);
    assert_eq!(m.height, 2);
    assert_eq!(m.render_line(0), vec!['.', '.', '.']);
    assert_eq!(m.render_line(1), vec!['.', '.', '.']);
}

#[test]
fn tile_map_add_and_move_player() {
    let mut m: TileMap<BasicTile> = TileMap::init(3, 3);
    let id = m.add_player((1, 1));
    assert_eq!(id, 0);
    assert_eq!(*m.from_coord(1, 1), BasicTile::Occupied(PlayerDirection::Down));
    m.move_player(1, 0, id);
    assert_eq!(m.players[id].coord, (2, 1));
    assert_eq!(*m.from_coord(1, 1), BasicTile::Floor);
    assert_eq!(*m.from_coord(2, 1), BasicTile::Occupied(PlayerDirection::Right));
}

#[test]
fn tile_map_move_clamped_at_edge_only_turns() {
    let mut m: TileMap<BasicTile> = TileMap::init(3, 3);
    let id = m.add_player((2, 1));
    m.move_player(1, 0, id);
    assert_eq!(m.players[id].coord, (2, 1));
    assert_eq!(*m.from_coord(2, 1), BasicTile::Occupied(PlayerDirection::Right));
}

#[test]
fn tile_map_wall_blocks_movement() {
    let mut m: TileMap<BasicTile> = TileMap::init(3, 3);
    m.set_at(0, 1, BasicTile::Wall);
    let id = m.add_player((1, 1));
    m.move_player(-1, 0, id);
    assert_eq!(m.players[id].coord, (1, 1));
    assert_eq!(*m.from_coord(1, 1), BasicTile::Occupied(PlayerDirection::Left));
    assert_eq!(*m.from_coord(0, 1), BasicTile::Wall);
}

#[test]
fn tile_map_restores_tile_under_player() {
    let mut m: TileMap<BasicTile> = TileMap::init(2, 1);
    let id = m.add_player((0, 0));
    m.move_player(1, 0, id);
    m.move_player(-1, 0, id);
    assert_eq!(m.players[id].coord, (0, 0));
    assert_eq!(*m.from_coord(1, 0), BasicTile::Floor);
    assert_eq!(*m.from_coord(0, 0), BasicTile::Occupied(PlayerDirection::Left));
}
