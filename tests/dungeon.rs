use roguelike::constants::{MAP_HEIGHT, MAP_WIDTH, MAX_ROOMS, ROOM_MAX_SIZE, ROOM_MIN_SIZE};
use roguelike::dungeon::{build_layout, create_h_tunnel, create_room, create_v_tunnel, generate_layout, solid_map};
use roguelike::enemy::Ai;
use roguelike::game::{new_game, next_level, place_drawn, place_objects};
use roguelike::object::Object;
use roguelike::rect::Rect;
use roguelike::tile::Tile;

fn interior(r: &Rect, x: i32, y: i32) -> bool {
    r.x1 < x && x < r.x2 && r.y1 < y && y < r.y2
}

fn on_tunnels(rooms: &[Rect], bends: &[bool], x: i32, y: i32) -> bool {
    for i in 1..rooms.len() {
        let (px, py) = rooms[i - 1].center();
        let (nx, ny) = rooms[i].center();
        let h = |x1: i32, x2: i32, yy: i32| y == yy && x >= x1.min(x2) && x <= x1.max(x2);
        let v = |y1: i32, y2: i32, xx: i32| x == xx && y >= y1.min(y2) && y <= y1.max(y2);
        let hit = if bends[i] { h(px, nx, py) || v(py, ny, nx) } else { v(py, ny, px) || h(px, nx, ny) };
        if hit {
            return true;
        }
    }
    false
}

#[test]
fn generated_rooms_are_apart_and_walled_in() {
    for _ in 0..20 {
        let layout = generate_layout(MAP_WIDTH, MAP_HEIGHT, MAX_ROOMS, ROOM_MIN_SIZE, ROOM_MAX_SIZE);
        let rooms = &layout.rooms;
        assert!(!rooms.is_empty());
        assert!(rooms.len() <= MAX_ROOMS as usize);
        assert_eq!(layout.map.len(), MAP_WIDTH as usize);
        for i in 0..rooms.len() {
            for j in 0..rooms.len() {
                if i != j {
                    assert!(!rooms[i].intersects_with(&rooms[j]));
                }
            }
            let r = rooms[i];
            assert!(r.x1 >= 0 && r.x2 < MAP_WIDTH && r.y1 >= 0 && r.y2 < MAP_HEIGHT);
            assert!(r.x2 - r.x1 >= ROOM_MIN_SIZE && r.x2 - r.x1 <= ROOM_MAX_SIZE);
            for x in r.x1..=r.x2 {
                for y in r.y1..=r.y2 {
                    let tile = layout.map[x as usize][y as usize];
                    if interior(&r, x, y) {
                        assert!(!tile.is_blocked());
                    } else {
                        assert!(tile.is_blocked() || on_tunnels(rooms, &layout.bends, x, y));
                    }
                }
            }
        }
        for x in 0..MAP_WIDTH {
            for y in 0..MAP_HEIGHT {
                let carved = rooms.iter().any(|r| interior(r, x, y)) || on_tunnels(rooms, &layout.bends, x, y);
                assert_eq!(!layout.map[x as usize][y as usize].is_blocked(), carved);
            }
        }
    }
}

#[test]
fn no_rooms_when_none_are_asked_for() {
    let layout = generate_layout(20, 20, 0, 3, 5);
    assert!(layout.rooms.is_empty());
    assert!(layout.map.iter().all(|col| col.iter().all(|t| t.is_blocked())));
}

#[test]
fn carving_rooms_and_tunnels() {
    let mut map = solid_map(10, 8);
    assert_eq!(map.len(), 10);
    assert_eq!(map[0].len(), 8);
    create_room(Rect::new(1, 1, 4, 3), &mut map);
    assert!(!map[2][2].is_blocked());
    assert!(!map[4][3].is_blocked());
    assert!(map[1][2].is_blocked());
    assert!(map[5][2].is_blocked());
    assert!(map[2][4].is_blocked());
    create_h_tunnel(8, 6, 6, &mut map);
    assert!(!map[6][6].is_blocked() && !map[7][6].is_blocked() && !map[8][6].is_blocked());
    assert!(map[5][6].is_blocked() && map[9][6].is_blocked());
    create_v_tunnel(1, 2, 9, &mut map);
    assert!(!map[9][1].is_blocked() && !map[9][2].is_blocked());
    assert!(map[9][3].is_blocked());
    assert_eq!(map[9][1], Tile::empty());
}

#[test]
fn populated_rooms_hold_orcs_trolls_and_consumables() {
    let map = vec![vec![Tile::empty(); 20]; 20];
    for _ in 0..30 {
        let mut enemies = vec![];
        let mut items: Vec<Object> = vec![];
        let room = Rect::new(2, 2, 6, 6);
        place_objects(room, &mut enemies, &mut items, &map);
        assert!(enemies.len() <= 3);
        assert!(items.len() <= 2);
        for (i, e) in enemies.iter().enumerate() {
            assert!(interior(&room, e.object.x, e.object.y));
            assert!(e.object.name == "orc" || e.object.name == "troll");
            assert_eq!(e.ai, Some(Ai::Basic));
            for f in enemies.iter().skip(i + 1) {
                assert_ne!(e.pos(), f.pos());
            }
        }
        for o in &items {
            assert!(interior(&room, o.x, o.y));
            assert!(o.item.is_some());
            assert!(!enemies.iter().any(|e| e.pos() == o.pos()));
        }
    }
}

#[test]
fn a_new_game_starts_on_floor_with_stairs() {
    let (game, player, enemies, items) = new_game();
    assert_eq!(game.dungeon_level, 1);
    assert!(game.inventory.is_empty());
    assert_eq!(game.messages.len(), 1);
    assert_eq!(
        game.messages.iter()[0].0,
        "Welcome stranger! Prepare to perish in the Tombs of the Ancient Kings."
    );
    assert_eq!(player.get_level(), 1);
    assert!(!game.map[player.get_x() as usize][player.get_y() as usize].is_blocked());
    let stairs = items.last().unwrap();
    assert_eq!(stairs.name, "stairs");
    assert!(!game.map[stairs.x as usize][stairs.y as usize].is_blocked());
    for e in &enemies {
        assert!(!game.map[e.object.x as usize][e.object.y as usize].is_blocked());
    }
}

#[test]
fn descending_heals_and_deepens() {
    let (mut game, mut player, mut enemies, mut items) = new_game();
    player.take_damage(60, &mut game);
    let log_len = game.messages.len();
    next_level(&mut game, &mut player, &mut enemies, &mut items);
    assert_eq!(game.dungeon_level, 2);
    // 40 hit points left, plus half of 100
    assert_eq!(player.get_fighter().unwrap().hp, 90);
    assert_eq!(game.messages.len(), log_len + 2);
    assert_eq!(items.last().unwrap().name, "stairs");
    assert!(!game.map[player.get_x() as usize][player.get_y() as usize].is_blocked());
}

#[test]
fn candidates_are_kept_greedily() {
    let candidates = [
        Rect::new(1, 1, 6, 6),
        Rect::new(5, 5, 6, 6),
        Rect::new(10, 1, 6, 6),
        Rect::new(1, 10, 6, 6),
    ];
    let flips = [true, true, false, true];
    let layout = build_layout(30, 30, 6, 6, &candidates, &flips);
    // the second intersects the first and is dropped
    assert_eq!(layout.rooms, vec![candidates[0], candidates[2], candidates[3]]);
    assert_eq!(layout.bends, vec![false, false, true]);
    // tunnel into the second kept room bends vertically first, from (4, 4) to (13, 4)
    assert!(!layout.map[13][4].is_blocked());
    assert!(!layout.map[8][4].is_blocked());
    // tunnel into the third goes horizontally first, from (13, 4) to (4, 13)
    assert!(!layout.map[4][13].is_blocked());
    assert!(!layout.map[4][9].is_blocked());
    assert!(layout.map[0][0].is_blocked());
}

#[test]
fn drawn_monsters_and_items_are_placed_exactly() {
    let mut map = vec![vec![Tile::empty(); 10]; 10];
    map[5][5] = Tile::wall();
    let mut enemies = vec![roguelike::enemy::Enemy::create_orc(1, 1)];
    let mut items: Vec<Object> = vec![Object::create_sword(9, 9)];
    let monster_draws = [(2, 2, 0usize), (2, 2, 1), (5, 5, 0), (1, 1, 1), (3, 3, 1)];
    let item_draws = [(2, 2, 0usize), (4, 4, 1), (4, 4, 2), (6, 6, 3), (5, 5, 0)];
    place_drawn(&monster_draws, &item_draws, &mut enemies, &mut items, &map);
    let names: Vec<&str> = enemies.iter().map(|e| e.object.name.as_str()).collect();
    assert_eq!(names, vec!["orc", "orc", "troll"]);
    assert_eq!(enemies[1].pos(), (2, 2));
    assert_eq!(enemies[2].pos(), (3, 3));
    let names: Vec<&str> = items.iter().map(|o| o.name.as_str()).collect();
    assert_eq!(
        names,
        vec!["sword", "scroll of lightning bolt", "scroll of fireball", "scroll of confusion"]
    );
    assert_eq!(items[1].pos(), (4, 4));
    assert_eq!(items[3].pos(), (6, 6));
}
