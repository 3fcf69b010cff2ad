use roguelike::enemy::{Ai, Enemy};
use roguelike::game::Game;
use roguelike::messages::Messages;
use roguelike::object::{is_blocked, Object};
use roguelike::player::{Player, StatBoost};
use roguelike::tile::Tile;
use roguelike::turn::{item_here, monster_phase, monsters_act, on_stairs, take_action, Command, PlayerAction};
use roguelike::visibility::Visibility;

fn open_game(w: usize, h: usize) -> Game {
    Game { map: vec![vec![Tile::empty(); h]; w], messages: Messages::new(), inventory: vec![], dungeon_level: 1 }
}

fn all_visible(w: usize, h: usize) -> Visibility {
    Visibility::new(vec![vec![true; h]; w])
}

#[test]
fn moving_takes_a_turn_and_bumping_attacks() {
    let mut game = open_game(20, 20);
    let visible = all_visible(20, 20);
    let mut player = Player::new(5, 5);
    let mut enemies = vec![Enemy::create_orc(6, 5)];
    let mut items = vec![];
    let a = take_action(Command::Move { dx: 0, dy: 1 }, &mut game, &mut player, &mut enemies, &mut items, &visible);
    assert_eq!(a, PlayerAction::TookTurn);
    assert_eq!(player.pos(), (5, 6));
    let a = take_action(Command::Move { dx: 1, dy: -1 }, &mut game, &mut player, &mut enemies, &mut items, &visible);
    assert_eq!(a, PlayerAction::TookTurn);
    assert_eq!(player.pos(), (5, 6));
    // player power 4 against orc defense 0
    assert_eq!(enemies[0].object.fighter.unwrap().hp, 6);
}

#[test]
fn walls_block_the_player() {
    let mut game = open_game(20, 20);
    game.map[6][5] = Tile::wall();
    let mut player = Player::new(5, 5);
    let mut enemies: Vec<Enemy> = vec![];
    player.move_or_attack(1, 0, &mut game, &mut enemies);
    assert_eq!(player.pos(), (5, 5));
    player.move_or_attack(-6, 0, &mut game, &mut enemies);
    assert_eq!(player.pos(), (5, 5));
}

#[test]
fn other_commands_take_no_turn() {
    let mut game = open_game(20, 20);
    let visible = all_visible(20, 20);
    let mut player = Player::new(5, 5);
    let mut enemies: Vec<Enemy> = vec![];
    let mut items = vec![Object::create_potion(5, 5)];
    let a = take_action(Command::PickUp, &mut game, &mut player, &mut enemies, &mut items, &visible);
    assert_eq!(a, PlayerAction::DidntTakeTurn);
    assert_eq!(game.inventory.len(), 1);
    assert!(items.is_empty());
    let a = take_action(Command::DropItem { index: 0 }, &mut game, &mut player, &mut enemies, &mut items, &visible);
    assert_eq!(a, PlayerAction::DidntTakeTurn);
    assert_eq!(items.len(), 1);
    let a = take_action(Command::DropItem { index: 3 }, &mut game, &mut player, &mut enemies, &mut items, &visible);
    assert_eq!(a, PlayerAction::DidntTakeTurn);
    assert_eq!(take_action(Command::Nothing, &mut game, &mut player, &mut enemies, &mut items, &visible), PlayerAction::DidntTakeTurn);
    assert_eq!(take_action(Command::Wait, &mut game, &mut player, &mut enemies, &mut items, &visible), PlayerAction::TookTurn);
    assert_eq!(take_action(Command::Exit, &mut game, &mut player, &mut enemies, &mut items, &visible), PlayerAction::Exit);
}

#[test]
fn a_dead_player_can_only_leave() {
    let mut game = open_game(20, 20);
    let visible = all_visible(20, 20);
    let mut player = Player::new(5, 5);
    player.take_damage(500, &mut game);
    let mut enemies: Vec<Enemy> = vec![];
    let mut items = vec![];
    let a = take_action(Command::Move { dx: 1, dy: 0 }, &mut game, &mut player, &mut enemies, &mut items, &visible);
    assert_eq!(a, PlayerAction::DidntTakeTurn);
    assert_eq!(player.pos(), (5, 5));
    assert_eq!(take_action(Command::Exit, &mut game, &mut player, &mut enemies, &mut items, &visible), PlayerAction::Exit);
}

#[test]
fn descending_needs_stairs() {
    let mut game = open_game(20, 20);
    let visible = all_visible(20, 20);
    let mut player = Player::new(5, 5);
    let mut enemies: Vec<Enemy> = vec![];
    let mut items = vec![Object::create_stair(6, 6)];
    take_action(Command::Descend, &mut game, &mut player, &mut enemies, &mut items, &visible);
    assert_eq!(game.dungeon_level, 1);
    assert!(!on_stairs(&items, 5, 5));
    assert!(on_stairs(&items, 6, 6));
    player.set_pos(6, 6);
    take_action(Command::Descend, &mut game, &mut player, &mut enemies, &mut items, &visible);
    assert_eq!(game.dungeon_level, 2);
}

#[test]
fn finding_items_underfoot() {
    let items = vec![Object::create_stair(1, 1), Object::create_potion(1, 1), Object::create_sword(1, 1)];
    assert_eq!(item_here(&items, 1, 1), Some(1));
    assert_eq!(item_here(&items, 2, 1), None);
}

#[test]
fn monsters_act_once_each_against_the_snapshot() {
    let mut game = open_game(20, 20);
    let visible = all_visible(20, 20);
    let mut player = Player::new(10, 10);
    let mut enemies = vec![Enemy::create_orc(5, 10), Enemy::create_orc(6, 10), Enemy::create_troll(11, 10)];
    enemies[1].ai = None;
    monster_phase(&mut game, &mut player, &mut enemies, &visible);
    // the first orc is blocked by the second one, which has no AI and stays
    assert_eq!(enemies[0].pos(), (5, 10));
    assert_eq!(enemies[1].pos(), (6, 10));
    // the troll is adjacent and attacks: power 4 against defense 1
    assert_eq!(player.object.fighter.unwrap().hp, 97);
    assert_eq!(enemies[2].ai, Some(Ai::Basic));
}

#[test]
fn monsters_decide_on_positions_from_the_start_of_the_phase() {
    let mut game = open_game(20, 20);
    let visible = all_visible(20, 20);
    let mut player = Player::new(10, 10);
    // the first orc steps to (7, 10); the second orc, at (6, 10), still sees it at (5, 10)
    let mut enemies = vec![Enemy::create_orc(6, 10), Enemy::create_orc(5, 10)];
    monster_phase(&mut game, &mut player, &mut enemies, &visible);
    assert_eq!(enemies[0].pos(), (7, 10));
    // the second orc was blocked by the first orc's starting cell
    assert_eq!(enemies[1].pos(), (5, 10));
}

#[test]
fn level_up_carries_surplus_experience() {
    let mut game = open_game(10, 10);
    let mut player = Player::new(1, 1);
    assert_eq!(player.level_up_xp(), 350);
    assert!(!player.ready_to_level_up());
    player.level_up(&mut game, StatBoost::Strength);
    assert_eq!(player.get_level(), 1);
    assert_eq!(game.messages.len(), 0);
    let mut f = *player.get_fighter().unwrap();
    f.xp = 400;
    player.object.fighter = Some(f);
    assert!(player.ready_to_level_up());
    player.level_up(&mut game, StatBoost::Constitution);
    assert_eq!(player.get_level(), 2);
    let f = player.get_fighter().unwrap();
    assert_eq!(f.xp, 50);
    assert_eq!(f.max_hp, 120);
    assert_eq!(f.hp, 120);
    assert_eq!(game.messages.iter()[0].0, "Your battle skills grow stronger! You reached level 2!");
    assert_eq!(player.level_up_xp(), 500);
}

#[test]
fn level_up_boosts() {
    let mut game = open_game(10, 10);
    let mut strong = Player::new(1, 1);
    strong.object.fighter = Some(roguelike::fighter::Fighter { max_hp: 100, hp: 100, defense: 1, power: 4, xp: 350 });
    strong.level_up(&mut game, StatBoost::Strength);
    assert_eq!(strong.get_fighter().unwrap().power, 5);
    assert_eq!(strong.get_fighter().unwrap().xp, 0);
    let mut agile = Player::new(1, 1);
    agile.object.fighter = Some(roguelike::fighter::Fighter { max_hp: 100, hp: 100, defense: 1, power: 4, xp: 351 });
    agile.level_up(&mut game, StatBoost::Agility);
    assert_eq!(agile.get_fighter().unwrap().defense, 2);
    assert_eq!(agile.get_fighter().unwrap().xp, 1);
}

#[test]
fn blocking_checks_map_and_objects() {
    let mut map = vec![vec![Tile::empty(); 5]; 5];
    map[1][1] = Tile::wall();
    let objects = vec![Object::new(2, 2, 'o', roguelike::color::Color::Green, "orc", true), Object::create_potion(3, 3)];
    assert!(is_blocked(1, 1, &map, &objects));
    assert!(is_blocked(2, 2, &map, &objects));
    assert!(!is_blocked(3, 3, &map, &objects));
    assert!(is_blocked(5, 0, &map, &objects));
    assert!(is_blocked(-1, 0, &map, &objects));
}

#[test]
fn monsters_act_only_after_a_living_players_turn() {
    let mut game = open_game(5, 5);
    let mut player = Player::new(1, 1);
    assert!(monsters_act(PlayerAction::TookTurn, &player));
    assert!(!monsters_act(PlayerAction::DidntTakeTurn, &player));
    assert!(!monsters_act(PlayerAction::Exit, &player));
    player.take_damage(500, &mut game);
    assert!(!monsters_act(PlayerAction::TookTurn, &player));
}
