use roguelike::color::Color;
use roguelike::death_callback::DeathCallback;
use roguelike::enemy::{Ai, Enemy};
use roguelike::fighter::Fighter;
use roguelike::game::Game;
use roguelike::messages::Messages;
use roguelike::object::Object;
use roguelike::player::Player;
use roguelike::tile::Tile;

fn open_game(w: usize, h: usize) -> Game {
    Game { map: vec![vec![Tile::empty(); h]; w], messages: Messages::new(), inventory: vec![], dungeon_level: 1 }
}

fn player_with(power: i32, hp: i32) -> Player {
    let mut p = Player::new(5, 5);
    p.object.fighter = Some(Fighter { max_hp: hp, hp, defense: 1, power, xp: 0 });
    p
}

fn texts(game: &Game) -> Vec<String> {
    game.messages.iter().iter().map(|(t, _)| t.clone()).collect()
}

#[test]
fn one_hit_takes_five_hit_points_off_an_orc() {
    let mut game = open_game(10, 10);
    let mut player = player_with(5, 30);
    let mut orc = Enemy::create_orc(6, 5);
    player.attack(&mut orc, &mut game);
    assert_eq!(orc.object.fighter.unwrap().hp, 5);
    assert!(orc.object.alive);
    assert_eq!(texts(&game), vec!["player attacks orc for 5 hit points.".to_string()]);
    assert_eq!(game.messages.iter()[0].1, Color::White);
}

#[test]
fn orc_dies_on_the_second_of_three_hits() {
    let mut game = open_game(10, 10);
    let mut player = player_with(5, 30);
    let mut orc = Enemy::create_orc(6, 5);
    player.attack(&mut orc, &mut game);
    assert!(orc.object.alive);
    player.attack(&mut orc, &mut game);
    assert!(!orc.object.alive);
    assert_eq!(orc.object.name, "remains of orc");
    assert_eq!(orc.object.char, '%');
    assert!(!orc.object.blocks);
    assert!(orc.object.fighter.is_none());
    assert!(orc.ai.is_none());
    assert_eq!(player.object.fighter.unwrap().xp, 35);
    player.attack(&mut orc, &mut game);
    assert_eq!(player.object.fighter.unwrap().xp, 35);
    assert_eq!(orc.object.name, "remains of orc");
    let log = texts(&game);
    assert_eq!(log.iter().filter(|t| t.as_str() == "orc is dead!").count(), 1);
    assert_eq!(log[2], "orc is dead!");
}

#[test]
fn attack_without_enough_power_has_no_effect() {
    let mut game = open_game(10, 10);
    let mut player = player_with(1, 30);
    let mut troll = Enemy::create_troll(6, 5);
    player.attack(&mut troll, &mut game);
    assert_eq!(troll.object.fighter.unwrap().hp, 16);
    assert_eq!(texts(&game), vec!["player attacks troll but it has no effect!".to_string()]);
}

#[test]
fn damage_is_power_minus_defense() {
    let mut game = open_game(10, 10);
    let mut player = player_with(30, 30);
    let mut troll = Enemy::create_troll(6, 5);
    player.attack(&mut troll, &mut game);
    // 30 - 1 = 29 damage kills the troll with its 16 hit points
    assert!(!troll.object.alive);
    assert_eq!(texts(&game)[0], "player attacks troll for 29 hit points.");
    assert_eq!(player.object.fighter.unwrap().xp, 100);
}

#[test]
fn monster_attack_hurts_player() {
    let mut game = open_game(10, 10);
    let mut player = player_with(5, 30);
    let mut troll = Enemy::create_troll(6, 5);
    troll.attack(&mut player, &mut game);
    // troll power 4 against defense 1
    assert_eq!(player.object.fighter.unwrap().hp, 27);
    assert_eq!(texts(&game), vec!["troll attacks player for 3 hit points.".to_string()]);
}

#[test]
fn player_dies_only_once() {
    let mut game = open_game(10, 10);
    let mut player = player_with(5, 3);
    player.take_damage(5, &mut game);
    assert!(!player.is_alive());
    assert_eq!(player.object.fighter.unwrap().hp, -2);
    assert_eq!(player.object.color, Color::DarkRed);
    player.take_damage(5, &mut game);
    assert_eq!(player.object.fighter.unwrap().hp, -7);
    let log = texts(&game);
    assert_eq!(log, vec!["You died!".to_string()]);
}

#[test]
fn zero_damage_changes_nothing() {
    let mut game = open_game(10, 10);
    let mut orc = Enemy::create_orc(1, 1);
    assert_eq!(orc.take_damage(0, &mut game), None);
    assert_eq!(orc.object.fighter.unwrap().hp, 10);
    assert_eq!(orc.take_damage(-3, &mut game), None);
    assert_eq!(orc.object.fighter.unwrap().hp, 10);
    assert_eq!(game.messages.len(), 0);
}

#[test]
fn killing_blow_returns_experience_once() {
    let mut game = open_game(10, 10);
    let mut troll = Enemy::create_troll(1, 1);
    assert_eq!(troll.take_damage(16, &mut game), Some(100));
    assert_eq!(troll.take_damage(16, &mut game), None);
    assert_eq!(texts(&game), vec!["troll is dead!".to_string()]);
    assert_eq!(troll.get_ai(), None);
}

#[test]
fn death_callbacks() {
    let mut game = open_game(10, 10);
    let mut body = Object::new(1, 2, 'o', Color::Green, "goblin", true);
    body.fighter = Some(Fighter { max_hp: 5, hp: 0, defense: 0, power: 1, xp: 3 });
    DeathCallback::Monster.callback(&mut body, &mut game);
    assert_eq!(body.name, "remains of goblin");
    assert!(!body.blocks);
    assert!(body.fighter.is_none());
    assert_eq!(body.char, '%');
    let mut hero = Player::new(0, 0).object;
    DeathCallback::Player.callback(&mut hero, &mut game);
    assert!(!hero.alive);
    assert!(hero.fighter.is_some());
    assert_eq!(texts(&game), vec!["goblin is dead!".to_string(), "You died!".to_string()]);
}

#[test]
fn new_monsters_start_basic() {
    let orc = Enemy::create_orc(3, 4);
    assert_eq!(orc.get_ai(), Some(&Ai::Basic));
    assert_eq!(orc.pos(), (3, 4));
    assert_eq!(orc.get_name(), "orc");
    assert_eq!(orc.get_fighter(), Some(&Fighter { max_hp: 10, hp: 10, defense: 0, power: 3, xp: 35 }));
    let troll = Enemy::create_troll(0, 0);
    assert_eq!(troll.get_fighter().unwrap().max_hp, 16);
    assert_eq!(troll.object.char, 'T');
}

#[test]
fn zero_damage_never_kills() {
    let mut game = open_game(10, 10);
    let mut ghost = Enemy::new(1, 1, 'g', Color::White, "ghost", 5, 0, 0, 1, 9);
    assert_eq!(ghost.take_damage(0, &mut game), None);
    assert!(ghost.object.alive);
    assert_eq!(ghost.object.name, "ghost");
    assert_eq!(ghost.take_damage(1, &mut game), Some(9));
    assert!(!ghost.object.alive);
    let mut player = player_with(5, 0);
    player.take_damage(0, &mut game);
    assert!(player.is_alive());
    assert_eq!(texts(&game), vec!["ghost is dead!".to_string()]);
}
