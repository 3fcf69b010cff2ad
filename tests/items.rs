use roguelike::color::Color;
use roguelike::constants::{FIREBALL_DAMAGE, HEAL_AMOUNT, LIGHTNING_DAMAGE, MAX_INVENTORY};
use roguelike::enemy::{Ai, Enemy};
use roguelike::equipment::{Equipment, Slot};
use roguelike::fighter::Fighter;
use roguelike::game::Game;
use roguelike::messages::Messages;
use roguelike::object::{Item, Object};
use roguelike::player::Player;
use roguelike::tile::Tile;
use roguelike::visibility::Visibility;

fn open_game(w: usize, h: usize) -> Game {
    Game { map: vec![vec![Tile::empty(); h]; w], messages: Messages::new(), inventory: vec![], dungeon_level: 1 }
}

fn all_visible(w: usize, h: usize) -> Visibility {
    Visibility::new(vec![vec![true; h]; w])
}

fn texts(game: &Game) -> Vec<String> {
    game.messages.iter().iter().map(|(t, _)| t.clone()).collect()
}

#[test]
fn pickup_moves_item_into_inventory() {
    let mut game = open_game(10, 10);
    let mut player = Player::new(1, 1);
    let mut ground = vec![Object::create_potion(1, 1), Object::create_fireball(2, 2), Object::create_sword(3, 3)];
    player.pick_item_up(0, &mut game, &mut ground);
    assert_eq!(game.inventory.len(), 1);
    assert_eq!(game.inventory[0].name, "healing potion");
    // the last ground item takes the place of the one picked up
    assert_eq!(ground.len(), 2);
    assert_eq!(ground[0].name, "sword");
    assert_eq!(ground[1].name, "scroll of fireball");
    assert_eq!(texts(&game), vec!["You picked up a healing potion!".to_string()]);
}

#[test]
fn pickup_at_capacity_changes_only_the_log() {
    let mut game = open_game(10, 10);
    let mut player = Player::new(1, 1);
    for i in 0..MAX_INVENTORY {
        game.inventory.push(Object::create_potion(i as i32, 0));
    }
    let mut ground = vec![Object::create_sword(1, 1)];
    player.pick_item_up(0, &mut game, &mut ground);
    assert_eq!(game.inventory.len(), MAX_INVENTORY);
    assert_eq!(ground.len(), 1);
    assert_eq!(ground[0].name, "sword");
    assert_eq!(texts(&game), vec!["Your inventory is full, cannot pick up sword.".to_string()]);
    assert_eq!(game.messages.iter()[0].1, Color::Red);
}

#[test]
fn drop_puts_item_under_player() {
    let mut game = open_game(10, 10);
    let player = Player::new(4, 7);
    game.inventory.push(Object::create_potion(0, 0));
    game.inventory.push(Object::create_sword(0, 0));
    let mut ground = vec![];
    player.drop_item(0, &mut game, &mut ground);
    assert_eq!(game.inventory.len(), 1);
    assert_eq!(game.inventory[0].name, "sword");
    assert_eq!(ground.len(), 1);
    assert_eq!(ground[0].pos(), (4, 7));
    assert_eq!(texts(&game), vec!["You dropped a healing potion.".to_string()]);
}

#[test]
fn healing_potion_heals_and_is_used_up() {
    let mut game = open_game(10, 10);
    let visible = all_visible(10, 10);
    let mut player = Player::new(1, 1);
    player.object.fighter = Some(Fighter { max_hp: 100, hp: 50, defense: 1, power: 4, xp: 0 });
    game.inventory.push(Object::create_potion(0, 0));
    player.use_item(&mut game, &visible, 0, None, &mut []);
    assert_eq!(player.object.fighter.unwrap().hp, 50 + HEAL_AMOUNT);
    assert!(game.inventory.is_empty());
    assert_eq!(texts(&game), vec!["Your wounds start to feel better!".to_string()]);
}

#[test]
fn healing_at_full_health_is_cancelled() {
    let mut game = open_game(10, 10);
    let visible = all_visible(10, 10);
    let mut player = Player::new(1, 1);
    game.inventory.push(Object::create_potion(0, 0));
    player.use_item(&mut game, &visible, 0, None, &mut []);
    assert_eq!(player.object.fighter.unwrap().hp, 100);
    assert_eq!(game.inventory.len(), 1);
    assert_eq!(
        texts(&game),
        vec!["You are already at full health.".to_string(), "Cancelled".to_string()]
    );
}

#[test]
fn lightning_strikes_the_closest_visible_monster() {
    let mut game = open_game(20, 20);
    let visible = all_visible(20, 20);
    let mut player = Player::new(5, 5);
    let mut enemies = vec![
        Enemy::create_troll(8, 5),
        Enemy::create_troll(7, 5),
        Enemy::create_troll(5, 7),
    ];
    enemies[0].object.fighter = Some(Fighter { max_hp: 100, hp: 100, defense: 0, power: 1, xp: 5 });
    enemies[1].object.fighter = Some(Fighter { max_hp: 100, hp: 100, defense: 0, power: 1, xp: 5 });
    enemies[2].object.fighter = Some(Fighter { max_hp: 100, hp: 100, defense: 0, power: 1, xp: 5 });
    game.inventory.push(Object::create_lighting_bolt(0, 0));
    player.use_item(&mut game, &visible, 0, None, &mut enemies);
    // two trolls at distance 2: the first of them is struck
    assert_eq!(enemies[0].object.fighter.unwrap().hp, 100);
    assert_eq!(enemies[1].object.fighter.unwrap().hp, 100 - LIGHTNING_DAMAGE);
    assert_eq!(enemies[2].object.fighter.unwrap().hp, 100);
    assert!(game.inventory.is_empty());
    assert_eq!(
        texts(&game),
        vec!["A lightning bolt strikes the troll with a loud thunder! The damage is 40 hit points.".to_string()]
    );
}

#[test]
fn lightning_kill_credits_experience() {
    let mut game = open_game(20, 20);
    let visible = all_visible(20, 20);
    let mut player = Player::new(5, 5);
    let mut enemies = vec![Enemy::create_orc(6, 6)];
    game.inventory.push(Object::create_lighting_bolt(0, 0));
    player.use_item(&mut game, &visible, 0, None, &mut enemies);
    assert!(!enemies[0].object.alive);
    assert_eq!(player.object.fighter.unwrap().xp, 35);
    assert_eq!(texts(&game)[1], "orc is dead!");
}

#[test]
fn lightning_without_target_in_range_is_cancelled() {
    let mut game = open_game(20, 20);
    let visible = all_visible(20, 20);
    let mut player = Player::new(0, 0);
    // distance 6 is beyond the range of 5
    let mut enemies = vec![Enemy::create_orc(6, 0)];
    game.inventory.push(Object::create_lighting_bolt(0, 0));
    player.use_item(&mut game, &visible, 0, None, &mut enemies);
    assert_eq!(enemies[0].object.fighter.unwrap().hp, 10);
    assert_eq!(game.inventory.len(), 1);
    assert_eq!(
        texts(&game),
        vec!["No enemy is close enough to strike.".to_string(), "Cancelled".to_string()]
    );
}

#[test]
fn lightning_ignores_monsters_out_of_view() {
    let mut game = open_game(20, 20);
    let mut cells = vec![vec![true; 20]; 20];
    cells[6][5] = false;
    let visible = Visibility::new(cells);
    let mut player = Player::new(5, 5);
    let mut enemies = vec![Enemy::create_orc(6, 5), Enemy::create_orc(8, 5)];
    game.inventory.push(Object::create_lighting_bolt(0, 0));
    player.use_item(&mut game, &visible, 0, None, &mut enemies);
    assert_eq!(enemies[0].object.fighter.unwrap().hp, 10);
    assert!(!enemies[1].object.alive);
}

#[test]
fn confusion_on_an_empty_tile_is_cancelled() {
    let mut game = open_game(20, 20);
    let visible = all_visible(20, 20);
    let mut player = Player::new(5, 5);
    let mut enemies = vec![Enemy::create_orc(6, 6)];
    game.inventory.push(Object::create_confuse_potion(0, 0));
    player.use_item(&mut game, &visible, 0, Some((7, 7)), &mut enemies);
    assert_eq!(enemies[0].ai, Some(Ai::Basic));
    assert_eq!(game.inventory.len(), 1);
    assert_eq!(
        texts(&game),
        vec![
            "Left-click an enemy to confuse it, or right-click to cancel.".to_string(),
            "No enemy is close enough to strike.".to_string(),
            "Cancelled".to_string()
        ]
    );
}

#[test]
fn confusion_out_of_range_or_aborted_is_cancelled() {
    let mut game = open_game(30, 30);
    let visible = all_visible(30, 30);
    let mut player = Player::new(0, 0);
    let mut enemies = vec![Enemy::create_orc(9, 0)];
    game.inventory.push(Object::create_confuse_potion(0, 0));
    player.use_item(&mut game, &visible, 0, Some((9, 0)), &mut enemies);
    assert_eq!(enemies[0].ai, Some(Ai::Basic));
    player.use_item(&mut game, &visible, 0, None, &mut enemies);
    assert_eq!(enemies[0].ai, Some(Ai::Basic));
    assert_eq!(game.inventory.len(), 1);
    assert_eq!(texts(&game).iter().filter(|t| t.as_str() == "Cancelled").count(), 2);
}

#[test]
fn confusion_takes_hold() {
    let mut game = open_game(20, 20);
    let visible = all_visible(20, 20);
    let mut player = Player::new(5, 5);
    let mut enemies = vec![Enemy::create_orc(8, 5)];
    game.inventory.push(Object::create_confuse_potion(0, 0));
    player.use_item(&mut game, &visible, 0, Some((8, 5)), &mut enemies);
    assert!(matches!(enemies[0].ai, Some(Ai::Confused { num_turns: 10, .. })));
    assert_eq!(
        texts(&game)[1],
        "The eyes of orc look vacant, as he starts to stumble around!"
    );
}

#[test]
fn fireball_burns_only_monsters_within_its_radius() {
    let mut game = open_game(30, 30);
    let visible = all_visible(30, 30);
    let mut player = Player::new(2, 2);
    let tough = Fighter { max_hp: 50, hp: 50, defense: 0, power: 1, xp: 7 };
    let mut enemies = vec![Enemy::create_orc(10, 10), Enemy::create_orc(11, 12), Enemy::create_orc(15, 15)];
    enemies[0].object.fighter = Some(tough);
    enemies[1].object.fighter = Some(tough);
    enemies[2].object.fighter = Some(tough);
    game.inventory.push(Object::create_fireball(0, 0));
    player.use_item(&mut game, &visible, 0, Some((10, 10)), &mut enemies);
    assert_eq!(enemies[0].object.fighter.unwrap().hp, 50 - FIREBALL_DAMAGE);
    assert_eq!(enemies[1].object.fighter.unwrap().hp, 50 - FIREBALL_DAMAGE);
    assert_eq!(enemies[2].object.fighter.unwrap(), tough);
    assert_eq!(player.object.fighter.unwrap().hp, 100);
    assert!(game.inventory.is_empty());
    assert_eq!(
        texts(&game),
        vec![
            "Left-click a target tile for the fireball, or right-click to cancel.".to_string(),
            "The fireball explodes, burning everything within 3 tiles!".to_string(),
            "The orc gets burned for 12 hit points.".to_string(),
            "The orc gets burned for 12 hit points.".to_string(),
        ]
    );
}

#[test]
fn fireball_kills_credit_their_experience() {
    let mut game = open_game(30, 30);
    let visible = all_visible(30, 30);
    let mut player = Player::new(2, 2);
    let mut enemies = vec![Enemy::create_orc(10, 10), Enemy::create_orc(10, 12), Enemy::create_troll(20, 20)];
    game.inventory.push(Object::create_fireball(0, 0));
    player.use_item(&mut game, &visible, 0, Some((10, 11)), &mut enemies);
    assert!(!enemies[0].object.alive);
    assert!(!enemies[1].object.alive);
    assert!(enemies[2].object.alive);
    assert_eq!(player.object.fighter.unwrap().xp, 70);
}

#[test]
fn fireball_aborted_or_out_of_view_is_cancelled() {
    let mut game = open_game(30, 30);
    let mut cells = vec![vec![true; 30]; 30];
    cells[10][10] = false;
    let visible = Visibility::new(cells);
    let mut player = Player::new(2, 2);
    let mut enemies = vec![Enemy::create_orc(10, 10)];
    game.inventory.push(Object::create_fireball(0, 0));
    player.use_item(&mut game, &visible, 0, None, &mut enemies);
    player.use_item(&mut game, &visible, 0, Some((10, 10)), &mut enemies);
    assert_eq!(enemies[0].object.fighter.unwrap().hp, 10);
    assert_eq!(game.inventory.len(), 1);
    assert_eq!(texts(&game).iter().filter(|t| t.as_str() == "Cancelled").count(), 2);
}

#[test]
fn equipment_toggles_and_stays() {
    let mut game = open_game(10, 10);
    let visible = all_visible(10, 10);
    let mut player = Player::new(1, 1);
    game.inventory.push(Object::create_sword(0, 0));
    player.use_item(&mut game, &visible, 0, None, &mut []);
    assert_eq!(game.inventory.len(), 1);
    assert_eq!(game.inventory[0].equipment, Some(Equipment { slot: Slot::RightHand, equipped: true }));
    assert_eq!(Object::get_equipped_in_slot(Slot::RightHand, &game.inventory), Some(0));
    assert_eq!(Object::get_equipped_in_slot(Slot::Head, &game.inventory), None);
    player.use_item(&mut game, &visible, 0, None, &mut []);
    assert_eq!(game.inventory[0].equipment, Some(Equipment { slot: Slot::RightHand, equipped: false }));
    assert_eq!(Object::get_equipped_in_slot(Slot::RightHand, &game.inventory), None);
    assert_eq!(
        texts(&game),
        vec!["Equipped by you on Right hand.".to_string(), "Dequipped by you from Right hand.".to_string()]
    );
}

#[test]
fn equip_refusals() {
    let mut messages = Messages::new();
    let mut stairs = Object::create_stair(0, 0);
    stairs.equip(&mut messages);
    let mut potion = Object::create_potion(0, 0);
    potion.dequip(&mut messages);
    let lines: Vec<String> = messages.iter().iter().map(|(t, _)| t.clone()).collect();
    assert_eq!(
        lines,
        vec![
            "Can't equip stairs because it's not an Item.".to_string(),
            "Can't dequip healing potion because it's not an Equipment.".to_string()
        ]
    );
}

#[test]
fn item_without_use_cannot_be_used() {
    let mut game = open_game(10, 10);
    let visible = all_visible(10, 10);
    let mut player = Player::new(1, 1);
    game.inventory.push(Object::create_stair(0, 0));
    player.use_item(&mut game, &visible, 0, None, &mut []);
    assert_eq!(game.inventory.len(), 1);
    assert_eq!(texts(&game), vec!["The stairs cannot be used.".to_string()]);
}

#[test]
fn item_kinds_of_the_constructors() {
    assert_eq!(Object::create_potion(0, 0).item, Some(Item::Heal));
    assert_eq!(Object::create_lighting_bolt(0, 0).item, Some(Item::Lightning));
    assert_eq!(Object::create_confuse_potion(0, 0).item, Some(Item::Confuse));
    assert_eq!(Object::create_fireball(0, 0).item, Some(Item::Fireball));
    assert_eq!(Object::create_sword(0, 0).item, Some(Item::Equipment));
    assert_eq!(Object::create_stair(0, 0).item, None);
    assert!(Object::create_stair(0, 0).always_visible());
}

#[test]
fn closest_monster_respects_range() {
    let visible = all_visible(20, 20);
    let player = Player::new(0, 0);
    let enemies = vec![Enemy::create_orc(5, 0), Enemy::create_orc(3, 4), Enemy::create_orc(6, 0)];
    // (5, 0) and (3, 4) are both at distance 5: the first wins
    assert_eq!(player.closest_monster(&visible, &enemies, 5), Some(0));
    assert_eq!(player.closest_monster(&visible, &enemies, 4), None);
    assert_eq!(player.closest_monster(&visible, &[], 5), None);
    // squared distance 26 lies beyond a range of 5
    let beyond = vec![Enemy::create_orc(5, 1)];
    assert_eq!(player.closest_monster(&visible, &beyond, 5), None);
    assert_eq!(player.closest_monster(&visible, &beyond, 6), Some(0));
}

#[test]
fn targets_must_be_in_view_and_range() {
    let mut cells = vec![vec![true; 20]; 20];
    cells[3][3] = false;
    let visible = Visibility::new(cells);
    let player = Player::new(0, 0);
    assert!(player.valid_target(&visible, 8, 0, Some(8)));
    assert!(!player.valid_target(&visible, 9, 0, Some(8)));
    assert!(!player.valid_target(&visible, 3, 3, None));
    assert!(player.valid_target(&visible, 19, 19, None));
    let enemies = vec![Enemy::create_orc(2, 2), Enemy::create_troll(2, 2)];
    assert_eq!(Player::target_monster(&enemies, 2, 2), Some(0));
    assert_eq!(Player::target_monster(&enemies, 1, 2), None);
}

#[test]
fn equipping_takes_off_what_the_slot_held() {
    let mut game = open_game(10, 10);
    let visible = all_visible(10, 10);
    let mut player = Player::new(1, 1);
    game.inventory.push(Object::create_sword(0, 0));
    game.inventory.push(Object::create_sword(0, 0));
    player.use_item(&mut game, &visible, 0, None, &mut []);
    player.use_item(&mut game, &visible, 1, None, &mut []);
    assert_eq!(game.inventory[0].equipment, Some(Equipment { slot: Slot::RightHand, equipped: false }));
    assert_eq!(game.inventory[1].equipment, Some(Equipment { slot: Slot::RightHand, equipped: true }));
    assert_eq!(Object::get_equipped_in_slot(Slot::RightHand, &game.inventory), Some(1));
    assert_eq!(
        texts(&game),
        vec![
            "Equipped by you on Right hand.".to_string(),
            "Dequipped by you from Right hand.".to_string(),
            "Equipped by you on Right hand.".to_string()
        ]
    );
}
