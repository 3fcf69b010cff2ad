use roguelike::equipment::{Equipment, Slot};
use roguelike::fighter::Fighter;
use roguelike::messages::Messages;
use roguelike::color::Color;
use roguelike::rect::Rect;
use roguelike::text::int_text;
use roguelike::tile::Tile;
use roguelike::transition::{from_dungeon_level, Transition};
use roguelike::ui::{inventory_options, menu_choice, menu_letter, names_under_mouse};
use roguelike::visibility::Visibility;
use roguelike::enemy::{Ai, Enemy};
use roguelike::game::Game;
use roguelike::player::Player;
use roguelike::object::Object;

#[test]
fn tiles_are_floor_or_wall() {
    let floor = Tile::empty();
    let wall = Tile::wall();
    assert!(!floor.is_blocked());
    assert!(!floor.is_block_sight());
    assert!(wall.is_blocked());
    assert!(wall.is_block_sight());
}

#[test]
fn rect_corners_and_center() {
    let r = Rect::new(2, 3, 6, 8);
    assert_eq!((r.x1(), r.y1(), r.x2(), r.y2()), (2, 3, 8, 11));
    assert_eq!(r.center(), (5, 7));
    let odd = Rect::new(1, 1, 7, 9);
    assert_eq!(odd.center(), (4, 5));
}

#[test]
fn rect_center_rounds_toward_zero() {
    let r = Rect::new(-5, -3, 2, 0);
    assert_eq!(r.center(), (-4, -3));
}

#[test]
fn rects_touching_at_an_edge_intersect() {
    let a = Rect::new(0, 0, 5, 5);
    let touching = Rect::new(5, 0, 5, 5);
    let apart = Rect::new(6, 0, 5, 5);
    assert!(a.intersects_with(&touching));
    assert!(touching.intersects_with(&a));
    assert!(!a.intersects_with(&apart));
    assert!(!apart.intersects_with(&a));
}

#[test]
fn transition_table_is_a_step_function() {
    let table = [
        Transition { level: 1, value: 15 },
        Transition { level: 3, value: 25 },
        Transition { level: 5, value: 50 },
    ];
    assert_eq!(from_dungeon_level(&table, 0), 0);
    assert_eq!(from_dungeon_level(&table, 1), 15);
    assert_eq!(from_dungeon_level(&table, 2), 15);
    assert_eq!(from_dungeon_level(&table, 3), 25);
    assert_eq!(from_dungeon_level(&table, 4), 25);
    assert_eq!(from_dungeon_level(&table, 7), 50);
    assert_eq!(from_dungeon_level(&[], 7), 0);
}

#[test]
fn slot_and_equipment_text() {
    assert_eq!(Slot::LeftHand.to_string(), "Left hand");
    assert_eq!(Slot::RightHand.to_string(), "Right hand");
    assert_eq!(Slot::Head.to_string(), "Head");
    let e = Equipment { slot: Slot::RightHand, equipped: true };
    assert_eq!(e.to_string(), "(Right hand, true)");
    let e = Equipment { slot: Slot::Head, equipped: false };
    assert_eq!(e.to_string(), "(Head, false)");
}

#[test]
fn fighter_heal_clamps_to_max() {
    let mut f = Fighter { max_hp: 30, hp: 20, defense: 0, power: 1, xp: 0 };
    f.heal(4);
    assert_eq!(f.hp, 24);
    f.heal(40);
    assert_eq!(f.hp, 30);
}

#[test]
fn fighter_hit_saturates() {
    let mut f = Fighter { max_hp: 30, hp: i32::MIN + 3, defense: 0, power: 1, xp: 0 };
    f.take_hit(10);
    assert_eq!(f.hp, i32::MIN);
    let mut g = Fighter { max_hp: 30, hp: 20, defense: 0, power: 1, xp: 0 };
    g.take_hit(0);
    assert_eq!(g.hp, 20);
    g.take_hit(-5);
    assert_eq!(g.hp, 20);
}

#[test]
fn message_log_appends_in_order() {
    let mut m = Messages::new();
    assert_eq!(m.len(), 0);
    m.add("first", Color::Red);
    m.add("second", Color::White);
    let lines = m.iter();
    assert_eq!(lines.len(), 2);
    assert_eq!(lines[0].0, "first");
    assert_eq!(lines[0].1, Color::Red);
    assert_eq!(lines[1].0, "second");
}

#[test]
fn palette_colours() {
    assert_eq!(Color::Red.rgb(), (255, 0, 0));
    assert_eq!(Color::Sky.rgb(), (0, 191, 255));
    assert_eq!(Color::DesaturatedGreen.rgb(), (63, 127, 63));
}

#[test]
fn menu_keys_pick_options() {
    assert_eq!(menu_choice('a', 3), Some(0));
    assert_eq!(menu_choice('C', 3), Some(2));
    assert_eq!(menu_choice('d', 3), None);
    assert_eq!(menu_choice('1', 3), None);
    assert_eq!(menu_choice('z', 26), Some(25));
    assert_eq!(menu_letter(0), 'a');
    assert_eq!(menu_letter(25), 'z');
}

#[test]
fn inventory_menu_options() {
    let empty: Vec<Object> = vec![];
    assert_eq!(inventory_options(&empty), vec!["Inventory is empty.".to_string()]);
    let items = vec![Object::create_potion(0, 0), Object::create_sword(1, 1)];
    assert_eq!(inventory_options(&items), vec!["healing potion".to_string(), "sword".to_string()]);
}

#[test]
fn names_under_the_mouse() {
    let visible = Visibility::new(vec![vec![true; 10]; 10]);
    let enemies = vec![Enemy::create_orc(2, 2), Enemy::create_troll(3, 3), Enemy::create_troll(2, 2)];
    assert_eq!(names_under_mouse(&enemies, &visible, 2, 2), "orc, troll");
    assert_eq!(names_under_mouse(&enemies, &visible, 3, 3), "troll");
    assert_eq!(names_under_mouse(&enemies, &visible, 4, 4), "");
    let mut hidden = vec![vec![true; 10]; 10];
    hidden[2][2] = false;
    let hidden = Visibility::new(hidden);
    assert_eq!(names_under_mouse(&enemies, &hidden, 2, 2), "");
}

#[test]
fn visibility_off_grid_is_hidden() {
    let v = Visibility::new(vec![vec![true; 3]; 2]);
    assert!(v.is_visible(1, 2));
    assert!(!v.is_visible(2, 0));
    assert!(!v.is_visible(0, 3));
    assert!(!v.is_visible(-1, 0));
}

#[test]
fn objects_move_unless_blocked() {
    let mut map = vec![vec![Tile::empty(); 6]; 6];
    map[3][2] = Tile::wall();
    let game = Game { map, messages: Messages::new(), inventory: vec![], dungeon_level: 1 };
    let others = vec![Object::new(2, 3, 'o', Color::Green, "orc", true), Object::create_potion(1, 2)];
    let mut o = Object::new(2, 2, '@', Color::White, "hero", true);
    o.move_by(1, 0, &game, &others);
    assert_eq!(o.pos(), (2, 2));
    o.move_by(0, 1, &game, &others);
    assert_eq!(o.pos(), (2, 2));
    o.move_by(-1, 0, &game, &others);
    assert_eq!(o.pos(), (1, 2));
    o.move_by(-2, 0, &game, &others);
    assert_eq!(o.pos(), (1, 2));
    assert_eq!(o.distance_sq(4, 6), 9 + 16);
    assert_eq!(o.distance_sq_to(&others[0]), 1 + 1);
}

#[test]
fn copies_keep_every_field() {
    let mut orc = Enemy::create_orc(4, 5);
    orc.ai = Some(Ai::Confused { previous_ai: Box::new(Ai::Basic), num_turns: 3 });
    let copy = orc.duplicate();
    assert_eq!(copy.ai, orc.ai);
    assert_eq!(copy.object.name, "orc");
    assert_eq!(copy.pos(), (4, 5));
    assert_eq!(copy.object.fighter, orc.object.fighter);
    let sword = Object::create_sword(1, 2);
    let twin = sword.duplicate();
    assert_eq!(twin.equipment, sword.equipment);
    assert_eq!(twin.get_name(), "sword");
}

#[test]
fn player_getters_and_healing() {
    let mut p = Player::new(3, 4);
    assert_eq!(p.pos(), (3, 4));
    assert_eq!((p.get_x(), p.get_y()), (3, 4));
    assert_eq!(p.get_name(), "player");
    assert!(p.is_alive());
    assert_eq!(p.get_level(), 1);
    assert_eq!(p.get_fighter(), Some(&Fighter { max_hp: 100, hp: 100, defense: 1, power: 4, xp: 0 }));
    p.set_pos(7, 8);
    assert_eq!(p.get_object().pos(), (7, 8));
    p.object.fighter = Some(Fighter { max_hp: 100, hp: 10, defense: 1, power: 4, xp: 0 });
    p.heal(25);
    assert_eq!(p.get_fighter().unwrap().hp, 35);
    p.heal(1000);
    assert_eq!(p.get_fighter().unwrap().hp, 100);
    assert_eq!(p.distance_sq(10, 12), 9 + 16);
}

#[test]
fn numbers_in_decimal() {
    assert_eq!(int_text(0), "0");
    assert_eq!(int_text(7), "7");
    assert_eq!(int_text(305), "305");
    assert_eq!(int_text(-42), "-42");
    assert_eq!(int_text(i64::MIN), i64::MIN.to_string());
    assert_eq!(int_text(i64::MAX), i64::MAX.to_string());
}
