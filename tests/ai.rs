use roguelike::constants::CONFUSE_NUM_TURNS;
use roguelike::enemy::{Ai, Enemy};
use roguelike::game::Game;
use roguelike::messages::Messages;
use roguelike::object::Object;
use roguelike::player::Player;
use roguelike::tile::Tile;
use roguelike::visibility::Visibility;

fn open_game(w: usize, h: usize) -> Game {
    Game { map: vec![vec![Tile::empty(); h]; w], messages: Messages::new(), inventory: vec![], dungeon_level: 1 }
}

fn all_visible(w: usize, h: usize) -> Visibility {
    Visibility::new(vec![vec![true; h]; w])
}

fn texts(game: &Game) -> Vec<String> {
    game.messages.iter().iter().map(|(t, _)| t.clone()).collect()
}

#[test]
fn confusion_lasts_n_plus_one_turns_then_restores() {
    let mut game = open_game(20, 20);
    let visible = all_visible(20, 20);
    let mut player = Player::new(10, 10);
    let mut enemies = vec![Enemy::create_orc(12, 10)];
    game.inventory.push(Object::create_confuse_potion(0, 0));
    player.use_item(&mut game, &visible, 0, Some((12, 10)), &mut enemies);
    assert!(game.inventory.is_empty());
    let n = CONFUSE_NUM_TURNS;
    assert_eq!(
        enemies[0].ai,
        Some(Ai::Confused { previous_ai: Box::new(Ai::Basic), num_turns: n })
    );
    let others: Vec<Enemy> = vec![];
    for turn in 0..(n + 1) {
        assert_eq!(
            enemies[0].ai,
            Some(Ai::Confused { previous_ai: Box::new(Ai::Basic), num_turns: n - turn })
        );
        let (x0, y0) = enemies[0].pos();
        let log_len = game.messages.len();
        enemies[0].ai_take_turn(&visible, &mut game, &others, &mut player);
        let (x1, y1) = enemies[0].pos();
        assert!((x1 - x0).abs() <= 1 && (y1 - y0).abs() <= 1);
        assert_eq!(game.messages.len(), log_len);
    }
    assert_eq!(
        enemies[0].ai,
        Some(Ai::Confused { previous_ai: Box::new(Ai::Basic), num_turns: -1 })
    );
    let before = enemies[0].pos();
    enemies[0].ai_take_turn(&visible, &mut game, &others, &mut player);
    assert_eq!(enemies[0].ai, Some(Ai::Basic));
    assert_eq!(enemies[0].pos(), before);
    assert_eq!(texts(&game).last().unwrap(), "The orc is no longer confused!");
    assert_eq!(player.object.fighter.unwrap().hp, 100);
}

#[test]
fn basic_monster_closes_in() {
    let mut game = open_game(20, 20);
    let visible = all_visible(20, 20);
    let mut player = Player::new(10, 10);
    let mut orc = Enemy::create_orc(5, 10);
    orc.ai_take_turn(&visible, &mut game, &[], &mut player);
    assert_eq!(orc.pos(), (6, 10));
    let mut diag = Enemy::create_orc(5, 5);
    diag.ai_take_turn(&visible, &mut game, &[], &mut player);
    assert_eq!(diag.pos(), (6, 6));
    // a shallow slope rounds to a straight step
    let mut shallow = Enemy::create_orc(4, 8);
    shallow.ai_take_turn(&visible, &mut game, &[], &mut player);
    assert_eq!(shallow.pos(), (5, 8));
    assert_eq!(game.messages.len(), 0);
}

#[test]
fn basic_monster_is_stopped_by_walls_and_monsters() {
    let mut game = open_game(20, 20);
    game.map[6][10] = Tile::wall();
    let visible = all_visible(20, 20);
    let mut player = Player::new(10, 10);
    let mut orc = Enemy::create_orc(5, 10);
    orc.ai_take_turn(&visible, &mut game, &[], &mut player);
    assert_eq!(orc.pos(), (5, 10));
    let blocker = vec![Enemy::create_troll(6, 6)];
    let mut other = Enemy::create_orc(5, 5);
    other.ai_take_turn(&visible, &mut game, &blocker, &mut player);
    assert_eq!(other.pos(), (5, 5));
}

#[test]
fn adjacent_basic_monster_attacks() {
    let mut game = open_game(20, 20);
    let visible = all_visible(20, 20);
    let mut player = Player::new(10, 10);
    let mut orc = Enemy::create_orc(11, 11);
    orc.ai_take_turn(&visible, &mut game, &[], &mut player);
    assert_eq!(orc.pos(), (11, 11));
    // orc power 3 against player defense 1
    assert_eq!(player.object.fighter.unwrap().hp, 98);
    assert_eq!(texts(&game), vec!["orc attacks player for 2 hit points.".to_string()]);
    assert_eq!(orc.ai, Some(Ai::Basic));
}

#[test]
fn unseen_monster_does_nothing() {
    let mut game = open_game(20, 20);
    let visible = Visibility::new(vec![vec![false; 20]; 20]);
    let mut player = Player::new(10, 10);
    let mut orc = Enemy::create_orc(11, 10);
    orc.ai_take_turn(&visible, &mut game, &[], &mut player);
    assert_eq!(orc.pos(), (11, 10));
    assert_eq!(player.object.fighter.unwrap().hp, 100);
    assert_eq!(game.messages.len(), 0);
}

#[test]
fn monster_does_not_attack_dead_player() {
    let mut game = open_game(20, 20);
    let visible = all_visible(20, 20);
    let mut player = Player::new(10, 10);
    player.take_damage(200, &mut game);
    let log_len = game.messages.len();
    let mut orc = Enemy::create_orc(11, 10);
    orc.ai_take_turn(&visible, &mut game, &[], &mut player);
    assert_eq!(game.messages.len(), log_len);
    assert_eq!(player.object.fighter.unwrap().hp, -100);
}

#[test]
fn move_towards_steps_one_cell() {
    let game = open_game(20, 20);
    let mut orc = Enemy::create_orc(2, 2);
    orc.move_towards(2, 9, &game, &[]);
    assert_eq!(orc.pos(), (2, 3));
    orc.move_towards(2, 3, &game, &[]);
    assert_eq!(orc.pos(), (2, 3));
}
