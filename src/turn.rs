use crate::color::Color;
use crate::constants::MAX_INVENTORY;
use crate::enemy::{Ai, Enemy, next_ai};
use crate::fighter::Fighter;
use crate::tile::Tile;
use crate::game::{Game, descend_outcome, next_level, step_result};
use crate::inventory::{drop_outcome, pick_outcome, use_outcome};
use crate::object::Object;
use crate::player::Player;
use crate::visibility::Visibility;
use vstd::prelude::*;

verus! {

/// Whether the player's action used up the turn.
#[derive(Clone, Copy, Debug, PartialEq, Eq, Structural)]
pub enum PlayerAction {
    TookTurn,
    DidntTakeTurn,
    Exit,
}

/// One decoded player command.
#[derive(Clone, Copy, Debug, PartialEq, Eq)]
pub enum Command {
    /// Step by `(dx, dy)`, attacking a monster that stands there.
    Move { dx: i32, dy: i32 },
    /// Let the turn pass.
    Wait,
    /// Pick up the item the player stands on.
    PickUp,
    /// Use an inventory item, on the chosen tile if it needs one.
    UseItem { index: usize, target: Option<(i32, i32)> },
    /// Drop an inventory item.
    DropItem { index: usize },
    /// Go down the stairs the player stands on.
    Descend,
    /// Leave the game.
    Exit,
    /// A key that does nothing.
    Nothing,
}

/// The index of the first ground item on the cell `(x, y)`.
pub open spec fn is_item_at(collectibles: Seq<Object>, x: int, y: int, r: Option<usize>) -> bool {
    match r {
        None => forall|i: int|
            0 <= i < collectibles.len() ==> !((#[trigger] collectibles[i]).x == x && collectibles[i].y == y
                && collectibles[i].item is Some),
        Some(k) => {
            &&& k < collectibles.len()
            &&& collectibles[k as int].x == x
            &&& collectibles[k as int].y == y
            &&& collectibles[k as int].item is Some
            &&& forall|i: int|
                0 <= i < k ==> !((#[trigger] collectibles[i]).x == x && collectibles[i].y == y
                    && collectibles[i].item is Some)
        },
    }
}

/// Some stairs stand on the cell `(x, y)`.
pub open spec fn stairs_at(collectibles: Seq<Object>, x: int, y: int) -> bool {
    exists|i: int|
        0 <= i < collectibles.len() && (#[trigger] collectibles[i]).x == x && collectibles[i].y == y
            && collectibles[i].name@ == "stairs"@
}

/// Finds the first item lying on the cell `(x, y)`.
pub fn item_here(collectibles: &Vec<Object>, x: i32, y: i32) -> (r: Option<usize>)
    ensures
        is_item_at(collectibles@, x as int, y as int, r),
{
    let mut i: usize = 0;
    while i < collectibles.len()
        invariant
            0 <= i <= collectibles@.len(),
            forall|j: int|
                0 <= j < i ==> !((#[trigger] collectibles@[j]).x == x && collectibles@[j].y == y
                    && collectibles@[j].item is Some),
        decreases collectibles@.len() - i,
    {
        if collectibles[i].x == x && collectibles[i].y == y && collectibles[i].item.is_some() {
            return Some(i);
        }
        i += 1;
    }
    None
}

/// Whether stairs stand on the cell `(x, y)`.
pub fn on_stairs(collectibles: &Vec<Object>, x: i32, y: i32) -> (b: bool)
    ensures
        b == stairs_at(collectibles@, x as int, y as int),
{
    let stairs = String::from_str("stairs");
    let mut i: usize = 0;
    while i < collectibles.len()
        invariant
            0 <= i <= collectibles@.len(),
            stairs@ == "stairs"@,
            forall|j: int|
                0 <= j < i ==> !((#[trigger] collectibles@[j]).x == x && collectibles@[j].y == y
                    && collectibles@[j].name@ == "stairs"@),
        decreases collectibles@.len() - i,
    {
        if collectibles[i].x == x && collectibles[i].y == y && collectibles[i].name == stairs {
            return true;
        }
        i += 1;
    }
    false
}

/// The turn result of a command: only moving (or attacking) and waiting take a
/// turn, a dead player can only leave, and everything else takes no time.
pub open spec fn action_of(command: Command, alive: bool) -> PlayerAction {
    match command {
        Command::Exit => PlayerAction::Exit,
        Command::Move { .. } => if alive {
            PlayerAction::TookTurn
        } else {
            PlayerAction::DidntTakeTurn
        },
        Command::Wait => if alive {
            PlayerAction::TookTurn
        } else {
            PlayerAction::DidntTakeTurn
        },
        _ => PlayerAction::DidntTakeTurn,
    }
}

/// Carries out one player command. Commands that do not apply (a dead player,
/// no item here, an index off the inventory, no stairs here) change nothing.
pub fn take_action(
    command: Command,
    game: &mut Game,
    player: &mut Player,
    enemies: &mut Vec<Enemy>,
    collectibles: &mut Vec<Object>,
    visible: &Visibility,
) -> (action: PlayerAction)
    ensures
        action == action_of(command, old(player).object.alive),
        old(game).inventory@.len() <= MAX_INVENTORY ==> final(game).inventory@.len() <= MAX_INVENTORY,
        final(game).dungeon_level >= old(game).dungeon_level,
        (command is Exit || command is Wait || command is Nothing || !old(player).object.alive) ==> {
            &&& *final(game) == *old(game)
            &&& *final(player) == *old(player)
            &&& final(enemies)@ == old(enemies)@
            &&& final(collectibles)@ == old(collectibles)@
        },
        old(player).object.alive ==> (command matches Command::Move { dx, dy } ==> {
            &&& final(game).same_but_log(old(game))
            &&& final(collectibles)@ == old(collectibles)@
            &&& exists|t: Option<usize>|
                #[trigger] crate::inventory::is_first_at(
                    old(enemies)@,
                    old(player).object.x + dx,
                    old(player).object.y + dy,
                    t,
                ) && Player::move_outcome(
                    *old(player),
                    *final(player),
                    old(enemies)@,
                    final(enemies)@,
                    old(game).messages@,
                    final(game).messages@,
                    old(game).map@,
                    dx as int,
                    dy as int,
                    t,
                )
        }),
        old(player).object.alive && command is PickUp ==> exists|r: Option<usize>|
            #[trigger] is_item_at(old(collectibles)@, old(player).object.x as int, old(player).object.y as int, r)
                && match r {
                None => *final(game) == *old(game) && final(collectibles)@ == old(collectibles)@,
                Some(k) => {
                    &&& final(game).map == old(game).map
                    &&& final(game).dungeon_level == old(game).dungeon_level
                    &&& pick_outcome(
                        old(game).inventory@,
                        final(game).inventory@,
                        old(collectibles)@,
                        final(collectibles)@,
                        old(game).messages@,
                        final(game).messages@,
                        k as int,
                    )
                },
            } && *final(player) == *old(player) && final(enemies)@ == old(enemies)@,
        old(player).object.alive ==> (command matches Command::DropItem { index } ==> {
            &&& *final(player) == *old(player)
            &&& final(enemies)@ == old(enemies)@
            &&& if index < old(game).inventory@.len() {
                &&& final(game).map == old(game).map
                &&& final(game).dungeon_level == old(game).dungeon_level
                &&& drop_outcome(
                    *old(player),
                    old(game).inventory@,
                    final(game).inventory@,
                    old(collectibles)@,
                    final(collectibles)@,
                    old(game).messages@,
                    final(game).messages@,
                    index as int,
                )
            } else {
                *final(game) == *old(game) && final(collectibles)@ == old(collectibles)@
            }
        }),
        old(player).object.alive ==> (command matches Command::UseItem { index, target } ==> {
            &&& final(collectibles)@ == old(collectibles)@
            &&& if index < old(game).inventory@.len() {
                &&& final(game).map == old(game).map
                &&& final(game).dungeon_level == old(game).dungeon_level
                &&& use_outcome(
                    *old(player),
                    *final(player),
                    old(enemies)@,
                    final(enemies)@,
                    old(game).inventory@,
                    final(game).inventory@,
                    *visible,
                    index as int,
                    target,
                    old(game).messages@,
                    final(game).messages@,
                )
            } else {
                *final(game) == *old(game) && *final(player) == *old(player) && final(enemies)@ == old(enemies)@
            }
        }),
        old(player).object.alive && command is Descend ==> if stairs_at(
            old(collectibles)@,
            old(player).object.x as int,
            old(player).object.y as int,
        ) {
            descend_outcome(*old(game), *final(game), *old(player), *final(player), final(enemies)@, final(collectibles)@)
        } else {
            &&& *final(game) == *old(game)
            &&& *final(player) == *old(player)
            &&& final(enemies)@ == old(enemies)@
            &&& final(collectibles)@ == old(collectibles)@
        },
{
    match command {
        Command::Exit => {
            return PlayerAction::Exit;
        },
        _ => {},
    }
    if !player.object.alive {
        return PlayerAction::DidntTakeTurn;
    }
    match command {
        Command::Move { dx, dy } => {
            player.move_or_attack(dx, dy, game, enemies.as_mut_slice());
            PlayerAction::TookTurn
        },
        Command::Wait => PlayerAction::TookTurn,
        Command::PickUp => {
            // pick up an item
            let item_id = item_here(collectibles, player.object.x, player.object.y);
            assert(is_item_at(old(collectibles)@, old(player).object.x as int, old(player).object.y as int, item_id));
            if let Some(item_id) = item_id {
                player.pick_item_up(item_id, game, collectibles);
            }
            PlayerAction::DidntTakeTurn
        },
        Command::UseItem { index, target } => {
            if index < game.inventory.len() {
                player.use_item(game, visible, index, target, enemies.as_mut_slice());
            }
            PlayerAction::DidntTakeTurn
        },
        Command::DropItem { index } => {
            if index < game.inventory.len() {
                player.drop_item(index, game, collectibles);
            }
            PlayerAction::DidntTakeTurn
        },
        Command::Descend => {
            // go down stairs, if the player is on them
            if on_stairs(collectibles, player.object.x, player.object.y) {
                next_level(game, player, enemies, collectibles);
            }
            PlayerAction::DidntTakeTurn
        },
        _ => PlayerAction::DidntTakeTurn,
    }
}

/// How a monster's turn leaves it: its AI moved on to the next state and its
/// body at most changed cell. A monster without AI does not act at all.
pub open spec fn acted(old: Enemy, new: Enemy) -> bool {
    match old.ai {
        None => new == old,
        Some(a) => {
            &&& new.ai == Some(next_ai(a))
            &&& new.object == (Object { x: new.object.x, y: new.object.y, ..old.object })
        },
    }
}

/// How the monsters' turns leave the player: same place, name and level, and
/// the same stats but for hit points, which can only have gone down.
pub open spec fn worn(old: Player, new: Player) -> bool {
    &&& new.level == old.level
    &&& new.object.x == old.object.x
    &&& new.object.y == old.object.y
    &&& new.object.name == old.object.name
    &&& new.object.item == old.object.item
    &&& new.object.equipment == old.object.equipment
    &&& match old.object.fighter {
        None => new.object.fighter is None,
        Some(f) => new.object.fighter matches Some(g) && g == (Fighter { hp: g.hp, ..f }) && g.hp <= f.hp,
    }
}

proof fn lemma_step_keeps_body(o: Object, n: Object, dx: int, dy: int, map: Seq<Vec<Tile>>, es: Seq<Enemy>)
    requires
        step_result(o, n, dx, dy, map, es),
    ensures
        n == (Object { x: n.x, y: n.y, ..o }),
{
}

proof fn lemma_hit_wears(first: Player, second: Player, damage: int)
    requires
        Player::hit_result(first, second, damage),
        damage > 0,
    ensures
        worn(first, second),
{
}

proof fn lemma_worn_trans(first: Player, second: Player, third: Player)
    requires
        worn(first, second),
        worn(second, third),
    ensures
        worn(first, third),
{
}

/// Whether the monsters act after the player's action (and the level-up check
/// follows): only when the action took a turn and the player is still alive.
pub fn monsters_act(action: PlayerAction, player: &Player) -> (b: bool)
    ensures
        b == (action == PlayerAction::TookTurn && player.object.alive),
{
    action == PlayerAction::TookTurn && player.object.alive
}

/// `a` is a copy of `b`: same body, field by field, and same AI.
pub open spec fn copy_of(a: Enemy, b: Enemy) -> bool {
    a.object.same_as(&b.object) && a.ai == b.ai
}

/// `rest` holds copies of the monsters of `all` but the one at `skip`, in order.
pub open spec fn is_without(all: Seq<Enemy>, skip: int, rest: Seq<Enemy>) -> bool {
    &&& rest.len() + 1 == all.len()
    &&& forall|j: int| 0 <= j < skip ==> copy_of(#[trigger] rest[j], all[j])
    &&& forall|j: int| skip <= j < rest.len() ==> copy_of(#[trigger] rest[j], all[j + 1])
}

/// The monsters' phase, monster by monster: `players[i]` and `logs[i]` are the
/// player and the log before monster `i` acts, `others[i]` the other monsters as
/// they stood when the phase began, and monster `i` took exactly its turn.
pub open spec fn phase_result(
    old_es: Seq<Enemy>,
    new_es: Seq<Enemy>,
    visible: Visibility,
    map: Seq<Vec<Tile>>,
    players: Seq<Player>,
    logs: Seq<Seq<(Seq<char>, Color)>>,
    others: Seq<Seq<Enemy>>,
) -> bool {
    &&& new_es.len() == old_es.len()
    &&& players.len() == old_es.len() + 1
    &&& logs.len() == old_es.len() + 1
    &&& others.len() == old_es.len()
    &&& forall|i: int|
        0 <= i < old_es.len() ==> is_without(old_es, i, #[trigger] others[i]) && Enemy::turn_result(
            old_es[i],
            new_es[i],
            visible,
            map,
            others[i],
            players[i],
            players[i + 1],
            logs[i],
            logs[i + 1],
        )
}

/// Copies of all the monsters.
fn snapshot(enemies: &Vec<Enemy>) -> (s: Vec<Enemy>)
    ensures
        s@.len() == enemies@.len(),
        forall|i: int| 0 <= i < s@.len() ==> copy_of(#[trigger] s@[i], enemies@[i]),
{
    let mut s: Vec<Enemy> = Vec::new();
    let mut i: usize = 0;
    while i < enemies.len()
        invariant
            0 <= i <= enemies@.len(),
            s@.len() == i,
            forall|j: int| 0 <= j < s@.len() ==> copy_of(#[trigger] s@[j], enemies@[j]),
        decreases enemies@.len() - i,
    {
        s.push(enemies[i].duplicate());
        i += 1;
    }
    s
}

/// Copies of all the monsters but the one at `skip`.
fn all_but(enemies: &Vec<Enemy>, skip: usize) -> (s: Vec<Enemy>)
    requires
        skip < enemies@.len(),
    ensures
        is_without(enemies@, skip as int, s@),
{
    let mut s: Vec<Enemy> = Vec::new();
    let mut i: usize = 0;
    while i < enemies.len()
        invariant
            0 <= i <= enemies@.len(),
            skip < enemies@.len(),
            s@.len() == (if i <= skip { i as int } else { i - 1 }),
            forall|j: int| 0 <= j < s@.len() && j < skip ==> copy_of(#[trigger] s@[j], enemies@[j]),
            forall|j: int| skip <= j < s@.len() ==> copy_of(#[trigger] s@[j], enemies@[j + 1]),
        decreases enemies@.len() - i,
    {
        if i != skip {
            s.push(enemies[i].duplicate());
        }
        i += 1;
    }
    s
}

/// Copies of copies are copies.
proof fn lemma_without_copies(all: Seq<Enemy>, copies: Seq<Enemy>, skip: int, rest: Seq<Enemy>)
    requires
        copies.len() == all.len(),
        forall|i: int| 0 <= i < copies.len() ==> copy_of(#[trigger] copies[i], all[i]),
        0 <= skip < all.len(),
        is_without(copies, skip, rest),
    ensures
        is_without(all, skip, rest),
{
    assert forall|j: int| 0 <= j < skip implies copy_of(#[trigger] rest[j], all[j]) by {
        assert(copy_of(copies[j], all[j]));
    }
    assert forall|j: int| skip <= j < rest.len() implies copy_of(#[trigger] rest[j], all[j + 1]) by {
        assert(copy_of(copies[j + 1], all[j + 1]));
    }
}

/// The monsters' half of a turn: every monster that has an AI acts once, in list
/// order, the player and the log passing from one to the next. Each one decides
/// against the other monsters as they stood when the phase began, not as the
/// monsters before it in this phase left them.
pub fn monster_phase(game: &mut Game, player: &mut Player, enemies: &mut Vec<Enemy>, visible: &Visibility)
    ensures
        final(game).same_but_log(old(game)),
        final(enemies)@.len() == old(enemies)@.len(),
        exists|players: Seq<Player>, logs: Seq<Seq<(Seq<char>, Color)>>, others: Seq<Seq<Enemy>>|
            #[trigger] phase_result(old(enemies)@, final(enemies)@, *visible, old(game).map@, players, logs, others)
                && players[0] == *old(player) && players[old(enemies)@.len() as int] == *final(player)
                && logs[0] == old(game).messages@ && logs[old(enemies)@.len() as int] == final(game).messages@,
        forall|i: int| 0 <= i < old(enemies)@.len() ==> acted(#[trigger] old(enemies)@[i], final(enemies)@[i]),
        worn(*old(player), *final(player)),
{
    // the other monsters as they stand before anyone moves
    let before = snapshot(enemies);
    let ghost es0 = enemies@;
    let ghost game0 = *game;
    let ghost mut players: Seq<Player> = seq![*player];
    let ghost mut logs: Seq<Seq<(Seq<char>, Color)>> = seq![game.messages@];
    let ghost mut others_seen: Seq<Seq<Enemy>> = Seq::empty();
    let mut id: usize = 0;
    while id < enemies.len()
        invariant
            0 <= id <= enemies@.len(),
            enemies@.len() == es0.len(),
            before@.len() == es0.len(),
            forall|i: int| 0 <= i < before@.len() ==> copy_of(#[trigger] before@[i], es0[i]),
            players.len() == id + 1,
            logs.len() == id + 1,
            others_seen.len() == id,
            players[0] == *old(player),
            logs[0] == old(game).messages@,
            players[id as int] == *player,
            logs[id as int] == game.messages@,
            forall|i: int|
                0 <= i < id ==> is_without(es0, i, #[trigger] others_seen[i]) && Enemy::turn_result(
                    es0[i],
                    enemies@[i],
                    *visible,
                    game0.map@,
                    others_seen[i],
                    players[i],
                    players[i + 1],
                    logs[i],
                    logs[i + 1],
                ),
            forall|j: int| 0 <= j < id ==> acted(#[trigger] es0[j], enemies@[j]),
            forall|j: int| id <= j < es0.len() ==> #[trigger] enemies@[j] == es0[j],
            worn(*old(player), *player),
            game.same_but_log(&game0),
            game0 == *old(game),
        decreases enemies@.len() - id,
    {
        if enemies[id].ai.is_some() {
            let others = all_but(&before, id);
            let ghost first = *player;
            let ghost e0 = enemies@[id as int];
            let ghost map = game.map@;
            enemies[id].ai_take_turn(visible, game, others.as_slice(), player);
            let ghost e1 = enemies@[id as int];
            proof {
                match e0.ai {
                    Some(Ai::Basic) => {
                        let ne = Enemy { ai: e0.ai, ..e1 };
                        if !visible.visible_at(e0.object.x as int, e0.object.y as int) {
                        } else if crate::object::dist_sq(
                            e0.object.x as int,
                            e0.object.y as int,
                            first.object.x as int,
                            first.object.y as int,
                        ) >= 4 {
                            let (dx, dy) = (first.object.x - e0.object.x, first.object.y - e0.object.y);
                            lemma_step_keeps_body(
                                e0.object,
                                e1.object,
                                crate::enemy::step_toward(dx, dy),
                                crate::enemy::step_toward(dy, dx),
                                map,
                                others@,
                            );
                        } else if first.object.fighter matches Some(f) && f.hp > 0 {
                            let damage = crate::combat::blow(e0.object.fighter, first.object.fighter);
                            if damage > 0 {
                                lemma_hit_wears(first, *player, damage);
                                lemma_worn_trans(*old(player), first, *player);
                            }
                        }
                    },
                    Some(Ai::Confused { previous_ai, num_turns }) => {
                        if num_turns >= 0 {
                            let (dx, dy) = choose|dx: int, dy: int|
                                -1 <= dx <= 1 && -1 <= dy <= 1 && #[trigger] step_result(e0.object, e1.object, dx, dy, map, others@);
                            lemma_step_keeps_body(e0.object, e1.object, dx, dy, map, others@);
                        }
                    },
                    None => {},
                }
                lemma_without_copies(es0, before@, id as int, others@);
                others_seen = others_seen.push(others@);
                players = players.push(*player);
                logs = logs.push(game.messages@);
            }
        } else {
            proof {
                let rest = es0.remove(id as int);
                assert(is_without(es0, id as int, rest));
                others_seen = others_seen.push(rest);
                players = players.push(*player);
                logs = logs.push(game.messages@);
            }
        }
        id += 1;
    }
    assert(phase_result(es0, enemies@, *visible, game0.map@, players, logs, others_seen));
}

} // verus!
