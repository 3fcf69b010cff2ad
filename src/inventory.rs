use crate::color::Color;
use crate::constants::{
    CONFUSE_NUM_TURNS, CONFUSE_RANGE, FIREBALL_DAMAGE, FIREBALL_RADIUS, HEAL_AMOUNT, LIGHTNING_DAMAGE,
    LIGHTNING_RANGE, MAX_INVENTORY,
};
use crate::enemy::{Ai, Enemy, death_text};
use crate::fighter::clamp_i32;
use crate::game::Game;
use crate::equipment::{Equipment, Slot};
use crate::object::{Item, Object, dist_sq, distance_sq_between, equipped_in};
use crate::player::Player;
use crate::text::{decimal, int_text};
use crate::visibility::Visibility;
use vstd::prelude::*;

verus! {

/// What using an item came to.
#[derive(Clone, Copy, Debug, PartialEq, Eq, Structural)]
pub enum UseResult {
    /// The item worked and is gone.
    UsedUp,
    /// The item worked and stays in the inventory.
    UsedAndKept,
    /// Nothing happened; the item stays.
    Cancelled,
}

pub type Log = Seq<(Seq<char>, Color)>;

pub open spec fn full_text(name: Seq<char>) -> Seq<char> {
    "Your inventory is full, cannot pick up "@ + name + "."@
}

pub open spec fn picked_text(name: Seq<char>) -> Seq<char> {
    "You picked up a "@ + name + "!"@
}

pub open spec fn dropped_text(name: Seq<char>) -> Seq<char> {
    "You dropped a "@ + name + "."@
}

pub open spec fn unusable_text(name: Seq<char>) -> Seq<char> {
    "The "@ + name + " cannot be used."@
}

pub open spec fn lightning_text(name: Seq<char>) -> Seq<char> {
    "A lightning bolt strikes the "@ + name + " with a loud thunder! The damage is "@ + decimal(
        LIGHTNING_DAMAGE as int,
    ) + " hit points."@
}

pub open spec fn vacant_text(name: Seq<char>) -> Seq<char> {
    "The eyes of "@ + name + " look vacant, as he starts to stumble around!"@
}

pub open spec fn explosion_text() -> Seq<char> {
    "The fireball explodes, burning everything within "@ + decimal(FIREBALL_RADIUS as int) + " tiles!"@
}

pub open spec fn burn_text(name: Seq<char>) -> Seq<char> {
    "The "@ + name + " gets burned for "@ + decimal(FIREBALL_DAMAGE as int) + " hit points."@
}

pub open spec fn confuse_prompt() -> Seq<char> {
    "Left-click an enemy to confuse it, or right-click to cancel."@
}

pub open spec fn fireball_prompt() -> Seq<char> {
    "Left-click a target tile for the fireball, or right-click to cancel."@
}

pub open spec fn no_target_text() -> Seq<char> {
    "No enemy is close enough to strike."@
}

/// A squared distance lies within a range (no range: anywhere).
pub open spec fn in_range(d2: int, range: Option<i32>) -> bool {
    match range {
        None => true,
        Some(r) => r >= 0 && d2 <= r * r,
    }
}

/// The monster can be struck by lightning from `p`: it fights, has an AI, is in
/// view and lies within `range`.
pub open spec fn strikable(p: Player, e: Enemy, visible: Visibility, range: int) -> bool {
    &&& e.object.fighter is Some
    &&& e.ai is Some
    &&& visible.visible_at(e.object.x as int, e.object.y as int)
    &&& range >= 0
    &&& dist_sq(p.object.x as int, p.object.y as int, e.object.x as int, e.object.y as int) <= range * range
}

pub open spec fn dist_to(p: Player, e: Enemy) -> int {
    dist_sq(p.object.x as int, p.object.y as int, e.object.x as int, e.object.y as int)
}

/// `r` is the first of the nearest strikable monsters, or none when there is none.
pub open spec fn is_closest(p: Player, enemies: Seq<Enemy>, visible: Visibility, range: int, r: Option<usize>) -> bool {
    match r {
        None => forall|i: int| 0 <= i < enemies.len() ==> !strikable(p, #[trigger] enemies[i], visible, range),
        Some(k) => {
            &&& k < enemies.len()
            &&& strikable(p, enemies[k as int], visible, range)
            &&& forall|i: int|
                0 <= i < enemies.len() && strikable(p, #[trigger] enemies[i], visible, range) ==> dist_to(
                    p,
                    enemies[k as int],
                ) <= dist_to(p, enemies[i])
            &&& forall|i: int|
                0 <= i < k && strikable(p, #[trigger] enemies[i], visible, range) ==> dist_to(p, enemies[k as int])
                    < dist_to(p, enemies[i])
        },
    }
}

/// `r` is the first monster with a fighter standing on `(x, y)`.
pub open spec fn is_first_at(enemies: Seq<Enemy>, x: int, y: int, r: Option<usize>) -> bool {
    match r {
        None => forall|i: int|
            0 <= i < enemies.len() ==> !((#[trigger] enemies[i]).object.fighter is Some && enemies[i].object.x == x
                && enemies[i].object.y == y),
        Some(k) => {
            &&& k < enemies.len()
            &&& enemies[k as int].object.fighter is Some
            &&& enemies[k as int].object.x == x
            &&& enemies[k as int].object.y == y
            &&& forall|i: int|
                0 <= i < k ==> !((#[trigger] enemies[i]).object.fighter is Some && enemies[i].object.x == x
                    && enemies[i].object.y == y)
        },
    }
}

/// The monster is caught in a fireball that explodes on `(x, y)`.
pub open spec fn in_blast(e: Enemy, x: int, y: int) -> bool {
    dist_sq(e.object.x as int, e.object.y as int, x, y) <= FIREBALL_RADIUS * FIREBALL_RADIUS
        && e.object.fighter is Some
}

/// The log lines a fireball on `(x, y)` adds for the monsters, in order.
pub open spec fn burn_log(es: Seq<Enemy>, x: int, y: int) -> Log
    decreases es.len(),
{
    if es.len() == 0 {
        Seq::empty()
    } else {
        let e = es.last();
        let rest = burn_log(es.drop_last(), x, y);
        if in_blast(e, x, y) {
            if Enemy::dies_of(e, FIREBALL_DAMAGE as int) {
                rest.push((burn_text(e.object.name@), Color::Orange)).push((death_text(e.object.name@), Color::Orange))
            } else {
                rest.push((burn_text(e.object.name@), Color::Orange))
            }
        } else {
            rest
        }
    }
}

/// The experience the player gets from the monsters a fireball on `(x, y)` kills.
pub open spec fn burn_xp(es: Seq<Enemy>, x: int, y: int) -> int
    decreases es.len(),
{
    if es.len() == 0 {
        0
    } else {
        let e = es.last();
        burn_xp(es.drop_last(), x, y) + if in_blast(e, x, y) && Enemy::dies_of(e, FIREBALL_DAMAGE as int) {
            e.object.fighter->Some_0.xp as int
        } else {
            0
        }
    }
}

/// Each monster in the blast took the fireball's damage; the others are as they were.
pub open spec fn burned(old: Seq<Enemy>, new: Seq<Enemy>, x: int, y: int) -> bool {
    &&& new.len() == old.len()
    &&& forall|i: int|
        0 <= i < old.len() ==> if in_blast(#[trigger] old[i], x, y) {
            Enemy::hit_result(old[i], new[i], FIREBALL_DAMAGE as int)
        } else {
            new[i] == old[i]
        }
}

/// What using a healing potion does.
pub open spec fn heal_outcome(old: Player, new: Player, old_log: Log, new_log: Log, r: UseResult) -> bool {
    match old.object.fighter {
        None => new == old && new_log == old_log && r == UseResult::Cancelled,
        Some(f) => if f.hp == f.max_hp {
            &&& new == old
            &&& new_log == old_log.push(("You are already at full health."@, Color::Red))
            &&& r == UseResult::Cancelled
        } else {
            &&& new == Player {
                object: Object { fighter: Some(f.spec_after_heal(HEAL_AMOUNT as int)), ..old.object },
                ..old
            }
            &&& new_log == old_log.push(("Your wounds start to feel better!"@, Color::LightViolet))
            &&& r == UseResult::UsedUp
        },
    }
}

/// What reading a lightning scroll does: the nearest strikable monster within
/// `LIGHTNING_RANGE` takes `LIGHTNING_DAMAGE`; without one it is cancelled.
pub open spec fn lightning_outcome(
    old_p: Player,
    new_p: Player,
    old_es: Seq<Enemy>,
    new_es: Seq<Enemy>,
    visible: Visibility,
    old_log: Log,
    new_log: Log,
    r: UseResult,
) -> bool {
    exists|target: Option<usize>|
        #[trigger] is_closest(old_p, old_es, visible, LIGHTNING_RANGE as int, target) && match target {
            None => {
                &&& new_p == old_p
                &&& new_es == old_es
                &&& new_log == old_log.push((no_target_text(), Color::Red))
                &&& r == UseResult::Cancelled
            },
            Some(k) => {
                let e = old_es[k as int];
                let log1 = old_log.push((lightning_text(e.object.name@), Color::LightBlue));
                &&& Enemy::hit_result(e, new_es[k as int], LIGHTNING_DAMAGE as int)
                &&& new_es == old_es.update(k as int, new_es[k as int])
                &&& if Enemy::dies_of(e, LIGHTNING_DAMAGE as int) {
                    &&& new_p == Player::with_xp(old_p, e.object.fighter->Some_0.xp as int)
                    &&& new_log == log1.push((death_text(e.object.name@), Color::Orange))
                } else {
                    new_p == old_p && new_log == log1
                }
                &&& r == UseResult::UsedUp
            },
        }
}

/// What reading a confusion scroll at `target` does: the first monster on a
/// target tile that is in view and within `CONFUSE_RANGE` becomes confused for
/// `CONFUSE_NUM_TURNS` turns, remembering the AI it had (basic if none).
pub open spec fn confuse_outcome(
    p: Player,
    old_es: Seq<Enemy>,
    new_es: Seq<Enemy>,
    visible: Visibility,
    target: Option<(i32, i32)>,
    old_log: Log,
    new_log: Log,
    r: UseResult,
) -> bool {
    let log0 = old_log.push((confuse_prompt(), Color::LightCyan));
    let cancelled = new_es == old_es && new_log == log0.push((no_target_text(), Color::Red)) && r
        == UseResult::Cancelled;
    match target {
        None => cancelled,
        Some((x, y)) => if !p.valid_target_spec(visible, x as int, y as int, Some(CONFUSE_RANGE)) {
            cancelled
        } else {
            exists|m: Option<usize>|
                #[trigger] is_first_at(old_es, x as int, y as int, m) && match m {
                    None => cancelled,
                    Some(k) => {
                        let e = old_es[k as int];
                        let previous = match e.ai {
                            Some(a) => a,
                            None => Ai::Basic,
                        };
                        &&& new_es == old_es.update(
                            k as int,
                            Enemy {
                                ai: Some(Ai::Confused { previous_ai: Box::new(previous), num_turns: CONFUSE_NUM_TURNS }),
                                ..e
                            },
                        )
                        &&& new_log == log0.push((vacant_text(e.object.name@), Color::LightGreen))
                        &&& r == UseResult::UsedUp
                    },
                }
        },
    }
}

/// What reading a fireball scroll at `target` does: for a target tile in view,
/// every monster with a fighter within `FIREBALL_RADIUS` of it takes
/// `FIREBALL_DAMAGE`, and the player gets the experience of those it kills. The
/// player itself is not harmed.
pub open spec fn fireball_outcome(
    old_p: Player,
    new_p: Player,
    old_es: Seq<Enemy>,
    new_es: Seq<Enemy>,
    visible: Visibility,
    target: Option<(i32, i32)>,
    old_log: Log,
    new_log: Log,
    r: UseResult,
) -> bool {
    let log0 = old_log.push((fireball_prompt(), Color::LightCyan));
    match target {
        Some((x, y)) if old_p.valid_target_spec(visible, x as int, y as int, None) => {
            &&& burned(old_es, new_es, x as int, y as int)
            &&& new_log == log0.push((explosion_text(), Color::Orange)) + burn_log(old_es, x as int, y as int)
            &&& new_p == Player::with_xp(old_p, clamp_i32(burn_xp(old_es, x as int, y as int)))
            &&& r == UseResult::UsedUp
        },
        _ => new_p == old_p && new_es == old_es && new_log == log0 && r == UseResult::Cancelled,
    }
}

/// The equipment taken off.
pub open spec fn taken_off(o: Object) -> Object {
    Object { equipment: Some(Equipment { equipped: false, ..o.equipment->Some_0 }), ..o }
}

/// The equipment put on.
pub open spec fn put_on(o: Object) -> Object {
    Object { equipment: Some(Equipment { equipped: true, ..o.equipment->Some_0 }), ..o }
}

pub open spec fn dequipped_text(slot: Slot) -> Seq<char> {
    "Dequipped by you from "@ + slot.spec_label() + "."@
}

pub open spec fn equipped_text(slot: Slot) -> Seq<char> {
    "Equipped by you on "@ + slot.spec_label() + "."@
}

/// No two inventory items are worn in the same slot.
pub open spec fn one_per_slot(inv: Seq<Object>) -> bool {
    forall|i: int, j: int, slot: Slot|
        0 <= i < inv.len() && 0 <= j < inv.len() && #[trigger] equipped_in(inv[i], slot) && #[trigger] equipped_in(
            inv[j],
            slot,
        ) ==> i == j
}

/// `w` is the first inventory item worn in `slot`, or none is.
pub open spec fn is_first_worn(inv: Seq<Object>, slot: Slot, w: Option<usize>) -> bool {
    match w {
        None => forall|i: int| 0 <= i < inv.len() ==> !equipped_in(#[trigger] inv[i], slot),
        Some(k) => {
            &&& k < inv.len()
            &&& equipped_in(inv[k as int], slot)
            &&& forall|i: int| 0 <= i < k ==> !equipped_in(#[trigger] inv[i], slot)
        },
    }
}

/// What using an equipment does: it is taken off when worn, and otherwise put
/// on, after taking off whatever was worn in its slot; it stays either way. An
/// item without equipment is cancelled.
pub open spec fn toggle_outcome(old_inv: Seq<Object>, new_inv: Seq<Object>, id: int, old_log: Log, new_log: Log, r: UseResult) -> bool {
    let o = old_inv[id];
    match o.equipment {
        None => new_inv == old_inv && new_log == old_log && r == UseResult::Cancelled,
        Some(e) => {
            &&& r == UseResult::UsedAndKept
            &&& if e.equipped {
                &&& new_inv == old_inv.update(id, taken_off(o))
                &&& new_log == old_log.push((dequipped_text(e.slot), Color::LightYellow))
            } else {
                exists|w: Option<usize>|
                    #[trigger] is_first_worn(old_inv, e.slot, w) && match w {
                        None => {
                            &&& new_inv == old_inv.update(id, put_on(o))
                            &&& new_log == old_log.push((equipped_text(e.slot), Color::LightGreen))
                        },
                        Some(k) => {
                            &&& new_inv == old_inv.update(k as int, taken_off(old_inv[k as int])).update(id, put_on(o))
                            &&& new_log == old_log.push((dequipped_text(e.slot), Color::LightYellow)).push(
                                (equipped_text(e.slot), Color::LightGreen),
                            )
                        },
                    }
            }
        },
    }
}

proof fn lemma_toggle_keeps_one_per_slot(old_inv: Seq<Object>, new_inv: Seq<Object>, id: int, old_log: Log, new_log: Log, r: UseResult)
    requires
        0 <= id < old_inv.len(),
        toggle_outcome(old_inv, new_inv, id, old_log, new_log, r),
        one_per_slot(old_inv),
    ensures
        one_per_slot(new_inv),
{
    let o = old_inv[id];
    if let Some(e) = o.equipment {
        if !e.equipped {
            let w = choose|w: Option<usize>| #[trigger] is_first_worn(old_inv, e.slot, w) && match w {
                None => {
                    &&& new_inv == old_inv.update(id, put_on(o))
                    &&& new_log == old_log.push((equipped_text(e.slot), Color::LightGreen))
                },
                Some(k) => {
                    &&& new_inv == old_inv.update(k as int, taken_off(old_inv[k as int])).update(id, put_on(o))
                    &&& new_log == old_log.push((dequipped_text(e.slot), Color::LightYellow)).push(
                        (equipped_text(e.slot), Color::LightGreen),
                    )
                },
            };
            assert forall|i: int, j: int, slot: Slot|
                0 <= i < new_inv.len() && 0 <= j < new_inv.len() && #[trigger] equipped_in(new_inv[i], slot)
                    && #[trigger] equipped_in(new_inv[j], slot) implies i == j by {
                if i != id && j != id {
                    assert(equipped_in(old_inv[i], slot));
                    assert(equipped_in(old_inv[j], slot));
                } else if i == id && j != id {
                    assert(equipped_in(old_inv[j], slot));
                } else if j == id && i != id {
                    assert(equipped_in(old_inv[i], slot));
                }
            }
        } else {
            assert forall|i: int, j: int, slot: Slot|
                0 <= i < new_inv.len() && 0 <= j < new_inv.len() && #[trigger] equipped_in(new_inv[i], slot)
                    && #[trigger] equipped_in(new_inv[j], slot) implies i == j by {
                assert(equipped_in(old_inv[i], slot));
                assert(equipped_in(old_inv[j], slot));
            }
        }
    }
}

proof fn lemma_remove_keeps_one_per_slot(inv: Seq<Object>, id: int)
    requires
        0 <= id < inv.len(),
        one_per_slot(inv),
    ensures
        one_per_slot(inv.remove(id)),
{
    let new_inv = inv.remove(id);
    assert forall|i: int, j: int, slot: Slot|
        0 <= i < new_inv.len() && 0 <= j < new_inv.len() && #[trigger] equipped_in(new_inv[i], slot)
            && #[trigger] equipped_in(new_inv[j], slot) implies i == j by {
        let i0 = if i < id { i } else { i + 1 };
        let j0 = if j < id { j } else { j + 1 };
        assert(new_inv[i] == inv[i0]);
        assert(new_inv[j] == inv[j0]);
        assert(equipped_in(inv[i0], slot));
        assert(equipped_in(inv[j0], slot));
    }
}

/// What using an item of kind `kind` does, before the item is removed (when used
/// up) or "Cancelled" is logged (when cancelled).
pub open spec fn item_outcome(
    kind: Item,
    id: int,
    old_p: Player,
    new_p: Player,
    old_es: Seq<Enemy>,
    new_es: Seq<Enemy>,
    old_inv: Seq<Object>,
    new_inv: Seq<Object>,
    visible: Visibility,
    target: Option<(i32, i32)>,
    old_log: Log,
    new_log: Log,
    r: UseResult,
) -> bool {
    match kind {
        Item::Heal => new_es == old_es && new_inv == old_inv && heal_outcome(old_p, new_p, old_log, new_log, r),
        Item::Lightning => new_inv == old_inv && lightning_outcome(
            old_p,
            new_p,
            old_es,
            new_es,
            visible,
            old_log,
            new_log,
            r,
        ),
        Item::Confuse => new_p == old_p && new_inv == old_inv && confuse_outcome(
            old_p,
            old_es,
            new_es,
            visible,
            target,
            old_log,
            new_log,
            r,
        ),
        Item::Fireball => new_inv == old_inv && fireball_outcome(
            old_p,
            new_p,
            old_es,
            new_es,
            visible,
            target,
            old_log,
            new_log,
            r,
        ),
        Item::Equipment => new_p == old_p && new_es == old_es && toggle_outcome(old_inv, new_inv, id, old_log, new_log, r),
    }
}

/// What picking up ground item `id` did: at capacity only a refusal is logged;
/// otherwise the item moves to the end of the inventory and the last ground item
/// takes its place.
pub open spec fn pick_outcome(
    old_inv: Seq<Object>,
    new_inv: Seq<Object>,
    old_ground: Seq<Object>,
    new_ground: Seq<Object>,
    old_log: Log,
    new_log: Log,
    id: int,
) -> bool {
    if old_inv.len() >= MAX_INVENTORY {
        &&& new_inv == old_inv
        &&& new_ground == old_ground
        &&& new_log == old_log.push((full_text(old_ground[id].name@), Color::Red))
    } else {
        let item = old_ground[id];
        &&& new_inv == old_inv.push(item)
        &&& new_ground == old_ground.update(id, old_ground.last()).drop_last()
        &&& new_log == old_log.push((picked_text(item.name@), Color::Green))
    }
}

/// What dropping inventory item `id` did: it lies on the player's cell, last
/// among the ground items.
pub open spec fn drop_outcome(
    p: Player,
    old_inv: Seq<Object>,
    new_inv: Seq<Object>,
    old_ground: Seq<Object>,
    new_ground: Seq<Object>,
    old_log: Log,
    new_log: Log,
    id: int,
) -> bool {
    let item = old_inv[id];
    &&& new_inv == old_inv.remove(id)
    &&& new_ground == old_ground.push(Object { x: p.object.x, y: p.object.y, ..item })
    &&& new_log == old_log.push((dropped_text(item.name@), Color::Yellow))
}

/// What using inventory item `id` did.
pub open spec fn use_outcome(
    old_p: Player,
    new_p: Player,
    old_es: Seq<Enemy>,
    new_es: Seq<Enemy>,
    old_inv: Seq<Object>,
    new_inv: Seq<Object>,
    visible: Visibility,
    id: int,
    target: Option<(i32, i32)>,
    old_log: Log,
    new_log: Log,
) -> bool {
    match old_inv[id].item {
        None => {
            &&& new_p == old_p
            &&& new_es == old_es
            &&& new_inv == old_inv
            &&& new_log == old_log.push((unusable_text(old_inv[id].name@), Color::White))
        },
        Some(kind) => exists|r: UseResult, log: Log, inv: Seq<Object>|
            #[trigger] item_outcome(kind, id, old_p, new_p, old_es, new_es, old_inv, inv, visible, target, old_log, log, r)
                && new_log == (if r == UseResult::Cancelled {
                log.push(("Cancelled"@, Color::White))
            } else {
                log
            }) && new_inv == (if r == UseResult::UsedUp {
                inv.remove(id)
            } else {
                inv
            }),
    }
}

impl Player {
    /// The tile can be targeted: it is in view and, when a range is given, within it.
    pub open spec fn valid_target_spec(&self, visible: Visibility, x: int, y: int, max_range: Option<i32>) -> bool {
        visible.visible_at(x, y) && in_range(dist_sq(self.object.x as int, self.object.y as int, x, y), max_range)
    }

    /// Whether the player may pick the tile as a target.
    pub fn valid_target(&self, visible: &Visibility, x: i32, y: i32, max_range: Option<i32>) -> (b: bool)
        ensures
            b == self.valid_target_spec(*visible, x as int, y as int, max_range),
    {
        if !visible.is_visible(x, y) {
            return false;
        }
        let d = distance_sq_between(self.object.x, self.object.y, x, y);
        match max_range {
            None => true,
            Some(r) => {
                let r2: i128 = r as i128;
                assert(0 <= r2 * r2 <= 0x1_0000_0000_0000_0000) by (nonlinear_arith)
                    requires
                        -0x1_0000_0000 <= r2 <= 0x1_0000_0000,
                ;
                r >= 0 && d <= r2 * r2
            },
        }
    }

    /// Picks up the ground item `object_id`, unless the inventory is full.
    pub fn pick_item_up(&mut self, object_id: usize, game: &mut Game, collectibles: &mut Vec<Object>)
        requires
            object_id < old(collectibles)@.len(),
        ensures
            *final(self) == *old(self),
            final(game).map == old(game).map,
            final(game).dungeon_level == old(game).dungeon_level,
            pick_outcome(
                old(game).inventory@,
                final(game).inventory@,
                old(collectibles)@,
                final(collectibles)@,
                old(game).messages@,
                final(game).messages@,
                object_id as int,
            ),
            old(game).inventory@.len() <= MAX_INVENTORY ==> final(game).inventory@.len() <= MAX_INVENTORY,
    {
        if game.inventory.len() >= MAX_INVENTORY {
            let mut text = String::from_str("Your inventory is full, cannot pick up ");
            text.append(collectibles[object_id].name.as_str());
            text.append(".");
            game.messages.add(text.as_str(), Color::Red);
        } else {
            let item = collectibles.swap_remove(object_id);
            let mut text = String::from_str("You picked up a ");
            text.append(item.name.as_str());
            text.append("!");
            game.messages.add(text.as_str(), Color::Green);
            game.inventory.push(item);
        }
    }

    /// Drops the inventory item `inventory_id` where the player stands.
    pub fn drop_item(&self, inventory_id: usize, game: &mut Game, collectibles: &mut Vec<Object>)
        requires
            inventory_id < old(game).inventory@.len(),
        ensures
            final(game).map == old(game).map,
            final(game).dungeon_level == old(game).dungeon_level,
            drop_outcome(
                *self,
                old(game).inventory@,
                final(game).inventory@,
                old(collectibles)@,
                final(collectibles)@,
                old(game).messages@,
                final(game).messages@,
                inventory_id as int,
            ),
    {
        let mut item = game.inventory.remove(inventory_id);
        item.set_pos(self.object.x, self.object.y);
        let mut text = String::from_str("You dropped a ");
        text.append(item.name.as_str());
        text.append(".");
        game.messages.add(text.as_str(), Color::Yellow);
        collectibles.push(item);
    }

    /// Finds the nearest monster that can be struck: it has a fighter and an AI,
    /// stands in view, and lies within `max_range`; ties go to the first.
    pub fn closest_monster(&self, visible: &Visibility, enemies: &[Enemy], max_range: i32) -> (r: Option<usize>)
        ensures
            is_closest(*self, enemies@, *visible, max_range as int, r),
    {
        let mut closest_enemy: Option<usize> = None;
        let mut closest_dist: i128 = 0;
        let reach: i128 = max_range as i128;
        let mut id: usize = 0;
        while id < enemies.len()
            invariant
                0 <= id <= enemies@.len(),
                reach == max_range,
                closest_enemy is None ==> forall|i: int| 0 <= i < id ==> !strikable(*self, #[trigger] enemies@[i], *visible, max_range as int),
                closest_enemy matches Some(k) ==> {
                    &&& k < id
                    &&& strikable(*self, enemies@[k as int], *visible, max_range as int)
                    &&& closest_dist == dist_to(*self, enemies@[k as int])
                    &&& forall|i: int|
                        0 <= i < id && strikable(*self, #[trigger] enemies@[i], *visible, max_range as int) ==> dist_to(
                            *self,
                            enemies@[k as int],
                        ) <= dist_to(*self, enemies@[i])
                    &&& forall|i: int|
                        0 <= i < k && strikable(*self, #[trigger] enemies@[i], *visible, max_range as int) ==> dist_to(
                            *self,
                            enemies@[k as int],
                        ) < dist_to(*self, enemies@[i])
                },
            decreases enemies@.len() - id,
        {
            let enemy = &enemies[id];
            if enemy.object.fighter.is_some() && enemy.ai.is_some() && visible.is_visible(enemy.object.x, enemy.object.y)
                && reach >= 0 {
                // distance between this monster and the player
                let dist = distance_sq_between(self.object.x, self.object.y, enemy.object.x, enemy.object.y);
                assert(0 <= reach * reach <= 0x1_0000_0000_0000_0000) by (nonlinear_arith)
                    requires
                        -0x1_0000_0000 <= reach <= 0x1_0000_0000,
                ;
                let in_reach = dist <= reach * reach;
                let closer = match closest_enemy {
                    None => true,
                    Some(_) => dist < closest_dist,
                };
                if in_reach && closer {
                    // it's closer, so remember it
                    closest_enemy = Some(id);
                    closest_dist = dist;
                }
            }
            id += 1;
        }
        closest_enemy
    }

    /// The first monster with a fighter on the tile `(x, y)`.
    pub fn target_monster(enemies: &[Enemy], x: i32, y: i32) -> (r: Option<usize>)
        ensures
            is_first_at(enemies@, x as int, y as int, r),
    {
        let mut id: usize = 0;
        while id < enemies.len()
            invariant
                0 <= id <= enemies@.len(),
                forall|i: int|
                    0 <= i < id ==> !((#[trigger] enemies@[i]).object.fighter is Some && enemies@[i].object.x == x
                        && enemies@[i].object.y == y),
            decreases enemies@.len() - id,
        {
            if enemies[id].object.x == x && enemies[id].object.y == y && enemies[id].object.fighter.is_some() {
                return Some(id);
            }
            id += 1;
        }
        None
    }

    fn cast_heal(&mut self, game: &mut Game) -> (r: UseResult)
        ensures
            final(game).same_but_log(old(game)),
            heal_outcome(*old(self), *final(self), old(game).messages@, final(game).messages@, r),
    {
        // heal the player
        if let Some(f) = self.object.fighter {
            if f.hp == f.max_hp {
                game.messages.add("You are already at full health.", Color::Red);
                return UseResult::Cancelled;
            }
            game.messages.add("Your wounds start to feel better!", Color::LightViolet);
            self.heal(HEAL_AMOUNT);
            return UseResult::UsedUp;
        }
        UseResult::Cancelled
    }

    /// Credits the experience of a monster this player killed.
    fn credit(&mut self, xp: i32)
        ensures
            *final(self) == Player::with_xp(*old(self), xp as int),
    {
        if let Some(f) = self.object.fighter {
            let mut f2 = f;
            crate::combat::add_xp(&mut f2, xp);
            self.object.fighter = Some(f2);
        }
    }

    // find the closest monster within range and damage it
    fn cast_lightning(&mut self, game: &mut Game, visible: &Visibility, enemies: &mut [Enemy]) -> (r: UseResult)
        ensures
            final(game).same_but_log(old(game)),
            lightning_outcome(
                *old(self),
                *final(self),
                old(enemies)@,
                final(enemies)@,
                *visible,
                old(game).messages@,
                final(game).messages@,
                r,
            ),
    {
        let monster_id = self.closest_monster(visible, enemies, LIGHTNING_RANGE);
        assert(is_closest(*old(self), old(enemies)@, *visible, LIGHTNING_RANGE as int, monster_id));
        match monster_id {
            Some(k) => {
                // zap it!
                let mut text = String::from_str("A lightning bolt strikes the ");
                text.append(enemies[k].object.name.as_str());
                text.append(" with a loud thunder! The damage is ");
                let amount = int_text(LIGHTNING_DAMAGE as i64);
                text.append(amount.as_str());
                text.append(" hit points.");
                game.messages.add(text.as_str(), Color::LightBlue);
                if let Some(xp) = enemies[k].take_damage(LIGHTNING_DAMAGE, game) {
                    self.credit(xp);
                }
                assert(enemies@ == old(enemies)@.update(k as int, enemies@[k as int]));
                UseResult::UsedUp
            },
            None => {
                // no enemy found within maximum range
                game.messages.add("No enemy is close enough to strike.", Color::Red);
                UseResult::Cancelled
            },
        }
    }

    fn cast_confuse(&self, game: &mut Game, visible: &Visibility, target: Option<(i32, i32)>, enemies: &mut [Enemy]) -> (r: UseResult)
        ensures
            final(game).same_but_log(old(game)),
            confuse_outcome(
                *self,
                old(enemies)@,
                final(enemies)@,
                *visible,
                target,
                old(game).messages@,
                final(game).messages@,
                r,
            ),
    {
        game.messages.add("Left-click an enemy to confuse it, or right-click to cancel.", Color::LightCyan);
        let monster_id = match target {
            Some((x, y)) => {
                if self.valid_target(visible, x, y, Some(CONFUSE_RANGE)) {
                    let m = Player::target_monster(enemies, x, y);
                    assert(is_first_at(old(enemies)@, x as int, y as int, m));
                    m
                } else {
                    None
                }
            },
            None => None,
        };
        match monster_id {
            Some(k) => {
                // replace the monster's AI with a confused one; after some turns
                // it will restore the old AI
                let old_ai = enemies[k].ai.take();
                let previous = match old_ai {
                    Some(a) => a,
                    None => Ai::Basic,
                };
                enemies[k].ai = Some(Ai::Confused { previous_ai: Box::new(previous), num_turns: CONFUSE_NUM_TURNS });
                let mut text = String::from_str("The eyes of ");
                text.append(enemies[k].object.name.as_str());
                text.append(" look vacant, as he starts to stumble around!");
                game.messages.add(text.as_str(), Color::LightGreen);
                assert(enemies@ == old(enemies)@.update(k as int, enemies@[k as int]));
                UseResult::UsedUp
            },
            None => {
                // no enemy found at the chosen tile
                game.messages.add("No enemy is close enough to strike.", Color::Red);
                UseResult::Cancelled
            },
        }
    }

    fn cast_fireball(&mut self, game: &mut Game, visible: &Visibility, target: Option<(i32, i32)>, enemies: &mut [Enemy]) -> (r: UseResult)
        ensures
            final(game).same_but_log(old(game)),
            fireball_outcome(
                *old(self),
                *final(self),
                old(enemies)@,
                final(enemies)@,
                *visible,
                target,
                old(game).messages@,
                final(game).messages@,
                r,
            ),
    {
        game.messages.add("Left-click a target tile for the fireball, or right-click to cancel.", Color::LightCyan);
        let (x, y) = match target {
            Some((x, y)) => {
                if !self.valid_target(visible, x, y, None) {
                    return UseResult::Cancelled;
                }
                (x, y)
            },
            None => {
                return UseResult::Cancelled;
            },
        };
        let mut text = String::from_str("The fireball explodes, burning everything within ");
        let radius = int_text(FIREBALL_RADIUS as i64);
        text.append(radius.as_str());
        text.append(" tiles!");
        game.messages.add(text.as_str(), Color::Orange);
        let ghost es0 = enemies@;
        let ghost log1 = game.messages@;
        let ghost game1 = *game;
        let mut xp_to_gain: i128 = 0;
        let mut i: usize = 0;
        assert(es0.subrange(0, 0) =~= Seq::<Enemy>::empty());
        assert(log1 + burn_log(es0.subrange(0, 0), x as int, y as int) =~= log1);
        while i < enemies.len()
            invariant
                0 <= i <= enemies@.len(),
                enemies@.len() == es0.len(),
                forall|j: int|
                    0 <= j < i ==> if in_blast(#[trigger] es0[j], x as int, y as int) {
                        Enemy::hit_result(es0[j], enemies@[j], FIREBALL_DAMAGE as int)
                    } else {
                        enemies@[j] == es0[j]
                    },
                forall|j: int| i <= j < es0.len() ==> #[trigger] enemies@[j] == es0[j],
                game.messages@ == log1 + burn_log(es0.subrange(0, i as int), x as int, y as int),
                xp_to_gain == burn_xp(es0.subrange(0, i as int), x as int, y as int),
                -0x8000_0000 * i <= xp_to_gain <= 0x8000_0000 * i,
                i <= usize::MAX,
                game.same_but_log(&game1),
            decreases enemies@.len() - i,
        {
            let ghost before = game.messages@;
            let ghost e = es0[i as int];
            assert(es0.subrange(0, i + 1).drop_last() =~= es0.subrange(0, i as int));
            assert(es0.subrange(0, i + 1).last() == e);
            let dist = distance_sq_between(enemies[i].object.x, enemies[i].object.y, x, y);
            if dist <= (FIREBALL_RADIUS * FIREBALL_RADIUS) as i128 && enemies[i].object.fighter.is_some() {
                let mut burn = String::from_str("The ");
                burn.append(enemies[i].object.name.as_str());
                burn.append(" gets burned for ");
                let amount = int_text(FIREBALL_DAMAGE as i64);
                burn.append(amount.as_str());
                burn.append(" hit points.");
                game.messages.add(burn.as_str(), Color::Orange);
                if let Some(xp) = enemies[i].take_damage(FIREBALL_DAMAGE, game) {
                    xp_to_gain = xp_to_gain + xp as i128;
                }
                assert(game.messages@ =~= log1 + burn_log(es0.subrange(0, i + 1), x as int, y as int));
            } else {
                assert(game.messages@ =~= log1 + burn_log(es0.subrange(0, i + 1), x as int, y as int));
            }
            i += 1;
        }
        assert(es0.subrange(0, i as int) =~= es0);
        let gain = crate::fighter::saturate_wide(xp_to_gain);
        self.credit(gain);
        UseResult::UsedUp
    }

    fn toggle_equipment(&mut self, game: &mut Game, inventory_id: usize) -> (r: UseResult)
        requires
            inventory_id < old(game).inventory@.len(),
            old(game).inventory@[inventory_id as int].item is Some,
        ensures
            *final(self) == *old(self),
            final(game).map == old(game).map,
            final(game).dungeon_level == old(game).dungeon_level,
            toggle_outcome(
                old(game).inventory@,
                final(game).inventory@,
                inventory_id as int,
                old(game).messages@,
                final(game).messages@,
                r,
            ),
    {
        let equipment = match game.inventory[inventory_id].equipment {
            Some(equipment) => equipment,
            None => return UseResult::Cancelled,
        };
        if equipment.equipped {
            game.inventory[inventory_id].dequip(&mut game.messages);
        } else {
            // take off whatever is worn in that slot first
            let worn = Object::get_equipped_in_slot(equipment.slot, game.inventory.as_slice());
            assert(is_first_worn(old(game).inventory@, equipment.slot, worn));
            if let Some(k) = worn {
                let ghost inv0 = game.inventory@;
                game.inventory[k].equipment = Some(Equipment { equipped: false, slot: equipment.slot });
                assert(game.inventory@ == inv0.update(k as int, taken_off(inv0[k as int])));
                let mut text = String::from_str("Dequipped by you from ");
                let slot = equipment.slot.to_string();
                text.append(slot.as_str());
                text.append(".");
                game.messages.add(text.as_str(), Color::LightYellow);
            }
            game.inventory[inventory_id].equip(&mut game.messages);
        }
        UseResult::UsedAndKept
    }

    /// Uses the inventory item `inventory_id`. A scroll that needs a target gets
    /// the tile the player chose, or `None` when the choice was aborted. An item
    /// used up leaves the inventory; a cancelled use leaves everything as it was
    /// but for the log, which ends with "Cancelled".
    pub fn use_item(
        &mut self,
        game: &mut Game,
        visible: &Visibility,
        inventory_id: usize,
        target: Option<(i32, i32)>,
        enemies: &mut [Enemy],
    )
        requires
            inventory_id < old(game).inventory@.len(),
        ensures
            final(game).map == old(game).map,
            final(game).dungeon_level == old(game).dungeon_level,
            final(game).inventory@.len() <= old(game).inventory@.len(),
            one_per_slot(old(game).inventory@) ==> one_per_slot(final(game).inventory@),
            use_outcome(
                *old(self),
                *final(self),
                old(enemies)@,
                final(enemies)@,
                old(game).inventory@,
                final(game).inventory@,
                *visible,
                inventory_id as int,
                target,
                old(game).messages@,
                final(game).messages@,
            ),
    {
        match game.inventory[inventory_id].item {
            Some(item) => {
                let result = match item {
                    Item::Heal => self.cast_heal(game),
                    Item::Lightning => self.cast_lightning(game, visible, enemies),
                    Item::Confuse => self.cast_confuse(game, visible, target, enemies),
                    Item::Fireball => self.cast_fireball(game, visible, target, enemies),
                    Item::Equipment => self.toggle_equipment(game, inventory_id),
                };
                let ghost log = game.messages@;
                let ghost inv = game.inventory@;
                assert(item_outcome(
                    item,
                    inventory_id as int,
                    *old(self),
                    *self,
                    old(enemies)@,
                    enemies@,
                    old(game).inventory@,
                    inv,
                    *visible,
                    target,
                    old(game).messages@,
                    log,
                    result,
                ));
                proof {
                    if one_per_slot(old(game).inventory@) && item == Item::Equipment {
                        lemma_toggle_keeps_one_per_slot(
                            old(game).inventory@,
                            inv,
                            inventory_id as int,
                            old(game).messages@,
                            log,
                            result,
                        );
                    }
                }
                match result {
                    UseResult::UsedUp => {
                        // destroy after use
                        proof {
                            if one_per_slot(inv) {
                                lemma_remove_keeps_one_per_slot(inv, inventory_id as int);
                            }
                        }
                        game.inventory.remove(inventory_id);
                    },
                    UseResult::Cancelled => {
                        game.messages.add("Cancelled", Color::White);
                    },
                    UseResult::UsedAndKept => {},
                }
            },
            None => {
                let mut text = String::from_str("The ");
                text.append(game.inventory[inventory_id].name.as_str());
                text.append(" cannot be used.");
                game.messages.add(text.as_str(), Color::White);
            },
        }
    }
}

} // verus!
