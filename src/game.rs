use crate::color::Color;
use crate::constants::{MAP_HEIGHT, MAP_WIDTH, MAX_ROOMS, MAX_ROOM_ITEMS, MAX_ROOM_MONSTERS, ROOM_MAX_SIZE, ROOM_MIN_SIZE};
use crate::dungeon::{Layout, generate_layout, grid_matches, has_size, in_interior, room_fits, carved, in_some_room};
use crate::enemy::{Enemy, is_orc_at, is_troll_at};
use crate::fighter::Fighter;
use crate::messages::Messages;
use crate::object::{Item, Object, blocked_at, in_map, is_blocked};
use crate::player::Player;
use crate::random::{random_range, total_weight, weighted_index};
use crate::rect::Rect;
use crate::tile::Tile;
use vstd::prelude::*;

verus! {

/// The dungeon grid, indexed `[x][y]`.
pub type DungeonMap = Vec<Vec<Tile>>;

/// The state of one game besides the actors: the map, the log, the player's
/// inventory and the depth.
pub struct Game {
    pub map: DungeonMap,
    pub messages: Messages,
    pub inventory: Vec<Object>,
    pub dungeon_level: u32,
}

impl Game {
    /// Everything but the message log is as in `other`.
    pub open spec fn same_but_log(&self, other: &Game) -> bool {
        &&& self.map == other.map
        &&& self.inventory == other.inventory
        &&& self.dungeon_level == other.dungeon_level
    }
}

/// A blocking monster stands on the cell.
pub open spec fn monster_at(enemies: Seq<Enemy>, x: int, y: int) -> bool {
    exists|i: int| 0 <= i < enemies.len() && #[trigger] enemies[i].object.blocks && enemies[i].object.x == x && enemies[i].object.y == y
}

/// No two blocking monsters share a cell.
pub open spec fn blockers_apart(enemies: Seq<Enemy>) -> bool {
    forall|i: int, j: int|
        0 <= i < enemies.len() && 0 <= j < enemies.len() && i != j && (#[trigger] enemies[i]).object.blocks
            && (#[trigger] enemies[j]).object.blocks ==> (enemies[i].object.x != enemies[j].object.x
            || enemies[i].object.y != enemies[j].object.y)
}

/// A freshly placed consumable: a healing potion or a lightning, fireball or
/// confusion scroll.
pub open spec fn is_loot_at(o: Object, x: int, y: int) -> bool {
    ||| o.is_ground_object(x, y, '!', Color::Violet, "healing potion"@, Some(Item::Heal), None)
    ||| o.is_ground_object(x, y, '#', Color::LightYellow, "scroll of lightning bolt"@, Some(Item::Lightning), None)
    ||| o.is_ground_object(x, y, '#', Color::LightYellow, "scroll of fireball"@, Some(Item::Fireball), None)
    ||| o.is_ground_object(x, y, '#', Color::LightYellow, "scroll of confusion"@, Some(Item::Confuse), None)
}

/// A freshly placed monster: an orc or a troll.
pub open spec fn is_new_monster(e: Enemy) -> bool {
    is_orc_at(e, e.object.x as int, e.object.y as int) || is_troll_at(e, e.object.x as int, e.object.y as int)
}

/// The cell cannot take a new monster or item: it is blocked on the grid, by a
/// blocking object, or by a monster.
pub open spec fn spot_taken(map: Seq<Vec<Tile>>, enemies: Seq<Enemy>, objects: Seq<Object>, x: int, y: int) -> bool {
    blocked_at(map, objects, x, y) || monster_at(enemies, x, y)
}

fn monster_on(enemies: &[Enemy], x: i32, y: i32) -> (b: bool)
    ensures
        b == monster_at(enemies@, x as int, y as int),
{
    let mut i: usize = 0;
    while i < enemies.len()
        invariant
            0 <= i <= enemies@.len(),
            forall|j: int|
                0 <= j < i ==> !(#[trigger] enemies@[j].object.blocks && enemies@[j].object.x == x && enemies@[j].object.y
                    == y),
        decreases enemies@.len() - i,
    {
        if enemies[i].object.blocks && enemies[i].object.x == x && enemies[i].object.y == y {
            return true;
        }
        i += 1;
    }
    false
}

/// Nothing may move onto the cell: it is off the grid, a wall, or taken by a
/// blocking monster.
pub open spec fn cell_blocked(map: Seq<Vec<Tile>>, enemies: Seq<Enemy>, x: int, y: int) -> bool {
    !in_map(map, x, y) || map[x]@[y].blocked || monster_at(enemies, x, y)
}

/// `new` is `old` after trying to step by `(dx, dy)`: it moved unless the target
/// cell was blocked.
pub open spec fn step_result(old: Object, new: Object, dx: int, dy: int, map: Seq<Vec<Tile>>, enemies: Seq<Enemy>) -> bool {
    let (nx, ny) = (old.x + dx, old.y + dy);
    if cell_blocked(map, enemies, nx, ny) {
        new == old
    } else {
        new == (Object { x: nx as i32, y: ny as i32, ..old })
    }
}

/// Steps by `(dx, dy)` unless the target cell is off the grid, a wall, or taken
/// by a blocking monster.
pub fn step_if_free(object: &mut Object, dx: i32, dy: i32, map: &DungeonMap, enemies: &[Enemy])
    ensures
        step_result(*old(object), *final(object), dx as int, dy as int, map@, enemies@),
{
    let nx: i64 = object.x as i64 + dx as i64;
    let ny: i64 = object.y as i64 + dy as i64;
    if nx < 0 || ny < 0 || nx > i32::MAX as i64 || ny > i32::MAX as i64 {
        return;
    }
    let empty: Vec<Object> = Vec::new();
    if is_blocked(nx as i32, ny as i32, map, empty.as_slice()) {
        return;
    }
    if monster_on(enemies, nx as i32, ny as i32) {
        return;
    }
    object.set_pos(nx as i32, ny as i32);
}

/// One random draw for a room: a cell and the index of a kind in the table.
pub type Draw = (i32, i32, usize);

/// Some kept draw falls on the cell.
pub open spec fn drawn_at(kept: Seq<Draw>, x: int, y: int) -> bool {
    exists|j: int| 0 <= j < kept.len() && (#[trigger] kept[j]).0 == x && kept[j].1 == y
}

/// The monster draws that are placed, in order: a draw is dropped when its cell
/// is taken on the grid, by a blocking object or monster, or by a monster placed
/// from an earlier draw.
pub open spec fn kept_monsters(draws: Seq<Draw>, map: Seq<Vec<Tile>>, objects: Seq<Object>, enemies: Seq<Enemy>) -> Seq<Draw>
    decreases draws.len(),
{
    if draws.len() == 0 {
        Seq::empty()
    } else {
        let kept = kept_monsters(draws.drop_last(), map, objects, enemies);
        let d = draws.last();
        if spot_taken(map, enemies, objects, d.0 as int, d.1 as int) || drawn_at(kept, d.0 as int, d.1 as int) {
            kept
        } else {
            kept.push(d)
        }
    }
}

/// The item draws that are placed, in order: a draw is dropped when its cell is
/// taken on the grid, by a blocking object or by a monster.
pub open spec fn kept_items(draws: Seq<Draw>, map: Seq<Vec<Tile>>, objects: Seq<Object>, enemies: Seq<Enemy>) -> Seq<Draw>
    decreases draws.len(),
{
    if draws.len() == 0 {
        Seq::empty()
    } else {
        let kept = kept_items(draws.drop_last(), map, objects, enemies);
        let d = draws.last();
        if spot_taken(map, enemies, objects, d.0 as int, d.1 as int) {
            kept
        } else {
            kept.push(d)
        }
    }
}

/// The monster a draw makes: kind 0 is an orc, any other a troll.
pub open spec fn is_monster_of(e: Enemy, d: Draw) -> bool {
    if d.2 == 0 {
        is_orc_at(e, d.0 as int, d.1 as int)
    } else {
        is_troll_at(e, d.0 as int, d.1 as int)
    }
}

/// The item a draw makes: kind 0 is a healing potion, 1 a lightning scroll, 2 a
/// fireball scroll, any other a confusion scroll.
pub open spec fn is_item_of(o: Object, d: Draw) -> bool {
    let (x, y) = (d.0 as int, d.1 as int);
    if d.2 == 0 {
        o.is_ground_object(x, y, '!', Color::Violet, "healing potion"@, Some(Item::Heal), None)
    } else if d.2 == 1 {
        o.is_ground_object(x, y, '#', Color::LightYellow, "scroll of lightning bolt"@, Some(Item::Lightning), None)
    } else if d.2 == 2 {
        o.is_ground_object(x, y, '#', Color::LightYellow, "scroll of fireball"@, Some(Item::Fireball), None)
    } else {
        o.is_ground_object(x, y, '#', Color::LightYellow, "scroll of confusion"@, Some(Item::Confuse), None)
    }
}

/// The lists after placing the monster draws and then the item draws: the kept
/// monsters and then the kept items are appended, in draw order.
pub open spec fn placed(
    monster_draws: Seq<Draw>,
    item_draws: Seq<Draw>,
    map: Seq<Vec<Tile>>,
    old_e: Seq<Enemy>,
    new_e: Seq<Enemy>,
    old_c: Seq<Object>,
    new_c: Seq<Object>,
) -> bool {
    let km = kept_monsters(monster_draws, map, old_c, old_e);
    let ki = kept_items(item_draws, map, old_c, new_e);
    &&& new_e.len() == old_e.len() + km.len()
    &&& new_e.subrange(0, old_e.len() as int) == old_e
    &&& forall|j: int| 0 <= j < km.len() ==> is_monster_of(#[trigger] new_e[old_e.len() + j], km[j])
    &&& new_c.len() == old_c.len() + ki.len()
    &&& new_c.subrange(0, old_c.len() as int) == old_c
    &&& forall|j: int| 0 <= j < ki.len() ==> is_item_of(#[trigger] new_c[old_c.len() + j], ki[j])
}

/// The draws fit a room: at most `max` of them, each on a cell inside the room,
/// each naming a kind below `kinds`.
pub open spec fn draws_fit(draws: Seq<Draw>, room: Rect, max: int, kinds: int) -> bool {
    &&& draws.len() <= max
    &&& forall|j: int|
        0 <= j < draws.len() ==> in_interior(room, (#[trigger] draws[j]).0 as int, draws[j].1 as int) && draws[j].2
            < kinds
}

/// Every kept monster draw is one of the draws and lands on a cell that was free
/// on the grid and of blocking objects.
proof fn lemma_kept_monsters_come_from_draws(draws: Seq<Draw>, map: Seq<Vec<Tile>>, objects: Seq<Object>, enemies: Seq<Enemy>)
    ensures
        ({
            let km = kept_monsters(draws, map, objects, enemies);
            &&& km.len() <= draws.len()
            &&& forall|j: int|
                0 <= j < km.len() ==> (exists|i: int| 0 <= i < draws.len() && draws[i] == #[trigger] km[j]) && !spot_taken(
                    map,
                    enemies,
                    objects,
                    km[j].0 as int,
                    km[j].1 as int,
                )
        }),
    decreases draws.len(),
{
    if draws.len() > 0 {
        let rest = draws.drop_last();
        lemma_kept_monsters_come_from_draws(rest, map, objects, enemies);
        let km = kept_monsters(draws, map, objects, enemies);
        let k0 = kept_monsters(rest, map, objects, enemies);
        assert forall|j: int| 0 <= j < km.len() implies (exists|i: int| 0 <= i < draws.len() && draws[i] == #[trigger] km[j]) by {
            if j < k0.len() {
                let i = choose|i: int| 0 <= i < rest.len() && rest[i] == k0[j];
                assert(draws[i] == km[j]);
            } else {
                assert(draws[draws.len() - 1] == km[j]);
            }
        }
    }
}

/// Every kept item draw is one of the draws and lands on a cell that was free.
proof fn lemma_kept_items_come_from_draws(draws: Seq<Draw>, map: Seq<Vec<Tile>>, objects: Seq<Object>, enemies: Seq<Enemy>)
    ensures
        ({
            let ki = kept_items(draws, map, objects, enemies);
            &&& ki.len() <= draws.len()
            &&& forall|j: int|
                0 <= j < ki.len() ==> (exists|i: int| 0 <= i < draws.len() && draws[i] == #[trigger] ki[j]) && !spot_taken(
                    map,
                    enemies,
                    objects,
                    ki[j].0 as int,
                    ki[j].1 as int,
                )
        }),
    decreases draws.len(),
{
    if draws.len() > 0 {
        let rest = draws.drop_last();
        lemma_kept_items_come_from_draws(rest, map, objects, enemies);
        let ki = kept_items(draws, map, objects, enemies);
        let k0 = kept_items(rest, map, objects, enemies);
        assert forall|j: int| 0 <= j < ki.len() implies (exists|i: int| 0 <= i < draws.len() && draws[i] == #[trigger] ki[j]) by {
            if j < k0.len() {
                let i = choose|i: int| 0 <= i < rest.len() && rest[i] == k0[j];
                assert(draws[i] == ki[j]);
            } else {
                assert(draws[draws.len() - 1] == ki[j]);
            }
        }
    }
}

/// A blocking monster stands on a cell of the grown list exactly when one stood
/// there before or a kept draw put one there.
proof fn lemma_monsters_grown(e0: Seq<Enemy>, cur: Seq<Enemy>, km: Seq<Draw>, x: int, y: int)
    requires
        cur.len() == e0.len() + km.len(),
        cur.subrange(0, e0.len() as int) == e0,
        forall|j: int| 0 <= j < km.len() ==> is_monster_of(#[trigger] cur[e0.len() + j], km[j]),
    ensures
        monster_at(cur, x, y) == (monster_at(e0, x, y) || drawn_at(km, x, y)),
{
    if monster_at(cur, x, y) {
        let i = choose|i: int| 0 <= i < cur.len() && #[trigger] cur[i].object.blocks && cur[i].object.x == x && cur[i].object.y == y;
        if i < e0.len() {
            assert(cur.subrange(0, e0.len() as int)[i] == cur[i]);
        } else {
            let j = i - e0.len();
            assert(is_monster_of(cur[e0.len() + j], km[j]));
            assert(km[j].0 == x && km[j].1 == y);
        }
    }
    if monster_at(e0, x, y) {
        let i = choose|i: int| 0 <= i < e0.len() && #[trigger] e0[i].object.blocks && e0[i].object.x == x && e0[i].object.y == y;
        assert(cur.subrange(0, e0.len() as int)[i] == cur[i]);
    }
    if drawn_at(km, x, y) {
        let j = choose|j: int| 0 <= j < km.len() && (#[trigger] km[j]).0 == x && km[j].1 == y;
        assert(is_monster_of(cur[e0.len() + j], km[j]));
        assert(cur[e0.len() + j].object.blocks);
    }
}

/// Objects added without blocking leave the blocked cells as they were.
proof fn lemma_nonblocking_added(c0: Seq<Object>, cur: Seq<Object>, map: Seq<Vec<Tile>>, x: int, y: int)
    requires
        c0.len() <= cur.len(),
        cur.subrange(0, c0.len() as int) == c0,
        forall|k: int| c0.len() <= k < cur.len() ==> !(#[trigger] cur[k]).blocks,
    ensures
        blocked_at(map, cur, x, y) == blocked_at(map, c0, x, y),
{
    if crate::object::occupied(cur, x, y) {
        let i = choose|i: int| 0 <= i < cur.len() && #[trigger] cur[i].blocks && cur[i].x == x && cur[i].y == y;
        assert(cur.subrange(0, c0.len() as int)[i] == cur[i]);
    }
    if crate::object::occupied(c0, x, y) {
        let i = choose|i: int| 0 <= i < c0.len() && #[trigger] c0[i].blocks && c0[i].x == x && c0[i].y == y;
        assert(cur.subrange(0, c0.len() as int)[i] == cur[i]);
    }
}

/// Places the monsters and then the items that the given draws describe, each on
/// its cell unless that cell is taken; see `placed`.
pub fn place_drawn(
    monster_draws: &[Draw],
    item_draws: &[Draw],
    enemies: &mut Vec<Enemy>,
    collectibles: &mut Vec<Object>,
    map: &DungeonMap,
)
    requires
        blockers_apart(old(enemies)@),
    ensures
        placed(monster_draws@, item_draws@, map@, old(enemies)@, final(enemies)@, old(collectibles)@, final(collectibles)@),
        blockers_apart(final(enemies)@),
{
    let ghost e0 = enemies@;
    let ghost c0 = collectibles@;
    let ghost md = monster_draws@;
    let mut i: usize = 0;
    assert(md.subrange(0, 0) =~= Seq::<Draw>::empty());
    assert(enemies@.subrange(0, e0.len() as int) =~= e0);
    while i < monster_draws.len()
        invariant
            0 <= i <= md.len(),
            md == monster_draws@,
            collectibles@ == c0,
            ({
                let km = kept_monsters(md.subrange(0, i as int), map@, c0, e0);
                &&& enemies@.len() == e0.len() + km.len()
                &&& enemies@.subrange(0, e0.len() as int) == e0
                &&& forall|j: int| 0 <= j < km.len() ==> is_monster_of(#[trigger] enemies@[e0.len() + j], km[j])
            }),
            blockers_apart(enemies@),
        decreases md.len() - i,
    {
        let ghost km = kept_monsters(md.subrange(0, i as int), map@, c0, e0);
        assert(md.subrange(0, i + 1).drop_last() =~= md.subrange(0, i as int));
        assert(md.subrange(0, i + 1).last() == md[i as int]);
        let (x, y, kind) = monster_draws[i];
        proof {
            lemma_monsters_grown(e0, enemies@, km, x as int, y as int);
        }
        if !is_blocked(x, y, map, collectibles.as_slice()) && !monster_on(enemies.as_slice(), x, y) {
            let monster = if kind == 0 {
                Enemy::create_orc(x, y)
            } else {
                Enemy::create_troll(x, y)
            };
            let ghost before = enemies@;
            enemies.push(monster);
            assert(enemies@.subrange(0, e0.len() as int) =~= before.subrange(0, e0.len() as int));
            assert forall|a: int, b: int|
                0 <= a < enemies@.len() && 0 <= b < enemies@.len() && a != b && (#[trigger] enemies@[a]).object.blocks
                    && (#[trigger] enemies@[b]).object.blocks implies (enemies@[a].object.x != enemies@[b].object.x
                || enemies@[a].object.y != enemies@[b].object.y) by {
                if a == before.len() {
                    assert(!(before[b].object.blocks && before[b].object.x == x && before[b].object.y == y));
                } else if b == before.len() {
                    assert(!(before[a].object.blocks && before[a].object.x == x && before[a].object.y == y));
                }
            }
            let ghost km2 = kept_monsters(md.subrange(0, i + 1), map@, c0, e0);
            assert(km2 == km.push(md[i as int]));
            assert forall|j: int| 0 <= j < km2.len() implies is_monster_of(#[trigger] enemies@[e0.len() + j], km2[j]) by {
                if j < km.len() {
                    assert(enemies@[e0.len() + j] == before[e0.len() + j]);
                }
            }
        }
        i += 1;
    }
    assert(md.subrange(0, md.len() as int) =~= md);
    let ghost e1 = enemies@;
    let ghost idr = item_draws@;
    let mut i: usize = 0;
    assert(idr.subrange(0, 0) =~= Seq::<Draw>::empty());
    assert(collectibles@.subrange(0, c0.len() as int) =~= c0);
    while i < item_draws.len()
        invariant
            0 <= i <= idr.len(),
            idr == item_draws@,
            enemies@ == e1,
            ({
                let ki = kept_items(idr.subrange(0, i as int), map@, c0, e1);
                &&& collectibles@.len() == c0.len() + ki.len()
                &&& collectibles@.subrange(0, c0.len() as int) == c0
                &&& forall|j: int| 0 <= j < ki.len() ==> is_item_of(#[trigger] collectibles@[c0.len() + j], ki[j])
            }),
            forall|k: int| c0.len() <= k < collectibles@.len() ==> !(#[trigger] collectibles@[k]).blocks,
        decreases idr.len() - i,
    {
        let ghost ki = kept_items(idr.subrange(0, i as int), map@, c0, e1);
        assert(idr.subrange(0, i + 1).drop_last() =~= idr.subrange(0, i as int));
        assert(idr.subrange(0, i + 1).last() == idr[i as int]);
        let (x, y, kind) = item_draws[i];
        proof {
            lemma_nonblocking_added(c0, collectibles@, map@, x as int, y as int);
        }
        if !is_blocked(x, y, map, collectibles.as_slice()) && !monster_on(enemies.as_slice(), x, y) {
            let item = if kind == 0 {
                Object::create_potion(x, y)
            } else if kind == 1 {
                Object::create_lighting_bolt(x, y)
            } else if kind == 2 {
                Object::create_fireball(x, y)
            } else {
                Object::create_confuse_potion(x, y)
            };
            let ghost before = collectibles@;
            collectibles.push(item);
            assert(collectibles@.subrange(0, c0.len() as int) =~= before.subrange(0, c0.len() as int));
            let ghost ki2 = kept_items(idr.subrange(0, i + 1), map@, c0, e1);
            assert(ki2 == ki.push(idr[i as int]));
            assert forall|j: int| 0 <= j < ki2.len() implies is_item_of(#[trigger] collectibles@[c0.len() + j], ki2[j]) by {
                if j < ki.len() {
                    assert(collectibles@[c0.len() + j] == before[c0.len() + j]);
                }
            }
        }
        i += 1;
    }
    assert(idr.subrange(0, idr.len() as int) =~= idr);
}

/// Draws `count` cells inside the room, each with a kind from `weights`.
fn draw_for_room(room: Rect, count: i32, weights: &Vec<u32>) -> (draws: Vec<Draw>)
    requires
        room.x1 + 1 < room.x2,
        room.y1 + 1 < room.y2,
        count >= 0,
        weights@.len() > 0,
        0 < total_weight(weights@) <= u32::MAX,
    ensures
        draws@.len() == count,
        forall|j: int|
            0 <= j < draws@.len() ==> in_interior(room, (#[trigger] draws@[j]).0 as int, draws@[j].1 as int)
                && draws@[j].2 < weights@.len() && weights@[draws@[j].2 as int] > 0,
{
    let mut draws: Vec<Draw> = Vec::new();
    let mut n: i32 = 0;
    while n < count
        invariant
            0 <= n <= count,
            room.x1 + 1 < room.x2,
            room.y1 + 1 < room.y2,
            weights@.len() > 0,
            0 < total_weight(weights@) <= u32::MAX,
            draws@.len() == n,
            forall|j: int|
                0 <= j < draws@.len() ==> in_interior(room, (#[trigger] draws@[j]).0 as int, draws@[j].1 as int)
                    && draws@[j].2 < weights@.len() && weights@[draws@[j].2 as int] > 0,
        decreases count - n,
    {
        // choose a random spot and a random kind
        let x = random_range(room.x1 + 1, room.x2);
        let y = random_range(room.y1 + 1, room.y2);
        let kind = weighted_index(weights.as_slice());
        draws.push((x, y, kind));
        n += 1;
    }
    draws
}

/// Populates one room: up to `MAX_ROOM_MONSTERS` monsters (orc 80, troll 20) and
/// up to `MAX_ROOM_ITEMS` items (healing potion 70, lightning, fireball and
/// confusion scrolls 10 each), each on a random cell of the room's inside that
/// nothing already blocks; a draw that falls on a blocked cell is dropped.
pub fn place_objects(room: Rect, enemies: &mut Vec<Enemy>, collectibles: &mut Vec<Object>, map: &DungeonMap)
    requires
        room.x1 + 1 < room.x2,
        room.y1 + 1 < room.y2,
        blockers_apart(old(enemies)@),
    ensures
        exists|md: Seq<Draw>, id: Seq<Draw>|
            #[trigger] placed(md, id, map@, old(enemies)@, final(enemies)@, old(collectibles)@, final(collectibles)@)
                && draws_fit(md, room, MAX_ROOM_MONSTERS as int, 2) && draws_fit(id, room, MAX_ROOM_ITEMS as int, 4),
        old(enemies)@.len() <= final(enemies)@.len() <= old(enemies)@.len() + MAX_ROOM_MONSTERS,
        final(enemies)@.subrange(0, old(enemies)@.len() as int) == old(enemies)@,
        forall|k: int|
            old(enemies)@.len() <= k < final(enemies)@.len() ==> {
                let e = #[trigger] final(enemies)@[k];
                &&& is_new_monster(e)
                &&& in_interior(room, e.object.x as int, e.object.y as int)
                &&& !blocked_at(map@, old(collectibles)@, e.object.x as int, e.object.y as int)
            },
        blockers_apart(final(enemies)@),
        old(collectibles)@.len() <= final(collectibles)@.len() <= old(collectibles)@.len() + MAX_ROOM_ITEMS,
        final(collectibles)@.subrange(0, old(collectibles)@.len() as int) == old(collectibles)@,
        forall|k: int|
            old(collectibles)@.len() <= k < final(collectibles)@.len() ==> {
                let o = #[trigger] final(collectibles)@[k];
                &&& is_loot_at(o, o.x as int, o.y as int)
                &&& in_interior(room, o.x as int, o.y as int)
                &&& !spot_taken(map@, final(enemies)@, old(collectibles)@, o.x as int, o.y as int)
            },
{
    let ghost e0 = enemies@;
    let ghost c0 = collectibles@;
    // monster random table: orc, troll
    let monster_chances: Vec<u32> = vec![80, 20];
    // item random table: heal, lightning, fireball, confuse
    let item_chances: Vec<u32> = vec![70, 10, 10, 10];
    proof {
        reveal_with_fuel(total_weight, 5);
    }
    assert(total_weight(monster_chances@) == 100);
    assert(total_weight(item_chances@) == 100);
    // choose random numbers of monsters and items
    let num_monsters = random_range(0, MAX_ROOM_MONSTERS + 1);
    let monster_draws = draw_for_room(room, num_monsters, &monster_chances);
    let num_items = random_range(0, MAX_ROOM_ITEMS + 1);
    let item_draws = draw_for_room(room, num_items, &item_chances);
    place_drawn(monster_draws.as_slice(), item_draws.as_slice(), enemies, collectibles, map);
    proof {
        let md = monster_draws@;
        let id = item_draws@;
        assert(placed(md, id, map@, e0, enemies@, c0, collectibles@));
        lemma_kept_monsters_come_from_draws(md, map@, c0, e0);
        lemma_kept_items_come_from_draws(id, map@, c0, enemies@);
        let km = kept_monsters(md, map@, c0, e0);
        let ki = kept_items(id, map@, c0, enemies@);
        assert forall|k: int| e0.len() <= k < enemies@.len() implies {
            let e = #[trigger] enemies@[k];
            &&& is_new_monster(e)
            &&& in_interior(room, e.object.x as int, e.object.y as int)
            &&& !blocked_at(map@, c0, e.object.x as int, e.object.y as int)
        } by {
            let j = k - e0.len();
            assert(is_monster_of(enemies@[e0.len() + j], km[j]));
            let i = choose|i: int| 0 <= i < md.len() && md[i] == #[trigger] km[j];
            assert(in_interior(room, md[i].0 as int, md[i].1 as int));
        }
        assert forall|k: int| c0.len() <= k < collectibles@.len() implies {
            let o = #[trigger] collectibles@[k];
            &&& is_loot_at(o, o.x as int, o.y as int)
            &&& in_interior(room, o.x as int, o.y as int)
            &&& !spot_taken(map@, enemies@, c0, o.x as int, o.y as int)
        } by {
            let j = k - c0.len();
            assert(is_item_of(collectibles@[c0.len() + j], ki[j]));
            let i = choose|i: int| 0 <= i < id.len() && id[i] == #[trigger] ki[j];
            assert(in_interior(room, id[i].0 as int, id[i].1 as int));
        }
    }
}

/// The cell is a floor cell of the grid.
pub open spec fn floor_at(map: Seq<Vec<Tile>>, x: int, y: int) -> bool {
    0 <= x < map.len() && 0 <= y < map[x]@.len() && !map[x]@[y].blocked
}

/// The grid is one that `generate_layout` can return for the standard map
/// settings, with at least one room; `start` is the centre of the first room and
/// `stairs` the centre of the last.
pub open spec fn is_generated_level(map: Seq<Vec<Tile>>, start: (int, int), stairs: (int, int)) -> bool {
    exists|rooms: Seq<Rect>, bends: Seq<bool>|
        {
            &&& #[trigger] grid_matches(map, rooms, bends, MAP_WIDTH as int, MAP_HEIGHT as int)
            &&& rooms.len() >= 1 ==> rooms[0].spec_center() == start && rooms.last().spec_center() == stairs
            &&& 1 <= rooms.len() <= MAX_ROOMS
            &&& bends.len() == rooms.len()
            &&& crate::dungeon::pairwise_apart(rooms)
            &&& forall|i: int|
                0 <= i < rooms.len() ==> room_fits(
                    #[trigger] rooms[i],
                    MAP_WIDTH as int,
                    MAP_HEIGHT as int,
                    ROOM_MIN_SIZE as int,
                    ROOM_MAX_SIZE as int,
                )
        }
}

/// Room by room, the monster and item lists were built from empty lists: room `i`
/// turned `es[i]` and `cs[i]` into `es[i + 1]` and `cs[i + 1]` by the draws
/// `md[i]` and `id[i]`, which fit that room.
pub open spec fn populated(
    map: Seq<Vec<Tile>>,
    rooms: Seq<Rect>,
    md: Seq<Seq<Draw>>,
    id: Seq<Seq<Draw>>,
    es: Seq<Seq<Enemy>>,
    cs: Seq<Seq<Object>>,
) -> bool {
    &&& md.len() == rooms.len()
    &&& id.len() == rooms.len()
    &&& es.len() == rooms.len() + 1
    &&& cs.len() == rooms.len() + 1
    &&& es[0].len() == 0
    &&& cs[0].len() == 0
    &&& forall|i: int|
        0 <= i < rooms.len() ==> placed(#[trigger] md[i], id[i], map, es[i], es[i + 1], cs[i], cs[i + 1])
            && draws_fit(md[i], rooms[i], MAX_ROOM_MONSTERS as int, 2) && draws_fit(
            id[i],
            rooms[i],
            MAX_ROOM_ITEMS as int,
            4,
        )
}

/// The level was built from its rooms alone: the monsters are exactly those the
/// rooms' draws placed, and the items are those followed by the stairs at the
/// centre of the last room; nothing from before remains.
pub open spec fn built_from_rooms(map: Seq<Vec<Tile>>, player: Player, enemies: Seq<Enemy>, collectibles: Seq<Object>) -> bool {
    exists|rooms: Seq<Rect>, bends: Seq<bool>, md: Seq<Seq<Draw>>, id: Seq<Seq<Draw>>, es: Seq<Seq<Enemy>>, cs: Seq<Seq<Object>>|
        {
            &&& #[trigger] populated(map, rooms, md, id, es, cs)
            &&& #[trigger] grid_matches(map, rooms, bends, MAP_WIDTH as int, MAP_HEIGHT as int)
            &&& 1 <= rooms.len()
            &&& rooms[0].spec_center() == (player.object.x as int, player.object.y as int)
            &&& enemies == es[rooms.len() as int]
            &&& collectibles.len() == cs[rooms.len() as int].len() + 1
            &&& collectibles.drop_last() == cs[rooms.len() as int]
            &&& rooms.last().spec_center() == (collectibles.last().x as int, collectibles.last().y as int)
        }
}

/// A freshly populated level: a generated grid with the player at the centre of
/// the first room and the stairs at the centre of the last; the player, every
/// monster and every item stand on floor, no two monsters share a cell, the monsters are new orcs and trolls, and
/// the items are new consumables followed by the stairs.
pub open spec fn level_ready(map: Seq<Vec<Tile>>, player: Player, enemies: Seq<Enemy>, collectibles: Seq<Object>) -> bool {
    &&& has_size(map, MAP_WIDTH as int, MAP_HEIGHT as int)
    &&& built_from_rooms(map, player, enemies, collectibles)
    &&& collectibles.len() >= 1 ==> is_generated_level(
        map,
        (player.object.x as int, player.object.y as int),
        (collectibles.last().x as int, collectibles.last().y as int),
    )
    &&& floor_at(map, player.object.x as int, player.object.y as int)
    &&& forall|k: int|
        0 <= k < enemies.len() ==> is_new_monster(#[trigger] enemies[k]) && floor_at(
            map,
            enemies[k].object.x as int,
            enemies[k].object.y as int,
        )
    &&& blockers_apart(enemies)
    &&& collectibles.len() >= 1
    &&& {
        let s = collectibles.last();
        &&& s.is_ground_object(s.x as int, s.y as int, '<', Color::White, "stairs"@, None, None)
        &&& floor_at(map, s.x as int, s.y as int)
    }
    &&& forall|k: int|
        0 <= k < collectibles.len() - 1 ==> is_loot_at(
            #[trigger] collectibles[k],
            collectibles[k].x as int,
            collectibles[k].y as int,
        ) && floor_at(map, collectibles[k].x as int, collectibles[k].y as int)
}

/// The centre of a room at least two cells wide and high is inside it.
proof fn lemma_center_in_interior(r: Rect)
    requires
        0 <= r.x1,
        0 <= r.y1,
        r.x1 + 2 <= r.x2,
        r.y1 + 2 <= r.y2,
    ensures
        in_interior(r, r.spec_center().0, r.spec_center().1),
{
    assert(r.x1 < (r.x1 + r.x2) / 2 < r.x2) by (nonlinear_arith)
        requires
            0 <= r.x1,
            r.x1 + 2 <= r.x2,
    ;
    assert(r.y1 < (r.y1 + r.y2) / 2 < r.y2) by (nonlinear_arith)
        requires
            0 <= r.y1,
            r.y1 + 2 <= r.y2,
    ;
}

/// A cell inside an accepted room is floor.
proof fn lemma_interior_is_floor(map: Seq<Vec<Tile>>, rooms: Seq<Rect>, bends: Seq<bool>, i: int, x: int, y: int)
    requires
        grid_matches(map, rooms, bends, MAP_WIDTH as int, MAP_HEIGHT as int),
        0 <= i < rooms.len(),
        room_fits(rooms[i], MAP_WIDTH as int, MAP_HEIGHT as int, ROOM_MIN_SIZE as int, ROOM_MAX_SIZE as int),
        in_interior(rooms[i], x, y),
    ensures
        floor_at(map, x, y),
{
    assert(in_some_room(rooms, x, y));
    assert(carved(rooms, bends, x, y));
    assert(map[x]@[y] == Tile::floor());
}

/// Builds a new level: generates the grid, populates each room in turn, puts the
/// player at the centre of the first room and the stairs at the centre of the
/// last one.
fn make_map(player: &mut Player, enemies: &mut Vec<Enemy>, collectibles: &mut Vec<Object>) -> (map: DungeonMap)
    ensures
        level_ready(map@, *final(player), final(enemies)@, final(collectibles)@),
        final(player).object == (Object { x: final(player).object.x, y: final(player).object.y, ..old(player).object }),
        final(player).level == old(player).level,
{
    collectibles.clear();
    enemies.clear();
    let layout = generate_layout(MAP_WIDTH, MAP_HEIGHT, MAX_ROOMS, ROOM_MIN_SIZE, ROOM_MAX_SIZE);
    let Layout { map, rooms, bends } = layout;
    let ghost mut md: Seq<Seq<Draw>> = Seq::empty();
    let ghost mut id: Seq<Seq<Draw>> = Seq::empty();
    let ghost mut es: Seq<Seq<Enemy>> = seq![enemies@];
    let ghost mut cs: Seq<Seq<Object>> = seq![collectibles@];
    let mut i: usize = 0;
    while i < rooms.len()
        invariant
            0 <= i <= rooms@.len(),
            populated(map@, rooms@.subrange(0, i as int), md, id, es, cs),
            es[i as int] == enemies@,
            cs[i as int] == collectibles@,
            grid_matches(map@, rooms@, bends@, MAP_WIDTH as int, MAP_HEIGHT as int),
            forall|j: int|
                0 <= j < rooms@.len() ==> room_fits(
                    #[trigger] rooms@[j],
                    MAP_WIDTH as int,
                    MAP_HEIGHT as int,
                    ROOM_MIN_SIZE as int,
                    ROOM_MAX_SIZE as int,
                ),
            forall|k: int|
                0 <= k < enemies@.len() ==> is_new_monster(#[trigger] enemies@[k]) && floor_at(
                    map@,
                    enemies@[k].object.x as int,
                    enemies@[k].object.y as int,
                ),
            blockers_apart(enemies@),
            forall|k: int|
                0 <= k < collectibles@.len() ==> is_loot_at(
                    #[trigger] collectibles@[k],
                    collectibles@[k].x as int,
                    collectibles@[k].y as int,
                ) && floor_at(map@, collectibles@[k].x as int, collectibles@[k].y as int),
        decreases rooms@.len() - i,
    {
        let room = rooms[i];
        let ghost e0 = enemies@;
        let ghost c0 = collectibles@;
        place_objects(room, enemies, collectibles, &map);
        proof {
            let (m, d) = choose|m: Seq<Draw>, d: Seq<Draw>|
                #[trigger] placed(m, d, map@, e0, enemies@, c0, collectibles@) && draws_fit(
                    m,
                    room,
                    MAX_ROOM_MONSTERS as int,
                    2,
                ) && draws_fit(d, room, MAX_ROOM_ITEMS as int, 4);
            let old_md = md;
            let old_id = id;
            let old_es = es;
            let old_cs = cs;
            md = md.push(m);
            id = id.push(d);
            es = es.push(enemies@);
            cs = cs.push(collectibles@);
            let r2 = rooms@.subrange(0, i + 1);
            assert forall|j: int| 0 <= j < r2.len() implies placed(#[trigger] md[j], id[j], map@, es[j], es[j + 1], cs[j], cs[j + 1])
                && draws_fit(md[j], r2[j], MAX_ROOM_MONSTERS as int, 2) && draws_fit(
                id[j],
                r2[j],
                MAX_ROOM_ITEMS as int,
                4,
            ) by {
                if j < i {
                    assert(md[j] == old_md[j]);
                    assert(rooms@.subrange(0, i as int)[j] == r2[j]);
                }
            }
        }
        assert forall|k: int| 0 <= k < enemies@.len() implies is_new_monster(#[trigger] enemies@[k]) && floor_at(
            map@,
            enemies@[k].object.x as int,
            enemies@[k].object.y as int,
        ) by {
            if k < e0.len() {
                assert(enemies@.subrange(0, e0.len() as int)[k] == enemies@[k]);
            } else {
                lemma_interior_is_floor(
                    map@,
                    rooms@,
                    bends@,
                    i as int,
                    enemies@[k].object.x as int,
                    enemies@[k].object.y as int,
                );
            }
        }
        assert forall|k: int| 0 <= k < collectibles@.len() implies is_loot_at(
            #[trigger] collectibles@[k],
            collectibles@[k].x as int,
            collectibles@[k].y as int,
        ) && floor_at(map@, collectibles@[k].x as int, collectibles@[k].y as int) by {
            if k < c0.len() {
                assert(collectibles@.subrange(0, c0.len() as int)[k] == collectibles@[k]);
            } else {
                lemma_interior_is_floor(map@, rooms@, bends@, i as int, collectibles@[k].x as int, collectibles@[k].y as int);
            }
        }
        i += 1;
    }
    // the player starts at the centre of the first room
    let first = rooms[0];
    let (start_x, start_y) = first.center();
    proof {
        lemma_center_in_interior(first);
        lemma_interior_is_floor(map@, rooms@, bends@, 0, start_x as int, start_y as int);
    }
    player.set_pos(start_x, start_y);
    // create stairs at the centre of the last room
    let last = rooms[rooms.len() - 1];
    let (stairs_x, stairs_y) = last.center();
    proof {
        lemma_center_in_interior(last);
        lemma_interior_is_floor(map@, rooms@, bends@, rooms@.len() - 1, stairs_x as int, stairs_y as int);
    }
    let ghost c1 = collectibles@;
    collectibles.push(Object::create_stair(stairs_x, stairs_y));
    assert(rooms@.subrange(0, rooms@.len() as int) =~= rooms@);
    assert(built_from_rooms(map@, *player, enemies@, collectibles@)) by {
        assert(populated(map@, rooms@, md, id, es, cs));
        assert(grid_matches(map@, rooms@, bends@, MAP_WIDTH as int, MAP_HEIGHT as int));
        assert(enemies@ == es[rooms@.len() as int]);
        assert(c1 == cs[rooms@.len() as int]);
        assert(collectibles@.drop_last() == cs[rooms@.len() as int]);
        assert(rooms@[0].spec_center() == (player.object.x as int, player.object.y as int));
        assert(rooms@.last().spec_center() == (collectibles@.last().x as int, collectibles@.last().y as int));
    }
    assert(collectibles@.drop_last() == c1);
    assert(is_generated_level(map@, (start_x as int, start_y as int), (stairs_x as int, stairs_y as int))) by {
        assert(grid_matches(map@, rooms@, bends@, MAP_WIDTH as int, MAP_HEIGHT as int));
    }
    assert forall|k: int| 0 <= k < collectibles@.len() - 1 implies is_loot_at(
        #[trigger] collectibles@[k],
        collectibles@[k].x as int,
        collectibles@[k].y as int,
    ) && floor_at(map@, collectibles@[k].x as int, collectibles@[k].y as int) by {
        assert(collectibles@[k] == c1[k]);
    }
    map
}

impl Game {
    pub fn new(player: &mut Player, enemies: &mut Vec<Enemy>, collectibles: &mut Vec<Object>) -> (g: Self)
        ensures
            level_ready(g.map@, *final(player), final(enemies)@, final(collectibles)@),
            final(player).object == (Object { x: final(player).object.x, y: final(player).object.y, ..old(player).object }),
            final(player).level == old(player).level,
            g.messages@.len() == 0,
            g.inventory@.len() == 0,
            g.dungeon_level == 1,
    {
        Game { map: make_map(player, enemies, collectibles), messages: Messages::new(), inventory: Vec::new(), dungeon_level: 1 }
    }
}

/// Starts a game on a fresh level, with a new player and a welcome message.
pub fn new_game() -> (r: (Game, Player, Vec<Enemy>, Vec<Object>))
    ensures
        level_ready(r.0.map@, r.1, r.2@, r.3@),
        r.0.messages@ == seq![("Welcome stranger! Prepare to perish in the Tombs of the Ancient Kings."@, Color::Red)],
        r.0.inventory@.len() == 0,
        r.0.dungeon_level == 1,
        r.1.level == 1,
        r.1.object.fighter == Some(crate::player::starting_stats()),
        r.1.object.alive,
        r.1.object.name@ == "player"@,
{
    // create object representing the player
    let mut player = Player::new(0, 0);
    let mut enemies: Vec<Enemy> = Vec::new();
    let mut collectibles: Vec<Object> = Vec::new();
    let mut game = Game::new(&mut player, &mut enemies, &mut collectibles);
    // a warm welcoming message!
    game.messages.add("Welcome stranger! Prepare to perish in the Tombs of the Ancient Kings.", Color::Red);
    assert(game.messages@ =~= seq![("Welcome stranger! Prepare to perish in the Tombs of the Ancient Kings."@, Color::Red)]);
    (game, player, enemies, collectibles)
}

/// Half of the maximum hit points, rounded toward zero.
pub open spec fn rest_heal(f: Option<Fighter>) -> int {
    match f {
        Some(f) => crate::rect::half_toward_zero(f.max_hp as int),
        None => 0,
    }
}

/// What going down a level did: two lines are logged, the depth grows by one
/// (up to `u32::MAX`), the player is healed by half its maximum hit points and
/// placed on a freshly populated level; the inventory is kept.
pub open spec fn descend_outcome(
    old_game: Game,
    new_game: Game,
    old_p: Player,
    new_p: Player,
    enemies: Seq<Enemy>,
    collectibles: Seq<Object>,
) -> bool {
    &&& level_ready(new_game.map@, new_p, enemies, collectibles)
    &&& new_game.inventory == old_game.inventory
    &&& new_game.dungeon_level == (if old_game.dungeon_level < u32::MAX {
        old_game.dungeon_level + 1
    } else {
        old_game.dungeon_level as int
    })
    &&& new_game.messages@ == old_game.messages@.push(
        ("You take a moment to rest, and recover your strength."@, Color::Violet),
    ).push(("After a rare moment of peace, you descend deeper into the heart of the dungeon..."@, Color::Red))
    &&& new_p.level == old_p.level
    &&& new_p.object == (Object {
        x: new_p.object.x,
        y: new_p.object.y,
        fighter: match old_p.object.fighter {
            Some(f) => Some(f.spec_after_heal(rest_heal(old_p.object.fighter))),
            None => None,
        },
        ..old_p.object
    })
}

/// Goes down to the next level: the player rests, healing half of its maximum
/// hit points, and a new level is generated one deeper.
pub fn next_level(game: &mut Game, player: &mut Player, enemies: &mut Vec<Enemy>, collectibles: &mut Vec<Object>)
    ensures
        descend_outcome(*old(game), *final(game), *old(player), *final(player), final(enemies)@, final(collectibles)@),
{
    game.messages.add("You take a moment to rest, and recover your strength.", Color::Violet);
    let heal_hp = match player.object.fighter {
        Some(f) => f.max_hp / 2,
        None => 0,
    };
    player.heal(heal_hp);
    game.messages.add(
        "After a rare moment of peace, you descend deeper into the heart of the dungeon...",
        Color::Red,
    );
    if game.dungeon_level < u32::MAX {
        game.dungeon_level += 1;
    }
    game.map = make_map(player, enemies, collectibles);
}

} // verus!
