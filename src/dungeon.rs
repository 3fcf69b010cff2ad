use crate::game::DungeonMap;
use crate::random::{coin_flip, random_range};
use crate::rect::Rect;
use crate::tile::Tile;
use vstd::prelude::*;

verus! {

/// The cell is inside the room, off its outer ring of wall.
pub open spec fn in_interior(r: Rect, x: int, y: int) -> bool {
    r.x1 < x < r.x2 && r.y1 < y < r.y2
}

/// The cell is on the outer ring of the room.
pub open spec fn on_ring(r: Rect, x: int, y: int) -> bool {
    r.x1 <= x <= r.x2 && r.y1 <= y <= r.y2 && !in_interior(r, x, y)
}

pub open spec fn between(a: int, b: int, v: int) -> bool {
    (a <= v <= b) || (b <= v <= a)
}

/// The cell is on the horizontal tunnel from `x1` to `x2` at row `y`.
pub open spec fn on_h_tunnel(x1: int, x2: int, y: int, cx: int, cy: int) -> bool {
    cy == y && between(x1, x2, cx)
}

/// The cell is on the vertical tunnel from `y1` to `y2` at column `x`.
pub open spec fn on_v_tunnel(y1: int, y2: int, x: int, cx: int, cy: int) -> bool {
    cx == x && between(y1, y2, cy)
}

/// The cell is on the L-shaped tunnel from the centre of `prev` to the centre of
/// `next`, which bends after its horizontal leg when `horizontal_first` holds.
pub open spec fn on_connection(prev: Rect, next: Rect, horizontal_first: bool, x: int, y: int) -> bool {
    let (px, py) = prev.spec_center();
    let (nx, ny) = next.spec_center();
    if horizontal_first {
        on_h_tunnel(px, nx, py, x, y) || on_v_tunnel(py, ny, nx, x, y)
    } else {
        on_v_tunnel(py, ny, px, x, y) || on_h_tunnel(px, nx, ny, x, y)
    }
}

/// The cell is on the tunnel that leads into room `i` from room `i - 1`.
pub open spec fn on_tunnel_into(rooms: Seq<Rect>, bends: Seq<bool>, i: int, x: int, y: int) -> bool {
    1 <= i < rooms.len() && on_connection(rooms[i - 1], rooms[i], bends[i], x, y)
}

/// The cell is on some tunnel.
pub open spec fn on_some_tunnel(rooms: Seq<Rect>, bends: Seq<bool>, x: int, y: int) -> bool {
    exists|i: int| #[trigger] on_tunnel_into(rooms, bends, i, x, y)
}

/// The cell is inside some room.
pub open spec fn in_some_room(rooms: Seq<Rect>, x: int, y: int) -> bool {
    exists|i: int| 0 <= i < rooms.len() && #[trigger] in_interior(rooms[i], x, y)
}

/// The cell was dug out: it is inside a room or on a tunnel.
pub open spec fn carved(rooms: Seq<Rect>, bends: Seq<bool>, x: int, y: int) -> bool {
    in_some_room(rooms, x, y) || on_some_tunnel(rooms, bends, x, y)
}

/// The grid has `width` columns of `height` cells.
pub open spec fn has_size(map: Seq<Vec<Tile>>, width: int, height: int) -> bool {
    &&& map.len() == width
    &&& forall|x: int| 0 <= x < width ==> (#[trigger] map[x])@.len() == height
}

/// The room lies on a `width` by `height` grid and its sides are within the bounds.
pub open spec fn room_fits(r: Rect, width: int, height: int, min_size: int, max_size: int) -> bool {
    &&& 0 <= r.x1 && r.x2 < width
    &&& 0 <= r.y1 && r.y2 < height
    &&& min_size <= r.x2 - r.x1 <= max_size
    &&& min_size <= r.y2 - r.y1 <= max_size
}

/// No two rooms intersect.
pub open spec fn pairwise_apart(rooms: Seq<Rect>) -> bool {
    forall|i: int, j: int|
        0 <= i < rooms.len() && 0 <= j < rooms.len() && i != j ==> !(#[trigger] rooms[i]).spec_intersects(
            #[trigger] rooms[j],
        )
}

/// Every cell is floor where it was carved and wall elsewhere.
pub open spec fn grid_matches(map: Seq<Vec<Tile>>, rooms: Seq<Rect>, bends: Seq<bool>, width: int, height: int) -> bool {
    &&& has_size(map, width, height)
    &&& forall|x: int, y: int|
        0 <= x < width && 0 <= y < height ==> (#[trigger] map[x]@[y]) == (if carved(rooms, bends, x, y) {
            Tile::floor()
        } else {
            Tile::solid()
        })
}

/// A generated level before it is populated: the grid, the accepted rooms in the
/// order they were accepted, and for each room but the first whether the tunnel
/// into it went horizontally first (`bends[0]` is unused).
pub struct Layout {
    pub map: DungeonMap,
    pub rooms: Vec<Rect>,
    pub bends: Vec<bool>,
}

/// A grid of the given size, all wall.
pub fn solid_map(width: i32, height: i32) -> (map: DungeonMap)
    requires
        width >= 0,
        height >= 0,
    ensures
        has_size(map@, width as int, height as int),
        forall|x: int, y: int| 0 <= x < width && 0 <= y < height ==> #[trigger] map@[x]@[y] == Tile::solid(),
{
    let mut map: DungeonMap = Vec::new();
    let mut x: i32 = 0;
    while x < width
        invariant
            0 <= x <= width,
            height >= 0,
            map@.len() == x,
            forall|i: int| 0 <= i < x ==> (#[trigger] map@[i])@.len() == height,
            forall|i: int, y: int| 0 <= i < x && 0 <= y < height ==> #[trigger] map@[i]@[y] == Tile::solid(),
        decreases width - x,
    {
        let mut column: Vec<Tile> = Vec::new();
        let mut y: i32 = 0;
        while y < height
            invariant
                0 <= y <= height,
                height >= 0,
                column@.len() == y,
                forall|j: int| 0 <= j < y ==> #[trigger] column@[j] == Tile::solid(),
            decreases height - y,
        {
            column.push(Tile::wall());
            y += 1;
        }
        map.push(column);
        x += 1;
    }
    map
}

/// Turns one cell into floor.
fn dig(map: &mut DungeonMap, x: usize, y: usize)
    requires
        x < old(map)@.len(),
        y < old(map)@[x as int]@.len(),
    ensures
        final(map)@.len() == old(map)@.len(),
        forall|i: int| 0 <= i < old(map)@.len() ==> (#[trigger] final(map)@[i])@.len() == old(map)@[i]@.len(),
        forall|i: int, j: int|
            0 <= i < old(map)@.len() && 0 <= j < old(map)@[i]@.len() ==> #[trigger] final(map)@[i]@[j] == (if i
                == x && j == y {
                Tile::floor()
            } else {
                old(map)@[i]@[j]
            }),
{
    let column = &mut map[x];
    column.set(y, Tile::empty());
}

/// Digs out the inside of a room, leaving its outer ring as it was.
pub fn create_room(room: Rect, map: &mut DungeonMap)
    requires
        -1 <= room.x1 < room.x2 <= old(map)@.len(),
        -1 <= room.y1 < room.y2,
        forall|x: int| 0 <= x < old(map)@.len() ==> room.y2 <= (#[trigger] old(map)@[x])@.len(),
    ensures
        final(map)@.len() == old(map)@.len(),
        forall|i: int| 0 <= i < old(map)@.len() ==> (#[trigger] final(map)@[i])@.len() == old(map)@[i]@.len(),
        forall|i: int, j: int|
            0 <= i < old(map)@.len() && 0 <= j < old(map)@[i]@.len() ==> #[trigger] final(map)@[i]@[j] == (
            if in_interior(room, i, j) {
                Tile::floor()
            } else {
                old(map)@[i]@[j]
            }),
{
    let mut x: i32 = room.x1 + 1;
    while x < room.x2
        invariant
            -1 <= room.x1 < x <= room.x2 <= map@.len(),
            -1 <= room.y1 < room.y2,
            map@.len() == old(map)@.len(),
            forall|i: int| 0 <= i < old(map)@.len() ==> room.y2 <= (#[trigger] old(map)@[i])@.len(),
            forall|i: int| 0 <= i < old(map)@.len() ==> (#[trigger] map@[i])@.len() == old(map)@[i]@.len(),
            forall|i: int, j: int|
                0 <= i < old(map)@.len() && 0 <= j < old(map)@[i]@.len() ==> #[trigger] map@[i]@[j] == (
                if in_interior(room, i, j) && i < x {
                    Tile::floor()
                } else {
                    old(map)@[i]@[j]
                }),
        decreases room.x2 - x,
    {
        let mut y: i32 = room.y1 + 1;
        while y < room.y2
            invariant
                -1 <= room.x1 < x < room.x2 <= map@.len(),
                -1 <= room.y1 < y <= room.y2,
                map@.len() == old(map)@.len(),
                forall|i: int| 0 <= i < old(map)@.len() ==> room.y2 <= (#[trigger] old(map)@[i])@.len(),
                forall|i: int| 0 <= i < old(map)@.len() ==> (#[trigger] map@[i])@.len() == old(map)@[i]@.len(),
                forall|i: int, j: int|
                    0 <= i < old(map)@.len() && 0 <= j < old(map)@[i]@.len() ==> #[trigger] map@[i]@[j] == (
                    if in_interior(room, i, j) && (i < x || (i == x && j < y)) {
                        Tile::floor()
                    } else {
                        old(map)@[i]@[j]
                    }),
            decreases room.y2 - y,
        {
            dig(map, x as usize, y as usize);
            y += 1;
        }
        x += 1;
    }
}

/// Digs the horizontal tunnel between columns `x1` and `x2`, both included, at row `y`.
pub fn create_h_tunnel(x1: i32, x2: i32, y: i32, map: &mut DungeonMap)
    requires
        0 <= x1 < old(map)@.len(),
        0 <= x2 < old(map)@.len(),
        0 <= y,
        forall|x: int| 0 <= x < old(map)@.len() ==> y < (#[trigger] old(map)@[x])@.len(),
    ensures
        final(map)@.len() == old(map)@.len(),
        forall|i: int| 0 <= i < old(map)@.len() ==> (#[trigger] final(map)@[i])@.len() == old(map)@[i]@.len(),
        forall|i: int, j: int|
            0 <= i < old(map)@.len() && 0 <= j < old(map)@[i]@.len() ==> #[trigger] final(map)@[i]@[j] == (
            if on_h_tunnel(x1 as int, x2 as int, y as int, i, j) {
                Tile::floor()
            } else {
                old(map)@[i]@[j]
            }),
{
    let lo = if x1 < x2 { x1 } else { x2 };
    let hi = if x1 < x2 { x2 } else { x1 };
    let mut x: i64 = lo as i64;
    while x <= hi as i64
        invariant
            lo <= x <= hi + 1,
            0 <= lo,
            hi < map@.len(),
            lo == (if x1 < x2 { x1 } else { x2 }),
            hi == (if x1 < x2 { x2 } else { x1 }),
            0 <= y,
            map@.len() == old(map)@.len(),
            forall|i: int| 0 <= i < old(map)@.len() ==> y < (#[trigger] old(map)@[i])@.len(),
            forall|i: int| 0 <= i < old(map)@.len() ==> (#[trigger] map@[i])@.len() == old(map)@[i]@.len(),
            forall|i: int, j: int|
                0 <= i < old(map)@.len() && 0 <= j < old(map)@[i]@.len() ==> #[trigger] map@[i]@[j] == (
                if j == y && lo <= i < x {
                    Tile::floor()
                } else {
                    old(map)@[i]@[j]
                }),
        decreases hi + 1 - x,
    {
        dig(map, x as usize, y as usize);
        x += 1;
    }
}

/// Digs the vertical tunnel between rows `y1` and `y2`, both included, at column `x`.
pub fn create_v_tunnel(y1: i32, y2: i32, x: i32, map: &mut DungeonMap)
    requires
        0 <= x < old(map)@.len(),
        0 <= y1 < old(map)@[x as int]@.len(),
        0 <= y2 < old(map)@[x as int]@.len(),
    ensures
        final(map)@.len() == old(map)@.len(),
        forall|i: int| 0 <= i < old(map)@.len() ==> (#[trigger] final(map)@[i])@.len() == old(map)@[i]@.len(),
        forall|i: int, j: int|
            0 <= i < old(map)@.len() && 0 <= j < old(map)@[i]@.len() ==> #[trigger] final(map)@[i]@[j] == (
            if on_v_tunnel(y1 as int, y2 as int, x as int, i, j) {
                Tile::floor()
            } else {
                old(map)@[i]@[j]
            }),
{
    let lo = if y1 < y2 { y1 } else { y2 };
    let hi = if y1 < y2 { y2 } else { y1 };
    let mut y: i64 = lo as i64;
    while y <= hi as i64
        invariant
            lo <= y <= hi + 1,
            0 <= lo,
            0 <= x < map@.len(),
            hi < old(map)@[x as int]@.len(),
            lo == (if y1 < y2 { y1 } else { y2 }),
            hi == (if y1 < y2 { y2 } else { y1 }),
            map@.len() == old(map)@.len(),
            forall|i: int| 0 <= i < old(map)@.len() ==> (#[trigger] map@[i])@.len() == old(map)@[i]@.len(),
            forall|i: int, j: int|
                0 <= i < old(map)@.len() && 0 <= j < old(map)@[i]@.len() ==> #[trigger] map@[i]@[j] == (
                if i == x && lo <= j < y {
                    Tile::floor()
                } else {
                    old(map)@[i]@[j]
                }),
        decreases hi + 1 - y,
    {
        dig(map, x as usize, y as usize);
        y += 1;
    }
}

/// Accepting one more room, with its tunnel, carves exactly the cells of that
/// room and of that tunnel besides those carved before.
proof fn lemma_carved_push(rooms: Seq<Rect>, bends: Seq<bool>, r: Rect, b: bool, x: int, y: int)
    requires
        bends.len() == rooms.len(),
    ensures
        carved(rooms.push(r), bends.push(b), x, y) == (carved(rooms, bends, x, y) || in_interior(r, x, y) || (
        rooms.len() >= 1 && on_connection(rooms.last(), r, b, x, y))),
{
    let rooms2 = rooms.push(r);
    let bends2 = bends.push(b);
    let n = rooms.len() as int;
    if in_some_room(rooms2, x, y) {
        let i = choose|i: int| 0 <= i < rooms2.len() && #[trigger] in_interior(rooms2[i], x, y);
        if i < n {
            assert(in_interior(rooms[i], x, y));
        }
    }
    if in_some_room(rooms, x, y) {
        let i = choose|i: int| 0 <= i < rooms.len() && #[trigger] in_interior(rooms[i], x, y);
        assert(in_interior(rooms2[i], x, y));
    }
    if in_interior(r, x, y) {
        assert(in_interior(rooms2[n], x, y));
    }
    if on_some_tunnel(rooms2, bends2, x, y) {
        let i = choose|i: int| #[trigger] on_tunnel_into(rooms2, bends2, i, x, y);
        if i < n {
            assert(on_tunnel_into(rooms, bends, i, x, y));
        }
    }
    if on_some_tunnel(rooms, bends, x, y) {
        let i = choose|i: int| #[trigger] on_tunnel_into(rooms, bends, i, x, y);
        assert(on_tunnel_into(rooms2, bends2, i, x, y));
    }
    if rooms.len() >= 1 && on_connection(rooms.last(), r, b, x, y) {
        assert(on_tunnel_into(rooms2, bends2, n, x, y));
    }
}

/// The centre of a room that fits lies on the grid, inside the room's bounds.
proof fn lemma_center_inside(r: Rect, width: int, height: int, min_size: int, max_size: int)
    requires
        room_fits(r, width, height, min_size, max_size),
        0 < min_size,
    ensures
        r.x1 <= r.spec_center().0 <= r.x2,
        r.y1 <= r.spec_center().1 <= r.y2,
{
    assert(r.x1 <= (r.x1 + r.x2) / 2 <= r.x2) by (nonlinear_arith)
        requires
            0 <= r.x1 <= r.x2,
    ;
    assert(r.y1 <= (r.y1 + r.y2) / 2 <= r.y2) by (nonlinear_arith)
        requires
            0 <= r.y1 <= r.y2,
    ;
}

/// The room clashes with one of `rooms`.
pub open spec fn clashes(r: Rect, rooms: Seq<Rect>) -> bool {
    exists|i: int| 0 <= i < rooms.len() && r.spec_intersects(#[trigger] rooms[i])
}

/// The candidates kept, in order: each is kept unless it intersects one kept
/// before it.
pub open spec fn accepted(cands: Seq<Rect>) -> Seq<Rect>
    decreases cands.len(),
{
    if cands.len() == 0 {
        Seq::empty()
    } else {
        let acc = accepted(cands.drop_last());
        if clashes(cands.last(), acc) {
            acc
        } else {
            acc.push(cands.last())
        }
    }
}

/// For each kept candidate, the coin tossed for it; the first kept room has no
/// tunnel and gets `false`.
pub open spec fn accepted_bends(cands: Seq<Rect>, flips: Seq<bool>) -> Seq<bool>
    decreases cands.len(),
{
    if cands.len() == 0 {
        Seq::empty()
    } else {
        let acc = accepted(cands.drop_last());
        let bs = accepted_bends(cands.drop_last(), flips);
        if clashes(cands.last(), acc) {
            bs
        } else {
            bs.push(if acc.len() == 0 { false } else { flips[cands.len() - 1] })
        }
    }
}

/// The rooms and bends are what the greedy filter keeps of the candidates.
pub open spec fn greedy_layout(cands: Seq<Rect>, flips: Seq<bool>, rooms: Seq<Rect>, bends: Seq<bool>) -> bool {
    rooms == accepted(cands) && bends == accepted_bends(cands, flips)
}

/// Builds a level from drawn candidate rooms and coin tosses: on a grid of wall
/// each candidate in turn is dropped when it intersects a room kept before, else
/// its inside is dug out and an L-shaped tunnel, bending as its coin says, joins
/// its centre to the centre of the previous kept room.
pub fn build_layout(width: i32, height: i32, min_size: i32, max_size: i32, candidates: &[Rect], flips: &[bool]) -> (l: Layout)
    requires
        0 < min_size <= max_size,
        0 <= width,
        0 <= height,
        flips@.len() == candidates@.len(),
        forall|i: int|
            0 <= i < candidates@.len() ==> room_fits(
                #[trigger] candidates@[i],
                width as int,
                height as int,
                min_size as int,
                max_size as int,
            ),
    ensures
        greedy_layout(candidates@, flips@, l.rooms@, l.bends@),
        grid_matches(l.map@, l.rooms@, l.bends@, width as int, height as int),
        l.bends@.len() == l.rooms@.len(),
        l.rooms@.len() <= candidates@.len(),
        candidates@.len() > 0 ==> l.rooms@.len() >= 1,
        pairwise_apart(l.rooms@),
        forall|i: int|
            0 <= i < l.rooms@.len() ==> room_fits(#[trigger] l.rooms@[i], width as int, height as int, min_size as int, max_size as int),
{
    let mut map = solid_map(width, height);
    let mut rooms: Vec<Rect> = Vec::new();
    let mut bends: Vec<bool> = Vec::new();
    let ghost cands = candidates@;
    let mut k: usize = 0;
    assert forall|x: int, y: int| 0 <= x < width && 0 <= y < height implies (#[trigger] map@[x]@[y]) == (if carved(rooms@, bends@, x, y) {
        Tile::floor()
    } else {
        Tile::solid()
    }) by {}
    assert(cands.subrange(0, 0) =~= Seq::<Rect>::empty());
    while k < candidates.len()
        invariant
            0 < min_size <= max_size,
            0 <= k <= cands.len(),
            cands == candidates@,
            flips@.len() == cands.len(),
            forall|i: int|
                0 <= i < cands.len() ==> room_fits(#[trigger] cands[i], width as int, height as int, min_size as int, max_size as int),
            rooms@ == accepted(cands.subrange(0, k as int)),
            bends@ == accepted_bends(cands.subrange(0, k as int), flips@),
            grid_matches(map@, rooms@, bends@, width as int, height as int),
            bends@.len() == rooms@.len(),
            rooms@.len() <= k,
            k > 0 ==> rooms@.len() >= 1,
            pairwise_apart(rooms@),
            forall|i: int|
                0 <= i < rooms@.len() ==> room_fits(#[trigger] rooms@[i], width as int, height as int, min_size as int, max_size as int),
        decreases cands.len() - k,
    {
        let new_room = candidates[k];
        assert(cands.subrange(0, k + 1).drop_last() =~= cands.subrange(0, k as int));
        assert(cands.subrange(0, k + 1).last() == new_room);
        assert(room_fits(new_room, width as int, height as int, min_size as int, max_size as int));
        // run through the other rooms and see if they intersect with this one
        let mut failed = false;
        let mut j: usize = 0;
        while j < rooms.len()
            invariant
                0 <= j <= rooms@.len(),
                failed ==> rooms@.len() > 0,
                failed <==> exists|i: int| 0 <= i < j && new_room.spec_intersects(#[trigger] rooms@[i]),
            decreases rooms@.len() - j,
        {
            if new_room.intersects_with(&rooms[j]) {
                failed = true;
            }
            j += 1;
        }

        if !failed {
            let ghost old_map = map@;
            let ghost old_rooms = rooms@;
            let ghost old_bends = bends@;
            // "paint" it to the map's tiles
            create_room(new_room, &mut map);
            let ghost room_map = map@;
            let (new_x, new_y) = new_room.center();
            proof {
                lemma_center_inside(new_room, width as int, height as int, min_size as int, max_size as int);
            }
            if rooms.len() == 0 {
                bends.push(false);
                proof {
                    assert forall|cx: int, cy: int| 0 <= cx < width && 0 <= cy < height implies (#[trigger] map@[cx]@[cy])
                        == (if carved(old_rooms.push(new_room), bends@, cx, cy) {
                        Tile::floor()
                    } else {
                        Tile::solid()
                    }) by {
                        lemma_carved_push(old_rooms, old_bends, new_room, false, cx, cy);
                    }
                }
            } else {
                // centre of the previous room
                let prev = rooms[rooms.len() - 1];
                let (prev_x, prev_y) = prev.center();
                proof {
                    lemma_center_inside(prev, width as int, height as int, min_size as int, max_size as int);
                }
                // the coin tossed for the way the tunnel bends
                let horizontal_first = flips[k];
                if horizontal_first {
                    create_h_tunnel(prev_x, new_x, prev_y, &mut map);
                    create_v_tunnel(prev_y, new_y, new_x, &mut map);
                } else {
                    create_v_tunnel(prev_y, new_y, prev_x, &mut map);
                    create_h_tunnel(prev_x, new_x, new_y, &mut map);
                }
                bends.push(horizontal_first);
                proof {
                    assert forall|cx: int, cy: int| 0 <= cx < width && 0 <= cy < height implies (#[trigger] map@[cx]@[cy])
                        == (if carved(old_rooms.push(new_room), bends@, cx, cy) {
                        Tile::floor()
                    } else {
                        Tile::solid()
                    }) by {
                        lemma_carved_push(old_rooms, old_bends, new_room, horizontal_first, cx, cy);
                    }
                }
            }
            rooms.push(new_room);
            assert(rooms@ == old_rooms.push(new_room));
        }
        k += 1;
    }
    assert(cands.subrange(0, k as int) =~= cands);
    Layout { map, rooms, bends }
}

/// Generates a level: `max_rooms` candidate rooms with sides drawn from
/// `[min_size, max_size]`, each placed at random on the grid, and a coin toss for
/// each, are handed to `build_layout`.
pub fn generate_layout(width: i32, height: i32, max_rooms: i32, min_size: i32, max_size: i32) -> (l: Layout)
    requires
        0 < min_size <= max_size,
        max_size < width,
        max_size < height,
    ensures
        exists|cands: Seq<Rect>, flips: Seq<bool>|
            #[trigger] greedy_layout(cands, flips, l.rooms@, l.bends@) && cands.len() == (if max_rooms > 0 {
                max_rooms as int
            } else {
                0
            }) && flips.len() == cands.len() && forall|i: int|
                0 <= i < cands.len() ==> room_fits(
                    #[trigger] cands[i],
                    width as int,
                    height as int,
                    min_size as int,
                    max_size as int,
                ),
        grid_matches(l.map@, l.rooms@, l.bends@, width as int, height as int),
        l.bends@.len() == l.rooms@.len(),
        l.rooms@.len() <= (if max_rooms > 0 { max_rooms as int } else { 0 }),
        max_rooms > 0 ==> l.rooms@.len() >= 1,
        pairwise_apart(l.rooms@),
        forall|i: int|
            0 <= i < l.rooms@.len() ==> room_fits(#[trigger] l.rooms@[i], width as int, height as int, min_size as int, max_size as int),
{
    let mut candidates: Vec<Rect> = Vec::new();
    let mut flips: Vec<bool> = Vec::new();
    let mut k: i32 = 0;
    while k < max_rooms
        invariant
            0 < min_size <= max_size,
            max_size < width,
            max_size < height,
            0 <= k,
            k <= max_rooms || k == 0,
            candidates@.len() == k,
            flips@.len() == k,
            forall|i: int|
                0 <= i < candidates@.len() ==> room_fits(
                    #[trigger] candidates@[i],
                    width as int,
                    height as int,
                    min_size as int,
                    max_size as int,
                ),
        decreases max_rooms - k,
    {
        // random width and height
        let w = random_range(min_size, max_size + 1);
        let h = random_range(min_size, max_size + 1);
        // random position without going out of the boundaries of the map
        let x = random_range(0, width - w);
        let y = random_range(0, height - h);
        candidates.push(Rect::new(x, y, w, h));
        // toss a coin for the way the tunnel into it would bend
        flips.push(coin_flip());
        k += 1;
    }
    let l = build_layout(width, height, min_size, max_size, candidates.as_slice(), flips.as_slice());
    assert(greedy_layout(candidates@, flips@, l.rooms@, l.bends@));
    l
}

/// Every accepted room's dug-out inside stays walled in: each cell of the room's
/// outer ring is still wall, unless a tunnel crosses it. This holds of any level
/// that `generate_layout` returns.
pub proof fn lemma_rooms_walled_in(
    map: Seq<Vec<Tile>>,
    rooms: Seq<Rect>,
    bends: Seq<bool>,
    width: int,
    height: int,
    i: int,
    x: int,
    y: int,
)
    requires
        grid_matches(map, rooms, bends, width, height),
        pairwise_apart(rooms),
        0 <= i < rooms.len(),
        on_ring(rooms[i], x, y),
        0 <= x < width,
        0 <= y < height,
    ensures
        map[x]@[y] == Tile::solid() || on_some_tunnel(rooms, bends, x, y),
{
    if in_some_room(rooms, x, y) {
        let j = choose|j: int| 0 <= j < rooms.len() && #[trigger] in_interior(rooms[j], x, y);
        assert(rooms[i].spec_intersects(rooms[j]));
    }
}

} // verus!
