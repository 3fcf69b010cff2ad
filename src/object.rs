use crate::color::Color;
use crate::equipment::{Equipment, Slot};
use crate::fighter::Fighter;
use crate::game::{Game, DungeonMap};
use crate::tile::Tile;
use crate::messages::Messages;
use vstd::prelude::*;

verus! {

/// What an item does when used.
#[derive(Clone, Copy, Debug, PartialEq, Eq, Structural)]
pub enum Item {
    Heal,
    Lightning,
    Confuse,
    Fireball,
    Equipment,
}

/// Anything that stands on the map: an item on the ground, the stairs, or the
/// body of a monster or of the player.
#[derive(Debug)]
pub struct Object {
    pub x: i32,
    pub y: i32,
    pub char: char,
    pub color: Color,
    pub name: String,
    pub blocks: bool,
    pub alive: bool,
    pub fighter: Option<Fighter>,
    pub item: Option<Item>,
    pub always_visible: bool,
    pub equipment: Option<Equipment>,
}

/// The object is equipment worn in `slot`.
pub open spec fn equipped_in(o: Object, slot: Slot) -> bool {
    o.equipment matches Some(e) && e.equipped && e.slot == slot
}

/// The refusal logged when an object cannot be (de)equipped.
pub open spec fn cannot_text(verb: Seq<char>, name: Seq<char>, kind: Seq<char>) -> Seq<char> {
    "Can't "@ + verb + " "@ + name + " because it's not an "@ + kind + "."@
}

fn cannot_message(verb: &str, name: &String, kind: &str) -> (s: String)
    ensures
        s@ == cannot_text(verb@, name@, kind@),
{
    let mut s = String::from_str("Can't ");
    s.append(verb);
    s.append(" ");
    s.append(name.as_str());
    s.append(" because it's not an ");
    s.append(kind);
    s.append(".");
    s
}

/// The cell lies on the grid (and has `i32` coordinates).
pub open spec fn in_map(map: Seq<Vec<Tile>>, x: int, y: int) -> bool {
    0 <= x < map.len() && 0 <= y < map[x]@.len() && x <= i32::MAX && y <= i32::MAX
}

/// Some blocking object stands on the cell.
pub open spec fn occupied(objects: Seq<Object>, x: int, y: int) -> bool {
    exists|i: int| 0 <= i < objects.len() && #[trigger] objects[i].blocks && objects[i].x == x && objects[i].y == y
}

/// Nothing may move onto the cell: it is off the grid, a blocking tile, or taken
/// by a blocking object.
pub open spec fn blocked_at(map: Seq<Vec<Tile>>, objects: Seq<Object>, x: int, y: int) -> bool {
    !in_map(map, x, y) || map[x]@[y].blocked || occupied(objects, x, y)
}

/// The squared Euclidean distance between two cells.
pub open spec fn dist_sq(x1: int, y1: int, x2: int, y2: int) -> int {
    (x2 - x1) * (x2 - x1) + (y2 - y1) * (y2 - y1)
}

/// Squared distance computed without overflow.
pub fn distance_sq_between(x1: i32, y1: i32, x2: i32, y2: i32) -> (d: i128)
    ensures
        d == dist_sq(x1 as int, y1 as int, x2 as int, y2 as int),
{
    let dx: i128 = x2 as i128 - x1 as i128;
    let dy: i128 = y2 as i128 - y1 as i128;
    assert(0 <= dx * dx <= 0x1_0000_0000_0000_0000) by (nonlinear_arith)
        requires
            -0x1_0000_0000 <= dx <= 0x1_0000_0000,
    ;
    assert(0 <= dy * dy <= 0x1_0000_0000_0000_0000) by (nonlinear_arith)
        requires
            -0x1_0000_0000 <= dy <= 0x1_0000_0000,
    ;
    dx * dx + dy * dy
}

pub fn is_blocked(x: i32, y: i32, map: &DungeonMap, objects: &[Object]) -> (b: bool)
    ensures
        b == blocked_at(map@, objects@, x as int, y as int),
{
    // first test the map tile
    if x < 0 || y < 0 || x as usize >= map.len() || y as usize >= map[x as usize].len() {
        return true;
    }
    if map[x as usize][y as usize].is_blocked() {
        return true;
    }
    // now check for any blocking objects
    let mut i: usize = 0;
    while i < objects.len()
        invariant
            0 <= i <= objects@.len(),
            forall|j: int| 0 <= j < i ==> !(#[trigger] objects@[j].blocks && objects@[j].x == x && objects@[j].y == y),
        decreases objects@.len() - i,
    {
        if objects[i].blocks && objects[i].x == x && objects[i].y == y {
            return true;
        }
        i += 1;
    }
    false
}

impl Object {
    /// A ground object: not blocking, not alive, no fighter, drawn even out of view.
    pub open spec fn is_ground_object(
        &self,
        x: int,
        y: int,
        glyph: char,
        color: Color,
        name: Seq<char>,
        item: Option<Item>,
        equipment: Option<Equipment>,
    ) -> bool {
        &&& self.x == x
        &&& self.y == y
        &&& self.char == glyph
        &&& self.color == color
        &&& self.name@ == name
        &&& !self.blocks
        &&& !self.alive
        &&& self.fighter is None
        &&& self.item == item
        &&& self.always_visible
        &&& self.equipment == equipment
    }

    /// The two objects agree on every field.
    pub open spec fn same_as(&self, other: &Object) -> bool {
        &&& self.x == other.x
        &&& self.y == other.y
        &&& self.char == other.char
        &&& self.color == other.color
        &&& self.name@ == other.name@
        &&& self.blocks == other.blocks
        &&& self.alive == other.alive
        &&& self.fighter == other.fighter
        &&& self.item == other.item
        &&& self.always_visible == other.always_visible
        &&& self.equipment == other.equipment
    }

    /// The same object, but for its position.
    pub open spec fn moved_from(&self, old: &Object, x: int, y: int) -> bool {
        &&& self.x == x
        &&& self.y == y
        &&& self.char == old.char
        &&& self.color == old.color
        &&& self.name@ == old.name@
        &&& self.blocks == old.blocks
        &&& self.alive == old.alive
        &&& self.fighter == old.fighter
        &&& self.item == old.item
        &&& self.always_visible == old.always_visible
        &&& self.equipment == old.equipment
    }

    pub fn new(x: i32, y: i32, char: char, color: Color, name: &str, blocks: bool) -> (o: Self)
        ensures
            o.x == x,
            o.y == y,
            o.char == char,
            o.color == color,
            o.name@ == name@,
            o.blocks == blocks,
            !o.alive,
            o.fighter is None,
            o.item is None,
            !o.always_visible,
            o.equipment is None,
    {
        Object {
            x,
            y,
            char,
            color,
            name: String::from_str(name),
            blocks,
            alive: false,
            fighter: None,
            item: None,
            always_visible: false,
            equipment: None,
        }
    }

    /// A field-by-field copy.
    pub fn duplicate(&self) -> (o: Self)
        ensures
            o.same_as(self),
    {
        Object {
            x: self.x,
            y: self.y,
            char: self.char,
            color: self.color,
            name: self.name.clone(),
            blocks: self.blocks,
            alive: self.alive,
            fighter: self.fighter,
            item: self.item,
            always_visible: self.always_visible,
            equipment: self.equipment,
        }
    }

    fn ground_item(
        x: i32,
        y: i32,
        glyph: char,
        color: Color,
        name: &str,
        item: Option<Item>,
        equipment: Option<Equipment>,
    ) -> (o: Self)
        ensures
            o.is_ground_object(x as int, y as int, glyph, color, name@, item, equipment),
    {
        Object {
            x,
            y,
            char: glyph,
            color,
            name: String::from_str(name),
            blocks: false,
            alive: false,
            fighter: None,
            item,
            always_visible: true,
            equipment,
        }
    }

    pub fn create_potion(x: i32, y: i32) -> (o: Self)
        ensures
            o.is_ground_object(x as int, y as int, '!', Color::Violet, "healing potion"@, Some(Item::Heal), None),
    {
        Object::ground_item(x, y, '!', Color::Violet, "healing potion", Some(Item::Heal), None)
    }

    pub fn create_lighting_bolt(x: i32, y: i32) -> (o: Self)
        ensures
            o.is_ground_object(
                x as int,
                y as int,
                '#',
                Color::LightYellow,
                "scroll of lightning bolt"@,
                Some(Item::Lightning),
                None,
            ),
    {
        Object::ground_item(
            x,
            y,
            '#',
            Color::LightYellow,
            "scroll of lightning bolt",
            Some(Item::Lightning),
            None,
        )
    }

    pub fn create_confuse_potion(x: i32, y: i32) -> (o: Self)
        ensures
            o.is_ground_object(
                x as int,
                y as int,
                '#',
                Color::LightYellow,
                "scroll of confusion"@,
                Some(Item::Confuse),
                None,
            ),
    {
        Object::ground_item(x, y, '#', Color::LightYellow, "scroll of confusion", Some(Item::Confuse), None)
    }

    pub fn create_fireball(x: i32, y: i32) -> (o: Self)
        ensures
            o.is_ground_object(
                x as int,
                y as int,
                '#',
                Color::LightYellow,
                "scroll of fireball"@,
                Some(Item::Fireball),
                None,
            ),
    {
        Object::ground_item(x, y, '#', Color::LightYellow, "scroll of fireball", Some(Item::Fireball), None)
    }

    pub fn create_sword(x: i32, y: i32) -> (o: Self)
        ensures
            o.is_ground_object(
                x as int,
                y as int,
                '/',
                Color::Sky,
                "sword"@,
                Some(Item::Equipment),
                Some(Equipment { equipped: false, slot: Slot::RightHand }),
            ),
    {
        Object::ground_item(
            x,
            y,
            '/',
            Color::Sky,
            "sword",
            Some(Item::Equipment),
            Some(Equipment { equipped: false, slot: Slot::RightHand }),
        )
    }

    pub fn create_stair(x: i32, y: i32) -> (o: Self)
        ensures
            o.is_ground_object(x as int, y as int, '<', Color::White, "stairs"@, None, None),
    {
        Object::ground_item(x, y, '<', Color::White, "stairs", None, None)
    }

    /// Puts the equipment on; an object that is not an equipment item is refused
    /// with a message.
    pub fn equip(&mut self, messages: &mut Messages)
        ensures
            old(self).item is None ==> *final(self) == *old(self) && final(messages)@ == old(messages)@.push(
                (cannot_text("equip"@, old(self).name@, "Item"@), Color::Red),
            ),
            old(self).item is Some && old(self).equipment is None ==> *final(self) == *old(self)
                && final(messages)@ == old(messages)@.push(
                (cannot_text("equip"@, old(self).name@, "Equipment"@), Color::Red),
            ),
            old(self).item is Some && old(self).equipment is Some && old(self).equipment->Some_0.equipped
                ==> *final(self) == *old(self) && final(messages)@ == old(messages)@,
            old(self).item is Some && old(self).equipment is Some && !old(self).equipment->Some_0.equipped
                ==> *final(self) == (Object {
                equipment: Some(Equipment { equipped: true, ..old(self).equipment->Some_0 }),
                ..*old(self)
            }) && final(messages)@ == old(messages)@.push(
                (
                    "Equipped by you on "@ + old(self).equipment->Some_0.slot.spec_label() + "."@,
                    Color::LightGreen,
                ),
            ),
    {
        if self.item.is_none() {
            let text = cannot_message("equip", &self.name, "Item");
            messages.add(text.as_str(), Color::Red);
            return;
        }
        match self.equipment {
            Some(equipment) => {
                if !equipment.equipped {
                    self.equipment = Some(Equipment { equipped: true, slot: equipment.slot });
                    let mut text = String::from_str("Equipped by you on ");
                    let slot = equipment.slot.to_string();
                    text.append(slot.as_str());
                    text.append(".");
                    messages.add(text.as_str(), Color::LightGreen);
                }
            },
            None => {
                let text = cannot_message("equip", &self.name, "Equipment");
                messages.add(text.as_str(), Color::Red);
            },
        }
    }

    /// Takes the equipment off; an object that is not an equipment item is refused
    /// with a message.
    pub fn dequip(&mut self, messages: &mut Messages)
        ensures
            old(self).item is None ==> *final(self) == *old(self) && final(messages)@ == old(messages)@.push(
                (cannot_text("dequip"@, old(self).name@, "Item"@), Color::Red),
            ),
            old(self).item is Some && old(self).equipment is None ==> *final(self) == *old(self)
                && final(messages)@ == old(messages)@.push(
                (cannot_text("dequip"@, old(self).name@, "Equipment"@), Color::Red),
            ),
            old(self).item is Some && old(self).equipment is Some && !old(self).equipment->Some_0.equipped
                ==> *final(self) == *old(self) && final(messages)@ == old(messages)@,
            old(self).item is Some && old(self).equipment is Some && old(self).equipment->Some_0.equipped
                ==> *final(self) == (Object {
                equipment: Some(Equipment { equipped: false, ..old(self).equipment->Some_0 }),
                ..*old(self)
            }) && final(messages)@ == old(messages)@.push(
                (
                    "Dequipped by you from "@ + old(self).equipment->Some_0.slot.spec_label() + "."@,
                    Color::LightYellow,
                ),
            ),
    {
        if self.item.is_none() {
            let text = cannot_message("dequip", &self.name, "Item");
            messages.add(text.as_str(), Color::Red);
            return;
        }
        match self.equipment {
            Some(equipment) => {
                if equipment.equipped {
                    self.equipment = Some(Equipment { equipped: false, slot: equipment.slot });
                    let mut text = String::from_str("Dequipped by you from ");
                    let slot = equipment.slot.to_string();
                    text.append(slot.as_str());
                    text.append(".");
                    messages.add(text.as_str(), Color::LightYellow);
                }
            },
            None => {
                let text = cannot_message("dequip", &self.name, "Equipment");
                messages.add(text.as_str(), Color::Red);
            },
        }
    }

    /// The index of the first inventory entry equipped in `slot`.
    pub fn get_equipped_in_slot(slot: Slot, inventory: &[Object]) -> (r: Option<usize>)
        ensures
            r is None ==> forall|i: int| 0 <= i < inventory@.len() ==> !equipped_in(#[trigger] inventory@[i], slot),
            r is Some ==> {
                let k = r->Some_0 as int;
                &&& 0 <= k < inventory@.len()
                &&& equipped_in(inventory@[k], slot)
                &&& forall|i: int| 0 <= i < k ==> !equipped_in(#[trigger] inventory@[i], slot)
            },
    {
        let mut i: usize = 0;
        while i < inventory.len()
            invariant
                0 <= i <= inventory@.len(),
                forall|j: int| 0 <= j < i ==> !equipped_in(#[trigger] inventory@[j], slot),
            decreases inventory@.len() - i,
        {
            match inventory[i].equipment {
                Some(e) => {
                    if e.equipped && e.slot == slot {
                        return Some(i);
                    }
                },
                None => {},
            }
            i += 1;
        }
        None
    }

    /// Steps by `(dx, dy)` unless the target cell is blocked.
    pub fn move_by(&mut self, dx: i32, dy: i32, game: &Game, other_objects: &[Object])
        ensures
            ({
                let (nx, ny) = (old(self).x + dx, old(self).y + dy);
                if blocked_at(game.map@, other_objects@, nx, ny) {
                    *final(self) == *old(self)
                } else {
                    *final(self) == (Object { x: nx as i32, y: ny as i32, ..*old(self) })
                }
            }),
    {
        let nx: i64 = self.x as i64 + dx as i64;
        let ny: i64 = self.y as i64 + dy as i64;
        if nx < 0 || ny < 0 || nx > i32::MAX as i64 || ny > i32::MAX as i64 {
            return;
        }
        if !is_blocked(nx as i32, ny as i32, &game.map, other_objects) {
            self.set_pos(nx as i32, ny as i32);
        }
    }

    /// The squared distance to another object.
    pub fn distance_sq_to(&self, object: &Object) -> (d: i128)
        ensures
            d == dist_sq(self.x as int, self.y as int, object.x as int, object.y as int),
    {
        distance_sq_between(self.x, self.y, object.x, object.y)
    }

    /// The squared distance to a cell.
    pub fn distance_sq(&self, x: i32, y: i32) -> (d: i128)
        ensures
            d == dist_sq(self.x as int, self.y as int, x as int, y as int),
    {
        distance_sq_between(self.x, self.y, x, y)
    }

    pub fn set_pos(&mut self, x: i32, y: i32)
        ensures
            *final(self) == (Object { x, y, ..*old(self) }),
    {
        self.x = x;
        self.y = y;
    }

    pub fn pos(&self) -> (p: (i32, i32))
        ensures
            p == (self.x, self.y),
    {
        (self.x, self.y)
    }

    pub fn is_blocked(&self) -> (b: bool)
        ensures
            b == self.blocks,
    {
        self.blocks
    }

    pub fn die(&mut self)
        ensures
            *final(self) == (Object { alive: false, ..*old(self) }),
    {
        self.alive = false;
    }

    pub fn get_name(&self) -> (n: String)
        ensures
            n@ == self.name@,
    {
        self.name.clone()
    }

    pub fn always_visible(&self) -> (b: bool)
        ensures
            b == self.always_visible,
    {
        self.always_visible
    }
}

} // verus!
