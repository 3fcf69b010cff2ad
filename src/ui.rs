use crate::constants::MAX_INVENTORY;
use crate::enemy::Enemy;
use crate::object::Object;
use crate::visibility::Visibility;
use vstd::prelude::*;

verus! {

/// Names joined with ", ".
pub open spec fn joined(names: Seq<Seq<char>>) -> Seq<char>
    decreases names.len(),
{
    if names.len() == 0 {
        Seq::empty()
    } else if names.len() == 1 {
        names[0]
    } else {
        joined(names.drop_last()) + ", "@ + names.last()
    }
}

/// The names of the monsters on the cell `(x, y)` when they are in view, in order.
pub open spec fn names_at(es: Seq<Enemy>, visible: Visibility, x: int, y: int) -> Seq<Seq<char>>
    decreases es.len(),
{
    if es.len() == 0 {
        Seq::empty()
    } else {
        let e = es.last();
        let rest = names_at(es.drop_last(), visible, x, y);
        if e.object.x == x && e.object.y == y && visible.visible_at(e.object.x as int, e.object.y as int) {
            rest.push(e.object.name@)
        } else {
            rest
        }
    }
}

/// The names of the monsters in view on the cell under the mouse, separated by commas.
pub fn names_under_mouse(enemies: &[Enemy], visible: &Visibility, x: i32, y: i32) -> (s: String)
    ensures
        s@ == joined(names_at(enemies@, *visible, x as int, y as int)),
{
    let mut s = String::new();
    let mut count: usize = 0;
    let mut i: usize = 0;
    while i < enemies.len()
        invariant
            0 <= i <= enemies@.len(),
            count == names_at(enemies@.subrange(0, i as int), *visible, x as int, y as int).len(),
            count <= i,
            s@ == joined(names_at(enemies@.subrange(0, i as int), *visible, x as int, y as int)),
        decreases enemies@.len() - i,
    {
        let ghost before = names_at(enemies@.subrange(0, i as int), *visible, x as int, y as int);
        assert(enemies@.subrange(0, i + 1).drop_last() =~= enemies@.subrange(0, i as int));
        let e = &enemies[i];
        if e.object.x == x && e.object.y == y && visible.is_visible(e.object.x, e.object.y) {
            if count > 0 {
                s.append(", ");
            }
            s.append(e.object.name.as_str());
            count += 1;
            let ghost after = before.push(e.object.name@);
            assert(after.drop_last() =~= before);
            proof {
                if before.len() == 0 {
                    assert(s@ =~= joined(after));
                }
            }
        }
        i += 1;
    }
    assert(enemies@.subrange(0, i as int) =~= enemies@);
    s
}

/// The menu entry a key picks: letters from `a` (or `A`) on.
pub open spec fn key_index(c: char) -> Option<int> {
    if 'a' <= c <= 'z' {
        Some(c as int - 'a' as int)
    } else if 'A' <= c <= 'Z' {
        Some(c as int - 'A' as int)
    } else {
        None
    }
}

/// The option that a key press chooses among `count` options, if any.
pub fn menu_choice(key: char, count: usize) -> (r: Option<usize>)
    requires
        count <= MAX_INVENTORY,
    ensures
        r == (match key_index(key) {
            Some(i) => if i < count {
                Some(i as usize)
            } else {
                None::<usize>
            },
            None => None::<usize>,
        }),
{
    let code = key as u32;
    let index: u32 = if 'a' <= key && key <= 'z' {
        code - ('a' as u32)
    } else if 'A' <= key && key <= 'Z' {
        code - ('A' as u32)
    } else {
        return None;
    };
    if (index as usize) < count {
        Some(index as usize)
    } else {
        None
    }
}

/// The letter shown before menu option `index`.
pub fn menu_letter(index: usize) -> (c: char)
    requires
        index < 26,
    ensures
        c as int == 'a' as int + index,
{
    ((97 + index) as u8) as char
}

/// The options of the inventory menu: the item names, or a single line saying
/// the inventory is empty.
pub fn inventory_options(inventory: &[Object]) -> (options: Vec<String>)
    ensures
        inventory@.len() == 0 ==> options@.len() == 1 && options@[0]@ == "Inventory is empty."@,
        inventory@.len() > 0 ==> options@.len() == inventory@.len() && forall|i: int|
            0 <= i < inventory@.len() ==> (#[trigger] options@[i])@ == inventory@[i].name@,
{
    let mut options: Vec<String> = Vec::new();
    if inventory.len() == 0 {
        options.push(String::from_str("Inventory is empty."));
        return options;
    }
    let mut i: usize = 0;
    while i < inventory.len()
        invariant
            0 <= i <= inventory@.len(),
            options@.len() == i,
            forall|j: int| 0 <= j < i ==> (#[trigger] options@[j])@ == inventory@[j].name@,
        decreases inventory@.len() - i,
    {
        options.push(inventory[i].name.clone());
        i += 1;
    }
    options
}

} // verus!
