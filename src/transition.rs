use vstd::prelude::*;

verus! {

/// From `level` on, a scaled quantity takes `value`.
#[derive(Clone, Copy, Debug, PartialEq, Eq, Structural)]
pub struct Transition {
    pub level: u32,
    pub value: u32,
}

/// The value of the last entry of `table` whose level is at most `level`, or 0
/// when there is none.
pub open spec fn value_at_level(table: Seq<Transition>, level: u32) -> u32
    decreases table.len(),
{
    if table.len() == 0 {
        0
    } else if level >= table.last().level {
        table.last().value
    } else {
        value_at_level(table.drop_last(), level)
    }
}

pub fn from_dungeon_level(table: &[Transition], level: u32) -> (v: u32)
    ensures
        v == value_at_level(table@, level),
{
    let mut i: usize = table.len();
    assert(table@.subrange(0, i as int) =~= table@);
    while i > 0
        invariant
            i <= table@.len(),
            value_at_level(table@, level) == value_at_level(table@.subrange(0, i as int), level),
        decreases i,
    {
        let t = table[i - 1];
        assert(table@.subrange(0, i as int).drop_last() =~= table@.subrange(0, i - 1));
        if level >= t.level {
            return t.value;
        }
        i -= 1;
    }
    0
}

} // verus!
