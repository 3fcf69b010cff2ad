use vstd::prelude::*;

verus! {

/// Combat-related properties of a monster or of the player.
#[derive(Clone, Copy, Debug, PartialEq, Eq, Structural)]
pub struct Fighter {
    pub max_hp: i32,
    pub hp: i32,
    pub defense: i32,
    pub power: i32,
    pub xp: i32,
}

/// `v` held to the range of `i32`: stats saturate instead of wrapping.
pub open spec fn clamp_i32(v: int) -> int {
    if v < i32::MIN {
        i32::MIN as int
    } else if v > i32::MAX {
        i32::MAX as int
    } else {
        v
    }
}

/// Damage of an attack: what the power exceeds the defense by, never negative.
pub open spec fn damage_of(power: int, defense: int) -> int {
    if power > defense {
        power - defense
    } else {
        0
    }
}

pub fn saturate(v: i64) -> (r: i32)
    ensures
        r == clamp_i32(v as int),
{
    if v < i32::MIN as i64 {
        i32::MIN
    } else if v > i32::MAX as i64 {
        i32::MAX
    } else {
        v as i32
    }
}

pub fn saturate_wide(v: i128) -> (r: i32)
    ensures
        r == clamp_i32(v as int),
{
    if v < i32::MIN as i128 {
        i32::MIN
    } else if v > i32::MAX as i128 {
        i32::MAX
    } else {
        v as i32
    }
}

/// `damage_of` computed without overflow.
pub fn compute_damage(power: i32, defense: i32) -> (d: i64)
    ensures
        d == damage_of(power as int, defense as int),
        d >= 0,
{
    if power > defense {
        power as i64 - defense as i64
    } else {
        0
    }
}

impl Fighter {
    /// Hit points after losing `damage` of them.
    pub open spec fn spec_after_damage(self, damage: int) -> Fighter {
        Fighter { hp: clamp_i32(self.hp - damage) as i32, ..self }
    }

    /// Hit points after gaining `amount`, never above the maximum.
    pub open spec fn spec_after_heal(self, amount: int) -> Fighter {
        let raised = clamp_i32(self.hp + amount);
        Fighter { hp: (if raised > self.max_hp { self.max_hp as int } else { raised }) as i32, ..self }
    }

    /// Loses `damage` hit points; a damage that is not positive changes nothing.
    pub fn take_hit(&mut self, damage: i64)
        requires
            damage <= 2 * i32::MAX + 2,
        ensures
            damage > 0 ==> *final(self) == old(self).spec_after_damage(damage as int),
            damage <= 0 ==> *final(self) == *old(self),
            final(self).hp <= old(self).hp,
    {
        if damage > 0 {
            self.hp = saturate(self.hp as i64 - damage);
        }
    }

    /// Gains `amount` hit points, without going over the maximum.
    pub fn heal(&mut self, amount: i32)
        ensures
            *final(self) == old(self).spec_after_heal(amount as int),
            final(self).hp <= final(self).max_hp,
    {
        let raised = saturate(self.hp as i64 + amount as i64);
        self.hp = if raised > self.max_hp { self.max_hp } else { raised };
    }
}

} // verus!
