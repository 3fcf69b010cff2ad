use crate::color::Color;
use crate::fighter::{Fighter, clamp_i32, compute_damage, damage_of, saturate};
use crate::messages::Messages;
use crate::text::{decimal, int_text};
use vstd::prelude::*;

verus! {

/// Attack power of a body, 0 without a fighter.
pub open spec fn power_of(f: Option<Fighter>) -> int {
    match f {
        Some(f) => f.power as int,
        None => 0,
    }
}

/// Defense of a body, 0 without a fighter.
pub open spec fn defense_of(f: Option<Fighter>) -> int {
    match f {
        Some(f) => f.defense as int,
        None => 0,
    }
}

/// The damage one body deals another, as an `i32`.
pub open spec fn blow(attacker: Option<Fighter>, defender: Option<Fighter>) -> int {
    clamp_i32(damage_of(power_of(attacker), defense_of(defender)))
}

pub open spec fn attack_text(attacker: Seq<char>, target: Seq<char>, damage: int) -> Seq<char> {
    attacker + " attacks "@ + target + " for "@ + decimal(damage) + " hit points."@
}

pub open spec fn no_effect_text(attacker: Seq<char>, target: Seq<char>) -> Seq<char> {
    attacker + " attacks "@ + target + " but it has no effect!"@
}

/// The damage one body deals another: what the attacker's power exceeds the
/// defender's defense by, never negative.
pub fn blow_damage(attacker: Option<Fighter>, defender: Option<Fighter>) -> (d: i32)
    ensures
        d == blow(attacker, defender),
        d >= 0,
{
    let power = match attacker {
        Some(f) => f.power,
        None => 0,
    };
    let defense = match defender {
        Some(f) => f.defense,
        None => 0,
    };
    saturate(compute_damage(power, defense))
}

/// Logs the outcome of an attack: the damage dealt, or that it had no effect.
pub fn log_attack(messages: &mut Messages, attacker: &String, target: &String, damage: i32)
    ensures
        damage > 0 ==> final(messages)@ == old(messages)@.push(
            (attack_text(attacker@, target@, damage as int), Color::White),
        ),
        damage <= 0 ==> final(messages)@ == old(messages)@.push((no_effect_text(attacker@, target@), Color::White)),
{
    let mut text = attacker.clone();
    text.append(" attacks ");
    text.append(target.as_str());
    if damage > 0 {
        text.append(" for ");
        let amount = int_text(damage as i64);
        text.append(amount.as_str());
        text.append(" hit points.");
    } else {
        text.append(" but it has no effect!");
    }
    messages.add(text.as_str(), Color::White);
}

/// Experience after gaining `xp`, saturating.
pub open spec fn gain_xp(f: Fighter, xp: int) -> Fighter {
    Fighter { xp: clamp_i32(f.xp + xp) as i32, ..f }
}

pub fn add_xp(f: &mut Fighter, xp: i32)
    ensures
        *final(f) == gain_xp(*old(f), xp as int),
{
    f.xp = saturate(f.xp as i64 + xp as i64);
}

} // verus!
