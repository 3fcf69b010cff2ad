use crate::color::Color;
use crate::combat::{add_xp, attack_text, blow, blow_damage, gain_xp, log_attack, no_effect_text};
use crate::enemy::{Enemy, death_text};
use crate::constants::{LEVEL_UP_BASE, LEVEL_UP_FACTOR};
use crate::fighter::{Fighter, clamp_i32, saturate};
use crate::game::{step_if_free, step_result};
use crate::inventory::is_first_at;
use crate::text::{decimal, int_text};
use crate::game::Game;
use crate::tile::Tile;
use crate::object::{Object, dist_sq, distance_sq_between};
use vstd::prelude::*;

verus! {

/// The stat a level-up raises.
#[derive(Clone, Copy, Debug, PartialEq, Eq, Structural)]
pub enum StatBoost {
    /// +20 maximum and current hit points.
    Constitution,
    /// +1 attack power.
    Strength,
    /// +1 defense.
    Agility,
}

pub open spec fn level_text(level: int) -> Seq<char> {
    "Your battle skills grow stronger! You reached level "@ + decimal(level) + "!"@
}

/// The player character: its body and its experience level.
#[derive(Debug)]
pub struct Player {
    pub object: Object,
    pub level: i32,
}

pub open spec fn starting_stats() -> Fighter {
    Fighter { max_hp: 100, hp: 100, defense: 1, power: 4, xp: 0 }
}

impl Player {
    /// The player's fighter after taking `damage` (unchanged when it is not positive).
    pub open spec fn fighter_after_hit(f: Fighter, damage: int) -> Fighter {
        if damage > 0 {
            f.spec_after_damage(damage)
        } else {
            f
        }
    }

    /// The hit kills the player: the player was alive and is left with no hit points.
    pub open spec fn killed_by(old: Player, damage: int) -> bool {
        old.object.fighter matches Some(f) && old.object.alive && damage > 0 && Player::fighter_after_hit(f, damage).hp <= 0
    }

    pub fn new(x: i32, y: i32) -> (p: Self)
        ensures
            p.object.x == x,
            p.object.y == y,
            p.object.char == '%',
            p.object.color == Color::Green,
            p.object.name@ == "player"@,
            p.object.blocks,
            p.object.alive,
            p.object.fighter == Some(starting_stats()),
            p.object.item is None,
            p.object.always_visible,
            p.object.equipment is None,
            p.level == 1,
    {
        let object = Object {
            x,
            y,
            char: '%',
            color: Color::Green,
            name: String::from_str("player"),
            blocks: true,
            alive: true,
            fighter: Some(Fighter { max_hp: 100, hp: 100, defense: 1, xp: 0, power: 4 }),
            item: None,
            always_visible: true,
            equipment: None,
        };
        Player { object, level: 1 }
    }

    /// The player after taking `damage`.
    pub open spec fn hit_result(old: Player, new: Player, damage: int) -> bool {
        &&& new.level == old.level
        &&& match old.object.fighter {
            None => new.object == old.object,
            Some(f) => {
                let f2 = Player::fighter_after_hit(f, damage);
                if Player::killed_by(old, damage) {
                    new.object == (Object { fighter: Some(f2), alive: false, char: '%', color: Color::DarkRed, ..old.object })
                } else {
                    new.object == (Object { fighter: Some(f2), ..old.object })
                }
            },
        }
    }

    /// The log after the player takes `damage`.
    pub open spec fn hit_log(old: Player, damage: int, log: Seq<(Seq<char>, Color)>) -> Seq<(Seq<char>, Color)> {
        if Player::killed_by(old, damage) {
            log.push(("You died!"@, Color::Red))
        } else {
            log
        }
    }

    /// Loses `damage` hit points when it is positive. A living player left with
    /// no hit points dies, once: the body stays, drawn as a corpse.
    pub fn take_damage(&mut self, damage: i32, game: &mut Game)
        ensures
            final(game).same_but_log(old(game)),
            Player::hit_result(*old(self), *final(self), damage as int),
            final(game).messages@ == Player::hit_log(*old(self), damage as int, old(game).messages@),
    {
        if damage <= 0 {
            return;
        }
        if let Some(f) = self.object.fighter {
            let mut f2 = f;
            f2.take_hit(damage as i64);
            self.object.fighter = Some(f2);
            // check for death
            if f2.hp <= 0 && self.object.alive {
                game.messages.add("You died!", Color::Red);
                self.object.die();
                self.object.char = '%';
                self.object.color = Color::DarkRed;
            }
        }
    }

    /// Heals by the given amount, without going over the maximum.
    pub fn heal(&mut self, amount: i32)
        ensures
            final(self).level == old(self).level,
            old(self).object.fighter is None ==> *final(self) == *old(self),
            old(self).object.fighter matches Some(f) ==> final(self).object == (Object {
                fighter: Some(f.spec_after_heal(amount as int)),
                ..old(self).object
            }),
    {
        if let Some(f) = self.object.fighter {
            let mut f2 = f;
            f2.heal(amount);
            self.object.fighter = Some(f2);
        }
    }

    /// The player after gaining `xp` experience (nothing without a fighter).
    pub open spec fn with_xp(p: Player, xp: int) -> Player {
        match p.object.fighter {
            Some(f) => Player { object: Object { fighter: Some(gain_xp(f, xp)), ..p.object }, ..p },
            None => p,
        }
    }

    /// What attacking a monster did.
    pub open spec fn attack_outcome(
        old_p: Player,
        new_p: Player,
        old_t: Enemy,
        new_t: Enemy,
        old_log: Seq<(Seq<char>, Color)>,
        new_log: Seq<(Seq<char>, Color)>,
    ) -> bool {
        let damage = blow(old_p.object.fighter, old_t.object.fighter);
        let log1 = old_log.push((attack_text(old_p.object.name@, old_t.object.name@, damage), Color::White));
        if damage > 0 {
            &&& Enemy::hit_result(old_t, new_t, damage)
            &&& if Enemy::dies_of(old_t, damage) {
                &&& new_p == Player::with_xp(old_p, old_t.object.fighter->Some_0.xp as int)
                &&& new_log == log1.push((death_text(old_t.object.name@), Color::Orange))
            } else {
                &&& new_p == old_p
                &&& new_log == log1
            }
        } else {
            &&& new_t == old_t
            &&& new_p == old_p
            &&& new_log == old_log.push((no_effect_text(old_p.object.name@, old_t.object.name@), Color::White))
        }
    }

    /// Attacks a monster. When the damage is positive the monster takes it and,
    /// if that kills it, the experience it was worth goes to the player.
    pub fn attack(&mut self, target: &mut Enemy, game: &mut Game)
        ensures
            final(game).same_but_log(old(game)),
            Player::attack_outcome(
                *old(self),
                *final(self),
                *old(target),
                *final(target),
                old(game).messages@,
                final(game).messages@,
            ),
    {
        // a simple formula for attack damage
        let damage = blow_damage(self.object.fighter, target.object.fighter);
        log_attack(&mut game.messages, &self.object.name, &target.object.name, damage);
        if damage > 0 {
            // make the target take some damage
            if let Some(xp) = target.take_damage(damage, game) {
                // yield experience to the player
                if let Some(f) = self.object.fighter {
                    let mut f2 = f;
                    add_xp(&mut f2, xp);
                    self.object.fighter = Some(f2);
                }
            }
        }
    }

    /// What moving by `(dx, dy)` did, `t` being the monster on the target cell.
    pub open spec fn move_outcome(
        old_p: Player,
        new_p: Player,
        old_es: Seq<Enemy>,
        new_es: Seq<Enemy>,
        old_log: Seq<(Seq<char>, Color)>,
        new_log: Seq<(Seq<char>, Color)>,
        map: Seq<Vec<Tile>>,
        dx: int,
        dy: int,
        t: Option<usize>,
    ) -> bool {
        match t {
            Some(k) => {
                &&& Player::attack_outcome(old_p, new_p, old_es[k as int], new_es[k as int], old_log, new_log)
                &&& new_es == old_es.update(k as int, new_es[k as int])
            },
            None => {
                &&& step_result(old_p.object, new_p.object, dx, dy, map, old_es)
                &&& new_p.level == old_p.level
                &&& new_es == old_es
                &&& new_log == old_log
            },
        }
    }

    /// Moves by `(dx, dy)`, or attacks the first monster with a fighter that
    /// stands on the target cell.
    pub fn move_or_attack(&mut self, dx: i32, dy: i32, game: &mut Game, enemies: &mut [Enemy])
        ensures
            final(game).same_but_log(old(game)),
            exists|t: Option<usize>|
                #[trigger] is_first_at(old(enemies)@, old(self).object.x + dx, old(self).object.y + dy, t)
                    && Player::move_outcome(
                    *old(self),
                    *final(self),
                    old(enemies)@,
                    final(enemies)@,
                    old(game).messages@,
                    final(game).messages@,
                    old(game).map@,
                    dx as int,
                    dy as int,
                    t,
                ),
    {
        let x: i64 = self.object.x as i64 + dx as i64;
        let y: i64 = self.object.y as i64 + dy as i64;
        let mut target_id: Option<usize> = None;
        let mut id: usize = 0;
        while id < enemies.len()
            invariant
                0 <= id <= enemies@.len(),
                enemies@ == old(enemies)@,
                target_id is None ==> forall|i: int|
                    0 <= i < id ==> !((#[trigger] enemies@[i]).object.fighter is Some && enemies@[i].object.x == x
                        && enemies@[i].object.y == y),
                target_id matches Some(k) ==> is_first_at(enemies@, x as int, y as int, target_id),
            decreases enemies@.len() - id,
        {
            if target_id.is_none() && enemies[id].object.fighter.is_some() && enemies[id].object.x as i64 == x
                && enemies[id].object.y as i64 == y {
                target_id = Some(id);
            }
            id += 1;
        }
        assert(is_first_at(old(enemies)@, old(self).object.x + dx, old(self).object.y + dy, target_id));
        // attack if target found, move otherwise
        match target_id {
            Some(k) => {
                self.attack(&mut enemies[k], game);
                assert(enemies@ == old(enemies)@.update(k as int, enemies@[k as int]));
            },
            None => {
                step_if_free(&mut self.object, dx, dy, &game.map, enemies);
            },
        }
        assert(Player::move_outcome(
            *old(self),
            *self,
            old(enemies)@,
            enemies@,
            old(game).messages@,
            game.messages@,
            old(game).map@,
            dx as int,
            dy as int,
            target_id,
        ));
    }

    /// Experience needed for the next level.
    pub open spec fn level_up_threshold(level: int) -> int {
        LEVEL_UP_BASE + level * LEVEL_UP_FACTOR
    }

    /// Whether the player has the experience for the next level.
    pub open spec fn spec_ready_to_level_up(&self) -> bool {
        self.object.fighter matches Some(f) && f.xp >= Player::level_up_threshold(self.level as int)
    }

    pub fn level_up_xp(&self) -> (xp: i32)
        requires
            i32::MIN <= Player::level_up_threshold(self.level as int) <= i32::MAX,
        ensures
            xp == Player::level_up_threshold(self.level as int),
    {
        self.threshold_wide() as i32
    }

    fn threshold_wide(&self) -> (t: i64)
        ensures
            t == Player::level_up_threshold(self.level as int),
    {
        LEVEL_UP_BASE as i64 + self.level as i64 * LEVEL_UP_FACTOR as i64
    }

    pub fn ready_to_level_up(&self) -> (b: bool)
        ensures
            b == self.spec_ready_to_level_up(),
    {
        match self.object.fighter {
            Some(f) => f.xp as i64 >= self.threshold_wide(),
            None => false,
        }
    }

    /// The fighter after spending the level's experience on `choice`.
    pub open spec fn boosted(f: Fighter, threshold: int, choice: StatBoost) -> Fighter {
        let f1 = Fighter { xp: clamp_i32(f.xp - threshold) as i32, ..f };
        match choice {
            StatBoost::Constitution => Fighter {
                max_hp: clamp_i32(f.max_hp + 20) as i32,
                hp: clamp_i32(f.hp + 20) as i32,
                ..f1
            },
            StatBoost::Strength => Fighter { power: clamp_i32(f.power + 1) as i32, ..f1 },
            StatBoost::Agility => Fighter { defense: clamp_i32(f.defense + 1) as i32, ..f1 },
        }
    }

    /// When the player has the experience for it, goes up one level: the
    /// threshold is taken off the experience (the rest carries over) and the
    /// chosen stat is raised for good. Otherwise nothing happens.
    pub fn level_up(&mut self, game: &mut Game, choice: StatBoost)
        ensures
            final(game).same_but_log(old(game)),
            !old(self).spec_ready_to_level_up() ==> *final(self) == *old(self) && final(game).messages@ == old(
                game,
            ).messages@,
            old(self).spec_ready_to_level_up() ==> {
                &&& final(self).level == old(self).level + 1
                &&& final(self).object == (Object {
                    fighter: Some(
                        Player::boosted(
                            old(self).object.fighter->Some_0,
                            Player::level_up_threshold(old(self).level as int),
                            choice,
                        ),
                    ),
                    ..old(self).object
                })
                &&& final(game).messages@ == old(game).messages@.push(
                    (level_text(old(self).level + 1), Color::Yellow),
                )
                &&& old(self).object.fighter->Some_0.hp <= old(self).object.fighter->Some_0.max_hp
                    ==> final(self).object.fighter->Some_0.hp <= final(self).object.fighter->Some_0.max_hp
            },
    {
        if let Some(f) = self.object.fighter {
            let threshold = self.threshold_wide();
            if f.xp as i64 >= threshold {
                // it is! level up
                self.level = self.level + 1;
                let mut text = String::from_str("Your battle skills grow stronger! You reached level ");
                let number = int_text(self.level as i64);
                text.append(number.as_str());
                text.append("!");
                game.messages.add(text.as_str(), Color::Yellow);
                let mut f2 = f;
                f2.xp = saturate(f.xp as i64 - threshold);
                match choice {
                    StatBoost::Constitution => {
                        f2.max_hp = saturate(f.max_hp as i64 + 20);
                        f2.hp = saturate(f.hp as i64 + 20);
                    },
                    StatBoost::Strength => {
                        f2.power = saturate(f.power as i64 + 1);
                    },
                    StatBoost::Agility => {
                        f2.defense = saturate(f.defense as i64 + 1);
                    },
                }
                self.object.fighter = Some(f2);
            }
        }
    }

    pub fn set_pos(&mut self, x: i32, y: i32)
        ensures
            final(self).object == (Object { x, y, ..old(self).object }),
            final(self).level == old(self).level,
    {
        self.object.x = x;
        self.object.y = y;
    }

    pub fn pos(&self) -> (p: (i32, i32))
        ensures
            p == (self.object.x, self.object.y),
    {
        (self.object.x, self.object.y)
    }

    pub fn get_x(&self) -> (x: i32)
        ensures
            x == self.object.x,
    {
        self.object.x
    }

    pub fn get_y(&self) -> (y: i32)
        ensures
            y == self.object.y,
    {
        self.object.y
    }

    pub fn get_fighter(&self) -> (f: Option<&Fighter>)
        ensures
            f == match self.object.fighter {
                Some(x) => Some(&x),
                None => None::<&Fighter>,
            },
    {
        self.object.fighter.as_ref()
    }

    pub fn is_alive(&self) -> (b: bool)
        ensures
            b == self.object.alive,
    {
        self.object.alive
    }

    pub fn get_name(&self) -> (n: String)
        ensures
            n@ == self.object.name@,
    {
        self.object.name.clone()
    }

    pub fn get_object(&self) -> (o: &Object)
        ensures
            *o == self.object,
    {
        &self.object
    }

    /// The squared distance to a cell.
    pub fn distance_sq(&self, x: i32, y: i32) -> (d: i128)
        ensures
            d == dist_sq(self.object.x as int, self.object.y as int, x as int, y as int),
    {
        distance_sq_between(self.object.x, self.object.y, x, y)
    }

    pub fn get_level(&self) -> (l: i32)
        ensures
            l == self.level,
    {
        self.level
    }
}

/// The player dies once: a hit that kills a living player leaves it dead, and
/// no later hit kills it again or logs another death.
pub proof fn lemma_player_dies_once(first: Player, second: Player, third: Player, d1: int, d2: int)
    requires
        Player::hit_result(first, second, d1),
        Player::killed_by(first, d1),
        Player::hit_result(second, third, d2),
    ensures
        !second.object.alive,
        !Player::killed_by(second, d2),
        !third.object.alive,
        forall|log: Seq<(Seq<char>, Color)>| #[trigger] Player::hit_log(second, d2, log) == log,
{
}

} // verus!
