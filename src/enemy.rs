use crate::color::Color;
use crate::fighter::{Fighter, clamp_i32};
use crate::combat::{attack_text, blow, blow_damage, log_attack, no_effect_text};
use crate::game::{Game, step_if_free, step_result};
use crate::object::{dist_sq, distance_sq_between};
use crate::random::random_range;
use crate::tile::Tile;
use crate::visibility::Visibility;
use crate::player::Player;
use crate::object::Object;
use vstd::prelude::*;

verus! {

/// How a monster decides what to do on its turn.
#[derive(Debug, PartialEq, Eq)]
pub enum Ai {
    Basic,
    Confused { previous_ai: Box<Ai>, num_turns: i32 },
}

impl Ai {
    /// A copy of the state, nested states included.
    pub fn duplicate(&self) -> (a: Ai)
        ensures
            a == *self,
        decreases self,
    {
        match self {
            Ai::Basic => Ai::Basic,
            Ai::Confused { previous_ai, num_turns } => {
                let inner = (**previous_ai).duplicate();
                Ai::Confused { previous_ai: Box::new(inner), num_turns: *num_turns }
            },
        }
    }
}

/// A monster: its body and, while it lives, its AI.
#[derive(Debug)]
pub struct Enemy {
    pub object: Object,
    pub ai: Option<Ai>,
}

/// `new` is what is left of `old` once it has died.
pub open spec fn is_remains_of(new: Object, old: Object) -> bool {
    &&& new.x == old.x
    &&& new.y == old.y
    &&& new.char == '%'
    &&& new.color == Color::DarkRed
    &&& new.name@ == "remains of "@ + old.name@
    &&& !new.blocks
    &&& !new.alive
    &&& new.fighter is None
    &&& new.item == old.item
    &&& new.always_visible == old.always_visible
    &&& new.equipment == old.equipment
}

/// A living monster as first placed on the map.
pub open spec fn is_fresh_monster(
    e: Enemy,
    x: int,
    y: int,
    glyph: char,
    color: Color,
    name: Seq<char>,
    fighter: Fighter,
) -> bool {
    &&& e.object.x == x
    &&& e.object.y == y
    &&& e.object.char == glyph
    &&& e.object.color == color
    &&& e.object.name@ == name
    &&& e.object.blocks
    &&& e.object.alive
    &&& e.object.fighter == Some(fighter)
    &&& e.object.item is None
    &&& !e.object.always_visible
    &&& e.object.equipment is None
    &&& e.ai == Some(Ai::Basic)
}

pub open spec fn orc_stats() -> Fighter {
    Fighter { max_hp: 10, hp: 10, defense: 0, power: 3, xp: 35 }
}

pub open spec fn troll_stats() -> Fighter {
    Fighter { max_hp: 16, hp: 16, defense: 1, power: 4, xp: 100 }
}

pub open spec fn is_orc_at(e: Enemy, x: int, y: int) -> bool {
    is_fresh_monster(e, x, y, 'o', Color::DesaturatedGreen, "orc"@, orc_stats())
}

pub open spec fn is_troll_at(e: Enemy, x: int, y: int) -> bool {
    is_fresh_monster(e, x, y, 'T', Color::DarkerGreen, "troll"@, troll_stats())
}

/// One grid step along an axis: the component `d` of a direction `(d, e)`, divided
/// by the direction's length and rounded to the nearest integer (ties away from
/// zero). It is non-zero exactly when `|d|` is at least half the length, that is
/// when `4 d² >= d² + e²`.
pub open spec fn step_toward(d: int, e: int) -> int {
    if d != 0 && 3 * d * d >= e * e {
        if d > 0 {
            1
        } else {
            -1
        }
    } else {
        0
    }
}

pub fn grid_step(d: i64, e: i64) -> (s: i32)
    requires
        -0x1_0000_0000 <= d <= 0x1_0000_0000,
        -0x1_0000_0000 <= e <= 0x1_0000_0000,
    ensures
        s == step_toward(d as int, e as int),
{
    let d2: i128 = d as i128;
    let e2: i128 = e as i128;
    assert(0 <= d2 * d2 <= 0x1_0000_0000_0000_0000 && 3 * (d2 * d2) == 3 * d2 * d2) by (nonlinear_arith)
        requires
            -0x1_0000_0000 <= d2 <= 0x1_0000_0000,
    ;
    assert(0 <= e2 * e2 <= 0x1_0000_0000_0000_0000) by (nonlinear_arith)
        requires
            -0x1_0000_0000 <= e2 <= 0x1_0000_0000,
    ;
    if d != 0 && 3 * (d2 * d2) >= e2 * e2 {
        if d > 0 {
            1
        } else {
            -1
        }
    } else {
        0
    }
}

/// The state an AI moves on to after the monster's turn.
pub open spec fn next_ai(ai: Ai) -> Ai {
    match ai {
        Ai::Basic => Ai::Basic,
        Ai::Confused { previous_ai, num_turns } => if num_turns >= 0 {
            Ai::Confused { previous_ai, num_turns: (num_turns - 1) as i32 }
        } else {
            *previous_ai
        },
    }
}

/// The AI state after `k` turns.
pub open spec fn ai_after(ai: Ai, k: nat) -> Ai
    decreases k,
{
    if k == 0 {
        ai
    } else {
        next_ai(ai_after(ai, (k - 1) as nat))
    }
}

/// Confusing a basic monster for `n` turns: before each of its next `n + 1` turns
/// it is still confused with turns left (so it stumbles about), before the turn
/// after those it is confused with none left (that turn only restores its AI),
/// and from then on it is basic again.
pub proof fn lemma_confusion_runs_out(n: i32)
    requires
        n >= 0,
    ensures
        forall|k: nat|
            k <= n ==> #[trigger] ai_after(Ai::Confused { previous_ai: Box::new(Ai::Basic), num_turns: n }, k)
                == (Ai::Confused { previous_ai: Box::new(Ai::Basic), num_turns: (n - k) as i32 }),
        ai_after(Ai::Confused { previous_ai: Box::new(Ai::Basic), num_turns: n }, (n + 1) as nat)
            == (Ai::Confused { previous_ai: Box::new(Ai::Basic), num_turns: -1i32 }),
        ai_after(Ai::Confused { previous_ai: Box::new(Ai::Basic), num_turns: n }, (n + 2) as nat) == Ai::Basic,
{
    let start = Ai::Confused { previous_ai: Box::new(Ai::Basic), num_turns: n };
    assert forall|k: nat| k <= n + 1 implies #[trigger] ai_after(start, k) == (Ai::Confused {
        previous_ai: Box::new(Ai::Basic),
        num_turns: (n - k) as i32,
    }) by {
        lemma_confused_countdown(n, k);
    }
    assert(ai_after(start, (n + 1) as nat) == (Ai::Confused { previous_ai: Box::new(Ai::Basic), num_turns: -1i32 }));
    assert(ai_after(start, (n + 2) as nat) == next_ai(ai_after(start, (n + 1) as nat)));
}

proof fn lemma_confused_countdown(n: i32, k: nat)
    requires
        n >= 0,
        k <= n + 1,
    ensures
        ai_after(Ai::Confused { previous_ai: Box::new(Ai::Basic), num_turns: n }, k) == (Ai::Confused {
            previous_ai: Box::new(Ai::Basic),
            num_turns: (n - k) as i32,
        }),
    decreases k,
{
    if k > 0 {
        lemma_confused_countdown(n, (k - 1) as nat);
    }
}

/// A hit never raises a monster's hit points, and a monster that survives a
/// positive hit has exactly `damage` fewer of them (saturating at `i32::MIN`).
pub proof fn lemma_hit_never_heals(old: Enemy, new: Enemy, damage: int)
    requires
        Enemy::hit_result(old, new, damage),
        old.object.fighter is Some,
        new.object.fighter is Some,
    ensures
        new.object.fighter->Some_0.hp <= old.object.fighter->Some_0.hp,
        damage > 0 ==> new.object.fighter->Some_0.hp == clamp_i32(old.object.fighter->Some_0.hp - damage),
        damage <= 0 ==> new.object.fighter == old.object.fighter,
{
}

/// Death happens once: a monster killed by a hit is left without a fighter, so
/// any later hit changes nothing, kills nothing and yields no experience.
pub proof fn lemma_death_is_final(e0: Enemy, e1: Enemy, e2: Enemy, d1: int, d2: int)
    requires
        Enemy::hit_result(e0, e1, d1),
        Enemy::dies_of(e0, d1),
        Enemy::hit_result(e1, e2, d2),
    ensures
        !e1.object.alive,
        e1.object.fighter is None,
        e1.ai is None,
        !Enemy::dies_of(e1, d2),
        e2 == e1,
{
}

/// A monster's turn moves its AI on by exactly one state.
pub proof fn lemma_turn_advances_ai(
    old: Enemy,
    new: Enemy,
    visible: Visibility,
    map: Seq<Vec<Tile>>,
    others: Seq<Enemy>,
    old_player: Player,
    new_player: Player,
    old_log: Seq<(Seq<char>, Color)>,
    new_log: Seq<(Seq<char>, Color)>,
)
    requires
        Enemy::turn_result(old, new, visible, map, others, old_player, new_player, old_log, new_log),
    ensures
        new.ai == match old.ai {
            Some(a) => Some(next_ai(a)),
            None => None,
        },
{
}

/// Over successive turns of one monster, each moving its AI on by one state as
/// `lemma_turn_advances_ai` says, a monster confused for `n` turns is confused
/// with `n - k` turns left before turn `k` (for `k <= n + 1`) and basic again
/// after turn `n + 1`, that is from the state before turn `n + 2` on.
pub proof fn lemma_confused_monster_over_turns(states: Seq<Enemy>, n: i32)
    requires
        n >= 0,
        states.len() >= 1,
        states[0].ai == Some(Ai::Confused { previous_ai: Box::new(Ai::Basic), num_turns: n }),
        forall|k: int|
            0 <= k < states.len() - 1 ==> (#[trigger] states[k + 1]).ai == match states[k].ai {
                Some(a) => Some(next_ai(a)),
                None => None,
            },
    ensures
        forall|k: int|
            0 <= k < states.len() ==> (#[trigger] states[k]).ai == Some(
                ai_after(Ai::Confused { previous_ai: Box::new(Ai::Basic), num_turns: n }, k as nat),
            ),
        forall|k: int|
            0 <= k < states.len() && k <= n ==> (#[trigger] states[k]).ai == Some(
                Ai::Confused { previous_ai: Box::new(Ai::Basic), num_turns: (n - k) as i32 },
            ),
        n + 1 < states.len() ==> states[n + 1].ai == Some(
            Ai::Confused { previous_ai: Box::new(Ai::Basic), num_turns: -1i32 },
        ),
        n + 2 < states.len() ==> states[n + 2].ai == Some(Ai::Basic),
{
    let start = Ai::Confused { previous_ai: Box::new(Ai::Basic), num_turns: n };
    assert forall|k: int| 0 <= k < states.len() implies (#[trigger] states[k]).ai == Some(ai_after(start, k as nat)) by {
        lemma_states_follow(states, start, k);
    }
    lemma_confusion_runs_out(n);
    assert forall|k: int| 0 <= k < states.len() && k <= n implies (#[trigger] states[k]).ai == Some(
        Ai::Confused { previous_ai: Box::new(Ai::Basic), num_turns: (n - k) as i32 },
    ) by {
        assert(ai_after(start, k as nat) == (Ai::Confused { previous_ai: Box::new(Ai::Basic), num_turns: (n - k) as i32 }));
    }
    if n + 1 < states.len() {
        assert(states[n + 1].ai == Some(ai_after(start, (n + 1) as nat)));
    }
    if n + 2 < states.len() {
        assert(states[n + 2].ai == Some(ai_after(start, (n + 2) as nat)));
    }
}

proof fn lemma_states_follow(states: Seq<Enemy>, start: Ai, k: int)
    requires
        states.len() >= 1,
        states[0].ai == Some(start),
        forall|j: int|
            0 <= j < states.len() - 1 ==> (#[trigger] states[j + 1]).ai == match states[j].ai {
                Some(a) => Some(next_ai(a)),
                None => None,
            },
        0 <= k < states.len(),
    ensures
        states[k].ai == Some(ai_after(start, k as nat)),
    decreases k,
{
    if k > 0 {
        lemma_states_follow(states, start, k - 1);
        assert(states[(k - 1) + 1].ai == match states[k - 1].ai {
            Some(a) => Some(next_ai(a)),
            None => None,
        });
    }
}

/// An attack never raises the target's hit points: a target that survives loses
/// exactly the damage (saturating at `i32::MIN`) and keeps its other stats; one
/// that dies becomes its remains.
pub proof fn lemma_attack_hit_points(attacker: Fighter, old: Enemy, new: Enemy, damage: int)
    requires
        old.object.fighter is Some,
        damage == crate::combat::blow(Some(attacker), old.object.fighter),
        damage > 0 ==> Enemy::hit_result(old, new, damage),
        damage <= 0 ==> new == old,
    ensures
        damage == crate::fighter::clamp_i32(
            crate::fighter::damage_of(attacker.power as int, old.object.fighter->Some_0.defense as int),
        ),
        new.object.fighter matches Some(g) ==> g.hp <= old.object.fighter->Some_0.hp && g == (Fighter {
            hp: g.hp,
            ..old.object.fighter->Some_0
        }) && (damage > 0 ==> g.hp == clamp_i32(old.object.fighter->Some_0.hp - damage)),
        new.object.fighter is None ==> is_remains_of(new.object, old.object) && new.ai is None,
{
}

/// The log line of a monster coming back to its senses.
pub open spec fn confusion_ends_text(name: Seq<char>) -> Seq<char> {
    "The "@ + name + " is no longer confused!"@
}

/// The log line of a monster's death.
pub open spec fn death_text(name: Seq<char>) -> Seq<char> {
    name + " is dead!"@
}

impl Enemy {
    /// The monster after taking `damage`: its hit points drop when the damage is
    /// positive, and at 0 or below it dies.
    pub open spec fn hit_result(old: Enemy, new: Enemy, damage: int) -> bool {
        match old.object.fighter {
            None => new == old,
            Some(f) => {
                let f2 = f.spec_after_damage(damage);
                if damage <= 0 {
                    new == old
                } else if f2.hp > 0 {
                    new == Enemy { object: Object { fighter: Some(f2), ..old.object }, ..old }
                } else {
                    is_remains_of(new.object, old.object) && new.ai is None
                }
            },
        }
    }

    /// The monster died of the hit just taken: a positive damage left it with no
    /// hit points.
    pub open spec fn dies_of(old: Enemy, damage: int) -> bool {
        old.object.fighter matches Some(f) && damage > 0 && f.spec_after_damage(damage).hp <= 0
    }

    pub fn new(
        x: i32,
        y: i32,
        char: char,
        color: Color,
        name: &str,
        max_hp: i32,
        hp: i32,
        defense: i32,
        power: i32,
        xp: i32,
    ) -> (e: Self)
        ensures
            is_fresh_monster(e, x as int, y as int, char, color, name@, Fighter { max_hp, hp, defense, power, xp }),
    {
        let object = Object {
            x,
            y,
            char,
            color,
            name: String::from_str(name),
            blocks: true,
            alive: true,
            fighter: Some(Fighter { max_hp, hp, defense, power, xp }),
            item: None,
            always_visible: false,
            equipment: None,
        };
        Enemy { object, ai: Some(Ai::Basic) }
    }

    pub fn create_orc(x: i32, y: i32) -> (e: Self)
        ensures
            is_orc_at(e, x as int, y as int),
    {
        Enemy::new(x, y, 'o', Color::DesaturatedGreen, "orc", 10, 10, 0, 3, 35)
    }

    pub fn create_troll(x: i32, y: i32) -> (e: Self)
        ensures
            is_troll_at(e, x as int, y as int),
    {
        Enemy::new(x, y, 'T', Color::DarkerGreen, "troll", 16, 16, 1, 4, 100)
    }

    /// A field-by-field copy.
    pub fn duplicate(&self) -> (e: Self)
        ensures
            e.object.same_as(&self.object),
            e.ai == self.ai,
    {
        let ai = match &self.ai {
            Some(a) => Some(a.duplicate()),
            None => None,
        };
        Enemy { object: self.object.duplicate(), ai }
    }

    /// Loses `damage` hit points when it is positive. At 0 hit points or below
    /// the monster dies: it becomes its remains and the experience it was worth
    /// is returned, for whoever dealt the blow. A monster that is already dead
    /// is not affected.
    pub fn take_damage(&mut self, damage: i32, game: &mut Game) -> (xp: Option<i32>)
        ensures
            Enemy::hit_result(*old(self), *final(self), damage as int),
            final(game).same_but_log(old(game)),
            Enemy::dies_of(*old(self), damage as int) ==> {
                &&& xp == Some(old(self).object.fighter->Some_0.xp)
                &&& final(game).messages@ == old(game).messages@.push(
                    (death_text(old(self).object.name@), Color::Orange),
                )
            },
            !Enemy::dies_of(*old(self), damage as int) ==> xp is None && final(game).messages@
                == old(game).messages@,
    {
        if damage <= 0 {
            return None;
        }
        match self.object.fighter {
            None => None,
            Some(f) => {
                let mut f2 = f;
                f2.take_hit(damage as i64);
                if f2.hp > 0 {
                    self.object.fighter = Some(f2);
                    return None;
                }
                // the monster dies: it turns into a corpse that blocks nothing
                self.object.die();
                self.object.char = '%';
                self.object.color = Color::DarkRed;
                self.object.blocks = false;
                self.object.fighter = None;
                self.ai = None;
                let mut text = self.object.name.clone();
                text.append(" is dead!");
                game.messages.add(text.as_str(), Color::Orange);
                let mut remains = String::from_str("remains of ");
                remains.append(self.object.name.as_str());
                self.object.name = remains;
                Some(f.xp)
            },
        }
    }

    /// Attacks the player, who takes the damage when it is positive.
    pub fn attack(&mut self, player: &mut Player, game: &mut Game)
        ensures
            *final(self) == *old(self),
            final(game).same_but_log(old(game)),
            ({
                let damage = blow(old(self).object.fighter, old(player).object.fighter);
                if damage > 0 {
                    &&& Player::hit_result(*old(player), *final(player), damage)
                    &&& final(game).messages@ == Player::hit_log(
                        *old(player),
                        damage,
                        old(game).messages@.push(
                            (attack_text(old(self).object.name@, old(player).object.name@, damage), Color::White),
                        ),
                    )
                } else {
                    &&& *final(player) == *old(player)
                    &&& final(game).messages@ == old(game).messages@.push(
                        (no_effect_text(old(self).object.name@, old(player).object.name@), Color::White),
                    )
                }
            }),
    {
        // a simple formula for attack damage
        let damage = blow_damage(self.object.fighter, player.object.fighter);
        log_attack(&mut game.messages, &self.object.name, &player.object.name, damage);
        if damage > 0 {
            player.take_damage(damage, game);
        }
    }

    /// `new` is `old` after stepping one cell toward `(tx, ty)` (when free).
    pub open spec fn moved_toward(old: Enemy, new: Enemy, tx: int, ty: int, map: Seq<Vec<Tile>>, others: Seq<Enemy>) -> bool {
        let (dx, dy) = (tx - old.object.x, ty - old.object.y);
        &&& new.ai == old.ai
        &&& step_result(old.object, new.object, step_toward(dx, dy), step_toward(dy, dx), map, others)
    }

    /// Moves one cell toward the target, along the direction to it rounded to the
    /// grid (diagonals included), unless that cell is blocked.
    pub fn move_towards(&mut self, target_x: i32, target_y: i32, game: &Game, other_enemies: &[Enemy])
        ensures
            Enemy::moved_toward(
                *old(self),
                *final(self),
                target_x as int,
                target_y as int,
                game.map@,
                other_enemies@,
            ),
    {
        // vector from this object to the target
        let dx: i64 = target_x as i64 - self.object.x as i64;
        let dy: i64 = target_y as i64 - self.object.y as i64;
        // normalized and rounded to the grid
        let step_x = grid_step(dx, dy);
        let step_y = grid_step(dy, dx);
        step_if_free(&mut self.object, step_x, step_y, &game.map, other_enemies);
    }

    /// What attacking the player did: `new_player` and `new_log` are the player and
    /// the log after `attacker` attacked.
    pub open spec fn attack_result(
        attacker: Enemy,
        old_player: Player,
        new_player: Player,
        old_log: Seq<(Seq<char>, Color)>,
        new_log: Seq<(Seq<char>, Color)>,
    ) -> bool {
        let damage = blow(attacker.object.fighter, old_player.object.fighter);
        if damage > 0 {
            &&& Player::hit_result(old_player, new_player, damage)
            &&& new_log == Player::hit_log(
                old_player,
                damage,
                old_log.push((attack_text(attacker.object.name@, old_player.object.name@, damage), Color::White)),
            )
        } else {
            &&& new_player == old_player
            &&& new_log == old_log.push((no_effect_text(attacker.object.name@, old_player.object.name@), Color::White))
        }
    }

    /// One turn of a basic monster: if its cell is in view it closes in on the
    /// player while at distance 2 or more, and otherwise attacks a player that
    /// still has hit points. Out of view it does nothing.
    pub open spec fn basic_turn(
        old: Enemy,
        new: Enemy,
        visible: Visibility,
        map: Seq<Vec<Tile>>,
        others: Seq<Enemy>,
        old_player: Player,
        new_player: Player,
        old_log: Seq<(Seq<char>, Color)>,
        new_log: Seq<(Seq<char>, Color)>,
    ) -> bool {
        if !visible.visible_at(old.object.x as int, old.object.y as int) {
            new == old && new_player == old_player && new_log == old_log
        } else if dist_sq(
            old.object.x as int,
            old.object.y as int,
            old_player.object.x as int,
            old_player.object.y as int,
        ) >= 4 {
            &&& Enemy::moved_toward(old, new, old_player.object.x as int, old_player.object.y as int, map, others)
            &&& new_player == old_player
            &&& new_log == old_log
        } else if old_player.object.fighter matches Some(f) && f.hp > 0 {
            new == old && Enemy::attack_result(old, old_player, new_player, old_log, new_log)
        } else {
            new == old && new_player == old_player && new_log == old_log
        }
    }

    /// A basic monster takes its turn; it stays basic.
    pub fn ai_basic(&mut self, visible: &Visibility, game: &mut Game, other_enemies: &[Enemy], player: &mut Player) -> (a: Ai)
        ensures
            a == Ai::Basic,
            final(game).same_but_log(old(game)),
            Enemy::basic_turn(
                *old(self),
                *final(self),
                *visible,
                old(game).map@,
                other_enemies@,
                *old(player),
                *final(player),
                old(game).messages@,
                final(game).messages@,
            ),
    {
        // a basic monster takes its turn. If you can see it, it can see you
        if visible.is_visible(self.object.x, self.object.y) {
            let d = distance_sq_between(self.object.x, self.object.y, player.object.x, player.object.y);
            if d >= 4 {
                // move towards player if far away
                let (player_x, player_y) = player.pos();
                self.move_towards(player_x, player_y, game, other_enemies);
            } else {
                let can_attack = match player.object.fighter {
                    Some(f) => f.hp > 0,
                    None => false,
                };
                if can_attack {
                    self.attack(player, game);
                }
            }
        }
        Ai::Basic
    }

    /// One turn of a confused monster: while turns remain it stumbles one cell in
    /// a random direction (or stays), and once they have run out it logs that it
    /// is no longer confused and gets its previous AI back.
    fn ai_confused(&mut self, game: &mut Game, enemies: &[Enemy], previous_ai: Box<Ai>, num_turns: i32) -> (a: Ai)
        ensures
            final(game).same_but_log(old(game)),
            final(self).ai == old(self).ai,
            num_turns >= 0 ==> {
                &&& a == Ai::Confused { previous_ai, num_turns: (num_turns - 1) as i32 }
                &&& Enemy::stumbled(old(self).object, final(self).object, old(game).map@, enemies@)
                &&& final(game).messages@ == old(game).messages@
            },
            num_turns < 0 ==> {
                &&& a == *previous_ai
                &&& final(self).object == old(self).object
                &&& final(game).messages@ == old(game).messages@.push(
                    (confusion_ends_text(old(self).object.name@), Color::Red),
                )
            },
    {
        if num_turns >= 0 {
            // still confused: move in a random direction, and count the turn down
            let dx = random_range(-1, 2);
            let dy = random_range(-1, 2);
            step_if_free(&mut self.object, dx, dy, &game.map, enemies);
            Ai::Confused { previous_ai, num_turns: num_turns - 1 }
        } else {
            // restore the previous AI
            let mut text = String::from_str("The ");
            text.append(self.object.name.as_str());
            text.append(" is no longer confused!");
            game.messages.add(text.as_str(), Color::Red);
            *previous_ai
        }
    }

    /// The body moved by at most one cell in each direction, onto a free cell.
    pub open spec fn stumbled(old: Object, new: Object, map: Seq<Vec<Tile>>, others: Seq<Enemy>) -> bool {
        exists|dx: int, dy: int| -1 <= dx <= 1 && -1 <= dy <= 1 && #[trigger] step_result(old, new, dx, dy, map, others)
    }

    /// One turn of the monster `old` by its AI, against the other monsters
    /// `others`: `new`, `new_player` and `new_log` are what it leaves.
    pub open spec fn turn_result(
        old: Enemy,
        new: Enemy,
        visible: Visibility,
        map: Seq<Vec<Tile>>,
        others: Seq<Enemy>,
        old_player: Player,
        new_player: Player,
        old_log: Seq<(Seq<char>, Color)>,
        new_log: Seq<(Seq<char>, Color)>,
    ) -> bool {
        match old.ai {
            None => new == old && new_player == old_player && new_log == old_log,
            Some(ai) => {
                &&& new.ai == Some(next_ai(ai))
                &&& match ai {
                    Ai::Basic => Enemy::basic_turn(
                        old,
                        Enemy { ai: old.ai, ..new },
                        visible,
                        map,
                        others,
                        old_player,
                        new_player,
                        old_log,
                        new_log,
                    ),
                    Ai::Confused { previous_ai, num_turns } => {
                        &&& new_player == old_player
                        &&& if num_turns >= 0 {
                            &&& Enemy::stumbled(old.object, new.object, map, others)
                            &&& new_log == old_log
                        } else {
                            &&& new.object == old.object
                            &&& new_log == old_log.push((confusion_ends_text(old.object.name@), Color::Red))
                        }
                    },
                }
            },
        }
    }

    /// The monster takes its turn according to its AI, which then moves on to its
    /// next state. A monster without AI does nothing.
    pub fn ai_take_turn(&mut self, visible: &Visibility, game: &mut Game, other_enemies: &[Enemy], player: &mut Player)
        ensures
            final(game).same_but_log(old(game)),
            Enemy::turn_result(
                *old(self),
                *final(self),
                *visible,
                old(game).map@,
                other_enemies@,
                *old(player),
                *final(player),
                old(game).messages@,
                final(game).messages@,
            ),
    {
        if let Some(ai) = self.ai.take() {
            let new_ai = match ai {
                Ai::Basic => self.ai_basic(visible, game, other_enemies, player),
                Ai::Confused { previous_ai, num_turns } => self.ai_confused(
                    game,
                    other_enemies,
                    previous_ai,
                    num_turns,
                ),
            };
            self.ai = Some(new_ai);
        }
    }

    pub fn pos(&self) -> (p: (i32, i32))
        ensures
            p == (self.object.x, self.object.y),
    {
        (self.object.x, self.object.y)
    }

    pub fn get_x(&self) -> (x: i32)
        ensures
            x == self.object.x,
    {
        self.object.x
    }

    pub fn get_y(&self) -> (y: i32)
        ensures
            y == self.object.y,
    {
        self.object.y
    }

    pub fn get_name(&self) -> (n: String)
        ensures
            n@ == self.object.name@,
    {
        self.object.name.clone()
    }

    pub fn get_fighter(&self) -> (f: Option<&Fighter>)
        ensures
            f == match self.object.fighter {
                Some(x) => Some(&x),
                None => None::<&Fighter>,
            },
    {
        self.object.fighter.as_ref()
    }

    pub fn get_object(&self) -> (o: &Object)
        ensures
            *o == self.object,
    {
        &self.object
    }

    pub fn get_ai(&self) -> (a: Option<&Ai>)
        ensures
            a == match self.ai {
                Some(x) => Some(&x),
                None => None::<&Ai>,
            },
    {
        self.ai.as_ref()
    }
}

} // verus!
