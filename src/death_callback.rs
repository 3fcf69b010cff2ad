use crate::color::Color;
use crate::enemy::{death_text, is_remains_of};
use crate::game::Game;
use crate::object::Object;
use vstd::prelude::*;

verus! {

/// Which death transition a body goes through.
#[derive(Clone, Copy, Debug, PartialEq, Eq, Structural)]
pub enum DeathCallback {
    Player,
    Monster,
}

impl DeathCallback {
    /// Turns a body into a dead one. The player's body stays where it is, drawn
    /// as a corpse, and the death is announced; a monster's body becomes its
    /// remains, which block nothing and no longer fight.
    pub fn callback(self, object: &mut Object, game: &mut Game)
        ensures
            final(game).same_but_log(old(game)),
            self == DeathCallback::Player ==> {
                &&& *final(object) == (Object { alive: false, char: '%', color: Color::DarkRed, ..*old(object) })
                &&& final(game).messages@ == old(game).messages@.push(("You died!"@, Color::Red))
            },
            self == DeathCallback::Monster ==> {
                &&& is_remains_of(*final(object), *old(object))
                &&& final(game).messages@ == old(game).messages@.push((death_text(old(object).name@), Color::Orange))
            },
    {
        match self {
            DeathCallback::Player => {
                game.messages.add("You died!", Color::Red);
                object.die();
                object.char = '%';
                object.color = Color::DarkRed;
            },
            DeathCallback::Monster => {
                object.die();
                object.char = '%';
                object.color = Color::DarkRed;
                object.blocks = false;
                object.fighter = None;
                let mut text = object.name.clone();
                text.append(" is dead!");
                game.messages.add(text.as_str(), Color::Orange);
                let mut remains = String::from_str("remains of ");
                remains.append(object.name.as_str());
                object.name = remains;
            },
        }
    }
}

} // verus!
