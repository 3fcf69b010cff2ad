use vstd::prelude::*;

verus! {

/// One cell of the dungeon grid.
#[derive(Clone, Copy, Debug, PartialEq, Eq, Structural)]
pub struct Tile {
    pub blocked: bool,
    pub block_sight: bool,
}

impl Tile {
    /// A floor cell: passable and transparent.
    pub open spec fn floor() -> Tile {
        Tile { blocked: false, block_sight: false }
    }

    /// A wall cell: blocks movement and sight.
    pub open spec fn solid() -> Tile {
        Tile { blocked: true, block_sight: true }
    }

    pub fn empty() -> (t: Self)
        ensures
            t == Tile::floor(),
    {
        Tile { blocked: false, block_sight: false }
    }

    pub fn wall() -> (t: Self)
        ensures
            t == Tile::solid(),
    {
        Tile { blocked: true, block_sight: true }
    }

    pub fn is_blocked(&self) -> (b: bool)
        ensures
            b == self.blocked,
    {
        self.blocked
    }

    pub fn is_block_sight(&self) -> (b: bool)
        ensures
            b == self.block_sight,
    {
        self.block_sight
    }
}

} // verus!
