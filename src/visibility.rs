use vstd::prelude::*;

verus! {

/// Which map cells are in view this turn, indexed `[x][y]`; it is computed
/// outside the library from the player's position.
pub struct Visibility {
    pub cells: Vec<Vec<bool>>,
}

impl Visibility {
    pub open spec fn visible_at(&self, x: int, y: int) -> bool {
        &&& 0 <= x < self.cells@.len()
        &&& 0 <= y < self.cells@[x]@.len()
        &&& self.cells@[x]@[y]
    }

    pub fn new(cells: Vec<Vec<bool>>) -> (v: Self)
        ensures
            v.cells@ == cells@,
    {
        Visibility { cells }
    }

    /// Whether the cell is in view; cells off the grid are not.
    pub fn is_visible(&self, x: i32, y: i32) -> (b: bool)
        ensures
            b == self.visible_at(x as int, y as int),
    {
        if x < 0 || y < 0 {
            return false;
        }
        let xu = x as usize;
        let yu = y as usize;
        if xu >= self.cells.len() {
            return false;
        }
        if yu >= self.cells[xu].len() {
            return false;
        }
        self.cells[xu][yu]
    }
}

} // verus!
