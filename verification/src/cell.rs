//! The two-state cell and the rule by which it lives or dies.

use vstd::prelude::*;

verus! {

/// The state of one grid position.
#[derive(Clone, Copy, Debug, PartialEq, Eq, Structural)]
pub enum Cell {
    Dead,
    Alive,
}

impl Cell {
    /// The opposite state.
    pub open spec fn flipped(self) -> Cell {
        match self {
            Cell::Dead => Cell::Alive,
            Cell::Alive => Cell::Dead,
        }
    }

    /// The state of a cell in the next generation, given its present state
    /// and the number of its live neighbors.
    ///
    /// A live cell survives with two or three live neighbors; a dead cell
    /// is born with exactly three.
    pub open spec fn evolved(self, neighbors: nat) -> Cell {
        if neighbors == 3 || (self is Alive && neighbors == 2) {
            Cell::Alive
        } else {
            Cell::Dead
        }
    }

    /// The character that stands for this state in rendered text.
    pub open spec fn spec_glyph(self) -> char {
        match self {
            Cell::Dead => '◻',
            Cell::Alive => '◼',
        }
    }

    /// Whether this cell is alive.
    pub fn is_alive(&self) -> (alive: bool)
        ensures
            alive == (*self is Alive),
    {
        match self {
            Cell::Alive => true,
            Cell::Dead => false,
        }
    }

    /// Logical negation: `Alive` becomes `Dead` and `Dead` becomes `Alive`.
    pub fn negate(self) -> (flipped: Cell)
        ensures
            flipped == self.flipped(),
    {
        match self {
            Cell::Dead => Cell::Alive,
            Cell::Alive => Cell::Dead,
        }
    }

    /// Applies the life rule to this cell for one generation.
    pub fn evolve(self, neighbors: u8) -> (next: Cell)
        ensures
            next == self.evolved(neighbors as nat),
    {
        match self {
            Cell::Alive => {
                if neighbors < 2 {
                    Cell::Dead
                } else if neighbors <= 3 {
                    Cell::Alive
                } else {
                    Cell::Dead
                }
            },
            Cell::Dead => {
                if neighbors == 3 {
                    Cell::Alive
                } else {
                    Cell::Dead
                }
            },
        }
    }

    /// The glyph of this state as a text of one character.
    pub fn as_str(&self) -> (text: &'static str)
        ensures
            text@ == seq![self.spec_glyph()],
    {
        proof {
            reveal_strlit("◻");
            reveal_strlit("◼");
        }
        let text = match self {
            Cell::Dead => "◻",
            Cell::Alive => "◼",
        };
        assert(text@ =~= seq![self.spec_glyph()]);
        text
    }

    /// The character that stands for this state in rendered text.
    pub fn glyph(&self) -> (symbol: char)
        ensures
            symbol == self.spec_glyph(),
    {
        match self {
            Cell::Dead => '◻',
            Cell::Alive => '◼',
        }
    }
}

/// `!cell` is `cell.negate()`.
impl core::ops::Not for Cell {
    type Output = Cell;

    fn not(self) -> (flipped: Cell) {
        self.negate()
    }
}

impl vstd::std_specs::ops::NotSpecImpl for Cell {
    open spec fn obeys_not_spec() -> bool {
        true
    }

    open spec fn not_req(self) -> bool {
        true
    }

    open spec fn not_spec(self) -> Cell {
        self.flipped()
    }
}

} // verus!
