//! The game's data model: board configuration, game state, player intents,
//! and the mathematical view and well-formedness invariant that the rules
//! engine's contracts are stated over.
use vstd::prelude::*;

use crate::hex::{spec_inside, Coord};

verus! {

/// Largest board radius the generator and the rules accept; boards beyond it
/// would no longer fit the cell-count and coordinate arithmetic.
pub const MAX_RADIUS: i32 = 1000;

/// Whose move it is.
#[derive(Clone, Copy, PartialEq, Eq, Structural, Debug)]
pub enum Turn {
    Trapper,
    Mouse,
}

/// Whether the game is still open, or who has won.
#[derive(Clone, Copy, PartialEq, Eq, Structural, Debug)]
pub enum GameStatus {
    Running,
    TrapperWon,
    MouseWon,
}

/// The immutable parameters a game was generated with.
#[derive(Clone, Copy, PartialEq, Eq, Structural, Debug)]
pub struct BoardConfig {
    pub radius: i32,
    pub initial_blocks: usize,
    pub seed: u64,
}

/// A client's intent: wall a cell off, or step the mouse.
#[derive(Clone, Copy, PartialEq, Eq, Structural, Debug)]
pub enum Action {
    PlaceBlock { at: Coord },
    MoveMouse { to: Coord },
}

/// The authoritative state of one game.
///
/// The blocked cells are kept as a duplicate-free vector; their order is the
/// order in which they were created.
#[derive(Clone, Debug)]
pub struct GameState {
    pub cfg: BoardConfig,
    pub mouse: Coord,
    pub blocks: Vec<Coord>,
    pub turn: Turn,
    pub status: GameStatus,
}

/// The mathematical image of a [`GameState`].
pub struct GameModel {
    pub cfg: BoardConfig,
    pub mouse: Coord,
    pub blocks: Seq<Coord>,
    pub turn: Turn,
    pub status: GameStatus,
}

impl View for GameState {
    type V = GameModel;

    open spec fn view(&self) -> GameModel {
        GameModel {
            cfg: self.cfg,
            mouse: self.mouse,
            blocks: self.blocks@,
            turn: self.turn,
            status: self.status,
        }
    }
}

impl GameModel {
    /// The invariant every reachable game state satisfies: a lawful radius,
    /// the mouse on the board and not on a wall, every wall on the board,
    /// and no wall recorded twice.
    pub open spec fn wf(self) -> bool {
        &&& 0 <= self.cfg.radius <= MAX_RADIUS
        &&& spec_inside(self.mouse, self.cfg.radius as int)
        &&& !self.blocks.contains(self.mouse)
        &&& forall|c: Coord| self.blocks.contains(c) ==> spec_inside(c, self.cfg.radius as int)
        &&& self.blocks.no_duplicates()
    }
}

impl GameState {
    /// An element-by-element copy whose view equals this state's view.
    pub fn duplicate(&self) -> (r: GameState)
        ensures
            r@ == self@,
    {
        let mut blocks: Vec<Coord> = Vec::new();
        let mut i: usize = 0;
        while i < self.blocks.len()
            invariant
                i <= self.blocks.len(),
                blocks@ == self.blocks@.take(i as int),
            decreases self.blocks.len() - i,
        {
            blocks.push(self.blocks[i]);
            proof {
                assert(blocks@ =~= self.blocks@.take(i as int + 1));
            }
            i += 1;
        }
        proof {
            assert(blocks@ =~= self.blocks@);
        }
        let r = GameState {
            cfg: self.cfg,
            mouse: self.mouse,
            blocks,
            turn: self.turn,
            status: self.status,
        };
        r
    }

    /// Whether a cell is currently walled off.
    pub fn is_blocked(&self, c: Coord) -> (r: bool)
        ensures
            r == self@.blocks.contains(c),
    {
        let mut i: usize = 0;
        while i < self.blocks.len()
            invariant
                i <= self.blocks.len(),
                forall|k: int| 0 <= k < i ==> self.blocks@[k] != c,
            decreases self.blocks.len() - i,
        {
            if self.blocks[i].q == c.q && self.blocks[i].r == c.r {
                return true;
            }
            i += 1;
        }
        false
    }
}

impl PartialEq for GameState {
    fn eq(&self, other: &GameState) -> (r: bool) {
        if !(self.cfg == other.cfg) {
            return false;
        }
        if !(self.mouse == other.mouse) {
            return false;
        }
        if !(self.turn == other.turn) {
            return false;
        }
        if !(self.status == other.status) {
            return false;
        }
        if self.blocks.len() != other.blocks.len() {
            return false;
        }
        let mut i: usize = 0;
        while i < self.blocks.len()
            invariant
                i <= self.blocks.len(),
                self.blocks.len() == other.blocks.len(),
                forall|k: int| 0 <= k < i ==> self.blocks@[k] == other.blocks@[k],
            decreases self.blocks.len() - i,
        {
            if !(self.blocks[i] == other.blocks[i]) {
                return false;
            }
            i += 1;
        }
        proof {
            assert(self.blocks@ =~= other.blocks@);
        }
        true
    }
}

impl vstd::std_specs::cmp::PartialEqSpecImpl for GameState {
    open spec fn obeys_eq_spec() -> bool {
        true
    }

    open spec fn eq_spec(&self, other: &GameState) -> bool {
        self@ == other@
    }
}

} // verus!
