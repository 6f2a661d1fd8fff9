//! The rules engine: a pure transition function over game states, together
//! with the laws that every reachable state keeps its invariant and that a
//! finished game rejects every further action.
use vstd::prelude::*;

use crate::hex::{
    inside_board, is_adjacent, is_border, is_neighbor_of, lemma_adjacent_iff_neighbor, neighbors,
    spec_border, spec_inside, spec_neighbors, Coord,
};
use crate::types::{Action, GameModel, GameState, GameStatus, Turn};

verus! {

/// Why an action was rejected; rejection never changes the game.
#[derive(Clone, Copy, PartialEq, Eq, Structural, Debug)]
pub enum GameError {
    GameEnded,
    WrongTurn,
    OutsideBoard,
    Blocked,
    BlockMouse,
    NotNeighbor,
}

/// The wording of each rules error.
pub open spec fn spec_game_error_text(e: GameError) -> Seq<char> {
    match e {
        GameError::GameEnded => "game already ended"@,
        GameError::WrongTurn => "wrong turn"@,
        GameError::OutsideBoard => "cell not on board"@,
        GameError::Blocked => "cell is blocked"@,
        GameError::BlockMouse => "cannot block mouse cell"@,
        GameError::NotNeighbor => "mouse move must be to a neighbor"@,
    }
}

impl GameError {
    /// The error's wording on the wire.
    pub fn message(&self) -> (r: &'static str)
        ensures
            r@ == spec_game_error_text(*self),
    {
        match self {
            GameError::GameEnded => "game already ended",
            GameError::WrongTurn => "wrong turn",
            GameError::OutsideBoard => "cell not on board",
            GameError::Blocked => "cell is blocked",
            GameError::BlockMouse => "cannot block mouse cell",
            GameError::NotNeighbor => "mouse move must be to a neighbor",
        }
    }
}

/// The mouse still has a cell it may step to: some neighbor on the board and
/// not walled off.
pub open spec fn spec_has_legal_move(m: GameModel) -> bool {
    exists|c: Coord|
        is_adjacent(m.mouse, c) && spec_inside(c, m.cfg.radius as int) && !m.blocks.contains(c)
}

/// What a trapper move does to a well-formed or ill-formed model alike:
/// either the precise error, or the precise successor model.
pub open spec fn spec_place_block(m: GameModel, at: Coord) -> Result<GameModel, GameError> {
    if m.turn != Turn::Trapper {
        Err(GameError::WrongTurn)
    } else if !spec_inside(at, m.cfg.radius as int) {
        Err(GameError::OutsideBoard)
    } else if m.blocks.contains(at) {
        Err(GameError::Blocked)
    } else if at == m.mouse {
        Err(GameError::BlockMouse)
    } else {
        Ok(GameModel { blocks: m.blocks.push(at), turn: Turn::Mouse, ..m })
    }
}

/// What a mouse move does: either the precise error, or the precise successor
/// model, including the end-of-game bookkeeping.
pub open spec fn spec_move_mouse(m: GameModel, to: Coord) -> Result<GameModel, GameError> {
    if m.turn != Turn::Mouse {
        Err(GameError::WrongTurn)
    } else if !spec_inside(to, m.cfg.radius as int) {
        Err(GameError::OutsideBoard)
    } else if m.blocks.contains(to) {
        Err(GameError::Blocked)
    } else if !is_adjacent(m.mouse, to) {
        Err(GameError::NotNeighbor)
    } else {
        let moved = GameModel { mouse: to, ..m };
        if spec_border(to, m.cfg.radius as int) {
            Ok(GameModel { status: GameStatus::MouseWon, ..moved })
        } else if !spec_has_legal_move(moved) {
            Ok(GameModel { status: GameStatus::TrapperWon, ..moved })
        } else {
            Ok(GameModel { turn: Turn::Trapper, ..moved })
        }
    }
}

/// The complete transition relation of the game, as a function.
pub open spec fn spec_apply_action(m: GameModel, a: Action) -> Result<GameModel, GameError> {
    if m.status != GameStatus::Running {
        Err(GameError::GameEnded)
    } else {
        match a {
            Action::PlaceBlock { at } => spec_place_block(m, at),
            Action::MoveMouse { to } => spec_move_mouse(m, to),
        }
    }
}

/// The view of an engine result, for stating exactness in one clause.
pub open spec fn view_outcome(r: Result<GameState, GameError>) -> Result<GameModel, GameError> {
    match r {
        Ok(s) => Ok(s@),
        Err(e) => Err(e),
    }
}

/// Whether the mouse of a well-formed state still has a legal step.
pub fn mouse_has_legal_moves(s: &GameState) -> (r: bool)
    requires
        s@.wf(),
    ensures
        r == spec_has_legal_move(s@),
{
    let ns = neighbors(s.mouse);
    let mut i: usize = 0;
    while i < 6
        invariant
            0 <= i <= 6,
            s@.wf(),
            ns@ == spec_neighbors(s@.mouse),
            forall|k: int|
                0 <= k < i ==> !(spec_inside(ns@[k], s@.cfg.radius as int) && !s@.blocks.contains(
                    ns@[k],
                )),
        decreases 6 - i,
    {
        let c = ns[i];
        if inside_board(c, s.cfg.radius) && !s.is_blocked(c) {
            proof {
                lemma_adjacent_iff_neighbor(s@.mouse, c);
            }
            return true;
        }
        i += 1;
    }
    proof {
        assert forall|c: Coord|
            is_adjacent(s@.mouse, c) implies !(spec_inside(c, s@.cfg.radius as int)
            && !s@.blocks.contains(c)) by {
            lemma_adjacent_iff_neighbor(s@.mouse, c);
            let j = choose|j: int|
                0 <= j < spec_neighbors(s@.mouse).len() && spec_neighbors(s@.mouse)[j] == c;
            assert(ns@[j] == c);
        }
    }
    false
}

/// Apply one action to a game.
///
/// The outcome — success and the exact successor state, or the exact error —
/// is `spec_apply_action` of the inputs and of nothing else; on success the
/// state invariant is preserved.
pub fn apply_action(s: GameState, a: Action) -> (r: Result<GameState, GameError>)
    requires
        s@.wf(),
    ensures
        view_outcome(r) == spec_apply_action(s@, a),
        r matches Ok(s2) ==> s2@.wf(),
{
    let ghost m = s@;
    if !(s.status == GameStatus::Running) {
        return Err(GameError::GameEnded);
    }
    match a {
        Action::PlaceBlock { at } => {
            if !(s.turn == Turn::Trapper) {
                return Err(GameError::WrongTurn);
            }
            if !inside_board(at, s.cfg.radius) {
                return Err(GameError::OutsideBoard);
            }
            if s.is_blocked(at) {
                return Err(GameError::Blocked);
            }
            if at == s.mouse {
                return Err(GameError::BlockMouse);
            }
            let mut s = s;
            s.blocks.push(at);
            s.turn = Turn::Mouse;
            proof {
                assert(s@ == spec_place_block(m, at)->Ok_0);
                lemma_apply_action_preserves_wf(m, a);
            }
            Ok(s)
        },
        Action::MoveMouse { to } => {
            if !(s.turn == Turn::Mouse) {
                return Err(GameError::WrongTurn);
            }
            if !inside_board(to, s.cfg.radius) {
                return Err(GameError::OutsideBoard);
            }
            if s.is_blocked(to) {
                return Err(GameError::Blocked);
            }
            if !is_neighbor_of(s.mouse, to) {
                return Err(GameError::NotNeighbor);
            }
            let mut s = s;
            s.mouse = to;
            if is_border(s.mouse, s.cfg.radius) {
                s.status = GameStatus::MouseWon;
            } else if !mouse_has_legal_moves(&s) {
                s.status = GameStatus::TrapperWon;
            } else {
                s.turn = Turn::Trapper;
            }
            proof {
                lemma_apply_action_preserves_wf(m, a);
            }
            Ok(s)
        },
    }
}

/// The engine is a function of its inputs alone: states with one and the same
/// mathematical content, given one and the same action, are sent to one and
/// the same outcome.
pub proof fn lemma_apply_action_deterministic(s1: GameModel, s2: GameModel, a: Action)
    requires
        s1 == s2,
    ensures
        spec_apply_action(s1, a) == spec_apply_action(s2, a),
{
}

/// Preservation: a successful transition out of a well-formed state lands in
/// a well-formed state — in particular the mouse is still on the board and
/// not on a wall. With `make_initial_state` well-formed, every state
/// reachable by valid actions is well-formed, by induction on the play.
pub proof fn lemma_apply_action_preserves_wf(m: GameModel, a: Action)
    requires
        m.wf(),
    ensures
        spec_apply_action(m, a) matches Ok(m2) ==> m2.wf() && !m2.blocks.contains(m2.mouse)
            && spec_inside(m2.mouse, m2.cfg.radius as int),
{
    if spec_apply_action(m, a) is Ok {
        let m2 = spec_apply_action(m, a)->Ok_0;
        match a {
            Action::PlaceBlock { at } => {
                assert(m2.blocks =~= m.blocks.push(at));
                assert forall|c: Coord| m2.blocks.contains(c) implies spec_inside(
                    c,
                    m2.cfg.radius as int,
                ) by {
                    if c != at {
                        assert(m.blocks.contains(c));
                    }
                }
            },
            Action::MoveMouse { to } => {
            },
        }
    }
}

/// The state after a whole sequence of attempted actions: a successful one
/// advances the game, a rejected one leaves it exactly as it was.
pub open spec fn spec_run_actions(m: GameModel, actions: Seq<Action>) -> GameModel
    decreases actions.len(),
{
    if actions.len() <= 0 {
        m
    } else {
        let next = match spec_apply_action(m, actions[0]) {
            Ok(m2) => m2,
            Err(_) => m,
        };
        spec_run_actions(next, actions.skip(1))
    }
}

/// Every state reachable by repeated `apply_action` calls from a well-formed
/// state — in particular from a freshly generated one — is well-formed: the
/// mouse stays on the board and never stands on a wall.
pub proof fn lemma_reachable_states_keep_invariant(m: GameModel, actions: Seq<Action>)
    requires
        m.wf(),
    ensures
        spec_run_actions(m, actions).wf(),
        !spec_run_actions(m, actions).blocks.contains(spec_run_actions(m, actions).mouse),
        spec_inside(
            spec_run_actions(m, actions).mouse,
            spec_run_actions(m, actions).cfg.radius as int,
        ),
    decreases actions.len(),
{
    if actions.len() > 0 {
        lemma_apply_action_preserves_wf(m, actions[0]);
        let next = match spec_apply_action(m, actions[0]) {
            Ok(m2) => m2,
            Err(_) => m,
        };
        lemma_reachable_states_keep_invariant(next, actions.skip(1));
    }
}

/// Finality: once the status has left `Running`, every action — whatever it
/// is — fails with `GameEnded`, so the state can never change again.
pub proof fn lemma_finished_game_rejects_all(m: GameModel, a: Action)
    requires
        m.status != GameStatus::Running,
    ensures
        spec_apply_action(m, a) == Err::<GameModel, GameError>(GameError::GameEnded),
{
}

} // verus!
