//! The board generator: enumerate every cell of the board except the center,
//! shuffle the list with the seeded generator, and wall off a prefix.
use vstd::prelude::*;

use crate::hex::{inside_board, origin, spec_distance, spec_inside, Coord};
use crate::rng::{
    lemma_fisher_yates_permutes, fisher_yates, spec_fisher_yates, spec_seed_state, XorShift64,
};
use crate::rules::{lemma_reachable_states_keep_invariant, spec_run_actions};
use crate::types::{Action, BoardConfig, GameModel, GameState, GameStatus, Turn, MAX_RADIUS};

verus! {

/// Board radius a room plays on.
pub const DEFAULT_RADIUS: i32 = 6;

/// Number of cells walled off before the first turn.
pub const DEFAULT_INITIAL_BLOCKS: usize = 8;

/// A cell the generator may wall off: on the board and not the mouse's start.
pub open spec fn cell_ok(c: Coord, radius: int) -> bool {
    spec_inside(c, radius) && c != origin()
}

/// The candidate cells of column `q` with row below `r_end`, in row order.
pub open spec fn spec_column_cells(radius: int, q: int, r_end: int) -> Seq<Coord>
    decreases r_end + radius,
{
    if r_end <= -radius {
        Seq::empty()
    } else {
        let prev = spec_column_cells(radius, q, r_end - 1);
        let c = Coord { q: q as i32, r: (r_end - 1) as i32 };
        if cell_ok(c, radius) {
            prev.push(c)
        } else {
            prev
        }
    }
}

/// The candidate cells of every column below `q_end`, column by column.
pub open spec fn spec_columns_cells(radius: int, q_end: int) -> Seq<Coord>
    decreases q_end + radius,
{
    if q_end <= -radius {
        Seq::empty()
    } else {
        spec_columns_cells(radius, q_end - 1) + spec_column_cells(radius, q_end - 1, radius + 1)
    }
}

/// Every cell the generator may wall off, in its fixed enumeration order.
pub open spec fn spec_board_cells(radius: int) -> Seq<Coord> {
    spec_columns_cells(radius, radius + 1)
}

proof fn lemma_column_cells_props(radius: int, q: int, r_end: int)
    requires
        0 <= radius <= MAX_RADIUS,
        -radius <= q <= radius,
        r_end <= radius + 1,
    ensures
        forall|k: int|
            0 <= k < spec_column_cells(radius, q, r_end).len() ==> (#[trigger] spec_column_cells(
                radius,
                q,
                r_end,
            )[k]).q == q && spec_column_cells(radius, q, r_end)[k].r < r_end && cell_ok(
                spec_column_cells(radius, q, r_end)[k],
                radius,
            ),
        spec_column_cells(radius, q, r_end).no_duplicates(),
    decreases r_end + radius,
{
    if r_end > -radius {
        lemma_column_cells_props(radius, q, r_end - 1);
        let prev = spec_column_cells(radius, q, r_end - 1);
        let c = Coord { q: q as i32, r: (r_end - 1) as i32 };
        if cell_ok(c, radius) {
            let cur = prev.push(c);
            assert forall|p: int, t: int|
                0 <= p < cur.len() && 0 <= t < cur.len() && p != t implies cur[p] != cur[t] by {
                if p < prev.len() && t < prev.len() {
                } else if p < prev.len() {
                    assert(cur[p].r < r_end - 1 && cur[t] == c);
                } else {
                    assert(cur[t].r < r_end - 1 && cur[p] == c);
                }
            }
        }
    }
}

proof fn lemma_columns_cells_props(radius: int, q_end: int)
    requires
        0 <= radius <= MAX_RADIUS,
        q_end <= radius + 1,
    ensures
        forall|k: int|
            0 <= k < spec_columns_cells(radius, q_end).len() ==> (#[trigger] spec_columns_cells(
                radius,
                q_end,
            )[k]).q < q_end && cell_ok(spec_columns_cells(radius, q_end)[k], radius),
        spec_columns_cells(radius, q_end).no_duplicates(),
    decreases q_end + radius,
{
    if q_end > -radius {
        lemma_columns_cells_props(radius, q_end - 1);
        lemma_column_cells_props(radius, q_end - 1, radius + 1);
        let a = spec_columns_cells(radius, q_end - 1);
        let b = spec_column_cells(radius, q_end - 1, radius + 1);
        let cur = a + b;
        assert forall|p: int, t: int|
            0 <= p < cur.len() && 0 <= t < cur.len() && p != t implies cur[p] != cur[t] by {
            if p < a.len() && t < a.len() {
                assert(cur[p] == a[p] && cur[t] == a[t]);
            } else if p < a.len() {
                assert(cur[p] == a[p] && cur[t] == b[t - a.len()]);
                assert(cur[p].q < q_end - 1 && cur[t].q == q_end - 1);
            } else if t < a.len() {
                assert(cur[t] == a[t] && cur[p] == b[p - a.len()]);
                assert(cur[t].q < q_end - 1 && cur[p].q == q_end - 1);
            } else {
                assert(cur[p] == b[p - a.len()] && cur[t] == b[t - a.len()]);
            }
        }
    }
}

/// What the generator owes: cells of the board shuffled by the seeded
/// generator, a prefix of them walled off, the mouse at the center, the
/// trapper to move, the game open.
pub open spec fn spec_initial_state(radius: i32, initial_blocks: usize, seed: u64) -> GameModel {
    let cells = spec_board_cells(radius as int);
    let shuffled = spec_fisher_yates(cells, spec_seed_state(seed), cells.len() - 1).0;
    let nb = if initial_blocks as int <= shuffled.len() {
        initial_blocks as int
    } else {
        shuffled.len() as int
    };
    GameModel {
        cfg: BoardConfig { radius, initial_blocks, seed },
        mouse: origin(),
        blocks: shuffled.take(nb),
        turn: Turn::Trapper,
        status: GameStatus::Running,
    }
}

/// Generate the opening state of a game: deterministic in its three
/// arguments, and well-formed.
pub fn make_initial_state(radius: i32, initial_blocks: usize, seed: u64) -> (r: GameState)
    requires
        0 <= radius <= MAX_RADIUS,
    ensures
        r@ == spec_initial_state(radius, initial_blocks, seed),
        r@.wf(),
{
    let ghost radius_i = radius as int;
    let mut all: Vec<Coord> = Vec::new();
    let mut q: i32 = -radius;
    while q <= radius
        invariant
            0 <= radius <= MAX_RADIUS,
            -radius <= q <= radius + 1,
            all@ == spec_columns_cells(radius_i, q as int),
            radius_i == radius as int,
        decreases radius + 1 - q,
    {
        let mut r: i32 = -radius;
        while r <= radius
            invariant
                0 <= radius <= MAX_RADIUS,
                -radius <= q <= radius,
                -radius <= r <= radius + 1,
                all@ == spec_columns_cells(radius_i, q as int) + spec_column_cells(
                    radius_i,
                    q as int,
                    r as int,
                ),
                radius_i == radius as int,
            decreases radius + 1 - r,
        {
            let c = Coord { q, r };
            if inside_board(c, radius) && !(c.q == 0 && c.r == 0) {
                all.push(c);
            }
            r += 1;
        }
        q += 1;
    }
    proof {
        assert(all@ == spec_board_cells(radius_i));
        lemma_columns_cells_props(radius_i, radius_i + 1);
    }
    let ghost cells = all@;
    let n_cells: usize = all.len();
    let mut rng = XorShift64::new(seed);
    fisher_yates(&mut all, &mut rng);
    proof {
        assert(cells.len() == n_cells);
        if cells.len() > 0 {
            lemma_fisher_yates_permutes(cells, spec_seed_state(seed), cells.len() - 1);
        }
    }
    let ghost shuffled = all@;
    let n: usize = if initial_blocks < all.len() {
        initial_blocks
    } else {
        all.len()
    };
    all.truncate(n);
    let r = GameState {
        cfg: BoardConfig { radius, initial_blocks, seed },
        mouse: Coord { q: 0, r: 0 },
        blocks: all,
        turn: Turn::Trapper,
        status: GameStatus::Running,
    };
    proof {
        assert(r.blocks@ =~= shuffled.take(n as int));
        assert(r@ == spec_initial_state(radius, initial_blocks, seed));
        lemma_initial_state_wf(radius, initial_blocks, seed);
    }
    r
}

proof fn lemma_column_cells_len(radius: int, q: int, r_end: int)
    requires
        0 <= radius,
    ensures
        spec_column_cells(radius, q, r_end).len() <= if r_end + radius >= 0 {
            r_end + radius
        } else {
            0
        },
    decreases r_end + radius,
{
    if r_end > -radius {
        lemma_column_cells_len(radius, q, r_end - 1);
    }
}

proof fn lemma_columns_cells_len(radius: int, q_end: int)
    requires
        0 <= radius <= MAX_RADIUS,
        q_end <= radius + 1,
    ensures
        spec_columns_cells(radius, q_end).len() <= (if q_end + radius >= 0 {
            q_end + radius
        } else {
            0
        }) * (2 * radius + 1),
    decreases q_end + radius,
{
    let n = 2 * radius + 1;
    if q_end > -radius {
        lemma_columns_cells_len(radius, q_end - 1);
        lemma_column_cells_len(radius, q_end - 1, radius + 1);
        let a = q_end - 1 + radius;
        assert((a + 1) * n == a * n + n) by (nonlinear_arith);
    } else {
        assert((if q_end + radius >= 0 {
            q_end + radius
        } else {
            0
        }) * n >= 0) by (nonlinear_arith)
            requires
                n > 0,
                (if q_end + radius >= 0 {
                    q_end + radius
                } else {
                    0
                }) >= 0,
        ;
    }
}

/// A freshly generated state satisfies the game invariant — stated of the
/// model alone, so it composes with the reachability law without running the
/// generator.
pub proof fn lemma_initial_state_wf(radius: i32, initial_blocks: usize, seed: u64)
    requires
        0 <= radius <= MAX_RADIUS,
    ensures
        spec_initial_state(radius, initial_blocks, seed).wf(),
{
    let radius_i = radius as int;
    let cells = spec_board_cells(radius_i);
    lemma_columns_cells_props(radius_i, radius_i + 1);
    lemma_columns_cells_len(radius_i, radius_i + 1);
    assert((2 * radius_i + 1) * (2 * radius_i + 1) <= 2001 * 2001) by (nonlinear_arith)
        requires
            0 < 2 * radius_i + 1 <= 2001,
    ;
    if cells.len() > 0 {
        lemma_fisher_yates_permutes(cells, spec_seed_state(seed), cells.len() - 1);
    }
    let m = spec_initial_state(radius, initial_blocks, seed);
    let shuffled = spec_fisher_yates(cells, spec_seed_state(seed), cells.len() - 1).0;
    assert forall|p: int, t: int|
        0 <= p < m.blocks.len() && 0 <= t < m.blocks.len() && p != t implies m.blocks[p]
        != m.blocks[t] by {
        assert(m.blocks[p] == shuffled[p] && m.blocks[t] == shuffled[t]);
    }
    assert forall|c: Coord| m.blocks.contains(c) implies cell_ok(c, radius_i) by {
        let k = choose|k: int| 0 <= k < m.blocks.len() && m.blocks[k] == c;
        assert(shuffled[k] == c);
        assert(shuffled.contains(c));
        assert(cells.contains(c));
        let k2 = choose|k2: int| 0 <= k2 < cells.len() && cells[k2] == c;
        assert(cell_ok(cells[k2], radius_i));
    }
    assert(spec_distance(origin(), origin()) == 0);
    assert(!m.blocks.contains(m.mouse)) by {
        if m.blocks.contains(origin()) {
            assert(cell_ok(origin(), radius_i));
        }
    }
    assert forall|c: Coord| m.blocks.contains(c) implies spec_inside(c, m.cfg.radius as int) by {
        assert(cell_ok(c, radius_i));
    }
}

/// The reachable-state invariant, end to end: every state reachable by
/// repeated `apply_action` calls from a freshly generated state is
/// well-formed — the mouse stays on the board and never stands on a wall.
pub proof fn lemma_generated_states_keep_invariant(
    radius: i32,
    initial_blocks: usize,
    seed: u64,
    actions: Seq<Action>,
)
    requires
        0 <= radius <= MAX_RADIUS,
    ensures
        ({
            let m = spec_run_actions(spec_initial_state(radius, initial_blocks, seed), actions);
            m.wf() && !m.blocks.contains(m.mouse) && spec_inside(m.mouse, m.cfg.radius as int)
        }),
{
    lemma_initial_state_wf(radius, initial_blocks, seed);
    lemma_reachable_states_keep_invariant(
        spec_initial_state(radius, initial_blocks, seed),
        actions,
    );
}

} // verus!
