//! The bot's move chooser: a breadth-first search from the mouse's cell over
//! the free cells of the board, aiming at the first border cell the search
//! discovers, with the fixed neighbor order of [`crate::hex::neighbors`]
//! breaking ties.
use vstd::pervasive::VecAdditionalExecFns;
use vstd::prelude::*;
use vstd::set_lib::{lemma_int_range, lemma_len_subset, set_int_range};

use crate::hex::{
    inside_board, is_adjacent, is_border, lemma_adjacent_iff_neighbor, neighbors, origin,
    spec_border, spec_distance, spec_inside, spec_neighbors, Coord,
};
use crate::rules::spec_has_legal_move;
use crate::types::{GameModel, GameState, MAX_RADIUS};

verus! {

/// A cell the mouse may stand on: on the board and not walled off.
pub open spec fn free_cell(m: GameModel, c: Coord) -> bool {
    spec_inside(c, m.cfg.radius as int) && !m.blocks.contains(c)
}

/// The mouse stands one legal step away from winning: some neighbor is free
/// and on the board's rim.
pub open spec fn spec_has_border_step(m: GameModel) -> bool {
    exists|c: Coord|
        is_adjacent(m.mouse, c) && free_cell(m, c) && spec_border(c, m.cfg.radius as int)
}

/// A queued entry that is its own first step and sits on the rim: once the
/// search reaches it, the winning step comes back.
pub open spec fn entry_is_rim_step(e: (Coord, Coord), m: GameModel, rad: int) -> bool {
    e.1 == e.0 && spec_border(e.0, rad) && is_adjacent(m.mouse, e.0) && free_cell(m, e.0)
}

/// On a board with no walls, a mouse standing one step from the rim always
/// has a winning step: some neighbor going outward is free and on the rim —
/// so the chooser, which never overlooks such a step, takes the rim.
pub proof fn lemma_open_board_has_rim_step(m: GameModel)
    requires
        m.wf(),
        m.blocks.len() == 0,
        spec_distance(origin(), m.mouse) + 1 == m.cfg.radius as int,
    ensures
        spec_has_border_step(m),
{
    let rad = m.cfg.radius as int;
    let x = m.mouse.q as int;
    let z = m.mouse.r as int;
    let y = -x - z;
    let d0 = spec_distance(origin(), m.mouse);
    let c = if x == d0 {
        Coord { q: (x + 1) as i32, r: (z - 1) as i32 }
    } else if x == -d0 {
        Coord { q: (x - 1) as i32, r: (z + 1) as i32 }
    } else if y == d0 {
        Coord { q: x as i32, r: (z - 1) as i32 }
    } else if y == -d0 {
        Coord { q: x as i32, r: (z + 1) as i32 }
    } else if z == d0 {
        Coord { q: x as i32, r: (z + 1) as i32 }
    } else {
        Coord { q: x as i32, r: (z - 1) as i32 }
    };
    assert(is_adjacent(m.mouse, c) && spec_distance(origin(), c) == d0 + 1);
    assert(free_cell(m, c) && spec_border(c, rad));
}

/// Position of a cell in the row-major table of the `(2 radius + 1)` square
/// that the board sits in.
pub open spec fn spec_cell_index(c: Coord, radius: int) -> int {
    (c.q + radius) * (2 * radius + 1) + (c.r + radius)
}

/// The cell is already recorded in the queue.
pub open spec fn in_queue(q: Seq<(Coord, Coord)>, c: Coord) -> bool {
    exists|k: int| 0 <= k < q.len() && (#[trigger] q[k]).0 == c
}

/// Seed the search: walk the root's neighbors from `i` on, in the fixed
/// order, appending each free, unrecorded one as its own first step.
pub open spec fn spec_seed(m: GameModel, start: Coord, q: Seq<(Coord, Coord)>, i: int) -> Seq<
    (Coord, Coord),
>
    decreases 6 - i,
{
    if i < 0 || i >= 6 {
        q
    } else {
        let z = spec_neighbors(start)[i];
        let q2 = if free_cell(m, z) && z != start && !in_queue(q, z) {
            q.push((z, z))
        } else {
            q
        };
        spec_seed(m, start, q2, i + 1)
    }
}

/// Expand one reached cell: walk its neighbors from `i` on, in the fixed
/// order, appending each free, unrecorded one under the reached cell's own
/// first step.
pub open spec fn spec_expand(
    m: GameModel,
    start: Coord,
    q: Seq<(Coord, Coord)>,
    cur: Coord,
    step: Coord,
    i: int,
) -> Seq<(Coord, Coord)>
    decreases 6 - i,
{
    if i < 0 || i >= 6 {
        q
    } else {
        let z = spec_neighbors(cur)[i];
        let q2 = if free_cell(m, z) && z != start && !in_queue(q, z) {
            q.push((z, step))
        } else {
            q
        };
        spec_expand(m, start, q2, cur, step, i + 1)
    }
}

/// The search itself: take queued cells first-in-first-out; the first one on
/// the rim decides, and every other one adds its neighbors. The fuel only
/// bounds the recursion; the search never runs out of it, since the queue
/// cannot outgrow the board.
pub open spec fn spec_bfs(
    m: GameModel,
    start: Coord,
    q: Seq<(Coord, Coord)>,
    head: int,
    fuel: int,
) -> Option<Coord>
    decreases fuel,
{
    if head < 0 || head >= q.len() || fuel <= 0 {
        None
    } else if q[head].0 != start && spec_border(q[head].0, m.cfg.radius as int) {
        Some(q[head].1)
    } else {
        spec_bfs(m, start, spec_expand(m, start, q, q[head].0, q[head].1, 0), head + 1, fuel - 1)
    }
}

/// The fallback when no rim cell is reachable: the first free neighbor, in
/// the fixed order.
pub open spec fn spec_fallback(m: GameModel, i: int) -> Option<Coord>
    decreases 6 - i,
{
    if i < 0 || i >= 6 {
        None
    } else {
        let z = spec_neighbors(m.mouse)[i];
        if free_cell(m, z) {
            Some(z)
        } else {
            spec_fallback(m, i + 1)
        }
    }
}

/// The whole search from a fresh seed: what the rim hunt answers.
pub open spec fn spec_bfs_result(m: GameModel) -> Option<Coord> {
    let n2 = (2 * m.cfg.radius as int + 1) * (2 * m.cfg.radius as int + 1);
    spec_bfs(m, m.mouse, spec_seed(m, m.mouse, Seq::empty(), 0), 0, n2 + 1)
}

/// The move chooser as a function of the game alone: seed with the mouse's
/// free neighbors, run the first-in-first-out search toward the rim, fall
/// back to the first free neighbor. This is the whole behavior — one value
/// per state, ties broken by the fixed neighbor order.
pub open spec fn spec_choose_mouse_move(m: GameModel) -> Option<Coord> {
    match spec_bfs_result(m) {
        Some(c) => Some(c),
        None => spec_fallback(m, 0),
    }
}

/// An on-board cell's table position is a lawful table index.
proof fn lemma_cell_index_bounds(c: Coord, radius: int)
    requires
        0 <= radius <= MAX_RADIUS,
        spec_inside(c, radius),
    ensures
        0 <= spec_cell_index(c, radius) < (2 * radius + 1) * (2 * radius + 1),
{
    let n = 2 * radius + 1;
    let a = c.q + radius;
    let b = c.r + radius;
    assert(0 <= a < n && 0 <= b < n);
    assert(0 <= a * n + b < n * n) by (nonlinear_arith)
        requires
            0 <= a < n,
            0 <= b < n,
    ;
}

/// On-board cells at one table position are one cell.
proof fn lemma_cell_index_injective(c1: Coord, c2: Coord, radius: int)
    requires
        0 <= radius <= MAX_RADIUS,
        spec_inside(c1, radius),
        spec_inside(c2, radius),
        spec_cell_index(c1, radius) == spec_cell_index(c2, radius),
    ensures
        c1 == c2,
{
    let n = 2 * radius + 1;
    let a1 = c1.q + radius;
    let b1 = c1.r + radius;
    let a2 = c2.q + radius;
    let b2 = c2.r + radius;
    assert(a1 == a2 && b1 == b2) by (nonlinear_arith)
        requires
            a1 * n + b1 == a2 * n + b2,
            0 <= a1 < n,
            0 <= b1 < n,
            0 <= a2 < n,
            0 <= b2 < n,
    ;
}

/// The marking bit and the record agree: a cell's bit is set exactly when it
/// is the root or already queued.
proof fn lemma_seen_iff_recorded(
    vis: Seq<bool>,
    q: Seq<(Coord, Coord)>,
    start: Coord,
    z: Coord,
    rad: int,
    ncells: int,
    start_idx: int,
)
    requires
        0 <= rad <= MAX_RADIUS,
        vis.len() == ncells,
        ncells == (2 * rad + 1) * (2 * rad + 1),
        spec_inside(start, rad),
        spec_inside(z, rad),
        start_idx == spec_cell_index(start, rad),
        0 <= start_idx < ncells,
        vis[start_idx],
        forall|k: int| 0 <= k < q.len() ==> spec_inside((#[trigger] q[k]).0, rad),
        forall|k: int| 0 <= k < q.len() ==> 0 <= #[trigger] spec_cell_index(q[k].0, rad) < ncells,
        forall|k: int| 0 <= k < q.len() ==> vis[spec_cell_index((#[trigger] q[k]).0, rad)],
        forall|idx: int|
            0 <= idx < ncells && #[trigger] vis[idx] ==> idx == start_idx || exists|k: int|
                0 <= k < q.len() && spec_cell_index((#[trigger] q[k]).0, rad) == idx,
    ensures
        vis[spec_cell_index(z, rad)] <==> (z == start || in_queue(q, z)),
{
    lemma_cell_index_bounds(z, rad);
    let zi = spec_cell_index(z, rad);
    if vis[zi] {
        if zi == start_idx {
            lemma_cell_index_injective(z, start, rad);
        } else {
            let k = choose|k: int|
                0 <= k < q.len() && spec_cell_index((#[trigger] q[k]).0, rad) == zi;
            lemma_cell_index_injective(q[k].0, z, rad);
            assert(in_queue(q, z));
        }
    }
    if z == start {
        assert(vis[zi]);
    }
    if in_queue(q, z) {
        let k = choose|k: int| 0 <= k < q.len() && (#[trigger] q[k]).0 == z;
        assert(vis[spec_cell_index(q[k].0, rad)]);
    }
}

/// A duplicate-free sequence of table positions cannot outgrow the table.
proof fn lemma_queue_len_bound(q: Seq<(Coord, Coord)>, radius: int, n2: int)
    requires
        forall|k: int| 0 <= k < q.len() ==> 0 <= #[trigger] spec_cell_index(q[k].0, radius) < n2,
        forall|k1: int, k2: int|
            0 <= k1 < q.len() && 0 <= k2 < q.len() && k1 != k2 ==> spec_cell_index(
                #[trigger] q[k1].0,
                radius,
            ) != spec_cell_index(#[trigger] q[k2].0, radius),
        n2 >= 0,
    ensures
        q.len() <= n2,
{
    let idxs = Seq::new(q.len(), |k: int| spec_cell_index(q[k].0, radius));
    assert(idxs.no_duplicates());
    idxs.unique_seq_to_set();
    assert(idxs.to_set().subset_of(set_int_range(0, n2))) by {
        assert forall|x: int| idxs.to_set().contains(x) implies set_int_range(0, n2).contains(
            x,
        ) by {
            let k = choose|k: int| 0 <= k < idxs.len() && idxs[k] == x;
            assert(0 <= spec_cell_index(q[k].0, radius) < n2);
        }
    }
    lemma_int_range(0, n2);
    lemma_len_subset(idxs.to_set(), set_int_range(0, n2));
}

/// After seeding, some queued entry already is the winning step whenever one
/// exists: the seeded queue holds every free neighbor as its own first step.
proof fn lemma_seed_rim_witness(m: GameModel, start: Coord, ns: Seq<Coord>, q: Seq<(Coord, Coord)>, rad: int)
    requires
        0 <= rad <= MAX_RADIUS,
        rad == m.cfg.radius as int,
        start == m.mouse,
        spec_inside(start, rad),
        ns == spec_neighbors(start),
        spec_has_border_step(m),
        forall|k: int| 0 <= k < q.len() ==> (#[trigger] q[k]).1 == q[k].0,
        forall|k: int| 0 <= k < q.len() ==> free_cell(m, (#[trigger] q[k]).0) && is_adjacent(start, q[k].0),
        forall|j: int|
            0 <= j < 6 && free_cell(m, #[trigger] ns[j]) ==> exists|k: int|
                0 <= k < q.len() && (#[trigger] q[k]).0 == ns[j],
    ensures
        exists|p: int|
            0 <= p < q.len() && #[trigger] entry_is_rim_step(q[p], m, rad) && (forall|k: int|
                0 <= k < p ==> (#[trigger] q[k]).1 == q[k].0),
{
    let b = choose|c: Coord| is_adjacent(m.mouse, c) && free_cell(m, c) && spec_border(c, rad);
    lemma_adjacent_iff_neighbor(start, b);
    let j = choose|j: int| 0 <= j < spec_neighbors(start).len() && spec_neighbors(start)[j] == b;
    assert(free_cell(m, ns[j]));
    let kb = choose|k: int| 0 <= k < q.len() && (#[trigger] q[k]).0 == ns[j];
    assert(entry_is_rim_step(q[kb], m, rad));
}

/// Expansion only appends: what is queued stays, at its place.
proof fn lemma_expand_extends(
    m: GameModel,
    start: Coord,
    q: Seq<(Coord, Coord)>,
    cur: Coord,
    step: Coord,
    i: int,
)
    ensures
        spec_expand(m, start, q, cur, step, i).len() >= q.len(),
        forall|k: int|
            0 <= k < q.len() ==> #[trigger] spec_expand(m, start, q, cur, step, i)[k] == q[k],
    decreases 6 - i,
{
    if 0 <= i < 6 {
        let z = spec_neighbors(cur)[i];
        let q2 = if free_cell(m, z) && z != start && !in_queue(q, z) {
            q.push((z, step))
        } else {
            q
        };
        lemma_expand_extends(m, start, q2, cur, step, i + 1);
    }
}

/// Once some queued entry is its own rim step and nothing before it hides
/// behind another first step, the search answers with a rim cell.
proof fn lemma_bfs_finds_rim(
    m: GameModel,
    start: Coord,
    q: Seq<(Coord, Coord)>,
    head: int,
    fuel: int,
    p: int,
)
    requires
        start == m.mouse,
        0 <= head <= p < q.len(),
        entry_is_rim_step(q[p], m, m.cfg.radius as int),
        forall|k: int| head <= k < p ==> (#[trigger] q[k]).1 == q[k].0,
        forall|k: int| head <= k <= p ==> (#[trigger] q[k]).0 != start,
        fuel > p - head,
    ensures
        (spec_bfs(m, start, q, head, fuel) matches Some(c) && spec_border(
            c,
            m.cfg.radius as int,
        )),
    decreases fuel,
{
    let rad = m.cfg.radius as int;
    assert(0 <= head < q.len() && fuel >= 1);
    if q[head].0 != start && spec_border(q[head].0, rad) {
        assert(spec_bfs(m, start, q, head, fuel) =~= Some(q[head].1));
        if head < p {
            assert(q[head].1 == q[head].0);
        } else {
            assert(q[head].1 == q[head].0 && spec_border(q[head].0, rad));
        }
    } else {
        assert(head != p);
        lemma_expand_extends(m, start, q, q[head].0, q[head].1, 0);
        assert(spec_expand(m, start, q, q[head].0, q[head].1, 0)[p] == q[p]);
        assert forall|k: int|
            head + 1 <= k < p implies (#[trigger] spec_expand(
            m,
            start,
            q,
            q[head].0,
            q[head].1,
            0,
        )[k]).1 == spec_expand(m, start, q, q[head].0, q[head].1, 0)[k].0 by {
            assert(spec_expand(m, start, q, q[head].0, q[head].1, 0)[k] == q[k]);
        }
        assert forall|k: int|
            head + 1 <= k <= p implies (#[trigger] spec_expand(
            m,
            start,
            q,
            q[head].0,
            q[head].1,
            0,
        )[k]).0 != start by {
            assert(spec_expand(m, start, q, q[head].0, q[head].1, 0)[k] == q[k]);
        }
        lemma_bfs_finds_rim(
            m,
            start,
            spec_expand(m, start, q, q[head].0, q[head].1, 0),
            head + 1,
            fuel - 1,
            p,
        );
    }
}

/// The rim hunt: the first-in-first-out search from the mouse's cell toward
/// the nearest reachable border cell.
#[verifier::loop_isolation(false)]
#[verifier::rlimit(100)]
fn rim_search(s: &GameState) -> (r: Option<Coord>)
    requires
        s@.wf(),
    ensures
        r == spec_bfs_result(s@),
        r matches Some(c) ==> is_adjacent(s@.mouse, c) && spec_inside(c, s@.cfg.radius as int)
            && !s@.blocks.contains(c),
        spec_has_border_step(s@) ==> (r matches Some(c) && spec_border(c, s@.cfg.radius as int)),
{
    let ghost m = s@;
    let radius: i32 = s.cfg.radius;
    let ghost rad = radius as int;
    let n: usize = (2 * radius + 1) as usize;
    proof {
        assert(n * n <= 2001 * 2001) by (nonlinear_arith)
            requires
                0 < n <= 2001,
        ;
    }
    let ncells: usize = n * n;
    let start: Coord = s.mouse;
    proof {
        lemma_cell_index_bounds(start, rad);
    }
    let mut visited: Vec<bool> = vec![false; ncells];
    proof {
        assert forall|idx: int| 0 <= idx < ncells implies !visited@[idx] by {
            assert(vstd::pervasive::cloned(false, visited@[idx]));
        }
    }
    let mut queue: Vec<(Coord, Coord)> = Vec::new();
    let start_idx: usize = cell_index(start, radius, n);
    visited.set(start_idx, true);
    proof {
        assert(n == 2 * rad + 1);
        assert(ncells as int == (2 * rad + 1) * (2 * rad + 1));
    }

    // seed the search with the mouse's own free neighbors, each its own first
    // step
    let ns = neighbors(start);
    let mut t: usize = 0;
    while t < 6
        invariant
            t <= 6,
            visited@.len() == ncells,
            queue@.len() <= ncells,
            ns@ == spec_neighbors(start),
            visited@[start_idx as int],
            start_idx == spec_cell_index(start, rad),
            forall|k: int| 0 <= k < queue@.len() ==> free_cell(m, (#[trigger] queue@[k]).0),
            forall|k: int|
                0 <= k < queue@.len() ==> 0 <= #[trigger] spec_cell_index(queue@[k].0, rad)
                    < ncells,
            forall|k: int|
                0 <= k < queue@.len() ==> visited@[spec_cell_index((#[trigger] queue@[k]).0, rad)],
            forall|k1: int, k2: int|
                0 <= k1 < queue@.len() && 0 <= k2 < queue@.len() && k1 != k2 ==> spec_cell_index(
                    (#[trigger] queue@[k1]).0,
                    rad,
                ) != spec_cell_index((#[trigger] queue@[k2]).0, rad),
            forall|k: int|
                0 <= k < queue@.len() ==> (#[trigger] queue@[k]).1 == queue@[k].0 && is_adjacent(
                    start,
                    queue@[k].0,
                ) && queue@[k].0 != start,
            forall|j: int|
                0 <= j < t && free_cell(m, #[trigger] ns@[j]) ==> exists|k: int|
                    0 <= k < queue@.len() && (#[trigger] queue@[k]).0 == ns@[j],
            forall|idx: int|
                0 <= idx < ncells && #[trigger] visited@[idx] ==> idx == start_idx as int || exists|
                    k: int,
                | 0 <= k < queue@.len() && spec_cell_index((#[trigger] queue@[k]).0, rad) == idx,
            spec_seed(m, start, Seq::empty(), 0) == spec_seed(m, start, queue@, t as int),
        decreases 6 - t,
    {
        let z = ns[t];
        let ghost qpre0 = queue@;
        if inside_board(z, radius) && !s.is_blocked(z) {
            proof {
                lemma_cell_index_bounds(z, rad);
                lemma_adjacent_iff_neighbor(start, z);
                lemma_seen_iff_recorded(
                    visited@,
                    queue@,
                    start,
                    z,
                    rad,
                    ncells as int,
                    start_idx as int,
                );
            }
            let zi: usize = cell_index(z, radius, n);
            if !visited[zi] {
                let ghost qpre = queue@;
                visited.set(zi, true);
                queue.push((z, z));
                proof {
                    lemma_queue_len_bound(queue@, rad, ncells as int);
                    assert(queue@[qpre.len() as int].0 == ns@[t as int]);
                    assert forall|j: int|
                        0 <= j < t + 1 && free_cell(m, #[trigger] ns@[j]) implies exists|k: int|
                        0 <= k < queue@.len() && (#[trigger] queue@[k]).0 == ns@[j] by {
                        if j < t {
                            let k0 = choose|k: int|
                                0 <= k < qpre.len() && (#[trigger] qpre[k]).0 == ns@[j];
                            assert(queue@[k0].0 == ns@[j]);
                        }
                    }
                    assert forall|idx: int|
                        0 <= idx < ncells && #[trigger] visited@[idx] implies idx
                        == start_idx as int || exists|k: int|
                        0 <= k < queue@.len() && spec_cell_index(
                            (#[trigger] queue@[k]).0,
                            rad,
                        ) == idx by {
                        if idx == zi as int {
                            assert(spec_cell_index(queue@[qpre.len() as int].0, rad) == idx);
                        } else if idx != start_idx as int {
                            let k0 = choose|k: int|
                                0 <= k < qpre.len() && spec_cell_index(
                                    (#[trigger] qpre[k]).0,
                                    rad,
                                ) == idx;
                            assert(spec_cell_index(queue@[k0].0, rad) == idx);
                        }
                    }
                }
            } else {
                proof {
                    // already seen: the start cell is no neighbor of itself,
                    // so the cell sits in the queue already
                    if zi as int == start_idx as int {
                        lemma_cell_index_injective(z, start, rad);
                        assert(false);
                    } else {
                        let kz = choose|k: int|
                            0 <= k < queue@.len() && spec_cell_index(
                                (#[trigger] queue@[k]).0,
                                rad,
                            ) == zi as int;
                        lemma_cell_index_injective(queue@[kz].0, z, rad);
                        assert(queue@[kz].0 == ns@[t as int]);
                    }
                }
            }
        }
        proof {
            assert(spec_seed(m, start, qpre0, t as int) == spec_seed(m, start, queue@, t as int
                + 1));
        }
        t += 1;
    }
    let ghost q0 = queue@;
    proof {
        assert(spec_seed(m, start, queue@, 6) == queue@);
        assert(q0 == spec_seed(m, start, Seq::empty(), 0));
        if spec_has_border_step(m) {
            lemma_seed_rim_witness(m, start, ns@, q0, rad);
            let p = choose|p: int|
                0 <= p < q0.len() && #[trigger] entry_is_rim_step(q0[p], m, rad) && (forall|k: int|
                    0 <= k < p ==> (#[trigger] q0[k]).1 == q0[k].0);
            lemma_bfs_finds_rim(m, start, q0, 0, ncells as int + 1, p);
            assert((spec_bfs_result(m) matches Some(c) && spec_border(c, rad)));
        }
    }
    let mut head: usize = 0;
    while head < queue.len()
        invariant
            visited@.len() == ncells,
            head <= queue@.len() <= ncells,
            visited@[start_idx as int],
            start_idx == spec_cell_index(start, rad),
            forall|k: int| 0 <= k < queue@.len() ==> free_cell(m, (#[trigger] queue@[k]).0),
            forall|k: int|
                0 <= k < queue@.len() ==> 0 <= #[trigger] spec_cell_index(queue@[k].0, rad)
                    < ncells,
            forall|k: int|
                0 <= k < queue@.len() ==> visited@[spec_cell_index((#[trigger] queue@[k]).0, rad)],
            forall|k1: int, k2: int|
                0 <= k1 < queue@.len() && 0 <= k2 < queue@.len() && k1 != k2 ==> spec_cell_index(
                    (#[trigger] queue@[k1]).0,
                    rad,
                ) != spec_cell_index((#[trigger] queue@[k2]).0, rad),
            forall|k: int|
                0 <= k < queue@.len() ==> is_adjacent(start, (#[trigger] queue@[k]).1) && free_cell(
                    m,
                    queue@[k].1,
                ) && queue@[k].0 != start,
            forall|idx: int|
                0 <= idx < ncells && #[trigger] visited@[idx] ==> idx == start_idx as int || exists|
                    k: int,
                | 0 <= k < queue@.len() && spec_cell_index((#[trigger] queue@[k]).0, rad) == idx,
            spec_bfs(m, start, q0, 0, ncells as int + 1) == spec_bfs(
                m,
                start,
                queue@,
                head as int,
                ncells as int + 1 - head as int,
            ),
        decreases ncells - head,
    {
        let ghost qh = queue@;
        let ghost hh = head as int;
        let (cur, step) = queue[head];
        head += 1;
        if !(cur.q == start.q && cur.r == start.r) && is_border(cur, radius) {
            proof {
                assert(spec_bfs(m, start, qh, hh, ncells as int + 1 - hh) == Some(step));
                assert(spec_bfs_result(m) == Some(step));
            }
            return Some(step);
        }
        let ns2 = neighbors(cur);
        let mut t2: usize = 0;
        while t2 < 6
            invariant
                t2 <= 6,
                visited@.len() == ncells,
                head <= queue@.len() <= ncells,
                visited@[start_idx as int],
                start_idx == spec_cell_index(start, rad),
                ns2@ == spec_neighbors(cur),
                free_cell(m, cur),
                cur == queue@[head - 1].0,
                step == queue@[head - 1].1,
                forall|k: int| 0 <= k < queue@.len() ==> free_cell(m, (#[trigger] queue@[k]).0),
                forall|k: int|
                    0 <= k < queue@.len() ==> 0 <= #[trigger] spec_cell_index(queue@[k].0, rad)
                        < ncells,
                forall|k: int|
                    0 <= k < queue@.len() ==> visited@[spec_cell_index(
                        (#[trigger] queue@[k]).0,
                        rad,
                    )],
                forall|k1: int, k2: int|
                    0 <= k1 < queue@.len() && 0 <= k2 < queue@.len() && k1 != k2
                        ==> spec_cell_index((#[trigger] queue@[k1]).0, rad) != spec_cell_index(
                        (#[trigger] queue@[k2]).0,
                        rad,
                    ),
                forall|k: int|
                    0 <= k < queue@.len() ==> is_adjacent(start, (#[trigger] queue@[k]).1)
                        && free_cell(m, queue@[k].1) && queue@[k].0 != start,
                forall|idx: int|
                    0 <= idx < ncells && #[trigger] visited@[idx] ==> idx == start_idx as int
                        || exists|k: int|
                        0 <= k < queue@.len() && spec_cell_index(
                            (#[trigger] queue@[k]).0,
                            rad,
                        ) == idx,
                spec_expand(m, start, qh, cur, step, 0) == spec_expand(
                    m,
                    start,
                    queue@,
                    cur,
                    step,
                    t2 as int,
                ),
            decreases 6 - t2,
        {
            let z = ns2[t2];
            let ghost qpre = queue@;
            if inside_board(z, radius) && !s.is_blocked(z) {
                proof {
                    lemma_cell_index_bounds(z, rad);
                    lemma_seen_iff_recorded(
                        visited@,
                        queue@,
                        start,
                        z,
                        rad,
                        ncells as int,
                        start_idx as int,
                    );
                }
                let zi: usize = cell_index(z, radius, n);
                if !visited[zi] {
                    visited.set(zi, true);
                    queue.push((z, step));
                    proof {
                        lemma_queue_len_bound(queue@, rad, ncells as int);
                        assert forall|idx: int|
                            0 <= idx < ncells && #[trigger] visited@[idx] implies idx
                            == start_idx as int || exists|k: int|
                            0 <= k < queue@.len() && spec_cell_index(
                                (#[trigger] queue@[k]).0,
                                rad,
                            ) == idx by {
                            if idx == zi as int {
                                assert(spec_cell_index(queue@[qpre.len() as int].0, rad) == idx);
                            } else if idx != start_idx as int {
                                let k0 = choose|k: int|
                                    0 <= k < qpre.len() && spec_cell_index(
                                        (#[trigger] qpre[k]).0,
                                        rad,
                                    ) == idx;
                                assert(spec_cell_index(queue@[k0].0, rad) == idx);
                            }
                        }
                    }
                }
            }
            proof {
                assert(spec_expand(m, start, qpre, cur, step, t2 as int) == spec_expand(
                    m,
                    start,
                    queue@,
                    cur,
                    step,
                    t2 as int + 1,
                ));
            }
            t2 += 1;
        }
        proof {
            assert(spec_expand(m, start, queue@, cur, step, 6) == queue@);
            assert(queue@ == spec_expand(m, start, qh, cur, step, 0));
            assert(spec_bfs(m, start, qh, hh, ncells as int + 1 - hh) == spec_bfs(
                m,
                start,
                queue@,
                hh + 1,
                ncells as int - hh,
            ));
        }
    }
    proof {
        assert(spec_bfs(m, start, queue@, head as int, ncells as int + 1 - head as int) is None);
        assert(spec_bfs_result(m) is None);
    }
    None
}

/// The fallback: the mouse's first free neighbor, in the fixed order, or
/// nothing when every neighbor is walled or off the board.
#[verifier::loop_isolation(false)]
fn fallback_search(s: &GameState) -> (r: Option<Coord>)
    requires
        s@.wf(),
    ensures
        r == spec_fallback(s@, 0),
        r matches Some(c) ==> is_adjacent(s@.mouse, c) && spec_inside(c, s@.cfg.radius as int)
            && !s@.blocks.contains(c),
        r is None ==> !spec_has_legal_move(s@),
{
    let ghost m = s@;
    let radius: i32 = s.cfg.radius;
    let ghost rad = radius as int;
    let start: Coord = s.mouse;
    let ns3 = neighbors(start);
    let mut t3: usize = 0;
    while t3 < 6
        invariant
            t3 <= 6,
            ns3@ == spec_neighbors(start),
            spec_fallback(m, 0) == spec_fallback(m, t3 as int),
            forall|k: int|
                0 <= k < t3 ==> !(spec_inside(#[trigger] ns3@[k], rad) && !m.blocks.contains(
                    ns3@[k],
                )),
        decreases 6 - t3,
    {
        let z = ns3[t3];
        if inside_board(z, radius) && !s.is_blocked(z) {
            proof {
                lemma_adjacent_iff_neighbor(start, z);
                assert(spec_fallback(m, t3 as int) == Some(z));
            }
            return Some(z);
        }
        proof {
            assert(spec_fallback(m, t3 as int) == spec_fallback(m, t3 as int + 1));
        }
        t3 += 1;
    }
    proof {
        assert(spec_fallback(m, 6) is None);
        assert forall|c: Coord|
            is_adjacent(m.mouse, c) implies !(spec_inside(c, m.cfg.radius as int)
            && !m.blocks.contains(c)) by {
            lemma_adjacent_iff_neighbor(start, c);
            let j = choose|j: int|
                0 <= j < spec_neighbors(start).len() && spec_neighbors(start)[j] == c;
            assert(ns3@[j] == c);
        }
    }
    None
}

/// Choose the mouse's step: breadth-first toward the nearest reachable border
/// cell, else any free neighbor, else nothing.
///
/// The result equals `spec_choose_mouse_move` of the state — one value per
/// state, the documented neighbor order breaking every tie. On top of that
/// exact description: the result is a free neighbor of the mouse whenever the
/// mouse has one, `None` exactly when it has none, and a rim cell whenever a
/// free neighbor lies on the rim — the search never overlooks a winning step.
pub fn choose_mouse_move(s: &GameState) -> (r: Option<Coord>)
    requires
        s@.wf(),
    ensures
        r == spec_choose_mouse_move(s@),
        r matches Some(c) ==> is_adjacent(s@.mouse, c) && spec_inside(c, s@.cfg.radius as int)
            && !s@.blocks.contains(c),
        r is None <==> !spec_has_legal_move(s@),
        spec_has_border_step(s@) ==> (r matches Some(c) && spec_border(c, s@.cfg.radius as int)),
{
    match rim_search(s) {
        Some(c) => Some(c),
        None => fallback_search(s),
    }
}

/// Table position of an on-board cell, in machine arithmetic.
fn cell_index(c: Coord, radius: i32, n: usize) -> (i: usize)
    requires
        0 <= radius <= MAX_RADIUS,
        spec_inside(c, radius as int),
        n == 2 * radius + 1,
    ensures
        i == spec_cell_index(c, radius as int),
        i < n * n,
{
    proof {
        lemma_cell_index_bounds(c, radius as int);
    }
    let a: usize = (c.q + radius) as usize;
    let b: usize = (c.r + radius) as usize;
    proof {
        assert(a * n + b < n * n) by (nonlinear_arith)
            requires
                a < n,
                b < n,
        ;
        assert(n * n <= 2001 * 2001) by (nonlinear_arith)
            requires
                0 < n <= 2001,
        ;
    }
    a * n + b
}

} // verus!
