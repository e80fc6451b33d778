//! Light as a flood fill: what it means for a grid of light levels to be
//! the outcome of spreading given seeds through the transparent cells of a
//! chunk, and the relaxation that computes it.

use std::collections::VecDeque;
use vstd::prelude::*;
use crate::block::Block;
use crate::grid::{
    adjacent_step, cell_index, cell_pos, index_of, lemma_index_round_trip, level, neighbour,
    opposite, passes,
};
use crate::types::{PointIntLocal, Pos};

verus! {

/// What light loses on a step through face number `face`: one level, or
/// nothing where it falls straight down and `falls` is set.
pub open spec fn step_cost(face: int, falls: bool) -> int {
    if falls && face == 4 {
        0
    } else {
        1
    }
}

/// Cell `p` has handed its light on through face number `face`: the
/// neighbour there, if light can enter it, is no darker than `p` less the
/// cost of the step.
pub open spec fn settled_through(
    blocks: Seq<Block>,
    grid: Seq<u8>,
    falls: bool,
    p: Pos,
    face: int,
) -> bool {
    let q = p.plus(adjacent_step(face));
    passes(blocks, q) ==> level(grid, q) >= level(grid, p) - step_cost(face, falls)
}

/// Cell `p` has handed its light on through all six faces: relaxing it
/// again would change nothing.
pub open spec fn settled_at(blocks: Seq<Block>, grid: Seq<u8>, falls: bool, p: Pos) -> bool {
    &&& settled_through(blocks, grid, falls, p, 0)
    &&& settled_through(blocks, grid, falls, p, 1)
    &&& settled_through(blocks, grid, falls, p, 2)
    &&& settled_through(blocks, grid, falls, p, 3)
    &&& settled_through(blocks, grid, falls, p, 4)
    &&& settled_through(blocks, grid, falls, p, 5)
}

/// The neighbour that face number `face` of `p` looks at is a cell of the
/// chunk, and bright enough to account for the level of `p`.
pub open spec fn fed_through(grid: Seq<u8>, falls: bool, p: Pos, face: int) -> bool {
    let n = p.plus(adjacent_step(face));
    n.in_chunk() && level(grid, n) - step_cost(opposite(face), falls) >= level(grid, p)
}

/// The level of `p` is its seed, or some neighbour accounts for it.
pub open spec fn accounted_at(seeds: Seq<u8>, grid: Seq<u8>, falls: bool, p: Pos) -> bool {
    ||| level(grid, p) == level(seeds, p)
    ||| fed_through(grid, falls, p, 0)
    ||| fed_through(grid, falls, p, 1)
    ||| fed_through(grid, falls, p, 2)
    ||| fed_through(grid, falls, p, 3)
    ||| fed_through(grid, falls, p, 4)
    ||| fed_through(grid, falls, p, 5)
}

/// Cell `p` is no darker than its seed, dark if light cannot enter it, and
/// no brighter than its seed or its neighbours account for.
pub open spec fn lit_at(
    blocks: Seq<Block>,
    seeds: Seq<u8>,
    grid: Seq<u8>,
    falls: bool,
    p: Pos,
) -> bool {
    &&& level(seeds, p) <= level(grid, p)
    &&& !blocks[cell_index(p)].transparent() ==> level(grid, p) == 0
    &&& accounted_at(seeds, grid, falls, p)
}

/// `grid` is what spreading `seeds` through the transparent cells of
/// `blocks` gives: every cell is lit as its seed and its neighbours
/// demand and no more, and no cell has light left to hand on.
pub open spec fn lit_from(blocks: Seq<Block>, seeds: Seq<u8>, grid: Seq<u8>, falls: bool) -> bool {
    &&& grid.len() == 4096
    &&& forall|p: Pos| p.in_chunk() ==> #[trigger] lit_at(blocks, seeds, grid, falls, p)
    &&& forall|p: Pos| p.in_chunk() ==> #[trigger] settled_at(blocks, grid, falls, p)
}

/// What one neighbour contributes to the bound on cell `p`: if the
/// neighbour through face number `face` accounts for the level of `p` in
/// `a`, and `b` is no darker than `a` at that neighbour, then `b` is no
/// darker than `a` at `p`.
proof fn lemma_below_through(
    blocks: Seq<Block>,
    a: Seq<u8>,
    b: Seq<u8>,
    falls: bool,
    p: Pos,
    face: int,
)
    requires
        p.in_chunk(),
        0 <= face < 6,
        blocks[cell_index(p)].transparent(),
        fed_through(a, falls, p, face),
        level(a, p.plus(adjacent_step(face))) <= level(b, p.plus(adjacent_step(face))),
        settled_at(blocks, b, falls, p.plus(adjacent_step(face))),
    ensures
        level(a, p) <= level(b, p),
{
    let n = p.plus(adjacent_step(face));
    assert(n.plus(adjacent_step(opposite(face))) == p);
    assert(settled_through(blocks, b, falls, n, opposite(face)));
}

/// A grid that is accounted for by seeds and neighbours is nowhere
/// brighter than a grid that is no darker than the seeds and has no light
/// left to hand on.
proof fn lemma_below(
    blocks: Seq<Block>,
    seeds: Seq<u8>,
    a: Seq<u8>,
    b: Seq<u8>,
    falls: bool,
    p: Pos,
)
    requires
        lit_from(blocks, seeds, a, falls),
        lit_from(blocks, seeds, b, falls),
        p.in_chunk(),
    ensures
        level(a, p) <= level(b, p),
    decreases 255 - level(a, p), 16 - p.y,
{
    assert(lit_at(blocks, seeds, a, falls, p));
    assert(lit_at(blocks, seeds, b, falls, p));
    if level(a, p) != level(seeds, p) && level(a, p) > 0 {
        let face: int = if fed_through(a, falls, p, 0) {
            0
        } else if fed_through(a, falls, p, 1) {
            1
        } else if fed_through(a, falls, p, 2) {
            2
        } else if fed_through(a, falls, p, 3) {
            3
        } else if fed_through(a, falls, p, 4) {
            4
        } else {
            5
        };
        let n = p.plus(adjacent_step(face));
        assert(fed_through(a, falls, p, face));
        lemma_below(blocks, seeds, a, b, falls, n);
        assert(settled_at(blocks, b, falls, n));
        lemma_below_through(blocks, a, b, falls, p, face);
    }
}

/// The outcome of spreading light is determined by the blocks and the
/// seeds: two grids that both are what spreading the same seeds through
/// the same blocks gives are equal. So computing the light again, with
/// nothing changed, gives the same grid.
pub proof fn lemma_lit_from_unique(
    blocks: Seq<Block>,
    seeds: Seq<u8>,
    a: Seq<u8>,
    b: Seq<u8>,
    falls: bool,
)
    requires
        lit_from(blocks, seeds, a, falls),
        lit_from(blocks, seeds, b, falls),
    ensures
        a == b,
{
    assert forall|i: int| 0 <= i < 4096 implies a[i] == b[i] by {
        let p = cell_pos(i);
        lemma_index_round_trip(i, p);
        lemma_below(blocks, seeds, a, b, falls, p);
        lemma_below(blocks, seeds, b, a, falls, p);
    }
    assert(a =~= b);
}

/// Spreading makes no light: where no seed is brighter than `bound`, no
/// cell of the outcome is.
pub proof fn lemma_lit_bounded(
    blocks: Seq<Block>,
    seeds: Seq<u8>,
    grid: Seq<u8>,
    falls: bool,
    bound: int,
    p: Pos,
)
    requires
        lit_from(blocks, seeds, grid, falls),
        forall|i: int| 0 <= i < 4096 ==> #[trigger] seeds[i] <= bound,
        p.in_chunk(),
    ensures
        level(grid, p) <= bound,
    decreases 255 - level(grid, p), 16 - p.y,
{
    assert(lit_at(blocks, seeds, grid, falls, p));
    assert(seeds[cell_index(p)] <= bound);
    if level(grid, p) != level(seeds, p) {
        let face: int = if fed_through(grid, falls, p, 0) {
            0
        } else if fed_through(grid, falls, p, 1) {
            1
        } else if fed_through(grid, falls, p, 2) {
            2
        } else if fed_through(grid, falls, p, 3) {
            3
        } else if fed_through(grid, falls, p, 4) {
            4
        } else {
            5
        };
        assert(fed_through(grid, falls, p, face));
        lemma_lit_bounded(blocks, seeds, grid, falls, bound, p.plus(adjacent_step(face)));
    }
}

/// Relaxing a grid in which no cell has light left to hand on changes
/// nothing: whatever spreading `grid` itself gives is `grid`.
pub proof fn lemma_settled_grid_stays(
    blocks: Seq<Block>,
    grid: Seq<u8>,
    again: Seq<u8>,
    falls: bool,
)
    requires
        grid.len() == 4096,
        forall|p: Pos|
            p.in_chunk() && !blocks[cell_index(p)].transparent() ==> #[trigger] level(grid, p)
                == 0,
        forall|p: Pos| p.in_chunk() ==> #[trigger] settled_at(blocks, grid, falls, p),
        lit_from(blocks, grid, again, falls),
    ensures
        again == grid,
{
    assert forall|p: Pos| p.in_chunk() implies #[trigger] lit_at(blocks, grid, grid, falls, p) by {}
    lemma_lit_from_unique(blocks, grid, grid, again, falls);
}

/// Cell `p` waits in `queue` to be relaxed.
pub open spec fn pending(queue: Seq<PointIntLocal>, p: Pos) -> bool {
    exists|k: int| 0 <= k < queue.len() && (#[trigger] queue[k])@ == p
}

/// Cell `p` has handed its light on, or waits to do so.
pub open spec fn calm_at(
    blocks: Seq<Block>,
    grid: Seq<u8>,
    queue: Seq<PointIntLocal>,
    falls: bool,
    p: Pos,
) -> bool {
    settled_at(blocks, grid, falls, p) || pending(queue, p)
}

/// The sum of the levels of `grid`.
pub open spec fn total(grid: Seq<u8>) -> int
    decreases grid.len(),
{
    if grid.len() == 0 {
        0
    } else {
        total(grid.drop_last()) + grid.last() as int
    }
}

/// No level is above 255, so the sum is at most 255 per cell.
proof fn lemma_total_bound(grid: Seq<u8>)
    ensures
        0 <= total(grid) <= 255 * grid.len(),
    decreases grid.len(),
{
    if grid.len() > 0 {
        lemma_total_bound(grid.drop_last());
    }
}

/// Writing `v` at place `i` changes the sum by the difference to what
/// stood there.
proof fn lemma_total_update(grid: Seq<u8>, i: int, v: u8)
    requires
        0 <= i < grid.len(),
    ensures
        total(grid.update(i, v)) == total(grid) - grid[i] + v,
    decreases grid.len(),
{
    let after = grid.update(i, v);
    if i == grid.len() - 1 {
        assert(after.drop_last() =~= grid.drop_last());
    } else {
        lemma_total_update(grid.drop_last(), i, v);
        assert(after.drop_last() =~= grid.drop_last().update(i, v));
    }
}

/// Writing level `v` at cell `q` changes the level of `q` and of no other
/// cell.
proof fn lemma_level_update(grid: Seq<u8>, q: Pos, v: u8, p: Pos)
    requires
        grid.len() == 4096,
        q.in_chunk(),
        p.in_chunk(),
    ensures
        level(grid.update(cell_index(q), v), p) == (if p == q {
            v as int
        } else {
            level(grid, p)
        }),
{
}

/// The same for the six neighbours of `p`.
proof fn lemma_level_update_around(grid: Seq<u8>, q: Pos, v: u8, p: Pos, face: int)
    requires
        grid.len() == 4096,
        q.in_chunk(),
        p.in_chunk(),
        0 <= face < 6,
    ensures
        ({
            let n = p.plus(adjacent_step(face));
            n.in_chunk() ==> level(grid.update(cell_index(q), v), n) == (if n == q {
                v as int
            } else {
                level(grid, n)
            })
        }),
{
    let n = p.plus(adjacent_step(face));
    if n.in_chunk() {
        lemma_level_update(grid, q, v, n);
    }
}

/// Raising the neighbour of `c` through face number `face` to the level
/// that `c` hands on keeps every cell lit as its seed and its neighbours
/// demand and no more.
proof fn lemma_raise_keeps_lit(
    blocks: Seq<Block>,
    seeds: Seq<u8>,
    grid: Seq<u8>,
    falls: bool,
    c: Pos,
    face: int,
    v: u8,
)
    requires
        grid.len() == 4096,
        c.in_chunk(),
        0 <= face < 6,
        passes(blocks, c.plus(adjacent_step(face))),
        level(grid, c.plus(adjacent_step(face))) < v,
        v == level(grid, c) - step_cost(face, falls),
        forall|p: Pos| p.in_chunk() ==> #[trigger] lit_at(blocks, seeds, grid, falls, p),
    ensures
        forall|p: Pos|
            p.in_chunk() ==> #[trigger] lit_at(
                blocks,
                seeds,
                grid.update(cell_index(c.plus(adjacent_step(face))), v),
                falls,
                p,
            ),
{
    let q = c.plus(adjacent_step(face));
    let after = grid.update(cell_index(q), v);
    assert forall|p: Pos| p.in_chunk() implies #[trigger] lit_at(
        blocks,
        seeds,
        after,
        falls,
        p,
    ) by {
        assert(lit_at(blocks, seeds, grid, falls, p));
        lemma_level_update(grid, q, v, p);
        lemma_level_update_around(grid, q, v, p, 0);
        lemma_level_update_around(grid, q, v, p, 1);
        lemma_level_update_around(grid, q, v, p, 2);
        lemma_level_update_around(grid, q, v, p, 3);
        lemma_level_update_around(grid, q, v, p, 4);
        lemma_level_update_around(grid, q, v, p, 5);
        if p == q {
            lemma_level_update(grid, q, v, c);
            assert(q.plus(adjacent_step(opposite(face))) == c);
            assert(fed_through(after, falls, q, opposite(face)));
        }
    }
}

/// Raising that neighbour and putting it in the queue keeps every other
/// cell calm, and keeps what `c` has handed on so far.
proof fn lemma_raise_keeps_calm(
    blocks: Seq<Block>,
    grid: Seq<u8>,
    queue: Seq<PointIntLocal>,
    falls: bool,
    c: Pos,
    face: int,
    v: u8,
    next: PointIntLocal,
)
    requires
        grid.len() == 4096,
        c.in_chunk(),
        0 <= face < 6,
        next@ == c.plus(adjacent_step(face)),
        next@.in_chunk(),
        level(grid, next@) < v,
        v >= level(grid, c) - step_cost(face, falls),
        forall|p: Pos| p.in_chunk() && p != c ==> #[trigger] calm_at(blocks, grid, queue, falls, p),
    ensures
        forall|p: Pos|
            p.in_chunk() && p != c ==> #[trigger] calm_at(
                blocks,
                grid.update(cell_index(next@), v),
                queue.push(next),
                falls,
                p,
            ),
        forall|f: int|
            0 <= f < 6 && settled_through(blocks, grid, falls, c, f) ==> #[trigger] settled_through(
                blocks,
                grid.update(cell_index(next@), v),
                falls,
                c,
                f,
            ),
        settled_through(blocks, grid.update(cell_index(next@), v), falls, c, face),
{
    let q = next@;
    let after = grid.update(cell_index(q), v);
    let longer = queue.push(next);
    assert(longer[queue.len() as int] == next);
    assert forall|p: Pos| p.in_chunk() && p != c implies #[trigger] calm_at(
        blocks,
        after,
        longer,
        falls,
        p,
    ) by {
        assert(calm_at(blocks, grid, queue, falls, p));
        lemma_level_update(grid, q, v, p);
        lemma_level_update_around(grid, q, v, p, 0);
        lemma_level_update_around(grid, q, v, p, 1);
        lemma_level_update_around(grid, q, v, p, 2);
        lemma_level_update_around(grid, q, v, p, 3);
        lemma_level_update_around(grid, q, v, p, 4);
        lemma_level_update_around(grid, q, v, p, 5);
        if p == q {
            assert(pending(longer, p));
        } else if pending(queue, p) {
            let k = choose|k: int| 0 <= k < queue.len() && (#[trigger] queue[k])@ == p;
            assert(longer[k]@ == p);
        }
    }
    assert forall|f: int|
        0 <= f < 6 && settled_through(blocks, grid, falls, c, f) implies #[trigger] settled_through(
        blocks,
        after,
        falls,
        c,
        f,
    ) by {
        lemma_level_update(grid, q, v, c);
        lemma_level_update_around(grid, q, v, c, f);
    }
    lemma_level_update(grid, q, v, c);
    lemma_level_update(grid, q, v, q);
}

/// Every cell that waits in `queue` still waits after `next` has joined
/// it, and so does `next`.
pub proof fn lemma_push_keeps_pending(queue: Seq<PointIntLocal>, next: PointIntLocal)
    ensures
        pending(queue.push(next), next@),
        forall|p: Pos| pending(queue, p) ==> #[trigger] pending(queue.push(next), p),
{
    let longer = queue.push(next);
    assert(longer[queue.len() as int] == next);
    assert forall|p: Pos| pending(queue, p) implies #[trigger] pending(longer, p) by {
        let k = choose|k: int| 0 <= k < queue.len() && (#[trigger] queue[k])@ == p;
        assert(longer[k]@ == p);
    }
}

/// Taking the first cell out of the queue leaves every other cell calm.
proof fn lemma_pop_keeps_calm(
    blocks: Seq<Block>,
    grid: Seq<u8>,
    queue: Seq<PointIntLocal>,
    falls: bool,
)
    requires
        queue.len() > 0,
        forall|p: Pos| p.in_chunk() ==> #[trigger] calm_at(blocks, grid, queue, falls, p),
    ensures
        forall|p: Pos|
            p.in_chunk() && p != queue[0]@ ==> #[trigger] calm_at(
                blocks,
                grid,
                queue.subrange(1, queue.len() as int),
                falls,
                p,
            ),
{
    let rest = queue.subrange(1, queue.len() as int);
    assert forall|p: Pos| p.in_chunk() && p != queue[0]@ implies #[trigger] calm_at(
        blocks,
        grid,
        rest,
        falls,
        p,
    ) by {
        assert(calm_at(blocks, grid, queue, falls, p));
        if pending(queue, p) {
            let k = choose|k: int| 0 <= k < queue.len() && (#[trigger] queue[k])@ == p;
            assert(rest[k - 1]@ == p);
        }
    }
}

/// Spreads the light that `light` holds through the transparent cells of
/// `blocks` until no cell has anything left to hand on. `updated` names the
/// cells to start from; every lit cell must be among them. With `falls`
/// set, light loses nothing on its way straight down.
pub fn relax(
    blocks: &Vec<Block>,
    light: &mut Vec<u8>,
    updated: &mut VecDeque<PointIntLocal>,
    falls: bool,
)
    requires
        blocks.len() == 4096,
        old(light).len() == 4096,
        forall|k: int| 0 <= k < old(updated)@.len() ==> (#[trigger] old(updated)@[k])@.in_chunk(),
        forall|i: int|
            0 <= i < 4096 && !(#[trigger] blocks@[i]).transparent() ==> old(light)@[i] == 0,
        forall|p: Pos|
            p.in_chunk() ==> level(old(light)@, p) == 0 || #[trigger] pending(old(updated)@, p),
    ensures
        lit_from(blocks@, old(light)@, final(light)@, falls),
        final(updated)@.len() == 0,
{
    let ghost seeds = light@;
    proof {
        assert forall|p: Pos| p.in_chunk() implies #[trigger] lit_at(
            blocks@,
            seeds,
            light@,
            falls,
            p,
        ) by {}
        assert forall|p: Pos| p.in_chunk() implies #[trigger] calm_at(
            blocks@,
            light@,
            updated@,
            falls,
            p,
        ) by {
            assert(level(light@, p) == 0 || pending(updated@, p));
        }
        lemma_total_bound(light@);
    }
    while updated.len() > 0
        invariant
            blocks.len() == 4096,
            light.len() == 4096,
            forall|k: int| 0 <= k < updated@.len() ==> (#[trigger] updated@[k])@.in_chunk(),
            forall|p: Pos| p.in_chunk() ==> #[trigger] lit_at(blocks@, seeds, light@, falls, p),
            forall|p: Pos|
                p.in_chunk() ==> #[trigger] calm_at(blocks@, light@, updated@, falls, p),
            0 <= total(light@) <= 255 * 4096,
        decreases 2 * (255 * 4096 - total(light@)) + updated@.len(),
    {
        let ghost measure = 2 * (255 * 4096 - total(light@)) + updated@.len();
        proof {
            lemma_pop_keeps_calm(blocks@, light@, updated@, falls);
        }
        let loc = updated.pop_front().unwrap();
        let level_here: u8 = light[index_of(&loc)];
        if level_here == 0 {
            // A dark cell has nothing to hand on.
            continue;
        }
        let mut face: usize = 0;
        while face < 6
            invariant
                face <= 6,
                blocks.len() == 4096,
                light.len() == 4096,
                loc@.in_chunk(),
                level_here == level(light@, loc@),
                level_here > 0,
                forall|k: int| 0 <= k < updated@.len() ==> (#[trigger] updated@[k])@.in_chunk(),
                forall|p: Pos| p.in_chunk() ==> #[trigger] lit_at(blocks@, seeds, light@, falls, p),
                forall|p: Pos|
                    p.in_chunk() && p != loc@ ==> #[trigger] calm_at(
                        blocks@,
                        light@,
                        updated@,
                        falls,
                        p,
                    ),
                forall|f: int|
                    0 <= f < face ==> #[trigger] settled_through(blocks@, light@, falls, loc@, f),
                0 <= total(light@) <= 255 * 4096,
                2 * (255 * 4096 - total(light@)) + updated@.len() < measure,
            decreases 6 - face,
        {
            let ghost side = face as int;
            let loc2 = neighbour(loc, face);
            face += 1;
            if !loc2.is_in_chunk() {
                // Location is outside of the chunk boundaries
                continue;
            }
            let place2 = index_of(&loc2);
            if !blocks[place2].is_transparent() {
                // The block is not transparent, so light cannot pass through it
                continue;
            }
            let reach: u8 = if falls && loc2.y() < loc.y() {
                level_here
            } else {
                level_here - 1
            };
            if light[place2] < reach {
                proof {
                    lemma_raise_keeps_lit(blocks@, seeds, light@, falls, loc@, side, reach);
                    lemma_raise_keeps_calm(
                        blocks@,
                        light@,
                        updated@,
                        falls,
                        loc@,
                        side,
                        reach,
                        loc2,
                    );
                    lemma_total_update(light@, place2 as int, reach);
                    lemma_total_bound(light@.update(place2 as int, reach));
                    lemma_level_update(light@, loc2@, reach, loc@);
                }
                light[place2] = reach;
                updated.push_back(loc2);
            }
        }
        proof {
            assert(settled_at(blocks@, light@, falls, loc@));
        }
    }
    proof {
        assert forall|p: Pos| p.in_chunk() implies #[trigger] settled_at(
            blocks@,
            light@,
            falls,
            p,
        ) by {
            assert(calm_at(blocks@, light@, updated@, falls, p));
        }
    }
}

} // verus!
