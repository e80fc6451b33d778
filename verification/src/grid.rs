//! How the cells of a chunk are laid out in one flat buffer, the order in
//! which a cube of cells is scanned, and the six steps that lead from a
//! cell to its neighbours.

use vstd::prelude::*;
use core::ops::Add;
use crate::block::Block;
use crate::types::{PointIntLocal, Pos};

verus! {

/// The place of cell `p` in the flat buffer: X is the fastest axis, Z the
/// slowest.
pub open spec fn cell_index(p: Pos) -> int {
    p.x + 16 * p.y + 256 * p.z
}

/// The cell that stands at place `i` of the flat buffer.
pub open spec fn cell_pos(i: int) -> Pos {
    Pos { x: i % 16, y: (i / 16) % 16, z: i / 256 }
}

/// The turn of position `p` when a cube of 16 by 16 by 16 is scanned with
/// X outermost and Z innermost.
pub open spec fn scan_index(p: Pos) -> int {
    (p.x * 16 + p.y) * 16 + p.z
}

/// The position whose turn is `n` in such a scan.
pub open spec fn scan_pos(n: int) -> Pos {
    Pos { x: n / 256, y: (n / 16) % 16, z: n % 16 }
}

/// The step towards the neighbour that a block's face number `face` looks
/// at: front, left, back, right, bottom, top.
pub open spec fn adjacent_step(face: int) -> Pos {
    if face == 0 {
        Pos { x: 0, y: 0, z: -1 }
    } else if face == 1 {
        Pos { x: -1, y: 0, z: 0 }
    } else if face == 2 {
        Pos { x: 0, y: 0, z: 1 }
    } else if face == 3 {
        Pos { x: 1, y: 0, z: 0 }
    } else if face == 4 {
        Pos { x: 0, y: -1, z: 0 }
    } else {
        Pos { x: 0, y: 1, z: 0 }
    }
}

/// The face that looks back: a step along it undoes a step along `face`.
pub open spec fn opposite(face: int) -> int {
    if face == 0 {
        2
    } else if face == 1 {
        3
    } else if face == 2 {
        0
    } else if face == 3 {
        1
    } else if face == 4 {
        5
    } else {
        4
    }
}

/// The light level that `grid` holds for cell `p`.
pub open spec fn level(grid: Seq<u8>, p: Pos) -> int {
    grid[cell_index(p)] as int
}

/// Whether `p` is a cell of the chunk that light can enter.
pub open spec fn passes(blocks: Seq<Block>, p: Pos) -> bool {
    p.in_chunk() && blocks[cell_index(p)].transparent()
}

/// Flat places and cells of a chunk correspond one to one: going from a
/// place to its cell and back gives the place, and going from a cell to its
/// place and back gives the cell.
pub proof fn lemma_index_round_trip(i: int, p: Pos)
    ensures
        0 <= i < 4096 ==> cell_pos(i).in_chunk() && cell_index(cell_pos(i)) == i,
        p.in_chunk() ==> 0 <= cell_index(p) < 4096 && cell_pos(cell_index(p)) == p,
{
}

/// Turns and positions of a scan correspond one to one.
pub proof fn lemma_scan_round_trip(n: int, p: Pos)
    ensures
        0 <= n < 4096 ==> scan_pos(n).in_chunk() && scan_index(scan_pos(n)) == n,
        p.in_chunk() ==> 0 <= scan_index(p) < 4096 && scan_pos(scan_index(p)) == p,
{
}

/// Cells with different turns in a scan stand at different places of the
/// flat buffer.
pub proof fn lemma_scan_places_differ(m: int, n: int)
    requires
        0 <= m < 4096,
        0 <= n < 4096,
        m != n,
    ensures
        cell_index(scan_pos(m)) != cell_index(scan_pos(n)),
{
    lemma_scan_round_trip(m, scan_pos(n));
    lemma_scan_round_trip(n, scan_pos(m));
    lemma_index_round_trip(0, scan_pos(m));
    lemma_index_round_trip(0, scan_pos(n));
}

/// Two cells of a chunk that share a place are the same cell.
pub proof fn lemma_index_injective(p: Pos, q: Pos)
    requires
        p.in_chunk(),
        q.in_chunk(),
        cell_index(p) == cell_index(q),
    ensures
        p == q,
{
    lemma_index_round_trip(0, p);
    lemma_index_round_trip(0, q);
}

/// The place of `loc` in the flat buffer.
pub fn index_of(loc: &PointIntLocal) -> (i: usize)
    requires
        loc@.in_chunk(),
    ensures
        i == cell_index(loc@),
        i < 4096,
{
    loc.ux() + 16 * loc.uy() + 256 * loc.uz()
}

/// The cell at place `i` of the flat buffer.
pub fn location_of(i: usize) -> (loc: PointIntLocal)
    requires
        i < 4096,
    ensures
        loc@ == cell_pos(i as int),
        loc@.in_chunk(),
        cell_index(loc@) == i,
{
    let x: usize = i % 16;
    let y: usize = (i / 16) % 16;
    let z: usize = i / 256;
    PointIntLocal::new(x as isize, y as isize, z as isize)
}

/// The cell whose turn is `n` when the chunk is scanned with X outermost
/// and Z innermost.
pub fn scan_location(n: usize) -> (loc: PointIntLocal)
    requires
        n < 4096,
    ensures
        loc@ == scan_pos(n as int),
        loc@.in_chunk(),
        scan_index(loc@) == n,
{
    let x: usize = n / 256;
    let y: usize = (n / 16) % 16;
    let z: usize = n % 16;
    PointIntLocal::new(x as isize, y as isize, z as isize)
}

/// The step towards the neighbour that face number `face` looks at.
pub fn adjacency(face: usize) -> (step: PointIntLocal)
    requires
        face < 6,
    ensures
        step@ == adjacent_step(face as int),
{
    if face == 0 {
        PointIntLocal::new(0, 0, -1)
    } else if face == 1 {
        PointIntLocal::new(-1, 0, 0)
    } else if face == 2 {
        PointIntLocal::new(0, 0, 1)
    } else if face == 3 {
        PointIntLocal::new(1, 0, 0)
    } else if face == 4 {
        PointIntLocal::new(0, -1, 0)
    } else {
        PointIntLocal::new(0, 1, 0)
    }
}

/// The neighbour of `loc` that face number `face` looks at; it may lie one
/// step outside the chunk.
pub fn neighbour(loc: PointIntLocal, face: usize) -> (next: PointIntLocal)
    requires
        loc@.in_chunk(),
        face < 6,
    ensures
        next@ == loc@.plus(adjacent_step(face as int)),
{
    let step = adjacency(face);
    loc.add(&step)
}

} // verus!
