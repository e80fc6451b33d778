//! What relighting gives in simple surroundings: that its outcome is
//! determined by the blocks and the neighbours, and the outcome itself for
//! a chunk of air under open sky and for a lone light source.

use vstd::prelude::*;
use crate::block::{Block, BlockKind};
use crate::chunk::{local_seeds, sky_seeds, ChunkView};
use crate::surrounding::{direction_of, ChunkAdjacent, SurroundingChunks};
use crate::grid::{adjacent_step, cell_index, cell_pos, lemma_index_round_trip, level};
use crate::light::{
    fed_through, lemma_lit_from_unique, lit_at, lit_from, settled_at, settled_through,
};
use crate::types::Pos;

verus! {

/// Relighting is determined by the blocks and the neighbours: any two
/// outcomes of it hold the same sky light and the same local light, so
/// relighting a second time with nothing changed is without effect.
pub proof fn lemma_relight_determined(
    blocks: Seq<Block>,
    around: SurroundingChunks,
    first: ChunkView,
    second: ChunkView,
)
    requires
        lit_from(blocks, sky_seeds(blocks, around), first.light_sky, true),
        lit_from(blocks, sky_seeds(blocks, around), second.light_sky, true),
        lit_from(blocks, local_seeds(blocks, around), first.light_local, false),
        lit_from(blocks, local_seeds(blocks, around), second.light_local, false),
    ensures
        first.light_sky == second.light_sky,
        first.light_local == second.light_local,
{
    lemma_lit_from_unique(
        blocks,
        sky_seeds(blocks, around),
        first.light_sky,
        second.light_sky,
        true,
    );
    lemma_lit_from_unique(
        blocks,
        local_seeds(blocks, around),
        first.light_local,
        second.light_local,
        false,
    );
}

/// Every neighbour reports full sky light and no local light at each of
/// its cells: the chunk stands under open sky on all sides.
pub open spec fn under_open_sky(around: SurroundingChunks) -> bool {
    forall|i: int, p: Pos|
        0 <= i < 6 ==> (#[trigger] around.chunks[i].light_sky_at(p)) == 15
            && around.chunks[i].light_local_at(p) == 0
}

/// A chunk of air under open sky is fully lit by the sky and holds no
/// local light: relighting it gives sky light 15 and local light 0 at
/// every cell.
pub proof fn lemma_air_under_open_sky(blocks: Seq<Block>, around: SurroundingChunks, lit: ChunkView)
    requires
        blocks.len() == 4096,
        forall|i: int| 0 <= i < 4096 ==> (#[trigger] blocks[i]).kind is Air,
        under_open_sky(around),
        lit_from(blocks, sky_seeds(blocks, around), lit.light_sky, true),
        lit_from(blocks, local_seeds(blocks, around), lit.light_local, false),
    ensures
        lit.light_sky == Seq::new(4096, |i: int| 15u8),
        lit.light_local == Seq::new(4096, |i: int| 0u8),
{
    let bright = Seq::new(4096, |i: int| 15u8);
    let dark = Seq::new(4096, |i: int| 0u8);
    let sky = sky_seeds(blocks, around);
    let local = local_seeds(blocks, around);
    assert forall|p: Pos| p.in_chunk() implies #[trigger] lit_at(
        blocks,
        sky,
        bright,
        true,
        p,
    ) by {
        lemma_index_round_trip(0, p);
        lemma_seed_under_open_sky(around, p);
        if p.y < 15 {
            assert(fed_through(bright, true, p, 5));
        }
    }
    assert forall|p: Pos| p.in_chunk() implies #[trigger] settled_at(
        blocks,
        bright,
        true,
        p,
    ) by {}
    assert forall|p: Pos| p.in_chunk() implies #[trigger] lit_at(
        blocks,
        local,
        dark,
        false,
        p,
    ) by {
        lemma_index_round_trip(0, p);
        lemma_seed_under_open_sky(around, p);
    }
    assert forall|p: Pos| p.in_chunk() implies #[trigger] settled_at(
        blocks,
        dark,
        false,
        p,
    ) by {}
    lemma_lit_from_unique(blocks, sky, bright, lit.light_sky, true);
    lemma_lit_from_unique(blocks, local, dark, lit.light_local, false);
}

/// Under open sky a cell gets no local light from the neighbours and at
/// most full sky light, and full sky light where it lies in the top
/// layer.
proof fn lemma_seed_under_open_sky(around: SurroundingChunks, p: Pos)
    requires
        under_open_sky(around),
        p.in_chunk(),
    ensures
        around.local_inflow(p) == 0,
        0 <= around.sky_inflow(p) <= 15,
        p.y == 15 ==> around.sky_inflow(p) == 15,
{
    reveal_with_fuel(SurroundingChunks::sky_through, 7);
    reveal_with_fuel(SurroundingChunks::local_through, 7);
    assert forall|face: int| 0 <= face < 6 implies around.local_across(p, face) == 0 && 0
        <= around.sky_across(p, face) <= 15 by {
        let q = p.plus(adjacent_step(face));
        if !q.in_chunk() {
            let slot = direction_of(q).slot();
            assert(around.chunks[slot].light_sky_at(q.wrapped()) == 15);
        }
    }
    if p.y == 15 {
        let q = p.plus(adjacent_step(5));
        assert(around.chunks[direction_of(q).slot()].light_sky_at(q.wrapped()) == 15);
        assert(around.sky_across(p, 5) == 15);
    }
}

/// No neighbour reports local light at any of its cells.
pub open spec fn without_local_light(around: SurroundingChunks) -> bool {
    forall|i: int, p: Pos|
        0 <= i < 6 ==> (#[trigger] around.chunks[i].light_local_at(p)) == 0
}

/// Where no neighbour holds local light, none crosses into the chunk.
proof fn lemma_no_local_inflow(around: SurroundingChunks, p: Pos)
    requires
        without_local_light(around),
        p.in_chunk(),
    ensures
        around.local_inflow(p) == 0,
{
    reveal_with_fuel(SurroundingChunks::local_through, 7);
    assert forall|face: int| 0 <= face < 6 implies around.local_across(p, face) == 0 by {
        let q = p.plus(adjacent_step(face));
        if !q.in_chunk() {
            assert(around.chunks[direction_of(q).slot()].light_local_at(q.wrapped()) == 0);
        }
    }
}

/// The number of steps from `p` to `q` along the axes.
pub open spec fn steps_between(p: Pos, q: Pos) -> int {
    (if p.x >= q.x { p.x - q.x } else { q.x - p.x })
    + (if p.y >= q.y { p.y - q.y } else { q.y - p.y })
    + (if p.z >= q.z { p.z - q.z } else { q.z - p.z })
}

/// What a source of the given brightness at `source` leaves at `p` where
/// nothing stands in the way: the brightness less the number of steps, and
/// nothing where that would be less than nothing.
pub open spec fn glow_at(source: Pos, brightness: u8, p: Pos) -> u8 {
    if brightness - steps_between(p, source) > 0 {
        (brightness - steps_between(p, source)) as u8
    } else {
        0
    }
}

/// The grid that holds at every cell what the source leaves there.
pub open spec fn glow(source: Pos, brightness: u8) -> Seq<u8> {
    Seq::new(4096, |i: int| glow_at(source, brightness, cell_pos(i)))
}

/// The level that the glow holds for a cell and for its neighbour.
proof fn lemma_glow_level(source: Pos, brightness: u8, p: Pos, face: int)
    requires
        p.in_chunk(),
        0 <= face < 6,
    ensures
        level(glow(source, brightness), p) == glow_at(source, brightness, p),
        p.plus(adjacent_step(face)).in_chunk() ==> level(
            glow(source, brightness),
            p.plus(adjacent_step(face)),
        ) == glow_at(source, brightness, p.plus(adjacent_step(face))),
{
    lemma_index_round_trip(0, p);
    lemma_index_round_trip(0, p.plus(adjacent_step(face)));
}

/// The face of `p` that looks towards `source`, for a `p` other than
/// `source`.
spec fn face_towards(p: Pos, source: Pos) -> int {
    if p.x > source.x {
        1
    } else if p.x < source.x {
        3
    } else if p.y > source.y {
        4
    } else if p.y < source.y {
        5
    } else if p.z > source.z {
        0
    } else {
        2
    }
}

/// One step changes the number of steps to `source` by one at most, and a
/// step through the face that looks towards `source` brings one step
/// closer and stays between the two cells.
proof fn lemma_steps_after_step(p: Pos, source: Pos, face: int)
    requires
        p.in_chunk(),
        source.in_chunk(),
        0 <= face < 6,
    ensures
        steps_between(p, source) - 1 <= steps_between(p.plus(adjacent_step(face)), source)
            <= steps_between(p, source) + 1,
        p != source && face == face_towards(p, source) ==> p.plus(adjacent_step(face)).in_chunk()
            && steps_between(p.plus(adjacent_step(face)), source) == steps_between(p, source) - 1,
{
}

/// The glow of a source has no light left to hand on through any face.
proof fn lemma_glow_settled_through(
    blocks: Seq<Block>,
    source: Pos,
    brightness: u8,
    p: Pos,
    face: int,
)
    requires
        p.in_chunk(),
        source.in_chunk(),
        0 <= face < 6,
    ensures
        settled_through(blocks, glow(source, brightness), false, p, face),
{
    lemma_glow_level(source, brightness, p, face);
    lemma_steps_after_step(p, source, face);
}

/// The glow of a lone source is no darker than the seeds and accounted for
/// at every cell.
proof fn lemma_glow_lit_at(
    blocks: Seq<Block>,
    around: SurroundingChunks,
    source: Pos,
    brightness: u8,
    p: Pos,
)
    requires
        blocks.len() == 4096,
        source.in_chunk(),
        p.in_chunk(),
        blocks[cell_index(source)].kind == (BlockKind::Light { brightness }),
        forall|i: int|
            0 <= i < 4096 && i != cell_index(source) ==> (#[trigger] blocks[i]).kind is Air,
        without_local_light(around),
    ensures
        lit_at(blocks, local_seeds(blocks, around), glow(source, brightness), false, p),
{
    let face = face_towards(p, source);
    lemma_index_round_trip(0, p);
    lemma_index_round_trip(0, source);
    lemma_no_local_inflow(around, p);
    lemma_glow_level(source, brightness, p, face);
    lemma_steps_after_step(p, source, face);
    let seeds = local_seeds(blocks, around);
    let g = glow(source, brightness);
    if p == source {
        assert(level(seeds, p) == brightness);
        assert(level(g, p) == brightness);
    } else {
        assert(blocks[cell_index(p)].kind is Air);
        assert(level(seeds, p) == 0);
        if level(g, p) > 0 {
            assert(fed_through(g, false, p, face));
        }
    }
}

/// A lone light source in a chunk of air, with no local light coming in
/// from the neighbours, leaves at every cell its brightness less the
/// number of steps to the cell, and nothing where that would be less than
/// nothing. At the source itself that is the brightness.
pub proof fn lemma_lone_source(
    blocks: Seq<Block>,
    around: SurroundingChunks,
    source: Pos,
    brightness: u8,
    lit: Seq<u8>,
)
    requires
        blocks.len() == 4096,
        source.in_chunk(),
        blocks[cell_index(source)].kind == (BlockKind::Light { brightness }),
        forall|i: int|
            0 <= i < 4096 && i != cell_index(source) ==> (#[trigger] blocks[i]).kind is Air,
        without_local_light(around),
        lit_from(blocks, local_seeds(blocks, around), lit, false),
    ensures
        lit == glow(source, brightness),
        forall|p: Pos|
            p.in_chunk() ==> #[trigger] level(lit, p) == glow_at(source, brightness, p),
{
    let seeds = local_seeds(blocks, around);
    let g = glow(source, brightness);
    assert forall|p: Pos| p.in_chunk() implies #[trigger] lit_at(blocks, seeds, g, false, p) by {
        lemma_glow_lit_at(blocks, around, source, brightness, p);
    }
    assert forall|p: Pos| p.in_chunk() implies #[trigger] settled_at(blocks, g, false, p) by {
        lemma_glow_settled_through(blocks, source, brightness, p, 0);
        lemma_glow_settled_through(blocks, source, brightness, p, 1);
        lemma_glow_settled_through(blocks, source, brightness, p, 2);
        lemma_glow_settled_through(blocks, source, brightness, p, 3);
        lemma_glow_settled_through(blocks, source, brightness, p, 4);
        lemma_glow_settled_through(blocks, source, brightness, p, 5);
    }
    lemma_lit_from_unique(blocks, seeds, g, lit, false);
    assert forall|p: Pos| p.in_chunk() implies #[trigger] level(lit, p) == glow_at(
        source,
        brightness,
        p,
    ) by {
        lemma_glow_level(source, brightness, p, 0);
    }
}

} // verus!
