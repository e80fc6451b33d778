//! A chunk: a cube of blocks with its two light grids and the registry of
//! its light sources, a set of the places that hold one.

use std::collections::{HashSet, VecDeque};
use vstd::prelude::*;
use crate::block::{Block, BlockKind};
use crate::consts::{CHUNK_TOTAL_BLOCKS, LIGHT_MAX};
use crate::grid::{
    cell_index, cell_pos, index_of, lemma_index_round_trip, lemma_scan_places_differ,
    lemma_scan_round_trip, level, location_of, scan_index, scan_location, scan_pos,
};
use crate::light::{lemma_lit_bounded, lemma_push_keeps_pending, lit_from, pending, relax};
use crate::surrounding::{ChunkAdjacent, SurroundingChunks};
use crate::types::{PointIntLocal, Pos};

verus! {

/// What a chunk holds, cell by cell in the order of the flat buffer.
pub struct ChunkView {
    pub blocks: Seq<Block>,
    pub light_sky: Seq<u8>,
    pub light_local: Seq<u8>,
}

impl ChunkView {
    /// Each of the three grids has one entry per cell.
    pub open spec fn wf(self) -> bool {
        &&& self.blocks.len() == 4096
        &&& self.light_sky.len() == 4096
        &&& self.light_local.len() == 4096
    }

    /// No light source is brighter than the brightest light level, and no
    /// cell holds more sky light or local light than that.
    pub open spec fn in_light_range(self) -> bool {
        &&& forall|i: int| 0 <= i < 4096 ==> (#[trigger] self.blocks[i]).wf()
        &&& forall|i: int| 0 <= i < 4096 ==> (#[trigger] self.light_sky[i]) <= 15
        &&& forall|i: int| 0 <= i < 4096 ==> (#[trigger] self.light_local[i]) <= 15
    }

    /// A chunk of air under full sky light, with no local light.
    pub open spec fn fresh() -> ChunkView {
        ChunkView {
            blocks: Seq::new(4096, |i: int| Block { kind: BlockKind::Air }),
            light_sky: Seq::new(4096, |i: int| 15u8),
            light_local: Seq::new(4096, |i: int| 0u8),
        }
    }
}

/// The registry `sources` holds the places of `blocks` that hold a light
/// source, and no other place.
pub open spec fn registry_matches(sources: Set<usize>, blocks: Seq<Block>) -> bool {
    forall|i: usize| #[trigger] sources.contains(i) <==> (i < 4096 && blocks[i as int].kind is Light)
}

/// A cube of 16 by 16 by 16 blocks with its sky light and its local light.
pub struct Chunk {
    blocks: Vec<Block>,
    light_sky: Vec<u8>,
    light_local: Vec<u8>,
    light_sources: HashSet<usize>,
}

impl View for Chunk {
    type V = ChunkView;

    closed spec fn view(&self) -> ChunkView {
        ChunkView {
            blocks: self.blocks@,
            light_sky: self.light_sky@,
            light_local: self.light_local@,
        }
    }
}

/// A buffer of `count` copies of `value`.
fn filled<T: Copy>(value: T, count: usize) -> (buffer: Vec<T>)
    ensures
        buffer@ == Seq::new(count as nat, |i: int| value),
{
    let mut buffer: Vec<T> = Vec::new();
    let mut i: usize = 0;
    while i < count
        invariant
            i <= count,
            buffer@ == Seq::new(i as nat, |j: int| value),
        decreases count - i,
    {
        buffer.push(value);
        i += 1;
        assert(buffer@ =~= Seq::new(i as nat, |j: int| value));
    }
    buffer
}

/// A copy of `buffer`.
fn copied<T: Copy>(buffer: &Vec<T>) -> (copy: Vec<T>)
    ensures
        copy@ == buffer@,
{
    let mut copy: Vec<T> = Vec::new();
    let mut i: usize = 0;
    while i < buffer.len()
        invariant
            i <= buffer.len(),
            copy@ == buffer@.subrange(0, i as int),
        decreases buffer.len() - i,
    {
        copy.push(buffer[i]);
        i += 1;
        assert(copy@ =~= buffer@.subrange(0, i as int));
    }
    assert(buffer@.subrange(0, buffer.len() as int) =~= buffer@);
    copy
}

/// A copy of `set`.
fn copied_set(set: &HashSet<usize>) -> (copy: HashSet<usize>)
    ensures
        copy@ == set@,
{
    broadcast use vstd::std_specs::hash::group_hash_axioms;

    let mut copy: HashSet<usize> = HashSet::new();
    for k in it: set.iter()
        invariant
            it.seq().unref().to_set() == set@,
            forall|v: usize| #[trigger] copy@.contains(v) ==> set@.contains(v),
            forall|j: int| 0 <= j < it.index() ==> copy@.contains(*#[trigger] it.seq()[j]),
    {
        assert(set@.contains(*k));
        copy.insert(*k);
    }
    assert(copy@ =~= set@);
    copy
}

impl Chunk {
    /// The registry of light sources: the places of the flat buffer that
    /// are recorded as holding one.
    pub closed spec fn sources(&self) -> Set<usize> {
        self.light_sources@
    }

    /// The grids have their full size, no brightness and no light level
    /// is above the brightest level, and the registry of light sources
    /// agrees with the block grid.
    pub open spec fn wf(&self) -> bool {
        &&& self@.wf()
        &&& self@.in_light_range()
        &&& registry_matches(self.sources(), self@.blocks)
    }

    /// A chunk of air under full sky light.
    pub fn new() -> (chunk: Self)
        ensures
            chunk.wf(),
            chunk@ == ChunkView::fresh(),
    {
        Self {
            blocks: filled(Block::air(), CHUNK_TOTAL_BLOCKS),
            light_sky: filled(LIGHT_MAX as u8, CHUNK_TOTAL_BLOCKS),
            light_local: filled(0u8, CHUNK_TOTAL_BLOCKS),
            light_sources: HashSet::new(),
        }
    }

    /// The place of `location` in the flat buffers: X is the fastest axis,
    /// Z the slowest.
    pub fn generate_index(location: PointIntLocal) -> (i: usize)
        requires
            location@.in_chunk(),
        ensures
            i == location@.x + 16 * location@.y + 256 * location@.z,
            i == cell_index(location@),
            i < 4096,
            cell_pos(i as int) == location@,
    {
        index_of(&location)
    }

    /// The block at `loc`.
    pub fn get_block(&self, loc: PointIntLocal) -> (block: &Block)
        requires
            self.wf(),
            loc@.in_chunk(),
        ensures
            *block == self@.blocks[cell_index(loc@)],
    {
        &self.blocks[index_of(&loc)]
    }

    /// Puts `block` at `loc` and keeps the registry of light sources in
    /// step; the light grids stay as they are until the next relighting.
    /// A light source must be no brighter than the brightest light level.
    pub fn set_block(&mut self, loc: PointIntLocal, block: Block)
        requires
            old(self).wf(),
            loc@.in_chunk(),
            block.wf(),
        ensures
            final(self).wf(),
            final(self)@.blocks == old(self)@.blocks.update(cell_index(loc@), block),
            final(self)@.light_sky == old(self)@.light_sky,
            final(self)@.light_local == old(self)@.light_local,
            final(self).sources() == (if block.kind is Light {
                old(self).sources().insert(cell_index(loc@) as usize)
            } else {
                old(self).sources().remove(cell_index(loc@) as usize)
            }),
    {
        broadcast use vstd::std_specs::hash::group_hash_axioms;

        let place = index_of(&loc);
        if let BlockKind::Light { .. } = self.blocks[place].kind {
            self.light_sources.remove(&place);
        }
        self.blocks[place] = block;
        if let BlockKind::Light { .. } = block.kind {
            self.light_sources.insert(place);
        }
        assert(self.light_sources@ =~= (if block.kind is Light {
            old(self).light_sources@.insert(place)
        } else {
            old(self).light_sources@.remove(place)
        }));
    }

    /// The local light at `loc`, as the last relighting left it.
    pub fn get_light_local(&self, loc: PointIntLocal) -> (light: u8)
        requires
            self.wf(),
            loc@.in_chunk(),
        ensures
            light == self@.light_local[cell_index(loc@)],
    {
        self.light_local[index_of(&loc)]
    }

    /// The sky light at `loc`, as the last relighting left it.
    pub fn get_light_sky(&self, loc: PointIntLocal) -> (light: u8)
        requires
            self.wf(),
            loc@.in_chunk(),
        ensures
            light == self@.light_sky[cell_index(loc@)],
    {
        self.light_sky[index_of(&loc)]
    }
}

/// The cells of the first `turns` turns of a scan hold in `light` what
/// `want` holds for them, and each of them that is lit waits in `updated`.
pub open spec fn seeded_upto(
    light: Seq<u8>,
    want: Seq<u8>,
    updated: Seq<PointIntLocal>,
    turns: int,
) -> bool {
    forall|m: int|
        0 <= m < turns ==> {
            let i = cell_index(#[trigger] scan_pos(m));
            &&& light[i] == want[i]
            &&& light[i] == 0 || pending(updated, scan_pos(m))
        }
}

/// Once every cell has had its turn, `light` is `want`, and every lit cell
/// waits in `updated`.
proof fn lemma_seeded_all(light: Seq<u8>, want: Seq<u8>, updated: Seq<PointIntLocal>)
    requires
        light.len() == 4096,
        want.len() == 4096,
        seeded_upto(light, want, updated, 4096),
    ensures
        light == want,
        forall|i: int| 0 <= i < 4096 ==> (#[trigger] light[i]) == 0 || pending(updated, cell_pos(i)),
        forall|p: Pos| p.in_chunk() ==> level(light, p) == 0 || #[trigger] pending(updated, p),
{
    assert forall|i: int| 0 <= i < 4096 implies light[i] == want[i] && ((#[trigger] light[i]) == 0
        || pending(updated, cell_pos(i))) by {
        let p = cell_pos(i);
        lemma_index_round_trip(i, p);
        lemma_scan_round_trip(0, p);
        assert(scan_pos(scan_index(p)) == p);
    }
    assert(light =~= want);
    assert forall|p: Pos| p.in_chunk() implies level(light, p) == 0 || #[trigger] pending(
        updated,
        p,
    ) by {
        lemma_index_round_trip(0, p);
        assert(light[cell_index(p)] == 0 || pending(updated, cell_pos(cell_index(p))));
    }
}

/// Writing the seed of the cell whose turn it is, and queueing the cell if
/// the seed is not dark, extends what has been seeded by that turn.
proof fn lemma_seeded_next(
    light: Seq<u8>,
    want: Seq<u8>,
    updated: Seq<PointIntLocal>,
    turn: int,
    loc: PointIntLocal,
)
    requires
        light.len() == 4096,
        0 <= turn < 4096,
        loc@ == scan_pos(turn),
        seeded_upto(light, want, updated, turn),
    ensures
        seeded_upto(light.update(cell_index(loc@), want[cell_index(loc@)]), want, updated.push(loc), turn + 1),
        want[cell_index(loc@)] == 0 ==> seeded_upto(
            light.update(cell_index(loc@), want[cell_index(loc@)]),
            want,
            updated,
            turn + 1,
        ),
{
    let place = cell_index(loc@);
    let after = light.update(place, want[place]);
    lemma_push_keeps_pending(updated, loc);
    lemma_scan_round_trip(turn, loc@);
    assert forall|m: int| 0 <= m < turn + 1 implies {
        let i = cell_index(#[trigger] scan_pos(m));
        &&& after[i] == want[i]
        &&& (after[i] == 0 || pending(updated.push(loc), scan_pos(m)))
        &&& (want[place] == 0 ==> after[i] == 0 || pending(updated, scan_pos(m)))
    } by {
        lemma_scan_round_trip(m, loc@);
        if m != turn {
            lemma_scan_places_differ(m, turn);
        }
    }
}

/// The sky light that each cell starts from: what the neighbours give it
/// where light can enter it, nothing elsewhere.
pub open spec fn sky_seeds(blocks: Seq<Block>, around: SurroundingChunks) -> Seq<u8> {
    Seq::new(
        4096,
        |i: int|
            if blocks[i].transparent() {
                around.sky_inflow(cell_pos(i)) as u8
            } else {
                0u8
            },
    )
}

/// The local light that the neighbours give to each cell that light can
/// enter, before the light sources are counted.
pub open spec fn local_inflow_seeds(blocks: Seq<Block>, around: SurroundingChunks) -> Seq<u8> {
    Seq::new(
        4096,
        |i: int|
            if blocks[i].transparent() {
                around.local_inflow(cell_pos(i)) as u8
            } else {
                0u8
            },
    )
}

/// The local light that each cell starts from: its own brightness for a
/// light source, what the neighbours give it for any other cell that light
/// can enter, nothing elsewhere.
pub open spec fn local_seeds(blocks: Seq<Block>, around: SurroundingChunks) -> Seq<u8> {
    Seq::new(
        4096,
        |i: int|
            match blocks[i].kind {
                BlockKind::Light { brightness } => brightness,
                BlockKind::Air => around.local_inflow(cell_pos(i)) as u8,
                BlockKind::Solid => 0u8,
            },
    )
}

impl Chunk {
    /// Computes the sky light anew: seeds every cell from the neighbours,
    /// then spreads the seeds, losing one level per step but none straight
    /// down.
    pub fn recalculate_light_sky(&mut self, around: SurroundingChunks)
        requires
            old(self).wf(),
            around.ready(),
        ensures
            final(self).wf(),
            final(self)@.blocks == old(self)@.blocks,
            final(self).sources() == old(self).sources(),
            final(self)@.light_local == old(self)@.light_local,
            lit_from(
                old(self)@.blocks,
                sky_seeds(old(self)@.blocks, around),
                final(self)@.light_sky,
                true,
            ),
    {
        let mut updated = VecDeque::<PointIntLocal>::new();

        // Collect light data from surrounding chunks and populate the queue
        let ghost want = sky_seeds(self.blocks@, around);
        let mut turn: usize = 0;
        while turn < CHUNK_TOTAL_BLOCKS
            invariant
                turn <= 4096,
                around.ready(),
                self.wf(),
                self.blocks@ == old(self).blocks@,
                self.light_local@ == old(self).light_local@,
                want == sky_seeds(self.blocks@, around),
                forall|k: int| 0 <= k < updated@.len() ==> (#[trigger] updated@[k])@.in_chunk(),
                seeded_upto(self.light_sky@, want, updated@, turn as int),
            decreases 4096 - turn,
        {
            let loc = scan_location(turn);
            let place = index_of(&loc);
            proof {
                lemma_index_round_trip(0, loc@);
                lemma_seeded_next(self.light_sky@, want, updated@, turn as int, loc);
                around.lemma_inflow_in_range(loc@);
            }
            let seed: u8 = if self.blocks[place].is_transparent() {
                around.inner_light_sky(loc)
            } else {
                0
            };
            self.light_sky[place] = seed;
            if seed != 0 {
                updated.push_back(loc);
            }
            turn += 1;
        }
        proof {
            lemma_seeded_all(self.light_sky@, want, updated@);
        }
        let ghost seeds = self.light_sky@;
        relax(&self.blocks, &mut self.light_sky, &mut updated, true);
        proof {
            assert forall|i: int| 0 <= i < 4096 implies (#[trigger] self.light_sky@[i]) <= 15 by {
                lemma_index_round_trip(i, cell_pos(i));
                lemma_lit_bounded(self.blocks@, seeds, self.light_sky@, true, 15, cell_pos(i));
            }
        }
    }

    /// Computes the local light anew: seeds every cell from the
    /// neighbours, sets every light source to its own brightness, then
    /// spreads the seeds, losing one level per step.
    pub fn recalculate_light_local(&mut self, around: SurroundingChunks)
        requires
            old(self).wf(),
            around.ready(),
        ensures
            final(self).wf(),
            final(self)@.blocks == old(self)@.blocks,
            final(self).sources() == old(self).sources(),
            final(self)@.light_sky == old(self)@.light_sky,
            lit_from(
                old(self)@.blocks,
                local_seeds(old(self)@.blocks, around),
                final(self)@.light_local,
                false,
            ),
    {
        broadcast use vstd::std_specs::hash::group_hash_axioms;

        let mut updated = VecDeque::<PointIntLocal>::new();

        // Collect light data from the surrounding chunks and populate the queue
        let ghost want = local_inflow_seeds(self.blocks@, around);
        let mut turn: usize = 0;
        while turn < CHUNK_TOTAL_BLOCKS
            invariant
                turn <= 4096,
                around.ready(),
                self.wf(),
                self.blocks@ == old(self).blocks@,
                self.light_sky@ == old(self).light_sky@,
                want == local_inflow_seeds(self.blocks@, around),
                forall|k: int| 0 <= k < updated@.len() ==> (#[trigger] updated@[k])@.in_chunk(),
                seeded_upto(self.light_local@, want, updated@, turn as int),
            decreases 4096 - turn,
        {
            let loc = scan_location(turn);
            let place = index_of(&loc);
            proof {
                lemma_index_round_trip(0, loc@);
                lemma_seeded_next(self.light_local@, want, updated@, turn as int, loc);
                around.lemma_inflow_in_range(loc@);
            }
            let seed: u8 = if self.blocks[place].is_transparent() {
                around.inner_light_local(loc)
            } else {
                0
            };
            self.light_local[place] = seed;
            if seed != 0 {
                updated.push_back(loc);
            }
            turn += 1;
        }
        proof {
            lemma_seeded_all(self.light_local@, want, updated@);
        }

        let ghost inflow = self.light_local@;
        for s in it: self.light_sources.iter()
            invariant
                self.wf(),
                inflow.len() == 4096,
                self.blocks@ == old(self).blocks@,
                self.light_sky@ == old(self).light_sky@,
                it.seq().unref().to_set() == self.light_sources@,
                forall|j: int| 0 <= j < updated@.len() ==> (#[trigger] updated@[j])@.in_chunk(),
                forall|j: int|
                    0 <= j < it.index() ==> (*#[trigger] it.seq()[j]) < 4096 && self.blocks@[*it.seq()[j] as int].emission()
                        == Some(self.light_local@[*it.seq()[j] as int]),
                forall|i: int|
                    0 <= i < 4096 ==> (#[trigger] self.light_local@[i]) == inflow[i]
                        || self.blocks@[i].emission() == Some(self.light_local@[i]),
                forall|i: int|
                    0 <= i < 4096 ==> (#[trigger] self.light_local@[i]) == 0 || pending(
                        updated@,
                        cell_pos(i),
                    ),
        {
            proof {
                // The place that the walk hands out is one of the registry.
                assert(it.seq().unref()[it.index()] == *s);
                assert(self.light_sources@.contains(*s));
            }
            let block = self.blocks[*s];
            if let BlockKind::Light { brightness } = block.kind {
                let loc = location_of(*s);
                proof {
                    lemma_push_keeps_pending(updated@, loc);
                }
                self.light_local[*s] = brightness;
                updated.push_back(loc);
            }
        }
        proof {
            let seeds = local_seeds(self.blocks@, around);
            assert forall|i: int| 0 <= i < 4096 implies self.light_local@[i] == seeds[i] by {
                if self.blocks@[i].kind is Light {
                    assert(self.light_sources@.contains(i as usize));
                }
            }
            assert(self.light_local@ =~= seeds);
            assert forall|p: Pos| p.in_chunk() implies level(self.light_local@, p) == 0
                || #[trigger] pending(updated@, p) by {
                lemma_index_round_trip(0, p);
                let i = cell_index(p);
                assert(self.light_local@[i] == 0 || pending(updated@, cell_pos(i)));
            }
        }
        let ghost seeds = self.light_local@;
        relax(&self.blocks, &mut self.light_local, &mut updated, false);
        proof {
            assert forall|i: int| 0 <= i < 4096 implies (#[trigger] self.light_local@[i]) <= 15 by {
                lemma_index_round_trip(i, cell_pos(i));
                lemma_lit_bounded(self.blocks@, seeds, self.light_local@, false, 15, cell_pos(i));
            }
        }
    }

    /// Computes both light grids anew from the blocks and the neighbours:
    /// the sky light first, then the local light.
    pub fn recalculate_light(&mut self, around: SurroundingChunks)
        requires
            old(self).wf(),
            around.ready(),
        ensures
            final(self).wf(),
            final(self)@.blocks == old(self)@.blocks,
            final(self).sources() == old(self).sources(),
            lit_from(
                old(self)@.blocks,
                sky_seeds(old(self)@.blocks, around),
                final(self)@.light_sky,
                true,
            ),
            lit_from(
                old(self)@.blocks,
                local_seeds(old(self)@.blocks, around),
                final(self)@.light_local,
                false,
            ),
    {
        self.recalculate_light_sky(around);
        self.recalculate_light_local(around);
    }
}

impl Default for Chunk {
    /// A chunk of air under full sky light.
    fn default() -> (chunk: Self)
        ensures
            chunk.wf(),
            chunk@ == ChunkView::fresh(),
    {
        Self::new()
    }
}

impl Clone for Chunk {
    fn clone(&self) -> (chunk: Self)
        ensures
            chunk@ == self@,
            chunk.sources() == self.sources(),
            self.wf() ==> chunk.wf(),
    {
        Self {
            blocks: copied(&self.blocks),
            light_sky: copied(&self.light_sky),
            light_local: copied(&self.light_local),
            light_sources: copied_set(&self.light_sources),
        }
    }
}

impl ChunkAdjacent for Chunk {
    open spec fn ready(&self) -> bool {
        self.wf()
    }

    open spec fn block_at(&self, p: Pos) -> Block {
        self@.blocks[cell_index(p)]
    }

    open spec fn light_local_at(&self, p: Pos) -> u8 {
        self@.light_local[cell_index(p)]
    }

    open spec fn light_sky_at(&self, p: Pos) -> u8 {
        self@.light_sky[cell_index(p)]
    }

    fn get_block(&self, loc: PointIntLocal) -> (block: &Block) {
        Chunk::get_block(self, loc)
    }

    fn get_light_local(&self, loc: PointIntLocal) -> (light: u8) {
        Chunk::get_light_local(self, loc)
    }

    fn get_light_sky(&self, loc: PointIntLocal) -> (light: u8) {
        Chunk::get_light_sky(self, loc)
    }
}

} // verus!
