//! What surrounds a chunk: its six neighbours, and the light that crosses
//! from them into the cells on the chunk's faces.

use vstd::prelude::*;
use crate::block::{Block, BlockKind};
use crate::chunk::Chunk;
use crate::consts::{CHUNK_X_BLOCKS, CHUNK_Y_BLOCKS, CHUNK_Z_BLOCKS};
use crate::grid::{adjacent_step, lemma_index_round_trip, neighbour};
use crate::types::{PointIntLocal, Pos};

verus! {

/// The side of a chunk on which a neighbour lies.
#[derive(Clone, Copy, Debug, PartialEq, Eq, Structural)]
pub enum AdjacentDirection {
    XPos,
    XNeg,
    YPos,
    YNeg,
    ZPos,
    ZNeg,
}

/// How many of the three coordinates of `p` lie outside `[0, 16)`.
pub open spec fn axes_outside(p: Pos) -> int {
    (if 0 <= p.x < 16 { 0int } else { 1int }) + (if 0 <= p.y < 16 { 0int } else { 1int }) + (if 0
        <= p.z < 16 { 0int } else { 1int })
}

/// The side on which `p` leaves the chunk, for a `p` that is outside on
/// one axis only.
pub open spec fn direction_of(p: Pos) -> AdjacentDirection {
    if p.x >= 16 {
        AdjacentDirection::XPos
    } else if p.x < 0 {
        AdjacentDirection::XNeg
    } else if p.y >= 16 {
        AdjacentDirection::YPos
    } else if p.y < 0 {
        AdjacentDirection::YNeg
    } else if p.z >= 16 {
        AdjacentDirection::ZPos
    } else {
        AdjacentDirection::ZNeg
    }
}

impl AdjacentDirection {
    /// The place of this side among the six neighbours.
    pub open spec fn slot(self) -> int {
        match self {
            AdjacentDirection::XPos => 0,
            AdjacentDirection::XNeg => 1,
            AdjacentDirection::YPos => 2,
            AdjacentDirection::YNeg => 3,
            AdjacentDirection::ZPos => 4,
            AdjacentDirection::ZNeg => 5,
        }
    }

    /// The side on which `loc` leaves the chunk. The position must be
    /// outside the chunk on exactly one axis.
    pub fn from(loc: PointIntLocal) -> (direction: Self)
        requires
            axes_outside(loc@) == 1,
        ensures
            direction == direction_of(loc@),
    {
        let x_pos = loc.x() >= CHUNK_X_BLOCKS as isize;
        let x_neg = loc.x() < 0;
        let y_pos = loc.y() >= CHUNK_Y_BLOCKS as isize;
        let y_neg = loc.y() < 0;
        let z_pos = loc.z() >= CHUNK_Z_BLOCKS as isize;
        if x_pos {
            Self::XPos
        } else if x_neg {
            Self::XNeg
        } else if y_pos {
            Self::YPos
        } else if y_neg {
            Self::YNeg
        } else if z_pos {
            Self::ZPos
        } else {
            Self::ZNeg
        }
    }

    /// The place of this side among the six neighbours.
    pub fn index(self) -> (slot: usize)
        ensures
            slot == self.slot(),
            slot < 6,
    {
        match self {
            AdjacentDirection::XPos => 0,
            AdjacentDirection::XNeg => 1,
            AdjacentDirection::YPos => 2,
            AdjacentDirection::YNeg => 3,
            AdjacentDirection::ZPos => 4,
            AdjacentDirection::ZNeg => 5,
        }
    }
}

/// What a chunk shows to the chunk beside it.
pub trait ChunkAdjacent {
    /// Whether the neighbour can be asked.
    spec fn ready(&self) -> bool;

    /// The block that the neighbour holds at `p`.
    spec fn block_at(&self, p: Pos) -> Block;

    /// The local light that the neighbour holds at `p`.
    spec fn light_local_at(&self, p: Pos) -> u8;

    /// The sky light that the neighbour holds at `p`.
    spec fn light_sky_at(&self, p: Pos) -> u8;

    /// Acquire the block at `loc`
    fn get_block(&self, loc: PointIntLocal) -> (block: &Block)
        requires
            self.ready(),
            loc@.in_chunk(),
        ensures
            *block == self.block_at(loc@),
    ;

    /// Acquire the local light level at `loc`
    fn get_light_local(&self, loc: PointIntLocal) -> (light: u8)
        requires
            self.ready(),
            loc@.in_chunk(),
        ensures
            light == self.light_local_at(loc@),
    ;

    /// Acquire the sky light level at `loc`
    fn get_light_sky(&self, loc: PointIntLocal) -> (light: u8)
        requires
            self.ready(),
            loc@.in_chunk(),
        ensures
            light == self.light_sky_at(loc@),
    ;
}

/// A neighbour that holds air everywhere, with one sky light level for all
/// of its cells and no local light: what lies beyond the loaded world.
pub struct ChunkEmpty {
    only_block: Block,
    light_local: u8,
    light_sky: u8,
}

impl ChunkEmpty {
    /// The sky light that every cell reports.
    pub closed spec fn sky(&self) -> u8 {
        self.light_sky
    }

    /// The neighbour holds air and is dark but for the sky.
    pub closed spec fn uniform(&self) -> bool {
        self.only_block.kind == BlockKind::Air && self.light_local == 0
    }

    /// An empty neighbour under sky light `light_sky`, which is a light
    /// level: at most the brightest.
    pub fn new(light_sky: u8) -> (empty: Self)
        requires
            light_sky <= 15,
        ensures
            empty.uniform(),
            empty.sky() == light_sky,
    {
        Self { only_block: Block::air(), light_local: 0, light_sky }
    }
}

impl ChunkAdjacent for ChunkEmpty {
    open spec fn ready(&self) -> bool {
        self.uniform() && self.sky() <= 15
    }

    open spec fn block_at(&self, p: Pos) -> Block {
        Block { kind: BlockKind::Air }
    }

    open spec fn light_local_at(&self, p: Pos) -> u8 {
        0
    }

    open spec fn light_sky_at(&self, p: Pos) -> u8 {
        self.sky()
    }

    fn get_block(&self, loc: PointIntLocal) -> (block: &Block) {
        &self.only_block
    }

    fn get_light_local(&self, loc: PointIntLocal) -> (light: u8) {
        self.light_local
    }

    fn get_light_sky(&self, loc: PointIntLocal) -> (light: u8) {
        self.light_sky
    }
}

/// A light level after one step: one less, and never below nothing.
pub open spec fn dimmed(light: int) -> int {
    if light > 0 {
        light - 1
    } else {
        0
    }
}

/// One neighbour of a chunk: a chunk of the world, or the emptiness beyond
/// the world's edge.
#[derive(Clone, Copy)]
pub enum Neighbour<'a> {
    Real(&'a Chunk),
    Empty(&'a ChunkEmpty),
}

impl<'a> ChunkAdjacent for Neighbour<'a> {
    open spec fn ready(&self) -> bool {
        match *self {
            Neighbour::Real(chunk) => chunk.ready(),
            Neighbour::Empty(empty) => empty.ready(),
        }
    }

    open spec fn block_at(&self, p: Pos) -> Block {
        match *self {
            Neighbour::Real(chunk) => chunk.block_at(p),
            Neighbour::Empty(empty) => empty.block_at(p),
        }
    }

    open spec fn light_local_at(&self, p: Pos) -> u8 {
        match *self {
            Neighbour::Real(chunk) => chunk.light_local_at(p),
            Neighbour::Empty(empty) => empty.light_local_at(p),
        }
    }

    open spec fn light_sky_at(&self, p: Pos) -> u8 {
        match *self {
            Neighbour::Real(chunk) => chunk.light_sky_at(p),
            Neighbour::Empty(empty) => empty.light_sky_at(p),
        }
    }

    fn get_block(&self, loc: PointIntLocal) -> (block: &Block) {
        match self {
            Neighbour::Real(chunk) => ChunkAdjacent::get_block(*chunk, loc),
            Neighbour::Empty(empty) => empty.get_block(loc),
        }
    }

    fn get_light_local(&self, loc: PointIntLocal) -> (light: u8) {
        match self {
            Neighbour::Real(chunk) => ChunkAdjacent::get_light_local(*chunk, loc),
            Neighbour::Empty(empty) => empty.get_light_local(loc),
        }
    }

    fn get_light_sky(&self, loc: PointIntLocal) -> (light: u8) {
        match self {
            Neighbour::Real(chunk) => ChunkAdjacent::get_light_sky(*chunk, loc),
            Neighbour::Empty(empty) => empty.get_light_sky(loc),
        }
    }
}

/// The six neighbours of a chunk, one per side, in the order +X, -X, +Y,
/// -Y, +Z, -Z.
#[derive(Clone, Copy)]
pub struct SurroundingChunks<'a> {
    pub chunks: [Neighbour<'a>; 6],
}

impl<'a> SurroundingChunks<'a> {
    /// Every neighbour can be asked.
    pub open spec fn ready(&self) -> bool {
        forall|i: int| 0 <= i < 6 ==> (#[trigger] self.chunks[i]).ready()
    }

    /// The local light that crosses into cell `p` through face number
    /// `face`: the neighbour's level one step across, less one. Nothing
    /// where that face looks at a cell of the chunk itself.
    pub open spec fn local_across(&self, p: Pos, face: int) -> int {
        let q = p.plus(adjacent_step(face));
        if q.in_chunk() {
            0
        } else {
            dimmed(self.chunks[direction_of(q).slot()].light_local_at(q.wrapped()) as int)
        }
    }

    /// The sky light that crosses into cell `p` through face number `face`:
    /// the neighbour's level one step across, undiminished where it falls
    /// from the neighbour above and less one from any other side.
    pub open spec fn sky_across(&self, p: Pos, face: int) -> int {
        let q = p.plus(adjacent_step(face));
        if q.in_chunk() {
            0
        } else {
            let light = self.chunks[direction_of(q).slot()].light_sky_at(q.wrapped()) as int;
            if direction_of(q) == AdjacentDirection::YPos {
                light
            } else {
                dimmed(light)
            }
        }
    }

    /// The strongest local light that crosses into `p` through the first
    /// `faces` faces.
    pub open spec fn local_through(&self, p: Pos, faces: nat) -> int
        decreases faces,
    {
        if faces == 0 {
            0
        } else {
            let rest = self.local_through(p, (faces - 1) as nat);
            let here = self.local_across(p, faces - 1);
            if here > rest {
                here
            } else {
                rest
            }
        }
    }

    /// The strongest sky light that crosses into `p` through the first
    /// `faces` faces.
    pub open spec fn sky_through(&self, p: Pos, faces: nat) -> int
        decreases faces,
    {
        if faces == 0 {
            0
        } else {
            let rest = self.sky_through(p, (faces - 1) as nat);
            let here = self.sky_across(p, faces - 1);
            if here > rest {
                here
            } else {
                rest
            }
        }
    }

    /// The local light that the neighbours give to cell `p`: the strongest
    /// of what crosses through its six faces.
    pub open spec fn local_inflow(&self, p: Pos) -> int {
        self.local_through(p, 6)
    }

    /// The sky light that the neighbours give to cell `p`: the strongest of
    /// what crosses through its six faces.
    pub open spec fn sky_inflow(&self, p: Pos) -> int {
        self.sky_through(p, 6)
    }

    /// What crosses into a cell from neighbours that can be asked is a
    /// light level: never above the brightest.
    pub proof fn lemma_inflow_in_range(&self, p: Pos)
        requires
            self.ready(),
            p.in_chunk(),
        ensures
            0 <= self.sky_inflow(p) <= 15,
            0 <= self.local_inflow(p) <= 15,
    {
        reveal_with_fuel(SurroundingChunks::sky_through, 7);
        reveal_with_fuel(SurroundingChunks::local_through, 7);
        assert forall|face: int| 0 <= face < 6 implies 0 <= #[trigger] self.sky_across(p, face)
            <= 15 && 0 <= self.local_across(p, face) <= 15 by {
            let q = p.plus(adjacent_step(face));
            if !q.in_chunk() {
                let side = self.chunks[direction_of(q).slot()];
                lemma_index_round_trip(0, q.wrapped());
                assert(side.ready());
                assert(side.light_sky_at(q.wrapped()) <= 15);
                assert(side.light_local_at(q.wrapped()) <= 15);
            }
        }
    }

    /// The surroundings made of `chunks`, in the order +X, -X, +Y, -Y,
    /// +Z, -Z.
    pub fn new(chunks: [Neighbour<'a>; 6]) -> (around: Self)
        ensures
            around.chunks == chunks,
    {
        Self { chunks }
    }

    /// The neighbour on the side `direction`.
    pub fn get_chunk_for_direction(&self, direction: &AdjacentDirection) -> (chunk: Neighbour<'a>)
        ensures
            chunk == self.chunks[direction.slot()],
    {
        self.chunks[direction.index()]
    }

    /// The neighbour in which `loc` lies, and the side it is on. The
    /// position must be outside the chunk on exactly one axis.
    pub fn get_chunk_of_location(&self, loc: PointIntLocal) -> (found: (Neighbour<'a>, AdjacentDirection))
        requires
            axes_outside(loc@) == 1,
        ensures
            found.1 == direction_of(loc@),
            found.0 == self.chunks[direction_of(loc@).slot()],
    {
        let direction = AdjacentDirection::from(loc);
        (self.get_chunk_for_direction(&direction), direction)
    }

    /// Get local light level for a location on one of inner chunk's faces based
    /// on the surrounding local light data.
    ///
    /// If the location is adjacent to multiple surrounding chunks,
    /// the light level is the maximum of the surrounding light levels.
    ///
    /// For blocks that are not on the inner chunk's faces, return 0.
    pub fn inner_light_local(&self, loc: PointIntLocal) -> (light: u8)
        requires
            self.ready(),
            loc@.in_chunk(),
        ensures
            light == self.local_inflow(loc@),
    {
        if !loc.is_on_chunk_face() {
            proof {
                reveal_with_fuel(SurroundingChunks::local_through, 7);
            }
            return 0;
        }
        let mut light: u8 = 0;
        let mut face: usize = 0;
        while face < 6
            invariant
                face <= 6,
                self.ready(),
                loc@.in_chunk(),
                light == self.local_through(loc@, face as nat),
            decreases 6 - face,
        {
            let loc_adjacent = neighbour(loc, face);
            if !loc_adjacent.is_in_chunk() {
                let (chunk_adjacent, _) = self.get_chunk_of_location(loc_adjacent);
                let light_adjacent = chunk_adjacent.get_light_local(loc_adjacent.localize());
                let crossing: u8 = if light_adjacent > 0 {
                    light_adjacent - 1
                } else {
                    0
                };
                if crossing > light {
                    light = crossing;
                }
            }
            face += 1;
        }
        light
    }

    /// Get sky light level for a location on one of the inner chunk's faces
    /// based on the surrounding sky light data.
    ///
    /// If the location is adjacent to multiple surrounding chunks,
    /// the light level is the maximum of the surrounding light levels.
    ///
    /// Sky light propagates down without weakening.
    ///
    /// For blocks that are not on the inner chunk's faces, return 0.
    pub fn inner_light_sky(&self, loc: PointIntLocal) -> (light: u8)
        requires
            self.ready(),
            loc@.in_chunk(),
        ensures
            light == self.sky_inflow(loc@),
    {
        if !loc.is_on_chunk_face() {
            proof {
                reveal_with_fuel(SurroundingChunks::sky_through, 7);
            }
            return 0;
        }
        let mut light: u8 = 0;
        let mut face: usize = 0;
        while face < 6
            invariant
                face <= 6,
                self.ready(),
                loc@.in_chunk(),
                light == self.sky_through(loc@, face as nat),
            decreases 6 - face,
        {
            let loc_adjacent = neighbour(loc, face);
            if !loc_adjacent.is_in_chunk() {
                let (chunk_adjacent, direction) = self.get_chunk_of_location(loc_adjacent);
                let light_adjacent = chunk_adjacent.get_light_sky(loc_adjacent.localize());
                let crossing: u8 = if direction == AdjacentDirection::YPos {
                    light_adjacent
                } else if light_adjacent > 0 {
                    light_adjacent - 1
                } else {
                    0
                };
                if crossing > light {
                    light = crossing;
                }
            }
            face += 1;
        }
        light
    }
}

} // verus!
