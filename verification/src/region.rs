//! A region: a cube of 16 by 16 by 16 chunks, the whole addressable world.

use vstd::prelude::*;
use crate::consts::{
    CHUNK_X_BLOCKS, CHUNK_Y_BLOCKS, CHUNK_Z_BLOCKS, REGION_TOTAL_CHUNKS, REGION_X_CHUNKS,
    REGION_Y_CHUNKS, REGION_Z_CHUNKS,
};
use crate::chunk::{local_seeds, sky_seeds, Chunk, ChunkView};
use crate::surrounding::{Neighbour, SurroundingChunks};
use crate::grid::{lemma_scan_round_trip, scan_index, scan_pos};
use crate::light::lit_from;
use crate::mesh::{chunk_quads, lemma_quads_bounded, mesh_of, mesh_view, MeshView};
use crate::types::{offset_pos, PointGlobal, PointIntLocal, Pos};

verus! {

/// The chunks of a region in a three-dimensional array.
#[verifier::external_body]
pub struct ChunkGrid {
    cells: ndarray::Array3<Chunk>,
}

/// The chunks that a grid holds, the first axis slowest and the last axis
/// fastest.
pub uninterp spec fn grid_chunks(grid: ChunkGrid) -> Seq<Chunk>;

/// The lengths of the three axes of a grid.
pub uninterp spec fn grid_shape(grid: ChunkGrid) -> (nat, nat, nat);

/// `ndarray::Array3::default`: a grid of the given shape in which every
/// chunk is what `Chunk::default` gives.
#[verifier::external_body]
fn grid_default(x: usize, y: usize, z: usize) -> (grid: ChunkGrid)
    requires
        x <= 16,
        y <= 16,
        z <= 16,
    ensures
        grid_shape(grid) == (x as nat, y as nat, z as nat),
        grid_chunks(grid).len() == x * y * z,
        forall|i: int|
            0 <= i < grid_chunks(grid).len() ==> (#[trigger] grid_chunks(grid)[i]).wf()
                && grid_chunks(grid)[i]@ == ChunkView::fresh(),
{
    ChunkGrid { cells: ndarray::Array3::default((x, y, z)) }
}

/// Indexing an `ndarray::Array3` by three coordinates within its shape:
/// the chunk that stands there.
#[verifier::external_body]
fn grid_get(grid: &ChunkGrid, x: usize, y: usize, z: usize) -> (chunk: &Chunk)
    requires
        x < grid_shape(*grid).0,
        y < grid_shape(*grid).1,
        z < grid_shape(*grid).2,
    ensures
        *chunk == grid_chunks(*grid)[(x * grid_shape(*grid).1 + y) * grid_shape(*grid).2 + z],
{
    &grid.cells[[x, y, z]]
}

/// Mutable indexing of an `ndarray::Array3` by three coordinates within
/// its shape: the chunk that stands there, to be changed in place. Every
/// other chunk and the shape stay.
#[verifier::external_body]
fn grid_get_mut(grid: &mut ChunkGrid, x: usize, y: usize, z: usize) -> (chunk: &mut Chunk)
    requires
        x < grid_shape(*old(grid)).0,
        y < grid_shape(*old(grid)).1,
        z < grid_shape(*old(grid)).2,
    ensures
        *chunk == grid_chunks(*old(grid))[(x * grid_shape(*old(grid)).1 + y) * grid_shape(
            *old(grid),
        ).2 + z],
        grid_shape(*final(grid)) == grid_shape(*old(grid)),
        grid_chunks(*final(grid)) == grid_chunks(*old(grid)).update(
            (x * grid_shape(*old(grid)).1 + y) * grid_shape(*old(grid)).2 + z,
            *final(chunk),
        ),
{
    &mut grid.cells[[x, y, z]]
}

/// `ndarray::ArrayBase::indexed_iter`, collected: every chunk of the grid
/// with its three coordinates, in the order in which the grid holds them,
/// the last axis fastest.
#[verifier::external_body]
fn grid_indexed(grid: &ChunkGrid) -> (items: Vec<((usize, usize, usize), &Chunk)>)
    ensures
        items@.len() == grid_chunks(*grid).len(),
        forall|i: int|
            0 <= i < items@.len() ==> {
                let at = (#[trigger] items@[i]).0;
                &&& *items@[i].1 == grid_chunks(*grid)[i]
                &&& at.0 < grid_shape(*grid).0
                &&& at.1 < grid_shape(*grid).1
                &&& at.2 < grid_shape(*grid).2
                &&& (at.0 * grid_shape(*grid).1 + at.1) * grid_shape(*grid).2 + at.2 == i
            },
{
    grid.cells.indexed_iter().collect()
}

/// The six neighbours of the chunk at `p` among `chunks`.
pub open spec fn around_at<'a>(chunks: Seq<Chunk>, p: Pos) -> SurroundingChunks<'a> {
    SurroundingChunks {
        chunks: [
            Neighbour::Real(&chunks[scan_index(Pos { x: p.x + 1, y: p.y, z: p.z })]),
            Neighbour::Real(&chunks[scan_index(Pos { x: p.x - 1, y: p.y, z: p.z })]),
            Neighbour::Real(&chunks[scan_index(Pos { x: p.x, y: p.y + 1, z: p.z })]),
            Neighbour::Real(&chunks[scan_index(Pos { x: p.x, y: p.y - 1, z: p.z })]),
            Neighbour::Real(&chunks[scan_index(Pos { x: p.x, y: p.y, z: p.z + 1 })]),
            Neighbour::Real(&chunks[scan_index(Pos { x: p.x, y: p.y, z: p.z - 1 })]),
        ],
    }
}

/// Mesh `b` put behind mesh `a`: the vertices and lights follow those of
/// `a`, and the indices of `b` are raised by the number of vertices of `a`.
pub open spec fn joined(a: MeshView, b: MeshView) -> MeshView {
    MeshView {
        vertices: a.vertices + b.vertices,
        lights: a.lights + b.lights,
        indices: a.indices + Seq::new(b.indices.len(), |m: int| b.indices[m] + a.vertices.len()),
    }
}

/// Where the chunk at place `i` of a region starts, in blocks from the
/// region's own start.
pub open spec fn chunk_origin(i: int) -> Pos {
    Pos { x: 16 * scan_pos(i).x, y: 16 * scan_pos(i).y, z: 16 * scan_pos(i).z }
}

/// The mesh of the first `n` chunks, each moved to its place in the region
/// and the whole moved by `offset`.
pub open spec fn region_mesh_upto(chunks: Seq<Chunk>, offset: Pos, n: nat) -> MeshView
    decreases n,
{
    if n == 0 {
        MeshView { vertices: Seq::empty(), lights: Seq::empty(), indices: Seq::empty() }
    } else {
        joined(
            region_mesh_upto(chunks, offset, (n - 1) as nat),
            mesh_of(chunk_quads(chunks[n - 1]@), offset.plus(chunk_origin(n - 1))),
        )
    }
}

/// The number of faces that the first `n` chunks show.
pub open spec fn region_faces_upto(chunks: Seq<Chunk>, n: nat) -> nat
    decreases n,
{
    if n == 0 {
        0
    } else {
        region_faces_upto(chunks, (n - 1) as nat) + chunk_quads(chunks[n - 1]@).len()
    }
}

/// The mesh of a region is consistent: it has four vertices, four light
/// levels and six indices for each face, and every index names one of its
/// vertices.
pub proof fn lemma_region_mesh_consistent(chunks: Seq<Chunk>, offset: Pos, n: nat)
    ensures
        region_faces_upto(chunks, n) <= 24576 * n,
        region_mesh_upto(chunks, offset, n).vertices.len() == 4 * region_faces_upto(chunks, n),
        region_mesh_upto(chunks, offset, n).lights.len() == 4 * region_faces_upto(chunks, n),
        region_mesh_upto(chunks, offset, n).indices.len() == 6 * region_faces_upto(chunks, n),
        forall|m: int|
            0 <= m < region_mesh_upto(chunks, offset, n).indices.len() ==> 0
                <= #[trigger] region_mesh_upto(chunks, offset, n).indices[m] < region_mesh_upto(
                chunks,
                offset,
                n,
            ).vertices.len(),
    decreases n,
{
    if n > 0 {
        lemma_region_mesh_consistent(chunks, offset, (n - 1) as nat);
        lemma_quads_bounded(chunks[n - 1]@, 24576);
        let before = region_mesh_upto(chunks, offset, (n - 1) as nat);
        let here = mesh_of(chunk_quads(chunks[n - 1]@), offset.plus(chunk_origin(n - 1)));
        let whole = region_mesh_upto(chunks, offset, n);
        assert(whole == joined(before, here));
        assert forall|m: int| 0 <= m < whole.indices.len() implies 0 <= #[trigger] whole.indices[m]
            < whole.vertices.len() by {
            if m >= before.indices.len() {
                let t = m - before.indices.len();
                assert(whole.indices[m] == here.indices[t] + before.vertices.len());
                assert(0 <= t / 6 < chunk_quads(chunks[n - 1]@).len());
            }
        }
    }
}

/// A cube of 16 by 16 by 16 chunks.
pub struct Region {
    chunks: ChunkGrid,
}

impl Region {
    /// The chunks of the region, X slowest and Z fastest.
    pub closed spec fn chunks(&self) -> Seq<Chunk> {
        grid_chunks(self.chunks)
    }

    /// The number of chunks along each of the three axes.
    pub closed spec fn shape(&self) -> (nat, nat, nat) {
        grid_shape(self.chunks)
    }

    /// The region has its full size and every chunk in it is well formed.
    pub open spec fn wf(&self) -> bool {
        &&& self.shape() == (16nat, 16nat, 16nat)
        &&& self.chunks().len() == 4096
        &&& forall|i: int| 0 <= i < 4096 ==> (#[trigger] self.chunks()[i]).wf()
    }

    /// A region of fresh chunks.
    pub fn new() -> (region: Self)
        ensures
            region.wf(),
            forall|i: int| 0 <= i < 4096 ==> (#[trigger] region.chunks()[i])@ == ChunkView::fresh(),
    {
        Self { chunks: grid_default(REGION_X_CHUNKS, REGION_Y_CHUNKS, REGION_Z_CHUNKS) }
    }

    /// The chunk at `loc`.
    pub fn get_chunk(&self, loc: PointIntLocal) -> (chunk: &Chunk)
        requires
            self.wf(),
            loc@.in_region(),
        ensures
            *chunk == self.chunks()[scan_index(loc@)],
            chunk.wf(),
    {
        let chunk = grid_get(&self.chunks, loc.ux(), loc.uy(), loc.uz());
        assert(grid_chunks(self.chunks)[scan_index(loc@)].wf());
        chunk
    }

    /// The chunk at `loc`, to be changed in place. No other chunk changes.
    pub fn get_chunk_mut(&mut self, loc: PointIntLocal) -> (chunk: &mut Chunk)
        requires
            old(self).wf(),
            loc@.in_region(),
        ensures
            *chunk == old(self).chunks()[scan_index(loc@)],
            chunk.wf(),
            final(self).shape() == old(self).shape(),
            final(self).chunks() == old(self).chunks().update(scan_index(loc@), *final(chunk)),
    {
        assert(0 <= scan_index(loc@) < 4096);
        assert(grid_chunks(self.chunks)[scan_index(loc@)].wf());
        grid_get_mut(&mut self.chunks, loc.ux(), loc.uy(), loc.uz())
    }

    /// Puts `chunk` in the place of the chunk at `loc`.
    pub fn set_chunk(&mut self, loc: PointIntLocal, chunk: Chunk)
        requires
            old(self).wf(),
            loc@.in_region(),
            chunk.wf(),
        ensures
            final(self).wf(),
            final(self).chunks() == old(self).chunks().update(scan_index(loc@), chunk),
    {
        let ghost before = grid_chunks(self.chunks);
        assert(0 <= scan_index(loc@) < 4096);
        *grid_get_mut(&mut self.chunks, loc.ux(), loc.uy(), loc.uz()) = chunk;
        proof {
            let after = grid_chunks(self.chunks);
            assert forall|i: int| 0 <= i < 4096 implies (#[trigger] after[i]).wf() by {
                if i != scan_index(loc@) {
                    assert(before[i].wf());
                }
            }
        }
    }

    /// Computes the light of the chunk at `loc` anew from its blocks and
    /// from its six neighbours as they stand; no other chunk changes.
    pub fn recalculate_chunk_light(&mut self, loc: PointIntLocal)
        requires
            old(self).wf(),
            loc@.inside_region(),
        ensures
            final(self).wf(),
            final(self).chunks().len() == 4096,
            forall|i: int|
                0 <= i < 4096 && i != scan_index(loc@) ==> #[trigger] final(self).chunks()[i] == old(
                    self,
                ).chunks()[i],
            final(self).chunks()[scan_index(loc@)]@.blocks == old(self).chunks()[scan_index(
                loc@,
            )]@.blocks,
            lit_from(
                old(self).chunks()[scan_index(loc@)]@.blocks,
                sky_seeds(
                    old(self).chunks()[scan_index(loc@)]@.blocks,
                    around_at(old(self).chunks(), loc@),
                ),
                final(self).chunks()[scan_index(loc@)]@.light_sky,
                true,
            ),
            lit_from(
                old(self).chunks()[scan_index(loc@)]@.blocks,
                local_seeds(
                    old(self).chunks()[scan_index(loc@)]@.blocks,
                    around_at(old(self).chunks(), loc@),
                ),
                final(self).chunks()[scan_index(loc@)]@.light_local,
                false,
            ),
    {
        let x = loc.x();
        let y = loc.y();
        let z = loc.z();
        let surrounding = SurroundingChunks::new(
            [
                Neighbour::Real(self.get_chunk(PointIntLocal::new(x + 1, y, z))),
                Neighbour::Real(self.get_chunk(PointIntLocal::new(x - 1, y, z))),
                Neighbour::Real(self.get_chunk(PointIntLocal::new(x, y + 1, z))),
                Neighbour::Real(self.get_chunk(PointIntLocal::new(x, y - 1, z))),
                Neighbour::Real(self.get_chunk(PointIntLocal::new(x, y, z + 1))),
                Neighbour::Real(self.get_chunk(PointIntLocal::new(x, y, z - 1))),
            ],
        );
        proof {
            assert(surrounding.chunks =~= around_at(self.chunks(), loc@).chunks);
        }

        let mut updated = self.get_chunk(loc).clone();
        updated.recalculate_light(surrounding);

        self.set_chunk(loc, updated);
    }

    /// The mesh of the whole region, every vertex moved by
    /// `global_offset`: the meshes of the chunks one after another, each at
    /// its place in the region, with the indices of each raised by the
    /// number of vertices before it.
    pub fn get_render_data(&self, global_offset: [i32; 3]) -> (mesh: (
        Vec<PointGlobal>,
        Vec<u8>,
        Vec<u32>,
    ))
        requires
            self.wf(),
        ensures
            mesh_view(mesh.0@, mesh.1@, mesh.2@) == region_mesh_upto(
                self.chunks(),
                offset_pos(global_offset),
                4096,
            ),
            mesh.0@.len() == 4 * region_faces_upto(self.chunks(), 4096),
            mesh.1@.len() == mesh.0@.len(),
            mesh.2@.len() == 6 * region_faces_upto(self.chunks(), 4096),
            forall|m: int| 0 <= m < mesh.2@.len() ==> (#[trigger] mesh.2@[m]) < mesh.0@.len(),
            forall|m: int| 0 <= m < mesh.1@.len() ==> (#[trigger] mesh.1@[m]) <= 15,
    {
        let start = PointGlobal::from_offset(global_offset);
        let mut vertices: Vec<PointGlobal> = Vec::new();
        let mut lights: Vec<u8> = Vec::new();
        let mut indices: Vec<u32> = Vec::new();
        let ghost chunks = self.chunks();

        let items = grid_indexed(&self.chunks);
        let mut place: usize = 0;
        while place < items.len()
            invariant
                place <= 4096,
                self.wf(),
                chunks == self.chunks(),
                items@.len() == 4096,
                forall|i: int|
                    0 <= i < 4096 ==> {
                        let at = (#[trigger] items@[i]).0;
                        &&& *items@[i].1 == chunks[i]
                        &&& at.0 < 16
                        &&& at.1 < 16
                        &&& at.2 < 16
                        &&& (at.0 * 16 + at.1) * 16 + at.2 == i
                    },
                start.holds_cube(256),
                start@ == offset_pos(global_offset),
                forall|m: int| 0 <= m < lights@.len() ==> (#[trigger] lights@[m]) <= 15,
                vertices@.len() == region_mesh_upto(chunks, start@, place as nat).vertices.len(),
                lights@.len() == region_mesh_upto(chunks, start@, place as nat).lights.len(),
                indices@.len() == region_mesh_upto(chunks, start@, place as nat).indices.len(),
                forall|m: int|
                    0 <= m < vertices@.len() ==> (#[trigger] vertices@[m])@ == region_mesh_upto(
                        chunks,
                        start@,
                        place as nat,
                    ).vertices[m],
                forall|m: int|
                    0 <= m < lights@.len() ==> #[trigger] lights@[m] == region_mesh_upto(
                        chunks,
                        start@,
                        place as nat,
                    ).lights[m],
                forall|m: int|
                    0 <= m < indices@.len() ==> (#[trigger] indices@[m]) as int == region_mesh_upto(
                        chunks,
                        start@,
                        place as nat,
                    ).indices[m],
            decreases 4096 - place,
        {
            let (loc, chunk) = items[place];
            proof {
                let at = items@[place as int].0;
                lemma_scan_round_trip(
                    place as int,
                    Pos { x: at.0 as int, y: at.1 as int, z: at.2 as int },
                );
                assert(chunks[place as int].wf());
            }
            let origin = PointGlobal::new(
                start.x() + CHUNK_X_BLOCKS as i64 * (loc.0 as i64),
                start.y() + CHUNK_Y_BLOCKS as i64 * (loc.1 as i64),
                start.z() + CHUNK_Z_BLOCKS as i64 * (loc.2 as i64),
            );
            let ghost before = region_mesh_upto(chunks, start@, place as nat);
            let ghost here = mesh_of(chunk_quads(chunk@), origin@);
            let ghost whole = region_mesh_upto(chunks, start@, (place + 1) as nat);
            proof {
                lemma_region_mesh_consistent(chunks, start@, place as nat);
                lemma_quads_bounded(chunk@, 24576);
                assert(origin@ == start@.plus(chunk_origin(place as int)));
                assert(whole == joined(before, here));
            }
            let (mut chunk_vertices, mut chunk_lights, chunk_indices) = chunk.get_render_data_at(
                origin,
            );
            proof {
                let got = mesh_view(chunk_vertices@, chunk_lights@, chunk_indices@);
                assert(got.vertices.len() == here.vertices.len());
                assert(got.indices.len() == here.indices.len());
                assert forall|m: int| 0 <= m < chunk_vertices@.len() implies (
                #[trigger] chunk_vertices@[m])@ == here.vertices[m] by {
                    assert(got.vertices[m] == here.vertices[m]);
                }
                assert forall|m: int| 0 <= m < chunk_indices@.len() implies (
                #[trigger] chunk_indices@[m]) as int == here.indices[m] by {
                    assert(got.indices[m] == here.indices[m]);
                }
            }
            let base: u32 = vertices.len() as u32;
            vertices.append(&mut chunk_vertices);
            lights.append(&mut chunk_lights);
            let ghost first = indices@.len();
            let mut t: usize = 0;
            while t < chunk_indices.len()
                invariant
                    t <= chunk_indices.len(),
                    place < 4096,
                    first == before.indices.len(),
                    base == before.vertices.len(),
                    base <= 98304 * place,
                    chunk_indices@.len() == here.indices.len(),
                    here == mesh_of(chunk_quads(chunk@), origin@),
                    chunk_quads(chunk@).len() <= 24576,
                    whole == joined(before, here),
                    forall|m: int|
                        0 <= m < chunk_indices@.len() ==> (#[trigger] chunk_indices@[m]) as int
                            == here.indices[m],
                    indices@.len() == first + t,
                    forall|m: int|
                        0 <= m < first + t ==> (#[trigger] indices@[m]) as int == whole.indices[m],
                decreases chunk_indices.len() - t,
            {
                proof {
                    assert(chunk_indices@[t as int] as int == here.indices[t as int]);
                    assert(0 <= (t as int) / 6 < chunk_quads(chunk@).len());
                }
                indices.push(chunk_indices[t] + base);
                t += 1;
            }
            place += 1;
        }
        proof {
            lemma_region_mesh_consistent(chunks, start@, 4096);
            let goal = region_mesh_upto(chunks, start@, 4096);
            let got = mesh_view(vertices@, lights@, indices@);
            assert(got.vertices =~= goal.vertices);
            assert(got.lights =~= goal.lights);
            assert(got.indices =~= goal.indices);
            assert forall|m: int| 0 <= m < indices@.len() implies (#[trigger] indices@[m])
                < vertices@.len() by {
                assert(indices@[m] as int == goal.indices[m]);
            }
        }
        (vertices, lights, indices)
    }
}

impl Default for Region {
    /// A region of fresh chunks.
    fn default() -> (region: Self)
        ensures
            region.wf(),
            forall|i: int| 0 <= i < 4096 ==> (#[trigger] region.chunks()[i])@ == ChunkView::fresh(),
    {
        Self::new()
    }
}

} // verus!
