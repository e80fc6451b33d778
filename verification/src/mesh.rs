//! The geometry of a chunk: one quad for every face of a solid block that
//! light and sight can reach, and the vertex and index lists made of them.

use vstd::prelude::*;
use core::ops::Add;
use crate::chunk::{Chunk, ChunkView};
use crate::consts::CHUNK_TOTAL_BLOCKS;
use crate::grid::{
    adjacent_step, cell_index, lemma_index_round_trip, lemma_scan_round_trip, neighbour,
    scan_index, scan_location, scan_pos,
};
use crate::types::{offset_pos, PointGlobal, PointIntLocal, Pos};

verus! {

/// One face of a block: the block's cell, the number of the face, and the
/// light it is drawn with.
pub struct Quad {
    pub at: Pos,
    pub side: int,
    pub light: u8,
}

/// Vertex positions, one light level per vertex, and the indices of the
/// triangles' corners among the vertices.
pub struct MeshView {
    pub vertices: Seq<Pos>,
    pub lights: Seq<u8>,
    pub indices: Seq<int>,
}

/// Corner number `k` of face number `side` of the unit cube, as a number
/// whose three binary digits are the corner's X, Y and Z.
pub open spec fn corner_code(side: int, k: int) -> int {
    if side == 0 {
        if k == 0 { 0 } else if k == 1 { 4 } else if k == 2 { 6 } else { 2 }
    } else if side == 1 {
        if k == 0 { 1 } else if k == 1 { 0 } else if k == 2 { 2 } else { 3 }
    } else if side == 2 {
        if k == 0 { 5 } else if k == 1 { 1 } else if k == 2 { 3 } else { 7 }
    } else if side == 3 {
        if k == 0 { 4 } else if k == 1 { 5 } else if k == 2 { 7 } else { 6 }
    } else if side == 4 {
        if k == 0 { 1 } else if k == 1 { 5 } else if k == 2 { 4 } else { 0 }
    } else {
        if k == 0 { 2 } else if k == 1 { 6 } else if k == 2 { 7 } else { 3 }
    }
}

/// Corner number `k` of face number `side` of the unit cube.
pub open spec fn corner(side: int, k: int) -> Pos {
    let code = corner_code(side, k);
    Pos { x: code / 4, y: (code / 2) % 2, z: code % 2 }
}

/// The corner of a quad that corner number `t` of its two triangles uses.
pub open spec fn triangle_corner(t: int) -> int {
    if t == 0 {
        0
    } else if t == 1 {
        1
    } else if t == 2 {
        2
    } else if t == 3 {
        0
    } else if t == 4 {
        2
    } else {
        3
    }
}

/// Whether the block at `p` shows its face number `side`: the block is
/// solid, and the cell that the face looks at is outside the chunk or lets
/// sight through.
pub open spec fn shows(c: ChunkView, p: Pos, side: int) -> bool {
    let q = p.plus(adjacent_step(side));
    !c.blocks[cell_index(p)].transparent() && (!q.in_chunk()
        || c.blocks[cell_index(q)].transparent())
}

/// The light of the face number `side` of the block at `p`: the stronger
/// of the sky light and the local light of the cell that the face looks
/// at, and nothing where that cell is outside the chunk.
pub open spec fn face_light(c: ChunkView, p: Pos, side: int) -> u8 {
    let q = p.plus(adjacent_step(side));
    if q.in_chunk() {
        if c.light_sky[cell_index(q)] >= c.light_local[cell_index(q)] {
            c.light_sky[cell_index(q)]
        } else {
            c.light_local[cell_index(q)]
        }
    } else {
        0
    }
}

/// The quads of the first `slots` faces of the chunk, counted cell by cell
/// with X outermost and Z innermost and, within a cell, face by face.
pub open spec fn quads_upto(c: ChunkView, slots: nat) -> Seq<Quad>
    decreases slots,
{
    if slots == 0 {
        Seq::empty()
    } else {
        let before = quads_upto(c, (slots - 1) as nat);
        let p = scan_pos((slots - 1) / 6);
        let side = (slots - 1) % 6;
        if shows(c, p, side) {
            before.push(Quad { at: p, side, light: face_light(c, p, side) })
        } else {
            before
        }
    }
}

/// All the quads of the chunk.
pub open spec fn chunk_quads(c: ChunkView) -> Seq<Quad> {
    quads_upto(c, 24576)
}

/// The four corners and the light of `face` are those of `quad`, in chunk
/// coordinates.
pub open spec fn depicts(face: ([PointIntLocal; 4], u8), quad: Quad) -> bool {
    &&& face.1 == quad.light
    &&& face.0[0]@ == quad.at.plus(corner(quad.side, 0))
    &&& face.0[1]@ == quad.at.plus(corner(quad.side, 1))
    &&& face.0[2]@ == quad.at.plus(corner(quad.side, 2))
    &&& face.0[3]@ == quad.at.plus(corner(quad.side, 3))
}

/// The mesh of `quads` with every vertex moved by `offset`: four vertices
/// and four equal light levels per quad, and six indices for its two
/// triangles.
pub open spec fn mesh_of(quads: Seq<Quad>, offset: Pos) -> MeshView {
    MeshView {
        vertices: Seq::new(
            4 * quads.len(),
            |m: int| quads[m / 4].at.plus(corner(quads[m / 4].side, m % 4)).plus(offset),
        ),
        lights: Seq::new(4 * quads.len(), |m: int| quads[m / 4].light),
        indices: Seq::new(6 * quads.len(), |m: int| 4 * (m / 6) + triangle_corner(m % 6)),
    }
}

/// What three lists of a mesh hold.
pub open spec fn mesh_view(vertices: Seq<PointGlobal>, lights: Seq<u8>, indices: Seq<u32>) -> MeshView {
    MeshView {
        vertices: Seq::new(vertices.len(), |m: int| vertices[m]@),
        lights,
        indices: Seq::new(indices.len(), |m: int| indices[m] as int),
    }
}

/// Among the first `slots` faces there are at most `slots` quads, each of
/// a cell of the chunk and with a face number below six.
pub proof fn lemma_quads_bounded(c: ChunkView, slots: nat)
    requires
        slots <= 24576,
    ensures
        quads_upto(c, slots).len() <= slots,
        forall|j: int|
            0 <= j < quads_upto(c, slots).len() ==> (#[trigger] quads_upto(c, slots)[j]).at.in_chunk()
                && 0 <= quads_upto(c, slots)[j].side < 6,
    decreases slots,
{
    if slots > 0 {
        lemma_quads_bounded(c, (slots - 1) as nat);
    }
}

/// The light of every quad is a light level: where no cell of the chunk
/// holds more than the brightest level, no quad does.
pub proof fn lemma_quads_in_light_range(c: ChunkView, slots: nat)
    requires
        slots <= 24576,
        c.wf(),
        c.in_light_range(),
    ensures
        forall|j: int|
            0 <= j < quads_upto(c, slots).len() ==> (#[trigger] quads_upto(c, slots)[j]).light
                <= 15,
    decreases slots,
{
    if slots > 0 {
        lemma_quads_in_light_range(c, (slots - 1) as nat);
        let before = quads_upto(c, (slots - 1) as nat);
        let now = quads_upto(c, slots);
        let p = scan_pos((slots - 1) / 6);
        let q = p.plus(adjacent_step((slots - 1) % 6));
        if q.in_chunk() {
            lemma_index_round_trip(0, q);
            assert(c.light_sky[cell_index(q)] <= 15);
            assert(c.light_local[cell_index(q)] <= 15);
        }
        assert forall|j: int| 0 <= j < now.len() implies (#[trigger] now[j]).light <= 15 by {
            if j < before.len() {
                assert(now[j] == before[j]);
            }
        }
    }
}

/// No hidden face is drawn: every quad belongs to a solid block, and the
/// cell that it looks at is outside the chunk or lets sight through. So
/// the face that two solid blocks of a chunk share appears from neither
/// side.
pub proof fn lemma_hidden_faces_left_out(c: ChunkView, slots: nat)
    requires
        slots <= 24576,
    ensures
        forall|j: int|
            0 <= j < quads_upto(c, slots).len() ==> shows(
                c,
                (#[trigger] quads_upto(c, slots)[j]).at,
                quads_upto(c, slots)[j].side,
            ),
    decreases slots,
{
    if slots > 0 {
        lemma_hidden_faces_left_out(c, (slots - 1) as nat);
        let before = quads_upto(c, (slots - 1) as nat);
        let now = quads_upto(c, slots);
        assert forall|j: int| 0 <= j < now.len() implies shows(c, (#[trigger] now[j]).at, now[j].side) by {
            if j < before.len() {
                assert(now[j] == before[j]);
            }
        }
    }
}

/// A chunk without a solid block has no quads.
pub proof fn lemma_no_solid_no_quads(c: ChunkView, slots: nat)
    requires
        slots <= 24576,
        forall|i: int| 0 <= i < 4096 ==> (#[trigger] c.blocks[i]).transparent(),
    ensures
        quads_upto(c, slots).len() == 0,
    decreases slots,
{
    if slots > 0 {
        lemma_no_solid_no_quads(c, (slots - 1) as nat);
        let p = scan_pos((slots - 1) / 6);
        assert(c.blocks[cell_index(p)].transparent());
    }
}

/// The first `count` faces of the block at `s`, each with its light.
pub open spec fn faces_of_block(c: ChunkView, s: Pos, count: nat) -> Seq<Quad> {
    Seq::new(count, |j: int| Quad { at: s, side: j, light: face_light(c, s, j) })
}

/// How many of the first `slots` faces of the chunk belong to the cell
/// whose turn in the scan is `k`.
pub open spec fn slots_of_cell(k: int, slots: nat) -> nat {
    if slots <= 6 * k {
        0
    } else if slots >= 6 * k + 6 {
        6
    } else {
        (slots - 6 * k) as nat
    }
}

/// Where the block at `s` is the only solid block of the chunk, the quads
/// among the first `slots` faces are the faces of that block among them.
proof fn lemma_lone_block_upto(c: ChunkView, s: Pos, slots: nat)
    requires
        slots <= 24576,
        s.in_chunk(),
        !c.blocks[cell_index(s)].transparent(),
        forall|i: int|
            0 <= i < 4096 && i != cell_index(s) ==> (#[trigger] c.blocks[i]).transparent(),
    ensures
        quads_upto(c, slots) == faces_of_block(c, s, slots_of_cell(scan_index(s), slots)),
    decreases slots,
{
    let k = scan_index(s);
    if slots == 0 {
        assert(quads_upto(c, slots) =~= faces_of_block(c, s, 0));
    } else {
        lemma_lone_block_upto(c, s, (slots - 1) as nat);
        let slot = slots - 1;
        let p = scan_pos(slot / 6);
        let side = slot % 6;
        lemma_scan_round_trip(slot / 6, s);
        lemma_index_round_trip(0, s);
        lemma_index_round_trip(0, p);
        if slot / 6 == k {
            let q = s.plus(adjacent_step(side));
            if q.in_chunk() {
                lemma_index_round_trip(0, q);
                assert(c.blocks[cell_index(q)].transparent());
            }
            assert(shows(c, p, side));
            assert(slots_of_cell(k, slots) == side + 1);
            assert(quads_upto(c, slots) =~= faces_of_block(c, s, (side + 1) as nat));
        } else {
            assert(c.blocks[cell_index(p)].transparent());
            assert(slots_of_cell(k, slots) == slots_of_cell(k, (slots - 1) as nat));
        }
    }
}

/// A solid block that is the only one of its chunk shows all six faces:
/// the chunk has six quads, the faces of that block in their order, each
/// with the light of the cell it looks at.
pub proof fn lemma_lone_block_shows_six_faces(c: ChunkView, s: Pos)
    requires
        s.in_chunk(),
        !c.blocks[cell_index(s)].transparent(),
        forall|i: int|
            0 <= i < 4096 && i != cell_index(s) ==> (#[trigger] c.blocks[i]).transparent(),
    ensures
        chunk_quads(c) == faces_of_block(c, s, 6),
        chunk_quads(c).len() == 6,
{
    lemma_lone_block_upto(c, s, 24576);
}

/// Corner number `k` of face number `side` of the unit cube.
fn block_face_corner(side: usize, k: usize) -> (at: PointIntLocal)
    requires
        side < 6,
        k < 4,
    ensures
        at@ == corner(side as int, k as int),
{
    let code: isize = if side == 0 {
        if k == 0 { 0 } else if k == 1 { 4 } else if k == 2 { 6 } else { 2 }
    } else if side == 1 {
        if k == 0 { 1 } else if k == 1 { 0 } else if k == 2 { 2 } else { 3 }
    } else if side == 2 {
        if k == 0 { 5 } else if k == 1 { 1 } else if k == 2 { 3 } else { 7 }
    } else if side == 3 {
        if k == 0 { 4 } else if k == 1 { 5 } else if k == 2 { 7 } else { 6 }
    } else if side == 4 {
        if k == 0 { 1 } else if k == 1 { 5 } else if k == 2 { 4 } else { 0 }
    } else {
        if k == 0 { 2 } else if k == 1 { 6 } else if k == 2 { 7 } else { 3 }
    };
    PointIntLocal::new(code / 4, (code / 2) % 2, code % 2)
}

/// The four corners of face number `side` of the block at `loc`.
fn block_face(loc: PointIntLocal, side: usize) -> (corners: [PointIntLocal; 4])
    requires
        loc@.in_chunk(),
        side < 6,
    ensures
        corners[0]@ == loc@.plus(corner(side as int, 0)),
        corners[1]@ == loc@.plus(corner(side as int, 1)),
        corners[2]@ == loc@.plus(corner(side as int, 2)),
        corners[3]@ == loc@.plus(corner(side as int, 3)),
{
    [
        loc.add(&block_face_corner(side, 0)),
        loc.add(&block_face_corner(side, 1)),
        loc.add(&block_face_corner(side, 2)),
        loc.add(&block_face_corner(side, 3)),
    ]
}

impl Chunk {
    /// The faces of the chunk's solid blocks that are not hidden by a solid
    /// block of the same chunk, each with its four corners in chunk
    /// coordinates and its light.
    pub fn assemble_faces_with_light(&self) -> (faces: Vec<([PointIntLocal; 4], u8)>)
        requires
            self.wf(),
        ensures
            faces@.len() == chunk_quads(self@).len(),
            forall|j: int|
                0 <= j < faces@.len() ==> depicts(#[trigger] faces@[j], chunk_quads(self@)[j]),
            forall|j: int| 0 <= j < faces@.len() ==> (#[trigger] faces@[j]).1 <= 15,
    {
        proof {
            lemma_quads_in_light_range(self@, 24576);
        }
        let mut faces = Vec::<([PointIntLocal; 4], u8)>::new();
        let mut place: usize = 0;
        while place < CHUNK_TOTAL_BLOCKS
            invariant
                place <= 4096,
                self.wf(),
                faces@.len() == quads_upto(self@, (place * 6) as nat).len(),
                forall|j: int|
                    0 <= j < faces@.len() ==> depicts(
                        #[trigger] faces@[j],
                        quads_upto(self@, (place * 6) as nat)[j],
                    ),
            decreases 4096 - place,
        {
            let loc = scan_location(place);
            let block = self.get_block(loc);
            let solid = !block.is_transparent();
            let mut side: usize = 0;
            while side < 6
                invariant
                    side <= 6,
                    place < 4096,
                    self.wf(),
                    loc@ == scan_pos(place as int),
                    loc@.in_chunk(),
                    solid == !self@.blocks[cell_index(loc@)].transparent(),
                    faces@.len() == quads_upto(self@, (place * 6 + side) as nat).len(),
                    forall|j: int|
                        0 <= j < faces@.len() ==> depicts(
                            #[trigger] faces@[j],
                            quads_upto(self@, (place * 6 + side) as nat)[j],
                        ),
                decreases 6 - side,
            {
                let loc2 = neighbour(loc, side);
                let mut shown = false;
                let mut light: u8 = 0;
                if solid {
                    if loc2.is_in_chunk() {
                        if self.get_block(loc2).is_transparent() {
                            let local = self.get_light_local(loc2);
                            let sky = self.get_light_sky(loc2);
                            light = if sky >= local { sky } else { local };
                            shown = true;
                        }
                    } else {
                        shown = true;
                    }
                }
                proof {
                    let slot = (place * 6 + side) as int;
                    assert(slot / 6 == place as int && slot % 6 == side as int);
                    assert(shown == shows(self@, loc@, side as int));
                }
                if shown {
                    faces.push((block_face(loc, side), light));
                }
                side += 1;
            }
            place += 1;
        }
        faces
    }

    /// The mesh of the chunk, every vertex moved by `global_offset`: the
    /// vertex positions, one light level per vertex, and the indices of
    /// the triangles' corners.
    pub fn get_render_data(&self, global_offset: [i32; 3]) -> (mesh: (
        Vec<PointGlobal>,
        Vec<u8>,
        Vec<u32>,
    ))
        requires
            self.wf(),
        ensures
            mesh_view(mesh.0@, mesh.1@, mesh.2@) == mesh_of(
                chunk_quads(self@),
                offset_pos(global_offset),
            ),
            forall|m: int| 0 <= m < mesh.1@.len() ==> (#[trigger] mesh.1@[m]) <= 15,
    {
        self.get_render_data_at(PointGlobal::from_offset(global_offset))
    }

    /// The mesh of the chunk with its origin at `global_offset`, a
    /// position from which a chunk stays within the range of the
    /// coordinates.
    pub fn get_render_data_at(&self, global_offset: PointGlobal) -> (mesh: (
        Vec<PointGlobal>,
        Vec<u8>,
        Vec<u32>,
    ))
        requires
            self.wf(),
            global_offset.holds_cube(16),
        ensures
            mesh_view(mesh.0@, mesh.1@, mesh.2@) == mesh_of(chunk_quads(self@), global_offset@),
            forall|m: int| 0 <= m < mesh.1@.len() ==> (#[trigger] mesh.1@[m]) <= 15,
    {
        let faces = self.assemble_faces_with_light();
        let ghost quads = chunk_quads(self@);
        let ghost goal = mesh_of(quads, global_offset@);
        proof {
            lemma_quads_bounded(self@, 24576);
        }

        // Vertices
        let mut vs: Vec<PointGlobal> = Vec::new();
        // Light levels
        let mut ls: Vec<u8> = Vec::new();
        // Indices
        let mut is: Vec<u32> = Vec::new();

        let mut j: usize = 0;
        while j < faces.len()
            invariant
                j <= faces.len(),
                faces@.len() == quads.len(),
                quads.len() <= 24576,
                global_offset.holds_cube(16),
                goal == mesh_of(quads, global_offset@),
                forall|n: int|
                    0 <= n < quads.len() ==> (#[trigger] quads[n]).at.in_chunk() && 0
                        <= quads[n].side < 6,
                forall|n: int| 0 <= n < faces@.len() ==> depicts(#[trigger] faces@[n], quads[n]),
                forall|n: int| 0 <= n < faces@.len() ==> (#[trigger] faces@[n]).1 <= 15,
                forall|m: int| 0 <= m < ls@.len() ==> (#[trigger] ls@[m]) <= 15,
                vs@.len() == 4 * j,
                ls@.len() == 4 * j,
                is@.len() == 6 * j,
                forall|m: int| 0 <= m < 4 * j ==> (#[trigger] vs@[m])@ == goal.vertices[m],
                forall|m: int| 0 <= m < 4 * j ==> #[trigger] ls@[m] == goal.lights[m],
                forall|m: int| 0 <= m < 6 * j ==> (#[trigger] is@[m]) as int == goal.indices[m],
            decreases faces.len() - j,
        {
            let i: u32 = vs.len() as u32;
            let face = &faces[j];
            proof {
                assert(depicts(faces@[j as int], quads[j as int]));
                assert(quads[j as int].at.in_chunk());
            }
            // Four vertices
            vs.push(global_offset.moved(&face.0[0], 16));
            vs.push(global_offset.moved(&face.0[1], 16));
            vs.push(global_offset.moved(&face.0[2], 16));
            vs.push(global_offset.moved(&face.0[3], 16));
            let light = face.1;
            ls.push(light);
            ls.push(light);
            ls.push(light);
            ls.push(light);
            // Two triangles
            is.push(i);
            is.push(i + 1);
            is.push(i + 2);
            is.push(i);
            is.push(i + 2);
            is.push(i + 3);
            j += 1;
        }
        proof {
            let got = mesh_view(vs@, ls@, is@);
            assert(got.vertices =~= goal.vertices);
            assert(got.lights =~= goal.lights);
            assert(got.indices =~= goal.indices);
        }
        (vs, ls, is)
    }
}

} // verus!
