//! Integer coordinates: positions inside a chunk, and positions in the
//! world.

use vstd::prelude::*;
use vstd::arithmetic::div_mod::lemma_fundamental_div_mod_converse;
use vstd::std_specs::convert::FromSpecImpl;
use vstd::std_specs::ops::AddSpecImpl;
use crate::consts::{CHUNK_X_BLOCKS, CHUNK_Y_BLOCKS, CHUNK_Z_BLOCKS};

verus! {

/// A position as three mathematical integers.
pub struct Pos {
    pub x: int,
    pub y: int,
    pub z: int,
}

impl Pos {
    /// All three coordinates lie in `[0, 16)`.
    pub open spec fn in_chunk(self) -> bool {
        &&& 0 <= self.x < 16
        &&& 0 <= self.y < 16
        &&& 0 <= self.z < 16
    }

    /// All three coordinates lie in `[0, 16)`: the position names a chunk
    /// of a region.
    pub open spec fn in_region(self) -> bool {
        &&& 0 <= self.x < 16
        &&& 0 <= self.y < 16
        &&& 0 <= self.z < 16
    }

    /// All three coordinates lie in `[1, 15)`: the position names a chunk
    /// of a region that has a neighbour on each of its six sides.
    pub open spec fn inside_region(self) -> bool {
        &&& 1 <= self.x < 15
        &&& 1 <= self.y < 15
        &&& 1 <= self.z < 15
    }

    /// Some coordinate is `0` or `15`.
    pub open spec fn on_chunk_face(self) -> bool {
        ||| self.x == 0
        ||| self.x == 15
        ||| self.y == 0
        ||| self.y == 15
        ||| self.z == 0
        ||| self.z == 15
    }

    /// The position moved by `by`, coordinate by coordinate.
    pub open spec fn plus(self, by: Pos) -> Pos {
        Pos { x: self.x + by.x, y: self.y + by.y, z: self.z + by.z }
    }

    /// The same position seen from the chunk it falls in: each coordinate
    /// taken modulo the chunk's edge.
    pub open spec fn wrapped(self) -> Pos {
        Pos { x: self.x % 16, y: self.y % 16, z: self.z % 16 }
    }
}

/// A position relative to a chunk's own origin. A cell of the chunk has
/// all three coordinates in `[0, 16)`; a position one step outside names a
/// cell of a neighbour.
#[derive(Clone, Copy, Debug, PartialEq, Eq, Hash)]
pub struct PointIntLocal(pub [isize; 3]);

impl View for PointIntLocal {
    type V = Pos;

    open spec fn view(&self) -> Pos {
        Pos { x: self.0[0] as int, y: self.0[1] as int, z: self.0[2] as int }
    }
}

/// The position that an offset in whole blocks names.
pub open spec fn offset_pos(offset: [i32; 3]) -> Pos {
    Pos { x: offset[0] as int, y: offset[1] as int, z: offset[2] as int }
}

/// An absolute position in the world, in whole blocks.
#[derive(Clone, Copy, Debug, PartialEq, Eq, Hash)]
pub struct PointGlobal(pub [i64; 3]);

impl View for PointGlobal {
    type V = Pos;

    open spec fn view(&self) -> Pos {
        Pos { x: self.0[0] as int, y: self.0[1] as int, z: self.0[2] as int }
    }
}

impl PointGlobal {
    pub fn new(x: i64, y: i64, z: i64) -> (point: Self)
        ensures
            point@ == (Pos { x: x as int, y: y as int, z: z as int }),
    {
        Self([x, y, z])
    }

    pub fn x(&self) -> (x: i64)
        ensures
            x == self@.x,
    {
        self.0[0]
    }

    pub fn y(&self) -> (y: i64)
        ensures
            y == self@.y,
    {
        self.0[1]
    }

    pub fn z(&self) -> (z: i64)
        ensures
            z == self@.z,
    {
        self.0[2]
    }

    /// The position that `offset` names. A whole region that starts there
    /// stays within the range of the coordinates.
    pub fn from_offset(offset: [i32; 3]) -> (point: Self)
        ensures
            point@ == offset_pos(offset),
            point.holds_cube(256),
    {
        Self([offset[0] as i64, offset[1] as i64, offset[2] as i64])
    }

    /// Whether a cube of `edge` blocks that starts here stays within the
    /// range of the coordinates.
    pub open spec fn holds_cube(&self, edge: int) -> bool {
        &&& self@.x + edge <= i64::MAX
        &&& self@.y + edge <= i64::MAX
        &&& self@.z + edge <= i64::MAX
    }

    /// This position moved by `by`, which lies within a cube of `edge`
    /// blocks.
    pub fn moved(&self, by: &PointIntLocal, edge: i64) -> (point: Self)
        requires
            self.holds_cube(edge as int),
            0 <= by@.x <= edge,
            0 <= by@.y <= edge,
            0 <= by@.z <= edge,
        ensures
            point@ == self@.plus(by@),
    {
        Self([self.0[0] + by.0[0] as i64, self.0[1] + by.0[1] as i64, self.0[2] + by.0[2] as i64])
    }
}

impl PointIntLocal {
    pub fn new(x: isize, y: isize, z: isize) -> (point: Self)
        ensures
            point@ == (Pos { x: x as int, y: y as int, z: z as int }),
    {
        Self([x, y, z])
    }

    pub fn x(&self) -> (x: isize)
        ensures
            x == self@.x,
    {
        self.0[0]
    }

    pub fn y(&self) -> (y: isize)
        ensures
            y == self@.y,
    {
        self.0[1]
    }

    pub fn z(&self) -> (z: isize)
        ensures
            z == self@.z,
    {
        self.0[2]
    }

    pub fn ux(&self) -> (x: usize)
        requires
            self@.x >= 0,
        ensures
            x == self@.x,
    {
        self.0[0] as usize
    }

    pub fn uy(&self) -> (y: usize)
        requires
            self@.y >= 0,
        ensures
            y == self@.y,
    {
        self.0[1] as usize
    }

    pub fn uz(&self) -> (z: usize)
        requires
            self@.z >= 0,
        ensures
            z == self@.z,
    {
        self.0[2] as usize
    }

    pub fn is_on_chunk_face(&self) -> (on_face: bool)
        ensures
            on_face == self@.on_chunk_face(),
    {
        self.x() == 0 || self.x() == CHUNK_X_BLOCKS as isize - 1 || self.y() == 0 || self.y()
            == CHUNK_Y_BLOCKS as isize - 1 || self.z() == 0 || self.z() == CHUNK_Z_BLOCKS as isize
            - 1
    }

    pub fn is_in_chunk(&self) -> (inside: bool)
        ensures
            inside == self@.in_chunk(),
    {
        self.x() >= 0 && self.x() < CHUNK_X_BLOCKS as isize && self.y() >= 0 && self.y()
            < CHUNK_Y_BLOCKS as isize && self.z() >= 0 && self.z() < CHUNK_Z_BLOCKS as isize
    }
    /// The same position in the coordinates of the chunk that it falls in.
    /// A position one step outside this chunk lands on the facing side of
    /// the neighbour.
    pub fn localize(&self) -> (local: Self)
        ensures
            local@ == self@.wrapped(),
            local@.in_chunk(),
    {
        Self([wrap_coordinate(self.0[0]), wrap_coordinate(self.0[1]), wrap_coordinate(self.0[2])])
    }
}

/// One coordinate taken modulo the chunk's edge.
fn wrap_coordinate(c: isize) -> (wrapped: isize)
    ensures
        wrapped == c % 16,
        0 <= wrapped < 16,
{
    if c >= 0 {
        let m: usize = (c as usize) % 16;
        m as isize
    } else {
        let k: usize = (-(c + 1)) as usize;
        let m: usize = k % 16;
        proof {
            let q = -((k / 16) as int) - 1;
            assert(c as int == q * 16 + (15 - m));
            lemma_fundamental_div_mod_converse(c as int, 16, q, 15 - m);
        }
        15 - (m as isize)
    }
}

impl From<[usize; 3]> for PointIntLocal {
    fn from(arr: [usize; 3]) -> (point: Self) {
        Self(
            [
                #[verifier::truncate]
                (arr[0] as isize),
                #[verifier::truncate]
                (arr[1] as isize),
                #[verifier::truncate]
                (arr[2] as isize),
            ],
        )
    }
}

impl FromSpecImpl<[usize; 3]> for PointIntLocal {
    open spec fn obeys_from_spec() -> bool {
        true
    }

    open spec fn from_spec(arr: [usize; 3]) -> Self {
        PointIntLocal([arr[0] as isize, arr[1] as isize, arr[2] as isize])
    }
}

impl From<[isize; 3]> for PointIntLocal {
    fn from(arr: [isize; 3]) -> (point: Self) {
        Self(arr)
    }
}

impl FromSpecImpl<[isize; 3]> for PointIntLocal {
    open spec fn obeys_from_spec() -> bool {
        true
    }

    open spec fn from_spec(arr: [isize; 3]) -> Self {
        PointIntLocal(arr)
    }
}

impl core::ops::Add<&PointIntLocal> for PointIntLocal {
    type Output = PointIntLocal;

    fn add(self, rhs: &PointIntLocal) -> (sum: PointIntLocal) {
        PointIntLocal([self.0[0] + rhs.0[0], self.0[1] + rhs.0[1], self.0[2] + rhs.0[2]])
    }
}

impl AddSpecImpl<&PointIntLocal> for PointIntLocal {
    open spec fn obeys_add_spec() -> bool {
        true
    }

    /// No coordinate of the sum leaves the range of `isize`.
    open spec fn add_req(self, rhs: &PointIntLocal) -> bool {
        &&& isize::MIN <= self.0[0] + rhs.0[0] <= isize::MAX
        &&& isize::MIN <= self.0[1] + rhs.0[1] <= isize::MAX
        &&& isize::MIN <= self.0[2] + rhs.0[2] <= isize::MAX
    }

    open spec fn add_spec(self, rhs: &PointIntLocal) -> PointIntLocal {
        PointIntLocal(
            [
                (self.0[0] + rhs.0[0]) as isize,
                (self.0[1] + rhs.0[1]) as isize,
                (self.0[2] + rhs.0[2]) as isize,
            ],
        )
    }
}

} // verus!
