//! The six faces of a block and the cuboid elements of a model.

use vstd::prelude::*;
use bevy::platform::collections::HashMap;
use crate::assets::models::face::{Face, FaceAble};
use crate::assets::textures::texture::Texture;
use crate::table::{face_table, face_table_clone, face_table_get};

verus! {

/// The side length of a block, in the units of a model.
pub const DEFAULT_ELEMENT_SIZE_I8: i8 = 16;

/// A face of a block, named by the direction it looks in.
#[derive(Clone, Copy, Debug, PartialEq, Eq, Hash, Structural)]
pub enum BlockFace {
    /// -Y
    Down,
    /// +Y
    Up,
    /// -Z
    North,
    /// +Z
    South,
    /// -X
    West,
    /// +X
    East,
}

/// An axis of the block's coordinate system.
#[derive(Clone, Copy, Debug, PartialEq, Eq, Hash, Structural)]
pub enum Axis {
    X,
    Y,
    Z,
}

/// Every coordinate of `p` lies inside a block, from 0 to 16.
pub open spec fn in_block(p: [i8; 3]) -> bool {
    &&& 0 <= p[0] <= 16
    &&& 0 <= p[1] <= 16
    &&& 0 <= p[2] <= 16
}

impl BlockFace {
    /// The six faces in the order in which an element's faces are drawn:
    /// the face at place `i`.
    pub open spec fn nth(i: int) -> BlockFace {
        if i == 0 {
            BlockFace::Down
        } else if i == 1 {
            BlockFace::Up
        } else if i == 2 {
            BlockFace::North
        } else if i == 3 {
            BlockFace::South
        } else if i == 4 {
            BlockFace::West
        } else {
            BlockFace::East
        }
    }

    /// The place of the face in the order in which an element's faces are
    /// drawn.
    pub open spec fn place(self) -> int {
        match self {
            BlockFace::Down => 0,
            BlockFace::Up => 1,
            BlockFace::North => 2,
            BlockFace::South => 3,
            BlockFace::West => 4,
            BlockFace::East => 5,
        }
    }

    /// The six faces in the order in which an element's faces are drawn.
    pub fn all() -> (r: [BlockFace; 6])
        ensures
            forall|i: int| 0 <= i < 6 ==> #[trigger] r[i] == BlockFace::nth(i),
    {
        [
            BlockFace::Down,
            BlockFace::Up,
            BlockFace::North,
            BlockFace::South,
            BlockFace::West,
            BlockFace::East,
        ]
    }

    /// The outward unit normal of the face.
    pub open spec fn normal_of(self) -> [i8; 3] {
        match self {
            BlockFace::Down => [0i8, -1i8, 0i8],
            BlockFace::Up => [0i8, 1i8, 0i8],
            BlockFace::North => [0i8, 0i8, -1i8],
            BlockFace::South => [0i8, 0i8, 1i8],
            BlockFace::West => [-1i8, 0i8, 0i8],
            BlockFace::East => [1i8, 0i8, 0i8],
        }
    }

    /// The outward unit normal of the face.
    pub fn normal(&self) -> (r: [i8; 3])
        ensures
            r == self.normal_of(),
    {
        match self {
            BlockFace::Down => [0, -1, 0],
            BlockFace::Up => [0, 1, 0],
            BlockFace::North => [0, 0, -1],
            BlockFace::South => [0, 0, 1],
            BlockFace::West => [-1, 0, 0],
            BlockFace::East => [1, 0, 0],
        }
    }

    /// The four corners of the face on the box from `min` to `max`, in the
    /// order in which the face is drawn.
    pub open spec fn vertex_of(self, min: [i64; 3], max: [i64; 3]) -> [[i64; 3]; 4] {
        match self {
            BlockFace::Down => [
                [min[0], min[1], min[2]],
                [max[0], min[1], min[2]],
                [max[0], min[1], max[2]],
                [min[0], min[1], max[2]],
            ],
            BlockFace::Up => [
                [min[0], max[1], min[2]],
                [max[0], max[1], min[2]],
                [max[0], max[1], max[2]],
                [min[0], max[1], max[2]],
            ],
            BlockFace::North => [
                [max[0], max[1], min[2]],
                [min[0], max[1], min[2]],
                [min[0], min[1], min[2]],
                [max[0], min[1], min[2]],
            ],
            BlockFace::South => [
                [min[0], max[1], max[2]],
                [max[0], max[1], max[2]],
                [max[0], min[1], max[2]],
                [min[0], min[1], max[2]],
            ],
            BlockFace::West => [
                [min[0], max[1], min[2]],
                [min[0], max[1], max[2]],
                [min[0], min[1], max[2]],
                [min[0], min[1], min[2]],
            ],
            BlockFace::East => [
                [max[0], max[1], max[2]],
                [max[0], max[1], min[2]],
                [max[0], min[1], min[2]],
                [max[0], min[1], max[2]],
            ],
        }
    }

    /// The four corners of the face on the box from `min` to `max`, in the
    /// order in which the face is drawn.
    pub fn vertex(&self, min: [i64; 3], max: [i64; 3]) -> (r: [[i64; 3]; 4])
        ensures
            r == self.vertex_of(min, max),
    {
        match self {
            BlockFace::Down => [
                [min[0], min[1], min[2]],
                [max[0], min[1], min[2]],
                [max[0], min[1], max[2]],
                [min[0], min[1], max[2]],
            ],
            BlockFace::Up => [
                [min[0], max[1], min[2]],
                [max[0], max[1], min[2]],
                [max[0], max[1], max[2]],
                [min[0], max[1], max[2]],
            ],
            BlockFace::North => [
                [max[0], max[1], min[2]],
                [min[0], max[1], min[2]],
                [min[0], min[1], min[2]],
                [max[0], min[1], min[2]],
            ],
            BlockFace::South => [
                [min[0], max[1], max[2]],
                [max[0], max[1], max[2]],
                [max[0], min[1], max[2]],
                [min[0], min[1], max[2]],
            ],
            BlockFace::West => [
                [min[0], max[1], min[2]],
                [min[0], max[1], max[2]],
                [min[0], min[1], max[2]],
                [min[0], min[1], min[2]],
            ],
            BlockFace::East => [
                [max[0], max[1], max[2]],
                [max[0], max[1], min[2]],
                [max[0], min[1], min[2]],
                [max[0], min[1], max[2]],
            ],
        }
    }

    /// The texture rectangle `[u1, v1, u2, v2]` of a face that names none:
    /// the box from `min` to `max` projected onto the face's plane, read the
    /// way textures are drawn.
    pub open spec fn uv_of(self, min: [i8; 3], max: [i8; 3]) -> [i8; 4] {
        match self {
            BlockFace::Down => [min[0], (16 - max[2]) as i8, max[0], (16 - min[2]) as i8],
            BlockFace::Up => [min[0], min[2], max[0], max[2]],
            BlockFace::North => [
                (16 - max[0]) as i8,
                (16 - max[1]) as i8,
                (16 - min[0]) as i8,
                (16 - min[1]) as i8,
            ],
            BlockFace::South => [min[0], (16 - max[1]) as i8, max[0], (16 - min[1]) as i8],
            BlockFace::West => [min[2], (16 - max[1]) as i8, max[2], (16 - min[1]) as i8],
            BlockFace::East => [
                (16 - max[2]) as i8,
                (16 - max[1]) as i8,
                (16 - min[2]) as i8,
                (16 - min[1]) as i8,
            ],
        }
    }

    /// The texture rectangle `[u1, v1, u2, v2]` of a face that names none.
    pub fn uv(&self, min: [i8; 3], max: [i8; 3]) -> (r: [i8; 4])
        requires
            in_block(min),
            in_block(max),
        ensures
            r == self.uv_of(min, max),
    {
        match self {
            BlockFace::Down => [
                min[0],
                DEFAULT_ELEMENT_SIZE_I8 - max[2],
                max[0],
                DEFAULT_ELEMENT_SIZE_I8 - min[2],
            ],
            BlockFace::Up => [min[0], min[2], max[0], max[2]],
            BlockFace::North => [
                DEFAULT_ELEMENT_SIZE_I8 - max[0],
                DEFAULT_ELEMENT_SIZE_I8 - max[1],
                DEFAULT_ELEMENT_SIZE_I8 - min[0],
                DEFAULT_ELEMENT_SIZE_I8 - min[1],
            ],
            BlockFace::South => [
                min[0],
                DEFAULT_ELEMENT_SIZE_I8 - max[1],
                max[0],
                DEFAULT_ELEMENT_SIZE_I8 - min[1],
            ],
            BlockFace::West => [
                min[2],
                DEFAULT_ELEMENT_SIZE_I8 - max[1],
                max[2],
                DEFAULT_ELEMENT_SIZE_I8 - min[1],
            ],
            BlockFace::East => [
                DEFAULT_ELEMENT_SIZE_I8 - max[2],
                DEFAULT_ELEMENT_SIZE_I8 - max[1],
                DEFAULT_ELEMENT_SIZE_I8 - min[2],
                DEFAULT_ELEMENT_SIZE_I8 - min[1],
            ],
        }
    }

    /// The two triangles of the face's quad, as indices into a vertex list
    /// in which the quad's four corners start at `offset`. `Down` is cut
    /// along the other diagonal than the five other faces.
    pub open spec fn indice_of(self, offset: int) -> Seq<int> {
        match self {
            BlockFace::Down => seq![
                offset,
                offset + 1,
                offset + 3,
                offset + 1,
                offset + 2,
                offset + 3,
            ],
            _ => seq![offset, offset + 3, offset + 1, offset + 1, offset + 3, offset + 2],
        }
    }

    /// The two triangles of the face's quad, for corners that start at
    /// `offset`.
    pub fn indice(&self, offset: u32) -> (r: [u32; 6])
        requires
            offset + 3 <= u32::MAX,
        ensures
            r@.map_values(|i: u32| i as int) == self.indice_of(offset as int),
    {
        let r = match self {
            BlockFace::Down => [
                offset,
                offset + 1,
                offset + 3,
                offset + 1,
                offset + 2,
                offset + 3,
            ],
            _ => [offset, offset + 3, offset + 1, offset + 1, offset + 3, offset + 2],
        };
        assert(r@.map_values(|i: u32| i as int) =~= self.indice_of(offset as int));
        r
    }

    /// The face on the other side of the block.
    pub open spec fn opposite_of(self) -> BlockFace {
        match self {
            BlockFace::Down => BlockFace::Up,
            BlockFace::Up => BlockFace::Down,
            BlockFace::North => BlockFace::South,
            BlockFace::South => BlockFace::North,
            BlockFace::West => BlockFace::East,
            BlockFace::East => BlockFace::West,
        }
    }

    /// The face on the other side of the block.
    pub fn opposite(&self) -> (r: BlockFace)
        ensures
            r == self.opposite_of(),
    {
        match self {
            BlockFace::Down => BlockFace::Up,
            BlockFace::Up => BlockFace::Down,
            BlockFace::North => BlockFace::South,
            BlockFace::South => BlockFace::North,
            BlockFace::West => BlockFace::East,
            BlockFace::East => BlockFace::West,
        }
    }

    /// The face looks down its axis, towards smaller coordinates.
    pub open spec fn looks_down_axis(self) -> bool {
        self == BlockFace::Down || self == BlockFace::North || self == BlockFace::West
    }

    /// Whether the face looks towards smaller coordinates.
    pub fn is_neg_axis(&self) -> (r: bool)
        ensures
            r == self.looks_down_axis(),
    {
        match self {
            BlockFace::Down | BlockFace::North | BlockFace::West => true,
            BlockFace::Up | BlockFace::South | BlockFace::East => false,
        }
    }

    /// The coordinate, on the face's axis, of the block's own boundary on
    /// the face's side.
    pub open spec fn boundary(self) -> i8 {
        if self.looks_down_axis() {
            0
        } else {
            16
        }
    }

    /// The coordinate of the block's boundary on the face's side: 0 or 16.
    pub fn default_size(&self) -> (r: i8)
        ensures
            r == self.boundary(),
    {
        if self.is_neg_axis() {
            0
        } else {
            DEFAULT_ELEMENT_SIZE_I8
        }
    }

    /// The axis that the face is normal to.
    pub open spec fn axis_of(self) -> Axis {
        match self {
            BlockFace::Down | BlockFace::Up => Axis::Y,
            BlockFace::North | BlockFace::South => Axis::Z,
            BlockFace::West | BlockFace::East => Axis::X,
        }
    }

    /// The step from a block to its neighbour on the face's side.
    pub open spec fn offset_of(self) -> (int, int, int) {
        match self {
            BlockFace::Down => (0, -1, 0),
            BlockFace::Up => (0, 1, 0),
            BlockFace::North => (0, 0, -1),
            BlockFace::South => (0, 0, 1),
            BlockFace::West => (-1, 0, 0),
            BlockFace::East => (1, 0, 0),
        }
    }
}

impl From<BlockFace> for Axis {
    fn from(value: BlockFace) -> (r: Axis) {
        match value {
            BlockFace::Down | BlockFace::Up => Axis::Y,
            BlockFace::North | BlockFace::South => Axis::Z,
            BlockFace::West | BlockFace::East => Axis::X,
        }
    }
}

impl vstd::std_specs::convert::FromSpecImpl<BlockFace> for Axis {
    open spec fn obeys_from_spec() -> bool {
        true
    }

    open spec fn from_spec(value: BlockFace) -> Axis {
        value.axis_of()
    }
}

/// One face of an element: what is drawn on it and when it is hidden.
#[derive(Debug)]
pub struct ElementFace {
    /// The texture rectangle `[u1, v1, u2, v2]`; without one the element's
    /// bounds give it.
    pub uv: Option<[i8; 4]>,
    /// The side on which a neighbour that covers the face hides it.
    pub cullface: Option<BlockFace>,
    /// The texture, or the variable that names it.
    pub texture: Texture,
}

impl Clone for ElementFace {
    fn clone(&self) -> (r: Self)
        ensures
            r == *self,
    {
        ElementFace { uv: self.uv, cullface: self.cullface, texture: self.texture.clone() }
    }
}

/// A cuboid of a model, sides along the axes, inside the block: from the
/// corner `from` to the corner `to`, with the faces that are drawn.
#[derive(Debug)]
pub struct Element {
    /// The lower corner.
    pub from: [i8; 3],
    /// The upper corner.
    pub to: [i8; 3],
    /// The faces that are drawn, by direction.
    pub faces: HashMap<BlockFace, ElementFace>,
}

/// An element as a value: its corners and its faces by direction.
pub struct ElementView {
    pub from: [i8; 3],
    pub to: [i8; 3],
    pub faces: Map<BlockFace, ElementFace>,
}

impl ElementView {
    /// The corners lie inside the block, the lower one not above the upper
    /// one.
    pub open spec fn wf(self) -> bool {
        &&& in_block(self.from)
        &&& in_block(self.to)
        &&& self.from[0] <= self.to[0]
        &&& self.from[1] <= self.to[1]
        &&& self.from[2] <= self.to[2]
    }
}

impl View for Element {
    type V = ElementView;

    open spec fn view(&self) -> ElementView {
        ElementView { from: self.from, to: self.to, faces: face_table(self.faces) }
    }
}

impl Clone for Element {
    fn clone(&self) -> (r: Self)
        ensures
            r@ == self@,
    {
        Element { from: self.from, to: self.to, faces: face_table_clone(&self.faces) }
    }
}

impl FaceAble for Element {
    open spec fn lower(&self) -> [i8; 3] {
        self.from
    }

    open spec fn upper(&self) -> [i8; 3] {
        self.to
    }

    fn from(&self) -> (r: [i8; 3]) {
        self.from
    }

    fn to(&self) -> (r: [i8; 3]) {
        self.to
    }
}

impl Element {
    /// The corners lie inside the block, the lower one not above the upper
    /// one.
    pub open spec fn wf(&self) -> bool {
        self@.wf()
    }

    /// Whether the corners lie inside the block, the lower one not above the
    /// upper one.
    pub fn check(&self) -> (r: bool)
        ensures
            r == self.wf(),
    {
        let from = self.from;
        let to = self.to;
        0 <= from[0] && from[0] <= to[0] && to[0] <= 16 && 0 <= from[1] && from[1] <= to[1]
            && to[1] <= 16 && 0 <= from[2] && from[2] <= to[2] && to[2] <= 16
    }

    /// The face on the side `face`, with the element's bounds, where the
    /// element has a face there.
    pub fn faces(&self, face: BlockFace) -> (r: Option<Face<'_>>)
        ensures
            match r {
                Some(found) => self@.faces.contains_key(face) && found.from == self.from
                    && found.to == self.to && found.face == face && *found.data
                    == self@.faces[face],
                None => !self@.faces.contains_key(face),
            },
    {
        match face_table_get(&self.faces, face) {
            Some(data) => Some(Face { from: self.from, to: self.to, face, data }),
            None => None,
        }
    }
}

} // verus!
