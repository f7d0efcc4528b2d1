//! The vertex buffer that a mesh is built in.

use vstd::prelude::*;

verus! {

/// A fraction, `num / den`. Texture coordinates are fractions of the atlas.
#[derive(Clone, Copy, Debug, PartialEq, Eq, Structural)]
pub struct Ratio {
    pub num: i64,
    pub den: i64,
}

/// Why a mesh could not be built.
#[derive(Clone, Copy, Debug, PartialEq, Eq, Structural)]
pub enum MeshError {
    /// The mesh would have more vertices than a 32-bit index can count.
    TooManyVertices,
}

/// The vertices of a mesh and the triangles between them. A position is in
/// sixteenths of a block. Three indices in a row make a triangle.
#[derive(Debug)]
pub struct Vertex {
    pub positions: Vec<[i64; 3]>,
    pub normals: Vec<[i8; 3]>,
    pub uvs: Vec<[Ratio; 2]>,
    pub indices: Vec<u32>,
}

/// A vertex buffer as a value. Its indices are not bounded.
pub struct VertexView {
    pub positions: Seq<[i64; 3]>,
    pub normals: Seq<[i8; 3]>,
    pub uvs: Seq<[Ratio; 2]>,
    pub indices: Seq<int>,
}

impl VertexView {
    /// The buffer without vertices.
    pub open spec fn empty() -> VertexView {
        VertexView {
            positions: Seq::empty(),
            normals: Seq::empty(),
            uvs: Seq::empty(),
            indices: Seq::empty(),
        }
    }

    /// The buffer `self` followed by `other`: the vertices of both, and the
    /// triangles of both, those of `other` between the same vertices as
    /// before, which now stand after the vertices of `self`.
    pub open spec fn merge(self, other: VertexView) -> VertexView {
        VertexView {
            positions: self.positions + other.positions,
            normals: self.normals + other.normals,
            uvs: self.uvs + other.uvs,
            indices: self.indices + other.indices.map_values(
                |index: int| index + self.positions.len(),
            ),
        }
    }

    /// Every vertex has a position, a normal and a texture coordinate, and
    /// every index names a vertex.
    pub open spec fn wf(self) -> bool {
        &&& self.normals.len() == self.positions.len()
        &&& self.uvs.len() == self.positions.len()
        &&& forall|i: int|
            0 <= i < self.indices.len() ==> 0 <= #[trigger] self.indices[i] < self.positions.len()
    }
}

impl View for Vertex {
    type V = VertexView;

    open spec fn view(&self) -> VertexView {
        VertexView {
            positions: self.positions@,
            normals: self.normals@,
            uvs: self.uvs@,
            indices: self.indices@.map_values(|index: u32| index as int),
        }
    }
}

impl Default for Vertex {
    fn default() -> (r: Self)
        ensures
            r@ == VertexView::empty(),
    {
        let r = Vertex {
            positions: Vec::new(),
            normals: Vec::new(),
            uvs: Vec::new(),
            indices: Vec::new(),
        };
        assert(r@.indices =~= Seq::<int>::empty());
        r
    }
}

impl Vertex {
    /// Appends `other`: its vertices after those that are there, and its
    /// triangles with every index raised by the number of vertices that were
    /// there, so that they name the same vertices as before.
    pub fn merge(&mut self, other: Self)
        requires
            forall|i: int|
                0 <= i < other.indices.len() ==> old(self).positions.len()
                    + #[trigger] other.indices[i] <= u32::MAX,
        ensures
            final(self)@ == old(self)@.merge(other@),
    {
        let Vertex { mut positions, mut normals, mut uvs, indices } = other;
        let ghost offset = self.positions.len();
        let ghost before = self.indices@;
        if indices.len() > 0 {
            assert(self.positions.len() + indices[0] <= u32::MAX);
            let indice_offset: u32 = self.positions.len() as u32;
            let mut i: usize = 0;
            while i < indices.len()
                invariant
                    i <= indices.len(),
                    indice_offset == offset,
                    forall|k: int|
                        0 <= k < indices.len() ==> offset + #[trigger] indices[k] <= u32::MAX,
                    self.positions == old(self).positions,
                    self.normals == old(self).normals,
                    self.uvs == old(self).uvs,
                    self.indices@ == before + indices@.take(i as int).map_values(
                        |index: u32| (index + indice_offset) as u32,
                    ),
                decreases indices.len() - i,
            {
                self.indices.push(indices[i] + indice_offset);
                assert(self.indices@ =~= before + indices@.take(i + 1).map_values(
                    |index: u32| (index + indice_offset) as u32,
                ));
                i += 1;
            }
            assert(indices@.take(i as int) =~= indices@);
        }
        self.positions.append(&mut positions);
        self.normals.append(&mut normals);
        self.uvs.append(&mut uvs);
        assert(final(self)@.indices =~= old(self)@.merge(other@).indices);
    }
}

} // verus!
