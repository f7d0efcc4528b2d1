//! A chunk of the world: which block stands at which position.

use vstd::prelude::*;
use bevy::platform::collections::HashMap;
use crate::assets::models::element::BlockFace;
use crate::assets::models::manager::ModelManager;
use crate::assets::textures::atlas::AppTextureAtlas;
use crate::identity::block_id::BlockId;
use crate::assets::models::face::{is_normal, rect_of};
use crate::assets::models::model::ModelView;
use crate::render::meshing::{
    is_full_cube, lemma_merge_quads, lemma_one_element_quads, mesh_upto, model_mesh, occludes,
    quads, should_cull, Scene,
};
use crate::render::voxel::{MeshError, Vertex, VertexView};
use crate::table::{
    block_table, block_table_get, block_table_insert, block_table_new, block_table_positions,
    lists_blocks,
};

verus! {

/// The side length of a chunk, in blocks.
pub const CHUNK_SIZE: i32 = 16;

/// A position in the world, in blocks.
#[derive(Clone, Copy, Debug, Default, PartialEq, Eq, Hash, Structural)]
pub struct IVec3 {
    pub x: i32,
    pub y: i32,
    pub z: i32,
}

/// A position on the ground plan of the world.
#[derive(Clone, Copy, Debug, Default, PartialEq, Eq, Hash, Structural)]
pub struct IVec2 {
    pub x: i32,
    pub y: i32,
}

impl IVec2 {
    /// The position `(x, y)`.
    #[inline]
    pub fn new(x: i32, y: i32) -> (r: Self)
        ensures
            r == (IVec2 { x, y }),
    {
        IVec2 { x, y }
    }
}

impl IVec3 {
    /// The position `(x, y, z)`.
    #[inline]
    pub fn new(x: i32, y: i32, z: i32) -> (r: Self)
        ensures
            r == (IVec3 { x, y, z }),
    {
        IVec3 { x, y, z }
    }

    /// The position next to `self` on the side `face`, where the world
    /// reaches that far.
    pub open spec fn neighbor_of(self, face: BlockFace) -> Option<IVec3> {
        let (dx, dy, dz) = face.offset_of();
        if i32::MIN <= self.x + dx <= i32::MAX && i32::MIN <= self.y + dy <= i32::MAX && i32::MIN
            <= self.z + dz <= i32::MAX {
            Some(IVec3 { x: (self.x + dx) as i32, y: (self.y + dy) as i32, z: (self.z + dz) as i32 })
        } else {
            None
        }
    }

    /// The position next to `self` on the side `face`, where the world
    /// reaches that far.
    pub fn neighbor(&self, face: BlockFace) -> (r: Option<IVec3>)
        ensures
            r == self.neighbor_of(face),
    {
        match face {
            BlockFace::Down => if self.y > i32::MIN {
                Some(IVec3 { x: self.x, y: self.y - 1, z: self.z })
            } else {
                None
            },
            BlockFace::Up => if self.y < i32::MAX {
                Some(IVec3 { x: self.x, y: self.y + 1, z: self.z })
            } else {
                None
            },
            BlockFace::North => if self.z > i32::MIN {
                Some(IVec3 { x: self.x, y: self.y, z: self.z - 1 })
            } else {
                None
            },
            BlockFace::South => if self.z < i32::MAX {
                Some(IVec3 { x: self.x, y: self.y, z: self.z + 1 })
            } else {
                None
            },
            BlockFace::West => if self.x > i32::MIN {
                Some(IVec3 { x: self.x - 1, y: self.y, z: self.z })
            } else {
                None
            },
            BlockFace::East => if self.x < i32::MAX {
                Some(IVec3 { x: self.x + 1, y: self.y, z: self.z })
            } else {
                None
            },
        }
    }

    /// The chunk that the position lies in: its ground plan coordinates
    /// divided by the size of a chunk, rounded down.
    pub open spec fn chunk_of(self) -> IVec2 {
        IVec2 { x: (self.x as int / 16) as i32, y: (self.z as int / 16) as i32 }
    }
}

impl From<BlockFace> for IVec3 {
    fn from(value: BlockFace) -> (r: IVec3) {
        match value {
            BlockFace::Down => IVec3 { x: 0, y: -1, z: 0 },
            BlockFace::Up => IVec3 { x: 0, y: 1, z: 0 },
            BlockFace::North => IVec3 { x: 0, y: 0, z: -1 },
            BlockFace::South => IVec3 { x: 0, y: 0, z: 1 },
            BlockFace::West => IVec3 { x: -1, y: 0, z: 0 },
            BlockFace::East => IVec3 { x: 1, y: 0, z: 0 },
        }
    }
}

impl vstd::std_specs::convert::FromSpecImpl<BlockFace> for IVec3 {
    open spec fn obeys_from_spec() -> bool {
        true
    }

    open spec fn from_spec(value: BlockFace) -> IVec3 {
        IVec3 {
            x: value.offset_of().0 as i32,
            y: value.offset_of().1 as i32,
            z: value.offset_of().2 as i32,
        }
    }
}

/// `x` divided by the size of a chunk, rounded down.
pub fn chunk_coordinate(x: i32) -> (r: i32)
    ensures
        r == x as int / 16,
{
    if x >= 0 {
        x / CHUNK_SIZE
    } else {
        -((-(x + 1)) / CHUNK_SIZE) - 1
    }
}

/// The block at a position.
#[derive(Debug)]
pub struct BlockData {
    pub id: BlockId,
}

/// The blocks of a chunk, by position.
#[derive(Debug)]
pub struct Chunk {
    pub data: HashMap<IVec3, BlockData>,
}

impl Default for Chunk {
    /// A chunk without blocks.
    fn default() -> (r: Self)
        ensures
            forall|pos: IVec3| !r.blocks().contains_key(pos),
    {
        Chunk { data: block_table_new() }
    }
}

/// The position `pos` lies in the column at `(x, z)`, at a height from 0 up
/// to `height`.
pub open spec fn in_column(pos: IVec3, x: i32, z: i32, height: int) -> bool {
    pos.x == x && pos.z == z && 0 <= pos.y <= height
}

/// The mesh of the block at `pos`: nothing where there is no block, where
/// the block has no model, or where its model has no elements.
pub open spec fn block_mesh(pos: IVec3, scene: Scene) -> Option<VertexView> {
    if scene.blocks.contains_key(pos) && scene.models.contains_key(scene.blocks[pos].id.0@) {
        model_mesh(pos, scene.models[scene.blocks[pos].id.0@], scene)
    } else {
        None
    }
}

/// The meshes of the blocks at the first `n` positions of `order`, merged
/// one after the other.
pub open spec fn chunk_mesh(order: Seq<IVec3>, n: int, scene: Scene) -> VertexView
    decreases n,
{
    if n <= 0 {
        VertexView::empty()
    } else {
        let before = chunk_mesh(order, n - 1, scene);
        match block_mesh(order[n - 1], scene) {
            Some(mesh) => before.merge(mesh),
            None => before,
        }
    }
}

/// The mesh of a chunk only grows with every block.
pub proof fn lemma_chunk_mesh_grows(order: Seq<IVec3>, n: int, m: int, scene: Scene)
    requires
        0 <= n <= m,
    ensures
        chunk_mesh(order, n, scene).positions.len() <= chunk_mesh(order, m, scene).positions.len(),
    decreases m,
{
    if n < m {
        lemma_chunk_mesh_grows(order, n, m - 1, scene);
    }
}

/// The model `model` is one element that fills the block and has all six
/// faces, each hidden on its own side.
pub open spec fn is_culled_cube(model: ModelView) -> bool {
    &&& model.elements is Some
    &&& model.elements->0.len() == 1
    &&& is_full_cube(model.elements->0[0])
    &&& forall|i: int|
        0 <= i < 6 ==> model.elements->0[0].faces.contains_key(#[trigger] BlockFace::nth(i))
            && model.elements->0[0].faces[BlockFace::nth(i)].cullface == Some(BlockFace::nth(i))
}

/// Of two such cubes side by side, alone in the chunk, the one at `pos`
/// shows five faces: all but the face towards the other, which stands next
/// to it on the side `face`.
pub proof fn lemma_cube_beside_cube(scene: Scene, pos: IVec3, other: IVec3, face: BlockFace)
    requires
        pos.neighbor_of(face) == Some(other),
        forall|p: IVec3| scene.blocks.contains_key(p) <==> p == pos || p == other,
        scene.models.contains_key(scene.blocks[pos].id.0@),
        scene.models.contains_key(scene.blocks[other].id.0@),
        is_culled_cube(scene.models[scene.blocks[pos].id.0@]),
        is_culled_cube(scene.models[scene.blocks[other].id.0@]),
    ensures
        block_mesh(pos, scene) is Some,
        quads(block_mesh(pos, scene)->0, 5),
{
    let model = scene.models[scene.blocks[pos].id.0@];
    let element = model.elements->0[0];
    let others = scene.models[scene.blocks[other].id.0@].elements->0;
    assert forall|i: int| 0 <= i < 6 implies (should_cull(
        pos,
        element,
        #[trigger] BlockFace::nth(i),
        element.faces[BlockFace::nth(i)].cullface,
        scene.blocks,
        scene.models,
    ) <==> i == face.place()) by {
        let side = BlockFace::nth(i);
        assert(element.faces[side].cullface == Some(side));
        assert(is_normal(element.from, element.to, side));
        if i == face.place() {
            assert(side == face);
            let back = side.opposite_of();
            assert(BlockFace::nth(back.place()) == back);
            assert(others[0].faces.contains_key(BlockFace::nth(back.place())));
            assert(is_normal(others[0].from, others[0].to, back));
            assert(occludes(others[0], back, rect_of(side, element.from, element.to)));
        } else {
            assert(side != face);
            if pos.neighbor_of(side) is Some {
                let next = pos.neighbor_of(side)->0;
                assert(next != pos && next != other);
            }
        }
    }
    assert forall|i: int| 0 <= i < 6 implies element.faces.contains_key(
        #[trigger] BlockFace::nth(i),
    ) by {}
    lemma_one_element_quads(pos, model, scene, face.place(), 6);
    assert(mesh_upto(pos, model, 1, 0, scene) == mesh_upto(pos, model, 0, 6, scene));
}

/// Two cubes side by side, alone in the chunk, each of one element that
/// fills the block with every face hidden on its own side, make a mesh of
/// ten quads, in whatever order the chunk hands out the two: each shows
/// five faces, and the two faces between them are left out.
pub proof fn lemma_two_cubes_make_ten_quads(
    scene: Scene,
    first: IVec3,
    second: IVec3,
    face: BlockFace,
    order: Seq<IVec3>,
)
    requires
        first.neighbor_of(face) == Some(second),
        forall|p: IVec3| scene.blocks.contains_key(p) <==> p == first || p == second,
        scene.models.contains_key(scene.blocks[first].id.0@),
        scene.models.contains_key(scene.blocks[second].id.0@),
        is_culled_cube(scene.models[scene.blocks[first].id.0@]),
        is_culled_cube(scene.models[scene.blocks[second].id.0@]),
        lists_blocks(order, scene.blocks),
    ensures
        quads(chunk_mesh(order, order.len() as int, scene), 10),
{
    assert(first != second);
    assert(second.neighbor_of(face.opposite_of()) == Some(first));
    lemma_cube_beside_cube(scene, first, second, face);
    lemma_cube_beside_cube(scene, second, first, face.opposite_of());
    assert(order.contains(first));
    assert(order.contains(second));
    let i = choose|i: int| 0 <= i < order.len() && order[i] == first;
    let j = choose|j: int| 0 <= j < order.len() && order[j] == second;
    assert(i != j);
    if order.len() >= 3 {
        assert(order.contains(order[0]) && order.contains(order[1]) && order.contains(order[2]));
        assert(order[0] != order[1] && order[0] != order[2] && order[1] != order[2]);
    }
    assert(order.len() == 2);
    assert(order.contains(order[0]) && order.contains(order[1]));
    assert(order[0] != order[1]);
    let none = chunk_mesh(order, 0, scene);
    let one = chunk_mesh(order, 1, scene);
    assert(quads(none, 0));
    lemma_merge_quads(none, 0, block_mesh(order[0], scene)->0, 5);
    assert(quads(one, 5));
    lemma_merge_quads(one, 5, block_mesh(order[1], scene)->0, 5);
}

impl Chunk {
    /// The blocks, by position.
    pub open spec fn blocks(&self) -> Map<IVec3, BlockData> {
        block_table(self.data)
    }

    /// Puts `block` at the position `pos`, in place of what stood there.
    pub fn insert(&mut self, pos: IVec3, block: BlockData)
        ensures
            final(self).blocks() == old(self).blocks().insert(pos, block),
    {
        block_table_insert(&mut self.data, pos, block);
    }

    /// Fills the column at `(x, z)` with the block `id`, from the height 0
    /// up to the height `height`; nothing where `height` is below 0.
    /// Whatever stood in the column at these heights is replaced, and every
    /// other block stays.
    pub fn fill_column(&mut self, x: i32, z: i32, height: i32, id: &BlockId)
        ensures
            forall|pos: IVec3|
                #![trigger final(self).blocks().contains_key(pos)]
                #![trigger old(self).blocks().contains_key(pos)]
                final(self).blocks().contains_key(pos) <==> old(self).blocks().contains_key(pos)
                    || in_column(pos, x, z, height as int),
            forall|pos: IVec3|
                in_column(pos, x, z, height as int) ==> (#[trigger] final(self).blocks()[pos]).id.0@
                    == id.0@,
            forall|pos: IVec3|
                !in_column(pos, x, z, height as int) && old(self).blocks().contains_key(pos)
                    ==> #[trigger] final(self).blocks()[pos] == old(self).blocks()[pos],
    {
        if height < 0 {
            return;
        }
        let mut y: i32 = 0;
        loop
            invariant
                0 <= y <= height,
                forall|pos: IVec3|
                    self.blocks().contains_key(pos) <==> old(self).blocks().contains_key(pos)
                        || in_column(pos, x, z, y - 1),
                forall|pos: IVec3|
                    in_column(pos, x, z, y - 1) ==> (#[trigger] self.blocks()[pos]).id.0@ == id.0@,
                forall|pos: IVec3|
                    !in_column(pos, x, z, y - 1) && old(self).blocks().contains_key(pos)
                        ==> #[trigger] self.blocks()[pos] == old(self).blocks()[pos],
            decreases height - y,
        {
            let ghost before = self.blocks();
            let here = IVec3 { x, y, z };
            let block = BlockData { id: id.clone() };
            block_table_insert(&mut self.data, here, block);
            assert forall|pos: IVec3| in_column(pos, x, z, y as int) implies (
            #[trigger] self.blocks()[pos]).id.0@ == id.0@ by {
                if pos == here {
                    assert(self.blocks()[pos] == block);
                } else {
                    assert(in_column(pos, x, z, y - 1));
                    assert(before[pos].id.0@ == id.0@);
                }
            }
            if y == height {
                return;
            }
            y += 1;
        }
    }

    /// The block next to the position `pos` on the side `face`.
    pub fn opposite(&self, pos: IVec3, face: BlockFace) -> (r: Option<&BlockData>)
        ensures
            match r {
                Some(block) => pos.neighbor_of(face) matches Some(next) && self.blocks().contains_key(
                    next,
                ) && *block == self.blocks()[next],
                None => !(pos.neighbor_of(face) matches Some(next) && self.blocks().contains_key(
                    next,
                )),
            },
    {
        match pos.neighbor(face) {
            Some(next) => block_table_get(&self.data, next),
            None => None,
        }
    }

    /// The mesh of the blocks at the positions `order`, in that order: the
    /// meshes of the blocks, merged one after the other. A position without
    /// a block adds nothing, nor does a block without a model. An error
    /// where the mesh would have more vertices than a 32-bit index can
    /// count.
    pub fn mesh_in_order(
        &self,
        order: &Vec<IVec3>,
        atlas: &AppTextureAtlas,
        models: &ModelManager,
    ) -> (r: Result<Vertex, MeshError>)
        requires
            models.wf(),
        ensures
            ({
                let mesh = chunk_mesh(
                    order@,
                    order.len() as int,
                    Scene { atlas: *atlas, blocks: self.blocks(), models: models@ },
                );
                if mesh.positions.len() <= u32::MAX {
                    r matches Ok(vertex) && vertex@ == mesh && vertex@.wf()
                } else {
                    r matches Err(MeshError::TooManyVertices)
                }
            }),
    {
        let ghost scene = Scene { atlas: *atlas, blocks: self.blocks(), models: models@ };
        let mut out = Vertex::default();
        let mut i: usize = 0;
        while i < order.len()
            invariant
                i <= order.len(),
                models.wf(),
                scene == (Scene { atlas: *atlas, blocks: self.blocks(), models: models@ }),
                out@ == chunk_mesh(order@, i as int, scene),
                out@.wf(),
                out.positions.len() <= u32::MAX,
            decreases order.len() - i,
        {
            let pos = order[i];
            proof {
                lemma_chunk_mesh_grows(order@, i + 1, order.len() as int, scene);
            }
            if let Some(block) = block_table_get(&self.data, pos) {
                if let Some(model) = models.get(&block.id) {
                    assert(models@[block.id.0@] == model@);
                    assert(model.wf());
                    match model.vertex(pos, atlas, self, models) {
                        Err(error) => {
                            return Err(error);
                        },
                        Ok(None) => {},
                        Ok(Some(vertex)) => {
                            if out.positions.len() > u32::MAX as usize - vertex.positions.len() {
                                return Err(MeshError::TooManyVertices);
                            }
                            assert forall|k: int| 0 <= k < vertex.indices.len() implies out.positions.len()
                                + #[trigger] vertex.indices[k] <= u32::MAX by {
                                assert(vertex@.indices[k] < vertex@.positions.len());
                            }
                            let ghost before = out@;
                            let ghost added = vertex@;
                            out.merge(vertex);
                            assert forall|k: int| 0 <= k < out@.indices.len() implies 0
                                <= #[trigger] out@.indices[k] < out@.positions.len() by {
                                if k < before.indices.len() {
                                    assert(out@.indices[k] == before.indices[k]);
                                } else {
                                    assert(out@.indices[k] == added.indices[k
                                        - before.indices.len()] + before.positions.len());
                                }
                            }
                        },
                    }
                }
            }
            i += 1;
        }
        Ok(out)
    }

    /// The mesh of the chunk: the meshes of all its blocks, merged one
    /// after the other, in the order in which the chunk hands out its
    /// blocks. An error where the mesh would have more vertices than a
    /// 32-bit index can count.
    pub fn mesh(&self, atlas: &AppTextureAtlas, models: &ModelManager) -> (r: Result<
        Vertex,
        MeshError,
    >)
        requires
            models.wf(),
        ensures
            exists|order: Seq<IVec3>|
                lists_blocks(order, self.blocks()) && ({
                    let mesh = #[trigger] chunk_mesh(
                        order,
                        order.len() as int,
                        Scene { atlas: *atlas, blocks: self.blocks(), models: models@ },
                    );
                    if mesh.positions.len() <= u32::MAX {
                        r matches Ok(vertex) && vertex@ == mesh && vertex@.wf()
                    } else {
                        r matches Err(MeshError::TooManyVertices)
                    }
                }),
    {
        let order = block_table_positions(&self.data);
        let r = self.mesh_in_order(&order, atlas, models);
        assert(lists_blocks(order@, self.blocks()));
        r
    }

    /// The chunk of the world that the blocks lie in, taken from one of
    /// them; nothing where there is no block.
    pub fn position(&self) -> (r: Option<IVec2>)
        ensures
            match r {
                Some(chunk) => exists|pos: IVec3|
                    self.blocks().contains_key(pos) && chunk == pos.chunk_of(),
                None => forall|pos: IVec3| !self.blocks().contains_key(pos),
            },
    {
        let positions = block_table_positions(&self.data);
        if positions.len() == 0 {
            assert forall|pos: IVec3| !self.blocks().contains_key(pos) by {
                assert(!positions@.contains(pos));
            }
            None
        } else {
            let pos = positions[0];
            let chunk = IVec2 { x: chunk_coordinate(pos.x), y: chunk_coordinate(pos.z) };
            assert(positions@.contains(pos));
            assert(self.blocks().contains_key(pos) && chunk == pos.chunk_of());
            Some(chunk)
        }
    }
}

} // verus!
