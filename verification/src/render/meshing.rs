//! The mesh of one block: the faces of its model that no neighbour hides,
//! as quads with positions, normals, texture coordinates and triangles.

use vstd::prelude::*;
use crate::assets::models::element::{BlockFace, Element, ElementFace, ElementView};
use crate::assets::models::face::{is_normal, rect_of, widen, FaceAble, I8Rect, Surface};
use crate::assets::models::manager::ModelManager;
use crate::assets::models::model::{element_views, Model, ModelView};
use crate::assets::textures::atlas::{AppTextureAtlas, Rect};
use crate::assets::textures::texture::{is_reference, reference_name, texture_path_of, Texture};
use crate::chunk::{BlockData, Chunk, IVec3};
use crate::identity::texture_id::TextureId;
use crate::render::voxel::{MeshError, Ratio, Vertex, VertexView};

verus! {

/// What a mesh is built from: the atlas, the blocks of the chunk, and the
/// models of all blocks.
pub struct Scene {
    pub atlas: AppTextureAtlas,
    pub blocks: Map<IVec3, BlockData>,
    pub models: Map<Seq<char>, ModelView>,
}

/// The element `other` hides the rectangle `rect` of a neighbour's face from
/// its side `side`: it has a face there that lies in the block's boundary
/// and covers `rect`.
pub open spec fn occludes(other: ElementView, side: BlockFace, rect: I8Rect) -> bool {
    &&& other.faces.contains_key(side)
    &&& is_normal(other.from, other.to, side)
    &&& rect_of(side, other.from, other.to).covers(rect)
}

/// The face `face` of `element`, of the block at `pos`, is hidden and not
/// drawn. A face without `cullface` is never hidden. One with `cullface` is
/// hidden where the element reaches the block's boundary on the side
/// `cullface`, the block next to `pos` on that side has a model, and an
/// element of that model hides the face's rectangle from the opposite side.
pub open spec fn should_cull(
    pos: IVec3,
    element: ElementView,
    face: BlockFace,
    cullface: Option<BlockFace>,
    blocks: Map<IVec3, BlockData>,
    models: Map<Seq<char>, ModelView>,
) -> bool {
    match cullface {
        None => false,
        Some(cull_face) => is_normal(element.from, element.to, cull_face) && match pos.neighbor_of(
            cull_face,
        ) {
            None => false,
            Some(next) => blocks.contains_key(next) && models.contains_key(blocks[next].id.0@)
                && match models[blocks[next].id.0@].elements {
                None => false,
                Some(others) => exists|k: int|
                    0 <= k < others.len() && occludes(
                        #[trigger] others[k],
                        cull_face.opposite_of(),
                        rect_of(face, element.from, element.to),
                    ),
            },
        },
    }
}

/// The element `element` fills the whole block.
pub open spec fn is_full_cube(element: ElementView) -> bool {
    &&& element.from[0] == 0 && element.from[1] == 0 && element.from[2] == 0
    &&& element.to[0] == 16 && element.to[1] == 16 && element.to[2] == 16
}

/// Two blocks that fill their place hide the faces between them: a face of
/// an element that fills the block, hidden on its own side, is not drawn
/// where the block next to it on that side has a model with an element that
/// fills the block and has the opposite face.
pub proof fn lemma_shared_face_is_hidden(
    pos: IVec3,
    element: ElementView,
    face: BlockFace,
    blocks: Map<IVec3, BlockData>,
    models: Map<Seq<char>, ModelView>,
    other: int,
)
    requires
        is_full_cube(element),
        pos.neighbor_of(face) is Some,
        blocks.contains_key(pos.neighbor_of(face)->0),
        models.contains_key(blocks[pos.neighbor_of(face)->0].id.0@),
        models[blocks[pos.neighbor_of(face)->0].id.0@].elements is Some,
        0 <= other < models[blocks[pos.neighbor_of(face)->0].id.0@].elements->0.len(),
        is_full_cube(models[blocks[pos.neighbor_of(face)->0].id.0@].elements->0[other]),
        models[blocks[pos.neighbor_of(face)->0].id.0@].elements->0[other].faces.contains_key(
            face.opposite_of(),
        ),
    ensures
        should_cull(pos, element, face, Some(face), blocks, models),
{
    let others = models[blocks[pos.neighbor_of(face)->0].id.0@].elements->0;
    assert(occludes(others[other], face.opposite_of(), rect_of(face, element.from, element.to)));
}

/// A face is drawn where the element does not reach the block's boundary on
/// the side on which the face would be hidden.
pub proof fn lemma_inset_face_is_drawn(
    pos: IVec3,
    element: ElementView,
    face: BlockFace,
    cullface: BlockFace,
    blocks: Map<IVec3, BlockData>,
    models: Map<Seq<char>, ModelView>,
)
    requires
        !is_normal(element.from, element.to, cullface),
    ensures
        !should_cull(pos, element, face, Some(cullface), blocks, models),
{
}

/// A face is drawn where no element of the neighbour has, on the opposite
/// side and in the block's boundary, a face that covers its rectangle.
pub proof fn lemma_uncovered_face_is_drawn(
    pos: IVec3,
    element: ElementView,
    face: BlockFace,
    cullface: BlockFace,
    blocks: Map<IVec3, BlockData>,
    models: Map<Seq<char>, ModelView>,
)
    requires
        pos.neighbor_of(cullface) is Some,
        blocks.contains_key(pos.neighbor_of(cullface)->0),
        models.contains_key(blocks[pos.neighbor_of(cullface)->0].id.0@),
        models[blocks[pos.neighbor_of(cullface)->0].id.0@].elements is Some,
        forall|k: int|
            0 <= k < models[blocks[pos.neighbor_of(cullface)->0].id.0@].elements->0.len()
                ==> !occludes(
                #[trigger] models[blocks[pos.neighbor_of(cullface)->0].id.0@].elements->0[k],
                cullface.opposite_of(),
                rect_of(face, element.from, element.to),
            ),
    ensures
        !should_cull(pos, element, face, Some(cullface), blocks, models),
{
}

/// Whether the face `face` of `element`, of the block at `pos`, is hidden
/// and not drawn.
#[verifier::loop_isolation(false)]
pub fn should_cull_face(
    pos: IVec3,
    element: &Element,
    face: BlockFace,
    face_data: &ElementFace,
    chunk: &Chunk,
    models: &ModelManager,
) -> (r: bool)
    ensures
        r == should_cull(pos, element@, face, face_data.cullface, chunk.blocks(), models@),
{
    let cull_face = match face_data.cullface {
        Some(cull_face) => cull_face,
        None => {
            return false;
        },
    };
    if !element.is_normal_face(cull_face) {
        return false;
    }
    let block = match chunk.opposite(pos, cull_face) {
        Some(block) => block,
        None => {
            return false;
        },
    };
    let model = match models.get(&block.id) {
        Some(model) => model,
        None => {
            return false;
        },
    };
    let others = match &model.elements {
        Some(others) => others,
        None => {
            return false;
        },
    };
    let rect = element.rect(face);
    let side = cull_face.opposite();
    let ghost views = element_views(others@);
    assert(models@[block.id.0@].elements == Some(views));
    let mut k: usize = 0;
    while k < others.len()
        invariant
            k <= others.len(),
            views == element_views(others@),
            rect == rect_of(face, element@.from, element@.to),
            side == cull_face.opposite_of(),
            forall|j: int| 0 <= j < k ==> !occludes(#[trigger] views[j], side, rect),
        decreases others.len() - k,
    {
        if let Some(found) = others[k].faces(side) {
            if found.is_normal_face(found.face) {
                let opposite_rect = found.rect(found.face);
                if opposite_rect.contains(rect.min) && opposite_rect.contains(rect.max) {
                    assert(occludes(views[k as int], side, rect));
                    let ghost next = pos.neighbor_of(cull_face)->0;
                    let ghost hiding = models@[chunk.blocks()[next].id.0@].elements->0;
                    assert(hiding == views);
                    assert(0 <= k < hiding.len() && occludes(
                        hiding[k as int],
                        cull_face.opposite_of(),
                        rect_of(face, element@.from, element@.to),
                    ));
                    return true;
                }
            }
        }
        assert(!occludes(views[k as int], side, rect));
        k += 1;
    }
    false
}

/// The coordinate `k`, in sixteenths of a texture, as a fraction of the
/// atlas, for a texture that lies from `min` to `max` in an atlas of the
/// size `size`: `min / size + (k / 16) * (max / size - min / size)`.
pub open spec fn lerp(min: u32, max: u32, size: u32, k: i8) -> Ratio {
    Ratio { num: (16 * min + k * (max - min)) as i64, den: (16 * size) as i64 }
}

/// The coordinate `k`, in sixteenths of a texture, as a fraction of the
/// atlas.
pub fn interpolate(min: u32, max: u32, size: u32, k: i8) -> (r: Ratio)
    ensures
        r == lerp(min, max, size, k),
{
    let span: i64 = max as i64 - min as i64;
    assert(-0x8000_0000_00 <= k * span <= 0x8000_0000_00) by (nonlinear_arith)
        requires
            -128 <= k <= 127,
            -0x1_0000_0000 < span < 0x1_0000_0000,
    ;
    Ratio { num: 16 * (min as i64) + (k as i64) * span, den: 16 * (size as i64) }
}

/// The texture coordinates of the four corners of a quad that shows the
/// rectangle `uv` of a texture which lies at `rect` in the atlas.
pub open spec fn face_uvs(rect: Rect, uv: [i8; 4]) -> Seq<[Ratio; 2]> {
    let u1 = lerp(rect.min.x, rect.max.x, rect.size.x, uv[0]);
    let v1 = lerp(rect.min.y, rect.max.y, rect.size.y, uv[1]);
    let u2 = lerp(rect.min.x, rect.max.x, rect.size.x, uv[2]);
    let v2 = lerp(rect.min.y, rect.max.y, rect.size.y, uv[3]);
    seq![[u1, v1], [u2, v1], [u2, v2], [u1, v2]]
}

/// The image that the texture `texture` of a face stands for in a model
/// with the texture variables `textures`: itself where it is no variable,
/// else what the variable stands for.
pub open spec fn image_of(
    textures: Option<Map<Seq<char>, Seq<char>>>,
    texture: Seq<char>,
) -> Option<Seq<char>> {
    if is_reference(texture) {
        match textures {
            Some(table) => texture_path_of(table, reference_name(texture)),
            None => None,
        }
    } else {
        Some(texture)
    }
}

/// Where the texture `texture` of a face lies in `atlas`; the empty
/// rectangle where it stands for no image, the image's location is no
/// texture identifier, or the atlas does not hold it.
pub open spec fn atlas_rect(
    textures: Option<Map<Seq<char>, Seq<char>>>,
    texture: Seq<char>,
    atlas: AppTextureAtlas,
) -> Rect {
    match image_of(textures, texture) {
        Some(image) => match TextureId::of_texture(image) {
            Some(id) => match atlas.uv_of(id) {
                Some(rect) => rect,
                None => Rect::empty(),
            },
            None => Rect::empty(),
        },
        None => Rect::empty(),
    }
}

/// The corner `corner` of a block's model, in sixteenths of a block, as a
/// position of the world, for the block at `pos`.
pub open spec fn shifted(corner: [i64; 3], pos: IVec3) -> [i64; 3] {
    [
        (corner[0] + 16 * pos.x) as i64,
        (corner[1] + 16 * pos.y) as i64,
        (corner[2] + 16 * pos.z) as i64,
    ]
}

/// The quad of the face `face` of `element`, of the block at `pos`, with
/// the face's texture at `rect` in the atlas: four corners, the face's
/// normal at each, the texture coordinates, and two triangles between the
/// corners.
pub open spec fn face_quad(pos: IVec3, element: ElementView, face: BlockFace, rect: Rect) -> VertexView {
    let corners = face.vertex_of(widen(element.from), widen(element.to));
    let uv = match element.faces[face].uv {
        Some(uv) => uv,
        None => face.uv_of(element.from, element.to),
    };
    VertexView {
        positions: seq![
            shifted(corners[0], pos),
            shifted(corners[1], pos),
            shifted(corners[2], pos),
            shifted(corners[3], pos),
        ],
        normals: seq![face.normal_of(), face.normal_of(), face.normal_of(), face.normal_of()],
        uvs: face_uvs(rect, uv),
        indices: face.indice_of(0),
    }
}

/// The mesh `acc` with the quad of the face `face` of `element`, where the
/// element has that face and it is not hidden.
pub open spec fn mesh_step(
    acc: VertexView,
    pos: IVec3,
    model: ModelView,
    element: ElementView,
    face: BlockFace,
    scene: Scene,
) -> VertexView {
    if element.faces.contains_key(face) && !should_cull(
        pos,
        element,
        face,
        element.faces[face].cullface,
        scene.blocks,
        scene.models,
    ) {
        acc.merge(
            face_quad(
                pos,
                element,
                face,
                atlas_rect(model.textures, element.faces[face].texture@, scene.atlas),
            ),
        )
    } else {
        acc
    }
}

/// The mesh of the first `k` elements of `model`, and of the first `d`
/// faces of the element after them: the quads of the faces that are drawn,
/// element by element, the faces of an element in the order of
/// `BlockFace::nth`.
pub open spec fn mesh_upto(pos: IVec3, model: ModelView, k: int, d: int, scene: Scene) -> VertexView
    decreases k, d,
{
    if d > 0 && 0 <= k < model.elements->0.len() {
        mesh_step(
            mesh_upto(pos, model, k, d - 1, scene),
            pos,
            model,
            model.elements->0[k],
            BlockFace::nth(d - 1),
            scene,
        )
    } else if k > 0 {
        mesh_upto(pos, model, k - 1, 6, scene)
    } else {
        VertexView::empty()
    }
}

/// The mesh of the block at `pos` with the model `model`: nothing where the
/// model has no elements.
pub open spec fn model_mesh(pos: IVec3, model: ModelView, scene: Scene) -> Option<VertexView> {
    match model.elements {
        Some(elements) => if elements.len() > 0 {
            Some(mesh_upto(pos, model, elements.len() as int, 0, scene))
        } else {
            None
        },
        None => None,
    }
}

/// The mesh `mesh` is made of `n` quads: four corners and six indices each.
pub open spec fn quads(mesh: VertexView, n: int) -> bool {
    &&& mesh.positions.len() == 4 * n
    &&& mesh.normals.len() == 4 * n
    &&& mesh.uvs.len() == 4 * n
    &&& mesh.indices.len() == 6 * n
}

/// Merged meshes have the quads of both.
pub proof fn lemma_merge_quads(first: VertexView, n: int, second: VertexView, m: int)
    requires
        quads(first, n),
        quads(second, m),
    ensures
        quads(first.merge(second), n + m),
{
}

/// A face that is drawn adds one quad, and a face that is not adds nothing.
pub proof fn lemma_step_quads(
    acc: VertexView,
    n: int,
    pos: IVec3,
    model: ModelView,
    element: ElementView,
    face: BlockFace,
    scene: Scene,
)
    requires
        quads(acc, n),
    ensures
        quads(
            mesh_step(acc, pos, model, element, face, scene),
            if element.faces.contains_key(face) && !should_cull(
                pos,
                element,
                face,
                element.faces[face].cullface,
                scene.blocks,
                scene.models,
            ) {
                n + 1
            } else {
                n
            },
        ),
{
    let quad = face_quad(
        pos,
        element,
        face,
        atlas_rect(model.textures, element.faces[face].texture@, scene.atlas),
    );
    assert(quads(quad, 1));
    lemma_merge_quads(acc, n, quad, 1);
}

/// The mesh of a model of one element that has all six faces, of which the
/// one at the place `hidden` is hidden and no other: after the first `d`
/// faces it has a quad for each of them but the hidden one.
pub proof fn lemma_one_element_quads(
    pos: IVec3,
    model: ModelView,
    scene: Scene,
    hidden: int,
    d: int,
)
    requires
        model.elements is Some,
        model.elements->0.len() == 1,
        0 <= d <= 6,
        forall|i: int|
            0 <= i < 6 ==> model.elements->0[0].faces.contains_key(#[trigger] BlockFace::nth(i)),
        forall|i: int|
            0 <= i < 6 ==> (should_cull(
                pos,
                model.elements->0[0],
                #[trigger] BlockFace::nth(i),
                model.elements->0[0].faces[BlockFace::nth(i)].cullface,
                scene.blocks,
                scene.models,
            ) <==> i == hidden),
    ensures
        quads(
            mesh_upto(pos, model, 0, d, scene),
            if 0 <= hidden < d {
                d - 1
            } else {
                d
            },
        ),
    decreases d,
{
    if d > 0 {
        lemma_one_element_quads(pos, model, scene, hidden, d - 1);
        let before = mesh_upto(pos, model, 0, d - 1, scene);
        let n = if 0 <= hidden < d - 1 {
            d - 2
        } else {
            d - 1
        };
        let face = BlockFace::nth(d - 1);
        assert(model.elements->0[0].faces.contains_key(face));
        lemma_step_quads(before, n, pos, model, model.elements->0[0], face, scene);
    }
}

/// A mesh only grows: what stands after fewer elements and faces has no
/// more vertices than what stands after more.
pub proof fn lemma_mesh_grows(
    pos: IVec3,
    model: ModelView,
    k: int,
    d: int,
    k2: int,
    d2: int,
    scene: Scene,
)
    requires
        model.elements is Some,
        0 <= k <= k2 <= model.elements->0.len(),
        0 <= d <= 6,
        0 <= d2 <= 6,
        k < k2 || d <= d2,
        k2 == model.elements->0.len() ==> d2 == 0,
        k == model.elements->0.len() ==> d == 0,
    ensures
        mesh_upto(pos, model, k, d, scene).positions.len() <= mesh_upto(
            pos,
            model,
            k2,
            d2,
            scene,
        ).positions.len(),
    decreases k2, d2,
{
    if k == k2 && d == d2 {
    } else if d2 > 0 {
        lemma_mesh_grows(pos, model, k, d, k2, d2 - 1, scene);
    } else {
        lemma_mesh_grows(pos, model, k, d, k2 - 1, 6, scene);
    }
}

/// The texture coordinates of the four corners of a quad that shows the
/// rectangle `uv` of a texture which lies at `rect` in the atlas.
pub fn quad_uvs(rect: Rect, uv: [i8; 4]) -> (r: [[Ratio; 2]; 4])
    ensures
        r@ == face_uvs(rect, uv),
{
    let u1 = interpolate(rect.min.x, rect.max.x, rect.size.x, uv[0]);
    let v1 = interpolate(rect.min.y, rect.max.y, rect.size.y, uv[1]);
    let u2 = interpolate(rect.min.x, rect.max.x, rect.size.x, uv[2]);
    let v2 = interpolate(rect.min.y, rect.max.y, rect.size.y, uv[3]);
    let r = [[u1, v1], [u2, v1], [u2, v2], [u1, v2]];
    assert(r@ =~= face_uvs(rect, uv));
    r
}

/// The corner `corner` of a block's model as a position of the world, for
/// the block at `pos`.
pub fn world_corner(corner: [i64; 3], pos: IVec3) -> (r: [i64; 3])
    requires
        i64::MIN <= corner[0] + 16 * pos.x <= i64::MAX,
        i64::MIN <= corner[1] + 16 * pos.y <= i64::MAX,
        i64::MIN <= corner[2] + 16 * pos.z <= i64::MAX,
    ensures
        r == shifted(corner, pos),
{
    [
        corner[0] + 16 * (pos.x as i64),
        corner[1] + 16 * (pos.y as i64),
        corner[2] + 16 * (pos.z as i64),
    ]
}

impl Model {
    /// Where the texture `texture` of a face of this model lies in `atlas`;
    /// the empty rectangle where the atlas does not hold it.
    pub fn texture_rect(&self, texture: &Texture, atlas: &AppTextureAtlas) -> (r: Rect)
        ensures
            r == atlas_rect(self@.textures, texture@, *atlas),
    {
        let image: Option<&Texture> = match texture.reference() {
            Some(key) => match &self.textures {
                Some(textures) => textures.texture_path(key),
                None => None,
            },
            None => Some(texture),
        };
        match image {
            Some(image) => match TextureId::from_texture(image) {
                Ok(id) => match atlas.uv(&id) {
                    Some(rect) => rect,
                    None => Rect::new_empty(),
                },
                Err(_) => Rect::new_empty(),
            },
            None => Rect::new_empty(),
        }
    }

    /// The mesh of the block at `pos` with this model: for every element,
    /// in their order, the quads of the faces that no neighbour hides.
    /// Nothing where the model has no elements; an error where the mesh
    /// would have more vertices than a 32-bit index can count.
    pub fn vertex(
        &self,
        pos: IVec3,
        atlas: &AppTextureAtlas,
        chunk: &Chunk,
        models: &ModelManager,
    ) -> (r: Result<Option<Vertex>, MeshError>)
        requires
            self.wf(),
        ensures
            match model_mesh(
                pos,
                self@,
                Scene { atlas: *atlas, blocks: chunk.blocks(), models: models@ },
            ) {
                None => r matches Ok(None),
                Some(mesh) => if mesh.positions.len() <= u32::MAX {
                    r matches Ok(Some(vertex)) && vertex@ == mesh && vertex@.wf()
                } else {
                    r matches Err(MeshError::TooManyVertices)
                },
            },
    {
        let elements = match &self.elements {
            Some(elements) => elements,
            None => {
                return Ok(None);
            },
        };
        if elements.len() == 0 {
            return Ok(None);
        }
        let ghost scene = Scene { atlas: *atlas, blocks: chunk.blocks(), models: models@ };
        let ghost views = element_views(elements@);
        assert(self@.elements == Some(views));
        let faces = BlockFace::all();
        let mut out = Vertex::default();
        let mut k: usize = 0;
        while k < elements.len()
            invariant
                k <= elements.len(),
                self.wf(),
                self.elements == Some(*elements),
                views == element_views(elements@),
                scene == (Scene { atlas: *atlas, blocks: chunk.blocks(), models: models@ }),
                forall|i: int| 0 <= i < 6 ==> #[trigger] faces[i] == BlockFace::nth(i),
                out@ == mesh_upto(pos, self@, k as int, 0, scene),
                out@.wf(),
                out.positions.len() <= u32::MAX,
            decreases elements.len() - k,
        {
            let element = &elements[k];
            assert((self@.elements->0)[k as int].wf());
            let min = element.min();
            let max = element.max();
            let mut d: usize = 0;
            while d < 6
                invariant
                    d <= 6,
                    k < elements.len(),
                    self.wf(),
                    self.elements == Some(*elements),
                    views == element_views(elements@),
                    element == &elements[k as int],
                    element@.wf(),
                    min == widen(element.from),
                    max == widen(element.to),
                    scene == (Scene { atlas: *atlas, blocks: chunk.blocks(), models: models@ }),
                    forall|i: int| 0 <= i < 6 ==> #[trigger] faces[i] == BlockFace::nth(i),
                    out@ == mesh_upto(pos, self@, k as int, d as int, scene),
                    out@.wf(),
                    out.positions.len() <= u32::MAX,
                decreases 6 - d,
            {
                let face = faces[d];
                let ghost before = out@;
                if let Some(found) = element.faces(face) {
                    let face_data = found.data;
                    if !should_cull_face(pos, element, face, face_data, chunk, models) {
                        if out.positions.len() > (u32::MAX - 4) as usize {
                            proof {
                                lemma_mesh_grows(
                                    pos,
                                    self@,
                                    k as int,
                                    d + 1,
                                    elements.len() as int,
                                    0,
                                    scene,
                                );
                            }
                            return Err(MeshError::TooManyVertices);
                        }
                        let offset: u32 = out.positions.len() as u32;
                        let corners = face.vertex(min, max);
                        out.positions.push(world_corner(corners[0], pos));
                        out.positions.push(world_corner(corners[1], pos));
                        out.positions.push(world_corner(corners[2], pos));
                        out.positions.push(world_corner(corners[3], pos));
                        let normal = face.normal();
                        out.normals.push(normal);
                        out.normals.push(normal);
                        out.normals.push(normal);
                        out.normals.push(normal);
                        let indices = face.indice(offset);
                        out.indices.push(indices[0]);
                        out.indices.push(indices[1]);
                        out.indices.push(indices[2]);
                        out.indices.push(indices[3]);
                        out.indices.push(indices[4]);
                        out.indices.push(indices[5]);
                        let rect = self.texture_rect(&face_data.texture, atlas);
                        let uv = match face_data.uv {
                            Some(uv) => uv,
                            None => face.uv(element.from, element.to),
                        };
                        let uvs = quad_uvs(rect, uv);
                        out.uvs.push(uvs[0]);
                        out.uvs.push(uvs[1]);
                        out.uvs.push(uvs[2]);
                        out.uvs.push(uvs[3]);
                        proof {
                            let quad = face_quad(pos, element@, face, rect);
                            assert(out@.positions =~= before.merge(quad).positions);
                            assert(out@.normals =~= before.merge(quad).normals);
                            assert(out@.uvs =~= before.merge(quad).uvs);
                            assert(out@.indices =~= before.merge(quad).indices);
                        }
                    }
                }
                d += 1;
            }
            k += 1;
        }
        Ok(Some(out))
    }
}

} // verus!
