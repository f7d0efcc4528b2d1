//! The texture atlas: where in one large image each texture lies.

use vstd::prelude::*;
use crate::identity::texture_id::TextureId;

verus! {

/// The size that the atlas is first packed into, in pixels a side.
pub const DEFAULT_ATLAS_MAX_SIZE: u32 = 2048;

/// The largest size that the atlas is packed into, in pixels a side.
pub const ATLAS_SIZE_CAP: u32 = 16384;

/// A point of the atlas, or a size, in pixels.
#[derive(Clone, Copy, Debug, Default, PartialEq, Eq, Hash, Structural)]
pub struct UVec2 {
    pub x: u32,
    pub y: u32,
}

/// A rectangle of the atlas, in pixels.
#[derive(Clone, Copy, Debug, Default, PartialEq, Eq, Hash, Structural)]
pub struct URect {
    pub min: UVec2,
    pub max: UVec2,
}

/// A rectangle of the atlas in fractions of the atlas: from
/// `(min.x / size.x, min.y / size.y)` to `(max.x / size.x, max.y / size.y)`.
#[derive(Clone, Copy, Debug, PartialEq, Eq, Hash, Structural)]
pub struct Rect {
    pub min: UVec2,
    pub max: UVec2,
    pub size: UVec2,
}

impl URect {
    /// The rectangle lies in an atlas of the size `size`, its lower corner
    /// not beyond its upper corner.
    pub open spec fn within(self, size: UVec2) -> bool {
        &&& self.min.x <= self.max.x <= size.x
        &&& self.min.y <= self.max.y <= size.y
    }
}

impl Rect {
    /// The rectangle lies in the unit square: the size is above 0, and no
    /// coordinate is beyond the size, the lower corner not beyond the upper
    /// corner.
    pub open spec fn wf(self) -> bool {
        &&& self.size.x > 0
        &&& self.size.y > 0
        &&& self.min.x <= self.max.x <= self.size.x
        &&& self.min.y <= self.max.y <= self.size.y
    }

    /// The rectangle without extent at the origin, which stands for a
    /// texture that the atlas does not hold.
    pub open spec fn empty() -> Rect {
        Rect {
            min: UVec2 { x: 0, y: 0 },
            max: UVec2 { x: 0, y: 0 },
            size: UVec2 { x: 1, y: 1 },
        }
    }

    /// The rectangle that stands for a texture that the atlas does not hold.
    pub fn new_empty() -> (r: Rect)
        ensures
            r == Rect::empty(),
            r.wf(),
    {
        Rect { min: UVec2 { x: 0, y: 0 }, max: UVec2 { x: 0, y: 0 }, size: UVec2 { x: 1, y: 1 } }
    }
}

/// Where one texture lies in the atlas.
#[derive(Debug)]
pub struct Placement {
    pub id: TextureId,
    pub rect: URect,
}

/// The atlas: its size and the place of every texture in it.
#[derive(Debug)]
pub struct AppTextureAtlas {
    pub size: UVec2,
    pub placements: Vec<Placement>,
}

/// The rectangle of the first of `placements`, from index `from` on, that
/// places the texture `id`.
pub open spec fn first_placement(placements: Seq<Placement>, id: Seq<char>, from: int) -> Option<
    URect,
>
    decreases placements.len() - from,
{
    if from < 0 || from >= placements.len() {
        None
    } else if placements[from].id.0@ == id {
        Some(placements[from].rect)
    } else {
        first_placement(placements, id, from + 1)
    }
}

/// A place that is found is the place of one of the placements.
pub proof fn lemma_first_placement_is_placed(placements: Seq<Placement>, id: Seq<char>, from: int)
    requires
        first_placement(placements, id, from) is Some,
    ensures
        exists|i: int|
            from <= i < placements.len() && 0 <= i && (#[trigger] placements[i]).id.0@ == id
                && placements[i].rect == first_placement(placements, id, from)->0,
    decreases placements.len() - from,
{
    if placements[from].id.0@ != id {
        lemma_first_placement_is_placed(placements, id, from + 1);
    }
}

/// In a well-formed atlas every texture lies in the unit square.
pub proof fn lemma_uv_is_normalized(atlas: AppTextureAtlas, id: Seq<char>)
    requires
        atlas.wf(),
        atlas.uv_of(id) is Some,
    ensures
        atlas.uv_of(id)->0.wf(),
{
    lemma_first_placement_is_placed(atlas.placements@, id, 0);
}

impl AppTextureAtlas {
    /// An atlas of the size `size` with the textures placed as `placements`
    /// says. Where a texture is placed twice, the first place counts.
    pub fn new(size: UVec2, placements: Vec<Placement>) -> (r: Self)
        ensures
            r.size == size,
            r.placements == placements,
    {
        AppTextureAtlas { size, placements }
    }

    /// The atlas has a size above 0 and every texture lies in it, so that
    /// every place is a rectangle of the unit square when it is taken in
    /// fractions of the atlas.
    pub open spec fn wf(&self) -> bool {
        &&& self.size.x > 0
        &&& self.size.y > 0
        &&& forall|i: int|
            0 <= i < self.placements.len() ==> (#[trigger] self.placements[i]).rect.within(
                self.size,
            )
    }

    /// Whether the atlas has a size above 0 and every texture lies in it.
    pub fn check(&self) -> (r: bool)
        ensures
            r == self.wf(),
    {
        if self.size.x == 0 || self.size.y == 0 {
            return false;
        }
        let mut i: usize = 0;
        while i < self.placements.len()
            invariant
                i <= self.placements.len(),
                forall|j: int|
                    0 <= j < i ==> (#[trigger] self.placements[j]).rect.within(self.size),
            decreases self.placements.len() - i,
        {
            let rect = self.placements[i].rect;
            if !(rect.min.x <= rect.max.x && rect.max.x <= self.size.x && rect.min.y
                <= rect.max.y && rect.max.y <= self.size.y) {
                assert(!self.placements[i as int].rect.within(self.size));
                return false;
            }
            i += 1;
        }
        true
    }

    /// Where the texture `id` lies, in pixels, if the atlas holds it.
    pub open spec fn placed(&self, id: Seq<char>) -> Option<URect> {
        first_placement(self.placements@, id, 0)
    }

    /// Where the texture `id` lies, in fractions of the atlas, if the atlas
    /// holds it.
    pub open spec fn uv_of(&self, id: Seq<char>) -> Option<Rect> {
        match self.placed(id) {
            Some(rect) => Some(Rect { min: rect.min, max: rect.max, size: self.size }),
            None => None,
        }
    }

    /// Where the texture `texture_id` lies, in pixels, if the atlas holds
    /// it.
    pub fn pixels(&self, texture_id: &TextureId) -> (r: Option<URect>)
        ensures
            r == self.placed(texture_id.0@),
            self.wf() && r is Some ==> r->0.within(self.size),
    {
        let mut i: usize = 0;
        while i < self.placements.len()
            invariant
                i <= self.placements.len(),
                self.placed(texture_id.0@) == first_placement(
                    self.placements@,
                    texture_id.0@,
                    i as int,
                ),
            decreases self.placements.len() - i,
        {
            if self.placements[i].id.0 == texture_id.0 {
                return Some(self.placements[i].rect);
            }
            i += 1;
        }
        None
    }

    /// Where the texture `texture_id` lies, in fractions of the atlas, if
    /// the atlas holds it.
    pub fn uv(&self, texture_id: &TextureId) -> (r: Option<Rect>)
        ensures
            r == self.uv_of(texture_id.0@),
            self.wf() && r is Some ==> r->0.wf(),
    {
        match self.pixels(texture_id) {
            Some(rect) => Some(Rect { min: rect.min, max: rect.max, size: self.size }),
            None => None,
        }
    }

    /// The size of the atlas, in pixels.
    pub fn size(&self) -> (r: UVec2)
        ensures
            r == self.size,
    {
        self.size
    }
}

/// How an attempt to pack the textures into an atlas ended.
#[derive(Clone, Copy, Debug, PartialEq, Eq, Structural)]
pub enum PackOutcome {
    /// The textures are packed.
    Packed,
    /// The textures do not fit into the size that was allowed.
    NotEnoughSpace,
    /// The textures do not have one format.
    WrongFormat,
}

/// What to do after an attempt to pack the textures.
#[derive(Clone, Copy, Debug, PartialEq, Eq, Structural)]
pub enum AtlasStep {
    /// The atlas is built.
    Done,
    /// Pack again, into this size.
    Retry(u32),
    /// Stop: the textures do not fit into the largest size.
    OutOfSpace,
    /// Stop: the textures cannot be packed into one image.
    Incompatible,
}

/// What follows on `outcome`, which an attempt to pack into `max_size` gave:
/// see `atlas_step`.
pub open spec fn next_step(max_size: u32, outcome: PackOutcome) -> AtlasStep {
    match outcome {
        PackOutcome::Packed => AtlasStep::Done,
        PackOutcome::NotEnoughSpace => if 2 * max_size <= ATLAS_SIZE_CAP {
            AtlasStep::Retry((2 * max_size) as u32)
        } else {
            AtlasStep::OutOfSpace
        },
        PackOutcome::WrongFormat => AtlasStep::Incompatible,
    }
}

/// What to do after an attempt to pack the textures into `max_size` ended
/// with `outcome`: where they did not fit, pack again into twice the size,
/// unless that is more than `ATLAS_SIZE_CAP`; where their formats differ,
/// stop.
pub fn atlas_step(max_size: u32, outcome: PackOutcome) -> (r: AtlasStep)
    ensures
        r == next_step(max_size, outcome),
{
    match outcome {
        PackOutcome::Packed => AtlasStep::Done,
        PackOutcome::NotEnoughSpace => if max_size <= ATLAS_SIZE_CAP / 2 {
            AtlasStep::Retry(2 * max_size)
        } else {
            AtlasStep::OutOfSpace
        },
        PackOutcome::WrongFormat => AtlasStep::Incompatible,
    }
}

} // verus!
