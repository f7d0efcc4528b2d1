//! A block model: elements, texture variables, and the model it inherits
//! from.

use vstd::prelude::*;
use vstd::string::*;
use crate::assets::models::element::{BlockFace, Element, ElementView};
use crate::assets::models::face::Face;
use crate::assets::textures::texture::Textures;

verus! {

/// A block model as it is read: every part may be missing.
#[derive(Debug)]
pub struct Model {
    /// The model that this one inherits from, as it is written.
    pub parent: Option<String>,
    /// The texture variables.
    pub textures: Option<Textures>,
    /// The cuboids that make up the block.
    pub elements: Option<Vec<Element>>,
}

/// A model as a value.
pub struct ModelView {
    pub parent: Option<Seq<char>>,
    pub textures: Option<Map<Seq<char>, Seq<char>>>,
    pub elements: Option<Seq<ElementView>>,
}

/// The values of the elements `elements`.
pub open spec fn element_views(elements: Seq<Element>) -> Seq<ElementView> {
    elements.map_values(|e: Element| e@)
}

impl View for Model {
    type V = ModelView;

    open spec fn view(&self) -> ModelView {
        ModelView {
            parent: match self.parent {
                Some(parent) => Some(parent@),
                None => None,
            },
            textures: match self.textures {
                Some(textures) => Some(textures@),
                None => None,
            },
            elements: match self.elements {
                Some(elements) => Some(element_views(elements@)),
                None => None,
            },
        }
    }
}

impl ModelView {
    /// Every element is well formed.
    pub open spec fn wf(self) -> bool {
        match self.elements {
            Some(elements) => forall|i: int|
                0 <= i < elements.len() ==> (#[trigger] elements[i]).wf(),
            None => true,
        }
    }

    /// The model `self` with what it inherits from `parent`: the parent's
    /// own parent; the texture variables of both, those of `self` first; the
    /// elements of `self`, then those of `parent`.
    pub open spec fn inherit(self, parent: ModelView) -> ModelView {
        ModelView {
            parent: parent.parent,
            textures: match (self.textures, parent.textures) {
                (Some(own), Some(inherited)) => Some(inherited.union_prefer_right(own)),
                (None, Some(inherited)) => Some(inherited),
                (own, None) => own,
            },
            elements: match (self.elements, parent.elements) {
                (Some(own), Some(inherited)) => Some(own + inherited),
                (None, Some(inherited)) => Some(inherited),
                (own, None) => own,
            },
        }
    }
}

/// The faces on the side `face` of those of `elements` that have one, in the
/// order of the elements.
pub open spec fn faces_on(elements: Seq<Element>, face: BlockFace) -> Seq<Face<'static>>
    decreases elements.len(),
{
    if elements.len() == 0 {
        Seq::empty()
    } else {
        let last = elements.last();
        let before = faces_on(elements.drop_last(), face);
        if last@.faces.contains_key(face) {
            before.push(
                Face { from: last.from, to: last.to, face, data: &last@.faces[face] },
            )
        } else {
            before
        }
    }
}

impl Clone for Model {
    fn clone(&self) -> (r: Self)
        ensures
            r@ == self@,
    {
        let parent = match &self.parent {
            Some(parent) => Some(parent.clone()),
            None => None,
        };
        let textures = match &self.textures {
            Some(textures) => Some(textures.clone()),
            None => None,
        };
        let elements = match &self.elements {
            Some(elements) => {
                let mut copy: Vec<Element> = Vec::new();
                let mut i: usize = 0;
                while i < elements.len()
                    invariant
                        i <= elements.len(),
                        copy.len() == i,
                        element_views(copy@) == element_views(elements@).take(i as int),
                    decreases elements.len() - i,
                {
                    let ghost before = copy@;
                    copy.push(elements[i].clone());
                    assert forall|j: int| 0 <= j < i + 1 implies element_views(copy@)[j]
                        == element_views(elements@).take(i + 1)[j] by {
                        if j < i {
                            assert(element_views(before)[j] == element_views(elements@).take(
                                i as int,
                            )[j]);
                        }
                    }
                    assert(element_views(copy@) =~= element_views(elements@).take(i + 1));
                    i += 1;
                }
                assert(element_views(copy@) =~= element_views(elements@));
                Some(copy)
            },
            None => None,
        };
        Model { parent, textures, elements }
    }
}

impl Model {
    /// Every element is well formed.
    pub open spec fn wf(&self) -> bool {
        self@.wf()
    }

    /// Whether every element is well formed.
    pub fn check(&self) -> (r: bool)
        ensures
            r == self.wf(),
    {
        match &self.elements {
            Some(elements) => {
                let mut i: usize = 0;
                while i < elements.len()
                    invariant
                        i <= elements.len(),
                        self.elements == Some(*elements),
                        forall|j: int| 0 <= j < i ==> (#[trigger] elements@[j]).wf(),
                    decreases elements.len() - i,
                {
                    if !elements[i].check() {
                        assert(!(self@.elements->0)[i as int].wf());
                        return false;
                    }
                    i += 1;
                }
                assert forall|j: int| 0 <= j < element_views(elements@).len() implies (
                #[trigger] element_views(elements@)[j]).wf() by {
                    assert(elements@[j].wf());
                }
                true
            },
            None => true,
        }
    }

    /// Lets the model inherit from `other`: it takes the parent of `other`,
    /// the texture variables of `other` that it does not hold itself, and
    /// the elements of `other` after its own.
    pub fn merge(&mut self, other: Self)
        ensures
            final(self)@ == old(self)@.inherit(other@),
    {
        let Model { parent, textures, elements } = other;
        self.parent = parent;
        if let Some(inherited) = textures {
            match self.textures.take() {
                Some(mut own) => {
                    own.merge(inherited);
                    self.textures = Some(own);
                },
                None => {
                    self.textures = Some(inherited);
                },
            }
        }
        if let Some(mut inherited) = elements {
            match self.elements.take() {
                Some(mut own) => {
                    let ghost before = own@;
                    let ghost added = inherited@;
                    own.append(&mut inherited);
                    assert(element_views(own@) =~= element_views(before) + element_views(added));
                    self.elements = Some(own);
                },
                None => {
                    self.elements = Some(inherited);
                },
            }
        }
    }

    /// The faces on the side `face` of the elements that have one, in the
    /// order of the elements; nothing where the model has no elements.
    pub fn faces(&self, face: BlockFace) -> (r: Option<Vec<Face<'_>>>)
        ensures
            match self.elements {
                Some(elements) => r matches Some(found) && found@ == faces_on(elements@, face),
                None => r is None,
            },
    {
        match &self.elements {
            Some(elements) => {
                let mut found: Vec<Face<'_>> = Vec::new();
                let mut i: usize = 0;
                while i < elements.len()
                    invariant
                        i <= elements.len(),
                        found@ == faces_on(elements@.take(i as int), face),
                    decreases elements.len() - i,
                {
                    assert(elements@.take(i + 1).drop_last() =~= elements@.take(i as int));
                    if let Some(one) = elements[i].faces(face) {
                        found.push(one);
                    }
                    i += 1;
                }
                assert(elements@.take(i as int) =~= elements@);
                Some(found)
            },
            None => None,
        }
    }
}

} // verus!
