//! The rectangle that a face covers, and what elements and their faces have
//! in common: bounds inside the block.

use vstd::prelude::*;
use crate::assets::models::element::{Axis, BlockFace, ElementFace};

verus! {

/// A point of a face's plane, in the units of a model.
#[derive(Clone, Copy, Debug, Default, PartialEq, Eq, Hash, Structural)]
pub struct I8Vec2 {
    pub x: i8,
    pub y: i8,
}

/// A rectangle in a face's plane, sides along the axes: from `min` to `max`.
#[derive(Clone, Copy, Debug, Default, PartialEq, Eq, Hash, Structural)]
pub struct I8Rect {
    pub min: I8Vec2,
    pub max: I8Vec2,
}

impl I8Rect {
    /// The rectangle that a whole side of a block covers.
    pub open spec fn standard() -> I8Rect {
        I8Rect { min: I8Vec2 { x: 0, y: 0 }, max: I8Vec2 { x: 16, y: 16 } }
    }

    /// The rectangle from `(x1, y1)` to `(x2, y2)`.
    #[inline]
    pub fn new(x1: i8, y1: i8, x2: i8, y2: i8) -> (r: Self)
        ensures
            r == (I8Rect { min: I8Vec2 { x: x1, y: y1 }, max: I8Vec2 { x: x2, y: y2 } }),
    {
        Self { min: I8Vec2 { x: x1, y: y1 }, max: I8Vec2 { x: x2, y: y2 } }
    }

    /// `point` lies in the rectangle, its border included.
    pub open spec fn holds(self, point: I8Vec2) -> bool {
        self.min.x <= point.x <= self.max.x && self.min.y <= point.y <= self.max.y
    }

    /// `other` lies in the rectangle: no side of it sticks out.
    pub open spec fn covers(self, other: I8Rect) -> bool {
        &&& self.min.x <= other.min.x
        &&& self.min.y <= other.min.y
        &&& self.max.x >= other.max.x
        &&& self.max.y >= other.max.y
    }

    /// Whether `point` lies in the rectangle, its border included.
    pub fn contains(&self, point: I8Vec2) -> (r: bool)
        ensures
            r == self.holds(point),
    {
        point.x >= self.min.x && point.y >= self.min.y && point.x <= self.max.x && point.y
            <= self.max.y
    }
}

/// The rectangle that the face `face` of the box from `min` to `max` covers
/// in its plane: the box's extent on the two other axes.
pub open spec fn rect_of(face: BlockFace, min: [i8; 3], max: [i8; 3]) -> I8Rect {
    let (x1, y1, x2, y2) = match face {
        BlockFace::Down | BlockFace::Up => (min[0], min[2], max[0], max[2]),
        BlockFace::North | BlockFace::South => (min[0], min[1], max[0], max[1]),
        BlockFace::West | BlockFace::East => (min[1], min[2], max[1], max[2]),
    };
    I8Rect {
        min: I8Vec2 { x: if x1 <= x2 { x1 } else { x2 }, y: if y1 <= y2 { y1 } else { y2 } },
        max: I8Vec2 { x: if x1 <= x2 { x2 } else { x1 }, y: if y1 <= y2 { y2 } else { y1 } },
    }
}

/// The coordinate of the box from `from` to `to` on `axis`: the lower one
/// where `is_neg`, else the upper one.
pub open spec fn axis_of(from: [i8; 3], to: [i8; 3], axis: Axis, is_neg: bool) -> i8 {
    match (is_neg, axis) {
        (true, Axis::X) => from[0],
        (true, Axis::Y) => from[1],
        (true, Axis::Z) => from[2],
        (false, Axis::X) => to[0],
        (false, Axis::Y) => to[1],
        (false, Axis::Z) => to[2],
    }
}

/// The side `face` of the box from `from` to `to` lies in the block's own
/// boundary on that side: at 0 for a face that looks towards smaller
/// coordinates, at 16 for the others.
pub open spec fn is_normal(from: [i8; 3], to: [i8; 3], face: BlockFace) -> bool {
    axis_of(from, to, face.axis_of(), face.looks_down_axis()) == face.boundary()
}

/// The rectangle that the face `face` of the box from `min` to `max` covers.
pub fn rect(face: BlockFace, min: [i8; 3], max: [i8; 3]) -> (r: I8Rect)
    ensures
        r == rect_of(face, min, max),
{
    let (x1, y1, x2, y2) = match face {
        BlockFace::Down | BlockFace::Up => (min[0], min[2], max[0], max[2]),
        BlockFace::North | BlockFace::South => (min[0], min[1], max[0], max[1]),
        BlockFace::West | BlockFace::East => (min[1], min[2], max[1], max[2]),
    };
    I8Rect {
        min: I8Vec2 { x: if x1 <= x2 { x1 } else { x2 }, y: if y1 <= y2 { y1 } else { y2 } },
        max: I8Vec2 { x: if x1 <= x2 { x2 } else { x1 }, y: if y1 <= y2 { y2 } else { y1 } },
    }
}

/// One face of an element, together with the element's bounds.
pub struct Face<'a> {
    pub from: [i8; 3],
    pub to: [i8; 3],
    pub face: BlockFace,
    pub data: &'a ElementFace,
}

/// What has bounds inside a block: a lower and an upper corner.
pub trait FaceAble {
    /// The lower corner.
    spec fn lower(&self) -> [i8; 3];

    /// The upper corner.
    spec fn upper(&self) -> [i8; 3];

    /// The lower corner.
    fn from(&self) -> (r: [i8; 3])
        ensures
            r == self.lower(),
    ;

    /// The upper corner.
    fn to(&self) -> (r: [i8; 3])
        ensures
            r == self.upper(),
    ;

    /// The lower corner, in sixteenths of a block.
    fn min(&self) -> (r: [i64; 3])
        ensures
            r == widen(self.lower()),
    {
        let from = self.from();
        [from[0] as i64, from[1] as i64, from[2] as i64]
    }

    /// The upper corner, in sixteenths of a block.
    fn max(&self) -> (r: [i64; 3])
        ensures
            r == widen(self.upper()),
    {
        let to = self.to();
        [to[0] as i64, to[1] as i64, to[2] as i64]
    }
}

/// The point `p` with wide coordinates.
pub open spec fn widen(p: [i8; 3]) -> [i64; 3] {
    [p[0] as i64, p[1] as i64, p[2] as i64]
}

/// The sides of what has bounds.
pub trait Surface {
    /// The rectangle that the side `face` covers.
    spec fn face_rect(&self, face: BlockFace) -> I8Rect;

    /// The side `face` lies in the block's boundary.
    spec fn normal_face(&self, face: BlockFace) -> bool;

    /// The coordinate on `axis` of the lower side, where `is_neg`, or of the
    /// upper side.
    spec fn axis_coordinate(&self, axis: Axis, is_neg: bool) -> i8;

    /// The rectangle that the side `face` covers.
    fn rect(&self, face: BlockFace) -> (r: I8Rect)
        ensures
            r == self.face_rect(face),
    ;

    /// The coordinate on `axis` of the lower side, where `is_neg`, or of the
    /// upper side.
    fn axis(&self, axis: Axis, is_neg: bool) -> (r: i8)
        ensures
            r == self.axis_coordinate(axis, is_neg),
    ;

    /// Whether the side `face` covers a whole side of the block, 16 by 16.
    fn is_complete_face(&self, face: BlockFace) -> (r: bool)
        ensures
            r == (self.face_rect(face) == I8Rect::standard()),
    ;

    /// Whether the side `face` lies in the block's boundary, at 0 or at 16.
    fn is_normal_face(&self, face: BlockFace) -> (r: bool)
        ensures
            r == self.normal_face(face),
    ;
}

impl<T: FaceAble> Surface for T {
    open spec fn face_rect(&self, face: BlockFace) -> I8Rect {
        rect_of(face, self.lower(), self.upper())
    }

    open spec fn normal_face(&self, face: BlockFace) -> bool {
        is_normal(self.lower(), self.upper(), face)
    }

    open spec fn axis_coordinate(&self, axis: Axis, is_neg: bool) -> i8 {
        axis_of(self.lower(), self.upper(), axis, is_neg)
    }

    fn rect(&self, face: BlockFace) -> (r: I8Rect) {
        rect(face, self.from(), self.to())
    }

    fn axis(&self, axis: Axis, is_neg: bool) -> (r: i8) {
        let from = self.from();
        let to = self.to();
        match (is_neg, axis) {
            (true, Axis::X) => from[0],
            (true, Axis::Y) => from[1],
            (true, Axis::Z) => from[2],
            (false, Axis::X) => to[0],
            (false, Axis::Y) => to[1],
            (false, Axis::Z) => to[2],
        }
    }

    fn is_complete_face(&self, face: BlockFace) -> (r: bool) {
        let rect = self.rect(face);
        rect.min.x == 0 && rect.min.y == 0 && rect.max.x == 16 && rect.max.y == 16
    }

    fn is_normal_face(&self, face: BlockFace) -> (r: bool) {
        self.axis(Axis::from(face), face.is_neg_axis()) == face.default_size()
    }
}

impl FaceAble for Face<'_> {
    open spec fn lower(&self) -> [i8; 3] {
        self.from
    }

    open spec fn upper(&self) -> [i8; 3] {
        self.to
    }

    fn from(&self) -> (r: [i8; 3]) {
        self.from
    }

    fn to(&self) -> (r: [i8; 3]) {
        self.to
    }
}

} // verus!
