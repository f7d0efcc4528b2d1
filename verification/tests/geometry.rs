use bevy::platform::collections::HashMap;
use bevy_craft::assets::models::element::{Axis, BlockFace, Element, ElementFace};
use bevy_craft::assets::models::face::{rect, FaceAble, I8Rect, I8Vec2, Surface};
use bevy_craft::assets::textures::texture::Texture;
use bevy_craft::chunk::{chunk_coordinate, IVec3};

const FACES: [BlockFace; 6] = [
    BlockFace::Down,
    BlockFace::Up,
    BlockFace::North,
    BlockFace::South,
    BlockFace::West,
    BlockFace::East,
];

fn element(from: [i8; 3], to: [i8; 3], faces: &[BlockFace]) -> Element {
    let mut map = HashMap::new();
    for face in faces {
        map.insert(
            *face,
            ElementFace {
                uv: None,
                cullface: Some(*face),
                texture: Texture("#all".to_string()),
            },
        );
    }
    Element {
        from,
        to,
        faces: map,
    }
}

#[test]
fn faces_in_drawing_order() {
    assert_eq!(BlockFace::all(), FACES);
}

#[test]
fn normals_point_outward() {
    assert_eq!(BlockFace::Down.normal(), [0, -1, 0]);
    assert_eq!(BlockFace::Up.normal(), [0, 1, 0]);
    assert_eq!(BlockFace::North.normal(), [0, 0, -1]);
    assert_eq!(BlockFace::South.normal(), [0, 0, 1]);
    assert_eq!(BlockFace::West.normal(), [-1, 0, 0]);
    assert_eq!(BlockFace::East.normal(), [1, 0, 0]);
}

#[test]
fn opposite_faces() {
    assert_eq!(BlockFace::Down.opposite(), BlockFace::Up);
    assert_eq!(BlockFace::Up.opposite(), BlockFace::Down);
    assert_eq!(BlockFace::North.opposite(), BlockFace::South);
    assert_eq!(BlockFace::South.opposite(), BlockFace::North);
    assert_eq!(BlockFace::West.opposite(), BlockFace::East);
    assert_eq!(BlockFace::East.opposite(), BlockFace::West);
    for face in FACES {
        assert_eq!(face.opposite().opposite(), face);
    }
}

#[test]
fn axes_and_sides() {
    assert_eq!(Axis::from(BlockFace::Down), Axis::Y);
    assert_eq!(Axis::from(BlockFace::Up), Axis::Y);
    assert_eq!(Axis::from(BlockFace::North), Axis::Z);
    assert_eq!(Axis::from(BlockFace::South), Axis::Z);
    assert_eq!(Axis::from(BlockFace::West), Axis::X);
    assert_eq!(Axis::from(BlockFace::East), Axis::X);
    assert!(BlockFace::Down.is_neg_axis());
    assert!(BlockFace::North.is_neg_axis());
    assert!(BlockFace::West.is_neg_axis());
    assert!(!BlockFace::Up.is_neg_axis());
    assert!(!BlockFace::South.is_neg_axis());
    assert!(!BlockFace::East.is_neg_axis());
    assert_eq!(BlockFace::Down.default_size(), 0);
    assert_eq!(BlockFace::Up.default_size(), 16);
    assert_eq!(BlockFace::West.default_size(), 0);
    assert_eq!(BlockFace::East.default_size(), 16);
}

#[test]
fn unit_steps() {
    assert_eq!(IVec3::from(BlockFace::Down), IVec3::new(0, -1, 0));
    assert_eq!(IVec3::from(BlockFace::Up), IVec3::new(0, 1, 0));
    assert_eq!(IVec3::from(BlockFace::North), IVec3::new(0, 0, -1));
    assert_eq!(IVec3::from(BlockFace::South), IVec3::new(0, 0, 1));
    assert_eq!(IVec3::from(BlockFace::West), IVec3::new(-1, 0, 0));
    assert_eq!(IVec3::from(BlockFace::East), IVec3::new(1, 0, 0));
}

#[test]
fn neighbours() {
    let pos = IVec3::new(3, -7, 10);
    assert_eq!(pos.neighbor(BlockFace::Down), Some(IVec3::new(3, -8, 10)));
    assert_eq!(pos.neighbor(BlockFace::Up), Some(IVec3::new(3, -6, 10)));
    assert_eq!(pos.neighbor(BlockFace::North), Some(IVec3::new(3, -7, 9)));
    assert_eq!(pos.neighbor(BlockFace::South), Some(IVec3::new(3, -7, 11)));
    assert_eq!(pos.neighbor(BlockFace::West), Some(IVec3::new(2, -7, 10)));
    assert_eq!(pos.neighbor(BlockFace::East), Some(IVec3::new(4, -7, 10)));
}

#[test]
fn no_neighbour_beyond_the_world() {
    let low = IVec3::new(i32::MIN, i32::MIN, i32::MIN);
    assert_eq!(low.neighbor(BlockFace::Down), None);
    assert_eq!(low.neighbor(BlockFace::North), None);
    assert_eq!(low.neighbor(BlockFace::West), None);
    assert_eq!(
        low.neighbor(BlockFace::Up),
        Some(IVec3::new(i32::MIN, i32::MIN + 1, i32::MIN))
    );
    let high = IVec3::new(i32::MAX, i32::MAX, i32::MAX);
    assert_eq!(high.neighbor(BlockFace::Up), None);
    assert_eq!(high.neighbor(BlockFace::South), None);
    assert_eq!(high.neighbor(BlockFace::East), None);
    assert_eq!(
        high.neighbor(BlockFace::West),
        Some(IVec3::new(i32::MAX - 1, i32::MAX, i32::MAX))
    );
}

#[test]
fn chunk_coordinates_round_down() {
    assert_eq!(chunk_coordinate(0), 0);
    assert_eq!(chunk_coordinate(15), 0);
    assert_eq!(chunk_coordinate(16), 1);
    assert_eq!(chunk_coordinate(-1), -1);
    assert_eq!(chunk_coordinate(-16), -1);
    assert_eq!(chunk_coordinate(-17), -2);
    assert_eq!(chunk_coordinate(i32::MAX), 134217727);
    assert_eq!(chunk_coordinate(i32::MIN), -134217728);
}

#[test]
fn corners_of_each_face() {
    let min = [1, 2, 3];
    let max = [11, 12, 13];
    assert_eq!(
        BlockFace::Down.vertex(min, max),
        [[1, 2, 3], [11, 2, 3], [11, 2, 13], [1, 2, 13]]
    );
    assert_eq!(
        BlockFace::Up.vertex(min, max),
        [[1, 12, 3], [11, 12, 3], [11, 12, 13], [1, 12, 13]]
    );
    assert_eq!(
        BlockFace::North.vertex(min, max),
        [[11, 12, 3], [1, 12, 3], [1, 2, 3], [11, 2, 3]]
    );
    assert_eq!(
        BlockFace::South.vertex(min, max),
        [[1, 12, 13], [11, 12, 13], [11, 2, 13], [1, 2, 13]]
    );
    assert_eq!(
        BlockFace::West.vertex(min, max),
        [[1, 12, 3], [1, 12, 13], [1, 2, 13], [1, 2, 3]]
    );
    assert_eq!(
        BlockFace::East.vertex(min, max),
        [[11, 12, 13], [11, 12, 3], [11, 2, 3], [11, 2, 13]]
    );
}

#[test]
fn default_uv_of_each_face() {
    let min = [1, 2, 3];
    let max = [11, 13, 15];
    assert_eq!(BlockFace::Down.uv(min, max), [1, 1, 11, 13]);
    assert_eq!(BlockFace::Up.uv(min, max), [1, 3, 11, 15]);
    assert_eq!(BlockFace::North.uv(min, max), [5, 3, 15, 14]);
    assert_eq!(BlockFace::South.uv(min, max), [1, 3, 11, 14]);
    assert_eq!(BlockFace::West.uv(min, max), [3, 3, 15, 14]);
    assert_eq!(BlockFace::East.uv(min, max), [1, 3, 13, 14]);
}

#[test]
fn default_uv_of_a_whole_block() {
    for face in FACES {
        assert_eq!(face.uv([0, 0, 0], [16, 16, 16]), [0, 0, 16, 16]);
    }
}

#[test]
fn triangles_of_a_quad() {
    assert_eq!(BlockFace::Down.indice(0), [0, 1, 3, 1, 2, 3]);
    assert_eq!(BlockFace::Down.indice(8), [8, 9, 11, 9, 10, 11]);
    for face in [
        BlockFace::Up,
        BlockFace::North,
        BlockFace::South,
        BlockFace::West,
        BlockFace::East,
    ] {
        assert_eq!(face.indice(0), [0, 3, 1, 1, 3, 2]);
        assert_eq!(face.indice(4), [4, 7, 5, 5, 7, 6]);
    }
    assert_eq!(
        BlockFace::Up.indice(u32::MAX - 3),
        [
            u32::MAX - 3,
            u32::MAX,
            u32::MAX - 2,
            u32::MAX - 2,
            u32::MAX,
            u32::MAX - 1
        ]
    );
}

#[test]
fn rectangle_of_a_face() {
    let min = [1, 2, 3];
    let max = [11, 13, 15];
    assert_eq!(rect(BlockFace::Down, min, max), I8Rect::new(1, 3, 11, 15));
    assert_eq!(rect(BlockFace::Up, min, max), I8Rect::new(1, 3, 11, 15));
    assert_eq!(rect(BlockFace::North, min, max), I8Rect::new(1, 2, 11, 13));
    assert_eq!(rect(BlockFace::South, min, max), I8Rect::new(1, 2, 11, 13));
    assert_eq!(rect(BlockFace::West, min, max), I8Rect::new(2, 3, 13, 15));
    assert_eq!(rect(BlockFace::East, min, max), I8Rect::new(2, 3, 13, 15));
    assert_eq!(rect(BlockFace::Up, max, min), I8Rect::new(1, 3, 11, 15));
}

#[test]
fn rectangle_contains_its_border() {
    let r = I8Rect::new(2, 3, 10, 12);
    assert_eq!(r.min, I8Vec2 { x: 2, y: 3 });
    assert_eq!(r.max, I8Vec2 { x: 10, y: 12 });
    assert!(r.contains(I8Vec2 { x: 2, y: 3 }));
    assert!(r.contains(I8Vec2 { x: 10, y: 12 }));
    assert!(r.contains(I8Vec2 { x: 5, y: 5 }));
    assert!(!r.contains(I8Vec2 { x: 1, y: 5 }));
    assert!(!r.contains(I8Vec2 { x: 11, y: 5 }));
    assert!(!r.contains(I8Vec2 { x: 5, y: 2 }));
    assert!(!r.contains(I8Vec2 { x: 5, y: 13 }));
}

#[test]
fn element_bounds_and_sides() {
    let slab = element([0, 0, 0], [16, 8, 16], &FACES);
    assert_eq!(slab.from(), [0, 0, 0]);
    assert_eq!(slab.to(), [16, 8, 16]);
    assert_eq!(slab.min(), [0, 0, 0]);
    assert_eq!(slab.max(), [16, 8, 16]);
    assert_eq!(slab.axis(Axis::Y, true), 0);
    assert_eq!(slab.axis(Axis::Y, false), 8);
    assert_eq!(slab.axis(Axis::X, false), 16);
    assert_eq!(slab.axis(Axis::Z, true), 0);
    assert_eq!(slab.rect(BlockFace::Up), I8Rect::new(0, 0, 16, 16));
    assert_eq!(slab.rect(BlockFace::East), I8Rect::new(0, 0, 8, 16));
    assert!(slab.is_complete_face(BlockFace::Down));
    assert!(slab.is_complete_face(BlockFace::Up));
    assert!(!slab.is_complete_face(BlockFace::North));
    assert!(slab.is_normal_face(BlockFace::Down));
    assert!(!slab.is_normal_face(BlockFace::Up));
    assert!(slab.is_normal_face(BlockFace::North));
    assert!(slab.is_normal_face(BlockFace::South));
    assert!(slab.is_normal_face(BlockFace::West));
    assert!(slab.is_normal_face(BlockFace::East));
}

#[test]
fn element_check() {
    assert!(element([0, 0, 0], [16, 16, 16], &FACES).check());
    assert!(element([4, 4, 4], [4, 4, 4], &[]).check());
    assert!(!element([0, 0, 0], [17, 16, 16], &FACES).check());
    assert!(!element([-1, 0, 0], [16, 16, 16], &FACES).check());
    assert!(!element([8, 0, 0], [4, 16, 16], &FACES).check());
}

#[test]
fn element_faces_by_direction() {
    let post = element([6, 0, 6], [10, 16, 10], &[BlockFace::Up, BlockFace::North]);
    let up = post.faces(BlockFace::Up).unwrap();
    assert_eq!(up.from, [6, 0, 6]);
    assert_eq!(up.to, [10, 16, 10]);
    assert_eq!(up.face, BlockFace::Up);
    assert_eq!(up.data.cullface, Some(BlockFace::Up));
    assert_eq!(up.from(), [6, 0, 6]);
    assert_eq!(up.to(), [10, 16, 10]);
    assert!(up.is_normal_face(BlockFace::Up));
    assert_eq!(up.rect(BlockFace::Up), I8Rect::new(6, 6, 10, 10));
    assert!(post.faces(BlockFace::North).is_some());
    assert!(post.faces(BlockFace::Down).is_none());
    assert!(post.faces(BlockFace::East).is_none());
}

#[test]
fn element_clone_holds_the_same_faces() {
    let post = element([6, 0, 6], [10, 16, 10], &[BlockFace::Up, BlockFace::North]);
    let copy = post.clone();
    assert_eq!(copy.from, [6, 0, 6]);
    assert_eq!(copy.to, [10, 16, 10]);
    assert_eq!(copy.faces.len(), 2);
    assert_eq!(
        copy.faces(BlockFace::Up).unwrap().data.texture,
        Texture("#all".to_string())
    );
    assert!(copy.faces(BlockFace::North).is_some());
    assert!(copy.faces(BlockFace::West).is_none());
}
