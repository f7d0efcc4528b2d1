use bevy_craft::assets::models::element::BlockFace;
use bevy_craft::chunk::{BlockData, Chunk, IVec2, IVec3, CHUNK_SIZE};
use bevy_craft::identity::block_id::BlockId;

#[test]
fn chunk_test_chunk_pos() {
    let mut chunk = Chunk::default();
    chunk.data.insert(
        IVec3::new(0, 0, 0),
        BlockData {
            id: BlockId(String::new()),
        },
    );
    assert_eq!(chunk.position(), Some(IVec2::new(0, 0)));

    let mut chunk = Chunk::default();
    chunk.data.insert(
        IVec3::new(1, 0, 15),
        BlockData {
            id: BlockId(String::new()),
        },
    );
    assert_eq!(chunk.position(), Some(IVec2::new(0, 0)));

    let mut chunk = Chunk::default();
    chunk.data.insert(
        IVec3::new(16, 0, 16),
        BlockData {
            id: BlockId(String::new()),
        },
    );
    assert_eq!(chunk.position(), Some(IVec2::new(1, 1)));

    let mut chunk = Chunk::default();
    chunk.data.insert(
        IVec3::new(9, 0, 10),
        BlockData {
            id: BlockId(String::new()),
        },
    );
    assert_eq!(chunk.position(), Some(IVec2::new(0, 0)));

    let mut chunk = Chunk::default();
    chunk.data.insert(
        IVec3::new(-9, 0, 10),
        BlockData {
            id: BlockId(String::new()),
        },
    );
    assert_eq!(chunk.position(), Some(IVec2::new(-1, 0)));

    let mut chunk = Chunk::default();
    chunk.data.insert(
        IVec3::new(-16, 0, -10),
        BlockData {
            id: BlockId(String::new()),
        },
    );
    assert_eq!(chunk.position(), Some(IVec2::new(-1, -1)));

    let mut chunk = Chunk::default();
    chunk.data.insert(
        IVec3::new(-17, 0, -17),
        BlockData {
            id: BlockId(String::new()),
        },
    );
    assert_eq!(chunk.position(), Some(IVec2::new(-2, -2)));
}

#[test]
fn chunk_without_blocks_has_no_position() {
    assert_eq!(CHUNK_SIZE, 16);
    assert_eq!(Chunk::default().position(), None);
}

#[test]
fn chunk_position_of_many_blocks() {
    let mut chunk = Chunk::default();
    for x in 32..48 {
        for z in -16..0 {
            chunk.data.insert(
                IVec3::new(x, 5, z),
                BlockData {
                    id: BlockId("bevy_craft:block/dirt".to_string()),
                },
            );
        }
    }
    assert_eq!(chunk.position(), Some(IVec2::new(2, -1)));
}

#[test]
fn chunk_opposite_is_the_neighbour() {
    let mut chunk = Chunk::default();
    chunk.data.insert(
        IVec3::new(0, 0, 0),
        BlockData {
            id: BlockId("bevy_craft:block/dirt".to_string()),
        },
    );
    chunk.data.insert(
        IVec3::new(0, 1, 0),
        BlockData {
            id: BlockId("bevy_craft:block/grass".to_string()),
        },
    );
    assert_eq!(
        chunk
            .opposite(IVec3::new(0, 0, 0), BlockFace::Up)
            .map(|block| block.id.0.as_str()),
        Some("bevy_craft:block/grass")
    );
    assert_eq!(
        chunk
            .opposite(IVec3::new(0, 1, 0), BlockFace::Down)
            .map(|block| block.id.0.as_str()),
        Some("bevy_craft:block/dirt")
    );
    assert!(chunk.opposite(IVec3::new(0, 0, 0), BlockFace::Down).is_none());
    assert!(chunk.opposite(IVec3::new(0, 0, 0), BlockFace::East).is_none());
    assert!(chunk
        .opposite(IVec3::new(0, i32::MAX, 0), BlockFace::Up)
        .is_none());
    assert!(chunk.opposite(IVec3::new(5, 5, 5), BlockFace::West).is_none());
}

#[test]
fn chunk_insert_replaces_the_block() {
    let mut chunk = Chunk::default();
    chunk.insert(
        IVec3::new(1, 2, 3),
        BlockData {
            id: BlockId("bevy_craft:block/dirt".to_string()),
        },
    );
    chunk.insert(
        IVec3::new(1, 2, 4),
        BlockData {
            id: BlockId("bevy_craft:block/stone".to_string()),
        },
    );
    chunk.insert(
        IVec3::new(1, 2, 3),
        BlockData {
            id: BlockId("bevy_craft:block/sand".to_string()),
        },
    );
    assert_eq!(chunk.data.len(), 2);
    assert_eq!(
        chunk.data[&IVec3::new(1, 2, 3)].id,
        BlockId("bevy_craft:block/sand".to_string())
    );
    assert_eq!(
        chunk.data[&IVec3::new(1, 2, 4)].id,
        BlockId("bevy_craft:block/stone".to_string())
    );
}

#[test]
fn chunk_fill_column() {
    let mut chunk = Chunk::default();
    let dirt = BlockId("bevy_craft:block/dirt".to_string());
    let stone = BlockId("bevy_craft:block/stone".to_string());
    chunk.insert(IVec3::new(3, 1, 4), BlockData { id: stone.clone() });
    chunk.insert(IVec3::new(3, 9, 4), BlockData { id: stone.clone() });
    chunk.insert(IVec3::new(0, 0, 0), BlockData { id: stone.clone() });

    chunk.fill_column(3, 4, 2, &dirt);
    assert_eq!(chunk.data.len(), 5);
    for y in 0..=2 {
        assert_eq!(chunk.data[&IVec3::new(3, y, 4)].id, dirt);
    }
    assert_eq!(chunk.data[&IVec3::new(3, 9, 4)].id, stone);
    assert_eq!(chunk.data[&IVec3::new(0, 0, 0)].id, stone);
    assert!(!chunk.data.contains_key(&IVec3::new(3, 3, 4)));

    chunk.fill_column(7, 7, 0, &dirt);
    assert_eq!(chunk.data.len(), 6);
    assert_eq!(chunk.data[&IVec3::new(7, 0, 7)].id, dirt);

    chunk.fill_column(8, 8, -1, &dirt);
    chunk.fill_column(8, 8, i32::MIN, &dirt);
    assert_eq!(chunk.data.len(), 6);
}
