use bevy::platform::collections::HashMap;
use bevy_craft::assets::textures::atlas::{
    atlas_step, AppTextureAtlas, AtlasStep, PackOutcome, Placement, Rect, URect, UVec2,
    ATLAS_SIZE_CAP, DEFAULT_ATLAS_MAX_SIZE,
};
use bevy_craft::assets::textures::texture::{Texture, Textures};
use bevy_craft::identity::texture_id::TextureId;

fn table(entries: &[(&str, &str)]) -> Textures {
    let mut variables = HashMap::new();
    for (name, texture) in entries {
        variables.insert(name.to_string(), Texture(texture.to_string()));
    }
    Textures::from(variables)
}

#[test]
fn texture_location_and_reference() {
    let literal = Texture("bevy_craft:block/dirt".to_string());
    assert_eq!(literal.location(), Some("bevy_craft:block/dirt"));
    assert_eq!(literal.reference(), None);

    let variable = Texture("#top".to_string());
    assert_eq!(variable.location(), None);
    assert_eq!(variable.reference(), Some("top"));

    let empty = Texture(String::new());
    assert_eq!(empty.location(), Some(""));
    assert_eq!(empty.reference(), None);

    let mark = Texture("#".to_string());
    assert_eq!(mark.location(), None);
    assert_eq!(mark.reference(), Some(""));
}

#[test]
fn texture_from_str_and_string() {
    assert_eq!(Texture::from("#all"), Texture("#all".to_string()));
    assert_eq!(
        Texture::from("block/dirt".to_string()),
        Texture("block/dirt".to_string())
    );
}

#[test]
fn texture_resolve_takes_one_step() {
    let substitutions = table(&[("top", "block/grass_top"), ("side", "#top")]);
    assert_eq!(
        Texture("#top".to_string()).resolve(&substitutions),
        Some("block/grass_top")
    );
    assert_eq!(
        Texture("#side".to_string()).resolve(&substitutions),
        Some("#top")
    );
    assert_eq!(Texture("#bottom".to_string()).resolve(&substitutions), None);
    assert_eq!(Texture("block/dirt".to_string()).resolve(&substitutions), None);
}

#[test]
fn textures_get_insert_len() {
    let mut textures = table(&[("top", "block/grass_top")]);
    assert_eq!(textures.len(), 1);
    assert_eq!(
        textures.get("top"),
        Some(&Texture("block/grass_top".to_string()))
    );
    assert_eq!(textures.get("side"), None);

    textures.insert("side".to_string(), Texture("block/grass_side".to_string()));
    assert_eq!(textures.len(), 2);
    assert_eq!(
        textures.get("side"),
        Some(&Texture("block/grass_side".to_string()))
    );

    textures.insert("top".to_string(), Texture("block/snow".to_string()));
    assert_eq!(textures.len(), 2);
    assert_eq!(textures.get("top"), Some(&Texture("block/snow".to_string())));
}

#[test]
fn textures_clone_holds_the_same() {
    let textures = table(&[("top", "block/grass_top"), ("side", "#top")]);
    let copy = textures.clone();
    assert_eq!(copy.len(), 2);
    assert_eq!(copy.get("top"), Some(&Texture("block/grass_top".to_string())));
    assert_eq!(copy.get("side"), Some(&Texture("#top".to_string())));
    assert_eq!(copy.get("bottom"), None);
}

#[test]
fn textures_merge_keeps_own_entries() {
    let mut child = table(&[("top", "block/grass_top"), ("side", "block/grass_side")]);
    let parent = table(&[("top", "block/stone"), ("particle", "#side")]);
    child.merge(parent);
    assert_eq!(child.len(), 3);
    assert_eq!(child.get("top"), Some(&Texture("block/grass_top".to_string())));
    assert_eq!(
        child.get("side"),
        Some(&Texture("block/grass_side".to_string()))
    );
    assert_eq!(child.get("particle"), Some(&Texture("#side".to_string())));
}

#[test]
fn textures_merge_with_nothing() {
    let mut child = table(&[("top", "block/grass_top")]);
    child.merge(table(&[]));
    assert_eq!(child.len(), 1);
    assert_eq!(child.get("top"), Some(&Texture("block/grass_top".to_string())));

    let mut empty = table(&[]);
    empty.merge(table(&[("top", "block/stone")]));
    assert_eq!(empty.len(), 1);
    assert_eq!(empty.get("top"), Some(&Texture("block/stone".to_string())));
}

#[test]
fn textures_resolve_replaces_known_variables() {
    let mut textures = table(&[
        ("down", "#bottom"),
        ("up", "#top"),
        ("north", "#side"),
        ("particle", "block/dirt"),
    ]);
    let other = table(&[("bottom", "block/dirt"), ("top", "block/grass_top")]);
    textures.resolve(&other);
    assert_eq!(textures.len(), 4);
    assert_eq!(textures.get("down"), Some(&Texture("block/dirt".to_string())));
    assert_eq!(
        textures.get("up"),
        Some(&Texture("block/grass_top".to_string()))
    );
    assert_eq!(textures.get("north"), Some(&Texture("#side".to_string())));
    assert_eq!(
        textures.get("particle"),
        Some(&Texture("block/dirt".to_string()))
    );
}

#[test]
fn texture_path_follows_variables() {
    let textures = table(&[
        ("down", "#bottom"),
        ("bottom", "#soil"),
        ("soil", "block/dirt"),
        ("up", "block/grass_top"),
        ("lost", "#nowhere"),
    ]);
    assert_eq!(
        textures.texture_path("down"),
        Some(&Texture("block/dirt".to_string()))
    );
    assert_eq!(
        textures.texture_path("bottom"),
        Some(&Texture("block/dirt".to_string()))
    );
    assert_eq!(
        textures.texture_path("up"),
        Some(&Texture("block/grass_top".to_string()))
    );
    assert_eq!(textures.texture_path("lost"), None);
    assert_eq!(textures.texture_path("nowhere"), None);
}

#[test]
fn texture_path_of_a_circle_is_nothing() {
    let textures = table(&[("a", "#b"), ("b", "#c"), ("c", "#a"), ("d", "#d")]);
    assert_eq!(textures.texture_path("a"), None);
    assert_eq!(textures.texture_path("b"), None);
    assert_eq!(textures.texture_path("d"), None);
}

#[test]
fn texture_path_of_the_longest_chain() {
    let textures = table(&[("a", "#b"), ("b", "#c"), ("c", "#d"), ("d", "block/end")]);
    assert_eq!(
        textures.texture_path("a"),
        Some(&Texture("block/end".to_string()))
    );
}

fn atlas() -> AppTextureAtlas {
    AppTextureAtlas::new(
        UVec2 { x: 512, y: 512 },
        vec![
            Placement {
                id: TextureId("bevy_craft:block/dirt".to_string()),
                rect: URect {
                    min: UVec2 { x: 0, y: 0 },
                    max: UVec2 { x: 64, y: 64 },
                },
            },
            Placement {
                id: TextureId("bevy_craft:block/stone".to_string()),
                rect: URect {
                    min: UVec2 { x: 66, y: 0 },
                    max: UVec2 { x: 82, y: 16 },
                },
            },
            Placement {
                id: TextureId("bevy_craft:block/dirt".to_string()),
                rect: URect {
                    min: UVec2 { x: 100, y: 100 },
                    max: UVec2 { x: 116, y: 116 },
                },
            },
        ],
    )
}

#[test]
fn atlas_uv_of_a_placed_texture() {
    let atlas = atlas();
    assert_eq!(atlas.size(), UVec2 { x: 512, y: 512 });
    assert_eq!(
        atlas.uv(&TextureId("bevy_craft:block/stone".to_string())),
        Some(Rect {
            min: UVec2 { x: 66, y: 0 },
            max: UVec2 { x: 82, y: 16 },
            size: UVec2 { x: 512, y: 512 },
        })
    );
    assert_eq!(
        atlas.pixels(&TextureId("bevy_craft:block/stone".to_string())),
        Some(URect {
            min: UVec2 { x: 66, y: 0 },
            max: UVec2 { x: 82, y: 16 },
        })
    );
}

#[test]
fn atlas_uv_takes_the_first_place() {
    let atlas = atlas();
    assert_eq!(
        atlas.uv(&TextureId("bevy_craft:block/dirt".to_string())),
        Some(Rect {
            min: UVec2 { x: 0, y: 0 },
            max: UVec2 { x: 64, y: 64 },
            size: UVec2 { x: 512, y: 512 },
        })
    );
}

#[test]
fn atlas_uv_of_a_missing_texture() {
    let atlas = atlas();
    assert_eq!(atlas.uv(&TextureId("bevy_craft:block/sand".to_string())), None);
    assert_eq!(
        Rect::new_empty(),
        Rect {
            min: UVec2 { x: 0, y: 0 },
            max: UVec2 { x: 0, y: 0 },
            size: UVec2 { x: 1, y: 1 },
        }
    );
}

#[test]
fn atlas_grows_by_doubling_up_to_the_cap() {
    assert_eq!(DEFAULT_ATLAS_MAX_SIZE, 2048);
    assert_eq!(ATLAS_SIZE_CAP, 16384);
    assert_eq!(atlas_step(2048, PackOutcome::Packed), AtlasStep::Done);
    assert_eq!(
        atlas_step(2048, PackOutcome::NotEnoughSpace),
        AtlasStep::Retry(4096)
    );
    assert_eq!(
        atlas_step(8192, PackOutcome::NotEnoughSpace),
        AtlasStep::Retry(16384)
    );
    assert_eq!(
        atlas_step(16384, PackOutcome::NotEnoughSpace),
        AtlasStep::OutOfSpace
    );
    assert_eq!(
        atlas_step(8193, PackOutcome::NotEnoughSpace),
        AtlasStep::OutOfSpace
    );
    assert_eq!(
        atlas_step(u32::MAX, PackOutcome::NotEnoughSpace),
        AtlasStep::OutOfSpace
    );
    assert_eq!(
        atlas_step(2048, PackOutcome::WrongFormat),
        AtlasStep::Incompatible
    );
}

#[test]
fn atlas_check() {
    assert!(atlas().check());
    assert!(AppTextureAtlas::new(UVec2 { x: 1, y: 1 }, vec![]).check());
    assert!(!AppTextureAtlas::new(UVec2 { x: 0, y: 16 }, vec![]).check());
    assert!(!AppTextureAtlas::new(UVec2 { x: 16, y: 0 }, vec![]).check());
    let place = |min: (u32, u32), max: (u32, u32)| {
        AppTextureAtlas::new(
            UVec2 { x: 64, y: 32 },
            vec![
                Placement {
                    id: TextureId("bevy_craft:block/a".to_string()),
                    rect: URect {
                        min: UVec2 { x: 0, y: 0 },
                        max: UVec2 { x: 64, y: 32 },
                    },
                },
                Placement {
                    id: TextureId("bevy_craft:block/b".to_string()),
                    rect: URect {
                        min: UVec2 { x: min.0, y: min.1 },
                        max: UVec2 { x: max.0, y: max.1 },
                    },
                },
            ],
        )
    };
    assert!(place((0, 0), (0, 0)).check());
    assert!(place((16, 16), (32, 32)).check());
    assert!(!place((16, 16), (65, 32)).check());
    assert!(!place((16, 16), (32, 33)).check());
    assert!(!place((33, 16), (32, 32)).check());
    assert!(!place((16, 32), (32, 31)).check());
}
