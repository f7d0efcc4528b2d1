use bevy_craft::assets::textures::texture::Texture;
use bevy_craft::identity::block_id::BlockId;
use bevy_craft::identity::texture_id::TextureId;
use bevy_craft::identity::{Identity, IdentityError};

#[test]
fn block_id_test_parse() {
    let block_id = "bevy_craft/models/block/cube.json".parse::<BlockId>();
    assert!(block_id.is_ok());
    assert_eq!(
        block_id.unwrap(),
        BlockId(String::from("bevy_craft:block/cube"))
    );

    let block_id = "bevy_craft:block/cube".parse::<BlockId>();
    assert!(block_id.is_ok());
    assert_eq!(
        block_id.unwrap(),
        BlockId(String::from("bevy_craft:block/cube"))
    );

    let block_id = "block/cube".parse::<BlockId>();
    assert!(block_id.is_ok());
    assert_eq!(
        block_id.unwrap(),
        BlockId(String::from("bevy_craft:block/cube"))
    );

    let block_id = "bevy_craft:models/block/cube.json".parse::<BlockId>();
    assert!(block_id.is_err());
    assert_eq!(
        block_id.unwrap_err(),
        IdentityError::BlockIdError(String::from("bevy_craft:models/block/cube.json"))
    );
}

#[test]
fn id_test_parse() {
    let block_id = "bevy_craft/models/block/cube.json".parse::<BlockId>();
    assert!(block_id.is_ok());
    assert_eq!(
        block_id.unwrap(),
        BlockId(String::from("bevy_craft:block/cube"))
    );

    let block_id = "bevy_craft:block/cube".parse::<BlockId>();
    assert!(block_id.is_ok());
    assert_eq!(
        block_id.unwrap(),
        BlockId(String::from("bevy_craft:block/cube"))
    );

    let block_id = "block/cube".parse::<BlockId>();
    assert!(block_id.is_ok());
    assert_eq!(
        block_id.unwrap(),
        BlockId(String::from("bevy_craft:block/cube"))
    );

    let block_id = "bevy_craft:models/block/cube.json".parse::<BlockId>();
    assert!(block_id.is_err());
    assert_eq!(
        block_id.unwrap_err(),
        IdentityError::BlockIdError(String::from("bevy_craft:models/block/cube.json"))
    );
}

#[test]
fn try_from_reads_like_parse() {
    assert_eq!(
        BlockId::try_from("bevy_craft/models/block/cube.json"),
        Ok(BlockId(String::from("bevy_craft:block/cube")))
    );
    assert_eq!(
        BlockId::try_from("bevy_craft:models/block/cube.json"),
        Err(IdentityError::BlockIdError(String::from(
            "bevy_craft:models/block/cube.json"
        )))
    );
    assert_eq!(
        TextureId::try_from("bevy_craft/textures/block/cube.png"),
        Ok(TextureId(String::from("bevy_craft:block/cube")))
    );
    assert_eq!(
        TextureId::try_from("cube"),
        Err(IdentityError::TextureIdError(String::from("cube")))
    );
    assert_eq!(
        BlockId::parse("block/cube"),
        Ok(BlockId(String::from("bevy_craft:block/cube")))
    );
    assert_eq!(
        TextureId::parse("block/cube.png"),
        Ok(TextureId(String::from("bevy_craft:block/cube")))
    );
    assert_eq!(
        TextureId::from_texture(&Texture("#all".to_string())),
        Err(IdentityError::TextureIdError("#all".to_string()))
    );
    let copy = BlockId("bevy_craft:block/cube".to_string()).clone();
    assert_eq!(copy, BlockId("bevy_craft:block/cube".to_string()));
    let copy = TextureId("bevy_craft:block/cube".to_string()).clone();
    assert_eq!(copy, TextureId("bevy_craft:block/cube".to_string()));
}

#[test]
fn id_test_path() {
    let block_id = BlockId("bevy_craft:block/cube".to_string());
    assert_eq!(block_id.path(), "bevy_craft/models/block/cube.json")
}

#[test]
fn texture_id_test_parse() {
    let block_id = "bevy_craft/textures/block/cube.png".parse::<TextureId>();
    assert!(block_id.is_ok());
    assert_eq!(
        block_id.unwrap(),
        TextureId(String::from("bevy_craft:block/cube"))
    );

    let block_id = "bevy_craft:block/cube".parse::<TextureId>();
    assert!(block_id.is_ok());
    assert_eq!(
        block_id.unwrap(),
        TextureId(String::from("bevy_craft:block/cube"))
    );

    let block_id = "block/cube".parse::<TextureId>();
    assert!(block_id.is_ok());
    assert_eq!(
        block_id.unwrap(),
        TextureId(String::from("bevy_craft:block/cube"))
    );

    let block_id = "bevy_craft:textures/block/cube.png".parse::<TextureId>();
    assert!(block_id.is_err());
    assert_eq!(
        block_id.unwrap_err(),
        IdentityError::TextureIdError(String::from("bevy_craft:textures/block/cube.png"))
    );

    let block_id = "bevy_craft:block/dirt".parse::<TextureId>();
    assert!(block_id.is_ok());
    assert_eq!(
        block_id.unwrap(),
        TextureId(String::from("bevy_craft:block/dirt"))
    );
}

#[test]
fn test_from_texture() {
    let texture = Texture("bevy_craft:block/dirt".to_string());
    let texture_id = TextureId::try_from(&texture);
    assert!(texture_id.is_ok());
    assert_eq!(
        texture_id.unwrap(),
        TextureId("bevy_craft:block/dirt".to_string())
    );

    let texture = Texture("#all".to_string());
    let texture_id = TextureId::try_from(&texture);
    assert!(texture_id.is_err());
    assert_eq!(
        texture_id.unwrap_err(),
        IdentityError::TextureIdError("#all".to_string())
    );

    let texture = Texture("bevy_craft:textures/block/cube.png".to_string());
    let texture_id = TextureId::try_from(&texture);
    assert!(texture_id.is_err());
    assert_eq!(
        texture_id.unwrap_err(),
        IdentityError::TextureIdError("bevy_craft:textures/block/cube.png".to_string())
    );
}

#[test]
fn texture_id_test_path() {
    let block_id = TextureId("bevy_craft:block/cube".to_string());
    assert_eq!(block_id.path(), "bevy_craft/textures/block/cube.png")
}

#[test]
fn namespace_and_name() {
    let block_id = BlockId("other:block/cube".to_string());
    assert_eq!(block_id.id(), "other:block/cube");
    assert_eq!(block_id.ns(), "other");
    assert_eq!(block_id.name(), "block/cube");

    let bare = BlockId("block/cube".to_string());
    assert_eq!(bare.ns(), "bevy_craft");
    assert_eq!(bare.name(), "block/cube");
    assert_eq!(bare.path(), "bevy_craft/models/block/cube.json");

    let twice = TextureId("a:block/b:c".to_string());
    assert_eq!(twice.ns(), "a");
    assert_eq!(twice.name(), "block/b:c");

    let empty = TextureId(":".to_string());
    assert_eq!(empty.ns(), "");
    assert_eq!(empty.name(), "");
    assert_eq!(empty.path(), "/textures/.png");
}

#[test]
fn path_leads_back_to_the_identifier() {
    for id in [
        "bevy_craft:block/cube",
        "other:block/stairs/inner",
        "a/b:block/c",
        ":block/x",
        "ns:block/x.json.json",
        "ns:block/",
    ] {
        let block_id = BlockId(id.to_string());
        assert_eq!(block_id.path().parse::<BlockId>(), Ok(BlockId(id.to_string())));
        let texture_id = TextureId(id.to_string());
        assert_eq!(
            texture_id.path().parse::<TextureId>(),
            Ok(TextureId(id.to_string()))
        );
    }
}

#[test]
fn path_of_an_odd_identifier_does_not_lead_back() {
    let colon = BlockId("a:block/x:y".to_string());
    assert_eq!(colon.path(), "a/models/block/x:y.json");
    assert_eq!(
        colon.path().parse::<BlockId>(),
        Err(IdentityError::BlockIdError(
            "a/models/block/x:y.json".to_string()
        ))
    );

    let nested = BlockId("a/models:block/x".to_string());
    assert_eq!(nested.path(), "a/models/models/block/x.json");
    assert!(nested.path().parse::<BlockId>().is_err());

    let bare = BlockId("block/x".to_string());
    assert_eq!(
        bare.path().parse::<BlockId>(),
        Ok(BlockId("bevy_craft:block/x".to_string()))
    );

    let item = BlockId("a:item/x".to_string());
    assert!(item.path().parse::<BlockId>().is_err());

    let suffix = BlockId("a:block/x.json".to_string());
    assert_eq!(
        suffix.path().parse::<BlockId>(),
        Ok(BlockId("a:block/x.json".to_string()))
    );

    for odd in ["ns:blockade", "ns:block", "ns:blocks/x"] {
        let id = BlockId(odd.to_string());
        assert!(id.path().parse::<BlockId>().is_err());
        let id = TextureId(odd.to_string());
        assert!(id.path().parse::<TextureId>().is_err());
    }
}

#[test]
fn strings_without_a_block_segment_are_rejected() {
    for value in [
        "",
        "cube",
        "bevy_craft:item/cube",
        "bevy_craft/models/item/cube.json",
        "bevy_craft:bloc/k",
        "bevy_craft:Block/cube",
        "a:blocks/x",
        "a:blockade",
        "a:block",
        "block",
        "blocks/x",
        "a:block.json",
        "a:block\\x",
        "a: block/x",
        "a:/block/x",
        "a:x/block/y",
        "a/models/blocks/x.json",
        "a/textures/blocks/x.png",
        "a/models/block",
        "a/textures/block.png",
        "block/:x",
        "a:b:block/x",
    ] {
        assert_eq!(
            value.parse::<BlockId>(),
            Err(IdentityError::BlockIdError(value.to_string()))
        );
        assert_eq!(
            value.parse::<TextureId>(),
            Err(IdentityError::TextureIdError(value.to_string()))
        );
    }
    assert!("block/".parse::<BlockId>().is_ok());
    assert!("a:block/".parse::<TextureId>().is_ok());
}

#[test]
fn parse_cuts_at_the_first_mark() {
    assert_eq!(
        "a:block/b:c".parse::<BlockId>(),
        Ok(BlockId("a:block/b:c".to_string()))
    );
    assert_eq!(
        "a/models/block/x/models/y.json".parse::<BlockId>(),
        Ok(BlockId("a:block/x/models/y".to_string()))
    );
    assert_eq!(
        "a/textures/block/x.json".parse::<BlockId>(),
        Err(IdentityError::BlockIdError(
            "a/textures/block/x.json".to_string()
        ))
    );
    assert_eq!(
        "a/models/block/x.png".parse::<BlockId>(),
        Ok(BlockId("a:block/x.png".to_string()))
    );
    assert_eq!(
        "block/x.json".parse::<BlockId>(),
        Ok(BlockId("bevy_craft:block/x".to_string()))
    );
    assert_eq!(
        "a:block/.json".parse::<BlockId>(),
        Ok(BlockId("a:block/".to_string()))
    );
    assert_eq!(
        "a:block/x.json.json".parse::<BlockId>(),
        Ok(BlockId("a:block/x.json".to_string()))
    );
    assert_eq!(
        "é:block/ü.png".parse::<TextureId>(),
        Ok(TextureId("é:block/ü".to_string()))
    );
}

#[test]
fn error_messages() {
    assert_eq!(
        IdentityError::BlockIdError("x".to_string()).message(),
        "parse BlockId{ x } error"
    );
    assert_eq!(
        IdentityError::TextureIdError("#all".to_string()).message(),
        "parse TextureId{ #all } error"
    );
}
