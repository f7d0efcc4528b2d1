//! Identifiers of textures.

use vstd::prelude::*;
use vstd::string::*;
use crate::assets::textures::texture::{is_reference, Texture};
use crate::identity::{
    is_canonical, lemma_path_round_trip, parse, parse_identity, path_of, Identity, IdentityError,
    IDENTITY_DELIMITER,
};

verus! {

/// The identifier of a texture, `namespace:block/name`. Its image is the
/// asset `namespace/textures/block/name.png`.
#[derive(Debug, Hash, PartialEq, Eq)]
pub struct TextureId(pub String);

impl Identity for TextureId {
    const DIR: &'static str = "textures";

    const EXTENSION: &'static str = "png";

    open spec fn id_view(&self) -> Seq<char> {
        self.0@
    }

    fn id(&self) -> (r: &str) {
        self.0.as_str()
    }
}

impl Clone for TextureId {
    fn clone(&self) -> (r: Self)
        ensures
            r.0@ == self.0@,
    {
        TextureId(self.0.clone())
    }
}

impl TextureId {
    /// The texture identifier that `value` denotes, if it denotes one.
    pub open spec fn parsed(value: Seq<char>) -> Option<Seq<char>> {
        parse_identity(value, Self::DIR@, Self::EXTENSION@)
    }

    /// The texture identifier that the texture `texture` names: none where
    /// it is a variable, else what its location denotes.
    pub open spec fn of_texture(texture: Seq<char>) -> Option<Seq<char>> {
        if is_reference(texture) {
            None
        } else {
            Self::parsed(texture)
        }
    }

    /// Reads a texture identifier, written as `namespace:block/name`, as the
    /// path `namespace/textures/block/name.png`, or as `block/name` in the
    /// default namespace. The error holds `value`.
    pub fn parse(value: &str) -> (r: Result<TextureId, IdentityError>)
        ensures
            match Self::parsed(value@) {
                Some(id) => r matches Ok(t) && t.0@ == id,
                None => r matches Err(IdentityError::TextureIdError(s)) && s@ == value@,
            },
    {
        match parse(value, Self::DIR, Self::EXTENSION) {
            Some(id) => Ok(TextureId(id)),
            None => Err(IdentityError::TextureIdError(value.to_owned())),
        }
    }

    /// The identifier of the image that `texture` names. A variable names
    /// none; the error holds the texture as it is written.
    pub fn from_texture(texture: &Texture) -> (r: Result<TextureId, IdentityError>)
        ensures
            match Self::of_texture(texture@) {
                Some(id) => r matches Ok(t) && t.0@ == id,
                None => r matches Err(IdentityError::TextureIdError(s)) && s@ == texture@,
            },
    {
        match texture.location() {
            Some(location) => TextureId::parse(location),
            None => Err(IdentityError::TextureIdError(texture.0.clone())),
        }
    }
}

/// The directory and the extension of textures, and what reading a texture
/// identifier means with them.
pub proof fn lemma_texture_id_kind()
    ensures
        TextureId::DIR@ == "textures"@,
        TextureId::EXTENSION@ == "png"@,
        forall|value: Seq<char>|
            #[trigger] TextureId::parsed(value) == parse_identity(value, "textures"@, "png"@),
{
}

/// Reading the path of a texture gives the texture's identifier back, for
/// every identifier that its own path leads back to.
pub proof fn lemma_texture_id_round_trip(id: TextureId)
    requires
        is_canonical(id.0@, TextureId::DIR@),
    ensures
        TextureId::parsed(path_of(id.id_view(), TextureId::DIR@, TextureId::EXTENSION@)) == Some(
            id.0@,
        ),
{
    reveal_strlit("textures");
    reveal_strlit("png");
    assert forall|i: int| 0 <= i < "textures"@.len() implies "textures"@[i]
        != IDENTITY_DELIMITER by {}
    assert forall|i: int| 0 <= i < "png"@.len() implies "png"@[i] != IDENTITY_DELIMITER by {}
    lemma_path_round_trip(id.0@, TextureId::DIR@, TextureId::EXTENSION@);
}

impl std::str::FromStr for TextureId {
    type Err = IdentityError;

    fn from_str(value: &str) -> (r: Result<Self, Self::Err>)
        ensures
            match TextureId::parsed(value@) {
                Some(id) => r matches Ok(t) && t.0@ == id,
                None => r matches Err(IdentityError::TextureIdError(s)) && s@ == value@,
            },
    {
        TextureId::parse(value)
    }
}

impl TryFrom<&str> for TextureId {
    type Error = IdentityError;

    fn try_from(value: &str) -> (r: Result<Self, Self::Error>)
        ensures
            match TextureId::parsed(value@) {
                Some(id) => r matches Ok(t) && t.0@ == id,
                None => r matches Err(IdentityError::TextureIdError(s)) && s@ == value@,
            },
    {
        TextureId::parse(value)
    }
}

impl vstd::std_specs::convert::TryFromSpecImpl<&str> for TextureId {
    open spec fn obeys_try_from_spec() -> bool {
        false
    }

    open spec fn try_from_spec(v: &str) -> Result<Self, IdentityError> {
        arbitrary()
    }
}

impl TryFrom<&Texture> for TextureId {
    type Error = IdentityError;

    fn try_from(texture: &Texture) -> (r: Result<Self, Self::Error>)
        ensures
            match TextureId::of_texture(texture@) {
                Some(id) => r matches Ok(t) && t.0@ == id,
                None => r matches Err(IdentityError::TextureIdError(s)) && s@ == texture@,
            },
    {
        TextureId::from_texture(texture)
    }
}

impl vstd::std_specs::convert::TryFromSpecImpl<&Texture> for TextureId {
    open spec fn obeys_try_from_spec() -> bool {
        false
    }

    open spec fn try_from_spec(v: &Texture) -> Result<Self, IdentityError> {
        arbitrary()
    }
}

} // verus!
