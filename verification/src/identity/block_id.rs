//! Identifiers of block models.

use vstd::prelude::*;
use vstd::string::*;
use crate::identity::{
    is_canonical, lemma_path_round_trip, parse, parse_identity, path_of, Identity, IdentityError,
    IDENTITY_DELIMITER,
};

verus! {

/// The identifier of a block, `namespace:block/name`. Its model is the asset
/// `namespace/models/block/name.json`.
#[derive(Debug, Hash, PartialEq, Eq)]
pub struct BlockId(pub String);

impl Identity for BlockId {
    const DIR: &'static str = "models";

    const EXTENSION: &'static str = "json";

    open spec fn id_view(&self) -> Seq<char> {
        self.0@
    }

    fn id(&self) -> (r: &str) {
        self.0.as_str()
    }
}

impl Clone for BlockId {
    fn clone(&self) -> (r: Self)
        ensures
            r.0@ == self.0@,
    {
        BlockId(self.0.clone())
    }
}

impl BlockId {
    /// The block identifier that `value` denotes, if it denotes one.
    pub open spec fn parsed(value: Seq<char>) -> Option<Seq<char>> {
        parse_identity(value, Self::DIR@, Self::EXTENSION@)
    }

    /// Reads a block identifier, written as `namespace:block/name`, as the
    /// path `namespace/models/block/name.json`, or as `block/name` in the
    /// default namespace. The error holds `value`.
    pub fn parse(value: &str) -> (r: Result<BlockId, IdentityError>)
        ensures
            match Self::parsed(value@) {
                Some(id) => r matches Ok(b) && b.0@ == id,
                None => r matches Err(IdentityError::BlockIdError(s)) && s@ == value@,
            },
    {
        match parse(value, Self::DIR, Self::EXTENSION) {
            Some(id) => Ok(BlockId(id)),
            None => Err(IdentityError::BlockIdError(value.to_owned())),
        }
    }
}

/// The directory and the extension of block models, and what reading a
/// block identifier means with them.
pub proof fn lemma_block_id_kind()
    ensures
        BlockId::DIR@ == "models"@,
        BlockId::EXTENSION@ == "json"@,
        forall|value: Seq<char>|
            #[trigger] BlockId::parsed(value) == parse_identity(value, "models"@, "json"@),
{
}

/// Reading the path of a block gives the block's identifier back, for every
/// identifier that its own path leads back to.
pub proof fn lemma_block_id_round_trip(id: BlockId)
    requires
        is_canonical(id.0@, BlockId::DIR@),
    ensures
        BlockId::parsed(path_of(id.id_view(), BlockId::DIR@, BlockId::EXTENSION@)) == Some(id.0@),
{
    reveal_strlit("models");
    reveal_strlit("json");
    assert forall|i: int| 0 <= i < "models"@.len() implies "models"@[i] != IDENTITY_DELIMITER by {}
    assert forall|i: int| 0 <= i < "json"@.len() implies "json"@[i] != IDENTITY_DELIMITER by {}
    lemma_path_round_trip(id.0@, BlockId::DIR@, BlockId::EXTENSION@);
}

impl std::str::FromStr for BlockId {
    type Err = IdentityError;

    fn from_str(value: &str) -> (r: Result<Self, Self::Err>)
        ensures
            match BlockId::parsed(value@) {
                Some(id) => r matches Ok(b) && b.0@ == id,
                None => r matches Err(IdentityError::BlockIdError(s)) && s@ == value@,
            },
    {
        BlockId::parse(value)
    }
}

impl TryFrom<&str> for BlockId {
    type Error = IdentityError;

    fn try_from(value: &str) -> (r: Result<Self, Self::Error>)
        ensures
            match BlockId::parsed(value@) {
                Some(id) => r matches Ok(b) && b.0@ == id,
                None => r matches Err(IdentityError::BlockIdError(s)) && s@ == value@,
            },
    {
        BlockId::parse(value)
    }
}

impl vstd::std_specs::convert::TryFromSpecImpl<&str> for BlockId {
    open spec fn obeys_try_from_spec() -> bool {
        false
    }

    open spec fn try_from_spec(v: &str) -> Result<Self, IdentityError> {
        arbitrary()
    }
}

} // verus!
