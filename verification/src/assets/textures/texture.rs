//! Texture references: a path to an image, or a variable that stands for one.

use vstd::prelude::*;
use vstd::string::*;
use bevy::platform::collections::HashMap;
use crate::table::{
    lists_textures, texture_table, texture_table_clone, texture_table_entries, texture_table_get,
    texture_table_insert, texture_table_len,
};

verus! {

/// The mark at the start of a texture variable.
pub const MODEL_TEXTURE_TAG: char = '#';

/// `texture` is a variable reference: it begins with the mark.
pub open spec fn is_reference(texture: Seq<char>) -> bool {
    texture.len() > 0 && texture[0] == MODEL_TEXTURE_TAG
}

/// The name of the variable that the reference `texture` stands for.
pub open spec fn reference_name(texture: Seq<char>) -> Seq<char> {
    texture.subrange(1, texture.len() as int)
}

/// What a face or a texture variable names: the location of an image, such
/// as `namespace:block/name`, or another variable, such as `#top`.
#[derive(Debug, Default, PartialEq, Eq)]
pub struct Texture(pub String);

impl View for Texture {
    type V = Seq<char>;

    open spec fn view(&self) -> Seq<char> {
        self.0@
    }
}

impl Clone for Texture {
    fn clone(&self) -> (r: Self)
        ensures
            r == *self,
    {
        Texture(self.0.clone())
    }
}

impl Texture {
    /// The location of the image, where the texture is no variable.
    pub fn location(&self) -> (r: Option<&str>)
        ensures
            match r {
                Some(s) => !is_reference(self@) && s@ == self@,
                None => is_reference(self@),
            },
    {
        let s = self.0.as_str();
        if !s.is_empty() && s.get_char(0) == MODEL_TEXTURE_TAG {
            None
        } else {
            Some(s)
        }
    }

    /// The name of the variable, where the texture is one.
    pub fn reference(&self) -> (r: Option<&str>)
        ensures
            match r {
                Some(s) => is_reference(self@) && s@ == reference_name(self@),
                None => !is_reference(self@),
            },
    {
        let s = self.0.as_str();
        if !s.is_empty() && s.get_char(0) == MODEL_TEXTURE_TAG {
            Some(s.substring_char(1, s.unicode_len()))
        } else {
            None
        }
    }

    /// The texture that `substitutions` holds for the variable, where the
    /// texture is a variable that `substitutions` knows.
    pub fn resolve<'a>(&self, substitutions: &'a Textures) -> (r: Option<&'a str>)
        ensures
            match r {
                Some(s) => is_reference(self@) && substitutions@.contains_key(
                    reference_name(self@),
                ) && s@ == substitutions@[reference_name(self@)],
                None => !(is_reference(self@) && substitutions@.contains_key(
                    reference_name(self@),
                )),
            },
    {
        match self.reference() {
            Some(name) => match substitutions.get(name) {
                Some(texture) => Some(texture.0.as_str()),
                None => None,
            },
            None => None,
        }
    }
}

/// `texture` with a variable replaced by what `table` holds for it, where
/// `texture` is a variable that `table` knows; else `texture` itself.
pub open spec fn substitute(table: Map<Seq<char>, Seq<char>>, texture: Seq<char>) -> Seq<char> {
    if is_reference(texture) && table.contains_key(reference_name(texture)) {
        table[reference_name(texture)]
    } else {
        texture
    }
}

/// The image that `texture` stands for in `table`: `texture` itself where it
/// is no variable, else what the variable's own texture stands for. A
/// variable that `table` does not hold stands for nothing. At most `fuel`
/// variables are followed.
pub open spec fn resolve_reference(
    table: Map<Seq<char>, Seq<char>>,
    texture: Seq<char>,
    fuel: nat,
) -> Option<Seq<char>>
    decreases fuel,
{
    if !is_reference(texture) {
        Some(texture)
    } else if fuel == 0 || !table.contains_key(reference_name(texture)) {
        None
    } else {
        resolve_reference(table, table[reference_name(texture)], (fuel - 1) as nat)
    }
}

/// The image that the variable `key` stands for in `table`, found by
/// following at most as many variables as `table` holds.
pub open spec fn texture_path_of(table: Map<Seq<char>, Seq<char>>, key: Seq<char>) -> Option<
    Seq<char>,
> {
    if table.contains_key(key) {
        resolve_reference(table, table[key], table.dom().len())
    } else {
        None
    }
}

/// An image that is found is found with any more fuel too.
pub proof fn lemma_resolve_monotonic(
    table: Map<Seq<char>, Seq<char>>,
    texture: Seq<char>,
    fuel: nat,
    more: nat,
)
    requires
        resolve_reference(table, texture, fuel) is Some,
        fuel <= more,
    ensures
        resolve_reference(table, texture, more) == resolve_reference(table, texture, fuel),
    decreases fuel,
{
    if is_reference(texture) {
        lemma_resolve_monotonic(
            table,
            table[reference_name(texture)],
            (fuel - 1) as nat,
            (more - 1) as nat,
        );
    }
}

/// The image of `texture` is found with `fuel` and with no less.
spec fn needs_fuel(table: Map<Seq<char>, Seq<char>>, texture: Seq<char>, fuel: nat) -> bool {
    resolve_reference(table, texture, fuel) is Some && forall|less: nat|
        less < fuel ==> resolve_reference(table, texture, less) is None
}

/// An image that is found is found with some least fuel, which is no more
/// than what it was found with.
proof fn lemma_least_fuel(table: Map<Seq<char>, Seq<char>>, texture: Seq<char>, fuel: nat) -> (least:
    nat)
    requires
        resolve_reference(table, texture, fuel) is Some,
    ensures
        least <= fuel,
        needs_fuel(table, texture, least),
    decreases fuel,
{
    if fuel > 0 && resolve_reference(table, texture, (fuel - 1) as nat) is Some {
        lemma_least_fuel(table, texture, (fuel - 1) as nat)
    } else {
        assert forall|less: nat| less < fuel implies resolve_reference(table, texture, less)
            is None by {
            if resolve_reference(table, texture, less) is Some {
                lemma_resolve_monotonic(table, texture, less, (fuel - 1) as nat);
            }
        }
        fuel
    }
}

/// The variables that are followed to an image are all different: with the
/// variables `seen` already followed on the way to `texture`, whose image
/// needs `fuel` more, there are no more than the table holds.
proof fn lemma_chain_fits(
    table: Map<Seq<char>, Seq<char>>,
    texture: Seq<char>,
    fuel: nat,
    seen: Set<Seq<char>>,
)
    requires
        table.dom().finite(),
        seen.subset_of(table.dom()),
        needs_fuel(table, texture, fuel),
        forall|key: Seq<char>, less: nat|
            seen.contains(key) && less < fuel ==> #[trigger] resolve_reference(
                table,
                table[key],
                less,
            ) is None,
    ensures
        fuel + seen.len() <= table.dom().len(),
    decreases fuel,
{
    vstd::set_lib::lemma_len_subset(seen, table.dom());
    if fuel > 0 {
        assert(resolve_reference(table, texture, 0) is None);
        let key = reference_name(texture);
        let next = table[key];
        let rest = (fuel - 1) as nat;
        assert(resolve_reference(table, next, rest) is Some);
        assert(!seen.contains(key));
        assert forall|less: nat| less < rest implies resolve_reference(table, next, less)
            is None by {
            assert(resolve_reference(table, texture, less + 1) is None);
        }
        let wider = seen.insert(key);
        assert forall|other: Seq<char>, less: nat|
            wider.contains(other) && less < rest implies #[trigger] resolve_reference(
            table,
            table[other],
            less,
        ) is None by {
            if other != key {
                assert(seen.contains(other));
            }
        }
        lemma_chain_fits(table, next, rest, wider);
    }
}

/// As many variables as the table holds are enough: whatever image is found
/// by following more is found by following that many, and what is not found
/// by following that many runs in a circle, or into a variable that the
/// table does not hold.
pub proof fn lemma_table_size_is_enough(
    table: Map<Seq<char>, Seq<char>>,
    texture: Seq<char>,
    fuel: nat,
)
    requires
        table.dom().finite(),
        fuel >= table.dom().len(),
    ensures
        resolve_reference(table, texture, fuel) == resolve_reference(
            table,
            texture,
            table.dom().len(),
        ),
{
    let size = table.dom().len();
    if resolve_reference(table, texture, fuel) is Some {
        let least = lemma_least_fuel(table, texture, fuel);
        lemma_chain_fits(table, texture, least, Set::empty());
        lemma_resolve_monotonic(table, texture, least, size);
        lemma_resolve_monotonic(table, texture, least, fuel);
    } else if resolve_reference(table, texture, size) is Some {
        lemma_resolve_monotonic(table, texture, size, fuel);
    }
}

/// The texture variables of a model: what each name stands for.
#[derive(Debug)]
pub struct Textures {
    pub variables: HashMap<String, Texture>,
}

impl View for Textures {
    type V = Map<Seq<char>, Seq<char>>;

    open spec fn view(&self) -> Map<Seq<char>, Seq<char>> {
        texture_table(self.variables)
    }
}

impl Clone for Textures {
    fn clone(&self) -> (r: Self)
        ensures
            r@ == self@,
    {
        Textures { variables: texture_table_clone(&self.variables) }
    }
}

impl Textures {
    /// The number of variables.
    pub fn len(&self) -> (r: usize)
        ensures
            r == self@.dom().len(),
    {
        texture_table_len(&self.variables)
    }

    /// The texture that `key` stands for.
    pub fn get(&self, key: &str) -> (r: Option<&Texture>)
        ensures
            match r {
                Some(texture) => self@.contains_key(key@) && texture@ == self@[key@],
                None => !self@.contains_key(key@),
            },
    {
        texture_table_get(&self.variables, key)
    }

    /// Lets `key` stand for `value`.
    pub fn insert(&mut self, key: String, value: Texture)
        ensures
            final(self)@ == old(self)@.insert(key@, value@),
    {
        texture_table_insert(&mut self.variables, key, value);
    }

    /// Replaces every variable among the textures by what `other` holds for
    /// it; a texture that is no variable, or one that `other` does not know,
    /// stays.
    pub fn resolve(&mut self, other: &Self)
        ensures
            final(self)@ == old(self)@.map_values(|t: Seq<char>| substitute(other@, t)),
    {
        let mut entries = texture_table_entries(&self.variables);
        let ghost all = entries@;
        while entries.len() > 0
            invariant
                lists_textures(all, old(self)@),
                entries@ == all.take(entries.len() as int),
                entries.len() <= all.len(),
                self@.dom() == old(self)@.dom(),
                forall|j: int|
                    0 <= j < entries.len() ==> self@[(#[trigger] all[j]).0@] == all[j].1@,
                forall|j: int|
                    entries.len() <= j < all.len() ==> self@[(#[trigger] all[j]).0@] == substitute(
                        other@,
                        all[j].1@,
                    ),
            decreases entries.len(),
        {
            let ghost n = entries.len() - 1;
            let (name, texture) = entries.pop().unwrap();
            assert(name == all[n].0 && texture == all[n].1);
            if let Some(found) = texture.resolve(other) {
                let replacement = Texture(found.to_owned());
                texture_table_insert(&mut self.variables, name, replacement);
                assert(self@.dom() =~= old(self)@.dom());
            }
            assert(entries@ =~= all.take(entries.len() as int));
        }
        assert(final(self)@ =~= old(self)@.map_values(|t: Seq<char>| substitute(other@, t)));
    }

    /// Takes over the variables of `other` that are not yet there. A name
    /// that both hold keeps the texture it has here.
    pub fn merge(&mut self, other: Self)
        ensures
            final(self)@ == other@.union_prefer_right(old(self)@),
    {
        let mut entries = texture_table_entries(&other.variables);
        let ghost all = entries@;
        while entries.len() > 0
            invariant
                lists_textures(all, other@),
                entries@ == all.take(entries.len() as int),
                entries.len() <= all.len(),
                forall|k: Seq<char>|
                    self@.contains_key(k) <==> old(self)@.contains_key(k) || exists|j: int|
                        entries.len() <= j < all.len() && (#[trigger] all[j]).0@ == k,
                forall|k: Seq<char>|
                    self@.contains_key(k) ==> self@[k] == if old(self)@.contains_key(k) {
                        old(self)@[k]
                    } else {
                        other@[k]
                    },
            decreases entries.len(),
        {
            let ghost n = entries.len() - 1;
            let ghost before = self@;
            let (name, texture) = entries.pop().unwrap();
            assert(name == all[n].0 && texture == all[n].1);
            if self.get(name.as_str()).is_none() {
                texture_table_insert(&mut self.variables, name, texture);
            }
            assert(entries@ =~= all.take(entries.len() as int));
            assert forall|k: Seq<char>|
                self@.contains_key(k) <==> old(self)@.contains_key(k) || exists|j: int|
                    entries.len() <= j < all.len() && (#[trigger] all[j]).0@ == k by {
                if before.contains_key(k) && !old(self)@.contains_key(k) {
                    let j = choose|j: int| n < j < all.len() && (#[trigger] all[j]).0@ == k;
                    assert(entries.len() <= j < all.len() && all[j].0@ == k);
                }
                if k == all[n].0@ {
                    assert(entries.len() <= n < all.len() && all[n].0@ == k);
                }
            }
        }
        assert(final(self)@ =~= other@.union_prefer_right(old(self)@));
    }

    /// The image that the variable `key` stands for, following variables
    /// that stand for other variables.
    pub fn texture_path(&self, key: &str) -> (r: Option<&Texture>)
        ensures
            match texture_path_of(self@, key@) {
                Some(image) => r matches Some(texture) && texture@ == image,
                None => r is None,
            },
    {
        let mut current: &Texture = match self.get(key) {
            Some(texture) => texture,
            None => {
                return None;
            },
        };
        let mut fuel = self.len();
        loop
            invariant
                resolve_reference(self@, current@, fuel as nat) == texture_path_of(self@, key@),
            decreases fuel,
        {
            match current.reference() {
                None => {
                    return Some(current);
                },
                Some(name) => {
                    if fuel == 0 {
                        return None;
                    }
                    match self.get(name) {
                        Some(texture) => {
                            current = texture;
                            fuel -= 1;
                        },
                        None => {
                            return None;
                        },
                    }
                },
            }
        }
    }
}

impl From<HashMap<String, Texture>> for Textures {
    fn from(source: HashMap<String, Texture>) -> (r: Textures) {
        Textures { variables: source }
    }
}

impl vstd::std_specs::convert::FromSpecImpl<HashMap<String, Texture>> for Textures {
    open spec fn obeys_from_spec() -> bool {
        true
    }

    open spec fn from_spec(source: HashMap<String, Texture>) -> Textures {
        Textures { variables: source }
    }
}

impl From<&str> for Texture {
    fn from(value: &str) -> (r: Texture)
        ensures
            r@ == value@,
    {
        Texture(value.to_owned())
    }
}

impl vstd::std_specs::convert::FromSpecImpl<&str> for Texture {
    open spec fn obeys_from_spec() -> bool {
        false
    }

    open spec fn from_spec(value: &str) -> Texture {
        arbitrary()
    }
}

impl From<String> for Texture {
    fn from(source: String) -> (r: Texture) {
        Texture(source)
    }
}

impl vstd::std_specs::convert::FromSpecImpl<String> for Texture {
    open spec fn obeys_from_spec() -> bool {
        true
    }

    open spec fn from_spec(source: String) -> Texture {
        Texture(source)
    }
}

} // verus!
