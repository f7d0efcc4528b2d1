//! Namespaced identifiers, written `namespace:name`, and the asset paths
//! that they stand for.

use vstd::prelude::*;
use vstd::string::*;
use crate::text::{
    chars_of, find, first_index_of, first_occurrence, lemma_first_index_is_first,
    lemma_first_occurrence_found, lemma_no_occurrence, lemma_occurrence_has_first, occurs,
    occurs_at, split_once, starts_with, strip_suffix,
};

pub mod block_id;
pub mod texture_id;

verus! {

/// What parts the namespace from the name.
pub const IDENTITY_DELIMITER: char = ':';

/// The namespace of an identifier that names none.
pub const DEFAULT_NAMESPACE: &'static str = "bevy_craft";

/// The segment that every name begins with, with the slash that ends it.
pub const BLOCK_SEGMENT: &'static str = "block/";

/// The delimiter as a one-character pattern.
pub open spec fn delimiter() -> Seq<char> {
    seq![IDENTITY_DELIMITER]
}

/// The namespace of `id`: what stands before the first delimiter, or the
/// default namespace where `id` has no delimiter.
pub open spec fn namespace_of(id: Seq<char>) -> Seq<char> {
    match first_index_of(id, delimiter()) {
        Some(i) => id.subrange(0, i),
        None => DEFAULT_NAMESPACE@,
    }
}

/// The name of `id`: what stands after the first delimiter, or all of `id`
/// where it has no delimiter.
pub open spec fn name_of(id: Seq<char>) -> Seq<char> {
    match first_index_of(id, delimiter()) {
        Some(i) => id.subrange(i + 1, id.len() as int),
        None => id,
    }
}

/// The directory `dir` as it stands inside a path, between two slashes.
pub open spec fn dir_segment(dir: Seq<char>) -> Seq<char> {
    "/"@ + dir + "/"@
}

/// The extension `ext` as it stands at the end of a path, after a dot.
pub open spec fn ext_suffix(ext: Seq<char>) -> Seq<char> {
    "."@ + ext
}

/// The path of the asset that `id` names: `namespace/dir/name.ext`.
pub open spec fn path_of(id: Seq<char>, dir: Seq<char>, ext: Seq<char>) -> Seq<char> {
    namespace_of(id) + dir_segment(dir) + name_of(id) + ext_suffix(ext)
}

/// The namespace and the remainder that `value` is read as: cut at the first
/// delimiter; without one, at the first `/dir/`; without either, the default
/// namespace and all of `value`.
pub open spec fn split_identity(value: Seq<char>, dir: Seq<char>) -> (Seq<char>, Seq<char>) {
    match split_once(value, delimiter()) {
        Some(parts) => parts,
        None => match split_once(value, dir_segment(dir)) {
            Some(parts) => parts,
            None => (DEFAULT_NAMESPACE@, value),
        },
    }
}

/// The identifier that `value` denotes, where it denotes one: the remainder
/// has to begin with the segment `block/`, and loses the extension at its
/// end.
pub open spec fn parse_identity(value: Seq<char>, dir: Seq<char>, ext: Seq<char>) -> Option<
    Seq<char>,
> {
    let (ns, rest) = split_identity(value, dir);
    if starts_with(rest, BLOCK_SEGMENT@) {
        Some(ns + delimiter() + strip_suffix(rest, ext_suffix(ext)))
    } else {
        None
    }
}

/// The identifier `id` is one that its own path leads back to: it has a
/// delimiter; its name begins with the segment `block/` and holds no further
/// delimiter; and its namespace, followed by `/dir/`, holds `/dir/` nowhere
/// before that end.
pub open spec fn is_canonical(id: Seq<char>, dir: Seq<char>) -> bool {
    &&& first_index_of(id, delimiter()) is Some
    &&& !name_of(id).contains(IDENTITY_DELIMITER)
    &&& starts_with(name_of(id), BLOCK_SEGMENT@)
    &&& first_index_of(namespace_of(id) + dir_segment(dir), dir_segment(dir)) == Some(
        namespace_of(id).len() as int,
    )
}

/// Reading the path of an identifier gives the identifier back, for every
/// identifier that its own path leads back to, where neither the directory
/// nor the extension holds a delimiter.
pub proof fn lemma_path_round_trip(id: Seq<char>, dir: Seq<char>, ext: Seq<char>)
    requires
        is_canonical(id, dir),
        !dir.contains(IDENTITY_DELIMITER),
        !ext.contains(IDENTITY_DELIMITER),
    ensures
        parse_identity(path_of(id, dir, ext), dir, ext) == Some(id),
{
    reveal_strlit("/");
    reveal_strlit(".");
    let d = delimiter();
    let ns = namespace_of(id);
    let name = name_of(id);
    let seg = dir_segment(dir);
    let suf = ext_suffix(ext);
    let p = path_of(id, dir, ext);
    let rest = name + suf;
    lemma_first_index_is_first(id, d);
    let i = first_index_of(id, d)->0;
    assert(id.subrange(i, i + 1)[0] == d[0]);
    assert(id =~= ns + d + name);
    assert forall|j: int| 0 <= j < ns.len() implies ns[j] != IDENTITY_DELIMITER by {
        if id[j] == IDENTITY_DELIMITER {
            assert(id.subrange(j, j + 1) =~= d);
            assert(occurs_at(id, d, j));
        }
    }
    assert forall|k: int| !occurs_at(p, d, k) by {
        if occurs_at(p, d, k) {
            assert(p.subrange(k, k + 1)[0] == d[0]);
            assert(p[k] == IDENTITY_DELIMITER);
            if k < ns.len() {
                assert(p[k] == ns[k]);
            } else if k < ns.len() + seg.len() {
                let t = k - ns.len();
                assert(p[k] == seg[t]);
                if 0 < t < seg.len() - 1 {
                    assert(seg[t] == dir[t - 1]);
                    assert(dir.contains(dir[t - 1]));
                }
            } else if k < ns.len() + seg.len() + name.len() {
                let t = k - ns.len() - seg.len();
                assert(p[k] == name[t]);
                assert(name.contains(name[t]));
            } else {
                let t = k - ns.len() - seg.len() - name.len();
                assert(p[k] == suf[t]);
                if t > 0 {
                    assert(suf[t] == ext[t - 1]);
                    assert(ext.contains(ext[t - 1]));
                }
            }
        }
    }
    lemma_no_occurrence(p, d);
    lemma_first_index_is_first(ns + seg, seg);
    assert(p.subrange(ns.len() as int, (ns.len() + seg.len()) as int) =~= seg);
    assert forall|j: int| 0 <= j < ns.len() implies !occurs_at(p, seg, j) by {
        if occurs_at(p, seg, j) {
            assert((ns + seg).subrange(j, j + seg.len()) =~= p.subrange(j, j + seg.len()));
            assert(occurs_at(ns + seg, seg, j));
        }
    }
    lemma_first_occurrence_found(p, seg, ns.len() as int);
    assert(p.subrange(0, ns.len() as int) =~= ns);
    assert(p.subrange((ns.len() + seg.len()) as int, p.len() as int) =~= rest);
    assert(split_identity(p, dir) == (ns, rest));
    assert(rest.subrange(0, BLOCK_SEGMENT@.len() as int) =~= name.subrange(
        0,
        BLOCK_SEGMENT@.len() as int,
    ));
    assert(rest.subrange(rest.len() - suf.len(), rest.len() as int) =~= suf);
    assert(rest.subrange(0, rest.len() - suf.len()) =~= name);
}

/// Where `s` holds a delimiter at `q` and none before, `q` is where the
/// delimiter first occurs.
pub proof fn lemma_first_delimiter(s: Seq<char>, q: int)
    requires
        0 <= q < s.len(),
        s[q] == IDENTITY_DELIMITER,
        forall|j: int| 0 <= j < q ==> s[j] != IDENTITY_DELIMITER,
    ensures
        first_index_of(s, delimiter()) == Some(q),
{
    let d = delimiter();
    assert(s.subrange(q, q + 1) =~= d);
    assert forall|j: int| 0 <= j < q implies !occurs_at(s, d, j) by {
        if occurs_at(s, d, j) {
            assert(s.subrange(j, j + 1)[0] == d[0]);
        }
    }
    lemma_first_occurrence_found(s, d, q);
}

/// Where the delimiter first occurs in `s` at `i`, `s` holds it there and
/// nowhere before.
pub proof fn lemma_delimiter_index(s: Seq<char>)
    requires
        first_index_of(s, delimiter()) is Some,
    ensures
        ({
            let i = first_index_of(s, delimiter())->0;
            &&& 0 <= i < s.len()
            &&& s[i] == IDENTITY_DELIMITER
            &&& forall|j: int| 0 <= j < i ==> s[j] != IDENTITY_DELIMITER
        }),
{
    let d = delimiter();
    lemma_first_index_is_first(s, d);
    let i = first_index_of(s, d)->0;
    assert(s.subrange(i, i + 1)[0] == d[0]);
    assert forall|j: int| 0 <= j < i implies s[j] != IDENTITY_DELIMITER by {
        if s[j] == IDENTITY_DELIMITER {
            assert(s.subrange(j, j + 1) =~= d);
            assert(occurs_at(s, d, j));
        }
    }
}

/// Only an identifier that its own path leads back to comes back from its
/// path: the others read as another identifier, or as none.
pub proof fn lemma_round_trip_only_canonical(id: Seq<char>, dir: Seq<char>, ext: Seq<char>)
    requires
        !dir.contains(IDENTITY_DELIMITER),
        !ext.contains(IDENTITY_DELIMITER),
        parse_identity(path_of(id, dir, ext), dir, ext) == Some(id),
    ensures
        is_canonical(id, dir),
{
    reveal_strlit("/");
    reveal_strlit(".");
    reveal_strlit("block/");
    let d = delimiter();
    let block = BLOCK_SEGMENT@;
    let ns = namespace_of(id);
    let name = name_of(id);
    let seg = dir_segment(dir);
    let suf = ext_suffix(ext);
    let p = path_of(id, dir, ext);
    let (ns2, rest) = split_identity(p, dir);
    let stripped = strip_suffix(rest, suf);
    assert(starts_with(rest, block));
    assert(id == ns2 + d + stripped);
    assert(id[ns2.len() as int] == IDENTITY_DELIMITER);
    if first_index_of(id, d) is None {
        assert(id.subrange(ns2.len() as int, (ns2.len() + 1) as int) =~= d);
        lemma_occurrence_has_first(id, d, ns2.len() as int);
    }
    lemma_delimiter_index(id);
    let i = first_index_of(id, d)->0;
    assert(ns.len() == i);
    assert(p.subrange(ns.len() as int, (ns.len() + seg.len()) as int) =~= seg);
    assert forall|k: int| 0 <= k < ns.len() + seg.len() implies p[k] != IDENTITY_DELIMITER by {
        if k < ns.len() {
            assert(p[k] == id[k]);
        } else {
            let t = k - ns.len();
            assert(p[k] == seg[t]);
            if 0 < t < seg.len() - 1 {
                assert(seg[t] == dir[t - 1]);
                assert(dir.contains(dir[t - 1]));
            }
        }
    }
    if first_index_of(p, d) is Some {
        lemma_delimiter_index(p);
        let q = first_index_of(p, d)->0;
        assert(ns2 =~= p.subrange(0, q));
        lemma_first_delimiter(id, q);
    }
    assert(first_index_of(p, d) is None);
    assert forall|t: int| 0 <= t < name.len() implies name[t] != IDENTITY_DELIMITER by {
        let k = ns.len() + seg.len() + t;
        assert(p[k] == name[t]);
        if p[k] == IDENTITY_DELIMITER {
            assert(p.subrange(k, k + 1) =~= d);
            lemma_occurrence_has_first(p, d, k);
        }
    }
    lemma_occurrence_has_first(p, seg, ns.len() as int);
    lemma_first_index_is_first(p, seg);
    let r = first_index_of(p, seg)->0;
    assert(r <= ns.len());
    assert(ns2 =~= p.subrange(0, r));
    assert forall|j: int| 0 <= j < r implies id[j] != IDENTITY_DELIMITER by {
        assert(id[j] == ns2[j]);
        assert(ns2[j] == p[j]);
    }
    lemma_first_delimiter(id, r);
    assert(r == ns.len());
    assert forall|j: int| 0 <= j < ns.len() implies !occurs_at(ns + seg, seg, j) by {
        if occurs_at(ns + seg, seg, j) {
            assert((ns + seg).subrange(j, j + seg.len()) =~= p.subrange(j, j + seg.len()));
            assert(occurs_at(p, seg, j));
        }
    }
    assert((ns + seg).subrange(ns.len() as int, (ns.len() + seg.len()) as int) =~= seg);
    lemma_first_occurrence_found(ns + seg, seg, ns.len() as int);
    assert(rest =~= name + suf);
    if name.len() < block.len() {
        assert(rest.subrange(0, block.len() as int)[name.len() as int] == block[name.len() as int]);
        assert(rest[name.len() as int] == suf[0]);
    } else {
        assert(name.subrange(0, block.len() as int) =~= rest.subrange(0, block.len() as int));
    }
}

/// The characters of the block segment.
pub proof fn lemma_block_segment()
    ensures
        BLOCK_SEGMENT@ == seq!['b', 'l', 'o', 'c', 'k', '/'],
{
    reveal_strlit("block/");
    assert(BLOCK_SEGMENT@ =~= seq!['b', 'l', 'o', 'c', 'k', '/']);
}

/// A string reads as an identifier exactly where its remainder begins with
/// `block/`: with the five letters and the slash after them. A remainder
/// that is `block` alone, or that goes on with another letter, reads as
/// none.
pub proof fn lemma_reads_only_with_block_segment(
    value: Seq<char>,
    dir: Seq<char>,
    ext: Seq<char>,
)
    ensures
        parse_identity(value, dir, ext) is Some <==> {
            let rest = split_identity(value, dir).1;
            &&& rest.len() >= 6
            &&& rest[0] == 'b'
            &&& rest[1] == 'l'
            &&& rest[2] == 'o'
            &&& rest[3] == 'c'
            &&& rest[4] == 'k'
            &&& rest[5] == '/'
        },
{
    lemma_block_segment();
    let rest = split_identity(value, dir).1;
    let block = BLOCK_SEGMENT@;
    if starts_with(rest, block) {
        assert forall|i: int| 0 <= i < 6 implies rest[i] == block[i] by {
            assert(rest.subrange(0, 6)[i] == block[i]);
        }
    }
    if rest.len() >= 6 && rest[0] == 'b' && rest[1] == 'l' && rest[2] == 'o' && rest[3] == 'c'
        && rest[4] == 'k' && rest[5] == '/' {
        assert(rest.subrange(0, 6) =~= block);
    }
}

/// A string in which the segment `block/` does not occur reads as no
/// identifier.
pub proof fn lemma_rejects_without_block(value: Seq<char>, dir: Seq<char>, ext: Seq<char>)
    requires
        first_index_of(value, BLOCK_SEGMENT@) is None,
    ensures
        parse_identity(value, dir, ext) is None,
{
    let (ns, rest) = split_identity(value, dir);
    let block = BLOCK_SEGMENT@;
    if starts_with(rest, block) {
        let from: int = if first_index_of(value, delimiter()) is Some {
            lemma_first_index_is_first(value, delimiter());
            first_index_of(value, delimiter())->0 + delimiter().len()
        } else if first_index_of(value, dir_segment(dir)) is Some {
            lemma_first_index_is_first(value, dir_segment(dir));
            first_index_of(value, dir_segment(dir))->0 + dir_segment(dir).len()
        } else {
            0
        };
        assert(rest =~= value.subrange(from, value.len() as int));
        assert(value.subrange(from, from + block.len()) =~= rest.subrange(0, block.len() as int));
        assert(occurs_at(value, block, from));
        lemma_occurrence_has_first(value, block, from);
    }
}

/// Why a string was not read as an identifier; it holds the string.
#[derive(Debug, PartialEq, Eq)]
pub enum IdentityError {
    BlockIdError(String),
    TextureIdError(String),
}

impl IdentityError {
    /// The text of the error.
    pub fn message(&self) -> (r: String)
        ensures
            r@ == match *self {
                IdentityError::BlockIdError(s) => "parse BlockId{ "@ + s@ + " } error"@,
                IdentityError::TextureIdError(s) => "parse TextureId{ "@ + s@ + " } error"@,
            },
    {
        match self {
            IdentityError::BlockIdError(s) => String::from_str("parse BlockId{ ").concat(
                s.as_str(),
            ).concat(" } error"),
            IdentityError::TextureIdError(s) => String::from_str("parse TextureId{ ").concat(
                s.as_str(),
            ).concat(" } error"),
        }
    }
}

/// A namespaced identifier of one kind of asset.
pub trait Identity: Eq + std::hash::Hash {
    /// The directory of this kind of asset, below the namespace.
    const DIR: &'static str;

    /// The file extension of this kind of asset.
    const EXTENSION: &'static str;

    /// The identifier as a sequence of characters.
    spec fn id_view(&self) -> Seq<char>;

    /// The identifier, `namespace:name`.
    fn id(&self) -> (r: &str)
        ensures
            r@ == self.id_view(),
    ;

    /// The namespace.
    fn ns(&self) -> (r: &str)
        ensures
            r@ == namespace_of(self.id_view()),
    {
        let id = self.id();
        let chars = chars_of(id);
        let mut delim: Vec<char> = Vec::new();
        delim.push(IDENTITY_DELIMITER);
        assert(delim@ =~= delimiter());
        match find(&chars, &delim) {
            Some(pos) => id.substring_char(0, pos),
            None => DEFAULT_NAMESPACE,
        }
    }

    /// The name.
    fn name(&self) -> (r: &str)
        ensures
            r@ == name_of(self.id_view()),
    {
        let id = self.id();
        let chars = chars_of(id);
        let mut delim: Vec<char> = Vec::new();
        delim.push(IDENTITY_DELIMITER);
        assert(delim@ =~= delimiter());
        match find(&chars, &delim) {
            Some(pos) => id.substring_char(pos + 1, chars.len()),
            None => id,
        }
    }

    /// The path of the asset, `namespace/dir/name.extension`.
    fn path(&self) -> (r: String)
        ensures
            r@ == path_of(self.id_view(), Self::DIR@, Self::EXTENSION@),
    {
        let r = String::from_str(self.ns()).concat("/").concat(Self::DIR).concat("/").concat(
            self.name(),
        ).concat(".").concat(Self::EXTENSION);
        assert(r@ =~= path_of(self.id_view(), Self::DIR@, Self::EXTENSION@));
        r
    }
}

/// Reads `value` as an identifier of the kind with directory `dir` and
/// extension `ext`.
pub fn parse(value: &str, dir: &str, ext: &str) -> (r: Option<String>)
    ensures
        match parse_identity(value@, dir@, ext@) {
            Some(id) => r matches Some(s) && s@ == id,
            None => r is None,
        },
{
    let chars = chars_of(value);
    let mut delim: Vec<char> = Vec::new();
    delim.push(IDENTITY_DELIMITER);
    assert(delim@ =~= delimiter());
    let segment = String::from_str("/").concat(dir).concat("/");
    let segment_chars = chars_of(segment.as_str());
    let (ns, rest): (&str, &str) = match find(&chars, &delim) {
        Some(pos) => {
            (value.substring_char(0, pos), value.substring_char(pos + 1, chars.len()))
        },
        None => match find(&chars, &segment_chars) {
            Some(pos) => {
                (
                    value.substring_char(0, pos),
                    value.substring_char(pos + segment_chars.len(), chars.len()),
                )
            },
            None => (DEFAULT_NAMESPACE, value),
        },
    };
    assert((ns@, rest@) == split_identity(value@, dir@));
    let rest_chars = chars_of(rest);
    if !occurs(&rest_chars, &chars_of(BLOCK_SEGMENT), 0) {
        return None;
    }
    let suffix = String::from_str(".").concat(ext);
    let suffix_chars = chars_of(suffix.as_str());
    let stripped: &str = if suffix_chars.len() <= rest_chars.len() && occurs(
        &rest_chars,
        &suffix_chars,
        rest_chars.len() - suffix_chars.len(),
    ) {
        rest.substring_char(0, rest_chars.len() - suffix_chars.len())
    } else {
        rest
    };
    assert(stripped@ == strip_suffix(rest@, ext_suffix(ext@)));
    let mut id = String::from_str(ns);
    let ghost before = id@;
    id.append(":");
    proof {
        reveal_strlit(":");
        assert(":"@ =~= delimiter());
    }
    id.append(stripped);
    assert(id@ =~= ns@ + delimiter() + stripped@);
    Some(id)
}

} // verus!
