//! All the models of a world, by block, and their resolution: every model
//! takes over what the model it inherits from holds.

use vstd::prelude::*;
use vstd::string::*;
use bevy::platform::collections::HashMap;
use crate::assets::models::model::{Model, ModelView};
use crate::assets::models::order::{
    dependencies, dependency_set, is_dependency_order, sorter_insert, sorter_into_vec_nodes,
    sorter_with_capacity, SortOutcome,
};
use crate::assets::textures::texture::Texture;
use crate::identity::block_id::BlockId;
use crate::identity::texture_id::TextureId;
use crate::identity::{path_of, Identity};
use crate::table::{
    lists_models, lists_textures, model_table, model_table_get, model_table_insert,
    model_table_keys, model_table_new, texture_table_entries,
};
use crate::text::{contains_name, names_of};

verus! {

/// The models of a world, by the identifier of their block.
#[derive(Debug)]
pub struct ModelManager {
    pub models: HashMap<BlockId, Model>,
}

/// The identifier that the parent of `model` is written as, where `model`
/// names a parent and the name reads as a block identifier.
pub open spec fn parent_key(model: ModelView) -> Option<Seq<char>> {
    match model.parent {
        Some(parent) => BlockId::parsed(parent),
        None => None,
    }
}

/// The parent of the model `id` in `table`: the model that it names as its
/// parent, where `table` holds that model.
pub open spec fn parent_in(table: Map<Seq<char>, ModelView>, id: Seq<char>) -> Option<Seq<char>> {
    match parent_key(table[id]) {
        Some(parent) => if table.contains_key(parent) {
            Some(parent)
        } else {
            None
        },
        None => None,
    }
}

/// `order` holds every model of `table` once, each after its parent.
pub open spec fn is_resolution_order(
    table: Map<Seq<char>, ModelView>,
    order: Seq<Seq<char>>,
) -> bool {
    &&& order.no_duplicates()
    &&& forall|id: Seq<char>| table.contains_key(id) <==> order.contains(id)
    &&& forall|i: int|
        0 <= i < order.len() && parent_in(table, #[trigger] order[i]) is Some ==> exists|j: int|
            0 <= j < i && #[trigger] order[j] == parent_in(table, order[i])->0
}

/// No model of `table` inherits from itself, directly or through others:
/// the models can be put in an order in which each comes after its parent.
pub open spec fn acyclic(table: Map<Seq<char>, ModelView>) -> bool {
    exists|order: Seq<Seq<char>>| is_resolution_order(table, order)
}

/// The model `id` of `table` with all that it inherits: from its parent,
/// which has inherited from its own parent before, and so on for at most
/// `fuel` models up the chain.
pub open spec fn resolved(table: Map<Seq<char>, ModelView>, id: Seq<char>, fuel: nat) -> ModelView
    decreases fuel,
{
    if fuel == 0 {
        table[id]
    } else {
        match parent_in(table, id) {
            Some(parent) => table[id].inherit(resolved(table, parent, (fuel - 1) as nat)),
            None => table[id],
        }
    }
}

/// Every model of `table` with all that it inherits, up a chain of parents
/// as long as the table. See `lemma_resolve_all_unfolds` for what that is in
/// a table without a circle.
pub open spec fn resolve_all(table: Map<Seq<char>, ModelView>) -> Map<Seq<char>, ModelView> {
    Map::new(
        |id: Seq<char>| table.contains_key(id),
        |id: Seq<char>| resolved(table, id, table.dom().len()),
    )
}

/// The dependencies that the sorter is given for `table`: each model
/// depends on the model that it names as its parent.
pub open spec fn parent_graph(table: Map<Seq<char>, ModelView>) -> Map<Seq<char>, Set<Seq<char>>> {
    Map::new(
        |id: Seq<char>| table.contains_key(id),
        |id: Seq<char>| dependency_set(parent_key(table[id])),
    )
}

/// In a resolution order a model's resolution does not change with more
/// fuel than its place in the order asks for.
proof fn lemma_resolved_stable(
    table: Map<Seq<char>, ModelView>,
    order: Seq<Seq<char>>,
    j: int,
    fuel: nat,
)
    requires
        is_resolution_order(table, order),
        0 <= j < order.len(),
        fuel > j,
    ensures
        resolved(table, order[j], fuel) == resolved(table, order[j], (j + 1) as nat),
    decreases j,
{
    match parent_in(table, order[j]) {
        Some(parent) => {
            let k = choose|k: int| 0 <= k < j && #[trigger] order[k] == parent;
            lemma_resolved_stable(table, order, k, (fuel - 1) as nat);
            lemma_resolved_stable(table, order, k, j as nat);
        },
        None => {},
    }
}

/// A model that is its own parent stands in no resolution order.
proof fn lemma_self_parent_is_cycle(table: Map<Seq<char>, ModelView>, id: Seq<char>)
    requires
        table.contains_key(id),
        parent_key(table[id]) == Some(id),
    ensures
        !acyclic(table),
{
    if acyclic(table) {
        let order = choose|order: Seq<Seq<char>>| is_resolution_order(table, order);
        assert(order.contains(id));
        let i = choose|i: int| 0 <= i < order.len() && order[i] == id;
        assert(parent_in(table, order[i]) == Some(id));
        let j = choose|j: int| 0 <= j < i && #[trigger] order[j] == id;
        assert(order[j] == order[i]);
    }
}

/// Where no model is its own parent, an order that the dependencies allow
/// is a resolution order.
proof fn lemma_dependency_order_resolves(table: Map<Seq<char>, ModelView>, order: Seq<Seq<char>>)
    requires
        is_dependency_order(parent_graph(table), order),
        forall|id: Seq<char>| table.contains_key(id) ==> parent_key(#[trigger] table[id]) != Some(id),
    ensures
        is_resolution_order(table, order),
{
    let graph = parent_graph(table);
    assert forall|id: Seq<char>| table.contains_key(id) <==> order.contains(id) by {
        assert(graph.contains_key(id) <==> table.contains_key(id));
    }
    assert forall|i: int|
        0 <= i < order.len() && parent_in(table, #[trigger] order[i]) is Some implies exists|
        j: int,
    | 0 <= j < i && #[trigger] order[j] == parent_in(table, order[i])->0 by {
        let id = order[i];
        let parent = parent_in(table, id)->0;
        assert(order.contains(id));
        assert(graph.contains_key(id));
        assert(graph[order[i]].contains(parent));
        assert(graph.contains_key(parent));
    }
}

/// A resolution order is an order that the dependencies allow.
proof fn lemma_resolution_order_depends(table: Map<Seq<char>, ModelView>, order: Seq<Seq<char>>)
    requires
        is_resolution_order(table, order),
    ensures
        is_dependency_order(parent_graph(table), order),
{
    let graph = parent_graph(table);
    assert forall|id: Seq<char>| graph.contains_key(id) <==> order.contains(id) by {
        assert(graph.contains_key(id) <==> table.contains_key(id));
    }
    assert forall|i: int, d: Seq<char>|
        0 <= i < order.len() && (#[trigger] graph[order[i]].contains(d)) && d != order[i]
            && graph.contains_key(d) implies exists|j: int| 0 <= j < i && order[j] == d by {
        assert(order.contains(order[i]));
        assert(table.contains_key(order[i]));
        assert(parent_in(table, order[i]) == Some(d));
        let j = choose|j: int| 0 <= j < i && #[trigger] order[j] == d;
        assert(0 <= j < i && order[j] == d);
    }
}

/// The model `model` holds the texture variable `name` with the texture
/// `texture`.
pub open spec fn holds_texture(model: ModelView, name: Seq<char>, texture: Seq<char>) -> bool {
    model.textures matches Some(textures) && textures.contains_key(name) && textures[name]
        == texture
}

/// The model `model` holds the texture variable `name`.
pub open spec fn has_texture(model: ModelView, name: Seq<char>) -> bool {
    model.textures matches Some(textures) && textures.contains_key(name)
}

/// Resolution gives a model the texture variables of its parent, and lets
/// its own stand: where the models of `table` can be resolved and the model
/// `child` has the parent `parent`, the resolved `child` holds every
/// variable that `child` held, with the texture that `child` gave it, and
/// every variable that only `parent` held, with the texture that `parent`
/// gave it.
pub proof fn lemma_resolved_textures(
    table: Map<Seq<char>, ModelView>,
    child: Seq<char>,
    parent: Seq<char>,
    name: Seq<char>,
)
    requires
        acyclic(table),
        table.contains_key(child),
        parent_in(table, child) == Some(parent),
    ensures
        has_texture(table[child], name) ==> holds_texture(
            resolve_all(table)[child],
            name,
            table[child].textures->0[name],
        ),
        has_texture(table[parent], name) && !has_texture(table[child], name) ==> holds_texture(
            resolve_all(table)[child],
            name,
            table[parent].textures->0[name],
        ),
{
    let n = table.dom().len();
    assert(n >= 1) by {
        let order = choose|order: Seq<Seq<char>>| is_resolution_order(table, order);
        order.unique_seq_to_set();
        assert(order.to_set() =~= table.dom());
        assert(order.contains(child));
    }
    let above = resolved(table, parent, (n - 1) as nat);
    assert(resolved(table, child, n) == table[child].inherit(above));
    assert(has_texture(table[parent], name) ==> holds_texture(
        above,
        name,
        table[parent].textures->0[name],
    ));
}

/// What resolution gives, in a table whose models can be resolved: a model
/// without a parent stays as it is, and a model with a parent inherits from
/// the resolved parent.
pub proof fn lemma_resolve_all_unfolds(table: Map<Seq<char>, ModelView>, id: Seq<char>)
    requires
        acyclic(table),
        table.contains_key(id),
    ensures
        resolve_all(table)[id] == match parent_in(table, id) {
            Some(parent) => table[id].inherit(resolve_all(table)[parent]),
            None => table[id],
        },
{
    let order = choose|order: Seq<Seq<char>>| is_resolution_order(table, order);
    order.unique_seq_to_set();
    assert(order.to_set() =~= table.dom());
    let n = table.dom().len();
    assert(order.contains(id));
    let j = choose|j: int| 0 <= j < order.len() && order[j] == id;
    match parent_in(table, order[j]) {
        Some(parent) => {
            let k = choose|k: int| 0 <= k < j && #[trigger] order[k] == parent;
            lemma_resolved_stable(table, order, k, n);
            lemma_resolved_stable(table, order, k, (n - 1) as nat);
        },
        None => {},
    }
}

/// The model `model` has no parent in `table`: it names none, or one that
/// does not read as a block identifier, or one that `table` does not hold.
pub open spec fn is_root(table: Map<Seq<char>, ModelView>, model: ModelView) -> bool {
    match parent_key(model) {
        Some(parent) => !table.contains_key(parent),
        None => true,
    }
}

/// A resolved model has no parent in the table left: it has taken over the
/// parent of the last model of its chain.
proof fn lemma_resolved_is_root(table: Map<Seq<char>, ModelView>, order: Seq<Seq<char>>, j: int)
    requires
        is_resolution_order(table, order),
        0 <= j < order.len(),
    ensures
        is_root(table, resolved(table, order[j], (j + 1) as nat)),
    decreases j,
{
    match parent_in(table, order[j]) {
        Some(parent) => {
            let k = choose|k: int| 0 <= k < j && #[trigger] order[k] == parent;
            lemma_resolved_is_root(table, order, k);
            lemma_resolved_stable(table, order, k, j as nat);
        },
        None => {},
    }
}

/// Resolving resolved models changes nothing: where the models of `table`
/// can be resolved, the resolved models can be resolved again, and every
/// one of them stays as it is.
pub proof fn lemma_resolution_idempotent(table: Map<Seq<char>, ModelView>)
    requires
        acyclic(table),
    ensures
        acyclic(resolve_all(table)),
        resolve_all(resolve_all(table)) == resolve_all(table),
{
    let order = choose|order: Seq<Seq<char>>| is_resolution_order(table, order);
    let once = resolve_all(table);
    order.unique_seq_to_set();
    assert(order.to_set() =~= table.dom());
    assert(once.dom() =~= table.dom());
    assert forall|id: Seq<char>| once.contains_key(id) implies parent_in(once, id) is None by {
        assert(order.contains(id));
        let j = choose|j: int| 0 <= j < order.len() && order[j] == id;
        lemma_resolved_is_root(table, order, j);
        lemma_resolved_stable(table, order, j, order.len());
    }
    assert(is_resolution_order(once, order)) by {
        assert forall|id: Seq<char>| once.contains_key(id) <==> order.contains(id) by {
            assert(once.contains_key(id) <==> table.contains_key(id));
        }
        assert forall|i: int|
            0 <= i < order.len() implies !(parent_in(once, #[trigger] order[i]) is Some) by {
            assert(order.contains(order[i]));
        }
    }
    assert(resolve_all(once) =~= once);
}

/// Resolution lets a model's own texture variables stand: where the models
/// of `table` can be resolved, the resolved model `id` holds every variable
/// that the model held, with the texture that the model gave it.
pub proof fn lemma_resolved_keeps_own(
    table: Map<Seq<char>, ModelView>,
    id: Seq<char>,
    name: Seq<char>,
)
    requires
        acyclic(table),
        table.contains_key(id),
    ensures
        has_texture(table[id], name) ==> holds_texture(
            resolve_all(table)[id],
            name,
            table[id].textures->0[name],
        ),
{
    lemma_resolve_all_unfolds(table, id);
}

/// Two models of which one has no parent, and the other has none or the
/// first, can be resolved.
pub proof fn lemma_pair_is_acyclic(
    table: Map<Seq<char>, ModelView>,
    child: Seq<char>,
    parent: Seq<char>,
)
    requires
        child != parent,
        forall|id: Seq<char>| table.contains_key(id) <==> id == child || id == parent,
        parent_in(table, parent) is None,
        parent_in(table, child) != Some(child),
    ensures
        acyclic(table),
{
    let order = seq![parent, child];
    assert(order[0] == parent && order[1] == child);
    assert forall|id: Seq<char>| table.contains_key(id) <==> order.contains(id) by {
        if order.contains(id) {
            let i = choose|i: int| 0 <= i < order.len() && order[i] == id;
        }
    }
    assert(is_resolution_order(table, order));
}

/// What a well-formed model inherits from a well-formed model leaves it
/// well formed.
pub proof fn lemma_inherit_wf(own: ModelView, parent: ModelView)
    requires
        own.wf(),
        parent.wf(),
    ensures
        own.inherit(parent).wf(),
{
    match (own.elements, parent.elements) {
        (Some(mine), Some(inherited)) => {
            assert forall|i: int| 0 <= i < (mine + inherited).len() implies (#[trigger] (mine
                + inherited)[i]).wf() by {
                if i < mine.len() {
                    assert(mine[i].wf());
                } else {
                    assert(inherited[i - mine.len()].wf());
                }
            }
        },
        _ => {},
    }
}

/// The path of the image that the texture `texture` names, where it names
/// one: where it is no variable and reads as a texture identifier.
pub open spec fn texture_file(texture: Seq<char>) -> Option<Seq<char>> {
    match TextureId::of_texture(texture) {
        Some(id) => Some(path_of(id, TextureId::DIR@, TextureId::EXTENSION@)),
        None => None,
    }
}

/// A texture variable of `model` names the image at `path`.
pub open spec fn model_needs(model: ModelView, path: Seq<char>) -> bool {
    model.textures matches Some(textures) && exists|name: Seq<char>|
        #[trigger] textures.contains_key(name) && texture_file(textures[name]) == Some(path)
}

/// A texture variable of some model of `table` names the image at `path`.
pub open spec fn needs_texture(table: Map<Seq<char>, ModelView>, path: Seq<char>) -> bool {
    exists|id: Seq<char>| #[trigger] table.contains_key(id) && model_needs(table[id], path)
}

/// One of the first `n` models that `keys` names in `table` needs `path`.
pub open spec fn needed_upto(
    keys: Seq<BlockId>,
    table: Map<Seq<char>, ModelView>,
    n: int,
    path: Seq<char>,
) -> bool {
    exists|a: int| 0 <= a < n && model_needs(table[(#[trigger] keys[a]).0@], path)
}

/// One of the first `n` textures of `entries` names the image at `path`.
pub open spec fn named_upto(entries: Seq<(String, Texture)>, n: int, path: Seq<char>) -> bool {
    exists|b: int| 0 <= b < n && texture_file((#[trigger] entries[b]).1@) == Some(path)
}

/// The identifier of the parent of `model`, where it names one that reads
/// as a block identifier.
pub fn parent_id(model: &Model) -> (r: Option<BlockId>)
    ensures
        match parent_key(model@) {
            Some(parent) => r matches Some(id) && id.0@ == parent,
            None => r is None,
        },
{
    match &model.parent {
        Some(parent) => match BlockId::parse(parent.as_str()) {
            Ok(id) => Some(id),
            Err(_) => None,
        },
        None => None,
    }
}

impl View for ModelManager {
    type V = Map<Seq<char>, ModelView>;

    open spec fn view(&self) -> Map<Seq<char>, ModelView> {
        self.table().map_values(|model: Model| model@)
    }
}

impl Default for ModelManager {
    fn default() -> (r: Self)
        ensures
            r.table() == Map::<Seq<char>, Model>::empty(),
            r.wf(),
    {
        ModelManager::new()
    }
}

impl ModelManager {
    /// The models, by the characters of their identifiers.
    pub open spec fn table(&self) -> Map<Seq<char>, Model> {
        model_table(self.models)
    }

    /// Every model is well formed.
    pub open spec fn wf(&self) -> bool {
        forall|id: Seq<char>| self.table().contains_key(id) ==> (#[trigger] self.table()[id]).wf()
    }

    /// Whether every model is well formed.
    pub fn check(&self) -> (r: bool)
        ensures
            r == self.wf(),
    {
        let keys = model_table_keys(&self.models);
        let mut i: usize = 0;
        while i < keys.len()
            invariant
                i <= keys.len(),
                lists_models(keys@, self.table()),
                forall|j: int| 0 <= j < i ==> self.table()[(#[trigger] keys[j]).0@].wf(),
            decreases keys.len() - i,
        {
            let model = model_table_get(&self.models, &keys[i]).unwrap();
            if !model.check() {
                assert(!self.table()[keys[i as int].0@].wf());
                return false;
            }
            i += 1;
        }
        assert forall|id: Seq<char>| self.table().contains_key(id) implies (
        #[trigger] self.table()[id]).wf() by {
            let j = choose|j: int| 0 <= j < keys.len() && (#[trigger] keys[j]).0@ == id;
            assert(self.table()[keys[j].0@].wf());
        }
        true
    }

    /// No models.
    pub fn new() -> (r: Self)
        ensures
            r.table() == Map::<Seq<char>, Model>::empty(),
            r.wf(),
    {
        let r = ModelManager { models: model_table_new() };
        assert(r.table() =~= Map::<Seq<char>, Model>::empty());
        r
    }

    /// The model of the block `id`.
    pub fn get(&self, id: &BlockId) -> (r: Option<&Model>)
        ensures
            match r {
                Some(model) => self.table().contains_key(id.0@) && *model == self.table()[id.0@],
                None => !self.table().contains_key(id.0@),
            },
    {
        model_table_get(&self.models, id)
    }

    /// Stores `model` as the model of the block `id`, in place of what was
    /// stored for it before.
    pub fn insert(&mut self, id: BlockId, model: Model)
        ensures
            final(self).table() == old(self).table().insert(id.0@, model),
            old(self).wf() && model.wf() ==> final(self).wf(),
    {
        model_table_insert(&mut self.models, id, model);
        assert forall|k: Seq<char>| final(self).table().contains_key(k) && old(self).wf()
            && model.wf() implies (#[trigger] final(self).table()[k]).wf() by {
            if k != id.0@ {
                assert(old(self).table()[k].wf());
            }
        }
    }

    /// The paths of all images that the texture variables of the models
    /// name, each once: what the atlas is to be built from. A variable that
    /// stands for another variable names no image, nor does a texture that
    /// does not read as a texture identifier.
    pub fn all_texture_path(&self) -> (r: Vec<String>)
        ensures
            names_of(r@).no_duplicates(),
            forall|path: Seq<char>| names_of(r@).contains(path) <==> needs_texture(self@, path),
    {
        let keys = model_table_keys(&self.models);
        let mut out: Vec<String> = Vec::new();
        let mut i: usize = 0;
        while i < keys.len()
            invariant
                i <= keys.len(),
                lists_models(keys@, self.table()),
                names_of(out@).no_duplicates(),
                forall|path: Seq<char>|
                    names_of(out@).contains(path) <==> needed_upto(keys@, self@, i as int, path),
            decreases keys.len() - i,
        {
            let model = model_table_get(&self.models, &keys[i]).unwrap();
            assert(self@[keys[i as int].0@] == model@);
            let ghost done = names_of(out@);
            let ghost mut shown: Seq<(String, Texture)> = Seq::empty();
            match &model.textures {
                Some(textures) => {
                    let entries = texture_table_entries(&textures.variables);
                    proof {
                        shown = entries@;
                    }
                    let mut j: usize = 0;
                    while j < entries.len()
                        invariant
                            j <= entries.len(),
                            names_of(out@).no_duplicates(),
                            forall|path: Seq<char>|
                                names_of(out@).contains(path) <==> done.contains(path)
                                    || named_upto(entries@, j as int, path),
                        decreases entries.len() - j,
                    {
                        let ghost before = names_of(out@);
                        let ghost file = texture_file(entries[j as int].1@);
                        let ghost mut pushed = false;
                        if let Ok(id) = TextureId::from_texture(&entries[j].1) {
                            let path = id.path();
                            assert(file == Some(path@));
                            if !contains_name(&out, &path) {
                                proof {
                                    pushed = true;
                                }
                                out.push(path);
                                assert(names_of(out@) =~= before.push(path@));
                                assert forall|p: Seq<char>|
                                    names_of(out@).contains(p) <==> before.contains(p) || p
                                        == path@ by {
                                    if before.contains(p) {
                                        let a = choose|a: int|
                                            0 <= a < before.len() && before[a] == p;
                                        assert(names_of(out@)[a] == p);
                                    }
                                    if p == path@ {
                                        assert(names_of(out@)[before.len() as int] == p);
                                    }
                                }
                            }
                        }
                        j += 1;
                        assert forall|p: Seq<char>|
                            named_upto(entries@, j as int, p) <==> named_upto(entries@, j - 1, p)
                                || file == Some(p) by {
                            if named_upto(entries@, j as int, p) {
                                let b = choose|b: int|
                                    0 <= b < j && texture_file((#[trigger] entries@[b]).1@)
                                        == Some(p);
                                if b < j - 1 {
                                    assert(named_upto(entries@, j - 1, p));
                                }
                            }
                            if named_upto(entries@, j - 1, p) {
                                let b = choose|b: int|
                                    0 <= b < j - 1 && texture_file((#[trigger] entries@[b]).1@)
                                        == Some(p);
                                assert(0 <= b < j);
                            }
                            if file == Some(p) {
                                assert(texture_file(entries@[j - 1].1@) == Some(p));
                            }
                        }
                        assert forall|p: Seq<char>|
                            names_of(out@).contains(p) <==> done.contains(p) || named_upto(
                                entries@,
                                j as int,
                                p,
                            ) by {
                            assert(before.contains(p) <==> done.contains(p) || named_upto(
                                entries@,
                                j - 1,
                                p,
                            ));
                            assert(named_upto(entries@, j as int, p) <==> named_upto(
                                entries@,
                                j - 1,
                                p,
                            ) || file == Some(p));
                            if pushed {
                                assert(names_of(out@).contains(p) <==> before.contains(p)
                                    || file == Some(p));
                            } else {
                                assert(names_of(out@) == before);
                                assert(file == Some(p) ==> before.contains(p));
                            }
                        }
                    }
                    assert forall|p: Seq<char>|
                        named_upto(entries@, entries.len() as int, p) <==> model_needs(
                            model@,
                            p,
                        ) by {
                        let table = textures@;
                        assert(lists_textures(entries@, table));
                        if named_upto(entries@, entries.len() as int, p) {
                            let b = choose|b: int|
                                0 <= b < entries.len() && texture_file(
                                    (#[trigger] entries@[b]).1@,
                                ) == Some(p);
                            assert(table.contains_key(entries@[b].0@));
                        }
                        if model_needs(model@, p) {
                            let name = choose|name: Seq<char>| #[trigger]
                                table.contains_key(name) && texture_file(table[name]) == Some(p);
                            let b = choose|b: int|
                                0 <= b < entries.len() && (#[trigger] entries@[b]).0@ == name;
                            assert(texture_file(entries@[b].1@) == Some(p));
                        }
                    }
                },
                None => {
                    assert forall|p: Seq<char>| !model_needs(model@, p) by {}
                },
            }
            assert forall|p: Seq<char>|
                needed_upto(keys@, self@, i + 1, p) <==> needed_upto(keys@, self@, i as int, p)
                    || model_needs(model@, p) by {
                if needed_upto(keys@, self@, i + 1, p) {
                    let a = choose|a: int|
                        0 <= a < i + 1 && model_needs(self@[(#[trigger] keys@[a]).0@], p);
                    if a < i {
                        assert(needed_upto(keys@, self@, i as int, p));
                    }
                }
                if needed_upto(keys@, self@, i as int, p) {
                    let a = choose|a: int|
                        0 <= a < i && model_needs(self@[(#[trigger] keys@[a]).0@], p);
                    assert(0 <= a < i + 1);
                }
                if model_needs(model@, p) {
                    assert(model_needs(self@[keys@[i as int].0@], p));
                }
            }
            assert forall|p: Seq<char>|
                names_of(out@).contains(p) <==> needed_upto(keys@, self@, i + 1, p) by {
                assert(done.contains(p) <==> needed_upto(keys@, self@, i as int, p));
                assert(needed_upto(keys@, self@, i + 1, p) <==> needed_upto(
                    keys@,
                    self@,
                    i as int,
                    p,
                ) || model_needs(model@, p));
                if model.textures is Some {
                    let entries = shown;
                    assert(names_of(out@).contains(p) <==> done.contains(p) || named_upto(
                        entries,
                        entries.len() as int,
                        p,
                    ));
                    assert(named_upto(entries, entries.len() as int, p) <==> model_needs(
                        model@,
                        p,
                    ));
                } else {
                    assert(!model_needs(model@, p));
                }
            }
            i += 1;
        }
        assert forall|path: Seq<char>|
            needed_upto(keys@, self@, keys.len() as int, path) <==> needs_texture(
                self@,
                path,
            ) by {
            if needed_upto(keys@, self@, keys.len() as int, path) {
                let a = choose|a: int|
                    0 <= a < keys.len() && model_needs(self@[(#[trigger] keys@[a]).0@], path);
                assert(self@.contains_key(keys@[a].0@));
            }
            if needs_texture(self@, path) {
                let id = choose|id: Seq<char>| #[trigger]
                    self@.contains_key(id) && model_needs(self@[id], path);
                assert(self.table().contains_key(id));
                let a = choose|a: int| 0 <= a < keys.len() && (#[trigger] keys@[a]).0@ == id;
                assert(model_needs(self@[keys@[a].0@], path));
            }
        }
        out
    }

    /// An order in which the models can be resolved, every model after its
    /// parent; nothing where there is no such order, because some model
    /// inherits from itself, directly or through others. A parent that is
    /// not written as a block identifier, or that is not stored, counts as
    /// no parent. Which of several orders is given is not stated.
    pub fn resolution_order(&self) -> (r: Option<Vec<String>>)
        ensures
            match r {
                Some(order) => is_resolution_order(self@, names_of(order@)),
                None => !acyclic(self@),
            },
    {
        let ghost orig = self.table();
        let ghost origv = self@;
        let keys = model_table_keys(&self.models);
        let mut sorter = sorter_with_capacity(keys.len());
        let mut i: usize = 0;
        while i < keys.len()
            invariant
                i <= keys.len(),
                orig == self.table(),
                origv == self@,
                lists_models(keys@, orig),
                forall|k: Seq<char>|
                    dependencies(sorter).contains_key(k) <==> exists|j: int|
                        0 <= j < i && (#[trigger] keys[j]).0@ == k,
                forall|k: Seq<char>| #[trigger]
                    dependencies(sorter).contains_key(k) ==> dependencies(sorter)[k]
                        == dependency_set(parent_key(origv[k])),
                forall|j: int| 0 <= j < i ==> parent_key(origv[(#[trigger] keys[j]).0@]) != Some(keys[j].0@),
            decreases keys.len() - i,
        {
            let key = &keys[i];
            let model = model_table_get(&self.models, key).unwrap();
            let parent = parent_id(model);
            let dependency = match parent {
                Some(id) => {
                    if id.0 == key.0 {
                        proof {
                            lemma_self_parent_is_cycle(origv, key.0@);
                        }
                        return None;
                    }
                    Some(id.0)
                },
                None => None,
            };
            let ghost before = dependencies(sorter);
            sorter_insert(&mut sorter, key.0.clone(), dependency);
            assert forall|k: Seq<char>|
                dependencies(sorter).contains_key(k) <==> exists|j: int|
                    0 <= j < i + 1 && (#[trigger] keys[j]).0@ == k by {
                if before.contains_key(k) {
                    let j = choose|j: int| 0 <= j < i && (#[trigger] keys[j]).0@ == k;
                    assert(0 <= j < i + 1 && keys[j].0@ == k);
                }
                if k == key.0@ {
                    assert(0 <= i < i + 1 && keys[i as int].0@ == k);
                }
            }
            i += 1;
        }
        assert(dependencies(sorter) =~= parent_graph(origv));
        assert forall|id: Seq<char>| origv.contains_key(id) implies parent_key(
            #[trigger] origv[id],
        ) != Some(id) by {
            let j = choose|j: int| 0 <= j < keys.len() && (#[trigger] keys[j]).0@ == id;
            assert(parent_key(origv[keys[j].0@]) != Some(keys[j].0@));
        }
        match sorter_into_vec_nodes(sorter) {
            SortOutcome::Partial(_) => {
                proof {
                    if acyclic(origv) {
                        let order = choose|order: Seq<Seq<char>>| is_resolution_order(origv, order);
                        lemma_resolution_order_depends(origv, order);
                    }
                }
                None
            },
            SortOutcome::Full(order) => {
                proof {
                    lemma_dependency_order_resolves(origv, names_of(order@));
                }
                Some(order)
            },
        }
    }

    /// Whether some model inherits from itself, directly or through others,
    /// so that the models cannot be resolved.
    pub fn has_cycle(&self) -> (r: bool)
        ensures
            r == !acyclic(self@),
    {
        self.resolution_order().is_none()
    }

    /// Resolves the models: each takes over what its parent holds, after the
    /// parent has taken over what its own parent holds. A parent that is not
    /// written as a block identifier, or that is not stored, counts as no
    /// parent. No model may inherit from itself, directly or through others:
    /// `has_cycle` tells.
    ///
    /// Every model then holds the texture variables that it held, with the
    /// textures that it gave them, and the variables that only its parent
    /// held, with the textures that the parent gave them.
    pub fn merge(&mut self)
        requires
            acyclic(old(self)@),
        ensures
            final(self)@ == resolve_all(old(self)@),
            old(self).wf() ==> final(self).wf(),
            forall|id: Seq<char>, name: Seq<char>|
                old(self)@.contains_key(id) && #[trigger] has_texture(old(self)@[id], name)
                    ==> holds_texture(final(self)@[id], name, old(self)@[id].textures->0[name]),
            forall|id: Seq<char>, name: Seq<char>|
                old(self)@.contains_key(id) && parent_in(old(self)@, id) is Some
                    && #[trigger] has_texture(old(self)@[parent_in(old(self)@, id)->0], name)
                    && !has_texture(old(self)@[id], name) ==> holds_texture(
                    final(self)@[id],
                    name,
                    old(self)@[parent_in(old(self)@, id)->0].textures->0[name],
                ),
    {
        let ghost orig = self.table();
        let ghost origv = self@;
        match self.resolution_order() {
            None => {},
            Some(order) => {
                let ghost names = names_of(order@);
                proof {
                    names.unique_seq_to_set();
                    assert(names.to_set() =~= origv.dom());
                }
                let mut i: usize = 0;
                while i < order.len()
                    invariant
                        i <= order.len(),
                        names == names_of(order@),
                        is_resolution_order(origv, names),
                        origv == orig.map_values(|model: Model| model@),
                        order.len() == origv.dom().len(),
                        forall|id: Seq<char>| self.table().contains_key(id) <==> orig.contains_key(id),
                        forall|j: int|
                            0 <= j < i ==> self@[#[trigger] names[j]] == resolved(
                                origv,
                                names[j],
                                order.len() as nat,
                            ),
                        forall|j: int|
                            i <= j < order.len() ==> self.table()[#[trigger] names[j]] == orig[names[j]],
                        old(self).wf() ==> self.wf(),
                        forall|id: Seq<char>| orig.contains_key(id) && old(self).wf() ==> (#[trigger] orig[id]).wf(),
                    decreases order.len() - i,
                {
                    let key = BlockId(order[i].clone());
                    assert(key.0@ == names[i as int]);
                    assert(names.contains(names[i as int]));
                    let model = model_table_get(&self.models, &key).unwrap();
                    assert(model@ == origv[names[i as int]]);
                    let ghost before = self.table();
                    let ghost before_view = self@;
                    let ghost n = order.len() as nat;
                    if let Some(parent) = parent_id(model) {
                        if let Some(parent_model) = model_table_get(&self.models, &parent) {
                            let mut merged = model.clone();
                            merged.merge(parent_model.clone());
                            proof {
                                assert(parent_in(origv, names[i as int]) == Some(parent.0@));
                                let j = choose|j: int|
                                    0 <= j < i && #[trigger] names[j] == parent.0@;
                                lemma_resolved_stable(origv, names, j, n);
                                lemma_resolved_stable(origv, names, j, (n - 1) as nat);
                                assert(self@[names[j]] == resolved(origv, names[j], n));
                                assert(parent_model@ == resolved(origv, parent.0@, (n - 1) as nat));
                                assert(merged@ == resolved(origv, names[i as int], n));
                                if old(self).wf() {
                                    lemma_inherit_wf(model@, parent_model@);
                                }
                            }
                            model_table_insert(&mut self.models, key, merged);
                            assert(self.table() == before.insert(names[i as int], merged));
                            assert forall|j: int| 0 <= j < i + 1 implies self@[#[trigger] names[j]]
                                == resolved(origv, names[j], n) by {
                                assert(names.contains(names[j]));
                                assert(before.contains_key(names[j]));
                                if j < i {
                                    assert(names[j] != names[i as int]);
                                    assert(self.table()[names[j]] == before[names[j]]);
                                    assert(before_view[names[j]] == resolved(origv, names[j], n));
                                } else {
                                    assert(self.table()[names[j]] == merged);
                                }
                            }
                            assert forall|j: int| i + 1 <= j < order.len() implies self.table()[
                            #[trigger] names[j]] == orig[names[j]] by {
                                assert(names[j] != names[i as int]);
                                assert(before[names[j]] == orig[names[j]]);
                            }
                            assert forall|id: Seq<char>|
                                self.table().contains_key(id) && old(self).wf() implies (
                            #[trigger] self.table()[id]).wf() by {
                                if id != names[i as int] {
                                    assert(before[id].wf());
                                }
                            }
                        }
                    }
                    i += 1;
                }
                assert(self@ =~= resolve_all(origv)) by {
                    assert forall|id: Seq<char>| origv.contains_key(id) implies self@[id]
                        == resolved(origv, id, origv.dom().len()) by {
                        assert(names.contains(id));
                        let j = choose|j: int| 0 <= j < names.len() && names[j] == id;
                        assert(self@[names[j]] == resolved(origv, names[j], order.len() as nat));
                    }
                }
                proof {
                    assert forall|id: Seq<char>, name: Seq<char>|
                        origv.contains_key(id) && #[trigger] has_texture(
                            origv[id],
                            name,
                        ) implies holds_texture(self@[id], name, origv[id].textures->0[name]) by {
                        lemma_resolved_keeps_own(origv, id, name);
                    }
                    assert forall|id: Seq<char>, name: Seq<char>|
                        origv.contains_key(id) && parent_in(origv, id) is Some
                            && #[trigger] has_texture(origv[parent_in(origv, id)->0], name)
                            && !has_texture(origv[id], name) implies holds_texture(
                        self@[id],
                        name,
                        origv[parent_in(origv, id)->0].textures->0[name],
                    ) by {
                        lemma_resolved_textures(origv, id, parent_in(origv, id)->0, name);
                    }
                }
            },
        }
    }
}

} // verus!
