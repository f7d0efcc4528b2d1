//! The order in which models are resolved: every model after the model that
//! it inherits from. The order comes from the crate `topo_sort`; what is
//! stated of it here is believed, not proved.

use vstd::prelude::*;
use topo_sort::{SortResults, TopoSort};
use crate::text::names_of;

verus! {

/// `topo_sort::TopoSort`, a collection of nodes with the nodes that each
/// depends on, which sorts them when asked.
#[verifier::external_type_specification]
#[verifier::external_body]
#[verifier::reject_recursive_types(T)]
pub struct ExTopoSort<T: Eq + std::hash::Hash>(TopoSort<T>);

/// What a sorter holds: for each node the set of nodes that it was inserted
/// with, its dependencies.
pub uninterp spec fn dependencies(sorter: TopoSort<String>) -> Map<Seq<char>, Set<Seq<char>>>;

/// What sorting gave: all the nodes in order, or, where the dependencies run
/// in a circle, those that were sorted before the circle was met.
pub enum SortOutcome {
    Full(Vec<String>),
    Partial(Vec<String>),
}

/// The set that holds `dependency`, or nothing.
pub open spec fn dependency_set(dependency: Option<Seq<char>>) -> Set<Seq<char>> {
    match dependency {
        Some(d) => set![d],
        None => Set::empty(),
    }
}

/// `order` holds every node of `graph` once, each after the nodes that it
/// depends on. A dependency that is no node of `graph` does not count, nor
/// does a node's dependency on itself.
pub open spec fn is_dependency_order(
    graph: Map<Seq<char>, Set<Seq<char>>>,
    order: Seq<Seq<char>>,
) -> bool {
    &&& order.no_duplicates()
    &&& forall|node: Seq<char>| graph.contains_key(node) <==> order.contains(node)
    &&& forall|i: int, d: Seq<char>|
        0 <= i < order.len() && (#[trigger] graph[order[i]].contains(d)) && d != order[i]
            && graph.contains_key(d) ==> exists|j: int| 0 <= j < i && order[j] == d
}

/// `TopoSort::with_capacity`: a sorter without nodes.
#[verifier::external_body]
pub(crate) fn sorter_with_capacity(capacity: usize) -> (r: TopoSort<String>)
    ensures
        forall|node: Seq<char>| !dependencies(r).contains_key(node),
{
    TopoSort::with_capacity(capacity)
}

/// `TopoSort::insert`: `node` is now held with `dependency` as all that it
/// depends on, whatever it was held with before.
#[verifier::external_body]
pub(crate) fn sorter_insert(sorter: &mut TopoSort<String>, node: String, dependency: Option<String>)
    ensures
        dependencies(*final(sorter)) == dependencies(*old(sorter)).insert(
            node@,
            dependency_set(
                match dependency {
                    Some(d) => Some(d@),
                    None => None,
                },
            ),
        ),
{
    sorter.insert(node, dependency);
}

/// `TopoSort::into_vec_nodes`: the nodes in an order in which each comes
/// after its dependencies, where there is such an order; which of several
/// such orders is not stated. Where there is none the result is partial.
#[verifier::external_body]
pub(crate) fn sorter_into_vec_nodes(sorter: TopoSort<String>) -> (r: SortOutcome)
    ensures
        match r {
            SortOutcome::Full(order) => is_dependency_order(
                dependencies(sorter),
                names_of(order@),
            ),
            SortOutcome::Partial(_) => forall|order: Seq<Seq<char>>|
                !is_dependency_order(dependencies(sorter), order),
        },
{
    match sorter.into_vec_nodes() {
        SortResults::Full(order) => SortOutcome::Full(order),
        SortResults::Partial(order) => SortOutcome::Partial(order),
    }
}

} // verus!
