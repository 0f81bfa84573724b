//! What holds of every compiled graph.

use vstd::prelude::*;

use crate::graph::{compiled, graph_sound, GraphModel};
use crate::graph_node::{GraphNode, GraphRoute, NodeModel};
use crate::graph_shape::{
    boundary_failure, can_finish, collected_nodes, collected_nodes_sorted, entry_failure,
    first_failure, is_reachable, known_successors, no_first_failure, node_failure, node_names,
    nodes_failure, places, reach_failure, route_failure, route_owner, routes_disjoint,
    successor_sets, successors_known, CompileFailure,
};
use crate::ordered::{
    arranged_of_ascending, arrangement_ignores_order, ascending_distinct, keys, rearranged,
    rearrangement_keeps,
};

verus! {

/// A route has an owner exactly if a node declares it.
proof fn owner_is_exact(nodes: Seq<NodeModel>, route: Seq<char>)
    ensures
        route_owner(nodes, route) is Some <==> exists|i: int|
            0 <= i < nodes.len() && #[trigger] keys::<GraphRoute>(nodes[i].routes).contains(route),
    decreases nodes.len(),
{
    if nodes.len() > 0 {
        let front = nodes.drop_last();
        owner_is_exact(front, route);
        if route_owner(front, route) is Some {
            let i = choose|i: int|
                0 <= i < front.len() && #[trigger] keys::<GraphRoute>(front[i].routes).contains(
                    route,
                );
            assert(keys::<GraphRoute>(nodes[i].routes).contains(route));
        }
        if exists|i: int|
            0 <= i < nodes.len() && #[trigger] keys::<GraphRoute>(nodes[i].routes).contains(route) {
            let i = choose|i: int|
                0 <= i < nodes.len() && #[trigger] keys::<GraphRoute>(nodes[i].routes).contains(
                    route,
                );
            if i < front.len() {
                assert(keys::<GraphRoute>(front[i].routes).contains(route));
            }
        }
    }
}

proof fn no_failure_anywhere<A, E>(items: Seq<A>, check: spec_fn(A) -> Option<E>, from: int)
    requires
        0 <= from,
        forall|i: int| from <= i < items.len() ==> check(#[trigger] items[i]) is None,
    ensures
        first_failure(items, check, from) is None,
    decreases items.len() - from,
{
    if from < items.len() {
        assert(check(items[from]) is None);
        no_failure_anywhere(items, check, from + 1);
    }
}

proof fn nodes_do_not_fail(nodes: Seq<NodeModel>, from: int)
    requires
        0 <= from,
        forall|i: int|
            from <= i < nodes.len() ==> #[trigger] node_failure(nodes.take(i), nodes[i]) is None,
    ensures
        nodes_failure(nodes, from) is None,
    decreases nodes.len() - from,
{
    if from < nodes.len() {
        assert(node_failure(nodes.take(from), nodes[from]) is None);
        nodes_do_not_fail(nodes, from + 1);
    }
}

proof fn no_node_fails(nodes: Seq<NodeModel>, from: int)
    requires
        0 <= from,
        nodes_failure(nodes, from) is None,
    ensures
        forall|i: int|
            from <= i < nodes.len() ==> #[trigger] node_failure(nodes.take(i), nodes[i]) is None,
    decreases nodes.len() - from,
{
    if from < nodes.len() {
        no_node_fails(nodes, from + 1);
    }
}

/// Nodes are collected exactly if there are some and not too many, and no name
/// and no route of theirs repeats.
pub proof fn nodes_collected_exactly(nodes: Seq<NodeModel>)
    ensures
        collected_nodes(nodes) is Ok <==> {
            &&& 0 < nodes.len() <= 1024
            &&& node_names(nodes).no_duplicates()
            &&& routes_disjoint(nodes)
        },
{
    if collected_nodes(nodes) is Ok {
        collected_nodes_sorted(nodes);
        no_node_fails(nodes, 0);
        assert forall|i: int, j: int, route: Seq<char>|
            0 <= i < j < nodes.len() && #[trigger] keys::<GraphRoute>(nodes[i].routes).contains(
                route,
            ) implies !#[trigger] keys::<GraphRoute>(nodes[j].routes).contains(route) by {
            let done = nodes.take(j);
            assert(node_failure(done, nodes[j]) is None);
            owner_is_exact(done, route);
            assert(keys::<GraphRoute>(done[i].routes).contains(route));
            let names = keys::<GraphRoute>(nodes[j].routes);
            if names.contains(route) {
                let k = names.index_of(route);
                no_first_failure(nodes[j].routes, route_failure(done, nodes[j].node_id), 0);
                assert(route_failure(done, nodes[j].node_id)(nodes[j].routes[k]) is None);
            }
        }
    }
    if 0 < nodes.len() <= 1024 && node_names(nodes).no_duplicates() && routes_disjoint(nodes) {
        let all = node_names(nodes);
        assert forall|i: int| 0 <= i < nodes.len() implies #[trigger] node_failure(
            nodes.take(i),
            nodes[i],
        ) is None by {
            let done = nodes.take(i);
            let check = route_failure(done, nodes[i].node_id);
            assert forall|k: int| 0 <= k < nodes[i].routes.len() implies check(
                #[trigger] nodes[i].routes[k],
            ) is None by {
                let route = nodes[i].routes[k].route_id;
                assert(keys::<GraphRoute>(nodes[i].routes)[k] == route);
                assert(keys::<GraphRoute>(nodes[i].routes).contains(route));
                owner_is_exact(done, route);
                if route_owner(done, route) is Some {
                    let h = choose|h: int|
                        0 <= h < done.len() && #[trigger] keys::<GraphRoute>(
                            done[h].routes,
                        ).contains(route);
                    assert(keys::<GraphRoute>(nodes[h].routes).contains(route));
                }
            }
            no_failure_anywhere(nodes[i].routes, check, 0);
            let names = node_names(done);
            assert forall|k: int| 0 <= k < names.len() implies names[k] != nodes[i].node_id by {
                assert(names[k] == all[k]);
                assert(all[i] == nodes[i].node_id);
            }
        }
        nodes_do_not_fail(nodes, 0);
    }
}

/// Nodes in another order declare their routes as before.
pub proof fn routes_stay_disjoint(a: Seq<NodeModel>, b: Seq<NodeModel>)
    requires
        node_names(b).no_duplicates(),
        forall|m: NodeModel| #[trigger] b.contains(m) ==> a.contains(m),
        routes_disjoint(a),
    ensures
        routes_disjoint(b),
{
    let names = node_names(b);
    assert forall|i: int, j: int, route: Seq<char>|
        0 <= i < b.len() && 0 <= j < b.len() && i != j && #[trigger] keys::<GraphRoute>(
            b[i].routes,
        ).contains(route) implies !#[trigger] keys::<GraphRoute>(b[j].routes).contains(route) by {
        assert(b.contains(b[i]) && b.contains(b[j]));
        let (k, l) = (a.index_of(b[i]), a.index_of(b[j]));
        assert(names[i] != names[j]);
        assert(k != l);
        assert(keys::<GraphRoute>(a[k].routes).contains(route));
        assert(!keys::<GraphRoute>(a[l].routes).contains(route));
    }
}

/// Collected nodes declare disjoint routes.
pub proof fn collected_routes_disjoint(nodes: Seq<NodeModel>)
    requires
        collected_nodes(nodes) is Ok,
    ensures
        routes_disjoint(collected_nodes(nodes)->Ok_0),
{
    nodes_collected_exactly(nodes);
    collected_nodes_sorted(nodes);
    ascending_distinct(node_names(collected_nodes(nodes)->Ok_0));
    routes_stay_disjoint(nodes, collected_nodes(nodes)->Ok_0);
}

/// The order in which nodes are given does not matter: nodes that compile do so
/// in every order, to the same graph with the same digest.
pub proof fn compilation_ignores_node_order(
    graph: GraphModel,
    nodes: Seq<NodeModel>,
    supplied: Option<Seq<u8>>,
)
    requires
        rearranged(graph.nodes, nodes),
        compiled(graph, supplied) is Ok,
    ensures
        compiled(GraphModel { nodes, ..graph }, supplied) == compiled(graph, supplied),
{
    let first = graph.nodes;
    nodes_collected_exactly(first);
    nodes_collected_exactly(nodes);
    rearrangement_keeps::<GraphNode>(first, nodes);
    routes_stay_disjoint(first, nodes);
    arrangement_ignores_order::<GraphNode>(first, nodes);
    let graph2 = GraphModel { nodes, ..graph };
    let sorted = collected_nodes(first)->Ok_0;
    assert(GraphModel { nodes: sorted, ..graph2 } == GraphModel { nodes: sorted, ..graph });
}

/// In a compiled graph every entry and every successor is a node, every node
/// can be reached from an entry, every node can come to an end or a wait, and
/// no ready set exceeds the parallelism.
pub proof fn compiled_graph_is_connected(graph: GraphModel)
    requires
        graph_sound(graph),
    ensures
        forall|n: Seq<char>| #[trigger]
            graph.entry_nodes.contains(n) ==> node_names(graph.nodes).contains(n),
        successors_known(graph.nodes),
        forall|i: int|
            0 <= i < graph.nodes.len() ==> #[trigger] is_reachable(
                graph.nodes,
                graph.entry_nodes,
                i,
            ),
        forall|i: int| 0 <= i < graph.nodes.len() ==> #[trigger] can_finish(graph.nodes, i),
        0 < graph.entry_nodes.len() <= graph.limits.parallelism,
        forall|i: int, s: int|
            0 <= i < graph.nodes.len() && 0 <= s < successor_sets(graph.nodes[i]).len() ==> (
            #[trigger] successor_sets(graph.nodes[i])[s]).len() <= graph.limits.parallelism,
{
    let nodes = graph.nodes;
    let entries = graph.entry_nodes;
    known_successors(nodes, graph.limits.parallelism);
    let known = node_names(nodes);
    no_first_failure(entries, entry_failure(known), 0);
    assert forall|n: Seq<char>| #[trigger] entries.contains(n) implies known.contains(n) by {
        let k = entries.index_of(n);
        assert(entry_failure(known)(entries[k]) is None);
    }
    no_first_failure(places(nodes.len()), reach_failure(nodes, entries), 0);
    no_first_failure(places(nodes.len()), boundary_failure(nodes), 0);
    assert forall|i: int| 0 <= i < nodes.len() implies #[trigger] is_reachable(
        nodes,
        entries,
        i,
    ) by {
        assert(reach_failure(nodes, entries)(places(nodes.len())[i]) is None);
    }
    assert forall|i: int| 0 <= i < nodes.len() implies #[trigger] can_finish(nodes, i) by {
        assert(boundary_failure(nodes)(places(nodes.len())[i]) is None);
    }
}

/// Compiling a compiled graph again gives the same graph, and its digest is
/// accepted as that of its definition.
pub proof fn compilation_is_idempotent(graph: GraphModel)
    requires
        graph_sound(graph),
    ensures
        compiled(graph, Some(graph.definition_digest)) == Ok::<GraphModel, CompileFailure>(graph),
{
    ascending_distinct(node_names(graph.nodes));
    nodes_collected_exactly(graph.nodes);
    arranged_of_ascending::<GraphNode>(graph.nodes);
}

/// What is recorded of a compiled graph gives the graph back, in whatever order
/// its nodes are recorded. With any other digest it is rejected.
pub proof fn recorded_graph_restores(graph: GraphModel, nodes: Seq<NodeModel>, digest: Seq<u8>)
    requires
        graph_sound(graph),
        rearranged(graph.nodes, nodes),
    ensures
        compiled(GraphModel { nodes, ..graph }, Some(graph.definition_digest)) == Ok::<
            GraphModel,
            CompileFailure,
        >(graph),
        digest != graph.definition_digest ==> compiled(GraphModel { nodes, ..graph }, Some(digest))
            == Err::<GraphModel, CompileFailure>(CompileFailure::DigestMismatch),
{
    compilation_is_idempotent(graph);
    compilation_ignores_node_order(graph, nodes, Some(graph.definition_digest));
}

} // verus!
