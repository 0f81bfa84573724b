//! Which nodes make a graph, and which graphs make a template.

use vstd::prelude::*;

use crate::graph::{compiled, definition_json, graph_sound, GraphModel};
use crate::graph_node::{
    execution_check, node_check, ExecutionModel, GraphExecutionLimitsError, GraphNodeError,
    GraphRoute, NodeModel,
};
use crate::graph_shape::{
    boundary_failure, can_finish, collected_nodes_sorted, entry_failure, first_failure, is_path,
    is_reachable, joined_holds, leads, no_first_failure, node_names, places, reach_failure,
    set_failure, shape_failure, successor_failure, successor_sets, successors,
    successors_failure,
};
use crate::ordered::{ascending_distinct, keys};
use crate::template::{
    has_cycle, port_failure, port_names, ports_are_terminal, preceded_by_cycle, path_longer_than,
    template_failure, too_deep, CompositionFailure,
};
use crate::walks::repeats;

verus! {

// ---------------------------------------------------------------------------
// Limits and nodes
// ---------------------------------------------------------------------------

/// Limits allow at least one superstep, and 1 to 1024 nodes at once.
pub proof fn limits_accepted_exactly(supersteps: u64, parallelism: u16)
    ensures
        execution_check(supersteps, parallelism) is Ok <==> 0 < supersteps && 0 < parallelism
            && parallelism <= 1024,
        execution_check(supersteps, parallelism) == Err::<(), GraphExecutionLimitsError>(
            GraphExecutionLimitsError::ZeroSupersteps,
        ) <==> supersteps == 0,
        execution_check(supersteps, parallelism) == Err::<(), GraphExecutionLimitsError>(
            GraphExecutionLimitsError::ZeroParallelism,
        ) <==> supersteps > 0 && parallelism == 0,
{
}

/// A node has some outcome, and where it goes on or waits it has somewhere to go
/// on to.
pub proof fn nodes_accepted_exactly(node: NodeModel)
    ensures
        node_check(node) is Ok <==> {
            &&& node.continue_to matches Some(names) ==> names.len() > 0
            &&& node.wait_to matches Some(names) ==> names.len() > 0
            &&& node.continue_to is Some || node.wait_to is Some || node.terminal
                || node.routes.len() > 0
        },
        node_check(node) == Err::<(), GraphNodeError>(GraphNodeError::NoControlOutcome) <==> {
            &&& node.continue_to is None
            &&& node.wait_to is None
            &&& node.terminal == false
            &&& node.routes.len() == 0
        },
{
}

// ---------------------------------------------------------------------------
// Edges
// ---------------------------------------------------------------------------

/// The node may make the other ready: on continuing, by a route, or after a
/// wait.
pub open spec fn selects(node: NodeModel, name: Seq<char>) -> bool {
    ||| node.continue_to matches Some(names) && names.contains(name)
    ||| node.wait_to matches Some(names) && names.contains(name)
    ||| exists|k: int|
        0 <= k < node.routes.len() && (#[trigger] node.routes[k]).successors.contains(name)
}

proof fn successors_say(node: NodeModel, name: Seq<char>)
    ensures
        successors(node).contains(name) <==> selects(node, name),
{
    let sets = successor_sets(node);
    joined_holds(sets, name);
    let before: int = if node.continue_to is Some {
        1
    } else {
        0
    };
    if let Some(names) = node.continue_to {
        assert(sets[0] == names);
    }
    if let Some(names) = node.wait_to {
        assert(sets[sets.len() - 1] == names);
    }
    assert forall|k: int| 0 <= k < node.routes.len() implies sets[before + k] == (
    #[trigger] node.routes[k]).successors by {}
    if successors(node).contains(name) {
        let i = choose|i: int| 0 <= i < sets.len() && (#[trigger] sets[i]).contains(name);
        if before <= i < before + node.routes.len() {
            assert(node.routes[i - before].successors.contains(name));
        }
    }
    if exists|k: int|
        0 <= k < node.routes.len() && (#[trigger] node.routes[k]).successors.contains(name) {
        let k = choose|k: int|
            0 <= k < node.routes.len() && (#[trigger] node.routes[k]).successors.contains(name);
        assert(sets[before + k].contains(name));
    }
}

/// A trail: places of nodes, each of which may make the next ready.
pub open spec fn is_trail(nodes: Seq<NodeModel>, p: Seq<int>) -> bool {
    &&& p.len() > 0
    &&& forall|k: int| 0 <= k < p.len() ==> 0 <= #[trigger] p[k] < nodes.len()
    &&& forall|k: int|
        0 < k < p.len() ==> selects(nodes[p[k - 1]], nodes[#[trigger] p[k]].node_id)
}

proof fn paths_are_trails(nodes: Seq<NodeModel>, p: Seq<int>)
    ensures
        is_path(nodes, p) <==> is_trail(nodes, p),
{
    assert forall|i: int, j: int|
        0 <= i < nodes.len() && 0 <= j < nodes.len() implies (#[trigger] leads(nodes, i, j)
        <==> selects(nodes[i], nodes[j].node_id)) by {
        successors_say(nodes[i], nodes[j].node_id);
    }
    if is_path(nodes, p) {
        assert forall|k: int| 0 < k < p.len() implies selects(
            nodes[p[k - 1]],
            nodes[#[trigger] p[k]].node_id,
        ) by {
            assert(leads(nodes, p[k - 1], p[k]));
        }
    }
    if is_trail(nodes, p) {
        assert forall|k: int| 0 < k < p.len() implies leads(nodes, p[k - 1], #[trigger] p[k]) by {
            assert(selects(nodes[p[k - 1]], nodes[p[k]].node_id));
        }
    }
}

/// A trail leads from an entry to the node.
pub open spec fn on_a_trail_from_an_entry(
    nodes: Seq<NodeModel>,
    entries: Seq<Seq<char>>,
    i: int,
) -> bool {
    exists|p: Seq<int>| #[trigger]
        is_trail(nodes, p) && entries.contains(nodes[p[0]].node_id) && p.last() == i
}

/// A trail leads from the node to one where the run ends or waits.
pub open spec fn on_a_trail_to_an_end(nodes: Seq<NodeModel>, i: int) -> bool {
    exists|p: Seq<int>| #[trigger]
        is_trail(nodes, p) && p[0] == i && (nodes[p.last()].terminal
            || nodes[p.last()].wait_to is Some)
}

proof fn reach_says(nodes: Seq<NodeModel>, entries: Seq<Seq<char>>, i: int)
    ensures
        is_reachable(nodes, entries, i) <==> on_a_trail_from_an_entry(nodes, entries, i),
{
    if is_reachable(nodes, entries, i) {
        let p = choose|p: Seq<int>| #[trigger]
            is_path(nodes, p) && entries.contains(nodes[p[0]].node_id) && p.last() == i;
        paths_are_trails(nodes, p);
    }
    if on_a_trail_from_an_entry(nodes, entries, i) {
        let p = choose|p: Seq<int>| #[trigger]
            is_trail(nodes, p) && entries.contains(nodes[p[0]].node_id) && p.last() == i;
        paths_are_trails(nodes, p);
    }
}

proof fn end_says(nodes: Seq<NodeModel>, i: int)
    ensures
        can_finish(nodes, i) <==> on_a_trail_to_an_end(nodes, i),
{
    if can_finish(nodes, i) {
        let p = choose|p: Seq<int>| #[trigger]
            is_path(nodes, p) && p[0] == i && crate::graph_shape::is_boundary(nodes[p.last()]);
        paths_are_trails(nodes, p);
    }
    if on_a_trail_to_an_end(nodes, i) {
        let p = choose|p: Seq<int>| #[trigger]
            is_trail(nodes, p) && p[0] == i && (nodes[p.last()].terminal
                || nodes[p.last()].wait_to is Some);
        paths_are_trails(nodes, p);
    }
}

proof fn no_item_fails<A, E>(items: Seq<A>, check: spec_fn(A) -> Option<E>, from: int)
    requires
        0 <= from,
        forall|i: int| from <= i < items.len() ==> check(#[trigger] items[i]) is None,
    ensures
        first_failure(items, check, from) is None,
    decreases items.len() - from,
{
    if from < items.len() {
        assert(check(items[from]) is None);
        no_item_fails(items, check, from + 1);
    }
}

/// The set is not larger than what may run at once, and names nodes only.
pub open spec fn set_fits(known: Seq<Seq<char>>, parallelism: u16, names: Seq<Seq<char>>) -> bool {
    &&& names.len() <= parallelism
    &&& forall|x: int| 0 <= x < names.len() ==> known.contains(#[trigger] names[x])
}

/// Every set that the node may select fits.
pub open spec fn node_fits(known: Seq<Seq<char>>, parallelism: u16, node: NodeModel) -> bool {
    &&& node.continue_to matches Some(names) ==> set_fits(known, parallelism, names)
    &&& node.wait_to matches Some(names) ==> set_fits(known, parallelism, names)
    &&& forall|k: int|
        0 <= k < node.routes.len() ==> set_fits(
            known,
            parallelism,
            (#[trigger] node.routes[k]).successors,
        )
}

proof fn set_says(
    known: Seq<Seq<char>>,
    node_id: Seq<char>,
    parallelism: u16,
    names: Seq<Seq<char>>,
)
    ensures
        (set_failure(known, node_id, parallelism))(names) is None <==> set_fits(
            known,
            parallelism,
            names,
        ),
{
    let check = successor_failure(known, node_id);
    if (set_failure(known, node_id, parallelism))(names) is None {
        no_first_failure(names, check, 0);
        assert forall|x: int| 0 <= x < names.len() implies known.contains(#[trigger] names[x]) by {
            assert(check(names[x]) is None);
        }
    }
    if set_fits(known, parallelism, names) {
        assert forall|x: int| 0 <= x < names.len() implies check(#[trigger] names[x]) is None by {
            assert(known.contains(names[x]));
        }
        no_item_fails(names, check, 0);
    }
}

proof fn node_says(known: Seq<Seq<char>>, parallelism: u16, node: NodeModel)
    ensures
        (successors_failure(known, parallelism))(node) is None <==> node_fits(
            known,
            parallelism,
            node,
        ),
{
    let sets = successor_sets(node);
    let check = set_failure(known, node.node_id, parallelism);
    let before: int = if node.continue_to is Some {
        1
    } else {
        0
    };
    assert forall|k: int| 0 <= k < node.routes.len() implies sets[before + k] == (
    #[trigger] node.routes[k]).successors by {}
    if let Some(names) = node.continue_to {
        assert(sets[0] == names);
        set_says(known, node.node_id, parallelism, names);
    }
    if let Some(names) = node.wait_to {
        assert(sets[sets.len() - 1] == names);
        set_says(known, node.node_id, parallelism, names);
    }
    if (successors_failure(known, parallelism))(node) is None {
        no_first_failure(sets, check, 0);
        assert forall|k: int| 0 <= k < node.routes.len() implies set_fits(
            known,
            parallelism,
            (#[trigger] node.routes[k]).successors,
        ) by {
            assert(check(sets[before + k]) is None);
            set_says(known, node.node_id, parallelism, node.routes[k].successors);
        }
        if node.continue_to is Some {
            assert(check(sets[0]) is None);
        }
        if node.wait_to is Some {
            assert(check(sets[sets.len() - 1]) is None);
        }
    }
    if node_fits(known, parallelism, node) {
        assert forall|s: int| 0 <= s < sets.len() implies check(#[trigger] sets[s]) is None by {
            if before <= s < before + node.routes.len() {
                assert(sets[s] == node.routes[s - before].successors);
                set_says(known, node.node_id, parallelism, node.routes[s - before].successors);
            }
        }
        no_item_fails(sets, check, 0);
    }
}

// ---------------------------------------------------------------------------
// Graphs
// ---------------------------------------------------------------------------

/// Nodes make a graph exactly if it is entered somewhere, at no more nodes than
/// may run at once; if entries and successors are all nodes of it, and no
/// selection is too large; if every node lies on a trail from an entry, and on
/// one to a node where the run ends or waits.
pub proof fn shapes_accepted_exactly(
    nodes: Seq<NodeModel>,
    entries: Seq<Seq<char>>,
    limits: ExecutionModel,
)
    ensures
        shape_failure(nodes, entries, limits) is None <==> {
            &&& entries.len() > 0
            &&& set_fits(node_names(nodes), limits.parallelism, entries)
            &&& forall|i: int|
                0 <= i < nodes.len() ==> node_fits(
                    node_names(nodes),
                    limits.parallelism,
                    #[trigger] nodes[i],
                )
            &&& forall|i: int|
                0 <= i < nodes.len() ==> #[trigger] on_a_trail_from_an_entry(nodes, entries, i)
            &&& forall|i: int| 0 <= i < nodes.len() ==> #[trigger] on_a_trail_to_an_end(nodes, i)
        },
{
    let known = node_names(nodes);
    let all = places(nodes.len());
    let (entry, successor) = (entry_failure(known), successors_failure(known, limits.parallelism));
    let (reach, boundary) = (reach_failure(nodes, entries), boundary_failure(nodes));
    assert forall|i: int| 0 <= i < nodes.len() implies (#[trigger] on_a_trail_from_an_entry(
        nodes,
        entries,
        i,
    ) <==> reach(all[i]) is None) by {
        reach_says(nodes, entries, i);
    }
    assert forall|i: int| 0 <= i < nodes.len() implies (#[trigger] on_a_trail_to_an_end(nodes, i)
        <==> boundary(all[i]) is None) by {
        end_says(nodes, i);
    }
    if shape_failure(nodes, entries, limits) is None {
        no_first_failure(entries, entry, 0);
        no_first_failure(nodes, successor, 0);
        no_first_failure(all, reach, 0);
        no_first_failure(all, boundary, 0);
        assert forall|x: int| 0 <= x < entries.len() implies known.contains(
            #[trigger] entries[x],
        ) by {
            assert(entry(entries[x]) is None);
        }
        assert forall|i: int| 0 <= i < nodes.len() implies node_fits(
            known,
            limits.parallelism,
            #[trigger] nodes[i],
        ) by {
            assert(successor(nodes[i]) is None);
            node_says(known, limits.parallelism, nodes[i]);
        }
    }
    if entries.len() > 0 && set_fits(known, limits.parallelism, entries) && (forall|i: int|
        0 <= i < nodes.len() ==> node_fits(known, limits.parallelism, #[trigger] nodes[i])) && (
    forall|i: int|
        0 <= i < nodes.len() ==> #[trigger] on_a_trail_from_an_entry(nodes, entries, i)) && (forall|
        i: int,
    |
        0 <= i < nodes.len() ==> #[trigger] on_a_trail_to_an_end(nodes, i)) {
        assert forall|x: int| 0 <= x < entries.len() implies entry(
            #[trigger] entries[x],
        ) is None by {
            assert(known.contains(entries[x]));
        }
        no_item_fails(entries, entry, 0);
        assert forall|i: int| 0 <= i < nodes.len() implies successor(
            #[trigger] nodes[i],
        ) is None by {
            node_says(known, limits.parallelism, nodes[i]);
        }
        no_item_fails(nodes, successor, 0);
        assert forall|i: int| 0 <= i < all.len() implies reach(#[trigger] all[i]) is None by {
            assert(on_a_trail_from_an_entry(nodes, entries, i));
        }
        no_item_fails(all, reach, 0);
        assert forall|i: int| 0 <= i < all.len() implies boundary(#[trigger] all[i]) is None by {
            assert(on_a_trail_to_an_end(nodes, i));
        }
        no_item_fails(all, boundary, 0);
    }
}

/// A compiled graph is what it was compiled of: it has the nodes that were given
/// and all else as it was, under the digest of the canonical form of its
/// definition, which has at most 2097152 bytes.
pub proof fn compiled_graphs_keep_their_parts(graph: GraphModel, supplied: Option<Seq<u8>>)
    requires
        compiled(graph, supplied) is Ok,
    ensures
        ({
            let made = compiled(graph, supplied)->Ok_0;
            &&& made.identity == graph.identity
            &&& made.input_schema == graph.input_schema
            &&& made.state_schema == graph.state_schema
            &&& made.update_schema == graph.update_schema
            &&& made.output_schema == graph.output_schema
            &&& made.reducer == graph.reducer
            &&& made.entry_nodes == graph.entry_nodes
            &&& made.limits == graph.limits
            &&& made.child_runs == graph.child_runs
            &&& made.nodes.len() == graph.nodes.len()
            &&& forall|node: NodeModel| #[trigger]
                made.nodes.contains(node) <==> graph.nodes.contains(node)
            &&& crate::ordered::ascending(node_names(made.nodes))
            &&& crate::canonical::canonical_bytes(definition_json(made)) matches Some(bytes)
            &&& bytes.len() <= 2097152
            &&& made.definition_digest == crate::digest::sha256_hash(bytes)
            &&& supplied matches Some(digest) ==> digest == made.definition_digest
            &&& graph.child_runs matches Some(policy) ==> forall|i: int|
                0 <= i < policy.declarations.len() ==> node_names(made.nodes).contains(
                    (#[trigger] policy.declarations[i]).node_id,
                )
        }),
{
    collected_nodes_sorted(graph.nodes);
    crate::graph_laws::nodes_collected_exactly(graph.nodes);
    crate::ordered::arranged_is_sorted::<crate::graph_node::GraphNode>(graph.nodes);
    let made = compiled(graph, supplied)->Ok_0;
    let sorted = GraphModel { nodes: made.nodes, ..graph };
    crate::graph::definition_ignores_digest(sorted, made.definition_digest);
    assert(GraphModel { definition_digest: made.definition_digest, ..sorted } == made);
}

/// No two nodes of a graph have one route: routes are told apart by their names
/// alone.
pub proof fn routes_belong_to_one_node(graph: GraphModel, i: int, j: int, k: int, l: int)
    requires
        graph_sound(graph),
        0 <= i < graph.nodes.len(),
        0 <= j < graph.nodes.len(),
        0 <= k < graph.nodes[i].routes.len(),
        0 <= l < graph.nodes[j].routes.len(),
        graph.nodes[i].routes[k].route_id == graph.nodes[j].routes[l].route_id,
    ensures
        i == j,
        k == l,
{
    let (a, b) = (
        keys::<GraphRoute>(graph.nodes[i].routes),
        keys::<GraphRoute>(graph.nodes[j].routes),
    );
    assert(a[k] == b[l]);
    assert(a.contains(a[k]));
    assert(b.contains(b[l]));
    if i == j {
        ascending_distinct(a);
    }
}

// ---------------------------------------------------------------------------
// Templates
// ---------------------------------------------------------------------------

/// A graph makes a template exactly if it delegates nothing, a node that ends it
/// does nothing else, there is one, none of them is an entry, no trail comes
/// back to where it was, and none to a node that is executed has more nodes
/// than the graph has supersteps.
pub proof fn templates_accepted_exactly(graph: GraphModel)
    requires
        graph_sound(graph),
    ensures
        template_failure(graph) is None <==> {
            &&& graph.child_runs is None
            &&& forall|i: int|
                0 <= i < graph.nodes.len() ==> ends_alone(#[trigger] graph.nodes[i])
            &&& exists|i: int| 0 <= i < graph.nodes.len() && (#[trigger] graph.nodes[i]).terminal
            &&& forall|i: int|
                0 <= i < graph.nodes.len() && (#[trigger] graph.nodes[i]).terminal
                    ==> !graph.entry_nodes.contains(graph.nodes[i].node_id)
            &&& forall|p: Seq<int>| #[trigger]
                is_trail(graph.nodes, p) ==> !repeats(p) && (graph.nodes[p.last()].terminal
                    || p.len() <= graph.limits.supersteps)
        },
{
    let nodes = graph.nodes;
    let ports = port_names(nodes);
    let steps = graph.limits.supersteps;
    ports_are_terminal(nodes);
    ascending_distinct(node_names(nodes));
    assert forall|i: int| 0 <= i < nodes.len() implies (ports.contains(
        (#[trigger] nodes[i]).node_id,
    ) <==> nodes[i].terminal) by {
        if ports.contains(nodes[i].node_id) {
            let k = choose|k: int|
                0 <= k < nodes.len() && (#[trigger] nodes[k]).node_id == nodes[i].node_id
                    && nodes[k].terminal;
            assert(node_names(nodes)[k] == node_names(nodes)[i]);
        }
    }
    if template_failure(graph) is None {
        no_first_failure(nodes, port_failure(), 0);
        assert forall|i: int| 0 <= i < nodes.len() implies ends_alone(#[trigger] nodes[i]) by {
            assert((port_failure())(nodes[i]) is None);
        }
        assert(ports.contains(ports[0]));
        assert forall|i: int| 0 <= i < nodes.len() && (
        #[trigger] nodes[i]).terminal implies !graph.entry_nodes.contains(nodes[i].node_id) by {
            if graph.entry_nodes.contains(nodes[i].node_id) {
                let e = graph.entry_nodes.index_of(nodes[i].node_id);
                assert(ports.contains(graph.entry_nodes[e]));
            }
        }
        assert forall|p: Seq<int>| #[trigger] is_trail(nodes, p) implies !repeats(p) && (
        nodes[p.last()].terminal || p.len() <= steps) by {
            paths_are_trails(nodes, p);
            let j = p.last();
            assert(p[p.len() - 1] == j);
            assert(0 <= j < nodes.len());
            if repeats(p) {
                assert(preceded_by_cycle(nodes, j));
                assert(has_cycle(nodes));
            }
            if !nodes[j].terminal && p.len() > steps {
                assert(path_longer_than(nodes, j, steps));
                if preceded_by_cycle(nodes, j) {
                    assert(has_cycle(nodes));
                }
                assert(too_deep(nodes, ports, steps)) by {
                    assert(nodes[j] == nodes[j]);
                }
            }
        }
    }
    if graph.child_runs is None && (forall|i: int|
        0 <= i < nodes.len() ==> ends_alone(#[trigger] nodes[i])) && (exists|i: int|
        0 <= i < nodes.len() && (#[trigger] nodes[i]).terminal) && (forall|i: int|
        0 <= i < nodes.len() && (#[trigger] nodes[i]).terminal ==> !graph.entry_nodes.contains(
            nodes[i].node_id,
        )) && (forall|p: Seq<int>| #[trigger]
        is_trail(nodes, p) ==> !repeats(p) && (nodes[p.last()].terminal || p.len() <= steps)) {
        assert forall|i: int| 0 <= i < nodes.len() implies (port_failure())(
            #[trigger] nodes[i],
        ) is None by {
            assert(ends_alone(nodes[i]));
        }
        no_item_fails(nodes, port_failure(), 0);
        let t = choose|t: int| 0 <= t < nodes.len() && (#[trigger] nodes[t]).terminal;
        assert(ports.contains(nodes[t].node_id));
        if crate::template::entry_is_port(graph.entry_nodes, ports) {
            let e = choose|e: int|
                0 <= e < graph.entry_nodes.len() && ports.contains(
                    #[trigger] graph.entry_nodes[e],
                );
            let k = choose|k: int|
                0 <= k < nodes.len() && (#[trigger] nodes[k]).node_id == graph.entry_nodes[e]
                    && nodes[k].terminal;
            assert(graph.entry_nodes.contains(nodes[k].node_id));
        }
        if has_cycle(nodes) {
            let j = choose|j: int| 0 <= j < nodes.len() && #[trigger] preceded_by_cycle(nodes, j);
            let p = choose|p: Seq<int>| #[trigger]
                is_path(nodes, p) && p.last() == j && repeats(p);
            paths_are_trails(nodes, p);
        }
        if too_deep(nodes, ports, steps) {
            let j = choose|j: int|
                #![trigger nodes[j]]
                0 <= j < nodes.len() && !ports.contains(nodes[j].node_id) && !preceded_by_cycle(
                    nodes,
                    j,
                ) && path_longer_than(nodes, j, steps);
            let p = choose|p: Seq<int>| #[trigger]
                is_path(nodes, p) && p.last() == j && p.len() > steps;
            paths_are_trails(nodes, p);
        }
    }
}

/// A node that ends the run does nothing else.
pub open spec fn ends_alone(node: NodeModel) -> bool {
    node.terminal ==> node.continue_to is None && node.wait_to is None && node.routes.len() == 0
}

/// A graph that delegates is refused as a template before all else.
pub proof fn delegating_graphs_are_no_templates(graph: GraphModel)
    ensures
        graph.child_runs is Some <==> template_failure(graph) == Some(
            CompositionFailure::ChildDelegationUnsupported,
        ),
{
    if graph.child_runs is None {
        let mixed = first_failure(graph.nodes, port_failure(), 0);
        mixed_says(graph.nodes, 0);
    }
}

proof fn mixed_says(nodes: Seq<NodeModel>, from: int)
    requires
        0 <= from,
    ensures
        first_failure(nodes, port_failure(), from) matches Some(e) ==> e is MixedReturnPort,
    decreases nodes.len() - from,
{
    if from < nodes.len() {
        mixed_says(nodes, from + 1);
    }
}

} // verus!
