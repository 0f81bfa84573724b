//! What holds of every barrier plan.

use vstd::prelude::*;

use crate::barrier::{
    control_step, gathering, ordered_outcome, plan_parts, result_failure, results_failure, united,
    update_step, Gathered, GraphReducer, GraphSchemaValidator,
};
use crate::checkpoint::{CheckpointModel, ControlModel, PendingNodeResult, ResultModel};
use crate::graph::{graph_sound, GraphModel};
use crate::graph_node::{node_check, GraphNode, GraphRoute, NodeModel};
use crate::graph_shape::{
    joined_holds, known_successors, node_names, successor_sets, successors, successors_known,
};
use crate::names::NodeId;
use crate::ordered::{
    arranged, arranged_is_sorted, arrangement_ignores_order, ascending, ascending_unique, find,
    find_is_exact, keys, placed, placed_keeps_order, rearranged, rearrangement_keeps,
};
use crate::ready::{node_keys, ready_sound};

verus! {

/// The union holds the names of both lists, in order.
pub proof fn united_is_union(names: Seq<Seq<char>>, more: Seq<Seq<char>>)
    requires
        ascending(names),
    ensures
        ascending(united(names, more)),
        forall|n: Seq<char>| #[trigger]
            united(names, more).contains(n) <==> names.contains(n) || more.contains(n),
    decreases more.len(),
{
    if more.len() > 0 {
        let front = more.drop_last();
        united_is_union(names, front);
        let before = united(names, front);
        node_keys(before);
        node_keys(placed::<NodeId>(before, more.last()));
        if !before.contains(more.last()) {
            placed_keeps_order::<NodeId>(before, more.last());
        }
        assert forall|n: Seq<char>| #[trigger] more.contains(n) <==> front.contains(n) || n
            == more.last() by {
            if more.contains(n) {
                let k = more.index_of(n);
                if k < front.len() {
                    assert(front[k] == n);
                }
            }
            if front.contains(n) {
                let k = front.index_of(n);
                assert(more[k] == n);
            }
            assert(more[more.len() - 1] == more.last());
        }
    }
}

/// Where results fail on nothing from a place on, none of them does.
proof fn no_result_fails(base: CheckpointModel, results: Seq<ResultModel>, from: int)
    requires
        0 <= from,
        results_failure(base, results, from) is None,
    ensures
        forall|i: int|
            from <= i < results.len() ==> #[trigger] result_failure(base, results, i) is None,
    decreases results.len() - from,
{
    if from < results.len() {
        no_result_fails(base, results, from + 1);
    }
}

/// Where none of the results fails, they fail on nothing.
proof fn results_do_not_fail(base: CheckpointModel, results: Seq<ResultModel>, from: int)
    requires
        0 <= from,
        forall|i: int|
            from <= i < results.len() ==> #[trigger] result_failure(base, results, i) is None,
    ensures
        results_failure(base, results, from) is None,
    decreases results.len() - from,
{
    if from < results.len() {
        assert(result_failure(base, results, from) is None);
        results_do_not_fail(base, results, from + 1);
    }
}

/// The result belongs to the checkpoint.
pub open spec fn belongs(base: CheckpointModel, result: ResultModel) -> bool {
    &&& result.activation.base_checkpoint == base.head
    &&& result.activation.graph_namespace.len() == 0
    &&& base.ready_nodes.contains(result.activation.node_id)
}

/// Results are put in order exactly if there is one for each ready node, all
/// of the checkpoint.
pub proof fn results_accepted_exactly(base: CheckpointModel, results: Seq<ResultModel>)
    ensures
        ordered_outcome(base, results) is Ok <==> {
            &&& results.len() == base.ready_nodes.len()
            &&& keys::<PendingNodeResult>(results).no_duplicates()
            &&& forall|i: int| 0 <= i < results.len() ==> belongs(base, #[trigger] results[i])
        },
{
    let names = keys::<PendingNodeResult>(results);
    if results_failure(base, results, 0) is None {
        no_result_fails(base, results, 0);
        assert forall|i: int, j: int|
            0 <= i < names.len() && 0 <= j < names.len() && i != j implies names[i] != names[j] by {
            let (a, b) = if i < j {
                (i, j)
            } else {
                (j, i)
            };
            assert(result_failure(base, results, b) is None);
            let before = keys::<PendingNodeResult>(results.take(b));
            assert(before[a] == names[a]);
        }
        assert forall|i: int| 0 <= i < results.len() implies belongs(base, #[trigger] results[i]) by {
            assert(result_failure(base, results, i) is None);
        }
    }
    if names.no_duplicates() && (forall|i: int|
        0 <= i < results.len() ==> belongs(base, #[trigger] results[i])) {
        assert forall|i: int| 0 <= i < results.len() implies #[trigger] result_failure(
            base,
            results,
            i,
        ) is None by {
            assert(belongs(base, results[i]));
            let before = keys::<PendingNodeResult>(results.take(i));
            assert forall|k: int| 0 <= k < before.len() implies before[k]
                != results[i].activation.node_id by {
                assert(before[k] == names[k]);
                assert(names[i] == results[i].activation.node_id);
            }
        }
        results_do_not_fail(base, results, 0);
    }
}

/// The results of a barrier, in order, are those of the ready nodes: one for
/// each and no other.
pub proof fn one_result_per_ready_node(base: CheckpointModel, results: Seq<ResultModel>)
    requires
        ready_sound(base.ready_nodes),
        ordered_outcome(base, results) is Ok,
    ensures
        keys::<PendingNodeResult>(ordered_outcome(base, results)->Ok_0) == base.ready_nodes,
{
    results_accepted_exactly(base, results);
    let ordered = arranged::<PendingNodeResult>(results);
    arranged_is_sorted::<PendingNodeResult>(results);
    let names = keys::<PendingNodeResult>(ordered);
    let ready = base.ready_nodes;
    crate::ordered::ascending_distinct(names);
    crate::ordered::ascending_distinct(ready);
    let given = keys::<PendingNodeResult>(results);
    assert forall|n: Seq<char>| names.contains(n) implies ready.contains(n) by {
        assert(given.contains(n));
        let k = given.index_of(n);
        assert(belongs(base, results[k]));
    }
    names.unique_seq_to_set();
    ready.unique_seq_to_set();
    assert(names.to_set().subset_of(ready.to_set())) by {
        assert forall|n: Seq<char>| names.to_set().contains(n) implies ready.to_set().contains(
            n,
        ) by {
            assert(names.contains(n));
        }
    }
    vstd::set_lib::lemma_subset_equality(names.to_set(), ready.to_set());
    assert forall|n: Seq<char>|
        #![trigger names.contains(n)]
        #![trigger ready.contains(n)]
        names.contains(n) <==> ready.contains(n) by {
        if ready.contains(n) {
            assert(ready.to_set().contains(n));
            assert(names.to_set().contains(n));
        }
    }
    ascending_unique(names, ready);
}

/// The order in which the nodes came to their results does not matter: a plan
/// that results lead to, they lead to in every order.
pub proof fn planning_ignores_completion_order<
    V: GraphSchemaValidator + ?Sized,
    R: GraphReducer + ?Sized,
>(
    graph: GraphModel,
    base: CheckpointModel,
    a: Seq<ResultModel>,
    b: Seq<ResultModel>,
    schemas: &V,
    reducer: &R,
)
    requires
        rearranged(a, b),
        plan_parts(graph, base, a, schemas, reducer) is Ok,
    ensures
        plan_parts(graph, base, b, schemas, reducer) == plan_parts(
            graph,
            base,
            a,
            schemas,
            reducer,
        ),
{
    results_accepted_exactly(base, a);
    results_accepted_exactly(base, b);
    rearrangement_keeps::<PendingNodeResult>(a, b);
    assert forall|i: int| 0 <= i < b.len() implies belongs(base, #[trigger] b[i]) by {
        assert(b.contains(b[i]));
        assert(a.contains(b[i]));
        let k = a.index_of(b[i]);
        assert(belongs(base, a[k]));
    }
    arrangement_ignores_order::<PendingNodeResult>(a, b);
}

/// The names of a set that a node may select.
spec fn known_names(graph: GraphModel, names: Seq<Seq<char>>) -> bool {
    forall|n: Seq<char>| #[trigger] names.contains(n) ==> node_names(graph.nodes).contains(n)
}

proof fn selected_set_is_known(graph: GraphModel, node: NodeModel, s: int)
    requires
        successors_known(graph.nodes),
        graph.nodes.contains(node),
        0 <= s < successor_sets(node).len(),
    ensures
        known_names(graph, successor_sets(node)[s]),
{
    let set = successor_sets(node)[s];
    let i = graph.nodes.index_of(node);
    assert forall|n: Seq<char>| #[trigger] set.contains(n) implies node_names(graph.nodes).contains(
        n,
    ) by {
        joined_holds(successor_sets(node), n);
        assert(successor_sets(node)[s].contains(n));
        assert(successors(graph.nodes[i]).contains(n));
    }
}

/// The set that a control selects.
spec fn selected(node: NodeModel, control: ControlModel) -> Seq<Seq<char>> {
    match control {
        ControlModel::Continue => node.continue_to->Some_0,
        ControlModel::Route { route_id } => find::<GraphRoute>(
            node.routes,
            route_id,
        )->Some_0.successors,
        ControlModel::Wait { waits } => node.wait_to->Some_0,
        ControlModel::Terminal { output } => Seq::empty(),
    }
}

proof fn selected_is_known<V: GraphSchemaValidator + ?Sized>(
    graph: GraphModel,
    schemas: &V,
    node: NodeModel,
    node_id: Seq<char>,
    control: ControlModel,
    gathered: Gathered,
)
    requires
        successors_known(graph.nodes),
        graph.nodes.contains(node),
        node_check(node) is Ok,
        control_step(graph, schemas, node, node_id, control, gathered) is Ok,
    ensures
        known_names(graph, selected(node, control)),
        control is Wait ==> selected(node, control).len() > 0,
{
    let sets = successor_sets(node);
    match control {
        ControlModel::Continue => {
            assert(sets[0] == selected(node, control));
            selected_set_is_known(graph, node, 0);
        },
        ControlModel::Route { route_id } => {
            find_is_exact::<GraphRoute>(node.routes, route_id);
            let k = node.routes.index_of(find::<GraphRoute>(node.routes, route_id)->Some_0);
            let before: int = if node.continue_to is Some {
                1
            } else {
                0
            };
            assert(sets[before + k] == selected(node, control));
            selected_set_is_known(graph, node, before + k);
        },
        ControlModel::Wait { waits } => {
            assert(sets[sets.len() - 1] == selected(node, control));
            selected_set_is_known(graph, node, sets.len() - 1);
        },
        ControlModel::Terminal { output } => {},
    }
}

/// What is gathered names nodes of the graph, in order, and has somewhere to go
/// on to once it waits.
proof fn gathered_is_known<V: GraphSchemaValidator + ?Sized>(
    graph: GraphModel,
    schemas: &V,
    results: Seq<ResultModel>,
)
    requires
        graph_sound(graph),
        successors_known(graph.nodes),
        gathering(graph, schemas, results) is Ok,
    ensures
        ascending(gathering(graph, schemas, results)->Ok_0.next),
        known_names(graph, gathering(graph, schemas, results)->Ok_0.next),
        gathering(graph, schemas, results)->Ok_0.waits.len() > 0 ==> gathering(
            graph,
            schemas,
            results,
        )->Ok_0.next.len() > 0,
    decreases results.len(),
{
    if results.len() > 0 {
        let front = results.drop_last();
        gathered_is_known(graph, schemas, front);
        let before = gathering(graph, schemas, front)->Ok_0;
        let result = results.last();
        let node_id = result.activation.node_id;
        find_is_exact::<GraphNode>(graph.nodes, node_id);
        let node = find::<GraphNode>(graph.nodes, node_id)->Some_0;
        let place = graph.nodes.index_of(node);
        assert(graph.nodes[place] == node);
        let updated = update_step(graph, schemas, node_id, result.state_change, before)->Ok_0;
        selected_is_known(graph, schemas, node, node_id, result.control, updated);
        let names = selected(node, result.control);
        united_is_union(before.next, names);
        let next = united(before.next, names);
        if before.next.len() > 0 {
            assert(before.next.contains(before.next[0]));
            assert(next.contains(before.next[0]));
        }
        if names.len() > 0 {
            assert(names.contains(names[0]));
            assert(next.contains(names[0]));
        }
    }
}

/// A plan goes on exactly at nodes of the graph, no more of them than the
/// graph allows; it ends the run exactly where it goes on at none; and it
/// stays within the supersteps of the graph.
pub proof fn plan_keeps_graph_limits<V: GraphSchemaValidator + ?Sized, R: GraphReducer + ?Sized>(
    graph: GraphModel,
    base: CheckpointModel,
    results: Seq<ResultModel>,
    schemas: &V,
    reducer: &R,
)
    requires
        graph_sound(graph),
        plan_parts(graph, base, results, schemas, reducer) is Ok,
    ensures
        ({
            let (ordered, resolved, state) = plan_parts(
                graph,
                base,
                results,
                schemas,
                reducer,
            )->Ok_0;
            &&& ascending(resolved.ready_nodes)
            &&& resolved.ready_nodes.len() <= graph.limits.parallelism
            &&& forall|n: Seq<char>| #[trigger]
                resolved.ready_nodes.contains(n) ==> node_names(graph.nodes).contains(n)
            &&& resolved.disposition is Terminal <==> resolved.ready_nodes.len() == 0
            &&& base.superstep@ + 1 <= graph.limits.supersteps
            &&& state.schema == graph.state_schema
        }),
{
    known_successors(graph.nodes, graph.limits.parallelism);
    let (ordered, resolved, state) = plan_parts(graph, base, results, schemas, reducer)->Ok_0;
    gathered_is_known(graph, schemas, ordered);
}

/// A barrier without updates leaves the state as it is.
pub proof fn state_stays_without_updates<V: GraphSchemaValidator + ?Sized, R: GraphReducer + ?Sized>(
    graph: GraphModel,
    base: CheckpointModel,
    results: Seq<ResultModel>,
    schemas: &V,
    reducer: &R,
)
    requires
        plan_parts(graph, base, results, schemas, reducer) is Ok,
        forall|i: int| 0 <= i < results.len() ==> (#[trigger] results[i]).state_change is None,
    ensures
        plan_parts(graph, base, results, schemas, reducer)->Ok_0.2.data == base.state.data,
{
    let ordered = ordered_outcome(base, results)->Ok_0;
    results_accepted_exactly(base, results);
    arranged_is_sorted::<PendingNodeResult>(results);
    assert forall|i: int| 0 <= i < ordered.len() implies (
    #[trigger] ordered[i]).state_change is None by {
        assert(ordered.contains(ordered[i]));
        let k = results.index_of(ordered[i]);
        assert(results[k].state_change is None);
    }
    no_inputs(graph, schemas, ordered);
}

proof fn no_inputs<V: GraphSchemaValidator + ?Sized>(
    graph: GraphModel,
    schemas: &V,
    results: Seq<ResultModel>,
)
    requires
        gathering(graph, schemas, results) is Ok,
        forall|i: int| 0 <= i < results.len() ==> (#[trigger] results[i]).state_change is None,
    ensures
        gathering(graph, schemas, results)->Ok_0.inputs.len() == 0,
    decreases results.len(),
{
    if results.len() > 0 {
        assert forall|i: int| 0 <= i < results.drop_last().len() implies (
        #[trigger] results.drop_last()[i]).state_change is None by {
            assert(results[i].state_change is None);
        }
        no_inputs(graph, schemas, results.drop_last());
        assert(results.last() == results[results.len() - 1]);
    }
}

} // verus!
