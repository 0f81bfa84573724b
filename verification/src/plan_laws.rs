//! What a barrier plan says of the results that it was made of.

use vstd::prelude::*;

use crate::barrier::{
    base_failure, gathering, next_state, plan_outcome, plan_parts, resolution, result_step,
    unknown_failure, update_step, DispositionModel, Gathered, GraphBarrierPlan,
    GraphBarrierPlanError, GraphReducer, GraphSchemaValidator, InputModel,
};
use crate::barrier_laws::{one_result_per_ready_node, results_accepted_exactly, united_is_union};
use crate::checkpoint::{CheckpointModel, ControlModel, PendingNodeResult, ResultModel};
use crate::graph::{graph_sound, GraphModel};
use crate::graph_node::{GraphNode, GraphRoute, NodeModel};
use crate::graph_shape::node_names;
use crate::ids::CheckpointId;
use crate::json_value::Json;
use crate::ordered::{
    arranged_is_sorted, ascending, ascending_distinct, find, find_at, find_is_exact, keys,
};
use crate::ready::ready_sound;

verus! {

// ---------------------------------------------------------------------------
// What results say
// ---------------------------------------------------------------------------

/// The conditions of all results that wait, in the order of the results.
pub open spec fn conditions(results: Seq<ResultModel>) -> Seq<Json>
    decreases results.len(),
{
    if results.len() == 0 {
        Seq::empty()
    } else {
        conditions(results.drop_last()) + (match results.last().control {
            ControlModel::Wait { waits } => waits,
            _ => Seq::empty(),
        })
    }
}

/// The updates of all results that have one, in the order of the results.
pub open spec fn updates(results: Seq<ResultModel>) -> Seq<InputModel>
    decreases results.len(),
{
    if results.len() == 0 {
        Seq::empty()
    } else {
        let before = updates(results.drop_last());
        match results.last().state_change {
            Some(update) => before.push(
                InputModel { node_id: results.last().activation.node_id, update },
            ),
            None => before,
        }
    }
}

/// The node goes on to that name by the control.
pub open spec fn node_leads_to(node: NodeModel, control: ControlModel, name: Seq<char>) -> bool {
    match control {
        ControlModel::Continue => node.continue_to matches Some(names) && names.contains(name),
        ControlModel::Route { route_id } => exists|k: int|
            0 <= k < node.routes.len() && (#[trigger] node.routes[k]).route_id == route_id
                && node.routes[k].successors.contains(name),
        ControlModel::Wait { waits } => node.wait_to matches Some(names) && names.contains(name),
        ControlModel::Terminal { output } => false,
    }
}

/// The node declares the control.
pub open spec fn node_declares(node: NodeModel, control: ControlModel) -> bool {
    match control {
        ControlModel::Continue => node.continue_to is Some,
        ControlModel::Route { route_id } => exists|k: int|
            0 <= k < node.routes.len() && (#[trigger] node.routes[k]).route_id == route_id,
        ControlModel::Wait { waits } => node.wait_to is Some,
        ControlModel::Terminal { output } => node.terminal,
    }
}

/// The result goes on to that name.
pub open spec fn leads_to(graph: GraphModel, result: ResultModel, name: Seq<char>) -> bool {
    exists|k: int|
        0 <= k < graph.nodes.len() && (#[trigger] graph.nodes[k]).node_id
            == result.activation.node_id && node_leads_to(graph.nodes[k], result.control, name)
}

/// One of the results goes on to that name.
pub open spec fn some_leads_to(
    graph: GraphModel,
    results: Seq<ResultModel>,
    name: Seq<char>,
) -> bool {
    exists|i: int| 0 <= i < results.len() && leads_to(graph, #[trigger] results[i], name)
}

/// One of the results waits.
pub open spec fn some_waits(results: Seq<ResultModel>) -> bool {
    exists|i: int| 0 <= i < results.len() && (#[trigger] results[i]).control is Wait
}

/// One of the results ends the run.
pub open spec fn some_ends(results: Seq<ResultModel>) -> bool {
    exists|i: int| 0 <= i < results.len() && (#[trigger] results[i]).control is Terminal
}

/// The result is one that its node may have: of a declared control, and with an
/// update and an output of the schemas of the graph that were found valid.
pub open spec fn allowed<V: GraphSchemaValidator + ?Sized>(
    graph: GraphModel,
    schemas: &V,
    result: ResultModel,
) -> bool {
    &&& exists|k: int|
        0 <= k < graph.nodes.len() && (#[trigger] graph.nodes[k]).node_id
            == result.activation.node_id && node_declares(graph.nodes[k], result.control)
    &&& result.state_change matches Some(update) ==> update.schema == graph.update_schema
        && schemas.verdict(update.schema, update.data) is Ok
    &&& result.control matches ControlModel::Terminal { output } ==> output.schema
        == graph.output_schema && schemas.verdict(output.schema, output.data) is Ok
}

/// Every result is allowed, and no two end the run.
pub open spec fn all_allowed<V: GraphSchemaValidator + ?Sized>(
    graph: GraphModel,
    schemas: &V,
    results: Seq<ResultModel>,
) -> bool {
    &&& forall|i: int| 0 <= i < results.len() ==> allowed(graph, schemas, #[trigger] results[i])
    &&& forall|i: int, j: int|
        0 <= i < j < results.len() && (#[trigger] results[i]).control is Terminal ==> !((
        #[trigger] results[j]).control is Terminal)
}

// ---------------------------------------------------------------------------
// Steps
// ---------------------------------------------------------------------------

proof fn node_is_found(graph: GraphModel, k: int)
    requires
        graph_sound(graph),
        0 <= k < graph.nodes.len(),
    ensures
        find::<GraphNode>(graph.nodes, graph.nodes[k].node_id) == Some(graph.nodes[k]),
{
    ascending_distinct(node_names(graph.nodes));
    find_at::<GraphNode>(graph.nodes, k);
}

proof fn route_is_found(graph: GraphModel, node: NodeModel, k: int)
    requires
        graph_sound(graph),
        graph.nodes.contains(node),
        0 <= k < node.routes.len(),
    ensures
        find::<GraphRoute>(node.routes, node.routes[k].route_id) == Some(node.routes[k]),
{
    let i = graph.nodes.index_of(node);
    assert(graph.nodes[i] == node);
    ascending_distinct(keys::<GraphRoute>(node.routes));
    find_at::<GraphRoute>(node.routes, k);
}

/// What one result adds, said of the result.
proof fn step_says<V: GraphSchemaValidator + ?Sized>(
    graph: GraphModel,
    schemas: &V,
    result: ResultModel,
    before: Gathered,
)
    requires
        graph_sound(graph),
        ascending(before.next),
    ensures
        ({
            let r = result_step(graph, schemas, result, before);
            &&& r is Ok <==> allowed(graph, schemas, result) && !(before.terminal is Some
                && result.control is Terminal)
            &&& r matches Ok(after) ==> {
                &&& after.inputs == (match result.state_change {
                    Some(update) => before.inputs.push(
                        InputModel { node_id: result.activation.node_id, update },
                    ),
                    None => before.inputs,
                })
                &&& after.waits == before.waits + (match result.control {
                    ControlModel::Wait { waits } => waits,
                    _ => Seq::empty(),
                })
                &&& after.terminal == (match result.control {
                    ControlModel::Terminal { output } => Some(output),
                    _ => before.terminal,
                })
                &&& ascending(after.next)
                &&& forall|n: Seq<char>| #[trigger]
                    after.next.contains(n) <==> before.next.contains(n) || leads_to(
                        graph,
                        result,
                        n,
                    )
            }
        }),
{
    let node_id = result.activation.node_id;
    let r = result_step(graph, schemas, result, before);
    find_is_exact::<GraphNode>(graph.nodes, node_id);
    assert forall|k: int|
        0 <= k < graph.nodes.len() && (#[trigger] graph.nodes[k]).node_id == node_id implies find::<
        GraphNode,
    >(graph.nodes, node_id) == Some(graph.nodes[k]) by {
        node_is_found(graph, k);
    }
    match find::<GraphNode>(graph.nodes, node_id) {
        None => {
            assert(r is Err);
        },
        Some(node) => {
            let place = graph.nodes.index_of(node);
            assert(graph.nodes[place] == node);
            assert(node.node_id == node_id);
            assert forall|k: int|
                0 <= k < node.routes.len() implies find::<GraphRoute>(
                node.routes,
                (#[trigger] node.routes[k]).route_id,
            ) == Some(node.routes[k]) by {
                route_is_found(graph, node, k);
            }
            assert(allowed(graph, schemas, result) ==> node_declares(node, result.control));
            assert forall|n: Seq<char>| #[trigger]
                leads_to(graph, result, n) <==> node_leads_to(node, result.control, n) by {
                if node_leads_to(node, result.control, n) {
                    assert(graph.nodes[place].node_id == node_id);
                }
            }
            if let ControlModel::Route { route_id } = result.control {
                find_is_exact::<GraphRoute>(node.routes, route_id);
                if let Some(route) = find::<GraphRoute>(node.routes, route_id) {
                    let k = node.routes.index_of(route);
                    assert(node.routes[k] == route);
                }
            }
            let updated = update_step(graph, schemas, node_id, result.state_change, before);
            if let Ok(next) = updated {
                assert(next.next == before.next);
                match result.control {
                    ControlModel::Continue => {
                        if let Some(names) = node.continue_to {
                            united_is_union(before.next, names);
                        }
                    },
                    ControlModel::Route { route_id } => {
                        if let Some(route) = find::<GraphRoute>(node.routes, route_id) {
                            united_is_union(before.next, route.successors);
                        }
                    },
                    ControlModel::Wait { waits } => {
                        if let Some(names) = node.wait_to {
                            united_is_union(before.next, names);
                        }
                    },
                    ControlModel::Terminal { output } => {},
                }
                if let Ok(after) = r {
                    assert(after.waits =~= before.waits + (match result.control {
                        ControlModel::Wait { waits } => waits,
                        _ => Seq::empty(),
                    }));
                }
            }
        },
    }
}

proof fn one_more_result(graph: GraphModel, results: Seq<ResultModel>)
    requires
        results.len() > 0,
    ensures
        forall|n: Seq<char>| #[trigger]
            some_leads_to(graph, results, n) <==> some_leads_to(graph, results.drop_last(), n)
                || leads_to(graph, results.last(), n),
        some_waits(results) <==> some_waits(results.drop_last()) || results.last().control is Wait,
        some_ends(results) <==> some_ends(results.drop_last())
            || results.last().control is Terminal,
{
    let front = results.drop_last();
    let last = results.len() - 1;
    assert(results[last] == results.last());
    assert forall|i: int| 0 <= i < front.len() implies #[trigger] front[i] == results[i] by {}
    assert forall|n: Seq<char>| #[trigger]
        some_leads_to(graph, results, n) <==> some_leads_to(graph, front, n) || leads_to(
            graph,
            results.last(),
            n,
        ) by {
        if some_leads_to(graph, results, n) {
            let i = choose|i: int|
                0 <= i < results.len() && leads_to(graph, #[trigger] results[i], n);
            if i < last {
                assert(leads_to(graph, front[i], n));
            }
        }
        if some_leads_to(graph, front, n) {
            let i = choose|i: int| 0 <= i < front.len() && leads_to(graph, #[trigger] front[i], n);
            assert(leads_to(graph, results[i], n));
        }
        if leads_to(graph, results.last(), n) {
            assert(leads_to(graph, results[last], n));
        }
    }
    if some_waits(results) {
        let i = choose|i: int| 0 <= i < results.len() && (#[trigger] results[i]).control is Wait;
        if i < last {
            assert(front[i].control is Wait);
        }
    }
    if some_waits(front) {
        let i = choose|i: int| 0 <= i < front.len() && (#[trigger] front[i]).control is Wait;
        assert(results[i].control is Wait);
    }
    if some_ends(results) {
        let i = choose|i: int|
            0 <= i < results.len() && (#[trigger] results[i]).control is Terminal;
        if i < last {
            assert(front[i].control is Terminal);
        }
    }
    if some_ends(front) {
        let i = choose|i: int| 0 <= i < front.len() && (#[trigger] front[i]).control is Terminal;
        assert(results[i].control is Terminal);
    }
}

proof fn one_more_allowed<V: GraphSchemaValidator + ?Sized>(
    graph: GraphModel,
    schemas: &V,
    results: Seq<ResultModel>,
)
    requires
        results.len() > 0,
    ensures
        all_allowed(graph, schemas, results) <==> {
            &&& all_allowed(graph, schemas, results.drop_last())
            &&& allowed(graph, schemas, results.last())
            &&& !(some_ends(results.drop_last()) && results.last().control is Terminal)
        },
{
    let front = results.drop_last();
    let last = results.len() - 1;
    assert(results[last] == results.last());
    assert forall|i: int| 0 <= i < front.len() implies #[trigger] front[i] == results[i] by {}
    if all_allowed(graph, schemas, results) {
        assert forall|i: int| 0 <= i < front.len() implies allowed(
            graph,
            schemas,
            #[trigger] front[i],
        ) by {
            assert(allowed(graph, schemas, results[i]));
        }
        assert forall|i: int, j: int|
            0 <= i < j < front.len() && (#[trigger] front[i]).control is Terminal implies !((
        #[trigger] front[j]).control is Terminal) by {
            assert(results[i].control is Terminal);
            assert(!(results[j].control is Terminal));
        }
        if some_ends(front) {
            let i = choose|i: int|
                0 <= i < front.len() && (#[trigger] front[i]).control is Terminal;
            assert(results[i].control is Terminal);
        }
    }
    if all_allowed(graph, schemas, front) && allowed(graph, schemas, results.last()) && !(some_ends(
        front,
    ) && results.last().control is Terminal) {
        assert forall|i: int| 0 <= i < results.len() implies allowed(
            graph,
            schemas,
            #[trigger] results[i],
        ) by {
            if i < last {
                assert(allowed(graph, schemas, front[i]));
            }
        }
        assert forall|i: int, j: int|
            0 <= i < j < results.len() && (#[trigger] results[i]).control is Terminal implies !((
        #[trigger] results[j]).control is Terminal) by {
            assert(front[i].control is Terminal);
            if j < last {
                assert(!(front[j].control is Terminal));
            }
        }
    }
}

/// What the results add up to, said of the results.
proof fn gathering_says<V: GraphSchemaValidator + ?Sized>(
    graph: GraphModel,
    schemas: &V,
    results: Seq<ResultModel>,
)
    requires
        graph_sound(graph),
    ensures
        ({
            let r = gathering(graph, schemas, results);
            &&& r is Ok <==> all_allowed(graph, schemas, results)
            &&& r matches Ok(gathered) ==> {
                &&& gathered.inputs == updates(results)
                &&& gathered.waits == conditions(results)
                &&& ascending(gathered.next)
                &&& forall|n: Seq<char>| #[trigger]
                    gathered.next.contains(n) <==> some_leads_to(graph, results, n)
                &&& gathered.terminal is Some <==> some_ends(results)
                &&& gathered.terminal matches Some(output) ==> exists|i: int|
                    0 <= i < results.len() && (#[trigger] results[i]).control == (
                    ControlModel::Terminal { output })
            }
        }),
    decreases results.len(),
{
    if results.len() > 0 {
        let front = results.drop_last();
        gathering_says(graph, schemas, front);
        one_more_result(graph, results);
        one_more_allowed(graph, schemas, results);
        if let Ok(before) = gathering(graph, schemas, front) {
            step_says(graph, schemas, results.last(), before);
            if let Ok(after) = gathering(graph, schemas, results) {
                assert(after.inputs =~= updates(results));
                assert(after.waits =~= conditions(results));
                if let Some(output) = after.terminal {
                    if results.last().control is Terminal {
                        assert(results[results.len() - 1].control == (ControlModel::Terminal {
                            output,
                        }));
                    } else {
                        let i = choose|i: int|
                            0 <= i < front.len() && (#[trigger] front[i]).control == (
                            ControlModel::Terminal { output });
                        assert(results[i].control == (ControlModel::Terminal { output }));
                    }
                }
            }
        }
    }
}

/// Results that wait have a condition.
pub open spec fn waits_have_conditions(results: Seq<ResultModel>) -> bool {
    forall|i: int|
        0 <= i < results.len() ==> ((#[trigger] results[i]).control matches ControlModel::Wait {
            waits,
        } ==> waits.len() > 0)
}

proof fn conditions_of_waiting(results: Seq<ResultModel>)
    requires
        waits_have_conditions(results),
    ensures
        some_waits(results) <==> conditions(results).len() > 0,
    decreases results.len(),
{
    if results.len() > 0 {
        let front = results.drop_last();
        let last = results.len() - 1;
        assert(results[last] == results.last());
        assert forall|i: int| 0 <= i < front.len() implies ((
        #[trigger] front[i]).control matches ControlModel::Wait { waits } ==> waits.len() > 0) by {
            assert(front[i] == results[i]);
        }
        conditions_of_waiting(front);
        if some_waits(front) {
            let i = choose|i: int| 0 <= i < front.len() && (#[trigger] front[i]).control is Wait;
            assert(results[i].control is Wait);
        }
        if some_waits(results) {
            let i = choose|i: int|
                0 <= i < results.len() && (#[trigger] results[i]).control is Wait;
            if i < last {
                assert(front[i].control is Wait);
            }
        }
        if results.last().control is Wait {
            assert(results[last].control is Wait);
        }
    }
}

// ---------------------------------------------------------------------------
// Laws
// ---------------------------------------------------------------------------

/// The disposition of a plan is what its results say. The run waits exactly if
/// one of them waits, on the conditions of all that do, in the order of their
/// nodes. It ends exactly if the only result ends it, with the output of that
/// one. It goes on otherwise.
pub proof fn disposition_follows_the_results<V: GraphSchemaValidator + ?Sized>(
    graph: GraphModel,
    schemas: &V,
    ordered: Seq<ResultModel>,
)
    requires
        graph_sound(graph),
        waits_have_conditions(ordered),
        resolution(graph, schemas, ordered) is Ok,
    ensures
        ({
            let disposition = resolution(graph, schemas, ordered)->Ok_0.disposition;
            &&& disposition is Wait <==> some_waits(ordered)
            &&& disposition matches DispositionModel::Wait { waits } ==> waits == conditions(
                ordered,
            )
            &&& disposition is Terminal <==> some_ends(ordered)
            &&& disposition matches DispositionModel::Terminal { output } ==> ordered.len() == 1
                && ordered[0].control == (ControlModel::Terminal { output })
            &&& disposition is Continue <==> !some_waits(ordered) && !some_ends(ordered)
        }),
{
    gathering_says(graph, schemas, ordered);
    conditions_of_waiting(ordered);
    let gathered = gathering(graph, schemas, ordered)->Ok_0;
    if let Some(output) = gathered.terminal {
        let i = choose|i: int|
            0 <= i < ordered.len() && (#[trigger] ordered[i]).control == (ControlModel::Terminal {
                output,
            });
        assert(i == 0);
        if some_waits(ordered) {
            let k = choose|k: int|
                0 <= k < ordered.len() && (#[trigger] ordered[k]).control is Wait;
            assert(k == 0);
        }
    }
}

/// The nodes that are ready next are exactly those that one of the results goes
/// on to, in order and each once; and the reducer gets exactly the updates of
/// the results, in the order of their nodes.
pub proof fn next_nodes_and_updates_follow_the_results<V: GraphSchemaValidator + ?Sized>(
    graph: GraphModel,
    schemas: &V,
    ordered: Seq<ResultModel>,
)
    requires
        graph_sound(graph),
        resolution(graph, schemas, ordered) is Ok,
    ensures
        ({
            let resolved = resolution(graph, schemas, ordered)->Ok_0;
            &&& ascending(resolved.ready_nodes)
            &&& forall|n: Seq<char>| #[trigger]
                resolved.ready_nodes.contains(n) <==> some_leads_to(graph, ordered, n)
            &&& resolved.inputs == updates(ordered)
        }),
{
    gathering_says(graph, schemas, ordered);
}

/// Results that resolve are each allowed, one that ends the run is alone, and
/// they lead to no more nodes than the graph lets run at once.
pub proof fn resolved_results_are_allowed<V: GraphSchemaValidator + ?Sized>(
    graph: GraphModel,
    schemas: &V,
    ordered: Seq<ResultModel>,
)
    requires
        graph_sound(graph),
        resolution(graph, schemas, ordered) is Ok,
    ensures
        forall|i: int| 0 <= i < ordered.len() ==> allowed(graph, schemas, #[trigger] ordered[i]),
        some_ends(ordered) ==> ordered.len() == 1,
        resolution(graph, schemas, ordered)->Ok_0.ready_nodes.len() <= graph.limits.parallelism,
{
    gathering_says(graph, schemas, ordered);
}

proof fn lone_end_leads_nowhere(graph: GraphModel, ordered: Seq<ResultModel>)
    requires
        some_ends(ordered),
        ordered.len() == 1,
    ensures
        !some_waits(ordered),
        forall|n: Seq<char>| !(#[trigger] some_leads_to(graph, ordered, n)),
{
    let i = choose|i: int| 0 <= i < ordered.len() && (#[trigger] ordered[i]).control is Terminal;
    assert(i == 0);
    if some_waits(ordered) {
        let k = choose|k: int| 0 <= k < ordered.len() && (#[trigger] ordered[k]).control is Wait;
        assert(k == 0);
    }
    assert forall|n: Seq<char>| !(#[trigger] some_leads_to(graph, ordered, n)) by {
        if some_leads_to(graph, ordered, n) {
            let k = choose|k: int|
                0 <= k < ordered.len() && leads_to(graph, #[trigger] ordered[k], n);
            assert(k == 0);
        }
    }
}

/// Allowed results resolve, if they lead somewhere or the only one ends the
/// run, unless they lead to more nodes than the graph lets run at once.
pub proof fn allowed_results_resolve<V: GraphSchemaValidator + ?Sized>(
    graph: GraphModel,
    schemas: &V,
    ordered: Seq<ResultModel>,
    name: Seq<char>,
)
    requires
        graph_sound(graph),
        waits_have_conditions(ordered),
        forall|i: int| 0 <= i < ordered.len() ==> allowed(graph, schemas, #[trigger] ordered[i]),
        some_ends(ordered) ==> ordered.len() == 1,
        some_ends(ordered) || some_leads_to(graph, ordered, name),
    ensures
        resolution(graph, schemas, ordered) matches Err(e) ==> e is SuccessorParallelismExceeded,
{
    if some_ends(ordered) {
        lone_end_leads_nowhere(graph, ordered);
    }
    assert(all_allowed(graph, schemas, ordered)) by {
        assert forall|i: int, j: int|
            0 <= i < j < ordered.len() && (#[trigger] ordered[i]).control is Terminal implies !((
        #[trigger] ordered[j]).control is Terminal) by {
            assert(some_ends(ordered));
        }
    }
    gathering_says(graph, schemas, ordered);
    conditions_of_waiting(ordered);
    let gathered = gathering(graph, schemas, ordered)->Ok_0;
    if some_ends(ordered) {
        if gathered.next.len() > 0 {
            assert(gathered.next.contains(gathered.next[0]));
            assert(some_leads_to(graph, ordered, gathered.next[0]));
        }
    } else {
        assert(gathered.next.contains(name));
    }
}

proof fn known_from(graph: GraphModel, names: Seq<Seq<char>>, from: int)
    requires
        0 <= from,
    ensures
        unknown_failure(graph, names, from) is None <==> forall|i: int|
            from <= i < names.len() ==> node_names(graph.nodes).contains(#[trigger] names[i]),
    decreases names.len() - from,
{
    if from < names.len() {
        find_is_exact::<GraphNode>(graph.nodes, names[from]);
        known_from(graph, names, from + 1);
        if unknown_failure(graph, names, from) is None {
            assert forall|i: int| from <= i < names.len() implies node_names(graph.nodes).contains(
                #[trigger] names[i],
            ) by {
                if i > from {
                    assert(unknown_failure(graph, names, from + 1) is None);
                }
            }
        }
    }
}

/// The checkpoint is one of the graph, in time and with known nodes, the reducer
/// is that of the graph, and the state is valid.
pub open spec fn base_fits<V: GraphSchemaValidator + ?Sized, R: GraphReducer + ?Sized>(
    graph: GraphModel,
    base: CheckpointModel,
    schemas: &V,
    reducer: &R,
) -> bool {
    &&& base.graph.identity == graph.identity
    &&& base.graph.definition_digest == graph.definition_digest
    &&& base.graph.state_schema == graph.state_schema
    &&& base.superstep@ == 0 ==> base.ready_nodes == graph.entry_nodes
    &&& base.superstep@ < graph.limits.supersteps
    &&& base.ready_nodes.len() <= graph.limits.parallelism
    &&& forall|i: int|
        0 <= i < base.ready_nodes.len() ==> node_names(graph.nodes).contains(
            #[trigger] base.ready_nodes[i],
        )
    &&& reducer.pin() == graph.reducer
    &&& schemas.verdict(graph.state_schema, base.state.data) is Ok
}

/// Planning begins exactly on a checkpoint that fits the graph, the reducer and
/// the schemas.
pub proof fn planning_begins_exactly_on_fitting_bases<
    V: GraphSchemaValidator + ?Sized,
    R: GraphReducer + ?Sized,
>(graph: GraphModel, base: CheckpointModel, schemas: &V, reducer: &R)
    ensures
        base_failure(graph, base, schemas, reducer) is None <==> base_fits(
            graph,
            base,
            schemas,
            reducer,
        ),
{
    known_from(graph, base.ready_nodes, 0);
}

/// The next state is what the reducer makes of the state and the updates, or the
/// state itself where there are none, and it was found valid.
pub proof fn next_state_follows_the_updates<
    V: GraphSchemaValidator + ?Sized,
    R: GraphReducer + ?Sized,
>(graph: GraphModel, schemas: &V, reducer: &R, state: Json, inputs: Seq<InputModel>)
    ensures
        next_state(graph, schemas, reducer, state, inputs) matches Ok(next) ==> {
            &&& next.schema == graph.state_schema
            &&& inputs.len() == 0 ==> next.data == state
            &&& inputs.len() > 0 ==> reducer.reduction(state, inputs) is Ok && next.data
                == reducer.reduction(state, inputs)->Ok_0
            &&& schemas.verdict(graph.state_schema, next.data) is Ok
        },
        inputs.len() == 0 && schemas.verdict(graph.state_schema, state) is Ok ==> next_state(
            graph,
            schemas,
            reducer,
            state,
            inputs,
        ) is Ok,
        inputs.len() > 0 && reducer.reduction(state, inputs) is Ok && schemas.verdict(
            graph.state_schema,
            reducer.reduction(state, inputs)->Ok_0,
        ) is Ok ==> next_state(graph, schemas, reducer, state, inputs) is Ok,
        inputs.len() > 0 && reducer.reduction(state, inputs) is Err ==> next_state(
            graph,
            schemas,
            reducer,
            state,
            inputs,
        ) is Err,
{
}

/// A plan that is made stands on its checkpoint and on all its results, one for
/// each ready node, and goes one superstep on. Its disposition, its next nodes
/// and its state are those that the results say.
pub proof fn plans_follow_their_results<
    V: GraphSchemaValidator + ?Sized,
    R: GraphReducer + ?Sized,
>(
    plan: GraphBarrierPlan,
    graph: GraphModel,
    base: CheckpointModel,
    results: Seq<ResultModel>,
    successor_id: CheckpointId,
    schemas: &V,
    reducer: &R,
) -> (ordered: Seq<ResultModel>)
    requires
        graph_sound(graph),
        ready_sound(base.ready_nodes),
        waits_have_conditions(results),
        plan_outcome(
            Ok::<GraphBarrierPlan, GraphBarrierPlanError>(plan),
            graph,
            base,
            results,
            successor_id,
            schemas,
            reducer,
        ),
    ensures
        base_fits(graph, base, schemas, reducer),
        ordered.len() == results.len() == base.ready_nodes.len(),
        forall|result: ResultModel| #[trigger]
            ordered.contains(result) <==> results.contains(result),
        forall|i: int|
            0 <= i < ordered.len() ==> {
                &&& (#[trigger] ordered[i]).activation.node_id == base.ready_nodes[i]
                &&& ordered[i].activation.base_checkpoint == base.head
                &&& ordered[i].activation.graph_namespace.len() == 0
                &&& allowed(graph, schemas, ordered[i])
                &&& plan@.barrier.results[i].activation == ordered[i].activation
                &&& plan@.barrier.results[i].digest == ordered[i].digest
            },
        plan@.barrier.base == base.head,
        plan@.barrier.results.len() == ordered.len(),
        plan@.barrier.successor.checkpoint_id == successor_id,
        plan@.barrier.successor.superstep@ == base.superstep@ + 1,
        plan@.barrier.successor.ready_nodes.len() <= graph.limits.parallelism,
        forall|n: Seq<char>| #[trigger]
            plan@.barrier.successor.ready_nodes.contains(n) <==> some_leads_to(graph, ordered, n),
        plan@.barrier.successor.state.schema == graph.state_schema,
        updates(ordered).len() == 0 ==> plan@.barrier.successor.state.data == base.state.data,
        updates(ordered).len() > 0 ==> reducer.reduction(base.state.data, updates(ordered)) == Ok::<
            Json,
            crate::barrier::GraphReducerError,
        >(plan@.barrier.successor.state.data),
        schemas.verdict(graph.state_schema, plan@.barrier.successor.state.data) is Ok,
        plan@.disposition is Wait <==> some_waits(ordered),
        plan@.disposition matches DispositionModel::Wait { waits } ==> waits == conditions(ordered),
        plan@.disposition is Terminal <==> some_ends(ordered),
        plan@.disposition matches DispositionModel::Terminal { output } ==> results.len() == 1
            && ordered[0].control == (ControlModel::Terminal { output }),
        plan@.disposition is Continue <==> !some_waits(ordered) && !some_ends(ordered),
{
    let (ordered, resolved, state) = plan_parts(graph, base, results, schemas, reducer)->Ok_0;
    planning_begins_exactly_on_fitting_bases(graph, base, schemas, reducer);
    results_accepted_exactly(base, results);
    one_result_per_ready_node(base, results);
    arranged_is_sorted::<PendingNodeResult>(results);
    let names = keys::<PendingNodeResult>(ordered);
    assert forall|i: int| 0 <= i < ordered.len() implies {
        &&& (#[trigger] ordered[i]).activation.node_id == base.ready_nodes[i]
        &&& ordered[i].activation.base_checkpoint == base.head
        &&& ordered[i].activation.graph_namespace.len() == 0
        &&& ordered[i].control matches ControlModel::Wait { waits } ==> waits.len() > 0
    } by {
        assert(names[i] == ordered[i].activation.node_id);
        assert(ordered.contains(ordered[i]));
        let k = results.index_of(ordered[i]);
        assert(results[k] == ordered[i]);
        assert(crate::barrier_laws::belongs(base, results[k]));
    }
    assert(waits_have_conditions(ordered));
    disposition_follows_the_results(graph, schemas, ordered);
    next_nodes_and_updates_follow_the_results(graph, schemas, ordered);
    resolved_results_are_allowed(graph, schemas, ordered);
    next_state_follows_the_updates(graph, schemas, reducer, base.state.data, resolved.inputs);
    ordered
}

} // verus!
