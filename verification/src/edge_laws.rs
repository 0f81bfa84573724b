//! Where the edges of a composition lead, said of the parent, the calls and
//! the templates.

use vstd::prelude::*;

use crate::call_laws::{
    bound, calls_fit_exactly, calls_need_a_site, every_port_returns, ports_return_as_bound,
    ports_return_by_their_route,
};
use crate::composition_laws::{
    call_fits, calls_accepted_exactly, calls_sound, composition_parts, jobs_hold, lowered_names,
};
use crate::composition_model::{
    all_slots, call_failure, calls_failure, child_targets, composed, copy_name, distinct_sorted,
    entry_copies, instance_name, iteration_slots, jobs, lowered, lowered_slot, parent_targets,
    parent_targets_of, remapped, remapped_job, remapped_jobs, remapped_routes, remapped_set,
    renamed, route_name, site_place, site_slots, targets, targets_of, CallModel, EntryModel, Job,
    RenameModel, Scope, Slot,
};
use crate::expansion::{place_of_at, site_place_at};
use crate::graph::{graph_sound, GraphModel};
use crate::graph_composition::{
    call_sound, distinct_sorted_is_sorted, slot_listed, slot_valid, GraphSubgraphCall,
    SourceEntry,
};
use crate::graph_laws::compiled_graph_is_connected;
use crate::graph_node::{GraphNode, GraphRoute, NodeModel, RouteModel};
use crate::graph_shape::{
    collected_nodes_sorted, joined_holds, node_names, successor_sets, successors,
};
use crate::instance_laws::instance_names_its_source;
use crate::ordered::{
    arranged, arranged_is_sorted, ascending, ascending_distinct, find, find_at, find_is_exact,
    first_repeat_is_first, keys,
};
use crate::template::ports_are_terminal;

verus! {

// ---------------------------------------------------------------------------
// What names become
// ---------------------------------------------------------------------------

/// The target is the copy of that node of the template in that iteration.
pub open spec fn copy_of(
    parent: GraphModel,
    call: CallModel,
    iteration: u16,
    name: Seq<char>,
    target: Seq<char>,
) -> bool {
    exists|o: int|
        0 <= o < call.subgraph.graph.nodes.len() && (
        #[trigger] call.subgraph.graph.nodes[o]).node_id == name && instance_name(
            parent,
            call,
            iteration,
            o,
        )->0 == target
}

/// The target is the copy of an entry of the template in that iteration.
pub open spec fn enters(
    parent: GraphModel,
    call: CallModel,
    iteration: u16,
    target: Seq<char>,
) -> bool {
    exists|e: int|
        0 <= e < call.subgraph.graph.entry_nodes.len() && copy_of(
            parent,
            call,
            iteration,
            #[trigger] call.subgraph.graph.entry_nodes[e],
            target,
        )
}

/// In the parent the name becomes the target: a call site becomes the entries
/// of the first iteration, and any other node stays what it is.
pub open spec fn parent_becomes(
    parent: GraphModel,
    sites: Seq<CallModel>,
    name: Seq<char>,
    target: Seq<char>,
) -> bool {
    ||| exists|c: int|
        0 <= c < sites.len() && (#[trigger] sites[c]).node_id == name && enters(
            parent,
            sites[c],
            0,
            target,
        )
    ||| target == name && forall|c: int|
        0 <= c < sites.len() ==> (#[trigger] sites[c]).node_id != name
}

/// One of the names becomes the target in the parent.
pub open spec fn some_parent_becomes(
    parent: GraphModel,
    sites: Seq<CallModel>,
    names: Seq<Seq<char>>,
    target: Seq<char>,
) -> bool {
    exists|x: int|
        0 <= x < names.len() && parent_becomes(parent, sites, #[trigger] names[x], target)
}

/// The name is a return port of the template: a node that ends it.
pub open spec fn is_port(call: CallModel, name: Seq<char>) -> bool {
    exists|o: int|
        0 <= o < call.subgraph.graph.nodes.len() && (
        #[trigger] call.subgraph.graph.nodes[o]).node_id == name
            && call.subgraph.graph.nodes[o].terminal
}

/// The port returns to the target: by a route of the call site that it is bound
/// to.
pub open spec fn returns_to(
    parent: GraphModel,
    sites: Seq<CallModel>,
    call: CallModel,
    port: Seq<char>,
    target: Seq<char>,
) -> bool {
    exists|s: int, r: int|
        0 <= s < parent.nodes.len() && parent.nodes[s].node_id == call.node_id && 0 <= r
            < parent.nodes[s].routes.len() && bound(
            call,
            port,
            (#[trigger] parent.nodes[s].routes[r]).route_id,
        ) && some_parent_becomes(parent, sites, parent.nodes[s].routes[r].successors, target)
}

/// In one iteration of a call the name becomes the target: a node of the body
/// becomes its copy, the port to repeat at leads into the next iteration while
/// there is one, and every other port returns.
pub open spec fn child_becomes(
    parent: GraphModel,
    sites: Seq<CallModel>,
    call: CallModel,
    iteration: u16,
    name: Seq<char>,
    target: Seq<char>,
) -> bool {
    if !is_port(call, name) {
        copy_of(parent, call, iteration, name, target)
    } else if call.repeat_port == Some(name) && iteration + 1 < call.maximum_iterations {
        enters(parent, call, (iteration + 1) as u16, target)
    } else {
        returns_to(parent, sites, call, name, target)
    }
}

/// The name becomes the target.
pub open spec fn becomes(
    parent: GraphModel,
    sites: Seq<CallModel>,
    scope: Scope,
    name: Seq<char>,
    target: Seq<char>,
) -> bool {
    match scope {
        Scope::Parent => parent_becomes(parent, sites, name, target),
        Scope::Iteration { call, iteration } => child_becomes(
            parent,
            sites,
            call,
            iteration,
            name,
            target,
        ),
    }
}

/// One of the names becomes the target.
pub open spec fn some_becomes(
    parent: GraphModel,
    sites: Seq<CallModel>,
    scope: Scope,
    names: Seq<Seq<char>>,
    target: Seq<char>,
) -> bool {
    exists|x: int|
        0 <= x < names.len() && becomes(parent, sites, scope, #[trigger] names[x], target)
}

/// The calls are valid, no two of one site, each at a site of the parent that
/// declares its returns.
pub open spec fn calls_hold(parent: GraphModel, sites: Seq<CallModel>) -> bool {
    &&& graph_sound(parent)
    &&& keys::<GraphSubgraphCall>(sites).no_duplicates()
    &&& forall|c: int|
        0 <= c < sites.len() ==> call_sound(#[trigger] sites[c])
            && call_failure(parent, sites[c]) is None
}

/// The scope is the parent, or an iteration of one of the calls.
pub open spec fn scope_holds(sites: Seq<CallModel>, scope: Scope) -> bool {
    scope matches Scope::Iteration { call, iteration } ==> sites.contains(call) && iteration
        < call.maximum_iterations
}

/// The name is one of the scope.
pub open spec fn name_known(scope: Scope, name: Seq<char>) -> bool {
    scope matches Scope::Iteration { call, iteration } ==> node_names(
        call.subgraph.graph.nodes,
    ).contains(name)
}

// ---------------------------------------------------------------------------
// Steps
// ---------------------------------------------------------------------------

proof fn copies_say(parent: GraphModel, call: CallModel, iteration: u16, name: Seq<char>)
    requires
        call_sound(call),
        node_names(call.subgraph.graph.nodes).contains(name),
    ensures
        forall|t: Seq<char>| #[trigger]
            copy_of(parent, call, iteration, name, t) <==> t == copy_name(
                parent,
                call,
                iteration,
                name,
            ),
{
    let nodes = call.subgraph.graph.nodes;
    let names = node_names(nodes);
    ascending_distinct(names);
    let k = names.index_of(name);
    assert(nodes[k].node_id == name);
    place_of_at(nodes, k);
    assert forall|t: Seq<char>| #[trigger] copy_of(parent, call, iteration, name, t) <==> t
        == copy_name(parent, call, iteration, name) by {
        if copy_of(parent, call, iteration, name, t) {
            let o = choose|o: int|
                0 <= o < nodes.len() && (#[trigger] nodes[o]).node_id == name && instance_name(
                    parent,
                    call,
                    iteration,
                    o,
                )->0 == t;
            assert(names[o] == names[k]);
        }
    }
}

proof fn entries_say(parent: GraphModel, call: CallModel, iteration: u16)
    requires
        call_sound(call),
    ensures
        forall|t: Seq<char>| #[trigger]
            entry_copies(parent, call, iteration).contains(t) <==> enters(
                parent,
                call,
                iteration,
                t,
            ),
{
    let graph = call.subgraph.graph;
    let entries = graph.entry_nodes;
    compiled_graph_is_connected(graph);
    let list = Seq::new(
        entries.len(),
        |k: int| copy_name(parent, call, iteration, entries[k]),
    );
    distinct_sorted_is_sorted(list);
    assert(entry_copies(parent, call, iteration) == distinct_sorted(list));
    assert forall|t: Seq<char>| #[trigger]
        entry_copies(parent, call, iteration).contains(t) <==> enters(
            parent,
            call,
            iteration,
            t,
        ) by {
        if list.contains(t) {
            let k = list.index_of(t);
            assert(entries.contains(entries[k]));
            copies_say(parent, call, iteration, entries[k]);
            assert(copy_of(parent, call, iteration, entries[k], t));
        }
        if enters(parent, call, iteration, t) {
            let e = choose|e: int|
                0 <= e < entries.len() && copy_of(
                    parent,
                    call,
                    iteration,
                    #[trigger] entries[e],
                    t,
                );
            assert(entries.contains(entries[e]));
            copies_say(parent, call, iteration, entries[e]);
            assert(list[e] == t);
        }
    }
}

proof fn parent_names_say(parent: GraphModel, sites: Seq<CallModel>, name: Seq<char>)
    requires
        calls_hold(parent, sites),
    ensures
        forall|t: Seq<char>| #[trigger]
            parent_targets(parent, sites, name).contains(t) <==> parent_becomes(
                parent,
                sites,
                name,
                t,
            ),
{
    let all = keys::<GraphSubgraphCall>(sites);
    find_is_exact::<GraphSubgraphCall>(sites, name);
    assert forall|c: int| 0 <= c < sites.len() && (#[trigger] sites[c]).node_id
        == name implies find::<GraphSubgraphCall>(sites, name) == Some(sites[c]) by {
        find_at::<GraphSubgraphCall>(sites, c);
    }
    match find::<GraphSubgraphCall>(sites, name) {
        Some(call) => {
            let c = sites.index_of(call);
            assert(sites[c] == call);
            assert(call_sound(sites[c]));
            entries_say(parent, call, 0);
            assert(sites[c].node_id == name);
            assert forall|t: Seq<char>| #[trigger]
                parent_targets(parent, sites, name).contains(t) <==> parent_becomes(
                    parent,
                    sites,
                    name,
                    t,
                ) by {
                if parent_becomes(parent, sites, name, t) {
                    let d = choose|d: int|
                        0 <= d < sites.len() && (#[trigger] sites[d]).node_id == name && enters(
                            parent,
                            sites[d],
                            0,
                            t,
                        );
                    assert(sites[d] == call);
                }
            }
        },
        None => {
            assert forall|c: int| 0 <= c < sites.len() implies (
            #[trigger] sites[c]).node_id != name by {
                if sites[c].node_id == name {
                    assert(all[c] == name);
                }
            }
            let only = seq![name];
            assert(parent_targets(parent, sites, name) == only);
            assert forall|t: Seq<char>| #[trigger] only.contains(t) <==> t == name by {
                assert(only[0] == name);
            }
            assert forall|t: Seq<char>| #[trigger]
                parent_targets(parent, sites, name).contains(t) <==> parent_becomes(
                    parent,
                    sites,
                    name,
                    t,
                ) by {}
        },
    }
}

proof fn joined_contains(a: Seq<Seq<char>>, b: Seq<Seq<char>>, t: Seq<char>)
    ensures
        (a + b).contains(t) <==> a.contains(t) || b.contains(t),
{
    let all = a + b;
    if all.contains(t) {
        let k = all.index_of(t);
        if k < a.len() {
            assert(a[k] == t);
        } else {
            assert(b[k - a.len()] == t);
        }
    }
    if a.contains(t) {
        let k = a.index_of(t);
        assert(all[k] == t);
    }
    if b.contains(t) {
        let k = b.index_of(t);
        assert(all[a.len() + k] == t);
    }
}

proof fn parent_lists_say(
    parent: GraphModel,
    sites: Seq<CallModel>,
    names: Seq<Seq<char>>,
    t: Seq<char>,
)
    requires
        calls_hold(parent, sites),
    ensures
        parent_targets_of(parent, sites, names).contains(t) <==> some_parent_becomes(
            parent,
            sites,
            names,
            t,
        ),
    decreases names.len(),
{
    if names.len() > 0 {
        let front = names.drop_last();
        let last = names.len() - 1;
        parent_lists_say(parent, sites, front, t);
        parent_names_say(parent, sites, names.last());
        joined_contains(
            parent_targets_of(parent, sites, front),
            parent_targets(parent, sites, names.last()),
            t,
        );
        assert(names[last] == names.last());
        assert(parent_targets(parent, sites, names.last()).contains(t) <==> parent_becomes(
            parent,
            sites,
            names[last],
            t,
        ));
        if some_parent_becomes(parent, sites, front, t) {
            let x = choose|x: int|
                0 <= x < front.len() && parent_becomes(parent, sites, #[trigger] front[x], t);
            assert(parent_becomes(parent, sites, names[x], t));
        }
        if some_parent_becomes(parent, sites, names, t) {
            let x = choose|x: int|
                0 <= x < names.len() && parent_becomes(parent, sites, #[trigger] names[x], t);
            if x < last {
                assert(parent_becomes(parent, sites, front[x], t));
            }
        }
    }
}

proof fn ports_say(call: CallModel, name: Seq<char>)
    requires
        call_sound(call),
    ensures
        call.subgraph.ports.contains(name) <==> is_port(call, name),
        call.subgraph.ports.no_duplicates(),
{
    let nodes = call.subgraph.graph.nodes;
    ports_are_terminal(nodes);
    ascending_distinct(call.subgraph.ports);
    if is_port(call, name) {
        let o = choose|o: int|
            0 <= o < nodes.len() && (#[trigger] nodes[o]).node_id == name && nodes[o].terminal;
        assert(nodes[o].node_id == name && nodes[o].terminal);
    }
}

proof fn port_returns_say(
    parent: GraphModel,
    sites: Seq<CallModel>,
    call: CallModel,
    iteration: u16,
    port: Seq<char>,
    t: Seq<char>,
)
    requires
        calls_hold(parent, sites),
        sites.contains(call),
        call.subgraph.ports.contains(port),
        call.repeat_port != Some(port) || iteration + 1 >= call.maximum_iterations,
    ensures
        child_targets(parent, sites, call, iteration, port).contains(t) <==> returns_to(
            parent,
            sites,
            call,
            port,
            t,
        ),
{
    let c = sites.index_of(call);
    assert(sites[c] == call);
    assert(call_sound(sites[c]));
    ascending_distinct(node_names(parent.nodes));
    calls_need_a_site(parent, call);
    let names = node_names(parent.nodes);
    let p = names.index_of(call.node_id);
    let site = parent.nodes[p];
    assert(site.node_id == call.node_id);
    assert(parent.nodes.contains(site));
    calls_fit_exactly(parent, call, site);
    ascending_distinct(keys::<GraphRoute>(site.routes));
    ports_say(call, port);
    let i = every_port_returns(call, site, port);
    ports_return_by_their_route(parent, sites, call, iteration, port, site, i);
    parent_lists_say(parent, sites, site.routes[i].successors, t);
    if some_parent_becomes(parent, sites, site.routes[i].successors, t) {
        assert(parent.nodes[p].routes[i] == site.routes[i]);
        assert(returns_to(parent, sites, call, port, t));
    }
    if returns_to(parent, sites, call, port, t) {
        let (s, r) = choose|s: int, r: int|
            0 <= s < parent.nodes.len() && parent.nodes[s].node_id == call.node_id && 0 <= r
                < parent.nodes[s].routes.len() && bound(
                call,
                port,
                (#[trigger] parent.nodes[s].routes[r]).route_id,
            ) && some_parent_becomes(parent, sites, parent.nodes[s].routes[r].successors, t);
        assert(names[s] == names[p]);
        assert(s == p);
        ports_return_as_bound(call, port, site.routes[r].route_id, site.routes[i].route_id);
        assert(keys::<GraphRoute>(site.routes)[r] == keys::<GraphRoute>(site.routes)[i]);
        assert(r == i);
    }
}

proof fn names_say(
    parent: GraphModel,
    sites: Seq<CallModel>,
    scope: Scope,
    name: Seq<char>,
    t: Seq<char>,
)
    requires
        calls_hold(parent, sites),
        scope_holds(sites, scope),
        name_known(scope, name),
    ensures
        targets(parent, sites, scope, name).contains(t) <==> becomes(
            parent,
            sites,
            scope,
            name,
            t,
        ),
{
    match scope {
        Scope::Parent => {
            parent_names_say(parent, sites, name);
        },
        Scope::Iteration { call, iteration } => {
            let c = sites.index_of(call);
            assert(sites[c] == call);
            assert(call_sound(sites[c]));
            ports_say(call, name);
            let list = child_targets(parent, sites, call, iteration, name);
            if !is_port(call, name) {
                copies_say(parent, call, iteration, name);
                let only = seq![copy_name(parent, call, iteration, name)];
                assert(list == only);
                assert(only[0] == copy_name(parent, call, iteration, name));
                assert(list.contains(t) <==> t == copy_name(parent, call, iteration, name));
            } else if call.repeat_port == Some(name) && iteration + 1 < call.maximum_iterations {
                entries_say(parent, call, (iteration + 1) as u16);
            } else {
                port_returns_say(parent, sites, call, iteration, name, t);
            }
        },
    }
}

proof fn lists_say(
    parent: GraphModel,
    sites: Seq<CallModel>,
    scope: Scope,
    names: Seq<Seq<char>>,
    t: Seq<char>,
)
    requires
        calls_hold(parent, sites),
        scope_holds(sites, scope),
        forall|x: int| 0 <= x < names.len() ==> name_known(scope, #[trigger] names[x]),
    ensures
        targets_of(parent, sites, scope, names).contains(t) <==> some_becomes(
            parent,
            sites,
            scope,
            names,
            t,
        ),
    decreases names.len(),
{
    if names.len() > 0 {
        let front = names.drop_last();
        let last = names.len() - 1;
        assert forall|x: int| 0 <= x < front.len() implies name_known(
            scope,
            #[trigger] front[x],
        ) by {
            assert(name_known(scope, names[x]));
        }
        lists_say(parent, sites, scope, front, t);
        assert(name_known(scope, names[last]));
        names_say(parent, sites, scope, names[last], t);
        joined_contains(
            targets_of(parent, sites, scope, front),
            targets(parent, sites, scope, names.last()),
            t,
        );
        if some_becomes(parent, sites, scope, front, t) {
            let x = choose|x: int|
                0 <= x < front.len() && becomes(parent, sites, scope, #[trigger] front[x], t);
            assert(becomes(parent, sites, scope, names[x], t));
        }
        if some_becomes(parent, sites, scope, names, t) {
            let x = choose|x: int|
                0 <= x < names.len() && becomes(parent, sites, scope, #[trigger] names[x], t);
            if x < last {
                assert(becomes(parent, sites, scope, front[x], t));
            }
        }
    }
}

/// The set holds exactly what the names become.
pub open spec fn set_becomes(
    parent: GraphModel,
    sites: Seq<CallModel>,
    scope: Scope,
    names: Seq<Seq<char>>,
    set: Seq<Seq<char>>,
) -> bool {
    &&& ascending(set)
    &&& forall|t: Seq<char>| #[trigger]
        set.contains(t) <==> some_becomes(parent, sites, scope, names, t)
}

/// A ready set becomes exactly the set of what its names become, if that is not
/// too large.
pub proof fn ready_sets_become_exactly(
    parent: GraphModel,
    sites: Seq<CallModel>,
    scope: Scope,
    names: Seq<Seq<char>>,
)
    requires
        calls_hold(parent, sites),
        scope_holds(sites, scope),
        forall|x: int| 0 <= x < names.len() ==> name_known(scope, #[trigger] names[x]),
    ensures
        remapped_set(parent, sites, scope, names) matches Some(set) ==> set_becomes(
            parent,
            sites,
            scope,
            names,
            set,
        ) && set.len() <= 1024,
{
    let list = targets_of(parent, sites, scope, names);
    distinct_sorted_is_sorted(list);
    if let Some(set) = remapped_set(parent, sites, scope, names) {
        assert forall|t: Seq<char>| #[trigger]
            set.contains(t) <==> some_becomes(parent, sites, scope, names, t) by {
            lists_say(parent, sites, scope, names, t);
        }
    }
}

/// The optional set holds exactly what the optional names become.
pub open spec fn option_becomes(
    parent: GraphModel,
    sites: Seq<CallModel>,
    scope: Scope,
    names: Option<Seq<Seq<char>>>,
    set: Option<Seq<Seq<char>>>,
) -> bool {
    match (names, set) {
        (None, None) => true,
        (Some(names), Some(set)) => set_becomes(parent, sites, scope, names, set),
        _ => false,
    }
}

/// What a route of a node becomes: in the parent it keeps its name, and in a
/// copy it has a generated one.
pub open spec fn route_identity(scope: Scope, node_id: Seq<char>, route: Seq<char>) -> Seq<char> {
    match scope {
        Scope::Parent => route,
        Scope::Iteration { call, iteration } => route_name(node_id, route)->0,
    }
}

/// The node is what the other becomes: it ends the run if that does, and goes
/// on to what the successors of that become, outcome by outcome.
pub open spec fn node_becomes(
    parent: GraphModel,
    sites: Seq<CallModel>,
    scope: Scope,
    node: NodeModel,
    made: NodeModel,
) -> bool {
    &&& made.terminal == node.terminal
    &&& option_becomes(parent, sites, scope, node.continue_to, made.continue_to)
    &&& option_becomes(parent, sites, scope, node.wait_to, made.wait_to)
    &&& made.routes.len() == node.routes.len()
    &&& forall|k: int|
        0 <= k < node.routes.len() ==> route_becomes(
            parent,
            sites,
            scope,
            #[trigger] node.routes[k],
            made,
        )
}

/// The node has a route that goes on to what the successors of that route
/// become.
pub open spec fn route_becomes(
    parent: GraphModel,
    sites: Seq<CallModel>,
    scope: Scope,
    route: RouteModel,
    made: NodeModel,
) -> bool {
    exists|j: int|
        0 <= j < made.routes.len() && (#[trigger] made.routes[j]).route_id == route_identity(
            scope,
            made.node_id,
            route.route_id,
        ) && set_becomes(parent, sites, scope, route.successors, made.routes[j].successors)
}

proof fn routes_say(
    parent: GraphModel,
    sites: Seq<CallModel>,
    scope: Scope,
    renames: Option<Seq<RenameModel>>,
    routes: Seq<RouteModel>,
    n: nat,
)
    requires
        calls_hold(parent, sites),
        scope_holds(sites, scope),
        n <= routes.len(),
        forall|k: int, x: int|
            0 <= k < routes.len() && 0 <= x < routes[k].successors.len() ==> name_known(
                scope,
                #[trigger] routes[k].successors[x],
            ),
        remapped_routes(parent, sites, scope, renames, routes, n) is Some,
    ensures
        remapped_routes(parent, sites, scope, renames, routes, n)->0.len() == n,
        forall|k: int|
            0 <= k < n ==> (#[trigger] remapped_routes(
                parent,
                sites,
                scope,
                renames,
                routes,
                n,
            )->0[k]).route_id == renamed(renames, routes[k].route_id) && set_becomes(
                parent,
                sites,
                scope,
                routes[k].successors,
                remapped_routes(parent, sites, scope, renames, routes, n)->0[k].successors,
            ),
    decreases n,
{
    if n > 0 {
        let m = (n - 1) as nat;
        routes_say(parent, sites, scope, renames, routes, m);
        let names = routes[n - 1].successors;
        assert forall|x: int| 0 <= x < names.len() implies name_known(
            scope,
            #[trigger] names[x],
        ) by {
            assert(name_known(scope, routes[n - 1].successors[x]));
        }
        ready_sets_become_exactly(parent, sites, scope, names);
        let done = remapped_routes(parent, sites, scope, renames, routes, m)->0;
        let all = remapped_routes(parent, sites, scope, renames, routes, n)->0;
        assert forall|k: int| 0 <= k < n implies (#[trigger] all[k]).route_id == renamed(
            renames,
            routes[k].route_id,
        ) && set_becomes(parent, sites, scope, routes[k].successors, all[k].successors) by {
            if k < m {
                assert(all[k] == done[k]);
            }
        }
    }
}

/// All successors of the node are names of the scope.
pub open spec fn successors_in_scope(scope: Scope, node: NodeModel) -> bool {
    &&& forall|k: int, x: int|
        0 <= k < node.routes.len() && 0 <= x < node.routes[k].successors.len() ==> name_known(
            scope,
            #[trigger] node.routes[k].successors[x],
        )
    &&& node.continue_to matches Some(names) ==> forall|x: int|
        0 <= x < names.len() ==> name_known(scope, #[trigger] names[x])
    &&& node.wait_to matches Some(names) ==> forall|x: int|
        0 <= x < names.len() ==> name_known(scope, #[trigger] names[x])
}

proof fn nodes_say(
    parent: GraphModel,
    sites: Seq<CallModel>,
    scope: Scope,
    renames: Option<Seq<RenameModel>>,
    node: NodeModel,
    node_id: Seq<char>,
)
    requires
        calls_hold(parent, sites),
        scope_holds(sites, scope),
        successors_in_scope(scope, node),
        forall|k: int|
            0 <= k < node.routes.len() ==> renamed(renames, (#[trigger] node.routes[k]).route_id)
                == route_identity(scope, node_id, node.routes[k].route_id),
        remapped(parent, sites, scope, renames, node, node_id) is Some,
    ensures
        ({
            let made = remapped(parent, sites, scope, renames, node, node_id)->0;
            made.node_id == node_id && node_becomes(parent, sites, scope, node, made)
        }),
{
    let made = remapped(parent, sites, scope, renames, node, node_id)->0;
    let list = remapped_routes(parent, sites, scope, renames, node.routes, node.routes.len())->0;
    routes_say(parent, sites, scope, renames, node.routes, node.routes.len());
    if let Some(names) = node.continue_to {
        ready_sets_become_exactly(parent, sites, scope, names);
    }
    if let Some(names) = node.wait_to {
        ready_sets_become_exactly(parent, sites, scope, names);
    }
    first_repeat_is_first(keys::<GraphRoute>(list));
    arranged_is_sorted::<GraphRoute>(list);
    assert(made.routes == arranged::<GraphRoute>(list));
    assert forall|k: int| 0 <= k < node.routes.len() implies route_becomes(
        parent,
        sites,
        scope,
        #[trigger] node.routes[k],
        made,
    ) by {
        assert(list.contains(list[k]));
        assert(made.routes.contains(list[k]));
        let j = made.routes.index_of(list[k]);
        assert(made.routes[j].route_id == route_identity(
            scope,
            made.node_id,
            node.routes[k].route_id,
        ));
    }
}

// ---------------------------------------------------------------------------
// Compositions
// ---------------------------------------------------------------------------

proof fn graph_successors_known(graph: GraphModel, i: int)
    requires
        graph_sound(graph),
        0 <= i < graph.nodes.len(),
    ensures
        graph.nodes[i].continue_to matches Some(names) ==> forall|x: int|
            0 <= x < names.len() ==> node_names(graph.nodes).contains(#[trigger] names[x]),
        graph.nodes[i].wait_to matches Some(names) ==> forall|x: int|
            0 <= x < names.len() ==> node_names(graph.nodes).contains(#[trigger] names[x]),
        forall|k: int, x: int|
            0 <= k < graph.nodes[i].routes.len() && 0 <= x
                < graph.nodes[i].routes[k].successors.len() ==> node_names(graph.nodes).contains(
                #[trigger] graph.nodes[i].routes[k].successors[x],
            ),
{
    compiled_graph_is_connected(graph);
    let node = graph.nodes[i];
    let sets = successor_sets(node);
    assert forall|s: int, x: int| 0 <= s < sets.len() && 0 <= x < sets[s].len() implies node_names(
        graph.nodes,
    ).contains(#[trigger] sets[s][x]) by {
        let n = sets[s][x];
        assert(sets[s].contains(n));
        joined_holds(sets, n);
        assert(successors(graph.nodes[i]).contains(n));
    }
    if let Some(names) = node.continue_to {
        assert(sets[0] == names);
        assert forall|x: int| 0 <= x < names.len() implies node_names(graph.nodes).contains(
            #[trigger] names[x],
        ) by {
            assert(sets[0][x] == names[x]);
        }
    }
    if let Some(names) = node.wait_to {
        assert(sets[sets.len() - 1] == names);
        assert forall|x: int| 0 <= x < names.len() implies node_names(graph.nodes).contains(
            #[trigger] names[x],
        ) by {
            assert(sets[sets.len() - 1][x] == names[x]);
        }
    }
    assert forall|k: int, x: int|
        0 <= k < node.routes.len() && 0 <= x < node.routes[k].successors.len() implies node_names(
        graph.nodes,
    ).contains(#[trigger] node.routes[k].successors[x]) by {
        let before: int = if node.continue_to is Some {
            1
        } else {
            0
        };
        assert(sets[before + k] == node.routes[k].successors);
        assert(sets[before + k][x] == node.routes[k].successors[x]);
    }
}

proof fn iteration_slots_valid(call: CallModel, site: usize, iteration: u16, n: nat)
    requires
        n <= call.subgraph.graph.nodes.len() <= 1024,
    ensures
        forall|k: int|
            0 <= k < iteration_slots(call, site, iteration, n).len() ==> {
                let slot = #[trigger] iteration_slots(call, site, iteration, n)[k];
                &&& slot.site == site
                &&& slot.iteration == iteration
                &&& slot.ordinal < n
                &&& !call.subgraph.ports.contains(
                    call.subgraph.graph.nodes[slot.ordinal as int].node_id,
                )
            },
    decreases n,
{
    if n > 0 {
        let m = (n - 1) as nat;
        iteration_slots_valid(call, site, iteration, m);
        let before = iteration_slots(call, site, iteration, m);
        let all = iteration_slots(call, site, iteration, n);
        assert forall|k: int| 0 <= k < all.len() implies {
            let slot = #[trigger] all[k];
            &&& slot.site == site
            &&& slot.iteration == iteration
            &&& slot.ordinal < n
            &&& !call.subgraph.ports.contains(
                call.subgraph.graph.nodes[slot.ordinal as int].node_id,
            )
        } by {
            if k < before.len() {
                assert(all[k] == before[k]);
            }
        }
    }
}

proof fn site_slots_valid(call: CallModel, site: usize, n: nat)
    requires
        call.subgraph.graph.nodes.len() <= 1024,
        n <= 65535,
    ensures
        forall|k: int|
            0 <= k < site_slots(call, site, n).len() ==> {
                let slot = #[trigger] site_slots(call, site, n)[k];
                &&& slot.site == site
                &&& slot.iteration < n
                &&& slot.ordinal < call.subgraph.graph.nodes.len()
                &&& !call.subgraph.ports.contains(
                    call.subgraph.graph.nodes[slot.ordinal as int].node_id,
                )
            },
    decreases n,
{
    if n > 0 {
        let m = (n - 1) as nat;
        site_slots_valid(call, site, m);
        iteration_slots_valid(call, site, m as u16, call.subgraph.graph.nodes.len());
        let before = site_slots(call, site, m);
        let more = iteration_slots(call, site, m as u16, call.subgraph.graph.nodes.len());
        let all = site_slots(call, site, n);
        assert(all == before + more);
        assert forall|k: int| 0 <= k < all.len() implies {
            let slot = #[trigger] all[k];
            &&& slot.site == site
            &&& slot.iteration < n
            &&& slot.ordinal < call.subgraph.graph.nodes.len()
            &&& !call.subgraph.ports.contains(
                call.subgraph.graph.nodes[slot.ordinal as int].node_id,
            )
        } by {
            if k < before.len() {
                assert(all[k] == before[k]);
            } else {
                assert(all[k] == more[k - before.len()]);
            }
        }
    }
}

proof fn slots_valid(sites: Seq<CallModel>, n: nat)
    requires
        n <= sites.len() <= usize::MAX,
        forall|c: int| 0 <= c < sites.len() ==> call_sound(#[trigger] sites[c]),
    ensures
        forall|k: int|
            0 <= k < all_slots(sites, n).len() ==> (#[trigger] all_slots(sites, n)[k]).site < n
                && slot_valid(sites, all_slots(sites, n)[k]),
    decreases n,
{
    if n > 0 {
        let m = (n - 1) as nat;
        slots_valid(sites, m);
        let call = sites[n - 1];
        assert(call_sound(sites[n - 1]));
        site_slots_valid(call, m as usize, call.maximum_iterations as nat);
        let before = all_slots(sites, m);
        let more = site_slots(call, m as usize, call.maximum_iterations as nat);
        let all = all_slots(sites, n);
        assert(all == before + more);
        assert forall|k: int| 0 <= k < all.len() implies (#[trigger] all[k]).site < n
            && slot_valid(sites, all[k]) by {
            if k < before.len() {
                assert(all[k] == before[k]);
            } else {
                assert(all[k] == more[k - before.len()]);
            }
        }
    }
}

proof fn jobs_become(parent: GraphModel, sites: Seq<CallModel>, list: Seq<Job>)
    requires
        remapped_jobs(parent, sites, list) is Some,
    ensures
        remapped_jobs(parent, sites, list)->0.len() == list.len(),
        forall|i: int|
            0 <= i < list.len() ==> remapped_job(parent, sites, #[trigger] list[i]) == Some(
                remapped_jobs(parent, sites, list)->0[i],
            ),
    decreases list.len(),
{
    if list.len() > 0 {
        let front = list.drop_last();
        jobs_become(parent, sites, front);
        let done = remapped_jobs(parent, sites, front)->0;
        let all = remapped_jobs(parent, sites, list)->0;
        assert forall|i: int| 0 <= i < list.len() implies remapped_job(
            parent,
            sites,
            #[trigger] list[i],
        ) == Some(all[i]) by {
            if i < front.len() {
                assert(front[i] == list[i]);
                assert(all[i] == done[i]);
            }
        }
    }
}

/// The node is one of the parent that no call replaces, with the successors that
/// its own become.
pub open spec fn is_kept(parent: GraphModel, sites: Seq<CallModel>, made: NodeModel) -> bool {
    exists|p: int|
        0 <= p < parent.nodes.len() && (#[trigger] parent.nodes[p]).node_id == made.node_id && (
        forall|c: int| 0 <= c < sites.len() ==> (#[trigger] sites[c]).node_id != made.node_id)
            && node_becomes(parent, sites, Scope::Parent, parent.nodes[p], made)
}

/// The node is the copy of a node of the body of a template in one iteration of
/// a call, with the successors that those of that node become there.
pub open spec fn is_copied(parent: GraphModel, sites: Seq<CallModel>, made: NodeModel) -> bool {
    exists|slot: Slot| #[trigger]
        slot_valid(sites, slot) && {
            let call = sites[slot.site as int];
            let node = call.subgraph.graph.nodes[slot.ordinal as int];
            &&& !is_port(call, node.node_id)
            &&& instance_name(parent, call, slot.iteration, slot.ordinal as int) == Some(
                made.node_id,
            )
            &&& node_becomes(
                parent,
                sites,
                Scope::Iteration { call, iteration: slot.iteration },
                node,
                made,
            )
        }
}

proof fn kept_say(parent: GraphModel, sites: Seq<CallModel>, place: usize, made: NodeModel)
    requires
        calls_hold(parent, sites),
        place < parent.nodes.len(),
        site_place(sites, parent.nodes[place as int].node_id) < 0,
        remapped_job(parent, sites, Job::Keep { place }) == Some(made),
    ensures
        is_kept(parent, sites, made),
{
    let node = parent.nodes[place as int];
    assert(successors_in_scope(Scope::Parent, node));
    nodes_say(parent, sites, Scope::Parent, None, node, node.node_id);
    assert forall|c: int| 0 <= c < sites.len() implies (#[trigger] sites[c]).node_id
        != made.node_id by {
        site_place_at(sites, c);
    }
}

proof fn copied_say(parent: GraphModel, sites: Seq<CallModel>, slot: Slot, made: NodeModel)
    requires
        calls_hold(parent, sites),
        slot_valid(sites, slot),
        lowered_slot(parent, sites, slot) is Some,
        remapped_job(parent, sites, Job::Copy { slot }) == Some(made),
    ensures
        is_copied(parent, sites, made),
{
    let call = sites[slot.site as int];
    assert(call_sound(call));
    let graph = call.subgraph.graph;
    let o = slot.ordinal as int;
    let node = graph.nodes[o];
    let entry = lowered_slot(parent, sites, slot)->0;
    let scope = Scope::Iteration { call, iteration: slot.iteration };
    ports_say(call, node.node_id);
    graph_successors_known(graph, o);
    assert(successors_in_scope(scope, node));
    assert forall|k: int| 0 <= k < node.routes.len() implies renamed(
        Some(entry.source.routes),
        (#[trigger] node.routes[k]).route_id,
    ) == route_identity(scope, entry.generated, node.routes[k].route_id) by {
        let id = node.routes[k].route_id;
        instance_names_its_source(parent, call, slot.iteration, o, id);
        assert(keys::<GraphRoute>(node.routes)[k] == id);
    }
    assert(sites.contains(call));
    nodes_say(parent, sites, scope, Some(entry.source.routes), node, entry.generated);
}

/// Every node of a composition is a node of the parent that no call replaces, or
/// the copy of a node of a template, and goes on exactly to what the
/// successors of that node become: a call site to the entries of its first
/// iteration, the port to repeat at to those of the next one while there is
/// one, and every other port to what follows the route of the site that it is
/// bound to. The composition is entered where the parent is.
pub proof fn compositions_lead_where_their_parts_do(
    parent: GraphModel,
    calls: Seq<CallModel>,
    made: NodeModel,
) -> (sites: Seq<CallModel>)
    requires
        graph_sound(parent),
        calls_sound(calls),
        0 < calls.len() <= usize::MAX,
        composed(parent, calls) is Ok,
        composed(parent, calls)->Ok_0.graph.nodes.contains(made),
    ensures
        sites.len() == calls.len(),
        forall|call: CallModel| #[trigger] sites.contains(call) <==> calls.contains(call),
        is_kept(parent, sites, made) || is_copied(parent, sites, made),
        set_becomes(
            parent,
            sites,
            Scope::Parent,
            parent.entry_nodes,
            composed(parent, calls)->Ok_0.graph.entry_nodes,
        ),
{
    let (entries, nodes) = composition_parts(parent, calls);
    let sites = arranged::<GraphSubgraphCall>(calls);
    let slots = all_slots(sites, sites.len());
    let list = jobs(parent, sites, slots, parent.nodes.len());
    sites_hold(parent, calls);
    collected_nodes_sorted(nodes);
    arranged_is_sorted::<GraphNode>(nodes);
    assert(nodes.contains(made));
    let k = nodes.index_of(made);
    jobs_become(parent, sites, list);
    assert(remapped_job(parent, sites, list[k]) == Some(made));
    assert(list.contains(list[k]));
    jobs_hold(parent, sites, slots, parent.nodes.len(), list[k]);
    lowered_names(parent, sites, slots);
    slots_valid(sites, sites.len());
    match list[k] {
        Job::Keep { place } => {
            kept_say(parent, sites, place, made);
        },
        Job::Copy { slot } => {
            let i = slots.index_of(slot);
            assert(slots[i] == slot);
            assert(Some(entries[i]) == lowered_slot(parent, sites, slots[i]));
            copied_say(parent, sites, slot, made);
        },
    }
    ready_sets_become_exactly(parent, sites, Scope::Parent, parent.entry_nodes);
    sites
}

/// Every node of the body of every template is copied once for each iteration of
/// each call, and nothing else is: the sources of a composition are exactly
/// those copies, each under its generated name.
pub proof fn every_iteration_is_copied(parent: GraphModel, calls: Seq<CallModel>) -> (sites: Seq<
    CallModel,
>)
    requires
        graph_sound(parent),
        calls_sound(calls),
        0 < calls.len() <= usize::MAX,
        composed(parent, calls) is Ok,
    ensures
        sites.len() == calls.len(),
        forall|call: CallModel| #[trigger] sites.contains(call) <==> calls.contains(call),
        forall|slot: Slot| #[trigger]
            slot_valid(sites, slot) ==> {
                let call = sites[slot.site as int];
                let entry = lowered(parent, call, slot.iteration, slot.ordinal as int);
                entry is Some && composed(parent, calls)->Ok_0.sources.contains(entry->0)
            },
        forall|entry: EntryModel| #[trigger]
            composed(parent, calls)->Ok_0.sources.contains(entry) ==> exists|slot: Slot| #[trigger]
                slot_valid(sites, slot) && lowered(
                    parent,
                    sites[slot.site as int],
                    slot.iteration,
                    slot.ordinal as int,
                ) == Some(entry),
{
    let (entries, nodes) = composition_parts(parent, calls);
    let sites = arranged::<GraphSubgraphCall>(calls);
    let slots = all_slots(sites, sites.len());
    sites_hold(parent, calls);
    lowered_names(parent, sites, slots);
    slots_valid(sites, sites.len());
    let sources = composed(parent, calls)->Ok_0.sources;
    arranged_is_sorted::<SourceEntry>(entries);
    assert forall|slot: Slot| #[trigger] slot_valid(sites, slot) implies {
        let entry = lowered(
            parent,
            sites[slot.site as int],
            slot.iteration,
            slot.ordinal as int,
        );
        entry is Some && sources.contains(entry->0)
    } by {
        assert(call_sound(sites[slot.site as int]));
        slot_listed(sites, slot, sites.len());
        let i = slots.index_of(slot);
        assert(slots[i] == slot);
        assert(Some(entries[i]) == lowered_slot(parent, sites, slots[i]));
        assert(entries.contains(entries[i]));
    }
    assert forall|entry: EntryModel| #[trigger] sources.contains(entry) implies exists|
        slot: Slot,
    | #[trigger]
        slot_valid(sites, slot) && lowered(
            parent,
            sites[slot.site as int],
            slot.iteration,
            slot.ordinal as int,
        ) == Some(entry) by {
        assert(entries.contains(entry));
        let i = entries.index_of(entry);
        assert(Some(entries[i]) == lowered_slot(parent, sites, slots[i]));
        assert(slot_valid(sites, slots[i]));
    }
    sites
}

/// A copy is valid exactly if it is of an iteration of a call, and of a node of
/// its template that is no port.
pub proof fn copies_valid_exactly(sites: Seq<CallModel>, slot: Slot)
    requires
        forall|c: int| 0 <= c < sites.len() ==> call_sound(#[trigger] sites[c]),
    ensures
        slot_valid(sites, slot) <==> {
            &&& slot.site < sites.len()
            &&& slot.iteration < sites[slot.site as int].maximum_iterations
            &&& slot.ordinal < sites[slot.site as int].subgraph.graph.nodes.len()
            &&& !sites[slot.site as int].subgraph.graph.nodes[slot.ordinal as int].terminal
        },
{
    if slot.site < sites.len() {
        let call = sites[slot.site as int];
        assert(call_sound(sites[slot.site as int]));
        let nodes = call.subgraph.graph.nodes;
        if slot.ordinal < nodes.len() {
            let o = slot.ordinal as int;
            ports_say(call, nodes[o].node_id);
            ascending_distinct(node_names(nodes));
            if is_port(call, nodes[o].node_id) {
                let p = choose|p: int|
                    0 <= p < nodes.len() && (#[trigger] nodes[p]).node_id == nodes[o].node_id
                        && nodes[p].terminal;
                assert(node_names(nodes)[p] == node_names(nodes)[o]);
            }
        }
    }
}

proof fn sites_hold(parent: GraphModel, calls: Seq<CallModel>)
    requires
        graph_sound(parent),
        calls_sound(calls),
        calls_failure(parent, calls, 0) is None,
    ensures
        ({
            let sites = arranged::<GraphSubgraphCall>(calls);
            &&& calls_hold(parent, sites)
            &&& sites.len() == calls.len()
            &&& forall|call: CallModel| #[trigger] sites.contains(call) <==> calls.contains(call)
        }),
{
    let sites = arranged::<GraphSubgraphCall>(calls);
    calls_accepted_exactly(parent, calls);
    arranged_is_sorted::<GraphSubgraphCall>(calls);
    ascending_distinct(keys::<GraphSubgraphCall>(sites));
    assert forall|c: int| 0 <= c < sites.len() implies call_sound(#[trigger] sites[c])
        && call_failure(parent, sites[c]) is None by {
        assert(sites.contains(sites[c]));
        let k = calls.index_of(sites[c]);
        assert(call_fits(parent, calls[k]));
        reveal(call_fits);
        reveal(calls_sound);
        assert(call_sound(calls[k]));
    }
}

} // verus!
