//! What holds of every call of a template: where it fits, and where its ports
//! return to.

use vstd::prelude::*;

use crate::composition_model::{
    call_failure, child_targets, is_return_route, parent_targets_of, return_successors, returns_by,
    shares_state, site_fits, CallModel,
};
use crate::graph::GraphModel;
use crate::graph_composition::ReturnBinding;
use crate::graph_node::{GraphNode, GraphRoute, NodeModel, RouteModel};
use crate::graph_shape::node_names;
use crate::ordered::{ascending, ascending_distinct, find, find_at, find_is_exact, keys};
use crate::template::CompositionFailure;

verus! {

/// The port is bound to the route: by a binding of the call or, where the call
/// has none for it, by its own name.
pub open spec fn bound(call: CallModel, port: Seq<char>, route: Seq<char>) -> bool {
    ||| exists|k: int|
        0 <= k < call.return_routes.len() && (#[trigger] call.return_routes[k]).port == port
            && call.return_routes[k].route == route
    ||| port == route && forall|k: int|
        0 <= k < call.return_routes.len() ==> (#[trigger] call.return_routes[k]).port != port
}

/// A port returns by the route that it is bound to, and by no other.
pub proof fn ports_return_as_bound(
    call: CallModel,
    port: Seq<char>,
    route: Seq<char>,
    other: Seq<char>,
)
    requires
        ascending(keys::<ReturnBinding>(call.return_routes)),
    ensures
        returns_by(call, port, route) <==> bound(call, port, route),
        bound(call, port, route) && bound(call, port, other) ==> route == other,
{
    let all = call.return_routes;
    let names = keys::<ReturnBinding>(all);
    ascending_distinct(names);
    find_is_exact::<ReturnBinding>(all, port);
    assert forall|k: int| 0 <= k < all.len() && (#[trigger] all[k]).port == port implies find::<
        ReturnBinding,
    >(all, port) == Some(all[k]) by {
        find_at::<ReturnBinding>(all, k);
    }
    if let Some(binding) = find::<ReturnBinding>(all, port) {
        let k = all.index_of(binding);
        assert(all[k] == binding);
    } else {
        assert forall|k: int| 0 <= k < all.len() implies (#[trigger] all[k]).port != port by {
            if all[k].port == port {
                assert(names[k] == port);
            }
        }
    }
}

proof fn first_bound_route(
    call: CallModel,
    routes: Seq<RouteModel>,
    port: Seq<char>,
    i: int,
    from: int,
)
    requires
        ascending(keys::<ReturnBinding>(call.return_routes)),
        keys::<GraphRoute>(routes).no_duplicates(),
        0 <= from <= i < routes.len(),
        bound(call, port, routes[i].route_id),
    ensures
        return_successors(call, routes, port, from) == routes[i].successors,
    decreases i - from,
{
    ports_return_as_bound(call, port, routes[from].route_id, routes[i].route_id);
    if from < i {
        let names = keys::<GraphRoute>(routes);
        assert(names[from] != names[i]);
        first_bound_route(call, routes, port, i, from + 1);
    }
}

/// A port of a call returns to what follows the one route of the site that it is
/// bound to: not to what follows another route, and not to less.
pub proof fn ports_return_by_their_route(
    parent: GraphModel,
    sites: Seq<CallModel>,
    call: CallModel,
    iteration: u16,
    port: Seq<char>,
    site: NodeModel,
    i: int,
)
    requires
        node_names(parent.nodes).no_duplicates(),
        ascending(keys::<ReturnBinding>(call.return_routes)),
        parent.nodes.contains(site),
        site.node_id == call.node_id,
        keys::<GraphRoute>(site.routes).no_duplicates(),
        call.subgraph.ports.contains(port),
        call.repeat_port != Some(port) || iteration + 1 >= call.maximum_iterations,
        0 <= i < site.routes.len(),
        bound(call, port, site.routes[i].route_id),
    ensures
        child_targets(parent, sites, call, iteration, port) == parent_targets_of(
            parent,
            sites,
            site.routes[i].successors,
        ),
{
    let k = parent.nodes.index_of(site);
    find_at::<GraphNode>(parent.nodes, k);
    first_bound_route(call, site.routes, port, i, 0);
}

/// One of the ports is bound to the route.
pub open spec fn some_port_bound(call: CallModel, route: Seq<char>) -> bool {
    exists|k: int|
        0 <= k < call.subgraph.ports.len() && bound(call, #[trigger] call.subgraph.ports[k], route)
}

/// The site declares routes and nothing else, as many as the template has ports,
/// and each of them is bound to one of the ports.
pub open spec fn site_returns_exactly(site: NodeModel, call: CallModel) -> bool {
    &&& site.continue_to is None
    &&& site.wait_to is None
    &&& site.terminal == false
    &&& site.routes.len() == call.subgraph.ports.len()
    &&& forall|i: int|
        0 <= i < site.routes.len() ==> some_port_bound(call, (#[trigger] site.routes[i]).route_id)
}

/// A call is accepted exactly at a node of the parent that declares the returns
/// of the template and nothing else, if both share their schemas and their
/// reducer, and the parent runs no more at once than the template allows.
pub proof fn calls_fit_exactly(parent: GraphModel, call: CallModel, site: NodeModel)
    requires
        node_names(parent.nodes).no_duplicates(),
        ascending(keys::<ReturnBinding>(call.return_routes)),
        parent.nodes.contains(site),
        site.node_id == call.node_id,
    ensures
        call_failure(parent, call) is None <==> {
            &&& site_returns_exactly(site, call)
            &&& call.subgraph.graph.input_schema == parent.input_schema
            &&& call.subgraph.graph.state_schema == parent.state_schema
            &&& call.subgraph.graph.update_schema == parent.update_schema
            &&& call.subgraph.graph.output_schema == parent.output_schema
            &&& call.subgraph.graph.reducer == parent.reducer
            &&& parent.limits.parallelism <= call.subgraph.graph.limits.parallelism
        },
        call_failure(parent, call) == Some(
            CompositionFailure::ReturnRoutesMismatch { node_id: call.node_id },
        ) <==> !site_returns_exactly(site, call),
        call_failure(parent, call) == Some(
            CompositionFailure::SharedStateContractMismatch { node_id: call.node_id },
        ) ==> !shares_state(parent, call.subgraph.graph),
        call_failure(parent, call) == Some(
            CompositionFailure::TemplateParallelismLimit { node_id: call.node_id },
        ) ==> call.subgraph.graph.limits.parallelism < parent.limits.parallelism,
{
    let p = parent.nodes.index_of(site);
    find_at::<GraphNode>(parent.nodes, p);
    let ports = call.subgraph.ports;
    assert forall|route: Seq<char>| #[trigger]
        is_return_route(call, route) <==> some_port_bound(call, route) by {
        assert forall|k: int| 0 <= k < ports.len() implies (returns_by(
            call,
            #[trigger] ports[k],
            route,
        ) <==> bound(call, ports[k], route)) by {
            ports_return_as_bound(call, ports[k], route, route);
        }
        if is_return_route(call, route) {
            let k = choose|k: int|
                0 <= k < ports.len() && returns_by(call, #[trigger] ports[k], route);
            assert(bound(call, ports[k], route));
        }
        if some_port_bound(call, route) {
            let k = choose|k: int| 0 <= k < ports.len() && bound(call, #[trigger] ports[k], route);
            assert(returns_by(call, ports[k], route));
        }
    }
    if site_fits(site, call) {
        assert forall|i: int| 0 <= i < site.routes.len() implies some_port_bound(
            call,
            (#[trigger] site.routes[i]).route_id,
        ) by {
            assert(is_return_route(call, site.routes[i].route_id));
        }
    }
    if site_returns_exactly(site, call) {
        assert forall|i: int| 0 <= i < site.routes.len() implies is_return_route(
            call,
            (#[trigger] site.routes[i]).route_id,
        ) by {
            assert(some_port_bound(call, site.routes[i].route_id));
        }
    }
}

/// At the site of an accepted call every port has a route that it returns by.
pub proof fn every_port_returns(call: CallModel, site: NodeModel, port: Seq<char>) -> (i: int)
    requires
        ascending(keys::<ReturnBinding>(call.return_routes)),
        keys::<GraphRoute>(site.routes).no_duplicates(),
        call.subgraph.ports.no_duplicates(),
        site_returns_exactly(site, call),
        call.subgraph.ports.contains(port),
    ensures
        0 <= i < site.routes.len(),
        bound(call, port, site.routes[i].route_id),
{
    let ports = call.subgraph.ports;
    let n = ports.len() as int;
    let names = keys::<GraphRoute>(site.routes);
    let at = Seq::new(
        ports.len(),
        |i: int|
            choose|k: int|
                0 <= k < ports.len() && bound(call, #[trigger] ports[k], site.routes[i].route_id),
    );
    assert forall|i: int| 0 <= i < n implies 0 <= #[trigger] at[i] < n && bound(
        call,
        ports[at[i]],
        site.routes[i].route_id,
    ) by {
        assert(some_port_bound(call, site.routes[i].route_id));
    }
    assert(at.no_duplicates()) by {
        assert forall|i: int, j: int| 0 <= i < n && 0 <= j < n && i != j implies at[i] != at[j] by {
            if at[i] == at[j] {
                ports_return_as_bound(
                    call,
                    ports[at[i]],
                    site.routes[i].route_id,
                    site.routes[j].route_id,
                );
                assert(names[i] == names[j]);
            }
        }
    }
    at.unique_seq_to_set();
    let all = vstd::set_lib::set_int_range(0, n);
    vstd::set_lib::lemma_int_range(0, n);
    assert(at.to_set().subset_of(all)) by {
        assert forall|k: int| at.to_set().contains(k) implies all.contains(k) by {
            assert(at.contains(k));
            let i = at.index_of(k);
            assert(at[i] == k);
        }
    }
    vstd::set_lib::lemma_subset_equality(at.to_set(), all);
    let k = ports.index_of(port);
    assert(all.contains(k));
    assert(at.contains(k));
    at.index_of(k)
}

/// A call of a node that the parent does not have is refused.
pub proof fn calls_need_a_site(parent: GraphModel, call: CallModel)
    ensures
        !node_names(parent.nodes).contains(call.node_id) <==> call_failure(parent, call) == Some(
            CompositionFailure::UnknownCallSite { node_id: call.node_id },
        ),
{
    find_is_exact::<GraphNode>(parent.nodes, call.node_id);
}

} // verus!
