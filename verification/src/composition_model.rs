//! What composing a graph of templates comes to.

use vstd::prelude::*;

use crate::canonical::domain_digest;
use crate::digest::hex_text;
use crate::graph::{compiled, graph_reference, GraphModel};
use crate::graph_composition::{GraphSubgraphCall, ReturnBinding, RouteRename, SourceEntry};
use crate::graph_node::{node_check, GraphNode, GraphRoute, NodeModel, RouteModel};
use crate::json_value::{Json, Member, NumberModel};
use crate::names::NodeId;
use crate::ordered::{arranged, collection, find, keys, placed, Collected};
use crate::pins::{graph_reference_json, GraphReferenceModel};
use crate::template::{CompositionFailure, SubgraphModel};

verus! {

// ---------------------------------------------------------------------------
// Calls
// ---------------------------------------------------------------------------

/// A return port and the parent route that it returns by.
pub ghost struct BindingModel {
    pub port: Seq<char>,
    pub route: Seq<char>,
}

/// The values of [`GraphSubgraphCall`].
pub ghost struct CallModel {
    pub node_id: Seq<char>,
    pub subgraph: SubgraphModel,
    pub maximum_iterations: u16,
    pub repeat_port: Option<Seq<char>>,
    pub return_routes: Seq<BindingModel>,
}

/// The port returns by the route: the bound one, or the one of its name.
pub open spec fn returns_by(call: CallModel, port: Seq<char>, route: Seq<char>) -> bool {
    match find::<ReturnBinding>(call.return_routes, port) {
        Some(binding) => binding.route == route,
        None => port == route,
    }
}

/// Some port returns by the route.
pub open spec fn is_return_route(call: CallModel, route: Seq<char>) -> bool {
    exists|k: int|
        0 <= k < call.subgraph.ports.len() && returns_by(
            call,
            #[trigger] call.subgraph.ports[k],
            route,
        )
}

/// The node declares exactly the return routes of the call.
pub open spec fn site_fits(node: NodeModel, call: CallModel) -> bool {
    &&& node.continue_to is None
    &&& node.wait_to is None
    &&& !node.terminal
    &&& node.routes.len() == call.subgraph.ports.len()
    &&& forall|i: int|
        0 <= i < node.routes.len() ==> is_return_route(call, (#[trigger] node.routes[i]).route_id)
}

/// The graphs share their schemas and their reducer.
pub open spec fn shares_state(a: GraphModel, b: GraphModel) -> bool {
    &&& a.input_schema == b.input_schema
    &&& a.state_schema == b.state_schema
    &&& a.update_schema == b.update_schema
    &&& a.output_schema == b.output_schema
    &&& a.reducer == b.reducer
}

/// What a call fails on by itself.
pub open spec fn call_failure(parent: GraphModel, call: CallModel) -> Option<CompositionFailure> {
    match find::<GraphNode>(parent.nodes, call.node_id) {
        None => Some(CompositionFailure::UnknownCallSite { node_id: call.node_id }),
        Some(node) => if !site_fits(node, call) {
            Some(CompositionFailure::ReturnRoutesMismatch { node_id: call.node_id })
        } else if !shares_state(parent, call.subgraph.graph) {
            Some(CompositionFailure::SharedStateContractMismatch { node_id: call.node_id })
        } else if parent.limits.parallelism > call.subgraph.graph.limits.parallelism {
            Some(CompositionFailure::TemplateParallelismLimit { node_id: call.node_id })
        } else {
            None
        },
    }
}

/// How many nodes the body of a call has: those that are no ports.
pub open spec fn body_size(call: CallModel) -> int {
    call.subgraph.graph.nodes.len() - call.subgraph.ports.len()
}

/// How many nodes there are once the first `n` calls are expanded.
pub open spec fn expanded_size(parent: GraphModel, calls: Seq<CallModel>, n: int) -> int
    decreases n,
{
    if n <= 0 {
        parent.nodes.len() as int
    } else {
        expanded_size(parent, calls, n - 1) - 1 + body_size(calls[n - 1])
            * calls[n - 1].maximum_iterations as int
    }
}

/// What the call at an index fails on, after those before it.
pub open spec fn next_call_failure(parent: GraphModel, calls: Seq<CallModel>, n: int) -> Option<
    CompositionFailure,
> {
    let call = calls[n];
    let alone = call_failure(parent, call);
    if keys::<GraphSubgraphCall>(calls.take(n)).contains(call.node_id) {
        Some(CompositionFailure::DuplicateCallSite { node_id: call.node_id })
    } else if alone is Some {
        alone
    } else if expanded_size(parent, calls, n + 1) > 1024 {
        Some(CompositionFailure::ExpansionTooLarge)
    } else {
        None
    }
}

/// The first failure among the calls, in the order in which they come.
pub open spec fn calls_failure(parent: GraphModel, calls: Seq<CallModel>, from: int) -> Option<
    CompositionFailure,
>
    decreases calls.len() - from,
{
    if from < 0 || from >= calls.len() {
        None
    } else {
        match next_call_failure(parent, calls, from) {
            Some(e) => Some(e),
            None => calls_failure(parent, calls, from + 1),
        }
    }
}

// ---------------------------------------------------------------------------
// Identities
// ---------------------------------------------------------------------------

/// The route of a template and the one it becomes.
pub ghost struct RenameModel {
    pub source: Seq<char>,
    pub generated: Seq<char>,
}

/// The values of [`GraphNodeSource`](crate::graph_composition::GraphNodeSource).
pub ghost struct SourceModel {
    pub graph: GraphReferenceModel,
    pub node_id: Seq<char>,
    pub call_site: Seq<char>,
    pub iteration: u16,
    pub routes: Seq<RenameModel>,
}

/// A generated node and where it comes from.
pub ghost struct EntryModel {
    pub generated: Seq<char>,
    pub source: SourceModel,
}

/// The JSON form of an optional name.
pub open spec fn optional_name_json(name: Option<Seq<char>>) -> Json {
    match name {
        Some(name) => Json::Text(name),
        None => Json::Null,
    }
}

/// The JSON form of return bindings.
pub open spec fn bindings_json(bindings: Seq<BindingModel>) -> Json {
    Json::Object(
        Seq::new(
            bindings.len(),
            |i: int| Member { name: bindings[i].port, value: Json::Text(bindings[i].route) },
        ),
    )
}

/// What the identities of one iteration of a call are computed of.
pub open spec fn scope_json(parent: GraphModel, call: CallModel, iteration: u16) -> Json {
    Json::Object(
        seq![
            Member { name: "domain"@, value: Json::Text("stateknot.graph-composition.v1"@) },
            Member { name: "parent"@, value: graph_reference_json(graph_reference(parent)) },
            Member {
                name: "graph"@,
                value: graph_reference_json(graph_reference(call.subgraph.graph)),
            },
            Member { name: "call_site"@, value: Json::Text(call.node_id) },
            Member {
                name: "iteration"@,
                value: Json::Number(NumberModel::Unsigned(iteration as u64)),
            },
            Member {
                name: "maximum_iterations"@,
                value: Json::Number(NumberModel::Unsigned(call.maximum_iterations as u64)),
            },
            Member { name: "repeat_port"@, value: optional_name_json(call.repeat_port) },
            Member { name: "return_routes"@, value: bindings_json(call.return_routes) },
        ],
    )
}

/// A number below ten thousand in four digits.
pub open spec fn four_digits(n: int) -> Seq<char> {
    seq![
        ((48 + n / 1000 % 10) as u8) as char,
        ((48 + n / 100 % 10) as u8) as char,
        ((48 + n / 10 % 10) as u8) as char,
        ((48 + n % 10) as u8) as char,
    ]
}

/// The identity of the node at a place of the template in one iteration.
pub open spec fn instance_name(
    parent: GraphModel,
    call: CallModel,
    iteration: u16,
    ordinal: int,
) -> Option<Seq<char>> {
    match domain_digest(Seq::empty(), scope_json(parent, call, iteration)) {
        Some(digest) => Some(
            "skc-"@ + hex_text(digest) + seq!['-'] + four_digits(ordinal),
        ),
        None => None,
    }
}

/// What the identity of a route of a generated node is computed of.
pub open spec fn route_scope_json(generated: Seq<char>, route_id: Seq<char>) -> Json {
    Json::Object(
        seq![
            Member { name: "domain"@, value: Json::Text("stateknot.graph-composition.route.v1"@) },
            Member { name: "node_id"@, value: Json::Text(generated) },
            Member { name: "route_id"@, value: Json::Text(route_id) },
        ],
    )
}

/// The identity of a route of a generated node.
pub open spec fn route_name(generated: Seq<char>, route_id: Seq<char>) -> Option<Seq<char>> {
    match domain_digest(Seq::empty(), route_scope_json(generated, route_id)) {
        Some(digest) => Some("skr-"@ + hex_text(digest)),
        None => None,
    }
}

/// What the first `n` routes of a node become.
pub open spec fn renames(generated: Seq<char>, routes: Seq<RouteModel>, n: nat) -> Option<
    Seq<RenameModel>,
>
    decreases n,
{
    if n == 0 || n > routes.len() {
        Some(Seq::empty())
    } else {
        match (
            renames(generated, routes, (n - 1) as nat),
            route_name(generated, routes[n - 1].route_id),
        ) {
            (Some(done), Some(name)) => Some(
                done.push(RenameModel { source: routes[n - 1].route_id, generated: name }),
            ),
            _ => None,
        }
    }
}

/// What the node at a place of a template becomes in one iteration.
pub open spec fn lowered(
    parent: GraphModel,
    call: CallModel,
    iteration: u16,
    ordinal: int,
) -> Option<EntryModel> {
    let node = call.subgraph.graph.nodes[ordinal];
    match instance_name(parent, call, iteration, ordinal) {
        None => None,
        Some(generated) => match renames(generated, node.routes, node.routes.len()) {
            None => None,
            Some(routes) => Some(
                EntryModel {
                    generated,
                    source: SourceModel {
                        graph: graph_reference(call.subgraph.graph),
                        node_id: node.node_id,
                        call_site: call.node_id,
                        iteration,
                        routes,
                    },
                },
            ),
        },
    }
}

/// One copy of one node of a template: which call, which iteration and which
/// place.
#[derive(Clone, Copy, Debug, PartialEq, Eq, Structural)]
pub struct Slot {
    /// The place of the call.
    pub site: usize,
    /// The iteration.
    pub iteration: u16,
    /// The place of the node in the template.
    pub ordinal: usize,
}

/// The copies of the first `n` nodes of a template in one iteration. Ports are
/// not copied.
pub open spec fn iteration_slots(call: CallModel, site: usize, iteration: u16, n: nat) -> Seq<Slot>
    decreases n,
{
    if n == 0 {
        Seq::empty()
    } else {
        let done = iteration_slots(call, site, iteration, (n - 1) as nat);
        if call.subgraph.ports.contains(call.subgraph.graph.nodes[n - 1].node_id) {
            done
        } else {
            done.push(Slot { site, iteration, ordinal: (n - 1) as usize })
        }
    }
}

/// The copies of a template in the first iterations.
pub open spec fn site_slots(call: CallModel, site: usize, iterations: nat) -> Seq<Slot>
    decreases iterations,
{
    if iterations == 0 {
        Seq::empty()
    } else {
        site_slots(call, site, (iterations - 1) as nat) + iteration_slots(
            call,
            site,
            (iterations - 1) as u16,
            call.subgraph.graph.nodes.len(),
        )
    }
}

/// The copies that the first calls make, call after call.
pub open spec fn all_slots(sites: Seq<CallModel>, n: nat) -> Seq<Slot>
    decreases n,
{
    if n == 0 || n > sites.len() {
        Seq::empty()
    } else {
        all_slots(sites, (n - 1) as nat) + site_slots(
            sites[n - 1],
            (n - 1) as usize,
            sites[n - 1].maximum_iterations as nat,
        )
    }
}

/// What a copy becomes.
pub open spec fn lowered_slot(parent: GraphModel, sites: Seq<CallModel>, slot: Slot) -> Option<
    EntryModel,
> {
    lowered(parent, sites[slot.site as int], slot.iteration, slot.ordinal as int)
}

/// The generated names.
pub open spec fn entry_names(entries: Seq<EntryModel>) -> Seq<Seq<char>> {
    keys::<SourceEntry>(entries)
}

/// What one more copy fails on, after those that are done.
pub open spec fn lowering_failure(
    parent: GraphModel,
    done: Seq<EntryModel>,
    entry: Option<EntryModel>,
) -> Option<CompositionFailure> {
    match entry {
        None => Some(CompositionFailure::CanonicalSerialization),
        Some(entry) => if find::<GraphNode>(parent.nodes, entry.generated) is Some || entry_names(
            done,
        ).contains(entry.generated) {
            Some(CompositionFailure::IdentityCollision)
        } else {
            None
        },
    }
}

/// What all copies become, or the first failure.
pub open spec fn lowered_slots(
    parent: GraphModel,
    sites: Seq<CallModel>,
    slots: Seq<Slot>,
) -> Result<Seq<EntryModel>, CompositionFailure>
    decreases slots.len(),
{
    if slots.len() == 0 {
        Ok(Seq::empty())
    } else {
        match lowered_slots(parent, sites, slots.drop_last()) {
            Err(e) => Err(e),
            Ok(done) => {
                let entry = lowered_slot(parent, sites, slots.last());
                match lowering_failure(parent, done, entry) {
                    Some(e) => Err(e),
                    None => Ok(done.push(entry->Some_0)),
                }
            },
        }
    }
}

// ---------------------------------------------------------------------------
// Edges
// ---------------------------------------------------------------------------

/// The names in order, each once.
pub open spec fn distinct_sorted(names: Seq<Seq<char>>) -> Seq<Seq<char>>
    decreases names.len(),
{
    if names.len() == 0 {
        Seq::empty()
    } else {
        let done = distinct_sorted(names.drop_last());
        if done.contains(names.last()) {
            done
        } else {
            placed::<NodeId>(done, names.last())
        }
    }
}

/// The place of the node with the name, counted from the last.
pub open spec fn place_of(nodes: Seq<NodeModel>, name: Seq<char>) -> int
    decreases nodes.len(),
{
    if nodes.len() == 0 {
        -1
    } else if nodes.last().node_id == name {
        nodes.len() - 1
    } else {
        place_of(nodes.drop_last(), name)
    }
}

/// The copy of a node of a template in one iteration.
pub open spec fn copy_name(
    parent: GraphModel,
    call: CallModel,
    iteration: u16,
    name: Seq<char>,
) -> Seq<char> {
    instance_name(
        parent,
        call,
        iteration,
        place_of(call.subgraph.graph.nodes, name),
    )->Some_0
}

/// The copies of the entry nodes of a template in one iteration.
pub open spec fn entry_copies(parent: GraphModel, call: CallModel, iteration: u16) -> Seq<Seq<char>> {
    distinct_sorted(
        Seq::new(
            call.subgraph.graph.entry_nodes.len(),
            |k: int| copy_name(parent, call, iteration, call.subgraph.graph.entry_nodes[k]),
        ),
    )
}

/// What a node of the parent becomes as a successor: a call site becomes the
/// entry copies of the first iteration.
pub open spec fn parent_targets(parent: GraphModel, sites: Seq<CallModel>, name: Seq<char>) -> Seq<
    Seq<char>,
> {
    match find::<GraphSubgraphCall>(sites, name) {
        Some(call) => entry_copies(parent, call, 0),
        None => seq![name],
    }
}

/// What names of the parent become as successors.
pub open spec fn parent_targets_of(
    parent: GraphModel,
    sites: Seq<CallModel>,
    names: Seq<Seq<char>>,
) -> Seq<Seq<char>>
    decreases names.len(),
{
    if names.len() == 0 {
        Seq::empty()
    } else {
        parent_targets_of(parent, sites, names.drop_last()) + parent_targets(
            parent,
            sites,
            names.last(),
        )
    }
}

/// The successors of the first route from `from` on that the port returns by.
pub open spec fn return_successors(
    call: CallModel,
    routes: Seq<RouteModel>,
    port: Seq<char>,
    from: int,
) -> Seq<Seq<char>>
    decreases routes.len() - from,
{
    if from < 0 || from >= routes.len() {
        Seq::empty()
    } else if returns_by(call, port, routes[from].route_id) {
        routes[from].successors
    } else {
        return_successors(call, routes, port, from + 1)
    }
}

/// What a node of a template becomes as a successor in one iteration: a node
/// of the body its copy, the port to repeat at the entry copies of the next
/// iteration, and any other port what the parent continues with.
pub open spec fn child_targets(
    parent: GraphModel,
    sites: Seq<CallModel>,
    call: CallModel,
    iteration: u16,
    name: Seq<char>,
) -> Seq<Seq<char>> {
    if !call.subgraph.ports.contains(name) {
        seq![copy_name(parent, call, iteration, name)]
    } else if call.repeat_port == Some(name) && iteration + 1 < call.maximum_iterations {
        entry_copies(parent, call, (iteration + 1) as u16)
    } else {
        let site = find::<GraphNode>(parent.nodes, call.node_id)->Some_0;
        parent_targets_of(parent, sites, return_successors(call, site.routes, name, 0))
    }
}

/// Where a successor stands: in the parent, or in one iteration of a call.
pub ghost enum Scope {
    Parent,
    Iteration { call: CallModel, iteration: u16 },
}

/// What a name becomes as a successor.
pub open spec fn targets(
    parent: GraphModel,
    sites: Seq<CallModel>,
    scope: Scope,
    name: Seq<char>,
) -> Seq<Seq<char>> {
    match scope {
        Scope::Parent => parent_targets(parent, sites, name),
        Scope::Iteration { call, iteration } => child_targets(parent, sites, call, iteration, name),
    }
}

/// What names become as successors.
pub open spec fn targets_of(
    parent: GraphModel,
    sites: Seq<CallModel>,
    scope: Scope,
    names: Seq<Seq<char>>,
) -> Seq<Seq<char>>
    decreases names.len(),
{
    if names.len() == 0 {
        Seq::empty()
    } else {
        targets_of(parent, sites, scope, names.drop_last()) + targets(
            parent,
            sites,
            scope,
            names.last(),
        )
    }
}

/// The ready set of names, where it is not too large.
pub open spec fn ready_set(names: Seq<Seq<char>>) -> Option<Seq<Seq<char>>> {
    if distinct_sorted(names).len() > 1024 {
        None
    } else {
        Some(distinct_sorted(names))
    }
}

/// What a ready set becomes, where it does not become too large.
pub open spec fn remapped_set(
    parent: GraphModel,
    sites: Seq<CallModel>,
    scope: Scope,
    names: Seq<Seq<char>>,
) -> Option<Seq<Seq<char>>> {
    ready_set(targets_of(parent, sites, scope, names))
}

/// What a route identity becomes.
pub open spec fn renamed(routes: Option<Seq<RenameModel>>, route_id: Seq<char>) -> Seq<char> {
    match routes {
        None => route_id,
        Some(routes) => match find::<RouteRename>(routes, route_id) {
            Some(rename) => rename.generated,
            None => route_id,
        },
    }
}

/// What the first `n` routes become.
pub open spec fn remapped_routes(
    parent: GraphModel,
    sites: Seq<CallModel>,
    scope: Scope,
    renames: Option<Seq<RenameModel>>,
    routes: Seq<RouteModel>,
    n: nat,
) -> Option<Seq<RouteModel>>
    decreases n,
{
    if n == 0 || n > routes.len() {
        Some(Seq::empty())
    } else {
        match (
            remapped_routes(parent, sites, scope, renames, routes, (n - 1) as nat),
            remapped_set(parent, sites, scope, routes[n - 1].successors),
        ) {
            (Some(done), Some(successors)) => if successors.len() == 0 {
                None
            } else {
                Some(
                    done.push(
                        RouteModel { route_id: renamed(renames, routes[n - 1].route_id), successors },
                    ),
                )
            },
            _ => None,
        }
    }
}

/// What an optional ready set becomes: nothing, or a set that may fail.
pub open spec fn remapped_option(
    parent: GraphModel,
    sites: Seq<CallModel>,
    scope: Scope,
    names: Option<Seq<Seq<char>>>,
) -> Option<Option<Seq<Seq<char>>>> {
    match names {
        None => Some(None),
        Some(names) => match remapped_set(parent, sites, scope, names) {
            Some(set) => Some(Some(set)),
            None => None,
        },
    }
}

/// What a node becomes under a new identity, where it stays a node.
pub open spec fn remapped(
    parent: GraphModel,
    sites: Seq<CallModel>,
    scope: Scope,
    renames: Option<Seq<RenameModel>>,
    node: NodeModel,
    node_id: Seq<char>,
) -> Option<NodeModel> {
    match (
        remapped_routes(parent, sites, scope, renames, node.routes, node.routes.len()),
        remapped_option(parent, sites, scope, node.continue_to),
        remapped_option(parent, sites, scope, node.wait_to),
    ) {
        (Some(routes), Some(continue_to), Some(wait_to)) => match collection::<GraphRoute>(
            routes,
            256,
        ) {
            Collected::All(routes) => {
                let made = NodeModel {
                    node_id,
                    continue_to,
                    routes,
                    wait_to,
                    terminal: node.terminal,
                };
                if node_check(made) is Ok {
                    Some(made)
                } else {
                    None
                }
            },
            _ => None,
        },
        _ => None,
    }
}

// ---------------------------------------------------------------------------
// Expansion
// ---------------------------------------------------------------------------

/// One node of the expansion: a node of the parent that stays, or a copy.
#[derive(Clone, Copy, Debug, PartialEq, Eq, Structural)]
pub enum Job {
    /// The node at this place of the parent stays.
    Keep { place: usize },
    /// The copy.
    Copy { slot: Slot },
}

/// The copies of one call among all copies.
pub open spec fn jobs_of_site(slots: Seq<Slot>, site: int) -> Seq<Job>
    decreases slots.len(),
{
    if slots.len() == 0 {
        Seq::empty()
    } else if slots.last().site == site {
        jobs_of_site(slots.drop_last(), site).push(Job::Copy { slot: slots.last() })
    } else {
        jobs_of_site(slots.drop_last(), site)
    }
}

/// The place of the call with the site, counted from the last.
pub open spec fn site_place(sites: Seq<CallModel>, name: Seq<char>) -> int
    decreases sites.len(),
{
    if sites.len() == 0 {
        -1
    } else if sites.last().node_id == name {
        sites.len() - 1
    } else {
        site_place(sites.drop_last(), name)
    }
}

/// The nodes of the expansion: for each of the first `n` nodes of the parent
/// the node itself, or the copies that replace it.
pub open spec fn jobs(
    parent: GraphModel,
    sites: Seq<CallModel>,
    slots: Seq<Slot>,
    n: nat,
) -> Seq<Job>
    decreases n,
{
    if n == 0 || n > parent.nodes.len() {
        Seq::empty()
    } else {
        let site = site_place(sites, parent.nodes[n - 1].node_id);
        jobs(parent, sites, slots, (n - 1) as nat) + if site >= 0 {
            jobs_of_site(slots, site)
        } else {
            seq![Job::Keep { place: (n - 1) as usize }]
        }
    }
}

/// What a node of the expansion becomes.
pub open spec fn remapped_job(parent: GraphModel, sites: Seq<CallModel>, job: Job) -> Option<
    NodeModel,
> {
    match job {
        Job::Keep { place } => {
            let node = parent.nodes[place as int];
            remapped(parent, sites, Scope::Parent, None, node, node.node_id)
        },
        Job::Copy { slot } => {
            let call = sites[slot.site as int];
            let entry = lowered_slot(parent, sites, slot)->Some_0;
            remapped(
                parent,
                sites,
                Scope::Iteration { call, iteration: slot.iteration },
                Some(entry.source.routes),
                call.subgraph.graph.nodes[slot.ordinal as int],
                entry.generated,
            )
        },
    }
}

/// What the nodes of the expansion become, where all stay nodes.
pub open spec fn remapped_jobs(parent: GraphModel, sites: Seq<CallModel>, jobs: Seq<Job>) -> Option<
    Seq<NodeModel>,
>
    decreases jobs.len(),
{
    if jobs.len() == 0 {
        Some(Seq::empty())
    } else {
        match (
            remapped_jobs(parent, sites, jobs.drop_last()),
            remapped_job(parent, sites, jobs.last()),
        ) {
            (Some(done), Some(node)) => Some(done.push(node)),
            _ => None,
        }
    }
}

/// The values of [`GraphComposition`](crate::graph_composition::GraphComposition).
pub ghost struct CompositionModel {
    pub graph: GraphModel,
    pub sources: Seq<EntryModel>,
}

/// What expanding calls in the order of their sites comes to.
pub open spec fn expanded(parent: GraphModel, sites: Seq<CallModel>) -> Result<
    CompositionModel,
    CompositionFailure,
> {
    let slots = all_slots(sites, sites.len());
    match lowered_slots(parent, sites, slots) {
        Err(e) => Err(e),
        Ok(entries) => match (
            remapped_jobs(parent, sites, jobs(parent, sites, slots, parent.nodes.len())),
            remapped_set(parent, sites, Scope::Parent, parent.entry_nodes),
        ) {
            (Some(nodes), Some(entry_nodes)) => match compiled(
                GraphModel { entry_nodes, nodes, definition_digest: Seq::empty(), ..parent },
                None,
            ) {
                Err(e) => Err(CompositionFailure::Graph(e)),
                Ok(graph) => Ok(
                    CompositionModel { graph, sources: arranged::<SourceEntry>(entries) },
                ),
            },
            _ => Err(CompositionFailure::ExpansionTooLarge),
        },
    }
}

/// What composing a graph comes to.
pub open spec fn composed(parent: GraphModel, calls: Seq<CallModel>) -> Result<
    CompositionModel,
    CompositionFailure,
> {
    match calls_failure(parent, calls, 0) {
        Some(e) => Err(e),
        None => if calls.len() == 0 {
            Ok(CompositionModel { graph: parent, sources: Seq::empty() })
        } else if parent.child_runs is Some {
            Err(CompositionFailure::ChildDelegationUnsupported)
        } else {
            expanded(parent, arranged::<GraphSubgraphCall>(calls))
        },
    }
}

} // verus!
