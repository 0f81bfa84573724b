//! What makes nodes a graph: known successors, reachability and boundaries.

use vstd::prelude::*;

use crate::child_run_error::ChildRunPolicyError;
use crate::graph_node::{
    node_sound, ExecutionModel, GraphExecutionLimits, GraphNode, GraphRoute, NodeModel, RouteModel,
};
use crate::names::{NodeId, RouteId};
use crate::options::option_view;
use crate::ordered::{
    arranged, arranged_is_sorted, ascending, ascending_distinct, find, find_is_exact, holds,
    insert_new, keys, locate, lookup, placed, splits_excludes, views, Keyed,
};
use crate::ready::ReadyNodes;
use crate::walks::{
    closed_adjacency, is_walk, linked, mark_reached, mark_reaching, reached, reaches,
};

verus! {

// ---------------------------------------------------------------------------
// Errors
// ---------------------------------------------------------------------------

/// Rejected graph.
#[derive(Debug, PartialEq, Eq)]
#[allow(inconsistent_fields)]
pub enum GraphCompileError {
    /// There is no node.
    EmptyNodes,
    /// There are more nodes than the maximum.
    TooManyNodes { maximum: usize, actual: usize },
    /// This node occurs twice.
    DuplicateNode { node_id: NodeId },
    /// There is no entry node.
    EmptyEntryNodes,
    /// This entry node does not exist.
    MissingEntryNode { node_id: NodeId },
    /// A node names a successor that does not exist.
    MissingSuccessorNode { from_node: NodeId, target: NodeId },
    /// Two nodes declare one route.
    DuplicateRoute { route_id: RouteId, first_node: NodeId, second_node: NodeId },
    /// There are more routes than the maximum. Nodes within their own maximum
    /// never add up to so many.
    TooManyRoutes { maximum: usize, actual: usize },
    /// A ready set exceeds the parallelism of the graph.
    ParallelismExceeded { node_id: Option<NodeId>, maximum: usize, actual: usize },
    /// No entry node leads to this node.
    UnreachableNode { node_id: NodeId },
    /// This node leads to no wait or terminal boundary.
    NoBoundaryPath { node_id: NodeId },
    /// The definition has too many bytes.
    DefinitionTooLarge { maximum: usize, actual: usize },
    /// The definition has no canonical form.
    CanonicalSerialization,
    /// The definition does not have the given digest.
    DigestMismatch,
    /// The delegation policy does not fit the graph.
    ChildPolicy(ChildRunPolicyError),
}

/// The values of [`GraphCompileError`].
#[allow(inconsistent_fields)]
pub ghost enum CompileFailure {
    EmptyNodes,
    TooManyNodes { maximum: usize, actual: usize },
    DuplicateNode { node_id: Seq<char> },
    EmptyEntryNodes,
    MissingEntryNode { node_id: Seq<char> },
    MissingSuccessorNode { from_node: Seq<char>, target: Seq<char> },
    DuplicateRoute { route_id: Seq<char>, first_node: Seq<char>, second_node: Seq<char> },
    TooManyRoutes { maximum: usize, actual: usize },
    ParallelismExceeded { node_id: Option<Seq<char>>, maximum: usize, actual: usize },
    UnreachableNode { node_id: Seq<char> },
    NoBoundaryPath { node_id: Seq<char> },
    DefinitionTooLarge { maximum: usize, actual: usize },
    CanonicalSerialization,
    DigestMismatch,
    ChildPolicy(ChildRunPolicyError),
}

impl View for GraphCompileError {
    type V = CompileFailure;

    open spec fn view(&self) -> CompileFailure {
        match self {
            GraphCompileError::EmptyNodes => CompileFailure::EmptyNodes,
            GraphCompileError::TooManyNodes { maximum, actual } => CompileFailure::TooManyNodes {
                maximum: *maximum,
                actual: *actual,
            },
            GraphCompileError::DuplicateNode { node_id } => CompileFailure::DuplicateNode {
                node_id: node_id@,
            },
            GraphCompileError::EmptyEntryNodes => CompileFailure::EmptyEntryNodes,
            GraphCompileError::MissingEntryNode { node_id } => CompileFailure::MissingEntryNode {
                node_id: node_id@,
            },
            GraphCompileError::MissingSuccessorNode {
                from_node,
                target,
            } => CompileFailure::MissingSuccessorNode { from_node: from_node@, target: target@ },
            GraphCompileError::DuplicateRoute {
                route_id,
                first_node,
                second_node,
            } => CompileFailure::DuplicateRoute {
                route_id: route_id@,
                first_node: first_node@,
                second_node: second_node@,
            },
            GraphCompileError::TooManyRoutes { maximum, actual } => CompileFailure::TooManyRoutes {
                maximum: *maximum,
                actual: *actual,
            },
            GraphCompileError::ParallelismExceeded {
                node_id,
                maximum,
                actual,
            } => CompileFailure::ParallelismExceeded {
                node_id: option_view(*node_id),
                maximum: *maximum,
                actual: *actual,
            },
            GraphCompileError::UnreachableNode { node_id } => CompileFailure::UnreachableNode {
                node_id: node_id@,
            },
            GraphCompileError::NoBoundaryPath { node_id } => CompileFailure::NoBoundaryPath {
                node_id: node_id@,
            },
            GraphCompileError::DefinitionTooLarge {
                maximum,
                actual,
            } => CompileFailure::DefinitionTooLarge { maximum: *maximum, actual: *actual },
            GraphCompileError::CanonicalSerialization => CompileFailure::CanonicalSerialization,
            GraphCompileError::DigestMismatch => CompileFailure::DigestMismatch,
            GraphCompileError::ChildPolicy(e) => CompileFailure::ChildPolicy(*e),
        }
    }
}

/// The first failure that a check finds in a sequence.
pub open spec fn first_failure<A, E>(
    items: Seq<A>,
    check: spec_fn(A) -> Option<E>,
    from: int,
) -> Option<E>
    decreases items.len() - from,
{
    if from < 0 || from >= items.len() {
        None
    } else {
        match check(items[from]) {
            Some(e) => Some(e),
            None => first_failure(items, check, from + 1),
        }
    }
}

/// Where there is no first failure, no item fails.
pub proof fn no_first_failure<A, E>(items: Seq<A>, check: spec_fn(A) -> Option<E>, from: int)
    requires
        0 <= from,
        first_failure(items, check, from) is None,
    ensures
        forall|i: int| from <= i < items.len() ==> check(#[trigger] items[i]) is None,
    decreases items.len() - from,
{
    if from < items.len() {
        no_first_failure(items, check, from + 1);
    }
}

// ---------------------------------------------------------------------------
// Successors
// ---------------------------------------------------------------------------

/// No set, or the one there is.
pub open spec fn one_set(names: Option<Seq<Seq<char>>>) -> Seq<Seq<Seq<char>>> {
    match names {
        Some(names) => seq![names],
        None => Seq::empty(),
    }
}

/// The ready sets that a node may select: on continuing, for each route, and
/// after a wait.
pub open spec fn successor_sets(node: NodeModel) -> Seq<Seq<Seq<char>>> {
    one_set(node.continue_to) + Seq::new(node.routes.len(), |i: int| node.routes[i].successors)
        + one_set(node.wait_to)
}

/// The sets, one after the other.
pub open spec fn joined(sets: Seq<Seq<Seq<char>>>) -> Seq<Seq<char>>
    decreases sets.len(),
{
    if sets.len() == 0 {
        Seq::empty()
    } else {
        joined(sets.drop_last()) + sets.last()
    }
}

/// The nodes that a node may make ready, set after set.
pub open spec fn successors(node: NodeModel) -> Seq<Seq<char>> {
    joined(successor_sets(node))
}

/// The names of nodes.
pub open spec fn node_names(nodes: Seq<NodeModel>) -> Seq<Seq<char>> {
    keys::<GraphNode>(nodes)
}

/// The joined sets hold what the sets hold.
pub proof fn joined_holds(sets: Seq<Seq<Seq<char>>>, name: Seq<char>)
    ensures
        joined(sets).contains(name) <==> exists|i: int|
            0 <= i < sets.len() && (#[trigger] sets[i]).contains(name),
    decreases sets.len(),
{
    if sets.len() > 0 {
        let front = sets.drop_last();
        joined_holds(front, name);
        let all = joined(sets);
        let head = joined(front);
        if all.contains(name) {
            let k = choose|k: int| 0 <= k < all.len() && all[k] == name;
            if k < head.len() {
                assert(head[k] == name);
                let i = choose|i: int| 0 <= i < front.len() && (#[trigger] front[i]).contains(name);
                assert(sets[i].contains(name));
            } else {
                assert(sets.last()[k - head.len()] == name);
                assert(sets[sets.len() - 1].contains(name));
            }
        }
        if exists|i: int| 0 <= i < sets.len() && (#[trigger] sets[i]).contains(name) {
            let i = choose|i: int| 0 <= i < sets.len() && (#[trigger] sets[i]).contains(name);
            if i < front.len() {
                assert(front[i].contains(name));
                let k = choose|k: int| 0 <= k < head.len() && head[k] == name;
                assert(all[k] == name);
            } else {
                let k = choose|k: int| 0 <= k < sets.last().len() && sets.last()[k] == name;
                assert(all[head.len() + k] == name);
            }
        }
    }
}

/// Lists the ready sets that a node may select.
pub fn list_successor_sets(node: &GraphNode) -> (r: Vec<&ReadyNodes>)
    ensures
        r@.len() == successor_sets(node@).len(),
        forall|i: int| 0 <= i < r@.len() ==> (#[trigger] r@[i])@ == successor_sets(node@)[i],
{
    let mut sets: Vec<&ReadyNodes> = Vec::new();
    if let Some(nodes) = node.continue_to() {
        sets.push(nodes);
    }
    let ghost head = one_set(node@.continue_to);
    assert(sets@.len() == head.len());
    let routes = node.routes().iter();
    let mut i: usize = 0;
    while i < routes.len()
        invariant
            i <= routes@.len(),
            views(routes@) == node@.routes,
            routes@.len() == node@.routes.len(),
            head == one_set(node@.continue_to),
            sets@.len() == head.len() + i,
            forall|k: int| 0 <= k < sets@.len() ==> (#[trigger] sets@[k])@ == successor_sets(node@)[k],
        decreases routes@.len() - i,
    {
        assert(node@.routes[i as int] == routes@[i as int]@);
        sets.push(routes[i].successors());
        i = i + 1;
    }
    if let Some(nodes) = node.wait_to() {
        sets.push(nodes);
    }
    sets
}

/// One node may make another ready.
pub open spec fn leads(nodes: Seq<NodeModel>, i: int, j: int) -> bool {
    &&& 0 <= i < nodes.len()
    &&& 0 <= j < nodes.len()
    &&& successors(nodes[i]).contains(nodes[j].node_id)
}

/// Places of nodes, each of which may make the next ready.
pub open spec fn is_path(nodes: Seq<NodeModel>, p: Seq<int>) -> bool {
    &&& p.len() > 0
    &&& forall|k: int| 0 <= k < p.len() ==> 0 <= #[trigger] p[k] < nodes.len()
    &&& forall|k: int| 0 < k < p.len() ==> leads(nodes, p[k - 1], #[trigger] p[k])
}

/// A path leads from an entry node to the node.
pub open spec fn is_reachable(nodes: Seq<NodeModel>, entries: Seq<Seq<char>>, j: int) -> bool {
    exists|p: Seq<int>| #[trigger]
        is_path(nodes, p) && entries.contains(nodes[p[0]].node_id) && p.last() == j
}

/// The run can stop at the node.
pub open spec fn is_boundary(node: NodeModel) -> bool {
    node.terminal || node.wait_to is Some
}

/// A path leads from the node to a boundary.
pub open spec fn can_finish(nodes: Seq<NodeModel>, i: int) -> bool {
    exists|p: Seq<int>| #[trigger]
        is_path(nodes, p) && p[0] == i && is_boundary(nodes[p.last()])
}

// ---------------------------------------------------------------------------
// Adjacency
// ---------------------------------------------------------------------------

/// The places are those of the names.
spec fn places_of(nodes: Seq<NodeModel>, row: Seq<usize>, names: Seq<Seq<char>>) -> bool {
    &&& row.len() == names.len()
    &&& forall|k: int|
        0 <= k < row.len() ==> #[trigger] row[k] < nodes.len() && nodes[row[k] as int].node_id
            == names[k]
}

/// The adjacency lists are those of the nodes.
pub closed spec fn adjacency_of(nodes: Seq<NodeModel>, adj: Seq<Vec<usize>>) -> bool {
    &&& adj.len() == nodes.len()
    &&& forall|i: int|
        0 <= i < adj.len() ==> places_of(nodes, (#[trigger] adj[i])@, successors(nodes[i]))
}

/// Every node that a node may make ready exists.
pub open spec fn successors_known(nodes: Seq<NodeModel>) -> bool {
    forall|i: int, name: Seq<char>|
        0 <= i < nodes.len() && #[trigger] successors(nodes[i]).contains(name) ==> node_names(
            nodes,
        ).contains(name)
}

/// Adjacency lists are closed, and their walks are the paths of the nodes.
pub proof fn adjacency_is_faithful(nodes: Seq<NodeModel>, adj: Seq<Vec<usize>>)
    requires
        adjacency_of(nodes, adj),
        ascending(node_names(nodes)),
    ensures
        adj.len() == nodes.len(),
        closed_adjacency(adj),
        forall|p: Seq<int>|
            #![trigger is_walk(adj, p)]
            #![trigger is_path(nodes, p)]
            is_walk(adj, p) <==> is_path(nodes, p),
{
    assert forall|i: int, k: int| 0 <= i < adj.len() && 0 <= k < adj[i]@.len() implies (
    #[trigger] adj[i]@[k]) < adj.len() by {
        assert(places_of(nodes, adj[i]@, successors(nodes[i])));
    }
    let names = node_names(nodes);
    ascending_distinct(names);
    assert forall|i: int, j: int|
        0 <= i < nodes.len() && 0 <= j < nodes.len() implies (#[trigger] linked(adj, i, j)
        <==> leads(nodes, i, j)) by {
        let row = adj[i]@;
        let flat = successors(nodes[i]);
        assert(places_of(nodes, row, flat));
        if linked(adj, i, j) {
            let k = choose|k: int| 0 <= k < adj[i]@.len() && #[trigger] adj[i]@[k] == j;
            assert(flat[k] == nodes[j].node_id);
        }
        if leads(nodes, i, j) {
            let k = choose|k: int| 0 <= k < flat.len() && flat[k] == nodes[j].node_id;
            let m = row[k] as int;
            assert(names[m] == names[j]);
            assert(adj[i]@[k] == j);
        }
    }
    assert forall|p: Seq<int>|
        #![trigger is_walk(adj, p)]
        #![trigger is_path(nodes, p)]
        is_walk(adj, p) <==> is_path(nodes, p) by {
        if is_walk(adj, p) {
            assert forall|k: int| 0 < k < p.len() implies leads(
                nodes,
                p[k - 1],
                #[trigger] p[k],
            ) by {
                assert(linked(adj, p[k - 1], p[k]));
            }
        }
        if is_path(nodes, p) {
            assert forall|k: int| 0 < k < p.len() implies linked(
                adj,
                p[k - 1],
                #[trigger] p[k],
            ) by {
                assert(leads(nodes, p[k - 1], p[k]));
            }
        }
    }
}

/// Finds the places of the nodes in a ready set.
fn append_places(nodes: &[GraphNode], set: &ReadyNodes, row: &mut Vec<usize>)
    requires
        ascending(node_names(views(nodes@))),
        forall|k: int|
            0 <= k < set@.len() ==> node_names(views(nodes@)).contains(#[trigger] set@[k]),
    ensures
        forall|names: Seq<Seq<char>>|
            places_of(views(nodes@), old(row)@, names) ==> #[trigger] places_of(
                views(nodes@),
                final(row)@,
                names + set@,
            ),
{
    let ghost models = views(nodes@);
    let ghost before = row@;
    let members = set.as_slice();
    let mut i: usize = 0;
    while i < members.len()
        invariant
            models == views(nodes@),
            ascending(node_names(models)),
            i <= members@.len(),
            views(members@) == set@,
            members@.len() == set@.len(),
            forall|k: int| 0 <= k < set@.len() ==> node_names(models).contains(#[trigger] set@[k]),
            row@.len() == before.len() + i,
            forall|k: int| 0 <= k < before.len() ==> #[trigger] row@[k] == before[k],
            forall|k: int|
                before.len() <= k < row@.len() ==> #[trigger] row@[k] < models.len()
                    && models[row@[k] as int].node_id == set@[k - before.len()],
        decreases members@.len() - i,
    {
        assert(set@[i as int] == members@[i as int]@);
        assert(node_names(models).contains(set@[i as int]));
        match locate(nodes, members[i].as_str()) {
            Ok(at) => {
                row.push(at);
            },
            Err(at) => {
                proof {
                    splits_excludes(node_names(models), set@[i as int], at as int);
                }
                row.push(at);
            },
        }
        i = i + 1;
    }
}

/// Builds the adjacency lists of nodes.
pub(crate) fn build_adjacency(nodes: &[GraphNode]) -> (r: Vec<Vec<usize>>)
    requires
        ascending(node_names(views(nodes@))),
        successors_known(views(nodes@)),
    ensures
        adjacency_of(views(nodes@), r@),
{
    let ghost models = views(nodes@);
    let mut adj: Vec<Vec<usize>> = Vec::new();
    let mut i: usize = 0;
    while i < nodes.len()
        invariant
            i <= nodes@.len(),
            models == views(nodes@),
            ascending(node_names(models)),
            successors_known(models),
            adj@.len() == i,
            forall|k: int|
                0 <= k < i ==> places_of(models, (#[trigger] adj@[k])@, successors(models[k])),
        decreases nodes@.len() - i,
    {
        let sets = list_successor_sets(&nodes[i]);
        let ghost all = successor_sets(models[i as int]);
        let mut row: Vec<usize> = Vec::new();
        let mut s: usize = 0;
        assert(all.take(0) =~= Seq::<Seq<Seq<char>>>::empty());
        while s < sets.len()
            invariant
                i < nodes@.len(),
                models == views(nodes@),
                ascending(node_names(models)),
                successors_known(models),
                all == successor_sets(models[i as int]),
                s <= sets@.len() == all.len(),
                forall|k: int| 0 <= k < sets@.len() ==> (#[trigger] sets@[k])@ == all[k],
                places_of(models, row@, joined(all.take(s as int))),
            decreases sets@.len() - s,
        {
            proof {
                assert forall|k: int| 0 <= k < all[s as int].len() implies node_names(
                    models,
                ).contains(#[trigger] all[s as int][k]) by {
                    let name = all[s as int][k];
                    assert(all[s as int].contains(name));
                    joined_holds(all, name);
                    assert(successors(models[i as int]).contains(name));
                }
                assert(all.take(s + 1).drop_last() =~= all.take(s as int));
            }
            append_places(nodes, sets[s], &mut row);
            s = s + 1;
        }
        assert(all.take(s as int) =~= all);
        adj.push(row);
        i = i + 1;
    }
    adj
}

// ---------------------------------------------------------------------------
// Collecting nodes
// ---------------------------------------------------------------------------

/// The node among the first ones that declares the route.
pub open spec fn route_owner(nodes: Seq<NodeModel>, route_id: Seq<char>) -> Option<Seq<char>>
    decreases nodes.len(),
{
    if nodes.len() == 0 {
        None
    } else if keys::<GraphRoute>(nodes.last().routes).contains(route_id) {
        Some(nodes.last().node_id)
    } else {
        route_owner(nodes.drop_last(), route_id)
    }
}

/// No two nodes declare one route.
pub open spec fn routes_disjoint(nodes: Seq<NodeModel>) -> bool {
    forall|i: int, j: int, route: Seq<char>|
        #![trigger keys::<GraphRoute>(nodes[i].routes).contains(route), keys::<GraphRoute>(nodes[j].routes).contains(route)]
        0 <= i < nodes.len() && 0 <= j < nodes.len() && i != j && keys::<GraphRoute>(
            nodes[i].routes,
        ).contains(route) ==> !keys::<GraphRoute>(nodes[j].routes).contains(route)
}

/// What a route of one more node fails on.
pub open spec fn route_failure(done: Seq<NodeModel>, node_id: Seq<char>) -> spec_fn(RouteModel) -> Option<CompileFailure> {
    |route: RouteModel|
        match route_owner(done, route.route_id) {
            Some(owner) => Some(
                CompileFailure::DuplicateRoute {
                    route_id: route.route_id,
                    first_node: owner,
                    second_node: node_id,
                },
            ),
            None => None,
        }
}

/// What one more node fails on, after those that are done.
pub open spec fn node_failure(done: Seq<NodeModel>, node: NodeModel) -> Option<CompileFailure> {
    if done.len() >= 1024 {
        Some(CompileFailure::TooManyNodes { maximum: 1024, actual: 1025 })
    } else {
        match first_failure(node.routes, route_failure(done, node.node_id), 0) {
            Some(e) => Some(e),
            None => if node_names(done).contains(node.node_id) {
                Some(CompileFailure::DuplicateNode { node_id: node.node_id })
            } else {
                None
            },
        }
    }
}

/// The first failure among the nodes, in the order in which they come.
pub open spec fn nodes_failure(nodes: Seq<NodeModel>, from: int) -> Option<CompileFailure>
    decreases nodes.len() - from,
{
    if from < 0 || from >= nodes.len() {
        None
    } else {
        match node_failure(nodes.take(from), nodes[from]) {
            Some(e) => Some(e),
            None => nodes_failure(nodes, from + 1),
        }
    }
}

/// What collecting the nodes comes to: the nodes in the order of their names.
pub open spec fn collected_nodes(nodes: Seq<NodeModel>) -> Result<Seq<NodeModel>, CompileFailure> {
    match nodes_failure(nodes, 0) {
        Some(e) => Err(e),
        None => if nodes.len() == 0 {
            Err(CompileFailure::EmptyNodes)
        } else {
            Ok(arranged::<GraphNode>(nodes))
        },
    }
}

/// A route and the node that declares it.
struct RouteOwner {
    route_id: RouteId,
    node_id: NodeId,
}

ghost struct OwnerModel {
    pub route_id: Seq<char>,
    pub node_id: Seq<char>,
}

impl View for RouteOwner {
    type V = OwnerModel;

    closed spec fn view(&self) -> OwnerModel {
        OwnerModel { route_id: self.route_id@, node_id: self.node_id@ }
    }
}

impl Keyed for RouteOwner {
    closed spec fn key_of(model: OwnerModel) -> Seq<char> {
        model.route_id
    }

    closed spec fn sound(model: OwnerModel) -> bool {
        true
    }

    fn key_text(&self) -> (r: &str) {
        self.route_id.as_str()
    }
}

/// The owners are those of the routes that the nodes declare.
spec fn owners_of(owners: Seq<OwnerModel>, nodes: Seq<NodeModel>) -> bool {
    &&& ascending(keys::<RouteOwner>(owners))
    &&& forall|route_id: Seq<char>| #[trigger]
        route_owner(nodes, route_id) == owner_found(owners, route_id)
}

spec fn owner_found(owners: Seq<OwnerModel>, route_id: Seq<char>) -> Option<Seq<char>> {
    match find::<RouteOwner>(owners, route_id) {
        Some(owner) => Some(owner.node_id),
        None => None,
    }
}

/// The owners are those of the nodes and of the first routes of one more.
spec fn owners_within(
    owners: Seq<OwnerModel>,
    nodes: Seq<NodeModel>,
    node: NodeModel,
    n: int,
) -> bool {
    &&& ascending(keys::<RouteOwner>(owners))
    &&& forall|route_id: Seq<char>| #[trigger]
        owner_found(owners, route_id) == (if keys::<GraphRoute>(node.routes.take(n)).contains(
            route_id,
        ) {
            Some(node.node_id)
        } else {
            route_owner(nodes, route_id)
        })
}

proof fn find_after_placing<T: Keyed>(models: Seq<T::V>, model: T::V, key: Seq<char>)
    requires
        ascending(keys::<T>(models)),
        !keys::<T>(models).contains(T::key_of(model)),
    ensures
        find::<T>(placed::<T>(models, model), key) == (if key == T::key_of(model) {
            Some(model)
        } else {
            find::<T>(models, key)
        }),
{
    let more = placed::<T>(models, model);
    crate::ordered::placed_keeps_order::<T>(models, model);
    find_is_exact::<T>(more, key);
    find_is_exact::<T>(models, key);
    ascending_distinct(keys::<T>(more));
    assert(keys::<T>(more).contains(key) <==> key == T::key_of(model) || keys::<T>(
        models,
    ).contains(key));
    let wanted = if key == T::key_of(model) {
        Some(model)
    } else {
        find::<T>(models, key)
    };
    match wanted {
        Some(m) => {
            assert(more.contains(m) <==> m == model || models.contains(m));
            let k = choose|k: int| 0 <= k < more.len() && more[k] == m;
            crate::ordered::find_at::<T>(more, k);
        },
        None => {},
    }
}

/// Notes the routes of one more node and rejects one that is declared before.
/// The routes that come before that one stay noted.
fn note_routes(owners: &mut Vec<RouteOwner>, node: &GraphNode, done: Ghost<Seq<NodeModel>>) -> (r: Result<
    (),
    GraphCompileError,
>)
    requires
        owners_of(views(old(owners)@), done@),
    ensures
        match (r, first_failure(node@.routes, route_failure(done@, node@.node_id), 0)) {
            (Ok(()), None) => owners_of(views(final(owners)@), done@.push(node@)),
            (Err(e), Some(expected)) => {
                &&& e@ == expected
                &&& exists|n: int|
                    0 <= n < node@.routes.len() && #[trigger] owners_within(
                        views(final(owners)@),
                        done@,
                        node@,
                        n,
                    )
            },
            _ => false,
        },
{
    let ghost nodes = done@;
    let ghost model = node@;
    let ghost check = route_failure(nodes, model.node_id);
    let node_id = node.node_id();
    let routes = node.routes().iter();
    let ghost names = keys::<GraphRoute>(model.routes);
    proof {
        ascending_distinct(names);
        assert(keys::<GraphRoute>(model.routes.take(0)) =~= Seq::<Seq<char>>::empty());
    }
    let mut i: usize = 0;
    while i < routes.len()
        invariant
            model == node@,
            nodes == done@,
            node_id@ == model.node_id,
            views(routes@) == model.routes,
            routes@.len() == model.routes.len(),
            names == keys::<GraphRoute>(model.routes),
            names.no_duplicates(),
            check == route_failure(nodes, model.node_id),
            i <= routes@.len(),
            first_failure(model.routes, check, 0) == first_failure(model.routes, check, i as int),
            owners_within(views(owners@), nodes, model, i as int),
        decreases routes@.len() - i,
    {
        let route = &routes[i];
        let ghost route_id = model.routes[i as int].route_id;
        assert(model.routes[i as int] == route@);
        assert(names[i as int] == route_id);
        let ghost front = keys::<GraphRoute>(model.routes.take(i as int));
        proof {
            if front.contains(route_id) {
                let k = choose|k: int| 0 <= k < front.len() && front[k] == route_id;
                assert(names[k] == names[i as int]);
            }
            assert(owner_found(views(owners@), route_id) == route_owner(nodes, route_id));
        }
        match lookup(owners.as_slice(), route.route_id().as_str()) {
            Some(owner) => {
                return Err(
                    GraphCompileError::DuplicateRoute {
                        route_id: route.route_id().clone(),
                        first_node: owner.node_id.clone(),
                        second_node: node_id.clone(),
                    },
                );
            },
            None => {},
        }
        let ghost before = views(owners@);
        proof {
            find_is_exact::<RouteOwner>(before, route_id);
        }
        let owner = RouteOwner { route_id: route.route_id().clone(), node_id: node_id.clone() };
        let ghost added = owner@;
        insert_new(owners, owner);
        proof {
            let after = views(owners@);
            let next = keys::<GraphRoute>(model.routes.take(i + 1));
            assert(next =~= front.push(route_id));
            assert forall|name: Seq<char>| #[trigger] owner_found(after, name) == (if next.contains(
                name,
            ) {
                Some(model.node_id)
            } else {
                route_owner(nodes, name)
            }) by {
                find_after_placing::<RouteOwner>(before, added, name);
                assert(owner_found(before, name) == (if front.contains(name) {
                    Some(model.node_id)
                } else {
                    route_owner(nodes, name)
                }));
                assert(next.contains(name) <==> name == route_id || front.contains(name)) by {
                    if next.contains(name) {
                        let k = choose|k: int| 0 <= k < next.len() && next[k] == name;
                        if k < front.len() {
                            assert(front[k] == name);
                        }
                    }
                    if front.contains(name) {
                        let k = choose|k: int| 0 <= k < front.len() && front[k] == name;
                        assert(next[k] == name);
                    }
                    assert(next[front.len() as int] == route_id);
                }
            }
        }
        i = i + 1;
    }
    proof {
        let more = nodes.push(model);
        assert(more.drop_last() =~= nodes);
        assert(model.routes.take(i as int) =~= model.routes);
        assert forall|name: Seq<char>| #[trigger] route_owner(more, name) == owner_found(
            views(owners@),
            name,
        ) by {
            assert(more.last() == model);
        }
    }
    Ok(())
}

proof fn collected_names_distinct(nodes: Seq<NodeModel>, n: int)
    requires
        0 <= n <= nodes.len(),
        nodes_failure(nodes, n) is None,
        node_names(nodes.take(n)).no_duplicates(),
    ensures
        node_names(nodes).no_duplicates(),
        nodes.len() > n ==> nodes.len() <= 1024,
    decreases nodes.len() - n,
{
    if n < nodes.len() {
        let (x, y) = (node_names(nodes.take(n)), node_names(nodes.take(n + 1)));
        assert(node_failure(nodes.take(n), nodes[n]) is None);
        assert(y =~= x.push(nodes[n].node_id));
        assert(y.no_duplicates());
        collected_names_distinct(nodes, n + 1);
    } else {
        assert(nodes.take(n) =~= nodes);
    }
}

/// Nodes that are collected have distinct names and are not too many.
pub proof fn collected_nodes_sorted(nodes: Seq<NodeModel>)
    requires
        collected_nodes(nodes) is Ok,
    ensures
        node_names(nodes).no_duplicates(),
        0 < nodes.len() <= 1024,
        ascending(node_names(collected_nodes(nodes)->Ok_0)),
        collected_nodes(nodes)->Ok_0.len() == nodes.len(),
        forall|m: NodeModel| #[trigger]
            collected_nodes(nodes)->Ok_0.contains(m) <==> nodes.contains(m),
{
    assert(node_names(nodes.take(0)) =~= Seq::<Seq<char>>::empty());
    collected_names_distinct(nodes, 0);
    arranged_is_sorted::<GraphNode>(nodes);
}

/// Collects nodes in the order of their names.
pub(crate) fn collect_graph_nodes(nodes: Vec<GraphNode>) -> (r: Result<Vec<GraphNode>, GraphCompileError>)
    ensures
        match (r, collected_nodes(views(nodes@))) {
            (Ok(sorted), Ok(models)) => {
                &&& views(sorted@) == models
                &&& ascending(node_names(models))
                &&& 0 < models.len() <= 1024
                &&& forall|i: int| 0 <= i < models.len() ==> node_sound(#[trigger] models[i])
            },
            (Err(e), Err(expected)) => e@ == expected,
            _ => false,
        },
{
    let ghost all = nodes@;
    let ghost models = views(all);
    let mut owners: Vec<RouteOwner> = Vec::new();
    let mut sorted: Vec<GraphNode> = Vec::new();
    proof {
        assert(models.take(0) =~= Seq::<NodeModel>::empty());
        assert(views(sorted@) =~= arranged::<GraphNode>(models.take(0)));
        assert(keys::<GraphNode>(arranged::<GraphNode>(models.take(0))) =~= Seq::<Seq<char>>::empty());
        assert(keys::<RouteOwner>(views(owners@)) =~= Seq::<Seq<char>>::empty());
        assert(owners_of(views(owners@), models.take(0)));
    }
    for node in entries: nodes
        invariant
            entries.seq() == all,
            models == views(all),
            sorted@.len() == entries.index(),
            sorted@.len() <= 1024,
            nodes_failure(models, 0) == nodes_failure(models, sorted@.len() as int),
            node_names(models.take(sorted@.len() as int)).no_duplicates(),
            ascending(node_names(views(sorted@))),
            views(sorted@) == arranged::<GraphNode>(models.take(sorted@.len() as int)),
            owners_of(views(owners@), models.take(sorted@.len() as int)),
            forall|t: GraphNode| #[trigger] sorted@.contains(t) ==> node_sound(t@),
    {
        let ghost n = sorted@.len() as int;
        let ghost done = models.take(n);
        proof {
            assert(node == all[n]);
            assert(models[n] == node@);
            assert(models.take(n + 1).drop_last() =~= done);
            assert(models.take(n + 1) =~= done.push(models[n]));
            arranged_is_sorted::<GraphNode>(done);
        }
        if sorted.len() == 1024 {
            return Err(GraphCompileError::TooManyNodes { maximum: 1024, actual: 1025 });
        }
        note_routes(&mut owners, &node, Ghost(done))?;
        let node_id = node.node_id().clone();
        let ghost (x, y) = (node_names(done), node_names(models.take(n + 1)));
        proof {
            assert(node_names(views(sorted@)).contains(node_id@) <==> x.contains(node_id@));
        }
        if !insert_new(&mut sorted, node) {
            return Err(GraphCompileError::DuplicateNode { node_id });
        }
        proof {
            assert(y =~= x.push(node_id@));
        }
    }
    proof {
        assert(models.take(models.len() as int) =~= models);
        arranged_is_sorted::<GraphNode>(models);
        assert forall|i: int| 0 <= i < sorted@.len() implies node_sound(
            #[trigger] views(sorted@)[i],
        ) by {
            assert(sorted@.contains(sorted@[i]));
        }
    }
    if sorted.len() == 0 {
        return Err(GraphCompileError::EmptyNodes);
    }
    Ok(sorted)
}

// ---------------------------------------------------------------------------
// Shape
// ---------------------------------------------------------------------------

/// What a ready set of a node fails on: its size, or its first unknown node.
pub open spec fn set_failure(
    known: Seq<Seq<char>>,
    node_id: Seq<char>,
    parallelism: u16,
) -> spec_fn(Seq<Seq<char>>) -> Option<CompileFailure> {
    |set: Seq<Seq<char>>|
        if set.len() > parallelism {
            Some(
                CompileFailure::ParallelismExceeded {
                    node_id: Some(node_id),
                    maximum: parallelism as usize,
                    actual: set.len() as usize,
                },
            )
        } else {
            first_failure(set, successor_failure(known, node_id), 0)
        }
}

/// What a successor of a node fails on.
pub open spec fn successor_failure(known: Seq<Seq<char>>, node_id: Seq<char>) -> spec_fn(Seq<char>) -> Option<
    CompileFailure,
> {
    |name: Seq<char>|
        if known.contains(name) {
            None
        } else {
            Some(CompileFailure::MissingSuccessorNode { from_node: node_id, target: name })
        }
}

/// What a node fails on, in the order of its ready sets.
pub open spec fn successors_failure(known: Seq<Seq<char>>, parallelism: u16) -> spec_fn(NodeModel) -> Option<
    CompileFailure,
> {
    |node: NodeModel|
        first_failure(successor_sets(node), set_failure(known, node.node_id, parallelism), 0)
}

/// What an entry node fails on.
pub open spec fn entry_failure(known: Seq<Seq<char>>) -> spec_fn(Seq<char>) -> Option<CompileFailure> {
    |name: Seq<char>|
        if known.contains(name) {
            None
        } else {
            Some(CompileFailure::MissingEntryNode { node_id: name })
        }
}

/// What the node at a place fails on, if no entry node leads to it.
pub open spec fn reach_failure(nodes: Seq<NodeModel>, entries: Seq<Seq<char>>) -> spec_fn(int) -> Option<
    CompileFailure,
> {
    |i: int|
        if is_reachable(nodes, entries, i) {
            None
        } else {
            Some(CompileFailure::UnreachableNode { node_id: nodes[i].node_id })
        }
}

/// What the node at a place fails on, if it leads to no boundary.
pub open spec fn boundary_failure(nodes: Seq<NodeModel>) -> spec_fn(int) -> Option<CompileFailure> {
    |i: int|
        if can_finish(nodes, i) {
            None
        } else {
            Some(CompileFailure::NoBoundaryPath { node_id: nodes[i].node_id })
        }
}

/// The places of `n` nodes.
pub open spec fn places(n: nat) -> Seq<int> {
    Seq::new(n, |i: int| i)
}

/// What nodes in order fail on as a graph.
pub open spec fn shape_failure(
    nodes: Seq<NodeModel>,
    entries: Seq<Seq<char>>,
    limits: ExecutionModel,
) -> Option<CompileFailure> {
    let known = node_names(nodes);
    let missing_entry = first_failure(entries, entry_failure(known), 0);
    let successor = first_failure(nodes, successors_failure(known, limits.parallelism), 0);
    let unreachable = first_failure(places(nodes.len()), reach_failure(nodes, entries), 0);
    if entries.len() == 0 {
        Some(CompileFailure::EmptyEntryNodes)
    } else if entries.len() > limits.parallelism {
        Some(
            CompileFailure::ParallelismExceeded {
                node_id: None,
                maximum: limits.parallelism as usize,
                actual: entries.len() as usize,
            },
        )
    } else if missing_entry is Some {
        missing_entry
    } else if successor is Some {
        successor
    } else if unreachable is Some {
        unreachable
    } else {
        first_failure(places(nodes.len()), boundary_failure(nodes), 0)
    }
}

/// Where no node fails on its successors, all successors are known.
pub proof fn known_successors(nodes: Seq<NodeModel>, parallelism: u16)
    requires
        first_failure(nodes, successors_failure(node_names(nodes), parallelism), 0) is None,
    ensures
        successors_known(nodes),
        forall|i: int, s: int|
            0 <= i < nodes.len() && 0 <= s < successor_sets(nodes[i]).len() ==> (
            #[trigger] successor_sets(nodes[i])[s]).len() <= parallelism,
{
    let known = node_names(nodes);
    no_first_failure(nodes, successors_failure(known, parallelism), 0);
    assert forall|i: int, s: int|
        0 <= i < nodes.len() && 0 <= s < successor_sets(nodes[i]).len() implies (
    #[trigger] successor_sets(nodes[i])[s]).len() <= parallelism by {
        assert(successors_failure(known, parallelism)(nodes[i]) is None);
        no_first_failure(
            successor_sets(nodes[i]),
            set_failure(known, nodes[i].node_id, parallelism),
            0,
        );
        assert(set_failure(known, nodes[i].node_id, parallelism)(
            successor_sets(nodes[i])[s],
        ) is None);
    }
    assert forall|i: int, name: Seq<char>|
        0 <= i < nodes.len() && #[trigger] successors(nodes[i]).contains(name) implies known.contains(
        name,
    ) by {
        let sets = successor_sets(nodes[i]);
        let check = set_failure(known, nodes[i].node_id, parallelism);
        assert(successors_failure(known, parallelism)(nodes[i]) is None);
        no_first_failure(sets, check, 0);
        joined_holds(sets, name);
        let s = choose|s: int| 0 <= s < sets.len() && (#[trigger] sets[s]).contains(name);
        assert(check(sets[s]) is None);
        no_first_failure(sets[s], successor_failure(known, nodes[i].node_id), 0);
        let k = choose|k: int| 0 <= k < sets[s].len() && sets[s][k] == name;
        assert(successor_failure(known, nodes[i].node_id)(sets[s][k]) is None);
    }
}

/// Checks the ready sets of a node.
fn validate_node_successors(nodes: &[GraphNode], node: &GraphNode, parallelism: u16) -> (r: Result<
    (),
    GraphCompileError,
>)
    requires
        ascending(node_names(views(nodes@))),
    ensures
        match (r, successors_failure(node_names(views(nodes@)), parallelism)(node@)) {
            (Ok(()), None) => true,
            (Err(e), Some(expected)) => e@ == expected,
            _ => false,
        },
{
    let ghost known = node_names(views(nodes@));
    let ghost sets_model = successor_sets(node@);
    let ghost check = set_failure(known, node@.node_id, parallelism);
    let sets = list_successor_sets(node);
    let mut s: usize = 0;
    while s < sets.len()
        invariant
            known == node_names(views(nodes@)),
            ascending(known),
            sets_model == successor_sets(node@),
            check == set_failure(known, node@.node_id, parallelism),
            s <= sets@.len() == sets_model.len(),
            forall|k: int| 0 <= k < sets@.len() ==> (#[trigger] sets@[k])@ == sets_model[k],
            first_failure(sets_model, check, 0) == first_failure(sets_model, check, s as int),
        decreases sets@.len() - s,
    {
        let set = sets[s];
        let ghost names = sets_model[s as int];
        assert(set@ == names);
        if set.len() > parallelism as usize {
            return Err(
                GraphCompileError::ParallelismExceeded {
                    node_id: Some(node.node_id().clone()),
                    maximum: parallelism as usize,
                    actual: set.len(),
                },
            );
        }
        let members = set.as_slice();
        let ghost inner = successor_failure(known, node@.node_id);
        let mut k: usize = 0;
        while k < members.len()
            invariant
                known == node_names(views(nodes@)),
                ascending(known),
                names == set@,
                views(members@) == names,
                members@.len() == names.len(),
                s < sets@.len() == sets_model.len(),
                sets_model == successor_sets(node@),
                names == sets_model[s as int],
                names.len() <= parallelism,
                check == set_failure(known, node@.node_id, parallelism),
                first_failure(sets_model, check, 0) == first_failure(sets_model, check, s as int),
                inner == successor_failure(known, node@.node_id),
                k <= members@.len(),
                first_failure(names, inner, 0) == first_failure(names, inner, k as int),
            decreases members@.len() - k,
        {
            assert(names[k as int] == members@[k as int]@);
            if !holds(nodes, members[k].as_str()) {
                return Err(
                    GraphCompileError::MissingSuccessorNode {
                        from_node: node.node_id().clone(),
                        target: members[k].clone(),
                    },
                );
            }
            k = k + 1;
        }
        s = s + 1;
    }
    Ok(())
}

/// The paths of the nodes are those that the marks were made of.
proof fn reach_marks(
    nodes: Seq<NodeModel>,
    entries: Seq<Seq<char>>,
    adj: Seq<Vec<usize>>,
    starts: Seq<usize>,
    j: int,
)
    requires
        adjacency_of(nodes, adj),
        ascending(node_names(nodes)),
        places_of(nodes, starts, entries),
        nodes.len() <= usize::MAX,
        0 <= j < nodes.len(),
    ensures
        reached(adj, starts, j) == is_reachable(nodes, entries, j),
{
    adjacency_is_faithful(nodes, adj);
    let names = node_names(nodes);
    ascending_distinct(names);
    if reached(adj, starts, j) {
        let p = choose|p: Seq<int>| #[trigger]
            is_walk(adj, p) && starts.contains(p[0] as usize) && p.last() == j;
        assert(is_path(nodes, p));
        let k = choose|k: int| 0 <= k < starts.len() && starts[k] == p[0] as usize;
        assert(0 <= p[0] < nodes.len());
        assert(nodes[starts[k] as int].node_id == entries[k]);
        assert(entries.contains(nodes[p[0]].node_id));
    }
    if is_reachable(nodes, entries, j) {
        let p = choose|p: Seq<int>| #[trigger]
            is_path(nodes, p) && entries.contains(nodes[p[0]].node_id) && p.last() == j;
        assert(is_walk(adj, p));
        let k = choose|k: int| 0 <= k < entries.len() && entries[k] == nodes[p[0]].node_id;
        assert(0 <= p[0] < nodes.len());
        assert(names[starts[k] as int] == names[p[0]]);
        assert(starts[k] == p[0] as usize);
        assert(starts.contains(p[0] as usize));
    }
}

/// Checks that some entry node leads to every node.
fn validate_reachability(nodes: &[GraphNode], entries: &ReadyNodes, adj: &Vec<Vec<usize>>) -> (r: Result<
    (),
    GraphCompileError,
>)
    requires
        ascending(node_names(views(nodes@))),
        adjacency_of(views(nodes@), adj@),
        forall|k: int|
            0 <= k < entries@.len() ==> node_names(views(nodes@)).contains(#[trigger] entries@[k]),
    ensures
        match (
            r,
            first_failure(
                places(nodes@.len()),
                reach_failure(views(nodes@), entries@),
                0,
            ),
        ) {
            (Ok(()), None) => true,
            (Err(e), Some(expected)) => e@ == expected,
            _ => false,
        },
{
    let ghost models = views(nodes@);
    let ghost check = reach_failure(models, entries@);
    let ghost all = places(nodes@.len());
    let mut starts: Vec<usize> = Vec::new();
    proof {
        assert(places_of(models, starts@, Seq::<Seq<char>>::empty()));
    }
    append_places(nodes, entries, &mut starts);
    proof {
        assert(Seq::<Seq<char>>::empty() + entries@ =~= entries@);
        assert(places_of(models, starts@, Seq::<Seq<char>>::empty() + entries@));
        adjacency_is_faithful(models, adj@);
    }
    let marks = mark_reached(adj, &starts);
    let mut i: usize = 0;
    while i < nodes.len()
        invariant
            models == views(nodes@),
            ascending(node_names(models)),
            adjacency_of(models, adj@),
            adj@.len() == models.len(),
            places_of(models, starts@, entries@),
            check == reach_failure(models, entries@),
            all == places(nodes@.len()),
            marks@.len() == adj@.len(),
            forall|j: int| 0 <= j < adj@.len() ==> #[trigger] marks@[j] == reached(adj@, starts@, j),
            i <= nodes@.len(),
            first_failure(all, check, 0) == first_failure(all, check, i as int),
        decreases nodes@.len() - i,
    {
        proof {
            reach_marks(models, entries@, adj@, starts@, i as int);
            assert(all[i as int] == i as int);
        }
        if !marks[i] {
            return Err(GraphCompileError::UnreachableNode { node_id: nodes[i].node_id().clone() });
        }
        i = i + 1;
    }
    Ok(())
}

/// Checks that every node leads to a boundary.
fn validate_boundary_paths(nodes: &[GraphNode], adj: &Vec<Vec<usize>>) -> (r: Result<
    (),
    GraphCompileError,
>)
    requires
        ascending(node_names(views(nodes@))),
        adjacency_of(views(nodes@), adj@),
    ensures
        match (
            r,
            first_failure(places(nodes@.len()), boundary_failure(views(nodes@)), 0),
        ) {
            (Ok(()), None) => true,
            (Err(e), Some(expected)) => e@ == expected,
            _ => false,
        },
{
    let ghost models = views(nodes@);
    let ghost check = boundary_failure(models);
    let ghost all = places(nodes@.len());
    let mut goals: Vec<bool> = Vec::new();
    let mut g: usize = 0;
    while g < nodes.len()
        invariant
            models == views(nodes@),
            g <= nodes@.len(),
            goals@.len() == g,
            forall|k: int| 0 <= k < g ==> #[trigger] goals@[k] == is_boundary(models[k]),
        decreases nodes@.len() - g,
    {
        goals.push(nodes[g].allows_terminal() || nodes[g].wait_to().is_some());
        g = g + 1;
    }
    proof {
        adjacency_is_faithful(models, adj@);
    }
    let marks = mark_reaching(adj, &goals);
    let mut i: usize = 0;
    while i < nodes.len()
        invariant
            models == views(nodes@),
            ascending(node_names(models)),
            adjacency_of(models, adj@),
            adj@.len() == models.len() == goals@.len(),
            check == boundary_failure(models),
            all == places(nodes@.len()),
            marks@.len() == adj@.len(),
            forall|k: int| 0 <= k < goals@.len() ==> #[trigger] goals@[k] == is_boundary(models[k]),
            forall|j: int| 0 <= j < adj@.len() ==> #[trigger] marks@[j] == reaches(adj@, j, goals@),
            i <= nodes@.len(),
            first_failure(all, check, 0) == first_failure(all, check, i as int),
        decreases nodes@.len() - i,
    {
        proof {
            adjacency_is_faithful(models, adj@);
            assert(all[i as int] == i as int);
            let at = i as int;
            if reaches(adj@, at, goals@) {
                let p = choose|p: Seq<int>| #[trigger]
                    is_walk(adj@, p) && p[0] == at && goals@[p.last()];
                assert(is_path(models, p));
                assert(0 <= p[p.len() - 1] < models.len());
                assert(is_boundary(models[p.last()]));
                assert(can_finish(models, at));
            }
            if can_finish(models, at) {
                let p = choose|p: Seq<int>| #[trigger]
                    is_path(models, p) && p[0] == at && is_boundary(models[p.last()]);
                assert(is_walk(adj@, p));
                assert(0 <= p[p.len() - 1] < models.len());
                assert(goals@[p.last()]);
                assert(reaches(adj@, at, goals@));
            }
        }
        if !marks[i] {
            return Err(GraphCompileError::NoBoundaryPath { node_id: nodes[i].node_id().clone() });
        }
        i = i + 1;
    }
    Ok(())
}

/// Checks that nodes in order make up a graph.
pub(crate) fn validate_compiled_shape(
    nodes: &[GraphNode],
    entry_nodes: &ReadyNodes,
    limits: GraphExecutionLimits,
) -> (r: Result<(), GraphCompileError>)
    requires
        ascending(node_names(views(nodes@))),
    ensures
        match (r, shape_failure(views(nodes@), entry_nodes@, limits@)) {
            (Ok(()), None) => true,
            (Err(e), Some(expected)) => e@ == expected,
            _ => false,
        },
{
    let ghost models = views(nodes@);
    let ghost known = node_names(models);
    let parallelism: u16 = limits.maximum_parallelism();
    if entry_nodes.is_empty() {
        return Err(GraphCompileError::EmptyEntryNodes);
    }
    if entry_nodes.len() > parallelism as usize {
        return Err(
            GraphCompileError::ParallelismExceeded {
                node_id: None,
                maximum: parallelism as usize,
                actual: entry_nodes.len(),
            },
        );
    }
    let entries = entry_nodes.as_slice();
    let ghost entry_check = entry_failure(known);
    let mut k: usize = 0;
    while k < entries.len()
        invariant
            known == node_names(views(nodes@)),
            ascending(known),
            models == views(nodes@),
            parallelism == limits@.parallelism,
            0 < entry_nodes@.len() <= parallelism,
            entry_check == entry_failure(known),
            views(entries@) == entry_nodes@,
            entries@.len() == entry_nodes@.len(),
            k <= entries@.len(),
            first_failure(entry_nodes@, entry_check, 0) == first_failure(
                entry_nodes@,
                entry_check,
                k as int,
            ),
        decreases entries@.len() - k,
    {
        assert(entry_nodes@[k as int] == entries@[k as int]@);
        if !holds(nodes, entries[k].as_str()) {
            return Err(GraphCompileError::MissingEntryNode { node_id: entries[k].clone() });
        }
        k = k + 1;
    }
    proof {
        no_first_failure(entry_nodes@, entry_check, 0);
        assert forall|k: int| 0 <= k < entry_nodes@.len() implies known.contains(
            #[trigger] entry_nodes@[k],
        ) by {
            assert(entry_check(entry_nodes@[k]) is None);
        }
    }
    let ghost check = successors_failure(known, parallelism);
    let mut i: usize = 0;
    while i < nodes.len()
        invariant
            known == node_names(views(nodes@)),
            ascending(known),
            models == views(nodes@),
            parallelism == limits@.parallelism,
            0 < entry_nodes@.len() <= parallelism,
            first_failure(entry_nodes@, entry_failure(known), 0) is None,
            check == successors_failure(known, parallelism),
            i <= nodes@.len(),
            first_failure(models, check, 0) == first_failure(models, check, i as int),
        decreases nodes@.len() - i,
    {
        validate_node_successors(nodes, &nodes[i], parallelism)?;
        i = i + 1;
    }
    proof {
        known_successors(models, parallelism);
    }
    let adj = build_adjacency(nodes);
    validate_reachability(nodes, entry_nodes, &adj)?;
    validate_boundary_paths(nodes, &adj)
}

} // verus!
