//! Nodes of a graph: routes, control outcomes and execution limits.

use vstd::prelude::*;

use crate::debug::{
    entry_string, entry_text, is_alternate, list_string, list_text, name_text, number_string,
    struct_string, struct_text, tuple_string, tuple_text, write_text,
};
use crate::json_value::{
    optional_member, Json, JsonMember, JsonNumber, JsonValue, Member, NumberModel,
};
use crate::decimal::decimal_text;
use crate::names::{NodeId, RouteId};
use crate::options::{option_ref_view, option_view};
use crate::ordered::{
    ascending, collect_unique, collection, find, keys, lookup, views, Collected, Collection, Keyed,
};
use crate::ready::{
    copy_ready, names_json, node_name_sound, ready_shown, ready_sound, same_ready, ReadyNodes,
    Superstep,
};
use crate::text::texts;

verus! {

// ---------------------------------------------------------------------------
// Limits
// ---------------------------------------------------------------------------

/// Immutable execution limits of a graph.
#[derive(Clone, Copy, PartialEq, Eq, Structural)]
pub struct GraphExecutionLimits {
    maximum_supersteps: Superstep,
    maximum_parallelism: u16,
}

/// Rejected execution limits.
#[derive(Clone, Copy, Debug, PartialEq, Eq, Structural)]
pub enum GraphExecutionLimitsError {
    /// No superstep is allowed.
    ZeroSupersteps,
    /// No parallel node is allowed.
    ZeroParallelism,
    /// More parallel nodes are allowed than a ready set holds.
    ParallelismAboveFrameworkMaximum { maximum: usize, actual: usize },
}

/// The values of [`GraphExecutionLimits`].
pub ghost struct ExecutionModel {
    pub supersteps: u64,
    pub parallelism: u16,
}

/// What the rules say of execution limits.
pub open spec fn execution_check(supersteps: u64, parallelism: u16) -> Result<
    (),
    GraphExecutionLimitsError,
> {
    if supersteps == 0 {
        Err(GraphExecutionLimitsError::ZeroSupersteps)
    } else if parallelism == 0 {
        Err(GraphExecutionLimitsError::ZeroParallelism)
    } else if parallelism > 1024 {
        Err(
            GraphExecutionLimitsError::ParallelismAboveFrameworkMaximum {
                maximum: 1024,
                actual: parallelism as usize,
            },
        )
    } else {
        Ok(())
    }
}

/// The JSON form of execution limits.
pub open spec fn execution_json(limits: ExecutionModel) -> Json {
    Json::Object(
        seq![
            Member {
                name: "maximum_supersteps"@,
                value: Json::Text(decimal_text(limits.supersteps as nat)),
            },
            Member {
                name: "maximum_parallelism"@,
                value: Json::Number(NumberModel::Unsigned(limits.parallelism as u64)),
            },
        ],
    )
}

impl View for GraphExecutionLimits {
    type V = ExecutionModel;

    closed spec fn view(&self) -> ExecutionModel {
        ExecutionModel { supersteps: self.maximum_supersteps@, parallelism: self.maximum_parallelism }
    }
}

impl GraphExecutionLimits {
    /// Both limits are positive, and parallelism fits a ready set.
    #[verifier::type_invariant]
    pub open spec fn well_formed(&self) -> bool {
        execution_check(self@.supersteps, self@.parallelism) is Ok
    }

    /// Limits are their values.
    pub broadcast proof fn view_determines(a: GraphExecutionLimits, b: GraphExecutionLimits)
        ensures
            #![trigger a.view(), b.view()]
            a.view() == b.view() ==> a == b,
    {
        Superstep::view_determines(a.maximum_supersteps, b.maximum_supersteps);
    }

    /// Validates execution limits.
    pub fn new(maximum_supersteps: Superstep, maximum_parallelism: u16) -> (r: Result<
        GraphExecutionLimits,
        GraphExecutionLimitsError,
    >)
        ensures
            match (r, execution_check(maximum_supersteps@, maximum_parallelism)) {
                (Ok(limits), Ok(())) => limits@ == (ExecutionModel {
                    supersteps: maximum_supersteps@,
                    parallelism: maximum_parallelism,
                }),
                (Err(e), Err(expected)) => e == expected,
                _ => false,
            },
    {
        if maximum_supersteps.get() == 0 {
            return Err(GraphExecutionLimitsError::ZeroSupersteps);
        }
        if maximum_parallelism == 0 {
            return Err(GraphExecutionLimitsError::ZeroParallelism);
        }
        if maximum_parallelism > 1024 {
            return Err(
                GraphExecutionLimitsError::ParallelismAboveFrameworkMaximum {
                    maximum: 1024,
                    actual: maximum_parallelism as usize,
                },
            );
        }
        Ok(GraphExecutionLimits { maximum_supersteps, maximum_parallelism })
    }

    /// Returns the highest number of supersteps.
    pub fn maximum_supersteps(self) -> (r: Superstep)
        ensures
            r@ == self@.supersteps,
    {
        self.maximum_supersteps
    }

    /// Returns the highest number of parallel nodes.
    pub fn maximum_parallelism(self) -> (r: u16)
        ensures
            r == self@.parallelism,
            self.well_formed(),
    {
        proof {
            use_type_invariant(&self);
        }
        self.maximum_parallelism
    }

    /// Writes the JSON form.
    pub fn to_json(&self) -> (r: JsonValue)
        ensures
            r@ == execution_json(self@),
    {
        let members = vec![
            JsonMember::new(
                "maximum_supersteps",
                JsonValue::Text(self.maximum_supersteps.to_string()),
            ),
            JsonMember::new(
                "maximum_parallelism",
                JsonValue::Number(JsonNumber::from_u64(self.maximum_parallelism as u64)),
            ),
        ];
        let r = JsonValue::object(members);
        assert(r@->Object_0 =~= execution_json(self@)->Object_0);
        r
    }
}

// ---------------------------------------------------------------------------
// Routes
// ---------------------------------------------------------------------------

/// A declared route and the nodes it makes ready.
pub struct GraphRoute {
    route_id: RouteId,
    successors: ReadyNodes,
}

/// Rejected route.
#[derive(Clone, Copy, Debug, PartialEq, Eq, Structural)]
pub enum GraphRouteError {
    /// The route makes no node ready.
    EmptySuccessors,
}

/// The values of [`GraphRoute`].
pub ghost struct RouteModel {
    pub route_id: Seq<char>,
    pub successors: Seq<Seq<char>>,
}

/// What holds of every route.
pub open spec fn route_sound(route: RouteModel) -> bool {
    &&& node_name_sound(route.route_id)
    &&& ready_sound(route.successors)
    &&& route.successors.len() > 0
}

/// The JSON form of a route.
pub open spec fn route_json(route: RouteModel) -> Json {
    Json::Object(
        seq![
            Member { name: "route_id"@, value: Json::Text(route.route_id) },
            Member { name: "successors"@, value: names_json(route.successors) },
        ],
    )
}

impl View for GraphRoute {
    type V = RouteModel;

    closed spec fn view(&self) -> RouteModel {
        RouteModel { route_id: self.route_id@, successors: self.successors@ }
    }
}

impl GraphRoute {
    /// The route makes some node ready.
    #[verifier::type_invariant]
    pub open spec fn well_formed(&self) -> bool {
        route_sound(self@)
    }

    /// Declares a route.
    pub fn new(route_id: RouteId, successors: ReadyNodes) -> (r: Result<
        GraphRoute,
        GraphRouteError,
    >)
        ensures
            r is Ok <==> successors@.len() > 0,
            r matches Ok(route) ==> route@ == (RouteModel {
                route_id: route_id@,
                successors: successors@,
            }),
            r matches Err(e) ==> e == GraphRouteError::EmptySuccessors,
    {
        if successors.is_empty() {
            return Err(GraphRouteError::EmptySuccessors);
        }
        proof {
            use_type_invariant(&route_id);
        }
        Ok(GraphRoute { route_id, successors })
    }

    /// Returns the identity.
    pub fn route_id(&self) -> (r: &RouteId)
        ensures
            r@ == self@.route_id,
    {
        &self.route_id
    }

    /// Returns the nodes that the route makes ready.
    pub fn successors(&self) -> (r: &ReadyNodes)
        ensures
            r@ == self@.successors,
            self.well_formed(),
    {
        proof {
            use_type_invariant(self);
        }
        &self.successors
    }

    /// Writes the JSON form.
    pub fn to_json(&self) -> (r: JsonValue)
        ensures
            r@ == route_json(self@),
    {
        let members = vec![
            JsonMember::new("route_id", JsonValue::text(self.route_id.as_str())),
            JsonMember::new("successors", self.successors.to_json()),
        ];
        let r = JsonValue::object(members);
        assert(r@->Object_0 =~= route_json(self@)->Object_0);
        r
    }
}

impl Keyed for GraphRoute {
    open spec fn key_of(model: RouteModel) -> Seq<char> {
        model.route_id
    }

    open spec fn sound(model: RouteModel) -> bool {
        route_sound(model)
    }

    fn key_text(&self) -> (r: &str) {
        proof {
            use_type_invariant(self);
        }
        self.route_id.as_str()
    }
}

impl Clone for GraphRoute {
    fn clone(&self) -> (r: Self)
        ensures
            r@ == self@,
    {
        proof {
            use_type_invariant(self);
        }
        GraphRoute { route_id: self.route_id.clone(), successors: self.successors.clone() }
    }
}

impl PartialEq for GraphRoute {
    fn eq(&self, other: &Self) -> (r: bool) {
        self.route_id == other.route_id && self.successors == other.successors
    }
}

impl vstd::std_specs::cmp::PartialEqSpecImpl for GraphRoute {
    open spec fn obeys_eq_spec() -> bool {
        true
    }

    open spec fn eq_spec(&self, other: &Self) -> bool {
        self@ == other@
    }
}

impl Eq for GraphRoute {

}

/// The routes of a node, in the order of their identities.
pub struct GraphRoutes {
    routes: Vec<GraphRoute>,
}

/// Rejected routes.
#[derive(Debug, PartialEq, Eq)]
pub enum GraphRoutesError {
    /// There are more routes than the maximum.
    TooMany { maximum: usize, actual: usize },
    /// This route occurs twice.
    Duplicate { route_id: RouteId },
}

/// What holds of the routes of every node.
pub open spec fn routes_sound(routes: Seq<RouteModel>) -> bool {
    &&& ascending(keys::<GraphRoute>(routes))
    &&& routes.len() <= 256
    &&& forall|i: int| 0 <= i < routes.len() ==> route_sound(#[trigger] routes[i])
}

/// The JSON form of routes.
pub open spec fn routes_json(routes: Seq<RouteModel>) -> Json {
    Json::Array(Seq::new(routes.len(), |i: int| route_json(routes[i])))
}

impl View for GraphRoutes {
    type V = Seq<RouteModel>;

    closed spec fn view(&self) -> Seq<RouteModel> {
        views(self.routes@)
    }
}

impl GraphRoutes {
    /// Maximum number of routes of a node.
    pub const MAX_LEN: usize = 256;

    /// The routes are in order, none twice, and not too many.
    #[verifier::type_invariant]
    pub open spec fn well_formed(&self) -> bool {
        routes_sound(self@)
    }

    /// Collects routes.
    pub fn try_new(routes: Vec<GraphRoute>) -> (r: Result<GraphRoutes, GraphRoutesError>)
        ensures
            match (r, collection::<GraphRoute>(views(routes@), 256)) {
                (Ok(collected), Collected::All(models)) => collected@ == models,
                (
                    Err(GraphRoutesError::Duplicate { route_id }),
                    Collected::Repeats(name),
                ) => route_id@ == name,
                (
                    Err(GraphRoutesError::TooMany { maximum, actual }),
                    Collected::TooMany,
                ) => maximum == 256 && actual == 257,
                _ => false,
            },
    {
        match collect_unique(routes, 256) {
            Collection::All(routes) => Ok(GraphRoutes { routes }),
            Collection::Repeats(route) => Err(
                GraphRoutesError::Duplicate { route_id: route.route_id },
            ),
            Collection::TooMany => Err(GraphRoutesError::TooMany { maximum: 256, actual: 257 }),
        }
    }

    /// Returns no routes.
    pub fn empty() -> (r: GraphRoutes)
        ensures
            r@ == Seq::<RouteModel>::empty(),
    {
        let routes: Vec<GraphRoute> = Vec::new();
        assert(views(routes@) =~= Seq::<RouteModel>::empty());
        GraphRoutes { routes }
    }

    /// Returns the number of routes.
    pub fn len(&self) -> (r: usize)
        ensures
            r == self@.len(),
            self.well_formed(),
    {
        proof {
            use_type_invariant(self);
        }
        self.routes.len()
    }

    /// Tests whether there is no route.
    pub fn is_empty(&self) -> (r: bool)
        ensures
            r == (self@.len() == 0),
    {
        self.routes.len() == 0
    }

    /// Returns the routes in order.
    pub fn iter(&self) -> (r: &[GraphRoute])
        ensures
            views(r@) == self@,
            r@.len() == self@.len(),
            self.well_formed(),
    {
        proof {
            use_type_invariant(self);
        }
        self.routes.as_slice()
    }

    /// Looks a route up by its identity.
    pub fn get(&self, route_id: &RouteId) -> (r: Option<&GraphRoute>)
        ensures
            option_ref_view(r) == find::<GraphRoute>(self@, route_id@),
    {
        proof {
            use_type_invariant(self);
        }
        lookup(self.routes.as_slice(), route_id.as_str())
    }

    /// Writes the JSON form.
    pub fn to_json(&self) -> (r: JsonValue)
        ensures
            r@ == routes_json(self@),
    {
        let mut items: Vec<JsonValue> = Vec::new();
        let mut i: usize = 0;
        while i < self.routes.len()
            invariant
                i <= self.routes@.len(),
                items@.len() == i,
                forall|j: int|
                    0 <= j < i ==> (#[trigger] items@[j])@ == route_json(self.routes@[j]@),
            decreases self.routes@.len() - i,
        {
            items.push(self.routes[i].to_json());
            i = i + 1;
        }
        let r = JsonValue::array(items);
        assert(r@->Array_0 =~= routes_json(self@)->Array_0);
        r
    }
}

impl Default for GraphRoutes {
    fn default() -> (r: Self)
        ensures
            r@ == Seq::<RouteModel>::empty(),
    {
        GraphRoutes::empty()
    }
}

impl Clone for GraphRoutes {
    fn clone(&self) -> (r: Self)
        ensures
            r@ == self@,
    {
        proof {
            use_type_invariant(self);
        }
        let mut routes: Vec<GraphRoute> = Vec::new();
        let mut i: usize = 0;
        while i < self.routes.len()
            invariant
                i <= self.routes@.len(),
                routes@.len() == i,
                forall|j: int| 0 <= j < i ==> (#[trigger] routes@[j])@ == self.routes@[j]@,
            decreases self.routes@.len() - i,
        {
            routes.push(self.routes[i].clone());
            i = i + 1;
        }
        assert(views(routes@) =~= views(self.routes@));
        GraphRoutes { routes }
    }
}

impl PartialEq for GraphRoutes {
    fn eq(&self, other: &Self) -> (r: bool) {
        if self.routes.len() != other.routes.len() {
            assert(self@.len() != other@.len());
            return false;
        }
        let mut i: usize = 0;
        while i < self.routes.len()
            invariant
                i <= self.routes@.len() == other.routes@.len(),
                forall|j: int| 0 <= j < i ==> #[trigger] self@[j] == other@[j],
            decreases self.routes@.len() - i,
        {
            if self.routes[i] != other.routes[i] {
                assert(self@[i as int] != other@[i as int]);
                return false;
            }
            i = i + 1;
        }
        assert(self@ =~= other@);
        true
    }
}

impl vstd::std_specs::cmp::PartialEqSpecImpl for GraphRoutes {
    open spec fn obeys_eq_spec() -> bool {
        true
    }

    open spec fn eq_spec(&self, other: &Self) -> bool {
        self@ == other@
    }
}

impl Eq for GraphRoutes {

}

// ---------------------------------------------------------------------------
// Nodes
// ---------------------------------------------------------------------------

/// A node and the control outcomes that it may select.
#[derive(Debug)]
pub struct GraphNode {
    node_id: NodeId,
    continue_to: Option<ReadyNodes>,
    routes: GraphRoutes,
    wait_to: Option<ReadyNodes>,
    terminal: bool,
}

/// Rejected node.
#[derive(Clone, Copy, Debug, PartialEq, Eq, Structural)]
pub enum GraphNodeError {
    /// The node can select no outcome.
    NoControlOutcome,
    /// Continuing makes no node ready.
    EmptyContinueSuccessors,
    /// Waiting makes no node ready.
    EmptyWaitSuccessors,
}

/// The values of [`GraphNode`].
pub ghost struct NodeModel {
    pub node_id: Seq<char>,
    pub continue_to: Option<Seq<Seq<char>>>,
    pub routes: Seq<RouteModel>,
    pub wait_to: Option<Seq<Seq<char>>>,
    pub terminal: bool,
}

/// What the rules say of the outcomes of a node.
pub open spec fn node_check(node: NodeModel) -> Result<(), GraphNodeError> {
    if node.continue_to matches Some(names) && names.len() == 0 {
        Err(GraphNodeError::EmptyContinueSuccessors)
    } else if node.wait_to matches Some(names) && names.len() == 0 {
        Err(GraphNodeError::EmptyWaitSuccessors)
    } else if node.continue_to is None && node.routes.len() == 0 && node.wait_to is None
        && !node.terminal {
        Err(GraphNodeError::NoControlOutcome)
    } else {
        Ok(())
    }
}

/// What holds of every node.
pub open spec fn node_sound(node: NodeModel) -> bool {
    &&& node_name_sound(node.node_id)
    &&& node_check(node) is Ok
    &&& routes_sound(node.routes)
    &&& node.continue_to matches Some(names) ==> ready_sound(names)
    &&& node.wait_to matches Some(names) ==> ready_sound(names)
}

/// The JSON form of an optional ready set.
pub open spec fn optional_names_json(names: Option<Seq<Seq<char>>>) -> Option<Json> {
    match names {
        Some(names) => Some(names_json(names)),
        None => None,
    }
}

/// The JSON form of a node. An outcome that it cannot select is left out.
pub open spec fn node_json(node: NodeModel) -> Json {
    Json::Object(
        seq![Member { name: "node_id"@, value: Json::Text(node.node_id) }] + optional_member(
            "continue_to"@,
            optional_names_json(node.continue_to),
        ) + seq![Member { name: "routes"@, value: routes_json(node.routes) }] + optional_member(
            "wait_to"@,
            optional_names_json(node.wait_to),
        ) + seq![Member { name: "terminal"@, value: Json::Bool(node.terminal) }],
    )
}

impl View for GraphNode {
    type V = NodeModel;

    closed spec fn view(&self) -> NodeModel {
        NodeModel {
            node_id: self.node_id@,
            continue_to: option_view(self.continue_to),
            routes: self.routes@,
            wait_to: option_view(self.wait_to),
            terminal: self.terminal,
        }
    }
}

impl GraphNode {
    /// The node can select an outcome, and none makes nothing ready.
    #[verifier::type_invariant]
    pub open spec fn well_formed(&self) -> bool {
        node_sound(self@)
    }

    /// Declares a node.
    pub fn new(
        node_id: NodeId,
        continue_to: Option<ReadyNodes>,
        routes: GraphRoutes,
        wait_to: Option<ReadyNodes>,
        terminal: bool,
    ) -> (r: Result<GraphNode, GraphNodeError>)
        ensures
            ({
                let model = NodeModel {
                    node_id: node_id@,
                    continue_to: option_view(continue_to),
                    routes: routes@,
                    wait_to: option_view(wait_to),
                    terminal,
                };
                match (r, node_check(model)) {
                    (Ok(node), Ok(())) => node@ == model,
                    (Err(e), Err(expected)) => e == expected,
                    _ => false,
                }
            }),
    {
        if let Some(nodes) = &continue_to {
            if nodes.is_empty() {
                return Err(GraphNodeError::EmptyContinueSuccessors);
            }
        }
        if let Some(nodes) = &wait_to {
            if nodes.is_empty() {
                return Err(GraphNodeError::EmptyWaitSuccessors);
            }
        }
        if continue_to.is_none() && routes.len() == 0 && wait_to.is_none() && !terminal {
            return Err(GraphNodeError::NoControlOutcome);
        }
        proof {
            use_type_invariant(&node_id);
            use_type_invariant(&routes);
        }
        Ok(GraphNode { node_id, continue_to, routes, wait_to, terminal })
    }

    /// Returns the identity.
    pub fn node_id(&self) -> (r: &NodeId)
        ensures
            r@ == self@.node_id,
            self.well_formed(),
    {
        proof {
            use_type_invariant(self);
        }
        &self.node_id
    }

    /// Returns the nodes that continuing makes ready.
    pub fn continue_to(&self) -> (r: Option<&ReadyNodes>)
        ensures
            option_ref_view(r) == self@.continue_to,
    {
        self.continue_to.as_ref()
    }

    /// Returns the routes.
    pub fn routes(&self) -> (r: &GraphRoutes)
        ensures
            r@ == self@.routes,
    {
        &self.routes
    }

    /// Returns the nodes that are ready once a wait ends.
    pub fn wait_to(&self) -> (r: Option<&ReadyNodes>)
        ensures
            option_ref_view(r) == self@.wait_to,
    {
        self.wait_to.as_ref()
    }

    /// Tests whether the node may end the run.
    pub fn allows_terminal(&self) -> (r: bool)
        ensures
            r == self@.terminal,
    {
        self.terminal
    }

    /// Writes the JSON form.
    pub fn to_json(&self) -> (r: JsonValue)
        ensures
            r@ == node_json(self@),
    {
        let mut members: Vec<JsonMember> = Vec::new();
        members.push(JsonMember::new("node_id", JsonValue::text(self.node_id.as_str())));
        if let Some(nodes) = &self.continue_to {
            members.push(JsonMember::new("continue_to", nodes.to_json()));
        }
        members.push(JsonMember::new("routes", self.routes.to_json()));
        if let Some(nodes) = &self.wait_to {
            members.push(JsonMember::new("wait_to", nodes.to_json()));
        }
        members.push(JsonMember::new("terminal", JsonValue::Bool(self.terminal)));
        let r = JsonValue::object(members);
        assert(r@->Object_0 =~= node_json(self@)->Object_0);
        r
    }
}

impl Keyed for GraphNode {
    open spec fn key_of(model: NodeModel) -> Seq<char> {
        model.node_id
    }

    open spec fn sound(model: NodeModel) -> bool {
        node_sound(model)
    }

    fn key_text(&self) -> (r: &str) {
        proof {
            use_type_invariant(self);
        }
        self.node_id.as_str()
    }
}

impl Clone for GraphNode {
    fn clone(&self) -> (r: Self)
        ensures
            r@ == self@,
    {
        proof {
            use_type_invariant(self);
        }
        GraphNode {
            node_id: self.node_id.clone(),
            continue_to: copy_ready(&self.continue_to),
            routes: self.routes.clone(),
            wait_to: copy_ready(&self.wait_to),
            terminal: self.terminal,
        }
    }
}

impl PartialEq for GraphNode {
    fn eq(&self, other: &Self) -> (r: bool) {
        self.node_id == other.node_id && same_ready(&self.continue_to, &other.continue_to)
            && self.routes == other.routes && same_ready(&self.wait_to, &other.wait_to)
            && self.terminal == other.terminal
    }
}

impl vstd::std_specs::cmp::PartialEqSpecImpl for GraphNode {
    open spec fn obeys_eq_spec() -> bool {
        true
    }

    open spec fn eq_spec(&self, other: &Self) -> bool {
        self@ == other@
    }
}

impl Eq for GraphNode {

}

// ---------------------------------------------------------------------------
// Debug output
// ---------------------------------------------------------------------------

/// The fields that are shown of limits.
pub open spec fn execution_fields(model: ExecutionModel, alternate: bool) -> Seq<Seq<char>> {
    seq![
        entry_text(
            "maximum_supersteps"@,
            tuple_text("Superstep"@, decimal_text(model.supersteps as nat), alternate),
        ),
        entry_text("maximum_parallelism"@, decimal_text(model.parallelism as nat)),
    ]
}

/// What is shown of limits.
pub open spec fn execution_shown(model: ExecutionModel, alternate: bool) -> Seq<char> {
    struct_text("GraphExecutionLimits"@, execution_fields(model, alternate), false, alternate)
}

impl GraphExecutionLimits {
    /// Returns what is shown of it for debugging.
    pub fn debug_text(&self, alternate: bool) -> (r: String)
        ensures
            r@ == execution_shown(self@, alternate),
    {
        let fields = vec![
            entry_string("maximum_supersteps", self.maximum_supersteps.debug_text(alternate)),
            entry_string("maximum_parallelism", number_string(self.maximum_parallelism as usize)),
        ];
        assert(texts(fields@) =~= execution_fields(self@, alternate));
        struct_string("GraphExecutionLimits", &fields, false, alternate)
    }
}

impl core::fmt::Debug for GraphExecutionLimits {
    fn fmt(&self, formatter: &mut core::fmt::Formatter<'_>) -> core::fmt::Result {
        let alternate: bool = is_alternate(formatter);
        write_text(formatter, self.debug_text(alternate).as_str())
    }
}

/// The fields that are shown of a route.
pub open spec fn route_fields(model: RouteModel, alternate: bool) -> Seq<Seq<char>> {
    seq![
        entry_text("route_id"@, name_text("RouteId"@, model.route_id, alternate)),
        entry_text("successors"@, ready_shown(model.successors, alternate)),
    ]
}

/// What is shown of a route.
pub open spec fn route_shown(model: RouteModel, alternate: bool) -> Seq<char> {
    struct_text("GraphRoute"@, route_fields(model, alternate), false, alternate)
}

impl GraphRoute {
    /// Returns what is shown of it for debugging.
    pub fn debug_text(&self, alternate: bool) -> (r: String)
        ensures
            r@ == route_shown(self@, alternate),
    {
        let fields = vec![
            entry_string("route_id", self.route_id.debug_text(alternate)),
            entry_string("successors", self.successors.debug_text(alternate)),
        ];
        assert(texts(fields@) =~= route_fields(self@, alternate));
        struct_string("GraphRoute", &fields, false, alternate)
    }
}

impl core::fmt::Debug for GraphRoute {
    fn fmt(&self, formatter: &mut core::fmt::Formatter<'_>) -> core::fmt::Result {
        let alternate: bool = is_alternate(formatter);
        write_text(formatter, self.debug_text(alternate).as_str())
    }
}

/// What is shown of routes, one by one.
pub open spec fn route_texts(models: Seq<RouteModel>, alternate: bool) -> Seq<Seq<char>> {
    Seq::new(models.len(), |i: int| route_shown(models[i], alternate))
}

fn route_strings(items: &[GraphRoute], alternate: bool) -> (r: Vec<String>)
    ensures
        texts(r@) == route_texts(views(items@), alternate),
{
    let ghost shown = route_texts(views(items@), alternate);
    let mut out: Vec<String> = Vec::new();
    let mut i: usize = 0;
    while i < items.len()
        invariant
            i <= items@.len(),
            shown == route_texts(views(items@), alternate),
            out@.len() == i,
            forall|j: int| 0 <= j < i ==> (#[trigger] out@[j])@ == shown[j],
        decreases items@.len() - i,
    {
        let item = &items[i];
        out.push(item.debug_text(alternate));
        i = i + 1;
    }
    assert(texts(out@) =~= shown);
    out
}

/// What is shown of routes.
pub open spec fn routes_shown(models: Seq<RouteModel>, alternate: bool) -> Seq<char> {
    tuple_text("GraphRoutes"@, list_text(route_texts(models, alternate), alternate), alternate)
}

impl GraphRoutes {
    /// Returns what is shown of it for debugging.
    pub fn debug_text(&self, alternate: bool) -> (r: String)
        ensures
            r@ == routes_shown(self@, alternate),
    {
        let routes = route_strings(self.routes.as_slice(), alternate);
        tuple_string("GraphRoutes", list_string(&routes, alternate), alternate)
    }
}

impl core::fmt::Debug for GraphRoutes {
    fn fmt(&self, formatter: &mut core::fmt::Formatter<'_>) -> core::fmt::Result {
        let alternate: bool = is_alternate(formatter);
        write_text(formatter, self.debug_text(alternate).as_str())
    }
}

} // verus!
