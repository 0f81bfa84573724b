//! Composing a graph of subgraph templates.

use vstd::prelude::*;

use crate::canonical::domain_separated_digest;
use crate::composition_model::{
    all_slots, bindings_json, body_size, call_failure, calls_failure, distinct_sorted, entry_names,
    expanded_size, four_digits, instance_name, is_return_route, iteration_slots, lowered,
    lowered_slot, lowered_slots, ready_set, renames, returns_by, route_name, route_scope_json,
    scope_json, site_fits, site_slots, BindingModel, CallModel, EntryModel, RenameModel, Slot,
    SourceModel,
};
use crate::debug::{
    entry_string, entry_text, is_alternate, map_string, map_text, name_text, number_string,
    option_name_text, option_string, struct_string, struct_text, write_text,
};
use crate::decimal::decimal_text;
use crate::digest::{digest_text, hex_text, Digest};
use crate::graph::{CompiledGraph, GraphModel};
use crate::graph_node::{GraphNode, GraphRoute, RouteModel};
use crate::graph_shape::node_names;
use crate::json_value::{Json, JsonMember, JsonNumber, JsonValue, Member};
use crate::names::{NodeId, RouteId};
use crate::options::{option_ref_view, option_view};
use crate::ordered::{
    arranged, arranged_is_sorted, arranged_of_ascending, ascending, ascending_distinct, find, holds,
    insert_new, keys, lookup, placed, placed_keeps_order, views, Keyed,
};
use crate::pins::{graph_reference_shown, GraphReference};
use crate::ready::{node_keys, node_name_sound, ReadyNodes};
use crate::template::{
    ports_are_terminal, subgraph_shown, subgraph_sound, CompositionFailure, GraphCompositionError,
    SharedStateSubgraph,
};
use crate::text::{admits, ascii_utf8, first_outside_is_first, same_text, texts, ByteClass};

verus! {

// ---------------------------------------------------------------------------
// Calls
// ---------------------------------------------------------------------------

/// A return port and the parent route that it returns by.
pub struct ReturnBinding {
    port: NodeId,
    route: RouteId,
}

impl View for ReturnBinding {
    type V = BindingModel;

    closed spec fn view(&self) -> BindingModel {
        BindingModel { port: self.port@, route: self.route@ }
    }
}

impl Keyed for ReturnBinding {
    open spec fn key_of(model: BindingModel) -> Seq<char> {
        model.port
    }

    open spec fn sound(model: BindingModel) -> bool {
        true
    }

    fn key_text(&self) -> (r: &str) {
        self.port.as_str()
    }
}

/// A call of a template, in place of one node of the parent.
pub struct GraphSubgraphCall {
    node_id: NodeId,
    subgraph: SharedStateSubgraph,
    maximum_iterations: u16,
    repeat_port: Option<NodeId>,
    return_routes: Vec<ReturnBinding>,
}

/// What holds of every call.
pub open spec fn call_sound(call: CallModel) -> bool {
    &&& subgraph_sound(call.subgraph)
    &&& 1 <= call.maximum_iterations <= 1024
    &&& call.repeat_port matches Some(port) ==> call.subgraph.ports.contains(port)
    &&& ascending(keys::<ReturnBinding>(call.return_routes))
}

impl View for GraphSubgraphCall {
    type V = CallModel;

    closed spec fn view(&self) -> CallModel {
        CallModel {
            node_id: self.node_id@,
            subgraph: self.subgraph@,
            maximum_iterations: self.maximum_iterations,
            repeat_port: option_view(self.repeat_port),
            return_routes: views(self.return_routes@),
        }
    }
}

impl Keyed for GraphSubgraphCall {
    open spec fn key_of(model: CallModel) -> Seq<char> {
        model.node_id
    }

    open spec fn sound(model: CallModel) -> bool {
        call_sound(model)
    }

    fn key_text(&self) -> (r: &str) {
        proof {
            use_type_invariant(self);
        }
        self.node_id.as_str()
    }
}

/// The models of pairs of a port and a route.
pub open spec fn pair_models(pairs: Seq<(NodeId, RouteId)>) -> Seq<BindingModel> {
    Seq::new(pairs.len(), |i: int| BindingModel { port: pairs[i].0@, route: pairs[i].1@ })
}

/// The bound routes.
pub open spec fn bound_routes(bindings: Seq<BindingModel>) -> Seq<Seq<char>> {
    Seq::new(bindings.len(), |i: int| bindings[i].route)
}

/// The bindings map all ports to as many routes.
pub open spec fn bindings_complete(ports: Seq<Seq<char>>, bindings: Seq<BindingModel>) -> bool {
    &&& forall|i: int| 0 <= i < bindings.len() ==> ports.contains((#[trigger] bindings[i]).port)
    &&& keys::<ReturnBinding>(bindings).no_duplicates()
    &&& bound_routes(bindings).no_duplicates()
    &&& bindings.len() == ports.len()
}

impl GraphSubgraphCall {
    /// The template, the number of iterations and the bindings are valid.
    #[verifier::type_invariant]
    pub open spec fn well_formed(&self) -> bool {
        call_sound(self@)
    }

    /// Calls a template once.
    pub fn once(node_id: NodeId, subgraph: SharedStateSubgraph) -> (r: GraphSubgraphCall)
        ensures
            r@ == (CallModel {
                node_id: node_id@,
                subgraph: subgraph@,
                maximum_iterations: 1,
                repeat_port: None,
                return_routes: Seq::empty(),
            }),
    {
        proof {
            use_type_invariant(&subgraph);
        }
        let return_routes: Vec<ReturnBinding> = Vec::new();
        assert(views(return_routes@) =~= Seq::<BindingModel>::empty());
        GraphSubgraphCall {
            node_id,
            subgraph,
            maximum_iterations: 1,
            repeat_port: None,
            return_routes,
        }
    }

    /// Calls a template up to so many times, again whenever it returns by the
    /// port to repeat at.
    pub fn bounded_loop(
        node_id: NodeId,
        subgraph: SharedStateSubgraph,
        repeat_port: NodeId,
        maximum_iterations: u16,
    ) -> (r: Result<GraphSubgraphCall, GraphCompositionError>)
        ensures
            match r {
                Ok(call) => 1 <= maximum_iterations <= 1024 && subgraph@.ports.contains(
                    repeat_port@,
                ) && call@ == (CallModel {
                    node_id: node_id@,
                    subgraph: subgraph@,
                    maximum_iterations,
                    repeat_port: Some(repeat_port@),
                    return_routes: Seq::empty(),
                }),
                Err(e) => if maximum_iterations == 0 || maximum_iterations > 1024 {
                    e@ == CompositionFailure::InvalidIterationLimit
                } else {
                    !subgraph@.ports.contains(repeat_port@) && e@
                        == (CompositionFailure::UnknownRepeatPort { port: repeat_port@ })
                },
            },
    {
        proof {
            use_type_invariant(&subgraph);
        }
        if maximum_iterations == 0 || maximum_iterations > 1024 {
            return Err(GraphCompositionError::InvalidIterationLimit);
        }
        if !subgraph.is_port(&repeat_port) {
            return Err(GraphCompositionError::UnknownRepeatPort { port: repeat_port });
        }
        let return_routes: Vec<ReturnBinding> = Vec::new();
        assert(views(return_routes@) =~= Seq::<BindingModel>::empty());
        Ok(
            GraphSubgraphCall {
                node_id,
                subgraph,
                maximum_iterations,
                repeat_port: Some(repeat_port),
                return_routes,
            },
        )
    }

    /// Binds every return port to a route of the parent.
    pub fn with_return_routes(self, routes: Vec<(NodeId, RouteId)>) -> (r: Result<
        GraphSubgraphCall,
        GraphCompositionError,
    >)
        ensures
            match r {
                Ok(call) => bindings_complete(self@.subgraph.ports, pair_models(routes@)) && call@
                    == (CallModel {
                    return_routes: arranged::<ReturnBinding>(pair_models(routes@)),
                    ..self@
                }),
                Err(e) => !bindings_complete(self@.subgraph.ports, pair_models(routes@)) && e@
                    == (CompositionFailure::ReturnRoutesMismatch { node_id: self@.node_id }),
            },
    {
        proof {
            use_type_invariant(&self);
        }
        let ghost ports = self@.subgraph.ports;
        let ghost all = routes@;
        let ghost models = pair_models(all);
        let ghost names = keys::<ReturnBinding>(models);
        let ghost bound = bound_routes(models);
        let mut bindings: Vec<ReturnBinding> = Vec::new();
        let mut used: Vec<RouteId> = Vec::new();
        proof {
            assert(models.take(0) =~= Seq::<BindingModel>::empty());
            assert(views(bindings@) =~= arranged::<ReturnBinding>(models.take(0)));
            assert(keys::<ReturnBinding>(views(bindings@)) =~= Seq::<Seq<char>>::empty());
            assert(keys::<RouteId>(views(used@)) =~= Seq::<Seq<char>>::empty());
            assert(bound.take(0) =~= Seq::<Seq<char>>::empty());
        }
        for pair in entries: routes
            invariant
                entries.seq() == all,
                models == pair_models(all),
                names == keys::<ReturnBinding>(models),
                bound == bound_routes(models),
                ports == self@.subgraph.ports,
                bindings@.len() == entries.index(),
                used@.len() == entries.index(),
                ascending(keys::<ReturnBinding>(views(bindings@))),
                ascending(keys::<RouteId>(views(used@))),
                views(bindings@) == arranged::<ReturnBinding>(models.take(bindings@.len() as int)),
                keys::<ReturnBinding>(models.take(bindings@.len() as int)).no_duplicates(),
                bound.take(bindings@.len() as int).no_duplicates(),
                forall|name: Seq<char>| #[trigger]
                    keys::<RouteId>(views(used@)).contains(name) <==> bound.take(
                        bindings@.len() as int,
                    ).contains(name),
                forall|i: int|
                    0 <= i < bindings@.len() ==> ports.contains((#[trigger] models[i]).port),
        {
            let ghost n = bindings@.len() as int;
            let ghost done = models.take(n);
            let (port, route) = pair;
            proof {
                assert(pair == all[n]);
                assert(models[n] == BindingModel { port: port@, route: route@ });
                assert(models.take(n + 1).drop_last() =~= done);
                arranged_is_sorted::<ReturnBinding>(done);
                assert(names[n] == port@);
                assert(bound[n] == route@);
            }
            if !self.subgraph.is_port(&port) {
                return Err(GraphCompositionError::ReturnRoutesMismatch { node_id: self.node_id });
            }
            let ghost before = bound.take(n);
            if !insert_new(&mut used, route.clone()) {
                proof {
                    let k = choose|k: int| 0 <= k < n && before[k] == route@;
                    assert(bound[k] == bound[n]);
                }
                return Err(GraphCompositionError::ReturnRoutesMismatch { node_id: self.node_id });
            }
            let ghost earlier = keys::<ReturnBinding>(done);
            proof {
                assert(keys::<ReturnBinding>(views(bindings@)).contains(port@)
                    <==> earlier.contains(port@));
            }
            if !insert_new(&mut bindings, ReturnBinding { port, route }) {
                proof {
                    let k = choose|k: int| 0 <= k < n && earlier[k] == names[n];
                    assert(names[k] == names[n]);
                }
                return Err(GraphCompositionError::ReturnRoutesMismatch { node_id: self.node_id });
            }
            proof {
                let after = bound.take(n + 1);
                assert(after =~= before.push(bound[n]));
                assert(keys::<ReturnBinding>(models.take(n + 1)) =~= earlier.push(names[n]));
                assert forall|name: Seq<char>| #[trigger]
                    keys::<RouteId>(views(used@)).contains(name) <==> after.contains(name) by {
                    if before.contains(name) {
                        let k = choose|k: int| 0 <= k < before.len() && before[k] == name;
                        assert(after[k] == name);
                    }
                    if after.contains(name) {
                        let k = choose|k: int| 0 <= k < after.len() && after[k] == name;
                        if k < n {
                            assert(before[k] == name);
                        }
                    }
                    assert(after[n] == bound[n]);
                }
            }
        }
        proof {
            assert(models.take(models.len() as int) =~= models);
            assert(bound.take(bound.len() as int) =~= bound);
        }
        if bindings.len() != self.subgraph.return_ports().len() {
            return Err(GraphCompositionError::ReturnRoutesMismatch { node_id: self.node_id });
        }
        Ok(
            GraphSubgraphCall {
                node_id: self.node_id,
                subgraph: self.subgraph,
                maximum_iterations: self.maximum_iterations,
                repeat_port: self.repeat_port,
                return_routes: bindings,
            },
        )
    }

    /// Tests whether the port returns by the route.
    pub fn matches_return(&self, port: &NodeId, route: &RouteId) -> (r: bool)
        ensures
            r == returns_by(self@, port@, route@),
    {
        proof {
            use_type_invariant(self);
        }
        match lookup(self.return_routes.as_slice(), port.as_str()) {
            Some(binding) => binding.route == *route,
            None => same_text(port.as_str(), route.as_str()),
        }
    }

    /// Tests whether some port returns by the route.
    fn has_return(&self, route: &RouteId) -> (r: bool)
        ensures
            r == is_return_route(self@, route@),
    {
        let ports = self.subgraph.return_ports();
        let ghost names = self@.subgraph.ports;
        let mut k: usize = 0;
        while k < ports.len()
            invariant
                names == self@.subgraph.ports,
                views(ports@) == names,
                ports@.len() == names.len(),
                k <= ports@.len(),
                forall|j: int| 0 <= j < k ==> !returns_by(self@, #[trigger] names[j], route@),
            decreases ports@.len() - k,
        {
            assert(names[k as int] == ports@[k as int]@);
            if self.matches_return(&ports[k], route) {
                return true;
            }
            k = k + 1;
        }
        false
    }
}

/// Tests whether the node declares exactly the return routes of the call.
fn site_matches(node: &GraphNode, call: &GraphSubgraphCall) -> (r: bool)
    ensures
        r == site_fits(node@, call@),
{
    if node.continue_to().is_some() || node.wait_to().is_some() || node.allows_terminal() {
        return false;
    }
    let routes = node.routes().iter();
    let ghost models = node@.routes;
    if routes.len() != call.subgraph.return_ports().len() {
        return false;
    }
    let mut i: usize = 0;
    while i < routes.len()
        invariant
            models == node@.routes,
            views(routes@) == models,
            routes@.len() == models.len(),
            i <= routes@.len(),
            forall|k: int| 0 <= k < i ==> is_return_route(call@, (#[trigger] models[k]).route_id),
        decreases routes@.len() - i,
    {
        assert(models[i as int] == routes@[i as int]@);
        if !call.has_return(routes[i].route_id()) {
            return false;
        }
        i = i + 1;
    }
    true
}

/// Checks a call by itself.
fn validate_call(parent: &CompiledGraph, call: &GraphSubgraphCall) -> (r: Result<
    (),
    GraphCompositionError,
>)
    ensures
        match (r, call_failure(parent@, call@)) {
            (Ok(()), None) => true,
            (Err(e), Some(expected)) => e@ == expected,
            _ => false,
        },
{
    let node = match parent.node(&call.node_id) {
        Some(node) => node,
        None => {
            return Err(GraphCompositionError::UnknownCallSite { node_id: call.node_id.clone() });
        },
    };
    if !site_matches(node, call) {
        return Err(GraphCompositionError::ReturnRoutesMismatch { node_id: call.node_id.clone() });
    }
    let child = call.subgraph.graph();
    if *parent.input_schema() != *child.input_schema() || *parent.state_schema()
        != *child.state_schema() || *parent.update_schema() != *child.update_schema()
        || *parent.output_schema() != *child.output_schema() || *parent.reducer()
        != *child.reducer() {
        return Err(
            GraphCompositionError::SharedStateContractMismatch { node_id: call.node_id.clone() },
        );
    }
    if parent.limits().maximum_parallelism() > child.limits().maximum_parallelism() {
        return Err(
            GraphCompositionError::TemplateParallelismLimit { node_id: call.node_id.clone() },
        );
    }
    Ok(())
}

/// A template has a body of at least one node.
pub proof fn body_not_empty(call: CallModel)
    requires
        subgraph_sound(call.subgraph),
    ensures
        1 <= body_size(call) <= 1024,
{
    let graph = call.subgraph.graph;
    let ports = call.subgraph.ports;
    ports_are_terminal(graph.nodes);
    let entry = graph.entry_nodes[0];
    let check = crate::graph_shape::entry_failure(node_names(graph.nodes));
    crate::graph_shape::no_first_failure(graph.entry_nodes, check, 0);
    assert(check(graph.entry_nodes[0]) is None);
    assert(!ports.contains(entry));
    let names = node_names(graph.nodes);
    assert(names.contains(entry));
    ascending_distinct(ports);
    ascending_distinct(names);
    let extended = ports.push(entry);
    assert(extended.no_duplicates());
    assert(extended.to_set().subset_of(names.to_set())) by {
        assert forall|x: Seq<char>| extended.to_set().contains(x) implies names.to_set().contains(
            x,
        ) by {
            let k = choose|k: int| 0 <= k < extended.len() && extended[k] == x;
            if k < ports.len() {
                assert(ports[k] == x);
                assert(ports.contains(x));
                let i = choose|i: int|
                    0 <= i < graph.nodes.len() && (#[trigger] graph.nodes[i]).node_id == x
                        && graph.nodes[i].terminal;
                assert(names[i] == x);
            }
        }
    }
    extended.unique_seq_to_set();
    names.unique_seq_to_set();
    vstd::set_lib::lemma_len_subset(extended.to_set(), names.to_set());
}

/// Collects calls in the order of their sites.
pub(crate) fn collect_calls(parent: &CompiledGraph, calls: Vec<GraphSubgraphCall>) -> (r: Result<
    Vec<GraphSubgraphCall>,
    GraphCompositionError,
>)
    ensures
        match (r, calls_failure(parent@, views(calls@), 0)) {
            (Ok(sites), None) => {
                &&& views(sites@) == arranged::<GraphSubgraphCall>(views(calls@))
                &&& ascending(keys::<GraphSubgraphCall>(views(sites@)))
                &&& sites@.len() == calls@.len()
                &&& sites_valid(parent@, views(sites@))
            },
            (Err(e), Some(expected)) => e@ == expected,
            _ => false,
        },
{
    let ghost all = calls@;
    let ghost models = views(all);
    let mut sites: Vec<GraphSubgraphCall> = Vec::new();
    let mut count: usize = parent.nodes().len();
    proof {
        assert(models.take(0) =~= Seq::<CallModel>::empty());
        assert(views(sites@) =~= arranged::<GraphSubgraphCall>(models.take(0)));
        assert(keys::<GraphSubgraphCall>(views(sites@)) =~= Seq::<Seq<char>>::empty());
        assert(keys::<GraphSubgraphCall>(models.take(0)) =~= Seq::<Seq<char>>::empty());
    }
    for call in entries: calls
        invariant
            entries.seq() == all,
            models == views(all),
            sites@.len() == entries.index(),
            calls_failure(parent@, models, 0) == calls_failure(parent@, models, sites@.len() as int),
            count == expanded_size(parent@, models, sites@.len() as int),
            1 <= count <= 1024,
            keys::<GraphSubgraphCall>(models.take(sites@.len() as int)).no_duplicates(),
            ascending(keys::<GraphSubgraphCall>(views(sites@))),
            views(sites@) == arranged::<GraphSubgraphCall>(models.take(sites@.len() as int)),
            forall|t: GraphSubgraphCall| #[trigger]
                sites@.contains(t) ==> call_sound(t@) && call_failure(parent@, t@) is None,
    {
        let ghost n = sites@.len() as int;
        let ghost done = models.take(n);
        proof {
            use_type_invariant(&call);
            assert(call == all[n]);
            assert(models[n] == call@);
            assert(models.take(n + 1).drop_last() =~= done);
            arranged_is_sorted::<GraphSubgraphCall>(done);
            assert(keys::<GraphSubgraphCall>(views(sites@)).contains(call@.node_id) <==> keys::<
                GraphSubgraphCall,
            >(done).contains(call@.node_id));
            body_not_empty(call@);
        }
        if holds(sites.as_slice(), call.node_id.as_str()) {
            return Err(GraphCompositionError::DuplicateCallSite { node_id: call.node_id });
        }
        validate_call(parent, &call)?;
        let body: usize = call.subgraph.graph().nodes().len() - call.subgraph.return_ports().len();
        let iterations: usize = call.maximum_iterations as usize;
        assert(1 <= body * iterations <= 1024 * 1024) by (nonlinear_arith)
            requires
                1 <= body <= 1024,
                1 <= iterations <= 1024,
        ;
        count = count - 1 + body * iterations;
        if count > 1024 {
            return Err(GraphCompositionError::ExpansionTooLarge);
        }
        insert_new(&mut sites, call);
        proof {
            assert(keys::<GraphSubgraphCall>(models.take(n + 1)) =~= keys::<GraphSubgraphCall>(
                done,
            ).push(models[n].node_id));
        }
    }
    proof {
        assert(models.take(models.len() as int) =~= models);
        assert forall|i: int| 0 <= i < sites@.len() implies call_sound(#[trigger] views(sites@)[i])
            && call_failure(parent@, views(sites@)[i]) is None by {
            assert(sites@.contains(sites@[i]));
        }
    }
    let _count: usize = sites.len();
    Ok(sites)
}

// ---------------------------------------------------------------------------
// Sources
// ---------------------------------------------------------------------------

/// The route of a template and the one it becomes.
pub struct RouteRename {
    source: RouteId,
    generated: RouteId,
}

impl View for RouteRename {
    type V = RenameModel;

    closed spec fn view(&self) -> RenameModel {
        RenameModel { source: self.source@, generated: self.generated@ }
    }
}

impl Keyed for RouteRename {
    open spec fn key_of(model: RenameModel) -> Seq<char> {
        model.source
    }

    open spec fn sound(model: RenameModel) -> bool {
        true
    }

    fn key_text(&self) -> (r: &str) {
        self.source.as_str()
    }
}

/// Where a generated node comes from.
pub struct GraphNodeSource {
    graph: GraphReference,
    node_id: NodeId,
    call_site: NodeId,
    iteration: u16,
    routes: Vec<RouteRename>,
}

impl View for GraphNodeSource {
    type V = SourceModel;

    closed spec fn view(&self) -> SourceModel {
        SourceModel {
            graph: self.graph@,
            node_id: self.node_id@,
            call_site: self.call_site@,
            iteration: self.iteration,
            routes: views(self.routes@),
        }
    }
}

impl GraphNodeSource {
    /// The routes are in order.
    #[verifier::type_invariant]
    pub open spec fn well_formed(&self) -> bool {
        ascending(keys::<RouteRename>(self@.routes))
    }

    /// Returns the template.
    pub fn graph(&self) -> (r: &GraphReference)
        ensures
            r@ == self@.graph,
    {
        &self.graph
    }

    /// Returns the node of the template.
    pub fn node_id(&self) -> (r: &NodeId)
        ensures
            r@ == self@.node_id,
    {
        &self.node_id
    }

    /// Returns the call site in the parent.
    pub fn call_site(&self) -> (r: &NodeId)
        ensures
            r@ == self@.call_site,
    {
        &self.call_site
    }

    /// Returns the iteration, counted from zero.
    pub fn iteration(&self) -> (r: u16)
        ensures
            r == self@.iteration,
    {
        self.iteration
    }

    /// Returns what a route of the template became.
    pub fn route_id(&self, source: &RouteId) -> (r: Option<&RouteId>)
        ensures
            match (r, find::<RouteRename>(self@.routes, source@)) {
                (Some(route), Some(rename)) => route@ == rename.generated,
                (None, None) => true,
                _ => false,
            },
    {
        proof {
            use_type_invariant(self);
        }
        match lookup(self.routes.as_slice(), source.as_str()) {
            Some(rename) => Some(&rename.generated),
            None => None,
        }
    }
}

/// A generated node and where it comes from.
pub struct SourceEntry {
    generated: NodeId,
    source: GraphNodeSource,
}

impl View for SourceEntry {
    type V = EntryModel;

    closed spec fn view(&self) -> EntryModel {
        EntryModel { generated: self.generated@, source: self.source@ }
    }
}

impl SourceEntry {
    /// Returns the generated node.
    pub fn generated(&self) -> (r: &NodeId)
        ensures
            r@ == self@.generated,
    {
        &self.generated
    }

    /// Returns where it comes from.
    pub fn source(&self) -> (r: &GraphNodeSource)
        ensures
            r@ == self@.source,
    {
        &self.source
    }
}

impl Keyed for SourceEntry {
    open spec fn key_of(model: EntryModel) -> Seq<char> {
        model.generated
    }

    open spec fn sound(model: EntryModel) -> bool {
        true
    }

    fn key_text(&self) -> (r: &str) {
        self.generated.as_str()
    }
}

// ---------------------------------------------------------------------------
// Identities
// ---------------------------------------------------------------------------

/// A text that keeps to the grammar of names is accepted.
proof fn name_accepted(text: Seq<char>)
    requires
        0 < text.len() <= 128,
        vstd::utf8::is_ascii_chars(text),
        forall|i: int| 0 <= i < text.len() ==> admits(ByteClass::Name, #[trigger] text[i] as u8),
        crate::text::is_alphanumeric(text[0] as u8),
    ensures
        node_name_sound(text),
{
    ascii_utf8(text);
    let bytes = vstd::utf8::encode_utf8(text);
    first_outside_is_first(bytes, 1, ByteClass::Name);
    let o = crate::text::first_outside(bytes, 1, ByteClass::Name);
    if o < bytes.len() {
        assert(bytes[o] == text[o] as u8);
    }
    assert(bytes[0] == text[0] as u8);
}

proof fn hex_text_is_plain(bytes: Seq<u8>)
    ensures
        hex_text(bytes).len() == 2 * bytes.len(),
        forall|i: int|
            0 <= i < hex_text(bytes).len() ==> '\0' <= #[trigger] hex_text(bytes)[i] <= '\u{7f}'
                && admits(ByteClass::Name, hex_text(bytes)[i] as u8),
{
}

proof fn instance_name_accepted(digest: Seq<u8>, ordinal: int)
    requires
        digest.len() == 32,
        0 <= ordinal,
    ensures
        node_name_sound("skc-"@ + hex_text(digest) + seq!['-'] + four_digits(ordinal)),
{
    reveal_strlit("skc-");
    hex_text_is_plain(digest);
    let hex = hex_text(digest);
    let text = "skc-"@ + hex + seq!['-'] + four_digits(ordinal);
    assert(text.len() == 73);
    assert forall|i: int| 0 <= i < text.len() implies '\0' <= #[trigger] text[i] <= '\u{7f}'
        && admits(ByteClass::Name, text[i] as u8) by {
        if i < 4 {
            assert(text[i] == "skc-"@[i]);
        } else if i < 68 {
            assert(text[i] == hex[i - 4]);
        } else if i == 68 {
            assert(text[i] == '-');
        } else {
            assert(text[i] == four_digits(ordinal)[i - 69]);
        }
    }
    name_accepted(text);
}

proof fn route_name_accepted(digest: Seq<u8>)
    requires
        digest.len() == 32,
    ensures
        node_name_sound("skr-"@ + hex_text(digest)),
{
    reveal_strlit("skr-");
    hex_text_is_plain(digest);
    let hex = hex_text(digest);
    let text = "skr-"@ + hex;
    assert forall|i: int| 0 <= i < text.len() implies '\0' <= #[trigger] text[i] <= '\u{7f}'
        && admits(ByteClass::Name, text[i] as u8) by {
        if i < 4 {
            assert(text[i] == "skr-"@[i]);
        } else {
            assert(text[i] == hex[i - 4]);
        }
    }
    name_accepted(text);
}

/// Writes the hexadecimal digits of a digest.
fn hex_of(digest: &Digest) -> (r: String)
    ensures
        r@ == hex_text(digest@),
{
    let text: String = digest.to_string();
    let bytes = digest.as_bytes();
    let ghost whole = text@;
    let mut out: String = String::new();
    let mut i: usize = 0;
    proof {
        reveal_strlit("sha256:");
        Digest::view_determines(*digest, *digest);
        hex_text_is_plain(digest@);
        assert(whole.len() == 71);
    }
    while i < 64
        invariant
            i <= 64,
            whole == text@,
            whole == digest_text(digest@),
            whole.len() == 71,
            "sha256:"@.len() == 7,
            out@ =~= hex_text(digest@).take(i as int),
            hex_text(digest@).len() == 64,
        decreases 64 - i,
    {
        out.push(text.as_str().get_char(i + 7));
        proof {
            assert(whole[i + 7] == hex_text(digest@)[i as int]);
            assert(hex_text(digest@).take(i + 1) =~= hex_text(digest@).take(i as int).push(
                hex_text(digest@)[i as int],
            ));
        }
        i = i + 1;
    }
    assert(hex_text(digest@).take(64) =~= hex_text(digest@));
    out
}

/// Writes a number below ten thousand in four digits.
fn push_four_digits(out: &mut String, n: usize)
    requires
        n < 10000,
    ensures
        final(out)@ == old(out)@ + four_digits(n as int),
{
    let ghost before = out@;
    out.push((48 + (n / 1000 % 10) as u8) as char);
    out.push((48 + (n / 100 % 10) as u8) as char);
    out.push((48 + (n / 10 % 10) as u8) as char);
    out.push((48 + (n % 10) as u8) as char);
    assert(out@ =~= before + four_digits(n as int));
}

impl GraphSubgraphCall {
    /// Writes the JSON form of the return bindings.
    fn bindings_value(&self) -> (r: JsonValue)
        ensures
            r@ == bindings_json(self@.return_routes),
    {
        let mut members: Vec<JsonMember> = Vec::new();
        let mut i: usize = 0;
        while i < self.return_routes.len()
            invariant
                i <= self.return_routes@.len(),
                members@.len() == i,
                forall|k: int|
                    0 <= k < i ==> (#[trigger] members@[k])@ == (Member {
                        name: self.return_routes@[k]@.port,
                        value: Json::Text(self.return_routes@[k]@.route),
                    }),
            decreases self.return_routes@.len() - i,
        {
            let binding = &self.return_routes[i];
            members.push(
                JsonMember::new(binding.port.as_str(), JsonValue::text(binding.route.as_str())),
            );
            i = i + 1;
        }
        let r = JsonValue::object(members);
        assert(r@->Object_0 =~= bindings_json(self@.return_routes)->Object_0);
        r
    }

    /// Writes what the identities of one iteration are computed of.
    fn scope_value(&self, parent: &CompiledGraph, iteration: u16) -> (r: JsonValue)
        ensures
            r@ == scope_json(parent@, self@, iteration),
    {
        let repeat_port = match &self.repeat_port {
            Some(port) => JsonValue::text(port.as_str()),
            None => JsonValue::Null,
        };
        let members = vec![
            JsonMember::new("domain", JsonValue::text("stateknot.graph-composition.v1")),
            JsonMember::new("parent", parent.reference().to_json()),
            JsonMember::new("graph", self.subgraph.graph().reference().to_json()),
            JsonMember::new("call_site", JsonValue::text(self.node_id.as_str())),
            JsonMember::new(
                "iteration",
                JsonValue::Number(JsonNumber::from_u64(iteration as u64)),
            ),
            JsonMember::new(
                "maximum_iterations",
                JsonValue::Number(JsonNumber::from_u64(self.maximum_iterations as u64)),
            ),
            JsonMember::new("repeat_port", repeat_port),
            JsonMember::new("return_routes", self.bindings_value()),
        ];
        let r = JsonValue::object(members);
        assert(r@->Object_0 =~= scope_json(parent@, self@, iteration)->Object_0);
        r
    }
}

/// Computes the identity of a route of a generated node.
fn generate_route(generated: &NodeId, route_id: &RouteId) -> (r: Result<
    RouteId,
    GraphCompositionError,
>)
    ensures
        match (r, route_name(generated@, route_id@)) {
            (Ok(route), Some(name)) => route@ == name,
            (Err(e), None) => e@ == CompositionFailure::CanonicalSerialization,
            _ => false,
        },
{
    let members = vec![
        JsonMember::new("domain", JsonValue::text("stateknot.graph-composition.route.v1")),
        JsonMember::new("node_id", JsonValue::text(generated.as_str())),
        JsonMember::new("route_id", JsonValue::text(route_id.as_str())),
    ];
    let scope = JsonValue::object(members);
    assert(scope@->Object_0 =~= route_scope_json(generated@, route_id@)->Object_0);
    let domain: [u8; 0] = [];
    assert(domain@ =~= Seq::<u8>::empty());
    let digest = match domain_separated_digest(domain.as_slice(), &scope) {
        Some(digest) => digest,
        None => {
            return Err(GraphCompositionError::CanonicalSerialization);
        },
    };
    let mut text: String = "skr-".to_owned();
    let hex: String = hex_of(&digest);
    text.append(hex.as_str());
    proof {
        Digest::view_determines(digest, digest);
        route_name_accepted(digest@);
    }
    match RouteId::new(text.as_str()) {
        Ok(route) => Ok(route),
        Err(_) => Err(GraphCompositionError::CanonicalSerialization),
    }
}

/// Computes what a node of a template becomes in one iteration of a call.
fn lower_identity(
    parent: &CompiledGraph,
    call: &GraphSubgraphCall,
    node: &GraphNode,
    iteration: u16,
    ordinal: usize,
) -> (r: Result<SourceEntry, GraphCompositionError>)
    requires
        ordinal < call@.subgraph.graph.nodes.len(),
        node@ == call@.subgraph.graph.nodes[ordinal as int],
    ensures
        match (r, lowered(parent@, call@, iteration, ordinal as int)) {
            (Ok(entry), Some(model)) => entry@ == model,
            (Err(e), None) => e@ == CompositionFailure::CanonicalSerialization,
            _ => false,
        },
{
    proof {
        use_type_invariant(call);
        use_type_invariant(node);
    }
    let domain: [u8; 0] = [];
    assert(domain@ =~= Seq::<u8>::empty());
    let digest = match domain_separated_digest(
        domain.as_slice(),
        &call.scope_value(parent, iteration),
    ) {
        Some(digest) => digest,
        None => {
            return Err(GraphCompositionError::CanonicalSerialization);
        },
    };
    let mut text: String = "skc-".to_owned();
    let hex: String = hex_of(&digest);
    text.append(hex.as_str());
    text.push('-');
    push_four_digits(&mut text, ordinal);
    proof {
        Digest::view_determines(digest, digest);
        instance_name_accepted(digest@, ordinal as int);
        assert(text@ =~= "skc-"@ + hex_text(digest@) + seq!['-'] + four_digits(ordinal as int));
    }
    let generated = match NodeId::new(text.as_str()) {
        Ok(generated) => generated,
        Err(_) => {
            return Err(GraphCompositionError::CanonicalSerialization);
        },
    };
    let ghost name = generated@;
    let routes = node.routes().iter();
    let ghost models = node@.routes;
    let mut renamed_routes: Vec<RouteRename> = Vec::new();
    let mut i: usize = 0;
    assert(views(renamed_routes@) =~= Seq::<RenameModel>::empty());
    while i < routes.len()
        invariant
            name == generated@,
            Some(name) == instance_name(parent@, call@, iteration, ordinal as int),
            models == node@.routes,
            node@ == call@.subgraph.graph.nodes[ordinal as int],
            views(routes@) == models,
            routes@.len() == models.len(),
            i <= routes@.len(),
            renames(name, models, i as nat) == Some(views(renamed_routes@)),
            renamed_routes@.len() == i,
            forall|k: int|
                0 <= k < i ==> (#[trigger] renamed_routes@[k])@.source == models[k].route_id,
        decreases routes@.len() - i,
    {
        let route_id = routes[i].route_id();
        assert(models[i as int] == routes@[i as int]@);
        match generate_route(&generated, route_id) {
            Ok(route) => {
                let ghost before = views(renamed_routes@);
                renamed_routes.push(RouteRename { source: route_id.clone(), generated: route });
                assert(views(renamed_routes@) =~= before.push(
                    RenameModel { source: models[i as int].route_id, generated: route@ },
                ));
            },
            Err(e) => {
                proof {
                    renames_stop(name, models, (i + 1) as nat, models.len());
                }
                return Err(e);
            },
        }
        i = i + 1;
    }
    proof {
        let sources = keys::<RouteRename>(views(renamed_routes@));
        assert(sources =~= keys::<GraphRoute>(models));
    }
    let source = GraphNodeSource {
        graph: call.subgraph.graph().reference(),
        node_id: node.node_id().clone(),
        call_site: call.node_id.clone(),
        iteration,
        routes: renamed_routes,
    };
    Ok(SourceEntry { generated, source })
}

proof fn renames_stop(generated: Seq<char>, routes: Seq<RouteModel>, n: nat, m: nat)
    requires
        0 < n <= m <= routes.len(),
        renames(generated, routes, n) is None,
    ensures
        renames(generated, routes, m) is None,
    decreases m,
{
    if n < m {
        renames_stop(generated, routes, n, (m - 1) as nat);
    }
}

// ---------------------------------------------------------------------------
// Copies
// ---------------------------------------------------------------------------

/// The copy is one of a node of the body in a valid iteration.
pub open spec fn slot_valid(sites: Seq<CallModel>, slot: Slot) -> bool {
    let call = sites[slot.site as int];
    &&& slot.site < sites.len()
    &&& slot.iteration < call.maximum_iterations
    &&& slot.ordinal < call.subgraph.graph.nodes.len()
    &&& !call.subgraph.ports.contains(call.subgraph.graph.nodes[slot.ordinal as int].node_id)
}

/// Lists the copies of one iteration of a call.
fn list_iteration(sites: &Vec<GraphSubgraphCall>, site: usize, iteration: u16, out: &mut Vec<Slot>)
    requires
        site < sites@.len(),
        iteration < views(sites@)[site as int].maximum_iterations,
        forall|k: int| 0 <= k < old(out)@.len() ==> slot_valid(views(sites@), #[trigger] old(out)@[k]),
    ensures
        final(out)@ == old(out)@ + iteration_slots(
            views(sites@)[site as int],
            site,
            iteration,
            views(sites@)[site as int].subgraph.graph.nodes.len(),
        ),
        forall|k: int| 0 <= k < final(out)@.len() ==> slot_valid(views(sites@), #[trigger] final(out)@[k]),
{
    let call = &sites[site];
    let ghost model = views(sites@)[site as int];
    let ghost before = out@;
    let nodes = call.subgraph.graph().nodes();
    let mut n: usize = 0;
    assert(out@ =~= before + iteration_slots(model, site, iteration, 0));
    while n < nodes.len()
        invariant
            site < sites@.len(),
            model == views(sites@)[site as int],
            call@ == model,
            iteration < model.maximum_iterations,
            views(nodes@) == model.subgraph.graph.nodes,
            nodes@.len() == model.subgraph.graph.nodes.len(),
            n <= nodes@.len(),
            out@ == before + iteration_slots(model, site, iteration, n as nat),
            forall|k: int| 0 <= k < out@.len() ==> slot_valid(views(sites@), #[trigger] out@[k]),
        decreases nodes@.len() - n,
    {
        assert(model.subgraph.graph.nodes[n as int] == nodes@[n as int]@);
        if !call.subgraph.is_port(nodes[n].node_id()) {
            out.push(Slot { site, iteration, ordinal: n });
        }
        assert(out@ =~= before + iteration_slots(model, site, iteration, (n + 1) as nat));
        n = n + 1;
    }
}

/// Lists all copies.
fn list_slots(sites: &Vec<GraphSubgraphCall>) -> (r: Vec<Slot>)
    ensures
        r@ == all_slots(views(sites@), sites@.len()),
        forall|k: int| 0 <= k < r@.len() ==> slot_valid(views(sites@), #[trigger] r@[k]),
{
    let ghost models = views(sites@);
    let mut out: Vec<Slot> = Vec::new();
    let mut s: usize = 0;
    assert(out@ =~= all_slots(models, 0));
    while s < sites.len()
        invariant
            models == views(sites@),
            s <= sites@.len(),
            out@ == all_slots(models, s as nat),
            forall|k: int| 0 <= k < out@.len() ==> slot_valid(models, #[trigger] out@[k]),
        decreases sites@.len() - s,
    {
        let ghost before = out@;
        let iterations: u16 = sites[s].maximum_iterations;
        assert(iterations == models[s as int].maximum_iterations);
        let mut it: u16 = 0;
        assert(out@ =~= before + site_slots(models[s as int], s, 0));
        while it < iterations
            invariant
                models == views(sites@),
                s < sites@.len(),
                iterations == models[s as int].maximum_iterations,
                it <= iterations,
                out@ == before + site_slots(models[s as int], s, it as nat),
                forall|k: int| 0 <= k < out@.len() ==> slot_valid(models, #[trigger] out@[k]),
            decreases iterations - it,
        {
            list_iteration(sites, s, it, &mut out);
            assert(out@ =~= before + site_slots(models[s as int], s, (it + 1) as nat));
            it = it + 1;
        }
        s = s + 1;
    }
    out
}

proof fn iteration_slot_listed(call: CallModel, slot: Slot, n: nat)
    requires
        slot.ordinal < n <= usize::MAX,
        !call.subgraph.ports.contains(call.subgraph.graph.nodes[slot.ordinal as int].node_id),
    ensures
        iteration_slots(call, slot.site, slot.iteration, n).contains(slot),
    decreases n,
{
    let all = iteration_slots(call, slot.site, slot.iteration, n);
    if slot.ordinal == n - 1 {
        assert(all.last() == slot);
    } else {
        iteration_slot_listed(call, slot, (n - 1) as nat);
        let front = iteration_slots(call, slot.site, slot.iteration, (n - 1) as nat);
        let k = choose|k: int| 0 <= k < front.len() && front[k] == slot;
        assert(all[k] == slot);
    }
}

proof fn site_slot_listed(call: CallModel, slot: Slot, n: nat)
    requires
        slot.iteration < n <= 65535,
        slot.ordinal < call.subgraph.graph.nodes.len() <= usize::MAX,
        !call.subgraph.ports.contains(call.subgraph.graph.nodes[slot.ordinal as int].node_id),
    ensures
        site_slots(call, slot.site, n).contains(slot),
    decreases n,
{
    let all = site_slots(call, slot.site, n);
    let front = site_slots(call, slot.site, (n - 1) as nat);
    if slot.iteration == n - 1 {
        let last = iteration_slots(
            call,
            slot.site,
            slot.iteration,
            call.subgraph.graph.nodes.len(),
        );
        iteration_slot_listed(call, slot, call.subgraph.graph.nodes.len());
        let k = choose|k: int| 0 <= k < last.len() && last[k] == slot;
        assert(all[front.len() + k] == slot);
    } else {
        site_slot_listed(call, slot, (n - 1) as nat);
        let k = choose|k: int| 0 <= k < front.len() && front[k] == slot;
        assert(all[k] == slot);
    }
}

pub(crate) proof fn slot_listed(sites: Seq<CallModel>, slot: Slot, n: nat)
    requires
        slot_valid(sites, slot),
        slot.site < n <= sites.len() <= usize::MAX,
        sites[slot.site as int].subgraph.graph.nodes.len() <= usize::MAX,
    ensures
        all_slots(sites, n).contains(slot),
    decreases n,
{
    let all = all_slots(sites, n);
    let front = all_slots(sites, (n - 1) as nat);
    if slot.site == n - 1 {
        let call = sites[n - 1];
        let last = site_slots(call, slot.site, call.maximum_iterations as nat);
        site_slot_listed(call, slot, call.maximum_iterations as nat);
        let k = choose|k: int| 0 <= k < last.len() && last[k] == slot;
        assert(all[front.len() + k] == slot);
    } else {
        slot_listed(sites, slot, (n - 1) as nat);
        let k = choose|k: int| 0 <= k < front.len() && front[k] == slot;
        assert(all[k] == slot);
    }
}

proof fn lowered_slots_stop(parent: GraphModel, sites: Seq<CallModel>, slots: Seq<Slot>, n: int)
    requires
        0 <= n <= slots.len(),
        lowered_slots(parent, sites, slots.take(n)) is Err,
    ensures
        lowered_slots(parent, sites, slots) == lowered_slots(parent, sites, slots.take(n)),
    decreases slots.len(),
{
    if n == slots.len() {
        assert(slots.take(n) =~= slots);
    } else {
        assert(slots.drop_last().take(n) =~= slots.take(n));
        lowered_slots_stop(parent, sites, slots.drop_last(), n);
    }
}

/// The entries are what the copies become.
pub open spec fn entries_of_slots(
    parent: GraphModel,
    sites: Seq<CallModel>,
    slots: Seq<Slot>,
    entries: Seq<EntryModel>,
) -> bool {
    &&& entries.len() == slots.len()
    &&& forall|k: int|
        0 <= k < slots.len() ==> lowered_slot(parent, sites, #[trigger] slots[k]) == Some(entries[k])
}

/// Computes what all copies become.
fn lower_slots(parent: &CompiledGraph, sites: &Vec<GraphSubgraphCall>, slots: &Vec<Slot>) -> (r:
    Result<Vec<SourceEntry>, GraphCompositionError>)
    requires
        forall|k: int| 0 <= k < slots@.len() ==> slot_valid(views(sites@), #[trigger] slots@[k]),
    ensures
        match (r, lowered_slots(parent@, views(sites@), slots@)) {
            (Ok(entries), Ok(models)) => views(entries@) == models && entry_names(
                models,
            ).no_duplicates() && entries_of_slots(parent@, views(sites@), slots@, models),
            (Err(e), Err(expected)) => e@ == expected,
            _ => false,
        },
{
    let ghost models = views(sites@);
    let mut entries: Vec<SourceEntry> = Vec::new();
    let mut taken: Vec<NodeId> = Vec::new();
    let mut i: usize = 0;
    proof {
        assert(slots@.take(0) =~= Seq::<Slot>::empty());
        assert(views(entries@) =~= Seq::<EntryModel>::empty());
        assert(entry_names(views(entries@)) =~= Seq::<Seq<char>>::empty());
        assert(keys::<NodeId>(views(taken@)) =~= Seq::<Seq<char>>::empty());
    }
    while i < slots.len()
        invariant
            models == views(sites@),
            forall|k: int| 0 <= k < slots@.len() ==> slot_valid(models, #[trigger] slots@[k]),
            i <= slots@.len(),
            entries@.len() == i,
            lowered_slots(parent@, models, slots@.take(i as int)) == Ok::<
                Seq<EntryModel>,
                CompositionFailure,
            >(views(entries@)),
            entries_of_slots(parent@, models, slots@.take(i as int), views(entries@)),
            entry_names(views(entries@)).no_duplicates(),
            ascending(keys::<NodeId>(views(taken@))),
            forall|name: Seq<char>| #[trigger]
                keys::<NodeId>(views(taken@)).contains(name) <==> entry_names(
                    views(entries@),
                ).contains(name),
        decreases slots@.len() - i,
    {
        let slot = slots[i];
        let ghost done = views(entries@);
        let ghost names = entry_names(done);
        let ghost prefix = slots@.take(i + 1);
        proof {
            assert(prefix.drop_last() =~= slots@.take(i as int));
            assert(prefix.last() == slot);
            if lowered_slots(parent@, models, prefix) is Err {
                lowered_slots_stop(parent@, models, slots@, i + 1);
            }
            assert(slot_valid(models, slot));
        }
        let call = &sites[slot.site];
        let nodes = call.subgraph.graph().nodes();
        assert(call@ == models[slot.site as int]);
        assert(nodes@[slot.ordinal as int]@ == call@.subgraph.graph.nodes[slot.ordinal as int]);
        let entry = lower_identity(parent, call, &nodes[slot.ordinal], slot.iteration, slot.ordinal)?;
        if parent.node(&entry.generated).is_some() {
            return Err(GraphCompositionError::IdentityCollision);
        }
        let ghost model = entry@;
        if !insert_new(&mut taken, entry.generated.clone()) {
            return Err(GraphCompositionError::IdentityCollision);
        }
        entries.push(entry);
        proof {
            let after = views(entries@);
            assert(after =~= done.push(model));
            let more = entry_names(after);
            assert(more =~= names.push(model.generated));
            assert forall|name: Seq<char>| #[trigger]
                keys::<NodeId>(views(taken@)).contains(name) <==> more.contains(name) by {
                if names.contains(name) {
                    let k = choose|k: int| 0 <= k < names.len() && names[k] == name;
                    assert(more[k] == name);
                }
                if more.contains(name) {
                    let k = choose|k: int| 0 <= k < more.len() && more[k] == name;
                    if k < names.len() {
                        assert(names[k] == name);
                    }
                }
                assert(more[names.len() as int] == model.generated);
            }
            assert forall|k: int| 0 <= k < prefix.len() implies lowered_slot(
                parent@,
                models,
                #[trigger] prefix[k],
            ) == Some(after[k]) by {
                if k < i {
                    assert(prefix[k] == slots@.take(i as int)[k]);
                }
            }
        }
        i = i + 1;
    }
    assert(slots@.take(i as int) =~= slots@);
    Ok(entries)
}

// ---------------------------------------------------------------------------
// Ready sets
// ---------------------------------------------------------------------------

/// What `distinct_sorted` says.
pub proof fn distinct_sorted_is_sorted(names: Seq<Seq<char>>)
    ensures
        ascending(distinct_sorted(names)),
        distinct_sorted(names).len() <= names.len(),
        forall|name: Seq<char>| #[trigger]
            distinct_sorted(names).contains(name) <==> names.contains(name),
    decreases names.len(),
{
    if names.len() > 0 {
        let front = names.drop_last();
        distinct_sorted_is_sorted(front);
        let done = distinct_sorted(front);
        node_keys(done);
        if !done.contains(names.last()) {
            placed_keeps_order::<NodeId>(done, names.last());
            node_keys(placed::<NodeId>(done, names.last()));
        }
        assert forall|name: Seq<char>| #[trigger] distinct_sorted(names).contains(name)
            <==> names.contains(name) by {
            assert(done.contains(name) <==> front.contains(name));
            if front.contains(name) {
                let k = choose|k: int| 0 <= k < front.len() && front[k] == name;
                assert(names[k] == name);
            }
            if names.contains(name) {
                let k = choose|k: int| 0 <= k < names.len() && names[k] == name;
                if k < front.len() {
                    assert(front[k] == name);
                }
            }
            assert(names[names.len() - 1] == names.last());
        }
    }
}

proof fn distinct_sorted_grows(names: Seq<Seq<char>>, n: int)
    requires
        0 <= n <= names.len(),
    ensures
        distinct_sorted(names.take(n)).len() <= distinct_sorted(names).len(),
    decreases names.len(),
{
    if n == names.len() {
        assert(names.take(n) =~= names);
    } else {
        assert(names.drop_last().take(n) =~= names.take(n));
        distinct_sorted_grows(names.drop_last(), n);
        let done = distinct_sorted(names.drop_last());
        distinct_sorted_is_sorted(names.drop_last());
        node_keys(done);
        if !done.contains(names.last()) {
            placed_keeps_order::<NodeId>(done, names.last());
        }
    }
}

/// Makes a ready set of names, each once.
pub(crate) fn ready(names: &Vec<NodeId>) -> (r: Result<ReadyNodes, GraphCompositionError>)
    ensures
        match (r, ready_set(views(names@))) {
            (Ok(ready), Some(set)) => ready@ == set,
            (Err(e), None) => e@ == CompositionFailure::ExpansionTooLarge,
            _ => false,
        },
{
    let ghost models = views(names@);
    let mut unique: Vec<NodeId> = Vec::new();
    let mut i: usize = 0;
    proof {
        assert(models.take(0) =~= Seq::<Seq<char>>::empty());
        assert(views(unique@) =~= distinct_sorted(models.take(0)));
    }
    while i < names.len()
        invariant
            models == views(names@),
            i <= names@.len(),
            unique@.len() <= 1024,
            views(unique@) == distinct_sorted(models.take(i as int)),
        decreases names@.len() - i,
    {
        proof {
            assert(models[i as int] == names@[i as int]@);
            assert(models.take(i + 1).drop_last() =~= models.take(i as int));
            distinct_sorted_is_sorted(models.take(i as int));
            node_keys(views(unique@));
            distinct_sorted_grows(models, i + 1);
        }
        insert_new(&mut unique, names[i].clone());
        assert(unique@.len() == views(unique@).len());
        if unique.len() > 1024 {
            return Err(GraphCompositionError::ExpansionTooLarge);
        }
        i = i + 1;
    }
    proof {
        assert(models.take(i as int) =~= models);
        distinct_sorted_is_sorted(models);
        let set = views(unique@);
        node_keys(set);
        arranged_of_ascending::<NodeId>(set);
        ascending_distinct(set);
        crate::ordered::first_repeat_is_first(set);
        assert(set.len() == unique@.len());
    }
    match ReadyNodes::try_new(unique) {
        Ok(ready) => Ok(ready),
        Err(_) => Err(GraphCompositionError::ExpansionTooLarge),
    }
}

impl GraphSubgraphCall {
    /// Returns the call site.
    pub fn node_id(&self) -> (r: &NodeId)
        ensures
            r@ == self@.node_id,
            self.well_formed(),
    {
        proof {
            use_type_invariant(self);
        }
        &self.node_id
    }

    /// Returns the template.
    pub fn subgraph(&self) -> (r: &SharedStateSubgraph)
        ensures
            r@ == self@.subgraph,
            self.well_formed(),
    {
        proof {
            use_type_invariant(self);
        }
        &self.subgraph
    }

    /// Returns the maximum number of iterations.
    pub fn maximum_iterations(&self) -> (r: u16)
        ensures
            r == self@.maximum_iterations,
            self.well_formed(),
    {
        proof {
            use_type_invariant(self);
        }
        self.maximum_iterations
    }

    /// Returns the port to repeat at.
    pub fn repeat_port(&self) -> (r: Option<&NodeId>)
        ensures
            option_ref_view(r) == self@.repeat_port,
    {
        self.repeat_port.as_ref()
    }
}

impl Clone for GraphSubgraphCall {
    fn clone(&self) -> (r: Self)
        ensures
            r@ == self@,
    {
        proof {
            use_type_invariant(self);
        }
        let mut return_routes: Vec<ReturnBinding> = Vec::new();
        let mut i: usize = 0;
        while i < self.return_routes.len()
            invariant
                i <= self.return_routes@.len(),
                return_routes@.len() == i,
                forall|j: int|
                    0 <= j < i ==> (#[trigger] return_routes@[j])@ == self.return_routes@[j]@,
            decreases self.return_routes@.len() - i,
        {
            let binding = &self.return_routes[i];
            return_routes.push(
                ReturnBinding { port: binding.port.clone(), route: binding.route.clone() },
            );
            i = i + 1;
        }
        assert(views(return_routes@) =~= views(self.return_routes@));
        let repeat_port = match &self.repeat_port {
            Some(port) => Some(port.clone()),
            None => None,
        };
        GraphSubgraphCall {
            node_id: self.node_id.clone(),
            subgraph: self.subgraph.clone(),
            maximum_iterations: self.maximum_iterations,
            repeat_port,
            return_routes,
        }
    }
}

/// The sites are those of valid calls, in order.
pub closed spec fn sites_valid(parent: GraphModel, sites: Seq<CallModel>) -> bool {
    &&& ascending(keys::<GraphSubgraphCall>(sites))
    &&& sites.len() <= usize::MAX
    &&& forall|i: int|
        0 <= i < sites.len() ==> call_sound(#[trigger] sites[i]) && call_failure(
            parent,
            sites[i],
        ) is None
}

/// The copies are all there are, and the entries are what they become.
pub closed spec fn copies_valid(
    parent: GraphModel,
    sites: Seq<CallModel>,
    slots: Seq<Slot>,
    lowered: Seq<EntryModel>,
) -> bool {
    &&& sites_valid(parent, sites)
    &&& slots == all_slots(sites, sites.len())
    &&& forall|k: int| 0 <= k < slots.len() ==> slot_valid(sites, #[trigger] slots[k])
    &&& entries_of_slots(parent, sites, slots, lowered)
}

/// The sites of copies are in order, valid and not too many.
pub proof fn copies_have_sites(
    parent: GraphModel,
    sites: Seq<CallModel>,
    slots: Seq<Slot>,
    lowered: Seq<EntryModel>,
)
    requires
        copies_valid(parent, sites, slots, lowered),
    ensures
        ascending(keys::<GraphSubgraphCall>(sites)),
        forall|i: int|
            0 <= i < sites.len() ==> call_sound(#[trigger] sites[i]) && find::<GraphNode>(
                parent.nodes,
                sites[i].node_id,
            ) is Some,
        forall|k: int| 0 <= k < slots.len() ==> slot_valid(sites, #[trigger] slots[k]),
{
    assert forall|i: int| 0 <= i < sites.len() implies call_sound(#[trigger] sites[i]) && find::<
        GraphNode,
    >(parent.nodes, sites[i].node_id) is Some by {
        assert(call_failure(parent, sites[i]) is None);
    }
}

/// Finds what a copy became.
pub(crate) fn find_copy<'a>(
    parent: Ghost<GraphModel>,
    sites: Ghost<Seq<CallModel>>,
    slots: &Vec<Slot>,
    lowered: &'a Vec<SourceEntry>,
    slot: Slot,
) -> (r: &'a SourceEntry)
    requires
        copies_valid(parent@, sites@, slots@, views(lowered@)),
        slot_valid(sites@, slot),
    ensures
        lowered_slot(parent@, sites@, slot) == Some(r@),
{
    proof {
        assert(call_sound(sites@[slot.site as int]));
        slot_listed(sites@, slot, sites@.len());
    }
    let mut k: usize = 0;
    while k < slots.len()
        invariant
            copies_valid(parent@, sites@, slots@, views(lowered@)),
            slots@.contains(slot),
            k <= slots@.len(),
            forall|j: int| 0 <= j < k ==> #[trigger] slots@[j] != slot,
        decreases slots@.len() - k,
    {
        assert(views(lowered@).len() == slots@.len());
        if slots[k] == slot {
            assert(lowered_slot(parent@, sites@, slots@[k as int]) == Some(views(lowered@)[k as int]));
            return &lowered[k];
        }
        k = k + 1;
    }
    proof {
        let j = choose|j: int| 0 <= j < slots@.len() && slots@[j] == slot;
        assert(slots@[j] != slot);
    }
    &lowered[0]
}

/// Computes all copies and what they become.
pub(crate) fn lower(parent: &CompiledGraph, sites: &Vec<GraphSubgraphCall>) -> (r: Result<
    (Vec<Slot>, Vec<SourceEntry>),
    GraphCompositionError,
>)
    requires
        sites_valid(parent@, views(sites@)),
    ensures
        match (
            r,
            lowered_slots(parent@, views(sites@), all_slots(views(sites@), views(sites@).len())),
        ) {
            (Ok((slots, lowered)), Ok(models)) => {
                &&& slots@ == all_slots(views(sites@), views(sites@).len())
                &&& views(lowered@) == models
                &&& entry_names(models).no_duplicates()
                &&& copies_valid(parent@, views(sites@), slots@, models)
            },
            (Err(e), Err(expected)) => e@ == expected,
            _ => false,
        },
{
    let slots = list_slots(sites);
    let lowered = lower_slots(parent, sites, &slots)?;
    Ok((slots, lowered))
}

// ---------------------------------------------------------------------------
// Debug output
// ---------------------------------------------------------------------------

/// What is shown of return bindings.
pub open spec fn binding_texts(models: Seq<BindingModel>, alternate: bool) -> Seq<Seq<char>> {
    Seq::new(
        models.len(),
        |i: int|
            entry_text(
                name_text("NodeId"@, models[i].port, alternate),
                name_text("RouteId"@, models[i].route, alternate),
            ),
    )
}

fn binding_strings(items: &[ReturnBinding], alternate: bool) -> (r: Vec<String>)
    ensures
        texts(r@) == binding_texts(views(items@), alternate),
{
    let ghost shown = binding_texts(views(items@), alternate);
    let mut out: Vec<String> = Vec::new();
    let mut i: usize = 0;
    while i < items.len()
        invariant
            i <= items@.len(),
            shown == binding_texts(views(items@), alternate),
            out@.len() == i,
            forall|j: int| 0 <= j < i ==> (#[trigger] out@[j])@ == shown[j],
        decreases items@.len() - i,
    {
        let item = &items[i];
        out.push(entry_string(
            item.port.debug_text(alternate).as_str(),
            item.route.debug_text(alternate),
        ));
        i = i + 1;
    }
    assert(texts(out@) =~= shown);
    out
}

/// What is shown of routes and what they become.
pub open spec fn rename_texts(models: Seq<RenameModel>, alternate: bool) -> Seq<Seq<char>> {
    Seq::new(
        models.len(),
        |i: int|
            entry_text(
                name_text("RouteId"@, models[i].source, alternate),
                name_text("RouteId"@, models[i].generated, alternate),
            ),
    )
}

fn rename_strings(items: &[RouteRename], alternate: bool) -> (r: Vec<String>)
    ensures
        texts(r@) == rename_texts(views(items@), alternate),
{
    let ghost shown = rename_texts(views(items@), alternate);
    let mut out: Vec<String> = Vec::new();
    let mut i: usize = 0;
    while i < items.len()
        invariant
            i <= items@.len(),
            shown == rename_texts(views(items@), alternate),
            out@.len() == i,
            forall|j: int| 0 <= j < i ==> (#[trigger] out@[j])@ == shown[j],
        decreases items@.len() - i,
    {
        let item = &items[i];
        out.push(entry_string(
            item.source.debug_text(alternate).as_str(),
            item.generated.debug_text(alternate),
        ));
        i = i + 1;
    }
    assert(texts(out@) =~= shown);
    out
}

/// The fields that are shown of a call.
pub open spec fn call_fields(model: CallModel, alternate: bool) -> Seq<Seq<char>> {
    seq![
        entry_text("node_id"@, name_text("NodeId"@, model.node_id, alternate)),
        entry_text("subgraph"@, subgraph_shown(model.subgraph, alternate)),
        entry_text("maximum_iterations"@, decimal_text(model.maximum_iterations as nat)),
        entry_text("repeat_port"@, option_name_text("NodeId"@, model.repeat_port, alternate)),
        entry_text(
            "return_routes"@,
            map_text(binding_texts(model.return_routes, alternate), alternate),
        ),
    ]
}

/// What is shown of a call.
pub open spec fn call_shown(model: CallModel, alternate: bool) -> Seq<char> {
    struct_text("GraphSubgraphCall"@, call_fields(model, alternate), false, alternate)
}

impl GraphSubgraphCall {
    /// Returns what is shown of it for debugging.
    pub fn debug_text(&self, alternate: bool) -> (r: String)
        ensures
            r@ == call_shown(self@, alternate),
    {
        let repeat_port: Option<String> = match &self.repeat_port {
            Some(port) => Some(port.debug_text(alternate)),
            None => None,
        };
        let fields = vec![
            entry_string("node_id", self.node_id.debug_text(alternate)),
            entry_string("subgraph", self.subgraph.debug_text(alternate)),
            entry_string("maximum_iterations", number_string(self.maximum_iterations as usize)),
            entry_string("repeat_port", option_string(repeat_port, alternate)),
            entry_string(
                "return_routes",
                map_string(&binding_strings(self.return_routes.as_slice(), alternate), alternate),
            ),
        ];
        assert(texts(fields@) =~= call_fields(self@, alternate));
        struct_string("GraphSubgraphCall", &fields, false, alternate)
    }
}

impl core::fmt::Debug for GraphSubgraphCall {
    fn fmt(&self, formatter: &mut core::fmt::Formatter<'_>) -> core::fmt::Result {
        let alternate: bool = is_alternate(formatter);
        write_text(formatter, self.debug_text(alternate).as_str())
    }
}

/// The fields that are shown of where a node comes from.
pub open spec fn source_model_fields(model: SourceModel, alternate: bool) -> Seq<Seq<char>> {
    seq![
        entry_text("graph"@, graph_reference_shown(model.graph, alternate)),
        entry_text("node_id"@, name_text("NodeId"@, model.node_id, alternate)),
        entry_text("call_site"@, name_text("NodeId"@, model.call_site, alternate)),
        entry_text("iteration"@, decimal_text(model.iteration as nat)),
        entry_text("routes"@, map_text(rename_texts(model.routes, alternate), alternate)),
    ]
}

/// What is shown of where a node comes from.
pub open spec fn source_model_shown(model: SourceModel, alternate: bool) -> Seq<char> {
    struct_text("GraphNodeSource"@, source_model_fields(model, alternate), false, alternate)
}

impl GraphNodeSource {
    /// Returns what is shown of it for debugging.
    pub fn debug_text(&self, alternate: bool) -> (r: String)
        ensures
            r@ == source_model_shown(self@, alternate),
    {
        let fields = vec![
            entry_string("graph", self.graph.debug_text(alternate)),
            entry_string("node_id", self.node_id.debug_text(alternate)),
            entry_string("call_site", self.call_site.debug_text(alternate)),
            entry_string("iteration", number_string(self.iteration as usize)),
            entry_string(
                "routes",
                map_string(&rename_strings(self.routes.as_slice(), alternate), alternate),
            ),
        ];
        assert(texts(fields@) =~= source_model_fields(self@, alternate));
        struct_string("GraphNodeSource", &fields, false, alternate)
    }
}

impl core::fmt::Debug for GraphNodeSource {
    fn fmt(&self, formatter: &mut core::fmt::Formatter<'_>) -> core::fmt::Result {
        let alternate: bool = is_alternate(formatter);
        write_text(formatter, self.debug_text(alternate).as_str())
    }
}

} // verus!
