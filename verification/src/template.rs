//! Subgraph templates: finite graphs with explicit return ports.

use vstd::prelude::*;

use crate::debug::{
    entry_string, entry_text, is_alternate, map_string, map_text, struct_string, struct_text,
    write_text,
};
use crate::graph::{graph_shown, graph_sound, CompiledGraph, GraphModel};
use crate::graph_node::NodeModel;
use crate::graph_shape::{
    adjacency_is_faithful, build_adjacency, first_failure, is_path, known_successors, node_names,
    CompileFailure, GraphCompileError,
};
use crate::names::NodeId;
use crate::ordered::{ascending, holds, views};
use crate::ready::{copy_nodes, node_keys, node_strings, node_texts};
use crate::text::texts;
use crate::walks::{after_cycle, is_walk, repeats, settle, walk_of_length};

verus! {

/// Rejected composition.
#[derive(Debug, PartialEq, Eq)]
pub enum GraphCompositionError {
    /// A return port can also select other outcomes.
    MixedReturnPort { node_id: NodeId },
    /// The template has no return port.
    MissingReturnPorts,
    /// An entry node is a return port.
    EntryIsReturnPort,
    /// The template has a cycle.
    CyclicTemplate,
    /// A path through the template has too many steps.
    TemplateStepLimit,
    /// The number of iterations is zero or above the maximum.
    InvalidIterationLimit,
    /// The port to repeat at is no return port.
    UnknownRepeatPort { port: NodeId },
    /// Two calls name one call site.
    DuplicateCallSite { node_id: NodeId },
    /// No node of the parent is the call site.
    UnknownCallSite { node_id: NodeId },
    /// The call site does not declare exactly the return routes.
    ReturnRoutesMismatch { node_id: NodeId },
    /// The template has other schemas or another reducer.
    SharedStateContractMismatch { node_id: NodeId },
    /// The parent is more parallel than the template allows.
    TemplateParallelismLimit { node_id: NodeId },
    /// The expansion has too many nodes, routes or ready nodes.
    ExpansionTooLarge,
    /// An identity has no canonical form.
    CanonicalSerialization,
    /// Two nodes would have one identity.
    IdentityCollision,
    /// A graph that declares child runs cannot be part of a composition.
    ChildDelegationUnsupported,
    /// The expansion is no graph.
    Graph(GraphCompileError),
}

/// The values of [`GraphCompositionError`].
pub ghost enum CompositionFailure {
    MixedReturnPort { node_id: Seq<char> },
    MissingReturnPorts,
    EntryIsReturnPort,
    CyclicTemplate,
    TemplateStepLimit,
    InvalidIterationLimit,
    UnknownRepeatPort { port: Seq<char> },
    DuplicateCallSite { node_id: Seq<char> },
    UnknownCallSite { node_id: Seq<char> },
    ReturnRoutesMismatch { node_id: Seq<char> },
    SharedStateContractMismatch { node_id: Seq<char> },
    TemplateParallelismLimit { node_id: Seq<char> },
    ExpansionTooLarge,
    CanonicalSerialization,
    IdentityCollision,
    ChildDelegationUnsupported,
    Graph(CompileFailure),
}

impl View for GraphCompositionError {
    type V = CompositionFailure;

    open spec fn view(&self) -> CompositionFailure {
        match self {
            GraphCompositionError::MixedReturnPort {
                node_id,
            } => CompositionFailure::MixedReturnPort { node_id: node_id@ },
            GraphCompositionError::MissingReturnPorts => CompositionFailure::MissingReturnPorts,
            GraphCompositionError::EntryIsReturnPort => CompositionFailure::EntryIsReturnPort,
            GraphCompositionError::CyclicTemplate => CompositionFailure::CyclicTemplate,
            GraphCompositionError::TemplateStepLimit => CompositionFailure::TemplateStepLimit,
            GraphCompositionError::InvalidIterationLimit => CompositionFailure::InvalidIterationLimit,
            GraphCompositionError::UnknownRepeatPort {
                port,
            } => CompositionFailure::UnknownRepeatPort { port: port@ },
            GraphCompositionError::DuplicateCallSite {
                node_id,
            } => CompositionFailure::DuplicateCallSite { node_id: node_id@ },
            GraphCompositionError::UnknownCallSite {
                node_id,
            } => CompositionFailure::UnknownCallSite { node_id: node_id@ },
            GraphCompositionError::ReturnRoutesMismatch {
                node_id,
            } => CompositionFailure::ReturnRoutesMismatch { node_id: node_id@ },
            GraphCompositionError::SharedStateContractMismatch {
                node_id,
            } => CompositionFailure::SharedStateContractMismatch { node_id: node_id@ },
            GraphCompositionError::TemplateParallelismLimit {
                node_id,
            } => CompositionFailure::TemplateParallelismLimit { node_id: node_id@ },
            GraphCompositionError::ExpansionTooLarge => CompositionFailure::ExpansionTooLarge,
            GraphCompositionError::CanonicalSerialization => CompositionFailure::CanonicalSerialization,
            GraphCompositionError::IdentityCollision => CompositionFailure::IdentityCollision,
            GraphCompositionError::ChildDelegationUnsupported => CompositionFailure::ChildDelegationUnsupported,
            GraphCompositionError::Graph(e) => CompositionFailure::Graph(e@),
        }
    }
}

// ---------------------------------------------------------------------------
// Specification
// ---------------------------------------------------------------------------

/// The names of the nodes that may end a run, in order.
pub open spec fn port_names(nodes: Seq<NodeModel>) -> Seq<Seq<char>>
    decreases nodes.len(),
{
    if nodes.len() == 0 {
        Seq::empty()
    } else if nodes.last().terminal {
        port_names(nodes.drop_last()).push(nodes.last().node_id)
    } else {
        port_names(nodes.drop_last())
    }
}

/// What a node fails on that may end a run and do other things too.
pub open spec fn port_failure() -> spec_fn(NodeModel) -> Option<CompositionFailure> {
    |node: NodeModel|
        if node.terminal && (node.continue_to is Some || node.routes.len() > 0
            || node.wait_to is Some) {
            Some(CompositionFailure::MixedReturnPort { node_id: node.node_id })
        } else {
            None
        }
}

/// A path that runs through a cycle ends at the node.
pub open spec fn preceded_by_cycle(nodes: Seq<NodeModel>, j: int) -> bool {
    exists|p: Seq<int>| #[trigger] is_path(nodes, p) && p.last() == j && repeats(p)
}

/// A path of more than this many nodes ends at the node.
pub open spec fn path_longer_than(nodes: Seq<NodeModel>, j: int, steps: u64) -> bool {
    exists|p: Seq<int>| #[trigger] is_path(nodes, p) && p.last() == j && p.len() > steps
}

/// A node that is executed and that no cycle precedes takes too many steps to
/// reach.
pub open spec fn too_deep(nodes: Seq<NodeModel>, ports: Seq<Seq<char>>, steps: u64) -> bool {
    exists|j: int|
        #![trigger nodes[j]]
        0 <= j < nodes.len() && !ports.contains(nodes[j].node_id) && !preceded_by_cycle(nodes, j)
            && path_longer_than(nodes, j, steps)
}

/// Some path runs through a cycle.
pub open spec fn has_cycle(nodes: Seq<NodeModel>) -> bool {
    exists|j: int| 0 <= j < nodes.len() && #[trigger] preceded_by_cycle(nodes, j)
}

/// What a template fails on because its paths are too long or endless.
pub open spec fn finite_failure(nodes: Seq<NodeModel>, ports: Seq<Seq<char>>, steps: u64) -> Option<
    CompositionFailure,
> {
    if too_deep(nodes, ports, steps) {
        Some(CompositionFailure::TemplateStepLimit)
    } else if has_cycle(nodes) {
        Some(CompositionFailure::CyclicTemplate)
    } else {
        None
    }
}

/// An entry node is one of the ports.
pub open spec fn entry_is_port(entries: Seq<Seq<char>>, ports: Seq<Seq<char>>) -> bool {
    exists|k: int| 0 <= k < entries.len() && ports.contains(#[trigger] entries[k])
}

/// What a graph fails on as a template.
pub open spec fn template_failure(graph: GraphModel) -> Option<CompositionFailure> {
    let ports = port_names(graph.nodes);
    let mixed = first_failure(graph.nodes, port_failure(), 0);
    if graph.child_runs is Some {
        Some(CompositionFailure::ChildDelegationUnsupported)
    } else if mixed is Some {
        mixed
    } else if ports.len() == 0 {
        Some(CompositionFailure::MissingReturnPorts)
    } else if entry_is_port(graph.entry_nodes, ports) {
        Some(CompositionFailure::EntryIsReturnPort)
    } else {
        finite_failure(graph.nodes, ports, graph.limits.supersteps)
    }
}

/// The values of [`SharedStateSubgraph`].
pub ghost struct SubgraphModel {
    pub graph: GraphModel,
    pub ports: Seq<Seq<char>>,
}

/// What holds of every template.
pub open spec fn subgraph_sound(subgraph: SubgraphModel) -> bool {
    &&& graph_sound(subgraph.graph)
    &&& template_failure(subgraph.graph) is None
    &&& subgraph.ports == port_names(subgraph.graph.nodes)
}

/// Ports are the terminal nodes, in order.
pub proof fn ports_are_terminal(nodes: Seq<NodeModel>)
    requires
        ascending(node_names(nodes)),
    ensures
        ascending(port_names(nodes)),
        port_names(nodes).len() <= nodes.len(),
        forall|name: Seq<char>| #[trigger]
            port_names(nodes).contains(name) <==> exists|i: int|
                0 <= i < nodes.len() && (#[trigger] nodes[i]).node_id == name && nodes[i].terminal,
    decreases nodes.len(),
{
    let names = node_names(nodes);
    let ports = port_names(nodes);
    if nodes.len() > 0 {
        let front = nodes.drop_last();
        let earlier = port_names(front);
        assert(node_names(front) =~= names.drop_last());
        assert(ascending(node_names(front))) by {
            assert forall|i: int, j: int| 0 <= i < j < front.len() implies crate::text::precedes(
                #[trigger] node_names(front)[i],
                #[trigger] node_names(front)[j],
            ) by {
                assert(names[i] == node_names(front)[i] && names[j] == node_names(front)[j]);
            }
        }
        ports_are_terminal(front);
        let last = nodes.last();
        if last.terminal {
            assert forall|i: int, j: int| 0 <= i < j < ports.len() implies crate::text::precedes(
                #[trigger] ports[i],
                #[trigger] ports[j],
            ) by {
                assert(ports[i] == earlier[i]);
                if j < earlier.len() {
                    assert(ports[j] == earlier[j]);
                } else {
                    assert(earlier.contains(earlier[i]));
                    let k = choose|k: int|
                        0 <= k < front.len() && (#[trigger] front[k]).node_id == earlier[i]
                            && front[k].terminal;
                    assert(names[k] == earlier[i]);
                    assert(names[nodes.len() - 1] == last.node_id);
                }
            }
        }
        assert forall|name: Seq<char>| #[trigger] ports.contains(name) <==> exists|i: int|
            0 <= i < nodes.len() && (#[trigger] nodes[i]).node_id == name && nodes[i].terminal by {
            if ports.contains(name) {
                let k = choose|k: int| 0 <= k < ports.len() && ports[k] == name;
                if k < earlier.len() {
                    assert(earlier[k] == name);
                    assert(earlier.contains(name));
                    let i = choose|i: int|
                        0 <= i < front.len() && (#[trigger] front[i]).node_id == name
                            && front[i].terminal;
                    assert(nodes[i].node_id == name && nodes[i].terminal);
                } else {
                    assert(nodes[nodes.len() - 1].node_id == name);
                }
            }
            if exists|i: int|
                0 <= i < nodes.len() && (#[trigger] nodes[i]).node_id == name
                    && nodes[i].terminal {
                let i = choose|i: int|
                    0 <= i < nodes.len() && (#[trigger] nodes[i]).node_id == name
                        && nodes[i].terminal;
                if i < front.len() {
                    assert(front[i].node_id == name && front[i].terminal);
                    assert(earlier.contains(name));
                    let k = choose|k: int| 0 <= k < earlier.len() && earlier[k] == name;
                    assert(ports[k] == name);
                } else {
                    assert(ports[ports.len() - 1] == name);
                }
            }
        }
    }
}

// ---------------------------------------------------------------------------
// Templates
// ---------------------------------------------------------------------------

/// A finite graph whose terminal nodes are symbolic return ports.
pub struct SharedStateSubgraph {
    graph: CompiledGraph,
    ports: Vec<NodeId>,
}

impl View for SharedStateSubgraph {
    type V = SubgraphModel;

    closed spec fn view(&self) -> SubgraphModel {
        SubgraphModel { graph: self.graph@, ports: views(self.ports@) }
    }
}

/// Checks that all paths of a template end, and in how many steps.
fn validate_finite_template(graph: &CompiledGraph, ports: &Vec<NodeId>) -> (r: Result<
    (),
    GraphCompositionError,
>)
    requires
        ascending(views(ports@)),
    ensures
        match (r, finite_failure(graph@.nodes, views(ports@), graph@.limits.supersteps)) {
            (Ok(()), None) => true,
            (Err(e), Some(expected)) => e@ == expected,
            _ => false,
        },
{
    broadcast use node_keys;

    let nodes = graph.nodes();
    let ghost models = graph@.nodes;
    let ghost names = views(ports@);
    proof {
        known_successors(models, graph@.limits.parallelism);
    }
    let adj = build_adjacency(nodes);
    proof {
        adjacency_is_faithful(models, adj@);
    }
    let depths = settle(&adj);
    let steps: u64 = graph.limits().maximum_supersteps().get();
    proof {
        assert forall|j: int| 0 <= j < models.len() implies (#[trigger] depths@[j] == 0
            <==> preceded_by_cycle(models, j)) by {
            if after_cycle(adj@, j) {
                let p = choose|p: Seq<int>| #[trigger]
                    is_walk(adj@, p) && p.last() == j && repeats(p);
                assert(is_path(models, p));
            }
            if preceded_by_cycle(models, j) {
                let p = choose|p: Seq<int>| #[trigger]
                    is_path(models, p) && p.last() == j && repeats(p);
                assert(is_walk(adj@, p));
            }
        }
        assert forall|j: int|
            0 <= j < models.len() && #[trigger] depths@[j] > 0 implies (path_longer_than(
            models,
            j,
            steps,
        ) <==> depths@[j] > steps) by {
            if path_longer_than(models, j, steps) {
                let p = choose|p: Seq<int>| #[trigger]
                    is_path(models, p) && p.last() == j && p.len() > steps;
                assert(is_walk(adj@, p));
            }
            if depths@[j] > steps {
                assert(walk_of_length(adj@, j, depths@[j] as nat));
                let p = choose|p: Seq<int>| #[trigger]
                    is_walk(adj@, p) && p.last() == j && p.len() == depths@[j] as nat;
                assert(is_path(models, p));
            }
        }
    }
    let mut cyclic: bool = false;
    let mut i: usize = 0;
    while i < nodes.len()
        invariant
            models == graph@.nodes,
            views(nodes@) == models,
            nodes@.len() == models.len() == depths@.len(),
            names == views(ports@),
            ascending(names),
            steps == graph@.limits.supersteps,
            i <= nodes@.len(),
            cyclic == exists|j: int| 0 <= j < i && #[trigger] preceded_by_cycle(models, j),
            forall|j: int|
                0 <= j < models.len() ==> (#[trigger] depths@[j] == 0 <==> preceded_by_cycle(
                    models,
                    j,
                )),
            forall|j: int|
                0 <= j < models.len() && #[trigger] depths@[j] > 0 ==> (path_longer_than(
                    models,
                    j,
                    steps,
                ) <==> depths@[j] > steps),
            forall|j: int|
                #![trigger models[j]]
                0 <= j < i ==> names.contains(models[j].node_id) || preceded_by_cycle(models, j)
                    || !path_longer_than(models, j, steps),
        decreases nodes@.len() - i,
    {
        assert(models[i as int] == nodes@[i as int]@);
        assert(depths@[i as int] == 0 <==> preceded_by_cycle(models, i as int));
        if depths[i] == 0 {
            cyclic = true;
        } else if depths[i] as u64 > steps {
            proof {
                node_keys(names);
            }
            if !holds(ports.as_slice(), nodes[i].node_id().as_str()) {
                assert(!names.contains(models[i as int].node_id));
                assert(path_longer_than(models, i as int, steps));
                assert(too_deep(models, names, steps));
                return Err(GraphCompositionError::TemplateStepLimit);
            }
        }
        i = i + 1;
    }
    if cyclic {
        return Err(GraphCompositionError::CyclicTemplate);
    }
    Ok(())
}

impl SharedStateSubgraph {
    /// The graph is a template, and the ports are its terminal nodes.
    #[verifier::type_invariant]
    pub open spec fn well_formed(&self) -> bool {
        subgraph_sound(self@)
    }

    /// Checks that a graph is a template.
    pub fn new(graph: CompiledGraph) -> (r: Result<SharedStateSubgraph, GraphCompositionError>)
        ensures
            match (r, template_failure(graph@)) {
                (Ok(template), None) => template@ == (SubgraphModel {
                    graph: graph@,
                    ports: port_names(graph@.nodes),
                }),
                (Err(e), Some(expected)) => e@ == expected,
                _ => false,
            },
    {
        broadcast use node_keys;

        if graph.child_runs().is_some() {
            return Err(GraphCompositionError::ChildDelegationUnsupported);
        }
        let nodes = graph.nodes();
        let ghost models = graph@.nodes;
        let mut ports: Vec<NodeId> = Vec::new();
        let mut i: usize = 0;
        proof {
            assert(models.take(0) =~= Seq::<NodeModel>::empty());
            assert(views(ports@) =~= port_names(models.take(0)));
        }
        while i < nodes.len()
            invariant
                models == graph@.nodes,
                views(nodes@) == models,
                nodes@.len() == models.len(),
                graph@.child_runs is None,
                i <= nodes@.len(),
                views(ports@) == port_names(models.take(i as int)),
                first_failure(models, port_failure(), 0) == first_failure(
                    models,
                    port_failure(),
                    i as int,
                ),
            decreases nodes@.len() - i,
        {
            let node = &nodes[i];
            assert(models[i as int] == node@);
            assert(models.take(i + 1).drop_last() =~= models.take(i as int));
            let ghost before = ports@;
            if node.allows_terminal() {
                if node.continue_to().is_some() || !node.routes().is_empty()
                    || node.wait_to().is_some() {
                    return Err(
                        GraphCompositionError::MixedReturnPort { node_id: node.node_id().clone() },
                    );
                }
                ports.push(node.node_id().clone());
                assert(views(ports@) =~= views(before).push(node@.node_id));
            }
            i = i + 1;
        }
        proof {
            assert(models.take(i as int) =~= models);
            ports_are_terminal(models);
        }
        if ports.len() == 0 {
            return Err(GraphCompositionError::MissingReturnPorts);
        }
        let entries = graph.entry_nodes().as_slice();
        let ghost names = graph@.entry_nodes;
        let mut k: usize = 0;
        while k < entries.len()
            invariant
                names == graph@.entry_nodes,
                views(entries@) == names,
                entries@.len() == names.len(),
                views(ports@) == port_names(graph@.nodes),
                ports@.len() > 0,
                ascending(views(ports@)),
                graph@.child_runs is None,
                first_failure(graph@.nodes, port_failure(), 0) is None,
                k <= entries@.len(),
                forall|j: int| 0 <= j < k ==> !views(ports@).contains(#[trigger] names[j]),
            decreases entries@.len() - k,
        {
            assert(names[k as int] == entries@[k as int]@);
            proof {
                node_keys(views(ports@));
            }
            if holds(ports.as_slice(), entries[k].as_str()) {
                assert(views(ports@).len() > 0);
                return Err(GraphCompositionError::EntryIsReturnPort);
            }
            k = k + 1;
        }
        assert(views(ports@).len() > 0);
        validate_finite_template(&graph, &ports)?;
        proof {
            use_type_invariant(&graph);
        }
        Ok(SharedStateSubgraph { graph, ports })
    }

    /// Returns the graph, its symbolic ports among the nodes.
    pub fn graph(&self) -> (r: &CompiledGraph)
        ensures
            r@ == self@.graph,
            self.well_formed(),
    {
        proof {
            use_type_invariant(self);
        }
        &self.graph
    }

    /// Returns the return ports in the order of their names.
    pub fn return_ports(&self) -> (r: &[NodeId])
        ensures
            views(r@) == self@.ports,
            r@.len() == self@.ports.len(),
            ascending(self@.ports),
            self.well_formed(),
    {
        proof {
            use_type_invariant(self);
            ports_are_terminal(self@.graph.nodes);
        }
        self.ports.as_slice()
    }

    /// Tests whether the node is a return port.
    pub fn is_port(&self, node_id: &NodeId) -> (r: bool)
        ensures
            r == self@.ports.contains(node_id@),
    {
        broadcast use node_keys;

        proof {
            use_type_invariant(self);
            ports_are_terminal(self@.graph.nodes);
        }
        holds(self.ports.as_slice(), node_id.as_str())
    }
}

impl Clone for SharedStateSubgraph {
    fn clone(&self) -> (r: Self)
        ensures
            r@ == self@,
    {
        proof {
            use_type_invariant(self);
        }
        SharedStateSubgraph {
            graph: self.graph.clone(),
            ports: copy_nodes(self.ports.as_slice()),
        }
    }
}

// ---------------------------------------------------------------------------
// Debug output
// ---------------------------------------------------------------------------

/// The fields that are shown of a template.
pub open spec fn subgraph_fields(model: SubgraphModel, alternate: bool) -> Seq<Seq<char>> {
    seq![
        entry_text("graph"@, graph_shown(model.graph, alternate)),
        entry_text("ports"@, map_text(node_texts(model.ports, alternate), alternate)),
    ]
}

/// What is shown of a template.
pub open spec fn subgraph_shown(model: SubgraphModel, alternate: bool) -> Seq<char> {
    struct_text("SharedStateSubgraph"@, subgraph_fields(model, alternate), false, alternate)
}

impl SharedStateSubgraph {
    /// Returns what is shown of it for debugging.
    pub fn debug_text(&self, alternate: bool) -> (r: String)
        ensures
            r@ == subgraph_shown(self@, alternate),
    {
        let fields = vec![
            entry_string("graph", self.graph.debug_text(alternate)),
            entry_string(
                "ports",
                map_string(&node_strings(self.ports.as_slice(), alternate), alternate),
            ),
        ];
        assert(texts(fields@) =~= subgraph_fields(self@, alternate));
        struct_string("SharedStateSubgraph", &fields, false, alternate)
    }
}

impl core::fmt::Debug for SharedStateSubgraph {
    fn fmt(&self, formatter: &mut core::fmt::Formatter<'_>) -> core::fmt::Result {
        let alternate: bool = is_alternate(formatter);
        write_text(formatter, self.debug_text(alternate).as_str())
    }
}

} // verus!
