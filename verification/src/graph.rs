//! Compiled graphs: canonical, bounded and pinned by a digest.

use vstd::prelude::*;

use crate::canonical::{canonical_bytes, to_canonical_bytes};
use crate::child_run_error::ChildRunPolicyError;
use crate::child_run_policy::{policy_fits, policy_json, GraphChildRunPolicy, PolicyModel};
use crate::debug::{
    entry_string, entry_text, is_alternate, number_string, struct_string, struct_text, write_text,
};
use crate::decimal::decimal_text;
use crate::digest::{digest_shown, sha256_hash, Digest};
use crate::graph_node::{
    execution_check, execution_json, execution_shown, node_json, node_sound, ExecutionModel,
    GraphExecutionLimits, GraphNode, NodeModel,
};
use crate::graph_laws::collected_routes_disjoint;
use crate::graph_shape::{
    collect_graph_nodes, collected_nodes, node_names, routes_disjoint, shape_failure,
    validate_compiled_shape, CompileFailure, GraphCompileError,
};
use crate::json_value::{optional_member, Json, JsonMember, JsonValue, Member};
use crate::names::NodeId;
use crate::options::{option_digest, option_ref_view, option_view};
use crate::ordered::{ascending, find, lookup, views};
use crate::pins::{
    capability_identity_json, capability_identity_shown, reducer_json, reducer_shown, schema_json,
    schema_shown, CapabilityIdentity, CapabilityIdentityModel, GraphReducerReference,
    GraphReference, GraphReferenceModel, ReducerModel, SchemaModel, SchemaReference,
};
use crate::ready::{names_json, ready_shown, ready_sound, ReadyNodes};
use crate::text::texts;

verus! {

/// Everything that the definition of a graph says.
struct GraphParts {
    identity: CapabilityIdentity,
    input_schema: SchemaReference,
    state_schema: SchemaReference,
    update_schema: SchemaReference,
    output_schema: SchemaReference,
    reducer: GraphReducerReference,
    entry_nodes: ReadyNodes,
    nodes: Vec<GraphNode>,
    limits: GraphExecutionLimits,
    child_runs: Option<GraphChildRunPolicy>,
}

/// A graph that was checked as a whole.
pub struct CompiledGraph {
    parts: GraphParts,
    definition_digest: Digest,
}

/// The values of [`CompiledGraph`].
pub ghost struct GraphModel {
    pub identity: CapabilityIdentityModel,
    pub input_schema: SchemaModel,
    pub state_schema: SchemaModel,
    pub update_schema: SchemaModel,
    pub output_schema: SchemaModel,
    pub reducer: ReducerModel,
    pub entry_nodes: Seq<Seq<char>>,
    pub nodes: Seq<NodeModel>,
    pub limits: ExecutionModel,
    pub child_runs: Option<PolicyModel>,
    pub definition_digest: Seq<u8>,
}

/// The JSON form of nodes.
pub open spec fn nodes_json(nodes: Seq<NodeModel>) -> Json {
    Json::Array(Seq::new(nodes.len(), |i: int| node_json(nodes[i])))
}

/// The JSON form of an optional policy.
pub open spec fn optional_policy_json(policy: Option<PolicyModel>) -> Option<Json> {
    match policy {
        Some(policy) => Some(policy_json(policy)),
        None => None,
    }
}

/// The JSON form of the definition: all but the digest. A graph without a
/// delegation policy has no member for one.
pub open spec fn definition_json(graph: GraphModel) -> Json {
    Json::Object(
        seq![
            Member { name: "identity"@, value: capability_identity_json(graph.identity) },
            Member { name: "input_schema"@, value: schema_json(graph.input_schema) },
            Member { name: "state_schema"@, value: schema_json(graph.state_schema) },
            Member { name: "update_schema"@, value: schema_json(graph.update_schema) },
            Member { name: "output_schema"@, value: schema_json(graph.output_schema) },
            Member { name: "reducer"@, value: reducer_json(graph.reducer) },
            Member { name: "entry_nodes"@, value: names_json(graph.entry_nodes) },
            Member { name: "nodes"@, value: nodes_json(graph.nodes) },
            Member { name: "limits"@, value: execution_json(graph.limits) },
        ] + optional_member("child_runs"@, optional_policy_json(graph.child_runs)),
    )
}

/// The reference of a graph.
pub open spec fn graph_reference(graph: GraphModel) -> GraphReferenceModel {
    GraphReferenceModel {
        identity: graph.identity,
        definition_digest: graph.definition_digest,
        state_schema: graph.state_schema,
    }
}

/// The digest of a definition, or what it fails on.
pub open spec fn definition_seal(definition: Json, supplied: Option<Seq<u8>>) -> Result<
    Seq<u8>,
    CompileFailure,
> {
    match canonical_bytes(definition) {
        None => Err(CompileFailure::CanonicalSerialization),
        Some(bytes) => if bytes.len() > 2097152 {
            Err(
                CompileFailure::DefinitionTooLarge {
                    maximum: 2097152,
                    actual: bytes.len() as usize,
                },
            )
        } else if supplied matches Some(digest) && digest != sha256_hash(bytes) {
            Err(CompileFailure::DigestMismatch)
        } else {
            Ok(sha256_hash(bytes))
        },
    }
}

/// What sealing a definition with its digest comes to.
pub open spec fn sealed(graph: GraphModel, supplied: Option<Seq<u8>>) -> Result<
    GraphModel,
    CompileFailure,
> {
    match definition_seal(definition_json(graph), supplied) {
        Err(e) => Err(e),
        Ok(definition_digest) => Ok(GraphModel { definition_digest, ..graph }),
    }
}

/// What compiling comes to. The nodes of the model are those that were given,
/// in any order.
pub open spec fn compiled(graph: GraphModel, supplied: Option<Seq<u8>>) -> Result<
    GraphModel,
    CompileFailure,
> {
    match collected_nodes(graph.nodes) {
        Err(e) => Err(e),
        Ok(nodes) => match shape_failure(nodes, graph.entry_nodes, graph.limits) {
            Some(e) => Err(e),
            None => if graph.child_runs matches Some(policy) && !policy_fits(
                policy,
                node_names(nodes),
            ) {
                Err(CompileFailure::ChildPolicy(ChildRunPolicyError::UndeclaredParentNode))
            } else {
                sealed(GraphModel { nodes, ..graph }, supplied)
            },
        },
    }
}

/// What holds of every compiled graph.
pub open spec fn graph_sound(graph: GraphModel) -> bool {
    &&& ascending(node_names(graph.nodes))
    &&& 0 < graph.nodes.len() <= 1024
    &&& forall|i: int| 0 <= i < graph.nodes.len() ==> node_sound(#[trigger] graph.nodes[i])
    &&& routes_disjoint(graph.nodes)
    &&& ready_sound(graph.entry_nodes)
    &&& shape_failure(graph.nodes, graph.entry_nodes, graph.limits) is None
    &&& execution_check(graph.limits.supersteps, graph.limits.parallelism) is Ok
    &&& graph.child_runs matches Some(policy) ==> policy_fits(policy, node_names(graph.nodes))
    &&& sealed(graph, None) == Ok::<GraphModel, CompileFailure>(graph)
}

/// The digest is not part of the definition.
pub proof fn definition_ignores_digest(graph: GraphModel, digest: Seq<u8>)
    ensures
        definition_json(GraphModel { definition_digest: digest, ..graph }) == definition_json(
            graph,
        ),
{
}

impl View for GraphParts {
    type V = GraphModel;

    /// The values, without a digest yet.
    closed spec fn view(&self) -> GraphModel {
        GraphModel {
            identity: self.identity@,
            input_schema: self.input_schema@,
            state_schema: self.state_schema@,
            update_schema: self.update_schema@,
            output_schema: self.output_schema@,
            reducer: self.reducer@,
            entry_nodes: self.entry_nodes@,
            nodes: views(self.nodes@),
            limits: self.limits@,
            child_runs: option_view(self.child_runs),
            definition_digest: Seq::empty(),
        }
    }
}

impl View for CompiledGraph {
    type V = GraphModel;

    closed spec fn view(&self) -> GraphModel {
        GraphModel { definition_digest: self.definition_digest@, ..self.parts@ }
    }
}

/// The outcome of compiling is the expected one.
pub open spec fn compile_outcome(
    r: Result<CompiledGraph, GraphCompileError>,
    expected: Result<GraphModel, CompileFailure>,
) -> bool {
    match (r, expected) {
        (Ok(graph), Ok(model)) => graph@ == model && graph_sound(model),
        (Err(e), Err(failure)) => e@ == failure,
        _ => false,
    }
}

impl GraphParts {
    /// Writes the JSON form of the definition.
    fn definition(&self) -> (r: JsonValue)
        ensures
            r@ == definition_json(self@),
    {
        let mut items: Vec<JsonValue> = Vec::new();
        let mut i: usize = 0;
        while i < self.nodes.len()
            invariant
                i <= self.nodes@.len(),
                items@.len() == i,
                forall|k: int| 0 <= k < i ==> (#[trigger] items@[k])@ == node_json(self.nodes@[k]@),
            decreases self.nodes@.len() - i,
        {
            items.push(self.nodes[i].to_json());
            i = i + 1;
        }
        let list = JsonValue::array(items);
        assert(list@->Array_0 =~= nodes_json(self@.nodes)->Array_0);
        let mut members = vec![
            JsonMember::new("identity", self.identity.to_json()),
            JsonMember::new("input_schema", self.input_schema.to_json()),
            JsonMember::new("state_schema", self.state_schema.to_json()),
            JsonMember::new("update_schema", self.update_schema.to_json()),
            JsonMember::new("output_schema", self.output_schema.to_json()),
            JsonMember::new("reducer", self.reducer.to_json()),
            JsonMember::new("entry_nodes", self.entry_nodes.to_json()),
            JsonMember::new("nodes", list),
            JsonMember::new("limits", self.limits.to_json()),
        ];
        if let Some(policy) = &self.child_runs {
            members.push(JsonMember::new("child_runs", policy.to_json()));
        }
        let r = JsonValue::object(members);
        assert(r@->Object_0 =~= definition_json(self@)->Object_0);
        r
    }

    /// Seals the definition with its digest.
    fn seal(self, supplied: Option<Digest>) -> (r: Result<CompiledGraph, GraphCompileError>)
        requires
            ascending(node_names(self@.nodes)),
            0 < self@.nodes.len() <= 1024,
            forall|i: int| 0 <= i < self@.nodes.len() ==> node_sound(#[trigger] self@.nodes[i]),
            routes_disjoint(self@.nodes),
            shape_failure(self@.nodes, self@.entry_nodes, self@.limits) is None,
            self@.child_runs matches Some(policy) ==> policy_fits(policy, node_names(self@.nodes)),
        ensures
            compile_outcome(r, sealed(self@, option_digest(supplied))),
    {
        proof {
            use_type_invariant(&self.entry_nodes);
            use_type_invariant(&self.limits);
        }
        let bytes = match to_canonical_bytes(&self.definition()) {
            Some(bytes) => bytes,
            None => {
                return Err(GraphCompileError::CanonicalSerialization);
            },
        };
        if bytes.len() > 2097152 {
            return Err(
                GraphCompileError::DefinitionTooLarge { maximum: 2097152, actual: bytes.len() },
            );
        }
        let definition_digest = Digest::sha256(bytes.as_slice());
        if let Some(given) = supplied {
            if given != definition_digest {
                return Err(GraphCompileError::DigestMismatch);
            }
        }
        proof {
            definition_ignores_digest(self@, definition_digest@);
        }
        Ok(CompiledGraph { parts: self, definition_digest })
    }
}

impl CompiledGraph {
    /// Maximum number of nodes.
    pub const MAX_NODES: usize = 1024;

    /// Maximum number of routes of all nodes together.
    pub const MAX_ROUTES: usize = 262144;

    /// Maximum number of bytes of the canonical definition.
    pub const MAX_DEFINITION_BYTES: usize = 2097152;

    /// The graph was checked as a whole.
    #[verifier::type_invariant]
    pub open spec fn well_formed(&self) -> bool {
        graph_sound(self@)
    }

    /// Compiles a graph.
    pub fn compile(
        identity: CapabilityIdentity,
        input_schema: SchemaReference,
        state_schema: SchemaReference,
        update_schema: SchemaReference,
        output_schema: SchemaReference,
        reducer: GraphReducerReference,
        entry_nodes: ReadyNodes,
        nodes: Vec<GraphNode>,
        limits: GraphExecutionLimits,
    ) -> (r: Result<CompiledGraph, GraphCompileError>)
        ensures
            compile_outcome(
                r,
                compiled(
                    GraphModel {
                        identity: identity@,
                        input_schema: input_schema@,
                        state_schema: state_schema@,
                        update_schema: update_schema@,
                        output_schema: output_schema@,
                        reducer: reducer@,
                        entry_nodes: entry_nodes@,
                        nodes: views(nodes@),
                        limits: limits@,
                        child_runs: None,
                        definition_digest: Seq::empty(),
                    },
                    None,
                ),
            ),
    {
        CompiledGraph::build(
            identity,
            input_schema,
            state_schema,
            update_schema,
            output_schema,
            reducer,
            entry_nodes,
            nodes,
            limits,
            None,
            None,
        )
    }

    /// Compiles a graph with its delegation policy and compares its digest
    /// with a given one.
    pub fn build(
        identity: CapabilityIdentity,
        input_schema: SchemaReference,
        state_schema: SchemaReference,
        update_schema: SchemaReference,
        output_schema: SchemaReference,
        reducer: GraphReducerReference,
        entry_nodes: ReadyNodes,
        nodes: Vec<GraphNode>,
        limits: GraphExecutionLimits,
        child_runs: Option<GraphChildRunPolicy>,
        supplied_digest: Option<Digest>,
    ) -> (r: Result<CompiledGraph, GraphCompileError>)
        ensures
            compile_outcome(
                r,
                compiled(
                    GraphModel {
                        identity: identity@,
                        input_schema: input_schema@,
                        state_schema: state_schema@,
                        update_schema: update_schema@,
                        output_schema: output_schema@,
                        reducer: reducer@,
                        entry_nodes: entry_nodes@,
                        nodes: views(nodes@),
                        limits: limits@,
                        child_runs: option_view(child_runs),
                        definition_digest: Seq::empty(),
                    },
                    option_digest(supplied_digest),
                ),
            ),
    {
        let ghost given = views(nodes@);
        let sorted = collect_graph_nodes(nodes)?;
        proof {
            collected_routes_disjoint(given);
        }
        validate_compiled_shape(sorted.as_slice(), &entry_nodes, limits)?;
        if let Some(policy) = &child_runs {
            match policy.validate_nodes(sorted.as_slice()) {
                Ok(()) => {},
                Err(e) => {
                    return Err(GraphCompileError::ChildPolicy(e));
                },
            }
        }
        let parts = GraphParts {
            identity,
            input_schema,
            state_schema,
            update_schema,
            output_schema,
            reducer,
            entry_nodes,
            nodes: sorted,
            limits,
            child_runs,
        };
        parts.seal(supplied_digest)
    }

    /// Declares the child runs of a graph.
    pub fn with_child_runs(self, policy: GraphChildRunPolicy) -> (r: Result<
        CompiledGraph,
        GraphCompileError,
    >)
        ensures
            compile_outcome(
                r,
                if policy_fits(policy@, node_names(self@.nodes)) {
                    sealed(GraphModel { child_runs: Some(policy@), ..self@ }, None)
                } else {
                    Err(CompileFailure::ChildPolicy(ChildRunPolicyError::UndeclaredParentNode))
                },
            ),
    {
        proof {
            use_type_invariant(&self);
        }
        match policy.validate_nodes(self.parts.nodes.as_slice()) {
            Ok(()) => {},
            Err(e) => {
                return Err(GraphCompileError::ChildPolicy(e));
            },
        }
        let ghost wanted = GraphModel { child_runs: Some(policy@), ..self@ };
        let mut parts = self.parts;
        parts.child_runs = Some(policy);
        proof {
            definition_ignores_digest(parts@, self.definition_digest@);
            assert(wanted == GraphModel { definition_digest: self.definition_digest@, ..parts@ });
        }
        parts.seal(None)
    }

    /// Returns the identity.
    pub fn identity(&self) -> (r: &CapabilityIdentity)
        ensures
            r@ == self@.identity,
    {
        &self.parts.identity
    }

    /// Returns the schema of the input.
    pub fn input_schema(&self) -> (r: &SchemaReference)
        ensures
            r@ == self@.input_schema,
    {
        &self.parts.input_schema
    }

    /// Returns the schema of checkpoint state.
    pub fn state_schema(&self) -> (r: &SchemaReference)
        ensures
            r@ == self@.state_schema,
    {
        &self.parts.state_schema
    }

    /// Returns the schema of node updates.
    pub fn update_schema(&self) -> (r: &SchemaReference)
        ensures
            r@ == self@.update_schema,
    {
        &self.parts.update_schema
    }

    /// Returns the schema of terminal output.
    pub fn output_schema(&self) -> (r: &SchemaReference)
        ensures
            r@ == self@.output_schema,
    {
        &self.parts.output_schema
    }

    /// Returns the pinned reducer.
    pub fn reducer(&self) -> (r: &GraphReducerReference)
        ensures
            r@ == self@.reducer,
    {
        &self.parts.reducer
    }

    /// Returns the nodes that are ready initially.
    pub fn entry_nodes(&self) -> (r: &ReadyNodes)
        ensures
            r@ == self@.entry_nodes,
    {
        &self.parts.entry_nodes
    }

    /// Returns the nodes in the order of their names.
    pub fn nodes(&self) -> (r: &[GraphNode])
        ensures
            views(r@) == self@.nodes,
            r@.len() == self@.nodes.len(),
            self.well_formed(),
    {
        proof {
            use_type_invariant(self);
        }
        self.parts.nodes.as_slice()
    }

    /// Returns the execution limits.
    pub fn limits(&self) -> (r: GraphExecutionLimits)
        ensures
            r@ == self@.limits,
    {
        self.parts.limits
    }

    /// Returns the delegation policy.
    pub fn child_runs(&self) -> (r: Option<&GraphChildRunPolicy>)
        ensures
            option_ref_view(r) == self@.child_runs,
    {
        self.parts.child_runs.as_ref()
    }

    /// Returns the digest of the canonical definition.
    pub fn definition_digest(&self) -> (r: Digest)
        ensures
            r@ == self@.definition_digest,
            self.well_formed(),
    {
        proof {
            use_type_invariant(self);
        }
        self.definition_digest
    }

    /// Returns the reference that checkpoints store.
    pub fn reference(&self) -> (r: GraphReference)
        ensures
            r@ == graph_reference(self@),
    {
        GraphReference::new(
            self.parts.identity.clone(),
            self.definition_digest,
            self.parts.state_schema.clone(),
        )
    }

    /// Computes the canonical bytes of the definition. Their digest is the
    /// definition digest.
    pub fn canonical_definition_bytes(&self) -> (r: Result<Vec<u8>, GraphCompileError>)
        ensures
            match (r, canonical_bytes(definition_json(self@))) {
                (Ok(bytes), Some(expected)) => bytes@ == expected && sha256_hash(bytes@)
                    == self@.definition_digest,
                _ => false,
            },
    {
        proof {
            use_type_invariant(self);
            definition_ignores_digest(self.parts@, self.definition_digest@);
        }
        match to_canonical_bytes(&self.parts.definition()) {
            Some(bytes) => Ok(bytes),
            None => Err(GraphCompileError::CanonicalSerialization),
        }
    }

    /// Looks a node up by its name.
    pub fn node(&self, node_id: &NodeId) -> (r: Option<&GraphNode>)
        ensures
            option_ref_view(r) == find::<GraphNode>(self@.nodes, node_id@),
    {
        proof {
            use_type_invariant(self);
        }
        lookup(self.parts.nodes.as_slice(), node_id.as_str())
    }
}

/// Copies nodes.
fn copy_graph_nodes(nodes: &[GraphNode]) -> (r: Vec<GraphNode>)
    ensures
        views(r@) == views(nodes@),
{
    let mut copies: Vec<GraphNode> = Vec::new();
    let mut i: usize = 0;
    while i < nodes.len()
        invariant
            i <= nodes@.len(),
            copies@.len() == i,
            forall|k: int| 0 <= k < i ==> (#[trigger] copies@[k])@ == nodes@[k]@,
        decreases nodes@.len() - i,
    {
        copies.push(nodes[i].clone());
        i = i + 1;
    }
    assert(views(copies@) =~= views(nodes@));
    copies
}

/// Tests nodes for equality.
fn same_graph_nodes(a: &[GraphNode], b: &[GraphNode]) -> (r: bool)
    ensures
        r == (views(a@) == views(b@)),
{
    let ghost (x, y) = (views(a@), views(b@));
    if a.len() != b.len() {
        assert(x.len() != y.len());
        return false;
    }
    let mut i: usize = 0;
    while i < a.len()
        invariant
            i <= a@.len() == b@.len(),
            x == views(a@),
            y == views(b@),
            forall|k: int| 0 <= k < i ==> #[trigger] x[k] == y[k],
        decreases a@.len() - i,
    {
        if a[i] != b[i] {
            assert(x[i as int] != y[i as int]);
            return false;
        }
        i = i + 1;
    }
    assert(x =~= y);
    true
}

impl Clone for CompiledGraph {
    fn clone(&self) -> (r: Self)
        ensures
            r@ == self@,
    {
        proof {
            use_type_invariant(self);
        }
        let child_runs = match &self.parts.child_runs {
            Some(policy) => Some(policy.clone()),
            None => None,
        };
        let parts = GraphParts {
            identity: self.parts.identity.clone(),
            input_schema: self.parts.input_schema.clone(),
            state_schema: self.parts.state_schema.clone(),
            update_schema: self.parts.update_schema.clone(),
            output_schema: self.parts.output_schema.clone(),
            reducer: self.parts.reducer.clone(),
            entry_nodes: self.parts.entry_nodes.clone(),
            nodes: copy_graph_nodes(self.parts.nodes.as_slice()),
            limits: self.parts.limits,
            child_runs,
        };
        CompiledGraph { parts, definition_digest: self.definition_digest }
    }
}

impl PartialEq for CompiledGraph {
    fn eq(&self, other: &Self) -> (r: bool) {
        broadcast use GraphExecutionLimits::view_determines;

        let policies = match (&self.parts.child_runs, &other.parts.child_runs) {
            (Some(a), Some(b)) => *a == *b,
            (None, None) => true,
            _ => false,
        };
        policies && self.parts.identity == other.parts.identity && self.parts.input_schema
            == other.parts.input_schema && self.parts.state_schema == other.parts.state_schema
            && self.parts.update_schema == other.parts.update_schema && self.parts.output_schema
            == other.parts.output_schema && self.parts.reducer == other.parts.reducer
            && self.parts.entry_nodes == other.parts.entry_nodes && same_graph_nodes(
            self.parts.nodes.as_slice(),
            other.parts.nodes.as_slice(),
        ) && self.parts.limits == other.parts.limits && self.definition_digest
            == other.definition_digest
    }
}

impl vstd::std_specs::cmp::PartialEqSpecImpl for CompiledGraph {
    open spec fn obeys_eq_spec() -> bool {
        true
    }

    open spec fn eq_spec(&self, other: &Self) -> bool {
        self@ == other@
    }
}

impl Eq for CompiledGraph {

}

// ---------------------------------------------------------------------------
// Debug output
// ---------------------------------------------------------------------------

/// The fields that are shown of a graph.
pub open spec fn graph_fields(model: GraphModel, alternate: bool) -> Seq<Seq<char>> {
    seq![
        entry_text("identity"@, capability_identity_shown(model.identity, alternate)),
        entry_text("input_schema"@, schema_shown(model.input_schema, alternate)),
        entry_text("state_schema"@, schema_shown(model.state_schema, alternate)),
        entry_text("update_schema"@, schema_shown(model.update_schema, alternate)),
        entry_text("output_schema"@, schema_shown(model.output_schema, alternate)),
        entry_text("reducer"@, reducer_shown(model.reducer, alternate)),
        entry_text("entry_nodes"@, ready_shown(model.entry_nodes, alternate)),
        entry_text("node_count"@, decimal_text(model.nodes.len())),
        entry_text("limits"@, execution_shown(model.limits, alternate)),
        entry_text("definition_digest"@, digest_shown(model.definition_digest, alternate)),
    ]
}

/// What is shown of a graph: how many nodes it has, and its pins.
pub open spec fn graph_shown(model: GraphModel, alternate: bool) -> Seq<char> {
    struct_text("CompiledGraph"@, graph_fields(model, alternate), true, alternate)
}

impl CompiledGraph {
    /// Returns what is shown of it for debugging.
    pub fn debug_text(&self, alternate: bool) -> (r: String)
        ensures
            r@ == graph_shown(self@, alternate),
    {
        let fields = vec![
            entry_string("identity", self.parts.identity.debug_text(alternate)),
            entry_string("input_schema", self.parts.input_schema.debug_text(alternate)),
            entry_string("state_schema", self.parts.state_schema.debug_text(alternate)),
            entry_string("update_schema", self.parts.update_schema.debug_text(alternate)),
            entry_string("output_schema", self.parts.output_schema.debug_text(alternate)),
            entry_string("reducer", self.parts.reducer.debug_text(alternate)),
            entry_string("entry_nodes", self.parts.entry_nodes.debug_text(alternate)),
            entry_string("node_count", number_string(self.parts.nodes.len())),
            entry_string("limits", self.parts.limits.debug_text(alternate)),
            entry_string("definition_digest", self.definition_digest.debug_text(alternate)),
        ];
        assert(texts(fields@) =~= graph_fields(self@, alternate));
        struct_string("CompiledGraph", &fields, true, alternate)
    }
}

impl core::fmt::Debug for CompiledGraph {
    fn fmt(&self, formatter: &mut core::fmt::Formatter<'_>) -> core::fmt::Result {
        let alternate: bool = is_alternate(formatter);
        write_text(formatter, self.debug_text(alternate).as_str())
    }
}

} // verus!
