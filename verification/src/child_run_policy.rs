//! Declared delegation: which child runs a node may start.

use vstd::prelude::*;

use crate::canonical::{domain_digest, domain_separated_digest};
use crate::child_run_error::ChildRunPolicyError;
use crate::debug::{
    entry_string, entry_text, is_alternate, list_string, list_text, name_text, number_string,
    struct_string, struct_text, write_text,
};
use crate::decimal::decimal_text;
use crate::digest::{digest_shown, digest_text, Digest};
use crate::graph::{graph_reference, CompiledGraph, GraphModel};
use crate::graph_node::GraphNode;
use crate::graph_shape::node_names;
use crate::json::{json_equal, BoundedJson};
use crate::json_value::{Json, JsonMember, JsonNumber, JsonValue, Member, NumberModel};
use crate::names::{ChildRunSlot, NodeId};
use crate::options::option_ref_view;
use crate::ordered::{
    arranged, arranged_is_sorted, ascending, find, insert_new, keys, lookup, views, Keyed,
};
use crate::pins::{
    capability_identity_json, capability_identity_shown, graph_reference_json,
    graph_reference_shown, schema_json, schema_shown, CapabilityIdentity, CapabilityIdentityModel,
    GraphReference, GraphReferenceModel, SchemaModel, SchemaReference,
};
use crate::text::texts;

verus! {

// ---------------------------------------------------------------------------
// Agents
// ---------------------------------------------------------------------------

/// An agent: what it is, what it takes and gives, and its whole definition.
#[derive(Debug)]
pub struct AgentDescriptor {
    identity: CapabilityIdentity,
    input_schema: SchemaReference,
    output_schema: SchemaReference,
    definition: BoundedJson,
}

/// The values of [`AgentDescriptor`].
pub ghost struct DescriptorModel {
    pub identity: CapabilityIdentityModel,
    pub input_schema: SchemaModel,
    pub output_schema: SchemaModel,
    pub definition: Json,
}

impl View for AgentDescriptor {
    type V = DescriptorModel;

    closed spec fn view(&self) -> DescriptorModel {
        DescriptorModel {
            identity: self.identity@,
            input_schema: self.input_schema@,
            output_schema: self.output_schema@,
            definition: self.definition@,
        }
    }
}

impl AgentDescriptor {
    /// Describes an agent.
    pub fn new(
        identity: CapabilityIdentity,
        input_schema: SchemaReference,
        output_schema: SchemaReference,
        definition: BoundedJson,
    ) -> (r: AgentDescriptor)
        ensures
            r@ == (DescriptorModel {
                identity: identity@,
                input_schema: input_schema@,
                output_schema: output_schema@,
                definition: definition@,
            }),
    {
        AgentDescriptor { identity, input_schema, output_schema, definition }
    }

    /// Returns the identity.
    pub fn identity(&self) -> (r: &CapabilityIdentity)
        ensures
            r@ == self@.identity,
    {
        &self.identity
    }

    /// Returns the schema of its input.
    pub fn input_schema(&self) -> (r: &SchemaReference)
        ensures
            r@ == self@.input_schema,
    {
        &self.input_schema
    }

    /// Returns the schema of its output.
    pub fn output_schema(&self) -> (r: &SchemaReference)
        ensures
            r@ == self@.output_schema,
    {
        &self.output_schema
    }

    /// Returns the definition as JSON.
    pub fn definition(&self) -> (r: &BoundedJson)
        ensures
            r@ == self@.definition,
    {
        &self.definition
    }
}

impl Clone for AgentDescriptor {
    fn clone(&self) -> (r: Self)
        ensures
            r@ == self@,
    {
        AgentDescriptor {
            identity: self.identity.clone(),
            input_schema: self.input_schema.clone(),
            output_schema: self.output_schema.clone(),
            definition: self.definition.clone(),
        }
    }
}

/// The agents have equal definitions and agree in all else.
pub open spec fn descriptor_equal(a: DescriptorModel, b: DescriptorModel) -> bool {
    &&& a.identity == b.identity
    &&& a.input_schema == b.input_schema
    &&& a.output_schema == b.output_schema
    &&& json_equal(a.definition, b.definition)
}

impl PartialEq for AgentDescriptor {
    fn eq(&self, other: &Self) -> (r: bool) {
        self.identity == other.identity
            && self.input_schema == other.input_schema
            && self.output_schema == other.output_schema
            && self.definition == other.definition
    }
}

impl vstd::std_specs::cmp::PartialEqSpecImpl for AgentDescriptor {
    open spec fn obeys_eq_spec() -> bool {
        true
    }

    open spec fn eq_spec(&self, other: &Self) -> bool {
        descriptor_equal(self@, other@)
    }
}

impl Eq for AgentDescriptor {

}

/// An agent, pinned by the digest of its definition.
pub struct ChildAgentReference {
    identity: CapabilityIdentity,
    definition_digest: Digest,
}

/// The values of [`ChildAgentReference`].
pub ghost struct AgentPinModel {
    pub identity: CapabilityIdentityModel,
    pub definition_digest: Seq<u8>,
}

impl View for ChildAgentReference {
    type V = AgentPinModel;

    closed spec fn view(&self) -> AgentPinModel {
        AgentPinModel {
            identity: self.identity@,
            definition_digest: self.definition_digest@,
        }
    }
}

impl ChildAgentReference {
    /// Returns the identity.
    pub fn identity(&self) -> (r: &CapabilityIdentity)
        ensures
            r@ == self@.identity,
    {
        &self.identity
    }

    /// Returns the digest of the definition.
    pub fn definition_digest(&self) -> (r: Digest)
        ensures
            r@ == self@.definition_digest,
    {
        self.definition_digest
    }

    /// Writes the JSON form.
    pub fn to_json(&self) -> (r: JsonValue)
        ensures
            r@ == agent_pin_json(self@),
    {
        let members = vec![
            JsonMember::new("identity", self.identity.to_json()),
            JsonMember::new("definition_digest", JsonValue::Text(self.definition_digest.to_string())),
        ];
        let r = JsonValue::object(members);
        assert(r@->Object_0 =~= agent_pin_json(self@)->Object_0);
        r
    }
}

/// The JSON form of [`ChildAgentReference`].
pub open spec fn agent_pin_json(model: AgentPinModel) -> Json {
    Json::Object(
        seq![
            Member { name: "identity"@, value: capability_identity_json(model.identity) },
            Member { name: "definition_digest"@, value: Json::Text(digest_text(model.definition_digest)) },
        ],
    )
}

impl Clone for ChildAgentReference {
    fn clone(&self) -> (r: Self)
        ensures
            r@ == self@,
    {
        ChildAgentReference {
            identity: self.identity.clone(),
            definition_digest: self.definition_digest,
        }
    }
}

impl PartialEq for ChildAgentReference {
    fn eq(&self, other: &Self) -> (r: bool) {
        self.identity == other.identity
            && self.definition_digest == other.definition_digest
    }
}

impl vstd::std_specs::cmp::PartialEqSpecImpl for ChildAgentReference {
    open spec fn obeys_eq_spec() -> bool {
        true
    }

    open spec fn eq_spec(&self, other: &Self) -> bool {
        self@ == other@
    }
}

impl Eq for ChildAgentReference {

}

/// The bytes of `stateknot.child-agent-definition.v1` and a zero byte.
pub open spec fn agent_domain() -> Seq<u8> {
    vstd::utf8::encode_utf8("stateknot.child-agent-definition.v1"@).push(0u8)
}

/// The pin of an agent.
pub open spec fn agent_pin(agent: DescriptorModel) -> Result<AgentPinModel, ChildRunPolicyError> {
    match domain_digest(agent_domain(), agent.definition) {
        Some(definition_digest) => Ok(
            AgentPinModel { identity: agent.identity, definition_digest },
        ),
        None => Err(ChildRunPolicyError::AgentEncoding),
    }
}

impl ChildAgentReference {
    /// Restores a pin from its recorded parts.
    pub fn restore(identity: CapabilityIdentity, definition_digest: Digest) -> (r:
        ChildAgentReference)
        ensures
            r@.identity == identity@,
            r@.definition_digest == definition_digest@,
    {
        ChildAgentReference { identity, definition_digest }
    }

    /// Pins an agent by the digest of its whole definition.
    pub fn from_descriptor(descriptor: &AgentDescriptor) -> (r: Result<
        ChildAgentReference,
        ChildRunPolicyError,
    >)
        ensures
            match (r, agent_pin(descriptor@)) {
                (Ok(pin), Ok(model)) => pin@ == model,
                (Err(e), Err(expected)) => e == expected,
                _ => false,
            },
    {
        let mut domain: Vec<u8> = Vec::new();
        domain.extend_from_slice("stateknot.child-agent-definition.v1".as_bytes());
        domain.push(0);
        assert(domain@ =~= agent_domain());
        match domain_separated_digest(domain.as_slice(), descriptor.definition.as_value()) {
            Some(definition_digest) => Ok(
                ChildAgentReference { identity: descriptor.identity.clone(), definition_digest },
            ),
            None => Err(ChildRunPolicyError::AgentEncoding),
        }
    }
}

// ---------------------------------------------------------------------------
// Limits
// ---------------------------------------------------------------------------

/// How far delegation may go.
#[derive(Clone, Copy, PartialEq, Eq, Structural)]
pub struct ChildRunTopologyLimits {
    maximum_descendant_depth: u16,
    maximum_children_per_run: u16,
    maximum_active_descendants: u16,
}

/// The values of [`ChildRunTopologyLimits`].
pub ghost struct TopologyModel {
    pub depth: u16,
    pub children: u16,
    pub active: u16,
}

/// Each limit is positive and at most its maximum.
pub open spec fn topology_sound(limits: TopologyModel) -> bool {
    1 <= limits.depth <= 32 && 1 <= limits.children <= 256 && 1 <= limits.active <= 256
}

/// The JSON form of topology limits.
pub open spec fn topology_json(limits: TopologyModel) -> Json {
    Json::Object(
        seq![
            Member {
                name: "maximum_descendant_depth"@,
                value: Json::Number(NumberModel::Unsigned(limits.depth as u64)),
            },
            Member {
                name: "maximum_children_per_run"@,
                value: Json::Number(NumberModel::Unsigned(limits.children as u64)),
            },
            Member {
                name: "maximum_active_descendants"@,
                value: Json::Number(NumberModel::Unsigned(limits.active as u64)),
            },
        ],
    )
}

impl View for ChildRunTopologyLimits {
    type V = TopologyModel;

    closed spec fn view(&self) -> TopologyModel {
        TopologyModel {
            depth: self.maximum_descendant_depth,
            children: self.maximum_children_per_run,
            active: self.maximum_active_descendants,
        }
    }
}

impl ChildRunTopologyLimits {
    /// Maximum depth of descendants.
    pub const MAX_DEPTH: u16 = 32;

    /// Maximum number of children and of active descendants.
    pub const MAX_CHILDREN: u16 = 256;

    /// Each limit is positive and at most its maximum.
    #[verifier::type_invariant]
    pub open spec fn well_formed(&self) -> bool {
        topology_sound(self@)
    }

    /// Limits are their values.
    pub broadcast proof fn view_determines(a: ChildRunTopologyLimits, b: ChildRunTopologyLimits)
        ensures
            #![trigger a.view(), b.view()]
            a.view() == b.view() ==> a == b,
    {
    }

    /// Validates topology limits.
    pub fn new(depth: u16, children: u16, active: u16) -> (r: Result<
        ChildRunTopologyLimits,
        ChildRunPolicyError,
    >)
        ensures
            r is Ok <==> topology_sound(TopologyModel { depth, children, active }),
            r matches Ok(limits) ==> limits@ == (TopologyModel { depth, children, active }),
            r matches Err(e) ==> e == ChildRunPolicyError::InvalidLimits,
    {
        if depth < 1 || depth > 32 || children < 1 || children > 256 || active < 1 || active > 256 {
            return Err(ChildRunPolicyError::InvalidLimits);
        }
        Ok(
            ChildRunTopologyLimits {
                maximum_descendant_depth: depth,
                maximum_children_per_run: children,
                maximum_active_descendants: active,
            },
        )
    }

    /// Returns the maximum depth of descendants.
    pub fn maximum_descendant_depth(self) -> (r: u16)
        ensures
            r == self@.depth,
    {
        self.maximum_descendant_depth
    }

    /// Returns the maximum number of children of one run.
    pub fn maximum_children_per_run(self) -> (r: u16)
        ensures
            r == self@.children,
    {
        self.maximum_children_per_run
    }

    /// Returns the maximum number of descendants that are active together.
    pub fn maximum_active_descendants(self) -> (r: u16)
        ensures
            r == self@.active,
    {
        self.maximum_active_descendants
    }

    /// Writes the JSON form.
    pub fn to_json(&self) -> (r: JsonValue)
        ensures
            r@ == topology_json(self@),
    {
        let members = vec![
            JsonMember::new(
                "maximum_descendant_depth",
                JsonValue::Number(JsonNumber::from_u64(self.maximum_descendant_depth as u64)),
            ),
            JsonMember::new(
                "maximum_children_per_run",
                JsonValue::Number(JsonNumber::from_u64(self.maximum_children_per_run as u64)),
            ),
            JsonMember::new(
                "maximum_active_descendants",
                JsonValue::Number(JsonNumber::from_u64(self.maximum_active_descendants as u64)),
            ),
        ];
        let r = JsonValue::object(members);
        assert(r@->Object_0 =~= topology_json(self@)->Object_0);
        r
    }
}

// ---------------------------------------------------------------------------
// Declarations
// ---------------------------------------------------------------------------

/// A child run that a node may start: the slot, the agent and the graph.
pub struct ChildRunDeclaration {
    key: String,
    node_id: NodeId,
    slot: ChildRunSlot,
    agent: ChildAgentReference,
    graph: GraphReference,
    input_schema: SchemaReference,
    output_schema: SchemaReference,
}

/// The values of [`ChildRunDeclaration`].
pub ghost struct DeclarationModel {
    pub node_id: Seq<char>,
    pub slot: Seq<char>,
    pub agent: AgentPinModel,
    pub graph: GraphReferenceModel,
    pub input_schema: SchemaModel,
    pub output_schema: SchemaModel,
}

/// The key of a slot of a node: the two names, a zero character between them.
pub open spec fn slot_key(node_id: Seq<char>, slot: Seq<char>) -> Seq<char> {
    node_id.push('\0') + slot
}

/// The JSON form of a declaration.
pub open spec fn declaration_json(model: DeclarationModel) -> Json {
    Json::Object(
        seq![
            Member { name: "node_id"@, value: Json::Text(model.node_id) },
            Member { name: "slot"@, value: Json::Text(model.slot) },
            Member { name: "agent"@, value: agent_pin_json(model.agent) },
            Member { name: "graph"@, value: graph_reference_json(model.graph) },
            Member { name: "input_schema"@, value: schema_json(model.input_schema) },
            Member { name: "output_schema"@, value: schema_json(model.output_schema) },
        ],
    )
}

/// What declaring a child run of an agent and a graph comes to.
pub open spec fn declaration(
    node_id: Seq<char>,
    slot: Seq<char>,
    agent: DescriptorModel,
    graph: GraphModel,
) -> Result<DeclarationModel, ChildRunPolicyError> {
    if agent.input_schema != graph.input_schema || agent.output_schema != graph.output_schema {
        Err(ChildRunPolicyError::TargetSchemaMismatch)
    } else {
        match agent_pin(agent) {
            Err(e) => Err(e),
            Ok(pin) => Ok(
                DeclarationModel {
                    node_id,
                    slot,
                    agent: pin,
                    graph: graph_reference(graph),
                    input_schema: agent.input_schema,
                    output_schema: agent.output_schema,
                },
            ),
        }
    }
}

/// How deep runs of the graph may delegate in turn.
pub open spec fn delegation_depth(graph: GraphModel) -> u16 {
    match graph.child_runs {
        Some(policy) => policy.limits.depth,
        None => 0,
    }
}

/// What a graph fails on as the target of a declaration.
pub open spec fn target_check(
    declared: DeclarationModel,
    target: GraphModel,
    limits: TopologyModel,
) -> Result<(), ChildRunPolicyError> {
    if graph_reference(target) != declared.graph {
        Err(ChildRunPolicyError::TargetGraphMismatch)
    } else if target.input_schema != declared.input_schema || target.output_schema
        != declared.output_schema {
        Err(ChildRunPolicyError::TargetSchemaMismatch)
    } else if delegation_depth(target) >= limits.depth {
        Err(ChildRunPolicyError::DepthNotNarrowed)
    } else {
        Ok(())
    }
}

/// Writes the key of a slot of a node.
fn slot_key_text(node_id: &NodeId, slot: &ChildRunSlot) -> (r: String)
    ensures
        r@ == slot_key(node_id@, slot@),
{
    let mut key: String = node_id.to_string();
    key.push('\0');
    key.append(slot.as_str());
    key
}

impl View for ChildRunDeclaration {
    type V = DeclarationModel;

    closed spec fn view(&self) -> DeclarationModel {
        DeclarationModel {
            node_id: self.node_id@,
            slot: self.slot@,
            agent: self.agent@,
            graph: self.graph@,
            input_schema: self.input_schema@,
            output_schema: self.output_schema@,
        }
    }
}

impl ChildRunDeclaration {
    /// The key is that of the slot of the node.
    #[verifier::type_invariant]
    pub closed spec fn well_formed(&self) -> bool {
        self.key@ == slot_key(self.node_id@, self.slot@)
    }

    /// Declares a child run. The agent and the graph must take and give the
    /// same.
    pub fn new(
        node_id: NodeId,
        slot: ChildRunSlot,
        agent: &AgentDescriptor,
        graph: &CompiledGraph,
    ) -> (r: Result<ChildRunDeclaration, ChildRunPolicyError>)
        ensures
            match (r, declaration(node_id@, slot@, agent@, graph@)) {
                (Ok(declared), Ok(model)) => declared@ == model,
                (Err(e), Err(expected)) => e == expected,
                _ => false,
            },
    {
        if *agent.input_schema() != *graph.input_schema() || *agent.output_schema()
            != *graph.output_schema() {
            return Err(ChildRunPolicyError::TargetSchemaMismatch);
        }
        let pin = ChildAgentReference::from_descriptor(agent)?;
        let key: String = slot_key_text(&node_id, &slot);
        Ok(
            ChildRunDeclaration {
                key,
                node_id,
                slot,
                agent: pin,
                graph: graph.reference(),
                input_schema: agent.input_schema().clone(),
                output_schema: agent.output_schema().clone(),
            },
        )
    }

    /// Restores a declaration from its parts.
    pub fn restore(
        node_id: NodeId,
        slot: ChildRunSlot,
        agent: ChildAgentReference,
        graph: GraphReference,
        input_schema: SchemaReference,
        output_schema: SchemaReference,
    ) -> (r: ChildRunDeclaration)
        ensures
            r@ == (DeclarationModel {
                node_id: node_id@,
                slot: slot@,
                agent: agent@,
                graph: graph@,
                input_schema: input_schema@,
                output_schema: output_schema@,
            }),
    {
        let key: String = slot_key_text(&node_id, &slot);
        ChildRunDeclaration { key, node_id, slot, agent, graph, input_schema, output_schema }
    }

    /// Returns the node.
    pub fn node_id(&self) -> (r: &NodeId)
        ensures
            r@ == self@.node_id,
    {
        &self.node_id
    }

    /// Returns the slot.
    pub fn slot(&self) -> (r: &ChildRunSlot)
        ensures
            r@ == self@.slot,
    {
        &self.slot
    }

    /// Returns the pinned agent.
    pub fn agent(&self) -> (r: &ChildAgentReference)
        ensures
            r@ == self@.agent,
    {
        &self.agent
    }

    /// Returns the pinned graph.
    pub fn graph(&self) -> (r: &GraphReference)
        ensures
            r@ == self@.graph,
    {
        &self.graph
    }

    /// Returns the schema of the input.
    pub fn input_schema(&self) -> (r: &SchemaReference)
        ensures
            r@ == self@.input_schema,
    {
        &self.input_schema
    }

    /// Returns the schema of the output.
    pub fn output_schema(&self) -> (r: &SchemaReference)
        ensures
            r@ == self@.output_schema,
    {
        &self.output_schema
    }

    /// Checks that the graph is the declared one and delegates less deep than
    /// the limits allow.
    pub fn validate_target(&self, target: &CompiledGraph, limits: ChildRunTopologyLimits) -> (r:
        Result<(), ChildRunPolicyError>)
        ensures
            r == target_check(self@, target@, limits@),
    {
        if target.reference() != self.graph {
            return Err(ChildRunPolicyError::TargetGraphMismatch);
        }
        if *target.input_schema() != self.input_schema || *target.output_schema()
            != self.output_schema {
            return Err(ChildRunPolicyError::TargetSchemaMismatch);
        }
        let depth: u16 = match target.child_runs() {
            Some(policy) => policy.limits().maximum_descendant_depth(),
            None => 0,
        };
        if depth >= limits.maximum_descendant_depth() {
            return Err(ChildRunPolicyError::DepthNotNarrowed);
        }
        Ok(())
    }

    /// Writes the JSON form.
    pub fn to_json(&self) -> (r: JsonValue)
        ensures
            r@ == declaration_json(self@),
    {
        let members = vec![
            JsonMember::new("node_id", JsonValue::text(self.node_id.as_str())),
            JsonMember::new("slot", JsonValue::text(self.slot.as_str())),
            JsonMember::new("agent", self.agent.to_json()),
            JsonMember::new("graph", self.graph.to_json()),
            JsonMember::new("input_schema", self.input_schema.to_json()),
            JsonMember::new("output_schema", self.output_schema.to_json()),
        ];
        let r = JsonValue::object(members);
        assert(r@->Object_0 =~= declaration_json(self@)->Object_0);
        r
    }
}

impl Keyed for ChildRunDeclaration {
    open spec fn key_of(model: DeclarationModel) -> Seq<char> {
        slot_key(model.node_id, model.slot)
    }

    open spec fn sound(model: DeclarationModel) -> bool {
        true
    }

    fn key_text(&self) -> (r: &str) {
        proof {
            use_type_invariant(self);
        }
        self.key.as_str()
    }
}

impl Clone for ChildRunDeclaration {
    fn clone(&self) -> (r: Self)
        ensures
            r@ == self@,
    {
        proof {
            use_type_invariant(self);
        }
        ChildRunDeclaration {
            key: self.key.clone(),
            node_id: self.node_id.clone(),
            slot: self.slot.clone(),
            agent: self.agent.clone(),
            graph: self.graph.clone(),
            input_schema: self.input_schema.clone(),
            output_schema: self.output_schema.clone(),
        }
    }
}

impl PartialEq for ChildRunDeclaration {
    fn eq(&self, other: &Self) -> (r: bool) {
        self.node_id == other.node_id && self.slot == other.slot && self.agent == other.agent
            && self.graph == other.graph && self.input_schema == other.input_schema
            && self.output_schema == other.output_schema
    }
}

impl vstd::std_specs::cmp::PartialEqSpecImpl for ChildRunDeclaration {
    open spec fn obeys_eq_spec() -> bool {
        true
    }

    open spec fn eq_spec(&self, other: &Self) -> bool {
        self@ == other@
    }
}

impl Eq for ChildRunDeclaration {

}

// ---------------------------------------------------------------------------
// Policy
// ---------------------------------------------------------------------------

/// All child runs that the nodes of a graph may start.
pub struct GraphChildRunPolicy {
    limits: ChildRunTopologyLimits,
    declarations: Vec<ChildRunDeclaration>,
}

/// The values of [`GraphChildRunPolicy`].
pub ghost struct PolicyModel {
    pub limits: TopologyModel,
    pub declarations: Seq<DeclarationModel>,
}

/// How many declarations belong to the node.
pub open spec fn slots_of(declarations: Seq<DeclarationModel>, node_id: Seq<char>) -> nat
    decreases declarations.len(),
{
    if declarations.len() == 0 {
        0
    } else {
        slots_of(declarations.drop_last(), node_id) + if declarations.last().node_id == node_id {
            1nat
        } else {
            0nat
        }
    }
}

/// What one more declaration fails on, after those that are done.
pub open spec fn declaration_failure(
    done: Seq<DeclarationModel>,
    declared: DeclarationModel,
) -> Option<ChildRunPolicyError> {
    if done.len() >= 256 {
        Some(ChildRunPolicyError::TooManyDeclarations)
    } else if slots_of(done, declared.node_id) + 1 > 64 {
        Some(ChildRunPolicyError::TooManyNodeSlots)
    } else if keys::<ChildRunDeclaration>(done).contains(
        slot_key(declared.node_id, declared.slot),
    ) {
        Some(ChildRunPolicyError::DuplicateSlot)
    } else {
        None
    }
}

/// The first failure among declarations, in the order in which they come.
pub open spec fn declarations_failure(declarations: Seq<DeclarationModel>, from: int) -> Option<
    ChildRunPolicyError,
>
    decreases declarations.len() - from,
{
    if from < 0 || from >= declarations.len() {
        None
    } else {
        match declaration_failure(declarations.take(from), declarations[from]) {
            Some(e) => Some(e),
            None => declarations_failure(declarations, from + 1),
        }
    }
}

/// What collecting declarations comes to: the declarations in the order of
/// node and slot.
pub open spec fn collected_declarations(declarations: Seq<DeclarationModel>) -> Result<
    Seq<DeclarationModel>,
    ChildRunPolicyError,
> {
    match declarations_failure(declarations, 0) {
        Some(e) => Err(e),
        None => if declarations.len() == 0 {
            Err(ChildRunPolicyError::EmptyDeclarations)
        } else {
            Ok(arranged::<ChildRunDeclaration>(declarations))
        },
    }
}

/// The JSON form of a policy.
pub open spec fn policy_json(policy: PolicyModel) -> Json {
    Json::Object(
        seq![
            Member { name: "version"@, value: Json::Number(NumberModel::Unsigned(1)) },
            Member { name: "limits"@, value: topology_json(policy.limits) },
            Member {
                name: "declarations"@,
                value: Json::Array(
                    Seq::new(
                        policy.declarations.len(),
                        |i: int| declaration_json(policy.declarations[i]),
                    ),
                ),
            },
        ],
    )
}

/// Every declaration belongs to one of the nodes.
pub open spec fn policy_fits(policy: PolicyModel, names: Seq<Seq<char>>) -> bool {
    forall|i: int|
        0 <= i < policy.declarations.len() ==> names.contains(
            (#[trigger] policy.declarations[i]).node_id,
        )
}

fn count_slots(nodes: &Vec<NodeId>, node_id: &NodeId, done: Ghost<Seq<DeclarationModel>>) -> (r:
    usize)
    requires
        nodes@.len() == done@.len(),
        forall|i: int| 0 <= i < nodes@.len() ==> (#[trigger] nodes@[i])@ == done@[i].node_id,
    ensures
        r == slots_of(done@, node_id@),
        r <= nodes@.len(),
{
    let mut count: usize = 0;
    let mut i: usize = 0;
    assert(done@.take(0) =~= Seq::<DeclarationModel>::empty());
    while i < nodes.len()
        invariant
            i <= nodes@.len() == done@.len(),
            forall|k: int| 0 <= k < nodes@.len() ==> (#[trigger] nodes@[k])@ == done@[k].node_id,
            count == slots_of(done@.take(i as int), node_id@),
            count <= i,
        decreases nodes@.len() - i,
    {
        assert(done@.take(i + 1).drop_last() =~= done@.take(i as int));
        if nodes[i] == *node_id {
            count = count + 1;
        }
        i = i + 1;
    }
    assert(done@.take(i as int) =~= done@);
    count
}

impl View for GraphChildRunPolicy {
    type V = PolicyModel;

    closed spec fn view(&self) -> PolicyModel {
        PolicyModel { limits: self.limits@, declarations: views(self.declarations@) }
    }
}

impl GraphChildRunPolicy {
    /// Maximum number of declarations.
    pub const MAX_DECLARATIONS: usize = 256;

    /// Maximum number of slots of one node.
    pub const MAX_SLOTS_PER_NODE: usize = 64;

    /// The declarations are in order, and no slot is declared twice.
    #[verifier::type_invariant]
    pub open spec fn well_formed(&self) -> bool {
        &&& ascending(keys::<ChildRunDeclaration>(self@.declarations))
        &&& 0 < self@.declarations.len() <= 256
        &&& topology_sound(self@.limits)
    }

    /// Collects declarations.
    pub fn new(limits: ChildRunTopologyLimits, declarations: Vec<ChildRunDeclaration>) -> (r: Result<
        GraphChildRunPolicy,
        ChildRunPolicyError,
    >)
        ensures
            match (r, collected_declarations(views(declarations@))) {
                (Ok(policy), Ok(models)) => policy@ == (PolicyModel {
                    limits: limits@,
                    declarations: models,
                }),
                (Err(e), Err(expected)) => e == expected,
                _ => false,
            },
    {
        proof {
            use_type_invariant(&limits);
        }
        let ghost all = declarations@;
        let ghost models = views(all);
        let mut nodes: Vec<NodeId> = Vec::new();
        let mut sorted: Vec<ChildRunDeclaration> = Vec::new();
        proof {
            assert(models.take(0) =~= Seq::<DeclarationModel>::empty());
            assert(views(sorted@) =~= arranged::<ChildRunDeclaration>(models.take(0)));
            assert(keys::<ChildRunDeclaration>(models.take(0)) =~= Seq::<Seq<char>>::empty());
            assert(keys::<ChildRunDeclaration>(views(sorted@)) =~= Seq::<Seq<char>>::empty());
        }
        for declared in entries: declarations
            invariant
                entries.seq() == all,
                models == views(all),
                sorted@.len() == entries.index(),
                sorted@.len() <= 256,
                nodes@.len() == sorted@.len(),
                forall|k: int|
                    0 <= k < nodes@.len() ==> (#[trigger] nodes@[k])@ == models[k].node_id,
                declarations_failure(models, 0) == declarations_failure(
                    models,
                    sorted@.len() as int,
                ),
                keys::<ChildRunDeclaration>(models.take(sorted@.len() as int)).no_duplicates(),
                ascending(keys::<ChildRunDeclaration>(views(sorted@))),
                views(sorted@) == arranged::<ChildRunDeclaration>(
                    models.take(sorted@.len() as int),
                ),
        {
            let ghost n = sorted@.len() as int;
            let ghost done = models.take(n);
            proof {
                assert(declared == all[n]);
                assert(models[n] == declared@);
                assert(models.take(n + 1).drop_last() =~= done);
                arranged_is_sorted::<ChildRunDeclaration>(done);
            }
            if sorted.len() == 256 {
                return Err(ChildRunPolicyError::TooManyDeclarations);
            }
            let node_id = declared.node_id().clone();
            if count_slots(&nodes, &node_id, Ghost(done)) + 1 > 64 {
                return Err(ChildRunPolicyError::TooManyNodeSlots);
            }
            let ghost key = slot_key(models[n].node_id, models[n].slot);
            let ghost (x, y) = (
                keys::<ChildRunDeclaration>(done),
                keys::<ChildRunDeclaration>(models.take(n + 1)),
            );
            proof {
                assert(keys::<ChildRunDeclaration>(views(sorted@)).contains(key) <==> x.contains(
                    key,
                ));
            }
            if !insert_new(&mut sorted, declared) {
                return Err(ChildRunPolicyError::DuplicateSlot);
            }
            nodes.push(node_id);
            proof {
                assert(y =~= x.push(key));
            }
        }
        proof {
            assert(models.take(models.len() as int) =~= models);
        }
        if sorted.len() == 0 {
            return Err(ChildRunPolicyError::EmptyDeclarations);
        }
        Ok(GraphChildRunPolicy { limits, declarations: sorted })
    }

    /// Restores a policy of the given version.
    pub fn restore(
        version: u8,
        limits: ChildRunTopologyLimits,
        declarations: Vec<ChildRunDeclaration>,
    ) -> (r: Result<GraphChildRunPolicy, ChildRunPolicyError>)
        ensures
            version != 1 ==> r == Err::<GraphChildRunPolicy, ChildRunPolicyError>(
                ChildRunPolicyError::UnsupportedVersion,
            ),
            version == 1 ==> match (r, collected_declarations(views(declarations@))) {
                (Ok(policy), Ok(models)) => policy@ == (PolicyModel {
                    limits: limits@,
                    declarations: models,
                }),
                (Err(e), Err(expected)) => e == expected,
                _ => false,
            },
    {
        if version != 1 {
            return Err(ChildRunPolicyError::UnsupportedVersion);
        }
        GraphChildRunPolicy::new(limits, declarations)
    }

    /// Returns the topology limits.
    pub fn limits(&self) -> (r: ChildRunTopologyLimits)
        ensures
            r@ == self@.limits,
    {
        self.limits
    }

    /// Returns the declarations in order.
    pub fn declarations(&self) -> (r: &[ChildRunDeclaration])
        ensures
            views(r@) == self@.declarations,
            self.well_formed(),
    {
        proof {
            use_type_invariant(self);
        }
        self.declarations.as_slice()
    }

    /// Looks the declaration of a slot of a node up.
    pub fn declaration(&self, node: &NodeId, slot: &ChildRunSlot) -> (r: Option<
        &ChildRunDeclaration,
    >)
        ensures
            option_ref_view(r) == find::<ChildRunDeclaration>(
                self@.declarations,
                slot_key(node@, slot@),
            ),
    {
        proof {
            use_type_invariant(self);
        }
        let key: String = slot_key_text(node, slot);
        lookup(self.declarations.as_slice(), key.as_str())
    }

    /// Checks that every declaration belongs to one of the nodes.
    pub(crate) fn validate_nodes(&self, nodes: &[GraphNode]) -> (r: Result<(), ChildRunPolicyError>)
        requires
            ascending(node_names(views(nodes@))),
        ensures
            r == (if policy_fits(self@, node_names(views(nodes@))) {
                Ok(())
            } else {
                Err(ChildRunPolicyError::UndeclaredParentNode)
            }),
    {
        let ghost names = node_names(views(nodes@));
        let mut i: usize = 0;
        while i < self.declarations.len()
            invariant
                names == node_names(views(nodes@)),
                ascending(names),
                i <= self.declarations@.len(),
                forall|k: int|
                    0 <= k < i ==> names.contains((#[trigger] self@.declarations[k]).node_id),
            decreases self.declarations@.len() - i,
        {
            assert(self@.declarations[i as int] == self.declarations@[i as int]@);
            if !crate::ordered::holds(nodes, self.declarations[i].node_id().as_str()) {
                return Err(ChildRunPolicyError::UndeclaredParentNode);
            }
            i = i + 1;
        }
        Ok(())
    }

    /// Writes the JSON form.
    pub fn to_json(&self) -> (r: JsonValue)
        ensures
            r@ == policy_json(self@),
    {
        let mut items: Vec<JsonValue> = Vec::new();
        let mut i: usize = 0;
        while i < self.declarations.len()
            invariant
                i <= self.declarations@.len(),
                items@.len() == i,
                forall|k: int|
                    0 <= k < i ==> (#[trigger] items@[k])@ == declaration_json(
                        self.declarations@[k]@,
                    ),
            decreases self.declarations@.len() - i,
        {
            items.push(self.declarations[i].to_json());
            i = i + 1;
        }
        let list = JsonValue::array(items);
        assert(list@->Array_0 =~= Seq::new(
            self@.declarations.len(),
            |i: int| declaration_json(self@.declarations[i]),
        ));
        let members = vec![
            JsonMember::new("version", JsonValue::Number(JsonNumber::from_u64(1))),
            JsonMember::new("limits", self.limits.to_json()),
            JsonMember::new("declarations", list),
        ];
        let r = JsonValue::object(members);
        assert(r@->Object_0 =~= policy_json(self@)->Object_0);
        r
    }
}

impl Clone for GraphChildRunPolicy {
    fn clone(&self) -> (r: Self)
        ensures
            r@ == self@,
    {
        proof {
            use_type_invariant(self);
        }
        let mut declarations: Vec<ChildRunDeclaration> = Vec::new();
        let mut i: usize = 0;
        while i < self.declarations.len()
            invariant
                i <= self.declarations@.len(),
                declarations@.len() == i,
                forall|k: int|
                    0 <= k < i ==> (#[trigger] declarations@[k])@ == self.declarations@[k]@,
            decreases self.declarations@.len() - i,
        {
            declarations.push(self.declarations[i].clone());
            i = i + 1;
        }
        assert(views(declarations@) =~= views(self.declarations@));
        GraphChildRunPolicy { limits: self.limits, declarations }
    }
}

impl PartialEq for GraphChildRunPolicy {
    fn eq(&self, other: &Self) -> (r: bool) {
        broadcast use ChildRunTopologyLimits::view_determines;

        if self.limits != other.limits || self.declarations.len() != other.declarations.len() {
            assert(self@.limits != other@.limits || self@.declarations.len()
                != other@.declarations.len());
            return false;
        }
        let mut i: usize = 0;
        while i < self.declarations.len()
            invariant
                i <= self.declarations@.len() == other.declarations@.len(),
                forall|k: int|
                    0 <= k < i ==> #[trigger] self@.declarations[k] == other@.declarations[k],
            decreases self.declarations@.len() - i,
        {
            if self.declarations[i] != other.declarations[i] {
                assert(self@.declarations[i as int] != other@.declarations[i as int]);
                return false;
            }
            i = i + 1;
        }
        assert(self@.declarations =~= other@.declarations);
        true
    }
}

impl vstd::std_specs::cmp::PartialEqSpecImpl for GraphChildRunPolicy {
    open spec fn obeys_eq_spec() -> bool {
        true
    }

    open spec fn eq_spec(&self, other: &Self) -> bool {
        self@ == other@
    }
}

impl Eq for GraphChildRunPolicy {

}

// ---------------------------------------------------------------------------
// Admission
// ---------------------------------------------------------------------------

/// A request to start a child run: where the parent stands, and the child.
#[derive(Debug)]
pub struct ChildRunAdmissionIntent {
    parent_graph: GraphReference,
    node_id: NodeId,
    slot: ChildRunSlot,
    child_graph: CompiledGraph,
    child: AgentDescriptor,
}

/// The values of [`ChildRunAdmissionIntent`].
pub ghost struct AdmissionModel {
    pub parent_graph: GraphReferenceModel,
    pub node_id: Seq<char>,
    pub slot: Seq<char>,
    pub child_graph: GraphModel,
    pub child: DescriptorModel,
}

/// What a request to start a child run fails on, given the parent graph.
pub open spec fn admission_check(intent: AdmissionModel, parent: GraphModel) -> Result<
    (),
    ChildRunPolicyError,
> {
    if intent.parent_graph != graph_reference(parent) {
        Err(ChildRunPolicyError::ParentGraphMismatch)
    } else {
        match parent.child_runs {
            None => Err(ChildRunPolicyError::DelegationNotDeclared),
            Some(policy) => match find::<ChildRunDeclaration>(
                policy.declarations,
                slot_key(intent.node_id, intent.slot),
            ) {
                None => Err(ChildRunPolicyError::DelegationNotDeclared),
                Some(declared) => match target_check(declared, intent.child_graph, policy.limits) {
                    Err(e) => Err(e),
                    Ok(()) => match agent_pin(intent.child) {
                        Err(e) => Err(e),
                        Ok(pin) => if declared.agent != pin {
                            Err(ChildRunPolicyError::TargetAgentMismatch)
                        } else {
                            Ok(())
                        },
                    },
                },
            },
        }
    }
}

impl View for ChildRunAdmissionIntent {
    type V = AdmissionModel;

    closed spec fn view(&self) -> AdmissionModel {
        AdmissionModel {
            parent_graph: self.parent_graph@,
            node_id: self.node_id@,
            slot: self.slot@,
            child_graph: self.child_graph@,
            child: self.child@,
        }
    }
}

impl ChildRunAdmissionIntent {
    /// Asks to start a child run from a slot of a node of the parent.
    pub fn new(
        parent_graph: GraphReference,
        node_id: NodeId,
        slot: ChildRunSlot,
        child_graph: CompiledGraph,
        child: AgentDescriptor,
    ) -> (r: ChildRunAdmissionIntent)
        ensures
            r@ == (AdmissionModel {
                parent_graph: parent_graph@,
                node_id: node_id@,
                slot: slot@,
                child_graph: child_graph@,
                child: child@,
            }),
    {
        ChildRunAdmissionIntent { parent_graph, node_id, slot, child_graph, child }
    }

    /// Checks that the parent declares this child run.
    pub fn validate_declaration(&self, parent: &CompiledGraph) -> (r: Result<
        (),
        ChildRunPolicyError,
    >)
        ensures
            r == admission_check(self@, parent@),
    {
        if self.parent_graph != parent.reference() {
            return Err(ChildRunPolicyError::ParentGraphMismatch);
        }
        let policy = match parent.child_runs() {
            Some(policy) => policy,
            None => {
                return Err(ChildRunPolicyError::DelegationNotDeclared);
            },
        };
        let declared = match policy.declaration(&self.node_id, &self.slot) {
            Some(declared) => declared,
            None => {
                return Err(ChildRunPolicyError::DelegationNotDeclared);
            },
        };
        declared.validate_target(&self.child_graph, policy.limits())?;
        let pin = ChildAgentReference::from_descriptor(&self.child)?;
        if *declared.agent() != pin {
            return Err(ChildRunPolicyError::TargetAgentMismatch);
        }
        Ok(())
    }
}

// ---------------------------------------------------------------------------
// Debug output
// ---------------------------------------------------------------------------

/// The fields that are shown of a pinned agent.
pub open spec fn agent_pin_fields(model: AgentPinModel, alternate: bool) -> Seq<Seq<char>> {
    seq![
        entry_text("identity"@, capability_identity_shown(model.identity, alternate)),
        entry_text("definition_digest"@, digest_shown(model.definition_digest, alternate)),
    ]
}

/// What is shown of a pinned agent.
pub open spec fn agent_pin_shown(model: AgentPinModel, alternate: bool) -> Seq<char> {
    struct_text("ChildAgentReference"@, agent_pin_fields(model, alternate), false, alternate)
}

impl ChildAgentReference {
    /// Returns what is shown of it for debugging.
    pub fn debug_text(&self, alternate: bool) -> (r: String)
        ensures
            r@ == agent_pin_shown(self@, alternate),
    {
        let fields = vec![
            entry_string("identity", self.identity.debug_text(alternate)),
            entry_string("definition_digest", self.definition_digest.debug_text(alternate)),
        ];
        assert(texts(fields@) =~= agent_pin_fields(self@, alternate));
        struct_string("ChildAgentReference", &fields, false, alternate)
    }
}

impl core::fmt::Debug for ChildAgentReference {
    fn fmt(&self, formatter: &mut core::fmt::Formatter<'_>) -> core::fmt::Result {
        let alternate: bool = is_alternate(formatter);
        write_text(formatter, self.debug_text(alternate).as_str())
    }
}

/// The fields that are shown of limits.
pub open spec fn topology_fields(model: TopologyModel) -> Seq<Seq<char>> {
    seq![
        entry_text("maximum_descendant_depth"@, decimal_text(model.depth as nat)),
        entry_text("maximum_children_per_run"@, decimal_text(model.children as nat)),
        entry_text("maximum_active_descendants"@, decimal_text(model.active as nat)),
    ]
}

/// What is shown of limits.
pub open spec fn topology_shown(model: TopologyModel, alternate: bool) -> Seq<char> {
    struct_text("ChildRunTopologyLimits"@, topology_fields(model), false, alternate)
}

impl ChildRunTopologyLimits {
    /// Returns what is shown of it for debugging.
    pub fn debug_text(&self, alternate: bool) -> (r: String)
        ensures
            r@ == topology_shown(self@, alternate),
    {
        let fields = vec![
            entry_string(
                "maximum_descendant_depth",
                number_string(self.maximum_descendant_depth as usize),
            ),
            entry_string(
                "maximum_children_per_run",
                number_string(self.maximum_children_per_run as usize),
            ),
            entry_string(
                "maximum_active_descendants",
                number_string(self.maximum_active_descendants as usize),
            ),
        ];
        assert(texts(fields@) =~= topology_fields(self@));
        struct_string("ChildRunTopologyLimits", &fields, false, alternate)
    }
}

impl core::fmt::Debug for ChildRunTopologyLimits {
    fn fmt(&self, formatter: &mut core::fmt::Formatter<'_>) -> core::fmt::Result {
        let alternate: bool = is_alternate(formatter);
        write_text(formatter, self.debug_text(alternate).as_str())
    }
}

/// The fields that are shown of a declaration.
pub open spec fn declaration_fields(model: DeclarationModel, alternate: bool) -> Seq<Seq<char>> {
    seq![
        entry_text("node_id"@, name_text("NodeId"@, model.node_id, alternate)),
        entry_text("slot"@, name_text("ChildRunSlot"@, model.slot, alternate)),
        entry_text("agent"@, agent_pin_shown(model.agent, alternate)),
        entry_text("graph"@, graph_reference_shown(model.graph, alternate)),
        entry_text("input_schema"@, schema_shown(model.input_schema, alternate)),
        entry_text("output_schema"@, schema_shown(model.output_schema, alternate)),
    ]
}

/// What is shown of a declaration.
pub open spec fn declaration_shown(model: DeclarationModel, alternate: bool) -> Seq<char> {
    struct_text("ChildRunDeclaration"@, declaration_fields(model, alternate), false, alternate)
}

impl ChildRunDeclaration {
    /// Returns what is shown of it for debugging.
    pub fn debug_text(&self, alternate: bool) -> (r: String)
        ensures
            r@ == declaration_shown(self@, alternate),
    {
        let fields = vec![
            entry_string("node_id", self.node_id.debug_text(alternate)),
            entry_string("slot", self.slot.debug_text(alternate)),
            entry_string("agent", self.agent.debug_text(alternate)),
            entry_string("graph", self.graph.debug_text(alternate)),
            entry_string("input_schema", self.input_schema.debug_text(alternate)),
            entry_string("output_schema", self.output_schema.debug_text(alternate)),
        ];
        assert(texts(fields@) =~= declaration_fields(self@, alternate));
        struct_string("ChildRunDeclaration", &fields, false, alternate)
    }
}

impl core::fmt::Debug for ChildRunDeclaration {
    fn fmt(&self, formatter: &mut core::fmt::Formatter<'_>) -> core::fmt::Result {
        let alternate: bool = is_alternate(formatter);
        write_text(formatter, self.debug_text(alternate).as_str())
    }
}

/// What is shown of declarations.
pub open spec fn declaration_texts(models: Seq<DeclarationModel>, alternate: bool) -> Seq<
    Seq<char>,
> {
    Seq::new(models.len(), |i: int| declaration_shown(models[i], alternate))
}

fn declaration_strings(items: &[ChildRunDeclaration], alternate: bool) -> (r: Vec<String>)
    ensures
        texts(r@) == declaration_texts(views(items@), alternate),
{
    let ghost shown = declaration_texts(views(items@), alternate);
    let mut out: Vec<String> = Vec::new();
    let mut i: usize = 0;
    while i < items.len()
        invariant
            i <= items@.len(),
            shown == declaration_texts(views(items@), alternate),
            out@.len() == i,
            forall|j: int| 0 <= j < i ==> (#[trigger] out@[j])@ == shown[j],
        decreases items@.len() - i,
    {
        let item = &items[i];
        out.push(item.debug_text(alternate));
        i = i + 1;
    }
    assert(texts(out@) =~= shown);
    out
}

/// The fields that are shown of a policy.
pub open spec fn policy_fields(model: PolicyModel, alternate: bool) -> Seq<Seq<char>> {
    seq![
        entry_text("version"@, decimal_text(1)),
        entry_text("limits"@, topology_shown(model.limits, alternate)),
        entry_text(
            "declarations"@,
            list_text(declaration_texts(model.declarations, alternate), alternate),
        ),
    ]
}

/// What is shown of a policy.
pub open spec fn policy_shown(model: PolicyModel, alternate: bool) -> Seq<char> {
    struct_text("GraphChildRunPolicy"@, policy_fields(model, alternate), false, alternate)
}

impl GraphChildRunPolicy {
    /// Returns what is shown of it for debugging.
    pub fn debug_text(&self, alternate: bool) -> (r: String)
        ensures
            r@ == policy_shown(self@, alternate),
    {
        let fields = vec![
            entry_string("version", number_string(1)),
            entry_string("limits", self.limits.debug_text(alternate)),
            entry_string(
                "declarations",
                list_string(
                    &declaration_strings(self.declarations.as_slice(), alternate),
                    alternate,
                ),
            ),
        ];
        assert(texts(fields@) =~= policy_fields(self@, alternate));
        struct_string("GraphChildRunPolicy", &fields, false, alternate)
    }
}

impl core::fmt::Debug for GraphChildRunPolicy {
    fn fmt(&self, formatter: &mut core::fmt::Formatter<'_>) -> core::fmt::Result {
        let alternate: bool = is_alternate(formatter);
        write_text(formatter, self.debug_text(alternate).as_str())
    }
}

} // verus!
