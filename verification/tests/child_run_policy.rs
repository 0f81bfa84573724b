use stateknot_core::child_run_error::ChildRunPolicyError;
use stateknot_core::child_run_policy::{
    AgentDescriptor, ChildAgentReference, ChildRunAdmissionIntent, ChildRunDeclaration,
    ChildRunTopologyLimits, GraphChildRunPolicy,
};
use stateknot_core::composition::GraphComposition;
use stateknot_core::digest::Digest;
use stateknot_core::graph::CompiledGraph;
use stateknot_core::graph_node::{GraphExecutionLimits, GraphNode, GraphRoutes};
use stateknot_core::graph_shape::GraphCompileError;
use stateknot_core::identity::PrincipalIdentity;
use stateknot_core::json::BoundedJson;
use stateknot_core::json_value::{JsonMember, JsonValue};
use stateknot_core::names::{CapabilityName, ChildRunSlot, NodeId};
use stateknot_core::pins::{
    CapabilityIdentity, CapabilityReference, GraphReducerReference, SchemaReference,
};
use stateknot_core::ready::{ReadyNodes, Superstep};
use stateknot_core::template::{GraphCompositionError, SharedStateSubgraph};
use stateknot_core::version::Version;

fn version() -> Version {
    Version { major: 1, minor: 0, patch: 0 }
}

fn identity(name: &str) -> CapabilityIdentity {
    CapabilityIdentity::new(
        PrincipalIdentity::new(
            "https://issuer.example.com".parse().unwrap(),
            "agent-registry".parse().unwrap(),
        ),
        CapabilityReference::new(CapabilityName::new(name).unwrap(), version()),
    )
}

fn schema(name: &str) -> SchemaReference {
    SchemaReference::new(
        format!("https://example.com/schemas/{name}").parse().unwrap(),
        version(),
        Digest::sha256(name.as_bytes()),
    )
}

fn definition(turns: &str) -> BoundedJson {
    BoundedJson::try_from_value(JsonValue::object(vec![JsonMember::new(
        "model_turns",
        JsonValue::text(turns),
    )]))
    .unwrap()
}

fn agent() -> AgentDescriptor {
    AgentDescriptor::new(identity("analyst"), schema("input"), schema("output"), definition("8"))
}

fn graph(name: &str) -> CompiledGraph {
    let agent = agent();
    CompiledGraph::compile(
        identity(name),
        agent.input_schema().clone(),
        agent.input_schema().clone(),
        agent.input_schema().clone(),
        agent.output_schema().clone(),
        GraphReducerReference::new(identity(name), Digest::sha256(b"reducer")),
        ReadyNodes::try_new(vec![NodeId::new("work").unwrap()]).unwrap(),
        vec![GraphNode::new(NodeId::new("work").unwrap(), None, GraphRoutes::empty(), None, true)
            .unwrap()],
        GraphExecutionLimits::new(Superstep::new(10).unwrap(), 1).unwrap(),
    )
    .unwrap()
}

fn limits() -> ChildRunTopologyLimits {
    ChildRunTopologyLimits::new(2, 16, 8).unwrap()
}

fn declaration(node: &str, slot: &str) -> ChildRunDeclaration {
    ChildRunDeclaration::new(
        NodeId::new(node).unwrap(),
        ChildRunSlot::new(slot).unwrap(),
        &agent(),
        &graph("leaf"),
    )
    .unwrap()
}

fn policy() -> GraphChildRunPolicy {
    GraphChildRunPolicy::new(limits(), vec![declaration("work", "analysis")]).unwrap()
}

fn moved(base: &ChildRunDeclaration, node: &str, slot: &str) -> ChildRunDeclaration {
    ChildRunDeclaration::restore(
        NodeId::new(node).unwrap(),
        ChildRunSlot::new(slot).unwrap(),
        base.agent().clone(),
        base.graph().clone(),
        base.input_schema().clone(),
        base.output_schema().clone(),
    )
}

fn restored(graph: &CompiledGraph, policy: Option<GraphChildRunPolicy>) -> Result<CompiledGraph, GraphCompileError> {
    CompiledGraph::build(
        graph.identity().clone(),
        graph.input_schema().clone(),
        graph.state_schema().clone(),
        graph.update_schema().clone(),
        graph.output_schema().clone(),
        graph.reducer().clone(),
        graph.entry_nodes().clone(),
        graph.nodes().to_vec(),
        graph.limits(),
        policy,
        Some(graph.definition_digest()),
    )
}

#[test]
fn topology_limits_validate_every_wire_boundary() {
    for values in [
        (0, 1, 1),
        (33, 1, 1),
        (1, 0, 1),
        (1, 257, 1),
        (1, 1, 0),
        (1, 1, 257),
    ] {
        assert_eq!(
            ChildRunTopologyLimits::new(values.0, values.1, values.2),
            Err(ChildRunPolicyError::InvalidLimits)
        );
    }
    let maximum = ChildRunTopologyLimits::new(32, 256, 256).unwrap();
    assert_eq!(maximum.maximum_descendant_depth(), 32);
    assert_eq!(maximum.maximum_children_per_run(), 256);
    assert_eq!(maximum.maximum_active_descendants(), 256);
    assert_eq!(
        maximum.to_json().to_string(),
        r#"{"maximum_descendant_depth":32,"maximum_children_per_run":256,"maximum_active_descendants":256}"#
    );
}

#[test]
fn policy_sorts_node_owned_slots_and_rejects_duplicates_and_empty() {
    let first = declaration("work", "a");
    let second = declaration("work", "b");
    let other_node = declaration("other", "a");
    let one = GraphChildRunPolicy::new(
        limits(),
        vec![first.clone(), second.clone(), other_node.clone()],
    )
    .unwrap();
    let two = GraphChildRunPolicy::new(limits(), vec![other_node, second, first.clone()]).unwrap();
    assert_eq!(one, two);
    assert_eq!(one.to_json().to_string(), two.to_json().to_string());
    assert_eq!(one.declaration(first.node_id(), first.slot()), Some(&first));
    assert!(one
        .declaration(first.node_id(), &ChildRunSlot::new("A").unwrap())
        .is_none());
    assert_eq!(
        GraphChildRunPolicy::new(limits(), vec![first.clone(), first]),
        Err(ChildRunPolicyError::DuplicateSlot)
    );
    assert_eq!(
        GraphChildRunPolicy::new(limits(), vec![]),
        Err(ChildRunPolicyError::EmptyDeclarations)
    );
}

#[test]
fn policy_bounds_apply_to_construction_and_deserialization() {
    let base = declaration("work", "a");
    let node_slots = (0..65)
        .map(|index| moved(&base, "work", &format!("slot{index}")))
        .collect::<Vec<_>>();
    assert_eq!(
        GraphChildRunPolicy::new(limits(), node_slots.clone()),
        Err(ChildRunPolicyError::TooManyNodeSlots)
    );
    let all_slots = (0..257)
        .map(|index| moved(&base, &format!("node{index}"), "a"))
        .collect::<Vec<_>>();
    assert_eq!(
        GraphChildRunPolicy::new(limits(), all_slots.clone()),
        Err(ChildRunPolicyError::TooManyDeclarations)
    );
    for declarations in [node_slots, all_slots] {
        assert!(GraphChildRunPolicy::restore(1, limits(), declarations).is_err());
    }
}

#[test]
fn policy_roundtrip_schema_and_version_are_closed() {
    let original = policy();
    assert_eq!(
        GraphChildRunPolicy::restore(1, original.limits(), original.declarations().to_vec()).unwrap(),
        original
    );
    assert_eq!(
        GraphChildRunPolicy::restore(2, original.limits(), original.declarations().to_vec()),
        Err(ChildRunPolicyError::UnsupportedVersion)
    );
}

#[test]
fn agent_pin_includes_definition_not_just_identity_and_redacts_content() {
    let original = agent();
    let pin = ChildAgentReference::from_descriptor(&original).unwrap();
    let changed = AgentDescriptor::new(
        original.identity().clone(),
        original.input_schema().clone(),
        original.output_schema().clone(),
        definition("1"),
    );
    let changed_pin = ChildAgentReference::from_descriptor(&changed).unwrap();
    assert_eq!(pin.identity(), changed_pin.identity());
    assert_ne!(pin.definition_digest(), changed_pin.definition_digest());
    assert!(!pin.to_json().to_string().contains("model_turns"));
    assert_eq!(
        pin.definition_digest(),
        Digest::sha256(b"stateknot.child-agent-definition.v1\0{\"model_turns\":\"8\"}")
    );
}

#[test]
fn declared_graph_roundtrips_and_legacy_encoding_remains_unchanged() {
    let original = graph("parent");
    let legacy = original.canonical_definition_bytes().unwrap();
    assert!(!String::from_utf8(legacy.clone()).unwrap().contains("child_runs"));
    let declared = original.clone().with_child_runs(policy()).unwrap();
    assert_ne!(declared.reference(), original.reference());
    assert_eq!(restored(&declared, Some(policy())).unwrap(), declared);
    assert_eq!(original.canonical_definition_bytes().unwrap(), legacy);
    let altered = GraphChildRunPolicy::new(
        ChildRunTopologyLimits::new(2, 17, 8).unwrap(),
        vec![declaration("work", "analysis")],
    )
    .unwrap();
    assert!(restored(&declared, Some(altered)).is_err());
    assert_eq!(restored(&declared, None), Err(GraphCompileError::DigestMismatch));
}

#[test]
fn declarations_reject_missing_nodes_and_drifted_target_pins() {
    let unknown = GraphChildRunPolicy::new(limits(), vec![declaration("unknown", "a")]).unwrap();
    assert!(matches!(
        graph("parent").with_child_runs(unknown),
        Err(GraphCompileError::ChildPolicy(
            ChildRunPolicyError::UndeclaredParentNode
        ))
    ));
    let declaration = declaration("work", "a");
    declaration
        .validate_target(&graph("leaf"), limits())
        .unwrap();
    assert_eq!(
        declaration.validate_target(&graph("different"), limits()),
        Err(ChildRunPolicyError::TargetGraphMismatch)
    );
    let changed = ChildRunDeclaration::restore(
        declaration.node_id().clone(),
        declaration.slot().clone(),
        declaration.agent().clone(),
        declaration.graph().clone(),
        agent().output_schema().clone(),
        declaration.output_schema().clone(),
    );
    assert_eq!(
        changed.validate_target(&graph("leaf"), limits()),
        Err(ChildRunPolicyError::TargetSchemaMismatch)
    );
}

#[test]
fn nested_targets_must_strictly_narrow_remaining_depth() {
    let nested = graph("nested").with_child_runs(policy()).unwrap();
    let declaration = ChildRunDeclaration::new(
        NodeId::new("work").unwrap(),
        ChildRunSlot::new("nested").unwrap(),
        &agent(),
        &nested,
    )
    .unwrap();
    assert_eq!(
        declaration.validate_target(&nested, limits()),
        Err(ChildRunPolicyError::DepthNotNarrowed)
    );
    declaration
        .validate_target(&nested, ChildRunTopologyLimits::new(3, 16, 8).unwrap())
        .unwrap();
}

#[test]
fn static_template_rejects_delegation_and_noop_composition_preserves_it() {
    let graph = graph("parent").with_child_runs(policy()).unwrap();
    assert!(matches!(
        SharedStateSubgraph::new(graph.clone()),
        Err(GraphCompositionError::ChildDelegationUnsupported)
    ));
    let composed = GraphComposition::compile(graph.clone(), vec![]).unwrap();
    assert_eq!(composed.graph(), &graph);
}

#[test]
fn declaration_requires_the_schemas_of_the_target() {
    let other = AgentDescriptor::new(
        identity("analyst"),
        schema("other"),
        schema("output"),
        definition("8"),
    );
    assert_eq!(
        ChildRunDeclaration::new(
            NodeId::new("work").unwrap(),
            ChildRunSlot::new("a").unwrap(),
            &other,
            &graph("leaf"),
        ),
        Err(ChildRunPolicyError::TargetSchemaMismatch)
    );
}

#[test]
fn admission_follows_the_declaration_of_the_parent() {
    let parent = graph("parent").with_child_runs(policy()).unwrap();
    let intent = |slot: &str, child_graph: CompiledGraph, child: AgentDescriptor| {
        ChildRunAdmissionIntent::new(
            parent.reference(),
            NodeId::new("work").unwrap(),
            ChildRunSlot::new(slot).unwrap(),
            child_graph,
            child,
        )
    };
    assert_eq!(
        intent("analysis", graph("leaf"), agent()).validate_declaration(&parent),
        Ok(())
    );
    assert_eq!(
        intent("analysis", graph("leaf"), agent()).validate_declaration(&graph("parent")),
        Err(ChildRunPolicyError::ParentGraphMismatch)
    );
    assert_eq!(
        intent("other", graph("leaf"), agent()).validate_declaration(&parent),
        Err(ChildRunPolicyError::DelegationNotDeclared)
    );
    assert_eq!(
        intent("analysis", graph("different"), agent()).validate_declaration(&parent),
        Err(ChildRunPolicyError::TargetGraphMismatch)
    );
    let other = AgentDescriptor::new(
        identity("analyst"),
        schema("input"),
        schema("output"),
        definition("1"),
    );
    assert_eq!(
        intent("analysis", graph("leaf"), other).validate_declaration(&parent),
        Err(ChildRunPolicyError::TargetAgentMismatch)
    );
    let plain = graph("plain");
    let undeclared = ChildRunAdmissionIntent::new(
        plain.reference(),
        NodeId::new("work").unwrap(),
        ChildRunSlot::new("analysis").unwrap(),
        graph("leaf"),
        agent(),
    );
    assert_eq!(
        undeclared.validate_declaration(&plain),
        Err(ChildRunPolicyError::DelegationNotDeclared)
    );
}

struct Shown<F>(F);

impl<F: Fn(&mut std::fmt::Formatter<'_>) -> std::fmt::Result> std::fmt::Debug for Shown<F> {
    fn fmt(&self, formatter: &mut std::fmt::Formatter<'_>) -> std::fmt::Result {
        (self.0)(formatter)
    }
}

#[test]
fn policy_debug_follows_the_standard_builders() {
    let policy = policy();
    let shown = Shown(|f: &mut std::fmt::Formatter<'_>| {
        f.debug_struct("GraphChildRunPolicy")
            .field("version", &1)
            .field("limits", &policy.limits())
            .field("declarations", &policy.declarations())
            .finish()
    });
    assert_eq!(format!("{policy:?}"), format!("{shown:?}"));
    assert_eq!(format!("{policy:#?}"), format!("{shown:#?}"));
    let declaration = &policy.declarations()[0];
    let shown = Shown(|f: &mut std::fmt::Formatter<'_>| {
        f.debug_struct("ChildRunDeclaration")
            .field("node_id", &declaration.node_id())
            .field("slot", &declaration.slot())
            .field("agent", &declaration.agent())
            .field("graph", &declaration.graph())
            .field("input_schema", &declaration.input_schema())
            .field("output_schema", &declaration.output_schema())
            .finish()
    });
    assert_eq!(format!("{declaration:?}"), format!("{shown:?}"));
    assert_eq!(format!("{declaration:#?}"), format!("{shown:#?}"));
}
