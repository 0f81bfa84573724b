use stateknot_core::barrier::{
    GraphBarrierDisposition, GraphBarrierPlanError, GraphReducer, GraphReducerError,
    GraphReducerInput, GraphSchemaValidationError, GraphSchemaValidator, GraphValueKind,
};
use stateknot_core::checkpoint::{
    Checkpoint, CheckpointHead, CheckpointState, GraphNamespace, NodeActivation, NodeControl,
    NodeControlKind, NodeStateChange, NodeStateUpdate, NodeTerminalOutput, NodeWait, NodeWaits,
    NodeWaitsError, PendingNodeResult,
};
use stateknot_core::digest::Digest;
use stateknot_core::graph::CompiledGraph;
use stateknot_core::graph_node::{
    GraphExecutionLimits, GraphExecutionLimitsError, GraphNode, GraphNodeError, GraphRoute,
    GraphRouteError, GraphRoutes, GraphRoutesError,
};
use stateknot_core::graph_shape::GraphCompileError;
use stateknot_core::identity::{IssuerId, PrincipalIdentity, SubjectId};
use stateknot_core::ids::CheckpointId;
use stateknot_core::json::BoundedJson;
use stateknot_core::json_value::{JsonMember, JsonNumber, JsonValue};
use stateknot_core::names::{CapabilityName, NodeId, RouteId};
use stateknot_core::pins::{
    CapabilityIdentity, CapabilityReference, GraphReducerReference, SchemaId, SchemaReference,
};
use stateknot_core::ready::{ReadyNodes, ReadyNodesError, Superstep};
use stateknot_core::version::Version;

fn convert(value: &serde_json::Value) -> JsonValue {
    match value {
        serde_json::Value::Null => JsonValue::Null,
        serde_json::Value::Bool(value) => JsonValue::Bool(*value),
        serde_json::Value::Number(number) => {
            JsonValue::Number(JsonNumber::parse(&number.to_string()).unwrap())
        }
        serde_json::Value::String(text) => JsonValue::text(text),
        serde_json::Value::Array(items) => JsonValue::array(items.iter().map(convert).collect()),
        serde_json::Value::Object(members) => JsonValue::object(
            members
                .iter()
                .map(|(name, value)| JsonMember::new(name, convert(value)))
                .collect(),
        ),
    }
}

fn json(text: &str) -> JsonValue {
    convert(&serde_json::from_str(text).unwrap())
}

fn bounded(text: &str) -> BoundedJson {
    BoundedJson::try_from_value(json(text)).unwrap()
}

fn identity(name: &str) -> CapabilityIdentity {
    CapabilityIdentity::new(
        PrincipalIdentity::new(
            "https://issuer.example.com/stateknot"
                .parse::<IssuerId>()
                .unwrap(),
            "graph-registry".parse::<SubjectId>().unwrap(),
        ),
        CapabilityReference::new(
            name.parse::<CapabilityName>().unwrap(),
            Version { major: 1, minor: 0, patch: 0 },
        ),
    )
}

fn schema(name: &str) -> SchemaReference {
    SchemaReference::new(
        format!("https://schemas.example.com/{name}")
            .parse::<SchemaId>()
            .unwrap(),
        Version { major: 1, minor: 0, patch: 0 },
        Digest::sha256(name.as_bytes()),
    )
}

fn node_ids(values: &[&str]) -> ReadyNodes {
    ReadyNodes::try_new(values.iter().map(|value| NodeId::new(value).unwrap()).collect()).unwrap()
}

fn route(route_id: &str, successors: &[&str]) -> GraphRoute {
    GraphRoute::new(RouteId::new(route_id).unwrap(), node_ids(successors)).unwrap()
}

fn node(
    node_id: &str,
    continue_to: Option<&[&str]>,
    routes: Vec<GraphRoute>,
    wait_to: Option<&[&str]>,
    terminal: bool,
) -> GraphNode {
    GraphNode::new(
        NodeId::new(node_id).unwrap(),
        continue_to.map(node_ids),
        GraphRoutes::try_new(routes).unwrap(),
        wait_to.map(node_ids),
        terminal,
    )
    .unwrap()
}

fn limits(maximum_parallelism: u16) -> GraphExecutionLimits {
    GraphExecutionLimits::new(Superstep::new(64).unwrap(), maximum_parallelism).unwrap()
}

fn parallel_graph() -> CompiledGraph {
    CompiledGraph::compile(
        identity("orders.graph"),
        schema("input"),
        schema("state"),
        schema("update"),
        schema("output"),
        GraphReducerReference::new(identity("orders.reducer"), Digest::sha256(b"reducer-v1")),
        node_ids(&["alpha", "beta"]),
        vec![
            node("join", None, Vec::new(), None, true),
            node("beta", None, vec![route("beta.ok", &["join"])], None, false),
            node("alpha", Some(&["join"]), Vec::new(), None, false),
        ],
        limits(4),
    )
    .unwrap()
}

fn parallel_four_graph() -> CompiledGraph {
    CompiledGraph::compile(
        identity("parallel-four.graph"),
        schema("parallel-four-input"),
        schema("parallel-four-state"),
        schema("parallel-four-update"),
        schema("parallel-four-output"),
        GraphReducerReference::new(
            identity("parallel-four.reducer"),
            Digest::sha256(b"parallel-four-reducer-v1"),
        ),
        node_ids(&["alpha", "beta", "delta", "gamma"]),
        vec![
            node("join", None, Vec::new(), None, true),
            node("alpha", Some(&["join"]), Vec::new(), None, false),
            node("beta", Some(&["join"]), Vec::new(), None, false),
            node("delta", Some(&["join"]), Vec::new(), None, false),
            node("gamma", Some(&["join"]), Vec::new(), None, false),
        ],
        limits(4),
    )
    .unwrap()
}

fn wait_graph() -> CompiledGraph {
    CompiledGraph::compile(
        identity("wait.graph"),
        schema("wait-input"),
        schema("wait-state"),
        schema("wait-update"),
        schema("wait-output"),
        GraphReducerReference::new(identity("wait.reducer"), Digest::sha256(b"wait-reducer")),
        node_ids(&["sleep-a", "sleep-b"]),
        vec![
            node("done", None, Vec::new(), None, true),
            node("sleep-a", None, Vec::new(), Some(&["done"]), false),
            node("sleep-b", None, Vec::new(), Some(&["done"]), false),
        ],
        limits(4),
    )
    .unwrap()
}

fn checkpoint_id(suffix: &str) -> CheckpointId {
    format!("01912345-6789-7abc-8def-0123456788{suffix}")
        .parse()
        .unwrap()
}

fn checkpoint_at(graph: &CompiledGraph, superstep: u64, ready: ReadyNodes) -> Checkpoint {
    Checkpoint::new(
        CheckpointHead::new(checkpoint_id("a1"), Digest::sha256(b"checkpoint")),
        graph.reference(),
        Superstep::new(superstep).unwrap(),
        ready,
        CheckpointState::new(graph.state_schema().clone(), bounded(r#"{"order":[]}"#)),
    )
}

fn checkpoint(graph: &CompiledGraph) -> Checkpoint {
    checkpoint_at(graph, 0, graph.entry_nodes().clone())
}

fn result(
    graph: &CompiledGraph,
    base: &Checkpoint,
    node_name: &str,
    sequence: u64,
    control: NodeControl,
) -> PendingNodeResult {
    let node_id = NodeId::new(node_name).unwrap();
    let activation = NodeActivation::for_ready_root(base, &node_id).unwrap();
    let update = NodeStateUpdate::new(
        graph.update_schema().clone(),
        bounded(&format!("{{\"value\":\"{node_name}\"}}")),
    );
    PendingNodeResult::new(
        activation,
        NodeStateChange::Update { update },
        control,
        Digest::sha256(&sequence.to_be_bytes()),
    )
}

struct AcceptSchemas;

impl GraphSchemaValidator for AcceptSchemas {
    fn validate(
        &self,
        _schema: &SchemaReference,
        _value: &BoundedJson,
    ) -> Result<(), GraphSchemaValidationError> {
        Ok(())
    }
}

struct StableReducer {
    reference: GraphReducerReference,
}

impl GraphReducer for StableReducer {
    fn reference(&self) -> &GraphReducerReference {
        &self.reference
    }

    fn reduce(
        &self,
        _state: &BoundedJson,
        updates: &[GraphReducerInput<'_>],
    ) -> Result<BoundedJson, GraphReducerError> {
        let order = updates
            .iter()
            .map(|input| JsonValue::text(input.node_id().as_str()))
            .collect::<Vec<_>>();
        BoundedJson::try_from_value(JsonValue::object(vec![JsonMember::new(
            "order",
            JsonValue::array(order),
        )]))
        .map_err(|_| GraphReducerError::ResourceLimit)
    }
}

fn stable(graph: &CompiledGraph) -> StableReducer {
    StableReducer {
        reference: graph.reducer().clone(),
    }
}

fn rebuilt(graph: &CompiledGraph, nodes: Vec<GraphNode>) -> Result<CompiledGraph, GraphCompileError> {
    CompiledGraph::build(
        graph.identity().clone(),
        graph.input_schema().clone(),
        graph.state_schema().clone(),
        graph.update_schema().clone(),
        graph.output_schema().clone(),
        graph.reducer().clone(),
        graph.entry_nodes().clone(),
        nodes,
        graph.limits(),
        None,
        Some(graph.definition_digest()),
    )
}

#[test]
fn compilation_is_canonical_reachable_and_integrity_bound() {
    let forward = parallel_graph();
    let reverse = CompiledGraph::compile(
        forward.identity().clone(),
        forward.input_schema().clone(),
        forward.state_schema().clone(),
        forward.update_schema().clone(),
        forward.output_schema().clone(),
        forward.reducer().clone(),
        forward.entry_nodes().clone(),
        forward.nodes().iter().cloned().rev().collect(),
        forward.limits(),
    )
    .unwrap();
    assert_eq!(forward, reverse);
    assert_eq!(
        forward.canonical_definition_bytes().unwrap(),
        reverse.canonical_definition_bytes().unwrap()
    );
    assert_eq!(
        forward.definition_digest(),
        Digest::sha256(&forward.canonical_definition_bytes().unwrap())
    );
    assert_eq!(rebuilt(&forward, forward.nodes().to_vec()).unwrap(), forward);
    assert_eq!(
        forward.reference().definition_digest(),
        forward.definition_digest()
    );
    assert!(forward
        .nodes()
        .windows(2)
        .all(|pair| pair[0].node_id().as_str() < pair[1].node_id().as_str()));

    let mut tampered = forward.nodes().to_vec();
    tampered[2] = node("join", None, Vec::new(), Some(&["join"]), false);
    assert_eq!(
        rebuilt(&forward, tampered),
        Err(GraphCompileError::DigestMismatch)
    );
}

#[test]
fn compilation_rejects_missing_unreachable_nonterminating_and_duplicate_routes() {
    let compile = |nodes: Vec<GraphNode>| {
        CompiledGraph::compile(
            identity("invalid.graph"),
            schema("input"),
            schema("state"),
            schema("update"),
            schema("output"),
            GraphReducerReference::new(
                identity("invalid.reducer"),
                Digest::sha256(b"invalid-reducer"),
            ),
            node_ids(&["entry"]),
            nodes,
            limits(8),
        )
    };

    assert!(matches!(
        compile(vec![node(
            "entry",
            Some(&["missing"]),
            Vec::new(),
            None,
            false
        )]),
        Err(GraphCompileError::MissingSuccessorNode { .. })
    ));
    assert!(matches!(
        compile(vec![
            node("entry", None, Vec::new(), None, true),
            node("orphan", None, Vec::new(), None, true),
        ]),
        Err(GraphCompileError::UnreachableNode { .. })
    ));
    assert!(matches!(
        compile(vec![node(
            "entry",
            Some(&["entry"]),
            Vec::new(),
            None,
            false
        )]),
        Err(GraphCompileError::NoBoundaryPath { .. })
    ));
    assert!(matches!(
        compile(vec![
            node("entry", None, vec![route("same", &["second"])], None, true,),
            node("second", None, vec![route("same", &["entry"])], None, true,),
        ]),
        Err(GraphCompileError::DuplicateRoute { .. })
    ));
}

#[test]
fn parallel_reduction_and_routing_ignore_completion_order() {
    let graph = parallel_graph();
    let base = checkpoint(&graph);
    let alpha = result(&graph, &base, "alpha", 2, NodeControl::Continue);
    let beta = result(
        &graph,
        &base,
        "beta",
        3,
        NodeControl::Route {
            route_id: RouteId::new("beta.ok").unwrap(),
        },
    );
    let reducer = StableReducer {
        reference: graph.reducer().clone(),
    };
    let successor_id = checkpoint_id("a2");
    let forward = graph
        .plan_barrier(
            &base,
            &[alpha.clone(), beta.clone()],
            successor_id,
            &AcceptSchemas,
            &reducer,
        )
        .unwrap();
    let reverse = graph
        .plan_barrier(
            &base,
            &[beta, alpha],
            successor_id,
            &AcceptSchemas,
            &reducer,
        )
        .unwrap();

    assert_eq!(forward, reverse);
    assert_eq!(forward.disposition(), &GraphBarrierDisposition::Continue);
    assert_eq!(
        forward.barrier().successor().ready_nodes(),
        &node_ids(&["join"])
    );
    assert_eq!(
        forward.barrier().successor().state().data().as_value(),
        &json(r#"{"order":["alpha","beta"]}"#)
    );
    assert!(
        forward
            .barrier()
            .result_heads()
            .iter()
            .map(|head| head.activation().node_id().as_str())
            .is_sorted()
    );
}

#[test]
fn completion_order_does_not_change_the_barrier() {
    let graph = parallel_four_graph();
    let base = checkpoint(&graph);
    let results = [
        result(&graph, &base, "alpha", 2, NodeControl::Continue),
        result(&graph, &base, "beta", 3, NodeControl::Continue),
        result(&graph, &base, "delta", 4, NodeControl::Continue),
        result(&graph, &base, "gamma", 5, NodeControl::Continue),
    ];
    let reducer = stable(&graph);
    let successor_id = checkpoint_id("a4");
    let expected = graph
        .plan_barrier(&base, &results, successor_id, &AcceptSchemas, &reducer)
        .unwrap();
    for indices in [[3, 2, 1, 0], [1, 0, 3, 2], [2, 3, 0, 1], [0, 2, 1, 3]] {
        let permuted = indices
            .into_iter()
            .map(|index: usize| results[index].clone())
            .collect::<Vec<_>>();
        let actual = graph
            .plan_barrier(&base, &permuted, successor_id, &AcceptSchemas, &reducer)
            .unwrap();
        assert_eq!(actual, expected);
    }
}

fn timer_wait(suffix: &str) -> NodeWaits {
    NodeWaits::try_new(vec![NodeWait::new(bounded(&format!(
        "{{\"timer_id\":\"01912345-6789-7abc-8def-0123456786{suffix}\"}}"
    )))])
    .unwrap()
}

#[test]
fn parallel_waits_form_one_batch_and_retain_declared_resume_successors() {
    let graph = wait_graph();
    let base = checkpoint(&graph);
    let a = result(
        &graph,
        &base,
        "sleep-a",
        2,
        NodeControl::Wait {
            waits: timer_wait("a1"),
        },
    );
    let b = result(
        &graph,
        &base,
        "sleep-b",
        3,
        NodeControl::Wait {
            waits: timer_wait("a2"),
        },
    );
    let reducer = StableReducer {
        reference: graph.reducer().clone(),
    };
    let plan = graph
        .plan_barrier(
            &base,
            &[b, a],
            checkpoint_id("a3"),
            &AcceptSchemas,
            &reducer,
        )
        .unwrap();

    assert_eq!(plan.disposition().waits().unwrap().len(), 2);
    assert_eq!(
        plan.barrier().successor().ready_nodes(),
        &node_ids(&["done"])
    );
}

#[test]
fn terminal_control_is_schema_checked_and_exclusive() {
    let graph = CompiledGraph::compile(
        identity("terminal.graph"),
        schema("terminal-input"),
        schema("terminal-state"),
        schema("terminal-update"),
        schema("terminal-output"),
        GraphReducerReference::new(
            identity("terminal.reducer"),
            Digest::sha256(b"terminal-reducer"),
        ),
        node_ids(&["finish"]),
        vec![node("finish", None, Vec::new(), None, true)],
        limits(1),
    )
    .unwrap();
    let base = checkpoint(&graph);
    let output = NodeTerminalOutput::new(
        graph.output_schema().clone(),
        bounded(r#"{"ok":true}"#),
    );
    let finished = result(
        &graph,
        &base,
        "finish",
        2,
        NodeControl::Terminal {
            output: output.clone(),
        },
    );
    let reducer = StableReducer {
        reference: graph.reducer().clone(),
    };
    let plan = graph
        .plan_barrier(
            &base,
            &[finished],
            checkpoint_id("a4"),
            &AcceptSchemas,
            &reducer,
        )
        .unwrap();
    assert_eq!(plan.disposition().terminal_output(), Some(&output));
    assert!(plan.barrier().successor().ready_nodes().is_empty());

    let wrong_reducer = StableReducer {
        reference: GraphReducerReference::new(
            identity("other.reducer"),
            Digest::sha256(b"other"),
        ),
    };
    assert_eq!(
        graph.plan_barrier(
            &base,
            &[],
            checkpoint_id("a5"),
            &AcceptSchemas,
            &wrong_reducer,
        ),
        Err(GraphBarrierPlanError::ReducerReferenceMismatch)
    );
}

struct PanickedSchemas;

impl GraphSchemaValidator for PanickedSchemas {
    fn validate(
        &self,
        _schema: &SchemaReference,
        _value: &BoundedJson,
    ) -> Result<(), GraphSchemaValidationError> {
        Err(GraphSchemaValidationError::Panicked)
    }
}

struct FailingReducer {
    reference: GraphReducerReference,
    error: GraphReducerError,
}

impl GraphReducer for FailingReducer {
    fn reference(&self) -> &GraphReducerReference {
        &self.reference
    }

    fn reduce(
        &self,
        _state: &BoundedJson,
        _updates: &[GraphReducerInput<'_>],
    ) -> Result<BoundedJson, GraphReducerError> {
        Err(self.error)
    }
}

#[test]
fn reported_panics_fail_closed() {
    let graph = parallel_graph();
    let base = checkpoint(&graph);
    let alpha = result(&graph, &base, "alpha", 2, NodeControl::Continue);
    let beta = result(
        &graph,
        &base,
        "beta",
        3,
        NodeControl::Route {
            route_id: RouteId::new("beta.ok").unwrap(),
        },
    );
    assert_eq!(
        graph.plan_barrier(
            &base,
            &[alpha.clone(), beta.clone()],
            checkpoint_id("b1"),
            &PanickedSchemas,
            &stable(&graph),
        ),
        Err(GraphBarrierPlanError::SchemaValidatorPanicked {
            kind: GraphValueKind::BaseState,
            node_id: None,
        })
    );
    let panicked = FailingReducer {
        reference: graph.reducer().clone(),
        error: GraphReducerError::Panicked,
    };
    assert_eq!(
        graph.plan_barrier(
            &base,
            &[alpha, beta],
            checkpoint_id("b2"),
            &AcceptSchemas,
            &panicked,
        ),
        Err(GraphBarrierPlanError::ReducerPanicked)
    );
}

#[test]
fn a_failing_reducer_fails_the_plan() {
    let graph = parallel_graph();
    let base = checkpoint(&graph);
    let results = [
        result(&graph, &base, "alpha", 2, NodeControl::Continue),
        result(
            &graph,
            &base,
            "beta",
            3,
            NodeControl::Route { route_id: RouteId::new("beta.ok").unwrap() },
        ),
    ];
    let plan = |error: GraphReducerError| {
        let failing = FailingReducer { reference: graph.reducer().clone(), error };
        graph.plan_barrier(&base, &results, checkpoint_id("b2"), &AcceptSchemas, &failing)
    };
    for source in [
        GraphReducerError::Rejected,
        GraphReducerError::Unavailable,
        GraphReducerError::ResourceLimit,
    ] {
        assert_eq!(plan(source), Err(GraphBarrierPlanError::ReducerFailed { source }));
    }
}

fn id(name: &str) -> NodeId {
    NodeId::new(name).unwrap()
}

#[test]
fn checkpoints_must_belong_to_the_graph() {
    let graph = parallel_graph();
    let reducer = stable(&graph);
    let plan = |base: &Checkpoint| {
        graph.plan_barrier(base, &[], checkpoint_id("b3"), &AcceptSchemas, &reducer)
    };
    assert_eq!(
        plan(&checkpoint(&wait_graph())),
        Err(GraphBarrierPlanError::GraphReferenceMismatch)
    );
    assert_eq!(
        plan(&checkpoint_at(&graph, 0, node_ids(&["alpha"]))),
        Err(GraphBarrierPlanError::InitialReadySetMismatch)
    );
    assert_eq!(
        plan(&checkpoint_at(&graph, 64, node_ids(&["join"]))),
        Err(GraphBarrierPlanError::SuperstepLimitReached {
            maximum: Superstep::new(64).unwrap(),
            actual: Superstep::new(64).unwrap(),
        })
    );
    assert_eq!(
        plan(&checkpoint_at(&graph, 1, node_ids(&["a", "b", "c", "d", "e"]))),
        Err(GraphBarrierPlanError::BaseParallelismExceeded { maximum: 4, actual: 5 })
    );
    assert_eq!(
        plan(&checkpoint_at(&graph, 1, node_ids(&["join", "lost"]))),
        Err(GraphBarrierPlanError::UnknownReadyNode { node_id: id("lost") })
    );
}

#[test]
fn results_must_be_one_per_ready_node() {
    let graph = parallel_graph();
    let reducer = stable(&graph);
    let base = checkpoint(&graph);
    let plan = |results: &[PendingNodeResult]| {
        graph.plan_barrier(&base, results, checkpoint_id("b4"), &AcceptSchemas, &reducer)
    };
    let alpha = result(&graph, &base, "alpha", 2, NodeControl::Continue);
    let activated = |activation: NodeActivation| {
        PendingNodeResult::new(
            activation,
            NodeStateChange::Unchanged,
            NodeControl::Continue,
            Digest::sha256(b"result"),
        )
    };
    assert_eq!(
        plan(&[alpha.clone()]),
        Err(GraphBarrierPlanError::ResultCountMismatch { expected: 2, actual: 1 })
    );
    assert_eq!(
        plan(&[alpha.clone(), alpha.clone()]),
        Err(GraphBarrierPlanError::DuplicateResultNode { node_id: id("alpha") })
    );
    let other = CheckpointHead::new(checkpoint_id("a2"), Digest::sha256(b"other"));
    assert_eq!(
        plan(&[
            alpha.clone(),
            activated(NodeActivation::new(other, GraphNamespace::root(), id("beta")))
        ]),
        Err(GraphBarrierPlanError::ResultBaseMismatch { node_id: id("beta") })
    );
    assert_eq!(
        plan(&[
            alpha.clone(),
            activated(NodeActivation::new(
                base.head().clone(),
                GraphNamespace::nested(vec![id("outer")]),
                id("beta"),
            ))
        ]),
        Err(GraphBarrierPlanError::NonRootActivation { node_id: id("beta") })
    );
    assert_eq!(
        plan(&[
            alpha,
            activated(NodeActivation::new(
                base.head().clone(),
                GraphNamespace::root(),
                id("join"),
            ))
        ]),
        Err(GraphBarrierPlanError::ActivationMismatch { node_id: id("join") })
    );
    assert!(NodeActivation::for_ready_root(&base, &id("join")).is_none());
}

#[test]
fn controls_must_be_declared() {
    let graph = parallel_graph();
    let reducer = stable(&graph);
    let base = checkpoint(&graph);
    let plan = |alpha: NodeControl, beta: NodeControl| {
        let results = [
            result(&graph, &base, "alpha", 2, alpha),
            result(&graph, &base, "beta", 3, beta),
        ];
        graph
            .plan_barrier(&base, &results, checkpoint_id("b5"), &AcceptSchemas, &reducer)
            .map(|_| ())
    };
    let undeclared = |name: &str, control: NodeControlKind| {
        Err(GraphBarrierPlanError::UndeclaredControl { node_id: id(name), control })
    };
    let route = |name: &str| NodeControl::Route { route_id: RouteId::new(name).unwrap() };
    assert_eq!(plan(NodeControl::Continue, route("beta.ok")), Ok(()));
    assert_eq!(
        plan(NodeControl::Continue, NodeControl::Continue),
        undeclared("beta", NodeControlKind::Continue)
    );
    assert_eq!(
        plan(NodeControl::Wait { waits: timer_wait("a1") }, route("beta.ok")),
        undeclared("alpha", NodeControlKind::Wait)
    );
    let output = NodeTerminalOutput::new(graph.output_schema().clone(), bounded("1"));
    assert_eq!(
        plan(NodeControl::Continue, NodeControl::Terminal { output }),
        undeclared("beta", NodeControlKind::Terminal)
    );
    assert_eq!(
        plan(NodeControl::Continue, route("beta.no")),
        Err(GraphBarrierPlanError::UndeclaredRoute {
            node_id: id("beta"),
            route_id: RouteId::new("beta.no").unwrap(),
        })
    );
}

#[test]
fn terminal_results_are_exclusive_and_pinned() {
    let graph = CompiledGraph::compile(
        identity("pair.graph"),
        schema("input"),
        schema("state"),
        schema("update"),
        schema("output"),
        GraphReducerReference::new(identity("pair.reducer"), Digest::sha256(b"pair")),
        node_ids(&["a", "b"]),
        vec![
            node("a", Some(&["a"]), Vec::new(), None, true),
            node("b", None, Vec::new(), None, true),
        ],
        limits(2),
    )
    .unwrap();
    let reducer = stable(&graph);
    let base = checkpoint(&graph);
    let end = |schema: &SchemaReference| NodeControl::Terminal {
        output: NodeTerminalOutput::new(schema.clone(), bounded("1")),
    };
    let plan = |a: NodeControl, b: NodeControl| {
        let results = [result(&graph, &base, "a", 2, a), result(&graph, &base, "b", 3, b)];
        graph
            .plan_barrier(&base, &results, checkpoint_id("b6"), &AcceptSchemas, &reducer)
            .map(|_| ())
    };
    assert_eq!(
        plan(end(graph.output_schema()), end(graph.output_schema())),
        Err(GraphBarrierPlanError::TerminalNotExclusive)
    );
    assert_eq!(
        plan(NodeControl::Continue, end(graph.output_schema())),
        Err(GraphBarrierPlanError::TerminalNotExclusive)
    );
    assert_eq!(
        plan(end(graph.input_schema()), end(graph.output_schema())),
        Err(GraphBarrierPlanError::TerminalOutputSchemaMismatch { node_id: id("a") })
    );
    let alone = checkpoint_at(&graph, 1, node_ids(&["b"]));
    let finished = result(&graph, &alone, "b", 4, end(graph.output_schema()));
    let plan = graph
        .plan_barrier(&alone, &[finished], checkpoint_id("b7"), &AcceptSchemas, &reducer)
        .unwrap();
    assert!(plan.disposition().terminal_output().is_some());
    assert!(plan.disposition().waits().is_none());
    assert_eq!(plan.barrier().successor().superstep().get(), 2);
    assert_eq!(plan.barrier().base(), alone.head());
}

struct RefuseOne {
    schema: SchemaReference,
    value: BoundedJson,
}

impl GraphSchemaValidator for RefuseOne {
    fn validate(
        &self,
        schema: &SchemaReference,
        value: &BoundedJson,
    ) -> Result<(), GraphSchemaValidationError> {
        if *schema == self.schema && *value == self.value {
            Err(GraphSchemaValidationError::Rejected)
        } else {
            Ok(())
        }
    }
}

#[test]
fn every_value_is_validated_under_its_schema() {
    let graph = parallel_graph();
    let base = checkpoint(&graph);
    let results = [
        result(&graph, &base, "alpha", 2, NodeControl::Continue),
        result(
            &graph,
            &base,
            "beta",
            3,
            NodeControl::Route { route_id: RouteId::new("beta.ok").unwrap() },
        ),
    ];
    for (schema, value, kind, node_id) in [
        (graph.state_schema(), r#"{"order":[]}"#, GraphValueKind::BaseState, None),
        (
            graph.update_schema(),
            r#"{"value":"alpha"}"#,
            GraphValueKind::NodeUpdate,
            Some(id("alpha")),
        ),
        (
            graph.update_schema(),
            r#"{"value":"beta"}"#,
            GraphValueKind::NodeUpdate,
            Some(id("beta")),
        ),
        (
            graph.state_schema(),
            r#"{"order":["alpha","beta"]}"#,
            GraphValueKind::ReducedState,
            None,
        ),
    ] {
        let schemas = RefuseOne { schema: schema.clone(), value: bounded(value) };
        assert_eq!(
            graph.plan_barrier(&base, &results, checkpoint_id("b8"), &schemas, &stable(&graph)),
            Err(GraphBarrierPlanError::SchemaValidation {
                kind,
                node_id,
                source: GraphSchemaValidationError::Rejected,
            })
        );
    }
    assert_eq!(GraphValueKind::TerminalOutput.to_string(), "terminal output");
}

#[test]
fn unchanged_state_skips_the_reducer() {
    let graph = parallel_graph();
    let base = checkpoint_at(&graph, 3, node_ids(&["alpha"]));
    let activation = NodeActivation::for_ready_root(&base, &id("alpha")).unwrap();
    let unchanged = PendingNodeResult::new(
        activation,
        NodeStateChange::Unchanged,
        NodeControl::Continue,
        Digest::sha256(b"r"),
    );
    let failing = FailingReducer {
        reference: graph.reducer().clone(),
        error: GraphReducerError::Unavailable,
    };
    let plan = graph
        .plan_barrier(&base, &[unchanged], checkpoint_id("b9"), &AcceptSchemas, &failing)
        .unwrap();
    let (barrier, disposition) = plan.into_parts();
    assert_eq!(barrier.successor().state(), base.state());
    assert_eq!(disposition, GraphBarrierDisposition::Continue);
}

#[test]
fn parts_of_a_graph_are_bounded() {
    assert_eq!(
        GraphExecutionLimits::new(Superstep::initial(), 1),
        Err(GraphExecutionLimitsError::ZeroSupersteps)
    );
    assert_eq!(
        GraphExecutionLimits::new(Superstep::new(1).unwrap(), 0),
        Err(GraphExecutionLimitsError::ZeroParallelism)
    );
    assert_eq!(
        GraphRoute::new(RouteId::new("r").unwrap(), node_ids(&[])),
        Err(GraphRouteError::EmptySuccessors)
    );
    assert!(matches!(
        GraphRoutes::try_new(vec![route("same", &["a"]), route("same", &["b"])]),
        Err(GraphRoutesError::Duplicate { .. })
    ));
    assert_eq!(
        GraphNode::new(id("n"), None, GraphRoutes::empty(), None, false),
        Err(GraphNodeError::NoControlOutcome)
    );
    assert!(matches!(
        ReadyNodes::try_new(vec![id("a"), id("a")]),
        Err(ReadyNodesError::Duplicate { .. })
    ));
    assert_eq!(NodeWaits::try_new(Vec::new()), Err(NodeWaitsError::Empty));
}

struct Shown<F>(F);

impl<F: Fn(&mut std::fmt::Formatter<'_>) -> std::fmt::Result> std::fmt::Debug for Shown<F> {
    fn fmt(&self, formatter: &mut std::fmt::Formatter<'_>) -> std::fmt::Result {
        (self.0)(formatter)
    }
}

fn assert_shown<F>(value: &dyn std::fmt::Debug, mirror: F)
where
    F: Fn(&mut std::fmt::Formatter<'_>) -> std::fmt::Result,
{
    let shown = Shown(mirror);
    assert_eq!(format!("{value:?}"), format!("{shown:?}"));
    assert_eq!(format!("{value:#?}"), format!("{shown:#?}"));
}

#[test]
fn graph_debug_follows_the_standard_builders() {
    let graph = parallel_graph();
    assert_shown(&graph, |f| {
        f.debug_struct("CompiledGraph")
            .field("identity", &graph.identity())
            .field("input_schema", &graph.input_schema())
            .field("state_schema", &graph.state_schema())
            .field("update_schema", &graph.update_schema())
            .field("output_schema", &graph.output_schema())
            .field("reducer", &graph.reducer())
            .field("entry_nodes", &graph.entry_nodes())
            .field("node_count", &graph.nodes().len())
            .field("limits", &graph.limits())
            .field("definition_digest", &graph.definition_digest())
            .finish_non_exhaustive()
    });
    let limits = graph.limits();
    assert_shown(&limits, |f| {
        f.debug_struct("GraphExecutionLimits")
            .field("maximum_supersteps", &limits.maximum_supersteps())
            .field("maximum_parallelism", &limits.maximum_parallelism())
            .finish()
    });
    let routes = GraphRoutes::try_new(vec![route("only", &["a"])]).unwrap();
    assert_shown(&routes, |f| f.debug_tuple("GraphRoutes").field(&routes.iter()).finish());
    let empty = GraphRoutes::empty();
    assert_shown(&empty, |f| f.debug_tuple("GraphRoutes").field(&empty.iter()).finish());
    assert_eq!(
        format!("{:?}", node_ids(&["a", "b"])),
        "ReadyNodes([NodeId(\"a\"), NodeId(\"b\")])"
    );
}
