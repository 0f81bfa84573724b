//! Planning of the barrier that follows a checkpoint.

use vstd::prelude::*;

use crate::checkpoint::{
    barrier_equal, pinned_equal, result_head, waits_equal, BarrierModel, Checkpoint,
    CheckpointBarrier, CheckpointModel, CheckpointState,
    CheckpointWrite, ControlModel, NodeActivation, NodeControl, NodeControlKind, NodeResultHead,
    NodeStateUpdate, NodeTerminalOutput, NodeWait, NodeWaits, PendingNodeResult, PinnedModel,
    ResultHeadModel, ResultModel,
};
use crate::graph::{graph_reference, CompiledGraph, GraphModel};
use crate::graph_node::{GraphNode, GraphRoute, NodeModel};
use crate::ids::CheckpointId;
use crate::json::BoundedJson;
use crate::json_value::Json;
use crate::names::{NodeId, RouteId};
use crate::options::{option_ref_view, option_view};
use crate::ordered::{
    arranged, arranged_of_ascending, ascending, find, first_repeat_is_first, insert_new, keys,
    placed, views,
};
use crate::pins::{GraphReducerReference, ReducerModel, SchemaModel, SchemaReference};
use crate::ready::{node_keys, ReadyNodes, Superstep};

verus! {

// ---------------------------------------------------------------------------
// What users supply
// ---------------------------------------------------------------------------

/// Why a value was not accepted under its schema.
#[derive(Clone, Copy, Debug, PartialEq, Eq, Structural)]
pub enum GraphSchemaValidationError {
    /// The value does not satisfy the schema.
    Rejected,
    /// The schema is not at hand.
    Unavailable,
    /// The validator panicked, and its caller caught the panic.
    Panicked,
}

/// A registry that validates values under pinned schemas.
pub trait GraphSchemaValidator {
    /// What the registry says of a value under a schema.
    open spec fn verdict(&self, schema: SchemaModel, value: Json) -> Result<
        (),
        GraphSchemaValidationError,
    > {
        arbitrary()
    }

    /// Validates a value under a schema.
    fn validate(&self, schema: &SchemaReference, value: &BoundedJson) -> (r: Result<
        (),
        GraphSchemaValidationError,
    >)
        ensures
            r == self.verdict(schema@, value@),
    ;
}

/// Why a reducer gave no state.
#[derive(Clone, Copy, Debug, PartialEq, Eq, Structural)]
pub enum GraphReducerError {
    /// The updates do not fit the state.
    Rejected,
    /// The reducer is not at hand.
    Unavailable,
    /// The reducer exceeded a limit.
    ResourceLimit,
    /// The reducer panicked, and its caller caught the panic.
    Panicked,
}

/// One update, as a reducer gets it.
#[derive(Clone, Copy, Debug)]
pub struct GraphReducerInput<'a> {
    node_id: &'a NodeId,
    update: &'a NodeStateUpdate,
}

/// The values of [`GraphReducerInput`].
pub ghost struct InputModel {
    pub node_id: Seq<char>,
    pub update: PinnedModel,
}

impl<'a> View for GraphReducerInput<'a> {
    type V = InputModel;

    closed spec fn view(&self) -> InputModel {
        InputModel { node_id: self.node_id@, update: self.update@ }
    }
}

impl<'a> GraphReducerInput<'a> {
    fn new(node_id: &'a NodeId, update: &'a NodeStateUpdate) -> (r: GraphReducerInput<'a>)
        ensures
            r@ == (InputModel { node_id: node_id@, update: update@ }),
    {
        GraphReducerInput { node_id, update }
    }

    /// Returns the node that made the update.
    pub fn node_id(self) -> (r: &'a NodeId)
        ensures
            r@ == self@.node_id,
    {
        self.node_id
    }

    /// Returns the update.
    pub fn update(self) -> (r: &'a NodeStateUpdate)
        ensures
            r@ == self@.update,
    {
        self.update
    }
}

/// A pure function from a state and updates to the next state.
pub trait GraphReducer {
    /// The identity of the implementation.
    open spec fn pin(&self) -> ReducerModel {
        arbitrary()
    }

    /// What the updates make of a state.
    open spec fn reduction(&self, state: Json, updates: Seq<InputModel>) -> Result<
        Json,
        GraphReducerError,
    > {
        arbitrary()
    }

    /// Returns the identity of the implementation.
    fn reference(&self) -> (r: &GraphReducerReference)
        ensures
            r@ == self.pin(),
    ;

    /// Applies the updates, which come in the order of their nodes.
    fn reduce(&self, state: &BoundedJson, updates: &[GraphReducerInput<'_>]) -> (r: Result<
        BoundedJson,
        GraphReducerError,
    >)
        ensures
            match (r, self.reduction(state@, views(updates@))) {
                (Ok(next), Ok(model)) => next@ == model,
                (Err(e), Err(expected)) => e == expected,
                _ => false,
            },
    ;
}

// ---------------------------------------------------------------------------
// Plans
// ---------------------------------------------------------------------------

/// What a barrier does to the run.
#[derive(Debug)]
#[allow(inconsistent_fields)]
pub enum GraphBarrierDisposition {
    /// The run goes on.
    Continue,
    /// The run waits.
    Wait {
        /// The conditions of all nodes.
        waits: NodeWaits,
    },
    /// The run ends.
    Terminal {
        /// The output.
        output: NodeTerminalOutput,
    },
}

/// The values of [`GraphBarrierDisposition`].
pub ghost enum DispositionModel {
    Continue,
    Wait { waits: Seq<Json> },
    Terminal { output: PinnedModel },
}

impl View for GraphBarrierDisposition {
    type V = DispositionModel;

    open spec fn view(&self) -> DispositionModel {
        match self {
            GraphBarrierDisposition::Continue => DispositionModel::Continue,
            GraphBarrierDisposition::Wait { waits } => DispositionModel::Wait { waits: waits@ },
            GraphBarrierDisposition::Terminal { output } => DispositionModel::Terminal {
                output: output@,
            },
        }
    }
}

impl GraphBarrierDisposition {
    /// Returns the conditions of a wait.
    pub fn waits(&self) -> (r: Option<&NodeWaits>)
        ensures
            option_ref_view(r) == (match self@ {
                DispositionModel::Wait { waits } => Some(waits),
                _ => None,
            }),
    {
        match self {
            GraphBarrierDisposition::Wait { waits } => Some(waits),
            _ => None,
        }
    }

    /// Returns the output at the end.
    pub fn terminal_output(&self) -> (r: Option<&NodeTerminalOutput>)
        ensures
            option_ref_view(r) == (match self@ {
                DispositionModel::Terminal { output } => Some(output),
                _ => None,
            }),
    {
        match self {
            GraphBarrierDisposition::Terminal { output } => Some(output),
            _ => None,
        }
    }
}

/// The dispositions are of one kind, with equal conditions or outputs.
pub open spec fn disposition_equal(a: DispositionModel, b: DispositionModel) -> bool {
    match (a, b) {
        (DispositionModel::Wait { waits: x }, DispositionModel::Wait { waits: y }) => waits_equal(
            x,
            y,
        ),
        (
            DispositionModel::Terminal { output: x },
            DispositionModel::Terminal { output: y },
        ) => pinned_equal(x, y),
        _ => a == b,
    }
}

impl PartialEq for GraphBarrierDisposition {
    fn eq(&self, other: &Self) -> (r: bool) {
        match (self, other) {
            (GraphBarrierDisposition::Continue, GraphBarrierDisposition::Continue) => true,
            (
                GraphBarrierDisposition::Wait { waits: a },
                GraphBarrierDisposition::Wait { waits: b },
            ) => *a == *b,
            (
                GraphBarrierDisposition::Terminal { output: a },
                GraphBarrierDisposition::Terminal { output: b },
            ) => *a == *b,
            _ => false,
        }
    }
}

impl vstd::std_specs::cmp::PartialEqSpecImpl for GraphBarrierDisposition {
    open spec fn obeys_eq_spec() -> bool {
        true
    }

    open spec fn eq_spec(&self, other: &Self) -> bool {
        disposition_equal(self@, other@)
    }
}

impl Eq for GraphBarrierDisposition {

}

/// The barrier that follows a checkpoint, and what it does to the run.
#[derive(Debug)]
pub struct GraphBarrierPlan {
    barrier: CheckpointBarrier,
    disposition: GraphBarrierDisposition,
}

/// The values of [`GraphBarrierPlan`].
pub ghost struct PlanModel {
    pub barrier: BarrierModel,
    pub disposition: DispositionModel,
}

impl View for GraphBarrierPlan {
    type V = PlanModel;

    closed spec fn view(&self) -> PlanModel {
        PlanModel { barrier: self.barrier@, disposition: self.disposition@ }
    }
}

impl GraphBarrierPlan {
    /// Returns the barrier.
    pub fn barrier(&self) -> (r: &CheckpointBarrier)
        ensures
            r@ == self@.barrier,
    {
        &self.barrier
    }

    /// Returns what the barrier does to the run.
    pub fn disposition(&self) -> (r: &GraphBarrierDisposition)
        ensures
            r@ == self@.disposition,
    {
        &self.disposition
    }

    /// Takes the plan apart.
    pub fn into_parts(self) -> (r: (CheckpointBarrier, GraphBarrierDisposition))
        ensures
            r.0@ == self@.barrier,
            r.1@ == self@.disposition,
    {
        (self.barrier, self.disposition)
    }
}

/// The plans have equal barriers and dispositions.
pub open spec fn plan_equal(a: PlanModel, b: PlanModel) -> bool {
    barrier_equal(a.barrier, b.barrier) && disposition_equal(a.disposition, b.disposition)
}

impl PartialEq for GraphBarrierPlan {
    fn eq(&self, other: &Self) -> (r: bool) {
        self.barrier == other.barrier && self.disposition == other.disposition
    }
}

impl vstd::std_specs::cmp::PartialEqSpecImpl for GraphBarrierPlan {
    open spec fn obeys_eq_spec() -> bool {
        true
    }

    open spec fn eq_spec(&self, other: &Self) -> bool {
        plan_equal(self@, other@)
    }
}

impl Eq for GraphBarrierPlan {

}

/// The kinds of values that are validated.
#[derive(Clone, Copy, Debug, PartialEq, Eq, Structural)]
pub enum GraphValueKind {
    /// The state of the checkpoint.
    BaseState,
    /// The update of a node.
    NodeUpdate,
    /// The output at the end.
    TerminalOutput,
    /// The next state.
    ReducedState,
}

/// The name of a kind of value.
pub open spec fn value_kind_text(kind: GraphValueKind) -> Seq<char> {
    match kind {
        GraphValueKind::BaseState => "base state"@,
        GraphValueKind::NodeUpdate => "node update"@,
        GraphValueKind::TerminalOutput => "terminal output"@,
        GraphValueKind::ReducedState => "reduced state"@,
    }
}

impl GraphValueKind {
    /// Writes the name of the kind.
    pub fn to_string(&self) -> (r: String)
        ensures
            r@ == value_kind_text(*self),
    {
        let text = match self {
            GraphValueKind::BaseState => "base state",
            GraphValueKind::NodeUpdate => "node update",
            GraphValueKind::TerminalOutput => "terminal output",
            GraphValueKind::ReducedState => "reduced state",
        };
        text.to_owned()
    }
}

/// Why there is no plan.
#[derive(Debug, PartialEq, Eq)]
#[allow(inconsistent_fields)]
pub enum GraphBarrierPlanError {
    /// The checkpoint belongs to another graph.
    GraphReferenceMismatch,
    /// The first checkpoint is not ready at the entry nodes.
    InitialReadySetMismatch,
    /// The graph allows no further barrier.
    SuperstepLimitReached { maximum: Superstep, actual: Superstep },
    /// The checkpoint has more ready nodes than the graph allows.
    BaseParallelismExceeded { maximum: usize, actual: usize },
    /// The graph does not have this ready node.
    UnknownReadyNode { node_id: NodeId },
    /// The reducer is not the one that the graph pins.
    ReducerReferenceMismatch,
    /// There are more or fewer results than ready nodes.
    ResultCountMismatch { expected: usize, actual: usize },
    /// This node has two results.
    DuplicateResultNode { node_id: NodeId },
    /// The result of this node belongs to another checkpoint.
    ResultBaseMismatch { node_id: NodeId },
    /// The result of this node belongs to a nested graph.
    NonRootActivation { node_id: NodeId },
    /// This node was not ready at the checkpoint.
    ActivationMismatch { node_id: NodeId },
    /// The update of this node is pinned to another schema.
    UpdateSchemaMismatch { node_id: NodeId },
    /// The output of this node is pinned to another schema.
    TerminalOutputSchemaMismatch { node_id: NodeId },
    /// A value was not accepted under its schema.
    SchemaValidation {
        kind: GraphValueKind,
        node_id: Option<NodeId>,
        source: GraphSchemaValidationError,
    },
    /// The validator panicked on a value.
    SchemaValidatorPanicked { kind: GraphValueKind, node_id: Option<NodeId> },
    /// The node does not declare this kind of control.
    UndeclaredControl { node_id: NodeId, control: NodeControlKind },
    /// The node does not declare this route.
    UndeclaredRoute { node_id: NodeId, route_id: RouteId },
    /// A node ends the run while others do not.
    TerminalNotExclusive,
    /// The barrier neither ends nor leads anywhere.
    AdvancingBarrierWithoutSuccessor,
    /// The nodes lead to more nodes than the graph allows.
    SuccessorParallelismExceeded { maximum: usize, actual: usize },
    /// The reducer gave no state.
    ReducerFailed { source: GraphReducerError },
    /// The reducer panicked.
    ReducerPanicked,
}

/// The values of [`GraphBarrierPlanError`].
#[allow(inconsistent_fields)]
pub ghost enum PlanFailure {
    GraphReferenceMismatch,
    InitialReadySetMismatch,
    SuperstepLimitReached { maximum: u64, actual: u64 },
    BaseParallelismExceeded { maximum: usize, actual: usize },
    UnknownReadyNode { node_id: Seq<char> },
    ReducerReferenceMismatch,
    ResultCountMismatch { expected: usize, actual: usize },
    DuplicateResultNode { node_id: Seq<char> },
    ResultBaseMismatch { node_id: Seq<char> },
    NonRootActivation { node_id: Seq<char> },
    ActivationMismatch { node_id: Seq<char> },
    UpdateSchemaMismatch { node_id: Seq<char> },
    TerminalOutputSchemaMismatch { node_id: Seq<char> },
    SchemaValidation {
        kind: GraphValueKind,
        node_id: Option<Seq<char>>,
        source: GraphSchemaValidationError,
    },
    SchemaValidatorPanicked { kind: GraphValueKind, node_id: Option<Seq<char>> },
    UndeclaredControl { node_id: Seq<char>, control: NodeControlKind },
    UndeclaredRoute { node_id: Seq<char>, route_id: Seq<char> },
    TerminalNotExclusive,
    AdvancingBarrierWithoutSuccessor,
    SuccessorParallelismExceeded { maximum: usize, actual: usize },
    ReducerFailed { source: GraphReducerError },
    ReducerPanicked,
}

impl View for GraphBarrierPlanError {
    type V = PlanFailure;

    open spec fn view(&self) -> PlanFailure {
        match self {
            GraphBarrierPlanError::GraphReferenceMismatch => PlanFailure::GraphReferenceMismatch,
            GraphBarrierPlanError::InitialReadySetMismatch => PlanFailure::InitialReadySetMismatch,
            GraphBarrierPlanError::SuperstepLimitReached {
                maximum,
                actual,
            } => PlanFailure::SuperstepLimitReached { maximum: maximum@, actual: actual@ },
            GraphBarrierPlanError::BaseParallelismExceeded {
                maximum,
                actual,
            } => PlanFailure::BaseParallelismExceeded { maximum: *maximum, actual: *actual },
            GraphBarrierPlanError::UnknownReadyNode { node_id } => PlanFailure::UnknownReadyNode {
                node_id: node_id@,
            },
            GraphBarrierPlanError::ReducerReferenceMismatch => {
                PlanFailure::ReducerReferenceMismatch
            },
            GraphBarrierPlanError::ResultCountMismatch {
                expected,
                actual,
            } => PlanFailure::ResultCountMismatch { expected: *expected, actual: *actual },
            GraphBarrierPlanError::DuplicateResultNode {
                node_id,
            } => PlanFailure::DuplicateResultNode { node_id: node_id@ },
            GraphBarrierPlanError::ResultBaseMismatch {
                node_id,
            } => PlanFailure::ResultBaseMismatch { node_id: node_id@ },
            GraphBarrierPlanError::NonRootActivation { node_id } => PlanFailure::NonRootActivation {
                node_id: node_id@,
            },
            GraphBarrierPlanError::ActivationMismatch {
                node_id,
            } => PlanFailure::ActivationMismatch { node_id: node_id@ },
            GraphBarrierPlanError::UpdateSchemaMismatch {
                node_id,
            } => PlanFailure::UpdateSchemaMismatch { node_id: node_id@ },
            GraphBarrierPlanError::TerminalOutputSchemaMismatch {
                node_id,
            } => PlanFailure::TerminalOutputSchemaMismatch { node_id: node_id@ },
            GraphBarrierPlanError::SchemaValidation {
                kind,
                node_id,
                source,
            } => PlanFailure::SchemaValidation {
                kind: *kind,
                node_id: option_view(*node_id),
                source: *source,
            },
            GraphBarrierPlanError::SchemaValidatorPanicked {
                kind,
                node_id,
            } => PlanFailure::SchemaValidatorPanicked {
                kind: *kind,
                node_id: option_view(*node_id),
            },
            GraphBarrierPlanError::UndeclaredControl {
                node_id,
                control,
            } => PlanFailure::UndeclaredControl { node_id: node_id@, control: *control },
            GraphBarrierPlanError::UndeclaredRoute {
                node_id,
                route_id,
            } => PlanFailure::UndeclaredRoute { node_id: node_id@, route_id: route_id@ },
            GraphBarrierPlanError::TerminalNotExclusive => PlanFailure::TerminalNotExclusive,
            GraphBarrierPlanError::AdvancingBarrierWithoutSuccessor => {
                PlanFailure::AdvancingBarrierWithoutSuccessor
            },
            GraphBarrierPlanError::SuccessorParallelismExceeded {
                maximum,
                actual,
            } => PlanFailure::SuccessorParallelismExceeded { maximum: *maximum, actual: *actual },
            GraphBarrierPlanError::ReducerFailed { source } => PlanFailure::ReducerFailed {
                source: *source,
            },
            GraphBarrierPlanError::ReducerPanicked => PlanFailure::ReducerPanicked,
        }
    }
}

/// The outcome fails as expected, or not at all.
pub open spec fn fails_as<T>(r: Result<T, GraphBarrierPlanError>, failure: Option<PlanFailure>) -> bool {
    match (r, failure) {
        (Ok(_), None) => true,
        (Err(e), Some(failure)) => e@ == failure,
        _ => false,
    }
}

// ---------------------------------------------------------------------------
// Model of a plan
// ---------------------------------------------------------------------------

/// What a checkpoint fails on as one of the graph.
pub open spec fn checkpoint_failure(graph: GraphModel, base: CheckpointModel) -> Option<
    PlanFailure,
> {
    if base.graph != graph_reference(graph) {
        Some(PlanFailure::GraphReferenceMismatch)
    } else if base.superstep@ == 0 && base.ready_nodes != graph.entry_nodes {
        Some(PlanFailure::InitialReadySetMismatch)
    } else if base.superstep@ >= graph.limits.supersteps {
        Some(
            PlanFailure::SuperstepLimitReached {
                maximum: graph.limits.supersteps,
                actual: base.superstep@,
            },
        )
    } else if base.ready_nodes.len() > graph.limits.parallelism {
        Some(
            PlanFailure::BaseParallelismExceeded {
                maximum: graph.limits.parallelism as usize,
                actual: base.ready_nodes.len() as usize,
            },
        )
    } else {
        unknown_failure(graph, base.ready_nodes, 0)
    }
}

/// The first ready node from a place on that the graph does not have.
pub open spec fn unknown_failure(graph: GraphModel, names: Seq<Seq<char>>, from: int) -> Option<
    PlanFailure,
>
    decreases names.len() - from,
{
    if from < 0 || from >= names.len() {
        None
    } else if find::<GraphNode>(graph.nodes, names[from]) is None {
        Some(PlanFailure::UnknownReadyNode { node_id: names[from] })
    } else {
        unknown_failure(graph, names, from + 1)
    }
}

/// What a validated value fails on.
pub open spec fn verdict_failure(
    verdict: Result<(), GraphSchemaValidationError>,
    kind: GraphValueKind,
    node_id: Option<Seq<char>>,
) -> Option<PlanFailure> {
    match verdict {
        Ok(()) => None,
        Err(GraphSchemaValidationError::Panicked) => Some(
            PlanFailure::SchemaValidatorPanicked { kind, node_id },
        ),
        Err(source) => Some(PlanFailure::SchemaValidation { kind, node_id, source }),
    }
}

/// What the result at a place fails on.
pub open spec fn result_failure(base: CheckpointModel, results: Seq<ResultModel>, i: int) -> Option<
    PlanFailure,
> {
    let activation = results[i].activation;
    let node_id = activation.node_id;
    if activation.base_checkpoint != base.head {
        Some(PlanFailure::ResultBaseMismatch { node_id })
    } else if activation.graph_namespace.len() != 0 {
        Some(PlanFailure::NonRootActivation { node_id })
    } else if !base.ready_nodes.contains(node_id) {
        Some(PlanFailure::ActivationMismatch { node_id })
    } else if keys::<PendingNodeResult>(results.take(i)).contains(node_id) {
        Some(PlanFailure::DuplicateResultNode { node_id })
    } else {
        None
    }
}

/// What the results from a place on fail on.
pub open spec fn results_failure(base: CheckpointModel, results: Seq<ResultModel>, from: int) -> Option<
    PlanFailure,
>
    decreases results.len() - from,
{
    if from < 0 || from >= results.len() {
        None
    } else {
        match result_failure(base, results, from) {
            Some(failure) => Some(failure),
            None => results_failure(base, results, from + 1),
        }
    }
}

/// The results in the order of their nodes, or what they fail on.
pub open spec fn ordered_outcome(base: CheckpointModel, results: Seq<ResultModel>) -> Result<
    Seq<ResultModel>,
    PlanFailure,
> {
    if results.len() != base.ready_nodes.len() {
        Err(
            PlanFailure::ResultCountMismatch {
                expected: base.ready_nodes.len() as usize,
                actual: results.len() as usize,
            },
        )
    } else {
        match results_failure(base, results, 0) {
            Some(failure) => Err(failure),
            None => Ok(arranged::<PendingNodeResult>(results)),
        }
    }
}

/// What was gathered from the results so far.
pub ghost struct Gathered {
    pub inputs: Seq<InputModel>,
    pub next: Seq<Seq<char>>,
    pub waits: Seq<Json>,
    pub terminal: Option<PinnedModel>,
}

/// Nothing was gathered yet.
pub open spec fn nothing() -> Gathered {
    Gathered { inputs: Seq::empty(), next: Seq::empty(), waits: Seq::empty(), terminal: None }
}

/// The names of both lists, in order and none twice, where the first is so.
pub open spec fn united(names: Seq<Seq<char>>, more: Seq<Seq<char>>) -> Seq<Seq<char>>
    decreases more.len(),
{
    if more.len() == 0 {
        names
    } else {
        let before = united(names, more.drop_last());
        if before.contains(more.last()) {
            before
        } else {
            placed::<NodeId>(before, more.last())
        }
    }
}

/// What an update adds.
pub open spec fn update_step<V: GraphSchemaValidator + ?Sized>(
    graph: GraphModel,
    schemas: &V,
    node_id: Seq<char>,
    update: Option<PinnedModel>,
    gathered: Gathered,
) -> Result<Gathered, PlanFailure> {
    match update {
        None => Ok(gathered),
        Some(update) => if update.schema != graph.update_schema {
            Err(PlanFailure::UpdateSchemaMismatch { node_id })
        } else {
            match verdict_failure(
                schemas.verdict(update.schema, update.data),
                GraphValueKind::NodeUpdate,
                Some(node_id),
            ) {
                Some(failure) => Err(failure),
                None => Ok(
                    Gathered {
                        inputs: gathered.inputs.push(InputModel { node_id, update }),
                        ..gathered
                    },
                ),
            }
        },
    }
}

/// What a control adds.
pub open spec fn control_step<V: GraphSchemaValidator + ?Sized>(
    graph: GraphModel,
    schemas: &V,
    node: NodeModel,
    node_id: Seq<char>,
    control: ControlModel,
    gathered: Gathered,
) -> Result<Gathered, PlanFailure> {
    match control {
        ControlModel::Continue => match node.continue_to {
            None => Err(
                PlanFailure::UndeclaredControl { node_id, control: NodeControlKind::Continue },
            ),
            Some(names) => Ok(Gathered { next: united(gathered.next, names), ..gathered }),
        },
        ControlModel::Route { route_id } => match find::<GraphRoute>(node.routes, route_id) {
            None => Err(PlanFailure::UndeclaredRoute { node_id, route_id }),
            Some(route) => Ok(
                Gathered { next: united(gathered.next, route.successors), ..gathered },
            ),
        },
        ControlModel::Wait { waits } => match node.wait_to {
            None => Err(PlanFailure::UndeclaredControl { node_id, control: NodeControlKind::Wait }),
            Some(names) => Ok(
                Gathered {
                    next: united(gathered.next, names),
                    waits: gathered.waits + waits,
                    ..gathered
                },
            ),
        },
        ControlModel::Terminal { output } => if !node.terminal {
            Err(PlanFailure::UndeclaredControl { node_id, control: NodeControlKind::Terminal })
        } else if output.schema != graph.output_schema {
            Err(PlanFailure::TerminalOutputSchemaMismatch { node_id })
        } else {
            match verdict_failure(
                schemas.verdict(output.schema, output.data),
                GraphValueKind::TerminalOutput,
                Some(node_id),
            ) {
                Some(failure) => Err(failure),
                None => if gathered.terminal is Some {
                    Err(PlanFailure::TerminalNotExclusive)
                } else {
                    Ok(Gathered { terminal: Some(output), ..gathered })
                },
            }
        },
    }
}

/// What a result adds.
pub open spec fn result_step<V: GraphSchemaValidator + ?Sized>(
    graph: GraphModel,
    schemas: &V,
    result: ResultModel,
    gathered: Gathered,
) -> Result<Gathered, PlanFailure> {
    let node_id = result.activation.node_id;
    match find::<GraphNode>(graph.nodes, node_id) {
        None => Err(PlanFailure::UnknownReadyNode { node_id }),
        Some(node) => match update_step(graph, schemas, node_id, result.state_change, gathered) {
            Err(failure) => Err(failure),
            Ok(updated) => control_step(graph, schemas, node, node_id, result.control, updated),
        },
    }
}

/// What the results add up to.
pub open spec fn gathering<V: GraphSchemaValidator + ?Sized>(
    graph: GraphModel,
    schemas: &V,
    results: Seq<ResultModel>,
) -> Result<Gathered, PlanFailure>
    decreases results.len(),
{
    if results.len() == 0 {
        Ok(nothing())
    } else {
        match gathering(graph, schemas, results.drop_last()) {
            Err(failure) => Err(failure),
            Ok(gathered) => result_step(graph, schemas, results.last(), gathered),
        }
    }
}

/// What was gathered does to the run.
pub open spec fn disposition_of(count: nat, gathered: Gathered) -> Result<
    DispositionModel,
    PlanFailure,
> {
    match gathered.terminal {
        Some(output) => if count != 1 || gathered.waits.len() != 0 || gathered.next.len() != 0 {
            Err(PlanFailure::TerminalNotExclusive)
        } else {
            Ok(DispositionModel::Terminal { output })
        },
        None => if gathered.waits.len() != 0 {
            Ok(DispositionModel::Wait { waits: gathered.waits })
        } else if gathered.next.len() == 0 {
            Err(PlanFailure::AdvancingBarrierWithoutSuccessor)
        } else {
            Ok(DispositionModel::Continue)
        },
    }
}

/// The values that the controls of a barrier resolve to.
pub ghost struct ResolvedModel {
    pub inputs: Seq<InputModel>,
    pub ready_nodes: Seq<Seq<char>>,
    pub disposition: DispositionModel,
}

/// What the results in order resolve to.
pub open spec fn resolution<V: GraphSchemaValidator + ?Sized>(
    graph: GraphModel,
    schemas: &V,
    ordered: Seq<ResultModel>,
) -> Result<ResolvedModel, PlanFailure> {
    match gathering(graph, schemas, ordered) {
        Err(failure) => Err(failure),
        Ok(gathered) => match disposition_of(ordered.len(), gathered) {
            Err(failure) => Err(failure),
            Ok(disposition) => if gathered.next.len() > graph.limits.parallelism {
                Err(
                    PlanFailure::SuccessorParallelismExceeded {
                        maximum: graph.limits.parallelism as usize,
                        actual: gathered.next.len() as usize,
                    },
                )
            } else {
                Ok(
                    ResolvedModel {
                        inputs: gathered.inputs,
                        ready_nodes: gathered.next,
                        disposition,
                    },
                )
            },
        },
    }
}

/// What a reducer makes of the state: the state itself, where there is no
/// update.
pub open spec fn reduced<R: GraphReducer + ?Sized>(
    reducer: &R,
    state: Json,
    inputs: Seq<InputModel>,
) -> Result<Json, PlanFailure> {
    if inputs.len() == 0 {
        Ok(state)
    } else {
        match reducer.reduction(state, inputs) {
            Ok(next) => Ok(next),
            Err(GraphReducerError::Panicked) => Err(PlanFailure::ReducerPanicked),
            Err(source) => Err(PlanFailure::ReducerFailed { source }),
        }
    }
}

/// The next state, validated.
pub open spec fn next_state<V: GraphSchemaValidator + ?Sized, R: GraphReducer + ?Sized>(
    graph: GraphModel,
    schemas: &V,
    reducer: &R,
    state: Json,
    inputs: Seq<InputModel>,
) -> Result<PinnedModel, PlanFailure> {
    match reduced(reducer, state, inputs) {
        Err(failure) => Err(failure),
        Ok(data) => match verdict_failure(
            schemas.verdict(graph.state_schema, data),
            GraphValueKind::ReducedState,
            None,
        ) {
            Some(failure) => Err(failure),
            None => Ok(PinnedModel { schema: graph.state_schema, data }),
        },
    }
}

/// The identities of results.
pub open spec fn result_heads(results: Seq<ResultModel>) -> Seq<ResultHeadModel> {
    Seq::new(results.len(), |i: int| result_head(results[i]))
}

/// What planning comes to before results are looked at.
pub open spec fn base_failure<V: GraphSchemaValidator + ?Sized, R: GraphReducer + ?Sized>(
    graph: GraphModel,
    base: CheckpointModel,
    schemas: &V,
    reducer: &R,
) -> Option<PlanFailure> {
    match checkpoint_failure(graph, base) {
        Some(failure) => Some(failure),
        None => if reducer.pin() != graph.reducer {
            Some(PlanFailure::ReducerReferenceMismatch)
        } else {
            verdict_failure(
                schemas.verdict(graph.state_schema, base.state.data),
                GraphValueKind::BaseState,
                None,
            )
        },
    }
}

/// The parts of a plan, or what it fails on.
pub open spec fn plan_parts<V: GraphSchemaValidator + ?Sized, R: GraphReducer + ?Sized>(
    graph: GraphModel,
    base: CheckpointModel,
    results: Seq<ResultModel>,
    schemas: &V,
    reducer: &R,
) -> Result<(Seq<ResultModel>, ResolvedModel, PinnedModel), PlanFailure> {
    match base_failure(graph, base, schemas, reducer) {
        Some(failure) => Err(failure),
        None => match ordered_outcome(base, results) {
            Err(failure) => Err(failure),
            Ok(ordered) => match resolution(graph, schemas, ordered) {
                Err(failure) => Err(failure),
                Ok(resolved) => match next_state(
                    graph,
                    schemas,
                    reducer,
                    base.state.data,
                    resolved.inputs,
                ) {
                    Err(failure) => Err(failure),
                    Ok(state) => Ok((ordered, resolved, state)),
                },
            },
        },
    }
}

/// The outcome of planning is the expected one.
pub open spec fn plan_outcome<V: GraphSchemaValidator + ?Sized, R: GraphReducer + ?Sized>(
    r: Result<GraphBarrierPlan, GraphBarrierPlanError>,
    graph: GraphModel,
    base: CheckpointModel,
    results: Seq<ResultModel>,
    successor_id: CheckpointId,
    schemas: &V,
    reducer: &R,
) -> bool {
    match (r, plan_parts(graph, base, results, schemas, reducer)) {
        (Ok(plan), Ok((ordered, resolved, state))) => {
            &&& plan@.barrier.base == base.head
            &&& plan@.barrier.successor.checkpoint_id == successor_id
            &&& plan@.barrier.successor.superstep@ == base.superstep@ + 1
            &&& plan@.barrier.successor.state == state
            &&& plan@.barrier.successor.ready_nodes == resolved.ready_nodes
            &&& plan@.barrier.results == result_heads(ordered)
            &&& plan@.disposition == resolved.disposition
        },
        (Err(e), Err(failure)) => e@ == failure,
        _ => false,
    }
}

// ---------------------------------------------------------------------------
// Planning
// ---------------------------------------------------------------------------

fn validate_checkpoint(graph: &CompiledGraph, base: &Checkpoint) -> (r: Result<
    (),
    GraphBarrierPlanError,
>)
    ensures
        fails_as(r, checkpoint_failure(graph@, base@)),
{
    if *base.graph() != graph.reference() {
        return Err(GraphBarrierPlanError::GraphReferenceMismatch);
    }
    if base.superstep().get() == 0 && *base.ready_nodes() != *graph.entry_nodes() {
        return Err(GraphBarrierPlanError::InitialReadySetMismatch);
    }
    let limits = graph.limits();
    let supersteps = limits.maximum_supersteps();
    if base.superstep().get() >= supersteps.get() {
        return Err(
            GraphBarrierPlanError::SuperstepLimitReached {
                maximum: supersteps,
                actual: base.superstep(),
            },
        );
    }
    let parallelism: usize = limits.maximum_parallelism() as usize;
    let ready = base.ready_nodes();
    if ready.len() > parallelism {
        return Err(
            GraphBarrierPlanError::BaseParallelismExceeded {
                maximum: parallelism,
                actual: ready.len(),
            },
        );
    }
    let nodes = ready.as_slice();
    let ghost names = base@.ready_nodes;
    let mut i: usize = 0;
    while i < nodes.len()
        invariant
            i <= nodes@.len(),
            names == views(nodes@),
            checkpoint_failure(graph@, base@) == unknown_failure(graph@, names, 0),
            unknown_failure(graph@, names, 0) == unknown_failure(graph@, names, i as int),
        ensures
            i == nodes@.len(),
            unknown_failure(graph@, names, 0) is None,
        decreases nodes@.len() - i,
    {
        assert(names[i as int] == nodes@[i as int]@);
        if graph.node(&nodes[i]).is_none() {
            return Err(GraphBarrierPlanError::UnknownReadyNode { node_id: nodes[i].clone() });
        }
        i = i + 1;
    }
    Ok(())
}

fn copy_node_id(node_id: Option<&NodeId>) -> (r: Option<NodeId>)
    ensures
        option_view(r) == option_ref_view(node_id),
{
    match node_id {
        Some(node_id) => Some(node_id.clone()),
        None => None,
    }
}

fn validate_schema<V: GraphSchemaValidator + ?Sized>(
    schemas: &V,
    schema: &SchemaReference,
    value: &BoundedJson,
    kind: GraphValueKind,
    node_id: Option<&NodeId>,
) -> (r: Result<(), GraphBarrierPlanError>)
    ensures
        fails_as(
            r,
            verdict_failure(schemas.verdict(schema@, value@), kind, option_ref_view(node_id)),
        ),
{
    match schemas.validate(schema, value) {
        Ok(()) => Ok(()),
        Err(GraphSchemaValidationError::Panicked) => Err(
            GraphBarrierPlanError::SchemaValidatorPanicked { kind, node_id: copy_node_id(node_id) },
        ),
        Err(source) => Err(
            GraphBarrierPlanError::SchemaValidation {
                kind,
                node_id: copy_node_id(node_id),
                source,
            },
        ),
    }
}

proof fn take_all<T>(items: Seq<T>)
    ensures
        items.take(items.len() as int) == items,
{
    assert(items.take(items.len() as int) =~= items);
}

fn ordered_results(base: &Checkpoint, results: &[PendingNodeResult]) -> (r: Result<
    Vec<PendingNodeResult>,
    GraphBarrierPlanError,
>)
    ensures
        match (r, ordered_outcome(base@, views(results@))) {
            (Ok(ordered), Ok(models)) => views(ordered@) == models,
            (Err(e), Err(failure)) => e@ == failure,
            _ => false,
        },
{
    if results.len() != base.ready_nodes().len() {
        return Err(
            GraphBarrierPlanError::ResultCountMismatch {
                expected: base.ready_nodes().len(),
                actual: results.len(),
            },
        );
    }
    let ghost models = views(results@);
    let mut ordered: Vec<PendingNodeResult> = Vec::new();
    assert(views(ordered@) =~= arranged::<PendingNodeResult>(models.take(0)));
    let mut i: usize = 0;
    while i < results.len()
        invariant
            i <= results@.len(),
            models == views(results@),
            models.len() == base@.ready_nodes.len(),
            results_failure(base@, models, 0) == results_failure(base@, models, i as int),
            ascending(keys::<PendingNodeResult>(views(ordered@))),
            views(ordered@) == arranged::<PendingNodeResult>(models.take(i as int)),
            forall|n: Seq<char>| #[trigger]
                keys::<PendingNodeResult>(views(ordered@)).contains(n) <==> keys::<
                    PendingNodeResult,
                >(models.take(i as int)).contains(n),
        decreases results@.len() - i,
    {
        let result = &results[i];
        assert(models[i as int] == result@);
        let activation = result.activation();
        let node_id = activation.node_id();
        if *activation.base_checkpoint() != *base.head() {
            return Err(GraphBarrierPlanError::ResultBaseMismatch { node_id: node_id.clone() });
        }
        if !activation.graph_namespace().is_root() {
            return Err(GraphBarrierPlanError::NonRootActivation { node_id: node_id.clone() });
        }
        let expected = match NodeActivation::for_ready_root(base, node_id) {
            Some(expected) => expected,
            None => {
                return Err(GraphBarrierPlanError::ActivationMismatch { node_id: node_id.clone() });
            },
        };
        assert(activation@.graph_namespace =~= Seq::<Seq<char>>::empty());
        if *activation != expected {
            return Err(GraphBarrierPlanError::ActivationMismatch { node_id: node_id.clone() });
        }
        let ghost before = models.take(i as int);
        let ghost after = models.take(i + 1);
        let inserted = insert_new(&mut ordered, result.clone());
        if !inserted {
            return Err(GraphBarrierPlanError::DuplicateResultNode { node_id: node_id.clone() });
        }
        proof {
            assert(after.drop_last() =~= before);
            assert(after.last() == result@);
            let names = keys::<PendingNodeResult>(before);
            let more = keys::<PendingNodeResult>(after);
            assert(more =~= names.push(node_id@));
            assert forall|n: Seq<char>| #[trigger] more.contains(n) <==> n == node_id@
                || names.contains(n) by {
                if names.contains(n) {
                    let k = names.index_of(n);
                    assert(more[k] == n);
                }
                assert(more[i as int] == node_id@);
            }
        }
        i = i + 1;
    }
    proof {
        take_all(models);
    }
    Ok(ordered)
}

/// Adds names to names in order.
fn unite(next: &mut Vec<NodeId>, more: &[NodeId])
    requires
        ascending(views(old(next)@)),
    ensures
        ascending(views(final(next)@)),
        views(final(next)@) == united(views(old(next)@), views(more@)),
{
    broadcast use node_keys;

    let ghost start = views(next@);
    let ghost names = views(more@);
    let mut i: usize = 0;
    assert(names.take(0) =~= Seq::<Seq<char>>::empty());
    while i < more.len()
        invariant
            i <= more@.len(),
            names == views(more@),
            ascending(views(next@)),
            views(next@) == united(start, names.take(i as int)),
        decreases more@.len() - i,
    {
        let ghost before = views(next@);
        proof {
            node_keys(views(next@));
            assert(names.take(i + 1).drop_last() =~= names.take(i as int));
            assert(names.take(i + 1).last() == names[i as int]);
        }
        let _added = insert_new(next, more[i].clone());
        proof {
            node_keys(views(next@));
        }
        i = i + 1;
    }
    proof {
        take_all(names);
    }
}

struct ResolvedControls<'a> {
    reducer_inputs: Vec<GraphReducerInput<'a>>,
    ready_nodes: ReadyNodes,
    disposition: GraphBarrierDisposition,
}

impl<'a> View for ResolvedControls<'a> {
    type V = ResolvedModel;

    closed spec fn view(&self) -> ResolvedModel {
        ResolvedModel {
            inputs: views(self.reducer_inputs@),
            ready_nodes: self.ready_nodes@,
            disposition: self.disposition@,
        }
    }
}

fn resolve_disposition(
    result_count: usize,
    next_nodes: &[NodeId],
    waits: Vec<NodeWait>,
    terminal: Option<NodeTerminalOutput>,
) -> (r: Result<GraphBarrierDisposition, GraphBarrierPlanError>)
    ensures
        forall|gathered: Gathered|
            #![trigger disposition_of(result_count as nat, gathered)]
            gathered.next == views(next_nodes@) && gathered.waits == views(waits@)
                && gathered.terminal == option_view(terminal) ==> match (
                r,
                disposition_of(result_count as nat, gathered),
            ) {
                (Ok(disposition), Ok(model)) => disposition@ == model,
                (Err(e), Err(failure)) => e@ == failure,
                _ => false,
            },
{
    if let Some(output) = terminal {
        if result_count != 1 || waits.len() != 0 || next_nodes.len() != 0 {
            return Err(GraphBarrierPlanError::TerminalNotExclusive);
        }
        return Ok(GraphBarrierDisposition::Terminal { output });
    }
    match NodeWaits::try_new(waits) {
        Ok(waits) => Ok(GraphBarrierDisposition::Wait { waits }),
        Err(_) => {
            if next_nodes.len() == 0 {
                return Err(GraphBarrierPlanError::AdvancingBarrierWithoutSuccessor);
            }
            Ok(GraphBarrierDisposition::Continue)
        },
    }
}

/// What the controls gather while they are resolved.
struct Gathering<'a> {
    reducer_inputs: Vec<GraphReducerInput<'a>>,
    next_nodes: Vec<NodeId>,
    waits: Vec<NodeWait>,
    terminal: Option<NodeTerminalOutput>,
}

impl<'a> View for Gathering<'a> {
    type V = Gathered;

    closed spec fn view(&self) -> Gathered {
        Gathered {
            inputs: views(self.reducer_inputs@),
            next: views(self.next_nodes@),
            waits: views(self.waits@),
            terminal: option_view(self.terminal),
        }
    }
}

/// The outcome of one more step is the expected one. A step that fails leaves
/// what was gathered.
closed spec fn step_outcome(
    r: Result<(), GraphBarrierPlanError>,
    before: Gathered,
    after: Gathered,
    expected: Result<Gathered, PlanFailure>,
) -> bool {
    match (r, expected) {
        (Ok(()), Ok(model)) => after == model,
        (Err(e), Err(failure)) => e@ == failure && after == before,
        _ => false,
    }
}

impl<'a> Gathering<'a> {
    fn add_update<V: GraphSchemaValidator + ?Sized>(
        &mut self,
        graph: &CompiledGraph,
        schemas: &V,
        result: &'a PendingNodeResult,
    ) -> (r: Result<(), GraphBarrierPlanError>)
        ensures
            step_outcome(
                r,
                old(self)@,
                final(self)@,
                update_step(
                    graph@,
                    schemas,
                    result@.activation.node_id,
                    result@.state_change,
                    old(self)@,
                ),
            ),
            final(self)@.next == old(self)@.next,
    {
        let node_id = result.activation().node_id();
        if let Some(update) = result.state_change().update() {
            if *update.schema() != *graph.update_schema() {
                return Err(
                    GraphBarrierPlanError::UpdateSchemaMismatch { node_id: node_id.clone() },
                );
            }
            validate_schema(
                schemas,
                update.schema(),
                update.data(),
                GraphValueKind::NodeUpdate,
                Some(node_id),
            )?;
            let ghost before = self.reducer_inputs@;
            self.reducer_inputs.push(GraphReducerInput::new(node_id, update));
            assert(views(self.reducer_inputs@) =~= views(before).push(
                InputModel { node_id: node_id@, update: update@ },
            ));
        }
        Ok(())
    }

    fn add_control<V: GraphSchemaValidator + ?Sized>(
        &mut self,
        graph: &CompiledGraph,
        schemas: &V,
        node: &GraphNode,
        result: &'a PendingNodeResult,
    ) -> (r: Result<(), GraphBarrierPlanError>)
        requires
            ascending(old(self)@.next),
        ensures
            step_outcome(
                r,
                old(self)@,
                final(self)@,
                control_step(
                    graph@,
                    schemas,
                    node@,
                    result@.activation.node_id,
                    result@.control,
                    old(self)@,
                ),
            ),
            ascending(final(self)@.next),
    {
        let node_id = result.activation().node_id();
        match result.control() {
            NodeControl::Continue => {
                let successors = match node.continue_to() {
                    Some(successors) => successors,
                    None => {
                        return Err(
                            GraphBarrierPlanError::UndeclaredControl {
                                node_id: node_id.clone(),
                                control: NodeControlKind::Continue,
                            },
                        );
                    },
                };
                unite(&mut self.next_nodes, successors.as_slice());
            },
            NodeControl::Route { route_id } => {
                let route = match node.routes().get(route_id) {
                    Some(route) => route,
                    None => {
                        return Err(
                            GraphBarrierPlanError::UndeclaredRoute {
                                node_id: node_id.clone(),
                                route_id: route_id.clone(),
                            },
                        );
                    },
                };
                unite(&mut self.next_nodes, route.successors().as_slice());
            },
            NodeControl::Wait { waits } => {
                let successors = match node.wait_to() {
                    Some(successors) => successors,
                    None => {
                        return Err(
                            GraphBarrierPlanError::UndeclaredControl {
                                node_id: node_id.clone(),
                                control: NodeControlKind::Wait,
                            },
                        );
                    },
                };
                unite(&mut self.next_nodes, successors.as_slice());
                append_waits(&mut self.waits, waits.as_slice());
            },
            NodeControl::Terminal { output } => {
                if !node.allows_terminal() {
                    return Err(
                        GraphBarrierPlanError::UndeclaredControl {
                            node_id: node_id.clone(),
                            control: NodeControlKind::Terminal,
                        },
                    );
                }
                if *output.schema() != *graph.output_schema() {
                    return Err(
                        GraphBarrierPlanError::TerminalOutputSchemaMismatch {
                            node_id: node_id.clone(),
                        },
                    );
                }
                validate_schema(
                    schemas,
                    output.schema(),
                    output.data(),
                    GraphValueKind::TerminalOutput,
                    Some(node_id),
                )?;
                if self.terminal.is_some() {
                    return Err(GraphBarrierPlanError::TerminalNotExclusive);
                }
                self.terminal = Some(output.clone());
            },
        }
        Ok(())
    }
}

/// Adds conditions to conditions.
fn append_waits(waits: &mut Vec<NodeWait>, more: &[NodeWait])
    ensures
        views(final(waits)@) == views(old(waits)@) + views(more@),
{
    let ghost start = views(waits@);
    let mut i: usize = 0;
    assert(start + views(more@).take(0) =~= start);
    while i < more.len()
        invariant
            i <= more@.len(),
            views(waits@) == start + views(more@).take(i as int),
        decreases more@.len() - i,
    {
        let ghost before = waits@;
        waits.push(more[i].clone());
        assert(views(waits@) =~= views(before).push(views(more@)[i as int]));
        assert(views(waits@) =~= start + views(more@).take(i + 1));
        i = i + 1;
    }
    proof {
        take_all(views(more@));
    }
}

fn resolve_controls<'a, V: GraphSchemaValidator + ?Sized>(
    graph: &CompiledGraph,
    schemas: &V,
    ordered: &'a [PendingNodeResult],
) -> (r: Result<ResolvedControls<'a>, GraphBarrierPlanError>)
    ensures
        match (r, resolution(graph@, schemas, views(ordered@))) {
            (Ok(resolved), Ok(model)) => resolved@ == model,
            (Err(e), Err(failure)) => e@ == failure,
            _ => false,
        },
{
    broadcast use node_keys;

    let ghost models = views(ordered@);
    let mut gathered = Gathering {
        reducer_inputs: Vec::new(),
        next_nodes: Vec::new(),
        waits: Vec::new(),
        terminal: None,
    };
    assert(gathered@.inputs =~= nothing().inputs);
    assert(gathered@.next =~= nothing().next);
    assert(gathered@.waits =~= nothing().waits);
    let mut i: usize = 0;
    while i < ordered.len()
        invariant
            i <= ordered@.len(),
            models == views(ordered@),
            ascending(gathered@.next),
            gathering(graph@, schemas, models.take(i as int)) == Ok::<Gathered, PlanFailure>(
                gathered@,
            ),
        decreases ordered@.len() - i,
    {
        let result = &ordered[i];
        proof {
            assert(models.take(i + 1).drop_last() =~= models.take(i as int));
            assert(models.take(i + 1).last() == result@);
            assert forall|k: int|
                i < k <= models.len() && gathering(
                    graph@,
                    schemas,
                    models.take(i + 1),
                ) is Err implies #[trigger] gathering(graph@, schemas, models.take(k)) == gathering(
                graph@,
                schemas,
                models.take(i + 1),
            ) by {
                gathering_stays_failed(graph@, schemas, models, i + 1, k);
            }
            take_all(models);
            assert(i < models.len());
            assert(models.take(models.len() as int) == models);
        }
        let node = match graph.node(result.activation().node_id()) {
            Some(node) => node,
            None => {
                return Err(
                    GraphBarrierPlanError::UnknownReadyNode {
                        node_id: result.activation().node_id().clone(),
                    },
                );
            },
        };
        gathered.add_update(graph, schemas, result)?;
        gathered.add_control(graph, schemas, node, result)?;
        i = i + 1;
    }
    proof {
        take_all(models);
    }
    let Gathering { reducer_inputs, next_nodes, waits, terminal } = gathered;
    let disposition = resolve_disposition(
        ordered.len(),
        next_nodes.as_slice(),
        waits,
        terminal,
    )?;
    let parallelism: usize = graph.limits().maximum_parallelism() as usize;
    if next_nodes.len() > parallelism {
        return Err(
            GraphBarrierPlanError::SuccessorParallelismExceeded {
                maximum: parallelism,
                actual: next_nodes.len(),
            },
        );
    }
    proof {
        let names = views(next_nodes@);
        first_repeat_is_first(names);
        crate::ordered::ascending_distinct(names);
        arranged_of_ascending::<NodeId>(names);
    }
    match ReadyNodes::try_new(next_nodes) {
        Ok(ready_nodes) => Ok(ResolvedControls { reducer_inputs, ready_nodes, disposition }),
        Err(_) => Err(
            GraphBarrierPlanError::SuccessorParallelismExceeded { maximum: 1024, actual: 1025 },
        ),
    }
}

/// What results fail on, they fail on together with those that follow.
proof fn gathering_stays_failed<V: GraphSchemaValidator + ?Sized>(
    graph: GraphModel,
    schemas: &V,
    results: Seq<ResultModel>,
    i: int,
    k: int,
)
    requires
        0 <= i <= k <= results.len(),
        gathering(graph, schemas, results.take(i)) is Err,
    ensures
        gathering(graph, schemas, results.take(k)) == gathering(graph, schemas, results.take(i)),
    decreases k - i,
{
    if i < k {
        gathering_stays_failed(graph, schemas, results, i, k - 1);
        assert(results.take(k).drop_last() =~= results.take(k - 1));
    }
}

fn reduce_state<V: GraphSchemaValidator + ?Sized, R: GraphReducer + ?Sized>(
    graph: &CompiledGraph,
    schemas: &V,
    reducer: &R,
    state: &BoundedJson,
    reducer_inputs: &[GraphReducerInput<'_>],
) -> (r: Result<CheckpointState, GraphBarrierPlanError>)
    ensures
        match (r, next_state(graph@, schemas, reducer, state@, views(reducer_inputs@))) {
            (Ok(next), Ok(model)) => next@ == model,
            (Err(e), Err(failure)) => e@ == failure,
            _ => false,
        },
{
    let data = if reducer_inputs.len() == 0 {
        state.clone()
    } else {
        match reducer.reduce(state, reducer_inputs) {
            Ok(next) => next,
            Err(GraphReducerError::Panicked) => {
                return Err(GraphBarrierPlanError::ReducerPanicked);
            },
            Err(source) => {
                return Err(GraphBarrierPlanError::ReducerFailed { source });
            },
        }
    };
    validate_schema(schemas, graph.state_schema(), &data, GraphValueKind::ReducedState, None)?;
    Ok(CheckpointState::new(graph.state_schema().clone(), data))
}

fn collect_heads(ordered: &[PendingNodeResult]) -> (r: Vec<NodeResultHead>)
    ensures
        views(r@) == result_heads(views(ordered@)),
{
    let mut heads: Vec<NodeResultHead> = Vec::new();
    let mut i: usize = 0;
    while i < ordered.len()
        invariant
            i <= ordered@.len(),
            heads@.len() == i,
            forall|k: int| 0 <= k < i ==> (#[trigger] heads@[k])@ == result_head(ordered@[k]@),
        decreases ordered@.len() - i,
    {
        heads.push(ordered[i].head());
        i = i + 1;
    }
    assert(views(heads@) =~= result_heads(views(ordered@)));
    heads
}

impl CompiledGraph {
    /// Plans the barrier after a checkpoint from the results of all its ready
    /// nodes, given in any order.
    pub fn plan_barrier<V: GraphSchemaValidator + ?Sized, R: GraphReducer + ?Sized>(
        &self,
        base: &Checkpoint,
        results: &[PendingNodeResult],
        successor_id: CheckpointId,
        schemas: &V,
        reducer: &R,
    ) -> (r: Result<GraphBarrierPlan, GraphBarrierPlanError>)
        ensures
            plan_outcome(r, self@, base@, views(results@), successor_id, schemas, reducer),
    {
        validate_checkpoint(self, base)?;
        if *reducer.reference() != *self.reducer() {
            return Err(GraphBarrierPlanError::ReducerReferenceMismatch);
        }
        validate_schema(
            schemas,
            self.state_schema(),
            base.state().data(),
            GraphValueKind::BaseState,
            None,
        )?;
        let ordered = ordered_results(base, results)?;
        let resolved = resolve_controls(self, schemas, ordered.as_slice())?;
        let state = reduce_state(
            self,
            schemas,
            reducer,
            base.state().data(),
            resolved.reducer_inputs.as_slice(),
        )?;
        let limit: u64 = self.limits().maximum_supersteps().get();
        assert(base@.superstep@ < limit);
        let superstep = match base.superstep().checked_next() {
            Some(superstep) => superstep,
            None => {
                return Err(
                    GraphBarrierPlanError::SuperstepLimitReached {
                        maximum: self.limits().maximum_supersteps(),
                        actual: base.superstep(),
                    },
                );
            },
        };
        let successor = CheckpointWrite::new(successor_id, superstep, state, resolved.ready_nodes);
        let heads = collect_heads(ordered.as_slice());
        let barrier = CheckpointBarrier::new(base.head().clone(), successor, heads);
        Ok(GraphBarrierPlan { barrier, disposition: resolved.disposition })
    }
}

} // verus!
