//! Checkpoints of a run and the results of its nodes.

use vstd::prelude::*;

use crate::digest::Digest;
use crate::ids::CheckpointId;
use crate::json::{json_equal, BoundedJson};
use crate::json_value::Json;
use crate::names::{NodeId, RouteId};
use crate::ordered::{views, Keyed};
use crate::pins::{GraphReference, GraphReferenceModel, SchemaModel, SchemaReference};
use crate::ready::{copy_nodes, node_name_sound, ReadyNodes, Superstep};

verus! {

// ---------------------------------------------------------------------------
// Checkpoints
// ---------------------------------------------------------------------------

/// The state of a run, under its schema.
#[derive(Debug)]
pub struct CheckpointState {
    schema: SchemaReference,
    data: BoundedJson,
}

/// A value and the schema that it is pinned to.
pub ghost struct PinnedModel {
    pub schema: SchemaModel,
    pub data: Json,
}

impl View for CheckpointState {
    type V = PinnedModel;

    closed spec fn view(&self) -> PinnedModel {
        PinnedModel {
            schema: self.schema@,
            data: self.data@,
        }
    }
}

impl CheckpointState {
    /// Pins a state to its schema.
    pub fn new(schema: SchemaReference, data: BoundedJson) -> (r: CheckpointState)
        ensures
            r@ == (PinnedModel {
                schema: schema@,
                data: data@,
            }),
    {
        CheckpointState { schema, data }
    }

    /// Returns the schema.
    pub fn schema(&self) -> (r: &SchemaReference)
        ensures
            r@ == self@.schema,
    {
        &self.schema
    }

    /// Returns the value.
    pub fn data(&self) -> (r: &BoundedJson)
        ensures
            r@ == self@.data,
    {
        &self.data
    }
}

impl Clone for CheckpointState {
    fn clone(&self) -> (r: Self)
        ensures
            r@ == self@,
    {
        CheckpointState {
            schema: self.schema.clone(),
            data: self.data.clone(),
        }
    }
}

/// The values carry the same schema and equal JSON.
pub open spec fn pinned_equal(a: PinnedModel, b: PinnedModel) -> bool {
    a.schema == b.schema && json_equal(a.data, b.data)
}

impl PartialEq for CheckpointState {
    fn eq(&self, other: &Self) -> (r: bool) {
        self.schema == other.schema
            && self.data == other.data
    }
}

impl vstd::std_specs::cmp::PartialEqSpecImpl for CheckpointState {
    open spec fn obeys_eq_spec() -> bool {
        true
    }

    open spec fn eq_spec(&self, other: &Self) -> bool {
        pinned_equal(self@, other@)
    }
}

impl Eq for CheckpointState {

}

/// The identity of a checkpoint.
#[derive(Debug)]
pub struct CheckpointHead {
    checkpoint_id: CheckpointId,
    digest: Digest,
}

/// The values of [`CheckpointHead`].
pub ghost struct CheckpointHeadModel {
    pub checkpoint_id: CheckpointId,
    pub digest: Seq<u8>,
}

impl View for CheckpointHead {
    type V = CheckpointHeadModel;

    closed spec fn view(&self) -> CheckpointHeadModel {
        CheckpointHeadModel {
            checkpoint_id: self.checkpoint_id,
            digest: self.digest@,
        }
    }
}

impl CheckpointHead {
    /// Names a checkpoint.
    pub fn new(checkpoint_id: CheckpointId, digest: Digest) -> (r: CheckpointHead)
        ensures
            r@ == (CheckpointHeadModel {
                checkpoint_id: checkpoint_id,
                digest: digest@,
            }),
    {
        CheckpointHead { checkpoint_id, digest }
    }

    /// Returns the checkpoint.
    pub fn checkpoint_id(&self) -> (r: CheckpointId)
        ensures
            r == self@.checkpoint_id,
    {
        self.checkpoint_id
    }

    /// Returns the digest of the checkpoint.
    pub fn digest(&self) -> (r: Digest)
        ensures
            r@ == self@.digest,
    {
        self.digest
    }
}

impl Clone for CheckpointHead {
    fn clone(&self) -> (r: Self)
        ensures
            r@ == self@,
    {
        CheckpointHead {
            checkpoint_id: self.checkpoint_id,
            digest: self.digest,
        }
    }
}

impl PartialEq for CheckpointHead {
    fn eq(&self, other: &Self) -> (r: bool) {
        self.checkpoint_id == other.checkpoint_id
            && self.digest == other.digest
    }
}

impl vstd::std_specs::cmp::PartialEqSpecImpl for CheckpointHead {
    open spec fn obeys_eq_spec() -> bool {
        true
    }

    open spec fn eq_spec(&self, other: &Self) -> bool {
        self@ == other@
    }
}

impl Eq for CheckpointHead {

}

/// What a run stands at between two barriers.
#[derive(Debug)]
pub struct Checkpoint {
    head: CheckpointHead,
    graph: GraphReference,
    superstep: Superstep,
    ready_nodes: ReadyNodes,
    state: CheckpointState,
}

/// The values of [`Checkpoint`].
pub ghost struct CheckpointModel {
    pub head: CheckpointHeadModel,
    pub graph: GraphReferenceModel,
    pub superstep: Superstep,
    pub ready_nodes: Seq<Seq<char>>,
    pub state: PinnedModel,
}

impl View for Checkpoint {
    type V = CheckpointModel;

    closed spec fn view(&self) -> CheckpointModel {
        CheckpointModel {
            head: self.head@,
            graph: self.graph@,
            superstep: self.superstep,
            ready_nodes: self.ready_nodes@,
            state: self.state@,
        }
    }
}

impl Checkpoint {
    /// Names the parts of a checkpoint.
    pub fn new(
        head: CheckpointHead,
        graph: GraphReference,
        superstep: Superstep,
        ready_nodes: ReadyNodes,
        state: CheckpointState,
    ) -> (r: Checkpoint)
        ensures
            r@ == (CheckpointModel {
                head: head@,
                graph: graph@,
                superstep: superstep,
                ready_nodes: ready_nodes@,
                state: state@,
            }),
    {
        Checkpoint { head, graph, superstep, ready_nodes, state }
    }

    /// Returns the identity.
    pub fn head(&self) -> (r: &CheckpointHead)
        ensures
            r@ == self@.head,
    {
        &self.head
    }

    /// Returns the pinned graph.
    pub fn graph(&self) -> (r: &GraphReference)
        ensures
            r@ == self@.graph,
    {
        &self.graph
    }

    /// Returns the number of barriers so far.
    pub fn superstep(&self) -> (r: Superstep)
        ensures
            r == self@.superstep,
    {
        self.superstep
    }

    /// Returns the nodes that run next.
    pub fn ready_nodes(&self) -> (r: &ReadyNodes)
        ensures
            r@ == self@.ready_nodes,
    {
        &self.ready_nodes
    }

    /// Returns the state.
    pub fn state(&self) -> (r: &CheckpointState)
        ensures
            r@ == self@.state,
    {
        &self.state
    }
}

impl Clone for Checkpoint {
    fn clone(&self) -> (r: Self)
        ensures
            r@ == self@,
    {
        Checkpoint {
            head: self.head.clone(),
            graph: self.graph.clone(),
            superstep: self.superstep,
            ready_nodes: self.ready_nodes.clone(),
            state: self.state.clone(),
        }
    }
}

/// The checkpoints have equal states and agree in all else.
pub open spec fn checkpoint_equal(a: CheckpointModel, b: CheckpointModel) -> bool {
    pinned_equal(a.state, b.state) && a == (CheckpointModel { state: a.state, ..b })
}

impl PartialEq for Checkpoint {
    fn eq(&self, other: &Self) -> (r: bool) {
        self.head == other.head
            && self.graph == other.graph
            && self.superstep == other.superstep
            && self.ready_nodes == other.ready_nodes
            && self.state == other.state
    }
}

impl vstd::std_specs::cmp::PartialEqSpecImpl for Checkpoint {
    open spec fn obeys_eq_spec() -> bool {
        true
    }

    open spec fn eq_spec(&self, other: &Self) -> bool {
        checkpoint_equal(self@, other@)
    }
}

impl Eq for Checkpoint {

}

// ---------------------------------------------------------------------------
// Activations
// ---------------------------------------------------------------------------

/// The nodes through which a nested graph is reached, none for the root.
#[derive(Debug)]
pub struct GraphNamespace {
    path: Vec<NodeId>,
}

impl View for GraphNamespace {
    type V = Seq<Seq<char>>;

    closed spec fn view(&self) -> Seq<Seq<char>> {
        views(self.path@)
    }
}

impl GraphNamespace {
    /// Names the root graph.
    pub fn root() -> (r: GraphNamespace)
        ensures
            r@ == Seq::<Seq<char>>::empty(),
    {
        let r = GraphNamespace { path: Vec::new() };
        assert(r@ =~= Seq::<Seq<char>>::empty());
        r
    }

    /// Names a nested graph.
    pub fn nested(path: Vec<NodeId>) -> (r: GraphNamespace)
        ensures
            r@ == views(path@),
    {
        GraphNamespace { path }
    }

    /// Tests for the root graph.
    pub fn is_root(&self) -> (r: bool)
        ensures
            r == (self@.len() == 0),
    {
        self.path.len() == 0
    }
}

impl Clone for GraphNamespace {
    fn clone(&self) -> (r: Self)
        ensures
            r@ == self@,
    {
        GraphNamespace { path: copy_nodes(self.path.as_slice()) }
    }
}

impl PartialEq for GraphNamespace {
    fn eq(&self, other: &Self) -> (r: bool) {
        if self.path.len() != other.path.len() {
            assert(self@.len() != other@.len());
            return false;
        }
        let mut i: usize = 0;
        while i < self.path.len()
            invariant
                i <= self.path@.len() == other.path@.len(),
                forall|j: int| 0 <= j < i ==> #[trigger] self@[j] == other@[j],
            decreases self.path@.len() - i,
        {
            if self.path[i] != other.path[i] {
                assert(self@[i as int] != other@[i as int]);
                return false;
            }
            i = i + 1;
        }
        assert(self@ =~= other@);
        true
    }
}

impl vstd::std_specs::cmp::PartialEqSpecImpl for GraphNamespace {
    open spec fn obeys_eq_spec() -> bool {
        true
    }

    open spec fn eq_spec(&self, other: &Self) -> bool {
        self@ == other@
    }
}

impl Eq for GraphNamespace {

}

/// One run of one node from a checkpoint.
#[derive(Debug)]
pub struct NodeActivation {
    base_checkpoint: CheckpointHead,
    graph_namespace: GraphNamespace,
    node_id: NodeId,
}

/// The values of [`NodeActivation`].
pub ghost struct ActivationModel {
    pub base_checkpoint: CheckpointHeadModel,
    pub graph_namespace: Seq<Seq<char>>,
    pub node_id: Seq<char>,
}

impl View for NodeActivation {
    type V = ActivationModel;

    closed spec fn view(&self) -> ActivationModel {
        ActivationModel {
            base_checkpoint: self.base_checkpoint@,
            graph_namespace: self.graph_namespace@,
            node_id: self.node_id@,
        }
    }
}

impl NodeActivation {
    /// Names an activation.
    pub fn new(
        base_checkpoint: CheckpointHead,
        graph_namespace: GraphNamespace,
        node_id: NodeId,
    ) -> (r: NodeActivation)
        ensures
            r@ == (ActivationModel {
                base_checkpoint: base_checkpoint@,
                graph_namespace: graph_namespace@,
                node_id: node_id@,
            }),
    {
        NodeActivation { base_checkpoint, graph_namespace, node_id }
    }

    /// Returns the checkpoint that the node ran from.
    pub fn base_checkpoint(&self) -> (r: &CheckpointHead)
        ensures
            r@ == self@.base_checkpoint,
    {
        &self.base_checkpoint
    }

    /// Returns the graph that the node belongs to.
    pub fn graph_namespace(&self) -> (r: &GraphNamespace)
        ensures
            r@ == self@.graph_namespace,
    {
        &self.graph_namespace
    }

    /// Returns the node.
    pub fn node_id(&self) -> (r: &NodeId)
        ensures
            r@ == self@.node_id,
    {
        &self.node_id
    }
}

impl Clone for NodeActivation {
    fn clone(&self) -> (r: Self)
        ensures
            r@ == self@,
    {
        NodeActivation {
            base_checkpoint: self.base_checkpoint.clone(),
            graph_namespace: self.graph_namespace.clone(),
            node_id: self.node_id.clone(),
        }
    }
}

impl PartialEq for NodeActivation {
    fn eq(&self, other: &Self) -> (r: bool) {
        self.base_checkpoint == other.base_checkpoint
            && self.graph_namespace == other.graph_namespace
            && self.node_id == other.node_id
    }
}

impl vstd::std_specs::cmp::PartialEqSpecImpl for NodeActivation {
    open spec fn obeys_eq_spec() -> bool {
        true
    }

    open spec fn eq_spec(&self, other: &Self) -> bool {
        self@ == other@
    }
}

impl Eq for NodeActivation {

}

impl NodeActivation {
    /// Derives the activation of a node that is ready at the checkpoint.
    pub fn for_ready_root(base: &Checkpoint, node_id: &NodeId) -> (r: Option<NodeActivation>)
        ensures
            r is Some <==> base@.ready_nodes.contains(node_id@),
            r matches Some(activation) ==> activation@ == (ActivationModel {
                base_checkpoint: base@.head,
                graph_namespace: Seq::empty(),
                node_id: node_id@,
            }),
    {
        if !base.ready_nodes().contains(node_id) {
            return None;
        }
        Some(NodeActivation::new(base.head().clone(), GraphNamespace::root(), node_id.clone()))
    }
}

// ---------------------------------------------------------------------------
// Results
// ---------------------------------------------------------------------------

/// What a node changes of the state, under its schema.
#[derive(Debug)]
pub struct NodeStateUpdate {
    schema: SchemaReference,
    data: BoundedJson,
}

impl View for NodeStateUpdate {
    type V = PinnedModel;

    closed spec fn view(&self) -> PinnedModel {
        PinnedModel {
            schema: self.schema@,
            data: self.data@,
        }
    }
}

impl NodeStateUpdate {
    /// Pins an update to its schema.
    pub fn new(schema: SchemaReference, data: BoundedJson) -> (r: NodeStateUpdate)
        ensures
            r@ == (PinnedModel {
                schema: schema@,
                data: data@,
            }),
    {
        NodeStateUpdate { schema, data }
    }

    /// Returns the schema.
    pub fn schema(&self) -> (r: &SchemaReference)
        ensures
            r@ == self@.schema,
    {
        &self.schema
    }

    /// Returns the value.
    pub fn data(&self) -> (r: &BoundedJson)
        ensures
            r@ == self@.data,
    {
        &self.data
    }
}

impl Clone for NodeStateUpdate {
    fn clone(&self) -> (r: Self)
        ensures
            r@ == self@,
    {
        NodeStateUpdate {
            schema: self.schema.clone(),
            data: self.data.clone(),
        }
    }
}

impl PartialEq for NodeStateUpdate {
    fn eq(&self, other: &Self) -> (r: bool) {
        self.schema == other.schema
            && self.data == other.data
    }
}

impl vstd::std_specs::cmp::PartialEqSpecImpl for NodeStateUpdate {
    open spec fn obeys_eq_spec() -> bool {
        true
    }

    open spec fn eq_spec(&self, other: &Self) -> bool {
        pinned_equal(self@, other@)
    }
}

impl Eq for NodeStateUpdate {

}

/// What a run ends with, under its schema.
#[derive(Debug)]
pub struct NodeTerminalOutput {
    schema: SchemaReference,
    data: BoundedJson,
}

impl View for NodeTerminalOutput {
    type V = PinnedModel;

    closed spec fn view(&self) -> PinnedModel {
        PinnedModel {
            schema: self.schema@,
            data: self.data@,
        }
    }
}

impl NodeTerminalOutput {
    /// Pins an output to its schema.
    pub fn new(schema: SchemaReference, data: BoundedJson) -> (r: NodeTerminalOutput)
        ensures
            r@ == (PinnedModel {
                schema: schema@,
                data: data@,
            }),
    {
        NodeTerminalOutput { schema, data }
    }

    /// Returns the schema.
    pub fn schema(&self) -> (r: &SchemaReference)
        ensures
            r@ == self@.schema,
    {
        &self.schema
    }

    /// Returns the value.
    pub fn data(&self) -> (r: &BoundedJson)
        ensures
            r@ == self@.data,
    {
        &self.data
    }
}

impl Clone for NodeTerminalOutput {
    fn clone(&self) -> (r: Self)
        ensures
            r@ == self@,
    {
        NodeTerminalOutput {
            schema: self.schema.clone(),
            data: self.data.clone(),
        }
    }
}

impl PartialEq for NodeTerminalOutput {
    fn eq(&self, other: &Self) -> (r: bool) {
        self.schema == other.schema
            && self.data == other.data
    }
}

impl vstd::std_specs::cmp::PartialEqSpecImpl for NodeTerminalOutput {
    open spec fn obeys_eq_spec() -> bool {
        true
    }

    open spec fn eq_spec(&self, other: &Self) -> bool {
        pinned_equal(self@, other@)
    }
}

impl Eq for NodeTerminalOutput {

}

/// What a node changes of the state.
#[derive(Debug)]
pub enum NodeStateChange {
    /// The state stays as it is.
    Unchanged,
    /// The state changes by this update.
    Update {
        /// The update.
        update: NodeStateUpdate,
    },
}

impl View for NodeStateChange {
    type V = Option<PinnedModel>;

    /// The update, where there is one.
    open spec fn view(&self) -> Option<PinnedModel> {
        match self {
            NodeStateChange::Unchanged => None,
            NodeStateChange::Update { update } => Some(update@),
        }
    }
}

impl NodeStateChange {
    /// Returns the update.
    pub fn update(&self) -> (r: Option<&NodeStateUpdate>)
        ensures
            crate::options::option_ref_view(r) == self@,
    {
        match self {
            NodeStateChange::Unchanged => None,
            NodeStateChange::Update { update } => Some(update),
        }
    }
}

impl Clone for NodeStateChange {
    fn clone(&self) -> (r: Self)
        ensures
            r@ == self@,
    {
        match self {
            NodeStateChange::Unchanged => NodeStateChange::Unchanged,
            NodeStateChange::Update { update } => NodeStateChange::Update {
                update: update.clone(),
            },
        }
    }
}

/// There are equal updates, or there is none.
pub open spec fn change_equal(a: Option<PinnedModel>, b: Option<PinnedModel>) -> bool {
    match (a, b) {
        (Some(x), Some(y)) => pinned_equal(x, y),
        (None, None) => true,
        _ => false,
    }
}

impl PartialEq for NodeStateChange {
    fn eq(&self, other: &Self) -> (r: bool) {
        match (self, other) {
            (NodeStateChange::Unchanged, NodeStateChange::Unchanged) => true,
            (
                NodeStateChange::Update { update: a },
                NodeStateChange::Update { update: b },
            ) => *a == *b,
            _ => false,
        }
    }
}

impl vstd::std_specs::cmp::PartialEqSpecImpl for NodeStateChange {
    open spec fn obeys_eq_spec() -> bool {
        true
    }

    open spec fn eq_spec(&self, other: &Self) -> bool {
        change_equal(self@, other@)
    }
}

impl Eq for NodeStateChange {

}

/// A condition that a run waits for, in its JSON form.
#[derive(Debug)]
pub struct NodeWait {
    condition: BoundedJson,
}

impl View for NodeWait {
    type V = Json;

    closed spec fn view(&self) -> Json {
        self.condition@
    }
}

impl NodeWait {
    /// Names a condition.
    pub fn new(condition: BoundedJson) -> (r: NodeWait)
        ensures
            r@ == condition@,
    {
        NodeWait { condition }
    }

    /// Returns the condition.
    pub fn condition(&self) -> (r: &BoundedJson)
        ensures
            r@ == self@,
    {
        &self.condition
    }
}

impl Clone for NodeWait {
    fn clone(&self) -> (r: Self)
        ensures
            r@ == self@,
    {
        NodeWait { condition: self.condition.clone() }
    }
}

impl PartialEq for NodeWait {
    fn eq(&self, other: &Self) -> (r: bool) {
        self.condition == other.condition
    }
}

impl vstd::std_specs::cmp::PartialEqSpecImpl for NodeWait {
    open spec fn obeys_eq_spec() -> bool {
        true
    }

    open spec fn eq_spec(&self, other: &Self) -> bool {
        json_equal(self@, other@)
    }
}

impl Eq for NodeWait {

}

/// Rejected batch of conditions.
#[derive(Clone, Copy, Debug, PartialEq, Eq, Structural)]
pub enum NodeWaitsError {
    /// There is no condition.
    Empty,
}

/// The conditions that a run waits for together.
#[derive(Debug)]
pub struct NodeWaits {
    waits: Vec<NodeWait>,
}

impl View for NodeWaits {
    type V = Seq<Json>;

    closed spec fn view(&self) -> Seq<Json> {
        views(self.waits@)
    }
}

impl NodeWaits {
    /// There is a condition.
    #[verifier::type_invariant]
    pub open spec fn well_formed(&self) -> bool {
        self@.len() > 0
    }

    /// Collects conditions.
    pub fn try_new(waits: Vec<NodeWait>) -> (r: Result<NodeWaits, NodeWaitsError>)
        ensures
            match r {
                Ok(batch) => waits@.len() > 0 && batch@ == views(waits@),
                Err(e) => waits@.len() == 0 && e == NodeWaitsError::Empty,
            },
    {
        if waits.len() == 0 {
            return Err(NodeWaitsError::Empty);
        }
        Ok(NodeWaits { waits })
    }

    /// Returns the number of conditions.
    pub fn len(&self) -> (r: usize)
        ensures
            r == self@.len(),
            r > 0,
    {
        proof {
            use_type_invariant(self);
        }
        self.waits.len()
    }

    /// Returns the conditions.
    pub fn as_slice(&self) -> (r: &[NodeWait])
        ensures
            views(r@) == self@,
            self@.len() > 0,
    {
        proof {
            use_type_invariant(self);
        }
        self.waits.as_slice()
    }
}

impl Clone for NodeWaits {
    fn clone(&self) -> (r: Self)
        ensures
            r@ == self@,
    {
        proof {
            use_type_invariant(self);
        }
        let mut waits: Vec<NodeWait> = Vec::new();
        let mut i: usize = 0;
        while i < self.waits.len()
            invariant
                i <= self.waits@.len(),
                waits@.len() == i,
                forall|j: int| 0 <= j < i ==> (#[trigger] waits@[j])@ == self.waits@[j]@,
            decreases self.waits@.len() - i,
        {
            waits.push(self.waits[i].clone());
            i = i + 1;
        }
        assert(views(waits@) =~= views(self.waits@));
        NodeWaits { waits }
    }
}

/// The conditions are equal one by one.
pub open spec fn waits_equal(a: Seq<Json>, b: Seq<Json>) -> bool {
    a.len() == b.len() && forall|i: int| 0 <= i < a.len() ==> json_equal(#[trigger] a[i], b[i])
}

impl PartialEq for NodeWaits {
    fn eq(&self, other: &Self) -> (r: bool) {
        if self.waits.len() != other.waits.len() {
            assert(self@.len() != other@.len());
            return false;
        }
        let mut i: usize = 0;
        while i < self.waits.len()
            invariant
                i <= self.waits@.len() == other.waits@.len(),
                forall|j: int| 0 <= j < i ==> json_equal(#[trigger] self@[j], other@[j]),
            decreases self.waits@.len() - i,
        {
            if self.waits[i] != other.waits[i] {
                assert(!json_equal(self@[i as int], other@[i as int]));
                return false;
            }
            i = i + 1;
        }
        true
    }
}

impl vstd::std_specs::cmp::PartialEqSpecImpl for NodeWaits {
    open spec fn obeys_eq_spec() -> bool {
        true
    }

    open spec fn eq_spec(&self, other: &Self) -> bool {
        waits_equal(self@, other@)
    }
}

impl Eq for NodeWaits {

}

/// Where a node leads.
#[derive(Debug)]
#[allow(inconsistent_fields)]
pub enum NodeControl {
    /// To the nodes that follow it.
    Continue,
    /// Along one of its routes.
    Route {
        /// The route.
        route_id: RouteId,
    },
    /// To the nodes that follow a wait.
    Wait {
        /// The conditions.
        waits: NodeWaits,
    },
    /// To the end of the run.
    Terminal {
        /// The output.
        output: NodeTerminalOutput,
    },
}

/// The values of [`NodeControl`].
pub ghost enum ControlModel {
    Continue,
    Route { route_id: Seq<char> },
    Wait { waits: Seq<Json> },
    Terminal { output: PinnedModel },
}

/// The kinds of [`NodeControl`].
#[derive(Clone, Copy, Debug, PartialEq, Eq, Structural)]
pub enum NodeControlKind {
    /// See [`NodeControl::Continue`].
    Continue,
    /// See [`NodeControl::Route`].
    Route,
    /// See [`NodeControl::Wait`].
    Wait,
    /// See [`NodeControl::Terminal`].
    Terminal,
}

impl View for NodeControl {
    type V = ControlModel;

    open spec fn view(&self) -> ControlModel {
        match self {
            NodeControl::Continue => ControlModel::Continue,
            NodeControl::Route { route_id } => ControlModel::Route { route_id: route_id@ },
            NodeControl::Wait { waits } => ControlModel::Wait { waits: waits@ },
            NodeControl::Terminal { output } => ControlModel::Terminal { output: output@ },
        }
    }
}

impl Clone for NodeControl {
    fn clone(&self) -> (r: Self)
        ensures
            r@ == self@,
    {
        match self {
            NodeControl::Continue => NodeControl::Continue,
            NodeControl::Route { route_id } => NodeControl::Route { route_id: route_id.clone() },
            NodeControl::Wait { waits } => NodeControl::Wait { waits: waits.clone() },
            NodeControl::Terminal { output } => NodeControl::Terminal { output: output.clone() },
        }
    }
}

/// The controls are of one kind, with equal conditions or outputs.
pub open spec fn control_equal(a: ControlModel, b: ControlModel) -> bool {
    match (a, b) {
        (ControlModel::Wait { waits: x }, ControlModel::Wait { waits: y }) => waits_equal(x, y),
        (
            ControlModel::Terminal { output: x },
            ControlModel::Terminal { output: y },
        ) => pinned_equal(x, y),
        _ => a == b,
    }
}

impl PartialEq for NodeControl {
    fn eq(&self, other: &Self) -> (r: bool) {
        match (self, other) {
            (NodeControl::Continue, NodeControl::Continue) => true,
            (NodeControl::Route { route_id: a }, NodeControl::Route { route_id: b }) => *a == *b,
            (NodeControl::Wait { waits: a }, NodeControl::Wait { waits: b }) => *a == *b,
            (NodeControl::Terminal { output: a }, NodeControl::Terminal { output: b }) => *a == *b,
            _ => false,
        }
    }
}

impl vstd::std_specs::cmp::PartialEqSpecImpl for NodeControl {
    open spec fn obeys_eq_spec() -> bool {
        true
    }

    open spec fn eq_spec(&self, other: &Self) -> bool {
        control_equal(self@, other@)
    }
}

impl Eq for NodeControl {

}

/// The identity of a node result.
#[derive(Debug)]
pub struct NodeResultHead {
    activation: NodeActivation,
    digest: Digest,
}

/// The values of [`NodeResultHead`].
pub ghost struct ResultHeadModel {
    pub activation: ActivationModel,
    pub digest: Seq<u8>,
}

impl View for NodeResultHead {
    type V = ResultHeadModel;

    closed spec fn view(&self) -> ResultHeadModel {
        ResultHeadModel {
            activation: self.activation@,
            digest: self.digest@,
        }
    }
}

impl NodeResultHead {
    /// Names a node result.
    pub fn new(activation: NodeActivation, digest: Digest) -> (r: NodeResultHead)
        ensures
            r@ == (ResultHeadModel {
                activation: activation@,
                digest: digest@,
            }),
    {
        NodeResultHead { activation, digest }
    }

    /// Returns the activation.
    pub fn activation(&self) -> (r: &NodeActivation)
        ensures
            r@ == self@.activation,
    {
        &self.activation
    }

    /// Returns the digest of the result.
    pub fn digest(&self) -> (r: Digest)
        ensures
            r@ == self@.digest,
    {
        self.digest
    }
}

impl Clone for NodeResultHead {
    fn clone(&self) -> (r: Self)
        ensures
            r@ == self@,
    {
        NodeResultHead {
            activation: self.activation.clone(),
            digest: self.digest,
        }
    }
}

impl PartialEq for NodeResultHead {
    fn eq(&self, other: &Self) -> (r: bool) {
        self.activation == other.activation
            && self.digest == other.digest
    }
}

impl vstd::std_specs::cmp::PartialEqSpecImpl for NodeResultHead {
    open spec fn obeys_eq_spec() -> bool {
        true
    }

    open spec fn eq_spec(&self, other: &Self) -> bool {
        self@ == other@
    }
}

impl Eq for NodeResultHead {

}

/// What a node came to, before its barrier.
#[derive(Debug)]
pub struct PendingNodeResult {
    activation: NodeActivation,
    state_change: NodeStateChange,
    control: NodeControl,
    digest: Digest,
}

/// The values of [`PendingNodeResult`].
pub ghost struct ResultModel {
    pub activation: ActivationModel,
    pub state_change: Option<PinnedModel>,
    pub control: ControlModel,
    pub digest: Seq<u8>,
}

impl View for PendingNodeResult {
    type V = ResultModel;

    closed spec fn view(&self) -> ResultModel {
        ResultModel {
            activation: self.activation@,
            state_change: self.state_change@,
            control: self.control@,
            digest: self.digest@,
        }
    }
}

impl PendingNodeResult {
    /// Names the parts of a node result.
    pub fn new(
        activation: NodeActivation,
        state_change: NodeStateChange,
        control: NodeControl,
        digest: Digest,
    ) -> (r: PendingNodeResult)
        ensures
            r@ == (ResultModel {
                activation: activation@,
                state_change: state_change@,
                control: control@,
                digest: digest@,
            }),
    {
        PendingNodeResult { activation, state_change, control, digest }
    }

    /// Returns the activation.
    pub fn activation(&self) -> (r: &NodeActivation)
        ensures
            r@ == self@.activation,
    {
        &self.activation
    }

    /// Returns the change of the state.
    pub fn state_change(&self) -> (r: &NodeStateChange)
        ensures
            r@ == self@.state_change,
    {
        &self.state_change
    }

    /// Returns where the node leads.
    pub fn control(&self) -> (r: &NodeControl)
        ensures
            r@ == self@.control,
    {
        &self.control
    }

    /// Returns the digest of the result.
    pub fn digest(&self) -> (r: Digest)
        ensures
            r@ == self@.digest,
    {
        self.digest
    }
}

impl Clone for PendingNodeResult {
    fn clone(&self) -> (r: Self)
        ensures
            r@ == self@,
    {
        PendingNodeResult {
            activation: self.activation.clone(),
            state_change: self.state_change.clone(),
            control: self.control.clone(),
            digest: self.digest,
        }
    }
}

/// The results have equal updates and controls and agree in all else.
pub open spec fn result_equal(a: ResultModel, b: ResultModel) -> bool {
    &&& a.activation == b.activation
    &&& change_equal(a.state_change, b.state_change)
    &&& control_equal(a.control, b.control)
    &&& a.digest == b.digest
}

impl PartialEq for PendingNodeResult {
    fn eq(&self, other: &Self) -> (r: bool) {
        self.activation == other.activation
            && self.state_change == other.state_change
            && self.control == other.control
            && self.digest == other.digest
    }
}

impl vstd::std_specs::cmp::PartialEqSpecImpl for PendingNodeResult {
    open spec fn obeys_eq_spec() -> bool {
        true
    }

    open spec fn eq_spec(&self, other: &Self) -> bool {
        result_equal(self@, other@)
    }
}

impl Eq for PendingNodeResult {

}

/// The identity of a node result.
pub open spec fn result_head(result: ResultModel) -> ResultHeadModel {
    ResultHeadModel { activation: result.activation, digest: result.digest }
}

impl PendingNodeResult {
    /// Returns the identity.
    pub fn head(&self) -> (r: NodeResultHead)
        ensures
            r@ == result_head(self@),
    {
        NodeResultHead::new(self.activation.clone(), self.digest)
    }
}

impl Keyed for PendingNodeResult {
    open spec fn key_of(model: ResultModel) -> Seq<char> {
        model.activation.node_id
    }

    open spec fn sound(model: ResultModel) -> bool {
        node_name_sound(model.activation.node_id)
    }

    fn key_text(&self) -> (r: &str) {
        self.activation.node_id().as_str()
    }
}

// ---------------------------------------------------------------------------
// Barriers
// ---------------------------------------------------------------------------

/// A checkpoint that is to be written.
#[derive(Debug)]
pub struct CheckpointWrite {
    checkpoint_id: CheckpointId,
    superstep: Superstep,
    state: CheckpointState,
    ready_nodes: ReadyNodes,
}

/// The values of [`CheckpointWrite`].
pub ghost struct WriteModel {
    pub checkpoint_id: CheckpointId,
    pub superstep: Superstep,
    pub state: PinnedModel,
    pub ready_nodes: Seq<Seq<char>>,
}

impl View for CheckpointWrite {
    type V = WriteModel;

    closed spec fn view(&self) -> WriteModel {
        WriteModel {
            checkpoint_id: self.checkpoint_id,
            superstep: self.superstep,
            state: self.state@,
            ready_nodes: self.ready_nodes@,
        }
    }
}

impl CheckpointWrite {
    /// Names the parts of a checkpoint that is to be written.
    pub fn new(
        checkpoint_id: CheckpointId,
        superstep: Superstep,
        state: CheckpointState,
        ready_nodes: ReadyNodes,
    ) -> (r: CheckpointWrite)
        ensures
            r@ == (WriteModel {
                checkpoint_id: checkpoint_id,
                superstep: superstep,
                state: state@,
                ready_nodes: ready_nodes@,
            }),
    {
        CheckpointWrite { checkpoint_id, superstep, state, ready_nodes }
    }

    /// Returns the checkpoint.
    pub fn checkpoint_id(&self) -> (r: CheckpointId)
        ensures
            r == self@.checkpoint_id,
    {
        self.checkpoint_id
    }

    /// Returns the number of barriers up to it.
    pub fn superstep(&self) -> (r: Superstep)
        ensures
            r == self@.superstep,
    {
        self.superstep
    }

    /// Returns the state.
    pub fn state(&self) -> (r: &CheckpointState)
        ensures
            r@ == self@.state,
    {
        &self.state
    }

    /// Returns the nodes that run next.
    pub fn ready_nodes(&self) -> (r: &ReadyNodes)
        ensures
            r@ == self@.ready_nodes,
    {
        &self.ready_nodes
    }
}

impl Clone for CheckpointWrite {
    fn clone(&self) -> (r: Self)
        ensures
            r@ == self@,
    {
        CheckpointWrite {
            checkpoint_id: self.checkpoint_id,
            superstep: self.superstep,
            state: self.state.clone(),
            ready_nodes: self.ready_nodes.clone(),
        }
    }
}

/// The writes have equal states and agree in all else.
pub open spec fn write_equal(a: WriteModel, b: WriteModel) -> bool {
    pinned_equal(a.state, b.state) && a == (WriteModel { state: a.state, ..b })
}

impl PartialEq for CheckpointWrite {
    fn eq(&self, other: &Self) -> (r: bool) {
        self.checkpoint_id == other.checkpoint_id
            && self.superstep == other.superstep
            && self.state == other.state
            && self.ready_nodes == other.ready_nodes
    }
}

impl vstd::std_specs::cmp::PartialEqSpecImpl for CheckpointWrite {
    open spec fn obeys_eq_spec() -> bool {
        true
    }

    open spec fn eq_spec(&self, other: &Self) -> bool {
        write_equal(self@, other@)
    }
}

impl Eq for CheckpointWrite {

}

/// The step from a checkpoint to the next one.
#[derive(Debug)]
pub struct CheckpointBarrier {
    base: CheckpointHead,
    successor: CheckpointWrite,
    results: Vec<NodeResultHead>,
}

/// The values of [`CheckpointBarrier`].
pub ghost struct BarrierModel {
    pub base: CheckpointHeadModel,
    pub successor: WriteModel,
    pub results: Seq<ResultHeadModel>,
}

impl View for CheckpointBarrier {
    type V = BarrierModel;

    closed spec fn view(&self) -> BarrierModel {
        BarrierModel {
            base: self.base@,
            successor: self.successor@,
            results: views(self.results@),
        }
    }
}

impl CheckpointBarrier {
    /// Names the parts of a barrier.
    pub fn new(base: CheckpointHead, successor: CheckpointWrite, results: Vec<NodeResultHead>) -> (r:
        CheckpointBarrier)
        ensures
            r@ == (BarrierModel {
                base: base@,
                successor: successor@,
                results: views(results@),
            }),
    {
        CheckpointBarrier { base, successor, results }
    }

    /// Returns the checkpoint that the barrier starts from.
    pub fn base(&self) -> (r: &CheckpointHead)
        ensures
            r@ == self@.base,
    {
        &self.base
    }

    /// Returns the checkpoint that is to be written.
    pub fn successor(&self) -> (r: &CheckpointWrite)
        ensures
            r@ == self@.successor,
    {
        &self.successor
    }

    /// Returns the results that the barrier takes up, in the order of their nodes.
    pub fn result_heads(&self) -> (r: &[NodeResultHead])
        ensures
            views(r@) == self@.results,
    {
        self.results.as_slice()
    }
}

/// The barriers have equal successors and agree in all else.
pub open spec fn barrier_equal(a: BarrierModel, b: BarrierModel) -> bool {
    &&& a.base == b.base
    &&& write_equal(a.successor, b.successor)
    &&& a.results == b.results
}

impl PartialEq for CheckpointBarrier {
    fn eq(&self, other: &Self) -> (r: bool) {
        if self.base != other.base || self.successor != other.successor {
            return false;
        }
        if self.results.len() != other.results.len() {
            assert(self@.results.len() != other@.results.len());
            return false;
        }
        let mut i: usize = 0;
        while i < self.results.len()
            invariant
                i <= self.results@.len() == other.results@.len(),
                forall|j: int|
                    0 <= j < i ==> #[trigger] self@.results[j] == other@.results[j],
            decreases self.results@.len() - i,
        {
            if self.results[i] != other.results[i] {
                assert(self@.results[i as int] != other@.results[i as int]);
                return false;
            }
            i = i + 1;
        }
        assert(self@.results =~= other@.results);
        true
    }
}

impl vstd::std_specs::cmp::PartialEqSpecImpl for CheckpointBarrier {
    open spec fn obeys_eq_spec() -> bool {
        true
    }

    open spec fn eq_spec(&self, other: &Self) -> bool {
        barrier_equal(self@, other@)
    }
}

impl Eq for CheckpointBarrier {

}

} // verus!
