//! Why a delegation is rejected.

use vstd::prelude::*;

verus! {

/// Rejected delegation.
#[derive(Clone, Copy, Debug, PartialEq, Eq, Structural)]
pub enum ChildRunPolicyError {
    /// The definition of the child agent has no canonical form.
    AgentEncoding,
    /// A topology limit is zero or above its maximum.
    InvalidLimits,
    /// The policy declares no slot.
    EmptyDeclarations,
    /// The policy declares too many slots.
    TooManyDeclarations,
    /// One node declares too many slots.
    TooManyNodeSlots,
    /// One node declares a slot twice.
    DuplicateSlot,
    /// The version of the policy is not supported.
    UnsupportedVersion,
    /// A declaration names a node that does not exist.
    UndeclaredParentNode,
    /// The parent is another graph.
    ParentGraphMismatch,
    /// The parent does not declare the slot.
    DelegationNotDeclared,
    /// The child is another graph.
    TargetGraphMismatch,
    /// The child has another input or output schema.
    TargetSchemaMismatch,
    /// The child has another agent.
    TargetAgentMismatch,
    /// The child may delegate as deep as the parent.
    DepthNotNarrowed,
}

} // verus!
