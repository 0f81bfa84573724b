//! What holds of every delegation: whom a parent may start, and whom not.

use vstd::prelude::*;
use vstd::utf8::encode_utf8;

use crate::canonical::domain_digest;
use crate::child_run_error::ChildRunPolicyError;
use crate::child_run_laws::{declaration_found_exactly, declarations_accepted_exactly};
use crate::child_run_policy::{
    admission_check, agent_pin, collected_declarations, declaration, policy_fits, slot_key,
    slots_of, target_check, topology_sound, AdmissionModel, AgentPinModel, ChildRunDeclaration,
    DeclarationModel, DescriptorModel, PolicyModel, TopologyModel,
};
use crate::graph::GraphModel;
use crate::names::plain_name_check;
use crate::ordered::{arranged_is_sorted, ascending, find, find_is_exact, keys};

verus! {

/// An agent is pinned by its identity and by the digest of its whole
/// definition, under a domain of its own.
pub proof fn agents_are_pinned_whole(agent: DescriptorModel)
    ensures
        agent_pin(agent) matches Ok(pin) ==> pin.identity == agent.identity && Some(
            pin.definition_digest,
        ) == domain_digest(
            encode_utf8("stateknot.child-agent-definition.v1"@).push(0u8),
            agent.definition,
        ),
        agent_pin(agent) is Err <==> domain_digest(
            encode_utf8("stateknot.child-agent-definition.v1"@).push(0u8),
            agent.definition,
        ) is None,
        agent_pin(agent) matches Err(e) ==> e == ChildRunPolicyError::AgentEncoding,
{
}

/// A child run is declared exactly if the agent and the graph take the same and
/// give the same, and the agent can be pinned. The declaration is of that node,
/// slot, agent and graph, and of the schemas of both.
pub proof fn declared_exactly_for_matching_schemas(
    node_id: Seq<char>,
    slot: Seq<char>,
    agent: DescriptorModel,
    graph: GraphModel,
)
    ensures
        declaration(node_id, slot, agent, graph) is Ok <==> {
            &&& agent.input_schema == graph.input_schema
            &&& agent.output_schema == graph.output_schema
            &&& agent_pin(agent) is Ok
        },
        declaration(node_id, slot, agent, graph) matches Ok(declared) ==> {
            &&& declared.node_id == node_id
            &&& declared.slot == slot
            &&& Ok::<AgentPinModel, ChildRunPolicyError>(declared.agent) == agent_pin(agent)
            &&& declared.graph.identity == graph.identity
            &&& declared.graph.definition_digest == graph.definition_digest
            &&& declared.graph.state_schema == graph.state_schema
            &&& declared.input_schema == graph.input_schema
            &&& declared.input_schema == agent.input_schema
            &&& declared.output_schema == graph.output_schema
            &&& declared.output_schema == agent.output_schema
        },
        agent.input_schema != graph.input_schema || agent.output_schema != graph.output_schema
            <==> declaration(node_id, slot, agent, graph) == Err::<
            DeclarationModel,
            ChildRunPolicyError,
        >(ChildRunPolicyError::TargetSchemaMismatch),
{
}

/// A declaration never refuses the graph that it was made for, but for a depth
/// that is not below that of the parent.
pub proof fn declarations_accept_their_graph(
    node_id: Seq<char>,
    slot: Seq<char>,
    agent: DescriptorModel,
    graph: GraphModel,
    limits: TopologyModel,
)
    requires
        declaration(node_id, slot, agent, graph) is Ok,
    ensures
        ({
            let r = target_check(
                declaration(node_id, slot, agent, graph)->Ok_0,
                graph,
                limits,
            );
            let depth = match graph.child_runs {
                Some(policy) => policy.limits.depth as int,
                None => 0,
            };
            &&& r is Ok <==> depth < limits.depth
            &&& r matches Err(e) ==> e == ChildRunPolicyError::DepthNotNarrowed
        }),
{
}

/// A graph is accepted as a target exactly if it is the declared one, takes and
/// gives what was declared, and may delegate strictly less deep than the
/// parent. A graph without a policy delegates nothing.
pub proof fn targets_accepted_exactly(
    declared: DeclarationModel,
    target: GraphModel,
    limits: TopologyModel,
)
    ensures
        target_check(declared, target, limits) is Ok <==> {
            &&& target.identity == declared.graph.identity
            &&& target.definition_digest == declared.graph.definition_digest
            &&& target.state_schema == declared.graph.state_schema
            &&& target.input_schema == declared.input_schema
            &&& target.output_schema == declared.output_schema
            &&& target.child_runs is None ==> 0 < limits.depth
            &&& target.child_runs matches Some(policy) ==> policy.limits.depth < limits.depth
        },
        target_check(declared, target, limits) == Err::<(), ChildRunPolicyError>(
            ChildRunPolicyError::TargetGraphMismatch,
        ) <==> !(target.identity == declared.graph.identity && target.definition_digest
            == declared.graph.definition_digest && target.state_schema
            == declared.graph.state_schema),
        target_check(declared, target, limits) == Err::<(), ChildRunPolicyError>(
            ChildRunPolicyError::TargetSchemaMismatch,
        ) ==> target.input_schema != declared.input_schema || target.output_schema
            != declared.output_schema,
        target_check(declared, target, limits) == Err::<(), ChildRunPolicyError>(
            ChildRunPolicyError::DepthNotNarrowed,
        ) ==> (match target.child_runs {
            Some(policy) => limits.depth <= policy.limits.depth,
            None => limits.depth == 0,
        }),
{
}

/// The declaration admits the child that the request names.
pub open spec fn admits_child(
    declared: DeclarationModel,
    limits: TopologyModel,
    intent: AdmissionModel,
) -> bool {
    &&& declared.node_id == intent.node_id
    &&& declared.slot == intent.slot
    &&& declared.graph.identity == intent.child_graph.identity
    &&& declared.graph.definition_digest == intent.child_graph.definition_digest
    &&& declared.graph.state_schema == intent.child_graph.state_schema
    &&& declared.input_schema == intent.child_graph.input_schema
    &&& declared.output_schema == intent.child_graph.output_schema
    &&& declared.agent.identity == intent.child.identity
    &&& Some(declared.agent.definition_digest) == domain_digest(
        encode_utf8("stateknot.child-agent-definition.v1"@).push(0u8),
        intent.child.definition,
    )
    &&& match intent.child_graph.child_runs {
        Some(inner) => inner.limits.depth < limits.depth,
        None => 0 < limits.depth,
    }
}

/// A child run is admitted exactly as declared: the parent is the graph that the
/// request names, and it declares that slot of that node, for that very graph
/// and that very agent, with a child that delegates less deep.
pub proof fn admitted_exactly_as_declared(intent: AdmissionModel, parent: GraphModel)
    requires
        parent.child_runs matches Some(policy) ==> keys::<ChildRunDeclaration>(
            policy.declarations,
        ).no_duplicates() && forall|i: int|
            0 <= i < policy.declarations.len() ==> plain_name_check(
                encode_utf8((#[trigger] policy.declarations[i]).node_id),
            ) is Ok,
        plain_name_check(encode_utf8(intent.node_id)) is Ok,
    ensures
        admission_check(intent, parent) is Ok <==> {
            &&& intent.parent_graph.identity == parent.identity
            &&& intent.parent_graph.definition_digest == parent.definition_digest
            &&& intent.parent_graph.state_schema == parent.state_schema
            &&& parent.child_runs matches Some(policy)
            &&& exists|i: int|
                0 <= i < policy.declarations.len() && admits_child(
                    #[trigger] policy.declarations[i],
                    policy.limits,
                    intent,
                )
        },
        parent.child_runs is None ==> admission_check(intent, parent) is Err,
{
    if let Some(policy) = parent.child_runs {
        let all = policy.declarations;
        let key = slot_key(intent.node_id, intent.slot);
        declaration_found_exactly(all, intent.node_id, intent.slot);
        find_is_exact::<ChildRunDeclaration>(all, key);
        if let Some(found) = find::<ChildRunDeclaration>(all, key) {
            let k = all.index_of(found);
            assert(all[k] == found);
            assert forall|i: int|
                0 <= i < all.len() && (#[trigger] all[i]).node_id == intent.node_id && all[i].slot
                    == intent.slot implies all[i] == found by {
                let names = keys::<ChildRunDeclaration>(all);
                assert(names[i] == key && names[k] == key);
            }
            if admission_check(intent, parent) is Ok {
                assert(admits_child(all[k], policy.limits, intent));
            }
        }
    }
}

/// Limits are accepted exactly within their ranges.
pub proof fn topologies_accepted_exactly(limits: TopologyModel)
    ensures
        topology_sound(limits) <==> 0 < limits.depth <= 32 && 0 < limits.children <= 256 && 0
            < limits.active <= 256,
{
}

/// The slots of a node are as many as the declarations that name it.
pub proof fn slots_are_counted(declarations: Seq<DeclarationModel>, node_id: Seq<char>)
    ensures
        slots_of(declarations, node_id) == declarations.filter(
            |declared: DeclarationModel| declared.node_id == node_id,
        ).len(),
    decreases declarations.len(),
{
    reveal(Seq::filter);
    if declarations.len() > 0 {
        slots_are_counted(declarations.drop_last(), node_id);
    }
}

/// A policy holds the declarations that it was made of, each once, in the order
/// of node and slot.
pub proof fn policies_hold_their_declarations(declarations: Seq<DeclarationModel>)
    requires
        collected_declarations(declarations) is Ok,
    ensures
        ({
            let collected = collected_declarations(declarations)->Ok_0;
            &&& collected.len() == declarations.len()
            &&& forall|declared: DeclarationModel| #[trigger]
                collected.contains(declared) <==> declarations.contains(declared)
            &&& ascending(keys::<ChildRunDeclaration>(collected))
        }),
{
    declarations_accepted_exactly(declarations);
    arranged_is_sorted::<ChildRunDeclaration>(declarations);
}

/// A policy belongs to a graph exactly if every declaration names a node of it.
pub proof fn policies_name_nodes(policy: PolicyModel, names: Seq<Seq<char>>)
    ensures
        policy_fits(policy, names) <==> forall|declared: DeclarationModel| #[trigger]
            policy.declarations.contains(declared) ==> names.contains(declared.node_id),
{
    let all = policy.declarations;
    if policy_fits(policy, names) {
        assert forall|declared: DeclarationModel| #[trigger] all.contains(declared) implies
            names.contains(declared.node_id) by {
            let k = all.index_of(declared);
            assert(all[k] == declared);
        }
    }
    if forall|declared: DeclarationModel| #[trigger]
        all.contains(declared) ==> names.contains(declared.node_id) {
        assert forall|i: int| 0 <= i < all.len() implies names.contains(
            (#[trigger] all[i]).node_id,
        ) by {
            assert(all.contains(all[i]));
        }
    }
}

} // verus!
