//! What holds of every composition.

use vstd::prelude::*;

use crate::composition_model::{
    all_slots, body_size, call_failure, calls_failure, child_targets, composed, entry_copies,
    entry_names, expanded_size, iteration_slots, jobs, jobs_of_site, lowered_slot, lowered_slots,
    next_call_failure, parent_targets_of, remapped_job, remapped_jobs, return_successors,
    shares_state, site_place, site_slots, CallModel, CompositionModel, EntryModel, Job, Slot,
};
use crate::expansion::{site_place_absent, site_place_at};
use crate::graph::GraphModel;
use crate::graph_composition::{body_not_empty, call_sound, GraphSubgraphCall, SourceEntry};
use crate::graph_node::{GraphNode, NodeModel};
use crate::graph_shape::{
    collected_nodes, collected_nodes_sorted, is_path, node_names, CompileFailure,
};
use crate::ordered::{
    arranged, arranged_is_sorted, arrangement_ignores_order, ascending_distinct, find,
    find_is_exact, keys, rearranged, rearrangement_keeps, total, total_ignores_order,
};
use crate::template::{
    has_cycle, path_longer_than, preceded_by_cycle, subgraph_sound, too_deep, CompositionFailure,
    SubgraphModel,
};
use crate::walks::repeats;

verus! {

/// Without calls a graph stays what it is, delegation policy and all.
pub proof fn composition_without_calls_keeps_the_graph(parent: GraphModel)
    ensures
        composed(parent, Seq::empty()) == Ok::<CompositionModel, CompositionFailure>(
            CompositionModel { graph: parent, sources: Seq::empty() },
        ),
{
}

/// A composition keeps the identity, the schemas, the reducer and the limits of
/// the parent.
pub proof fn composition_keeps_the_contract(parent: GraphModel, calls: Seq<CallModel>)
    requires
        composed(parent, calls) is Ok,
    ensures
        ({
            let graph = composed(parent, calls)->Ok_0.graph;
            &&& graph.identity == parent.identity
            &&& shares_state(graph, parent)
            &&& graph.limits == parent.limits
            &&& graph.child_runs == parent.child_runs
        }),
{
}

/// A loop that selects its repeat port enters the next iteration, and after the
/// last one follows the route of the parent; every other port does so at once.
pub proof fn loops_advance_and_exhaust(
    parent: GraphModel,
    sites: Seq<CallModel>,
    call: CallModel,
    iteration: u16,
    port: Seq<char>,
)
    requires
        call_sound(call),
        call.subgraph.ports.contains(port),
        iteration < call.maximum_iterations,
    ensures
        child_targets(parent, sites, call, iteration, port) == (if call.repeat_port == Some(port)
            && iteration + 1 < call.maximum_iterations {
            entry_copies(parent, call, (iteration + 1) as u16)
        } else {
            parent_targets_of(
                parent,
                sites,
                return_successors(
                    call,
                    find::<GraphNode>(parent.nodes, call.node_id)->Some_0.routes,
                    port,
                    0,
                ),
            )
        }),
{
}

/// No path of a template runs through a cycle, and none to a node of its body
/// takes more steps than the template allows.
pub proof fn template_paths_are_finite(subgraph: SubgraphModel, path: Seq<int>)
    requires
        subgraph_sound(subgraph),
        is_path(subgraph.graph.nodes, path),
    ensures
        !repeats(path),
        !subgraph.ports.contains(subgraph.graph.nodes[path.last()].node_id) ==> path.len()
            <= subgraph.graph.limits.supersteps,
{
    let nodes = subgraph.graph.nodes;
    let j = path.last();
    assert(path[path.len() - 1] == j);
    assert(0 <= j < nodes.len());
    if repeats(path) {
        assert(preceded_by_cycle(nodes, j));
    }
    if preceded_by_cycle(nodes, j) {
        assert(has_cycle(nodes));
    }
    if path.len() > subgraph.graph.limits.supersteps && !subgraph.ports.contains(
        nodes[j].node_id,
    ) {
        assert(path_longer_than(nodes, j, subgraph.graph.limits.supersteps));
        assert(too_deep(nodes, subgraph.ports, subgraph.graph.limits.supersteps));
    }
}

// ---------------------------------------------------------------------------
// Order of calls
// ---------------------------------------------------------------------------

/// How many nodes a call adds in place of its site.
spec fn growth() -> spec_fn(CallModel) -> int {
    |call: CallModel| body_size(call) * call.maximum_iterations as int - 1
}

proof fn size_is_a_total(parent: GraphModel, calls: Seq<CallModel>, n: int)
    requires
        0 <= n <= calls.len(),
    ensures
        expanded_size(parent, calls, n) == parent.nodes.len() + total(calls.take(n), growth()),
    decreases n,
{
    if n > 0 {
        size_is_a_total(parent, calls, n - 1);
        assert(calls.take(n).drop_last() =~= calls.take(n - 1));
        assert(calls.take(n).last() == calls[n - 1]);
    }
}

/// All calls are valid.
#[verifier::opaque]
pub open spec fn calls_sound(calls: Seq<CallModel>) -> bool {
    forall|i: int| 0 <= i < calls.len() ==> call_sound(#[trigger] calls[i])
}

/// The call fits its site.
#[verifier::opaque]
pub open spec fn call_fits(parent: GraphModel, call: CallModel) -> bool {
    call_failure(parent, call) is None
}

/// The call at an index fits after those before it.
#[verifier::opaque]
spec fn call_follows(parent: GraphModel, calls: Seq<CallModel>, i: int) -> bool {
    next_call_failure(parent, calls, i) is None
}

proof fn call_follows_exactly(parent: GraphModel, calls: Seq<CallModel>, i: int)
    ensures
        call_follows(parent, calls, i) <==> {
            &&& !keys::<GraphSubgraphCall>(calls.take(i)).contains(calls[i].node_id)
            &&& call_fits(parent, calls[i])
            &&& expanded_size(parent, calls, i + 1) <= 1024
        },
{
    reveal(call_follows);
    reveal(call_fits);
}

proof fn growth_not_negative(calls: Seq<CallModel>, i: int)
    requires
        calls_sound(calls),
        0 <= i < calls.len(),
    ensures
        body_size(calls[i]) * calls[i].maximum_iterations as int >= 1,
{
    reveal(calls_sound);
    let call = calls[i];
    assert(call_sound(call));
    body_not_empty(call);
    assert(body_size(call) * call.maximum_iterations as int >= 1) by (nonlinear_arith)
        requires
            body_size(call) >= 1,
            call.maximum_iterations >= 1,
    ;
}

proof fn size_grows(parent: GraphModel, calls: Seq<CallModel>, n: int, m: int)
    requires
        0 <= n <= m <= calls.len(),
        calls_sound(calls),
    ensures
        expanded_size(parent, calls, n) <= expanded_size(parent, calls, m),
    decreases m - n,
{
    if n < m {
        size_grows(parent, calls, n, m - 1);
        growth_not_negative(calls, m - 1);
    }
}

proof fn no_call_fails(parent: GraphModel, calls: Seq<CallModel>, from: int)
    requires
        0 <= from,
        calls_failure(parent, calls, from) is None,
    ensures
        forall|i: int| from <= i < calls.len() ==> #[trigger] call_follows(parent, calls, i),
    decreases calls.len() - from,
{
    reveal(call_follows);
    if from < calls.len() {
        no_call_fails(parent, calls, from + 1);
    }
}

proof fn calls_do_not_fail(parent: GraphModel, calls: Seq<CallModel>, from: int)
    requires
        0 <= from,
        forall|i: int| from <= i < calls.len() ==> #[trigger] call_follows(parent, calls, i),
    ensures
        calls_failure(parent, calls, from) is None,
    decreases calls.len() - from,
{
    if from < calls.len() {
        assert(call_follows(parent, calls, from));
        calls_do_not_fail(parent, calls, from + 1);
        reveal(call_follows);
    }
}

proof fn accepted_calls_fit(parent: GraphModel, calls: Seq<CallModel>)
    requires
        parent.nodes.len() <= 1024,
        forall|i: int| 0 <= i < calls.len() ==> #[trigger] call_follows(parent, calls, i),
    ensures
        keys::<GraphSubgraphCall>(calls).no_duplicates(),
        forall|i: int| 0 <= i < calls.len() ==> call_fits(parent, #[trigger] calls[i]),
        expanded_size(parent, calls, calls.len() as int) <= 1024,
{
    let sites = keys::<GraphSubgraphCall>(calls);
    assert forall|i: int, j: int|
        0 <= i < sites.len() && 0 <= j < sites.len() && i != j implies sites[i] != sites[j] by {
        let (a, b) = if i < j {
            (i, j)
        } else {
            (j, i)
        };
        assert(call_follows(parent, calls, b));
        call_follows_exactly(parent, calls, b);
        let before = keys::<GraphSubgraphCall>(calls.take(b));
        assert(before[a] == sites[a]);
    }
    assert forall|i: int| 0 <= i < calls.len() implies call_fits(parent, #[trigger] calls[i]) by {
        assert(call_follows(parent, calls, i));
        call_follows_exactly(parent, calls, i);
    }
    if calls.len() > 0 {
        assert(call_follows(parent, calls, calls.len() - 1));
        call_follows_exactly(parent, calls, calls.len() - 1);
    }
}

proof fn fitting_calls_follow(parent: GraphModel, calls: Seq<CallModel>)
    requires
        calls_sound(calls),
        keys::<GraphSubgraphCall>(calls).no_duplicates(),
        forall|i: int| 0 <= i < calls.len() ==> call_fits(parent, #[trigger] calls[i]),
        expanded_size(parent, calls, calls.len() as int) <= 1024,
    ensures
        forall|i: int| 0 <= i < calls.len() ==> #[trigger] call_follows(parent, calls, i),
{
    let sites = keys::<GraphSubgraphCall>(calls);
    assert forall|i: int| 0 <= i < calls.len() implies #[trigger] call_follows(
        parent,
        calls,
        i,
    ) by {
        let before = keys::<GraphSubgraphCall>(calls.take(i));
        assert forall|k: int| 0 <= k < before.len() implies before[k] != calls[i].node_id by {
            assert(before[k] == sites[k]);
            assert(sites[i] == calls[i].node_id);
        }
        assert(call_fits(parent, calls[i]));
        size_grows(parent, calls, i + 1, calls.len() as int);
        call_follows_exactly(parent, calls, i);
    }
}

/// Calls are accepted exactly if no site repeats, each call fits its site, and
/// the expansion has not too many nodes.
pub proof fn calls_accepted_exactly(parent: GraphModel, calls: Seq<CallModel>)
    requires
        calls_sound(calls),
        parent.nodes.len() <= 1024,
    ensures
        calls_failure(parent, calls, 0) is None <==> {
            &&& keys::<GraphSubgraphCall>(calls).no_duplicates()
            &&& forall|i: int| 0 <= i < calls.len() ==> call_fits(parent, #[trigger] calls[i])
            &&& expanded_size(parent, calls, calls.len() as int) <= 1024
        },
{
    if calls_failure(parent, calls, 0) is None {
        no_call_fails(parent, calls, 0);
        accepted_calls_fit(parent, calls);
    }
    if keys::<GraphSubgraphCall>(calls).no_duplicates() && (forall|i: int|
        0 <= i < calls.len() ==> call_fits(parent, #[trigger] calls[i])) && expanded_size(
        parent,
        calls,
        calls.len() as int,
    ) <= 1024 {
        fitting_calls_follow(parent, calls);
        calls_do_not_fail(parent, calls, 0);
    }
}

proof fn rearranged_calls_accepted(parent: GraphModel, a: Seq<CallModel>, b: Seq<CallModel>)
    requires
        rearranged(a, b),
        parent.nodes.len() <= 1024,
        calls_sound(a),
        calls_failure(parent, a, 0) is None,
    ensures
        calls_failure(parent, b, 0) is None,
        a.len() == b.len(),
        arranged::<GraphSubgraphCall>(a) == arranged::<GraphSubgraphCall>(b),
{
    calls_accepted_exactly(parent, a);
    rearrangement_keeps::<GraphSubgraphCall>(a, b);
    assert forall|i: int| 0 <= i < b.len() implies call_fits(parent, #[trigger] b[i]) by {
        assert(b.contains(b[i]));
        assert(a.contains(b[i]));
        let k = a.index_of(b[i]);
        assert(call_fits(parent, a[k]));
    }
    assert(calls_sound(b)) by {
        reveal(calls_sound);
        assert forall|i: int| 0 <= i < b.len() implies call_sound(#[trigger] b[i]) by {
            assert(b.contains(b[i]));
            assert(a.contains(b[i]));
            let k = a.index_of(b[i]);
            assert(call_sound(a[k]));
        }
    }
    size_is_a_total(parent, a, a.len() as int);
    size_is_a_total(parent, b, b.len() as int);
    assert(a.take(a.len() as int) =~= a);
    assert(b.take(b.len() as int) =~= b);
    total_ignores_order(a, b, growth());
    calls_accepted_exactly(parent, b);
    arrangement_ignores_order::<GraphSubgraphCall>(a, b);
}

/// The order in which calls are given does not matter: calls that compose do so
/// in every order, to the same graph.
pub proof fn composition_ignores_call_order(
    parent: GraphModel,
    a: Seq<CallModel>,
    b: Seq<CallModel>,
)
    requires
        rearranged(a, b),
        parent.nodes.len() <= 1024,
        calls_sound(a),
        composed(parent, a) is Ok,
    ensures
        composed(parent, b) == composed(parent, a),
{
    rearranged_calls_accepted(parent, a, b);
}

// ---------------------------------------------------------------------------
// Nodes of a composition
// ---------------------------------------------------------------------------

/// The name that a node of the expansion has.
spec fn job_name(parent: GraphModel, sites: Seq<CallModel>, job: Job) -> Seq<char> {
    match job {
        Job::Keep { place } => parent.nodes[place as int].node_id,
        Job::Copy { slot } => lowered_slot(parent, sites, slot)->Some_0.generated,
    }
}

proof fn remapped_names(parent: GraphModel, sites: Seq<CallModel>, list: Seq<Job>)
    requires
        remapped_jobs(parent, sites, list) is Some,
    ensures
        remapped_jobs(parent, sites, list)->Some_0.len() == list.len(),
        forall|i: int|
            0 <= i < list.len() ==> (#[trigger] remapped_jobs(parent, sites, list)->Some_0[i]).node_id
                == job_name(parent, sites, list[i]),
    decreases list.len(),
{
    if list.len() > 0 {
        let front = list.drop_last();
        remapped_names(parent, sites, front);
        let done = remapped_jobs(parent, sites, front)->Some_0;
        let node = remapped_job(parent, sites, list.last())->Some_0;
        let all = remapped_jobs(parent, sites, list)->Some_0;
        assert(all == done.push(node));
        assert forall|i: int| 0 <= i < list.len() implies (#[trigger] all[i]).node_id == job_name(
            parent,
            sites,
            list[i],
        ) by {
            if i < front.len() {
                assert(all[i] == done[i]);
                assert(front[i] == list[i]);
            }
        }
    }
}

proof fn site_jobs_hold(slots: Seq<Slot>, site: int, job: Job)
    ensures
        jobs_of_site(slots, site).contains(job) <==> {
            &&& job is Copy
            &&& job->slot.site == site
            &&& slots.contains(job->slot)
        },
    decreases slots.len(),
{
    if slots.len() > 0 {
        let front = slots.drop_last();
        let last = slots.last();
        site_jobs_hold(front, site, job);
        let before = jobs_of_site(front, site);
        let after = jobs_of_site(slots, site);
        if job is Copy {
            assert(slots.contains(job->slot) <==> front.contains(job->slot) || job->slot
                == last) by {
                if slots.contains(job->slot) {
                    let k = slots.index_of(job->slot);
                    if k < front.len() {
                        assert(front[k] == job->slot);
                    }
                }
                if front.contains(job->slot) {
                    let k = front.index_of(job->slot);
                    assert(slots[k] == job->slot);
                }
                assert(slots[slots.len() - 1] == last);
            }
        }
        if last.site == site {
            let pushed = Job::Copy { slot: last };
            assert(after == before.push(pushed));
            assert(after.contains(job) <==> before.contains(job) || job == pushed) by {
                if after.contains(job) {
                    let k = after.index_of(job);
                    if k < before.len() {
                        assert(before[k] == job);
                    }
                }
                if before.contains(job) {
                    let k = before.index_of(job);
                    assert(after[k] == job);
                }
                assert(after[after.len() - 1] == pushed);
            }
        }
    }
}

/// The jobs are the nodes of the parent that are no sites, and the copies of the
/// sites among them.
pub(crate) proof fn jobs_hold(
    parent: GraphModel,
    sites: Seq<CallModel>,
    slots: Seq<Slot>,
    n: nat,
    job: Job,
)
    requires
        n <= parent.nodes.len() <= 1024,
    ensures
        jobs(parent, sites, slots, n).contains(job) <==> match job {
            Job::Keep { place } => place < n && site_place(
                sites,
                parent.nodes[place as int].node_id,
            ) < 0,
            Job::Copy { slot } => slots.contains(slot) && exists|i: int|
                0 <= i < n && site_place(sites, (#[trigger] parent.nodes[i]).node_id) == slot.site,
        },
    decreases n,
{
    if n > 0 {
        let m = (n - 1) as nat;
        jobs_hold(parent, sites, slots, m, job);
        let before = jobs(parent, sites, slots, m);
        let site = site_place(sites, parent.nodes[n - 1].node_id);
        let more = if site >= 0 {
            jobs_of_site(slots, site)
        } else {
            seq![Job::Keep { place: (n - 1) as usize }]
        };
        let after = jobs(parent, sites, slots, n);
        assert(after == before + more);
        assert(after.contains(job) <==> before.contains(job) || more.contains(job)) by {
            if after.contains(job) {
                let k = after.index_of(job);
                if k < before.len() {
                    assert(before[k] == job);
                } else {
                    assert(more[k - before.len()] == job);
                }
            }
            if before.contains(job) {
                let k = before.index_of(job);
                assert(after[k] == job);
            }
            if more.contains(job) {
                let k = more.index_of(job);
                assert(after[before.len() + k] == job);
            }
        }
        if site >= 0 {
            site_jobs_hold(slots, site, job);
        } else {
            let keep = Job::Keep { place: (n - 1) as usize };
            assert(more[0] == keep);
            assert(more.contains(job) <==> job == keep);
        }
        if let Job::Copy { slot } = job {
            if exists|i: int|
                0 <= i < m && site_place(sites, (#[trigger] parent.nodes[i]).node_id)
                    == slot.site {
                let i = choose|i: int|
                    0 <= i < m && site_place(sites, (#[trigger] parent.nodes[i]).node_id)
                        == slot.site;
                assert(0 <= i < n && site_place(sites, parent.nodes[i].node_id) == slot.site);
            }
            if exists|i: int|
                0 <= i < n && site_place(sites, (#[trigger] parent.nodes[i]).node_id)
                    == slot.site {
                let i = choose|i: int|
                    0 <= i < n && site_place(sites, (#[trigger] parent.nodes[i]).node_id)
                        == slot.site;
                if i < m {
                    assert(0 <= i < m && site_place(sites, parent.nodes[i].node_id) == slot.site);
                }
            }
        }
    }
}

proof fn iteration_slots_have_site(call: CallModel, site: usize, iteration: u16, n: nat)
    ensures
        forall|k: int|
            0 <= k < iteration_slots(call, site, iteration, n).len() ==> (
            #[trigger] iteration_slots(call, site, iteration, n)[k]).site == site,
    decreases n,
{
    if n > 0 {
        let m = (n - 1) as nat;
        iteration_slots_have_site(call, site, iteration, m);
        let before = iteration_slots(call, site, iteration, m);
        let all = iteration_slots(call, site, iteration, n);
        assert forall|k: int| 0 <= k < all.len() implies (#[trigger] all[k]).site == site by {
            if k < before.len() {
                assert(all[k] == before[k]);
            }
        }
    }
}

proof fn site_slots_have_site(call: CallModel, site: usize, iterations: nat)
    ensures
        forall|k: int|
            0 <= k < site_slots(call, site, iterations).len() ==> (#[trigger] site_slots(
                call,
                site,
                iterations,
            )[k]).site == site,
    decreases iterations,
{
    if iterations > 0 {
        let before = (iterations - 1) as nat;
        site_slots_have_site(call, site, before);
        iteration_slots_have_site(
            call,
            site,
            before as u16,
            call.subgraph.graph.nodes.len(),
        );
        let done = site_slots(call, site, before);
        let more = iteration_slots(
            call,
            site,
            before as u16,
            call.subgraph.graph.nodes.len(),
        );
        let all = site_slots(call, site, iterations);
        assert(all == done + more);
        assert forall|k: int| 0 <= k < all.len() implies (#[trigger] all[k]).site == site by {
            if k < done.len() {
                assert(all[k] == done[k]);
            } else {
                assert(all[k] == more[k - done.len()]);
            }
        }
    }
}

proof fn slots_have_sites(sites: Seq<CallModel>, n: nat)
    requires
        n <= sites.len() <= usize::MAX,
    ensures
        forall|k: int|
            0 <= k < all_slots(sites, n).len() ==> (#[trigger] all_slots(sites, n)[k]).site < n,
    decreases n,
{
    if n > 0 {
        let m = (n - 1) as nat;
        slots_have_sites(sites, m);
        site_slots_have_site(
            sites[n - 1],
            m as usize,
            sites[n - 1].maximum_iterations as nat,
        );
        let before = all_slots(sites, m);
        let all = all_slots(sites, n);
        assert forall|k: int| 0 <= k < all.len() implies (#[trigger] all[k]).site < n by {
            if k < before.len() {
                assert(all[k] == before[k]);
            }
        }
    }
}

pub(crate) proof fn lowered_names(parent: GraphModel, sites: Seq<CallModel>, slots: Seq<Slot>)
    requires
        lowered_slots(parent, sites, slots) is Ok,
    ensures
        lowered_slots(parent, sites, slots)->Ok_0.len() == slots.len(),
        forall|i: int|
            0 <= i < slots.len() ==> Some(#[trigger] lowered_slots(parent, sites, slots)->Ok_0[i])
                == lowered_slot(parent, sites, slots[i]),
        entry_names(lowered_slots(parent, sites, slots)->Ok_0).no_duplicates(),
    decreases slots.len(),
{
    if slots.len() > 0 {
        let front = slots.drop_last();
        lowered_names(parent, sites, front);
        let done = lowered_slots(parent, sites, front)->Ok_0;
        let all = lowered_slots(parent, sites, slots)->Ok_0;
        let entry = lowered_slot(parent, sites, slots.last())->Some_0;
        assert(all == done.push(entry));
        assert forall|i: int| 0 <= i < slots.len() implies Some(#[trigger] all[i]) == lowered_slot(
            parent,
            sites,
            slots[i],
        ) by {
            if i < front.len() {
                assert(all[i] == done[i]);
                assert(front[i] == slots[i]);
            }
        }
        let (x, y) = (entry_names(done), entry_names(all));
        assert forall|i: int, j: int|
            0 <= i < y.len() && 0 <= j < y.len() && i != j implies y[i] != y[j] by {
            if i < x.len() && j < x.len() {
                assert(x[i] == y[i] && x[j] == y[j]);
            } else if i < x.len() {
                assert(x[i] == y[i]);
                assert(x.contains(x[i]));
            } else {
                assert(x[j] == y[j]);
                assert(x.contains(x[j]));
            }
        }
    } else {
        assert(entry_names(lowered_slots(parent, sites, slots)->Ok_0) =~= Seq::<
            Seq<char>,
        >::empty());
    }
}

proof fn expansion_nodes_exactly(
    parent: GraphModel,
    sites: Seq<CallModel>,
    entries: Seq<EntryModel>,
    nodes: Seq<NodeModel>,
    name: Seq<char>,
)
    requires
        node_names(parent.nodes).no_duplicates(),
        parent.nodes.len() <= 1024,
        keys::<GraphSubgraphCall>(sites).no_duplicates(),
        forall|i: int|
            0 <= i < sites.len() ==> node_names(parent.nodes).contains(
                (#[trigger] sites[i]).node_id,
            ),
        sites.len() <= usize::MAX,
        lowered_slots(parent, sites, all_slots(sites, sites.len())) == Ok::<
            Seq<EntryModel>,
            CompositionFailure,
        >(entries),
        remapped_jobs(
            parent,
            sites,
            jobs(parent, sites, all_slots(sites, sites.len()), parent.nodes.len()),
        ) == Some(nodes),
    ensures
        node_names(nodes).contains(name) <==> {
            ||| node_names(parent.nodes).contains(name) && !keys::<GraphSubgraphCall>(
                sites,
            ).contains(name)
            ||| entry_names(entries).contains(name)
        },
{
    let slots = all_slots(sites, sites.len());
    lowered_names(parent, sites, slots);
    let list = jobs(parent, sites, slots, parent.nodes.len());
    remapped_names(parent, sites, list);
    let given = node_names(nodes);
    let all = node_names(parent.nodes);
    let site_names = keys::<GraphSubgraphCall>(sites);
    slots_have_sites(sites, sites.len());
    if given.contains(name) {
        let k = given.index_of(name);
        assert(nodes[k].node_id == name);
        assert(list.contains(list[k]));
        jobs_hold(parent, sites, slots, parent.nodes.len(), list[k]);
        match list[k] {
            Job::Keep { place } => {
                assert(all[place as int] == name);
                if site_names.contains(name) {
                    let s = site_names.index_of(name);
                    site_place_at(sites, s);
                }
            },
            Job::Copy { slot } => {
                let i = slots.index_of(slot);
                assert(Some(entries[i]) == lowered_slot(parent, sites, slots[i]));
                assert(entry_names(entries)[i] == name);
            },
        }
    }
    if all.contains(name) && !site_names.contains(name) {
        let i = all.index_of(name);
        site_place_absent(sites, name);
        let job = Job::Keep { place: i as usize };
        jobs_hold(parent, sites, slots, parent.nodes.len(), job);
        let k = list.index_of(job);
        assert(nodes[k].node_id == name);
        assert(given[k] == name);
    }
    if entry_names(entries).contains(name) {
        let i = entry_names(entries).index_of(name);
        let slot = slots[i];
        assert(Some(entries[i]) == lowered_slot(parent, sites, slot));
        assert(slot.site < sites.len());
        let call = sites[slot.site as int];
        assert(all.contains(call.node_id));
        let p = all.index_of(call.node_id);
        site_place_at(sites, slot.site as int);
        assert(site_place(sites, parent.nodes[p].node_id) == slot.site);
        let job = Job::Copy { slot };
        assert(slots.contains(slot));
        jobs_hold(parent, sites, slots, parent.nodes.len(), job);
        let k = list.index_of(job);
        assert(nodes[k].node_id == name);
        assert(given[k] == name);
    }
}

proof fn fitting_call_has_a_site(parent: GraphModel, call: CallModel)
    requires
        call_fits(parent, call),
    ensures
        node_names(parent.nodes).contains(call.node_id),
{
    reveal(call_fits);
    find_is_exact::<GraphNode>(parent.nodes, call.node_id);
}

/// The parts that a composition is made of.
pub(crate) proof fn composition_parts(parent: GraphModel, calls: Seq<CallModel>) -> (parts: (
    Seq<EntryModel>,
    Seq<NodeModel>,
))
    requires
        calls.len() > 0,
        composed(parent, calls) is Ok,
    ensures
        ({
            let sites = arranged::<GraphSubgraphCall>(calls);
            let slots = all_slots(sites, sites.len());
            let (entries, nodes) = parts;
            &&& calls_failure(parent, calls, 0) is None
            &&& lowered_slots(parent, sites, slots) == Ok::<Seq<EntryModel>, CompositionFailure>(
                entries,
            )
            &&& remapped_jobs(
                parent,
                sites,
                jobs(parent, sites, slots, parent.nodes.len()),
            ) == Some(nodes)
            &&& collected_nodes(nodes) == Ok::<Seq<NodeModel>, CompileFailure>(
                composed(parent, calls)->Ok_0.graph.nodes,
            )
            &&& composed(parent, calls)->Ok_0.sources == arranged::<SourceEntry>(entries)
        }),
{
    let sites = arranged::<GraphSubgraphCall>(calls);
    let slots = all_slots(sites, sites.len());
    let entries = lowered_slots(parent, sites, slots)->Ok_0;
    let nodes = remapped_jobs(
        parent,
        sites,
        jobs(parent, sites, slots, parent.nodes.len()),
    )->Some_0;
    (entries, nodes)
}

/// The nodes of a composition are the nodes of the parent that are no call
/// sites, and the copies that its sources name. No call site is left.
pub proof fn composition_nodes_exactly(parent: GraphModel, calls: Seq<CallModel>, name: Seq<char>)
    requires
        node_names(parent.nodes).no_duplicates(),
        parent.nodes.len() <= 1024,
        calls_sound(calls),
        0 < calls.len() <= usize::MAX,
        composed(parent, calls) is Ok,
    ensures
        node_names(composed(parent, calls)->Ok_0.graph.nodes).contains(name) <==> {
            ||| node_names(parent.nodes).contains(name) && !keys::<GraphSubgraphCall>(
                calls,
            ).contains(name)
            ||| entry_names(composed(parent, calls)->Ok_0.sources).contains(name)
        },
{
    let (entries, nodes) = composition_parts(parent, calls);
    names_of_parts(
        parent,
        calls,
        entries,
        nodes,
        composed(parent, calls)->Ok_0.graph.nodes,
        composed(parent, calls)->Ok_0.sources,
        name,
    );
}

proof fn names_of_parts(
    parent: GraphModel,
    calls: Seq<CallModel>,
    entries: Seq<EntryModel>,
    nodes: Seq<NodeModel>,
    sorted: Seq<NodeModel>,
    sources: Seq<EntryModel>,
    name: Seq<char>,
)
    requires
        node_names(parent.nodes).no_duplicates(),
        parent.nodes.len() <= 1024,
        calls_sound(calls),
        calls.len() <= usize::MAX,
        calls_failure(parent, calls, 0) is None,
        ({
            let sites = arranged::<GraphSubgraphCall>(calls);
            let slots = all_slots(sites, sites.len());
            &&& lowered_slots(parent, sites, slots) == Ok::<Seq<EntryModel>, CompositionFailure>(
                entries,
            )
            &&& remapped_jobs(
                parent,
                sites,
                jobs(parent, sites, slots, parent.nodes.len()),
            ) == Some(nodes)
        }),
        collected_nodes(nodes) == Ok::<Seq<NodeModel>, CompileFailure>(sorted),
        sources == arranged::<SourceEntry>(entries),
    ensures
        node_names(sorted).contains(name) <==> {
            ||| node_names(parent.nodes).contains(name) && !keys::<GraphSubgraphCall>(
                calls,
            ).contains(name)
            ||| entry_names(sources).contains(name)
        },
{
    calls_accepted_exactly(parent, calls);
    let sites = arranged::<GraphSubgraphCall>(calls);
    arranged_is_sorted::<GraphSubgraphCall>(calls);
    ascending_distinct(keys::<GraphSubgraphCall>(sites));
    assert forall|i: int| 0 <= i < sites.len() implies node_names(parent.nodes).contains(
        (#[trigger] sites[i]).node_id,
    ) by {
        assert(sites.contains(sites[i]));
        assert(calls.contains(sites[i]));
        let k = calls.index_of(sites[i]);
        assert(call_fits(parent, calls[k]));
        fitting_call_has_a_site(parent, sites[i]);
    }
    lowered_names(parent, sites, all_slots(sites, sites.len()));
    arranged_is_sorted::<SourceEntry>(entries);
    collected_nodes_sorted(nodes);
    arranged_is_sorted::<GraphNode>(nodes);
    expansion_nodes_exactly(parent, sites, entries, nodes, name);
}

} // verus!
