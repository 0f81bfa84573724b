//! Expanding calls into the copies of their templates.

use vstd::prelude::*;

use crate::graph_composition::{
    call_sound, copies_have_sites, copies_valid, distinct_sorted_is_sorted, find_copy, ready,
    slot_valid, GraphNodeSource, GraphSubgraphCall, SourceEntry,
};
use crate::composition_model::{
    child_targets, copy_name, entry_copies, entry_names, jobs, jobs_of_site, lowered,
    parent_targets, parent_targets_of, place_of, remapped, remapped_job, remapped_jobs,
    remapped_option, remapped_routes, remapped_set, renamed, renames, return_successors, site_place,
    targets_of, CallModel, Job, RenameModel, Scope, Slot,
};
use crate::graph::{compiled, CompiledGraph, GraphModel};
use crate::graph_node::{GraphNode, GraphRoute, GraphRoutes, NodeModel, RouteModel};
use crate::graph_shape::{node_names, GraphCompileError};
use crate::names::NodeId;
use crate::options::{option_ref_view, option_view};
use crate::ordered::{
    arranged, ascending, ascending_distinct, collect_unique, find_at, find_is_exact, keys, locate,
    splits_excludes, views, Collection,
};
use crate::ready::ReadyNodes;
use crate::template::{subgraph_sound, CompositionFailure, GraphCompositionError, SubgraphModel};

verus! {

// ---------------------------------------------------------------------------
// Edges
// ---------------------------------------------------------------------------

pub(crate) proof fn place_of_at(nodes: Seq<NodeModel>, i: int)
    requires
        node_names(nodes).no_duplicates(),
        0 <= i < nodes.len(),
    ensures
        place_of(nodes, nodes[i].node_id) == i,
    decreases nodes.len(),
{
    let names = node_names(nodes);
    let last = nodes.len() - 1;
    if i != last {
        assert(names[i] != names[last]);
        let front = nodes.drop_last();
        assert(node_names(front) =~= names.drop_last());
        assert(node_names(front).no_duplicates()) by {
            assert forall|a: int, b: int|
                0 <= a < front.len() && 0 <= b < front.len() && a != b implies node_names(front)[a]
                != node_names(front)[b] by {
                assert(names[a] != names[b]);
            }
        }
        place_of_at(front, i);
    }
}

pub(crate) proof fn site_place_at(sites: Seq<CallModel>, i: int)
    requires
        keys::<GraphSubgraphCall>(sites).no_duplicates(),
        0 <= i < sites.len(),
    ensures
        site_place(sites, sites[i].node_id) == i,
    decreases sites.len(),
{
    let names = keys::<GraphSubgraphCall>(sites);
    let last = sites.len() - 1;
    if i != last {
        assert(names[i] != names[last]);
        let front = sites.drop_last();
        let shorter = keys::<GraphSubgraphCall>(front);
        assert(shorter =~= names.drop_last());
        assert(shorter.no_duplicates()) by {
            assert forall|a: int, b: int|
                0 <= a < front.len() && 0 <= b < front.len() && a != b implies shorter[a]
                != shorter[b] by {
                assert(names[a] != names[b]);
            }
        }
        site_place_at(front, i);
    }
}

pub(crate) proof fn site_place_absent(sites: Seq<CallModel>, name: Seq<char>)
    requires
        !keys::<GraphSubgraphCall>(sites).contains(name),
    ensures
        site_place(sites, name) == -1,
    decreases sites.len(),
{
    if sites.len() > 0 {
        let names = keys::<GraphSubgraphCall>(sites);
        let front = sites.drop_last();
        let shorter = keys::<GraphSubgraphCall>(front);
        assert(names[sites.len() - 1] == sites.last().node_id);
        if shorter.contains(name) {
            let k = choose|k: int| 0 <= k < shorter.len() && shorter[k] == name;
            assert(names[k] == name);
        }
        site_place_absent(front, name);
    }
}

/// Everything that the nodes of an expansion are made of.
struct Expansion<'a> {
    parent: &'a CompiledGraph,
    sites: &'a Vec<GraphSubgraphCall>,
    slots: &'a Vec<Slot>,
    lowered: &'a Vec<SourceEntry>,
    entries: Vec<Vec<ReadyNodes>>,
}

/// Finds the copy of a node of a template, given by its name.
fn find_copy_of<'a>(
    parent: &CompiledGraph,
    sites: &Vec<GraphSubgraphCall>,
    slots: &Vec<Slot>,
    lowered: &'a Vec<SourceEntry>,
    site: usize,
    iteration: u16,
    name: &NodeId,
) -> (r: &'a SourceEntry)
    requires
        copies_valid(parent@, views(sites@), slots@, views(lowered@)),
        site < sites@.len(),
        iteration < views(sites@)[site as int].maximum_iterations,
        node_names(views(sites@)[site as int].subgraph.graph.nodes).contains(name@),
        !views(sites@)[site as int].subgraph.ports.contains(name@),
    ensures
        r@.generated == copy_name(parent@, views(sites@)[site as int], iteration, name@),
{
    let ghost models = views(sites@);
    let call = &sites[site];
    assert(call@ == models[site as int]);
    let nodes = call.subgraph().graph().nodes();
    let ghost node_models = call@.subgraph.graph.nodes;
    let ordinal: usize = match locate(nodes, name.as_str()) {
        Ok(at) => at,
        Err(at) => {
            proof {
                splits_excludes(node_names(node_models), name@, at as int);
            }
            at
        },
    };
    proof {
        assert(node_models[ordinal as int] == nodes@[ordinal as int]@);
        ascending_distinct(node_names(node_models));
        place_of_at(node_models, ordinal as int);
        assert(slot_valid(models, Slot { site, iteration, ordinal }));
    }
    find_copy(Ghost(parent@), Ghost(models), slots, lowered, Slot { site, iteration, ordinal })
}

/// The entry nodes of a template exist and are no ports.
proof fn template_entries(subgraph: SubgraphModel)
    requires
        subgraph_sound(subgraph),
    ensures
        subgraph.graph.entry_nodes.len() <= 1024,
        forall|k: int|
            0 <= k < subgraph.graph.entry_nodes.len() ==> node_names(
                subgraph.graph.nodes,
            ).contains(#[trigger] subgraph.graph.entry_nodes[k]) && !subgraph.ports.contains(
                subgraph.graph.entry_nodes[k],
            ),
{
    let graph = subgraph.graph;
    let check = crate::graph_shape::entry_failure(node_names(graph.nodes));
    crate::graph_shape::no_first_failure(graph.entry_nodes, check, 0);
    assert forall|k: int| 0 <= k < graph.entry_nodes.len() implies node_names(
        graph.nodes,
    ).contains(#[trigger] graph.entry_nodes[k]) && !subgraph.ports.contains(
        graph.entry_nodes[k],
    ) by {
        assert(check(graph.entry_nodes[k]) is None);
    }
}

/// Makes the entry copies of one iteration of a call.
fn make_entry_copies(
    parent: &CompiledGraph,
    sites: &Vec<GraphSubgraphCall>,
    slots: &Vec<Slot>,
    lowered: &Vec<SourceEntry>,
    site: usize,
    iteration: u16,
) -> (r: Result<ReadyNodes, GraphCompositionError>)
    requires
        copies_valid(parent@, views(sites@), slots@, views(lowered@)),
        site < sites@.len(),
        iteration < views(sites@)[site as int].maximum_iterations,
    ensures
        r matches Ok(ready) && ready@ == entry_copies(
            parent@,
            views(sites@)[site as int],
            iteration,
        ),
{
    let call = &sites[site];
    let ghost model = views(sites@)[site as int];
    assert(call@ == model);
    let entries = call.subgraph().graph().entry_nodes().as_slice();
    let ghost names = model.subgraph.graph.entry_nodes;
    proof {
        assert(call_sound(model));
        template_entries(model.subgraph);
    }
    let mut copies: Vec<NodeId> = Vec::new();
    let mut k: usize = 0;
    while k < entries.len()
        invariant
            copies_valid(parent@, views(sites@), slots@, views(lowered@)),
            site < sites@.len(),
            model == views(sites@)[site as int],
            iteration < model.maximum_iterations,
            names == model.subgraph.graph.entry_nodes,
            views(entries@) == names,
            entries@.len() == names.len(),
            forall|k: int|
                0 <= k < names.len() ==> node_names(model.subgraph.graph.nodes).contains(
                    #[trigger] names[k],
                ) && !model.subgraph.ports.contains(names[k]),
            k <= entries@.len(),
            copies@.len() == k,
            forall|j: int|
                0 <= j < k ==> (#[trigger] copies@[j])@ == copy_name(
                    parent@,
                    model,
                    iteration,
                    names[j],
                ),
        decreases entries@.len() - k,
    {
        assert(names[k as int] == entries@[k as int]@);
        let entry = find_copy_of(parent, sites, slots, lowered, site, iteration, &entries[k]);
        copies.push(entry.generated().clone());
        k = k + 1;
    }
    proof {
        let wanted = Seq::new(
            model.subgraph.graph.entry_nodes.len(),
            |k: int| copy_name(parent@, model, iteration, model.subgraph.graph.entry_nodes[k]),
        );
        assert(views(copies@) =~= wanted);
        distinct_sorted_is_sorted(wanted);
    }
    ready(&copies)
}

impl<'a> Expansion<'a> {
    spec fn valid(&self) -> bool {
        let sites = views(self.sites@);
        &&& copies_valid(self.parent@, sites, self.slots@, views(self.lowered@))
        &&& self.entries@.len() == sites.len()
        &&& forall|s: int|
            0 <= s < sites.len() ==> (#[trigger] self.entries@[s])@.len()
                == sites[s].maximum_iterations
        &&& forall|s: int, it: int|
            0 <= s < sites.len() && 0 <= it < sites[s].maximum_iterations ==> (
            #[trigger] self.entries@[s]@[it])@ == entry_copies(self.parent@, sites[s], it as u16)
    }

    /// Makes the entry copies of all iterations of all calls.
    fn new(
        parent: &'a CompiledGraph,
        sites: &'a Vec<GraphSubgraphCall>,
        slots: &'a Vec<Slot>,
        lowered: &'a Vec<SourceEntry>,
    ) -> (r: Result<Expansion<'a>, GraphCompositionError>)
        requires
            copies_valid(parent@, views(sites@), slots@, views(lowered@)),
        ensures
            r matches Ok(expansion) && expansion.valid() && expansion.parent == parent
                && expansion.sites == sites && expansion.slots == slots && expansion.lowered
                == lowered,
    {
        let ghost models = views(sites@);
        let mut entries: Vec<Vec<ReadyNodes>> = Vec::new();
        let mut s: usize = 0;
        while s < sites.len()
            invariant
                models == views(sites@),
                copies_valid(parent@, models, slots@, views(lowered@)),
                s <= sites@.len(),
                entries@.len() == s,
                forall|a: int|
                    0 <= a < s ==> (#[trigger] entries@[a])@.len() == models[a].maximum_iterations,
                forall|a: int, it: int|
                    0 <= a < s && 0 <= it < models[a].maximum_iterations ==> (
                    #[trigger] entries@[a]@[it])@ == entry_copies(parent@, models[a], it as u16),
            decreases sites@.len() - s,
        {
            let iterations: u16 = sites[s].maximum_iterations();
            assert(iterations == models[s as int].maximum_iterations);
            let mut row: Vec<ReadyNodes> = Vec::new();
            let mut it: u16 = 0;
            while it < iterations
                invariant
                    models == views(sites@),
                    copies_valid(parent@, models, slots@, views(lowered@)),
                    s < sites@.len(),
                    iterations == models[s as int].maximum_iterations,
                    it <= iterations,
                    row@.len() == it,
                    forall|k: int|
                        0 <= k < it ==> (#[trigger] row@[k])@ == entry_copies(
                            parent@,
                            models[s as int],
                            k as u16,
                        ),
                decreases iterations - it,
            {
                let set = make_entry_copies(parent, sites, slots, lowered, s, it)?;
                row.push(set);
                it = it + 1;
            }
            entries.push(row);
            s = s + 1;
        }
        Ok(Expansion { parent, sites, slots, lowered, entries })
    }

    /// Appends what a node of the parent becomes as a successor.
    fn push_parent_targets(&self, name: &NodeId, out: &mut Vec<NodeId>)
        requires
            self.valid(),
        ensures
            views(final(out)@) == views(old(out)@) + parent_targets(
                self.parent@,
                views(self.sites@),
                name@,
            ),
    {
        proof {
            copies_have_sites(self.parent@, views(self.sites@), self.slots@, views(self.lowered@));
        }
        let ghost models = views(self.sites@);
        let ghost before = views(out@);
        match locate(self.sites.as_slice(), name.as_str()) {
            Ok(s) => {
                proof {
                    ascending_distinct(keys::<GraphSubgraphCall>(models));
                    find_at::<GraphSubgraphCall>(models, s as int);
                    assert(call_sound(models[s as int]));
                    assert(self.entries@[s as int]@[0]@ == entry_copies(
                        self.parent@,
                        models[s as int],
                        0,
                    ));
                    assert(self.entries@[s as int]@.len() == models[s as int].maximum_iterations);
                }
                push_all(&self.entries[s][0], &mut *out);
            },
            Err(at) => {
                proof {
                    splits_excludes(keys::<GraphSubgraphCall>(models), name@, at as int);
                    find_is_exact::<GraphSubgraphCall>(models, name@);
                }
                out.push(name.clone());
                assert(views(out@) =~= before + seq![name@]);
            },
        }
    }

    /// Appends what nodes of the parent become as successors.
    fn push_parent_targets_of(&self, names: &ReadyNodes, out: &mut Vec<NodeId>)
        requires
            self.valid(),
        ensures
            views(final(out)@) == views(old(out)@) + parent_targets_of(
                self.parent@,
                views(self.sites@),
                names@,
            ),
    {
        let ghost models = views(self.sites@);
        let ghost before = views(out@);
        let members = names.as_slice();
        let mut k: usize = 0;
        proof {
            assert(names@.take(0) =~= Seq::<Seq<char>>::empty());
            assert(views(out@) =~= before + parent_targets_of(self.parent@, models, names@.take(0)));
        }
        while k < members.len()
            invariant
                self.valid(),
                models == views(self.sites@),
                views(members@) == names@,
                members@.len() == names@.len(),
                k <= members@.len(),
                views(out@) == before + parent_targets_of(
                    self.parent@,
                    models,
                    names@.take(k as int),
                ),
            decreases members@.len() - k,
        {
            proof {
                assert(names@[k as int] == members@[k as int]@);
                assert(names@.take(k + 1).drop_last() =~= names@.take(k as int));
            }
            self.push_parent_targets(&members[k], &mut *out);
            proof {
                assert(views(out@) =~= before + parent_targets_of(
                    self.parent@,
                    models,
                    names@.take(k + 1),
                ));
            }
            k = k + 1;
        }
        assert(names@.take(k as int) =~= names@);
    }

    /// Appends what a node of a template becomes as a successor.
    fn push_child_targets(&self, site: usize, iteration: u16, name: &NodeId, out: &mut Vec<NodeId>)
        requires
            self.valid(),
            site < self.sites@.len(),
            iteration < views(self.sites@)[site as int].maximum_iterations,
            node_names(views(self.sites@)[site as int].subgraph.graph.nodes).contains(name@),
        ensures
            views(final(out)@) == views(old(out)@) + child_targets(
                self.parent@,
                views(self.sites@),
                views(self.sites@)[site as int],
                iteration,
                name@,
            ),
    {
        let ghost models = views(self.sites@);
        let ghost model = models[site as int];
        let ghost before = views(out@);
        let call = &self.sites[site];
        assert(call@ == model);
        if !call.subgraph().is_port(name) {
            let entry = find_copy_of(
                self.parent,
                self.sites,
                self.slots,
                self.lowered,
                site,
                iteration,
                name,
            );
            out.push(entry.generated().clone());
            assert(views(out@) =~= before + seq![copy_name(self.parent@, model, iteration, name@)]);
            return;
        }
        let repeats: bool = match call.repeat_port() {
            Some(port) => *port == *name,
            None => false,
        };
        if repeats && (iteration as u32) + 1 < call.maximum_iterations() as u32 {
            proof {
                assert(self.entries@[site as int]@[iteration + 1]@ == entry_copies(
                    self.parent@,
                    model,
                    (iteration + 1) as u16,
                ));
                assert(self.entries@[site as int]@.len() == model.maximum_iterations);
            }
            push_all(&self.entries[site][iteration as usize + 1], &mut *out);
            return;
        }
        proof {
            copies_have_sites(self.parent@, views(self.sites@), self.slots@, views(self.lowered@));
        }
        assert(call_sound(models[site as int]));
        let node = match self.parent.node(call.node_id()) {
            Some(node) => node,
            None => {
                return;
            },
        };
        self.push_return_targets(call, node, name, out);
    }

    /// Appends what the parent continues with where a template returns by a
    /// port.
    fn push_return_targets(
        &self,
        call: &GraphSubgraphCall,
        node: &GraphNode,
        name: &NodeId,
        out: &mut Vec<NodeId>,
    )
        requires
            self.valid(),
        ensures
            views(final(out)@) == views(old(out)@) + parent_targets_of(
                self.parent@,
                views(self.sites@),
                return_successors(call@, node@.routes, name@, 0),
            ),
    {
        let ghost before = views(out@);
        let routes = node.routes().iter();
        let ghost models = node@.routes;
        let mut i: usize = 0;
        while i < routes.len()
            invariant
                self.valid(),
                models == node@.routes,
                views(routes@) == models,
                routes@.len() == models.len(),
                views(out@) == before,
                before == views(old(out)@),
                i <= routes@.len(),
                return_successors(call@, models, name@, 0) == return_successors(
                    call@,
                    models,
                    name@,
                    i as int,
                ),
            decreases routes@.len() - i,
        {
            assert(models[i as int] == routes@[i as int]@);
            if call.matches_return(name, routes[i].route_id()) {
                self.push_parent_targets_of(routes[i].successors(), &mut *out);
                return;
            }
            i = i + 1;
        }
        assert(views(out@) =~= before + Seq::<Seq<char>>::empty());
    }
}

/// Appends the nodes of a ready set.
fn push_all(set: &ReadyNodes, out: &mut Vec<NodeId>)
    ensures
        views(final(out)@) == views(old(out)@) + set@,
{
    let ghost before = views(out@);
    let members = set.as_slice();
    let mut k: usize = 0;
    assert(views(out@) =~= before + set@.take(0));
    while k < members.len()
        invariant
            views(members@) == set@,
            members@.len() == set@.len(),
            k <= members@.len(),
            views(out@) == before + set@.take(k as int),
        decreases members@.len() - k,
    {
        assert(set@[k as int] == members@[k as int]@);
        let ghost now = views(out@);
        out.push(members[k].clone());
        proof {
            assert(views(out@) =~= now.push(set@[k as int]));
            assert(set@.take(k + 1) =~= set@.take(k as int).push(set@[k as int]));
            assert(views(out@) =~= before + set@.take(k + 1));
        }
        k = k + 1;
    }
    assert(set@.take(k as int) =~= set@);
}

// ---------------------------------------------------------------------------
// Nodes
// ---------------------------------------------------------------------------

/// Where a successor stands: in the parent, or in one iteration of a call.
#[derive(Clone, Copy)]
enum Place {
    Parent,
    Iteration { site: usize, iteration: u16 },
}

/// The scope of a place.
spec fn scope_of(sites: Seq<CallModel>, place: Place) -> Scope {
    match place {
        Place::Parent => Scope::Parent,
        Place::Iteration { site, iteration } => Scope::Iteration {
            call: sites[site as int],
            iteration,
        },
    }
}

/// The place is one of the expansion.
spec fn place_valid(sites: Seq<CallModel>, place: Place) -> bool {
    place matches Place::Iteration { site, iteration } ==> site < sites.len() && iteration
        < sites[site as int].maximum_iterations
}

/// The names are those of nodes that exist at the place.
spec fn names_known(sites: Seq<CallModel>, place: Place, names: Seq<Seq<char>>) -> bool {
    place matches Place::Iteration { site, iteration } ==> forall|k: int|
        0 <= k < names.len() ==> node_names(sites[site as int].subgraph.graph.nodes).contains(
            #[trigger] names[k],
        )
}

/// All successors of the node exist at the place.
spec fn node_known(sites: Seq<CallModel>, place: Place, node: NodeModel) -> bool {
    &&& node.continue_to matches Some(names) ==> names_known(sites, place, names)
    &&& node.wait_to matches Some(names) ==> names_known(sites, place, names)
    &&& forall|i: int|
        0 <= i < node.routes.len() ==> names_known(
            sites,
            place,
            (#[trigger] node.routes[i]).successors,
        )
}

/// All successors of a node of a template exist in the template.
proof fn template_node_known(sites: Seq<CallModel>, slot: Slot)
    requires
        slot_valid(sites, slot),
        call_sound(sites[slot.site as int]),
    ensures
        node_known(
            sites,
            Place::Iteration { site: slot.site, iteration: slot.iteration },
            sites[slot.site as int].subgraph.graph.nodes[slot.ordinal as int],
        ),
{
    let graph = sites[slot.site as int].subgraph.graph;
    let at = slot.ordinal as int;
    let node = graph.nodes[at];
    let known = node_names(graph.nodes);
    crate::graph_shape::known_successors(graph.nodes, graph.limits.parallelism);
    let sets = crate::graph_shape::successor_sets(node);
    assert forall|s: int, k: int|
        0 <= s < sets.len() && 0 <= k < sets[s].len() implies known.contains(
        #[trigger] sets[s][k],
    ) by {
        let name = sets[s][k];
        assert(sets[s].contains(name));
        crate::graph_shape::joined_holds(sets, name);
        assert(crate::graph_shape::successors(graph.nodes[at]).contains(name));
    }
    let head = crate::graph_shape::one_set(node.continue_to);
    if let Some(names) = node.continue_to {
        assert(sets[0] == names);
    }
    assert forall|i: int| 0 <= i < node.routes.len() implies names_known(
        sites,
        Place::Iteration { site: slot.site, iteration: slot.iteration },
        (#[trigger] node.routes[i]).successors,
    ) by {
        assert(sets[head.len() + i] == node.routes[i].successors);
    }
    if let Some(names) = node.wait_to {
        assert(sets[sets.len() - 1] == names);
    }
}

impl<'a> Expansion<'a> {
    /// Makes what a ready set becomes.
    fn remap_set(&self, place: Place, names: &ReadyNodes) -> (r: Result<
        ReadyNodes,
        GraphCompositionError,
    >)
        requires
            self.valid(),
            place_valid(views(self.sites@), place),
            names_known(views(self.sites@), place, names@),
        ensures
            match (
                r,
                remapped_set(
                    self.parent@,
                    views(self.sites@),
                    scope_of(views(self.sites@), place),
                    names@,
                ),
            ) {
                (Ok(ready), Some(set)) => ready@ == set,
                (Err(e), None) => e@ == CompositionFailure::ExpansionTooLarge,
                _ => false,
            },
    {
        let ghost models = views(self.sites@);
        let ghost scope = scope_of(models, place);
        let members = names.as_slice();
        let mut out: Vec<NodeId> = Vec::new();
        let mut k: usize = 0;
        proof {
            assert(names@.take(0) =~= Seq::<Seq<char>>::empty());
            assert(views(out@) =~= targets_of(self.parent@, models, scope, names@.take(0)));
        }
        while k < members.len()
            invariant
                self.valid(),
                models == views(self.sites@),
                scope == scope_of(models, place),
                place_valid(models, place),
                names_known(models, place, names@),
                views(members@) == names@,
                members@.len() == names@.len(),
                k <= members@.len(),
                views(out@) == targets_of(self.parent@, models, scope, names@.take(k as int)),
            decreases members@.len() - k,
        {
            proof {
                assert(names@[k as int] == members@[k as int]@);
                assert(names@.take(k + 1).drop_last() =~= names@.take(k as int));
            }
            match place {
                Place::Parent => {
                    self.push_parent_targets(&members[k], &mut out);
                },
                Place::Iteration { site, iteration } => {
                    self.push_child_targets(site, iteration, &members[k], &mut out);
                },
            }
            k = k + 1;
        }
        assert(names@.take(k as int) =~= names@);
        ready(&out)
    }

    /// Makes what an optional ready set becomes.
    fn remap_option(&self, place: Place, names: Option<&ReadyNodes>) -> (r: Result<
        Option<ReadyNodes>,
        GraphCompositionError,
    >)
        requires
            self.valid(),
            place_valid(views(self.sites@), place),
            names matches Some(set) ==> names_known(views(self.sites@), place, set@),
        ensures
            match (
                r,
                remapped_option(
                    self.parent@,
                    views(self.sites@),
                    scope_of(views(self.sites@), place),
                    option_ref_view(names),
                ),
            ) {
                (Ok(ready), Some(set)) => option_view(ready) == set,
                (Err(e), None) => e@ == CompositionFailure::ExpansionTooLarge,
                _ => false,
            },
    {
        match names {
            None => Ok(None),
            Some(set) => match self.remap_set(place, set) {
                Ok(ready) => Ok(Some(ready)),
                Err(e) => Err(e),
            },
        }
    }

    /// Makes what the routes of a node become.
    fn remap_routes(
        &self,
        place: Place,
        renames: Option<&GraphNodeSource>,
        node: &GraphNode,
    ) -> (r: Result<Vec<GraphRoute>, GraphCompositionError>)
        requires
            self.valid(),
            place_valid(views(self.sites@), place),
            node_known(views(self.sites@), place, node@),
        ensures
            match (
                r,
                remapped_routes(
                    self.parent@,
                    views(self.sites@),
                    scope_of(views(self.sites@), place),
                    renames_of(renames),
                    node@.routes,
                    node@.routes.len(),
                ),
            ) {
                (Ok(routes), Some(models)) => views(routes@) == models,
                (Err(e), None) => e@ == CompositionFailure::ExpansionTooLarge,
                _ => false,
            },
    {
        let ghost sites = views(self.sites@);
        let ghost scope = scope_of(sites, place);
        let ghost names = renames_of(renames);
        let ghost models = node@.routes;
        let routes = node.routes().iter();
        let mut made: Vec<GraphRoute> = Vec::new();
        let mut i: usize = 0;
        assert(views(made@) =~= Seq::<RouteModel>::empty());
        while i < routes.len()
            invariant
                self.valid(),
                sites == views(self.sites@),
                scope == scope_of(sites, place),
                names == renames_of(renames),
                models == node@.routes,
                place_valid(sites, place),
                node_known(sites, place, node@),
                views(routes@) == models,
                routes@.len() == models.len(),
                i <= routes@.len(),
                remapped_routes(self.parent@, sites, scope, names, models, i as nat) == Some(
                    views(made@),
                ),
            decreases routes@.len() - i,
        {
            let route = &routes[i];
            proof {
                assert(models[i as int] == route@);
                assert(names_known(sites, place, models[i as int].successors));
                if remapped_routes(
                    self.parent@,
                    sites,
                    scope,
                    names,
                    models,
                    (i + 1) as nat,
                ) is None {
                    remapped_routes_stop(
                        self.parent@,
                        sites,
                        scope,
                        names,
                        models,
                        (i + 1) as nat,
                        models.len(),
                    );
                }
            }
            let successors = self.remap_set(place, route.successors())?;
            let route_id = match renames {
                None => route.route_id().clone(),
                Some(source) => match source.route_id(route.route_id()) {
                    Some(generated) => generated.clone(),
                    None => route.route_id().clone(),
                },
            };
            assert(route_id@ == renamed(names, models[i as int].route_id));
            let ghost before = views(made@);
            match GraphRoute::new(route_id, successors) {
                Ok(route) => {
                    made.push(route);
                    assert(views(made@) =~= before.push(route@));
                },
                Err(_) => {
                    return Err(GraphCompositionError::ExpansionTooLarge);
                },
            }
            i = i + 1;
        }
        Ok(made)
    }

    /// Makes what a node becomes under a new identity.
    fn remap_node(
        &self,
        place: Place,
        renames: Option<&GraphNodeSource>,
        node: &GraphNode,
        node_id: NodeId,
    ) -> (r: Result<GraphNode, GraphCompositionError>)
        requires
            self.valid(),
            place_valid(views(self.sites@), place),
            node_known(views(self.sites@), place, node@),
        ensures
            match (
                r,
                remapped(
                    self.parent@,
                    views(self.sites@),
                    scope_of(views(self.sites@), place),
                    renames_of(renames),
                    node@,
                    node_id@,
                ),
            ) {
                (Ok(made), Some(model)) => made@ == model,
                (Err(e), None) => e@ == CompositionFailure::ExpansionTooLarge,
                _ => false,
            },
    {
        let routes = self.remap_routes(place, renames, node)?;
        let continue_to = self.remap_option(place, node.continue_to())?;
        let wait_to = self.remap_option(place, node.wait_to())?;
        let routes = match GraphRoutes::try_new(routes) {
            Ok(routes) => routes,
            Err(_) => {
                return Err(GraphCompositionError::ExpansionTooLarge);
            },
        };
        match GraphNode::new(node_id, continue_to, routes, wait_to, node.allows_terminal()) {
            Ok(made) => Ok(made),
            Err(_) => Err(GraphCompositionError::ExpansionTooLarge),
        }
    }
}

/// What the routes of a source become.
spec fn renames_of(source: Option<&GraphNodeSource>) -> Option<Seq<RenameModel>> {
    match source {
        Some(source) => Some(source@.routes),
        None => None,
    }
}

proof fn remapped_routes_stop(
    parent: GraphModel,
    sites: Seq<CallModel>,
    scope: Scope,
    renames: Option<Seq<RenameModel>>,
    routes: Seq<RouteModel>,
    n: nat,
    m: nat,
)
    requires
        0 < n <= m <= routes.len(),
        remapped_routes(parent, sites, scope, renames, routes, n) is None,
    ensures
        remapped_routes(parent, sites, scope, renames, routes, m) is None,
    decreases m,
{
    if n < m {
        remapped_routes_stop(parent, sites, scope, renames, routes, n, (m - 1) as nat);
    }
}

// ---------------------------------------------------------------------------
// Expansion
// ---------------------------------------------------------------------------

/// The job is one of the expansion.
spec fn job_valid(parent: GraphModel, sites: Seq<CallModel>, job: Job) -> bool {
    match job {
        Job::Keep { place } => place < parent.nodes.len(),
        Job::Copy { slot } => slot_valid(sites, slot),
    }
}

/// Appends the copies of one call.
fn push_site_jobs(
    slots: &Vec<Slot>,
    site: usize,
    out: &mut Vec<Job>,
    parent: Ghost<GraphModel>,
    sites: Ghost<Seq<CallModel>>,
)
    requires
        forall|k: int| 0 <= k < slots@.len() ==> slot_valid(sites@, #[trigger] slots@[k]),
        forall|k: int| 0 <= k < old(out)@.len() ==> job_valid(parent@, sites@, #[trigger] old(out)@[k]),
    ensures
        final(out)@ == old(out)@ + jobs_of_site(slots@, site as int),
        forall|k: int| 0 <= k < final(out)@.len() ==> job_valid(parent@, sites@, #[trigger] final(out)@[k]),
{
    let ghost before = out@;
    let mut i: usize = 0;
    proof {
        assert(slots@.take(0) =~= Seq::<Slot>::empty());
        assert(out@ =~= before + jobs_of_site(slots@.take(0), site as int));
    }
    while i < slots.len()
        invariant
            forall|k: int| 0 <= k < slots@.len() ==> slot_valid(sites@, #[trigger] slots@[k]),
            i <= slots@.len(),
            out@ == before + jobs_of_site(slots@.take(i as int), site as int),
            forall|k: int| 0 <= k < out@.len() ==> job_valid(parent@, sites@, #[trigger] out@[k]),
        decreases slots@.len() - i,
    {
        let slot = slots[i];
        assert(slots@.take(i + 1).drop_last() =~= slots@.take(i as int));
        assert(slots@.take(i + 1).last() == slot);
        if slot.site == site {
            out.push(Job::Copy { slot });
        }
        assert(out@ =~= before + jobs_of_site(slots@.take(i + 1), site as int));
        i = i + 1;
    }
    assert(slots@.take(i as int) =~= slots@);
}

/// Lists the nodes of the expansion.
fn list_jobs(parent: &CompiledGraph, sites: &Vec<GraphSubgraphCall>, slots: &Vec<Slot>) -> (r: Vec<
    Job,
>)
    requires
        ascending(keys::<GraphSubgraphCall>(views(sites@))),
        forall|k: int| 0 <= k < slots@.len() ==> slot_valid(views(sites@), #[trigger] slots@[k]),
    ensures
        r@ == jobs(parent@, views(sites@), slots@, parent@.nodes.len()),
        forall|k: int| 0 <= k < r@.len() ==> job_valid(parent@, views(sites@), #[trigger] r@[k]),
{
    let ghost models = views(sites@);
    let nodes = parent.nodes();
    let mut out: Vec<Job> = Vec::new();
    let mut n: usize = 0;
    assert(out@ =~= jobs(parent@, models, slots@, 0));
    while n < nodes.len()
        invariant
            models == views(sites@),
            ascending(keys::<GraphSubgraphCall>(models)),
            forall|k: int| 0 <= k < slots@.len() ==> slot_valid(models, #[trigger] slots@[k]),
            views(nodes@) == parent@.nodes,
            nodes@.len() == parent@.nodes.len(),
            n <= nodes@.len(),
            out@ == jobs(parent@, models, slots@, n as nat),
            forall|k: int| 0 <= k < out@.len() ==> job_valid(parent@, models, #[trigger] out@[k]),
        decreases nodes@.len() - n,
    {
        let ghost name = parent@.nodes[n as int].node_id;
        assert(parent@.nodes[n as int] == nodes@[n as int]@);
        match locate(sites.as_slice(), nodes[n].node_id().as_str()) {
            Ok(s) => {
                proof {
                    ascending_distinct(keys::<GraphSubgraphCall>(models));
                    site_place_at(models, s as int);
                }
                push_site_jobs(slots, s, &mut out, Ghost(parent@), Ghost(models));
            },
            Err(at) => {
                proof {
                    splits_excludes(keys::<GraphSubgraphCall>(models), name, at as int);
                    site_place_absent(models, name);
                }
                let ghost before = out@;
                out.push(Job::Keep { place: n });
                assert(out@ =~= before + seq![Job::Keep { place: n }]);
            },
        }
        n = n + 1;
    }
    out
}

proof fn remapped_jobs_stop(parent: GraphModel, sites: Seq<CallModel>, jobs: Seq<Job>, n: int)
    requires
        0 <= n <= jobs.len(),
        remapped_jobs(parent, sites, jobs.take(n)) is None,
    ensures
        remapped_jobs(parent, sites, jobs) is None,
    decreases jobs.len(),
{
    if n == jobs.len() {
        assert(jobs.take(n) =~= jobs);
    } else {
        assert(jobs.drop_last().take(n) =~= jobs.take(n));
        remapped_jobs_stop(parent, sites, jobs.drop_last(), n);
    }
}

impl<'a> Expansion<'a> {
    /// Makes one node of the expansion.
    fn make_node(&self, job: Job) -> (r: Result<GraphNode, GraphCompositionError>)
        requires
            self.valid(),
            job_valid(self.parent@, views(self.sites@), job),
        ensures
            match (r, remapped_job(self.parent@, views(self.sites@), job)) {
                (Ok(node), Some(model)) => node@ == model,
                (Err(e), None) => e@ == CompositionFailure::ExpansionTooLarge,
                _ => false,
            },
    {
        let ghost models = views(self.sites@);
        match job {
            Job::Keep { place } => {
                let nodes = self.parent.nodes();
                assert(self.parent@.nodes[place as int] == nodes@[place as int]@);
                let node = &nodes[place];
                self.remap_node(Place::Parent, None, node, node.node_id().clone())
            },
            Job::Copy { slot } => {
                let call = &self.sites[slot.site];
                assert(call@ == models[slot.site as int]);
                let nodes = call.subgraph().graph().nodes();
                let node = &nodes[slot.ordinal];
                proof {
                    assert(node@ == call@.subgraph.graph.nodes[slot.ordinal as int]);
                    assert(call_sound(models[slot.site as int]));
                    template_node_known(models, slot);
                }
                let entry = find_copy(
                    Ghost(self.parent@),
                    Ghost(models),
                    self.slots,
                    self.lowered,
                    slot,
                );
                self.remap_node(
                    Place::Iteration { site: slot.site, iteration: slot.iteration },
                    Some(entry.source()),
                    node,
                    entry.generated().clone(),
                )
            },
        }
    }

    /// Makes all nodes of the expansion.
    fn make_nodes(&self, jobs: &Vec<Job>) -> (r: Result<Vec<GraphNode>, GraphCompositionError>)
        requires
            self.valid(),
            forall|k: int|
                0 <= k < jobs@.len() ==> job_valid(
                    self.parent@,
                    views(self.sites@),
                    #[trigger] jobs@[k],
                ),
        ensures
            match (r, remapped_jobs(self.parent@, views(self.sites@), jobs@)) {
                (Ok(nodes), Some(models)) => views(nodes@) == models,
                (Err(e), None) => e@ == CompositionFailure::ExpansionTooLarge,
                _ => false,
            },
    {
        let ghost sites = views(self.sites@);
        let mut nodes: Vec<GraphNode> = Vec::new();
        let mut i: usize = 0;
        proof {
            assert(jobs@.take(0) =~= Seq::<Job>::empty());
            assert(views(nodes@) =~= Seq::<NodeModel>::empty());
        }
        while i < jobs.len()
            invariant
                self.valid(),
                sites == views(self.sites@),
                forall|k: int|
                    0 <= k < jobs@.len() ==> job_valid(self.parent@, sites, #[trigger] jobs@[k]),
                i <= jobs@.len(),
                remapped_jobs(self.parent@, sites, jobs@.take(i as int)) == Some(views(nodes@)),
            decreases jobs@.len() - i,
        {
            let ghost prefix = jobs@.take(i + 1);
            proof {
                assert(prefix.drop_last() =~= jobs@.take(i as int));
                assert(prefix.last() == jobs@[i as int]);
                if remapped_jobs(self.parent@, sites, prefix) is None {
                    remapped_jobs_stop(self.parent@, sites, jobs@, i + 1);
                }
            }
            let ghost before = views(nodes@);
            let node = self.make_node(jobs[i])?;
            nodes.push(node);
            assert(views(nodes@) =~= before.push(node@));
            i = i + 1;
        }
        assert(jobs@.take(i as int) =~= jobs@);
        Ok(nodes)
    }
}

/// Makes the nodes and the entry nodes of the expansion.
pub(crate) fn expand_nodes(
    parent: &CompiledGraph,
    sites: &Vec<GraphSubgraphCall>,
    slots: &Vec<Slot>,
    lowered: &Vec<SourceEntry>,
) -> (r: Result<(Vec<GraphNode>, ReadyNodes), GraphCompositionError>)
    requires
        copies_valid(parent@, views(sites@), slots@, views(lowered@)),
    ensures
        match (
            r,
            remapped_jobs(
                parent@,
                views(sites@),
                jobs(parent@, views(sites@), slots@, parent@.nodes.len()),
            ),
            remapped_set(parent@, views(sites@), Scope::Parent, parent@.entry_nodes),
        ) {
            (Ok((nodes, entries)), Some(models), Some(names)) => views(nodes@) == models
                && entries@ == names,
            (Err(e), models, names) => (models is None || names is None) && e@
                == CompositionFailure::ExpansionTooLarge,
            _ => false,
        },
{
    proof {
        copies_have_sites(parent@, views(sites@), slots@, views(lowered@));
    }
    let expansion = Expansion::new(parent, sites, slots, lowered)?;
    let list = list_jobs(parent, sites, slots);
    let nodes = expansion.make_nodes(&list)?;
    let entries = expansion.remap_set(Place::Parent, parent.entry_nodes())?;
    Ok((nodes, entries))
}

/// Compiles an expansion with everything else taken from the parent.
pub(crate) fn compile_expansion(parent: &CompiledGraph, entry_nodes: ReadyNodes, nodes: Vec<GraphNode>) -> (r:
    Result<CompiledGraph, GraphCompileError>)
    requires
        parent@.child_runs is None,
    ensures
        match (
            r,
            compiled(
                GraphModel {
                    entry_nodes: entry_nodes@,
                    nodes: views(nodes@),
                    definition_digest: Seq::empty(),
                    ..parent@
                },
                None,
            ),
        ) {
            (Ok(graph), Ok(model)) => graph@ == model,
            (Err(e), Err(expected)) => e@ == expected,
            _ => false,
        },
{
    CompiledGraph::compile(
        parent.identity().clone(),
        parent.input_schema().clone(),
        parent.state_schema().clone(),
        parent.update_schema().clone(),
        parent.output_schema().clone(),
        parent.reducer().clone(),
        entry_nodes,
        nodes,
        parent.limits(),
    )
}

/// Puts sources in the order of the generated names.
pub(crate) fn sort_sources(entries: Vec<SourceEntry>) -> (r: Vec<SourceEntry>)
    requires
        entry_names(views(entries@)).no_duplicates(),
    ensures
        views(r@) == arranged::<SourceEntry>(views(entries@)),
        ascending(entry_names(views(r@))),
{
    proof {
        crate::ordered::first_repeat_is_first(entry_names(views(entries@)));
    }
    let _count: usize = entries.len();
    match collect_unique(entries, usize::MAX) {
        Collection::All(sources) => sources,
        _ => Vec::new(),
    }
}

} // verus!
