//! Compositions: graphs that call subgraph templates.

use vstd::prelude::*;

use crate::composition_model::{composed, entry_names, expanded, CompositionModel, EntryModel};
use crate::debug::{
    entry_string, entry_text, is_alternate, map_string, map_text, name_text, struct_string,
    struct_text, write_text,
};
use crate::expansion::{compile_expansion, expand_nodes, sort_sources};
use crate::graph::{graph_shown, CompiledGraph};
use crate::graph_composition::{
    collect_calls, lower, sites_valid, source_model_shown, GraphNodeSource, GraphSubgraphCall,
    SourceEntry,
};
use crate::names::NodeId;
use crate::ordered::{ascending, find, lookup, views};
use crate::template::GraphCompositionError;
use crate::text::texts;

verus! {

/// A graph made of a parent and the templates it calls, with the sources of
/// its generated nodes.
pub struct GraphComposition {
    graph: CompiledGraph,
    sources: Vec<SourceEntry>,
}

impl View for GraphComposition {
    type V = CompositionModel;

    closed spec fn view(&self) -> CompositionModel {
        CompositionModel { graph: self.graph@, sources: views(self.sources@) }
    }
}

/// Expands calls in the order of their sites.
fn expand(parent: &CompiledGraph, sites: Vec<GraphSubgraphCall>) -> (r: Result<
    GraphComposition,
    GraphCompositionError,
>)
    requires
        parent@.child_runs is None,
        sites_valid(parent@, views(sites@)),
    ensures
        match (r, expanded(parent@, views(sites@))) {
            (Ok(composition), Ok(model)) => composition@ == model,
            (Err(e), Err(expected)) => e@ == expected,
            _ => false,
        },
{
    let (slots, lowered) = lower(parent, &sites)?;
    let (nodes, entry_nodes) = expand_nodes(parent, &sites, &slots, &lowered)?;
    match compile_expansion(parent, entry_nodes, nodes) {
        Ok(graph) => Ok(GraphComposition { graph, sources: sort_sources(lowered) }),
        Err(e) => Err(GraphCompositionError::Graph(e)),
    }
}

impl GraphComposition {
    /// The sources are in the order of the generated names.
    #[verifier::type_invariant]
    pub open spec fn well_formed(&self) -> bool {
        ascending(entry_names(self@.sources))
    }

    /// Replaces every call site by the copies of its template.
    pub fn compile(parent: CompiledGraph, calls: Vec<GraphSubgraphCall>) -> (r: Result<
        GraphComposition,
        GraphCompositionError,
    >)
        ensures
            match (r, composed(parent@, views(calls@))) {
                (Ok(composition), Ok(model)) => composition@ == model,
                (Err(e), Err(expected)) => e@ == expected,
                _ => false,
            },
    {
        let ghost call_models = views(calls@);
        let sites = collect_calls(&parent, calls)?;
        if sites.len() == 0 {
            let sources: Vec<SourceEntry> = Vec::new();
            assert(views(sources@) =~= Seq::<EntryModel>::empty());
            return Ok(GraphComposition { graph: parent, sources });
        }
        if parent.child_runs().is_some() {
            return Err(GraphCompositionError::ChildDelegationUnsupported);
        }
        expand(&parent, sites)
    }

    /// Returns the composed graph.
    pub fn graph(&self) -> (r: &CompiledGraph)
        ensures
            r@ == self@.graph,
    {
        &self.graph
    }

    /// Returns the generated nodes and their sources, in the order of names.
    pub fn node_sources(&self) -> (r: &[SourceEntry])
        ensures
            views(r@) == self@.sources,
            r@.len() == self@.sources.len(),
            self.well_formed(),
    {
        proof {
            use_type_invariant(self);
        }
        self.sources.as_slice()
    }

    /// Looks the source of a generated node up. Nodes of the parent have none.
    pub fn node_source(&self, node_id: &NodeId) -> (r: Option<&GraphNodeSource>)
        ensures
            match (r, find::<SourceEntry>(self@.sources, node_id@)) {
                (Some(source), Some(entry)) => source@ == entry.source,
                (None, None) => true,
                _ => false,
            },
    {
        proof {
            use_type_invariant(self);
        }
        match lookup(self.sources.as_slice(), node_id.as_str()) {
            Some(entry) => Some(entry.source()),
            None => None,
        }
    }

    /// Gives the composed graph away.
    pub fn into_graph(self) -> (r: CompiledGraph)
        ensures
            r@ == self@.graph,
    {
        self.graph
    }
}

// ---------------------------------------------------------------------------
// Debug output
// ---------------------------------------------------------------------------

/// What is shown of generated nodes and where they come from.
pub open spec fn source_texts(models: Seq<EntryModel>, alternate: bool) -> Seq<Seq<char>> {
    Seq::new(
        models.len(),
        |i: int|
            entry_text(
                name_text("NodeId"@, models[i].generated, alternate),
                source_model_shown(models[i].source, alternate),
            ),
    )
}

fn source_strings(items: &[SourceEntry], alternate: bool) -> (r: Vec<String>)
    ensures
        texts(r@) == source_texts(views(items@), alternate),
{
    let ghost shown = source_texts(views(items@), alternate);
    let mut out: Vec<String> = Vec::new();
    let mut i: usize = 0;
    while i < items.len()
        invariant
            i <= items@.len(),
            shown == source_texts(views(items@), alternate),
            out@.len() == i,
            forall|j: int| 0 <= j < i ==> (#[trigger] out@[j])@ == shown[j],
        decreases items@.len() - i,
    {
        let item = &items[i];
        out.push(entry_string(
            item.generated().debug_text(alternate).as_str(),
            item.source().debug_text(alternate),
        ));
        i = i + 1;
    }
    assert(texts(out@) =~= shown);
    out
}

/// The fields that are shown of a composition.
pub open spec fn composition_fields(model: CompositionModel, alternate: bool) -> Seq<Seq<char>> {
    seq![
        entry_text("graph"@, graph_shown(model.graph, alternate)),
        entry_text("sources"@, map_text(source_texts(model.sources, alternate), alternate)),
    ]
}

/// What is shown of a composition.
pub open spec fn composition_shown(model: CompositionModel, alternate: bool) -> Seq<char> {
    struct_text("GraphComposition"@, composition_fields(model, alternate), false, alternate)
}

impl GraphComposition {
    /// Returns what is shown of it for debugging.
    pub fn debug_text(&self, alternate: bool) -> (r: String)
        ensures
            r@ == composition_shown(self@, alternate),
    {
        let fields = vec![
            entry_string("graph", self.graph.debug_text(alternate)),
            entry_string(
                "sources",
                map_string(&source_strings(self.sources.as_slice(), alternate), alternate),
            ),
        ];
        assert(texts(fields@) =~= composition_fields(self@, alternate));
        struct_string("GraphComposition", &fields, false, alternate)
    }
}

impl core::fmt::Debug for GraphComposition {
    fn fmt(&self, formatter: &mut core::fmt::Formatter<'_>) -> core::fmt::Result {
        let alternate: bool = is_alternate(formatter);
        write_text(formatter, self.debug_text(alternate).as_str())
    }
}

} // verus!
