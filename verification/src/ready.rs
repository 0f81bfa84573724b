//! Ready sets and supersteps of a graph run.

use vstd::prelude::*;

use crate::debug::{
    is_alternate, list_string, list_text, name_text, tuple_string, tuple_text, write_text,
};
use crate::decimal::{decimal_string, decimal_text};
use crate::json_value::{Json, JsonValue};
use crate::names::NodeId;
use crate::ordered::{
    ascending, collect_unique, collection, holds, keys, views, Collected, Collection,
};
use crate::text::texts;

verus! {

/// The number of a barrier of a run, counted from zero.
#[derive(Clone, Copy, PartialEq, Eq, PartialOrd, Ord, Hash, Structural)]
pub struct Superstep {
    number: u64,
}

/// A superstep beyond the storage maximum.
#[derive(Clone, Copy, Debug, PartialEq, Eq, Structural)]
pub struct SuperstepError;

impl View for Superstep {
    type V = u64;

    closed spec fn view(&self) -> u64 {
        self.number
    }
}

impl Superstep {
    /// The number fits a signed 64-bit column.
    #[verifier::type_invariant]
    pub open spec fn well_formed(&self) -> bool {
        self@ <= 9223372036854775807
    }

    /// A superstep is its number.
    pub broadcast proof fn view_determines(a: Superstep, b: Superstep)
        ensures
            #![trigger a.view(), b.view()]
            a.view() == b.view() ==> a == b,
    {
    }

    /// Numbers a superstep.
    pub fn new(number: u64) -> (r: Result<Superstep, SuperstepError>)
        ensures
            r is Ok <==> number <= 9223372036854775807,
            r matches Ok(step) ==> step@ == number,
    {
        if number > 9223372036854775807 {
            return Err(SuperstepError);
        }
        Ok(Superstep { number })
    }

    /// Returns the number of the initial checkpoint.
    pub fn initial() -> (r: Superstep)
        ensures
            r@ == 0,
    {
        Superstep { number: 0 }
    }

    /// Returns the number.
    pub fn get(self) -> (r: u64)
        ensures
            r == self@,
            self.well_formed(),
    {
        proof {
            use_type_invariant(&self);
        }
        self.number
    }

    /// Returns the next superstep, where there is one.
    pub fn checked_next(self) -> (r: Option<Superstep>)
        ensures
            r is Some <==> self@ < 9223372036854775807,
            r matches Some(next) ==> next@ == self@ + 1,
    {
        proof {
            use_type_invariant(&self);
        }
        if self.number == 9223372036854775807 {
            None
        } else {
            Some(Superstep { number: self.number + 1 })
        }
    }

    /// Writes the decimal text.
    pub fn to_string(&self) -> (r: String)
        ensures
            r@ == decimal_text(self@ as nat),
    {
        decimal_string(self.number)
    }
}

/// A set of nodes that are ready to run, in the order of their names.
pub struct ReadyNodes {
    nodes: Vec<NodeId>,
}

/// Rejected ready set.
#[derive(Debug, PartialEq, Eq)]
pub enum ReadyNodesError {
    /// There are more nodes than the maximum.
    TooMany { maximum: usize, actual: usize },
    /// This node occurs twice.
    Duplicate { node_id: NodeId },
}

/// What holds of every ready set.
pub open spec fn ready_sound(names: Seq<Seq<char>>) -> bool {
    &&& ascending(names)
    &&& names.len() <= 1024
    &&& forall|i: int| 0 <= i < names.len() ==> node_name_sound(#[trigger] names[i])
}

/// What holds of every node name.
pub open spec fn node_name_sound(name: Seq<char>) -> bool {
    crate::names::plain_name_check(vstd::utf8::encode_utf8(name)) is Ok
}

/// Node names are their own keys.
pub broadcast proof fn node_keys(names: Seq<Seq<char>>)
    ensures
        #[trigger] keys::<NodeId>(names) == names,
{
    assert(keys::<NodeId>(names) =~= names);
}

/// The JSON form of a list of names.
pub open spec fn names_json(names: Seq<Seq<char>>) -> Json {
    Json::Array(Seq::new(names.len(), |i: int| Json::Text(names[i])))
}

impl View for ReadyNodes {
    type V = Seq<Seq<char>>;

    closed spec fn view(&self) -> Seq<Seq<char>> {
        views(self.nodes@)
    }
}

impl ReadyNodes {
    /// Maximum number of nodes.
    pub const MAX_LEN: usize = 1024;

    /// The nodes are in order, none twice, and not too many.
    #[verifier::type_invariant]
    pub open spec fn well_formed(&self) -> bool {
        ready_sound(self@)
    }

    /// Collects a ready set.
    pub fn try_new(nodes: Vec<NodeId>) -> (r: Result<ReadyNodes, ReadyNodesError>)
        ensures
            match (r, collection::<NodeId>(views(nodes@), 1024)) {
                (Ok(ready), Collected::All(names)) => ready@ == names,
                (Err(ReadyNodesError::Duplicate { node_id }), Collected::Repeats(name)) => node_id@
                    == name,
                (
                    Err(ReadyNodesError::TooMany { maximum, actual }),
                    Collected::TooMany,
                ) => maximum == 1024 && actual == 1025,
                _ => false,
            },
    {
        broadcast use node_keys;

        match collect_unique(nodes, 1024) {
            Collection::All(nodes) => Ok(ReadyNodes { nodes }),
            Collection::Repeats(node_id) => Err(ReadyNodesError::Duplicate { node_id }),
            Collection::TooMany => Err(ReadyNodesError::TooMany { maximum: 1024, actual: 1025 }),
        }
    }

    /// Returns the number of nodes.
    pub fn len(&self) -> (r: usize)
        ensures
            r == self@.len(),
            self.well_formed(),
    {
        proof {
            use_type_invariant(self);
        }
        self.nodes.len()
    }

    /// Tests whether there is no node.
    pub fn is_empty(&self) -> (r: bool)
        ensures
            r == (self@.len() == 0),
            self.well_formed(),
    {
        proof {
            use_type_invariant(self);
        }
        self.nodes.len() == 0
    }

    /// Returns the nodes in order.
    pub fn as_slice(&self) -> (r: &[NodeId])
        ensures
            views(r@) == self@,
            r@.len() == self@.len(),
            self.well_formed(),
    {
        proof {
            use_type_invariant(self);
        }
        self.nodes.as_slice()
    }

    /// Tests whether the node is in the set.
    pub fn contains(&self, node_id: &NodeId) -> (r: bool)
        ensures
            r == self@.contains(node_id@),
    {
        broadcast use node_keys;

        proof {
            use_type_invariant(self);
        }
        holds(self.nodes.as_slice(), node_id.as_str())
    }

    /// Writes the JSON form.
    pub fn to_json(&self) -> (r: JsonValue)
        ensures
            r@ == names_json(self@),
    {
        let mut items: Vec<JsonValue> = Vec::new();
        let mut i: usize = 0;
        while i < self.nodes.len()
            invariant
                i <= self.nodes@.len(),
                items@.len() == i,
                forall|j: int|
                    0 <= j < i ==> (#[trigger] items@[j])@ == Json::Text(self.nodes@[j]@),
            decreases self.nodes@.len() - i,
        {
            items.push(JsonValue::text(self.nodes[i].as_str()));
            i = i + 1;
        }
        let r = JsonValue::array(items);
        assert(r@->Array_0 =~= names_json(self@)->Array_0);
        r
    }
}

/// Copies a list of names.
pub fn copy_nodes(nodes: &[NodeId]) -> (r: Vec<NodeId>)
    ensures
        views(r@) == views(nodes@),
{
    let mut copies: Vec<NodeId> = Vec::new();
    let mut i: usize = 0;
    while i < nodes.len()
        invariant
            i <= nodes@.len(),
            copies@.len() == i,
            forall|j: int| 0 <= j < i ==> #[trigger] copies@[j] == nodes@[j],
        decreases nodes@.len() - i,
    {
        copies.push(nodes[i].clone());
        i = i + 1;
    }
    assert(views(copies@) =~= views(nodes@));
    copies
}

impl Clone for ReadyNodes {
    fn clone(&self) -> (r: Self)
        ensures
            r@ == self@,
    {
        proof {
            use_type_invariant(self);
        }
        ReadyNodes { nodes: copy_nodes(self.nodes.as_slice()) }
    }
}

impl PartialEq for ReadyNodes {
    fn eq(&self, other: &Self) -> (r: bool) {
        if self.nodes.len() != other.nodes.len() {
            assert(self@.len() != other@.len());
            return false;
        }
        let mut i: usize = 0;
        while i < self.nodes.len()
            invariant
                i <= self.nodes@.len() == other.nodes@.len(),
                forall|j: int| 0 <= j < i ==> #[trigger] self@[j] == other@[j],
            decreases self.nodes@.len() - i,
        {
            if self.nodes[i] != other.nodes[i] {
                assert(self@[i as int] != other@[i as int]);
                return false;
            }
            i = i + 1;
        }
        assert(self@ =~= other@);
        true
    }
}

impl vstd::std_specs::cmp::PartialEqSpecImpl for ReadyNodes {
    open spec fn obeys_eq_spec() -> bool {
        true
    }

    open spec fn eq_spec(&self, other: &Self) -> bool {
        self@ == other@
    }
}

impl Eq for ReadyNodes {

}

/// Copies an optional ready set.
pub fn copy_ready(ready: &Option<ReadyNodes>) -> (r: Option<ReadyNodes>)
    ensures
        crate::options::option_view(r) == crate::options::option_view(*ready),
{
    match ready {
        Some(nodes) => Some(nodes.clone()),
        None => None,
    }
}

/// Tests two optional ready sets for equality.
pub fn same_ready(a: &Option<ReadyNodes>, b: &Option<ReadyNodes>) -> (r: bool)
    ensures
        r == (crate::options::option_view(*a) == crate::options::option_view(*b)),
{
    match (a, b) {
        (Some(a), Some(b)) => *a == *b,
        (None, None) => true,
        _ => false,
    }
}

// ---------------------------------------------------------------------------
// Debug output
// ---------------------------------------------------------------------------

impl Superstep {
    /// Returns what is shown of it for debugging.
    pub fn debug_text(&self, alternate: bool) -> (r: String)
        ensures
            r@ == tuple_text("Superstep"@, decimal_text(self@ as nat), alternate),
    {
        tuple_string("Superstep", decimal_string(self.number), alternate)
    }
}

impl core::fmt::Debug for Superstep {
    fn fmt(&self, formatter: &mut core::fmt::Formatter<'_>) -> core::fmt::Result {
        let alternate: bool = is_alternate(formatter);
        write_text(formatter, self.debug_text(alternate).as_str())
    }
}

/// What is shown of nodes.
pub open spec fn node_texts(models: Seq<Seq<char>>, alternate: bool) -> Seq<Seq<char>> {
    Seq::new(models.len(), |i: int| name_text("NodeId"@, models[i], alternate))
}

pub(crate) fn node_strings(items: &[NodeId], alternate: bool) -> (r: Vec<String>)
    ensures
        texts(r@) == node_texts(views(items@), alternate),
{
    let ghost shown = node_texts(views(items@), alternate);
    let mut out: Vec<String> = Vec::new();
    let mut i: usize = 0;
    while i < items.len()
        invariant
            i <= items@.len(),
            shown == node_texts(views(items@), alternate),
            out@.len() == i,
            forall|j: int| 0 <= j < i ==> (#[trigger] out@[j])@ == shown[j],
        decreases items@.len() - i,
    {
        let item = &items[i];
        out.push(item.debug_text(alternate));
        i = i + 1;
    }
    assert(texts(out@) =~= shown);
    out
}

/// What is shown of a ready set.
pub open spec fn ready_shown(names: Seq<Seq<char>>, alternate: bool) -> Seq<char> {
    tuple_text("ReadyNodes"@, list_text(node_texts(names, alternate), alternate), alternate)
}

impl ReadyNodes {
    /// Returns what is shown of it for debugging.
    pub fn debug_text(&self, alternate: bool) -> (r: String)
        ensures
            r@ == ready_shown(self@, alternate),
    {
        let nodes = node_strings(self.nodes.as_slice(), alternate);
        tuple_string("ReadyNodes", list_string(&nodes, alternate), alternate)
    }
}

impl core::fmt::Debug for ReadyNodes {
    fn fmt(&self, formatter: &mut core::fmt::Formatter<'_>) -> core::fmt::Result {
        let alternate: bool = is_alternate(formatter);
        write_text(formatter, self.debug_text(alternate).as_str())
    }
}

} // verus!
