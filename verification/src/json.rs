//! Resource-bounded JSON values.

use vstd::prelude::*;
use vstd::utf8::encode_utf8;

use crate::debug::{
    entry_string, entry_text, is_alternate, number_string, struct_string, struct_text, write_text,
};
use crate::decimal::decimal_text;
use crate::json_value::{
    container_view, escape_costs, items_view, json_alike, larger, members_view, number_text, separator_size,
    string_size, Json, JsonMember, JsonValue, Member,
};
use crate::json_laws::{
    accepted_exactly_within_limits, in_order, measure, narrower, normal_is_in_order,
    rebuilding_is_idempotent, wider_limits_accept_more,
};
use crate::ordered::{ascending, holds, insert_new, keys, placed, views, Keyed};
use crate::text::{texts, utf8_len};

verus! {

// ---------------------------------------------------------------------------
// Limits
// ---------------------------------------------------------------------------

/// A dimension in which JSON is bounded.
#[derive(Clone, Copy, Debug, PartialEq, Eq, Hash, Structural)]
pub enum JsonLimit {
    /// Bytes of the input and of the compact text.
    Bytes,
    /// Nesting of arrays and objects.
    Depth,
    /// Entries of one array or object.
    ContainerEntries,
    /// Values, not counting member names.
    Nodes,
    /// Bytes of one string.
    StringBytes,
    /// Bytes of one member name.
    ObjectKeyBytes,
}

impl JsonLimit {
    /// Returns the name of the dimension.
    pub fn to_string(&self) -> (r: String)
        ensures
            r@ == json_limit_text(*self),
    {
        let name: &str = match self {
            JsonLimit::Bytes => "JSON bytes",
            JsonLimit::Depth => "JSON nesting depth",
            JsonLimit::ContainerEntries => "JSON container entries",
            JsonLimit::Nodes => "JSON value nodes",
            JsonLimit::StringBytes => "JSON string bytes",
            JsonLimit::ObjectKeyBytes => "JSON object-key bytes",
        };
        name.to_owned()
    }
}

/// The name of a dimension.
pub open spec fn json_limit_text(limit: JsonLimit) -> Seq<char> {
    match limit {
        JsonLimit::Bytes => "JSON bytes"@,
        JsonLimit::Depth => "JSON nesting depth"@,
        JsonLimit::ContainerEntries => "JSON container entries"@,
        JsonLimit::Nodes => "JSON value nodes"@,
        JsonLimit::StringBytes => "JSON string bytes"@,
        JsonLimit::ObjectKeyBytes => "JSON object-key bytes"@,
    }
}

/// The bounds of [`JsonLimits`].
pub ghost struct LimitsModel {
    pub max_bytes: usize,
    pub max_depth: usize,
    pub max_container_entries: usize,
    pub max_nodes: usize,
    pub max_string_bytes: usize,
    pub max_object_key_bytes: usize,
}

/// The bounds of ordinary values.
pub open spec fn default_limits() -> LimitsModel {
    LimitsModel {
        max_bytes: 262144,
        max_depth: 32,
        max_container_entries: 1024,
        max_nodes: 16384,
        max_string_bytes: 65536,
        max_object_key_bytes: 256,
    }
}

/// The bounds that no configuration exceeds.
pub open spec fn maximum_limits() -> LimitsModel {
    LimitsModel {
        max_bytes: 2097152,
        max_depth: 64,
        max_container_entries: 8192,
        max_nodes: 131072,
        max_string_bytes: 1048576,
        max_object_key_bytes: 1024,
    }
}

/// Each bound is positive and at most the maximum.
pub open spec fn limits_within_maximum(limits: LimitsModel) -> bool {
    &&& 1 <= limits.max_bytes <= 2097152
    &&& 1 <= limits.max_depth <= 64
    &&& 1 <= limits.max_container_entries <= 8192
    &&& 1 <= limits.max_nodes <= 131072
    &&& 1 <= limits.max_string_bytes <= 1048576
    &&& 1 <= limits.max_object_key_bytes <= 1024
}

/// Validated bounds on JSON values, none above the hard maximum.
#[derive(Clone, Copy, Debug, PartialEq, Eq, Hash, Structural)]
pub struct JsonLimits {
    max_bytes: usize,
    max_depth: usize,
    max_container_entries: usize,
    max_nodes: usize,
    max_string_bytes: usize,
    max_object_key_bytes: usize,
}

/// Rejected bounds.
#[derive(Clone, Copy, Debug, PartialEq, Eq, Structural)]
pub enum JsonLimitsError {
    /// The bound of this dimension is zero.
    Zero { limit: JsonLimit },
    /// The bound of this dimension exceeds the hard maximum.
    AboveHardMaximum { limit: JsonLimit, maximum: usize, actual: usize },
}

/// What the rules say of one bound.
pub open spec fn limit_check(limit: JsonLimit, actual: usize, maximum: usize) -> Result<
    (),
    JsonLimitsError,
> {
    if actual == 0 {
        Err(JsonLimitsError::Zero { limit })
    } else if actual > maximum {
        Err(JsonLimitsError::AboveHardMaximum { limit, maximum, actual })
    } else {
        Ok(())
    }
}

/// What the rules say of all bounds: the first that fails, in the order of the
/// dimensions.
pub open spec fn limits_check(limits: LimitsModel) -> Result<(), JsonLimitsError> {
    let maximum = maximum_limits();
    let bytes = limit_check(JsonLimit::Bytes, limits.max_bytes, maximum.max_bytes);
    let depth = limit_check(JsonLimit::Depth, limits.max_depth, maximum.max_depth);
    let entries = limit_check(
        JsonLimit::ContainerEntries,
        limits.max_container_entries,
        maximum.max_container_entries,
    );
    let nodes = limit_check(JsonLimit::Nodes, limits.max_nodes, maximum.max_nodes);
    let strings = limit_check(
        JsonLimit::StringBytes,
        limits.max_string_bytes,
        maximum.max_string_bytes,
    );
    let keys = limit_check(
        JsonLimit::ObjectKeyBytes,
        limits.max_object_key_bytes,
        maximum.max_object_key_bytes,
    );
    if bytes is Err {
        bytes
    } else if depth is Err {
        depth
    } else if entries is Err {
        entries
    } else if nodes is Err {
        nodes
    } else if strings is Err {
        strings
    } else {
        keys
    }
}

fn validate_configured_limit(limit: JsonLimit, actual: usize, maximum: usize) -> (r: Result<
    (),
    JsonLimitsError,
>)
    ensures
        r == limit_check(limit, actual, maximum),
{
    if actual == 0 {
        return Err(JsonLimitsError::Zero { limit });
    }
    if actual > maximum {
        return Err(JsonLimitsError::AboveHardMaximum { limit, maximum, actual });
    }
    Ok(())
}

impl JsonLimits {
    /// The bounds.
    pub closed spec fn view(&self) -> LimitsModel {
        LimitsModel {
            max_bytes: self.max_bytes,
            max_depth: self.max_depth,
            max_container_entries: self.max_container_entries,
            max_nodes: self.max_nodes,
            max_string_bytes: self.max_string_bytes,
            max_object_key_bytes: self.max_object_key_bytes,
        }
    }

    /// Each bound is positive and at most the maximum.
    #[verifier::type_invariant]
    pub open spec fn well_formed(&self) -> bool {
        limits_within_maximum(self@)
    }

    /// Limits are their bounds.
    pub broadcast proof fn view_determines(a: JsonLimits, b: JsonLimits)
        ensures
            #![trigger a.view(), b.view()]
            a.view() == b.view() ==> a == b,
    {
    }

    /// Returns the bounds that no configuration exceeds.
    pub fn maximum() -> (r: JsonLimits)
        ensures
            r@ == maximum_limits(),
    {
        JsonLimits {
            max_bytes: 2097152,
            max_depth: 64,
            max_container_entries: 8192,
            max_nodes: 131072,
            max_string_bytes: 1048576,
            max_object_key_bytes: 1024,
        }
    }

    /// Validates bounds.
    pub fn try_new(
        max_bytes: usize,
        max_depth: usize,
        max_container_entries: usize,
        max_nodes: usize,
        max_string_bytes: usize,
        max_object_key_bytes: usize,
    ) -> (r: Result<JsonLimits, JsonLimitsError>)
        ensures
            ({
                let model = LimitsModel {
                    max_bytes,
                    max_depth,
                    max_container_entries,
                    max_nodes,
                    max_string_bytes,
                    max_object_key_bytes,
                };
                match (r, limits_check(model)) {
                    (Ok(limits), Ok(())) => limits@ == model,
                    (Err(e), Err(expected)) => e == expected,
                    _ => false,
                }
            }),
    {
        validate_configured_limit(JsonLimit::Bytes, max_bytes, 2097152)?;
        validate_configured_limit(JsonLimit::Depth, max_depth, 64)?;
        validate_configured_limit(JsonLimit::ContainerEntries, max_container_entries, 8192)?;
        validate_configured_limit(JsonLimit::Nodes, max_nodes, 131072)?;
        validate_configured_limit(JsonLimit::StringBytes, max_string_bytes, 1048576)?;
        validate_configured_limit(JsonLimit::ObjectKeyBytes, max_object_key_bytes, 1024)?;
        Ok(
            JsonLimits {
                max_bytes,
                max_depth,
                max_container_entries,
                max_nodes,
                max_string_bytes,
                max_object_key_bytes,
            },
        )
    }

    /// Returns the bound on input and compact bytes.
    pub fn max_bytes(self) -> (r: usize)
        ensures
            r == self@.max_bytes,
    {
        self.max_bytes
    }

    /// Returns the bound on nesting.
    pub fn max_depth(self) -> (r: usize)
        ensures
            r == self@.max_depth,
    {
        self.max_depth
    }

    /// Returns the bound on the entries of one container.
    pub fn max_container_entries(self) -> (r: usize)
        ensures
            r == self@.max_container_entries,
    {
        self.max_container_entries
    }

    /// Returns the bound on values.
    pub fn max_nodes(self) -> (r: usize)
        ensures
            r == self@.max_nodes,
    {
        self.max_nodes
    }

    /// Returns the bound on the bytes of one string.
    pub fn max_string_bytes(self) -> (r: usize)
        ensures
            r == self@.max_string_bytes,
    {
        self.max_string_bytes
    }

    /// Returns the bound on the bytes of one member name.
    pub fn max_object_key_bytes(self) -> (r: usize)
        ensures
            r == self@.max_object_key_bytes,
    {
        self.max_object_key_bytes
    }
}

impl Default for JsonLimits {
    fn default() -> (r: Self)
        ensures
            r@ == default_limits(),
    {
        JsonLimits {
            max_bytes: 262144,
            max_depth: 32,
            max_container_entries: 1024,
            max_nodes: 16384,
            max_string_bytes: 65536,
            max_object_key_bytes: 256,
        }
    }
}

// ---------------------------------------------------------------------------
// Accounting
// ---------------------------------------------------------------------------

/// What has been counted of a value.
pub ghost struct Tally {
    pub bytes: nat,
    pub depth: nat,
    pub nodes: nat,
}

/// Nothing has been counted.
pub open spec fn empty_tally() -> Tally {
    Tally { bytes: 0, depth: 0, nodes: 0 }
}

/// The tally exceeds no bound.
pub open spec fn tally_within(limits: LimitsModel, tally: Tally) -> bool {
    &&& tally.bytes <= limits.max_bytes
    &&& tally.depth <= limits.max_depth
    &&& tally.nodes <= limits.max_nodes
}

/// Aggregate statistics of a bounded value.
#[derive(Clone, Copy, PartialEq, Eq, Hash, Structural)]
pub struct JsonStats {
    compact_bytes: usize,
    max_depth: usize,
    nodes: usize,
}

impl JsonStats {
    /// The statistics.
    pub closed spec fn view(&self) -> Tally {
        Tally {
            bytes: self.compact_bytes as nat,
            depth: self.max_depth as nat,
            nodes: self.nodes as nat,
        }
    }

    /// Returns the bytes of the compact text.
    pub fn compact_bytes(self) -> (r: usize)
        ensures
            r == self@.bytes,
    {
        self.compact_bytes
    }

    /// Returns the nesting depth.
    pub fn max_depth(self) -> (r: usize)
        ensures
            r == self@.depth,
    {
        self.max_depth
    }

    /// Returns the number of values.
    pub fn nodes(self) -> (r: usize)
        ensures
            r == self@.nodes,
    {
        self.nodes
    }
}

/// Rejected JSON.
#[derive(Clone, Copy, Debug, PartialEq, Eq, Structural)]
pub enum BoundedJsonError {
    /// The input has too many bytes.
    InputTooLarge { maximum: usize, actual: usize },
    /// The compact text has too many bytes.
    CompactRepresentationTooLarge { maximum: usize, actual: usize },
    /// Containers nest too deep.
    NestingTooDeep { maximum: usize, actual: usize },
    /// A container has too many entries.
    TooManyContainerEntries { maximum: usize, actual: usize },
    /// There are too many values.
    TooManyNodes { maximum: usize, actual: usize },
    /// A string has too many bytes.
    StringTooLong { maximum: usize, actual: usize },
    /// A member name has too many bytes.
    ObjectKeyTooLong { maximum: usize, actual: usize },
    /// Two members of an object have one name.
    DuplicateObjectKey,
    /// A number is not finite.
    NonFiniteNumber,
    /// An integer has more than 64 bits.
    NumberOutOfRange,
    /// The text is no JSON.
    InvalidJson { line: usize, column: usize },
}

/// The number, or the largest that the machine holds.
pub open spec fn capped(n: nat) -> usize {
    if n > usize::MAX {
        usize::MAX
    } else {
        n as usize
    }
}

/// One more value.
pub open spec fn count_node(limits: LimitsModel, tally: Tally) -> Result<Tally, BoundedJsonError> {
    if tally.nodes + 1 > limits.max_nodes {
        Err(
            BoundedJsonError::TooManyNodes {
                maximum: limits.max_nodes,
                actual: (tally.nodes + 1) as usize,
            },
        )
    } else {
        Ok(Tally { nodes: tally.nodes + 1, ..tally })
    }
}

/// More bytes of compact text.
pub open spec fn count_bytes(limits: LimitsModel, tally: Tally, more: nat) -> Result<
    Tally,
    BoundedJsonError,
> {
    if tally.bytes + more > limits.max_bytes {
        Err(
            BoundedJsonError::CompactRepresentationTooLarge {
                maximum: limits.max_bytes,
                actual: capped(tally.bytes + more),
            },
        )
    } else {
        Ok(Tally { bytes: tally.bytes + more, ..tally })
    }
}

/// A container opens, below so many others; its brackets take two bytes.
pub open spec fn count_container(limits: LimitsModel, tally: Tally, above: nat) -> Result<
    Tally,
    BoundedJsonError,
> {
    if above + 1 > limits.max_depth {
        Err(
            BoundedJsonError::NestingTooDeep {
                maximum: limits.max_depth,
                actual: capped(above + 1),
            },
        )
    } else {
        count_bytes(limits, Tally { depth: larger(tally.depth, above + 1), ..tally }, 2)
    }
}

/// What is counted once a container was refused: its depth, unless that was
/// why.
pub open spec fn after_refused_container(limits: LimitsModel, tally: Tally, above: nat) -> Tally {
    if above + 1 > limits.max_depth {
        tally
    } else {
        Tally { depth: larger(tally.depth, above + 1), ..tally }
    }
}

/// What is counted once bytes were to be counted, whether or not there was
/// room for them.
pub open spec fn after_bytes(limits: LimitsModel, tally: Tally, additional: nat) -> Tally {
    match count_bytes(limits, tally, additional) {
        Ok(next) => next,
        Err(_) => tally,
    }
}

/// What is counted once an array element was refused: its separator, where it
/// came to that.
pub open spec fn after_refused_element(limits: LimitsModel, tally: Tally, index: nat) -> Tally {
    if entry_check(limits, index) is Ok {
        after_bytes(limits, tally, separator_size(index))
    } else {
        tally
    }
}

/// What is counted once a member name was refused: its separator, where it
/// came to that.
pub open spec fn after_refused_key(
    limits: LimitsModel,
    tally: Tally,
    index: nat,
    name: Seq<char>,
) -> Tally {
    if encode_utf8(name).len() <= limits.max_object_key_bytes {
        after_bytes(limits, tally, separator_size(index))
    } else {
        tally
    }
}

/// What is counted once a member was refused: its name, where it came to
/// that.
pub open spec fn after_refused_member(
    limits: LimitsModel,
    tally: Tally,
    index: nat,
    name: Seq<char>,
) -> Tally {
    if entry_check(limits, index) is Ok {
        match count_key(limits, tally, index, name) {
            Ok(named) => named,
            Err(_) => after_refused_key(limits, tally, index, name),
        }
    } else {
        tally
    }
}

/// An entry is to be read that comes after so many others.
pub open spec fn entry_check(limits: LimitsModel, index: nat) -> Result<(), BoundedJsonError> {
    if index >= limits.max_container_entries {
        Err(
            BoundedJsonError::TooManyContainerEntries {
                maximum: limits.max_container_entries,
                actual: (limits.max_container_entries + 1) as usize,
            },
        )
    } else {
        Ok(())
    }
}

/// An array element begins, after so many others.
pub open spec fn count_element(limits: LimitsModel, tally: Tally, index: nat) -> Result<
    Tally,
    BoundedJsonError,
> {
    match entry_check(limits, index) {
        Err(e) => Err(e),
        Ok(()) => match count_bytes(limits, tally, separator_size(index)) {
            Err(e) => Err(e),
            Ok(next) => count_node(limits, next),
        },
    }
}

/// A member name is read, after so many members.
pub open spec fn count_key(limits: LimitsModel, tally: Tally, index: nat, name: Seq<char>) -> Result<
    Tally,
    BoundedJsonError,
> {
    let length = encode_utf8(name).len();
    if length > limits.max_object_key_bytes {
        Err(
            BoundedJsonError::ObjectKeyTooLong {
                maximum: limits.max_object_key_bytes,
                actual: length as usize,
            },
        )
    } else {
        match count_bytes(limits, tally, separator_size(index)) {
            Err(e) => Err(e),
            Ok(next) => count_bytes(limits, next, string_size(name) + 1),
        }
    }
}

/// A string value is read.
pub open spec fn count_string(limits: LimitsModel, tally: Tally, text: Seq<char>) -> Result<
    Tally,
    BoundedJsonError,
> {
    let length = encode_utf8(text).len();
    if length > limits.max_string_bytes {
        Err(
            BoundedJsonError::StringTooLong {
                maximum: limits.max_string_bytes,
                actual: length as usize,
            },
        )
    } else {
        count_bytes(limits, tally, string_size(text))
    }
}

/// The names of members.
pub open spec fn member_names(members: Seq<Member>) -> Seq<Seq<char>> {
    keys::<JsonMember>(members)
}

/// Counts a value that has been counted as a node and stands inside so many
/// containers: what is counted after it, or the first violation in reading
/// order.
pub open spec fn tally_value(limits: LimitsModel, tally: Tally, above: nat, value: Json) -> Result<
    Tally,
    BoundedJsonError,
>
    decreases value,
{
    match value {
        Json::Null => count_bytes(limits, tally, 4),
        Json::Bool(b) => count_bytes(
            limits,
            tally,
            if b {
                4
            } else {
                5
            },
        ),
        Json::Number(number) => count_bytes(
            limits,
            tally,
            encode_utf8(number_text(number)).len(),
        ),
        Json::Text(text) => count_string(limits, tally, text),
        Json::Array(items) => match count_container(limits, tally, above) {
            Err(e) => Err(e),
            Ok(next) => tally_items(limits, next, above + 1, items, items.len()),
        },
        Json::Object(members) => match count_container(limits, tally, above) {
            Err(e) => Err(e),
            Ok(next) => tally_members(limits, next, above + 1, members, members.len()),
        },
    }
}

/// Counts the first `n` items of an array.
pub open spec fn tally_items(
    limits: LimitsModel,
    tally: Tally,
    above: nat,
    items: Seq<Json>,
    n: nat,
) -> Result<Tally, BoundedJsonError>
    decreases items, n,
{
    if n == 0 || n > items.len() {
        Ok(tally)
    } else {
        match tally_items(limits, tally, above, items, (n - 1) as nat) {
            Err(e) => Err(e),
            Ok(next) => match count_element(limits, next, (n - 1) as nat) {
                Err(e) => Err(e),
                Ok(counted) => tally_value(limits, counted, above, items[n - 1]),
            },
        }
    }
}

/// Counts the first `n` members of an object.
pub open spec fn tally_members(
    limits: LimitsModel,
    tally: Tally,
    above: nat,
    members: Seq<Member>,
    n: nat,
) -> Result<Tally, BoundedJsonError>
    decreases members, n,
{
    if n == 0 || n > members.len() {
        Ok(tally)
    } else {
        match tally_members(limits, tally, above, members, (n - 1) as nat) {
            Err(e) => Err(e),
            Ok(next) => tally_member(limits, next, above, members, n),
        }
    }
}

/// Counts the last of the first `n` members.
pub open spec fn tally_member(
    limits: LimitsModel,
    tally: Tally,
    above: nat,
    members: Seq<Member>,
    n: nat,
) -> Result<Tally, BoundedJsonError>
    decreases members, n, 0nat,
    when 0 < n <= members.len()
{
    let member = members[n - 1];
    match entry_check(limits, (n - 1) as nat) {
        Err(e) => Err(e),
        Ok(()) => match count_key(limits, tally, (n - 1) as nat, member.name) {
            Err(e) => Err(e),
            Ok(named) => if member_names(members.take(n - 1)).contains(member.name) {
                Err(BoundedJsonError::DuplicateObjectKey)
            } else {
                match count_node(limits, named) {
                    Err(e) => Err(e),
                    Ok(counted) => tally_value(limits, counted, above, member.value),
                }
            },
        },
    }
}

/// Counts a whole document.
pub open spec fn tally_document(limits: LimitsModel, value: Json) -> Result<Tally, BoundedJsonError> {
    match count_node(limits, empty_tally()) {
        Err(e) => Err(e),
        Ok(counted) => tally_value(limits, counted, 0, value),
    }
}

// ---------------------------------------------------------------------------
// Member order
// ---------------------------------------------------------------------------

/// The value with the members of every object in the order of their names.
pub open spec fn normal(value: Json) -> Json
    decreases value,
{
    match value {
        Json::Array(items) => Json::Array(normal_items(items, items.len())),
        Json::Object(members) => Json::Object(normal_members(members, members.len())),
        scalar => scalar,
    }
}

/// The first `n` items, each in normal form.
pub open spec fn normal_items(items: Seq<Json>, n: nat) -> Seq<Json>
    decreases items, n,
{
    if n == 0 || n > items.len() {
        Seq::empty()
    } else {
        normal_items(items, (n - 1) as nat).push(normal(items[n - 1]))
    }
}

/// The first `n` members in order, each in normal form.
pub open spec fn normal_members(members: Seq<Member>, n: nat) -> Seq<Member>
    decreases members, n,
{
    if n == 0 || n > members.len() {
        Seq::empty()
    } else {
        placed::<JsonMember>(
            normal_members(members, (n - 1) as nat),
            Member { name: members[n - 1].name, value: normal(members[n - 1].value) },
        )
    }
}

impl Keyed for JsonMember {
    open spec fn key_of(model: Member) -> Seq<char> {
        model.name
    }

    open spec fn sound(model: Member) -> bool {
        true
    }

    fn key_text(&self) -> (r: &str) {
        self.name.as_str()
    }
}

// ---------------------------------------------------------------------------
// Tracker
// ---------------------------------------------------------------------------

/// One more member of an object that has members with these names.
pub open spec fn count_member(
    limits: LimitsModel,
    tally: Tally,
    names: Seq<Seq<char>>,
    name: Seq<char>,
) -> Result<Tally, BoundedJsonError> {
    match entry_check(limits, names.len()) {
        Err(e) => Err(e),
        Ok(()) => match count_key(limits, tally, names.len(), name) {
            Err(e) => Err(e),
            Ok(named) => if names.contains(name) {
                Err(BoundedJsonError::DuplicateObjectKey)
            } else {
                count_node(limits, named)
            },
        },
    }
}

/// The name of a member.
struct MemberName {
    text: String,
}

impl View for MemberName {
    type V = Seq<char>;

    closed spec fn view(&self) -> Seq<char> {
        self.text@
    }
}

impl Keyed for MemberName {
    open spec fn key_of(model: Seq<char>) -> Seq<char> {
        model
    }

    open spec fn sound(model: Seq<char>) -> bool {
        true
    }

    fn key_text(&self) -> (r: &str) {
        self.text.as_str()
    }
}

/// The names of the members that were read of an object, in order.
pub struct MemberNames {
    names: Vec<MemberName>,
}

impl View for MemberNames {
    type V = Seq<Seq<char>>;

    closed spec fn view(&self) -> Seq<Seq<char>> {
        views(self.names@)
    }
}

impl MemberNames {
    /// The names are in order.
    #[verifier::type_invariant]
    pub open spec fn well_formed(&self) -> bool {
        ascending(self@)
    }

    /// Begins with no name.
    pub fn new() -> (r: MemberNames)
        ensures
            r@ == Seq::<Seq<char>>::empty(),
    {
        let r = MemberNames { names: Vec::new() };
        assert(views(r.names@) =~= Seq::<Seq<char>>::empty());
        r
    }

    /// Returns the number of names.
    pub fn len(&self) -> (r: usize)
        ensures
            r == self@.len(),
    {
        self.names.len()
    }

    /// Tests whether a name was read.
    pub fn contains(&self, name: &str) -> (r: bool)
        ensures
            r == self@.contains(name@),
    {
        proof {
            use_type_invariant(self);
            assert(keys::<MemberName>(views(self.names@)) =~= views(self.names@));
        }
        holds(self.names.as_slice(), name)
    }

    fn insert(&mut self, name: &str)
        requires
            !old(self)@.contains(name@),
        ensures
            final(self)@.len() == old(self)@.len() + 1,
            forall|n: Seq<char>| #[trigger]
                final(self)@.contains(n) <==> n == name@ || old(self)@.contains(n),
    {
        proof {
            use_type_invariant(&*self);
            assert(keys::<MemberName>(views(self.names@)) =~= views(self.names@));
        }
        let mut names: Vec<MemberName> = Vec::new();
        std::mem::swap(&mut self.names, &mut names);
        insert_new(&mut names, MemberName { text: name.to_owned() });
        proof {
            assert(keys::<MemberName>(views(names@)) =~= views(names@));
        }
        self.names = names;
    }
}

/// Counts what is read of a JSON value and stops at the first violation.
pub struct JsonTracker {
    limits: JsonLimits,
    compact_bytes: usize,
    max_depth: usize,
    nodes: usize,
}

impl JsonTracker {
    /// What has been counted.
    pub closed spec fn view(&self) -> Tally {
        Tally {
            bytes: self.compact_bytes as nat,
            depth: self.max_depth as nat,
            nodes: self.nodes as nat,
        }
    }

    /// The bounds.
    pub closed spec fn bounds(&self) -> LimitsModel {
        self.limits@
    }

    /// Nothing that was counted exceeds a bound.
    #[verifier::type_invariant]
    pub open spec fn well_formed(&self) -> bool {
        tally_within(self.bounds(), self@) && limits_within_maximum(self.bounds())
    }

    /// Begins to count.
    pub fn new(limits: JsonLimits) -> (r: JsonTracker)
        ensures
            r@ == empty_tally(),
            r.bounds() == limits@,
    {
        proof {
            use_type_invariant(&limits);
        }
        JsonTracker { limits, compact_bytes: 0, max_depth: 0, nodes: 0 }
    }

    /// Returns what has been counted.
    pub fn stats(&self) -> (r: JsonStats)
        ensures
            r@ == self@,
    {
        JsonStats {
            compact_bytes: self.compact_bytes,
            max_depth: self.max_depth,
            nodes: self.nodes,
        }
    }

    /// Counts one more value.
    pub fn add_node(&mut self) -> (r: Result<(), BoundedJsonError>)
        ensures
            final(self).bounds() == old(self).bounds(),
            match (r, count_node(old(self).bounds(), old(self)@)) {
                (Ok(()), Ok(tally)) => final(self)@ == tally,
                (Err(e), Err(expected)) => e == expected && final(self)@ == old(self)@,
                _ => false,
            },
    {
        proof {
            use_type_invariant(&*self);
        }
        let actual: usize = self.nodes + 1;
        if actual > self.limits.max_nodes {
            return Err(BoundedJsonError::TooManyNodes { maximum: self.limits.max_nodes, actual });
        }
        self.nodes = actual;
        Ok(())
    }

    /// Counts more bytes of compact text.
    pub fn add_compact_bytes(&mut self, additional: usize) -> (r: Result<(), BoundedJsonError>)
        ensures
            final(self).bounds() == old(self).bounds(),
            match (r, count_bytes(old(self).bounds(), old(self)@, additional as nat)) {
                (Ok(()), Ok(tally)) => final(self)@ == tally,
                (Err(e), Err(expected)) => e == expected && final(self)@ == old(self)@,
                _ => false,
            },
    {
        proof {
            use_type_invariant(&*self);
        }
        let actual: usize = self.compact_bytes.saturating_add(additional);
        if actual > self.limits.max_bytes {
            return Err(
                BoundedJsonError::CompactRepresentationTooLarge {
                    maximum: self.limits.max_bytes,
                    actual,
                },
            );
        }
        self.compact_bytes = actual;
        Ok(())
    }

    /// Opens a container that stands inside `parent_depth` others and returns
    /// its own depth.
    pub fn enter_container(&mut self, parent_depth: usize) -> (r: Result<usize, BoundedJsonError>)
        ensures
            final(self).bounds() == old(self).bounds(),
            match (r, count_container(old(self).bounds(), old(self)@, parent_depth as nat)) {
                (Ok(depth), Ok(tally)) => final(self)@ == tally && depth == parent_depth + 1
                    && depth <= tally.depth,
                (Err(e), Err(expected)) => e == expected && final(self)@ == after_refused_container(
                    old(self).bounds(),
                    old(self)@,
                    parent_depth as nat,
                ),
                _ => false,
            },
    {
        proof {
            use_type_invariant(&*self);
        }
        let actual: usize = parent_depth.saturating_add(1);
        if actual > self.limits.max_depth {
            return Err(BoundedJsonError::NestingTooDeep { maximum: self.limits.max_depth, actual });
        }
        if actual > self.max_depth {
            self.max_depth = actual;
        }
        match self.add_compact_bytes(2) {
            Ok(()) => Ok(actual),
            Err(e) => Err(e),
        }
    }

    /// Checks that a container that has `entries` may have one more.
    pub fn check_entry(&self, entries: usize) -> (r: Result<(), BoundedJsonError>)
        ensures
            r == entry_check(self.bounds(), entries as nat),
    {
        proof {
            use_type_invariant(self);
        }
        if entries >= self.limits.max_container_entries {
            return Err(
                BoundedJsonError::TooManyContainerEntries {
                    maximum: self.limits.max_container_entries,
                    actual: self.limits.max_container_entries + 1,
                },
            );
        }
        Ok(())
    }

    /// Begins an array element that follows `entries` others.
    pub fn enter_element(&mut self, entries: usize) -> (r: Result<(), BoundedJsonError>)
        ensures
            final(self).bounds() == old(self).bounds(),
            match (r, count_element(old(self).bounds(), old(self)@, entries as nat)) {
                (Ok(()), Ok(tally)) => final(self)@ == tally,
                (Err(e), Err(expected)) => e == expected && final(self)@ == after_refused_element(
                    old(self).bounds(),
                    old(self)@,
                    entries as nat,
                ),
                _ => false,
            },
    {
        self.check_entry(entries)?;
        self.add_compact_bytes(if entries == 0 { 0 } else { 1 })?;
        self.add_node()
    }

    /// Reads a member name that follows `entries` members.
    pub fn check_object_key(&mut self, entries: usize, name: &str) -> (r: Result<
        (),
        BoundedJsonError,
    >)
        ensures
            final(self).bounds() == old(self).bounds(),
            match (r, count_key(old(self).bounds(), old(self)@, entries as nat, name@)) {
                (Ok(()), Ok(tally)) => final(self)@ == tally,
                (Err(e), Err(expected)) => e == expected && final(self)@ == after_refused_key(
                    old(self).bounds(),
                    old(self)@,
                    entries as nat,
                    name@,
                ),
                _ => false,
            },
    {
        proof {
            use_type_invariant(&*self);
        }
        let length: usize = utf8_len(name);
        if length > self.limits.max_object_key_bytes {
            return Err(
                BoundedJsonError::ObjectKeyTooLong {
                    maximum: self.limits.max_object_key_bytes,
                    actual: length,
                },
            );
        }
        self.add_compact_bytes(if entries == 0 { 0 } else { 1 })?;
        let size: usize = encoded_json_string_len(name);
        self.add_compact_bytes(size + 1)
    }

    /// Begins a member, once its name is read.
    pub fn enter_member(&mut self, names: &mut MemberNames, name: &str) -> (r: Result<
        (),
        BoundedJsonError,
    >)
        ensures
            final(self).bounds() == old(self).bounds(),
            match (r, count_member(old(self).bounds(), old(self)@, old(names)@, name@)) {
                (Ok(()), Ok(tally)) => {
                    &&& final(self)@ == tally
                    &&& final(names)@.len() == old(names)@.len() + 1
                    &&& forall|n: Seq<char>| #[trigger]
                        final(names)@.contains(n) <==> n == name@ || old(names)@.contains(n)
                },
                (Err(e), Err(expected)) => {
                    &&& e == expected
                    &&& final(names)@ == old(names)@
                    &&& final(self)@ == after_refused_member(
                        old(self).bounds(),
                        old(self)@,
                        old(names)@.len(),
                        name@,
                    )
                },
                _ => false,
            },
    {
        proof {
            use_type_invariant(&*names);
        }
        let entries: usize = names.len();
        self.check_entry(entries)?;
        self.check_object_key(entries, name)?;
        if names.contains(name) {
            return Err(BoundedJsonError::DuplicateObjectKey);
        }
        self.add_node()?;
        names.insert(name);
        Ok(())
    }

    /// Reads a string value.
    pub fn check_string(&mut self, text: &str) -> (r: Result<(), BoundedJsonError>)
        ensures
            final(self).bounds() == old(self).bounds(),
            match (r, count_string(old(self).bounds(), old(self)@, text@)) {
                (Ok(()), Ok(tally)) => final(self)@ == tally,
                (Err(e), Err(expected)) => e == expected && final(self)@ == old(self)@,
                _ => false,
            },
    {
        proof {
            use_type_invariant(&*self);
        }
        let length: usize = utf8_len(text);
        if length > self.limits.max_string_bytes {
            return Err(
                BoundedJsonError::StringTooLong {
                    maximum: self.limits.max_string_bytes,
                    actual: length,
                },
            );
        }
        let size: usize = encoded_json_string_len(text);
        self.add_compact_bytes(size)
    }
}

/// Counts the bytes of a JSON string, its quotes and escapes among them.
pub(crate) fn encoded_json_string_len(value: &str) -> (r: usize)
    requires
        encode_utf8(value@).len() <= 1048576,
    ensures
        r == string_size(value@),
        r <= 6291458,
{
    let bytes = value.as_bytes();
    let mut length: usize = 2;
    let mut i: usize = 0;
    assert(bytes@.take(0) =~= Seq::<u8>::empty());
    while i < bytes.len()
        invariant
            i <= bytes@.len() <= 1048576,
            length == 2 + escape_costs(bytes@.take(i as int)),
            length <= 2 + 6 * i,
        decreases bytes@.len() - i,
    {
        let b: u8 = bytes[i];
        assert(bytes@.take(i + 1).drop_last() =~= bytes@.take(i as int));
        let cost: usize = if b == 8 || b == 9 || b == 10 || b == 12 || b == 13 || b == 34 || b
            == 92 {
            2
        } else if b < 32 {
            6
        } else {
            1
        };
        length = length + cost;
        i = i + 1;
    }
    assert(bytes@.take(i as int) =~= bytes@);
    length
}

// ---------------------------------------------------------------------------
// Bounded values
// ---------------------------------------------------------------------------

pub(crate) proof fn tally_items_stops(
    limits: LimitsModel,
    tally: Tally,
    above: nat,
    items: Seq<Json>,
    n: nat,
    m: nat,
)
    requires
        n <= m <= items.len(),
    ensures
        tally_items(limits, tally, above, items, n) is Err ==> tally_items(
            limits,
            tally,
            above,
            items,
            m,
        ) == tally_items(limits, tally, above, items, n),
    decreases m,
{
    if n < m {
        tally_items_stops(limits, tally, above, items, n, (m - 1) as nat);
    }
}

pub(crate) proof fn tally_members_stops(
    limits: LimitsModel,
    tally: Tally,
    above: nat,
    members: Seq<Member>,
    n: nat,
    m: nat,
)
    requires
        n <= m <= members.len(),
    ensures
        tally_members(limits, tally, above, members, n) is Err ==> tally_members(
            limits,
            tally,
            above,
            members,
            m,
        ) == tally_members(limits, tally, above, members, n),
    decreases m,
{
    if n < m {
        tally_members_stops(limits, tally, above, members, n, (m - 1) as nat);
    }
}

/// The outcome of rebuilding a value: the value and what was counted, or the
/// violation.
spec fn rebuilt(
    value: Json,
    tracker: JsonTracker,
    expected: Result<Tally, BoundedJsonError>,
    r: Result<(JsonValue, JsonTracker), BoundedJsonError>,
) -> bool {
    match (r, expected) {
        (Ok((made, after)), Ok(counted)) => {
            &&& made@ == normal(value)
            &&& after.bounds() == tracker.bounds()
            &&& after@ == counted
            &&& after@.depth >= tracker@.depth
        },
        (Err(e), Err(violation)) => e == violation,
        _ => false,
    }
}

/// Rebuilds a value that has been counted as a node, with the members of every
/// object in order.
fn rebuild(value: JsonValue, start: JsonTracker, above: usize) -> (r: Result<
    (JsonValue, JsonTracker),
    BoundedJsonError,
>)
    requires
        above <= start@.depth,
    ensures
        rebuilt(
            value@,
            start,
            tally_value(start.bounds(), start@, above as nat, value@),
            r,
        ),
    decreases value,
{
    broadcast use container_view;

    let mut tracker = start;
    match value {
        JsonValue::Null => {
            tracker.add_compact_bytes(4)?;
            Ok((JsonValue::Null, tracker))
        },
        JsonValue::Bool(b) => {
            tracker.add_compact_bytes(if b { 4 } else { 5 })?;
            Ok((JsonValue::Bool(b), tracker))
        },
        JsonValue::Number(number) => {
            let text: String = number.to_string();
            tracker.add_compact_bytes(utf8_len(text.as_str()))?;
            Ok((JsonValue::Number(number), tracker))
        },
        JsonValue::Text(text) => {
            tracker.check_string(text.as_str())?;
            Ok((JsonValue::Text(text), tracker))
        },
        JsonValue::Array(items) => rebuild_array(items, tracker, above),
        JsonValue::Object(members) => rebuild_object(members, tracker, above),
    }
}

fn rebuild_array(items: Vec<JsonValue>, start: JsonTracker, above: usize) -> (r: Result<
    (JsonValue, JsonTracker),
    BoundedJsonError,
>)
    requires
        above <= start@.depth,
    ensures
        rebuilt(
            Json::Array(items_view(items@)),
            start,
            tally_value(
                start.bounds(),
                start@,
                above as nat,
                Json::Array(items_view(items@)),
            ),
            r,
        ),
    decreases items,
{
    broadcast use container_view;

    let ghost models = items_view(items@);
    let mut tracker = start;
    let ghost limits = tracker.bounds();
    let ghost outer = tracker@.depth;
    let depth: usize = tracker.enter_container(above)?;
    let ghost opened = tracker@;
    let mut values: Vec<JsonValue> = Vec::new();
    assert(items_view(values@) =~= normal_items(models, 0));
    let ghost all = items@;
    for item in entries: items
        invariant
            entries.seq() == all,
            models == items_view(all),
            decreases_to!(items => all),
            limits == tracker.bounds(),
            limits == start.bounds(),
            outer == start@.depth,
            count_container(limits, start@, above as nat) == Ok::<Tally, BoundedJsonError>(
                opened,
            ),
            depth == above + 1,
            depth <= tracker@.depth,
            tracker@.depth >= outer,
            values@.len() == entries.index(),
            items_view(values@) == normal_items(models, values@.len()),
            tally_items(limits, opened, depth as nat, models, values@.len()) == Ok::<
                Tally,
                BoundedJsonError,
            >(tracker@),
    {
        let ghost done = values@.len() as int;
        assert(item == all[done]);
        assert(models[done] == item@);
        proof {
            tally_items_stops(
                limits,
                opened,
                depth as nat,
                models,
                (done + 1) as nat,
                models.len(),
            );
        }
        tracker.enter_element(values.len())?;
        let (made, counted) = rebuild(item, tracker, depth)?;
        tracker = counted;
        values.push(made);
        assert(items_view(values@) =~= normal_items(models, values@.len()));
    }
    Ok((JsonValue::Array(values), tracker))
}

/// The members rebuilt so far: those that were read, each in its place.
spec fn members_rebuilt(made: Seq<JsonMember>, models: Seq<Member>, n: nat) -> bool {
    &&& members_view(made) == normal_members(models, n)
    &&& ascending(member_names(normal_members(models, n)))
    &&& forall|name: Seq<char>| #[trigger]
        member_names(normal_members(models, n)).contains(name) <==> member_names(
            models.take(n as int),
        ).contains(name)
}

fn rebuild_object(members: Vec<JsonMember>, start: JsonTracker, above: usize) -> (r: Result<
    (JsonValue, JsonTracker),
    BoundedJsonError,
>)
    requires
        above <= start@.depth,
    ensures
        rebuilt(
            Json::Object(members_view(members@)),
            start,
            tally_value(
                start.bounds(),
                start@,
                above as nat,
                Json::Object(members_view(members@)),
            ),
            r,
        ),
    decreases members,
{
    broadcast use container_view;

    let ghost models = members_view(members@);
    let mut tracker = start;
    let ghost limits = tracker.bounds();
    let ghost outer = tracker@.depth;
    let depth: usize = tracker.enter_container(above)?;
    let ghost opened = tracker@;
    let mut sorted: Vec<JsonMember> = Vec::new();
    proof {
        assert(members_view(sorted@) =~= normal_members(models, 0));
        assert(models.take(0) =~= Seq::<Member>::empty());
        assert(members_rebuilt(sorted@, models, 0));
    }
    let ghost all = members@;
    for member in entries: members
        invariant
            entries.seq() == all,
            models == members_view(all),
            decreases_to!(members => all),
            limits == tracker.bounds(),
            limits == start.bounds(),
            outer == start@.depth,
            count_container(limits, start@, above as nat) == Ok::<Tally, BoundedJsonError>(
                opened,
            ),
            depth == above + 1,
            depth <= tracker@.depth,
            tracker@.depth >= outer,
            sorted@.len() == entries.index(),
            members_rebuilt(sorted@, models, sorted@.len()),
            tally_members(limits, opened, depth as nat, models, sorted@.len()) == Ok::<
                Tally,
                BoundedJsonError,
            >(tracker@),
    {
        let ghost done = sorted@.len();
        let ghost made = sorted@;
        assert(member == all[done as int]);
        assert(models[done as int] == member@);
        proof {
            tally_members_stops(limits, opened, depth as nat, models, done + 1, models.len());
            assert(tally_members(limits, opened, depth as nat, models, done + 1) == tally_member(
                limits,
                tracker@,
                depth as nat,
                models,
                done + 1,
            ));
        }
        tracker.check_entry(sorted.len())?;
        tracker.check_object_key(sorted.len(), member.name.as_str())?;
        assert(views(made) =~= members_view(made));
        if holds(sorted.as_slice(), member.name.as_str()) {
            return Err(BoundedJsonError::DuplicateObjectKey);
        }
        tracker.add_node()?;
        let name: String = member.name;
        let (value, counted) = rebuild(member.value, tracker, depth)?;
        tracker = counted;
        let entry = JsonMember { name, value };
        let ghost added = entry;
        insert_new(&mut sorted, entry);
        proof {
            let next = placed::<JsonMember>(normal_members(models, done), added@);
            assert(added@ == Member {
                name: models[done as int].name,
                value: normal(models[done as int].value),
            });
            assert(views(sorted@) =~= members_view(sorted@));
            assert(next == normal_members(models, done + 1));
            assert(models.take(done as int + 1) =~= models.take(done as int).push(models[done as int]));
            let (x, y) = (member_names(models.take(done as int)), member_names(
                models.take(done as int + 1),
            ));
            assert(y =~= x.push(added.name@));
            assert forall|n: Seq<char>| #[trigger] member_names(next).contains(n) <==> y.contains(
                n,
            ) by {
                assert(keys::<JsonMember>(views(sorted@)).contains(n) <==> n == added.name@
                    || keys::<JsonMember>(views(made)).contains(n));
                assert(y.contains(n) <==> n == added.name@ || x.contains(n)) by {
                    if x.contains(n) {
                        let k = choose|k: int| 0 <= k < x.len() && x[k] == n;
                        assert(y[k] == n);
                    }
                    if y.contains(n) {
                        let k = choose|k: int| 0 <= k < y.len() && y[k] == n;
                        if k < x.len() {
                            assert(x[k] == n);
                        }
                    }
                    assert(y[x.len() as int] == added.name@);
                }
            }
        }
    }
    Ok((JsonValue::Object(sorted), tracker))
}

/// The values are the same but for the signs of zeros, and count the same.
pub open spec fn json_equal(a: Json, b: Json) -> bool {
    json_alike(a, b) && measure(a) == measure(b)
}

/// A JSON value that was found within its limits, its members in order.
pub struct BoundedJson {
    value: JsonValue,
    stats: JsonStats,
}

impl View for BoundedJson {
    type V = Json;

    /// The value.
    closed spec fn view(&self) -> Json {
        self.value@
    }
}

impl BoundedJson {
    /// The statistics.
    pub closed spec fn counted(&self) -> Tally {
        self.stats@
    }

    /// The value is within the hard maximum, its members are in order, and the
    /// statistics are its own.
    #[verifier::type_invariant]
    pub open spec fn well_formed(&self) -> bool {
        &&& tally_document(maximum_limits(), self@) == Ok::<Tally, BoundedJsonError>(self.counted())
        &&& in_order(self@)
    }

    /// Checks the length of an input before anything is read of it.
    pub fn check_input(length: usize, limits: JsonLimits) -> (r: Result<(), BoundedJsonError>)
        ensures
            r == (if length > limits@.max_bytes {
                Err(
                    BoundedJsonError::InputTooLarge {
                        maximum: limits@.max_bytes,
                        actual: length,
                    },
                )
            } else {
                Ok(())
            }),
    {
        if length > limits.max_bytes {
            return Err(
                BoundedJsonError::InputTooLarge { maximum: limits.max_bytes, actual: length },
            );
        }
        Ok(())
    }

    /// Validates a value under the default limits and puts its members in
    /// order.
    pub fn try_from_value(value: JsonValue) -> (r: Result<BoundedJson, BoundedJsonError>)
        ensures
            match (r, tally_document(default_limits(), value@)) {
                (Ok(bounded), Ok(tally)) => bounded@ == normal(value@) && bounded.counted()
                    == tally,
                (Err(e), Err(expected)) => e == expected,
                _ => false,
            },
    {
        BoundedJson::try_from_value_with_limits(value, JsonLimits::default())
    }

    /// Validates a value and puts its members in order.
    pub fn try_from_value_with_limits(value: JsonValue, limits: JsonLimits) -> (r: Result<
        BoundedJson,
        BoundedJsonError,
    >)
        ensures
            match (r, tally_document(limits@, value@)) {
                (Ok(bounded), Ok(tally)) => bounded@ == normal(value@) && bounded.counted()
                    == tally,
                (Err(e), Err(expected)) => e == expected,
                _ => false,
            },
    {
        proof {
            use_type_invariant(&limits);
        }
        let ghost model = value@;
        let mut tracker = JsonTracker::new(limits);
        tracker.add_node()?;
        let (made, tracker) = rebuild(value, tracker, 0)?;
        let stats = tracker.stats();
        proof {
            let maximum = maximum_limits();
            assert(narrower(limits@, maximum));
            rebuilding_is_idempotent(limits@, model);
            wider_limits_accept_more(limits@, maximum, normal(model));
            accepted_exactly_within_limits(limits@, model);
            normal_is_in_order(limits@, 0, model);
        }
        Ok(BoundedJson { value: made, stats })
    }

    /// Returns the value.
    pub fn as_value(&self) -> (r: &JsonValue)
        ensures
            r@ == self@,
            self.well_formed(),
    {
        proof {
            use_type_invariant(self);
        }
        &self.value
    }

    /// Gives the value away.
    pub fn into_value(self) -> (r: JsonValue)
        ensures
            r@ == self@,
            self.well_formed(),
    {
        proof {
            use_type_invariant(&self);
        }
        self.value
    }

    /// Returns the statistics: the size, the depth and the number of values.
    pub fn stats(&self) -> (r: JsonStats)
        ensures
            r@ == self.counted(),
            r@ == measure(self@),
    {
        proof {
            use_type_invariant(self);
            accepted_exactly_within_limits(maximum_limits(), self@);
        }
        self.stats
    }
}

impl Clone for BoundedJson {
    fn clone(&self) -> (r: Self)
        ensures
            r@ == self@,
            r.counted() == self.counted(),
    {
        proof {
            use_type_invariant(self);
        }
        BoundedJson { value: self.value.duplicate(), stats: self.stats }
    }
}

impl AsRef<JsonValue> for BoundedJson {
    fn as_ref(&self) -> (r: &JsonValue)
        ensures
            r@ == self@,
    {
        self.as_value()
    }
}

impl TryFrom<JsonValue> for BoundedJson {
    type Error = BoundedJsonError;

    fn try_from(value: JsonValue) -> (r: Result<Self, Self::Error>)
        ensures
            match (r, tally_document(default_limits(), value@)) {
                (Ok(bounded), Ok(tally)) => bounded@ == normal(value@) && bounded.counted()
                    == tally,
                (Err(e), Err(expected)) => e == expected,
                _ => false,
            },
    {
        BoundedJson::try_from_value(value)
    }
}

// What comes out is stated on `try_from` itself, over views.
impl vstd::std_specs::convert::TryFromSpecImpl<JsonValue> for BoundedJson {
    open spec fn obeys_try_from_spec() -> bool {
        false
    }

    open spec fn try_from_spec(value: JsonValue) -> Result<Self, BoundedJsonError> {
        arbitrary()
    }
}

impl PartialEq for BoundedJson {
    fn eq(&self, other: &Self) -> (r: bool) {
        proof {
            use_type_invariant(self);
            use_type_invariant(other);
            accepted_exactly_within_limits(maximum_limits(), self@);
            accepted_exactly_within_limits(maximum_limits(), other@);
        }
        self.stats == other.stats && self.value.same(&other.value)
    }
}

impl vstd::std_specs::cmp::PartialEqSpecImpl for BoundedJson {
    open spec fn obeys_eq_spec() -> bool {
        true
    }

    open spec fn eq_spec(&self, other: &Self) -> bool {
        json_equal(self@, other@)
    }
}

impl Eq for BoundedJson {

}

// ---------------------------------------------------------------------------
// Debug output
// ---------------------------------------------------------------------------

/// The fields that are shown of statistics.
pub open spec fn stats_fields(tally: Tally) -> Seq<Seq<char>> {
    seq![
        entry_text("compact_bytes"@, decimal_text(tally.bytes)),
        entry_text("max_depth"@, decimal_text(tally.depth)),
        entry_text("nodes"@, decimal_text(tally.nodes)),
    ]
}

/// What is shown of statistics.
pub open spec fn stats_shown(tally: Tally, alternate: bool) -> Seq<char> {
    struct_text("JsonStats"@, stats_fields(tally), false, alternate)
}

impl JsonStats {
    /// Returns what is shown of it for debugging.
    pub fn debug_text(&self, alternate: bool) -> (r: String)
        ensures
            r@ == stats_shown(self@, alternate),
    {
        let fields = vec![
            entry_string("compact_bytes", number_string(self.compact_bytes)),
            entry_string("max_depth", number_string(self.max_depth)),
            entry_string("nodes", number_string(self.nodes)),
        ];
        assert(texts(fields@) =~= stats_fields(self@));
        struct_string("JsonStats", &fields, false, alternate)
    }
}

impl core::fmt::Debug for JsonStats {
    fn fmt(&self, formatter: &mut core::fmt::Formatter<'_>) -> core::fmt::Result {
        let alternate: bool = is_alternate(formatter);
        write_text(formatter, self.debug_text(alternate).as_str())
    }
}

/// The fields that are shown of a bounded value.
pub open spec fn bounded_json_fields(tally: Tally) -> Seq<Seq<char>> {
    seq![
        entry_text("compact_bytes"@, decimal_text(tally.bytes)),
        entry_text("max_depth"@, decimal_text(tally.depth)),
        entry_text("nodes"@, decimal_text(tally.nodes)),
    ]
}

/// What is shown of a bounded value: what was counted of it.
pub open spec fn bounded_json_shown(tally: Tally, alternate: bool) -> Seq<char> {
    struct_text("BoundedJson"@, bounded_json_fields(tally), true, alternate)
}

impl BoundedJson {
    /// Returns what is shown of it for debugging.
    pub fn debug_text(&self, alternate: bool) -> (r: String)
        ensures
            r@ == bounded_json_shown(measure(self@), alternate),
    {
        proof {
            use_type_invariant(self);
            accepted_exactly_within_limits(maximum_limits(), self@);
        }
        let fields = vec![
            entry_string("compact_bytes", number_string(self.stats.compact_bytes)),
            entry_string("max_depth", number_string(self.stats.max_depth)),
            entry_string("nodes", number_string(self.stats.nodes)),
        ];
        assert(texts(fields@) =~= bounded_json_fields(measure(self@)));
        struct_string("BoundedJson", &fields, true, alternate)
    }
}

impl core::fmt::Debug for BoundedJson {
    fn fmt(&self, formatter: &mut core::fmt::Formatter<'_>) -> core::fmt::Result {
        let alternate: bool = is_alternate(formatter);
        write_text(formatter, self.debug_text(alternate).as_str())
    }
}

} // verus!
