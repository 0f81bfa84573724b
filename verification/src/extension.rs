//! Bounded maps of extension values.

use vstd::prelude::*;
use vstd::std_specs::iter::IteratorSpec;
use vstd::std_specs::slice::into_iter_elts;
use vstd::utf8::encode_utf8;

use crate::debug::{
    entry_string, entry_text, is_alternate, number_string, struct_string, struct_text, write_text,
};
use crate::decimal::decimal_text;
use crate::extension_key::{extension_key_sound, ExtensionKey};
use crate::json::{
    bounded_json_shown, capped, default_limits, json_equal, json_limit_text, tally_document,
    BoundedJson, BoundedJsonError, JsonLimit, JsonLimits, LimitsModel,
};
use crate::json_laws::{in_order_is_normal, measure};
use crate::json_value::{
    json_size, json_text_size, members_size, separator_size, Json, JsonMember, JsonValue, Member,
};
use crate::options::option_ref_view;
use crate::ordered::{
    ascending, find, holds, insert_new, keys, lookup, placed, rank, rank_in_range, views, Keyed,
};
use crate::pins::{schema_json, schema_shown, SchemaModel, SchemaReference};
use crate::text::{texts, utf8_len};

verus! {

// ---------------------------------------------------------------------------
// Values
// ---------------------------------------------------------------------------

/// A value of an extension.
pub enum ExtensionValue {
    /// A value without a declared meaning.
    Opaque {
        /// The value.
        value: BoundedJson,
    },
    /// A value whose meaning a schema declares.
    SchemaBound {
        /// The schema.
        schema: SchemaReference,
        /// The value.
        value: BoundedJson,
    },
}

/// The values of [`ExtensionValue`].
pub ghost struct ExtensionValueModel {
    pub schema: Option<SchemaModel>,
    pub value: Json,
}

impl View for ExtensionValue {
    type V = ExtensionValueModel;

    open spec fn view(&self) -> ExtensionValueModel {
        match self {
            ExtensionValue::Opaque { value } => ExtensionValueModel { schema: None, value: value@ },
            ExtensionValue::SchemaBound { schema, value } => ExtensionValueModel {
                schema: Some(schema@),
                value: value@,
            },
        }
    }
}

/// The JSON form of a value.
pub open spec fn extension_value_json(model: ExtensionValueModel) -> Json {
    match model.schema {
        None => Json::Object(
            seq![
                Member { name: "kind"@, value: Json::Text("opaque"@) },
                Member { name: "value"@, value: model.value },
            ],
        ),
        Some(schema) => Json::Object(
            seq![
                Member { name: "kind"@, value: Json::Text("schema_bound"@) },
                Member { name: "schema"@, value: schema_json(schema) },
                Member { name: "value"@, value: model.value },
            ],
        ),
    }
}

impl ExtensionValue {
    /// Wraps a value without a declared meaning.
    pub fn opaque(value: BoundedJson) -> (r: ExtensionValue)
        ensures
            r@ == (ExtensionValueModel { schema: None, value: value@ }),
    {
        ExtensionValue::Opaque { value }
    }

    /// Binds a value to a schema.
    pub fn schema_bound(schema: SchemaReference, value: BoundedJson) -> (r: ExtensionValue)
        ensures
            r@ == (ExtensionValueModel { schema: Some(schema@), value: value@ }),
    {
        ExtensionValue::SchemaBound { schema, value }
    }

    /// Returns the value.
    pub fn value(&self) -> (r: &BoundedJson)
        ensures
            r@ == self@.value,
    {
        match self {
            ExtensionValue::Opaque { value } => value,
            ExtensionValue::SchemaBound { schema: _, value } => value,
        }
    }

    /// Returns the schema.
    pub fn schema(&self) -> (r: Option<&SchemaReference>)
        ensures
            option_ref_view(r) == self@.schema,
    {
        match self {
            ExtensionValue::Opaque { value: _ } => None,
            ExtensionValue::SchemaBound { schema, value: _ } => Some(schema),
        }
    }

    /// Tests for a value without a declared meaning.
    pub fn is_opaque(&self) -> (r: bool)
        ensures
            r == (self@.schema is None),
    {
        match self {
            ExtensionValue::Opaque { value: _ } => true,
            ExtensionValue::SchemaBound { schema: _, value: _ } => false,
        }
    }

    /// Takes the schema and the value apart.
    pub fn into_parts(self) -> (r: (Option<SchemaReference>, BoundedJson))
        ensures
            crate::options::option_view(r.0) == self@.schema,
            r.1@ == self@.value,
    {
        match self {
            ExtensionValue::Opaque { value } => (None, value),
            ExtensionValue::SchemaBound { schema, value } => (Some(schema), value),
        }
    }

    /// Writes the JSON form.
    pub fn to_json(&self) -> (r: JsonValue)
        ensures
            r@ == extension_value_json(self@),
    {
        match self {
            ExtensionValue::Opaque { value } => {
                let r = JsonValue::object(
                    vec![
                        JsonMember::new("kind", JsonValue::text("opaque")),
                        JsonMember::new("value", value.as_value().duplicate()),
                    ],
                );
                assert(r@->Object_0 =~= extension_value_json(self@)->Object_0);
                r
            },
            ExtensionValue::SchemaBound { schema, value } => {
                let r = JsonValue::object(
                    vec![
                        JsonMember::new("kind", JsonValue::text("schema_bound")),
                        JsonMember::new("schema", schema.to_json()),
                        JsonMember::new("value", value.as_value().duplicate()),
                    ],
                );
                assert(r@->Object_0 =~= extension_value_json(self@)->Object_0);
                r
            },
        }
    }

    /// Validates the value under other limits. It stays as it is.
    fn try_restrict(self, limits: JsonLimits) -> (r: Result<ExtensionValue, BoundedJsonError>)
        ensures
            match (r, tally_document(limits@, self@.value)) {
                (Ok(value), Ok(_)) => value@ == self@,
                (Err(e), Err(expected)) => e == expected,
                _ => false,
            },
    {
        match self {
            ExtensionValue::Opaque { value } => {
                let ghost model = value@;
                let value = value.into_value();
                proof {
                    in_order_is_normal(model);
                }
                match BoundedJson::try_from_value_with_limits(value, limits) {
                    Ok(value) => Ok(ExtensionValue::opaque(value)),
                    Err(e) => Err(e),
                }
            },
            ExtensionValue::SchemaBound { schema, value } => {
                let ghost model = value@;
                let value = value.into_value();
                proof {
                    in_order_is_normal(model);
                }
                match BoundedJson::try_from_value_with_limits(value, limits) {
                    Ok(value) => Ok(ExtensionValue::schema_bound(schema, value)),
                    Err(e) => Err(e),
                }
            },
        }
    }
}

impl Clone for ExtensionValue {
    fn clone(&self) -> (r: Self)
        ensures
            r@ == self@,
    {
        match self {
            ExtensionValue::Opaque { value } => ExtensionValue::Opaque { value: value.clone() },
            ExtensionValue::SchemaBound { schema, value } => ExtensionValue::SchemaBound {
                schema: schema.clone(),
                value: value.clone(),
            },
        }
    }
}

/// The values carry the same schema and equal JSON.
pub open spec fn extension_value_equal(a: ExtensionValueModel, b: ExtensionValueModel) -> bool {
    a.schema == b.schema && json_equal(a.value, b.value)
}

impl PartialEq for ExtensionValue {
    fn eq(&self, other: &Self) -> (r: bool) {
        match (self, other) {
            (ExtensionValue::Opaque { value: a }, ExtensionValue::Opaque { value: b }) => *a == *b,
            (
                ExtensionValue::SchemaBound { schema: s, value: a },
                ExtensionValue::SchemaBound { schema: t, value: b },
            ) => *s == *t && *a == *b,
            _ => false,
        }
    }
}

impl vstd::std_specs::cmp::PartialEqSpecImpl for ExtensionValue {
    open spec fn obeys_eq_spec() -> bool {
        true
    }

    open spec fn eq_spec(&self, other: &Self) -> bool {
        extension_value_equal(self@, other@)
    }
}

impl Eq for ExtensionValue {

}

// ---------------------------------------------------------------------------
// Limits
// ---------------------------------------------------------------------------

/// A dimension of the bounds of a map.
#[derive(Clone, Copy, Debug, PartialEq, Eq, Hash, Structural)]
pub enum ExtensionLimit {
    /// The number of entries.
    Entries,
    /// The compact bytes of the whole map.
    TotalBytes,
    /// The bytes of a key.
    KeyBytes,
    /// A dimension of the values.
    ValueJson(JsonLimit),
}

/// The name of a dimension.
pub open spec fn extension_limit_text(limit: ExtensionLimit) -> Seq<char> {
    match limit {
        ExtensionLimit::Entries => "extension entries"@,
        ExtensionLimit::TotalBytes => "extension total bytes"@,
        ExtensionLimit::KeyBytes => "extension key bytes"@,
        ExtensionLimit::ValueJson(limit) => "extension value "@ + json_limit_text(limit),
    }
}

impl ExtensionLimit {
    /// Writes the name of the dimension.
    pub fn to_string(&self) -> (r: String)
        ensures
            r@ == extension_limit_text(*self),
    {
        match self {
            ExtensionLimit::Entries => "extension entries".to_owned(),
            ExtensionLimit::TotalBytes => "extension total bytes".to_owned(),
            ExtensionLimit::KeyBytes => "extension key bytes".to_owned(),
            ExtensionLimit::ValueJson(limit) => {
                let mut text: String = "extension value ".to_owned();
                let name = limit.to_string();
                text.append(name.as_str());
                text
            },
        }
    }
}

/// The bounds of a map.
#[derive(Clone, Copy, Debug, PartialEq, Eq, Hash)]
pub struct ExtensionLimits {
    max_entries: usize,
    max_total_bytes: usize,
    max_key_bytes: usize,
    value_json_limits: JsonLimits,
}

/// The values of [`ExtensionLimits`].
pub ghost struct ExtensionLimitsModel {
    pub max_entries: usize,
    pub max_total_bytes: usize,
    pub max_key_bytes: usize,
    pub value_json_limits: LimitsModel,
}

/// The bounds that no configuration exceeds.
pub open spec fn hard_extension_limits() -> ExtensionLimitsModel {
    ExtensionLimitsModel {
        max_entries: 64,
        max_total_bytes: 262144,
        max_key_bytes: 512,
        value_json_limits: default_limits(),
    }
}

/// Rejected bounds.
#[derive(Clone, Copy, Debug, PartialEq, Eq, Structural)]
pub enum ExtensionLimitsError {
    /// The bound of this dimension is zero.
    Zero { limit: ExtensionLimit },
    /// The bound of this dimension leaves room for no map.
    BelowMinimum { limit: ExtensionLimit, minimum: usize, actual: usize },
    /// The bound of this dimension exceeds the hard maximum.
    AboveHardMaximum { limit: ExtensionLimit, maximum: usize, actual: usize },
}

/// What the rules say of one bound.
pub open spec fn extension_limit_check(
    limit: ExtensionLimit,
    actual: usize,
    minimum: usize,
    maximum: usize,
) -> Result<(), ExtensionLimitsError> {
    if actual == 0 {
        Err(ExtensionLimitsError::Zero { limit })
    } else if actual < minimum {
        Err(ExtensionLimitsError::BelowMinimum { limit, minimum, actual })
    } else if actual > maximum {
        Err(ExtensionLimitsError::AboveHardMaximum { limit, maximum, actual })
    } else {
        Ok(())
    }
}

/// What the rules say of one bound of the values.
pub open spec fn value_limit_check(limit: JsonLimit, actual: usize, maximum: usize) -> Result<
    (),
    ExtensionLimitsError,
> {
    if actual > maximum {
        Err(
            ExtensionLimitsError::AboveHardMaximum {
                limit: ExtensionLimit::ValueJson(limit),
                maximum,
                actual,
            },
        )
    } else {
        Ok(())
    }
}

/// What the rules say of the bounds of the values: the first that fails, in
/// the order of the dimensions.
pub open spec fn value_limits_check(limits: LimitsModel) -> Result<(), ExtensionLimitsError> {
    let maximum = default_limits();
    let bytes = value_limit_check(JsonLimit::Bytes, limits.max_bytes, maximum.max_bytes);
    let depth = value_limit_check(JsonLimit::Depth, limits.max_depth, maximum.max_depth);
    let entries = value_limit_check(
        JsonLimit::ContainerEntries,
        limits.max_container_entries,
        maximum.max_container_entries,
    );
    let nodes = value_limit_check(JsonLimit::Nodes, limits.max_nodes, maximum.max_nodes);
    let strings = value_limit_check(
        JsonLimit::StringBytes,
        limits.max_string_bytes,
        maximum.max_string_bytes,
    );
    if bytes is Err {
        bytes
    } else if depth is Err {
        depth
    } else if entries is Err {
        entries
    } else if nodes is Err {
        nodes
    } else if strings is Err {
        strings
    } else {
        value_limit_check(
            JsonLimit::ObjectKeyBytes,
            limits.max_object_key_bytes,
            maximum.max_object_key_bytes,
        )
    }
}

/// What the rules say of all bounds.
pub open spec fn extension_limits_check(limits: ExtensionLimitsModel) -> Result<
    (),
    ExtensionLimitsError,
> {
    let entries = extension_limit_check(ExtensionLimit::Entries, limits.max_entries, 1, 64);
    let total = extension_limit_check(
        ExtensionLimit::TotalBytes,
        limits.max_total_bytes,
        2,
        262144,
    );
    let key = extension_limit_check(ExtensionLimit::KeyBytes, limits.max_key_bytes, 1, 512);
    if entries is Err {
        entries
    } else if total is Err {
        total
    } else if key is Err {
        key
    } else {
        value_limits_check(limits.value_json_limits)
    }
}

fn validate_extension_limit(limit: ExtensionLimit, actual: usize, minimum: usize, maximum: usize) -> (r:
    Result<(), ExtensionLimitsError>)
    ensures
        r == extension_limit_check(limit, actual, minimum, maximum),
{
    if actual == 0 {
        return Err(ExtensionLimitsError::Zero { limit });
    }
    if actual < minimum {
        return Err(ExtensionLimitsError::BelowMinimum { limit, minimum, actual });
    }
    if actual > maximum {
        return Err(ExtensionLimitsError::AboveHardMaximum { limit, maximum, actual });
    }
    Ok(())
}

fn validate_value_limit(limit: JsonLimit, actual: usize, maximum: usize) -> (r: Result<
    (),
    ExtensionLimitsError,
>)
    ensures
        r == value_limit_check(limit, actual, maximum),
{
    if actual > maximum {
        return Err(
            ExtensionLimitsError::AboveHardMaximum {
                limit: ExtensionLimit::ValueJson(limit),
                maximum,
                actual,
            },
        );
    }
    Ok(())
}

fn validate_value_json_limits(limits: JsonLimits) -> (r: Result<(), ExtensionLimitsError>)
    ensures
        r == value_limits_check(limits@),
{
    let maximum = JsonLimits::default();
    validate_value_limit(JsonLimit::Bytes, limits.max_bytes(), maximum.max_bytes())?;
    validate_value_limit(JsonLimit::Depth, limits.max_depth(), maximum.max_depth())?;
    validate_value_limit(
        JsonLimit::ContainerEntries,
        limits.max_container_entries(),
        maximum.max_container_entries(),
    )?;
    validate_value_limit(JsonLimit::Nodes, limits.max_nodes(), maximum.max_nodes())?;
    validate_value_limit(
        JsonLimit::StringBytes,
        limits.max_string_bytes(),
        maximum.max_string_bytes(),
    )?;
    validate_value_limit(
        JsonLimit::ObjectKeyBytes,
        limits.max_object_key_bytes(),
        maximum.max_object_key_bytes(),
    )
}

impl ExtensionLimits {
    /// The bounds.
    pub closed spec fn view(&self) -> ExtensionLimitsModel {
        ExtensionLimitsModel {
            max_entries: self.max_entries,
            max_total_bytes: self.max_total_bytes,
            max_key_bytes: self.max_key_bytes,
            value_json_limits: self.value_json_limits@,
        }
    }

    /// The bounds satisfy the rules.
    #[verifier::type_invariant]
    pub open spec fn well_formed(&self) -> bool {
        extension_limits_check(self@) is Ok
    }

    /// Returns the bounds that no configuration exceeds.
    pub fn hard_maximum() -> (r: ExtensionLimits)
        ensures
            r@ == hard_extension_limits(),
    {
        ExtensionLimits {
            max_entries: 64,
            max_total_bytes: 262144,
            max_key_bytes: 512,
            value_json_limits: JsonLimits::default(),
        }
    }

    /// Makes bounds within the hard maximum.
    pub fn try_new(
        max_entries: usize,
        max_total_bytes: usize,
        max_key_bytes: usize,
        value_json_limits: JsonLimits,
    ) -> (r: Result<ExtensionLimits, ExtensionLimitsError>)
        ensures
            ({
                let model = ExtensionLimitsModel {
                    max_entries,
                    max_total_bytes,
                    max_key_bytes,
                    value_json_limits: value_json_limits@,
                };
                match (r, extension_limits_check(model)) {
                    (Ok(limits), Ok(())) => limits@ == model,
                    (Err(e), Err(expected)) => e == expected,
                    _ => false,
                }
            }),
    {
        validate_extension_limit(ExtensionLimit::Entries, max_entries, 1, 64)?;
        validate_extension_limit(ExtensionLimit::TotalBytes, max_total_bytes, 2, 262144)?;
        validate_extension_limit(ExtensionLimit::KeyBytes, max_key_bytes, 1, 512)?;
        validate_value_json_limits(value_json_limits)?;
        Ok(ExtensionLimits { max_entries, max_total_bytes, max_key_bytes, value_json_limits })
    }

    /// Returns the bound of the number of entries.
    pub fn max_entries(self) -> (r: usize)
        ensures
            r == self@.max_entries,
    {
        self.max_entries
    }

    /// Returns the bound of the compact bytes of the whole map.
    pub fn max_total_bytes(self) -> (r: usize)
        ensures
            r == self@.max_total_bytes,
    {
        self.max_total_bytes
    }

    /// Returns the bound of the bytes of a key.
    pub fn max_key_bytes(self) -> (r: usize)
        ensures
            r == self@.max_key_bytes,
    {
        self.max_key_bytes
    }

    /// Returns the bounds of the values.
    pub fn value_json_limits(self) -> (r: JsonLimits)
        ensures
            r@ == self@.value_json_limits,
    {
        self.value_json_limits
    }
}

impl Default for ExtensionLimits {
    fn default() -> (r: Self)
        ensures
            r@ == hard_extension_limits(),
    {
        ExtensionLimits::hard_maximum()
    }
}

// ---------------------------------------------------------------------------
// Maps
// ---------------------------------------------------------------------------

/// A key and its value.
pub struct ExtensionEntry {
    key: ExtensionKey,
    value: ExtensionValue,
}

/// The values of [`ExtensionEntry`].
pub ghost struct EntryModel {
    pub key: Seq<char>,
    pub value: ExtensionValueModel,
}

impl View for ExtensionEntry {
    type V = EntryModel;

    closed spec fn view(&self) -> EntryModel {
        EntryModel { key: self.key@, value: self.value@ }
    }
}

impl Keyed for ExtensionEntry {
    open spec fn key_of(model: EntryModel) -> Seq<char> {
        model.key
    }

    open spec fn sound(model: EntryModel) -> bool {
        extension_key_sound(model.key)
    }

    fn key_text(&self) -> (r: &str) {
        self.key.as_str()
    }
}

impl ExtensionEntry {
    /// Returns the key.
    pub fn key(&self) -> (r: &ExtensionKey)
        ensures
            r@ == self@.key,
    {
        &self.key
    }

    /// Returns the value.
    pub fn value(&self) -> (r: &ExtensionValue)
        ensures
            r@ == self@.value,
    {
        &self.value
    }
}

impl Clone for ExtensionEntry {
    fn clone(&self) -> (r: Self)
        ensures
            r@ == self@,
    {
        ExtensionEntry { key: self.key.clone(), value: self.value.clone() }
    }
}

/// Rejected map.
#[derive(Clone, Copy, Debug, PartialEq, Eq, Structural)]
#[allow(inconsistent_fields)]
pub enum ExtensionsError {
    /// There are more entries than the maximum.
    TooManyEntries { max: usize, observed: usize },
    /// A key occurs twice.
    DuplicateKey,
    /// A key is longer than the maximum.
    KeyTooLong { max: usize, actual: usize },
    /// A value exceeds its bounds.
    Value { source: BoundedJsonError },
    /// The map has more compact bytes than the maximum.
    TotalBytesExceeded { max: usize, actual: usize },
}

/// How many bytes an entry takes: the quoted key, a colon and the value.
pub open spec fn entry_size(entry: EntryModel) -> nat {
    encode_utf8(entry.key).len() + 3 + json_size(extension_value_json(entry.value))
}

/// How many bytes entries and the commas between them take.
pub open spec fn entries_size(entries: Seq<EntryModel>) -> nat
    decreases entries.len(),
{
    if entries.len() == 0 {
        0
    } else {
        entries_size(entries.drop_last()) + separator_size((entries.len() - 1) as nat)
            + entry_size(entries.last())
    }
}

/// What adding an entry to entries in order comes to.
pub open spec fn extended(
    entries: Seq<EntryModel>,
    entry: EntryModel,
    limits: ExtensionLimitsModel,
) -> Result<Seq<EntryModel>, ExtensionsError> {
    let length = encode_utf8(entry.key).len();
    let tally = tally_document(limits.value_json_limits, entry.value.value);
    let bytes = 2 + entries_size(entries) + separator_size(entries.len()) + entry_size(entry);
    if length > limits.max_key_bytes {
        Err(ExtensionsError::KeyTooLong { max: limits.max_key_bytes, actual: length as usize })
    } else if keys::<ExtensionEntry>(entries).contains(entry.key) {
        Err(ExtensionsError::DuplicateKey)
    } else if entries.len() == limits.max_entries {
        Err(
            ExtensionsError::TooManyEntries {
                max: limits.max_entries,
                observed: (limits.max_entries + 1) as usize,
            },
        )
    } else if tally is Err {
        Err(ExtensionsError::Value { source: tally->Err_0 })
    } else if bytes > limits.max_total_bytes {
        Err(
            ExtensionsError::TotalBytesExceeded {
                max: limits.max_total_bytes,
                actual: capped(bytes),
            },
        )
    } else {
        Ok(placed::<ExtensionEntry>(entries, entry))
    }
}

/// Whether there is room for one more entry under the hard maximum.
pub open spec fn room_check(entries: Seq<EntryModel>) -> Result<(), ExtensionsError> {
    if entries.len() == 64 {
        Err(ExtensionsError::TooManyEntries { max: 64, observed: 65 })
    } else {
        Ok(())
    }
}

/// What collecting entries comes to.
pub open spec fn assembled(entries: Seq<EntryModel>, limits: ExtensionLimitsModel) -> Result<
    Seq<EntryModel>,
    ExtensionsError,
>
    decreases entries.len(),
{
    if entries.len() == 0 {
        Ok(Seq::empty())
    } else {
        match assembled(entries.drop_last(), limits) {
            Err(e) => Err(e),
            Ok(before) => extended(before, entries.last(), limits),
        }
    }
}

/// The JSON form of a map.
pub open spec fn extensions_json(entries: Seq<EntryModel>) -> Json {
    Json::Object(
        Seq::new(
            entries.len(),
            |i: int|
                Member { name: entries[i].key, value: extension_value_json(entries[i].value) },
        ),
    )
}

/// The models of pairs of keys and values.
pub open spec fn pairs_view(pairs: Seq<(ExtensionKey, ExtensionValue)>) -> Seq<EntryModel> {
    Seq::new(pairs.len(), |i: int| EntryModel { key: pairs[i].0@, value: pairs[i].1@ })
}

/// Another entry takes its own bytes and a comma, wherever it is put.
pub proof fn insertion_size(entries: Seq<EntryModel>, entry: EntryModel, at: int)
    requires
        0 <= at <= entries.len(),
    ensures
        entries_size(entries.insert(at, entry)) == entries_size(entries) + separator_size(
            entries.len(),
        ) + entry_size(entry),
    decreases entries.len(),
{
    let more = entries.insert(at, entry);
    if at == entries.len() {
        assert(more.drop_last() =~= entries);
        assert(more.last() == entry);
    } else {
        let front = entries.drop_last();
        insertion_size(front, entry, at);
        assert(more.drop_last() =~= front.insert(at, entry));
        assert(more.last() == entries.last());
    }
}

/// The bytes that are counted are those of the compact text.
pub proof fn entries_size_is_exact(entries: Seq<EntryModel>)
    requires
        forall|i: int| 0 <= i < entries.len() ==> extension_key_sound(#[trigger] entries[i].key),
    ensures
        json_size(extensions_json(entries)) == 2 + entries_size(entries),
{
    members_size_is_exact(entries, entries.len());
    assert(entries.take(entries.len() as int) =~= entries);
}

proof fn members_size_is_exact(entries: Seq<EntryModel>, n: nat)
    requires
        forall|i: int| 0 <= i < entries.len() ==> extension_key_sound(#[trigger] entries[i].key),
        n <= entries.len(),
    ensures
        members_size(extensions_json(entries)->Object_0, n) == entries_size(
            entries.take(n as int),
        ),
    decreases n,
{
    if n > 0 {
        members_size_is_exact(entries, (n - 1) as nat);
        let front = entries.take(n as int);
        assert(front.drop_last() =~= entries.take(n - 1));
        assert(front.last() == entries[n - 1]);
        assert(extension_key_sound(entries[n - 1].key));
        let member = extensions_json(entries)->Object_0[n - 1];
        assert(member.name == entries[n - 1].key);
    }
}

fn compact_size(value: &JsonValue) -> (r: usize)
    ensures
        r == json_size(value@),
{
    proof {
        json_text_size(value@);
    }
    utf8_len(value.to_string().as_str())
}

/// A map of extensions, in the order of their keys.
pub struct Extensions {
    entries: Vec<ExtensionEntry>,
    compact_bytes: usize,
}

/// What holds of the entries of every map.
pub open spec fn extensions_sound(entries: Seq<EntryModel>) -> bool {
    &&& ascending(keys::<ExtensionEntry>(entries))
    &&& entries.len() <= 64
    &&& 2 + entries_size(entries) <= 262144
    &&& forall|i: int| 0 <= i < entries.len() ==> extension_key_sound(#[trigger] entries[i].key)
}

impl View for Extensions {
    type V = Seq<EntryModel>;

    /// The entries.
    closed spec fn view(&self) -> Seq<EntryModel> {
        views(self.entries@)
    }
}

fn insert_extension(
    entries: &mut Vec<ExtensionEntry>,
    compact_bytes: &mut usize,
    key: ExtensionKey,
    value: ExtensionValue,
    limits: ExtensionLimits,
) -> (r: Result<(), ExtensionsError>)
    requires
        extensions_sound(views(old(entries)@)),
        *old(compact_bytes) == 2 + entries_size(views(old(entries)@)),
        old(entries)@.len() <= limits@.max_entries <= 64,
        limits@.max_total_bytes <= 262144,
    ensures
        match (
            r,
            extended(
                views(old(entries)@),
                EntryModel { key: key@, value: value@ },
                limits@,
            ),
        ) {
            (Ok(()), Ok(more)) => {
                &&& views(final(entries)@) == more
                &&& extensions_sound(more)
                &&& *final(compact_bytes) == 2 + entries_size(more)
                &&& more.len() <= limits@.max_entries
            },
            (Err(e), Err(expected)) => {
                &&& e == expected
                &&& final(entries)@ == old(entries)@
                &&& *final(compact_bytes) == *old(compact_bytes)
            },
            _ => false,
        },
{
    let ghost before = views(entries@);
    let ghost entry = EntryModel { key: key@, value: value@ };
    let length: usize = utf8_len(key.as_str());
    if length > limits.max_key_bytes {
        return Err(
            ExtensionsError::KeyTooLong { max: limits.max_key_bytes, actual: length },
        );
    }
    if holds(entries.as_slice(), key.as_str()) {
        return Err(ExtensionsError::DuplicateKey);
    }
    if entries.len() == limits.max_entries {
        return Err(
            ExtensionsError::TooManyEntries {
                max: limits.max_entries,
                observed: limits.max_entries + 1,
            },
        );
    }
    let value = match value.try_restrict(limits.value_json_limits) {
        Ok(value) => value,
        Err(source) => {
            return Err(ExtensionsError::Value { source });
        },
    };
    let value_bytes: usize = compact_size(&value.to_json());
    let separator_bytes: usize = if entries.len() == 0 {
        0
    } else {
        1
    };
    let next_bytes: usize = compact_bytes.saturating_add(separator_bytes).saturating_add(
        length,
    ).saturating_add(3).saturating_add(value_bytes);
    if next_bytes > limits.max_total_bytes {
        return Err(
            ExtensionsError::TotalBytesExceeded { max: limits.max_total_bytes, actual: next_bytes },
        );
    }
    proof {
        rank_in_range::<ExtensionEntry>(before, entry.key);
        insertion_size(before, entry, rank::<ExtensionEntry>(before, entry.key) as int);
    }
    let _inserted = insert_new(entries, ExtensionEntry { key, value });
    proof {
        let more = views(entries@);
        let at = rank::<ExtensionEntry>(before, entry.key) as int;
        assert forall|i: int| 0 <= i < more.len() implies extension_key_sound(
            #[trigger] more[i].key,
        ) by {
            if i < at {
                assert(more[i] == before[i]);
            } else if i > at {
                assert(more[i] == before[i - 1]);
            }
        }
    }
    *compact_bytes = next_bytes;
    Ok(())
}

impl Extensions {
    /// The compact bytes, as they were counted.
    pub closed spec fn counted(&self) -> nat {
        self.compact_bytes as nat
    }

    /// The entries are in order, none twice and not too many, and their bytes
    /// were counted.
    #[verifier::type_invariant]
    pub open spec fn well_formed(&self) -> bool {
        &&& extensions_sound(self@)
        &&& self.counted() == 2 + entries_size(self@)
    }

    /// Collects entries under the hard maximum.
    pub fn try_new(entries: Vec<(ExtensionKey, ExtensionValue)>) -> (r: Result<
        Extensions,
        ExtensionsError,
    >)
        ensures
            match (r, assembled(pairs_view(entries@), hard_extension_limits())) {
                (Ok(map), Ok(models)) => map@ == models,
                (Err(e), Err(expected)) => e == expected,
                _ => false,
            },
    {
        Extensions::try_new_with_limits(entries, ExtensionLimits::hard_maximum())
    }

    /// Collects entries.
    pub fn try_new_with_limits(
        entries: Vec<(ExtensionKey, ExtensionValue)>,
        limits: ExtensionLimits,
    ) -> (r: Result<Extensions, ExtensionsError>)
        ensures
            match (r, assembled(pairs_view(entries@), limits@)) {
                (Ok(map), Ok(models)) => map@ == models,
                (Err(e), Err(expected)) => e == expected,
                _ => false,
            },
    {
        proof {
            use_type_invariant(&limits);
        }
        let ghost given = entries@;
        let ghost all = pairs_view(given);
        let mut map: Vec<ExtensionEntry> = Vec::new();
        let mut compact_bytes: usize = 2;
        assert(views(map@) =~= Seq::<EntryModel>::empty());
        assert(all.take(0) =~= Seq::<EntryModel>::empty());
        for pair in pairs: entries
            invariant
                pairs.seq() == given,
                all == pairs_view(given),
                extensions_sound(views(map@)),
                compact_bytes == 2 + entries_size(views(map@)),
                map@.len() <= limits@.max_entries <= 64,
                limits@.max_total_bytes <= 262144,
                assembled(all.take(pairs.index() as int), limits@) == Ok::<
                    Seq<EntryModel>,
                    ExtensionsError,
                >(views(map@)),
        {
            let ghost done = pairs.index() as int;
            proof {
                assert(pair == given[done]);
                assert(all.take(done + 1).drop_last() =~= all.take(done));
                assert(all.take(done + 1).last() == all[done]);
                if assembled(all.take(done + 1), limits@) is Err {
                    assembling_stays_failed(all, limits@, done + 1, all.len() as int);
                    assert(all.take(all.len() as int) =~= all);
                }
            }
            let (key, value) = pair;
            insert_extension(&mut map, &mut compact_bytes, key, value, limits)?;
        }
        assert(all.take(all.len() as int) =~= all);
        Ok(Extensions { entries: map, compact_bytes })
    }

    /// Checks that there is room for one more entry under the hard maximum,
    /// before its key is read.
    pub fn check_room(&self) -> (r: Result<(), ExtensionsError>)
        ensures
            r == room_check(self@),
    {
        if self.entries.len() == 64 {
            return Err(ExtensionsError::TooManyEntries { max: 64, observed: 65 });
        }
        Ok(())
    }

    /// Checks the key of one more entry before its value is read. A key that is
    /// refused is refused with every value.
    pub fn check_key(&self, key: &ExtensionKey) -> (r: Result<(), ExtensionsError>)
        ensures
            r == (if keys::<ExtensionEntry>(self@).contains(key@) {
                Err::<(), ExtensionsError>(ExtensionsError::DuplicateKey)
            } else {
                Ok(())
            }),
            r is Err ==> forall|value: ExtensionValueModel| #[trigger]
                extended(self@, EntryModel { key: key@, value }, hard_extension_limits()) == Err::<
                    Seq<EntryModel>,
                    ExtensionsError,
                >(ExtensionsError::DuplicateKey),
    {
        proof {
            use_type_invariant(self);
            use_type_invariant(key);
        }
        if holds(self.entries.as_slice(), key.as_str()) {
            return Err(ExtensionsError::DuplicateKey);
        }
        Ok(())
    }

    /// Adds an entry under the hard maximum.
    pub fn with_entry(self, key: ExtensionKey, value: ExtensionValue) -> (r: Result<
        Extensions,
        ExtensionsError,
    >)
        ensures
            match (
                r,
                extended(
                    self@,
                    EntryModel { key: key@, value: value@ },
                    hard_extension_limits(),
                ),
            ) {
                (Ok(map), Ok(models)) => map@ == models,
                (Err(e), Err(expected)) => e == expected,
                _ => false,
            },
    {
        proof {
            use_type_invariant(&self);
        }
        let mut entries: Vec<ExtensionEntry> = self.entries;
        let mut compact_bytes: usize = self.compact_bytes;
        insert_extension(
            &mut entries,
            &mut compact_bytes,
            key,
            value,
            ExtensionLimits::hard_maximum(),
        )?;
        Ok(Extensions { entries, compact_bytes })
    }

    /// Collects the entries again under other limits.
    pub fn try_restrict(self, limits: ExtensionLimits) -> (r: Result<Extensions, ExtensionsError>)
        ensures
            match (r, assembled(self@, limits@)) {
                (Ok(map), Ok(models)) => map@ == models,
                (Err(e), Err(expected)) => e == expected,
                _ => false,
            },
    {
        let pairs = self.into_entries();
        Extensions::try_new_with_limits(pairs, limits)
    }

    /// Returns the number of entries.
    pub fn len(&self) -> (r: usize)
        ensures
            r == self@.len(),
    {
        self.entries.len()
    }

    /// Tests whether there is no entry.
    pub fn is_empty(&self) -> (r: bool)
        ensures
            r == (self@.len() == 0),
    {
        self.entries.len() == 0
    }

    /// Returns the exact length of the compact text of the map.
    pub fn compact_bytes(&self) -> (r: usize)
        ensures
            r == json_size(extensions_json(self@)),
            r <= 262144,
    {
        proof {
            use_type_invariant(self);
            entries_size_is_exact(self@);
        }
        self.compact_bytes
    }

    /// Looks a key up.
    pub fn get(&self, key: &str) -> (r: Option<&ExtensionValue>)
        ensures
            match (r, find::<ExtensionEntry>(self@, key@)) {
                (Some(value), Some(entry)) => value@ == entry.value,
                (None, None) => true,
                _ => false,
            },
    {
        proof {
            use_type_invariant(self);
        }
        match lookup(self.entries.as_slice(), key) {
            Some(entry) => Some(&entry.value),
            None => None,
        }
    }

    /// Returns the entries in the order of their keys.
    pub fn iter(&self) -> (r: &[ExtensionEntry])
        ensures
            views(r@) == self@,
            extensions_sound(self@),
    {
        proof {
            use_type_invariant(self);
        }
        self.entries.as_slice()
    }

    /// Takes the map apart, in the order of the keys.
    pub fn into_entries(self) -> (r: Vec<(ExtensionKey, ExtensionValue)>)
        ensures
            pairs_view(r@) == self@,
    {
        let ghost all = self.entries@;
        let mut pairs: Vec<(ExtensionKey, ExtensionValue)> = Vec::new();
        for entry in entries: self.entries
            invariant
                entries.seq() == all,
                pairs@.len() == entries.index(),
                forall|k: int|
                    0 <= k < pairs@.len() ==> (EntryModel {
                        key: (#[trigger] pairs@[k]).0@,
                        value: pairs@[k].1@,
                    }) == all[k]@,
        {
            assert(entry == all[pairs@.len() as int]);
            pairs.push((entry.key, entry.value));
        }
        assert(pairs_view(pairs@) =~= views(all));
        pairs
    }

    /// Writes the JSON form.
    pub fn to_json(&self) -> (r: JsonValue)
        ensures
            r@ == extensions_json(self@),
    {
        let mut members: Vec<JsonMember> = Vec::new();
        let mut i: usize = 0;
        while i < self.entries.len()
            invariant
                i <= self.entries@.len(),
                members@.len() == i,
                forall|j: int|
                    0 <= j < i ==> (#[trigger] members@[j])@ == (Member {
                        name: self.entries@[j]@.key,
                        value: extension_value_json(self.entries@[j]@.value),
                    }),
            decreases self.entries@.len() - i,
        {
            let entry = &self.entries[i];
            members.push(JsonMember::new(entry.key.as_str(), entry.value.to_json()));
            i = i + 1;
        }
        let r = JsonValue::object(members);
        assert(r@->Object_0 =~= extensions_json(self@)->Object_0);
        r
    }
}

impl<'a> IntoIterator for &'a Extensions {
    type Item = &'a ExtensionEntry;

    type IntoIter = core::slice::Iter<'a, ExtensionEntry>;

    fn into_iter(self) -> (r: core::slice::Iter<'a, ExtensionEntry>)
        ensures
            views(into_iter_elts(r)) == self@,
            r.remaining() == into_iter_elts(r).as_ref(),
    {
        let entries = self.entries.as_slice();
        let r = entries.iter();
        assert(r.remaining() == entries@.as_ref());
        assert(into_iter_elts(r) =~= entries@);
        r
    }
}

impl TryFrom<Vec<(ExtensionKey, ExtensionValue)>> for Extensions {
    type Error = ExtensionsError;

    fn try_from(entries: Vec<(ExtensionKey, ExtensionValue)>) -> (r: Result<Self, Self::Error>)
        ensures
            match (r, assembled(pairs_view(entries@), hard_extension_limits())) {
                (Ok(map), Ok(models)) => map@ == models,
                (Err(e), Err(expected)) => e == expected,
                _ => false,
            },
    {
        Extensions::try_new(entries)
    }
}

// What comes out is stated on `try_from` itself, over views.
impl vstd::std_specs::convert::TryFromSpecImpl<Vec<(ExtensionKey, ExtensionValue)>> for Extensions {
    open spec fn obeys_try_from_spec() -> bool {
        false
    }

    open spec fn try_from_spec(entries: Vec<(ExtensionKey, ExtensionValue)>) -> Result<Self, ExtensionsError> {
        arbitrary()
    }
}

impl Default for Extensions {
    fn default() -> (r: Self)
        ensures
            r@ == Seq::<EntryModel>::empty(),
    {
        let entries: Vec<ExtensionEntry> = Vec::new();
        assert(views(entries@) =~= Seq::<EntryModel>::empty());
        Extensions { entries, compact_bytes: 2 }
    }
}

impl Clone for Extensions {
    fn clone(&self) -> (r: Self)
        ensures
            r@ == self@,
    {
        proof {
            use_type_invariant(self);
        }
        let mut entries: Vec<ExtensionEntry> = Vec::new();
        let mut i: usize = 0;
        while i < self.entries.len()
            invariant
                i <= self.entries@.len(),
                entries@.len() == i,
                forall|j: int| 0 <= j < i ==> (#[trigger] entries@[j])@ == self.entries@[j]@,
            decreases self.entries@.len() - i,
        {
            entries.push(self.entries[i].clone());
            i = i + 1;
        }
        assert(views(entries@) =~= views(self.entries@));
        Extensions { entries, compact_bytes: self.compact_bytes }
    }
}

/// The entries have the same keys and equal values.
pub open spec fn entries_equal(a: Seq<EntryModel>, b: Seq<EntryModel>) -> bool {
    a.len() == b.len() && forall|i: int|
        0 <= i < a.len() ==> (#[trigger] a[i]).key == b[i].key && extension_value_equal(
            a[i].value,
            b[i].value,
        )
}

impl PartialEq for Extensions {
    fn eq(&self, other: &Self) -> (r: bool) {
        if self.entries.len() != other.entries.len() {
            assert(self@.len() != other@.len());
            return false;
        }
        let mut i: usize = 0;
        while i < self.entries.len()
            invariant
                i <= self.entries@.len() == other.entries@.len(),
                forall|j: int|
                    0 <= j < i ==> (#[trigger] self@[j]).key == other@[j].key
                        && extension_value_equal(self@[j].value, other@[j].value),
            decreases self.entries@.len() - i,
        {
            if self.entries[i].key != other.entries[i].key || self.entries[i].value
                != other.entries[i].value {
                assert(self@[i as int].key != other@[i as int].key || !extension_value_equal(
                    self@[i as int].value,
                    other@[i as int].value,
                ));
                return false;
            }
            i = i + 1;
        }
        true
    }
}

impl vstd::std_specs::cmp::PartialEqSpecImpl for Extensions {
    open spec fn obeys_eq_spec() -> bool {
        true
    }

    open spec fn eq_spec(&self, other: &Self) -> bool {
        entries_equal(self@, other@)
    }
}

impl Eq for Extensions {

}

/// What entries fail on, they fail on together with those that follow.
proof fn assembling_stays_failed(
    entries: Seq<EntryModel>,
    limits: ExtensionLimitsModel,
    i: int,
    k: int,
)
    requires
        0 <= i <= k <= entries.len(),
        assembled(entries.take(i), limits) is Err,
    ensures
        assembled(entries.take(k), limits) == assembled(entries.take(i), limits),
    decreases k - i,
{
    if i < k {
        assembling_stays_failed(entries, limits, i, k - 1);
        assert(entries.take(k).drop_last() =~= entries.take(k - 1));
    }
}

// ---------------------------------------------------------------------------
// Debug output
// ---------------------------------------------------------------------------

/// What is shown of a value: its schema and what was counted of it.
pub open spec fn extension_value_shown(model: ExtensionValueModel, alternate: bool) -> Seq<char> {
    let value = entry_text("value"@, bounded_json_shown(measure(model.value), alternate));
    match model.schema {
        None => struct_text("ExtensionValue::Opaque"@, seq![value], true, alternate),
        Some(schema) => struct_text(
            "ExtensionValue::SchemaBound"@,
            seq![entry_text("schema"@, schema_shown(schema, alternate)), value],
            true,
            alternate,
        ),
    }
}

impl ExtensionValue {
    /// Returns what is shown of it for debugging.
    pub fn debug_text(&self, alternate: bool) -> (r: String)
        ensures
            r@ == extension_value_shown(self@, alternate),
    {
        let ghost shown = entry_text(
            "value"@,
            bounded_json_shown(measure(self@.value), alternate),
        );
        match self {
            ExtensionValue::Opaque { value } => {
                let fields = vec![entry_string("value", value.debug_text(alternate))];
                assert(texts(fields@) =~= seq![shown]);
                struct_string("ExtensionValue::Opaque", &fields, true, alternate)
            },
            ExtensionValue::SchemaBound { schema, value } => {
                let fields = vec![
                    entry_string("schema", schema.debug_text(alternate)),
                    entry_string("value", value.debug_text(alternate)),
                ];
                assert(texts(fields@) =~= seq![
                    entry_text("schema"@, schema_shown(schema@, alternate)),
                    shown,
                ]);
                struct_string("ExtensionValue::SchemaBound", &fields, true, alternate)
            },
        }
    }
}

impl core::fmt::Debug for ExtensionValue {
    fn fmt(&self, formatter: &mut core::fmt::Formatter<'_>) -> core::fmt::Result {
        let alternate: bool = is_alternate(formatter);
        write_text(formatter, self.debug_text(alternate).as_str())
    }
}

/// The fields that are shown of a map.
pub open spec fn extensions_fields(entries: nat, compact_bytes: nat) -> Seq<Seq<char>> {
    seq![
        entry_text("entries"@, decimal_text(entries)),
        entry_text("compact_bytes"@, decimal_text(compact_bytes)),
    ]
}

/// What is shown of a map: how many entries it has, and how many bytes.
pub open spec fn extensions_shown(entries: nat, compact_bytes: nat, alternate: bool) -> Seq<char> {
    struct_text(
        "Extensions"@,
        extensions_fields(entries, compact_bytes),
        true,
        alternate,
    )
}

impl Extensions {
    /// Returns what is shown of it for debugging.
    pub fn debug_text(&self, alternate: bool) -> (r: String)
        ensures
            r@ == extensions_shown(self@.len(), self.counted(), alternate),
    {
        let fields = vec![
            entry_string("entries", number_string(self.entries.len())),
            entry_string("compact_bytes", number_string(self.compact_bytes)),
        ];
        assert(texts(fields@) =~= extensions_fields(self@.len(), self.counted()));
        struct_string("Extensions", &fields, true, alternate)
    }
}

impl core::fmt::Debug for Extensions {
    fn fmt(&self, formatter: &mut core::fmt::Formatter<'_>) -> core::fmt::Result {
        let alternate: bool = is_alternate(formatter);
        write_text(formatter, self.debug_text(alternate).as_str())
    }
}

} // verus!
