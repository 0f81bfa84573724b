//! Pinned definitions: schemas, capabilities, reducers and graphs.

use vstd::prelude::*;
use vstd::utf8::encode_utf8;

use crate::debug::{
    entry_string, entry_text, is_alternate, name_string, name_text, struct_string, struct_text,
    write_text,
};
use crate::digest::{digest_shown, digest_text, Digest};
use crate::identity::{principal_json, principal_shown, PrincipalIdentity, PrincipalModel};
use crate::json_value::{Json, JsonMember, JsonValue, Member};
use crate::names::CapabilityName;
use crate::text::{texts, utf8_len};
use crate::uri::{parse_uri, parts_view, uri_parsed, UriModel, UriParts};
use crate::version::{version_shown, version_text, Version};

verus! {

/// Rejected schema identifier.
#[derive(Clone, Copy, Debug, PartialEq, Eq, Structural)]
pub enum SchemaIdError {
    /// The text has no bytes.
    Empty,
    /// The text is longer than the maximum.
    TooLong { max: usize, actual: usize },
    /// The text is no URI.
    InvalidUri,
}

/// What the rules say of a schema identifier whose URI reads as `parsed`.
pub open spec fn schema_id_check(bytes: Seq<u8>, parsed: Option<UriModel>) -> Result<
    (),
    SchemaIdError,
> {
    if bytes.len() == 0 {
        Err(SchemaIdError::Empty)
    } else if bytes.len() > 512 {
        Err(SchemaIdError::TooLong { max: 512, actual: bytes.len() as usize })
    } else if parsed is None {
        Err(SchemaIdError::InvalidUri)
    } else {
        Ok(())
    }
}

/// Checks a schema identifier whose URI was read as `parsed`.
pub fn check_schema_id(value: &str, parsed: &Option<UriParts>) -> (r: Result<(), SchemaIdError>)
    ensures
        r == schema_id_check(encode_utf8(value@), parts_view(*parsed)),
{
    let length: usize = utf8_len(value);
    if length == 0 {
        return Err(SchemaIdError::Empty);
    }
    if length > 512 {
        return Err(SchemaIdError::TooLong { max: 512, actual: length });
    }
    if parsed.is_none() {
        return Err(SchemaIdError::InvalidUri);
    }
    Ok(())
}

/// The identifier of a schema, a URI that is never dereferenced.
#[derive(Eq, PartialOrd, Ord, Hash)]
pub struct SchemaId {
    text: String,
}

impl SchemaId {
    /// Maximum length in bytes.
    pub const MAX_LEN: usize = 512;

    /// The text satisfies the grammar.
    #[verifier::type_invariant]
    pub open spec fn well_formed(&self) -> bool {
        schema_id_check(encode_utf8(self@), uri_parsed(self@)) is Ok
    }

    /// Validates the text.
    pub fn new(value: &str) -> (r: Result<SchemaId, SchemaIdError>)
        ensures
            match (r, schema_id_check(encode_utf8(value@), uri_parsed(value@))) {
                (Ok(id), Ok(())) => id@ == value@,
                (Err(e), Err(expected)) => e == expected,
                _ => false,
            },
    {
        let length: usize = utf8_len(value);
        if length == 0 {
            return Err(SchemaIdError::Empty);
        }
        if length > 512 {
            return Err(SchemaIdError::TooLong { max: 512, actual: length });
        }
        let parsed = parse_uri(value);
        match check_schema_id(value, &parsed) {
            Err(e) => {
                return Err(e);
            },
            Ok(()) => {},
        }
        Ok(SchemaId { text: value.to_owned() })
    }

    /// Returns the exact text.
    pub fn as_str(&self) -> (r: &str)
        ensures
            r@ == self@,
            self.well_formed(),
    {
        proof {
            use_type_invariant(self);
        }
        self.text.as_str()
    }

    /// Copies the exact text.
    pub fn to_string(&self) -> (r: String)
        ensures
            r@ == self@,
    {
        self.text.clone()
    }
}

impl View for SchemaId {
    type V = Seq<char>;

    /// The text.
    closed spec fn view(&self) -> Seq<char> {
        self.text@
    }
}

impl Clone for SchemaId {
    fn clone(&self) -> (r: Self)
        ensures
            r == *self,
    {
        proof {
            use_type_invariant(self);
        }
        SchemaId { text: self.text.clone() }
    }
}

impl PartialEq for SchemaId {
    fn eq(&self, other: &Self) -> (r: bool) {
        self.text.eq(&other.text)
    }
}

impl vstd::std_specs::cmp::PartialEqSpecImpl for SchemaId {
    open spec fn obeys_eq_spec() -> bool {
        true
    }

    open spec fn eq_spec(&self, other: &Self) -> bool {
        self@ == other@
    }
}

impl core::str::FromStr for SchemaId {
    type Err = SchemaIdError;

    fn from_str(value: &str) -> (r: Result<Self, Self::Err>)
        ensures
            match (r, schema_id_check(encode_utf8(value@), uri_parsed(value@))) {
                (Ok(id), Ok(())) => id@ == value@,
                (Err(e), Err(expected)) => e == expected,
                _ => false,
            },
    {
        SchemaId::new(value)
    }
}

/// A schema, pinned by version and digest.
pub struct SchemaReference {
    id: SchemaId,
    version: Version,
    digest: Digest,
}

/// The values of [`SchemaReference`].
pub ghost struct SchemaModel {
    pub id: Seq<char>,
    pub version: Version,
    pub digest: Seq<u8>,
}

impl View for SchemaReference {
    type V = SchemaModel;

    closed spec fn view(&self) -> SchemaModel {
        SchemaModel {
            id: self.id@,
            version: self.version,
            digest: self.digest@,
        }
    }
}

impl SchemaReference {
    /// Pins a schema.
    pub fn new(id: SchemaId, version: Version, digest: Digest) -> (r: SchemaReference)
        ensures
            r@ == (SchemaModel {
                id: id@,
                version: version,
                digest: digest@,
            }),
    {
        SchemaReference { id, version, digest }
    }

    /// Returns the identifier.
    pub fn id(&self) -> (r: &SchemaId)
        ensures
            r@ == self@.id,
    {
        &self.id
    }

    /// Returns the version.
    pub fn version(&self) -> (r: Version)
        ensures
            r == self@.version,
    {
        self.version
    }

    /// Returns the digest of the canonical schema.
    pub fn digest(&self) -> (r: Digest)
        ensures
            r@ == self@.digest,
    {
        self.digest
    }

    /// Writes the JSON form.
    pub fn to_json(&self) -> (r: JsonValue)
        ensures
            r@ == schema_json(self@),
    {
        let members = vec![
            JsonMember::new("id", JsonValue::text(self.id.as_str())),
            JsonMember::new("version", JsonValue::Text(self.version.to_string())),
            JsonMember::new("digest", JsonValue::Text(self.digest.to_string())),
        ];
        let r = JsonValue::object(members);
        assert(r@->Object_0 =~= schema_json(self@)->Object_0);
        r
    }
}

/// The JSON form of [`SchemaReference`].
pub open spec fn schema_json(model: SchemaModel) -> Json {
    Json::Object(
        seq![
            Member { name: "id"@, value: Json::Text(model.id) },
            Member { name: "version"@, value: Json::Text(version_text(model.version)) },
            Member { name: "digest"@, value: Json::Text(digest_text(model.digest)) },
        ],
    )
}

impl Clone for SchemaReference {
    fn clone(&self) -> (r: Self)
        ensures
            r@ == self@,
    {
        SchemaReference {
            id: self.id.clone(),
            version: self.version,
            digest: self.digest,
        }
    }
}

impl PartialEq for SchemaReference {
    fn eq(&self, other: &Self) -> (r: bool) {
        self.id == other.id
            && self.version == other.version
            && self.digest == other.digest
    }
}

impl vstd::std_specs::cmp::PartialEqSpecImpl for SchemaReference {
    open spec fn obeys_eq_spec() -> bool {
        true
    }

    open spec fn eq_spec(&self, other: &Self) -> bool {
        self@ == other@
    }
}

impl Eq for SchemaReference {

}

/// A capability, pinned by version.
pub struct CapabilityReference {
    name: CapabilityName,
    version: Version,
}

/// The values of [`CapabilityReference`].
pub ghost struct CapabilityModel {
    pub name: Seq<char>,
    pub version: Version,
}

impl View for CapabilityReference {
    type V = CapabilityModel;

    closed spec fn view(&self) -> CapabilityModel {
        CapabilityModel {
            name: self.name@,
            version: self.version,
        }
    }
}

impl CapabilityReference {
    /// Pins a capability.
    pub fn new(name: CapabilityName, version: Version) -> (r: CapabilityReference)
        ensures
            r@ == (CapabilityModel {
                name: name@,
                version: version,
            }),
    {
        CapabilityReference { name, version }
    }

    /// Returns the registry-local name.
    pub fn name(&self) -> (r: &CapabilityName)
        ensures
            r@ == self@.name,
    {
        &self.name
    }

    /// Returns the version.
    pub fn version(&self) -> (r: Version)
        ensures
            r == self@.version,
    {
        self.version
    }

    /// Writes the JSON form.
    pub fn to_json(&self) -> (r: JsonValue)
        ensures
            r@ == capability_json(self@),
    {
        let members = vec![
            JsonMember::new("name", JsonValue::text(self.name.as_str())),
            JsonMember::new("version", JsonValue::Text(self.version.to_string())),
        ];
        let r = JsonValue::object(members);
        assert(r@->Object_0 =~= capability_json(self@)->Object_0);
        r
    }
}

/// The JSON form of [`CapabilityReference`].
pub open spec fn capability_json(model: CapabilityModel) -> Json {
    Json::Object(
        seq![
            Member { name: "name"@, value: Json::Text(model.name) },
            Member { name: "version"@, value: Json::Text(version_text(model.version)) },
        ],
    )
}

impl Clone for CapabilityReference {
    fn clone(&self) -> (r: Self)
        ensures
            r@ == self@,
    {
        CapabilityReference {
            name: self.name.clone(),
            version: self.version,
        }
    }
}

impl PartialEq for CapabilityReference {
    fn eq(&self, other: &Self) -> (r: bool) {
        self.name == other.name
            && self.version == other.version
    }
}

impl vstd::std_specs::cmp::PartialEqSpecImpl for CapabilityReference {
    open spec fn obeys_eq_spec() -> bool {
        true
    }

    open spec fn eq_spec(&self, other: &Self) -> bool {
        self@ == other@
    }
}

impl Eq for CapabilityReference {

}

/// A capability, qualified by the owner of its registry.
pub struct CapabilityIdentity {
    owner: PrincipalIdentity,
    capability: CapabilityReference,
}

/// The values of [`CapabilityIdentity`].
pub ghost struct CapabilityIdentityModel {
    pub owner: PrincipalModel,
    pub capability: CapabilityModel,
}

impl View for CapabilityIdentity {
    type V = CapabilityIdentityModel;

    closed spec fn view(&self) -> CapabilityIdentityModel {
        CapabilityIdentityModel {
            owner: self.owner@,
            capability: self.capability@,
        }
    }
}

impl CapabilityIdentity {
    /// Qualifies a capability by its owner.
    pub fn new(owner: PrincipalIdentity, capability: CapabilityReference) -> (r: CapabilityIdentity)
        ensures
            r@ == (CapabilityIdentityModel {
                owner: owner@,
                capability: capability@,
            }),
    {
        CapabilityIdentity { owner, capability }
    }

    /// Returns the owner of the registry.
    pub fn owner(&self) -> (r: &PrincipalIdentity)
        ensures
            r@ == self@.owner,
    {
        &self.owner
    }

    /// Returns the pinned capability.
    pub fn capability(&self) -> (r: &CapabilityReference)
        ensures
            r@ == self@.capability,
    {
        &self.capability
    }

    /// Writes the JSON form.
    pub fn to_json(&self) -> (r: JsonValue)
        ensures
            r@ == capability_identity_json(self@),
    {
        let members = vec![
            JsonMember::new("owner", self.owner.to_json()),
            JsonMember::new("capability", self.capability.to_json()),
        ];
        let r = JsonValue::object(members);
        assert(r@->Object_0 =~= capability_identity_json(self@)->Object_0);
        r
    }
}

/// The JSON form of [`CapabilityIdentity`].
pub open spec fn capability_identity_json(model: CapabilityIdentityModel) -> Json {
    Json::Object(
        seq![
            Member { name: "owner"@, value: principal_json(model.owner) },
            Member { name: "capability"@, value: capability_json(model.capability) },
        ],
    )
}

impl Clone for CapabilityIdentity {
    fn clone(&self) -> (r: Self)
        ensures
            r@ == self@,
    {
        CapabilityIdentity {
            owner: self.owner.clone(),
            capability: self.capability.clone(),
        }
    }
}

impl PartialEq for CapabilityIdentity {
    fn eq(&self, other: &Self) -> (r: bool) {
        self.owner == other.owner
            && self.capability == other.capability
    }
}

impl vstd::std_specs::cmp::PartialEqSpecImpl for CapabilityIdentity {
    open spec fn obeys_eq_spec() -> bool {
        true
    }

    open spec fn eq_spec(&self, other: &Self) -> bool {
        self@ == other@
    }
}

impl Eq for CapabilityIdentity {

}

/// A reducer, pinned by the digest of its definition.
pub struct GraphReducerReference {
    identity: CapabilityIdentity,
    definition_digest: Digest,
}

/// The values of [`GraphReducerReference`].
pub ghost struct ReducerModel {
    pub identity: CapabilityIdentityModel,
    pub definition_digest: Seq<u8>,
}

impl View for GraphReducerReference {
    type V = ReducerModel;

    closed spec fn view(&self) -> ReducerModel {
        ReducerModel {
            identity: self.identity@,
            definition_digest: self.definition_digest@,
        }
    }
}

impl GraphReducerReference {
    /// Pins a reducer.
    pub fn new(identity: CapabilityIdentity, definition_digest: Digest) -> (r: GraphReducerReference)
        ensures
            r@ == (ReducerModel {
                identity: identity@,
                definition_digest: definition_digest@,
            }),
    {
        GraphReducerReference { identity, definition_digest }
    }

    /// Returns the identity.
    pub fn identity(&self) -> (r: &CapabilityIdentity)
        ensures
            r@ == self@.identity,
    {
        &self.identity
    }

    /// Returns the digest of the definition.
    pub fn definition_digest(&self) -> (r: Digest)
        ensures
            r@ == self@.definition_digest,
    {
        self.definition_digest
    }

    /// Writes the JSON form.
    pub fn to_json(&self) -> (r: JsonValue)
        ensures
            r@ == reducer_json(self@),
    {
        let members = vec![
            JsonMember::new("identity", self.identity.to_json()),
            JsonMember::new("definition_digest", JsonValue::Text(self.definition_digest.to_string())),
        ];
        let r = JsonValue::object(members);
        assert(r@->Object_0 =~= reducer_json(self@)->Object_0);
        r
    }
}

/// The JSON form of [`GraphReducerReference`].
pub open spec fn reducer_json(model: ReducerModel) -> Json {
    Json::Object(
        seq![
            Member { name: "identity"@, value: capability_identity_json(model.identity) },
            Member { name: "definition_digest"@, value: Json::Text(digest_text(model.definition_digest)) },
        ],
    )
}

impl Clone for GraphReducerReference {
    fn clone(&self) -> (r: Self)
        ensures
            r@ == self@,
    {
        GraphReducerReference {
            identity: self.identity.clone(),
            definition_digest: self.definition_digest,
        }
    }
}

impl PartialEq for GraphReducerReference {
    fn eq(&self, other: &Self) -> (r: bool) {
        self.identity == other.identity
            && self.definition_digest == other.definition_digest
    }
}

impl vstd::std_specs::cmp::PartialEqSpecImpl for GraphReducerReference {
    open spec fn obeys_eq_spec() -> bool {
        true
    }

    open spec fn eq_spec(&self, other: &Self) -> bool {
        self@ == other@
    }
}

impl Eq for GraphReducerReference {

}

/// A graph, pinned by the digest of its definition and its state schema.
pub struct GraphReference {
    identity: CapabilityIdentity,
    definition_digest: Digest,
    state_schema: SchemaReference,
}

/// The values of [`GraphReference`].
pub ghost struct GraphReferenceModel {
    pub identity: CapabilityIdentityModel,
    pub definition_digest: Seq<u8>,
    pub state_schema: SchemaModel,
}

impl View for GraphReference {
    type V = GraphReferenceModel;

    closed spec fn view(&self) -> GraphReferenceModel {
        GraphReferenceModel {
            identity: self.identity@,
            definition_digest: self.definition_digest@,
            state_schema: self.state_schema@,
        }
    }
}

impl GraphReference {
    /// Pins a graph.
    pub fn new(
        identity: CapabilityIdentity,
        definition_digest: Digest,
        state_schema: SchemaReference,
    ) -> (r: GraphReference)
        ensures
            r@ == (GraphReferenceModel {
                identity: identity@,
                definition_digest: definition_digest@,
                state_schema: state_schema@,
            }),
    {
        GraphReference { identity, definition_digest, state_schema }
    }

    /// Returns the identity.
    pub fn identity(&self) -> (r: &CapabilityIdentity)
        ensures
            r@ == self@.identity,
    {
        &self.identity
    }

    /// Returns the digest of the definition.
    pub fn definition_digest(&self) -> (r: Digest)
        ensures
            r@ == self@.definition_digest,
    {
        self.definition_digest
    }

    /// Returns the schema of checkpoint state.
    pub fn state_schema(&self) -> (r: &SchemaReference)
        ensures
            r@ == self@.state_schema,
    {
        &self.state_schema
    }

    /// Writes the JSON form.
    pub fn to_json(&self) -> (r: JsonValue)
        ensures
            r@ == graph_reference_json(self@),
    {
        let members = vec![
            JsonMember::new("identity", self.identity.to_json()),
            JsonMember::new("definition_digest", JsonValue::Text(self.definition_digest.to_string())),
            JsonMember::new("state_schema", self.state_schema.to_json()),
        ];
        let r = JsonValue::object(members);
        assert(r@->Object_0 =~= graph_reference_json(self@)->Object_0);
        r
    }
}

/// The JSON form of [`GraphReference`].
pub open spec fn graph_reference_json(model: GraphReferenceModel) -> Json {
    Json::Object(
        seq![
            Member { name: "identity"@, value: capability_identity_json(model.identity) },
            Member { name: "definition_digest"@, value: Json::Text(digest_text(model.definition_digest)) },
            Member { name: "state_schema"@, value: schema_json(model.state_schema) },
        ],
    )
}

impl Clone for GraphReference {
    fn clone(&self) -> (r: Self)
        ensures
            r@ == self@,
    {
        GraphReference {
            identity: self.identity.clone(),
            definition_digest: self.definition_digest,
            state_schema: self.state_schema.clone(),
        }
    }
}

impl PartialEq for GraphReference {
    fn eq(&self, other: &Self) -> (r: bool) {
        self.identity == other.identity
            && self.definition_digest == other.definition_digest
            && self.state_schema == other.state_schema
    }
}

impl vstd::std_specs::cmp::PartialEqSpecImpl for GraphReference {
    open spec fn obeys_eq_spec() -> bool {
        true
    }

    open spec fn eq_spec(&self, other: &Self) -> bool {
        self@ == other@
    }
}

impl Eq for GraphReference {

}

// ---------------------------------------------------------------------------
// Debug output
// ---------------------------------------------------------------------------

impl SchemaId {
    /// Returns what is shown of it for debugging.
    pub fn debug_text(&self, alternate: bool) -> (r: String)
        ensures
            r@ == name_text("SchemaId"@, self@, alternate),
    {
        name_string("SchemaId", self.text.as_str(), alternate)
    }
}

impl core::fmt::Debug for SchemaId {
    fn fmt(&self, formatter: &mut core::fmt::Formatter<'_>) -> core::fmt::Result {
        let alternate: bool = is_alternate(formatter);
        write_text(formatter, self.debug_text(alternate).as_str())
    }
}

/// The fields that are shown of a pinned schema.
pub open spec fn schema_fields(model: SchemaModel, alternate: bool) -> Seq<Seq<char>> {
    seq![
        entry_text("id"@, name_text("SchemaId"@, model.id, alternate)),
        entry_text("version"@, version_shown(model.version, alternate)),
        entry_text("digest"@, digest_shown(model.digest, alternate)),
    ]
}

/// What is shown of a pinned schema.
pub open spec fn schema_shown(model: SchemaModel, alternate: bool) -> Seq<char> {
    struct_text("SchemaReference"@, schema_fields(model, alternate), false, alternate)
}

impl SchemaReference {
    /// Returns what is shown of it for debugging.
    pub fn debug_text(&self, alternate: bool) -> (r: String)
        ensures
            r@ == schema_shown(self@, alternate),
    {
        let fields = vec![
            entry_string("id", self.id.debug_text(alternate)),
            entry_string("version", self.version.debug_text(alternate)),
            entry_string("digest", self.digest.debug_text(alternate)),
        ];
        assert(texts(fields@) =~= schema_fields(self@, alternate));
        struct_string("SchemaReference", &fields, false, alternate)
    }
}

impl core::fmt::Debug for SchemaReference {
    fn fmt(&self, formatter: &mut core::fmt::Formatter<'_>) -> core::fmt::Result {
        let alternate: bool = is_alternate(formatter);
        write_text(formatter, self.debug_text(alternate).as_str())
    }
}

/// The fields that are shown of a capability.
pub open spec fn capability_fields(model: CapabilityModel, alternate: bool) -> Seq<Seq<char>> {
    seq![
        entry_text("name"@, name_text("CapabilityName"@, model.name, alternate)),
        entry_text("version"@, version_shown(model.version, alternate)),
    ]
}

/// What is shown of a capability.
pub open spec fn capability_shown(model: CapabilityModel, alternate: bool) -> Seq<char> {
    struct_text("CapabilityReference"@, capability_fields(model, alternate), false, alternate)
}

impl CapabilityReference {
    /// Returns what is shown of it for debugging.
    pub fn debug_text(&self, alternate: bool) -> (r: String)
        ensures
            r@ == capability_shown(self@, alternate),
    {
        let fields = vec![
            entry_string("name", self.name.debug_text(alternate)),
            entry_string("version", self.version.debug_text(alternate)),
        ];
        assert(texts(fields@) =~= capability_fields(self@, alternate));
        struct_string("CapabilityReference", &fields, false, alternate)
    }
}

impl core::fmt::Debug for CapabilityReference {
    fn fmt(&self, formatter: &mut core::fmt::Formatter<'_>) -> core::fmt::Result {
        let alternate: bool = is_alternate(formatter);
        write_text(formatter, self.debug_text(alternate).as_str())
    }
}

/// The fields that are shown of a capability and its owner.
pub open spec fn capability_identity_fields(
    model: CapabilityIdentityModel,
    alternate: bool,
) -> Seq<Seq<char>> {
    seq![
        entry_text("owner"@, principal_shown(model.owner, alternate)),
        entry_text("capability"@, capability_shown(model.capability, alternate)),
    ]
}

/// What is shown of a capability and its owner.
pub open spec fn capability_identity_shown(
    model: CapabilityIdentityModel,
    alternate: bool,
) -> Seq<char> {
    struct_text(
        "CapabilityIdentity"@,
        capability_identity_fields(model, alternate),
        false,
        alternate,
    )
}

impl CapabilityIdentity {
    /// Returns what is shown of it for debugging.
    pub fn debug_text(&self, alternate: bool) -> (r: String)
        ensures
            r@ == capability_identity_shown(self@, alternate),
    {
        let fields = vec![
            entry_string("owner", self.owner.debug_text(alternate)),
            entry_string("capability", self.capability.debug_text(alternate)),
        ];
        assert(texts(fields@) =~= capability_identity_fields(self@, alternate));
        struct_string("CapabilityIdentity", &fields, false, alternate)
    }
}

impl core::fmt::Debug for CapabilityIdentity {
    fn fmt(&self, formatter: &mut core::fmt::Formatter<'_>) -> core::fmt::Result {
        let alternate: bool = is_alternate(formatter);
        write_text(formatter, self.debug_text(alternate).as_str())
    }
}

/// The fields that are shown of a pinned reducer.
pub open spec fn reducer_fields(model: ReducerModel, alternate: bool) -> Seq<Seq<char>> {
    seq![
        entry_text("identity"@, capability_identity_shown(model.identity, alternate)),
        entry_text("definition_digest"@, digest_shown(model.definition_digest, alternate)),
    ]
}

/// What is shown of a pinned reducer.
pub open spec fn reducer_shown(model: ReducerModel, alternate: bool) -> Seq<char> {
    struct_text("GraphReducerReference"@, reducer_fields(model, alternate), false, alternate)
}

impl GraphReducerReference {
    /// Returns what is shown of it for debugging.
    pub fn debug_text(&self, alternate: bool) -> (r: String)
        ensures
            r@ == reducer_shown(self@, alternate),
    {
        let fields = vec![
            entry_string("identity", self.identity.debug_text(alternate)),
            entry_string("definition_digest", self.definition_digest.debug_text(alternate)),
        ];
        assert(texts(fields@) =~= reducer_fields(self@, alternate));
        struct_string("GraphReducerReference", &fields, false, alternate)
    }
}

impl core::fmt::Debug for GraphReducerReference {
    fn fmt(&self, formatter: &mut core::fmt::Formatter<'_>) -> core::fmt::Result {
        let alternate: bool = is_alternate(formatter);
        write_text(formatter, self.debug_text(alternate).as_str())
    }
}

/// The fields that are shown of a pinned graph.
pub open spec fn graph_reference_fields(
    model: GraphReferenceModel,
    alternate: bool,
) -> Seq<Seq<char>> {
    seq![
        entry_text("identity"@, capability_identity_shown(model.identity, alternate)),
        entry_text("definition_digest"@, digest_shown(model.definition_digest, alternate)),
        entry_text("state_schema"@, schema_shown(model.state_schema, alternate)),
    ]
}

/// What is shown of a pinned graph.
pub open spec fn graph_reference_shown(model: GraphReferenceModel, alternate: bool) -> Seq<char> {
    struct_text("GraphReference"@, graph_reference_fields(model, alternate), false, alternate)
}

impl GraphReference {
    /// Returns what is shown of it for debugging.
    pub fn debug_text(&self, alternate: bool) -> (r: String)
        ensures
            r@ == graph_reference_shown(self@, alternate),
    {
        let fields = vec![
            entry_string("identity", self.identity.debug_text(alternate)),
            entry_string("definition_digest", self.definition_digest.debug_text(alternate)),
            entry_string("state_schema", self.state_schema.debug_text(alternate)),
        ];
        assert(texts(fields@) =~= graph_reference_fields(self@, alternate));
        struct_string("GraphReference", &fields, false, alternate)
    }
}

impl core::fmt::Debug for GraphReference {
    fn fmt(&self, formatter: &mut core::fmt::Formatter<'_>) -> core::fmt::Result {
        let alternate: bool = is_alternate(formatter);
        write_text(formatter, self.debug_text(alternate).as_str())
    }
}

} // verus!
