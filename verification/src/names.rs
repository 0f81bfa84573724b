//! Names of graph nodes, routes, delegation slots and capabilities.

use vstd::prelude::*;
use vstd::utf8::encode_utf8;

use crate::debug::{is_alternate, name_string, name_text, write_text};
use crate::ordered::Keyed;
use crate::text::{byte_is_alphanumeric, find_outside, first_outside, is_alphanumeric, ByteClass};

verus! {

/// Rejected name.
#[derive(Clone, Copy, Debug, PartialEq, Eq, Structural)]
pub enum NameError {
    /// The name has no bytes.
    Empty,
    /// The name is longer than the maximum.
    TooLong { max: usize, actual: usize },
    /// The first byte is not an ASCII letter or digit.
    InvalidStart,
    /// The byte at this offset is outside the grammar.
    InvalidByte { index: usize },
}

/// What the grammar of names says of the bytes: up to 128, of which the first
/// is a letter or digit and the others are in the class.
pub open spec fn name_check(bytes: Seq<u8>, class: ByteClass) -> Result<(), NameError> {
    let outside = first_outside(bytes, 1, class);
    if bytes.len() == 0 {
        Err(NameError::Empty)
    } else if bytes.len() > 128 {
        Err(NameError::TooLong { max: 128, actual: bytes.len() as usize })
    } else if !is_alphanumeric(bytes[0]) {
        Err(NameError::InvalidStart)
    } else if outside < bytes.len() {
        Err(NameError::InvalidByte { index: outside as usize })
    } else {
        Ok(())
    }
}

/// Checks a name against the grammar.
pub fn check_name(value: &str, class: ByteClass) -> (r: Result<(), NameError>)
    ensures
        r == name_check(encode_utf8(value@), class),
{
    let bytes = value.as_bytes();
    if bytes.len() == 0 {
        return Err(NameError::Empty);
    }
    if bytes.len() > 128 {
        return Err(NameError::TooLong { max: 128, actual: bytes.len() });
    }
    if !byte_is_alphanumeric(bytes[0]) {
        return Err(NameError::InvalidStart);
    }
    let outside: usize = find_outside(bytes, 1, class);
    if outside < bytes.len() {
        return Err(NameError::InvalidByte { index: outside });
    }
    Ok(())
}

/// The grammar of node, route, slot and capability names: letters, digits and
/// `.`, `_`, `-`.
pub open spec fn plain_name_check(bytes: Seq<u8>) -> Result<(), NameError> {
    name_check(bytes, ByteClass::Name)
}

/// The stable identity of one node of a graph.
#[derive(Eq, PartialOrd, Ord, Hash)]
pub struct NodeId {
    text: String,
}

impl NodeId {
    /// Maximum length in bytes.
    pub const MAX_LEN: usize = 128;

    /// The text satisfies the grammar.
    #[verifier::type_invariant]
    pub open spec fn well_formed(&self) -> bool {
        plain_name_check(encode_utf8(self@)) is Ok
    }

    /// Validates the text.
    pub fn new(value: &str) -> (r: Result<NodeId, NameError>)
        ensures
            match (r, plain_name_check(encode_utf8(value@))) {
                (Ok(id), Ok(())) => id@ == value@,
                (Err(e), Err(expected)) => e == expected,
                _ => false,
            },
    {
        match check_name(value, ByteClass::Name) {
            Err(e) => {
                return Err(e);
            },
            Ok(()) => {},
        }
        Ok(NodeId { text: value.to_owned() })
    }

    /// Returns the exact text.
    pub fn as_str(&self) -> (r: &str)
        ensures
            r@ == self@,
            self.well_formed(),
    {
        proof {
            use_type_invariant(self);
        }
        self.text.as_str()
    }

    /// Copies the exact text.
    pub fn to_string(&self) -> (r: String)
        ensures
            r@ == self@,
    {
        self.text.clone()
    }
}

impl View for NodeId {
    type V = Seq<char>;

    /// The text.
    closed spec fn view(&self) -> Seq<char> {
        self.text@
    }
}

impl Clone for NodeId {
    fn clone(&self) -> (r: Self)
        ensures
            r == *self,
    {
        proof {
            use_type_invariant(self);
        }
        NodeId { text: self.text.clone() }
    }
}

impl PartialEq for NodeId {
    fn eq(&self, other: &Self) -> (r: bool) {
        self.text.eq(&other.text)
    }
}

impl vstd::std_specs::cmp::PartialEqSpecImpl for NodeId {
    open spec fn obeys_eq_spec() -> bool {
        true
    }

    open spec fn eq_spec(&self, other: &Self) -> bool {
        self@ == other@
    }
}

impl core::str::FromStr for NodeId {
    type Err = NameError;

    fn from_str(value: &str) -> (r: Result<Self, Self::Err>)
        ensures
            match (r, plain_name_check(encode_utf8(value@))) {
                (Ok(id), Ok(())) => id@ == value@,
                (Err(e), Err(expected)) => e == expected,
                _ => false,
            },
    {
        NodeId::new(value)
    }
}

impl Keyed for NodeId {
    open spec fn key_of(model: Seq<char>) -> Seq<char> {
        model
    }

    open spec fn sound(model: Seq<char>) -> bool {
        plain_name_check(encode_utf8(model)) is Ok
    }

    fn key_text(&self) -> (r: &str) {
        self.as_str()
    }
}

/// The identity of one route, unique in its graph.
#[derive(Eq, PartialOrd, Ord, Hash)]
pub struct RouteId {
    text: String,
}

impl RouteId {
    /// Maximum length in bytes.
    pub const MAX_LEN: usize = 128;

    /// The text satisfies the grammar.
    #[verifier::type_invariant]
    pub open spec fn well_formed(&self) -> bool {
        plain_name_check(encode_utf8(self@)) is Ok
    }

    /// Validates the text.
    pub fn new(value: &str) -> (r: Result<RouteId, NameError>)
        ensures
            match (r, plain_name_check(encode_utf8(value@))) {
                (Ok(id), Ok(())) => id@ == value@,
                (Err(e), Err(expected)) => e == expected,
                _ => false,
            },
    {
        match check_name(value, ByteClass::Name) {
            Err(e) => {
                return Err(e);
            },
            Ok(()) => {},
        }
        Ok(RouteId { text: value.to_owned() })
    }

    /// Returns the exact text.
    pub fn as_str(&self) -> (r: &str)
        ensures
            r@ == self@,
            self.well_formed(),
    {
        proof {
            use_type_invariant(self);
        }
        self.text.as_str()
    }

    /// Copies the exact text.
    pub fn to_string(&self) -> (r: String)
        ensures
            r@ == self@,
    {
        self.text.clone()
    }
}

impl View for RouteId {
    type V = Seq<char>;

    /// The text.
    closed spec fn view(&self) -> Seq<char> {
        self.text@
    }
}

impl Clone for RouteId {
    fn clone(&self) -> (r: Self)
        ensures
            r == *self,
    {
        proof {
            use_type_invariant(self);
        }
        RouteId { text: self.text.clone() }
    }
}

impl PartialEq for RouteId {
    fn eq(&self, other: &Self) -> (r: bool) {
        self.text.eq(&other.text)
    }
}

impl vstd::std_specs::cmp::PartialEqSpecImpl for RouteId {
    open spec fn obeys_eq_spec() -> bool {
        true
    }

    open spec fn eq_spec(&self, other: &Self) -> bool {
        self@ == other@
    }
}

impl core::str::FromStr for RouteId {
    type Err = NameError;

    fn from_str(value: &str) -> (r: Result<Self, Self::Err>)
        ensures
            match (r, plain_name_check(encode_utf8(value@))) {
                (Ok(id), Ok(())) => id@ == value@,
                (Err(e), Err(expected)) => e == expected,
                _ => false,
            },
    {
        RouteId::new(value)
    }
}

impl Keyed for RouteId {
    open spec fn key_of(model: Seq<char>) -> Seq<char> {
        model
    }

    open spec fn sound(model: Seq<char>) -> bool {
        plain_name_check(encode_utf8(model)) is Ok
    }

    fn key_text(&self) -> (r: &str) {
        self.as_str()
    }
}

/// A stable delegation slot of one node.
#[derive(Eq, PartialOrd, Ord, Hash)]
pub struct ChildRunSlot {
    text: String,
}

impl ChildRunSlot {
    /// Maximum length in bytes.
    pub const MAX_LEN: usize = 128;

    /// The text satisfies the grammar.
    #[verifier::type_invariant]
    pub open spec fn well_formed(&self) -> bool {
        plain_name_check(encode_utf8(self@)) is Ok
    }

    /// Validates the text.
    pub fn new(value: &str) -> (r: Result<ChildRunSlot, NameError>)
        ensures
            match (r, plain_name_check(encode_utf8(value@))) {
                (Ok(id), Ok(())) => id@ == value@,
                (Err(e), Err(expected)) => e == expected,
                _ => false,
            },
    {
        match check_name(value, ByteClass::Name) {
            Err(e) => {
                return Err(e);
            },
            Ok(()) => {},
        }
        Ok(ChildRunSlot { text: value.to_owned() })
    }

    /// Returns the exact text.
    pub fn as_str(&self) -> (r: &str)
        ensures
            r@ == self@,
            self.well_formed(),
    {
        proof {
            use_type_invariant(self);
        }
        self.text.as_str()
    }

    /// Copies the exact text.
    pub fn to_string(&self) -> (r: String)
        ensures
            r@ == self@,
    {
        self.text.clone()
    }
}

impl View for ChildRunSlot {
    type V = Seq<char>;

    /// The text.
    closed spec fn view(&self) -> Seq<char> {
        self.text@
    }
}

impl Clone for ChildRunSlot {
    fn clone(&self) -> (r: Self)
        ensures
            r == *self,
    {
        proof {
            use_type_invariant(self);
        }
        ChildRunSlot { text: self.text.clone() }
    }
}

impl PartialEq for ChildRunSlot {
    fn eq(&self, other: &Self) -> (r: bool) {
        self.text.eq(&other.text)
    }
}

impl vstd::std_specs::cmp::PartialEqSpecImpl for ChildRunSlot {
    open spec fn obeys_eq_spec() -> bool {
        true
    }

    open spec fn eq_spec(&self, other: &Self) -> bool {
        self@ == other@
    }
}

impl core::str::FromStr for ChildRunSlot {
    type Err = NameError;

    fn from_str(value: &str) -> (r: Result<Self, Self::Err>)
        ensures
            match (r, plain_name_check(encode_utf8(value@))) {
                (Ok(id), Ok(())) => id@ == value@,
                (Err(e), Err(expected)) => e == expected,
                _ => false,
            },
    {
        ChildRunSlot::new(value)
    }
}

impl Keyed for ChildRunSlot {
    open spec fn key_of(model: Seq<char>) -> Seq<char> {
        model
    }

    open spec fn sound(model: Seq<char>) -> bool {
        plain_name_check(encode_utf8(model)) is Ok
    }

    fn key_text(&self) -> (r: &str) {
        self.as_str()
    }
}

/// The registry-local name of a capability.
#[derive(Eq, PartialOrd, Ord, Hash)]
pub struct CapabilityName {
    text: String,
}

impl CapabilityName {
    /// Maximum length in bytes.
    pub const MAX_LEN: usize = 128;

    /// The text satisfies the grammar.
    #[verifier::type_invariant]
    pub open spec fn well_formed(&self) -> bool {
        plain_name_check(encode_utf8(self@)) is Ok
    }

    /// Validates the text.
    pub fn new(value: &str) -> (r: Result<CapabilityName, NameError>)
        ensures
            match (r, plain_name_check(encode_utf8(value@))) {
                (Ok(id), Ok(())) => id@ == value@,
                (Err(e), Err(expected)) => e == expected,
                _ => false,
            },
    {
        match check_name(value, ByteClass::Name) {
            Err(e) => {
                return Err(e);
            },
            Ok(()) => {},
        }
        Ok(CapabilityName { text: value.to_owned() })
    }

    /// Returns the exact text.
    pub fn as_str(&self) -> (r: &str)
        ensures
            r@ == self@,
            self.well_formed(),
    {
        proof {
            use_type_invariant(self);
        }
        self.text.as_str()
    }

    /// Copies the exact text.
    pub fn to_string(&self) -> (r: String)
        ensures
            r@ == self@,
    {
        self.text.clone()
    }
}

impl View for CapabilityName {
    type V = Seq<char>;

    /// The text.
    closed spec fn view(&self) -> Seq<char> {
        self.text@
    }
}

impl Clone for CapabilityName {
    fn clone(&self) -> (r: Self)
        ensures
            r == *self,
    {
        proof {
            use_type_invariant(self);
        }
        CapabilityName { text: self.text.clone() }
    }
}

impl PartialEq for CapabilityName {
    fn eq(&self, other: &Self) -> (r: bool) {
        self.text.eq(&other.text)
    }
}

impl vstd::std_specs::cmp::PartialEqSpecImpl for CapabilityName {
    open spec fn obeys_eq_spec() -> bool {
        true
    }

    open spec fn eq_spec(&self, other: &Self) -> bool {
        self@ == other@
    }
}

impl core::str::FromStr for CapabilityName {
    type Err = NameError;

    fn from_str(value: &str) -> (r: Result<Self, Self::Err>)
        ensures
            match (r, plain_name_check(encode_utf8(value@))) {
                (Ok(id), Ok(())) => id@ == value@,
                (Err(e), Err(expected)) => e == expected,
                _ => false,
            },
    {
        CapabilityName::new(value)
    }
}

impl Keyed for CapabilityName {
    open spec fn key_of(model: Seq<char>) -> Seq<char> {
        model
    }

    open spec fn sound(model: Seq<char>) -> bool {
        plain_name_check(encode_utf8(model)) is Ok
    }

    fn key_text(&self) -> (r: &str) {
        self.as_str()
    }
}

// ---------------------------------------------------------------------------
// Debug output
// ---------------------------------------------------------------------------

impl NodeId {
    /// Returns what is shown of it for debugging.
    pub fn debug_text(&self, alternate: bool) -> (r: String)
        ensures
            r@ == name_text("NodeId"@, self@, alternate),
    {
        name_string("NodeId", self.text.as_str(), alternate)
    }
}

impl core::fmt::Debug for NodeId {
    fn fmt(&self, formatter: &mut core::fmt::Formatter<'_>) -> core::fmt::Result {
        let alternate: bool = is_alternate(formatter);
        write_text(formatter, self.debug_text(alternate).as_str())
    }
}

impl RouteId {
    /// Returns what is shown of it for debugging.
    pub fn debug_text(&self, alternate: bool) -> (r: String)
        ensures
            r@ == name_text("RouteId"@, self@, alternate),
    {
        name_string("RouteId", self.text.as_str(), alternate)
    }
}

impl core::fmt::Debug for RouteId {
    fn fmt(&self, formatter: &mut core::fmt::Formatter<'_>) -> core::fmt::Result {
        let alternate: bool = is_alternate(formatter);
        write_text(formatter, self.debug_text(alternate).as_str())
    }
}

impl ChildRunSlot {
    /// Returns what is shown of it for debugging.
    pub fn debug_text(&self, alternate: bool) -> (r: String)
        ensures
            r@ == name_text("ChildRunSlot"@, self@, alternate),
    {
        name_string("ChildRunSlot", self.text.as_str(), alternate)
    }
}

impl core::fmt::Debug for ChildRunSlot {
    fn fmt(&self, formatter: &mut core::fmt::Formatter<'_>) -> core::fmt::Result {
        let alternate: bool = is_alternate(formatter);
        write_text(formatter, self.debug_text(alternate).as_str())
    }
}

impl CapabilityName {
    /// Returns what is shown of it for debugging.
    pub fn debug_text(&self, alternate: bool) -> (r: String)
        ensures
            r@ == name_text("CapabilityName"@, self@, alternate),
    {
        name_string("CapabilityName", self.text.as_str(), alternate)
    }
}

impl core::fmt::Debug for CapabilityName {
    fn fmt(&self, formatter: &mut core::fmt::Formatter<'_>) -> core::fmt::Result {
        let alternate: bool = is_alternate(formatter);
        write_text(formatter, self.debug_text(alternate).as_str())
    }
}

} // verus!
