//! JSON values, their models and their compact text.

use vstd::prelude::*;
use vstd::utf8::{encode_scalar, encode_utf8, has_width_1_encoding};

use crate::decimal::{decimal_string, decimal_text};
use crate::text::same_text;

verus! {

// ---------------------------------------------------------------------------
// Model
// ---------------------------------------------------------------------------

/// What a JSON number is: an integer, or the text of any other number.
pub ghost enum NumberModel {
    /// A non-negative integer.
    Unsigned(u64),
    /// A negative integer.
    Negative(i64),
    /// The text of a number that is no such integer.
    Fraction(Seq<char>),
}

/// What a JSON value is. Object members keep their order and may repeat.
pub ghost enum Json {
    Null,
    Bool(bool),
    Number(NumberModel),
    Text(Seq<char>),
    Array(Seq<Json>),
    Object(Seq<Member>),
}

/// A member of an object.
pub ghost struct Member {
    pub name: Seq<char>,
    pub value: Json,
}

/// The text of a number.
pub open spec fn number_text(number: NumberModel) -> Seq<char> {
    match number {
        NumberModel::Unsigned(n) => decimal_text(n as nat),
        NumberModel::Negative(n) => seq!['-'] + decimal_text((-(n as int)) as nat),
        NumberModel::Fraction(text) => text,
    }
}

/// A zero that is no integer, with a sign or without.
pub open spec fn fractional_zero(number: NumberModel) -> bool {
    number matches NumberModel::Fraction(text) && (text == "0.0"@ || text == "-0.0"@)
}

/// The numbers have the same value and are both integers or both not. The two
/// zeros that are no integers have the same value.
pub open spec fn number_alike(a: NumberModel, b: NumberModel) -> bool {
    a == b || (fractional_zero(a) && fractional_zero(b))
}

/// The values are the same but for the signs of zeros.
pub open spec fn json_alike(a: Json, b: Json) -> bool
    decreases a,
{
    match (a, b) {
        (Json::Number(x), Json::Number(y)) => number_alike(x, y),
        (Json::Array(x), Json::Array(y)) => x.len() == y.len() && forall|i: int|
            0 <= i < x.len() ==> json_alike(#[trigger] x[i], y[i]),
        (Json::Object(x), Json::Object(y)) => x.len() == y.len() && forall|i: int|
            0 <= i < x.len() ==> (#[trigger] x[i]).name == y[i].name && json_alike(
                x[i].value,
                y[i].value,
            ),
        _ => a == b,
    }
}

/// Every value is like itself.
pub proof fn alike_is_reflexive(a: Json)
    ensures
        json_alike(a, a),
    decreases a,
{
    match a {
        Json::Array(x) => {
            assert forall|i: int| 0 <= i < x.len() implies json_alike(#[trigger] x[i], x[i]) by {
                alike_is_reflexive(x[i]);
            }
        },
        Json::Object(x) => {
            assert forall|i: int| 0 <= i < x.len() implies json_alike(
                (#[trigger] x[i]).value,
                x[i].value,
            ) by {
                alike_is_reflexive(x[i].value);
            }
        },
        _ => {},
    }
}

/// A value is like another if that is like it.
pub proof fn alike_is_symmetric(a: Json, b: Json)
    requires
        json_alike(a, b),
    ensures
        json_alike(b, a),
    decreases a,
{
    match (a, b) {
        (Json::Array(x), Json::Array(y)) => {
            assert forall|i: int| 0 <= i < y.len() implies json_alike(#[trigger] y[i], x[i]) by {
                assert(json_alike(x[i], y[i]));
                alike_is_symmetric(x[i], y[i]);
            }
        },
        (Json::Object(x), Json::Object(y)) => {
            assert forall|i: int| 0 <= i < y.len() implies (#[trigger] y[i]).name == x[i].name
                && json_alike(y[i].value, x[i].value) by {
                assert(x[i].name == y[i].name);
                alike_is_symmetric(x[i].value, y[i].value);
            }
        },
        _ => {},
    }
}

/// Values that are like the same one are like each other.
pub proof fn alike_is_transitive(a: Json, b: Json, c: Json)
    requires
        json_alike(a, b),
        json_alike(b, c),
    ensures
        json_alike(a, c),
    decreases a,
{
    match (a, b, c) {
        (Json::Array(x), Json::Array(y), Json::Array(z)) => {
            assert forall|i: int| 0 <= i < x.len() implies json_alike(#[trigger] x[i], z[i]) by {
                assert(json_alike(y[i], z[i]));
                alike_is_transitive(x[i], y[i], z[i]);
            }
        },
        (Json::Object(x), Json::Object(y), Json::Object(z)) => {
            assert forall|i: int| 0 <= i < x.len() implies (#[trigger] x[i]).name == z[i].name
                && json_alike(x[i].value, z[i].value) by {
                assert(y[i].name == z[i].name);
                alike_is_transitive(x[i].value, y[i].value, z[i].value);
            }
        },
        _ => {},
    }
}

/// A member, where there is a value.
pub open spec fn optional_member(name: Seq<char>, value: Option<Json>) -> Seq<Member> {
    match value {
        Some(value) => seq![Member { name, value }],
        None => Seq::empty(),
    }
}

/// The lowercase hexadecimal digit of a number below 16.
pub open spec fn escape_digit(n: int) -> char {
    if n < 10 {
        ((48 + n) as u8) as char
    } else {
        ((87 + n) as u8) as char
    }
}

/// How a character is written inside a JSON string.
pub open spec fn escaped(c: char) -> Seq<char> {
    if c == '"' {
        seq!['\\', '"']
    } else if c == '\\' {
        seq!['\\', '\\']
    } else if c == '\x08' {
        seq!['\\', 'b']
    } else if c == '\x09' {
        seq!['\\', 't']
    } else if c == '\x0a' {
        seq!['\\', 'n']
    } else if c == '\x0c' {
        seq!['\\', 'f']
    } else if c == '\x0d' {
        seq!['\\', 'r']
    } else if (c as u32) < 32 {
        seq![
            '\\',
            'u',
            '0',
            '0',
            escape_digit(c as int / 16),
            escape_digit(c as int % 16),
        ]
    } else {
        seq![c]
    }
}

/// The characters between the quotes of a JSON string.
pub open spec fn escaped_all(text: Seq<char>) -> Seq<char>
    decreases text.len(),
{
    if text.len() == 0 {
        Seq::empty()
    } else {
        escaped_all(text.drop_last()) + escaped(text.last())
    }
}

/// A JSON string.
pub open spec fn string_text(text: Seq<char>) -> Seq<char> {
    seq!['"'] + escaped_all(text) + seq!['"']
}

/// The compact text of a JSON value.
pub open spec fn json_text(value: Json) -> Seq<char>
    decreases value,
{
    match value {
        Json::Null => "null"@,
        Json::Bool(b) => if b {
            "true"@
        } else {
            "false"@
        },
        Json::Number(number) => number_text(number),
        Json::Text(text) => string_text(text),
        Json::Array(items) => seq!['['] + items_text(items, items.len()) + seq![']'],
        Json::Object(members) => seq!['{'] + members_text(members, members.len()) + seq!['}'],
    }
}

/// The first `n` items, separated by commas.
pub open spec fn items_text(items: Seq<Json>, n: nat) -> Seq<char>
    decreases items, n,
{
    if n == 0 || n > items.len() {
        Seq::empty()
    } else if n == 1 {
        json_text(items[0])
    } else {
        items_text(items, (n - 1) as nat).push(',') + json_text(items[n - 1])
    }
}

/// The first `n` members, separated by commas.
pub open spec fn members_text(members: Seq<Member>, n: nat) -> Seq<char>
    decreases members, n,
{
    if n == 0 || n > members.len() {
        Seq::empty()
    } else if n == 1 {
        string_text(members[0].name).push(':') + json_text(members[0].value)
    } else {
        members_text(members, (n - 1) as nat).push(',') + string_text(members[n - 1].name).push(':')
            + json_text(members[n - 1].value)
    }
}

// ---------------------------------------------------------------------------
// Values
// ---------------------------------------------------------------------------

/// A JSON number.
#[derive(Debug)]
enum NumberValue {
    Unsigned(u64),
    Negative(i64),
    Fraction(String),
}

/// A JSON number: an integer of 64 bits or a finite fraction.
#[derive(Debug)]
pub struct JsonNumber {
    value: NumberValue,
}

/// A JSON value.
#[derive(Debug, Eq)]
pub enum JsonValue {
    /// `null`.
    Null,
    /// `true` or `false`.
    Bool(bool),
    /// A number.
    Number(JsonNumber),
    /// A string.
    Text(String),
    /// An array.
    Array(Vec<JsonValue>),
    /// An object, its members in order.
    Object(Vec<JsonMember>),
}

/// A member of a JSON object.
#[derive(Debug, Eq)]
pub struct JsonMember {
    /// The name.
    pub name: String,
    /// The value.
    pub value: JsonValue,
}

/// What `serde_json` reads from the text of a number.
pub uninterp spec fn number_parsed(text: Seq<char>) -> Option<NumberModel>;

/// Calls `serde_json::from_str` for a `serde_json::Number` and tells the three
/// kinds of number apart. The result is the named function of the text; a
/// negative integer is below zero.
#[verifier::external_body]
fn read_number(text: &str) -> (r: Option<JsonNumber>)
    ensures
        match (r, number_parsed(text@)) {
            (Some(number), Some(model)) => number@ == model,
            (None, None) => true,
            _ => false,
        },
        r matches Some(number) ==> number.well_formed(),
{
    let number: serde_json::Number = serde_json::from_str(text).ok()?;
    let value = match (number.as_u64(), number.as_i64()) {
        (Some(value), _) => NumberValue::Unsigned(value),
        (None, Some(value)) => NumberValue::Negative(value),
        (None, None) => NumberValue::Fraction(number.to_string()),
    };
    Some(JsonNumber { value })
}

impl JsonNumber {
    /// The number.
    pub closed spec fn view(&self) -> NumberModel {
        match self.value {
            NumberValue::Unsigned(n) => NumberModel::Unsigned(n),
            NumberValue::Negative(n) => NumberModel::Negative(n),
            NumberValue::Fraction(text) => NumberModel::Fraction(text@),
        }
    }

    /// A negative integer is below zero.
    #[verifier::type_invariant]
    pub open spec fn well_formed(&self) -> bool {
        self@ matches NumberModel::Negative(n) ==> n < 0
    }

    /// Reads a number from JSON text.
    pub fn parse(text: &str) -> (r: Option<JsonNumber>)
        ensures
            match (r, number_parsed(text@)) {
                (Some(number), Some(model)) => number@ == model,
                (None, None) => true,
                _ => false,
            },
    {
        read_number(text)
    }

    /// Makes a number of an unsigned integer.
    pub fn from_u64(value: u64) -> (r: JsonNumber)
        ensures
            r@ == NumberModel::Unsigned(value),
    {
        JsonNumber { value: NumberValue::Unsigned(value) }
    }

    /// Makes a number of a signed integer.
    pub fn from_i64(value: i64) -> (r: JsonNumber)
        ensures
            r@ == (if value < 0 {
                NumberModel::Negative(value)
            } else {
                NumberModel::Unsigned(value as u64)
            }),
    {
        if value < 0 {
            JsonNumber { value: NumberValue::Negative(value) }
        } else {
            JsonNumber { value: NumberValue::Unsigned(value as u64) }
        }
    }

    /// Writes the text of the number.
    pub fn to_string(&self) -> (r: String)
        ensures
            r@ == number_text(self@),
    {
        proof {
            use_type_invariant(self);
        }
        match &self.value {
            NumberValue::Unsigned(n) => decimal_string(*n),
            NumberValue::Negative(n) => {
                let mut text: String = String::new();
                text.push('-');
                let magnitude: u64 = (-(*n as i128)) as u64;
                let digits: String = decimal_string(magnitude);
                text.append(digits.as_str());
                assert(text@ =~= number_text(self@));
                text
            },
            NumberValue::Fraction(text) => text.clone(),
        }
    }

    /// Tests whether the number is an integer of more than 53 bits.
    pub fn is_unsafe_integer(&self) -> (r: bool)
        ensures
            r == unsafe_integer(self@),
    {
        match &self.value {
            NumberValue::Unsigned(n) => *n > 9007199254740991,
            NumberValue::Negative(n) => *n < -9007199254740991,
            NumberValue::Fraction(_) => false,
        }
    }

    fn same(&self, other: &JsonNumber) -> (r: bool)
        ensures
            r == number_alike(self@, other@),
    {
        match (&self.value, &other.value) {
            (NumberValue::Unsigned(a), NumberValue::Unsigned(b)) => *a == *b,
            (NumberValue::Negative(a), NumberValue::Negative(b)) => *a == *b,
            (NumberValue::Fraction(a), NumberValue::Fraction(b)) => a.eq(b) || (is_zero(
                a.as_str(),
            ) && is_zero(b.as_str())),
            _ => false,
        }
    }
}

fn is_zero(text: &str) -> (r: bool)
    ensures
        r == (text@ == "0.0"@ || text@ == "-0.0"@),
{
    same_text(text, "0.0") || same_text(text, "-0.0")
}

impl Clone for JsonNumber {
    fn clone(&self) -> (r: Self)
        ensures
            r@ == self@,
    {
        proof {
            use_type_invariant(self);
        }
        let value = match &self.value {
            NumberValue::Unsigned(n) => NumberValue::Unsigned(*n),
            NumberValue::Negative(n) => NumberValue::Negative(*n),
            NumberValue::Fraction(text) => NumberValue::Fraction(text.clone()),
        };
        JsonNumber { value }
    }
}

/// An integer outside the range that every JSON reader keeps exactly.
pub open spec fn unsafe_integer(number: NumberModel) -> bool {
    match number {
        NumberModel::Unsigned(n) => n > 9007199254740991,
        NumberModel::Negative(n) => n < -9007199254740991,
        NumberModel::Fraction(_) => false,
    }
}

impl JsonMember {
    /// The name and the value.
    pub open spec fn model(&self) -> Member
        decreases self,
    {
        Member { name: self.name@, value: self.value.model() }
    }
}

impl View for JsonMember {
    type V = Member;

    open spec fn view(&self) -> Member {
        self.model()
    }
}

impl View for JsonValue {
    type V = Json;

    open spec fn view(&self) -> Json {
        self.model()
    }
}

impl JsonValue {
    /// The value.
    pub open spec fn model(&self) -> Json
        decreases self,
    {
        match self {
            JsonValue::Null => Json::Null,
            JsonValue::Bool(b) => Json::Bool(*b),
            JsonValue::Number(number) => Json::Number(number@),
            JsonValue::Text(text) => Json::Text(text@),
            JsonValue::Array(items) => Json::Array(
                Seq::new(
                    items@.len(),
                    |i: int|
                        if 0 <= i < items@.len() {
                            items@[i].model()
                        } else {
                            Json::Null
                        },
                ),
            ),
            JsonValue::Object(members) => Json::Object(
                Seq::new(
                    members@.len(),
                    |i: int|
                        if 0 <= i < members@.len() {
                            members@[i].model()
                        } else {
                            Member { name: Seq::empty(), value: Json::Null }
                        },
                ),
            ),
        }
    }
}

/// The models of items.
pub open spec fn items_view(items: Seq<JsonValue>) -> Seq<Json> {
    Seq::new(items.len(), |i: int| items[i]@)
}

/// The models of members.
pub open spec fn members_view(members: Seq<JsonMember>) -> Seq<Member> {
    Seq::new(members.len(), |i: int| members[i]@)
}

/// What the model of a container is.
pub broadcast proof fn container_view(value: JsonValue)
    ensures
        #![trigger value.view()]
        value matches JsonValue::Array(items) ==> value.view() == Json::Array(items_view(items@)),
        value matches JsonValue::Object(members) ==> value.view() == Json::Object(
            members_view(members@),
        ),
{
    match value {
        JsonValue::Array(items) => {
            assert(value.view()->Array_0 =~= items_view(items@));
        },
        JsonValue::Object(members) => {
            assert(value.view()->Object_0 =~= members_view(members@));
        },
        _ => {},
    }
}

// ---------------------------------------------------------------------------
// Size
// ---------------------------------------------------------------------------

/// How many bytes a byte of a string takes inside the quotes.
pub open spec fn escape_cost(b: u8) -> nat {
    if b == 8 || b == 9 || b == 10 || b == 12 || b == 13 || b == 34 || b == 92 {
        2
    } else if b < 32 {
        6
    } else {
        1
    }
}

/// How many bytes the bytes of a string take inside the quotes.
pub open spec fn escape_costs(bytes: Seq<u8>) -> nat
    decreases bytes.len(),
{
    if bytes.len() == 0 {
        0
    } else {
        escape_costs(bytes.drop_last()) + escape_cost(bytes.last())
    }
}

/// How many bytes a JSON string takes.
pub open spec fn string_size(text: Seq<char>) -> nat {
    2 + escape_costs(encode_utf8(text))
}

/// How many bytes the compact text of a value takes.
pub open spec fn json_size(value: Json) -> nat
    decreases value,
{
    match value {
        Json::Null => 4,
        Json::Bool(b) => if b {
            4
        } else {
            5
        },
        Json::Number(number) => encode_utf8(number_text(number)).len(),
        Json::Text(text) => string_size(text),
        Json::Array(items) => 2 + items_size(items, items.len()),
        Json::Object(members) => 2 + members_size(members, members.len()),
    }
}

/// How many bytes the first `n` items and the commas between them take.
pub open spec fn items_size(items: Seq<Json>, n: nat) -> nat
    decreases items, n,
{
    if n == 0 || n > items.len() {
        0
    } else {
        items_size(items, (n - 1) as nat) + separator_size((n - 1) as nat) + json_size(
            items[n - 1],
        )
    }
}

/// How many bytes the first `n` members and the commas between them take.
pub open spec fn members_size(members: Seq<Member>, n: nat) -> nat
    decreases members, n,
{
    if n == 0 || n > members.len() {
        0
    } else {
        members_size(members, (n - 1) as nat) + separator_size((n - 1) as nat) + string_size(
            members[n - 1].name,
        ) + 1 + json_size(members[n - 1].value)
    }
}

/// A comma stands before every entry but the first.
pub open spec fn separator_size(index: nat) -> nat {
    if index == 0 {
        0
    } else {
        1
    }
}

/// How deep a value nests: a scalar 0, a container one more than its deepest
/// entry.
pub open spec fn json_depth(value: Json) -> nat
    decreases value,
{
    match value {
        Json::Array(items) => 1 + items_depth(items, items.len()),
        Json::Object(members) => 1 + members_depth(members, members.len()),
        _ => 0,
    }
}

/// How deep the deepest of the first `n` items nests.
pub open spec fn items_depth(items: Seq<Json>, n: nat) -> nat
    decreases items, n,
{
    if n == 0 || n > items.len() {
        0
    } else {
        larger(items_depth(items, (n - 1) as nat), json_depth(items[n - 1]))
    }
}

/// How deep the deepest of the first `n` members nests.
pub open spec fn members_depth(members: Seq<Member>, n: nat) -> nat
    decreases members, n,
{
    if n == 0 || n > members.len() {
        0
    } else {
        larger(members_depth(members, (n - 1) as nat), json_depth(members[n - 1].value))
    }
}

/// The larger of two numbers.
pub open spec fn larger(a: nat, b: nat) -> nat {
    if a < b {
        b
    } else {
        a
    }
}

/// How many values a value is made of, itself among them.
pub open spec fn json_nodes(value: Json) -> nat
    decreases value,
{
    match value {
        Json::Array(items) => 1 + items_nodes(items, items.len()),
        Json::Object(members) => 1 + members_nodes(members, members.len()),
        _ => 1,
    }
}

/// How many values the first `n` items are made of.
pub open spec fn items_nodes(items: Seq<Json>, n: nat) -> nat
    decreases items, n,
{
    if n == 0 || n > items.len() {
        0
    } else {
        items_nodes(items, (n - 1) as nat) + json_nodes(items[n - 1])
    }
}

/// How many values the first `n` members are made of.
pub open spec fn members_nodes(members: Seq<Member>, n: nat) -> nat
    decreases members, n,
{
    if n == 0 || n > members.len() {
        0
    } else {
        members_nodes(members, (n - 1) as nat) + json_nodes(members[n - 1].value)
    }
}

proof fn escape_costs_concat(a: Seq<u8>, b: Seq<u8>)
    ensures
        escape_costs(a + b) == escape_costs(a) + escape_costs(b),
    decreases b.len(),
{
    if b.len() == 0 {
        assert(a + b =~= a);
    } else {
        assert((a + b).drop_last() =~= a + b.drop_last());
        escape_costs_concat(a, b.drop_last());
    }
}

proof fn escaped_size(c: char)
    ensures
        encode_utf8(escaped(c)).len() == escape_costs(encode_scalar(c as u32)),
{
    let bytes = encode_scalar(c as u32);
    let text = escaped(c);
    vstd::utf8::char_is_scalar(c);
    if has_width_1_encoding(c as u32) {
        assert(vstd::utf8::is_ascii_chars(text));
        crate::text::ascii_utf8(text);
        reveal_with_fuel(escape_costs, 2);
        assert(bytes.drop_last() =~= Seq::<u8>::empty());
        assert(bytes.last() == vstd::utf8::leading_byte_width_1(c as u32));
        narrow_byte(c as u32);
    } else {
        assert(text == seq![c]);
        crate::text::utf8_single(c);
        wide_bytes(c as u32);
        wide_costs(bytes);
    }
}

proof fn narrow_byte(scalar: u32)
    requires
        has_width_1_encoding(scalar),
    ensures
        vstd::utf8::leading_byte_width_1(scalar) == scalar as u8,
{
    assert((scalar & 0x7F) as u8 == scalar as u8) by (bit_vector)
        requires
            scalar <= 0x7F,
    ;
}

proof fn wide_bytes(scalar: u32)
    requires
        !has_width_1_encoding(scalar),
        vstd::utf8::is_scalar(scalar),
    ensures
        forall|i: int|
            0 <= i < encode_scalar(scalar).len() ==> #[trigger] encode_scalar(scalar)[i] >= 128,
{
    assert(vstd::utf8::last_continuation_byte(scalar) >= 128) by (bit_vector);
    assert(vstd::utf8::second_last_continuation_byte(scalar) >= 128) by (bit_vector);
    assert(vstd::utf8::third_last_continuation_byte(scalar) >= 128) by (bit_vector);
    assert(vstd::utf8::leading_byte_width_2(scalar) >= 128) by (bit_vector);
    assert(vstd::utf8::leading_byte_width_3(scalar) >= 128) by (bit_vector);
    assert(vstd::utf8::leading_byte_width_4(scalar) >= 128) by (bit_vector);
}

proof fn wide_costs(bytes: Seq<u8>)
    requires
        forall|i: int| 0 <= i < bytes.len() ==> #[trigger] bytes[i] >= 128,
    ensures
        escape_costs(bytes) == bytes.len(),
    decreases bytes.len(),
{
    if bytes.len() > 0 {
        assert forall|i: int| 0 <= i < bytes.len() - 1 implies #[trigger] bytes.drop_last()[i]
            >= 128 by {
            assert(bytes.drop_last()[i] == bytes[i]);
        }
        wide_costs(bytes.drop_last());
    }
}

proof fn escaped_all_size(text: Seq<char>)
    ensures
        encode_utf8(escaped_all(text)).len() == escape_costs(encode_utf8(text)),
    decreases text.len(),
{
    if text.len() > 0 {
        let front = text.drop_last();
        escaped_all_size(front);
        escaped_size(text.last());
        crate::text::utf8_concat(escaped_all(front), escaped(text.last()));
        assert(text =~= front + seq![text.last()]);
        crate::text::utf8_concat(front, seq![text.last()]);
        crate::text::utf8_single(text.last());
        escape_costs_concat(encode_utf8(front), encode_scalar(text.last() as u32));
    }
}

proof fn ascii_char_size(c: char)
    requires
        (c as u32) < 128,
    ensures
        encode_utf8(seq![c]).len() == 1,
{
    crate::text::utf8_single(c);
}

/// A JSON string takes as many bytes as `string_size` says.
pub proof fn string_text_size(text: Seq<char>)
    ensures
        encode_utf8(string_text(text)).len() == string_size(text),
{
    escaped_all_size(text);
    ascii_char_size('"');
    crate::text::utf8_concat(seq!['"'], escaped_all(text));
    crate::text::utf8_concat(seq!['"'] + escaped_all(text), seq!['"']);
}

/// The compact text of a value takes as many bytes as `json_size` says.
pub proof fn json_text_size(value: Json)
    ensures
        encode_utf8(json_text(value)).len() == json_size(value),
    decreases value,
{
    match value {
        Json::Null => {
            reveal_strlit("null");
            crate::text::ascii_utf8("null"@);
        },
        Json::Bool(b) => {
            reveal_strlit("true");
            reveal_strlit("false");
            crate::text::ascii_utf8("true"@);
            crate::text::ascii_utf8("false"@);
        },
        Json::Number(_) => {},
        Json::Text(text) => {
            string_text_size(text);
        },
        Json::Array(items) => {
            items_text_size(items, items.len());
            let inner = items_text(items, items.len());
            ascii_char_size('[');
            ascii_char_size(']');
            crate::text::utf8_concat(seq!['['], inner);
            crate::text::utf8_concat(seq!['['] + inner, seq![']']);
        },
        Json::Object(members) => {
            members_text_size(members, members.len());
            let inner = members_text(members, members.len());
            ascii_char_size('{');
            ascii_char_size('}');
            crate::text::utf8_concat(seq!['{'], inner);
            crate::text::utf8_concat(seq!['{'] + inner, seq!['}']);
        },
    }
}

proof fn items_text_size(items: Seq<Json>, n: nat)
    requires
        n <= items.len(),
    ensures
        encode_utf8(items_text(items, n)).len() == items_size(items, n),
    decreases items, n,
{
    if n > 0 {
        items_text_size(items, (n - 1) as nat);
        json_text_size(items[n - 1]);
        let front = items_text(items, (n - 1) as nat);
        if n > 1 {
            ascii_char_size(',');
            crate::text::utf8_concat(front, seq![',']);
            assert(front.push(',') =~= front + seq![',']);
            crate::text::utf8_concat(front.push(','), json_text(items[n - 1]));
        } else {
            assert(items_size(items, 0) == 0);
        }
    }
}

proof fn members_text_size(members: Seq<Member>, n: nat)
    requires
        n <= members.len(),
    ensures
        encode_utf8(members_text(members, n)).len() == members_size(members, n),
    decreases members, n,
{
    if n > 0 {
        members_text_size(members, (n - 1) as nat);
        let name = string_text(members[n - 1].name);
        let value = json_text(members[n - 1].value);
        json_text_size(members[n - 1].value);
        string_text_size(members[n - 1].name);
        ascii_char_size(':');
        ascii_char_size(',');
        let front = members_text(members, (n - 1) as nat);
        assert(name.push(':') =~= name + seq![':']);
        crate::text::utf8_concat(name, seq![':']);
        if n > 1 {
            assert(front.push(',') =~= front + seq![',']);
            crate::text::utf8_concat(front, seq![',']);
            crate::text::utf8_concat(front.push(','), name.push(':'));
            crate::text::utf8_concat(front.push(',') + name.push(':'), value);
        } else {
            crate::text::utf8_concat(name.push(':'), value);
            assert(members_size(members, 0) == 0);
        }
    }
}

// ---------------------------------------------------------------------------
// Writing, comparing, copying
// ---------------------------------------------------------------------------

fn push_escaped(out: &mut String, c: char)
    ensures
        final(out)@ == old(out)@ + escaped(c),
{
    let ghost before = out@;
    if c == '"' {
        out.push('\\');
        out.push('"');
    } else if c == '\\' {
        out.push('\\');
        out.push('\\');
    } else if c == '\x08' {
        out.push('\\');
        out.push('b');
    } else if c == '\x09' {
        out.push('\\');
        out.push('t');
    } else if c == '\x0a' {
        out.push('\\');
        out.push('n');
    } else if c == '\x0c' {
        out.push('\\');
        out.push('f');
    } else if c == '\x0d' {
        out.push('\\');
        out.push('r');
    } else if (c as u32) < 32 {
        let code: u8 = (c as u32) as u8;
        let high: u8 = code / 16;
        let low: u8 = code % 16;
        out.push('\\');
        out.push('u');
        out.push('0');
        out.push('0');
        out.push(if high < 10 { (48 + high) as char } else { (87 + high) as char });
        out.push(if low < 10 { (48 + low) as char } else { (87 + low) as char });
    } else {
        out.push(c);
    }
    assert(out@ =~= before + escaped(c));
}

/// Appends a JSON string.
pub fn push_string(out: &mut String, text: &str)
    ensures
        final(out)@ == old(out)@ + string_text(text@),
{
    let ghost before = out@;
    out.push('"');
    assert(text@.take(0) =~= Seq::<char>::empty());
    assert(out@ =~= before + seq!['"'] + escaped_all(text@.take(0)));
    for c in chars: text.chars()
        invariant
            chars.seq() == text@,
            out@ == before + seq!['"'] + escaped_all(text@.take(chars.index() as int)),
    {
        let ghost i = chars.index() as int;
        let ghost written = out@;
        assert(c == text@[i]);
        push_escaped(&mut *out, c);
        proof {
            assert(text@.take(i + 1).drop_last() =~= text@.take(i));
            assert(text@.take(i + 1).last() == c);
            assert(out@ =~= before + seq!['"'] + escaped_all(text@.take(i + 1)));
        }
    }
    assert(text@.take(text@.len() as int) =~= text@);
    out.push('"');
    assert(out@ =~= before + string_text(text@));
}

impl JsonValue {
    /// Appends the compact text of the value.
    pub fn write(&self, out: &mut String)
        ensures
            final(out)@ == old(out)@ + json_text(self@),
        decreases self,
    {
        broadcast use container_view;

        let ghost before = out@;
        match self {
            JsonValue::Null => {
                out.append("null");
            },
            JsonValue::Bool(b) => {
                if *b {
                    out.append("true");
                } else {
                    out.append("false");
                }
            },
            JsonValue::Number(number) => {
                let text: String = number.to_string();
                out.append(text.as_str());
            },
            JsonValue::Text(text) => {
                push_string(&mut *out, text.as_str());
            },
            JsonValue::Array(items) => {
                let ghost models = items_view(items@);
                out.push('[');
                assert(out@ =~= before + seq!['['] + items_text(models, 0));
                let mut i: usize = 0;
                while i < items.len()
                    invariant
                        i <= items@.len(),
                        models == items_view(items@),
                        out@ == before + seq!['['] + items_text(models, i as nat),
                        decreases_to!(self => items),
                    decreases items@.len() - i,
                {
                    if i > 0 {
                        out.push(',');
                    }
                    let ghost head = out@;
                    items[i].write(&mut *out);
                    proof {
                        assert(models[i as int] == items@[i as int]@);
                        if i > 0 {
                            assert(out@ =~= before + seq!['['] + items_text(models, (i + 1) as nat));
                        } else {
                            assert(items_text(models, 0) =~= Seq::<char>::empty());
                            assert(out@ =~= before + seq!['['] + items_text(models, 1));
                        }
                    }
                    i = i + 1;
                }
                out.push(']');
            },
            JsonValue::Object(members) => {
                let ghost models = members_view(members@);
                out.push('{');
                assert(out@ =~= before + seq!['{'] + members_text(models, 0));
                let mut i: usize = 0;
                while i < members.len()
                    invariant
                        i <= members@.len(),
                        models == members_view(members@),
                        out@ == before + seq!['{'] + members_text(models, i as nat),
                        decreases_to!(self => members),
                    decreases members@.len() - i,
                {
                    if i > 0 {
                        out.push(',');
                    }
                    push_string(&mut *out, members[i].name.as_str());
                    out.push(':');
                    members[i].value.write(&mut *out);
                    proof {
                        assert(models[i as int] == members@[i as int]@);
                        if i > 0 {
                            assert(out@ =~= before + seq!['{'] + members_text(
                                models,
                                (i + 1) as nat,
                            ));
                        } else {
                            assert(members_text(models, 0) =~= Seq::<char>::empty());
                            assert(out@ =~= before + seq!['{'] + members_text(models, 1));
                        }
                    }
                    i = i + 1;
                }
                out.push('}');
            },
        }
        assert(out@ =~= before + json_text(self@));
    }

    /// Writes the compact text of the value.
    pub fn to_string(&self) -> (r: String)
        ensures
            r@ == json_text(self@),
    {
        let mut out: String = String::new();
        self.write(&mut out);
        assert(out@ =~= json_text(self@));
        out
    }

    /// Tests whether two values are the same, members in the same order. The
    /// sign of a zero makes no difference.
    pub fn same(&self, other: &JsonValue) -> (r: bool)
        ensures
            r == json_alike(self@, other@),
        decreases self,
    {
        broadcast use container_view;

        match (self, other) {
            (JsonValue::Null, JsonValue::Null) => true,
            (JsonValue::Bool(a), JsonValue::Bool(b)) => *a == *b,
            (JsonValue::Number(a), JsonValue::Number(b)) => a.same(b),
            (JsonValue::Text(a), JsonValue::Text(b)) => a.eq(b),
            (JsonValue::Array(a), JsonValue::Array(b)) => {
                let ghost (x, y) = (items_view(a@), items_view(b@));
                if a.len() != b.len() {
                    assert(x.len() != y.len());
                    return false;
                }
                let mut i: usize = 0;
                while i < a.len()
                    invariant
                        i <= a@.len() == b@.len(),
                        x == items_view(a@),
                        y == items_view(b@),
                        self@ == Json::Array(x),
                        other@ == Json::Array(y),
                        forall|j: int| 0 <= j < i ==> json_alike(#[trigger] x[j], y[j]),
                        decreases_to!(self => a),
                    decreases a@.len() - i,
                {
                    if !a[i].same(&b[i]) {
                        assert(!json_alike(x[i as int], y[i as int]));
                        return false;
                    }
                    assert(json_alike(x[i as int], y[i as int]));
                    i = i + 1;
                }
                true
            },
            (JsonValue::Object(a), JsonValue::Object(b)) => {
                let ghost (x, y) = (members_view(a@), members_view(b@));
                if a.len() != b.len() {
                    assert(x.len() != y.len());
                    return false;
                }
                let mut i: usize = 0;
                while i < a.len()
                    invariant
                        i <= a@.len() == b@.len(),
                        x == members_view(a@),
                        y == members_view(b@),
                        self@ == Json::Object(x),
                        other@ == Json::Object(y),
                        forall|j: int|
                            0 <= j < i ==> (#[trigger] x[j]).name == y[j].name && json_alike(
                                x[j].value,
                                y[j].value,
                            ),
                        decreases_to!(self => a),
                    decreases a@.len() - i,
                {
                    if !a[i].name.eq(&b[i].name) || !a[i].value.same(&b[i].value) {
                        assert(x[i as int].name != y[i as int].name || !json_alike(
                            x[i as int].value,
                            y[i as int].value,
                        ));
                        return false;
                    }
                    i = i + 1;
                }
                true
            },
            _ => false,
        }
    }

    /// Copies the value.
    pub fn duplicate(&self) -> (r: JsonValue)
        ensures
            r@ == self@,
        decreases self,
    {
        broadcast use container_view;

        match self {
            JsonValue::Null => JsonValue::Null,
            JsonValue::Bool(b) => JsonValue::Bool(*b),
            JsonValue::Number(number) => JsonValue::Number(number.clone()),
            JsonValue::Text(text) => JsonValue::Text(text.clone()),
            JsonValue::Array(items) => {
                let mut copies: Vec<JsonValue> = Vec::new();
                let mut i: usize = 0;
                while i < items.len()
                    invariant
                        i <= items@.len(),
                        copies@.len() == i,
                        forall|j: int| 0 <= j < i ==> (#[trigger] copies@[j])@ == items@[j]@,
                        decreases_to!(self => items),
                    decreases items@.len() - i,
                {
                    copies.push(items[i].duplicate());
                    i = i + 1;
                }
                assert(items_view(copies@) =~= items_view(items@));
                JsonValue::Array(copies)
            },
            JsonValue::Object(members) => {
                let mut copies: Vec<JsonMember> = Vec::new();
                let mut i: usize = 0;
                while i < members.len()
                    invariant
                        i <= members@.len(),
                        copies@.len() == i,
                        forall|j: int| 0 <= j < i ==> (#[trigger] copies@[j])@ == members@[j]@,
                        decreases_to!(self => members),
                    decreases members@.len() - i,
                {
                    copies.push(
                        JsonMember {
                            name: members[i].name.clone(),
                            value: members[i].value.duplicate(),
                        },
                    );
                    i = i + 1;
                }
                assert(members_view(copies@) =~= members_view(members@));
                JsonValue::Object(copies)
            },
        }
    }

    /// Makes an object of its members.
    pub fn object(members: Vec<JsonMember>) -> (r: JsonValue)
        ensures
            r@ == Json::Object(members_view(members@)),
    {
        broadcast use container_view;

        JsonValue::Object(members)
    }

    /// Makes an array of its items.
    pub fn array(items: Vec<JsonValue>) -> (r: JsonValue)
        ensures
            r@ == Json::Array(items_view(items@)),
    {
        broadcast use container_view;

        JsonValue::Array(items)
    }

    /// Makes a string value.
    pub fn text(value: &str) -> (r: JsonValue)
        ensures
            r@ == Json::Text(value@),
    {
        JsonValue::Text(value.to_owned())
    }
}

impl JsonMember {
    /// Makes a member.
    pub fn new(name: &str, value: JsonValue) -> (r: JsonMember)
        ensures
            r@ == (Member { name: name@, value: value@ }),
    {
        JsonMember { name: name.to_owned(), value }
    }
}

impl PartialEq for JsonNumber {
    fn eq(&self, other: &Self) -> (r: bool) {
        self.same(other)
    }
}

impl vstd::std_specs::cmp::PartialEqSpecImpl for JsonNumber {
    open spec fn obeys_eq_spec() -> bool {
        true
    }

    open spec fn eq_spec(&self, other: &Self) -> bool {
        number_alike(self@, other@)
    }
}

impl Eq for JsonNumber {

}

impl PartialEq for JsonValue {
    fn eq(&self, other: &Self) -> (r: bool) {
        self.same(other)
    }
}

impl vstd::std_specs::cmp::PartialEqSpecImpl for JsonValue {
    open spec fn obeys_eq_spec() -> bool {
        true
    }

    open spec fn eq_spec(&self, other: &Self) -> bool {
        json_alike(self@, other@)
    }
}

impl PartialEq for JsonMember {
    fn eq(&self, other: &Self) -> (r: bool) {
        same_text(self.name.as_str(), other.name.as_str()) && self.value.same(&other.value)
    }
}

impl vstd::std_specs::cmp::PartialEqSpecImpl for JsonMember {
    open spec fn obeys_eq_spec() -> bool {
        true
    }

    open spec fn eq_spec(&self, other: &Self) -> bool {
        self@.name == other@.name && json_alike(self@.value, other@.value)
    }
}

impl Clone for JsonValue {
    fn clone(&self) -> (r: Self)
        ensures
            r@ == self@,
    {
        self.duplicate()
    }
}

} // verus!
