//! Byte grammars and the byte order shared by every textual identity.

use vstd::prelude::*;
use vstd::utf8::{
    encode_scalar, encode_utf8, has_width_1_encoding, has_width_2_encoding, has_width_3_encoding,
    leading_byte_width_2, leading_byte_width_3, leading_byte_width_4,
};

verus! {

broadcast use vstd::seq::group_seq_axioms;

/// A set of bytes that a textual identity may be made of.
#[derive(Clone, Copy, Debug, PartialEq, Eq, Structural)]
pub enum ByteClass {
    /// ASCII letters, digits and `.`, `_`, `:`, `-`.
    Scope,
    /// ASCII letters, digits and `.`, `_`, `~`, `-`.
    Unreserved,
    /// ASCII letters, digits and `.`, `_`, `-`.
    Name,
    /// ASCII letters, digits and `.`, `_`, `:`, `/`, `-`.
    Label,
    /// Lowercase ASCII letters, digits and `-`.
    LowerKebab,
    /// Lowercase ASCII letters, digits and `_`, `-`.
    LowerSegment,
    /// Printable ASCII, the space among it.
    Printable,
    /// ASCII decimal digits.
    Decimal,
    /// Lowercase hexadecimal digits.
    LowerHex,
}

/// `b` is one of `a` to `z`.
pub open spec fn is_lower(b: u8) -> bool {
    97 <= b <= 122
}

/// `b` is one of `A` to `Z`.
pub open spec fn is_upper(b: u8) -> bool {
    65 <= b <= 90
}

/// `b` is one of `0` to `9`.
pub open spec fn is_digit(b: u8) -> bool {
    48 <= b <= 57
}

/// `b` is an ASCII letter or digit.
pub open spec fn is_alphanumeric(b: u8) -> bool {
    is_lower(b) || is_upper(b) || is_digit(b)
}

/// Whether the class holds the byte.
pub open spec fn admits(class: ByteClass, b: u8) -> bool {
    match class {
        ByteClass::Scope => is_alphanumeric(b) || b == 46 || b == 95 || b == 58 || b == 45,
        ByteClass::Unreserved => is_alphanumeric(b) || b == 46 || b == 95 || b == 126 || b == 45,
        ByteClass::Name => is_alphanumeric(b) || b == 46 || b == 95 || b == 45,
        ByteClass::Label => is_alphanumeric(b) || b == 46 || b == 95 || b == 58 || b == 47
            || b == 45,
        ByteClass::LowerKebab => is_lower(b) || is_digit(b) || b == 45,
        ByteClass::LowerSegment => is_lower(b) || is_digit(b) || b == 95 || b == 45,
        ByteClass::Printable => 32 <= b <= 126,
        ByteClass::Decimal => is_digit(b),
        ByteClass::LowerHex => is_digit(b) || 97 <= b <= 102,
    }
}

/// Index of the first byte at or after `from` that the class does not hold,
/// or the length where there is none.
pub open spec fn first_outside(bytes: Seq<u8>, from: int, class: ByteClass) -> int
    decreases bytes.len() - from,
{
    if from < 0 || from >= bytes.len() {
        bytes.len() as int
    } else if admits(class, bytes[from]) {
        first_outside(bytes, from + 1, class)
    } else {
        from
    }
}

/// `first_outside` is what its description says.
pub proof fn first_outside_is_first(bytes: Seq<u8>, from: int, class: ByteClass)
    requires
        0 <= from <= bytes.len(),
    ensures
        from <= first_outside(bytes, from, class) <= bytes.len(),
        forall|j: int|
            from <= j < first_outside(bytes, from, class) ==> admits(class, #[trigger] bytes[j]),
        first_outside(bytes, from, class) < bytes.len() ==> !admits(
            class,
            bytes[first_outside(bytes, from, class)],
        ),
    decreases bytes.len() - from,
{
    if from < bytes.len() && admits(class, bytes[from]) {
        first_outside_is_first(bytes, from + 1, class);
    }
}

pub fn byte_is_lower(b: u8) -> (r: bool)
    ensures
        r == is_lower(b),
{
    97 <= b && b <= 122
}

pub fn byte_is_digit(b: u8) -> (r: bool)
    ensures
        r == is_digit(b),
{
    48 <= b && b <= 57
}

pub fn byte_is_alphanumeric(b: u8) -> (r: bool)
    ensures
        r == is_alphanumeric(b),
{
    (97 <= b && b <= 122) || (65 <= b && b <= 90) || (48 <= b && b <= 57)
}

/// Tests whether the class holds the byte.
pub fn class_admits(class: ByteClass, b: u8) -> (r: bool)
    ensures
        r == admits(class, b),
{
    match class {
        ByteClass::Scope => byte_is_alphanumeric(b) || b == 46 || b == 95 || b == 58 || b == 45,
        ByteClass::Unreserved => byte_is_alphanumeric(b) || b == 46 || b == 95 || b == 126 || b
            == 45,
        ByteClass::Name => byte_is_alphanumeric(b) || b == 46 || b == 95 || b == 45,
        ByteClass::Label => byte_is_alphanumeric(b) || b == 46 || b == 95 || b == 58 || b == 47 || b
            == 45,
        ByteClass::LowerKebab => byte_is_lower(b) || byte_is_digit(b) || b == 45,
        ByteClass::LowerSegment => byte_is_lower(b) || byte_is_digit(b) || b == 95 || b == 45,
        ByteClass::Printable => 32 <= b && b <= 126,
        ByteClass::Decimal => byte_is_digit(b),
        ByteClass::LowerHex => byte_is_digit(b) || (97 <= b && b <= 102),
    }
}

/// Finds the first byte at or after `from` that the class does not hold.
pub(crate) fn find_outside(bytes: &[u8], from: usize, class: ByteClass) -> (r: usize)
    requires
        from <= bytes@.len(),
    ensures
        r == first_outside(bytes@, from as int, class),
        from <= r <= bytes@.len(),
{
    let mut i: usize = from;
    while i < bytes.len()
        invariant
            from <= i <= bytes@.len(),
            first_outside(bytes@, from as int, class) == first_outside(bytes@, i as int, class),
        decreases bytes@.len() - i,
    {
        if !class_admits(class, bytes[i]) {
            return i;
        }
        i = i + 1;
    }
    i
}

/// `String::push` appends the character.
pub assume_specification[ std::string::String::push ](text: &mut std::string::String, c: char)
    ensures
        final(text)@ == old(text)@.push(c),
;

/// An ASCII text has one byte for each character.
pub proof fn ascii_utf8(text: Seq<char>)
    requires
        vstd::utf8::is_ascii_chars(text),
    ensures
        encode_utf8(text).len() == text.len(),
        forall|i: int| 0 <= i < text.len() ==> #[trigger] encode_utf8(text)[i] == text[i] as u8,
{
    vstd::utf8::is_ascii_chars_encode_utf8(text);
}

/// The texts of strings.
pub open spec fn texts(strings: Seq<String>) -> Seq<Seq<char>> {
    Seq::new(strings.len(), |i: int| strings[i]@)
}

/// The bytes of joined texts are the joined bytes.
pub proof fn utf8_concat(a: Seq<char>, b: Seq<char>)
    ensures
        encode_utf8(a + b) == encode_utf8(a) + encode_utf8(b),
    decreases a.len(),
{
    if a.len() == 0 {
        assert(a + b =~= b);
        assert(encode_utf8(a) + encode_utf8(b) =~= encode_utf8(b));
    } else {
        let whole = a + b;
        assert(whole.drop_first() =~= a.drop_first() + b);
        assert(whole[0] == a[0]);
        utf8_concat(a.drop_first(), b);
        assert(encode_utf8(whole) =~= encode_utf8(a) + encode_utf8(b));
    }
}

/// The bytes of a text of one character.
pub proof fn utf8_single(c: char)
    ensures
        encode_utf8(seq![c]) == encode_scalar(c as u32),
{
    let text = seq![c];
    assert(text.drop_first() =~= Seq::<char>::empty());
    assert(encode_utf8(text.drop_first()) =~= Seq::<u8>::empty());
    assert(encode_utf8(text) =~= encode_scalar(c as u32));
}

/// A text whose bytes are all ASCII is ASCII.
pub proof fn ascii_bytes_are_ascii_text(text: Seq<char>)
    requires
        forall|i: int| 0 <= i < encode_utf8(text).len() ==> #[trigger] encode_utf8(text)[i] < 128,
    ensures
        vstd::utf8::is_ascii_chars(text),
        encode_utf8(text).len() == text.len(),
        forall|i: int| 0 <= i < text.len() ==> encode_utf8(text)[i] == #[trigger] text[i] as u8,
    decreases text.len(),
{
    if text.len() > 0 {
        let bytes = encode_utf8(text);
        let rest = text.drop_first();
        let first = encode_scalar(text[0] as u32);
        let scalar = text[0] as u32;
        assert(bytes == first + encode_utf8(rest));
        assert(bytes[0] == first[0]);
        leading_byte_of_wide_scalar(scalar);
        assert(has_width_1_encoding(scalar));
        small_scalar(text[0]);
        assert forall|i: int| 0 <= i < encode_utf8(rest).len() implies #[trigger] encode_utf8(
            rest,
        )[i] < 128 by {
            assert(bytes[i + 1] == encode_utf8(rest)[i]);
        }
        ascii_bytes_are_ascii_text(rest);
        assert forall|i: int| 0 <= i < text.len() implies '\0' <= #[trigger] text[i]
            <= '\u{7f}' by {
            if i > 0 {
                assert(text[i] == rest[i - 1]);
            }
        }
        ascii_utf8(text);
    }
}

proof fn small_scalar(c: char)
    ensures
        has_width_1_encoding(c as u32) ==> '\0' <= c <= '\u{7f}',
{
}

proof fn leading_byte_of_wide_scalar(scalar: u32)
    ensures
        !has_width_1_encoding(scalar) ==> encode_scalar(scalar)[0] >= 128,
{
    if has_width_2_encoding(scalar) {
        assert(leading_byte_width_2(scalar) >= 128) by (bit_vector)
            requires
                0x80 <= scalar <= 0x7ff,
        ;
    } else if has_width_3_encoding(scalar) {
        assert(leading_byte_width_3(scalar) >= 128) by (bit_vector)
            requires
                0x800 <= scalar <= 0xffff,
        ;
    } else if !has_width_1_encoding(scalar) {
        assert(leading_byte_width_4(scalar) >= 128) by (bit_vector);
    }
}

/// The ASCII lowercase of a byte.
pub open spec fn lowered(b: u8) -> u8 {
    if 65 <= b <= 90 {
        (b + 32) as u8
    } else {
        b
    }
}

/// The bytes with ASCII letters in lowercase.
pub open spec fn lowered_bytes(bytes: Seq<u8>) -> Seq<u8> {
    Seq::new(bytes.len(), |i: int| lowered(bytes[i]))
}

/// Returns the ASCII lowercase of a byte.
pub fn lower_byte(b: u8) -> (r: u8)
    ensures
        r == lowered(b),
{
    if 65 <= b && b <= 90 {
        b + 32
    } else {
        b
    }
}

/// Tests whether the bytes, with letters in lowercase, are the given ones.
pub fn lowers_to(bytes: &[u8], lower: &[u8]) -> (r: bool)
    ensures
        r == (lowered_bytes(bytes@) == lower@),
{
    if bytes.len() != lower.len() {
        return false;
    }
    let mut i: usize = 0;
    while i < bytes.len()
        invariant
            i <= bytes@.len() == lower@.len(),
            forall|j: int| 0 <= j < i ==> lowered(#[trigger] bytes@[j]) == lower@[j],
        decreases bytes@.len() - i,
    {
        if lower_byte(bytes[i]) != lower[i] {
            assert(lowered_bytes(bytes@)[i as int] != lower@[i as int]);
            return false;
        }
        i = i + 1;
    }
    assert(lowered_bytes(bytes@) =~= lower@);
    true
}

/// The length of the text in UTF-8.
pub fn utf8_len(text: &str) -> (r: usize)
    ensures
        r == encode_utf8(text@).len(),
{
    text.as_bytes().len()
}

// ---------------------------------------------------------------------------
// Order
// ---------------------------------------------------------------------------

/// The lexicographic order of byte strings.
pub open spec fn bytes_precede(a: Seq<u8>, b: Seq<u8>) -> bool
    decreases a.len(),
{
    if b.len() == 0 {
        false
    } else if a.len() == 0 {
        true
    } else if a[0] != b[0] {
        a[0] < b[0]
    } else {
        bytes_precede(a.drop_first(), b.drop_first())
    }
}

/// The order of texts: that of their UTF-8 bytes.
pub open spec fn precedes(a: Seq<char>, b: Seq<char>) -> bool {
    bytes_precede(encode_utf8(a), encode_utf8(b))
}

pub proof fn bytes_precede_irreflexive(a: Seq<u8>)
    ensures
        !bytes_precede(a, a),
    decreases a.len(),
{
    if a.len() > 0 {
        bytes_precede_irreflexive(a.drop_first());
    }
}

pub proof fn bytes_precede_transitive(a: Seq<u8>, b: Seq<u8>, c: Seq<u8>)
    requires
        bytes_precede(a, b),
        bytes_precede(b, c),
    ensures
        bytes_precede(a, c),
    decreases a.len(),
{
    if a.len() > 0 && b.len() > 0 && c.len() > 0 && a[0] == b[0] && b[0] == c[0] {
        bytes_precede_transitive(a.drop_first(), b.drop_first(), c.drop_first());
    }
}

pub proof fn bytes_precede_total(a: Seq<u8>, b: Seq<u8>)
    ensures
        bytes_precede(a, b) || bytes_precede(b, a) || a == b,
    decreases a.len(),
{
    if a.len() > 0 && b.len() > 0 && a[0] == b[0] {
        bytes_precede_total(a.drop_first(), b.drop_first());
        if a.drop_first() == b.drop_first() {
            assert(a =~= b) by {
                assert forall|i: int| 0 <= i < a.len() implies a[i] == b[i] by {
                    if i > 0 {
                        assert(a[i] == a.drop_first()[i - 1]);
                        assert(b[i] == b.drop_first()[i - 1]);
                    }
                }
                assert(a.len() == a.drop_first().len() + 1);
                assert(b.len() == b.drop_first().len() + 1);
            }
        }
    } else if a.len() == 0 && b.len() == 0 {
        assert(a =~= b);
    }
}

/// Two texts with the same UTF-8 bytes are the same text.
pub proof fn utf8_injective(a: Seq<char>, b: Seq<char>)
    requires
        encode_utf8(a) == encode_utf8(b),
    ensures
        a == b,
{
    vstd::utf8::encode_utf8_decode_utf8(a);
    vstd::utf8::encode_utf8_decode_utf8(b);
}

/// The order of texts is a strict total order.
pub proof fn precedes_is_strict_total_order(a: Seq<char>, b: Seq<char>, c: Seq<char>)
    ensures
        !precedes(a, a),
        precedes(a, b) && precedes(b, c) ==> precedes(a, c),
        precedes(a, b) ==> !precedes(b, a) && a != b,
        precedes(a, b) || precedes(b, a) || a == b,
{
    let (x, y, z) = (encode_utf8(a), encode_utf8(b), encode_utf8(c));
    bytes_precede_irreflexive(x);
    bytes_precede_irreflexive(y);
    if bytes_precede(x, y) && bytes_precede(y, z) {
        bytes_precede_transitive(x, y, z);
    }
    if bytes_precede(x, y) && bytes_precede(y, x) {
        bytes_precede_transitive(x, y, x);
    }
    bytes_precede_total(x, y);
    if x == y {
        utf8_injective(a, b);
    }
}

/// How two texts stand in the order of texts.
#[derive(Clone, Copy, Debug, PartialEq, Eq, Structural)]
pub enum TextOrder {
    /// The first comes before the second.
    Before,
    /// They are the same text.
    Same,
    /// The first comes after the second.
    After,
}

/// The place of `a` relative to `b`.
pub open spec fn text_order(a: Seq<char>, b: Seq<char>) -> TextOrder {
    if a == b {
        TextOrder::Same
    } else if precedes(a, b) {
        TextOrder::Before
    } else {
        TextOrder::After
    }
}

proof fn bytes_precede_from(a: Seq<u8>, b: Seq<u8>, i: int)
    requires
        0 <= i < a.len(),
        i < b.len(),
    ensures
        a[i] == b[i] ==> bytes_precede(a.skip(i), b.skip(i)) == bytes_precede(
            a.skip(i + 1),
            b.skip(i + 1),
        ),
        a[i] != b[i] ==> bytes_precede(a.skip(i), b.skip(i)) == (a[i] < b[i]),
{
    assert(a.skip(i).drop_first() =~= a.skip(i + 1));
    assert(b.skip(i).drop_first() =~= b.skip(i + 1));
}

/// Orders two texts.
pub fn order_of(a: &str, b: &str) -> (r: TextOrder)
    ensures
        r == text_order(a@, b@),
{
    let x = a.as_bytes();
    let y = b.as_bytes();
    let mut i: usize = 0;
    proof {
        assert(x@.skip(0) =~= x@);
        assert(y@.skip(0) =~= y@);
        bytes_precede_irreflexive(x@);
    }
    while i < x.len() && i < y.len()
        invariant
            x@ == encode_utf8(a@),
            y@ == encode_utf8(b@),
            i <= x@.len(),
            i <= y@.len(),
            forall|j: int| 0 <= j < i ==> x@[j] == y@[j],
            bytes_precede(x@, y@) == bytes_precede(x@.skip(i as int), y@.skip(i as int)),
            !bytes_precede(x@, x@),
        decreases x@.len() - i,
    {
        proof {
            bytes_precede_from(x@, y@, i as int);
        }
        if x[i] != y[i] {
            assert(a@ != b@);
            return if x[i] < y[i] {
                TextOrder::Before
            } else {
                TextOrder::After
            };
        }
        i = i + 1;
    }
    if x.len() == y.len() {
        proof {
            assert(x@ =~= y@);
            utf8_injective(a@, b@);
        }
        TextOrder::Same
    } else {
        assert(a@ != b@);
        if i == x.len() {
            TextOrder::Before
        } else {
            TextOrder::After
        }
    }
}

/// Tests whether two texts are the same.
pub fn same_text(a: &str, b: &str) -> (r: bool)
    ensures
        r == (a@ == b@),
{
    matches!(order_of(a, b), TextOrder::Same)
}

} // verus!
