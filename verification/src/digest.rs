//! Algorithm-tagged integrity digests with one canonical text.

use vstd::prelude::*;
use vstd::utf8::encode_utf8;

use crate::debug::{is_alternate, tuple_string, tuple_text, write_text};
use crate::text::{
    ascii_utf8, find_outside, first_outside, first_outside_is_first, lowered_bytes, lowers_to,
    ByteClass,
};

verus! {

/// A supported digest algorithm.
#[derive(Clone, Copy, Debug, PartialEq, Eq, PartialOrd, Ord, Hash, Structural)]
pub enum DigestAlgorithm {
    /// SHA-256.
    Sha256,
}

impl DigestAlgorithm {
    /// Returns the stable name of the algorithm.
    pub fn as_str(self) -> (r: &'static str)
        ensures
            r@ == "sha256"@,
    {
        "sha256"
    }
}

/// A 256-bit integrity digest.
#[derive(Clone, Copy, Eq, PartialOrd, Ord, Hash)]
pub struct Digest {
    bytes: [u8; 32],
}

/// Rejected digest text.
#[derive(Clone, Copy, Debug, PartialEq, Eq, Structural)]
pub enum DigestError {
    /// The text has more bytes than a canonical digest.
    TooLong { max: usize, actual: usize },
    /// The text has no algorithm separator.
    InvalidFormat,
    /// The algorithm is not a supported one.
    UnsupportedAlgorithm,
    /// The text spells a digest with uppercase letters.
    NonCanonical,
    /// The hexadecimal part has the wrong number of bytes.
    InvalidLength { expected: usize, actual: usize },
    /// The byte at this offset of the whole text is not hexadecimal.
    InvalidHex { index: usize },
}

/// What `sha2::Sha256` computes of the input.
pub uninterp spec fn sha256_hash(input: Seq<u8>) -> Seq<u8>;

/// Calls `sha2::Sha256::digest`: its output is the named function of the
/// input bytes.
#[verifier::external_body]
fn sha256_bytes(input: &[u8]) -> (r: [u8; 32])
    ensures
        r@ == sha256_hash(input@),
{
    <sha2::Sha256 as sha2::Digest>::digest(input).into()
}

/// The lowercase hexadecimal digit.
pub open spec fn hex_digit(value: int) -> char {
    if value < 10 {
        ((48 + value) as u8) as char
    } else {
        ((87 + value) as u8) as char
    }
}

/// The number that a lowercase hexadecimal digit writes.
pub open spec fn hex_value(digit: u8) -> int {
    if digit <= 57 {
        digit - 48
    } else {
        digit - 87
    }
}

/// Two lowercase hexadecimal digits for each byte.
pub open spec fn hex_text(bytes: Seq<u8>) -> Seq<char> {
    Seq::new(
        2 * bytes.len(),
        |i: int|
            if i % 2 == 0 {
                hex_digit(bytes[i / 2] as int / 16)
            } else {
                hex_digit(bytes[i / 2] as int % 16)
            },
    )
}

/// The bytes that pairs of hexadecimal digits write.
pub open spec fn hex_bytes(digits: Seq<u8>) -> Seq<u8> {
    Seq::new(
        digits.len() / 2,
        |i: int| (16 * hex_value(digits[2 * i]) + hex_value(digits[2 * i + 1])) as u8,
    )
}

/// The canonical text of a digest: the algorithm, `:` and 64 digits.
pub open spec fn digest_text(bytes: Seq<u8>) -> Seq<char> {
    "sha256:"@ + hex_text(bytes)
}

/// Index of the first `:` at or after `from`, or the length.
pub open spec fn first_colon(bytes: Seq<u8>, from: int) -> int
    decreases bytes.len() - from,
{
    if from < 0 || from >= bytes.len() {
        bytes.len() as int
    } else if bytes[from] == 58 {
        from
    } else {
        first_colon(bytes, from + 1)
    }
}

/// The bytes of the name `sha256`.
pub open spec fn sha256_name() -> Seq<u8> {
    seq![115u8, 104u8, 97u8, 50u8, 53u8, 54u8]
}

/// What the bytes of a text read as.
pub open spec fn parsed_digest(bytes: Seq<u8>) -> Result<Seq<u8>, DigestError> {
    let colon = first_colon(bytes, 0);
    let algorithm = bytes.take(colon);
    let encoded = bytes.skip(colon + 1);
    let outside = first_outside(encoded, 0, ByteClass::LowerHex);
    if bytes.len() > 71 {
        Err(DigestError::TooLong { max: 71, actual: bytes.len() as usize })
    } else if colon >= bytes.len() {
        Err(DigestError::InvalidFormat)
    } else if algorithm != sha256_name() {
        if lowered_bytes(algorithm) == sha256_name() {
            Err(DigestError::NonCanonical)
        } else {
            Err(DigestError::UnsupportedAlgorithm)
        }
    } else if encoded.len() != 64 {
        Err(DigestError::InvalidLength { expected: 64, actual: encoded.len() as usize })
    } else if outside < 64 {
        if 65 <= encoded[outside] <= 70 {
            Err(DigestError::NonCanonical)
        } else {
            Err(DigestError::InvalidHex { index: (7 + outside) as usize })
        }
    } else {
        Ok(hex_bytes(encoded))
    }
}

proof fn first_colon_is_first(bytes: Seq<u8>, from: int)
    requires
        0 <= from <= bytes.len(),
    ensures
        from <= first_colon(bytes, from) <= bytes.len(),
        forall|j: int| from <= j < first_colon(bytes, from) ==> #[trigger] bytes[j] != 58,
        first_colon(bytes, from) < bytes.len() ==> bytes[first_colon(bytes, from)] == 58,
    decreases bytes.len() - from,
{
    if from < bytes.len() && bytes[from] != 58 {
        first_colon_is_first(bytes, from + 1);
    }
}

/// Finds the first `:`.
pub(crate) fn find_colon(bytes: &[u8], from: usize) -> (r: usize)
    requires
        from <= bytes@.len(),
    ensures
        r == first_colon(bytes@, from as int),
        from <= r <= bytes@.len(),
{
    let mut i: usize = from;
    while i < bytes.len()
        invariant
            from <= i <= bytes@.len(),
            first_colon(bytes@, from as int) == first_colon(bytes@, i as int),
        decreases bytes@.len() - i,
    {
        if bytes[i] == 58 {
            return i;
        }
        i = i + 1;
    }
    i
}

fn hex_char(value: u8) -> (r: char)
    requires
        value < 16,
    ensures
        r == hex_digit(value as int),
{
    if value < 10 {
        (48 + value) as char
    } else {
        (87 + value) as char
    }
}

fn hex_number(digit: u8) -> (r: u8)
    requires
        crate::text::admits(ByteClass::LowerHex, digit),
    ensures
        r == hex_value(digit),
        r < 16,
{
    if digit <= 57 {
        digit - 48
    } else {
        digit - 87
    }
}

/// Tests two byte strings for equality.
fn same_bytes(a: &[u8], b: &[u8]) -> (r: bool)
    ensures
        r == (a@ == b@),
{
    if a.len() != b.len() {
        return false;
    }
    let mut i: usize = 0;
    while i < a.len()
        invariant
            i <= a@.len() == b@.len(),
            forall|j: int| 0 <= j < i ==> #[trigger] a@[j] == b@[j],
        decreases a@.len() - i,
    {
        if a[i] != b[i] {
            return false;
        }
        i = i + 1;
    }
    assert(a@ =~= b@);
    true
}

/// Reads the algorithm name that stands before the separator.
fn check_algorithm(name: &[u8]) -> (r: Result<(), DigestError>)
    ensures
        r is Ok <==> name@ == sha256_name(),
        r matches Err(e) ==> e == (if lowered_bytes(name@) == sha256_name() {
            DigestError::NonCanonical
        } else {
            DigestError::UnsupportedAlgorithm
        }),
{
    let expected: [u8; 6] = [115, 104, 97, 50, 53, 54];
    assert(expected@ =~= sha256_name());
    if same_bytes(name, expected.as_slice()) {
        Ok(())
    } else if lowers_to(name, expected.as_slice()) {
        Err(DigestError::NonCanonical)
    } else {
        Err(DigestError::UnsupportedAlgorithm)
    }
}

impl Digest {
    /// Length of a SHA-256 value in bytes.
    pub const SHA256_LEN: usize = 32;

    /// The bytes of the digest.
    pub closed spec fn view(&self) -> Seq<u8> {
        self.bytes@
    }

    /// A digest is its bytes, and they are 32.
    pub broadcast proof fn view_determines(a: Digest, b: Digest)
        ensures
            #![trigger a.view(), b.view()]
            a.view().len() == 32,
            a.view() == b.view() ==> a == b,
    {
        assert(a.bytes@.len() == 32);
        if a.bytes@ == b.bytes@ {
            assert(a.bytes == b.bytes);
        }
    }

    /// Computes the SHA-256 digest of the input.
    pub fn sha256(input: &[u8]) -> (r: Digest)
        ensures
            r@ == sha256_hash(input@),
    {
        Digest { bytes: sha256_bytes(input) }
    }

    /// Wraps a SHA-256 value that was computed before.
    pub fn from_sha256(bytes: [u8; 32]) -> (r: Digest)
        ensures
            r@ == bytes@,
    {
        Digest { bytes }
    }

    /// Returns the algorithm of the digest.
    pub fn algorithm(self) -> (r: DigestAlgorithm)
        ensures
            r == DigestAlgorithm::Sha256,
    {
        DigestAlgorithm::Sha256
    }

    /// Returns the raw bytes of the digest.
    pub fn as_bytes(&self) -> (r: &[u8])
        ensures
            r@ == self@,
    {
        self.bytes.as_slice()
    }

    /// Writes the canonical text.
    pub fn to_string(&self) -> (r: String)
        ensures
            r@ == digest_text(self@),
    {
        let mut text: String = "sha256:".to_owned();
        let ghost prefix = text@;
        let mut i: usize = 0;
        while i < 32
            invariant
                i <= 32,
                prefix == "sha256:"@,
                text@ =~= prefix + hex_text(self.bytes@).take(2 * i),
            decreases 32 - i,
        {
            let b: u8 = self.bytes[i];
            let ghost hex = hex_text(self.bytes@);
            text.push(hex_char(b / 16));
            text.push(hex_char(b % 16));
            proof {
                assert((2 * i) % 2 == 0 && (2 * i) / 2 == i);
                assert((2 * i + 1) % 2 == 1 && (2 * i + 1) / 2 == i);
                assert(hex[2 * i] == hex_digit(b as int / 16));
                assert(hex[2 * i + 1] == hex_digit(b as int % 16));
                assert(hex.take(2 * i + 2) =~= hex.take(2 * i).push(hex[2 * i]).push(
                    hex[2 * i + 1],
                ));
            }
            i = i + 1;
        }
        proof {
            assert(hex_text(self.bytes@).take(64) =~= hex_text(self.bytes@));
        }
        text
    }

    /// Parses the canonical text of a digest.
    pub fn parse(value: &str) -> (r: Result<Digest, DigestError>)
        ensures
            match (r, parsed_digest(encode_utf8(value@))) {
                (Ok(d), Ok(bytes)) => d@ == bytes,
                (Err(e), Err(expected)) => e == expected,
                _ => false,
            },
    {
        let bytes = value.as_bytes();
        if bytes.len() > 71 {
            return Err(DigestError::TooLong { max: 71, actual: bytes.len() });
        }
        let colon: usize = find_colon(bytes, 0);
        if colon == bytes.len() {
            return Err(DigestError::InvalidFormat);
        }
        let name = &bytes[0..colon];
        assert(name@ =~= bytes@.take(colon as int));
        match check_algorithm(name) {
            Err(e) => {
                return Err(e);
            },
            Ok(()) => {},
        }
        assert(colon == 6) by {
            assert(bytes@.take(colon as int).len() == 6);
        }
        let ghost encoded = bytes@.skip(7);
        if bytes.len() - 7 != 64 {
            return Err(DigestError::InvalidLength { expected: 64, actual: bytes.len() - 7 });
        }
        let digits = &bytes[7..bytes.len()];
        assert(digits@ =~= encoded);
        let outside: usize = find_outside(digits, 0, ByteClass::LowerHex);
        if outside < 64 {
            let b: u8 = digits[outside];
            if 65 <= b && b <= 70 {
                return Err(DigestError::NonCanonical);
            }
            return Err(DigestError::InvalidHex { index: 7 + outside });
        }
        proof {
            first_outside_is_first(encoded, 0, ByteClass::LowerHex);
        }
        let mut out: [u8; 32] = [0u8; 32];
        let mut i: usize = 0;
        while i < 32
            invariant
                i <= 32,
                digits@ == encoded,
                encoded.len() == 64,
                forall|j: int|
                    0 <= j < 64 ==> crate::text::admits(ByteClass::LowerHex, #[trigger] encoded[j]),
                forall|j: int| 0 <= j < i ==> #[trigger] out@[j] == hex_bytes(encoded)[j],
            decreases 32 - i,
        {
            assert(crate::text::admits(ByteClass::LowerHex, encoded[2 * i]));
            assert(crate::text::admits(ByteClass::LowerHex, encoded[2 * i + 1]));
            let high: u8 = hex_number(digits[2 * i]);
            let low: u8 = hex_number(digits[2 * i + 1]);
            out[i] = 16 * high + low;
            i = i + 1;
        }
        assert(out@ =~= hex_bytes(encoded));
        Ok(Digest { bytes: out })
    }
}

impl PartialEq for Digest {
    fn eq(&self, other: &Self) -> (r: bool) {
        let mut i: usize = 0;
        while i < 32
            invariant
                i <= 32,
                forall|j: int| 0 <= j < i ==> #[trigger] self.bytes@[j] == other.bytes@[j],
            decreases 32 - i,
        {
            if self.bytes[i] != other.bytes[i] {
                return false;
            }
            i = i + 1;
        }
        assert(self.bytes@ =~= other.bytes@);
        true
    }
}

impl vstd::std_specs::cmp::PartialEqSpecImpl for Digest {
    open spec fn obeys_eq_spec() -> bool {
        true
    }

    open spec fn eq_spec(&self, other: &Self) -> bool {
        self@ == other@
    }
}

impl core::str::FromStr for Digest {
    type Err = DigestError;

    fn from_str(value: &str) -> (r: Result<Self, Self::Err>)
        ensures
            match (r, parsed_digest(encode_utf8(value@))) {
                (Ok(d), Ok(bytes)) => d@ == bytes,
                (Err(e), Err(expected)) => e == expected,
                _ => false,
            },
    {
        Digest::parse(value)
    }
}

proof fn digest_text_bytes(bytes: Seq<u8>)
    requires
        bytes.len() == 32,
    ensures
        encode_utf8(digest_text(bytes)).len() == 71,
        encode_utf8(digest_text(bytes)).take(6) == sha256_name(),
        encode_utf8(digest_text(bytes))[6] == 58,
        first_colon(encode_utf8(digest_text(bytes)), 0) == 6,
        hex_bytes(encode_utf8(digest_text(bytes)).skip(7)) == bytes,
        first_outside(encode_utf8(digest_text(bytes)).skip(7), 0, ByteClass::LowerHex) == 64,
{
    let text = digest_text(bytes);
    reveal_strlit("sha256:");
    let hex = hex_text(bytes);
    assert forall|i: int| 0 <= i < 64 implies ('0' <= #[trigger] hex[i] <= '9') || ('a' <= hex[i]
        <= 'f') by {}
    assert(vstd::utf8::is_ascii_chars(text)) by {
        assert forall|i: int| 0 <= i < text.len() implies '\0' <= #[trigger] text[i]
            <= '\u{7f}' by {
            if i >= 7 {
                assert(text[i] == hex[i - 7]);
            } else {
                assert(text[i] == "sha256:"@[i]);
            }
        }
    }
    ascii_utf8(text);
    let b = encode_utf8(text);
    assert forall|i: int| 0 <= i < 7 implies #[trigger] b[i] == "sha256:"@[i] as u8 by {
        assert(text[i] == "sha256:"@[i]);
    }
    assert(b.take(6) =~= sha256_name());
    first_colon_is_first(b, 0);
    let c = first_colon(b, 0);
    assert(c == 6) by {
        if c < 6 {
            assert(b[c] == b.take(6)[c]);
            assert(sha256_name()[c] == 58);
        }
        if c > 6 {
            assert(b[6] != 58);
        }
    }
    let e = b.skip(7);
    assert forall|i: int| 0 <= i < 64 implies #[trigger] e[i] == hex[i] as u8 by {
        assert(e[i] == b[i + 7]);
        assert(text[i + 7] == hex[i]);
    }
    first_outside_is_first(e, 0, ByteClass::LowerHex);
    let o = first_outside(e, 0, ByteClass::LowerHex);
    if o < 64 {
        assert(e[o] == hex[o] as u8);
    }
    assert(hex_bytes(e) =~= bytes) by {
        assert forall|i: int| 0 <= i < 32 implies hex_bytes(e)[i] == bytes[i] by {
            assert((2 * i) % 2 == 0 && (2 * i) / 2 == i);
            assert((2 * i + 1) % 2 == 1 && (2 * i + 1) / 2 == i);
            assert(hex[2 * i] == hex_digit(bytes[i] as int / 16));
            assert(hex[2 * i + 1] == hex_digit(bytes[i] as int % 16));
            assert(e[2 * i] == hex[2 * i] as u8);
            assert(e[2 * i + 1] == hex[2 * i + 1] as u8);
        }
    }
}

/// Writing a digest and reading it back gives the digest.
pub proof fn written_digest_reads_back(bytes: Seq<u8>)
    requires
        bytes.len() == 32,
    ensures
        parsed_digest(encode_utf8(digest_text(bytes))) == Ok::<Seq<u8>, DigestError>(bytes),
{
    digest_text_bytes(bytes);
    assert(encode_utf8(digest_text(bytes)).skip(7).len() == 64);
}

proof fn written_pair(x: u8, y: u8)
    requires
        crate::text::admits(ByteClass::LowerHex, x),
        crate::text::admits(ByteClass::LowerHex, y),
    ensures
        ({
            let b = (16 * hex_value(x) + hex_value(y)) as u8;
            &&& hex_digit(b as int / 16) as u8 == x
            &&& hex_digit(b as int % 16) as u8 == y
        }),
{
    let (m, n) = (hex_value(x) as int, hex_value(y) as int);
    assert(0 <= m < 16 && 0 <= n < 16);
    assert((16 * m + n) / 16 == m && (16 * m + n) % 16 == n);
}

proof fn written_digit(encoded: Seq<u8>, i: int)
    requires
        encoded.len() == 64,
        forall|j: int|
            0 <= j < 64 ==> crate::text::admits(ByteClass::LowerHex, #[trigger] encoded[j]),
        0 <= i < 64,
    ensures
        hex_text(hex_bytes(encoded))[i] as u8 == encoded[i],
{
    let k = i / 2;
    assert(crate::text::admits(ByteClass::LowerHex, encoded[2 * k]));
    assert(crate::text::admits(ByteClass::LowerHex, encoded[2 * k + 1]));
    written_pair(encoded[2 * k], encoded[2 * k + 1]);
    assert(i == 2 * k || i == 2 * k + 1);
}

/// Text that is accepted is the canonical text of its digest.
pub proof fn accepted_digest_is_canonical(text: Seq<char>)
    requires
        parsed_digest(encode_utf8(text)) is Ok,
    ensures
        text == digest_text(parsed_digest(encode_utf8(text))->Ok_0),
        parsed_digest(encode_utf8(text))->Ok_0.len() == 32,
{
    let b = encode_utf8(text);
    let bytes = parsed_digest(b)->Ok_0;
    first_colon_is_first(b, 0);
    assert(b.take(first_colon(b, 0)).len() == 6);
    let e = b.skip(7);
    first_outside_is_first(e, 0, ByteClass::LowerHex);
    let canonical = digest_text(bytes);
    digest_text_bytes(bytes);
    let c = encode_utf8(canonical);
    assert(c =~= b) by {
        reveal_strlit("sha256:");
        let hex = hex_text(bytes);
        assert(vstd::utf8::is_ascii_chars(canonical)) by {
            assert forall|i: int| 0 <= i < canonical.len() implies '\0' <= #[trigger] canonical[i]
                <= '\u{7f}' by {
                if i >= 7 {
                    assert(canonical[i] == hex[i - 7]);
                } else {
                    assert(canonical[i] == "sha256:"@[i]);
                }
            }
        }
        ascii_utf8(canonical);
        assert forall|i: int| 0 <= i < 71 implies c[i] == b[i] by {
            if i < 6 {
                assert(b[i] == b.take(6)[i]);
                assert(c[i] == c.take(6)[i]);
            } else if i > 6 {
                assert(canonical[i] == hex[i - 7]);
                written_digit(e, i - 7);
                assert(b[i] == e[i - 7]);
            }
        }
    }
    crate::text::utf8_injective(canonical, text);
}

// ---------------------------------------------------------------------------
// Debug output
// ---------------------------------------------------------------------------

/// What is shown of a digest.
pub open spec fn digest_shown(bytes: Seq<u8>, alternate: bool) -> Seq<char> {
    tuple_text("Digest"@, digest_text(bytes), alternate)
}

impl Digest {
    /// Returns what is shown of it for debugging.
    pub fn debug_text(&self, alternate: bool) -> (r: String)
        ensures
            r@ == digest_shown(self@, alternate),
    {
        tuple_string("Digest", self.to_string(), alternate)
    }
}

impl core::fmt::Debug for Digest {
    fn fmt(&self, formatter: &mut core::fmt::Formatter<'_>) -> core::fmt::Result {
        let alternate: bool = is_alternate(formatter);
        write_text(formatter, self.debug_text(alternate).as_str())
    }
}

} // verus!
