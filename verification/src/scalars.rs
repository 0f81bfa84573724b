//! Rules on the Unicode scalars of a text.

use vstd::prelude::*;
use vstd::utf8::{encode_scalar, encode_utf8};

use crate::text::{utf8_concat, utf8_len, utf8_single};

verus! {

/// Which scalars a text may not hold.
#[derive(Clone, Copy, Debug, PartialEq, Eq, Structural)]
pub enum ScalarRule {
    /// Text of one line: no control, no bidirectional formatting, no line
    /// separator and no noncharacter.
    SingleLine,
    /// Text of any lines: no control but tabs and line ends, and no
    /// noncharacter.
    Prose,
}

/// A control character.
pub open spec fn is_control(c: char) -> bool {
    (c as u32) < 32 || 127 <= (c as u32) <= 159
}

/// A character of the property `White_Space`.
pub open spec fn is_white_space(c: char) -> bool {
    let n = c as u32;
    ||| 9 <= n <= 13
    ||| n == 0x20
    ||| n == 0x85
    ||| n == 0xa0
    ||| n == 0x1680
    ||| 0x2000 <= n <= 0x200a
    ||| n == 0x2028
    ||| n == 0x2029
    ||| n == 0x202f
    ||| n == 0x205f
    ||| n == 0x3000
}

/// A code point that is reserved for internal use: one of a block, or one of
/// the last two of a plane.
pub open spec fn is_noncharacter(c: char) -> bool {
    0xfdd0 <= (c as u32) <= 0xfdef || (c as u32) % 0x10000 >= 0xfffe
}

/// A control of bidirectional formatting.
pub open spec fn is_bidi_control(c: char) -> bool {
    let n = c as u32;
    n == 0x61c || n == 0x200e || n == 0x200f || 0x202a <= n <= 0x202e || 0x2066 <= n <= 0x2069
}

/// A scalar that the rule keeps out.
pub open spec fn is_disallowed(rule: ScalarRule, c: char) -> bool {
    match rule {
        ScalarRule::SingleLine => is_control(c) || is_bidi_control(c) || (c as u32) == 0x2028 || (
        c as u32) == 0x2029 || is_noncharacter(c),
        ScalarRule::Prose => (is_control(c) && (c as u32) != 9 && (c as u32) != 10 && (c as u32)
            != 13) || is_noncharacter(c),
    }
}

/// The byte offset of the first scalar from a place on that the rule keeps
/// out.
pub open spec fn first_disallowed(text: Seq<char>, from: int, rule: ScalarRule) -> Option<nat>
    decreases text.len() - from,
{
    if from < 0 || from >= text.len() {
        None
    } else if is_disallowed(rule, text[from]) {
        Some(encode_utf8(text.take(from)).len())
    } else {
        first_disallowed(text, from + 1, rule)
    }
}

/// Tests for a character of the property `White_Space`.
pub fn white_space(c: char) -> (r: bool)
    ensures
        r == is_white_space(c),
{
    let n: u32 = c as u32;
    (9 <= n && n <= 13) || n == 0x20 || n == 0x85 || n == 0xa0 || n == 0x1680 || (0x2000 <= n && n
        <= 0x200a) || n == 0x2028 || n == 0x2029 || n == 0x202f || n == 0x205f || n == 0x3000
}

fn noncharacter(c: char) -> (r: bool)
    ensures
        r == is_noncharacter(c),
{
    let n: u32 = c as u32;
    (0xfdd0 <= n && n <= 0xfdef) || n % 0x10000 >= 0xfffe
}

fn disallowed(rule: ScalarRule, c: char) -> (r: bool)
    ensures
        r == is_disallowed(rule, c),
{
    let n: u32 = c as u32;
    let control: bool = n < 32 || (127 <= n && n <= 159);
    match rule {
        ScalarRule::SingleLine => control || n == 0x61c || n == 0x200e || n == 0x200f || (0x202a
            <= n && n <= 0x202e) || (0x2066 <= n && n <= 0x2069) || n == 0x2028 || n == 0x2029
            || noncharacter(c),
        ScalarRule::Prose => (control && n != 9 && n != 10 && n != 13) || noncharacter(c),
    }
}

/// The number of bytes of a scalar.
fn scalar_width(c: char) -> (r: usize)
    ensures
        r == encode_scalar(c as u32).len(),
{
    broadcast use vstd::utf8::char_is_scalar;

    let n: u32 = c as u32;
    proof {
        vstd::utf8::char_is_scalar(c);
    }
    if n < 0x80 {
        1
    } else if n < 0x800 {
        2
    } else if n < 0x10000 {
        3
    } else {
        4
    }
}

proof fn prefix_bytes(text: Seq<char>, i: int)
    requires
        0 <= i < text.len(),
    ensures
        encode_utf8(text.take(i + 1)).len() == encode_utf8(text.take(i)).len() + encode_scalar(
            text[i] as u32,
        ).len(),
        encode_utf8(text.take(i + 1)).len() <= encode_utf8(text).len(),
{
    utf8_concat(text.take(i), seq![text[i]]);
    utf8_single(text[i]);
    assert(text.take(i + 1) =~= text.take(i) + seq![text[i]]);
    utf8_concat(text.take(i + 1), text.skip(i + 1));
    assert(text =~= text.take(i + 1) + text.skip(i + 1));
}

/// Finds the first scalar that the rule keeps out, and returns its byte offset.
pub fn find_disallowed(text: &str, rule: ScalarRule) -> (r: Option<usize>)
    ensures
        match (r, first_disallowed(text@, 0, rule)) {
            (Some(offset), Some(expected)) => offset == expected,
            (None, None) => true,
            _ => false,
        },
{
    let total: usize = utf8_len(text);
    let mut offset: usize = 0;
    assert(text@.take(0) =~= Seq::<char>::empty());
    for c in chars: text.chars()
        invariant
            chars.seq() == text@,
            total == encode_utf8(text@).len(),
            offset == encode_utf8(text@.take(chars.index() as int)).len(),
            first_disallowed(text@, 0, rule) == first_disallowed(text@, chars.index() as int, rule),
    {
        let ghost i = chars.index() as int;
        assert(c == text@[i]);
        if disallowed(rule, c) {
            return Some(offset);
        }
        proof {
            prefix_bytes(text@, i);
        }
        offset = offset + scalar_width(c);
    }
    None
}

} // verus!
