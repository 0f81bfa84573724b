//! Which texts are accepted, said byte by byte.

use vstd::prelude::*;
use vstd::utf8::encode_utf8;

use crate::content::{security_label_check, text_check, SecurityLabelError, TextContentError};
use crate::extension_key::{
    dot_count, label_length, labels_failure, reverse_dns_check, uri_key_check,
};
use crate::failure::{
    failure_identifier_check, failure_message_check, segments_failure, FailureMessageError,
};
use crate::identity::{issuer_check, subject_check, SubjectIdError};
use crate::ids::{
    scheduler_shard_id_check, submission_key_check, tenant_id_check, AgentSubmissionKeyError,
    SchedulerShardIdError, TenantIdError,
};
use crate::journal::{event_kind_check, kind_failure};
use crate::message::{instruction_name_check, InstructionNameError};
use crate::names::{plain_name_check, NameError};
use crate::scalars::{first_disallowed, ScalarRule};
use crate::text::{first_outside, first_outside_is_first, ByteClass};
use crate::uri::UriModel;

verus! {

/// One of `a` to `z`.
pub open spec fn small(b: u8) -> bool {
    0x61 <= b && b <= 0x7a
}

/// One of `0` to `9`.
pub open spec fn numeral(b: u8) -> bool {
    0x30 <= b && b <= 0x39
}

/// One of `a` to `z`, `A` to `Z` or `0` to `9`.
pub open spec fn alphanumeral(b: u8) -> bool {
    small(b) || (0x41 <= b && b <= 0x5a) || numeral(b)
}

/// Where nothing is outside the class from a place on, every byte is in it.
proof fn none_outside(bytes: Seq<u8>, from: int, class: ByteClass)
    requires
        0 <= from <= bytes.len(),
    ensures
        first_outside(bytes, from, class) >= bytes.len() <==> forall|i: int|
            from <= i < bytes.len() ==> crate::text::admits(class, #[trigger] bytes[i]),
{
    first_outside_is_first(bytes, from, class);
    let o = first_outside(bytes, from, class);
    if o < bytes.len() {
        assert(!crate::text::admits(class, bytes[o]));
    }
}

/// The bytes of tenants and shards.
pub open spec fn scope_byte(b: u8) -> bool {
    alphanumeral(b) || b == 0x2e || b == 0x5f || b == 0x3a || b == 0x2d
}

/// The bytes of names.
pub open spec fn name_byte(b: u8) -> bool {
    alphanumeral(b) || b == 0x2e || b == 0x5f || b == 0x2d
}

/// A tenant or a shard is named by 1 to 128 letters, digits, dots, underscores,
/// colons and hyphens, and neither `.` nor `..`.
pub proof fn scopes_accepted_exactly(bytes: Seq<u8>)
    ensures
        tenant_id_check(bytes) is Ok <==> {
            &&& 1 <= bytes.len() <= 128
            &&& forall|i: int| 0 <= i < bytes.len() ==> scope_byte(#[trigger] bytes[i])
            &&& !(bytes.len() <= 2 && forall|i: int|
                0 <= i < bytes.len() ==> #[trigger] bytes[i] == 0x2e)
        },
        scheduler_shard_id_check(bytes) is Ok <==> tenant_id_check(bytes) is Ok,
        tenant_id_check(bytes) matches Err(TenantIdError::InvalidByte { index }) ==> index
            < bytes.len() && !scope_byte(bytes[index as int]) && forall|i: int|
            0 <= i < index ==> scope_byte(#[trigger] bytes[i]),
        scheduler_shard_id_check(bytes) matches Err(SchedulerShardIdError::InvalidByte { index })
            ==> index < bytes.len() && !scope_byte(bytes[index as int]),
{
    none_outside(bytes, 0, ByteClass::Scope);
    first_outside_is_first(bytes, 0, ByteClass::Scope);
    if bytes.len() <= 2 && bytes.len() > 0 && (forall|i: int|
        0 <= i < bytes.len() ==> #[trigger] bytes[i] == 0x2e) {
        if bytes.len() == 1 {
            assert(bytes =~= seq![46u8]);
        } else {
            assert(bytes =~= seq![46u8, 46u8]);
        }
    }
}

/// A submission key is 16 to 128 letters, digits, dots, underscores, tildes and
/// hyphens.
pub proof fn submission_keys_accepted_exactly(bytes: Seq<u8>)
    ensures
        submission_key_check(bytes) is Ok <==> 16 <= bytes.len() <= 128 && forall|i: int|
            0 <= i < bytes.len() ==> name_byte(#[trigger] bytes[i]) || bytes[i] == 0x7e,
        submission_key_check(bytes) matches Err(AgentSubmissionKeyError::InvalidByte { index })
            ==> index < bytes.len() && !name_byte(bytes[index as int]) && bytes[index as int]
            != 0x7e,
{
    none_outside(bytes, 0, ByteClass::Unreserved);
    first_outside_is_first(bytes, 0, ByteClass::Unreserved);
}

/// A name is a letter or digit, followed by up to 127 letters, digits, dots,
/// underscores and hyphens. An instruction has such a name too.
pub proof fn names_accepted_exactly(bytes: Seq<u8>)
    ensures
        plain_name_check(bytes) is Ok <==> {
            &&& 1 <= bytes.len() <= 128
            &&& alphanumeral(bytes[0])
            &&& forall|i: int| 1 <= i < bytes.len() ==> name_byte(#[trigger] bytes[i])
        },
        instruction_name_check(bytes) is Ok <==> plain_name_check(bytes) is Ok,
        plain_name_check(bytes) matches Err(NameError::InvalidByte { index }) ==> 1 <= index
            < bytes.len() && !name_byte(bytes[index as int]),
        instruction_name_check(bytes) matches Err(InstructionNameError::InvalidByte { index })
            ==> 1 <= index < bytes.len() && !name_byte(bytes[index as int]),
{
    if bytes.len() > 0 {
        none_outside(bytes, 1, ByteClass::Name);
        first_outside_is_first(bytes, 1, ByteClass::Name);
    }
}

/// A security label is a letter or digit, followed by up to 127 letters, digits,
/// dots, underscores, colons, slashes and hyphens.
pub proof fn security_labels_accepted_exactly(bytes: Seq<u8>)
    ensures
        security_label_check(bytes) is Ok <==> {
            &&& 1 <= bytes.len() <= 128
            &&& alphanumeral(bytes[0])
            &&& forall|i: int|
                1 <= i < bytes.len() ==> scope_byte(#[trigger] bytes[i]) || bytes[i] == 0x2f
        },
        security_label_check(bytes) matches Err(SecurityLabelError::InvalidByte { index }) ==> 1
            <= index < bytes.len() && !scope_byte(bytes[index as int]) && bytes[index as int]
            != 0x2f,
{
    if bytes.len() > 0 {
        none_outside(bytes, 1, ByteClass::Label);
        first_outside_is_first(bytes, 1, ByteClass::Label);
    }
}

/// A subject is 1 to 255 bytes of printable ASCII.
pub proof fn subjects_accepted_exactly(bytes: Seq<u8>)
    ensures
        subject_check(bytes) is Ok <==> 1 <= bytes.len() <= 255 && forall|i: int|
            0 <= i < bytes.len() ==> 0x20 <= #[trigger] bytes[i] <= 0x7e,
        subject_check(bytes) matches Err(SubjectIdError::InvalidByte { index }) ==> index
            < bytes.len() && !(0x20 <= bytes[index as int] <= 0x7e),
{
    none_outside(bytes, 0, ByteClass::Printable);
    first_outside_is_first(bytes, 0, ByteClass::Printable);
}

/// An issuer is a URI of 1 to 512 bytes under `https`, in whatever case, with a
/// host, without user information, query and fragment, and with a port of
/// decimal digits, if any.
pub proof fn issuers_accepted_exactly(bytes: Seq<u8>, parsed: Option<UriModel>)
    ensures
        issuer_check(bytes, parsed) is Ok <==> {
            &&& 1 <= bytes.len() <= 512
            &&& parsed matches Some(uri)
            &&& spells_https(encode_utf8(uri.scheme))
            &&& uri.has_query == false
            &&& uri.has_fragment == false
            &&& uri.authority matches Some(authority)
            &&& authority.host.len() > 0
            &&& authority.has_userinfo == false
            &&& authority.port matches Some(port) ==> encode_utf8(port).len() > 0 && (forall|
                i: int,
            |
                0 <= i < encode_utf8(port).len() ==> numeral(#[trigger] encode_utf8(port)[i]))
                && crate::decimal::decimal_value(encode_utf8(port)) <= 65535
        },
{
    if let Some(uri) = parsed {
        https_is_spelled(encode_utf8(uri.scheme));
        if let Some(authority) = uri.authority {
            if let Some(port) = authority.port {
                none_outside(encode_utf8(port), 0, ByteClass::Decimal);
                first_outside_is_first(encode_utf8(port), 0, ByteClass::Decimal);
            }
        }
    }
}

/// The bytes are those of `https`, each in one case or the other.
pub open spec fn spells_https(bytes: Seq<u8>) -> bool {
    &&& bytes.len() == 5
    &&& bytes[0] == 0x68 || bytes[0] == 0x48
    &&& bytes[1] == 0x74 || bytes[1] == 0x54
    &&& bytes[2] == 0x74 || bytes[2] == 0x54
    &&& bytes[3] == 0x70 || bytes[3] == 0x50
    &&& bytes[4] == 0x73 || bytes[4] == 0x53
}

proof fn https_is_spelled(bytes: Seq<u8>)
    ensures
        crate::text::lowered_bytes(bytes) == crate::identity::https_name() <==> spells_https(bytes),
{
    let low = crate::text::lowered_bytes(bytes);
    let name = crate::identity::https_name();
    if spells_https(bytes) {
        assert(low =~= name);
    }
    if low == name {
        assert(low.len() == 5);
        assert(low[0] == name[0] && low[1] == name[1] && low[2] == name[2] && low[3] == name[3]
            && low[4] == name[4]);
    }
}

/// A URI is an extension key exactly if it is in normal form, has neither query
/// nor fragment, and is an `https` URI with a host and without user
/// information, or a URN.
pub proof fn uri_keys_accepted_only_in_normal_form(
    text: Seq<char>,
    parsed: Option<UriModel>,
    normal: Option<Seq<char>>,
)
    ensures
        uri_key_check(text, parsed, normal) is Ok ==> {
            &&& normal == Some(text)
            &&& parsed matches Some(uri)
            &&& uri.has_query == false
            &&& uri.has_fragment == false
            &&& spells_https(encode_utf8(uri.scheme)) ==> (uri.authority matches Some(authority)
                && authority.host.len() > 0 && authority.has_userinfo == false)
            &&& !spells_https(encode_utf8(uri.scheme)) ==> uri.authority is None
                && crate::extension_key::urn_valid(encode_utf8(text)) && crate::text::lowered_bytes(
                encode_utf8(uri.scheme),
            ) == seq![0x75u8, 0x72u8, 0x6eu8]
        },
        parsed matches Some(uri) && !uri.has_query && !uri.has_fragment && spells_https(
            encode_utf8(uri.scheme),
        ) && (uri.authority matches Some(authority) && authority.host.len() > 0
            && !authority.has_userinfo) && normal == Some(text) ==> uri_key_check(
            text,
            parsed,
            normal,
        ) is Ok,
{
    if let Some(uri) = parsed {
        https_is_spelled(encode_utf8(uri.scheme));
        assert(crate::identity::https_name().len() != crate::extension_key::urn_name().len());
    }
}

// ---------------------------------------------------------------------------
// Segments and labels
// ---------------------------------------------------------------------------

/// The byte belongs to a segment.
pub open spec fn segment_byte(b: u8) -> bool {
    small(b) || numeral(b) || b == 0x5f || b == 0x2d
}

proof fn segments_say(bytes: Seq<u8>, from: int, at_start: bool)
    requires
        0 <= from <= bytes.len(),
    ensures
        segments_failure(bytes, from, at_start) is None <==> {
            &&& at_start ==> from < bytes.len() && small(bytes[from])
            &&& forall|i: int|
                from <= i < bytes.len() ==> segment_byte(#[trigger] bytes[i]) || bytes[i] == 0x2e
            &&& forall|i: int|
                from <= i < bytes.len() && #[trigger] bytes[i] == 0x2e ==> i + 1 < bytes.len()
                    && small(bytes[i + 1])
        },
    decreases bytes.len() - from,
{
    if from < bytes.len() {
        let start = !at_start && bytes[from] == 0x2e;
        segments_say(bytes, from + 1, start);
        if segments_failure(bytes, from, at_start) is None {
            assert(segments_failure(bytes, from + 1, start) is None);
            assert forall|i: int| from <= i < bytes.len() implies segment_byte(#[trigger] bytes[i])
                || bytes[i] == 0x2e by {
                if i > from {
                    assert(from + 1 <= i);
                }
            }
            assert forall|i: int|
                from <= i < bytes.len() && #[trigger] bytes[i] == 0x2e implies i + 1 < bytes.len()
                && small(bytes[i + 1]) by {
                if i > from {
                    assert(from + 1 <= i);
                }
            }
        }
    }
}

/// A failure identifier is 1 to 128 bytes of segments that are separated by
/// dots. A segment begins with a lowercase letter and goes on with lowercase
/// letters, digits, underscores and hyphens.
pub proof fn failure_identifiers_accepted_exactly(bytes: Seq<u8>)
    ensures
        failure_identifier_check(bytes) is Ok <==> {
            &&& 1 <= bytes.len() <= 128
            &&& small(bytes[0])
            &&& forall|i: int|
                0 <= i < bytes.len() ==> segment_byte(#[trigger] bytes[i]) || bytes[i] == 0x2e
            &&& forall|i: int|
                0 <= i < bytes.len() && #[trigger] bytes[i] == 0x2e ==> i + 1 < bytes.len()
                    && small(bytes[i + 1])
        },
{
    segments_say(bytes, 0, true);
}

proof fn kinds_say(bytes: Seq<u8>, from: int)
    requires
        0 <= from,
    ensures
        kind_failure(bytes, from) is None <==> forall|i: int|
            from <= i < bytes.len() ==> {
                &&& small(#[trigger] bytes[i]) || numeral(bytes[i]) || bytes[i] == 0x2d
                &&& bytes[i] == 0x2d ==> i + 1 < bytes.len() && (i > 0 ==> bytes[i - 1] != 0x2d)
            },
    decreases bytes.len() - from,
{
    if from < bytes.len() {
        kinds_say(bytes, from + 1);
    }
}

/// A kind of event is a lowercase letter, followed by up to 95 lowercase letters,
/// digits and hyphens, no two hyphens in a row and none at the end.
pub proof fn event_kinds_accepted_exactly(bytes: Seq<u8>)
    ensures
        event_kind_check(bytes) is Ok <==> {
            &&& 1 <= bytes.len() <= 96
            &&& small(bytes[0])
            &&& forall|i: int|
                0 <= i < bytes.len() ==> {
                    &&& small(#[trigger] bytes[i]) || numeral(bytes[i]) || bytes[i] == 0x2d
                    &&& bytes[i] == 0x2d ==> i + 1 < bytes.len() && (i > 0 ==> bytes[i - 1]
                        != 0x2d)
                }
        },
{
    kinds_say(bytes, 0);
}

/// The byte belongs to a label.
pub open spec fn label_byte(b: u8) -> bool {
    small(b) || numeral(b) || b == 0x2d
}

proof fn label_says(bytes: Seq<u8>, from: int)
    requires
        0 <= from <= bytes.len(),
    ensures
        from + label_length(bytes, from) <= bytes.len(),
        forall|i: int| from <= i < from + label_length(bytes, from) ==> #[trigger] bytes[i] != 0x2e,
        from + label_length(bytes, from) < bytes.len() ==> bytes[from + label_length(bytes, from)]
            == 0x2e,
    decreases bytes.len() - from,
{
    if from < bytes.len() && bytes[from] != 46 {
        label_says(bytes, from + 1);
    }
}

/// From the place on there are labels: of lowercase letters, digits and
/// hyphens, each beginning with a letter and ending with none of the hyphens,
/// separated by single dots.
pub open spec fn labels_from(bytes: Seq<u8>, from: int) -> bool {
    &&& from < bytes.len() && small(bytes[from])
    &&& small(bytes[bytes.len() - 1]) || numeral(bytes[bytes.len() - 1])
    &&& forall|i: int|
        from <= i < bytes.len() ==> label_byte(#[trigger] bytes[i]) || bytes[i] == 0x2e
    &&& forall|i: int|
        from < i < bytes.len() && #[trigger] bytes[i] == 0x2e ==> {
            &&& i + 1 < bytes.len()
            &&& small(bytes[i + 1])
            &&& small(bytes[i - 1]) || numeral(bytes[i - 1])
        }
}

proof fn labels_say(bytes: Seq<u8>, from: int, label: int)
    requires
        0 <= from <= bytes.len(),
        labels_failure(bytes, from, label) is None,
    ensures
        labels_from(bytes, from),
        label_length(bytes, from) <= 63,
    decreases bytes.len() - from,
{
    let length = label_length(bytes, from);
    let end = from + length;
    label_says(bytes, from);
    first_outside_is_first(bytes, from, ByteClass::LowerKebab);
    assert forall|i: int| from <= i < end implies label_byte(#[trigger] bytes[i]) by {
        assert(crate::text::admits(ByteClass::LowerKebab, bytes[i]));
    }
    assert(label_byte(bytes[end - 1]));
    if end < bytes.len() {
        labels_say(bytes, end + 1, label + 1);
        assert forall|i: int|
            from <= i < bytes.len() implies label_byte(#[trigger] bytes[i]) || bytes[i]
            == 0x2e by {
            if i > end {
                assert(end + 1 <= i);
            }
        }
        assert forall|i: int| from < i < bytes.len() && #[trigger] bytes[i] == 0x2e implies {
            &&& i + 1 < bytes.len()
            &&& small(bytes[i + 1])
            &&& small(bytes[i - 1]) || numeral(bytes[i - 1])
        } by {
            if i < end {
                assert(bytes[i] != 0x2e);
            } else if i > end {
                assert(i != end + 1);
            }
        }
    }
}

/// A reverse-DNS key is made of three or more labels that are separated by
/// single dots. Each is of lowercase letters, digits and hyphens, begins with a
/// letter, does not end with a hyphen, and the first has at most 63 bytes.
pub proof fn reverse_dns_keys_are_labels(bytes: Seq<u8>)
    requires
        reverse_dns_check(bytes) is Ok,
    ensures
        labels_from(bytes, 0),
        dot_count(bytes) >= 2,
        label_length(bytes, 0) <= 63,
{
    labels_say(bytes, 0, 0);
}

/// The dots are counted.
pub proof fn dots_are_counted(bytes: Seq<u8>)
    ensures
        dot_count(bytes) == bytes.filter(|b: u8| b == 0x2e).len(),
    decreases bytes.len(),
{
    reveal(Seq::filter);
    if bytes.len() > 0 {
        dots_are_counted(bytes.drop_last());
    }
}

// ---------------------------------------------------------------------------
// Scalars
// ---------------------------------------------------------------------------

proof fn none_disallowed(text: Seq<char>, from: int, rule: ScalarRule)
    requires
        0 <= from,
    ensures
        first_disallowed(text, from, rule) is None <==> forall|i: int|
            from <= i < text.len() ==> !crate::scalars::is_disallowed(rule, #[trigger] text[i]),
    decreases text.len() - from,
{
    if from < text.len() {
        none_disallowed(text, from + 1, rule);
    }
}

/// The scalar may stand in prose: no control but tab, line feed and carriage
/// return, and no noncharacter.
pub open spec fn prose_scalar(c: char) -> bool {
    let n = c as u32;
    &&& n >= 0x20 || n == 0x09 || n == 0x0a || n == 0x0d
    &&& !(0x7f <= n <= 0x9f)
    &&& !(0xfdd0 <= n <= 0xfdef)
    &&& n % 0x10000 < 0xfffe
}

/// Text content is 1 to 262144 bytes of prose.
pub proof fn texts_accepted_exactly(text: Seq<char>)
    ensures
        text_check(text) is Ok <==> {
            &&& 1 <= encode_utf8(text).len() <= 262144
            &&& forall|i: int| 0 <= i < text.len() ==> prose_scalar(#[trigger] text[i])
        },
        text_check(text) == Err::<(), TextContentError>(TextContentError::Empty) <==> encode_utf8(
            text,
        ).len() == 0,
{
    none_disallowed(text, 0, ScalarRule::Prose);
    if text_check(text) is Ok {
        assert forall|i: int| 0 <= i < text.len() implies prose_scalar(#[trigger] text[i]) by {
            assert(!crate::scalars::is_disallowed(ScalarRule::Prose, text[i]));
        }
    }
    if forall|i: int| 0 <= i < text.len() ==> prose_scalar(#[trigger] text[i]) {
        assert forall|i: int| 0 <= i < text.len() implies !crate::scalars::is_disallowed(
            ScalarRule::Prose,
            #[trigger] text[i],
        ) by {
            assert(prose_scalar(text[i]));
        }
    }
}

/// The scalar may stand in one line for people: no control, no line separator,
/// no bidirectional control, and no noncharacter.
pub open spec fn line_scalar(c: char) -> bool {
    let n = c as u32;
    &&& n >= 0x20
    &&& !(0x7f <= n <= 0x9f)
    &&& n != 0x2028 && n != 0x2029
    &&& n != 0x61c && n != 0x200e && n != 0x200f
    &&& !(0x202a <= n <= 0x202e)
    &&& !(0x2066 <= n <= 0x2069)
    &&& !(0xfdd0 <= n <= 0xfdef)
    &&& n % 0x10000 < 0xfffe
}

/// A public message is 1 to 1024 bytes of one line that neither begins nor ends
/// with white space.
pub proof fn public_messages_accepted_exactly(text: Seq<char>)
    ensures
        failure_message_check(text) is Ok <==> {
            &&& 1 <= text.len()
            &&& encode_utf8(text).len() <= 1024
            &&& !crate::scalars::is_white_space(text[0])
            &&& !crate::scalars::is_white_space(text[text.len() - 1])
            &&& forall|i: int| 0 <= i < text.len() ==> line_scalar(#[trigger] text[i])
        },
        failure_message_check(text) is Ok ==> text[0] != ' ' && text[text.len() - 1] != ' ',
        failure_message_check(text) == Err::<(), FailureMessageError>(FailureMessageError::Empty)
            <==> text.len() == 0,
{
    none_disallowed(text, 0, ScalarRule::SingleLine);
    if failure_message_check(text) is Ok {
        assert forall|i: int| 0 <= i < text.len() implies line_scalar(#[trigger] text[i]) by {
            assert(!crate::scalars::is_disallowed(ScalarRule::SingleLine, text[i]));
        }
    }
    if forall|i: int| 0 <= i < text.len() ==> line_scalar(#[trigger] text[i]) {
        assert forall|i: int| 0 <= i < text.len() implies !crate::scalars::is_disallowed(
            ScalarRule::SingleLine,
            #[trigger] text[i],
        ) by {
            assert(line_scalar(text[i]));
        }
    }
}

} // verus!
