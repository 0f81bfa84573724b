//! What debug output gives away, and what it does not.

use vstd::prelude::*;
use vstd::utf8::encode_utf8;

use crate::content::{json_content_shown, text_content_shown, JsonContentModel, TextModel};
use crate::extension::{extension_value_shown, ExtensionValueModel};
use crate::failure::{
    details_shown, failure_message_shown, failure_shown, DetailsModel, FailureModel,
};
use crate::identity::{principal_shown, subject_shown, PrincipalModel};
use crate::ids::submission_key_shown;
use crate::journal::{
    append_shown, event_shown, intent_shown, payload_shown, AppendModel, EventModel, IntentModel,
    PayloadModel,
};
use crate::json_laws::measure;
use crate::message::{
    instruction_metadata, instruction_shown, message_shown, parts_bytes, InstructionModel,
    MessageModel,
};

verus! {

/// Of a submission key, of a subject and of a public message nothing is shown
/// but the length.
pub proof fn texts_show_their_length(a: Seq<char>, b: Seq<char>, alternate: bool)
    requires
        encode_utf8(a).len() == encode_utf8(b).len(),
    ensures
        submission_key_shown(encode_utf8(a).len(), alternate) == submission_key_shown(
            encode_utf8(b).len(),
            alternate,
        ),
        subject_shown(encode_utf8(a).len(), alternate) == subject_shown(
            encode_utf8(b).len(),
            alternate,
        ),
        failure_message_shown(encode_utf8(a).len(), alternate) == failure_message_shown(
            encode_utf8(b).len(),
            alternate,
        ),
{
}

/// Of a principal nothing is shown but the issuer and the length of the
/// subject.
pub proof fn principals_hide_the_subject(a: PrincipalModel, b: PrincipalModel, alternate: bool)
    requires
        a.issuer == b.issuer,
        encode_utf8(a.subject).len() == encode_utf8(b.subject).len(),
    ensures
        principal_shown(a, alternate) == principal_shown(b, alternate),
{
}

/// Of text nothing is shown but the length, the language and the metadata.
pub proof fn text_is_hidden(a: TextModel, b: TextModel, alternate: bool)
    requires
        encode_utf8(a.text).len() == encode_utf8(b.text).len(),
        a.language == b.language,
        a.metadata == b.metadata,
    ensures
        text_content_shown(a, alternate) == text_content_shown(b, alternate),
{
}

/// Of JSON content nothing is shown but what was counted, the schema and the
/// metadata.
pub proof fn json_content_is_hidden(a: JsonContentModel, b: JsonContentModel, alternate: bool)
    requires
        measure(a.value) == measure(b.value),
        a.schema == b.schema,
        a.metadata == b.metadata,
    ensures
        json_content_shown(a, alternate) == json_content_shown(b, alternate),
{
}

/// Of an extension value nothing is shown but the schema and what was counted.
pub proof fn extension_values_are_hidden(
    a: ExtensionValueModel,
    b: ExtensionValueModel,
    alternate: bool,
)
    requires
        a.schema == b.schema,
        measure(a.value) == measure(b.value),
    ensures
        extension_value_shown(a, alternate) == extension_value_shown(b, alternate),
{
}

/// Of failure details nothing is shown but the schema and what was counted.
pub proof fn details_are_hidden(a: DetailsModel, b: DetailsModel, alternate: bool)
    requires
        a.schema == b.schema,
        measure(a.value) == measure(b.value),
    ensures
        details_shown(a, alternate) == details_shown(b, alternate),
{
}

/// Of a failure neither the message nor the details are shown.
pub proof fn failures_hide_message_and_details(
    a: FailureModel,
    b: FailureModel,
    has_private_source: bool,
    alternate: bool,
)
    requires
        encode_utf8(a.message).len() == encode_utf8(b.message).len(),
        a.details is Some == b.details is Some,
        a == (FailureModel { message: a.message, details: a.details, ..b }),
    ensures
        failure_shown(a, has_private_source, alternate) == failure_shown(
            b,
            has_private_source,
            alternate,
        ),
{
}

/// Of a payload nothing is shown but the schema, the kind, what was counted of
/// the data, and the digest.
pub proof fn payloads_hide_their_data(a: PayloadModel, b: PayloadModel, alternate: bool)
    requires
        measure(a.data) == measure(b.data),
        a == (PayloadModel { data: a.data, ..b }),
    ensures
        payload_shown(a, alternate) == payload_shown(b, alternate),
{
}

/// Events, intents and appends show of their data what payloads show.
pub proof fn journals_hide_their_data(
    event: EventModel,
    intent: IntentModel,
    append: AppendModel,
    payload: PayloadModel,
    alternate: bool,
)
    ensures
        payload_shown(payload, alternate) == payload_shown(event.payload, alternate)
            ==> event_shown(EventModel { payload, ..event }, alternate) == event_shown(
            event,
            alternate,
        ),
        payload_shown(payload, alternate) == payload_shown(intent.payload, alternate)
            ==> intent_shown(IntentModel { payload, ..intent }, alternate) == intent_shown(
            intent,
            alternate,
        ),
        intent_shown(intent, alternate) == intent_shown(append.intent, alternate)
            ==> append_shown(AppendModel { intent, ..append }, alternate) == append_shown(
            append,
            alternate,
        ),
{
}

/// Of an instruction everything is shown but its content, of which only the
/// digest and the metadata are.
pub proof fn instructions_hide_their_content(
    a: InstructionModel,
    b: InstructionModel,
    alternate: bool,
)
    requires
        a == (InstructionModel { content: a.content, ..b }),
        instruction_metadata(a.content) == instruction_metadata(b.content),
    ensures
        instruction_shown(a, alternate) == instruction_shown(b, alternate),
{
}

/// Of a message everything is shown but its parts, of which only the number
/// and the bytes are.
pub proof fn messages_hide_their_parts(a: MessageModel, b: MessageModel, alternate: bool)
    requires
        a == (MessageModel { parts: a.parts, ..b }),
        a.parts.len() == b.parts.len(),
        parts_bytes(a.parts) == parts_bytes(b.parts),
    ensures
        message_shown(a, alternate) == message_shown(b, alternate),
{
}

} // verus!
