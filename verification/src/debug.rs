//! Debug output: the texts that are shown of values, and how they reach a
//! formatter.
//!
//! A text comes in two forms, on one line or with each entry on a line of its
//! own. Content that must not be shown stands in neither.

use vstd::prelude::*;

use crate::decimal::{decimal_string, decimal_text};
use crate::text::texts;

verus! {

/// `core::fmt::Formatter`, carried through as it is.
#[verifier::external_type_specification]
#[verifier::external_body]
pub struct ExFormatter<'a>(core::fmt::Formatter<'a>);

/// `core::fmt::Error`, carried through as it is.
#[verifier::external_type_specification]
#[verifier::external_body]
pub struct ExFormatError(core::fmt::Error);

/// Calls `core::fmt::Formatter::write_str`. Nothing is claimed of what the
/// formatter does with the text.
#[verifier::external_body]
pub(crate) fn write_text(
    formatter: &mut core::fmt::Formatter<'_>,
    text: &str,
) -> core::fmt::Result {
    formatter.write_str(text)
}

/// Calls `core::fmt::Formatter::alternate`, which tells whether the form on
/// several lines is asked for. Nothing is claimed of the answer.
#[verifier::external_body]
pub(crate) fn is_alternate(formatter: &core::fmt::Formatter<'_>) -> bool {
    formatter.alternate()
}

// ---------------------------------------------------------------------------
// Texts
// ---------------------------------------------------------------------------

/// The text with four spaces behind each line end.
pub open spec fn indented(text: Seq<char>) -> Seq<char>
    decreases text.len(),
{
    if text.len() == 0 {
        Seq::empty()
    } else if text.last() == '\n' {
        indented(text.drop_last()) + "\n    "@
    } else {
        indented(text.drop_last()).push(text.last())
    }
}

/// The first `n` entries: separated by commas, or each on a line of its own.
pub open spec fn entries_text(entries: Seq<Seq<char>>, n: nat, alternate: bool) -> Seq<char>
    decreases n,
{
    if n == 0 || n > entries.len() {
        Seq::empty()
    } else if alternate {
        entries_text(entries, (n - 1) as nat, alternate) + "    "@ + indented(entries[n - 1])
            + ",\n"@
    } else if n == 1 {
        entries[0]
    } else {
        entries_text(entries, (n - 1) as nat, alternate) + ", "@ + entries[n - 1]
    }
}

/// Entries between what opens and what closes them.
pub open spec fn block_text(
    opening: Seq<char>,
    entries: Seq<Seq<char>>,
    closing: Seq<char>,
    alternate: bool,
) -> Seq<char> {
    opening + entries_text(entries, entries.len(), alternate) + closing
}

/// A name and its fields. Where there is a rest, other fields are not shown.
#[verifier::opaque]
pub open spec fn struct_text(
    name: Seq<char>,
    fields: Seq<Seq<char>>,
    rest: bool,
    alternate: bool,
) -> Seq<char> {
    if alternate {
        block_text(
            name + " {\n"@,
            fields,
            if rest {
                "    ..\n}"@
            } else {
                "}"@
            },
            alternate,
        )
    } else {
        block_text(
            name + " { "@,
            fields,
            if rest {
                ", .. }"@
            } else {
                " }"@
            },
            alternate,
        )
    }
}

/// A name and its only value.
#[verifier::opaque]
pub open spec fn tuple_text(name: Seq<char>, value: Seq<char>, alternate: bool) -> Seq<char> {
    block_text(
        if alternate {
            name + "(\n"@
        } else {
            name + "("@
        },
        seq![value],
        ")"@,
        alternate,
    )
}

/// The items of a list.
#[verifier::opaque]
pub open spec fn list_text(items: Seq<Seq<char>>, alternate: bool) -> Seq<char> {
    block_text(
        if alternate && items.len() > 0 {
            "[\n"@
        } else {
            "["@
        },
        items,
        "]"@,
        alternate,
    )
}

/// The entries of a set or a map.
#[verifier::opaque]
pub open spec fn map_text(entries: Seq<Seq<char>>, alternate: bool) -> Seq<char> {
    block_text(
        if alternate && entries.len() > 0 {
            "{\n"@
        } else {
            "{"@
        },
        entries,
        "}"@,
        alternate,
    )
}

/// A field, or a key, and its value.
pub open spec fn entry_text(name: Seq<char>, value: Seq<char>) -> Seq<char> {
    name + ": "@ + value
}

/// A text that needs no escapes, in quotes.
pub open spec fn quoted_text(text: Seq<char>) -> Seq<char> {
    "\""@ + text + "\""@
}

/// A text under the name of its type.
pub open spec fn name_text(name: Seq<char>, text: Seq<char>, alternate: bool) -> Seq<char> {
    tuple_text(name, quoted_text(text), alternate)
}

/// `true` or `false`.
pub open spec fn bool_text(value: bool) -> Seq<char> {
    if value {
        "true"@
    } else {
        "false"@
    }
}

/// The text of a value, where there is one.
pub open spec fn option_text(value: Option<Seq<char>>, alternate: bool) -> Seq<char> {
    match value {
        Some(text) => tuple_text("Some"@, text, alternate),
        None => "None"@,
    }
}

/// A text under the name of its type, where there is one.
pub open spec fn option_name_text(
    name: Seq<char>,
    text: Option<Seq<char>>,
    alternate: bool,
) -> Seq<char> {
    match text {
        Some(text) => tuple_text("Some"@, name_text(name, text, alternate), alternate),
        None => "None"@,
    }
}

// ---------------------------------------------------------------------------
// Writing them
// ---------------------------------------------------------------------------

fn push_indented(out: &mut String, text: &str)
    ensures
        final(out)@ == old(out)@ + indented(text@),
{
    let ghost before = out@;
    assert(out@ =~= before + indented(text@.take(0)));
    for c in chars: text.chars()
        invariant
            chars.seq() == text@,
            out@ == before + indented(text@.take(chars.index() as int)),
    {
        let ghost i = chars.index() as int;
        let ghost done = out@;
        assert(c == text@[i]);
        assert(text@.take(i + 1).drop_last() =~= text@.take(i));
        out.push(c);
        if c == '\n' {
            out.append("    ");
            proof {
                reveal_strlit("\n    ");
                reveal_strlit("    ");
                assert(done.push(c) + "    "@ =~= done + "\n    "@);
            }
        }
        assert(out@ =~= before + indented(text@.take(i + 1)));
    }
    assert(text@.take(text@.len() as int) =~= text@);
}

fn block_string(
    opening: String,
    entries: &Vec<String>,
    closing: &str,
    alternate: bool,
) -> (r: String)
    ensures
        r@ == block_text(opening@, texts(entries@), closing@, alternate),
{
    let ghost all = texts(entries@);
    let mut out: String = opening;
    let mut i: usize = 0;
    assert(out@ =~= opening@ + entries_text(all, 0, alternate));
    while i < entries.len()
        invariant
            i <= entries@.len(),
            all == texts(entries@),
            out@ == opening@ + entries_text(all, i as nat, alternate),
        decreases entries@.len() - i,
    {
        let ghost before = entries_text(all, i as nat, alternate);
        let ghost entry = all[i as int];
        assert(entries@[i as int]@ == entry);
        if alternate {
            out.append("    ");
            push_indented(&mut out, entries[i].as_str());
            out.append(",\n");
            assert(out@ =~= opening@ + (before + "    "@ + indented(entry) + ",\n"@));
        } else {
            if i > 0 {
                out.append(", ");
                out.append(entries[i].as_str());
                assert(out@ =~= opening@ + (before + ", "@ + entry));
            } else {
                out.append(entries[i].as_str());
                assert(out@ =~= opening@ + entry);
            }
        }
        i = i + 1;
    }
    out.append(closing);
    out
}

fn joined(first: &str, second: &str) -> (r: String)
    ensures
        r@ == first@ + second@,
{
    let mut out: String = first.to_owned();
    out.append(second);
    out
}

/// Shows a name and its fields.
pub(crate) fn struct_string(name: &str, fields: &Vec<String>, rest: bool, alternate: bool) -> (r:
    String)
    ensures
        r@ == struct_text(name@, texts(fields@), rest, alternate),
{
    reveal(struct_text);

    if alternate {
        block_string(
            joined(name, " {\n"),
            fields,
            if rest {
                "    ..\n}"
            } else {
                "}"
            },
            alternate,
        )
    } else {
        block_string(
            joined(name, " { "),
            fields,
            if rest {
                ", .. }"
            } else {
                " }"
            },
            alternate,
        )
    }
}

/// Shows a name and its only value.
pub(crate) fn tuple_string(name: &str, value: String, alternate: bool) -> (r: String)
    ensures
        r@ == tuple_text(name@, value@, alternate),
{
    reveal(tuple_text);

    let ghost text = value@;
    let values = vec![value];
    assert(texts(values@) =~= seq![text]);
    block_string(
        joined(
            name,
            if alternate {
                "(\n"
            } else {
                "("
            },
        ),
        &values,
        ")",
        alternate,
    )
}

/// Shows the items of a list.
pub(crate) fn list_string(items: &Vec<String>, alternate: bool) -> (r: String)
    ensures
        r@ == list_text(texts(items@), alternate),
{
    reveal(list_text);

    let opening = if alternate && items.len() > 0 {
        "[\n"
    } else {
        "["
    };
    block_string(opening.to_owned(), items, "]", alternate)
}

/// Shows the entries of a set or a map.
pub(crate) fn map_string(entries: &Vec<String>, alternate: bool) -> (r: String)
    ensures
        r@ == map_text(texts(entries@), alternate),
{
    reveal(map_text);

    let opening = if alternate && entries.len() > 0 {
        "{\n"
    } else {
        "{"
    };
    block_string(opening.to_owned(), entries, "}", alternate)
}

/// Shows a field, or a key, and its value.
pub(crate) fn entry_string(name: &str, value: String) -> (r: String)
    ensures
        r@ == entry_text(name@, value@),
{
    let mut out: String = name.to_owned();
    out.append(": ");
    out.append(value.as_str());
    out
}

/// Shows a text under the name of its type.
pub(crate) fn name_string(name: &str, text: &str, alternate: bool) -> (r: String)
    ensures
        r@ == name_text(name@, text@, alternate),
{
    tuple_string(name, quoted_string(text), alternate)
}

/// Shows a text that needs no escapes.
pub(crate) fn quoted_string(text: &str) -> (r: String)
    ensures
        r@ == quoted_text(text@),
{
    let mut out: String = "\"".to_owned();
    out.append(text);
    out.append("\"");
    out
}

/// Shows a number.
pub(crate) fn number_string(value: usize) -> (r: String)
    ensures
        r@ == decimal_text(value as nat),
{
    decimal_string(value as u64)
}

/// Shows `true` or `false`.
pub(crate) fn bool_string(value: bool) -> (r: String)
    ensures
        r@ == bool_text(value),
{
    if value {
        "true".to_owned()
    } else {
        "false".to_owned()
    }
}

/// Shows a value, where there is one.
pub(crate) fn option_string(value: Option<String>, alternate: bool) -> (r: String)
    ensures
        r@ == option_text(
            match value {
                Some(text) => Some(text@),
                None => None,
            },
            alternate,
        ),
{
    match value {
        Some(text) => tuple_string("Some", text, alternate),
        None => "None".to_owned(),
    }
}

} // verus!
