//! Language tags.

use vstd::prelude::*;
use vstd::utf8::encode_utf8;

use crate::debug::{is_alternate, name_string, name_text, write_text};
use crate::text::{same_text, texts, utf8_len};

verus! {

/// A language tag, as far as it is read.
#[derive(Debug, PartialEq, Eq)]
pub struct LanguageParts {
    /// The tag, spelled in its usual case.
    pub text: String,
    /// The variant subtags.
    pub variants: Vec<String>,
    /// The singletons that introduce extensions.
    pub singletons: Vec<char>,
}

/// The values of [`LanguageParts`].
pub ghost struct LanguageModel {
    pub text: Seq<char>,
    pub variants: Seq<Seq<char>>,
    pub singletons: Seq<char>,
}

impl View for LanguageParts {
    type V = LanguageModel;

    open spec fn view(&self) -> LanguageModel {
        LanguageModel {
            text: self.text@,
            variants: texts(self.variants@),
            singletons: self.singletons@,
        }
    }
}

/// The values of optional parts.
pub open spec fn language_view(parts: Option<LanguageParts>) -> Option<LanguageModel> {
    match parts {
        Some(parts) => Some(parts@),
        None => None,
    }
}

/// What `language_tags::LanguageTag::parse` reads from the text.
pub uninterp spec fn language_parsed(text: Seq<char>) -> Option<LanguageModel>;

/// The lowercase form of an ASCII letter, and any other character itself.
pub open spec fn lower_char(c: char) -> char {
    if 65 <= (c as u32) <= 90 {
        (((c as u32) + 32) as u8) as char
    } else {
        c
    }
}

/// The text with its ASCII letters in lowercase.
pub open spec fn lower_text(text: Seq<char>) -> Seq<char> {
    Seq::new(text.len(), |i: int| lower_char(text[i]))
}

/// The variants and the singletons are in lowercase.
pub open spec fn parts_lowered(tag: LanguageModel) -> bool {
    &&& forall|i: int|
        0 <= i < tag.variants.len() ==> lower_text(#[trigger] tag.variants[i]) == tag.variants[i]
    &&& forall|i: int|
        0 <= i < tag.singletons.len() ==> lower_char(#[trigger] tag.singletons[i])
            == tag.singletons[i]
}

/// Calls `language_tags::LanguageTag::parse` and takes the tag apart with
/// `variant_subtags`, `extension_subtags` and `into_string`. The result is the
/// named function of the text, and that of the text in lowercase: the parser
/// compares without case and writes each subtag in a case of its own. So the
/// tag that is read differs from the text in the case of its letters only,
/// and its variants and singletons are in lowercase.
#[verifier::external_body]
fn parse_language(text: &str) -> (r: Option<LanguageParts>)
    ensures
        language_view(r) == language_parsed(text@),
        language_view(r) == language_parsed(lower_text(text@)),
        r matches Some(parts) ==> lower_text(parts.text@) == lower_text(text@) && parts_lowered(
            parts@,
        ),
{
    let tag = language_tags::LanguageTag::parse(text).ok()?;
    let variants = tag.variant_subtags().map(|variant| variant.to_owned()).collect();
    let singletons = tag.extension_subtags().map(|extension| extension.0).collect();
    Some(LanguageParts { text: tag.into_string(), variants, singletons })
}

/// Rejected language tag.
#[derive(Clone, Copy, Debug, PartialEq, Eq, Structural)]
pub enum LanguageTagError {
    /// The tag has no bytes.
    Empty,
    /// The tag is longer than the maximum.
    TooLong { max: usize, actual: usize },
    /// The tag is not well-formed.
    InvalidSyntax,
    /// A variant occurs twice.
    DuplicateVariant,
    /// An extension occurs twice.
    DuplicateExtension,
}

/// What the rules say of a tag that was read as `parsed`: its canonical text,
/// or what it fails on.
pub open spec fn language_check(text: Seq<char>, parsed: Option<LanguageModel>) -> Result<
    Seq<char>,
    LanguageTagError,
> {
    let length = encode_utf8(text).len();
    if length == 0 {
        Err(LanguageTagError::Empty)
    } else if length > 255 {
        Err(LanguageTagError::TooLong { max: 255, actual: length as usize })
    } else {
        match parsed {
            None => Err(LanguageTagError::InvalidSyntax),
            Some(tag) => if !tag.variants.no_duplicates() {
                Err(LanguageTagError::DuplicateVariant)
            } else if !tag.singletons.no_duplicates() {
                Err(LanguageTagError::DuplicateExtension)
            } else {
                Ok(lower_text(tag.text))
            },
        }
    }
}

/// What is read from a text: the canonical text of the tag, or what it fails
/// on. How the text is cased changes nothing of it.
pub open spec fn language_outcome(text: Seq<char>) -> Result<Seq<char>, LanguageTagError> {
    language_check(text, language_parsed(lower_text(text)))
}

/// No variant and no singleton occurs twice in the text, compared without
/// case.
pub open spec fn subtags_distinct(text: Seq<char>) -> bool {
    &&& language_parsed(lower_text(text)) matches Some(tag)
    &&& parts_lowered(tag)
    &&& tag.variants.no_duplicates()
    &&& tag.singletons.no_duplicates()
}

proof fn lowered_length(text: Seq<char>)
    ensures
        encode_utf8(lower_text(text)).len() == encode_utf8(text).len(),
    decreases text.len(),
{
    if text.len() > 0 {
        lowered_length(text.drop_first());
        assert(lower_text(text).drop_first() =~= lower_text(text.drop_first()));
    }
}

proof fn lowered_twice(text: Seq<char>)
    ensures
        lower_text(lower_text(text)) == lower_text(text),
{
    assert(lower_text(lower_text(text)) =~= lower_text(text));
}

/// Texts that differ in the case of their letters only give one tag, or fail
/// on the same.
pub proof fn case_variants_give_one_tag(a: Seq<char>, b: Seq<char>)
    requires
        lower_text(a) == lower_text(b),
    ensures
        language_outcome(a) == language_outcome(b),
{
    lowered_length(a);
    lowered_length(b);
}

/// The lowercase of a text gives the tag that the text gives.
pub proof fn lowercase_gives_the_same_tag(text: Seq<char>)
    ensures
        language_outcome(lower_text(text)) == language_outcome(text),
{
    lowered_twice(text);
    case_variants_give_one_tag(text, lower_text(text));
}

fn lowercase(text: &str) -> (r: String)
    ensures
        r@ == lower_text(text@),
{
    let mut out: String = String::new();
    assert(lower_text(text@).take(0) =~= Seq::<char>::empty());
    for c in chars: text.chars()
        invariant
            chars.seq() == text@,
            out@ == lower_text(text@).take(chars.index() as int),
    {
        let ghost i = chars.index() as int;
        assert(c == text@[i]);
        let n: u32 = c as u32;
        let low: char = if 65 <= n && n <= 90 {
            let b: u8 = n as u8;
            (b + 32) as char
        } else {
            c
        };
        assert(low == lower_char(c));
        let ghost before = out@;
        out.push(low);
        assert(out@ =~= before.push(lower_char(c)));
        assert(lower_text(text@).take(i + 1) =~= lower_text(text@).take(i).push(
            lower_text(text@)[i],
        ));
    }
    assert(lower_text(text@).take(text@.len() as int) =~= lower_text(text@));
    out
}

fn repeats_text(strings: &[String]) -> (r: bool)
    ensures
        r == !texts(strings@).no_duplicates(),
{
    let ghost all = texts(strings@);
    let mut i: usize = 0;
    while i < strings.len()
        invariant
            i <= strings@.len(),
            all == texts(strings@),
            forall|a: int, b: int| 0 <= a < b < i ==> all[a] != all[b],
        decreases strings@.len() - i,
    {
        let mut j: usize = 0;
        while j < i
            invariant
                j <= i < strings@.len(),
                all == texts(strings@),
                forall|a: int| 0 <= a < j ==> all[a] != all[i as int],
            decreases i - j,
        {
            if same_text(strings[j].as_str(), strings[i].as_str()) {
                assert(all[j as int] == all[i as int]);
                return true;
            }
            j = j + 1;
        }
        i = i + 1;
    }
    false
}

fn repeats_char(chars: &[char]) -> (r: bool)
    ensures
        r == !chars@.no_duplicates(),
{
    let mut i: usize = 0;
    while i < chars.len()
        invariant
            i <= chars@.len(),
            forall|a: int, b: int| 0 <= a < b < i ==> chars@[a] != chars@[b],
        decreases chars@.len() - i,
    {
        let mut j: usize = 0;
        while j < i
            invariant
                j <= i < chars@.len(),
                forall|a: int| 0 <= a < j ==> chars@[a] != chars@[i as int],
            decreases i - j,
        {
            if chars[j] == chars[i] {
                return true;
            }
            j = j + 1;
        }
        i = i + 1;
    }
    false
}

/// Checks a tag that was read as `parsed`, and returns its canonical text.
pub fn check_language(value: &str, parsed: &Option<LanguageParts>) -> (r: Result<
    String,
    LanguageTagError,
>)
    ensures
        match (r, language_check(value@, language_view(*parsed))) {
            (Ok(text), Ok(expected)) => text@ == expected,
            (Err(e), Err(expected)) => e == expected,
            _ => false,
        },
{
    let length: usize = utf8_len(value);
    if length == 0 {
        return Err(LanguageTagError::Empty);
    }
    if length > 255 {
        return Err(LanguageTagError::TooLong { max: 255, actual: length });
    }
    let tag = match parsed {
        None => {
            return Err(LanguageTagError::InvalidSyntax);
        },
        Some(tag) => tag,
    };
    if repeats_text(tag.variants.as_slice()) {
        return Err(LanguageTagError::DuplicateVariant);
    }
    if repeats_char(tag.singletons.as_slice()) {
        return Err(LanguageTagError::DuplicateExtension);
    }
    Ok(lowercase(tag.text.as_str()))
}

/// A well-formed language tag in lowercase.
#[derive(Eq, PartialOrd, Ord, Hash)]
pub struct LanguageTag {
    text: String,
}

impl View for LanguageTag {
    type V = Seq<char>;

    /// The text.
    closed spec fn view(&self) -> Seq<char> {
        self.text@
    }
}

impl LanguageTag {
    /// Maximum length in bytes of what is read.
    pub const MAX_LEN: usize = 255;

    /// The text is in lowercase and reads as itself.
    #[verifier::type_invariant]
    pub open spec fn well_formed(&self) -> bool {
        &&& lower_text(self@) == self@
        &&& language_outcome(self@) == Ok::<Seq<char>, LanguageTagError>(self@)
        &&& 0 < encode_utf8(self@).len() <= 255
    }

    /// Reads a tag in any case. Its canonical text is the lowercase of what is
    /// read.
    pub fn new(value: &str) -> (r: Result<LanguageTag, LanguageTagError>)
        ensures
            match (r, language_outcome(value@)) {
                (Ok(tag), Ok(expected)) => tag@ == expected && tag@ == lower_text(value@)
                    && subtags_distinct(value@),
                (Err(e), Err(expected)) => e == expected,
                _ => false,
            },
    {
        let length: usize = utf8_len(value);
        if length == 0 {
            return Err(LanguageTagError::Empty);
        }
        if length > 255 {
            return Err(LanguageTagError::TooLong { max: 255, actual: length });
        }
        let parsed = parse_language(value);
        let text = check_language(value, &parsed)?;
        proof {
            lowercase_gives_the_same_tag(value@);
            lowered_twice(value@);
            lowered_length(value@);
        }
        Ok(LanguageTag { text })
    }

    /// Returns the exact text.
    pub fn as_str(&self) -> (r: &str)
        ensures
            r@ == self@,
            self.well_formed(),
    {
        proof {
            use_type_invariant(self);
        }
        self.text.as_str()
    }

    /// Copies the exact text.
    pub fn to_string(&self) -> (r: String)
        ensures
            r@ == self@,
    {
        self.text.clone()
    }
}

impl Clone for LanguageTag {
    fn clone(&self) -> (r: Self)
        ensures
            r@ == self@,
    {
        proof {
            use_type_invariant(self);
        }
        LanguageTag { text: self.text.clone() }
    }
}

impl PartialEq for LanguageTag {
    fn eq(&self, other: &Self) -> (r: bool) {
        same_text(self.text.as_str(), other.text.as_str())
    }
}

impl vstd::std_specs::cmp::PartialEqSpecImpl for LanguageTag {
    open spec fn obeys_eq_spec() -> bool {
        true
    }

    open spec fn eq_spec(&self, other: &Self) -> bool {
        self@ == other@
    }
}

impl core::str::FromStr for LanguageTag {
    type Err = LanguageTagError;

    fn from_str(value: &str) -> (r: Result<Self, Self::Err>)
        ensures
            match (r, language_outcome(value@)) {
                (Ok(tag), Ok(expected)) => tag@ == expected && tag@ == lower_text(value@)
                    && subtags_distinct(value@),
                (Err(e), Err(expected)) => e == expected,
                _ => false,
            },
    {
        LanguageTag::new(value)
    }
}

impl AsRef<str> for LanguageTag {
    fn as_ref(&self) -> (r: &str)
        ensures
            r@ == self@,
    {
        self.as_str()
    }
}

impl core::borrow::Borrow<str> for LanguageTag {
    fn borrow(&self) -> (r: &str)
        ensures
            str::view(r) == self@,
    {
        self.as_str()
    }
}

impl TryFrom<String> for LanguageTag {
    type Error = LanguageTagError;

    fn try_from(value: String) -> (r: Result<Self, Self::Error>)
        ensures
            match (r, language_outcome(value@)) {
                (Ok(tag), Ok(expected)) => tag@ == expected && tag@ == lower_text(value@)
                    && subtags_distinct(value@),
                (Err(e), Err(expected)) => e == expected,
                _ => false,
            },
    {
        LanguageTag::new(value.as_str())
    }
}

// What comes out is stated on `try_from` itself, over views.
impl vstd::std_specs::convert::TryFromSpecImpl<String> for LanguageTag {
    open spec fn obeys_try_from_spec() -> bool {
        false
    }

    open spec fn try_from_spec(value: String) -> Result<Self, LanguageTagError> {
        arbitrary()
    }
}

impl<'a> TryFrom<&'a str> for LanguageTag {
    type Error = LanguageTagError;

    fn try_from(value: &'a str) -> (r: Result<Self, Self::Error>)
        ensures
            match (r, language_outcome(value@)) {
                (Ok(tag), Ok(expected)) => tag@ == expected && tag@ == lower_text(value@)
                    && subtags_distinct(value@),
                (Err(e), Err(expected)) => e == expected,
                _ => false,
            },
    {
        LanguageTag::new(value)
    }
}

// What comes out is stated on `try_from` itself, over views.
impl<'a> vstd::std_specs::convert::TryFromSpecImpl<&'a str> for LanguageTag {
    open spec fn obeys_try_from_spec() -> bool {
        false
    }

    open spec fn try_from_spec(value: &'a str) -> Result<Self, LanguageTagError> {
        arbitrary()
    }
}

impl From<LanguageTag> for String {
    fn from(value: LanguageTag) -> (r: Self)
        ensures
            r@ == value@,
    {
        value.text
    }
}

impl vstd::std_specs::convert::FromSpecImpl<LanguageTag> for String {
    open spec fn obeys_from_spec() -> bool {
        true
    }

    closed spec fn from_spec(value: LanguageTag) -> String {
        value.text
    }
}

// ---------------------------------------------------------------------------
// Debug output
// ---------------------------------------------------------------------------

impl LanguageTag {
    /// Returns what is shown of it for debugging.
    pub fn debug_text(&self, alternate: bool) -> (r: String)
        ensures
            r@ == name_text("LanguageTag"@, self@, alternate),
    {
        name_string("LanguageTag", self.text.as_str(), alternate)
    }
}

impl core::fmt::Debug for LanguageTag {
    fn fmt(&self, formatter: &mut core::fmt::Formatter<'_>) -> core::fmt::Result {
        let alternate: bool = is_alternate(formatter);
        write_text(formatter, self.debug_text(alternate).as_str())
    }
}

} // verus!
