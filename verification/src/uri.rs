//! What the library reads from a URI.

use vstd::prelude::*;

verus! {

/// The authority of a URI, as far as it is read.
#[derive(Debug, PartialEq, Eq)]
pub struct AuthorityParts {
    /// The host, empty where the authority names none.
    pub host: String,
    /// Whether user information is present.
    pub has_userinfo: bool,
    /// The port, empty where `:` is followed by nothing.
    pub port: Option<String>,
}

/// A URI, as far as it is read.
#[derive(Debug, PartialEq, Eq)]
pub struct UriParts {
    /// The scheme, as it is spelled.
    pub scheme: String,
    /// The authority.
    pub authority: Option<AuthorityParts>,
    /// Whether a query is present, an empty one too.
    pub has_query: bool,
    /// Whether a fragment is present, an empty one too.
    pub has_fragment: bool,
}

/// The values of [`AuthorityParts`].
pub ghost struct AuthorityModel {
    pub host: Seq<char>,
    pub has_userinfo: bool,
    pub port: Option<Seq<char>>,
}

/// The values of [`UriParts`].
pub ghost struct UriModel {
    pub scheme: Seq<char>,
    pub authority: Option<AuthorityModel>,
    pub has_query: bool,
    pub has_fragment: bool,
}

impl View for AuthorityParts {
    type V = AuthorityModel;

    open spec fn view(&self) -> AuthorityModel {
        AuthorityModel {
            host: self.host@,
            has_userinfo: self.has_userinfo,
            port: match self.port {
                Some(port) => Some(port@),
                None => None,
            },
        }
    }
}

impl View for UriParts {
    type V = UriModel;

    open spec fn view(&self) -> UriModel {
        UriModel {
            scheme: self.scheme@,
            authority: match self.authority {
                Some(authority) => Some(authority@),
                None => None,
            },
            has_query: self.has_query,
            has_fragment: self.has_fragment,
        }
    }
}

/// The values of optional parts.
pub open spec fn parts_view(parts: Option<UriParts>) -> Option<UriModel> {
    match parts {
        Some(parts) => Some(parts@),
        None => None,
    }
}

/// What `fluent_uri::Uri::parse` reads from the text.
pub uninterp spec fn uri_parsed(text: Seq<char>) -> Option<UriModel>;

/// What `fluent_uri::Uri::normalize` makes of the text, where it is a URI.
pub uninterp spec fn uri_normalized(text: Seq<char>) -> Option<Seq<char>>;

/// The text holds only what RFC 3986 lets a URI hold of the characters that a
/// JSON string would have to escape: none.
pub open spec fn plain_uri(text: Seq<char>) -> bool {
    &&& vstd::utf8::is_ascii_chars(text)
    &&& forall|i: int|
        0 <= i < text.len() ==> 33 <= (#[trigger] text[i]) as u32 <= 126 && text[i] != '"'
            && text[i] != '\\'
}

/// Calls `fluent_uri::Uri::parse` and takes the components apart. The result
/// is the named function of the text. A text that parses is made of the
/// characters of RFC 3986, so it is ASCII without spaces, control characters,
/// double quotes and backslashes.
#[verifier::external_body]
pub(crate) fn parse_uri(text: &str) -> (r: Option<UriParts>)
    ensures
        parts_view(r) == uri_parsed(text@),
        r is Some ==> plain_uri(text@),
{
    let uri = fluent_uri::Uri::parse(text).ok()?;
    let authority = uri.authority().map(
        |authority| AuthorityParts {
            host: authority.host().to_owned(),
            has_userinfo: authority.has_userinfo(),
            port: authority.port().map(|port| port.as_str().to_owned()),
        },
    );
    let scheme = uri.scheme().as_str().to_owned();
    Some(UriParts { scheme, authority, has_query: uri.has_query(), has_fragment: uri.has_fragment() })
}

/// Calls `fluent_uri::Uri::parse` and `normalize`. The result is the named
/// function of the text.
#[verifier::external_body]
pub(crate) fn normalize_uri(text: &str) -> (r: Option<String>)
    ensures
        match (r, uri_normalized(text@)) {
            (Some(normal), Some(expected)) => normal@ == expected,
            (None, None) => true,
            _ => false,
        },
{
    fluent_uri::Uri::parse(text).ok().map(|uri| uri.normalize().into_string())
}

} // verus!
