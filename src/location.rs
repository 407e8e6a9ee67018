//! Parsed absolute URLs, as far as resource resolution reads them.

use vstd::prelude::*;

use crate::error::{Error, ErrorKind};

verus! {

/// What `url::Url::parse` makes of a string: the URL's serialization and its
/// scheme, or nothing where the string is no absolute URL.
pub uninterp spec fn url_parse(input: Seq<char>) -> Option<(Seq<char>, Seq<char>)>;

#[verifier::external_type_specification]
#[verifier::external_body]
pub struct ExParseError(url::ParseError);

/// Relies on `url::Url::parse`, and on `Url::as_str` and `Url::scheme` of the
/// parsed value: the serialization and the scheme, read off the same parse.
#[verifier::external_body]
fn parse_url(input: &str) -> (r: Result<(String, String), url::ParseError>)
    ensures
        r is Ok <==> url_parse(input@) is Some,
        r matches Ok(p) ==> url_parse(input@) == Some((p.0@, p.1@)),
{
    url::Url::parse(input).map(|u| (u.as_str().to_string(), u.scheme().to_string()))
}

/// A parsed, absolute URL: its serialization and its scheme.
#[derive(Clone, Debug)]
pub struct ResourceUrl {
    text: String,
    scheme: String,
}

impl ResourceUrl {
    /// The URL as text.
    pub closed spec fn text_view(&self) -> Seq<char> {
        self.text@
    }

    /// The scheme of the URL, such as `file` or `data`.
    pub closed spec fn scheme_view(&self) -> Seq<char> {
        self.scheme@
    }

    /// Parse an absolute URL; a string that is none fails with `InvalidInput`.
    pub fn parse(input: &str) -> (r: Result<ResourceUrl, Error>)
        ensures
            r is Ok <==> url_parse(input@) is Some,
            r matches Ok(u) ==> url_parse(input@) == Some((u.text_view(), u.scheme_view())),
            r matches Err(e) ==> e.kind == ErrorKind::InvalidInput,
    {
        match parse_url(input) {
            Ok(p) => Ok(ResourceUrl { text: p.0, scheme: p.1 }),
            Err(e) => Err(Error { kind: ErrorKind::InvalidInput, message: e.to_string() }),
        }
    }

    pub fn as_str(&self) -> (r: &str)
        ensures
            r@ == self.text_view(),
    {
        self.text.as_str()
    }

    pub fn scheme(&self) -> (r: &str)
        ensures
            r@ == self.scheme_view(),
    {
        self.scheme.as_str()
    }
}

} // verus!
