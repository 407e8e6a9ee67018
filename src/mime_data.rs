//! Resource data together with its mime type.

use vstd::prelude::*;

use crate::error::{Error, ErrorKind};

verus! {

/// What `mime::Mime`'s `FromStr` makes of a string: the mime type as text and
/// its essence (type and subtype without parameters), or nothing where the
/// string is no mime type.
pub uninterp spec fn mime_parse(input: Seq<char>) -> Option<(Seq<char>, Seq<char>)>;

#[verifier::external_type_specification]
#[verifier::external_body]
pub struct ExFromStrError(mime::FromStrError);

/// Relies on `mime::Mime`'s `FromStr`, and on `AsRef<str>` and `essence_str`
/// of the parsed value: the text and the essence, read off the same parse.
#[verifier::external_body]
fn parse_mime(input: &str) -> (r: Result<(String, String), mime::FromStrError>)
    ensures
        r is Ok <==> mime_parse(input@) is Some,
        r matches Ok(p) ==> mime_parse(input@) == Some((p.0@, p.1@)),
{
    input.parse::<mime::Mime>().map(|m| (m.as_ref().to_string(), m.essence_str().to_string()))
}

/// A parsed mime type.
#[derive(Clone, Debug)]
pub struct MimeType {
    text: String,
    essence: String,
}

impl MimeType {
    /// The mime type as text, parameters included.
    pub closed spec fn text_view(&self) -> Seq<char> {
        self.text@
    }

    /// The type and subtype, without parameters.
    pub closed spec fn essence_view(&self) -> Seq<char> {
        self.essence@
    }

    /// Parse a mime type; a string that is none fails with `InvalidInput`.
    pub fn parse(input: &str) -> (r: Result<MimeType, Error>)
        ensures
            r is Ok <==> mime_parse(input@) is Some,
            r matches Ok(m) ==> mime_parse(input@) == Some((m.text_view(), m.essence_view())),
            r matches Err(e) ==> e.kind == ErrorKind::InvalidInput,
    {
        match parse_mime(input) {
            Ok(p) => Ok(MimeType { text: p.0, essence: p.1 }),
            Err(e) => Err(Error { kind: ErrorKind::InvalidInput, message: e.to_string() }),
        }
    }

    pub fn as_str(&self) -> (r: &str)
        ensures
            r@ == self.text_view(),
    {
        self.text.as_str()
    }

    pub fn essence_str(&self) -> (r: &str)
        ensures
            r@ == self.essence_view(),
    {
        self.essence.as_str()
    }
}

/// The data of a resource, with its mime type where it is known.
#[derive(Clone, Debug)]
pub struct MimeData {
    /// The mime type, if known.
    pub mime_type: Option<MimeType>,
    /// The data.
    pub data: Vec<u8>,
}

impl MimeData {
    /// The essence of the mime type, if any: the mime type without parameters.
    pub fn mime_type_essence(&self) -> (r: Option<&str>)
        ensures
            r is Some <==> self.mime_type is Some,
            r matches Some(s) ==> s@ == self.mime_type->Some_0.essence_view(),
    {
        match &self.mime_type {
            Some(m) => Some(m.essence_str()),
            None => None,
        }
    }
}

} // verus!
