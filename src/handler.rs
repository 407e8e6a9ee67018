//! The handler contract, the scheme guard and the handler that reads nothing.

use vstd::prelude::*;

use crate::error::{Error, ErrorKind};
use crate::location::ResourceUrl;
use crate::mime_data::MimeData;

verus! {

/// The result of a read as a value: the data, or the kind and message of the
/// error.
pub type ReadOutcome = Result<MimeData, (ErrorKind, Seq<char>)>;

/// The value of the result of a read.
pub open spec fn outcome_of(r: Result<MimeData, Error>) -> ReadOutcome {
    match r {
        Ok(data) => Ok(data),
        Err(e) => Err(e@),
    }
}

/// Whether `r` is the signal to try another handler.
pub open spec fn is_unsupported(r: ReadOutcome) -> bool {
    r matches Err(e) && e.0 == ErrorKind::Unsupported
}

/// Reads the resource behind a URL.
///
/// A handler either returns the data, or fails with `Unsupported` where the URL
/// is not one it handles (so that a caller may try another handler), or fails
/// with any other kind where it handles the URL but could not read it.
pub trait ResourceUrlHandler: Send + Sync {
    /// Whether reading `url` with this handler may give `r`.
    ///
    /// A handler that does not say otherwise may give any result.
    open spec fn read_outcome(&self, url: ResourceUrl, r: ReadOutcome) -> bool {
        true
    }

    /// Read the data behind `url`, with its mime type if known.
    fn read_resource(&self, url: &ResourceUrl) -> (r: Result<MimeData, Error>)
        ensures
            self.read_outcome(*url, outcome_of(r)),
    ;
}

/// A reference to a handler reads as the handler does.
impl<'a, R: ResourceUrlHandler + ?Sized> ResourceUrlHandler for &'a R {
    open spec fn read_outcome(&self, url: ResourceUrl, r: ReadOutcome) -> bool {
        (**self).read_outcome(url, r)
    }

    fn read_resource(&self, url: &ResourceUrl) -> (r: Result<MimeData, Error>) {
        (**self).read_resource(url)
    }
}

/// Whether `scheme` is one of `schemes`.
pub open spec fn scheme_allowed(schemes: Seq<&str>, scheme: Seq<char>) -> bool {
    exists|i: int| 0 <= i < schemes.len() && schemes[i]@ == scheme
}

/// `s` in double quotes.
pub open spec fn quoted(s: Seq<char>) -> Seq<char> {
    "\""@ + s + "\""@
}

/// The first `n` of `schemes`, each quoted, separated by `", "`.
pub open spec fn quoted_schemes(schemes: Seq<&str>, n: int) -> Seq<char>
    decreases n,
{
    if n <= 0 {
        Seq::empty()
    } else if n == 1 {
        quoted(schemes[0]@)
    } else {
        quoted_schemes(schemes, n - 1) + ", "@ + quoted(schemes[n - 1]@)
    }
}

/// The message of the error for a URL whose scheme is not among `schemes`.
pub open spec fn scheme_message(schemes: Seq<&str>, url: Seq<char>) -> Seq<char> {
    "Unsupported scheme in "@ + url + ", expected one of ["@ + quoted_schemes(
        schemes,
        schemes.len() as int,
    ) + "]"@
}

/// Whether two strings hold the same characters.
fn same_text(a: &str, b: &str) -> (r: bool)
    ensures
        r == (a@ == b@),
{
    let n = a.unicode_len();
    if n != b.unicode_len() {
        return false;
    }
    let mut i: usize = 0;
    while i < n
        invariant
            n == a@.len(),
            n == b@.len(),
            i <= n,
            a@.subrange(0, i as int) == b@.subrange(0, i as int),
        decreases n - i,
    {
        if a.get_char(i) != b.get_char(i) {
            return false;
        }
        assert(a@.subrange(0, i + 1) == a@.subrange(0, i as int).push(a@[i as int]));
        assert(b@.subrange(0, i + 1) == b@.subrange(0, i as int).push(b@[i as int]));
        i = i + 1;
    }
    assert(a@ == a@.subrange(0, n as int));
    assert(b@ == b@.subrange(0, n as int));
    true
}

/// The schemes quoted and separated by `", "`.
fn quote_schemes(schemes: &[&str]) -> (r: String)
    ensures
        r@ == quoted_schemes(schemes@, schemes@.len() as int),
{
    let mut r = String::new();
    let mut i: usize = 0;
    while i < schemes.len()
        invariant
            i <= schemes@.len(),
            r@ == quoted_schemes(schemes@, i as int),
        decreases schemes@.len() - i,
    {
        if i > 0 {
            r.append(", ");
        }
        r.append("\"");
        r.append(schemes[i]);
        r.append("\"");
        proof {
            if i > 0 {
                assert(r@ == quoted_schemes(schemes@, i as int) + ", "@ + quoted(schemes@[i as int]@));
            }
        }
        i = i + 1;
    }
    r
}

/// Let through a URL whose scheme is one of `schemes`.
///
/// Any other URL fails with `Unsupported`, and a message that names the URL
/// and the schemes.
pub fn filter_schemes<'a>(schemes: &[&str], url: &'a ResourceUrl) -> (r: Result<
    &'a ResourceUrl,
    Error,
>)
    ensures
        r is Ok <==> scheme_allowed(schemes@, url.scheme_view()),
        r matches Ok(u) ==> u == url,
        r matches Err(e) ==> e.kind == ErrorKind::Unsupported && e.message@ == scheme_message(
            schemes@,
            url.text_view(),
        ),
{
    let scheme = url.scheme();
    let mut i: usize = 0;
    while i < schemes.len()
        invariant
            i <= schemes@.len(),
            scheme@ == url.scheme_view(),
            forall|j: int| 0 <= j < i ==> schemes@[j]@ != scheme@,
        decreases schemes@.len() - i,
    {
        if same_text(schemes[i], scheme) {
            return Ok(url);
        }
        i = i + 1;
    }
    let mut message = String::from_str("Unsupported scheme in ");
    message.append(url.as_str());
    message.append(", expected one of [");
    let listed = quote_schemes(schemes);
    message.append(listed.as_str());
    message.append("]");
    Err(Error { kind: ErrorKind::Unsupported, message })
}

/// The message of the error that [`NoopResourceHandler`] gives for `url`.
pub open spec fn noop_message(url: Seq<char>) -> Seq<char> {
    "Reading from resource "@ + url + " is not supported"@
}

/// A handler that reads nothing.
#[derive(Clone, Copy, Debug)]
pub struct NoopResourceHandler;

impl ResourceUrlHandler for NoopResourceHandler {
    /// Every URL fails with `Unsupported`.
    open spec fn read_outcome(&self, url: ResourceUrl, r: ReadOutcome) -> bool {
        r == ReadOutcome::Err((ErrorKind::Unsupported, noop_message(url.text_view())))
    }

    fn read_resource(&self, url: &ResourceUrl) -> (r: Result<MimeData, Error>) {
        let mut message = String::from_str("Reading from resource ");
        message.append(url.as_str());
        message.append(" is not supported");
        Err(Error { kind: ErrorKind::Unsupported, message })
    }
}

} // verus!
