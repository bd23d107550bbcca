//! URLs, parsed by the `url` crate.
use vstd::prelude::*;

verus! {

/// The parts of a URL that the library reads.
pub struct UrlParts {
    /// The whole URL as the parser serialises it (`Url::as_str`).
    pub href: String,
    /// The scheme, such as `https` (`Url::scheme`).
    pub scheme: String,
    /// The host, if any (`Url::host_str`).
    pub host: Option<String>,
    /// The path, starting with `/` for URLs with a host (`Url::path`).
    pub path: String,
}

/// What `url::Url::parse` makes of a string: `None` when it refuses the
/// string, otherwise the serialisation, scheme, host and path of the URL.
pub uninterp spec fn url_components(s: Seq<char>) -> Option<
    (Seq<char>, Seq<char>, Option<Seq<char>>, Seq<char>),
>;

impl UrlParts {
    /// The components of these parts, in the order of `url_components`.
    pub open spec fn components(&self) -> (Seq<char>, Seq<char>, Option<Seq<char>>, Seq<char>) {
        (
            self.href@,
            self.scheme@,
            match self.host {
                Some(h) => Some(h@),
                None => None,
            },
            self.path@,
        )
    }
}

/// What `url::ParseError` displays for the error `url::Url::parse` gives
/// on `s` (meaningful only where `url_components(s)` is `None`).
pub uninterp spec fn url_error_text(s: Seq<char>) -> Seq<char>;

/// Parses `s` with `url::Url::parse`. The result is an error exactly when
/// the crate rejects the string, carrying the error's display text;
/// otherwise it carries `Url::as_str`, `Url::scheme`, `Url::host_str` and
/// `Url::path` of the parsed URL.
#[verifier::external_body]
pub(crate) fn parse_url(s: &str) -> (r: Result<UrlParts, String>)
    ensures
        match r {
            Err(e) => url_components(s@) is None && e@ == url_error_text(s@),
            Ok(p) => url_components(s@) == Some(p.components()),
        },
{
    match url::Url::parse(s) {
        Ok(u) => Ok(
            UrlParts {
                href: u.as_str().to_string(),
                scheme: u.scheme().to_string(),
                host: u.host_str().map(|h| h.to_string()),
                path: u.path().to_string(),
            },
        ),
        Err(e) => Err(e.to_string()),
    }
}

} // verus!
