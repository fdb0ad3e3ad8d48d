use vstd::prelude::*;
use crate::error::CacheError;

verus! {

#[verifier::external_type_specification]
#[verifier::external_body]
pub struct ExParseError(url::ParseError);

/// What the URL parser reports of an input string: `None` when the string
/// is not a URL, else the host (when the URL has one) and the path.
pub uninterp spec fn url_split(s: Seq<char>) -> Option<(Option<Seq<char>>, Seq<char>)>;

/// The parts of a parsed URL that the cache reads: its host, if any, and
/// its percent-encoded path. Query and fragment are not kept.
#[derive(Debug)]
pub struct UrlParts {
    pub host: Option<String>,
    pub path: String,
}

impl UrlParts {
    pub open spec fn host_view(&self) -> Option<Seq<char>> {
        match self.host {
            Some(h) => Some(h@),
            None => None,
        }
    }

    pub open spec fn view(&self) -> (Option<Seq<char>>, Seq<char>) {
        (self.host_view(), self.path@)
    }
}

/// Relies on `url::Url::parse`, then reads `Url::host_str` and `Url::path`
/// of the parsed value; the outcome depends on the input string alone.
#[verifier::external_body]
fn split_url(s: &str) -> (r: Result<UrlParts, url::ParseError>)
    ensures
        r is Ok <==> url_split(s@) is Some,
        r is Ok ==> r->Ok_0.view() == url_split(s@)->Some_0,
{
    let u = url::Url::parse(s)?;
    Ok(UrlParts { host: u.host_str().map(String::from), path: u.path().to_string() })
}

/// Parses `s` as a URL and keeps its host and path.
pub fn parse_url_parts(s: &str) -> (r: Result<UrlParts, CacheError>)
    ensures
        match url_split(s@) {
            Some(v) => r is Ok && r->Ok_0.view() == v,
            None => r == Err::<UrlParts, CacheError>(CacheError::InvalidUrl),
        },
{
    match split_url(s) {
        Ok(p) => Ok(p),
        Err(_) => Err(CacheError::InvalidUrl),
    }
}

} // verus!
