use vstd::prelude::*;

verus! {

/// The failures of the cache-fill path.
#[derive(Debug, Clone, Copy, PartialEq, Eq, Structural)]
pub enum CacheError {
    /// The URL could not be parsed, or it names no host.
    InvalidUrl,
    /// The origin could not be reached, or its answer could not be read.
    Unreachable,
    /// The origin answered with a status other than 200.
    BadStatus,
    /// The origin's answer carried no content type.
    MissingContentType,
    /// The origin's content type does not start with `image/`.
    NotAnImage,
    /// The local filesystem failed while staging or publishing.
    Io,
}

} // verus!
