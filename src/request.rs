use vstd::prelude::*;
use crate::error::CacheError;
use crate::key::{joined, key_of_url, get_image_cache_path};

verus! {

/// A request to make sure that the image at `url` is cached, carrying the
/// access token that authorizes it.
#[derive(Debug)]
pub struct PrepareJson {
    pub url: String,
    pub access_token: String,
}

/// A request to serve the cached image of `url`.
#[derive(Debug)]
pub struct PicQuery {
    pub url: String,
}

impl PrepareJson {
    pub fn new(url: String, access_token: String) -> (r: PrepareJson)
        ensures
            r.url@ == url@,
            r.access_token@ == access_token@,
    {
        PrepareJson { url, access_token }
    }

    /// Whether the request carries the expected access token.
    pub fn token_matches(&self, token: &String) -> (r: bool)
        ensures
            r == (self.access_token@ == token@),
    {
        self.access_token == *token
    }

    /// The published path to look at for this request under `cache_root`:
    /// `Ok(None)` when the token is wrong, else the path of the URL's image,
    /// or `InvalidUrl` where the URL has no cache key.
    pub fn target(&self, token: &String, cache_root: &str) -> (r: Result<Option<String>, CacheError>)
        ensures
            self.access_token@ != token@ ==> r == Ok::<Option<String>, CacheError>(None),
            self.access_token@ == token@ ==> match key_of_url(self.url@) {
                Some(k) => r is Ok && r->Ok_0 is Some && r->Ok_0->Some_0@ == joined(cache_root@, k),
                None => r == Err::<Option<String>, CacheError>(CacheError::InvalidUrl),
            },
    {
        if !self.token_matches(token) {
            return Ok(None);
        }
        let p = get_image_cache_path(cache_root, self.url.as_str())?;
        Ok(Some(p))
    }
}

impl PicQuery {
    pub fn new(url: String) -> (r: PicQuery)
        ensures
            r.url@ == url@,
    {
        PicQuery { url }
    }

    /// The published path of the requested image under `cache_root`.
    pub fn target(&self, cache_root: &str) -> (r: Result<String, CacheError>)
        ensures
            match key_of_url(self.url@) {
                Some(k) => r is Ok && r->Ok_0@ == joined(cache_root@, k),
                None => r == Err::<String, CacheError>(CacheError::InvalidUrl),
            },
    {
        get_image_cache_path(cache_root, self.url.as_str())
    }
}

} // verus!
