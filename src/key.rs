use vstd::prelude::*;
use crate::error::CacheError;
use crate::url_parts::{UrlParts, url_split, parse_url_parts};

verus! {

/// The cache key of a URL's host and path: the host followed by the path.
pub open spec fn key_spec(host: Seq<char>, path: Seq<char>) -> Seq<char> {
    host + path
}

/// The cache key of a URL string, or `None` where it is not a URL with a host.
pub open spec fn key_of_url(s: Seq<char>) -> Option<Seq<char>> {
    match url_split(s) {
        Some((Some(h), p)) => Some(key_spec(h, p)),
        _ => None,
    }
}

/// What comes before a path placed under the directory `root`: nothing
/// for an empty root, the root itself where it ends in `/`, else the root
/// and a `/`.
pub open spec fn dir_prefix(root: Seq<char>) -> Seq<char> {
    if root.len() == 0 {
        Seq::empty()
    } else if root.last() == '/' {
        root
    } else {
        root + seq!['/']
    }
}

/// `rel` placed under the directory `root`; under an empty root it stays
/// relative.
pub open spec fn joined(root: Seq<char>, rel: Seq<char>) -> Seq<char> {
    dir_prefix(root) + rel
}

/// The cache root used when none is configured.
pub open spec fn default_cache_dir() -> Seq<char> {
    seq!['/', 'c', 'a', 'c', 'h', 'e']
}

/// The cache root: the configured one, else `/cache`.
pub fn get_cache_dir(configured: Option<String>) -> (r: String)
    ensures
        match configured {
            Some(c) => r@ == c@,
            None => r@ == default_cache_dir(),
        },
{
    match configured {
        Some(c) => c,
        None => {
            let d: &str = "/cache";
            proof {
                reveal_strlit("/cache");
                assert(d@ =~= default_cache_dir());
            }
            String::from_str(d)
        },
    }
}

/// The cache key of parsed URL parts; a URL without a host has none.
pub fn cache_key(parts: &UrlParts) -> (r: Result<String, CacheError>)
    ensures
        match parts.host_view() {
            Some(h) => r is Ok && r->Ok_0@ == key_spec(h, parts.path@),
            None => r == Err::<String, CacheError>(CacheError::InvalidUrl),
        },
{
    match &parts.host {
        Some(h) => {
            let k = h.clone().concat(parts.path.as_str());
            Ok(k)
        },
        None => Err(CacheError::InvalidUrl),
    }
}

/// Derives the cache key of a URL: its host followed by its path.
pub fn derive_key(url: &str) -> (r: Result<String, CacheError>)
    ensures
        match key_of_url(url@) {
            Some(k) => r is Ok && r->Ok_0@ == k,
            None => r == Err::<String, CacheError>(CacheError::InvalidUrl),
        },
{
    let parts = parse_url_parts(url)?;
    cache_key(&parts)
}

/// Places the relative path `rel` under the directory `root`.
pub fn join_path(root: &str, rel: &str) -> (r: String)
    ensures
        r@ == joined(root@, rel@),
{
    let n = root.unicode_len();
    let mut s = String::from_str(root);
    if n == 0 {
        assert(root@ =~= Seq::<char>::empty());
        s.append(rel);
        assert(s@ =~= joined(root@, rel@));
    } else if root.get_char(n - 1) == '/' {
        s.append(rel);
    } else {
        let sep: &str = "/";
        proof {
            reveal_strlit("/");
            assert(sep@ =~= seq!['/']);
        }
        s.append(sep);
        s.append(rel);
    }
    s
}

/// The path at which the image of `url` is published under `cache_root`.
pub fn get_image_cache_path(cache_root: &str, url: &str) -> (r: Result<String, CacheError>)
    ensures
        match key_of_url(url@) {
            Some(k) => r is Ok && r->Ok_0@ == joined(cache_root@, k),
            None => r == Err::<String, CacheError>(CacheError::InvalidUrl),
        },
{
    let k = derive_key(url)?;
    Ok(join_path(cache_root, k.as_str()))
}

/// Two URLs that the parser splits into the same host and path, whatever
/// their queries and fragments, have the same cache key.
pub proof fn lemma_key_ignores_query_and_fragment(a: Seq<char>, b: Seq<char>)
    requires
        url_split(a) is Some,
        url_split(b) is Some,
        url_split(a)->Some_0 == url_split(b)->Some_0,
    ensures
        key_of_url(a) == key_of_url(b),
{
}

} // verus!
