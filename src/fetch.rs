use vstd::prelude::*;
use crate::error::CacheError;

verus! {

/// The only status under which an origin's answer is accepted.
pub const STATUS_OK: u16 = 200;

/// The content-type prefix that marks an image.
pub open spec fn image_prefix() -> Seq<char> {
    seq!['i', 'm', 'a', 'g', 'e', '/']
}

pub open spec fn starts_with(s: Seq<char>, p: Seq<char>) -> bool {
    p.len() <= s.len() && s.subrange(0, p.len() as int) == p
}

/// What the origin's status and content type make of a fetch.
pub open spec fn response_verdict(status: u16, content_type: Option<Seq<char>>) -> Result<(), CacheError> {
    if status != 200 {
        Err(CacheError::BadStatus)
    } else {
        match content_type {
            None => Err(CacheError::MissingContentType),
            Some(ct) => if starts_with(ct, image_prefix()) {
                Ok(())
            } else {
                Err(CacheError::NotAnImage)
            },
        }
    }
}

pub open spec fn opt_view(o: Option<&str>) -> Option<Seq<char>> {
    match o {
        Some(s) => Some(s@),
        None => None,
    }
}

/// Whether the content type `ct` names an image.
pub fn is_image_type(ct: &str) -> (r: bool)
    ensures
        r == starts_with(ct@, image_prefix()),
{
    let p: &str = "image/";
    proof {
        reveal_strlit("image/");
        assert(p@ =~= image_prefix());
    }
    let n = ct.unicode_len();
    if n < 6 {
        return false;
    }
    let mut i: usize = 0;
    while i < 6
        invariant
            i <= 6 <= n,
            n == ct@.len(),
            p@ == image_prefix(),
            ct@.subrange(0, i as int) == p@.subrange(0, i as int),
        decreases 6 - i,
    {
        if ct.get_char(i) != p.get_char(i) {
            assert(ct@.subrange(0, 6)[i as int] != image_prefix()[i as int]);
            return false;
        }
        i = i + 1;
        assert(ct@.subrange(0, i as int) =~= p@.subrange(0, i as int));
    }
    assert(p@.subrange(0, 6) =~= p@);
    true
}

/// Decides whether an origin's answer may be cached: its status must be
/// exactly 200 and its content type must be present and start with
/// `image/`.
pub fn check_response(status: u16, content_type: Option<&str>) -> (r: Result<(), CacheError>)
    ensures
        r == response_verdict(status, opt_view(content_type)),
{
    if status != STATUS_OK {
        return Err(CacheError::BadStatus);
    }
    match content_type {
        None => Err(CacheError::MissingContentType),
        Some(ct) => if is_image_type(ct) {
            Ok(())
        } else {
            Err(CacheError::NotAnImage)
        },
    }
}

/// The bytes of an origin's answer that may be cached, or the reason why
/// the answer is refused.
pub fn accept_response(status: u16, content_type: Option<&str>, body: Vec<u8>) -> (r: Result<Vec<u8>, CacheError>)
    ensures
        match response_verdict(status, opt_view(content_type)) {
            Ok(_) => r is Ok && r->Ok_0@ == body@,
            Err(e) => r == Err::<Vec<u8>, CacheError>(e),
        },
{
    match check_response(status, content_type) {
        Ok(()) => Ok(body),
        Err(e) => Err(e),
    }
}

} // verus!
