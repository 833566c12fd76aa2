use vstd::prelude::*;
use vstd::string::StrSliceExecFns;

verus! {

/// The bounded pool of Redis connections, built once and shared by every
/// acquisition. Connections checked out of it go back to it when dropped.
///
/// Verus does not accept a declaration of `deadpool::managed::Pool` (its
/// bound on `deadpool::managed::Manager` stops it), so the pool is held here
/// whole and stays opaque to the proofs.
#[verifier::external_body]
pub struct RedisPool {
    pub inner: deadpool_redis::Pool,
}

/// Why a pool could not be built. Neither is worth retrying: both come from
/// the configuration.
#[derive(Clone, Copy, Debug, PartialEq, Eq, Structural)]
pub enum BuildError {
    /// The connection descriptor does not have the form of a URI.
    InvalidDescriptor,
    /// The descriptor is a URI, but the backend refused to build a pool on
    /// it (a scheme it does not serve, a missing host, a bad port, ...).
    BackendRejected,
}

/// Whether the Redis client accepts `url` as a connection descriptor.
pub uninterp spec fn redis_url_accepted(url: Seq<char>) -> bool;

/// Relies on `deadpool_redis::Config::from_url` and `Config::create_pool`
/// with the Tokio runtime. The redis crate parses the URL without any I/O,
/// so whether it is accepted depends on its text alone; a refusal comes back
/// as `CreatePoolError::Config`. With a runtime given, `PoolBuilder::build`
/// does not fail, so `CreatePoolError::Build` does not occur.
#[verifier::external_body]
fn create_pool_from_url(url: &str) -> (r: Result<RedisPool, BuildError>)
    ensures
        r is Ok <==> redis_url_accepted(url@),
        r matches Err(e) ==> e == BuildError::InvalidDescriptor,
{
    match deadpool_redis::Config::from_url(url).create_pool(Some(deadpool_redis::Runtime::Tokio1)) {
        Ok(inner) => Ok(RedisPool { inner }),
        Err(deadpool_redis::CreatePoolError::Config(_)) => Err(BuildError::InvalidDescriptor),
        Err(deadpool_redis::CreatePoolError::Build(_)) => Err(BuildError::BackendRejected),
    }
}

/// An ASCII letter.
pub open spec fn is_letter(c: char) -> bool {
    ('a' <= c && c <= 'z') || ('A' <= c && c <= 'Z')
}

/// A character that may stand in a URI scheme after its first letter.
pub open spec fn is_scheme_char(c: char) -> bool {
    is_letter(c) || ('0' <= c && c <= '9') || c == '+' || c == '-' || c == '.'
}

/// The scheme of `s` ends at index `k`: `s[k]` is the `:` that follows a
/// non-empty run of scheme characters.
pub open spec fn scheme_ends_at(s: Seq<char>, k: int) -> bool {
    &&& 0 < k < s.len()
    &&& s[k] == ':'
    &&& forall|j: int| 0 < j < k ==> is_scheme_char(#[trigger] s[j])
}

/// `s` has the form of a URI: a scheme that starts with a letter, goes on
/// with letters, digits, `+`, `-` or `.`, and is followed by `:`.
pub open spec fn uri_form(s: Seq<char>) -> bool {
    &&& s.len() > 0
    &&& is_letter(s[0])
    &&& exists|k: int| scheme_ends_at(s, k)
}

fn letter(c: char) -> (r: bool)
    ensures
        r == is_letter(c),
{
    ('a' <= c && c <= 'z') || ('A' <= c && c <= 'Z')
}

fn scheme_char(c: char) -> (r: bool)
    ensures
        r == is_scheme_char(c),
{
    letter(c) || ('0' <= c && c <= '9') || c == '+' || c == '-' || c == '.'
}

/// Whether `s` has the form of a URI.
pub fn has_uri_form(s: &str) -> (r: bool)
    ensures
        r == uri_form(s@),
{
    let n = s.unicode_len();
    if n == 0 {
        return false;
    }
    if !letter(s.get_char(0)) {
        return false;
    }
    let mut k: usize = 1;
    while k < n
        invariant
            1 <= k <= n,
            n == s@.len(),
            is_letter(s@[0]),
            forall|j: int| 0 < j < k ==> is_scheme_char(#[trigger] s@[j]),
        decreases n - k,
    {
        let c = s.get_char(k);
        if c == ':' {
            assert(scheme_ends_at(s@, k as int));
            return true;
        }
        if !scheme_char(c) {
            assert forall|m: int| !scheme_ends_at(s@, m) by {
                if scheme_ends_at(s@, m) && m > k {
                    assert(is_scheme_char(s@[k as int]));
                }
            }
            return false;
        }
        k = k + 1;
    }
    assert forall|m: int| !scheme_ends_at(s@, m) by {
        if 0 < m < s@.len() {
            assert(is_scheme_char(s@[m]));
        }
    }
    false
}

/// Builds the bounded, asynchronous connection pool for the Redis service
/// that `redis_url` names. A descriptor without the form of a URI is
/// refused before the backend sees it; a URI that the backend refuses is
/// reported as such. No retry happens here: a failure is a configuration
/// error.
pub fn create_redis_pool(redis_url: &str) -> (r: Result<RedisPool, BuildError>)
    ensures
        r is Ok <==> uri_form(redis_url@) && redis_url_accepted(redis_url@),
        !uri_form(redis_url@) ==> r matches Err(BuildError::InvalidDescriptor),
        uri_form(redis_url@) && !redis_url_accepted(redis_url@) ==> r matches Err(
            BuildError::BackendRejected,
        ),
{
    if !has_uri_form(redis_url) {
        return Err(BuildError::InvalidDescriptor);
    }
    match create_pool_from_url(redis_url) {
        Ok(pool) => Ok(pool),
        Err(_) => Err(BuildError::BackendRejected),
    }
}

} // verus!
