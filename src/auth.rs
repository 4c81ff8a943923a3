//! The API key guard: the key's SHA3-256 digest, in lower-case hex, must equal
//! the digest that the settings hold.

use vstd::prelude::*;
use vstd::utf8::encode_utf8;
use crate::models::Settings;
use crate::error::ServiceError;
use crate::timed::Timed;

verus! {

/// What `sha3::Sha3_256` gives for `data`.
pub uninterp spec fn sha3_256_of(data: Seq<u8>) -> Seq<u8>;

/// Relies on `sha3::Digest::digest` for `sha3::Sha3_256`: the 32-byte
/// digest of the bytes, which depends on them alone.
#[verifier::external_body]
fn sha3_256(data: &[u8]) -> (r: Vec<u8>)
    ensures
        r@ == sha3_256_of(data@),
        r@.len() == 32,
{
    <sha3::Sha3_256 as sha3::Digest>::digest(data).to_vec()
}

/// The ASCII lower-case hex digit of a value below 16.
pub open spec fn hex_digit(v: nat) -> u8 {
    if v < 10 {
        (48 + v) as u8
    } else {
        (87 + v) as u8
    }
}

/// Two lower-case hex digits for each byte, most significant first.
pub open spec fn lower_hex(b: Seq<u8>) -> Seq<u8>
    decreases b.len(),
{
    if b.len() == 0 {
        Seq::empty()
    } else {
        lower_hex(b.drop_last()) + seq![
            hex_digit(b.last() as nat / 16),
            hex_digit(b.last() as nat % 16),
        ]
    }
}

/// The digest that the settings must hold for the key `key`: the SHA3-256
/// digest of its UTF-8 bytes, in lower-case hex.
pub open spec fn key_digest(key: Seq<char>) -> Seq<u8> {
    lower_hex(sha3_256_of(encode_utf8(key)))
}

/// Whether `key` is the key whose digest the settings hold.
pub open spec fn key_accepted(key: Seq<char>, settings: Settings) -> bool {
    encode_utf8(settings.encrypted_global_api_key@) == key_digest(key)
}

/// The lower-case hex form of `b`.
pub fn to_lower_hex(b: &[u8]) -> (r: Vec<u8>)
    ensures
        r@ == lower_hex(b@),
{
    let mut r: Vec<u8> = Vec::new();
    let mut i: usize = 0;
    while i < b.len()
        invariant
            i <= b@.len(),
            r@ == lower_hex(b@.subrange(0, i as int)),
        decreases b@.len() - i,
    {
        let v = b[i];
        let hi: u8 = if v / 16 < 10 { 48 + v / 16 } else { 87 + v / 16 };
        let lo: u8 = if v % 16 < 10 { 48 + v % 16 } else { 87 + v % 16 };
        r.push(hi);
        r.push(lo);
        proof {
            let next = b@.subrange(0, i + 1);
            assert(next.drop_last() =~= b@.subrange(0, i as int));
            assert(r@ =~= lower_hex(next));
        }
        i = i + 1;
    }
    assert(b@.subrange(0, b@.len() as int) =~= b@);
    r
}

/// Whether two byte strings are equal.
fn bytes_equal(a: &[u8], b: &[u8]) -> (r: bool)
    ensures
        r == (a@ == b@),
{
    if a.len() != b.len() {
        return false;
    }
    let mut i: usize = 0;
    while i < a.len()
        invariant
            i <= a@.len(),
            a@.len() == b@.len(),
            forall|j: int| 0 <= j < i ==> a@[j] == b@[j],
        decreases a@.len() - i,
    {
        if a[i] != b[i] {
            return false;
        }
        i = i + 1;
    }
    assert(a@ =~= b@);
    true
}

/// Checks `key` against the digest that `settings` hold.
pub fn check_api_key(key: &str, settings: &Settings) -> (r: bool)
    ensures
        r == key_accepted(key@, *settings),
{
    let digest = sha3_256(key.as_bytes());
    let hex = to_lower_hex(digest.as_slice());
    bytes_equal(settings.encrypted_global_api_key.as_str().as_bytes(), hex.as_slice())
}

/// Why a request was turned away.
#[derive(Clone, Copy, Debug, PartialEq, Eq, Structural)]
pub enum DenyReason {
    /// The request carries no API key header.
    NoKeyHeader,
    /// The key does not match.
    InvalidKey,
}

/// What the guard decides about a request.
#[derive(Clone, Debug)]
pub enum AuthDecision {
    /// Run the protected operation.
    Allow,
    /// Answer 401.
    Deny(DenyReason),
    /// The settings could not be read in time or at all: answer 500.
    Fail(ServiceError),
}

/// The guard's first step: with no key it denies at once, with a key it
/// needs the settings.
pub enum AuthStep {
    FetchSettings(String),
    Finish(AuthDecision),
}

pub fn auth_start(api_key: Option<String>) -> (r: AuthStep)
    ensures
        api_key is None ==> r matches AuthStep::Finish(AuthDecision::Deny(DenyReason::NoKeyHeader)),
        api_key matches Some(k) ==> r matches AuthStep::FetchSettings(k2) && k2@ == k@,
{
    match api_key {
        None => AuthStep::Finish(AuthDecision::Deny(DenyReason::NoKeyHeader)),
        Some(k) => AuthStep::FetchSettings(k),
    }
}

/// The guard's decision for the key `key` once the settings fetch came to `fetched`.
pub open spec fn auth_outcome(key: Seq<char>, fetched: Timed<Settings>) -> AuthDecision {
    match fetched {
        Timed::Completed(settings) => if key_accepted(key, settings) {
            AuthDecision::Allow
        } else {
            AuthDecision::Deny(DenyReason::InvalidKey)
        },
        Timed::Failed(message) => AuthDecision::Fail(ServiceError::BackendFailure(message)),
        Timed::TimedOut => AuthDecision::Fail(ServiceError::Timeout),
    }
}

/// The guard's second step: decides on the key `key` once the settings fetch
/// came to `fetched`. A failed or late fetch is an internal error, never a denial.
pub fn auth_finish(key: &str, fetched: Timed<Settings>) -> (r: AuthDecision)
    ensures
        r == auth_outcome(key@, fetched),
{
    match fetched {
        Timed::Completed(settings) => if check_api_key(key, &settings) {
            AuthDecision::Allow
        } else {
            AuthDecision::Deny(DenyReason::InvalidKey)
        },
        Timed::Failed(message) => AuthDecision::Fail(ServiceError::BackendFailure(message)),
        Timed::TimedOut => AuthDecision::Fail(ServiceError::Timeout),
    }
}

/// The guard allows a request whose key is the one whose digest the settings
/// hold, and denies as an invalid key every request whose key has another
/// digest (an empty key, or the key with a space added, among them).
pub proof fn lemma_guard_allows_the_stored_key(
    stored_key: Seq<char>,
    supplied: Seq<char>,
    settings: Settings,
)
    requires
        encode_utf8(settings.encrypted_global_api_key@) == key_digest(stored_key),
    ensures
        supplied == stored_key ==> auth_outcome(supplied, Timed::Completed(settings))
            == AuthDecision::Allow,
        key_digest(supplied) != key_digest(stored_key) ==> auth_outcome(
            supplied,
            Timed::Completed(settings),
        ) == AuthDecision::Deny(DenyReason::InvalidKey),
{
}

} // verus!
