//! Authentication of nodes by a key that the cluster shares.

use vstd::prelude::*;
use vstd::slice::{slice_subrange, slice_to_vec};
use vstd::string::*;

use crate::protocol::big_endian::{
    be_i64, be_i64_reads_back, be_i64_value, read_i64, write_i64,
};
use crate::protocol::clock::now_millis;
use crate::protocol::random::random_bytes;

verus! {

broadcast use vstd::string::group_string_axioms;

/// The HMAC-SHA256 tag of `data` under `key`.
pub uninterp spec fn hmac_tag(key: Seq<u8>, data: Seq<u8>) -> Seq<u8>;

/// `Hmac::<Sha256>::new_from_slice`, `update` and `finalize` of the crates `hmac` and `sha2`.
/// A key of any length is accepted, and the tag is a function of key and data, 32 bytes long.
#[verifier::external_body]
fn hmac_sha256(key: &[u8], data: &[u8]) -> (r: Vec<u8>)
    ensures
        r@ == hmac_tag(key@, data@),
        r@.len() == 32,
{
    let mut mac = <hmac::Hmac::<sha2::Sha256> as hmac::Mac>::new_from_slice(key)
        .expect("HMAC takes a key of any length");
    hmac::Mac::update(&mut mac, data);
    hmac::Mac::finalize(mac).into_bytes().to_vec()
}

/// Errors that can occur during authentication.
#[derive(Debug, Clone, Copy, PartialEq, Eq, Structural)]
pub enum AuthError {
    InvalidSignature,
    TimestampExpired,
    InvalidTimestamp,
    KeyGenerationFailed,
}

impl AuthError {
    /// What the error says.
    pub open spec fn text(self) -> Seq<char> {
        match self {
            AuthError::InvalidSignature => "Invalid HMAC signature"@,
            AuthError::TimestampExpired => "Timestamp expired"@,
            AuthError::InvalidTimestamp => "Invalid timestamp"@,
            AuthError::KeyGenerationFailed => "Key generation failed"@,
        }
    }

    /// Says what is wrong.
    pub fn message(&self) -> (r: String)
        ensures
            r@ == self.text(),
    {
        match self {
            AuthError::InvalidSignature => "Invalid HMAC signature".to_owned(),
            AuthError::TimestampExpired => "Timestamp expired".to_owned(),
            AuthError::InvalidTimestamp => "Invalid timestamp".to_owned(),
            AuthError::KeyGenerationFailed => "Key generation failed".to_owned(),
        }
    }
}

/// HMAC-based authentication for cluster communication.
pub struct HmacAuth {
    key: Vec<u8>,
    max_age_secs: i64,
}

/// What an authenticator is made of.
pub struct HmacAuthView {
    pub key: Seq<u8>,
    pub max_age_secs: int,
}

impl View for HmacAuth {
    type V = HmacAuthView;

    closed spec fn view(&self) -> HmacAuthView {
        HmacAuthView { key: self.key@, max_age_secs: self.max_age_secs as int }
    }
}

/// The signature of a timestamp under `key`.
pub open spec fn token_signature(key: Seq<u8>, timestamp: int) -> Seq<u8> {
    hmac_tag(key, be_i64(timestamp))
}

/// The whole seconds between two times in milliseconds.
pub open spec fn age_secs(now: int, timestamp: int) -> int {
    if now >= timestamp {
        (now - timestamp) / 1000
    } else {
        (timestamp - now) / 1000
    }
}

/// The verdict on a token at the time `now`. Freshness is tested before the signature.
pub open spec fn token_verdict(
    auth: HmacAuthView,
    timestamp: int,
    signature: Seq<u8>,
    now: int,
) -> Result<(), AuthError> {
    if age_secs(now, timestamp) > auth.max_age_secs {
        Err(AuthError::TimestampExpired)
    } else if signature != token_signature(auth.key, timestamp) {
        Err(AuthError::InvalidSignature)
    } else {
        Ok(())
    }
}

/// What an authentication payload holds: a timestamp of 8 bytes and a signature of 32 bytes.
/// Bytes behind these are ignored.
pub open spec fn auth_payload_parts(data: Seq<u8>) -> Result<(int, Seq<u8>), AuthError> {
    if data.len() < 40 {
        Err(AuthError::InvalidSignature)
    } else {
        Ok((be_i64_value(data.take(8)), data.subrange(8, 40)))
    }
}

fn same_bytes(a: &[u8], b: &[u8]) -> (r: bool)
    ensures
        r == (a@ == b@),
{
    if a.len() != b.len() {
        return false;
    }
    let mut i: usize = 0;
    while i < a.len()
        invariant
            a@.len() == b@.len(),
            i <= a@.len(),
            forall|k: int| 0 <= k < i ==> a@[k] == b@[k],
        decreases a@.len() - i,
    {
        if a[i] != b[i] {
            return false;
        }
        i += 1;
    }
    assert(a@ =~= b@);
    true
}

impl HmacAuth {
    /// An authenticator with the given key that accepts tokens up to the given age.
    pub fn new(key: &[u8], max_age_secs: i64) -> (r: HmacAuth)
        ensures
            r@ == (HmacAuthView { key: key@, max_age_secs: max_age_secs as int }),
    {
        HmacAuth { key: slice_to_vec(key), max_age_secs }
    }

    /// A token for the current time: the timestamp and its signature.
    pub fn generate_token(&self) -> (r: (i64, Vec<u8>))
        ensures
            r.1@ == token_signature(self@.key, r.0 as int),
            r.1@.len() == 32,
    {
        let timestamp: i64 = now_millis();
        let signature = self.compute_hmac(timestamp);
        (timestamp, signature)
    }

    /// Validates a token at the current time.
    pub fn validate_token(&self, timestamp: i64, signature: &[u8]) -> (r: Result<(), AuthError>)
        ensures
            exists|now: int|
                i64::MIN <= now <= i64::MAX && r == #[trigger] token_verdict(
                    self@,
                    timestamp as int,
                    signature@,
                    now,
                ),
    {
        let now: i64 = now_millis();
        let r = self.validate_token_at(timestamp, signature, now);
        assert(r == token_verdict(self@, timestamp as int, signature@, now as int));
        r
    }

    /// Validates a token at the time `now`.
    pub fn validate_token_at(&self, timestamp: i64, signature: &[u8], now: i64) -> (r: Result<
        (),
        AuthError,
    >)
        ensures
            r == token_verdict(self@, timestamp as int, signature@, now as int),
    {
        let distance: i128 = if now >= timestamp {
            now as i128 - timestamp as i128
        } else {
            timestamp as i128 - now as i128
        };
        if distance / 1000 > self.max_age_secs as i128 {
            return Err(AuthError::TimestampExpired);
        }
        let expected = self.compute_hmac(timestamp);
        if !same_bytes(signature, expected.as_slice()) {
            return Err(AuthError::InvalidSignature);
        }
        Ok(())
    }

    /// The signature of a timestamp.
    pub fn compute_hmac(&self, timestamp: i64) -> (r: Vec<u8>)
        ensures
            r@ == token_signature(self@.key, timestamp as int),
            r@.len() == 32,
    {
        hmac_sha256(self.key.as_slice(), write_i64(timestamp).as_slice())
    }

    /// A fresh random key of 32 bytes for a cluster.
    pub fn generate_key() -> (r: Result<Vec<u8>, AuthError>)
        ensures
            r is Ok,
            r->Ok_0@.len() == 32,
    {
        Ok(random_bytes(32))
    }

    /// Writes an authentication payload: the timestamp's 8 bytes and the signature.
    pub fn serialize_auth_payload(timestamp: i64, hmac: &[u8]) -> (r: Vec<u8>)
        ensures
            r@ == be_i64(timestamp as int) + hmac@,
    {
        let mut payload = write_i64(timestamp);
        payload.extend_from_slice(hmac);
        assert(payload@ =~= be_i64(timestamp as int) + hmac@);
        payload
    }

    /// Reads an authentication payload.
    pub fn deserialize_auth_payload(data: &[u8]) -> (r: Result<(i64, Vec<u8>), AuthError>)
        ensures
            match r {
                Ok((timestamp, hmac)) => auth_payload_parts(data@) == Ok::<(int, Seq<u8>), AuthError>(
                    (timestamp as int, hmac@),
                ),
                Err(e) => auth_payload_parts(data@) == Err::<(int, Seq<u8>), AuthError>(e),
            },
    {
        if data.len() < 40 {
            return Err(AuthError::InvalidSignature);
        }
        assert(data@.subrange(0, 8) =~= data@.take(8));
        let timestamp: i64 = read_i64(data, 0);
        let hmac = slice_to_vec(slice_subrange(data, 8, 40));
        Ok((timestamp, hmac))
    }
}

/// A token is accepted by everyone who holds its key, as long as it is no older than allowed.
pub proof fn fresh_token_is_accepted(auth: HmacAuthView, timestamp: int, now: int)
    requires
        age_secs(now, timestamp) <= auth.max_age_secs,
    ensures
        token_verdict(auth, timestamp, token_signature(auth.key, timestamp), now) is Ok,
{
}

/// Only the signature of the timestamp itself is accepted, and only while it is fresh.
pub proof fn accepted_token_is_genuine(
    auth: HmacAuthView,
    timestamp: int,
    signature: Seq<u8>,
    now: int,
)
    requires
        token_verdict(auth, timestamp, signature, now) is Ok,
    ensures
        signature == token_signature(auth.key, timestamp),
        age_secs(now, timestamp) <= auth.max_age_secs,
{
}

/// An authentication payload with a signature of 32 bytes reads back.
pub proof fn auth_payload_reads_back(timestamp: int, hmac: Seq<u8>)
    requires
        i64::MIN <= timestamp <= i64::MAX,
        hmac.len() == 32,
    ensures
        auth_payload_parts(be_i64(timestamp) + hmac) == Ok::<(int, Seq<u8>), AuthError>(
            (timestamp, hmac),
        ),
{
    be_i64_reads_back(timestamp);
    let data = be_i64(timestamp) + hmac;
    assert(data.take(8) =~= be_i64(timestamp));
    assert(data.subrange(8, 40) =~= hmac);
}

} // verus!
