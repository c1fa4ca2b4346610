//! Encryption of payloads with XChaCha20-Poly1305.

use vstd::prelude::*;
use vstd::slice::{slice_subrange, slice_to_vec};

use crate::protocol::random::random_bytes;

verus! {

/// The longest payload that can be sealed: the cipher numbers its blocks of 64 bytes with
/// 32 bits and keeps the first for itself.
pub const MAX_PLAINTEXT: u64 = 274_877_906_816;

/// The length of a nonce.
pub const NONCE_LEN: usize = 24;

/// The length of an authentication tag.
pub const TAG_LEN: usize = 16;

/// The SHA-256 digest of `data`.
pub uninterp spec fn sha256(data: Seq<u8>) -> Seq<u8>;

/// The ciphertext and tag of `plain` under a key and a nonce.
pub uninterp spec fn sealed(key: Seq<u8>, nonce: Seq<u8>, plain: Seq<u8>) -> Seq<u8>;

/// The plaintext of a ciphertext with its tag, if the tag is right.
pub uninterp spec fn unsealed(key: Seq<u8>, nonce: Seq<u8>, data: Seq<u8>) -> Option<Seq<u8>>;

/// `Sha256::digest` of the crate `sha2`: 32 bytes that depend on the data alone.
#[verifier::external_body]
fn sha256_digest(data: &[u8]) -> (r: Vec<u8>)
    ensures
        r@ == sha256(data@),
        r@.len() == 32,
{
    <sha2::Sha256 as sha2::Digest>::digest(data).to_vec()
}

/// `Aead::encrypt` of `XChaCha20Poly1305` in the crate `chacha20poly1305`. The result depends on
/// key, nonce and plaintext alone, is as long as the plaintext and the tag, and decrypts under
/// the same key and nonce to the plaintext.
#[verifier::external_body]
fn seal(key: &[u8], nonce: &[u8], plain: &[u8]) -> (r: Vec<u8>)
    requires
        key@.len() == 32,
        nonce@.len() == NONCE_LEN,
        plain@.len() <= MAX_PLAINTEXT,
        plain@.len() + TAG_LEN <= isize::MAX,
    ensures
        r@ == sealed(key@, nonce@, plain@),
        r@.len() == plain@.len() + TAG_LEN,
        unsealed(key@, nonce@, r@) == Some(plain@),
{
    let cipher = <chacha20poly1305::XChaCha20Poly1305 as chacha20poly1305::KeyInit>::new(
        chacha20poly1305::Key::from_slice(key),
    );
    let nonce = chacha20poly1305::XNonce::from_slice(nonce);
    chacha20poly1305::aead::Aead::encrypt(&cipher, nonce, plain).expect("plaintext fits")
}

/// `Aead::decrypt` of `XChaCha20Poly1305` in the crate `chacha20poly1305`. The result depends on
/// key, nonce and data alone.
#[verifier::external_body]
fn unseal(key: &[u8], nonce: &[u8], data: &[u8]) -> (r: Option<Vec<u8>>)
    requires
        key@.len() == 32,
        nonce@.len() == NONCE_LEN,
        data@.len() <= MAX_PLAINTEXT + TAG_LEN,
    ensures
        r is Some == unsealed(key@, nonce@, data@) is Some,
        r matches Some(p) ==> Some(p@) == unsealed(key@, nonce@, data@),
{
    let cipher = <chacha20poly1305::XChaCha20Poly1305 as chacha20poly1305::KeyInit>::new(
        chacha20poly1305::Key::from_slice(key),
    );
    let nonce = chacha20poly1305::XNonce::from_slice(nonce);
    chacha20poly1305::aead::Aead::decrypt(&cipher, nonce, data).ok()
}

/// Encrypts payloads under a key that is derived from the cluster's key.
pub struct PayloadCipher {
    key: Vec<u8>,
}

impl View for PayloadCipher {
    type V = Seq<u8>;

    /// The key of the cipher.
    closed spec fn view(&self) -> Seq<u8> {
        self.key@
    }
}

/// The payload that `data` decrypts to under `key`. The nonce stands in front. Data that is too
/// short for a nonce and a tag, or too long for the cipher, decrypts to nothing.
pub open spec fn decrypted(key: Seq<u8>, data: Seq<u8>) -> Option<Seq<u8>> {
    if data.len() < NONCE_LEN + TAG_LEN || data.len() > MAX_PLAINTEXT + NONCE_LEN + TAG_LEN {
        None
    } else {
        unsealed(key, data.take(NONCE_LEN as int), data.skip(NONCE_LEN as int))
    }
}

/// Whether `data` is an encryption of `plain` under `key`: a nonce and what it seals, which
/// decrypts to `plain`.
pub open spec fn encrypts(key: Seq<u8>, plain: Seq<u8>, data: Seq<u8>) -> bool {
    &&& data.len() == plain.len() + NONCE_LEN + TAG_LEN
    &&& data.skip(NONCE_LEN as int) == sealed(key, data.take(NONCE_LEN as int), plain)
    &&& decrypted(key, data) == Some(plain)
}

impl PayloadCipher {
    /// Whether the key has the cipher's length.
    pub closed spec fn wf(&self) -> bool {
        self.key@.len() == 32
    }

    /// A cipher whose key is the digest of the cluster's key.
    pub fn new(auth_key: &[u8]) -> (r: PayloadCipher)
        ensures
            r.wf(),
            r@ == sha256(auth_key@),
    {
        PayloadCipher { key: sha256_digest(auth_key) }
    }

    /// Encrypts a payload under a fresh nonce.
    pub fn encrypt(&self, plaintext: &[u8]) -> (r: Vec<u8>)
        requires
            self.wf(),
            plaintext@.len() <= MAX_PLAINTEXT,
            plaintext@.len() + NONCE_LEN + TAG_LEN <= isize::MAX,
        ensures
            encrypts(self@, plaintext@, r@),
    {
        let nonce = random_bytes(NONCE_LEN);
        self.encrypt_with(nonce, plaintext)
    }

    /// Encrypts a payload under the given nonce.
    pub fn encrypt_with(&self, nonce: Vec<u8>, plaintext: &[u8]) -> (r: Vec<u8>)
        requires
            self.wf(),
            nonce@.len() == NONCE_LEN,
            plaintext@.len() <= MAX_PLAINTEXT,
            plaintext@.len() + NONCE_LEN + TAG_LEN <= isize::MAX,
        ensures
            r@ == nonce@ + sealed(self@, nonce@, plaintext@),
            encrypts(self@, plaintext@, r@),
    {
        let ciphertext = seal(self.key.as_slice(), nonce.as_slice(), plaintext);
        let ghost head = nonce@;
        let mut out = nonce;
        out.extend_from_slice(ciphertext.as_slice());
        proof {
            assert(out@ =~= head + ciphertext@);
            assert(out@.take(NONCE_LEN as int) =~= head);
            assert(out@.skip(NONCE_LEN as int) =~= ciphertext@);
        }
        out
    }

    /// Decrypts a payload, if it was encrypted under the same key and is unchanged.
    pub fn decrypt(&self, data: &[u8]) -> (r: Option<Vec<u8>>)
        requires
            self.wf(),
        ensures
            r is Some == decrypted(self@, data@) is Some,
            r matches Some(p) ==> Some(p@) == decrypted(self@, data@),
    {
        if data.len() < NONCE_LEN + TAG_LEN {
            return None;
        }
        if (data.len() - NONCE_LEN - TAG_LEN) as u64 > MAX_PLAINTEXT {
            return None;
        }
        let nonce = slice_subrange(data, 0, NONCE_LEN);
        let body = slice_subrange(data, NONCE_LEN, data.len());
        assert(nonce@ =~= data@.take(NONCE_LEN as int));
        assert(body@ =~= data@.skip(NONCE_LEN as int));
        unseal(self.key.as_slice(), nonce, body)
    }
}

} // verus!
