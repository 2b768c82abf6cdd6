//! Authenticated encryption of node messages with AES-256-GCM.
//!
//! A sealed message is the 12-byte nonce followed by the ciphertext and its
//! 16-byte tag.

use vstd::prelude::*;

use aes_gcm::aead::{Aead, KeyInit};
use rand::RngCore;

verus! {

/// What AES-256-GCM produces from a 32-byte key, a 12-byte nonce and a
/// plaintext, with no associated data: the ciphertext followed by the tag.
pub uninterp spec fn aes256gcm_seal(key: Seq<u8>, nonce: Seq<u8>, plaintext: Seq<u8>) -> Seq<u8>;

/// What AES-256-GCM recovers from a 32-byte key, a 12-byte nonce and a
/// ciphertext with its tag: the plaintext, or nothing when authentication
/// fails.
pub uninterp spec fn aes256gcm_open(key: Seq<u8>, nonce: Seq<u8>, sealed: Seq<u8>) -> Option<Seq<u8>>;

/// The longest plaintext AES-GCM accepts, in bytes (`aes_gcm::P_MAX`).
pub open spec fn max_plaintext_len() -> nat {
    68719476736
}

/// Trusted: `aes_gcm::Aes256Gcm::new` and `Aead::encrypt` with an empty
/// associated data. For plaintexts up to `P_MAX` bytes the call succeeds; it
/// returns the ciphertext, as long as the plaintext, followed by the 16-byte
/// tag, and `Aead::decrypt` with the same key and nonce gives the plaintext
/// back.
#[verifier::external_body]
fn seal(key: &[u8; 32], nonce: &[u8; 12], plaintext: &[u8]) -> (sealed: Vec<u8>)
    requires
        plaintext@.len() <= max_plaintext_len(),
    ensures
        sealed@ == aes256gcm_seal(key@, nonce@, plaintext@),
        sealed@.len() == plaintext@.len() + 16,
        aes256gcm_open(key@, nonce@, sealed@) == Some(plaintext@),
{
    let cipher = aes_gcm::Aes256Gcm::new(aes_gcm::Key::<aes_gcm::Aes256Gcm>::from_slice(key));
    cipher.encrypt(aes_gcm::Nonce::from_slice(nonce), plaintext).unwrap()
}

/// Trusted: `aes_gcm::Aes256Gcm::new` and `Aead::decrypt` with an empty
/// associated data; the result is named `aes256gcm_open`. Sealed data shorter
/// than the 16-byte tag is always refused (`aead`'s `decrypt_in_place` checks
/// the length before anything else).
#[verifier::external_body]
fn open(key: &[u8; 32], nonce: &[u8], sealed: &[u8]) -> (plaintext: Option<Vec<u8>>)
    requires
        nonce@.len() == 12,
    ensures
        plaintext.deep_view() == aes256gcm_open(key@, nonce@, sealed@),
        sealed@.len() < 16 ==> plaintext is None,
{
    let cipher = aes_gcm::Aes256Gcm::new(aes_gcm::Key::<aes_gcm::Aes256Gcm>::from_slice(key));
    cipher.decrypt(aes_gcm::Nonce::from_slice(nonce), sealed).ok()
}

/// Trusted: `rand::thread_rng().fill_bytes`, twelve random bytes. Nothing is
/// claimed of their values.
#[verifier::external_body]
fn random_nonce() -> (nonce: [u8; 12]) {
    let mut nonce = [0u8; 12];
    rand::thread_rng().fill_bytes(&mut nonce);
    nonce
}

/// What decrypting `data` with `key` gives: an error for data shorter than a
/// nonce; otherwise the first 12 bytes are the nonce, and the rest must
/// authenticate.
pub open spec fn decryption(key: Seq<u8>, data: Seq<u8>) -> Result<Seq<u8>, ()> {
    if data.len() < 12 {
        Err(())
    } else {
        match aes256gcm_open(key, data.take(12), data.skip(12)) {
            Some(p) => Ok(p),
            None => Err(()),
        }
    }
}

/// Encrypts and decrypts with one fixed 256-bit key.
pub struct CryptoEngine {
    key: [u8; 32],
}

impl View for CryptoEngine {
    type V = Seq<u8>;

    /// The key.
    closed spec fn view(&self) -> Seq<u8> {
        self.key@
    }
}

impl CryptoEngine {
    /// An engine that uses `key`.
    pub fn new(key: &[u8; 32]) -> (e: Self)
        ensures
            e@ == key@,
    {
        CryptoEngine { key: *key }
    }

    /// Encrypts `data` under a fresh random nonce: the result is the nonce
    /// followed by the sealed data, and decrypting it gives `data` back.
    pub fn encrypt(&self, data: &[u8]) -> (out: Vec<u8>)
        requires
            data@.len() <= max_plaintext_len(),
        ensures
            out@.len() == data@.len() + 28,
            out@.skip(12) == aes256gcm_seal(self@, out@.take(12), data@),
            decryption(self@, out@) == Ok::<Seq<u8>, ()>(data@),
    {
        let nonce = random_nonce();
        self.encrypt_with_nonce(&nonce, data)
    }

    /// Encrypts `data` under `nonce`: the result is the nonce followed by the
    /// sealed data, and decrypting it gives `data` back.
    pub fn encrypt_with_nonce(&self, nonce: &[u8; 12], data: &[u8]) -> (out: Vec<u8>)
        requires
            data@.len() <= max_plaintext_len(),
        ensures
            out@ == nonce@ + aes256gcm_seal(self@, nonce@, data@),
            out@.len() == data@.len() + 28,
            out@.take(12) == nonce@,
            out@.skip(12) == aes256gcm_seal(self@, out@.take(12), data@),
            decryption(self@, out@) == Ok::<Seq<u8>, ()>(data@),
    {
        let mut sealed = seal(&self.key, nonce, data);
        let mut out: Vec<u8> = Vec::new();
        for i in 0..12usize
            invariant
                out@ == nonce@.take(i as int),
        {
            out.push(nonce[i]);
            assert(nonce@.take(i + 1) == nonce@.take(i as int).push(nonce@[i as int]));
        }
        let ghost s = sealed@;
        out.append(&mut sealed);
        assert(nonce@.take(12) == nonce@);
        assert(out@ =~= nonce@ + s);
        assert(out@.take(12) =~= nonce@);
        assert(out@.skip(12) =~= s);
        out
    }

    /// Decrypts what [`CryptoEngine::encrypt`] produced: fails on data shorter
    /// than a nonce and on data that does not authenticate under this key.
    pub fn decrypt(&self, data: &[u8]) -> (r: Result<Vec<u8>, ()>)
        ensures
            match r {
                Ok(p) => decryption(self@, data@) == Ok::<Seq<u8>, ()>(p@),
                Err(_) => decryption(self@, data@) is Err,
            },
            data@.len() < 28 ==> r is Err,
    {
        if data.len() < 12 {
            return Err(());
        }
        let nonce = vstd::slice::slice_subrange(data, 0, 12);
        let sealed = vstd::slice::slice_subrange(data, 12, data.len());
        assert(nonce@ =~= data@.take(12));
        assert(sealed@ =~= data@.skip(12));
        match open(&self.key, nonce, sealed) {
            Some(p) => {
                assert(p.deep_view() =~= p@);
                Ok(p)
            },
            None => Err(()),
        }
    }
}

} // verus!
