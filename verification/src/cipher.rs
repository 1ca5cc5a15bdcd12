//! AES-256-GCM, as the `aes-gcm` crate computes it.

use vstd::prelude::*;

verus! {

/// Bytes in a key.
pub const KEY_LEN: usize = 32;

/// Bytes in a nonce.
pub const NONCE_LEN: usize = 12;

/// What AES-256-GCM makes of `plaintext` under `key` and `nonce`: the
/// ciphertext with its tag, or nothing where the cipher refuses.
pub uninterp spec fn aes256gcm_sealed(key: Seq<u8>, nonce: Seq<u8>, plaintext: Seq<u8>) -> Option<
    Seq<u8>,
>;

/// What AES-256-GCM reads out of `ciphertext` under `key` and `nonce`: the
/// plaintext, or nothing where the tag does not fit.
pub uninterp spec fn aes256gcm_opened(key: Seq<u8>, nonce: Seq<u8>, ciphertext: Seq<u8>) -> Option<
    Seq<u8>,
>;

/// Encrypts with `aead::Aead::encrypt` on an `aes_gcm::Aes256Gcm` that
/// `KeyInit::new_from_slice` makes of `key`. The result depends on key,
/// nonce and plaintext alone. Keys of another length than 32, which
/// `new_from_slice` refuses, and nonces of another length than 12, on
/// which `Nonce::from_slice` panics, are left out.
#[verifier::external_body]
pub(crate) fn seal(key: &[u8], nonce: &[u8], plaintext: &[u8]) -> (sealed: Option<Vec<u8>>)
    requires
        key@.len() == KEY_LEN,
        nonce@.len() == NONCE_LEN,
    ensures
        match sealed {
            Some(bytes) => aes256gcm_sealed(key@, nonce@, plaintext@) == Some(bytes@),
            None => aes256gcm_sealed(key@, nonce@, plaintext@) is None,
        },
{
    let cipher = <aes_gcm::Aes256Gcm as aes_gcm::KeyInit>::new_from_slice(key).ok()?;
    aes_gcm::aead::Aead::encrypt(&cipher, aes_gcm::Nonce::from_slice(nonce), plaintext).ok()
}

/// Decrypts with `aead::Aead::decrypt` on an `aes_gcm::Aes256Gcm` that
/// `KeyInit::new_from_slice` makes of `key`. The result depends on key,
/// nonce and ciphertext alone. Keys of another length than 32, which
/// `new_from_slice` refuses, and nonces of another length than 12, on
/// which `Nonce::from_slice` panics, are left out.
#[verifier::external_body]
pub(crate) fn open(key: &[u8], nonce: &[u8], ciphertext: &[u8]) -> (opened: Option<Vec<u8>>)
    requires
        key@.len() == KEY_LEN,
        nonce@.len() == NONCE_LEN,
    ensures
        match opened {
            Some(bytes) => aes256gcm_opened(key@, nonce@, ciphertext@) == Some(bytes@),
            None => aes256gcm_opened(key@, nonce@, ciphertext@) is None,
        },
{
    let cipher = <aes_gcm::Aes256Gcm as aes_gcm::KeyInit>::new_from_slice(key).ok()?;
    aes_gcm::aead::Aead::decrypt(&cipher, aes_gcm::Nonce::from_slice(nonce), ciphertext).ok()
}

/// Asks `getrandom::getrandom` for the bytes of a nonce. `None` means that
/// the system's random source failed. Only the number of bytes is claimed.
#[verifier::external_body]
pub(crate) fn random_nonce() -> (nonce: Option<Vec<u8>>)
    ensures
        match nonce {
            Some(bytes) => bytes@.len() == NONCE_LEN,
            None => true,
        },
{
    let mut bytes = [0u8; 12];
    match getrandom::getrandom(&mut bytes) {
        Ok(()) => Some(bytes.to_vec()),
        Err(_) => None,
    }
}

} // verus!
