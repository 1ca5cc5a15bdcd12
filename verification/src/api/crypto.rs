//! Crypto test endpoints
//!
//! Uses AES-256-GCM which is compatible with WebCrypto API

use vstd::prelude::*;
use vstd::utf8::encode_utf8;

use crate::cipher::{aes256gcm_opened, aes256gcm_sealed, open, random_nonce, seal, NONCE_LEN};
use crate::encoding::{
    base64_standard, base64_standard_decoded, decode_standard, encode_standard, utf8_lossy,
    utf8_lossy_text,
};
use crate::http::{ApiError, BAD_REQUEST, INTERNAL_SERVER_ERROR};

verus! {

/// Shared secret for demo (in production, use proper key exchange)
pub const DEMO_SECRET: &'static str = "omni-core-lite-demo-key-32bytes!";

/// Request with encrypted payload
#[derive(Debug)]
pub struct EncryptedRequest {
    /// Base64-encoded nonce (12 bytes for AES-GCM)
    pub nonce: String,
    /// Base64-encoded ciphertext
    pub ciphertext: String,
}

/// Response with encrypted payload
#[derive(Debug)]
pub struct EncryptedResponse {
    /// Base64-encoded nonce
    pub nonce: String,
    /// Base64-encoded ciphertext
    pub ciphertext: String,
    /// Plaintext echo (for debugging - remove in production)
    pub debug_plaintext: Option<String>,
}

/// Health check for crypto endpoint
#[derive(Debug)]
pub struct CryptoHealthResponse {
    pub status: String,
    pub algorithm: String,
    pub key_hint: String,
}

/// POST /api/v1/crypto/encrypt - Encrypt plaintext (for testing)
#[derive(Debug)]
pub struct EncryptRequest {
    pub plaintext: String,
}

/// The bytes of the demo key.
pub open spec fn demo_key() -> Seq<u8> {
    encode_utf8(DEMO_SECRET@)
}

/// What an echo puts in front of the text it was sent.
pub open spec fn echo_prefix() -> Seq<char> {
    "Echo: "@
}

/// The text that an encrypted request carries: what the demo key opens
/// under the request's nonce, read as UTF-8; or the status and the text of
/// the refusal.
pub open spec fn opened_text(nonce: Seq<char>, ciphertext: Seq<char>) -> Result<
    Seq<char>,
    (u16, Seq<char>),
> {
    match base64_standard_decoded(nonce) {
        Err(why) => Err((BAD_REQUEST, "Invalid nonce: "@ + why)),
        Ok(nonce_bytes) => if nonce_bytes.len() != NONCE_LEN {
            Err((BAD_REQUEST, "Nonce must be 12 bytes"@))
        } else {
            match base64_standard_decoded(ciphertext) {
                Err(why) => Err((BAD_REQUEST, "Invalid ciphertext: "@ + why)),
                Ok(sealed) => match aes256gcm_opened(demo_key(), nonce_bytes, sealed) {
                    None => Err((BAD_REQUEST, "Decryption failed"@)),
                    Some(plain) => Ok(utf8_lossy_text(plain)),
                },
            }
        },
    }
}

/// The nonce and the ciphertext, both in base64, that carry `plaintext`
/// under the demo key and `nonce`; or the status and the text of the
/// refusal.
pub open spec fn sealed_text(plaintext: Seq<char>, nonce: Seq<u8>) -> Result<
    (Seq<char>, Seq<char>),
    (u16, Seq<char>),
> {
    match aes256gcm_sealed(demo_key(), nonce, encode_utf8(plaintext)) {
        Some(sealed) => if sealed.len() <= usize::MAX / 2 {
            Ok((base64_standard(nonce), base64_standard(sealed)))
        } else {
            Err((INTERNAL_SERVER_ERROR, "Encryption failed"@))
        },
        None => Err((INTERNAL_SERVER_ERROR, "Encryption failed"@)),
    }
}

/// What an echo answers to an encrypted request, with `nonce` for the
/// answer.
pub open spec fn echo_reply(request_nonce: Seq<char>, ciphertext: Seq<char>, nonce: Seq<u8>) -> Result<
    (Seq<char>, Seq<char>, Seq<char>),
    (u16, Seq<char>),
> {
    match opened_text(request_nonce, ciphertext) {
        Err(refusal) => Err(refusal),
        Ok(text) => match sealed_text(echo_prefix() + text, nonce) {
            Err(refusal) => Err(refusal),
            Ok((n, c)) => Ok((n, c, echo_prefix() + text)),
        },
    }
}

/// The demo key as bytes.
fn demo_key_bytes() -> (key: &'static [u8])
    ensures
        key@ == demo_key(),
        key@.len() == crate::cipher::KEY_LEN,
{
    proof {
        reveal_strlit("omni-core-lite-demo-key-32bytes!");
        assert(DEMO_SECRET@.len() == 32);
        assert(vstd::string::is_ascii(DEMO_SECRET));
        vstd::string::is_ascii_spec_bytes(DEMO_SECRET);
    }
    DEMO_SECRET.as_bytes()
}

/// GET /api/v1/crypto/health - Check crypto endpoint availability
pub fn crypto_health() -> (health: CryptoHealthResponse)
    ensures
        health.status@ == "ok"@,
        health.algorithm@ == "AES-256-GCM"@,
        health.key_hint@ == DEMO_SECRET@,
{
    CryptoHealthResponse {
        status: "ok".to_owned(),
        algorithm: "AES-256-GCM".to_owned(),
        key_hint: DEMO_SECRET.to_owned(),
    }
}

/// The text `label`, then `why`.
fn labelled(label: &str, why: &String) -> (text: String)
    ensures
        text@ == label@ + why@,
{
    let mut text = label.to_owned();
    text.append(why.as_str());
    text
}

/// POST /api/v1/crypto/decrypt - Decrypt ciphertext (for testing)
///
/// Answers with the plaintext.
pub fn crypto_decrypt(req: &EncryptedRequest) -> (response: Result<String, ApiError>)
    ensures
        match response {
            Ok(plaintext) => opened_text(req.nonce@, req.ciphertext@) == Ok::<
                Seq<char>,
                (u16, Seq<char>),
            >(plaintext@),
            Err(error) => opened_text(req.nonce@, req.ciphertext@) == Err::<
                Seq<char>,
                (u16, Seq<char>),
            >((error.status, error.message@)),
        },
{
    // Decode nonce
    let nonce_bytes = match decode_standard(req.nonce.as_str()) {
        Ok(bytes) => bytes,
        Err(why) => {
            return Err(
                ApiError { status: BAD_REQUEST, message: labelled("Invalid nonce: ", &why) },
            );
        },
    };
    if nonce_bytes.len() != NONCE_LEN {
        return Err(ApiError::new(BAD_REQUEST, "Nonce must be 12 bytes"));
    }
    // Decode ciphertext
    let ciphertext = match decode_standard(req.ciphertext.as_str()) {
        Ok(bytes) => bytes,
        Err(why) => {
            return Err(
                ApiError { status: BAD_REQUEST, message: labelled("Invalid ciphertext: ", &why) },
            );
        },
    };
    // Decrypt
    let plaintext = match open(demo_key_bytes(), nonce_bytes.as_slice(), ciphertext.as_slice()) {
        Some(bytes) => bytes,
        None => {
            return Err(ApiError::new(BAD_REQUEST, "Decryption failed"));
        },
    };
    Ok(utf8_lossy(plaintext.as_slice()))
}

/// Encrypts `plaintext` under the demo key and `nonce`.
fn seal_text(plaintext: &str, nonce: &Vec<u8>) -> (sealed: Result<(String, String), ApiError>)
    requires
        nonce@.len() == NONCE_LEN,
    ensures
        match sealed {
            Ok((n, c)) => sealed_text(plaintext@, nonce@) == Ok::<
                (Seq<char>, Seq<char>),
                (u16, Seq<char>),
            >((n@, c@)),
            Err(error) => sealed_text(plaintext@, nonce@) == Err::<
                (Seq<char>, Seq<char>),
                (u16, Seq<char>),
            >((error.status, error.message@)),
        },
{
    let ciphertext = match seal(demo_key_bytes(), nonce.as_slice(), plaintext.as_bytes()) {
        Some(bytes) => bytes,
        None => {
            return Err(ApiError::new(INTERNAL_SERVER_ERROR, "Encryption failed"));
        },
    };
    if ciphertext.len() > usize::MAX / 2 {
        return Err(ApiError::new(INTERNAL_SERVER_ERROR, "Encryption failed"));
    }
    Ok((encode_standard(nonce.as_slice()), encode_standard(ciphertext.as_slice())))
}

/// Encrypts the plaintext of a request under the nonce `nonce`.
pub fn crypto_encrypt_with(req: EncryptRequest, nonce: &Vec<u8>) -> (response: Result<
    EncryptedResponse,
    ApiError,
>)
    requires
        nonce@.len() == NONCE_LEN,
    ensures
        match response {
            Ok(sealed) => sealed_text(req.plaintext@, nonce@) == Ok::<
                (Seq<char>, Seq<char>),
                (u16, Seq<char>),
            >((sealed.nonce@, sealed.ciphertext@)) && crate::models::text_view(
                sealed.debug_plaintext,
            ) == Some(req.plaintext@),
            Err(error) => sealed_text(req.plaintext@, nonce@) == Err::<
                (Seq<char>, Seq<char>),
                (u16, Seq<char>),
            >((error.status, error.message@)),
        },
{
    match seal_text(req.plaintext.as_str(), nonce) {
        Ok((nonce_text, ciphertext)) => Ok(
            EncryptedResponse {
                nonce: nonce_text,
                ciphertext,
                debug_plaintext: Some(req.plaintext),
            },
        ),
        Err(error) => Err(error),
    }
}

/// What is said where the system gives no random bytes.
pub open spec fn no_nonce_text() -> Seq<char> {
    "Random source failed"@
}

/// POST /api/v1/crypto/encrypt - Encrypt plaintext (for testing)
///
/// The nonce is drawn here; where the system gives none, the answer is
/// `500`.
pub fn crypto_encrypt(req: EncryptRequest) -> (response: Result<EncryptedResponse, ApiError>)
    ensures
        match response {
            Ok(sealed) => exists|nonce: Seq<u8>|
                nonce.len() == NONCE_LEN && #[trigger] sealed_text(req.plaintext@, nonce) == Ok::<
                    (Seq<char>, Seq<char>),
                    (u16, Seq<char>),
                >((sealed.nonce@, sealed.ciphertext@)) && crate::models::text_view(
                    sealed.debug_plaintext,
                ) == Some(req.plaintext@),
            Err(error) => error.is(INTERNAL_SERVER_ERROR, no_nonce_text()) || exists|nonce: Seq<u8>|
                nonce.len() == NONCE_LEN && #[trigger] sealed_text(req.plaintext@, nonce) == Err::<
                    (Seq<char>, Seq<char>),
                    (u16, Seq<char>),
                >((error.status, error.message@)),
        },
{
    let nonce = match random_nonce() {
        Some(bytes) => bytes,
        None => {
            return Err(ApiError::new(INTERNAL_SERVER_ERROR, "Random source failed"));
        },
    };
    let response = crypto_encrypt_with(req, &nonce);
    proof {
        match &response {
            Ok(sealed) => {
                assert(sealed_text(req.plaintext@, nonce@) == Ok::<
                    (Seq<char>, Seq<char>),
                    (u16, Seq<char>),
                >((sealed.nonce@, sealed.ciphertext@)));
            },
            Err(error) => {
                assert(sealed_text(req.plaintext@, nonce@) == Err::<
                    (Seq<char>, Seq<char>),
                    (u16, Seq<char>),
                >((error.status, error.message@)));
            },
        }
    }
    response
}

/// Decrypts a request and encrypts the echo under the nonce `nonce`.
pub fn crypto_echo_with(req: &EncryptedRequest, nonce: &Vec<u8>) -> (response: Result<
    EncryptedResponse,
    ApiError,
>)
    requires
        nonce@.len() == NONCE_LEN,
    ensures
        match response {
            Ok(echo) => crate::models::text_view(echo.debug_plaintext) is Some && echo_reply(
                req.nonce@,
                req.ciphertext@,
                nonce@,
            ) == Ok::<(Seq<char>, Seq<char>, Seq<char>), (u16, Seq<char>)>(
                (echo.nonce@, echo.ciphertext@, crate::models::text_view(echo.debug_plaintext)->Some_0),
            ),
            Err(error) => echo_reply(req.nonce@, req.ciphertext@, nonce@) == Err::<
                (Seq<char>, Seq<char>, Seq<char>),
                (u16, Seq<char>),
            >((error.status, error.message@)),
        },
{
    let plaintext = match crypto_decrypt(req) {
        Ok(text) => text,
        Err(error) => {
            return Err(error);
        },
    };
    // Re-encrypt with new nonce
    let response_plaintext = labelled("Echo: ", &plaintext);
    match seal_text(response_plaintext.as_str(), nonce) {
        Ok((nonce_text, ciphertext)) => Ok(
            EncryptedResponse {
                nonce: nonce_text,
                ciphertext,
                debug_plaintext: Some(response_plaintext),
            },
        ),
        Err(error) => Err(error),
    }
}

/// POST /api/v1/crypto/echo - Decrypt, echo back encrypted
///
/// The nonce of the answer is drawn here; where the system gives none, the
/// answer is `500`.
pub fn crypto_echo(req: &EncryptedRequest) -> (response: Result<EncryptedResponse, ApiError>)
    ensures
        match response {
            Ok(echo) => crate::models::text_view(echo.debug_plaintext) is Some && exists|
                nonce: Seq<u8>,
            |
                nonce.len() == NONCE_LEN && #[trigger] echo_reply(
                    req.nonce@,
                    req.ciphertext@,
                    nonce,
                ) == Ok::<(Seq<char>, Seq<char>, Seq<char>), (u16, Seq<char>)>(
                    (
                        echo.nonce@,
                        echo.ciphertext@,
                        crate::models::text_view(echo.debug_plaintext)->Some_0,
                    ),
                ),
            Err(error) => error.is(INTERNAL_SERVER_ERROR, no_nonce_text()) || exists|nonce: Seq<u8>|
                nonce.len() == NONCE_LEN && #[trigger] echo_reply(
                    req.nonce@,
                    req.ciphertext@,
                    nonce,
                ) == Err::<(Seq<char>, Seq<char>, Seq<char>), (u16, Seq<char>)>(
                    (error.status, error.message@),
                ),
        },
{
    let nonce = match random_nonce() {
        Some(bytes) => bytes,
        None => {
            return Err(ApiError::new(INTERNAL_SERVER_ERROR, "Random source failed"));
        },
    };
    let response = crypto_echo_with(req, &nonce);
    proof {
        match &response {
            Ok(echo) => {
                assert(echo_reply(req.nonce@, req.ciphertext@, nonce@) == Ok::<
                    (Seq<char>, Seq<char>, Seq<char>),
                    (u16, Seq<char>),
                >(
                    (
                        echo.nonce@,
                        echo.ciphertext@,
                        crate::models::text_view(echo.debug_plaintext)->Some_0,
                    ),
                ));
            },
            Err(error) => {
                assert(echo_reply(req.nonce@, req.ciphertext@, nonce@) == Err::<
                    (Seq<char>, Seq<char>, Seq<char>),
                    (u16, Seq<char>),
                >((error.status, error.message@)));
            },
        }
    }
    response
}

} // verus!
