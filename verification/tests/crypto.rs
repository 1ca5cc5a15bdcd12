use aes_gcm::aead::Aead;
use aes_gcm::KeyInit;
use base64::Engine;
use squadz::api::crypto::{
    crypto_decrypt, crypto_echo, crypto_echo_with, crypto_encrypt, crypto_encrypt_with,
    crypto_health, EncryptRequest, EncryptedRequest, DEMO_SECRET,
};
use squadz::http::ApiError;

fn nonce() -> Vec<u8> {
    (0u8..12).collect()
}

fn request(nonce: &str, ciphertext: &str) -> EncryptedRequest {
    EncryptedRequest { nonce: nonce.to_string(), ciphertext: ciphertext.to_string() }
}

fn refusal(error: ApiError) -> (u16, String) {
    (error.status, error.message)
}

#[test]
fn health() {
    let health = crypto_health();
    assert_eq!(health.status, "ok");
    assert_eq!(health.algorithm, "AES-256-GCM");
    assert_eq!(health.key_hint, "omni-core-lite-demo-key-32bytes!");
    assert_eq!(DEMO_SECRET.len(), 32);
}

#[test]
fn encrypt_under_a_given_nonce() {
    let sealed = crypto_encrypt_with(EncryptRequest { plaintext: "hello".to_string() }, &nonce())
        .unwrap();
    assert_eq!(sealed.nonce, "AAECAwQFBgcICQoL");
    assert_eq!(sealed.ciphertext, "NQiFmaneOfhyZhUR80nR4y6151he");
    assert_eq!(sealed.debug_plaintext, Some("hello".to_string()));
}

#[test]
fn decrypt_a_known_ciphertext() {
    let plain = crypto_decrypt(&request("AAECAwQFBgcICQoL", "NQiFmaneOfhyZhUR80nR4y6151he"));
    assert_eq!(plain.unwrap(), "hello");
}

#[test]
fn encrypt_then_decrypt() {
    for text in ["", "hello", "grüße aus 🎯", "a longer text that spans more than one block of the cipher"] {
        let sealed = crypto_encrypt(EncryptRequest { plaintext: text.to_string() }).unwrap();
        let raw = base64::engine::general_purpose::STANDARD.decode(&sealed.nonce).unwrap();
        assert_eq!(raw.len(), 12);
        assert_eq!(sealed.debug_plaintext.as_deref(), Some(text));
        let plain = crypto_decrypt(&request(&sealed.nonce, &sealed.ciphertext)).unwrap();
        assert_eq!(plain, text);
    }
}

#[test]
fn fresh_nonce_for_every_encryption() {
    let a = crypto_encrypt(EncryptRequest { plaintext: "same".to_string() }).unwrap();
    let b = crypto_encrypt(EncryptRequest { plaintext: "same".to_string() }).unwrap();
    assert_ne!(a.nonce, b.nonce);
    assert_ne!(a.ciphertext, b.ciphertext);
}

#[test]
fn decrypt_refuses_what_is_not_right() {
    let good_nonce = "AAECAwQFBgcICQoL";
    let good = "NQiFmaneOfhyZhUR80nR4y6151he";
    assert_eq!(
        refusal(crypto_decrypt(&request("!!!!", good)).unwrap_err()),
        (400, "Invalid nonce: Invalid symbol 33, offset 0.".to_string())
    );
    assert_eq!(
        refusal(crypto_decrypt(&request("AAECAwQFBgcICQo=", good)).unwrap_err()),
        (400, "Nonce must be 12 bytes".to_string())
    );
    assert_eq!(
        refusal(crypto_decrypt(&request("", good)).unwrap_err()),
        (400, "Nonce must be 12 bytes".to_string())
    );
    assert_eq!(
        refusal(crypto_decrypt(&request(good_nonce, "NQiF*")).unwrap_err()),
        (400, "Invalid ciphertext: Invalid symbol 42, offset 4.".to_string())
    );
    assert_eq!(
        refusal(crypto_decrypt(&request(good_nonce, "NQiFmaneOfhyZhUR80nR4y6151hf")).unwrap_err()),
        (400, "Decryption failed".to_string())
    );
    assert_eq!(
        refusal(crypto_decrypt(&request("AAECAwQFBgcICQoM", good)).unwrap_err()),
        (400, "Decryption failed".to_string())
    );
    assert_eq!(
        refusal(crypto_decrypt(&request(good_nonce, "")).unwrap_err()),
        (400, "Decryption failed".to_string())
    );
}

#[test]
fn decrypt_reads_bytes_that_are_no_utf8_leniently() {
    // 0xff 0x68 0x69 under the demo key and the nonce 0..12
    let cipher = {
        let cipher = aes_gcm::Aes256Gcm::new_from_slice(DEMO_SECRET.as_bytes()).unwrap();
        cipher
            .encrypt(aes_gcm::Nonce::from_slice(&nonce()), &[0xffu8, 0x68, 0x69][..])
            .unwrap()
    };
    let text = base64::engine::general_purpose::STANDARD.encode(cipher);
    let plain = crypto_decrypt(&request("AAECAwQFBgcICQoL", &text)).unwrap();
    assert_eq!(plain, "\u{fffd}hi");
}

#[test]
fn echo_under_a_given_nonce() {
    let echo = crypto_echo_with(
        &request("AAECAwQFBgcICQoL", "NQiFmaneOfhyZhUR80nR4y6151he"),
        &nonce(),
    )
    .unwrap();
    assert_eq!(echo.nonce, "AAECAwQFBgcICQoL");
    assert_eq!(echo.ciphertext, "GA6BmvxvkIZGGCj7BLydjU+hF7t8GajivWER");
    assert_eq!(echo.debug_plaintext, Some("Echo: hello".to_string()));
}

#[test]
fn echo_answers_under_a_fresh_nonce() {
    let req = request("AAECAwQFBgcICQoL", "NQiFmaneOfhyZhUR80nR4y6151he");
    let echo = crypto_echo(&req).unwrap();
    assert_ne!(echo.nonce, req.nonce);
    assert_eq!(echo.debug_plaintext, Some("Echo: hello".to_string()));
    let plain = crypto_decrypt(&request(&echo.nonce, &echo.ciphertext)).unwrap();
    assert_eq!(plain, "Echo: hello");
}

#[test]
fn echo_refuses_what_decrypt_refuses() {
    assert_eq!(
        refusal(crypto_echo(&request("AAEC", "NQiF")).unwrap_err()),
        (400, "Nonce must be 12 bytes".to_string())
    );
    assert_eq!(
        refusal(crypto_echo_with(&request("AAECAwQFBgcICQoL", "AAAA"), &nonce()).unwrap_err()),
        (400, "Decryption failed".to_string())
    );
}
