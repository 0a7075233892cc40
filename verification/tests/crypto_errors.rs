use aes_gcm::aead::{Aead, KeyInit};
use jsscli::crypto::{
    decrypt, derive_session_key, encrypt, encrypt_with_nonce, generate_master_password,
    open_session_text, random_salt, seal_session_text, sha256, CryptoError,
};
use jsscli::error::{exit_code, error_message, format_error, Cause, CliError, JssKind};
use jsscli::text::{decimal_text, parse_usize, trimmed};

fn cause(message: &str, sources: &[&str]) -> Cause {
    Cause { message: message.to_string(), sources: sources.iter().map(|s| s.to_string()).collect() }
}

#[test]
fn encrypt_then_decrypt_gives_back_the_text() {
    let key = [7u8; 32];
    for text in ["", "hello", "{\"account\":\"prod\"}", "ünïcödé ✓"] {
        let sealed = encrypt(&key, text).unwrap();
        assert_eq!(decrypt(&key, &sealed).unwrap(), text);
    }
}

#[test]
fn encrypted_text_is_nonce_and_ciphertext_in_hex() {
    let key = [1u8; 32];
    let nonce = [0xabu8; 12];
    let sealed = encrypt_with_nonce(&key, &nonce, "abc").unwrap();
    assert_eq!(sealed.len(), 2 * (12 + 3 + 16));
    assert!(sealed.starts_with("abababababababababababab"));
    assert!(sealed.chars().all(|c| c.is_ascii_hexdigit() && !c.is_ascii_uppercase()));
    assert_ne!(&sealed[24..30], "616263");
    assert_eq!(decrypt(&key, &sealed.to_uppercase()).unwrap(), "abc");
    let again = encrypt_with_nonce(&key, &nonce, "abc").unwrap();
    assert_eq!(again, sealed);
}

#[test]
fn decrypt_rejects_bad_input() {
    let key = [3u8; 32];
    let odd = CryptoError::InvalidHex("Odd number of digits".to_string());
    assert_eq!(decrypt(&key, "xyz").err(), Some(odd.clone()));
    assert_eq!(decrypt(&key, "abc").err(), Some(odd.clone()));
    assert_eq!(odd.message(), "Invalid hex: Odd number of digits");
    let bad = decrypt(&key, "00zz").err().unwrap();
    assert_eq!(bad, CryptoError::InvalidHex("Invalid character 'z' at position 2".to_string()));
    assert_eq!(bad.message(), "Invalid hex: Invalid character 'z' at position 2");
    assert_eq!(decrypt(&key, "00112233").err(), Some(CryptoError::TooShort));
    let sealed = encrypt(&key, "secret").unwrap();
    assert_eq!(decrypt(&[4u8; 32], &sealed).err(), Some(CryptoError::Decryption));
    let mut tampered = sealed.clone().into_bytes();
    let last = tampered.len() - 1;
    tampered[last] = if tampered[last] == b'0' { b'1' } else { b'0' };
    let tampered = String::from_utf8(tampered).unwrap();
    assert_eq!(decrypt(&key, &tampered).err(), Some(CryptoError::Decryption));
}

#[test]
fn decrypt_reports_text_that_is_not_utf8() {
    let key = [5u8; 32];
    let nonce = [2u8; 12];
    let cipher = aes_gcm::Aes256Gcm::new_from_slice(&key).unwrap();
    let sealed = cipher.encrypt(aes_gcm::Nonce::from_slice(&nonce), &[0x61u8, 0xff][..]).unwrap();
    let mut combined = nonce.to_vec();
    combined.extend_from_slice(&sealed);
    let err = decrypt(&key, &hex::encode(&combined)).err().unwrap();
    let want = "invalid utf-8 sequence of 1 bytes from index 1";
    assert_eq!(err, CryptoError::InvalidUtf8(want.to_string()));
    assert_eq!(err.message(), want);
}

#[test]
fn session_text_round_trip_and_expiry() {
    let key = [9u8; 32];
    let sealed = seal_session_text(&key, "{}").ok().unwrap();
    assert_eq!(open_session_text(&key, &sealed).ok(), Some("{}".to_string()));
    match open_session_text(&[8u8; 32], &sealed) {
        Err(CliError::SessionExpired) => {}
        _ => panic!("expected SessionExpired"),
    }
    assert_eq!(CryptoError::Encryption.message(), "Encryption failed: aead::Error");
}

#[test]
fn sha256_known_digest() {
    assert_eq!(sha256(b"abc"), "ba7816bf8f01cfea414140de5dae2223b00361a396177a9cb410ff61f20015ad");
    assert_eq!(sha256(b""), "e3b0c44298fc1c149afbf4c8996fb92427ae41e4649b934ca495991b7852b855");
}

#[test]
fn session_key_is_hkdf_of_password_with_salt() {
    let salt = [5u8; 32];
    let key = derive_session_key(&salt, "master");
    let hk = hkdf::Hkdf::<sha2::Sha256>::new(Some(&salt), b"master");
    let mut want = [0u8; 32];
    hk.expand(b"jsscli session encryption key", &mut want).unwrap();
    assert_eq!(key, want);
    assert_ne!(derive_session_key(&[6u8; 32], "master"), key);
    assert_ne!(derive_session_key(&salt, "other"), key);
    assert_eq!(random_salt().len(), 32);
}

#[test]
fn master_password_shape() {
    const CHARSET: &str =
        "ABCDEFGHIJKLMNOPQRSTUVWXYZabcdefghijklmnopqrstuvwxyz0123456789!@#$%^&*()-_=+";
    let p = generate_master_password();
    assert_eq!(p.chars().count(), 32);
    assert!(p.chars().all(|c| CHARSET.contains(c)));
    assert_ne!(generate_master_password(), p);
}

#[test]
fn error_messages_and_hints() {
    assert_eq!(format_error(&CliError::Usage("bad".to_string())), "Usage error: bad");
    assert_eq!(
        format_error(&CliError::NotAuthenticated),
        "Not authenticated. Run `jsscli auth login` first.\n\nhint: Run `jsscli account add` then `jsscli auth login`."
    );
    assert_eq!(
        format_error(&CliError::AccountNotFound("prod".to_string())),
        "Account not found: prod\n\nhint: Run `jsscli account list` to see available accounts, or `jsscli account add prod` to create one."
    );
    assert_eq!(
        format_error(&CliError::Io(cause("No such file", &["inner"]))),
        "I/O error: No such file\n  \u{2192} No such file\n  \u{2192} inner"
    );
    assert_eq!(
        format_error(&CliError::Jss(cause("No active session (not authenticated)", &[]), JssKind::NotAuthenticated)),
        "No active session (not authenticated)\n\nhint: The session has expired. Run `jsscli auth login`."
    );
    assert_eq!(
        format_error(&CliError::Jss(cause("Network error: x", &["dns"]), JssKind::Other)),
        "Network error: x\n  \u{2192} dns"
    );
    assert_eq!(error_message(&CliError::TomlDe(cause("bad toml", &[]))), "TOML deserialization error: bad toml");
    assert_eq!(error_message(&CliError::Other("plain".to_string())), "plain");
    assert_eq!(error_message(&CliError::Aborted), "Operation aborted by user");
}

#[test]
fn exit_codes() {
    assert_eq!(exit_code(&CliError::Usage(String::new())), 2);
    assert_eq!(exit_code(&CliError::NotAuthenticated), 3);
    assert_eq!(exit_code(&CliError::Network(String::new())), 4);
    assert_eq!(exit_code(&CliError::Api(String::new())), 5);
    assert_eq!(exit_code(&CliError::SessionExpired), 1);
    assert_eq!(exit_code(&CliError::Config(String::new())), 1);
}

#[test]
fn text_helpers() {
    assert_eq!(trimmed("  \t a b \u{3000}\n"), "a b");
    assert_eq!(trimmed("   "), "");
    assert_eq!(decimal_text(0), "0");
    assert_eq!(decimal_text(1234567890), "1234567890");
    let p = |s: &str| parse_usize(&s.chars().collect::<Vec<char>>());
    assert_eq!(p("42"), Some(42));
    assert_eq!(p("+7"), Some(7));
    assert_eq!(p("+"), None);
    assert_eq!(p(""), None);
    assert_eq!(p("-1"), None);
    assert_eq!(p("1a"), None);
    assert_eq!(p("18446744073709551615"), Some(usize::MAX));
    assert_eq!(p("18446744073709551616"), None);
}
