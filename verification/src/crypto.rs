//! Encryption of the stored session: AES-256-GCM under a key derived with HKDF-SHA256,
//! the nonce prepended to the ciphertext, the whole written as lowercase hex.
use vstd::prelude::*;
use vstd::utf8::*;
use vstd::slice::slice_subrange;
use crate::text::{chars_of, push_char};
use aes_gcm::aead::{Aead, KeyInit};
use rand::Rng;
use sha2::Digest;

verus! {

broadcast use {encode_utf8_decode_utf8, encode_utf8_valid_utf8};

/// Largest plaintext that AES-GCM encrypts, in bytes (2^36).
pub open spec fn max_plaintext() -> nat {
    0x10_0000_0000
}

/// Length of the nonce, in bytes.
pub open spec fn nonce_len() -> nat {
    12
}

/// The lowercase hex digit of a value below sixteen.
pub open spec fn hex_digit(v: nat) -> char {
    if v < 10 {
        (v + 48) as char
    } else {
        (v + 87) as char
    }
}

/// Lowercase hex text of bytes: two digits per byte, high nibble first.
pub open spec fn hex_text(b: Seq<u8>) -> Seq<char> {
    Seq::new(
        2 * b.len(),
        |i: int|
            if i % 2 == 0 {
                hex_digit((b[i / 2] / 16) as nat)
            } else {
                hex_digit((b[i / 2] % 16) as nat)
            },
    )
}

/// The character is a hex digit of either case.
pub open spec fn is_hex_char(c: char) -> bool {
    ('0' <= c && c <= '9') || ('a' <= c && c <= 'f') || ('A' <= c && c <= 'F')
}

/// Value of a hex digit.
pub open spec fn hex_value(c: char) -> nat {
    if '0' <= c && c <= '9' {
        ((c as u32) - 48) as nat
    } else if 'a' <= c && c <= 'f' {
        ((c as u32) - 87) as nat
    } else {
        ((c as u32) - 55) as nat
    }
}

/// The text is a whole number of bytes written in hex digits.
pub open spec fn is_hex(t: Seq<char>) -> bool {
    t.len() % 2 == 0 && forall|i: int| 0 <= i < t.len() ==> is_hex_char(#[trigger] t[i])
}

/// The bytes a hex text stands for.
pub open spec fn hex_bytes(t: Seq<char>) -> Seq<u8> {
    Seq::new(t.len() / 2, |i: int| (hex_value(t[2 * i]) * 16 + hex_value(t[2 * i + 1])) as u8)
}

/// The ciphertext, tag appended, that AES-256-GCM makes of `plaintext` under `key`
/// and `nonce`, with no associated data.
pub uninterp spec fn aes256gcm_seal(key: Seq<u8>, nonce: Seq<u8>, plaintext: Seq<u8>) -> Seq<u8>;

/// What AES-256-GCM decryption gives for `ciphertext` (tag appended) under `key` and
/// `nonce`, with no associated data: the plaintext, or `None` when it is refused.
pub uninterp spec fn aes256gcm_open(key: Seq<u8>, nonce: Seq<u8>, ciphertext: Seq<u8>) -> Option<Seq<u8>>;

/// The message of the error that hex decoding reports for a text that is not hex.
pub uninterp spec fn hex_error_text(text: Seq<char>) -> Seq<char>;

/// The message of the error that UTF-8 decoding reports for bytes that are not UTF-8.
pub uninterp spec fn utf8_error_text(bytes: Seq<u8>) -> Seq<char>;

/// SHA-256 digest of the data.
pub uninterp spec fn sha256_digest(data: Seq<u8>) -> Seq<u8>;

/// HKDF-SHA256 output key material of length `len` for the salt, input key material
/// and info.
pub uninterp spec fn hkdf_sha256(salt: Seq<u8>, ikm: Seq<u8>, info: Seq<u8>, len: nat) -> Seq<u8>;

/// Lowercase hex encoding.
///
/// Trusted: `hex::encode`, which writes each byte as two lowercase hex digits,
/// high nibble first.
#[verifier::external_body]
fn hex_encode(data: &[u8]) -> (res: String)
    ensures
        res@ == hex_text(data@),
{
    hex::encode(data)
}

/// Hex decoding; the error's message when the text is not hex.
///
/// Trusted: `hex::decode`, which refuses an odd number of digits or any byte that is
/// not a hex digit of either case (every byte of a non-ASCII character is one), and
/// otherwise reads each pair of digits as a byte, high nibble first. An odd number of
/// bytes is reported as "Odd number of digits"; the message for a bad character
/// (which names it and its position) is left to the name `hex_error_text`.
#[verifier::external_body]
fn hex_decode(text: &str) -> (res: Result<Vec<u8>, String>)
    ensures
        res is Ok <==> is_hex(text@),
        res matches Ok(b) ==> b@ == hex_bytes(text@),
        res matches Err(m) ==> m@ == hex_error_text(text@),
        res matches Err(m) ==> (encode_utf8(text@).len() % 2 == 1 ==> m@ == "Odd number of digits"@),
{
    match hex::decode(text) {
        Ok(b) => Ok(b),
        Err(e) => Err(e.to_string()),
    }
}

/// AES-256-GCM encryption with no associated data.
///
/// Trusted: `Aes256Gcm::new_from_slice` then `Aead::encrypt` of the aes-gcm crate.
/// For a 32-byte key and a plaintext of at most 2^36 bytes it succeeds and returns
/// the ciphertext followed by a 16-byte tag. Decrypting that output under the same
/// key and nonce recomputes the same tag and applies the same keystream again, so it
/// gives the plaintext back.
#[verifier::external_body]
fn aes256gcm_encrypt(key: &[u8; 32], nonce: &[u8], plaintext: &[u8]) -> (res: Option<Vec<u8>>)
    requires
        nonce@.len() == nonce_len(),
        plaintext@.len() <= max_plaintext(),
    ensures
        res is Some,
        res matches Some(c) ==> {
            &&& c@ == aes256gcm_seal(key@, nonce@, plaintext@)
            &&& c@.len() == plaintext@.len() + 16
            &&& aes256gcm_open(key@, nonce@, c@) == Some(plaintext@)
        },
{
    let cipher = aes_gcm::Aes256Gcm::new_from_slice(key).ok()?;
    cipher.encrypt(aes_gcm::Nonce::from_slice(nonce), plaintext).ok()
}

/// AES-256-GCM decryption with no associated data.
///
/// Trusted: `Aes256Gcm::new_from_slice` then `Aead::decrypt` of the aes-gcm crate;
/// `None` is its error, which it gives when the ciphertext is shorter than the
/// 16-byte tag or does not authenticate.
#[verifier::external_body]
fn aes256gcm_decrypt(key: &[u8; 32], nonce: &[u8], ciphertext: &[u8]) -> (res: Option<Vec<u8>>)
    requires
        nonce@.len() == nonce_len(),
    ensures
        match res {
            Some(p) => aes256gcm_open(key@, nonce@, ciphertext@) == Some(p@),
            None => aes256gcm_open(key@, nonce@, ciphertext@) is None,
        },
{
    let cipher = aes_gcm::Aes256Gcm::new_from_slice(key).ok()?;
    cipher.decrypt(aes_gcm::Nonce::from_slice(nonce), ciphertext).ok()
}

/// SHA-256.
///
/// Trusted: `sha2::Sha256` (`new`, `update`, `finalize`), whose output is 32 bytes.
#[verifier::external_body]
fn sha256_bytes(data: &[u8]) -> (res: Vec<u8>)
    ensures
        res@ == sha256_digest(data@),
        res@.len() == 32,
{
    let mut hasher = sha2::Sha256::new();
    hasher.update(data);
    hasher.finalize().to_vec()
}

/// HKDF-SHA256 extract and expand to 32 bytes.
///
/// Trusted: `hkdf::Hkdf::<Sha256>::new(Some(salt), ikm)` then `expand(info, ..)` into
/// 32 bytes, which cannot fail for a length below 255 * 32.
#[verifier::external_body]
fn hkdf_sha256_32(salt: &[u8], ikm: &[u8], info: &[u8]) -> (res: [u8; 32])
    ensures
        res@ == hkdf_sha256(salt@, ikm@, info@, 32),
{
    let hk = hkdf::Hkdf::<sha2::Sha256>::new(Some(salt), ikm);
    let mut okm = [0u8; 32];
    let _ = hk.expand(info, &mut okm);
    okm
}

/// UTF-8 decoding; the error's message when the bytes are not UTF-8.
///
/// Trusted: `String::from_utf8`, documented to fail exactly when the bytes are not
/// valid UTF-8 and otherwise to hold the text they encode. The error's message, which
/// tells where the bad sequence starts, is left to the name `utf8_error_text`.
#[verifier::external_body]
fn utf8_string(bytes: Vec<u8>) -> (res: Result<String, String>)
    ensures
        res is Ok <==> valid_utf8(bytes@),
        res matches Ok(s) ==> s@ == decode_utf8(bytes@),
        res matches Err(m) ==> m@ == utf8_error_text(bytes@),
{
    match String::from_utf8(bytes) {
        Ok(s) => Ok(s),
        Err(e) => Err(e.to_string()),
    }
}

/// Twelve random bytes for a nonce.
///
/// Trusted: `rand::thread_rng().fill`; nothing is claimed of the bytes.
#[verifier::external_body]
fn random_nonce() -> (res: [u8; 12]) {
    let mut nonce = [0u8; 12];
    rand::thread_rng().fill(&mut nonce);
    nonce
}

/// Thirty-two random bytes, for a salt.
///
/// Trusted: `rand::thread_rng().fill`; only the length is claimed.
#[verifier::external_body]
pub fn random_salt() -> (res: Vec<u8>)
    ensures
        res@.len() == 32,
{
    let mut salt = vec![0u8; 32];
    rand::thread_rng().fill(&mut salt[..]);
    salt
}

/// A random index below `n`.
///
/// Trusted: `Rng::gen_range(0..n)` on `rand::thread_rng()`, which panics on an empty
/// range and otherwise returns a value in it.
#[verifier::external_body]
fn random_index(n: usize) -> (res: usize)
    requires
        n > 0,
    ensures
        res < n,
{
    rand::thread_rng().gen_range(0..n)
}

/// Why encryption or decryption failed.
#[derive(PartialEq, Eq, Clone, Debug)]
pub enum CryptoError {
    /// The plaintext is longer than AES-GCM accepts.
    Encryption,
    /// The stored text is not hex; the hex decoder's message.
    InvalidHex(String),
    /// The stored data is shorter than a nonce.
    TooShort,
    /// The ciphertext does not authenticate under the key.
    Decryption,
    /// The decrypted bytes are not UTF-8; the UTF-8 decoder's message.
    InvalidUtf8(String),
}

/// The abstract content of a `CryptoError`.
pub enum CryptoFault {
    Encryption,
    InvalidHex(Seq<char>),
    TooShort,
    Decryption,
    InvalidUtf8(Seq<char>),
}

impl View for CryptoError {
    type V = CryptoFault;

    open spec fn view(&self) -> CryptoFault {
        match self {
            CryptoError::Encryption => CryptoFault::Encryption,
            CryptoError::InvalidHex(d) => CryptoFault::InvalidHex(d@),
            CryptoError::TooShort => CryptoFault::TooShort,
            CryptoError::Decryption => CryptoFault::Decryption,
            CryptoError::InvalidUtf8(d) => CryptoFault::InvalidUtf8(d@),
        }
    }
}

/// The stored form of `plaintext` encrypted under `key` with `nonce`.
pub open spec fn sealed_text(key: Seq<u8>, nonce: Seq<u8>, plaintext: Seq<char>) -> Seq<char> {
    hex_text(nonce + aes256gcm_seal(key, nonce, encode_utf8(plaintext)))
}

/// What decrypting a stored text under `key` gives.
pub open spec fn decrypt_spec(key: Seq<u8>, text: Seq<char>) -> Result<Seq<char>, CryptoFault> {
    if !is_hex(text) {
        Err(CryptoFault::InvalidHex(hex_error_text(text)))
    } else {
        let data = hex_bytes(text);
        if data.len() < nonce_len() {
            Err(CryptoFault::TooShort)
        } else {
            match aes256gcm_open(key, data.subrange(0, 12), data.subrange(12, data.len() as int)) {
                None => Err(CryptoFault::Decryption),
                Some(p) => if valid_utf8(p) {
                    Ok(decode_utf8(p))
                } else {
                    Err(CryptoFault::InvalidUtf8(utf8_error_text(p)))
                },
            }
        }
    }
}

/// The text result as a result over views.
pub open spec fn text_result(r: Result<String, CryptoError>) -> Result<Seq<char>, CryptoFault> {
    match r {
        Ok(s) => Ok(s@),
        Err(e) => Err(e@),
    }
}

proof fn lemma_hex_digit(v: nat)
    requires
        v < 16,
    ensures
        is_hex_char(hex_digit(v)),
        hex_value(hex_digit(v)) == v,
{
}

/// Hex text decodes back to the bytes it was made of.
pub proof fn lemma_hex_round_trip(b: Seq<u8>)
    ensures
        is_hex(hex_text(b)),
        hex_bytes(hex_text(b)) == b,
{
    let t = hex_text(b);
    assert forall|i: int| 0 <= i < t.len() implies is_hex_char(#[trigger] t[i]) by {
        lemma_hex_digit((b[i / 2] / 16) as nat);
        lemma_hex_digit((b[i / 2] % 16) as nat);
    }
    assert forall|i: int| 0 <= i < b.len() implies #[trigger] hex_bytes(t)[i] == b[i] by {
        assert((2 * i) / 2 == i);
        assert((2 * i + 1) / 2 == i);
        assert((2 * i) % 2 == 0);
        assert((2 * i + 1) % 2 == 1);
        lemma_hex_digit((b[i] / 16) as nat);
        lemma_hex_digit((b[i] % 16) as nat);
    }
    assert(hex_bytes(t) =~= b);
}

/// Encrypts `plaintext` under `key` with the given nonce and writes nonce and
/// ciphertext (with its 16-byte tag) as hex. Decrypting the result under the same key gives the plaintext
/// back.
pub fn encrypt_with_nonce(key: &[u8; 32], nonce: &[u8; 12], plaintext: &str) -> (res: Result<String, CryptoError>)
    ensures
        encode_utf8(plaintext@).len() <= max_plaintext() ==> {
            &&& res is Ok
            &&& res->Ok_0@ == sealed_text(key@, nonce@, plaintext@)
            &&& res->Ok_0@.len() == 2 * (nonce_len() + encode_utf8(plaintext@).len() + 16)
            &&& decrypt_spec(key@, res->Ok_0@) == Ok::<Seq<char>, CryptoFault>(plaintext@)
        },
        encode_utf8(plaintext@).len() > max_plaintext() ==> res == Err::<String, CryptoError>(
            CryptoError::Encryption,
        ),
{
    let bytes = plaintext.as_bytes();
    if bytes.len() as u64 > 0x10_0000_0000u64 {
        return Err(CryptoError::Encryption);
    }
    let n = nonce.as_slice();
    let sealed = match aes256gcm_encrypt(key, n, bytes) {
        Some(c) => c,
        None => return Err(CryptoError::Encryption),
    };
    let mut combined: Vec<u8> = Vec::new();
    combined.extend_from_slice(n);
    combined.extend_from_slice(sealed.as_slice());
    let out = hex_encode(combined.as_slice());
    proof {
        let all = combined@;
        assert(all =~= nonce@ + sealed@);
        lemma_hex_round_trip(all);
        assert(all.subrange(0, 12) =~= nonce@);
        assert(all.subrange(12, all.len() as int) =~= sealed@);
    }
    Ok(out)
}

/// Encrypts `plaintext` under `key` with a fresh random nonce and writes nonce and
/// ciphertext as hex. Whatever nonce was drawn, decrypting the result under the same
/// key gives the plaintext back.
pub fn encrypt(key: &[u8; 32], plaintext: &str) -> (res: Result<String, CryptoError>)
    ensures
        encode_utf8(plaintext@).len() <= max_plaintext() ==> {
            &&& res is Ok
            &&& exists|nonce: Seq<u8>|
                nonce.len() == nonce_len() && res->Ok_0@ == sealed_text(key@, nonce, plaintext@)
            &&& res->Ok_0@.len() == 2 * (nonce_len() + encode_utf8(plaintext@).len() + 16)
            &&& decrypt_spec(key@, res->Ok_0@) == Ok::<Seq<char>, CryptoFault>(plaintext@)
        },
        encode_utf8(plaintext@).len() > max_plaintext() ==> res == Err::<String, CryptoError>(
            CryptoError::Encryption,
        ),
{
    let nonce = random_nonce();
    encrypt_with_nonce(key, &nonce, plaintext)
}

/// Decrypts a stored text: hex-decodes it, takes the first twelve bytes as the nonce
/// and the rest as ciphertext, decrypts, and reads the plaintext as UTF-8.
pub fn decrypt(key: &[u8; 32], encrypted_hex: &str) -> (res: Result<String, CryptoError>)
    ensures
        text_result(res) == decrypt_spec(key@, encrypted_hex@),
{
    let data = match hex_decode(encrypted_hex) {
        Ok(d) => d,
        Err(m) => return Err(CryptoError::InvalidHex(m)),
    };
    if data.len() < 12 {
        return Err(CryptoError::TooShort);
    }
    let nonce = slice_subrange(data.as_slice(), 0, 12);
    let ciphertext = slice_subrange(data.as_slice(), 12, data.len());
    let plain = match aes256gcm_decrypt(key, nonce, ciphertext) {
        Some(p) => p,
        None => return Err(CryptoError::Decryption),
    };
    match utf8_string(plain) {
        Ok(s) => Ok(s),
        Err(m) => Err(CryptoError::InvalidUtf8(m)),
    }
}

/// SHA-256 of the data, as lowercase hex.
pub fn sha256(data: &[u8]) -> (res: String)
    ensures
        res@ == hex_text(sha256_digest(data@)),
        res@.len() == 64,
{
    let digest = sha256_bytes(data);
    hex_encode(digest.as_slice())
}

/// The info string under which the session key is derived.
pub open spec fn session_key_info() -> Seq<u8> {
    encode_utf8("jsscli session encryption key"@)
}

/// The session encryption key: HKDF-SHA256 over the master password, salted with the
/// stored salt, for the session-key info string, 32 bytes long.
pub fn derive_session_key(salt: &[u8], master_password: &str) -> (res: [u8; 32])
    ensures
        res@ == hkdf_sha256(salt@, encode_utf8(master_password@), session_key_info(), 32),
{
    let info = "jsscli session encryption key".as_bytes();
    hkdf_sha256_32(salt, master_password.as_bytes(), info)
}

/// The characters a master password is drawn from.
pub open spec fn password_charset() -> Seq<char> {
    "ABCDEFGHIJKLMNOPQRSTUVWXYZabcdefghijklmnopqrstuvwxyz0123456789!@#$%^&*()-_=+"@
}

/// Length of a master password.
pub open spec fn password_len() -> nat {
    32
}

/// The password whose characters are the charset's characters at the given indices.
pub fn password_from_indices(indices: &[usize]) -> (res: String)
    requires
        forall|i: int| 0 <= i < indices@.len() ==> #[trigger] indices@[i] < password_charset().len(),
    ensures
        res@.len() == indices@.len(),
        forall|i: int| 0 <= i < indices@.len() ==> #[trigger] res@[i] == password_charset()[indices@[i] as int],
{
    let charset = chars_of("ABCDEFGHIJKLMNOPQRSTUVWXYZabcdefghijklmnopqrstuvwxyz0123456789!@#$%^&*()-_=+");
    let mut out = String::new();
    let mut i: usize = 0;
    while i < indices.len()
        invariant
            charset@ == password_charset(),
            i <= indices@.len(),
            forall|j: int| 0 <= j < indices@.len() ==> #[trigger] indices@[j] < password_charset().len(),
            out@.len() == i,
            forall|j: int| 0 <= j < i ==> #[trigger] out@[j] == password_charset()[indices@[j] as int],
        decreases indices@.len() - i,
    {
        push_char(&mut out, charset[indices[i]]);
        i = i + 1;
    }
    out
}

/// A fresh master password: 32 characters drawn at random from the charset.
pub fn generate_master_password() -> (res: String)
    ensures
        res@.len() == password_len(),
        forall|i: int| 0 <= i < res@.len() ==> password_charset().contains(#[trigger] res@[i]),
{
    proof {
        reveal_strlit("ABCDEFGHIJKLMNOPQRSTUVWXYZabcdefghijklmnopqrstuvwxyz0123456789!@#$%^&*()-_=+");
    }
    let n: usize = 76;
    let mut indices: Vec<usize> = Vec::new();
    while indices.len() < 32
        invariant
            n == 76,
            n == password_charset().len(),
            indices@.len() <= 32,
            forall|j: int| 0 <= j < indices@.len() ==> #[trigger] indices@[j] < password_charset().len(),
        decreases 32 - indices@.len(),
    {
        let k = random_index(n);
        indices.push(k);
    }
    let res = password_from_indices(indices.as_slice());
    proof {
        assert forall|i: int| 0 <= i < res@.len() implies password_charset().contains(#[trigger] res@[i]) by {
            assert(res@[i] == password_charset()[indices@[i] as int]);
        }
    }
    res
}


/// Why encryption or decryption failed, as a message.
pub open spec fn crypto_message(e: CryptoFault) -> Seq<char> {
    match e {
        CryptoFault::Encryption => "Encryption failed: aead::Error"@,
        CryptoFault::InvalidHex(d) => "Invalid hex: "@ + d,
        CryptoFault::TooShort => "Encrypted data too short"@,
        CryptoFault::Decryption => "Decryption failed: aead::Error"@,
        CryptoFault::InvalidUtf8(d) => d,
    }
}

impl CryptoError {
    /// The message of the failure.
    pub fn message(&self) -> (res: String)
        ensures
            res@ == crypto_message(self@),
    {
        match self {
            CryptoError::Encryption => crate::text::owned("Encryption failed: aead::Error"),
            CryptoError::InvalidHex(d) => {
                let mut m = crate::text::owned("Invalid hex: ");
                crate::text::push_text(&mut m, d.as_str());
                m
            },
            CryptoError::TooShort => crate::text::owned("Encrypted data too short"),
            CryptoError::Decryption => crate::text::owned("Decryption failed: aead::Error"),
            CryptoError::InvalidUtf8(d) => d.clone(),
        }
    }
}

/// Encrypts the serialized session for storage; a failure is a configuration error.
pub fn seal_session_text(key: &[u8; 32], json: &str) -> (res: crate::error::CliResult<String>)
    ensures
        encode_utf8(json@).len() <= max_plaintext() ==> res is Ok && decrypt_spec(key@, res->Ok_0@)
            == Ok::<Seq<char>, CryptoFault>(json@),
        encode_utf8(json@).len() > max_plaintext() ==> res is Err && res->Err_0 is Config
            && res->Err_0->Config_0@ == "Encryption failed: "@ + crypto_message(CryptoFault::Encryption),
{
    match encrypt(key, json) {
        Ok(t) => Ok(t),
        Err(e) => {
            let mut m = crate::text::owned("Encryption failed: ");
            crate::text::push_text(&mut m, e.message().as_str());
            Err(crate::error::CliError::Config(m))
        },
    }
}

/// Decrypts the stored session; any failure means the session has expired.
pub fn open_session_text(key: &[u8; 32], text: &str) -> (res: crate::error::CliResult<String>)
    ensures
        match decrypt_spec(key@, text@) {
            Ok(p) => res is Ok && res->Ok_0@ == p,
            Err(_) => res is Err && res->Err_0 is SessionExpired,
        },
{
    match decrypt(key, text) {
        Ok(s) => Ok(s),
        Err(_) => Err(crate::error::CliError::SessionExpired),
    }
}

} // verus!
