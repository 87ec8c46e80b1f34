//! Password-based encryption of configuration secrets: AES-256-GCM with a key
//! derived from the password by Argon2id.
//!
//! Binary format: `salt (16 bytes) || nonce (12 bytes) || ciphertext+tag`.

use vstd::prelude::*;
use crate::text::chars_to_string;
use crate::text::push_string;
use crate::text::str_chars;
use vstd::string::StringSliceAdditionalSpecFns;
use vstd::utf8::decode_utf8;
use vstd::utf8::encode_utf8;
use vstd::utf8::encode_utf8_decode_utf8;
use vstd::utf8::encode_utf8_valid_utf8;
use vstd::utf8::valid_utf8;
use aes_gcm::aead::rand_core::RngCore;
use aes_gcm::aead::Aead;
use aes_gcm::aead::KeyInit;
use aes_gcm::aead::OsRng;
use aes_gcm::AeadCore;
use aes_gcm::Aes256Gcm;
use aes_gcm::Nonce;
use argon2::Argon2;

verus! {

/// Length of the random salt.
pub const SALT_LEN: usize = 16;

/// Length of the random nonce.
pub const NONCE_LEN: usize = 12;

/// Why encryption or decryption failed.
#[derive(Debug)]
pub enum CryptoError {
    /// The data is shorter than a salt, a nonce and one byte.
    TooShort,
    /// Argon2 refused the inputs; its message.
    KeyDerivation(String),
    /// AES-GCM refused to encrypt.
    EncryptionFailed,
    /// The tag did not verify: wrong password or corrupted data.
    DecryptionFailed,
    /// The decrypted bytes are not UTF-8.
    NotUtf8,
}

/// Longest password (in bytes) that Argon2 accepts.
pub open spec fn max_password_len() -> nat {
    0xFFFF_FFFF
}

/// Longest plaintext (in bytes) that AES-GCM encrypts: 2^36.
pub open spec fn max_plaintext_len() -> nat {
    0x10_0000_0000
}

/// The password's UTF-8 encoding is short enough for Argon2.
pub open spec fn password_fits(pw: Seq<char>) -> bool {
    encode_utf8(pw).len() <= max_password_len()
}

/// The plaintext's UTF-8 encoding is short enough for AES-GCM.
pub open spec fn plaintext_fits(p: Seq<char>) -> bool {
    encode_utf8(p).len() <= max_plaintext_len()
}

/// The 32-byte key that Argon2id (default parameters) derives from a
/// password and a salt.
pub uninterp spec fn argon2_key(password: Seq<u8>, salt: Seq<u8>) -> Seq<u8>;

/// The ciphertext followed by the tag that AES-256-GCM gives for a key, a
/// nonce and a plaintext, without associated data.
pub uninterp spec fn aes_gcm_seal(key: Seq<u8>, nonce: Seq<u8>, plaintext: Seq<u8>) -> Seq<u8>;

/// What AES-256-GCM decryption of a ciphertext (with its tag) gives for a
/// key and a nonce: the plaintext, or nothing when the tag does not verify.
pub uninterp spec fn aes_gcm_open(key: Seq<u8>, nonce: Seq<u8>, ciphertext: Seq<u8>) -> Option<Seq<u8>>;

/// The key derived from a password (as UTF-8) and a salt.
pub open spec fn key_for(pw: Seq<char>, salt: Seq<u8>) -> Seq<u8> {
    argon2_key(encode_utf8(pw), salt)
}

/// `v` is `salt || nonce || ciphertext+tag` of the plaintext `p` under the
/// password `pw`, with this salt and nonce.
pub open spec fn sealed_with(v: Seq<u8>, p: Seq<char>, pw: Seq<char>, salt: Seq<u8>, nonce: Seq<u8>) -> bool {
    let ct = aes_gcm_seal(key_for(pw, salt), nonce, encode_utf8(p));
    &&& salt.len() == SALT_LEN
    &&& nonce.len() == NONCE_LEN
    &&& ct.len() == encode_utf8(p).len() + 16
    &&& v == salt + nonce + ct
}

/// `v` is an encryption of `p` under `pw`, for some salt and nonce.
pub open spec fn encrypted_form(v: Seq<u8>, p: Seq<char>, pw: Seq<char>) -> bool {
    exists|salt: Seq<u8>, nonce: Seq<u8>| sealed_with(v, p, pw, salt, nonce)
}

/// What AES-GCM gives back for `data` under the password `pw`.
pub open spec fn opened(data: Seq<u8>, pw: Seq<char>) -> Option<Seq<u8>> {
    aes_gcm_open(key_for(pw, data.take(16)), data.subrange(16, 28), data.skip(28))
}

/// 16 random bytes from the operating system, by `OsRng.fill_bytes`. The
/// bytes are random; what is claimed is their number. (The call panics only
/// when the operating system cannot give random bytes.)
#[verifier::external_body]
fn random_salt() -> (s: Vec<u8>)
    ensures
        s@.len() == SALT_LEN,
{
    let mut salt = [0u8; SALT_LEN];
    OsRng.fill_bytes(&mut salt);
    salt.to_vec()
}

/// A random 96-bit nonce, by `Aes256Gcm::generate_nonce(&mut OsRng)`. The
/// bytes are random; what is claimed is their number.
#[verifier::external_body]
fn random_nonce() -> (n: Vec<u8>)
    ensures
        n@.len() == NONCE_LEN,
{
    Aes256Gcm::generate_nonce(&mut OsRng).to_vec()
}

/// Argon2id with default parameters, by `Argon2::default().hash_password_into`
/// into a 32-byte buffer. The source refuses a password or salt longer than
/// `0xFFFF_FFFF` bytes and a salt shorter than 8 bytes, and nothing else for
/// a 32-byte output; the derived key is named `argon2_key`. The error is
/// `Display` of Argon2's error.
#[verifier::external_body]
fn derive_key(password: &[u8], salt: &[u8]) -> (r: Result<Vec<u8>, String>)
    ensures
        r is Ok <==> (password@.len() <= max_password_len() && 8 <= salt@.len() <= 0xFFFF_FFFF),
        r matches Ok(k) ==> k@ == argon2_key(password@, salt@) && k@.len() == 32,
{
    let mut key = [0u8; 32];
    match Argon2::default().hash_password_into(password, salt, &mut key) {
        Ok(()) => Ok(key.to_vec()),
        Err(e) => Err(e.to_string()),
    }
}

/// AES-256-GCM encryption, by `Aes256Gcm::new_from_slice(key)` and
/// `Aead::encrypt` with the nonce. With a 32-byte key the source fails only
/// for a plaintext longer than 2^36 bytes; the result is the ciphertext with
/// the 16-byte tag appended, named `aes_gcm_seal`.
#[verifier::external_body]
fn aes_seal(key: &[u8], nonce: &[u8], plaintext: &[u8]) -> (r: Option<Vec<u8>>)
    requires
        key@.len() == 32,
        nonce@.len() == NONCE_LEN,
    ensures
        r is Some <==> plaintext@.len() <= max_plaintext_len(),
        r matches Some(c) ==> c@ == aes_gcm_seal(key@, nonce@, plaintext@) && c@.len() == plaintext@.len() + 16,
{
    let cipher = Aes256Gcm::new_from_slice(key).ok()?;
    cipher.encrypt(Nonce::from_slice(nonce), plaintext).ok()
}

/// AES-256-GCM decryption, by `Aes256Gcm::new_from_slice(key)` and
/// `Aead::decrypt` with the nonce; the outcome is named `aes_gcm_open`. What
/// is claimed beyond the name is the defining property of an AEAD cipher:
/// decrypting what encryption gave under the same key and nonce gives the
/// plaintext back. That a wrong key or altered data is refused is not
/// claimed: it rests on the tag's strength.
#[verifier::external_body]
fn aes_open(key: &[u8], nonce: &[u8], ciphertext: &[u8]) -> (r: Option<Vec<u8>>)
    requires
        key@.len() == 32,
        nonce@.len() == NONCE_LEN,
    ensures
        r is Some <==> aes_gcm_open(key@, nonce@, ciphertext@) is Some,
        r matches Some(p) ==> aes_gcm_open(key@, nonce@, ciphertext@) == Some(p@),
        r is None ==> forall|p: Seq<u8>|
            p.len() <= max_plaintext_len() ==> ciphertext@ != #[trigger] aes_gcm_seal(key@, nonce@, p),
        r matches Some(q) ==> forall|p: Seq<u8>|
            p.len() <= max_plaintext_len() && ciphertext@ == #[trigger] aes_gcm_seal(key@, nonce@, p) ==> q@ == p,
{
    let cipher = Aes256Gcm::new_from_slice(key).ok()?;
    cipher.decrypt(Nonce::from_slice(nonce), ciphertext).ok()
}

/// `String::from_utf8`: the text when the bytes are valid UTF-8.
#[verifier::external_body]
fn utf8_string(bytes: Vec<u8>) -> (r: Option<String>)
    ensures
        r is Some <==> valid_utf8(bytes@),
        r matches Some(s) ==> s@ == decode_utf8(bytes@),
{
    String::from_utf8(bytes).ok()
}

/// The message of a failed key derivation: Argon2's, after a prefix.
fn key_derivation_message(e: &String) -> (m: String)
    ensures
        m@ == "Argon2 key derivation failed: "@ + e@,
{
    let mut c = str_chars("Argon2 key derivation failed: ");
    push_string(&mut c, e);
    chars_to_string(&c)
}

/// Encrypt `plaintext` with a key derived from `password`, under a fresh
/// random salt and nonce.
pub fn encrypt(plaintext: &str, password: &str) -> (r: Result<Vec<u8>, CryptoError>)
    ensures
        r is Ok <==> password_fits(password@) && plaintext_fits(plaintext@),
        !password_fits(password@) ==> r matches Err(CryptoError::KeyDerivation(_)),
        password_fits(password@) && !plaintext_fits(plaintext@) ==> r matches Err(CryptoError::EncryptionFailed),
        r matches Ok(v) ==> encrypted_form(v@, plaintext@, password@),
{
    let salt = random_salt();
    let pw = password.as_bytes();
    let key = match derive_key(pw, salt.as_slice()) {
        Ok(k) => k,
        Err(e) => return Err(CryptoError::KeyDerivation(key_derivation_message(&e))),
    };
    let nonce = random_nonce();
    let pt = plaintext.as_bytes();
    let ct = match aes_seal(key.as_slice(), nonce.as_slice(), pt) {
        Some(c) => c,
        None => return Err(CryptoError::EncryptionFailed),
    };
    let mut out: Vec<u8> = Vec::new();
    let mut i: usize = 0;
    while i < salt.len()
        invariant
            i <= salt@.len(),
            out@ == salt@.take(i as int),
        decreases salt.len() - i,
    {
        out.push(salt[i]);
        assert(out@ =~= salt@.take(i + 1));
        i = i + 1;
    }
    assert(salt@.take(i as int) =~= salt@);
    let mut j: usize = 0;
    while j < nonce.len()
        invariant
            j <= nonce@.len(),
            out@ == salt@ + nonce@.take(j as int),
        decreases nonce.len() - j,
    {
        out.push(nonce[j]);
        assert(out@ =~= salt@ + nonce@.take(j + 1));
        j = j + 1;
    }
    assert(nonce@.take(j as int) =~= nonce@);
    let mut k: usize = 0;
    while k < ct.len()
        invariant
            k <= ct@.len(),
            out@ == salt@ + nonce@ + ct@.take(k as int),
        decreases ct.len() - k,
    {
        out.push(ct[k]);
        assert(out@ =~= salt@ + nonce@ + ct@.take(k + 1));
        k = k + 1;
    }
    assert(ct@.take(k as int) =~= ct@);
    assert(sealed_with(out@, plaintext@, password@, salt@, nonce@));
    Ok(out)
}

/// Decrypt data written by `encrypt` with the same password.
pub fn decrypt(data: &[u8], password: &str) -> (r: Result<String, CryptoError>)
    ensures
        data@.len() < 29 ==> r matches Err(CryptoError::TooShort),
        data@.len() >= 29 && !password_fits(password@) ==> r matches Err(CryptoError::KeyDerivation(_)),
        data@.len() >= 29 && password_fits(password@) ==> match opened(data@, password@) {
            None => r matches Err(CryptoError::DecryptionFailed),
            Some(p) => if valid_utf8(p) {
                r matches Ok(s) && s@ == decode_utf8(p)
            } else {
                r matches Err(CryptoError::NotUtf8)
            },
        },
        forall|p: Seq<char>|
            #[trigger] encrypted_form(data@, p, password@) && password_fits(password@) && plaintext_fits(p)
                ==> (r matches Ok(s) && s@ == p),
{
    if data.len() < SALT_LEN + NONCE_LEN + 1 {
        proof {
            assert forall|p: Seq<char>|
                #[trigger] encrypted_form(data@, p, password@) implies false by {
                let (salt, nonce) = choose|salt: Seq<u8>, nonce: Seq<u8>| sealed_with(data@, p, password@, salt, nonce);
                assert((salt + nonce + aes_gcm_seal(key_for(password@, salt), nonce, encode_utf8(p))).len() >= 44);
            }
        }
        return Err(CryptoError::TooShort);
    }
    let (salt, rest) = data.split_at(SALT_LEN);
    let (nonce, ciphertext) = rest.split_at(NONCE_LEN);
    assert(salt@ == data@.take(16));
    assert(nonce@ =~= data@.subrange(16, 28));
    assert(ciphertext@ =~= data@.skip(28));
    let pw = password.as_bytes();
    let key = match derive_key(pw, salt) {
        Ok(k) => k,
        Err(e) => return Err(CryptoError::KeyDerivation(key_derivation_message(&e))),
    };
    let opened_bytes = aes_open(key.as_slice(), nonce, ciphertext);
    proof {
        assert forall|p: Seq<char>|
            #[trigger] encrypted_form(data@, p, password@) && plaintext_fits(p)
                implies (opened_bytes matches Some(q) && q@ == encode_utf8(p)) by {
            let (s, n) = choose|s: Seq<u8>, n: Seq<u8>| sealed_with(data@, p, password@, s, n);
            let ct = aes_gcm_seal(key_for(password@, s), n, encode_utf8(p));
            assert(data@.take(16) =~= s);
            assert(data@.subrange(16, 28) =~= n);
            assert(data@.skip(28) =~= ct);
            assert(ciphertext@ == aes_gcm_seal(key@, nonce@, encode_utf8(p)));
        }
    }
    let bytes = match opened_bytes {
        Some(b) => b,
        None => return Err(CryptoError::DecryptionFailed),
    };
    proof {
        assert forall|p: Seq<char>|
            #[trigger] encrypted_form(data@, p, password@) && plaintext_fits(p)
                implies valid_utf8(bytes@) && decode_utf8(bytes@) == p by {
            encode_utf8_valid_utf8(p);
            encode_utf8_decode_utf8(p);
        }
    }
    match utf8_string(bytes) {
        Some(s) => Ok(s),
        None => Err(CryptoError::NotUtf8),
    }
}

} // verus!
