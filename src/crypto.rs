//! Key derivation (Argon2id), authenticated encryption (AES-256-GCM) with a
//! fresh random nonce per record, and clearing of sensitive bytes.

use vstd::prelude::*;
use vstd::string::StringSliceAdditionalSpecFns;
use aes_gcm::aead::{Aead, KeyInit};
use rand::RngCore;
use zeroize::Zeroize;
use crate::codec::{base64_decoded, base64_of, decode_b64, encode_b64};
use crate::error::VaultError;

verus! {

#[verifier::external_type_specification]
#[verifier::external_body]
pub struct ExArgon2Error(argon2::Error);

#[verifier::external_type_specification]
#[verifier::external_body]
pub struct ExAeadError(aes_gcm::Error);

/// Argon2 cost parameters, fixed when a vault is created.
#[derive(Clone, Copy, Debug, PartialEq, Eq, Structural)]
pub struct KdfParams {
    pub m_cost_kib: u32,
    pub t_cost: u32,
    pub p_cost: u32,
}

/// Length in bytes of an AES-GCM nonce.
pub const NONCE_LEN: usize = 12;

/// Length in bytes of an AES-GCM authentication tag.
pub const TAG_LEN: usize = 16;

/// Largest plaintext, in bytes, that AES-GCM seals.
pub const MAX_PLAINTEXT_LEN: u64 = 68719476736;

/// Cost parameters that Argon2 accepts.
pub open spec fn kdf_accepted(kdf: KdfParams) -> bool {
    &&& 8 <= kdf.m_cost_kib
    &&& 1 <= kdf.t_cost
    &&& 1 <= kdf.p_cost <= 0xFF_FFFF
    &&& kdf.p_cost * 8 <= kdf.m_cost_kib
}

/// Inputs on which Argon2 derives a key.
pub open spec fn derivation_accepted(password: Seq<u8>, salt: Seq<u8>, kdf: KdfParams) -> bool {
    &&& kdf_accepted(kdf)
    &&& 8 <= salt.len() <= 0xFFFF_FFFF
    &&& password.len() <= 0xFFFF_FFFF
}

/// The 32-byte Argon2id (version 0x13) hash of a password under a salt and costs.
pub uninterp spec fn argon2id_key(
    password: Seq<u8>,
    salt: Seq<u8>,
    m_cost_kib: u32,
    t_cost: u32,
    p_cost: u32,
) -> Seq<u8>;

/// The key derived from a password, or the reason there is none.
pub open spec fn derived_key(password: Seq<u8>, salt: Seq<u8>, kdf: KdfParams) -> Result<
    Seq<u8>,
    VaultError,
> {
    if derivation_accepted(password, salt, kdf) {
        Ok(argon2id_key(password, salt, kdf.m_cost_kib, kdf.t_cost, kdf.p_cost))
    } else {
        Err(VaultError::InvalidParameters)
    }
}

/// AES-256-GCM ciphertext (tag appended) of a plaintext under a key and nonce.
pub uninterp spec fn aes_gcm_sealed(key: Seq<u8>, nonce: Seq<u8>, plaintext: Seq<u8>) -> Seq<u8>;

/// The plaintext that AES-256-GCM recovers from a ciphertext, if its tag verifies.
pub uninterp spec fn aes_gcm_opened(key: Seq<u8>, nonce: Seq<u8>, ciphertext: Seq<u8>) -> Option<
    Seq<u8>,
>;

/// What a record of base64 nonce and base64 ciphertext opens to under a key.
pub open spec fn opened_record(key: Seq<u8>, nonce_b64: Seq<char>, ct_b64: Seq<char>) -> Option<
    Seq<u8>,
> {
    match (base64_decoded(nonce_b64), base64_decoded(ct_b64)) {
        (Some(nonce), Some(ct)) => if nonce.len() == NONCE_LEN {
            aes_gcm_opened(key, nonce, ct)
        } else {
            None
        },
        _ => None,
    }
}

/// Relies on argon2's `Params::new`, `Argon2::new` (Argon2id, version 0x13)
/// and `Argon2::hash_password_into`: a 32-byte hash of the inputs, refused
/// exactly where `Params::new` or `verify_inputs` refuse them. The bound on
/// `p_cost` keeps `Params::new`'s `p_cost * 8` from overflowing.
#[verifier::external_body]
fn argon2id_hash(password: &[u8], salt: &[u8], kdf: KdfParams) -> (r: Result<
    [u8; 32],
    argon2::Error,
>)
    requires
        kdf.p_cost <= 0xFF_FFFF,
    ensures
        r is Ok <==> derivation_accepted(password@, salt@, kdf),
        r matches Ok(k) ==> k@ == argon2id_key(
            password@,
            salt@,
            kdf.m_cost_kib,
            kdf.t_cost,
            kdf.p_cost,
        ),
{
    let params = argon2::Params::new(kdf.m_cost_kib, kdf.t_cost, kdf.p_cost, Some(32))?;
    let hasher = argon2::Argon2::new(argon2::Algorithm::Argon2id, argon2::Version::V0x13, params);
    let mut key = [0u8; 32];
    hasher.hash_password_into(password, salt, &mut key)?;
    Ok(key)
}

/// Relies on aes-gcm's `Aes256Gcm::encrypt`: refused only for plaintexts over
/// `P_MAX` (2^36 bytes); the 16-byte tag is appended to the ciphertext, and
/// `decrypt` under the same key and nonce gives the plaintext back.
#[verifier::external_body]
fn aes_gcm_seal(key: &[u8; 32], nonce: &[u8], plaintext: &[u8]) -> (r: Result<
    Vec<u8>,
    aes_gcm::Error,
>)
    requires
        nonce@.len() == NONCE_LEN,
    ensures
        r is Ok <==> plaintext@.len() <= MAX_PLAINTEXT_LEN,
        r matches Ok(c) ==> c@ == aes_gcm_sealed(key@, nonce@, plaintext@),
        r matches Ok(c) ==> c@.len() == plaintext@.len() + TAG_LEN,
        r matches Ok(c) ==> aes_gcm_opened(key@, nonce@, c@) == Some(plaintext@),
{
    let cipher = aes_gcm::Aes256Gcm::new(aes_gcm::Key::<aes_gcm::Aes256Gcm>::from_slice(key));
    cipher.encrypt(aes_gcm::Nonce::from_slice(nonce), plaintext)
}

/// Relies on aes-gcm's `Aes256Gcm::decrypt`, which fails when the tag does
/// not verify and strips the 16-byte tag otherwise. `Nonce::from_slice`
/// panics on any length but 12.
#[verifier::external_body]
fn aes_gcm_open(key: &[u8; 32], nonce: &[u8], ciphertext: &[u8]) -> (r: Result<
    Vec<u8>,
    aes_gcm::Error,
>)
    requires
        nonce@.len() == NONCE_LEN,
    ensures
        match r {
            Ok(p) => aes_gcm_opened(key@, nonce@, ciphertext@) == Some(p@) && ciphertext@.len()
                == p@.len() + TAG_LEN,
            Err(_) => aes_gcm_opened(key@, nonce@, ciphertext@) is None,
        },
{
    let cipher = aes_gcm::Aes256Gcm::new(aes_gcm::Key::<aes_gcm::Aes256Gcm>::from_slice(key));
    cipher.decrypt(aes_gcm::Nonce::from_slice(nonce), ciphertext)
}

/// Relies on rand's `OsRng.fill_bytes`: `len` bytes from the operating
/// system's random source.
#[verifier::external_body]
pub(crate) fn random_bytes(len: usize) -> (r: Vec<u8>)
    ensures
        r@.len() == len,
{
    let mut bytes = vec![0u8; len];
    rand::rngs::OsRng.fill_bytes(&mut bytes);
    bytes
}

/// Relies on zeroize's `Zeroize` for `[u8]`: every byte becomes zero.
#[verifier::external_body]
fn wipe(bytes: &mut [u8])
    ensures
        final(bytes)@ == Seq::new(old(bytes)@.len(), |_i: int| 0u8),
{
    bytes.zeroize();
}

/// Derives the vault key from a password, a salt and cost parameters.
pub fn derive_key(master_password: &str, salt: &[u8], kdf: KdfParams) -> (r: Result<
    [u8; 32],
    VaultError,
>)
    ensures
        match r {
            Ok(k) => derived_key(master_password.spec_bytes(), salt@, kdf) == Ok::<
                Seq<u8>,
                VaultError,
            >(k@),
            Err(e) => derived_key(master_password.spec_bytes(), salt@, kdf) == Err::<
                Seq<u8>,
                VaultError,
            >(e),
        },
{
    if kdf.p_cost > 0xFF_FFFF {
        return Err(VaultError::InvalidParameters);
    }
    match argon2id_hash(master_password.as_bytes(), salt, kdf) {
        Ok(k) => Ok(k),
        Err(_) => Err(VaultError::InvalidParameters),
    }
}

/// Seals a plaintext under a key and a given nonce; returns the nonce and
/// the ciphertext (tag appended), both base64.
pub fn seal_with_nonce(key: &[u8; 32], nonce: &[u8], plaintext: &[u8]) -> (r: Result<
    (String, String),
    VaultError,
>)
    requires
        nonce@.len() == NONCE_LEN,
    ensures
        r is Ok <==> plaintext@.len() <= MAX_PLAINTEXT_LEN,
        r matches Ok((n, c)) ==> n@ == base64_of(nonce@) && c@ == base64_of(
            aes_gcm_sealed(key@, nonce@, plaintext@),
        ),
        r matches Ok((n, c)) ==> base64_decoded(n@) == Some(nonce@) && base64_decoded(c@)
            == Some(aes_gcm_sealed(key@, nonce@, plaintext@)),
        r is Ok ==> aes_gcm_sealed(key@, nonce@, plaintext@).len() == plaintext@.len() + TAG_LEN,
        r matches Ok((n, c)) ==> opened_record(key@, n@, c@) == Some(plaintext@),
        r matches Err(e) ==> e == VaultError::EncryptionFailure,
{
    match aes_gcm_seal(key, nonce, plaintext) {
        Ok(ct) => {
            let nonce_b64 = encode_b64(nonce);
            let ct_b64 = encode_b64(ct.as_slice());
            Ok((nonce_b64, ct_b64))
        },
        Err(_) => Err(VaultError::EncryptionFailure),
    }
}

/// What a record of base64 nonce and base64 ciphertext is when it seals a
/// plaintext under a key with the given nonce.
pub open spec fn record_seals(
    key: Seq<u8>,
    nonce: Seq<u8>,
    plaintext: Seq<u8>,
    nonce_b64: Seq<char>,
    ct_b64: Seq<char>,
) -> bool {
    &&& nonce.len() == NONCE_LEN
    &&& nonce_b64 == base64_of(nonce)
    &&& ct_b64 == base64_of(aes_gcm_sealed(key, nonce, plaintext))
    &&& base64_decoded(nonce_b64) == Some(nonce)
    &&& base64_decoded(ct_b64) == Some(aes_gcm_sealed(key, nonce, plaintext))
    &&& aes_gcm_sealed(key, nonce, plaintext).len() == plaintext.len() + TAG_LEN
}

/// Seals a plaintext under a key with a fresh random nonce; returns the
/// nonce and the ciphertext (tag appended), both base64.
pub fn encrypt(key: &[u8; 32], plaintext: &[u8]) -> (r: Result<(String, String), VaultError>)
    ensures
        r is Ok <==> plaintext@.len() <= MAX_PLAINTEXT_LEN,
        r matches Ok((n, c)) ==> exists|nonce: Seq<u8>|
            #[trigger] record_seals(key@, nonce, plaintext@, n@, c@),
        r matches Ok((n, c)) ==> opened_record(key@, n@, c@) == Some(plaintext@),
        r matches Err(e) ==> e == VaultError::EncryptionFailure,
{
    let nonce = random_bytes(NONCE_LEN);
    let r = seal_with_nonce(key, nonce.as_slice(), plaintext);
    if let Ok((n, c)) = &r {
        assert(record_seals(key@, nonce@, plaintext@, n@, c@));
    }
    r
}

/// Opens a sealed payload. A nonce of the wrong length, a wrong key and a
/// tampered ciphertext all give the same `AuthenticationFailure`.
pub fn decrypt(key: &[u8; 32], nonce: &[u8], ct: &[u8]) -> (r: Result<Vec<u8>, VaultError>)
    ensures
        match r {
            Ok(p) => nonce@.len() == NONCE_LEN && aes_gcm_opened(key@, nonce@, ct@) == Some(p@)
                && ct@.len() == p@.len() + TAG_LEN,
            Err(e) => e == VaultError::AuthenticationFailure && (nonce@.len() != NONCE_LEN
                || aes_gcm_opened(key@, nonce@, ct@) is None),
        },
{
    if nonce.len() != NONCE_LEN {
        return Err(VaultError::AuthenticationFailure);
    }
    match aes_gcm_open(key, nonce, ct) {
        Ok(p) => Ok(p),
        Err(_) => Err(VaultError::AuthenticationFailure),
    }
}

/// Opens a record of base64 nonce and ciphertext under a key.
pub fn open_record(key: &[u8; 32], nonce_b64: &str, ct_b64: &str) -> (r: Result<
    Vec<u8>,
    VaultError,
>)
    ensures
        match r {
            Ok(p) => opened_record(key@, nonce_b64@, ct_b64@) == Some(p@),
            Err(e) => opened_record(key@, nonce_b64@, ct_b64@) is None && e
                == VaultError::AuthenticationFailure,
        },
{
    let nonce = match decode_b64(nonce_b64) {
        Ok(n) => n,
        Err(_) => return Err(VaultError::AuthenticationFailure),
    };
    let ct = match decode_b64(ct_b64) {
        Ok(c) => c,
        Err(_) => return Err(VaultError::AuthenticationFailure),
    };
    decrypt(key, nonce.as_slice(), ct.as_slice())
}

/// Overwrites every byte with zero.
pub fn zeroize_bytes(bytes: &mut [u8])
    ensures
        final(bytes)@.len() == old(bytes)@.len(),
        forall|i: int| 0 <= i < final(bytes)@.len() ==> final(bytes)@[i] == 0,
{
    wipe(bytes);
}

/// Clears a plaintext buffer before it is dropped.
pub fn zeroize_vec(v: Vec<u8>) {
    let mut v = v;
    zeroize_bytes(v.as_mut_slice());
}

/// Clears a derived key before it is dropped.
pub fn drop_key(k: [u8; 32]) {
    let mut k = k;
    zeroize_bytes(&mut k);
}

} // verus!
