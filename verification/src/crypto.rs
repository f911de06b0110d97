//! Key derivation and authenticated encryption of note contents.
//!
//! A key is 32 bytes derived from a passphrase and a per-account salt with
//! Argon2id. A ciphertext on the wire is `base64(nonce ‖ sealed)`, where the
//! nonce is 12 fresh random bytes and `sealed` is the ChaCha20-Poly1305 output
//! (ciphertext followed by the 16-byte tag).
//!
//! The primitives themselves are not verified here. Each is reached through one
//! private wrapper whose contract is believed by the verifier; the doc comment
//! of each wrapper says what is claimed of the outside function.

use vstd::prelude::*;
use vstd::utf8::*;
use vstd::string::*;
use vstd::slice::slice_subrange;
use zeroize::Zeroizing;
use base64::Engine;
use chacha20poly1305::aead::Aead;
use chacha20poly1305::KeyInit;
use argon2::password_hash::rand_core::RngCore;

verus! {

/// Length in bytes of a derived key.
pub const KEY_LEN: usize = 32;

/// Length in bytes of the nonce that prefixes every payload.
pub const NONCE_LEN: usize = 12;

/// Length in bytes of the Poly1305 tag that ends every sealed message.
pub const TAG_LEN: usize = 16;

/// Length in bytes of a freshly generated salt.
pub const SALT_LEN: usize = 16;

/// Argon2id memory cost, in KiB.
pub const ARGON2_M_COST: u32 = 65536;

/// Argon2id number of passes.
pub const ARGON2_T_COST: u32 = 3;

/// Argon2id degree of parallelism.
pub const ARGON2_P_COST: u32 = 4;

/// Why a cryptographic operation was refused.
#[derive(Debug, Clone, Copy, PartialEq, Eq, Structural)]
pub enum CryptoError {
    /// The salt is not valid base64.
    InvalidInput,
    /// Argon2id refused the decoded salt or the passphrase.
    KeyDerivation,
    /// The plaintext is too long to be sealed or encoded.
    Encryption,
    /// The decoded payload is shorter than a nonce.
    PayloadTooShort,
    /// The tag does not match: wrong key or tampered payload.
    IntegrityFailure,
    /// The payload is not valid base64, or the plaintext is not valid UTF-8.
    Encoding,
}

impl CryptoError {
    /// A short description of the error.
    pub fn message(&self) -> (s: &'static str)
        ensures
            s@ == match *self {
                CryptoError::InvalidInput => "Failed to decode salt from Base64"@,
                CryptoError::KeyDerivation => "Failed to hash password"@,
                CryptoError::Encryption => "Encryption failed"@,
                CryptoError::PayloadTooShort => "Payload too short (missing nonce)"@,
                CryptoError::IntegrityFailure => "Decryption failed (invalid key or corrupted data)"@,
                CryptoError::Encoding => "Payload is not valid Base64 or UTF-8"@,
            },
    {
        match self {
            CryptoError::InvalidInput => "Failed to decode salt from Base64",
            CryptoError::KeyDerivation => "Failed to hash password",
            CryptoError::Encryption => "Encryption failed",
            CryptoError::PayloadTooShort => "Payload too short (missing nonce)",
            CryptoError::IntegrityFailure => "Decryption failed (invalid key or corrupted data)",
            CryptoError::Encoding => "Payload is not valid Base64 or UTF-8",
        }
    }
}

// ---------------------------------------------------------------------------
// Outside types
// ---------------------------------------------------------------------------

/// A derived 32-byte key inside a `zeroize::Zeroizing` container, which wipes
/// the bytes when the value is dropped. The container is opaque to the
/// verifier; the view of a key is the byte string it holds.
#[verifier::external_body]
pub struct SecretKey {
    bytes: Zeroizing<[u8; 32]>,
}

impl View for SecretKey {
    type V = Seq<u8>;

    open spec fn view(&self) -> Seq<u8> {
        key_bytes(*self)
    }
}

#[verifier::external_type_specification]
#[verifier::external_body]
pub struct ExBase64DecodeError(base64::DecodeError);

#[verifier::external_type_specification]
#[verifier::external_body]
pub struct ExArgon2Error(argon2::Error);

#[verifier::external_type_specification]
#[verifier::external_body]
pub struct ExAeadError(chacha20poly1305::Error);

#[verifier::external_type_specification]
#[verifier::external_body]
pub struct ExFromUtf8Error(std::string::FromUtf8Error);

// ---------------------------------------------------------------------------
// Names for what the outside functions compute
// ---------------------------------------------------------------------------

/// The 32 bytes held inside a key container.
pub uninterp spec fn key_bytes(key: SecretKey) -> Seq<u8>;

/// What standard padded base64 decoding makes of a text; `None` where it is refused.
pub uninterp spec fn base64_decode(text: Seq<char>) -> Option<Seq<u8>>;

/// The standard padded base64 encoding of a byte string.
pub uninterp spec fn base64_encode(bytes: Seq<u8>) -> Seq<char>;

/// The 32-byte Argon2id (version 0x13) hash of a password under a salt and cost
/// parameters; `None` where Argon2 refuses its inputs.
pub uninterp spec fn argon2id_hash(
    m_cost: u32,
    t_cost: u32,
    p_cost: u32,
    password: Seq<u8>,
    salt: Seq<u8>,
) -> Option<Seq<u8>>;

/// The ChaCha20-Poly1305 sealing of a plaintext under a key and nonce, without
/// associated data: ciphertext followed by tag. `None` where the plaintext is too long.
pub uninterp spec fn chacha20poly1305_seal(key: Seq<u8>, nonce: Seq<u8>, plaintext: Seq<u8>) -> Option<
    Seq<u8>,
>;

/// The plaintext that ChaCha20-Poly1305 recovers from a sealed message under a
/// key and nonce; `None` where the tag does not verify.
pub uninterp spec fn chacha20poly1305_open(key: Seq<u8>, nonce: Seq<u8>, sealed: Seq<u8>) -> Option<
    Seq<u8>,
>;

// ---------------------------------------------------------------------------
// Trusted wrappers
// ---------------------------------------------------------------------------

/// `zeroize::Zeroizing::new`: moves the array into a container that wipes it on drop.
/// Claimed: the container holds exactly the bytes given.
#[verifier::external_body]
fn zeroizing_new(bytes: [u8; 32]) -> (key: SecretKey)
    ensures
        key_bytes(key) == bytes@,
{
    SecretKey { bytes: Zeroizing::new(bytes) }
}

/// `Deref::deref` of `zeroize::Zeroizing`: borrows the array inside.
/// Claimed: the borrowed array is the container's content.
#[verifier::external_body]
fn zeroizing_deref(key: &SecretKey) -> (bytes: &[u8; 32])
    ensures
        bytes@ == key_bytes(*key),
{
    &key.bytes
}

/// `Clone::clone` of `zeroize::Zeroizing`: a second container with a copy of the content.
/// Claimed: the copy holds the same bytes.
#[verifier::external_body]
fn zeroizing_clone(key: &SecretKey) -> (copy: SecretKey)
    ensures
        key_bytes(copy) == key_bytes(*key),
{
    SecretKey { bytes: key.bytes.clone() }
}

/// `base64::Engine::decode` on the `STANDARD` engine.
/// Claimed: the result is a function of the text alone.
#[verifier::external_body]
fn base64_standard_decode(text: &str) -> (r: Result<Vec<u8>, base64::DecodeError>)
    ensures
        match r {
            Ok(bytes) => base64_decode(text@) == Some(bytes@),
            Err(_) => base64_decode(text@) is None,
        },
{
    base64::engine::general_purpose::STANDARD.decode(text)
}

/// `base64::Engine::encode` on the `STANDARD` engine. It panics where the encoded
/// length does not fit in `usize`, which the precondition leaves out.
/// Claimed: the result is a function of the bytes alone; decoding it with the
/// same engine gives the bytes back; and it has four characters for every three
/// bytes, the last group padded.
#[verifier::external_body]
fn base64_standard_encode(bytes: &[u8]) -> (text: String)
    requires
        bytes@.len() / 3 * 4 + 4 <= usize::MAX,
    ensures
        text@ == base64_encode(bytes@),
        base64_decode(text@) == Some(bytes@),
        text@.len() == (bytes@.len() + 2) / 3 * 4,
{
    base64::engine::general_purpose::STANDARD.encode(bytes)
}

/// `argon2::Argon2::hash_password_into` on an Argon2id, version 0x13 context built by
/// `argon2::Params::new` with a 32-byte output. It allocates `m_cost` KiB of working
/// memory, and `Params::new` multiplies `p_cost` by 8 in 32 bits: the precondition
/// leaves out more than 1 GiB and more than 2^24 - 1 lanes.
/// Claimed: the result is a function of the cost parameters, password and salt
/// alone, and a salt shorter than 8 bytes is refused.
#[verifier::external_body]
fn argon2id_derive(m_cost: u32, t_cost: u32, p_cost: u32, password: &[u8], salt: &[u8]) -> (r: Result<
    [u8; 32],
    argon2::Error,
>)
    requires
        m_cost <= 0x10_0000,
        p_cost <= 0xFF_FFFF,
    ensures
        match r {
            Ok(out) => argon2id_hash(m_cost, t_cost, p_cost, password@, salt@) == Some(out@),
            Err(_) => argon2id_hash(m_cost, t_cost, p_cost, password@, salt@) is None,
        },
        r is Ok ==> salt@.len() >= 8,
{
    let params = argon2::Params::new(m_cost, t_cost, p_cost, Some(32))?;
    let ctx = argon2::Argon2::new(argon2::Algorithm::Argon2id, argon2::Version::V0x13, params);
    let mut out = [0u8; 32];
    ctx.hash_password_into(password, salt, &mut out)?;
    Ok(out)
}

/// `aead::Aead::encrypt` of `chacha20poly1305::ChaCha20Poly1305`, without associated data.
/// `Nonce::from_slice` panics on a slice that is not 12 bytes long, which the
/// precondition leaves out.
/// Claimed: the result is a function of key, nonce and plaintext alone; it is
/// refused exactly where the plaintext has 2^32 - 1 blocks of 64 bytes or more;
/// the sealed message is 16 bytes longer than the plaintext; and opening it under
/// the same key and nonce gives the plaintext back.
#[verifier::external_body]
fn aead_seal(key: &[u8; 32], nonce: &[u8], plaintext: &[u8]) -> (r: Result<
    Vec<u8>,
    chacha20poly1305::Error,
>)
    requires
        nonce@.len() == 12,
    ensures
        match r {
            Ok(sealed) => {
                &&& chacha20poly1305_seal(key@, nonce@, plaintext@) == Some(sealed@)
                &&& sealed@.len() == plaintext@.len() + 16
                &&& chacha20poly1305_open(key@, nonce@, sealed@) == Some(plaintext@)
                &&& plaintext@.len() / 64 < 0xFFFF_FFFF
            },
            Err(_) => {
                &&& chacha20poly1305_seal(key@, nonce@, plaintext@) is None
                &&& plaintext@.len() / 64 >= 0xFFFF_FFFF
            },
        },
{
    let cipher = chacha20poly1305::ChaCha20Poly1305::new(key.into());
    cipher.encrypt(chacha20poly1305::Nonce::from_slice(nonce), plaintext)
}

/// `aead::Aead::decrypt` of `chacha20poly1305::ChaCha20Poly1305`, without associated data.
/// `Nonce::from_slice` panics on a slice that is not 12 bytes long, which the
/// precondition leaves out.
/// Claimed: the result is a function of key, nonce and sealed message alone, and a
/// recovered plaintext is 16 bytes shorter than the sealed message.
#[verifier::external_body]
fn aead_open(key: &[u8; 32], nonce: &[u8], sealed: &[u8]) -> (r: Result<
    Vec<u8>,
    chacha20poly1305::Error,
>)
    requires
        nonce@.len() == 12,
    ensures
        match r {
            Ok(plaintext) => {
                &&& chacha20poly1305_open(key@, nonce@, sealed@) == Some(plaintext@)
                &&& plaintext@.len() + 16 == sealed@.len()
            },
            Err(_) => chacha20poly1305_open(key@, nonce@, sealed@) is None,
        },
{
    let cipher = chacha20poly1305::ChaCha20Poly1305::new(key.into());
    cipher.decrypt(chacha20poly1305::Nonce::from_slice(nonce), sealed)
}

/// `rand_core::RngCore::fill_bytes` of `OsRng` on a buffer of `N` bytes.
/// Nothing is claimed of the bytes: they come from the operating system.
#[verifier::external_body]
fn random_bytes<const N: usize>() -> (bytes: [u8; N]) {
    let mut bytes = [0u8; N];
    argon2::password_hash::rand_core::OsRng.fill_bytes(&mut bytes);
    bytes
}

/// `String::from_utf8`.
/// Claimed, as std documents: it succeeds exactly on well-formed UTF-8, and the
/// string then holds the decoded characters.
#[verifier::external_body]
fn string_from_utf8(bytes: Vec<u8>) -> (r: Result<String, std::string::FromUtf8Error>)
    ensures
        r is Ok <==> valid_utf8(bytes@),
        r matches Ok(s) ==> s@ == decode_utf8(bytes@),
{
    String::from_utf8(bytes)
}

// ---------------------------------------------------------------------------
// Keys
// ---------------------------------------------------------------------------

impl SecretKey {
    /// Puts 32 bytes into a container that wipes them on drop.
    pub fn new(bytes: [u8; 32]) -> (key: SecretKey)
        ensures
            key@ == bytes@,
    {
        zeroizing_new(bytes)
    }

    /// Borrows the 32 bytes of the key.
    pub fn as_bytes(&self) -> (bytes: &[u8; 32])
        ensures
            bytes@ == self@,
    {
        zeroizing_deref(self)
    }

    /// A second container with the same bytes, which wipes its own copy on drop.
    pub fn duplicate(&self) -> (copy: SecretKey)
        ensures
            copy@ == self@,
    {
        zeroizing_clone(self)
    }
}

// ---------------------------------------------------------------------------
// Key derivation
// ---------------------------------------------------------------------------

/// What `key_from_hash` makes of an Argon2id outcome.
pub open spec fn spec_key_from_hash(hash: Option<Seq<u8>>) -> Result<Seq<u8>, CryptoError> {
    match hash {
        Some(bytes) => Ok(bytes),
        None => Err(CryptoError::KeyDerivation),
    }
}

/// The key that a passphrase and a decoded salt give.
pub open spec fn spec_derive_from_salt(passphrase: Seq<char>, salt: Seq<u8>) -> Result<
    Seq<u8>,
    CryptoError,
> {
    spec_key_from_hash(
        argon2id_hash(ARGON2_M_COST, ARGON2_T_COST, ARGON2_P_COST, encode_utf8(passphrase), salt),
    )
}

/// The key that a passphrase and a base64 salt give.
pub open spec fn spec_derive_key(passphrase: Seq<char>, salt_b64: Seq<char>) -> Result<
    Seq<u8>,
    CryptoError,
> {
    match base64_decode(salt_b64) {
        None => Err(CryptoError::InvalidInput),
        Some(salt) => spec_derive_from_salt(passphrase, salt),
    }
}

/// Whether a result that carries a key stands for the given abstract result.
pub open spec fn key_result_is(r: Result<SecretKey, CryptoError>, expected: Result<
    Seq<u8>,
    CryptoError,
>) -> bool {
    match r {
        Ok(key) => expected == Ok::<Seq<u8>, CryptoError>(key@),
        Err(e) => expected == Err::<Seq<u8>, CryptoError>(e),
    }
}

/// Turns the outcome of the Argon2id computation into a key: the 32 bytes go
/// into a wiping container, a refusal becomes `KeyDerivation`.
pub fn key_from_hash(hashed: Result<[u8; 32], argon2::Error>) -> (r: Result<SecretKey, CryptoError>)
    ensures
        match hashed {
            Ok(bytes) => r matches Ok(key) && key@ == bytes@,
            Err(_) => r == Err::<SecretKey, CryptoError>(CryptoError::KeyDerivation),
        },
{
    match hashed {
        Ok(bytes) => Ok(SecretKey::new(bytes)),
        Err(_) => Err(CryptoError::KeyDerivation),
    }
}

/// Derives the key from a passphrase and the raw bytes of the salt, with
/// Argon2id at m = 65536 KiB, t = 3, p = 4 and 32 bytes of output.
///
/// A salt shorter than 8 bytes is always refused with `KeyDerivation`.
pub fn derive_key_from_salt(passphrase: &str, salt: &[u8]) -> (r: Result<SecretKey, CryptoError>)
    ensures
        key_result_is(r, spec_derive_from_salt(passphrase@, salt@)),
        salt@.len() < 8 ==> r == Err::<SecretKey, CryptoError>(CryptoError::KeyDerivation),
{
    let hashed = argon2id_derive(
        ARGON2_M_COST,
        ARGON2_T_COST,
        ARGON2_P_COST,
        passphrase.as_bytes(),
        salt,
    );
    key_from_hash(hashed)
}

/// Derives the 32-byte key from a passphrase and a base64-encoded salt.
///
/// The salt handed to Argon2id is the decoded bytes of `salt_b64`. A salt that
/// is not valid base64 gives `InvalidInput`; one that Argon2id refuses gives
/// `KeyDerivation`. The key comes back in a container that wipes it on drop.
pub fn derive_key(passphrase: &str, salt_b64: &str) -> (r: Result<SecretKey, CryptoError>)
    ensures
        key_result_is(r, spec_derive_key(passphrase@, salt_b64@)),
        base64_decode(salt_b64@) is None ==> r == Err::<SecretKey, CryptoError>(
            CryptoError::InvalidInput,
        ),
{
    match base64_standard_decode(salt_b64) {
        Err(_) => Err(CryptoError::InvalidInput),
        Ok(salt) => derive_key_from_salt(passphrase, salt.as_slice()),
    }
}

// ---------------------------------------------------------------------------
// Salt
// ---------------------------------------------------------------------------

/// Encodes the 16 bytes of a salt as base64.
pub fn encode_salt(salt: &[u8; 16]) -> (text: String)
    ensures
        text@ == base64_encode(salt@),
        base64_decode(text@) == Some(salt@),
{
    base64_standard_encode(salt.as_slice())
}

/// Generates a salt for a first-time enable: base64 of 16 random bytes.
pub fn generate_salt() -> (text: String)
    ensures
        exists|salt: Seq<u8>|
            salt.len() == SALT_LEN && text@ == #[trigger] base64_encode(salt) && base64_decode(text@)
                == Some(salt),
{
    let salt: [u8; 16] = random_bytes();
    let text = encode_salt(&salt);
    assert(salt@.len() == SALT_LEN && text@ == base64_encode(salt@));
    text
}

// ---------------------------------------------------------------------------
// Encryption
// ---------------------------------------------------------------------------

/// Whether a byte string of this length can be encoded: the length of its
/// base64 text must fit in `usize`.
pub open spec fn encodable_len(n: int) -> bool {
    n / 3 * 4 + 4 <= usize::MAX
}

/// Whether a text can be encrypted: it has fewer than 2^32 - 1 blocks of 64
/// bytes, and its payload can be encoded.
pub open spec fn sealable(content: Seq<char>) -> bool {
    &&& encode_utf8(content).len() / 64 < 0xFFFF_FFFF
    &&& encodable_len(NONCE_LEN + encode_utf8(content).len() + TAG_LEN)
}

/// Whether a result that carries a text stands for the given abstract result.
pub open spec fn text_result_is(r: Result<String, CryptoError>, expected: Result<
    Seq<char>,
    CryptoError,
>) -> bool {
    match r {
        Ok(text) => expected == Ok::<Seq<char>, CryptoError>(text@),
        Err(e) => expected == Err::<Seq<char>, CryptoError>(e),
    }
}

/// The wire form of a sealed message: `base64(nonce ‖ sealed)`.
pub open spec fn spec_payload(nonce: Seq<u8>, sealed: Option<Seq<u8>>) -> Result<
    Seq<char>,
    CryptoError,
> {
    match sealed {
        None => Err(CryptoError::Encryption),
        Some(bytes) => if encodable_len((nonce + bytes).len() as int) {
            Ok(base64_encode(nonce + bytes))
        } else {
            Err(CryptoError::Encryption)
        },
    }
}

/// The wire form of a plaintext encrypted under a key with a given nonce.
pub open spec fn spec_encrypt_with_nonce(content: Seq<char>, key: Seq<u8>, nonce: Seq<u8>) -> Result<
    Seq<char>,
    CryptoError,
> {
    spec_payload(nonce, chacha20poly1305_seal(key, nonce, encode_utf8(content)))
}

/// What decryption makes of the outcome of opening a sealed message.
pub open spec fn spec_plaintext(opened: Option<Seq<u8>>) -> Result<Seq<char>, CryptoError> {
    match opened {
        None => Err(CryptoError::IntegrityFailure),
        Some(bytes) => if valid_utf8(bytes) {
            Ok(decode_utf8(bytes))
        } else {
            Err(CryptoError::Encoding)
        },
    }
}

/// What decryption makes of a decoded payload: the first 12 bytes are the
/// nonce, the rest is the sealed message.
pub open spec fn spec_open_payload(payload: Seq<u8>, key: Seq<u8>) -> Result<Seq<char>, CryptoError> {
    if payload.len() < NONCE_LEN {
        Err(CryptoError::PayloadTooShort)
    } else {
        spec_plaintext(
            chacha20poly1305_open(
                key,
                payload.subrange(0, NONCE_LEN as int),
                payload.subrange(NONCE_LEN as int, payload.len() as int),
            ),
        )
    }
}

/// What decryption makes of a payload in wire form.
pub open spec fn spec_decrypt(payload_b64: Seq<char>, key: Seq<u8>) -> Result<Seq<char>, CryptoError> {
    match base64_decode(payload_b64) {
        None => Err(CryptoError::Encoding),
        Some(payload) => spec_open_payload(payload, key),
    }
}

/// The UTF-8 form of a text has at least one byte for each character.
pub proof fn lemma_utf8_not_shorter(chars: Seq<char>)
    ensures
        encode_utf8(chars).len() >= chars.len(),
    decreases chars.len(),
{
    if chars.len() > 0 {
        lemma_utf8_not_shorter(chars.drop_first());
    }
}

/// A payload that the cipher does not open under a key is refused under that
/// key with `IntegrityFailure`: a wrong key and a tampered payload look alike.
pub proof fn lemma_unopened_is_integrity_failure(payload_b64: Seq<char>, key: Seq<u8>)
    requires
        base64_decode(payload_b64) matches Some(payload) && payload.len() >= NONCE_LEN
            && chacha20poly1305_open(
            key,
            payload.subrange(0, NONCE_LEN as int),
            payload.subrange(NONCE_LEN as int, payload.len() as int),
        ) is None,
    ensures
        spec_decrypt(payload_b64, key) == Err::<Seq<char>, CryptoError>(
            CryptoError::IntegrityFailure,
        ),
{
}

/// The bytes of `first` followed by the bytes of `second`.
fn concat_bytes(first: &[u8], second: &[u8]) -> (out: Vec<u8>)
    ensures
        out@ == first@ + second@,
{
    let mut out: Vec<u8> = Vec::new();
    let mut i: usize = 0;
    while i < first.len()
        invariant
            i <= first@.len(),
            out@ == first@.subrange(0, i as int),
        decreases first@.len() - i,
    {
        out.push(first[i]);
        i = i + 1;
    }
    assert(out@ == first@);
    let mut j: usize = 0;
    while j < second.len()
        invariant
            j <= second@.len(),
            out@ == first@ + second@.subrange(0, j as int),
        decreases second@.len() - j,
    {
        out.push(second[j]);
        j = j + 1;
    }
    assert(second@.subrange(0, second@.len() as int) == second@);
    out
}

/// Frames the outcome of sealing for the wire: the nonce, then the sealed
/// message, all in base64. A refused sealing, or a frame too long to encode,
/// gives `Encryption`.
pub fn payload_from_sealed(nonce: &[u8; 12], sealed: Result<Vec<u8>, chacha20poly1305::Error>) -> (r:
    Result<String, CryptoError>)
    ensures
        match sealed {
            Ok(bytes) => {
                &&& text_result_is(r, spec_payload(nonce@, Some(bytes@)))
                &&& r matches Ok(text) ==> {
                    &&& base64_decode(text@) == Some(nonce@ + bytes@)
                    &&& text@.len() == (NONCE_LEN + bytes@.len() + 2) / 3 * 4
                }
            },
            Err(_) => r == Err::<String, CryptoError>(CryptoError::Encryption),
        },
{
    match sealed {
        Err(_) => Err(CryptoError::Encryption),
        Ok(bytes) => {
            let payload = concat_bytes(nonce.as_slice(), bytes.as_slice());
            if payload.len() / 3 <= (usize::MAX - 4) / 4 {
                Ok(base64_standard_encode(payload.as_slice()))
            } else {
                Err(CryptoError::Encryption)
            }
        },
    }
}

/// Encrypts a text under a key with the nonce given.
///
/// The result is `base64(nonce ‖ sealed)`. Decrypting it under the same key
/// gives the text back. The caller must never use a nonce twice under one key:
/// `encrypt` draws a fresh one for every call.
pub fn encrypt_with_nonce(content: &str, key: &[u8; 32], nonce: &[u8; 12]) -> (r: Result<
    String,
    CryptoError,
>)
    ensures
        text_result_is(r, spec_encrypt_with_nonce(content@, key@, nonce@)),
        r matches Ok(text) ==> {
            &&& spec_decrypt(text@, key@) == Ok::<Seq<char>, CryptoError>(content@)
            &&& base64_decode(text@) matches Some(payload)
            &&& payload.len() == NONCE_LEN + encode_utf8(content@).len() + TAG_LEN
            &&& text@.len() > content@.len()
        },
        r is Ok <==> sealable(content@),
        r is Err ==> r == Err::<String, CryptoError>(CryptoError::Encryption),
{
    let plaintext = content.as_bytes();
    let sealed = aead_seal(key, nonce.as_slice(), plaintext);
    proof {
        if sealed is Ok {
            let bytes = sealed->Ok_0@;
            let payload = nonce@ + bytes;
            assert(payload.subrange(0, NONCE_LEN as int) == nonce@);
            assert(payload.subrange(NONCE_LEN as int, payload.len() as int) == bytes);
            encode_utf8_valid_utf8(content@);
            encode_utf8_decode_utf8(content@);
            lemma_utf8_not_shorter(content@);
        }
    }
    payload_from_sealed(nonce, sealed)
}

/// Encrypts a text under a key: `base64(nonce ‖ sealed)` with a fresh random
/// 96-bit nonce for every call.
///
/// Decrypting the result under the same key gives the text back. The decoded
/// payload is 28 bytes longer than the text's UTF-8 form. Only a text too long
/// to seal or to encode is refused.
pub fn encrypt(content: &str, key: &[u8; 32]) -> (r: Result<String, CryptoError>)
    ensures
        exists|nonce: Seq<u8>|
            nonce.len() == NONCE_LEN && text_result_is(
                r,
                #[trigger] spec_encrypt_with_nonce(content@, key@, nonce),
            ),
        r matches Ok(text) ==> {
            &&& spec_decrypt(text@, key@) == Ok::<Seq<char>, CryptoError>(content@)
            &&& base64_decode(text@) matches Some(payload)
            &&& payload.len() == NONCE_LEN + encode_utf8(content@).len() + TAG_LEN
            &&& text@.len() > content@.len()
        },
        r is Ok <==> sealable(content@),
        r is Err ==> r == Err::<String, CryptoError>(CryptoError::Encryption),
{
    let nonce: [u8; 12] = random_bytes();
    let r = encrypt_with_nonce(content, key, &nonce);
    assert(nonce@.len() == NONCE_LEN && text_result_is(
        r,
        spec_encrypt_with_nonce(content@, key@, nonce@),
    ));
    r
}

// ---------------------------------------------------------------------------
// Decryption
// ---------------------------------------------------------------------------

/// Turns the outcome of opening a sealed message into the plaintext: a failed
/// tag check is `IntegrityFailure`, bytes that are not UTF-8 are `Encoding`.
pub fn plaintext_from_opened(opened: Result<Vec<u8>, chacha20poly1305::Error>) -> (r: Result<
    String,
    CryptoError,
>)
    ensures
        match opened {
            Ok(bytes) => text_result_is(r, spec_plaintext(Some(bytes@))),
            Err(_) => r == Err::<String, CryptoError>(CryptoError::IntegrityFailure),
        },
{
    match opened {
        Err(_) => Err(CryptoError::IntegrityFailure),
        Ok(bytes) => match string_from_utf8(bytes) {
            Ok(text) => Ok(text),
            Err(_) => Err(CryptoError::Encoding),
        },
    }
}

/// Decrypts a decoded payload: 12 bytes of nonce, then the sealed message.
///
/// A payload shorter than 12 bytes is refused with `PayloadTooShort` before
/// the cipher is consulted.
pub fn open_payload(payload: &[u8], key: &[u8; 32]) -> (r: Result<String, CryptoError>)
    ensures
        text_result_is(r, spec_open_payload(payload@, key@)),
        payload@.len() < NONCE_LEN ==> r == Err::<String, CryptoError>(CryptoError::PayloadTooShort),
        payload@.len() >= NONCE_LEN ==> r != Err::<String, CryptoError>(CryptoError::PayloadTooShort),
{
    if payload.len() < NONCE_LEN {
        return Err(CryptoError::PayloadTooShort);
    }
    let nonce = slice_subrange(payload, 0, NONCE_LEN);
    let sealed = slice_subrange(payload, NONCE_LEN, payload.len());
    plaintext_from_opened(aead_open(key, nonce, sealed))
}

/// Decrypts a payload in wire form, `base64(nonce ‖ sealed)`, into its text.
///
/// Errors, in the order they are looked for: `Encoding` where the payload is
/// not base64; `PayloadTooShort` where it decodes to fewer than 12 bytes;
/// `IntegrityFailure` where the tag does not verify under this key;
/// `Encoding` where the plaintext is not UTF-8.
pub fn decrypt(payload_b64: &str, key: &[u8; 32]) -> (r: Result<String, CryptoError>)
    ensures
        text_result_is(r, spec_decrypt(payload_b64@, key@)),
{
    match base64_standard_decode(payload_b64) {
        Err(_) => Err(CryptoError::Encoding),
        Ok(payload) => open_payload(payload.as_slice(), key),
    }
}

} // verus!
