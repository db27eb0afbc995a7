use aes_gcm::aead::Aead;
use aes_gcm::{Aes256Gcm, Key, KeyInit, Nonce};
use base64::Engine;
use rand::RngCore;
use vstd::prelude::*;
use vstd::utf8::valid_utf8;

use crate::error::JiraError;
use crate::text::{is_white_space, trim_spec, trim_text};

verus! {

/// Largest plaintext, in bytes, that AES-256-GCM accepts.
pub const GCM_P_MAX: u64 = 0x10_0000_0000;

pub const KEY_LEN: usize = 32;

pub const NONCE_LEN: usize = 12;

/// Length of the authentication tag appended to every ciphertext.
pub const TAG_LEN: u64 = 16;

/// Largest ciphertext, tag included, that AES-256-GCM accepts for decryption.
pub const GCM_C_MAX: u64 = 0x10_0000_0010;

/// Length of the padded base64 text of a key.
pub const KEY_TEXT_LEN: usize = 44;

// ---------------------------------------------------------------------------
// Outside primitives
// ---------------------------------------------------------------------------

/// What AES-256-GCM produces (ciphertext followed by the tag) for a key, a
/// nonce and a plaintext, with no associated data.
pub uninterp spec fn aes256_gcm_seal(key: Seq<u8>, nonce: Seq<u8>, plaintext: Seq<u8>) -> Seq<u8>;

/// The symbol of the standard base64 alphabet for a 6-bit value.
pub open spec fn base64_symbol(v: int) -> char {
    if v < 26 {
        (65 + v) as char
    } else if v < 52 {
        (71 + v) as char
    } else if v < 62 {
        (v - 4) as char
    } else if v == 62 {
        '+'
    } else {
        '/'
    }
}

/// The padded standard-alphabet base64 text of some bytes: each group of
/// three bytes gives four symbols of six bits each, and a last group of one or
/// two bytes is completed with `=`.
pub open spec fn base64_standard(b: Seq<u8>) -> Seq<char>
    decreases b.len(),
{
    if b.len() == 0 {
        Seq::empty()
    } else if b.len() == 1 {
        seq![base64_symbol((b[0] as int) / 4), base64_symbol(((b[0] as int) % 4) * 16), '=', '=']
    } else if b.len() == 2 {
        seq![
            base64_symbol((b[0] as int) / 4),
            base64_symbol(((b[0] as int) % 4) * 16 + (b[1] as int) / 16),
            base64_symbol(((b[1] as int) % 16) * 4),
            '=',
        ]
    } else {
        seq![
            base64_symbol((b[0] as int) / 4),
            base64_symbol(((b[0] as int) % 4) * 16 + (b[1] as int) / 16),
            base64_symbol(((b[1] as int) % 16) * 4 + (b[2] as int) / 64),
            base64_symbol((b[2] as int) % 64),
        ] + base64_standard(b.subrange(3, b.len() as int))
    }
}

/// The padded text is four symbols per started group of three bytes, all
/// from the alphabet.
pub proof fn lemma_base64_shape(b: Seq<u8>)
    ensures
        base64_standard(b).len() == 4 * ((b.len() + 2) / 3),
        forall|i: int|
            0 <= i < base64_standard(b).len() ==> is_base64_char(#[trigger] base64_standard(b)[i]),
    decreases b.len(),
{
    if b.len() >= 3 {
        lemma_base64_shape(b.subrange(3, b.len() as int));
        let head = seq![
            base64_symbol((b[0] as int) / 4),
            base64_symbol(((b[0] as int) % 4) * 16 + (b[1] as int) / 16),
            base64_symbol(((b[1] as int) % 16) * 4 + (b[2] as int) / 64),
            base64_symbol((b[2] as int) % 64),
        ];
        let rest = base64_standard(b.subrange(3, b.len() as int));
        assert forall|i: int|
            0 <= i < base64_standard(b).len() implies is_base64_char(
            #[trigger] base64_standard(b)[i],
        ) by {
            if i >= 4 {
                assert(base64_standard(b)[i] == rest[i - 4]);
            }
        }
    }
}

/// What padded standard-alphabet base64 decoding gives for a text, if anything.
pub uninterp spec fn base64_decoded(text: Seq<char>) -> Option<Seq<u8>>;

pub open spec fn is_base64_char(c: char) -> bool {
    ('A' <= c && c <= 'Z') || ('a' <= c && c <= 'z') || ('0' <= c && c <= '9') || c == '+' || c
        == '/' || c == '='
}

/// Relies on aes_gcm's Aes256Gcm through aead::Aead::encrypt: it fails only when
/// the plaintext exceeds `P_MAX`, and otherwise returns the ciphertext (as long
/// as the plaintext) with the 16-byte tag appended.
#[verifier::external_body]
fn aes256_gcm_encrypt(key: &[u8], nonce: &[u8], plaintext: &[u8]) -> (r: Option<Vec<u8>>)
    requires
        key@.len() == KEY_LEN,
        nonce@.len() == NONCE_LEN,
    ensures
        r is Some <==> plaintext@.len() <= GCM_P_MAX,
        r matches Some(c) ==> c@ == aes256_gcm_seal(key@, nonce@, plaintext@),
        r matches Some(c) ==> c@.len() == plaintext@.len() + TAG_LEN,
{
    let cipher = Aes256Gcm::new(Key::<Aes256Gcm>::from_slice(key));
    cipher.encrypt(Nonce::from_slice(nonce), plaintext).ok()
}

/// Relies on aes_gcm's Aes256Gcm through aead::Aead::decrypt: the trailing
/// 16-byte tag is split off, and decryption succeeds exactly when it
/// authenticates, returning the plaintext whose encryption under the same key
/// and nonce is the given ciphertext. Inputs above `C_MAX` plus the tag are
/// left out, so that the plaintext stays within `P_MAX`.
#[verifier::external_body]
fn aes256_gcm_decrypt(key: &[u8], nonce: &[u8], ciphertext: &[u8]) -> (r: Option<Vec<u8>>)
    requires
        key@.len() == KEY_LEN,
        nonce@.len() == NONCE_LEN,
        ciphertext@.len() <= GCM_C_MAX,
    ensures
        r is Some ==> r->0@.len() + TAG_LEN == ciphertext@.len(),
        r is Some ==> aes256_gcm_seal(key@, nonce@, r->0@) == ciphertext@,
        forall|p: Seq<u8>|
            p.len() <= GCM_P_MAX && #[trigger] aes256_gcm_seal(key@, nonce@, p) == ciphertext@
                ==> r is Some && r->0@ == p,
{
    let cipher = Aes256Gcm::new(Key::<Aes256Gcm>::from_slice(key));
    cipher.decrypt(Nonce::from_slice(nonce), ciphertext).ok()
}

/// Relies on rand's OsRng (the operating system's secure source) through
/// RngCore::try_fill_bytes: on success the whole buffer has been drawn.
#[verifier::external_body]
fn os_random_bytes(n: usize) -> (r: Option<Vec<u8>>)
    ensures
        r matches Some(b) ==> b@.len() == n,
{
    let mut buf = vec![0u8; n];
    match rand::rngs::OsRng.try_fill_bytes(&mut buf) {
        Ok(()) => Some(buf),
        Err(_) => None,
    }
}

/// Relies on base64's STANDARD engine through Engine::encode: the padded
/// standard-alphabet text, which that engine decodes back to the same bytes.
#[verifier::external_body]
pub(crate) fn base64_encode(bytes: &[u8]) -> (r: String)
    requires
        bytes@.len() <= usize::MAX / 4,
    ensures
        r@ == base64_standard(bytes@),
        base64_decoded(r@) == Some(bytes@),
{
    base64::engine::general_purpose::STANDARD.encode(bytes)
}

/// Relies on base64's STANDARD engine through Engine::decode.
#[verifier::external_body]
pub(crate) fn base64_decode(text: &str) -> (r: Option<Vec<u8>>)
    ensures
        r matches Some(b) ==> base64_decoded(text@) == Some(b@),
        r is None ==> base64_decoded(text@) is None,
{
    base64::engine::general_purpose::STANDARD.decode(text).ok()
}

/// The text that lossy UTF-8 decoding gives for some bytes, invalid
/// sequences replaced.
pub uninterp spec fn utf8_lossy_of(bytes: Seq<u8>) -> Seq<char>;

/// Relies on String::from_utf8_lossy: the text depends on the bytes alone, and
/// valid UTF-8 is decoded as it stands.
#[verifier::external_body]
pub(crate) fn utf8_lossy(bytes: &[u8]) -> (r: String)
    ensures
        r@ == utf8_lossy_of(bytes@),
        valid_utf8(bytes@) ==> r@ == vstd::utf8::decode_utf8(bytes@),
{
    String::from_utf8_lossy(bytes).to_string()
}

// ---------------------------------------------------------------------------
// Keys
// ---------------------------------------------------------------------------

/// A 256-bit symmetric key.
pub struct CipherKey {
    bytes: Vec<u8>,
}

impl View for CipherKey {
    type V = Seq<u8>;

    closed spec fn view(&self) -> Seq<u8> {
        self.bytes@
    }
}

impl CipherKey {
    #[verifier::type_invariant]
    spec fn inv(&self) -> bool {
        self.bytes@.len() == KEY_LEN
    }

    /// A key from exactly 32 raw bytes.
    pub fn from_bytes(bytes: Vec<u8>) -> (r: Option<CipherKey>)
        ensures
            bytes@.len() == KEY_LEN ==> (r matches Some(k) && k@ == bytes@),
            bytes@.len() != KEY_LEN ==> r is None,
    {
        if bytes.len() == KEY_LEN {
            Some(CipherKey { bytes })
        } else {
            None
        }
    }

    pub fn as_bytes(&self) -> (r: &[u8])
        ensures
            r@ == self@,
            r@.len() == KEY_LEN,
    {
        proof {
            use_type_invariant(self);
        }
        self.bytes.as_slice()
    }
}

/// A fresh key drawn from the operating system's secure random source.
pub fn generate_key() -> (r: Result<CipherKey, JiraError>)
    ensures
        r is Err ==> r == Err::<CipherKey, JiraError>(JiraError::Encryption),
{
    match os_random_bytes(KEY_LEN) {
        Some(bytes) => Ok(CipherKey { bytes }),
        None => Err(JiraError::Encryption),
    }
}

/// The text under which a key is persisted: its padded base64 form.
pub fn key_to_text(key: &CipherKey) -> (r: String)
    ensures
        r@ == base64_standard(key@),
        persisted_key_text(r@, key@),
{
    let bytes = key.as_bytes();
    let r = base64_encode(bytes);
    proof {
        lemma_base64_shape(bytes@);
    }
    r
}

/// What a freshly persisted key text looks like: 44 base64 characters that
/// decode to the key.
pub open spec fn persisted_key_text(text: Seq<char>, key: Seq<u8>) -> bool {
    &&& text.len() == KEY_TEXT_LEN
    &&& key.len() == KEY_LEN
    &&& forall|i: int| 0 <= i < text.len() ==> is_base64_char(#[trigger] text[i])
    &&& base64_decoded(text) == Some(key)
}

/// The key held in a keyring entry: its first 44 characters must decode to
/// exactly 32 bytes.
pub open spec fn keyring_key_spec(text: Seq<char>) -> Option<Seq<u8>> {
    if text.len() < KEY_TEXT_LEN {
        None
    } else {
        match base64_decoded(text.subrange(0, KEY_TEXT_LEN as int)) {
            Some(b) => if b.len() == KEY_LEN {
                Some(b)
            } else {
                None
            },
            None => None,
        }
    }
}

/// The key held in a key file: its trimmed text must decode to exactly 32
/// bytes.
pub open spec fn file_key_spec(text: Seq<char>) -> Option<Seq<u8>> {
    match base64_decoded(trim_spec(text)) {
        Some(b) => if b.len() == KEY_LEN {
            Some(b)
        } else {
            None
        },
        None => None,
    }
}

pub open spec fn key_view(k: Option<CipherKey>) -> Option<Seq<u8>> {
    match k {
        Some(k) => Some(k@),
        None => None,
    }
}

/// The key that a decoding result stands for: exactly 32 decoded bytes.
pub fn key_from_decoded(decoded: Option<Vec<u8>>) -> (r: Option<CipherKey>)
    ensures
        key_view(r) == match decoded {
            Some(b) => if b@.len() == KEY_LEN {
                Some(b@)
            } else {
                None
            },
            None => None,
        },
{
    match decoded {
        Some(b) => CipherKey::from_bytes(b),
        None => None,
    }
}

/// Recovers a key stored in a keyring entry.
pub fn key_from_keyring_text(text: &str) -> (r: Option<CipherKey>)
    ensures
        key_view(r) == keyring_key_spec(text@),
{
    if text.unicode_len() < KEY_TEXT_LEN {
        return None;
    }
    let head = text.substring_char(0, KEY_TEXT_LEN);
    key_from_decoded(base64_decode(head))
}

/// Recovers a key stored in a key file.
pub fn key_from_file_text(text: &str) -> (r: Option<CipherKey>)
    ensures
        key_view(r) == file_key_spec(text@),
{
    key_from_decoded(base64_decode(trim_text(text)))
}

/// What one instance persisted as its key text, a later instance recovers,
/// whether the text sits in a keyring entry or in a key file.
pub proof fn lemma_persisted_key_recovered(text: Seq<char>, key: Seq<u8>)
    requires
        persisted_key_text(text, key),
    ensures
        keyring_key_spec(text) == Some(key),
        file_key_spec(text) == Some(key),
{
    assert(text.subrange(0, KEY_TEXT_LEN as int) =~= text);
    lemma_trim_base64(text);
}

proof fn lemma_trim_base64(text: Seq<char>)
    requires
        forall|i: int| 0 <= i < text.len() ==> is_base64_char(#[trigger] text[i]),
    ensures
        trim_spec(text) == text,
{
    if text.len() > 0 {
        assert(is_base64_char(text[0]));
        assert(is_base64_char(text.last()));
    }
}

// ---------------------------------------------------------------------------
// Envelopes
// ---------------------------------------------------------------------------

/// A nonce with the ciphertext (tag included) produced under it.
#[derive(Debug, Clone)]
pub struct EncryptedData {
    pub nonce: Vec<u8>,
    pub ciphertext: Vec<u8>,
}

/// `e` is the authenticated encryption of `plaintext` under `key`: the
/// ciphertext is as long as the plaintext plus the tag.
pub open spec fn sealed(key: Seq<u8>, e: EncryptedData, plaintext: Seq<u8>) -> bool {
    &&& e.nonce@.len() == NONCE_LEN
    &&& plaintext.len() <= GCM_P_MAX
    &&& e.ciphertext@.len() == plaintext.len() + TAG_LEN
    &&& e.ciphertext@ == aes256_gcm_seal(key, e.nonce@, plaintext)
}

/// Encrypts under a given nonce.
pub fn encrypt_with_nonce(key: &CipherKey, nonce: Vec<u8>, plaintext: &[u8]) -> (r: Result<
    EncryptedData,
    JiraError,
>)
    requires
        nonce@.len() == NONCE_LEN,
    ensures
        r is Ok <==> plaintext@.len() <= GCM_P_MAX,
        r matches Ok(e) ==> e.nonce@ == nonce@ && sealed(key@, e, plaintext@),
        r matches Ok(e) ==> e.ciphertext@.len() == plaintext@.len() + TAG_LEN,
        r is Err ==> r == Err::<EncryptedData, JiraError>(JiraError::Encryption),
{
    match aes256_gcm_encrypt(key.as_bytes(), nonce.as_slice(), plaintext) {
        Some(ciphertext) => Ok(EncryptedData { nonce, ciphertext }),
        None => Err(JiraError::Encryption),
    }
}

/// A fresh nonce drawn from the operating system's secure random source.
pub fn random_nonce() -> (r: Result<Vec<u8>, JiraError>)
    ensures
        r matches Ok(n) ==> n@.len() == NONCE_LEN,
        r is Err ==> r == Err::<Vec<u8>, JiraError>(JiraError::Encryption),
{
    match os_random_bytes(NONCE_LEN) {
        Some(nonce) => Ok(nonce),
        None => Err(JiraError::Encryption),
    }
}

/// Encrypts under a fresh random nonce.
pub fn encrypt_data(key: &CipherKey, plaintext: &[u8]) -> (r: Result<EncryptedData, JiraError>)
    ensures
        r matches Ok(e) ==> sealed(key@, e, plaintext@),
        r matches Ok(e) ==> e.nonce@.len() == NONCE_LEN && e.ciphertext@.len() == plaintext@.len()
            + TAG_LEN,
        r is Err ==> r == Err::<EncryptedData, JiraError>(JiraError::Encryption),
{
    match random_nonce() {
        Ok(nonce) => encrypt_with_nonce(key, nonce, plaintext),
        Err(e) => Err(e),
    }
}

/// Decrypts an envelope. The one failure is `Decryption`, whatever its cause
/// (wrong key, altered ciphertext or nonce, malformed nonce); what comes back
/// on success is always the authenticated plaintext.
pub fn decrypt_data(key: &CipherKey, encrypted: &EncryptedData) -> (r: Result<Vec<u8>, JiraError>)
    ensures
        r matches Ok(p) ==> sealed(key@, *encrypted, p@),
        forall|p: Seq<u8>| #[trigger]
            sealed(key@, *encrypted, p) ==> (r matches Ok(q) && q@ == p),
        r is Err ==> r == Err::<Vec<u8>, JiraError>(JiraError::Decryption),
{
    if encrypted.nonce.len() != NONCE_LEN || encrypted.ciphertext.len() as u64 > GCM_C_MAX {
        return Err(JiraError::Decryption);
    }
    match aes256_gcm_decrypt(key.as_bytes(), encrypted.nonce.as_slice(), encrypted.ciphertext.as_slice()) {
        Some(p) => Ok(p),
        None => Err(JiraError::Decryption),
    }
}

} // verus!
