//! Encryption of clipboard data, key derivation and text encodings of bytes.
use crate::bytes::push_all;
use aes_gcm::aead::{Aead, AeadCore, KeyInit, OsRng};
use aes_gcm::{Aes256Gcm, Key, Nonce};
use base64::prelude::{Engine, BASE64_STANDARD};
use pbkdf2::pbkdf2_hmac;
use rand::Rng;
use sha2::Sha256;
use tokio_tungstenite::tungstenite::handshake::derive_accept_key;
use vstd::prelude::*;
use vstd::slice::slice_subrange;
use vstd::utf8::encode_utf8;

verus! {

/// Length of a nonce, which stands in front of each ciphertext.
pub const NONCE_LEN: usize = 12;

/// Length of the authentication tag, which stands at the end of each ciphertext.
pub const TAG_LEN: usize = 16;

/// The longest plaintext that can be encrypted in one message.
pub const MAX_PLAINTEXT: u64 = 0x10_0000_0000;

/// Rounds of the key derivation.
pub const ROUNDS: u32 = 60_000;

/// `aes_gcm::Error`, which says only that a message was refused.
#[verifier::external_type_specification]
#[verifier::external_body]
pub struct ExAesGcmError(aes_gcm::Error);

/// `base64::DecodeError`, which says why a text is not base64.
#[verifier::external_type_specification]
#[verifier::external_body]
pub struct ExDecodeError(base64::DecodeError);

/// What AES-256-GCM makes of a plaintext under a key and a nonce: the ciphertext with
/// its tag.
pub uninterp spec fn aes_gcm_encrypted(key: Seq<u8>, nonce: Seq<u8>, plaintext: Seq<u8>) -> Seq<u8>;

/// What AES-256-GCM makes of a ciphertext with its tag under a key and a nonce: the
/// plaintext, or nothing where the tag does not belong to the ciphertext.
pub uninterp spec fn aes_gcm_decrypted(
    key: Seq<u8>,
    nonce: Seq<u8>,
    ciphertext: Seq<u8>,
) -> Option<Seq<u8>>;

/// The 32 bytes that PBKDF2 with HMAC-SHA-256 derives.
pub uninterp spec fn pbkdf2_sha256(password: Seq<u8>, salt: Seq<u8>, rounds: u32) -> Seq<u8>;

/// Bytes in standard base64 with padding.
pub uninterp spec fn base64_encoded(data: Seq<u8>) -> Seq<char>;

/// The bytes that a text in standard base64 with padding stands for, or nothing where
/// it is no such text.
pub uninterp spec fn base64_decoded(text: Seq<u8>) -> Option<Seq<u8>>;

/// The answer to a WebSocket key.
pub uninterp spec fn accept_key(key: Seq<u8>) -> Seq<char>;

/// A character of standard base64, the padding included.
pub open spec fn is_base64_char(c: char) -> bool {
    ('A' <= c && c <= 'Z') || ('a' <= c && c <= 'z') || ('0' <= c && c <= '9') || c == '+' || c
        == '/' || c == '='
}

/// `Aes256Gcm::encrypt` without associated data. It succeeds on every plaintext within
/// the limit; the ciphertext is longer by the tag, and decrypts to the plaintext again.
#[verifier::external_body]
pub(crate) fn aes_gcm_encrypt(key: &[u8; 32], nonce: &[u8; 12], plaintext: &[u8]) -> (res: Result<
    Vec<u8>,
    aes_gcm::Error,
>)
    requires
        plaintext@.len() <= MAX_PLAINTEXT,
    ensures
        res is Ok,
        res->Ok_0@ == aes_gcm_encrypted(key@, nonce@, plaintext@),
        res->Ok_0@.len() == plaintext@.len() + TAG_LEN,
        aes_gcm_decrypted(key@, nonce@, res->Ok_0@) == Some(plaintext@),
{
    Aes256Gcm::new(Key::<Aes256Gcm>::from_slice(key)).encrypt(Nonce::from_slice(nonce), plaintext)
}

/// `Aes256Gcm::decrypt` without associated data. What it accepts is longer than the
/// plaintext by the tag.
#[verifier::external_body]
pub(crate) fn aes_gcm_decrypt(key: &[u8; 32], nonce: &[u8; 12], ciphertext: &[u8]) -> (res: Result<
    Vec<u8>,
    aes_gcm::Error,
>)
    ensures
        match res {
            Ok(plaintext) => aes_gcm_decrypted(key@, nonce@, ciphertext@) == Some(plaintext@)
                && plaintext@.len() + TAG_LEN == ciphertext@.len(),
            Err(_) => aes_gcm_decrypted(key@, nonce@, ciphertext@) is None,
        },
{
    Aes256Gcm::new(Key::<Aes256Gcm>::from_slice(key)).decrypt(Nonce::from_slice(nonce), ciphertext)
}

/// `Aes256Gcm::generate_nonce` with the random numbers of the operating system: any
/// nonce may come.
#[verifier::external_body]
pub(crate) fn random_nonce() -> (nonce: [u8; 12]) {
    Aes256Gcm::generate_nonce(&mut OsRng).into()
}

/// Whether a nonce came from `random_nonce`.
pub closed spec fn is_drawn_nonce(nonce: Seq<u8>) -> bool {
    exists|drawn: [u8; 12]| drawn@ == nonce && #[trigger] call_ensures(random_nonce, (), drawn)
}

/// Whether bytes came from `random_key_bytes`.
pub closed spec fn is_drawn_key(random: Seq<u8>) -> bool {
    exists|drawn: [u8; 16]|
        drawn@ == random && #[trigger] call_ensures(random_key_bytes, (), drawn)
}

/// Whether a salt came from `random_salt`.
pub closed spec fn is_drawn_salt(salt: Seq<u8>) -> bool {
    exists|drawn: [u8; 20]| drawn@ == salt && #[trigger] call_ensures(random_salt, (), drawn)
}

/// `Rng::gen` of the thread's random number generator: any bytes may come.
#[verifier::external_body]
pub(crate) fn random_key_bytes() -> (random: [u8; 16]) {
    rand::thread_rng().gen()
}

/// `Rng::fill` of the thread's random number generator: any salt may come.
#[verifier::external_body]
pub(crate) fn random_salt() -> (salt: [u8; 20]) {
    let mut salt = [0u8; 20];
    rand::thread_rng().fill(&mut salt[..]);
    salt
}

/// What is called drawn came from a random number generator, as it is.
proof fn law_drawn_values_are_random(nonce: Seq<u8>, random: Seq<u8>, salt: Seq<u8>)
    ensures
        is_drawn_nonce(nonce) ==> exists|drawn: [u8; 12]|
            drawn@ == nonce && #[trigger] call_ensures(random_nonce, (), drawn),
        is_drawn_key(random) ==> exists|drawn: [u8; 16]|
            drawn@ == random && #[trigger] call_ensures(random_key_bytes, (), drawn),
        is_drawn_salt(salt) ==> exists|drawn: [u8; 20]|
            drawn@ == salt && #[trigger] call_ensures(random_salt, (), drawn),
{
}

/// Draws the bytes of a WebSocket key.
pub(crate) fn draw_key() -> (random: [u8; 16])
    ensures
        is_drawn_key(random@),
{
    random_key_bytes()
}

/// Draws a salt.
pub(crate) fn draw_salt() -> (salt: [u8; 20])
    ensures
        is_drawn_salt(salt@),
{
    random_salt()
}

/// `pbkdf2::pbkdf2_hmac` with SHA-256, for 32 bytes.
#[verifier::external_body]
pub(crate) fn pbkdf2_hmac_sha256(password: &[u8], salt: &[u8], rounds: u32) -> (derived: [u8; 32])
    ensures
        derived@ == pbkdf2_sha256(password@, salt@, rounds),
{
    let mut derived = [0u8; 32];
    pbkdf2_hmac::<Sha256>(password, salt, rounds, &mut derived);
    derived
}

/// `BASE64_STANDARD.encode`: four characters of the alphabet for every three bytes
/// that were begun, which decode to the bytes again. It panics where the text could not
/// be allocated, far above the bound asked for here.
#[verifier::external_body]
pub(crate) fn base64_encode(data: &[u8]) -> (text: String)
    requires
        data@.len() <= usize::MAX / 4,
    ensures
        text@ == base64_encoded(data@),
        text@.len() == (data@.len() + 2) / 3 * 4,
        forall|i: int| 0 <= i < text@.len() ==> is_base64_char(#[trigger] text@[i]),
        base64_decoded(encode_utf8(text@)) == Some(data@),
{
    BASE64_STANDARD.encode(data)
}

/// `BASE64_STANDARD.decode`.
#[verifier::external_body]
pub(crate) fn base64_decode(text: &[u8]) -> (res: Result<Vec<u8>, base64::DecodeError>)
    ensures
        match res {
            Ok(data) => base64_decoded(text@) == Some(data@),
            Err(_) => base64_decoded(text@) is None,
        },
{
    BASE64_STANDARD.decode(text)
}

/// `tungstenite::handshake::derive_accept_key`: the SHA-1 digest of the key and a fixed
/// text, 20 bytes, in base64.
#[verifier::external_body]
pub(crate) fn websocket_accept(key: &[u8]) -> (text: String)
    ensures
        text@ == accept_key(key@),
        text@.len() == 28,
        forall|i: int| 0 <= i < text@.len() ==> is_base64_char(#[trigger] text@[i]),
{
    derive_accept_key(key)
}

/// A message that was not encrypted under the key in use.
#[derive(Clone, Copy, Debug, PartialEq, Eq, Structural)]
pub struct Undecryptable;

/// AES-256-GCM under one key.
#[derive(Clone, Copy, Debug)]
pub struct Cipher {
    pub key: [u8; 32],
}

/// An encrypted message: the nonce, then the ciphertext.
pub open spec fn sealed(key: Seq<u8>, nonce: Seq<u8>, plaintext: Seq<u8>) -> Seq<u8> {
    nonce + aes_gcm_encrypted(key, nonce, plaintext)
}

/// What an encrypted message decrypts to, or nothing where it is not from this key.
pub open spec fn opened(key: Seq<u8>, message: Seq<u8>) -> Option<Seq<u8>>
    recommends
        message.len() >= NONCE_LEN,
{
    aes_gcm_decrypted(
        key,
        message.subrange(0, NONCE_LEN as int),
        message.subrange(NONCE_LEN as int, message.len() as int),
    )
}

/// The key that belongs to a password and a salt.
pub open spec fn derived_key(password: Seq<u8>, salt: Seq<u8>) -> Seq<u8> {
    pbkdf2_sha256(password, salt, ROUNDS)
}

/// Derives the key that belongs to a password and a salt.
pub fn derive_key(password: &[u8], salt: &[u8]) -> (key: [u8; 32])
    ensures
        key@ == derived_key(password@, salt@),
        key@ == pbkdf2_sha256(password@, salt@, 60_000u32),
{
    pbkdf2_hmac_sha256(password, salt, ROUNDS)
}

/// The first twelve bytes of a message.
fn nonce_of(message: &[u8]) -> (nonce: [u8; 12])
    requires
        message@.len() >= NONCE_LEN,
    ensures
        nonce@ == message@.subrange(0, NONCE_LEN as int),
{
    let mut nonce: [u8; 12] = [0u8; 12];
    let mut i: usize = 0;
    while i < NONCE_LEN
        invariant
            i <= NONCE_LEN <= message@.len(),
            forall|k: int| 0 <= k < i ==> nonce@[k] == message@[k],
        decreases NONCE_LEN - i,
    {
        nonce[i] = message[i];
        i = i + 1;
    }
    proof {
        assert(nonce@ =~= message@.subrange(0, NONCE_LEN as int));
    }
    nonce
}

impl Cipher {
    /// The cipher that belongs to a password and a salt.
    pub fn derive(password: &str, salt: &[u8]) -> (cipher: Cipher)
        ensures
            cipher.key@ == derived_key(encode_utf8(password@), salt@),
            cipher.key@ == pbkdf2_sha256(encode_utf8(password@), salt@, 60_000u32),
    {
        Cipher { key: derive_key(password.as_bytes(), salt) }
    }

    /// Encrypts under a given nonce.
    pub fn seal_with(&self, nonce: &[u8; 12], plaintext: &[u8]) -> (message: Vec<u8>)
        requires
            plaintext@.len() <= MAX_PLAINTEXT,
        ensures
            message@ == sealed(self.key@, nonce@, plaintext@),
            message@.subrange(0, 12) == nonce@,
            message@.subrange(12, message@.len() as int) == aes_gcm_encrypted(
                self.key@,
                nonce@,
                plaintext@,
            ),
            message@.len() == NONCE_LEN + plaintext@.len() + TAG_LEN,
            opened(self.key@, message@) == Some(plaintext@),
    {
        let mut message: Vec<u8> = Vec::new();
        push_all(&mut message, nonce);
        let ciphertext = match aes_gcm_encrypt(&self.key, nonce, plaintext) {
            Ok(ciphertext) => ciphertext,
            Err(_) => Vec::new(),
        };
        push_all(&mut message, &ciphertext);
        proof {
            assert(message@.subrange(0, NONCE_LEN as int) =~= nonce@);
            assert(message@.subrange(NONCE_LEN as int, message@.len() as int) =~= ciphertext@);
        }
        message
    }

    /// Encrypts under a fresh random nonce. Whatever the nonce, the message opens to the
    /// plaintext again.
    pub fn seal(&self, plaintext: &[u8]) -> (message: Vec<u8>)
        requires
            plaintext@.len() <= MAX_PLAINTEXT,
        ensures
            exists|nonce: Seq<u8>|
                nonce.len() == NONCE_LEN && message@ == #[trigger] sealed(
                    self.key@,
                    nonce,
                    plaintext@,
                ),
            message@.subrange(12, message@.len() as int) == aes_gcm_encrypted(
                self.key@,
                message@.subrange(0, 12),
                plaintext@,
            ),
            is_drawn_nonce(message@.subrange(0, 12)),
            message@.len() == NONCE_LEN + plaintext@.len() + TAG_LEN,
            opened(self.key@, message@) == Some(plaintext@),
    {
        let nonce = random_nonce();
        self.seal_with(&nonce, plaintext)
    }

    /// Decrypts a message.
    pub fn open(&self, message: &[u8]) -> (res: Result<Vec<u8>, Undecryptable>)
        requires
            message@.len() >= NONCE_LEN,
        ensures
            match res {
                Ok(plaintext) => opened(self.key@, message@) == Some(plaintext@),
                Err(_) => opened(self.key@, message@) is None,
            },
            match res {
                Ok(plaintext) => aes_gcm_decrypted(
                    self.key@,
                    message@.subrange(0, 12),
                    message@.subrange(12, message@.len() as int),
                ) == Some(plaintext@),
                Err(_) => aes_gcm_decrypted(
                    self.key@,
                    message@.subrange(0, 12),
                    message@.subrange(12, message@.len() as int),
                ) is None,
            },
    {
        let nonce = nonce_of(message);
        let ciphertext = slice_subrange(message, NONCE_LEN, message.len());
        match aes_gcm_decrypt(&self.key, &nonce, ciphertext) {
            Ok(plaintext) => Ok(plaintext),
            Err(_) => Err(Undecryptable),
        }
    }
}

/// An encrypted message is its nonce, then what AES-256-GCM makes of the whole plaintext
/// under the key and that nonce, however long the plaintext is.
pub proof fn law_sealing_encrypts(key: Seq<u8>, nonce: Seq<u8>, plaintext: Seq<u8>)
    requires
        nonce.len() == 12,
    ensures
        sealed(key, nonce, plaintext).len() == 12 + aes_gcm_encrypted(key, nonce, plaintext).len(),
        sealed(key, nonce, plaintext).subrange(0, 12) == nonce,
        sealed(key, nonce, plaintext).subrange(
            12,
            sealed(key, nonce, plaintext).len() as int,
        ) == aes_gcm_encrypted(key, nonce, plaintext),
{
    let message = sealed(key, nonce, plaintext);
    assert(message.subrange(0, 12) =~= nonce);
    assert(message.subrange(12, message.len() as int) =~= aes_gcm_encrypted(
        key,
        nonce,
        plaintext,
    ));
}

/// A nonce and a ciphertext behind it open to what AES-256-GCM decrypts the ciphertext to
/// under the key and that nonce, and to nothing where it refuses.
pub proof fn law_opening_decrypts(key: Seq<u8>, nonce: Seq<u8>, ciphertext: Seq<u8>)
    requires
        nonce.len() == 12,
    ensures
        opened(key, nonce + ciphertext) == aes_gcm_decrypted(key, nonce, ciphertext),
{
    let message = nonce + ciphertext;
    assert(message.subrange(0, 12) =~= nonce);
    assert(message.subrange(12, message.len() as int) =~= ciphertext);
}

/// What was sealed opens to the plaintext for whoever has the key, wherever AES-256-GCM
/// decrypts what it encrypted.
pub proof fn law_sealed_opens(key: Seq<u8>, nonce: Seq<u8>, plaintext: Seq<u8>)
    requires
        nonce.len() == 12,
    ensures
        opened(key, sealed(key, nonce, plaintext)) == aes_gcm_decrypted(
            key,
            nonce,
            aes_gcm_encrypted(key, nonce, plaintext),
        ),
{
    law_sealing_encrypts(key, nonce, plaintext);
    let ciphertext = aes_gcm_encrypted(key, nonce, plaintext);
    assert(sealed(key, nonce, plaintext) =~= nonce + ciphertext);
    law_opening_decrypts(key, nonce, ciphertext);
}

/// A key depends on every byte of the password and of the salt: it is what PBKDF2 with
/// HMAC-SHA-256 derives from the two in 60000 rounds.
pub proof fn law_whole_password_counts(password: Seq<u8>, salt: Seq<u8>)
    ensures
        derived_key(password, salt) == pbkdf2_sha256(password, salt, 60_000u32),
{
}

} // verus!
