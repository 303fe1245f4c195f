//! Device identities: Base64 key text, Ed25519 keys and signatures, and
//! device fingerprints.
use vstd::prelude::*;
use crate::text::{hex_upper, string_from, to_hex_upper};
use ed25519_dalek::Signer;

verus! {

/// An I/O error of the standard library, carried through unchanged.
#[verifier::external_type_specification]
#[verifier::external_body]
pub struct ExIoError(std::io::Error);

/// A JSON error of `serde_json`, carried through unchanged.
#[verifier::external_type_specification]
#[verifier::external_body]
pub struct ExJsonError(serde_json::Error);

/// Errors of configuration handling and key parsing.
#[derive(Debug)]
pub enum CoreError {
    Io(std::io::Error),
    Serialization(serde_json::Error),
    ConfigDirNotFound,
    InvalidKey(String),
}

// ---------------------------------------------------------------------------
// Base64 (standard alphabet, with padding)
// ---------------------------------------------------------------------------
/// The character of the standard Base64 alphabet for a 6-bit value.
pub open spec fn base64_symbol(v: int) -> char {
    if v < 26 {
        (65 + v) as char
    } else if v < 52 {
        (71 + v) as char
    } else if v < 62 {
        (v - 4) as char
    } else if v == 62 {
        '+'
    } else {
        '/'
    }
}

/// Standard Base64 encoding with `=` padding (RFC 4648, section 4).
pub open spec fn base64_encoding(bytes: Seq<u8>) -> Seq<char>
    decreases bytes.len(),
{
    if bytes.len() == 0 {
        Seq::empty()
    } else if bytes.len() == 1 {
        let b0 = bytes[0] as int;
        seq![base64_symbol(b0 / 4), base64_symbol((b0 % 4) * 16), '=', '=']
    } else if bytes.len() == 2 {
        let b0 = bytes[0] as int;
        let b1 = bytes[1] as int;
        seq![
            base64_symbol(b0 / 4),
            base64_symbol((b0 % 4) * 16 + b1 / 16),
            base64_symbol((b1 % 16) * 4),
            '=',
        ]
    } else {
        let b0 = bytes[0] as int;
        let b1 = bytes[1] as int;
        let b2 = bytes[2] as int;
        seq![
            base64_symbol(b0 / 4),
            base64_symbol((b0 % 4) * 16 + b1 / 16),
            base64_symbol((b1 % 16) * 4 + b2 / 64),
            base64_symbol(b2 % 64),
        ] + base64_encoding(bytes.subrange(3, bytes.len() as int))
    }
}

/// What the standard Base64 engine of the `base64` crate gives for a
/// text: the decoded bytes, or the text of its error where it refuses the
/// text (bad symbol, length, padding or trailing bits).
pub uninterp spec fn base64_outcome(text: Seq<char>) -> Result<Seq<u8>, Seq<char>>;

/// The bytes a text decodes to, `None` where the engine refuses it.
pub open spec fn base64_decoding(text: Seq<char>) -> Option<Seq<u8>> {
    match base64_outcome(text) {
        Ok(bytes) => Some(bytes),
        Err(_) => None,
    }
}

/// `base64::Engine::encode` with the `STANDARD` engine. The result is the
/// padded standard encoding of the bytes, and the same engine decodes it
/// back to those bytes.
#[verifier::external_body]
pub(crate) fn base64_encode(bytes: &[u8]) -> (r: String)
    requires
        bytes@.len() <= isize::MAX,
    ensures
        r@ == base64_encoding(bytes@),
        base64_decoding(r@) == Some(bytes@),
{
    base64::Engine::encode(&base64::engine::general_purpose::STANDARD, bytes)
}

/// `base64::Engine::decode` with the `STANDARD` engine; a refusal carries
/// the text of the crate's error.
#[verifier::external_body]
pub(crate) fn base64_decode(text: &str) -> (r: Result<Vec<u8>, String>)
    ensures
        match r {
            Ok(bytes) => base64_outcome(text@) == Ok::<Seq<u8>, Seq<char>>(bytes@),
            Err(m) => base64_outcome(text@) == Err::<Seq<u8>, Seq<char>>(m@),
        },
{
    base64::Engine::decode(&base64::engine::general_purpose::STANDARD, text).map_err(
        |e| e.to_string(),
    )
}

// ---------------------------------------------------------------------------
// Ed25519
// ---------------------------------------------------------------------------
/// The public key that `ed25519_dalek` derives from a 32-byte secret seed.
pub uninterp spec fn ed25519_public_key_of(seed: Seq<u8>) -> Seq<u8>;

/// The Ed25519 signature that `ed25519_dalek` computes for a message under
/// the key with the given secret seed.
pub uninterp spec fn ed25519_signature_of(seed: Seq<u8>, message: Seq<u8>) -> Seq<u8>;

/// Whether 32 bytes decompress to a curve point, the test that
/// `ed25519_dalek::VerifyingKey::from_bytes` makes.
pub uninterp spec fn ed25519_point_valid(key: Seq<u8>) -> bool;

/// Whether `ed25519_dalek::VerifyingKey::verify_strict` accepts a 64-byte
/// signature of a message under a valid 32-byte public key.
pub uninterp spec fn ed25519_strictly_verifies(
    key: Seq<u8>,
    message: Seq<u8>,
    signature: Seq<u8>,
) -> bool;

/// `SigningKey::generate` with the operating system's random source; only
/// the length of the seed is claimed.
#[verifier::external_body]
fn ed25519_random_seed() -> (r: Vec<u8>)
    ensures
        r@.len() == 32,
{
    ed25519_dalek::SigningKey::generate(&mut rand::rngs::OsRng).to_bytes().to_vec()
}

/// `SigningKey::verifying_key` followed by `VerifyingKey::to_bytes`, for the
/// key built from a seed with `SigningKey::from_bytes`. The derived public
/// key is 32 bytes long and decompresses to a curve point.
#[verifier::external_body]
fn ed25519_derive_public_key(seed: &[u8]) -> (r: Vec<u8>)
    requires
        seed@.len() == 32,
    ensures
        r@ == ed25519_public_key_of(seed@),
        r@.len() == 32,
        ed25519_point_valid(r@),
{
    let seed: &[u8; 32] = seed.try_into().unwrap();
    ed25519_dalek::SigningKey::from_bytes(seed).verifying_key().to_bytes().to_vec()
}

/// `Signer::sign` of `ed25519_dalek::SigningKey`, the signature as its 64
/// bytes.
#[verifier::external_body]
fn ed25519_sign(seed: &[u8], message: &[u8]) -> (r: Vec<u8>)
    requires
        seed@.len() == 32,
    ensures
        r@ == ed25519_signature_of(seed@, message@),
        r@.len() == 64,
{
    let seed: &[u8; 32] = seed.try_into().unwrap();
    ed25519_dalek::SigningKey::from_bytes(seed).sign(message).to_bytes().to_vec()
}

/// `VerifyingKey::from_bytes`: `Ok` exactly for the bytes of a curve point;
/// a refusal carries the crate's message, of which nothing is claimed.
#[verifier::external_body]
fn ed25519_check_point(key: &[u8]) -> (r: Result<(), String>)
    requires
        key@.len() == 32,
    ensures
        r is Ok <==> ed25519_point_valid(key@),
{
    let key: &[u8; 32] = key.try_into().unwrap();
    ed25519_dalek::VerifyingKey::from_bytes(key).map(|_| ()).map_err(|e| e.to_string())
}

/// `VerifyingKey::verify_strict` for a valid key and a 64-byte signature.
#[verifier::external_body]
fn ed25519_verify_strict(key: &[u8], message: &[u8], signature: &[u8]) -> (r: bool)
    requires
        key@.len() == 32,
        ed25519_point_valid(key@),
        signature@.len() == 64,
    ensures
        r == ed25519_strictly_verifies(key@, message@, signature@),
{
    let key: &[u8; 32] = key.try_into().unwrap();
    let verifying_key = ed25519_dalek::VerifyingKey::from_bytes(key).unwrap();
    let signature = ed25519_dalek::Signature::from_slice(signature).unwrap();
    verifying_key.verify_strict(message, &signature).is_ok()
}

/// An Ed25519 signing key, held as its 32-byte secret seed.
pub struct SigningKey {
    seed: Vec<u8>,
}

impl View for SigningKey {
    type V = Seq<u8>;

    closed spec fn view(&self) -> Seq<u8> {
        self.seed@
    }
}

impl SigningKey {
    #[verifier::type_invariant]
    spec fn well_formed(self) -> bool {
        self.seed@.len() == 32
    }

    /// The key for a 32-byte seed.
    pub fn from_bytes(seed: &[u8]) -> (r: SigningKey)
        requires
            seed@.len() == 32,
        ensures
            r@ == seed@,
    {
        SigningKey { seed: vstd::slice::slice_to_vec(seed) }
    }

    /// A fresh key from the operating system's random source.
    pub fn generate() -> (r: SigningKey)
        ensures
            r@.len() == 32,
    {
        SigningKey { seed: ed25519_random_seed() }
    }

    /// The 32-byte seed.
    pub fn to_bytes(&self) -> (r: Vec<u8>)
        ensures
            r@ == self@,
            r@.len() == 32,
    {
        proof {
            use_type_invariant(self);
        }
        self.seed.clone()
    }

    /// The matching public key.
    pub fn verifying_key(&self) -> (r: VerifyingKey)
        ensures
            r@ == ed25519_public_key_of(self@),
    {
        proof {
            use_type_invariant(self);
        }
        VerifyingKey { bytes: ed25519_derive_public_key(self.seed.as_slice()) }
    }

    /// Signs a message; the result is the 64-byte signature.
    pub fn sign(&self, message: &[u8]) -> (r: Vec<u8>)
        ensures
            r@ == ed25519_signature_of(self@, message@),
            r@.len() == 64,
    {
        proof {
            use_type_invariant(self);
        }
        ed25519_sign(self.seed.as_slice(), message)
    }
}

/// An Ed25519 public key: 32 bytes that decompress to a curve point.
pub struct VerifyingKey {
    bytes: Vec<u8>,
}

impl View for VerifyingKey {
    type V = Seq<u8>;

    closed spec fn view(&self) -> Seq<u8> {
        self.bytes@
    }
}

impl VerifyingKey {
    #[verifier::type_invariant]
    spec fn well_formed(self) -> bool {
        &&& self.bytes@.len() == 32
        &&& ed25519_point_valid(self.bytes@)
    }

    /// The 32 bytes of the key, which decompress to a curve point.
    pub fn to_bytes(&self) -> (r: Vec<u8>)
        ensures
            r@ == self@,
            r@.len() == 32,
            ed25519_point_valid(r@),
    {
        proof {
            use_type_invariant(self);
        }
        self.bytes.clone()
    }

    /// Strict Ed25519 verification of a signature given as bytes; a
    /// signature that is not 64 bytes long is refused.
    pub fn verify_strict(&self, message: &[u8], signature: &[u8]) -> (r: bool)
        ensures
            r == (signature@.len() == 64 && ed25519_strictly_verifies(self@, message@, signature@)),
    {
        proof {
            use_type_invariant(self);
        }
        if signature.len() != 64 {
            return false;
        }
        ed25519_verify_strict(self.bytes.as_slice(), message, signature)
    }
}

// ---------------------------------------------------------------------------
// Key text and fingerprints
// ---------------------------------------------------------------------------
/// The outcome of reading a key from Base64 text: the 32 key bytes, or why
/// they are refused.
pub open spec fn key_bytes_from_text(text: Seq<char>) -> Option<Seq<u8>> {
    match base64_decoding(text) {
        Some(bytes) => if bytes.len() == 32 {
            Some(bytes)
        } else {
            None
        },
        None => None,
    }
}

/// The message of the error for a key text that gives no 32 bytes: the
/// Base64 engine's error text, or `Key must be 32 bytes` for a text that
/// decodes to another length.
pub open spec fn key_error_text(text: Seq<char>) -> Seq<char> {
    match base64_outcome(text) {
        Err(message) => message,
        Ok(_) => "Key must be 32 bytes"@,
    }
}

/// The error is `InvalidKey` with the given message.
pub open spec fn invalid_key_with(e: CoreError, message: Seq<char>) -> bool {
    e matches CoreError::InvalidKey(m) && m@ == message
}

fn decode_key_bytes(b64_key: &str) -> (r: Result<Vec<u8>, CoreError>)
    ensures
        match r {
            Ok(bytes) => key_bytes_from_text(b64_key@) == Some(bytes@),
            Err(e) => key_bytes_from_text(b64_key@) is None && invalid_key_with(
                e,
                key_error_text(b64_key@),
            ),
        },
{
    match base64_decode(b64_key) {
        Ok(bytes) => {
            if bytes.len() == 32 {
                Ok(bytes)
            } else {
                Err(CoreError::InvalidKey(string_from("Key must be 32 bytes")))
            }
        },
        Err(message) => Err(CoreError::InvalidKey(message)),
    }
}

/// Reads a signing key from the Base64 text of its 32-byte seed. A text
/// that is no Base64 is refused with the engine's error text, and one of
/// another length with `Key must be 32 bytes`.
pub fn parse_signing_key(b64_key: &str) -> (r: Result<SigningKey, CoreError>)
    ensures
        match r {
            Ok(key) => key_bytes_from_text(b64_key@) == Some(key@),
            Err(e) => key_bytes_from_text(b64_key@) is None && invalid_key_with(
                e,
                key_error_text(b64_key@),
            ),
        },
{
    match decode_key_bytes(b64_key) {
        Ok(bytes) => Ok(SigningKey::from_bytes(bytes.as_slice())),
        Err(e) => Err(e),
    }
}

/// Reads a public key from its Base64 text: 32 bytes that decompress to a
/// curve point. A text that is no Base64 is refused with the engine's
/// error text, one of another length with `Key must be 32 bytes`, and 32
/// bytes that are no point with the curve library's message.
pub fn parse_verifying_key(b64_key: &str) -> (r: Result<VerifyingKey, CoreError>)
    ensures
        match r {
            Ok(key) => key_bytes_from_text(b64_key@) == Some(key@),
            Err(e) => e is InvalidKey && (key_bytes_from_text(b64_key@) is None ==> invalid_key_with(
                e,
                key_error_text(b64_key@),
            )),
        },
        r is Ok <==> (key_bytes_from_text(b64_key@) is Some && ed25519_point_valid(
            key_bytes_from_text(b64_key@)->0,
        )),
{
    let bytes = match decode_key_bytes(b64_key) {
        Ok(bytes) => bytes,
        Err(e) => return Err(e),
    };
    match ed25519_check_point(bytes.as_slice()) {
        Ok(()) => Ok(VerifyingKey { bytes }),
        Err(message) => Err(CoreError::InvalidKey(message)),
    }
}

/// The fingerprint of a device: the first eight bytes of its public key in
/// upper-case hexadecimal, or `UNKNOWN` where the key text is not Base64.
pub open spec fn fingerprint_of(public_key_b64: Seq<char>) -> Seq<char> {
    match base64_decoding(public_key_b64) {
        Some(bytes) => hex_upper(
            bytes.take(
                if bytes.len() < 8 {
                    bytes.len() as int
                } else {
                    8
                },
            ),
        ),
        None => "UNKNOWN"@,
    }
}

/// Computes the fingerprint of a Base64 public key.
pub fn get_fingerprint(public_key_b64: &str) -> (r: String)
    ensures
        r@ == fingerprint_of(public_key_b64@),
{
    match base64_decode(public_key_b64) {
        Ok(bytes) => {
            let n: usize = if bytes.len() < 8 {
                bytes.len()
            } else {
                8
            };
            let head = slice_prefix(bytes.as_slice(), n);
            to_hex_upper(head.as_slice())
        },
        Err(_) => "UNKNOWN".to_string(),
    }
}

fn slice_prefix(bytes: &[u8], n: usize) -> (r: Vec<u8>)
    requires
        n <= bytes@.len(),
    ensures
        r@ == bytes@.take(n as int),
{
    let mut r: Vec<u8> = Vec::new();
    let mut i: usize = 0;
    while i < n
        invariant
            i <= n <= bytes@.len(),
            r@ == bytes@.take(i as int),
        decreases n - i,
    {
        r.push(bytes[i]);
        assert(bytes@.take(i + 1) =~= bytes@.take(i as int).push(bytes@[i as int]));
        i = i + 1;
    }
    r
}

/// Hexadecimal text has two digits per byte.
pub proof fn lemma_hex_upper_len(bytes: Seq<u8>)
    ensures
        hex_upper(bytes).len() == 2 * bytes.len(),
    decreases bytes.len(),
{
    if bytes.len() > 0 {
        lemma_hex_upper_len(bytes.drop_last());
    }
}

/// The fingerprint of a key text that decodes to at least eight bytes is the
/// upper-case hexadecimal text of its first eight bytes: sixteen characters.
pub proof fn law_fingerprint_of_key_text(text: Seq<char>, key: Seq<u8>)
    requires
        base64_decoding(text) == Some(key),
        key.len() >= 8,
    ensures
        fingerprint_of(text) == hex_upper(key.take(8)),
        fingerprint_of(text).len() == 16,
{
    lemma_hex_upper_len(key.take(8));
}

} // verus!
