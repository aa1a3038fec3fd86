//! The relay identity: a secret key of the curve secp256k1, kept in the
//! configuration in hexadecimal, and the public key that belongs to it.

use vstd::prelude::*;
use vstd::string::*;
use crate::error::{ErrorView, Wallet713Error};
use crate::hex::{from_hex, hex_decode, hex_encode, lemma_hex_round_trip, to_hex};

verus! {

/// How many bytes a secret key has.
pub const SECRET_KEY_SIZE: usize = 32;

/// How many bytes a public key has in its compressed form.
pub const PUBLIC_KEY_SIZE: usize = 33;

/// The compressed public key that `secp256k1::PublicKey::from_secret_key`
/// derives from the secret key with these bytes, or nothing where the bytes
/// are no secret key.
pub uninterp spec fn secp_public_key(secret: Seq<u8>) -> Option<Seq<u8>>;

/// Whether `text` is the hexadecimal form of a secret key: it writes 32
/// bytes, and the curve takes them as a secret key. The empty text, which
/// stands for a key that is not set, is none.
pub open spec fn is_private_key(text: Seq<char>) -> bool {
    match hex_decode(text) {
        Some(secret) => secret.len() == SECRET_KEY_SIZE && secp_public_key(secret) is Some,
        None => false,
    }
}

/// The public key that belongs to the private key `text`, or
/// `InvalidPrivateKey` where the text is no private key.
pub open spec fn spec_public_key(text: Seq<char>) -> Result<Seq<u8>, ErrorView> {
    match hex_decode(text) {
        Some(secret) => if secret.len() == SECRET_KEY_SIZE {
            spec_public_key_from(secp_public_key(secret))
        } else {
            Err(ErrorView::InvalidPrivateKey)
        },
        None => Err(ErrorView::InvalidPrivateKey),
    }
}

/// The public key of a private key once the curve has answered with
/// `derived` for its bytes.
pub open spec fn spec_public_key_from(derived: Option<Seq<u8>>) -> Result<
    Seq<u8>,
    ErrorView,
> {
    match derived {
        Some(public) => Ok(public),
        None => Err(ErrorView::InvalidPrivateKey),
    }
}

/// The view of a public key or the failure in its place.
pub open spec fn key_result_view(r: Result<Vec<u8>, Wallet713Error>) -> Result<
    Seq<u8>,
    ErrorView,
> {
    match r {
        Ok(v) => Ok(v@),
        Err(e) => Err(e@),
    }
}

/// Calls `secp256k1::SecretKey::new` with the thread's random number
/// generator and hands out the key's bytes. Each call gives another key, so
/// the contract states only what holds of every key: it has 32 bytes, and
/// they are a secret key, from which a public key can be derived.
#[verifier::external_body]
fn random_secret_key() -> (secret: Vec<u8>)
    ensures
        secret@.len() == SECRET_KEY_SIZE,
        secp_public_key(secret@) is Some,
{
    secp256k1::SecretKey::new(&mut secp256k1::rand::rng()).to_secret_bytes().to_vec()
}

/// Calls `secp256k1::PublicKey::from_secret_key` on the secret key with the
/// given bytes and hands out the public key in its compressed form. The
/// contract names the answer: the same bytes always give the same key. There
/// is none where the bytes are not 32 or `SecretKey::from_secret_bytes`
/// refuses them; a key that is given has 33 bytes.
#[verifier::external_body]
fn public_key_from_secret_key(secret: &Vec<u8>) -> (public: Option<Vec<u8>>)
    ensures
        match public {
            Some(p) => secp_public_key(secret@) == Some(p@) && p@.len() == PUBLIC_KEY_SIZE
                && secret@.len() == SECRET_KEY_SIZE,
            None => secp_public_key(secret@) is None,
        },
{
    let bytes: [u8; 32] = match secret.as_slice().try_into() {
        Ok(bytes) => bytes,
        Err(_) => return None,
    };
    match secp256k1::SecretKey::from_secret_bytes(bytes) {
        Ok(key) => Some(secp256k1::PublicKey::from_secret_key(&key).serialize().to_vec()),
        Err(_) => None,
    }
}

/// The public key of a private key, given what the curve derived from its
/// bytes.
pub fn public_key_or_error(derived: Option<Vec<u8>>) -> (r: Result<Vec<u8>, Wallet713Error>)
    ensures
        key_result_view(r) == spec_public_key_from(
            match derived {
                Some(p) => Some(p@),
                None => None,
            },
        ),
{
    match derived {
        Some(public) => Ok(public),
        None => Err(Wallet713Error::InvalidPrivateKey),
    }
}

/// Derives the public key that belongs to a private key given in
/// hexadecimal. The same private key always gives the same public key.
pub fn public_key_from_private_key(text: &str) -> (r: Result<Vec<u8>, Wallet713Error>)
    ensures
        key_result_view(r) == spec_public_key(text@),
        r is Ok <==> is_private_key(text@),
{
    match from_hex(text) {
        Some(secret) => {
            if secret.len() != SECRET_KEY_SIZE {
                return Err(Wallet713Error::InvalidPrivateKey);
            }
            let derived = public_key_from_secret_key(&secret);
            public_key_or_error(derived)
        },
        None => Err(Wallet713Error::InvalidPrivateKey),
    }
}

/// Makes a new private key: a random secret key in lower-case hexadecimal.
/// Which key comes is left to chance; each one is a private key of 64 digits.
pub fn generate_private_key() -> (text: String)
    ensures
        is_private_key(text@),
        text@.len() == 2 * SECRET_KEY_SIZE,
{
    let secret = random_secret_key();
    proof {
        lemma_hex_round_trip(secret@);
    }
    to_hex(&secret)
}

/// The public key depends on the bytes that a private key writes and on
/// nothing else: two texts that write the same bytes, in whatever case of
/// the digits, have the same public key, or are both no private key.
pub proof fn lemma_public_key_depends_on_bytes(first: Seq<char>, second: Seq<char>)
    requires
        hex_decode(first) == hex_decode(second),
    ensures
        spec_public_key(first) == spec_public_key(second),
        is_private_key(first) == is_private_key(second),
{
}

/// The empty text, which stands for a key that is not set, and every text
/// that does not write 32 bytes is no private key and has no public key.
pub proof fn lemma_private_key_has_32_bytes(text: Seq<char>)
    requires
        text.len() != 2 * SECRET_KEY_SIZE,
    ensures
        !is_private_key(text),
        spec_public_key(text) == Err::<Seq<u8>, ErrorView>(ErrorView::InvalidPrivateKey),
{
}

/// The private key that `generate_private_key` writes for a secret key has a
/// public key, and it is the one of that secret key.
pub proof fn lemma_generated_key_has_identity(secret: Seq<u8>)
    requires
        secret.len() == SECRET_KEY_SIZE,
        secp_public_key(secret) is Some,
    ensures
        is_private_key(hex_encode(secret)),
        spec_public_key(hex_encode(secret)) == Ok::<Seq<u8>, ErrorView>(
            secp_public_key(secret)->0,
        ),
{
    lemma_hex_round_trip(secret);
}

} // verus!
