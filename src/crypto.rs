//! The cryptographic primitives, taken from outside crates: X25519, BLAKE2s,
//! HMAC-BLAKE2s and (X)ChaCha20-Poly1305. Each result is named by a spec
//! function, so that contracts can speak of it exactly.
use vstd::prelude::*;
use aead::OsRng;
use aead::rand_core::RngCore;
use blake2::{Blake2s256, Blake2sMac, Digest};
use blake2::digest::consts::U16;
use chacha20poly1305::{ChaCha20Poly1305, XChaCha20Poly1305};
use chacha20poly1305::aead::{Aead, KeyInit, Payload};
use hmac::{Mac, SimpleHmac};
use x25519_dalek::{PublicKey, StaticSecret};

verus! {

/// The cipher refuses plaintexts of this many bytes or more: 2^32 - 1 blocks of 64.
pub const MAX_PLAINTEXT: u64 = 274877906880;

/// X25519 of a private scalar and a public point.
pub uninterp spec fn x25519_of(k: Seq<u8>, u: Seq<u8>) -> Seq<u8>;

/// The X25519 public key of a private key.
pub uninterp spec fn public_of(k: Seq<u8>) -> Seq<u8>;

/// The unkeyed BLAKE2s-256 digest.
pub uninterp spec fn blake2s_of(data: Seq<u8>) -> Seq<u8>;

/// HMAC over BLAKE2s-256.
pub uninterp spec fn hmac_of(key: Seq<u8>, data: Seq<u8>) -> Seq<u8>;

/// Keyed BLAKE2s with a 16-byte output.
pub uninterp spec fn mac_of(key: Seq<u8>, data: Seq<u8>) -> Seq<u8>;

/// ChaCha20-Poly1305 encryption under a 12-byte nonce: ciphertext and tag.
pub uninterp spec fn seal_of(key: Seq<u8>, nonce: Seq<u8>, aad: Seq<u8>, pt: Seq<u8>) -> Seq<u8>;

/// XChaCha20-Poly1305 encryption under a 24-byte nonce: ciphertext and tag.
pub uninterp spec fn xseal_of(key: Seq<u8>, nonce: Seq<u8>, aad: Seq<u8>, pt: Seq<u8>) -> Seq<u8>;

/// Relies on x25519_dalek::x25519: scalar multiplication of `u` by the clamped `k`.
/// When `u` is the public key of `y` (the base point times the clamped `y`), the
/// result is also `y`'s X25519 with the public key of `k`: the two clamped
/// scalars multiply the base point in either order.
#[verifier::external_body]
pub(crate) fn x25519(k: &[u8], u: &[u8]) -> (r: Vec<u8>)
    requires
        k@.len() == 32,
        u@.len() == 32,
    ensures
        r@ == x25519_of(k@, u@),
        r@.len() == 32,
        forall|y: Seq<u8>| y.len() == 32 && #[trigger] public_of(y) == u@ ==> r@ == x25519_of(y, public_of(k@)),
{
    let k: [u8; 32] = k.try_into().unwrap();
    let u: [u8; 32] = u.try_into().unwrap();
    x25519_dalek::x25519(k, u).to_vec()
}

/// Relies on x25519_dalek's `PublicKey::from(&StaticSecret)`: the public key of `k`.
#[verifier::external_body]
pub(crate) fn public_key(k: &[u8]) -> (r: Vec<u8>)
    requires
        k@.len() == 32,
    ensures
        r@ == public_of(k@),
        r@.len() == 32,
{
    let k: [u8; 32] = k.try_into().unwrap();
    PublicKey::from(&StaticSecret::from(k)).to_bytes().to_vec()
}

/// Relies on `OsRng::try_fill_bytes` (the operating system's random source):
/// `n` random bytes, or `None` where the source reports an error.
#[verifier::external_body]
pub(crate) fn random_bytes(n: usize) -> (r: Option<Vec<u8>>)
    ensures
        r matches Some(v) ==> v@.len() == n,
{
    let mut v = vec![0u8; n];
    OsRng.try_fill_bytes(&mut v).ok().map(|_| v)
}

/// Relies on blake2's `Blake2s256::digest`.
#[verifier::external_body]
pub(crate) fn blake2s(data: &[u8]) -> (r: Vec<u8>)
    ensures
        r@ == blake2s_of(data@),
        r@.len() == 32,
{
    Blake2s256::digest(data).to_vec()
}

/// Relies on hmac's `SimpleHmac<Blake2s256>`, which takes keys of any length.
#[verifier::external_body]
pub(crate) fn hmac(key: &[u8], data: &[u8]) -> (r: Vec<u8>)
    ensures
        r@ == hmac_of(key@, data@),
        r@.len() == 32,
{
    let mut m = <SimpleHmac<Blake2s256> as KeyInit>::new_from_slice(key).unwrap();
    Mac::update(&mut m, data);
    m.finalize().into_bytes().to_vec()
}

/// Relies on blake2's `Blake2sMac<U16>`, which takes keys of at most 32 bytes.
#[verifier::external_body]
pub(crate) fn mac(key: &[u8], data: &[u8]) -> (r: Vec<u8>)
    requires
        key@.len() <= 32,
    ensures
        r@ == mac_of(key@, data@),
        r@.len() == 16,
{
    let mut m = <Blake2sMac<U16> as KeyInit>::new_from_slice(key).unwrap();
    Mac::update(&mut m, data);
    m.finalize().into_bytes().to_vec()
}

/// Relies on `ChaCha20Poly1305::encrypt` with a 12-byte nonce; it fails only on
/// a plaintext of 64 * (2^32 - 1) bytes or more.
#[verifier::external_body]
pub(crate) fn seal(key: &[u8], nonce: &[u8], aad: &[u8], pt: &[u8]) -> (r: Vec<u8>)
    requires
        key@.len() == 32,
        nonce@.len() == 12,
        pt@.len() < MAX_PLAINTEXT,
    ensures
        r@ == seal_of(key@, nonce@, aad@, pt@),
        r@.len() == pt@.len() + 16,
{
    let c = ChaCha20Poly1305::new_from_slice(key).unwrap();
    let n: [u8; 12] = nonce.try_into().unwrap();
    c.encrypt(&n.into(), Payload { msg: pt, aad }).unwrap()
}

/// Relies on `ChaCha20Poly1305::decrypt`: it succeeds exactly on the sealing of some
/// plaintext under the same key, nonce and associated data, and returns that plaintext.
#[verifier::external_body]
pub(crate) fn open(key: &[u8], nonce: &[u8], aad: &[u8], ct: &[u8]) -> (r: Option<Vec<u8>>)
    requires
        key@.len() == 32,
        nonce@.len() == 12,
    ensures
        r.is_some() ==> seal_of(key@, nonce@, aad@, r.unwrap()@) == ct@,
        forall|p: Seq<u8>| #[trigger] seal_of(key@, nonce@, aad@, p) == ct@ ==> r.is_some() && r.unwrap()@ == p,
{
    let c = ChaCha20Poly1305::new_from_slice(key).unwrap();
    let n: [u8; 12] = nonce.try_into().unwrap();
    c.decrypt(&n.into(), Payload { msg: ct, aad }).ok()
}

/// Relies on `XChaCha20Poly1305::encrypt` with a 24-byte nonce.
#[verifier::external_body]
pub(crate) fn xseal(key: &[u8], nonce: &[u8], aad: &[u8], pt: &[u8]) -> (r: Vec<u8>)
    requires
        key@.len() == 32,
        nonce@.len() == 24,
        pt@.len() < MAX_PLAINTEXT,
    ensures
        r@ == xseal_of(key@, nonce@, aad@, pt@),
        r@.len() == pt@.len() + 16,
{
    let c = XChaCha20Poly1305::new_from_slice(key).unwrap();
    let n: [u8; 24] = nonce.try_into().unwrap();
    c.encrypt(&n.into(), Payload { msg: pt, aad }).unwrap()
}

/// Relies on `XChaCha20Poly1305::decrypt`: it succeeds exactly on the sealing of some
/// plaintext under the same key, nonce and associated data, and returns that plaintext.
#[verifier::external_body]
pub(crate) fn xopen(key: &[u8], nonce: &[u8], aad: &[u8], ct: &[u8]) -> (r: Option<Vec<u8>>)
    requires
        key@.len() == 32,
        nonce@.len() == 24,
    ensures
        r.is_some() ==> xseal_of(key@, nonce@, aad@, r.unwrap()@) == ct@,
        forall|p: Seq<u8>| #[trigger] xseal_of(key@, nonce@, aad@, p) == ct@ ==> r.is_some() && r.unwrap()@ == p,
{
    let c = XChaCha20Poly1305::new_from_slice(key).unwrap();
    let n: [u8; 24] = nonce.try_into().unwrap();
    c.decrypt(&n.into(), Payload { msg: ct, aad }).ok()
}

} // verus!
