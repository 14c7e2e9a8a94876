//! The WireGuard handshake: Noise IKpsk2 over X25519, BLAKE2s and
//! ChaCha20-Poly1305, with the MACs and cookies that guard it.
use vstd::prelude::*;
use crate::bytes::{counter_nonce, counter_nonce_of, le_u32, lemma_u32_round_trip, wipe_bytes, append_bytes, bytes_eq, copy_range, push_u32_le, u32_le};
use crate::crypto::{x25519_of, xseal_of, blake2s, blake2s_of, hmac, hmac_of, mac, mac_of, open, public_key, public_of, random_bytes, seal, seal_of, x25519, xopen, xseal};
use crate::errors::WireGuardError;
use crate::messages::{HANDSHAKE_INIT, HANDSHAKE_INIT_SZ, HANDSHAKE_RESP_SZ, COOKIE_REPLY_SZ, HANDSHAKE_RESP, COOKIE_REPLY, INIT_MAC1_OFF, INIT_MAC2_OFF, RESP_MAC1_OFF};
use crate::session::Session;

verus! {

/// How long a cookie received from the peer stays usable (ms).
pub const COOKIE_EXPIRATION_TIME: u64 = 120_000;
/// How often the secret behind the cookies this side issues is replaced (ms).
pub const COOKIE_SECRET_LIFETIME: u64 = 120_000;

/// `a ++ b`.
pub fn concat(a: &[u8], b: &[u8]) -> (r: Vec<u8>)
    ensures
        r@ == a@ + b@,
{
    let mut r: Vec<u8> = Vec::new();
    append_bytes(&mut r, a);
    append_bytes(&mut r, b);
    r
}

/// BLAKE2s of `a ++ b`: how the handshake hash absorbs each field.
pub fn hash2(a: &[u8], b: &[u8]) -> (r: Vec<u8>)
    ensures
        r@ == blake2s_of(a@ + b@),
        r@.len() == 32,
{
    let c = concat(a, b);
    blake2s(c.as_slice())
}

pub open spec fn kdf_t0(key: Seq<u8>, input: Seq<u8>) -> Seq<u8> {
    hmac_of(key, input)
}

/// The first output of the HKDF chain.
pub open spec fn kdf_1(key: Seq<u8>, input: Seq<u8>) -> Seq<u8> {
    hmac_of(kdf_t0(key, input), seq![1u8])
}

/// The second output of the HKDF chain.
pub open spec fn kdf_2(key: Seq<u8>, input: Seq<u8>) -> Seq<u8> {
    hmac_of(kdf_t0(key, input), kdf_1(key, input) + seq![2u8])
}

/// The third output of the HKDF chain.
pub open spec fn kdf_3(key: Seq<u8>, input: Seq<u8>) -> Seq<u8> {
    hmac_of(kdf_t0(key, input), kdf_2(key, input) + seq![3u8])
}

/// HKDF over HMAC-BLAKE2s, with up to three outputs.
pub fn kdf(key: &[u8], input: &[u8], n: usize) -> (r: (Vec<u8>, Vec<u8>, Vec<u8>))
    requires
        1 <= n <= 3,
    ensures
        r.0@ == kdf_1(key@, input@),
        r.0@.len() == 32,
        n >= 2 ==> r.1@ == kdf_2(key@, input@) && r.1@.len() == 32,
        n >= 3 ==> r.2@ == kdf_3(key@, input@) && r.2@.len() == 32,
{
    let t0 = hmac(key, input);
    let one: Vec<u8> = vec![1u8];
    assert(one@ =~= seq![1u8]);
    let t1 = hmac(t0.as_slice(), one.as_slice());
    if n == 1 {
        return (t1, Vec::new(), Vec::new());
    }
    let two: Vec<u8> = vec![2u8];
    assert(two@ =~= seq![2u8]);
    let m2 = concat(t1.as_slice(), two.as_slice());
    assert(m2@ =~= kdf_1(key@, input@) + seq![2u8]);
    let t2 = hmac(t0.as_slice(), m2.as_slice());
    if n == 2 {
        return (t1, t2, Vec::new());
    }
    let three: Vec<u8> = vec![3u8];
    assert(three@ =~= seq![3u8]);
    let m3 = concat(t2.as_slice(), three.as_slice());
    assert(m3@ =~= kdf_2(key@, input@) + seq![3u8]);
    let t3 = hmac(t0.as_slice(), m3.as_slice());
    (t1, t2, t3)
}

/// The eight big-endian bytes of `v`.
pub open spec fn u64_be(v: u64) -> Seq<u8> {
    seq![
        (v >> 56u64) as u8, (v >> 48u64) as u8, (v >> 40u64) as u8, (v >> 32u64) as u8,
        (v >> 24u64) as u8, (v >> 16u64) as u8, (v >> 8u64) as u8, v as u8,
    ]
}

/// The four big-endian bytes of `v`.
pub open spec fn u32_be(v: u32) -> Seq<u8> {
    seq![(v >> 24u32) as u8, (v >> 16u32) as u8, (v >> 8u32) as u8, v as u8]
}

/// The TAI64N label of the time `ms` milliseconds after the UNIX epoch.
pub open spec fn tai64n_of(ms: u64) -> Seq<u8> {
    u64_be(((ms / 1000) + 0x4000_0000_0000_000a) as u64) + u32_be(((ms % 1000) * 1_000_000) as u32)
}

/// The 12-byte TAI64N timestamp that an initiation carries.
pub fn tai64n(ms: u64) -> (r: Vec<u8>)
    ensures
        r@ == tai64n_of(ms),
        r@.len() == 12,
{
    let s: u64 = ms / 1000 + 0x4000_0000_0000_000a;
    let ns: u32 = ((ms % 1000) * 1_000_000) as u32;
    let mut r: Vec<u8> = Vec::with_capacity(12);
    r.push((s >> 56u64) as u8);
    r.push((s >> 48u64) as u8);
    r.push((s >> 40u64) as u8);
    r.push((s >> 32u64) as u8);
    r.push((s >> 24u64) as u8);
    r.push((s >> 16u64) as u8);
    r.push((s >> 8u64) as u8);
    r.push(s as u8);
    r.push((ns >> 24u32) as u8);
    r.push((ns >> 16u32) as u8);
    r.push((ns >> 8u32) as u8);
    r.push(ns as u8);
    assert(r@ =~= tai64n_of(ms));
    r
}

/// `a` comes after `b` in byte order (both of the same length).
pub open spec fn bytes_after(a: Seq<u8>, b: Seq<u8>) -> bool {
    exists|i: int| 0 <= i < a.len() && i < b.len() && a[i] > b[i] && a.subrange(0, i) == b.subrange(0, i)
}

/// Whether `a` comes strictly after `b` in byte order.
pub fn is_after(a: &[u8], b: &[u8]) -> (r: bool)
    requires
        a@.len() == b@.len(),
    ensures
        r == bytes_after(a@, b@),
{
    let mut i: usize = 0;
    while i < a.len()
        invariant
            a@.len() == b@.len(),
            i <= a@.len(),
            a@.subrange(0, i as int) == b@.subrange(0, i as int),
        decreases a@.len() - i,
    {
        if a[i] != b[i] {
            if a[i] > b[i] {
                return true;
            }
            assert forall|j: int| 0 <= j < a@.len() && a@[j] > b@[j] implies a@.subrange(0, j) != b@.subrange(0, j) by {
                if j > i {
                    assert(a@.subrange(0, j)[i as int] != b@.subrange(0, j)[i as int]);
                } else if j < i {
                    assert(a@.subrange(0, i as int)[j] == b@.subrange(0, i as int)[j]);
                }
            }
            return false;
        }
        assert(a@.subrange(0, i + 1) =~= a@.subrange(0, i as int).push(a@[i as int]));
        assert(b@.subrange(0, i + 1) =~= b@.subrange(0, i as int).push(b@[i as int]));
        i = i + 1;
    }
    assert forall|j: int| 0 <= j < a@.len() && a@[j] > b@[j] implies a@.subrange(0, j) != b@.subrange(0, j) by {
        assert(a@.subrange(0, a@.len() as int)[j] == b@.subrange(0, a@.len() as int)[j]);
    }
    false
}

/// BLAKE2s("Noise_IKpsk2_25519_ChaChaPoly_BLAKE2s"): the chaining key every handshake starts from.
pub open spec fn initial_ck() -> Seq<u8> {
    seq![0x60u8, 0xe2, 0x6d, 0xae, 0xf3, 0x27, 0xef, 0xc0, 0x2e, 0xc3, 0x35, 0xe2, 0xa0, 0x25, 0xd2, 0xd0,
        0x16, 0xeb, 0x42, 0x06, 0xf8, 0x72, 0x77, 0xf5, 0x2d, 0x38, 0xd1, 0x98, 0x8b, 0x78, 0xcd, 0x36]
}

fn initial_chain_key() -> (r: Vec<u8>)
    ensures
        r@ == initial_ck(),
        r@.len() == 32,
{
    let r: Vec<u8> = vec![
        0x60, 0xe2, 0x6d, 0xae, 0xf3, 0x27, 0xef, 0xc0, 0x2e, 0xc3, 0x35, 0xe2, 0xa0, 0x25, 0xd2, 0xd0,
        0x16, 0xeb, 0x42, 0x06, 0xf8, 0x72, 0x77, 0xf5, 0x2d, 0x38, 0xd1, 0x98, 0x8b, 0x78, 0xcd, 0x36,
    ];
    assert(r@ =~= initial_ck());
    r
}

/// BLAKE2s of the initial chaining key and "WireGuard v1 zx2c4 Jason@zx2c4.com".
pub open spec fn initial_ch() -> Seq<u8> {
    seq![0x22u8, 0x11, 0xb3, 0x61, 0x08, 0x1a, 0xc5, 0x66, 0x69, 0x12, 0x43, 0xdb, 0x45, 0x8a, 0xd5, 0x32,
        0x2d, 0x9c, 0x6c, 0x66, 0x22, 0x93, 0xe8, 0xb7, 0x0e, 0xe1, 0x9c, 0x65, 0xba, 0x07, 0x9e, 0xf3]
}

fn initial_chain_hash() -> (r: Vec<u8>)
    ensures
        r@ == initial_ch(),
        r@.len() == 32,
{
    let r: Vec<u8> = vec![
        0x22, 0x11, 0xb3, 0x61, 0x08, 0x1a, 0xc5, 0x66, 0x69, 0x12, 0x43, 0xdb, 0x45, 0x8a, 0xd5, 0x32,
        0x2d, 0x9c, 0x6c, 0x66, 0x22, 0x93, 0xe8, 0xb7, 0x0e, 0xe1, 0x9c, 0x65, 0xba, 0x07, 0x9e, 0xf3,
    ];
    assert(r@ =~= initial_ch());
    r
}

/// The label "mac1----".
pub open spec fn label_mac1() -> Seq<u8> {
    seq![0x6du8, 0x61, 0x63, 0x31, 0x2d, 0x2d, 0x2d, 0x2d]
}

/// The label "cookie--".
pub open spec fn label_cookie() -> Seq<u8> {
    seq![0x63u8, 0x6f, 0x6f, 0x6b, 0x69, 0x65, 0x2d, 0x2d]
}

fn label_mac1_bytes() -> (r: Vec<u8>)
    ensures
        r@ == label_mac1(),
{
    let r: Vec<u8> = vec![0x6du8, 0x61, 0x63, 0x31, 0x2d, 0x2d, 0x2d, 0x2d];
    assert(r@ =~= label_mac1());
    r
}

fn label_cookie_bytes() -> (r: Vec<u8>)
    ensures
        r@ == label_cookie(),
{
    let r: Vec<u8> = vec![0x63u8, 0x6f, 0x6f, 0x6b, 0x69, 0x65, 0x2d, 0x2d];
    assert(r@ =~= label_cookie());
    r
}

/// The key under which messages to the holder of `public` carry `mac1`.
pub open spec fn mac1_key_of(public: Seq<u8>) -> Seq<u8> {
    blake2s_of(label_mac1() + public)
}

/// The key under which cookies for the holder of `public` travel.
pub open spec fn cookie_key_of(public: Seq<u8>) -> Seq<u8> {
    blake2s_of(label_cookie() + public)
}

/// The first MAC of a message is right: the keyed hash of everything before it.
pub open spec fn mac1_valid(key: Seq<u8>, msg: Seq<u8>, off: int) -> bool {
    mac_of(key, msg.subrange(0, off)) == msg.subrange(off, off + 16)
}

/// The cookie that the holder of `secret` issues to the address `addr`.
pub open spec fn cookie_of(secret: Seq<u8>, addr: Seq<u8>) -> Seq<u8> {
    mac_of(secret, addr)
}

/// The second MAC of a message is right under `cookie`.
pub open spec fn mac2_valid(cookie: Seq<u8>, msg: Seq<u8>, off: int) -> bool {
    mac_of(cookie, msg.subrange(0, off)) == msg.subrange(off, off + 16)
}

/// The chaining key once the initiator has taken in the response whose
/// ephemeral key is `peer_e`: the chain so far, then the responder's ephemeral
/// key, both DH results with it, and the preshared key.
pub open spec fn response_chain(ck: Seq<u8>, ephemeral: Seq<u8>, static_private: Seq<u8>, psk: Seq<u8>, peer_e: Seq<u8>) -> Seq<u8> {
    let ck1 = kdf_1(ck, peer_e);
    let ck2 = kdf_1(ck1, x25519_of(ephemeral, peer_e));
    let ck3 = kdf_1(ck2, x25519_of(static_private, peer_e));
    kdf_1(ck3, psk)
}

/// The chaining key once the initiator has sent an initiation with ephemeral
/// private key `e` to the holder of `peer_static`.
pub open spec fn initiator_chain(e: Seq<u8>, peer_static: Seq<u8>, static_shared: Seq<u8>) -> Seq<u8> {
    let ck1 = kdf_1(initial_ck(), public_of(e));
    let ck2 = kdf_1(ck1, x25519_of(e, peer_static));
    kdf_1(ck2, static_shared)
}

/// The chaining key once the responder has taken in an initiation whose
/// ephemeral key is `peer_e`.
pub open spec fn initiation_chain(static_private: Seq<u8>, static_shared: Seq<u8>, peer_e: Seq<u8>) -> Seq<u8> {
    let ck1 = kdf_1(initial_ck(), peer_e);
    let ck2 = kdf_1(ck1, x25519_of(static_private, peer_e));
    kdf_1(ck2, static_shared)
}

/// The responder's chaining key after its ephemeral key `e` and both DH
/// results with it, before the preshared key.
pub open spec fn responder_ck3(ck: Seq<u8>, e: Seq<u8>, peer_static: Seq<u8>, peer_e: Seq<u8>) -> Seq<u8> {
    kdf_1(kdf_1(kdf_1(ck, public_of(e)), x25519_of(e, peer_e)), x25519_of(e, peer_static))
}

/// The chaining key from which the responder derives the transport keys, with
/// its ephemeral private key `e`.
pub open spec fn responder_chain(ck: Seq<u8>, e: Seq<u8>, peer_static: Seq<u8>, psk: Seq<u8>, peer_e: Seq<u8>) -> Seq<u8> {
    let ck1 = kdf_1(ck, public_of(e));
    let ck2 = kdf_1(ck1, x25519_of(e, peer_e));
    let ck3 = kdf_1(ck2, x25519_of(e, peer_static));
    kdf_1(ck3, psk)
}

/// The handshake hash under which an initiation's static key is sealed, as the
/// responder holding `own_public` recomputes it.
pub open spec fn static_hash(own_public: Seq<u8>, peer_e: Seq<u8>) -> Seq<u8> {
    blake2s_of(blake2s_of(initial_ch() + own_public) + peer_e)
}

/// The key under which an initiation's static key is sealed.
pub open spec fn static_key(static_private: Seq<u8>, peer_e: Seq<u8>) -> Seq<u8> {
    kdf_2(kdf_1(initial_ck(), peer_e), x25519_of(static_private, peer_e))
}

/// The handshake hash under which an initiation's timestamp is sealed.
pub open spec fn timestamp_hash(own_public: Seq<u8>, peer_e: Seq<u8>, encrypted_static: Seq<u8>) -> Seq<u8> {
    blake2s_of(static_hash(own_public, peer_e) + encrypted_static)
}

/// The key under which an initiation's timestamp is sealed.
pub open spec fn timestamp_key(static_private: Seq<u8>, static_shared: Seq<u8>, peer_e: Seq<u8>) -> Seq<u8> {
    kdf_2(kdf_1(kdf_1(initial_ck(), peer_e), x25519_of(static_private, peer_e)), static_shared)
}

/// The key under which the initiator with ephemeral private key `e` seals its
/// static key for the holder of `peer_static`.
pub open spec fn initiator_static_key(e: Seq<u8>, peer_static: Seq<u8>) -> Seq<u8> {
    kdf_2(kdf_1(initial_ck(), public_of(e)), x25519_of(e, peer_static))
}

/// The key under which that initiator seals its timestamp.
pub open spec fn initiator_timestamp_key(e: Seq<u8>, peer_static: Seq<u8>, static_shared: Seq<u8>) -> Seq<u8> {
    kdf_2(kdf_1(kdf_1(initial_ck(), public_of(e)), x25519_of(e, peer_static)), static_shared)
}

/// The handshake hash once an initiation with these fields has been absorbed,
/// by the side that holds `responder_public`.
pub open spec fn initiation_hash(responder_public: Seq<u8>, peer_e: Seq<u8>, encrypted_static: Seq<u8>, encrypted_timestamp: Seq<u8>) -> Seq<u8> {
    blake2s_of(timestamp_hash(responder_public, peer_e, encrypted_static) + encrypted_timestamp)
}

/// The chaining key of the initiator after the response's ephemeral key and
/// both DH results with it, before the preshared key.
pub open spec fn response_ck3(ck: Seq<u8>, ephemeral: Seq<u8>, static_private: Seq<u8>, peer_e: Seq<u8>) -> Seq<u8> {
    kdf_1(kdf_1(kdf_1(ck, peer_e), x25519_of(ephemeral, peer_e)), x25519_of(static_private, peer_e))
}

/// The key under which a response's empty payload is sealed.
pub open spec fn response_key(ck: Seq<u8>, ephemeral: Seq<u8>, static_private: Seq<u8>, psk: Seq<u8>, peer_e: Seq<u8>) -> Seq<u8> {
    kdf_3(response_ck3(ck, ephemeral, static_private, peer_e), psk)
}

/// The handshake hash under which a response's empty payload is sealed.
pub open spec fn response_hash(h: Seq<u8>, ck: Seq<u8>, ephemeral: Seq<u8>, static_private: Seq<u8>, psk: Seq<u8>, peer_e: Seq<u8>) -> Seq<u8> {
    blake2s_of(blake2s_of(h + peer_e) + kdf_2(response_ck3(ck, ephemeral, static_private, peer_e), psk))
}

/// Where a handshake stands.
pub enum HandshakeState {
    Idle,
    InitSent { local_index: u32, hash: Vec<u8>, chaining_key: Vec<u8>, ephemeral_private: Vec<u8>, time_sent: u64 },
    Established,
}

/// The static keys of both sides and the state of the handshake between them.
pub struct Handshake {
    pub static_private: Vec<u8>,
    pub static_public: Vec<u8>,
    pub peer_static_public: Vec<u8>,
    pub preshared_key: Vec<u8>,
    /// DH of the two static keys, computed once.
    pub static_shared: Vec<u8>,
    pub mac1_key_own: Vec<u8>,
    pub mac1_key_peer: Vec<u8>,
    pub cookie_key_own: Vec<u8>,
    pub cookie_key_peer: Vec<u8>,
    pub state: HandshakeState,
    /// The latest timestamp accepted from the peer.
    pub last_peer_timestamp: Vec<u8>,
    /// The cookie the peer last sent, and when.
    pub cookie: Option<Vec<u8>>,
    pub cookie_received_at: u64,
    /// The `mac1` of the last initiation sent, which a cookie reply answers.
    pub last_mac1: Option<Vec<u8>>,
    pub index_base: u32,
    pub index_counter: u32,
    /// The secret behind the cookies this side issues, and when it was drawn.
    pub cookie_secret: Vec<u8>,
    /// `None` until a secret has been drawn from the random source.
    pub cookie_secret_at: Option<u64>,
}

impl HandshakeState {
    pub open spec fn wf(&self) -> bool {
        self matches HandshakeState::InitSent { hash, chaining_key, ephemeral_private, .. } ==> {
            hash@.len() == 32 && chaining_key@.len() == 32 && ephemeral_private@.len() == 32
        }
    }
}

impl Handshake {
    pub open spec fn wf(&self) -> bool {
        &&& self.static_private@.len() == 32
        &&& self.static_public@.len() == 32
        &&& self.peer_static_public@.len() == 32
        &&& self.preshared_key@.len() == 32
        &&& self.static_shared@.len() == 32
        &&& self.static_public@ == public_of(self.static_private@)
        &&& self.static_shared@ == x25519_of(self.static_private@, self.peer_static_public@)
        &&& self.mac1_key_own@ == mac1_key_of(self.static_public@)
        &&& self.mac1_key_peer@ == mac1_key_of(self.peer_static_public@)
        &&& self.mac1_key_own@.len() == 32
        &&& self.mac1_key_peer@.len() == 32
        &&& self.cookie_key_own@ == cookie_key_of(self.static_public@)
        &&& self.cookie_key_peer@ == cookie_key_of(self.peer_static_public@)
        &&& self.cookie_key_own@.len() == 32
        &&& self.cookie_key_peer@.len() == 32
        &&& self.state.wf()
        &&& self.last_peer_timestamp@.len() == 12
        &&& (self.cookie matches Some(c) ==> c@.len() == 16)
        &&& (self.last_mac1 matches Some(m) ==> m@.len() == 16)
        &&& self.cookie_secret@.len() == 32
    }

    /// The handshake between the holder of `static_private` and the peer that
    /// holds `peer_static_public`; an absent preshared key is all zeros.
    pub fn new(static_private: Vec<u8>, peer_static_public: Vec<u8>, preshared_key: Option<Vec<u8>>, index: u32, now: u64) -> (r: Handshake)
        requires
            static_private@.len() == 32,
            peer_static_public@.len() == 32,
            preshared_key matches Some(k) ==> k@.len() == 32,
        ensures
            r.wf(),
            r.static_private == static_private,
            r.peer_static_public == peer_static_public,
            r.static_public@ == public_of(static_private@),
            r.state is Idle,
            r.cookie is None,
            r.last_mac1 is None,
            r.index_base == index,
            r.last_peer_timestamp@ == Seq::new(12, |i: int| 0u8),
            preshared_key matches Some(k) ==> r.preshared_key == k,
            preshared_key is None ==> r.preshared_key@ == Seq::new(32, |i: int| 0u8),
    {
        let static_public = public_key(static_private.as_slice());
        let static_shared = x25519(static_private.as_slice(), peer_static_public.as_slice());
        let l1 = label_mac1_bytes();
        let lc = label_cookie_bytes();
        let mac1_key_own = hash2(l1.as_slice(), static_public.as_slice());
        let mac1_key_peer = hash2(l1.as_slice(), peer_static_public.as_slice());
        let cookie_key_own = hash2(lc.as_slice(), static_public.as_slice());
        let cookie_key_peer = hash2(lc.as_slice(), peer_static_public.as_slice());
        let (cookie_secret, cookie_secret_at) = match random_bytes(32) {
            Some(k) => (k, Some(now)),
            None => (vec![0u8; 32], None),
        };
        let preshared_key = match preshared_key {
            Some(k) => k,
            None => {
                let z = vec![0u8; 32];
                assert(z@ =~= Seq::new(32, |i: int| 0u8));
                z
            },
        };
        let last_peer_timestamp = vec![0u8; 12];
        assert(last_peer_timestamp@ =~= Seq::new(12, |i: int| 0u8));
        Handshake {
            static_private,
            static_public,
            peer_static_public,
            preshared_key,
            static_shared,
            mac1_key_own,
            mac1_key_peer,
            cookie_key_own,
            cookie_key_peer,
            state: HandshakeState::Idle,
            last_peer_timestamp,
            cookie: None,
            cookie_received_at: 0,
            last_mac1: None,
            index_base: index,
            index_counter: 0,
            cookie_secret,
            cookie_secret_at,
        }
    }

    /// A cookie from the peer is held and younger than `COOKIE_EXPIRATION_TIME`.
    pub open spec fn cookie_live(&self, now: u64) -> bool {
        self.cookie is Some && now >= self.cookie_received_at && now - self.cookie_received_at < COOKIE_EXPIRATION_TIME
    }

    /// A fresh local session index: the base index with a rolling low byte.
    fn next_index(&mut self) -> (r: u32)
        ensures
            *final(self) == (Handshake { index_counter: final(self).index_counter, ..*old(self) }),
    {
        let r: u32 = (self.index_base << 8u32) | (self.index_counter & 0xffu32);
        self.index_counter = if self.index_counter == u32::MAX { 0 } else { self.index_counter + 1 };
        r
    }

    /// Appends `mac1` under `mac1_key_peer` and `mac2` under a live cookie (or
    /// zeros), and remembers `mac1`.
    fn append_macs(&mut self, msg: &mut Vec<u8>, now: u64)
        requires
            old(self).wf(),
        ensures
            final(self).wf(),
            *final(self) == (Handshake { last_mac1: final(self).last_mac1, ..*old(self) }),
            final(msg)@.len() == old(msg)@.len() + 32,
            final(msg)@.subrange(0, old(msg)@.len() as int) == old(msg)@,
            mac1_valid(old(self).mac1_key_peer@, final(msg)@, old(msg)@.len() as int),
            old(self).cookie_live(now) ==> mac2_valid(old(self).cookie.unwrap()@, final(msg)@, old(msg)@.len() + 16int),
    {
        let m1 = mac(self.mac1_key_peer.as_slice(), msg.as_slice());
        let n = msg.len();
        append_bytes(msg, m1.as_slice());
        assert(msg@.subrange(0, n as int) =~= old(msg)@);
        assert(msg@.subrange(n as int, n + 16) =~= m1@);
        let live = match &self.cookie {
            Some(_) => now >= self.cookie_received_at && now - self.cookie_received_at < COOKIE_EXPIRATION_TIME,
            None => false,
        };
        let m2 = if live {
            let c = self.cookie.as_ref().unwrap();
            mac(c.as_slice(), msg.as_slice())
        } else {
            vec![0u8; 16]
        };
        let ghost before = msg@;
        append_bytes(msg, m2.as_slice());
        assert(msg@.subrange(0, n as int) =~= before.subrange(0, n as int));
        assert(msg@.subrange(n as int, n + 16) =~= before.subrange(n as int, n + 16));
        assert(msg@.subrange(0, n + 16) =~= before);
        assert(msg@.subrange(n + 16, n + 32) =~= m2@);
        self.last_mac1 = Some(m1);
    }

    /// `new` is `old` after sending the initiation `m` at `now`.
    pub open spec fn initiation_sent(old: Handshake, new: Handshake, now: u64, m: Seq<u8>) -> bool {
        &&& new.wf()
        &&& m.len() == HANDSHAKE_INIT_SZ
        &&& m.subrange(0, 4) == u32_le(HANDSHAKE_INIT)
        &&& new.state matches HandshakeState::InitSent { local_index, time_sent, ephemeral_private, chaining_key, .. }
            && m.subrange(4, 8) == u32_le(local_index) && time_sent == now
            && m.subrange(8, 40) == public_of(ephemeral_private@)
            && chaining_key@ == initiator_chain(ephemeral_private@, old.peer_static_public@, old.static_shared@)
        &&& new.state matches HandshakeState::InitSent { ephemeral_private, hash, .. }
            && m.subrange(40, 88) == seal_of(initiator_static_key(ephemeral_private@, old.peer_static_public@), counter_nonce_of(0),
                static_hash(old.peer_static_public@, public_of(ephemeral_private@)), old.static_public@)
            && m.subrange(88, 116) == seal_of(initiator_timestamp_key(ephemeral_private@, old.peer_static_public@, old.static_shared@), counter_nonce_of(0),
                timestamp_hash(old.peer_static_public@, public_of(ephemeral_private@), m.subrange(40, 88)), tai64n_of(now))
            && hash@ == initiation_hash(old.peer_static_public@, public_of(ephemeral_private@), m.subrange(40, 88), m.subrange(88, 116))
        &&& mac1_valid(old.mac1_key_peer@, m, INIT_MAC1_OFF as int)
        &&& old.cookie_live(now) ==> mac2_valid(old.cookie.unwrap()@, m, INIT_MAC2_OFF as int)
        &&& new == (Handshake { state: new.state, index_counter: new.index_counter, last_mac1: new.last_mac1, ..old })
    }

    /// Starts a handshake: the initiation message, or `Ok(None)` when one is in
    /// flight and `force` is not set. Fails only if the random source does.
    pub fn format_initiation(&mut self, now: u64, force: bool) -> (r: Result<Option<Vec<u8>>, WireGuardError>)
        requires
            old(self).wf(),
        ensures
            final(self).wf(),
            r == Ok::<Option<Vec<u8>>, WireGuardError>(None) <==> (old(self).state is InitSent && !force),
            r is Err ==> r == Err::<Option<Vec<u8>>, WireGuardError>(WireGuardError::RandomUnavailable),
            !(r matches Ok(Some(_))) ==> *final(self) == *old(self),
            r matches Ok(Some(m)) ==> Self::initiation_sent(*old(self), *final(self), now, m@),
    {
        if !force {
            if let HandshakeState::InitSent { .. } = &self.state {
                return Ok(None);
            }
        }
        let eph = match random_bytes(32) {
            Some(e) => e,
            None => return Err(WireGuardError::RandomUnavailable),
        };
        Ok(Some(self.initiation_from(eph, now)))
    }

    /// The initiation sent at `now` with the ephemeral private key
    /// `ephemeral_private`; the handshake is then in flight with that key.
    pub fn initiation_from(&mut self, ephemeral_private: Vec<u8>, now: u64) -> (r: Vec<u8>)
        requires
            old(self).wf(),
            ephemeral_private@.len() == 32,
        ensures
            Self::initiation_sent(*old(self), *final(self), now, r@),
            final(self).state matches HandshakeState::InitSent { ephemeral_private: e, .. } && e@ == ephemeral_private@,
    {
        let eph = ephemeral_private;
        let zero_nonce = counter_nonce(0);
        let local_index = self.next_index();
        let ck = initial_chain_key();
        let ich = initial_chain_hash();
        let h = hash2(ich.as_slice(), self.peer_static_public.as_slice());
        let eph_pub = public_key(eph.as_slice());
        let (ck, _, _) = kdf(ck.as_slice(), eph_pub.as_slice(), 1);
        let h = hash2(h.as_slice(), eph_pub.as_slice());
        let dh = x25519(eph.as_slice(), self.peer_static_public.as_slice());
        let (ck, k, _) = kdf(ck.as_slice(), dh.as_slice(), 2);
        let enc_static = seal(k.as_slice(), zero_nonce.as_slice(), h.as_slice(), self.static_public.as_slice());
        let h = hash2(h.as_slice(), enc_static.as_slice());
        let (ck, k, _) = kdf(ck.as_slice(), self.static_shared.as_slice(), 2);
        let ts = tai64n(now);
        let enc_ts = seal(k.as_slice(), zero_nonce.as_slice(), h.as_slice(), ts.as_slice());
        let h = hash2(h.as_slice(), enc_ts.as_slice());
        let mut msg: Vec<u8> = Vec::with_capacity(HANDSHAKE_INIT_SZ);
        push_u32_le(&mut msg, HANDSHAKE_INIT);
        push_u32_le(&mut msg, local_index);
        append_bytes(&mut msg, eph_pub.as_slice());
        append_bytes(&mut msg, enc_static.as_slice());
        append_bytes(&mut msg, enc_ts.as_slice());
        let ghost body = msg@;
        assert(body.subrange(0, 4) =~= u32_le(HANDSHAKE_INIT));
        assert(body.subrange(4, 8) =~= u32_le(local_index));
        assert(body.subrange(8, 40) =~= eph_pub@);
        self.append_macs(&mut msg, now);
        assert(INIT_MAC1_OFF + 16 == INIT_MAC2_OFF);
        assert(msg@.subrange(8, 40) =~= body.subrange(0, 116).subrange(8, 40));
        assert(msg@.subrange(0, 4) =~= body.subrange(0, 116).subrange(0, 4));
        assert(msg@.subrange(4, 8) =~= body.subrange(0, 116).subrange(4, 8));
        assert(msg@.subrange(0, 4) == u32_le(HANDSHAKE_INIT));
        assert(msg@.subrange(4, 8) == u32_le(local_index));
        assert(msg@.subrange(8, 40) == public_of(eph@));
        assert(body.subrange(40, 88) =~= enc_static@);
        assert(body.subrange(88, 116) =~= enc_ts@);
        assert(msg@.subrange(40, 88) =~= body.subrange(0, 116).subrange(40, 88));
        assert(msg@.subrange(88, 116) =~= body.subrange(0, 116).subrange(88, 116));
        assert(msg@.subrange(40, 88) == enc_static@);
        assert(msg@.subrange(88, 116) == enc_ts@);
        self.replace_state(HandshakeState::InitSent { local_index, hash: h, chaining_key: ck, ephemeral_private: eph, time_sent: now });
        msg
    }

    /// The initiation's static key is sealed for this side and is the peer's.
    pub open spec fn static_ok(&self, peer_e: Seq<u8>, encrypted_static: Seq<u8>) -> bool {
        seal_of(static_key(self.static_private@, peer_e), counter_nonce_of(0), static_hash(self.static_public@, peer_e), self.peer_static_public@) == encrypted_static
    }

    /// `ts` is what the initiation's timestamp is sealed from.
    pub open spec fn timestamp_opens(&self, peer_e: Seq<u8>, encrypted_static: Seq<u8>, encrypted_timestamp: Seq<u8>, ts: Seq<u8>) -> bool {
        seal_of(timestamp_key(self.static_private@, self.static_shared@, peer_e), counter_nonce_of(0),
            timestamp_hash(self.static_public@, peer_e, encrypted_static), ts) == encrypted_timestamp
    }

    /// An initiation this side accepts: the peer's static key, and a 12-byte
    /// timestamp later than any accepted before.
    pub open spec fn initiation_ok(&self, peer_e: Seq<u8>, encrypted_static: Seq<u8>, encrypted_timestamp: Seq<u8>) -> bool {
        &&& self.static_ok(peer_e, encrypted_static)
        &&& exists|ts: Seq<u8>| #[trigger] self.timestamp_opens(peer_e, encrypted_static, encrypted_timestamp, ts)
            && ts.len() == 12 && bytes_after(ts, self.last_peer_timestamp@)
    }

    /// `new` is `old` after answering an initiation from `sender_idx` with the
    /// response `m`, which keys `sess`, made with the ephemeral private key `e`.
    pub open spec fn answered_with(old: Handshake, new: Handshake, sender_idx: u32, peer_e: Seq<u8>, es: Seq<u8>, et: Seq<u8>, now: u64, m: Seq<u8>, sess: Session, e: Seq<u8>) -> bool {
        &&& new.wf()
        &&& m.len() == HANDSHAKE_RESP_SZ
        &&& m.subrange(0, 4) == u32_le(HANDSHAKE_RESP)
        &&& m.subrange(4, 8) == u32_le(sess.local_index)
        &&& m.subrange(8, 12) == u32_le(sender_idx)
        &&& mac1_valid(old.mac1_key_peer@, m, RESP_MAC1_OFF as int)
        &&& sess.wf()
        &&& sess.remote_index == sender_idx
        &&& sess.tx_counter == 0
        &&& sess.replay.next_spec() == 0
        &&& (forall|c: u64| !sess.replay.marked(c))
        &&& sess.established_at == now
        &&& bytes_after(new.last_peer_timestamp@, old.last_peer_timestamp@)
        &&& new == (Handshake { last_peer_timestamp: new.last_peer_timestamp, index_counter: new.index_counter, last_mac1: new.last_mac1, ..old })
        &&& {
            let ck = responder_chain(initiation_chain(old.static_private@, old.static_shared@, peer_e),
                e, old.peer_static_public@, old.preshared_key@, peer_e);
            &&& public_of(e) == m.subrange(12, 44)
            &&& m.subrange(44, 60) == seal_of(kdf_3(responder_ck3(initiation_chain(old.static_private@, old.static_shared@, peer_e), e, old.peer_static_public@, peer_e), old.preshared_key@), counter_nonce_of(0),
                blake2s_of(blake2s_of(initiation_hash(old.static_public@, peer_e, es, et) + public_of(e))
                    + kdf_2(responder_ck3(initiation_chain(old.static_private@, old.static_shared@, peer_e), e, old.peer_static_public@, peer_e), old.preshared_key@)),
                Seq::empty())
            &&& sess.recv_key@ == kdf_1(ck, Seq::empty())
            &&& sess.send_key@ == kdf_2(ck, Seq::empty())
        }
    }

    /// `new` is `old` after answering an initiation from `sender_idx` with the
    /// response `m`, which keys `sess`, for some ephemeral key of this side.
    pub open spec fn initiation_answered(old: Handshake, new: Handshake, sender_idx: u32, peer_e: Seq<u8>, es: Seq<u8>, et: Seq<u8>, now: u64, m: Seq<u8>, sess: Session) -> bool {
        exists|e: Seq<u8>| #[trigger] Self::answered_with(old, new, sender_idx, peer_e, es, et, now, m, sess, e)
    }

    /// Answers an initiation from the peer: its response message and the
    /// session it keys. The embedded static key must be the peer's and the
    /// timestamp later than any accepted before.
    pub fn consume_initiation(&mut self, sender_idx: u32, peer_ephemeral: &[u8], encrypted_static: &[u8], encrypted_timestamp: &[u8], now: u64) -> (r: Result<(Vec<u8>, Session), WireGuardError>)
        requires
            old(self).wf(),
            peer_ephemeral@.len() == 32,
        ensures
            final(self).wf(),
            r is Err ==> *final(self) == *old(self),
            (forall|p: Seq<u8>| seal_of(static_key(old(self).static_private@, peer_ephemeral@), counter_nonce_of(0), static_hash(old(self).static_public@, peer_ephemeral@), p) != encrypted_static@)
                ==> r == Err::<(Vec<u8>, Session), _>(WireGuardError::InvalidAeadTag),
            forall|p: Seq<u8>| #[trigger] seal_of(static_key(old(self).static_private@, peer_ephemeral@), counter_nonce_of(0), static_hash(old(self).static_public@, peer_ephemeral@), p) == encrypted_static@
                && p != old(self).peer_static_public@ ==> r == Err::<(Vec<u8>, Session), _>(WireGuardError::WrongKey),
            old(self).static_ok(peer_ephemeral@, encrypted_static@) ==> {
                &&& (forall|ts: Seq<u8>| !old(self).timestamp_opens(peer_ephemeral@, encrypted_static@, encrypted_timestamp@, ts))
                    ==> r == Err::<(Vec<u8>, Session), _>(WireGuardError::InvalidAeadTag)
                &&& forall|ts: Seq<u8>| #[trigger] old(self).timestamp_opens(peer_ephemeral@, encrypted_static@, encrypted_timestamp@, ts) ==> {
                    &&& ts.len() != 12 ==> r == Err::<(Vec<u8>, Session), _>(WireGuardError::InvalidTai64nTimestamp)
                    &&& ts.len() == 12 && !bytes_after(ts, old(self).last_peer_timestamp@) ==> r == Err::<(Vec<u8>, Session), _>(WireGuardError::WrongTai64nTimestamp)
                }
            },
            old(self).initiation_ok(peer_ephemeral@, encrypted_static@, encrypted_timestamp@)
                ==> (r is Ok || r == Err::<(Vec<u8>, Session), _>(WireGuardError::RandomUnavailable)),
            r matches Ok((m, sess)) ==> old(self).initiation_ok(peer_ephemeral@, encrypted_static@, encrypted_timestamp@)
                && Self::initiation_answered(*old(self), *final(self), sender_idx, peer_ephemeral@, encrypted_static@, encrypted_timestamp@, now, m@, sess),
    {
        let ck = initial_chain_key();
        let ich = initial_chain_hash();
        let h = hash2(ich.as_slice(), self.static_public.as_slice());
        let (ck, _, _) = kdf(ck.as_slice(), peer_ephemeral, 1);
        let h = hash2(h.as_slice(), peer_ephemeral);
        let dh = x25519(self.static_private.as_slice(), peer_ephemeral);
        let (ck, k, _) = kdf(ck.as_slice(), dh.as_slice(), 2);
        let zero_nonce = counter_nonce(0);
        let peer_static = match open(k.as_slice(), zero_nonce.as_slice(), h.as_slice(), encrypted_static) {
            Some(p) => p,
            None => return Err(WireGuardError::InvalidAeadTag),
        };
        assert(seal_of(static_key(self.static_private@, peer_ephemeral@), counter_nonce_of(0), static_hash(self.static_public@, peer_ephemeral@), peer_static@) == encrypted_static@);
        if !bytes_eq(peer_static.as_slice(), self.peer_static_public.as_slice()) {
            return Err(WireGuardError::WrongKey);
        }
        let h = hash2(h.as_slice(), encrypted_static);
        let (ck, k, _) = kdf(ck.as_slice(), self.static_shared.as_slice(), 2);
        let ts = match open(k.as_slice(), zero_nonce.as_slice(), h.as_slice(), encrypted_timestamp) {
            Some(p) => p,
            None => return Err(WireGuardError::InvalidAeadTag),
        };
        assert(self.timestamp_opens(peer_ephemeral@, encrypted_static@, encrypted_timestamp@, ts@));
        if ts.len() != 12 {
            return Err(WireGuardError::InvalidTai64nTimestamp);
        }
        if !is_after(ts.as_slice(), self.last_peer_timestamp.as_slice()) {
            return Err(WireGuardError::WrongTai64nTimestamp);
        }
        let eph = match random_bytes(32) {
            Some(e) => e,
            None => return Err(WireGuardError::RandomUnavailable),
        };
        let ghost old_self = *self;
        let (msg, sess) = self.response_from(sender_idx, peer_ephemeral, encrypted_static, encrypted_timestamp, ts, eph, now);
        assert(Self::answered_with(old_self, *self, sender_idx, peer_ephemeral@, encrypted_static@, encrypted_timestamp@, now, msg@, sess, eph@));
        Ok((msg, sess))
    }

    /// The response to an initiation whose timestamp `timestamp` was accepted,
    /// made with the ephemeral private key `ephemeral_private`, and the session
    /// it keys; `timestamp` becomes the latest one seen.
    pub fn response_from(&mut self, sender_idx: u32, peer_ephemeral: &[u8], encrypted_static: &[u8], encrypted_timestamp: &[u8],
        timestamp: Vec<u8>, ephemeral_private: Vec<u8>, now: u64) -> (r: (Vec<u8>, Session))
        requires
            old(self).wf(),
            peer_ephemeral@.len() == 32,
            ephemeral_private@.len() == 32,
            timestamp@.len() == 12,
            bytes_after(timestamp@, old(self).last_peer_timestamp@),
        ensures
            Self::answered_with(*old(self), *final(self), sender_idx, peer_ephemeral@, encrypted_static@, encrypted_timestamp@, now, r.0@, r.1, ephemeral_private@),
            final(self).last_peer_timestamp@ == timestamp@,
    {
        let eph = ephemeral_private;
        let zero_nonce = counter_nonce(0);
        let ck = initial_chain_key();
        let ich = initial_chain_hash();
        let h = hash2(ich.as_slice(), self.static_public.as_slice());
        let (ck, _, _) = kdf(ck.as_slice(), peer_ephemeral, 1);
        let h = hash2(h.as_slice(), peer_ephemeral);
        let dh = x25519(self.static_private.as_slice(), peer_ephemeral);
        let (ck, _, _) = kdf(ck.as_slice(), dh.as_slice(), 1);
        let h = hash2(h.as_slice(), encrypted_static);
        let (ck, _, _) = kdf(ck.as_slice(), self.static_shared.as_slice(), 1);
        let h = hash2(h.as_slice(), encrypted_timestamp);
        self.last_peer_timestamp = timestamp;
        let local_index = self.next_index();
        let eph_pub = public_key(eph.as_slice());
        let (ck, _, _) = kdf(ck.as_slice(), eph_pub.as_slice(), 1);
        let h = hash2(h.as_slice(), eph_pub.as_slice());
        let dh1 = x25519(eph.as_slice(), peer_ephemeral);
        let (ck, _, _) = kdf(ck.as_slice(), dh1.as_slice(), 1);
        let dh2 = x25519(eph.as_slice(), self.peer_static_public.as_slice());
        let (ck, _, _) = kdf(ck.as_slice(), dh2.as_slice(), 1);
        let (ck, tau, k) = kdf(ck.as_slice(), self.preshared_key.as_slice(), 3);
        let h = hash2(h.as_slice(), tau.as_slice());
        let empty: Vec<u8> = Vec::new();
        let enc_nothing = seal(k.as_slice(), zero_nonce.as_slice(), h.as_slice(), empty.as_slice());
        let mut msg: Vec<u8> = Vec::with_capacity(HANDSHAKE_RESP_SZ);
        push_u32_le(&mut msg, HANDSHAKE_RESP);
        push_u32_le(&mut msg, local_index);
        push_u32_le(&mut msg, sender_idx);
        append_bytes(&mut msg, eph_pub.as_slice());
        append_bytes(&mut msg, enc_nothing.as_slice());
        let ghost body = msg@;
        assert(body.subrange(0, 4) =~= u32_le(HANDSHAKE_RESP));
        assert(body.subrange(4, 8) =~= u32_le(local_index));
        assert(body.subrange(8, 12) =~= u32_le(sender_idx));
        self.append_macs(&mut msg, now);
        assert(msg@.subrange(0, 4) =~= body.subrange(0, 60).subrange(0, 4));
        assert(msg@.subrange(4, 8) =~= body.subrange(0, 60).subrange(4, 8));
        assert(msg@.subrange(8, 12) =~= body.subrange(0, 60).subrange(8, 12));
        let (recv_key, send_key, _) = kdf(ck.as_slice(), empty.as_slice(), 2);
        let sess = Session::new(local_index, sender_idx, send_key, recv_key, now);
        assert(msg@.subrange(12, 44) =~= body.subrange(0, 60).subrange(12, 44));
        assert(body.subrange(12, 44) =~= eph_pub@);
        assert(empty@ =~= Seq::<u8>::empty());
        assert(public_of(eph@) == msg@.subrange(12, 44));
        assert(msg@.subrange(0, 4) == u32_le(HANDSHAKE_RESP));
        assert(msg@.subrange(4, 8) == u32_le(local_index));
        assert(msg@.subrange(8, 12) == u32_le(sender_idx));
        assert(body.subrange(44, 60) =~= enc_nothing@);
        assert(msg@.subrange(44, 60) =~= body.subrange(0, 60).subrange(44, 60));
        assert(msg@.subrange(44, 60) == enc_nothing@);
        (msg, sess)
    }

    /// A response this side accepts: it answers the initiation in flight, and
    /// its payload is the sealing of nothing under the keys that follow.
    pub open spec fn response_ok(&self, receiver_idx: u32, peer_e: Seq<u8>, encrypted_nothing: Seq<u8>) -> bool {
        self.state matches HandshakeState::InitSent { local_index, hash, chaining_key, ephemeral_private, .. }
            && local_index == receiver_idx
            && seal_of(
                response_key(chaining_key@, ephemeral_private@, self.static_private@, self.preshared_key@, peer_e), counter_nonce_of(0),
                response_hash(hash@, chaining_key@, ephemeral_private@, self.static_private@, self.preshared_key@, peer_e),
                Seq::empty()) == encrypted_nothing
    }

    /// `sess` is the session that the response from `sender_idx` completes in `old`.
    pub open spec fn response_session(old: Handshake, sender_idx: u32, receiver_idx: u32, peer_e: Seq<u8>, now: u64, sess: Session) -> bool {
        &&& sess.wf()
        &&& sess.local_index == receiver_idx
        &&& sess.remote_index == sender_idx
        &&& sess.tx_counter == 0
        &&& sess.replay.next_spec() == 0
        &&& (forall|c: u64| !sess.replay.marked(c))
        &&& sess.established_at == now
        &&& old.state matches HandshakeState::InitSent { chaining_key, ephemeral_private, .. }
            && sess.send_key@ == kdf_1(response_chain(chaining_key@, ephemeral_private@, old.static_private@, old.preshared_key@, peer_e), Seq::empty())
            && sess.recv_key@ == kdf_2(response_chain(chaining_key@, ephemeral_private@, old.static_private@, old.preshared_key@, peer_e), Seq::empty())
    }

    /// Completes the handshake in flight with the peer's response: the session
    /// it keys, addressed to the peer's index.
    pub fn consume_response(&mut self, sender_idx: u32, receiver_idx: u32, peer_ephemeral: &[u8], encrypted_nothing: &[u8], now: u64) -> (r: Result<Session, WireGuardError>)
        requires
            old(self).wf(),
            peer_ephemeral@.len() == 32,
        ensures
            final(self).wf(),
            r is Err ==> *final(self) == *old(self),
            old(self).state !is InitSent ==> r == Err::<Session, _>(WireGuardError::UnexpectedPacket),
            (old(self).state matches HandshakeState::InitSent { local_index, .. } && local_index != receiver_idx)
                ==> r == Err::<Session, _>(WireGuardError::WrongIndex),
            (old(self).state matches HandshakeState::InitSent { local_index, .. } && local_index == receiver_idx)
                ==> (r is Ok <==> old(self).response_ok(receiver_idx, peer_ephemeral@, encrypted_nothing@)),
            (old(self).state matches HandshakeState::InitSent { local_index, .. } && local_index == receiver_idx && r is Err)
                ==> r == Err::<Session, _>(WireGuardError::InvalidAeadTag),
            r matches Ok(sess) ==> {
                &&& Self::response_session(*old(self), sender_idx, receiver_idx, peer_ephemeral@, now, sess)
                &&& *final(self) == (Handshake { state: HandshakeState::Established, ..*old(self) })
            },
    {
        let (local_index, h, ck, eph) = match &self.state {
            HandshakeState::InitSent { local_index, hash, chaining_key, ephemeral_private, .. } => {
                (*local_index, copy_range(hash.as_slice(), 0, 32), copy_range(chaining_key.as_slice(), 0, 32), copy_range(ephemeral_private.as_slice(), 0, 32))
            },
            _ => return Err(WireGuardError::UnexpectedPacket),
        };
        if local_index != receiver_idx {
            return Err(WireGuardError::WrongIndex);
        }
        proof {
            if let HandshakeState::InitSent { chaining_key, ephemeral_private, hash, .. } = &self.state {
                assert(h@ =~= hash@);
                assert(ck@ =~= chaining_key@);
                assert(eph@ =~= ephemeral_private@);
            }
        }
        let (ck, _, _) = kdf(ck.as_slice(), peer_ephemeral, 1);
        let h = hash2(h.as_slice(), peer_ephemeral);
        let dh1 = x25519(eph.as_slice(), peer_ephemeral);
        let (ck, _, _) = kdf(ck.as_slice(), dh1.as_slice(), 1);
        let dh2 = x25519(self.static_private.as_slice(), peer_ephemeral);
        let (ck, _, _) = kdf(ck.as_slice(), dh2.as_slice(), 1);
        let (ck, tau, k) = kdf(ck.as_slice(), self.preshared_key.as_slice(), 3);
        let h = hash2(h.as_slice(), tau.as_slice());
        let empty: Vec<u8> = Vec::new();
        assert(empty@ =~= Seq::<u8>::empty());
        let zero_nonce = counter_nonce(0);
        match open(k.as_slice(), zero_nonce.as_slice(), h.as_slice(), encrypted_nothing) {
            Some(p) => {
                if p.len() != 0 {
                    return Err(WireGuardError::InvalidAeadTag);
                }
                assert(p@ =~= Seq::<u8>::empty());
            },
            None => return Err(WireGuardError::InvalidAeadTag),
        }
        let (send_key, recv_key, _) = kdf(ck.as_slice(), empty.as_slice(), 2);
        let sess = Session::new(receiver_idx, sender_idx, send_key, recv_key, now);
        self.replace_state(HandshakeState::Established);
        Ok(sess)
    }

    /// The MAC check on an incoming handshake message whose `mac1` starts at `off`:
    /// `mac1` must be right; under load `mac2` must also be right under the
    /// cookie this side issues to `addr`.
    pub open spec fn mac_check(&self, msg: Seq<u8>, off: int, under_load: bool, addr: Seq<u8>) -> Result<(), WireGuardError> {
        if !mac1_valid(self.mac1_key_own@, msg, off) {
            Err(WireGuardError::InvalidMac)
        } else if under_load && !mac2_valid(cookie_of(self.cookie_secret@, addr), msg, off + 16) {
            Err(WireGuardError::UnderLoad)
        } else {
            Ok(())
        }
    }

    /// Checks the MACs of an incoming handshake message.
    pub fn check_macs(&self, msg: &[u8], off: usize, under_load: bool, addr: &[u8]) -> (r: Result<(), WireGuardError>)
        requires
            self.wf(),
            off <= INIT_MAC1_OFF,
            off + 32 <= msg@.len(),
        ensures
            r == self.mac_check(msg@, off as int, under_load, addr@),
    {
        let head = copy_range(msg, 0, off);
        let m1 = copy_range(msg, off, off + 16);
        let want1 = mac(self.mac1_key_own.as_slice(), head.as_slice());
        if !bytes_eq(want1.as_slice(), m1.as_slice()) {
            return Err(WireGuardError::InvalidMac);
        }
        if under_load {
            let cookie = mac(self.cookie_secret.as_slice(), addr);
            let head2 = copy_range(msg, 0, off + 16);
            let m2 = copy_range(msg, off + 16, off + 32);
            let want2 = mac(cookie.as_slice(), head2.as_slice());
            if !bytes_eq(want2.as_slice(), m2.as_slice()) {
                return Err(WireGuardError::UnderLoad);
            }
        }
        Ok(())
    }

    /// Whether the cookie secret is to be drawn anew at `now`.
    pub open spec fn cookie_secret_due(&self, now: u64) -> bool {
        match self.cookie_secret_at {
            Some(at) => now >= at && now - at >= COOKIE_SECRET_LIFETIME,
            None => true,
        }
    }

    /// Draws a new cookie secret once the current one has served its time (or
    /// none was drawn yet); a failing random source leaves the old one.
    pub fn rotate_cookie_secret(&mut self, now: u64)
        requires
            old(self).wf(),
        ensures
            final(self).wf(),
            *final(self) == (Handshake { cookie_secret: final(self).cookie_secret, cookie_secret_at: final(self).cookie_secret_at, ..*old(self) }),
            !old(self).cookie_secret_due(now) ==> *final(self) == *old(self),
            final(self).cookie_secret_at == old(self).cookie_secret_at || final(self).cookie_secret_at == Some(now),
    {
        let due = match self.cookie_secret_at {
            Some(at) => now >= at && now - at >= COOKIE_SECRET_LIFETIME,
            None => true,
        };
        if due {
            if let Some(k) = random_bytes(32) {
                self.cookie_secret = k;
                self.cookie_secret_at = Some(now);
            }
        }
    }

    /// The cookie reply that answers an initiation from `sender_idx` whose `mac1`
    /// is `mac1`, sent from `addr`: the cookie for `addr`, sealed for the peer.
    /// `None` if the random source gave no nonce.
    pub fn format_cookie_reply(&self, sender_idx: u32, mac1: &[u8], addr: &[u8]) -> (r: Option<Vec<u8>>)
        requires
            self.wf(),
        ensures
            r matches Some(m) ==> exists|nonce: Seq<u8>| nonce.len() == 24 && #[trigger] self.cookie_reply_bytes(sender_idx, mac1@, addr@, nonce) == m@,
    {
        match random_bytes(24) {
            Some(n) => Some(self.cookie_reply_from(sender_idx, mac1, addr, n.as_slice())),
            None => None,
        }
    }

    /// The bytes of the cookie reply made with `nonce`.
    pub open spec fn cookie_reply_bytes(&self, sender_idx: u32, mac1: Seq<u8>, addr: Seq<u8>, nonce: Seq<u8>) -> Seq<u8> {
        u32_le(COOKIE_REPLY) + u32_le(sender_idx) + nonce + xseal_of(self.cookie_key_own@, nonce, mac1, cookie_of(self.cookie_secret@, addr))
    }

    /// The cookie reply made with the 24-byte `nonce`.
    pub fn cookie_reply_from(&self, sender_idx: u32, mac1: &[u8], addr: &[u8], nonce: &[u8]) -> (r: Vec<u8>)
        requires
            self.wf(),
            nonce@.len() == 24,
        ensures
            r@ == self.cookie_reply_bytes(sender_idx, mac1@, addr@, nonce@),
            r@.len() == COOKIE_REPLY_SZ,
    {
        let cookie = mac(self.cookie_secret.as_slice(), addr);
        let enc = xseal(self.cookie_key_own.as_slice(), nonce, mac1, cookie.as_slice());
        let mut msg: Vec<u8> = Vec::with_capacity(COOKIE_REPLY_SZ);
        push_u32_le(&mut msg, COOKIE_REPLY);
        push_u32_le(&mut msg, sender_idx);
        append_bytes(&mut msg, nonce);
        append_bytes(&mut msg, enc.as_slice());
        assert(msg@ =~= self.cookie_reply_bytes(sender_idx, mac1@, addr@, nonce@));
        msg
    }

    /// Takes in the cookie that the peer sent in answer to our last initiation;
    /// later initiations carry a `mac2` under it.
    pub fn consume_cookie_reply(&mut self, receiver_idx: u32, nonce: &[u8], encrypted_cookie: &[u8], now: u64) -> (r: Result<(), WireGuardError>)
        requires
            old(self).wf(),
            nonce@.len() == 24,
        ensures
            final(self).wf(),
            r is Err ==> *final(self) == *old(self),
            !(old(self).state matches HandshakeState::InitSent { local_index, .. } && local_index == receiver_idx)
                ==> r == Err::<(), _>(WireGuardError::WrongIndex),
            old(self).last_mac1 is None ==> r is Err,
            r is Ok ==> {
                &&& final(self).cookie matches Some(c)
                    && xseal_of(old(self).cookie_key_peer@, nonce@, old(self).last_mac1.unwrap()@, c@) == encrypted_cookie@
                &&& final(self).cookie_received_at == now
                &&& *final(self) == (Handshake { cookie: final(self).cookie, cookie_received_at: now, ..*old(self) })
            },
            (old(self).state matches HandshakeState::InitSent { local_index, .. } && local_index == receiver_idx
                && old(self).last_mac1 is Some
                && exists|c: Seq<u8>| c.len() == 16
                    && #[trigger] xseal_of(old(self).cookie_key_peer@, nonce@, old(self).last_mac1.unwrap()@, c) == encrypted_cookie@)
                ==> r is Ok,
            forall|c: Seq<u8>| c.len() == 16 && old(self).last_mac1 is Some
                && (old(self).state matches HandshakeState::InitSent { local_index, .. } && local_index == receiver_idx)
                && #[trigger] xseal_of(old(self).cookie_key_peer@, nonce@, old(self).last_mac1.unwrap()@, c) == encrypted_cookie@
                ==> r is Ok && final(self).cookie.unwrap()@ == c,
    {
        match &self.state {
            HandshakeState::InitSent { local_index, .. } => {
                if *local_index != receiver_idx {
                    return Err(WireGuardError::WrongIndex);
                }
            },
            _ => return Err(WireGuardError::WrongIndex),
        }
        let cookie = match &self.last_mac1 {
            Some(m1) => xopen(self.cookie_key_peer.as_slice(), nonce, m1.as_slice(), encrypted_cookie),
            None => return Err(WireGuardError::UnexpectedPacket),
        };
        match cookie {
            Some(c) => {
                if c.len() != 16 {
                    return Err(WireGuardError::InvalidPacket);
                }
                self.cookie = Some(c);
                self.cookie_received_at = now;
                Ok(())
            },
            None => Err(WireGuardError::InvalidAeadTag),
        }
    }

    /// Replaces the handshake state, wiping the ephemeral key and chaining key
    /// of a handshake in flight.
    fn replace_state(&mut self, next: HandshakeState)
        requires
            old(self).wf(),
            next.wf(),
        ensures
            final(self).wf(),
            *final(self) == (Handshake { state: next, ..*old(self) }),
    {
        let mut st = next;
        core::mem::swap(&mut self.state, &mut st);
        if let HandshakeState::InitSent { mut ephemeral_private, mut chaining_key, .. } = st {
            wipe_bytes(&mut ephemeral_private);
            wipe_bytes(&mut chaining_key);
        }
    }

    /// Gives up the handshake in flight.
    pub fn abandon(&mut self)
        requires
            old(self).wf(),
        ensures
            final(self).wf(),
            *final(self) == (Handshake { state: HandshakeState::Idle, ..*old(self) }),
    {
        self.replace_state(HandshakeState::Idle);
    }

}

/// Under load, an initiation with a right `mac1` is turned away for want of
/// `mac2`, unless its `mac2` is made under the cookie that the responder issues
/// to the sender's address; then it passes the check.
pub proof fn lemma_cookie_admits(responder: Handshake, msg: Seq<u8>, addr: Seq<u8>)
    requires
        responder.wf(),
        msg.len() == HANDSHAKE_INIT_SZ,
        mac1_valid(responder.mac1_key_own@, msg, INIT_MAC1_OFF as int),
    ensures
        !mac2_valid(cookie_of(responder.cookie_secret@, addr), msg, INIT_MAC2_OFF as int)
            ==> responder.mac_check(msg, INIT_MAC1_OFF as int, true, addr) == Err::<(), _>(WireGuardError::UnderLoad),
        mac2_valid(cookie_of(responder.cookie_secret@, addr), msg, INIT_MAC2_OFF as int)
            ==> responder.mac_check(msg, INIT_MAC1_OFF as int, true, addr) == Ok::<(), WireGuardError>(()),
{
}

/// A cookie reply made by the responder travels under the key that the
/// initiator, which knows the responder's public key, opens cookie replies with.
pub proof fn lemma_cookie_keys_agree(initiator: Handshake, responder: Handshake)
    requires
        initiator.wf(),
        responder.wf(),
        initiator.peer_static_public@ == responder.static_public@,
    ensures
        initiator.cookie_key_peer@ == responder.cookie_key_own@,
        initiator.mac1_key_peer@ == responder.mac1_key_own@,
{
}

/// X25519 agreement: each side's DH of its own private key with the other's
/// public key gives the same value. This is what X25519 guarantees; it is taken
/// from outside and stated here as a hypothesis of the laws that need it.
pub open spec fn dh_agrees() -> bool {
    forall|x: Seq<u8>, y: Seq<u8>| #[trigger] x25519_of(x, public_of(y)) == x25519_of(y, public_of(x))
}

/// Two handshakes configured with each other's static public keys and the
/// same preshared key.
pub open spec fn paired(a: Handshake, b: Handshake) -> bool {
    &&& a.wf()
    &&& b.wf()
    &&& a.peer_static_public@ == b.static_public@
    &&& b.peer_static_public@ == a.static_public@
    &&& a.preshared_key@ == b.preshared_key@
}

/// An initiation that one side sends is accepted by its peer (MAC and
/// content), when its timestamp is later than any the peer has seen.
pub proof fn lemma_initiation_accepted(a: Handshake, a_new: Handshake, now: u64, m: Seq<u8>, b: Handshake)
    requires
        dh_agrees(),
        paired(a, b),
        Handshake::initiation_sent(a, a_new, now, m),
        bytes_after(tai64n_of(now), b.last_peer_timestamp@),
    ensures
        mac1_valid(b.mac1_key_own@, m, INIT_MAC1_OFF as int),
        b.initiation_ok(m.subrange(8, 40), m.subrange(40, 88), m.subrange(88, 116)),
{
    let e = a_new.state->InitSent_ephemeral_private@;
    assert(x25519_of(e, public_of(b.static_private@)) == x25519_of(b.static_private@, public_of(e)));
    assert(x25519_of(a.static_private@, public_of(b.static_private@)) == x25519_of(b.static_private@, public_of(a.static_private@)));
    assert(b.timestamp_opens(m.subrange(8, 40), m.subrange(40, 88), m.subrange(88, 116), tai64n_of(now)));
}

/// The response with which the peer answers that initiation completes the
/// handshake at the initiator, and the two sessions hold the same keys, each
/// side sending under the key the other receives under.
pub proof fn lemma_response_accepted(
    a: Handshake, a_new: Handshake, now: u64, m: Seq<u8>,
    b: Handshake, b_new: Handshake, now2: u64, m2: Seq<u8>, b_sess: Session, a_sess: Session, now3: u64,
)
    requires
        dh_agrees(),
        paired(a, b),
        Handshake::initiation_sent(a, a_new, now, m),
        Handshake::initiation_answered(b, b_new, le_u32(m.subrange(4, 8)), m.subrange(8, 40), m.subrange(40, 88), m.subrange(88, 116), now2, m2, b_sess),
        Handshake::response_session(a_new, le_u32(m2.subrange(4, 8)), le_u32(m2.subrange(8, 12)), m2.subrange(12, 44), now3, a_sess),
    ensures
        a_new.response_ok(le_u32(m2.subrange(8, 12)), m2.subrange(12, 44), m2.subrange(44, 60)),
        a_sess.send_key@ == b_sess.recv_key@,
        a_sess.recv_key@ == b_sess.send_key@,
        a_sess.remote_index == b_sess.local_index,
        b_sess.remote_index == a_sess.local_index,
{
    let ea = a_new.state->InitSent_ephemeral_private@;
    let e = choose|e: Seq<u8>| #[trigger] Handshake::answered_with(b, b_new, le_u32(m.subrange(4, 8)), m.subrange(8, 40),
        m.subrange(40, 88), m.subrange(88, 116), now2, m2, b_sess, e);
    assert(x25519_of(ea, public_of(b.static_private@)) == x25519_of(b.static_private@, public_of(ea)));
    assert(x25519_of(a.static_private@, public_of(b.static_private@)) == x25519_of(b.static_private@, public_of(a.static_private@)));
    assert(x25519_of(ea, public_of(e)) == x25519_of(e, public_of(ea)));
    assert(x25519_of(a.static_private@, public_of(e)) == x25519_of(e, public_of(a.static_private@)));
    lemma_u32_round_trip(a_new.state->InitSent_local_index);
    lemma_u32_round_trip(b_sess.local_index);
    assert(m2.subrange(8, 12) == m.subrange(4, 8));
}

} // verus!
