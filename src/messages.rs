//! The four wire messages: their layout, parsing and the framing of transport data.
use vstd::prelude::*;
use crate::bytes::{append_bytes, copy_range, le_u32, le_u64, push_u32_le, push_u64_le, read_u32_le, read_u64_le, u32_le, u64_le, lemma_u32_round_trip, lemma_u64_round_trip};

verus! {

pub const HANDSHAKE_INIT: u32 = 1;
pub const HANDSHAKE_RESP: u32 = 2;
pub const COOKIE_REPLY: u32 = 3;
pub const DATA: u32 = 4;

pub const HANDSHAKE_INIT_SZ: usize = 148;
pub const HANDSHAKE_RESP_SZ: usize = 92;
pub const COOKIE_REPLY_SZ: usize = 64;
/// Header and tag of a transport message: type, receiver index, counter, tag.
pub const DATA_OVERHEAD_SZ: usize = 32;

/// Where the two MACs begin in an initiation.
pub const INIT_MAC1_OFF: usize = 116;
pub const INIT_MAC2_OFF: usize = 132;
/// Where the two MACs begin in a response.
pub const RESP_MAC1_OFF: usize = 60;
pub const RESP_MAC2_OFF: usize = 76;

/// A parsed wire message; each byte field has the length of its slot.
pub enum Packet {
    Initiation {
        sender_idx: u32,
        unencrypted_ephemeral: Vec<u8>,
        encrypted_static: Vec<u8>,
        encrypted_timestamp: Vec<u8>,
    },
    Response {
        sender_idx: u32,
        receiver_idx: u32,
        unencrypted_ephemeral: Vec<u8>,
        encrypted_nothing: Vec<u8>,
    },
    CookieReply { receiver_idx: u32, nonce: Vec<u8>, encrypted_cookie: Vec<u8> },
    Data { receiver_idx: u32, counter: u64, encrypted_encapsulated_packet: Vec<u8> },
}

/// The message type that the first four bytes give.
pub open spec fn msg_type(s: Seq<u8>) -> u32 {
    le_u32(s.subrange(0, 4))
}

/// Whether `s` has the type and length of one of the four messages.
pub open spec fn well_formed(s: Seq<u8>) -> bool {
    &&& s.len() >= 4
    &&& {
        let t = msg_type(s);
        ||| (t == HANDSHAKE_INIT && s.len() == HANDSHAKE_INIT_SZ)
        ||| (t == HANDSHAKE_RESP && s.len() == HANDSHAKE_RESP_SZ)
        ||| (t == COOKIE_REPLY && s.len() == COOKIE_REPLY_SZ)
        ||| (t == DATA && s.len() >= DATA_OVERHEAD_SZ)
    }
}

/// `p` holds the fields that the layout of its type reads from `s`.
pub open spec fn parsed_from(p: Packet, s: Seq<u8>) -> bool {
    match p {
        Packet::Initiation { sender_idx, unencrypted_ephemeral, encrypted_static, encrypted_timestamp } => {
            &&& msg_type(s) == HANDSHAKE_INIT
            &&& s.len() == HANDSHAKE_INIT_SZ
            &&& sender_idx == le_u32(s.subrange(4, 8))
            &&& unencrypted_ephemeral@ == s.subrange(8, 40)
            &&& encrypted_static@ == s.subrange(40, 88)
            &&& encrypted_timestamp@ == s.subrange(88, 116)
        },
        Packet::Response { sender_idx, receiver_idx, unencrypted_ephemeral, encrypted_nothing } => {
            &&& msg_type(s) == HANDSHAKE_RESP
            &&& s.len() == HANDSHAKE_RESP_SZ
            &&& sender_idx == le_u32(s.subrange(4, 8))
            &&& receiver_idx == le_u32(s.subrange(8, 12))
            &&& unencrypted_ephemeral@ == s.subrange(12, 44)
            &&& encrypted_nothing@ == s.subrange(44, 60)
        },
        Packet::CookieReply { receiver_idx, nonce, encrypted_cookie } => {
            &&& msg_type(s) == COOKIE_REPLY
            &&& s.len() == COOKIE_REPLY_SZ
            &&& receiver_idx == le_u32(s.subrange(4, 8))
            &&& nonce@ == s.subrange(8, 32)
            &&& encrypted_cookie@ == s.subrange(32, 64)
        },
        Packet::Data { receiver_idx, counter, encrypted_encapsulated_packet } => {
            &&& msg_type(s) == DATA
            &&& s.len() >= DATA_OVERHEAD_SZ
            &&& receiver_idx == le_u32(s.subrange(4, 8))
            &&& counter == le_u64(s.subrange(8, 16))
            &&& encrypted_encapsulated_packet@ == s.subrange(16, s.len() as int)
        },
    }
}

/// The bytes of a transport message.
pub open spec fn data_bytes(receiver_idx: u32, counter: u64, ct: Seq<u8>) -> Seq<u8> {
    u32_le(DATA) + u32_le(receiver_idx) + u64_le(counter) + ct
}

/// Errors of message parsing.
#[derive(Debug, PartialEq, Eq, Structural)]
pub enum ParseError {
    InvalidPacket,
}

/// Splits a message into its fields, by its type and length.
pub fn parse_packet(src: &[u8]) -> (r: Result<Packet, ParseError>)
    ensures
        r is Ok <==> well_formed(src@),
        r matches Ok(p) ==> parsed_from(p, src@),
{
    if src.len() < 4 {
        return Err(ParseError::InvalidPacket);
    }
    let t = read_u32_le(src, 0);
    assert(src@.subrange(0, 0int + 4) == src@.subrange(0, 4));
    let n = src.len();
    if t == HANDSHAKE_INIT && n == HANDSHAKE_INIT_SZ {
        Ok(Packet::Initiation {
            sender_idx: read_u32_le(src, 4),
            unencrypted_ephemeral: copy_range(src, 8, 40),
            encrypted_static: copy_range(src, 40, 88),
            encrypted_timestamp: copy_range(src, 88, 116),
        })
    } else if t == HANDSHAKE_RESP && n == HANDSHAKE_RESP_SZ {
        Ok(Packet::Response {
            sender_idx: read_u32_le(src, 4),
            receiver_idx: read_u32_le(src, 8),
            unencrypted_ephemeral: copy_range(src, 12, 44),
            encrypted_nothing: copy_range(src, 44, 60),
        })
    } else if t == COOKIE_REPLY && n == COOKIE_REPLY_SZ {
        Ok(Packet::CookieReply {
            receiver_idx: read_u32_le(src, 4),
            nonce: copy_range(src, 8, 32),
            encrypted_cookie: copy_range(src, 32, 64),
        })
    } else if t == DATA && n >= DATA_OVERHEAD_SZ {
        Ok(Packet::Data {
            receiver_idx: read_u32_le(src, 4),
            counter: read_u64_le(src, 8),
            encrypted_encapsulated_packet: copy_range(src, 16, n),
        })
    } else {
        Err(ParseError::InvalidPacket)
    }
}

/// Frames an encrypted payload as a transport message.
pub fn format_data(receiver_idx: u32, counter: u64, ct: &[u8]) -> (r: Vec<u8>)
    ensures
        r@ == data_bytes(receiver_idx, counter, ct@),
{
    let mut r: Vec<u8> = Vec::new();
    push_u32_le(&mut r, DATA);
    push_u32_le(&mut r, receiver_idx);
    push_u64_le(&mut r, counter);
    append_bytes(&mut r, ct);
    assert(r@ =~= data_bytes(receiver_idx, counter, ct@));
    r
}

/// A transport message parses back into the index, counter and ciphertext it was
/// framed from.
pub proof fn lemma_data_round_trip(receiver_idx: u32, counter: u64, ct: Seq<u8>)
    requires
        ct.len() >= 16,
    ensures
        well_formed(data_bytes(receiver_idx, counter, ct)),
        msg_type(data_bytes(receiver_idx, counter, ct)) == DATA,
        le_u32(data_bytes(receiver_idx, counter, ct).subrange(4, 8)) == receiver_idx,
        le_u64(data_bytes(receiver_idx, counter, ct).subrange(8, 16)) == counter,
        data_bytes(receiver_idx, counter, ct).subrange(16, data_bytes(receiver_idx, counter, ct).len() as int) == ct,
{
    let s = data_bytes(receiver_idx, counter, ct);
    lemma_u32_round_trip(DATA);
    lemma_u32_round_trip(receiver_idx);
    lemma_u64_round_trip(counter);
    assert(s.subrange(0, 4) =~= u32_le(DATA));
    assert(s.subrange(4, 8) =~= u32_le(receiver_idx));
    assert(s.subrange(8, 16) =~= u64_le(counter));
    assert(s.subrange(16, data_bytes(receiver_idx, counter, ct).len() as int) =~= ct);
}

} // verus!
