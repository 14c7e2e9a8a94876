//! 32-byte keys and their text forms: lower-case hex and standard base64.
use vstd::prelude::*;
use vstd::string::{StringExecFns, StringSliceAdditionalSpecFns};
use vstd::utf8::encode_utf8;
use base64::prelude::BASE64_STANDARD;
use base64::Engine;
use crate::bytes::copy_range;
use crate::crypto::random_bytes;

verus! {

pub const KEY_SIZE: usize = 32;

/// What base64 decodes `s` to, if it is valid standard base64.
pub uninterp spec fn base64_decode_of(s: Seq<u8>) -> Option<Seq<u8>>;

/// The bytes of the standard (padded) base64 text of `b`.
pub uninterp spec fn base64_of(b: Seq<u8>) -> Seq<u8>;

/// Relies on base64's `BASE64_STANDARD.decode`: the bytes, or `None` where `s`
/// is not padded standard base64.
#[verifier::external_body]
fn base64_decode(s: &[u8]) -> (r: Option<Vec<u8>>)
    ensures
        r.is_some() == base64_decode_of(s@).is_some(),
        r.is_some() ==> r.unwrap()@ == base64_decode_of(s@).unwrap(),
        forall|b: Seq<u8>| #[trigger] base64_of(b) == s@ ==> r.is_some() && r.unwrap()@ == b,
{
    BASE64_STANDARD.decode(s).ok()
}

/// Relies on base64's `BASE64_STANDARD.encode`.
#[verifier::external_body]
fn base64_encode(b: &[u8]) -> (r: String)
    ensures
        encode_utf8(r@) == base64_of(b@),
        encode_utf8(r@).len() == 4 * ((b@.len() + 2) / 3),
        r@.len() == 4 * ((b@.len() + 2) / 3),
{
    BASE64_STANDARD.encode(b)
}

/// Why a key could not be read.
#[derive(Debug, Clone, Copy, PartialEq, Eq, Structural)]
pub enum KeyBytesError {
    IllegalCharacter,
    IllegalSize,
}

impl KeyBytesError {
    /// The message that describes the error.
    pub fn message(&self) -> (r: &'static str)
        ensures
            *self == KeyBytesError::IllegalCharacter ==> r@ == "Illegal character in key"@,
            *self == KeyBytesError::IllegalSize ==> r@ == "Illegal key size"@,
    {
        match self {
            KeyBytesError::IllegalCharacter => {
                proof { reveal_strlit("Illegal character in key"); }
                "Illegal character in key"
            },
            KeyBytesError::IllegalSize => {
                proof { reveal_strlit("Illegal key size"); }
                "Illegal key size"
            },
        }
    }
}

/// The value of a hex digit, either case.
pub open spec fn hex_val(c: u8) -> Option<u8> {
    if 0x30 <= c <= 0x39 {
        Some((c - 0x30) as u8)
    } else if 0x61 <= c <= 0x66 {
        Some((c - 0x61 + 10) as u8)
    } else if 0x41 <= c <= 0x46 {
        Some((c - 0x41 + 10) as u8)
    } else {
        None
    }
}

/// Whether `s` is 64 hex digits.
pub open spec fn is_hex_key(s: Seq<u8>) -> bool {
    s.len() == 64 && forall|i: int| 0 <= i < 64 ==> (#[trigger] hex_val(s[i])) is Some
}

/// The byte that digits `2i` and `2i+1` of `s` give.
pub open spec fn hex_byte(s: Seq<u8>, i: int) -> u8 {
    (hex_val(s[2 * i]).unwrap() * 16 + hex_val(s[2 * i + 1]).unwrap()) as u8
}

fn hex_digit(c: u8) -> (r: Option<u8>)
    ensures
        r == hex_val(c),
{
    if 0x30 <= c && c <= 0x39 {
        Some(c - 0x30)
    } else if 0x61 <= c && c <= 0x66 {
        Some(c - 0x61 + 10)
    } else if 0x41 <= c && c <= 0x46 {
        Some(c - 0x41 + 10)
    } else {
        None
    }
}

/// What `KeyBytes::from_string` makes of the text with bytes `b`.
pub open spec fn key_text(b: Seq<u8>) -> Result<Seq<u8>, KeyBytesError> {
    if b.len() == 64 {
        if is_hex_key(b) { Ok(Seq::new(32, |i: int| hex_byte(b, i))) } else { Err(KeyBytesError::IllegalCharacter) }
    } else if b.len() == 43 || b.len() == 44 {
        match base64_decode_of(b) {
            Some(k) => if k.len() == 32 { Ok(k) } else { Err(KeyBytesError::IllegalCharacter) },
            None => Err(KeyBytesError::IllegalCharacter),
        }
    } else {
        Err(KeyBytesError::IllegalSize)
    }
}

/// The lower-case hex digit of `n`.
pub open spec fn hex_char(n: u8) -> char {
    if n < 10 { ((n + 0x30) as u8) as char } else { ((n - 10 + 0x61) as u8) as char }
}

/// The lower-case hex text of `b`.
pub open spec fn lower_hex_of(b: Seq<u8>) -> Seq<char>
    decreases b.len(),
{
    if b.len() == 0 {
        Seq::empty()
    } else {
        lower_hex_of(b.drop_last()) + seq![hex_char(b.last() >> 4u8), hex_char(b.last() & 0xfu8)]
    }
}

proof fn lemma_lower_hex_len(b: Seq<u8>)
    ensures
        lower_hex_of(b).len() == 2 * b.len(),
    decreases b.len(),
{
    if b.len() > 0 {
        lemma_lower_hex_len(b.drop_last());
    }
}

fn hex_str(n: u8) -> (r: &'static str)
    requires
        n < 16,
    ensures
        r@ == seq![hex_char(n)],
{
    match n {
        0 => {
            proof { reveal_strlit("0"); }
            "0"
        },
        1 => {
            proof { reveal_strlit("1"); }
            "1"
        },
        2 => {
            proof { reveal_strlit("2"); }
            "2"
        },
        3 => {
            proof { reveal_strlit("3"); }
            "3"
        },
        4 => {
            proof { reveal_strlit("4"); }
            "4"
        },
        5 => {
            proof { reveal_strlit("5"); }
            "5"
        },
        6 => {
            proof { reveal_strlit("6"); }
            "6"
        },
        7 => {
            proof { reveal_strlit("7"); }
            "7"
        },
        8 => {
            proof { reveal_strlit("8"); }
            "8"
        },
        9 => {
            proof { reveal_strlit("9"); }
            "9"
        },
        10 => {
            proof { reveal_strlit("a"); }
            "a"
        },
        11 => {
            proof { reveal_strlit("b"); }
            "b"
        },
        12 => {
            proof { reveal_strlit("c"); }
            "c"
        },
        13 => {
            proof { reveal_strlit("d"); }
            "d"
        },
        14 => {
            proof { reveal_strlit("e"); }
            "e"
        },
        _ => {
            proof { reveal_strlit("f"); }
            "f"
        },
    }
}

/// A 32-byte key.
pub struct KeyBytes(pub(crate) Vec<u8>);

impl KeyBytes {
    pub closed spec fn view(&self) -> Seq<u8> {
        self.0@
    }

    /// A key is always 32 bytes.
    #[verifier::type_invariant]
    spec fn inv(&self) -> bool {
        self.0@.len() == KEY_SIZE
    }

    /// A fresh random private key; `None` if the random source failed.
    pub fn secret() -> (r: Option<KeyBytes>)
        ensures
            r matches Some(k) ==> k.view().len() == KEY_SIZE,
    {
        match random_bytes(KEY_SIZE) {
            Some(k) => Some(KeyBytes(k)),
            None => None,
        }
    }

    /// The key's bytes.
    pub fn raw_bytes(&self) -> (r: Vec<u8>)
        ensures
            r@ == self.view(),
            r@.len() == KEY_SIZE,
    {
        proof {
            use_type_invariant(self);
        }
        copy_range(self.0.as_slice(), 0, self.0.len())
    }

    /// Reads a key written as 64 hex digits or as base64 (43 or 44 characters).
    pub fn from_string(s: &str) -> (r: Result<KeyBytes, KeyBytesError>)
        ensures
            r is Ok ==> r.unwrap().view().len() == KEY_SIZE,
            r matches Ok(k) ==> key_text(s.spec_bytes()) == Ok::<Seq<u8>, KeyBytesError>(k.view()),
            r matches Err(e) ==> key_text(s.spec_bytes()) == Err::<Seq<u8>, KeyBytesError>(e),
            forall|k: Seq<u8>| k.len() == KEY_SIZE && s.spec_bytes().len() == 44 && #[trigger] base64_of(k) == s.spec_bytes()
                ==> r is Ok && r.unwrap().view() == k,
            ({
                let b = s.spec_bytes();
                &&& b.len() != 64 && b.len() != 43 && b.len() != 44 ==> r == Err::<KeyBytes, _>(KeyBytesError::IllegalSize)
                &&& b.len() == 64 ==> (r is Ok <==> is_hex_key(b))
                &&& b.len() == 64 && r is Err ==> r == Err::<KeyBytes, _>(KeyBytesError::IllegalCharacter)
                &&& b.len() == 64 && r is Ok ==> r.unwrap().view().len() == 32 && forall|i: int| 0 <= i < 32 ==> #[trigger] r.unwrap().view()[i] == hex_byte(b, i)
                &&& (b.len() == 43 || b.len() == 44) ==> (r is Ok <==> (base64_decode_of(b) matches Some(k) && k.len() == 32))
                &&& (b.len() == 43 || b.len() == 44) && r is Err ==> r == Err::<KeyBytes, _>(KeyBytesError::IllegalCharacter)
                &&& (b.len() == 43 || b.len() == 44) && r is Ok ==> r.unwrap().view() == base64_decode_of(b).unwrap()
            }),
    {
        let b = s.as_bytes();
        let n = b.len();
        if n == 64 {
            let mut k: Vec<u8> = Vec::with_capacity(KEY_SIZE);
            let mut i: usize = 0;
            while i < KEY_SIZE
                invariant
                    b@ == s.spec_bytes(),
                    b@.len() == 64,
                    i <= 32,
                    k@.len() == i,
                    forall|j: int| 0 <= j < 2 * i ==> (#[trigger] hex_val(b@[j])) is Some,
                    forall|j: int| 0 <= j < i ==> #[trigger] k@[j] == hex_byte(b@, j),
                decreases 32 - i,
            {
                let hi = match hex_digit(b[2 * i]) {
                    Some(v) => v,
                    None => return Err(KeyBytesError::IllegalCharacter),
                };
                let lo = match hex_digit(b[2 * i + 1]) {
                    Some(v) => v,
                    None => return Err(KeyBytesError::IllegalCharacter),
                };
                k.push(hi * 16 + lo);
                i = i + 1;
            }
            assert(k@ =~= Seq::new(32, |i: int| hex_byte(b@, i)));
            Ok(KeyBytes(k))
        } else if n == 43 || n == 44 {
            match base64_decode(b) {
                Some(k) => if k.len() == KEY_SIZE {
                    Ok(KeyBytes(k))
                } else {
                    Err(KeyBytesError::IllegalCharacter)
                },
                None => Err(KeyBytesError::IllegalCharacter),
            }
        } else {
            Err(KeyBytesError::IllegalSize)
        }
    }

    /// A key from exactly 32 bytes.
    pub fn from_bytes(bytes: &[u8]) -> (r: Result<KeyBytes, KeyBytesError>)
        ensures
            bytes@.len() == KEY_SIZE ==> r is Ok && r.unwrap().view() == bytes@,
            bytes@.len() != KEY_SIZE ==> r == Err::<KeyBytes, _>(KeyBytesError::IllegalSize),
    {
        if bytes.len() != KEY_SIZE {
            return Err(KeyBytesError::IllegalSize);
        }
        Ok(KeyBytes(copy_range(bytes, 0, bytes.len())))
    }

    /// The key in standard base64.
    pub fn to_base64(&self) -> (r: String)
        ensures
            encode_utf8(r@) == base64_of(self.view()),
            encode_utf8(r@).len() == 44,
            r@.len() == 44,
    {
        proof {
            use_type_invariant(self);
        }
        base64_encode(self.0.as_slice())
    }

    /// The key as lower-case hex, two digits per byte.
    pub fn to_lower_hex(&self) -> (r: String)
        ensures
            r@ == lower_hex_of(self.view()),
            r@.len() == 64,
    {
        proof {
            use_type_invariant(self);
            lemma_lower_hex_len(self.0@);
        }
        let mut hex = String::new();
        let mut i: usize = 0;
        while i < self.0.len()
            invariant
                i <= self.0@.len(),
                hex@ == lower_hex_of(self.0@.subrange(0, i as int)),
            decreases self.0@.len() - i,
        {
            let byte = self.0[i];
            assert(self.0@.subrange(0, i + 1).drop_last() =~= self.0@.subrange(0, i as int));
            assert(byte >> 4u8 < 16) by (bit_vector);
            assert(byte & 0xfu8 < 16) by (bit_vector);
            hex.append(hex_str(byte >> 4u8));
            hex.append(hex_str(byte & 0xfu8));
            i = i + 1;
        }
        assert(self.0@.subrange(0, self.0@.len() as int) =~= self.0@);
        hex
    }
}

} // verus!
