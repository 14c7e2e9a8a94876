//! The computing parts of the BSD and Darwin tunnel device: the naming rule of
//! Darwin tunnels, `utun` with an optional unit number, and the framing of packets.
use vstd::prelude::*;
use vstd::string::StringSliceAdditionalSpecFns;

verus! {

/// Why an interface name was refused.
#[derive(Debug, Clone, Copy, PartialEq, Eq, Structural)]
pub enum DeviceError {
    InvalidTunnelName,
}

/// The bytes "utun".
pub open spec fn utun_prefix() -> Seq<u8> {
    seq![0x75u8, 0x74, 0x75, 0x6e]
}

pub open spec fn is_digit(c: u8) -> bool {
    0x30 <= c <= 0x39
}

/// The number that the decimal digits `s` write.
pub open spec fn decimal_value(s: Seq<u8>) -> int
    decreases s.len(),
{
    if s.len() == 0 {
        0
    } else {
        decimal_value(s.drop_last()) * 10 + (s.last() - 0x30)
    }
}

/// `s` without one leading `+`.
pub open spec fn strip_plus(s: Seq<u8>) -> Seq<u8> {
    if s.len() > 0 && s[0] == 0x2b { s.subrange(1, s.len() as int) } else { s }
}

/// `d` is one or more decimal digits.
pub open spec fn all_digits(d: Seq<u8>) -> bool {
    d.len() > 0 && forall|i: int| 0 <= i < d.len() ==> #[trigger] is_digit(d[i])
}

/// The digits of a unit number: an optional `+`, then at least one digit.
pub open spec fn unit_digits(s: Seq<u8>) -> Option<Seq<u8>> {
    if all_digits(strip_plus(s)) { Some(strip_plus(s)) } else { None }
}

/// The control unit that a tunnel name asks for: 0 for a bare `utun`, else one
/// more than the number that follows it.
pub open spec fn utun_unit(name: Seq<u8>) -> Option<u32> {
    if name.len() < 4 || name.subrange(0, 4) != utun_prefix() {
        None
    } else if name.len() == 4 {
        Some(0)
    } else {
        match unit_digits(name.subrange(4, name.len() as int)) {
            Some(d) => if decimal_value(d) < u32::MAX { Some((decimal_value(d) + 1) as u32) } else { None },
            None => None,
        }
    }
}

proof fn lemma_decimal_step(s: Seq<u8>, i: int)
    requires
        0 <= i < s.len(),
    ensures
        decimal_value(s.subrange(0, i + 1)) == decimal_value(s.subrange(0, i)) * 10 + (s[i] - 0x30),
{
    assert(s.subrange(0, i + 1).drop_last() =~= s.subrange(0, i));
}

proof fn lemma_decimal_nonneg(s: Seq<u8>)
    requires
        forall|i: int| 0 <= i < s.len() ==> #[trigger] is_digit(s[i]),
    ensures
        decimal_value(s) >= 0,
    decreases s.len(),
{
    if s.len() > 0 {
        assert forall|i: int| 0 <= i < s.drop_last().len() implies #[trigger] is_digit(s.drop_last()[i]) by {
            assert(s.drop_last()[i] == s[i]);
        }
        lemma_decimal_nonneg(s.drop_last());
        assert(is_digit(s[s.len() - 1]));
        let v = decimal_value(s.drop_last());
        assert(v * 10 >= 0) by (nonlinear_arith)
            requires
                v >= 0,
        ;
    }
}

/// Reads the control unit from a Darwin tunnel name.
pub fn parse_utun_name(name: &str) -> (r: Result<u32, DeviceError>)
    ensures
        utun_unit(name.spec_bytes()) matches Some(u) ==> r == Ok::<u32, DeviceError>(u),
        utun_unit(name.spec_bytes()) is None ==> r == Err::<u32, DeviceError>(DeviceError::InvalidTunnelName),
{
    let b = name.as_bytes();
    let n = b.len();
    if n < 4 || b[0] != 0x75 || b[1] != 0x74 || b[2] != 0x75 || b[3] != 0x6e {
        proof {
            if n >= 4 {
                assert(b@.subrange(0, 4) != utun_prefix()) by {
                    if b@.subrange(0, 4) == utun_prefix() {
                        assert(b@.subrange(0, 4)[0] == b@[0]);
                        assert(b@.subrange(0, 4)[1] == b@[1]);
                        assert(b@.subrange(0, 4)[2] == b@[2]);
                        assert(b@.subrange(0, 4)[3] == b@[3]);
                    }
                }
            }
        }
        return Err(DeviceError::InvalidTunnelName);
    }
    assert(b@.subrange(0, 4) =~= utun_prefix());
    if n == 4 {
        return Ok(0);
    }
    let ghost rest = b@.subrange(4, n as int);
    let start: usize = if b[4] == 0x2b { 5 } else { 4 };
    let ghost d = b@.subrange(start as int, n as int);
    assert(rest.len() > 0 && rest[0] == b@[4]);
    assert(start == 5 ==> rest.subrange(1, rest.len() as int) =~= d);
    assert(start == 4 ==> rest =~= d);
    if start == n {
        return Err(DeviceError::InvalidTunnelName);
    }
    let mut v: u64 = 0;
    let mut i: usize = start;
    while i < n
        invariant
            b@ == name.spec_bytes(),
            4 <= start < n,
            start <= i <= n,
            n == b@.len(),
            d == b@.subrange(start as int, n as int),
            rest == b@.subrange(4, n as int),
            rest.len() > 0 && rest[0] == b@[4],
            (start == 5) == (b@[4] == 0x2b),
            start == 4 || start == 5,
            start == 5 ==> rest.subrange(1, rest.len() as int) == d,
            start == 4 ==> rest == d,
            b@.subrange(0, 4) == utun_prefix(),
            forall|j: int| 0 <= j < i - start ==> #[trigger] is_digit(d[j]),
            v as int == decimal_value(d.subrange(0, i - start)),
            v < u32::MAX,
        decreases n - i,
    {
        let c = b[i];
        if c < 0x30 || c > 0x39 {
            proof {
                let dd = strip_plus(rest);
                if rest[0] == 0x2b {
                    assert(start == 5);
                } else {
                    assert(start == 4);
                }
                assert(dd == d);
                assert(!is_digit(dd[i - start]));
                assert(!all_digits(dd));
                assert(unit_digits(rest) is None);
                assert(b@.subrange(4, b@.len() as int) == rest);
            }
            return Err(DeviceError::InvalidTunnelName);
        }
        proof {
            lemma_decimal_step(d, i - start);
        }
        let next: u64 = v * 10 + (c - 0x30) as u64;
        if next >= u32::MAX as u64 {
            proof {
                let dd = strip_plus(rest);
                if rest[0] == 0x2b {
                    assert(start == 5);
                } else {
                    assert(start == 4);
                }
                assert(dd == d);
                if forall|j: int| 0 <= j < d.len() ==> #[trigger] is_digit(d[j]) {
                    lemma_decimal_grows(d, i + 1 - start);
                    assert(unit_digits(rest) == Some(d));
                }
                assert(b@.subrange(4, b@.len() as int) == rest);
                assert(d[i - start] == c);
                if all_digits(d) {
                    assert(decimal_value(d) >= u32::MAX);
                }
                assert(utun_unit(b@) is None);
            }
            return Err(DeviceError::InvalidTunnelName);
        }
        v = next;
        i = i + 1;
    }
    assert(d.subrange(0, n - start) =~= d);
    Ok((v + 1) as u32)
}

/// A run of digits is worth at least as much as any prefix of it.
proof fn lemma_decimal_grows(d: Seq<u8>, k: int)
    requires
        0 <= k <= d.len(),
        forall|j: int| 0 <= j < d.len() ==> #[trigger] is_digit(d[j]),
    ensures
        decimal_value(d) >= decimal_value(d.subrange(0, k)),
    decreases d.len() - k,
{
    if k < d.len() {
        lemma_decimal_grows(d, k + 1);
        lemma_decimal_step(d, k);
        let p = d.subrange(0, k);
        assert forall|j: int| 0 <= j < p.len() implies #[trigger] is_digit(p[j]) by {
            assert(p[j] == d[j]);
        }
        lemma_decimal_nonneg(p);
        assert(is_digit(d[k]));
        let v = decimal_value(p);
        assert(v * 10 >= v) by (nonlinear_arith)
            requires
                v >= 0,
        ;
    } else {
        assert(d.subrange(0, k) =~= d);
    }
}

/// The four-byte packet-information header that precedes each packet on a
/// BSD tunnel device: three zero bytes and the address family.
pub fn packet_info_header(af: u8) -> (r: Vec<u8>)
    ensures
        r@ == seq![0u8, 0u8, 0u8, af],
{
    let r: Vec<u8> = vec![0u8, 0u8, 0u8, af];
    assert(r@ =~= seq![0u8, 0u8, 0u8, af]);
    r
}

/// How many payload bytes a read of `n` bytes from the device delivered, the
/// packet-information header not counted.
pub fn payload_len(n: usize) -> (r: usize)
    ensures
        n <= 4 ==> r == 0,
        n > 4 ==> r == n - 4,
{
    if n <= 4 { 0 } else { n - 4 }
}

} // verus!
