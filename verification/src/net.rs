//! Network addresses as plain values.

use crate::text::{
    all_digits, decimal_digits, digits_value, field, field_at, is_digit, lemma_decimal_digits,
    lemma_first_field_is, lemma_next_field, push_decimal, read_digits,
};
use vstd::prelude::*;

verus! {

/// An IPv4 address, most significant octet first.
#[derive(Debug, Clone, Copy, PartialEq, Eq, Structural)]
pub struct Ipv4Addr {
    pub a: u8,
    pub b: u8,
    pub c: u8,
    pub d: u8,
}

impl Ipv4Addr {
    /// The address `a.b.c.d`.
    pub fn new(a: u8, b: u8, c: u8, d: u8) -> (ip: Self)
        ensures
            ip == (Ipv4Addr { a, b, c, d }),
    {
        Ipv4Addr { a, b, c, d }
    }

    /// The four octets in network order.
    pub fn octets(&self) -> (o: [u8; 4])
        ensures
            o@ == seq![self.a, self.b, self.c, self.d],
    {
        let o: [u8; 4] = [self.a, self.b, self.c, self.d];
        assert(o@ =~= seq![self.a, self.b, self.c, self.d]);
        o
    }

    /// Whether the address lies in the multicast block 224.0.0.0/4.
    pub fn is_multicast(&self) -> (m: bool)
        ensures
            m == (224 <= self.a <= 239),
    {
        self.a >= 224 && self.a <= 239
    }
}

/// One number of a dotted quad: one to three digits, no leading zero
/// before another digit, no more than 255.
pub open spec fn octet(s: Seq<u8>) -> Option<u8> {
    if 1 <= s.len() <= 3 && all_digits(s) && (s.len() == 1 || s[0] != 48) && digits_value(s)
        <= 255 {
        Some(digits_value(s) as u8)
    } else {
        None
    }
}

/// The address that `s` spells out as four numbers with dots between
/// them, and nothing else.
pub open spec fn dotted_quad(s: Seq<u8>) -> Option<Ipv4Addr> {
    if field(s, 46, 4).is_some() {
        None
    } else {
        match (field(s, 46, 0), field(s, 46, 1), field(s, 46, 2), field(s, 46, 3)) {
            (Some(a), Some(b), Some(c), Some(d)) => match (octet(a), octet(b), octet(c), octet(d)) {
                (Some(a), Some(b), Some(c), Some(d)) => Some(Ipv4Addr { a, b, c, d }),
                _ => None,
            },
            _ => None,
        }
    }
}

/// The dotted quad that stands for `ip`.
pub open spec fn dotted(ip: Ipv4Addr) -> Seq<u8> {
    decimal_digits(ip.a as nat) + seq![46u8] + (decimal_digits(ip.b as nat) + seq![46u8] + (
    decimal_digits(ip.c as nat) + seq![46u8] + decimal_digits(ip.d as nat)))
}

/// Reads one number of a dotted quad.
pub fn read_octet(s: &[u8]) -> (r: Option<u8>)
    ensures
        r == octet(s@),
{
    if s.len() < 1 || s.len() > 3 {
        return None;
    }
    if s.len() > 1 && s[0] == 48 {
        return None;
    }
    match read_digits(s, 255) {
        Some(v) => Some(v as u8),
        None => None,
    }
}

impl Ipv4Addr {
    /// Reads an address written as a dotted quad.
    pub fn parse(s: &[u8]) -> (r: Option<Self>)
        ensures
            r == dotted_quad(s@),
    {
        if field_at(s, 46, 4).is_some() {
            return None;
        }
        let a = match field_at(s, 46, 0) {
            Some(f) => read_octet(f),
            None => None,
        };
        let b = match field_at(s, 46, 1) {
            Some(f) => read_octet(f),
            None => None,
        };
        let c = match field_at(s, 46, 2) {
            Some(f) => read_octet(f),
            None => None,
        };
        let d = match field_at(s, 46, 3) {
            Some(f) => read_octet(f),
            None => None,
        };
        match (a, b, c, d) {
            (Some(a), Some(b), Some(c), Some(d)) => Some(Ipv4Addr { a, b, c, d }),
            _ => None,
        }
    }

    /// Appends the address as a dotted quad.
    pub fn write(&self, out: &mut Vec<u8>)
        ensures
            final(out)@ == old(out)@ + dotted(*self),
    {
        push_decimal(out, self.a as u64);
        out.push(46);
        push_decimal(out, self.b as u64);
        out.push(46);
        push_decimal(out, self.c as u64);
        out.push(46);
        push_decimal(out, self.d as u64);
        assert(final(out)@ =~= old(out)@ + dotted(*self));
    }

    /// The address as a dotted quad.
    pub fn to_bytes(&self) -> (out: Vec<u8>)
        ensures
            out@ == dotted(*self),
    {
        let mut out: Vec<u8> = Vec::new();
        self.write(&mut out);
        assert(Seq::<u8>::empty() + dotted(*self) =~= dotted(*self));
        out
    }
}

/// The digits of an octet read back as that octet.
pub proof fn lemma_octet_roundtrip(v: u8)
    ensures
        octet(decimal_digits(v as nat)) == Some(v),
        forall|i: int|
            0 <= i < decimal_digits(v as nat).len() ==> #[trigger] decimal_digits(v as nat)[i]
                != 46,
{
    lemma_decimal_digits(v as nat);
    assert forall|i: int| 0 <= i < decimal_digits(v as nat).len() implies #[trigger] decimal_digits(
        v as nat,
    )[i] != 46 by {
        assert(is_digit(decimal_digits(v as nat)[i]));
    }
}

/// An address written as a dotted quad and read back is the same address.
pub proof fn lemma_dotted_roundtrip(ip: Ipv4Addr)
    ensures
        dotted_quad(dotted(ip)) == Some(ip),
        forall|i: int| 0 <= i < dotted(ip).len() ==> #[trigger] dotted(ip)[i] != 47,
        forall|i: int|
            0 <= i < dotted(ip).len() ==> !crate::text::is_space(#[trigger] dotted(ip)[i]),
        dotted(ip).len() > 0,
{
    let a = decimal_digits(ip.a as nat);
    let b = decimal_digits(ip.b as nat);
    let c = decimal_digits(ip.c as nat);
    let d = decimal_digits(ip.d as nat);
    let dot = seq![46u8];
    let s2 = c + dot + d;
    let s1 = b + dot + s2;
    let s0 = a + dot + s1;
    lemma_octet_roundtrip(ip.a);
    lemma_octet_roundtrip(ip.b);
    lemma_octet_roundtrip(ip.c);
    lemma_octet_roundtrip(ip.d);
    assert(s0 =~= a + (dot + s1));
    assert(s1 =~= b + (dot + s2));
    assert(s2 =~= c + (dot + d));
    lemma_first_field_is(a, 46, dot + s1);
    lemma_first_field_is(b, 46, dot + s2);
    lemma_first_field_is(c, 46, dot + d);
    lemma_first_field_is(d, 46, Seq::<u8>::empty());
    assert(d + Seq::<u8>::empty() =~= d);
    // field 1
    lemma_next_field(a, 46, s1, 1);
    // field 2
    lemma_next_field(a, 46, s1, 2);
    lemma_next_field(b, 46, s2, 1);
    // field 3
    lemma_next_field(a, 46, s1, 3);
    lemma_next_field(b, 46, s2, 2);
    lemma_next_field(c, 46, d, 1);
    // no field 4
    lemma_next_field(a, 46, s1, 4);
    lemma_next_field(b, 46, s2, 3);
    lemma_next_field(c, 46, d, 2);
    assert(field(d, 46, 1).is_none());
    lemma_decimal_digits(ip.a as nat);
    lemma_decimal_digits(ip.b as nat);
    lemma_decimal_digits(ip.c as nat);
    lemma_decimal_digits(ip.d as nat);
    assert forall|i: int| 0 <= i < s0.len() implies (#[trigger] s0[i] == 46 || is_digit(s0[i])) by {
        let la = a.len() as int;
        let lb = b.len() as int;
        let lc = c.len() as int;
        if i < la {
            assert(s0[i] == a[i]);
        } else if i == la {
        } else if i < la + 1 + lb {
            assert(s0[i] == b[i - la - 1]);
        } else if i == la + 1 + lb {
        } else if i < la + 1 + lb + 1 + lc {
            assert(s0[i] == c[i - la - lb - 2]);
        } else if i == la + 1 + lb + 1 + lc {
        } else {
            assert(s0[i] == d[i - la - lb - lc - 3]);
        }
    }
}

} // verus!
