//! IPv4 and hardware addresses as plain values, and how they are written.

use crate::text::{
    dec_text, hex_byte_text, lemma_dec_text, lemma_same_digits_before_dot, push_char, push_dec,
    push_hex_byte,
};
use vstd::prelude::*;

verus! {

/// An IPv4 address, held as the 32-bit number whose most significant byte is
/// the first octet. Addresses are ordered by that number.
#[derive(Clone, Copy, Debug, PartialEq, Eq, Structural, PartialOrd, Ord, Hash)]
pub struct Ipv4 {
    pub bits: u32,
}

/// A 48-bit hardware address, first octet first.
#[derive(Clone, Copy, Debug, PartialEq, Eq, Structural, Hash)]
pub struct MacAddr(pub u8, pub u8, pub u8, pub u8, pub u8, pub u8);

/// Dividing the value of `a.b.c.d` gives the four octets back.
pub proof fn lemma_octets_of_value(a: u8, b: u8, c: u8, d: u8)
    ensures
        0 <= Ipv4::value_of(a, b, c, d) <= u32::MAX,
        Ipv4::value_of(a, b, c, d) / 0x100_0000 == a,
        (Ipv4::value_of(a, b, c, d) / 0x1_0000) % 0x100 == b,
        (Ipv4::value_of(a, b, c, d) / 0x100) % 0x100 == c,
        Ipv4::value_of(a, b, c, d) % 0x100 == d,
{
    let low: int = b as int * 0x1_0000 + c as int * 0x100 + d as int;
    let v: int = Ipv4::value_of(a, b, c, d);
    assert(0 <= low < 0x100_0000);
    assert(v == a as int * 0x100_0000 + low);
    assert(v / 0x100_0000 == a) by (nonlinear_arith)
        requires
            v == a as int * 0x100_0000 + low,
            0 <= low < 0x100_0000,
    ;
    let low2: int = c as int * 0x100 + d as int;
    let high2: int = a as int * 0x100 + b as int;
    assert(v == high2 * 0x1_0000 + low2);
    assert(v / 0x1_0000 == high2) by (nonlinear_arith)
        requires
            v == high2 * 0x1_0000 + low2,
            0 <= low2 < 0x1_0000,
    ;
    let high3: int = a as int * 0x1_0000 + b as int * 0x100 + c as int;
    assert(v == high3 * 0x100 + d as int);
    assert(v / 0x100 == high3 && v % 0x100 == d) by (nonlinear_arith)
        requires
            v == high3 * 0x100 + d as int,
            0 <= d < 0x100,
    ;
    assert(high2 % 0x100 == b) by (nonlinear_arith)
        requires
            high2 == a as int * 0x100 + b as int,
            0 <= b < 0x100,
    ;
    let high4: int = a as int * 0x100 + b as int;
    assert(high3 == high4 * 0x100 + c as int);
    assert(high3 % 0x100 == c) by (nonlinear_arith)
        requires
            high3 == high4 * 0x100 + c as int,
            0 <= c < 0x100,
    ;
}

/// Two addresses with the same four octets are the same address.
pub proof fn lemma_octets_name_one_address(a: Ipv4, b: Ipv4)
    requires
        a.octet(0) == b.octet(0),
        a.octet(1) == b.octet(1),
        a.octet(2) == b.octet(2),
        a.octet(3) == b.octet(3),
    ensures
        a == b,
{
    let v: int = a.bits as int;
    let w: int = b.bits as int;
    assert(v == (v / 0x100_0000) * 0x100_0000 + ((v / 0x1_0000) % 0x100) * 0x1_0000 + ((v / 0x100)
        % 0x100) * 0x100 + v % 0x100);
    assert(w == (w / 0x100_0000) * 0x100_0000 + ((w / 0x1_0000) % 0x100) * 0x1_0000 + ((w / 0x100)
        % 0x100) * 0x100 + w % 0x100);
}

/// The notation of four numbers with dots between them, taken apart at the
/// dots, gives the four numbers back.
proof fn lemma_dotted_names_one(a: Seq<nat>, b: Seq<nat>)
    requires
        a.len() == 4,
        b.len() == 4,
        dec_text(a[0]) + seq!['.'] + dec_text(a[1]) + seq!['.'] + dec_text(a[2]) + seq!['.']
            + dec_text(a[3]) == dec_text(b[0]) + seq!['.'] + dec_text(b[1]) + seq!['.'] + dec_text(
            b[2],
        ) + seq!['.'] + dec_text(b[3]),
    ensures
        a[0] == b[0],
        a[1] == b[1],
        a[2] == b[2],
        a[3] == b[3],
{
    let a0 = dec_text(a[0]);
    let a1 = dec_text(a[1]);
    let a2 = dec_text(a[2]);
    let a3 = dec_text(a[3]);
    let b0 = dec_text(b[0]);
    let b1 = dec_text(b[1]);
    let b2 = dec_text(b[2]);
    let b3 = dec_text(b[3]);
    lemma_dec_text(a[0]);
    lemma_dec_text(a[1]);
    lemma_dec_text(a[2]);
    lemma_dec_text(a[3]);
    lemma_dec_text(b[0]);
    lemma_dec_text(b[1]);
    lemma_dec_text(b[2]);
    lemma_dec_text(b[3]);
    let a_tail2 = a2 + seq!['.'] + a3;
    let b_tail2 = b2 + seq!['.'] + b3;
    let a_tail1 = a1 + seq!['.'] + a_tail2;
    let b_tail1 = b1 + seq!['.'] + b_tail2;
    assert(a0 + seq!['.'] + a1 + seq!['.'] + a2 + seq!['.'] + a3 =~= a0 + seq!['.'] + a_tail1);
    assert(b0 + seq!['.'] + b1 + seq!['.'] + b2 + seq!['.'] + b3 =~= b0 + seq!['.'] + b_tail1);
    lemma_same_digits_before_dot(a0, a_tail1, b0, b_tail1);
    lemma_same_digits_before_dot(a1, a_tail2, b1, b_tail2);
    lemma_same_digits_before_dot(a2, a3, b2, b3);
}

/// Two addresses that are written alike are the same address.
pub proof fn lemma_text_names_one_address(a: Ipv4, b: Ipv4)
    requires
        a.text() == b.text(),
    ensures
        a == b,
{
    let x = seq![a.octet(0) as nat, a.octet(1) as nat, a.octet(2) as nat, a.octet(3) as nat];
    let y = seq![b.octet(0) as nat, b.octet(1) as nat, b.octet(2) as nat, b.octet(3) as nat];
    lemma_dotted_names_one(x, y);
    assert(a.octet(0) >= 0 && a.octet(1) >= 0 && a.octet(2) >= 0 && a.octet(3) >= 0);
    assert(b.octet(0) >= 0 && b.octet(1) >= 0 && b.octet(2) >= 0 && b.octet(3) >= 0);
    lemma_octets_name_one_address(a, b);
}

impl Ipv4 {
    /// The octet at position `i` (0 is the first one written).
    pub open spec fn octet(self, i: int) -> int {
        if i == 0 {
            self.bits as int / 0x100_0000
        } else if i == 1 {
            (self.bits as int / 0x1_0000) % 0x100
        } else if i == 2 {
            (self.bits as int / 0x100) % 0x100
        } else {
            self.bits as int % 0x100
        }
    }

    /// The numeric value of the address `a.b.c.d`.
    pub open spec fn value_of(a: u8, b: u8, c: u8, d: u8) -> int {
        a as int * 0x100_0000 + b as int * 0x1_0000 + c as int * 0x100 + d as int
    }

    /// Dotted-decimal notation: four decimal octets with dots between them.
    pub open spec fn text(self) -> Seq<char> {
        dec_text(self.octet(0) as nat) + seq!['.'] + dec_text(self.octet(1) as nat) + seq!['.']
            + dec_text(self.octet(2) as nat) + seq!['.'] + dec_text(self.octet(3) as nat)
    }

    /// The address with the given numeric value.
    pub fn from_bits(bits: u32) -> (r: Ipv4)
        ensures
            r.bits == bits,
    {
        Ipv4 { bits }
    }

    /// The address `a.b.c.d`.
    pub fn new(a: u8, b: u8, c: u8, d: u8) -> (r: Ipv4)
        ensures
            r.bits as int == Ipv4::value_of(a, b, c, d),
            r.octet(0) == a,
            r.octet(1) == b,
            r.octet(2) == c,
            r.octet(3) == d,
    {
        let bits: u32 = (a as u32) * 0x100_0000 + (b as u32) * 0x1_0000 + (c as u32) * 0x100 + (
        d as u32);
        proof {
            lemma_octets_of_value(a, b, c, d);
        }
        Ipv4 { bits }
    }

    /// The four octets, first one first.
    pub fn octets(self) -> (r: [u8; 4])
        ensures
            r[0] == self.octet(0),
            r[1] == self.octet(1),
            r[2] == self.octet(2),
            r[3] == self.octet(3),
            Ipv4::value_of(r[0], r[1], r[2], r[3]) == self.bits,
    {
        let a: u8 = (self.bits / 0x100_0000) as u8;
        let b: u8 = ((self.bits / 0x1_0000) % 0x100) as u8;
        let c: u8 = ((self.bits / 0x100) % 0x100) as u8;
        let d: u8 = (self.bits % 0x100) as u8;
        [a, b, c, d]
    }

    /// The address in dotted-decimal notation.
    pub fn to_text(self) -> (r: String)
        ensures
            r@ == self.text(),
    {
        let o = self.octets();
        let mut out = String::new();
        push_dec(&mut out, o[0] as u64);
        push_char(&mut out, '.');
        push_dec(&mut out, o[1] as u64);
        push_char(&mut out, '.');
        push_dec(&mut out, o[2] as u64);
        push_char(&mut out, '.');
        push_dec(&mut out, o[3] as u64);
        proof {
            assert(out@ =~= self.text());
        }
        out
    }
}

impl MacAddr {
    /// The octet at position `i` (0 is the first one written).
    pub open spec fn octet(self, i: int) -> u8 {
        if i == 0 {
            self.0
        } else if i == 1 {
            self.1
        } else if i == 2 {
            self.2
        } else if i == 3 {
            self.3
        } else if i == 4 {
            self.4
        } else {
            self.5
        }
    }

    /// The six octets as a sequence.
    pub open spec fn bytes(self) -> Seq<u8> {
        seq![self.0, self.1, self.2, self.3, self.4, self.5]
    }

    /// The all-zero address, which stands for "not resolved".
    pub open spec fn spec_zero() -> MacAddr {
        MacAddr(0, 0, 0, 0, 0, 0)
    }

    /// The address that every station on the segment listens to.
    pub open spec fn spec_broadcast() -> MacAddr {
        MacAddr(0xff, 0xff, 0xff, 0xff, 0xff, 0xff)
    }

    /// Six pairs of lower-case hexadecimal digits with colons between them.
    pub open spec fn text(self) -> Seq<char> {
        hex_byte_text(self.0) + seq![':'] + hex_byte_text(self.1) + seq![':'] + hex_byte_text(
            self.2,
        ) + seq![':'] + hex_byte_text(self.3) + seq![':'] + hex_byte_text(self.4) + seq![':']
            + hex_byte_text(self.5)
    }

    /// The address with the given octets.
    pub fn new(a: u8, b: u8, c: u8, d: u8, e: u8, f: u8) -> (r: MacAddr)
        ensures
            r == MacAddr(a, b, c, d, e, f),
    {
        MacAddr(a, b, c, d, e, f)
    }

    /// The all-zero address.
    #[verifier::when_used_as_spec(spec_zero)]
    pub fn zero() -> (r: MacAddr)
        ensures
            r == MacAddr::spec_zero(),
    {
        MacAddr(0, 0, 0, 0, 0, 0)
    }

    /// The broadcast address.
    #[verifier::when_used_as_spec(spec_broadcast)]
    pub fn broadcast() -> (r: MacAddr)
        ensures
            r == MacAddr::spec_broadcast(),
    {
        MacAddr(0xff, 0xff, 0xff, 0xff, 0xff, 0xff)
    }

    /// Whether this is the all-zero address.
    pub fn is_zero(&self) -> (r: bool)
        ensures
            r == (*self == MacAddr::spec_zero()),
    {
        self.0 == 0 && self.1 == 0 && self.2 == 0 && self.3 == 0 && self.4 == 0 && self.5 == 0
    }

    /// The six octets, first one first.
    pub fn octets(self) -> (r: [u8; 6])
        ensures
            r@ == self.bytes(),
    {
        let r: [u8; 6] = [self.0, self.1, self.2, self.3, self.4, self.5];
        assert(r@ =~= self.bytes());
        r
    }

    /// The address in colon-separated hexadecimal notation.
    pub fn to_text(self) -> (r: String)
        ensures
            r@ == self.text(),
    {
        let mut out = String::new();
        push_hex_byte(&mut out, self.0);
        push_char(&mut out, ':');
        push_hex_byte(&mut out, self.1);
        push_char(&mut out, ':');
        push_hex_byte(&mut out, self.2);
        push_char(&mut out, ':');
        push_hex_byte(&mut out, self.3);
        push_char(&mut out, ':');
        push_hex_byte(&mut out, self.4);
        push_char(&mut out, ':');
        push_hex_byte(&mut out, self.5);
        proof {
            assert(out@ =~= self.text());
        }
        out
    }
}

} // verus!
