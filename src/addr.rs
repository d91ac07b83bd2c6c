//! IPv4 addresses as plain 32-bit values and the address ranges that the
//! filter and the resolver consult.
use vstd::prelude::*;

verus! {

/// An IPv4 address; `a.b.c.d` is held as `a * 2^24 + b * 2^16 + c * 2^8 + d`.
#[derive(Clone, Copy, Debug, PartialEq, Eq, Hash, Structural)]
pub struct Ipv4 {
    pub bits: u32,
}

/// The value of the dotted quad `a.b.c.d`.
pub open spec fn quad(a: u8, b: u8, c: u8, d: u8) -> int {
    a * 0x100_0000 + b * 0x1_0000 + c * 0x100 + d
}

/// `127.0.0.0/8`.
pub open spec fn is_loopback(a: Ipv4) -> bool {
    0x7F00_0000 <= a.bits < 0x8000_0000
}

/// `0.0.0.0`.
pub open spec fn is_unspecified(a: Ipv4) -> bool {
    a.bits == 0
}

/// `255.255.255.255`.
pub open spec fn is_broadcast(a: Ipv4) -> bool {
    a.bits == 0xFFFF_FFFF
}

/// `10.0.0.0/8`, `172.16.0.0/12` and `192.168.0.0/16`.
pub open spec fn is_private(a: Ipv4) -> bool {
    ||| 0x0A00_0000 <= a.bits < 0x0B00_0000
    ||| 0xAC10_0000 <= a.bits < 0xAC20_0000
    ||| 0xC0A8_0000 <= a.bits < 0xC0A9_0000
}

impl Ipv4 {
    /// The address `a.b.c.d`.
    pub fn from_octets(a: u8, b: u8, c: u8, d: u8) -> (r: Ipv4)
        ensures
            r.bits == quad(a, b, c, d),
    {
        let bits: u32 = (a as u32) * 0x100_0000 + (b as u32) * 0x1_0000 + (c as u32) * 0x100 + (d as u32);
        Ipv4 { bits }
    }

    /// The four octets, most significant first.
    pub fn octets(&self) -> (r: (u8, u8, u8, u8))
        ensures
            quad(r.0, r.1, r.2, r.3) == self.bits,
    {
        let v = self.bits;
        let a = (v / 0x100_0000) as u8;
        let b = (v / 0x1_0000 % 0x100) as u8;
        let c = (v / 0x100 % 0x100) as u8;
        let d = (v % 0x100) as u8;
        proof {
            self.lemma_octets_recompose();
        }
        (a, b, c, d)
    }

    proof fn lemma_octets_recompose(self)
        ensures
            (self.bits / 0x100_0000) * 0x100_0000 + (self.bits / 0x1_0000 % 0x100) * 0x1_0000
                + (self.bits / 0x100 % 0x100) * 0x100 + self.bits % 0x100 == self.bits,
            self.bits / 0x100_0000 < 0x100,
    {
        let v = self.bits as int;
        assert(v == (v / 0x100_0000) * 0x100_0000 + (v / 0x1_0000 % 0x100) * 0x1_0000
            + (v / 0x100 % 0x100) * 0x100 + v % 0x100) by (nonlinear_arith)
            requires 0 <= v;
        assert(v / 0x100_0000 < 0x100) by (nonlinear_arith)
            requires 0 <= v < 0x1_0000_0000;
    }

    pub fn is_loopback(&self) -> (r: bool)
        ensures
            r == is_loopback(*self),
    {
        0x7F00_0000 <= self.bits && self.bits < 0x8000_0000
    }

    pub fn is_unspecified(&self) -> (r: bool)
        ensures
            r == is_unspecified(*self),
    {
        self.bits == 0
    }

    pub fn is_broadcast(&self) -> (r: bool)
        ensures
            r == is_broadcast(*self),
    {
        self.bits == 0xFFFF_FFFF
    }

    pub fn is_private(&self) -> (r: bool)
        ensures
            r == is_private(*self),
    {
        (0x0A00_0000 <= self.bits && self.bits < 0x0B00_0000)
            || (0xAC10_0000 <= self.bits && self.bits < 0xAC20_0000)
            || (0xC0A8_0000 <= self.bits && self.bits < 0xC0A9_0000)
    }
}

} // verus!
