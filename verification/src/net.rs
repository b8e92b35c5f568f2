//! Addresses and address ranges.

use vstd::arithmetic::power2::pow2;
use vstd::bits::{lemma_u128_shr_is_div, lemma_u32_shr_is_div};
use vstd::prelude::*;

verus! {

/// An IP address, as the number that its bytes spell in network order.
#[derive(Clone, Copy, Debug, PartialEq, Eq, Hash, Structural)]
pub enum IpAddr {
    V4(u32),
    V6(u128),
}

impl IpAddr {
    /// The IPv4 address `a.b.c.d`.
    pub fn v4(a: u8, b: u8, c: u8, d: u8) -> (r: IpAddr)
        ensures
            r matches IpAddr::V4(n) && n == a * 0x100_0000 + b * 0x1_0000 + c * 0x100 + d,
    {
        IpAddr::V4(a as u32 * 0x100_0000 + b as u32 * 0x1_0000 + c as u32 * 0x100 + d as u32)
    }
}

/// An address and a port.
#[derive(Clone, Copy, Debug, PartialEq, Eq, Hash, Structural)]
pub struct SocketAddr {
    pub ip: IpAddr,
    pub port: u16,
}

/// The first `len` of `bits` bits of `a` and `b` are the same.
pub open spec fn same_prefix(a: nat, b: nat, bits: nat, len: nat) -> bool {
    len == 0 || (len <= bits && a / pow2((bits - len) as nat) == b / pow2((bits - len) as nat))
}

/// A range of addresses: those that share the first `prefix_len` bits of
/// `addr`. A length beyond the address's width makes the range empty.
#[derive(Clone, Copy, Debug, PartialEq, Eq, Hash, Structural)]
pub struct IpNet {
    pub addr: IpAddr,
    pub prefix_len: u8,
}

impl IpNet {
    pub open spec fn spec_contains(self, ip: IpAddr) -> bool {
        match (self.addr, ip) {
            (IpAddr::V4(n), IpAddr::V4(a)) => self.prefix_len <= 32 && same_prefix(
                a as nat,
                n as nat,
                32,
                self.prefix_len as nat,
            ),
            (IpAddr::V6(n), IpAddr::V6(a)) => self.prefix_len <= 128 && same_prefix(
                a as nat,
                n as nat,
                128,
                self.prefix_len as nat,
            ),
            _ => false,
        }
    }

    /// Whether `ip` lies in the range. An address of the other family
    /// never does.
    pub fn contains(&self, ip: &IpAddr) -> (b: bool)
        ensures
            b == self.spec_contains(*ip),
    {
        match (self.addr, *ip) {
            (IpAddr::V4(n), IpAddr::V4(a)) => {
                if self.prefix_len == 0 {
                    true
                } else if self.prefix_len > 32 {
                    false
                } else {
                    let shift: u32 = 32 - self.prefix_len as u32;
                    proof {
                        lemma_u32_shr_is_div(a, shift);
                        lemma_u32_shr_is_div(n, shift);
                    }
                    (a >> shift) == (n >> shift)
                }
            },
            (IpAddr::V6(n), IpAddr::V6(a)) => {
                if self.prefix_len == 0 {
                    true
                } else if self.prefix_len > 128 {
                    false
                } else {
                    let shift: u128 = 128 - self.prefix_len as u128;
                    proof {
                        lemma_u128_shr_is_div(a, shift);
                        lemma_u128_shr_is_div(n, shift);
                    }
                    (a >> shift) == (n >> shift)
                }
            },
            _ => false,
        }
    }
}

/// A range of addresses with parts cut out of it.
#[derive(Clone, Debug, PartialEq, Eq, Hash)]
pub struct Network {
    pub net: IpNet,
    /// The ranges that are left out of `net`.
    pub except: Vec<IpNet>,
}

impl Network {
    /// `ip` lies in the range and in none of its exceptions.
    pub open spec fn spec_contains(self, ip: IpAddr) -> bool {
        &&& self.net.spec_contains(ip)
        &&& forall|i: int| 0 <= i < self.except@.len() ==> !(#[trigger] self.except@[i]).spec_contains(ip)
    }

    pub fn contains(&self, ip: &IpAddr) -> (b: bool)
        ensures
            b == self.spec_contains(*ip),
    {
        if !self.net.contains(ip) {
            return false;
        }
        let mut i: usize = 0;
        while i < self.except.len()
            invariant
                i <= self.except.len(),
                forall|k: int| 0 <= k < i ==> !(#[trigger] self.except@[k]).spec_contains(*ip),
            decreases self.except.len() - i,
        {
            if self.except[i].contains(ip) {
                return false;
            }
            i += 1;
        }
        true
    }
}

} // verus!
