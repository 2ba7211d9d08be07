//! Address blocks: a base address and a prefix length, and the network,
//! broadcast and host addresses that they determine.

use crate::addr::Ipv4;
use vstd::arithmetic::power2::{lemma2_to64, lemma2_to64_rest, pow2};
use vstd::bits::{
    lemma_u32_low_bits_mask_is_mod, lemma_u32_pow2_no_overflow, lemma_u32_shl_is_mul, low_bits_mask,
};
use vstd::prelude::*;

verus! {

/// The mask whose top `prefix` bits are set.
pub open spec fn netmask(prefix: u8) -> u32 {
    if prefix == 0 {
        0u32
    } else {
        0xffff_ffffu32 << ((32 - prefix) as u32)
    }
}

/// The mask whose bits below the top `prefix` ones are set.
pub open spec fn hostmask(prefix: u8) -> u32 {
    if prefix >= 32 {
        0u32
    } else {
        0xffff_ffffu32 >> (prefix as u32)
    }
}

/// The first address of the block that holds `addr`: the host bits cleared.
pub open spec fn network_of(addr: u32, prefix: u8) -> u32 {
    addr & netmask(prefix)
}

/// The last address of the block that holds `addr`: the host bits set.
pub open spec fn broadcast_of(addr: u32, prefix: u8) -> u32 {
    addr | hostmask(prefix)
}

/// How many addresses a block with this prefix length holds.
pub open spec fn block_size(prefix: u8) -> nat {
    pow2((32 - prefix) as nat)
}

/// The addresses `first, first + 1, ..., last` in this order; empty where
/// `last < first`.
pub open spec fn address_run(first: int, last: int) -> Seq<Ipv4> {
    Seq::new(
        if first <= last {
            (last - first + 1) as nat
        } else {
            0
        },
        |i: int| Ipv4 { bits: (first + i) as u32 },
    )
}

/// A block starts at a multiple of its size, holds `addr`, and ends one
/// short of the next multiple.
pub proof fn lemma_block_bounds(addr: u32, prefix: u8)
    requires
        prefix <= 32,
    ensures
        1 <= block_size(prefix) <= 0x1_0000_0000,
        network_of(addr, prefix) as int == addr as int - (addr as int % block_size(prefix) as int),
        broadcast_of(addr, prefix) as int == network_of(addr, prefix) as int + block_size(prefix)
            - 1,
        network_of(addr, prefix) <= addr <= broadcast_of(addr, prefix),
{
    lemma2_to64();
    lemma2_to64_rest();
    if prefix == 0 {
        assert(addr & 0u32 == 0u32) by (bit_vector);
        assert(addr | (0xffff_ffffu32 >> 0u32) == 0xffff_ffffu32) by (bit_vector);
        assert(block_size(prefix) == 0x1_0000_0000);
    } else {
        let s: u32 = (32 - prefix) as u32;
        lemma_u32_pow2_no_overflow(s as nat);
        lemma_u32_shl_is_mul(1u32, s);
        let size: u32 = 1u32 << s;
        assert(size as nat == block_size(prefix));
        let low: u32 = (size - 1) as u32;
        assert((addr & (0xffff_ffffu32 << s)) + (addr & low) == addr) by (bit_vector)
            requires
                s < 32,
                low == ((1u32 << s) - 1) as u32,
        ;
        assert(low as nat == low_bits_mask(s as nat));
        lemma_u32_low_bits_mask_is_mod(addr, s as nat);
        assert(addr & low == addr % size);
        if prefix == 32 {
            assert(addr | 0u32 == addr) by (bit_vector);
            assert(addr & (0xffff_ffffu32 << 0u32) == addr) by (bit_vector);
        } else {
            let p: u32 = prefix as u32;
            assert(addr | (0xffff_ffffu32 >> p) == (addr & (0xffff_ffffu32 << s)) + ((1u32 << s)
                - 1)) by (bit_vector)
                requires
                    1 <= s < 32,
                    p == 32 - s,
            ;
        }
    }
}

/// The network address of the block `addr/prefix`.
///
/// Wraps `ipnet::Ipv4Net::new` and `ipnet::Ipv4Net::network`. The first
/// accepts every prefix length up to 32; the second returns the address with
/// the bits of the netmask kept and the others cleared, where the netmask is
/// all ones shifted left by `32 - prefix`, and zero for a prefix length of 0.
#[verifier::external_body]
pub(crate) fn block_network(addr: u32, prefix: u8) -> (r: u32)
    requires
        prefix <= 32,
    ensures
        r == network_of(addr, prefix),
{
    match ipnet::Ipv4Net::new(addr.into(), prefix) {
        Ok(net) => net.network().into(),
        Err(_) => addr,
    }
}

/// The host addresses of the block `addr/prefix`, lowest first.
///
/// Wraps `ipnet::Ipv4Net::new` and `ipnet::Ipv4Net::hosts`. For a prefix
/// length below 31 the iterator that `hosts` returns starts one above the
/// network address, ends one below the broadcast address, and yields every
/// address between the two in ascending order.
#[verifier::external_body]
pub(crate) fn block_hosts(addr: u32, prefix: u8) -> (r: Vec<Ipv4>)
    requires
        prefix <= 30,
    ensures
        r@ == address_run(network_of(addr, prefix) + 1, broadcast_of(addr, prefix) - 1),
{
    match ipnet::Ipv4Net::new(addr.into(), prefix) {
        Ok(net) => net.hosts().map(|a| Ipv4 { bits: a.into() }).collect(),
        Err(_) => Vec::new(),
    }
}

/// The IPv6 mask whose top `prefix` bits are set.
pub open spec fn netmask6(prefix: u8) -> u128 {
    if prefix == 0 {
        0u128
    } else {
        0xffff_ffff_ffff_ffff_ffff_ffff_ffff_ffffu128 << ((128 - prefix) as u128)
    }
}

/// The first address of the IPv6 block that holds `addr`.
pub open spec fn network6_of(addr: u128, prefix: u8) -> u128 {
    addr & netmask6(prefix)
}

/// The network address of the IPv6 block `addr/prefix`.
///
/// Wraps `ipnet::Ipv6Net::new` and `ipnet::Ipv6Net::network`. The first
/// accepts every prefix length up to 128; the second returns the address with
/// the bits of the netmask kept and the others cleared, where the netmask is
/// all ones shifted left by `128 - prefix`, and zero for a prefix length of 0.
#[verifier::external_body]
pub(crate) fn block_network6(addr: u128, prefix: u8) -> (r: u128)
    requires
        prefix <= 128,
    ensures
        r == network6_of(addr, prefix),
{
    match ipnet::Ipv6Net::new(addr.into(), prefix) {
        Ok(net) => net.network().into(),
        Err(_) => addr,
    }
}

} // verus!
