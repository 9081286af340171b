//! Subnet arithmetic: pure functions from an (address, mask) pair to the
//! network address, the broadcast address, and the subnet and host counts.
//!
//! Counts are computed in 64-bit arithmetic so that a mask with zero set
//! bits yields `2^32` exactly instead of overflowing, and the usable host
//! count saturates at zero for masks with 31 or 32 set bits, where a subnet
//! has no room for both a network and a broadcast address.

use vstd::prelude::*;
use vstd::arithmetic::power2::pow2;
use vstd::bits::lemma_u64_shl_is_mul;
use vstd::arithmetic::power2::lemma2_to64;
use crate::ip::Ipv4;

verus! {

/// The number of 1-bits in one octet.
pub open spec fn spec_ones_u8(b: u8) -> int {
    ((b >> 0u8) & 1) + ((b >> 1u8) & 1) + ((b >> 2u8) & 1) + ((b >> 3u8) & 1)
        + ((b >> 4u8) & 1) + ((b >> 5u8) & 1) + ((b >> 6u8) & 1) + ((b >> 7u8) & 1)
}

/// The number of 1-bits across all four octets of a mask: the prefix length
/// implied by a contiguous mask (contiguity itself is not checked).
pub open spec fn spec_ones(m: Ipv4) -> int {
    spec_ones_u8(m.o0) + spec_ones_u8(m.o1) + spec_ones_u8(m.o2) + spec_ones_u8(m.o3)
}

pub proof fn lemma_ones_u8_bound(b: u8)
    ensures
        0 <= spec_ones_u8(b) <= 8,
{
    assert(((b >> 0u8) & 1) + ((b >> 1u8) & 1) + ((b >> 2u8) & 1) + ((b >> 3u8) & 1)
        + ((b >> 4u8) & 1) + ((b >> 5u8) & 1) + ((b >> 6u8) & 1) + ((b >> 7u8) & 1)
        <= 8) by (bit_vector);
}

/// The number of 1-bits in a mask, at most 32.
pub fn ones(subnet_mask: Ipv4) -> (r: u32)
    ensures
        r == spec_ones(subnet_mask),
        r <= 32,
{
    proof {
        lemma_ones_u8_bound(subnet_mask.o0);
        lemma_ones_u8_bound(subnet_mask.o1);
        lemma_ones_u8_bound(subnet_mask.o2);
        lemma_ones_u8_bound(subnet_mask.o3);
    }
    ones_u8(subnet_mask.o0) as u32 + ones_u8(subnet_mask.o1) as u32
        + ones_u8(subnet_mask.o2) as u32 + ones_u8(subnet_mask.o3) as u32
}

fn ones_u8(b: u8) -> (r: u8)
    ensures
        r == spec_ones_u8(b),
        r <= 8,
{
    proof {
        lemma_ones_u8_bound(b);
    }
    ((b >> 0u8) & 1) + ((b >> 1u8) & 1) + ((b >> 2u8) & 1) + ((b >> 3u8) & 1)
        + ((b >> 4u8) & 1) + ((b >> 5u8) & 1) + ((b >> 6u8) & 1) + ((b >> 7u8) & 1)
}

/// The address with every host-portion bit cleared: octet by octet,
/// the bitwise AND of address and mask.
pub open spec fn spec_network_address(ip: Ipv4, m: Ipv4) -> Ipv4 {
    Ipv4 { o0: ip.o0 & m.o0, o1: ip.o1 & m.o1, o2: ip.o2 & m.o2, o3: ip.o3 & m.o3 }
}

pub fn calculate_network_address(ip: Ipv4, subnet_mask: Ipv4) -> (r: Ipv4)
    ensures
        r == spec_network_address(ip, subnet_mask),
{
    Ipv4 {
        o0: ip.o0 & subnet_mask.o0,
        o1: ip.o1 & subnet_mask.o1,
        o2: ip.o2 & subnet_mask.o2,
        o3: ip.o3 & subnet_mask.o3,
    }
}

/// The address with every host-portion bit set: octet by octet,
/// the bitwise OR of address and inverted mask.
pub open spec fn spec_broadcast_address(ip: Ipv4, m: Ipv4) -> Ipv4 {
    Ipv4 { o0: ip.o0 | !m.o0, o1: ip.o1 | !m.o1, o2: ip.o2 | !m.o2, o3: ip.o3 | !m.o3 }
}

pub fn calculate_broadcast_address(ip: Ipv4, subnet_mask: Ipv4) -> (r: Ipv4)
    ensures
        r == spec_broadcast_address(ip, subnet_mask),
{
    Ipv4 {
        o0: ip.o0 | !subnet_mask.o0,
        o1: ip.o1 | !subnet_mask.o1,
        o2: ip.o2 | !subnet_mask.o2,
        o3: ip.o3 | !subnet_mask.o3,
    }
}

/// `2^(32 - ones)`: the number of subnets a mask of this prefix length
/// divides the address space into. With zero set bits this is `2^32`, so
/// the result is 64-bit.
pub open spec fn spec_subnet_count(m: Ipv4) -> int {
    pow2((32 - spec_ones(m)) as nat) as int
}

pub fn calculate_subnet_count(subnet_mask: Ipv4) -> (r: u64)
    ensures
        r == spec_subnet_count(subnet_mask),
        1 <= r <= 0x1_0000_0000,
{
    let ones_count: u32 = ones(subnet_mask);
    let shift: u64 = (32 - ones_count) as u64;
    proof {
        lemma2_to64();
        lemma_u64_shl_is_mul(1u64, shift);
    }
    1u64 << shift
}

/// The usable host count: the subnet size minus the network and broadcast
/// addresses, saturating at zero where the subnet has fewer than two
/// addresses to spare (masks with 31 or 32 set bits).
pub open spec fn spec_host_count(m: Ipv4) -> int {
    if spec_subnet_count(m) >= 2 {
        spec_subnet_count(m) - 2
    } else {
        0
    }
}

pub fn calculate_host_count(subnet_mask: Ipv4) -> (r: u64)
    ensures
        r == spec_host_count(subnet_mask),
{
    let count: u64 = calculate_subnet_count(subnet_mask);
    if count >= 2 {
        count - 2
    } else {
        0
    }
}

proof fn lemma_octet_masking(a: u8, m: u8)
    ensures
        (a & m) & !m == 0,
        (a & m) & m == a & m,
        (a | !m) & m == a & m,
        (a | !m) | m == 0xffu8,
        a & 0xffu8 == a,
        a & 0u8 == 0u8,
{
    assert((a & m) & !m == 0) by (bit_vector);
    assert((a & m) & m == a & m) by (bit_vector);
    assert((a | !m) & m == a & m) by (bit_vector);
    assert((a | !m) | m == 0xffu8) by (bit_vector);
    assert(a & 0xffu8 == a) by (bit_vector);
    assert(a & 0u8 == 0u8) by (bit_vector);
}

/// The network address keeps exactly the masked bits of the address: in
/// every octet it agrees with the address on the mask's 1-bits and is zero
/// on the mask's 0-bits.
pub proof fn lemma_network_address_bits(a: Ipv4, m: Ipv4)
    ensures
        spec_network_address(a, m).o0 & !m.o0 == 0,
        spec_network_address(a, m).o1 & !m.o1 == 0,
        spec_network_address(a, m).o2 & !m.o2 == 0,
        spec_network_address(a, m).o3 & !m.o3 == 0,
        spec_network_address(a, m).o0 & m.o0 == a.o0 & m.o0,
        spec_network_address(a, m).o1 & m.o1 == a.o1 & m.o1,
        spec_network_address(a, m).o2 & m.o2 == a.o2 & m.o2,
        spec_network_address(a, m).o3 & m.o3 == a.o3 & m.o3,
{
    lemma_octet_masking(a.o0, m.o0);
    lemma_octet_masking(a.o1, m.o1);
    lemma_octet_masking(a.o2, m.o2);
    lemma_octet_masking(a.o3, m.o3);
}

/// The broadcast address agrees with the address on the mask's 1-bits and
/// forces every mask-zero bit to 1: in every octet, OR-ing the mask back in
/// gives all ones.
pub proof fn lemma_broadcast_address_bits(a: Ipv4, m: Ipv4)
    ensures
        spec_broadcast_address(a, m).o0 & m.o0 == a.o0 & m.o0,
        spec_broadcast_address(a, m).o1 & m.o1 == a.o1 & m.o1,
        spec_broadcast_address(a, m).o2 & m.o2 == a.o2 & m.o2,
        spec_broadcast_address(a, m).o3 & m.o3 == a.o3 & m.o3,
        spec_broadcast_address(a, m).o0 | m.o0 == 0xffu8,
        spec_broadcast_address(a, m).o1 | m.o1 == 0xffu8,
        spec_broadcast_address(a, m).o2 | m.o2 == 0xffu8,
        spec_broadcast_address(a, m).o3 | m.o3 == 0xffu8,
{
    lemma_octet_masking(a.o0, m.o0);
    lemma_octet_masking(a.o1, m.o1);
    lemma_octet_masking(a.o2, m.o2);
    lemma_octet_masking(a.o3, m.o3);
}

/// Under the full mask the network address is the address itself; under the
/// empty mask it is all zeros.
pub proof fn lemma_network_address_extremes(a: Ipv4)
    ensures
        spec_network_address(a, Ipv4 { o0: 255, o1: 255, o2: 255, o3: 255 }) == a,
        spec_network_address(a, Ipv4 { o0: 0, o1: 0, o2: 0, o3: 0 }) == (Ipv4 {
            o0: 0,
            o1: 0,
            o2: 0,
            o3: 0,
        }),
{
    lemma_octet_masking(a.o0, 255);
    lemma_octet_masking(a.o1, 255);
    lemma_octet_masking(a.o2, 255);
    lemma_octet_masking(a.o3, 255);
}

} // verus!
