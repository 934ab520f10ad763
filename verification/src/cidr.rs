//! Address ranges: the host range of a CIDR block.

use vstd::prelude::*;
use vstd::arithmetic::power2::{pow2, lemma2_to64, lemma_pow2_strictly_increases};
use vstd::arithmetic::div_mod::lemma_fundamental_div_mod;
use vstd::arithmetic::mul::lemma_mul_is_commutative;
use vstd::bits::{lemma_u32_shl_is_mul, lemma_u32_shr_is_div, lemma_u32_pow2_no_overflow};

verus! {

/// The number of addresses in a block with prefix length `prefix`.
pub open spec fn block_size(prefix: nat) -> nat {
    pow2((32 - prefix) as nat)
}

/// The first address (the network address) of the block of `ip`.
pub open spec fn block_network(ip: u32, prefix: nat) -> nat {
    (ip as nat / block_size(prefix)) * block_size(prefix)
}

/// The last address (the broadcast address) of the block of `ip`.
pub open spec fn block_broadcast(ip: u32, prefix: nat) -> int {
    block_network(ip, prefix) + block_size(prefix) - 1
}

/// The host addresses of the block of `ip` with prefix length `prefix`:
/// network + 1 to broadcast - 1, or the whole block for /31 and /32.
pub open spec fn cidr_range(ip: u32, prefix: nat) -> (int, int) {
    if prefix >= 31 {
        (block_network(ip, prefix) as int, block_broadcast(ip, prefix))
    } else {
        (block_network(ip, prefix) as int + 1, block_broadcast(ip, prefix) - 1)
    }
}

/// Low bits of `x` below bit `k` cleared, and set, by the masks of a block
/// of `2^k` addresses.
proof fn lemma_block_masks(x: u32, k: u32)
    by (bit_vector)
    requires
        k < 32,
    ensures
        x & !(((1u32 << k) - 1) as u32) == (x >> k) << k,
        ((x >> k) << k) | !(!(((1u32 << k) - 1) as u32)) == ((x >> k) << k) + ((1u32 << k)
            - 1),
        (x & 0u32) == 0u32,
        (0u32 | !0u32) == 0xffff_ffffu32,
{
}

/// The block of an address holds it, and lies within the 32-bit numbers.
pub proof fn lemma_block_bounds(ip: u32, prefix: nat)
    requires
        prefix <= 32,
    ensures
        block_size(prefix) >= 1,
        block_network(ip, prefix) <= ip <= block_broadcast(ip, prefix) <= u32::MAX,
        prefix <= 30 ==> block_size(prefix) >= 4,
{
    let k = (32 - prefix) as nat;
    lemma2_to64();
    if prefix == 0 {
        assert(block_size(prefix) == 0x1_0000_0000);
        assert(ip as nat / 0x1_0000_0000 == 0);
    } else {
        lemma_u32_pow2_no_overflow(k);
        let p = pow2(k) as int;
        lemma_fundamental_div_mod(ip as int, p);
        lemma_mul_is_commutative(p, ip as int / p);
        let kk = k as u32;
        lemma_u32_shl_is_mul(1u32, kk);
        lemma_block_masks(ip, kk);
        lemma_u32_shr_is_div(ip, kk);
        lemma_u32_shl_is_mul(ip >> kk, kk);
        if prefix <= 30 && k > 2 {
            lemma_pow2_strictly_increases(2, k);
        }
    }
}

/// The host range of the block of `ip` with prefix length `prefix` (the
/// mask arithmetic of a CIDR block).
pub fn cidr_host_range(ip: u32, prefix: u8) -> (r: (u32, u32))
    requires
        prefix <= 32,
    ensures
        r.0 as int == cidr_range(ip, prefix as nat).0,
        r.1 as int == cidr_range(ip, prefix as nat).1,
{
    proof {
        lemma_block_bounds(ip, prefix as nat);
        lemma2_to64();
    }
    let mask: u32 = if prefix == 0 {
        0
    } else {
        let k: u32 = 32 - prefix as u32;
        proof {
            lemma_u32_pow2_no_overflow(k as nat);
            lemma_u32_shl_is_mul(1u32, k);
        }
        !((1u32 << k) - 1)
    };
    let network = ip & mask;
    let broadcast = network | !mask;
    proof {
        if prefix == 0 {
            lemma_block_masks(ip, 0);
            assert(block_size(0) == 0x1_0000_0000);
            assert(ip as nat / 0x1_0000_0000 == 0);
        } else {
            let k: u32 = (32 - prefix) as u32;
            let p = pow2(k as nat) as int;
            lemma_u32_pow2_no_overflow(k as nat);
            lemma_u32_shl_is_mul(1u32, k);
            lemma_block_masks(ip, k);
            lemma_u32_shr_is_div(ip, k);
            lemma_fundamental_div_mod(ip as int, p);
            lemma_mul_is_commutative(p, ip as int / p);
            lemma_u32_shl_is_mul(ip >> k, k);
            assert(network as int == block_network(ip, prefix as nat));
            assert(broadcast as int == block_broadcast(ip, prefix as nat));
        }
    }
    let start = if prefix >= 31 {
        network
    } else {
        network + 1
    };
    let end = if prefix >= 31 {
        broadcast
    } else {
        broadcast - 1
    };
    (start, end)
}

} // verus!
