//! IPv4 addresses as numbers and as dotted-quad text, and CIDR blocks.

use crate::error::ConfigFault;
use crate::text::{
    ascii_text, dec_bytes, lemma_dec_bytes, lemma_octet_of_dec, lemma_split_first,
    lemma_split_single, octet_value, parse_octet, push_decimal, split, split_fields, DOT, SLASH,
};
use vstd::arithmetic::div_mod::{lemma_fundamental_div_mod, lemma_multiply_divide_lt};
use vstd::arithmetic::mul::{lemma_mul_inequality, lemma_mul_is_commutative};
use vstd::arithmetic::power2::{lemma_pow2_adds, lemma_pow2_pos, lemma_pow2_unfold, pow2};
use vstd::prelude::*;
use vstd::string::*;
use vstd::utf8::{encode_utf8, is_ascii_chars, is_ascii_chars_encode_utf8};

verus! {

/// A destination that the router can key a route by.
#[derive(Clone, Copy, Debug, PartialEq, Eq, Structural)]
pub enum IpAddress {
    /// The four octets of an IPv4 address, first octet most significant.
    V4(u32),
    /// The sixteen octets of an IPv6 address, first octet most significant.
    V6(u128),
}

/// What a pool is configured from: one fixed address, or a block to lease from.
#[derive(Clone, Copy, Debug, PartialEq, Eq, Structural)]
pub enum Cidr {
    Host,
    Network { base: u32, mask: u8 },
}

/// The address whose octets are `o0.o1.o2.o3`.
pub open spec fn quad(o0: u8, o1: u8, o2: u8, o3: u8) -> u32 {
    (o0 * 0x100_0000 + o1 * 0x1_0000 + o2 * 0x100 + o3) as u32
}

/// Octet `i` of an address, counted from the most significant.
pub open spec fn octet(a: u32, i: int) -> u8 {
    if i == 0 {
        (a / 0x100_0000) as u8
    } else if i == 1 {
        (a / 0x1_0000 % 0x100) as u8
    } else if i == 2 {
        (a / 0x100 % 0x100) as u8
    } else {
        (a % 0x100) as u8
    }
}

/// The dotted-quad spelling of an address, as bytes.
pub open spec fn dotted_bytes(a: u32) -> Seq<u8> {
    dec_bytes(octet(a, 0) as nat) + seq![DOT] + (dec_bytes(octet(a, 1) as nat) + seq![DOT] + (
    dec_bytes(octet(a, 2) as nat) + seq![DOT] + dec_bytes(octet(a, 3) as nat)))
}

/// The dotted-quad spelling of an address, as the characters of a string.
pub open spec fn dotted(a: u32) -> Seq<char> {
    ascii_text(dotted_bytes(a))
}

/// The address that dotted-quad text stands for: exactly four decimal
/// octets with a dot between each two.
pub open spec fn dotted_value(s: Seq<u8>) -> Option<u32> {
    let f = split(s, DOT);
    if f.len() == 4 && octet_value(f[0]) is Some && octet_value(f[1]) is Some && octet_value(
        f[2],
    ) is Some && octet_value(f[3]) is Some {
        Some(
            quad(
                octet_value(f[0])->0,
                octet_value(f[1])->0,
                octet_value(f[2])->0,
                octet_value(f[3])->0,
            ),
        )
    } else {
        None
    }
}

/// What pool configuration text stands for. Text without a slash names a
/// single host. `address/mask` names a block; its mask may be at most 30,
/// so that the block has at least two host addresses.
pub open spec fn cidr_value(s: Seq<u8>) -> Result<Cidr, ConfigFault> {
    let f = split(s, SLASH);
    if f.len() == 1 {
        Ok(Cidr::Host)
    } else if f.len() != 2 || octet_value(f[1]) is None {
        Err(ConfigFault::Malformed)
    } else if octet_value(f[1])->0 > 30 {
        Err(ConfigFault::MaskTooLarge)
    } else if dotted_value(f[0]) is None {
        Err(ConfigFault::Malformed)
    } else {
        Ok(Cidr::Network { base: dotted_value(f[0])->0, mask: octet_value(f[1])->0 })
    }
}

/// How many addresses a block with this mask spans.
pub open spec fn block_size(mask: u8) -> nat {
    pow2((32 - mask) as nat)
}

/// The first address of the block that `base` lies in: its network address.
pub open spec fn network_address(base: u32, mask: u8) -> int {
    base as int - (base as int) % (block_size(mask) as int)
}

/// The last address of the block that `base` lies in: its broadcast address.
pub open spec fn broadcast_address(base: u32, mask: u8) -> int {
    network_address(base, mask) + block_size(mask) - 1
}

/// How many addresses of a block can be leased: all but the first and last.
pub open spec fn host_count(mask: u8) -> nat {
    (block_size(mask) - 2) as nat
}

/// The `i`-th address that can be leased from the block that `base` lies in.
pub open spec fn host_address(base: u32, mask: u8, i: int) -> u32 {
    (network_address(base, mask) + 1 + i) as u32
}

/// An address is the sum of its octets, each at its place.
pub proof fn lemma_quad_of_octets(a: u32)
    ensures
        quad(octet(a, 0), octet(a, 1), octet(a, 2), octet(a, 3)) == a,
{
    let hi = a / 0x1_0000;
    let lo = a % 0x1_0000;
    assert(a == hi * 0x1_0000 + lo);
    assert(hi == (hi / 0x100) * 0x100 + hi % 0x100);
    assert(lo == (lo / 0x100) * 0x100 + lo % 0x100);
    assert(a / 0x100_0000 == hi / 0x100);
    assert(a / 0x100 % 0x100 == lo / 0x100);
    assert(a % 0x100 == lo % 0x100);
}

/// Text that spells bytes below 128 is ASCII and encodes to those bytes.
pub proof fn lemma_ascii_text_bytes(b: Seq<u8>)
    requires
        forall|i: int| 0 <= i < b.len() ==> b[i] < 128,
    ensures
        is_ascii_chars(ascii_text(b)),
        encode_utf8(ascii_text(b)) == b,
{
    let t = ascii_text(b);
    assert forall|i: int| 0 <= i < t.len() implies '\0' <= #[trigger] t[i] <= '\u{7f}' by {
        assert(t[i] == b[i] as char);
    }
    is_ascii_chars_encode_utf8(t);
    assert(encode_utf8(t) =~= b);
}

/// Spelling two byte strings one after the other spells their concatenation.
pub proof fn lemma_ascii_text_concat(x: Seq<u8>, y: Seq<u8>)
    ensures
        ascii_text(x + y) == ascii_text(x) + ascii_text(y),
{
    assert(ascii_text(x + y) =~= ascii_text(x) + ascii_text(y));
}

/// Dotted-quad text is made of digits and dots only.
pub proof fn lemma_dotted_bytes_ascii(a: u32)
    ensures
        forall|i: int| 0 <= i < dotted_bytes(a).len() ==> dotted_bytes(a)[i] < 64,
        forall|i: int| 0 <= i < dotted_bytes(a).len() ==> dotted_bytes(a)[i] != SLASH,
{
    lemma_dec_bytes(octet(a, 0) as nat);
    lemma_dec_bytes(octet(a, 1) as nat);
    lemma_dec_bytes(octet(a, 2) as nat);
    lemma_dec_bytes(octet(a, 3) as nat);
}

/// Reading the dotted-quad spelling of an address gives the address back.
pub proof fn lemma_dotted_round_trip(a: u32)
    ensures
        dotted_value(dotted_bytes(a)) == Some(a),
{
    let d0 = dec_bytes(octet(a, 0) as nat);
    let d1 = dec_bytes(octet(a, 1) as nat);
    let d2 = dec_bytes(octet(a, 2) as nat);
    let d3 = dec_bytes(octet(a, 3) as nat);
    lemma_dec_bytes(octet(a, 0) as nat);
    lemma_dec_bytes(octet(a, 1) as nat);
    lemma_dec_bytes(octet(a, 2) as nat);
    lemma_dec_bytes(octet(a, 3) as nat);
    lemma_octet_of_dec(octet(a, 0));
    lemma_octet_of_dec(octet(a, 1));
    lemma_octet_of_dec(octet(a, 2));
    lemma_octet_of_dec(octet(a, 3));
    let t2 = d2 + seq![DOT] + d3;
    let t1 = d1 + seq![DOT] + t2;
    lemma_split_single(d3, DOT);
    lemma_split_first(d2, d3, DOT);
    lemma_split_first(d1, t2, DOT);
    lemma_split_first(d0, t1, DOT);
    let f = split(dotted_bytes(a), DOT);
    assert(f =~= seq![d0, d1, d2, d3]);
    lemma_quad_of_octets(a);
}

/// Two addresses with the same dotted-quad spelling are the same address.
pub proof fn lemma_dotted_injective(a: u32, b: u32)
    requires
        dotted(a) == dotted(b),
    ensures
        a == b,
{
    lemma_dotted_bytes_ascii(a);
    lemma_dotted_bytes_ascii(b);
    lemma_ascii_text_bytes(dotted_bytes(a));
    lemma_ascii_text_bytes(dotted_bytes(b));
    lemma_dotted_round_trip(a);
    lemma_dotted_round_trip(b);
}

/// The usual spelling of a block, its address in dotted-quad text, a slash
/// and its mask in decimal, reads back as that block if the mask is at most
/// 30, and is refused for its mask if the mask is larger.
pub proof fn lemma_cidr_round_trip(base: u32, mask: u8)
    ensures
        cidr_value(dotted_bytes(base) + seq![SLASH] + dec_bytes(mask as nat)) == if mask <= 30 {
            Ok::<Cidr, ConfigFault>(Cidr::Network { base, mask })
        } else {
            Err::<Cidr, ConfigFault>(ConfigFault::MaskTooLarge)
        },
{
    let a = dotted_bytes(base);
    let m = dec_bytes(mask as nat);
    lemma_dotted_bytes_ascii(base);
    lemma_dotted_round_trip(base);
    lemma_dec_bytes(mask as nat);
    lemma_octet_of_dec(mask);
    assert forall|j: int| 0 <= j < m.len() implies m[j] != SLASH by {
        assert(crate::text::is_digit(m[j]));
    }
    lemma_split_single(m, SLASH);
    lemma_split_first(a, m, SLASH);
    assert(split(a + seq![SLASH] + m, SLASH) =~= seq![a, m]);
}

/// A block lies wholly inside the 32-bit address space, and the addresses
/// that can be leased lie strictly between its first and last address.
pub proof fn lemma_block_bounds(base: u32, mask: u8)
    requires
        mask <= 32,
    ensures
        block_size(mask) >= 1,
        0 <= network_address(base, mask) <= base,
        base <= broadcast_address(base, mask) <= u32::MAX,
        network_address(base, mask) % (block_size(mask) as int) == 0,
{
    let b = block_size(mask) as int;
    let m = pow2(mask as nat) as int;
    lemma_pow2_pos((32 - mask) as nat);
    lemma_pow2_pos(mask as nat);
    lemma_pow2_adds((32 - mask) as nat, mask as nat);
    vstd::arithmetic::power2::lemma2_to64();
    assert(b * m == 0x1_0000_0000);
    let q = base as int / b;
    lemma_fundamental_div_mod(base as int, b);
    assert(base == b * q + base as int % b);
    assert(network_address(base, mask) == b * q);
    lemma_multiply_divide_lt(base as int, b, m);
    assert(q < m);
    lemma_mul_inequality(q + 1, m, b);
    lemma_mul_is_commutative(q + 1, b);
    lemma_mul_is_commutative(m, b);
    assert(b * (q + 1) == b * q + b) by (nonlinear_arith);
    assert((b * q) % b == 0) by (nonlinear_arith)
        requires
            b > 0,
    ;
}

/// Reads dotted-quad text.
pub fn parse_ipv4(s: &[u8]) -> (r: Option<u32>)
    ensures
        r == dotted_value(s@),
{
    let parts = split_fields(s, DOT);
    if parts.len() != 4 {
        return None;
    }
    let ghost f = split(s@, DOT);
    assert(f[0] == parts@[0]@ && f[1] == parts@[1]@ && f[2] == parts@[2]@ && f[3] == parts@[3]@);
    let o0 = parse_octet(parts[0].as_slice());
    let o1 = parse_octet(parts[1].as_slice());
    let o2 = parse_octet(parts[2].as_slice());
    let o3 = parse_octet(parts[3].as_slice());
    match (o0, o1, o2, o3) {
        (Some(a), Some(b), Some(c), Some(d)) => {
            let v: u32 = (a as u32) * 0x100_0000 + (b as u32) * 0x1_0000 + (c as u32) * 0x100 + (
            d as u32);
            Some(v)
        },
        _ => None,
    }
}

/// Spells an address as dotted-quad text.
pub fn format_ipv4(a: u32) -> (s: String)
    ensures
        s@ == dotted(a),
{
    let mut out = String::new();
    let ghost d0 = dec_bytes(octet(a, 0) as nat);
    let ghost d1 = dec_bytes(octet(a, 1) as nat);
    let ghost d2 = dec_bytes(octet(a, 2) as nat);
    let ghost d3 = dec_bytes(octet(a, 3) as nat);
    proof {
        reveal_strlit(".");
    }
    assert("."@ =~= ascii_text(seq![DOT]));
    push_decimal(&mut out, (a / 0x100_0000) as u8);
    out.append(".");
    push_decimal(&mut out, (a / 0x1_0000 % 0x100) as u8);
    out.append(".");
    push_decimal(&mut out, (a / 0x100 % 0x100) as u8);
    out.append(".");
    push_decimal(&mut out, (a % 0x100) as u8);
    proof {
        let dot = seq![DOT];
        let t2 = d2 + dot + d3;
        let t1 = d1 + dot + t2;
        lemma_ascii_text_concat(d2 + dot, d3);
        lemma_ascii_text_concat(d2, dot);
        lemma_ascii_text_concat(d1 + dot, t2);
        lemma_ascii_text_concat(d1, dot);
        lemma_ascii_text_concat(d0 + dot, t1);
        lemma_ascii_text_concat(d0, dot);
        assert(out@ =~= ascii_text(d0) + ascii_text(dot) + (ascii_text(d1) + ascii_text(dot) + (
        ascii_text(d2) + ascii_text(dot) + ascii_text(d3))));
    }
    out
}

/// Reads pool configuration text.
pub fn parse_cidr(s: &[u8]) -> (r: Result<Cidr, ConfigFault>)
    ensures
        r == cidr_value(s@),
{
    let parts = split_fields(s, SLASH);
    if parts.len() == 1 {
        return Ok(Cidr::Host);
    }
    if parts.len() != 2 {
        return Err(ConfigFault::Malformed);
    }
    let ghost f = split(s@, SLASH);
    assert(f[0] == parts@[0]@ && f[1] == parts@[1]@);
    let mask = match parse_octet(parts[1].as_slice()) {
        Some(m) => m,
        None => {
            return Err(ConfigFault::Malformed);
        },
    };
    if mask > 30 {
        return Err(ConfigFault::MaskTooLarge);
    }
    match parse_ipv4(parts[0].as_slice()) {
        Some(base) => Ok(Cidr::Network { base, mask }),
        None => Err(ConfigFault::Malformed),
    }
}

/// Computes how many addresses a block with this mask spans.
pub fn block_size_of(mask: u8) -> (r: u64)
    requires
        mask <= 32,
    ensures
        r == block_size(mask),
        1 <= r <= 0x1_0000_0000,
{
    let mut r: u64 = 1;
    let mut k: u8 = 0;
    proof {
        vstd::arithmetic::power2::lemma2_to64();
    }
    while k < 32 - mask
        invariant
            mask <= 32,
            k <= 32 - mask,
            r == pow2(k as nat),
            r <= pow2(32),
            pow2(32) == 0x1_0000_0000,
        decreases 32 - mask - k,
    {
        proof {
            lemma_pow2_unfold((k + 1) as nat);
            if k + 1 < 32 {
                vstd::arithmetic::power2::lemma_pow2_strictly_increases((k + 1) as nat, 32);
            }
        }
        r = r * 2;
        k = k + 1;
    }
    proof {
        lemma_pow2_pos((32 - mask) as nat);
    }
    r
}

} // verus!
