//! IP addresses in text, as the router reads them.
//!
//! An IPv4 address is four decimal octets with dots between them. Each
//! octet is one to three digits without a sign, and without a leading zero
//! unless it is the single digit 0.
//!
//! An IPv6 address is eight groups of one to four hexadecimal digits with
//! colons between them. One `::` may stand for one or more groups of zero,
//! and the last two groups may be spelled as an IPv4 address.

use crate::addr::{dotted_bytes, octet, quad, IpAddress, lemma_quad_of_octets};
use crate::text::{
    all_digits, dec_bytes, digits_value, is_digit, lemma_dec_bytes, lemma_split_first,
    lemma_split_single, parse_octet, split, split_fields, views, DOT,
};
use vstd::arithmetic::power2::{lemma2_to64, lemma_pow2_adds, lemma_pow2_strictly_increases, pow2};
use vstd::prelude::*;
use vstd::slice::slice_subrange;

verus! {

pub const COLON: u8 = 58;

/// The value of a decimal octet in strict spelling: one to three digits
/// worth at most 255, with no leading zero before another digit.
pub open spec fn strict_octet_value(s: Seq<u8>) -> Option<u8> {
    if 1 <= s.len() <= 3 && all_digits(s) && (s.len() == 1 || s[0] != 48) && digits_value(s)
        <= 255 {
        Some(digits_value(s) as u8)
    } else {
        None
    }
}

/// The IPv4 address that text stands for: exactly four octets in strict
/// spelling with a dot between each two.
pub open spec fn strict_dotted_value(s: Seq<u8>) -> Option<u32> {
    let f = split(s, DOT);
    if f.len() == 4 && strict_octet_value(f[0]) is Some && strict_octet_value(f[1]) is Some
        && strict_octet_value(f[2]) is Some && strict_octet_value(f[3]) is Some {
        Some(
            quad(
                strict_octet_value(f[0])->0,
                strict_octet_value(f[1])->0,
                strict_octet_value(f[2])->0,
                strict_octet_value(f[3])->0,
            ),
        )
    } else {
        None
    }
}

pub open spec fn is_hex(b: u8) -> bool {
    is_digit(b) || (97 <= b && b <= 102) || (65 <= b && b <= 70)
}

/// What a hexadecimal digit is worth, in either case.
pub open spec fn hex_digit(b: u8) -> nat {
    if is_digit(b) {
        (b - 48) as nat
    } else if 97 <= b && b <= 102 {
        (b - 87) as nat
    } else {
        (b - 55) as nat
    }
}

pub open spec fn all_hex(s: Seq<u8>) -> bool {
    forall|i: int| 0 <= i < s.len() ==> is_hex(#[trigger] s[i])
}

/// The number that a run of hexadecimal digits stands for.
pub open spec fn hex_value(s: Seq<u8>) -> nat
    decreases s.len(),
{
    if s.len() == 0 {
        0
    } else {
        hex_value(s.drop_last()) * 16 + hex_digit(s.last())
    }
}

/// The value of one group of an IPv6 address: one to four hexadecimal
/// digits.
pub open spec fn group_value(s: Seq<u8>) -> Option<u16> {
    if 1 <= s.len() <= 4 && all_hex(s) {
        Some(hex_value(s) as u16)
    } else {
        None
    }
}

/// Every field is a group.
pub open spec fn all_groups(f: Seq<Seq<u8>>) -> bool {
    forall|i: int| 0 <= i < f.len() ==> group_value(#[trigger] f[i]) is Some
}

/// The values of fields that are groups.
pub open spec fn group_values(f: Seq<Seq<u8>>) -> Seq<u16> {
    Seq::new(f.len(), |i: int| group_value(f[i])->0)
}

/// The groups that a run of an IPv6 address spells. No text spells no
/// groups. Otherwise every field between colons is a group; where
/// `allow_v4` holds, the last field may be an IPv4 address instead, which
/// spells two groups.
pub open spec fn groups_of(s: Seq<u8>, allow_v4: bool) -> Option<Seq<u16>> {
    if s.len() == 0 {
        Some(Seq::empty())
    } else {
        let f = split(s, COLON);
        let front = f.drop_last();
        let last = f.last();
        if !all_groups(front) {
            None
        } else if group_value(last) is Some {
            Some(group_values(front).push(group_value(last)->0))
        } else if allow_v4 && strict_dotted_value(last) is Some {
            let a = strict_dotted_value(last)->0;
            Some(group_values(front).push((a / 0x1_0000) as u16).push((a % 0x1_0000) as u16))
        } else {
            None
        }
    }
}

/// Two colons meet at `j`.
pub open spec fn pair_at(s: Seq<u8>, j: int) -> bool {
    0 <= j && j + 1 < s.len() && s[j] == COLON && s[j + 1] == COLON
}

/// Where `::` first occurs in `s`, or the length of `s` if it does not.
pub open spec fn pair_index(s: Seq<u8>) -> int
    decreases s.len(),
{
    if s.len() < 2 {
        s.len() as int
    } else if s[0] == COLON && s[1] == COLON {
        0
    } else {
        1 + pair_index(s.skip(1))
    }
}

/// This many groups of zero.
pub open spec fn zero_groups(n: int) -> Seq<u16> {
    Seq::new(n as nat, |i: int| 0u16)
}

/// The eight groups of the IPv6 address that text stands for. Without
/// `::` the text spells all eight. With `::` the text before it spells the
/// first groups and the text after it the last ones, at most seven
/// together, and the groups between are zero. An IPv4 spelling may only
/// end the address.
pub open spec fn v6_groups(s: Seq<u8>) -> Option<Seq<u16>> {
    let p = pair_index(s);
    if p >= s.len() {
        match groups_of(s, true) {
            Some(g) => if g.len() == 8 {
                Some(g)
            } else {
                None
            },
            None => None,
        }
    } else {
        let head = groups_of(s.subrange(0, p), false);
        let tail = groups_of(s.subrange(p + 2, s.len() as int), true);
        if head is Some && tail is Some && head->0.len() + tail->0.len() <= 7 {
            Some(head->0 + zero_groups(8 - head->0.len() - tail->0.len()) + tail->0)
        } else {
            None
        }
    }
}

/// The number that groups spell, most significant first.
pub open spec fn groups_value(g: Seq<u16>) -> nat
    decreases g.len(),
{
    if g.len() == 0 {
        0
    } else {
        groups_value(g.drop_last()) * 0x1_0000 + g.last() as nat
    }
}

/// The address that text stands for: an IPv4 address, or else an IPv6
/// address. Any other text stands for none.
pub open spec fn ip_value(s: Seq<u8>) -> Option<IpAddress> {
    match strict_dotted_value(s) {
        Some(a) => Some(IpAddress::V4(a)),
        None => match v6_groups(s) {
            Some(g) => Some(IpAddress::V6(groups_value(g) as u128)),
            None => None,
        },
    }
}

/// The first `::` is at `k` when no two colons meet before `k` and two meet
/// at `k`, or `k` is the end.
pub proof fn lemma_pair_index_is(s: Seq<u8>, k: int)
    requires
        0 <= k <= s.len(),
        forall|j: int| 0 <= j < k ==> !#[trigger] pair_at(s, j),
        k == s.len() || pair_at(s, k),
    ensures
        pair_index(s) == k,
    decreases s.len(),
{
    if s.len() >= 2 && k > 0 {
        let t = s.skip(1);
        assert forall|j: int| 0 <= j < k - 1 implies !#[trigger] pair_at(t, j) by {
            assert(!pair_at(s, j + 1));
            if j + 1 < t.len() {
                assert(t[j] == s[j + 1] && t[j + 1] == s[j + 2]);
            }
        }
        if k < s.len() {
            assert(pair_at(s, k));
            assert(t[k - 1] == s[k] && t[k] == s[k + 1]);
            assert(pair_at(t, k - 1));
        }
        assert(!pair_at(s, 0));
        lemma_pair_index_is(t, k - 1);
    }
}

/// The decimal spelling of a number up to 255 is an octet in strict
/// spelling with that value.
pub proof fn lemma_strict_octet_of_dec(n: u8)
    ensures
        strict_octet_value(dec_bytes(n as nat)) == Some(n),
{
    lemma_dec_bytes(n as nat);
    reveal_with_fuel(dec_bytes, 3);
    let s = dec_bytes(n as nat);
    if n >= 100 {
        let p = dec_bytes((n / 10) as nat);
        assert(p.len() == 2 && p[0] == (48 + n / 100) as u8);
        assert(s == p.push((48 + n % 10) as u8));
        assert(s.len() == 3 && s[0] != 48);
    } else if n >= 10 {
        let p = dec_bytes((n / 10) as nat);
        assert(p.len() == 1 && p[0] == (48 + n / 10) as u8);
        assert(s == p.push((48 + n % 10) as u8));
        assert(s.len() == 2 && s[0] != 48);
    } else {
        assert(s.len() == 1);
    }
}

/// The dotted-quad spelling of an address, as the pool leases it, is an IP
/// address in text, and stands for that address.
pub proof fn lemma_leased_text_is_an_address(a: u32)
    ensures
        strict_dotted_value(dotted_bytes(a)) == Some(a),
        ip_value(dotted_bytes(a)) == Some(IpAddress::V4(a)),
{
    let d0 = dec_bytes(octet(a, 0) as nat);
    let d1 = dec_bytes(octet(a, 1) as nat);
    let d2 = dec_bytes(octet(a, 2) as nat);
    let d3 = dec_bytes(octet(a, 3) as nat);
    lemma_dec_bytes(octet(a, 0) as nat);
    lemma_dec_bytes(octet(a, 1) as nat);
    lemma_dec_bytes(octet(a, 2) as nat);
    lemma_dec_bytes(octet(a, 3) as nat);
    lemma_strict_octet_of_dec(octet(a, 0));
    lemma_strict_octet_of_dec(octet(a, 1));
    lemma_strict_octet_of_dec(octet(a, 2));
    lemma_strict_octet_of_dec(octet(a, 3));
    let t2 = d2 + seq![DOT] + d3;
    let t1 = d1 + seq![DOT] + t2;
    lemma_split_single(d3, DOT);
    lemma_split_first(d2, d3, DOT);
    lemma_split_first(d1, t2, DOT);
    lemma_split_first(d0, t1, DOT);
    assert(split(dotted_bytes(a), DOT) =~= seq![d0, d1, d2, d3]);
    lemma_quad_of_octets(a);
}

/// Reads a decimal octet in strict spelling.
pub fn parse_strict_octet(s: &[u8]) -> (r: Option<u8>)
    ensures
        r == strict_octet_value(s@),
{
    let n = s.len();
    if n == 0 || n > 3 {
        return None;
    }
    let first = s[0];
    if first < 48 || first > 57 {
        assert(!is_digit(s@[0]));
        return None;
    }
    if n > 1 && first == 48 {
        return None;
    }
    parse_octet(s)
}

/// Reads an IPv4 address in strict spelling.
pub fn parse_strict_ipv4(s: &[u8]) -> (r: Option<u32>)
    ensures
        r == strict_dotted_value(s@),
{
    let parts = split_fields(s, DOT);
    if parts.len() != 4 {
        return None;
    }
    let ghost f = split(s@, DOT);
    assert(f[0] == parts@[0]@ && f[1] == parts@[1]@ && f[2] == parts@[2]@ && f[3] == parts@[3]@);
    let o0 = parse_strict_octet(parts[0].as_slice());
    let o1 = parse_strict_octet(parts[1].as_slice());
    let o2 = parse_strict_octet(parts[2].as_slice());
    let o3 = parse_strict_octet(parts[3].as_slice());
    match (o0, o1, o2, o3) {
        (Some(a), Some(b), Some(c), Some(d)) => {
            let v: u32 = (a as u32) * 0x100_0000 + (b as u32) * 0x1_0000 + (c as u32) * 0x100 + (
            d as u32);
            Some(v)
        },
        _ => None,
    }
}

/// Reads one group of an IPv6 address.
pub fn parse_group(s: &[u8]) -> (r: Option<u16>)
    ensures
        r == group_value(s@),
{
    let n = s.len();
    if n == 0 || n > 4 {
        return None;
    }
    let mut acc: u32 = 0;
    let mut i: usize = 0;
    assert(s@.take(0) =~= Seq::<u8>::empty());
    while i < n
        invariant
            i <= n,
            n == s@.len(),
            n <= 4,
            all_hex(s@.take(i as int)),
            acc == hex_value(s@.take(i as int)),
            i == 0 ==> acc == 0,
            i == 1 ==> acc < 0x10,
            i == 2 ==> acc < 0x100,
            i == 3 ==> acc < 0x1000,
            i == 4 ==> acc < 0x1_0000,
        decreases n - i,
    {
        let b = s[i];
        let ghost k = i as int;
        assert(s@.take(k + 1).drop_last() =~= s@.take(k));
        assert(s@.take(k + 1).last() == b);
        let d: u32 = if b >= 48 && b <= 57 {
            (b - 48) as u32
        } else if b >= 97 && b <= 102 {
            (b - 87) as u32
        } else if b >= 65 && b <= 70 {
            (b - 55) as u32
        } else {
            assert(!is_hex(s@[k]));
            return None;
        };
        assert(d == hex_digit(b) && d < 16);
        assert forall|j: int| 0 <= j < k + 1 implies is_hex(#[trigger] s@.take(k + 1)[j]) by {
            if j < k {
                assert(s@.take(k)[j] == s@.take(k + 1)[j]);
            }
        }
        acc = acc * 16 + d;
        i += 1;
    }
    assert(s@.take(n as int) =~= s@);
    Some(acc as u16)
}

/// Reads the groups that a run of an IPv6 address spells.
pub fn parse_groups(s: &[u8], allow_v4: bool) -> (r: Option<Vec<u16>>)
    ensures
        match groups_of(s@, allow_v4) {
            Some(g) => r is Some && r->0@ == g,
            None => r is None,
        },
{
    if s.len() == 0 {
        let none: Vec<u16> = Vec::new();
        assert(none@ =~= Seq::<u16>::empty());
        return Some(none);
    }
    let fields = split_fields(s, COLON);
    let ghost f = split(s@, COLON);
    let n = fields.len();
    assert(n >= 1);
    let ghost front = f.drop_last();
    let mut out: Vec<u16> = Vec::new();
    let mut i: usize = 0;
    while i < n - 1
        invariant
            n >= 1,
            n == fields@.len(),
            i + 1 <= n,
            s@.len() > 0,
            f == split(s@, COLON),
            f == views(fields@),
            front == f.drop_last(),
            out@.len() == i,
            forall|j: int| 0 <= j < i ==> group_value(#[trigger] f[j]) == Some(out@[j]),
        decreases n - i,
    {
        assert(f[i as int] == fields@[i as int]@);
        match parse_group(fields[i].as_slice()) {
            Some(v) => {
                out.push(v);
            },
            None => {
                assert(front[i as int] == f[i as int]);
                assert(!all_groups(front));
                return None;
            },
        }
        i += 1;
    }
    proof {
        assert forall|j: int| 0 <= j < front.len() implies group_value(#[trigger] front[j])
            is Some by {
            assert(front[j] == f[j]);
        }
        assert(out@ =~= group_values(front)) by {
            assert forall|j: int| 0 <= j < front.len() implies out@[j] == group_values(front)[j] by {
                assert(front[j] == f[j]);
            }
        }
        assert(f.last() == fields@[n - 1]@);
    }
    let last = fields[n - 1].as_slice();
    match parse_group(last) {
        Some(v) => {
            out.push(v);
            Some(out)
        },
        None => {
            if !allow_v4 {
                return None;
            }
            match parse_strict_ipv4(last) {
                Some(a) => {
                    out.push((a / 0x1_0000) as u16);
                    out.push((a % 0x1_0000) as u16);
                    Some(out)
                },
                None => None,
            }
        },
    }
}

/// Finds the first `::`.
pub fn find_pair(s: &[u8]) -> (r: usize)
    ensures
        r == pair_index(s@),
        r <= s@.len(),
        r < s@.len() ==> r + 2 <= s@.len(),
{
    let n = s.len();
    if n < 2 {
        proof {
            lemma_pair_index_is(s@, n as int);
        }
        return n;
    }
    let mut i: usize = 0;
    while i < n - 1
        invariant
            n == s@.len(),
            n >= 2,
            i <= n - 1,
            forall|j: int| 0 <= j < i ==> !#[trigger] pair_at(s@, j),
        decreases n - i,
    {
        if s[i] == COLON && s[i + 1] == COLON {
            proof {
                assert(pair_at(s@, i as int));
                lemma_pair_index_is(s@, i as int);
            }
            return i;
        }
        assert(!pair_at(s@, i as int));
        i += 1;
    }
    proof {
        assert forall|j: int| 0 <= j < n implies !#[trigger] pair_at(s@, j) by {
            if j < i {
            } else {
                assert(j + 1 >= n);
            }
        }
        lemma_pair_index_is(s@, n as int);
    }
    n
}

/// Folds eight groups into one number, most significant group first.
pub fn fold_groups(g: &[u16; 8]) -> (r: u128)
    ensures
        r == groups_value(g@),
{
    let mut acc: u128 = 0;
    let mut i: usize = 0;
    proof {
        lemma2_to64();
        lemma_pow2_adds(64, 64);
        assert(g@.take(0) =~= Seq::<u16>::empty());
    }
    while i < 8
        invariant
            i <= 8,
            acc == groups_value(g@.take(i as int)),
            acc < pow2((16 * i) as nat),
            pow2(128) == 0x1_0000_0000_0000_0000_0000_0000_0000_0000,
            pow2(16) == 0x1_0000,
        decreases 8 - i,
    {
        proof {
            lemma_pow2_adds((16 * i) as nat, 16);
            if 16 * (i + 1) < 128 {
                lemma_pow2_strictly_increases((16 * (i + 1)) as nat, 128);
            }
            assert(g@.take(i + 1).drop_last() =~= g@.take(i as int));
            assert(acc * 0x1_0000 + 0xffff < pow2((16 * i) as nat) * 0x1_0000) by (nonlinear_arith)
                requires
                    acc < pow2((16 * i) as nat),
            ;
        }
        acc = acc * 0x1_0000 + g[i] as u128;
        i += 1;
    }
    assert(g@.take(8) =~= g@);
    acc
}

/// Reads the eight groups of an IPv6 address.
pub fn parse_ipv6_groups(s: &[u8]) -> (r: Option<[u16; 8]>)
    ensures
        match v6_groups(s@) {
            Some(g) => r is Some && r->0@ == g,
            None => r is None,
        },
{
    let n = s.len();
    let p = find_pair(s);
    let mut groups: [u16; 8] = [0, 0, 0, 0, 0, 0, 0, 0];
    if p >= n {
        match parse_groups(s, true) {
            Some(all) => {
                if all.len() != 8 {
                    return None;
                }
                let mut i: usize = 0;
                while i < 8
                    invariant
                        i <= 8,
                        all@.len() == 8,
                        forall|j: int| 0 <= j < i ==> groups@[j] == all@[j],
                    decreases 8 - i,
                {
                    groups[i] = all[i];
                    i += 1;
                }
                assert(groups@ =~= all@);
                Some(groups)
            },
            None => None,
        }
    } else {
        let head = match parse_groups(slice_subrange(s, 0, p), false) {
            Some(h) => h,
            None => {
                return None;
            },
        };
        let tail = match parse_groups(slice_subrange(s, p + 2, n), true) {
            Some(t) => t,
            None => {
                return None;
            },
        };
        let h = head.len();
        let t = tail.len();
        if h > 7 || t > 7 - h {
            return None;
        }
        let ghost want = head@ + zero_groups(8 - h - t) + tail@;
        let mut i: usize = 0;
        while i < h
            invariant
                i <= h,
                h == head@.len(),
                h + t <= 7,
                forall|j: int| 0 <= j < i ==> groups@[j] == head@[j],
                forall|j: int| i <= j < 8 ==> groups@[j] == 0,
            decreases h - i,
        {
            groups[i] = head[i];
            i += 1;
        }
        let mut k: usize = 0;
        while k < t
            invariant
                k <= t,
                h == head@.len(),
                t == tail@.len(),
                h + t <= 7,
                forall|j: int| 0 <= j < h ==> groups@[j] == head@[j],
                forall|j: int| 8 - t <= j < 8 - t + k ==> groups@[j] == tail@[j - (8 - t)],
                forall|j: int| h <= j < 8 - t ==> groups@[j] == 0,
            decreases t - k,
        {
            groups[8 - t + k] = tail[k];
            k += 1;
        }
        assert(groups@ =~= want);
        Some(groups)
    }
}

/// Reads an IP address: IPv4 in strict spelling, or else IPv6.
pub fn parse_ip(s: &[u8]) -> (r: Option<IpAddress>)
    ensures
        r == ip_value(s@),
{
    match parse_strict_ipv4(s) {
        Some(a) => Some(IpAddress::V4(a)),
        None => match parse_ipv6_groups(s) {
            Some(g) => Some(IpAddress::V6(fold_groups(&g))),
            None => None,
        },
    }
}

} // verus!
