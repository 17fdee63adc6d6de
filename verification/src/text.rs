//! ASCII text helpers: decimal numbers and separator-delimited fields.
//!
//! Text is handled as bytes. Every grammar in this crate is ASCII, so a
//! non-ASCII input simply fails to match.

use vstd::prelude::*;
use vstd::string::*;

verus! {

pub const PLUS: u8 = 43;

pub const DOT: u8 = 46;

pub const SLASH: u8 = 47;

/// The characters that stand for a sequence of ASCII bytes.
pub open spec fn ascii_text(bytes: Seq<u8>) -> Seq<char> {
    Seq::new(bytes.len(), |i: int| bytes[i] as char)
}

pub open spec fn is_digit(b: u8) -> bool {
    48 <= b && b <= 57
}

pub open spec fn all_digits(s: Seq<u8>) -> bool {
    forall|i: int| 0 <= i < s.len() ==> is_digit(#[trigger] s[i])
}

/// The number that a run of decimal digits stands for, most significant first.
pub open spec fn digits_value(s: Seq<u8>) -> nat
    decreases s.len(),
{
    if s.len() == 0 {
        0
    } else {
        digits_value(s.drop_last()) * 10 + (s.last() - 48) as nat
    }
}

/// The digits of an octet once an optional leading plus sign is taken off.
pub open spec fn octet_digits(s: Seq<u8>) -> Seq<u8> {
    if s.len() > 0 && s[0] == PLUS {
        s.skip(1)
    } else {
        s
    }
}

/// The value of a decimal octet: an optional plus sign, then one or more
/// digits that are worth at most 255. Anything else is no octet.
pub open spec fn octet_value(s: Seq<u8>) -> Option<u8> {
    let d = octet_digits(s);
    if d.len() > 0 && all_digits(d) && digits_value(d) <= 255 {
        Some(digits_value(d) as u8)
    } else {
        None
    }
}

/// The shortest decimal spelling of a number.
pub open spec fn dec_bytes(n: nat) -> Seq<u8>
    decreases n,
{
    if n < 10 {
        seq![(48 + n) as u8]
    } else {
        dec_bytes(n / 10).push((48 + n % 10) as u8)
    }
}

/// Where `sep` first occurs in `s`, or the length of `s` if it does not.
pub open spec fn first_index(s: Seq<u8>, sep: u8) -> int
    decreases s.len(),
{
    if s.len() == 0 {
        0
    } else if s[0] == sep {
        0
    } else {
        1 + first_index(s.skip(1), sep)
    }
}

/// The fields of `s` between occurrences of `sep`. There is always at least
/// one field; a separator at either end gives an empty field there.
pub open spec fn split(s: Seq<u8>, sep: u8) -> Seq<Seq<u8>>
    decreases s.len(),
{
    let i = first_index(s, sep);
    if i < 0 || i >= s.len() {
        seq![s]
    } else {
        seq![s.take(i)] + split(s.skip(i + 1), sep)
    }
}

/// The contents of a vector of byte strings.
pub open spec fn views(v: Seq<Vec<u8>>) -> Seq<Seq<u8>> {
    Seq::new(v.len(), |i: int| v[i]@)
}

/// The first separator is at `k` when nothing before `k` is one and `k` is
/// one, or the end.
pub proof fn lemma_first_index_is(s: Seq<u8>, sep: u8, k: int)
    requires
        0 <= k <= s.len(),
        forall|j: int| 0 <= j < k ==> s[j] != sep,
        k < s.len() ==> s[k] == sep,
    ensures
        first_index(s, sep) == k,
    decreases s.len(),
{
    if k > 0 {
        let t = s.skip(1);
        assert forall|j: int| 0 <= j < k - 1 implies t[j] != sep by {
            assert(t[j] == s[j + 1]);
        }
        lemma_first_index_is(t, sep, k - 1);
    }
}

/// A field without a separator, followed by a separator and more text,
/// splits off as the first field.
pub proof fn lemma_split_first(a: Seq<u8>, b: Seq<u8>, sep: u8)
    requires
        forall|j: int| 0 <= j < a.len() ==> a[j] != sep,
    ensures
        split(a + seq![sep] + b, sep) == seq![a] + split(b, sep),
{
    let s = a + seq![sep] + b;
    lemma_first_index_is(s, sep, a.len() as int);
    assert(s.take(a.len() as int) =~= a);
    assert(s.skip(a.len() as int + 1) =~= b);
}

/// Text without a separator is one field.
pub proof fn lemma_split_single(a: Seq<u8>, sep: u8)
    requires
        forall|j: int| 0 <= j < a.len() ==> a[j] != sep,
    ensures
        split(a, sep) == seq![a],
{
    lemma_first_index_is(a, sep, a.len() as int);
}

/// A number's decimal spelling is made of digits and reads back as the number.
pub proof fn lemma_dec_bytes(n: nat)
    ensures
        dec_bytes(n).len() >= 1,
        all_digits(dec_bytes(n)),
        digits_value(dec_bytes(n)) == n,
    decreases n,
{
    if n < 10 {
        let s = dec_bytes(n);
        assert(s.drop_last() =~= Seq::<u8>::empty());
        assert(digits_value(s.drop_last()) == 0);
    } else {
        let p = dec_bytes(n / 10);
        let s = p.push((48 + n % 10) as u8);
        lemma_dec_bytes(n / 10);
        assert(s.drop_last() =~= p);
        assert(s.last() == (48 + n % 10) as u8);
    }
}

/// The decimal spelling of a number up to 255 is an octet with that value.
pub proof fn lemma_octet_of_dec(n: u8)
    ensures
        octet_value(dec_bytes(n as nat)) == Some(n),
{
    lemma_dec_bytes(n as nat);
    let s = dec_bytes(n as nat);
    assert(is_digit(s[0]));
}

/// A longer run of digits is worth at least as much as any of its prefixes.
pub proof fn lemma_digits_value_prefix(s: Seq<u8>, k: int)
    requires
        all_digits(s),
        0 <= k <= s.len(),
    ensures
        digits_value(s.take(k)) <= digits_value(s),
    decreases s.len() - k,
{
    if k < s.len() {
        let t = s.take(k + 1);
        assert(t.drop_last() =~= s.take(k));
        assert(is_digit(s[k]));
        assert(t.last() == s[k]);
        lemma_digits_value_prefix(s, k + 1);
    } else {
        assert(s.take(k) =~= s);
    }
}

/// Reads a decimal octet.
pub fn parse_octet(s: &[u8]) -> (r: Option<u8>)
    ensures
        r == octet_value(s@),
{
    let n = s.len();
    let from: usize = if n > 0 && s[0] == PLUS {
        1
    } else {
        0
    };
    let ghost d = octet_digits(s@);
    assert(d =~= s@.skip(from as int));
    if from == n {
        return None;
    }
    let mut acc: u32 = 0;
    let mut i: usize = from;
    while i < n
        invariant
            from <= i <= n,
            n == s@.len(),
            d == octet_digits(s@),
            d == s@.skip(from as int),
            all_digits(d.take(i - from)),
            acc == digits_value(d.take(i - from)),
            acc <= 255,
        decreases n - i,
    {
        let b = s[i];
        let ghost k = i - from;
        assert(d[k] == b);
        assert(d.take(k + 1).drop_last() =~= d.take(k));
        assert(d.take(k + 1).last() == b);
        if b < 48 || b > 57 {
            assert(!is_digit(d[k]));
            return None;
        }
        let next: u32 = acc * 10 + (b - 48) as u32;
        if next > 255 {
            proof {
                if all_digits(d) {
                    lemma_digits_value_prefix(d, k + 1);
                }
            }
            return None;
        }
        assert forall|j: int| 0 <= j < k + 1 implies is_digit(#[trigger] d.take(k + 1)[j]) by {
            if j < k {
                assert(d.take(k)[j] == d.take(k + 1)[j]);
            }
        }
        acc = next;
        i += 1;
    }
    assert(d.take(n - from) =~= d);
    Some(acc as u8)
}

/// The one-character text of a decimal digit.
fn digit_str(d: u8) -> (r: &'static str)
    requires
        d < 10,
    ensures
        r@ == ascii_text(seq![(48 + d) as u8]),
{
    proof {
        reveal_strlit("0");
        reveal_strlit("1");
        reveal_strlit("2");
        reveal_strlit("3");
        reveal_strlit("4");
        reveal_strlit("5");
        reveal_strlit("6");
        reveal_strlit("7");
        reveal_strlit("8");
        reveal_strlit("9");
    }
    let r = if d == 0 {
        "0"
    } else if d == 1 {
        "1"
    } else if d == 2 {
        "2"
    } else if d == 3 {
        "3"
    } else if d == 4 {
        "4"
    } else if d == 5 {
        "5"
    } else if d == 6 {
        "6"
    } else if d == 7 {
        "7"
    } else if d == 8 {
        "8"
    } else {
        "9"
    };
    assert(r@ =~= ascii_text(seq![(48 + d) as u8]));
    r
}

/// Appends the decimal spelling of `n` to `out`.
pub fn push_decimal(out: &mut String, n: u8)
    ensures
        final(out)@ == old(out)@ + ascii_text(dec_bytes(n as nat)),
{
    let ghost before = out@;
    let ghost spelled = dec_bytes(n as nat);
    if n >= 100 {
        out.append(digit_str(n / 100));
        out.append(digit_str((n / 10) % 10));
        out.append(digit_str(n % 10));
        proof {
            let h = (48 + n / 100) as u8;
            let t = (48 + (n / 10) % 10) as u8;
            let u = (48 + n % 10) as u8;
            assert(dec_bytes((n / 100) as nat) == seq![h]);
            assert(dec_bytes((n / 10) as nat) == seq![h].push(t));
            assert(spelled == seq![h].push(t).push(u));
            assert(out@ =~= before + ascii_text(spelled));
        }
    } else if n >= 10 {
        out.append(digit_str(n / 10));
        out.append(digit_str(n % 10));
        proof {
            let t = (48 + n / 10) as u8;
            let u = (48 + n % 10) as u8;
            assert(dec_bytes((n / 10) as nat) == seq![t]);
            assert(spelled == seq![t].push(u));
            assert(out@ =~= before + ascii_text(spelled));
        }
    } else {
        out.append(digit_str(n));
        proof {
            assert(out@ =~= before + ascii_text(spelled));
        }
    }
}

/// Cuts `s` into its fields at each `sep`.
pub fn split_fields(s: &[u8], sep: u8) -> (parts: Vec<Vec<u8>>)
    ensures
        views(parts@) == split(s@, sep),
{
    let mut parts: Vec<Vec<u8>> = Vec::new();
    let mut cur: Vec<u8> = Vec::new();
    let mut i: usize = 0;
    let ghost mut start: int = 0;
    assert(s@.skip(0) =~= s@);
    assert(views(parts@) =~= Seq::<Seq<u8>>::empty());
    while i < s.len()
        invariant
            0 <= start <= i <= s@.len(),
            cur@ == s@.subrange(start, i as int),
            forall|j: int| start <= j < i ==> s@[j] != sep,
            split(s@, sep) == views(parts@) + split(s@.skip(start), sep),
        decreases s@.len() - i,
    {
        let b = s[i];
        if b == sep {
            proof {
                let rest = s@.skip(start);
                assert forall|j: int| 0 <= j < i - start implies rest[j] != sep by {
                    assert(rest[j] == s@[start + j]);
                }
                lemma_first_index_is(rest, sep, i - start);
                assert(rest.take(i - start) =~= cur@);
                assert(rest.skip(i - start + 1) =~= s@.skip(i + 1));
                assert(views(parts@.push(cur)) =~= views(parts@) + seq![cur@]);
                assert(views(parts@) + (seq![cur@] + split(s@.skip(i + 1), sep)) =~= views(
                    parts@,
                ) + seq![cur@] + split(s@.skip(i + 1), sep));
                start = i + 1;
            }
            parts.push(cur);
            cur = Vec::new();
            assert(cur@ =~= s@.subrange(i + 1, i + 1));
        } else {
            cur.push(b);
            assert(cur@ =~= s@.subrange(start, i + 1));
        }
        i += 1;
    }
    proof {
        let rest = s@.skip(start);
        assert forall|j: int| 0 <= j < rest.len() implies rest[j] != sep by {
            assert(rest[j] == s@[start + j]);
        }
        lemma_split_single(rest, sep);
        assert(rest =~= cur@);
        assert(views(parts@.push(cur)) =~= views(parts@) + seq![cur@]);
    }
    parts.push(cur);
    parts
}

} // verus!
