//! Byte-level text helpers: hexadecimal and decimal digits, and the
//! conversion of ASCII bytes into a `String`.

use vstd::prelude::*;
use vstd::utf8::{encode_utf8, valid_utf8};

verus! {

/// The ASCII byte of a lowercase hexadecimal digit of value `v` (below 16).
pub open spec fn hex_digit(v: int) -> u8 {
    if v < 10 { (48 + v) as u8 } else { (87 + v) as u8 }
}

/// Lowercase hexadecimal text of a byte string, two digits per byte, high
/// nibble first.
pub open spec fn hex_bytes(d: Seq<u8>) -> Seq<u8> {
    Seq::new(
        (2 * d.len()) as nat,
        |i: int| if i % 2 == 0 { hex_digit(d[i / 2] as int / 16) } else { hex_digit(d[i / 2] as int % 16) },
    )
}

/// Decimal text of a number, without leading zeros.
pub open spec fn decimal_bytes(n: nat) -> Seq<u8>
    decreases n,
{
    if n < 10 {
        seq![(48 + n) as u8]
    } else {
        decimal_bytes(n / 10).push((48 + n % 10) as u8)
    }
}

pub open spec fn is_ascii_bytes(b: Seq<u8>) -> bool {
    forall|i: int| 0 <= i < b.len() ==> #[trigger] b[i] < 128
}

/// Relies on String::from_utf8: it takes the bytes as they are where they are
/// valid UTF-8 (ASCII always is), and fails otherwise.
#[verifier::external_body]
pub(crate) fn string_from_utf8(v: Vec<u8>) -> (r: Option<String>)
    ensures
        r is Some <==> valid_utf8(v@),
        r matches Some(s) ==> encode_utf8(s@) == v@,
        is_ascii_bytes(v@) ==> r is Some,
{
    String::from_utf8(v).ok()
}

fn hex_digit_exec(v: u8) -> (r: u8)
    requires
        v < 16,
    ensures
        r == hex_digit(v as int),
        r < 128,
{
    if v < 10 { 48 + v } else { 87 + v }
}

/// The value of a lowercase hexadecimal digit.
fn hex_value(c: u8) -> (r: Option<u8>)
    ensures
        r matches Some(v) ==> v < 16 && hex_digit(v as int) == c,
        forall|v: int| 0 <= v < 16 && hex_digit(v) == c ==> r == Some(v as u8),
{
    if 48 <= c && c <= 57 {
        Some(c - 48)
    } else if 97 <= c && c <= 102 {
        Some(c - 87)
    } else {
        None
    }
}

/// Appends the hexadecimal text of `d` to `out`.
pub fn push_hex(d: &[u8], out: &mut Vec<u8>)
    requires
        old(out)@.len() + 2 * d@.len() <= usize::MAX,
    ensures
        final(out)@ == old(out)@ + hex_bytes(d@),
{
    let ghost start = out@;
    let mut i: usize = 0;
    while i < d.len()
        invariant
            i <= d@.len(),
            start.len() + 2 * d@.len() <= usize::MAX,
            out@ == start + hex_bytes(d@.subrange(0, i as int)),
        decreases d@.len() - i,
    {
        let b = d[i];
        out.push(hex_digit_exec(b / 16));
        out.push(hex_digit_exec(b % 16));
        i = i + 1;
        assert(hex_bytes(d@.subrange(0, i as int)) =~= hex_bytes(d@.subrange(0, i - 1)).push(
            hex_digit(b as int / 16),
        ).push(hex_digit(b as int % 16)));
    }
    assert(d@.subrange(0, d@.len() as int) =~= d@);
}

/// Two byte strings with the same hexadecimal text are equal.
pub proof fn lemma_hex_injective(a: Seq<u8>, b: Seq<u8>)
    requires
        hex_bytes(a) == hex_bytes(b),
    ensures
        a == b,
{
    assert(a.len() == b.len()) by {
        assert(hex_bytes(a).len() == 2 * a.len());
        assert(hex_bytes(b).len() == 2 * b.len());
    }
    assert forall|j: int| 0 <= j < a.len() implies a[j] == b[j] by {
        let ha = hex_bytes(a);
        let hb = hex_bytes(b);
        assert(ha[2 * j] == hb[2 * j]);
        assert(ha[2 * j + 1] == hb[2 * j + 1]);
        assert((2 * j) / 2 == j && (2 * j) % 2 == 0);
        assert((2 * j + 1) / 2 == j && (2 * j + 1) % 2 == 1);
        let x = a[j] as int;
        let y = b[j] as int;
        assert(x / 16 == y / 16);
        assert(x % 16 == y % 16);
    }
    assert(a =~= b);
}

/// Decodes lowercase hexadecimal text.
pub fn hex_decode(b: &[u8]) -> (r: Option<Vec<u8>>)
    ensures
        r matches Some(d) ==> hex_bytes(d@) == b@,
        forall|d: Seq<u8>| hex_bytes(d) == b@ ==> (r matches Some(v) && v@ == d),
{
    if b.len() % 2 != 0 {
        proof {
            assert forall|d: Seq<u8>| hex_bytes(d) == b@ implies false by {
                assert(hex_bytes(d).len() == 2 * d.len());
            }
        }
        return None;
    }
    let len: usize = b.len();
    let n: usize = len / 2;
    let mut out: Vec<u8> = Vec::new();
    let mut i: usize = 0;
    while i < n
        invariant
            n * 2 == b@.len(),
            len == b@.len(),
            i <= n,
            out@.len() == i,
            hex_bytes(out@) == b@.subrange(0, 2 * i),
            forall|d: Seq<u8>| hex_bytes(d) == b@ ==> out@ == d.subrange(0, i as int),
        decreases n - i,
    {
        assert(2 * i + 1 < b@.len());
        let j: usize = i + i;
        let hi = hex_value(b[j]);
        let lo = hex_value(b[j + 1]);
        match (hi, lo) {
            (Some(h), Some(l)) => {
                let v: u8 = h * 16 + l;
                assert(v as int / 16 == h as int && v as int % 16 == l as int);
                proof {
                    assert forall|d: Seq<u8>| hex_bytes(d) == b@ implies out@.push(v) == d.subrange(0, i + 1) by {
                        let hd = hex_bytes(d);
                        assert(hd[2 * i] == b@[2 * i]);
                        assert(hd[2 * i + 1] == b@[2 * i + 1]);
                        assert((2 * i) / 2 == i as int && (2 * i) % 2 == 0);
                        assert((2 * i + 1) / 2 == i as int && (2 * i + 1) % 2 == 1);
                        let x = d[i as int] as int;
                        assert(x / 16 < 16 && x % 16 < 16);
                        assert(x == 16 * (x / 16) + x % 16);
                        assert(out@.push(v) =~= d.subrange(0, i + 1));
                    }
                }
                out.push(v);
                assert(hex_bytes(out@) =~= b@.subrange(0, 2 * i + 2));
                i = i + 1;
            },
            _ => {
                proof {
                    assert forall|d: Seq<u8>| hex_bytes(d) == b@ implies false by {
                        let hd = hex_bytes(d);
                        assert(hd[2 * i] == b@[2 * i]);
                        assert(hd[2 * i + 1] == b@[2 * i + 1]);
                        assert((2 * i) / 2 == i as int && (2 * i) % 2 == 0);
                        assert((2 * i + 1) / 2 == i as int && (2 * i + 1) % 2 == 1);
                        let x = d[i as int] as int;
                        assert(x / 16 < 16 && x % 16 < 16);
                    }
                }
                return None;
            },
        }
    }
    assert(b@.subrange(0, 2 * n as int) =~= b@);
    proof {
        assert forall|d: Seq<u8>| hex_bytes(d) == b@ implies out@ == d by {
            assert(hex_bytes(d).len() == 2 * d.len());
            assert(d.subrange(0, n as int) =~= d);
        }
    }
    Some(out)
}

/// Appends the decimal text of `n` to `out`.
pub fn push_decimal(n: u32, out: &mut Vec<u8>)
    requires
        old(out)@.len() + 10 <= usize::MAX,
    ensures
        final(out)@ == old(out)@ + decimal_bytes(n as nat),
        final(out)@.len() <= old(out)@.len() + 10,
    decreases n,
{
    if n < 10 {
        out.push(48 + (n as u8));
        assert(out@ =~= old(out)@ + decimal_bytes(n as nat));
    } else {
        push_decimal(n / 10, out);
        out.push(48 + ((n % 10) as u8));
        assert(out@ =~= old(out)@ + decimal_bytes(n as nat));
    }
    proof {
        reveal_with_fuel(pow10, 11);
        lemma_decimal_len_bound(n as nat, 10);
    }
}

proof fn lemma_decimal_len_bound(n: nat, k: nat)
    requires
        k >= 1,
        n < pow10(k),
    ensures
        decimal_bytes(n).len() <= k,
    decreases k,
{
    if n >= 10 {
        assert(n / 10 < pow10((k - 1) as nat)) by (nonlinear_arith)
            requires n < pow10(k), pow10(k) == 10 * pow10((k - 1) as nat), k >= 1;
        if k == 1 {
            assert(pow10(1) == 10 * pow10(0));
        } else {
            lemma_decimal_len_bound(n / 10, (k - 1) as nat);
        }
    }
}

pub open spec fn pow10(k: nat) -> nat
    decreases k,
{
    if k == 0 { 1 } else { 10 * pow10((k - 1) as nat) }
}

} // verus!
