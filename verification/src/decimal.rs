//! Fixed-width decimal rendering and parsing of the integer fields of
//! the on-disk config document.
//!
//! Every unsigned field is written as exactly ten ASCII digits (most
//! significant first, zero-padded); every signed field as a sign byte
//! (`+` or `-`) followed by ten digits of the magnitude.  Fixed width
//! keeps the document trivially human-readable while making every field
//! of the document sit at a fixed offset.

use vstd::arithmetic::div_mod::{
    lemma_basic_div, lemma_div_denominator, lemma_fundamental_div_mod,
    lemma_fundamental_div_mod_converse,
};
use vstd::prelude::*;

verus! {

/// Ten to the power `e`.
pub open spec fn pow10(e: nat) -> nat
    decreases e,
{
    if e == 0 {
        1
    } else {
        10 * pow10((e - 1) as nat)
    }
}

/// The byte is an ASCII decimal digit.
pub open spec fn is_digit(b: u8) -> bool {
    0x30 <= b <= 0x39
}

/// Numeric value of an ASCII digit byte.
pub open spec fn digit_val(b: u8) -> nat {
    (b - 0x30) as nat
}

/// `n` written as exactly ten ASCII digits, most significant first,
/// zero-padded on the left.
pub open spec fn dec10(n: nat) -> Seq<u8> {
    Seq::new(10, |k: int| (0x30 + (n / pow10((9 - k) as nat)) % 10) as u8)
}

/// `v` written as a sign byte (`+` for zero or positive, `-` for
/// negative) followed by the ten digits of its magnitude.
pub open spec fn sig10(v: int) -> Seq<u8> {
    if v < 0 {
        seq![0x2Du8] + dec10((-v) as nat)
    } else {
        seq![0x2Bu8] + dec10(v as nat)
    }
}

/// Value of the `k` digit bytes of `s` starting at `at`, most
/// significant first.
pub open spec fn dec_val(s: Seq<u8>, at: int, k: nat) -> nat
    decreases k,
{
    if k == 0 {
        0
    } else {
        dec_val(s, at, (k - 1) as nat) * 10 + digit_val(s[at + k - 1])
    }
}

pub proof fn lemma_pow10_pos(e: nat)
    ensures
        pow10(e) >= 1,
    decreases e,
{
    if e > 0 {
        lemma_pow10_pos((e - 1) as nat);
    }
}

pub proof fn lemma_pow10_le(a: nat, b: nat)
    requires
        a <= b,
    ensures
        pow10(a) <= pow10(b),
    decreases b,
{
    if a < b {
        lemma_pow10_le(a, (b - 1) as nat);
        lemma_pow10_pos((b - 1) as nat);
    }
}

pub proof fn lemma_pow10_10()
    ensures
        pow10(10) == 10_000_000_000,
{
    assert(pow10(0) == 1);
    assert(pow10(1) == 10);
    assert(pow10(2) == 100);
    assert(pow10(3) == 1000);
    assert(pow10(4) == 10000);
    assert(pow10(5) == 100000);
    assert(pow10(6) == 1000000);
    assert(pow10(7) == 10000000);
    assert(pow10(8) == 100000000);
    assert(pow10(9) == 1000000000);
}

/// Every byte of a fixed-width decimal rendering is a digit.
pub proof fn lemma_dec10_digits(n: nat)
    ensures
        forall|k: int| 0 <= k < 10 ==> is_digit(#[trigger] dec10(n)[k]),
{
    assert forall|k: int| 0 <= k < 10 implies is_digit(#[trigger] dec10(n)[k]) by {
        vstd::arithmetic::div_mod::lemma_mod_bound((n / pow10((9 - k) as nat)) as int, 10);
    }
}

/// Reading back a prefix of the digits of `dec10(n)` recovers the
/// corresponding leading quotient of `n`.
pub proof fn lemma_dec10_val_prefix(n: nat, k: nat)
    requires
        n < pow10(10),
        k <= 10,
    ensures
        dec_val(dec10(n), 0, k) == n / pow10((10 - k) as nat),
    decreases k,
{
    if k == 0 {
        lemma_basic_div(n as int, pow10(10) as int);
    } else {
        lemma_dec10_val_prefix(n, (k - 1) as nat);
        let e = (10 - k) as nat;
        lemma_pow10_pos(e);
        let q = n / pow10(e);
        assert(pow10((e + 1) as nat) == 10 * pow10(e));
        lemma_div_denominator(n as int, pow10(e) as int, 10);
        assert(n / pow10((11 - k) as nat) == q / 10);
        lemma_fundamental_div_mod(q as int, 10);
        assert(dec10(n)[k - 1] == (0x30 + (n / pow10((9 - (k - 1)) as nat)) % 10) as u8);
        vstd::arithmetic::div_mod::lemma_mod_bound(q as int, 10);
        assert(digit_val(dec10(n)[k - 1]) == q % 10);
    }
}

/// Reading back all ten digits of `dec10(n)` recovers `n`.
pub proof fn lemma_dec10_val(n: nat)
    requires
        n < pow10(10),
    ensures
        dec_val(dec10(n), 0, 10) == n,
{
    lemma_dec10_val_prefix(n, 10);
    assert(pow10(0) == 1);
    lemma_fundamental_div_mod(n as int, 1);
}

/// The fixed-width rendering is injective below `pow10(10)`.
pub proof fn lemma_dec10_injective(n1: nat, n2: nat)
    requires
        n1 < pow10(10),
        n2 < pow10(10),
        dec10(n1) == dec10(n2),
    ensures
        n1 == n2,
{
    lemma_dec10_val(n1);
    lemma_dec10_val(n2);
}

/// The signed rendering is injective over `i32` values.
pub proof fn lemma_sig10_injective(v1: int, v2: int)
    requires
        -0x8000_0000 <= v1 < 0x8000_0000,
        -0x8000_0000 <= v2 < 0x8000_0000,
        sig10(v1) == sig10(v2),
    ensures
        v1 == v2,
{
    lemma_pow10_10();
    assert(sig10(v1)[0] == sig10(v2)[0]);
    if v1 < 0 && v2 >= 0 {
        assert(sig10(v1)[0] == 0x2Du8);
        assert(sig10(v2)[0] == 0x2Bu8);
        assert(false);
    }
    if v1 >= 0 && v2 < 0 {
        assert(sig10(v1)[0] == 0x2Bu8);
        assert(sig10(v2)[0] == 0x2Du8);
        assert(false);
    }
    let m1: nat = if v1 < 0 { (-v1) as nat } else { v1 as nat };
    let m2: nat = if v2 < 0 { (-v2) as nat } else { v2 as nat };
    assert(dec10(m1) =~= dec10(m2)) by {
        assert forall|k: int| 0 <= k < 10 implies dec10(m1)[k] == dec10(m2)[k] by {
            assert(sig10(v1)[1 + k] == dec10(m1)[k]);
            assert(sig10(v2)[1 + k] == dec10(m2)[k]);
            assert(sig10(v1)[1 + k] == sig10(v2)[1 + k]);
        }
    }
    lemma_dec10_injective(m1, m2);
}

/// The value of `k` digit bytes is below `pow10(k)`.
pub proof fn lemma_dec_val_bound(s: Seq<u8>, at: int, k: nat)
    requires
        forall|j: int| 0 <= j < k ==> is_digit(#[trigger] s[at + j]),
    ensures
        dec_val(s, at, k) < pow10(k),
    decreases k,
{
    if k > 0 {
        lemma_dec_val_bound(s, at, (k - 1) as nat);
    }
}

/// Ten digit bytes are exactly the fixed-width rendering of their value.
pub proof fn lemma_digits_are_dec10(s: Seq<u8>, at: int)
    requires
        0 <= at,
        at + 10 <= s.len(),
        forall|j: int| 0 <= j < 10 ==> is_digit(#[trigger] s[at + j]),
    ensures
        s.subrange(at, at + 10) =~= dec10(dec_val(s, at, 10)),
        dec_val(s, at, 10) < pow10(10),
{
    let v = dec_val(s, at, 10);
    lemma_dec_val_bound(s, at, 10);
    assert forall|j: int| 0 <= j < 10 implies s.subrange(at, at + 10)[j] == dec10(v)[j] by {
        lemma_dec_val_split(s, at, 10, (j + 1) as nat);
        lemma_dec_val_split(s, at, 10, j as nat);
        let vj = dec_val(s, at, j as nat);
        let vj1 = dec_val(s, at, (j + 1) as nat);
        assert(vj1 == vj * 10 + digit_val(s[at + j]));
        lemma_fundamental_div_mod_converse(vj1 as int, 10, vj as int, digit_val(s[at + j]) as int);
        assert(v / pow10((9 - j) as nat) == vj1);
        assert(vj1 % 10 == digit_val(s[at + j]));
        assert(dec10(v)[j] == (0x30 + (v / pow10((9 - j) as nat)) % 10) as u8);
    }
}

/// Dividing the value of `k` digits by `pow10(k - j)` leaves the value
/// of the first `j` digits.
pub proof fn lemma_dec_val_split(s: Seq<u8>, at: int, k: nat, j: nat)
    requires
        j <= k,
        forall|i: int| 0 <= i < k ==> is_digit(#[trigger] s[at + i]),
    ensures
        dec_val(s, at, k) / pow10((k - j) as nat) == dec_val(s, at, j),
    decreases k,
{
    if k == j {
        assert(pow10(0) == 1);
        let v = dec_val(s, at, k);
        lemma_fundamental_div_mod(v as int, 1);
        vstd::arithmetic::div_mod::lemma_mod_bound(v as int, 1);
        assert(v / 1 == v);
    } else {
        lemma_dec_val_split(s, at, (k - 1) as nat, j);
        let prev = dec_val(s, at, (k - 1) as nat);
        let d = digit_val(s[at + k - 1]);
        let v = dec_val(s, at, k);
        assert(v == prev * 10 + d);
        assert(d < 10);
        lemma_fundamental_div_mod_converse(v as int, 10, prev as int, d as int);
        assert(v / 10 == prev);
        let e = (k - 1 - j) as nat;
        lemma_pow10_pos(e);
        lemma_div_denominator(v as int, 10, pow10(e) as int);
        assert(pow10((k - j) as nat) == 10 * pow10(e));
        assert(v / pow10((k - j) as nat) == (v / 10) / pow10(e));
    }
}

/// Ten to the power `e`, as a machine integer.
pub fn pow10_u64(e: usize) -> (r: u64)
    requires
        e <= 10,
    ensures
        r == pow10(e as nat),
{
    let mut p: u64 = 1;
    let mut i: usize = 0;
    while i < e
        invariant
            i <= e <= 10,
            p == pow10(i as nat),
        decreases e - i,
    {
        proof {
            lemma_pow10_le((i + 1) as nat, 10);
            lemma_pow10_10();
        }
        p = p * 10;
        i = i + 1;
    }
    p
}

/// Render `n` as exactly ten ASCII digits, zero-padded.
pub fn fmt_u32(n: u32) -> (r: Vec<u8>)
    ensures
        r@ == dec10(n as nat),
{
    let mut out: Vec<u8> = Vec::new();
    let mut k: usize = 0;
    while k < 10
        invariant
            k <= 10,
            out@.len() == k as int,
            forall|j: int| 0 <= j < k ==> out@[j] == dec10(n as nat)[j],
        decreases 10 - k,
    {
        let p = pow10_u64(9 - k);
        proof {
            lemma_pow10_pos((9 - k) as nat);
        }
        let d = ((n as u64) / p) % 10;
        out.push((0x30 + d) as u8);
        k = k + 1;
    }
    proof {
        assert(out@ =~= dec10(n as nat));
    }
    out
}

/// Render `v` as a sign byte followed by the ten digits of its
/// magnitude.
pub fn fmt_i32(v: i32) -> (r: Vec<u8>)
    ensures
        r@ == sig10(v as int),
{
    let mut out: Vec<u8> = Vec::new();
    if v < 0 {
        out.push(0x2D);
        let mag = (-(v as i64)) as u32;
        let mut digits = fmt_u32(mag);
        out.append(&mut digits);
        proof {
            assert(out@ =~= sig10(v as int));
        }
    } else {
        out.push(0x2B);
        let mut digits = fmt_u32(v as u32);
        out.append(&mut digits);
        proof {
            assert(out@ =~= sig10(v as int));
        }
    }
    out
}

/// Read ten digit bytes of `s` at `at`; `None` exactly when one of them
/// is not a digit.
pub fn read_dec10(s: &[u8], at: usize) -> (r: Option<u64>)
    requires
        at + 10 <= s@.len(),
    ensures
        match r {
            Some(v) => (forall|k: int| 0 <= k < 10 ==> is_digit(#[trigger] s@[at + k])) && v
                == dec_val(s@, at as int, 10) && v < pow10(10),
            None => !(forall|k: int| 0 <= k < 10 ==> is_digit(#[trigger] s@[at + k])),
        },
{
    let slen: usize = s.len();
    let mut v: u64 = 0;
    let mut k: usize = 0;
    while k < 10
        invariant
            at + 10 <= slen == s@.len(),
            k <= 10,
            forall|j: int| 0 <= j < k ==> is_digit(#[trigger] s@[at + j]),
            v == dec_val(s@, at as int, k as nat),
            v < pow10(k as nat),
        decreases 10 - k,
    {
        let b = s[at + k];
        if !(0x30 <= b && b <= 0x39) {
            return None;
        }
        proof {
            lemma_pow10_le((k + 1) as nat, 10);
            lemma_pow10_10();
        }
        v = v * 10 + ((b - 0x30) as u64);
        k = k + 1;
    }
    Some(v)
}

/// Parse the fixed-width unsigned field at `at`: `Some(v)` exactly when
/// the ten bytes there are `dec10(v)` for a `u32` value `v`.
pub fn parse_u32_at(s: &[u8], at: usize) -> (r: Option<u32>)
    requires
        at + 10 <= s@.len(),
    ensures
        match r {
            Some(v) => s@.subrange(at as int, at + 10) == dec10(v as nat),
            None => forall|v: u32| s@.subrange(at as int, at + 10) != dec10(v as nat),
        },
{
    proof {
        lemma_pow10_10();
    }
    let sub = Ghost(s@.subrange(at as int, at + 10));
    proof {
        assert forall|j: int| 0 <= j < 10 implies sub@[j] == s@[at + j] by {}
    }
    match read_dec10(s, at) {
        None => {
            proof {
                assert forall|v: u32| sub@ != dec10(v as nat) by {
                    lemma_dec10_digits(v as nat);
                    let k = choose|k: int| 0 <= k < 10 && !#[trigger] is_digit(s@[at + k]);
                    assert(is_digit(dec10(v as nat)[k]));
                }
            }
            None
        },
        Some(v) => {
            proof {
                lemma_digits_are_dec10(s@, at as int);
            }
            if v <= 0xFFFF_FFFF {
                Some(v as u32)
            } else {
                proof {
                    assert forall|w: u32| sub@ != dec10(w as nat) by {
                        if sub@ == dec10(w as nat) {
                            lemma_dec10_injective(v as nat, w as nat);
                        }
                    }
                }
                None
            }
        },
    }
}

/// Parse the signed field at `at`: `Some(v)` exactly when the eleven
/// bytes there are `sig10(v)` for an `i32` value `v`.
pub fn parse_i32_at(s: &[u8], at: usize) -> (r: Option<i32>)
    requires
        at + 11 <= s@.len(),
    ensures
        match r {
            Some(v) => s@.subrange(at as int, at + 11) == sig10(v as int),
            None => forall|v: i32| s@.subrange(at as int, at + 11) != sig10(v as int),
        },
{
    proof {
        lemma_pow10_10();
    }
    let sub = Ghost(s@.subrange(at as int, at + 11));
    proof {
        assert forall|j: int| 0 <= j < 11 implies sub@[j] == s@[at + j] by {}
        assert forall|v: i32| sub@ == sig10(v as int) && v as int >= 0 implies (sub@[0]
            == 0x2Bu8 && sub@.subrange(1, 11) == dec10(v as nat)) by {
            assert(sub@.subrange(1, 11) =~= dec10(v as nat));
        }
        assert forall|v: i32| sub@ == sig10(v as int) && (v as int) < 0 implies (sub@[0] == 0x2Du8
            && sub@.subrange(1, 11) == dec10((-(v as int)) as nat)) by {
            assert(sub@.subrange(1, 11) =~= dec10((-(v as int)) as nat));
        }
        assert(sub@.subrange(1, 11) =~= s@.subrange(at + 1, at + 11));
    }
    let sign = s[at];
    if sign != 0x2B && sign != 0x2D {
        return None;
    }
    match read_dec10(s, at + 1) {
        None => {
            proof {
                assert forall|v: i32| sub@ != sig10(v as int) by {
                    let m: nat = if v < 0 {
                        (-(v as int)) as nat
                    } else {
                        v as nat
                    };
                    lemma_dec10_digits(m);
                    let k = choose|k: int| 0 <= k < 10 && !#[trigger] is_digit(s@[at + 1 + k]);
                    if sub@ == sig10(v as int) {
                        assert(sub@[1 + k] == dec10(m)[k]);
                        assert(is_digit(dec10(m)[k]));
                    }
                }
            }
            None
        },
        Some(mag) => {
            proof {
                lemma_digits_are_dec10(s@, at + 1);
                assert(s@.subrange(at + 1, at + 11) == dec10(mag as nat));
                assert forall|v: i32| sub@ == sig10(v as int) implies ({
                    let m: nat = if v < 0 {
                        (-(v as int)) as nat
                    } else {
                        v as nat
                    };
                    mag == m && (v < 0 <==> sign == 0x2D)
                }) by {
                    let m: nat = if v < 0 {
                        (-(v as int)) as nat
                    } else {
                        v as nat
                    };
                    assert(sub@.subrange(1, 11) == dec10(m));
                    lemma_dec10_injective(mag as nat, m);
                }
            }
            if sign == 0x2D {
                if 1 <= mag && mag <= 0x8000_0000 {
                    let v = (-(mag as i64)) as i32;
                    proof {
                        assert(sub@ =~= sig10(v as int));
                    }
                    Some(v)
                } else {
                    None
                }
            } else {
                if mag <= 0x7FFF_FFFF {
                    let v = mag as i32;
                    proof {
                        assert(sub@ =~= sig10(v as int));
                    }
                    Some(v)
                } else {
                    None
                }
            }
        },
    }
}

} // verus!
