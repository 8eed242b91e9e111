//! MegaNums: the base-36 numbers (digits `0`-`9`, `A`-`Z`) in which RIPscrip
//! writes the numeric parameters of its commands, each with a fixed width.
use vstd::prelude::*;

verus! {

/// The digit that stands for the value `d` (`0 <= d < 36`).
pub open spec fn digit_char(d: nat) -> u8 {
    if d < 10 {
        (48 + d) as u8
    } else {
        (55 + d) as u8
    }
}

/// Whether `b` is one of the 36 MegaNum digits.
pub open spec fn is_digit(b: u8) -> bool {
    (48 <= b && b <= 57) || (65 <= b && b <= 90)
}

/// The value of the digit `b` (0 for a byte that is no digit).
pub open spec fn digit_value(b: u8) -> nat {
    if 48 <= b && b <= 57 {
        (b - 48) as nat
    } else if 65 <= b && b <= 90 {
        (b - 55) as nat
    } else {
        0
    }
}

/// Whether every byte of `s` is a MegaNum digit.
pub open spec fn all_digits(s: Seq<u8>) -> bool {
    forall|i: int| 0 <= i < s.len() ==> is_digit(#[trigger] s[i])
}

/// 36 to the power `w`: the number of values that `w` digits can write.
pub open spec fn pow36(w: nat) -> nat
    decreases w,
{
    if w == 0 {
        1
    } else {
        36 * pow36((w - 1) as nat)
    }
}

/// The `w` digits that write `v`, most significant first.
pub open spec fn encode(v: nat, w: nat) -> Seq<u8>
    decreases w,
{
    if w == 0 {
        seq![]
    } else {
        encode(v / 36, (w - 1) as nat).push(digit_char(v % 36))
    }
}

/// The value that the digits `s` write, most significant first.
pub open spec fn decode(s: Seq<u8>) -> nat
    decreases s.len(),
{
    if s.len() == 0 {
        0
    } else {
        decode(s.drop_last()) * 36 + digit_value(s.last())
    }
}

pub proof fn lemma_pow36_positive(w: nat)
    ensures
        pow36(w) >= 1,
    decreases w,
{
    if w > 0 {
        lemma_pow36_positive((w - 1) as nat);
    }
}

pub proof fn lemma_pow36_monotone(a: nat, b: nat)
    requires
        a <= b,
    ensures
        pow36(a) <= pow36(b),
    decreases b,
{
    if a < b {
        lemma_pow36_monotone(a, (b - 1) as nat);
        lemma_pow36_positive((b - 1) as nat);
    }
}

/// Eight digits, the widest parameter, still fit a `u64`.
pub proof fn lemma_pow36_bound(w: nat)
    requires
        w <= 8,
    ensures
        pow36(w) <= 2821109907456,
{
    lemma_pow36_monotone(w, 8);
    assert(pow36(0) == 1);
    assert(pow36(1) == 36);
    assert(pow36(2) == 1296);
    assert(pow36(3) == 46656);
    assert(pow36(4) == 1679616);
    assert(pow36(5) == 60466176);
    assert(pow36(6) == 2176782336);
    assert(pow36(7) == 78364164096);
    assert(pow36(8) == 2821109907456);
}

pub proof fn lemma_digit_char_value(d: nat)
    requires
        d < 36,
    ensures
        is_digit(digit_char(d)),
        digit_value(digit_char(d)) == d,
{
}

pub proof fn lemma_digit_value_char(b: u8)
    requires
        is_digit(b),
    ensures
        digit_value(b) < 36,
        digit_char(digit_value(b)) == b,
{
}

pub proof fn lemma_encode_len(v: nat, w: nat)
    ensures
        encode(v, w).len() == w,
        all_digits(encode(v, w)),
    decreases w,
{
    if w > 0 {
        lemma_encode_len(v / 36, (w - 1) as nat);
        lemma_digit_char_value(v % 36);
        let e = encode(v, w);
        assert forall|i: int| 0 <= i < e.len() implies is_digit(#[trigger] e[i]) by {
            if i < w - 1 {
                assert(e[i] == encode(v / 36, (w - 1) as nat)[i]);
            }
        }
    }
}

/// Reading back the digits that write `v` gives `v`.
pub proof fn lemma_decode_encode(v: nat, w: nat)
    requires
        v < pow36(w),
    ensures
        decode(encode(v, w)) == v,
    decreases w,
{
    if w > 0 {
        let p = pow36((w - 1) as nat);
        assert(v / 36 < p) by (nonlinear_arith)
            requires
                v < 36 * p,
        ;
        lemma_decode_encode(v / 36, (w - 1) as nat);
        lemma_digit_char_value(v % 36);
        let e = encode(v, w);
        assert(e.drop_last() =~= encode(v / 36, (w - 1) as nat));
        assert(v == (v / 36) * 36 + v % 36) by (nonlinear_arith);
    }
}

/// Digits written back from their value are the same digits.
pub proof fn lemma_encode_decode(s: Seq<u8>)
    requires
        all_digits(s),
    ensures
        decode(s) < pow36(s.len()),
        encode(decode(s), s.len()) == s,
    decreases s.len(),
{
    if s.len() > 0 {
        let init = s.drop_last();
        assert(all_digits(init)) by {
            assert forall|i: int| 0 <= i < init.len() implies is_digit(#[trigger] init[i]) by {
                assert(init[i] == s[i]);
            }
        }
        lemma_encode_decode(init);
        assert(is_digit(s[s.len() - 1]));
        lemma_digit_value_char(s.last());
        let q = decode(init);
        let r = digit_value(s.last());
        let p = pow36(init.len());
        assert(q * 36 + r < 36 * p) by (nonlinear_arith)
            requires
                q < p,
                r < 36,
        ;
        vstd::arithmetic::div_mod::lemma_fundamental_div_mod_converse((q * 36 + r) as int, 36, q as int, r as int);
        assert(encode(decode(s), s.len()) =~= init.push(s.last()));
    }
}

/// Whether `s[start..start + w]` are all digits, and their value.
pub fn decode_digits(s: &[u8], start: usize, w: usize) -> (r: Option<u64>)
    requires
        start + w <= s@.len(),
        w <= 8,
    ensures
        all_digits(s@.subrange(start as int, start + w)) <==> r is Some,
        r matches Some(v) ==> v == decode(s@.subrange(start as int, start + w)),
{
    let mut acc: u64 = 0;
    let mut i: usize = 0;
    let n: usize = s.len();
    while i < w
        invariant
            start + w <= s@.len(),
            n == s@.len(),
            w <= 8,
            i <= w,
            all_digits(s@.subrange(start as int, start + i)),
            acc == decode(s@.subrange(start as int, start + i)),
        decreases w - i,
    {
        let b = s[start + i];
        let d: u64 = if 48 <= b && b <= 57 {
            (b - 48) as u64
        } else if 65 <= b && b <= 90 {
            (b - 55) as u64
        } else {
            proof {
                assert(!is_digit(s@.subrange(start as int, start + w)[i as int]));
            }
            return None;
        };
        let ghost prev = s@.subrange(start as int, start + i);
        let ghost next = s@.subrange(start as int, start + i + 1);
        proof {
            assert(next.drop_last() =~= prev);
            assert(next.last() == b);
            lemma_encode_decode(prev);
            lemma_pow36_bound((i + 1) as nat);
            lemma_pow36_monotone(prev.len(), 7);
            assert(acc * 36 + d < 2821109907456) by (nonlinear_arith)
                requires
                    acc < pow36(prev.len()),
                    pow36(prev.len()) <= 78364164096,
                    d < 36,
            ;
            assert forall|k: int| 0 <= k < next.len() implies is_digit(#[trigger] next[k]) by {
                if k < prev.len() {
                    assert(next[k] == prev[k]);
                }
            }
        }
        acc = acc * 36 + d;
        i = i + 1;
    }
    Some(acc)
}

/// Appends the `w` digits that write `v`.
pub fn push_encoded(out: &mut Vec<u8>, v: u64, w: usize)
    requires
        v < pow36(w as nat),
    ensures
        final(out)@ == old(out)@ + encode(v as nat, w as nat),
    decreases w,
{
    if w > 0 {
        proof {
            let p = pow36((w - 1) as nat);
            assert(v / 36 < p) by (nonlinear_arith)
                requires
                    v < 36 * p,
            ;
        }
        push_encoded(out, v / 36, w - 1);
        let d = v % 36;
        let c: u8 = if d < 10 {
            (48 + d) as u8
        } else {
            (55 + d) as u8
        };
        out.push(c);
        proof {
            assert(out@ =~= old(out)@ + encode(v as nat, w as nat));
        }
    } else {
        proof {
            assert(out@ =~= old(out)@ + encode(v as nat, w as nat));
        }
    }
}

} // verus!
