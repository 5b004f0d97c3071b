//! Decimal text: formatting unsigned integers and parsing them back.
//!
//! Timestamps, order ids and position ids cross the wire as decimal text —
//! in signed headers, in JSON bodies, and in the venue's replies. Both
//! directions are defined against one pair of spec functions, so the
//! round trip is a theorem rather than a convention.

use vstd::prelude::*;

verus! {

/// The ASCII digits of `n`, most significant first, without leading zeros
/// (`0` is written as the single digit `0`).
pub open spec fn spec_dec(n: nat) -> Seq<u8>
    decreases n,
{
    if n < 10 {
        seq![(0x30 + n) as u8]
    } else {
        spec_dec(n / 10).push((0x30 + n % 10) as u8)
    }
}

/// Whether `s` is a non-empty run of ASCII digits.
pub open spec fn spec_is_digits(s: Seq<u8>) -> bool {
    &&& s.len() > 0
    &&& forall|i: int| 0 <= i < s.len() ==> 0x30 <= #[trigger] s[i] <= 0x39
}

/// The value of a run of ASCII digits, most significant first.
pub open spec fn spec_dec_val(s: Seq<u8>) -> nat
    decreases s.len(),
{
    if s.len() == 0 {
        0
    } else {
        (spec_dec_val(s.drop_last()) * 10 + (s.last() - 0x30)) as nat
    }
}

/// Append the decimal digits of `n` to `out`.
pub fn push_dec(n: u64, out: &mut Vec<u8>)
    ensures
        final(out)@ == old(out)@ + spec_dec(n as nat),
    decreases n,
{
    if n < 10 {
        out.push(0x30 + n as u8);
    } else {
        push_dec(n / 10, out);
        out.push(0x30 + (n % 10) as u8);
    }
}

/// The decimal digits of `n` as a fresh byte string.
pub fn u64_to_dec(n: u64) -> (r: Vec<u8>)
    ensures
        r@ == spec_dec(n as nat),
{
    let mut out: Vec<u8> = Vec::new();
    push_dec(n, &mut out);
    out
}

/// Law: formatting is parsed back to the number it came from.
pub proof fn lemma_dec_val_of_dec(n: nat)
    ensures
        spec_is_digits(spec_dec(n)),
        spec_dec_val(spec_dec(n)) == n,
    decreases n,
{
    if n >= 10 {
        lemma_dec_val_of_dec(n / 10);
        let s = spec_dec(n);
        assert(s.drop_last() == spec_dec(n / 10));
        assert(spec_dec_val(s) == (n / 10) * 10 + n % 10);
        assert((n / 10) * 10 + n % 10 == n) by (nonlinear_arith);
    } else {
        let s = spec_dec(n);
        assert(s.drop_last() =~= Seq::<u8>::empty());
        assert(spec_dec_val(s) == spec_dec_val(Seq::<u8>::empty()) * 10 + n);
    }
}

/// Appending a digit can only grow the value.
proof fn lemma_dec_val_step_monotone(s: Seq<u8>, i: int)
    requires
        0 <= i < s.len(),
        0x30 <= s[i] <= 0x39,
    ensures
        spec_dec_val(s.take(i)) <= spec_dec_val(s.take(i + 1)),
{
    let p = s.take(i);
    let q = s.take(i + 1);
    assert(q.drop_last() == p);
    assert(spec_dec_val(p) * 10 >= spec_dec_val(p)) by (nonlinear_arith);
}

/// The value of a prefix never exceeds the value of the whole run.
proof fn lemma_dec_val_prefix_le(s: Seq<u8>, i: int)
    requires
        0 <= i <= s.len(),
        forall|j: int| i <= j < s.len() ==> 0x30 <= #[trigger] s[j] <= 0x39,
    ensures
        spec_dec_val(s.take(i)) <= spec_dec_val(s),
    decreases s.len() - i,
{
    if i < s.len() {
        lemma_dec_val_step_monotone(s, i);
        lemma_dec_val_prefix_le(s, i + 1);
    } else {
        assert(s.take(i) == s);
    }
}

/// Parse a non-empty run of ASCII digits as a `u64`.
///
/// Returns the value exactly when `s` is all digits, non-empty, and the
/// value fits; anything else — empty input, a sign, a stray byte, overflow
/// — is `None`.
pub fn parse_u64(s: &[u8]) -> (r: Option<u64>)
    ensures
        r is Some <==> spec_is_digits(s@) && spec_dec_val(s@) <= u64::MAX,
        r is Some ==> r->0 == spec_dec_val(s@),
{
    if s.len() == 0 {
        return None;
    }
    let mut v: u64 = 0;
    let mut i: usize = 0;
    while i < s.len()
        invariant
            0 <= i <= s@.len(),
            forall|j: int| 0 <= j < i ==> 0x30 <= #[trigger] s@[j] <= 0x39,
            v == spec_dec_val(s@.take(i as int)),
        decreases s@.len() - i,
    {
        let b = s[i];
        if b < 0x30 || b > 0x39 {
            return None;
        }
        let d: u64 = (b - 0x30) as u64;
        if v > (u64::MAX - d) / 10 {
            proof {
                let t = s@.take(i + 1);
                assert(t.drop_last() == s@.take(i as int));
                assert(spec_dec_val(t) == v * 10 + d);
                assert(v * 10 + d > u64::MAX) by (nonlinear_arith)
                    requires
                        v > (u64::MAX - d) / 10,
                        0 <= d <= 9,
                ;
                if spec_is_digits(s@) {
                    lemma_dec_val_prefix_le(s@, i + 1);
                }
            }
            return None;
        }
        proof {
            let t = s@.take(i + 1);
            assert(t.drop_last() == s@.take(i as int));
            assert(v * 10 + d <= u64::MAX) by (nonlinear_arith)
                requires
                    v <= (u64::MAX - d) / 10,
                    0 <= d <= 9,
            ;
        }
        v = v * 10 + d;
        i = i + 1;
    }
    proof {
        assert(s@.take(i as int) == s@);
    }
    Some(v)
}

/// Parse a list of decimal byte strings; the first invalid entry refuses
/// the whole list.
pub fn parse_u64_list(items: &Vec<Vec<u8>>) -> (r: Option<Vec<u64>>)
    ensures
        r is Some <==> (forall|i: int|
            0 <= i < items@.len() ==> spec_is_digits((#[trigger] items@[i])@) && spec_dec_val(
                items@[i]@,
            ) <= u64::MAX),
        r matches Some(v) ==> v@.len() == items@.len() && (forall|i: int|
            0 <= i < items@.len() ==> v@[i] == spec_dec_val((#[trigger] items@[i])@)),
{
    let mut out: Vec<u64> = Vec::new();
    let mut i: usize = 0;
    while i < items.len()
        invariant
            0 <= i <= items@.len(),
            out@.len() == i,
            forall|j: int|
                0 <= j < i ==> spec_is_digits((#[trigger] items@[j])@) && spec_dec_val(
                    items@[j]@,
                ) <= u64::MAX,
            forall|j: int| 0 <= j < i ==> out@[j] == spec_dec_val((#[trigger] items@[j])@),
        decreases items@.len() - i,
    {
        match parse_u64(items[i].as_slice()) {
            Some(v) => {
                out.push(v);
            },
            None => {
                return None;
            },
        }
        i = i + 1;
    }
    Some(out)
}

} // verus!
