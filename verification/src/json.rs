//! JSON rendering over bytes.
//!
//! Outbound commands and request bodies are JSON objects built here as
//! byte strings, each rendered field pinned to an exact byte sequence.
//! Keys are emitted in ascending lexicographic order, the order the
//! venue's wire format uses. Escaping covers the quote, the backslash and
//! the control range; other bytes — including multi-byte UTF-8 — pass
//! through unchanged.

use vstd::prelude::*;
use vstd::string::StringSliceAdditionalSpecFns;
use crate::sign::spec_hex_digit;
use crate::textnum::spec_dec;
use crate::textnum::push_dec;

verus! {

/// How one byte of a string value is written inside quotes.
pub open spec fn spec_escape_byte(b: u8) -> Seq<u8> {
    if b == 0x22 {
        seq![0x5cu8, 0x22u8]
    } else if b == 0x5c {
        seq![0x5cu8, 0x5cu8]
    } else if b < 0x20 {
        seq![0x5cu8, 0x75u8, 0x30u8, 0x30u8, spec_hex_digit(b / 16), spec_hex_digit(b % 16)]
    } else {
        seq![b]
    }
}

/// A byte string with every byte escaped, in order.
pub open spec fn spec_escape(s: Seq<u8>) -> Seq<u8>
    decreases s.len(),
{
    if s.len() == 0 {
        Seq::empty()
    } else {
        spec_escape(s.drop_last()) + spec_escape_byte(s.last())
    }
}

/// A JSON string literal: the escaped bytes in double quotes.
pub open spec fn spec_json_string(s: Seq<u8>) -> Seq<u8> {
    seq![0x22u8] + spec_escape(s) + seq![0x22u8]
}

/// A JSON boolean literal.
pub open spec fn spec_json_bool(b: bool) -> Seq<u8> {
    if b {
        seq![0x74u8, 0x72u8, 0x75u8, 0x65u8]
    } else {
        seq![0x66u8, 0x61u8, 0x6cu8, 0x73u8, 0x65u8]
    }
}

/// Rendered values joined by commas.
pub open spec fn spec_join(items: Seq<Seq<u8>>) -> Seq<u8>
    decreases items.len(),
{
    if items.len() == 0 {
        Seq::empty()
    } else if items.len() == 1 {
        items[0]
    } else {
        spec_join(items.drop_last()) + seq![0x2cu8] + items.last()
    }
}

/// A JSON object from its rendered fields.
pub open spec fn spec_json_obj(fields: Seq<Seq<u8>>) -> Seq<u8> {
    seq![0x7bu8] + spec_join(fields) + seq![0x7du8]
}

/// A JSON array from its rendered elements.
pub open spec fn spec_json_arr(items: Seq<Seq<u8>>) -> Seq<u8> {
    seq![0x5bu8] + spec_join(items) + seq![0x5du8]
}

/// One rendered object field: the quoted key, a colon, the rendered value.
pub open spec fn spec_field(key: &str, val: Seq<u8>) -> Seq<u8> {
    spec_json_string(key.spec_bytes()) + seq![0x3au8] + val
}

/// Append the escaped form of `s`.
pub fn escape_into(out: &mut Vec<u8>, s: &[u8])
    ensures
        final(out)@ == old(out)@ + spec_escape(s@),
{
    let mut i: usize = 0;
    proof {
        assert(old(out)@ + spec_escape(s@.take(0)) == old(out)@);
    }
    while i < s.len()
        invariant
            0 <= i <= s@.len(),
            out@ == old(out)@ + spec_escape(s@.take(i as int)),
        decreases s@.len() - i,
    {
        let b = s[i];
        if b == 0x22 {
            out.push(0x5c);
            out.push(0x22);
        } else if b == 0x5c {
            out.push(0x5c);
            out.push(0x5c);
        } else if b < 0x20 {
            out.push(0x5c);
            out.push(0x75);
            out.push(0x30);
            out.push(0x30);
            let hi = b / 16;
            let lo = b % 16;
            out.push(if hi < 10 {
                0x30 + hi
            } else {
                0x57 + hi
            });
            out.push(if lo < 10 {
                0x30 + lo
            } else {
                0x57 + lo
            });
        } else {
            out.push(b);
        }
        proof {
            let t = s@.take(i + 1);
            assert(t.drop_last() == s@.take(i as int));
            assert(t.last() == s@[i as int]);
        }
        i = i + 1;
    }
    proof {
        assert(s@.take(i as int) == s@);
    }
}

/// Append `s` as a quoted, escaped JSON string.
pub fn push_json_string(out: &mut Vec<u8>, s: &[u8])
    ensures
        final(out)@ == old(out)@ + spec_json_string(s@),
{
    out.push(0x22);
    escape_into(out, s);
    out.push(0x22);
}

/// Render a string value.
pub fn val_str(s: &[u8]) -> (r: Vec<u8>)
    ensures
        r@ == spec_json_string(s@),
{
    let mut out: Vec<u8> = Vec::new();
    push_json_string(&mut out, s);
    out
}

/// Render an unsigned number value.
pub fn val_u64(n: u64) -> (r: Vec<u8>)
    ensures
        r@ == spec_dec(n as nat),
{
    let mut out: Vec<u8> = Vec::new();
    push_dec(n, &mut out);
    out
}

/// Render a boolean value.
pub fn val_bool(b: bool) -> (r: Vec<u8>)
    ensures
        r@ == spec_json_bool(b),
{
    if b {
        vec![0x74u8, 0x72u8, 0x75u8, 0x65u8]
    } else {
        vec![0x66u8, 0x61u8, 0x6cu8, 0x73u8, 0x65u8]
    }
}

/// Append the rendered items joined by commas.
fn join_into(out: &mut Vec<u8>, items: &Vec<Vec<u8>>)
    ensures
        final(out)@ == old(out)@ + spec_join(items.deep_view()),
{
    let mut i: usize = 0;
    while i < items.len()
        invariant
            0 <= i <= items@.len(),
            out@ == old(out)@ + spec_join(items.deep_view().take(i as int)),
        decreases items@.len() - i,
    {
        if i > 0 {
            out.push(0x2c);
        }
        let item = &items[i];
        let mut j: usize = 0;
        while j < item.len()
            invariant
                0 <= j <= item@.len(),
                i < items@.len(),
                item == items@[i as int],
                out@ == old(out)@ + spec_join(items.deep_view().take(i as int)) + (if i > 0 {
                    seq![0x2cu8]
                } else {
                    Seq::<u8>::empty()
                }) + item@.take(j as int),
            decreases item@.len() - j,
        {
            out.push(item[j]);
            proof {
                assert(item@.take(j + 1) == item@.take(j as int).push(item@[j as int]));
            }
            j = j + 1;
        }
        proof {
            let dv = items.deep_view();
            let t = dv.take(i + 1);
            assert(t.drop_last() == dv.take(i as int));
            assert(t.last() == dv[i as int]);
            assert(dv[i as int] == item@);
            assert(item@.take(item@.len() as int) == item@);
            if i == 0 {
                assert(spec_join(t) == t[0]);
                assert(t[0] == item@);
            }
        }
        i = i + 1;
    }
    proof {
        assert(items.deep_view().take(i as int) == items.deep_view());
    }
}

/// A nested vector's deep view, element by element: each element's deep
/// view is its view.
pub proof fn lemma_vecvec_deep_view(v: &Vec<Vec<u8>>)
    ensures
        v.deep_view().len() == v@.len(),
        forall|m: int| 0 <= m < v@.len() ==> v.deep_view()[m] =~= v@[m]@,
{
    assert forall|m: int| 0 <= m < v@.len() implies v.deep_view()[m] =~= v@[m]@ by {}
}

/// Render a JSON object from its rendered fields, in the given order.
pub fn obj(fields: &Vec<Vec<u8>>) -> (r: Vec<u8>)
    ensures
        r@ == spec_json_obj(fields.deep_view()),
{
    let mut out: Vec<u8> = Vec::new();
    out.push(0x7b);
    join_into(&mut out, fields);
    out.push(0x7d);
    out
}

/// Render a JSON array from its rendered elements, in the given order.
pub fn arr(items: &Vec<Vec<u8>>) -> (r: Vec<u8>)
    ensures
        r@ == spec_json_arr(items.deep_view()),
{
    let mut out: Vec<u8> = Vec::new();
    out.push(0x5b);
    join_into(&mut out, items);
    out.push(0x5d);
    out
}

/// Render one object field from its key and rendered value.
pub fn field(key: &str, val: &[u8]) -> (r: Vec<u8>)
    ensures
        r@ == spec_field(key, val@),
{
    let mut out: Vec<u8> = Vec::new();
    push_json_string(&mut out, key.as_bytes());
    out.push(0x3a);
    let mut i: usize = 0;
    while i < val.len()
        invariant
            0 <= i <= val@.len(),
            out@ == spec_json_string(key.spec_bytes()) + seq![0x3au8] + val@.take(i as int),
        decreases val@.len() - i,
    {
        out.push(val[i]);
        proof {
            assert(val@.take(i + 1) == val@.take(i as int).push(val@[i as int]));
        }
        i = i + 1;
    }
    proof {
        assert(val@.take(i as int) == val@);
    }
    out
}

} // verus!
