//! Wire primitives for the message codec.
//!
//! Every field is length- or count-prefixed with a little-endian integer, so
//! a message is a flat concatenation of self-delimiting fields. Each decoder
//! is specified against a spec-level parser over the remaining byte suffix,
//! and each `lemma_dec_enc_*` states that decoding undoes encoding.

use vstd::prelude::*;

verus! {

use vstd::bytes::lemma_auto_spec_u32_to_from_le_bytes;
use vstd::bytes::lemma_auto_spec_u64_to_from_le_bytes;
use vstd::bytes::spec_u32_from_le_bytes;
use vstd::bytes::spec_u32_to_le_bytes;
use vstd::bytes::spec_u64_from_le_bytes;
use vstd::bytes::spec_u64_to_le_bytes;
use vstd::bytes::u32_from_le_bytes;
use vstd::bytes::u32_to_le_bytes;
use vstd::bytes::u64_from_le_bytes;
use vstd::bytes::u64_to_le_bytes;
use vstd::slice::slice_subrange;
use vstd::slice::slice_to_vec;
use vstd::string::StrSliceExecFns;
use vstd::string::StringSliceAdditionalSpecFns;
use vstd::utf8::decode_utf8;
use vstd::utf8::encode_utf8;
use vstd::utf8::encode_utf8_decode_utf8;
use vstd::utf8::encode_utf8_valid_utf8;
use vstd::utf8::valid_utf8;
use crate::strutil::string_from_utf8;

// ---------------------------------------------------------------------------
// Unsigned integers
// ---------------------------------------------------------------------------
pub open spec fn enc_u64(x: u64) -> Seq<u8> {
    spec_u64_to_le_bytes(x)
}

pub open spec fn dec_u64(s: Seq<u8>) -> Option<(u64, Seq<u8>)> {
    if s.len() >= 8 {
        Some((spec_u64_from_le_bytes(s.take(8)), s.skip(8)))
    } else {
        None
    }
}

pub proof fn lemma_dec_enc_u64(x: u64, rest: Seq<u8>)
    ensures
        dec_u64(enc_u64(x) + rest) == Some((x, rest)),
{
    lemma_auto_spec_u64_to_from_le_bytes();
    let s = enc_u64(x) + rest;
    assert(s.take(8) =~= enc_u64(x));
    assert(s.skip(8) =~= rest);
}

pub fn append_u64(out: &mut Vec<u8>, x: u64)
    ensures
        final(out)@ == old(out)@ + enc_u64(x),
{
    let mut b = u64_to_le_bytes(x);
    out.append(&mut b);
}

/// Reads eight bytes starting at `i`; yields the value and the next offset.
pub fn read_u64(data: &Vec<u8>, i: usize) -> (r: Option<(u64, usize)>)
    requires
        i <= data@.len(),
    ensures
        match dec_u64(data@.skip(i as int)) {
            Some(p) => (r matches Some(q) && q.0 == p.0 && i < q.1 <= data@.len() && data@.skip(
                q.1 as int,
            ) == p.1),
            None => r is None,
        },
{
    if data.len() - i >= 8 {
        let s = slice_subrange(data.as_slice(), i, i + 8);
        let x = u64_from_le_bytes(s);
        proof {
            assert(data@.skip(i as int).take(8) =~= data@.subrange(i as int, i + 8));
            assert(data@.skip(i as int).skip(8) =~= data@.skip(i + 8));
        }
        Some((x, i + 8))
    } else {
        None
    }
}

// ---------------------------------------------------------------------------
// Signed integers, carried through their unsigned bit patterns
// ---------------------------------------------------------------------------
pub open spec fn enc_i64(x: i64) -> Seq<u8> {
    enc_u64(x as u64)
}

pub open spec fn dec_i64(s: Seq<u8>) -> Option<(i64, Seq<u8>)> {
    match dec_u64(s) {
        Some(p) => Some((p.0 as i64, p.1)),
        None => None,
    }
}

pub proof fn lemma_dec_enc_i64(x: i64, rest: Seq<u8>)
    ensures
        dec_i64(enc_i64(x) + rest) == Some((x, rest)),
{
    lemma_dec_enc_u64(x as u64, rest);
    assert(x as u64 as i64 == x) by (bit_vector);
}

pub fn append_i64(out: &mut Vec<u8>, x: i64)
    ensures
        final(out)@ == old(out)@ + enc_i64(x),
{
    append_u64(out, x as u64);
}

pub fn read_i64(data: &Vec<u8>, i: usize) -> (r: Option<(i64, usize)>)
    requires
        i <= data@.len(),
    ensures
        match dec_i64(data@.skip(i as int)) {
            Some(p) => (r matches Some(q) && q.0 == p.0 && i < q.1 <= data@.len() && data@.skip(
                q.1 as int,
            ) == p.1),
            None => r is None,
        },
{
    match read_u64(data, i) {
        Some((x, j)) => Some((x as i64, j)),
        None => None,
    }
}

pub open spec fn enc_i32(x: i32) -> Seq<u8> {
    spec_u32_to_le_bytes(x as u32)
}

pub open spec fn dec_i32(s: Seq<u8>) -> Option<(i32, Seq<u8>)> {
    if s.len() >= 4 {
        Some((spec_u32_from_le_bytes(s.take(4)) as i32, s.skip(4)))
    } else {
        None
    }
}

pub proof fn lemma_dec_enc_i32(x: i32, rest: Seq<u8>)
    ensures
        dec_i32(enc_i32(x) + rest) == Some((x, rest)),
{
    lemma_auto_spec_u32_to_from_le_bytes();
    let s = enc_i32(x) + rest;
    assert(s.take(4) =~= enc_i32(x));
    assert(s.skip(4) =~= rest);
    assert(x as u32 as i32 == x) by (bit_vector);
}

pub fn append_i32(out: &mut Vec<u8>, x: i32)
    ensures
        final(out)@ == old(out)@ + enc_i32(x),
{
    let mut b = u32_to_le_bytes(x as u32);
    out.append(&mut b);
}

pub fn read_i32(data: &Vec<u8>, i: usize) -> (r: Option<(i32, usize)>)
    requires
        i <= data@.len(),
    ensures
        match dec_i32(data@.skip(i as int)) {
            Some(p) => (r matches Some(q) && q.0 == p.0 && i < q.1 <= data@.len() && data@.skip(
                q.1 as int,
            ) == p.1),
            None => r is None,
        },
{
    if data.len() - i >= 4 {
        let s = slice_subrange(data.as_slice(), i, i + 4);
        let x = u32_from_le_bytes(s);
        proof {
            assert(data@.skip(i as int).take(4) =~= data@.subrange(i as int, i + 4));
            assert(data@.skip(i as int).skip(4) =~= data@.skip(i + 4));
        }
        Some((x as i32, i + 4))
    } else {
        None
    }
}

// ---------------------------------------------------------------------------
// Byte fields
// ---------------------------------------------------------------------------
pub open spec fn enc_bytes(b: Seq<u8>) -> Seq<u8> {
    enc_u64(b.len() as u64) + b
}

pub open spec fn dec_bytes(s: Seq<u8>) -> Option<(Seq<u8>, Seq<u8>)> {
    match dec_u64(s) {
        Some(p) => {
            let n = p.0 as int;
            if p.1.len() >= n {
                Some((p.1.take(n), p.1.skip(n)))
            } else {
                None
            }
        },
        None => None,
    }
}

pub proof fn lemma_dec_enc_bytes(b: Seq<u8>, rest: Seq<u8>)
    requires
        b.len() <= u64::MAX,
    ensures
        dec_bytes(enc_bytes(b) + rest) == Some((b, rest)),
{
    assert(enc_bytes(b) + rest =~= enc_u64(b.len() as u64) + (b + rest));
    lemma_dec_enc_u64(b.len() as u64, b + rest);
    assert((b + rest).take(b.len() as int) =~= b);
    assert((b + rest).skip(b.len() as int) =~= rest);
}

pub fn append_bytes(out: &mut Vec<u8>, b: &[u8])
    ensures
        final(out)@ == old(out)@ + enc_bytes(b@),
{
    append_u64(out, b.len() as u64);
    out.extend_from_slice(b);
}

pub fn read_bytes(data: &Vec<u8>, i: usize) -> (r: Option<(Vec<u8>, usize)>)
    requires
        i <= data@.len(),
    ensures
        match dec_bytes(data@.skip(i as int)) {
            Some(p) => (r matches Some(q) && q.0@ == p.0 && i < q.1 <= data@.len() && data@.skip(
                q.1 as int,
            ) == p.1),
            None => r is None,
        },
{
    match read_u64(data, i) {
        Some((n, j)) => {
            if n <= (data.len() - j) as u64 {
                let n = n as usize;
                let s = slice_subrange(data.as_slice(), j, j + n);
                let v = slice_to_vec(s);
                proof {
                    assert(data@.skip(j as int).take(n as int) =~= data@.subrange(
                        j as int,
                        j + n,
                    ));
                    assert(data@.skip(j as int).skip(n as int) =~= data@.skip(j + n));
                }
                Some((v, j + n))
            } else {
                None
            }
        },
        None => None,
    }
}

// ---------------------------------------------------------------------------
// String fields: byte field holding the UTF-8 encoding
// ---------------------------------------------------------------------------
pub open spec fn enc_string(s: Seq<char>) -> Seq<u8> {
    enc_bytes(encode_utf8(s))
}

pub open spec fn dec_string(s: Seq<u8>) -> Option<(Seq<char>, Seq<u8>)> {
    match dec_bytes(s) {
        Some(p) => {
            if valid_utf8(p.0) {
                Some((decode_utf8(p.0), p.1))
            } else {
                None
            }
        },
        None => None,
    }
}

pub proof fn lemma_dec_enc_string(s: Seq<char>, rest: Seq<u8>)
    requires
        encode_utf8(s).len() <= u64::MAX,
    ensures
        dec_string(enc_string(s) + rest) == Some((s, rest)),
{
    lemma_dec_enc_bytes(encode_utf8(s), rest);
    encode_utf8_valid_utf8(s);
    encode_utf8_decode_utf8(s);
}

pub fn append_string(out: &mut Vec<u8>, s: &str)
    ensures
        final(out)@ == old(out)@ + enc_string(s@),
{
    append_bytes(out, s.as_bytes());
}

pub fn read_string(data: &Vec<u8>, i: usize) -> (r: Option<(String, usize)>)
    requires
        i <= data@.len(),
    ensures
        match dec_string(data@.skip(i as int)) {
            Some(p) => (r matches Some(q) && q.0@ == p.0 && i < q.1 <= data@.len() && data@.skip(
                q.1 as int,
            ) == p.1),
            None => r is None,
        },
{
    match read_bytes(data, i) {
        Some((v, j)) => {
            match string_from_utf8(v) {
                Some(s) => Some((s, j)),
                None => None,
            }
        },
        None => None,
    }
}

// ---------------------------------------------------------------------------
// Lists of strings
// ---------------------------------------------------------------------------
pub open spec fn enc_string_cat(l: Seq<Seq<char>>) -> Seq<u8>
    decreases l.len(),
{
    if l.len() == 0 {
        Seq::empty()
    } else {
        enc_string(l[0]) + enc_string_cat(l.drop_first())
    }
}

pub open spec fn enc_string_list(l: Seq<Seq<char>>) -> Seq<u8> {
    enc_u64(l.len() as u64) + enc_string_cat(l)
}

pub open spec fn dec_string_list_n(s: Seq<u8>, n: nat) -> Option<(Seq<Seq<char>>, Seq<u8>)>
    decreases n,
{
    if n == 0 {
        Some((Seq::empty(), s))
    } else {
        match dec_string(s) {
            Some(p) => {
                match dec_string_list_n(p.1, (n - 1) as nat) {
                    Some(q) => Some((seq![p.0] + q.0, q.1)),
                    None => None,
                }
            },
            None => None,
        }
    }
}

pub open spec fn dec_string_list(s: Seq<u8>) -> Option<(Seq<Seq<char>>, Seq<u8>)> {
    match dec_u64(s) {
        Some(p) => dec_string_list_n(p.1, p.0 as nat),
        None => None,
    }
}

/// Every string in the list has an in-range encoding.
pub open spec fn string_list_bounded(l: Seq<Seq<char>>) -> bool {
    forall|i: int| 0 <= i < l.len() ==> #[trigger] encode_utf8(l[i]).len() <= u64::MAX
}

pub proof fn lemma_dec_enc_string_cat(l: Seq<Seq<char>>, rest: Seq<u8>)
    requires
        string_list_bounded(l),
    ensures
        dec_string_list_n(enc_string_cat(l) + rest, l.len()) == Some((l, rest)),
    decreases l.len(),
{
    if l.len() == 0 {
        assert(enc_string_cat(l) + rest =~= rest);
        assert(Seq::<Seq<char>>::empty() =~= l);
    } else {
        assert(enc_string_cat(l) + rest =~= enc_string(l[0]) + (enc_string_cat(l.drop_first())
            + rest));
        lemma_dec_enc_string(l[0], enc_string_cat(l.drop_first()) + rest);
        lemma_dec_enc_string_cat(l.drop_first(), rest);
        assert(seq![l[0]] + l.drop_first() =~= l);
    }
}

pub proof fn lemma_dec_enc_string_list(l: Seq<Seq<char>>, rest: Seq<u8>)
    requires
        string_list_bounded(l),
        l.len() <= u64::MAX,
    ensures
        dec_string_list(enc_string_list(l) + rest) == Some((l, rest)),
{
    assert(enc_string_list(l) + rest =~= enc_u64(l.len() as u64) + (enc_string_cat(l) + rest));
    lemma_dec_enc_u64(l.len() as u64, enc_string_cat(l) + rest);
    lemma_dec_enc_string_cat(l, rest);
}

pub fn append_string_list(out: &mut Vec<u8>, l: &Vec<String>)
    ensures
        final(out)@ == old(out)@ + enc_string_list(l.deep_view()),
{
    append_u64(out, l.len() as u64);
    let ghost model = l.deep_view();
    let n = l.len();
    let mut i: usize = 0;
    proof {
        assert(model.take(0) =~= Seq::<Seq<char>>::empty());
        assert(out@ =~= old(out)@ + enc_u64(n as u64) + enc_string_cat(model.take(0)));
    }
    while i < n
        invariant
            n == l@.len(),
            model == l.deep_view(),
            i <= n,
            out@ == old(out)@ + enc_u64(n as u64) + enc_string_cat(model.take(i as int)),
        decreases n - i,
    {
        append_string(out, l[i].as_str());
        proof {
            lemma_enc_string_cat_push(model.take(i as int), model[i as int]);
            assert(model.take(i as int).push(model[i as int]) =~= model.take(i + 1));
            assert(l@[i as int]@ == model[i as int]);
        }
        i += 1;
    }
    proof {
        assert(model.take(n as int) =~= model);
        assert(old(out)@ + enc_u64(n as u64) + enc_string_cat(model) =~= old(out)@
            + enc_string_list(model));
    }
}

proof fn lemma_enc_string_cat_push(l: Seq<Seq<char>>, x: Seq<char>)
    ensures
        enc_string_cat(l.push(x)) == enc_string_cat(l) + enc_string(x),
    decreases l.len(),
{
    if l.len() == 0 {
        assert(l.push(x)[0] == x);
        assert(l.push(x).drop_first() =~= Seq::<Seq<char>>::empty());
        assert(enc_string_cat(Seq::<Seq<char>>::empty()) == Seq::<u8>::empty());
        assert(enc_string_cat(l.push(x)) == enc_string(x) + Seq::<u8>::empty());
        assert(enc_string(x) + Seq::<u8>::empty() =~= enc_string(x));
        assert(enc_string_cat(l) + enc_string(x) =~= enc_string(x));
    } else {
        assert(l.push(x).drop_first() =~= l.drop_first().push(x));
        lemma_enc_string_cat_push(l.drop_first(), x);
        assert(enc_string_cat(l.push(x)) == enc_string(l[0]) + (enc_string_cat(l.drop_first())
            + enc_string(x)));
        assert(enc_string(l[0]) + (enc_string_cat(l.drop_first()) + enc_string(x)) =~= (enc_string(
            l[0],
        ) + enc_string_cat(l.drop_first())) + enc_string(x));
    }
}

// ---------------------------------------------------------------------------
// Lists of string pairs
// ---------------------------------------------------------------------------
pub open spec fn pairs_view(l: Seq<(String, String)>) -> Seq<(Seq<char>, Seq<char>)> {
    l.map(|i: int, p: (String, String)| (p.0@, p.1@))
}

pub open spec fn enc_pair_cat(l: Seq<(Seq<char>, Seq<char>)>) -> Seq<u8>
    decreases l.len(),
{
    if l.len() == 0 {
        Seq::empty()
    } else {
        enc_string(l[0].0) + enc_string(l[0].1) + enc_pair_cat(l.drop_first())
    }
}

pub open spec fn enc_pair_list(l: Seq<(Seq<char>, Seq<char>)>) -> Seq<u8> {
    enc_u64(l.len() as u64) + enc_pair_cat(l)
}

pub open spec fn dec_pair_list_n(s: Seq<u8>, n: nat) -> Option<
    (Seq<(Seq<char>, Seq<char>)>, Seq<u8>),
>
    decreases n,
{
    if n == 0 {
        Some((Seq::empty(), s))
    } else {
        match dec_string(s) {
            Some(p) => {
                match dec_string(p.1) {
                    Some(p2) => {
                        match dec_pair_list_n(p2.1, (n - 1) as nat) {
                            Some(q) => Some((seq![(p.0, p2.0)] + q.0, q.1)),
                            None => None,
                        }
                    },
                    None => None,
                }
            },
            None => None,
        }
    }
}

pub open spec fn dec_pair_list(s: Seq<u8>) -> Option<(Seq<(Seq<char>, Seq<char>)>, Seq<u8>)> {
    match dec_u64(s) {
        Some(p) => dec_pair_list_n(p.1, p.0 as nat),
        None => None,
    }
}

/// Every string in the pair list has an in-range encoding.
pub open spec fn pair_list_bounded(l: Seq<(Seq<char>, Seq<char>)>) -> bool {
    forall|i: int|
        0 <= i < l.len() ==> #[trigger] encode_utf8(l[i].0).len() <= u64::MAX && encode_utf8(
            l[i].1,
        ).len() <= u64::MAX
}

pub proof fn lemma_dec_enc_pair_cat(l: Seq<(Seq<char>, Seq<char>)>, rest: Seq<u8>)
    requires
        pair_list_bounded(l),
    ensures
        dec_pair_list_n(enc_pair_cat(l) + rest, l.len()) == Some((l, rest)),
    decreases l.len(),
{
    if l.len() == 0 {
        assert(enc_pair_cat(l) + rest =~= rest);
        assert(Seq::<(Seq<char>, Seq<char>)>::empty() =~= l);
    } else {
        let tail = enc_pair_cat(l.drop_first()) + rest;
        assert(enc_pair_cat(l) + rest =~= enc_string(l[0].0) + (enc_string(l[0].1) + tail));
        lemma_dec_enc_string(l[0].0, enc_string(l[0].1) + tail);
        lemma_dec_enc_string(l[0].1, tail);
        lemma_dec_enc_pair_cat(l.drop_first(), rest);
        assert(seq![(l[0].0, l[0].1)] + l.drop_first() =~= l);
    }
}

pub proof fn lemma_dec_enc_pair_list(l: Seq<(Seq<char>, Seq<char>)>, rest: Seq<u8>)
    requires
        pair_list_bounded(l),
        l.len() <= u64::MAX,
    ensures
        dec_pair_list(enc_pair_list(l) + rest) == Some((l, rest)),
{
    assert(enc_pair_list(l) + rest =~= enc_u64(l.len() as u64) + (enc_pair_cat(l) + rest));
    lemma_dec_enc_u64(l.len() as u64, enc_pair_cat(l) + rest);
    lemma_dec_enc_pair_cat(l, rest);
}

proof fn lemma_enc_pair_cat_push(l: Seq<(Seq<char>, Seq<char>)>, x: (Seq<char>, Seq<char>))
    ensures
        enc_pair_cat(l.push(x)) == enc_pair_cat(l) + (enc_string(x.0) + enc_string(x.1)),
    decreases l.len(),
{
    if l.len() == 0 {
        assert(l.push(x)[0] == x);
        assert(l.push(x).drop_first() =~= Seq::<(Seq<char>, Seq<char>)>::empty());
        assert(enc_pair_cat(Seq::<(Seq<char>, Seq<char>)>::empty()) == Seq::<u8>::empty());
        assert(enc_pair_cat(l.push(x)) == enc_string(x.0) + enc_string(x.1) + Seq::<u8>::empty());
        assert(enc_string(x.0) + enc_string(x.1) + Seq::<u8>::empty() =~= enc_string(x.0)
            + enc_string(x.1));
        assert(enc_pair_cat(l) + (enc_string(x.0) + enc_string(x.1)) =~= enc_string(x.0)
            + enc_string(x.1));
    } else {
        assert(l.push(x).drop_first() =~= l.drop_first().push(x));
        lemma_enc_pair_cat_push(l.drop_first(), x);
        assert(enc_pair_cat(l.push(x)) == enc_string(l[0].0) + enc_string(l[0].1) + (enc_pair_cat(
            l.drop_first(),
        ) + (enc_string(x.0) + enc_string(x.1))));
        assert(enc_string(l[0].0) + enc_string(l[0].1) + (enc_pair_cat(l.drop_first()) + (
        enc_string(x.0) + enc_string(x.1))) =~= (enc_string(l[0].0) + enc_string(l[0].1)
            + enc_pair_cat(l.drop_first())) + (enc_string(x.0) + enc_string(x.1)));
    }
}

pub fn append_pair_list(out: &mut Vec<u8>, l: &Vec<(String, String)>)
    ensures
        final(out)@ == old(out)@ + enc_pair_list(pairs_view(l@)),
{
    append_u64(out, l.len() as u64);
    let ghost model = pairs_view(l@);
    let n = l.len();
    let mut i: usize = 0;
    proof {
        assert(model.take(0) =~= Seq::<(Seq<char>, Seq<char>)>::empty());
        assert(out@ =~= old(out)@ + enc_u64(n as u64) + enc_pair_cat(model.take(0)));
    }
    while i < n
        invariant
            n == l@.len(),
            model == pairs_view(l@),
            i <= n,
            out@ == old(out)@ + enc_u64(n as u64) + enc_pair_cat(model.take(i as int)),
        decreases n - i,
    {
        append_string(out, l[i].0.as_str());
        append_string(out, l[i].1.as_str());
        proof {
            lemma_enc_pair_cat_push(model.take(i as int), model[i as int]);
            assert(model.take(i as int).push(model[i as int]) =~= model.take(i + 1));
            assert(l@[i as int].0@ == model[i as int].0);
            assert(l@[i as int].1@ == model[i as int].1);
        }
        i += 1;
    }
    proof {
        assert(model.take(n as int) =~= model);
        assert(old(out)@ + enc_u64(n as u64) + enc_pair_cat(model) =~= old(out)@ + enc_pair_list(
            model,
        ));
    }
}

pub fn read_pair_list(data: &Vec<u8>, i: usize) -> (r: Option<(Vec<(String, String)>, usize)>)
    requires
        i <= data@.len(),
    ensures
        match dec_pair_list(data@.skip(i as int)) {
            Some(p) => (r matches Some(q) && pairs_view(q.0@) == p.0 && q.1 <= data@.len()
                && data@.skip(q.1 as int) == p.1),
            None => r is None,
        },
{
    let (count, mut j) = match read_u64(data, i) {
        Some(p) => p,
        None => { return None },
    };
    let mut out: Vec<(String, String)> = Vec::new();
    let mut remaining: u64 = count;
    proof {
        assert(pairs_view(out@) =~= Seq::<(Seq<char>, Seq<char>)>::empty());
        let r0 = dec_pair_list_n(data@.skip(j as int), count as nat);
        if r0 is Some {
            assert(pairs_view(out@) + r0->Some_0.0 =~= r0->Some_0.0);
        }
    }
    while remaining > 0
        invariant
            j <= data@.len(),
            match dec_pair_list(data@.skip(i as int)) {
                Some(p) => (match dec_pair_list_n(data@.skip(j as int), remaining as nat) {
                    Some(q) => p.0 == pairs_view(out@) + q.0 && p.1 == q.1,
                    None => false,
                }),
                None => (dec_pair_list_n(data@.skip(j as int), remaining as nat) is None),
            },
        decreases remaining,
    {
        let (k, j1) = match read_string(data, j) {
            Some(p) => p,
            None => { return None },
        };
        let (v, j2) = match read_string(data, j1) {
            Some(p) => p,
            None => { return None },
        };
        let ghost prev = pairs_view(out@);
        out.push((k, v));
        proof {
            assert(pairs_view(out@) =~= prev.push((k@, v@)));
            let r2 = dec_pair_list_n(data@.skip(j2 as int), (remaining - 1) as nat);
            if r2 is Some {
                assert(prev + (seq![(k@, v@)] + r2->Some_0.0) =~= prev.push((k@, v@))
                    + r2->Some_0.0);
            }
        }
        j = j2;
        remaining = remaining - 1;
    }
    proof {
        assert(pairs_view(out@) + Seq::<(Seq<char>, Seq<char>)>::empty() =~= pairs_view(out@));
    }
    Some((out, j))
}

pub fn read_string_list(data: &Vec<u8>, i: usize) -> (r: Option<(Vec<String>, usize)>)
    requires
        i <= data@.len(),
    ensures
        match dec_string_list(data@.skip(i as int)) {
            Some(p) => (r matches Some(q) && q.0.deep_view() == p.0 && q.1 <= data@.len()
                && data@.skip(q.1 as int) == p.1),
            None => r is None,
        },
{
    let (count, mut j) = match read_u64(data, i) {
        Some(p) => p,
        None => { return None },
    };
    let mut out: Vec<String> = Vec::new();
    let mut remaining: u64 = count;
    proof {
        assert(out.deep_view() =~= Seq::<Seq<char>>::empty());
        let r0 = dec_string_list_n(data@.skip(j as int), count as nat);
        if r0 is Some {
            assert(out.deep_view() + r0->Some_0.0 =~= r0->Some_0.0);
        }
    }
    while remaining > 0
        invariant
            j <= data@.len(),
            match dec_string_list(data@.skip(i as int)) {
                Some(p) => (match dec_string_list_n(data@.skip(j as int), remaining as nat) {
                    Some(q) => p.0 == out.deep_view() + q.0 && p.1 == q.1,
                    None => false,
                }),
                None => (dec_string_list_n(data@.skip(j as int), remaining as nat) is None),
            },
        decreases remaining,
    {
        match read_string(data, j) {
            Some((s, j2)) => {
                let ghost prev = out.deep_view();
                out.push(s);
                proof {
                    assert(out.deep_view() =~= prev.push(s@));
                    let r2 = dec_string_list_n(data@.skip(j2 as int), (remaining - 1) as nat);
                    if r2 is Some {
                        assert(prev + (seq![s@] + r2->Some_0.0) =~= prev.push(s@) + r2->Some_0.0);
                    }
                }
                j = j2;
                remaining = remaining - 1;
            },
            None => { return None },
        }
    }
    proof {
        assert(out.deep_view() + Seq::<Seq<char>>::empty() =~= out.deep_view());
    }
    Some((out, j))
}

} // verus!
