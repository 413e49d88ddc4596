//! Canonical binary encoding of runtime values, used for every payload
//! that crosses the host boundary: a tag byte, little-endian 64-bit
//! lengths, UTF-8 string bytes, and elements in order.  Decoding is
//! proved to invert encoding.

use vstd::prelude::*;

use crate::value::RuntimeValue;
use crate::value::ValModel;
use crate::value::ValueMap;
use crate::value::arr_model;
use crate::value::entries_model;
use vstd::utf8::valid_utf8;
use vstd::utf8::encode_utf8;
use vstd::utf8::decode_utf8;
use vstd::utf8::encode_utf8_valid_utf8;
use vstd::utf8::encode_utf8_decode_utf8;

verus! {

/// Tag byte of a null value.
pub const TAG_NULL: u8 = 0;

/// Tag byte of a boolean.
pub const TAG_BOOL: u8 = 1;

/// Tag byte of a number.
pub const TAG_NUMBER: u8 = 2;

/// Tag byte of a string.
pub const TAG_STRING: u8 = 3;

/// Tag byte of an array.
pub const TAG_ARRAY: u8 = 4;

/// Tag byte of an object.
pub const TAG_OBJECT: u8 = 5;

/// The eight little-endian bytes of a 64-bit integer.
pub open spec fn le8(n: u64) -> Seq<u8> {
    seq![
        (n & 0xff) as u8,
        ((n >> 8) & 0xff) as u8,
        ((n >> 16) & 0xff) as u8,
        ((n >> 24) & 0xff) as u8,
        ((n >> 32) & 0xff) as u8,
        ((n >> 40) & 0xff) as u8,
        ((n >> 48) & 0xff) as u8,
        ((n >> 56) & 0xff) as u8,
    ]
}

/// The 64-bit integer eight little-endian bytes denote.
pub open spec fn dec8(b: Seq<u8>) -> u64 {
    ((b[0] as u64) | ((b[1] as u64) << 8) | ((b[2] as u64) << 16) | ((b[3] as u64) << 24) | ((
    b[4] as u64) << 32) | ((b[5] as u64) << 40) | ((b[6] as u64) << 48) | ((b[7] as u64) << 56))
}

/// Reading back the little-endian bytes of an integer yields it.
pub proof fn lemma_le8_roundtrip(n: u64)
    ensures
        dec8(le8(n)) == n,
{
    assert((((n & 0xff) as u8 as u64) | (((n >> 8) & 0xff) as u8 as u64) << 8 | (((n >> 16)
        & 0xff) as u8 as u64) << 16 | (((n >> 24) & 0xff) as u8 as u64) << 24 | (((n >> 32)
        & 0xff) as u8 as u64) << 32 | (((n >> 40) & 0xff) as u8 as u64) << 40 | (((n >> 48)
        & 0xff) as u8 as u64) << 48 | (((n >> 56) & 0xff) as u8 as u64) << 56) == n)
        by (bit_vector);
}

/// Well-formed models: every length fits in 64 bits, so the encoding's
/// length fields are faithful.
pub open spec fn wf_model(m: ValModel) -> bool
    decreases m,
{
    match m {
        ValModel::Null => true,
        ValModel::Bool(_) => true,
        ValModel::Number(_) => true,
        ValModel::String(s) => encode_utf8(s).len() <= u64::MAX,
        ValModel::Array(items) => items.len() <= u64::MAX && wf_vlist(items),
        ValModel::Object(es) => es.len() <= u64::MAX && wf_entries(es),
    }
}

/// Well-formedness of each element of a model sequence.
pub open spec fn wf_vlist(items: Seq<ValModel>) -> bool
    decreases items,
{
    forall|i: int| 0 <= i < items.len() ==> wf_model(#[trigger] items[i])
}

/// Well-formedness of each entry of a model entry sequence.
pub open spec fn wf_entries(es: Seq<(Seq<char>, ValModel)>) -> bool
    decreases es,
{
    forall|i: int|
        0 <= i < es.len() ==> encode_utf8((#[trigger] es[i]).0).len() <= u64::MAX && wf_model(
            es[i].1,
        )
}

/// Encoding of a value model.
pub open spec fn enc_value(m: ValModel) -> Seq<u8>
    decreases m, 0nat,
{
    match m {
        ValModel::Null => seq![TAG_NULL],
        ValModel::Bool(x) => seq![
            TAG_BOOL,
            if x {
                1u8
            } else {
                0u8
            },
        ],
        ValModel::Number(bits) => seq![TAG_NUMBER] + le8(bits),
        ValModel::String(s) => seq![TAG_STRING] + le8(encode_utf8(s).len() as u64)
            + encode_utf8(s),
        ValModel::Array(items) => seq![TAG_ARRAY] + le8(items.len() as u64) + enc_vlist(items),
        ValModel::Object(es) => seq![TAG_OBJECT] + le8(es.len() as u64) + enc_entries(es),
    }
}

/// Encoding of a sequence of value models, in order.
pub open spec fn enc_vlist(items: Seq<ValModel>) -> Seq<u8>
    decreases items, 1nat,
{
    if items.len() == 0 {
        Seq::empty()
    } else {
        enc_value(items[0]) + enc_vlist(items.drop_first())
    }
}

/// Encoding of a sequence of entries: each key as length-prefixed
/// UTF-8, then the value.
pub open spec fn enc_entries(es: Seq<(Seq<char>, ValModel)>) -> Seq<u8>
    decreases es, 1nat,
{
    if es.len() == 0 {
        Seq::empty()
    } else {
        le8(encode_utf8(es[0].0).len() as u64) + encode_utf8(es[0].0) + enc_value(es[0].1)
            + enc_entries(es.drop_first())
    }
}

/// Decoding of one value from the head of a byte sequence: the model
/// and the number of bytes consumed.
pub open spec fn dec_value(b: Seq<u8>) -> Option<(ValModel, nat)>
    decreases b.len(), 0nat, 0nat,
{
    if b.len() < 1 {
        None
    } else if b[0] == TAG_NULL {
        Some((ValModel::Null, 1nat))
    } else if b[0] == TAG_BOOL {
        if b.len() >= 2 && (b[1] == 0 || b[1] == 1) {
            Some((ValModel::Bool(b[1] == 1), 2nat))
        } else {
            None
        }
    } else if b[0] == TAG_NUMBER {
        if b.len() >= 9 {
            Some((ValModel::Number(dec8(b.subrange(1, 9))), 9nat))
        } else {
            None
        }
    } else if b[0] == TAG_STRING {
        if b.len() >= 9 {
            let n = dec8(b.subrange(1, 9)) as nat;
            if 9 + n <= b.len() && valid_utf8(b.subrange(9, 9 + n as int)) {
                Some((ValModel::String(decode_utf8(b.subrange(9, 9 + n as int))), (9 + n) as nat))
            } else {
                None
            }
        } else {
            None
        }
    } else if b[0] == TAG_ARRAY {
        if b.len() >= 9 {
            let cnt = dec8(b.subrange(1, 9)) as nat;
            match dec_vlist(b.skip(9), cnt) {
                Some((items, used)) => Some((ValModel::Array(items), (9 + used) as nat)),
                None => None,
            }
        } else {
            None
        }
    } else if b[0] == TAG_OBJECT {
        if b.len() >= 9 {
            let cnt = dec8(b.subrange(1, 9)) as nat;
            match dec_entries(b.skip(9), cnt) {
                Some((es, used)) => Some((ValModel::Object(es), (9 + used) as nat)),
                None => None,
            }
        } else {
            None
        }
    } else {
        None
    }
}

/// Decoding of `cnt` values from the head of a byte sequence.
pub open spec fn dec_vlist(b: Seq<u8>, cnt: nat) -> Option<(Seq<ValModel>, nat)>
    decreases b.len(), 1nat, cnt,
{
    if cnt == 0 {
        Some((Seq::empty(), 0nat))
    } else {
        match dec_value(b) {
            Some((m, used)) => {
                if 1 <= used <= b.len() {
                    match dec_vlist(b.skip(used as int), (cnt - 1) as nat) {
                        Some((rest, used2)) => Some(
                            (seq![m] + rest, (used + used2) as nat),
                        ),
                        None => None,
                    }
                } else {
                    None
                }
            },
            None => None,
        }
    }
}

/// Decoding of `cnt` entries from the head of a byte sequence.
pub open spec fn dec_entries(b: Seq<u8>, cnt: nat) -> Option<(Seq<(Seq<char>, ValModel)>, nat)>
    decreases b.len(), 1nat, cnt,
{
    if cnt == 0 {
        Some((Seq::empty(), 0nat))
    } else if b.len() >= 8 {
        let klen = dec8(b.subrange(0, 8)) as nat;
        if 8 + klen <= b.len() && valid_utf8(b.subrange(8, 8 + klen as int)) {
            let key = decode_utf8(b.subrange(8, 8 + klen as int));
            match dec_value(b.skip(8 + klen as int)) {
                Some((m, used)) => {
                    if 1 <= used <= b.len() - 8 - klen {
                        match dec_entries(
                            b.skip(8 + klen as int + used as int),
                            (cnt - 1) as nat,
                        ) {
                            Some((rest, used2)) => Some(
                                (seq![(key, m)] + rest, (8 + klen + used + used2) as nat),
                            ),
                            None => None,
                        }
                    } else {
                        None
                    }
                },
                None => None,
            }
        } else {
            None
        }
    } else {
        None
    }
}

/// Every encoding is at least one byte long.
pub proof fn lemma_enc_value_len(m: ValModel)
    ensures
        enc_value(m).len() >= 1,
{
}

/// Decoding inverts encoding for one value, whatever follows it.
#[verifier::rlimit(60)]
pub proof fn lemma_dec_enc_value(m: ValModel, rest: Seq<u8>)
    requires
        wf_model(m),
    ensures
        dec_value(enc_value(m) + rest) == Some((m, enc_value(m).len() as nat)),
    decreases m, 0nat,
{
    let b = enc_value(m) + rest;
    match m {
        ValModel::Null => {
            assert(b[0] == TAG_NULL);
        },
        ValModel::Bool(x) => {
            assert(b[0] == TAG_BOOL);
            assert(b[1] == (if x { 1u8 } else { 0u8 }));
        },
        ValModel::Number(bits) => {
            assert(b[0] == TAG_NUMBER);
            assert(b.len() >= 9);
            assert(b.subrange(1, 9) =~= le8(bits));
            lemma_le8_roundtrip(bits);
        },
        ValModel::String(s) => {
            let sb = encode_utf8(s);
            assert(b[0] == TAG_STRING);
            assert(b.len() >= 9 + sb.len());
            assert(b.subrange(1, 9) =~= le8(sb.len() as u64));
            lemma_le8_roundtrip(sb.len() as u64);
            assert(dec8(b.subrange(1, 9)) == sb.len());
            assert(b.subrange(9, 9 + sb.len() as int) =~= sb);
            encode_utf8_valid_utf8(s);
            encode_utf8_decode_utf8(s);
        },
        ValModel::Array(items) => {
            assert(b[0] == TAG_ARRAY);
            assert(b.len() >= 9);
            assert(b.subrange(1, 9) =~= le8(items.len() as u64));
            lemma_le8_roundtrip(items.len() as u64);
            assert(dec8(b.subrange(1, 9)) == items.len());
            assert(b.skip(9) =~= enc_vlist(items) + rest);
            lemma_dec_enc_vlist(items, rest);
            assert(dec_vlist(b.skip(9), items.len()) == Some(
                (items, enc_vlist(items).len() as nat),
            ));
        },
        ValModel::Object(es) => {
            assert(b[0] == TAG_OBJECT);
            assert(b.len() >= 9);
            assert(b.subrange(1, 9) =~= le8(es.len() as u64));
            lemma_le8_roundtrip(es.len() as u64);
            assert(dec8(b.subrange(1, 9)) == es.len());
            assert(b.skip(9) =~= enc_entries(es) + rest);
            lemma_dec_enc_entries(es, rest);
            assert(dec_entries(b.skip(9), es.len()) == Some(
                (es, enc_entries(es).len() as nat),
            ));
        },
    }
}

/// Decoding inverts encoding for a value list, whatever follows it.
#[verifier::rlimit(60)]
pub proof fn lemma_dec_enc_vlist(items: Seq<ValModel>, rest: Seq<u8>)
    requires
        wf_vlist(items),
    ensures
        dec_vlist(enc_vlist(items) + rest, items.len()) == Some(
            (items, enc_vlist(items).len() as nat),
        ),
    decreases items, 1nat,
{
    if items.len() == 0 {
        assert(enc_vlist(items) + rest =~= rest);
        assert(dec_vlist(rest, 0) == Some((Seq::<ValModel>::empty(), 0nat)));
        assert(items =~= Seq::<ValModel>::empty());
    } else {
        let b = enc_vlist(items) + rest;
        let head = items[0];
        let tail = items.drop_first();
        assert(wf_model(head));
        assert(wf_vlist(tail)) by {
            assert(forall|i: int| 0 <= i < tail.len() ==> tail[i] == items[i + 1]);
        }
        assert(b =~= enc_value(head) + (enc_vlist(tail) + rest));
        lemma_dec_enc_value(head, enc_vlist(tail) + rest);
        let used = enc_value(head).len() as nat;
        lemma_enc_value_len(head);
        assert(1 <= used <= b.len());
        assert(b.skip(used as int) =~= enc_vlist(tail) + rest);
        lemma_dec_enc_vlist(tail, rest);
        assert(seq![head] + tail =~= items);
    }
}

/// Decoding inverts encoding for an entry list, whatever follows it.
#[verifier::rlimit(60)]
pub proof fn lemma_dec_enc_entries(es: Seq<(Seq<char>, ValModel)>, rest: Seq<u8>)
    requires
        wf_entries(es),
    ensures
        dec_entries(enc_entries(es) + rest, es.len()) == Some(
            (es, enc_entries(es).len() as nat),
        ),
    decreases es, 1nat,
{
    if es.len() == 0 {
        assert(enc_entries(es) + rest =~= rest);
        assert(es =~= Seq::<(Seq<char>, ValModel)>::empty());
    } else {
        let b = enc_entries(es) + rest;
        let key = es[0].0;
        let val = es[0].1;
        let tail = es.drop_first();
        assert(encode_utf8(key).len() <= u64::MAX && wf_model(val)) by {
            assert(0 <= 0 < es.len());
        }
        assert(wf_entries(tail)) by {
            assert(forall|i: int| 0 <= i < tail.len() ==> tail[i] == es[i + 1]);
        }
        let kb = encode_utf8(key);
        let klen = kb.len();
        assert(b.len() >= 8);
        assert(b.subrange(0, 8) =~= le8(klen as u64));
        lemma_le8_roundtrip(klen as u64);
        assert(dec8(b.subrange(0, 8)) == klen);
        assert(8 + klen <= b.len());
        assert(b.subrange(8, 8 + klen as int) =~= kb);
        encode_utf8_valid_utf8(key);
        encode_utf8_decode_utf8(key);
        assert(b.skip(8 + klen as int) =~= enc_value(val) + (enc_entries(tail) + rest));
        lemma_dec_enc_value(val, enc_entries(tail) + rest);
        let used = enc_value(val).len() as nat;
        lemma_enc_value_len(val);
        assert(1 <= used <= b.len() - 8 - klen);
        assert(b.skip(8 + klen as int + used as int) =~= enc_entries(tail) + rest);
        lemma_dec_enc_entries(tail, rest);
        assert(seq![(key, val)] + tail =~= es);
    }
}

/// Relies on `String::from_utf8`: decodes the bytes as UTF-8, or
/// reports that they are not valid UTF-8.
#[verifier::external_body]
fn string_from_utf8(v: Vec<u8>) -> (r: Option<String>)
    ensures
        match r {
            Some(s) => encode_utf8(s@) == v@,
            None => !valid_utf8(v@),
        },
        r is Some <==> valid_utf8(v@),
{
    match std::string::String::from_utf8(v) {
        Ok(s) => Some(s),
        Err(_) => None,
    }
}

/// Appends the eight little-endian bytes of an integer.
fn push_u64_le(out: &mut Vec<u8>, n: u64)
    ensures
        final(out)@ == old(out)@ + le8(n),
{
    out.push((n & 0xff) as u8);
    out.push(((n >> 8) & 0xff) as u8);
    out.push(((n >> 16) & 0xff) as u8);
    out.push(((n >> 24) & 0xff) as u8);
    out.push(((n >> 32) & 0xff) as u8);
    out.push(((n >> 40) & 0xff) as u8);
    out.push(((n >> 48) & 0xff) as u8);
    out.push(((n >> 56) & 0xff) as u8);
    assert(out@ =~= old(out)@ + le8(n));
}

/// Reads the integer eight little-endian bytes denote.
fn read_u64_le(bytes: &Vec<u8>, pos: usize) -> (r: u64)
    requires
        pos + 8 <= bytes@.len(),
    ensures
        r == dec8(bytes@.subrange(pos as int, pos as int + 8)),
{
    let l = bytes.len();
    let r = (bytes[pos] as u64) | ((bytes[pos + 1] as u64) << 8) | ((bytes[pos + 2] as u64)
        << 16) | ((bytes[pos + 3] as u64) << 24) | ((bytes[pos + 4] as u64) << 32) | ((bytes[pos
        + 5] as u64) << 40) | ((bytes[pos + 6] as u64) << 48) | ((bytes[pos + 7] as u64) << 56);
    proof {
        let sub = bytes@.subrange(pos as int, pos as int + 8);
        assert(sub[0] == bytes@[pos as int]);
        assert(sub[1] == bytes@[pos as int + 1]);
        assert(sub[2] == bytes@[pos as int + 2]);
        assert(sub[3] == bytes@[pos as int + 3]);
        assert(sub[4] == bytes@[pos as int + 4]);
        assert(sub[5] == bytes@[pos as int + 5]);
        assert(sub[6] == bytes@[pos as int + 6]);
        assert(sub[7] == bytes@[pos as int + 7]);
    }
    r
}

/// Appends the encoding of a value; the value's model is well formed.
fn encode_value_into(v: &RuntimeValue, out: &mut Vec<u8>)
    ensures
        final(out)@ == old(out)@ + enc_value(v.model()),
        wf_model(v.model()),
    decreases v,
{
    let ghost pre = out@;
    match v {
        RuntimeValue::Null => {
            out.push(TAG_NULL);
            assert(out@ =~= pre + enc_value(v.model()));
        },
        RuntimeValue::Bool(x) => {
            out.push(TAG_BOOL);
            if *x {
                out.push(1u8);
            } else {
                out.push(0u8);
            }
            assert(out@ =~= pre + enc_value(v.model()));
        },
        RuntimeValue::Number(bits) => {
            out.push(TAG_NUMBER);
            push_u64_le(out, *bits);
            assert(out@ =~= pre + enc_value(v.model()));
        },
        RuntimeValue::String(st) => {
            out.push(TAG_STRING);
            let mut bs = st.as_str().as_bytes_vec();
            let blen = bs.len();
            push_u64_le(out, blen as u64);
            out.append(&mut bs);
            assert(out@ =~= pre + enc_value(v.model()));
        },
        RuntimeValue::Array(items) => {
            out.push(TAG_ARRAY);
            let n = items.len();
            push_u64_le(out, n as u64);
            let ghost am = arr_model(items@);
            let ghost base = out@;
            let mut i: usize = 0;
            assert(am.skip(0) =~= am);
            while i < n
                invariant
                    i <= n,
                    n == items@.len(),
                    *v == RuntimeValue::Array(*items),
                    am == arr_model(items@),
                    out@ + enc_vlist(am.skip(i as int)) == base + enc_vlist(am),
                    forall|j: int| 0 <= j < i ==> wf_model(#[trigger] am[j]),
                decreases n - i,
            {
                proof {
                    assert(decreases_to!(*v => v->Array_0));
                    assert(decreases_to!(*items => items@));
                    assert(decreases_to!(items@ => items@[i as int]));
                }
                let ghost mid = out@;
                encode_value_into(&items[i], out);
                proof {
                    assert(am.skip(i as int)[0] == am[i as int]);
                    assert(am[i as int] == items@[i as int].model());
                    assert(am.skip(i as int).drop_first() =~= am.skip(i + 1));
                    assert(enc_vlist(am.skip(i as int)) == enc_value(am[i as int])
                        + enc_vlist(am.skip(i + 1)));
                    assert(out@ + enc_vlist(am.skip(i + 1)) =~= mid + enc_value(am[i as int])
                        + enc_vlist(am.skip(i + 1)));
                    assert(out@ + enc_vlist(am.skip(i + 1)) =~= base + enc_vlist(am));
                }
                i += 1;
            }
            proof {
                assert(am.skip(n as int) =~= Seq::<ValModel>::empty());
                assert(out@ =~= out@ + enc_vlist(am.skip(n as int)));
                assert(out@ =~= base + enc_vlist(am));
                assert(out@ =~= pre + enc_value(v.model()));
                assert(wf_vlist(am));
                assert(am.len() == n <= u64::MAX);
            }
        },
        RuntimeValue::Object(map) => {
            out.push(TAG_OBJECT);
            let n = map.entries.len();
            push_u64_le(out, n as u64);
            let ghost em = map.model();
            let ghost base = out@;
            let mut i: usize = 0;
            assert(em.skip(0) =~= em);
            while i < n
                invariant
                    i <= n,
                    n == map.entries@.len(),
                    *v == RuntimeValue::Object(*map),
                    em == map.model(),
                    out@ + enc_entries(em.skip(i as int)) == base + enc_entries(em),
                    forall|j: int|
                        0 <= j < i ==> wf_model((#[trigger] em[j]).1) && encode_utf8(
                            em[j].0,
                        ).len() <= u64::MAX,
                decreases n - i,
            {
                proof {
                    assert(decreases_to!(*v => v->Object_0));
                    assert(decreases_to!(*map => map.entries));
                    assert(decreases_to!(map.entries => map.entries@[i as int]));
                }
                let ghost mid = out@;
                let mut kb = map.entries[i].0.as_str().as_bytes_vec();
                let klen = kb.len();
                push_u64_le(out, klen as u64);
                out.append(&mut kb);
                encode_value_into(&map.entries[i].1, out);
                proof {
                    assert(em.skip(i as int)[0] == em[i as int]);
                    assert(em[i as int].0 == map.entries@[i as int].0@);
                    assert(em[i as int].1 == map.entries@[i as int].1.model());
                    assert(em.skip(i as int).drop_first() =~= em.skip(i + 1));
                    assert(enc_entries(em.skip(i as int)) == le8(
                        encode_utf8(em[i as int].0).len() as u64,
                    ) + encode_utf8(em[i as int].0) + enc_value(em[i as int].1) + enc_entries(
                        em.skip(i + 1),
                    ));
                    assert(out@ + enc_entries(em.skip(i + 1)) =~= mid + le8(
                        encode_utf8(em[i as int].0).len() as u64,
                    ) + encode_utf8(em[i as int].0) + enc_value(em[i as int].1) + enc_entries(
                        em.skip(i + 1),
                    ));
                    assert(out@ + enc_entries(em.skip(i + 1)) =~= base + enc_entries(em));
                }
                i += 1;
            }
            proof {
                assert(em.skip(n as int) =~= Seq::<(Seq<char>, ValModel)>::empty());
                assert(out@ =~= out@ + enc_entries(em.skip(n as int)));
                assert(out@ =~= base + enc_entries(em));
                assert(out@ =~= pre + enc_value(v.model()));
                assert(wf_entries(em));
                assert(em.len() == n <= u64::MAX);
            }
        },
    }
}

/// Encodes a value in the canonical binary form.
pub fn encode_value(v: &RuntimeValue) -> (r: Vec<u8>)
    ensures
        r@ == enc_value(v.model()),
        wf_model(v.model()),
{
    let mut out: Vec<u8> = Vec::new();
    encode_value_into(v, &mut out);
    assert(out@ =~= enc_value(v.model()));
    out
}

/// Decodes one value starting at `pos`, returning the value and the
/// position after it.
fn decode_value_at(bytes: &Vec<u8>, pos: usize) -> (r: Option<(RuntimeValue, usize)>)
    requires
        pos <= bytes@.len(),
    ensures
        match r {
            Some(p) => pos < p.1 <= bytes@.len() && dec_value(bytes@.skip(pos as int)) == Some(
                (p.0.model(), (p.1 - pos) as nat),
            ),
            None => dec_value(bytes@.skip(pos as int)) is None,
        },
    decreases bytes@.len() - pos, 0nat, 0nat,
{
    let len = bytes.len();
    let ghost tail = bytes@.skip(pos as int);
    if pos >= len {
        return None;
    }
    let tag = bytes[pos];
    assert(tail[0] == bytes@[pos as int]);
    if tag == TAG_NULL {
        Some((RuntimeValue::Null, pos + 1))
    } else if tag == TAG_BOOL {
        if len - pos >= 2 {
            let byte = bytes[pos + 1];
            assert(tail[1] == bytes@[pos as int + 1]);
            if byte == 0 || byte == 1 {
                Some((RuntimeValue::Bool(byte == 1), pos + 2))
            } else {
                None
            }
        } else {
            None
        }
    } else if tag == TAG_NUMBER {
        if len - pos >= 9 {
            let bits = read_u64_le(bytes, pos + 1);
            proof {
                assert(bytes@.subrange(pos as int + 1, pos as int + 9) =~= tail.subrange(1, 9));
            }
            Some((RuntimeValue::Number(bits), pos + 9))
        } else {
            None
        }
    } else if tag == TAG_STRING {
        if len - pos >= 9 {
            let n64 = read_u64_le(bytes, pos + 1);
            proof {
                assert(bytes@.subrange(pos as int + 1, pos as int + 9) =~= tail.subrange(1, 9));
            }
            if n64 > (len - (pos + 9)) as u64 {
                return None;
            }
            let n = n64 as usize;
            let mut sb: Vec<u8> = Vec::new();
            let mut k: usize = 0;
            while k < n
                invariant
                    k <= n,
                    pos + 9 + n <= len,
                    len == bytes@.len(),
                    sb@ =~= bytes@.subrange(pos as int + 9, pos as int + 9 + k as int),
                decreases n - k,
            {
                sb.push(bytes[pos + 9 + k]);
                k += 1;
            }
            proof {
                assert(sb@ =~= tail.subrange(9, 9 + n64 as nat as int));
            }
            match string_from_utf8(sb) {
                Some(st) => {
                    proof {
                        encode_utf8_decode_utf8(st@);
                    }
                    Some((RuntimeValue::String(st), pos + 9 + n))
                },
                None => None,
            }
        } else {
            None
        }
    } else if tag == TAG_ARRAY {
        if len - pos >= 9 {
            let cnt = read_u64_le(bytes, pos + 1);
            proof {
                assert(bytes@.subrange(pos as int + 1, pos as int + 9) =~= tail.subrange(1, 9));
            }
            match decode_vlist_at(bytes, pos + 9, cnt) {
                Some(p) => {
                    let (items, end) = p;
                    proof {
                        assert(bytes@.skip(pos as int + 9) =~= tail.skip(9));
                    }
                    Some((RuntimeValue::Array(items), end))
                },
                None => {
                    proof {
                        assert(bytes@.skip(pos as int + 9) =~= tail.skip(9));
                    }
                    None
                },
            }
        } else {
            None
        }
    } else if tag == TAG_OBJECT {
        if len - pos >= 9 {
            let cnt = read_u64_le(bytes, pos + 1);
            proof {
                assert(bytes@.subrange(pos as int + 1, pos as int + 9) =~= tail.subrange(1, 9));
            }
            match decode_entries_at(bytes, pos + 9, cnt) {
                Some(p) => {
                    let (entries, end) = p;
                    proof {
                        assert(bytes@.skip(pos as int + 9) =~= tail.skip(9));
                    }
                    Some((RuntimeValue::Object(ValueMap { entries }), end))
                },
                None => {
                    proof {
                        assert(bytes@.skip(pos as int + 9) =~= tail.skip(9));
                    }
                    None
                },
            }
        } else {
            None
        }
    } else {
        None
    }
}

/// Decodes `cnt` values starting at `pos`.
fn decode_vlist_at(bytes: &Vec<u8>, pos: usize, cnt: u64) -> (r: Option<(Vec<RuntimeValue>, usize)>)
    requires
        pos <= bytes@.len(),
    ensures
        match r {
            Some(p) => pos <= p.1 <= bytes@.len() && dec_vlist(bytes@.skip(pos as int), cnt as nat)
                == Some((arr_model(p.0@), (p.1 - pos) as nat)),
            None => dec_vlist(bytes@.skip(pos as int), cnt as nat) is None,
        },
    decreases bytes@.len() - pos, 1nat, 0nat,
{
    let len = bytes.len();
    let mut out: Vec<RuntimeValue> = Vec::new();
    let mut cur: usize = pos;
    let mut k: u64 = 0;
    while k < cnt
        invariant
            k <= cnt,
            pos <= cur <= len,
            len == bytes@.len(),
            match dec_vlist(bytes@.skip(cur as int), (cnt - k) as nat) {
                Some(q) => dec_vlist(bytes@.skip(pos as int), cnt as nat) == Some(
                    (arr_model(out@) + q.0, ((cur - pos) + q.1) as nat),
                ),
                None => dec_vlist(bytes@.skip(pos as int), cnt as nat) is None,
            },
        decreases cnt - k,
    {
        let ghost am0 = arr_model(out@);
        match decode_value_at(bytes, cur) {
            Some(p) => {
                let (v, end) = p;
                let ghost m = v.model();
                let ghost used = (end - cur) as nat;
                proof {
                    assert(bytes@.skip(cur as int).skip(used as int) =~= bytes@.skip(
                        end as int,
                    ));
                }
                out.push(v);
                proof {
                    assert(arr_model(out@) =~= am0.push(m));
                    let tailopt = dec_vlist(bytes@.skip(end as int), (cnt - k - 1) as nat);
                    if tailopt is Some {
                        let q = tailopt->Some_0;
                        assert(am0.push(m) + q.0 =~= am0 + (seq![m] + q.0));
                    }
                }
                cur = end;
            },
            None => {
                return None;
            },
        }
        k += 1;
    }
    proof {
        assert(dec_vlist(bytes@.skip(cur as int), 0nat) == Some(
            (Seq::<ValModel>::empty(), 0nat),
        ));
        assert(arr_model(out@) + Seq::<ValModel>::empty() =~= arr_model(out@));
    }
    Some((out, cur))
}

/// Decodes `cnt` entries starting at `pos`.
fn decode_entries_at(bytes: &Vec<u8>, pos: usize, cnt: u64) -> (r: Option<
    (Vec<(String, RuntimeValue)>, usize),
>)
    requires
        pos <= bytes@.len(),
    ensures
        match r {
            Some(p) => pos <= p.1 <= bytes@.len() && dec_entries(
                bytes@.skip(pos as int),
                cnt as nat,
            ) == Some((entries_model(p.0@), (p.1 - pos) as nat)),
            None => dec_entries(bytes@.skip(pos as int), cnt as nat) is None,
        },
    decreases bytes@.len() - pos, 1nat, 0nat,
{
    let len = bytes.len();
    let mut out: Vec<(String, RuntimeValue)> = Vec::new();
    let mut cur: usize = pos;
    let mut k: u64 = 0;
    while k < cnt
        invariant
            k <= cnt,
            pos <= cur <= len,
            len == bytes@.len(),
            match dec_entries(bytes@.skip(cur as int), (cnt - k) as nat) {
                Some(q) => dec_entries(bytes@.skip(pos as int), cnt as nat) == Some(
                    (entries_model(out@) + q.0, ((cur - pos) + q.1) as nat),
                ),
                None => dec_entries(bytes@.skip(pos as int), cnt as nat) is None,
            },
        decreases cnt - k,
    {
        let ghost em0 = entries_model(out@);
        let ghost etail = bytes@.skip(cur as int);
        if len - cur < 8 {
            return None;
        }
        let klen64 = read_u64_le(bytes, cur);
        proof {
            assert(bytes@.subrange(cur as int, cur as int + 8) =~= etail.subrange(0, 8));
        }
        if klen64 > (len - (cur + 8)) as u64 {
            return None;
        }
        let klen = klen64 as usize;
        let mut kb: Vec<u8> = Vec::new();
        let mut j: usize = 0;
        while j < klen
            invariant
                j <= klen,
                cur + 8 + klen <= len,
                len == bytes@.len(),
                kb@ =~= bytes@.subrange(cur as int + 8, cur as int + 8 + j as int),
            decreases klen - j,
        {
            kb.push(bytes[cur + 8 + j]);
            j += 1;
        }
        proof {
            assert(kb@ =~= etail.subrange(8, 8 + klen64 as nat as int));
        }
        let key = match string_from_utf8(kb) {
            Some(st) => st,
            None => {
                return None;
            },
        };
        proof {
            encode_utf8_decode_utf8(key@);
        }
        proof {
            assert(bytes@.skip(cur as int + 8 + klen as int) =~= etail.skip(
                8 + klen64 as nat as int,
            ));
        }
        match decode_value_at(bytes, cur + 8 + klen) {
            Some(p) => {
                let (v, end) = p;
                let ghost m = v.model();
                let ghost used = (end - (cur + 8 + klen)) as nat;
                proof {
                    assert(etail.skip(8 + klen as int + used as int) =~= bytes@.skip(
                        end as int,
                    ));
                }
                out.push((key, v));
                proof {
                    assert(entries_model(out@) =~= em0.push((key@, m)));
                    let tailopt = dec_entries(bytes@.skip(end as int), (cnt - k - 1) as nat);
                    if tailopt is Some {
                        let q = tailopt->Some_0;
                        assert(dec_entries(etail, (cnt - k) as nat) == Some(
                            (seq![(key@, m)] + q.0, (8 + klen + used + q.1) as nat),
                        ));
                        assert(em0.push((key@, m)) + q.0 =~= em0 + (seq![(key@, m)] + q.0));
                    } else {
                        assert(dec_entries(etail, (cnt - k) as nat) is None);
                    }
                }
                cur = end;
            },
            None => {
                return None;
            },
        }
        k += 1;
    }
    proof {
        assert(dec_entries(bytes@.skip(cur as int), 0nat) == Some(
            (Seq::<(Seq<char>, ValModel)>::empty(), 0nat),
        ));
        assert(entries_model(out@) + Seq::<(Seq<char>, ValModel)>::empty() =~= entries_model(
            out@,
        ));
    }
    Some((out, cur))
}

/// Decodes a whole buffer as one value; trailing bytes are rejected.
pub fn decode_value(bytes: &Vec<u8>) -> (r: Option<RuntimeValue>)
    ensures
        match r {
            Some(v) => dec_value(bytes@) == Some((v.model(), bytes@.len() as nat)),
            None => match dec_value(bytes@) {
                Some(p) => p.1 != bytes@.len(),
                None => true,
            },
        },
{
    proof {
        assert(bytes@.skip(0) =~= bytes@);
    }
    match decode_value_at(bytes, 0) {
        Some(p) => {
            let (v, end) = p;
            if end == bytes.len() {
                Some(v)
            } else {
                None
            }
        },
        None => None,
    }
}

/// Round trip: decoding an encoded well-formed value yields the value
/// and consumes exactly its encoding, whatever bytes follow.
pub proof fn lemma_value_roundtrip(m: ValModel)
    requires
        wf_model(m),
    ensures
        dec_value(enc_value(m)) == Some((m, enc_value(m).len() as nat)),
{
    lemma_dec_enc_value(m, Seq::empty());
    assert(enc_value(m) + Seq::<u8>::empty() =~= enc_value(m));
}

} // verus!
