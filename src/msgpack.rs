//! Incremental decoding of a flat map from string keys to binary values.
//!
//! Bytes arrive in pieces of any size. The decoder hands out value bytes as soon as they
//! are buffered, tagged with their key and the value's declared length, so a value never
//! has to be held whole.
use vstd::prelude::*;
use crate::buffer::{
    buf_advance, buf_at, buf_extend, buf_len, buf_new, buf_split_front, bytes_contents,
    bytes_mut_contents,
};
use crate::hex::{hex_digits, push_hex};
use crate::msgpack_error::MessagePackError;

verus! {

/// The characters that a byte sequence decodes to as UTF-8, if it is valid UTF-8.
pub uninterp spec fn utf8_decode(b: Seq<u8>) -> Option<Seq<char>>;

/// Relies on `String::from_utf8`: it succeeds exactly on valid UTF-8, with the decoded text.
#[verifier::external_body]
fn decode_utf8(bytes: Vec<u8>) -> (r: Result<String, std::string::FromUtf8Error>)
    ensures
        r is Ok <==> utf8_decode(bytes@) is Some,
        r is Ok ==> r->Ok_0@ == utf8_decode(bytes@)->Some_0,
{
    String::from_utf8(bytes)
}

/// Where the byte-by-byte reading of a stream stands.
#[allow(inconsistent_fields)]
pub enum DecodeState {
    /// Before the map marker.
    Initial,
    /// Inside a multi-byte map size: `need` bytes still to come, `acc` read so far.
    MapSize { need: nat, acc: nat },
    /// Before a key marker; `pairs` counts this pair and the ones after it.
    KeyHeader { pairs: nat },
    /// Inside a key's multi-byte length.
    KeySize { pairs: nat, need: nat, acc: nat },
    /// Inside a key of `len` bytes, `key` read so far.
    KeyData { pairs: nat, len: nat, key: Seq<u8> },
    /// Before a value marker, after the key `key`.
    ValueHeader { pairs: nat, key: Seq<char> },
    /// Inside a value's length.
    ValueSize { pairs: nat, key: Seq<char>, need: nat, acc: nat },
    /// Inside a value of `len` bytes, `got` read so far.
    ValueData { pairs: nat, key: Seq<char>, len: nat, got: nat },
    /// After the last pair.
    Complete,
    /// After a byte that the grammar does not allow.
    Failed,
}

pub open spec fn after_map_size(n: nat) -> DecodeState {
    if n == 0 {
        DecodeState::Complete
    } else {
        DecodeState::KeyHeader { pairs: n }
    }
}

pub open spec fn key_done(pairs: nat, key: Seq<u8>) -> DecodeState {
    match utf8_decode(key) {
        Some(k) => DecodeState::ValueHeader { pairs, key: k },
        None => DecodeState::Failed,
    }
}

pub open spec fn after_key_size(pairs: nat, n: nat) -> DecodeState {
    if n == 0 {
        key_done(pairs, Seq::empty())
    } else {
        DecodeState::KeyData { pairs, len: n, key: Seq::empty() }
    }
}

pub open spec fn value_done(pairs: nat) -> DecodeState {
    if pairs <= 1 {
        DecodeState::Complete
    } else {
        DecodeState::KeyHeader { pairs: (pairs - 1) as nat }
    }
}

pub open spec fn after_value_size(pairs: nat, key: Seq<char>, n: nat) -> DecodeState {
    if n == 0 {
        value_done(pairs)
    } else {
        DecodeState::ValueData { pairs, key, len: n, got: 0 }
    }
}

/// The reading after one more byte.
pub open spec fn step(st: DecodeState, b: u8) -> DecodeState {
    match st {
        DecodeState::Initial => {
            if 0x80 <= b <= 0x8f {
                after_map_size((b - 0x80) as nat)
            } else if b == 0xde {
                DecodeState::MapSize { need: 2, acc: 0 }
            } else if b == 0xdf {
                DecodeState::MapSize { need: 4, acc: 0 }
            } else {
                DecodeState::Failed
            }
        },
        DecodeState::MapSize { need, acc } => {
            if need <= 1 {
                after_map_size((acc * 256 + b) as nat)
            } else {
                DecodeState::MapSize { need: (need - 1) as nat, acc: (acc * 256 + b) as nat }
            }
        },
        DecodeState::KeyHeader { pairs } => {
            if 0xa0 <= b <= 0xbf {
                after_key_size(pairs, (b - 0xa0) as nat)
            } else if b == 0xd9 {
                DecodeState::KeySize { pairs, need: 1, acc: 0 }
            } else if b == 0xda {
                DecodeState::KeySize { pairs, need: 2, acc: 0 }
            } else if b == 0xdb {
                DecodeState::KeySize { pairs, need: 4, acc: 0 }
            } else {
                DecodeState::Failed
            }
        },
        DecodeState::KeySize { pairs, need, acc } => {
            if need <= 1 {
                after_key_size(pairs, (acc * 256 + b) as nat)
            } else {
                DecodeState::KeySize { pairs, need: (need - 1) as nat, acc: (acc * 256 + b) as nat }
            }
        },
        DecodeState::KeyData { pairs, len, key } => {
            if key.len() + 1 >= len {
                key_done(pairs, key.push(b))
            } else {
                DecodeState::KeyData { pairs, len, key: key.push(b) }
            }
        },
        DecodeState::ValueHeader { pairs, key } => {
            if b == 0xc4 {
                DecodeState::ValueSize { pairs, key, need: 1, acc: 0 }
            } else if b == 0xc5 {
                DecodeState::ValueSize { pairs, key, need: 2, acc: 0 }
            } else if b == 0xc6 {
                DecodeState::ValueSize { pairs, key, need: 4, acc: 0 }
            } else {
                DecodeState::Failed
            }
        },
        DecodeState::ValueSize { pairs, key, need, acc } => {
            if need <= 1 {
                after_value_size(pairs, key, (acc * 256 + b) as nat)
            } else {
                DecodeState::ValueSize { pairs, key, need: (need - 1) as nat, acc: (acc * 256 + b) as nat }
            }
        },
        DecodeState::ValueData { pairs, key, len, got } => {
            if got + 1 >= len {
                value_done(pairs)
            } else {
                DecodeState::ValueData { pairs, key, len, got: got + 1 }
            }
        },
        DecodeState::Complete => DecodeState::Complete,
        DecodeState::Failed => DecodeState::Failed,
    }
}

/// What one byte read in state `st` contributes: a value byte with its key and the
/// value's declared length, or nothing.
pub open spec fn emit(st: DecodeState, b: u8) -> Seq<(Seq<char>, nat, u8)> {
    match st {
        DecodeState::ValueData { key, len, .. } => seq![(key, len, b)],
        _ => Seq::empty(),
    }
}

/// The reading after the bytes `s`, taken one at a time from the start of the stream.
pub open spec fn decode_state(s: Seq<u8>) -> DecodeState
    decreases s.len(),
{
    if s.len() == 0 {
        DecodeState::Initial
    } else {
        step(decode_state(s.drop_last()), s.last())
    }
}

/// The value bytes of the stream prefix `s`, in stream order, each with its key and the
/// declared length of its value.
pub open spec fn observations(s: Seq<u8>) -> Seq<(Seq<char>, nat, u8)>
    decreases s.len(),
{
    if s.len() == 0 {
        Seq::empty()
    } else {
        observations(s.drop_last()) + emit(decode_state(s.drop_last()), s.last())
    }
}

/// The observations that one emitted chunk stands for.
pub open spec fn tagged(key: Seq<char>, len: nat, data: Seq<u8>) -> Seq<(Seq<char>, nat, u8)> {
    Seq::new(data.len(), |i: int| (key, len, data[i]))
}

/// The decoder cannot go on from state `st` with the buffered bytes `pending`: nothing is
/// buffered, the map is over or broken, or a size prefix is only partly there.
pub open spec fn needs_input(st: DecodeState, pending: Seq<u8>) -> bool {
    ||| pending.len() == 0
    ||| st is Complete
    ||| st is Failed
    ||| (st is Initial && ((pending[0] == 0xde && pending.len() < 3) || (pending[0] == 0xdf
        && pending.len() < 5)))
    ||| (st is KeyHeader && ((pending[0] == 0xd9 && pending.len() < 2) || (pending[0] == 0xda
        && pending.len() < 3) || (pending[0] == 0xdb && pending.len() < 5)))
    ||| (st is ValueHeader && ((pending[0] == 0xc5 && pending.len() < 3) || (pending[0] == 0xc6
        && pending.len() < 5)))
}

/// Byte `b`, read in state `st`, completes a key: a failure there means the key is not
/// UTF-8.
pub open spec fn completes_key(st: DecodeState, b: u8) -> bool {
    match st {
        DecodeState::KeyHeader { .. } => b == 0xa0,
        DecodeState::KeySize { need, acc, .. } => need <= 1 && acc * 256 + b == 0,
        DecodeState::KeyData { len, key, .. } => key.len() + 1 >= len,
        _ => false,
    }
}

/// The last byte of `s` completes a key.
pub open spec fn ends_key(s: Seq<u8>) -> bool {
    s.len() > 0 && completes_key(decode_state(s.drop_last()), s.last())
}

/// The error for a reading that failed at the last byte of `s`: `InvalidString` where
/// that byte completed a key, so the key is not UTF-8; `UnexpectedFormat` where it was a
/// marker that the grammar does not allow there.
pub open spec fn error_fits(e: MessagePackError, s: Seq<u8>) -> bool {
    if ends_key(s) {
        e is InvalidString
    } else {
        e is UnexpectedFormat
    }
}

/// The smaller of two lengths.
pub open spec fn min_len(a: nat, b: nat) -> nat {
    if a < b {
        a
    } else {
        b
    }
}

pub proof fn lemma_push(s: Seq<u8>, b: u8)
    ensures
        decode_state(s.push(b)) == step(decode_state(s), b),
        observations(s.push(b)) == observations(s) + emit(decode_state(s), b),
{
    assert(s.push(b).drop_last() =~= s);
}

proof fn lemma_value_run(s: Seq<u8>, d: Seq<u8>, pairs: nat, key: Seq<char>, len: nat, got: nat)
    requires
        decode_state(s) == (DecodeState::ValueData { pairs, key, len, got }),
        got + d.len() <= len,
        0 < d.len(),
    ensures
        decode_state(s + d) == (if got + d.len() == len {
            value_done(pairs)
        } else {
            DecodeState::ValueData { pairs, key, len, got: got + d.len() }
        }),
        observations(s + d) == observations(s) + tagged(key, len, d),
    decreases d.len(),
{
    let e = d.drop_last();
    assert(s + d =~= (s + e).push(d.last()));
    lemma_push(s + e, d.last());
    if e.len() == 0 {
        assert(s + e =~= s);
        assert(tagged(key, len, d) =~= seq![(key, len, d.last())]);
    } else {
        lemma_value_run(s, e, pairs, key, len, got);
        assert(tagged(key, len, d) =~= tagged(key, len, e) + seq![(key, len, d.last())]);
    }
}

proof fn lemma_key_run(s: Seq<u8>, d: Seq<u8>, pairs: nat, len: nat, key: Seq<u8>)
    requires
        decode_state(s) == (DecodeState::KeyData { pairs, len, key }),
        key.len() + d.len() <= len,
        0 < d.len(),
    ensures
        decode_state(s + d) == (if key.len() + d.len() == len {
            key_done(pairs, key + d)
        } else {
            DecodeState::KeyData { pairs, len, key: key + d }
        }),
        observations(s + d) == observations(s),
    decreases d.len(),
{
    let e = d.drop_last();
    assert(s + d =~= (s + e).push(d.last()));
    lemma_push(s + e, d.last());
    if e.len() == 0 {
        assert(s + e =~= s);
        assert(key.push(d.last()) =~= key + d);
    } else {
        lemma_key_run(s, e, pairs, len, key);
        assert((key + e).push(d.last()) =~= key + d);
    }
    assert(observations(s + d) =~= observations(s));
}

/// Decoding more bytes only adds observations: what a stream prefix yields stays, in the
/// same order, at the front of what any longer stream yields. So however a stream is cut
/// into pieces, the value bytes come out as the same sequence, each with its key and the
/// value's declared length.
pub proof fn lemma_observations_extend(a: Seq<u8>, b: Seq<u8>)
    ensures
        observations(a).len() <= observations(a + b).len(),
        observations(a + b).take(observations(a).len() as int) == observations(a),
    decreases b.len(),
{
    if b.len() == 0 {
        assert(a + b =~= a);
        assert(observations(a).take(observations(a).len() as int) =~= observations(a));
    } else {
        let e = b.drop_last();
        lemma_observations_extend(a, e);
        assert(a + b =~= (a + e).push(b.last()));
        lemma_push(a + e, b.last());
        let oe = observations(a + e);
        let ob = observations(a + b);
        assert(ob.take(observations(a).len() as int) =~= oe.take(observations(a).len() as int));
    }
}

/// The four big-endian bytes of a 32-bit size.
pub open spec fn be32(n: nat) -> Seq<u8> {
    let q1 = n / 256;
    let q2 = q1 / 256;
    seq![(q2 / 256) as u8, (q2 % 256) as u8, (q1 % 256) as u8, (n % 256) as u8]
}

/// Each pair's value bytes in order, tagged with its decoded key and its value's length.
pub open spec fn expected_observations(pairs: Seq<(Seq<u8>, Seq<u8>)>) -> Seq<(Seq<char>, nat, u8)>
    decreases pairs.len(),
{
    if pairs.len() == 0 {
        Seq::empty()
    } else {
        expected_observations(pairs.drop_last()) + tagged(
            utf8_decode(pairs.last().0)->Some_0,
            pairs.last().1.len(),
            pairs.last().1,
        )
    }
}

proof fn lemma_be32(n: nat)
    requires
        n < 0x1_0000_0000,
    ensures
        ({
            let b = be32(n);
            ((b[0] * 256 + b[1]) * 256 + b[2]) * 256 + b[3] == n
        }),
{
    let q1 = n / 256;
    let q2 = q1 / 256;
    assert(n == q1 * 256 + n % 256);
    assert(q1 == q2 * 256 + q1 % 256);
    assert(q2 == (q2 / 256) * 256 + q2 % 256);
    assert(q1 < 0x100_0000);
    assert(q2 < 0x1_0000);
    assert(q2 / 256 < 256);
}

/// The reading after bytes `h`, from state `st`.
pub open spec fn run_from(st: DecodeState, h: Seq<u8>) -> DecodeState
    decreases h.len(),
{
    if h.len() == 0 {
        st
    } else {
        step(run_from(st, h.drop_last()), h.last())
    }
}

/// The observations that bytes `h` add, from state `st`.
pub open spec fn emits_from(st: DecodeState, h: Seq<u8>) -> Seq<(Seq<char>, nat, u8)>
    decreases h.len(),
{
    if h.len() == 0 {
        Seq::empty()
    } else {
        emits_from(st, h.drop_last()) + emit(run_from(st, h.drop_last()), h.last())
    }
}

proof fn lemma_run(s: Seq<u8>, h: Seq<u8>)
    ensures
        decode_state(s + h) == run_from(decode_state(s), h),
        observations(s + h) == observations(s) + emits_from(decode_state(s), h),
    decreases h.len(),
{
    if h.len() == 0 {
        assert(s + h =~= s);
    } else {
        lemma_run(s, h.drop_last());
        assert(s + h =~= (s + h.drop_last()).push(h.last()));
        lemma_push(s + h.drop_last(), h.last());
    }
}

/// How a size is written: inside the marker byte, or in one, two or four bytes after it.
pub enum SizeForm {
    Fix,
    One,
    Two,
    Four,
}

/// The big-endian bytes of `n` in the form `f`.
pub open spec fn size_bytes(n: nat, f: SizeForm) -> Seq<u8> {
    match f {
        SizeForm::Fix => Seq::empty(),
        SizeForm::One => seq![n as u8],
        SizeForm::Two => seq![(n / 256) as u8, (n % 256) as u8],
        SizeForm::Four => be32(n),
    }
}

/// Size `n` can be written in form `f`; `fix_limit` bounds sizes inside the marker.
pub open spec fn size_fits(n: nat, f: SizeForm, fix_limit: nat) -> bool {
    match f {
        SizeForm::Fix => n < fix_limit,
        SizeForm::One => n < 0x100,
        SizeForm::Two => n < 0x1_0000,
        SizeForm::Four => n < 0x1_0000_0000,
    }
}

/// The marker and size of a map of `n` pairs.
pub open spec fn map_header(n: nat, f: SizeForm) -> Seq<u8> {
    match f {
        SizeForm::Fix => seq![(0x80 + n) as u8],
        SizeForm::Two => seq![0xdeu8] + size_bytes(n, f),
        _ => seq![0xdfu8] + size_bytes(n, SizeForm::Four),
    }
}

/// The marker and length of a key of `n` bytes.
pub open spec fn key_header(n: nat, f: SizeForm) -> Seq<u8> {
    match f {
        SizeForm::Fix => seq![(0xa0 + n) as u8],
        SizeForm::One => seq![0xd9u8] + size_bytes(n, f),
        SizeForm::Two => seq![0xdau8] + size_bytes(n, f),
        SizeForm::Four => seq![0xdbu8] + size_bytes(n, f),
    }
}

/// The marker and length of a value of `n` bytes.
pub open spec fn value_header(n: nat, f: SizeForm) -> Seq<u8> {
    match f {
        SizeForm::One => seq![0xc4u8] + size_bytes(n, f),
        SizeForm::Two => seq![0xc5u8] + size_bytes(n, f),
        _ => seq![0xc6u8] + size_bytes(n, SizeForm::Four),
    }
}

pub open spec fn encode_pair(key: Seq<u8>, value: Seq<u8>, form: (SizeForm, SizeForm)) -> Seq<u8> {
    key_header(key.len(), form.0) + key + value_header(value.len(), form.1) + value
}

pub open spec fn encode_pairs(pairs: Seq<(Seq<u8>, Seq<u8>)>, forms: Seq<(SizeForm, SizeForm)>) -> Seq<
    u8,
>
    decreases pairs.len(),
{
    if pairs.len() == 0 {
        Seq::empty()
    } else {
        encode_pairs(pairs.drop_last(), forms.drop_last()) + encode_pair(
            pairs.last().0,
            pairs.last().1,
            forms[pairs.len() - 1],
        )
    }
}

/// A map of `pairs`, its size written in form `map_form` and each pair's key and value
/// lengths in the forms of `forms`.
pub open spec fn encode_map(
    pairs: Seq<(Seq<u8>, Seq<u8>)>,
    map_form: SizeForm,
    forms: Seq<(SizeForm, SizeForm)>,
) -> Seq<u8> {
    map_header(pairs.len(), map_form) + encode_pairs(pairs, forms)
}

/// The forms are ones the grammar has for their place and fit their sizes, and the keys
/// are UTF-8.
pub open spec fn valid_encoding(
    pairs: Seq<(Seq<u8>, Seq<u8>)>,
    map_form: SizeForm,
    forms: Seq<(SizeForm, SizeForm)>,
) -> bool {
    &&& forms.len() == pairs.len()
    &&& !(map_form is One)
    &&& size_fits(pairs.len(), map_form, 16)
    &&& forall|i: int|
        0 <= i < pairs.len() ==> size_fits((#[trigger] pairs[i]).0.len(), forms[i].0, 32)
            && !(forms[i].1 is Fix) && size_fits(pairs[i].1.len(), forms[i].1, 0) && utf8_decode(
            pairs[i].0,
        ) is Some
}

proof fn lemma_size_value(n: nat, f: SizeForm)
    requires
        size_fits(n, f, 0x100),
    ensures
        f is One ==> size_bytes(n, f)[0] == n,
        f is Two ==> size_bytes(n, f)[0] * 256 + size_bytes(n, f)[1] == n,
        f is Four ==> ({
            let b = size_bytes(n, f);
            ((b[0] * 256 + b[1]) * 256 + b[2]) * 256 + b[3] == n
        }),
{
    match f {
        SizeForm::Two => {
            assert(n == (n / 256) * 256 + n % 256);
        },
        SizeForm::Four => {
            lemma_be32(n);
        },
        _ => {},
    }
}

proof fn lemma_map_header(n: nat, f: SizeForm)
    requires
        !(f is One),
        size_fits(n, f, 16),
    ensures
        run_from(DecodeState::Initial, map_header(n, f)) == after_map_size(n),
        emits_from(DecodeState::Initial, map_header(n, f)) == Seq::<(Seq<char>, nat, u8)>::empty(),
{
    reveal_with_fuel(run_from, 6);
    reveal_with_fuel(emits_from, 6);
    lemma_size_value(n, f);
    let h = map_header(n, f);
    match f {
        SizeForm::Fix => {
            assert(h.drop_last() =~= Seq::<u8>::empty());
        },
        SizeForm::Two => {
            assert(h.drop_last().drop_last().drop_last() =~= Seq::<u8>::empty());
            assert(h.drop_last().drop_last().last() == 0xde);
        },
        _ => {
            assert(h.drop_last().drop_last().drop_last().drop_last().drop_last() =~= Seq::<u8>::empty());
            assert(h.drop_last().drop_last().drop_last().drop_last().last() == 0xdf);
        },
    }
    assert(emits_from(DecodeState::Initial, h) =~= Seq::empty());
}

proof fn lemma_key_header_fix(k: nat, n: nat, f: SizeForm)
    requires
        f is Fix,
        size_fits(n, f, 32),
    ensures
        run_from(DecodeState::KeyHeader { pairs: k }, key_header(n, f)) == after_key_size(k, n),
        emits_from(DecodeState::KeyHeader { pairs: k }, key_header(n, f)) == Seq::<
            (Seq<char>, nat, u8),
        >::empty(),
{
    reveal_with_fuel(run_from, 2);
    reveal_with_fuel(emits_from, 2);
    lemma_size_value(n, f);
    let h = key_header(n, f);
    let st = DecodeState::KeyHeader { pairs: k };
    assert(h.drop_last() =~= Seq::<u8>::empty());
    assert(emits_from(st, h) =~= Seq::empty());
}

proof fn lemma_key_header_one(k: nat, n: nat, f: SizeForm)
    requires
        f is One,
        size_fits(n, f, 32),
    ensures
        run_from(DecodeState::KeyHeader { pairs: k }, key_header(n, f)) == after_key_size(k, n),
        emits_from(DecodeState::KeyHeader { pairs: k }, key_header(n, f)) == Seq::<
            (Seq<char>, nat, u8),
        >::empty(),
{
    reveal_with_fuel(run_from, 3);
    reveal_with_fuel(emits_from, 3);
    lemma_size_value(n, f);
    let h = key_header(n, f);
    let st = DecodeState::KeyHeader { pairs: k };
    assert(h.drop_last().drop_last() =~= Seq::<u8>::empty());
    assert(h.drop_last().last() == 0xd9);
    assert(emits_from(st, h) =~= Seq::empty());
}

proof fn lemma_key_header_two(k: nat, n: nat, f: SizeForm)
    requires
        f is Two,
        size_fits(n, f, 32),
    ensures
        run_from(DecodeState::KeyHeader { pairs: k }, key_header(n, f)) == after_key_size(k, n),
        emits_from(DecodeState::KeyHeader { pairs: k }, key_header(n, f)) == Seq::<
            (Seq<char>, nat, u8),
        >::empty(),
{
    reveal_with_fuel(run_from, 4);
    reveal_with_fuel(emits_from, 4);
    lemma_size_value(n, f);
    let h = key_header(n, f);
    let st = DecodeState::KeyHeader { pairs: k };
    assert(h.drop_last().drop_last().drop_last() =~= Seq::<u8>::empty());
    assert(h.drop_last().drop_last().last() == 0xda);
    assert(emits_from(st, h) =~= Seq::empty());
}

proof fn lemma_key_header_four(k: nat, n: nat, f: SizeForm)
    requires
        f is Four,
        size_fits(n, f, 32),
    ensures
        run_from(DecodeState::KeyHeader { pairs: k }, key_header(n, f)) == after_key_size(k, n),
        emits_from(DecodeState::KeyHeader { pairs: k }, key_header(n, f)) == Seq::<
            (Seq<char>, nat, u8),
        >::empty(),
{
    reveal_with_fuel(run_from, 6);
    reveal_with_fuel(emits_from, 6);
    lemma_size_value(n, f);
    let h = key_header(n, f);
    let st = DecodeState::KeyHeader { pairs: k };
    assert(h.drop_last().drop_last().drop_last().drop_last().drop_last() =~= Seq::<u8>::empty());
    assert(h.drop_last().drop_last().drop_last().drop_last().last() == 0xdb);
    assert(emits_from(st, h) =~= Seq::empty());
}

proof fn lemma_key_header(k: nat, n: nat, f: SizeForm)
    requires
        size_fits(n, f, 32),
    ensures
        run_from(DecodeState::KeyHeader { pairs: k }, key_header(n, f)) == after_key_size(k, n),
        emits_from(DecodeState::KeyHeader { pairs: k }, key_header(n, f)) == Seq::<
            (Seq<char>, nat, u8),
        >::empty(),
{
    match f {
        SizeForm::Fix => lemma_key_header_fix(k, n, f),
        SizeForm::One => lemma_key_header_one(k, n, f),
        SizeForm::Two => lemma_key_header_two(k, n, f),
        SizeForm::Four => lemma_key_header_four(k, n, f),
    }
}

proof fn lemma_value_header_one(k: nat, key: Seq<char>, n: nat, f: SizeForm)
    requires
        f is One,
        size_fits(n, f, 0),
    ensures
        run_from(DecodeState::ValueHeader { pairs: k, key }, value_header(n, f)) == after_value_size(
            k,
            key,
            n,
        ),
        emits_from(DecodeState::ValueHeader { pairs: k, key }, value_header(n, f)) == Seq::<
            (Seq<char>, nat, u8),
        >::empty(),
{
    reveal_with_fuel(run_from, 3);
    reveal_with_fuel(emits_from, 3);
    lemma_size_value(n, f);
    let h = value_header(n, f);
    let st = DecodeState::ValueHeader { pairs: k, key };
    assert(h.drop_last().drop_last() =~= Seq::<u8>::empty());
    assert(h.drop_last().last() == 0xc4);
    assert(emits_from(st, h) =~= Seq::empty());
}

proof fn lemma_value_header_two(k: nat, key: Seq<char>, n: nat, f: SizeForm)
    requires
        f is Two,
        size_fits(n, f, 0),
    ensures
        run_from(DecodeState::ValueHeader { pairs: k, key }, value_header(n, f)) == after_value_size(
            k,
            key,
            n,
        ),
        emits_from(DecodeState::ValueHeader { pairs: k, key }, value_header(n, f)) == Seq::<
            (Seq<char>, nat, u8),
        >::empty(),
{
    reveal_with_fuel(run_from, 4);
    reveal_with_fuel(emits_from, 4);
    lemma_size_value(n, f);
    let h = value_header(n, f);
    let st = DecodeState::ValueHeader { pairs: k, key };
    assert(h.drop_last().drop_last().drop_last() =~= Seq::<u8>::empty());
    assert(h.drop_last().drop_last().last() == 0xc5);
    assert(emits_from(st, h) =~= Seq::empty());
}

proof fn lemma_value_header_four(k: nat, key: Seq<char>, n: nat, f: SizeForm)
    requires
        f is Four,
        size_fits(n, f, 0),
    ensures
        run_from(DecodeState::ValueHeader { pairs: k, key }, value_header(n, f)) == after_value_size(
            k,
            key,
            n,
        ),
        emits_from(DecodeState::ValueHeader { pairs: k, key }, value_header(n, f)) == Seq::<
            (Seq<char>, nat, u8),
        >::empty(),
{
    reveal_with_fuel(run_from, 6);
    reveal_with_fuel(emits_from, 6);
    lemma_size_value(n, f);
    let h = value_header(n, f);
    let st = DecodeState::ValueHeader { pairs: k, key };
    assert(h.drop_last().drop_last().drop_last().drop_last().drop_last() =~= Seq::<u8>::empty());
    assert(h.drop_last().drop_last().drop_last().drop_last().last() == 0xc6);
    assert(emits_from(st, h) =~= Seq::empty());
}

proof fn lemma_value_header(k: nat, key: Seq<char>, n: nat, f: SizeForm)
    requires
        !(f is Fix),
        size_fits(n, f, 0),
    ensures
        run_from(DecodeState::ValueHeader { pairs: k, key }, value_header(n, f)) == after_value_size(
            k,
            key,
            n,
        ),
        emits_from(DecodeState::ValueHeader { pairs: k, key }, value_header(n, f)) == Seq::<
            (Seq<char>, nat, u8),
        >::empty(),
{
    match f {
        SizeForm::One => lemma_value_header_one(k, key, n, f),
        SizeForm::Two => lemma_value_header_two(k, key, n, f),
        _ => lemma_value_header_four(k, key, n, SizeForm::Four),
    }
}

#[verifier::rlimit(60)]
proof fn lemma_segment(s: Seq<u8>, key: Seq<u8>, value: Seq<u8>, form: (SizeForm, SizeForm), k: nat)
    requires
        decode_state(s) == (DecodeState::KeyHeader { pairs: k }),
        k >= 1,
        size_fits(key.len(), form.0, 32),
        !(form.1 is Fix),
        size_fits(value.len(), form.1, 0),
        utf8_decode(key) is Some,
    ensures
        decode_state(s + encode_pair(key, value, form)) == value_done(k),
        observations(s + encode_pair(key, value, form)) == observations(s) + tagged(
            utf8_decode(key)->Some_0,
            value.len(),
            value,
        ),
{
    let h1 = key_header(key.len(), form.0);
    lemma_key_header(k, key.len(), form.0);
    lemma_run(s, h1);
    let s1 = s + h1;
    assert(observations(s1) =~= observations(s));
    let s2 = s1 + key;
    if key.len() == 0 {
        assert(s2 =~= s1);
        assert(key =~= Seq::<u8>::empty());
    } else {
        lemma_key_run(s1, key, k, key.len(), Seq::empty());
        assert(Seq::<u8>::empty() + key =~= key);
    }
    let kk = utf8_decode(key)->Some_0;
    assert(decode_state(s2) == (DecodeState::ValueHeader { pairs: k, key: kk }));
    let h2 = value_header(value.len(), form.1);
    lemma_value_header(k, kk, value.len(), form.1);
    lemma_run(s2, h2);
    let s3 = s2 + h2;
    assert(observations(s3) =~= observations(s));
    let s4 = s3 + value;
    if value.len() == 0 {
        assert(s4 =~= s3);
        assert(tagged(kk, value.len(), value) =~= Seq::empty());
        assert(observations(s4) =~= observations(s) + tagged(kk, value.len(), value));
    } else {
        lemma_value_run(s3, value, k, kk, value.len(), 0);
    }
    assert(s + encode_pair(key, value, form) =~= s4);
}

proof fn lemma_pairs(
    pairs: Seq<(Seq<u8>, Seq<u8>)>,
    map_form: SizeForm,
    forms: Seq<(SizeForm, SizeForm)>,
    i: int,
)
    requires
        valid_encoding(pairs, map_form, forms),
        pairs.len() >= 1,
        0 <= i <= pairs.len(),
    ensures
        decode_state(map_header(pairs.len(), map_form) + encode_pairs(pairs.take(i), forms.take(i)))
            == (if i == 0 {
            DecodeState::KeyHeader { pairs: pairs.len() }
        } else {
            value_done((pairs.len() - i + 1) as nat)
        }),
        observations(map_header(pairs.len(), map_form) + encode_pairs(pairs.take(i), forms.take(i)))
            == expected_observations(pairs.take(i)),
    decreases i,
{
    let h = map_header(pairs.len(), map_form);
    if i == 0 {
        lemma_map_header(pairs.len(), map_form);
        lemma_run(Seq::empty(), h);
        assert(Seq::<u8>::empty() + h =~= h);
        assert(encode_pairs(pairs.take(0), forms.take(0)) =~= Seq::<u8>::empty());
        assert(h + encode_pairs(pairs.take(0), forms.take(0)) =~= h);
        assert(expected_observations(pairs.take(0)) =~= Seq::empty());
        assert(observations(h) =~= Seq::empty());
    } else {
        lemma_pairs(pairs, map_form, forms, i - 1);
        let prev = h + encode_pairs(pairs.take(i - 1), forms.take(i - 1));
        assert(pairs.take(i).drop_last() =~= pairs.take(i - 1));
        assert(forms.take(i).drop_last() =~= forms.take(i - 1));
        assert(pairs.take(i).last() == pairs[i - 1]);
        let p = pairs[i - 1];
        assert(encode_pairs(pairs.take(i), forms.take(i)) == encode_pairs(
            pairs.take(i - 1),
            forms.take(i - 1),
        ) + encode_pair(p.0, p.1, forms[i - 1]));
        assert(h + encode_pairs(pairs.take(i), forms.take(i)) =~= prev + encode_pair(
            p.0,
            p.1,
            forms[i - 1],
        ));
        let k = (pairs.len() - i + 1) as nat;
        lemma_segment(prev, p.0, p.1, forms[i - 1], k);
    }
}

/// Reassembly: any encoding of a map of `pairs` that the grammar accepts, whichever
/// size forms it uses, reads to the end of the map, and its observations are exactly
/// each pair's value bytes, in order, tagged with the pair's key and its value's length.
/// With the decoder's contract and `lemma_observations_extend`, the pieces that the
/// decoder hands out for such a stream, however it arrives, concatenate to these values.
pub proof fn lemma_decode_encoded_map(
    pairs: Seq<(Seq<u8>, Seq<u8>)>,
    map_form: SizeForm,
    forms: Seq<(SizeForm, SizeForm)>,
)
    requires
        valid_encoding(pairs, map_form, forms),
    ensures
        decode_state(encode_map(pairs, map_form, forms)) is Complete,
        observations(encode_map(pairs, map_form, forms)) == expected_observations(pairs),
{
    let h = map_header(pairs.len(), map_form);
    if pairs.len() == 0 {
        lemma_map_header(0, map_form);
        lemma_run(Seq::empty(), h);
        assert(Seq::<u8>::empty() + h =~= h);
        assert(encode_map(pairs, map_form, forms) =~= h);
        assert(observations(h) =~= Seq::empty());
    } else {
        lemma_pairs(pairs, map_form, forms, pairs.len() as int);
        assert(pairs.take(pairs.len() as int) =~= pairs);
        assert(forms.take(pairs.len() as int) =~= forms);
    }
}

proof fn lemma_failed_stays(a: Seq<u8>, b: Seq<u8>)
    requires
        decode_state(a) is Failed,
    ensures
        decode_state(a + b) is Failed,
    decreases b.len(),
{
    if b.len() == 0 {
        assert(a + b =~= a);
    } else {
        lemma_failed_stays(a, b.drop_last());
        assert(a + b =~= (a + b.drop_last()).push(b.last()));
        lemma_push(a + b.drop_last(), b.last());
    }
}

proof fn lemma_complete_stays(a: Seq<u8>, b: Seq<u8>)
    requires
        decode_state(a) is Complete,
    ensures
        decode_state(a + b) is Complete,
        observations(a + b) == observations(a),
    decreases b.len(),
{
    if b.len() == 0 {
        assert(a + b =~= a);
    } else {
        lemma_complete_stays(a, b.drop_last());
        assert(a + b =~= (a + b.drop_last()).push(b.last()));
        lemma_push(a + b.drop_last(), b.last());
    }
}

/// A size prefix cut short leaves the reading inside the size.
proof fn lemma_cut_prefix(st: DecodeState, p: Seq<u8>)
    requires
        needs_input(st, p),
        p.len() > 0,
        st is Initial || st is KeyHeader || st is ValueHeader,
    ensures
        !(run_from(st, p) is Complete),
{
    reveal_with_fuel(run_from, 5);
    let p1 = p.drop_last();
    let p2 = p1.drop_last();
    let p3 = p2.drop_last();
    if p.len() == 1 {
        assert(p1 =~= Seq::<u8>::empty());
    } else if p.len() == 2 {
        assert(p1 =~= seq![p[0]]);
        assert(p2 =~= Seq::<u8>::empty());
    } else if p.len() == 3 {
        assert(p2 =~= seq![p[0]]);
        assert(p3 =~= Seq::<u8>::empty());
        assert(p1.last() == p[1]);
    } else {
        assert(p3 =~= seq![p[0]]);
        assert(p3.drop_last() =~= Seq::<u8>::empty());
        assert(p2.last() == p[1]);
        assert(p1.last() == p[2]);
    }
}

/// Where decoding of a whole valid encoding stops for want of input, all its value bytes
/// have been observed.
proof fn lemma_end_of_stream(
    pairs: Seq<(Seq<u8>, Seq<u8>)>,
    map_form: SizeForm,
    forms: Seq<(SizeForm, SizeForm)>,
    c: Seq<u8>,
    p: Seq<u8>,
)
    requires
        valid_encoding(pairs, map_form, forms),
        c + p == encode_map(pairs, map_form, forms),
        needs_input(decode_state(c), p),
    ensures
        observations(c) == expected_observations(pairs),
        !(decode_state(c) is Failed),
{
    lemma_decode_encoded_map(pairs, map_form, forms);
    if decode_state(c) is Failed {
        lemma_failed_stays(c, p);
    }
    if p.len() == 0 {
        assert(c + p =~= c);
    } else if decode_state(c) is Complete {
        lemma_complete_stays(c, p);
    } else {
        lemma_run(c, p);
        lemma_cut_prefix(decode_state(c), p);
    }
}

proof fn lemma_extend(c: Seq<u8>, p: Seq<u8>, k: int)
    requires
        0 < k <= p.len(),
    ensures
        decode_state(c + p.take(k)) == step(decode_state(c + p.take(k - 1)), p[k - 1]),
        observations(c + p.take(k)) == observations(c + p.take(k - 1)) + emit(
            decode_state(c + p.take(k - 1)),
            p[k - 1],
        ),
        c + p.take(0) == c,
{
    assert(c + p.take(k) =~= (c + p.take(k - 1)).push(p[k - 1]));
    assert(c + p.take(0) =~= c);
    lemma_push(c + p.take(k - 1), p[k - 1]);
}

/// A piece of a value, with the key it belongs to and the value's declared length.
#[derive(Debug)]
pub struct KeyedBytes {
    pub key: String,
    pub length: u64,
    pub data: bytes::Bytes,
}

/// Reads the size of a map whose marker `byte` has been taken off the front of `buffer`.
/// Returns `None` when the size bytes are not all buffered yet, and then takes nothing.
pub fn parse_map_size(byte: u8, buffer: &mut bytes::BytesMut) -> (r: Option<
    Result<usize, MessagePackError>,
>)
    ensures
        ({
            let b = bytes_mut_contents(*old(buffer));
            let f = bytes_mut_contents(*final(buffer));
            if 0x80 <= byte <= 0x8f {
                r == Some(Ok::<usize, MessagePackError>((byte - 0x80) as usize)) && f == b
            } else if byte == 0xde {
                if b.len() < 2 {
                    r is None && f == b
                } else {
                    r == Some(Ok::<usize, MessagePackError>((b[0] * 256 + b[1]) as usize))
                        && f == b.skip(2)
                }
            } else if byte == 0xdf {
                if b.len() < 4 {
                    r is None && f == b
                } else {
                    r == Some(
                        Ok::<usize, MessagePackError>(
                            ((((b[0] * 256 + b[1]) * 256 + b[2]) * 256) + b[3]) as usize,
                        ),
                    ) && f == b.skip(4)
                }
            } else {
                f == b && (r matches Some(Err(MessagePackError::UnexpectedFormat(m)))
                    && m@ == "Expected map marker, got: 0x"@ + hex_digits(byte as nat))
            }
        }),
{
    if 0x80 <= byte && byte <= 0x8f {
        Some(Ok((byte - 0x80) as usize))
    } else if byte == 0xde {
        if buf_len(buffer) < 2 {
            None
        } else {
            let size = buf_at(buffer, 0) as u32 * 256 + buf_at(buffer, 1) as u32;
            buf_advance(buffer, 2);
            Some(Ok(size as usize))
        }
    } else if byte == 0xdf {
        if buf_len(buffer) < 4 {
            None
        } else {
            let size = ((buf_at(buffer, 0) as u32 * 256 + buf_at(buffer, 1) as u32) * 256
                + buf_at(buffer, 2) as u32) * 256 + buf_at(buffer, 3) as u32;
            buf_advance(buffer, 4);
            Some(Ok(size as usize))
        }
    } else {
        let mut m = "Expected map marker, got: 0x".to_owned();
        push_hex(&mut m, byte as u64);
        Some(Err(MessagePackError::UnexpectedFormat(m)))
    }
}

enum ParserState {
    Initial,
    KeyHeader,
    KeyData { length: usize },
    ValueHeader { key: String },
    ValueLength { key: String },
    ValueData { key: String, length: usize, collected: usize },
    Complete,
    Failed,
}

/// The streaming decoder: a buffer of bytes not yet decoded and the reading of those before.
pub struct MessagePackByteStream {
    state: ParserState,
    buffer: bytes::BytesMut,
    current_key_buffer: Vec<u8>,
    remaining_pairs: usize,
    consumed: Ghost<Seq<u8>>,
}

impl MessagePackByteStream {
    /// The bytes decoded so far.
    pub closed spec fn consumed(&self) -> Seq<u8> {
        self.consumed@
    }

    /// The bytes buffered and not yet decoded.
    pub closed spec fn pending(&self) -> Seq<u8> {
        bytes_mut_contents(self.buffer)
    }

    /// The decoder's own fields agree with the reading of the decoded bytes.
    pub closed spec fn wf(&self) -> bool {
        let st = decode_state(self.consumed@);
        let rp = self.remaining_pairs as nat;
        match self.state {
            ParserState::Initial => st == DecodeState::Initial,
            ParserState::KeyHeader => rp > 0 && st == (DecodeState::KeyHeader { pairs: rp }),
            ParserState::KeyData { length } => rp > 0 && self.current_key_buffer@.len() < length
                && st == (DecodeState::KeyData {
                pairs: rp,
                len: length as nat,
                key: self.current_key_buffer@,
            }),
            ParserState::ValueHeader { key } => rp > 0 && st == (DecodeState::ValueHeader {
                pairs: rp,
                key: key@,
            }),
            ParserState::ValueLength { key } => rp > 0 && st == (DecodeState::ValueSize {
                pairs: rp,
                key: key@,
                need: 1,
                acc: 0,
            }),
            ParserState::ValueData { key, length, collected } => rp > 0 && collected < length
                && st == (DecodeState::ValueData {
                pairs: rp,
                key: key@,
                len: length as nat,
                got: collected as nat,
            }),
            ParserState::Complete => st is Complete,
            ParserState::Failed => st is Failed,
        }
    }

    /// A decoder that has read nothing.
    pub fn new() -> (r: Self)
        ensures
            r.wf(),
            r.consumed() == Seq::<u8>::empty(),
            r.pending() == Seq::<u8>::empty(),
    {
        MessagePackByteStream {
            state: ParserState::Initial,
            buffer: buf_new(),
            current_key_buffer: Vec::new(),
            remaining_pairs: 0,
            consumed: Ghost(Seq::empty()),
        }
    }

    /// Appends received bytes behind those already buffered.
    pub fn extend_buffer(&mut self, new_bytes: bytes::Bytes)
        requires
            old(self).wf(),
        ensures
            final(self).wf(),
            final(self).consumed() == old(self).consumed(),
            final(self).pending() == old(self).pending() + bytes_contents(new_bytes),
    {
        buf_extend(&mut self.buffer, &new_bytes);
    }

    /// Decodes the finished key and moves on to its value.
    fn finish_key(&mut self) -> (r: Option<MessagePackError>)
        requires
            old(self).remaining_pairs > 0,
            decode_state(old(self).consumed@) == key_done(
                old(self).remaining_pairs as nat,
                old(self).current_key_buffer@,
            ),
        ensures
            final(self).wf(),
            final(self).consumed@ == old(self).consumed@,
            final(self).buffer == old(self).buffer,
            r is Some <==> decode_state(final(self).consumed@) is Failed,
            r matches Some(e) ==> e is InvalidString,
    {
        let mut key_bytes: Vec<u8> = Vec::new();
        std::mem::swap(&mut key_bytes, &mut self.current_key_buffer);
        match decode_utf8(key_bytes) {
            Ok(key) => {
                self.state = ParserState::ValueHeader { key };
                None
            },
            Err(e) => {
                self.state = ParserState::Failed;
                Some(MessagePackError::InvalidString(e))
            },
        }
    }

    /// Moves past a finished value to the next key, or to the end of the map.
    fn finish_pair(&mut self)
        requires
            old(self).remaining_pairs > 0,
            decode_state(old(self).consumed@) == value_done(old(self).remaining_pairs as nat),
        ensures
            final(self).wf(),
            final(self).consumed@ == old(self).consumed@,
            final(self).buffer == old(self).buffer,
    {
        self.remaining_pairs = self.remaining_pairs - 1;
        if self.remaining_pairs == 0 {
            self.state = ParserState::Complete;
        } else {
            self.state = ParserState::KeyHeader;
        }
    }
    /// Takes `k` buffered bytes as decoded, leaving the reading fields as they are.
    fn consume(&mut self, k: usize)
        requires
            k <= old(self).pending().len(),
        ensures
            final(self).consumed@ == old(self).consumed@ + old(self).pending().take(k as int),
            final(self).pending() == old(self).pending().skip(k as int),
            final(self).consumed@ + final(self).pending() == old(self).consumed@ + old(
                self,
            ).pending(),
            final(self).state == old(self).state,
            final(self).remaining_pairs == old(self).remaining_pairs,
            final(self).current_key_buffer == old(self).current_key_buffer,
    {
        let ghost c = self.consumed@;
        let ghost p = self.pending();
        buf_advance(&mut self.buffer, k);
        self.consumed = Ghost(c + p.take(k as int));
        assert((c + p.take(k as int)) + p.skip(k as int) =~= c + p);
    }

    spec fn result_post(a: Self, b: Self, r: Option<Result<KeyedBytes, MessagePackError>>) -> bool {
        match r {
            None => observations(b.consumed@) == observations(a.consumed@) && needs_input(
                decode_state(b.consumed@),
                b.pending(),
            ) && b.consumed@ == a.consumed@,
            Some(Ok(kb)) => bytes_contents(kb.data).len() > 0 && observations(b.consumed@)
                == observations(a.consumed@) + tagged(
                kb.key@,
                kb.length as nat,
                bytes_contents(kb.data),
            ) && (b.pending().len() == 0 || !(decode_state(b.consumed@) is ValueData)) && !(
            decode_state(b.consumed@) is Failed),
            Some(Err(e)) => decode_state(b.consumed@) is Failed && observations(b.consumed@)
                == observations(a.consumed@) && error_fits(e, b.consumed@),
        }
    }

    /// What one decoding step promises: `None` to go on, with fewer bytes buffered, or
    /// the unit to return.
    spec fn step_post(
        a: Self,
        b: Self,
        r: Option<Option<Result<KeyedBytes, MessagePackError>>>,
    ) -> bool {
        &&& b.wf()
        &&& b.consumed@ + b.pending() == a.consumed@ + a.pending()
        &&& b.consumed@.len() >= a.consumed@.len()
        &&& match r {
            None => b.pending().len() < a.pending().len() && observations(b.consumed@)
                == observations(a.consumed@) && !(decode_state(b.consumed@) is Failed),
            Some(x) => Self::result_post(a, b, x) && (x matches Some(Ok(_)) ==> b.pending().len()
                < a.pending().len()),
        }
    }

    #[verifier::rlimit(40)]
    fn on_initial(&mut self, len: usize) -> (r: Option<Option<Result<KeyedBytes, MessagePackError>>>)
        requires
            old(self).wf(),
            old(self).state is Initial,
            len == old(self).pending().len(),
            len > 0,
        ensures
            Self::step_post(*old(self), *final(self), r),
    {
        let ghost c0 = self.consumed@;
        let ghost p0 = self.pending();
        let h = buf_at(&self.buffer, 0);
        let k: usize = if h == 0xde {
            3
        } else if h == 0xdf {
            5
        } else {
            1
        };
        if len < k {
            return Some(None);
        }
        buf_advance(&mut self.buffer, 1);
        let parsed = parse_map_size(h, &mut self.buffer);
        self.consumed = Ghost(c0 + p0.take(k as int));
        proof {
            lemma_extend(c0, p0, 1);
            if k >= 3 {
                lemma_extend(c0, p0, 2);
                lemma_extend(c0, p0, 3);
            }
            if k >= 5 {
                lemma_extend(c0, p0, 4);
                lemma_extend(c0, p0, 5);
            }
            assert(p0.skip(1).skip(k - 1) =~= p0.skip(k as int));
            assert((c0 + p0.take(k as int)) + p0.skip(k as int) =~= c0 + p0);
        }
        match parsed {
            Some(Ok(size)) => {
                self.remaining_pairs = size;
                if size == 0 {
                    self.state = ParserState::Complete;
                } else {
                    self.state = ParserState::KeyHeader;
                }
                None
            },
            Some(Err(e)) => {
                self.state = ParserState::Failed;
                proof {
                    assert(k == 1);
                    assert((c0 + p0.take(1)).drop_last() =~= c0);
                }
                Some(Some(Err(e)))
            },
            None => {
                proof {
                    assert(false);
                }
                Some(None)
            },
        }
    }

    fn on_key_header(&mut self, len: usize) -> (r: Option<
        Option<Result<KeyedBytes, MessagePackError>>,
    >)
        requires
            old(self).wf(),
            old(self).state is KeyHeader,
            len == old(self).pending().len(),
            len > 0,
        ensures
            Self::step_post(*old(self), *final(self), r),
    {
        let ghost c0 = self.consumed@;
        let ghost p0 = self.pending();
        let h = buf_at(&self.buffer, 0);
        let (k, length): (usize, usize) = if 0xa0 <= h && h <= 0xbf {
            (1, (h - 0xa0) as usize)
        } else if h == 0xd9 {
            if len < 2 {
                return Some(None);
            }
            (2, buf_at(&self.buffer, 1) as usize)
        } else if h == 0xda {
            if len < 3 {
                return Some(None);
            }
            (3, (buf_at(&self.buffer, 1) as u32 * 256 + buf_at(&self.buffer, 2) as u32) as usize)
        } else if h == 0xdb {
            if len < 5 {
                return Some(None);
            }
            (
                5,
                (((buf_at(&self.buffer, 1) as u32 * 256 + buf_at(&self.buffer, 2) as u32) * 256
                    + buf_at(&self.buffer, 3) as u32) * 256 + buf_at(&self.buffer, 4) as u32)
                    as usize,
            )
        } else {
            self.consume(1);
            self.state = ParserState::Failed;
            proof {
                lemma_extend(c0, p0, 1);
                assert((c0 + p0.take(1)).drop_last() =~= c0);
            }
            return Some(
                Some(
                    Err(MessagePackError::UnexpectedFormat("Expected string marker for key".to_owned())),
                ),
            );
        };
        self.consume(k);
        proof {
            lemma_extend(c0, p0, 1);
            if k >= 2 {
                lemma_extend(c0, p0, 2);
            }
            if k >= 3 {
                lemma_extend(c0, p0, 3);
            }
            if k >= 5 {
                lemma_extend(c0, p0, 4);
                lemma_extend(c0, p0, 5);
            }
        }
        self.current_key_buffer = Vec::new();
        if length == 0 {
            proof {
                assert((c0 + p0.take(k as int)).drop_last() =~= c0 + p0.take(k - 1));
                assert(ends_key(self.consumed@));
            }
            match self.finish_key() {
                Some(e) => Some(Some(Err(e))),
                None => None,
            }
        } else {
            self.state = ParserState::KeyData { length };
            None
        }
    }

    fn on_key_data(&mut self, len: usize, length: usize) -> (r: Option<
        Option<Result<KeyedBytes, MessagePackError>>,
    >)
        requires
            old(self).wf(),
            old(self).state == (ParserState::KeyData { length }),
            len == old(self).pending().len(),
            len > 0,
        ensures
            Self::step_post(*old(self), *final(self), r),
    {
        let ghost c0 = self.consumed@;
        let ghost p0 = self.pending();
        let ghost rp = self.remaining_pairs as nat;
        let have = self.current_key_buffer.len();
        let want = length - have;
        let n = if len < want {
            len
        } else {
            want
        };
        let ghost kb0 = self.current_key_buffer@;
        let mut i: usize = 0;
        while i < n
            invariant
                i <= n,
                n <= len,
                len == p0.len(),
                self.pending() == p0,
                self.current_key_buffer@ == kb0 + p0.take(i as int),
                self.consumed@ == c0,
                self.state == (ParserState::KeyData { length }),
                self.remaining_pairs as nat == rp,
                rp > 0,
                kb0.len() + n <= length,
                kb0.len() < length,
            decreases n - i,
        {
            let b = buf_at(&self.buffer, i);
            self.current_key_buffer.push(b);
            i = i + 1;
            assert(kb0 + p0.take(i as int) =~= (kb0 + p0.take(i - 1)).push(b));
        }
        self.consume(n);
        proof {
            lemma_key_run(c0, p0.take(n as int), rp, length as nat, kb0);
        }
        if self.current_key_buffer.len() == length {
            proof {
                assert((c0 + p0.take(n as int)).drop_last() =~= c0 + p0.take(n - 1));
                if n > 1 {
                    lemma_key_run(c0, p0.take(n - 1), rp, length as nat, kb0);
                } else {
                    assert(c0 + p0.take(0) =~= c0);
                }
                assert(ends_key(self.consumed@));
            }
            match self.finish_key() {
                Some(e) => Some(Some(Err(e))),
                None => None,
            }
        } else {
            None
        }
    }

    fn on_value_header(&mut self, len: usize) -> (r: Option<
        Option<Result<KeyedBytes, MessagePackError>>,
    >)
        requires
            old(self).wf(),
            old(self).state is ValueHeader,
            len == old(self).pending().len(),
            len > 0,
        ensures
            Self::step_post(*old(self), *final(self), r),
    {
        let ghost c0 = self.consumed@;
        let ghost p0 = self.pending();
        let h = buf_at(&self.buffer, 0);
        if h != 0xc4 && h != 0xc5 && h != 0xc6 {
            self.consume(1);
            self.state = ParserState::Failed;
            proof {
                lemma_extend(c0, p0, 1);
                assert((c0 + p0.take(1)).drop_last() =~= c0);
            }
            return Some(
                Some(
                    Err(
                        MessagePackError::UnexpectedFormat(
                            "Expected binary marker for value".to_owned(),
                        ),
                    ),
                ),
            );
        }
        let k: usize = if h == 0xc4 {
            1
        } else if h == 0xc5 {
            3
        } else {
            5
        };
        if len < k {
            return Some(None);
        }
        let mut state = ParserState::Failed;
        std::mem::swap(&mut state, &mut self.state);
        let key = match state {
            ParserState::ValueHeader { key } => key,
            _ => {
                proof {
                    assert(false);
                }
                String::new()
            },
        };
        if h == 0xc4 {
            self.consume(1);
            proof {
                lemma_extend(c0, p0, 1);
            }
            self.state = ParserState::ValueLength { key };
            return None;
        }
        let length: usize = if h == 0xc5 {
            (buf_at(&self.buffer, 1) as u32 * 256 + buf_at(&self.buffer, 2) as u32) as usize
        } else {
            (((buf_at(&self.buffer, 1) as u32 * 256 + buf_at(&self.buffer, 2) as u32) * 256
                + buf_at(&self.buffer, 3) as u32) * 256 + buf_at(&self.buffer, 4) as u32) as usize
        };
        self.consume(k);
        proof {
            lemma_extend(c0, p0, 1);
            lemma_extend(c0, p0, 2);
            lemma_extend(c0, p0, 3);
            if k >= 5 {
                lemma_extend(c0, p0, 4);
                lemma_extend(c0, p0, 5);
            }
        }
        if length == 0 {
            self.finish_pair();
        } else {
            self.state = ParserState::ValueData { key, length, collected: 0 };
        }
        None
    }

    fn on_value_length(&mut self) -> (r: Option<Option<Result<KeyedBytes, MessagePackError>>>)
        requires
            old(self).wf(),
            old(self).state is ValueLength,
            old(self).pending().len() > 0,
        ensures
            Self::step_post(*old(self), *final(self), r),
    {
        let ghost c0 = self.consumed@;
        let ghost p0 = self.pending();
        let mut state = ParserState::Failed;
        std::mem::swap(&mut state, &mut self.state);
        let key = match state {
            ParserState::ValueLength { key } => key,
            _ => {
                proof {
                    assert(false);
                }
                String::new()
            },
        };
        let length = buf_at(&self.buffer, 0) as usize;
        self.consume(1);
        proof {
            lemma_extend(c0, p0, 1);
        }
        if length == 0 {
            self.finish_pair();
        } else {
            self.state = ParserState::ValueData { key, length, collected: 0 };
        }
        None
    }

    fn on_value_data(&mut self, len: usize) -> (r: Option<
        Option<Result<KeyedBytes, MessagePackError>>,
    >)
        requires
            old(self).wf(),
            old(self).state is ValueData,
            len == old(self).pending().len(),
            len > 0,
        ensures
            Self::step_post(*old(self), *final(self), r),
            r matches Some(Some(Ok(_))),
            match decode_state(old(self).consumed@) {
                DecodeState::ValueData { key, len, got, .. } => old(self).pending().len() > 0 ==> {
                    let n = min_len(old(self).pending().len(), (len - got) as nat) as int;
                    &&& r matches Some(Some(Ok(kb)))
                    &&& r->Some_0->Some_0->Ok_0.key@ == key
                    &&& r->Some_0->Some_0->Ok_0.length == len
                    &&& bytes_contents(r->Some_0->Some_0->Ok_0.data) == old(self).pending().take(n)
                    &&& final(self).pending() == old(self).pending().skip(n)
                },
                _ => true,
            },
    {
        let ghost c0 = self.consumed@;
        let ghost p0 = self.pending();
        let ghost rp = self.remaining_pairs as nat;
        let mut state = ParserState::Failed;
        std::mem::swap(&mut state, &mut self.state);
        let (key, length, collected) = match state {
            ParserState::ValueData { key, length, collected } => (key, length, collected),
            _ => {
                proof {
                    assert(false);
                }
                (String::new(), 1, 0)
            },
        };
        let want = length - collected;
        let n = if len < want {
            len
        } else {
            want
        };
        let data = buf_split_front(&mut self.buffer, n);
        self.consumed = Ghost(c0 + p0.take(n as int));
        proof {
            assert((c0 + p0.take(n as int)) + p0.skip(n as int) =~= c0 + p0);
            lemma_value_run(c0, p0.take(n as int), rp, key@, length as nat, collected as nat);
        }
        let new_collected = collected + n;
        let out_key = key.clone();
        if new_collected == length {
            self.finish_pair();
        } else {
            self.state = ParserState::ValueData { key, length, collected: new_collected };
        }
        Some(Some(Ok(KeyedBytes { key: out_key, length: length as u64, data })))
    }

    /// Decodes as far as the buffered bytes allow and returns the next unit: a piece of a
    /// value with its key and declared length, or an error. `None` means that more bytes
    /// are needed, or that the map is over or broken.
    pub fn process_bytes(&mut self) -> (r: Option<Result<KeyedBytes, MessagePackError>>)
        requires
            old(self).wf(),
        ensures
            final(self).wf(),
            final(self).consumed() + final(self).pending() == old(self).consumed() + old(
                self,
            ).pending(),
            final(self).consumed().len() >= old(self).consumed().len(),
            decode_state(old(self).consumed()) is Failed ==> r is None && final(self).consumed()
                == old(self).consumed(),
            decode_state(old(self).consumed()) is Complete ==> r is None && final(self).consumed()
                == old(self).consumed(),
            r matches Some(Ok(_)) ==> final(self).pending().len() < old(self).pending().len(),
            !(r matches Some(Err(_))) ==> (decode_state(final(self).consumed()) is Failed
                ==> decode_state(old(self).consumed()) is Failed),
            match decode_state(old(self).consumed()) {
                DecodeState::ValueData { key, len, got, .. } => old(self).pending().len() > 0 ==> {
                    let n = min_len(old(self).pending().len(), (len - got) as nat) as int;
                    &&& r matches Some(Ok(kb))
                    &&& r->Some_0->Ok_0.key@ == key
                    &&& r->Some_0->Ok_0.length == len
                    &&& bytes_contents(r->Some_0->Ok_0.data) == old(self).pending().take(n)
                    &&& final(self).pending() == old(self).pending().skip(n)
                },
                _ => true,
            },
            match r {
                None => observations(final(self).consumed()) == observations(old(self).consumed())
                    && needs_input(decode_state(final(self).consumed()), final(self).pending()),
                Some(Ok(kb)) => bytes_contents(kb.data).len() > 0 && observations(
                    final(self).consumed(),
                ) == observations(old(self).consumed()) + tagged(
                    kb.key@,
                    kb.length as nat,
                    bytes_contents(kb.data),
                ) && (final(self).pending().len() == 0 || !(decode_state(final(self).consumed())
                    is ValueData)),
                Some(Err(e)) => decode_state(final(self).consumed()) is Failed && !(decode_state(
                    old(self).consumed(),
                ) is Failed) && observations(final(self).consumed()) == observations(
                    old(self).consumed(),
                ) && error_fits(e, final(self).consumed()),
            },
    {
        let ghost c_start = self.consumed@;
        let ghost total = self.consumed@ + self.pending();
        if let ParserState::ValueData { .. } = self.state {
            let len = buf_len(&self.buffer);
            if len > 0 {
                match self.on_value_data(len) {
                    Some(r) => {
                        return r;
                    },
                    None => {
                        return None;
                    },
                }
            }
        }
        loop
            invariant
                self.wf(),
                self.consumed@ + self.pending() == total,
                c_start.len() <= self.consumed@.len(),
                observations(self.consumed@) == observations(c_start),
                decode_state(c_start) is Failed ==> self.consumed@ == c_start,
                decode_state(c_start) is Complete ==> self.consumed@ == c_start,
                decode_state(c_start) is ValueData ==> self.pending().len() == 0 && self.consumed@
                    == c_start,
                c_start == old(self).consumed@,
                total == old(self).consumed@ + old(self).pending(),
                self.pending().len() <= old(self).pending().len(),
                decode_state(self.consumed@) is Failed ==> decode_state(c_start) is Failed,
            decreases self.pending().len(),
        {
            let len = buf_len(&self.buffer);
            if len == 0 {
                return None;
            }
            let ghost prev = *self;
            let outcome = match self.state {
                ParserState::Initial => self.on_initial(len),
                ParserState::KeyHeader => self.on_key_header(len),
                ParserState::KeyData { length } => self.on_key_data(len, length),
                ParserState::ValueHeader { .. } => self.on_value_header(len),
                ParserState::ValueLength { .. } => self.on_value_length(),
                ParserState::ValueData { .. } => self.on_value_data(len),
                ParserState::Complete => {
                    return None;
                },
                ParserState::Failed => {
                    return None;
                },
            };
            match outcome {
                Some(r) => {
                    return r;
                },
                None => {},
            }
        }
    }
}

/// The bytes of `pieces`, in order.
pub open spec fn concat_pieces(pieces: Seq<bytes::Bytes>) -> Seq<u8>
    decreases pieces.len(),
{
    if pieces.len() == 0 {
        Seq::empty()
    } else {
        concat_pieces(pieces.drop_last()) + bytes_contents(pieces.last())
    }
}

/// The observations that emitted pieces of values stand for.
pub open spec fn chunk_observations(chunks: Seq<KeyedBytes>) -> Seq<(Seq<char>, nat, u8)>
    decreases chunks.len(),
{
    if chunks.len() == 0 {
        Seq::empty()
    } else {
        chunk_observations(chunks.drop_last()) + tagged(
            chunks.last().key@,
            chunks.last().length as nat,
            bytes_contents(chunks.last().data),
        )
    }
}

proof fn lemma_concat_prefix(pieces: Seq<bytes::Bytes>, i: int)
    requires
        0 <= i <= pieces.len(),
    ensures
        concat_pieces(pieces.take(i)).len() <= concat_pieces(pieces).len(),
        concat_pieces(pieces).take(concat_pieces(pieces.take(i)).len() as int) == concat_pieces(
            pieces.take(i),
        ),
    decreases pieces.len() - i,
{
    if i < pieces.len() {
        lemma_concat_prefix(pieces, i + 1);
        assert(pieces.take(i + 1).drop_last() =~= pieces.take(i));
        let a = concat_pieces(pieces.take(i));
        let b = concat_pieces(pieces.take(i + 1));
        assert(b == a + bytes_contents(pieces[i]));
        assert(b.take(a.len() as int) =~= a);
        assert(concat_pieces(pieces).take(a.len() as int) =~= b.take(a.len() as int));
    } else {
        assert(pieces.take(i) =~= pieces);
        assert(concat_pieces(pieces).take(concat_pieces(pieces).len() as int) =~= concat_pieces(
            pieces,
        ));
    }
}

/// Decodes a stream that arrives as `pieces`: each piece is fed in turn and every unit
/// that it completes is taken, as a transport hands them over. The pieces returned hold
/// the value bytes of the decoded prefix of the stream, with their keys and declared
/// lengths; an error is the first one met. For any valid encoding of a map, however it is
/// cut into pieces, decoding succeeds and the pieces hold exactly each pair's value
/// bytes, in order.
pub fn decode_pieces(pieces: Vec<bytes::Bytes>) -> (r: Result<Vec<KeyedBytes>, MessagePackError>)
    ensures
        match r {
            Ok(chunks) => exists|c: Seq<u8>, p: Seq<u8>|
                c + p == concat_pieces(pieces@) && needs_input(decode_state(c), p)
                    && chunk_observations(chunks@) == observations(c),
            Err(_) => exists|c: Seq<u8>|
                c.len() <= concat_pieces(pieces@).len() && c == concat_pieces(pieces@).take(
                    c.len() as int,
                ) && decode_state(c) is Failed,
        },
        forall|pairs: Seq<(Seq<u8>, Seq<u8>)>, map_form: SizeForm, forms: Seq<(SizeForm, SizeForm)>|
            valid_encoding(pairs, map_form, forms) && concat_pieces(pieces@) == encode_map(
                pairs,
                map_form,
                forms,
            ) ==> (r matches Ok(chunks) && chunk_observations(chunks@) == expected_observations(
                pairs,
            )),
{
    let ghost all = pieces@;
    assert(all.len() == pieces.len());
    let mut rest = pieces;
    let mut d = MessagePackByteStream::new();
    let mut out: Vec<KeyedBytes> = Vec::new();
    let mut i: usize = 0;
    assert(all.take(0) =~= Seq::<bytes::Bytes>::empty());
    assert(d.consumed() + d.pending() =~= concat_pieces(all.take(0)));
    while rest.len() > 0
        invariant
            i <= all.len(),
            all.len() <= usize::MAX,
            all == pieces@,
            rest@ == all.skip(i as int),
            d.wf(),
            d.consumed() + d.pending() == concat_pieces(all.take(i as int)),
            chunk_observations(out@) == observations(d.consumed()),
            needs_input(decode_state(d.consumed()), d.pending()),
            !(decode_state(d.consumed()) is Failed),
        decreases rest@.len(),
    {
        assert(i < all.len());
        let piece = rest.remove(0);
        assert(piece == all[i as int]);
        d.extend_buffer(piece);
        assert(all.take(i + 1).drop_last() =~= all.take(i as int));
        i = i + 1;
        assert(rest@ =~= all.skip(i as int));
        loop
            invariant
                d.wf(),
                d.consumed() + d.pending() == concat_pieces(all.take(i as int)),
                chunk_observations(out@) == observations(d.consumed()),
                !(decode_state(d.consumed()) is Failed),
                rest@ == all.skip(i as int),
                i <= all.len(),
                all == pieces@,
            ensures
                d.wf(),
                d.consumed() + d.pending() == concat_pieces(all.take(i as int)),
                chunk_observations(out@) == observations(d.consumed()),
                !(decode_state(d.consumed()) is Failed),
                needs_input(decode_state(d.consumed()), d.pending()),
            decreases d.pending().len(),
        {
            match d.process_bytes() {
                None => {
                    break;
                },
                Some(Ok(kb)) => {
                    let ghost before = out@;
                    out.push(kb);
                    assert(out@.drop_last() =~= before);
                },
                Some(Err(e)) => {
                    proof {
                        lemma_concat_prefix(all, i as int);
                        let c = d.consumed();
                        let whole = concat_pieces(all);
                        assert(all.take(all.len() as int) =~= all);
                        assert(whole.take(c.len() as int) =~= c) by {
                            assert(concat_pieces(all.take(i as int)).take(c.len() as int) =~= c);
                        }
                        assert(c.len() <= whole.len() && c == whole.take(c.len() as int)
                            && decode_state(c) is Failed);
                        assert(whole == concat_pieces(pieces@));
                        assert forall|pairs: Seq<(Seq<u8>, Seq<u8>)>, map_form: SizeForm, forms: Seq<
                            (SizeForm, SizeForm),
                        >|
                            valid_encoding(pairs, map_form, forms) && whole == encode_map(
                                pairs,
                                map_form,
                                forms,
                            ) implies false by {
                            lemma_decode_encoded_map(pairs, map_form, forms);
                            lemma_failed_stays(c, whole.skip(c.len() as int));
                            assert(c + whole.skip(c.len() as int) =~= whole);
                        }
                    }
                    return Err(e);
                },
            }
        }
    }
    proof {
        assert(i == all.len());
        assert(all.take(i as int) =~= all);
        let c = d.consumed();
        let p = d.pending();
        assert forall|pairs: Seq<(Seq<u8>, Seq<u8>)>, map_form: SizeForm, forms: Seq<(SizeForm, SizeForm)>|
            valid_encoding(pairs, map_form, forms) && concat_pieces(all) == encode_map(
                pairs,
                map_form,
                forms,
            ) implies chunk_observations(out@) == expected_observations(pairs) by {
            lemma_end_of_stream(pairs, map_form, forms, c, p);
        }
    }
    Ok(out)
}

} // verus!
