//! The wire contract shared with the native side: how each value is laid out
//! in a buffer, and how many bytes that takes. The generated helper routines
//! must follow it.
use vstd::prelude::*;

use crate::filters::{decimal_of, fixed_width, write_size_text};
use crate::types::Type;

verus! {

/// A value as it is written into a buffer.
pub enum WireValue {
    /// An integer, an enum discriminant or the bit pattern of a float.
    Bits(nat),
    Flag(bool),
    /// The UTF-8 bytes of a text.
    Text(Seq<u8>),
    Absent,
    Present(Box<WireValue>),
    List(Seq<WireValue>),
    /// Keys, as UTF-8 bytes, and their values, position by position.
    Entries(Seq<Seq<u8>>, Seq<WireValue>),
}

/// `n` as `w` big-endian bytes (the low `8 * w` bits of it).
pub open spec fn be_bytes(n: nat, w: nat) -> Seq<u8>
    decreases w,
{
    if w == 0 {
        Seq::empty()
    } else {
        be_bytes(n / 256, (w - 1) as nat).push((n % 256) as u8)
    }
}

/// A text: a 4-byte length prefix, then its bytes.
pub open spec fn encode_text(b: Seq<u8>) -> Seq<u8> {
    be_bytes(b.len(), 4) + b
}

/// The bytes written for value `v` of type `t`. A value that does not fit
/// its type writes nothing.
pub open spec fn encode(v: WireValue, t: Type) -> Seq<u8>
    decreases t, 0nat,
{
    match (v, t) {
        (WireValue::Flag(b), Type::Boolean) => seq![if b { 1u8 } else { 0u8 }],
        (WireValue::Bits(n), _) => match fixed_width(t) {
            Some(w) => if t is Boolean {
                Seq::empty()
            } else {
                be_bytes(n, w)
            },
            None => Seq::empty(),
        },
        (WireValue::Text(b), Type::String) => encode_text(b),
        (WireValue::Absent, Type::Optional(_)) => seq![0u8],
        (WireValue::Present(x), Type::Optional(inner)) => seq![1u8] + encode(*x, *inner),
        (WireValue::List(vs), Type::Sequence(inner)) => be_bytes(vs.len(), 4) + encode_list(
            vs,
            *inner,
        ),
        (WireValue::Entries(ks, vs), Type::Dictionary(inner)) => be_bytes(ks.len(), 4)
            + encode_entries(ks, vs, *inner),
        _ => Seq::empty(),
    }
}

/// The elements of a sequence, one after the other.
pub open spec fn encode_list(vs: Seq<WireValue>, t: Type) -> Seq<u8>
    decreases t, vs.len(),
{
    if vs.len() == 0 {
        Seq::empty()
    } else {
        encode_list(vs.drop_last(), t) + encode(vs.last(), t)
    }
}

/// The entries of a map, each key followed by its value.
pub open spec fn encode_entries(ks: Seq<Seq<u8>>, vs: Seq<WireValue>, t: Type) -> Seq<u8>
    decreases t, vs.len(),
{
    if vs.len() == 0 || ks.len() != vs.len() {
        Seq::empty()
    } else {
        encode_entries(ks.drop_last(), vs.drop_last(), t) + encode_text(ks.last()) + encode(
            vs.last(),
            t,
        )
    }
}

/// The size rules: fixed-width types take their width, a text four bytes
/// more than its UTF-8 length, an optional value a presence tag and its
/// value, a sequence or map a 4-byte count and its elements or entries.
pub open spec fn wire_size(v: WireValue, t: Type) -> nat
    decreases t, 0nat,
{
    match (v, t) {
        (WireValue::Flag(_), Type::Boolean) => 1,
        (WireValue::Bits(_), _) => match fixed_width(t) {
            Some(w) => if t is Boolean {
                0
            } else {
                w
            },
            None => 0,
        },
        (WireValue::Text(b), Type::String) => 4 + b.len(),
        (WireValue::Absent, Type::Optional(_)) => 1,
        (WireValue::Present(x), Type::Optional(inner)) => 1 + wire_size(*x, *inner),
        (WireValue::List(vs), Type::Sequence(inner)) => 4 + list_size(vs, *inner),
        (WireValue::Entries(ks, vs), Type::Dictionary(inner)) => 4 + entries_size(ks, vs, *inner),
        _ => 0,
    }
}

pub open spec fn list_size(vs: Seq<WireValue>, t: Type) -> nat
    decreases t, vs.len(),
{
    if vs.len() == 0 {
        0
    } else {
        list_size(vs.drop_last(), t) + wire_size(vs.last(), t)
    }
}

pub open spec fn entries_size(ks: Seq<Seq<u8>>, vs: Seq<WireValue>, t: Type) -> nat
    decreases t, vs.len(),
{
    if vs.len() == 0 || ks.len() != vs.len() {
        0
    } else {
        entries_size(ks.drop_last(), vs.drop_last(), t) + 4 + ks.last().len() + wire_size(
            vs.last(),
            t,
        )
    }
}

proof fn lemma_be_bytes_len(n: nat, w: nat)
    ensures
        be_bytes(n, w).len() == w,
    decreases w,
{
    if w > 0 {
        lemma_be_bytes_len(n / 256, (w - 1) as nat);
    }
}

/// The size rules count exactly the bytes that the encoding writes, for every
/// value of every type, so values that follow in the same buffer start where
/// the size says.
pub proof fn lemma_size_accurate(v: WireValue, t: Type)
    ensures
        encode(v, t).len() == wire_size(v, t),
    decreases t, 0nat,
{
    lemma_be_bytes_len(0, 4);
    match (v, t) {
        (WireValue::Bits(n), _) => {
            if let Some(w) = fixed_width(t) {
                lemma_be_bytes_len(n, w);
            }
        },
        (WireValue::Text(b), Type::String) => {
            lemma_be_bytes_len(b.len(), 4);
        },
        (WireValue::Present(x), Type::Optional(inner)) => {
            lemma_size_accurate(*x, *inner);
        },
        (WireValue::List(vs), Type::Sequence(inner)) => {
            lemma_be_bytes_len(vs.len(), 4);
            lemma_list_size_accurate(vs, *inner);
        },
        (WireValue::Entries(ks, vs), Type::Dictionary(inner)) => {
            lemma_be_bytes_len(ks.len(), 4);
            lemma_entries_size_accurate(ks, vs, *inner);
        },
        _ => {},
    }
}

proof fn lemma_list_size_accurate(vs: Seq<WireValue>, t: Type)
    ensures
        encode_list(vs, t).len() == list_size(vs, t),
    decreases t, vs.len(),
{
    if vs.len() > 0 {
        lemma_list_size_accurate(vs.drop_last(), t);
        lemma_size_accurate(vs.last(), t);
    }
}

proof fn lemma_entries_size_accurate(ks: Seq<Seq<u8>>, vs: Seq<WireValue>, t: Type)
    ensures
        encode_entries(ks, vs, t).len() == entries_size(ks, vs, t),
    decreases t, vs.len(),
{
    if vs.len() > 0 && ks.len() == vs.len() {
        lemma_entries_size_accurate(ks.drop_last(), vs.drop_last(), t);
        lemma_be_bytes_len(ks.last().len(), 4);
        lemma_size_accurate(vs.last(), t);
    }
}

/// 256 to the power `w`: the number of values that `w` bytes hold.
pub open spec fn pow256(w: nat) -> nat
    decreases w,
{
    if w == 0 {
        1
    } else {
        256 * pow256((w - 1) as nat)
    }
}

/// The number that big-endian bytes stand for.
pub open spec fn be_value(b: Seq<u8>) -> nat
    decreases b.len(),
{
    if b.len() == 0 {
        0
    } else {
        be_value(b.drop_last()) * 256 + b.last() as nat
    }
}

/// A value has the shape of its type and every count and number fits the
/// bytes the layout gives it.
pub open spec fn fits(v: WireValue, t: Type) -> bool
    decreases t, 0nat,
{
    match (v, t) {
        (WireValue::Flag(_), Type::Boolean) => true,
        (WireValue::Bits(n), _) => match fixed_width(t) {
            Some(w) => !(t is Boolean) && n < pow256(w),
            None => false,
        },
        (WireValue::Text(b), Type::String) => b.len() < pow256(4),
        (WireValue::Absent, Type::Optional(_)) => true,
        (WireValue::Present(x), Type::Optional(inner)) => fits(*x, *inner),
        (WireValue::List(vs), Type::Sequence(inner)) => vs.len() < pow256(4) && list_fits(
            vs,
            *inner,
        ),
        (WireValue::Entries(ks, vs), Type::Dictionary(inner)) => ks.len() == vs.len() && vs.len()
            < pow256(4) && entries_fit(ks, vs, *inner),
        _ => false,
    }
}

pub open spec fn list_fits(vs: Seq<WireValue>, t: Type) -> bool
    decreases t, vs.len(),
{
    vs.len() == 0 || (list_fits(vs.drop_last(), t) && fits(vs.last(), t))
}

pub open spec fn entries_fit(ks: Seq<Seq<u8>>, vs: Seq<WireValue>, t: Type) -> bool
    decreases t, vs.len(),
{
    ks.len() == vs.len() && (vs.len() == 0 || (entries_fit(ks.drop_last(), vs.drop_last(), t)
        && ks.last().len() < pow256(4) && fits(vs.last(), t)))
}

/// A text read from the front of `b`, with the number of bytes it took.
pub open spec fn decode_text(b: Seq<u8>) -> Option<(Seq<u8>, nat)> {
    if b.len() < 4 {
        None
    } else {
        let n = be_value(b.take(4));
        if b.len() < 4 + n {
            None
        } else {
            Some((b.subrange(4, 4 + n as int), 4 + n))
        }
    }
}

/// A value of type `t` read from the front of `b`, with the number of bytes
/// it took.
pub open spec fn decode(b: Seq<u8>, t: Type) -> Option<(WireValue, nat)>
    decreases t, 0nat,
{
    match t {
        Type::Boolean => if b.len() < 1 {
            None
        } else {
            Some((WireValue::Flag(b[0] != 0), 1))
        },
        Type::String => match decode_text(b) {
            Some((x, k)) => Some((WireValue::Text(x), k)),
            None => None,
        },
        Type::Optional(inner) => if b.len() < 1 {
            None
        } else if b[0] == 0 {
            Some((WireValue::Absent, 1))
        } else {
            match decode(b.skip(1), *inner) {
                Some((x, k)) => Some((WireValue::Present(Box::new(x)), 1 + k)),
                None => None,
            }
        },
        Type::Sequence(inner) => if b.len() < 4 {
            None
        } else {
            match decode_list(b.skip(4), *inner, be_value(b.take(4))) {
                Some((vs, k)) => Some((WireValue::List(vs), 4 + k)),
                None => None,
            }
        },
        Type::Dictionary(inner) => if b.len() < 4 {
            None
        } else {
            match decode_entries(b.skip(4), *inner, be_value(b.take(4))) {
                Some((ks, vs, k)) => Some((WireValue::Entries(ks, vs), 4 + k)),
                None => None,
            }
        },
        _ => match fixed_width(t) {
            Some(w) => if b.len() < w {
                None
            } else {
                Some((WireValue::Bits(be_value(b.take(w as int))), w))
            },
            None => None,
        },
    }
}

/// `n` values of type `t` read one after the other from the front of `b`.
pub open spec fn decode_list(b: Seq<u8>, t: Type, n: nat) -> Option<(Seq<WireValue>, nat)>
    decreases t, n,
{
    if n == 0 {
        Some((Seq::empty(), 0))
    } else {
        match decode_list(b, t, (n - 1) as nat) {
            Some((vs, k)) => match decode(b.skip(k as int), t) {
                Some((x, j)) => Some((vs.push(x), k + j)),
                None => None,
            },
            None => None,
        }
    }
}

/// `n` entries, each a key and a value of type `t`, read from the front of `b`.
pub open spec fn decode_entries(b: Seq<u8>, t: Type, n: nat) -> Option<
    (Seq<Seq<u8>>, Seq<WireValue>, nat),
>
    decreases t, n,
{
    if n == 0 {
        Some((Seq::empty(), Seq::empty(), 0))
    } else {
        match decode_entries(b, t, (n - 1) as nat) {
            Some((ks, vs, k)) => match decode_text(b.skip(k as int)) {
                Some((key, i)) => match decode(b.skip((k + i) as int), t) {
                    Some((x, j)) => Some((ks.push(key), vs.push(x), k + i + j)),
                    None => None,
                },
                None => None,
            },
            None => None,
        }
    }
}

proof fn lemma_be_round_trip(n: nat, w: nat)
    requires
        n < pow256(w),
    ensures
        be_value(be_bytes(n, w)) == n,
    decreases w,
{
    if w > 0 {
        let b = be_bytes(n, w);
        assert(b.drop_last() =~= be_bytes(n / 256, (w - 1) as nat));
        assert(n / 256 < pow256((w - 1) as nat)) by (nonlinear_arith)
            requires
                n < 256 * pow256((w - 1) as nat),
        ;
        lemma_be_round_trip(n / 256, (w - 1) as nat);
        assert((n / 256) * 256 + n % 256 == n) by (nonlinear_arith);
    }
}

proof fn lemma_text_round_trip(x: Seq<u8>, rest: Seq<u8>)
    requires
        x.len() < pow256(4),
    ensures
        decode_text(encode_text(x) + rest) == Some((x, encode_text(x).len())),
{
    let b = encode_text(x) + rest;
    lemma_be_bytes_len(x.len(), 4);
    lemma_be_round_trip(x.len(), 4);
    assert(b.take(4) =~= be_bytes(x.len(), 4));
    assert(b.subrange(4, 4 + x.len() as int) =~= x);
}

/// Reading back what was written for a value gives the value again, and
/// stops exactly where its bytes end, whatever follows in the buffer.
pub proof fn lemma_round_trip(v: WireValue, t: Type, rest: Seq<u8>)
    requires
        fits(v, t),
    ensures
        decode(encode(v, t) + rest, t) == Some((v, encode(v, t).len())),
    decreases t, 0nat,
{
    let b = encode(v, t) + rest;
    match (v, t) {
        (WireValue::Flag(x), Type::Boolean) => {},
        (WireValue::Bits(n), _) => {
            let w = fixed_width(t)->Some_0;
            lemma_be_bytes_len(n, w);
            lemma_be_round_trip(n, w);
            assert(b.take(w as int) =~= be_bytes(n, w));
        },
        (WireValue::Text(x), Type::String) => {
            lemma_text_round_trip(x, rest);
        },
        (WireValue::Absent, Type::Optional(_)) => {},
        (WireValue::Present(x), Type::Optional(inner)) => {
            lemma_round_trip(*x, *inner, rest);
            assert(b.skip(1) =~= encode(*x, *inner) + rest);
        },
        (WireValue::List(vs), Type::Sequence(inner)) => {
            lemma_be_bytes_len(vs.len(), 4);
            lemma_be_round_trip(vs.len(), 4);
            assert(b.take(4) =~= be_bytes(vs.len(), 4));
            assert(b.skip(4) =~= encode_list(vs, *inner) + rest);
            lemma_list_round_trip(vs, *inner, rest);
        },
        (WireValue::Entries(ks, vs), Type::Dictionary(inner)) => {
            lemma_be_bytes_len(ks.len(), 4);
            lemma_be_round_trip(ks.len(), 4);
            assert(b.take(4) =~= be_bytes(ks.len(), 4));
            assert(b.skip(4) =~= encode_entries(ks, vs, *inner) + rest);
            lemma_entries_round_trip(ks, vs, *inner, rest);
        },
        _ => {},
    }
}

proof fn lemma_list_round_trip(vs: Seq<WireValue>, t: Type, rest: Seq<u8>)
    requires
        list_fits(vs, t),
    ensures
        decode_list(encode_list(vs, t) + rest, t, vs.len()) == Some(
            (vs, encode_list(vs, t).len()),
        ),
    decreases t, vs.len(),
{
    if vs.len() > 0 {
        let a = encode_list(vs.drop_last(), t);
        let c = encode(vs.last(), t);
        assert(encode_list(vs, t) + rest =~= a + (c + rest));
        lemma_list_round_trip(vs.drop_last(), t, c + rest);
        assert((a + (c + rest)).skip(a.len() as int) =~= c + rest);
        lemma_round_trip(vs.last(), t, rest);
        assert(vs.drop_last().push(vs.last()) =~= vs);
    }
}

proof fn lemma_entries_round_trip(ks: Seq<Seq<u8>>, vs: Seq<WireValue>, t: Type, rest: Seq<u8>)
    requires
        entries_fit(ks, vs, t),
    ensures
        decode_entries(encode_entries(ks, vs, t) + rest, t, vs.len()) == Some(
            (ks, vs, encode_entries(ks, vs, t).len()),
        ),
    decreases t, vs.len(),
{
    if vs.len() > 0 {
        let a = encode_entries(ks.drop_last(), vs.drop_last(), t);
        let e = encode_text(ks.last());
        let c = encode(vs.last(), t);
        assert(encode_entries(ks, vs, t) + rest =~= a + (e + (c + rest)));
        lemma_entries_round_trip(ks.drop_last(), vs.drop_last(), t, e + (c + rest));
        assert((a + (e + (c + rest))).skip(a.len() as int) =~= e + (c + rest));
        lemma_text_round_trip(ks.last(), c + rest);
        assert((a + (e + (c + rest))).skip((a.len() + e.len()) as int) =~= c + rest);
        lemma_round_trip(vs.last(), t, rest);
        assert(vs.drop_last().push(vs.last()) =~= vs);
        assert(ks.drop_last().push(ks.last()) =~= ks);
    }
}

/// For a type of fixed width, the size expression that the size calculator
/// emits is the decimal number of bytes that the encoding writes for any
/// value of that type.
pub proof fn lemma_fixed_size_text_counts_bytes(nm: Seq<char>, v: WireValue, t: Type)
    requires
        fits(v, t),
        fixed_width(t) is Some,
    ensures
        write_size_text(nm, t) == decimal_of(encode(v, t).len()),
{
    lemma_size_accurate(v, t);
}

} // verus!
