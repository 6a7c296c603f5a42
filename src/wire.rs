//! Protobuf fields on the wire: reading one field at a time, and the bytes
//! that an unsigned or a bytes field is written as.
use vstd::prelude::*;

use crate::varint::{decode_varint, decode_varint_spec, lemma_varint_round_trip, varint_bytes, encode_varint, parse_varint_from};

verus! {

/// What a field read off the wire holds, in the model.
pub enum WireValue {
    Varint(u64),
    Bytes(Seq<u8>),
    /// A fixed-width field (32 or 64 bits), which the messages here skip.
    Fixed,
}

/// What a field read off the wire holds: a bytes field is given by its
/// bounds in the buffer.
pub enum FieldValue {
    Varint(u64),
    Bytes(usize, usize),
    Fixed,
}

/// The first field of `s`: its number, its value and the number of bytes it
/// takes. `None` where `s` does not start with a well-formed field of wire
/// type 0 (varint), 1 (64-bit), 2 (length-delimited) or 5 (32-bit).
pub open spec fn parse_field(s: Seq<u8>) -> Option<(u64, WireValue, nat)> {
    match decode_varint_spec(s) {
        None => None,
        Some((key, n)) => {
            let field = key / 8;
            let wt = key % 8;
            if key > u32::MAX || field == 0 {
                None
            } else if wt == 0 {
                match decode_varint_spec(s.skip(n as int)) {
                    Some((v, m)) => Some((field, WireValue::Varint(v), n + m)),
                    None => None,
                }
            } else if wt == 1 {
                if n + 8 <= s.len() {
                    Some((field, WireValue::Fixed, n + 8))
                } else {
                    None
                }
            } else if wt == 2 {
                match decode_varint_spec(s.skip(n as int)) {
                    Some((len, m)) => if n + m + len <= s.len() {
                        Some(
                            (
                                field,
                                WireValue::Bytes(s.subrange((n + m) as int, (n + m + len) as int)),
                                (n + m + len) as nat,
                            ),
                        )
                    } else {
                        None
                    },
                    None => None,
                }
            } else if wt == 5 {
                if n + 4 <= s.len() {
                    Some((field, WireValue::Fixed, n + 4))
                } else {
                    None
                }
            } else {
                None
            }
        },
    }
}

/// An unsigned field as written: nothing for zero, else key and varint.
pub open spec fn uint_field(field: nat, v: nat) -> Seq<u8> {
    if v == 0 {
        Seq::empty()
    } else {
        varint_bytes(field * 8) + varint_bytes(v)
    }
}

/// A bytes field as written: nothing when empty, else key, length and bytes.
pub open spec fn bytes_field(field: nat, p: Seq<u8>) -> Seq<u8> {
    if p.len() == 0 {
        Seq::empty()
    } else {
        varint_bytes(field * 8 + 2) + varint_bytes(p.len()) + p
    }
}

/// The low 32 bits of a 64-bit value, as a protobuf `uint32` field reads it.
pub open spec fn low32(x: u64) -> u32 {
    (x % 0x1_0000_0000) as u32
}

proof fn lemma_parse_varint_bounds(s: Seq<u8>, i: nat, acc: nat, scale: nat)
    ensures
        match parse_varint_from(s, i, acc, scale) {
            Some((v, n)) => i < n <= s.len(),
            None => true,
        },
    decreases 10 - i,
{
    if i < 10 && i < s.len() && s[i as int] >= 128 {
        lemma_parse_varint_bounds(s, i + 1, (acc + (s[i as int] - 128) * scale) as nat, scale * 128);
    }
}

/// A varint that decodes takes at least one byte and no more than there are.
pub proof fn lemma_decode_varint_bounds(s: Seq<u8>)
    ensures
        match decode_varint_spec(s) {
            Some((v, n)) => 1 <= n <= s.len(),
            None => true,
        },
{
    lemma_parse_varint_bounds(s, 0, 0, 1);
}

/// A field that parses takes at least one byte and no more than there are.
pub proof fn lemma_parse_field_bounds(s: Seq<u8>)
    ensures
        match parse_field(s) {
            Some((f, v, n)) => 1 <= n <= s.len(),
            None => true,
        },
{
    lemma_decode_varint_bounds(s);
    match decode_varint_spec(s) {
        Some((key, n)) => {
            lemma_decode_varint_bounds(s.skip(n as int));
        },
        None => {},
    }
}

/// A nonzero unsigned field, followed by anything, reads back as written.
pub proof fn lemma_uint_field_round_trip(field: u64, v: u64, rest: Seq<u8>)
    requires
        1 <= field < 16,
        v != 0,
    ensures
        parse_field(uint_field(field as nat, v as nat) + rest) == Some(
            (field, WireValue::Varint(v), uint_field(field as nat, v as nat).len()),
        ),
        (uint_field(field as nat, v as nat) + rest).skip(uint_field(field as nat, v as nat).len() as int)
            == rest,
{
    let key: u64 = (field * 8) as u64;
    let kb = varint_bytes(key as nat);
    let vb = varint_bytes(v as nat);
    let s = uint_field(field as nat, v as nat) + rest;
    assert(s == kb + (vb + rest));
    lemma_varint_round_trip(key, vb + rest);
    lemma_varint_round_trip(v, rest);
    assert(s.skip(kb.len() as int) == vb + rest);
    assert((vb + rest).skip(vb.len() as int) == rest);
    assert(s.skip((kb.len() + vb.len()) as int) == rest);
}

/// A nonempty bytes field, followed by anything, reads back as written.
pub proof fn lemma_bytes_field_round_trip(field: u64, p: Seq<u8>, rest: Seq<u8>)
    requires
        1 <= field < 16,
        0 < p.len() <= u64::MAX,
    ensures
        parse_field(bytes_field(field as nat, p) + rest) == Some(
            (field, WireValue::Bytes(p), bytes_field(field as nat, p).len()),
        ),
        (bytes_field(field as nat, p) + rest).skip(bytes_field(field as nat, p).len() as int) == rest,
{
    let key: u64 = (field * 8 + 2) as u64;
    let kb = varint_bytes(key as nat);
    let lb = varint_bytes(p.len());
    let s = bytes_field(field as nat, p) + rest;
    assert(s == kb + (lb + (p + rest)));
    lemma_varint_round_trip(key, lb + (p + rest));
    lemma_varint_round_trip(p.len() as u64, p + rest);
    assert(s.skip(kb.len() as int) == lb + (p + rest));
    let n = kb.len();
    let m = lb.len();
    assert(s.subrange((n + m) as int, (n + m + p.len()) as int) == p);
    assert(s.skip((n + m + p.len()) as int) == rest);
}

/// Reads the field that starts at `pos` in `buf`.
pub fn read_field(buf: &[u8], pos: usize) -> (r: Option<(u64, FieldValue, usize)>)
    requires
        pos <= buf@.len(),
    ensures
        match parse_field(buf@.skip(pos as int)) {
            None => r.is_none(),
            Some((f, v, n)) => match r {
                None => false,
                Some((rf, rv, next)) => rf == f && next == pos + n && match (v, rv) {
                    (WireValue::Varint(a), FieldValue::Varint(b)) => a == b,
                    (WireValue::Bytes(p), FieldValue::Bytes(lo, hi)) => pos <= lo <= hi <= buf@.len()
                        && buf@.subrange(lo as int, hi as int) == p,
                    (WireValue::Fixed, FieldValue::Fixed) => true,
                    _ => false,
                },
            },
        },
{
    let ghost s = buf@.skip(pos as int);
    proof {
        lemma_decode_varint_bounds(s);
    }
    let blen: usize = buf.len();
    let first = decode_varint(buf, pos);
    if first.is_none() {
        return None;
    }
    let (key, after_key) = first.unwrap();
    assert(s.len() == blen - pos);
    let ghost n = (after_key - pos) as nat;
    assert(decode_varint_spec(s) == Some((key, n)));
    assert(pos <= after_key <= buf@.len());
    assert(buf@.skip(after_key as int) =~= s.skip(n as int));
    proof {
        lemma_decode_varint_bounds(s.skip(n as int));
    }
    let field: u64 = key / 8;
    let wt: u64 = key % 8;
    if key > 0xFFFF_FFFF || field == 0 {
        None
    } else if wt == 0 {
        match decode_varint(buf, after_key) {
            None => None,
            Some((v, next)) => Some((field, FieldValue::Varint(v), next)),
        }
    } else if wt == 1 {
        if buf.len() - after_key >= 8 {
            Some((field, FieldValue::Fixed, after_key + 8))
        } else {
            None
        }
    } else if wt == 2 {
        match decode_varint(buf, after_key) {
            None => None,
            Some((len, start)) => {
                if (buf.len() - start) as u64 >= len {
                    let end: usize = start + len as usize;
                    assert(buf@.subrange(start as int, end as int) =~= s.subrange(
                        (start - pos) as int,
                        (end - pos) as int,
                    ));
                    Some((field, FieldValue::Bytes(start, end), end))
                } else {
                    None
                }
            },
        }
    } else if wt == 5 {
        if buf.len() - after_key >= 4 {
            Some((field, FieldValue::Fixed, after_key + 4))
        } else {
            None
        }
    } else {
        None
    }
}

/// Appends an unsigned field: nothing for zero, else its key and value.
pub fn put_uint_field(field: u64, v: u64, out: &mut Vec<u8>)
    requires
        1 <= field < 16,
    ensures
        final(out)@ == old(out)@ + uint_field(field as nat, v as nat),
{
    if v != 0 {
        encode_varint(field * 8, out);
        encode_varint(v, out);
    } else {
        assert(old(out)@ + uint_field(field as nat, v as nat) == old(out)@);
    }
}

/// Appends a bytes field: nothing when empty, else key, length and bytes.
pub fn put_bytes_field(field: u64, p: &[u8], out: &mut Vec<u8>)
    requires
        1 <= field < 16,
    ensures
        final(out)@ == old(out)@ + bytes_field(field as nat, p@),
{
    if p.len() != 0 {
        encode_varint(field * 8 + 2, out);
        encode_varint(p.len() as u64, out);
        let ghost before = out@;
        out.extend_from_slice(p);
        assert(out@ == before + p@);
    } else {
        assert(old(out)@ + bytes_field(field as nat, p@) == old(out)@);
    }
}

} // verus!
