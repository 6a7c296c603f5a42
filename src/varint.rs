//! Base-128 variable-length integers, as used by the protobuf wire format.
use vstd::prelude::*;

verus! {

/// The bytes of `v` as a base-128 varint: seven bits per byte, least
/// significant group first, the high bit set on every byte but the last.
pub open spec fn varint_bytes(v: nat) -> Seq<u8>
    decreases v,
{
    if v < 128 {
        seq![v as u8]
    } else {
        seq![(v % 128 + 128) as u8] + varint_bytes(v / 128)
    }
}

/// Reads a varint from `s` starting at index `i`, where `acc` holds the value
/// read so far and `scale` the weight of the byte at `i`. At most ten bytes
/// are read. Gives the value and the index just past the varint.
pub open spec fn parse_varint_from(s: Seq<u8>, i: nat, acc: nat, scale: nat) -> Option<(nat, nat)>
    decreases 10 - i,
{
    if i >= 10 || i >= s.len() {
        None
    } else if s[i as int] < 128 {
        Some(((acc + s[i as int] * scale) as nat, i + 1))
    } else {
        parse_varint_from(s, i + 1, (acc + (s[i as int] - 128) * scale) as nat, scale * 128)
    }
}

/// The varint at the start of `s`, with the number of bytes it takes, if
/// there is one of at most ten bytes whose value fits in 64 bits.
pub open spec fn decode_varint_spec(s: Seq<u8>) -> Option<(u64, nat)> {
    match parse_varint_from(s, 0, 0, 1) {
        Some((v, n)) => if v <= u64::MAX {
            Some((v as u64, n))
        } else {
            None
        },
        None => None,
    }
}

/// Appends the varint of `v` to `out`.
pub fn encode_varint(v: u64, out: &mut Vec<u8>)
    ensures
        final(out)@ == old(out)@ + varint_bytes(v as nat),
{
    let mut rest: u64 = v;
    let ghost start = out@;
    while rest >= 128
        invariant
            out@ + varint_bytes(rest as nat) == start + varint_bytes(v as nat),
        decreases rest,
    {
        let b: u8 = (rest % 128 + 128) as u8;
        proof {
            assert(varint_bytes(rest as nat) == seq![b] + varint_bytes((rest / 128) as nat));
            assert(out@ + varint_bytes(rest as nat) == out@.push(b) + varint_bytes((rest / 128) as nat));
        }
        out.push(b);
        rest = rest / 128;
    }
    let b: u8 = rest as u8;
    assert(varint_bytes(rest as nat) == seq![b]);
    out.push(b);
    assert(out@ == start + varint_bytes(v as nat));
}


/// `128` to the power `k`.
pub open spec fn pow128(k: nat) -> nat
    decreases k,
{
    if k == 0 {
        1
    } else {
        128 * pow128((k - 1) as nat)
    }
}

proof fn lemma_pow128_monotone(a: nat, b: nat)
    requires
        a <= b,
    ensures
        1 <= pow128(a) <= pow128(b),
    decreases b,
{
    if b > 0 {
        if a < b {
            lemma_pow128_monotone(a, (b - 1) as nat);
        } else {
            lemma_pow128_monotone((a - 1) as nat, (b - 1) as nat);
        }
    }
}

proof fn lemma_pow128_values()
    ensures
        pow128(9) == 0x8000_0000_0000_0000,
        pow128(10) == 0x40_0000_0000_0000_0000,
{
    reveal_with_fuel(pow128, 11);
}

/// A varint of a value below `128^k` takes at most `k` bytes.
pub proof fn lemma_varint_len(v: nat, k: nat)
    requires
        1 <= k,
        v < pow128(k),
    ensures
        1 <= varint_bytes(v).len() <= k,
    decreases v,
{
    if v >= 128 {
        if k == 1 {
            assert(pow128(1) == 128) by {
                reveal_with_fuel(pow128, 2);
            }
        } else {
            assert(v / 128 < pow128((k - 1) as nat));
            lemma_varint_len(v / 128, (k - 1) as nat);
        }
    }
}

/// Reading from index `i` a varint that stands there gives back its value.
pub proof fn lemma_parse_varint(s: Seq<u8>, i: nat, acc: nat, scale: nat, v: nat)
    requires
        i + varint_bytes(v).len() <= 10,
        i + varint_bytes(v).len() <= s.len(),
        s.subrange(i as int, (i + varint_bytes(v).len()) as int) == varint_bytes(v),
    ensures
        parse_varint_from(s, i, acc, scale) == Some(((acc + v * scale) as nat, i + varint_bytes(v).len())),
    decreases v,
{
    let e = varint_bytes(v);
    assert(s[i as int] == e[0]);
    if v >= 128 {
        let rest = varint_bytes(v / 128);
        assert(e == seq![(v % 128 + 128) as u8] + rest);
        let ii = i as int;
        assert(s.subrange(ii + 1, ii + 1 + rest.len()) == rest) by {
            assert forall|j: int| 0 <= j < rest.len() implies s.subrange(ii + 1, ii + 1 + rest.len())[j] == rest[j] by {
                assert(s.subrange(ii, ii + e.len())[j + 1] == e[j + 1]);
            }
            assert(s.subrange(ii + 1, ii + 1 + rest.len()) =~= rest);
        }
        lemma_parse_varint(s, i + 1, (acc + (v % 128) * scale) as nat, scale * 128, v / 128);
        assert((acc + (v % 128) * scale) + (v / 128) * (scale * 128) == acc + v * scale) by (nonlinear_arith)
            requires
                v == (v / 128) * 128 + v % 128,
        ;
    }
}

/// The varint of a 64-bit value, followed by anything, decodes to that value.
pub proof fn lemma_varint_round_trip(v: u64, rest: Seq<u8>)
    ensures
        1 <= varint_bytes(v as nat).len() <= 10,
        decode_varint_spec(varint_bytes(v as nat) + rest) == Some((v, varint_bytes(v as nat).len())),
{
    lemma_pow128_values();
    lemma_varint_len(v as nat, 10);
    let e = varint_bytes(v as nat);
    let s = e + rest;
    assert(s.subrange(0, e.len() as int) == e);
    lemma_parse_varint(s, 0, 0, 1, v as nat);
}

/// Reads the varint that starts at `pos` in `buf`: its value and the index
/// just past it, or `None` where the bytes there are no valid varint.
pub fn decode_varint(buf: &[u8], pos: usize) -> (r: Option<(u64, usize)>)
    requires
        pos <= buf@.len(),
    ensures
        match decode_varint_spec(buf@.skip(pos as int)) {
            Some((v, n)) => r == Some((v, (pos + n) as usize)),
            None => r.is_none(),
        },
{
    let ghost t = buf@.skip(pos as int);
    let avail: usize = buf.len() - pos;
    let mut i: usize = 0;
    let mut acc: u128 = 0;
    let mut scale: u128 = 1;
    proof {
        lemma_pow128_values();
    }
    while i < 10 && i < avail
        invariant
            avail == t.len(),
            t == buf@.skip(pos as int),
            pos + avail == buf@.len(),
            buf@.len() <= usize::MAX,
            i <= 10,
            scale == pow128(i as nat),
            acc < scale,
            pow128(9) == 0x8000_0000_0000_0000,
            parse_varint_from(t, 0, 0, 1) == parse_varint_from(t, i as nat, acc as nat, scale as nat),
        decreases 10 - i,
    {
        let b: u8 = buf[pos + i];
        assert(b == t[i as int]);
        proof {
            lemma_pow128_monotone(i as nat, 9);
        }
        assert(b * scale <= 255 * 0x8000_0000_0000_0000) by (nonlinear_arith)
            requires
                b <= 255,
                scale <= 0x8000_0000_0000_0000,
        ;
        if b < 128 {
            let v: u128 = acc + (b as u128) * scale;
            if v <= u64::MAX as u128 {
                return Some((v as u64, pos + i + 1));
            } else {
                return None;
            }
        }
        assert(acc + (b - 128) * scale < scale * 128) by (nonlinear_arith)
            requires
                acc < scale,
                b - 128 < 128,
                b >= 128,
        ;
        acc = acc + ((b - 128) as u128) * scale;
        scale = scale * 128;
        i = i + 1;
    }
    None
}

} // verus!
