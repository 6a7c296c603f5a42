//! Writing numbers as text: decimal digits, zero padding, and thousands
//! separators.
use vstd::prelude::*;
use vstd::std_specs::iter::IteratorSpec;

verus! {

/// The decimal digit of `d`, which is below ten.
pub open spec fn digit_char(d: nat) -> char {
    if d == 0 {
        '0'
    } else if d == 1 {
        '1'
    } else if d == 2 {
        '2'
    } else if d == 3 {
        '3'
    } else if d == 4 {
        '4'
    } else if d == 5 {
        '5'
    } else if d == 6 {
        '6'
    } else if d == 7 {
        '7'
    } else if d == 8 {
        '8'
    } else {
        '9'
    }
}

/// `n` in decimal, without leading zeros.
pub open spec fn decimal(n: nat) -> Seq<char>
    decreases n,
{
    if n < 10 {
        seq![digit_char(n)]
    } else {
        decimal(n / 10).push(digit_char(n % 10))
    }
}

/// The last `k` decimal digits of `n`, with leading zeros.
pub open spec fn padded(n: nat, k: nat) -> Seq<char>
    decreases k,
{
    if k == 0 {
        Seq::empty()
    } else {
        padded(n / 10, (k - 1) as nat).push(digit_char(n % 10))
    }
}

/// `k` zeros.
pub open spec fn zeros(k: nat) -> Seq<char> {
    Seq::new(k, |i: int| '0')
}

/// Ten to the power `k`.
pub open spec fn pow10(k: nat) -> nat
    decreases k,
{
    if k == 0 {
        1
    } else {
        10 * pow10((k - 1) as nat)
    }
}

fn digit_of(d: u64) -> (c: char)
    requires
        d < 10,
    ensures
        c == digit_char(d as nat),
{
    if d == 0 {
        '0'
    } else if d == 1 {
        '1'
    } else if d == 2 {
        '2'
    } else if d == 3 {
        '3'
    } else if d == 4 {
        '4'
    } else if d == 5 {
        '5'
    } else if d == 6 {
        '6'
    } else if d == 7 {
        '7'
    } else if d == 8 {
        '8'
    } else {
        '9'
    }
}

/// Appends `n` in decimal.
pub fn push_decimal(n: u64, out: &mut Vec<char>)
    ensures
        final(out)@ == old(out)@ + decimal(n as nat),
    decreases n,
{
    if n < 10 {
        out.push(digit_of(n));
        assert(decimal(n as nat) == seq![digit_char(n as nat)]);
        assert(final(out)@ =~= old(out)@ + decimal(n as nat));
    } else {
        push_decimal(n / 10, out);
        out.push(digit_of(n % 10));
        assert(out@ =~= old(out)@ + decimal(n as nat));
    }
}

/// Appends the last `k` decimal digits of `n`, with leading zeros.
pub fn push_padded(n: u64, k: usize, out: &mut Vec<char>)
    ensures
        final(out)@ == old(out)@ + padded(n as nat, k as nat),
    decreases k,
{
    if k == 0 {
        assert(out@ =~= old(out)@ + padded(n as nat, 0));
    } else {
        push_padded(n / 10, k - 1, out);
        out.push(digit_of(n % 10));
        assert(out@ =~= old(out)@ + padded(n as nat, k as nat));
    }
}

/// Appends `k` zeros.
pub fn push_zeros(k: usize, out: &mut Vec<char>)
    ensures
        final(out)@ == old(out)@ + zeros(k as nat),
{
    let ghost start = out@;
    let mut i: usize = 0;
    while i < k
        invariant
            i <= k,
            out@ == start + zeros(i as nat),
        decreases k - i,
    {
        out.push('0');
        i = i + 1;
        assert(out@ =~= start + zeros(i as nat));
    }
}

/// The lower-case hexadecimal digit of `d`, which is below 16.
pub open spec fn hex_digit(d: nat) -> char {
    if d < 10 {
        digit_char(d)
    } else if d == 10 {
        'a'
    } else if d == 11 {
        'b'
    } else if d == 12 {
        'c'
    } else if d == 13 {
        'd'
    } else if d == 14 {
        'e'
    } else {
        'f'
    }
}

/// `b` in lower-case hexadecimal, two digits per byte.
pub open spec fn hex_text(b: Seq<u8>) -> Seq<char>
    decreases b.len(),
{
    if b.len() == 0 {
        Seq::empty()
    } else {
        hex_text(b.drop_last()) + seq![hex_digit(b.last() as nat / 16), hex_digit(b.last() as nat % 16)]
    }
}

fn hex_digit_of(d: u8) -> (c: char)
    requires
        d < 16,
    ensures
        c == hex_digit(d as nat),
{
    if d < 10 {
        let c = if d == 0 {
            '0'
        } else if d == 1 {
            '1'
        } else if d == 2 {
            '2'
        } else if d == 3 {
            '3'
        } else if d == 4 {
            '4'
        } else if d == 5 {
            '5'
        } else if d == 6 {
            '6'
        } else if d == 7 {
            '7'
        } else if d == 8 {
            '8'
        } else {
            '9'
        };
        c
    } else if d == 10 {
        'a'
    } else if d == 11 {
        'b'
    } else if d == 12 {
        'c'
    } else if d == 13 {
        'd'
    } else if d == 14 {
        'e'
    } else {
        'f'
    }
}

/// Appends `b` in lower-case hexadecimal.
pub fn push_hex(b: &[u8], out: &mut Vec<char>)
    ensures
        final(out)@ == old(out)@ + hex_text(b@),
{
    let ghost start = out@;
    let mut i: usize = 0;
    while i < b.len()
        invariant
            i <= b@.len(),
            out@ == start + hex_text(b@.take(i as int)),
        decreases b@.len() - i,
    {
        let x = b[i];
        out.push(hex_digit_of(x / 16));
        out.push(hex_digit_of(x % 16));
        assert(b@.take(i + 1).drop_last() =~= b@.take(i as int));
        i = i + 1;
        assert(out@ =~= start + hex_text(b@.take(i as int)));
    }
    assert(b@.take(i as int) =~= b@);
}

/// The text of a sequence of characters.
/// Relies on `String`'s `FromIterator<&char>`: the text holds the
/// characters in order.
#[verifier::external_body]
pub(crate) fn chars_to_string(v: &Vec<char>) -> (r: String)
    ensures
        r@ == v@,
{
    v.iter().collect()
}

/// The characters of a text, in order.
pub fn str_to_chars(s: &str) -> (r: Vec<char>)
    ensures
        r@ == s@,
{
    broadcast use vstd::string::group_string_axioms;

    let mut it = s.chars();
    let mut out: Vec<char> = Vec::new();
    loop
        invariant
            out@ + it.remaining() == s@,
            it.decrease() is Some,
        ensures
            out@ == s@,
        decreases it.decrease()->0,
    {
        match it.next() {
            Some(c) => {
                out.push(c);
            },
            None => {
                assert(out@ =~= out@ + it.remaining());
                break;
            },
        }
    }
    out
}

/// The index of the first `.` of `v` at or after `i`, or its length.
pub open spec fn dot_from(v: Seq<char>, i: int) -> int
    decreases v.len() - i,
{
    if i >= v.len() {
        v.len() as int
    } else if v[i] == '.' {
        i
    } else {
        dot_from(v, i + 1)
    }
}

/// The characters of `w` from index `i` on, with `sep` after each one that
/// is followed by a nonzero multiple of three digits.
pub open spec fn grouped_from(w: Seq<char>, i: int, sep: char) -> Seq<char>
    decreases w.len() - i,
{
    if i >= w.len() {
        Seq::empty()
    } else {
        let left = w.len() - 1 - i;
        seq![w[i]] + (if left > 0 && left % 3 == 0 {
            seq![sep]
        } else {
            Seq::empty()
        }) + grouped_from(w, i + 1, sep)
    }
}

/// A number written as text with `sep` between groups of three digits of
/// its whole part; the part from the first `.` on is kept as it is.
pub open spec fn format_currency_spec(v: Seq<char>, sep: char) -> Seq<char> {
    let dot = dot_from(v, 0);
    grouped_from(v.take(dot), 0, sep) + v.skip(dot)
}

/// Appends `v` with separators put in, as [`format_currency_spec`] says.
pub fn push_format_currency(v: &Vec<char>, sep: char, out: &mut Vec<char>)
    ensures
        final(out)@ == old(out)@ + format_currency_spec(v@, sep),
{
    let len: usize = v.len();
    let mut dot: usize = 0;
    while dot < len && v[dot] != '.'
        invariant
            dot <= len,
            len == v@.len(),
            dot_from(v@, 0) == dot_from(v@, dot as int),
        decreases len - dot,
    {
        dot = dot + 1;
    }
    assert(dot_from(v@, dot as int) == dot as int);
    let ghost w = v@.take(dot as int);
    let ghost start = out@;
    let mut i: usize = 0;
    while i < dot
        invariant
            i <= dot <= len,
            len == v@.len(),
            w == v@.take(dot as int),
            out@ + grouped_from(w, i as int, sep) == start + grouped_from(w, 0, sep),
        decreases dot - i,
    {
        let c = v[i];
        let left: usize = dot - 1 - i;
        let ghost before = out@;
        assert(w[i as int] == c);
        out.push(c);
        if left > 0 && left % 3 == 0 {
            out.push(sep);
            assert(before + grouped_from(w, i as int, sep) =~= out@ + grouped_from(w, i + 1, sep));
        } else {
            assert(before + grouped_from(w, i as int, sep) =~= out@ + grouped_from(w, i + 1, sep));
        }
        i = i + 1;
    }
    assert(grouped_from(w, dot as int, sep) =~= Seq::<char>::empty());
    assert(out@ =~= start + grouped_from(w, 0, sep));
    let mut j: usize = dot;
    let ghost mid = out@;
    while j < len
        invariant
            dot <= j <= len,
            len == v@.len(),
            out@ == mid + v@.subrange(dot as int, j as int),
        decreases len - j,
    {
        out.push(v[j]);
        j = j + 1;
        assert(out@ =~= mid + v@.subrange(dot as int, j as int));
    }
    assert(v@.subrange(dot as int, len as int) =~= v@.skip(dot as int));
    assert(out@ =~= start + format_currency_spec(v@, sep));
}

/// Writes `value`, a number as text, with `separator` between groups of
/// three digits of its whole part.
pub fn format_currency(value: &str, separator: char) -> (r: String)
    ensures
        r@ == format_currency_spec(value@, separator),
{
    let v = str_to_chars(value);
    let mut out: Vec<char> = Vec::new();
    push_format_currency(&v, separator, &mut out);
    assert(out@ =~= format_currency_spec(value@, separator));
    chars_to_string(&out)
}

} // verus!
