//! The proof-of-work record of a block header.
use vstd::prelude::*;
use vstd::slice::{slice_subrange, slice_to_vec};

use crate::text::{chars_to_string, hex_text, push_hex};
use crate::varint::{decode_varint, decode_varint_spec, encode_varint, lemma_varint_round_trip, varint_bytes};

verus! {

/// Marks a type that reports the difficulty it achieved.
pub trait AchievedDifficulty {}

/// The mining algorithm of a block.
#[derive(Debug, Clone, Copy, PartialEq, Eq, Structural)]
pub enum PowAlgorithm {
    Monero,
    Sha3,
}

/// The code of each algorithm.
pub open spec fn algo_code(a: PowAlgorithm) -> u8 {
    match a {
        PowAlgorithm::Monero => 0,
        PowAlgorithm::Sha3 => 1,
    }
}

/// The name of each algorithm.
pub open spec fn algo_name(a: PowAlgorithm) -> Seq<char> {
    match a {
        PowAlgorithm::Monero => seq!['M', 'o', 'n', 'e', 'r', 'o'],
        PowAlgorithm::Sha3 => seq!['S', 'h', 'a', '3'],
    }
}

impl PowAlgorithm {
    /// The code of this algorithm.
    pub fn as_u8(self) -> (r: u8)
        ensures
            r == algo_code(self),
    {
        match self {
            PowAlgorithm::Monero => 0,
            PowAlgorithm::Sha3 => 1,
        }
    }

    /// The algorithm of a code, if there is one.
    pub fn from_u64(v: u64) -> (r: Option<PowAlgorithm>)
        ensures
            v == 0 ==> r == Some(PowAlgorithm::Monero),
            v == 1 ==> r == Some(PowAlgorithm::Sha3),
            v > 1 ==> r is None,
    {
        if v == 0 {
            Some(PowAlgorithm::Monero)
        } else if v == 1 {
            Some(PowAlgorithm::Sha3)
        } else {
            None
        }
    }

    fn push_name(self, out: &mut Vec<char>)
        ensures
            final(out)@ == old(out)@ + algo_name(self),
    {
        match self {
            PowAlgorithm::Monero => {
                out.push('M');
                out.push('o');
                out.push('n');
                out.push('e');
                out.push('r');
                out.push('o');
            },
            PowAlgorithm::Sha3 => {
                out.push('S');
                out.push('h');
                out.push('a');
                out.push('3');
            },
        }
        assert(out@ =~= old(out)@ + algo_name(self));
    }
}

/// The largest supplemental proof-of-work data, in bytes.
pub const MAX_POW_DATA_SIZE: usize = 5120;

/// The proof of work of a block header: the algorithm used to mine it and
/// the data that algorithm needs beyond the header.
#[derive(Debug, Clone)]
pub struct ProofOfWork {
    pub pow_algo: PowAlgorithm,
    pub pow_data: Vec<u8>,
}

/// The bytes of a proof of work as fed to a hash: its algorithm code, then
/// its data.
pub open spec fn pow_bytes(algo: PowAlgorithm, data: Seq<u8>) -> Seq<u8> {
    seq![algo_code(algo)] + data
}

/// The text of a proof of work: its algorithm's name, then its data in
/// hexadecimal, each on a line.
pub open spec fn pow_text(algo: PowAlgorithm, data: Seq<u8>) -> Seq<char> {
    seq!['M', 'i', 'n', 'i', 'n', 'g', ' ', 'a', 'l', 'g', 'o', 'r', 'i', 't', 'h', 'm', ':', ' ']
        + algo_name(algo) + seq!['\n'] + seq!['P', 'o', 'w', ' ', 'd', 'a', 't', 'a', ':', ' ']
        + hex_text(data) + seq!['\n']
}

/// The consensus encoding of a proof of work: the algorithm code as a
/// varint, then the data's length as a varint, then the data.
pub open spec fn pow_consensus_bytes(algo: PowAlgorithm, data: Seq<u8>) -> Seq<u8> {
    varint_bytes(algo_code(algo) as nat) + varint_bytes(data.len()) + data
}

/// The proof of work that `s` starts with, and the bytes it takes: the
/// algorithm code must name an algorithm and the data must not exceed
/// `MAX_POW_DATA_SIZE` bytes or run past the end of `s`.
pub open spec fn pow_decode_spec(s: Seq<u8>) -> Option<(PowAlgorithm, Seq<u8>, nat)> {
    match decode_varint_spec(s) {
        None => None,
        Some((code, n)) => if code > 1 {
            None
        } else {
            match decode_varint_spec(s.skip(n as int)) {
                None => None,
                Some((len, m)) => if len > MAX_POW_DATA_SIZE || n + m + len > s.len() {
                    None
                } else {
                    Some(
                        (
                            if code == 0 {
                                PowAlgorithm::Monero
                            } else {
                                PowAlgorithm::Sha3
                            },
                            s.subrange((n + m) as int, (n + m + len) as int),
                            (n + m + len) as nat,
                        ),
                    )
                },
            }
        },
    }
}

/// The bytes did not hold a proof of work.
#[derive(Debug, Clone, Copy, PartialEq, Eq, Structural)]
pub struct PowDecodeError;

impl ProofOfWork {
    /// A proof of work for `pow_algo`, with no data.
    pub fn new(pow_algo: PowAlgorithm) -> (r: ProofOfWork)
        ensures
            r.pow_algo == pow_algo,
            r.pow_data@.len() == 0,
    {
        ProofOfWork { pow_algo, pow_data: Vec::new() }
    }

    /// The bytes fed to a hash: the algorithm code, then the data.
    pub fn to_bytes(&self) -> (r: Vec<u8>)
        ensures
            r@ == pow_bytes(self.pow_algo, self.pow_data@),
    {
        let mut buf: Vec<u8> = Vec::new();
        buf.push(self.pow_algo.as_u8());
        buf.extend_from_slice(self.pow_data.as_slice());
        assert(buf@ =~= pow_bytes(self.pow_algo, self.pow_data@));
        buf
    }

    /// The text of the proof of work: algorithm and data, a line each.
    pub fn to_display_string(&self) -> (r: String)
        ensures
            r@ == pow_text(self.pow_algo, self.pow_data@),
    {
        let mut out: Vec<char> = Vec::new();
        out.push('M');
        out.push('i');
        out.push('n');
        out.push('i');
        out.push('n');
        out.push('g');
        out.push(' ');
        out.push('a');
        out.push('l');
        out.push('g');
        out.push('o');
        out.push('r');
        out.push('i');
        out.push('t');
        out.push('h');
        out.push('m');
        out.push(':');
        out.push(' ');
        self.pow_algo.push_name(&mut out);
        out.push('\n');
        out.push('P');
        out.push('o');
        out.push('w');
        out.push(' ');
        out.push('d');
        out.push('a');
        out.push('t');
        out.push('a');
        out.push(':');
        out.push(' ');
        push_hex(self.pow_data.as_slice(), &mut out);
        out.push('\n');
        assert(out@ =~= pow_text(self.pow_algo, self.pow_data@));
        chars_to_string(&out)
    }

    /// The consensus encoding of the proof of work.
    pub fn consensus_encode(&self) -> (r: Vec<u8>)
        ensures
            r@ == pow_consensus_bytes(self.pow_algo, self.pow_data@),
    {
        let mut out: Vec<u8> = Vec::new();
        encode_varint(self.pow_algo.as_u8() as u64, &mut out);
        encode_varint(self.pow_data.len() as u64, &mut out);
        out.extend_from_slice(self.pow_data.as_slice());
        assert(out@ =~= pow_consensus_bytes(self.pow_algo, self.pow_data@));
        out
    }

    /// Decodes a proof of work from the front of `buf`, with the number of
    /// bytes it took.
    pub fn consensus_decode(buf: &[u8]) -> (r: Result<(ProofOfWork, usize), PowDecodeError>)
        ensures
            match pow_decode_spec(buf@) {
                None => r is Err,
                Some((a, d, n)) => r matches Ok((p, m)) && p.pow_algo == a && p.pow_data@ == d && m == n,
            },
    {
        let blen: usize = buf.len();
        assert(buf@.skip(0) =~= buf@);
        let first = decode_varint(buf, 0);
        if first.is_none() {
            return Err(PowDecodeError);
        }
        let (code, after_code) = first.unwrap();
        let algo = match PowAlgorithm::from_u64(code) {
            Some(a) => a,
            None => {
                return Err(PowDecodeError);
            },
        };
        proof {
            crate::wire::lemma_decode_varint_bounds(buf@);
        }
        let second = decode_varint(buf, after_code);
        assert(buf@.skip(after_code as int) =~= buf@.skip(0).skip(after_code as int));
        if second.is_none() {
            return Err(PowDecodeError);
        }
        let (len, start) = second.unwrap();
        proof {
            crate::wire::lemma_decode_varint_bounds(buf@.skip(after_code as int));
        }
        if len > MAX_POW_DATA_SIZE as u64 || len > (blen - start) as u64 {
            return Err(PowDecodeError);
        }
        let end: usize = start + len as usize;
        let mut pow = ProofOfWork::new(algo);
        pow.pow_data = slice_to_vec(slice_subrange(buf, start, end));
        Ok((pow, end))
    }
}

/// Decoding the consensus encoding of a proof of work, with anything after
/// it, gives it back.
pub proof fn lemma_pow_round_trip(algo: PowAlgorithm, data: Seq<u8>, rest: Seq<u8>)
    requires
        data.len() <= MAX_POW_DATA_SIZE,
    ensures
        pow_decode_spec(pow_consensus_bytes(algo, data) + rest) == Some(
            (algo, data, pow_consensus_bytes(algo, data).len()),
        ),
{
    let cb = varint_bytes(algo_code(algo) as nat);
    let lb = varint_bytes(data.len());
    let s = pow_consensus_bytes(algo, data) + rest;
    assert(s =~= cb + (lb + (data + rest)));
    lemma_varint_round_trip(algo_code(algo) as u64, lb + (data + rest));
    lemma_varint_round_trip(data.len() as u64, data + rest);
    assert(s.skip(cb.len() as int) =~= lb + (data + rest));
    assert(s.subrange((cb.len() + lb.len()) as int, (cb.len() + lb.len() + data.len()) as int) =~= data);
}

impl Default for ProofOfWork {
    fn default() -> (r: ProofOfWork)
        ensures
            r.pow_algo == PowAlgorithm::Sha3,
            r.pow_data@.len() == 0,
    {
        ProofOfWork::new(PowAlgorithm::Sha3)
    }
}

} // verus!
