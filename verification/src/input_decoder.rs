//! From raw bytes to an evaluation point.
//!
//! The first `8 * n` bytes of the input spell `n` doubles, each as eight bytes
//! with the least significant first. A double is handed on as its bit pattern.

use crate::entropy::little_endian;
use vstd::prelude::*;

verus! {

/// Why no point was decoded.
#[derive(Debug, Clone, Copy, PartialEq, Eq, Structural)]
pub enum DecodeError {
    /// The input has fewer than eight bytes for each coordinate.
    NotEnoughData,
}

/// The bit pattern that the eight bytes from position `8 * i` spell.
pub open spec fn word(data: Seq<u8>, i: int) -> u64 {
    little_endian(data.subrange(8 * i, 8 * i + 8)) as u64
}

/// The point of `n` coordinates at the front of `data`, if there are bytes
/// enough.
pub open spec fn decoded(data: Seq<u8>, n: nat) -> Option<Seq<u64>> {
    if data.len() < 8 * n {
        None
    } else {
        Some(Seq::new(n, |i: int| word(data, i)))
    }
}

/// How an exec result relates to a decoded point.
pub open spec fn decodes(r: Result<Vec<u64>, DecodeError>, m: Option<Seq<u64>>) -> bool {
    match m {
        Some(point) => r is Ok && r->Ok_0@ == point,
        None => r == Err::<Vec<u64>, DecodeError>(DecodeError::NotEnoughData),
    }
}

/// Eight bytes with the least significant first spell a number below `2^64`.
pub proof fn eight_bytes(w: Seq<u8>)
    requires
        w.len() == 8,
    ensures
        little_endian(w) == w[0] as nat + 0x100 * (w[1] as nat) + 0x1_0000 * (w[2] as nat)
            + 0x100_0000 * (w[3] as nat) + 0x1_0000_0000 * (w[4] as nat) + 0x100_0000_0000 * (
        w[5] as nat) + 0x1_0000_0000_0000 * (w[6] as nat) + 0x100_0000_0000_0000 * (w[7] as nat),
        little_endian(w) <= u64::MAX,
{
    let w1 = w.skip(1);
    let w2 = w1.skip(1);
    let w3 = w2.skip(1);
    let w4 = w3.skip(1);
    let w5 = w4.skip(1);
    let w6 = w5.skip(1);
    let w7 = w6.skip(1);
    let w8 = w7.skip(1);
    assert(little_endian(w8) == 0);
    assert(little_endian(w7) == w7[0] as nat + 256 * little_endian(w8));
    assert(little_endian(w6) == w6[0] as nat + 256 * little_endian(w7));
    assert(little_endian(w5) == w5[0] as nat + 256 * little_endian(w6));
    assert(little_endian(w4) == w4[0] as nat + 256 * little_endian(w5));
    assert(little_endian(w3) == w3[0] as nat + 256 * little_endian(w4));
    assert(little_endian(w2) == w2[0] as nat + 256 * little_endian(w3));
    assert(little_endian(w1) == w1[0] as nat + 256 * little_endian(w2));
    assert(little_endian(w) == w[0] as nat + 256 * little_endian(w1));
}

/// The bit pattern that the eight bytes from position `8 * i` spell.
fn read_word(data: &[u8], i: usize) -> (bits: u64)
    requires
        8 * i + 8 <= data@.len(),
    ensures
        bits == word(data@, i as int),
{
    let length = data.len();
    assert(8 * i + 8 <= length);
    let base = 8 * i;
    proof {
        let w = data@.subrange(8 * i as int, 8 * i as int + 8);
        eight_bytes(w);
        assert(forall|j: int| 0 <= j < 8 ==> w[j] == data@[base + j]);
    }
    let b0 = data[base] as u64;
    let b1 = data[base + 1] as u64;
    let b2 = data[base + 2] as u64;
    let b3 = data[base + 3] as u64;
    let b4 = data[base + 4] as u64;
    let b5 = data[base + 5] as u64;
    let b6 = data[base + 6] as u64;
    let b7 = data[base + 7] as u64;
    b0 + 0x100 * b1 + 0x1_0000 * b2 + 0x100_0000 * b3 + 0x1_0000_0000 * b4 + 0x100_0000_0000 * b5
        + 0x1_0000_0000_0000 * b6 + 0x100_0000_0000_0000 * b7
}

/// Decodes the `n` coordinates at the front of `data`.
pub fn decode_point(data: &[u8], n: usize) -> (r: Result<Vec<u64>, DecodeError>)
    ensures
        decodes(r, decoded(data@, n as nat)),
{
    if n > data.len() / 8 {
        return Err(DecodeError::NotEnoughData);
    }
    let mut point: Vec<u64> = Vec::new();
    let mut i: usize = 0;
    while i < n
        invariant
            i <= n,
            8 * n <= data@.len(),
            point@ == Seq::new(i as nat, |j: int| word(data@, j)),
        decreases n - i,
    {
        point.push(read_word(data, i));
        assert(point@ =~= Seq::new((i + 1) as nat, |j: int| word(data@, j)));
        i = i + 1;
    }
    Ok(point)
}

/// A rule that turns raw bytes into an evaluation point.
pub trait FuzzInputDecoder {
    /// The number of coordinates of the point.
    spec fn arity(&self) -> usize;

    /// The number of coordinates that the decoder produces.
    fn num_inputs(&self) -> (n: usize)
        ensures
            n == self.arity(),
    ;

    /// The number of bytes that the decoder needs: eight for each coordinate,
    /// and the largest number there is where that cannot be counted.
    fn min_bytes(&self) -> (n: usize)
        ensures
            n == if 8 * self.arity() <= usize::MAX {
                (8 * self.arity()) as usize
            } else {
                usize::MAX
            },
    ;

    /// Decodes the point at the front of `data`.
    fn decode(&self, data: &[u8]) -> (r: Result<Vec<u64>, DecodeError>)
        ensures
            decodes(r, decoded(data@, self.arity() as nat)),
    ;
}

/// Eight times `n`, or the largest number there is.
fn eight_times(n: usize) -> (r: usize)
    ensures
        r == if 8 * n <= usize::MAX {
            (8 * n) as usize
        } else {
            usize::MAX
        },
{
    if n > usize::MAX / 8 {
        usize::MAX
    } else {
        8 * n
    }
}

/// The decoder for functions of exactly two inputs.
#[derive(Debug, Clone, Copy)]
pub struct TwoInputDecoder;

impl FuzzInputDecoder for TwoInputDecoder {
    open spec fn arity(&self) -> usize {
        2
    }

    fn num_inputs(&self) -> (n: usize) {
        2
    }

    fn min_bytes(&self) -> (n: usize) {
        eight_times(2)
    }

    fn decode(&self, data: &[u8]) -> (r: Result<Vec<u64>, DecodeError>) {
        decode_point(data, 2)
    }
}

/// The decoder for functions of `input_length` inputs.
#[derive(Debug, Clone, Copy)]
pub struct GeneralInputDecoder {
    pub input_length: usize,
}

impl FuzzInputDecoder for GeneralInputDecoder {
    open spec fn arity(&self) -> usize {
        self.input_length
    }

    fn num_inputs(&self) -> (n: usize) {
        self.input_length
    }

    fn min_bytes(&self) -> (n: usize) {
        eight_times(self.input_length)
    }

    fn decode(&self, data: &[u8]) -> (r: Result<Vec<u64>, DecodeError>) {
        decode_point(data, self.input_length)
    }
}

} // verus!
