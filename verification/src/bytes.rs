//! Fixed-width integers on the wire: four bytes, most significant byte first.

use vstd::prelude::*;
use crate::error::TdfError;

verus! {

/// The value of the four bytes of `b` that start at `at`, the most
/// significant byte first.
pub open spec fn be_u32(b: Seq<u8>, at: int) -> u32
    recommends
        0 <= at,
        at + 4 <= b.len(),
{
    (b[at] * 0x100_0000 + b[at + 1] * 0x1_0000 + b[at + 2] * 0x100 + b[at + 3]) as u32
}

/// The four bytes that stand for `v`, the most significant byte first.
pub open spec fn u32_be(v: u32) -> Seq<u8> {
    seq![
        (v / 0x100_0000) as u8,
        (v / 0x1_0000 % 0x100) as u8,
        (v / 0x100 % 0x100) as u8,
        (v % 0x100) as u8,
    ]
}

/// The signed number that the bit pattern `u` stands for in two's complement.
pub open spec fn i32_of_bits(u: u32) -> i32 {
    if u < 0x8000_0000 {
        u as i32
    } else {
        (u - 0x1_0000_0000) as i32
    }
}

/// The bit pattern of `v` in two's complement.
pub open spec fn bits_of_i32(v: i32) -> u32 {
    if v >= 0 {
        v as u32
    } else {
        (v + 0x1_0000_0000) as u32
    }
}

/// `n` bytes of padding as an encoder writes them.
pub open spec fn zeros(n: nat) -> Seq<u8> {
    Seq::new(n, |i: int| 0u8)
}

/// What decoding an unsigned field at `at` gives.
pub open spec fn parse_u32(b: Seq<u8>, at: int) -> Result<u32, TdfError> {
    if at + 4 <= b.len() {
        Ok(be_u32(b, at))
    } else {
        Err(TdfError::TruncatedInput { offset: at as usize })
    }
}

/// What decoding a signed field at `at` gives.
pub open spec fn parse_i32(b: Seq<u8>, at: int) -> Result<i32, TdfError> {
    if at + 4 <= b.len() {
        Ok(i32_of_bits(be_u32(b, at)))
    } else {
        Err(TdfError::TruncatedInput { offset: at as usize })
    }
}

/// What stepping over `n` bytes of padding at `at` gives.
pub open spec fn parse_padding(b: Seq<u8>, at: int, n: int) -> Result<(), TdfError> {
    if at + n <= b.len() {
        Ok(())
    } else {
        Err(TdfError::TruncatedInput { offset: at as usize })
    }
}

/// Whether `n` more bytes can be had from `input` at `at`.
pub fn has_room(input: &[u8], at: usize, n: usize) -> (r: bool)
    ensures
        r == (at + n <= input.len()),
{
    at <= input.len() && n <= input.len() - at
}

/// Decodes the unsigned field that starts at `at`.
pub fn read_u32(input: &[u8], at: usize) -> (r: Result<u32, TdfError>)
    ensures
        r == parse_u32(input@, at as int),
        r is Ok ==> at + 4 <= input.len(),
{
    if !has_room(input, at, 4) {
        return Err(TdfError::TruncatedInput { offset: at });
    }
    let b0: u32 = input[at] as u32;
    let b1: u32 = input[at + 1] as u32;
    let b2: u32 = input[at + 2] as u32;
    let b3: u32 = input[at + 3] as u32;
    Ok(b0 * 0x100_0000 + b1 * 0x1_0000 + b2 * 0x100 + b3)
}

/// Decodes the signed field that starts at `at`.
pub fn read_i32(input: &[u8], at: usize) -> (r: Result<i32, TdfError>)
    ensures
        r == parse_i32(input@, at as int),
        r is Ok ==> at + 4 <= input.len(),
{
    let bits: u32 = read_u32(input, at)?;
    if bits < 0x8000_0000 {
        Ok(bits as i32)
    } else {
        Ok((bits as i64 - 0x1_0000_0000) as i32)
    }
}

/// Steps over `n` bytes of padding that start at `at`, whatever they hold.
pub fn skip_padding(input: &[u8], at: usize, n: usize) -> (r: Result<(), TdfError>)
    ensures
        r == parse_padding(input@, at as int, n as int),
        r is Ok ==> at + n <= input.len(),
{
    if has_room(input, at, n) {
        Ok(())
    } else {
        Err(TdfError::TruncatedInput { offset: at })
    }
}

/// Appends the four bytes of `v`.
pub fn write_u32(output: &mut Vec<u8>, v: u32)
    ensures
        final(output)@ == old(output)@ + u32_be(v),
{
    output.push((v / 0x100_0000) as u8);
    output.push((v / 0x1_0000 % 0x100) as u8);
    output.push((v / 0x100 % 0x100) as u8);
    output.push((v % 0x100) as u8);
    assert(output@ =~= old(output)@ + u32_be(v));
}

/// Appends the four bytes of `v` in two's complement.
pub fn write_i32(output: &mut Vec<u8>, v: i32)
    ensures
        final(output)@ == old(output)@ + u32_be(bits_of_i32(v)),
{
    let bits: u32 = if v >= 0 {
        v as u32
    } else {
        (v as i64 + 0x1_0000_0000) as u32
    };
    write_u32(output, bits);
}

/// Appends `n` zero bytes.
pub fn write_padding(output: &mut Vec<u8>, n: usize)
    ensures
        final(output)@ == old(output)@ + zeros(n as nat),
{
    let mut i: usize = 0;
    while i < n
        invariant
            i <= n,
            output@ == old(output)@ + zeros(i as nat),
        decreases n - i,
    {
        output.push(0u8);
        i += 1;
        assert(output@ =~= old(output)@ + zeros(i as nat));
    }
}

/// Four encoded bytes decode to the number they were made from.
pub proof fn lemma_u32_round_trip(v: u32)
    ensures
        u32_be(v).len() == 4,
        be_u32(u32_be(v), 0) == v,
{
}

/// A bit pattern made from a signed number stands for that number.
pub proof fn lemma_i32_round_trip(v: i32)
    ensures
        i32_of_bits(bits_of_i32(v)) == v,
{
}

/// Decoding at `at` sees only the four bytes there.
pub proof fn lemma_be_u32_local(b: Seq<u8>, at: int, v: u32)
    requires
        0 <= at,
        at + 4 <= b.len(),
        b.subrange(at, at + 4) == u32_be(v),
    ensures
        be_u32(b, at) == v,
{
    let part = b.subrange(at, at + 4);
    assert(part[0] == b[at] && part[1] == b[at + 1] && part[2] == b[at + 2] && part[3] == b[at + 3]);
    lemma_u32_round_trip(v);
}

} // verus!
