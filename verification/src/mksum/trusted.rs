//! What the library has from outside crates: the BLAKE2b hash from `blake2`,
//! the big-endian encoding from `byteorder` and the integer cast from `cast`.
//!
//! The contracts in this file are not proved: they say what the outside code
//! does, and the proofs of the library rest on them.

use crate::mksum::format::be_bytes;
use blake2::digest::{Input, VariableOutput};
use blake2::VarBlake2b;
use byteorder::{BigEndian, ByteOrder};
use vstd::prelude::*;

verus! {

/// The BLAKE2b hash of `data`, made for an output of `out_len` bytes.
pub uninterp spec fn blake2b(data: Seq<u8>, out_len: usize) -> Seq<u8>;

/// The big-endian encoding of `a`, as `byteorder::BigEndian::write_u32`
/// writes it into a buffer of four bytes: the bytes of `a`, from the most
/// significant to the least.
#[verifier::external_body]
pub(crate) fn write_u32be(a: u32) -> (bytes: Vec<u8>)
    ensures
        bytes@ == be_bytes(a),
{
    let mut buf = [0u8; 4];
    BigEndian::write_u32(&mut buf, a);
    buf.to_vec()
}

/// The BLAKE2b hash of `data` with an output of `out_len` bytes, as
/// `blake2::VarBlake2b` computes it: a hasher made by `VariableOutput::new`
/// for `out_len` bytes takes `data` in by `Input::input` and gives its result
/// by `VariableOutput::vec_result`. `new` refuses no length from 1 to 64, the
/// result depends on `data` and `out_len` alone, and it has `out_len` bytes.
#[verifier::external_body]
pub(crate) fn blake2b_sum(data: &[u8], out_len: usize) -> (sum: Vec<u8>)
    requires
        1 <= out_len <= 64,
    ensures
        sum@ == blake2b(data@, out_len),
        sum@.len() == out_len,
{
    let mut hasher = VarBlake2b::new(out_len).unwrap();
    hasher.input(data);
    hasher.vec_result()
}

/// `x` as a `usize`, as `cast::usize` gives it: for a `u32` the cast cannot
/// fail and keeps the value.
#[verifier::external_body]
pub(crate) fn usize_from_u32(x: u32) -> (n: usize)
    ensures
        n == x,
{
    cast::usize(x)
}

} // verus!
