//! Integers of variable length, as the binary format of WebAssembly writes them.

use vstd::prelude::*;

verus! {

/// The unsigned LEB128 form of `n`: seven bits to a byte, lowest first, each byte but the last
/// with its high bit set, and no more bytes than `n` needs.
pub open spec fn unsigned(n: nat) -> Seq<u8>
    decreases n,
{
    if n < 128 {
        seq![n as u8]
    } else {
        seq![(n % 128 + 128) as u8] + unsigned(n / 128)
    }
}

/// The signed LEB128 form of `v`: as the unsigned form, over the two's complement of `v`, ending
/// with the first byte whose seventh bit gives the sign of all that remains.
pub open spec fn signed(v: int) -> Seq<u8>
    decreases (if v >= 0 { v } else { -v }),
{
    let low = v % 128;
    let rest = v / 128;
    if (rest == 0 && low < 64) || (rest == -1 && low >= 64) {
        seq![low as u8]
    } else {
        seq![(low + 128) as u8] + signed(rest)
    }
}

/// `Encode::encode` of `wasm_encoder` for `u32`: appends the unsigned LEB128 form of `n`.
#[verifier::external_body]
pub(crate) fn write_u32(sink: &mut Vec<u8>, n: u32)
    ensures
        final(sink)@ == old(sink)@ + unsigned(n as nat),
{
    wasm_encoder::Encode::encode(&n, sink)
}

/// `Encode::encode` of `wasm_encoder` for `u64`: appends the unsigned LEB128 form of `n`.
#[verifier::external_body]
pub(crate) fn write_u64(sink: &mut Vec<u8>, n: u64)
    ensures
        final(sink)@ == old(sink)@ + unsigned(n as nat),
{
    wasm_encoder::Encode::encode(&n, sink)
}

/// `Encode::encode` of `wasm_encoder` for `i32`: appends the signed LEB128 form of `v`.
#[verifier::external_body]
pub(crate) fn write_i32(sink: &mut Vec<u8>, v: i32)
    ensures
        final(sink)@ == old(sink)@ + signed(v as int),
{
    wasm_encoder::Encode::encode(&v, sink)
}

/// `Encode::encode` of `wasm_encoder` for `i64`: appends the signed LEB128 form of `v`.
#[verifier::external_body]
pub(crate) fn write_i64(sink: &mut Vec<u8>, v: i64)
    ensures
        final(sink)@ == old(sink)@ + signed(v as int),
{
    wasm_encoder::Encode::encode(&v, sink)
}

} // verus!
