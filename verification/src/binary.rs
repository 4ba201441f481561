//! The frame of a module in the binary format: names, vectors of bytes, and sections.

use vstd::prelude::*;
use vstd::string::StringSliceAdditionalSpecFns;

use crate::leb128;

verus! {

/// A vector of bytes in the binary format: its length, then the bytes.
pub open spec fn sized(bytes: Seq<u8>) -> Seq<u8> {
    leb128::unsigned(bytes.len()) + bytes
}

/// The eight bytes that every module begins with: the magic number and the version.
pub open spec fn header() -> Seq<u8> {
    seq![0x00u8, 0x61u8, 0x73u8, 0x6Du8, 0x01u8, 0x00u8, 0x00u8, 0x00u8]
}

/// A section in the binary format: its id, and its contents as a vector of bytes.
pub open spec fn section(id: u8, contents: Seq<u8>) -> Seq<u8> {
    seq![id] + sized(contents)
}

/// The contents of a section that is a vector of items: their number, then the items.
pub open spec fn items(count: u32, bytes: Seq<u8>) -> Seq<u8> {
    leb128::unsigned(count as nat) + bytes
}

/// Whether the length of a name in bytes fits in 32 bits.
pub fn name_fits(name: &str) -> (r: bool)
    ensures
        r == (name.spec_bytes().len() <= u32::MAX),
{
    name.as_bytes().len() <= u32::MAX as usize
}

/// `Encode::encode` of `wasm_encoder` for `str`: appends the length of the string in bytes as
/// an unsigned number, then its UTF-8 bytes.
#[verifier::external_body]
pub(crate) fn write_name(sink: &mut Vec<u8>, name: &str)
    requires
        name.spec_bytes().len() <= u32::MAX,
    ensures
        final(sink)@ == old(sink)@ + sized(name.spec_bytes()),
{
    wasm_encoder::Encode::encode(name, sink)
}

/// `Encode::encode` of `wasm_encoder` for `[u8]`: appends the number of bytes as an unsigned
/// number, then the bytes.
#[verifier::external_body]
pub(crate) fn write_sized(sink: &mut Vec<u8>, bytes: &[u8])
    requires
        bytes@.len() <= u32::MAX,
    ensures
        final(sink)@ == old(sink)@ + sized(bytes@),
{
    wasm_encoder::Encode::encode(bytes, sink)
}

/// `Module::new` and `Module::finish` of `wasm_encoder`: the bytes of a module without
/// sections, which are the header.
#[verifier::external_body]
pub(crate) fn module_header() -> (bytes: Vec<u8>)
    ensures
        bytes@ == header(),
{
    wasm_encoder::Module::new().finish()
}

/// `Section::append_to` of `wasm_encoder`, for a `RawSection`: appends the id of the section
/// and its contents as a vector of bytes.
#[verifier::external_body]
pub(crate) fn write_section(sink: &mut Vec<u8>, id: u8, contents: &[u8])
    requires
        contents@.len() <= u32::MAX,
    ensures
        final(sink)@ == old(sink)@ + section(id, contents@),
{
    wasm_encoder::Section::append_to(&wasm_encoder::RawSection { id, data: contents }, sink)
}

} // verus!
