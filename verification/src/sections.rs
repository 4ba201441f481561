//! The items of the sections of a module in the binary format.

use vstd::prelude::*;
use vstd::string::StringSliceAdditionalSpecFns;

use crate::binary::{sized, write_name, write_sized};
use crate::helper::Function;
use crate::instruction::{encode_all, encoding_of, Instruction};
use crate::leb128;
use crate::module::{ExportKind, MemoryType};
use crate::util::ValType;

verus! {

/// The bytes that stand for the first `k` of `types`.
pub open spec fn codes(types: Seq<ValType>, k: nat) -> Seq<u8>
    decreases k,
{
    if k == 0 {
        Seq::empty()
    } else {
        codes(types, (k - 1) as nat).push(types[k - 1].spec_code())
    }
}

/// A vector of value types: their number, then a byte for each.
pub open spec fn val_types(types: Seq<ValType>) -> Seq<u8> {
    leb128::unsigned(types.len()) + codes(types, types.len())
}

pub fn write_val_types(sink: &mut Vec<u8>, types: &[ValType])
    requires
        types@.len() <= u32::MAX,
    ensures
        final(sink)@ == old(sink)@ + val_types(types@),
{
    leb128::write_u32(sink, types.len() as u32);
    let ghost head = sink@;
    let mut i: usize = 0;
    assert(sink@ =~= head + codes(types@, 0));
    while i < types.len()
        invariant
            i <= types@.len(),
            sink@ == head + codes(types@, i as nat),
        decreases types@.len() - i,
    {
        sink.push(types[i].code());
        i += 1;
        assert(sink@ =~= head + codes(types@, i as nat));
    }
    assert(sink@ =~= old(sink)@ + val_types(types@));
}

/// A function type: its marker, its parameters and its results.
pub open spec fn func_type(params: Seq<ValType>, results: Seq<ValType>) -> Seq<u8> {
    seq![0x60u8] + val_types(params) + val_types(results)
}

pub fn write_func_type(sink: &mut Vec<u8>, params: &[ValType], results: &[ValType])
    requires
        params@.len() <= u32::MAX,
        results@.len() <= u32::MAX,
    ensures
        final(sink)@ == old(sink)@ + func_type(params@, results@),
{
    sink.push(0x60);
    write_val_types(sink, params);
    write_val_types(sink, results);
    assert(sink@ =~= old(sink)@ + func_type(params@, results@));
}

/// The floating-point types among the first `k` of `types`, in their order.
pub open spec fn floats(types: Seq<ValType>, k: nat) -> Seq<ValType>
    decreases k,
{
    if k == 0 {
        Seq::empty()
    } else if types[k - 1].spec_is_float() {
        floats(types, (k - 1) as nat).push(types[k - 1])
    } else {
        floats(types, (k - 1) as nat)
    }
}

/// Leave out the integer types: integers have no adjoint.
pub fn tuple(val_types: &[ValType]) -> (r: Vec<ValType>)
    ensures
        r@ == floats(val_types@, val_types@.len()),
        r@.len() <= val_types@.len(),
{
    let mut out = Vec::new();
    let mut i: usize = 0;
    while i < val_types.len()
        invariant
            i <= val_types@.len(),
            out@ == floats(val_types@, i as nat),
            out@.len() <= i,
        decreases val_types@.len() - i,
    {
        if val_types[i].is_float() {
            out.push(val_types[i]);
        }
        i += 1;
    }
    out
}

/// The import of a function: the two names, the marker of a function, and the type index.
pub open spec fn func_import(module: Seq<u8>, name: Seq<u8>, typeidx: u32) -> Seq<u8> {
    sized(module) + sized(name) + seq![0x00u8] + leb128::unsigned(typeidx as nat)
}

pub fn write_func_import(sink: &mut Vec<u8>, module: &str, name: &str, typeidx: u32)
    requires
        module.spec_bytes().len() <= u32::MAX,
        name.spec_bytes().len() <= u32::MAX,
    ensures
        final(sink)@ == old(sink)@ + func_import(module.spec_bytes(), name.spec_bytes(), typeidx),
{
    write_name(sink, module);
    write_name(sink, name);
    sink.push(0x00);
    leb128::write_u32(sink, typeidx);
    assert(sink@ =~= old(sink)@ + func_import(module.spec_bytes(), name.spec_bytes(), typeidx));
}

/// The flags of a memory type: one bit each for a maximum, for sharing, for 64-bit addresses
/// and for a page size of its own.
pub open spec fn memory_flags(ty: MemoryType) -> u8 {
    ((if ty.maximum is Some {
        1int
    } else {
        0int
    }) + (if ty.shared {
        2int
    } else {
        0int
    }) + (if ty.memory64 {
        4int
    } else {
        0int
    }) + (if ty.page_size_log2 is Some {
        8int
    } else {
        0int
    })) as u8
}

/// A memory type: its flags, its minimum, and what the flags announce.
pub open spec fn memory_type(ty: MemoryType) -> Seq<u8> {
    seq![memory_flags(ty)] + leb128::unsigned(ty.minimum as nat) + (match ty.maximum {
        Some(max) => leb128::unsigned(max as nat),
        None => Seq::empty(),
    }) + (match ty.page_size_log2 {
        Some(p) => leb128::unsigned(p as nat),
        None => Seq::empty(),
    })
}

pub fn write_memory_type(sink: &mut Vec<u8>, ty: MemoryType)
    ensures
        final(sink)@ == old(sink)@ + memory_type(ty),
{
    let mut flags: u8 = 0;
    if ty.maximum.is_some() {
        flags += 1;
    }
    if ty.shared {
        flags += 2;
    }
    if ty.memory64 {
        flags += 4;
    }
    if ty.page_size_log2.is_some() {
        flags += 8;
    }
    sink.push(flags);
    leb128::write_u64(sink, ty.minimum);
    let ghost mid = sink@;
    match ty.maximum {
        Some(max) => leb128::write_u64(sink, max),
        None => {
            assert(sink@ =~= mid + Seq::<u8>::empty());
        },
    }
    let ghost late = sink@;
    match ty.page_size_log2 {
        Some(p) => leb128::write_u32(sink, p),
        None => {
            assert(sink@ =~= late + Seq::<u8>::empty());
        },
    }
    assert(sink@ =~= old(sink)@ + memory_type(ty));
}

/// A global: its type, whether it can be assigned to and is shared, and its initializer, which
/// an `end` closes.
pub open spec fn global(ty: ValType, mutable: bool, shared: bool, init: Seq<Instruction>) -> Seq<
    u8,
> {
    seq![
        ty.spec_code(),
        ((if mutable {
            1int
        } else {
            0int
        }) + (if shared {
            2int
        } else {
            0int
        })) as u8,
    ] + encoding_of(init) + seq![0x0Bu8]
}

pub fn write_global(
    sink: &mut Vec<u8>,
    ty: ValType,
    mutable: bool,
    shared: bool,
    init: &[Instruction],
)
    ensures
        final(sink)@ == old(sink)@ + global(ty, mutable, shared, init@),
{
    sink.push(ty.code());
    let mut flag: u8 = 0;
    if mutable {
        flag += 1;
    }
    if shared {
        flag += 2;
    }
    sink.push(flag);
    encode_all(init, sink);
    sink.push(0x0B);
    assert(sink@ =~= old(sink)@ + global(ty, mutable, shared, init@));
}

impl ExportKind {
    /// The byte that stands for the kind.
    pub open spec fn spec_code(self) -> u8 {
        match self {
            ExportKind::Func => 0x00,
            ExportKind::Table => 0x01,
            ExportKind::Memory => 0x02,
            ExportKind::Global => 0x03,
            ExportKind::Tag => 0x04,
        }
    }

    #[verifier::when_used_as_spec(spec_code)]
    pub fn code(self) -> (r: u8)
        ensures
            r == self.spec_code(),
    {
        match self {
            ExportKind::Func => 0x00,
            ExportKind::Table => 0x01,
            ExportKind::Memory => 0x02,
            ExportKind::Global => 0x03,
            ExportKind::Tag => 0x04,
        }
    }
}

/// An export: its name, its kind, and the index of what it names.
pub open spec fn export(name: Seq<u8>, kind: ExportKind, index: u32) -> Seq<u8> {
    sized(name) + seq![kind.spec_code()] + leb128::unsigned(index as nat)
}

pub fn write_export(sink: &mut Vec<u8>, name: &str, kind: ExportKind, index: u32)
    requires
        name.spec_bytes().len() <= u32::MAX,
    ensures
        final(sink)@ == old(sink)@ + export(name.spec_bytes(), kind, index),
{
    write_name(sink, name);
    sink.push(kind.code());
    leb128::write_u32(sink, index);
    assert(sink@ =~= old(sink)@ + export(name.spec_bytes(), kind, index));
}

/// The binary form of the entries from `from` up to `to`: for each its count and its type.
pub open spec fn entries_encoding(entries: Seq<(u32, ValType)>, from: int, to: int) -> Seq<u8>
    decreases to - from,
{
    if to <= from {
        Seq::empty()
    } else {
        entries_encoding(entries, from, to - 1) + leb128::unsigned(entries[to - 1].0 as nat)
            + seq![entries[to - 1].1.spec_code()]
    }
}

/// The locals of a function: the entries from `from` on, behind their number.
pub open spec fn locals(entries: Seq<(u32, ValType)>, from: int) -> Seq<u8> {
    leb128::unsigned((entries.len() - from) as nat) + entries_encoding(
        entries,
        from,
        entries.len() as int,
    )
}

pub fn write_locals(sink: &mut Vec<u8>, entries: &[(u32, ValType)], from: usize)
    requires
        from <= entries@.len(),
        entries@.len() - from <= u32::MAX,
    ensures
        final(sink)@ == old(sink)@ + locals(entries@, from as int),
{
    leb128::write_u32(sink, (entries.len() - from) as u32);
    let ghost head = sink@;
    let mut i: usize = from;
    assert(sink@ =~= head + entries_encoding(entries@, from as int, i as int));
    while i < entries.len()
        invariant
            from <= i <= entries@.len(),
            sink@ == head + entries_encoding(entries@, from as int, i as int),
        decreases entries@.len() - i,
    {
        let (count, ty) = entries[i];
        leb128::write_u32(sink, count);
        sink.push(ty.code());
        i += 1;
        assert(sink@ =~= head + entries_encoding(entries@, from as int, i as int));
    }
    assert(sink@ =~= old(sink)@ + locals(entries@, from as int));
}

/// The body of a function: its locals, then its instructions.
pub open spec fn body(entries: Seq<(u32, ValType)>, code: Seq<Instruction>) -> Seq<u8> {
    locals(entries, 0) + encoding_of(code)
}

/// The body of a function in the binary format.
pub fn function_body(function: &Function) -> (r: Vec<u8>)
    requires
        function.locals@.len() <= u32::MAX,
    ensures
        r@ == body(function.locals@, function.code@),
{
    let mut out = Vec::new();
    write_locals(&mut out, function.locals.as_slice(), 0);
    encode_all(function.code.as_slice(), &mut out);
    assert(out@ =~= body(function.locals@, function.code@));
    out
}

/// Append an entry of a code section: a body as a vector of bytes.
pub fn write_code(sink: &mut Vec<u8>, body: &[u8])
    requires
        body@.len() <= u32::MAX,
    ensures
        final(sink)@ == old(sink)@ + sized(body@),
{
    write_sized(sink, body);
}

} // verus!
