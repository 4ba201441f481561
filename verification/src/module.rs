//! A module as the transformations read it: the sections that they handle, parsed.

use vstd::prelude::*;

use crate::instruction::Instruction;
use crate::util::ValType;

verus! {

/// The type of a function.
#[derive(Clone, Debug, PartialEq, Eq)]
pub struct FuncType {
    pub params: Vec<ValType>,
    pub results: Vec<ValType>,
}

/// What an import brings.
#[derive(Clone, Copy, Debug, PartialEq, Eq, Structural)]
pub enum TypeRef {
    /// A function of the type with this index.
    Func(u32),
    Table,
    Memory,
    Global,
    Tag,
}

/// An import.
#[derive(Clone, Debug, PartialEq, Eq)]
pub struct Import {
    pub module: String,
    pub name: String,
    pub ty: TypeRef,
}

/// The type of a memory.
#[derive(Clone, Copy, Debug, PartialEq, Eq, Structural)]
pub struct MemoryType {
    /// The initial size, in pages.
    pub minimum: u64,
    /// The most pages that the memory may grow to, if it is bounded.
    pub maximum: Option<u64>,
    /// Whether addresses have 64 bits.
    pub memory64: bool,
    /// Whether threads share the memory.
    pub shared: bool,
    /// The base-2 logarithm of the page size, if it is not the default.
    pub page_size_log2: Option<u32>,
}

/// A global and its initializer.
#[derive(Clone, Debug, PartialEq, Eq)]
pub struct Global {
    pub val_type: ValType,
    pub mutable: bool,
    pub shared: bool,
    /// The instructions of the initializer, without the `end` that closes it.
    pub init: Vec<Instruction>,
}

/// What an export names.
#[derive(Clone, Copy, Debug, PartialEq, Eq, Structural)]
pub enum ExportKind {
    Func,
    Table,
    Memory,
    Global,
    Tag,
}

/// An export.
#[derive(Clone, Debug, PartialEq, Eq)]
pub struct Export {
    pub name: String,
    pub kind: ExportKind,
    pub index: u32,
}

/// The body of a function.
#[derive(Clone, Debug, PartialEq, Eq)]
pub struct FunctionBody {
    /// The locals as entries, each a count of locals of one type.
    pub locals: Vec<(u32, ValType)>,
    /// The instructions, with the `end` that closes the body.
    pub operators: Vec<Instruction>,
}

/// A name and the index of what it names.
#[derive(Clone, Debug, PartialEq, Eq)]
pub struct Naming {
    pub index: u32,
    pub name: String,
}

/// The names of the locals of one function.
#[derive(Clone, Debug, PartialEq, Eq)]
pub struct IndirectNaming {
    /// The index of the function.
    pub index: u32,
    pub names: Vec<Naming>,
}

/// One subsection of a name section.
#[derive(Clone, Debug, PartialEq, Eq)]
pub enum Name {
    Module(String),
    Function(Vec<Naming>),
    Local(Vec<IndirectNaming>),
    Type(Vec<Naming>),
    Memory(Vec<Naming>),
    Global(Vec<Naming>),
    /// A subsection that is passed over.
    Other,
}

/// A module.
#[derive(Clone, Debug, PartialEq, Eq)]
pub struct Module {
    pub types: Vec<FuncType>,
    pub imports: Vec<Import>,
    /// The type index of each function that the module defines.
    pub functions: Vec<u32>,
    pub memories: Vec<MemoryType>,
    pub globals: Vec<Global>,
    pub exports: Vec<Export>,
    /// The body of each function that the module defines.
    pub code: Vec<FunctionBody>,
    /// The subsections of the name section, if the module has one.
    pub names: Option<Vec<Name>>,
}

} // verus!
