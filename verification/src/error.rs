//! Why a transformation stops.

use vstd::prelude::*;
use vstd::string::StringExecFns;

verus! {

/// A part of WebAssembly that the transformations do not handle.
#[derive(Clone, Copy, Debug, PartialEq, Eq, Structural)]
pub enum Feature {
    /// The 128-bit vector type.
    Simd,
    /// Reference types.
    ReferenceTypes,
    /// An imported table.
    TableImport,
    /// An imported memory.
    MemoryImport,
    /// An imported global.
    GlobalImport,
    /// An imported tag.
    TagImport,
    /// An exported table.
    TableExport,
    /// An exported tag.
    TagExport,
    /// A global that can be assigned to.
    MutableGlobal,
    /// A global shared between threads.
    SharedGlobal,
    /// An initializer that is more than one numeric constant.
    InitExpr,
    /// An instruction outside the differentiated subset.
    Instruction,
    /// In forward mode, a function with locals of its own.
    Locals,
}

/// A way in which a module breaks the rules of WebAssembly.
#[derive(Clone, Copy, Debug, PartialEq, Eq, Structural)]
pub enum Malformed {
    /// An instruction needs more operands than the stack holds.
    OperandStack,
    /// An `else`, `end` or branch without the frame it refers to.
    ControlStack,
    /// A type index beyond the type section.
    TypeIndex,
    /// A function index beyond the imported and declared functions.
    FunctionIndex,
    /// A local index beyond the parameters and locals.
    LocalIndex,
    /// An index, a count or a size that does not fit in 32 bits.
    TooLarge,
    /// The code section has a body for which no function is declared.
    FunctionCount,
    /// The name section has two subsections of one kind.
    NameSection,
}

/// An error that occurred during code transformation.
#[derive(Clone, Debug, PartialEq, Eq)]
pub enum Error {
    /// The module uses something that the transformation does not handle.
    Unsupported(Feature),
    /// In reverse mode, the import with this module and field name has no backward counterpart.
    MissingImport(String, String),
    /// The module is not valid WebAssembly.
    Malformed(Malformed),
}

impl Feature {
    /// What is said of the feature.
    pub open spec fn spec_describe(self) -> Seq<char> {
        match self {
            Feature::Simd => "SIMD is unsupported"@,
            Feature::ReferenceTypes => "reference types are unsupported"@,
            Feature::TableImport => "table imports are unsupported"@,
            Feature::MemoryImport => "memory imports are unsupported"@,
            Feature::GlobalImport => "global imports are unsupported"@,
            Feature::TagImport => "tag imports are unsupported"@,
            Feature::TableExport => "table exports are unsupported"@,
            Feature::TagExport => "tag exports are unsupported"@,
            Feature::MutableGlobal => "mutable globals are unsupported"@,
            Feature::SharedGlobal => "shared globals are unsupported"@,
            Feature::InitExpr => "initializers other than numeric constants are unsupported"@,
            Feature::Instruction => "instruction is unsupported"@,
            Feature::Locals => "locals are unsupported in forward mode"@,
        }
    }

    pub fn describe(self) -> (r: &'static str)
        ensures
            r@ == self.spec_describe(),
    {
        match self {
            Feature::Simd => "SIMD is unsupported",
            Feature::ReferenceTypes => "reference types are unsupported",
            Feature::TableImport => "table imports are unsupported",
            Feature::MemoryImport => "memory imports are unsupported",
            Feature::GlobalImport => "global imports are unsupported",
            Feature::TagImport => "tag imports are unsupported",
            Feature::TableExport => "table exports are unsupported",
            Feature::TagExport => "tag exports are unsupported",
            Feature::MutableGlobal => "mutable globals are unsupported",
            Feature::SharedGlobal => "shared globals are unsupported",
            Feature::InitExpr => "initializers other than numeric constants are unsupported",
            Feature::Instruction => "instruction is unsupported",
            Feature::Locals => "locals are unsupported in forward mode",
        }
    }
}

impl Malformed {
    /// What is said of the fault.
    pub open spec fn spec_describe(self) -> Seq<char> {
        match self {
            Malformed::OperandStack => "operand stack underflow"@,
            Malformed::ControlStack => "control stack underflow"@,
            Malformed::TypeIndex => "unknown type"@,
            Malformed::FunctionIndex => "unknown function"@,
            Malformed::LocalIndex => "unknown local"@,
            Malformed::TooLarge => "index out of range of 32 bits"@,
            Malformed::FunctionCount => "function body without a declaration"@,
            Malformed::NameSection => "duplicate name subsection"@,
        }
    }

    pub fn describe(self) -> (r: &'static str)
        ensures
            r@ == self.spec_describe(),
    {
        match self {
            Malformed::OperandStack => "operand stack underflow",
            Malformed::ControlStack => "control stack underflow",
            Malformed::TypeIndex => "unknown type",
            Malformed::FunctionIndex => "unknown function",
            Malformed::LocalIndex => "unknown local",
            Malformed::TooLarge => "index out of range of 32 bits",
            Malformed::FunctionCount => "function body without a declaration",
            Malformed::NameSection => "duplicate name subsection",
        }
    }
}

impl Error {
    /// The text of the error: its kind, and what is wrong.
    pub open spec fn spec_message(self) -> Seq<char> {
        match self {
            Error::Unsupported(feature) => "code transformation error: "@
                + feature.spec_describe(),
            Error::MissingImport(module, name) => "no backward pass given for import: "@ + module@
                + " "@ + name@,
            Error::Malformed(fault) => "Wasm parsing or validation error: "@
                + fault.spec_describe(),
        }
    }

    /// The text of the error.
    pub fn message(&self) -> (r: String)
        ensures
            r@ == self.spec_message(),
    {
        match self {
            Error::Unsupported(feature) => {
                let mut text = String::from_str("code transformation error: ");
                text.append(feature.describe());
                text
            },
            Error::MissingImport(module, name) => {
                let mut text = String::from_str("no backward pass given for import: ");
                text.append(module.as_str());
                text.append(" ");
                text.append(name.as_str());
                text
            },
            Error::Malformed(fault) => {
                let mut text = String::from_str("Wasm parsing or validation error: ");
                text.append(fault.describe());
                text
            },
        }
    }
}

} // verus!
