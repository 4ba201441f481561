//! Reverse mode for a whole module: the sections of the transformed module, in their order.

use vstd::prelude::*;
use vstd::utf8::encode_utf8;

use crate::api::{Autodiff, Config};
use crate::binary::{
    header, items, module_header, name_fits, section, sized, write_section,
};
use crate::error::{Error, Feature, Malformed};
use crate::helper::{
    helper_functions, helper_globals, helper_memories, helper_types, helper_types_at,
    spec_helper_type, spec_helper_types_at, spec_tape_memory, NumImports, MAX_IMPORTS, MAX_TYPES,
    OFFSET_FUNCTIONS, OFFSET_GLOBALS, OFFSET_MEMORIES, OFFSET_TYPES,
};
use crate::instruction::Instruction;
use crate::leb128;
use crate::module::{Export, ExportKind, Global, Import, MemoryType, Module, TypeRef};
use crate::names::{
    encode_names, facts, name_section, name_section_bytes, no_names, spec_name_section,
    spec_names, FuncFacts, FuncInfo, ModuleInfo, Names,
};
use crate::reverse::{
    float_count, function, function_locals, spec_function, spec_type_map, tables_fit, type_map,
    FunctionInfo, MAX_FUNCTIONS,
};
use crate::stack::StackHeight;
use crate::sections::{
    body, export, floats, func_import, func_type, global, memory_type, tuple, write_code,
    write_export, write_func_import, write_func_type, write_global, write_memory_type,
};
use crate::util::{FuncTypes, LocalMap, ValType};

verus! {

/// The contents of a section, which must not take more than `u32::MAX` bytes.
pub open spec fn sealed(contents: Seq<u8>) -> Result<Seq<u8>, Error> {
    if contents.len() > u32::MAX {
        Err(Error::Malformed(Malformed::TooLarge))
    } else {
        Ok(contents)
    }
}

/// Refuse the contents of a section that take more than `u32::MAX` bytes.
fn seal(contents: Vec<u8>) -> (r: Result<Vec<u8>, Error>)
    ensures
        match sealed(contents@) {
            Ok(bytes) => r is Ok && r->Ok_0@ == bytes,
            Err(e) => r == Err::<Vec<u8>, Error>(e),
        },
{
    if contents.len() > u32::MAX as usize {
        Err(Error::Malformed(Malformed::TooLarge))
    } else {
        Ok(contents)
    }
}

/// The parameters and the results of every type of a module.
pub open spec fn type_sigs(module: &Module) -> Seq<(Seq<ValType>, Seq<ValType>)> {
    Seq::new(
        module.types@.len(),
        |i: int| (module.types@[i].params@, module.types@[i].results@),
    )
}

/// How many value types the first `k` types name together.
pub open spec fn types_size(sigs: Seq<(Seq<ValType>, Seq<ValType>)>, k: nat) -> nat
    decreases k,
{
    if k == 0 {
        0
    } else {
        types_size(sigs, (k - 1) as nat) + sigs[k - 1].0.len() + sigs[k - 1].1.len()
    }
}

/// The types of the first `k` helper types.
pub open spec fn helper_types_bytes(k: nat) -> Seq<u8>
    decreases k,
{
    if k == 0 {
        Seq::empty()
    } else {
        helper_types_bytes((k - 1) as nat) + func_type(
            spec_helper_type(k - 1).1,
            spec_helper_type(k - 1).2,
        )
    }
}

/// The two types that stand for the first `k` types of the source module. The forward pass of
/// a function has the type of the function. The backward pass takes the adjoints of the results
/// and gives the adjoints of the parameters, where integers have none.
pub open spec fn types_bytes(sigs: Seq<(Seq<ValType>, Seq<ValType>)>, k: nat) -> Seq<u8>
    decreases k,
{
    if k == 0 {
        Seq::empty()
    } else {
        let (params, results) = sigs[k - 1];
        types_bytes(sigs, (k - 1) as nat) + func_type(params, results) + func_type(
            floats(results, results.len()),
            floats(params, params.len()),
        )
    }
}

/// The contents of the type section, or why the types cannot be transformed: the two types
/// for each type of the source module, so that the type `i` has its forward form at `2 * i` and
/// its backward form behind it, and then the helper types.
pub open spec fn type_section(module: &Module) -> Result<Seq<u8>, Error> {
    let sigs = type_sigs(module);
    if sigs.len() > MAX_TYPES || types_size(sigs, sigs.len()) > u32::MAX {
        Err(Error::Malformed(Malformed::TooLarge))
    } else {
        sealed(
            items(
                (2 * sigs.len() + OFFSET_TYPES) as u32,
                types_bytes(sigs, sigs.len()) + helper_types_bytes(OFFSET_TYPES as nat),
            ),
        )
    }
}

/// Collect the types of the module and write the type section.
fn write_types(module: &Module) -> (r: Result<(FuncTypes, Vec<u8>), Error>)
    ensures
        match type_section(module) {
            Ok(contents) => {
                &&& r is Ok
                &&& r->Ok_0.0.wf()
                &&& r->Ok_0.0@ == type_sigs(module)
                &&& r->Ok_0.1@ == contents
            },
            Err(e) => r == Err::<(FuncTypes, Vec<u8>), Error>(e),
        },
{
    let ghost sigs = type_sigs(module);
    let n = module.types.len();
    if n > MAX_TYPES as usize {
        return Err(Error::Malformed(Malformed::TooLarge));
    }
    let mut out = Vec::new();
    leb128::write_u32(&mut out, 2 * (n as u32) + OFFSET_TYPES);
    let ghost head = out@;
    let mut table = FuncTypes::new();
    let mut i: usize = 0;
    assert(out@ =~= head + types_bytes(sigs, 0));
    assert(table@ =~= sigs.take(0));
    while i < n
        invariant
            i <= n == module.types@.len(),
            n <= MAX_TYPES,
            sigs == type_sigs(module),
            table.wf(),
            table@ == sigs.take(i as int),
            table.size() == types_size(sigs, i as nat),
            out@ == head + types_bytes(sigs, i as nat),
        decreases n - i,
    {
        let ty = &module.types[i];
        match table.push(ty.params.as_slice(), ty.results.as_slice()) {
            Ok(_) => {},
            Err(e) => {
                proof {
                    lemma_types_size_monotone(sigs, (i + 1) as nat, sigs.len());
                }
                return Err(e);
            },
        }
        assert(table@ =~= sigs.take(i + 1));
        let typeidx = i as u32;
        // Forward pass: same type as the source function. All the adjoint values are assumed
        // to be zero.
        write_func_type(&mut out, table.params(typeidx), table.results(typeidx));
        // Backward pass: results become parameters, and parameters become results. Also,
        // integers disappear from function types in the backward pass.
        let bwd_params = tuple(table.results(typeidx));
        let bwd_results = tuple(table.params(typeidx));
        write_func_type(&mut out, bwd_params.as_slice(), bwd_results.as_slice());
        i += 1;
        assert(out@ =~= head + types_bytes(sigs, i as nat));
    }
    assert(table@ =~= sigs);
    proof {
        table.lemma_fits();
    }
    let ghost fixed = out@;
    let helpers = helper_types();
    let mut h: usize = 0;
    assert(out@ =~= fixed + helper_types_bytes(0));
    while h < helpers.len()
        invariant
            h <= helpers@.len() == OFFSET_TYPES,
            forall|i: int|
                0 <= i < OFFSET_TYPES ==> {
                    &&& (#[trigger] helpers@[i]).1.params@ == spec_helper_type(i).1
                    &&& helpers@[i].1.results@ == spec_helper_type(i).2
                },
            out@ == fixed + helper_types_bytes(h as nat),
        decreases helpers@.len() - h,
    {
        let ty = &helpers[h].1;
        assert(helpers@[h as int].1.params@ == spec_helper_type(h as int).1);
        assert(ty.params@.len() <= 2 && ty.results@.len() <= 2);
        write_func_type(&mut out, ty.params.as_slice(), ty.results.as_slice());
        h += 1;
        assert(out@ =~= fixed + helper_types_bytes(h as nat));
    }
    assert(out@ =~= items(
        (2 * sigs.len() + OFFSET_TYPES) as u32,
        types_bytes(sigs, sigs.len()) + helper_types_bytes(OFFSET_TYPES as nat),
    ));
    match seal(out) {
        Ok(contents) => Ok((table, contents)),
        Err(e) => Err(e),
    }
}

proof fn lemma_types_size_monotone(sigs: Seq<(Seq<ValType>, Seq<ValType>)>, k: nat, n: nat)
    requires
        k <= n,
    ensures
        types_size(sigs, k) <= types_size(sigs, n),
    decreases n,
{
    if k < n {
        lemma_types_size_monotone(sigs, k, (n - 1) as nat);
    }
}

/// The two imports that stand for an imported function of the source module: the forward pass
/// under the names of the import, and the backward pass under the names that the configuration
/// gives. Only functions can be imported.
pub open spec fn import_item(config: Config, num_types: nat, import: &Import) -> Result<
    Seq<u8>,
    Error,
> {
    let key = (import.module@, import.name@);
    match import.ty {
        TypeRef::Func(typeidx) => if !config.imports.contains_key(key) {
            Err(Error::MissingImport(import.module, import.name))
        } else if typeidx >= num_types {
            Err(Error::Malformed(Malformed::TypeIndex))
        } else if encode_utf8(key.0).len() > u32::MAX || encode_utf8(key.1).len() > u32::MAX
            || encode_utf8(config.imports[key].0).len() > u32::MAX || encode_utf8(
            config.imports[key].1,
        ).len() > u32::MAX {
            Err(Error::Malformed(Malformed::TooLarge))
        } else {
            Ok(
                func_import(encode_utf8(key.0), encode_utf8(key.1), (2 * typeidx) as u32)
                    + func_import(
                    encode_utf8(config.imports[key].0),
                    encode_utf8(config.imports[key].1),
                    (2 * typeidx + 1) as u32,
                ),
            )
        },
        TypeRef::Table => Err(Error::Unsupported(Feature::TableImport)),
        TypeRef::Memory => Err(Error::Unsupported(Feature::MemoryImport)),
        TypeRef::Global => Err(Error::Unsupported(Feature::GlobalImport)),
        TypeRef::Tag => Err(Error::Unsupported(Feature::TagImport)),
    }
}

/// The imports that stand for the first `k` imports, or the first error on the way.
pub open spec fn imports_bytes(config: Config, module: &Module, k: nat) -> Result<Seq<u8>, Error>
    decreases k,
{
    if k == 0 {
        Ok(Seq::empty())
    } else {
        match imports_bytes(config, module, (k - 1) as nat) {
            Err(e) => Err(e),
            Ok(bytes) => match import_item(config, module.types@.len(), &module.imports@[k - 1]) {
                Err(e) => Err(e),
                Ok(item) => Ok(bytes + item),
            },
        }
    }
}

pub proof fn lemma_imports_err(config: Config, module: &Module, k: nat, n: nat)
    requires
        k <= n,
        imports_bytes(config, module, k) is Err,
    ensures
        imports_bytes(config, module, n) == imports_bytes(config, module, k),
    decreases n,
{
    if k < n {
        lemma_imports_err(config, module, k, (n - 1) as nat);
    }
}

/// The type index of every imported function; an import of something else counts as of type 0.
pub open spec fn import_types(module: &Module) -> Seq<u32> {
    Seq::new(
        module.imports@.len(),
        |i: int|
            match module.imports@[i].ty {
                TypeRef::Func(typeidx) => typeidx,
                _ => 0u32,
            },
    )
}

/// The contents of the import section, or why the imports cannot be transformed.
pub open spec fn import_section(config: Config, module: &Module) -> Result<Seq<u8>, Error> {
    if module.imports@.len() > MAX_IMPORTS {
        Err(Error::Malformed(Malformed::TooLarge))
    } else {
        match imports_bytes(config, module, module.imports@.len()) {
            Err(e) => Err(e),
            Ok(bytes) => sealed(items((2 * module.imports@.len()) as u32, bytes)),
        }
    }
}

/// Write the two imports that stand for an import of the source module, and return the type
/// of the imported function.
fn write_import(config: &Autodiff, num_types: usize, import: &Import, sink: &mut Vec<u8>) -> (r:
    Result<u32, Error>)
    requires
        num_types <= MAX_TYPES,
    ensures
        match import_item(config@, num_types as nat, import) {
            Ok(item) => {
                &&& r is Ok
                &&& import.ty == TypeRef::Func(r->Ok_0)
                &&& r->Ok_0 < num_types
                &&& final(sink)@ == old(sink)@ + item
            },
            Err(e) => r == Err::<u32, Error>(e),
        },
{
    let typeidx = match import.ty {
        TypeRef::Func(typeidx) => typeidx,
        TypeRef::Table => {
            return Err(Error::Unsupported(Feature::TableImport));
        },
        TypeRef::Memory => {
            return Err(Error::Unsupported(Feature::MemoryImport));
        },
        TypeRef::Global => {
            return Err(Error::Unsupported(Feature::GlobalImport));
        },
        TypeRef::Tag => {
            return Err(Error::Unsupported(Feature::TagImport));
        },
    };
    let module_name = import.module.as_str();
    let name = import.name.as_str();
    let (module_bwd, name_bwd) = match config.imported(module_name, name) {
        Some(pair) => (pair.0.as_str(), pair.1.as_str()),
        None => {
            return Err(Error::MissingImport(import.module.clone(), import.name.clone()));
        },
    };
    if typeidx as usize >= num_types {
        return Err(Error::Malformed(Malformed::TypeIndex));
    }
    if !name_fits(module_name) || !name_fits(name) || !name_fits(module_bwd) || !name_fits(
        name_bwd,
    ) {
        return Err(Error::Malformed(Malformed::TooLarge));
    }
    let mapped = 2 * typeidx;
    write_func_import(sink, module_name, name, mapped);
    write_func_import(sink, module_bwd, name_bwd, mapped + 1);
    assert(sink@ =~= old(sink)@ + import_item(config@, num_types as nat, import)->Ok_0);
    Ok(typeidx)
}

/// Write the import section, and collect the types of the imported functions.
fn write_imports(config: &Autodiff, module: &Module) -> (r: Result<(Vec<u32>, Vec<u8>), Error>)
    requires
        module.types@.len() <= MAX_TYPES,
    ensures
        match import_section(config@, module) {
            Ok(contents) => {
                &&& r is Ok
                &&& r->Ok_0.0@ == import_types(module)
                &&& forall|i: int|
                    0 <= i < module.imports@.len() ==> (#[trigger] r->Ok_0.0@[i])
                        < module.types@.len()
                &&& r->Ok_0.1@ == contents
            },
            Err(e) => r == Err::<(Vec<u32>, Vec<u8>), Error>(e),
        },
{
    let n = module.imports.len();
    if n > MAX_IMPORTS as usize {
        return Err(Error::Malformed(Malformed::TooLarge));
    }
    let mut out = Vec::new();
    leb128::write_u32(&mut out, 2 * (n as u32));
    let ghost head = out@;
    let mut func_types: Vec<u32> = Vec::new();
    let mut i: usize = 0;
    assert(out@ =~= head + Seq::<u8>::empty());
    while i < n
        invariant
            i <= n == module.imports@.len(),
            n <= MAX_IMPORTS,
            module.types@.len() <= MAX_TYPES,
            func_types@.len() == i,
            forall|j: int|
                0 <= j < i ==> (#[trigger] func_types@[j]) == import_types(module)[j]
                    && func_types@[j] < module.types@.len(),
            imports_bytes(config@, module, i as nat) is Ok,
            out@ == head + imports_bytes(config@, module, i as nat)->Ok_0,
        decreases n - i,
    {
        match write_import(config, module.types.len(), &module.imports[i], &mut out) {
            Ok(typeidx) => {
                func_types.push(typeidx);
            },
            Err(e) => {
                proof {
                    lemma_imports_err(config@, module, (i + 1) as nat, n as nat);
                }
                return Err(e);
            },
        }
        i += 1;
        assert(out@ =~= head + imports_bytes(config@, module, i as nat)->Ok_0);
    }
    assert(func_types@ =~= import_types(module));
    match seal(out) {
        Ok(contents) => Ok((func_types, contents)),
        Err(e) => Err(e),
    }
}

/// The two indices that stand for the first `k` functions that the module defines: the types
/// of their forward and of their backward pass.
pub open spec fn functions_bytes(functions: Seq<u32>, k: nat) -> Seq<u8>
    decreases k,
{
    if k == 0 {
        Seq::empty()
    } else {
        functions_bytes(functions, (k - 1) as nat) + leb128::unsigned(
            (2 * functions[k - 1]) as nat,
        ) + leb128::unsigned((2 * functions[k - 1] + 1) as nat)
    }
}

/// The contents of the function section, or why the functions cannot be transformed.
pub open spec fn function_section(module: &Module) -> Result<Seq<u8>, Error> {
    if module.imports@.len() + module.functions@.len() > MAX_FUNCTIONS {
        Err(Error::Malformed(Malformed::TooLarge))
    } else if exists|i: int|
        0 <= i < module.functions@.len() && #[trigger] module.functions@[i] >= module.types@.len() {
        Err(Error::Malformed(Malformed::TypeIndex))
    } else {
        sealed(
            items(
                (OFFSET_FUNCTIONS + 2 * module.functions@.len()) as u32,
                helper_function_types(
                    spec_helper_types_at(module.types@.len()),
                    OFFSET_FUNCTIONS as nat,
                ) + functions_bytes(
                    module.functions@,
                    module.functions@.len(),
                ),
            ),
        )
    }
}

/// The type indices of the first `k` helper functions, where the helper types begin at `base`.
pub open spec fn helper_function_types(base: u32, k: nat) -> Seq<u8>
    decreases k,
{
    if k == 0 {
        Seq::empty()
    } else {
        helper_function_types(base, (k - 1) as nat) + leb128::unsigned(
            crate::helper::spec_helper_function(base, k - 1).1 as nat,
        )
    }
}

/// Write the function section, and add the types of the functions that the module defines to
/// those of the functions that it imports.
fn write_functions(module: &Module, func_types: &mut Vec<u32>) -> (r: Result<Vec<u8>, Error>)
    requires
        old(func_types)@.len() == module.imports@.len(),
        module.types@.len() <= MAX_TYPES,
    ensures
        match function_section(module) {
            Ok(contents) => {
                &&& r is Ok
                &&& r->Ok_0@ == contents
                &&& final(func_types)@ == old(func_types)@ + module.functions@
            },
            Err(e) => r == Err::<Vec<u8>, Error>(e),
        },
{
    let n = module.functions.len();
    if module.imports.len() > MAX_FUNCTIONS as usize || n > MAX_FUNCTIONS as usize
        - module.imports.len() {
        return Err(Error::Malformed(Malformed::TooLarge));
    }
    let mut out = Vec::new();
    leb128::write_u32(&mut out, OFFSET_FUNCTIONS + 2 * (n as u32));
    let ghost head = out@;
    let base = helper_types_at(module.types.len());
    let helpers = helper_functions(base);
    let mut h: usize = 0;
    assert(out@ =~= head + helper_function_types(base, 0));
    while h < helpers.len()
        invariant
            h <= helpers@.len() == OFFSET_FUNCTIONS,
            forall|i: int|
                0 <= i < OFFSET_FUNCTIONS ==> (#[trigger] helpers@[i]).1
                    == crate::helper::spec_helper_function(base, i).1,
            out@ == head + helper_function_types(base, h as nat),
        decreases helpers@.len() - h,
    {
        leb128::write_u32(&mut out, helpers[h].1);
        h += 1;
        assert(out@ =~= head + helper_function_types(base, h as nat));
    }
    let ghost fixed = out@;
    let mut i: usize = 0;
    assert(out@ =~= fixed + functions_bytes(module.functions@, 0));
    assert(func_types@ =~= old(func_types)@ + module.functions@.take(0));
    while i < n
        invariant
            i <= n == module.functions@.len(),
            module.imports@.len() + n <= MAX_FUNCTIONS,
            module.types@.len() <= MAX_TYPES,
            forall|j: int| 0 <= j < i ==> (#[trigger] module.functions@[j]) < module.types@.len(),
            func_types@ == old(func_types)@ + module.functions@.take(i as int),
            out@ == fixed + functions_bytes(module.functions@, i as nat),
        decreases n - i,
    {
        let typeidx = module.functions[i];
        if typeidx as usize >= module.types.len() {
            return Err(Error::Malformed(Malformed::TypeIndex));
        }
        // Each type of the source module becomes two, and so does each function.
        leb128::write_u32(&mut out, 2 * typeidx);
        leb128::write_u32(&mut out, 2 * typeidx + 1);
        func_types.push(typeidx);
        i += 1;
        assert(out@ =~= fixed + functions_bytes(module.functions@, i as nat));
        assert(func_types@ =~= old(func_types)@ + module.functions@.take(i as int));
    }
    assert(module.functions@.take(n as int) =~= module.functions@);
    seal(out)
}

/// The two memories that stand for the first `k` memories: one for the values and one of the
/// same type for their adjoints.
pub open spec fn memories_bytes(memories: Seq<MemoryType>, k: nat) -> Seq<u8>
    decreases k,
{
    if k == 0 {
        Seq::empty()
    } else {
        memories_bytes(memories, (k - 1) as nat) + memory_type(memories[k - 1]) + memory_type(
            memories[k - 1],
        )
    }
}

/// The contents of the memory section: the tapes, then the memories of the source module.
pub open spec fn memory_section(module: &Module) -> Result<Seq<u8>, Error> {
    if OFFSET_MEMORIES + 2 * module.memories@.len() > u32::MAX {
        Err(Error::Malformed(Malformed::TooLarge))
    } else {
        sealed(
            items(
                (OFFSET_MEMORIES + 2 * module.memories@.len()) as u32,
                memory_type(spec_tape_memory()) + memory_type(spec_tape_memory()) + memory_type(
                    spec_tape_memory(),
                ) + memories_bytes(module.memories@, module.memories@.len()),
            ),
        )
    }
}

fn write_memories(module: &Module) -> (r: Result<Vec<u8>, Error>)
    ensures
        match memory_section(module) {
            Ok(contents) => r is Ok && r->Ok_0@ == contents,
            Err(e) => r == Err::<Vec<u8>, Error>(e),
        },
{
    let n = module.memories.len();
    if n > ((u32::MAX - OFFSET_MEMORIES) / 2) as usize {
        return Err(Error::Malformed(Malformed::TooLarge));
    }
    let mut out = Vec::new();
    leb128::write_u32(&mut out, OFFSET_MEMORIES + 2 * (n as u32));
    let helpers = helper_memories();
    write_memory_type(&mut out, helpers[0].1);
    write_memory_type(&mut out, helpers[1].1);
    write_memory_type(&mut out, helpers[2].1);
    let ghost fixed = out@;
    let mut i: usize = 0;
    assert(out@ =~= fixed + memories_bytes(module.memories@, 0));
    while i < n
        invariant
            i <= n == module.memories@.len(),
            out@ == fixed + memories_bytes(module.memories@, i as nat),
        decreases n - i,
    {
        let memory_type = module.memories[i];
        write_memory_type(&mut out, memory_type);
        // Duplicate the memory to store adjoint values.
        write_memory_type(&mut out, memory_type);
        i += 1;
        assert(out@ =~= fixed + memories_bytes(module.memories@, i as nat));
    }
    assert(out@ =~= items(
        (OFFSET_MEMORIES + 2 * module.memories@.len()) as u32,
        memory_type(spec_tape_memory()) + memory_type(spec_tape_memory()) + memory_type(
            spec_tape_memory(),
        ) + memories_bytes(module.memories@, module.memories@.len()),
    ));
    seal(out)
}

/// Whether an instruction is a numeric constant.
pub open spec fn spec_is_const(op: Instruction) -> bool {
    op is I32Const || op is I64Const || op is F32Const || op is F64Const
}

#[verifier::when_used_as_spec(spec_is_const)]
pub fn is_const(op: Instruction) -> (r: bool)
    ensures
        r == spec_is_const(op),
{
    match op {
        Instruction::I32Const(_)
        | Instruction::I64Const(_)
        | Instruction::F32Const(_)
        | Instruction::F64Const(_) => true,
        _ => false,
    }
}

/// Whether the first `k` instructions are numeric constants.
pub open spec fn all_const(init: Seq<Instruction>, k: nat) -> bool
    decreases k,
{
    k == 0 || (all_const(init, (k - 1) as nat) && spec_is_const(init[k - 1]))
}

/// The global that stands for a global of the source module, which must be a constant that
/// numeric constants initialize.
pub open spec fn global_item(g: &Global) -> Result<Seq<u8>, Error> {
    if g.mutable {
        Err(Error::Unsupported(Feature::MutableGlobal))
    } else if g.shared {
        Err(Error::Unsupported(Feature::SharedGlobal))
    } else if !all_const(g.init@, g.init@.len()) {
        Err(Error::Unsupported(Feature::InitExpr))
    } else {
        Ok(global(g.val_type, false, false, g.init@))
    }
}

fn write_global_item(g: &Global, sink: &mut Vec<u8>) -> (r: Result<(), Error>)
    ensures
        match global_item(g) {
            Ok(item) => r is Ok && final(sink)@ == old(sink)@ + item,
            Err(e) => r == Err::<(), Error>(e),
        },
{
    if g.mutable {
        return Err(Error::Unsupported(Feature::MutableGlobal));
    }
    if g.shared {
        return Err(Error::Unsupported(Feature::SharedGlobal));
    }
    let mut k: usize = 0;
    while k < g.init.len()
        invariant
            k <= g.init@.len(),
            !g.mutable,
            !g.shared,
            all_const(g.init@, k as nat),
        decreases g.init@.len() - k,
    {
        if !is_const(g.init[k]) {
            proof {
                lemma_all_const_prefix(g.init@, (k + 1) as nat, g.init@.len());
            }
            return Err(Error::Unsupported(Feature::InitExpr));
        }
        k += 1;
    }
    write_global(sink, g.val_type, false, false, g.init.as_slice());
    Ok(())
}

proof fn lemma_all_const_prefix(init: Seq<Instruction>, k: nat, n: nat)
    requires
        k <= n,
        !all_const(init, k),
    ensures
        !all_const(init, n),
    decreases n,
{
    if k < n {
        lemma_all_const_prefix(init, k, (n - 1) as nat);
    }
}

/// The globals that stand for the first `k` globals, or the first error on the way.
pub open spec fn globals_bytes(module: &Module, k: nat) -> Result<Seq<u8>, Error>
    decreases k,
{
    if k == 0 {
        Ok(Seq::empty())
    } else {
        match globals_bytes(module, (k - 1) as nat) {
            Err(e) => Err(e),
            Ok(bytes) => match global_item(&module.globals@[k - 1]) {
                Err(e) => Err(e),
                Ok(item) => Ok(bytes + item),
            },
        }
    }
}

pub proof fn lemma_globals_err(module: &Module, k: nat, n: nat)
    requires
        k <= n,
        globals_bytes(module, k) is Err,
    ensures
        globals_bytes(module, n) == globals_bytes(module, k),
    decreases n,
{
    if k < n {
        lemma_globals_err(module, k, (n - 1) as nat);
    }
}

/// The pointer of a tape: a 32-bit integer that can be assigned to and starts at zero.
pub open spec fn tape_global() -> Seq<u8> {
    global(ValType::I32, true, false, seq![Instruction::I32Const(0)])
}

/// The contents of the global section: the pointers of the tapes, then the globals of the source
/// module.
pub open spec fn global_section(module: &Module) -> Result<Seq<u8>, Error> {
    if OFFSET_GLOBALS + module.globals@.len() > u32::MAX {
        Err(Error::Malformed(Malformed::TooLarge))
    } else {
        match globals_bytes(module, module.globals@.len()) {
            Err(e) => Err(e),
            Ok(bytes) => sealed(
                items(
                    (OFFSET_GLOBALS + module.globals@.len()) as u32,
                    tape_global() + tape_global() + tape_global() + bytes,
                ),
            ),
        }
    }
}

fn write_globals(module: &Module) -> (r: Result<Vec<u8>, Error>)
    ensures
        match global_section(module) {
            Ok(contents) => r is Ok && r->Ok_0@ == contents,
            Err(e) => r == Err::<Vec<u8>, Error>(e),
        },
{
    let n = module.globals.len();
    if n > (u32::MAX - OFFSET_GLOBALS) as usize {
        return Err(Error::Malformed(Malformed::TooLarge));
    }
    let mut out = Vec::new();
    leb128::write_u32(&mut out, OFFSET_GLOBALS + n as u32);
    let helpers = helper_globals();
    let mut h: usize = 0;
    let ghost head = out@;
    write_global(&mut out, helpers[0].1.val_type, true, false, helpers[0].1.init.as_slice());
    write_global(&mut out, helpers[1].1.val_type, true, false, helpers[1].1.init.as_slice());
    write_global(&mut out, helpers[2].1.val_type, true, false, helpers[2].1.init.as_slice());
    assert(out@ =~= head + tape_global() + tape_global() + tape_global());
    let ghost fixed = out@;
    let mut i: usize = 0;
    assert(out@ =~= fixed + Seq::<u8>::empty());
    while i < n
        invariant
            i <= n == module.globals@.len(),
            n + OFFSET_GLOBALS <= u32::MAX,
            globals_bytes(module, i as nat) is Ok,
            out@ == fixed + globals_bytes(module, i as nat)->Ok_0,
        decreases n - i,
    {
        match write_global_item(&module.globals[i], &mut out) {
            Ok(()) => {},
            Err(e) => {
                proof {
                    lemma_globals_err(module, (i + 1) as nat, n as nat);
                }
                return Err(e);
            },
        }
        i += 1;
        assert(out@ =~= fixed + globals_bytes(module, i as nat)->Ok_0);
    }
    assert(out@ =~= items(
        (OFFSET_GLOBALS + module.globals@.len()) as u32,
        tape_global() + tape_global() + tape_global() + globals_bytes(
            module,
            module.globals@.len(),
        )->Ok_0,
    ));
    seal(out)
}

/// The exports that stand for an export of the source module, with their number.
///
/// The export of a function names its forward pass, and the export of a memory names the
/// memory of the values. Where the configuration gives a name for the counterpart, the backward
/// pass or the memory of the adjoints is exported under that name. The export of a global names
/// the global behind those of the tapes. A module has no tables and no tags to export.
pub open spec fn export_item(config: Config, num_imports: u32, e: &Export) -> Result<
    (nat, Seq<u8>),
    Error,
> {
    let name = encode_utf8(e.name@);
    if name.len() > u32::MAX {
        Err(Error::Malformed(Malformed::TooLarge))
    } else {
        match e.kind {
            ExportKind::Table => Err(Error::Unsupported(Feature::TableExport)),
            ExportKind::Tag => Err(Error::Unsupported(Feature::TagExport)),
            ExportKind::Global => if e.index + OFFSET_GLOBALS > u32::MAX {
                Err(Error::Malformed(Malformed::TooLarge))
            } else {
                Ok((1, export(name, e.kind, (e.index + OFFSET_GLOBALS) as u32)))
            },
            _ => {
                let offset = if e.kind == ExportKind::Memory {
                    OFFSET_MEMORIES as int
                } else if e.index >= num_imports {
                    OFFSET_FUNCTIONS as int
                } else {
                    0
                };
                let index = 2 * e.index + offset;
                if index + 1 > u32::MAX {
                    Err(Error::Malformed(Malformed::TooLarge))
                } else if !config.exports.contains_key(e.name@) {
                    Ok((1, export(name, e.kind, index as u32)))
                } else {
                    let derivative = encode_utf8(config.exports[e.name@]);
                    if derivative.len() > u32::MAX {
                        Err(Error::Malformed(Malformed::TooLarge))
                    } else {
                        Ok(
                            (
                                2,
                                export(name, e.kind, index as u32) + export(
                                    derivative,
                                    e.kind,
                                    (index + 1) as u32,
                                ),
                            ),
                        )
                    }
                }
            },
        }
    }
}

fn write_export_item(config: &Autodiff, num_imports: u32, e: &Export, sink: &mut Vec<u8>) -> (r:
    Result<u32, Error>)
    ensures
        match export_item(config@, num_imports, e) {
            Ok((count, item)) => r is Ok && r->Ok_0 == count && final(sink)@ == old(sink)@ + item,
            Err(e) => r == Err::<u32, Error>(e),
        },
{
    let name = e.name.as_str();
    if !name_fits(name) {
        return Err(Error::Malformed(Malformed::TooLarge));
    }
    let offset = match e.kind {
        // Every function has become a forward pass and a backward pass.
        ExportKind::Func => if e.index >= num_imports {
            OFFSET_FUNCTIONS
        } else {
            0
        },
        ExportKind::Memory => OFFSET_MEMORIES,
        // The globals of the module stand behind those of the tapes.
        ExportKind::Global => {
            if e.index > u32::MAX - OFFSET_GLOBALS {
                return Err(Error::Malformed(Malformed::TooLarge));
            }
            write_export(sink, name, e.kind, e.index + OFFSET_GLOBALS);
            return Ok(1);
        },
        ExportKind::Table => {
            return Err(Error::Unsupported(Feature::TableExport));
        },
        ExportKind::Tag => {
            return Err(Error::Unsupported(Feature::TagExport));
        },
    };
    if e.index > (u32::MAX - offset - 1) / 2 {
        return Err(Error::Malformed(Malformed::TooLarge));
    }
    let index = 2 * e.index + offset;
    match config.exported(name) {
        None => {
            write_export(sink, name, e.kind, index);
            Ok(1)
        },
        Some(derivative) => {
            let derivative = derivative.as_str();
            if !name_fits(derivative) {
                return Err(Error::Malformed(Malformed::TooLarge));
            }
            write_export(sink, name, e.kind, index);
            write_export(sink, derivative, e.kind, index + 1);
            assert(sink@ =~= old(sink)@ + export_item(config@, num_imports, e)->Ok_0.1);
            Ok(2)
        },
    }
}

/// The exports that stand for the first `k` exports, with their number, or the first error on
/// the way.
pub open spec fn exports_bytes(config: Config, module: &Module, k: nat) -> Result<
    (nat, Seq<u8>),
    Error,
>
    decreases k,
{
    if k == 0 {
        Ok((0, Seq::empty()))
    } else {
        match exports_bytes(config, module, (k - 1) as nat) {
            Err(e) => Err(e),
            Ok((count, bytes)) => match export_item(
                config,
                module.imports@.len() as u32,
                &module.exports@[k - 1],
            ) {
                Err(e) => Err(e),
                Ok((more, item)) => Ok((count + more, bytes + item)),
            },
        }
    }
}

pub proof fn lemma_exports_err(config: Config, module: &Module, k: nat, n: nat)
    requires
        k <= n,
        exports_bytes(config, module, k) is Err,
    ensures
        exports_bytes(config, module, n) == exports_bytes(config, module, k),
    decreases n,
{
    if k < n {
        lemma_exports_err(config, module, k, (n - 1) as nat);
    }
}

/// The most exports that a module may have for their number in the transformed module to fit
/// in 32 bits.
pub const MAX_EXPORTS: u32 = 0x7FFF_FFFF;

/// The contents of the export section, or why the exports cannot be transformed.
pub open spec fn export_section(config: Config, module: &Module) -> Result<Seq<u8>, Error> {
    if module.exports@.len() > MAX_EXPORTS {
        Err(Error::Malformed(Malformed::TooLarge))
    } else {
        match exports_bytes(config, module, module.exports@.len()) {
            Err(e) => Err(e),
            Ok((count, bytes)) => sealed(leb128::unsigned(count) + bytes),
        }
    }
}

fn write_exports(config: &Autodiff, module: &Module) -> (r: Result<Vec<u8>, Error>)
    requires
        module.imports@.len() <= MAX_IMPORTS,
    ensures
        match export_section(config@, module) {
            Ok(contents) => r is Ok && r->Ok_0@ == contents,
            Err(e) => r == Err::<Vec<u8>, Error>(e),
        },
{
    let n = module.exports.len();
    if n > MAX_EXPORTS as usize {
        return Err(Error::Malformed(Malformed::TooLarge));
    }
    let num_imports = module.imports.len() as u32;
    let mut bytes = Vec::new();
    let mut count: u32 = 0;
    let mut i: usize = 0;
    while i < n
        invariant
            i <= n == module.exports@.len(),
            n <= MAX_EXPORTS,
            num_imports == module.imports@.len(),
            count <= 2 * i,
            exports_bytes(config@, module, i as nat) == Ok::<(nat, Seq<u8>), Error>(
                (count as nat, bytes@),
            ),
        decreases n - i,
    {
        match write_export_item(config, num_imports, &module.exports[i], &mut bytes) {
            Ok(more) => {
                count += more;
            },
            Err(e) => {
                proof {
                    lemma_exports_err(config@, module, (i + 1) as nat, n as nat);
                }
                return Err(e);
            },
        }
        i += 1;
    }
    let mut out = Vec::new();
    leb128::write_u32(&mut out, count);
    out.append(&mut bytes);
    seal(out)
}

/// An entry of the code section: a function body, which must not take more than `u32::MAX`
/// bytes, as a vector of bytes.
pub open spec fn code_entry(body: Seq<u8>) -> Result<Seq<u8>, Error> {
    if body.len() > u32::MAX {
        Err(Error::Malformed(Malformed::TooLarge))
    } else {
        Ok(sized(body))
    }
}

fn write_code_entry(sink: &mut Vec<u8>, body: &[u8]) -> (r: Result<(), Error>)
    ensures
        match code_entry(body@) {
            Ok(entry) => r is Ok && final(sink)@ == old(sink)@ + entry,
            Err(e) => r == Err::<(), Error>(e),
        },
{
    if body.len() > u32::MAX as usize {
        return Err(Error::Malformed(Malformed::TooLarge));
    }
    write_code(sink, body);
    Ok(())
}

/// The bodies of the first `k` helper functions.
pub open spec fn helper_code(base: u32, k: nat) -> Result<Seq<u8>, Error>
    decreases k,
{
    if k == 0 {
        Ok(Seq::empty())
    } else {
        match helper_code(base, (k - 1) as nat) {
            Err(e) => Err(e),
            Ok(bytes) => match code_entry(
                body(
                    crate::helper::spec_helper_function(base, k - 1).2.0,
                    crate::helper::spec_helper_function(base, k - 1).2.1,
                ),
            ) {
                Err(e) => Err(e),
                Ok(entry) => Ok(bytes + entry),
            },
        }
    }
}

pub proof fn lemma_helper_code_err(base: u32, k: nat, n: nat)
    requires
        k <= n,
        helper_code(base, k) is Err,
    ensures
        helper_code(base, n) == helper_code(base, k),
    decreases n,
{
    if k < n {
        lemma_helper_code_err(base, k, (n - 1) as nat);
    }
}

/// The type index of every function of a module, the imported ones first.
pub open spec fn func_types(module: &Module) -> Seq<u32> {
    import_types(module) + module.functions@
}

/// The two entries that stand for the body `j` of the source module: its forward pass and its
/// backward pass.
pub open spec fn function_item(module: &Module, j: int) -> Result<Seq<u8>, Error> {
    let funcidx = module.imports@.len() + j;
    if funcidx >= func_types(module).len() {
        Err(Error::Malformed(Malformed::FunctionCount))
    } else {
        match spec_function(
            type_sigs(module),
            NumImports { func: module.imports@.len() as u32 },
            func_types(module),
            funcidx as u32,
            module.code@[j].locals@,
            module.code@[j].operators@,
        ) {
            Err(e) => Err(e),
            Ok(transformed) => match code_entry(transformed.fwd) {
                Err(e) => Err(e),
                Ok(fwd) => match code_entry(transformed.bwd) {
                    Err(e) => Err(e),
                    Ok(bwd) => Ok(fwd + bwd),
                },
            },
        }
    }
}

/// What the transformation of the body `j` keeps of its function, where the body can be
/// transformed.
pub open spec fn function_facts(module: &Module, j: int) -> FuncFacts {
    let funcidx = (module.imports@.len() + j) as u32;
    let ty = type_sigs(module)[func_types(module)[funcidx as int] as int];
    let transformed = spec_function(
        type_sigs(module),
        NumImports { func: module.imports@.len() as u32 },
        func_types(module),
        funcidx,
        module.code@[j].locals@,
        module.code@[j].operators@,
    )->Ok_0;
    FuncFacts {
        results: float_count(ty.1) as u32,
        entries: function_locals(ty.0, module.code@[j].locals@),
        stack_locals: transformed.stack_locals,
        branch_locals: transformed.branch_locals,
    }
}

/// Whether what is kept of a function is what the transformation of the body `j` keeps.
pub open spec fn keeps(module: &Module, j: int, info: FunctionInfo) -> bool {
    &&& info.typeidx == func_types(module)[module.imports@.len() + j]
    &&& info.locals.wf()
    &&& info.locals.type_map() == spec_type_map()
    &&& info.locals.entries() == function_facts(module, j).entries
    &&& info.stack_locals == function_facts(module, j).stack_locals
    &&& info.branch_locals == function_facts(module, j).branch_locals
}

/// The entries that stand for the first `k` bodies, or the first error on the way.
pub open spec fn code_bytes(module: &Module, k: nat) -> Result<Seq<u8>, Error>
    decreases k,
{
    if k == 0 {
        Ok(Seq::empty())
    } else {
        match code_bytes(module, (k - 1) as nat) {
            Err(e) => Err(e),
            Ok(bytes) => match function_item(module, k - 1) {
                Err(e) => Err(e),
                Ok(item) => Ok(bytes + item),
            },
        }
    }
}

pub proof fn lemma_code_err(module: &Module, k: nat, n: nat)
    requires
        k <= n,
        code_bytes(module, k) is Err,
    ensures
        code_bytes(module, n) == code_bytes(module, k),
    decreases n,
{
    if k < n {
        lemma_code_err(module, k, (n - 1) as nat);
    }
}

/// The contents of the code section: the bodies of the helpers, then two bodies for each body
/// of the source module.
pub open spec fn code_section(module: &Module) -> Result<Seq<u8>, Error> {
    if OFFSET_FUNCTIONS + 2 * module.code@.len() > u32::MAX {
        Err(Error::Malformed(Malformed::TooLarge))
    } else {
        match helper_code(spec_helper_types_at(module.types@.len()), OFFSET_FUNCTIONS as nat) {
            Err(e) => Err(e),
            Ok(helpers) => match code_bytes(module, module.code@.len()) {
                Err(e) => Err(e),
                Ok(bytes) => sealed(
                    items((OFFSET_FUNCTIONS + 2 * module.code@.len()) as u32, helpers + bytes),
                ),
            },
        }
    }
}

/// Write the bodies of the helper functions, where the helper types begin at `base`.
fn write_helper_code(sink: &mut Vec<u8>, base: u32) -> (r: Result<(), Error>)
    requires
        base + OFFSET_TYPES <= u32::MAX,
    ensures
        match helper_code(base, OFFSET_FUNCTIONS as nat) {
            Ok(bytes) => r is Ok && final(sink)@ == old(sink)@ + bytes,
            Err(e) => r == Err::<(), Error>(e),
        },
{
    let helpers = helper_functions(base);
    let mut h: usize = 0;
    assert(sink@ =~= old(sink)@ + Seq::<u8>::empty());
    while h < helpers.len()
        invariant
            h <= helpers@.len() == OFFSET_FUNCTIONS,
            forall|i: int|
                0 <= i < OFFSET_FUNCTIONS ==> {
                    &&& (#[trigger] helpers@[i]).2.locals@
                        == crate::helper::spec_helper_function(base, i).2.0
                    &&& helpers@[i].2.code@ == crate::helper::spec_helper_function(base, i).2.1
                    &&& helpers@[i].2.locals@.len() <= 2
                },
            helper_code(base, h as nat) is Ok,
            sink@ == old(sink)@ + helper_code(base, h as nat)->Ok_0,
        decreases helpers@.len() - h,
    {
        assert(helpers@[h as int].2.locals@.len() <= 2);
        let bytes = crate::sections::function_body(&helpers[h].2);
        match write_code_entry(sink, bytes.as_slice()) {
            Ok(()) => {},
            Err(e) => {
                proof {
                    lemma_helper_code_err(base, (h + 1) as nat, OFFSET_FUNCTIONS as nat);
                }
                return Err(e);
            },
        }
        h += 1;
        assert(sink@ =~= old(sink)@ + helper_code(base, h as nat)->Ok_0);
    }
    Ok(())
}

/// The tables that the transformation of the functions goes by are those of the module, and
/// every index into them fits in 32 bits.
#[verifier::opaque]
pub open spec fn tables_of(module: &Module, type_sigs: &FuncTypes, func_types: Seq<u32>) -> bool {
    &&& module.imports@.len() <= MAX_IMPORTS
    &&& type_sigs.wf()
    &&& type_sigs@ == self::type_sigs(module)
    &&& func_types == self::func_types(module)
    &&& tables_fit(type_sigs@, NumImports { func: module.imports@.len() as u32 }, func_types)
}

/// Transform the body `j` of the module and write its two passes.
fn write_function(
    module: &Module,
    type_sigs: &FuncTypes,
    func_types: &Vec<u32>,
    j: usize,
    sink: &mut Vec<u8>,
) -> (r: Result<FunctionInfo, Error>)
    requires
        j < module.code@.len(),
        tables_of(module, type_sigs, func_types@),
    ensures
        match function_item(module, j as int) {
            Ok(item) => r is Ok && final(sink)@ == old(sink)@ + item && keeps(
                module,
                j as int,
                r->Ok_0,
            ),
            Err(e) => r == Err::<FunctionInfo, Error>(e),
        },
{
    reveal(tables_of);
    let num_imports = NumImports { func: module.imports.len() as u32 };
    if j >= func_types.len() - module.imports.len() {
        return Err(Error::Malformed(Malformed::FunctionCount));
    }
    let funcidx = (module.imports.len() + j) as u32;
    let (info, fwd, bwd) = match function(
        type_sigs,
        num_imports,
        func_types.as_slice(),
        funcidx,
        &module.code[j],
    ) {
        Ok(done) => done,
        Err(e) => {
            return Err(e);
        },
    };
    match write_code_entry(sink, fwd.as_slice()) {
        Ok(()) => {},
        Err(e) => {
            return Err(e);
        },
    }
    match write_code_entry(sink, bwd.as_slice()) {
        Ok(()) => {},
        Err(e) => {
            return Err(e);
        },
    }
    assert(sink@ =~= old(sink)@ + function_item(module, j as int)->Ok_0);
    Ok(info)
}

/// Write the code section, and collect what is kept of each function.
#[verifier::rlimit(60)]
fn write_code_section(module: &Module, type_sigs: &FuncTypes, func_types: &Vec<u32>) -> (r: Result<
    (Vec<FunctionInfo>, Vec<u8>),
    Error,
>)
    requires
        module.imports@.len() <= MAX_IMPORTS,
        type_sigs.wf(),
        type_sigs@ == self::type_sigs(module),
        func_types@ == self::func_types(module),
        tables_fit(
            type_sigs@,
            NumImports { func: module.imports@.len() as u32 },
            func_types@,
        ),
    ensures
        match code_section(module) {
            Ok(contents) => {
                &&& r is Ok
                &&& r->Ok_0.1@ == contents
                &&& r->Ok_0.0@.len() == module.code@.len()
                &&& forall|j: int|
                    0 <= j < module.code@.len() ==> keeps(module, j, #[trigger] r->Ok_0.0@[j])
            },
            Err(e) => r == Err::<(Vec<FunctionInfo>, Vec<u8>), Error>(e),
        },
{
    let n = module.code.len();
    if n > ((u32::MAX - OFFSET_FUNCTIONS) / 2) as usize {
        return Err(Error::Malformed(Malformed::TooLarge));
    }
    assert(tables_of(module, type_sigs, func_types@)) by {
        reveal(tables_of);
    }
    let mut out = Vec::new();
    leb128::write_u32(&mut out, OFFSET_FUNCTIONS + 2 * (n as u32));
    let base = helper_types_at(module.types.len());
    match write_helper_code(&mut out, base) {
        Ok(()) => {},
        Err(e) => {
            return Err(e);
        },
    }
    let ghost fixed = out@;
    let mut infos = Vec::new();
    let mut j: usize = 0;
    assert(out@ =~= fixed + Seq::<u8>::empty());
    while j < n
        invariant
            j <= n == module.code@.len(),
            OFFSET_FUNCTIONS + 2 * n <= u32::MAX,
            base == spec_helper_types_at(module.types@.len()),
            helper_code(base, OFFSET_FUNCTIONS as nat) is Ok,
            tables_of(module, type_sigs, func_types@),
            infos@.len() == j,
            forall|i: int| 0 <= i < j ==> keeps(module, i, #[trigger] infos@[i]),
            code_bytes(module, j as nat) is Ok,
            out@ == fixed + code_bytes(module, j as nat)->Ok_0,
        decreases n - j,
    {
        match write_function(module, type_sigs, func_types, j, &mut out) {
            Ok(info) => {
                infos.push(info);
            },
            Err(e) => {
                proof {
                    lemma_code_err(module, (j + 1) as nat, n as nat);
                }
                return Err(e);
            },
        }
        j += 1;
        assert(out@ =~= fixed + code_bytes(module, j as nat)->Ok_0);
    }
    assert(out@ =~= items(
        (OFFSET_FUNCTIONS + 2 * module.code@.len()) as u32,
        helper_code(base, OFFSET_FUNCTIONS as nat)->Ok_0 + code_bytes(
            module,
            module.code@.len(),
        )->Ok_0,
    ));
    match seal(out) {
        Ok(contents) => Ok((infos, contents)),
        Err(e) => Err(e),
    }
}

/// What the name section needs to know of the function `f` of a module whose functions can
/// all be transformed: an imported function has no locals.
pub open spec fn facts_of(module: &Module, f: int) -> FuncFacts {
    if f < module.imports@.len() {
        FuncFacts {
            results: float_count(type_sigs(module)[func_types(module)[f] as int].1) as u32,
            entries: Seq::empty(),
            stack_locals: StackHeight::zero(),
            branch_locals: StackHeight::zero(),
        }
    } else {
        function_facts(module, f - module.imports@.len())
    }
}

/// What the name section needs to know of every function that is imported or has a body.
pub open spec fn module_facts(module: &Module) -> Seq<FuncFacts> {
    Seq::new(module.imports@.len() + module.code@.len(), |f: int| facts_of(module, f))
}

/// The name section of the transformed module, where the configuration asks for one: the
/// names of the source module, if it has a name section, are taken over, and what the
/// transformation adds gets names like them.
pub open spec fn names_section(config: Config, module: &Module) -> Result<Seq<u8>, Error> {
    if !config.names {
        Ok(Seq::empty())
    } else {
        match (match module.names {
            Some(source) => spec_names(module.imports@.len() as u32, source@),
            None => Ok(no_names()),
        }) {
            Err(e) => Err(e),
            Ok(names) => match spec_name_section(
                module_facts(module),
                module.imports@.len() as u32,
                module.types@.len() as u32,
                names,
            ) {
                Err(e) => Err(e),
                Ok(named) => match name_section_bytes(named) {
                    Err(e) => Err(e),
                    Ok(contents) => Ok(section(0, contents)),
                },
            },
        }
    }
}

/// What is kept of an imported function.
fn import_info(typeidx: u32) -> (r: FunctionInfo)
    ensures
        r.typeidx == typeidx,
        r.locals.wf(),
        r.locals.type_map() == spec_type_map(),
        r.locals.entries() == Seq::<(u32, ValType)>::empty(),
        r.stack_locals == StackHeight::zero(),
        r.branch_locals == StackHeight::zero(),
{
    FunctionInfo {
        typeidx,
        locals: LocalMap::new(type_map()),
        stack_locals: StackHeight::new(),
        branch_locals: StackHeight::new(),
    }
}

/// Write the name section, where the configuration asks for one.
fn write_names(
    config: &Autodiff,
    module: &Module,
    type_sigs: &FuncTypes,
    func_types: &Vec<u32>,
    kept: Vec<FunctionInfo>,
    sink: &mut Vec<u8>,
) -> (r: Result<(), Error>)
    requires
        module.imports@.len() <= MAX_IMPORTS,
        type_sigs.wf(),
        type_sigs@ == self::type_sigs(module),
        func_types@ == self::func_types(module),
        tables_fit(
            type_sigs@,
            NumImports { func: module.imports@.len() as u32 },
            func_types@,
        ),
        kept@.len() == module.code@.len(),
        module.imports@.len() + module.code@.len() <= func_types@.len(),
        forall|j: int| 0 <= j < module.code@.len() ==> keeps(module, j, #[trigger] kept@[j]),
    ensures
        match names_section(config@, module) {
            Ok(bytes) => r is Ok && final(sink)@ == old(sink)@ + bytes,
            Err(e) => r == Err::<(), Error>(e),
        },
{
    if !config.has_names() {
        assert(sink@ =~= old(sink)@ + Seq::<u8>::empty());
        return Ok(());
    }
    let num_imports = module.imports.len();
    let mut infos: Vec<FunctionInfo> = Vec::new();
    let mut i: usize = 0;
    while i < num_imports
        invariant
            i <= num_imports == module.imports@.len(),
            num_imports <= func_types@.len(),
            infos@.len() == i,
            forall|f: int|
                0 <= f < i ==> {
                    &&& (#[trigger] infos@[f]).typeidx == func_types@[f]
                    &&& infos@[f].locals.wf()
                    &&& infos@[f].locals.type_map() == spec_type_map()
                    &&& infos@[f].locals.entries() == Seq::<(u32, ValType)>::empty()
                    &&& infos@[f].stack_locals == StackHeight::zero()
                    &&& infos@[f].branch_locals == StackHeight::zero()
                },
        decreases num_imports - i,
    {
        infos.push(import_info(func_types[i]));
        i += 1;
    }
    let mut kept = kept;
    infos.append(&mut kept);
    let info = ModuleInfo {
        type_sigs,
        num_imports: NumImports { func: num_imports as u32 },
        infos: infos.as_slice(),
    };
    assert(info.inv());
    assert(facts(&info) =~= module_facts(module)) by {
        assert forall|f: int| 0 <= f < infos@.len() implies crate::names::facts_of(
            &info,
            f as u32,
        ) == facts_of(module, f) by {
            if f >= num_imports {
                assert(keeps(module, f - num_imports, infos@[f]));
            }
        }
    }
    let names = match &module.names {
        Some(source) => match Names::new(&info, source.as_slice()) {
            Ok(names) => Some(names),
            Err(e) => {
                return Err(e);
            },
        },
        None => None,
    };
    let named = match name_section(&info, names) {
        Ok(named) => named,
        Err(e) => {
            return Err(e);
        },
    };
    let contents = match encode_names(&named) {
        Ok(contents) => contents,
        Err(e) => {
            return Err(e);
        },
    };
    write_section(sink, 0, contents.as_slice());
    Ok(())
}

/// The transformed module, or why the module cannot be transformed: the first error of the
/// sections in their order.
///
/// The sections are those of types, imports, functions, memories, globals, exports and code,
/// and that of names where the configuration asks for it. In each the items of the helpers come
/// first.
pub open spec fn spec_transform(config: Config, module: &Module) -> Result<Seq<u8>, Error> {
    match type_section(module) {
        Err(e) => Err(e),
        Ok(types) => match import_section(config, module) {
            Err(e) => Err(e),
            Ok(imports) => match function_section(module) {
                Err(e) => Err(e),
                Ok(functions) => match memory_section(module) {
                    Err(e) => Err(e),
                    Ok(memories) => match global_section(module) {
                        Err(e) => Err(e),
                        Ok(globals) => match export_section(config, module) {
                            Err(e) => Err(e),
                            Ok(exports) => match code_section(module) {
                                Err(e) => Err(e),
                                Ok(code) => match names_section(config, module) {
                                    Err(e) => Err(e),
                                    Ok(names) => Ok(
                                        header() + section(1, types) + section(2, imports)
                                            + section(3, functions) + section(5, memories)
                                            + section(6, globals) + section(7, exports) + section(
                                            10,
                                            code,
                                        ) + names,
                                    ),
                                },
                            },
                        },
                    },
                },
            },
        },
    }
}

/// Transform a module to compute derivatives in reverse mode.
pub fn transform(config: &Autodiff, module: &Module) -> (r: Result<Vec<u8>, Error>)
    ensures
        match spec_transform(config@, module) {
            Ok(bytes) => r is Ok && r->Ok_0@ == bytes,
            Err(e) => r == Err::<Vec<u8>, Error>(e),
        },
{
    let (type_sigs, types) = match write_types(module) {
        Ok(done) => done,
        Err(e) => {
            return Err(e);
        },
    };
    let (mut func_types, imports) = match write_imports(config, module) {
        Ok(done) => done,
        Err(e) => {
            return Err(e);
        },
    };
    let functions = match write_functions(module, &mut func_types) {
        Ok(done) => done,
        Err(e) => {
            return Err(e);
        },
    };
    let memories = match write_memories(module) {
        Ok(done) => done,
        Err(e) => {
            return Err(e);
        },
    };
    let globals = match write_globals(module) {
        Ok(done) => done,
        Err(e) => {
            return Err(e);
        },
    };
    let exports = match write_exports(config, module) {
        Ok(done) => done,
        Err(e) => {
            return Err(e);
        },
    };
    let (kept, code) = match write_code_section(module, &type_sigs, &func_types) {
        Ok(done) => done,
        Err(e) => {
            return Err(e);
        },
    };
    let mut names = Vec::new();
    match write_names(config, module, &type_sigs, &func_types, kept, &mut names) {
        Ok(()) => {},
        Err(e) => {
            return Err(e);
        },
    }
    let mut out = module_header();
    write_section(&mut out, 1, types.as_slice());
    write_section(&mut out, 2, imports.as_slice());
    write_section(&mut out, 3, functions.as_slice());
    write_section(&mut out, 5, memories.as_slice());
    write_section(&mut out, 6, globals.as_slice());
    write_section(&mut out, 7, exports.as_slice());
    write_section(&mut out, 10, code.as_slice());
    out.append(&mut names);
    Ok(out)
}

} // verus!
