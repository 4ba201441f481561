use std::fmt;

use floretta::api::Autodiff;
use floretta::error::{Error, Feature, Malformed};
use floretta::instruction::Width::{W32, W64};
use floretta::instruction::{
    FloatBinOp as FB, FloatRelOp as FR, FloatUnOp as FU, Instruction as I, Instruction,
    IntBinOp as IB, IntRelOp as IR, IntUnOp as IU, MemArg,
};
use floretta::module::{
    Export, ExportKind, FuncType, FunctionBody, Global, Import, IndirectNaming, MemoryType,
    Module, Name, Naming, TypeRef,
};
use floretta::util::{BlockType, ValType, WasmType};
use floretta::vm::{to_wasm, Fault, Line, Op};
use wasmparser::{Operator, Parser, Payload, Validator, WasmFeatures};
use wasmtime::{Config, Engine, Instance, Store, TypedFunc, WasmParams, WasmResults};

fn val_type(ty: wasmparser::ValType) -> ValType {
    let ty = match ty {
        wasmparser::ValType::I32 => WasmType::I32,
        wasmparser::ValType::I64 => WasmType::I64,
        wasmparser::ValType::F32 => WasmType::F32,
        wasmparser::ValType::F64 => WasmType::F64,
        wasmparser::ValType::V128 => WasmType::V128,
        wasmparser::ValType::Ref(_) => WasmType::Ref,
    };
    ValType::from_wasm(ty).unwrap()
}

fn block_type(ty: wasmparser::BlockType) -> BlockType {
    match ty {
        wasmparser::BlockType::Empty => BlockType::Empty,
        wasmparser::BlockType::Type(ty) => BlockType::Result(val_type(ty)),
        wasmparser::BlockType::FuncType(typeidx) => BlockType::Func(typeidx),
    }
}

fn mem_arg(memarg: wasmparser::MemArg) -> MemArg {
    MemArg {
        offset: memarg.offset,
        align: memarg.align.into(),
        memory_index: memarg.memory,
    }
}

fn instruction(op: Operator) -> Instruction {
    match op {
        Operator::Unreachable => I::Unreachable,
        Operator::Block { blockty } => I::Block(block_type(blockty)),
        Operator::Loop { blockty } => I::Loop(block_type(blockty)),
        Operator::If { blockty } => I::If(block_type(blockty)),
        Operator::Else => I::Else,
        Operator::End => I::End,
        Operator::Br { relative_depth } => I::Br(relative_depth),
        Operator::BrIf { relative_depth } => I::BrIf(relative_depth),
        Operator::Call { function_index } => I::Call(function_index),
        Operator::Drop => I::Drop,
        Operator::LocalGet { local_index } => I::LocalGet(local_index),
        Operator::LocalSet { local_index } => I::LocalSet(local_index),
        Operator::LocalTee { local_index } => I::LocalTee(local_index),
        Operator::GlobalGet { global_index } => I::GlobalGet(global_index),
        Operator::GlobalSet { global_index } => I::GlobalSet(global_index),
        Operator::I32Load { memarg } => I::I32Load(mem_arg(memarg)),
        Operator::I32Load8U { memarg } => I::I32Load8U(mem_arg(memarg)),
        Operator::I32Store { memarg } => I::I32Store(mem_arg(memarg)),
        Operator::I32Store8 { memarg } => I::I32Store8(mem_arg(memarg)),
        Operator::F32Load { memarg } => I::FloatLoad(W32, mem_arg(memarg)),
        Operator::F64Load { memarg } => I::FloatLoad(W64, mem_arg(memarg)),
        Operator::F32Store { memarg } => I::FloatStore(W32, mem_arg(memarg)),
        Operator::F64Store { memarg } => I::FloatStore(W64, mem_arg(memarg)),
        Operator::MemorySize { mem } => I::MemorySize(mem),
        Operator::MemoryGrow { mem } => I::MemoryGrow(mem),
        Operator::I32Const { value } => I::I32Const(value),
        Operator::I64Const { value } => I::I64Const(value),
        Operator::F32Const { value } => I::F32Const(value.bits()),
        Operator::F64Const { value } => I::F64Const(value.bits()),
        Operator::I32Eqz => I::IntEqz(W32),
        Operator::I32Eq => I::IntCompare(W32, IR::Eq),
        Operator::I32Ne => I::IntCompare(W32, IR::Ne),
        Operator::I32LtS => I::IntCompare(W32, IR::LtS),
        Operator::I32LtU => I::IntCompare(W32, IR::LtU),
        Operator::I32GtS => I::IntCompare(W32, IR::GtS),
        Operator::I32GtU => I::IntCompare(W32, IR::GtU),
        Operator::I32LeS => I::IntCompare(W32, IR::LeS),
        Operator::I32LeU => I::IntCompare(W32, IR::LeU),
        Operator::I32GeS => I::IntCompare(W32, IR::GeS),
        Operator::I32GeU => I::IntCompare(W32, IR::GeU),
        Operator::I64Eqz => I::IntEqz(W64),
        Operator::I64Eq => I::IntCompare(W64, IR::Eq),
        Operator::I64Ne => I::IntCompare(W64, IR::Ne),
        Operator::I64LtS => I::IntCompare(W64, IR::LtS),
        Operator::I64LtU => I::IntCompare(W64, IR::LtU),
        Operator::I64GtS => I::IntCompare(W64, IR::GtS),
        Operator::I64GtU => I::IntCompare(W64, IR::GtU),
        Operator::I64LeS => I::IntCompare(W64, IR::LeS),
        Operator::I64LeU => I::IntCompare(W64, IR::LeU),
        Operator::I64GeS => I::IntCompare(W64, IR::GeS),
        Operator::I64GeU => I::IntCompare(W64, IR::GeU),
        Operator::F32Eq => I::FloatCompare(W32, FR::Eq),
        Operator::F32Ne => I::FloatCompare(W32, FR::Ne),
        Operator::F32Lt => I::FloatCompare(W32, FR::Lt),
        Operator::F32Gt => I::FloatCompare(W32, FR::Gt),
        Operator::F32Le => I::FloatCompare(W32, FR::Le),
        Operator::F32Ge => I::FloatCompare(W32, FR::Ge),
        Operator::F64Eq => I::FloatCompare(W64, FR::Eq),
        Operator::F64Ne => I::FloatCompare(W64, FR::Ne),
        Operator::F64Lt => I::FloatCompare(W64, FR::Lt),
        Operator::F64Gt => I::FloatCompare(W64, FR::Gt),
        Operator::F64Le => I::FloatCompare(W64, FR::Le),
        Operator::F64Ge => I::FloatCompare(W64, FR::Ge),
        Operator::I32Clz => I::IntUnary(W32, IU::Clz),
        Operator::I32Ctz => I::IntUnary(W32, IU::Ctz),
        Operator::I32Popcnt => I::IntUnary(W32, IU::Popcnt),
        Operator::I32Add => I::IntBinary(W32, IB::Add),
        Operator::I32Sub => I::IntBinary(W32, IB::Sub),
        Operator::I32Mul => I::IntBinary(W32, IB::Mul),
        Operator::I32DivS => I::IntBinary(W32, IB::DivS),
        Operator::I32DivU => I::IntBinary(W32, IB::DivU),
        Operator::I32RemS => I::IntBinary(W32, IB::RemS),
        Operator::I32RemU => I::IntBinary(W32, IB::RemU),
        Operator::I32And => I::IntBinary(W32, IB::And),
        Operator::I32Or => I::IntBinary(W32, IB::Or),
        Operator::I32Xor => I::IntBinary(W32, IB::Xor),
        Operator::I32Shl => I::IntBinary(W32, IB::Shl),
        Operator::I32ShrS => I::IntBinary(W32, IB::ShrS),
        Operator::I32ShrU => I::IntBinary(W32, IB::ShrU),
        Operator::I32Rotl => I::IntBinary(W32, IB::Rotl),
        Operator::I32Rotr => I::IntBinary(W32, IB::Rotr),
        Operator::I64Clz => I::IntUnary(W64, IU::Clz),
        Operator::I64Ctz => I::IntUnary(W64, IU::Ctz),
        Operator::I64Popcnt => I::IntUnary(W64, IU::Popcnt),
        Operator::I64Add => I::IntBinary(W64, IB::Add),
        Operator::I64Sub => I::IntBinary(W64, IB::Sub),
        Operator::I64Mul => I::IntBinary(W64, IB::Mul),
        Operator::I64DivS => I::IntBinary(W64, IB::DivS),
        Operator::I64DivU => I::IntBinary(W64, IB::DivU),
        Operator::I64RemS => I::IntBinary(W64, IB::RemS),
        Operator::I64RemU => I::IntBinary(W64, IB::RemU),
        Operator::I64And => I::IntBinary(W64, IB::And),
        Operator::I64Or => I::IntBinary(W64, IB::Or),
        Operator::I64Xor => I::IntBinary(W64, IB::Xor),
        Operator::I64Shl => I::IntBinary(W64, IB::Shl),
        Operator::I64ShrS => I::IntBinary(W64, IB::ShrS),
        Operator::I64ShrU => I::IntBinary(W64, IB::ShrU),
        Operator::I64Rotl => I::IntBinary(W64, IB::Rotl),
        Operator::I64Rotr => I::IntBinary(W64, IB::Rotr),
        Operator::F32Neg => I::FloatUnary(W32, FU::Neg),
        Operator::F32Sqrt => I::FloatUnary(W32, FU::Sqrt),
        Operator::F32Add => I::FloatBinary(W32, FB::Add),
        Operator::F32Sub => I::FloatBinary(W32, FB::Sub),
        Operator::F32Mul => I::FloatBinary(W32, FB::Mul),
        Operator::F32Div => I::FloatBinary(W32, FB::Div),
        Operator::F32Min => I::FloatBinary(W32, FB::Min),
        Operator::F32Max => I::FloatBinary(W32, FB::Max),
        Operator::F64Neg => I::FloatUnary(W64, FU::Neg),
        Operator::F64Sqrt => I::FloatUnary(W64, FU::Sqrt),
        Operator::F64Add => I::FloatBinary(W64, FB::Add),
        Operator::F64Sub => I::FloatBinary(W64, FB::Sub),
        Operator::F64Mul => I::FloatBinary(W64, FB::Mul),
        Operator::F64Div => I::FloatBinary(W64, FB::Div),
        Operator::F64Min => I::FloatBinary(W64, FB::Min),
        Operator::F64Max => I::FloatBinary(W64, FB::Max),
        Operator::F32ConvertI32S => I::Convert { to: W32, from: W32, signed: true },
        Operator::F32ConvertI32U => I::Convert { to: W32, from: W32, signed: false },
        Operator::F32ConvertI64S => I::Convert { to: W32, from: W64, signed: true },
        Operator::F32ConvertI64U => I::Convert { to: W32, from: W64, signed: false },
        Operator::F64ConvertI32S => I::Convert { to: W64, from: W32, signed: true },
        Operator::F64ConvertI32U => I::Convert { to: W64, from: W32, signed: false },
        Operator::F64ConvertI64S => I::Convert { to: W64, from: W64, signed: true },
        Operator::F64ConvertI64U => I::Convert { to: W64, from: W64, signed: false },
        other => panic!("{other:?}"),
    }
}

/// Reads a binary module into the sections that the transformations handle.
fn parse(wasm: &[u8]) -> Module {
    let mut module = Module {
        types: Vec::new(),
        imports: Vec::new(),
        functions: Vec::new(),
        memories: Vec::new(),
        globals: Vec::new(),
        exports: Vec::new(),
        code: Vec::new(),
        names: None,
    };
    for payload in Parser::new(0).parse_all(wasm) {
        match payload.unwrap() {
            Payload::TypeSection(section) => {
                for ty in section.into_iter_err_on_gc_types() {
                    let ty = ty.unwrap();
                    module.types.push(FuncType {
                        params: ty.params().iter().map(|&ty| val_type(ty)).collect(),
                        results: ty.results().iter().map(|&ty| val_type(ty)).collect(),
                    });
                }
            }
            Payload::ImportSection(section) => {
                for import in section {
                    let import = import.unwrap();
                    module.imports.push(Import {
                        module: import.module.to_string(),
                        name: import.name.to_string(),
                        ty: match import.ty {
                            wasmparser::TypeRef::Func(typeidx) => TypeRef::Func(typeidx),
                            wasmparser::TypeRef::Table(_) => TypeRef::Table,
                            wasmparser::TypeRef::Memory(_) => TypeRef::Memory,
                            wasmparser::TypeRef::Global(_) => TypeRef::Global,
                            wasmparser::TypeRef::Tag(_) => TypeRef::Tag,
                        },
                    });
                }
            }
            Payload::FunctionSection(section) => {
                for typeidx in section {
                    module.functions.push(typeidx.unwrap());
                }
            }
            Payload::MemorySection(section) => {
                for memory in section {
                    let memory = memory.unwrap();
                    module.memories.push(MemoryType {
                        minimum: memory.initial,
                        maximum: memory.maximum,
                        memory64: memory.memory64,
                        shared: memory.shared,
                        page_size_log2: memory.page_size_log2,
                    });
                }
            }
            Payload::GlobalSection(section) => {
                for global in section {
                    let global = global.unwrap();
                    let mut init = Vec::new();
                    let mut reader = global.init_expr.get_operators_reader();
                    while !reader.is_end_then_eof() {
                        init.push(instruction(reader.read().unwrap()));
                    }
                    module.globals.push(Global {
                        val_type: val_type(global.ty.content_type),
                        mutable: global.ty.mutable,
                        shared: global.ty.shared,
                        init,
                    });
                }
            }
            Payload::ExportSection(section) => {
                for export in section {
                    let export = export.unwrap();
                    module.exports.push(Export {
                        name: export.name.to_string(),
                        kind: match export.kind {
                            wasmparser::ExternalKind::Func => ExportKind::Func,
                            wasmparser::ExternalKind::Table => ExportKind::Table,
                            wasmparser::ExternalKind::Memory => ExportKind::Memory,
                            wasmparser::ExternalKind::Global => ExportKind::Global,
                            wasmparser::ExternalKind::Tag => ExportKind::Tag,
                        },
                        index: export.index,
                    });
                }
            }
            Payload::CodeSectionEntry(body) => {
                let mut locals = Vec::new();
                for entry in body.get_locals_reader().unwrap() {
                    let (count, ty) = entry.unwrap();
                    locals.push((count, val_type(ty)));
                }
                let mut operators = Vec::new();
                for op in body.get_operators_reader().unwrap() {
                    operators.push(instruction(op.unwrap()));
                }
                module.code.push(FunctionBody { locals, operators });
            }
            Payload::CustomSection(section) => {
                if let wasmparser::KnownCustom::Name(reader) = section.as_known() {
                    module.names = Some(reader.into_iter().map(|name| name_of(name.unwrap())).collect());
                }
            }
            _ => {}
        }
    }
    module
}

fn namings(map: wasmparser::NameMap) -> Vec<Naming> {
    map.into_iter()
        .map(|naming| {
            let naming = naming.unwrap();
            Naming {
                index: naming.index,
                name: naming.name.to_string(),
            }
        })
        .collect()
}

fn name_of(name: wasmparser::Name) -> Name {
    match name {
        wasmparser::Name::Module { name, .. } => Name::Module(name.to_string()),
        wasmparser::Name::Function(map) => Name::Function(namings(map)),
        wasmparser::Name::Local(map) => Name::Local(
            map.into_iter()
                .map(|naming| {
                    let naming = naming.unwrap();
                    IndirectNaming {
                        index: naming.index,
                        names: namings(naming.names),
                    }
                })
                .collect(),
        ),
        wasmparser::Name::Type(map) => Name::Type(namings(map)),
        wasmparser::Name::Memory(map) => Name::Memory(namings(map)),
        wasmparser::Name::Global(map) => Name::Global(namings(map)),
        _ => Name::Other,
    }
}

fn reverse(wat: &str, name: &str) -> Vec<u8> {
    let input = wat::parse_str(wat).unwrap();
    let features = WasmFeatures::empty() | WasmFeatures::MULTI_VALUE | WasmFeatures::FLOATS;
    Validator::new_with_features(features)
        .validate_all(&input)
        .unwrap();
    let mut ad = Autodiff::new();
    ad.export(name, "backprop");
    ad.reverse(&parse(&input)).unwrap()
}

/// An engine that reserves no address space beyond what a memory holds: the transformed modules
/// have several memories each.
fn engine() -> Engine {
    let mut config = Config::new();
    config.memory_reservation(0);
    config.memory_guard_size(0);
    config.memory_reservation_for_growth(1 << 20);
    Engine::new(&config).unwrap()
}

fn compile<P: WasmParams, R: WasmResults, DP: WasmResults, DR: WasmParams>(
    wat: &str,
    name: &str,
) -> (Store<()>, TypedFunc<P, R>, TypedFunc<DR, DP>) {
    let output = reverse(wat, name);

    let engine = engine();
    let mut store = Store::new(&engine, ());
    let module = wasmtime::Module::new(&engine, &output).unwrap();
    let instance = Instance::new(&mut store, &module, &[]).unwrap();
    let function = instance.get_typed_func::<P, R>(&mut store, name).unwrap();
    let backprop = instance
        .get_typed_func::<DR, DP>(&mut store, "backprop")
        .unwrap();
    (store, function, backprop)
}

struct Backprop<P, R, DP, DR> {
    wat: &'static str,
    name: &'static str,
    input: P,
    output: R,
    cotangent: DR,
    gradient: DP,
}

impl<
        P: fmt::Debug + PartialEq + WasmParams,
        R: fmt::Debug + PartialEq + WasmResults,
        DP: fmt::Debug + PartialEq + WasmResults,
        DR: fmt::Debug + PartialEq + WasmParams,
    > Backprop<P, R, DP, DR>
{
    fn test(self) {
        let (mut store, function, backprop) = compile::<P, R, DP, DR>(self.wat, self.name);
        let output = function.call(&mut store, self.input).unwrap();
        assert_eq!(output, self.output);
        let gradient = backprop.call(&mut store, self.cotangent).unwrap();
        assert_eq!(gradient, self.gradient);
    }
}

#[test]
fn tests_test_square() {
    Backprop::<f64, f64, f64, f64> {
        wat: "(module (func (export \"square\") (param f64) (result f64) (f64.mul (local.get 0) (local.get 0))))",
        name: "square",
        input: 3.,
        output: 9.,
        cotangent: 1.,
        gradient: 6.,
    }
    .test()
}

#[test]
fn test_call() {
    Backprop::<(f64, i64, f32, i32), (f32, i32, f64, i64), (f64, f32), (f32, f64)> {
        wat: "(module (func $inner (param i32 f64 i64 f32) (result f32 i32 f64 i64) (local.get 3) (local.get 0) (local.get 1) (local.get 2)) (func (export \"tuple\") (param f64 i64 f32 i32) (result f32 i32 f64 i64) (call $inner (local.get 3) (local.get 0) (local.get 1) (local.get 2))))",
        name: "tuple",
        input: (2.0f64, 3i64, 4.0f32, 1i32),
        output: (4.0f32, 1i32, 2.0f64, 3i64),
        cotangent: (5.0f32, 6.0f64),
        gradient: (6.0f64, 5.0f32),
    }
    .test()
}

#[test]
fn test_drop_i32() {
    Backprop::<i32, (), (), ()> {
        wat: "(module (func (export \"drop\") (param i32) (drop (local.get 0))))",
        name: "drop",
        input: 42,
        output: (),
        cotangent: (),
        gradient: (),
    }
    .test()
}

#[test]
fn test_drop_i64() {
    Backprop::<i64, (), (), ()> {
        wat: "(module (func (export \"drop\") (param i64) (drop (local.get 0))))",
        name: "drop",
        input: 42i64,
        output: (),
        cotangent: (),
        gradient: (),
    }
    .test()
}

#[test]
fn test_drop_f32() {
    Backprop::<f32, (), f32, ()> {
        wat: "(module (func (export \"drop\") (param f32) (drop (local.get 0))))",
        name: "drop",
        input: 42.0f32,
        output: (),
        cotangent: (),
        gradient: 0.0f32,
    }
    .test()
}

#[test]
fn test_drop_f64() {
    Backprop::<f64, (), f64, ()> {
        wat: "(module (func (export \"drop\") (param f64) (drop (local.get 0))))",
        name: "drop",
        input: 42.,
        output: (),
        cotangent: (),
        gradient: 0.,
    }
    .test()
}

#[test]
fn test_local_set_f32() {
    Backprop::<(f32, f32), (f32, f32), (f32, f32), (f32, f32)> {
        wat: "(module (func (export \"clobber\") (param f32 f32) (result f32 f32) (local.set 0 (local.get 1)) (local.get 0) (local.get 1)))",
        name: "clobber",
        input: (1.0f32, 2.0f32),
        output: (2.0f32, 2.0f32),
        cotangent: (3.0f32, 4.0f32),
        gradient: (0.0f32, 7.0f32),
    }
    .test()
}

#[test]
fn test_local_set_f64() {
    Backprop::<(f64, f64), (f64, f64), (f64, f64), (f64, f64)> {
        wat: "(module (func (export \"clobber\") (param f64 f64) (result f64 f64) (local.set 0 (local.get 1)) (local.get 0) (local.get 1)))",
        name: "clobber",
        input: (1., 2.),
        output: (2., 2.),
        cotangent: (3., 4.),
        gradient: (0., 7.),
    }
    .test()
}

#[test]
fn test_tuple() {
    Backprop::<(i32, f64, i64, f32), (f32, i32, f64, i64), (f64, f32), (f32, f64)> {
        wat: "(module (func (export \"tuple\") (param i32 f64 i64 f32) (result f32 i32 f64 i64) (local.get 3) (local.get 0) (local.get 1) (local.get 2)))",
        name: "tuple",
        input: (1i32, 2.0f64, 3i64, 4.0f32),
        output: (4.0f32, 1i32, 2.0f64, 3i64),
        cotangent: (5.0f32, 6.0f64),
        gradient: (6.0f64, 5.0f32),
    }
    .test()
}

#[test]
fn test_loop() {
    Backprop::<f64, f64, f64, f64> {
        wat: "(module (func (export \"loop\") (param f64) (result f64) (local.get 0) (loop (br_if 0 (f64.ge (local.tee 0 (f64.sub (local.get 0) (f64.const 1))) (f64.const 0)))) (local.get 0) (f64.mul)))",
        name: "loop",
        input: 1.1,
        output: -0.99,
        cotangent: 1.,
        gradient: 0.20000000000000018,
    }
    .test()
}

#[test]
fn test_f32_store_load() {
    Backprop::<f32, f32, f32, f32> {
        wat: "(module (memory 1) (func (export \"roundtrip\") (param f32) (result f32) (f32.store (i32.const 0) (local.get 0)) (f32.load (i32.const 0))))",
        name: "roundtrip",
        input: 42.0f32,
        output: 42.0f32,
        cotangent: 1.0f32,
        gradient: 1.0f32,
    }
    .test()
}

#[test]
fn test_f64_store_load() {
    Backprop::<f64, f64, f64, f64> {
        wat: "(module (memory 1) (func (export \"roundtrip\") (param f64) (result f64) (f64.store (i32.const 0) (local.get 0)) (f64.load (i32.const 0))))",
        name: "roundtrip",
        input: 42.,
        output: 42.,
        cotangent: 1.,
        gradient: 1.,
    }
    .test()
}

#[test]
fn test_i32_const() {
    Backprop::<(), i32, (), ()> {
        wat: "(module (func (export \"const\") (result i32) (i32.const 42)))",
        name: "const",
        input: (),
        output: 42,
        cotangent: (),
        gradient: (),
    }
    .test()
}

#[test]
fn test_i64_const() {
    Backprop::<(), i64, (), ()> {
        wat: "(module (func (export \"const\") (result i64) (i64.const 42)))",
        name: "const",
        input: (),
        output: 42i64,
        cotangent: (),
        gradient: (),
    }
    .test()
}

#[test]
fn test_f32_const() {
    Backprop::<(), f32, (), f32> {
        wat: "(module (func (export \"const\") (result f32) (f32.const 42)))",
        name: "const",
        input: (),
        output: 42.0f32,
        cotangent: 1.0f32,
        gradient: (),
    }
    .test()
}

#[test]
fn test_f64_const() {
    Backprop::<(), f64, (), f64> {
        wat: "(module (func (export \"const\") (result f64) (f64.const 42)))",
        name: "const",
        input: (),
        output: 42.,
        cotangent: 1.,
        gradient: (),
    }
    .test()
}

#[test]
fn test_i32_eqz() {
    Backprop::<i32, i32, (), ()> {
        wat: "(module (func (export \"eqz\") (param i32) (result i32) (i32.eqz (local.get 0))))",
        name: "eqz",
        input: 0,
        output: 1,
        cotangent: (),
        gradient: (),
    }
    .test()
}

#[test]
fn test_i64_eqz() {
    Backprop::<i64, i32, (), ()> {
        wat: "(module (func (export \"eqz\") (param i64) (result i32) (i64.eqz (local.get 0))))",
        name: "eqz",
        input: 0i64,
        output: 1,
        cotangent: (),
        gradient: (),
    }
    .test()
}

#[test]
fn test_i32_clz() {
    Backprop::<i32, i32, (), ()> {
        wat: "(module (func (export \"clz\") (param i32) (result i32) (i32.clz (local.get 0))))",
        name: "clz",
        input: 42,
        output: 26,
        cotangent: (),
        gradient: (),
    }
    .test()
}

#[test]
fn test_i32_ctz() {
    Backprop::<i32, i32, (), ()> {
        wat: "(module (func (export \"ctz\") (param i32) (result i32) (i32.ctz (local.get 0))))",
        name: "ctz",
        input: 8388608,
        output: 23,
        cotangent: (),
        gradient: (),
    }
    .test()
}

#[test]
fn test_i32_popcnt() {
    Backprop::<i32, i32, (), ()> {
        wat: "(module (func (export \"popcnt\") (param i32) (result i32) (i32.popcnt (local.get 0))))",
        name: "popcnt",
        input: 42,
        output: 3,
        cotangent: (),
        gradient: (),
    }
    .test()
}

#[test]
fn test_i32_add() {
    Backprop::<(i32, i32), i32, (), ()> {
        wat: "(module (func (export \"add\") (param i32 i32) (result i32) (i32.add (local.get 0) (local.get 1))))",
        name: "add",
        input: (2, 3),
        output: 5,
        cotangent: (),
        gradient: (),
    }
    .test()
}

#[test]
fn test_i32_sub() {
    Backprop::<(i32, i32), i32, (), ()> {
        wat: "(module (func (export \"sub\") (param i32 i32) (result i32) (i32.sub (local.get 0) (local.get 1))))",
        name: "sub",
        input: (5, 3),
        output: 2,
        cotangent: (),
        gradient: (),
    }
    .test()
}

#[test]
fn test_i32_mul() {
    Backprop::<(i32, i32), i32, (), ()> {
        wat: "(module (func (export \"mul\") (param i32 i32) (result i32) (i32.mul (local.get 0) (local.get 1))))",
        name: "mul",
        input: (6, 7),
        output: 42,
        cotangent: (),
        gradient: (),
    }
    .test()
}

#[test]
fn test_i32_div_s() {
    Backprop::<(i32, i32), i32, (), ()> {
        wat: "(module (func (export \"div_s\") (param i32 i32) (result i32) (i32.div_s (local.get 0) (local.get 1))))",
        name: "div_s",
        input: (7, 2),
        output: 3,
        cotangent: (),
        gradient: (),
    }
    .test()
}

#[test]
fn test_i32_div_u() {
    Backprop::<(i32, i32), i32, (), ()> {
        wat: "(module (func (export \"div_u\") (param i32 i32) (result i32) (i32.div_u (local.get 0) (local.get 1))))",
        name: "div_u",
        input: (7, 2),
        output: 3,
        cotangent: (),
        gradient: (),
    }
    .test()
}

#[test]
fn test_i32_rem_s() {
    Backprop::<(i32, i32), i32, (), ()> {
        wat: "(module (func (export \"rem_s\") (param i32 i32) (result i32) (i32.rem_s (local.get 0) (local.get 1))))",
        name: "rem_s",
        input: (7, 2),
        output: 1,
        cotangent: (),
        gradient: (),
    }
    .test()
}

#[test]
fn test_i32_rem_u() {
    Backprop::<(i32, i32), i32, (), ()> {
        wat: "(module (func (export \"rem_u\") (param i32 i32) (result i32) (i32.rem_u (local.get 0) (local.get 1))))",
        name: "rem_u",
        input: (7, 2),
        output: 1,
        cotangent: (),
        gradient: (),
    }
    .test()
}

#[test]
fn test_i32_and() {
    Backprop::<(i32, i32), i32, (), ()> {
        wat: "(module (func (export \"and\") (param i32 i32) (result i32) (i32.and (local.get 0) (local.get 1))))",
        name: "and",
        input: (3, 2),
        output: 2,
        cotangent: (),
        gradient: (),
    }
    .test()
}

#[test]
fn test_i32_or() {
    Backprop::<(i32, i32), i32, (), ()> {
        wat: "(module (func (export \"or\") (param i32 i32) (result i32) (i32.or (local.get 0) (local.get 1))))",
        name: "or",
        input: (3, 2),
        output: 3,
        cotangent: (),
        gradient: (),
    }
    .test()
}

#[test]
fn test_i32_xor() {
    Backprop::<(i32, i32), i32, (), ()> {
        wat: "(module (func (export \"xor\") (param i32 i32) (result i32) (i32.xor (local.get 0) (local.get 1))))",
        name: "xor",
        input: (3, 2),
        output: 1,
        cotangent: (),
        gradient: (),
    }
    .test()
}

#[test]
fn test_i32_shl() {
    Backprop::<(i32, i32), i32, (), ()> {
        wat: "(module (func (export \"shl\") (param i32 i32) (result i32) (i32.shl (local.get 0) (local.get 1))))",
        name: "shl",
        input: (1, 2),
        output: 4,
        cotangent: (),
        gradient: (),
    }
    .test()
}

#[test]
fn test_i32_shr_s() {
    Backprop::<(i32, i32), i32, (), ()> {
        wat: "(module (func (export \"shr_s\") (param i32 i32) (result i32) (i32.shr_s (local.get 0) (local.get 1))))",
        name: "shr_s",
        input: (-4, 1),
        output: -2,
        cotangent: (),
        gradient: (),
    }
    .test()
}

#[test]
fn test_i32_shr_u() {
    Backprop::<(i32, i32), i32, (), ()> {
        wat: "(module (func (export \"shr_u\") (param i32 i32) (result i32) (i32.shr_u (local.get 0) (local.get 1))))",
        name: "shr_u",
        input: (4, 1),
        output: 2,
        cotangent: (),
        gradient: (),
    }
    .test()
}

#[test]
fn test_i32_rotl() {
    Backprop::<(i32, i32), i32, (), ()> {
        wat: "(module (func (export \"rotl\") (param i32 i32) (result i32) (i32.rotl (local.get 0) (local.get 1))))",
        name: "rotl",
        input: (0x12345678, 4),
        output: 0x23456781,
        cotangent: (),
        gradient: (),
    }
    .test()
}

#[test]
fn test_i32_rotr() {
    Backprop::<(i32, i32), i32, (), ()> {
        wat: "(module (func (export \"rotr\") (param i32 i32) (result i32) (i32.rotr (local.get 0) (local.get 1))))",
        name: "rotr",
        input: (0x12345678, 4),
        output: 0x81234567u32 as i32,
        cotangent: (),
        gradient: (),
    }
    .test()
}

#[test]
fn test_i64_clz() {
    Backprop::<i64, i64, (), ()> {
        wat: "(module (func (export \"clz\") (param i64) (result i64) (i64.clz (local.get 0))))",
        name: "clz",
        input: 42i64,
        output: 58i64,
        cotangent: (),
        gradient: (),
    }
    .test()
}

#[test]
fn test_i64_ctz() {
    Backprop::<i64, i64, (), ()> {
        wat: "(module (func (export \"ctz\") (param i64) (result i64) (i64.ctz (local.get 0))))",
        name: "ctz",
        input: 8388608i64,
        output: 23i64,
        cotangent: (),
        gradient: (),
    }
    .test()
}

#[test]
fn test_i64_popcnt() {
    Backprop::<i64, i64, (), ()> {
        wat: "(module (func (export \"popcnt\") (param i64) (result i64) (i64.popcnt (local.get 0))))",
        name: "popcnt",
        input: 42i64,
        output: 3i64,
        cotangent: (),
        gradient: (),
    }
    .test()
}

#[test]
fn test_i64_add() {
    Backprop::<(i64, i64), i64, (), ()> {
        wat: "(module (func (export \"add\") (param i64 i64) (result i64) (i64.add (local.get 0) (local.get 1))))",
        name: "add",
        input: (2i64, 3i64),
        output: 5i64,
        cotangent: (),
        gradient: (),
    }
    .test()
}

#[test]
fn test_i64_sub() {
    Backprop::<(i64, i64), i64, (), ()> {
        wat: "(module (func (export \"sub\") (param i64 i64) (result i64) (i64.sub (local.get 0) (local.get 1))))",
        name: "sub",
        input: (5i64, 3i64),
        output: 2i64,
        cotangent: (),
        gradient: (),
    }
    .test()
}

#[test]
fn test_i64_mul() {
    Backprop::<(i64, i64), i64, (), ()> {
        wat: "(module (func (export \"mul\") (param i64 i64) (result i64) (i64.mul (local.get 0) (local.get 1))))",
        name: "mul",
        input: (6i64, 7i64),
        output: 42i64,
        cotangent: (),
        gradient: (),
    }
    .test()
}

#[test]
fn test_i64_div_s() {
    Backprop::<(i64, i64), i64, (), ()> {
        wat: "(module (func (export \"div_s\") (param i64 i64) (result i64) (i64.div_s (local.get 0) (local.get 1))))",
        name: "div_s",
        input: (7i64, 2i64),
        output: 3i64,
        cotangent: (),
        gradient: (),
    }
    .test()
}

#[test]
fn test_i64_div_u() {
    Backprop::<(i64, i64), i64, (), ()> {
        wat: "(module (func (export \"div_u\") (param i64 i64) (result i64) (i64.div_u (local.get 0) (local.get 1))))",
        name: "div_u",
        input: (7i64, 2i64),
        output: 3i64,
        cotangent: (),
        gradient: (),
    }
    .test()
}

#[test]
fn test_i64_rem_s() {
    Backprop::<(i64, i64), i64, (), ()> {
        wat: "(module (func (export \"rem_s\") (param i64 i64) (result i64) (i64.rem_s (local.get 0) (local.get 1))))",
        name: "rem_s",
        input: (7i64, 2i64),
        output: 1i64,
        cotangent: (),
        gradient: (),
    }
    .test()
}

#[test]
fn test_i64_rem_u() {
    Backprop::<(i64, i64), i64, (), ()> {
        wat: "(module (func (export \"rem_u\") (param i64 i64) (result i64) (i64.rem_u (local.get 0) (local.get 1))))",
        name: "rem_u",
        input: (7i64, 2i64),
        output: 1i64,
        cotangent: (),
        gradient: (),
    }
    .test()
}

#[test]
fn test_i64_and() {
    Backprop::<(i64, i64), i64, (), ()> {
        wat: "(module (func (export \"and\") (param i64 i64) (result i64) (i64.and (local.get 0) (local.get 1))))",
        name: "and",
        input: (3i64, 2i64),
        output: 2i64,
        cotangent: (),
        gradient: (),
    }
    .test()
}

#[test]
fn test_i64_or() {
    Backprop::<(i64, i64), i64, (), ()> {
        wat: "(module (func (export \"or\") (param i64 i64) (result i64) (i64.or (local.get 0) (local.get 1))))",
        name: "or",
        input: (3i64, 2i64),
        output: 3i64,
        cotangent: (),
        gradient: (),
    }
    .test()
}

#[test]
fn test_i64_xor() {
    Backprop::<(i64, i64), i64, (), ()> {
        wat: "(module (func (export \"xor\") (param i64 i64) (result i64) (i64.xor (local.get 0) (local.get 1))))",
        name: "xor",
        input: (3i64, 2i64),
        output: 1i64,
        cotangent: (),
        gradient: (),
    }
    .test()
}

#[test]
fn test_i64_shl() {
    Backprop::<(i64, i64), i64, (), ()> {
        wat: "(module (func (export \"shl\") (param i64 i64) (result i64) (i64.shl (local.get 0) (local.get 1))))",
        name: "shl",
        input: (1i64, 2i64),
        output: 4i64,
        cotangent: (),
        gradient: (),
    }
    .test()
}

#[test]
fn test_i64_shr_s() {
    Backprop::<(i64, i64), i64, (), ()> {
        wat: "(module (func (export \"shr_s\") (param i64 i64) (result i64) (i64.shr_s (local.get 0) (local.get 1))))",
        name: "shr_s",
        input: (-4i64, 1i64),
        output: -2i64,
        cotangent: (),
        gradient: (),
    }
    .test()
}

#[test]
fn test_i64_shr_u() {
    Backprop::<(i64, i64), i64, (), ()> {
        wat: "(module (func (export \"shr_u\") (param i64 i64) (result i64) (i64.shr_u (local.get 0) (local.get 1))))",
        name: "shr_u",
        input: (4i64, 1i64),
        output: 2i64,
        cotangent: (),
        gradient: (),
    }
    .test()
}

#[test]
fn test_i64_rotl() {
    Backprop::<(i64, i64), i64, (), ()> {
        wat: "(module (func (export \"rotl\") (param i64 i64) (result i64) (i64.rotl (local.get 0) (local.get 1))))",
        name: "rotl",
        input: (0x1234567812345678i64, 4i64),
        output: 0x2345678123456781i64,
        cotangent: (),
        gradient: (),
    }
    .test()
}

#[test]
fn test_i64_rotr() {
    Backprop::<(i64, i64), i64, (), ()> {
        wat: "(module (func (export \"rotr\") (param i64 i64) (result i64) (i64.rotr (local.get 0) (local.get 1))))",
        name: "rotr",
        input: (0x1234567812345678i64, 4i64),
        output: 0x8123456781234567u64 as i64,
        cotangent: (),
        gradient: (),
    }
    .test()
}

#[test]
fn test_f32_neg() {
    Backprop::<f32, f32, f32, f32> {
        wat: "(module (func (export \"neg\") (param f32) (result f32) (f32.neg (local.get 0))))",
        name: "neg",
        input: 3.0f32,
        output: -3.0f32,
        cotangent: 1.0f32,
        gradient: -1.0f32,
    }
    .test()
}

#[test]
fn test_f32_sqrt() {
    Backprop::<f32, f32, f32, f32> {
        wat: "(module (func (export \"sqrt\") (param f32) (result f32) (f32.sqrt (local.get 0))))",
        name: "sqrt",
        input: 16.0f32,
        output: 4.0f32,
        cotangent: 1.0f32,
        gradient: 0.125f32,
    }
    .test()
}

#[test]
fn test_f32_add() {
    Backprop::<(f32, f32), f32, (f32, f32), f32> {
        wat: "(module (func (export \"add\") (param f32 f32) (result f32) (f32.add (local.get 0) (local.get 1))))",
        name: "add",
        input: (3.0f32, 2.0f32),
        output: 5.0f32,
        cotangent: 1.0f32,
        gradient: (1.0f32, 1.0f32),
    }
    .test()
}

#[test]
fn test_f32_sub() {
    Backprop::<(f32, f32), f32, (f32, f32), f32> {
        wat: "(module (func (export \"sub\") (param f32 f32) (result f32) (f32.sub (local.get 0) (local.get 1))))",
        name: "sub",
        input: (3.0f32, 2.0f32),
        output: 1.0f32,
        cotangent: 1.0f32,
        gradient: (1.0f32, -1.0f32),
    }
    .test()
}

#[test]
fn test_f32_mul() {
    Backprop::<(f32, f32), f32, (f32, f32), f32> {
        wat: "(module (func (export \"mul\") (param f32 f32) (result f32) (f32.mul (local.get 0) (local.get 1))))",
        name: "mul",
        input: (3.0f32, 2.0f32),
        output: 6.0f32,
        cotangent: 1.0f32,
        gradient: (2.0f32, 3.0f32),
    }
    .test()
}

#[test]
fn test_f32_div() {
    Backprop::<(f32, f32), f32, (f32, f32), f32> {
        wat: "(module (func (export \"div\") (param f32 f32) (result f32) (f32.div (local.get 0) (local.get 1))))",
        name: "div",
        input: (3.0f32, 2.0f32),
        output: 1.5f32,
        cotangent: 1.0f32,
        gradient: (0.5f32, -0.75f32),
    }
    .test()
}

#[test]
fn test_f32_min() {
    Backprop::<(f32, f32), f32, (f32, f32), f32> {
        wat: "(module (func (export \"min\") (param f32 f32) (result f32) (f32.min (local.get 0) (local.get 1))))",
        name: "min",
        input: (2.0f32, 3.0f32),
        output: 2.0f32,
        cotangent: 1.0f32,
        gradient: (1.0f32, 0.0f32),
    }
    .test()
}

#[test]
fn test_f32_max() {
    Backprop::<(f32, f32), f32, (f32, f32), f32> {
        wat: "(module (func (export \"max\") (param f32 f32) (result f32) (f32.max (local.get 0) (local.get 1))))",
        name: "max",
        input: (2.0f32, 3.0f32),
        output: 3.0f32,
        cotangent: 1.0f32,
        gradient: (0.0f32, 1.0f32),
    }
    .test()
}

#[test]
fn test_f64_neg() {
    Backprop::<f64, f64, f64, f64> {
        wat: "(module (func (export \"neg\") (param f64) (result f64) (f64.neg (local.get 0))))",
        name: "neg",
        input: 3.,
        output: -3.,
        cotangent: 1.,
        gradient: -1.,
    }
    .test()
}

#[test]
fn test_f64_sqrt() {
    Backprop::<f64, f64, f64, f64> {
        wat: "(module (func (export \"sqrt\") (param f64) (result f64) (f64.sqrt (local.get 0))))",
        name: "sqrt",
        input: 16.,
        output: 4.,
        cotangent: 1.,
        gradient: 0.125,
    }
    .test()
}

#[test]
fn test_f64_add() {
    Backprop::<(f64, f64), f64, (f64, f64), f64> {
        wat: "(module (func (export \"add\") (param f64 f64) (result f64) (f64.add (local.get 0) (local.get 1))))",
        name: "add",
        input: (3., 2.),
        output: 5.,
        cotangent: 1.,
        gradient: (1., 1.),
    }
    .test()
}

#[test]
fn test_f64_sub() {
    Backprop::<(f64, f64), f64, (f64, f64), f64> {
        wat: "(module (func (export \"sub\") (param f64 f64) (result f64) (f64.sub (local.get 0) (local.get 1))))",
        name: "sub",
        input: (3., 2.),
        output: 1.,
        cotangent: 1.,
        gradient: (1., -1.),
    }
    .test()
}

#[test]
fn test_f64_mul() {
    Backprop::<(f64, f64), f64, (f64, f64), f64> {
        wat: "(module (func (export \"mul\") (param f64 f64) (result f64) (f64.mul (local.get 0) (local.get 1))))",
        name: "mul",
        input: (3., 2.),
        output: 6.,
        cotangent: 1.,
        gradient: (2., 3.),
    }
    .test()
}

#[test]
fn test_f64_div() {
    Backprop::<(f64, f64), f64, (f64, f64), f64> {
        wat: "(module (func (export \"div\") (param f64 f64) (result f64) (f64.div (local.get 0) (local.get 1))))",
        name: "div",
        input: (3., 2.),
        output: 1.5,
        cotangent: 1.,
        gradient: (0.5, -0.75),
    }
    .test()
}

#[test]
fn test_f64_min() {
    Backprop::<(f64, f64), f64, (f64, f64), f64> {
        wat: "(module (func (export \"min\") (param f64 f64) (result f64) (f64.min (local.get 0) (local.get 1))))",
        name: "min",
        input: (2., 3.),
        output: 2.,
        cotangent: 1.,
        gradient: (1., 0.),
    }
    .test()
}

#[test]
fn test_f64_max() {
    Backprop::<(f64, f64), f64, (f64, f64), f64> {
        wat: "(module (func (export \"max\") (param f64 f64) (result f64) (f64.max (local.get 0) (local.get 1))))",
        name: "max",
        input: (2., 3.),
        output: 3.,
        cotangent: 1.,
        gradient: (0., 1.),
    }
    .test()
}

#[test]
fn test_if() {
    let wat = "(module (func (export \"select\") (param i32 f64 f64) (result f64) (if (result f64) (local.get 0) (then (local.get 1)) (else (local.get 2)))))";
    let (mut store, function, backprop) =
        compile::<(i32, f64, f64), f64, (f64, f64), f64>(wat, "select");
    {
        let output = function.call(&mut store, (1, 2., 3.)).unwrap();
        assert_eq!(output, 2.);
        let gradient = backprop.call(&mut store, 1.).unwrap();
        assert_eq!(gradient, (1., 0.));
    }
    {
        let output = function.call(&mut store, (0, 2., 3.)).unwrap();
        assert_eq!(output, 3.);
        let gradient = backprop.call(&mut store, 1.).unwrap();
        assert_eq!(gradient, (0., 1.));
    }
}

#[test]
fn test_else() {
    let wat = "(module (func (export \"select\") (param i32 f64 f64) (result f64) (local f64) (if (local.get 0) (then (local.set 3 (local.get 1))) (else (local.set 3 (local.get 2)))) (local.get 3)))";
    let (mut store, function, backprop) =
        compile::<(i32, f64, f64), f64, (f64, f64), f64>(wat, "select");
    {
        let output = function.call(&mut store, (1, 2., 3.)).unwrap();
        assert_eq!(output, 2.);
        let gradient = backprop.call(&mut store, 1.).unwrap();
        assert_eq!(gradient, (1., 0.));
    }
    {
        let output = function.call(&mut store, (0, 2., 3.)).unwrap();
        assert_eq!(output, 3.);
        let gradient = backprop.call(&mut store, 1.).unwrap();
        assert_eq!(gradient, (0., 1.));
    }
}

#[test]
fn test_br() {
    let wat = "(module (func (export \"select\") (param i32 f64 f64) (result f64) (if (local.get 0) (then (br 1 (local.get 1)))) (local.get 2)))";
    let (mut store, function, backprop) =
        compile::<(i32, f64, f64), f64, (f64, f64), f64>(wat, "select");
    {
        let output = function.call(&mut store, (1, 2., 3.)).unwrap();
        assert_eq!(output, 2.);
        let gradient = backprop.call(&mut store, 1.).unwrap();
        assert_eq!(gradient, (1., 0.));
    }
    {
        let output = function.call(&mut store, (0, 2., 3.)).unwrap();
        assert_eq!(output, 3.);
        let gradient = backprop.call(&mut store, 1.).unwrap();
        assert_eq!(gradient, (0., 1.));
    }
}

#[test]
fn test_br_if_return() {
    let wat = "(module (func (export \"select\") (param i32 f64 f64) (result f64) (local.get 1) (br_if 0 (local.get 0)) (drop) (local.get 2)))";
    let (mut store, function, backprop) =
        compile::<(i32, f64, f64), f64, (f64, f64), f64>(wat, "select");
    {
        let output = function.call(&mut store, (1, 2., 3.)).unwrap();
        assert_eq!(output, 2.);
        let gradient = backprop.call(&mut store, 1.).unwrap();
        assert_eq!(gradient, (1., 0.));
    }
    {
        let output = function.call(&mut store, (0, 2., 3.)).unwrap();
        assert_eq!(output, 3.);
        let gradient = backprop.call(&mut store, 1.).unwrap();
        assert_eq!(gradient, (0., 1.));
    }
}

fn i32_logic(name: &str) {
    compile::<(i32, i32), i32, (), ()>(
        &format!(
            "(module (func (export {name:?}) (param i32 i32) (result i32) ({name} (local.get 0) (local.get 1))))"
        ),
        name,
    );
}

#[test]
fn test_i32_logic() {
    i32_logic("i32.eq");
    i32_logic("i32.ne");
    i32_logic("i32.lt_s");
    i32_logic("i32.lt_u");
    i32_logic("i32.gt_s");
    i32_logic("i32.gt_u");
    i32_logic("i32.le_s");
    i32_logic("i32.le_u");
    i32_logic("i32.ge_s");
    i32_logic("i32.ge_u");
}

fn i64_logic(name: &str) {
    compile::<(i64, i64), i32, (), ()>(
        &format!(
            "(module (func (export {name:?}) (param i64 i64) (result i32) ({name} (local.get 0) (local.get 1))))"
        ),
        name,
    );
}

#[test]
fn test_i64_logic() {
    i64_logic("i64.eq");
    i64_logic("i64.ne");
    i64_logic("i64.lt_s");
    i64_logic("i64.lt_u");
    i64_logic("i64.gt_s");
    i64_logic("i64.gt_u");
    i64_logic("i64.le_s");
    i64_logic("i64.le_u");
    i64_logic("i64.ge_s");
    i64_logic("i64.ge_u");
}

fn f32_logic(name: &str) {
    compile::<(f32, f32), i32, (f32, f32), ()>(
        &format!(
            "(module (func (export {name:?}) (param f32 f32) (result i32) ({name} (local.get 0) (local.get 1))))"
        ),
        name,
    );
}

#[test]
fn test_f32_logic() {
    f32_logic("f32.eq");
    f32_logic("f32.ne");
    f32_logic("f32.lt");
    f32_logic("f32.gt");
    f32_logic("f32.le");
    f32_logic("f32.ge");
}

fn f64_logic(name: &str) {
    compile::<(f64, f64), i32, (f64, f64), ()>(
        &format!(
            "(module (func (export {name:?}) (param f64 f64) (result i32) ({name} (local.get 0) (local.get 1))))"
        ),
        name,
    );
}

#[test]
fn test_f64_logic() {
    f64_logic("f64.eq");
    f64_logic("f64.ne");
    f64_logic("f64.lt");
    f64_logic("f64.gt");
    f64_logic("f64.le");
    f64_logic("f64.ge");
}

/// The names that a name section gives to functions or to the locals of a function.
fn names_of(wasm: &[u8], function: Option<u32>) -> Vec<(u32, String)> {
    let mut found = Vec::new();
    for payload in Parser::new(0).parse_all(wasm) {
        if let Payload::CustomSection(section) = payload.unwrap() {
            if let wasmparser::KnownCustom::Name(reader) = section.as_known() {
                for name in reader {
                    match (name.unwrap(), function) {
                        (wasmparser::Name::Function(map), None) => {
                            for naming in map {
                                let naming = naming.unwrap();
                                found.push((naming.index, naming.name.to_string()));
                            }
                        }
                        (wasmparser::Name::Local(map), Some(function)) => {
                            for indirect in map {
                                let indirect = indirect.unwrap();
                                if indirect.index == function {
                                    for naming in indirect.names {
                                        let naming = naming.unwrap();
                                        found.push((naming.index, naming.name.to_string()));
                                    }
                                }
                            }
                        }
                        _ => {}
                    }
                }
            }
        }
    }
    found
}

#[test]
fn test_names() {
    let input = wat::parse_str(
        "(module
           (func $square (export \"square\") (param $x f64) (result f64)
             (f64.mul (local.get $x) (local.get $x)))
           (func $square_bwd (param $n i32) (param $tmp_f64 f64) (result f64)
             (local.get $tmp_f64))
           (func $f64_mul (param f64) (result f64) (local.get 0)))",
    )
    .unwrap();
    let mut ad = Autodiff::new();
    ad.names();
    let output = ad.reverse(&parse(&input)).unwrap();
    wasmtime::Module::new(&engine(), &output).unwrap();

    let functions = names_of(&output, None);
    let named = |index: u32| {
        let names: Vec<&str> = functions
            .iter()
            .filter(|(i, _)| *i == index)
            .map(|(_, name)| name.as_str())
            .collect();
        assert_eq!(names.len(), 1, "function {index}");
        names[0].to_string()
    };
    assert_eq!(named(22), "square");
    assert_eq!(named(23), "square_bwd_0");
    assert_eq!(named(24), "square_bwd");
    assert_eq!(named(25), "square_bwd_bwd");
    assert_eq!(named(26), "f64_mul");
    assert_eq!(named(27), "f64_mul_bwd");
    assert_eq!(named(0), "tape_i32");
    assert_eq!(named(1), "tape_i32_bwd");
    assert_eq!(named(14), "f64_mul_0");
    assert_eq!(named(15), "f64_mul_bwd_0");
    let mut all: Vec<&String> = functions.iter().map(|(_, name)| name).collect();
    all.sort();
    all.dedup();
    assert_eq!(all.len(), functions.len());
    assert_eq!(functions.len(), 28);

    assert_eq!(names_of(&output, Some(22)), [(0, "x".to_string())]);
    assert_eq!(
        names_of(&output, Some(23)),
        [
            (1, "x".to_string()),
            (0, "result_0".to_string()),
            (2, "tmp_f32".to_string()),
            (3, "tmp_f64".to_string()),
            (4, "tmp_i32".to_string()),
            (5, "branch_f64_0".to_string()),
        ]
    );
    assert_eq!(
        names_of(&output, Some(25)),
        [
            (1, "tmp_f64".to_string()),
            (0, "result_0".to_string()),
            (2, "tmp_f32".to_string()),
            (3, "tmp_f64_0".to_string()),
            (4, "tmp_i32".to_string()),
            (5, "branch_f64_0".to_string()),
        ]
    );
}

#[test]
fn names_without_a_name_section_in_the_source() {
    let input = wat::parse_bytes(&wat::parse_str("(module (func (export \"id\") (param f32) (result f32) (local.get 0)))").unwrap())
        .unwrap()
        .into_owned();
    let mut module = parse(&input);
    module.names = None;
    let mut ad = Autodiff::new();
    ad.names();
    let output = ad.reverse(&module).unwrap();
    wasmtime::Module::new(&engine(), &output).unwrap();
    let functions = names_of(&output, None);
    assert_eq!(functions.len(), 22);
    assert_eq!(functions[2], (2, "f32_sqrt".to_string()));
}

#[test]
fn forward_test_square() {
    let input = wat::parse_str(
        "(module (func (export \"square\") (param f64) (result f64) (f64.mul (local.get 0) (local.get 0))))",
    )
    .unwrap();
    Validator::new_with_features(WasmFeatures::empty() | WasmFeatures::FLOATS)
        .validate_all(&input)
        .unwrap();

    let output = Autodiff::new().forward(&parse(&input)).unwrap();

    let engine = engine();
    let mut store = Store::new(&engine, ());
    let module = wasmtime::Module::new(&engine, &output).unwrap();
    let instance = Instance::new(&mut store, &module, &[]).unwrap();
    let square = instance
        .get_typed_func::<(f64, f64), (f64, f64)>(&mut store, "square")
        .unwrap();

    assert_eq!(square.call(&mut store, (3., 1.)).unwrap(), (9., 6.));
}

/// The transformed module of the text, with the pointers of the tapes exported as well.
fn with_tapes(wat: &str, name: &str) -> Vec<u8> {
    let mut ad = Autodiff::new();
    ad.export(name, "backprop");
    let output = ad.reverse(&parse(&wat::parse_str(wat).unwrap())).unwrap();
    let mut module = wasm_encoder::Module::new();
    for payload in Parser::new(0).parse_all(&output) {
        let payload = payload.unwrap();
        if let Payload::ExportSection(reader) = &payload {
            let mut exports = wasm_encoder::ExportSection::new();
            for export in reader.clone() {
                let export = export.unwrap();
                assert_eq!(export.kind, wasmparser::ExternalKind::Func);
                exports.export(export.name, wasm_encoder::ExportKind::Func, export.index);
            }
            for (name, index) in [("tape_1", 0), ("tape_4", 1), ("tape_8", 2)] {
                exports.export(name, wasm_encoder::ExportKind::Global, index);
            }
            module.section(&exports);
        } else if let Some((id, range)) = payload.as_section() {
            module.section(&wasm_encoder::RawSection {
                id,
                data: &output[range],
            });
        }
    }
    module.finish()
}

fn tapes(store: &mut Store<()>, instance: &Instance) -> [i32; 3] {
    ["tape_1", "tape_4", "tape_8"].map(|name| {
        instance
            .get_global(&mut *store, name)
            .unwrap()
            .get(&mut *store)
            .unwrap_i32()
    })
}

#[test]
fn tapes_are_empty_after_both_passes() {
    let wat = "(module
        (memory 1)
        (func (export \"f\") (param f64 f64) (result f64)
          (f64.store (i32.const 8) (f64.div (local.get 0) (local.get 1)))
          (local.get 0)
          (loop (br_if 0 (f64.ge (local.tee 0 (f64.sub (local.get 0) (f64.const 1))) (f64.const 0))))
          (f64.max (f64.sqrt (f64.load (i32.const 8))) (f64.mul (local.get 0) (local.get 1)))
          (f64.min)))";
    let output = with_tapes(wat, "f");
    let engine = engine();
    let mut store = Store::new(&engine, ());
    let module = wasmtime::Module::new(&engine, &output).unwrap();
    let instance = Instance::new(&mut store, &module, &[]).unwrap();
    let f = instance.get_typed_func::<(f64, f64), f64>(&mut store, "f").unwrap();
    let backprop = instance
        .get_typed_func::<f64, (f64, f64)>(&mut store, "backprop")
        .unwrap();
    assert_eq!(tapes(&mut store, &instance), [0, 0, 0]);
    for x in [3.5, 0.25, 10.] {
        f.call(&mut store, (x, 2.)).unwrap();
        let recorded = tapes(&mut store, &instance);
        assert!(recorded[0] > 0 && recorded[1] > 0 && recorded[2] > 0, "{recorded:?}");
        backprop.call(&mut store, 1.).unwrap();
        assert_eq!(tapes(&mut store, &instance), [0, 0, 0]);
    }
}

#[test]
fn forward_pass_computes_what_the_function_computes() {
    let wat = "(module
        (func (export \"f\") (param f64 i32 f64) (result f64 i32)
          (if (result f64) (i32.and (local.get 1) (i32.const 1))
            (then (f64.div (local.get 0) (local.get 2)))
            (else (f64.sqrt (f64.mul (local.get 0) (local.get 2)))))
          (i32.add (local.get 1) (i32.const 7))))";
    let input = wat::parse_str(wat).unwrap();
    let engine = engine();
    let mut plain = Store::new(&engine, ());
    let module = wasmtime::Module::new(&engine, &input).unwrap();
    let instance = Instance::new(&mut plain, &module, &[]).unwrap();
    let source = instance
        .get_typed_func::<(f64, i32, f64), (f64, i32)>(&mut plain, "f")
        .unwrap();
    let (mut store, forward, _) =
        compile::<(f64, i32, f64), (f64, i32), (f64, f64), f64>(wat, "f");
    for args in [(2., 0, 8.), (2., 1, 8.), (-3.5, 4, -0.5), (0., 3, 1.)] {
        assert_eq!(
            forward.call(&mut store, args).unwrap(),
            source.call(&mut plain, args).unwrap()
        );
    }
}

#[test]
fn output_is_valid() {
    let features = WasmFeatures::empty()
        | WasmFeatures::FLOATS
        | WasmFeatures::MUTABLE_GLOBAL
        | WasmFeatures::MULTI_VALUE
        | WasmFeatures::MULTI_MEMORY;
    for wat in [
        "(module)",
        "(module (memory 2 5) (global i32 (i32.const 3)) (global f64 (f64.const 1.5)) (export \"m\" (memory 0)))",
        "(module (func (param f32 i64) (result f32 f32) (local i32 f64) (local.get 0) (f32.neg (local.get 0)) (drop (f64.convert_i64_u (local.get 1)))))",
        "(module (type (func)) (type (func (param f64) (result f64))) (global (export \"g\") f32 (f32.const 1)) (func (type 0) (loop (type 0))) (func (type 1) (local.get 0) (loop (type 1) (f64.sqrt)) (i32.const 1) (if (type 1) (then (f64.sqrt)) (else))))",
    ] {
        let mut ad = Autodiff::new();
        ad.export("m", "m_bwd");
        ad.names();
        let output = ad.reverse(&parse(&wat::parse_str(wat).unwrap())).unwrap();
        Validator::new_with_features(features).validate_all(&output).unwrap();
    }
}

#[test]
fn adjoints_have_a_memory_of_their_own() {
    let wat = "(module
        (memory (export \"values\") 1)
        (func (export \"scale\") (param f64) (result f64)
          (f64.mul (f64.load (i32.const 16)) (local.get 0))))";
    let mut ad = Autodiff::new();
    ad.export("scale", "backprop");
    ad.export("values", "adjoints");
    let output = ad.reverse(&parse(&wat::parse_str(wat).unwrap())).unwrap();
    let engine = engine();
    let mut store = Store::new(&engine, ());
    let module = wasmtime::Module::new(&engine, &output).unwrap();
    let instance = Instance::new(&mut store, &module, &[]).unwrap();
    let values = instance.get_memory(&mut store, "values").unwrap();
    let adjoints = instance.get_memory(&mut store, "adjoints").unwrap();
    assert_eq!(values.size(&store), adjoints.size(&store));
    values.write(&mut store, 16, &5f64.to_le_bytes()).unwrap();
    let scale = instance.get_typed_func::<f64, f64>(&mut store, "scale").unwrap();
    let backprop = instance.get_typed_func::<f64, f64>(&mut store, "backprop").unwrap();
    assert_eq!(scale.call(&mut store, 3.).unwrap(), 15.);
    assert_eq!(backprop.call(&mut store, 1.).unwrap(), 5.);
    let mut read = [0; 8];
    values.read(&store, 16, &mut read).unwrap();
    assert_eq!(f64::from_le_bytes(read), 5.);
    adjoints.read(&store, 16, &mut read).unwrap();
    assert_eq!(f64::from_le_bytes(read), 3.);
    let zeros = adjoints.data(&store).iter().filter(|&&byte| byte == 0).count();
    assert_eq!(zeros, adjoints.data_size(&store) - 2);
}

#[test]
fn imported_functions_need_a_backward_pass() {
    let wat = "(module
        (import \"math\" \"cube\" (func $cube (param f64) (result f64)))
        (func (export \"twice\") (param f64) (result f64)
          (f64.add (call $cube (local.get 0)) (call $cube (local.get 0)))))";
    let module = parse(&wat::parse_str(wat).unwrap());
    let mut ad = Autodiff::new();
    ad.export("twice", "backprop");
    assert_eq!(
        ad.reverse(&module),
        Err(Error::MissingImport("math".to_string(), "cube".to_string()))
    );
    ad.import(("math", "cube"), ("math", "cube_bwd"));
    let output = ad.reverse(&module).unwrap();

    let engine = engine();
    let mut store = Store::new(&engine, Vec::<f64>::new());
    let module = wasmtime::Module::new(&engine, &output).unwrap();
    let mut linker = wasmtime::Linker::new(&engine);
    linker
        .func_wrap("math", "cube", |mut caller: wasmtime::Caller<'_, Vec<f64>>, x: f64| {
            caller.data_mut().push(x);
            x * x * x
        })
        .unwrap();
    linker
        .func_wrap("math", "cube_bwd", |mut caller: wasmtime::Caller<'_, Vec<f64>>, dy: f64| {
            let x = caller.data_mut().pop().unwrap();
            3. * x * x * dy
        })
        .unwrap();
    let instance = linker.instantiate(&mut store, &module).unwrap();
    let twice = instance.get_typed_func::<f64, f64>(&mut store, "twice").unwrap();
    let backprop = instance.get_typed_func::<f64, f64>(&mut store, "backprop").unwrap();
    assert_eq!(twice.call(&mut store, 2.).unwrap(), 16.);
    assert_eq!(backprop.call(&mut store, 1.).unwrap(), 24.);
}

fn body(params: Vec<ValType>, results: Vec<ValType>, operators: Vec<Instruction>) -> Module {
    Module {
        types: vec![FuncType { params, results }],
        imports: Vec::new(),
        functions: vec![0],
        memories: Vec::new(),
        globals: Vec::new(),
        exports: Vec::new(),
        code: vec![FunctionBody {
            locals: Vec::new(),
            operators,
        }],
        names: None,
    }
}

fn reverse_error(module: &Module) -> Error {
    Autodiff::no_validate().reverse(module).unwrap_err()
}

#[test]
fn what_is_not_handled_is_an_error() {
    assert_eq!(ValType::from_wasm(WasmType::V128), Err(Error::Unsupported(Feature::Simd)));
    assert_eq!(
        ValType::from_wasm(WasmType::Ref),
        Err(Error::Unsupported(Feature::ReferenceTypes))
    );
    for (ty, feature) in [
        (TypeRef::Table, Feature::TableImport),
        (TypeRef::Memory, Feature::MemoryImport),
        (TypeRef::Global, Feature::GlobalImport),
        (TypeRef::Tag, Feature::TagImport),
    ] {
        let mut module = body(vec![], vec![], vec![I::End]);
        module.imports.push(Import {
            module: "a".to_string(),
            name: "b".to_string(),
            ty,
        });
        // Only an imported function needs a counterpart for its backward pass.
        assert_eq!(
            Autodiff::no_validate().reverse(&module),
            Err(Error::Unsupported(feature))
        );
        let mut ad = Autodiff::no_validate();
        ad.import(("a", "b"), ("a", "c"));
        assert_eq!(ad.reverse(&module), Err(Error::Unsupported(feature)));
    }
    for (kind, feature) in [
        (ExportKind::Table, Feature::TableExport),
        (ExportKind::Tag, Feature::TagExport),
    ] {
        let mut module = body(vec![], vec![], vec![I::End]);
        module.exports.push(Export {
            name: "e".to_string(),
            kind,
            index: 0,
        });
        assert_eq!(reverse_error(&module), Error::Unsupported(feature));
    }
    let global = |mutable, shared, init| {
        let mut module = body(vec![], vec![], vec![I::End]);
        module.globals.push(Global {
            val_type: ValType::I32,
            mutable,
            shared,
            init,
        });
        reverse_error(&module)
    };
    assert_eq!(
        global(true, false, vec![I::I32Const(0)]),
        Error::Unsupported(Feature::MutableGlobal)
    );
    assert_eq!(
        global(false, true, vec![I::I32Const(0)]),
        Error::Unsupported(Feature::SharedGlobal)
    );
    assert_eq!(
        global(false, false, vec![I::GlobalGet(0)]),
        Error::Unsupported(Feature::InitExpr)
    );
    assert_eq!(
        reverse_error(&body(vec![], vec![], vec![I::Block(BlockType::Empty), I::End, I::End])),
        Error::Unsupported(Feature::Instruction)
    );
    let mut module = body(vec![ValType::F64], vec![ValType::F64], vec![I::LocalGet(0), I::End]);
    module.code[0].locals.push((1, ValType::I32));
    assert_eq!(
        Autodiff::no_validate().forward(&module),
        Err(Error::Unsupported(Feature::Locals))
    );
    assert_eq!(
        Autodiff::no_validate().forward(&body(vec![], vec![], vec![I::Drop, I::End])),
        Err(Error::Unsupported(Feature::Instruction))
    );
}

#[test]
fn a_module_that_is_not_valid_is_an_error() {
    let malformed = |operators| match reverse_error(&body(vec![ValType::F64], vec![], operators)) {
        Error::Malformed(fault) => fault,
        other => panic!("{other:?}"),
    };
    assert_eq!(malformed(vec![I::Drop, I::End]), Malformed::OperandStack);
    assert_eq!(malformed(vec![I::Else, I::End]), Malformed::ControlStack);
    assert_eq!(malformed(vec![I::End, I::End]), Malformed::ControlStack);
    assert_eq!(malformed(vec![I::Br(1), I::End]), Malformed::ControlStack);
    assert_eq!(
        malformed(vec![I::Loop(BlockType::Func(1)), I::End, I::End]),
        Malformed::TypeIndex
    );
    assert_eq!(malformed(vec![I::Call(1), I::End]), Malformed::FunctionIndex);
    assert_eq!(malformed(vec![I::LocalGet(1), I::End]), Malformed::LocalIndex);
    let far = MemArg {
        offset: 0,
        align: 2,
        memory_index: u32::MAX,
    };
    assert_eq!(
        malformed(vec![I::I32Const(0), I::FloatLoad(W32, far), I::Drop, I::End]),
        Malformed::TooLarge
    );
    let mut module = body(vec![], vec![], vec![I::End]);
    module.code.push(FunctionBody {
        locals: Vec::new(),
        operators: vec![I::End],
    });
    assert_eq!(reverse_error(&module), Error::Malformed(Malformed::FunctionCount));
    let mut module = body(vec![], vec![], vec![I::End]);
    module.names = Some(vec![Name::Other, Name::Type(Vec::new()), Name::Type(Vec::new())]);
    let mut ad = Autodiff::no_validate();
    assert!(ad.reverse(&module).is_ok());
    ad.names();
    assert_eq!(ad.reverse(&module), Err(Error::Malformed(Malformed::NameSection)));
    assert_eq!(
        Error::Malformed(Malformed::NameSection).message(),
        "Wasm parsing or validation error: duplicate name subsection"
    );
    assert_eq!(
        Error::Unsupported(Feature::Simd).message(),
        "code transformation error: SIMD is unsupported"
    );
    assert_eq!(
        Error::Unsupported(Feature::TableExport).message(),
        "code transformation error: table exports are unsupported"
    );
    assert_eq!(
        Error::Unsupported(Feature::TagExport).message(),
        "code transformation error: tag exports are unsupported"
    );
    assert_eq!(
        Error::MissingImport("a".to_string(), "b".to_string()).message(),
        "no backward pass given for import: a b"
    );
}

/// The function types of a module, in the order of its type section.
fn types_of(wasm: &[u8]) -> Vec<(Vec<wasmparser::ValType>, Vec<wasmparser::ValType>)> {
    let mut types = Vec::new();
    for payload in Parser::new(0).parse_all(wasm) {
        if let Payload::TypeSection(section) = payload.unwrap() {
            for ty in section.into_iter_err_on_gc_types() {
                let ty = ty.unwrap();
                types.push((ty.params().to_vec(), ty.results().to_vec()));
            }
        }
    }
    types
}

#[test]
fn each_type_becomes_two_and_the_helper_types_follow() {
    let f32 = wasmparser::ValType::F32;
    let f64 = wasmparser::ValType::F64;
    let i32 = wasmparser::ValType::I32;
    let wat = "(module
        (type (func (param f64 i32) (result f64)))
        (type (func (param i32 f32 f32)))
        (func (type 0) (local.get 0))
        (func (type 1)))";
    let output = Autodiff::new().reverse(&parse(&wat::parse_str(wat).unwrap())).unwrap();
    let types = types_of(&output);
    assert_eq!(types.len(), 4 + 11);
    assert_eq!(types[0], (vec![f64, i32], vec![f64]));
    assert_eq!(types[1], (vec![f64], vec![f64]));
    assert_eq!(types[2], (vec![i32, f32, f32], vec![]));
    assert_eq!(types[3], (vec![], vec![f32, f32]));
    assert_eq!(types[4], (vec![i32], vec![]));
    assert_eq!(types[14], (vec![f64], vec![f64, f64]));
    wasmtime::Module::new(&engine(), &output).unwrap();
    let empty = parse(&wat::parse_str("(module)").unwrap());
    assert_eq!(types_of(&Autodiff::new().reverse(&empty).unwrap()).len(), 11);
}

#[test]
fn block_types_name_the_forward_form_of_a_type() {
    Backprop {
        wat: "(module
            (type (func (param f32) (result f32)))
            (type (func (param f64) (result f64)))
            (func (export \"f\") (param f64 f64) (result f64)
              (local.get 0)
              (loop (type 1) (local.get 1) (f64.mul))
              (if (type 1) (f64.gt (local.get 1) (f64.const 0))
                (then (f64.sqrt))
                (else (local.get 0) (f64.mul)))))",
        name: "f",
        input: (2., 8.),
        output: 4.,
        cotangent: 1.,
        gradient: (1., 0.25),
    }
    .test();
}

#[test]
fn an_exported_global_is_found_behind_the_tapes() {
    let wat = "(module
        (global i32 (i32.const 3))
        (global (export \"g\") f64 (f64.const 1.5)))";
    let output = Autodiff::new().reverse(&parse(&wat::parse_str(wat).unwrap())).unwrap();
    let engine = engine();
    let mut store = Store::new(&engine, ());
    let module = wasmtime::Module::new(&engine, &output).unwrap();
    let instance = Instance::new(&mut store, &module, &[]).unwrap();
    let g = instance.get_global(&mut store, "g").unwrap();
    assert_eq!(g.get(&mut store).unwrap_f64(), 1.5);
}

fn line(name: &str, op: Op, a: Option<&str>, b: Option<&str>) -> Line {
    Line {
        name: name.to_string(),
        op,
        a: a.map(str::to_string),
        b: b.map(str::to_string),
    }
}

fn program() -> Vec<Line> {
    vec![
        line("x", Op::Var, None, None),
        line("y", Op::Var, Some("ignored"), None),
        line("c", Op::Const(2.5f32.to_bits()), Some("2.5"), None),
        line("s", Op::Square, Some("x"), None),
        line("n", Op::Neg, Some("s"), None),
        line("q", Op::Sqrt, Some("c"), None),
        line("a", Op::Add, Some("x"), Some("y")),
        line("m", Op::Mul, Some("a"), Some("c")),
        line("lo", Op::Min, Some("m"), Some("n")),
        line("hi", Op::Max, Some("lo"), Some("q")),
        line("d", Op::Sub, Some("m"), Some("hi")),
    ]
}

#[test]
fn a_program_becomes_a_module_with_one_function() {
    let output = to_wasm(&program()).unwrap();

    let f32 = wasm_encoder::ValType::F32;
    let mut module = wasm_encoder::Module::new();
    let mut types = wasm_encoder::TypeSection::new();
    types.ty().function([f32, f32], [f32]);
    module.section(&types);
    let mut functions = wasm_encoder::FunctionSection::new();
    functions.function(0);
    module.section(&functions);
    let mut exports = wasm_encoder::ExportSection::new();
    exports.export("main", wasm_encoder::ExportKind::Func, 0);
    module.section(&exports);
    let mut function = wasm_encoder::Function::new([(9, f32)]);
    function
        .instructions()
        .f32_const(2.5)
        .local_set(2)
        .local_get(0)
        .local_get(0)
        .f32_mul()
        .local_set(3)
        .local_get(3)
        .f32_neg()
        .local_set(4)
        .local_get(2)
        .f32_sqrt()
        .local_set(5)
        .local_get(0)
        .local_get(1)
        .f32_add()
        .local_set(6)
        .local_get(6)
        .local_get(2)
        .f32_mul()
        .local_set(7)
        .local_get(7)
        .local_get(4)
        .f32_min()
        .local_set(8)
        .local_get(8)
        .local_get(5)
        .f32_max()
        .local_set(9)
        .local_get(7)
        .local_get(9)
        .f32_sub()
        .local_set(10)
        .local_get(10)
        .end();
    let mut code = wasm_encoder::CodeSection::new();
    code.function(&function);
    module.section(&code);
    let mut names = wasm_encoder::NameMap::new();
    for (i, name) in ["x", "y", "c", "s", "n", "q", "a", "m", "lo", "hi", "d"]
        .into_iter()
        .enumerate()
    {
        names.append(i as u32, name);
    }
    let mut locals = wasm_encoder::IndirectNameMap::new();
    locals.append(0, &names);
    let mut section = wasm_encoder::NameSection::new();
    section.locals(&locals);
    module.section(&section);
    assert_eq!(output, module.finish());

    // m = 2.5 (x + y), and the result is m - max(min(m, -x^2), sqrt(2.5)).
    let engine = engine();
    let mut store = Store::new(&engine, ());
    let compiled = wasmtime::Module::new(&engine, &output).unwrap();
    let instance = Instance::new(&mut store, &compiled, &[]).unwrap();
    let main = instance
        .get_typed_func::<(f32, f32), f32>(&mut store, "main")
        .unwrap();
    assert_eq!(main.call(&mut store, (1., 3.)).unwrap(), 10. - 2.5f32.sqrt());

    let mut ad = Autodiff::new();
    ad.export("main", "backprop");
    let gradient = ad.reverse(&parse(&output)).unwrap();
    let compiled = wasmtime::Module::new(&engine, &gradient).unwrap();
    let instance = Instance::new(&mut store, &compiled, &[]).unwrap();
    let main = instance
        .get_typed_func::<(f32, f32), f32>(&mut store, "main")
        .unwrap();
    let backprop = instance
        .get_typed_func::<f32, (f32, f32)>(&mut store, "backprop")
        .unwrap();
    assert_eq!(main.call(&mut store, (1., 3.)).unwrap(), 10. - 2.5f32.sqrt());
    assert_eq!(backprop.call(&mut store, 1.).unwrap(), (2.5, 2.5));
}

#[test]
fn a_name_that_is_defined_again_is_counted_once() {
    let lines = vec![
        line("x", Op::Var, None, None),
        line("y", Op::Var, None, None),
        line("t", Op::Add, Some("x"), Some("y")),
        line("t", Op::Mul, Some("t"), Some("t")),
        line("x", Op::Neg, Some("x"), None),
    ];
    let output = to_wasm(&lines).unwrap();
    let bodies: Vec<Vec<Instruction>> = parse(&output)
        .code
        .into_iter()
        .map(|body| {
            assert_eq!(body.locals, [(2, ValType::F32)]);
            body.operators
        })
        .collect();
    assert_eq!(
        bodies,
        [vec![
            I::LocalGet(0),
            I::LocalGet(1),
            I::FloatBinary(W32, FB::Add),
            I::LocalSet(2),
            // The second `t` is the second node, and is known under its name before its
            // operands are looked up; the nodes are still one.
            I::LocalGet(3),
            I::LocalGet(3),
            I::FloatBinary(W32, FB::Mul),
            I::LocalSet(3),
            // So the next node has the same local. A node hides the parameter of its name,
            // also from itself.
            I::LocalGet(3),
            I::FloatUnary(W32, FU::Neg),
            I::LocalSet(3),
            I::LocalGet(3),
            I::End,
        ]]
    );
}

#[test]
fn a_program_that_cannot_be_read_is_a_fault() {
    let x = || line("x", Op::Var, None, None);
    let y = || line("y", Op::Var, None, None);
    assert_eq!(to_wasm(&[]), Err(Fault::Parameters));
    assert_eq!(to_wasm(&[x()]), Err(Fault::Parameters));
    assert_eq!(to_wasm(&[x(), x()]), Err(Fault::Parameters));
    assert_eq!(
        to_wasm(&[x(), y(), line("z", Op::Var, None, None)]),
        Err(Fault::Parameters)
    );
    assert_eq!(
        to_wasm(&[x(), y(), line("a", Op::Sqrt, None, None)]),
        Err(Fault::MissingOperand)
    );
    assert_eq!(
        to_wasm(&[x(), y(), line("a", Op::Add, Some("x"), None)]),
        Err(Fault::MissingOperand)
    );
    assert_eq!(
        to_wasm(&[x(), line("a", Op::Add, Some("x"), Some("y")), y()]),
        Err(Fault::UnknownName)
    );
    assert_eq!(
        to_wasm(&[line("a", Op::Sub, Some("b"), None)]),
        Err(Fault::UnknownName)
    );
    assert!(to_wasm(&[x(), y()]).is_ok());
}

/// The name maps of a name section, each under the id of its subsection; the names of locals
/// under 2 and the index of the function.
fn name_maps(wasm: &[u8]) -> Vec<((u8, u32), Vec<(u32, String)>)> {
    let list = |map: wasmparser::NameMap| -> Vec<(u32, String)> {
        map.into_iter()
            .map(|naming| {
                let naming = naming.unwrap();
                (naming.index, naming.name.to_string())
            })
            .collect()
    };
    let mut maps = Vec::new();
    for payload in Parser::new(0).parse_all(wasm) {
        if let Payload::CustomSection(section) = payload.unwrap() {
            if let wasmparser::KnownCustom::Name(reader) = section.as_known() {
                for name in reader {
                    match name.unwrap() {
                        wasmparser::Name::Function(map) => maps.push(((1, 0), list(map))),
                        wasmparser::Name::Local(map) => {
                            for indirect in map {
                                let indirect = indirect.unwrap();
                                maps.push(((2, indirect.index), list(indirect.names)));
                            }
                        }
                        wasmparser::Name::Type(map) => maps.push(((4, 0), list(map))),
                        wasmparser::Name::Memory(map) => maps.push(((6, 0), list(map))),
                        wasmparser::Name::Global(map) => maps.push(((7, 0), list(map))),
                        _ => {}
                    }
                }
            }
        }
    }
    maps
}

#[test]
fn no_name_is_given_twice_in_a_namespace() {
    let input = wat::parse_str(
        "(module
           (type $dispatch (func (param f64) (result f64)))
           (type $dispatch_bwd (func))
           (memory $tape_align_4 1)
           (memory $tape_align_4_bwd 1)
           (global $tape_align_1 i32 (i32.const 0))
           (func $tape_i32 (type $dispatch) (param $tmp_f64 f64) (result f64)
             (local $result_0 f64) (local $stack_f64_0 f32)
             (local.get $tmp_f64)
             (loop (type $dispatch) (f64.sqrt)))
           (func $tape_i32_bwd (type $dispatch_bwd)))",
    )
    .unwrap();
    let mut ad = Autodiff::new();
    ad.names();
    let output = ad.reverse(&parse(&input)).unwrap();
    wasmtime::Module::new(&engine(), &output).unwrap();

    let maps = name_maps(&output);
    let map = |id: (u8, u32)| -> &Vec<(u32, String)> {
        let found: Vec<_> = maps.iter().filter(|(key, _)| *key == id).collect();
        assert_eq!(found.len(), 1, "{id:?}");
        &found[0].1
    };
    for (_, names) in &maps {
        let mut seen: Vec<&String> = names.iter().map(|(_, name)| name).collect();
        seen.sort();
        seen.dedup();
        assert_eq!(seen.len(), names.len(), "{names:?}");
        let mut indices: Vec<u32> = names.iter().map(|(index, _)| *index).collect();
        indices.sort();
        indices.dedup();
        assert_eq!(indices.len(), names.len(), "{names:?}");
    }
    let named = |id: (u8, u32), index: u32| -> String {
        map(id).iter().find(|(i, _)| *i == index).unwrap().1.clone()
    };
    // Types: the two forms of each type of the module, then the helper types.
    assert_eq!(named((4, 0), 0), "dispatch");
    assert_eq!(named((4, 0), 1), "dispatch_bwd_0");
    assert_eq!(named((4, 0), 2), "dispatch_bwd");
    assert_eq!(named((4, 0), 3), "dispatch_bwd_bwd");
    assert_eq!(named((4, 0), 4), "dispatch_0");
    assert_eq!(named((4, 0), 5), "tape_i32");
    assert_eq!(map((4, 0)).len(), 4 + 11);
    // Memories: the tapes stand first and are named last.
    assert_eq!(named((6, 0), 3), "tape_align_4");
    assert_eq!(named((6, 0), 4), "tape_align_4_bwd_0");
    assert_eq!(named((6, 0), 5), "tape_align_4_bwd");
    assert_eq!(named((6, 0), 6), "tape_align_4_bwd_bwd");
    assert_eq!(named((6, 0), 0), "tape_align_1");
    // The base of `tape_align_4` is `tape_align`, behind which 0 is free.
    assert_eq!(named((6, 0), 1), "tape_align_0");
    assert_eq!(named((6, 0), 2), "tape_align_8");
    // Globals.
    assert_eq!(named((7, 0), 3), "tape_align_1");
    assert_eq!(named((7, 0), 0), "tape_align_0");
    assert_eq!(named((7, 0), 1), "tape_align_4");
    // Functions.
    assert_eq!(named((1, 0), 22), "tape_i32");
    assert_eq!(named((1, 0), 23), "tape_i32_bwd_0");
    assert_eq!(named((1, 0), 24), "tape_i32_bwd");
    assert_eq!(named((1, 0), 0), "tape_i32_0");
    assert_eq!(named((1, 0), 1), "tape_i32_bwd_1");
    // The locals of the backward pass of the first function.
    let locals = map((2, 23));
    assert!(locals.contains(&(1, "tmp_f64".to_string())));
    assert!(locals.contains(&(2, "result_0".to_string())));
    assert!(locals.contains(&(0, "result_1".to_string())));
}
