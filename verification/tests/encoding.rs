use floretta::api::Autodiff;
use floretta::backward::{Locals, ReverseFunction};
use floretta::helper::{
    helper_functions, helper_globals, helper_memories, helper_types, helper_types_at,
    FloatHelper, FuncOffsets,
    NumImports, OFFSET_FUNCTIONS, OFFSET_GLOBALS, OFFSET_MEMORIES, OFFSET_TYPES,
};
use floretta::instruction::Width::{W32, W64};
use floretta::instruction::{
    encode_all, FloatBinOp, FloatBinOp as FB, FloatRelOp as FR, FloatUnOp as FU, Instruction,
    IntBinOp as IB, IntRelOp as IR, IntUnOp as IU, MemArg, Width,
};
use floretta::module::{
    Export, ExportKind, FuncType, FunctionBody, MemoryType, Module,
};
use floretta::sections::{
    function_body, tuple, write_export, write_func_import, write_func_type, write_global,
    write_memory_type,
};
use floretta::stack::{heights_of, StackHeight};
use floretta::util::{u32_to_usize, BlockType, FuncTypes, LocalMap, TypeMap, ValType};
use wasm_encoder::ValType::{F64, I32};
use wasm_encoder::{Encode, Instruction as E};

fn encoded(insn: Instruction) -> Vec<u8> {
    let mut sink = vec![0xAA];
    insn.encode(&mut sink);
    assert_eq!(sink[0], 0xAA);
    sink.split_off(1)
}

fn expected(insn: wasm_encoder::Instruction) -> Vec<u8> {
    let mut sink = Vec::new();
    insn.encode(&mut sink);
    sink
}

fn memarg(m: MemArg) -> wasm_encoder::MemArg {
    wasm_encoder::MemArg {
        offset: m.offset,
        align: m.align,
        memory_index: m.memory_index,
    }
}

#[test]
fn numbers_are_written_in_leb128() {
    assert_eq!(encoded(Instruction::LocalGet(0)), [0x20, 0x00]);
    assert_eq!(encoded(Instruction::LocalGet(127)), [0x20, 0x7F]);
    assert_eq!(encoded(Instruction::LocalGet(128)), [0x20, 0x80, 0x01]);
    assert_eq!(encoded(Instruction::LocalGet(300)), [0x20, 0xAC, 0x02]);
    assert_eq!(
        encoded(Instruction::LocalGet(u32::MAX)),
        [0x20, 0xFF, 0xFF, 0xFF, 0xFF, 0x0F]
    );
    assert_eq!(encoded(Instruction::I32Const(0)), [0x41, 0x00]);
    assert_eq!(encoded(Instruction::I32Const(63)), [0x41, 0x3F]);
    assert_eq!(encoded(Instruction::I32Const(64)), [0x41, 0xC0, 0x00]);
    assert_eq!(encoded(Instruction::I32Const(-1)), [0x41, 0x7F]);
    assert_eq!(encoded(Instruction::I32Const(-64)), [0x41, 0x40]);
    assert_eq!(encoded(Instruction::I32Const(-65)), [0x41, 0xBF, 0x7F]);
    assert_eq!(
        encoded(Instruction::I32Const(i32::MIN)),
        [0x41, 0x80, 0x80, 0x80, 0x80, 0x78]
    );
    assert_eq!(
        encoded(Instruction::I64Const(i64::MAX)),
        [0x42, 0xFF, 0xFF, 0xFF, 0xFF, 0xFF, 0xFF, 0xFF, 0xFF, 0xFF, 0x00]
    );
    assert_eq!(
        encoded(Instruction::F32Const(1f32.to_bits())),
        [0x43, 0x00, 0x00, 0x80, 0x3F]
    );
    assert_eq!(
        encoded(Instruction::F64Const((-2f64).to_bits())),
        [0x44, 0, 0, 0, 0, 0, 0, 0, 0xC0]
    );
    let far = MemArg {
        offset: u64::MAX,
        align: 3,
        memory_index: 0,
    };
    assert_eq!(
        encoded(Instruction::FloatLoad(Width::W64, far)),
        [0x2B, 0x03, 0xFF, 0xFF, 0xFF, 0xFF, 0xFF, 0xFF, 0xFF, 0xFF, 0xFF, 0x01]
    );
    let other = MemArg {
        offset: 8,
        align: 2,
        memory_index: 5,
    };
    assert_eq!(
        encoded(Instruction::FloatStore(Width::W32, other)),
        [0x38, 0x42, 0x05, 0x08]
    );
    assert_eq!(encoded(Instruction::Block(BlockType::Empty)), [0x02, 0x40]);
    assert_eq!(
        encoded(Instruction::Loop(BlockType::Result(ValType::F64))),
        [0x03, 0x7C]
    );
    assert_eq!(encoded(Instruction::If(BlockType::Func(64))), [0x04, 0xC0, 0x00]);
}

#[test]
fn instructions_are_written_as_the_encoder_writes_them() {
    let m = MemArg {
        offset: 1234,
        align: 2,
        memory_index: 3,
    };
    let bt = BlockType::Func(7);
    let ebt = wasm_encoder::BlockType::FunctionType(7);
    let mut cases = vec![
        (Instruction::Unreachable, E::Unreachable),
        (Instruction::Block(bt), E::Block(ebt)),
        (Instruction::Loop(bt), E::Loop(ebt)),
        (Instruction::If(bt), E::If(ebt)),
        (
            Instruction::If(BlockType::Result(ValType::I64)),
            E::If(wasm_encoder::BlockType::Result(wasm_encoder::ValType::I64)),
        ),
        (
            Instruction::Block(BlockType::Result(ValType::F32)),
            E::Block(wasm_encoder::BlockType::Result(wasm_encoder::ValType::F32)),
        ),
        (
            Instruction::Block(BlockType::Result(ValType::I32)),
            E::Block(wasm_encoder::BlockType::Result(wasm_encoder::ValType::I32)),
        ),
        (Instruction::Else, E::Else),
        (Instruction::End, E::End),
        (Instruction::Br(9), E::Br(9)),
        (Instruction::BrIf(200), E::BrIf(200)),
        (Instruction::Call(70000), E::Call(70000)),
        (Instruction::Drop, E::Drop),
        (Instruction::LocalGet(1), E::LocalGet(1)),
        (Instruction::LocalSet(2), E::LocalSet(2)),
        (Instruction::LocalTee(3), E::LocalTee(3)),
        (Instruction::GlobalGet(4), E::GlobalGet(4)),
        (Instruction::GlobalSet(5), E::GlobalSet(5)),
        (Instruction::I32Load(m), E::I32Load(memarg(m))),
        (Instruction::I32Load8U(m), E::I32Load8U(memarg(m))),
        (Instruction::I32Store(m), E::I32Store(memarg(m))),
        (Instruction::I32Store8(m), E::I32Store8(memarg(m))),
        (Instruction::FloatLoad(Width::W32, m), E::F32Load(memarg(m))),
        (Instruction::FloatLoad(Width::W64, m), E::F64Load(memarg(m))),
        (Instruction::FloatStore(Width::W32, m), E::F32Store(memarg(m))),
        (Instruction::FloatStore(Width::W64, m), E::F64Store(memarg(m))),
        (Instruction::MemorySize(2), E::MemorySize(2)),
        (Instruction::MemoryGrow(1), E::MemoryGrow(1)),
        (Instruction::I32Const(-123456), E::I32Const(-123456)),
        (Instruction::I64Const(i64::MIN), E::I64Const(i64::MIN)),
        (Instruction::F32Const(0.1f32.to_bits()), E::F32Const(0.1)),
        (Instruction::F64Const(0.1f64.to_bits()), E::F64Const(0.1)),
        (Instruction::IntEqz(Width::W32), E::I32Eqz),
        (Instruction::IntEqz(Width::W64), E::I64Eqz),
    ];
    for (op, e32, e64) in [
        (IR::Eq, E::I32Eq, E::I64Eq),
        (IR::Ne, E::I32Ne, E::I64Ne),
        (IR::LtS, E::I32LtS, E::I64LtS),
        (IR::LtU, E::I32LtU, E::I64LtU),
        (IR::GtS, E::I32GtS, E::I64GtS),
        (IR::GtU, E::I32GtU, E::I64GtU),
        (IR::LeS, E::I32LeS, E::I64LeS),
        (IR::LeU, E::I32LeU, E::I64LeU),
        (IR::GeS, E::I32GeS, E::I64GeS),
        (IR::GeU, E::I32GeU, E::I64GeU),
    ] {
        cases.push((Instruction::IntCompare(W32, op), e32));
        cases.push((Instruction::IntCompare(W64, op), e64));
    }
    for (op, e32, e64) in [
        (FR::Eq, E::F32Eq, E::F64Eq),
        (FR::Ne, E::F32Ne, E::F64Ne),
        (FR::Lt, E::F32Lt, E::F64Lt),
        (FR::Gt, E::F32Gt, E::F64Gt),
        (FR::Le, E::F32Le, E::F64Le),
        (FR::Ge, E::F32Ge, E::F64Ge),
    ] {
        cases.push((Instruction::FloatCompare(W32, op), e32));
        cases.push((Instruction::FloatCompare(W64, op), e64));
    }
    for (op, e32, e64) in [
        (IU::Clz, E::I32Clz, E::I64Clz),
        (IU::Ctz, E::I32Ctz, E::I64Ctz),
        (IU::Popcnt, E::I32Popcnt, E::I64Popcnt),
    ] {
        cases.push((Instruction::IntUnary(W32, op), e32));
        cases.push((Instruction::IntUnary(W64, op), e64));
    }
    for (op, e32, e64) in [
        (IB::Add, E::I32Add, E::I64Add),
        (IB::Sub, E::I32Sub, E::I64Sub),
        (IB::Mul, E::I32Mul, E::I64Mul),
        (IB::DivS, E::I32DivS, E::I64DivS),
        (IB::DivU, E::I32DivU, E::I64DivU),
        (IB::RemS, E::I32RemS, E::I64RemS),
        (IB::RemU, E::I32RemU, E::I64RemU),
        (IB::And, E::I32And, E::I64And),
        (IB::Or, E::I32Or, E::I64Or),
        (IB::Xor, E::I32Xor, E::I64Xor),
        (IB::Shl, E::I32Shl, E::I64Shl),
        (IB::ShrS, E::I32ShrS, E::I64ShrS),
        (IB::ShrU, E::I32ShrU, E::I64ShrU),
        (IB::Rotl, E::I32Rotl, E::I64Rotl),
        (IB::Rotr, E::I32Rotr, E::I64Rotr),
    ] {
        cases.push((Instruction::IntBinary(W32, op), e32));
        cases.push((Instruction::IntBinary(W64, op), e64));
    }
    for (op, e32, e64) in [(FU::Neg, E::F32Neg, E::F64Neg), (FU::Sqrt, E::F32Sqrt, E::F64Sqrt)] {
        cases.push((Instruction::FloatUnary(W32, op), e32));
        cases.push((Instruction::FloatUnary(W64, op), e64));
    }
    for (op, e32, e64) in [
        (FB::Add, E::F32Add, E::F64Add),
        (FB::Sub, E::F32Sub, E::F64Sub),
        (FB::Mul, E::F32Mul, E::F64Mul),
        (FB::Div, E::F32Div, E::F64Div),
        (FB::Min, E::F32Min, E::F64Min),
        (FB::Max, E::F32Max, E::F64Max),
    ] {
        cases.push((Instruction::FloatBinary(W32, op), e32));
        cases.push((Instruction::FloatBinary(W64, op), e64));
    }
    for (to, from, signed, e) in [
        (W32, W32, true, E::F32ConvertI32S),
        (W32, W32, false, E::F32ConvertI32U),
        (W32, W64, true, E::F32ConvertI64S),
        (W32, W64, false, E::F32ConvertI64U),
        (W64, W32, true, E::F64ConvertI32S),
        (W64, W32, false, E::F64ConvertI32U),
        (W64, W64, true, E::F64ConvertI64S),
        (W64, W64, false, E::F64ConvertI64U),
    ] {
        cases.push((Instruction::Convert { to, from, signed }, e));
    }
    assert_eq!(cases.len(), 126);
    for (insn, e) in cases {
        assert_eq!(encoded(insn), expected(e.clone()), "{insn:?}");
        assert_eq!(insn.opcode(), expected(e)[0], "{insn:?}");
    }
    let mut sink = Vec::new();
    encode_all(&[Instruction::LocalGet(5), Instruction::Drop, Instruction::End], &mut sink);
    assert_eq!(sink, [0x20, 0x05, 0x1A, 0x0B]);
}

fn encoder_type(ty: ValType) -> wasm_encoder::ValType {
    match ty {
        ValType::I32 => wasm_encoder::ValType::I32,
        ValType::I64 => wasm_encoder::ValType::I64,
        ValType::F32 => wasm_encoder::ValType::F32,
        ValType::F64 => wasm_encoder::ValType::F64,
    }
}

/// The bytes of a section without its id and its size.
fn contents(section: &impl wasm_encoder::Section) -> Vec<u8> {
    let mut sink = Vec::new();
    section.encode(&mut sink);
    let size_bytes = sink.iter().position(|byte| byte & 0x80 == 0).unwrap() + 1;
    let count_bytes = sink[size_bytes..]
        .iter()
        .position(|byte| byte & 0x80 == 0)
        .unwrap()
        + 1;
    sink.split_off(size_bytes + count_bytes)
}

#[test]
fn items_are_written_as_the_encoder_writes_them() {
    let params = [ValType::I32, ValType::F64, ValType::F32];
    let results = [ValType::I64];
    let mut sink = Vec::new();
    write_func_type(&mut sink, &params, &results);
    let mut types = wasm_encoder::TypeSection::new();
    types
        .ty()
        .function(params.map(encoder_type), results.map(encoder_type));
    assert_eq!(sink, contents(&types));

    let mut sink = Vec::new();
    write_func_import(&mut sink, "módulo", "name", 300);
    let mut imports = wasm_encoder::ImportSection::new();
    imports.import("módulo", "name", wasm_encoder::EntityType::Function(300));
    assert_eq!(sink, contents(&imports));

    for (maximum, shared, memory64, page_size_log2) in [
        (None, false, false, None),
        (Some(70000), false, false, None),
        (Some(3), true, false, None),
        (None, false, true, Some(0)),
        (Some(u64::MAX), true, true, Some(16)),
    ] {
        let ty = MemoryType {
            minimum: 129,
            maximum,
            memory64,
            shared,
            page_size_log2,
        };
        let mut sink = Vec::new();
        write_memory_type(&mut sink, ty);
        let mut memories = wasm_encoder::MemorySection::new();
        memories.memory(wasm_encoder::MemoryType {
            minimum: 129,
            maximum,
            memory64,
            shared,
            page_size_log2,
        });
        assert_eq!(sink, contents(&memories));
    }

    for (mutable, shared) in [(false, false), (true, false), (false, true), (true, true)] {
        let mut sink = Vec::new();
        write_global(&mut sink, ValType::F32, mutable, shared, &[Instruction::F32Const(7)]);
        let mut globals = wasm_encoder::GlobalSection::new();
        globals.global(
            wasm_encoder::GlobalType {
                val_type: wasm_encoder::ValType::F32,
                mutable,
                shared,
            },
            &wasm_encoder::ConstExpr::f32_const(f32::from_bits(7)),
        );
        assert_eq!(sink, contents(&globals));
    }

    for (kind, e) in [
        (ExportKind::Func, wasm_encoder::ExportKind::Func),
        (ExportKind::Table, wasm_encoder::ExportKind::Table),
        (ExportKind::Memory, wasm_encoder::ExportKind::Memory),
        (ExportKind::Global, wasm_encoder::ExportKind::Global),
        (ExportKind::Tag, wasm_encoder::ExportKind::Tag),
    ] {
        let mut sink = Vec::new();
        write_export(&mut sink, "e", kind, 1000);
        let mut exports = wasm_encoder::ExportSection::new();
        exports.export("e", e, 1000);
        assert_eq!(sink, contents(&exports));
    }

    for helper in helper_functions(6) {
        let function = helper.2;
        let mut e = wasm_encoder::Function::new(
            function
                .locals
                .iter()
                .map(|&(count, ty)| (count, encoder_type(ty))),
        );
        let mut code = Vec::new();
        encode_all(&function.code, &mut code);
        e.raw(code);
        assert_eq!(function_body(&function), e.into_raw_body(), "{}", helper.0);
    }
}

#[test]
fn forward_mode_writes_the_module_that_the_encoder_writes() {
    let module = Module {
        types: vec![FuncType {
            params: vec![ValType::F64, ValType::I32],
            results: vec![ValType::F64],
        }],
        imports: Vec::new(),
        functions: vec![0],
        memories: Vec::new(),
        globals: Vec::new(),
        exports: vec![Export {
            name: "square".to_string(),
            kind: ExportKind::Func,
            index: 0,
        }],
        code: vec![FunctionBody {
            locals: Vec::new(),
            operators: vec![
                Instruction::LocalGet(0),
                Instruction::LocalGet(0),
                Instruction::FloatBinary(Width::W64, FloatBinOp::Mul),
                Instruction::End,
            ],
        }],
        names: None,
    };
    let output = Autodiff::new().forward(&module).unwrap();

    let mut types = wasm_encoder::TypeSection::new();
    types.ty().function([F64, F64, I32], [F64, F64]);
    let mut functions = wasm_encoder::FunctionSection::new();
    functions.function(0);
    let mut exports = wasm_encoder::ExportSection::new();
    exports.export("square", wasm_encoder::ExportKind::Func, 0);
    let mut code = wasm_encoder::CodeSection::new();
    let mut f = wasm_encoder::Function::new([(4, F64)]);
    f.instructions()
        .local_get(0)
        .local_get(1)
        .local_get(0)
        .local_get(1)
        .local_set(6)
        .local_set(5)
        .local_set(4)
        .local_tee(3)
        .local_get(5)
        .f64_mul()
        .local_get(4)
        .local_get(5)
        .f64_mul()
        .local_get(3)
        .local_get(6)
        .f64_mul()
        .f64_add()
        .end();
    code.function(&f);
    let mut expected = wasm_encoder::Module::new();
    expected.section(&types);
    expected.section(&functions);
    expected.section(&exports);
    expected.section(&code);
    assert_eq!(output, expected.finish());
}

#[test]
fn helpers_stand_behind_the_imports() {
    let offsets = FuncOffsets::new(NumImports { func: 0 });
    assert_eq!(offsets.offset(), 0);
    assert_eq!(offsets.tape_i32(), 0);
    assert_eq!(offsets.tape_i32_bwd(), 1);
    assert_eq!(offsets.f32_sqrt_fwd(), 2);
    assert_eq!(offsets.f32_sqrt_bwd(), 3);
    assert_eq!(offsets.f32_mul_fwd(), 4);
    assert_eq!(offsets.f32_mul_bwd(), 5);
    assert_eq!(offsets.f32_div_fwd(), 6);
    assert_eq!(offsets.f32_div_bwd(), 7);
    assert_eq!(offsets.f32_min_fwd(), 8);
    assert_eq!(offsets.f32_min_bwd(), 9);
    assert_eq!(offsets.f32_max_fwd(), 10);
    assert_eq!(offsets.f32_max_bwd(), 11);
    assert_eq!(offsets.f64_sqrt_fwd(), 12);
    assert_eq!(offsets.f64_sqrt_bwd(), 13);
    assert_eq!(offsets.f64_mul_fwd(), 14);
    assert_eq!(offsets.f64_mul_bwd(), 15);
    assert_eq!(offsets.f64_div_fwd(), 16);
    assert_eq!(offsets.f64_div_bwd(), 17);
    assert_eq!(offsets.f64_min_fwd(), 18);
    assert_eq!(offsets.f64_min_bwd(), 19);
    assert_eq!(offsets.f64_max_fwd(), 20);
    assert_eq!(offsets.f64_max_bwd(), 21);
    let offsets = FuncOffsets::new(NumImports { func: 5 });
    assert_eq!(offsets.tape_i32(), 10);
    assert_eq!(offsets.f64_max_bwd(), 31);
    assert_eq!(offsets.float_helper(Width::W64, FloatHelper::Div, true), 27);
    assert_eq!(offsets.float_helper(Width::W32, FloatHelper::Min, false), 18);

    let names: Vec<&str> = helper_functions(0).iter().map(|helper| helper.0).collect();
    assert_eq!(names.len(), OFFSET_FUNCTIONS as usize);
    assert_eq!(names[0], "tape_i32");
    assert_eq!(names[9], "f32_min_bwd");
    assert_eq!(names[12], "f64_sqrt");
    assert_eq!(names[21], "f64_max_bwd");
    let types: Vec<u32> = helper_functions(0).iter().map(|helper| helper.1).collect();
    assert_eq!(
        types,
        [1, 2, 4, 4, 5, 6, 5, 6, 5, 6, 5, 6, 8, 8, 9, 10, 9, 10, 9, 10, 9, 10]
    );
    // The helper types stand behind the two types for each type of the module.
    let types: Vec<u32> = helper_functions(6).iter().map(|helper| helper.1).collect();
    assert_eq!(
        types,
        [7, 8, 10, 10, 11, 12, 11, 12, 11, 12, 11, 12, 14, 14, 15, 16, 15, 16, 15, 16, 15, 16]
    );
    assert_eq!(helper_types_at(3), 6);
    assert_eq!(helper_functions(6)[9].2.code[7], Instruction::If(BlockType::Func(9)));
    assert_eq!(helper_functions(6)[21].2.code[7], Instruction::If(BlockType::Func(13)));
    assert_eq!(helper_types().len(), OFFSET_TYPES as usize);
    assert_eq!(helper_types()[0].0, "dispatch");
    assert_eq!(helper_types()[6].0, "f32_bin_bwd");
    assert_eq!(
        helper_types()[10].1,
        FuncType {
            params: vec![ValType::F64],
            results: vec![ValType::F64, ValType::F64],
        }
    );
    assert_eq!(helper_memories().len(), OFFSET_MEMORIES as usize);
    assert_eq!(helper_memories()[2].0, "tape_align_8");
    assert_eq!(helper_memories()[1].1.minimum, 0);
    assert_eq!(helper_globals().len(), OFFSET_GLOBALS as usize);
    assert!(helper_globals()[0].1.mutable);
    assert_eq!(helper_globals()[0].1.init, [Instruction::I32Const(0)]);
}

#[test]
fn function_types_are_kept_in_order() {
    let mut types = FuncTypes::new();
    assert_eq!(types.len(), 0);
    assert_eq!(types.push(&[ValType::I32, ValType::F64], &[]), Ok(0));
    assert_eq!(types.push(&[], &[ValType::F32]), Ok(1));
    assert_eq!(types.push(&[], &[]), Ok(2));
    assert_eq!(types.push(&[ValType::I64], &[ValType::I64, ValType::F64]), Ok(3));
    assert_eq!(types.len(), 4);
    assert_eq!(types.params(0), [ValType::I32, ValType::F64]);
    assert_eq!(types.results(0), []);
    assert_eq!(types.params(1), []);
    assert_eq!(types.results(1), [ValType::F32]);
    assert_eq!(types.params(2), []);
    assert_eq!(types.results(2), []);
    assert_eq!(types.params(3), [ValType::I64]);
    assert_eq!(types.results(3), [ValType::I64, ValType::F64]);
    assert_eq!(tuple(types.results(3)), [ValType::F64]);
    assert_eq!(floretta::forward::tuple(types.params(0)), [ValType::I32, ValType::F64, ValType::F64]);
}

#[test]
fn type_maps_and_heights() {
    assert_eq!(u32_to_usize(u32::MAX), 4294967295);
    assert!(ValType::F32.is_float() && ValType::F64.is_float());
    assert!(!ValType::I32.is_float() && !ValType::I64.is_float());
    assert_eq!(ValType::I64.singleton(), [ValType::I64]);
    assert_eq!(ValType::F32.singleton(), [ValType::F32]);
    let mut map = TypeMap {
        i32: 'a',
        i64: 'b',
        float32: 'c',
        float64: 'd',
    };
    assert_eq!(*map.get(ValType::I32), 'a');
    assert_eq!(*map.get(ValType::F64), 'd');
    *map.get_mut(ValType::I64) = 'x';
    *map.get_mut(ValType::F32) = 'y';
    assert_eq!((map.i32, map.i64, map.float32, map.float64), ('a', 'x', 'y', 'd'));

    let mut heights = StackHeight::new();
    assert_eq!(heights.sum(), 0);
    heights.push(ValType::F64);
    heights.push(ValType::I32);
    heights.push(ValType::F64);
    *heights.counter(ValType::I64) += 4;
    assert_eq!(heights.sum(), 7);
    heights.pop(ValType::F64);
    assert_eq!(
        (heights.i32, heights.i64, heights.float32, heights.float64),
        (1, 4, 0, 1)
    );
    let counted = heights_of(&[ValType::F32, ValType::I32, ValType::F32, ValType::F64]);
    assert_eq!(
        (counted.i32, counted.i64, counted.float32, counted.float64),
        (1, 0, 2, 1)
    );
    let rest = heights.sub(TypeMap {
        i32: 1,
        i64: 1,
        float32: 0,
        float64: 0,
    });
    assert_eq!((rest.i32, rest.i64, rest.float32, rest.float64), (0, 3, 0, 1));
    heights.take_max(counted);
    assert_eq!(
        (heights.i32, heights.i64, heights.float32, heights.float64),
        (1, 4, 2, 1)
    );
}

#[test]
fn local_maps_list_their_entries() {
    let mut locals = LocalMap::new(floretta::reverse::type_map());
    locals.push(2, ValType::F64);
    locals.push(3, ValType::I32);
    locals.push(0, ValType::F32);
    locals.push(1, ValType::F32);
    assert_eq!(locals.count_keys(), 6);
    assert_eq!(locals.count_vals(), 3);
    assert_eq!(
        locals.keys(),
        [(2, ValType::F64), (3, ValType::I32), (0, ValType::F32), (1, ValType::F32)]
    );
    assert_eq!(
        locals.vals(),
        [(2, ValType::F64), (0, ValType::I32), (0, ValType::F32), (1, ValType::F32)]
    );
    assert_eq!(locals.get(1), (ValType::F64, Some(1)));
    assert_eq!(locals.get(4), (ValType::I32, None));
    assert_eq!(locals.get(5), (ValType::F32, Some(2)));
}

#[test]
fn backward_passes_are_written_backwards() {
    let mut locals = Locals::new(2);
    assert_eq!((locals.blocks(), locals.count()), (0, 2));
    locals.locals(300, ValType::F32);
    assert_eq!(locals.local(ValType::I64), 302);
    assert_eq!((locals.blocks(), locals.count()), (2, 303));
    assert_eq!(locals.bytes(), [0xAC, 0x02, 0x7D, 0x01, 0x7E]);

    let mut bwd = ReverseFunction::new(NumImports { func: 1 }, 4, 1);
    assert_eq!(bwd.local(ValType::F64), 1);
    assert_eq!(bwd.basic_block_index(), 0);
    bwd.instructions(&[Instruction::LocalGet(1)]);
    bwd.instructions(&[Instruction::LocalGet(1), Instruction::F64Const(0), Instruction::Drop]);
    bwd.instructions(&[Instruction::Call(300)]);
    bwd.deepen_stack(ValType::I32);
    assert!(bwd.has_room(2));
    bwd.split_basic_block(
        &[ValType::I32, ValType::F64],
        TypeMap {
            i32: 1,
            i64: 0,
            float32: 3,
            float64: 2,
        },
        1,
        0,
    );
    assert_eq!(bwd.basic_block_index(), 1);
    let stack = bwd.max_stack_values();
    assert_eq!((stack.i32, stack.float32, stack.float64), (1, 3, 1));
    assert_eq!(bwd.max_branch_values().float64, 1);
    let body = bwd.into_raw_body(&[ValType::I32, ValType::F64]).unwrap();
    let mut expected = vec![5, 1, 0x7C, 3, 0x7D, 1, 0x7C, 0, 0x7D, 1, 0x7C];
    encode_all(
        &[
            // The adjoint of the result goes into the local for the branch value.
            Instruction::LocalGet(0),
            Instruction::LocalSet(6),
            // The dispatch loop.
            Instruction::Call(3),
            Instruction::Loop(BlockType::Func(4)),
            Instruction::Block(BlockType::Func(4)),
            Instruction::Block(BlockType::Func(4)),
        ],
        &mut expected,
    );
    expected.extend([0x0E, 1, 1, 0]);
    encode_all(
        &[
            Instruction::End,
            Instruction::Unreachable,
            Instruction::End,
            Instruction::End,
            // The one basic block: the branch value comes out of its local.
            Instruction::LocalGet(6),
            Instruction::F64Const(0),
            Instruction::LocalSet(6),
            // What was written last runs first.
            Instruction::Call(300),
            Instruction::LocalGet(1),
            Instruction::F64Const(0),
            Instruction::Drop,
            Instruction::LocalGet(1),
            Instruction::End,
        ],
        &mut expected,
    );
    assert_eq!(body, expected);
}

#[test]
fn derivative_counterparts_are_set_once() {
    let mut ad = Autodiff::new();
    assert!(ad.validates());
    assert!(!Autodiff::no_validate().validates());
    assert!(!ad.has_names());
    ad.names();
    assert!(ad.has_names());
    assert!(!ad.has_export("f"));
    assert_eq!(ad.exported("f"), None);
    ad.export("f", "df");
    ad.export("g", "dg");
    assert!(ad.has_export("f"));
    assert!(!ad.has_export("df"));
    assert_eq!(ad.exported("f"), Some(&"df".to_string()));
    assert_eq!(ad.exported("g"), Some(&"dg".to_string()));
    assert!(!ad.has_import("m", "f"));
    ad.import(("m", "f"), ("n", "df"));
    assert!(ad.has_import("m", "f"));
    assert!(!ad.has_import("f", "m"));
    assert!(!ad.has_import("n", "df"));
    assert_eq!(
        ad.imported("m", "f"),
        Some(&("n".to_string(), "df".to_string()))
    );
    assert_eq!(ad.imported("m", "g"), None);
}
