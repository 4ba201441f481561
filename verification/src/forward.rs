//! Forward mode: every floating-point value becomes a pair of the value and its tangent, and
//! every function computes the tangents of its results along with the results.

use vstd::prelude::*;

use crate::binary::{header, items, module_header, name_fits, section, sized, write_section};
use crate::bytes::extend;
use crate::error::{Error, Feature, Malformed};
use crate::helper::Function;
use crate::instruction::{FloatBinOp, Instruction, Width};
use crate::leb128;
use crate::module::{Export, FunctionBody, Module};
use crate::sections::{
    body, export, func_type, function_body, write_code, write_export, write_func_type,
};
use crate::util::ValType;
use vstd::utf8::encode_utf8;

verus! {

/// The first `k` of `types` with each floating-point type doubled in place: a value and its
/// tangent.
pub open spec fn pairs(types: Seq<ValType>, k: nat) -> Seq<ValType>
    decreases k,
{
    if k == 0 {
        Seq::empty()
    } else if types[k - 1].spec_is_float() {
        pairs(types, (k - 1) as nat).push(types[k - 1]).push(types[k - 1])
    } else {
        pairs(types, (k - 1) as nat).push(types[k - 1])
    }
}

/// Double each floating-point type in place.
pub fn tuple(val_types: &[ValType]) -> (r: Vec<ValType>)
    requires
        val_types@.len() <= 0x7FFF_FFFF,
    ensures
        r@ == pairs(val_types@, val_types@.len()),
        r@.len() <= 2 * val_types@.len(),
{
    let mut types = Vec::new();
    let mut i: usize = 0;
    while i < val_types.len()
        invariant
            i <= val_types@.len(),
            types@ == pairs(val_types@, i as nat),
            types@.len() <= 2 * i,
        decreases val_types@.len() - i,
    {
        let ty = val_types[i];
        types.push(ty);
        if ty.is_float() {
            types.push(ty);
        }
        i += 1;
    }
    types
}

/// Where the first `k` parameters and the scratch locals stand: a floating-point parameter
/// takes two locals, its tangent behind it.
pub open spec fn local_index(params: Seq<ValType>, k: nat) -> nat
    decreases k,
{
    if k == 0 {
        0
    } else {
        local_index(params, (k - 1) as nat) + if params[k - 1].spec_is_float() {
            2nat
        } else {
            1nat
        }
    }
}

pub proof fn lemma_local_index_bound(params: Seq<ValType>, k: nat)
    ensures
        local_index(params, k) <= 2 * k,
    decreases k,
{
    if k > 0 {
        lemma_local_index_bound(params, (k - 1) as nat);
    }
}

/// What stands for an instruction in a function with the parameters `params`.
///
/// The product of two values `x` and `y` with the tangents `dx` and `dy` has the tangent
/// `dx * y + x * dy`; the four go through the scratch locals behind the parameters.
pub open spec fn op(params: Seq<ValType>, op: Instruction) -> Result<Seq<Instruction>, Error> {
    match op {
        Instruction::End => Ok(seq![Instruction::End]),
        Instruction::LocalGet(i) => if i >= params.len() {
            Err(Error::Malformed(Malformed::LocalIndex))
        } else {
            let index = local_index(params, i as nat) as u32;
            if params[i as int].spec_is_float() {
                Ok(seq![Instruction::LocalGet(index), Instruction::LocalGet((index + 1) as u32)])
            } else {
                Ok(seq![Instruction::LocalGet(index)])
            }
        },
        Instruction::FloatBinary(Width::W64, FloatBinOp::Mul) => {
            let x = local_index(params, params.len()) as u32;
            let dx = (x + 1) as u32;
            let y = (x + 2) as u32;
            let dy = (x + 3) as u32;
            let mul = Instruction::FloatBinary(Width::W64, FloatBinOp::Mul);
            Ok(
                seq![
                    Instruction::LocalSet(dy),
                    Instruction::LocalSet(y),
                    Instruction::LocalSet(dx),
                    Instruction::LocalTee(x),
                    Instruction::LocalGet(y),
                    mul,
                    Instruction::LocalGet(dx),
                    Instruction::LocalGet(y),
                    mul,
                    Instruction::LocalGet(x),
                    Instruction::LocalGet(dy),
                    mul,
                    Instruction::FloatBinary(Width::W64, FloatBinOp::Add),
                ],
            )
        },
        _ => Err(Error::Unsupported(Feature::Instruction)),
    }
}

/// What stands for the first `k` instructions, or the first error on the way.
pub open spec fn ops(params: Seq<ValType>, code: Seq<Instruction>, k: nat) -> Result<
    Seq<Instruction>,
    Error,
>
    decreases k,
{
    if k == 0 {
        Ok(Seq::empty())
    } else {
        match ops(params, code, (k - 1) as nat) {
            Err(e) => Err(e),
            Ok(done) => match op(params, code[k - 1]) {
                Err(e) => Err(e),
                Ok(next) => Ok(done + next),
            },
        }
    }
}

pub proof fn lemma_ops_err(params: Seq<ValType>, code: Seq<Instruction>, k: nat, n: nat)
    requires
        k <= n,
        ops(params, code, k) is Err,
    ensures
        ops(params, code, n) == ops(params, code, k),
    decreases n,
{
    if k < n {
        lemma_ops_err(params, code, k, (n - 1) as nat);
    }
}

/// The function that computes the results of a function and their tangents: it has four
/// scratch locals for 64-bit floating-point numbers.
pub open spec fn spec_function(
    params: Seq<ValType>,
    locals: Seq<(u32, ValType)>,
    code: Seq<Instruction>,
) -> Result<(Seq<(u32, ValType)>, Seq<Instruction>), Error> {
    if locals.len() != 0 {
        Err(Error::Unsupported(Feature::Locals))
    } else if params.len() > 0x7FFF_FFF0 {
        Err(Error::Malformed(Malformed::TooLarge))
    } else {
        match ops(params, code, code.len()) {
            Err(e) => Err(e),
            Ok(done) => Ok((seq![(4u32, ValType::F64)], done)),
        }
    }
}

/// The transformation of one function.
pub struct Func {
    local_types: Vec<ValType>,
    local_indices: Vec<u32>,
    tmp_f64: (u32, u32, u32, u32),
    body: Function,
}

impl Func {
    /// The indices are those of the parameters, and the scratch locals stand behind them.
    pub closed spec fn wf(&self) -> bool {
        &&& self.local_types@.len() <= 0x7FFF_FFF0
        &&& self.local_indices@.len() == self.local_types@.len()
        &&& forall|i: int|
            0 <= i < self.local_types@.len() ==> (#[trigger] self.local_indices@[i])
                == local_index(self.local_types@, i as nat)
        &&& self.tmp_f64.0 == local_index(self.local_types@, self.local_types@.len())
        &&& self.tmp_f64.1 == self.tmp_f64.0 + 1
        &&& self.tmp_f64.2 == self.tmp_f64.0 + 2
        &&& self.tmp_f64.3 == self.tmp_f64.0 + 3
    }

    /// The parameters of the function.
    pub closed spec fn params(&self) -> Seq<ValType> {
        self.local_types@
    }

    /// The instructions written so far.
    pub closed spec fn code(&self) -> Seq<Instruction> {
        self.body.code@
    }

    /// The locals of the function under construction.
    pub closed spec fn locals(&self) -> Seq<(u32, ValType)> {
        self.body.locals@
    }

    /// Begin the transformation of a function with the parameters `params`.
    pub fn new(params: &[ValType]) -> (r: Self)
        requires
            params@.len() <= 0x7FFF_FFF0,
        ensures
            r.wf(),
            r.params() == params@,
            r.code() == Seq::<Instruction>::empty(),
            r.locals() == seq![(4u32, ValType::F64)],
    {
        let mut local_types = Vec::new();
        let mut local_indices: Vec<u32> = Vec::new();
        let mut local_index: u32 = 0;
        let mut i: usize = 0;
        while i < params.len()
            invariant
                i <= params@.len() <= 0x7FFF_FFF0,
                local_types@ == params@.take(i as int),
                local_indices@.len() == i,
                local_index == self::local_index(params@, i as nat),
                local_index <= 2 * i,
                forall|j: int|
                    0 <= j < i ==> (#[trigger] local_indices@[j]) == self::local_index(
                        params@,
                        j as nat,
                    ),
            decreases params@.len() - i,
        {
            local_indices.push(local_index);
            local_types.push(params[i]);
            if params[i].is_float() {
                local_index += 2;
            } else {
                local_index += 1;
            }
            i += 1;
            assert(local_types@ =~= params@.take(i as int));
        }
        assert(params@.take(params@.len() as int) =~= params@);
        let mut locals = Vec::new();
        locals.push((4, ValType::F64));
        Func {
            local_types,
            local_indices,
            tmp_f64: (local_index, local_index + 1, local_index + 2, local_index + 3),
            body: Function { locals, code: Vec::new() },
        }
    }

    fn local_type(&self, index: u32) -> (r: ValType)
        requires
            self.wf(),
            index < self.params().len(),
        ensures
            r == self.params()[index as int],
    {
        self.local_types[index as usize]
    }

    fn local_index(&self, index: u32) -> (r: u32)
        requires
            self.wf(),
            index < self.params().len(),
        ensures
            r == local_index(self.params(), index as nat),
            r < 0xFFFF_FFE0,
    {
        proof {
            lemma_local_index_bound(self.local_types@, index as nat);
        }
        self.local_indices[index as usize]
    }

    /// Process an instruction.
    pub fn op(&mut self, op: Instruction) -> (r: Result<(), Error>)
        requires
            old(self).wf(),
        ensures
            final(self).wf(),
            final(self).params() == old(self).params(),
            final(self).locals() == old(self).locals(),
            match self::op(old(self).params(), op) {
                Ok(code) => r is Ok && final(self).code() == old(self).code() + code,
                Err(e) => r == Err::<(), Error>(e) && final(self).code() == old(self).code(),
            },
    {
        match op {
            Instruction::End => {
                self.body.code.push(Instruction::End);
                assert(self.body.code@ =~= old(self).body.code@ + seq![Instruction::End]);
            },
            Instruction::LocalGet(local_index) => {
                if local_index as usize >= self.local_types.len() {
                    return Err(Error::Malformed(Malformed::LocalIndex));
                }
                let i = self.local_index(local_index);
                self.body.code.push(Instruction::LocalGet(i));
                if self.local_type(local_index).is_float() {
                    self.body.code.push(Instruction::LocalGet(i + 1));
                    assert(self.body.code@ =~= old(self).body.code@ + seq![
                        Instruction::LocalGet(i),
                        Instruction::LocalGet((i + 1) as u32),
                    ]);
                } else {
                    assert(self.body.code@ =~= old(self).body.code@ + seq![
                        Instruction::LocalGet(i),
                    ]);
                }
            },
            Instruction::FloatBinary(Width::W64, FloatBinOp::Mul) => {
                proof {
                    lemma_local_index_bound(self.local_types@, self.local_types@.len());
                }
                let (x, dx, y, dy) = self.tmp_f64;
                let mul = Instruction::FloatBinary(Width::W64, FloatBinOp::Mul);
                self.body.code.push(Instruction::LocalSet(dy));
                self.body.code.push(Instruction::LocalSet(y));
                self.body.code.push(Instruction::LocalSet(dx));
                self.body.code.push(Instruction::LocalTee(x));
                self.body.code.push(Instruction::LocalGet(y));
                self.body.code.push(mul);
                self.body.code.push(Instruction::LocalGet(dx));
                self.body.code.push(Instruction::LocalGet(y));
                self.body.code.push(mul);
                self.body.code.push(Instruction::LocalGet(x));
                self.body.code.push(Instruction::LocalGet(dy));
                self.body.code.push(mul);
                self.body.code.push(Instruction::FloatBinary(Width::W64, FloatBinOp::Add));
                assert(self.body.code@ =~= old(self).body.code@ + self::op(
                    old(self).params(),
                    op,
                )->Ok_0);
            },
            _ => {
                return Err(Error::Unsupported(Feature::Instruction));
            },
        }
        Ok(())
    }
}

/// Transform one function of a module.
pub fn function(params: &[ValType], body: &FunctionBody) -> (r: Result<Function, Error>)
    ensures
        match spec_function(params@, body.locals@, body.operators@) {
            Ok((locals, code)) => r is Ok && r->Ok_0.locals@ == locals && r->Ok_0.code@ == code,
            Err(e) => r == Err::<Function, Error>(e),
        },
{
    if body.locals.len() != 0 {
        return Err(Error::Unsupported(Feature::Locals));
    }
    if params.len() > 0x7FFF_FFF0 {
        return Err(Error::Malformed(Malformed::TooLarge));
    }
    let mut func = Func::new(params);
    let mut i: usize = 0;
    while i < body.operators.len()
        invariant
            i <= body.operators@.len(),
            body.locals@.len() == 0,
            params@.len() <= 0x7FFF_FFF0,
            func.wf(),
            func.params() == params@,
            func.locals() == seq![(4u32, ValType::F64)],
            ops(params@, body.operators@, i as nat) == Ok::<Seq<Instruction>, Error>(func.code()),
        decreases body.operators@.len() - i,
    {
        match func.op(body.operators[i]) {
            Ok(()) => {},
            Err(e) => {
                proof {
                    lemma_ops_err(params@, body.operators@, (i + 1) as nat, body.operators@.len());
                }
                return Err(e);
            },
        }
        i += 1;
    }
    Ok(func.body)
}

/// The error for what is too large.
pub open spec fn too_large<T>() -> Result<T, Error> {
    Err(Error::Malformed(Malformed::TooLarge))
}

/// The types that stand for the first `k` types of the source module, or the first error on
/// the way: in each every floating-point parameter and result is doubled in place.
pub open spec fn types_bytes(module: &Module, k: nat) -> Result<Seq<u8>, Error>
    decreases k,
{
    if k == 0 {
        Ok(Seq::empty())
    } else {
        match types_bytes(module, (k - 1) as nat) {
            Err(e) => Err(e),
            Ok(bytes) => {
                let params = module.types@[k - 1].params@;
                let results = module.types@[k - 1].results@;
                if params.len() > 0x7FFF_FFFF || results.len() > 0x7FFF_FFFF {
                    too_large()
                } else {
                    Ok(
                        bytes + func_type(
                            pairs(params, params.len()),
                            pairs(results, results.len()),
                        ),
                    )
                }
            },
        }
    }
}

pub proof fn lemma_types_err(module: &Module, k: nat, n: nat)
    requires
        k <= n,
        types_bytes(module, k) is Err,
    ensures
        types_bytes(module, n) == types_bytes(module, k),
    decreases n,
{
    if k < n {
        lemma_types_err(module, k, (n - 1) as nat);
    }
}

/// The contents of a section, which must not take more than `u32::MAX` bytes.
pub open spec fn sealed(count: nat, bytes: Result<Seq<u8>, Error>) -> Result<Seq<u8>, Error> {
    match bytes {
        Err(e) => Err(e),
        Ok(bytes) => if count > u32::MAX || items(count as u32, bytes).len() > u32::MAX {
            too_large()
        } else {
            Ok(items(count as u32, bytes))
        },
    }
}

fn seal(count: usize, bytes: Vec<u8>) -> (r: Result<Vec<u8>, Error>)
    ensures
        match sealed(count as nat, Ok(bytes@)) {
            Ok(contents) => r is Ok && r->Ok_0@ == contents,
            Err(e) => r == Err::<Vec<u8>, Error>(e),
        },
{
    if count > u32::MAX as usize {
        return Err(Error::Malformed(Malformed::TooLarge));
    }
    let mut out = Vec::new();
    leb128::write_u32(&mut out, count as u32);
    extend(&mut out, bytes.as_slice());
    if out.len() > u32::MAX as usize {
        return Err(Error::Malformed(Malformed::TooLarge));
    }
    Ok(out)
}

fn write_types(module: &Module) -> (r: Result<Vec<u8>, Error>)
    ensures
        match sealed(module.types@.len(), types_bytes(module, module.types@.len())) {
            Ok(contents) => r is Ok && r->Ok_0@ == contents,
            Err(e) => r == Err::<Vec<u8>, Error>(e),
        },
{
    let mut out = Vec::new();
    let mut i: usize = 0;
    while i < module.types.len()
        invariant
            i <= module.types@.len(),
            types_bytes(module, i as nat) == Ok::<Seq<u8>, Error>(out@),
        decreases module.types@.len() - i,
    {
        let ty = &module.types[i];
        if ty.params.len() > 0x7FFF_FFFF || ty.results.len() > 0x7FFF_FFFF {
            proof {
                lemma_types_err(module, (i + 1) as nat, module.types@.len());
            }
            return Err(Error::Malformed(Malformed::TooLarge));
        }
        let params = tuple(ty.params.as_slice());
        let results = tuple(ty.results.as_slice());
        write_func_type(&mut out, params.as_slice(), results.as_slice());
        i += 1;
    }
    seal(module.types.len(), out)
}

/// The type indices of the first `k` functions.
pub open spec fn functions_bytes(functions: Seq<u32>, k: nat) -> Seq<u8>
    decreases k,
{
    if k == 0 {
        Seq::empty()
    } else {
        functions_bytes(functions, (k - 1) as nat) + leb128::unsigned(functions[k - 1] as nat)
    }
}

fn write_functions(module: &Module) -> (r: Result<Vec<u8>, Error>)
    ensures
        match sealed(
            module.functions@.len(),
            Ok(functions_bytes(module.functions@, module.functions@.len())),
        ) {
            Ok(contents) => r is Ok && r->Ok_0@ == contents,
            Err(e) => r == Err::<Vec<u8>, Error>(e),
        },
{
    let mut out = Vec::new();
    let mut i: usize = 0;
    while i < module.functions.len()
        invariant
            i <= module.functions@.len(),
            out@ == functions_bytes(module.functions@, i as nat),
        decreases module.functions@.len() - i,
    {
        leb128::write_u32(&mut out, module.functions[i]);
        i += 1;
    }
    seal(module.functions.len(), out)
}

/// The first `k` exports, or the first error on the way.
pub open spec fn exports_bytes(exports: Seq<Export>, k: nat) -> Result<Seq<u8>, Error>
    decreases k,
{
    if k == 0 {
        Ok(Seq::empty())
    } else {
        match exports_bytes(exports, (k - 1) as nat) {
            Err(e) => Err(e),
            Ok(bytes) => if encode_utf8(exports[k - 1].name@).len() > u32::MAX {
                too_large()
            } else {
                Ok(
                    bytes + export(
                        encode_utf8(exports[k - 1].name@),
                        exports[k - 1].kind,
                        exports[k - 1].index,
                    ),
                )
            },
        }
    }
}

pub proof fn lemma_exports_err(exports: Seq<Export>, k: nat, n: nat)
    requires
        k <= n,
        exports_bytes(exports, k) is Err,
    ensures
        exports_bytes(exports, n) == exports_bytes(exports, k),
    decreases n,
{
    if k < n {
        lemma_exports_err(exports, k, (n - 1) as nat);
    }
}

fn write_exports(module: &Module) -> (r: Result<Vec<u8>, Error>)
    ensures
        match sealed(module.exports@.len(), exports_bytes(module.exports@, module.exports@.len())) {
            Ok(contents) => r is Ok && r->Ok_0@ == contents,
            Err(e) => r == Err::<Vec<u8>, Error>(e),
        },
{
    let mut out = Vec::new();
    let mut i: usize = 0;
    while i < module.exports.len()
        invariant
            i <= module.exports@.len(),
            exports_bytes(module.exports@, i as nat) == Ok::<Seq<u8>, Error>(out@),
        decreases module.exports@.len() - i,
    {
        let e = &module.exports[i];
        if !name_fits(e.name.as_str()) {
            proof {
                lemma_exports_err(module.exports@, (i + 1) as nat, module.exports@.len());
            }
            return Err(Error::Malformed(Malformed::TooLarge));
        }
        write_export(&mut out, e.name.as_str(), e.kind, e.index);
        i += 1;
    }
    seal(module.exports.len(), out)
}

/// The entry of the code section that stands for the body `j`.
pub open spec fn function_item(module: &Module, j: int) -> Result<Seq<u8>, Error> {
    if j >= module.functions@.len() {
        Err(Error::Malformed(Malformed::FunctionCount))
    } else if module.functions@[j] >= module.types@.len() {
        Err(Error::Malformed(Malformed::TypeIndex))
    } else {
        match spec_function(
            module.types@[module.functions@[j] as int].params@,
            module.code@[j].locals@,
            module.code@[j].operators@,
        ) {
            Err(e) => Err(e),
            Ok((locals, code)) => if body(locals, code).len() > u32::MAX {
                too_large()
            } else {
                Ok(sized(body(locals, code)))
            },
        }
    }
}

/// The entries that stand for the first `k` bodies, or the first error on the way.
pub open spec fn code_bytes(module: &Module, k: nat) -> Result<Seq<u8>, Error>
    decreases k,
{
    if k == 0 {
        Ok(Seq::empty())
    } else {
        match code_bytes(module, (k - 1) as nat) {
            Err(e) => Err(e),
            Ok(bytes) => match function_item(module, k - 1) {
                Err(e) => Err(e),
                Ok(item) => Ok(bytes + item),
            },
        }
    }
}

pub proof fn lemma_code_err(module: &Module, k: nat, n: nat)
    requires
        k <= n,
        code_bytes(module, k) is Err,
    ensures
        code_bytes(module, n) == code_bytes(module, k),
    decreases n,
{
    if k < n {
        lemma_code_err(module, k, (n - 1) as nat);
    }
}

fn write_function(module: &Module, j: usize, sink: &mut Vec<u8>) -> (r: Result<(), Error>)
    requires
        j < module.code@.len(),
    ensures
        match function_item(module, j as int) {
            Ok(item) => r is Ok && final(sink)@ == old(sink)@ + item,
            Err(e) => r == Err::<(), Error>(e),
        },
{
    if j >= module.functions.len() {
        return Err(Error::Malformed(Malformed::FunctionCount));
    }
    let typeidx = module.functions[j] as usize;
    if typeidx >= module.types.len() {
        return Err(Error::Malformed(Malformed::TypeIndex));
    }
    let transformed = match function(module.types[typeidx].params.as_slice(), &module.code[j]) {
        Ok(transformed) => transformed,
        Err(e) => {
            return Err(e);
        },
    };
    let bytes = function_body(&transformed);
    if bytes.len() > u32::MAX as usize {
        return Err(Error::Malformed(Malformed::TooLarge));
    }
    write_code(sink, bytes.as_slice());
    Ok(())
}

fn write_code_section(module: &Module) -> (r: Result<Vec<u8>, Error>)
    ensures
        match sealed(module.code@.len(), code_bytes(module, module.code@.len())) {
            Ok(contents) => r is Ok && r->Ok_0@ == contents,
            Err(e) => r == Err::<Vec<u8>, Error>(e),
        },
{
    let mut out = Vec::new();
    let mut j: usize = 0;
    while j < module.code.len()
        invariant
            j <= module.code@.len(),
            code_bytes(module, j as nat) == Ok::<Seq<u8>, Error>(out@),
        decreases module.code@.len() - j,
    {
        match write_function(module, j, &mut out) {
            Ok(()) => {},
            Err(e) => {
                proof {
                    lemma_code_err(module, (j + 1) as nat, module.code@.len());
                }
                return Err(e);
            },
        }
        j += 1;
    }
    seal(module.code.len(), out)
}

/// The transformed module, or why the module cannot be transformed: the first error of the
/// sections in their order. The sections are those of types, functions, exports and code.
pub open spec fn spec_transform(module: &Module) -> Result<Seq<u8>, Error> {
    match sealed(module.types@.len(), types_bytes(module, module.types@.len())) {
        Err(e) => Err(e),
        Ok(types) => match sealed(
            module.functions@.len(),
            Ok(functions_bytes(module.functions@, module.functions@.len())),
        ) {
            Err(e) => Err(e),
            Ok(functions) => match sealed(
                module.exports@.len(),
                exports_bytes(module.exports@, module.exports@.len()),
            ) {
                Err(e) => Err(e),
                Ok(exports) => match sealed(
                    module.code@.len(),
                    code_bytes(module, module.code@.len()),
                ) {
                    Err(e) => Err(e),
                    Ok(code) => Ok(
                        header() + section(1, types) + section(3, functions) + section(7, exports)
                            + section(10, code),
                    ),
                },
            },
        },
    }
}

/// Transform a module to compute derivatives in forward mode.
pub fn transform(module: &Module) -> (r: Result<Vec<u8>, Error>)
    ensures
        match spec_transform(module) {
            Ok(bytes) => r is Ok && r->Ok_0@ == bytes,
            Err(e) => r == Err::<Vec<u8>, Error>(e),
        },
{
    let types = match write_types(module) {
        Ok(done) => done,
        Err(e) => {
            return Err(e);
        },
    };
    let functions = match write_functions(module) {
        Ok(done) => done,
        Err(e) => {
            return Err(e);
        },
    };
    let exports = match write_exports(module) {
        Ok(done) => done,
        Err(e) => {
            return Err(e);
        },
    };
    let code = match write_code_section(module) {
        Ok(done) => done,
        Err(e) => {
            return Err(e);
        },
    };
    let mut out = module_header();
    write_section(&mut out, 1, types.as_slice());
    write_section(&mut out, 3, functions.as_slice());
    write_section(&mut out, 7, exports.as_slice());
    write_section(&mut out, 10, code.as_slice());
    Ok(out)
}

} // verus!
