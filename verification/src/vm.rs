//! Programs of a small register machine with two parameters, and the module that computes what
//! such a program computes: one function, `main`, whose locals are the registers.

use vstd::prelude::*;
use vstd::utf8::encode_utf8;

use crate::binary::{header, items, module_header, section, sized, write_name, write_section};
use crate::helper::Function;
use crate::instruction::{FloatBinOp, FloatUnOp, Instruction, Width};
use crate::leb128;
use crate::module::{ExportKind, IndirectNaming, Naming};
use crate::names::{
    indirect, indirect_map, namings, subsection, write_indirect_map, write_subsection,
};
use crate::sections::{body, export, func_type, function_body, write_export, write_func_type};
use crate::util::ValType;

verus! {

/// The number of parameters of a program.
pub const PARAMS: u32 = 2;

/// What a line of a program asks for.
#[derive(Clone, Copy, Debug)]
pub enum Op {
    /// A parameter.
    Var,
    /// A constant, a 32-bit floating-point number given by its bits.
    Const(u32),
    Square,
    Neg,
    Sqrt,
    Add,
    Sub,
    Mul,
    Min,
    Max,
}

/// A line of a program: the name of what it defines, the operation, and the names of the
/// operands.
#[derive(Debug)]
pub struct Line {
    pub name: String,
    pub op: Op,
    pub a: Option<String>,
    pub b: Option<String>,
}

/// Why a program cannot be turned into a module.
#[derive(Clone, Copy, Debug, PartialEq, Eq, Structural)]
pub enum Fault {
    /// An operation lacks an operand.
    MissingOperand,
    /// An operand names neither a node nor a parameter.
    UnknownName,
    /// The program does not have two parameters.
    Parameters,
    /// An index or a length does not fit in 32 bits.
    TooLarge,
}

/// Names and the locals that stand for them, in the order in which the names came up.
pub type Table = Seq<(Seq<char>, u32)>;

/// Whether `i` is the first place of a name in a table.
pub open spec fn is_first(table: Table, name: Seq<char>, i: int) -> bool {
    &&& 0 <= i < table.len()
    &&& table[i].0 == name
    &&& forall|j: int| 0 <= j < i ==> (#[trigger] table[j]).0 != name
}

/// Whether a table holds a name.
pub open spec fn holds(table: Table, name: Seq<char>) -> bool {
    exists|i: int| is_first(table, name, i)
}

/// The first place of a name that a table holds.
pub open spec fn place(table: Table, name: Seq<char>) -> int {
    choose|i: int| is_first(table, name, i)
}

/// The local that stands for a name.
pub open spec fn lookup(table: Table, name: Seq<char>) -> Option<u32> {
    if holds(table, name) {
        Some(table[place(table, name)].1)
    } else {
        None
    }
}

/// The table after a local is given for a name: a name that the table holds has the new local
/// from then on, and the table does not grow.
pub open spec fn put(table: Table, name: Seq<char>, local: u32) -> Table {
    if holds(table, name) {
        table.update(place(table, name), (name, local))
    } else {
        table.push((name, local))
    }
}

/// A name has one first place.
pub proof fn lemma_place(table: Table, name: Seq<char>, i: int)
    requires
        is_first(table, name, i),
    ensures
        holds(table, name),
        place(table, name) == i,
{
    let p = place(table, name);
    assert(is_first(table, name, p));
    if p < i {
        assert(table[p].0 != name);
    } else if i < p {
        assert(table[i].0 != name);
    }
}

/// The text of an operand, if there is one.
pub open spec fn text(operand: Option<String>) -> Option<Seq<char>> {
    match operand {
        Some(name) => Some(name@),
        None => None,
    }
}

/// What has been read of a program.
pub struct Machine {
    /// The parameters and their locals.
    pub params: Table,
    /// The nodes and their locals.
    pub nodes: Table,
    /// The names of the locals, in the order of the lines.
    pub names: Seq<(u32, Seq<char>)>,
    /// The instructions so far.
    pub code: Seq<Instruction>,
}

impl Machine {
    /// Nothing is read.
    pub open spec fn start() -> Machine {
        Machine {
            params: Seq::empty(),
            nodes: Seq::empty(),
            names: Seq::empty(),
            code: Seq::empty(),
        }
    }

    /// The local of an operand: that of the node of this name, or else of the parameter.
    pub open spec fn get(self, operand: Option<Seq<char>>) -> Result<u32, Fault> {
        match operand {
            None => Err(Fault::MissingOperand),
            Some(name) => match lookup(self.nodes, name) {
                Some(local) => Ok(local),
                None => match lookup(self.params, name) {
                    Some(local) => Ok(local),
                    None => Err(Fault::UnknownName),
                },
            },
        }
    }

    /// The instructions that apply an operation with one operand and keep the result in the
    /// local `i`.
    pub open spec fn unary(self, i: u32, a: Option<Seq<char>>, op: Instruction) -> Result<
        Seq<Instruction>,
        Fault,
    > {
        match self.get(a) {
            Err(e) => Err(e),
            Ok(x) => Ok(seq![Instruction::LocalGet(x), op, Instruction::LocalSet(i)]),
        }
    }

    /// The instructions that apply an operation with two operands and keep the result in the
    /// local `i`.
    pub open spec fn binary(
        self,
        i: u32,
        a: Option<Seq<char>>,
        b: Option<Seq<char>>,
        op: FloatBinOp,
    ) -> Result<Seq<Instruction>, Fault> {
        match self.get(a) {
            Err(e) => Err(e),
            Ok(x) => match self.get(b) {
                Err(e) => Err(e),
                Ok(y) => Ok(
                    seq![
                        Instruction::LocalGet(x),
                        Instruction::LocalGet(y),
                        Instruction::FloatBinary(Width::W32, op),
                        Instruction::LocalSet(i),
                    ],
                ),
            },
        }
    }

    /// The instructions for the node of a line, whose result the local `i` keeps.
    pub open spec fn node(self, i: u32, op: Op, a: Option<Seq<char>>, b: Option<Seq<char>>)
        -> Result<Seq<Instruction>, Fault> {
        match op {
            Op::Var => Ok(Seq::empty()),
            Op::Const(bits) => Ok(seq![Instruction::F32Const(bits), Instruction::LocalSet(i)]),
            Op::Square => match self.get(a) {
                Err(e) => Err(e),
                Ok(x) => Ok(
                    seq![
                        Instruction::LocalGet(x),
                        Instruction::LocalGet(x),
                        Instruction::FloatBinary(Width::W32, FloatBinOp::Mul),
                        Instruction::LocalSet(i),
                    ],
                ),
            },
            Op::Neg => self.unary(i, a, Instruction::FloatUnary(Width::W32, FloatUnOp::Neg)),
            Op::Sqrt => self.unary(i, a, Instruction::FloatUnary(Width::W32, FloatUnOp::Sqrt)),
            Op::Add => self.binary(i, a, b, FloatBinOp::Add),
            Op::Sub => self.binary(i, a, b, FloatBinOp::Sub),
            Op::Mul => self.binary(i, a, b, FloatBinOp::Mul),
            Op::Min => self.binary(i, a, b, FloatBinOp::Min),
            Op::Max => self.binary(i, a, b, FloatBinOp::Max),
        }
    }

    /// What is read after one more line. A parameter takes the next local of the parameters.
    /// A node takes the next local behind the parameters, and is known under its name before
    /// its operands are looked up.
    pub open spec fn line(self, line: &Line) -> Result<Machine, Fault> {
        match line.op {
            Op::Var => if self.params.len() > u32::MAX {
                Err(Fault::TooLarge)
            } else {
                let i = self.params.len() as u32;
                Ok(
                    Machine {
                        params: put(self.params, line.name@, i),
                        names: self.names.push((i, line.name@)),
                        ..self
                    },
                )
            },
            op => if PARAMS + self.nodes.len() > u32::MAX {
                Err(Fault::TooLarge)
            } else {
                let i = (PARAMS + self.nodes.len()) as u32;
                let named = Machine {
                    nodes: put(self.nodes, line.name@, i),
                    names: self.names.push((i, line.name@)),
                    ..self
                };
                match named.node(i, op, text(line.a), text(line.b)) {
                    Err(e) => Err(e),
                    Ok(code) => Ok(Machine { code: self.code + code, ..named }),
                }
            },
        }
    }

    /// The module for what is read: the type of `main`, the function, its export, its body,
    /// which ends with the local of the last node, and the names of its locals.
    pub open spec fn module(self) -> Result<Seq<u8>, Fault> {
        if self.params.len() != PARAMS {
            Err(Fault::Parameters)
        } else if PARAMS + self.nodes.len() > u32::MAX {
            Err(Fault::TooLarge)
        } else {
            let function = body(
                seq![(self.nodes.len() as u32, ValType::F32)],
                self.code + seq![
                    Instruction::LocalGet((PARAMS + self.nodes.len() - 1) as u32),
                    Instruction::End,
                ],
            );
            match subsection(2, indirect_map(seq![(0u32, self.names)])) {
                Err(_) => Err(Fault::TooLarge),
                Ok(locals) => if function.len() > u32::MAX || items(1, sized(function)).len()
                    > u32::MAX || (sized(encode_utf8("name"@)) + locals).len() > u32::MAX {
                    Err(Fault::TooLarge)
                } else {
                    Ok(
                        header() + section(
                            1,
                            items(
                                1,
                                func_type(seq![ValType::F32, ValType::F32], seq![ValType::F32]),
                            ),
                        ) + section(3, items(1, leb128::unsigned(0))) + section(
                            7,
                            items(1, export(encode_utf8("main"@), ExportKind::Func, 0)),
                        ) + section(10, items(1, sized(function))) + section(
                            0,
                            sized(encode_utf8("name"@)) + locals,
                        ),
                    )
                },
            }
        }
    }
}

/// What is read after the first `k` lines of a program, or the first fault on the way.
pub open spec fn read(lines: Seq<Line>, k: nat) -> Result<Machine, Fault>
    decreases k,
{
    if k == 0 {
        Ok(Machine::start())
    } else {
        match read(lines, (k - 1) as nat) {
            Err(e) => Err(e),
            Ok(machine) => machine.line(&lines[k - 1]),
        }
    }
}

pub proof fn lemma_read_err(lines: Seq<Line>, k: nat, n: nat)
    requires
        k <= n,
        read(lines, k) is Err,
    ensures
        read(lines, n) == read(lines, k),
    decreases n,
{
    if k < n {
        lemma_read_err(lines, k, (n - 1) as nat);
    }
}

/// The module for a program, or why there is none.
pub open spec fn spec_to_wasm(lines: Seq<Line>) -> Result<Seq<u8>, Fault> {
    match read(lines, lines.len()) {
        Err(e) => Err(e),
        Ok(machine) => machine.module(),
    }
}

/// The names and locals of a list.
pub open spec fn table(list: Seq<(String, u32)>) -> Table {
    Seq::new(list.len(), |i: int| (list[i].0@, list[i].1))
}

/// The first place of a name in a list, if the list holds it.
fn find(list: &Vec<(String, u32)>, name: &str) -> (r: Option<usize>)
    ensures
        match r {
            Some(i) => is_first(table(list@), name@, i as int),
            None => !holds(table(list@), name@),
        },
{
    let key = String::from_str(name);
    let mut i: usize = 0;
    while i < list.len()
        invariant
            i <= list@.len(),
            key@ == name@,
            forall|j: int| 0 <= j < i ==> (#[trigger] table(list@)[j]).0 != name@,
        decreases list@.len() - i,
    {
        if list[i].0 == key {
            assert(table(list@)[i as int].0 == name@);
            return Some(i);
        }
        assert(table(list@)[i as int].0 != name@);
        i += 1;
    }
    assert forall|p: int| !is_first(table(list@), name@, p) by {
        if 0 <= p < list@.len() {
            assert(table(list@)[p].0 != name@);
        }
    }
    None
}

/// Give a local for a name.
fn insert(list: &mut Vec<(String, u32)>, name: &str, local: u32)
    ensures
        table(final(list)@) == put(table(old(list)@), name@, local),
{
    match find(list, name) {
        Some(i) => {
            proof {
                lemma_place(table(list@), name@, i as int);
            }
            list.set(i, (String::from_str(name), local));
            assert(table(list@) =~= put(table(old(list)@), name@, local));
        },
        None => {
            list.push((String::from_str(name), local));
            assert(table(list@) =~= put(table(old(list)@), name@, local));
        },
    }
}

/// The local that stands for a name.
fn local_of(list: &Vec<(String, u32)>, name: &str) -> (r: Option<u32>)
    ensures
        r == lookup(table(list@), name@),
{
    match find(list, name) {
        Some(i) => {
            proof {
                lemma_place(table(list@), name@, i as int);
            }
            Some(list[i].1)
        },
        None => None,
    }
}

/// A program as far as it is read.
struct Reader {
    params: Vec<(String, u32)>,
    nodes: Vec<(String, u32)>,
    names: Vec<Naming>,
    code: Vec<Instruction>,
}

impl View for Reader {
    type V = Machine;

    closed spec fn view(&self) -> Machine {
        Machine {
            params: table(self.params@),
            nodes: table(self.nodes@),
            names: namings(self.names@),
            code: self.code@,
        }
    }
}

impl Reader {
    fn new() -> (r: Self)
        ensures
            r@ == Machine::start(),
    {
        let r = Reader {
            params: Vec::new(),
            nodes: Vec::new(),
            names: Vec::new(),
            code: Vec::new(),
        };
        assert(r@.params =~= Seq::empty());
        assert(r@.nodes =~= Seq::empty());
        assert(r@.names =~= Seq::empty());
        r
    }

    fn get(&self, operand: &Option<String>) -> (r: Result<u32, Fault>)
        ensures
            r == self@.get(text(*operand)),
    {
        match operand {
            None => Err(Fault::MissingOperand),
            Some(name) => match local_of(&self.nodes, name.as_str()) {
                Some(local) => Ok(local),
                None => match local_of(&self.params, name.as_str()) {
                    Some(local) => Ok(local),
                    None => Err(Fault::UnknownName),
                },
            },
        }
    }

    fn name(&mut self, i: u32, name: &str)
        ensures
            final(self)@ == (Machine { names: old(self)@.names.push((i, name@)), ..old(self)@ }),
    {
        self.names.push(Naming { index: i, name: String::from_str(name) });
        assert(namings(self.names@) =~= namings(old(self).names@).push((i, name@)));
    }

    fn unary(&mut self, i: u32, a: &Option<String>, op: Instruction) -> (r: Result<(), Fault>)
        ensures
            match old(self)@.unary(i, text(*a), op) {
                Ok(code) => r is Ok && final(self)@ == (Machine {
                    code: old(self)@.code + code,
                    ..old(self)@
                }),
                Err(e) => r == Err::<(), Fault>(e),
            },
    {
        let x = match self.get(a) {
            Ok(x) => x,
            Err(e) => {
                return Err(e);
            },
        };
        self.code.push(Instruction::LocalGet(x));
        self.code.push(op);
        self.code.push(Instruction::LocalSet(i));
        assert(self.code@ =~= old(self).code@ + old(self)@.unary(i, text(*a), op)->Ok_0);
        Ok(())
    }

    fn binary(&mut self, i: u32, a: &Option<String>, b: &Option<String>, op: FloatBinOp) -> (r:
        Result<(), Fault>)
        ensures
            match old(self)@.binary(i, text(*a), text(*b), op) {
                Ok(code) => r is Ok && final(self)@ == (Machine {
                    code: old(self)@.code + code,
                    ..old(self)@
                }),
                Err(e) => r == Err::<(), Fault>(e),
            },
    {
        let x = match self.get(a) {
            Ok(x) => x,
            Err(e) => {
                return Err(e);
            },
        };
        let y = match self.get(b) {
            Ok(y) => y,
            Err(e) => {
                return Err(e);
            },
        };
        self.code.push(Instruction::LocalGet(x));
        self.code.push(Instruction::LocalGet(y));
        self.code.push(Instruction::FloatBinary(Width::W32, op));
        self.code.push(Instruction::LocalSet(i));
        assert(self.code@ =~= old(self).code@ + old(self)@.binary(i, text(*a), text(*b), op)->Ok_0);
        Ok(())
    }

    fn node(&mut self, i: u32, op: Op, a: &Option<String>, b: &Option<String>) -> (r: Result<
        (),
        Fault,
    >)
        ensures
            match old(self)@.node(i, op, text(*a), text(*b)) {
                Ok(code) => r is Ok && final(self)@ == (Machine {
                    code: old(self)@.code + code,
                    ..old(self)@
                }),
                Err(e) => r == Err::<(), Fault>(e),
            },
    {
        match op {
            Op::Var => {
                assert(self.code@ =~= old(self).code@ + Seq::<Instruction>::empty());
                Ok(())
            },
            Op::Const(bits) => {
                self.code.push(Instruction::F32Const(bits));
                self.code.push(Instruction::LocalSet(i));
                assert(self.code@ =~= old(self).code@ + seq![
                    Instruction::F32Const(bits),
                    Instruction::LocalSet(i),
                ]);
                Ok(())
            },
            Op::Square => {
                let x = match self.get(a) {
                    Ok(x) => x,
                    Err(e) => {
                        return Err(e);
                    },
                };
                self.code.push(Instruction::LocalGet(x));
                self.code.push(Instruction::LocalGet(x));
                self.code.push(Instruction::FloatBinary(Width::W32, FloatBinOp::Mul));
                self.code.push(Instruction::LocalSet(i));
                assert(self.code@ =~= old(self).code@ + seq![
                    Instruction::LocalGet(x),
                    Instruction::LocalGet(x),
                    Instruction::FloatBinary(Width::W32, FloatBinOp::Mul),
                    Instruction::LocalSet(i),
                ]);
                Ok(())
            },
            Op::Neg => self.unary(i, a, Instruction::FloatUnary(Width::W32, FloatUnOp::Neg)),
            Op::Sqrt => self.unary(i, a, Instruction::FloatUnary(Width::W32, FloatUnOp::Sqrt)),
            Op::Add => self.binary(i, a, b, FloatBinOp::Add),
            Op::Sub => self.binary(i, a, b, FloatBinOp::Sub),
            Op::Mul => self.binary(i, a, b, FloatBinOp::Mul),
            Op::Min => self.binary(i, a, b, FloatBinOp::Min),
            Op::Max => self.binary(i, a, b, FloatBinOp::Max),
        }
    }

    fn line(&mut self, line: &Line) -> (r: Result<(), Fault>)
        ensures
            match old(self)@.line(line) {
                Ok(machine) => r is Ok && final(self)@ == machine,
                Err(e) => r == Err::<(), Fault>(e),
            },
    {
        match line.op {
            Op::Var => {
                if self.params.len() > u32::MAX as usize {
                    return Err(Fault::TooLarge);
                }
                let i = self.params.len() as u32;
                insert(&mut self.params, line.name.as_str(), i);
                self.name(i, line.name.as_str());
                Ok(())
            },
            op => {
                if self.nodes.len() > (u32::MAX - PARAMS) as usize {
                    return Err(Fault::TooLarge);
                }
                let i = PARAMS + self.nodes.len() as u32;
                insert(&mut self.nodes, line.name.as_str(), i);
                self.name(i, line.name.as_str());
                self.node(i, op, &line.a, &line.b)
            },
        }
    }

    /// The module for the program.
    fn finish(self) -> (r: Result<Vec<u8>, Fault>)
        ensures
            match self@.module() {
                Ok(bytes) => r is Ok && r->Ok_0@ == bytes,
                Err(e) => r == Err::<Vec<u8>, Fault>(e),
            },
    {
        if self.params.len() != PARAMS as usize {
            return Err(Fault::Parameters);
        }
        if self.nodes.len() > (u32::MAX - PARAMS) as usize {
            return Err(Fault::TooLarge);
        }
        let ghost machine = self@;
        let Reader { nodes, names, code, .. } = self;
        let count = nodes.len() as u32;
        let mut code = code;
        code.push(Instruction::LocalGet(PARAMS + count - 1));
        code.push(Instruction::End);
        assert(code@ =~= machine.code + seq![
            Instruction::LocalGet((PARAMS + machine.nodes.len() - 1) as u32),
            Instruction::End,
        ]);
        let mut entries = Vec::new();
        entries.push((count, ValType::F32));
        assert(entries@ =~= seq![(machine.nodes.len() as u32, ValType::F32)]);
        let function = function_body(&Function { locals: entries, code });
        let mut list = Vec::new();
        list.push(IndirectNaming { index: 0, names });
        assert(indirect(list@) =~= seq![(0u32, machine.names)]);
        let mut map = Vec::new();
        match write_indirect_map(&mut map, list.as_slice()) {
            Ok(()) => {},
            Err(_) => {
                return Err(Fault::TooLarge);
            },
        }
        assert(map@ =~= indirect_map(seq![(0u32, machine.names)])->Ok_0);
        let mut named = Vec::new();
        proof {
            reveal_strlit("name");
            reveal_strlit("main");
            vstd::string::is_ascii_spec_bytes("name");
            vstd::string::is_ascii_spec_bytes("main");
        }
        write_name(&mut named, "name");
        match write_subsection(&mut named, 2, map) {
            Ok(()) => {},
            Err(_) => {
                return Err(Fault::TooLarge);
            },
        }
        assert(named@ =~= sized(encode_utf8("name"@)) + subsection(
            2,
            indirect_map(seq![(0u32, machine.names)]),
        )->Ok_0);
        if function.len() > u32::MAX as usize {
            return Err(Fault::TooLarge);
        }
        let mut bodies = Vec::new();
        leb128::write_u32(&mut bodies, 1);
        crate::sections::write_code(&mut bodies, function.as_slice());
        assert(bodies@ =~= items(1, sized(function@)));
        if bodies.len() > u32::MAX as usize || named.len() > u32::MAX as usize {
            return Err(Fault::TooLarge);
        }
        let mut types = Vec::new();
        leb128::write_u32(&mut types, 1);
        let params = [ValType::F32, ValType::F32];
        let results = [ValType::F32];
        write_func_type(&mut types, &params, &results);
        assert(params@ =~= seq![ValType::F32, ValType::F32]);
        assert(results@ =~= seq![ValType::F32]);
        assert(types@ =~= items(
            1,
            func_type(seq![ValType::F32, ValType::F32], seq![ValType::F32]),
        ));
        let mut functions = Vec::new();
        leb128::write_u32(&mut functions, 1);
        leb128::write_u32(&mut functions, 0);
        assert(functions@ =~= items(1, leb128::unsigned(0)));
        let mut exports = Vec::new();
        leb128::write_u32(&mut exports, 1);
        write_export(&mut exports, "main", ExportKind::Func, 0);
        assert(exports@ =~= items(1, export(encode_utf8("main"@), ExportKind::Func, 0)));
        // The three sections take a few bytes each.
        assert(types@.len() <= 16 && functions@.len() <= 16 && exports@.len() <= 16) by {
            reveal_with_fuel(crate::sections::codes, 3);
        }
        let mut out = module_header();
        write_section(&mut out, 1, types.as_slice());
        write_section(&mut out, 3, functions.as_slice());
        write_section(&mut out, 7, exports.as_slice());
        write_section(&mut out, 10, bodies.as_slice());
        write_section(&mut out, 0, named.as_slice());
        Ok(out)
    }
}

/// Turn a program into a module that computes what the program computes: the function `main`
/// takes the two parameters and returns the value of the last node.
pub fn to_wasm(lines: &[Line]) -> (r: Result<Vec<u8>, Fault>)
    ensures
        match spec_to_wasm(lines@) {
            Ok(bytes) => r is Ok && r->Ok_0@ == bytes,
            Err(e) => r == Err::<Vec<u8>, Fault>(e),
        },
{
    let mut reader = Reader::new();
    let mut i: usize = 0;
    while i < lines.len()
        invariant
            i <= lines@.len(),
            read(lines@, i as nat) == Ok::<Machine, Fault>(reader@),
        decreases lines@.len() - i,
    {
        match reader.line(&lines[i]) {
            Ok(()) => {},
            Err(e) => {
                proof {
                    lemma_read_err(lines@, (i + 1) as nat, lines@.len());
                }
                return Err(e);
            },
        }
        i += 1;
    }
    reader.finish()
}

} // verus!
