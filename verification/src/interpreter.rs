//! The engine: it loads a list of instructions and runs the fetch-execute
//! loop on the machine's memory.

use vstd::prelude::*;
use vstd::string::StringExecFns;
use generational_arena::Arena;
use crate::arena::{
    code_free, code_get, code_id_at, code_insert, code_slots, code_with_capacity, first_slots,
};
use crate::error::{Fault, InterpreterError};
use crate::float::{compare_floats, compare_ints, Arith, Comparison};
use crate::id::Id;
use crate::instruction::{Instruction, InstructionView};
use crate::loader::{bindings, bound_part, loaded, stored, DEFAULT_THRESHOLD};
use crate::machine::{
    combine, int_result, is_unit, operation_of, Effect, Flow, Machine, Operation, Status,
};
use crate::text::{is_printer, rendering};
use crate::value::Value;
use crate::vm::VM;

verus! {

/// What the engine does after an instruction.
#[derive(Clone, Copy, Debug, PartialEq, Eq, Structural)]
pub enum InstructionResult {
    /// Go on with the next instruction in load order.
    Next,
    /// Go on with the instruction under the given identifier.
    Jump(Id),
    /// Stop.
    Stop,
}

impl View for InstructionResult {
    type V = Flow;

    open spec fn view(&self) -> Flow {
        match self {
            InstructionResult::Next => Flow::Next,
            InstructionResult::Jump(id) => Flow::Jump(id.slot as int),
            InstructionResult::Stop => Flow::Stop,
        }
    }
}

/// The content of the result of an instruction.
pub open spec fn outcome(r: Result<InstructionResult, InterpreterError>) -> Result<Flow, Fault> {
    match r {
        Ok(flow) => Ok(flow@),
        Err(error) => Err(error@),
    }
}

/// The content of the result of a run.
pub open spec fn verdict(r: Result<Id, InterpreterError>) -> Result<Id, Fault> {
    match r {
        Ok(id) => Ok(id),
        Err(error) => Err(error@),
    }
}

/// The execution context: the instruction pointer and the locals frames that
/// calls have pushed.
pub struct Frame {
    instr_ptr: Id,
    locals_stack: Vec<Vec<Id>>,
}

impl Frame {
    /// The identifier of the instruction to execute next.
    pub closed spec fn pointer(&self) -> Id {
        self.instr_ptr
    }

    /// The locals frames, innermost last.
    pub closed spec fn locals(&self) -> Seq<Seq<Id>> {
        self.locals_stack@.map_values(|frame: Vec<Id>| frame@)
    }

    /// Points the frame at the instruction under `id`.
    pub(crate) fn move_to(&mut self, id: Id)
        ensures
            final(self).pointer() == id,
            final(self).locals() == old(self).locals(),
    {
        self.instr_ptr = id;
    }
}

/// A label bound to the instruction that follows it.
pub struct Binding {
    name: String,
    target: Id,
}

/// The label table of the first `n` of `entries`: of two entries with one
/// name the later counts.
pub closed spec fn table(entries: Seq<Binding>, n: nat) -> Map<Seq<char>, int>
    decreases n,
{
    if n == 0 {
        Map::empty()
    } else {
        table(entries, (n - 1) as nat).insert(entries[n - 1].name@, entries[n - 1].target.slot as int)
    }
}

/// The engine. Its state as a value is its view, a [`Machine`].
///
/// Floating-point arithmetic and the text of floating-point values are not
/// part of the engine: it is built with a floating-point unit and a printer,
/// and calls them.
pub struct Interpreter<A, R> {
    vm: VM,
    instructions: Arena<Instruction>,
    labels: Vec<Binding>,
    frame: Option<Frame>,
    size: usize,
    unit: A,
    printer: R,
}

impl<A: Fn(Arith, u32, u32) -> u32, R: Fn(u32) -> String> View for Interpreter<A, R> {
    type V = Machine;

    closed spec fn view(&self) -> Machine {
        Machine {
            memory: self.vm@,
            code: Seq::new(self.size as nat, |i: int| code_slots(self.instructions)[i as usize].1@),
            labels: table(self.labels@, self.labels@.len()),
            ip: match self.frame {
                Some(frame) => Some(frame.instr_ptr.slot as int),
                None => None,
            },
            locals: match self.frame {
                Some(frame) => frame.locals(),
                None => Seq::empty(),
            },
        }
    }
}

impl<A: Fn(Arith, u32, u32) -> u32, R: Fn(u32) -> String> Interpreter<A, R> {
    /// The floating-point unit that the engine was built with.
    pub closed spec fn unit(&self) -> A {
        self.unit
    }

    /// The printer of floating-point values that the engine was built with.
    pub closed spec fn printer(&self) -> R {
        self.printer
    }

    /// `id` is the identifier of a stored instruction.
    pub closed spec fn holds(&self, id: Id) -> bool {
        id.slot < self.size && code_slots(self.instructions)[id.slot].0 == id.generation
    }

    /// The invariant of the instruction store, the label table and the frame:
    /// the instructions fill the first slots in load order, and the labels
    /// and the instruction pointer refer to stored instructions.
    pub closed spec fn store_inv(&self) -> bool {
        &&& forall|slot: usize| code_slots(self.instructions).contains_key(slot) <==> slot < self.size
        &&& forall|k: int| 0 <= k < self.labels@.len() ==> self.holds(#[trigger] self.labels@[k].target)
        &&& self.frame matches Some(frame) ==> self.holds(frame.instr_ptr)
        &&& self.frame is None ==> self.size == 0
    }

    /// The instructions, the labels, the instruction pointer, the unit and
    /// the printer are those of `before`.
    pub closed spec fn kept(&self, before: &Self) -> bool {
        &&& self.instructions == before.instructions
        &&& self.labels == before.labels
        &&& self.size == before.size
        &&& self.unit == before.unit
        &&& self.printer == before.printer
        &&& self.frame is Some == before.frame is Some
        &&& self.frame matches Some(frame) ==> frame.instr_ptr == before.frame.unwrap().instr_ptr
    }

    /// The engine is `before` after an instruction with the given effect and
    /// result: memory and locals are the effect's, the rest is as it was, an
    /// allocation took an identifier that was free, and a jump goes to a
    /// stored instruction.
    pub open spec fn follows(
        &self,
        before: &Self,
        effect: Effect,
        r: Result<InstructionResult, InterpreterError>,
    ) -> bool {
        &&& self.wf()
        &&& self.kept(before)
        &&& self@.memory == effect.memory
        &&& self@.locals == effect.locals
        &&& outcome(r) == effect.result
        &&& effect.allocated matches Some(id) ==> before@.memory.fresh(id)
        &&& r matches Ok(InstructionResult::Jump(id)) ==> self.holds(id)
    }

    /// The identifier that the last allocation took, where there was one: the
    /// top of the operand stack.
    pub open spec fn newest(&self) -> Id {
        self@.memory.stack.last()
    }

    /// The invariant of the engine between operations.
    pub open spec fn wf(&self) -> bool {
        &&& self.store_inv()
        &&& self.memory_wf()
        &&& is_unit(self.unit())
        &&& is_printer(self.printer())
    }

    /// The invariant of the engine's memory.
    pub closed spec fn memory_wf(&self) -> bool {
        self.vm.wf()
    }
}

/// The content of a list of instructions.
pub open spec fn program(input: Seq<Instruction>) -> Seq<InstructionView> {
    input.map_values(|instr: Instruction| instr@)
}

impl<A: Fn(Arith, u32, u32) -> u32, R: Fn(u32) -> String> Interpreter<A, R> {
    /// Loads `input`. Each instruction is stored in load order; each label
    /// marker binds its name to the next instruction that is stored, and a
    /// marker that no instruction follows binds nothing. An empty input gives
    /// no engine.
    pub fn new(input: Vec<Instruction>, unit: A, printer: R) -> (r: Option<Self>)
        requires
            is_unit(unit),
            is_printer(printer),
        ensures
            (r is None) == (input@.len() == 0),
            r matches Some(it) ==> {
                &&& it.wf()
                &&& it@ == loaded(program(input@))
                &&& it.unit() == unit
                &&& it.printer() == printer
            },
    {
        let n = input.len();
        if n == 0 {
            return None;
        }
        let ghost prog = program(input@);
        let mut instructions = code_with_capacity(n);
        let mut labels: Vec<Binding> = Vec::new();
        let mut pending: Vec<String> = Vec::new();
        let mut first: Option<Id> = None;
        let mut size: usize = 0;
        let mut i: usize = 0;
        proof {
            assert(code_free(instructions) =~= first_slots(n).skip(0));
        }
        while i < n
            invariant
                n == input@.len(),
                prog == program(input@),
                i <= n,
                size <= i,
                forall|slot: usize| code_slots(instructions).contains_key(slot) <==> slot < size,
                code_free(instructions) == first_slots(n).skip(size as int),
                size == stored(prog, i as nat).len(),
                forall|s: int|
                    0 <= s < size ==> (#[trigger] code_slots(instructions)[s as usize]).1@ == stored(
                        prog,
                        i as nat,
                    )[s],
                table(labels@, labels@.len()) == bindings(prog, bound_part(prog, i as nat)),
                bound_part(prog, i as nat) + pending@.len() == i,
                forall|k: int|
                    0 <= k < pending@.len() ==> prog[bound_part(prog, i as nat) + k]
                        == InstructionView::Label(#[trigger] pending@[k]@),
                forall|j: nat|
                    bound_part(prog, i as nat) <= j <= i ==> (#[trigger] stored(prog, j)).len() == size,
                forall|k: int|
                    0 <= k < labels@.len() ==> (#[trigger] labels@[k]).target.slot < size
                        && code_slots(instructions)[labels@[k].target.slot].0
                        == labels@[k].target.generation,
                (size == 0) == (first is None),
                first matches Some(id) ==> id.slot == 0 && code_slots(instructions)[0usize].0
                    == id.generation,
            decreases n - i,
        {
            let instr = input[i].clone();
            let ghost part = bound_part(prog, i as nat);
            let ghost slots0 = code_slots(instructions);
            proof {
                assert(prog[i as int] == input@[i as int]@);
                assert(instr@ == prog[i as int]);
            }
            match instr {
                Instruction::Label(name) => {
                    proof {
                        assert(!prog[i as int].is_real());
                        assert(bound_part(prog, (i + 1) as nat) == part);
                        assert(stored(prog, (i + 1) as nat) == stored(prog, i as nat));
                    }
                    pending.push(name);
                },
                other => {
                    proof {
                        assert(prog[i as int].is_real());
                        assert(first_slots(n).skip(size as int)[0] == size);
                    }
                    let id = code_insert(&mut instructions, other);
                    proof {
                        assert(id.slot == size);
                        assert(code_free(instructions) =~= first_slots(n).skip(size + 1));
                    }
                    if first.is_none() {
                        first = Some(id);
                    }
                    let mut k: usize = 0;
                    while k < pending.len()
                        invariant
                            k <= pending@.len(),
                            part + pending@.len() == i,
                            i < n,
                            n == prog.len(),
                            id.slot == size,
                            code_slots(instructions)[id.slot].0 == id.generation,
                            table(labels@, labels@.len()) == bindings(prog, (part + k) as nat),
                            forall|k: int|
                                0 <= k < pending@.len() ==> prog[part + k] == InstructionView::Label(
                                    #[trigger] pending@[k]@,
                                ),
                            forall|j: nat| part <= j <= i ==> (#[trigger] stored(prog, j)).len() == size,
                            forall|k: int|
                                0 <= k < labels@.len() ==> (#[trigger] labels@[k]).target.slot < size
                                    + 1 && code_slots(instructions)[labels@[k].target.slot].0
                                    == labels@[k].target.generation,
                        decreases pending@.len() - k,
                    {
                        let ghost before = labels@;
                        let name = pending[k].clone();
                        labels.push(Binding { name, target: id });
                        proof {
                            let at = (part + k) as nat;
                            assert(prog[at as int] == InstructionView::Label(pending@[k as int]@));
                            assert(stored(prog, at).len() == size);
                            assert(labels@.len() == before.len() + 1);
                            assert(labels@[before.len() as int].name@ == pending@[k as int]@);
                            lemma_table_prefix(labels@, before, before.len());
                            assert(bindings(prog, (at + 1) as nat) == bindings(prog, at).insert(
                                pending@[k as int]@,
                                size as int,
                            ));
                        }
                        k += 1;
                    }
                    pending.clear();
                    proof {
                        assert(bound_part(prog, (i + 1) as nat) == i + 1);
                        assert(bindings(prog, (i + 1) as nat) == bindings(prog, i as nat));
                        assert(stored(prog, (i + 1) as nat) == stored(prog, i as nat).push(prog[i as int]));
                        assert forall|s: int| 0 <= s < size + 1 implies (#[trigger] code_slots(
                            instructions,
                        )[s as usize]).1@ == stored(prog, (i + 1) as nat)[s] by {
                            if s < size {
                                assert(code_slots(instructions)[s as usize] == slots0[s as usize]);
                            }
                        }
                    }
                    size += 1;
                },
            }
            i += 1;
        }
        let frame = match first {
            Some(instr_ptr) => Some(Frame { locals_stack: Vec::new(), instr_ptr }),
            None => None,
        };
        let it = Interpreter {
            vm: VM::new(DEFAULT_THRESHOLD),
            instructions,
            labels,
            frame,
            size,
            unit,
            printer,
        };
        proof {
            assert(it@.code =~= stored(prog, n as nat));
            if frame is Some {
                assert(frame.unwrap().locals() =~= Seq::empty());
            }
            assert(it@.locals =~= Seq::empty());
            assert(it@.memory == loaded(prog).memory);
            assert(it@ == loaded(prog));
        }
        Some(it)
    }
}

/// The table of the first `n` entries does not depend on the entries beyond.
proof fn lemma_table_prefix(long: Seq<Binding>, short: Seq<Binding>, n: nat)
    requires
        n <= short.len() <= long.len(),
        forall|k: int| 0 <= k < short.len() ==> long[k] == short[k],
    ensures
        table(long, n) == table(short, n),
    decreases n,
{
    if n > 0 {
        lemma_table_prefix(long, short, (n - 1) as nat);
    }
}

/// Integer arithmetic, wrapping around.
fn int_arith(op: Arith, a: i32, b: i32) -> (r: i32)
    ensures
        r == int_result(op, a, b),
{
    match op {
        Arith::Add => a.wrapping_add(b),
        Arith::Sub => a.wrapping_sub(b),
        Arith::Mul => a.wrapping_mul(b),
    }
}

/// The operation that an instruction stands for, if it is one on two values.
fn operation(instr: &Instruction) -> (op: Option<Operation>)
    ensures
        op == operation_of(instr@),
{
    match instr {
        Instruction::IAdd => Some(Operation::OnInts(Arith::Add)),
        Instruction::ISub => Some(Operation::OnInts(Arith::Sub)),
        Instruction::IMul => Some(Operation::OnInts(Arith::Mul)),
        Instruction::FAdd => Some(Operation::OnFloats(Arith::Add)),
        Instruction::FSub => Some(Operation::OnFloats(Arith::Sub)),
        Instruction::FMul => Some(Operation::OnFloats(Arith::Mul)),
        Instruction::CEq => Some(Operation::Compare(Comparison::Eq)),
        Instruction::CNe => Some(Operation::Compare(Comparison::Ne)),
        Instruction::CLt => Some(Operation::Compare(Comparison::Lt)),
        Instruction::CLe => Some(Operation::Compare(Comparison::Le)),
        Instruction::CGt => Some(Operation::Compare(Comparison::Gt)),
        Instruction::CGe => Some(Operation::Compare(Comparison::Ge)),
        _ => None,
    }
}

impl<A: Fn(Arith, u32, u32) -> u32, R: Fn(u32) -> String> Interpreter<A, R> {
    /// The instruction that `name` is bound to, if it is bound.
    fn lookup(&self, name: &String) -> (r: Option<Id>)
        requires
            self.store_inv(),
        ensures
            r is Some == self@.labels.contains_key(name@),
            r matches Some(id) ==> self.holds(id) && id.slot as int == self@.labels[name@],
    {
        let ghost all = self.labels@;
        let mut k: usize = self.labels.len();
        while k > 0
            invariant
                k <= all.len(),
                all == self.labels@,
                self.store_inv(),
                table(all, all.len()).contains_key(name@) == table(all, k as nat).contains_key(name@),
                table(all, all.len()).contains_key(name@) ==> table(all, all.len())[name@] == table(
                    all,
                    k as nat,
                )[name@],
            decreases k,
        {
            k -= 1;
            if self.labels[k].name == *name {
                return Some(self.labels[k].target);
            }
        }
        None
    }

    /// The engine's memory.
    pub fn memory(&self) -> (vm: &VM)
        ensures
            vm@ == self@.memory,
            self.wf() ==> vm.wf(),
    {
        &self.vm
    }

    /// Switches collection on or off, as [`VM::gc`] does.
    pub fn gc(&mut self, on: bool)
        requires
            old(self).wf(),
        ensures
            final(self).wf(),
            final(self).kept(old(self)),
            final(self)@ == (Machine { memory: old(self)@.memory.set_gc(on), ..old(self)@ }),
    {
        self.vm.gc(on);
    }

    /// The canonical text of the object under `id`, as [`VM::display`] gives
    /// it with the engine's printer.
    pub fn display(&self, id: Id) -> (r: Option<String>)
        requires
            self.wf(),
        ensures
            r matches Some(text) ==> rendering(
                self@.memory.heap,
                self.printer(),
                id,
                self@.memory.heap.len(),
            ) == Some(text@),
            r is None ==> rendering(self@.memory.heap, self.printer(), id, self@.memory.heap.len())
                is None,
    {
        self.vm.display(id, &self.printer)
    }

    /// The error of an instruction that met the operand `id` of the wrong
    /// kind.
    fn mismatch(&self, id: Id) -> (error: InterpreterError)
        requires
            self.wf(),
        ensures
            error@ == match rendering(
                self@.memory.heap,
                self.printer(),
                id,
                self@.memory.heap.len(),
            ) {
                Some(text) => Fault::ValueMismatch(text),
                None => Fault::Rendering,
            },
    {
        match self.vm.display(id, &self.printer) {
            Some(text) => InterpreterError::ValueMismatch(text),
            None => InterpreterError::Rendering,
        }
    }

    /// The error of an operation that met the operands `a` and `b` of the
    /// wrong kinds.
    fn mismatch_of_two(&self, a: Id, b: Id) -> (error: InterpreterError)
        requires
            self.wf(),
        ensures
            error@ == match (
                rendering(self@.memory.heap, self.printer(), a, self@.memory.heap.len()),
                rendering(self@.memory.heap, self.printer(), b, self@.memory.heap.len()),
            ) {
                (Some(left), Some(right)) => Fault::ValueMismatch(left + ", "@ + right),
                _ => Fault::Rendering,
            },
    {
        let left = match self.vm.display(a, &self.printer) {
            Some(text) => text,
            None => {
                return InterpreterError::Rendering;
            },
        };
        let right = match self.vm.display(b, &self.printer) {
            Some(text) => text,
            None => {
                return InterpreterError::Rendering;
            },
        };
        let mut text = left;
        text.append(", ");
        text.append(right.as_str());
        InterpreterError::ValueMismatch(text)
    }

    /// Pops the two operands of an operation: the second one first.
    fn get_binop(&mut self) -> (r: Result<(Id, Id), InterpreterError>)
        requires
            old(self).wf(),
        ensures
            final(self).wf(),
            final(self).kept(old(self)),
            final(self)@.locals == old(self)@.locals,
            old(self)@.memory.stack.len() >= 2 ==> r is Ok && r.unwrap().0 == old(
                self,
            )@.memory.stack[old(self)@.memory.stack.len() - 2] && r.unwrap().1 == old(
                self,
            )@.memory.stack.last() && final(self)@.memory == old(self)@.memory.pop_many(2),
            old(self)@.memory.stack.len() < 2 ==> r is Err && r.unwrap_err()@ == Fault::StackUnderflow
                && final(self)@.memory == old(self)@.memory.drained(),
    {
        let b = match self.vm.pop() {
            Some(b) => b,
            None => {
                proof {
                    assert(self@.memory.stack =~= Seq::empty());
                }
                return Err(InterpreterError::StackUnderflow);
            },
        };
        let a = match self.vm.pop() {
            Some(a) => a,
            None => {
                proof {
                    assert(self@.memory.stack =~= Seq::empty());
                }
                return Err(InterpreterError::StackUnderflow);
            },
        };
        proof {
            assert(self@.memory.stack =~= old(self)@.memory.stack.take(
                old(self)@.memory.stack.len() - 2,
            ));
        }
        Ok((a, b))
    }
}

impl<A: Fn(Arith, u32, u32) -> u32, R: Fn(u32) -> String> Interpreter<A, R> {
    /// The value of an operation on the objects under `a` and `b`: `Ok(None)`
    /// where they are not both of the kind that the operation takes, an error
    /// where one of them is not live.
    fn compute(&self, op: Operation, a: Id, b: Id) -> (r: Result<Option<Value>, InterpreterError>)
        requires
            self.wf(),
        ensures
            r is Err == (!self@.memory.heap.contains_key(a) || !self@.memory.heap.contains_key(b)),
            r matches Err(error) ==> error@ == Fault::InvalidReference,
            r matches Ok(value) ==> match combine(
                self.unit(),
                op,
                self@.memory.heap[a].value,
                self@.memory.heap[b].value,
            ) {
                Some(expected) => value is Some && value.unwrap()@ == expected,
                None => value is None,
            },
    {
        let lhs = match self.vm.get(a) {
            Some(object) => object,
            None => {
                return Err(InterpreterError::InvalidReference);
            },
        };
        let rhs = match self.vm.get(b) {
            Some(object) => object,
            None => {
                return Err(InterpreterError::InvalidReference);
            },
        };
        let value = match (op, &lhs.value, &rhs.value) {
            (Operation::OnInts(f), Value::Int(x), Value::Int(y)) => Some(
                Value::Int(int_arith(f, *x, *y)),
            ),
            (Operation::OnFloats(f), Value::Float(x), Value::Float(y)) => {
                let bits = (self.unit)(f, *x, *y);
                Some(Value::Float(bits))
            },
            (Operation::Compare(c), Value::Int(x), Value::Int(y)) => Some(
                Value::Int(if compare_ints(c, *x, *y) { 1 } else { 0 }),
            ),
            (Operation::Compare(c), Value::Float(x), Value::Float(y)) => Some(
                Value::Int(if compare_floats(c, *x, *y) { 1 } else { 0 }),
            ),
            _ => None,
        };
        Ok(value)
    }

    /// An operation on the two topmost operands.
    fn operate(&mut self, op: Operation) -> (r: Result<InstructionResult, InterpreterError>)
        requires
            old(self).wf(),
        ensures
            final(self).follows(
                old(self),
                old(self)@.operate(op, old(self).unit(), old(self).printer(), final(self).newest()),
                r,
            ),
    {
        let (a, b) = match self.get_binop() {
            Ok(pair) => pair,
            Err(error) => {
                return Err(error);
            },
        };
        let value = match self.compute(op, a, b) {
            Ok(value) => value,
            Err(error) => {
                return Err(error);
            },
        };
        match value {
            Some(value) => {
                self.vm.push_value(value);
                Ok(InstructionResult::Next)
            },
            None => Err(self.mismatch_of_two(a, b)),
        }
    }

    /// Stores `value` as a new object and pushes it.
    fn store(&mut self, value: Value) -> (r: Result<InstructionResult, InterpreterError>)
        requires
            old(self).wf(),
        ensures
            final(self).follows(
                old(self),
                old(self)@.stored(old(self)@.memory, value@, final(self).newest()),
                r,
            ),
    {
        self.vm.push_value(value);
        Ok(InstructionResult::Next)
    }

    /// `PushStruct(n)`.
    fn push_struct(&mut self, n: usize) -> (r: Result<InstructionResult, InterpreterError>)
        requires
            old(self).wf(),
        ensures
            final(self).follows(old(self), old(self)@.push_struct(n, final(self).newest()), r),
    {
        match self.vm.take(n) {
            Some(fields) => {
                self.vm.push_value(Value::Struct(fields));
                Ok(InstructionResult::Next)
            },
            None => Err(InterpreterError::StackUnderflow),
        }
    }

    /// `GetStruct(i)`.
    fn get_struct(&mut self, i: usize) -> (r: Result<InstructionResult, InterpreterError>)
        requires
            old(self).wf(),
        ensures
            final(self).follows(old(self), old(self)@.get_struct(i, old(self).printer()), r),
    {
        let s = match self.vm.pop() {
            Some(s) => s,
            None => {
                return Err(InterpreterError::StackUnderflow);
            },
        };
        let field = match self.vm.get(s) {
            None => {
                return Err(InterpreterError::InvalidReference);
            },
            Some(object) => match &object.value {
                Value::Struct(fields) => {
                    if i < fields.len() {
                        Some(fields[i])
                    } else {
                        return Err(InterpreterError::IndexOutOfBounds);
                    }
                },
                _ => None,
            },
        };
        match field {
            Some(field) => {
                self.vm.push(field);
                Ok(InstructionResult::Next)
            },
            None => Err(self.mismatch(s)),
        }
    }

    /// `GetLocal(i)`.
    fn get_local(&mut self, i: usize) -> (r: Result<InstructionResult, InterpreterError>)
        requires
            old(self).wf(),
        ensures
            final(self).follows(old(self), old(self)@.get_local(i), r),
    {
        let local = match &self.frame {
            None => {
                return Err(InterpreterError::StackUnderflow);
            },
            Some(frame) => {
                let depth = frame.locals_stack.len();
                if depth == 0 {
                    return Err(InterpreterError::StackUnderflow);
                }
                let locals = &frame.locals_stack[depth - 1];
                proof {
                    assert(frame.locals().last() == locals@);
                }
                if i < locals.len() {
                    locals[i]
                } else {
                    return Err(InterpreterError::IndexOutOfBounds);
                }
            },
        };
        self.vm.push(local);
        Ok(InstructionResult::Next)
    }

    /// `Call(name, n)`.
    fn call(&mut self, name: String, n: usize) -> (r: Result<InstructionResult, InterpreterError>)
        requires
            old(self).wf(),
        ensures
            final(self).follows(old(self), old(self)@.call(name@, n), r),
    {
        let target = match self.lookup(&name) {
            Some(target) => target,
            None => {
                return Err(InterpreterError::UnresolvedLabel(name));
            },
        };
        let locals = match self.vm.take(n) {
            Some(locals) => locals,
            None => {
                return Err(InterpreterError::StackUnderflow);
            },
        };
        match &mut self.frame {
            Some(frame) => {
                let ghost before = frame.locals();
                frame.locals_stack.push(locals);
                proof {
                    assert(frame.locals() =~= before.push(locals@));
                }
            },
            None => {},
        }
        Ok(InstructionResult::Jump(target))
    }

    /// `Jump(name)`.
    fn jump(&mut self, name: String) -> (r: Result<InstructionResult, InterpreterError>)
        requires
            old(self).wf(),
        ensures
            final(self).follows(old(self), old(self)@.jump(name@), r),
    {
        match self.lookup(&name) {
            Some(target) => Ok(InstructionResult::Jump(target)),
            None => Err(InterpreterError::UnresolvedLabel(name)),
        }
    }

    /// `JmpCmp(name)`.
    fn jump_if(&mut self, name: String) -> (r: Result<InstructionResult, InterpreterError>)
        requires
            old(self).wf(),
        ensures
            final(self).follows(old(self), old(self)@.jump_if(name@, old(self).printer()), r),
    {
        let target = match self.lookup(&name) {
            Some(target) => target,
            None => {
                return Err(InterpreterError::UnresolvedLabel(name));
            },
        };
        let top = match self.vm.pop() {
            Some(top) => top,
            None => {
                return Err(InterpreterError::StackUnderflow);
            },
        };
        let taken = match self.vm.get(top) {
            None => {
                return Err(InterpreterError::InvalidReference);
            },
            Some(object) => match &object.value {
                Value::Int(1) => Some(true),
                Value::Int(0) => Some(false),
                _ => None,
            },
        };
        match taken {
            Some(true) => Ok(InstructionResult::Jump(target)),
            Some(false) => Ok(InstructionResult::Next),
            None => Err(self.mismatch(top)),
        }
    }

    /// Executes one instruction on the machine. The effect is that of
    /// [`Machine::execute`], with the top of the operand stack afterwards as
    /// the identifier of the allocation, where there was one.
    pub fn execute(&mut self, instr: Instruction) -> (r: Result<InstructionResult, InterpreterError>)
        requires
            old(self).wf(),
        ensures
            final(self).follows(
                old(self),
                old(self)@.execute(instr@, old(self).unit(), old(self).printer(), final(self).newest()),
                r,
            ),
    {
        match operation(&instr) {
            Some(op) => {
                return self.operate(op);
            },
            None => {},
        }
        match instr {
            Instruction::ConstInt(v) => self.store(Value::Int(v)),
            Instruction::ConstFloat(bits) => self.store(Value::Float(bits)),
            Instruction::PushStruct(n) => self.push_struct(n),
            Instruction::GetStruct(i) => self.get_struct(i),
            Instruction::GetLocal(i) => self.get_local(i),
            Instruction::Call(name, n) => self.call(name, n),
            Instruction::Jump(name) => self.jump(name),
            Instruction::JmpCmp(name) => self.jump_if(name),
            Instruction::Return => Ok(InstructionResult::Stop),
            _ => Ok(InstructionResult::Next),
        }
    }
}

/// How a run stands after a step.
#[derive(Debug)]
pub enum Progress {
    /// There is more to execute.
    Running,
    /// The run has ended.
    Halted,
    /// The run has failed.
    Failed(InterpreterError),
}

impl View for Progress {
    type V = Status;

    open spec fn view(&self) -> Status {
        match self {
            Progress::Running => Status::Running,
            Progress::Halted => Status::Halted,
            Progress::Failed(error) => Status::Failed(error@),
        }
    }
}

/// The result of a run that came to `end` with `status`: the top of the
/// operand stack after a halt, the failure after a failure, and the step
/// limit where the run was still going.
pub open spec fn settle(end: Machine, status: Status) -> Result<Id, Fault> {
    match status {
        Status::Halted => end.result(),
        Status::Failed(fault) => Err(fault),
        Status::Running => Err(Fault::StepLimit),
    }
}

impl<A: Fn(Arith, u32, u32) -> u32, R: Fn(u32) -> String> Interpreter<A, R> {
    /// One step of the fetch-execute loop: that of [`Machine::step`], with
    /// the top of the operand stack afterwards as the identifier of the
    /// allocation, where there was one.
    pub fn step(&mut self) -> (progress: Progress)
        requires
            old(self).wf(),
        ensures
            final(self).wf(),
            final(self).unit() == old(self).unit(),
            final(self).printer() == old(self).printer(),
            old(self)@.admits(old(self).unit(), old(self).printer(), final(self).newest()),
            old(self)@.step(old(self).unit(), old(self).printer(), final(self).newest()) == (
                final(self)@,
                progress@,
            ),
    {
        let (instr, slot) = match &self.frame {
            None => {
                return Progress::Halted;
            },
            Some(frame) => match code_get(&self.instructions, frame.instr_ptr) {
                None => {
                    return Progress::Halted;
                },
                Some(instr) => (instr.clone(), frame.instr_ptr.slot),
            },
        };
        let ghost before = self@;
        proof {
            assert(before.fetch() == Some(instr@));
        }
        let flow = match self.execute(instr) {
            Ok(flow) => flow,
            Err(error) => {
                return Progress::Failed(error);
            },
        };
        let target = match flow {
            InstructionResult::Stop => {
                return Progress::Halted;
            },
            InstructionResult::Jump(target) => target,
            InstructionResult::Next => {
                if slot == usize::MAX {
                    return Progress::Halted;
                }
                match code_id_at(&self.instructions, slot + 1) {
                    Some(next) => next,
                    None => {
                        return Progress::Halted;
                    },
                }
            },
        };
        match &mut self.frame {
            Some(frame) => {
                frame.move_to(target);
            },
            None => {},
        }
        Progress::Running
    }

    /// Runs the fetch-execute loop for at most `budget` steps. The run ends
    /// when an instruction fails, with its error; when `Return` is executed
    /// or no instruction is left, with the top of the operand stack, or stack
    /// underflow where the stack is empty; and when the budget is used up,
    /// with the step limit.
    pub fn run_for(&mut self, budget: u64) -> (r: Result<Id, InterpreterError>)
        requires
            old(self).wf(),
        ensures
            final(self).wf(),
            final(self).unit() == old(self).unit(),
            final(self).printer() == old(self).printer(),
            exists|n: nat, status: Status|
                {
                    &&& n <= budget
                    &&& #[trigger] old(self)@.runs_to(
                        old(self).unit(),
                        old(self).printer(),
                        n,
                        final(self)@,
                        status,
                    )
                    &&& status == Status::Running ==> n == budget
                    &&& verdict(r) == settle(final(self)@, status)
                },
    {
        let ghost start = self@;
        let ghost unit = self.unit();
        let ghost printer = self.printer();
        let mut done: u64 = 0;
        while done < budget
            invariant
                done <= budget,
                self.wf(),
                self.unit() == unit,
                self.printer() == printer,
                start == old(self)@,
                unit == old(self).unit(),
                printer == old(self).printer(),
                start.runs_to(unit, printer, done as nat, self@, Status::Running),
            decreases budget - done,
        {
            let ghost mid = self@;
            let progress = self.step();
            done += 1;
            proof {
                let fresh = self.newest();
                assert(mid.step(unit, printer, fresh) == (self@, progress@));
                assert(start.runs_to(unit, printer, (done - 1) as nat, mid, Status::Running));
                assert(start.runs_to(unit, printer, done as nat, self@, progress@));
            }
            match progress {
                Progress::Running => {},
                Progress::Halted => {
                    return match self.vm.top() {
                        Some(id) => Ok(id),
                        None => Err(InterpreterError::StackUnderflow),
                    };
                },
                Progress::Failed(error) => {
                    return Err(error);
                },
            }
        }
        Err(InterpreterError::StepLimit)
    }

    /// Runs the fetch-execute loop to its end, as [`Self::run_for`] does with
    /// the largest budget there is.
    pub fn run(&mut self) -> (r: Result<Id, InterpreterError>)
        requires
            old(self).wf(),
        ensures
            final(self).wf(),
            final(self).unit() == old(self).unit(),
            final(self).printer() == old(self).printer(),
            exists|n: nat, status: Status|
                {
                    &&& n <= u64::MAX
                    &&& #[trigger] old(self)@.runs_to(
                        old(self).unit(),
                        old(self).printer(),
                        n,
                        final(self)@,
                        status,
                    )
                    &&& status == Status::Running ==> n == u64::MAX
                    &&& verdict(r) == settle(final(self)@, status)
                },
    {
        self.run_for(u64::MAX)
    }
}

} // verus!
