//! The engine as a mathematical function: what one instruction, and one
//! step of the fetch-execute loop, does to the state of the machine.

use vstd::prelude::*;
use crate::error::Fault;
use crate::float::{float_holds, int_holds, Arith, Comparison};
use crate::id::Id;
use crate::instruction::InstructionView;
use crate::memory::Memory;
use crate::text::rendering;
use crate::value::ValueView;

verus! {

/// What the engine does after an instruction.
pub enum Flow {
    /// Go on with the next instruction in load order.
    Next,
    /// Go on with the instruction at the given position.
    Jump(int),
    /// Stop.
    Stop,
}

/// How the run stands after a step.
pub enum Status {
    /// There is more to execute.
    Running,
    /// The run has ended: by `Return`, or because no instruction was left.
    Halted,
    /// The run has failed.
    Failed(Fault),
}

/// What an operation on two values computes.
#[derive(Clone, Copy, Debug, PartialEq, Eq, Structural)]
pub enum Operation {
    /// Arithmetic on two integers.
    OnInts(Arith),
    /// Arithmetic on two floating-point values.
    OnFloats(Arith),
    /// A comparison of two integers or of two floating-point values.
    Compare(Comparison),
}

/// The `i32` that is congruent to `x` modulo 2^32.
pub open spec fn wrap(x: int) -> i32 {
    let low = x % 0x1_0000_0000;
    if low > i32::MAX {
        (low - 0x1_0000_0000) as i32
    } else {
        low as i32
    }
}

/// Integer arithmetic wraps around.
pub open spec fn int_result(op: Arith, a: i32, b: i32) -> i32 {
    match op {
        Arith::Add => wrap(a + b),
        Arith::Sub => wrap(a - b),
        Arith::Mul => wrap(a * b),
    }
}

/// The result that a floating-point unit gives for an operation.
pub open spec fn float_result<A: Fn(Arith, u32, u32) -> u32>(unit: A, op: Arith, a: u32, b: u32) -> u32 {
    choose|r: u32| call_ensures(unit, (op, a, b), r)
}

/// A floating-point unit can be called on every operation and every pair of
/// bit patterns, and gives one result for each.
pub open spec fn is_unit<A: Fn(Arith, u32, u32) -> u32>(unit: A) -> bool {
    &&& forall|op: Arith, a: u32, b: u32| call_requires(unit, (op, a, b))
    &&& forall|op: Arith, a: u32, b: u32, r: u32, s: u32|
        call_ensures(unit, (op, a, b), r) && call_ensures(unit, (op, a, b), s) ==> r == s
}

/// The operation that an instruction stands for, if it is one on two values.
pub open spec fn operation_of(instr: InstructionView) -> Option<Operation> {
    match instr {
        InstructionView::IAdd => Some(Operation::OnInts(Arith::Add)),
        InstructionView::ISub => Some(Operation::OnInts(Arith::Sub)),
        InstructionView::IMul => Some(Operation::OnInts(Arith::Mul)),
        InstructionView::FAdd => Some(Operation::OnFloats(Arith::Add)),
        InstructionView::FSub => Some(Operation::OnFloats(Arith::Sub)),
        InstructionView::FMul => Some(Operation::OnFloats(Arith::Mul)),
        InstructionView::CEq => Some(Operation::Compare(Comparison::Eq)),
        InstructionView::CNe => Some(Operation::Compare(Comparison::Ne)),
        InstructionView::CLt => Some(Operation::Compare(Comparison::Lt)),
        InstructionView::CLe => Some(Operation::Compare(Comparison::Le)),
        InstructionView::CGt => Some(Operation::Compare(Comparison::Gt)),
        InstructionView::CGe => Some(Operation::Compare(Comparison::Ge)),
        _ => None,
    }
}

/// One for true, zero for false.
pub open spec fn truth(holds: bool) -> ValueView {
    ValueView::Int(if holds { 1i32 } else { 0i32 })
}

/// Whether two operands are both of the kind that an operation takes:
/// integers for integer arithmetic, floating-point values for
/// floating-point arithmetic, and two of either for a comparison.
pub open spec fn operands_fit(op: Operation, lhs: ValueView, rhs: ValueView) -> bool {
    match op {
        Operation::OnInts(_) => lhs is Int && rhs is Int,
        Operation::OnFloats(_) => lhs is Float && rhs is Float,
        Operation::Compare(_) => (lhs is Int && rhs is Int) || (lhs is Float && rhs is Float),
    }
}

/// The value of an operation on two operands, or `None` where the operands
/// are not both of the kind that the operation takes.
pub open spec fn combine<A: Fn(Arith, u32, u32) -> u32>(
    unit: A,
    op: Operation,
    lhs: ValueView,
    rhs: ValueView,
) -> Option<ValueView> {
    match (op, lhs, rhs) {
        (Operation::OnInts(f), ValueView::Int(a), ValueView::Int(b)) => Some(
            ValueView::Int(int_result(f, a, b)),
        ),
        (Operation::OnFloats(f), ValueView::Float(a), ValueView::Float(b)) => Some(
            ValueView::Float(float_result(unit, f, a, b)),
        ),
        (Operation::Compare(c), ValueView::Int(a), ValueView::Int(b)) => Some(
            truth(int_holds(c, a as int, b as int)),
        ),
        (Operation::Compare(c), ValueView::Float(a), ValueView::Float(b)) => Some(
            truth(float_holds(c, a, b)),
        ),
        _ => None,
    }
}

/// What an instruction leaves behind.
pub struct Effect {
    /// The memory afterwards.
    pub memory: Memory,
    /// The locals frames afterwards.
    pub locals: Seq<Seq<Id>>,
    /// How to go on, or why not.
    pub result: Result<Flow, Fault>,
    /// The identifier under which the instruction allocated, if it did.
    pub allocated: Option<Id>,
}

/// The state of the engine.
pub struct Machine {
    /// The heap and the operand stack.
    pub memory: Memory,
    /// The stored instructions, in load order.
    pub code: Seq<InstructionView>,
    /// The label table: the position in `code` that each bound name stands
    /// for.
    pub labels: Map<Seq<char>, int>,
    /// The position of the instruction to execute next, if there is one.
    pub ip: Option<int>,
    /// The locals frames, innermost last.
    pub locals: Seq<Seq<Id>>,
}

impl Machine {
    /// The instruction finished with `memory` and goes on with `flow`.
    pub open spec fn done(self, memory: Memory, flow: Flow) -> Effect {
        Effect { memory, locals: self.locals, result: Ok(flow), allocated: None }
    }

    /// The instruction failed and left `memory`.
    pub open spec fn failed(self, memory: Memory, fault: Fault) -> Effect {
        Effect { memory, locals: self.locals, result: Err(fault), allocated: None }
    }

    /// The instruction stored `value` under `fresh`, pushed it, and goes on
    /// with the next instruction.
    pub open spec fn stored(self, memory: Memory, value: ValueView, fresh: Id) -> Effect {
        Effect {
            memory: memory.allocate(value, fresh),
            locals: self.locals,
            result: Ok(Flow::Next),
            allocated: Some(fresh),
        }
    }

    /// The failure of an instruction that met the operand `id` of the wrong
    /// kind: a value mismatch with the operand's text.
    pub open spec fn mismatch<R: Fn(u32) -> String>(self, memory: Memory, printer: R, id: Id) -> Effect {
        match rendering(self.memory.heap, printer, id, self.memory.heap.len()) {
            Some(text) => self.failed(memory, Fault::ValueMismatch(text)),
            None => self.failed(memory, Fault::Rendering),
        }
    }

    /// The failure of an operation that met operands `a` and `b` of the
    /// wrong kinds: a value mismatch with both texts.
    pub open spec fn mismatch_of_two<R: Fn(u32) -> String>(
        self,
        memory: Memory,
        printer: R,
        a: Id,
        b: Id,
    ) -> Effect {
        match (
            rendering(self.memory.heap, printer, a, self.memory.heap.len()),
            rendering(self.memory.heap, printer, b, self.memory.heap.len()),
        ) {
            (Some(left), Some(right)) => self.failed(
                memory,
                Fault::ValueMismatch(left + ", "@ + right),
            ),
            _ => self.failed(memory, Fault::Rendering),
        }
    }

    /// An operation on the two topmost operands.
    pub open spec fn operate<A: Fn(Arith, u32, u32) -> u32, R: Fn(u32) -> String>(
        self,
        op: Operation,
        unit: A,
        printer: R,
        fresh: Id,
    ) -> Effect {
        let stack = self.memory.stack;
        let heap = self.memory.heap;
        if stack.len() < 2 {
            self.failed(self.memory.drained(), Fault::StackUnderflow)
        } else {
            let a = stack[stack.len() - 2];
            let b = stack[stack.len() - 1];
            let rest = self.memory.pop_many(2);
            if !heap.contains_key(a) || !heap.contains_key(b) {
                self.failed(rest, Fault::InvalidReference)
            } else {
                match combine(unit, op, heap[a].value, heap[b].value) {
                    Some(value) => self.stored(rest, value, fresh),
                    None => self.mismatch_of_two(rest, printer, a, b),
                }
            }
        }
    }

    /// `PushStruct(n)`: the topmost `n` operands become the fields of a new
    /// structure, the one pushed first being the first field.
    pub open spec fn push_struct(self, n: usize, fresh: Id) -> Effect {
        let stack = self.memory.stack;
        if stack.len() < n {
            self.failed(self.memory.drained(), Fault::StackUnderflow)
        } else {
            self.stored(
                self.memory.pop_many(n as int),
                ValueView::Struct(stack.skip(stack.len() - n)),
                fresh,
            )
        }
    }

    /// `GetStruct(i)`: the topmost operand, a structure, is replaced by its
    /// field `i`.
    pub open spec fn get_struct<R: Fn(u32) -> String>(self, i: usize, printer: R) -> Effect {
        let stack = self.memory.stack;
        let heap = self.memory.heap;
        if stack.len() == 0 {
            self.failed(self.memory, Fault::StackUnderflow)
        } else {
            let s = stack.last();
            let rest = self.memory.pop();
            if !heap.contains_key(s) {
                self.failed(rest, Fault::InvalidReference)
            } else {
                match heap[s].value {
                    ValueView::Struct(fields) => if i < fields.len() {
                        self.done(rest.push(fields[i as int]), Flow::Next)
                    } else {
                        self.failed(rest, Fault::IndexOutOfBounds)
                    },
                    _ => self.mismatch(rest, printer, s),
                }
            }
        }
    }

    /// `GetLocal(i)`: local `i` of the innermost frame is pushed.
    pub open spec fn get_local(self, i: usize) -> Effect {
        if self.locals.len() == 0 {
            self.failed(self.memory, Fault::StackUnderflow)
        } else if i < self.locals.last().len() {
            self.done(self.memory.push(self.locals.last()[i as int]), Flow::Next)
        } else {
            self.failed(self.memory, Fault::IndexOutOfBounds)
        }
    }

    /// `Call(name, n)`: the topmost `n` operands become a new locals frame,
    /// the one pushed first being local zero, and the engine jumps to the
    /// label.
    pub open spec fn call(self, name: Seq<char>, n: usize) -> Effect {
        let stack = self.memory.stack;
        if !self.labels.contains_key(name) {
            self.failed(self.memory, Fault::UnresolvedLabel(name))
        } else if stack.len() < n {
            self.failed(self.memory.drained(), Fault::StackUnderflow)
        } else {
            Effect {
                memory: self.memory.pop_many(n as int),
                locals: self.locals.push(stack.skip(stack.len() - n)),
                result: Ok(Flow::Jump(self.labels[name])),
                allocated: None,
            }
        }
    }

    /// `Jump(name)`: the engine jumps to the label.
    pub open spec fn jump(self, name: Seq<char>) -> Effect {
        if !self.labels.contains_key(name) {
            self.failed(self.memory, Fault::UnresolvedLabel(name))
        } else {
            self.done(self.memory, Flow::Jump(self.labels[name]))
        }
    }

    /// `JmpCmp(name)`: the topmost operand is popped; on the integer one the
    /// engine jumps to the label, on the integer zero it goes on.
    pub open spec fn jump_if<R: Fn(u32) -> String>(self, name: Seq<char>, printer: R) -> Effect {
        let stack = self.memory.stack;
        let heap = self.memory.heap;
        if !self.labels.contains_key(name) {
            self.failed(self.memory, Fault::UnresolvedLabel(name))
        } else if stack.len() == 0 {
            self.failed(self.memory, Fault::StackUnderflow)
        } else {
            let top = stack.last();
            let rest = self.memory.pop();
            if !heap.contains_key(top) {
                self.failed(rest, Fault::InvalidReference)
            } else if heap[top].value == ValueView::Int(1) {
                self.done(rest, Flow::Jump(self.labels[name]))
            } else if heap[top].value == ValueView::Int(0) {
                self.done(rest, Flow::Next)
            } else {
                self.mismatch(rest, printer, top)
            }
        }
    }

    /// What `instr` does to the machine, given the floating-point unit, the
    /// printer, and the identifier that an allocation would get.
    pub open spec fn execute<A: Fn(Arith, u32, u32) -> u32, R: Fn(u32) -> String>(
        self,
        instr: InstructionView,
        unit: A,
        printer: R,
        fresh: Id,
    ) -> Effect {
        match instr {
            InstructionView::ConstInt(v) => self.stored(self.memory, ValueView::Int(v), fresh),
            InstructionView::ConstFloat(bits) => self.stored(self.memory, ValueView::Float(bits), fresh),
            InstructionView::PushStruct(n) => self.push_struct(n, fresh),
            InstructionView::GetStruct(i) => self.get_struct(i, printer),
            InstructionView::GetLocal(i) => self.get_local(i),
            InstructionView::Label(_) => self.done(self.memory, Flow::Next),
            InstructionView::Call(name, n) => self.call(name, n),
            InstructionView::Jump(name) => self.jump(name),
            InstructionView::JmpCmp(name) => self.jump_if(name, printer),
            InstructionView::Return => self.done(self.memory, Flow::Stop),
            _ => self.operate(operation_of(instr).unwrap(), unit, printer, fresh),
        }
    }

    /// The instruction at the instruction pointer, if there is one.
    pub open spec fn fetch(self) -> Option<InstructionView> {
        match self.ip {
            Some(at) => if 0 <= at < self.code.len() {
                Some(self.code[at])
            } else {
                None
            },
            None => None,
        }
    }

    /// The machine with what an instruction left behind.
    pub open spec fn with(self, effect: Effect) -> Machine {
        Machine { memory: effect.memory, locals: effect.locals, ..self }
    }

    /// One step of the fetch-execute loop: the machine afterwards and how the
    /// run stands. Where no instruction is left, nothing changes and the run
    /// has halted. After an instruction that does not jump, the engine moves
    /// to the next position, or halts at the end of the code.
    pub open spec fn step<A: Fn(Arith, u32, u32) -> u32, R: Fn(u32) -> String>(
        self,
        unit: A,
        printer: R,
        fresh: Id,
    ) -> (Machine, Status) {
        match self.fetch() {
            None => (self, Status::Halted),
            Some(instr) => {
                let effect = self.execute(instr, unit, printer, fresh);
                let next = self.with(effect);
                match effect.result {
                    Err(fault) => (next, Status::Failed(fault)),
                    Ok(Flow::Stop) => (next, Status::Halted),
                    Ok(Flow::Jump(at)) => (Machine { ip: Some(at), ..next }, Status::Running),
                    Ok(Flow::Next) => if self.ip.unwrap() + 1 < self.code.len() {
                        (Machine { ip: Some(self.ip.unwrap() + 1), ..next }, Status::Running)
                    } else {
                        (next, Status::Halted)
                    },
                }
            },
        }
    }

    /// Whether `fresh` can be the identifier that a step allocates under: a
    /// step that allocates does so under an identifier that is not in use
    /// and carries the heap's generation.
    pub open spec fn admits<A: Fn(Arith, u32, u32) -> u32, R: Fn(u32) -> String>(
        self,
        unit: A,
        printer: R,
        fresh: Id,
    ) -> bool {
        match self.fetch() {
            Some(instr) => self.execute(instr, unit, printer, fresh).allocated is Some
                ==> self.memory.fresh(fresh),
            None => true,
        }
    }

    /// The machine comes, in exactly `n` steps none of which but the last
    /// ends the run, from `self` to `end` with status `status`.
    pub open spec fn runs_to<A: Fn(Arith, u32, u32) -> u32, R: Fn(u32) -> String>(
        self,
        unit: A,
        printer: R,
        n: nat,
        end: Machine,
        status: Status,
    ) -> bool
        decreases n,
    {
        if n == 0 {
            end == self && status == Status::Running
        } else {
            exists|mid: Machine, fresh: Id|
                {
                    &&& self.runs_to(unit, printer, (n - 1) as nat, mid, Status::Running)
                    &&& mid.admits(unit, printer, fresh)
                    &&& #[trigger] mid.step(unit, printer, fresh) == (end, status)
                }
        }
    }

    /// The result of a run that ended in `self`: the top of the operand
    /// stack, or stack underflow where the stack is empty.
    pub open spec fn result(self) -> Result<Id, Fault> {
        if self.memory.stack.len() > 0 {
            Ok(self.memory.stack.last())
        } else {
            Err(Fault::StackUnderflow)
        }
    }
}

} // verus!
