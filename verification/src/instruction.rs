//! The instruction set.

use vstd::prelude::*;

verus! {

/// One instruction. A `Label` is a marker of the input to the loader and is
/// never stored; a `ConstFloat` holds the bit pattern of its literal.
#[derive(Debug)]
pub enum Instruction {
    ConstInt(i32),
    ConstFloat(u32),
    PushStruct(usize),
    GetStruct(usize),
    GetLocal(usize),
    Label(String),
    IAdd,
    FAdd,
    ISub,
    FSub,
    IMul,
    FMul,
    Call(String, usize),
    Jump(String),
    JmpCmp(String),
    CEq,
    CNe,
    CLt,
    CLe,
    CGt,
    CGe,
    Return,
}

/// The mathematical content of an [`Instruction`].
pub enum InstructionView {
    ConstInt(i32),
    ConstFloat(u32),
    PushStruct(usize),
    GetStruct(usize),
    GetLocal(usize),
    Label(Seq<char>),
    IAdd,
    FAdd,
    ISub,
    FSub,
    IMul,
    FMul,
    Call(Seq<char>, usize),
    Jump(Seq<char>),
    JmpCmp(Seq<char>),
    CEq,
    CNe,
    CLt,
    CLe,
    CGt,
    CGe,
    Return,
}

impl View for Instruction {
    type V = InstructionView;

    open spec fn view(&self) -> InstructionView {
        match self {
            Instruction::ConstInt(v) => InstructionView::ConstInt(*v),
            Instruction::ConstFloat(bits) => InstructionView::ConstFloat(*bits),
            Instruction::PushStruct(n) => InstructionView::PushStruct(*n),
            Instruction::GetStruct(i) => InstructionView::GetStruct(*i),
            Instruction::GetLocal(i) => InstructionView::GetLocal(*i),
            Instruction::Label(name) => InstructionView::Label(name@),
            Instruction::IAdd => InstructionView::IAdd,
            Instruction::FAdd => InstructionView::FAdd,
            Instruction::ISub => InstructionView::ISub,
            Instruction::FSub => InstructionView::FSub,
            Instruction::IMul => InstructionView::IMul,
            Instruction::FMul => InstructionView::FMul,
            Instruction::Call(name, n) => InstructionView::Call(name@, *n),
            Instruction::Jump(name) => InstructionView::Jump(name@),
            Instruction::JmpCmp(name) => InstructionView::JmpCmp(name@),
            Instruction::CEq => InstructionView::CEq,
            Instruction::CNe => InstructionView::CNe,
            Instruction::CLt => InstructionView::CLt,
            Instruction::CLe => InstructionView::CLe,
            Instruction::CGt => InstructionView::CGt,
            Instruction::CGe => InstructionView::CGe,
            Instruction::Return => InstructionView::Return,
        }
    }
}

impl Clone for Instruction {
    fn clone(&self) -> (out: Instruction)
        ensures
            out@ == self@,
    {
        match self {
            Instruction::ConstInt(v) => Instruction::ConstInt(*v),
            Instruction::ConstFloat(bits) => Instruction::ConstFloat(*bits),
            Instruction::PushStruct(n) => Instruction::PushStruct(*n),
            Instruction::GetStruct(i) => Instruction::GetStruct(*i),
            Instruction::GetLocal(i) => Instruction::GetLocal(*i),
            Instruction::Label(name) => Instruction::Label(name.clone()),
            Instruction::IAdd => Instruction::IAdd,
            Instruction::FAdd => Instruction::FAdd,
            Instruction::ISub => Instruction::ISub,
            Instruction::FSub => Instruction::FSub,
            Instruction::IMul => Instruction::IMul,
            Instruction::FMul => Instruction::FMul,
            Instruction::Call(name, n) => Instruction::Call(name.clone(), *n),
            Instruction::Jump(name) => Instruction::Jump(name.clone()),
            Instruction::JmpCmp(name) => Instruction::JmpCmp(name.clone()),
            Instruction::CEq => Instruction::CEq,
            Instruction::CNe => Instruction::CNe,
            Instruction::CLt => Instruction::CLt,
            Instruction::CLe => Instruction::CLe,
            Instruction::CGt => Instruction::CGt,
            Instruction::CGe => Instruction::CGe,
            Instruction::Return => Instruction::Return,
        }
    }
}

impl InstructionView {
    /// Whether the instruction is stored by the loader, that is, is no label.
    pub open spec fn is_real(self) -> bool {
        !(self is Label)
    }
}

} // verus!
