//! The ways in which a run ends without a result.

use vstd::prelude::*;
use vstd::string::StringExecFns;

verus! {

/// Why a run failed. Every failure ends the run; nothing is retried and
/// nothing is rolled back.
#[derive(Debug)]
pub enum InterpreterError {
    /// An operand was of the wrong kind. Holds the text of the operand, or of
    /// both operands separated by a comma and a space.
    ValueMismatch(String),
    /// The instruction pointer refers to no instruction. No run yields this:
    /// a missing instruction ends the run normally.
    InvalidInstructionPointer,
    /// A value was popped from the empty operand stack, or a local was read
    /// where no call has been made.
    StackUnderflow,
    /// A jump or call named a label that the loader bound to no instruction.
    UnresolvedLabel(String),
    /// The text of an operand could not be produced.
    Rendering,
    /// An identifier that was read is stale.
    InvalidReference,
    /// A structure or a locals frame was read beyond its end.
    IndexOutOfBounds,
    /// The step budget of the run was used up.
    StepLimit,
}

/// The mathematical content of an [`InterpreterError`].
pub enum Fault {
    ValueMismatch(Seq<char>),
    InvalidInstructionPointer,
    StackUnderflow,
    UnresolvedLabel(Seq<char>),
    Rendering,
    InvalidReference,
    IndexOutOfBounds,
    StepLimit,
}

impl View for InterpreterError {
    type V = Fault;

    open spec fn view(&self) -> Fault {
        match self {
            InterpreterError::ValueMismatch(text) => Fault::ValueMismatch(text@),
            InterpreterError::InvalidInstructionPointer => Fault::InvalidInstructionPointer,
            InterpreterError::StackUnderflow => Fault::StackUnderflow,
            InterpreterError::UnresolvedLabel(name) => Fault::UnresolvedLabel(name@),
            InterpreterError::Rendering => Fault::Rendering,
            InterpreterError::InvalidReference => Fault::InvalidReference,
            InterpreterError::IndexOutOfBounds => Fault::IndexOutOfBounds,
            InterpreterError::StepLimit => Fault::StepLimit,
        }
    }
}

impl Fault {
    /// The message of the error.
    pub open spec fn message(self) -> Seq<char> {
        match self {
            Fault::ValueMismatch(found) => "Value type mismatch, unexpected "@ + found,
            Fault::InvalidInstructionPointer => "Invalid instruction pointer state"@,
            Fault::StackUnderflow => "Interpreter stack underflow"@,
            Fault::UnresolvedLabel(name) => "Unresolved label "@ + name,
            Fault::Rendering => "Rendering error"@,
            Fault::InvalidReference => "Stale or invalid reference"@,
            Fault::IndexOutOfBounds => "Index out of bounds"@,
            Fault::StepLimit => "Step limit reached"@,
        }
    }
}

impl InterpreterError {
    /// The message of the error.
    pub fn message(&self) -> (text: String)
        ensures
            text@ == self@.message(),
    {
        match self {
            InterpreterError::ValueMismatch(found) => {
                let mut text = String::from_str("Value type mismatch, unexpected ");
                text.append(found.as_str());
                text
            },
            InterpreterError::InvalidInstructionPointer => String::from_str(
                "Invalid instruction pointer state",
            ),
            InterpreterError::StackUnderflow => String::from_str("Interpreter stack underflow"),
            InterpreterError::UnresolvedLabel(name) => {
                let mut text = String::from_str("Unresolved label ");
                text.append(name.as_str());
                text
            },
            InterpreterError::Rendering => String::from_str("Rendering error"),
            InterpreterError::InvalidReference => String::from_str("Stale or invalid reference"),
            InterpreterError::IndexOutOfBounds => String::from_str("Index out of bounds"),
            InterpreterError::StepLimit => String::from_str("Step limit reached"),
        }
    }
}

} // verus!
