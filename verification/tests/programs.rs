use gc_vm::error::InterpreterError;
use gc_vm::float::Arith;
use gc_vm::instruction::Instruction;
use gc_vm::interpreter::{InstructionResult, Interpreter, Progress};

fn unit(op: Arith, a: u32, b: u32) -> u32 {
    let x = f32::from_bits(a);
    let y = f32::from_bits(b);
    let r = match op {
        Arith::Add => x + y,
        Arith::Sub => x - y,
        Arith::Mul => x * y,
    };
    r.to_bits()
}

fn printer(bits: u32) -> String {
    format!("{}", f32::from_bits(bits))
}

fn float(x: f32) -> Instruction {
    Instruction::ConstFloat(x.to_bits())
}

fn label(name: &str) -> Instruction {
    Instruction::Label(name.to_string())
}

fn run_text(program: Vec<Instruction>) -> Result<String, InterpreterError> {
    let mut interpreter = Interpreter::new(program, unit, printer).unwrap();
    let top = interpreter.run()?;
    Ok(interpreter.display(top).unwrap())
}

#[test]
fn arithmetic_of_three_integers_gives_42() {
    let text = run_text(vec![
        Instruction::ConstInt(3),
        Instruction::ConstInt(7),
        Instruction::ConstInt(2),
        Instruction::IMul,
        Instruction::IMul,
    ]);
    assert_eq!(text.unwrap(), "42i");
}

#[test]
fn integer_plus_float_is_a_value_mismatch() {
    let r = run_text(vec![Instruction::ConstInt(1), float(2.0), Instruction::IAdd]);
    match r {
        Err(InterpreterError::ValueMismatch(text)) => assert_eq!(text, "1i, 2f"),
        other => panic!("unexpected {:?}", other),
    }
}

#[test]
fn struct_round_trip_keeps_field_order() {
    let text = run_text(vec![
        Instruction::ConstInt(1),
        Instruction::ConstInt(2),
        Instruction::PushStruct(2),
        Instruction::GetStruct(1),
    ]);
    assert_eq!(text.unwrap(), "2i");
}

#[test]
fn addition_on_empty_stack_underflows() {
    let r = run_text(vec![Instruction::IAdd]);
    assert!(matches!(r, Err(InterpreterError::StackUnderflow)));
}

#[test]
fn jump_to_unknown_label_is_unresolved() {
    let r = run_text(vec![Instruction::Jump("nope".to_string())]);
    match r {
        Err(InterpreterError::UnresolvedLabel(name)) => assert_eq!(name, "nope"),
        other => panic!("unexpected {:?}", other),
    }
    let r = run_text(vec![
        Instruction::ConstInt(1),
        label("here"),
        Instruction::ConstInt(2),
        Instruction::Jump("nope".to_string()),
    ]);
    assert!(matches!(r, Err(InterpreterError::UnresolvedLabel(_))));
}

fn jump(name: &str) -> Instruction {
    Instruction::Jump(name.to_string())
}

fn jump_if(name: &str) -> Instruction {
    Instruction::JmpCmp(name.to_string())
}

fn call(name: &str, n: usize) -> Instruction {
    Instruction::Call(name.to_string(), n)
}

#[test]
fn empty_input_gives_no_engine() {
    assert!(Interpreter::new(vec![], unit, printer).is_none());
}

#[test]
fn input_of_labels_alone_runs_into_underflow() {
    let r = run_text(vec![label("a"), label("b")]);
    assert!(matches!(r, Err(InterpreterError::StackUnderflow)));
}

#[test]
fn conditional_jump_on_one_jumps() {
    let text = run_text(vec![
        Instruction::ConstInt(10),
        Instruction::ConstInt(1),
        jump_if("end"),
        Instruction::ConstInt(20),
        label("end"),
        Instruction::ConstInt(30),
        Instruction::IAdd,
    ]);
    assert_eq!(text.unwrap(), "40i");
}

#[test]
fn conditional_jump_on_zero_falls_through() {
    let text = run_text(vec![
        Instruction::ConstInt(10),
        Instruction::ConstInt(0),
        jump_if("end"),
        Instruction::ConstInt(20),
        Instruction::IAdd,
        label("end"),
        Instruction::ConstInt(30),
        Instruction::IAdd,
    ]);
    assert_eq!(text.unwrap(), "60i");
}

#[test]
fn conditional_jump_on_another_value_is_a_value_mismatch() {
    let r = run_text(vec![Instruction::ConstInt(2), jump_if("end"), label("end"), Instruction::Return]);
    match r {
        Err(InterpreterError::ValueMismatch(text)) => assert_eq!(text, "2i"),
        other => panic!("unexpected {:?}", other),
    }
    let r = run_text(vec![float(1.0), jump_if("end"), label("end"), Instruction::Return]);
    match r {
        Err(InterpreterError::ValueMismatch(text)) => assert_eq!(text, "1f"),
        other => panic!("unexpected {:?}", other),
    }
    let r = run_text(vec![
        Instruction::ConstInt(1),
        Instruction::PushStruct(1),
        jump_if("end"),
        label("end"),
        Instruction::Return,
    ]);
    match r {
        Err(InterpreterError::ValueMismatch(text)) => assert_eq!(text, "Struct(1i)"),
        other => panic!("unexpected {:?}", other),
    }
}

#[test]
fn conditional_jump_resolves_its_label_before_it_pops() {
    let r = run_text(vec![jump_if("nope")]);
    assert!(matches!(r, Err(InterpreterError::UnresolvedLabel(_))));
    let r = run_text(vec![jump_if("end"), label("end"), Instruction::Return]);
    assert!(matches!(r, Err(InterpreterError::StackUnderflow)));
}

#[test]
fn integer_arithmetic() {
    let text = run_text(vec![Instruction::ConstInt(7), Instruction::ConstInt(9), Instruction::ISub]);
    assert_eq!(text.unwrap(), "-2i");
    let text = run_text(vec![Instruction::ConstInt(7), Instruction::ConstInt(9), Instruction::IAdd]);
    assert_eq!(text.unwrap(), "16i");
    let text = run_text(vec![Instruction::ConstInt(-7), Instruction::ConstInt(9), Instruction::IMul]);
    assert_eq!(text.unwrap(), "-63i");
}

#[test]
fn integer_arithmetic_wraps_around() {
    let text = run_text(vec![
        Instruction::ConstInt(i32::MAX),
        Instruction::ConstInt(1),
        Instruction::IAdd,
    ]);
    assert_eq!(text.unwrap(), "-2147483648i");
    let text = run_text(vec![
        Instruction::ConstInt(i32::MIN),
        Instruction::ConstInt(1),
        Instruction::ISub,
    ]);
    assert_eq!(text.unwrap(), "2147483647i");
    let text = run_text(vec![
        Instruction::ConstInt(65536),
        Instruction::ConstInt(65537),
        Instruction::IMul,
    ]);
    assert_eq!(text.unwrap(), format!("{}i", 65536i32.wrapping_mul(65537)));
    let text = run_text(vec![
        Instruction::ConstInt(i32::MIN),
        Instruction::ConstInt(-1),
        Instruction::IMul,
    ]);
    assert_eq!(text.unwrap(), "-2147483648i");
}

#[test]
fn float_arithmetic_is_the_unit_s() {
    let text = run_text(vec![float(1.5), float(2.25), Instruction::FAdd]);
    assert_eq!(text.unwrap(), "3.75f");
    let text = run_text(vec![float(1.5), float(2.25), Instruction::FSub]);
    assert_eq!(text.unwrap(), "-0.75f");
    let text = run_text(vec![float(1.5), float(2.0), Instruction::FMul]);
    assert_eq!(text.unwrap(), "3f");
}

#[test]
fn float_operation_on_integers_is_a_value_mismatch() {
    let r = run_text(vec![Instruction::ConstInt(1), Instruction::ConstInt(2), Instruction::FAdd]);
    match r {
        Err(InterpreterError::ValueMismatch(text)) => assert_eq!(text, "1i, 2i"),
        other => panic!("unexpected {:?}", other),
    }
    let r = run_text(vec![float(0.5), Instruction::ConstInt(2), Instruction::FMul]);
    match r {
        Err(InterpreterError::ValueMismatch(text)) => assert_eq!(text, "0.5f, 2i"),
        other => panic!("unexpected {:?}", other),
    }
}

#[test]
fn comparisons_push_one_or_zero() {
    let cases = vec![
        (Instruction::CEq, 3, 3, "1i"),
        (Instruction::CEq, 3, 4, "0i"),
        (Instruction::CNe, 3, 4, "1i"),
        (Instruction::CNe, 3, 3, "0i"),
        (Instruction::CLt, 3, 4, "1i"),
        (Instruction::CLt, 4, 3, "0i"),
        (Instruction::CLe, 3, 3, "1i"),
        (Instruction::CLe, 4, 3, "0i"),
        (Instruction::CGt, 4, 3, "1i"),
        (Instruction::CGt, 3, 3, "0i"),
        (Instruction::CGe, 3, 3, "1i"),
        (Instruction::CGe, 2, 3, "0i"),
    ];
    for (op, a, b, expected) in cases {
        let text = run_text(vec![Instruction::ConstInt(a), Instruction::ConstInt(b), op.clone()]);
        assert_eq!(text.unwrap(), expected);
        let text = run_text(vec![float(a as f32), float(b as f32), op]);
        assert_eq!(text.unwrap(), expected);
    }
}

#[test]
fn comparison_of_different_kinds_is_a_value_mismatch() {
    let r = run_text(vec![Instruction::ConstInt(1), float(1.0), Instruction::CEq]);
    match r {
        Err(InterpreterError::ValueMismatch(text)) => assert_eq!(text, "1i, 1f"),
        other => panic!("unexpected {:?}", other),
    }
    let r = run_text(vec![
        Instruction::PushStruct(0),
        Instruction::PushStruct(0),
        Instruction::CEq,
    ]);
    match r {
        Err(InterpreterError::ValueMismatch(text)) => assert_eq!(text, "Struct(), Struct()"),
        other => panic!("unexpected {:?}", other),
    }
}

#[test]
fn operation_with_one_operand_underflows() {
    let r = run_text(vec![Instruction::ConstInt(1), Instruction::CLt]);
    assert!(matches!(r, Err(InterpreterError::StackUnderflow)));
}

#[test]
fn push_struct_with_too_few_operands_underflows_and_drains() {
    let mut interpreter = Interpreter::new(
        vec![Instruction::ConstInt(1), Instruction::PushStruct(2)],
        unit,
        printer,
    )
    .unwrap();
    assert!(matches!(interpreter.run(), Err(InterpreterError::StackUnderflow)));
    assert_eq!(interpreter.memory().top(), None);
}

#[test]
fn get_struct_reads_fields_in_push_order() {
    for (i, expected) in [(0, "1i"), (1, "2i"), (2, "3i")] {
        let text = run_text(vec![
            Instruction::ConstInt(1),
            Instruction::ConstInt(2),
            Instruction::ConstInt(3),
            Instruction::PushStruct(3),
            Instruction::GetStruct(i),
        ]);
        assert_eq!(text.unwrap(), expected);
    }
}

#[test]
fn get_struct_beyond_the_end_is_out_of_bounds() {
    let r = run_text(vec![
        Instruction::ConstInt(1),
        Instruction::PushStruct(1),
        Instruction::GetStruct(1),
    ]);
    assert!(matches!(r, Err(InterpreterError::IndexOutOfBounds)));
}

#[test]
fn get_struct_on_an_integer_is_a_value_mismatch() {
    let r = run_text(vec![Instruction::ConstInt(5), Instruction::GetStruct(0)]);
    match r {
        Err(InterpreterError::ValueMismatch(text)) => assert_eq!(text, "5i"),
        other => panic!("unexpected {:?}", other),
    }
    let r = run_text(vec![Instruction::GetStruct(0)]);
    assert!(matches!(r, Err(InterpreterError::StackUnderflow)));
}

#[test]
fn call_binds_locals_in_push_order() {
    for (i, expected) in [(0, "5i"), (1, "6i")] {
        let text = run_text(vec![
            Instruction::ConstInt(4),
            Instruction::ConstInt(5),
            Instruction::ConstInt(6),
            call("f", 2),
            Instruction::ConstInt(99),
            label("f"),
            Instruction::GetLocal(i),
        ]);
        assert_eq!(text.unwrap(), expected);
    }
}

#[test]
fn inner_call_hides_outer_locals() {
    let text = run_text(vec![
        Instruction::ConstInt(1),
        call("f", 1),
        label("f"),
        Instruction::ConstInt(2),
        call("g", 1),
        label("g"),
        Instruction::GetLocal(0),
    ]);
    assert_eq!(text.unwrap(), "2i");
}

#[test]
fn get_local_without_a_call_underflows() {
    let r = run_text(vec![Instruction::GetLocal(0)]);
    assert!(matches!(r, Err(InterpreterError::StackUnderflow)));
}

#[test]
fn get_local_beyond_the_frame_is_out_of_bounds() {
    let r = run_text(vec![
        Instruction::ConstInt(1),
        call("f", 1),
        label("f"),
        Instruction::GetLocal(1),
    ]);
    assert!(matches!(r, Err(InterpreterError::IndexOutOfBounds)));
}

#[test]
fn call_resolves_its_label_before_it_pops() {
    let mut interpreter =
        Interpreter::new(vec![Instruction::ConstInt(1), call("nope", 5)], unit, printer).unwrap();
    match interpreter.run() {
        Err(InterpreterError::UnresolvedLabel(name)) => assert_eq!(name, "nope"),
        other => panic!("unexpected {:?}", other),
    }
    assert!(interpreter.memory().top().is_some());
    let r = run_text(vec![Instruction::ConstInt(1), call("f", 2), label("f"), Instruction::Return]);
    assert!(matches!(r, Err(InterpreterError::StackUnderflow)));
}

#[test]
fn return_halts_at_once() {
    let text = run_text(vec![
        Instruction::ConstInt(1),
        Instruction::Return,
        Instruction::ConstInt(2),
    ]);
    assert_eq!(text.unwrap(), "1i");
    let r = run_text(vec![Instruction::Return]);
    assert!(matches!(r, Err(InterpreterError::StackUnderflow)));
}

#[test]
fn jump_skips_what_lies_between() {
    let text = run_text(vec![
        Instruction::ConstInt(1),
        jump("end"),
        Instruction::ConstInt(2),
        Instruction::ConstInt(3),
        label("end"),
        Instruction::ConstInt(4),
        Instruction::IAdd,
    ]);
    assert_eq!(text.unwrap(), "5i");
}

#[test]
fn a_label_that_no_instruction_follows_is_not_bound() {
    let r = run_text(vec![jump("end"), Instruction::ConstInt(1), label("end")]);
    match r {
        Err(InterpreterError::UnresolvedLabel(name)) => assert_eq!(name, "end"),
        other => panic!("unexpected {:?}", other),
    }
}

#[test]
fn labels_in_a_row_are_all_bound_to_the_next_instruction() {
    for name in ["a", "b", "c"] {
        let text = run_text(vec![
            jump(name),
            Instruction::ConstInt(1),
            label("a"),
            label("b"),
            label("c"),
            Instruction::ConstInt(2),
        ]);
        assert_eq!(text.unwrap(), "2i");
    }
}

#[test]
fn of_two_labels_with_one_name_the_later_counts() {
    let text = run_text(vec![
        jump("x"),
        label("x"),
        Instruction::ConstInt(1),
        Instruction::Return,
        label("x"),
        Instruction::ConstInt(2),
        Instruction::Return,
        label("x"),
    ]);
    assert_eq!(text.unwrap(), "2i");
}

#[test]
fn a_leading_label_is_the_first_instruction() {
    let text = run_text(vec![label("start"), Instruction::ConstInt(8)]);
    assert_eq!(text.unwrap(), "8i");
}

#[test]
fn an_endless_loop_stops_at_the_step_limit_with_a_bounded_heap() {
    let mut interpreter = Interpreter::new(
        vec![label("again"), Instruction::ConstInt(1), Instruction::PushStruct(1), jump("again")],
        unit,
        printer,
    )
    .unwrap();
    assert!(matches!(interpreter.run_for(3000), Err(InterpreterError::StepLimit)));
    assert!(interpreter.memory().len() > 11);
    interpreter.gc(false);
    let before = interpreter.memory().len();
    assert!(matches!(interpreter.run_for(30), Err(InterpreterError::StepLimit)));
    assert_eq!(interpreter.memory().len(), before + 20);
    interpreter.gc(true);
    assert_eq!(interpreter.memory().len(), before + 20);
}

#[test]
fn a_loop_that_pops_what_it_pushes_keeps_the_heap_small() {
    let mut interpreter = Interpreter::new(
        vec![
            label("again"),
            Instruction::ConstInt(1),
            Instruction::ConstInt(2),
            Instruction::IAdd,
            Instruction::ConstInt(3),
            Instruction::CEq,
            jump_if("again"),
        ],
        unit,
        printer,
    )
    .unwrap();
    assert!(matches!(interpreter.run_for(6000), Err(InterpreterError::StepLimit)));
    assert!(interpreter.memory().len() <= 11);
}

#[test]
fn a_budget_of_zero_is_used_up_at_once() {
    let mut interpreter = Interpreter::new(vec![Instruction::ConstInt(1)], unit, printer).unwrap();
    assert!(matches!(interpreter.run_for(0), Err(InterpreterError::StepLimit)));
    assert_eq!(interpreter.memory().top(), None);
    assert!(interpreter.run_for(1).is_ok());
}

#[test]
fn a_local_that_was_collected_is_an_invalid_reference() {
    let mut program = vec![Instruction::ConstInt(1), call("f", 1), label("f")];
    for i in 0..12 {
        program.push(Instruction::ConstInt(i));
    }
    program.push(Instruction::GetLocal(0));
    program.push(Instruction::GetLocal(0));
    program.push(Instruction::IAdd);
    let r = run_text(program);
    assert!(matches!(r, Err(InterpreterError::InvalidReference)));
}

#[test]
fn a_local_that_is_still_live_can_be_used() {
    let text = run_text(vec![
        Instruction::ConstInt(21),
        call("f", 1),
        label("f"),
        Instruction::GetLocal(0),
        Instruction::GetLocal(0),
        Instruction::IAdd,
    ]);
    assert_eq!(text.unwrap(), "42i");
}

#[test]
fn an_operand_without_text_is_a_rendering_error() {
    let mut program = vec![Instruction::ConstInt(1), call("f", 1), label("f")];
    for i in 0..12 {
        program.push(Instruction::ConstInt(i));
    }
    program.push(Instruction::GetLocal(0));
    program.push(Instruction::PushStruct(1));
    program.push(Instruction::ConstInt(1));
    program.push(Instruction::IAdd);
    let r = run_text(program);
    assert!(matches!(r, Err(InterpreterError::Rendering)));
}

#[test]
fn a_nested_structure_survives_collections_during_a_run() {
    let mut program = vec![
        Instruction::ConstInt(1),
        Instruction::ConstInt(2),
        Instruction::PushStruct(2),
        Instruction::PushStruct(1),
    ];
    for i in 0..40 {
        let name = format!("skip{}", i);
        program.push(Instruction::ConstInt(i));
        program.push(Instruction::ConstInt(1));
        program.push(Instruction::CNe);
        program.push(jump_if(&name));
        program.push(label(&name));
    }
    program.push(Instruction::Return);
    let mut interpreter = Interpreter::new(program, unit, printer).unwrap();
    let top = interpreter.run().unwrap();
    assert_eq!(interpreter.display(top).unwrap(), "Struct(Struct(1i, 2i))");
    assert!(interpreter.memory().len() <= 11);
    assert!(interpreter.memory().len() >= 4);
}

#[test]
fn running_again_executes_the_last_instruction_again() {
    let mut interpreter = Interpreter::new(
        vec![Instruction::ConstInt(1), Instruction::ConstInt(2), Instruction::IAdd],
        unit,
        printer,
    )
    .unwrap();
    let top = interpreter.run().unwrap();
    assert_eq!(interpreter.display(top).unwrap(), "3i");
    assert!(matches!(interpreter.run(), Err(InterpreterError::StackUnderflow)));
}

#[test]
fn a_label_executed_directly_does_nothing() {
    let mut interpreter = Interpreter::new(vec![Instruction::ConstInt(1)], unit, printer).unwrap();
    let r = interpreter.execute(label("x"));
    assert!(matches!(r, Ok(InstructionResult::Next)));
    assert_eq!(interpreter.memory().top(), None);
    assert_eq!(interpreter.memory().len(), 0);
}

#[test]
fn steps_report_how_the_run_stands() {
    let mut interpreter = Interpreter::new(
        vec![Instruction::ConstInt(1), Instruction::ConstInt(2), Instruction::IAdd, Instruction::IAdd],
        unit,
        printer,
    )
    .unwrap();
    assert!(matches!(interpreter.step(), Progress::Running));
    assert!(matches!(interpreter.step(), Progress::Running));
    assert!(matches!(interpreter.step(), Progress::Running));
    assert!(matches!(
        interpreter.step(),
        Progress::Failed(InterpreterError::StackUnderflow)
    ));
}

#[test]
fn the_last_step_halts() {
    let mut interpreter =
        Interpreter::new(vec![Instruction::ConstInt(1), Instruction::Return], unit, printer).unwrap();
    assert!(matches!(interpreter.step(), Progress::Running));
    assert!(matches!(interpreter.step(), Progress::Halted));
    let mut interpreter = Interpreter::new(vec![Instruction::ConstInt(1)], unit, printer).unwrap();
    assert!(matches!(interpreter.step(), Progress::Halted));
    assert!(interpreter.memory().top().is_some());
}

#[test]
fn messages_of_errors() {
    assert_eq!(
        InterpreterError::ValueMismatch("1i, 2f".to_string()).message(),
        "Value type mismatch, unexpected 1i, 2f"
    );
    assert_eq!(
        InterpreterError::InvalidInstructionPointer.message(),
        "Invalid instruction pointer state"
    );
    assert_eq!(InterpreterError::StackUnderflow.message(), "Interpreter stack underflow");
    assert_eq!(
        InterpreterError::UnresolvedLabel("nope".to_string()).message(),
        "Unresolved label nope"
    );
    assert_eq!(InterpreterError::Rendering.message(), "Rendering error");
    assert_eq!(InterpreterError::InvalidReference.message(), "Stale or invalid reference");
    assert_eq!(InterpreterError::IndexOutOfBounds.message(), "Index out of bounds");
    assert_eq!(InterpreterError::StepLimit.message(), "Step limit reached");
}

#[test]
fn a_copy_of_an_instruction_is_the_same_instruction() {
    let all = vec![
        Instruction::ConstInt(1),
        float(1.0),
        Instruction::PushStruct(2),
        Instruction::GetStruct(3),
        Instruction::GetLocal(4),
        label("l"),
        Instruction::IAdd,
        Instruction::FAdd,
        Instruction::ISub,
        Instruction::FSub,
        Instruction::IMul,
        Instruction::FMul,
        call("c", 5),
        jump("j"),
        jump_if("k"),
        Instruction::CEq,
        Instruction::CNe,
        Instruction::CLt,
        Instruction::CLe,
        Instruction::CGt,
        Instruction::CGe,
        Instruction::Return,
    ];
    for instr in all {
        assert_eq!(format!("{:?}", instr.clone()), format!("{:?}", instr));
    }
}
