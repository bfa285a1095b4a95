use rlox::chunk::{Chunk, OpCode};
use rlox::compiler::{Compiler, Precedence};
use rlox::debug::{disassemble_chunk, disassemble_instruction};
use rlox::vm::{Action, InterpretResult, VM};

/// Runs the loaded chunk, doing the arithmetic that the machine asks for.
fn run(vm: &mut VM) -> Result<f64, InterpretResult> {
    let constants: Vec<f64> =
        vm.chunk().constants.iter().map(|c| c.parse::<f64>().unwrap()).collect();
    let mut stack: Vec<f64> = Vec::new();
    loop {
        match vm.step() {
            Action::Push(i) => stack.push(constants[i]),
            Action::Negate => {
                let v = stack.pop().unwrap();
                stack.push(-v);
            }
            Action::Add => {
                let b = stack.pop().unwrap();
                let a = stack.pop().unwrap();
                stack.push(a + b);
            }
            Action::Subtract => {
                let b = stack.pop().unwrap();
                let a = stack.pop().unwrap();
                stack.push(a - b);
            }
            Action::Multiply => {
                let b = stack.pop().unwrap();
                let a = stack.pop().unwrap();
                stack.push(a * b);
            }
            Action::Divide => {
                let b = stack.pop().unwrap();
                let a = stack.pop().unwrap();
                stack.push(a / b);
            }
            Action::Return => return Ok(stack.pop().unwrap()),
            Action::Skip => {}
            Action::Fault => return Err(InterpretResult::RuntimeError),
        }
    }
}

fn evaluate(source: &str) -> Result<f64, InterpretResult> {
    let mut vm = VM::new();
    match vm.interpret(String::from(source)) {
        InterpretResult::Success => run(&mut vm),
        other => Err(other),
    }
}

#[test]
fn expr() {
    let expr = String::from("(-1 + 2) * 3 - -4");
    let output = format!("{:?}", evaluate(&expr).unwrap());
    assert_eq!(output, "7.0");
}

#[test]
fn chained_addition_then_division() {
    assert_eq!(evaluate("(3.4 + 1.4) / 2.0").unwrap(), (3.4 + 1.4) / 2.0);
}

#[test]
fn factor_binds_tighter_than_term() {
    assert_eq!(evaluate("1 + 2 * 3").unwrap(), 7.0);
    assert_eq!(evaluate("1 * 2 + 3").unwrap(), 5.0);
    assert_eq!(evaluate("8 / 4 - 1").unwrap(), 1.0);
}

#[test]
fn same_level_operators_group_to_the_right() {
    // The right operand is parsed at the operator's own level.
    assert_eq!(evaluate("1 - 2 - 3").unwrap(), 2.0);
    assert_eq!(evaluate("8 / 4 / 2").unwrap(), 4.0);
}

#[test]
fn unexpected_character_fails_to_compile() {
    let mut compiler = Compiler::new(String::from("@"));
    let e = compiler.compile().unwrap_err();
    assert_eq!(e.message, "unexpected character");
    assert_eq!(e.line, 1);
    let mut vm = VM::new();
    assert_eq!(vm.interpret(String::from("@")), InterpretResult::CompileError);
    assert_eq!(vm.take_error().unwrap().message, "unexpected character");
}

#[test]
fn empty_source_expects_an_expression() {
    let e = Compiler::new(String::from("  ")).compile().unwrap_err();
    assert_eq!(e.message, "Expect expression.");
    assert!(e.location.is_none());
    assert_eq!(e.line, 1);
}

#[test]
fn missing_close_paren_is_reported() {
    let e = Compiler::new(String::from("(1 + 2")).compile().unwrap_err();
    assert_eq!(e.message, "Expect ')' after expression.");
    assert!(e.location.is_none());
}

#[test]
fn operator_cannot_start_an_expression() {
    let e = Compiler::new(String::from("* 2")).compile().unwrap_err();
    assert_eq!(e.message, "Expect expression.");
    assert_eq!(e.location.unwrap(), "*");
}

#[test]
fn too_many_constants_is_a_compile_error() {
    let literals: Vec<String> = (0..257).map(|i| i.to_string()).collect();
    let source = literals.join(" + ");
    let e = Compiler::new(source).compile().unwrap_err();
    assert_eq!(e.message, "Too many constants in one chunk.");
    let fits: Vec<String> = (0..256).map(|i| i.to_string()).collect();
    assert!(Compiler::new(fits.join(" + ")).compile().is_ok());
}

#[test]
fn compiled_code_layout() {
    let chunk = Compiler::new(String::from("1 + 2")).compile().unwrap();
    assert_eq!(
        chunk.code,
        vec![
            OpCode::Constant,
            OpCode::OpArg(0),
            OpCode::Constant,
            OpCode::OpArg(1),
            OpCode::Add,
            OpCode::Return,
        ]
    );
    assert_eq!(chunk.constants, vec![String::from("1"), String::from("2")]);
    assert_eq!(chunk.lines, vec![1, 1, 1, 1, 1, 1]);
}

#[test]
fn identical_literals_get_separate_slots() {
    let chunk = Compiler::new(String::from("2 * 2")).compile().unwrap();
    assert_eq!(chunk.constants.len(), 2);
}

#[test]
fn constants_are_followed_by_operands_in_the_pool() {
    let chunk = Compiler::new(String::from("-(1.5 + 2) * 3 / -4")).compile().unwrap();
    for (i, op) in chunk.code.iter().enumerate() {
        if *op == OpCode::Constant {
            match chunk.code[i + 1] {
                OpCode::OpArg(k) => assert!(k < chunk.constants.len()),
                other => panic!("operand expected, found {:?}", other),
            }
        }
    }
}

#[test]
fn disassembly_visits_each_instruction_once() {
    let chunk = Compiler::new(String::from("1 + 2\n * -3")).compile().unwrap();
    let listing = disassemble_chunk(&chunk);
    let offsets: Vec<usize> = listing.iter().map(|d| d.offset).collect();
    assert_eq!(offsets, vec![0, 2, 4, 6, 7, 8, 9]);
    assert_eq!(listing.last().unwrap().next, chunk.code.len());
    assert_eq!(listing[0].line, Some(1));
    assert_eq!(listing[1].line, None);
    assert_eq!(listing[2].line, Some(2));
    assert_eq!(listing[0].constant, Some(0));
    assert_eq!(listing[3].op, OpCode::Negate);
}

#[test]
fn disassembling_one_instruction() {
    let chunk = Compiler::new(String::from("4")).compile().unwrap();
    let d = disassemble_instruction(&chunk, 0);
    assert_eq!(d.op, OpCode::Constant);
    assert_eq!(d.constant, Some(0));
    assert_eq!(d.next, 2);
    let r = disassemble_instruction(&chunk, 2);
    assert_eq!(r.op, OpCode::Return);
    assert_eq!(r.next, 3);
}

#[test]
fn chunk_appends_in_order() {
    let mut chunk = Chunk::new();
    assert_eq!(chunk.add_constant(String::from("1")), 0);
    assert_eq!(chunk.add_constant(String::from("1")), 1);
    chunk.write_chunk(OpCode::Constant, 7);
    chunk.write_chunk(OpCode::OpArg(1), 7);
    assert_eq!(chunk.code, vec![OpCode::Constant, OpCode::OpArg(1)]);
    assert_eq!(chunk.lines, vec![7, 7]);
}

#[test]
fn missing_operand_is_a_runtime_error() {
    let mut chunk = Chunk::new();
    let k = chunk.add_constant(String::from("1"));
    chunk.write_chunk(OpCode::Constant, 1);
    chunk.write_chunk(OpCode::OpArg(k), 1);
    chunk.write_chunk(OpCode::Add, 1);
    chunk.write_chunk(OpCode::Return, 1);
    let mut vm = VM::new();
    vm.load(chunk);
    assert_eq!(vm.step(), Action::Push(0));
    assert_eq!(vm.step(), Action::Fault);
}

#[test]
fn return_on_an_empty_stack_is_a_runtime_error() {
    let mut chunk = Chunk::new();
    chunk.write_chunk(OpCode::Negate, 1);
    chunk.write_chunk(OpCode::Return, 1);
    let mut vm = VM::new();
    vm.load(chunk);
    assert_eq!(vm.step(), Action::Skip);
    assert_eq!(vm.step(), Action::Fault);
}

#[test]
fn running_past_the_end_is_a_runtime_error() {
    let mut vm = VM::new();
    vm.load(Chunk::new());
    assert_eq!(vm.step(), Action::Fault);
}

#[test]
fn precedence_levels_round_trip() {
    assert_eq!(Precedence::from_u8(0), Precedence::Lowest);
    assert_eq!(Precedence::from_u8(6), Precedence::Term);
    assert_eq!(Precedence::from_u8(200), Precedence::Primary);
    assert_eq!(Precedence::Factor.level(), 7);
}

#[test]
fn division_follows_float_rules() {
    assert_eq!(evaluate("1 / 0").unwrap(), f64::INFINITY);
    assert!(evaluate("0 / 0").unwrap().is_nan());
}

#[test]
fn unary_minus_binds_to_its_operand() {
    assert_eq!(evaluate("-2 + 3").unwrap(), 1.0);
}

#[test]
fn incomplete_or_misplaced_tokens_fail_to_compile() {
    for source in ["1 +", "* 2", ")", "1 + @", "1 + \"abc"] {
        assert!(Compiler::new(String::from(source)).compile().is_err(), "{}", source);
    }
    let e = Compiler::new(String::from("1 + @")).compile().unwrap_err();
    assert_eq!(e.message, "unexpected character");
}

#[test]
fn interpreting_again_starts_afresh() {
    let mut vm = VM::new();
    assert_eq!(vm.interpret(String::from("(")), InterpretResult::CompileError);
    assert_eq!(vm.interpret(String::from("2 * 3")), InterpretResult::Success);
    assert_eq!(run(&mut vm).unwrap(), 6.0);
    assert_eq!(vm.interpret(String::from("1 + 1")), InterpretResult::Success);
    assert_eq!(run(&mut vm).unwrap(), 2.0);
}

#[test]
fn pool_keeps_literals_in_source_order() {
    let fits: Vec<String> = (0..256).map(|i| i.to_string()).collect();
    let chunk = Compiler::new(fits.join(" + ")).compile().unwrap();
    assert_eq!(chunk.constants, fits);
}

#[test]
fn errors_after_the_first_token_are_reported_where_they_occur() {
    let e = Compiler::new(String::from("1 +\n @")).compile().unwrap_err();
    assert_eq!(e.message, "unexpected character");
    assert_eq!(e.line, 2);
    assert_eq!(e.location.unwrap(), "unexpected character");
    let e = Compiler::new(String::from("1 +")).compile().unwrap_err();
    assert_eq!(e.message, "Expect expression.");
    assert!(e.location.is_none());
    let e = Compiler::new(String::from("2 * )")).compile().unwrap_err();
    assert_eq!(e.message, "Expect expression.");
    assert_eq!(e.location.unwrap(), ")");
}
