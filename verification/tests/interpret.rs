use rlox::chunk::{Chunk, OpCode};
use rlox::gc::ActiveGC;
use rlox::compiler::numerals;
use rlox::error::InterpretationError;
use rlox::value::Value;
use rlox::vm::{Arithmetic, Execution, Fault, RuntimeError, Step, VM};

/// What running a program gave: the printed lines, the runtime error and its line (if any),
/// and the compile diagnostics (messages).
struct Outcome {
    printed: Vec<String>,
    runtime_error: Option<(RuntimeError, Option<usize>)>,
    diagnostics: Vec<String>,
    result: Result<(), InterpretationError>,
}

fn bits_of(source: &str) -> Vec<u64> {
    numerals(source).iter().map(|text| text.parse::<f64>().unwrap().to_bits()).collect()
}

fn display(value: &Value) -> String {
    match value {
        Value::Nil => "nil".to_owned(),
        Value::Boolean(b) => format!("{b}"),
        Value::Number(bits) => format!("{}", f64::from_bits(*bits)),
        Value::LoxString(s) => s.clone(),
    }
}

fn compute(op: Arithmetic, lhs: u64, rhs: u64) -> Value {
    let (a, b) = (f64::from_bits(lhs), f64::from_bits(rhs));
    match op {
        Arithmetic::Greater => Value::Boolean(a > b),
        Arithmetic::Less => Value::Boolean(a < b),
        Arithmetic::Add => Value::Number((a + b).to_bits()),
        Arithmetic::Subtract => Value::Number((a - b).to_bits()),
        Arithmetic::Multiply => Value::Number((a * b).to_bits()),
        Arithmetic::Divide => Value::Number((a / b).to_bits()),
    }
}

fn drive(execution: &mut Execution, printed: &mut Vec<String>) -> Step {
    loop {
        match execution.run() {
            Step::Print(value) => printed.push(display(&value)),
            Step::Arithmetic { op, lhs, rhs } => execution.resume(compute(op, lhs, rhs)),
            other => return other,
        }
    }
}

fn run(source: &str) -> Outcome {
    let bits = bits_of(source);
    let mut vm = VM::default();
    let interpretation = vm.interpret(source, &bits);
    let diagnostics = interpretation.diagnostics.iter().map(|d| d.message().to_owned()).collect();
    let mut printed = Vec::new();
    let mut runtime_error = None;
    let result = match interpretation.execution {
        Err(e) => Err(e),
        Ok(mut execution) => match drive(&mut execution, &mut printed) {
            Step::Return => Ok(()),
            Step::RuntimeError { error, line } => {
                runtime_error = Some((error, line));
                Err(InterpretationError::RuntimeError)
            },
            Step::Fault(fault) => panic!("fault {fault:?}"),
            _ => unreachable!(),
        },
    };
    Outcome { printed, runtime_error, diagnostics, result }
}

#[test]
fn prints_arithmetic() {
    let outcome = run("print 1 + 2 * 3;\nprint (1 + 2) * 3;\nprint 10 / 4 - 0.5;");
    assert_eq!(vec!["7", "9", "2"], outcome.printed);
    assert_eq!(Ok(()), outcome.result);
    assert!(outcome.diagnostics.is_empty());
}

#[test]
fn prints_negation_and_comparison() {
    let outcome = run("print -3 < 2;\nprint 2 > 3;\nprint -(-1.5);");
    assert_eq!(vec!["true", "false", "1.5"], outcome.printed);
}

#[test]
fn prints_equality_and_not() {
    let outcome = run("print 1 == 1; print nil == false; print !nil; print \"a\" != \"b\"; print 1 <= 1;");
    assert_eq!(vec!["true", "false", "true", "true", "true"], outcome.printed);
}

#[test]
fn concatenates_strings() {
    let outcome = run("print \"hello, \" + \"world\";");
    assert_eq!(vec!["hello, world"], outcome.printed);
}

#[test]
fn globals_read_back_what_was_written() {
    let outcome = run("var x = 1; print x; x = x + 41; print x; var y; print y;");
    assert_eq!(vec!["1", "42", "nil"], outcome.printed);
    assert_eq!(Ok(()), outcome.result);
}

#[test]
fn undefined_global_is_a_runtime_error() {
    let outcome = run("print 1;\nprint y;");
    assert_eq!(vec!["1"], outcome.printed);
    assert_eq!(Err(InterpretationError::RuntimeError), outcome.result);
    match outcome.runtime_error {
        Some((RuntimeError::UndefinedGlobal(name), line)) => {
            assert_eq!("y", name);
            assert_eq!(Some(2), line);
        },
        other => panic!("unexpected {other:?}"),
    }
}

#[test]
fn assigning_an_undefined_global_is_a_runtime_error() {
    let outcome = run("z = 1;");
    match outcome.runtime_error {
        Some((RuntimeError::UndefinedVariable(name), Some(1))) => assert_eq!("z", name),
        other => panic!("unexpected {other:?}"),
    }
}

#[test]
fn adding_mismatched_values_is_a_runtime_error() {
    let outcome = run("print 1 + true;");
    assert!(matches!(outcome.runtime_error, Some((RuntimeError::CannotAdd, Some(1)))));
}

#[test]
fn comparing_non_numbers_is_a_runtime_error() {
    let outcome = run("print 1 < nil;");
    assert!(matches!(outcome.runtime_error, Some((RuntimeError::OperandsMustBeNumbers, Some(1)))));
}

#[test]
fn negating_a_non_number_is_a_runtime_error() {
    let outcome = run("print -\"no\";");
    assert!(matches!(outcome.runtime_error, Some((RuntimeError::OperandMustBeNumber, Some(1)))));
}

#[test]
fn missing_semicolon_is_a_compile_error() {
    let outcome = run("print 1");
    assert_eq!(Err(InterpretationError::CompileError), outcome.result);
    assert_eq!(vec!["expected semicolon to end print statement"], outcome.diagnostics);
    assert!(outcome.printed.is_empty());
}

#[test]
fn unexpected_character_is_reported() {
    let outcome = run("print # 1;");
    assert_eq!(Err(InterpretationError::CompileError), outcome.result);
    assert_eq!(vec!["Unexpected character"], outcome.diagnostics);
}

#[test]
fn error_recovery_skips_past_a_semicolon() {
    // After `print 1` the parser sees `2`: it reports the missing semicolon, discards `2` and
    // `;`, and resumes at the next statement.
    let outcome = run("print 1 2; print 3;");
    assert_eq!(Err(InterpretationError::CompileError), outcome.result);
    assert_eq!(vec!["expected semicolon to end print statement"], outcome.diagnostics);
}

#[test]
fn error_recovery_reports_each_statement_once() {
    let outcome = run("print 1 2 3 4;\nprint (;\nprint 5;");
    assert_eq!(Err(InterpretationError::CompileError), outcome.result);
    assert_eq!(2, outcome.diagnostics.len());
}

#[test]
fn error_recovery_resumes_at_a_statement() {
    let outcome = run("print 1 print 2;");
    assert_eq!(Err(InterpretationError::CompileError), outcome.result);
    assert_eq!(1, outcome.diagnostics.len());
}

#[test]
fn empty_program_returns() {
    let outcome = run("");
    assert_eq!(Ok(()), outcome.result);
    assert!(outcome.printed.is_empty());
}

#[test]
fn numerals_are_listed_in_order() {
    assert_eq!(vec!["1", "2.5", "30"], numerals("print 1 + 2.5;\nvar a = 30;"));
    assert!(numerals("print \"12\";").is_empty());
}

#[test]
fn faults_on_malformed_bytecode() {

    let empty = Execution::new(Chunk::new(), ActiveGC::install());
    let mut empty = empty;
    assert!(matches!(empty.run(), Step::Fault(Fault::NoInstruction)));

    let mut chunk = Chunk::new();
    chunk.write_opcode(OpCode::Pop, 1);
    let mut popping = Execution::new(chunk, ActiveGC::install());
    assert!(matches!(popping.run(), Step::Fault(Fault::StackEmpty)));

    let mut chunk = Chunk::new();
    chunk.write_opcode(OpCode::Constant, 1).with_operand(200);
    let mut bad_constant = Execution::new(chunk, ActiveGC::install());
    assert!(matches!(bad_constant.run(), Step::Fault(Fault::NoConstant)));

    let mut chunk = Chunk::new();
    chunk.write_opcode(OpCode::Nil, 1).with_operand(99);
    let mut bad_opcode = Execution::new(chunk, ActiveGC::install());
    assert!(matches!(bad_opcode.run(), Step::Fault(Fault::InvalidOpcode(1))));
}

#[test]
fn arithmetic_stops_the_machine() {

    let mut chunk = Chunk::new();
    let a = chunk.add_constant(Value::Number(2.0f64.to_bits())).unwrap();
    let b = chunk.add_constant(Value::Number(0.5f64.to_bits())).unwrap();
    chunk.write_opcode(OpCode::Constant, 1).with_operand(a);
    chunk.write_opcode(OpCode::Constant, 1).with_operand(b);
    chunk.write_opcode(OpCode::Subtract, 1);
    chunk.write_opcode(OpCode::Print, 1);
    chunk.write_opcode(OpCode::Return, 1);
    let mut execution = Execution::new(chunk, ActiveGC::install());
    match execution.run() {
        Step::Arithmetic { op, lhs, rhs } => {
            assert_eq!(Arithmetic::Subtract, op);
            assert_eq!(2.0f64.to_bits(), lhs);
            assert_eq!(0.5f64.to_bits(), rhs);
        },
        other => panic!("unexpected {other:?}"),
    }
    execution.resume(Value::Number(1.5f64.to_bits()));
    match execution.run() {
        Step::Print(value) => assert_eq!(Value::Number(1.5f64.to_bits()), value),
        other => panic!("unexpected {other:?}"),
    }
    assert!(matches!(execution.run(), Step::Return));
}

#[test]
fn set_global_pops_and_assigns() {
    let mut chunk = Chunk::new();
    let name = chunk.add_constant(Value::LoxString("n".to_owned())).unwrap();
    let first = chunk.add_constant(Value::Boolean(false)).unwrap();
    let second = chunk.add_constant(Value::Boolean(true)).unwrap();
    chunk.write_opcode(OpCode::Constant, 1).with_operand(first);
    chunk.write_opcode(OpCode::DefineGlobal, 1).with_operand(name);
    chunk.write_opcode(OpCode::Constant, 2).with_operand(second);
    chunk.write_opcode(OpCode::SetGlobal, 2).with_operand(name);
    chunk.write_opcode(OpCode::Return, 2);
    chunk.write_opcode(OpCode::GetGlobal, 3).with_operand(name);
    chunk.write_opcode(OpCode::Print, 3);
    chunk.write_opcode(OpCode::Return, 3);
    let mut execution = Execution::new(chunk, ActiveGC::install());
    assert!(matches!(execution.run(), Step::Return));
    assert!(execution.stack().is_empty());
    // Run on past the first `Return`: the global holds the assigned value.
    assert!(execution.step().is_none());
    match execution.run() {
        Step::Print(value) => assert_eq!(Value::Boolean(true), value),
        other => panic!("unexpected {other:?}"),
    }
}

#[test]
fn assignment_expressions_leave_their_value() {
    let outcome = run("var a = 1; var b = 2; print a = b = 3; print a + b;");
    assert_eq!(vec!["3", "6"], outcome.printed);
    assert_eq!(Ok(()), outcome.result);
}
