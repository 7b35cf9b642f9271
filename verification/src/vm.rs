//! The bytecode virtual machine.
//!
//! An [Execution] runs a chunk until it needs the world outside: a value to print, or a
//! floating-point operation on two numbers (the library holds numbers as bit patterns and does
//! no floating-point arithmetic). It then returns a [Step] saying what is needed; the caller
//! does it, hands back a computed result with [Execution::resume], and runs on. What one
//! instruction does is stated by [step_spec]; [Execution::run] is proved to follow it.
use crate::chunk::{
    decode_opcode, lemma_opcode_encoding, opcode_byte, BytecodeEntry, Chunk, ChunkView, OpCode,
};
use crate::debug::instruction_width;
use crate::compiler::{compile, diagnostic_views, result_of, Diagnostic};
use crate::error::InterpretationError;
use crate::gc::ActiveGC;
use crate::grammar::{compile_spec, numeral_texts, DiagnosticView};
use crate::value::{falsy, lox_equal, negate_bits, negate_number, Value, ValueView};
use vstd::hash_map::StringHashMap;
use vstd::prelude::*;
use vstd::string::*;

verus! {

/// Used as the minimum capacity of the stack.
/// Since we're using a growable [Vec], the stack size can be arbitrarily large.
pub const STACK_SIZE: usize = 256;

/// Maintains state for the Lox virtual machine.
#[derive(Default)]
pub struct VM {}

/// A floating-point operation that the machine needs done on two numbers.
#[derive(Clone, Copy, Debug, PartialEq, Eq, Structural)]
pub enum Arithmetic {
    /// `lhs > rhs`, a boolean
    Greater,
    /// `lhs < rhs`, a boolean
    Less,
    /// `lhs + rhs`, a number
    Add,
    /// `lhs - rhs`, a number
    Subtract,
    /// `lhs * rhs`, a number
    Multiply,
    /// `lhs / rhs`, a number
    Divide,
}

/// An error in the Lox program, found while running it.
#[derive(Debug)]
pub enum RuntimeError {
    /// Reading a global variable that was never defined.
    UndefinedGlobal(String),
    /// Assigning to a global variable that was never defined.
    UndefinedVariable(String),
    /// `+` on values that are not two numbers or two strings.
    CannotAdd,
    /// A comparison or arithmetic operator on values that are not two numbers.
    OperandsMustBeNumbers,
    /// Negating a value that is not a number.
    OperandMustBeNumber,
}

/// Bytecode that the machine cannot run: a missing or invalid byte, an empty stack, and the
/// like. Chunks from the compiler have none of these.
#[derive(Clone, Copy, Debug, PartialEq, Eq, Structural)]
pub enum Fault {
    /// There is no instruction at the instruction pointer.
    NoInstruction,
    /// An instruction's operand is missing.
    NoOperand,
    /// An operand names no constant.
    NoConstant,
    /// A global's name is not a string.
    NameNotString,
    /// The value stack is empty.
    StackEmpty,
    /// A local variable's slot is beyond the stack.
    NoLocal,
    /// The byte at the given offset is no opcode.
    InvalidOpcode(usize),
}

/// What the machine needs when it stops running.
#[derive(Debug)]
pub enum Step {
    /// Print this value, then run on.
    Print(Value),
    /// Compute `lhs op rhs` on the two numbers' binary64 values and [Execution::resume] with
    /// the result (a number, or a boolean for comparisons), then run on.
    Arithmetic { op: Arithmetic, lhs: u64, rhs: u64 },
    /// The program failed; the value stack has been cleared. The line is that of the byte after
    /// the failing instruction, when there is one.
    RuntimeError { error: RuntimeError, line: Option<usize> },
    /// The chunk returned: the program finished.
    Return,
    /// The bytecode is malformed.
    Fault(Fault),
}

/// The mathematical content of a [RuntimeError].
pub enum RuntimeErrorView {
    UndefinedGlobal(Seq<char>),
    UndefinedVariable(Seq<char>),
    CannotAdd,
    OperandsMustBeNumbers,
    OperandMustBeNumber,
}

/// The mathematical content of a [Step].
pub enum StepView {
    Print(ValueView),
    Arithmetic(Arithmetic, u64, u64),
    RuntimeError(RuntimeErrorView, Option<usize>),
    Return,
    Fault(Fault),
}

impl View for RuntimeError {
    type V = RuntimeErrorView;

    open spec fn view(&self) -> RuntimeErrorView {
        match self {
            RuntimeError::UndefinedGlobal(name) => RuntimeErrorView::UndefinedGlobal(name@),
            RuntimeError::UndefinedVariable(name) => RuntimeErrorView::UndefinedVariable(name@),
            RuntimeError::CannotAdd => RuntimeErrorView::CannotAdd,
            RuntimeError::OperandsMustBeNumbers => RuntimeErrorView::OperandsMustBeNumbers,
            RuntimeError::OperandMustBeNumber => RuntimeErrorView::OperandMustBeNumber,
        }
    }
}

impl View for Step {
    type V = StepView;

    open spec fn view(&self) -> StepView {
        match self {
            Step::Print(v) => StepView::Print(v@),
            Step::Arithmetic { op, lhs, rhs } => StepView::Arithmetic(*op, *lhs, *rhs),
            Step::RuntimeError { error, line } => StepView::RuntimeError(error@, *line),
            Step::Return => StepView::Return,
            Step::Fault(f) => StepView::Fault(*f),
        }
    }
}

/// The state of a running chunk: the instruction pointer, the value stack, the chunk, the
/// global variables and the string store.
#[verifier::ext_equal]
pub struct ExecutionView {
    pub ip: int,
    pub stack: Seq<ValueView>,
    pub chunk: ChunkView,
    pub globals: Map<Seq<char>, ValueView>,
    pub strings: Set<Seq<char>>,
}

/////////////////////////////////////////// Semantics ////////////////////////////////////////////

impl ExecutionView {
    /// The byte at the instruction pointer, if there is one.
    pub open spec fn byte(self) -> Option<u8> {
        if 0 <= self.ip < self.chunk.code.len() {
            Some(self.chunk.code[self.ip])
        } else {
            None
        }
    }

    /// The same state, one byte further.
    pub open spec fn skip(self) -> ExecutionView {
        ExecutionView { ip: self.ip + 1, ..self }
    }

    /// The same state with `v` pushed.
    pub open spec fn push(self, v: ValueView) -> ExecutionView {
        ExecutionView { stack: self.stack.push(v), ..self }
    }

    /// The same state with the top of the stack popped.
    pub open spec fn pop(self) -> ExecutionView {
        ExecutionView { stack: self.stack.drop_last(), ..self }
    }

    /// The line of the byte at the instruction pointer, if there is one.
    pub open spec fn line(self) -> Option<usize> {
        if 0 <= self.ip < self.chunk.lines.len() {
            Some(self.chunk.lines[self.ip])
        } else {
            None
        }
    }
}

/// A runtime error: the stack is cleared, and the error is reported with the line of the byte
/// at the instruction pointer.
pub open spec fn runtime_error_spec(e: ExecutionView, error: RuntimeErrorView) -> (Option<StepView>, ExecutionView) {
    (Some(StepView::RuntimeError(error, e.line())), ExecutionView { stack: Seq::empty(), ..e })
}

/// The string constant named by the operand at the instruction pointer, and the state past the
/// operand; or the fault and the state then.
pub open spec fn name_operand_spec(e: ExecutionView) -> Result<(Seq<char>, ExecutionView), (Fault, ExecutionView)> {
    match e.byte() {
        None => Err((Fault::NoOperand, e)),
        Some(index) => if index < e.chunk.constants.len() {
            match e.chunk.constants[index as int] {
                ValueView::LoxString(name) => Ok((name, e.skip())),
                _ => Err((Fault::NameNotString, e.skip())),
            }
        } else {
            Err((Fault::NoConstant, e.skip()))
        },
    }
}

/// Popping two operands from a stack with fewer: the fault, and the state after the pops that
/// succeeded.
pub open spec fn missing_operands_spec(e: ExecutionView) -> (Option<StepView>, ExecutionView) {
    if e.stack.len() == 0 {
        (Some(StepView::Fault(Fault::StackEmpty)), e)
    } else {
        (Some(StepView::Fault(Fault::StackEmpty)), e.pop())
    }
}

/// The operation that an arithmetic or comparison opcode needs.
pub open spec fn arithmetic_of(op: OpCode) -> Option<Arithmetic> {
    match op {
        OpCode::Greater => Some(Arithmetic::Greater),
        OpCode::Less => Some(Arithmetic::Less),
        OpCode::Subtract => Some(Arithmetic::Subtract),
        OpCode::Multiply => Some(Arithmetic::Multiply),
        OpCode::Divide => Some(Arithmetic::Divide),
        _ => None,
    }
}

/// What the opcode `op` does, in state `e` (its byte already consumed): `None` when the machine
/// runs on by itself, otherwise the step it stops at; and the state after.
pub open spec fn instruction_spec(op: OpCode, e: ExecutionView) -> (Option<StepView>, ExecutionView) {
    let n = e.stack.len();
    match op {
        OpCode::Constant => match e.byte() {
            None => (Some(StepView::Fault(Fault::NoOperand)), e),
            Some(index) => if index < e.chunk.constants.len() {
                (None, e.skip().push(e.chunk.constants[index as int]))
            } else {
                (Some(StepView::Fault(Fault::NoConstant)), e.skip())
            },
        },
        OpCode::Nil => (None, e.push(ValueView::Nil)),
        OpCode::True => (None, e.push(ValueView::Boolean(true))),
        OpCode::False => (None, e.push(ValueView::Boolean(false))),
        OpCode::Pop => if n == 0 {
            (Some(StepView::Fault(Fault::StackEmpty)), e)
        } else {
            (None, e.pop())
        },
        OpCode::GetLocal => match e.byte() {
            None => (Some(StepView::Fault(Fault::NoOperand)), e),
            Some(slot) => if slot < n {
                (None, e.skip().push(e.stack[slot as int]))
            } else {
                (Some(StepView::Fault(Fault::NoLocal)), e.skip())
            },
        },
        OpCode::SetLocal => match e.byte() {
            None => (Some(StepView::Fault(Fault::NoOperand)), e),
            Some(slot) => if n == 0 {
                (Some(StepView::Fault(Fault::StackEmpty)), e.skip())
            } else if slot < n - 1 {
                let e1 = e.skip().pop();
                (None, ExecutionView { stack: e1.stack.update(slot as int, e.stack[n - 1]), ..e1 })
            } else {
                (Some(StepView::Fault(Fault::NoLocal)), e.skip().pop())
            },
        },
        OpCode::GetGlobal => match name_operand_spec(e) {
            Err((f, e1)) => (Some(StepView::Fault(f)), e1),
            Ok((name, e1)) => if e1.globals.contains_key(name) {
                (None, e1.push(e1.globals[name]))
            } else {
                runtime_error_spec(e1, RuntimeErrorView::UndefinedGlobal(name))
            },
        },
        OpCode::DefineGlobal => match name_operand_spec(e) {
            Err((f, e1)) => (Some(StepView::Fault(f)), e1),
            Ok((name, e1)) => if n == 0 {
                (Some(StepView::Fault(Fault::StackEmpty)), e1)
            } else {
                let e2 = e1.pop();
                (None, ExecutionView { globals: e2.globals.insert(name, e.stack[n - 1]), ..e2 })
            },
        },
        OpCode::SetGlobal => match name_operand_spec(e) {
            Err((f, e1)) => (Some(StepView::Fault(f)), e1),
            Ok((name, e1)) => if n == 0 {
                (Some(StepView::Fault(Fault::StackEmpty)), e1)
            } else {
                let e2 = e1.pop();
                if e2.globals.contains_key(name) {
                    (None, ExecutionView { globals: e2.globals.insert(name, e.stack[n - 1]), ..e2 })
                } else {
                    runtime_error_spec(e2, RuntimeErrorView::UndefinedVariable(name))
                }
            },
        },
        OpCode::Equal => if n < 2 {
            missing_operands_spec(e)
        } else {
            (
                None,
                e.pop().pop().push(ValueView::Boolean(lox_equal(e.stack[n - 2], e.stack[n - 1]))),
            )
        },
        OpCode::Add => if n < 2 {
            missing_operands_spec(e)
        } else {
            let e1 = e.pop().pop();
            match (e.stack[n - 2], e.stack[n - 1]) {
                (ValueView::Number(a), ValueView::Number(b)) => (
                    Some(StepView::Arithmetic(Arithmetic::Add, a, b)),
                    e1,
                ),
                (ValueView::LoxString(a), ValueView::LoxString(b)) => (
                    None,
                    ExecutionView { strings: e1.strings.insert(a + b), ..e1 }.push(
                        ValueView::LoxString(a + b),
                    ),
                ),
                _ => runtime_error_spec(e1, RuntimeErrorView::CannotAdd),
            }
        },
        OpCode::Not => if n == 0 {
            (Some(StepView::Fault(Fault::StackEmpty)), e)
        } else {
            (None, e.pop().push(ValueView::Boolean(falsy(e.stack[n - 1]))))
        },
        OpCode::Negate => if n == 0 {
            (Some(StepView::Fault(Fault::StackEmpty)), e)
        } else {
            match e.stack[n - 1] {
                ValueView::Number(x) => (None, e.pop().push(ValueView::Number(negate_bits(x)))),
                _ => runtime_error_spec(e.pop(), RuntimeErrorView::OperandMustBeNumber),
            }
        },
        OpCode::Print => if n == 0 {
            (Some(StepView::Fault(Fault::StackEmpty)), e)
        } else {
            (Some(StepView::Print(e.stack[n - 1])), e.pop())
        },
        OpCode::Return => (Some(StepView::Return), e),
        _ => {
            // Greater, Less, Subtract, Multiply, Divide
            if n < 2 {
                missing_operands_spec(e)
            } else {
                let e1 = e.pop().pop();
                match (e.stack[n - 2], e.stack[n - 1]) {
                    (ValueView::Number(a), ValueView::Number(b)) => (
                        Some(StepView::Arithmetic(arithmetic_of(op)->0, a, b)),
                        e1,
                    ),
                    _ => runtime_error_spec(e1, RuntimeErrorView::OperandsMustBeNumbers),
                }
            }
        },
    }
}

/// One instruction: fetch the opcode at the instruction pointer and do what it says.
pub open spec fn step_spec(e: ExecutionView) -> (Option<StepView>, ExecutionView) {
    match e.byte() {
        None => (Some(StepView::Fault(Fault::NoInstruction)), e),
        Some(byte) => match decode_opcode(byte) {
            None => (Some(StepView::Fault(Fault::InvalidOpcode(e.ip as usize))), e.skip()),
            Some(op) => instruction_spec(op, e.skip()),
        },
    }
}

/// Run instructions until one stops the machine: that step, and the state then.
pub open spec fn run_spec(e: ExecutionView) -> (StepView, ExecutionView)
    decreases e.chunk.code.len() - e.ip,
{
    let (step, e1) = step_spec(e);
    match step {
        Some(s) => (s, e1),
        None => if e.ip < e1.ip <= e.chunk.code.len() {
            run_spec(e1)
        } else {
            (StepView::Fault(Fault::NoInstruction), e1)
        },
    }
}

/// A fresh machine on a chunk: at its first byte, with an empty stack and no globals.
pub open spec fn execution_start(chunk: ChunkView, strings: Set<Seq<char>>) -> ExecutionView {
    ExecutionView { ip: 0, stack: Seq::empty(), chunk, globals: Map::empty(), strings }
}

/// The view of what a step of the machine produced.
pub open spec fn step_view(step: Option<Step>) -> Option<StepView> {
    match step {
        Some(s) => Some(s@),
        None => None,
    }
}

///////////////////////////////////////////// Laws ////////////////////////////////////////////////

/// A runtime error leaves the value stack empty, whether it stops one step or a whole run.
pub proof fn law_runtime_error_clears_stack(e: ExecutionView)
    ensures
        step_spec(e).0 matches Some(StepView::RuntimeError(_, _)) ==> step_spec(e).1.stack.len()
            == 0,
        run_spec(e).0 matches StepView::RuntimeError(_, _) ==> run_spec(e).1.stack.len() == 0,
    decreases e.chunk.code.len() - e.ip,
{
    let (step, e1) = step_spec(e);
    if step is None && e.ip < e1.ip <= e.chunk.code.len() {
        law_runtime_error_clears_stack(e1);
    }
}

/// An instruction that does not stop the machine moves the instruction pointer forward, never
/// past the end of the chunk, and never changes the chunk.
pub proof fn law_step_progress(e: ExecutionView)
    requires
        0 <= e.ip,
    ensures
        step_spec(e).1.chunk == e.chunk,
        step_spec(e).0 is None ==> e.ip < step_spec(e).1.ip <= e.chunk.code.len(),
{
}

/// Reading a global gives back the value that defining it stored: `DefineGlobal` pops the top
/// of the stack into the global, and a later `GetGlobal` of the same name, while the globals
/// are unchanged, pushes that value.
pub proof fn law_define_then_get(
    e: ExecutionView,
    later: ExecutionView,
    name: Seq<char>,
    e_past_name: ExecutionView,
    later_past_name: ExecutionView,
)
    requires
        name_operand_spec(e) == Ok::<(Seq<char>, ExecutionView), (Fault, ExecutionView)>(
            (name, e_past_name),
        ),
        e.stack.len() > 0,
        later.globals == instruction_spec(OpCode::DefineGlobal, e).1.globals,
        name_operand_spec(later) == Ok::<(Seq<char>, ExecutionView), (Fault, ExecutionView)>(
            (name, later_past_name),
        ),
    ensures
        instruction_spec(OpCode::DefineGlobal, e).0 is None,
        instruction_spec(OpCode::DefineGlobal, e).1.stack == e.stack.drop_last(),
        instruction_spec(OpCode::GetGlobal, later) == (
            None::<StepView>,
            later_past_name.push(e.stack.last()),
        ),
{
    assert(later_past_name.globals == later.globals);
}

/// Assigning a global pops the top of the stack: when the global was defined, the popped value
/// is stored in it; when it was not, the assignment is a runtime error that leaves the globals
/// as they were and clears the stack.
pub proof fn law_set_global(e: ExecutionView, name: Seq<char>, e_past_name: ExecutionView)
    requires
        name_operand_spec(e) == Ok::<(Seq<char>, ExecutionView), (Fault, ExecutionView)>(
            (name, e_past_name),
        ),
        e.stack.len() > 0,
    ensures
        ({
            let (step, after) = instruction_spec(OpCode::SetGlobal, e);
            &&& e.globals.contains_key(name) ==> {
                &&& step is None
                &&& after.globals == e.globals.insert(name, e.stack.last())
                &&& after.stack == e.stack.drop_last()
            }
            &&& !e.globals.contains_key(name) ==> {
                &&& step == Some(
                    StepView::RuntimeError(
                        RuntimeErrorView::UndefinedVariable(name),
                        e_past_name.line(),
                    ),
                )
                &&& after.globals == e.globals
                &&& after.stack.len() == 0
            }
        }),
{
    assert(e_past_name.globals == e.globals);
    assert(e_past_name.stack == e.stack);
}

/// The views of a sequence of values.
pub open spec fn value_views(values: Seq<Value>) -> Seq<ValueView> {
    values.map_values(|v: Value| v@)
}

/// `Nil`, `True` and `False` push nil, true and false, and the machine runs on.
pub proof fn law_literal_instructions(e: ExecutionView)
    requires
        0 <= e.ip,
    ensures
        e.byte() == Some(opcode_byte(OpCode::Nil)) ==> step_spec(e) == (
            None::<StepView>,
            e.skip().push(ValueView::Nil),
        ),
        e.byte() == Some(opcode_byte(OpCode::True)) ==> step_spec(e) == (
            None::<StepView>,
            e.skip().push(ValueView::Boolean(true)),
        ),
        e.byte() == Some(opcode_byte(OpCode::False)) ==> step_spec(e) == (
            None::<StepView>,
            e.skip().push(ValueView::Boolean(false)),
        ),
{
    lemma_opcode_encoding(OpCode::Nil, 0);
    lemma_opcode_encoding(OpCode::True, 0);
    lemma_opcode_encoding(OpCode::False, 0);
}

/// The operators on the two values on top of the stack (`lhs` below, `rhs` on top): the
/// machine pops both; on two numbers, `Greater`, `Less`, `Add`, `Subtract`, `Multiply` and
/// `Divide` stop for that floating-point operation on `lhs` and `rhs`, in that order; `Add` of
/// two strings pushes `lhs` followed by `rhs`, and stores it; `Equal` pushes whether they are
/// equal in Lox.
pub proof fn law_binary_instructions(e: ExecutionView, op: OpCode, lhs: ValueView, rhs: ValueView)
    requires
        0 <= e.ip,
        e.byte() == Some(opcode_byte(op)),
        e.stack.len() >= 2,
        e.stack[e.stack.len() - 2] == lhs,
        e.stack[e.stack.len() - 1] == rhs,
    ensures
        ({
            let (step, after) = step_spec(e);
            let popped = e.skip().pop().pop();
            &&& op == OpCode::Equal ==> step is None && after == popped.push(
                ValueView::Boolean(lox_equal(lhs, rhs)),
            )
            &&& (lhs is Number && rhs is Number) ==> {
                let (a, b) = (lhs->Number_0, rhs->Number_0);
                &&& op == OpCode::Greater ==> step == Some(
                    StepView::Arithmetic(Arithmetic::Greater, a, b),
                ) && after == popped
                &&& op == OpCode::Less ==> step == Some(StepView::Arithmetic(Arithmetic::Less, a, b))
                    && after == popped
                &&& op == OpCode::Add ==> step == Some(StepView::Arithmetic(Arithmetic::Add, a, b))
                    && after == popped
                &&& op == OpCode::Subtract ==> step == Some(
                    StepView::Arithmetic(Arithmetic::Subtract, a, b),
                ) && after == popped
                &&& op == OpCode::Multiply ==> step == Some(
                    StepView::Arithmetic(Arithmetic::Multiply, a, b),
                ) && after == popped
                &&& op == OpCode::Divide ==> step == Some(
                    StepView::Arithmetic(Arithmetic::Divide, a, b),
                ) && after == popped
            }
            &&& (lhs is LoxString && rhs is LoxString && op == OpCode::Add) ==> {
                let joined = lhs->LoxString_0 + rhs->LoxString_0;
                &&& step is None
                &&& after.stack == popped.stack.push(ValueView::LoxString(joined))
                &&& after.strings == e.strings.insert(joined)
            }
        }),
{
    lemma_opcode_encoding(op, 0);
}

/// The operators on the value on top of the stack: `Not` replaces it with whether it is nil or
/// false; `Negate` replaces a number with its negation (its sign bit flipped); `Print` pops it
/// and stops to print it.
pub proof fn law_unary_instructions(e: ExecutionView, op: OpCode, top: ValueView)
    requires
        0 <= e.ip,
        e.byte() == Some(opcode_byte(op)),
        e.stack.len() >= 1,
        e.stack.last() == top,
    ensures
        ({
            let (step, after) = step_spec(e);
            let popped = e.skip().pop();
            &&& op == OpCode::Not ==> step is None && after == popped.push(
                ValueView::Boolean(top == ValueView::Nil || top == ValueView::Boolean(false)),
            )
            &&& (op == OpCode::Negate && top is Number) ==> {
                let x = top->Number_0;
                &&& step is None
                &&& after == popped.push(
                    ValueView::Number(
                        if x >= 0x8000_0000_0000_0000 {
                            (x - 0x8000_0000_0000_0000) as u64
                        } else {
                            (x + 0x8000_0000_0000_0000) as u64
                        },
                    ),
                )
            }
            &&& op == OpCode::Print ==> step == Some(StepView::Print(top)) && after == popped
        }),
{
    lemma_opcode_encoding(op, 0);
}

/// The disassembler steps over instructions exactly as the machine does: an instruction that the
/// machine executes without a fault or a runtime error moves the instruction pointer on by the
/// instruction's width in the disassembly, operand included.
pub proof fn law_step_matches_disassembly(e: ExecutionView, op: OpCode)
    requires
        0 <= e.ip,
        e.byte() == Some(opcode_byte(op)),
    ensures
        ({
            let (step, after) = step_spec(e);
            (step is None || step matches Some(StepView::Print(_)) || step matches Some(
                StepView::Arithmetic(_, _, _),
            ) || step matches Some(StepView::Return)) ==> after.ip == e.ip + instruction_width(op)
        }),
{
    lemma_opcode_encoding(op, 0);
}

/// A machine running a chunk.
pub struct Execution {
    /// Instruction pointer: index into the chunk of the next byte to be executed.
    ip: usize,
    /// Value stack: modified as elements are pushed and popped from the stack.
    stack: Vec<Value>,
    chunk: Chunk,
    /// The globals in this program.
    globals: StringHashMap<Value>,
    /// The strings of the running program.
    gc: ActiveGC,
}

impl View for Execution {
    type V = ExecutionView;

    closed spec fn view(&self) -> ExecutionView {
        ExecutionView {
            ip: self.ip as int,
            stack: value_views(self.stack@),
            chunk: self.chunk@,
            globals: self.globals@.map_values(|v: Value| v@),
            strings: self.gc@,
        }
    }
}

impl Execution {
    /// The chunk is well formed, the store keeps each string once, and the instruction pointer
    /// lies within the chunk.
    pub closed spec fn wf(&self) -> bool {
        &&& self.chunk@.valid()
        &&& self.gc.wf()
        &&& self.ip <= self.chunk@.code.len()
    }

    /// A machine at the start of `chunk`, with the strings of `gc`.
    pub fn new(chunk: Chunk, gc: ActiveGC) -> (execution: Execution)
        requires
            chunk@.valid(),
            gc.wf(),
        ensures
            execution.wf(),
            execution@ == execution_start(chunk@, gc@),
    {
        let execution = Execution {
            ip: 0,
            stack: Vec::with_capacity(STACK_SIZE),
            chunk,
            globals: StringHashMap::new(),
            gc,
        };
        assert(execution@ =~= execution_start(chunk@, gc@));
        execution
    }

    /// The main opcode interpreter loop: runs until an instruction needs the world outside.
    pub fn run(&mut self) -> (step: Step)
        requires
            old(self).wf(),
        ensures
            final(self).wf(),
            (step@, final(self)@) == run_spec(old(self)@),
    {
        loop
            invariant
                self.wf(),
                run_spec(self@) == run_spec(old(self)@),
            decreases self.chunk@.code.len() - self.ip,
        {
            let ghost before = self@;
            if let Some(step) = self.step() {
                return step;
            }
            assert(before.ip < self@.ip <= before.chunk.code.len());
        }
    }

    /// The instruction pointer: the offset of the next byte to execute.
    pub fn ip(&self) -> (ip: usize)
        ensures
            ip == self@.ip,
    {
        self.ip
    }

    /// The value stack, from bottom to top.
    pub fn stack(&self) -> (stack: &Vec<Value>)
        ensures
            value_views(stack@) == self@.stack,
    {
        &self.stack
    }

    /// The chunk that the machine runs.
    pub fn chunk(&self) -> (chunk: &Chunk)
        ensures
            chunk@ == self@.chunk,
    {
        &self.chunk
    }

    /// Pushes the result of the floating-point operation that the machine stopped for.
    pub fn resume(&mut self, result: Value)
        requires
            old(self).wf(),
        ensures
            final(self).wf(),
            final(self)@ == old(self)@.push(result@),
    {
        self.push(result);
    }

    /// Fetch and execute one instruction. `None` when the machine runs on by itself.
    pub fn step(&mut self) -> (step: Option<Step>)
        requires
            old(self).wf(),
        ensures
            final(self).wf(),
            (step_view(step), final(self)@) == step_spec(old(self)@),
            step is None ==> old(self)@.ip < final(self)@.ip,
    {
        let opcode = match self.next_bytecode() {
            Some(entry) => entry.as_opcode(),
            None => return Some(Step::Fault(Fault::NoInstruction)),
        };
        match opcode {
            Some(op) => self.instruction(op),
            None => Some(Step::Fault(Fault::InvalidOpcode(self.ip - 1))),
        }
    }

    /// Execute the instruction of the opcode just fetched.
    fn instruction(&mut self, op: OpCode) -> (step: Option<Step>)
        requires
            old(self).wf(),
        ensures
            final(self).wf(),
            (step_view(step), final(self)@) == instruction_spec(op, old(self)@),
            step is None ==> old(self)@.ip <= final(self)@.ip,
    {
        match op {
            OpCode::Constant => {
                let entry = match self.next_bytecode() {
                    Some(entry) => entry,
                    None => return Some(Step::Fault(Fault::NoOperand)),
                };
                let constant = match entry.resolve_constant() {
                    Some(constant) => constant,
                    None => return Some(Step::Fault(Fault::NoConstant)),
                };
                self.push(constant);
                None
            },
            OpCode::Nil => {
                self.push(Value::Nil);
                None
            },
            OpCode::True => {
                self.push(Value::Boolean(true));
                None
            },
            OpCode::False => {
                self.push(Value::Boolean(false));
                None
            },
            OpCode::Pop => match self.pop() {
                Some(_) => None,
                None => Some(Step::Fault(Fault::StackEmpty)),
            },
            OpCode::GetLocal => {
                let slot = match self.next_bytecode() {
                    Some(entry) => entry.as_constant_index(),
                    None => return Some(Step::Fault(Fault::NoOperand)),
                };
                if slot < self.stack.len() {
                    let value = self.stack[slot].clone();
                    self.push(value);
                    None
                } else {
                    Some(Step::Fault(Fault::NoLocal))
                }
            },
            OpCode::SetLocal => {
                let slot = match self.next_bytecode() {
                    Some(entry) => entry.as_constant_index(),
                    None => return Some(Step::Fault(Fault::NoOperand)),
                };
                let value = match self.pop() {
                    Some(value) => value,
                    None => return Some(Step::Fault(Fault::StackEmpty)),
                };
                if slot < self.stack.len() {
                    self.stack.set(slot, value);
                    None
                } else {
                    Some(Step::Fault(Fault::NoLocal))
                }
            },
            OpCode::GetGlobal => {
                let name = match self.next_string_constant() {
                    Ok(name) => name,
                    Err(fault) => return Some(Step::Fault(fault)),
                };
                let found = match self.globals.get(name.as_str()) {
                    Some(value) => Some(value.clone()),
                    None => None,
                };
                match found {
                    Some(value) => {
                        self.push(value);
                        None
                    },
                    None => Some(self.runtime_error(RuntimeError::UndefinedGlobal(name))),
                }
            },
            OpCode::DefineGlobal => {
                let name = match self.next_string_constant() {
                    Ok(name) => name,
                    Err(fault) => return Some(Step::Fault(fault)),
                };
                let value = match self.pop() {
                    Some(value) => value,
                    None => return Some(Step::Fault(Fault::StackEmpty)),
                };
                self.globals.insert(name, value);
                None
            },
            OpCode::SetGlobal => {
                let name = match self.next_string_constant() {
                    Ok(name) => name,
                    Err(fault) => return Some(Step::Fault(fault)),
                };
                let value = match self.pop() {
                    Some(value) => value,
                    None => return Some(Step::Fault(Fault::StackEmpty)),
                };
                let defined = self.globals.contains_key(name.as_str());
                self.globals.insert(name.clone(), value);
                if !defined {
                    // Tried to assign to an undefined global variable.
                    // First, clean up the variable we accidentally created...
                    self.globals.remove(name.as_str());
                    // THEN, report an error.
                    return Some(self.runtime_error(RuntimeError::UndefinedVariable(name)));
                }
                None
            },
            OpCode::Equal => {
                let rhs = match self.pop() {
                    Some(value) => value,
                    None => return Some(Step::Fault(Fault::StackEmpty)),
                };
                let lhs = match self.pop() {
                    Some(value) => value,
                    None => return Some(Step::Fault(Fault::StackEmpty)),
                };
                self.push(Value::Boolean(lhs.equal(&rhs)));
                None
            },
            OpCode::Greater => self.binary_op(Arithmetic::Greater),
            OpCode::Less => self.binary_op(Arithmetic::Less),
            OpCode::Add => {
                let rhs = match self.pop() {
                    Some(value) => value,
                    None => return Some(Step::Fault(Fault::StackEmpty)),
                };
                let lhs = match self.pop() {
                    Some(value) => value,
                    None => return Some(Step::Fault(Fault::StackEmpty)),
                };
                match (lhs, rhs) {
                    (Value::Number(a), Value::Number(b)) => Some(
                        Step::Arithmetic { op: Arithmetic::Add, lhs: a, rhs: b },
                    ),
                    (Value::LoxString(a), Value::LoxString(b)) => {
                        let mut joined = a;
                        joined.append(b.as_str());
                        self.gc.store_string(joined.clone());
                        self.push(Value::LoxString(joined));
                        None
                    },
                    _ => Some(self.runtime_error(RuntimeError::CannotAdd)),
                }
            },
            OpCode::Subtract => self.binary_op(Arithmetic::Subtract),
            OpCode::Multiply => self.binary_op(Arithmetic::Multiply),
            OpCode::Divide => self.binary_op(Arithmetic::Divide),
            OpCode::Not => match self.pop() {
                Some(value) => {
                    self.push(Value::Boolean(value.is_falsy()));
                    None
                },
                None => Some(Step::Fault(Fault::StackEmpty)),
            },
            OpCode::Negate => match self.pop() {
                Some(Value::Number(number)) => {
                    self.push(Value::Number(negate_number(number)));
                    None
                },
                Some(_) => Some(self.runtime_error(RuntimeError::OperandMustBeNumber)),
                None => Some(Step::Fault(Fault::StackEmpty)),
            },
            OpCode::Print => match self.pop() {
                Some(value) => Some(Step::Print(value)),
                None => Some(Step::Fault(Fault::StackEmpty)),
            },
            OpCode::Return => Some(Step::Return),
        }
    }

    /// Raises a runtime error: clears the stack and reports the line of the byte at the
    /// instruction pointer.
    fn runtime_error(&mut self, error: RuntimeError) -> (step: Step)
        requires
            old(self).wf(),
        ensures
            final(self).wf(),
            (Some(step@), final(self)@) == runtime_error_spec(old(self)@, error@),
    {
        let line = self.chunk.line_number_for(self.ip);
        self.reset_stack();
        Step::RuntimeError { error, line }
    }

    /// Pops two operands: numbers stop the machine for the floating-point operation `op`,
    /// anything else is a runtime error.
    fn binary_op(&mut self, op: Arithmetic) -> (step: Option<Step>)
        requires
            old(self).wf(),
        ensures
            final(self).wf(),
            ({
                let n = old(self)@.stack.len();
                if n < 2 {
                    (step_view(step), final(self)@) == missing_operands_spec(old(self)@)
                } else {
                    let e1 = old(self)@.pop().pop();
                    (step_view(step), final(self)@) == match (
                        old(self)@.stack[n - 2],
                        old(self)@.stack[n - 1],
                    ) {
                        (ValueView::Number(a), ValueView::Number(b)) => (
                            Some(StepView::Arithmetic(op, a, b)),
                            e1,
                        ),
                        _ => runtime_error_spec(e1, RuntimeErrorView::OperandsMustBeNumbers),
                    }
                }
            }),
    {
        let rhs = match self.pop() {
            Some(value) => value,
            None => return Some(Step::Fault(Fault::StackEmpty)),
        };
        let lhs = match self.pop() {
            Some(value) => value,
            None => return Some(Step::Fault(Fault::StackEmpty)),
        };
        match (lhs, rhs) {
            (Value::Number(a), Value::Number(b)) => Some(Step::Arithmetic { op, lhs: a, rhs: b }),
            (_, _) => Some(self.runtime_error(RuntimeError::OperandsMustBeNumbers)),
        }
    }

    /// Pushes a [Value] on to the value stack.
    fn push(&mut self, value: Value)
        requires
            old(self).wf(),
        ensures
            final(self).wf(),
            final(self)@ == old(self)@.push(value@),
    {
        self.stack.push(value);
        assert(self@ =~= old(self)@.push(value@));
    }

    /// Pops and returns the top [Value] on the value stack; `None` when it is empty.
    fn pop(&mut self) -> (value: Option<Value>)
        requires
            old(self).wf(),
        ensures
            final(self).wf(),
            old(self)@.stack.len() == 0 ==> value is None && final(self)@ == old(self)@,
            old(self)@.stack.len() > 0 ==> (value matches Some(v) && v@ == old(self)@.stack.last()
                && final(self)@ == old(self)@.pop()),
    {
        let value = self.stack.pop();
        assert(self@ =~= old(self)@.pop() || old(self)@.stack.len() == 0);
        value
    }

    /// Clears the stack.
    fn reset_stack(&mut self)
        requires
            old(self).wf(),
        ensures
            final(self).wf(),
            final(self)@ == (ExecutionView { stack: Seq::empty(), ..old(self)@ }),
    {
        self.stack.clear();
        assert(self@ =~= ExecutionView { stack: Seq::empty(), ..old(self)@ });
    }

    /// Fetches the byte at the instruction pointer, and moves past it when there is one.
    fn next_bytecode(&mut self) -> (entry: Option<BytecodeEntry<'_>>)
        requires
            old(self).wf(),
        ensures
            final(self).wf(),
            entry is Some <==> old(self)@.byte() is Some,
            entry matches Some(e) ==> e.byte() == old(self)@.byte()->0 && e.chunk()
                == old(self)@.chunk && final(self)@ == old(self)@.skip(),
            entry is None ==> final(self)@ == old(self)@,
    {
        if self.ip < self.chunk.len() {
            let byte = self.chunk.get(self.ip);
            self.ip = self.ip + 1;
            byte
        } else {
            None
        }
    }

    /// Fetches the operand and resolves it as the name of a global: a string constant.
    fn next_string_constant(&mut self) -> (name: Result<String, Fault>)
        requires
            old(self).wf(),
        ensures
            final(self).wf(),
            match (name, name_operand_spec(old(self)@)) {
                (Ok(n), Ok((spec_name, e1))) => n@ == spec_name && final(self)@ == e1,
                (Err(f), Err((spec_fault, e1))) => f == spec_fault && final(self)@ == e1,
                _ => false,
            },
    {
        let entry = match self.next_bytecode() {
            Some(entry) => entry,
            None => return Err(Fault::NoOperand),
        };
        match entry.resolve_constant() {
            Some(Value::LoxString(name)) => Ok(name),
            Some(_) => Err(Fault::NameNotString),
            None => Err(Fault::NoConstant),
        }
    }
}

/// What starting to interpret some source produced.
pub struct Interpretation<'a> {
    /// The compile errors reported, in order.
    pub diagnostics: Vec<Diagnostic<'a>>,
    /// The compile error, or the machine, ready to run the compiled chunk.
    pub execution: crate::Result<Execution>,
}

/// The view of an interpretation's machine.
pub open spec fn execution_view(execution: crate::Result<Execution>) -> Result<
    ExecutionView,
    InterpretationError,
> {
    match execution {
        Ok(e) => Ok(e@),
        Err(err) => Err(err),
    }
}

/// The machines that interpretation may hand out: well formed ones.
pub open spec fn execution_ready(execution: crate::Result<Execution>) -> bool {
    execution matches Ok(e) ==> e.wf()
}

impl VM {
    /// Compile `source` (see [compile]) with a fresh string store, and prepare a machine to run
    /// the chunk with no globals.
    pub fn interpret<'a>(&mut self, source: &'a str, numerals: &[u64]) -> (interpretation: Interpretation<'a>)
        requires
            source@.len() < usize::MAX,
            numerals@.len() == numeral_texts(source@).len(),
        ensures
            ({
                let end = compile_spec(source@, Set::empty(), numerals@);
                &&& diagnostic_views(interpretation.diagnostics@) == end.parser.diagnostics
                &&& execution_view(interpretation.execution) == match result_of(end) {
                    Err(e) => Err(e),
                    Ok(chunk) => Ok(execution_start(chunk, end.strings)),
                }
            }),
            execution_ready(interpretation.execution),
            interpretation.execution is Err <==> interpretation.diagnostics@.len() > 0,
    {
        let mut gc = ActiveGC::install();
        let compilation = compile(source, &mut gc, numerals);
        let execution = match compilation.result {
            Err(e) => Err(e),
            Ok(chunk) => Ok(Execution::new(chunk, gc)),
        };
        Interpretation { diagnostics: compilation.diagnostics, execution }
    }
}

} // verus!
