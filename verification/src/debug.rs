//! Disassembly of a [Chunk]: what each instruction is, where it stands, and what it refers to.
//!
//! The functions here compute the listing; printing it is left to the caller.
use crate::chunk::{decode_opcode, Chunk, ChunkView, OpCode};
use crate::value::{Value, ValueView};
use vstd::prelude::*;

verus! {

/// What follows an opcode in the byte stream.
#[derive(Clone, Copy, PartialEq, Eq, Debug, Structural)]
pub enum OperandKind {
    /// Nothing: the instruction is one byte long.
    Simple,
    /// One byte, a slot on the value stack.
    Slot,
    /// One byte, an index into the constant pool.
    Constant,
}

/// The operand of an instruction, decoded.
#[derive(Debug)]
pub enum Operand {
    /// The instruction has no operand.
    Simple,
    /// A slot on the value stack.
    Slot(u8),
    /// An index into the constant pool, and the constant found there.
    Constant(usize, Value),
}

/// The mathematical content of an [Operand].
pub enum OperandView {
    Simple,
    Slot(u8),
    Constant(int, ValueView),
}

/// One disassembled instruction.
#[derive(Debug)]
pub struct Instruction {
    /// Where the instruction starts in the byte stream.
    pub offset: usize,
    /// The line of the instruction; `None` when it is the line of the byte before it.
    pub line: Option<usize>,
    /// The instruction's opcode.
    pub opcode: OpCode,
    /// The instruction's operand.
    pub operand: Operand,
    /// Where the next instruction starts.
    pub next: usize,
}

/// The mathematical content of an [Instruction].
pub struct InstructionView {
    pub offset: int,
    pub line: Option<usize>,
    pub opcode: OpCode,
    pub operand: OperandView,
    pub next: int,
}

/// Why a byte stream could not be disassembled at some offset.
#[derive(Clone, Copy, PartialEq, Eq, Debug, Structural)]
pub enum DisassemblyError {
    /// The offset is past the end of the byte stream.
    OffsetTooLarge,
    /// The byte at the offset is not an opcode.
    InvalidOpcode,
    /// The opcode needs an operand, but the byte stream ends after it.
    MissingOperand,
    /// The operand is not an index into the constant pool.
    InvalidConstant,
}

/// The disassembly of a whole chunk: the instructions from its start, and the error that
/// stopped the listing early, if one did.
#[derive(Debug)]
pub struct Listing {
    /// The instructions, in order.
    pub instructions: Vec<Instruction>,
    /// Why the listing stopped before the end of the byte stream, if it did.
    pub error: Option<DisassemblyError>,
}

impl View for Operand {
    type V = OperandView;

    open spec fn view(&self) -> OperandView {
        match self {
            Operand::Simple => OperandView::Simple,
            Operand::Slot(s) => OperandView::Slot(*s),
            Operand::Constant(i, v) => OperandView::Constant(*i as int, v@),
        }
    }
}

impl View for Instruction {
    type V = InstructionView;

    open spec fn view(&self) -> InstructionView {
        InstructionView {
            offset: self.offset as int,
            line: self.line,
            opcode: self.opcode,
            operand: self.operand@,
            next: self.next as int,
        }
    }
}

/// The views of a sequence of instructions.
pub open spec fn instruction_views(s: Seq<Instruction>) -> Seq<InstructionView> {
    s.map_values(|i: Instruction| i@)
}

/// The operand that each opcode takes.
pub open spec fn operand_kind(op: OpCode) -> OperandKind {
    match op {
        OpCode::Constant | OpCode::GetGlobal | OpCode::DefineGlobal | OpCode::SetGlobal => {
            OperandKind::Constant
        },
        OpCode::GetLocal | OpCode::SetLocal => OperandKind::Slot,
        _ => OperandKind::Simple,
    }
}

/// How many bytes an instruction with this opcode takes.
pub open spec fn instruction_width(op: OpCode) -> int {
    if operand_kind(op) == OperandKind::Simple {
        1
    } else {
        2
    }
}

/// The line shown for the byte at `offset`: none when it is the line of the byte before.
pub open spec fn line_marker(c: ChunkView, offset: int) -> Option<usize> {
    if offset > 0 && c.lines[offset] == c.lines[offset - 1] {
        None
    } else {
        Some(c.lines[offset])
    }
}

/// The instruction that starts at `offset` in the chunk, or why there is none.
pub open spec fn disassembly_spec(c: ChunkView, offset: int) -> Result<
    InstructionView,
    DisassemblyError,
> {
    if offset < 0 || offset >= c.code.len() {
        Err(DisassemblyError::OffsetTooLarge)
    } else {
        match decode_opcode(c.code[offset]) {
            None => Err(DisassemblyError::InvalidOpcode),
            Some(op) => {
                let line = line_marker(c, offset);
                let next = offset + instruction_width(op);
                match operand_kind(op) {
                    OperandKind::Simple => Ok(
                        InstructionView {
                            offset,
                            line,
                            opcode: op,
                            operand: OperandView::Simple,
                            next,
                        },
                    ),
                    OperandKind::Slot => if offset + 1 >= c.code.len() {
                        Err(DisassemblyError::MissingOperand)
                    } else {
                        Ok(
                            InstructionView {
                                offset,
                                line,
                                opcode: op,
                                operand: OperandView::Slot(c.code[offset + 1]),
                                next,
                            },
                        )
                    },
                    OperandKind::Constant => if offset + 1 >= c.code.len() {
                        Err(DisassemblyError::MissingOperand)
                    } else if c.code[offset + 1] >= c.constants.len() {
                        Err(DisassemblyError::InvalidConstant)
                    } else {
                        let index = c.code[offset + 1] as int;
                        Ok(
                            InstructionView {
                                offset,
                                line,
                                opcode: op,
                                operand: OperandView::Constant(index, c.constants[index]),
                                next,
                            },
                        )
                    },
                }
            },
        }
    }
}

/// The listing of the chunk from `offset` on: each instruction in turn, until the end of the
/// byte stream or the first error.
pub open spec fn listing_spec(c: ChunkView, offset: int) -> (
    Seq<InstructionView>,
    Option<DisassemblyError>,
)
    decreases c.code.len() - offset,
{
    if offset < 0 || offset >= c.code.len() {
        (Seq::empty(), None)
    } else {
        match disassembly_spec(c, offset) {
            Err(e) => (Seq::empty(), Some(e)),
            Ok(i) => {
                let rest = listing_spec(c, offset + instruction_width(i.opcode));
                (seq![i] + rest.0, rest.1)
            },
        }
    }
}

/// The assembler mnemonic of an opcode.
pub open spec fn opcode_name_spec(op: OpCode) -> Seq<char> {
    match op {
        OpCode::Constant => "OP_CONSTANT"@,
        OpCode::Nil => "OP_NIL"@,
        OpCode::True => "OP_TRUE"@,
        OpCode::False => "OP_FALSE"@,
        OpCode::Pop => "OP_POP"@,
        OpCode::GetLocal => "OP_GET_LOCAL"@,
        OpCode::SetLocal => "OP_SET_LOCAL"@,
        OpCode::GetGlobal => "OP_GET_GLOBAL"@,
        OpCode::DefineGlobal => "OP_DEFINE_GLOBAL"@,
        OpCode::SetGlobal => "OP_SET_GLOBAL"@,
        OpCode::Equal => "OP_EQUAL"@,
        OpCode::Greater => "OP_GREATER"@,
        OpCode::Less => "OP_LESS"@,
        OpCode::Add => "OP_ADD"@,
        OpCode::Subtract => "OP_SUBTRACT"@,
        OpCode::Multiply => "OP_MULTIPLY"@,
        OpCode::Divide => "OP_DIVIDE"@,
        OpCode::Not => "OP_NOT"@,
        OpCode::Negate => "OP_NEGATE"@,
        OpCode::Print => "OP_PRINT"@,
        OpCode::Return => "OP_RETURN"@,
    }
}

/// The assembler mnemonic of an opcode, such as `OP_CONSTANT`.
pub fn opcode_name(op: OpCode) -> (name: &'static str)
    ensures
        name@ == opcode_name_spec(op),
{
    match op {
        OpCode::Constant => "OP_CONSTANT",
        OpCode::Nil => "OP_NIL",
        OpCode::True => "OP_TRUE",
        OpCode::False => "OP_FALSE",
        OpCode::Pop => "OP_POP",
        OpCode::GetLocal => "OP_GET_LOCAL",
        OpCode::SetLocal => "OP_SET_LOCAL",
        OpCode::GetGlobal => "OP_GET_GLOBAL",
        OpCode::DefineGlobal => "OP_DEFINE_GLOBAL",
        OpCode::SetGlobal => "OP_SET_GLOBAL",
        OpCode::Equal => "OP_EQUAL",
        OpCode::Greater => "OP_GREATER",
        OpCode::Less => "OP_LESS",
        OpCode::Add => "OP_ADD",
        OpCode::Subtract => "OP_SUBTRACT",
        OpCode::Multiply => "OP_MULTIPLY",
        OpCode::Divide => "OP_DIVIDE",
        OpCode::Not => "OP_NOT",
        OpCode::Negate => "OP_NEGATE",
        OpCode::Print => "OP_PRINT",
        OpCode::Return => "OP_RETURN",
    }
}

/// The operand that an opcode takes.
pub fn operand_kind_of(op: OpCode) -> (kind: OperandKind)
    ensures
        kind == operand_kind(op),
{
    match op {
        OpCode::Constant | OpCode::GetGlobal | OpCode::DefineGlobal | OpCode::SetGlobal => {
            OperandKind::Constant
        },
        OpCode::GetLocal | OpCode::SetLocal => OperandKind::Slot,
        _ => OperandKind::Simple,
    }
}

/// Disassembles the whole chunk, from its first byte to its last, or to the first byte where
/// no instruction can be decoded.
pub fn disassemble_chunk(c: &Chunk) -> (listing: Listing)
    requires
        c@.valid(),
    ensures
        instruction_views(listing.instructions@) == listing_spec(c@, 0).0,
        listing.error == listing_spec(c@, 0).1,
{
    let mut instructions: Vec<Instruction> = Vec::new();
    let mut offset: usize = 0;
    while offset < c.len()
        invariant
            c@.valid(),
            offset <= c@.code.len(),
            listing_spec(c@, 0) == (
                instruction_views(instructions@) + listing_spec(c@, offset as int).0,
                listing_spec(c@, offset as int).1,
            ),
        decreases c@.code.len() - offset,
    {
        match disassemble_instruction(c, offset) {
            Ok(instruction) => {
                let ghost before = instructions@;
                let next = instruction.next;
                proof {
                    let rest = listing_spec(c@, next as int);
                    assert(listing_spec(c@, offset as int) == (seq![instruction@] + rest.0, rest.1));
                    assert(instruction_views(before.push(instruction)) =~= instruction_views(before).push(
                        instruction@,
                    ));
                    assert(instruction_views(before) + (seq![instruction@] + rest.0) =~= instruction_views(
                        before,
                    ).push(instruction@) + rest.0);
                }
                instructions.push(instruction);
                offset = next;
            },
            Err(error) => {
                proof {
                    assert(instruction_views(instructions@) + Seq::empty() =~= instruction_views(
                        instructions@,
                    ));
                }
                return Listing { instructions, error: Some(error) };
            },
        }
    }
    proof {
        assert(instruction_views(instructions@) + Seq::empty() =~= instruction_views(instructions@));
    }
    Listing { instructions, error: None }
}

/// Disassembles the one instruction that starts at `offset`: its line, opcode and operand, and
/// where the next instruction starts.
pub fn disassemble_instruction(c: &Chunk, offset: usize) -> (result: Result<
    Instruction,
    DisassemblyError,
>)
    requires
        c@.valid(),
    ensures
        match result {
            Ok(i) => disassembly_spec(c@, offset as int) == Ok::<InstructionView, DisassemblyError>(
                i@,
            ),
            Err(e) => disassembly_spec(c@, offset as int) == Err::<InstructionView, DisassemblyError>(
                e,
            ),
        },
{
    let entry = match c.get(offset) {
        Some(entry) => entry,
        None => return Err(DisassemblyError::OffsetTooLarge),
    };
    let line = if offset > 0 && at_same_line_as_previous_offset(c, offset) {
        None
    } else {
        c.line_number_for(offset)
    };
    let opcode = match entry.as_opcode() {
        Some(op) => op,
        None => return Err(DisassemblyError::InvalidOpcode),
    };
    match operand_kind_of(opcode) {
        OperandKind::Simple => Ok(
            Instruction { offset, line, opcode, operand: Operand::Simple, next: offset + 1 },
        ),
        OperandKind::Slot => match c.get(offset + 1) {
            None => Err(DisassemblyError::MissingOperand),
            Some(operand) => {
                let slot = operand.as_constant_index() as u8;
                Ok(Instruction { offset, line, opcode, operand: Operand::Slot(slot), next: offset + 2 })
            },
        },
        OperandKind::Constant => match c.get(offset + 1) {
            None => Err(DisassemblyError::MissingOperand),
            Some(operand) => match operand.resolve_constant_with_index() {
                None => Err(DisassemblyError::InvalidConstant),
                Some((index, value)) => Ok(
                    Instruction {
                        offset,
                        line,
                        opcode,
                        operand: Operand::Constant(index, value),
                        next: offset + 2,
                    },
                ),
            },
        },
    }
}

/// Returns true if the byte at the given offset is on the same line as the byte before it.
fn at_same_line_as_previous_offset(chunk: &Chunk, offset: usize) -> (same: bool)
    requires
        chunk@.valid(),
        0 < offset < chunk@.code.len(),
    ensures
        same == (chunk@.lines[offset as int] == chunk@.lines[offset - 1]),
{
    match (chunk.line_number_for(offset), chunk.line_number_for(offset - 1)) {
        (Some(current_line), Some(previous_line)) => current_line == previous_line,
        _ => false,
    }
}

/// The listing covers the byte stream without gaps: its first instruction starts where the
/// listing starts, each instruction starts where the one before it ends, and a listing that
/// stopped on no error ends exactly at the end of the byte stream.
pub proof fn law_listing_contiguous(c: ChunkView, offset: int)
    requires
        0 <= offset,
    ensures
        ({
            let (l, error) = listing_spec(c, offset);
            &&& l.len() > 0 ==> l[0].offset == offset
            &&& forall|k: int| 0 <= k < l.len() - 1 ==> #[trigger] l[k + 1].offset == l[k].next
            &&& forall|k: int| 0 <= k < l.len() ==> l[k].next == l[k].offset + instruction_width(
                #[trigger] l[k].opcode,
            )
            &&& (l.len() > 0 && error is None) ==> l.last().next == c.code.len()
        }),
    decreases c.code.len() - offset,
{
    if 0 <= offset < c.code.len() {
        if let Ok(i) = disassembly_spec(c, offset) {
            let next = offset + instruction_width(i.opcode);
            law_listing_contiguous(c, next);
            let (rest, error) = listing_spec(c, next);
            let l = seq![i] + rest;
            assert(listing_spec(c, offset).0 == l);
            assert forall|k: int| 0 <= k < l.len() - 1 implies #[trigger] l[k + 1].offset
                == l[k].next by {
                assert(l[k + 1] == rest[k]);
                if k > 0 {
                    assert(l[k] == rest[k - 1]);
                    assert(rest[(k - 1) + 1].offset == rest[k - 1].next);
                } else {
                    assert(i.next == next);
                }
            }
            assert forall|k: int| 0 <= k < l.len() implies l[k].next == l[k].offset
                + instruction_width(#[trigger] l[k].opcode) by {
                if k > 0 {
                    assert(l[k] == rest[k - 1]);
                }
            }
        }
    }
}

} // verus!
