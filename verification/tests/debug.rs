use rlox::chunk::{Chunk, OpCode};
use rlox::compiler::{compile, numerals};
use rlox::debug::{
    disassemble_chunk, disassemble_instruction, opcode_name, DisassemblyError, Operand,
};
use rlox::gc::ActiveGC;
use rlox::value::Value;

#[test]
fn disassembles_a_compiled_chunk() {
    let source = "print 1;\nprint 2;";
    let bits: Vec<u64> =
        numerals(source).iter().map(|t| t.parse::<f64>().unwrap().to_bits()).collect();
    let mut gc = ActiveGC::install();
    let chunk = compile(source, &mut gc, &bits).result.unwrap();
    let listing = disassemble_chunk(&chunk);
    assert_eq!(None, listing.error);
    let ops: Vec<OpCode> = listing.instructions.iter().map(|i| i.opcode).collect();
    assert_eq!(
        vec![OpCode::Constant, OpCode::Print, OpCode::Constant, OpCode::Print, OpCode::Return],
        ops
    );
    let offsets: Vec<usize> = listing.instructions.iter().map(|i| i.offset).collect();
    assert_eq!(vec![0, 2, 3, 5, 6], offsets);
    let lines: Vec<Option<usize>> = listing.instructions.iter().map(|i| i.line).collect();
    assert_eq!(vec![Some(1), None, Some(2), None, None], lines);
    match &listing.instructions[2].operand {
        Operand::Constant(index, value) => {
            assert_eq!(1, *index);
            assert_eq!(Value::Number(2.0f64.to_bits()), *value);
        },
        other => panic!("unexpected {other:?}"),
    }
    assert_eq!(7, listing.instructions[4].next);
}

#[test]
fn slot_operands_are_decoded() {
    let mut chunk = Chunk::new();
    chunk.write_opcode(OpCode::GetLocal, 3).with_operand(7);
    let instruction = disassemble_instruction(&chunk, 0).unwrap();
    assert!(matches!(instruction.operand, Operand::Slot(7)));
    assert_eq!(Some(3), instruction.line);
    assert_eq!(2, instruction.next);
}

#[test]
fn each_disassembly_error() {
    let empty = Chunk::new();
    assert!(matches!(disassemble_instruction(&empty, 0), Err(DisassemblyError::OffsetTooLarge)));

    let mut missing = Chunk::new();
    missing.write_opcode(OpCode::Constant, 1);
    assert!(matches!(disassemble_instruction(&missing, 0), Err(DisassemblyError::MissingOperand)));
    assert_eq!(Some(DisassemblyError::MissingOperand), disassemble_chunk(&missing).error);

    let mut unknown_constant = Chunk::new();
    unknown_constant.write_opcode(OpCode::GetGlobal, 1).with_operand(9);
    assert!(matches!(
        disassemble_instruction(&unknown_constant, 0),
        Err(DisassemblyError::InvalidConstant)
    ));

    let mut invalid = Chunk::new();
    invalid.write_opcode(OpCode::Nil, 1).with_operand(250);
    assert!(matches!(disassemble_instruction(&invalid, 1), Err(DisassemblyError::InvalidOpcode)));
    let listing = disassemble_chunk(&invalid);
    assert_eq!(1, listing.instructions.len());
    assert_eq!(Some(DisassemblyError::InvalidOpcode), listing.error);
}

#[test]
fn opcode_names() {
    assert_eq!("OP_CONSTANT", opcode_name(OpCode::Constant));
    assert_eq!("OP_DEFINE_GLOBAL", opcode_name(OpCode::DefineGlobal));
    assert_eq!("OP_RETURN", opcode_name(OpCode::Return));
}

#[test]
fn binary_operators_come_out_in_postfix_order() {
    let source = "print 1 - 2 - 3 * 4 == 5;";
    let bits: Vec<u64> =
        numerals(source).iter().map(|t| t.parse::<f64>().unwrap().to_bits()).collect();
    let mut gc = ActiveGC::install();
    let chunk = compile(source, &mut gc, &bits).result.unwrap();
    let ops: Vec<OpCode> = disassemble_chunk(&chunk).instructions.iter().map(|i| i.opcode).collect();
    assert_eq!(
        vec![
            OpCode::Constant,
            OpCode::Constant,
            OpCode::Subtract,
            OpCode::Constant,
            OpCode::Constant,
            OpCode::Multiply,
            OpCode::Subtract,
            OpCode::Constant,
            OpCode::Equal,
            OpCode::Print,
            OpCode::Return,
        ],
        ops
    );
}
