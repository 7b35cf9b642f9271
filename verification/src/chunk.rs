//! Organizes bytecode into a [Chunk] of [OpCode]s.
use crate::value::{Value, ValueArray, ValueView};
use vstd::prelude::*;

verus! {

/// A one-byte operation code for Lox.
#[derive(Clone, Copy, PartialEq, Eq, Debug, Structural)]
pub enum OpCode {
    // Opcodes for constants:
    /// Uses the operand as an index into the constant pool, and pushes that value on to the stack.
    Constant,
    /// Pushes `nil` on the stack.
    Nil,
    /// Pushes `true` on the stack.
    True,
    /// Pushes `false` on the stack.
    False,
    /// Pops the the top of the stack, discarding it forever.
    Pop,
    // Opcodes for dealing with local variables
    /// Uses the operand to index into value stack to find a suitable local variable
    /// and push it onto the stack.
    GetLocal,
    /// Pops the top value from the stack and uses the operand to index into value stack,
    /// and assigns the popped value to the location on the stack.
    SetLocal,
    // Opcodes for dealing with global variables
    /// Uses the operand to the constant pool to find the global name;
    /// Pushes the value of the global onto the stack.
    GetGlobal,
    /// Uses the operand to the constant pool to find the global name;
    /// Pops the top of the stack and assigns it to the global variable indicated by the
    /// operand.
    DefineGlobal,
    /// Uses the operand to the constant pool to find the global name;
    /// Pops the top of the stack and assigns it to the global variable.
    /// The global variable must already exist.
    SetGlobal,
    // Opcodes for expressions and operations
    /// Pops RHS, then LHS; pushes LHS == RHS on to the stack.
    Equal,
    /// Pops RHS, then LHS; pushes LHS > RHS on to the stack.
    Greater,
    /// Pops RHS, then LHS; pushes LHS < RHS on to the stack.
    Less,
    /// Pops RHS, then LHS; pushes LHS + RHS on to the stack.
    Add,
    /// Pops RHS, then LHS; pushes LHS - RHS on to the stack.
    Subtract,
    /// Pops RHS, then LHS; pushes LHS * RHS on to the stack.
    Multiply,
    /// Pops RHS, then LHS; pushes LHS / RHS on to the stack.
    Divide,
    /// Pops the top of the stack; pushes !TOS
    Not,
    /// Pops the top of the stack; pushes -TOS
    Negate,
    // Opcodes for statements:
    /// Pops the top value of the stack and prints it to `stdout`.
    Print,
    /// Returns from the execution of the current chunk.
    Return,
}

/// The byte that encodes an [OpCode]: its position in the declaration.
pub open spec fn opcode_byte(op: OpCode) -> u8 {
    match op {
        OpCode::Constant => 0,
        OpCode::Nil => 1,
        OpCode::True => 2,
        OpCode::False => 3,
        OpCode::Pop => 4,
        OpCode::GetLocal => 5,
        OpCode::SetLocal => 6,
        OpCode::GetGlobal => 7,
        OpCode::DefineGlobal => 8,
        OpCode::SetGlobal => 9,
        OpCode::Equal => 10,
        OpCode::Greater => 11,
        OpCode::Less => 12,
        OpCode::Add => 13,
        OpCode::Subtract => 14,
        OpCode::Multiply => 15,
        OpCode::Divide => 16,
        OpCode::Not => 17,
        OpCode::Negate => 18,
        OpCode::Print => 19,
        OpCode::Return => 20,
    }
}

/// The number of opcodes; bytes below it decode to an opcode.
pub open spec fn opcode_count() -> u8 {
    21
}

/// The [OpCode] a byte encodes, if any.
pub open spec fn decode_opcode(byte: u8) -> Option<OpCode> {
    if byte < opcode_count() {
        Some(choose|op: OpCode| opcode_byte(op) == byte)
    } else {
        None
    }
}

/// Every byte below the opcode count encodes exactly one opcode, and no other byte encodes one.
pub proof fn lemma_opcode_encoding(op: OpCode, byte: u8)
    ensures
        opcode_byte(op) < opcode_count(),
        decode_opcode(opcode_byte(op)) == Some(op),
        decode_opcode(byte) matches Some(o) ==> opcode_byte(o) == byte,
        decode_opcode(byte) is Some <==> byte < opcode_count(),
{
    let b = opcode_byte(op);
    let chosen = choose|o: OpCode| opcode_byte(o) == b;
    assert(opcode_byte(chosen) == b);
    if byte < opcode_count() {
        assert(opcode_byte(opcode_of_byte(byte)) == byte);
    }
}

/// A witness for each byte below the opcode count.
spec fn opcode_of_byte(byte: u8) -> OpCode {
    if byte == 0 {
        OpCode::Constant
    } else if byte == 1 {
        OpCode::Nil
    } else if byte == 2 {
        OpCode::True
    } else if byte == 3 {
        OpCode::False
    } else if byte == 4 {
        OpCode::Pop
    } else if byte == 5 {
        OpCode::GetLocal
    } else if byte == 6 {
        OpCode::SetLocal
    } else if byte == 7 {
        OpCode::GetGlobal
    } else if byte == 8 {
        OpCode::DefineGlobal
    } else if byte == 9 {
        OpCode::SetGlobal
    } else if byte == 10 {
        OpCode::Equal
    } else if byte == 11 {
        OpCode::Greater
    } else if byte == 12 {
        OpCode::Less
    } else if byte == 13 {
        OpCode::Add
    } else if byte == 14 {
        OpCode::Subtract
    } else if byte == 15 {
        OpCode::Multiply
    } else if byte == 16 {
        OpCode::Divide
    } else if byte == 17 {
        OpCode::Not
    } else if byte == 18 {
        OpCode::Negate
    } else if byte == 19 {
        OpCode::Print
    } else {
        OpCode::Return
    }
}

impl OpCode {
    /// The byte that encodes this opcode.
    pub fn as_byte(self) -> (byte: u8)
        ensures
            byte == opcode_byte(self),
    {
        match self {
            OpCode::Constant => 0,
            OpCode::Nil => 1,
            OpCode::True => 2,
            OpCode::False => 3,
            OpCode::Pop => 4,
            OpCode::GetLocal => 5,
            OpCode::SetLocal => 6,
            OpCode::GetGlobal => 7,
            OpCode::DefineGlobal => 8,
            OpCode::SetGlobal => 9,
            OpCode::Equal => 10,
            OpCode::Greater => 11,
            OpCode::Less => 12,
            OpCode::Add => 13,
            OpCode::Subtract => 14,
            OpCode::Multiply => 15,
            OpCode::Divide => 16,
            OpCode::Not => 17,
            OpCode::Negate => 18,
            OpCode::Print => 19,
            OpCode::Return => 20,
        }
    }
}

/// The result of decoding a byte as an opcode: the opcode, or `()` for a byte that encodes none.
pub open spec fn try_decode(byte: u8) -> Result<OpCode, ()> {
    match decode_opcode(byte) {
        Some(op) => Ok(op),
        None => Err(()),
    }
}

impl TryFrom<u8> for OpCode {
    type Error = ();

    fn try_from(v: u8) -> (decoded: Result<OpCode, ()>) {
        proof {
            lemma_opcode_encoding(OpCode::Return, v);
        }
        let decoded = match v {
            0 => Ok(OpCode::Constant),
            1 => Ok(OpCode::Nil),
            2 => Ok(OpCode::True),
            3 => Ok(OpCode::False),
            4 => Ok(OpCode::Pop),
            5 => Ok(OpCode::GetLocal),
            6 => Ok(OpCode::SetLocal),
            7 => Ok(OpCode::GetGlobal),
            8 => Ok(OpCode::DefineGlobal),
            9 => Ok(OpCode::SetGlobal),
            10 => Ok(OpCode::Equal),
            11 => Ok(OpCode::Greater),
            12 => Ok(OpCode::Less),
            13 => Ok(OpCode::Add),
            14 => Ok(OpCode::Subtract),
            15 => Ok(OpCode::Multiply),
            16 => Ok(OpCode::Divide),
            17 => Ok(OpCode::Not),
            18 => Ok(OpCode::Negate),
            19 => Ok(OpCode::Print),
            20 => Ok(OpCode::Return),
            _ => Err(()),
        };
        proof {
            if let Ok(op) = decoded {
                lemma_opcode_encoding(op, v);
            }
        }
        decoded
    }
}

impl vstd::std_specs::convert::TryFromSpecImpl<u8> for OpCode {
    open spec fn obeys_try_from_spec() -> bool {
        true
    }

    open spec fn try_from_spec(v: u8) -> Result<OpCode, ()> {
        try_decode(v)
    }
}

/// A chunk of bytecode, including a constant pool.
///
/// The _byte stream_ contains both [OpCode]s and operands, which are encoded serially, inline.
/// Valid bytes from the byte stream can be obtained using [Chunk::get()].
///
/// Arbitrary bytes **cannot** be written to the byte stream. Instead, one must write an [OpCode]
/// with [Chunk::write_opcode()], and then use the returned [WrittenOpcode] to write additional
/// operands (which may be arbitrary bytes).
#[derive(Debug)]
pub struct Chunk {
    code: Vec<u8>,
    constants: ValueArray,
    lines: Vec<usize>,
}

/// The mathematical content of a [Chunk]: its bytes, its constant pool, and the line of each
/// byte.
#[verifier::ext_equal]
pub struct ChunkView {
    pub code: Seq<u8>,
    pub constants: Seq<ValueView>,
    pub lines: Seq<usize>,
}

impl ChunkView {
    /// Every byte has a line.
    pub open spec fn valid(self) -> bool {
        self.code.len() == self.lines.len()
    }

    /// The chunk with one more byte, on the given line.
    pub open spec fn append(self, byte: u8, line: usize) -> ChunkView {
        ChunkView { code: self.code.push(byte), lines: self.lines.push(line), ..self }
    }
}

/// The empty chunk.
pub open spec fn empty_chunk() -> ChunkView {
    ChunkView { code: Seq::empty(), constants: Seq::empty(), lines: Seq::empty() }
}

/// The largest number of constants that a one-byte operand can index.
pub open spec fn max_constants() -> int {
    256
}

impl View for Chunk {
    type V = ChunkView;

    closed spec fn view(&self) -> ChunkView {
        ChunkView { code: self.code@, constants: self.constants@, lines: self.lines@ }
    }
}

/// A valid byte from a chunk, obtained using [Chunk::get()].
///
/// You may then apply methods to interpret the byte that is required in the given context.
#[derive(Clone, Copy)]
pub struct BytecodeEntry<'a> {
    byte: u8,
    provenance: &'a Chunk,
}

/// An [OpCode] that has already been written to the bytestream.
///
/// The byte stream can be augmented with an additional operand.
pub struct WrittenOpcode<'a> {
    /// The line that the opcode was written on.
    pub line: usize,
    /// The chunk that the opcode was written to.
    pub provenance: &'a mut Chunk,
}

impl<'a> BytecodeEntry<'a> {
    /// The byte.
    pub closed spec fn byte(&self) -> u8 {
        self.byte
    }

    /// The chunk that the byte came from.
    pub closed spec fn chunk(&self) -> ChunkView {
        self.provenance@
    }
}

///////////////////////////////////////// Implementation //////////////////////////////////////////

impl Default for Chunk {
    fn default() -> (chunk: Chunk)
        ensures
            chunk@ == empty_chunk(),
    {
        let chunk = Chunk { code: Vec::new(), constants: ValueArray::new(), lines: Vec::new() };
        assert(chunk@ =~= empty_chunk());
        chunk
    }
}

impl Chunk {
    /// Return a new, empty [Chunk].
    pub fn new() -> (chunk: Self)
        ensures
            chunk@ == empty_chunk(),
    {
        Chunk::default()
    }

    /// Get a single byte from the byte stream. See [BytecodeEntry] for how this byte can be
    /// interpreted.
    ///
    /// Returns `Some(entry)` when the offset is in `(0..self.len())`; `None` otherwise.
    pub fn get(&self, offset: usize) -> (entry: Option<BytecodeEntry<'_>>)
        ensures
            entry is Some <==> offset < self@.code.len(),
            self@.code.len() <= usize::MAX,
            entry matches Some(e) ==> e.byte() == self@.code[offset as int] && e.chunk() == self@,
    {
        if offset < self.code.len() {
            Some(BytecodeEntry { byte: self.code[offset], provenance: self })
        } else {
            None
        }
    }

    /// Append a single [OpCode] to the chunk.
    ///
    /// Returns a [WrittenOpcode], which is a handle that can be used to append additional
    /// operands to the byte stream.
    pub fn write_opcode(&mut self, opcode: OpCode, line: usize) -> (written: WrittenOpcode<'_>)
        requires
            old(self)@.valid(),
        ensures
            (*written.provenance)@ == old(self)@.append(opcode_byte(opcode), line),
            written.line == line,
            final(self)@ == (*final(written.provenance))@,
    {
        self.write(opcode.as_byte(), line);
        WrittenOpcode { line, provenance: self }
    }

    /// Adds a constant to the constant pool, and returns its index, if successful.
    ///
    /// # Errors
    ///
    /// A constant index must fit in a [u8]; therefore, **no more than 256 constants may be
    /// added**. This method will return `None` when there are already at least 256 constants
    /// added. The constant is added either way.
    pub fn add_constant(&mut self, value: Value) -> (index: Option<u8>)
        ensures
            final(self)@ == (ChunkView {
                constants: old(self)@.constants.push(value@),
                ..old(self)@
            }),
            index is Some <==> old(self)@.constants.len() < max_constants(),
            index matches Some(i) ==> i == old(self)@.constants.len(),
    {
        let index = self.constants.len();
        self.constants.write(value);
        if index < 256 {
            Some(index as u8)
        } else {
            None
        }
    }

    /// Returns the line number for whatever is at the given offset.
    pub fn line_number_for(&self, offset: usize) -> (line: Option<usize>)
        ensures
            line is Some <==> offset < self@.lines.len(),
            line matches Some(l) ==> l == self@.lines[offset as int],
    {
        if offset < self.lines.len() {
            Some(self.lines[offset])
        } else {
            None
        }
    }

    /// Returns the length of the byte stream.
    pub fn len(&self) -> (n: usize)
        ensures
            n == self@.code.len(),
    {
        self.code.len()
    }

    /// Returns true if nothing has been appended to the byte stream.
    pub fn is_empty(&self) -> (empty: bool)
        ensures
            empty == (self@.code.len() == 0),
    {
        self.code.len() == 0
    }

    /// The constant at the given index of the pool, if there is one.
    pub fn constant(&self, index: usize) -> (value: Option<Value>)
        ensures
            value is Some <==> index < self@.constants.len(),
            value matches Some(v) ==> v@ == self@.constants[index as int],
    {
        self.constants.get(index)
    }

    /// Actually writes to the byte stream.
    fn write(&mut self, payload: u8, line: usize)
        requires
            old(self)@.valid(),
        ensures
            final(self)@ == old(self)@.append(payload, line),
    {
        self.code.push(payload);
        self.lines.push(line);
    }
}

impl<'a> BytecodeEntry<'a> {
    /// Returns the byte interpreted as an index into the constant pool.
    ///
    /// This method never fails, as this method does not check whether the index is a _valid_ index
    /// into the constant pool.
    pub fn as_constant_index(self) -> (index: usize)
        ensures
            index == self.byte(),
    {
        self.byte as usize
    }

    /// Returns the byte decoded as an [OpCode].
    /// Returns `None` if the byte is not a valid opcode.
    pub fn as_opcode(self) -> (op: Option<OpCode>)
        ensures
            op == decode_opcode(self.byte()),
    {
        match OpCode::try_from(self.byte) {
            Ok(op) => Some(op),
            Err(_) => None,
        }
    }

    /// Yanks out a constant from the constant pool.
    ///
    /// Interprets the byte as an index into this entry's [Chunk]'s constant pool, and returns the
    /// associated value.
    ///
    /// Returns `Some(value)` if the index is a valid entry in the constants pool. `None`
    /// otherwise.
    pub fn resolve_constant(self) -> (value: Option<Value>)
        ensures
            value is Some <==> self.byte() < self.chunk().constants.len(),
            value matches Some(v) ==> v@ == self.chunk().constants[self.byte() as int],
    {
        self.provenance.constant(self.as_constant_index())
    }

    /// Same as [BytecodeEntry::resolve_constant], but returns (index, value).
    pub fn resolve_constant_with_index(self) -> (found: Option<(usize, Value)>)
        ensures
            found is Some <==> self.byte() < self.chunk().constants.len(),
            found matches Some((i, v)) ==> i == self.byte() && v@
                == self.chunk().constants[self.byte() as int],
    {
        match self.resolve_constant() {
            Some(value) => Some((self.as_constant_index(), value)),
            None => None,
        }
    }
}

impl<'a> WrittenOpcode<'a> {
    /// Consumes `self` and appends the operand to the byte stream for the last written
    /// instruction, on the same line.
    pub fn with_operand(self, index: u8)
        requires
            (*old(self.provenance))@.valid(),
        ensures
            (*final(self.provenance))@ == (*old(self.provenance))@.append(index, self.line),
    {
        self.provenance.write(index, self.line);
    }
}

/// Reading a chunk gives back what was written to it: appending a byte on a line keeps every
/// byte and line before it, and the appended byte and line are found at the old length.
pub proof fn law_append_reads_back(c: ChunkView, byte: u8, line: usize, offset: int)
    requires
        c.valid(),
        0 <= offset <= c.code.len(),
    ensures
        c.append(byte, line).valid(),
        c.append(byte, line).code.len() == c.code.len() + 1,
        c.append(byte, line).constants == c.constants,
        offset == c.code.len() ==> c.append(byte, line).code[offset] == byte && c.append(
            byte,
            line,
        ).lines[offset] == line,
        offset < c.code.len() ==> c.append(byte, line).code[offset] == c.code[offset] && c.append(
            byte,
            line,
        ).lines[offset] == c.lines[offset],
{
}

} // verus!
