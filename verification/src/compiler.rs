//! The Lox parser and bytecode compiler.
//!
//! [compile] follows [crate::grammar::compile_spec]: it reports exactly the errors stated
//! there, emits exactly its chunk, and stores exactly its strings.
use crate::chunk::{empty_chunk, opcode_byte, Chunk, ChunkView, OpCode, WrittenOpcode};
use crate::error::InterpretationError;
use crate::gc::ActiveGC;
use crate::scanner::{lemma_scan_valid, scanner_start, Lexeme, LexemeView, Scanner, Token};
use crate::grammar::{
    advance_spec, compile_spec, consume_spec, error_at_spec, lemma_numerals_ahead_bound,
    lemma_numerals_step, lemma_parser_start_valid, lemma_scan_shape, lexeme_shape, measure,
    numeral_count, numeral_texts, numerals_ahead, parser_start, parser_valid, scan_past_errors,
    synchronize_spec, skip_to_boundary, level, higher, rule_of, advance_c, cm, emit_spec, emit_with_operand_spec,
    make_constant_spec, emit_constant_spec, identifier_constant_spec, parse_precedence_spec,
    infix_loop_spec, infix_spec, prefix_spec, named_variable_spec, expression_spec,
    declaration_spec, statement_spec, var_statement_spec, expression_statement_spec,
    print_statement_spec, declarations_spec, CompilerView,
    DiagnosticView, ParserView,
};
use crate::value::{Value, ValueView};
use vstd::prelude::*;
use vstd::string::*;

pub use crate::grammar::{InfixRule, ParserRule, Precedence, PrefixRule};

verus! {

/// A compile error: the lexeme it was found at, and what is wrong.
#[derive(Clone, Copy, Debug)]
pub struct Diagnostic<'a> {
    lexeme: Lexeme<'a>,
    message: &'a str,
}

impl<'a> View for Diagnostic<'a> {
    type V = DiagnosticView;

    closed spec fn view(&self) -> DiagnosticView {
        DiagnosticView { lexeme: self.lexeme@, message: self.message@ }
    }
}

/// The views of a sequence of diagnostics.
pub open spec fn diagnostic_views<'a>(diagnostics: Seq<Diagnostic<'a>>) -> Seq<DiagnosticView> {
    diagnostics.map_values(|d: Diagnostic<'a>| d@)
}

impl<'a> Diagnostic<'a> {
    /// The lexeme the error was found at.
    pub fn lexeme(&self) -> (lexeme: Lexeme<'a>)
        ensures
            lexeme@ == self@.lexeme,
    {
        self.lexeme
    }

    /// What is wrong.
    pub fn message(&self) -> (message: &'a str)
        ensures
            message@ == self@.message,
    {
        self.message
    }
}

/// Contains the parser state, including error status.
struct Parser<'a> {
    scanner: Scanner<'a>,
    current: Lexeme<'a>,
    previous: Lexeme<'a>,
    had_error: bool,
    panic_mode: bool,
    diagnostics: Vec<Diagnostic<'a>>,
    numerals_seen: usize,
}

impl<'a> View for Parser<'a> {
    type V = ParserView;

    closed spec fn view(&self) -> ParserView {
        ParserView {
            scanner: self.scanner@,
            current: self.current@,
            previous: self.previous@,
            had_error: self.had_error,
            panic_mode: self.panic_mode,
            diagnostics: diagnostic_views(self.diagnostics@),
            numerals_seen: self.numerals_seen as int,
        }
    }
}

impl<'a> Parser<'a> {
    /// The scanner is well formed and the parser's state is one that parsing reaches.
    closed spec fn wf(&self) -> bool {
        &&& self.scanner.wf()
        &&& parser_valid(self@)
        &&& (self@.had_error <==> self@.diagnostics.len() > 0)
    }

    /// Creates a new parser for the given source code.
    fn new(source: &'a str) -> (parser: Parser<'a>)
        requires
            source@.len() < usize::MAX,
        ensures
            parser.wf(),
            parser@ == parser_start(source@),
    {
        let mut scanner = Scanner::new(source);
        proof {
            lemma_parser_start_valid(source@);
            lemma_numerals_ahead_bound(scanner@);
        }
        let first_token = scanner.scan_token();
        let error_token = scanner.make_sentinel("<before first token>");
        let numerals_seen: usize = if first_token.token() == Token::Number {
            1
        } else {
            0
        };
        let parser = Parser {
            scanner,
            previous: error_token,
            current: first_token,
            had_error: false,
            panic_mode: false,
            diagnostics: Vec::new(),
            numerals_seen,
        };
        assert(parser@ =~= parser_start(source@));
        parser
    }

    /// Update `previous` and `current` such that they move one lexeme further in the lexeme
    /// stream, reporting error lexemes on the way.
    fn advance(&mut self)
        requires
            old(self).wf(),
        ensures
            final(self)@.scanner.src == old(self)@.scanner.src,
            final(self)@.previous == old(self)@.current,
            final(self).wf(),
            final(self)@ == advance_spec(old(self)@),
            measure(final(self)@) <= measure(old(self)@),
            old(self)@.current.token != Token::Eof ==> measure(final(self)@) < measure(
                old(self)@,
            ),
    {
        let ghost target = advance_spec(old(self)@);
        let ghost pos0 = old(self)@.scanner.current;
        let ghost total = numeral_texts(old(self)@.scanner.src).len();
        self.previous = self.current;
        // Get lexemes until we get a non-error lexeme.
        loop
            invariant_except_break
                self.scanner.wf(),
                self@.scanner.valid(),
                scan_past_errors(self@) == target,
                target == advance_spec(old(self)@),
                self@.scanner.src == old(self)@.scanner.src,
                total == numeral_texts(self@.scanner.src).len(),
                pos0 == old(self)@.scanner.current,
                pos0 <= self@.scanner.current,
                self@.previous == old(self)@.current,
                lexeme_shape(self@.previous),
                self@.numerals_seen >= numeral_count(self@.previous.token),
                self@.numerals_seen + numerals_ahead(self@.scanner).len() == total,
                self@.had_error <==> self@.diagnostics.len() > 0,
            ensures
                self.wf(),
                self@ == target,
                self@.scanner.src == old(self)@.scanner.src,
                self@.previous == old(self)@.current,
                self@.current.token != Token::Eof ==> pos0 < self@.scanner.current,
                self@.current.token == Token::Eof ==> self@.scanner.current
                    == self@.scanner.src.len(),
            decreases self@.scanner.src.len() - self@.scanner.current,
        {
            proof {
                lemma_scan_valid(self@.scanner);
                lemma_scan_shape(self@.scanner);
                lemma_numerals_step(self@.scanner);
                lemma_numerals_ahead_bound(self@.scanner);
                lemma_numerals_ahead_bound(scanner_start(self@.scanner.src));
            }
            self.current = self.scanner.scan_token();
            if self.current.token() == Token::Number {
                self.numerals_seen = self.numerals_seen + 1;
            }
            if self.current.token() != Token::Error {
                break;
            }
            self.error_at_current(self.current.text());
        }
    }

    /// Advance past `desired_token`; if it is not current, report `message` instead.
    fn consume(&mut self, desired_token: Token, message: &'static str)
        requires
            old(self).wf(),
        ensures
            final(self).wf(),
            final(self)@.scanner.src == old(self)@.scanner.src,
            final(self)@ == consume_spec(old(self)@, desired_token, message@),
            measure(final(self)@) <= measure(old(self)@),
    {
        if self.current.token() == desired_token {
            return self.advance();
        }
        self.error_at_current(message);
    }

    /// Return true if the current lexeme has the given token.
    fn check(&self, token: Token) -> (matches: bool)
        ensures
            matches == (self@.current.token == token),
    {
        self.current.token() == token
    }

    /// Advances if the current token is `desired_token`. Returns whether it was.
    fn match_and_advance(&mut self, desired_token: Token) -> (matched: bool)
        requires
            old(self).wf(),
        ensures
            final(self).wf(),
            final(self)@.scanner.src == old(self)@.scanner.src,
            matched == (old(self)@.current.token == desired_token),
            final(self)@ == if matched {
                advance_spec(old(self)@)
            } else {
                old(self)@
            },
            measure(final(self)@) <= measure(old(self)@),
            matched && desired_token != Token::Eof ==> measure(final(self)@) < measure(
                old(self)@,
            ),
    {
        if self.check(desired_token) {
            self.advance();
            return true;
        }
        false
    }

    /// Report an error at the previous lexeme.
    fn error(&mut self, message: &'a str)
        ensures
            final(self)@ == error_at_spec(old(self)@, old(self)@.previous, message@),
            final(self).scanner == old(self).scanner,
            final(self).current == old(self).current,
            final(self).previous == old(self).previous,
            final(self).numerals_seen == old(self).numerals_seen,
    {
        self.error_at(self.previous, message)
    }

    /// Report an error at the current lexeme.
    fn error_at_current(&mut self, message: &'a str)
        ensures
            final(self)@ == error_at_spec(old(self)@, old(self)@.current, message@),
            final(self).scanner == old(self).scanner,
            final(self).current == old(self).current,
            final(self).previous == old(self).previous,
            final(self).numerals_seen == old(self).numerals_seen,
    {
        self.error_at(self.current, message)
    }

    /// Report an error at the given lexeme, unless the parser is in panic mode (which keeps one
    /// mistake from being reported many times).
    fn error_at(&mut self, lexeme: Lexeme<'a>, message: &'a str)
        ensures
            final(self)@ == error_at_spec(old(self)@, lexeme@, message@),
            final(self).scanner == old(self).scanner,
            final(self).current == old(self).current,
            final(self).previous == old(self).previous,
            final(self).numerals_seen == old(self).numerals_seen,
    {
        if self.panic_mode {
            return;
        }
        self.panic_mode = true;
        self.had_error = true;
        self.diagnostics.push(Diagnostic { lexeme, message });
        assert(self@ =~= error_at_spec(old(self)@, lexeme@, message@));
    }

    /// Leave panic mode, then discard lexemes until parsing can resume: at the end of file,
    /// just past a `;`, or at a keyword that starts a statement.
    fn synchronize(&mut self)
        requires
            old(self).wf(),
        ensures
            final(self).wf(),
            final(self)@.scanner.src == old(self)@.scanner.src,
            final(self)@ == synchronize_spec(old(self)@),
            measure(final(self)@) <= measure(old(self)@),
    {
        self.panic_mode = false;
        let ghost target = synchronize_spec(old(self)@);
        assert(skip_to_boundary(self@) == target);
        while self.current.token() != Token::Eof
            invariant
                self.wf(),
                skip_to_boundary(self@) == target,
                target == synchronize_spec(old(self)@),
                self@.scanner.src == old(self)@.scanner.src,
                measure(self@) <= measure(old(self)@),
            decreases measure(self@),
        {
            if self.previous.token() == Token::Semicolon {
                return;
            }
            match self.current.token() {
                Token::Class
                | Token::Fun
                | Token::Var
                | Token::For
                | Token::If
                | Token::While
                | Token::Print
                | Token::Return => return,
                _ => {},
            }
            self.advance();
        }
    }
}

/// The compiler state: the [Parser], the chunk being produced, the string store, and the bit
/// patterns of the source's number literals.
struct Compiler<'a, 'n> {
    parser: Parser<'a>,
    compiling_chunk: Chunk,
    strings: ActiveGC,
    numerals: &'n [u64],
}

impl<'a, 'n> Compiler<'a, 'n> {
    /// The compiler's state.
    closed spec fn model(&self) -> CompilerView {
        CompilerView {
            parser: self.parser@,
            chunk: self.compiling_chunk@,
            strings: self.strings@,
            numerals: self.numerals@,
        }
    }

    /// The parts are well formed, and there are as many numbers as number literals.
    closed spec fn wf(&self) -> bool {
        &&& self.parser.wf()
        &&& self.compiling_chunk@.valid()
        &&& self.strings.wf()
        &&& self.numerals@.len() == numeral_texts(self.parser@.scanner.src).len()
    }
}

impl Precedence {
    /// The position of this precedence from loosest to tightest.
    pub fn level(self) -> (n: u8)
        ensures
            n == level(self),
    {
        match self {
            Precedence::Undefined => 0,
            Precedence::Assignment => 1,
            Precedence::Or => 2,
            Precedence::And => 3,
            Precedence::Equality => 4,
            Precedence::Comparison => 5,
            Precedence::Term => 6,
            Precedence::Factor => 7,
            Precedence::Unary => 8,
            Precedence::Call => 9,
            Precedence::Primary => 10,
        }
    }

    /// Returns the next higher level of precedence. There is none above
    /// [Precedence::Primary], the precedence of literals and l-values.
    pub fn higher_precedence(self) -> (p: Precedence)
        requires
            self != Precedence::Primary,
        ensures
            p == higher(self),
            level(p) == level(self) + 1,
    {
        match self {
            Precedence::Undefined => Precedence::Assignment,
            Precedence::Assignment => Precedence::Or,
            Precedence::Or => Precedence::And,
            Precedence::And => Precedence::Equality,
            Precedence::Equality => Precedence::Comparison,
            Precedence::Comparison => Precedence::Term,
            Precedence::Term => Precedence::Factor,
            Precedence::Factor => Precedence::Unary,
            Precedence::Unary => Precedence::Call,
            Precedence::Call => Precedence::Primary,
            Precedence::Primary => Precedence::Primary,
        }
    }
}

impl ParserRule {
    /// Returns one level of precedence higher than the rule's precedence.
    pub fn higher_precedence(&self) -> (p: Precedence)
        requires
            self.precedence != Precedence::Primary,
        ensures
            p == higher(self.precedence),
    {
        self.precedence.higher_precedence()
    }
}

/// The parser table.
pub fn get_rule(token: Token) -> (rule: ParserRule)
    ensures
        rule == rule_of(token),
{
    let none = Precedence::Undefined;
    match token {
        Token::LeftParen => ParserRule {
            prefix: Some(PrefixRule::Grouping),
            infix: None,
            precedence: none,
        },
        Token::Minus => ParserRule {
            prefix: Some(PrefixRule::Unary),
            infix: Some(InfixRule::Binary),
            precedence: Precedence::Term,
        },
        Token::Plus => ParserRule {
            prefix: None,
            infix: Some(InfixRule::Binary),
            precedence: Precedence::Term,
        },
        Token::Slash | Token::Star => ParserRule {
            prefix: None,
            infix: Some(InfixRule::Binary),
            precedence: Precedence::Factor,
        },
        Token::Bang => ParserRule { prefix: Some(PrefixRule::Unary), infix: None, precedence: none },
        Token::BangEqual | Token::EqualEqual => ParserRule {
            prefix: None,
            infix: Some(InfixRule::Binary),
            precedence: Precedence::Equality,
        },
        Token::Greater | Token::GreaterEqual | Token::Less | Token::LessEqual => ParserRule {
            prefix: None,
            infix: Some(InfixRule::Binary),
            precedence: Precedence::Comparison,
        },
        Token::Identifier => ParserRule {
            prefix: Some(PrefixRule::Variable),
            infix: None,
            precedence: none,
        },
        Token::StrLiteral => ParserRule {
            prefix: Some(PrefixRule::Str),
            infix: None,
            precedence: none,
        },
        Token::Number => ParserRule {
            prefix: Some(PrefixRule::Number),
            infix: None,
            precedence: none,
        },
        Token::False | Token::Nil | Token::True => ParserRule {
            prefix: Some(PrefixRule::Literal),
            infix: None,
            precedence: none,
        },
        _ => ParserRule { prefix: None, infix: None, precedence: none },
    }
}

impl<'a, 'n> Compiler<'a, 'n> {
    /// Creates a new compiler with the given [Parser], string store, and numbers.
    fn new(parser: Parser<'a>, strings: ActiveGC, numerals: &'n [u64]) -> (compiler: Compiler<'a, 'n>)
        requires
            parser.wf(),
            strings.wf(),
            numerals@.len() == numeral_texts(parser@.scanner.src).len(),
        ensures
            compiler.wf(),
            compiler.model() == (CompilerView {
                parser: parser@,
                chunk: empty_chunk(),
                strings: strings@,
                numerals: numerals@,
            }),
    {
        Compiler { parser, compiling_chunk: Chunk::default(), strings, numerals }
    }

    /// Returns the current [Chunk].
    fn current_chunk(&mut self) -> (chunk: &mut Chunk)
        ensures
            *chunk == old(self).compiling_chunk,
            final(self).compiling_chunk == *final(chunk),
            final(self).parser == old(self).parser,
            final(self).strings == old(self).strings,
            final(self).numerals == old(self).numerals,
    {
        &mut self.compiling_chunk
    }

    /// Returns the line number of the prefix lexeme, a.k.a. the parser's previous lexeme.
    fn line_number_of_prefix(&self) -> (line: usize)
        ensures
            line == self.model().parser.previous.line,
    {
        self.parser.previous.line()
    }

    /// Writes an [OpCode] to the current [Chunk], on the line of the prefix lexeme.
    /// Returns a [WrittenOpcode], with which you can write an operand.
    fn emit_instruction(&mut self, opcode: OpCode) -> (written: WrittenOpcode<'_>)
        requires
            old(self).wf(),
        ensures
            (*written.provenance)@ == old(self).model().chunk.append(
                opcode_byte(opcode),
                old(self).model().parser.previous.line as usize,
            ),
            written.line == old(self).model().parser.previous.line,
            final(self).compiling_chunk@ == (*final(written.provenance))@,
            final(self).parser == old(self).parser,
            final(self).strings == old(self).strings,
            final(self).numerals == old(self).numerals,
    {
        let line = self.line_number_of_prefix();
        self.current_chunk().write_opcode(opcode, line)
    }

    /// Writes two [OpCode]s to the current [Chunk], on the line of the prefix lexeme.
    fn emit_instructions(&mut self, op1: OpCode, op2: OpCode) -> (written: WrittenOpcode<'_>)
        requires
            old(self).wf(),
        ensures
            (*written.provenance)@ == emit_spec(
                emit_spec(old(self).model(), op1),
                op2,
            ).chunk,
            written.line == old(self).model().parser.previous.line,
            final(self).compiling_chunk@ == (*final(written.provenance))@,
            final(self).parser == old(self).parser,
            final(self).strings == old(self).strings,
            final(self).numerals == old(self).numerals,
    {
        let line = self.line_number_of_prefix();
        self.current_chunk().write_opcode(op1, line);
        self.current_chunk().write_opcode(op2, line)
    }

    /// Appends an [OpCode] alone.
    fn emit(&mut self, opcode: OpCode)
        requires
            old(self).wf(),
        ensures
            final(self).wf(),
            final(self).model() == emit_spec(old(self).model(), opcode),
    {
        self.emit_instruction(opcode);
        assert(self.model() =~= emit_spec(old(self).model(), opcode));
    }

    /// Appends an [OpCode] and its operand.
    fn emit_with_operand(&mut self, opcode: OpCode, operand: u8)
        requires
            old(self).wf(),
        ensures
            final(self).wf(),
            final(self).model() == emit_with_operand_spec(old(self).model(), opcode, operand),
    {
        self.emit_instruction(opcode).with_operand(operand);
        assert(self.model() =~= emit_with_operand_spec(old(self).model(), opcode, operand));
    }

    /// Appends [OpCode::Return] to the current [Chunk].
    fn emit_return(&mut self)
        requires
            old(self).wf(),
        ensures
            final(self).wf(),
            final(self).model() == emit_spec(old(self).model(), OpCode::Return),
    {
        self.emit(OpCode::Return);
    }

    /// Appends a new constant to the current [Chunk].
    ///
    /// When the constant index is greater than 255 (and thus can no longer be represented as a
    /// u8), this signals a compiler error and returns `0u8`. The current [Chunk] can still be
    /// appended to, however, it is invalid, and should not be emitted as a valid program.
    fn make_constant(&mut self, value: Value) -> (index: u8)
        requires
            old(self).wf(),
        ensures
            final(self).wf(),
            (index, final(self).model()) == make_constant_spec(old(self).model(), value@),
    {
        let ghost v = value@;
        if let Some(index) = self.current_chunk().add_constant(value) {
            assert(self.model() =~= make_constant_spec(old(self).model(), v).1);
            index
        } else {
            self.parser.error("Too many constants in one chunk");
            assert(self.model() =~= make_constant_spec(old(self).model(), v).1);
            0
        }
    }

    /// Appends [OpCode::Constant] to the current [Chunk], for the given value.
    fn emit_constant(&mut self, value: Value)
        requires
            old(self).wf(),
        ensures
            final(self).wf(),
            final(self).model() == emit_constant_spec(old(self).model(), value@),
    {
        let index = self.make_constant(value);
        self.emit_with_operand(OpCode::Constant, index);
    }

    /// A string value; its text is stored in the string store.
    fn string_value(&mut self, text: &str) -> (value: Value)
        requires
            old(self).wf(),
        ensures
            final(self).wf(),
            value@ == ValueView::LoxString(text@),
            final(self).model() == (CompilerView {
                strings: old(self).model().strings.insert(text@),
                ..old(self).model()
            }),
    {
        self.strings.store_string(text.to_owned());
        Value::LoxString(text.to_owned())
    }

    /// Add the identifier text to the current chunk's constants table.
    fn identifier_constant(&mut self, lexeme: Lexeme<'a>) -> (index: u8)
        requires
            old(self).wf(),
        ensures
            final(self).wf(),
            (index, final(self).model()) == identifier_constant_spec(old(self).model(), lexeme@),
    {
        let value = self.string_value(lexeme.text());
        self.make_constant(value)
    }

    /// Consume the next identifier and interpret it as a variable.
    /// Returns the constant for the identifier name.
    fn parse_variable(&mut self, error_message: &'static str) -> (index: u8)
        requires
            old(self).wf(),
        ensures
            final(self).wf(),
            ({
                let c1 = old(self).model().with_parser(
                    consume_spec(old(self).model().parser, Token::Identifier, error_message@),
                );
                (index, final(self).model()) == identifier_constant_spec(c1, c1.parser.previous)
            }),
            cm(final(self).model()) <= cm(old(self).model()),
    {
        self.parser.consume(Token::Identifier, error_message);
        let lexeme = self.parser.previous;
        self.identifier_constant(lexeme)
    }

    /// Define a new global variable.
    fn define_variable(&mut self, global: u8)
        requires
            old(self).wf(),
        ensures
            final(self).wf(),
            final(self).model() == emit_with_operand_spec(
                old(self).model(),
                OpCode::DefineGlobal,
                global,
            ),
    {
        self.emit_with_operand(OpCode::DefineGlobal, global);
    }

    /// Advance one lexeme.
    fn advance(&mut self)
        requires
            old(self).wf(),
        ensures
            final(self).wf(),
            final(self).model() == advance_c(old(self).model()),
            final(self).model().parser.previous == old(self).model().parser.current,
            cm(final(self).model()) <= cm(old(self).model()),
            old(self).model().parser.current.token != Token::Eof ==> cm(final(self).model()) < cm(
                old(self).model(),
            ),
    {
        self.parser.advance()
    }

    /// Advances past the current lexeme if it has `desired_token`. Returns whether it did.
    fn match_and_advance(&mut self, desired_token: Token) -> (matched: bool)
        requires
            old(self).wf(),
        ensures
            final(self).wf(),
            matched == (old(self).model().parser.current.token == desired_token),
            final(self).model() == if matched {
                advance_c(old(self).model())
            } else {
                old(self).model()
            },
            cm(final(self).model()) <= cm(old(self).model()),
            matched && desired_token != Token::Eof ==> cm(final(self).model()) < cm(
                old(self).model(),
            ),
    {
        self.parser.match_and_advance(desired_token)
    }

    /// The rule of the prefix lexeme being parsed.
    fn rule_from_previous(&self) -> (rule: ParserRule)
        ensures
            rule == rule_of(self.model().parser.previous.token),
    {
        get_rule(self.previous_token())
    }

    /// The rule of the current lexeme.
    fn rule_from_current(&self) -> (rule: ParserRule)
        ensures
            rule == rule_of(self.model().parser.current.token),
    {
        get_rule(self.parser.current.token())
    }

    /// The token of the previous lexeme. This is useful in prefix parser functions.
    fn previous_token(&self) -> (token: Token)
        ensures
            token == self.model().parser.previous.token,
    {
        self.parser.previous.token()
    }
}

impl<'a, 'n> Compiler<'a, 'n> {
    /// The core of the Pratt parsing algorithm: parse an expression whose operators bind at
    /// least as tightly as `precedence`.
    fn parse_precedence(&mut self, precedence: Precedence)
        requires
            old(self).wf(),
            precedence != Precedence::Undefined,
        ensures
            final(self).wf(),
            final(self).model() == parse_precedence_spec(old(self).model(), precedence),
            cm(final(self).model()) <= cm(old(self).model()),
            old(self).model().parser.current.token != Token::Eof ==> cm(final(self).model()) < cm(
                old(self).model(),
            ),
        decreases cm(old(self).model()), 0nat,
    {
        let ghost c0 = self.model();
        self.advance();
        let ghost c1 = self.model();
        let can_assign = precedence.level() <= Precedence::Assignment.level();

        // First, figure out how to parse the prefix.
        if let Some(parse_prefix) = self.rule_from_previous().prefix {
            call_prefix(parse_prefix, self, can_assign);
        } else {
            self.parser.error("Could not figure out how to understand symbol in this context");
            assert(self.model() =~= parse_precedence_spec(c0, precedence));
            return;
        }
        let ghost c2 = self.model();
        let ghost target = infix_loop_spec(c2, precedence);
        assert(parse_precedence_spec(c0, precedence) == target);

        loop
            invariant
                self.wf(),
                infix_loop_spec(self.model(), precedence) == target,
                target == parse_precedence_spec(c0, precedence),
                c0 == old(self).model(),
                cm(self.model()) <= cm(c1),
                cm(c1) < cm(c0),
                level(precedence) >= 1,
                can_assign == (level(precedence) <= 1),
            ensures
                self.wf(),
                self.model() == target,
                cm(self.model()) <= cm(c1),
            decreases cm(self.model()),
        {
            if !(precedence.level() <= self.rule_from_current().precedence.level()) {
                break;
            }
            // current is now previous:
            self.advance();
            let infix_rule = self.rule_from_previous().infix;
            match infix_rule {
                Some(rule) => call_infix(rule, self, can_assign),
                None => {
                    // a rule with a defined precedence always has an infix rule
                    assert(false);
                },
            }
        }
    }

    /// Parse an expression.
    fn expression(&mut self)
        requires
            old(self).wf(),
        ensures
            final(self).wf(),
            final(self).model() == expression_spec(old(self).model()),
            cm(final(self).model()) <= cm(old(self).model()),
            old(self).model().parser.current.token != Token::Eof ==> cm(final(self).model()) < cm(
                old(self).model(),
            ),
        decreases cm(old(self).model()), 1nat,
    {
        self.parse_precedence(Precedence::Assignment);
    }

    /// Parse a variable. This could either be a variable access or an assignment, depending on
    /// `can_assign` and the syntactic context.
    fn named_variable(&mut self, lexeme: Lexeme<'a>, can_assign: bool)
        requires
            old(self).wf(),
        ensures
            final(self).wf(),
            final(self).model() == named_variable_spec(old(self).model(), lexeme@, can_assign),
            cm(final(self).model()) <= cm(old(self).model()),
        decreases cm(old(self).model()), 2nat,
    {
        let arg = self.identifier_constant(lexeme);

        // Peek ahead and look if we're assigning.
        // This only works if we're parsing at a lower or equal precedence to assignment.
        if can_assign && self.match_and_advance(Token::Equal) {
            // We're in an assignment expression!
            // Parse the right-hand side:
            self.expression();
            // `SetGlobal` pops the value; read it back, so the assignment leaves its value.
            self.emit_with_operand(OpCode::SetGlobal, arg);
            self.emit_with_operand(OpCode::GetGlobal, arg);
        } else {
            // A reference to a variable.
            self.emit_with_operand(OpCode::GetGlobal, arg);
        }
    }
}

/// Parse a prefix expression with the given rule. (The prefix lexeme has been consumed.)
fn call_prefix<'a, 'n>(rule: PrefixRule, compiler: &mut Compiler<'a, 'n>, can_assign: bool)
    requires
        old(compiler).wf(),
        rule_of(old(compiler).model().parser.previous.token).prefix == Some(rule),
    ensures
        final(compiler).wf(),
        final(compiler).model() == prefix_spec(old(compiler).model(), rule, can_assign),
        cm(final(compiler).model()) <= cm(old(compiler).model()),
    decreases cm(old(compiler).model()), 4nat,
{
    match rule {
        PrefixRule::Grouping => grouping(compiler, can_assign),
        PrefixRule::Unary => unary(compiler, can_assign),
        PrefixRule::Number => number(compiler, can_assign),
        PrefixRule::Str => string(compiler, can_assign),
        PrefixRule::Literal => literal(compiler, can_assign),
        PrefixRule::Variable => variable(compiler, can_assign),
    }
}

/// Parse an infix expression with the given rule. (The operator has been consumed.)
fn call_infix<'a, 'n>(rule: InfixRule, compiler: &mut Compiler<'a, 'n>, can_assign: bool)
    requires
        old(compiler).wf(),
        rule_of(old(compiler).model().parser.previous.token).infix == Some(rule),
    ensures
        final(compiler).wf(),
        final(compiler).model() == infix_spec(old(compiler).model(), rule),
        cm(final(compiler).model()) <= cm(old(compiler).model()),
    decreases cm(old(compiler).model()), 3nat,
{
    match rule {
        InfixRule::Binary => binary(compiler, can_assign),
    }
}

/// Parse '(' as a prefix. Assumes '(' has been consumed.
fn grouping<'a, 'n>(compiler: &mut Compiler<'a, 'n>, _can_assign: bool)
    requires
        old(compiler).wf(),
    ensures
        final(compiler).wf(),
        final(compiler).model() == prefix_spec(
            old(compiler).model(),
            PrefixRule::Grouping,
            _can_assign,
        ),
        cm(final(compiler).model()) <= cm(old(compiler).model()),
    decreases cm(old(compiler).model()), 2nat,
{
    compiler.expression();
    compiler.parser.consume(Token::RightParen, "Expect ')' after grouping.");
}

/// Parse a number literal as a prefix. Assumes the number has been consumed.
fn number<'a, 'n>(compiler: &mut Compiler<'a, 'n>, _can_assign: bool)
    requires
        old(compiler).wf(),
        old(compiler).model().parser.previous.token == Token::Number,
    ensures
        final(compiler).wf(),
        final(compiler).model() == prefix_spec(
            old(compiler).model(),
            PrefixRule::Number,
            _can_assign,
        ),
{
    proof {
        lemma_numerals_ahead_bound(compiler.parser@.scanner);
    }
    let seen = compiler.parser.numerals_seen;
    let pending: usize = if compiler.parser.current.token() == Token::Number {
        1
    } else {
        0
    };
    let bits = compiler.numerals[seen - 1 - pending];
    compiler.emit_constant(Value::Number(bits));
}

/// Parse an unary operator as a prefix. Assumes the operator has been consumed.
fn unary<'a, 'n>(compiler: &mut Compiler<'a, 'n>, _can_assign: bool)
    requires
        old(compiler).wf(),
        old(compiler).model().parser.previous.token == Token::Bang
            || old(compiler).model().parser.previous.token == Token::Minus,
    ensures
        final(compiler).wf(),
        final(compiler).model() == prefix_spec(
            old(compiler).model(),
            PrefixRule::Unary,
            _can_assign,
        ),
        cm(final(compiler).model()) <= cm(old(compiler).model()),
    decreases cm(old(compiler).model()), 2nat,
{
    let operator = compiler.previous_token();

    // Compile the operand, so that it's placed on the stack.
    compiler.parse_precedence(Precedence::Unary);

    if operator == Token::Bang {
        compiler.emit(OpCode::Not);
    } else {
        compiler.emit(OpCode::Negate);
    }
}

/// Parse a binary operator as an infix. Assumes the operator has been consumed.
fn binary<'a, 'n>(compiler: &mut Compiler<'a, 'n>, _can_assign: bool)
    requires
        old(compiler).wf(),
        rule_of(old(compiler).model().parser.previous.token).infix == Some(InfixRule::Binary),
    ensures
        final(compiler).wf(),
        final(compiler).model() == infix_spec(old(compiler).model(), InfixRule::Binary),
        cm(final(compiler).model()) <= cm(old(compiler).model()),
    decreases cm(old(compiler).model()), 2nat,
{
    let operator = compiler.previous_token();
    let rule = get_rule(operator);

    compiler.parse_precedence(rule.higher_precedence());
    match operator {
        Token::BangEqual => {
            compiler.emit_instructions(OpCode::Equal, OpCode::Not);
        },
        Token::EqualEqual => compiler.emit(OpCode::Equal),
        Token::Greater => compiler.emit(OpCode::Greater),
        Token::GreaterEqual => {
            compiler.emit_instructions(OpCode::Less, OpCode::Not);
        },
        Token::Less => compiler.emit(OpCode::Less),
        Token::LessEqual => {
            compiler.emit_instructions(OpCode::Greater, OpCode::Not);
        },
        Token::Plus => compiler.emit(OpCode::Add),
        Token::Minus => compiler.emit(OpCode::Subtract),
        Token::Star => compiler.emit(OpCode::Multiply),
        _ => compiler.emit(OpCode::Divide),
    }
    assert(compiler.model() =~= infix_spec(old(compiler).model(), InfixRule::Binary));
}

/// Parse a keyword literal as a prefix. Assumes the keyword has been consumed.
fn literal<'a, 'n>(compiler: &mut Compiler<'a, 'n>, _can_assign: bool)
    requires
        old(compiler).wf(),
        old(compiler).model().parser.previous.token == Token::False
            || old(compiler).model().parser.previous.token == Token::Nil
            || old(compiler).model().parser.previous.token == Token::True,
    ensures
        final(compiler).wf(),
        final(compiler).model() == prefix_spec(
            old(compiler).model(),
            PrefixRule::Literal,
            _can_assign,
        ),
{
    match compiler.previous_token() {
        Token::False => compiler.emit(OpCode::False),
        Token::Nil => compiler.emit(OpCode::Nil),
        _ => compiler.emit(OpCode::True),
    }
}

/// Parse a string literal. Add it to the constant pool.
fn string<'a, 'n>(compiler: &mut Compiler<'a, 'n>, _can_assign: bool)
    requires
        old(compiler).wf(),
        old(compiler).model().parser.previous.token == Token::StrLiteral,
    ensures
        final(compiler).wf(),
        final(compiler).model() == prefix_spec(
            old(compiler).model(),
            PrefixRule::Str,
            _can_assign,
        ),
{
    // Access the string contents (without the quotes)
    let literal = compiler.parser.previous.text();
    let last_index = literal.unicode_len() - 1;
    let contents = literal.substring_char(1, last_index);
    let value = compiler.string_value(contents);
    compiler.emit_constant(value);
}

/// Parse a variable. It can be either a variable access or assignment, which is why
/// `can_assign` is required by all rules.
fn variable<'a, 'n>(compiler: &mut Compiler<'a, 'n>, can_assign: bool)
    requires
        old(compiler).wf(),
    ensures
        final(compiler).wf(),
        final(compiler).model() == prefix_spec(
            old(compiler).model(),
            PrefixRule::Variable,
            can_assign,
        ),
        cm(final(compiler).model()) <= cm(old(compiler).model()),
    decreases cm(old(compiler).model()), 3nat,
{
    let previous = compiler.parser.previous;
    compiler.named_variable(previous, can_assign);
}

impl<'a, 'n> Compiler<'a, 'n> {
    /// Parse a declaration, then recover from its error if it reported one.
    fn declaration(&mut self)
        requires
            old(self).wf(),
        ensures
            final(self).wf(),
            final(self).model() == declaration_spec(old(self).model()),
            cm(final(self).model()) <= cm(old(self).model()),
            old(self).model().parser.current.token != Token::Eof ==> cm(final(self).model()) < cm(
                old(self).model(),
            ),
    {
        reveal(declaration_spec);
        if self.match_and_advance(Token::Var) {
            self.var_statement();
        } else {
            self.statement();
        }

        if self.parser.panic_mode {
            self.parser.synchronize();
        }
    }

    /// Parse a statement.
    fn statement(&mut self)
        requires
            old(self).wf(),
        ensures
            final(self).wf(),
            final(self).model() == statement_spec(old(self).model()),
            cm(final(self).model()) <= cm(old(self).model()),
            old(self).model().parser.current.token != Token::Eof ==> cm(final(self).model()) < cm(
                old(self).model(),
            ),
    {
        if self.match_and_advance(Token::Print) {
            self.print_statement();
        } else {
            self.expression_statement();
        }
    }

    /// Parse a variable declaration. Assumes `var` has already been consumed.
    fn var_statement(&mut self)
        requires
            old(self).wf(),
        ensures
            final(self).wf(),
            final(self).model() == var_statement_spec(old(self).model()),
            cm(final(self).model()) <= cm(old(self).model()),
    {
        let global = self.parse_variable("need a variable name after var");

        if self.match_and_advance(Token::Equal) {
            self.expression();
        } else {
            self.emit(OpCode::Nil);
        }

        self.parser.consume(Token::Semicolon, "expect ; after this variable declaration");

        self.define_variable(global);
    }

    /// Parse an expression statement (e.g., assignments, function calls).
    fn expression_statement(&mut self)
        requires
            old(self).wf(),
        ensures
            final(self).wf(),
            final(self).model() == expression_statement_spec(old(self).model()),
            cm(final(self).model()) <= cm(old(self).model()),
            old(self).model().parser.current.token != Token::Eof ==> cm(final(self).model()) < cm(
                old(self).model(),
            ),
    {
        self.expression();
        self.parser.consume(Token::Semicolon, "expected semicolon to end this statement");
        // An expression statement leaves nothing on the stack: its value is discarded.
        self.emit(OpCode::Pop);
    }

    /// Parse a print statement. Assumes `print` has already been consumed.
    fn print_statement(&mut self)
        requires
            old(self).wf(),
        ensures
            final(self).wf(),
            final(self).model() == print_statement_spec(old(self).model()),
            cm(final(self).model()) <= cm(old(self).model()),
    {
        self.expression();
        self.parser.consume(Token::Semicolon, "expected semicolon to end print statement");
        self.emit(OpCode::Print);
    }

    /// Signal the end of compilation.
    fn end_compiler(&mut self)
        requires
            old(self).wf(),
        ensures
            final(self).wf(),
            final(self).model() == emit_spec(old(self).model(), OpCode::Return),
    {
        self.emit_return();
    }

    /// Takes ownership of the compiler, and returns the chunk (or the compile error), the
    /// reported errors, and the string store.
    fn compile(start: Self) -> (out: (crate::Result<Chunk>, Vec<Diagnostic<'a>>, ActiveGC))
        requires
            start.wf(),
        ensures
            out.2.wf(),
            out.0 matches Ok(chunk) ==> chunk@.valid(),
            out.0 is Err <==> out.1@.len() > 0,
            ({
                let end = emit_spec(declarations_spec(start.model()), OpCode::Return);
                &&& diagnostic_views(out.1@) == end.parser.diagnostics
                &&& out.2@ == end.strings
                &&& outcome_view(out.0) == result_of(end)
            }),
    {
        let ghost target = declarations_spec(start.model());
        let ghost entry = start.model();
        let mut compiler = start;
        loop
            invariant_except_break
                compiler.wf(),
                declarations_spec(compiler.model()) == target,
                target == declarations_spec(entry),
                entry == start.model(),
            ensures
                compiler.wf(),
                compiler.model() == target,
            decreases cm(compiler.model()),
        {
            if compiler.match_and_advance(Token::Eof) {
                break;
            }
            compiler.declaration();
        }
        compiler.end_compiler();
        let Compiler { parser, compiling_chunk, strings, .. } = compiler;
        if parser.had_error {
            return (Err(InterpretationError::CompileError), parser.diagnostics, strings);
        }
        (Ok(compiling_chunk), parser.diagnostics, strings)
    }
}

/// The view of a compilation's result.
pub open spec fn outcome_view(result: crate::Result<Chunk>) -> Result<ChunkView, InterpretationError> {
    match result {
        Ok(chunk) => Ok(chunk@),
        Err(e) => Err(e),
    }
}

/// The result that a compiler state stands for: a compile error when an error was reported,
/// the chunk otherwise.
pub open spec fn result_of(c: CompilerView) -> Result<ChunkView, InterpretationError> {
    if c.parser.had_error {
        Err(InterpretationError::CompileError)
    } else {
        Ok(c.chunk)
    }
}

/// What compiling some source produced.
pub struct Compilation<'a> {
    /// The errors reported, in order.
    pub diagnostics: Vec<Diagnostic<'a>>,
    /// The chunk, or [InterpretationError::CompileError] when an error was reported.
    pub result: crate::Result<Chunk>,
}

/// Compiles the given Lox source code.
///
/// String literals and names are stored in `gc`. `numerals` holds, in order, the bit patterns
/// of the source's number literals (see [numerals]); the k-th number literal compiles to a
/// constant with the k-th bit pattern.
pub fn compile<'a>(source: &'a str, gc: &mut ActiveGC, numerals: &[u64]) -> (compilation: Compilation<'a>)
    requires
        source@.len() < usize::MAX,
        old(gc).wf(),
        numerals@.len() == numeral_texts(source@).len(),
    ensures
        final(gc).wf(),
        compilation.result matches Ok(chunk) ==> chunk@.valid(),
        compilation.result is Err <==> compilation.diagnostics@.len() > 0,
        compilation.result matches Ok(chunk) ==> chunk@.code.len() > 0 && chunk@.code.last()
            == opcode_byte(OpCode::Return),
        ({
            let end = compile_spec(source@, old(gc)@, numerals@);
            &&& diagnostic_views(compilation.diagnostics@)
                == end.parser.diagnostics
            &&& outcome_view(compilation.result) == result_of(end)
            &&& final(gc)@ == end.strings
        }),
{
    let mut store = ActiveGC::install();
    core::mem::swap(gc, &mut store);
    let parser = Parser::new(source);
    let compiler = Compiler::new(parser, store, numerals);
    let (result, diagnostics, mut store) = Compiler::compile(compiler);
    core::mem::swap(gc, &mut store);
    Compilation { diagnostics, result }
}

/// The texts of the number literals of `source`, in the order the scanner yields them: the
/// literals whose values [compile] takes.
pub fn numerals<'a>(source: &'a str) -> (texts: Vec<&'a str>)
    requires
        source@.len() < usize::MAX,
    ensures
        texts@.map_values(|t: &'a str| t@) == numeral_texts(source@),
{
    let mut scanner = Scanner::new(source);
    let mut texts: Vec<&'a str> = Vec::new();
    loop
        invariant
            scanner.wf(),
            scanner@.valid(),
            scanner@.src == source@,
            texts@.map_values(|t: &'a str| t@) + numerals_ahead(scanner@) == numeral_texts(
                source@,
            ),
        decreases scanner@.src.len() - scanner@.current,
    {
        proof {
            lemma_scan_valid(scanner@);
        }
        let ghost before = scanner@;
        let ghost seen = texts@.map_values(|t: &'a str| t@);
        let lexeme = scanner.scan_token();
        if lexeme.token() == Token::Eof {
            proof {
                assert(numerals_ahead(before) =~= Seq::<Seq<char>>::empty());
                assert(seen =~= numeral_texts(source@));
            }
            return texts;
        }
        if lexeme.token() == Token::Number {
            texts.push(lexeme.text());
            proof {
                assert(numerals_ahead(before) =~= seq![lexeme@.text] + numerals_ahead(scanner@));
                assert(texts@.map_values(|t: &'a str| t@) =~= seen.push(lexeme@.text));
            }
        } else {
            assert(numerals_ahead(before) =~= numerals_ahead(scanner@));
        }
        assert(texts@.map_values(|t: &'a str| t@) + numerals_ahead(scanner@) =~= numeral_texts(
            source@,
        ));
    }
}

} // verus!
