//! What compiling Lox source means: the parser's and compiler's behaviour stated over the
//! lexical grammar of [crate::scanner].
//!
//! The compiler is a Pratt parser with panic-mode error recovery. Its observable behaviour (the
//! bytes, lines and constants it emits, the strings it stores, the errors it reports, and where
//! it stops) is stated here as a function of the source, the string store, and the bit patterns
//! of the source's number literals. [crate::compiler] is proved to follow it.
use crate::chunk::{empty_chunk, max_constants, opcode_byte, ChunkView, OpCode};
use crate::scanner::{
    is_digit_spec, is_id_start_spec, lemma_find_char_bounds, lemma_scan_eof_forever, lemma_scan_valid,
    lemma_skip_ws_bounds, scan_spec, scanner_start, skip_ws, LexemeView, ScannerView, Token,
};
use crate::value::ValueView;
use vstd::prelude::*;

verus! {

/// Precedence rules for [Token]s in Lox, from loosest to tightest.
#[derive(Clone, Copy, Debug, PartialEq, PartialOrd, Eq, Structural)]
pub enum Precedence {
    /// Not an operator.
    Undefined,
    /// `=`
    Assignment,
    /// `or`
    Or,
    /// `and`
    And,
    /// `==` `!=`
    Equality,
    /// `<` `>` `<=` `>=`
    Comparison,
    /// `+` `-`
    Term,
    /// `*` `/`
    Factor,
    /// `!` `-`
    Unary,
    /// `.` `()`
    Call,
    /// Literals, and groupings
    Primary,
}

/// How a token is parsed where an expression starts.
#[derive(Clone, Copy, Debug, PartialEq, Eq, Structural)]
pub enum PrefixRule {
    /// `(` expression `)`
    Grouping,
    /// `!` or `-` and its operand
    Unary,
    /// A number literal
    Number,
    /// A string literal
    Str,
    /// `false`, `nil` or `true`
    Literal,
    /// A variable's name: a read, or an assignment
    Variable,
}

/// How a token is parsed after a complete left operand.
#[derive(Clone, Copy, Debug, PartialEq, Eq, Structural)]
pub enum InfixRule {
    /// A binary operator and its right operand
    Binary,
}

/// A rule in the Pratt parser table.
#[derive(Clone, Copy, Debug, PartialEq, Eq, Structural)]
pub struct ParserRule {
    pub prefix: Option<PrefixRule>,
    pub infix: Option<InfixRule>,
    pub precedence: Precedence,
}

/// The position of a precedence in the order from loosest to tightest.
pub open spec fn level(p: Precedence) -> int {
    match p {
        Precedence::Undefined => 0,
        Precedence::Assignment => 1,
        Precedence::Or => 2,
        Precedence::And => 3,
        Precedence::Equality => 4,
        Precedence::Comparison => 5,
        Precedence::Term => 6,
        Precedence::Factor => 7,
        Precedence::Unary => 8,
        Precedence::Call => 9,
        Precedence::Primary => 10,
    }
}

/// The next tighter precedence (there is none above [Precedence::Primary]).
pub open spec fn higher(p: Precedence) -> Precedence {
    match p {
        Precedence::Undefined => Precedence::Assignment,
        Precedence::Assignment => Precedence::Or,
        Precedence::Or => Precedence::And,
        Precedence::And => Precedence::Equality,
        Precedence::Equality => Precedence::Comparison,
        Precedence::Comparison => Precedence::Term,
        Precedence::Term => Precedence::Factor,
        Precedence::Factor => Precedence::Unary,
        Precedence::Unary => Precedence::Call,
        Precedence::Call => Precedence::Primary,
        Precedence::Primary => Precedence::Primary,
    }
}

/// The parser table: for each token, its prefix rule, infix rule and precedence.
pub open spec fn rule_of(token: Token) -> ParserRule {
    let none = Precedence::Undefined;
    match token {
        Token::LeftParen => ParserRule {
            prefix: Some(PrefixRule::Grouping),
            infix: None,
            precedence: none,
        },
        Token::Minus => ParserRule {
            prefix: Some(PrefixRule::Unary),
            infix: Some(InfixRule::Binary),
            precedence: Precedence::Term,
        },
        Token::Plus => ParserRule {
            prefix: None,
            infix: Some(InfixRule::Binary),
            precedence: Precedence::Term,
        },
        Token::Slash | Token::Star => ParserRule {
            prefix: None,
            infix: Some(InfixRule::Binary),
            precedence: Precedence::Factor,
        },
        Token::Bang => ParserRule { prefix: Some(PrefixRule::Unary), infix: None, precedence: none },
        Token::BangEqual | Token::EqualEqual => ParserRule {
            prefix: None,
            infix: Some(InfixRule::Binary),
            precedence: Precedence::Equality,
        },
        Token::Greater | Token::GreaterEqual | Token::Less | Token::LessEqual => ParserRule {
            prefix: None,
            infix: Some(InfixRule::Binary),
            precedence: Precedence::Comparison,
        },
        Token::Identifier => ParserRule {
            prefix: Some(PrefixRule::Variable),
            infix: None,
            precedence: none,
        },
        Token::StrLiteral => ParserRule {
            prefix: Some(PrefixRule::Str),
            infix: None,
            precedence: none,
        },
        Token::Number => ParserRule {
            prefix: Some(PrefixRule::Number),
            infix: None,
            precedence: none,
        },
        Token::False | Token::Nil | Token::True => ParserRule {
            prefix: Some(PrefixRule::Literal),
            infix: None,
            precedence: none,
        },
        _ => ParserRule { prefix: None, infix: None, precedence: none },
    }
}

/// A reported compile error: the lexeme it is located at, and its message.
#[verifier::ext_equal]
pub struct DiagnosticView {
    pub lexeme: LexemeView,
    pub message: Seq<char>,
}

/// The parser's state: the scanner, the current and previous lexemes, the error flags, the
/// errors reported so far, and how many number literals the scanner has produced.
#[verifier::ext_equal]
pub struct ParserView {
    pub scanner: ScannerView,
    pub current: LexemeView,
    pub previous: LexemeView,
    pub had_error: bool,
    pub panic_mode: bool,
    pub diagnostics: Seq<DiagnosticView>,
    pub numerals_seen: int,
}

/// The compiler's state: the parser, the chunk being produced, the string store, and the bit
/// patterns of the source's number literals.
#[verifier::ext_equal]
pub struct CompilerView {
    pub parser: ParserView,
    pub chunk: ChunkView,
    pub strings: Set<Seq<char>>,
    pub numerals: Seq<u64>,
}

////////////////////////////////////////// Messages ////////////////////////////////////////////

pub open spec fn msg_before_first_token() -> Seq<char> {
    "<before first token>"@
}

pub open spec fn msg_cannot_understand() -> Seq<char> {
    "Could not figure out how to understand symbol in this context"@
}

pub open spec fn msg_too_many_constants() -> Seq<char> {
    "Too many constants in one chunk"@
}

pub open spec fn msg_expect_right_paren() -> Seq<char> {
    "Expect ')' after grouping."@
}

pub open spec fn msg_expect_variable_name() -> Seq<char> {
    "need a variable name after var"@
}

pub open spec fn msg_expect_semicolon_after_var() -> Seq<char> {
    "expect ; after this variable declaration"@
}

pub open spec fn msg_expect_semicolon_after_statement() -> Seq<char> {
    "expected semicolon to end this statement"@
}

pub open spec fn msg_expect_semicolon_after_print() -> Seq<char> {
    "expected semicolon to end print statement"@
}

/////////////////////////////////////////// The lexer ////////////////////////////////////////////

/// The number literals among the lexemes that scanning from `v` yields, in order.
pub open spec fn numerals_ahead(v: ScannerView) -> Seq<Seq<char>>
    decreases v.src.len() - v.current,
{
    let (lexeme, next) = scan_spec(v);
    if !v.valid() || lexeme.token == Token::Eof {
        Seq::empty()
    } else {
        proof {
            lemma_scan_valid(v);
        }
        if lexeme.token == Token::Number {
            seq![lexeme.text] + numerals_ahead(next)
        } else {
            numerals_ahead(next)
        }
    }
}

/// The texts of the number literals of a source, in order.
pub open spec fn numeral_texts(src: Seq<char>) -> Seq<Seq<char>> {
    numerals_ahead(scanner_start(src))
}

/////////////////////////////////////////// Lemmas ////////////////////////////////////////////////

/// Scanned string literals are quoted on both ends.
pub proof fn lemma_scan_shape(v: ScannerView)
    requires
        v.valid(),
    ensures
        lexeme_shape(scan_spec(v).0),
{
    lemma_scan_valid(v);
    let (s, l) = skip_ws(v.src, v.current, v.line);
    lemma_skip_ws_bounds(v.src, v.current, v.line);
    if s < v.src.len() && v.src[s] == '"' && !is_id_start_spec(v.src[s]) && !is_digit_spec(
        v.src[s],
    ) {
        lemma_find_char_bounds(v.src, s + 1, '"');
    }
}

/// There are no more number literals ahead than characters.
pub proof fn lemma_numerals_ahead_bound(v: ScannerView)
    requires
        v.valid(),
    ensures
        numerals_ahead(v).len() <= v.src.len() - v.current,
    decreases v.src.len() - v.current,
{
    let (lexeme, next) = scan_spec(v);
    if lexeme.token != Token::Eof {
        lemma_scan_valid(v);
        lemma_numerals_ahead_bound(next);
    }
}

/// One step of the scanner moves its first number literal (if it scanned one) from "ahead" to
/// "seen".
pub proof fn lemma_numerals_step(v: ScannerView)
    requires
        v.valid(),
    ensures
        numerals_ahead(v).len() == numeral_count(scan_spec(v).0.token) + numerals_ahead(
            scan_spec(v).1,
        ).len(),
{
    let (lexeme, next) = scan_spec(v);
    lemma_scan_valid(v);
    if lexeme.token == Token::Eof {
        lemma_scan_eof_forever(v);
        assert(numerals_ahead(next) =~= Seq::<Seq<char>>::empty());
    }
}

/// A fresh parser is valid.
pub proof fn lemma_parser_start_valid(src: Seq<char>)
    requires
        src.len() < usize::MAX,
    ensures
        parser_valid(parser_start(src)),
{
    let v = scanner_start(src);
    lemma_scan_valid(v);
    lemma_scan_shape(v);
    lemma_numerals_step(v);
}

///////////////////////////////////////// The parser ///////////////////////////////////////////

/// How far the parser is from the end of the source: the characters not scanned, plus one while
/// the current lexeme is not the end of file. Every step of the parser that consumes a lexeme
/// makes it smaller.
pub open spec fn measure(p: ParserView) -> nat {
    let remaining = p.scanner.src.len() - p.scanner.current;
    let pending: int = if p.current.token == Token::Eof {
        0
    } else {
        1
    };
    if remaining + pending < 0 {
        0
    } else {
        (remaining + pending) as nat
    }
}

/// Whether `t` counts as a number literal (1) or not (0).
pub open spec fn numeral_count(t: Token) -> int {
    if t == Token::Number {
        1
    } else {
        0
    }
}

/// A string literal lexeme is quoted on both ends.
pub open spec fn lexeme_shape(l: LexemeView) -> bool {
    l.token == Token::StrLiteral ==> l.text.len() >= 2 && l.text[0] == '"' && l.text[l.text.len()
        - 1] == '"'
}

/// The parser states that parsing reaches from a fresh parser: the scanner is valid; at the end
/// of file the scanner is at the end of the source; the lexemes are scanner lexemes; and the
/// number literals scanned so far plus those still ahead are all those of the source.
pub open spec fn parser_valid(p: ParserView) -> bool {
    &&& p.scanner.valid()
    &&& p.current.token == Token::Eof ==> p.scanner.current == p.scanner.src.len()
    &&& lexeme_shape(p.current)
    &&& lexeme_shape(p.previous)
    &&& p.numerals_seen >= numeral_count(p.previous.token) + numeral_count(p.current.token)
    &&& p.numerals_seen + numerals_ahead(p.scanner).len() == numeral_texts(p.scanner.src).len()
}

/// Report an error at `lexeme`, unless the parser is already in panic mode.
pub open spec fn error_at_spec(p: ParserView, lexeme: LexemeView, message: Seq<char>) -> ParserView {
    if p.panic_mode {
        p
    } else {
        ParserView {
            panic_mode: true,
            had_error: true,
            diagnostics: p.diagnostics.push(DiagnosticView { lexeme, message }),
            ..p
        }
    }
}

/// Scan lexemes into `current`, reporting each error lexeme, until one is not an error.
pub open spec fn scan_past_errors(p: ParserView) -> ParserView
    decreases p.scanner.src.len() - p.scanner.current,
{
    let (lexeme, next) = scan_spec(p.scanner);
    let p1 = ParserView {
        scanner: next,
        current: lexeme,
        numerals_seen: p.numerals_seen + numeral_count(lexeme.token),
        ..p
    };
    if lexeme.token == Token::Error && p.scanner.valid() {
        proof {
            lemma_scan_valid(p.scanner);
        }
        scan_past_errors(error_at_spec(p1, lexeme, lexeme.text))
    } else {
        p1
    }
}

/// Move one lexeme further: `previous` becomes `current`, and the next non-error lexeme becomes
/// `current`.
pub open spec fn advance_spec(p: ParserView) -> ParserView {
    scan_past_errors(ParserView { previous: p.current, ..p })
}

/// Advance past `token` if it is current; otherwise report `message` at the current lexeme.
pub open spec fn consume_spec(p: ParserView, token: Token, message: Seq<char>) -> ParserView {
    if p.current.token == token {
        advance_spec(p)
    } else {
        error_at_spec(p, p.current, message)
    }
}

/// Leave panic mode, then skip lexemes up to a statement boundary (see [skip_to_boundary]).
pub open spec fn synchronize_spec(p: ParserView) -> ParserView {
    skip_to_boundary(ParserView { panic_mode: false, ..p })
}

/// Whether parsing can resume here: at the end of file, just past a `;`, or at a keyword that
/// starts a statement.
pub open spec fn at_boundary(p: ParserView) -> bool {
    p.current.token == Token::Eof || p.previous.token == Token::Semicolon || starts_statement(
        p.current.token,
    )
}

/// Advance until the parser is at a statement boundary.
///
/// (The comparison of measures never fails away from the end of file: advancing consumes a
/// lexeme.)
pub open spec fn skip_to_boundary(p: ParserView) -> ParserView
    decreases measure(p),
{
    if at_boundary(p) {
        p
    } else {
        let p1 = advance_spec(p);
        if measure(p1) < measure(p) {
            skip_to_boundary(p1)
        } else {
            p1
        }
    }
}

/// The keywords at which error recovery resumes parsing.
pub open spec fn starts_statement(t: Token) -> bool {
    t == Token::Class || t == Token::Fun || t == Token::Var || t == Token::For || t == Token::If
        || t == Token::While || t == Token::Print || t == Token::Return
}

/// The parser at the start: the first lexeme scanned (errors included) is current, and the
/// previous lexeme is a sentinel.
pub open spec fn parser_start(src: Seq<char>) -> ParserView {
    let (first, next) = scan_spec(scanner_start(src));
    ParserView {
        scanner: next,
        current: first,
        previous: LexemeView { token: Token::Error, text: msg_before_first_token(), line: 0 },
        had_error: false,
        panic_mode: false,
        diagnostics: Seq::empty(),
        numerals_seen: numeral_count(first.token),
    }
}

//////////////////////////////////////// The compiler //////////////////////////////////////////

impl CompilerView {
    /// The same compiler with another parser state.
    pub open spec fn with_parser(self, p: ParserView) -> CompilerView {
        CompilerView { parser: p, ..self }
    }
}

/// Report an error at the previous lexeme.
pub open spec fn error_spec(c: CompilerView, message: Seq<char>) -> CompilerView {
    c.with_parser(error_at_spec(c.parser, c.parser.previous, message))
}

/// Append an opcode, on the line of the previous lexeme.
pub open spec fn emit_spec(c: CompilerView, op: OpCode) -> CompilerView {
    CompilerView {
        chunk: c.chunk.append(opcode_byte(op), c.parser.previous.line as usize),
        ..c
    }
}

/// Append an opcode and its operand, on the line of the previous lexeme.
pub open spec fn emit_with_operand_spec(c: CompilerView, op: OpCode, operand: u8) -> CompilerView {
    let line = c.parser.previous.line as usize;
    CompilerView { chunk: c.chunk.append(opcode_byte(op), line).append(operand, line), ..c }
}

/// Add a constant to the pool; its index, or 0 and an error when the index does not fit in a
/// byte.
pub open spec fn make_constant_spec(c: CompilerView, value: ValueView) -> (u8, CompilerView) {
    let index = c.chunk.constants.len();
    let c1 = CompilerView {
        chunk: ChunkView { constants: c.chunk.constants.push(value), ..c.chunk },
        ..c
    };
    if index < max_constants() {
        (index as u8, c1)
    } else {
        (0, error_spec(c1, msg_too_many_constants()))
    }
}

/// Add a constant and emit the instruction that pushes it.
pub open spec fn emit_constant_spec(c: CompilerView, value: ValueView) -> CompilerView {
    let (index, c1) = make_constant_spec(c, value);
    emit_with_operand_spec(c1, OpCode::Constant, index)
}

/// Store the lexeme's text and add it to the constant pool as a string.
pub open spec fn identifier_constant_spec(c: CompilerView, lexeme: LexemeView) -> (u8, CompilerView) {
    let c1 = CompilerView { strings: c.strings.insert(lexeme.text), ..c };
    make_constant_spec(c1, ValueView::LoxString(lexeme.text))
}

/// The bits of the number literal that is the previous lexeme: the literals are numbered in
/// the order the scanner produced them.
pub open spec fn numeral_value(p: ParserView, numerals: Seq<u64>) -> u64 {
    let k = p.numerals_seen - 1 - numeral_count(p.current.token);
    if 0 <= k < numerals.len() {
        numerals[k]
    } else {
        0
    }
}

/// The opcodes that a binary operator compiles to, after both operands.
pub open spec fn emit_binary_spec(c: CompilerView, operator: Token) -> CompilerView {
    match operator {
        Token::BangEqual => emit_spec(emit_spec(c, OpCode::Equal), OpCode::Not),
        Token::EqualEqual => emit_spec(c, OpCode::Equal),
        Token::Greater => emit_spec(c, OpCode::Greater),
        Token::GreaterEqual => emit_spec(emit_spec(c, OpCode::Less), OpCode::Not),
        Token::Less => emit_spec(c, OpCode::Less),
        Token::LessEqual => emit_spec(emit_spec(c, OpCode::Greater), OpCode::Not),
        Token::Plus => emit_spec(c, OpCode::Add),
        Token::Minus => emit_spec(c, OpCode::Subtract),
        Token::Star => emit_spec(c, OpCode::Multiply),
        Token::Slash => emit_spec(c, OpCode::Divide),
        _ => c,
    }
}

/// The opcode of a keyword literal.
pub open spec fn emit_literal_spec(c: CompilerView, keyword: Token) -> CompilerView {
    match keyword {
        Token::False => emit_spec(c, OpCode::False),
        Token::Nil => emit_spec(c, OpCode::Nil),
        Token::True => emit_spec(c, OpCode::True),
        _ => c,
    }
}

/// The opcode of a unary operator, after its operand.
pub open spec fn emit_unary_spec(c: CompilerView, operator: Token) -> CompilerView {
    match operator {
        Token::Bang => emit_spec(c, OpCode::Not),
        Token::Minus => emit_spec(c, OpCode::Negate),
        _ => c,
    }
}

/// Advance the compiler's parser.
pub open spec fn advance_c(c: CompilerView) -> CompilerView {
    c.with_parser(advance_spec(c.parser))
}

/// The measure of a compiler state: that of its parser.
pub open spec fn cm(c: CompilerView) -> nat {
    measure(c.parser)
}

/// The core of the Pratt parsing algorithm: parse an expression whose operators bind at least as
/// tightly as `prec`.
///
/// (The comparisons of measures never fail: each parsing step makes the measure smaller or
/// keeps it, and consuming a lexeme makes it smaller. They make the termination of the
/// definition evident.)
pub open spec fn parse_precedence_spec(c: CompilerView, prec: Precedence) -> CompilerView
    decreases cm(c), 0nat,
{
    let c1 = advance_c(c);
    let can_assign = level(prec) <= level(Precedence::Assignment);
    match rule_of(c1.parser.previous.token).prefix {
        None => error_spec(c1, msg_cannot_understand()),
        Some(rule) => if cm(c1) < cm(c) {
            let c2 = prefix_spec(c1, rule, can_assign);
            if cm(c2) <= cm(c1) {
                infix_loop_spec(c2, prec)
            } else {
                c2
            }
        } else {
            c1
        },
    }
}

/// While the current lexeme is an operator that binds at least as tightly as `prec`, consume
/// it and parse its right operand.
pub open spec fn infix_loop_spec(c: CompilerView, prec: Precedence) -> CompilerView
    decreases cm(c), 0nat,
{
    if level(prec) <= level(rule_of(c.parser.current.token).precedence) {
        let c1 = advance_c(c);
        if cm(c1) < cm(c) {
            match rule_of(c1.parser.previous.token).infix {
                Some(rule) => {
                    let c2 = infix_spec(c1, rule);
                    if cm(c2) <= cm(c1) {
                        infix_loop_spec(c2, prec)
                    } else {
                        c2
                    }
                },
                None => c1,
            }
        } else {
            c1
        }
    } else {
        c
    }
}

/// Parse the right operand of the binary operator that is the previous lexeme, then emit the
/// operator.
pub open spec fn infix_spec(c: CompilerView, rule: InfixRule) -> CompilerView
    decreases cm(c), 2nat,
{
    match rule {
        InfixRule::Binary => {
            let operator = c.parser.previous.token;
            let c1 = parse_precedence_spec(c, higher(rule_of(operator).precedence));
            emit_binary_spec(c1, operator)
        },
    }
}

/// Parse the expression that starts with the previous lexeme.
pub open spec fn prefix_spec(c: CompilerView, rule: PrefixRule, can_assign: bool) -> CompilerView
    decreases cm(c), 2nat,
{
    match rule {
        PrefixRule::Grouping => {
            let c1 = parse_precedence_spec(c, Precedence::Assignment);
            c1.with_parser(consume_spec(c1.parser, Token::RightParen, msg_expect_right_paren()))
        },
        PrefixRule::Number => emit_constant_spec(
            c,
            ValueView::Number(numeral_value(c.parser, c.numerals)),
        ),
        PrefixRule::Unary => {
            let operator = c.parser.previous.token;
            let c1 = parse_precedence_spec(c, Precedence::Unary);
            emit_unary_spec(c1, operator)
        },
        PrefixRule::Literal => emit_literal_spec(c, c.parser.previous.token),
        PrefixRule::Str => {
            let text = c.parser.previous.text;
            let contents = text.subrange(1, text.len() - 1);
            let c1 = CompilerView { strings: c.strings.insert(contents), ..c };
            emit_constant_spec(c1, ValueView::LoxString(contents))
        },
        PrefixRule::Variable => named_variable_spec(c, c.parser.previous, can_assign),
    }
}

/// A variable's name: an assignment when assignment is allowed here and `=` follows, otherwise
/// a read. An assignment stores the value and then reads the variable back, so that, as every
/// expression does, it leaves its value on the stack.
pub open spec fn named_variable_spec(c: CompilerView, name: LexemeView, can_assign: bool) -> CompilerView
    decreases cm(c), 1nat,
{
    let (arg, c1) = identifier_constant_spec(c, name);
    if can_assign && c1.parser.current.token == Token::Equal {
        let c2 = advance_c(c1);
        if cm(c2) < cm(c) {
            let c3 = parse_precedence_spec(c2, Precedence::Assignment);
            emit_with_operand_spec(
                emit_with_operand_spec(c3, OpCode::SetGlobal, arg),
                OpCode::GetGlobal,
                arg,
            )
        } else {
            c2
        }
    } else {
        emit_with_operand_spec(c1, OpCode::GetGlobal, arg)
    }
}

/// Parse an expression.
pub open spec fn expression_spec(c: CompilerView) -> CompilerView {
    parse_precedence_spec(c, Precedence::Assignment)
}

/// `print` expression `;` (the keyword already consumed).
pub open spec fn print_statement_spec(c: CompilerView) -> CompilerView {
    let c1 = expression_spec(c);
    let c2 = c1.with_parser(
        consume_spec(c1.parser, Token::Semicolon, msg_expect_semicolon_after_print()),
    );
    emit_spec(c2, OpCode::Print)
}

/// expression `;`, whose value is discarded.
pub open spec fn expression_statement_spec(c: CompilerView) -> CompilerView {
    let c1 = expression_spec(c);
    let c2 = c1.with_parser(
        consume_spec(c1.parser, Token::Semicolon, msg_expect_semicolon_after_statement()),
    );
    emit_spec(c2, OpCode::Pop)
}

/// `var` name (`=` expression)? `;` (the keyword already consumed).
pub open spec fn var_statement_spec(c: CompilerView) -> CompilerView {
    let c1 = c.with_parser(consume_spec(c.parser, Token::Identifier, msg_expect_variable_name()));
    let (global, c2) = identifier_constant_spec(c1, c1.parser.previous);
    let c3 = if c2.parser.current.token == Token::Equal {
        expression_spec(advance_c(c2))
    } else {
        emit_spec(c2, OpCode::Nil)
    };
    let c4 = c3.with_parser(
        consume_spec(c3.parser, Token::Semicolon, msg_expect_semicolon_after_var()),
    );
    emit_with_operand_spec(c4, OpCode::DefineGlobal, global)
}

/// A print statement or an expression statement.
pub open spec fn statement_spec(c: CompilerView) -> CompilerView {
    if c.parser.current.token == Token::Print {
        print_statement_spec(advance_c(c))
    } else {
        expression_statement_spec(c)
    }
}

//////////////////////////////////// Laws of the compiled code ////////////////////////////////////

/// The opcode bytes that a binary operator compiles to.
pub open spec fn binary_code(operator: Token) -> Seq<u8> {
    match operator {
        Token::BangEqual => seq![opcode_byte(OpCode::Equal), opcode_byte(OpCode::Not)],
        Token::EqualEqual => seq![opcode_byte(OpCode::Equal)],
        Token::Greater => seq![opcode_byte(OpCode::Greater)],
        Token::GreaterEqual => seq![opcode_byte(OpCode::Less), opcode_byte(OpCode::Not)],
        Token::Less => seq![opcode_byte(OpCode::Less)],
        Token::LessEqual => seq![opcode_byte(OpCode::Greater), opcode_byte(OpCode::Not)],
        Token::Plus => seq![opcode_byte(OpCode::Add)],
        Token::Minus => seq![opcode_byte(OpCode::Subtract)],
        Token::Star => seq![opcode_byte(OpCode::Multiply)],
        Token::Slash => seq![opcode_byte(OpCode::Divide)],
        _ => Seq::empty(),
    }
}

/// `a` is a prefix of `b`, and `b` of `c`: so `a` is a prefix of `c`.
proof fn lemma_prefix_trans(a: Seq<u8>, b: Seq<u8>, c: Seq<u8>)
    requires
        a.is_prefix_of(b),
        b.is_prefix_of(c),
    ensures
        a.is_prefix_of(c),
{
    assert(c.subrange(0, a.len() as int) =~= b.subrange(0, a.len() as int));
}

/// Emitting only appends to the code.
proof fn lemma_emit_grows(c: CompilerView, op: OpCode)
    ensures
        c.chunk.code.is_prefix_of(emit_spec(c, op).chunk.code),
{
    assert(emit_spec(c, op).chunk.code.subrange(0, c.chunk.code.len() as int) =~= c.chunk.code);
}

/// Emitting one opcode, or two, only appends to the code.
proof fn lemma_emits_grow(c: CompilerView, first: OpCode, second: OpCode)
    ensures
        c.chunk.code.is_prefix_of(c.chunk.code),
        c.chunk.code.is_prefix_of(emit_spec(c, first).chunk.code),
        c.chunk.code.is_prefix_of(emit_spec(emit_spec(c, first), second).chunk.code),
{
    assert(c.chunk.code.subrange(0, c.chunk.code.len() as int) =~= c.chunk.code);
    lemma_emit_grows(c, first);
    lemma_emit_grows(emit_spec(c, first), second);
    lemma_prefix_trans(
        c.chunk.code,
        emit_spec(c, first).chunk.code,
        emit_spec(emit_spec(c, first), second).chunk.code,
    );
}

/// Parsing an expression only appends to the code compiled so far.
pub proof fn law_expression_appends_code(c: CompilerView, prec: Precedence)
    ensures
        c.chunk.code.is_prefix_of(parse_precedence_spec(c, prec).chunk.code),
    decreases cm(c), 0nat,
{
    let c1 = advance_c(c);
    let can_assign = level(prec) <= level(Precedence::Assignment);
    lemma_emits_grow(c, OpCode::Nil, OpCode::Nil);
    match rule_of(c1.parser.previous.token).prefix {
        None => {},
        Some(rule) => if cm(c1) < cm(c) {
            lemma_prefix_grows(c1, rule, can_assign);
            let c2 = prefix_spec(c1, rule, can_assign);
            if cm(c2) <= cm(c1) {
                lemma_infix_loop_grows(c2, prec);
                lemma_prefix_trans(
                    c.chunk.code,
                    c2.chunk.code,
                    infix_loop_spec(c2, prec).chunk.code,
                );
            }
        },
    }
}

/// The infix loop only appends to the code.
proof fn lemma_infix_loop_grows(c: CompilerView, prec: Precedence)
    ensures
        c.chunk.code.is_prefix_of(infix_loop_spec(c, prec).chunk.code),
    decreases cm(c), 0nat,
{
    lemma_emits_grow(c, OpCode::Nil, OpCode::Nil);
    if level(prec) <= level(rule_of(c.parser.current.token).precedence) {
        let c1 = advance_c(c);
        if cm(c1) < cm(c) {
            match rule_of(c1.parser.previous.token).infix {
                Some(rule) => {
                    lemma_infix_grows(c1, rule);
                    let c2 = infix_spec(c1, rule);
                    if cm(c2) <= cm(c1) {
                        lemma_infix_loop_grows(c2, prec);
                        lemma_prefix_trans(
                            c.chunk.code,
                            c2.chunk.code,
                            infix_loop_spec(c2, prec).chunk.code,
                        );
                    }
                },
                None => {},
            }
        }
    }
}

/// A binary operator's right operand and its opcodes only append to the code.
proof fn lemma_infix_grows(c: CompilerView, rule: InfixRule)
    ensures
        c.chunk.code.is_prefix_of(infix_spec(c, rule).chunk.code),
    decreases cm(c), 2nat,
{
    match rule {
        InfixRule::Binary => {
            let operator = c.parser.previous.token;
            let c1 = parse_precedence_spec(c, higher(rule_of(operator).precedence));
            law_expression_appends_code(c, higher(rule_of(operator).precedence));
            lemma_binary_code(c1, operator);
            assert(c1.chunk.code.is_prefix_of(emit_binary_spec(c1, operator).chunk.code)) by {
                assert(emit_binary_spec(c1, operator).chunk.code.subrange(
                    0,
                    c1.chunk.code.len() as int,
                ) =~= c1.chunk.code);
            }
            lemma_prefix_trans(
                c.chunk.code,
                c1.chunk.code,
                emit_binary_spec(c1, operator).chunk.code,
            );
        },
    }
}

/// The code that a binary operator appends is its opcode bytes.
proof fn lemma_binary_code(c: CompilerView, operator: Token)
    ensures
        emit_binary_spec(c, operator).chunk.code == c.chunk.code + binary_code(operator),
{
    assert(emit_binary_spec(c, operator).chunk.code =~= c.chunk.code + binary_code(operator));
}

/// A prefix expression only appends to the code.
proof fn lemma_prefix_grows(c: CompilerView, rule: PrefixRule, can_assign: bool)
    ensures
        c.chunk.code.is_prefix_of(prefix_spec(c, rule, can_assign).chunk.code),
    decreases cm(c), 2nat,
{
    lemma_emits_grow(c, OpCode::Nil, OpCode::Nil);
    match rule {
        PrefixRule::Grouping => {
            law_expression_appends_code(c, Precedence::Assignment);
        },
        PrefixRule::Number => {
            let (index, c1) = make_constant_spec(c, ValueView::Number(numeral_value(c.parser, c.numerals)));
            lemma_emit_operand_grows(c1, OpCode::Constant, index);
        },
        PrefixRule::Unary => {
            let operator = c.parser.previous.token;
            law_expression_appends_code(c, Precedence::Unary);
            let c1 = parse_precedence_spec(c, Precedence::Unary);
            lemma_emits_grow(c1, OpCode::Not, OpCode::Not);
            lemma_emits_grow(c1, OpCode::Negate, OpCode::Negate);
            lemma_prefix_trans(c.chunk.code, c1.chunk.code, emit_unary_spec(c1, operator).chunk.code);
        },
        PrefixRule::Literal => {
            lemma_emits_grow(c, OpCode::False, OpCode::False);
            lemma_emits_grow(c, OpCode::True, OpCode::True);
        },
        PrefixRule::Str => {
            let text = c.parser.previous.text;
            let contents = text.subrange(1, text.len() - 1);
            let c1 = CompilerView { strings: c.strings.insert(contents), ..c };
            let (index, c2) = make_constant_spec(c1, ValueView::LoxString(contents));
            lemma_emit_operand_grows(c2, OpCode::Constant, index);
        },
        PrefixRule::Variable => {
            lemma_named_variable_grows(c, c.parser.previous, can_assign);
        },
    }
}

/// Emitting an opcode and its operand only appends to the code.
proof fn lemma_emit_operand_grows(c: CompilerView, op: OpCode, operand: u8)
    ensures
        c.chunk.code.is_prefix_of(emit_with_operand_spec(c, op, operand).chunk.code),
{
    assert(emit_with_operand_spec(c, op, operand).chunk.code.subrange(
        0,
        c.chunk.code.len() as int,
    ) =~= c.chunk.code);
}

/// A variable's read or assignment only appends to the code.
proof fn lemma_named_variable_grows(c: CompilerView, name: LexemeView, can_assign: bool)
    ensures
        c.chunk.code.is_prefix_of(named_variable_spec(c, name, can_assign).chunk.code),
    decreases cm(c), 1nat,
{
    let (arg, c1) = identifier_constant_spec(c, name);
    lemma_emits_grow(c, OpCode::Nil, OpCode::Nil);
    if can_assign && c1.parser.current.token == Token::Equal {
        let c2 = advance_c(c1);
        if cm(c2) < cm(c) {
            law_expression_appends_code(c2, Precedence::Assignment);
            let c3 = parse_precedence_spec(c2, Precedence::Assignment);
            let c4 = emit_with_operand_spec(c3, OpCode::SetGlobal, arg);
            lemma_emit_operand_grows(c3, OpCode::SetGlobal, arg);
            lemma_emit_operand_grows(c4, OpCode::GetGlobal, arg);
            lemma_prefix_trans(c.chunk.code, c3.chunk.code, c4.chunk.code);
            lemma_prefix_trans(
                c.chunk.code,
                c4.chunk.code,
                emit_with_operand_spec(c4, OpCode::GetGlobal, arg).chunk.code,
            );
        }
    } else {
        lemma_emit_operand_grows(c1, OpCode::GetGlobal, arg);
    }
}

/// Binary operators come out in postfix order, by precedence and associating to the left.
///
/// With the left operand compiled and the operator just consumed, the operator's right operand
/// is parsed one precedence level above the operator's own: so it takes in operators that bind
/// more tightly, and stops at one of the same precedence, which then applies to the result
/// (left associativity). The code after the operator is the code compiled so far, then the right
/// operand's code, then the operator's opcodes.
pub proof fn law_binary_postfix(c: CompilerView)
    requires
        rule_of(c.parser.previous.token).infix == Some(InfixRule::Binary),
    ensures
        ({
            let operator = c.parser.previous.token;
            let prec = rule_of(operator).precedence;
            let right = parse_precedence_spec(c, higher(prec));
            &&& prec != Precedence::Primary
            &&& level(higher(prec)) == level(prec) + 1
            &&& c.chunk.code.is_prefix_of(right.chunk.code)
            &&& infix_spec(c, InfixRule::Binary).chunk.code == right.chunk.code + binary_code(
                operator,
            )
            &&& binary_code(operator).len() > 0
        }),
{
    let operator = c.parser.previous.token;
    let prec = rule_of(operator).precedence;
    law_expression_appends_code(c, higher(prec));
    lemma_binary_code(parse_precedence_spec(c, higher(prec)), operator);
}

/// An operator that binds less tightly than the precedence being parsed ends the operand: the
/// infix loop leaves it, and everything else, as it is.
pub proof fn law_looser_operator_ends_operand(c: CompilerView, prec: Precedence)
    requires
        level(rule_of(c.parser.current.token).precedence) < level(prec),
    ensures
        infix_loop_spec(c, prec) == c,
{
}

/// A declaration, then error recovery if it reported an error.
#[verifier::opaque]
pub open spec fn declaration_spec(c: CompilerView) -> CompilerView {
    let c1 = if c.parser.current.token == Token::Var {
        var_statement_spec(advance_c(c))
    } else {
        statement_spec(c)
    };
    if c1.parser.panic_mode {
        c1.with_parser(synchronize_spec(c1.parser))
    } else {
        c1
    }
}

/// Declarations until the end of file.
///
/// (The comparison of measures never fails: a declaration consumes at least one lexeme.)
pub open spec fn declarations_spec(c: CompilerView) -> CompilerView
    decreases cm(c),
{
    if c.parser.current.token == Token::Eof {
        advance_c(c)
    } else {
        let c1 = declaration_spec(c);
        if cm(c1) < cm(c) {
            declarations_spec(c1)
        } else {
            c1
        }
    }
}

/// The compiler at the start: a fresh parser over `src`, an empty chunk, the given store and
/// number literals.
pub open spec fn compiler_start(src: Seq<char>, strings: Set<Seq<char>>, numerals: Seq<u64>) -> CompilerView {
    CompilerView { parser: parser_start(src), chunk: empty_chunk(), strings, numerals }
}

/// Compiling `src` with the string store `strings` and the bits of the source's number literals:
/// the compiler's final state, after the closing `Return`.
pub open spec fn compile_spec(src: Seq<char>, strings: Set<Seq<char>>, numerals: Seq<u64>) -> CompilerView {
    emit_spec(declarations_spec(compiler_start(src, strings, numerals)), OpCode::Return)
}

/// A prefix `-` or `!` binds more tightly than every binary operator: its operand is parsed at a
/// precedence at which the operand ends at any binary operator, and the unary opcode (`Negate`
/// for `-`, `Not` for `!`) comes right after the operand's code. So `-a + b` compiles to the
/// code of `a`, `Negate`, the code of `b`, then `Add`.
pub proof fn law_unary_binds_tighter(c: CompilerView, can_assign: bool)
    requires
        rule_of(c.parser.previous.token).prefix == Some(PrefixRule::Unary),
    ensures
        exists|p: Precedence|
            {
                &&& forall|d: CompilerView| #[trigger]
                    rule_of(d.parser.current.token).infix is Some ==> infix_loop_spec(d, p) == d
                &&& prefix_spec(c, PrefixRule::Unary, can_assign).chunk.code == parse_precedence_spec(
                    c,
                    p,
                ).chunk.code.push(
                    if c.parser.previous.token == Token::Minus {
                        opcode_byte(OpCode::Negate)
                    } else {
                        opcode_byte(OpCode::Not)
                    },
                )
            },
{
    let p = Precedence::Unary;
    assert forall|d: CompilerView| #[trigger]
        rule_of(d.parser.current.token).infix is Some implies infix_loop_spec(d, p) == d by {
        assert(level(rule_of(d.parser.current.token).precedence) < level(p));
    }
    let r = parse_precedence_spec(c, p);
    assert(prefix_spec(c, PrefixRule::Unary, can_assign).chunk.code =~= r.chunk.code.push(
        if c.parser.previous.token == Token::Minus {
            opcode_byte(OpCode::Negate)
        } else {
            opcode_byte(OpCode::Not)
        },
    ));
}

} // verus!
