use rlox::chunk::OpCode;
use rlox::compiler::{compile, get_rule, numerals, InfixRule, Precedence, PrefixRule};
use rlox::error::InterpretationError;
use rlox::gc::ActiveGC;
use rlox::scanner::Token;

#[test]
fn precedence_confidence_check() {
    // High-level precedence (C-like)
    assert!(Precedence::Assignment < Precedence::Or);
    assert!(Precedence::Or < Precedence::And);
    assert!(Precedence::And < Precedence::Equality);
    assert!(Precedence::Equality < Precedence::Comparison);

    // PEDMAS
    // () has greater precedence than */
    assert!(Precedence::Call > Precedence::Factor);
    // */ has greater precedence than +-
    assert!(Precedence::Factor > Precedence::Term);

    // `and` should be one level of precedence higher than `or`
    assert_eq!(Precedence::And, Precedence::Or.higher_precedence());
    assert_eq!(Precedence::Factor, Precedence::Term.higher_precedence());
}

#[test]
fn compiled_chunk_ends_with_return() {

    let source = "var greeting = \"hi\"; print greeting;";
    assert!(numerals(source).is_empty());
    let mut gc = ActiveGC::install();
    let compilation = compile(source, &mut gc, &[]);
    assert!(compilation.diagnostics.is_empty());
    let chunk = compilation.result.unwrap();
    let last = chunk.len() - 1;
    assert_eq!(Some(OpCode::Return), chunk.get(last).unwrap().as_opcode());
    // The string literal and the variable's name are stored once each.
    assert_eq!(2, gc.n_strings());
}

#[test]
fn compile_errors_carry_their_lexeme() {

    let mut gc = ActiveGC::install();
    let compilation = compile("var = 1;", &mut gc, &[1.0f64.to_bits()]);
    assert_eq!(Some(InterpretationError::CompileError), compilation.result.err());
    assert_eq!(1, compilation.diagnostics.len());
    let diagnostic = &compilation.diagnostics[0];
    assert_eq!("need a variable name after var", diagnostic.message());
    assert_eq!("=", diagnostic.lexeme().text());
    assert_eq!(1, diagnostic.lexeme().line());
}

#[test]
fn parser_table_rules() {

    let minus = get_rule(Token::Minus);
    assert_eq!(Some(PrefixRule::Unary), minus.prefix);
    assert_eq!(Some(InfixRule::Binary), minus.infix);
    assert_eq!(Precedence::Term, minus.precedence);
    assert_eq!(Precedence::Factor, minus.higher_precedence());
    let semicolon = get_rule(Token::Semicolon);
    assert_eq!(None, semicolon.prefix);
    assert_eq!(Precedence::Undefined, semicolon.precedence);
    assert_eq!(2, Precedence::Or.level());
}
