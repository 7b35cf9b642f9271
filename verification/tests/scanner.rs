use rlox::scanner::{Scanner, Token};
use rlox::scanner::Token::{
    And, Class, Dot, Else, Equal, False, For, Fun, Identifier, If, LeftBrace, LeftParen, Less,
    Nil, Number, Or, Plus, Print, Return, RightBrace, RightParen, Semicolon, Super, This, True,
    Var, While,
};

/// Every token up to (not including) the end of file.
fn tokens(source: &str) -> Vec<Token> {
    let mut scanner = Scanner::new(source);
    let mut tokens = Vec::new();
    loop {
        let token = scanner.scan_token().token();
        if token == Token::Eof {
            return tokens;
        }
        tokens.push(token);
    }
}

#[test]
fn scanning_every_keyword() {
    let source_code = "class classic {
            fun fund() {
                if (ifree and anders or orvile) {
                    print printer;
                } else {
                    for (former = 0; former < 10; former = former + 1) {
                    nill = nil;
                    }
                    super.falseFlag = truede;
                    this.thistle = true;
                    superMario = false or true;
                    return returned;
                }
                var varied;
                while (whileLoop) {
                    0;
                }
            }
        }";

    // I copied the indentation of the code above.
    let expected_tokens = vec![
        Class, Identifier, LeftBrace,
            Fun, Identifier, LeftParen, RightParen, LeftBrace,
                If, LeftParen, Identifier, And, Identifier, Or, Identifier, RightParen, LeftBrace,
                    Print, Identifier, Semicolon,
                RightBrace, Else, LeftBrace,
                    For, LeftParen, Identifier, Equal, Number, Semicolon, Identifier, Less, Number, Semicolon, Identifier, Equal, Identifier, Plus, Number, RightParen, LeftBrace,
                        Identifier, Equal, Nil, Semicolon,
                    RightBrace,
                    Super, Dot, Identifier, Equal, Identifier, Semicolon,
                    This, Dot, Identifier, Equal,
                    True, Semicolon, Identifier, Equal, False, Or, True, Semicolon,
                    Return, Identifier, Semicolon,
                RightBrace,
                Var, Identifier, Semicolon,
                While, LeftParen, Identifier, RightParen, LeftBrace,
                    Number, Semicolon,
                RightBrace,
            RightBrace,
        RightBrace,
    ];

    assert_eq!(expected_tokens, tokens(source_code));
}

#[test]
fn scanner_yields_eof_forever() {
    let mut scanner = Scanner::new("1");
    assert_eq!(Token::Number, scanner.scan_token().token());
    for _ in 0..3 {
        let lexeme = scanner.scan_token();
        assert_eq!(Token::Eof, lexeme.token());
        assert_eq!("", lexeme.text());
    }
    assert!(scanner.is_at_end());
}

#[test]
fn lexemes_are_slices_of_the_source() {
    let mut scanner = Scanner::new("var answer = 42.5; // comment\n\"two\nlines\" >= !=");
    let expected = [
        (Token::Var, "var", 1),
        (Token::Identifier, "answer", 1),
        (Token::Equal, "=", 1),
        (Token::Number, "42.5", 1),
        (Token::Semicolon, ";", 1),
        (Token::StrLiteral, "\"two\nlines\"", 3),
        (Token::GreaterEqual, ">=", 3),
        (Token::BangEqual, "!=", 3),
        (Token::Eof, "", 3),
    ];
    for (token, text, line) in expected {
        let lexeme = scanner.scan_token();
        assert_eq!(token, lexeme.token());
        assert_eq!(text, lexeme.text());
        assert_eq!(line, lexeme.line());
    }
}

#[test]
fn number_literals_need_digits_after_the_dot() {
    let mut scanner = Scanner::new("1.x");
    let number = scanner.scan_token();
    assert_eq!((Token::Number, "1"), (number.token(), number.text()));
    assert_eq!(Token::Dot, scanner.scan_token().token());
    assert_eq!(Token::Identifier, scanner.scan_token().token());
}

#[test]
fn scanning_errors() {
    let mut scanner = Scanner::new("@ \"open");
    let unexpected = scanner.scan_token();
    assert_eq!((Token::Error, "Unexpected character"), (unexpected.token(), unexpected.text()));
    let unterminated = scanner.scan_token();
    assert_eq!((Token::Error, "Unterminated string"), (unterminated.token(), unterminated.text()));
    assert_eq!(Token::Eof, scanner.scan_token().token());
}

#[test]
fn sentinel_lexeme() {
    let scanner = Scanner::new("x");
    let sentinel = scanner.make_sentinel("<before first token>");
    assert_eq!(Token::Error, sentinel.token());
    assert_eq!("<before first token>", sentinel.text());
}

#[test]
fn lexemes_lists_every_lexeme_before_the_end() {
    let mut scanner = Scanner::new("print 1 + 2;");
    let tokens: Vec<Token> = scanner.lexemes().iter().map(|l| l.token()).collect();
    assert_eq!(vec![Print, Number, Plus, Number, Semicolon], tokens);
    assert!(scanner.is_at_end());
    assert_eq!(Token::Eof, scanner.scan_token().token());
}

#[test]
fn lexemes_and_blanks_tile_the_source() {
    let source = "  var x = \"a\" ;// note\n\tprint x;\n";
    let mut scanner = Scanner::new(source);
    let texts: Vec<&str> = scanner.lexemes().iter().map(|l| l.text()).collect();
    assert_eq!(vec!["var", "x", "=", "\"a\"", ";", "print", "x", ";"], texts);
    let mut rest = source;
    for text in texts {
        let at = rest.find(text).unwrap();
        let blank = &rest[..at];
        assert!(blank.trim().is_empty() || blank.trim_start().starts_with("//"));
        rest = &rest[at + text.len()..];
    }
    assert!(rest.trim().is_empty());
}

#[test]
fn a_lexeme_is_on_the_line_where_it_ends() {
    let mut scanner = Scanner::new("a\n\"one\ntwo\"\n// c\n\nb");
    let lines: Vec<usize> = scanner.lexemes().iter().map(|l| l.line()).collect();
    assert_eq!(vec![1, 3, 6], lines);
}
