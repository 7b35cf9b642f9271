//! Lox's lexical analysis.
//!
//! A [Scanner] walks over Lox source code and yields [Lexeme]s, each of which represents a
//! [Token]. The lexical grammar is stated as spec functions over the source's characters
//! ([scan_spec] and the functions it uses); [Scanner::scan_token] is proved to follow it.
//!
//! Terminology: a [Lexeme] is one contiguous piece of source code, a [Token] is its kind, and
//! [Lexeme::text()] is the piece of source code itself.
use vstd::prelude::*;
use vstd::string::*;

verus! {

/// What _kind_ of [Lexeme] you have.
#[derive(Debug, Clone, Copy, PartialEq, Eq, Structural)]
pub enum Token {
    // Single-character tokens.
    LeftParen,
    RightParen,
    LeftBrace,
    RightBrace,
    Comma,
    Dot,
    Minus,
    Plus,
    Semicolon,
    Star,
    Slash,
    Question,
    Colon,
    // One or two character tokens
    Bang,
    BangEqual,
    Equal,
    EqualEqual,
    Greater,
    GreaterEqual,
    Less,
    LessEqual,
    // Literals
    Identifier,
    StrLiteral,
    Number,
    // Keywords
    And,
    Class,
    Else,
    False,
    For,
    Fun,
    If,
    Nil,
    Or,
    Print,
    Return,
    Super,
    This,
    True,
    Var,
    While,
    // Others
    Error,
    Eof,
}

/// A lexeme: one contiguous string from some Lox source code.
#[derive(Clone, Copy, Debug)]
pub struct Lexeme<'a> {
    /// The [Token] of this lexeme.
    token: Token,
    /// The actual text from the source code (or, for [Token::Error], the error message).
    text: &'a str,
    /// The line where this lexeme came from.
    line: usize,
}

/// The mathematical content of a [Lexeme].
#[verifier::ext_equal]
pub struct LexemeView {
    pub token: Token,
    pub text: Seq<char>,
    pub line: int,
}

/// Scans Lox source code and iteratively yields [Lexeme]s.
///
/// The scanner is stateful, and therefore, can only be used to do one pass over the source code
/// string. Once the whole source code has been scanned, the scanner will forever yield
/// [Token::Eof].
#[derive(Debug)]
pub struct Scanner<'a> {
    source: &'a str,
    chars: Vec<char>,
    start: usize,
    current: usize,
    line: usize,
}

/// The mathematical state of a [Scanner]: the source, the start of the last lexeme, the position
/// of the next character to read, and the current line.
pub struct ScannerView {
    pub src: Seq<char>,
    pub start: int,
    pub current: int,
    pub line: int,
}

////////////////////////////////////// The lexical grammar ///////////////////////////////////////

/// `c` is an ASCII decimal digit.
pub open spec fn is_digit_spec(c: char) -> bool {
    '0' <= c && c <= '9'
}

/// `c` can start an identifier or keyword: an ASCII letter or `_`.
pub open spec fn is_id_start_spec(c: char) -> bool {
    ('a' <= c && c <= 'z') || ('A' <= c && c <= 'Z') || c == '_'
}

/// `c` can be used after the first character of an identifier or keyword.
pub open spec fn is_id_continue_spec(c: char) -> bool {
    is_id_start_spec(c) || is_digit_spec(c)
}

/// The character at `i`, or `'\0'` past the end of the source.
pub open spec fn char_at(src: Seq<char>, i: int) -> char {
    if 0 <= i < src.len() {
        src[i]
    } else {
        '\0'
    }
}

/// The first position at or after `i` that holds `c`, or the end of the source.
pub open spec fn find_char(src: Seq<char>, i: int, c: char) -> int
    decreases src.len() - i,
{
    if i < 0 || i >= src.len() || src[i] == c {
        i
    } else {
        find_char(src, i + 1, c)
    }
}

/// The first position at or after `i` that does not hold an identifier character.
pub open spec fn id_end(src: Seq<char>, i: int) -> int
    decreases src.len() - i,
{
    if 0 <= i < src.len() && is_id_continue_spec(src[i]) {
        id_end(src, i + 1)
    } else {
        i
    }
}

/// The first position at or after `i` that does not hold a digit.
pub open spec fn digits_end(src: Seq<char>, i: int) -> int
    decreases src.len() - i,
{
    if 0 <= i < src.len() && is_digit_spec(src[i]) {
        digits_end(src, i + 1)
    } else {
        i
    }
}

/// The end of a number literal whose first digit is just before `i`: more digits, then
/// optionally a `.` followed by at least one digit and more digits.
pub open spec fn number_end(src: Seq<char>, i: int) -> int {
    let d = digits_end(src, i);
    if char_at(src, d) == '.' && is_digit_spec(char_at(src, d + 1)) {
        digits_end(src, d + 1)
    } else {
        d
    }
}

/// How many newlines lie in `src[i..j]`.
pub open spec fn count_newlines(src: Seq<char>, i: int, j: int) -> int
    decreases j - i,
{
    if i >= j {
        0
    } else {
        count_newlines(src, i, j - 1) + if char_at(src, j - 1) == '\n' {
            1int
        } else {
            0int
        }
    }
}

/// Whitespace and comments: skips from `i` on line `line`; returns the new position and line.
pub open spec fn skip_ws(src: Seq<char>, i: int, line: int) -> (int, int)
    decreases src.len() - i,
{
    if i < 0 || i >= src.len() {
        (i, line)
    } else if src[i] == ' ' || src[i] == '\r' || src[i] == '\t' {
        skip_ws(src, i + 1, line)
    } else if src[i] == '\n' {
        skip_ws(src, i + 1, line + 1)
    } else if src[i] == '/' && char_at(src, i + 1) == '/' {
        let e = find_char(src, i + 1, '\n');
        proof {
            lemma_find_char_bounds(src, i + 1, '\n');
        }
        skip_ws(src, e, line)
    } else {
        (i, line)
    }
}

/// The keyword spelled by `text`, or [Token::Identifier] when `text` is no keyword.
pub open spec fn keyword_token(text: Seq<char>) -> Token {
    if text == seq!['a', 'n', 'd'] {
        Token::And
    } else if text == seq!['c', 'l', 'a', 's', 's'] {
        Token::Class
    } else if text == seq!['e', 'l', 's', 'e'] {
        Token::Else
    } else if text == seq!['f', 'a', 'l', 's', 'e'] {
        Token::False
    } else if text == seq!['f', 'o', 'r'] {
        Token::For
    } else if text == seq!['f', 'u', 'n'] {
        Token::Fun
    } else if text == seq!['i', 'f'] {
        Token::If
    } else if text == seq!['n', 'i', 'l'] {
        Token::Nil
    } else if text == seq!['o', 'r'] {
        Token::Or
    } else if text == seq!['p', 'r', 'i', 'n', 't'] {
        Token::Print
    } else if text == seq!['r', 'e', 't', 'u', 'r', 'n'] {
        Token::Return
    } else if text == seq!['s', 'u', 'p', 'e', 'r'] {
        Token::Super
    } else if text == seq!['t', 'h', 'i', 's'] {
        Token::This
    } else if text == seq!['t', 'r', 'u', 'e'] {
        Token::True
    } else if text == seq!['v', 'a', 'r'] {
        Token::Var
    } else if text == seq!['w', 'h', 'i', 'l', 'e'] {
        Token::While
    } else {
        Token::Identifier
    }
}

/// The token of a one-character lexeme, if `c` is one.
pub open spec fn single_char_token(c: char) -> Option<Token> {
    if c == '(' {
        Some(Token::LeftParen)
    } else if c == ')' {
        Some(Token::RightParen)
    } else if c == '{' {
        Some(Token::LeftBrace)
    } else if c == '}' {
        Some(Token::RightBrace)
    } else if c == ';' {
        Some(Token::Semicolon)
    } else if c == ',' {
        Some(Token::Comma)
    } else if c == '.' {
        Some(Token::Dot)
    } else if c == '-' {
        Some(Token::Minus)
    } else if c == '+' {
        Some(Token::Plus)
    } else if c == '/' {
        Some(Token::Slash)
    } else if c == '*' {
        Some(Token::Star)
    } else if c == '?' {
        Some(Token::Question)
    } else if c == ':' {
        Some(Token::Colon)
    } else {
        None
    }
}

/// For `!`, `=`, `<`, `>`: the token alone and the token when followed by `=`.
pub open spec fn one_or_two_char_tokens(c: char) -> Option<(Token, Token)> {
    if c == '!' {
        Some((Token::Bang, Token::BangEqual))
    } else if c == '=' {
        Some((Token::Equal, Token::EqualEqual))
    } else if c == '<' {
        Some((Token::Less, Token::LessEqual))
    } else if c == '>' {
        Some((Token::Greater, Token::GreaterEqual))
    } else {
        None
    }
}

/// The message of the error lexeme for a character that starts no lexeme.
pub open spec fn unexpected_character_message() -> Seq<char> {
    seq![
        'U', 'n', 'e', 'x', 'p', 'e', 'c', 't', 'e', 'd', ' ', 'c', 'h', 'a', 'r', 'a', 'c', 't',
        'e', 'r',
    ]
}

/// The message of the error lexeme for a string literal without its closing quote.
pub open spec fn unterminated_string_message() -> Seq<char> {
    seq!['U', 'n', 't', 'e', 'r', 'm', 'i', 'n', 'a', 't', 'e', 'd', ' ', 's', 't', 'r', 'i', 'n', 'g']
}

/// The lexeme that starts at `s` (whitespace already skipped) on line `line`, and the position and
/// line after it.
pub open spec fn lexeme_at(src: Seq<char>, s: int, line: int) -> (LexemeView, int, int) {
    if s >= src.len() {
        (LexemeView { token: Token::Eof, text: src.subrange(s, s), line }, s, line)
    } else {
        let c = src[s];
        if is_id_start_spec(c) {
            let e = id_end(src, s + 1);
            let text = src.subrange(s, e);
            (LexemeView { token: keyword_token(text), text, line }, e, line)
        } else if is_digit_spec(c) {
            let e = number_end(src, s + 1);
            (LexemeView { token: Token::Number, text: src.subrange(s, e), line }, e, line)
        } else if single_char_token(c) is Some {
            (
                LexemeView {
                    token: single_char_token(c)->0,
                    text: src.subrange(s, s + 1),
                    line,
                },
                s + 1,
                line,
            )
        } else if one_or_two_char_tokens(c) is Some {
            if char_at(src, s + 1) == '=' {
                (
                    LexemeView {
                        token: (one_or_two_char_tokens(c)->0).1,
                        text: src.subrange(s, s + 2),
                        line,
                    },
                    s + 2,
                    line,
                )
            } else {
                (
                    LexemeView {
                        token: (one_or_two_char_tokens(c)->0).0,
                        text: src.subrange(s, s + 1),
                        line,
                    },
                    s + 1,
                    line,
                )
            }
        } else if c == '"' {
            let q = find_char(src, s + 1, '"');
            let l = line + count_newlines(src, s + 1, q);
            if q >= src.len() {
                (
                    LexemeView { token: Token::Error, text: unterminated_string_message(), line: l },
                    q,
                    l,
                )
            } else {
                (LexemeView { token: Token::StrLiteral, text: src.subrange(s, q + 1), line: l }, q + 1, l)
            }
        } else {
            (
                LexemeView { token: Token::Error, text: unexpected_character_message(), line },
                s + 1,
                line,
            )
        }
    }
}

/// One step of the scanner: skip whitespace and comments, then read one lexeme.
/// Returns the lexeme and the scanner's state after it.
pub open spec fn scan_spec(v: ScannerView) -> (LexemeView, ScannerView) {
    let (s, l) = skip_ws(v.src, v.current, v.line);
    let (lexeme, e, l2) = lexeme_at(v.src, s, l);
    (lexeme, ScannerView { src: v.src, start: s, current: e, line: l2 })
}

/// The state of a fresh scanner over `src`.
pub open spec fn scanner_start(src: Seq<char>) -> ScannerView {
    ScannerView { src, start: 0, current: 0, line: 1 }
}

impl ScannerView {
    /// The scanner's positions lie within the source, and its line fits the machine.
    pub open spec fn valid(self) -> bool {
        &&& 0 <= self.start <= self.current <= self.src.len()
        &&& 1 <= self.line <= self.current + 1
        &&& self.src.len() < usize::MAX
    }
}

/////////////////////////////////////////// Lemmas ////////////////////////////////////////////////

/// The lengths and first two letters of the keywords.
proof fn lemma_keyword_spellings()
    ensures
        seq!['a', 'n', 'd'].len() == 3,
        seq!['a', 'n', 'd'][0] == 'a',
        seq!['a', 'n', 'd'][1] == 'n',
        seq!['c', 'l', 'a', 's', 's'].len() == 5,
        seq!['c', 'l', 'a', 's', 's'][0] == 'c',
        seq!['c', 'l', 'a', 's', 's'][1] == 'l',
        seq!['e', 'l', 's', 'e'].len() == 4,
        seq!['e', 'l', 's', 'e'][0] == 'e',
        seq!['e', 'l', 's', 'e'][1] == 'l',
        seq!['f', 'a', 'l', 's', 'e'].len() == 5,
        seq!['f', 'a', 'l', 's', 'e'][0] == 'f',
        seq!['f', 'a', 'l', 's', 'e'][1] == 'a',
        seq!['f', 'o', 'r'].len() == 3,
        seq!['f', 'o', 'r'][0] == 'f',
        seq!['f', 'o', 'r'][1] == 'o',
        seq!['f', 'u', 'n'].len() == 3,
        seq!['f', 'u', 'n'][0] == 'f',
        seq!['f', 'u', 'n'][1] == 'u',
        seq!['i', 'f'].len() == 2,
        seq!['i', 'f'][0] == 'i',
        seq!['i', 'f'][1] == 'f',
        seq!['n', 'i', 'l'].len() == 3,
        seq!['n', 'i', 'l'][0] == 'n',
        seq!['n', 'i', 'l'][1] == 'i',
        seq!['o', 'r'].len() == 2,
        seq!['o', 'r'][0] == 'o',
        seq!['o', 'r'][1] == 'r',
        seq!['p', 'r', 'i', 'n', 't'].len() == 5,
        seq!['p', 'r', 'i', 'n', 't'][0] == 'p',
        seq!['p', 'r', 'i', 'n', 't'][1] == 'r',
        seq!['r', 'e', 't', 'u', 'r', 'n'].len() == 6,
        seq!['r', 'e', 't', 'u', 'r', 'n'][0] == 'r',
        seq!['r', 'e', 't', 'u', 'r', 'n'][1] == 'e',
        seq!['s', 'u', 'p', 'e', 'r'].len() == 5,
        seq!['s', 'u', 'p', 'e', 'r'][0] == 's',
        seq!['s', 'u', 'p', 'e', 'r'][1] == 'u',
        seq!['t', 'h', 'i', 's'].len() == 4,
        seq!['t', 'h', 'i', 's'][0] == 't',
        seq!['t', 'h', 'i', 's'][1] == 'h',
        seq!['t', 'r', 'u', 'e'].len() == 4,
        seq!['t', 'r', 'u', 'e'][0] == 't',
        seq!['t', 'r', 'u', 'e'][1] == 'r',
        seq!['v', 'a', 'r'].len() == 3,
        seq!['v', 'a', 'r'][0] == 'v',
        seq!['v', 'a', 'r'][1] == 'a',
        seq!['w', 'h', 'i', 'l', 'e'].len() == 5,
        seq!['w', 'h', 'i', 'l', 'e'][0] == 'w',
        seq!['w', 'h', 'i', 'l', 'e'][1] == 'h',
{
}

/// A text that starts with a letter other than a keyword's first letter is not that keyword;
/// for `f` and `t` the second letter decides.
proof fn lemma_keyword_token_by_prefix(text: Seq<char>, first: char, second: char)
    requires
        text.len() > 0,
        text[0] == first,
        text.len() > 1 ==> text[1] == second,
    ensures
        first == 'a' ==> keyword_token(text) == if text == seq!['a', 'n', 'd'] { Token::And } else { Token::Identifier },
        first == 'c' ==> keyword_token(text) == if text == seq!['c', 'l', 'a', 's', 's'] { Token::Class } else { Token::Identifier },
        first == 'e' ==> keyword_token(text) == if text == seq!['e', 'l', 's', 'e'] { Token::Else } else { Token::Identifier },
        first == 'i' ==> keyword_token(text) == if text == seq!['i', 'f'] { Token::If } else { Token::Identifier },
        first == 'n' ==> keyword_token(text) == if text == seq!['n', 'i', 'l'] { Token::Nil } else { Token::Identifier },
        first == 'o' ==> keyword_token(text) == if text == seq!['o', 'r'] { Token::Or } else { Token::Identifier },
        first == 'p' ==> keyword_token(text) == if text == seq!['p', 'r', 'i', 'n', 't'] { Token::Print } else { Token::Identifier },
        first == 'r' ==> keyword_token(text) == if text == seq!['r', 'e', 't', 'u', 'r', 'n'] { Token::Return } else { Token::Identifier },
        first == 's' ==> keyword_token(text) == if text == seq!['s', 'u', 'p', 'e', 'r'] { Token::Super } else { Token::Identifier },
        first == 'v' ==> keyword_token(text) == if text == seq!['v', 'a', 'r'] { Token::Var } else { Token::Identifier },
        first == 'w' ==> keyword_token(text) == if text == seq!['w', 'h', 'i', 'l', 'e'] { Token::While } else { Token::Identifier },
        first == 'f' && second == 'a' ==> keyword_token(text) == if text == seq!['f', 'a', 'l', 's', 'e'] { Token::False } else { Token::Identifier },
        first == 'f' && second == 'o' ==> keyword_token(text) == if text == seq!['f', 'o', 'r'] { Token::For } else { Token::Identifier },
        first == 'f' && second == 'u' ==> keyword_token(text) == if text == seq!['f', 'u', 'n'] { Token::Fun } else { Token::Identifier },
        first == 't' && second == 'h' ==> keyword_token(text) == if text == seq!['t', 'h', 'i', 's'] { Token::This } else { Token::Identifier },
        first == 't' && second == 'r' ==> keyword_token(text) == if text == seq!['t', 'r', 'u', 'e'] { Token::True } else { Token::Identifier },
        first == 'f' && second != 'a' && second != 'o' && second != 'u' ==> keyword_token(text) == Token::Identifier,
        first == 't' && second != 'h' && second != 'r' ==> keyword_token(text) == Token::Identifier,
        first != 'a' && first != 'c' && first != 'e' && first != 'f' && first != 'i' && first != 'n' && first != 'o' && first != 'p' && first != 'r' && first != 's' && first != 't' && first != 'v' && first != 'w' ==> keyword_token(text) == Token::Identifier,
{
    lemma_keyword_spellings();
}

/// `find_char` stays within `[i, len]` (for `i` within the source).
pub proof fn lemma_find_char_bounds(src: Seq<char>, i: int, c: char)
    requires
        0 <= i <= src.len(),
    ensures
        i <= find_char(src, i, c) <= src.len(),
        find_char(src, i, c) < src.len() ==> src[find_char(src, i, c)] == c,
        forall|k: int| i <= k < find_char(src, i, c) ==> src[k] != c,
    decreases src.len() - i,
{
    if i < src.len() && src[i] != c {
        lemma_find_char_bounds(src, i + 1, c);
    }
}

/// `id_end` stays within `[i, len]`.
pub proof fn lemma_id_end_bounds(src: Seq<char>, i: int)
    requires
        0 <= i <= src.len(),
    ensures
        i <= id_end(src, i) <= src.len(),
        forall|k: int| i <= k < id_end(src, i) ==> is_id_continue_spec(#[trigger] src[k]),
    decreases src.len() - i,
{
    if i < src.len() && is_id_continue_spec(src[i]) {
        lemma_id_end_bounds(src, i + 1);
    }
}

/// `digits_end` stays within `[i, len]`.
pub proof fn lemma_digits_end_bounds(src: Seq<char>, i: int)
    requires
        0 <= i <= src.len(),
    ensures
        i <= digits_end(src, i) <= src.len(),
        forall|k: int| i <= k < digits_end(src, i) ==> is_digit_spec(#[trigger] src[k]),
        digits_end(src, i) < src.len() ==> !is_digit_spec(src[digits_end(src, i)]),
    decreases src.len() - i,
{
    if i < src.len() && is_digit_spec(src[i]) {
        lemma_digits_end_bounds(src, i + 1);
    }
}

/// At most one newline per character.
pub proof fn lemma_count_newlines_bounds(src: Seq<char>, i: int, j: int)
    requires
        i <= j,
    ensures
        0 <= count_newlines(src, i, j) <= j - i,
    decreases j - i,
{
    if i < j {
        lemma_count_newlines_bounds(src, i, j - 1);
    }
}

/// Skipping whitespace moves forward within the source, by at least as many characters as it
/// adds lines.
pub proof fn lemma_skip_ws_bounds(src: Seq<char>, i: int, line: int)
    requires
        0 <= i <= src.len(),
    ensures
        i <= skip_ws(src, i, line).0 <= src.len(),
        line <= skip_ws(src, i, line).1,
        skip_ws(src, i, line).1 - line <= skip_ws(src, i, line).0 - i,
    decreases src.len() - i,
{
    if i < src.len() {
        if src[i] == ' ' || src[i] == '\r' || src[i] == '\t' {
            lemma_skip_ws_bounds(src, i + 1, line);
        } else if src[i] == '\n' {
            lemma_skip_ws_bounds(src, i + 1, line + 1);
        } else if src[i] == '/' && char_at(src, i + 1) == '/' {
            lemma_find_char_bounds(src, i + 1, '\n');
            lemma_skip_ws_bounds(src, find_char(src, i + 1, '\n'), line);
        }
    }
}

/// The scanner's step keeps its state valid.
pub proof fn lemma_scan_valid(v: ScannerView)
    requires
        v.valid(),
    ensures
        scan_spec(v).1.valid(),
        scan_spec(v).1.src == v.src,
        v.current <= scan_spec(v).1.start <= scan_spec(v).1.current,
        v.line <= scan_spec(v).1.line,
        scan_spec(v).0.line == scan_spec(v).1.line,
        scan_spec(v).0.token != Token::Eof ==> scan_spec(v).1.start < scan_spec(v).1.current,
        scan_spec(v).0.token == Token::Eof <==> scan_spec(v).1.start == v.src.len(),
        scan_spec(v).0.token == Token::Eof ==> scan_spec(v).1.current == v.src.len(),
{
    let src = v.src;
    lemma_skip_ws_bounds(src, v.current, v.line);
    let (s, l) = skip_ws(src, v.current, v.line);
    if s < src.len() {
        let c = src[s];
        if is_id_start_spec(c) {
            lemma_id_end_bounds(src, s + 1);
        } else if is_digit_spec(c) {
            lemma_digits_end_bounds(src, s + 1);
            let d = digits_end(src, s + 1);
            if char_at(src, d) == '.' && is_digit_spec(char_at(src, d + 1)) {
                lemma_digits_end_bounds(src, d + 1);
            }
        } else if c == '"' {
            lemma_find_char_bounds(src, s + 1, '"');
            lemma_count_newlines_bounds(src, s + 1, find_char(src, s + 1, '"'));
        }
    }
}

/// The text of every lexeme but an error lexeme is exactly the source between the scanner's
/// start and current positions after it: lexemes are slices of the source.
pub proof fn law_lexeme_is_slice(v: ScannerView)
    requires
        v.valid(),
    ensures
        scan_spec(v).0.token != Token::Error ==> scan_spec(v).0.text == v.src.subrange(
            scan_spec(v).1.start,
            scan_spec(v).1.current,
        ),
{
}

/// After the end of file, scanning yields the end of file again and changes nothing.
pub proof fn lemma_scan_eof_forever(v: ScannerView)
    requires
        v.valid(),
        scan_spec(v).0.token == Token::Eof,
    ensures
        scan_spec(scan_spec(v).1).0 == scan_spec(v).0,
        scan_spec(scan_spec(v).1).1 == scan_spec(v).1,
{
    lemma_scan_valid(v);
    lemma_skip_ws_bounds(v.src, v.current, v.line);
    let next = scan_spec(v).1;
    assert(skip_ws(next.src, next.current, next.line) == (next.current, next.line));
    assert(scan_spec(next).0 =~= scan_spec(v).0);
    assert(scan_spec(next).1 =~= scan_spec(v).1);
}

/////////////////////////////////////// Laws of a whole scan ///////////////////////////////////////

/// `src[i..j]` is blank: made only of spaces, carriage returns, tabs, newlines, and `//` comments
/// that run up to a newline or the end of the source.
pub open spec fn blank_between(src: Seq<char>, i: int, j: int) -> bool
    decreases j - i,
{
    if i >= j {
        i == j
    } else if src[i] == ' ' || src[i] == '\r' || src[i] == '\t' || src[i] == '\n' {
        blank_between(src, i + 1, j)
    } else if src[i] == '/' && char_at(src, i + 1) == '/' {
        let e = find_char(src, i + 1, '\n');
        i < e <= j && blank_between(src, e, j)
    } else {
        false
    }
}

/// The scanner's state after `n` scans from `v`.
pub open spec fn scan_n(v: ScannerView, n: nat) -> ScannerView
    decreases n,
{
    if n == 0 {
        v
    } else {
        scan_n(scan_spec(v).1, (n - 1) as nat)
    }
}

/// The text that `n` scans from `v` go over, piece by piece: for each scan, the blank skipped
/// before the lexeme, then the lexeme's text.
pub open spec fn scanned_pieces(v: ScannerView, n: nat) -> Seq<char>
    decreases n,
{
    if n == 0 {
        Seq::empty()
    } else {
        let (lexeme, next) = scan_spec(v);
        v.src.subrange(v.current, next.start) + lexeme.text + scanned_pieces(next, (n - 1) as nat)
    }
}

/// What skipping whitespace and comments passes over is blank, and the lines it counts are the
/// newlines it passes.
pub proof fn lemma_skip_ws_blank(src: Seq<char>, i: int, line: int)
    requires
        0 <= i <= src.len(),
    ensures
        blank_between(src, i, skip_ws(src, i, line).0),
        skip_ws(src, i, line).1 == line + count_newlines(src, i, skip_ws(src, i, line).0),
        skip_ws(src, i, line).0 < src.len() ==> src[skip_ws(src, i, line).0] != '\n',
    decreases src.len() - i,
{
    lemma_skip_ws_bounds(src, i, line);
    let j = skip_ws(src, i, line).0;
    if i < src.len() {
        assert(count_newlines(src, i, i + 1) == count_newlines(src, i, i) + if src[i] == '\n' {
            1int
        } else {
            0int
        });
        if src[i] == ' ' || src[i] == '\r' || src[i] == '\t' {
            lemma_skip_ws_blank(src, i + 1, line);
            lemma_count_newlines_split(src, i, i + 1, j);
        } else if src[i] == '\n' {
            lemma_skip_ws_blank(src, i + 1, line + 1);
            lemma_count_newlines_split(src, i, i + 1, j);
        } else if src[i] == '/' && char_at(src, i + 1) == '/' {
            let e = find_char(src, i + 1, '\n');
            lemma_find_char_bounds(src, i + 1, '\n');
            lemma_skip_ws_bounds(src, e, line);
            lemma_skip_ws_blank(src, e, line);
            lemma_count_newlines_none(src, i, e);
            lemma_count_newlines_split(src, i, e, j);
        }
    }
}

/// Newlines in `src[i..k]` are those in `src[i..j]` and in `src[j..k]`.
pub proof fn lemma_count_newlines_split(src: Seq<char>, i: int, j: int, k: int)
    requires
        i <= j <= k,
    ensures
        count_newlines(src, i, k) == count_newlines(src, i, j) + count_newlines(src, j, k),
    decreases k - j,
{
    if j < k {
        lemma_count_newlines_split(src, i, j, k - 1);
    }
}

/// A stretch without a newline counts none.
pub proof fn lemma_count_newlines_none(src: Seq<char>, i: int, j: int)
    requires
        0 <= i <= j <= src.len(),
        forall|k: int| i <= k < j ==> src[k] != '\n',
    ensures
        count_newlines(src, i, j) == 0,
    decreases j - i,
{
    if i < j {
        lemma_count_newlines_none(src, i, j - 1);
    }
}

/// One scan: the blank it skips and the lexeme it reads lie side by side; a lexeme's line is
/// one plus the newlines before the scanner's position after it, when that holds of the
/// scanner's line before the scan.
pub proof fn lemma_scan_step(v: ScannerView)
    requires
        v.valid(),
    ensures
        blank_between(v.src, v.current, scan_spec(v).1.start),
        v.line == 1 + count_newlines(v.src, 0, v.current) ==> {
            &&& scan_spec(v).1.line == 1 + count_newlines(v.src, 0, scan_spec(v).1.current)
            &&& scan_spec(v).0.line == scan_spec(v).1.line
        },
{
    lemma_scan_valid(v);
    let src = v.src;
    lemma_skip_ws_blank(src, v.current, v.line);
    lemma_skip_ws_bounds(src, v.current, v.line);
    let (s, l) = skip_ws(src, v.current, v.line);
    let e = scan_spec(v).1.current;
    lemma_count_newlines_split(src, 0, v.current, s);
    lemma_count_newlines_split(src, 0, s, e);
    if s < src.len() {
        let c = src[s];
        if is_id_start_spec(c) {
            lemma_id_end_bounds(src, s + 1);
            lemma_count_newlines_none(src, s, e);
        } else if is_digit_spec(c) {
            lemma_digits_end_bounds(src, s + 1);
            let d = digits_end(src, s + 1);
            if char_at(src, d) == '.' && is_digit_spec(char_at(src, d + 1)) {
                lemma_digits_end_bounds(src, d + 1);
            }
            lemma_count_newlines_none(src, s, e);
        } else if single_char_token(c) is Some {
            lemma_count_newlines_none(src, s, e);
        } else if one_or_two_char_tokens(c) is Some {
            lemma_count_newlines_none(src, s, e);
        } else if c == '"' {
            let q = find_char(src, s + 1, '"');
            lemma_find_char_bounds(src, s + 1, '"');
            lemma_count_newlines_none(src, s, s + 1);
            lemma_count_newlines_split(src, s, s + 1, e);
            if q < src.len() {
                lemma_count_newlines_none(src, q, q + 1);
                lemma_count_newlines_split(src, s + 1, q, q + 1);
            }
        } else {
            lemma_count_newlines_none(src, s, e);
        }
    }
}

/// The lexeme line law over a whole scan: from a fresh scanner, the lexeme that the `n`-th scan
/// reads is on line one plus the number of newlines before the scanner's position after it.
/// Newlines in skipped whitespace and comments and inside string literals all count, so a
/// string literal that spans lines is on the line where it ends.
pub proof fn law_lexeme_line(src: Seq<char>, n: nat)
    requires
        src.len() < usize::MAX,
    ensures
        ({
            let (lexeme, next) = scan_spec(scan_n(scanner_start(src), n));
            lexeme.line == 1 + count_newlines(src, 0, next.current)
        }),
{
    lemma_lines_from(scanner_start(src), n);
    lemma_scan_step(scan_n(scanner_start(src), n));
}

/// Scans from a valid state whose line counts the newlines before it keep both facts.
proof fn lemma_lines_from(v: ScannerView, n: nat)
    requires
        v.valid(),
        v.line == 1 + count_newlines(v.src, 0, v.current),
    ensures
        scan_n(v, n).valid(),
        scan_n(v, n).src == v.src,
        scan_n(v, n).line == 1 + count_newlines(v.src, 0, scan_n(v, n).current),
    decreases n,
{
    if n > 0 {
        lemma_scan_valid(v);
        lemma_scan_step(v);
        lemma_lines_from(scan_spec(v).1, (n - 1) as nat);
    }
}

/// The tiling law: as long as no scan yields an error lexeme, the pieces that `n` scans go
/// over (each a blank stretch of whitespace and comments, then a non-empty lexeme text, but for
/// the end of file, whose text is empty) spell out the source from where scanning started to
/// where it stands; once the end of file is read, that is the rest of the source.
pub proof fn law_scan_tiles_source(v: ScannerView, n: nat)
    requires
        v.valid(),
        forall|k: nat| k < n ==> (#[trigger] scan_spec(scan_n(v, k))).0.token != Token::Error,
    ensures
        scan_n(v, n).valid(),
        scan_n(v, n).src == v.src,
        v.current <= scan_n(v, n).current,
        scanned_pieces(v, n) == v.src.subrange(v.current, scan_n(v, n).current),
        forall|k: nat|
            k < n ==> blank_between(
                v.src,
                scan_n(v, k).current,
                (#[trigger] scan_spec(scan_n(v, k))).1.start,
            ),
        forall|k: nat|
            k < n && (#[trigger] scan_spec(scan_n(v, k))).0.token != Token::Eof ==> scan_spec(
                scan_n(v, k),
            ).0.text.len() > 0,
        forall|k: nat|
            k < n && (#[trigger] scan_spec(scan_n(v, k))).0.token == Token::Eof ==> scan_n(
                v,
                n,
            ).current == v.src.len(),
    decreases n,
{
    if n > 0 {
        let (lexeme, next) = scan_spec(v);
        lemma_scan_valid(v);
        lemma_scan_step(v);
        let m = (n - 1) as nat;
        assert forall|k: nat| k < m implies (#[trigger] scan_spec(scan_n(next, k))).0.token
            != Token::Error by {
            assert(scan_n(v, k + 1) == scan_n(next, k));
            assert(scan_spec(scan_n(v, k + 1)).0.token != Token::Error);
        }
        law_scan_tiles_source(next, m);
        assert(scan_n(v, 0) == v);
        assert(scan_spec(scan_n(v, 0)).0.token != Token::Error);
        assert(scan_n(v, n) == scan_n(next, m));
        assert(lexeme.text == v.src.subrange(next.start, next.current));
        assert(v.src.subrange(v.current, next.start) + lexeme.text + scanned_pieces(next, m)
            =~= v.src.subrange(v.current, scan_n(v, n).current));
        assert forall|k: nat| k < n implies blank_between(
            v.src,
            scan_n(v, k).current,
            (#[trigger] scan_spec(scan_n(v, k))).1.start,
        ) by {
            if k > 0 {
                assert(scan_n(v, k) == scan_n(next, (k - 1) as nat));
            }
        }
        assert forall|k: nat|
            k < n && (#[trigger] scan_spec(scan_n(v, k))).0.token != Token::Eof implies scan_spec(
                scan_n(v, k),
            ).0.text.len() > 0 by {
            if k > 0 {
                assert(scan_n(v, k) == scan_n(next, (k - 1) as nat));
            }
        }
        assert forall|k: nat|
            k < n && (#[trigger] scan_spec(scan_n(v, k))).0.token == Token::Eof implies scan_n(
                v,
                n,
            ).current == v.src.len() by {
            if k > 0 {
                assert(scan_n(v, k) == scan_n(next, (k - 1) as nat));
            } else {
                lemma_eof_stays(next, m);
            }
        }
    }
}

/// From the end of the source, scanning stays there.
proof fn lemma_eof_stays(v: ScannerView, n: nat)
    requires
        v.valid(),
        v.current == v.src.len(),
    ensures
        scan_n(v, n).current == v.src.len(),
    decreases n,
{
    if n > 0 {
        lemma_scan_valid(v);
        lemma_skip_ws_bounds(v.src, v.current, v.line);
        lemma_eof_stays(scan_spec(v).1, (n - 1) as nat);
    }
}

/// The lexemes that the scanner yields from state `v` on, up to (not including) the end of file.
pub open spec fn lexemes_ahead(v: ScannerView) -> Seq<LexemeView>
    decreases v.src.len() - v.current,
{
    let (lexeme, next) = scan_spec(v);
    if !v.valid() || lexeme.token == Token::Eof {
        Seq::empty()
    } else {
        proof {
            lemma_scan_valid(v);
        }
        seq![lexeme] + lexemes_ahead(next)
    }
}

/// The views of a sequence of lexemes.
pub open spec fn lexeme_views<'a>(lexemes: Seq<Lexeme<'a>>) -> Seq<LexemeView> {
    lexemes.map_values(|l: Lexeme<'a>| l@)
}

/// Letters, digits and underscores make one word: a source made only of ASCII letters, ASCII
/// digits and `_`, that starts with a letter or `_`, scans to a single identifier or keyword
/// lexeme whose text is the whole source, and then to the end of file.
pub proof fn law_word_is_one_lexeme(src: Seq<char>)
    requires
        0 < src.len() < usize::MAX,
        ('a' <= src[0] <= 'z') || ('A' <= src[0] <= 'Z') || src[0] == '_',
        forall|i: int|
            0 <= i < src.len() ==> ('a' <= #[trigger] src[i] <= 'z') || ('A' <= src[i] <= 'Z') || (
            '0' <= src[i] <= '9') || src[i] == '_',
    ensures
        scan_spec(scanner_start(src)).0.text == src,
        scan_spec(scanner_start(src)).0.token == keyword_token(src),
        scan_spec(scan_spec(scanner_start(src)).1).0.token == Token::Eof,
{
    lemma_word_end(src, 1);
    let v = scanner_start(src);
    assert(skip_ws(src, 0, 1) == (0int, 1int));
    assert(src.subrange(0, src.len() as int) =~= src);
    let next = scan_spec(v).1;
    lemma_scan_valid(v);
    lemma_skip_ws_bounds(src, next.current, next.line);
}

/// Past `i`, a source of letters, digits and underscores is one word to its end.
proof fn lemma_word_end(src: Seq<char>, i: int)
    requires
        0 <= i <= src.len(),
        forall|k: int|
            0 <= k < src.len() ==> ('a' <= #[trigger] src[k] <= 'z') || ('A' <= src[k] <= 'Z') || (
            '0' <= src[k] <= '9') || src[k] == '_',
    ensures
        id_end(src, i) == src.len(),
    decreases src.len() - i,
{
    if i < src.len() {
        lemma_word_end(src, i + 1);
    }
}

/////////////////////////////////////////// The scanner ///////////////////////////////////////////

impl<'a> View for Lexeme<'a> {
    type V = LexemeView;

    closed spec fn view(&self) -> LexemeView {
        LexemeView { token: self.token, text: self.text@, line: self.line as int }
    }
}

impl<'a> View for Scanner<'a> {
    type V = ScannerView;

    closed spec fn view(&self) -> ScannerView {
        ScannerView {
            src: self.source@,
            start: self.start as int,
            current: self.current as int,
            line: self.line as int,
        }
    }
}

impl<'a> Scanner<'a> {
    /// The scanner's characters are those of its source, and its state is valid.
    pub closed spec fn wf(&self) -> bool {
        &&& self.chars@ == self.source@
        &&& self@.valid()
    }

    /// Start scanning the given string of source code.
    pub fn new(source: &'a str) -> (scanner: Self)
        requires
            source@.len() < usize::MAX,
        ensures
            scanner.wf(),
            scanner@ == scanner_start(source@),
    {
        let mut chars: Vec<char> = Vec::new();
        let ghost all = source@;
        proof {
            broadcast use vstd::string::group_string_axioms;
        }
        for c in it: source.chars()
            invariant
                it.seq() == all,
                chars@ == all.take(it.index() as int),
        {
            chars.push(c);
            assert(chars@ =~= all.take(it.index() + 1));
        }
        assert(chars@ =~= all);
        Scanner { source, chars, start: 0, current: 0, line: 1 }
    }

    /// Scan the rest of the source: every lexeme up to (not including) the end of file.
    pub fn lexemes(&mut self) -> (lexemes: Vec<Lexeme<'a>>)
        requires
            old(self).wf(),
        ensures
            final(self).wf(),
            lexeme_views(lexemes@) == lexemes_ahead(old(self)@),
            final(self)@.current == final(self)@.src.len(),
    {
        let mut lexemes: Vec<Lexeme<'a>> = Vec::new();
        loop
            invariant
                self.wf(),
                self@.src == old(self)@.src,
                lexeme_views(lexemes@) + lexemes_ahead(self@) == lexemes_ahead(old(self)@),
            decreases self@.src.len() - self@.current,
        {
            proof {
                lemma_scan_valid(self@);
            }
            let ghost before = self@;
            let ghost seen = lexeme_views(lexemes@);
            let lexeme = self.scan_token();
            if lexeme.token() == Token::Eof {
                proof {
                    assert(lexemes_ahead(before) =~= Seq::<LexemeView>::empty());
                    assert(seen + Seq::<LexemeView>::empty() =~= seen);
                }
                return lexemes;
            }
            lexemes.push(lexeme);
            proof {
                assert(lexemes_ahead(before) == seq![lexeme@] + lexemes_ahead(self@));
                assert(lexeme_views(lexemes@) =~= seen.push(lexeme@));
                assert(seen.push(lexeme@) + lexemes_ahead(self@) =~= seen + (seq![lexeme@]
                    + lexemes_ahead(self@)));
            }
        }
    }

    /// Yield the next [Lexeme] from the string. Once the scanner has reached the end-of-file, this
    /// function will always return an end-of-file lexeme.
    pub fn scan_token(&mut self) -> (lexeme: Lexeme<'a>)
        requires
            old(self).wf(),
        ensures
            final(self).wf(),
            lexeme@ == scan_spec(old(self)@).0,
            final(self)@ == scan_spec(old(self)@).1,
    {
        proof {
            lemma_scan_valid(self@);
        }
        self.skip_whitespace();
        self.start = self.current;

        if self.is_at_end() {
            let lexeme = self.make_lexeme(Token::Eof);
            assert(lexeme@ =~= scan_spec(old(self)@).0);
            assert(self@ =~= scan_spec(old(self)@).1);
            return lexeme;
        }
        let c = self.advance();
        let lexeme = match c {
            c if is_id_start(c) => self.identifier(),
            c if is_digit(c) => self.number(),
            '(' => self.make_lexeme(Token::LeftParen),
            ')' => self.make_lexeme(Token::RightParen),
            '{' => self.make_lexeme(Token::LeftBrace),
            '}' => self.make_lexeme(Token::RightBrace),
            ';' => self.make_lexeme(Token::Semicolon),
            ',' => self.make_lexeme(Token::Comma),
            '.' => self.make_lexeme(Token::Dot),
            '-' => self.make_lexeme(Token::Minus),
            '+' => self.make_lexeme(Token::Plus),
            '/' => self.make_lexeme(Token::Slash),
            '*' => self.make_lexeme(Token::Star),
            '?' => self.make_lexeme(Token::Question),
            ':' => self.make_lexeme(Token::Colon),
            '!' => {
                let followed_by_equal = self.match_and_advance('=');
                self.make_lexeme(
                    if followed_by_equal {
                        Token::BangEqual
                    } else {
                        Token::Bang
                    },
                )
            },
            '=' => {
                let followed_by_equal = self.match_and_advance('=');
                self.make_lexeme(
                    if followed_by_equal {
                        Token::EqualEqual
                    } else {
                        Token::Equal
                    },
                )
            },
            '<' => {
                let followed_by_equal = self.match_and_advance('=');
                self.make_lexeme(
                    if followed_by_equal {
                        Token::LessEqual
                    } else {
                        Token::Less
                    },
                )
            },
            '>' => {
                let followed_by_equal = self.match_and_advance('=');
                self.make_lexeme(
                    if followed_by_equal {
                        Token::GreaterEqual
                    } else {
                        Token::Greater
                    },
                )
            },
            '"' => self.string(),
            _ => {
                proof {
                    reveal_strlit("Unexpected character");
                }
                self.error_token("Unexpected character")
            },
        };
        assert(lexeme@ =~= scan_spec(old(self)@).0);
        assert(self@ =~= scan_spec(old(self)@).1);
        lexeme
    }

    /// Returns `true` if we've reached the end of the source code.
    pub fn is_at_end(&self) -> (at_end: bool)
        requires
            self.wf(),
        ensures
            at_end == (self@.current == self@.src.len()),
    {
        self.current == self.chars.len()
    }

    /// Returns an error lexeme carrying the given message, on no line.
    pub fn make_sentinel(&self, message: &'static str) -> (lexeme: Lexeme<'a>)
        ensures
            lexeme@ == (LexemeView { token: Token::Error, text: message@, line: 0 }),
    {
        Lexeme { token: Token::Error, text: message, line: 0 }
    }

    /// Consumes and returns the next character.
    fn advance(&mut self) -> (c: char)
        requires
            old(self).wf(),
            old(self)@.current < old(self)@.src.len(),
        ensures
            final(self).wf(),
            c == old(self)@.src[old(self)@.current],
            final(self)@ == (ScannerView { current: old(self)@.current + 1, ..old(self)@ }),
    {
        let c = self.chars[self.current];
        self.current = self.current + 1;
        c
    }

    /// Peek at the next character (`'\0'` at the end).
    fn peek(&self) -> (c: char)
        requires
            self.wf(),
        ensures
            c == char_at(self@.src, self@.current),
    {
        if self.current < self.chars.len() {
            self.chars[self.current]
        } else {
            '\0'
        }
    }

    /// Peek at the character after the next one (`'\0'` past the end).
    fn peek_next(&self) -> (c: char)
        requires
            self.wf(),
        ensures
            c == char_at(self@.src, self@.current + 1),
    {
        if self.current + 1 < self.chars.len() {
            self.chars[self.current + 1]
        } else {
            '\0'
        }
    }

    /// Matches the expected character. If the next character matches, returns true and advances;
    /// otherwise returns false and changes nothing.
    fn match_and_advance(&mut self, expected: char) -> (matched: bool)
        requires
            old(self).wf(),
        ensures
            final(self).wf(),
            matched == (char_at(old(self)@.src, old(self)@.current) == expected
                && old(self)@.current < old(self)@.src.len()),
            final(self)@ == (ScannerView {
                current: old(self)@.current + if matched {
                    1int
                } else {
                    0int
                },
                ..old(self)@
            }),
    {
        if self.is_at_end() {
            return false;
        }
        let next_char = self.peek();
        if next_char != expected {
            return false;
        }
        self.current = self.current + 1;
        true
    }

    /// Skips whitespace and comments.
    fn skip_whitespace(&mut self)
        requires
            old(self).wf(),
        ensures
            final(self).wf(),
            (final(self)@.current, final(self)@.line) == skip_ws(
                old(self)@.src,
                old(self)@.current,
                old(self)@.line,
            ),
            final(self)@.src == old(self)@.src,
            final(self)@.start == old(self)@.start,
    {
        let ghost target = skip_ws(self@.src, self@.current, self@.line);
        loop
            invariant
                self.wf(),
                self@.src == old(self)@.src,
                self@.start == old(self)@.start,
                skip_ws(self@.src, self@.current, self@.line) == target,
                target == skip_ws(old(self)@.src, old(self)@.current, old(self)@.line),
            decreases self@.src.len() - self@.current,
        {
            let c = self.peek();
            if c == ' ' || c == '\r' || c == '\t' {
                self.advance();
            } else if c == '\n' {
                // Count the newline
                self.advance();
                self.line = self.line + 1;
            } else if c == '/' {
                if self.peek_next() == '/' {
                    let ghost slash = self@.current;
                    proof {
                        lemma_find_char_bounds(self@.src, slash + 1, '\n');
                    }
                    while self.peek() != '\n' && !self.is_at_end()
                        invariant
                            self.wf(),
                            self@.src == old(self)@.src,
                            self@.start == old(self)@.start,
                            slash <= self@.current,
                            self@.current <= find_char(self@.src, slash + 1, '\n'),
                            self@.current > slash ==> find_char(self@.src, self@.current, '\n')
                                == find_char(self@.src, slash + 1, '\n'),
                            skip_ws(self@.src, find_char(self@.src, slash + 1, '\n'), self@.line)
                                == target,
                            target == skip_ws(old(self)@.src, old(self)@.current, old(self)@.line),
                        decreases self@.src.len() - self@.current,
                    {
                        proof {
                            lemma_find_char_bounds(self@.src, self@.current + 1, '\n');
                        }
                        self.advance();
                    }
                } else {
                    assert(skip_ws(self@.src, self@.current, self@.line) == (self@.current, self@.line));
                    return;
                }
            } else {
                assert(skip_ws(self@.src, self@.current, self@.line) == (self@.current, self@.line));
                return;
            }
        }
    }

    /// Scan an identifier or keyword. Expects its first character to have been consumed.
    fn identifier(&mut self) -> (lexeme: Lexeme<'a>)
        requires
            old(self).wf(),
            old(self)@.current == old(self)@.start + 1,
        ensures
            final(self).wf(),
            final(self)@ == (ScannerView {
                current: id_end(old(self)@.src, old(self)@.current),
                ..old(self)@
            }),
            lexeme@ == (LexemeView {
                token: keyword_token(old(self)@.src.subrange(old(self)@.start, final(self)@.current)),
                text: old(self)@.src.subrange(old(self)@.start, final(self)@.current),
                line: old(self)@.line,
            }),
    {
        proof {
            lemma_id_end_bounds(self@.src, self@.current);
        }
        while is_id_continue(self.peek())
            invariant
                self.wf(),
                self@.src == old(self)@.src,
                self@.start == old(self)@.start,
                self@.line == old(self)@.line,
                old(self)@.current <= self@.current <= id_end(self@.src, old(self)@.current),
                id_end(self@.src, self@.current) == id_end(self@.src, old(self)@.current),
            decreases self@.src.len() - self@.current,
        {
            proof {
                lemma_id_end_bounds(self@.src, self@.current + 1);
            }
            self.advance();
        }
        let token = self.identifier_type();
        self.make_lexeme(token)
    }

    /// Scan a string literal. Expects the starting quote to have been consumed.
    fn string(&mut self) -> (lexeme: Lexeme<'a>)
        requires
            old(self).wf(),
            old(self)@.current == old(self)@.start + 1,
            old(self)@.src[old(self)@.start] == '"',
        ensures
            final(self).wf(),
            lexeme@ == lexeme_at(old(self)@.src, old(self)@.start, old(self)@.line).0,
            final(self)@ == (ScannerView {
                current: lexeme_at(old(self)@.src, old(self)@.start, old(self)@.line).1,
                line: lexeme_at(old(self)@.src, old(self)@.start, old(self)@.line).2,
                ..old(self)@
            }),
    {
        let ghost src = self@.src;
        let ghost s = self@.start;
        proof {
            lemma_find_char_bounds(src, s + 1, '"');
        }
        while self.peek() != '"' && !self.is_at_end()
            invariant
                self.wf(),
                self@.src == src,
                self@.start == s,
                s + 1 <= self@.current <= find_char(src, s + 1, '"'),
                find_char(src, self@.current, '"') == find_char(src, s + 1, '"'),
                self@.line == old(self)@.line + count_newlines(src, s + 1, self@.current),
            decreases src.len() - self@.current,
        {
            proof {
                lemma_find_char_bounds(src, self@.current + 1, '"');
                lemma_count_newlines_bounds(src, s + 1, self@.current + 1);
            }
            let is_newline = self.peek() == '\n';
            self.advance();
            if is_newline {
                self.line = self.line + 1;
            }
        }
        if self.is_at_end() {
            proof {
                reveal_strlit("Unterminated string");
            }
            return self.error_token("Unterminated string");
        }
        let quote = self.advance();
        assert(quote == '"');
        self.make_lexeme(Token::StrLiteral)
    }

    /// Scan a number literal. Expects the first digit to have already been consumed.
    fn number(&mut self) -> (lexeme: Lexeme<'a>)
        requires
            old(self).wf(),
            old(self)@.current == old(self)@.start + 1,
        ensures
            final(self).wf(),
            final(self)@ == (ScannerView {
                current: number_end(old(self)@.src, old(self)@.current),
                ..old(self)@
            }),
            lexeme@ == (LexemeView {
                token: Token::Number,
                text: old(self)@.src.subrange(old(self)@.start, final(self)@.current),
                line: old(self)@.line,
            }),
    {
        let ghost src = self@.src;
        proof {
            lemma_digits_end_bounds(src, self@.current);
        }
        while is_digit(self.peek())
            invariant
                self.wf(),
                self@.src == src,
                self@.start == old(self)@.start,
                self@.line == old(self)@.line,
                old(self)@.current <= self@.current <= digits_end(src, old(self)@.current),
                digits_end(src, self@.current) == digits_end(src, old(self)@.current),
            decreases src.len() - self@.current,
        {
            proof {
                lemma_digits_end_bounds(src, self@.current + 1);
            }
            self.advance();
        }
        if self.peek() == '.' && is_digit(self.peek_next()) {
            // Consume the decimal point
            self.advance();
            let ghost after_point = self@.current;
            proof {
                lemma_digits_end_bounds(src, after_point);
            }
            // Consume the digits after the decimal point
            while is_digit(self.peek())
                invariant
                    self.wf(),
                    self@.src == src,
                    self@.start == old(self)@.start,
                    self@.line == old(self)@.line,
                    after_point <= self@.current <= digits_end(src, after_point),
                    digits_end(src, self@.current) == digits_end(src, after_point),
                decreases src.len() - self@.current,
            {
                proof {
                    lemma_digits_end_bounds(src, self@.current + 1);
                }
                self.advance();
            }
        }
        self.make_lexeme(Token::Number)
    }

    /// The character at `i`, or `'\0'` past the end.
    fn char_at_or_nul(&self, i: usize) -> (c: char)
        requires
            self.wf(),
        ensures
            c == char_at(self@.src, i as int),
    {
        if i < self.chars.len() {
            self.chars[i]
        } else {
            '\0'
        }
    }

    /// Check if the identifier is a keyword, or a normal identifier.
    fn identifier_type(&self) -> (token: Token)
        requires
            self.wf(),
            self@.start < self@.current,
        ensures
            token == keyword_token(self@.src.subrange(self@.start, self@.current)),
    {
        let ghost text = self@.src.subrange(self@.start, self@.current);
        let first = self.chars[self.start];
        let ghost second = char_at(self@.src, self@.start + 1);
        proof {
            lemma_keyword_token_by_prefix(text, first, second);
        }
        match first {
            'a' => self.check_keyword(&['a', 'n', 'd'], Token::And),
            'c' => self.check_keyword(&['c', 'l', 'a', 's', 's'], Token::Class),
            'e' => self.check_keyword(&['e', 'l', 's', 'e'], Token::Else),
            'f' => match self.char_at_or_nul(self.start + 1) {
                'a' => self.check_keyword(&['f', 'a', 'l', 's', 'e'], Token::False),
                'o' => self.check_keyword(&['f', 'o', 'r'], Token::For),
                'u' => self.check_keyword(&['f', 'u', 'n'], Token::Fun),
                _ => {
                    assert(text.len() < 2 || text[1] == self@.src[self@.start + 1]);
                    Token::Identifier
                },
            },
            'i' => self.check_keyword(&['i', 'f'], Token::If),
            'n' => self.check_keyword(&['n', 'i', 'l'], Token::Nil),
            'o' => self.check_keyword(&['o', 'r'], Token::Or),
            'p' => self.check_keyword(&['p', 'r', 'i', 'n', 't'], Token::Print),
            'r' => self.check_keyword(&['r', 'e', 't', 'u', 'r', 'n'], Token::Return),
            's' => self.check_keyword(&['s', 'u', 'p', 'e', 'r'], Token::Super),
            't' => match self.char_at_or_nul(self.start + 1) {
                'h' => self.check_keyword(&['t', 'h', 'i', 's'], Token::This),
                'r' => self.check_keyword(&['t', 'r', 'u', 'e'], Token::True),
                _ => {
                    assert(text.len() < 2 || text[1] == self@.src[self@.start + 1]);
                    Token::Identifier
                },
            },
            'v' => self.check_keyword(&['v', 'a', 'r'], Token::Var),
            'w' => self.check_keyword(&['w', 'h', 'i', 'l', 'e'], Token::While),
            _ => Token::Identifier,
        }
    }

    /// The given keyword if the current lexeme spells it, otherwise [Token::Identifier].
    fn check_keyword(&self, keyword_text: &[char], keyword: Token) -> (token: Token)
        requires
            self.wf(),
            self@.start <= self@.current,
        ensures
            token == if self@.src.subrange(self@.start, self@.current) == keyword_text@ {
                keyword
            } else {
                Token::Identifier
            },
    {
        let ghost text = self@.src.subrange(self@.start, self@.current);
        let token_length = self.current - self.start;
        if token_length != keyword_text.len() {
            assert(text.len() != keyword_text@.len());
            return Token::Identifier;
        }
        let mut i: usize = 0;
        while i < token_length
            invariant
                self.wf(),
                text == self@.src.subrange(self@.start, self@.current),
                token_length == self@.current - self@.start,
                token_length == keyword_text@.len(),
                i <= token_length,
                forall|k: int| 0 <= k < i ==> text[k] == keyword_text@[k],
            decreases token_length - i,
        {
            if self.chars[self.start + i] != keyword_text[i] {
                assert(text[i as int] != keyword_text@[i as int]);
                return Token::Identifier;
            }
            i = i + 1;
        }
        assert(text =~= keyword_text@);
        keyword
    }

    /// Returns a lexeme with [Token::Error] as its token and the message as its text.
    fn error_token(&self, message: &'a str) -> (lexeme: Lexeme<'a>)
        ensures
            lexeme@ == (LexemeView { token: Token::Error, text: message@, line: self@.line }),
    {
        Lexeme { token: Token::Error, text: message, line: self.line }
    }

    /// Returns a [Lexeme] for the span between the start and the current position.
    fn make_lexeme(&self, token: Token) -> (lexeme: Lexeme<'a>)
        requires
            self.wf(),
        ensures
            lexeme@ == (LexemeView {
                token,
                text: self@.src.subrange(self@.start, self@.current),
                line: self@.line,
            }),
    {
        let text = self.source.substring_char(self.start, self.current);
        Lexeme { token, text, line: self.line }
    }
}

impl<'a> Lexeme<'a> {
    /// Return the line number this lexeme was found on.
    pub fn line(&self) -> (line: usize)
        ensures
            line == self@.line,
    {
        self.line
    }

    /// Return the literal text of this lexeme. For string literals, this always includes the
    /// quotes.
    pub fn text(&self) -> (text: &'a str)
        ensures
            text@ == self@.text,
    {
        self.text
    }

    /// Return the [Token] of this lexeme.
    pub fn token(&self) -> (token: Token)
        ensures
            token == self@.token,
    {
        self.token
    }
}

///////////////////////////////////////////// Helpers /////////////////////////////////////////////

/// Returns true if this char can start an identifier or keyword.
fn is_id_start(c: char) -> (b: bool)
    ensures
        b == is_id_start_spec(c),
{
    ('a' <= c && c <= 'z') || ('A' <= c && c <= 'Z') || c == '_'
}

/// Returns true if this char can be used after the first character of an identifier or keyword.
fn is_id_continue(c: char) -> (b: bool)
    ensures
        b == is_id_continue_spec(c),
{
    is_id_start(c) || is_digit(c)
}

/// Returns true if this char is an ASCII decimal digit.
fn is_digit(c: char) -> (b: bool)
    ensures
        b == is_digit_spec(c),
{
    '0' <= c && c <= '9'
}

} // verus!
