//! Tokens: the lexical categories, the literal text each token carries, and
//! the table of reserved words.

use vstd::prelude::*;

verus! {

/// The closed set of lexical categories.
#[allow(non_camel_case_types)]
#[derive(PartialEq, Eq, Structural, Debug, Clone, Copy)]
pub enum TokenType {
    ILLEGAL,
    EOF,
    IDENT,
    INT,
    ASSIGN,
    PLUS,
    MINUS,
    BANG,
    ASTERISK,
    SLASH,
    LT,
    GT,
    COMMA,
    SEMICOLON,
    LPAREN,
    RPAREN,
    LBRACE,
    RBRACE,
    FUNCTION,
    LET,
    TRUE,
    FALSE,
    IF,
    ELSE,
    RETURN,
    EQ,
    NOTEQ,
}

impl Default for TokenType {
    fn default() -> (kind: TokenType)
        ensures
            kind == TokenType::ILLEGAL,
    {
        TokenType::ILLEGAL
    }
}

/// The name under which a category appears in diagnostics and listings.
pub open spec fn kind_name(kind: TokenType) -> Seq<char> {
    match kind {
        TokenType::ILLEGAL => "ILLEGAL"@,
        TokenType::EOF => "EOF"@,
        TokenType::IDENT => "IDENT"@,
        TokenType::INT => "INT"@,
        TokenType::ASSIGN => "ASSIGN"@,
        TokenType::PLUS => "PLUS"@,
        TokenType::MINUS => "MINUS"@,
        TokenType::BANG => "BANG"@,
        TokenType::ASTERISK => "ASTERISK"@,
        TokenType::SLASH => "SLASH"@,
        TokenType::LT => "LT"@,
        TokenType::GT => "GT"@,
        TokenType::COMMA => "COMMA"@,
        TokenType::SEMICOLON => "SEMICOLON"@,
        TokenType::LPAREN => "LPAREN"@,
        TokenType::RPAREN => "RPAREN"@,
        TokenType::LBRACE => "LBRACE"@,
        TokenType::RBRACE => "RBRACE"@,
        TokenType::FUNCTION => "FUNCTION"@,
        TokenType::LET => "LET"@,
        TokenType::TRUE => "TRUE"@,
        TokenType::FALSE => "FALSE"@,
        TokenType::IF => "IF"@,
        TokenType::ELSE => "ELSE"@,
        TokenType::RETURN => "RETURN"@,
        TokenType::EQ => "EQ"@,
        TokenType::NOTEQ => "NOTEQ"@,
    }
}

impl TokenType {
    /// The category's name as text.
    pub fn name(&self) -> (text: &'static str)
        ensures
            text@ == kind_name(*self),
    {
        match self {
            TokenType::ILLEGAL => "ILLEGAL",
            TokenType::EOF => "EOF",
            TokenType::IDENT => "IDENT",
            TokenType::INT => "INT",
            TokenType::ASSIGN => "ASSIGN",
            TokenType::PLUS => "PLUS",
            TokenType::MINUS => "MINUS",
            TokenType::BANG => "BANG",
            TokenType::ASTERISK => "ASTERISK",
            TokenType::SLASH => "SLASH",
            TokenType::LT => "LT",
            TokenType::GT => "GT",
            TokenType::COMMA => "COMMA",
            TokenType::SEMICOLON => "SEMICOLON",
            TokenType::LPAREN => "LPAREN",
            TokenType::RPAREN => "RPAREN",
            TokenType::LBRACE => "LBRACE",
            TokenType::RBRACE => "RBRACE",
            TokenType::FUNCTION => "FUNCTION",
            TokenType::LET => "LET",
            TokenType::TRUE => "TRUE",
            TokenType::FALSE => "FALSE",
            TokenType::IF => "IF",
            TokenType::ELSE => "ELSE",
            TokenType::RETURN => "RETURN",
            TokenType::EQ => "EQ",
            TokenType::NOTEQ => "NOTEQ",
        }
    }
}

/// The category of a word: its reserved-word category on an exact,
/// case-sensitive match with one of the seven reserved words, and the
/// identifier category for every other text.
pub open spec fn keyword_kind(word: Seq<char>) -> TokenType {
    if word == "fn"@ {
        TokenType::FUNCTION
    } else if word == "let"@ {
        TokenType::LET
    } else if word == "true"@ {
        TokenType::TRUE
    } else if word == "false"@ {
        TokenType::FALSE
    } else if word == "if"@ {
        TokenType::IF
    } else if word == "else"@ {
        TokenType::ELSE
    } else if word == "return"@ {
        TokenType::RETURN
    } else {
        TokenType::IDENT
    }
}

/// Whether two texts consist of the same characters.
fn same_text(left: &str, right: &str) -> (same: bool)
    ensures
        same == (left@ == right@),
{
    let n: usize = left.unicode_len();
    if n != right.unicode_len() {
        return false;
    }
    let mut i: usize = 0;
    while i < n
        invariant
            n == left@.len(),
            n == right@.len(),
            i <= n,
            left@.take(i as int) == right@.take(i as int),
        decreases n - i,
    {
        if left.get_char(i) != right.get_char(i) {
            return false;
        }
        assert(left@.take(i + 1) == left@.take(i as int).push(left@[i as int]));
        assert(right@.take(i + 1) == right@.take(i as int).push(right@[i as int]));
        i += 1;
    }
    assert(left@.take(n as int) == left@);
    assert(right@.take(n as int) == right@);
    true
}

/// Classifies a word as a reserved word or an identifier.
pub fn lookup_ident(ident: &str) -> (kind: TokenType)
    ensures
        kind == keyword_kind(ident@),
{
    if same_text(ident, "fn") {
        TokenType::FUNCTION
    } else if same_text(ident, "let") {
        TokenType::LET
    } else if same_text(ident, "true") {
        TokenType::TRUE
    } else if same_text(ident, "false") {
        TokenType::FALSE
    } else if same_text(ident, "if") {
        TokenType::IF
    } else if same_text(ident, "else") {
        TokenType::ELSE
    } else if same_text(ident, "return") {
        TokenType::RETURN
    } else {
        TokenType::IDENT
    }
}

/// What a token is in contracts: its category and the characters of its
/// literal.
pub struct TokenView {
    pub kind: TokenType,
    pub literal: Seq<char>,
}

/// A category together with the exact source text that produced it.
#[derive(Debug)]
pub struct Token {
    pub token_type: TokenType,
    pub literal: String,
}

impl View for Token {
    type V = TokenView;

    open spec fn view(&self) -> TokenView {
        TokenView { kind: self.token_type, literal: self.literal@ }
    }
}

impl Clone for Token {
    fn clone(&self) -> (copy: Token)
        ensures
            copy@ == self@,
    {
        Token { token_type: self.token_type, literal: self.literal.clone() }
    }
}

/// The token of the default category with no text.
pub open spec fn blank_token() -> TokenView {
    TokenView { kind: TokenType::ILLEGAL, literal: Seq::empty() }
}

/// The token that marks the end of input: it has no text.
pub open spec fn end_token() -> TokenView {
    TokenView { kind: TokenType::EOF, literal: Seq::empty() }
}

/// The line that lists a token: its category's name and its literal.
pub open spec fn token_line(tok: TokenView) -> Seq<char> {
    "token_type:"@ + kind_name(tok.kind) + " literal:"@ + tok.literal
}

impl Token {
    /// The line that lists this token.
    pub fn line(&self) -> (text: String)
        ensures
            text@ == token_line(self@),
    {
        String::from_str("token_type:").concat(self.token_type.name()).concat(" literal:").concat(
            self.literal.as_str(),
        )
    }

    /// A token of the default category with no text.
    pub fn new() -> (tok: Token)
        ensures
            tok@ == blank_token(),
    {
        Token { token_type: TokenType::default(), literal: String::default() }
    }
}

} // verus!
