use monkey::token::{lookup_ident, Token, TokenType};

#[test]
fn reserved_words_are_looked_up() {
    assert_eq!(lookup_ident("fn"), TokenType::FUNCTION);
    assert_eq!(lookup_ident("let"), TokenType::LET);
    assert_eq!(lookup_ident("true"), TokenType::TRUE);
    assert_eq!(lookup_ident("false"), TokenType::FALSE);
    assert_eq!(lookup_ident("if"), TokenType::IF);
    assert_eq!(lookup_ident("else"), TokenType::ELSE);
    assert_eq!(lookup_ident("return"), TokenType::RETURN);
}

#[test]
fn other_words_are_identifiers() {
    assert_eq!(lookup_ident("Let"), TokenType::IDENT);
    assert_eq!(lookup_ident("LET"), TokenType::IDENT);
    assert_eq!(lookup_ident("letx"), TokenType::IDENT);
    assert_eq!(lookup_ident("le"), TokenType::IDENT);
    assert_eq!(lookup_ident(""), TokenType::IDENT);
    assert_eq!(lookup_ident("foobar"), TokenType::IDENT);
    assert_eq!(lookup_ident("function"), TokenType::IDENT);
}

#[test]
fn new_token_is_blank() {
    let tok = Token::new();
    assert_eq!(tok.token_type, TokenType::ILLEGAL);
    assert_eq!(tok.literal, "");
    assert_eq!(TokenType::default(), TokenType::ILLEGAL);
}

#[test]
fn cloned_token_is_equal() {
    let tok = Token { token_type: TokenType::IDENT, literal: "abc".to_string() };
    let copy = tok.clone();
    assert_eq!(copy.token_type, TokenType::IDENT);
    assert_eq!(copy.literal, "abc");
}

#[test]
fn names_match_debug_output() {
    let kinds = [
        TokenType::ILLEGAL,
        TokenType::EOF,
        TokenType::IDENT,
        TokenType::INT,
        TokenType::ASSIGN,
        TokenType::PLUS,
        TokenType::MINUS,
        TokenType::BANG,
        TokenType::ASTERISK,
        TokenType::SLASH,
        TokenType::LT,
        TokenType::GT,
        TokenType::COMMA,
        TokenType::SEMICOLON,
        TokenType::LPAREN,
        TokenType::RPAREN,
        TokenType::LBRACE,
        TokenType::RBRACE,
        TokenType::FUNCTION,
        TokenType::LET,
        TokenType::TRUE,
        TokenType::FALSE,
        TokenType::IF,
        TokenType::ELSE,
        TokenType::RETURN,
        TokenType::EQ,
        TokenType::NOTEQ,
    ];
    for kind in kinds {
        assert_eq!(kind.name(), format!("{:?}", kind));
    }
}

#[test]
fn token_line_has_kind_and_literal() {
    let tok = Token { token_type: TokenType::IDENT, literal: "five".to_string() };
    assert_eq!(tok.line(), "token_type:IDENT literal:five");
    let tok = Token { token_type: TokenType::NOTEQ, literal: "!=".to_string() };
    assert_eq!(tok.line(), "token_type:NOTEQ literal:!=");
}
