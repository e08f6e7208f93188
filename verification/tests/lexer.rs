use monkey::lexer::{tokenize, Lexer};
use monkey::token::TokenType::{
    ASSIGN, ASTERISK, BANG, COMMA, ELSE, EOF, EQ, FALSE, FUNCTION, GT, IDENT, IF, ILLEGAL, INT,
    LBRACE, LET, LPAREN, LT, MINUS, NOTEQ, PLUS, RBRACE, RETURN, RPAREN, SEMICOLON, SLASH, TRUE,
};
use monkey::token::{Token, TokenType};

fn pairs(toks: &[Token]) -> Vec<(TokenType, String)> {
    toks.iter().map(|tok| (tok.token_type, tok.literal.clone())).collect()
}

fn expected(pairs: &[(TokenType, &str)]) -> Vec<(TokenType, String)> {
    pairs.iter().map(|pair| (pair.0, pair.1.to_string())).collect()
}

#[test]
fn test_next_token() {
    let input = "let five = 5;
        let ten = 10;

        let add = fn(x, y) {
          x + y;
        };

        let result = add(five, ten);
        !-/*5;
        5 < 10 > 5;

        if (5 < 10) {
          return true;
        } else {
          return false;
        }

        10 == 10;
        10 != 9;
        ";

    let tests = [
        (LET, "let"),
        (IDENT, "five"),
        (ASSIGN, "="),
        (INT, "5"),
        (SEMICOLON, ";"),
        (LET, "let"),
        (IDENT, "ten"),
        (ASSIGN, "="),
        (INT, "10"),
        (SEMICOLON, ";"),
        (LET, "let"),
        (IDENT, "add"),
        (ASSIGN, "="),
        (FUNCTION, "fn"),
        (LPAREN, "("),
        (IDENT, "x"),
        (COMMA, ","),
        (IDENT, "y"),
        (RPAREN, ")"),
        (LBRACE, "{"),
        (IDENT, "x"),
        (PLUS, "+"),
        (IDENT, "y"),
        (SEMICOLON, ";"),
        (RBRACE, "}"),
        (SEMICOLON, ";"),
        (LET, "let"),
        (IDENT, "result"),
        (ASSIGN, "="),
        (IDENT, "add"),
        (LPAREN, "("),
        (IDENT, "five"),
        (COMMA, ","),
        (IDENT, "ten"),
        (RPAREN, ")"),
        (SEMICOLON, ";"),
        (BANG, "!"),
        (MINUS, "-"),
        (SLASH, "/"),
        (ASTERISK, "*"),
        (INT, "5"),
        (SEMICOLON, ";"),
        (INT, "5"),
        (LT, "<"),
        (INT, "10"),
        (GT, ">"),
        (INT, "5"),
        (SEMICOLON, ";"),
        (IF, "if"),
        (LPAREN, "("),
        (INT, "5"),
        (LT, "<"),
        (INT, "10"),
        (RPAREN, ")"),
        (LBRACE, "{"),
        (RETURN, "return"),
        (TRUE, "true"),
        (SEMICOLON, ";"),
        (RBRACE, "}"),
        (ELSE, "else"),
        (LBRACE, "{"),
        (RETURN, "return"),
        (FALSE, "false"),
        (SEMICOLON, ";"),
        (RBRACE, "}"),
        (INT, "10"),
        (EQ, "=="),
        (INT, "10"),
        (SEMICOLON, ";"),
        (INT, "10"),
        (NOTEQ, "!="),
        (INT, "9"),
        (SEMICOLON, ";"),
        (EOF, ""),
    ];

    let mut l = Lexer::new(input);

    for (i, tt) in tests.into_iter().enumerate() {
        let tok = l.next_token();

        if tok.token_type != tt.0 {
            panic!(
                "tests[{}] - tokentype wrong. expected={:?}, got={:?}",
                i, tt.0, tok.token_type
            );
        }

        if tok.literal != tt.1 {
            panic!(
                "tests[{}] - Literal wrong. expected={}, got={}",
                i, tt.1, tok.literal
            )
        }
    }
}

#[test]
fn double_equals_is_one_token() {
    let mut l = Lexer::new("==");
    let tok = l.next_token();
    assert_eq!(tok.token_type, EQ);
    assert_eq!(tok.literal, "==");
    assert_eq!(l.next_token().token_type, EOF);
    assert_eq!(pairs(&tokenize("==")), expected(&[(EQ, "==")]));
}

#[test]
fn equals_before_space_is_assign() {
    let mut l = Lexer::new("= ");
    let tok = l.next_token();
    assert_eq!(tok.token_type, ASSIGN);
    assert_eq!(tok.literal, "=");
    assert_eq!(l.next_token().token_type, EOF);
}

#[test]
fn bang_with_and_without_equals() {
    assert_eq!(pairs(&tokenize("!=")), expected(&[(NOTEQ, "!=")]));
    assert_eq!(pairs(&tokenize("!")), expected(&[(BANG, "!")]));
    assert_eq!(pairs(&tokenize("! =")), expected(&[(BANG, "!"), (ASSIGN, "=")]));
    assert_eq!(pairs(&tokenize("===")), expected(&[(EQ, "=="), (ASSIGN, "=")]));
    assert_eq!(pairs(&tokenize("!==")), expected(&[(NOTEQ, "!="), (ASSIGN, "=")]));
}

#[test]
fn keyword_alone_is_keyword() {
    let mut l = Lexer::new("let");
    let tok = l.next_token();
    assert_eq!(tok.token_type, LET);
    assert_eq!(tok.literal, "let");
    assert_eq!(l.next_token().token_type, EOF);
}

#[test]
fn keyword_prefix_is_identifier() {
    let mut l = Lexer::new("letx");
    let tok = l.next_token();
    assert_eq!(tok.token_type, IDENT);
    assert_eq!(tok.literal, "letx");
    assert_eq!(l.next_token().token_type, EOF);
}

#[test]
fn illegal_character_then_end() {
    let mut l = Lexer::new("@");
    let tok = l.next_token();
    assert_eq!(tok.token_type, ILLEGAL);
    assert_eq!(tok.literal, "@");
    let end = l.next_token();
    assert_eq!(end.token_type, EOF);
    assert_eq!(end.literal, "");
}

#[test]
fn end_of_input_is_stable() {
    let mut l = Lexer::new("  ");
    for _ in 0..5 {
        let tok = l.next_token();
        assert_eq!(tok.token_type, EOF);
        assert_eq!(tok.literal, "");
    }
    let mut empty = Lexer::new("");
    assert_eq!(empty.next_token().token_type, EOF);
    assert_eq!(empty.next_token().token_type, EOF);
}

#[test]
fn every_ascii_character_is_tokenized() {
    for byte in 0u8..128 {
        let text = (byte as char).to_string();
        let toks = tokenize(&text);
        assert!(toks.len() <= 1);
        let space = byte.is_ascii_whitespace();
        assert_eq!(toks.len() == 0, space);
        if let Some(tok) = toks.first() {
            assert_eq!(tok.literal, text);
            assert_ne!(tok.token_type, EOF);
        }
    }
}

#[test]
fn character_outside_ascii_is_illegal() {
    let toks = tokenize("a\u{e9}1\u{0}\u{1d400}_");
    assert_eq!(
        pairs(&toks),
        expected(&[
            (IDENT, "a"),
            (ILLEGAL, "\u{e9}"),
            (INT, "1"),
            (ILLEGAL, "\u{0}"),
            (ILLEGAL, "\u{1d400}"),
            (IDENT, "_"),
        ])
    );
}

#[test]
fn minus_is_not_part_of_a_number() {
    assert_eq!(pairs(&tokenize("-5")), expected(&[(MINUS, "-"), (INT, "5")]));
    assert_eq!(
        pairs(&tokenize("12ab34")),
        expected(&[(INT, "12"), (IDENT, "ab"), (INT, "34")])
    );
    assert_eq!(pairs(&tokenize("a1")), expected(&[(IDENT, "a"), (INT, "1")]));
    assert_eq!(pairs(&tokenize("foo_bar")), expected(&[(IDENT, "foo_bar")]));
}

#[test]
fn whitespace_kinds_are_skipped() {
    assert_eq!(
        pairs(&tokenize(" \t\r\n\x0c;")),
        expected(&[(SEMICOLON, ";")])
    );
    assert_eq!(
        pairs(&tokenize("\x0b")),
        expected(&[(ILLEGAL, "\x0b")])
    );
}

#[test]
fn tokenizing_twice_gives_the_same_tokens() {
    let text = "let x = 5; y != 10 @ return";
    let first = pairs(&tokenize(text));
    let second = pairs(&tokenize(text));
    assert_eq!(first, second);
    assert_eq!(first.len(), 10);
    let mut l = Lexer::new(text);
    for pair in first.iter() {
        let tok = l.next_token();
        assert_eq!((tok.token_type, tok.literal), pair.clone());
    }
    assert_eq!(l.next_token().token_type, EOF);
}

#[test]
fn cloned_lexer_goes_on_alike() {
    let mut l = Lexer::new("a b c");
    l.next_token();
    let mut copy = l.clone();
    assert_eq!(l.next_token().literal, "b");
    assert_eq!(copy.next_token().literal, "b");
    assert_eq!(copy.next_token().literal, "c");
}
