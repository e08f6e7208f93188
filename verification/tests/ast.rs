use monkey::ast::{
    Expression, ExpressionStatement, Identifier, IntegerLiteral, LetStatement, Node, Program,
    ReturnStatement, Statement,
};
use monkey::token::{
    Token,
    TokenType::{IDENT, ILLEGAL, INT, LET, RETURN},
};

fn name(text: &str) -> Identifier {
    Identifier {
        token: Token { token_type: IDENT, literal: text.to_string() },
        value: text.to_string(),
    }
}

fn number(text: &str, value: i64) -> IntegerLiteral {
    IntegerLiteral { token: Token { token_type: INT, literal: text.to_string() }, value }
}

#[test]
fn test_string() {
    let program = Program {
        statements: [Statement::LetStatement(LetStatement {
            token: Token {
                token_type: LET,
                literal: "let".to_string(),
            },
            name: Identifier {
                token: Token {
                    token_type: IDENT,
                    literal: "myVar".to_string(),
                },
                value: "myVar".to_string(),
            },
            value: Some(Expression::Identifier(Identifier {
                token: Token {
                    token_type: IDENT,
                    literal: "anotherVar".to_string(),
                },
                value: "anotherVar".to_string(),
            })),
        })]
        .to_vec(),
    };

    if program.string() != "let myVar = anotherVar;".to_string() {
        panic!("program.String() wrong. got={}", program.string())
    }
}

#[test]
fn let_statement_text_without_value() {
    let stmt = LetStatement {
        token: Token { token_type: LET, literal: "let".to_string() },
        name: name("x"),
        value: None,
    };
    assert_eq!(stmt.string(), "let x = ;");
    assert_eq!(stmt.token_literal(), "let");
}

#[test]
fn return_statement_text() {
    let mut stmt = ReturnStatement::new(Token { token_type: RETURN, literal: "return".to_string() });
    assert!(stmt.return_value.is_none());
    assert_eq!(stmt.string(), "return ;");
    assert_eq!(stmt.token_literal(), "return");
    stmt.return_value = Some(Expression::IntegerLiteral(number("007", 7)));
    assert_eq!(stmt.string(), "return 007;");
}

#[test]
fn expression_statement_text() {
    let stmt = ExpressionStatement {
        token: Token { token_type: IDENT, literal: "foo".to_string() },
        expression: Some(Expression::Identifier(name("foo"))),
    };
    assert_eq!(stmt.string(), "foo");
    assert_eq!(stmt.token_literal(), "foo");
    let bare = ExpressionStatement {
        token: Token { token_type: ILLEGAL, literal: "@".to_string() },
        expression: None,
    };
    assert_eq!(bare.string(), "");
    assert_eq!(bare.token_literal(), "@");
}

#[test]
fn expression_text_and_literal() {
    let identifier = Expression::Identifier(Identifier {
        token: Token { token_type: IDENT, literal: "tok".to_string() },
        value: "val".to_string(),
    });
    assert_eq!(identifier.string(), "val");
    assert_eq!(identifier.token_literal(), "tok");
    let literal = Expression::IntegerLiteral(number("42", 42));
    assert_eq!(literal.string(), "42");
    assert_eq!(literal.token_literal(), "42");
    assert_eq!(number("5", 5).string(), "5");
    assert_eq!(number("5", 5).token_literal(), "5");
    assert_eq!(name("n").string(), "n");
    assert_eq!(name("n").token_literal(), "n");
}

#[test]
fn program_text_joins_statements() {
    let program = Program {
        statements: vec![
            Statement::LetStatement(LetStatement {
                token: Token { token_type: LET, literal: "let".to_string() },
                name: name("a"),
                value: Some(Expression::IntegerLiteral(number("1", 1))),
            }),
            Statement::ReturnStatement(ReturnStatement {
                token: Token { token_type: RETURN, literal: "return".to_string() },
                return_value: Some(Expression::Identifier(name("a"))),
            }),
            Statement::ExpressionStatement(ExpressionStatement {
                token: Token { token_type: IDENT, literal: "b".to_string() },
                expression: Some(Expression::Identifier(name("b"))),
            }),
        ],
    };
    assert_eq!(program.string(), "let a = 1;return a;b");
    assert_eq!(program.token_literal(), "let");
    assert_eq!(program.statements[1].token_literal(), "return");
    assert_eq!(program.statements[1].string(), "return a;");
    assert_eq!(program.statements[2].token_literal(), "b");
}

#[test]
fn empty_program_has_no_text() {
    let program = Program::new();
    assert_eq!(program.statements.len(), 0);
    assert_eq!(program.string(), "");
    assert_eq!(program.token_literal(), "");
}

#[test]
fn new_let_statement_is_blank() {
    let stmt = LetStatement::new();
    assert_eq!(stmt.token.token_type, ILLEGAL);
    assert_eq!(stmt.token.literal, "");
    assert_eq!(stmt.name.value, "");
    assert_eq!(stmt.name.token.token_type, ILLEGAL);
    assert!(stmt.value.is_none());
    assert_eq!(stmt.string(), "  = ;");
    let identifier = Identifier::new();
    assert_eq!(identifier.value, "");
    assert_eq!(identifier.token.literal, "");
}

#[test]
fn cloned_statement_has_the_same_text() {
    let stmt = Statement::LetStatement(LetStatement {
        token: Token { token_type: LET, literal: "let".to_string() },
        name: name("myVar"),
        value: Some(Expression::Identifier(name("anotherVar"))),
    });
    let copy = stmt.clone();
    assert_eq!(copy.string(), "let myVar = anotherVar;");
    assert_eq!(copy.token_literal(), "let");
}
