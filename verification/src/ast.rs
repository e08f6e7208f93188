//! The syntax tree: a program is a sequence of statements, a statement holds
//! the token that introduced it and, where one was parsed, an expression.
//! Every node gives the literal of its defining token and its canonical
//! text.

use vstd::prelude::*;
use crate::token::{blank_token, Token, TokenView};

verus! {

/// What an identifier is in contracts.
pub struct IdentifierView {
    pub token: TokenView,
    pub value: Seq<char>,
}

/// What an integer literal is in contracts.
pub struct IntegerLiteralView {
    pub token: TokenView,
    pub value: i64,
}

/// What an expression is in contracts.
pub enum ExpressionView {
    Identifier(IdentifierView),
    IntegerLiteral(IntegerLiteralView),
}

/// What a `let` statement is in contracts.
pub struct LetStatementView {
    pub token: TokenView,
    pub name: IdentifierView,
    pub value: Option<ExpressionView>,
}

/// What a `return` statement is in contracts.
pub struct ReturnStatementView {
    pub token: TokenView,
    pub return_value: Option<ExpressionView>,
}

/// What an expression statement is in contracts.
pub struct ExpressionStatementView {
    pub token: TokenView,
    pub expression: Option<ExpressionView>,
}

/// What a statement is in contracts.
pub enum StatementView {
    LetStatement(LetStatementView),
    ReturnStatement(ReturnStatementView),
    ExpressionStatement(ExpressionStatementView),
}

/// The literal of the token that defines an expression.
pub open spec fn expression_literal(expression: ExpressionView) -> Seq<char> {
    match expression {
        ExpressionView::Identifier(identifier) => identifier.token.literal,
        ExpressionView::IntegerLiteral(literal) => literal.token.literal,
    }
}

/// The canonical text of an expression: an identifier's name, an integer
/// literal's digits as they were written.
pub open spec fn expression_text(expression: ExpressionView) -> Seq<char> {
    match expression {
        ExpressionView::Identifier(identifier) => identifier.value,
        ExpressionView::IntegerLiteral(literal) => literal.token.literal,
    }
}

/// The canonical text of an expression that may be absent: nothing where
/// it is.
pub open spec fn optional_expression_text(expression: Option<ExpressionView>) -> Seq<char> {
    match expression {
        Some(present) => expression_text(present),
        None => Seq::empty(),
    }
}

/// The canonical text of a `let` statement: the token's literal, a space,
/// the name, ` = `, the value's text and a semicolon.
pub open spec fn let_statement_text(statement: LetStatementView) -> Seq<char> {
    statement.token.literal + " "@ + statement.name.value + " = "@ + optional_expression_text(
        statement.value,
    ) + ";"@
}

/// The canonical text of a `return` statement: the token's literal, a
/// space, the value's text and a semicolon.
pub open spec fn return_statement_text(statement: ReturnStatementView) -> Seq<char> {
    statement.token.literal + " "@ + optional_expression_text(statement.return_value) + ";"@
}

/// The literal of the token that introduced a statement.
pub open spec fn statement_literal(statement: StatementView) -> Seq<char> {
    match statement {
        StatementView::LetStatement(inner) => inner.token.literal,
        StatementView::ReturnStatement(inner) => inner.token.literal,
        StatementView::ExpressionStatement(inner) => inner.token.literal,
    }
}

/// The canonical text of a statement.
pub open spec fn statement_text(statement: StatementView) -> Seq<char> {
    match statement {
        StatementView::LetStatement(inner) => let_statement_text(inner),
        StatementView::ReturnStatement(inner) => return_statement_text(inner),
        StatementView::ExpressionStatement(inner) => optional_expression_text(inner.expression),
    }
}

/// The canonical text of a program: the texts of its statements in order,
/// with nothing between them.
pub open spec fn program_text(statements: Seq<StatementView>) -> Seq<char>
    decreases statements.len(),
{
    if statements.len() == 0 {
        Seq::empty()
    } else {
        program_text(statements.drop_last()) + statement_text(statements.last())
    }
}

/// The literal of the token that introduced a program's first statement;
/// nothing for the empty program.
pub open spec fn program_literal(statements: Seq<StatementView>) -> Seq<char> {
    if statements.len() == 0 {
        Seq::empty()
    } else {
        statement_literal(statements[0])
    }
}

/// A node of the syntax tree.
pub trait Node {
    /// The literal of the node's defining token.
    spec fn literal_text(&self) -> Seq<char>;

    /// The node's canonical text.
    spec fn canonical_text(&self) -> Seq<char>;

    fn token_literal(&self) -> (text: String)
        ensures
            text@ == self.literal_text(),
    ;

    fn string(&self) -> (text: String)
        ensures
            text@ == self.canonical_text(),
    ;
}

/// A name.
#[derive(Debug)]
pub struct Identifier {
    pub token: Token,
    pub value: String,
}

impl View for Identifier {
    type V = IdentifierView;

    open spec fn view(&self) -> IdentifierView {
        IdentifierView { token: self.token@, value: self.value@ }
    }
}

impl Clone for Identifier {
    fn clone(&self) -> (copy: Identifier)
        ensures
            copy@ == self@,
    {
        Identifier { token: self.token.clone(), value: self.value.clone() }
    }
}

impl Identifier {
    /// The identifier with an empty name and the default token.
    pub fn new() -> (identifier: Identifier)
        ensures
            identifier@ == (IdentifierView { token: blank_token(), value: Seq::empty() }),
    {
        Identifier { token: Token::new(), value: String::default() }
    }
}

impl Node for Identifier {
    open spec fn literal_text(&self) -> Seq<char> {
        self.token.literal@
    }

    open spec fn canonical_text(&self) -> Seq<char> {
        self.value@
    }

    fn token_literal(&self) -> (text: String) {
        self.token.literal.clone()
    }

    fn string(&self) -> (text: String) {
        self.value.clone()
    }
}

/// An integer written in decimal digits.
#[derive(Debug)]
pub struct IntegerLiteral {
    pub token: Token,
    pub value: i64,
}

impl View for IntegerLiteral {
    type V = IntegerLiteralView;

    open spec fn view(&self) -> IntegerLiteralView {
        IntegerLiteralView { token: self.token@, value: self.value }
    }
}

impl Clone for IntegerLiteral {
    fn clone(&self) -> (copy: IntegerLiteral)
        ensures
            copy@ == self@,
    {
        IntegerLiteral { token: self.token.clone(), value: self.value }
    }
}

impl Node for IntegerLiteral {
    open spec fn literal_text(&self) -> Seq<char> {
        self.token.literal@
    }

    open spec fn canonical_text(&self) -> Seq<char> {
        self.token.literal@
    }

    fn token_literal(&self) -> (text: String) {
        self.token.literal.clone()
    }

    fn string(&self) -> (text: String) {
        self.token.literal.clone()
    }
}

/// An expression: one of the forms that the parser completes.
#[derive(Debug)]
pub enum Expression {
    Identifier(Identifier),
    IntegerLiteral(IntegerLiteral),
}

impl View for Expression {
    type V = ExpressionView;

    open spec fn view(&self) -> ExpressionView {
        match self {
            Expression::Identifier(identifier) => ExpressionView::Identifier(identifier@),
            Expression::IntegerLiteral(literal) => ExpressionView::IntegerLiteral(literal@),
        }
    }
}

impl Clone for Expression {
    fn clone(&self) -> (copy: Expression)
        ensures
            copy@ == self@,
    {
        match self {
            Expression::Identifier(identifier) => Expression::Identifier(identifier.clone()),
            Expression::IntegerLiteral(literal) => Expression::IntegerLiteral(literal.clone()),
        }
    }
}

impl Node for Expression {
    open spec fn literal_text(&self) -> Seq<char> {
        expression_literal(self@)
    }

    open spec fn canonical_text(&self) -> Seq<char> {
        expression_text(self@)
    }

    fn token_literal(&self) -> (text: String) {
        match self {
            Expression::Identifier(identifier) => identifier.token_literal(),
            Expression::IntegerLiteral(literal) => literal.token_literal(),
        }
    }

    fn string(&self) -> (text: String) {
        match self {
            Expression::Identifier(identifier) => identifier.string(),
            Expression::IntegerLiteral(literal) => literal.string(),
        }
    }
}

/// The view of an expression that may be absent.
pub open spec fn optional_expression_view(expression: Option<Expression>) -> Option<
    ExpressionView,
> {
    match expression {
        Some(present) => Some(present@),
        None => None,
    }
}

/// A copy of an expression that may be absent.
fn clone_optional_expression(expression: &Option<Expression>) -> (copy: Option<Expression>)
    ensures
        optional_expression_view(copy) == optional_expression_view(*expression),
{
    match expression {
        Some(present) => Some(present.clone()),
        None => None,
    }
}

/// The canonical text of an expression that may be absent.
fn optional_expression_string(expression: &Option<Expression>) -> (text: String)
    ensures
        text@ == optional_expression_text(optional_expression_view(*expression)),
{
    match expression {
        Some(present) => present.string(),
        None => String::new(),
    }
}

/// `let <name> = <value>;`
#[derive(Debug)]
pub struct LetStatement {
    pub token: Token,
    pub name: Identifier,
    pub value: Option<Expression>,
}

impl View for LetStatement {
    type V = LetStatementView;

    open spec fn view(&self) -> LetStatementView {
        LetStatementView {
            token: self.token@,
            name: self.name@,
            value: optional_expression_view(self.value),
        }
    }
}

impl Clone for LetStatement {
    fn clone(&self) -> (copy: LetStatement)
        ensures
            copy@ == self@,
    {
        LetStatement {
            token: self.token.clone(),
            name: self.name.clone(),
            value: clone_optional_expression(&self.value),
        }
    }
}

impl LetStatement {
    /// A `let` statement with the default token, an empty name and no
    /// value.
    pub fn new() -> (statement: LetStatement)
        ensures
            statement@ == (LetStatementView {
                token: blank_token(),
                name: IdentifierView { token: blank_token(), value: Seq::empty() },
                value: None,
            }),
    {
        LetStatement { token: Token::new(), name: Identifier::new(), value: None }
    }
}

impl Node for LetStatement {
    open spec fn literal_text(&self) -> Seq<char> {
        self.token.literal@
    }

    open spec fn canonical_text(&self) -> Seq<char> {
        let_statement_text(self@)
    }

    fn token_literal(&self) -> (text: String) {
        self.token.literal.clone()
    }

    fn string(&self) -> (text: String) {
        let name = self.name.string();
        let value = optional_expression_string(&self.value);
        self.token_literal().concat(" ").concat(name.as_str()).concat(" = ").concat(
            value.as_str(),
        ).concat(";")
    }
}

/// `return <value>;`
#[derive(Debug)]
pub struct ReturnStatement {
    pub token: Token,
    pub return_value: Option<Expression>,
}

impl View for ReturnStatement {
    type V = ReturnStatementView;

    open spec fn view(&self) -> ReturnStatementView {
        ReturnStatementView {
            token: self.token@,
            return_value: optional_expression_view(self.return_value),
        }
    }
}

impl Clone for ReturnStatement {
    fn clone(&self) -> (copy: ReturnStatement)
        ensures
            copy@ == self@,
    {
        ReturnStatement {
            token: self.token.clone(),
            return_value: clone_optional_expression(&self.return_value),
        }
    }
}

impl ReturnStatement {
    /// A `return` statement introduced by `token`, with no value.
    pub fn new(token: Token) -> (statement: ReturnStatement)
        ensures
            statement@ == (ReturnStatementView { token: token@, return_value: None }),
    {
        ReturnStatement { token, return_value: None }
    }
}

impl Node for ReturnStatement {
    open spec fn literal_text(&self) -> Seq<char> {
        self.token.literal@
    }

    open spec fn canonical_text(&self) -> Seq<char> {
        return_statement_text(self@)
    }

    fn token_literal(&self) -> (text: String) {
        self.token.literal.clone()
    }

    fn string(&self) -> (text: String) {
        let value = optional_expression_string(&self.return_value);
        self.token_literal().concat(" ").concat(value.as_str()).concat(";")
    }
}

/// An expression that stands as a statement.
#[derive(Debug)]
pub struct ExpressionStatement {
    pub token: Token,
    pub expression: Option<Expression>,
}

impl View for ExpressionStatement {
    type V = ExpressionStatementView;

    open spec fn view(&self) -> ExpressionStatementView {
        ExpressionStatementView {
            token: self.token@,
            expression: optional_expression_view(self.expression),
        }
    }
}

impl Clone for ExpressionStatement {
    fn clone(&self) -> (copy: ExpressionStatement)
        ensures
            copy@ == self@,
    {
        ExpressionStatement {
            token: self.token.clone(),
            expression: clone_optional_expression(&self.expression),
        }
    }
}

impl Node for ExpressionStatement {
    open spec fn literal_text(&self) -> Seq<char> {
        self.token.literal@
    }

    open spec fn canonical_text(&self) -> Seq<char> {
        optional_expression_text(self@.expression)
    }

    fn token_literal(&self) -> (text: String) {
        self.token.literal.clone()
    }

    fn string(&self) -> (text: String) {
        optional_expression_string(&self.expression)
    }
}

/// A statement: one of the three forms of the language.
#[derive(Debug)]
pub enum Statement {
    LetStatement(LetStatement),
    ReturnStatement(ReturnStatement),
    ExpressionStatement(ExpressionStatement),
}

impl View for Statement {
    type V = StatementView;

    open spec fn view(&self) -> StatementView {
        match self {
            Statement::LetStatement(inner) => StatementView::LetStatement(inner@),
            Statement::ReturnStatement(inner) => StatementView::ReturnStatement(inner@),
            Statement::ExpressionStatement(inner) => StatementView::ExpressionStatement(inner@),
        }
    }
}

impl Clone for Statement {
    fn clone(&self) -> (copy: Statement)
        ensures
            copy@ == self@,
    {
        match self {
            Statement::LetStatement(inner) => Statement::LetStatement(inner.clone()),
            Statement::ReturnStatement(inner) => Statement::ReturnStatement(inner.clone()),
            Statement::ExpressionStatement(inner) => Statement::ExpressionStatement(inner.clone()),
        }
    }
}

impl Node for Statement {
    open spec fn literal_text(&self) -> Seq<char> {
        statement_literal(self@)
    }

    open spec fn canonical_text(&self) -> Seq<char> {
        statement_text(self@)
    }

    fn token_literal(&self) -> (text: String) {
        match self {
            Statement::LetStatement(inner) => inner.token_literal(),
            Statement::ReturnStatement(inner) => inner.token_literal(),
            Statement::ExpressionStatement(inner) => inner.token_literal(),
        }
    }

    fn string(&self) -> (text: String) {
        match self {
            Statement::LetStatement(inner) => inner.string(),
            Statement::ReturnStatement(inner) => inner.string(),
            Statement::ExpressionStatement(inner) => inner.string(),
        }
    }
}

/// The views of a sequence of statements, in order.
pub open spec fn statement_views(statements: Seq<Statement>) -> Seq<StatementView> {
    statements.map_values(|statement: Statement| statement@)
}

/// The root of the tree: the statements in source order.
#[derive(Debug)]
pub struct Program {
    pub statements: Vec<Statement>,
}

impl View for Program {
    type V = Seq<StatementView>;

    open spec fn view(&self) -> Seq<StatementView> {
        statement_views(self.statements@)
    }
}

impl Program {
    /// The program without statements.
    pub fn new() -> (program: Program)
        ensures
            program@ == Seq::<StatementView>::empty(),
    {
        Program { statements: Vec::new() }
    }

    /// The literal of the token that introduced the first statement; the
    /// empty text for the empty program.
    pub fn token_literal(&self) -> (text: String)
        ensures
            text@ == program_literal(self@),
    {
        if self.statements.len() > 0 {
            self.statements[0].token_literal()
        } else {
            String::new()
        }
    }

    /// The canonical text of the program.
    pub fn string(&self) -> (text: String)
        ensures
            text@ == program_text(self@),
    {
        let mut text = String::new();
        let mut i: usize = 0;
        while i < self.statements.len()
            invariant
                i <= self.statements.len(),
                text@ == program_text(self@.take(i as int)),
            decreases self.statements.len() - i,
        {
            let piece = self.statements[i].string();
            text.append(piece.as_str());
            proof {
                let prefix = self@.take(i + 1);
                assert(prefix.drop_last() == self@.take(i as int));
                assert(prefix.last() == self.statements[i as int]@);
            }
            i += 1;
        }
        assert(self@.take(i as int) == self@);
        text
    }
}

} // verus!
