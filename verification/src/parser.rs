//! The parser: it pulls tokens through a window of two, the current token
//! and the one after it, builds one statement per step and collects a
//! diagnostic for every expectation that the input does not meet.

use vstd::prelude::*;
use crate::ast::{
    optional_expression_view, Expression, ExpressionStatement, ExpressionStatementView,
    ExpressionView, Identifier, IdentifierView, IntegerLiteral, IntegerLiteralView, LetStatement,
    LetStatementView, Program, ReturnStatement, ReturnStatementView, Statement, StatementView,
};
use crate::integer::{integer_value, parse_integer};
use crate::lexer::{tokens_from, Lexer};
use crate::token::{end_token, kind_name, Token, TokenType, TokenView};

verus! {

/// The binding strengths, from the weakest to the strongest.
#[derive(PartialEq, Eq, Structural, Debug, Clone, Copy)]
pub enum Precedence {
    Lowest,
    Equals,
    LessGreater,
    Sum,
    Product,
    Prefix,
    Call,
}

/// The rank of a binding strength: a stronger one has a higher rank.
pub open spec fn precedence_rank(precedence: Precedence) -> nat {
    match precedence {
        Precedence::Lowest => 0,
        Precedence::Equals => 1,
        Precedence::LessGreater => 2,
        Precedence::Sum => 3,
        Precedence::Product => 4,
        Precedence::Prefix => 5,
        Precedence::Call => 6,
    }
}

impl Precedence {
    /// The rank as a number.
    pub fn rank(&self) -> (rank: usize)
        ensures
            rank == precedence_rank(*self),
    {
        match self {
            Precedence::Lowest => 0,
            Precedence::Equals => 1,
            Precedence::LessGreater => 2,
            Precedence::Sum => 3,
            Precedence::Product => 4,
            Precedence::Prefix => 5,
            Precedence::Call => 6,
        }
    }
}

/// The token at the head of `toks`; behind the last token stands the end
/// of input.
pub open spec fn first_token(toks: Seq<TokenView>) -> TokenView {
    if toks.len() > 0 {
        toks[0]
    } else {
        end_token()
    }
}

/// `toks` without its head; at the end of input nothing changes.
pub open spec fn advance(toks: Seq<TokenView>) -> Seq<TokenView> {
    if toks.len() > 0 {
        toks.drop_first()
    } else {
        toks
    }
}

/// The token behind the head of `toks`.
pub open spec fn second_token(toks: Seq<TokenView>) -> TokenView {
    first_token(advance(toks))
}

/// `toks` from its first semicolon on; where it holds none, from the end
/// of input on.
pub open spec fn skip_statement(toks: Seq<TokenView>) -> Seq<TokenView>
    decreases toks.len(),
{
    if first_token(toks).kind == TokenType::SEMICOLON || first_token(toks).kind
        == TokenType::EOF {
        toks
    } else {
        skip_statement(advance(toks))
    }
}

/// The diagnostic for a token of another category than the expected one.
pub open spec fn expectation_message(expected: TokenType, found: TokenType) -> Seq<char> {
    "expected next token to be "@ + kind_name(expected) + ", got "@ + kind_name(found)
        + " instead"@
}

/// The diagnostic for digits that denote no 64-bit integer.
pub open spec fn integer_message(literal: Seq<char>) -> Seq<char> {
    "could not parse "@ + literal + " as integer"@
}

/// What parsing an expression yields.
pub struct ExpressionOutcome {
    pub expression: Option<ExpressionView>,
    pub diagnostics: Seq<Seq<char>>,
}

/// What parsing a statement yields: the statement, if one was built, the
/// diagnostics, and the tokens from the statement's last token on.
pub struct StatementOutcome {
    pub statement: Option<StatementView>,
    pub diagnostics: Seq<Seq<char>>,
    pub rest: Seq<TokenView>,
}

/// What parsing a program yields.
pub struct ProgramOutcome {
    pub statements: Seq<StatementView>,
    pub diagnostics: Seq<Seq<char>>,
}

/// An integer token as an expression: an integer literal where the
/// token's text denotes a 64-bit integer, a diagnostic where it does not.
pub open spec fn integer_outcome(current: TokenView) -> ExpressionOutcome {
    match integer_value(current.literal) {
        Some(value) => ExpressionOutcome {
            expression: Some(
                ExpressionView::IntegerLiteral(IntegerLiteralView { token: current, value: value }),
            ),
            diagnostics: Seq::empty(),
        },
        None => ExpressionOutcome {
            expression: None,
            diagnostics: seq![integer_message(current.literal)],
        },
    }
}

/// The expression at the head of `toks`. An identifier token is an
/// identifier of that name, an integer token an integer literal or a
/// diagnostic. Any other token begins no expression.
pub open spec fn expression_outcome(toks: Seq<TokenView>) -> ExpressionOutcome {
    let current = first_token(toks);
    if current.kind == TokenType::IDENT {
        ExpressionOutcome {
            expression: Some(
                ExpressionView::Identifier(
                    IdentifierView { token: current, value: current.literal },
                ),
            ),
            diagnostics: Seq::empty(),
        }
    } else if current.kind == TokenType::INT {
        integer_outcome(current)
    } else {
        ExpressionOutcome { expression: None, diagnostics: Seq::empty() }
    }
}

/// The `let` statement at the head of `toks`. Behind `let` an identifier
/// is expected, and behind it `=`: where either is missing there is a
/// diagnostic and no statement, and the tokens before the missing one are
/// consumed. Otherwise the statement binds the identifier, its value is
/// left out, and the tokens up to the semicolon are skipped.
pub open spec fn let_outcome(toks: Seq<TokenView>) -> StatementOutcome {
    let name = second_token(toks);
    let named = advance(toks);
    if name.kind != TokenType::IDENT {
        StatementOutcome {
            statement: None,
            diagnostics: seq![expectation_message(TokenType::IDENT, name.kind)],
            rest: toks,
        }
    } else if second_token(named).kind != TokenType::ASSIGN {
        StatementOutcome {
            statement: None,
            diagnostics: seq![expectation_message(TokenType::ASSIGN, second_token(named).kind)],
            rest: named,
        }
    } else {
        StatementOutcome {
            statement: Some(
                StatementView::LetStatement(
                    LetStatementView {
                        token: first_token(toks),
                        name: IdentifierView { token: name, value: name.literal },
                        value: None,
                    },
                ),
            ),
            diagnostics: Seq::empty(),
            rest: skip_statement(advance(named)),
        }
    }
}

/// The `return` statement at the head of `toks`: its value is left out,
/// and the tokens up to the semicolon are skipped.
pub open spec fn return_outcome(toks: Seq<TokenView>) -> StatementOutcome {
    StatementOutcome {
        statement: Some(
            StatementView::ReturnStatement(
                ReturnStatementView { token: first_token(toks), return_value: None },
            ),
        ),
        diagnostics: Seq::empty(),
        rest: skip_statement(advance(toks)),
    }
}

/// The expression statement at the head of `toks`: the expression that
/// its first token begins, if it begins one, and a semicolon directly
/// behind that token is consumed.
pub open spec fn expression_statement_outcome(toks: Seq<TokenView>) -> StatementOutcome {
    let inner = expression_outcome(toks);
    StatementOutcome {
        statement: Some(
            StatementView::ExpressionStatement(
                ExpressionStatementView { token: first_token(toks), expression: inner.expression },
            ),
        ),
        diagnostics: inner.diagnostics,
        rest: if second_token(toks).kind == TokenType::SEMICOLON {
            advance(toks)
        } else {
            toks
        },
    }
}

/// The statement at the head of `toks`, chosen by its first token.
pub open spec fn statement_outcome(toks: Seq<TokenView>) -> StatementOutcome {
    if first_token(toks).kind == TokenType::LET {
        let_outcome(toks)
    } else if first_token(toks).kind == TokenType::RETURN {
        return_outcome(toks)
    } else {
        expression_statement_outcome(toks)
    }
}

/// The statements and diagnostics of `toks`, in source order: until the
/// end of input, one statement is parsed, kept where one was built, and
/// parsing goes on behind the token on which it stopped.
pub open spec fn program_outcome(toks: Seq<TokenView>) -> ProgramOutcome
    decreases toks.len(),
    via program_outcome_decreases
{
    if first_token(toks).kind == TokenType::EOF {
        ProgramOutcome { statements: Seq::empty(), diagnostics: Seq::empty() }
    } else {
        let step = statement_outcome(toks);
        let tail = program_outcome(advance(step.rest));
        ProgramOutcome {
            statements: match step.statement {
                Some(statement) => seq![statement] + tail.statements,
                None => tail.statements,
            },
            diagnostics: step.diagnostics + tail.diagnostics,
        }
    }
}

#[via_fn]
proof fn program_outcome_decreases(toks: Seq<TokenView>) {
    lemma_statement_rest(toks);
}

/// Skipping to the semicolon drops tokens and adds none; it stops on a
/// semicolon or at the end of input.
pub proof fn lemma_skip_statement(toks: Seq<TokenView>)
    ensures
        skip_statement(toks).len() <= toks.len(),
        first_token(skip_statement(toks)).kind == TokenType::SEMICOLON || first_token(
            skip_statement(toks),
        ).kind == TokenType::EOF,
    decreases toks.len(),
{
    if !(first_token(toks).kind == TokenType::SEMICOLON || first_token(toks).kind
        == TokenType::EOF) {
        lemma_skip_statement(advance(toks));
    }
}

/// Parsing a statement drops tokens and adds none.
pub proof fn lemma_statement_rest(toks: Seq<TokenView>)
    ensures
        statement_outcome(toks).rest.len() <= toks.len(),
{
    lemma_skip_statement(advance(toks));
    lemma_skip_statement(advance(advance(toks)));
}

/// A program has at most as many statements as its input has tokens.
pub proof fn lemma_program_is_bounded(toks: Seq<TokenView>)
    ensures
        program_outcome(toks).statements.len() <= toks.len(),
    decreases toks.len(),
{
    if first_token(toks).kind != TokenType::EOF {
        lemma_statement_rest(toks);
        lemma_program_is_bounded(advance(statement_outcome(toks).rest));
    }
}

/// A `let` statement that was built binds an identifier token under its
/// own text.
pub proof fn lemma_let_binds_identifier(toks: Seq<TokenView>)
    ensures
        let_outcome(toks).statement matches Some(StatementView::LetStatement(bound))
            ==> bound.name.token.kind == TokenType::IDENT && bound.name.value
            == bound.name.token.literal && let_outcome(toks).diagnostics.len() == 0,
        let_outcome(toks).statement is None ==> let_outcome(toks).diagnostics.len() == 1,
{
}

/// The texts of a list of diagnostics, in order.
pub open spec fn message_views(messages: Seq<String>) -> Seq<Seq<char>> {
    messages.map_values(|message: String| message@)
}

/// A parse in progress: the tokenizer, the window of two tokens and the
/// diagnostics collected so far.
#[derive(Debug)]
pub struct Parser {
    l: Lexer,
    errors: Vec<String>,
    cur_token: Token,
    peek_token: Token,
}

impl Clone for Parser {
    fn clone(&self) -> (copy: Parser)
        ensures
            copy.wf() == self.wf(),
            copy.remaining() == self.remaining(),
            copy.diagnostics() == self.diagnostics(),
    {
        let l = self.l.clone();
        let errors = self.errors();
        let copy = Parser {
            l,
            errors,
            cur_token: self.cur_token.clone(),
            peek_token: self.peek_token.clone(),
        };
        assert(copy.l.remaining() == self.l.remaining());
        copy
    }
}

impl Parser {
    /// The window holds the next two tokens of the input, and once it has
    /// reached the end of input it stays there.
    pub closed spec fn wf(&self) -> bool {
        &&& self.l.wf()
        &&& self.cur_token.token_type == TokenType::EOF ==> self.cur_token@ == end_token()
            && self.peek_token.token_type == TokenType::EOF
        &&& self.peek_token.token_type == TokenType::EOF ==> self.peek_token@ == end_token()
            && self.l.remaining() == Seq::<TokenView>::empty()
    }

    /// The tokens that are still to be parsed, the current token first and
    /// the end-of-input token left out.
    pub closed spec fn remaining(&self) -> Seq<TokenView> {
        if self.cur_token.token_type == TokenType::EOF {
            Seq::empty()
        } else if self.peek_token.token_type == TokenType::EOF {
            seq![self.cur_token@]
        } else {
            seq![self.cur_token@, self.peek_token@] + self.l.remaining()
        }
    }

    /// The diagnostics collected so far, oldest first.
    pub closed spec fn diagnostics(&self) -> Seq<Seq<char>> {
        message_views(self.errors@)
    }

    /// The window's two tokens are the first two of the remaining input.
    proof fn lemma_window(&self)
        requires
            self.wf(),
        ensures
            self.cur_token@ == first_token(self.remaining()),
            self.peek_token@ == second_token(self.remaining()),
    {
    }

    /// A parser at the start of the lexer's remaining input, with no
    /// diagnostics.
    pub fn new(l: Lexer) -> (p: Parser)
        requires
            l.wf(),
        ensures
            p.wf(),
            p.remaining() == l.remaining(),
            p.diagnostics() == Seq::<Seq<char>>::empty(),
    {
        let mut l = l;
        let cur_token = l.next_token();
        let peek_token = l.next_token();
        let p = Parser { l, errors: Vec::new(), cur_token, peek_token };
        assert(p.diagnostics() == Seq::<Seq<char>>::empty());
        p
    }

    /// The diagnostics collected so far, oldest first.
    pub fn errors(&self) -> (messages: Vec<String>)
        ensures
            message_views(messages@) == self.diagnostics(),
    {
        let mut messages: Vec<String> = Vec::new();
        let mut i: usize = 0;
        while i < self.errors.len()
            invariant
                i <= self.errors.len(),
                messages@.len() == i,
                forall|j: int| 0 <= j < i ==> (#[trigger] messages@[j])@ == self.errors@[j]@,
            decreases self.errors.len() - i,
        {
            messages.push(self.errors[i].clone());
            i += 1;
        }
        assert(message_views(messages@) =~= message_views(self.errors@));
        messages
    }

    /// The diagnostic for a token behind the current one that is not of
    /// the category `t`.
    fn peek_error(&self, t: TokenType) -> (message: String)
        requires
            self.wf(),
        ensures
            message@ == expectation_message(t, second_token(self.remaining()).kind),
    {
        proof {
            self.lemma_window();
        }
        String::from_str("expected next token to be ").concat(t.name()).concat(", got ").concat(
            self.peek_token.token_type.name(),
        ).concat(" instead")
    }

    /// Moves the window one token forward.
    fn next_token(&mut self)
        requires
            old(self).wf(),
        ensures
            final(self).wf(),
            final(self).remaining() == advance(old(self).remaining()),
            final(self).diagnostics() == old(self).diagnostics(),
    {
        let mut token = self.l.next_token();
        std::mem::swap(&mut self.peek_token, &mut token);
        self.cur_token = token;
    }

    /// Parses the remaining input: one statement after another until the
    /// end of input. A statement that could not be built is left out and
    /// leaves its diagnostic.
    pub fn parse_program(&mut self) -> (program: Program)
        requires
            old(self).wf(),
        ensures
            final(self).wf(),
            program@ == program_outcome(old(self).remaining()).statements,
            final(self).diagnostics() == old(self).diagnostics() + program_outcome(
                old(self).remaining(),
            ).diagnostics,
            final(self).remaining() == Seq::<TokenView>::empty(),
    {
        let mut program = Program::new();
        while !self.cur_token_is(TokenType::EOF)
            invariant
                self.wf(),
                program@ + program_outcome(self.remaining()).statements == program_outcome(
                    old(self).remaining(),
                ).statements,
                self.diagnostics() + program_outcome(self.remaining()).diagnostics == old(
                    self,
                ).diagnostics() + program_outcome(old(self).remaining()).diagnostics,
            decreases self.remaining().len(),
        {
            let ghost toks = self.remaining();
            let ghost before = program@;
            let ghost noted = self.diagnostics();
            proof {
                lemma_statement_rest(toks);
            }
            let stmt = self.parse_statement();
            if let Some(stmt) = stmt {
                program.statements.push(stmt);
                assert(program@ == before.push(stmt@));
            }
            self.next_token();
            proof {
                let step = statement_outcome(toks);
                let tail = program_outcome(advance(step.rest));
                assert(self.diagnostics() + tail.diagnostics == noted + (step.diagnostics
                    + tail.diagnostics));
                if let Some(statement) = step.statement {
                    assert(program@ + tail.statements == before + (seq![statement]
                        + tail.statements));
                }
            }
        }
        proof {
            self.lemma_window();
            assert(program@ + Seq::<StatementView>::empty() == program@);
            assert(self.diagnostics() + Seq::<Seq<char>>::empty() == self.diagnostics());
        }
        program
    }

    /// Parses the statement that the current token begins.
    fn parse_statement(&mut self) -> (stmt: Option<Statement>)
        requires
            old(self).wf(),
        ensures
            final(self).wf(),
            optional_statement_view(stmt) == statement_outcome(old(self).remaining()).statement,
            final(self).remaining() == statement_outcome(old(self).remaining()).rest,
            final(self).diagnostics() == old(self).diagnostics() + statement_outcome(
                old(self).remaining(),
            ).diagnostics,
    {
        proof {
            self.lemma_window();
        }
        match self.cur_token.token_type {
            TokenType::LET => self.parse_let_statement(),
            TokenType::RETURN => self.parse_return_statement(),
            _ => self.parse_expression_statement(),
        }
    }

    /// Parses a `let` statement; the current token is `let`.
    fn parse_let_statement(&mut self) -> (stmt: Option<Statement>)
        requires
            old(self).wf(),
        ensures
            final(self).wf(),
            optional_statement_view(stmt) == let_outcome(old(self).remaining()).statement,
            final(self).remaining() == let_outcome(old(self).remaining()).rest,
            final(self).diagnostics() == old(self).diagnostics() + let_outcome(
                old(self).remaining(),
            ).diagnostics,
    {
        proof {
            self.lemma_window();
        }
        let mut stmt = LetStatement::new();
        stmt.token = self.cur_token.clone();

        if !self.expect_peek(TokenType::IDENT) {
            return None;
        }
        proof {
            self.lemma_window();
        }
        stmt.name = Identifier {
            token: self.cur_token.clone(),
            value: self.cur_token.literal.clone(),
        };

        if !self.expect_peek(TokenType::ASSIGN) {
            return None;
        }
        self.skip_to_semicolon();
        assert(self.diagnostics() + Seq::<Seq<char>>::empty() == self.diagnostics());
        Some(Statement::LetStatement(stmt))
    }

    /// Parses a `return` statement; the current token is `return`.
    fn parse_return_statement(&mut self) -> (stmt: Option<Statement>)
        requires
            old(self).wf(),
        ensures
            final(self).wf(),
            optional_statement_view(stmt) == return_outcome(old(self).remaining()).statement,
            final(self).remaining() == return_outcome(old(self).remaining()).rest,
            final(self).diagnostics() == old(self).diagnostics() + return_outcome(
                old(self).remaining(),
            ).diagnostics,
    {
        proof {
            self.lemma_window();
        }
        let stmt = ReturnStatement::new(self.cur_token.clone());

        self.next_token();
        self.skip_to_semicolon();
        assert(self.diagnostics() + Seq::<Seq<char>>::empty() == self.diagnostics());
        Some(Statement::ReturnStatement(stmt))
    }

    /// Moves the window forward until the current token is a semicolon or
    /// the end of input.
    fn skip_to_semicolon(&mut self)
        requires
            old(self).wf(),
        ensures
            final(self).wf(),
            final(self).remaining() == skip_statement(old(self).remaining()),
            final(self).diagnostics() == old(self).diagnostics(),
    {
        while !self.cur_token_is(TokenType::SEMICOLON) && !self.cur_token_is(TokenType::EOF)
            invariant
                self.wf(),
                skip_statement(self.remaining()) == skip_statement(old(self).remaining()),
                self.diagnostics() == old(self).diagnostics(),
            decreases self.remaining().len(),
        {
            self.next_token();
        }
    }

    /// Parses an expression statement: the expression that the current
    /// token begins and the semicolon behind it, if there is one.
    fn parse_expression_statement(&mut self) -> (stmt: Option<Statement>)
        requires
            old(self).wf(),
        ensures
            final(self).wf(),
            optional_statement_view(stmt) == expression_statement_outcome(
                old(self).remaining(),
            ).statement,
            final(self).remaining() == expression_statement_outcome(old(self).remaining()).rest,
            final(self).diagnostics() == old(self).diagnostics() + expression_statement_outcome(
                old(self).remaining(),
            ).diagnostics,
    {
        proof {
            self.lemma_window();
        }
        let token = self.cur_token.clone();
        let expression = self.parse_expression(Precedence::Lowest.rank());
        let stmt = ExpressionStatement { token, expression };

        if self.peek_token_is(TokenType::SEMICOLON) {
            self.next_token();
        }
        Some(Statement::ExpressionStatement(stmt))
    }

    /// Parses the expression that the current token begins. No operator
    /// is bound yet, so the precedence does not bear on the result.
    fn parse_expression(&mut self, precedence: usize) -> (expression: Option<Expression>)
        requires
            old(self).wf(),
        ensures
            final(self).wf(),
            optional_expression_view(expression) == expression_outcome(
                old(self).remaining(),
            ).expression,
            final(self).remaining() == old(self).remaining(),
            final(self).diagnostics() == old(self).diagnostics() + expression_outcome(
                old(self).remaining(),
            ).diagnostics,
    {
        proof {
            self.lemma_window();
            assert(self.diagnostics() + Seq::<Seq<char>>::empty() == self.diagnostics());
        }
        match self.cur_token.token_type {
            TokenType::IDENT => self.parse_identifier(),
            TokenType::INT => self.parse_integer_literal(),
            _ => None,
        }
    }

    /// The current token as an identifier.
    fn parse_identifier(&self) -> (expression: Option<Expression>)
        requires
            self.wf(),
        ensures
            optional_expression_view(expression) == Some(
                ExpressionView::Identifier(
                    IdentifierView {
                        token: first_token(self.remaining()),
                        value: first_token(self.remaining()).literal,
                    },
                ),
            ),
    {
        proof {
            self.lemma_window();
        }
        Some(
            Expression::Identifier(
                Identifier { token: self.cur_token.clone(), value: self.cur_token.literal.clone() },
            ),
        )
    }

    /// The current token as an integer literal; a diagnostic where its
    /// text denotes no 64-bit integer.
    fn parse_integer_literal(&mut self) -> (expression: Option<Expression>)
        requires
            old(self).wf(),
        ensures
            final(self).wf(),
            final(self).remaining() == old(self).remaining(),
            optional_expression_view(expression) == integer_outcome(
                first_token(old(self).remaining()),
            ).expression,
            final(self).diagnostics() == old(self).diagnostics() + integer_outcome(
                first_token(old(self).remaining()),
            ).diagnostics,
    {
        proof {
            self.lemma_window();
            assert(self.diagnostics() + Seq::<Seq<char>>::empty() == self.diagnostics());
        }
        let value = match parse_integer(self.cur_token.literal.as_str()) {
            Some(value) => value,
            None => {
                let message = String::from_str("could not parse ").concat(
                    self.cur_token.literal.as_str(),
                ).concat(" as integer");
                self.record(message);
                return None;
            },
        };

        let lit = IntegerLiteral { token: self.cur_token.clone(), value };

        Some(Expression::IntegerLiteral(lit))
    }

    /// Adds a diagnostic.
    fn record(&mut self, message: String)
        requires
            old(self).wf(),
        ensures
            final(self).wf(),
            final(self).remaining() == old(self).remaining(),
            final(self).diagnostics() == old(self).diagnostics() + seq![message@],
    {
        self.errors.push(message);
        assert(self.diagnostics() == old(self).diagnostics() + seq![message@]);
    }

    /// Whether the current token is of the category `t`.
    fn cur_token_is(&self, t: TokenType) -> (same: bool)
        requires
            self.wf(),
        ensures
            same == (first_token(self.remaining()).kind == t),
    {
        proof {
            self.lemma_window();
        }
        self.cur_token.token_type == t
    }

    /// Whether the token behind the current one is of the category `t`.
    fn peek_token_is(&self, t: TokenType) -> (same: bool)
        requires
            self.wf(),
        ensures
            same == (second_token(self.remaining()).kind == t),
    {
        proof {
            self.lemma_window();
        }
        self.peek_token.token_type == t
    }

    /// Moves the window forward if the token behind the current one is of
    /// the category `t`; otherwise records a diagnostic and leaves the
    /// window where it is.
    fn expect_peek(&mut self, t: TokenType) -> (met: bool)
        requires
            old(self).wf(),
        ensures
            final(self).wf(),
            met == (second_token(old(self).remaining()).kind == t),
            met ==> final(self).remaining() == advance(old(self).remaining())
                && final(self).diagnostics() == old(self).diagnostics(),
            !met ==> final(self).remaining() == old(self).remaining()
                && final(self).diagnostics() == old(self).diagnostics() + seq![
                expectation_message(t, second_token(old(self).remaining()).kind),
            ],
    {
        if self.peek_token_is(t) {
            self.next_token();
            true
        } else {
            let message = self.peek_error(t);
            self.record(message);
            false
        }
    }
}

/// The view of a statement that may be absent.
pub open spec fn optional_statement_view(statement: Option<Statement>) -> Option<StatementView> {
    match statement {
        Some(present) => Some(present@),
        None => None,
    }
}

/// Parses `source` from its start to its end and returns the program with
/// the diagnostics, oldest first.
pub fn parse(source: &str) -> (parsed: (Program, Vec<String>))
    ensures
        parsed.0@ == program_outcome(tokens_from(source@, 0)).statements,
        message_views(parsed.1@) == program_outcome(tokens_from(source@, 0)).diagnostics,
{
    let mut parser = Parser::new(Lexer::new(source));
    let program = parser.parse_program();
    let messages = parser.errors();
    assert(Seq::<Seq<char>>::empty() + program_outcome(tokens_from(source@, 0)).diagnostics
        == program_outcome(tokens_from(source@, 0)).diagnostics);
    (program, messages)
}

} // verus!
