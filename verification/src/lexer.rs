//! The tokenizer: a cursor over source text that hands out one token per
//! call, with one character of lookahead.

use vstd::prelude::*;
use crate::token::{end_token, keyword_kind, lookup_ident, Token, TokenType, TokenView};

verus! {

/// The character classes that form runs in source text.
#[derive(PartialEq, Eq, Structural, Debug, Clone, Copy)]
pub enum CharClass {
    Space,
    Letter,
    Digit,
}

/// ASCII whitespace: space, tab, line feed, form feed, carriage return.
pub open spec fn is_space_char(c: char) -> bool {
    c == ' ' || c == '\t' || c == '\n' || c == '\x0C' || c == '\r'
}

/// An ASCII letter or the underscore.
pub open spec fn is_letter_char(c: char) -> bool {
    ('a' <= c && c <= 'z') || ('A' <= c && c <= 'Z') || c == '_'
}

/// An ASCII decimal digit.
pub open spec fn is_digit_char(c: char) -> bool {
    '0' <= c && c <= '9'
}

/// Whether a character belongs to a class.
pub open spec fn in_class(c: char, class: CharClass) -> bool {
    match class {
        CharClass::Space => is_space_char(c),
        CharClass::Letter => is_letter_char(c),
        CharClass::Digit => is_digit_char(c),
    }
}

/// Where the longest run of characters of `class` that starts at `from`
/// ends: the first position at or after `from` that holds no character of
/// the class.
pub open spec fn run_end(text: Seq<char>, from: int, class: CharClass) -> int
    decreases text.len() - from,
{
    if 0 <= from < text.len() && in_class(text[from], class) {
        run_end(text, from + 1, class)
    } else {
        from
    }
}

/// The category of a character that is a token by itself.
pub open spec fn symbol_kind(c: char) -> Option<TokenType> {
    if c == '=' {
        Some(TokenType::ASSIGN)
    } else if c == '+' {
        Some(TokenType::PLUS)
    } else if c == '-' {
        Some(TokenType::MINUS)
    } else if c == '!' {
        Some(TokenType::BANG)
    } else if c == '/' {
        Some(TokenType::SLASH)
    } else if c == '*' {
        Some(TokenType::ASTERISK)
    } else if c == '<' {
        Some(TokenType::LT)
    } else if c == '>' {
        Some(TokenType::GT)
    } else if c == ';' {
        Some(TokenType::SEMICOLON)
    } else if c == ',' {
        Some(TokenType::COMMA)
    } else if c == '{' {
        Some(TokenType::LBRACE)
    } else if c == '}' {
        Some(TokenType::RBRACE)
    } else if c == '(' {
        Some(TokenType::LPAREN)
    } else if c == ')' {
        Some(TokenType::RPAREN)
    } else {
        None
    }
}

/// A token's category and the half-open range of text that it covers.
pub struct Lexeme {
    pub kind: TokenType,
    pub start: int,
    pub end: int,
}

/// The lexeme that a cursor at `from` yields. Whitespace before it is
/// skipped. At the end of the text it is the empty end-of-input lexeme.
/// `=` and `!` directly followed by `=` form one two-character lexeme. A
/// letter starts the longest run of letters, classified as a reserved word
/// or an identifier; a digit starts the longest run of digits. Any other
/// character is an illegal lexeme of that one character.
pub open spec fn lexeme_at(text: Seq<char>, from: int) -> Lexeme {
    let start = run_end(text, from, CharClass::Space);
    if !(0 <= start < text.len()) {
        Lexeme { kind: TokenType::EOF, start: start, end: start }
    } else {
        let c = text[start];
        if (c == '=' || c == '!') && start + 1 < text.len() && text[start + 1] == '=' {
            Lexeme {
                kind: if c == '=' { TokenType::EQ } else { TokenType::NOTEQ },
                start: start,
                end: start + 2,
            }
        } else if symbol_kind(c) is Some {
            Lexeme { kind: symbol_kind(c)->0, start: start, end: start + 1 }
        } else if is_letter_char(c) {
            let end = run_end(text, start, CharClass::Letter);
            Lexeme { kind: keyword_kind(text.subrange(start, end)), start: start, end: end }
        } else if is_digit_char(c) {
            Lexeme {
                kind: TokenType::INT,
                start: start,
                end: run_end(text, start, CharClass::Digit),
            }
        } else {
            Lexeme { kind: TokenType::ILLEGAL, start: start, end: start + 1 }
        }
    }
}

/// The token that a cursor at `from` yields: the lexeme's category with the
/// text that the lexeme covers.
pub open spec fn token_at(text: Seq<char>, from: int) -> TokenView {
    let lexeme = lexeme_at(text, from);
    TokenView { kind: lexeme.kind, literal: text.subrange(lexeme.start, lexeme.end) }
}

/// The tokens from a cursor at `from` up to the end of input, the
/// end-of-input token left out.
pub open spec fn tokens_from(text: Seq<char>, from: int) -> Seq<TokenView>
    decreases text.len() - from,
    via tokens_from_decreases
{
    let lexeme = lexeme_at(text, from);
    if lexeme.kind == TokenType::EOF {
        Seq::empty()
    } else {
        seq![token_at(text, from)] + tokens_from(text, lexeme.end)
    }
}

#[via_fn]
proof fn tokens_from_decreases(text: Seq<char>, from: int) {
    lemma_lexeme_bounds(text, from);
}

/// A run ends at or after its start and within the text (or where it
/// started, beyond it); it holds only characters of its class, and the
/// character that follows it is of another class.
pub proof fn lemma_run_end(text: Seq<char>, from: int, class: CharClass)
    ensures
        from <= run_end(text, from, class),
        0 <= from <= text.len() ==> run_end(text, from, class) <= text.len(),
        forall|i: int| from <= i < run_end(text, from, class) ==> in_class(#[trigger] text[i], class),
        0 <= run_end(text, from, class) < text.len() ==> !in_class(
            text[run_end(text, from, class)],
            class,
        ),
    decreases text.len() - from,
{
    if 0 <= from < text.len() && in_class(text[from], class) {
        lemma_run_end(text, from + 1, class);
    }
}

/// A lexeme lies at or after the cursor; unless it is the end of input it
/// is not empty, so the cursor moves forward.
pub proof fn lemma_lexeme_bounds(text: Seq<char>, from: int)
    ensures
        from <= lexeme_at(text, from).start <= lexeme_at(text, from).end,
        0 <= from <= text.len() ==> lexeme_at(text, from).end <= text.len(),
        lexeme_at(text, from).kind != TokenType::EOF ==> lexeme_at(text, from).start < lexeme_at(
            text,
            from,
        ).end,
        lexeme_at(text, from).kind != TokenType::EOF ==> 0 <= lexeme_at(text, from).start
            < text.len(),
{
    let start = run_end(text, from, CharClass::Space);
    lemma_run_end(text, from, CharClass::Space);
    if 0 <= start < text.len() {
        lemma_run_end(text, start, CharClass::Letter);
        lemma_run_end(text, start, CharClass::Digit);
        lemma_keyword_kind_is_not_end(text.subrange(start, run_end(text, start, CharClass::Letter)));
    }
}

/// No word is classified as the end of input or as an illegal token.
pub proof fn lemma_keyword_kind_is_not_end(word: Seq<char>)
    ensures
        keyword_kind(word) != TokenType::EOF,
        keyword_kind(word) != TokenType::ILLEGAL,
{
}

/// A cursor over source text.
#[derive(Debug)]
pub struct Lexer {
    input: String,
    length: usize,
    position: usize,
    ch: Option<char>,
}

impl Clone for Lexer {
    fn clone(&self) -> (copy: Lexer)
        ensures
            copy.wf() == self.wf(),
            copy.source() == self.source(),
            copy.cursor() == self.cursor(),
    {
        Lexer {
            input: self.input.clone(),
            length: self.length,
            position: self.position,
            ch: self.ch,
        }
    }
}

impl Lexer {
    /// The text that is tokenized.
    pub closed spec fn source(&self) -> Seq<char> {
        self.input@
    }

    /// The position of the character under the cursor; the length of the
    /// text when no input is left.
    pub closed spec fn cursor(&self) -> int {
        self.position as int
    }

    /// The cursor lies within the text or at its end, and the lexer holds
    /// the character under it.
    pub closed spec fn wf(&self) -> bool {
        &&& self.length == self.input@.len()
        &&& self.position <= self.length
        &&& self.ch == if self.position < self.length {
            Some(self.input@[self.position as int])
        } else {
            None::<char>
        }
    }

    /// The tokens that are still to come, the end-of-input token left out.
    pub open spec fn remaining(&self) -> Seq<TokenView> {
        tokens_from(self.source(), self.cursor())
    }

    /// A lexer at the start of `input`.
    pub fn new(input: &str) -> (lexer: Lexer)
        ensures
            lexer.wf(),
            lexer.source() == input@,
            lexer.cursor() == 0,
    {
        let length: usize = input.unicode_len();
        let ch = if 0 < length {
            Some(input.get_char(0))
        } else {
            None
        };
        Lexer { input: String::from_str(input), length, position: 0, ch }
    }

    /// Returns the next token and moves the cursor behind it. At the end of
    /// input it returns the end-of-input token and the cursor stays.
    pub fn next_token(&mut self) -> (tok: Token)
        requires
            old(self).wf(),
        ensures
            final(self).wf(),
            final(self).source() == old(self).source(),
            tok@ == token_at(old(self).source(), old(self).cursor()),
            final(self).cursor() == lexeme_at(old(self).source(), old(self).cursor()).end,
            old(self).cursor() <= final(self).cursor() <= old(self).source().len(),
            tok.token_type == TokenType::EOF ==> tok@ == end_token(),
            tok.token_type == TokenType::EOF ==> old(self).remaining() == Seq::<TokenView>::empty(),
            tok.token_type == TokenType::EOF ==> final(self).remaining() == Seq::<TokenView>::empty(),
            tok.token_type != TokenType::EOF ==> old(self).remaining() == seq![tok@]
                + final(self).remaining(),
    {
        let ghost text = self.source();
        let ghost from = self.cursor();
        self.skip_whitespace();
        let start: usize = self.position;
        proof {
            lemma_run_end(text, from, CharClass::Space);
            lemma_run_end(text, start as int, CharClass::Space);
            lemma_lexeme_bounds(text, from);
        }
        let c = match self.ch {
            None => {
                assert(text.subrange(start as int, start as int) == Seq::<char>::empty());
                return Token { token_type: TokenType::EOF, literal: String::new() };
            },
            Some(c) => c,
        };
        let tok = match c {
            '=' => {
                if is_char(self.peek_char(), '=') {
                    self.read_char();
                    self.read_char();
                    new_token(TokenType::EQ, self.input.as_str().substring_char(start, start + 2))
                } else {
                    self.read_char();
                    new_token(
                        TokenType::ASSIGN,
                        self.input.as_str().substring_char(start, start + 1),
                    )
                }
            },
            '!' => {
                if is_char(self.peek_char(), '=') {
                    self.read_char();
                    self.read_char();
                    new_token(
                        TokenType::NOTEQ,
                        self.input.as_str().substring_char(start, start + 2),
                    )
                } else {
                    self.read_char();
                    new_token(TokenType::BANG, self.input.as_str().substring_char(start, start + 1))
                }
            },
            _ => {
                if is_letter(c) {
                    let literal = self.read_identifier();
                    let token_type = lookup_ident(literal.as_str());
                    Token { token_type, literal }
                } else if is_digit(c) {
                    let literal = self.read_number();
                    Token { token_type: TokenType::INT, literal }
                } else {
                    let token_type = match c {
                        '+' => TokenType::PLUS,
                        '-' => TokenType::MINUS,
                        '/' => TokenType::SLASH,
                        '*' => TokenType::ASTERISK,
                        '<' => TokenType::LT,
                        '>' => TokenType::GT,
                        ';' => TokenType::SEMICOLON,
                        ',' => TokenType::COMMA,
                        '{' => TokenType::LBRACE,
                        '}' => TokenType::RBRACE,
                        '(' => TokenType::LPAREN,
                        ')' => TokenType::RPAREN,
                        _ => TokenType::ILLEGAL,
                    };
                    self.read_char();
                    new_token(token_type, self.input.as_str().substring_char(start, start + 1))
                }
            },
        };
        tok
    }

    /// Moves the cursor one character forward, unless no input is left.
    fn read_char(&mut self)
        requires
            old(self).wf(),
        ensures
            final(self).wf(),
            final(self).source() == old(self).source(),
            final(self).cursor() == if old(self).cursor() < old(self).source().len() {
                old(self).cursor() + 1
            } else {
                old(self).cursor()
            },
    {
        if self.position < self.length {
            self.position += 1;
        }
        self.ch = if self.position < self.length {
            Some(self.input.as_str().get_char(self.position))
        } else {
            None
        };
    }

    /// The character behind the one under the cursor, if there is one.
    fn peek_char(&self) -> (next: Option<char>)
        requires
            self.wf(),
        ensures
            next == if self.cursor() + 1 < self.source().len() {
                Some(self.source()[self.cursor() + 1])
            } else {
                None::<char>
            },
    {
        if self.position < self.length && self.position + 1 < self.length {
            Some(self.input.as_str().get_char(self.position + 1))
        } else {
            None
        }
    }

    /// Moves the cursor behind the run of characters of `class` under it.
    fn skip_run(&mut self, class: CharClass)
        requires
            old(self).wf(),
        ensures
            final(self).wf(),
            final(self).source() == old(self).source(),
            final(self).cursor() == run_end(old(self).source(), old(self).cursor(), class),
    {
        while in_run(self.ch, class)
            invariant
                self.wf(),
                self.source() == old(self).source(),
                run_end(self.source(), self.cursor(), class) == run_end(
                    old(self).source(),
                    old(self).cursor(),
                    class,
                ),
            decreases self.source().len() - self.cursor(),
        {
            self.read_char();
        }
    }

    /// Moves the cursor behind the whitespace under it.
    fn skip_whitespace(&mut self)
        requires
            old(self).wf(),
        ensures
            final(self).wf(),
            final(self).source() == old(self).source(),
            final(self).cursor() == run_end(
                old(self).source(),
                old(self).cursor(),
                CharClass::Space,
            ),
    {
        self.skip_run(CharClass::Space);
    }

    /// Reads the longest run of letters under the cursor.
    fn read_identifier(&mut self) -> (word: String)
        requires
            old(self).wf(),
        ensures
            final(self).wf(),
            final(self).source() == old(self).source(),
            final(self).cursor() == run_end(
                old(self).source(),
                old(self).cursor(),
                CharClass::Letter,
            ),
            word@ == old(self).source().subrange(old(self).cursor(), final(self).cursor()),
    {
        let position: usize = self.position;
        self.skip_run(CharClass::Letter);
        proof {
            lemma_run_end(self.source(), position as int, CharClass::Letter);
        }
        String::from_str(self.input.as_str().substring_char(position, self.position))
    }

    /// Reads the longest run of digits under the cursor.
    fn read_number(&mut self) -> (digits: String)
        requires
            old(self).wf(),
        ensures
            final(self).wf(),
            final(self).source() == old(self).source(),
            final(self).cursor() == run_end(
                old(self).source(),
                old(self).cursor(),
                CharClass::Digit,
            ),
            digits@ == old(self).source().subrange(old(self).cursor(), final(self).cursor()),
    {
        let position: usize = self.position;
        self.skip_run(CharClass::Digit);
        proof {
            lemma_run_end(self.source(), position as int, CharClass::Digit);
        }
        String::from_str(self.input.as_str().substring_char(position, self.position))
    }
}

/// A token of the given category over the given text.
fn new_token(token_type: TokenType, text: &str) -> (tok: Token)
    ensures
        tok@ == (TokenView { kind: token_type, literal: text@ }),
{
    Token { token_type, literal: String::from_str(text) }
}

/// Whether `next` holds the character `c`.
fn is_char(next: Option<char>, c: char) -> (same: bool)
    ensures
        same == (next == Some(c)),
{
    match next {
        Some(found) => found == c,
        None => false,
    }
}

/// Whether the cursor's character continues a run of `class`.
fn in_run(ch: Option<char>, class: CharClass) -> (inside: bool)
    ensures
        inside == (ch is Some && in_class(ch->0, class)),
{
    match ch {
        Some(c) => match class {
            CharClass::Space => is_whitespace(c),
            CharClass::Letter => is_letter(c),
            CharClass::Digit => is_digit(c),
        },
        None => false,
    }
}

/// Whether `ch` is ASCII whitespace.
fn is_whitespace(ch: char) -> (space: bool)
    ensures
        space == is_space_char(ch),
{
    ch == ' ' || ch == '\t' || ch == '\n' || ch == '\x0C' || ch == '\r'
}

/// Whether `ch` may stand in an identifier.
fn is_letter(ch: char) -> (letter: bool)
    ensures
        letter == is_letter_char(ch),
{
    ('a' <= ch && ch <= 'z') || ('A' <= ch && ch <= 'Z') || ch == '_'
}

/// Whether `ch` is a decimal digit.
fn is_digit(ch: char) -> (digit: bool)
    ensures
        digit == is_digit_char(ch),
{
    '0' <= ch && ch <= '9'
}

/// The views of a sequence of tokens, in order.
pub open spec fn token_views(toks: Seq<Token>) -> Seq<TokenView> {
    toks.map_values(|tok: Token| tok@)
}

/// Tokenizes `source` from its start to its end and returns the tokens in
/// source order, the end-of-input token left out.
pub fn tokenize(source: &str) -> (toks: Vec<Token>)
    ensures
        token_views(toks@) == tokens_from(source@, 0),
{
    let mut lexer = Lexer::new(source);
    let mut toks: Vec<Token> = Vec::new();
    let mut tok = lexer.next_token();
    while tok.token_type != TokenType::EOF
        invariant
            lexer.wf(),
            tok.token_type == TokenType::EOF ==> lexer.remaining() == Seq::<TokenView>::empty(),
            tokens_from(source@, 0) == token_views(toks@) + if tok.token_type == TokenType::EOF {
                Seq::<TokenView>::empty()
            } else {
                seq![tok@] + lexer.remaining()
            },
        decreases lexer.remaining().len() + if tok.token_type == TokenType::EOF { 0int } else { 1 },
    {
        let ghost taken = token_views(toks@);
        let ghost head = tok@;
        toks.push(tok);
        assert(token_views(toks@) == taken.push(head));
        tok = lexer.next_token();
        assert(tokens_from(source@, 0) == token_views(toks@) + if tok.token_type
            == TokenType::EOF {
            Seq::<TokenView>::empty()
        } else {
            seq![tok@] + lexer.remaining()
        });
    }
    assert(token_views(toks@) + Seq::<TokenView>::empty() == token_views(toks@));
    toks
}

/// Tokenizing is a function of the text and the cursor alone: two lexers
/// over the same characters at the same position yield the same next token
/// and the same tokens after it.
pub proof fn lemma_tokenization_is_deterministic(first: Lexer, second: Lexer)
    requires
        first.source() == second.source(),
        first.cursor() == second.cursor(),
    ensures
        token_at(first.source(), first.cursor()) == token_at(second.source(), second.cursor()),
        first.remaining() == second.remaining(),
{
}

/// Tokenizing ends: every token before the end of input covers at least
/// one character, so a text yields at most as many tokens as it has
/// characters behind the cursor, and none of them is the end-of-input
/// token.
pub proof fn lemma_tokens_are_bounded(text: Seq<char>, from: int)
    requires
        0 <= from <= text.len(),
    ensures
        tokens_from(text, from).len() <= text.len() - from,
        forall|i: int|
            0 <= i < tokens_from(text, from).len() ==> (#[trigger] tokens_from(text, from)[i]).kind
                != TokenType::EOF && tokens_from(text, from)[i].literal.len() > 0,
    decreases text.len() - from,
{
    let lexeme = lexeme_at(text, from);
    lemma_lexeme_bounds(text, from);
    if lexeme.kind != TokenType::EOF {
        lemma_tokens_are_bounded(text, lexeme.end);
    }
}

/// A text of one character yields no token where the character is
/// whitespace, and otherwise exactly one token, whose literal is that
/// character.
pub proof fn lemma_single_character(c: char)
    ensures
        is_space_char(c) ==> tokens_from(seq![c], 0) == Seq::<TokenView>::empty(),
        !is_space_char(c) ==> tokens_from(seq![c], 0) == seq![token_at(seq![c], 0)] && token_at(
            seq![c],
            0,
        ).literal == seq![c] && token_at(seq![c], 0).kind != TokenType::EOF,
{
    let text = seq![c];
    reveal_with_fuel(run_end, 3);
    reveal_with_fuel(tokens_from, 2);
    lemma_lexeme_bounds(text, 0);
    lemma_lexeme_bounds(text, 1);
    if !is_space_char(c) {
        assert(text.subrange(0, 1) == text);
        assert(tokens_from(text, 1) == Seq::<TokenView>::empty());
        assert(seq![token_at(text, 0)] + Seq::<TokenView>::empty() == seq![token_at(text, 0)]);
    }
}

/// Runs are taken whole. An integer token covers digits only and no digit
/// follows it; a lexeme that starts with a letter covers letters only, no
/// letter follows it, and its category is that of the whole word.
pub proof fn lemma_runs_are_maximal(text: Seq<char>, from: int)
    requires
        0 <= from <= text.len(),
    ensures
        ({
            let lexeme = lexeme_at(text, from);
            &&& lexeme.kind == TokenType::INT ==> {
                &&& forall|i: int| lexeme.start <= i < lexeme.end ==> is_digit_char(#[trigger] text[i])
                &&& lexeme.end < text.len() ==> !is_digit_char(text[lexeme.end])
            }
            &&& lexeme.kind != TokenType::EOF && is_letter_char(text[lexeme.start]) ==> {
                &&& lexeme.kind == keyword_kind(token_at(text, from).literal)
                &&& forall|i: int|
                    lexeme.start <= i < lexeme.end ==> is_letter_char(#[trigger] text[i])
                &&& lexeme.end < text.len() ==> !is_letter_char(text[lexeme.end])
            }
        }),
{
    let start = run_end(text, from, CharClass::Space);
    lemma_run_end(text, from, CharClass::Space);
    if 0 <= start < text.len() {
        lemma_run_end(text, start, CharClass::Letter);
        lemma_run_end(text, start, CharClass::Digit);
        lemma_keyword_kind_is_not_end(text.subrange(start, run_end(text, start, CharClass::Letter)));
    }
}

/// The end of input is stable: where a cursor yields the end-of-input
/// token, the cursor behind that token yields it again.
pub proof fn lemma_end_is_stable(text: Seq<char>, from: int)
    requires
        0 <= from <= text.len(),
        lexeme_at(text, from).kind == TokenType::EOF,
    ensures
        token_at(text, from) == end_token(),
        lexeme_at(text, lexeme_at(text, from).end) == lexeme_at(text, from),
{
    lemma_run_end(text, from, CharClass::Space);
    let end = lexeme_at(text, from).end;
    assert(text.subrange(end, end) == Seq::<char>::empty());
}

} // verus!
