//! The scanner: source text to tokens.
use crate::lox::error::{LoxError, LoxErrorView};
use crate::lox::number::{all_digits, find_char, is_decimal_literal, is_digit, decimal_bits, Number};
use crate::lox::text::{chars_of, nat_string, nat_text, push_char, same_text};
use crate::lox::token::{tokens_view, Token, TokenView};
use crate::lox::token_type::{LiteralValue, LiteralView, TokenType};
use vstd::prelude::*;

verus! {

/// Whether a character may start a word: an ASCII letter or `_`.
pub open spec fn is_alpha(c: char) -> bool {
    ('a' <= c && c <= 'z') || ('A' <= c && c <= 'Z') || c == '_'
}

/// Whether a character may stand in a word: an ASCII letter, a digit or
/// `_`.
pub open spec fn is_alphanumeric(c: char) -> bool {
    is_alpha(c) || is_digit(c)
}

/// The line after `line`. Lines are counted no further than a `usize`
/// counts.
pub open spec fn bump(line: nat) -> nat {
    if line < usize::MAX {
        line + 1
    } else {
        line
    }
}

/// The line reached after the character `c`.
pub open spec fn line_after(c: char, line: nat) -> nat {
    if c == '\n' {
        bump(line)
    } else {
        line
    }
}

/// End of the run of digits that starts at `pos`.
pub open spec fn digits_end(src: Seq<char>, pos: int) -> int
    decreases src.len() - pos,
{
    if 0 <= pos < src.len() && is_digit(src[pos]) {
        digits_end(src, pos + 1)
    } else {
        pos
    }
}

/// End of the run of letters, digits and underscores that starts at `pos`.
pub open spec fn identifier_end(src: Seq<char>, pos: int) -> int
    decreases src.len() - pos,
{
    if 0 <= pos < src.len() && is_alphanumeric(src[pos]) {
        identifier_end(src, pos + 1)
    } else {
        pos
    }
}

/// End of the number literal that starts at `pos`: digits, and a fraction
/// only where a digit follows the dot.
pub open spec fn number_end(src: Seq<char>, pos: int) -> int {
    let whole = digits_end(src, pos);
    if whole + 1 < src.len() && src[whole] == '.' && is_digit(src[whole + 1]) {
        digits_end(src, whole + 1)
    } else {
        whole
    }
}

/// Where a string body that starts at `pos` ends, and the line reached
/// there: at the closing quote, or at the end of the input.
pub open spec fn string_end(src: Seq<char>, pos: int, line: nat) -> (int, nat)
    decreases src.len() - pos,
{
    if pos < 0 || pos >= src.len() {
        (src.len() as int, line)
    } else if src[pos] == '"' {
        (pos, line)
    } else {
        string_end(src, pos + 1, line_after(src[pos], line))
    }
}

/// Where a block comment ends of which `depth` levels are open at `pos`,
/// with the line reached and the levels still open there.
pub open spec fn comment_end(src: Seq<char>, pos: int, depth: nat, line: nat) -> (int, nat, nat)
    decreases src.len() - pos,
{
    if depth == 0 || pos < 0 || pos >= src.len() {
        (pos, line, depth)
    } else if pos + 1 < src.len() && src[pos] == '/' && src[pos + 1] == '*' {
        comment_end(src, pos + 2, depth + 1, line)
    } else if pos + 1 < src.len() && src[pos] == '*' && src[pos + 1] == '/' {
        comment_end(src, pos + 2, (depth - 1) as nat, line)
    } else {
        comment_end(src, pos + 1, depth, line_after(src[pos], line))
    }
}

/// The kind of a word: that of the keyword it is, else an identifier.
pub open spec fn word_kind(text: Seq<char>) -> TokenType {
    if text == "and"@ {
        TokenType::And
    } else if text == "class"@ {
        TokenType::Class
    } else if text == "else"@ {
        TokenType::Else
    } else if text == "false"@ {
        TokenType::False
    } else if text == "for"@ {
        TokenType::For
    } else if text == "fun"@ {
        TokenType::Fun
    } else if text == "if"@ {
        TokenType::If
    } else if text == "nil"@ {
        TokenType::Nil
    } else if text == "or"@ {
        TokenType::Or
    } else if text == "print"@ {
        TokenType::Print
    } else if text == "return"@ {
        TokenType::Return
    } else if text == "super"@ {
        TokenType::Super
    } else if text == "this"@ {
        TokenType::This
    } else if text == "true"@ {
        TokenType::True
    } else if text == "var"@ {
        TokenType::Var
    } else if text == "while"@ {
        TokenType::While
    } else {
        TokenType::Identifier
    }
}

/// The message of a string or comment that the input ends in.
pub open spec fn unterminated_text(line: nat) -> Seq<char> {
    "Unterminated string literal at line "@ + nat_text(line) + "."@
}

/// What one step of the scanner finds.
pub enum Lexeme {
    Token(TokenView),
    /// White space or a comment.
    Skip,
    Error(LoxErrorView),
}

/// One step of the scanner: what it finds, where the next step starts,
/// and on which line.
pub struct Step {
    pub found: Lexeme,
    pub next: int,
    pub line: nat,
}

/// A token without a value, made of the characters from `start` to `end`.
pub open spec fn plain(kind: TokenType, src: Seq<char>, start: int, end: int, line: nat) -> Step {
    Step {
        found: Lexeme::Token(
            TokenView { token_type: kind, lexeme: src.subrange(start, end), literal: None, line },
        ),
        next: end,
        line,
    }
}

/// A one-character operator, or its two-character form where `=` follows.
pub open spec fn paired(
    short: TokenType,
    long: TokenType,
    src: Seq<char>,
    pos: int,
    line: nat,
) -> Step {
    if pos + 1 < src.len() && src[pos + 1] == '=' {
        plain(long, src, pos, pos + 2, line)
    } else {
        plain(short, src, pos, pos + 1, line)
    }
}

/// The step that starts with a slash: a comment or a division sign.
pub open spec fn slash(src: Seq<char>, pos: int, line: nat) -> Step {
    if pos + 1 < src.len() && src[pos + 1] == '/' {
        Step { found: Lexeme::Skip, next: find_char(src, '\n', pos + 2), line }
    } else if pos + 1 < src.len() && src[pos + 1] == '*' {
        let (end, reached, open) = comment_end(src, pos + 2, 1, line);
        if open > 0 {
            Step {
                found: Lexeme::Error(LoxErrorView::UnterminatedString(unterminated_text(reached))),
                next: end,
                line: reached,
            }
        } else {
            Step { found: Lexeme::Skip, next: end, line: reached }
        }
    } else {
        plain(TokenType::Slash, src, pos, pos + 1, line)
    }
}

/// The step that starts with a double quote.
pub open spec fn string(src: Seq<char>, pos: int, line: nat) -> Step {
    let (end, reached) = string_end(src, pos + 1, line);
    if end >= src.len() {
        Step {
            found: Lexeme::Error(LoxErrorView::UnterminatedString(unterminated_text(reached))),
            next: end,
            line: reached,
        }
    } else {
        Step {
            found: Lexeme::Token(
                TokenView {
                    token_type: TokenType::StringLit,
                    lexeme: src.subrange(pos, end + 1),
                    literal: Some(LiteralView::String(src.subrange(pos + 1, end))),
                    line: reached,
                },
            ),
            next: end + 1,
            line: reached,
        }
    }
}

/// The step that starts with a digit.
pub open spec fn number(src: Seq<char>, pos: int, line: nat) -> Step {
    let end = number_end(src, pos);
    let text = src.subrange(pos, end);
    Step {
        found: Lexeme::Token(
            TokenView {
                token_type: TokenType::Number,
                lexeme: text,
                literal: Some(LiteralView::Number(decimal_bits(text).unwrap())),
                line,
            },
        ),
        next: end,
        line,
    }
}

/// The step that starts with a letter or an underscore.
pub open spec fn identifier(src: Seq<char>, pos: int, line: nat) -> Step {
    let end = identifier_end(src, pos);
    plain(word_kind(src.subrange(pos, end)), src, pos, end, line)
}

/// The step of the scanner at `pos`, which lies inside the source.
pub open spec fn step_at(src: Seq<char>, pos: int, line: nat) -> Step {
    let c = src[pos];
    if c == '(' {
        plain(TokenType::LeftParen, src, pos, pos + 1, line)
    } else if c == ')' {
        plain(TokenType::RightParen, src, pos, pos + 1, line)
    } else if c == '{' {
        plain(TokenType::LeftBrace, src, pos, pos + 1, line)
    } else if c == '}' {
        plain(TokenType::RightBrace, src, pos, pos + 1, line)
    } else if c == ',' {
        plain(TokenType::Comma, src, pos, pos + 1, line)
    } else if c == '.' {
        plain(TokenType::Dot, src, pos, pos + 1, line)
    } else if c == '-' {
        plain(TokenType::Minus, src, pos, pos + 1, line)
    } else if c == '+' {
        plain(TokenType::Plus, src, pos, pos + 1, line)
    } else if c == ';' {
        plain(TokenType::Semicolon, src, pos, pos + 1, line)
    } else if c == '*' {
        plain(TokenType::Star, src, pos, pos + 1, line)
    } else if c == '%' {
        plain(TokenType::Percent, src, pos, pos + 1, line)
    } else if c == '!' {
        paired(TokenType::Bang, TokenType::BangEqual, src, pos, line)
    } else if c == '=' {
        paired(TokenType::Equal, TokenType::EqualEqual, src, pos, line)
    } else if c == '<' {
        paired(TokenType::Less, TokenType::LessEqual, src, pos, line)
    } else if c == '>' {
        paired(TokenType::Greater, TokenType::GreaterEqual, src, pos, line)
    } else if c == '/' {
        slash(src, pos, line)
    } else if c == '"' {
        string(src, pos, line)
    } else if c == ' ' || c == '\r' || c == '\t' {
        Step { found: Lexeme::Skip, next: pos + 1, line }
    } else if c == '\n' {
        Step { found: Lexeme::Skip, next: pos + 1, line: bump(line) }
    } else if is_digit(c) {
        number(src, pos, line)
    } else if is_alpha(c) {
        identifier(src, pos, line)
    } else {
        Step { found: Lexeme::Error(LoxErrorView::UnexpectedCharacter(c)), next: pos + 1, line }
    }
}

/// The token that ends every token sequence.
pub open spec fn end_of_file(line: nat) -> TokenView {
    TokenView { token_type: TokenType::Eof, lexeme: Seq::empty(), literal: None, line }
}

/// The tokens of the source from `pos` on, after those of `done`: steps
/// are taken until the input ends or one fails; then the end-of-file token
/// follows.
pub open spec fn scan_from(src: Seq<char>, pos: int, line: nat, done: Seq<TokenView>) -> Result<
    Seq<TokenView>,
    LoxErrorView,
>
    decreases src.len() - pos,
{
    if pos < 0 || pos >= src.len() {
        Ok(done.push(end_of_file(line)))
    } else {
        let step = step_at(src, pos, line);
        let next = if pos < step.next <= src.len() {
            step.next
        } else {
            pos + 1
        };
        match step.found {
            Lexeme::Error(e) => Err(e),
            Lexeme::Skip => scan_from(src, next, step.line, done),
            Lexeme::Token(t) => scan_from(src, next, step.line, done.push(t)),
        }
    }
}

/// The tokens of a source text, or the first error in it.
pub open spec fn scan(src: Seq<char>) -> Result<Seq<TokenView>, LoxErrorView> {
    scan_from(src, 0, 1, Seq::empty())
}


/// The scanner of one source text.
pub struct Scanner {
    source: Vec<char>,
    tokens: Vec<Token>,
    start: usize,
    current: usize,
    line: usize,
}

/// The mathematical content of a `Scanner`: the source, the tokens found
/// so far, and the place and line at which scanning goes on.
pub struct ScannerView {
    pub source: Seq<char>,
    pub tokens: Seq<TokenView>,
    pub current: nat,
    pub line: nat,
}

impl View for Scanner {
    type V = ScannerView;

    closed spec fn view(&self) -> ScannerView {
        ScannerView {
            source: self.source@,
            tokens: tokens_view(self.tokens@),
            current: self.current as nat,
            line: self.line as nat,
        }
    }
}

/// The character at `pos`, or the null character past the end.
pub open spec fn char_at(src: Seq<char>, pos: int) -> char {
    if 0 <= pos < src.len() {
        src[pos]
    } else {
        '\0'
    }
}

fn keyword_kind(text: &str) -> (r: TokenType)
    ensures
        r == word_kind(text@),
{
    if same_text(text, "and") {
        TokenType::And
    } else if same_text(text, "class") {
        TokenType::Class
    } else if same_text(text, "else") {
        TokenType::Else
    } else if same_text(text, "false") {
        TokenType::False
    } else if same_text(text, "for") {
        TokenType::For
    } else if same_text(text, "fun") {
        TokenType::Fun
    } else if same_text(text, "if") {
        TokenType::If
    } else if same_text(text, "nil") {
        TokenType::Nil
    } else if same_text(text, "or") {
        TokenType::Or
    } else if same_text(text, "print") {
        TokenType::Print
    } else if same_text(text, "return") {
        TokenType::Return
    } else if same_text(text, "super") {
        TokenType::Super
    } else if same_text(text, "this") {
        TokenType::This
    } else if same_text(text, "true") {
        TokenType::True
    } else if same_text(text, "var") {
        TokenType::Var
    } else if same_text(text, "while") {
        TokenType::While
    } else {
        TokenType::Identifier
    }
}

fn digit(c: char) -> (r: bool)
    ensures
        r == is_digit(c),
{
    c >= '0' && c <= '9'
}

fn alphanumeric(c: char) -> (r: bool)
    ensures
        r == is_alphanumeric(c),
{
    (c >= 'a' && c <= 'z') || (c >= 'A' && c <= 'Z') || c == '_' || (c >= '0' && c <= '9')
}

fn unterminated(line: usize) -> (r: LoxError)
    ensures
        r@ == LoxErrorView::UnterminatedString(unterminated_text(line as nat)),
{
    let mut text = String::from_str("Unterminated string literal at line ");
    text.append(nat_string(line as u64).as_str());
    text.append(".");
    LoxError::UnterminatedString(text)
}

impl Scanner {
    /// The scanner is inside its source.
    pub closed spec fn wf(&self) -> bool {
        self.start <= self.current <= self.source.len()
    }

    /// A scanner at the start of `source`, on line 1.
    pub fn new(source: &str) -> (r: Scanner)
        ensures
            r.wf(),
            r@ == (ScannerView { source: source@, tokens: Seq::empty(), current: 0, line: 1 }),
    {
        let r = Scanner { source: chars_of(source), tokens: Vec::new(), start: 0, current: 0, line: 1 };
        assert(r@.tokens =~= Seq::empty());
        r
    }

    fn is_at_end(&self) -> (r: bool)
        ensures
            r == (self.current >= self.source.len()),
    {
        self.current >= self.source.len()
    }

    fn peek(&self) -> (c: char)
        ensures
            c == char_at(self.source@, self.current as int),
    {
        if self.is_at_end() {
            '\0'
        } else {
            self.source[self.current]
        }
    }

    fn peek_next(&self) -> (c: char)
        requires
            self.current <= self.source.len(),
        ensures
            c == char_at(self.source@, self.current + 1),
    {
        if self.source.len() - self.current <= 1 {
            '\0'
        } else {
            self.source[self.current + 1]
        }
    }

    fn advance(&mut self) -> (c: char)
        requires
            old(self).current < old(self).source.len(),
        ensures
            c == old(self).source@[old(self).current as int],
            final(self).current == old(self).current + 1,
            final(self).source == old(self).source,
            final(self).tokens == old(self).tokens,
            final(self).start == old(self).start,
            final(self).line == old(self).line,
    {
        let c = self.source[self.current];
        self.current += 1;
        c
    }

    fn match_char(&mut self, expected: char) -> (r: bool)
        requires
            old(self).current <= old(self).source.len(),
        ensures
            r == (old(self).current < old(self).source.len() && old(self).source@[old(
                self,
            ).current as int] == expected),
            final(self).current == if r {
                old(self).current + 1
            } else {
                old(self).current as int
            },
            final(self).source == old(self).source,
            final(self).tokens == old(self).tokens,
            final(self).start == old(self).start,
            final(self).line == old(self).line,
    {
        if self.is_at_end() {
            return false;
        }
        if self.source[self.current] != expected {
            return false;
        }
        self.current += 1;
        true
    }

    fn next_line(&mut self)
        ensures
            final(self).line == bump(old(self).line as nat),
            final(self).current == old(self).current,
            final(self).source == old(self).source,
            final(self).tokens == old(self).tokens,
            final(self).start == old(self).start,
    {
        if self.line < usize::MAX {
            self.line += 1;
        }
    }

    /// The characters from `from` to `to`.
    fn text(&self, from: usize, to: usize) -> (r: String)
        requires
            from <= to <= self.source.len(),
        ensures
            r@ == self.source@.subrange(from as int, to as int),
    {
        let mut r = String::new();
        let mut i = from;
        while i < to
            invariant
                from <= i <= to <= self.source.len(),
                r@ == self.source@.subrange(from as int, i as int),
            decreases to - i,
        {
            push_char(&mut r, self.source[i]);
            i += 1;
            assert(r@ =~= self.source@.subrange(from as int, i as int));
        }
        r
    }

    fn add_token(&mut self, token_type: TokenType)
        requires
            old(self).wf(),
        ensures
            final(self).wf(),
            final(self)@ == (ScannerView {
                tokens: old(self)@.tokens.push(
                    TokenView {
                        token_type,
                        lexeme: old(self).source@.subrange(
                            old(self).start as int,
                            old(self).current as int,
                        ),
                        literal: None,
                        line: old(self).line as nat,
                    },
                ),
                ..old(self)@
            }),
            final(self).start == old(self).start,
            final(self).source == old(self).source,
    {
        let text = self.text(self.start, self.current);
        self.tokens.push(Token::new(token_type, text, None, self.line));
        assert(final(self)@.tokens =~= old(self)@.tokens.push(
            TokenView {
                token_type,
                lexeme: old(self).source@.subrange(old(self).start as int, old(self).current as int),
                literal: None,
                line: old(self).line as nat,
            },
        ));
    }

    fn add_token_with_literal(&mut self, token_type: TokenType, literal: LiteralValue)
        requires
            old(self).wf(),
        ensures
            final(self).wf(),
            final(self)@ == (ScannerView {
                tokens: old(self)@.tokens.push(
                    TokenView {
                        token_type,
                        lexeme: old(self).source@.subrange(
                            old(self).start as int,
                            old(self).current as int,
                        ),
                        literal: Some(literal@),
                        line: old(self).line as nat,
                    },
                ),
                ..old(self)@
            }),
            final(self).start == old(self).start,
            final(self).source == old(self).source,
    {
        let text = self.text(self.start, self.current);
        self.tokens.push(Token::new(token_type, text, Some(literal), self.line));
        assert(final(self)@.tokens =~= old(self)@.tokens.push(
            TokenView {
                token_type,
                lexeme: old(self).source@.subrange(old(self).start as int, old(self).current as int),
                literal: Some(literal@),
                line: old(self).line as nat,
            },
        ));
    }

    /// What `step` says of a step from `before` to `self` that went well.
    spec fn took(&self, before: &Scanner, step: Step) -> bool {
        &&& self.wf()
        &&& self.source == before.source
        &&& self.current == step.next
        &&& self.line == step.line
        &&& before.current <= self.current
        &&& self.start == before.start
        &&& match step.found {
            Lexeme::Token(t) => self@.tokens == before@.tokens.push(t),
            Lexeme::Skip => self@.tokens == before@.tokens,
            Lexeme::Error(_) => false,
        }
    }

    /// What `step` says of a step from `before` to `self` that failed.
    spec fn failed(&self, before: &Scanner, step: Step, error: LoxError) -> bool {
        &&& self.wf()
        &&& self.source == before.source
        &&& self@.tokens == before@.tokens
        &&& step.found == Lexeme::Error(error@)
    }

    /// A string literal, after its opening quote.
    fn string(&mut self) -> (r: Result<(), LoxError>)
        requires
            old(self).wf(),
            old(self).start + 1 == old(self).current,
            old(self).source@[old(self).start as int] == '"',
        ensures
            match r {
                Ok(()) => final(self).took(
                    old(self),
                    string(old(self).source@, old(self).start as int, old(self).line as nat),
                ),
                Err(e) => final(self).failed(
                    old(self),
                    string(old(self).source@, old(self).start as int, old(self).line as nat),
                    e,
                ),
            },
    {
        while !self.is_at_end() && self.peek() != '"'
            invariant
                self.wf(),
                self.source == old(self).source,
                self.tokens == old(self).tokens,
                self.start == old(self).start,
                self.start < self.current,
                old(self).current <= self.current,
                string_end(self.source@, self.start + 1, old(self).line as nat) == string_end(
                    self.source@,
                    self.current as int,
                    self.line as nat,
                ),
            decreases self.source.len() - self.current,
        {
            if self.peek() == '\n' {
                self.next_line();
            }
            self.advance();
        }
        if self.is_at_end() {
            return Err(unterminated(self.line));
        }
        self.advance();
        let value = self.text(self.start + 1, self.current - 1);
        self.add_token_with_literal(TokenType::StringLit, LiteralValue::String(value));
        Ok(())
    }

    /// A number literal, after its first digit.
    fn number(&mut self)
        requires
            old(self).wf(),
            old(self).start + 1 == old(self).current,
            is_digit(old(self).source@[old(self).start as int]),
        ensures
            final(self).took(
                old(self),
                number(old(self).source@, old(self).start as int, old(self).line as nat),
            ),
    {
        let ghost src = self.source@;
        let ghost first = self.start as int;
        while !self.is_at_end() && digit(self.peek())
            invariant
                self.wf(),
                src == self.source@,
                self.source == old(self).source,
                self.tokens == old(self).tokens,
                self.start == old(self).start,
                self.line == old(self).line,
                self.start < self.current,
                old(self).current <= self.current,
                digits_end(src, first) == digits_end(src, self.current as int),
                forall|j: int| first <= j < self.current ==> is_digit(#[trigger] char_at(src, j)),
            decreases self.source.len() - self.current,
        {
            self.advance();
        }
        let ghost whole = self.current as int;
        if self.peek() == '.' && digit(self.peek_next()) {
            self.advance();
            while !self.is_at_end() && digit(self.peek())
                invariant
                    self.wf(),
                    src == self.source@,
                    self.source == old(self).source,
                    self.tokens == old(self).tokens,
                    self.start == old(self).start,
                    self.line == old(self).line,
                    whole < self.current,
                    old(self).current <= self.current,
                    first < whole,
                    digits_end(src, whole + 1) == digits_end(src, self.current as int),
                    forall|j: int| whole < j < self.current ==> is_digit(#[trigger] char_at(src, j)),
                decreases self.source.len() - self.current,
            {
                self.advance();
            }
            proof {
                let text = src.subrange(first, self.current as int);
                let dot = whole - first;
                assert(text[dot] == '.');
                assert forall|i: int| 0 <= i < text.take(dot).len() implies is_digit(
                    #[trigger] text.take(dot)[i],
                ) by {
                    assert(is_digit(char_at(src, first + i)));
                }
                assert forall|i: int| 0 <= i < text.skip(dot + 1).len() implies is_digit(
                    #[trigger] text.skip(dot + 1)[i],
                ) by {
                    assert(is_digit(char_at(src, whole + 1 + i)));
                }
                assert(is_decimal_literal(text));
            }
        } else {
            proof {
                let text = src.subrange(first, self.current as int);
                assert forall|i: int| 0 <= i < text.len() implies is_digit(#[trigger] text[i]) by {
                    assert(is_digit(char_at(src, first + i)));
                }
                assert(is_decimal_literal(text));
            }
        }
        let text = self.text(self.start, self.current);
        let value = Number::literal(text.as_str());
        self.add_token_with_literal(TokenType::Number, LiteralValue::Number(value));
    }

    /// A word, after its first character.
    fn identifier(&mut self)
        requires
            old(self).wf(),
            old(self).start + 1 == old(self).current,
            is_alpha(old(self).source@[old(self).start as int]),
        ensures
            final(self).took(
                old(self),
                identifier(old(self).source@, old(self).start as int, old(self).line as nat),
            ),
    {
        while !self.is_at_end() && alphanumeric(self.peek())
            invariant
                self.wf(),
                self.source == old(self).source,
                self.tokens == old(self).tokens,
                self.start == old(self).start,
                self.line == old(self).line,
                self.start < self.current,
                old(self).current <= self.current,
                identifier_end(self.source@, self.start as int) == identifier_end(
                    self.source@,
                    self.current as int,
                ),
            decreases self.source.len() - self.current,
        {
            self.advance();
        }
        let text = self.text(self.start, self.current);
        let token_type = keyword_kind(text.as_str());
        self.add_token(token_type);
    }

    /// A block comment, after its opening `/*`. Comments nest.
    fn skip_block_comment(&mut self) -> (r: Result<(), LoxError>)
        requires
            old(self).wf(),
            old(self).start + 2 == old(self).current,
        ensures
            final(self).wf(),
            final(self).source == old(self).source,
            final(self).tokens == old(self).tokens,
            final(self).start == old(self).start,
            final(self).current >= old(self).current,
            ({
                let (end, line, open) = comment_end(
                    old(self).source@,
                    old(self).current as int,
                    1,
                    old(self).line as nat,
                );
                &&& final(self).current == end
                &&& final(self).line == line
                &&& match r {
                    Ok(()) => open == 0,
                    Err(e) => open > 0 && e@ == LoxErrorView::UnterminatedString(
                        unterminated_text(line),
                    ),
                }
            }),
    {
        let mut depth: usize = 1;
        while depth > 0 && !self.is_at_end()
            invariant
                self.wf(),
                self.source == old(self).source,
                self.tokens == old(self).tokens,
                self.start == old(self).start,
                self.current >= old(self).current,
                depth <= self.current,
                comment_end(
                    self.source@,
                    old(self).current as int,
                    1,
                    old(self).line as nat,
                ) == comment_end(
                    self.source@,
                    self.current as int,
                    depth as nat,
                    self.line as nat,
                ),
            decreases self.source.len() - self.current,
        {
            if self.peek() == '/' && self.peek_next() == '*' {
                self.advance();
                self.advance();
                depth += 1;
            } else if self.peek() == '*' && self.peek_next() == '/' {
                self.advance();
                self.advance();
                depth -= 1;
            } else if self.peek() == '\n' {
                self.next_line();
                self.advance();
            } else {
                self.advance();
            }
        }
        if depth > 0 {
            return Err(unterminated(self.line));
        }
        Ok(())
    }
}


/// A copy of a token list.
pub fn copy_tokens(tokens: &Vec<Token>) -> (r: Vec<Token>)
    ensures
        tokens_view(r@) == tokens_view(tokens@),
{
    let mut r: Vec<Token> = Vec::new();
    let mut i: usize = 0;
    while i < tokens.len()
        invariant
            i <= tokens.len(),
            r@.len() == i,
            forall|j: int| 0 <= j < i ==> (#[trigger] r@[j])@ == tokens@[j]@,
        decreases tokens.len() - i,
    {
        r.push(tokens[i].clone());
        i += 1;
    }
    assert(tokens_view(r@) =~= tokens_view(tokens@));
    r
}

impl Scanner {
    /// One step: a token, white space or a comment.
    fn scan_token(&mut self) -> (r: Result<(), LoxError>)
        requires
            old(self).wf(),
            old(self).start == old(self).current,
            old(self).current < old(self).source.len(),
        ensures
            match r {
                Ok(()) => final(self).took(
                    old(self),
                    step_at(old(self).source@, old(self).current as int, old(self).line as nat),
                ) && old(self).current < final(self).current,
                Err(e) => final(self).failed(
                    old(self),
                    step_at(old(self).source@, old(self).current as int, old(self).line as nat),
                    e,
                ),
            },
    {
        let c = self.advance();
        match c {
            '(' => self.add_token(TokenType::LeftParen),
            ')' => self.add_token(TokenType::RightParen),
            '{' => self.add_token(TokenType::LeftBrace),
            '}' => self.add_token(TokenType::RightBrace),
            ',' => self.add_token(TokenType::Comma),
            '.' => self.add_token(TokenType::Dot),
            '-' => self.add_token(TokenType::Minus),
            '+' => self.add_token(TokenType::Plus),
            ';' => self.add_token(TokenType::Semicolon),
            '*' => self.add_token(TokenType::Star),
            '%' => self.add_token(TokenType::Percent),
            '!' => {
                let token_type = if self.match_char('=') {
                    TokenType::BangEqual
                } else {
                    TokenType::Bang
                };
                self.add_token(token_type);
            },
            '=' => {
                let token_type = if self.match_char('=') {
                    TokenType::EqualEqual
                } else {
                    TokenType::Equal
                };
                self.add_token(token_type);
            },
            '<' => {
                let token_type = if self.match_char('=') {
                    TokenType::LessEqual
                } else {
                    TokenType::Less
                };
                self.add_token(token_type);
            },
            '>' => {
                let token_type = if self.match_char('=') {
                    TokenType::GreaterEqual
                } else {
                    TokenType::Greater
                };
                self.add_token(token_type);
            },
            '/' => {
                if self.match_char('/') {
                    while !self.is_at_end() && self.peek() != '\n'
                        invariant
                            self.wf(),
                            self.source == old(self).source,
                            self.tokens == old(self).tokens,
                            self.start == old(self).start,
                            self.line == old(self).line,
                            self.current >= old(self).current + 2,
                            find_char(self.source@, '\n', old(self).current + 2) == find_char(
                                self.source@,
                                '\n',
                                self.current as int,
                            ),
                        decreases self.source.len() - self.current,
                    {
                        self.advance();
                    }
                } else if self.match_char('*') {
                    match self.skip_block_comment() {
                        Ok(()) => {},
                        Err(e) => {
                            return Err(e);
                        },
                    }
                } else {
                    self.add_token(TokenType::Slash);
                }
            },
            '"' => {
                match self.string() {
                    Ok(()) => {},
                    Err(e) => {
                        return Err(e);
                    },
                }
            },
            ' ' | '\r' | '\t' => {},
            '\n' => {
                self.next_line();
            },
            _ => {
                if digit(c) {
                    self.number();
                } else if alphanumeric(c) {
                    self.identifier();
                } else {
                    return Err(LoxError::UnexpectedCharacter(c));
                }
            },
        }
        Ok(())
    }

    /// Scans the rest of the source and returns every token found, with
    /// the end-of-file token last. At the first error the scanner is left
    /// as it was.
    #[verifier::loop_isolation(false)]
    pub fn scan_tokens(&mut self) -> (r: Result<Vec<Token>, LoxError>)
        requires
            old(self).wf(),
        ensures
            final(self).wf(),
            final(self)@.source == old(self)@.source,
            match scan_from(
                old(self)@.source,
                old(self)@.current as int,
                old(self)@.line,
                old(self)@.tokens,
            ) {
                Ok(tokens) => {
                    &&& r matches Ok(found)
                    &&& tokens_view(found@) == tokens
                    &&& final(self)@.tokens == tokens
                    &&& final(self)@.current == old(self)@.source.len()
                    &&& final(self)@.line == tokens.last().line
                },
                Err(error) => {
                    &&& r matches Err(e)
                    &&& e@ == error
                    &&& final(self)@ == old(self)@
                },
            },
    {
        let count = self.tokens.len();
        assert(self@.tokens.take(count as int) =~= self@.tokens);
        let start = self.start;
        let current = self.current;
        let line = self.line;
        while !self.is_at_end()
            invariant
                self.wf(),
                self.source == old(self).source,
                count <= self.tokens.len(),
                count == old(self).tokens.len(),
                self@.tokens.take(count as int) == old(self)@.tokens,
                scan_from(
                    old(self)@.source,
                    old(self)@.current as int,
                    old(self)@.line,
                    old(self)@.tokens,
                ) == scan_from(self@.source, self@.current as int, self@.line, self@.tokens),
            decreases self.source.len() - self.current,
        {
            self.start = self.current;
            let ghost before = self@.tokens;
            match self.scan_token() {
                Ok(()) => {
                    assert(self@.tokens.take(count as int) =~= before.take(count as int));
                },
                Err(e) => {
                    self.tokens.truncate(count);
                    self.start = start;
                    self.current = current;
                    self.line = line;
                    assert(self@.tokens =~= before.take(count as int));
                    return Err(e);
                },
            }
        }
        let ghost before = self@.tokens;
        self.tokens.push(Token::new(TokenType::Eof, String::new(), None, self.line));
        assert(self@.tokens =~= before.push(end_of_file(self.line as nat)));
        Ok(copy_tokens(&self.tokens))
    }
}

} // verus!
