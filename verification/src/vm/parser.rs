//! The parser of the simplified language that the compiler lowers.
use crate::lox::number::Number;
use crate::lox::text::string_of;
use crate::vm::ast_node::{nodes_view, ASTNode, BinaryOperator, NodeView, UnaryOperator};
use vstd::prelude::*;

verus! {

/// A token of the simplified language.
#[derive(Debug, PartialEq)]
pub enum Token {
    Number(Number),
    String(String),
    Plus,
    Minus,
    Star,
    Slash,
    Equals,
    Identifier(String),
    LeftParen,
    RightParen,
    LeftBrace,
    RightBrace,
    Comma,
    Semicolon,
    If,
    Else,
    While,
    Function,
    Return,
    /// The end of the input.
    EOF,
}

/// The mathematical content of a `Token`.
pub enum TokenView {
    Number(u64),
    String(Seq<char>),
    Plus,
    Minus,
    Star,
    Slash,
    Equals,
    Identifier(Seq<char>),
    LeftParen,
    RightParen,
    LeftBrace,
    RightBrace,
    Comma,
    Semicolon,
    If,
    Else,
    While,
    Function,
    Return,
    EOF,
}

impl View for Token {
    type V = TokenView;

    open spec fn view(&self) -> TokenView {
        match self {
            Token::Number(n) => TokenView::Number(n.bits),
            Token::String(s) => TokenView::String(s@),
            Token::Plus => TokenView::Plus,
            Token::Minus => TokenView::Minus,
            Token::Star => TokenView::Star,
            Token::Slash => TokenView::Slash,
            Token::Equals => TokenView::Equals,
            Token::Identifier(s) => TokenView::Identifier(s@),
            Token::LeftParen => TokenView::LeftParen,
            Token::RightParen => TokenView::RightParen,
            Token::LeftBrace => TokenView::LeftBrace,
            Token::RightBrace => TokenView::RightBrace,
            Token::Comma => TokenView::Comma,
            Token::Semicolon => TokenView::Semicolon,
            Token::If => TokenView::If,
            Token::Else => TokenView::Else,
            Token::While => TokenView::While,
            Token::Function => TokenView::Function,
            Token::Return => TokenView::Return,
            Token::EOF => TokenView::EOF,
        }
    }
}

/// The contents of a token list.
pub open spec fn tokens_view(tokens: Seq<Token>) -> Seq<TokenView> {
    tokens.map_values(|t: Token| t@)
}

/// Whether two tokens are of one kind: numbers, strings and identifiers
/// are, whatever they hold.
pub open spec fn same_kind(a: TokenView, b: TokenView) -> bool {
    match (a, b) {
        (TokenView::Number(_), TokenView::Number(_)) => true,
        (TokenView::String(_), TokenView::String(_)) => true,
        (TokenView::Identifier(_), TokenView::Identifier(_)) => true,
        _ => a == b,
    }
}

/// Whether nothing but the end of the input is left at `pos`.
pub open spec fn at_end(tokens: Seq<TokenView>, pos: int) -> bool {
    !(0 <= pos < tokens.len()) || tokens[pos] is EOF
}

/// Whether a token of the kind of `kind` stands at `pos`, before the end
/// of the input.
pub open spec fn check(tokens: Seq<TokenView>, pos: int, kind: TokenView) -> bool {
    !at_end(tokens, pos) && same_kind(kind, tokens[pos])
}

/// What a parsing function found, and the position it reached.
pub struct Parsed<T> {
    pub result: Result<T, Seq<char>>,
    pub pos: int,
}

/// Failure with a message at a position.
pub open spec fn fail<T>(message: Seq<char>, pos: int) -> Parsed<T> {
    Parsed { result: Err(message), pos }
}

/// Success with a value at a position.
pub open spec fn found<T>(value: T, pos: int) -> Parsed<T> {
    Parsed { result: Ok(value), pos }
}

/// The same failure for another result type.
pub open spec fn pass<T, U>(failed: Parsed<T>) -> Parsed<U> {
    Parsed {
        result: Err(
            match failed.result {
                Err(e) => e,
                Ok(_) => arbitrary(),
            },
        ),
        pos: failed.pos,
    }
}

/// The position that a part of a construct reached: never before `low`,
/// where the part started, and never past the tokens.
pub open spec fn reached(pos: int, low: int, tokens: Seq<TokenView>) -> int {
    if low <= pos <= tokens.len() {
        pos
    } else {
        low
    }
}

/// The binary operator of precedence level `level` that a token is:
/// 0 equality, 1 term, 2 factor.
pub open spec fn operator_of(level: nat, token: TokenView) -> Option<BinaryOperator> {
    if level == 0 {
        match token {
            TokenView::Equals => Some(BinaryOperator::Equals),
            _ => None,
        }
    } else if level == 1 {
        match token {
            TokenView::Plus => Some(BinaryOperator::Plus),
            TokenView::Minus => Some(BinaryOperator::Minus),
            _ => None,
        }
    } else {
        match token {
            TokenView::Star => Some(BinaryOperator::Star),
            TokenView::Slash => Some(BinaryOperator::Slash),
            _ => None,
        }
    }
}

/// primary := NUMBER | STRING | IDENT | "(" expression ")"
pub open spec fn primary(tokens: Seq<TokenView>, pos: int) -> Parsed<NodeView>
    decreases tokens.len() - pos, 0nat,
{
    if at_end(tokens, pos) {
        fail("Expect expression."@, pos)
    } else {
        match tokens[pos] {
            TokenView::Number(n) => found(NodeView::NumberLiteral(n), pos + 1),
            TokenView::String(s) => found(NodeView::StringLiteral(s), pos + 1),
            TokenView::Identifier(name) => found(NodeView::VariableReference(name), pos + 1),
            TokenView::LeftParen => {
                let inner = binary(tokens, pos + 1, 0);
                let end = reached(inner.pos, pos + 1, tokens);
                match inner.result {
                    Ok(e) => if check(tokens, end, TokenView::RightParen) {
                        found(NodeView::Grouping(Box::new(e)), end + 1)
                    } else {
                        fail("Expect ')' after expression."@, end)
                    },
                    Err(_) => inner,
                }
            },
            _ => fail("Expect expression."@, pos),
        }
    }
}

/// unary := "-" primary | primary
pub open spec fn unary(tokens: Seq<TokenView>, pos: int) -> Parsed<NodeView>
    decreases tokens.len() - pos, 1nat,
{
    if check(tokens, pos, TokenView::Minus) {
        let right = primary(tokens, pos + 1);
        match right.result {
            Ok(e) => found(
                NodeView::UnaryExpression { operator: UnaryOperator::Minus, right: Box::new(e) },
                right.pos,
            ),
            Err(_) => right,
        }
    } else {
        primary(tokens, pos)
    }
}

/// The operators of level `level` and their right operands that follow
/// `left`, folded to the left.
pub open spec fn binary_rest(tokens: Seq<TokenView>, pos: int, level: nat, left: NodeView) -> Parsed<
    NodeView,
>
    decreases tokens.len() - pos, 0nat,
{
    if !at_end(tokens, pos) && operator_of(level, tokens[pos]) is Some {
        let right = if level >= 2 {
            unary(tokens, pos + 1)
        } else {
            binary(tokens, pos + 1, level + 1)
        };
        match right.result {
            Ok(r) => binary_rest(
                tokens,
                reached(right.pos, pos + 1, tokens),
                level,
                NodeView::BinaryExpression {
                    left: Box::new(left),
                    operator: operator_of(level, tokens[pos]).unwrap(),
                    right: Box::new(r),
                },
            ),
            Err(_) => right,
        }
    } else {
        found(left, pos)
    }
}

/// A binary expression of level `level`: 0 equality, 1 term, 2 factor.
/// An expression is one of level 0.
pub open spec fn binary(tokens: Seq<TokenView>, pos: int, level: nat) -> Parsed<NodeView>
    decreases tokens.len() - pos,
        (if level < 2 {
            4 - level
        } else {
            2
        }),
{
    let left = if level >= 2 {
        unary(tokens, pos)
    } else {
        binary(tokens, pos, level + 1)
    };
    match left.result {
        Ok(l) => binary_rest(tokens, reached(left.pos, pos, tokens), level, l),
        Err(_) => left,
    }
}

/// An expression.
pub open spec fn expression(tokens: Seq<TokenView>, pos: int) -> Parsed<NodeView> {
    binary(tokens, pos, 0)
}

/// expression ";"
pub open spec fn expression_statement(tokens: Seq<TokenView>, pos: int) -> Parsed<NodeView> {
    let e = expression(tokens, pos);
    let end = reached(e.pos, pos, tokens);
    match e.result {
        Ok(v) => if check(tokens, end, TokenView::Semicolon) {
            found(NodeView::ExpressionStatement(Box::new(v)), end + 1)
        } else {
            fail("Expect ';' after expression."@, end)
        },
        Err(_) => e,
    }
}

/// After `return`: expression? ";"
pub open spec fn return_statement(tokens: Seq<TokenView>, pos: int) -> Parsed<NodeView> {
    if check(tokens, pos, TokenView::Semicolon) {
        found(NodeView::ReturnStatement(None), pos + 1)
    } else {
        let e = expression(tokens, pos);
        let end = reached(e.pos, pos, tokens);
        match e.result {
            Ok(v) => if check(tokens, end, TokenView::Semicolon) {
                found(NodeView::ReturnStatement(Some(Box::new(v))), end + 1)
            } else {
                fail("Expect ';' after return value."@, end)
            },
            Err(_) => e,
        }
    }
}

/// The names of the parameters of a function, after those of `done`:
/// IDENT ( "," IDENT )*
pub open spec fn parameters(tokens: Seq<TokenView>, pos: int, done: Seq<Seq<char>>) -> Parsed<
    Seq<Seq<char>>,
>
    decreases tokens.len() - pos,
{
    if at_end(tokens, pos) {
        fail("Expect parameter name."@, pos)
    } else {
        match tokens[pos] {
            TokenView::Identifier(name) => if check(tokens, pos + 1, TokenView::Comma) {
                parameters(tokens, pos + 2, done.push(name))
            } else {
                found(done.push(name), pos + 1)
            },
            _ => fail("Expect parameter name."@, pos),
        }
    }
}

/// After `if`: "(" expression ")" "{" block ( "else" "{" block )?
pub open spec fn if_statement(tokens: Seq<TokenView>, pos: int) -> Parsed<NodeView>
    decreases tokens.len() - pos, 1nat,
{
    if !check(tokens, pos, TokenView::LeftParen) {
        fail("Expect '(' after 'if'."@, pos)
    } else {
        let condition = expression(tokens, pos + 1);
        let end = reached(condition.pos, pos + 1, tokens);
        match condition.result {
            Err(_) => condition,
            Ok(c) => if !check(tokens, end, TokenView::RightParen) {
                fail("Expect ')' after condition."@, end)
            } else if !check(tokens, end + 1, TokenView::LeftBrace) {
                fail("Expect '{' before 'if' body."@, end + 1)
            } else {
                let then = block(tokens, end + 2, Seq::empty());
                let after = reached(then.pos, end + 2, tokens);
                match then.result {
                    Err(_) => pass(then),
                    Ok(t) => if !check(tokens, after, TokenView::Else) {
                        found(
                            NodeView::IfStatement {
                                condition: Box::new(c),
                                then_branch: t,
                                else_branch: None,
                            },
                            after,
                        )
                    } else if !check(tokens, after + 1, TokenView::LeftBrace) {
                        fail("Expect '{' before 'else' body."@, after + 1)
                    } else {
                        let other = block(tokens, after + 2, Seq::empty());
                        match other.result {
                            Err(_) => pass(other),
                            Ok(e) => found(
                                NodeView::IfStatement {
                                    condition: Box::new(c),
                                    then_branch: t,
                                    else_branch: Some(e),
                                },
                                other.pos,
                            ),
                        }
                    },
                }
            },
        }
    }
}

/// After `while`: "(" expression ")" "{" block
pub open spec fn while_statement(tokens: Seq<TokenView>, pos: int) -> Parsed<NodeView>
    decreases tokens.len() - pos, 1nat,
{
    if !check(tokens, pos, TokenView::LeftParen) {
        fail("Expect '(' after 'while'."@, pos)
    } else {
        let condition = expression(tokens, pos + 1);
        let end = reached(condition.pos, pos + 1, tokens);
        match condition.result {
            Err(_) => condition,
            Ok(c) => if !check(tokens, end, TokenView::RightParen) {
                fail("Expect ')' after condition."@, end)
            } else if !check(tokens, end + 1, TokenView::LeftBrace) {
                fail("Expect '{' before 'while' body."@, end + 1)
            } else {
                let body = block(tokens, end + 2, Seq::empty());
                match body.result {
                    Err(_) => pass(body),
                    Ok(b) => found(
                        NodeView::WhileStatement { condition: Box::new(c), body: b },
                        body.pos,
                    ),
                }
            },
        }
    }
}

/// After the keyword of a function: IDENT "(" parameters? ")" "{" block
pub open spec fn function_declaration(tokens: Seq<TokenView>, pos: int) -> Parsed<NodeView>
    decreases tokens.len() - pos, 1nat,
{
    if at_end(tokens, pos) || !(tokens[pos] is Identifier) {
        fail("Expect function name."@, pos)
    } else if !check(tokens, pos + 1, TokenView::LeftParen) {
        fail("Expect '(' after function name."@, pos + 1)
    } else {
        let list = if check(tokens, pos + 2, TokenView::RightParen) {
            found(Seq::empty(), pos + 2)
        } else {
            parameters(tokens, pos + 2, Seq::empty())
        };
        let end = reached(list.pos, pos + 2, tokens);
        match list.result {
            Err(_) => pass(list),
            Ok(names) => if !check(tokens, end, TokenView::RightParen) {
                fail("Expect ')' after parameters."@, end)
            } else if !check(tokens, end + 1, TokenView::LeftBrace) {
                fail("Expect '{' before function body."@, end + 1)
            } else {
                let body = block(tokens, end + 2, Seq::empty());
                match body.result {
                    Err(_) => pass(body),
                    Ok(b) => found(
                        NodeView::FunctionDeclaration {
                            name: tokens[pos]->Identifier_0,
                            parameters: names,
                            body: b,
                        },
                        body.pos,
                    ),
                }
            },
        }
    }
}

/// A statement: an `if`, a `while`, a function, a `return`, or an
/// expression statement.
pub open spec fn statement(tokens: Seq<TokenView>, pos: int) -> Parsed<NodeView>
    decreases tokens.len() - pos, 2nat,
{
    if check(tokens, pos, TokenView::If) {
        if_statement(tokens, pos + 1)
    } else if check(tokens, pos, TokenView::While) {
        while_statement(tokens, pos + 1)
    } else if check(tokens, pos, TokenView::Function) {
        function_declaration(tokens, pos + 1)
    } else if check(tokens, pos, TokenView::Return) {
        return_statement(tokens, pos + 1)
    } else {
        expression_statement(tokens, pos)
    }
}

/// After "{": the statements up to the closing brace, after those of
/// `done`.
pub open spec fn block(tokens: Seq<TokenView>, pos: int, done: Seq<NodeView>) -> Parsed<
    Seq<NodeView>,
>
    decreases tokens.len() - pos, 3nat,
{
    if check(tokens, pos, TokenView::RightBrace) {
        found(done, pos + 1)
    } else if at_end(tokens, pos) {
        fail("Expect '}' after block."@, pos)
    } else {
        let next = statement(tokens, pos);
        match next.result {
            Ok(s) => block(tokens, reached(next.pos, pos + 1, tokens), done.push(s)),
            Err(_) => pass(next),
        }
    }
}

/// The statements up to the end of the input, after those of `done`.
pub open spec fn program(tokens: Seq<TokenView>, pos: int, done: Seq<NodeView>) -> Parsed<
    Seq<NodeView>,
>
    decreases tokens.len() - pos,
{
    if at_end(tokens, pos) {
        found(done, pos)
    } else {
        let next = statement(tokens, pos);
        match next.result {
            Ok(s) => program(tokens, reached(next.pos, pos + 1, tokens), done.push(s)),
            Err(_) => pass(next),
        }
    }
}


/// The program that the tokens from `pos` on denote, as one node.
pub open spec fn program_node(tokens: Seq<TokenView>, pos: int) -> Parsed<NodeView> {
    let list = program(tokens, pos, Seq::empty());
    match list.result {
        Ok(nodes) => found(NodeView::Program(nodes), list.pos),
        Err(_) => pass(list),
    }
}

/// The parser of one token sequence.
pub struct Parser {
    tokens: Vec<Token>,
    current: usize,
}

/// The mathematical content of a `Parser`: the tokens and the position of
/// the next one.
pub struct ParserView {
    pub tokens: Seq<TokenView>,
    pub current: nat,
}

impl View for Parser {
    type V = ParserView;

    closed spec fn view(&self) -> ParserView {
        ParserView { tokens: tokens_view(self.tokens@), current: self.current as nat }
    }
}

/// The content of the result of a node parser that stopped at `pos`.
pub open spec fn parsed_node(r: Result<ASTNode, String>, pos: int) -> Parsed<NodeView> {
    Parsed {
        result: match r {
            Ok(n) => Ok(n@),
            Err(e) => Err(e@),
        },
        pos,
    }
}

/// The content of the result of a parser of a node list.
spec fn parsed_nodes(r: Result<Vec<ASTNode>, String>, pos: int) -> Parsed<Seq<NodeView>> {
    Parsed {
        result: match r {
            Ok(n) => Ok(nodes_view(n@)),
            Err(e) => Err(e@),
        },
        pos,
    }
}

fn error<T>(message: &str) -> (r: Result<T, String>)
    ensures
        r matches Err(e) && e@ == message@,
{
    Err(String::from_str(message))
}

impl Parser {
    /// The position lies within the tokens.
    pub closed spec fn wf(&self) -> bool {
        self.current <= self.tokens.len()
    }

    /// Nothing but the position differs from `before`, and the position
    /// is no earlier.
    spec fn follows(&self, before: &Parser) -> bool {
        self.wf() && self.tokens == before.tokens && self.current >= before.current
    }

    /// The tokens of this parser.
    spec fn input(&self) -> Seq<TokenView> {
        tokens_view(self.tokens@)
    }

    /// A parser at the start of `tokens`.
    pub fn new(tokens: Vec<Token>) -> (r: Parser)
        ensures
            r.wf(),
            r@ == (ParserView { tokens: tokens_view(tokens@), current: 0 }),
    {
        Parser { tokens, current: 0 }
    }

    fn peek(&self) -> (r: Option<&Token>)
        ensures
            match r {
                Some(t) => self.current < self.tokens.len() && *t == self.tokens[self.current as int],
                None => self.current >= self.tokens.len(),
            },
    {
        if self.current < self.tokens.len() {
            Some(&self.tokens[self.current])
        } else {
            None
        }
    }

    fn is_at_end(&self) -> (r: bool)
        ensures
            r == at_end(self.input(), self.current as int),
    {
        match self.peek() {
            Some(Token::EOF) => true,
            Some(_) => false,
            None => true,
        }
    }

    fn check(&self, token: &Token) -> (r: bool)
        ensures
            r == check(self.input(), self.current as int, token@),
    {
        if self.is_at_end() {
            return false;
        }
        match (token, &self.tokens[self.current]) {
            (Token::Number(_), Token::Number(_)) => true,
            (Token::String(_), Token::String(_)) => true,
            (Token::Identifier(_), Token::Identifier(_)) => true,
            (Token::Plus, Token::Plus) => true,
            (Token::Minus, Token::Minus) => true,
            (Token::Star, Token::Star) => true,
            (Token::Slash, Token::Slash) => true,
            (Token::Equals, Token::Equals) => true,
            (Token::LeftParen, Token::LeftParen) => true,
            (Token::RightParen, Token::RightParen) => true,
            (Token::LeftBrace, Token::LeftBrace) => true,
            (Token::RightBrace, Token::RightBrace) => true,
            (Token::Comma, Token::Comma) => true,
            (Token::Semicolon, Token::Semicolon) => true,
            (Token::If, Token::If) => true,
            (Token::Else, Token::Else) => true,
            (Token::While, Token::While) => true,
            (Token::Function, Token::Function) => true,
            (Token::Return, Token::Return) => true,
            (Token::EOF, Token::EOF) => true,
            _ => false,
        }
    }

    /// Moves past the token at the position unless the input ends there.
    fn advance(&mut self)
        requires
            old(self).wf(),
        ensures
            final(self).follows(old(self)),
            final(self).current == if at_end(old(self).input(), old(self).current as int) {
                old(self).current as int
            } else {
                old(self).current + 1
            },
    {
        if !self.is_at_end() {
            self.current += 1;
        }
    }

    /// Moves past the token at the position if it is of the kind of
    /// `token`.
    fn match_token(&mut self, token: &Token) -> (r: bool)
        requires
            old(self).wf(),
        ensures
            final(self).follows(old(self)),
            r == check(old(self).input(), old(self).current as int, token@),
            final(self).current == if r {
                old(self).current + 1
            } else {
                old(self).current as int
            },
    {
        if self.check(token) {
            self.advance();
            true
        } else {
            false
        }
    }

    /// Moves past the token at the position if it is of the kind of
    /// `token`; fails with `message` otherwise.
    fn consume(&mut self, token: &Token, message: &str) -> (r: Result<(), String>)
        requires
            old(self).wf(),
        ensures
            final(self).follows(old(self)),
            match r {
                Ok(()) => check(old(self).input(), old(self).current as int, token@)
                    && final(self).current == old(self).current + 1,
                Err(e) => !check(old(self).input(), old(self).current as int, token@) && e@
                    == message@ && final(self).current == old(self).current,
            },
    {
        if self.check(token) {
            self.advance();
            Ok(())
        } else {
            error(message)
        }
    }

    fn parse_primary(&mut self) -> (r: Result<ASTNode, String>)
        requires
            old(self).wf(),
        ensures
            final(self).follows(old(self)),
            r is Ok ==> final(self).current > old(self).current,
            parsed_node(r, final(self).current as int) == primary(
                old(self).input(),
                old(self).current as int,
            ),
        decreases old(self).tokens.len() - old(self).current, 0nat,
    {
        if self.is_at_end() {
            return error("Expect expression.");
        }
        match &self.tokens[self.current] {
            Token::Number(value) => {
                let node = ASTNode::NumberLiteral(*value);
                self.current += 1;
                Ok(node)
            },
            Token::String(value) => {
                let node = ASTNode::StringLiteral(value.clone());
                self.current += 1;
                Ok(node)
            },
            Token::Identifier(name) => {
                let node = ASTNode::VariableReference(name.clone());
                self.current += 1;
                Ok(node)
            },
            Token::LeftParen => {
                self.current += 1;
                let expr = match self.parse_binary(0) {
                    Ok(e) => e,
                    Err(e) => {
                        return Err(e);
                    },
                };
                match self.consume(&Token::RightParen, "Expect ')' after expression.") {
                    Ok(()) => Ok(ASTNode::Grouping(Box::new(expr))),
                    Err(e) => Err(e),
                }
            },
            _ => error("Expect expression."),
        }
    }

    fn parse_unary(&mut self) -> (r: Result<ASTNode, String>)
        requires
            old(self).wf(),
        ensures
            final(self).follows(old(self)),
            r is Ok ==> final(self).current > old(self).current,
            parsed_node(r, final(self).current as int) == unary(
                old(self).input(),
                old(self).current as int,
            ),
        decreases old(self).tokens.len() - old(self).current, 1nat,
    {
        if self.match_token(&Token::Minus) {
            match self.parse_primary() {
                Ok(right) => Ok(
                    ASTNode::UnaryExpression {
                        operator: UnaryOperator::Minus,
                        right: Box::new(right),
                    },
                ),
                Err(e) => Err(e),
            }
        } else {
            self.parse_primary()
        }
    }

    /// The binary operator of level `level` at the position.
    fn operator_here(&self, level: u8) -> (r: Option<BinaryOperator>)
        ensures
            r == if at_end(self.input(), self.current as int) {
                None
            } else {
                operator_of(level as nat, self.input()[self.current as int])
            },
    {
        if self.is_at_end() {
            return None;
        }
        let token = &self.tokens[self.current];
        if level == 0 {
            match token {
                Token::Equals => Some(BinaryOperator::Equals),
                _ => None,
            }
        } else if level == 1 {
            match token {
                Token::Plus => Some(BinaryOperator::Plus),
                Token::Minus => Some(BinaryOperator::Minus),
                _ => None,
            }
        } else {
            match token {
                Token::Star => Some(BinaryOperator::Star),
                Token::Slash => Some(BinaryOperator::Slash),
                _ => None,
            }
        }
    }

    /// An operand of a binary expression of level `level`.
    fn parse_operand(&mut self, level: u8) -> (r: Result<ASTNode, String>)
        requires
            old(self).wf(),
        ensures
            final(self).follows(old(self)),
            r is Ok ==> final(self).current > old(self).current,
            parsed_node(r, final(self).current as int) == if level >= 2 {
                unary(old(self).input(), old(self).current as int)
            } else {
                binary(old(self).input(), old(self).current as int, level as nat + 1)
            },
        decreases old(self).tokens.len() - old(self).current,
            (if level < 2 {
                7 - 2 * level
            } else {
                3
            }),
    {
        if level >= 2 {
            self.parse_unary()
        } else {
            self.parse_binary(level + 1)
        }
    }

    /// A binary expression of level `level`, folded to the left.
    #[verifier::loop_isolation(false)]
    fn parse_binary(&mut self, level: u8) -> (r: Result<ASTNode, String>)
        requires
            old(self).wf(),
        ensures
            final(self).follows(old(self)),
            r is Ok ==> final(self).current > old(self).current,
            parsed_node(r, final(self).current as int) == binary(
                old(self).input(),
                old(self).current as int,
                level as nat,
            ),
        decreases old(self).tokens.len() - old(self).current,
            (if level < 2 {
                8 - 2 * level
            } else {
                4
            }),
    {
        let mut expr = match self.parse_operand(level) {
            Ok(e) => e,
            Err(e) => {
                return Err(e);
            },
        };
        let ghost first = self.current as int;
        let ghost left = expr@;
        loop
            invariant
                self.follows(old(self)),
                self.current > old(self).current,
                binary_rest(self.input(), first, level as nat, left) == binary_rest(
                    self.input(),
                    self.current as int,
                    level as nat,
                    expr@,
                ),
            decreases self.tokens.len() - self.current,
        {
            let operator = match self.operator_here(level) {
                Some(operator) => operator,
                None => {
                    return Ok(expr);
                },
            };
            self.current += 1;
            let right = match self.parse_operand(level) {
                Ok(e) => e,
                Err(e) => {
                    return Err(e);
                },
            };
            expr = ASTNode::BinaryExpression {
                left: Box::new(expr),
                operator,
                right: Box::new(right),
            };
        }
    }

    fn parse_expression(&mut self) -> (r: Result<ASTNode, String>)
        requires
            old(self).wf(),
        ensures
            final(self).follows(old(self)),
            r is Ok ==> final(self).current > old(self).current,
            parsed_node(r, final(self).current as int) == expression(
                old(self).input(),
                old(self).current as int,
            ),
    {
        self.parse_binary(0)
    }

    fn parse_expression_statement(&mut self) -> (r: Result<ASTNode, String>)
        requires
            old(self).wf(),
        ensures
            final(self).follows(old(self)),
            r is Ok ==> final(self).current > old(self).current,
            parsed_node(r, final(self).current as int) == expression_statement(
                old(self).input(),
                old(self).current as int,
            ),
    {
        let expr = match self.parse_expression() {
            Ok(e) => e,
            Err(e) => {
                return Err(e);
            },
        };
        match self.consume(&Token::Semicolon, "Expect ';' after expression.") {
            Ok(()) => Ok(ASTNode::ExpressionStatement(Box::new(expr))),
            Err(e) => Err(e),
        }
    }

    fn parse_return_statement(&mut self) -> (r: Result<ASTNode, String>)
        requires
            old(self).wf(),
        ensures
            final(self).follows(old(self)),
            r is Ok ==> final(self).current > old(self).current,
            parsed_node(r, final(self).current as int) == return_statement(
                old(self).input(),
                old(self).current as int,
            ),
    {
        let value = if !self.check(&Token::Semicolon) {
            match self.parse_expression() {
                Ok(e) => Some(Box::new(e)),
                Err(e) => {
                    return Err(e);
                },
            }
        } else {
            None
        };
        match self.consume(&Token::Semicolon, "Expect ';' after return value.") {
            Ok(()) => Ok(ASTNode::ReturnStatement(value)),
            Err(e) => Err(e),
        }
    }

    /// The names of the parameters of a function.
    #[verifier::loop_isolation(false)]
    fn parse_parameters(&mut self) -> (r: Result<Vec<String>, String>)
        requires
            old(self).wf(),
        ensures
            final(self).follows(old(self)),
            (Parsed {
                result: match r {
                    Ok(names) => Ok(names@.map_values(|p: String| p@)),
                    Err(e) => Err(e@),
                },
                pos: final(self).current as int,
            }) == parameters(old(self).input(), old(self).current as int, Seq::empty()),
    {
        let mut names: Vec<String> = Vec::new();
        assert(names@.map_values(|p: String| p@) =~= Seq::<Seq<char>>::empty());
        loop
            invariant
                self.follows(old(self)),
                parameters(old(self).input(), old(self).current as int, Seq::empty())
                    == parameters(
                    self.input(),
                    self.current as int,
                    names@.map_values(|p: String| p@),
                ),
            decreases self.tokens.len() - self.current,
        {
            if self.is_at_end() {
                return error("Expect parameter name.");
            }
            let ghost done = names@.map_values(|p: String| p@);
            match &self.tokens[self.current] {
                Token::Identifier(name) => {
                    names.push(name.clone());
                    assert(names@.map_values(|p: String| p@) =~= done.push(name@));
                },
                _ => {
                    return error("Expect parameter name.");
                },
            }
            self.current += 1;
            if !self.match_token(&Token::Comma) {
                return Ok(names);
            }
        }
    }

    fn parse_if_statement(&mut self) -> (r: Result<ASTNode, String>)
        requires
            old(self).wf(),
        ensures
            final(self).follows(old(self)),
            r is Ok ==> final(self).current > old(self).current,
            parsed_node(r, final(self).current as int) == if_statement(
                old(self).input(),
                old(self).current as int,
            ),
        decreases old(self).tokens.len() - old(self).current, 1nat,
    {
        match self.consume(&Token::LeftParen, "Expect '(' after 'if'.") {
            Ok(()) => {},
            Err(e) => {
                return Err(e);
            },
        }
        let condition = match self.parse_expression() {
            Ok(e) => e,
            Err(e) => {
                return Err(e);
            },
        };
        match self.consume(&Token::RightParen, "Expect ')' after condition.") {
            Ok(()) => {},
            Err(e) => {
                return Err(e);
            },
        }
        match self.consume(&Token::LeftBrace, "Expect '{' before 'if' body.") {
            Ok(()) => {},
            Err(e) => {
                return Err(e);
            },
        }
        let then_branch = match self.parse_block() {
            Ok(b) => b,
            Err(e) => {
                return Err(e);
            },
        };
        let else_branch = if self.match_token(&Token::Else) {
            match self.consume(&Token::LeftBrace, "Expect '{' before 'else' body.") {
                Ok(()) => {},
                Err(e) => {
                    return Err(e);
                },
            }
            match self.parse_block() {
                Ok(b) => Some(b),
                Err(e) => {
                    return Err(e);
                },
            }
        } else {
            None
        };
        Ok(ASTNode::IfStatement { condition: Box::new(condition), then_branch, else_branch })
    }

    fn parse_while_statement(&mut self) -> (r: Result<ASTNode, String>)
        requires
            old(self).wf(),
        ensures
            final(self).follows(old(self)),
            r is Ok ==> final(self).current > old(self).current,
            parsed_node(r, final(self).current as int) == while_statement(
                old(self).input(),
                old(self).current as int,
            ),
        decreases old(self).tokens.len() - old(self).current, 1nat,
    {
        match self.consume(&Token::LeftParen, "Expect '(' after 'while'.") {
            Ok(()) => {},
            Err(e) => {
                return Err(e);
            },
        }
        let condition = match self.parse_expression() {
            Ok(e) => e,
            Err(e) => {
                return Err(e);
            },
        };
        match self.consume(&Token::RightParen, "Expect ')' after condition.") {
            Ok(()) => {},
            Err(e) => {
                return Err(e);
            },
        }
        match self.consume(&Token::LeftBrace, "Expect '{' before 'while' body.") {
            Ok(()) => {},
            Err(e) => {
                return Err(e);
            },
        }
        match self.parse_block() {
            Ok(body) => Ok(ASTNode::WhileStatement { condition: Box::new(condition), body }),
            Err(e) => Err(e),
        }
    }

    fn parse_function_declaration(&mut self) -> (r: Result<ASTNode, String>)
        requires
            old(self).wf(),
        ensures
            final(self).follows(old(self)),
            r is Ok ==> final(self).current > old(self).current,
            parsed_node(r, final(self).current as int) == function_declaration(
                old(self).input(),
                old(self).current as int,
            ),
        decreases old(self).tokens.len() - old(self).current, 1nat,
    {
        if self.is_at_end() {
            return error("Expect function name.");
        }
        let name = match &self.tokens[self.current] {
            Token::Identifier(name) => name.clone(),
            _ => {
                return error("Expect function name.");
            },
        };
        self.current += 1;
        match self.consume(&Token::LeftParen, "Expect '(' after function name.") {
            Ok(()) => {},
            Err(e) => {
                return Err(e);
            },
        }
        let parameters = if self.check(&Token::RightParen) {
            let empty: Vec<String> = Vec::new();
            assert(empty@.map_values(|p: String| p@) =~= Seq::<Seq<char>>::empty());
            empty
        } else {
            match self.parse_parameters() {
                Ok(names) => names,
                Err(e) => {
                    return Err(e);
                },
            }
        };
        match self.consume(&Token::RightParen, "Expect ')' after parameters.") {
            Ok(()) => {},
            Err(e) => {
                return Err(e);
            },
        }
        match self.consume(&Token::LeftBrace, "Expect '{' before function body.") {
            Ok(()) => {},
            Err(e) => {
                return Err(e);
            },
        }
        match self.parse_block() {
            Ok(body) => Ok(ASTNode::FunctionDeclaration { name, parameters, body }),
            Err(e) => Err(e),
        }
    }

    fn parse_statement(&mut self) -> (r: Result<ASTNode, String>)
        requires
            old(self).wf(),
        ensures
            final(self).follows(old(self)),
            r is Ok ==> final(self).current > old(self).current,
            parsed_node(r, final(self).current as int) == statement(
                old(self).input(),
                old(self).current as int,
            ),
        decreases old(self).tokens.len() - old(self).current, 2nat,
    {
        if self.match_token(&Token::If) {
            self.parse_if_statement()
        } else if self.match_token(&Token::While) {
            self.parse_while_statement()
        } else if self.match_token(&Token::Function) {
            self.parse_function_declaration()
        } else if self.match_token(&Token::Return) {
            self.parse_return_statement()
        } else {
            self.parse_expression_statement()
        }
    }

    /// The statements of a block, after its opening brace.
    #[verifier::loop_isolation(false)]
    fn parse_block(&mut self) -> (r: Result<Vec<ASTNode>, String>)
        requires
            old(self).wf(),
        ensures
            final(self).follows(old(self)),
            r is Ok ==> final(self).current > old(self).current,
            parsed_nodes(r, final(self).current as int) == block(
                old(self).input(),
                old(self).current as int,
                Seq::empty(),
            ),
        decreases old(self).tokens.len() - old(self).current, 3nat,
    {
        let mut statements: Vec<ASTNode> = Vec::new();
        assert(nodes_view(statements@) =~= Seq::empty());
        while !self.check(&Token::RightBrace) && !self.is_at_end()
            invariant
                self.follows(old(self)),
                block(old(self).input(), old(self).current as int, Seq::empty()) == block(
                    self.input(),
                    self.current as int,
                    nodes_view(statements@),
                ),
            decreases self.tokens.len() - self.current,
        {
            let ghost done = nodes_view(statements@);
            match self.parse_statement() {
                Ok(s) => {
                    statements.push(s);
                    assert(nodes_view(statements@) =~= done.push(s@));
                },
                Err(e) => {
                    return Err(e);
                },
            }
        }
        match self.consume(&Token::RightBrace, "Expect '}' after block.") {
            Ok(()) => Ok(statements),
            Err(e) => Err(e),
        }
    }

    /// The statements up to the end of the input, as a program node.
    #[verifier::loop_isolation(false)]
    fn parse_program(&mut self) -> (r: Result<ASTNode, String>)
        requires
            old(self).wf(),
        ensures
            final(self).follows(old(self)),
            parsed_node(r, final(self).current as int) == program_node(
                old(self).input(),
                old(self).current as int,
            ),
    {
        let mut nodes: Vec<ASTNode> = Vec::new();
        assert(nodes_view(nodes@) =~= Seq::empty());
        while !self.is_at_end()
            invariant
                self.follows(old(self)),
                program(old(self).input(), old(self).current as int, Seq::empty()) == program(
                    self.input(),
                    self.current as int,
                    nodes_view(nodes@),
                ),
            decreases self.tokens.len() - self.current,
        {
            let ghost done = nodes_view(nodes@);
            match self.parse_statement() {
                Ok(s) => {
                    nodes.push(s);
                    assert(nodes_view(nodes@) =~= done.push(s@));
                },
                Err(e) => {
                    return Err(e);
                },
            }
        }
        Ok(ASTNode::Program(nodes))
    }
}


impl Parser {
    /// Parses the rest of the tokens: the program they denote, or the
    /// first error.
    pub fn parse(&mut self) -> (r: Result<ASTNode, String>)
        requires
            old(self).wf(),
        ensures
            final(self).wf(),
            final(self)@.tokens == old(self)@.tokens,
            parsed_node(r, final(self)@.current as int) == program_node(
                old(self)@.tokens,
                old(self)@.current as int,
            ),
    {
        self.parse_program()
    }
}


/// Whether a character is white space: the characters with the Unicode
/// property `White_Space`.
pub open spec fn is_space(c: char) -> bool {
    let code = c as u32;
    (0x09 <= code && code <= 0x0D) || code == 0x20 || code == 0x85 || code == 0xA0 || code == 0x1680
        || (0x2000 <= code && code <= 0x200A) || code == 0x2028 || code == 0x2029 || code
        == 0x202F || code == 0x205F || code == 0x3000
}

/// The words of the text from `pos` on, after those of `done`, where
/// `word` holds the characters of the word that `pos` stands in. A word is
/// a longest run of characters that are no white space.
pub open spec fn words(s: Seq<char>, pos: int, word: Seq<char>, done: Seq<Seq<char>>) -> Seq<
    Seq<char>,
>
    decreases s.len() - pos,
{
    if pos < 0 || pos >= s.len() {
        if word.len() > 0 {
            done.push(word)
        } else {
            done
        }
    } else if is_space(s[pos]) {
        if word.len() > 0 {
            words(s, pos + 1, Seq::empty(), done.push(word))
        } else {
            words(s, pos + 1, word, done)
        }
    } else {
        words(s, pos + 1, word.push(s[pos]), done)
    }
}

/// One identifier for each word.
pub open spec fn identifiers(words: Seq<Seq<char>>) -> Seq<TokenView> {
    Seq::new(words.len(), |i: int| TokenView::Identifier(words[i]))
}

/// The tokens of a line: one identifier for each word.
pub open spec fn word_tokens(s: Seq<char>) -> Seq<TokenView> {
    identifiers(words(s, 0, Seq::empty(), Seq::empty()))
}

fn space(c: char) -> (r: bool)
    ensures
        r == is_space(c),
{
    let code = c as u32;
    (0x09 <= code && code <= 0x0D) || code == 0x20 || code == 0x85 || code == 0xA0 || code == 0x1680
        || (0x2000 <= code && code <= 0x200A) || code == 0x2028 || code == 0x2029 || code
        == 0x202F || code == 0x205F || code == 0x3000
}

/// Splits a line at white space and makes an identifier of each word.
pub fn tokenize(input: &str) -> (r: Vec<Token>)
    ensures
        tokens_view(r@) == word_tokens(input@),
{
    let mut tokens: Vec<Token> = Vec::new();
    let mut word: Vec<char> = Vec::new();
    let ghost mut done: Seq<Seq<char>> = Seq::empty();
    assert(tokens_view(tokens@) =~= identifiers(done));
    for c in it: input.chars()
        invariant
            it.seq() == input@,
            tokens_view(tokens@) == identifiers(done),
            words(input@, 0, Seq::empty(), Seq::empty()) == words(
                input@,
                it.index() as int,
                word@,
                done,
            ),
    {
        if space(c) {
            if word.len() > 0 {
                let ghost before = tokens_view(tokens@);
                tokens.push(Token::Identifier(string_of(&word)));
                proof {
                    assert(tokens_view(tokens@) =~= before.push(TokenView::Identifier(word@)));
                    assert(identifiers(done.push(word@)) =~= identifiers(done).push(
                        TokenView::Identifier(word@),
                    ));
                    done = done.push(word@);
                }
                word = Vec::new();
                assert(word@ =~= Seq::empty());
            }
        } else {
            word.push(c);
        }
    }
    if word.len() > 0 {
        let ghost before = tokens_view(tokens@);
        tokens.push(Token::Identifier(string_of(&word)));
        proof {
            assert(tokens_view(tokens@) =~= before.push(TokenView::Identifier(word@)));
            assert(identifiers(done.push(word@)) =~= identifiers(done).push(
                TokenView::Identifier(word@),
            ));
        }
    }
    tokens
}

} // verus!
