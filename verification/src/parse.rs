//! The parser: recursive descent over a buffer of tokens.
//!
//! Every rule of [`crate::grammar`] has a method here that computes it. A
//! method leaves the cursor behind the tokens that the rule has taken, also
//! when it fails: the cursor then rests on the offending token. The two
//! nesting depths are the same after a call as before it, whether it
//! succeeds or fails.

use vstd::prelude::*;
use crate::ast::{
    lemma_args_view, lemma_array_view, lemma_block_view, lemma_expr_views_push,
    lemma_ident_views_push, lemma_stmt_views_push, expr_views, ident_views, stmt_views, Assignment,
    BinaryOp, BinaryOpKind, Block, Call, CallKind, Declaration, ElsePart, Expr, ExprView, FnDecl,
    Ident, IdentView, IfStmt, Literal, Program, Stmt, StmtView, UnaryOp, UnaryOpKind,
    WhileStmt,
};
use crate::errors::{Expected, ParseError, ParseErrorView, Span};
use crate::grammar::{
    ident_at, kind_at, lemma_statement_takes_a_token, missing, operator_at, parse_binary,
    parse_binary_tail, parse_block, parse_block_items, parse_break, parse_call, parse_call_tail,
    parse_declaration, parse_expression, parse_expression_statement, parse_fn_decl, parse_if,
    parse_items, parse_loop, parse_params, parse_primary, parse_program, parse_program_items,
    parse_return, parse_statement, parse_unary, parse_while, span_of, tokens_left,
    Closer, Step,
};
use crate::lex::{token_views, Token, TokenType, TokenView};

verus! {

/// A parser over a buffer of tokens.
pub struct Parser {
    tokens: Vec<Token>,
    pos: usize,
    inside_fn_depth: usize,
    inside_loop_depth: usize,
}

/// The mathematical value of a [`Parser`].
pub struct ParserView {
    /// All the tokens: those behind the cursor too.
    pub tokens: Seq<TokenView>,
    /// The number of tokens behind the cursor.
    pub pos: nat,
    /// The number of function bodies around the cursor.
    pub fn_depth: nat,
    /// The number of loop bodies around the cursor.
    pub loop_depth: nat,
}

impl ParserView {
    /// The cursor is inside the tokens or at their end, and there are no
    /// more bodies around it than tokens behind it.
    pub open spec fn wf(self) -> bool {
        &&& self.pos <= self.tokens.len()
        &&& self.fn_depth <= self.pos
        &&& self.loop_depth <= self.pos
    }
}

impl View for Parser {
    type V = ParserView;

    closed spec fn view(&self) -> ParserView {
        ParserView {
            tokens: token_views(self.tokens@),
            pos: self.pos as nat,
            fn_depth: self.inside_fn_depth as nat,
            loop_depth: self.inside_loop_depth as nat,
        }
    }
}

/// The value of what a rule has returned.
pub open spec fn outcome<T: View>(res: Result<T, ParseError>) -> Result<T::V, ParseErrorView> {
    match res {
        Ok(value) => Ok(value@),
        Err(e) => Err(e@),
    }
}

/// The value of a returned list of expressions.
spec fn exprs_outcome(res: Result<Vec<Expr>, ParseError>) -> Result<
    Seq<ExprView>,
    ParseErrorView,
> {
    match res {
        Ok(list) => Ok(expr_views(list@)),
        Err(e) => Err(e@),
    }
}

/// The value of a returned list of statements.
spec fn stmts_outcome(res: Result<Vec<Stmt>, ParseError>) -> Result<
    Seq<StmtView>,
    ParseErrorView,
> {
    match res {
        Ok(list) => Ok(stmt_views(list@)),
        Err(e) => Err(e@),
    }
}

/// The value of a returned list of names.
spec fn idents_outcome(res: Result<Vec<Ident>, ParseError>) -> Result<
    Seq<IdentView>,
    ParseErrorView,
> {
    match res {
        Ok(list) => Ok(ident_views(list@)),
        Err(e) => Err(e@),
    }
}

/// A parser at the start of `tokens`, outside every function body and loop
/// body.
pub fn parser(tokens: Vec<Token>) -> (parser: Parser)
    ensures
        parser.wf(),
        parser@ == (ParserView {
            tokens: token_views(tokens@),
            pos: 0,
            fn_depth: 0,
            loop_depth: 0,
        }),
{
    Parser { tokens, pos: 0, inside_fn_depth: 0, inside_loop_depth: 0 }
}

/// Parses all of `tokens` as a program. Tokens that no statement takes make
/// the parse fail: on success nothing is left over.
pub fn parse(tokens: Vec<Token>) -> (res: Result<Program, ParseError>)
    ensures
        outcome(res) == parse_program(token_views(tokens@)),
{
    let mut parser = parser(tokens);
    match parser.program_items() {
        Ok(stmts) => Ok(Program(stmts)),
        Err(e) => Err(e),
    }
}

impl Parser {
    /// The cursor is inside the tokens or at their end, and there are no
    /// more bodies around it than tokens behind it.
    pub open spec fn wf(&self) -> bool {
        self@.wf()
    }

    /// How a call that computes the rule `step` leaves the parser, given its
    /// state `before` the call and the value `outcome` of what it returned:
    /// the tokens and the depths are as before, the cursor has moved over
    /// the tokens that the rule took, and the result is the rule's.
    pub open spec fn stepped<V>(
        &self,
        before: ParserView,
        outcome: Result<V, ParseErrorView>,
        step: Step<V>,
    ) -> bool {
        &&& self.wf()
        &&& self@.tokens == before.tokens
        &&& self@.fn_depth == before.fn_depth
        &&& self@.loop_depth == before.loop_depth
        &&& self@.pos == before.pos + step.consumed
        &&& outcome == step.result
    }

    /// A parser at the start of `tokens`, outside every function body and
    /// loop body.
    pub fn new(tokens: Vec<Token>) -> (parser: Parser)
        ensures
            parser.wf(),
            parser@ == (ParserView {
                tokens: token_views(tokens@),
                pos: 0,
                fn_depth: 0,
                loop_depth: 0,
            }),
    {
        Parser { tokens, pos: 0, inside_fn_depth: 0, inside_loop_depth: 0 }
    }

    /// The number of tokens behind the cursor.
    pub fn position(&self) -> (pos: usize)
        ensures
            pos == self@.pos,
    {
        self.pos
    }

    /// Whether the cursor is behind the last token.
    pub fn is_at_end(&self) -> (at_end: bool)
        ensures
            at_end == (self@.pos >= self@.tokens.len()),
    {
        self.pos >= self.tokens.len()
    }

    /// The number of function bodies around the cursor.
    pub fn inside_fn_depth(&self) -> (depth: usize)
        ensures
            depth == self@.fn_depth,
    {
        self.inside_fn_depth
    }

    /// The number of loop bodies around the cursor.
    pub fn inside_loop_depth(&self) -> (depth: usize)
        ensures
            depth == self@.loop_depth,
    {
        self.inside_loop_depth
    }

    /// The kind of the token at the cursor.
    fn kind(&self) -> (kind: Option<&TokenType>)
        requires
            self.wf(),
        ensures
            match kind {
                Some(k) => kind_at(self@.tokens, self@.pos) == Some(k@),
                None => kind_at(self@.tokens, self@.pos) is None,
            },
    {
        if self.pos < self.tokens.len() {
            Some(&self.tokens[self.pos].kind)
        } else {
            None
        }
    }

    /// The span of the token at the cursor.
    fn span_here(&self) -> (span: Span)
        requires
            self.wf(),
            self@.pos < self@.tokens.len(),
        ensures
            span == span_of(self@.tokens, self@.pos),
    {
        self.tokens[self.pos].span
    }

    /// The span of the token just behind the cursor.
    fn span_back(&self) -> (span: Span)
        requires
            self.wf(),
            self@.pos >= 1,
        ensures
            span == span_of(self@.tokens, (self@.pos - 1) as nat),
    {
        self.tokens[self.pos - 1].span
    }

    /// Whether a token like `kind` stands at the cursor.
    fn at(&self, kind: &TokenType) -> (yes: bool)
        requires
            self.wf(),
        ensures
            yes == (kind_at(self@.tokens, self@.pos) == Some(kind@)),
    {
        if self.pos < self.tokens.len() {
            self.tokens[self.pos].kind.same(kind)
        } else {
            false
        }
    }

    /// Takes the token at the cursor if it is like `kind` and gives its
    /// span; fails on the spot if it is not.
    fn expect(&mut self, kind: &TokenType, expected: Expected) -> (res: Result<Span, ParseError>)
        requires
            old(self).wf(),
        ensures
            final(self).wf(),
            match res {
                Ok(span) => {
                    &&& kind_at(old(self)@.tokens, old(self)@.pos) == Some(kind@)
                    &&& span == span_of(old(self)@.tokens, old(self)@.pos)
                    &&& final(self)@ == (ParserView { pos: old(self)@.pos + 1, ..old(self)@ })
                },
                Err(e) => {
                    &&& kind_at(old(self)@.tokens, old(self)@.pos) != Some(kind@)
                    &&& e@ == missing(old(self)@.tokens, old(self)@.pos, expected)
                    &&& final(self)@ == old(self)@
                },
            },
    {
        if self.at(kind) {
            let span = self.span_here();
            self.advance();
            Ok(span)
        } else {
            Err(self.unexpected(expected))
        }
    }

    /// Moves the cursor over one token.
    fn advance(&mut self)
        requires
            old(self).wf(),
            old(self)@.pos < old(self)@.tokens.len(),
        ensures
            final(self).wf(),
            final(self)@ == (ParserView { pos: old(self)@.pos + 1, ..old(self)@ }),
    {
        assert(self.pos < self.tokens.len());
        self.pos = self.pos + 1;
    }

    /// The failure at the cursor, where `expected` is needed.
    fn unexpected(&self, expected: Expected) -> (e: ParseError)
        requires
            self.wf(),
        ensures
            e@ == missing(self@.tokens, self@.pos, expected),
    {
        let len = self.tokens.len();
        if self.pos < len {
            ParseError::UnexpectedToken { expected, found: self.tokens[self.pos].clone() }
        } else if len == 0 {
            ParseError::UnexpectedEof { expected, span: Span::dummy() }
        } else {
            ParseError::UnexpectedEof { expected, span: self.tokens[len - 1].span.after() }
        }
    }

    /// The binary operator of level `level` at the cursor.
    fn operator(&self, level: u8) -> (op: Option<BinaryOpKind>)
        requires
            self.wf(),
        ensures
            op == operator_at(self@.tokens, self@.pos, level as nat),
    {
        match self.kind() {
            Some(TokenType::Or) => if level == 0 {
                Some(BinaryOpKind::Or)
            } else {
                None
            },
            Some(TokenType::And) => if level == 1 {
                Some(BinaryOpKind::And)
            } else {
                None
            },
            Some(TokenType::EqualEqual) => if level == 2 {
                Some(BinaryOpKind::Equal)
            } else {
                None
            },
            Some(TokenType::BangEqual) => if level == 2 {
                Some(BinaryOpKind::NotEqual)
            } else {
                None
            },
            Some(TokenType::Greater) => if level == 3 {
                Some(BinaryOpKind::Greater)
            } else {
                None
            },
            Some(TokenType::GreaterEqual) => if level == 3 {
                Some(BinaryOpKind::GreaterEqual)
            } else {
                None
            },
            Some(TokenType::Less) => if level == 3 {
                Some(BinaryOpKind::Less)
            } else {
                None
            },
            Some(TokenType::LessEqual) => if level == 3 {
                Some(BinaryOpKind::LessEqual)
            } else {
                None
            },
            Some(TokenType::Plus) => if level == 4 {
                Some(BinaryOpKind::Add)
            } else {
                None
            },
            Some(TokenType::Minus) => if level == 4 {
                Some(BinaryOpKind::Sub)
            } else {
                None
            },
            Some(TokenType::Asterisk) => if level == 5 {
                Some(BinaryOpKind::Mul)
            } else {
                None
            },
            Some(TokenType::Slash) => if level == 5 {
                Some(BinaryOpKind::Div)
            } else {
                None
            },
            Some(TokenType::Percent) => if level == 5 {
                Some(BinaryOpKind::Mod)
            } else {
                None
            },
            _ => None,
        }
    }

    /// The name at the cursor.
    fn ident(&self) -> (name: Option<Ident>)
        requires
            self.wf(),
        ensures
            match name {
                Some(id) => ident_at(self@.tokens, self@.pos) == Some(id@),
                None => ident_at(self@.tokens, self@.pos) is None,
            },
    {
        match self.kind() {
            Some(TokenType::Ident(name)) => Some(
                Ident { name: name.clone(), span: self.span_here() },
            ),
            _ => None,
        }
    }

    /// Whether the token that closes a list stands at the cursor.
    fn closes(&self, closer: Closer) -> (yes: bool)
        requires
            self.wf(),
        ensures
            yes == closer.closes(kind_at(self@.tokens, self@.pos)),
    {
        match closer {
            Closer::Paren => self.at(&TokenType::ParenC),
            Closer::Bracket => self.at(&TokenType::BracketC),
        }
    }

    /// Parses an expression.
    pub fn expression(&mut self) -> (res: Result<Expr, ParseError>)
        requires
            old(self).wf(),
        ensures
            final(self).stepped(
                old(self)@,
                outcome(res),
                parse_expression(old(self)@.tokens, old(self)@.pos),
            ),
        decreases tokens_left(old(self)@.tokens, old(self)@.pos), 27nat,
    {
        self.binary(0)
    }

    /// Parses operands joined by `||`.
    pub fn logical_or(&mut self) -> (res: Result<Expr, ParseError>)
        requires
            old(self).wf(),
        ensures
            final(self).stepped(
                old(self)@,
                outcome(res),
                parse_binary(old(self)@.tokens, old(self)@.pos, 0),
            ),
    {
        self.binary(0)
    }

    /// Parses operands joined by `&&`.
    pub fn logical_and(&mut self) -> (res: Result<Expr, ParseError>)
        requires
            old(self).wf(),
        ensures
            final(self).stepped(
                old(self)@,
                outcome(res),
                parse_binary(old(self)@.tokens, old(self)@.pos, 1),
            ),
    {
        self.binary(1)
    }

    /// Parses operands joined by `==` and `!=`.
    pub fn equality(&mut self) -> (res: Result<Expr, ParseError>)
        requires
            old(self).wf(),
        ensures
            final(self).stepped(
                old(self)@,
                outcome(res),
                parse_binary(old(self)@.tokens, old(self)@.pos, 2),
            ),
    {
        self.binary(2)
    }

    /// Parses operands joined by `>`, `>=`, `<` and `<=`.
    pub fn comparison(&mut self) -> (res: Result<Expr, ParseError>)
        requires
            old(self).wf(),
        ensures
            final(self).stepped(
                old(self)@,
                outcome(res),
                parse_binary(old(self)@.tokens, old(self)@.pos, 3),
            ),
    {
        self.binary(3)
    }

    /// Parses operands joined by `+` and `-`.
    pub fn term(&mut self) -> (res: Result<Expr, ParseError>)
        requires
            old(self).wf(),
        ensures
            final(self).stepped(
                old(self)@,
                outcome(res),
                parse_binary(old(self)@.tokens, old(self)@.pos, 4),
            ),
    {
        self.binary(4)
    }

    /// Parses operands joined by `*`, `/` and `%`.
    pub fn factor(&mut self) -> (res: Result<Expr, ParseError>)
        requires
            old(self).wf(),
        ensures
            final(self).stepped(
                old(self)@,
                outcome(res),
                parse_binary(old(self)@.tokens, old(self)@.pos, 5),
            ),
    {
        self.binary(5)
    }

    /// Parses the binary operators of level `level` and tighter: the first
    /// operand, then operator after operator, each folded at once into what
    /// stands to its left.
    fn binary(&mut self, level: u8) -> (res: Result<Expr, ParseError>)
        requires
            old(self).wf(),
            level <= 6,
        ensures
            final(self).stepped(
                old(self)@,
                outcome(res),
                parse_binary(old(self)@.tokens, old(self)@.pos, level as nat),
            ),
        decreases tokens_left(old(self)@.tokens, old(self)@.pos), (26 - level) as nat,
    {
        if level >= 6 {
            return self.unary();
        }
        let ghost before = self@;
        let ghost toks = self@.tokens;
        let mut lhs = match self.binary(level + 1) {
            Ok(e) => e,
            Err(e) => {
                return Err(e);
            },
        };
        loop
            invariant
                self.wf(),
                before == old(self)@,
                before.wf(),
                toks == before.tokens,
                self@.tokens == toks,
                self@.fn_depth == before.fn_depth,
                self@.loop_depth == before.loop_depth,
                before.pos <= self@.pos,
                level < 6,
                parse_binary(toks, before.pos, level as nat) == parse_binary_tail(
                    toks,
                    self@.pos,
                    level as nat,
                    lhs@,
                ).after((self@.pos - before.pos) as nat),
            decreases tokens_left(toks, self@.pos),
        {
            let kind = match self.operator(level) {
                Some(kind) => kind,
                None => {
                    return Ok(lhs);
                },
            };
            self.advance();
            let rhs = match self.binary(level + 1) {
                Ok(e) => e,
                Err(e) => {
                    return Err(e);
                },
            };
            let span = lhs.span().to(rhs.span());
            lhs = Expr::BinaryOp(Box::new(BinaryOp { span, lhs, rhs, kind }));
        }
    }

    /// Parses prefix operators and what they apply to.
    pub fn unary(&mut self) -> (res: Result<Expr, ParseError>)
        requires
            old(self).wf(),
        ensures
            final(self).stepped(
                old(self)@,
                outcome(res),
                parse_unary(old(self)@.tokens, old(self)@.pos),
            ),
        decreases tokens_left(old(self)@.tokens, old(self)@.pos), 15nat,
    {
        let kind = match self.kind() {
            Some(TokenType::Not) => UnaryOpKind::Not,
            Some(TokenType::Minus) => UnaryOpKind::Neg,
            _ => {
                return self.call();
            },
        };
        let start = self.span_here();
        self.advance();
        match self.unary() {
            Err(e) => Err(e),
            Ok(expr) => {
                let span = start.to(expr.span());
                Ok(Expr::UnaryOp(Box::new(UnaryOp { span, expr, kind })))
            },
        }
    }

    /// Parses a primary expression and the member accesses and invocations
    /// that follow it.
    pub fn call(&mut self) -> (res: Result<Expr, ParseError>)
        requires
            old(self).wf(),
        ensures
            final(self).stepped(
                old(self)@,
                outcome(res),
                parse_call(old(self)@.tokens, old(self)@.pos),
            ),
        decreases tokens_left(old(self)@.tokens, old(self)@.pos), 14nat,
    {
        let ghost before = self@;
        let ghost toks = self@.tokens;
        let mut callee = match self.primary() {
            Ok(e) => e,
            Err(e) => {
                return Err(e);
            },
        };
        loop
            invariant
                self.wf(),
                before == old(self)@,
                before.wf(),
                toks == before.tokens,
                self@.tokens == toks,
                self@.fn_depth == before.fn_depth,
                self@.loop_depth == before.loop_depth,
                before.pos <= self@.pos,
                parse_call(toks, before.pos) == parse_call_tail(toks, self@.pos, callee@).after(
                    (self@.pos - before.pos) as nat,
                ),
            decreases tokens_left(toks, self@.pos),
        {
            let is_dot = self.at(&TokenType::Dot);
            let is_paren = self.at(&TokenType::ParenO);
            if is_dot {
                self.advance();
                let name = match self.ident() {
                    Some(name) => name,
                    None => {
                        return Err(self.unexpected(Expected::Identifier));
                    },
                };
                self.advance();
                let span = callee.span().to(name.span);
                callee = Expr::Call(Box::new(Call { callee, span, kind: CallKind::Field(name) }));
            } else if is_paren {
                self.advance();
                let args = match self.items(Closer::Paren) {
                    Ok(args) => args,
                    Err(e) => {
                        return Err(e);
                    },
                };
                let span = callee.span().to(self.span_back());
                proof {
                    lemma_args_view(callee, span, args);
                }
                callee = Expr::Call(Box::new(Call { callee, span, kind: CallKind::Fn(args) }));
            } else {
                return Ok(callee);
            }
        }
    }

    /// Parses a name, a literal, or an expression in parentheses.
    pub fn primary(&mut self) -> (res: Result<Expr, ParseError>)
        requires
            old(self).wf(),
        ensures
            final(self).stepped(
                old(self)@,
                outcome(res),
                parse_primary(old(self)@.tokens, old(self)@.pos),
            ),
        decreases tokens_left(old(self)@.tokens, old(self)@.pos), 10nat,
    {
        if self.pos >= self.tokens.len() {
            return Err(self.unexpected(Expected::Expression));
        }
        let here = self.span_here();
        let simple = match self.kind() {
            Some(TokenType::Ident(name)) => Some(Expr::Ident(Ident { name: name.clone(), span: here })),
            Some(TokenType::Number(text)) => Some(Expr::Literal(Literal::Number(text.clone(), here))),
            Some(TokenType::String(text)) => Some(Expr::Literal(Literal::String(text.clone(), here))),
            Some(TokenType::True) => Some(Expr::Literal(Literal::Boolean(true, here))),
            Some(TokenType::False) => Some(Expr::Literal(Literal::Boolean(false, here))),
            Some(TokenType::Null) => Some(Expr::Literal(Literal::Null(here))),
            _ => None,
        };
        if let Some(expr) = simple {
            self.advance();
            return Ok(expr);
        }
        let is_bracket = self.at(&TokenType::BracketO);
        let is_brace = self.at(&TokenType::BraceO);
        let is_paren = self.at(&TokenType::ParenO);
        if is_bracket {
            let open = self.span_here();
            self.advance();
            match self.items(Closer::Bracket) {
                Err(e) => Err(e),
                Ok(items) => {
                    let span = open.to(self.span_back());
                    proof {
                        lemma_array_view(items, span);
                    }
                    Ok(Expr::Literal(Literal::Array(items, span)))
                },
            }
        } else if is_brace {
            let open = self.span_here();
            self.advance();
            if self.at(&TokenType::BraceC) {
                let span = open.to(self.span_here());
                self.advance();
                Ok(Expr::Literal(Literal::Object(span)))
            } else {
                Err(self.unexpected(Expected::BraceC))
            }
        } else if is_paren {
            self.advance();
            match self.expression() {
                Err(e) => Err(e),
                Ok(expr) => {
                    if self.at(&TokenType::ParenC) {
                        self.advance();
                        Ok(expr)
                    } else {
                        Err(self.unexpected(Expected::ParenC))
                    }
                },
            }
        } else {
            Err(self.unexpected(Expected::Expression))
        }
    }

    /// Parses expressions separated by commas, and the token that closes
    /// the list.
    fn items(&mut self, closer: Closer) -> (res: Result<Vec<Expr>, ParseError>)
        requires
            old(self).wf(),
        ensures
            final(self).stepped(
                old(self)@,
                exprs_outcome(res),
                parse_items(old(self)@.tokens, old(self)@.pos, closer),
            ),
        decreases tokens_left(old(self)@.tokens, old(self)@.pos), 30nat,
    {
        let ghost before = self@;
        let ghost toks = self@.tokens;
        let mut items: Vec<Expr> = Vec::new();
        proof {
            assert(expr_views(items@) =~= Seq::<ExprView>::empty());
            let all = parse_items(toks, before.pos, closer);
            if let Ok(list) = all.result {
                assert(Seq::<ExprView>::empty() + list =~= list);
            }
        }
        loop
            invariant
                self.wf(),
                before == old(self)@,
                before.wf(),
                toks == before.tokens,
                self@.tokens == toks,
                self@.fn_depth == before.fn_depth,
                self@.loop_depth == before.loop_depth,
                before.pos <= self@.pos,
                items@.len() > 0 ==> before.pos < self@.pos,
                parse_items(toks, before.pos, closer) == parse_items(toks, self@.pos, closer).after(
                    (self@.pos - before.pos) as nat,
                ).with_front(expr_views(items@)),
            decreases tokens_left(toks, self@.pos),
        {
            let ghost front = expr_views(items@);
            if self.closes(closer) {
                self.advance();
                proof {
                    assert(front + Seq::<ExprView>::empty() =~= front);
                }
                return Ok(items);
            }
            let item = match self.expression() {
                Ok(e) => e,
                Err(e) => {
                    return Err(e);
                },
            };
            let ghost first = item@;
            proof {
                lemma_expr_views_push(items@, item);
            }
            if self.at(&TokenType::Comma) {
                self.advance();
                items.push(item);
                proof {
                    let rest = parse_items(toks, self@.pos, closer);
                    if let Ok(list) = rest.result {
                        assert(front + (seq![first] + list) =~= front.push(first) + list);
                    }
                }
            } else if self.closes(closer) {
                self.advance();
                items.push(item);
                proof {
                    assert(front + seq![first] =~= front.push(first));
                }
                return Ok(items);
            } else {
                return Err(self.unexpected(closer.expected()));
            }
        }
    }

    /// Parses names separated by commas, and the `)` that closes the list.
    fn params(&mut self) -> (res: Result<Vec<Ident>, ParseError>)
        requires
            old(self).wf(),
        ensures
            final(self).stepped(
                old(self)@,
                idents_outcome(res),
                parse_params(old(self)@.tokens, old(self)@.pos),
            ),
    {
        let ghost before = self@;
        let ghost toks = self@.tokens;
        let mut names: Vec<Ident> = Vec::new();
        proof {
            assert(ident_views(names@) =~= Seq::<IdentView>::empty());
            let all = parse_params(toks, before.pos);
            if let Ok(list) = all.result {
                assert(Seq::<IdentView>::empty() + list =~= list);
            }
        }
        loop
            invariant
                self.wf(),
                before == old(self)@,
                toks == before.tokens,
                self@.tokens == toks,
                self@.fn_depth == before.fn_depth,
                self@.loop_depth == before.loop_depth,
                before.pos <= self@.pos,
                parse_params(toks, before.pos) == parse_params(toks, self@.pos).after(
                    (self@.pos - before.pos) as nat,
                ).with_front(ident_views(names@)),
            decreases tokens_left(toks, self@.pos),
        {
            let ghost front = ident_views(names@);
            if self.at(&TokenType::ParenC) {
                self.advance();
                proof {
                    assert(front + Seq::<IdentView>::empty() =~= front);
                }
                return Ok(names);
            }
            let name = match self.ident() {
                Some(name) => name,
                None => {
                    return Err(self.unexpected(Expected::Identifier));
                },
            };
            let ghost first = name@;
            proof {
                lemma_ident_views_push(names@, name);
            }
            self.advance();
            if self.at(&TokenType::Comma) {
                self.advance();
                names.push(name);
                proof {
                    let rest = parse_params(toks, self@.pos);
                    if let Ok(list) = rest.result {
                        assert(front + (seq![first] + list) =~= front.push(first) + list);
                    }
                }
            } else if self.at(&TokenType::ParenC) {
                self.advance();
                names.push(name);
                proof {
                    assert(front + seq![first] =~= front.push(first));
                }
                return Ok(names);
            } else {
                return Err(self.unexpected(Expected::ParenC));
            }
        }
    }

    /// Parses one statement.
    pub fn statement(&mut self) -> (res: Result<Stmt, ParseError>)
        requires
            old(self).wf(),
        ensures
            final(self).stepped(
                old(self)@,
                outcome(res),
                parse_statement(
                    old(self)@.tokens,
                    old(self)@.pos,
                    old(self)@.fn_depth,
                    old(self)@.loop_depth,
                ),
            ),
        decreases tokens_left(old(self)@.tokens, old(self)@.pos), 50nat,
    {
        let is_let = self.at(&TokenType::Let);
        let is_fn = self.at(&TokenType::Fn);
        let is_if = self.at(&TokenType::If);
        let is_loop = self.at(&TokenType::Loop);
        let is_while = self.at(&TokenType::While);
        let is_break = self.at(&TokenType::Break);
        let is_return = self.at(&TokenType::Return);
        let is_block = self.at(&TokenType::BraceO);
        if is_let {
            self.declaration()
        } else if is_fn {
            self.fn_decl()
        } else if is_if {
            match self.if_stmt() {
                Ok(stmt) => Ok(Stmt::If(stmt)),
                Err(e) => Err(e),
            }
        } else if is_loop {
            self.loop_stmt()
        } else if is_while {
            self.while_stmt()
        } else if is_break {
            self.break_stmt()
        } else if is_return {
            self.return_stmt()
        } else if is_block {
            match self.block() {
                Ok(block) => Ok(Stmt::Block(block)),
                Err(e) => Err(e),
            }
        } else {
            self.expression_statement()
        }
    }

    /// Parses `let name = init;`.
    fn declaration(&mut self) -> (res: Result<Stmt, ParseError>)
        requires
            old(self).wf(),
            old(self)@.pos < old(self)@.tokens.len(),
        ensures
            final(self).stepped(
                old(self)@,
                outcome(res),
                parse_declaration(old(self)@.tokens, old(self)@.pos),
            ),
    {
        let start = self.span_here();
        self.advance();
        let name = match self.ident() {
            Some(name) => name,
            None => {
                return Err(self.unexpected(Expected::Identifier));
            },
        };
        self.advance();
        if !self.at(&TokenType::Equal) {
            return Err(self.unexpected(Expected::Equal));
        }
        self.advance();
        let init = match self.expression() {
            Ok(e) => e,
            Err(e) => {
                return Err(e);
            },
        };
        if !self.at(&TokenType::Semi) {
            return Err(self.unexpected(Expected::Semi));
        }
        let span = start.to(self.span_here());
        self.advance();
        Ok(Stmt::Declaration(Declaration { span, name, init }))
    }

    /// Parses `break;`.
    fn break_stmt(&mut self) -> (res: Result<Stmt, ParseError>)
        requires
            old(self).wf(),
            old(self)@.pos < old(self)@.tokens.len(),
        ensures
            final(self).stepped(
                old(self)@,
                outcome(res),
                parse_break(old(self)@.tokens, old(self)@.pos, old(self)@.loop_depth),
            ),
    {
        let start = self.span_here();
        if self.inside_loop_depth == 0 {
            return Err(ParseError::BreakOutsideLoop(start));
        }
        self.advance();
        if !self.at(&TokenType::Semi) {
            return Err(self.unexpected(Expected::Semi));
        }
        let span = start.to(self.span_here());
        self.advance();
        Ok(Stmt::Break(span))
    }

    /// Parses `return;` or `return value;`.
    fn return_stmt(&mut self) -> (res: Result<Stmt, ParseError>)
        requires
            old(self).wf(),
            old(self)@.pos < old(self)@.tokens.len(),
        ensures
            final(self).stepped(
                old(self)@,
                outcome(res),
                parse_return(old(self)@.tokens, old(self)@.pos, old(self)@.fn_depth),
            ),
    {
        let start = self.span_here();
        if self.inside_fn_depth == 0 {
            return Err(ParseError::ReturnOutsideFunction(start));
        }
        self.advance();
        if self.at(&TokenType::Semi) {
            let span = start.to(self.span_here());
            self.advance();
            return Ok(Stmt::Return(None, span));
        }
        let value = match self.expression() {
            Ok(e) => e,
            Err(e) => {
                return Err(e);
            },
        };
        if !self.at(&TokenType::Semi) {
            return Err(self.unexpected(Expected::Semi));
        }
        let span = start.to(self.span_here());
        self.advance();
        Ok(Stmt::Return(Some(value), span))
    }

    /// Parses `expression;` or `expression = expression;`.
    fn expression_statement(&mut self) -> (res: Result<Stmt, ParseError>)
        requires
            old(self).wf(),
        ensures
            final(self).stepped(
                old(self)@,
                outcome(res),
                parse_expression_statement(old(self)@.tokens, old(self)@.pos),
            ),
    {
        let lhs = match self.expression() {
            Ok(e) => e,
            Err(e) => {
                return Err(e);
            },
        };
        if self.at(&TokenType::Semi) {
            self.advance();
            return Ok(Stmt::Expr(lhs));
        }
        if !self.at(&TokenType::Equal) {
            return Err(self.unexpected(Expected::Semi));
        }
        self.advance();
        let rhs = match self.expression() {
            Ok(e) => e,
            Err(e) => {
                return Err(e);
            },
        };
        if !self.at(&TokenType::Semi) {
            return Err(self.unexpected(Expected::Semi));
        }
        let span = lhs.span().to(self.span_here());
        self.advance();
        Ok(Stmt::Assignment(Assignment { span, lhs, rhs }))
    }

    /// Parses `fn name(params) { .. }`.
    pub fn fn_decl(&mut self) -> (res: Result<Stmt, ParseError>)
        requires
            old(self).wf(),
        ensures
            final(self).stepped(
                old(self)@,
                outcome(res),
                parse_fn_decl(
                    old(self)@.tokens,
                    old(self)@.pos,
                    old(self)@.fn_depth,
                    old(self)@.loop_depth,
                ),
            ),
        decreases tokens_left(old(self)@.tokens, old(self)@.pos), 45nat,
    {
        if !self.at(&TokenType::Fn) {
            return Err(self.unexpected(Expected::Fn));
        }
        let start = self.span_here();
        self.advance();
        let name = match self.ident() {
            Some(name) => name,
            None => {
                return Err(self.unexpected(Expected::Identifier));
            },
        };
        self.advance();
        if !self.at(&TokenType::ParenO) {
            return Err(self.unexpected(Expected::ParenO));
        }
        self.advance();
        let params = match self.params() {
            Ok(params) => params,
            Err(e) => {
                return Err(e);
            },
        };
        self.inside_fn_depth = self.inside_fn_depth + 1;
        let parsed = self.block();
        self.inside_fn_depth = self.inside_fn_depth - 1;
        match parsed {
            Err(e) => Err(e),
            Ok(body) => {
                let span = start.to(body.span);
                Ok(Stmt::FnDecl(FnDecl { span, name, params, body }))
            },
        }
    }

    /// Parses an `if` statement with all that hangs on its `else`.
    pub fn if_stmt(&mut self) -> (res: Result<IfStmt, ParseError>)
        requires
            old(self).wf(),
        ensures
            final(self).stepped(
                old(self)@,
                outcome(res),
                parse_if(
                    old(self)@.tokens,
                    old(self)@.pos,
                    old(self)@.fn_depth,
                    old(self)@.loop_depth,
                ),
            ),
        decreases tokens_left(old(self)@.tokens, old(self)@.pos), 45nat,
    {
        if !self.at(&TokenType::If) {
            return Err(self.unexpected(Expected::If));
        }
        let start = self.span_here();
        self.advance();
        let cond = match self.expression() {
            Ok(e) => e,
            Err(e) => {
                return Err(e);
            },
        };
        let body = match self.block() {
            Ok(block) => block,
            Err(e) => {
                return Err(e);
            },
        };
        if !self.at(&TokenType::Else) {
            let span = start.to(body.span);
            return Ok(IfStmt { span, cond, body, else_part: None });
        }
        let else_start = self.span_here();
        self.advance();
        if self.at(&TokenType::If) {
            match self.if_stmt() {
                Err(e) => Err(e),
                Ok(nested) => {
                    let span = start.to(nested.span);
                    let else_span = else_start.to(nested.span);
                    Ok(
                        IfStmt {
                            span,
                            cond,
                            body,
                            else_part: Some(Box::new(ElsePart::ElseIf(nested, else_span))),
                        },
                    )
                },
            }
        } else {
            match self.block() {
                Err(e) => Err(e),
                Ok(other) => {
                    let span = start.to(other.span);
                    let else_span = else_start.to(other.span);
                    Ok(
                        IfStmt {
                            span,
                            cond,
                            body,
                            else_part: Some(Box::new(ElsePart::Else(other, else_span))),
                        },
                    )
                },
            }
        }
    }

    /// Parses `loop { .. }`.
    pub fn loop_stmt(&mut self) -> (res: Result<Stmt, ParseError>)
        requires
            old(self).wf(),
        ensures
            final(self).stepped(
                old(self)@,
                outcome(res),
                parse_loop(
                    old(self)@.tokens,
                    old(self)@.pos,
                    old(self)@.fn_depth,
                    old(self)@.loop_depth,
                ),
            ),
        decreases tokens_left(old(self)@.tokens, old(self)@.pos), 45nat,
    {
        if !self.at(&TokenType::Loop) {
            return Err(self.unexpected(Expected::Loop));
        }
        let start = self.span_here();
        self.advance();
        self.inside_loop_depth = self.inside_loop_depth + 1;
        let parsed = self.block();
        self.inside_loop_depth = self.inside_loop_depth - 1;
        match parsed {
            Err(e) => Err(e),
            Ok(body) => {
                let span = start.to(body.span);
                Ok(Stmt::Loop(body, span))
            },
        }
    }

    /// Parses `while cond { .. }`.
    pub fn while_stmt(&mut self) -> (res: Result<Stmt, ParseError>)
        requires
            old(self).wf(),
        ensures
            final(self).stepped(
                old(self)@,
                outcome(res),
                parse_while(
                    old(self)@.tokens,
                    old(self)@.pos,
                    old(self)@.fn_depth,
                    old(self)@.loop_depth,
                ),
            ),
        decreases tokens_left(old(self)@.tokens, old(self)@.pos), 45nat,
    {
        if !self.at(&TokenType::While) {
            return Err(self.unexpected(Expected::While));
        }
        let start = self.span_here();
        self.advance();
        let cond = match self.expression() {
            Ok(e) => e,
            Err(e) => {
                return Err(e);
            },
        };
        self.inside_loop_depth = self.inside_loop_depth + 1;
        let parsed = self.block();
        self.inside_loop_depth = self.inside_loop_depth - 1;
        match parsed {
            Err(e) => Err(e),
            Ok(body) => {
                let span = start.to(body.span);
                Ok(Stmt::While(WhileStmt { span, cond, body }))
            },
        }
    }

    /// Parses `{`, statements, `}`.
    pub fn block(&mut self) -> (res: Result<Block, ParseError>)
        requires
            old(self).wf(),
        ensures
            final(self).stepped(
                old(self)@,
                outcome(res),
                parse_block(
                    old(self)@.tokens,
                    old(self)@.pos,
                    old(self)@.fn_depth,
                    old(self)@.loop_depth,
                ),
            ),
        decreases tokens_left(old(self)@.tokens, old(self)@.pos), 40nat,
    {
        if !self.at(&TokenType::BraceO) {
            return Err(self.unexpected(Expected::BraceO));
        }
        let open = self.span_here();
        self.advance();
        match self.block_items() {
            Err(e) => Err(e),
            Ok(stmts) => {
                let span = open.to(self.span_back());
                let block = Block { stmts, span };
                proof {
                    lemma_block_view(block);
                }
                Ok(block)
            },
        }
    }

    /// Parses statements up to the end of the tokens.
    #[verifier::rlimit(40)]
    fn program_items(&mut self) -> (res: Result<Vec<Stmt>, ParseError>)
        requires
            old(self).wf(),
            old(self)@.fn_depth == 0,
            old(self)@.loop_depth == 0,
        ensures
            final(self).stepped(
                old(self)@,
                stmts_outcome(res),
                parse_program_items(old(self)@.tokens, old(self)@.pos),
            ),
    {
        let ghost before = self@;
        let ghost toks = self@.tokens;
        let mut stmts: Vec<Stmt> = Vec::new();
        proof {
            assert(stmt_views(stmts@) =~= Seq::<StmtView>::empty());
            let all = parse_program_items(toks, before.pos);
            if let Ok(list) = all.result {
                assert(Seq::<StmtView>::empty() + list =~= list);
            }
        }
        loop
            invariant
                self.wf(),
                before == old(self)@,
                before.wf(),
                toks == before.tokens,
                self@.tokens == toks,
                self@.fn_depth == 0,
                self@.loop_depth == 0,
                before.fn_depth == 0,
                before.loop_depth == 0,
                before.pos <= self@.pos,
                parse_program_items(toks, before.pos) == parse_program_items(toks, self@.pos).after(
                    (self@.pos - before.pos) as nat,
                ).with_front(stmt_views(stmts@)),
            decreases tokens_left(toks, self@.pos),
        {
            let ghost front = stmt_views(stmts@);
            let ghost pos = self@.pos;
            if self.is_at_end() {
                proof {
                    assert(front + Seq::<StmtView>::empty() =~= front);
                }
                return Ok(stmts);
            }
            let stmt = match self.statement() {
                Ok(stmt) => stmt,
                Err(e) => {
                    return Err(e);
                },
            };
            proof {
                lemma_statement_takes_a_token(toks, pos, 0, 0);
                lemma_stmt_views_push(stmts@, stmt);
                let rest = parse_program_items(toks, self@.pos);
                if let Ok(list) = rest.result {
                    assert(front + (seq![stmt@] + list) =~= front.push(stmt@) + list);
                }
            }
            stmts.push(stmt);
        }
    }

    /// Parses the statements of a block and the `}` that closes it.
    #[verifier::rlimit(40)]
    fn block_items(&mut self) -> (res: Result<Vec<Stmt>, ParseError>)
        requires
            old(self).wf(),
        ensures
            final(self).stepped(
                old(self)@,
                stmts_outcome(res),
                parse_block_items(
                    old(self)@.tokens,
                    old(self)@.pos,
                    old(self)@.fn_depth,
                    old(self)@.loop_depth,
                ),
            ),
        decreases tokens_left(old(self)@.tokens, old(self)@.pos), 60nat,
    {
        let ghost before = self@;
        let ghost toks = self@.tokens;
        let mut stmts: Vec<Stmt> = Vec::new();
        proof {
            assert(stmt_views(stmts@) =~= Seq::<StmtView>::empty());
            let all = parse_block_items(toks, before.pos, before.fn_depth, before.loop_depth);
            if let Ok(list) = all.result {
                assert(Seq::<StmtView>::empty() + list =~= list);
            }
        }
        loop
            invariant
                self.wf(),
                before == old(self)@,
                before.wf(),
                toks == before.tokens,
                self@.tokens == toks,
                self@.fn_depth == before.fn_depth,
                self@.loop_depth == before.loop_depth,
                before.pos <= self@.pos,
                stmts@.len() > 0 ==> before.pos < self@.pos,
                parse_block_items(toks, before.pos, before.fn_depth, before.loop_depth)
                    == parse_block_items(
                    toks,
                    self@.pos,
                    before.fn_depth,
                    before.loop_depth,
                ).after((self@.pos - before.pos) as nat).with_front(stmt_views(stmts@)),
            decreases tokens_left(toks, self@.pos),
        {
            let ghost front = stmt_views(stmts@);
            let ghost pos = self@.pos;
            if self.at(&TokenType::BraceC) {
                self.advance();
                proof {
                    assert(front + Seq::<StmtView>::empty() =~= front);
                }
                return Ok(stmts);
            }
            if self.pos >= self.tokens.len() {
                return Err(self.unexpected(Expected::BraceC));
            }
            let stmt = match self.statement() {
                Ok(stmt) => stmt,
                Err(e) => {
                    return Err(e);
                },
            };
            proof {
                lemma_statement_takes_a_token(toks, pos, before.fn_depth, before.loop_depth);
                lemma_stmt_views_push(stmts@, stmt);
                let rest = parse_block_items(toks, self@.pos, before.fn_depth, before.loop_depth);
                if let Ok(list) = rest.result {
                    assert(front + (seq![stmt@] + list) =~= front.push(stmt@) + list);
                }
            }
            stmts.push(stmt);
        }
    }
}

} // verus!
