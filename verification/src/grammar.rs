//! The grammar, as functions from tokens to syntax trees.
//!
//! Each function here says what one rule makes of the tokens that start at a
//! position: the tree it yields or the failure it ends with, and how many
//! tokens it has taken by then. The parser in [`crate::parse`] computes
//! exactly these functions.
//!
//! ```text
//! program     = statement*
//! statement   = "let" IDENT "=" expression ";"
//!             | "fn" IDENT "(" params ")" block
//!             | if | "loop" block | "while" expression block
//!             | "break" ";" | "return" expression? ";"
//!             | block
//!             | expression ("=" expression)? ";"
//! if          = "if" expression block ("else" (if | block))?
//! block       = "{" statement* "}"
//! expression  = binary(0)
//! binary(n)   = binary(n+1) (operator(n) binary(n+1))*      for n < 6
//! binary(6)   = unary
//! unary       = ("!" | "-") unary | call
//! call        = primary ("." IDENT | "(" items ")")*
//! primary     = IDENT | NUMBER | STRING | "true" | "false" | "null"
//!             | "[" items "]" | "{" "}" | "(" expression ")"
//! items       = (expression ("," expression)* ","?)?
//! params      = (IDENT ("," IDENT)* ","?)?
//! ```
//!
//! The binary operators, from the loosest level to the tightest:
//! `||`; `&&`; `==` `!=`; `>` `>=` `<` `<=`; `+` `-`; `*` `/` `%`.
//! All of them associate to the left. A comma may follow the last item of a
//! list.

use vstd::prelude::*;
use crate::ast::{
    AssignmentView, BinaryOpKind, BinaryOpView, BlockView, CallKindView, CallView, DeclarationView,
    ElsePartView, ExprView, FnDeclView, IdentView, IfStmtView, LiteralView, ProgramView, StmtView,
    UnaryOpKind, UnaryOpView, WhileStmtView,
};
use crate::errors::{Expected, ParseErrorView, Span};
use crate::lex::{TokenTypeView, TokenView};

verus! {

/// What a rule makes of the tokens at a position: a tree or a failure, and
/// the number of tokens taken. After a failure the count is that of the
/// tokens in front of the offending one.
pub struct Step<T> {
    pub result: Result<T, ParseErrorView>,
    pub consumed: nat,
}

impl<T> Step<T> {
    /// The same outcome, reached after `n` more tokens in front of it.
    pub open spec fn after(self, n: nat) -> Step<T> {
        Step { result: self.result, consumed: n + self.consumed }
    }
}

/// The rule yields `value` and has taken `consumed` tokens.
pub open spec fn done<T>(value: T, consumed: nat) -> Step<T> {
    Step { result: Ok(value), consumed }
}

/// The rule fails with `error` after `consumed` tokens.
pub open spec fn failed<T>(error: ParseErrorView, consumed: nat) -> Step<T> {
    Step { result: Err(error), consumed }
}

/// How many tokens stand at `pos` and behind it.
pub open spec fn tokens_left(toks: Seq<TokenView>, pos: nat) -> nat {
    if pos < toks.len() {
        (toks.len() - pos) as nat
    } else {
        0
    }
}

/// The kind of the token at `pos`; `None` behind the last token.
pub open spec fn kind_at(toks: Seq<TokenView>, pos: nat) -> Option<TokenTypeView> {
    if pos < toks.len() {
        Some(toks[pos as int].kind)
    } else {
        None
    }
}

/// The span of the token at `pos`.
pub open spec fn span_of(toks: Seq<TokenView>, pos: nat) -> Span {
    toks[pos as int].span
}

/// The empty span behind the last token, or the dummy span without tokens.
pub open spec fn end_span(toks: Seq<TokenView>) -> Span {
    if toks.len() == 0 {
        Span::dummy()
    } else {
        toks.last().span.after()
    }
}

/// The failure at `pos`, where `expected` is needed and something else stands.
pub open spec fn missing(toks: Seq<TokenView>, pos: nat, expected: Expected) -> ParseErrorView {
    if pos < toks.len() {
        ParseErrorView::UnexpectedToken { expected, found: toks[pos as int] }
    } else {
        ParseErrorView::UnexpectedEof { expected, span: end_span(toks) }
    }
}

/// The number of levels of binary operators. Level 0 binds loosest.
pub open spec fn binary_levels() -> nat {
    6
}

/// The table of binary operators: the level and the meaning of a token.
pub open spec fn operator(kind: TokenTypeView) -> Option<(nat, BinaryOpKind)> {
    match kind {
        TokenTypeView::Or => Some((0, BinaryOpKind::Or)),
        TokenTypeView::And => Some((1, BinaryOpKind::And)),
        TokenTypeView::EqualEqual => Some((2, BinaryOpKind::Equal)),
        TokenTypeView::BangEqual => Some((2, BinaryOpKind::NotEqual)),
        TokenTypeView::Greater => Some((3, BinaryOpKind::Greater)),
        TokenTypeView::GreaterEqual => Some((3, BinaryOpKind::GreaterEqual)),
        TokenTypeView::Less => Some((3, BinaryOpKind::Less)),
        TokenTypeView::LessEqual => Some((3, BinaryOpKind::LessEqual)),
        TokenTypeView::Plus => Some((4, BinaryOpKind::Add)),
        TokenTypeView::Minus => Some((4, BinaryOpKind::Sub)),
        TokenTypeView::Asterisk => Some((5, BinaryOpKind::Mul)),
        TokenTypeView::Slash => Some((5, BinaryOpKind::Div)),
        TokenTypeView::Percent => Some((5, BinaryOpKind::Mod)),
        _ => None,
    }
}

/// The operator of level `level` that stands at `pos`, if one does.
pub open spec fn operator_at(toks: Seq<TokenView>, pos: nat, level: nat) -> Option<BinaryOpKind> {
    match kind_at(toks, pos) {
        Some(kind) => match operator(kind) {
            Some((l, op)) => if l == level {
                Some(op)
            } else {
                None
            },
            None => None,
        },
        None => None,
    }
}

/// The prefix operator that stands at `pos`, if one does.
pub open spec fn prefix_at(toks: Seq<TokenView>, pos: nat) -> Option<UnaryOpKind> {
    match kind_at(toks, pos) {
        Some(TokenTypeView::Not) => Some(UnaryOpKind::Not),
        Some(TokenTypeView::Minus) => Some(UnaryOpKind::Neg),
        _ => None,
    }
}

/// The name that stands at `pos`, if one does.
pub open spec fn ident_at(toks: Seq<TokenView>, pos: nat) -> Option<IdentView> {
    match kind_at(toks, pos) {
        Some(TokenTypeView::Ident(name)) => Some(IdentView { name, span: span_of(toks, pos) }),
        _ => None,
    }
}

/// `lhs`, `kind`, `rhs` as one expression that spans both operands.
pub open spec fn binary_node(lhs: ExprView, kind: BinaryOpKind, rhs: ExprView) -> ExprView {
    ExprView::BinaryOp(Box::new(BinaryOpView { span: lhs.span().to(rhs.span()), lhs, rhs, kind }))
}

/// What closes a list of expressions.
#[derive(Debug, Clone, Copy, PartialEq, Eq, Structural)]
pub enum Closer {
    /// `)`, behind the arguments of a call.
    Paren,
    /// `]`, behind the items of an array.
    Bracket,
}

impl Closer {
    /// Whether a token of kind `kind` closes the list.
    pub open spec fn closes(self, kind: Option<TokenTypeView>) -> bool {
        match self {
            Closer::Paren => kind == Some(TokenTypeView::ParenC),
            Closer::Bracket => kind == Some(TokenTypeView::BracketC),
        }
    }

    /// What is reported as needed where the list is not closed.
    pub open spec fn spec_expected(self) -> Expected {
        match self {
            Closer::Paren => Expected::ParenC,
            Closer::Bracket => Expected::BracketC,
        }
    }

    /// What is reported as needed where the list is not closed.
    #[verifier::when_used_as_spec(spec_expected)]
    pub fn expected(self) -> (expected: Expected)
        ensures
            expected == self.spec_expected(),
    {
        match self {
            Closer::Paren => Expected::ParenC,
            Closer::Bracket => Expected::BracketC,
        }
    }
}

/// `expression`: the loosest level of binary operators.
pub open spec fn parse_expression(toks: Seq<TokenView>, pos: nat) -> Step<ExprView>
    decreases tokens_left(toks, pos), 27nat,
{
    parse_binary(toks, pos, 0)
}

/// `binary(level)`: operands of the next level with the operators of this
/// level between them, folded from the left.
pub open spec fn parse_binary(toks: Seq<TokenView>, pos: nat, level: nat) -> Step<ExprView>
    decreases tokens_left(toks, pos),
        (if level < 6 {
            26 - level
        } else {
            20
        }) as nat,
{
    if level >= binary_levels() {
        parse_unary(toks, pos)
    } else {
        let first = parse_binary(toks, pos, level + 1);
        match first.result {
            Err(e) => first,
            Ok(lhs) => parse_binary_tail(toks, pos + first.consumed, level, lhs).after(
                first.consumed,
            ),
        }
    }
}

/// What follows the operand `lhs` of `binary(level)`: as long as an operator
/// of this level stands next, it and the operand behind it are taken and
/// folded into `lhs` at once.
pub open spec fn parse_binary_tail(
    toks: Seq<TokenView>,
    pos: nat,
    level: nat,
    lhs: ExprView,
) -> Step<ExprView>
    decreases tokens_left(toks, pos), 0nat,
{
    match operator_at(toks, pos, level) {
        Some(kind) => {
            let operand = parse_binary(toks, pos + 1, level + 1);
            match operand.result {
                Err(e) => operand.after(1),
                Ok(rhs) => parse_binary_tail(
                    toks,
                    pos + 1 + operand.consumed,
                    level,
                    binary_node(lhs, kind, rhs),
                ).after(1 + operand.consumed),
            }
        },
        None => done(lhs, 0),
    }
}

/// `unary`: prefix operators nest to the right.
pub open spec fn parse_unary(toks: Seq<TokenView>, pos: nat) -> Step<ExprView>
    decreases tokens_left(toks, pos), 15nat,
{
    match prefix_at(toks, pos) {
        Some(kind) => {
            let operand = parse_unary(toks, pos + 1);
            match operand.result {
                Err(e) => operand.after(1),
                Ok(expr) => done(
                    ExprView::UnaryOp(
                        Box::new(
                            UnaryOpView {
                                span: span_of(toks, pos).to(expr.span()),
                                expr,
                                kind,
                            },
                        ),
                    ),
                    1 + operand.consumed,
                ),
            }
        },
        None => parse_call(toks, pos),
    }
}

/// `call`: a primary expression and the member accesses and invocations
/// applied to it.
pub open spec fn parse_call(toks: Seq<TokenView>, pos: nat) -> Step<ExprView>
    decreases tokens_left(toks, pos), 14nat,
{
    let first = parse_primary(toks, pos);
    match first.result {
        Err(e) => first,
        Ok(callee) => parse_call_tail(toks, pos + first.consumed, callee).after(first.consumed),
    }
}

/// What follows `callee`: each `.name` and each `(..)` wraps what stands in
/// front of it.
pub open spec fn parse_call_tail(toks: Seq<TokenView>, pos: nat, callee: ExprView) -> Step<
    ExprView,
>
    decreases tokens_left(toks, pos), 0nat,
{
    match kind_at(toks, pos) {
        Some(TokenTypeView::Dot) => match ident_at(toks, pos + 1) {
            Some(name) => parse_call_tail(
                toks,
                pos + 2,
                ExprView::Call(
                    Box::new(
                        CallView {
                            callee,
                            span: callee.span().to(name.span),
                            kind: CallKindView::Field(name),
                        },
                    ),
                ),
            ).after(2),
            None => failed(missing(toks, pos + 1, Expected::Identifier), 1),
        },
        Some(TokenTypeView::ParenO) => {
            let args = parse_items(toks, pos + 1, Closer::Paren);
            match args.result {
                Err(e) => failed(e, 1 + args.consumed),
                Ok(list) => parse_call_tail(
                    toks,
                    pos + 1 + args.consumed,
                    ExprView::Call(
                        Box::new(
                            CallView {
                                callee,
                                span: callee.span().to(span_of(toks, pos + args.consumed)),
                                kind: CallKindView::Fn(list),
                            },
                        ),
                    ),
                ).after(1 + args.consumed),
            }
        },
        _ => done(callee, 0),
    }
}

/// `primary`. Parentheses group and leave no node of their own: the result
/// is the expression between them.
pub open spec fn parse_primary(toks: Seq<TokenView>, pos: nat) -> Step<ExprView>
    decreases tokens_left(toks, pos), 10nat,
{
    match kind_at(toks, pos) {
        Some(TokenTypeView::Ident(name)) => done(
            ExprView::Ident(IdentView { name, span: span_of(toks, pos) }),
            1,
        ),
        Some(TokenTypeView::Number(text)) => done(
            ExprView::Literal(LiteralView::Number(text, span_of(toks, pos))),
            1,
        ),
        Some(TokenTypeView::String(text)) => done(
            ExprView::Literal(LiteralView::String(text, span_of(toks, pos))),
            1,
        ),
        Some(TokenTypeView::True) => done(
            ExprView::Literal(LiteralView::Boolean(true, span_of(toks, pos))),
            1,
        ),
        Some(TokenTypeView::False) => done(
            ExprView::Literal(LiteralView::Boolean(false, span_of(toks, pos))),
            1,
        ),
        Some(TokenTypeView::Null) => done(
            ExprView::Literal(LiteralView::Null(span_of(toks, pos))),
            1,
        ),
        Some(TokenTypeView::BracketO) => {
            let items = parse_items(toks, pos + 1, Closer::Bracket);
            match items.result {
                Err(e) => failed(e, 1 + items.consumed),
                Ok(list) => done(
                    ExprView::Literal(
                        LiteralView::Array(
                            list,
                            span_of(toks, pos).to(span_of(toks, pos + items.consumed)),
                        ),
                    ),
                    1 + items.consumed,
                ),
            }
        },
        Some(TokenTypeView::BraceO) => if kind_at(toks, pos + 1) == Some(TokenTypeView::BraceC) {
            done(
                ExprView::Literal(
                    LiteralView::Object(span_of(toks, pos).to(span_of(toks, pos + 1))),
                ),
                2,
            )
        } else {
            failed(missing(toks, pos + 1, Expected::BraceC), 1)
        },
        Some(TokenTypeView::ParenO) => {
            let inner = parse_expression(toks, pos + 1);
            match inner.result {
                Err(e) => inner.after(1),
                Ok(expr) => if kind_at(toks, pos + 1 + inner.consumed) == Some(
                    TokenTypeView::ParenC,
                ) {
                    done(expr, inner.consumed + 2)
                } else {
                    failed(
                        missing(toks, pos + 1 + inner.consumed, Expected::ParenC),
                        1 + inner.consumed,
                    )
                },
            }
        },
        _ => failed(missing(toks, pos, Expected::Expression), 0),
    }
}

/// `items` and the token that closes them: expressions separated by commas.
pub open spec fn parse_items(toks: Seq<TokenView>, pos: nat, closer: Closer) -> Step<
    Seq<ExprView>,
>
    decreases tokens_left(toks, pos), 30nat,
{
    if closer.closes(kind_at(toks, pos)) {
        done(Seq::empty(), 1)
    } else {
        let first = parse_expression(toks, pos);
        match first.result {
            Err(e) => failed(e, first.consumed),
            Ok(item) => {
                let next = pos + first.consumed;
                if kind_at(toks, next) == Some(TokenTypeView::Comma) {
                    parse_items(toks, next + 1, closer).after(first.consumed + 1).with_first(item)
                } else if closer.closes(kind_at(toks, next)) {
                    done(seq![item], first.consumed + 1)
                } else {
                    failed(missing(toks, next, closer.expected()), first.consumed)
                }
            },
        }
    }
}

impl<T> Step<Seq<T>> {
    /// The same outcome with `first` in front of what it yields.
    pub open spec fn with_first(self, first: T) -> Step<Seq<T>> {
        match self.result {
            Ok(rest) => done(seq![first] + rest, self.consumed),
            Err(e) => self,
        }
    }

    /// The same outcome with `front` in front of what it yields.
    pub open spec fn with_front(self, front: Seq<T>) -> Step<Seq<T>> {
        match self.result {
            Ok(rest) => done(front + rest, self.consumed),
            Err(e) => self,
        }
    }
}

/// `params` and the `)` that closes them: names separated by commas.
pub open spec fn parse_params(toks: Seq<TokenView>, pos: nat) -> Step<Seq<IdentView>>
    decreases tokens_left(toks, pos),
{
    if kind_at(toks, pos) == Some(TokenTypeView::ParenC) {
        done(Seq::empty(), 1)
    } else {
        match ident_at(toks, pos) {
            None => failed(missing(toks, pos, Expected::Identifier), 0),
            Some(name) => if kind_at(toks, pos + 1) == Some(TokenTypeView::Comma) {
                parse_params(toks, pos + 2).after(2).with_first(name)
            } else if kind_at(toks, pos + 1) == Some(TokenTypeView::ParenC) {
                done(seq![name], 2)
            } else {
                failed(missing(toks, pos + 1, Expected::ParenC), 1)
            },
        }
    }
}

/// `let name = init;` at `pos`, where `let` stands.
pub open spec fn parse_declaration(toks: Seq<TokenView>, pos: nat) -> Step<StmtView> {
    match ident_at(toks, pos + 1) {
        None => failed(missing(toks, pos + 1, Expected::Identifier), 1),
        Some(name) => if kind_at(toks, pos + 2) != Some(TokenTypeView::Equal) {
            failed(missing(toks, pos + 2, Expected::Equal), 2)
        } else {
            let init = parse_expression(toks, pos + 3);
            match init.result {
                Err(e) => failed(e, 3 + init.consumed),
                Ok(value) => {
                    let semi = pos + 3 + init.consumed;
                    if kind_at(toks, semi) == Some(TokenTypeView::Semi) {
                        done(
                            StmtView::Declaration(
                                DeclarationView {
                                    span: span_of(toks, pos).to(span_of(toks, semi)),
                                    name,
                                    init: value,
                                },
                            ),
                            init.consumed + 4,
                        )
                    } else {
                        failed(missing(toks, semi, Expected::Semi), 3 + init.consumed)
                    }
                },
            }
        },
    }
}

/// `break;` at `pos`, where `break` stands, inside `loop_depth` loop bodies.
/// Outside every loop body this fails at once, on the `break`.
pub open spec fn parse_break(toks: Seq<TokenView>, pos: nat, loop_depth: nat) -> Step<StmtView> {
    if loop_depth == 0 {
        failed(ParseErrorView::BreakOutsideLoop(span_of(toks, pos)), 0)
    } else if kind_at(toks, pos + 1) == Some(TokenTypeView::Semi) {
        done(StmtView::Break(span_of(toks, pos).to(span_of(toks, pos + 1))), 2)
    } else {
        failed(missing(toks, pos + 1, Expected::Semi), 1)
    }
}

/// `return;` or `return value;` at `pos`, where `return` stands, inside
/// `fn_depth` function bodies. Outside every function body this fails at
/// once, on the `return`.
pub open spec fn parse_return(toks: Seq<TokenView>, pos: nat, fn_depth: nat) -> Step<StmtView> {
    if fn_depth == 0 {
        failed(ParseErrorView::ReturnOutsideFunction(span_of(toks, pos)), 0)
    } else if kind_at(toks, pos + 1) == Some(TokenTypeView::Semi) {
        done(StmtView::Return(None, span_of(toks, pos).to(span_of(toks, pos + 1))), 2)
    } else {
        let value = parse_expression(toks, pos + 1);
        match value.result {
            Err(e) => failed(e, 1 + value.consumed),
            Ok(expr) => {
                let semi = pos + 1 + value.consumed;
                if kind_at(toks, semi) == Some(TokenTypeView::Semi) {
                    done(
                        StmtView::Return(
                            Some(expr),
                            span_of(toks, pos).to(span_of(toks, semi)),
                        ),
                        value.consumed + 2,
                    )
                } else {
                    failed(missing(toks, semi, Expected::Semi), 1 + value.consumed)
                }
            },
        }
    }
}

/// `expression;` or `expression = expression;`.
pub open spec fn parse_expression_statement(toks: Seq<TokenView>, pos: nat) -> Step<StmtView> {
    let first = parse_expression(toks, pos);
    match first.result {
        Err(e) => failed(e, first.consumed),
        Ok(lhs) => {
            let next = pos + first.consumed;
            if kind_at(toks, next) == Some(TokenTypeView::Semi) {
                done(StmtView::Expr(lhs), first.consumed + 1)
            } else if kind_at(toks, next) == Some(TokenTypeView::Equal) {
                let second = parse_expression(toks, next + 1);
                match second.result {
                    Err(e) => failed(e, first.consumed + 1 + second.consumed),
                    Ok(rhs) => {
                        let semi = next + 1 + second.consumed;
                        if kind_at(toks, semi) == Some(TokenTypeView::Semi) {
                            done(
                                StmtView::Assignment(
                                    AssignmentView {
                                        span: lhs.span().to(span_of(toks, semi)),
                                        lhs,
                                        rhs,
                                    },
                                ),
                                first.consumed + second.consumed + 2,
                            )
                        } else {
                            failed(
                                missing(toks, semi, Expected::Semi),
                                first.consumed + 1 + second.consumed,
                            )
                        }
                    },
                }
            } else {
                failed(missing(toks, next, Expected::Semi), first.consumed)
            }
        },
    }
}

/// `statement`, inside `fn_depth` function bodies and `loop_depth` loop
/// bodies. The first token decides which rule applies.
pub open spec fn parse_statement(
    toks: Seq<TokenView>,
    pos: nat,
    fn_depth: nat,
    loop_depth: nat,
) -> Step<StmtView>
    decreases tokens_left(toks, pos), 50nat,
{
    match kind_at(toks, pos) {
        Some(TokenTypeView::Let) => parse_declaration(toks, pos),
        Some(TokenTypeView::Fn) => parse_fn_decl(toks, pos, fn_depth, loop_depth),
        Some(TokenTypeView::If) => {
            let step = parse_if(toks, pos, fn_depth, loop_depth);
            match step.result {
                Err(e) => failed(e, step.consumed),
                Ok(stmt) => done(StmtView::If(stmt), step.consumed),
            }
        },
        Some(TokenTypeView::Loop) => parse_loop(toks, pos, fn_depth, loop_depth),
        Some(TokenTypeView::While) => parse_while(toks, pos, fn_depth, loop_depth),
        Some(TokenTypeView::Break) => parse_break(toks, pos, loop_depth),
        Some(TokenTypeView::Return) => parse_return(toks, pos, fn_depth),
        Some(TokenTypeView::BraceO) => {
            let step = parse_block(toks, pos, fn_depth, loop_depth);
            match step.result {
                Err(e) => failed(e, step.consumed),
                Ok(block) => done(StmtView::Block(block), step.consumed),
            }
        },
        _ => parse_expression_statement(toks, pos),
    }
}

/// `fn name(params) { .. }`. The body lies one function body deeper.
pub open spec fn parse_fn_decl(
    toks: Seq<TokenView>,
    pos: nat,
    fn_depth: nat,
    loop_depth: nat,
) -> Step<StmtView>
    decreases tokens_left(toks, pos), 45nat,
{
    if kind_at(toks, pos) != Some(TokenTypeView::Fn) {
        failed(missing(toks, pos, Expected::Fn), 0)
    } else {
        match ident_at(toks, pos + 1) {
            None => failed(missing(toks, pos + 1, Expected::Identifier), 1),
            Some(name) => if kind_at(toks, pos + 2) != Some(TokenTypeView::ParenO) {
                failed(missing(toks, pos + 2, Expected::ParenO), 2)
            } else {
                let params = parse_params(toks, pos + 3);
                match params.result {
                    Err(e) => failed(e, 3 + params.consumed),
                    Ok(names) => {
                        let body = parse_block(
                            toks,
                            pos + 3 + params.consumed,
                            fn_depth + 1,
                            loop_depth,
                        );
                        match body.result {
                            Err(e) => failed(e, 3 + params.consumed + body.consumed),
                            Ok(block) => done(
                                StmtView::FnDecl(
                                    FnDeclView {
                                        span: span_of(toks, pos).to(block.span),
                                        name,
                                        params: names,
                                        body: block,
                                    },
                                ),
                                3 + params.consumed + body.consumed,
                            ),
                        }
                    },
                }
            },
        }
    }
}

/// `if`: the condition, the body, and what follows an `else`. An `if`
/// directly behind `else` continues the chain; anything else there must be
/// a block.
pub open spec fn parse_if(
    toks: Seq<TokenView>,
    pos: nat,
    fn_depth: nat,
    loop_depth: nat,
) -> Step<IfStmtView>
    decreases tokens_left(toks, pos), 45nat,
{
    if kind_at(toks, pos) != Some(TokenTypeView::If) {
        failed(missing(toks, pos, Expected::If), 0)
    } else {
        let cond = parse_expression(toks, pos + 1);
        match cond.result {
            Err(e) => failed(e, 1 + cond.consumed),
            Ok(condition) => {
                let body = parse_block(toks, pos + 1 + cond.consumed, fn_depth, loop_depth);
                match body.result {
                    Err(e) => failed(e, 1 + cond.consumed + body.consumed),
                    Ok(block) => {
                        let used = 1 + cond.consumed + body.consumed;
                        let next = pos + used;
                        if kind_at(toks, next) != Some(TokenTypeView::Else) {
                            done(
                                IfStmtView {
                                    span: span_of(toks, pos).to(block.span),
                                    cond: condition,
                                    body: block,
                                    else_part: None,
                                },
                                used,
                            )
                        } else if kind_at(toks, next + 1) == Some(TokenTypeView::If) {
                            let chained = parse_if(toks, next + 1, fn_depth, loop_depth);
                            match chained.result {
                                Err(e) => failed(e, used + 1 + chained.consumed),
                                Ok(nested) => done(
                                    IfStmtView {
                                        span: span_of(toks, pos).to(nested.span),
                                        cond: condition,
                                        body: block,
                                        else_part: Some(
                                            Box::new(
                                                ElsePartView::ElseIf(
                                                    nested,
                                                    span_of(toks, next).to(nested.span),
                                                ),
                                            ),
                                        ),
                                    },
                                    used + 1 + chained.consumed,
                                ),
                            }
                        } else {
                            let last = parse_block(toks, next + 1, fn_depth, loop_depth);
                            match last.result {
                                Err(e) => failed(e, used + 1 + last.consumed),
                                Ok(other) => done(
                                    IfStmtView {
                                        span: span_of(toks, pos).to(other.span),
                                        cond: condition,
                                        body: block,
                                        else_part: Some(
                                            Box::new(
                                                ElsePartView::Else(
                                                    other,
                                                    span_of(toks, next).to(other.span),
                                                ),
                                            ),
                                        ),
                                    },
                                    used + 1 + last.consumed,
                                ),
                            }
                        }
                    },
                }
            },
        }
    }
}

/// `loop { .. }`. The body lies one loop body deeper.
pub open spec fn parse_loop(
    toks: Seq<TokenView>,
    pos: nat,
    fn_depth: nat,
    loop_depth: nat,
) -> Step<StmtView>
    decreases tokens_left(toks, pos), 45nat,
{
    if kind_at(toks, pos) != Some(TokenTypeView::Loop) {
        failed(missing(toks, pos, Expected::Loop), 0)
    } else {
        let body = parse_block(toks, pos + 1, fn_depth, loop_depth + 1);
        match body.result {
            Err(e) => failed(e, 1 + body.consumed),
            Ok(block) => done(
                StmtView::Loop(block, span_of(toks, pos).to(block.span)),
                1 + body.consumed,
            ),
        }
    }
}

/// `while cond { .. }`. The body lies one loop body deeper; the condition
/// does not.
pub open spec fn parse_while(
    toks: Seq<TokenView>,
    pos: nat,
    fn_depth: nat,
    loop_depth: nat,
) -> Step<StmtView>
    decreases tokens_left(toks, pos), 45nat,
{
    if kind_at(toks, pos) != Some(TokenTypeView::While) {
        failed(missing(toks, pos, Expected::While), 0)
    } else {
        let cond = parse_expression(toks, pos + 1);
        match cond.result {
            Err(e) => failed(e, 1 + cond.consumed),
            Ok(condition) => {
                let body = parse_block(toks, pos + 1 + cond.consumed, fn_depth, loop_depth + 1);
                match body.result {
                    Err(e) => failed(e, 1 + cond.consumed + body.consumed),
                    Ok(block) => done(
                        StmtView::While(
                            WhileStmtView {
                                span: span_of(toks, pos).to(block.span),
                                cond: condition,
                                body: block,
                            },
                        ),
                        1 + cond.consumed + body.consumed,
                    ),
                }
            },
        }
    }
}

/// `block`: statements between braces.
pub open spec fn parse_block(
    toks: Seq<TokenView>,
    pos: nat,
    fn_depth: nat,
    loop_depth: nat,
) -> Step<BlockView>
    decreases tokens_left(toks, pos), 40nat,
{
    if kind_at(toks, pos) != Some(TokenTypeView::BraceO) {
        failed(missing(toks, pos, Expected::BraceO), 0)
    } else {
        let items = parse_block_items(toks, pos + 1, fn_depth, loop_depth);
        match items.result {
            Err(e) => failed(e, 1 + items.consumed),
            Ok(stmts) => done(
                BlockView { stmts, span: span_of(toks, pos).to(span_of(toks, pos + items.consumed)) },
                1 + items.consumed,
            ),
        }
    }
}

/// The number of tokens that a statement which took `consumed` tokens is
/// counted with. No statement takes fewer than one token
/// ([`lemma_statement_takes_a_token`]), so this is `consumed`; written so,
/// the rules that repeat statements visibly come to an end.
pub open spec fn statement_width(consumed: nat) -> nat {
    if consumed == 0 {
        1
    } else {
        consumed
    }
}

/// A statement takes at least one token.
pub proof fn lemma_statement_takes_a_token(
    toks: Seq<TokenView>,
    pos: nat,
    fn_depth: nat,
    loop_depth: nat,
)
    ensures
        parse_statement(toks, pos, fn_depth, loop_depth).result is Ok ==> parse_statement(
            toks,
            pos,
            fn_depth,
            loop_depth,
        ).consumed >= 1,
{
}

/// The statements of a block and the `}` that closes it.
pub open spec fn parse_block_items(
    toks: Seq<TokenView>,
    pos: nat,
    fn_depth: nat,
    loop_depth: nat,
) -> Step<Seq<StmtView>>
    decreases tokens_left(toks, pos), 60nat,
{
    if kind_at(toks, pos) == Some(TokenTypeView::BraceC) {
        done(Seq::empty(), 1)
    } else if pos >= toks.len() {
        failed(missing(toks, pos, Expected::BraceC), 0)
    } else {
        let first = parse_statement(toks, pos, fn_depth, loop_depth);
        match first.result {
            Err(e) => failed(e, first.consumed),
            Ok(stmt) => {
                let width = statement_width(first.consumed);
                parse_block_items(toks, pos + width, fn_depth, loop_depth).after(width).with_first(
                    stmt,
                )
            },
        }
    }
}

/// The statements from `pos` to the end of the tokens, outside every
/// function body and loop body.
pub open spec fn parse_program_items(toks: Seq<TokenView>, pos: nat) -> Step<Seq<StmtView>>
    decreases tokens_left(toks, pos),
{
    if pos >= toks.len() {
        done(Seq::empty(), 0)
    } else {
        let first = parse_statement(toks, pos, 0, 0);
        match first.result {
            Err(e) => failed(e, first.consumed),
            Ok(stmt) => {
                let width = statement_width(first.consumed);
                parse_program_items(toks, pos + width).after(width).with_first(stmt)
            },
        }
    }
}

/// `program`: all the tokens, as statements.
pub open spec fn parse_program(toks: Seq<TokenView>) -> Result<ProgramView, ParseErrorView> {
    match parse_program_items(toks, 0).result {
        Ok(stmts) => Ok(ProgramView(stmts)),
        Err(e) => Err(e),
    }
}

} // verus!
