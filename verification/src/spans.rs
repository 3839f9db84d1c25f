//! Where the spans of a syntax tree lie.
//!
//! When the spans of the tokens follow one another, as those of the scanner
//! do ([`crate::laws::lemma_token_spans_in_order`]), the span of every node
//! lies within the tokens that the node was made of, and a node's span
//! covers the spans of its parts. Parentheses leave no node, so the span of
//! `(a)` is that of `a`: the span of an expression may start behind the
//! first token taken and end before the last. The span of a block and of an
//! `if` statement is exactly that of the tokens taken.

use vstd::prelude::*;
use crate::ast::{
    BlockView, CallKindView, CallView, ElsePartView, ExprView, IdentView, IfStmtView, LiteralView,
    StmtView,
};
use crate::errors::Span;
use crate::grammar::{
    binary_levels, binary_node, done, ident_at, kind_at, operator_at,
    parse_binary, parse_binary_tail, parse_block, parse_block_items, parse_break, parse_call,
    parse_call_tail, parse_declaration, parse_expression, parse_expression_statement,
    parse_fn_decl, parse_return, parse_if, parse_items, parse_loop, parse_params,
    parse_primary, parse_program_items, parse_statement, parse_unary, parse_while, prefix_at,
    span_of, tokens_left, Closer, Step,
};
use crate::laws::{
    lemma_binary_in_bounds, lemma_block_items_in_bounds,
    lemma_expression_in_bounds, lemma_if_in_bounds, lemma_items_in_bounds,
    lemma_params_in_bounds, lemma_unary_in_bounds,
};
use crate::laws::lemma_token_spans_in_order;
use crate::lex::{spec_lex, TokenTypeView, TokenView};
use crate::spec_parse_source;

verus! {

/// No token span ends before it starts, and each token ends before the
/// next one starts.
pub open spec fn spans_ordered(toks: Seq<TokenView>) -> bool {
    &&& forall|i: int| 0 <= i < toks.len() ==> (#[trigger] toks[i]).span.start <= toks[i].span.end
    &&& forall|i: int, j: int|
        0 <= i < j < toks.len() ==> (#[trigger] toks[i]).span.end <= (#[trigger] toks[j]).span.start
}

/// `inner` lies within `outer`, and does not end before it starts.
pub open spec fn covers(outer: Span, inner: Span) -> bool {
    outer.start <= inner.start && inner.start <= inner.end && inner.end <= outer.end
}

/// From the start of the token at `pos` to the end of the last of the `n`
/// tokens there.
pub open spec fn extent(toks: Seq<TokenView>, pos: nat, n: nat) -> Span {
    Span { start: span_of(toks, pos).start, end: span_of(toks, (pos + n - 1) as nat).end }
}

/// Every node of `e` covers its parts, and the parts follow one another.
pub open spec fn expr_nested(e: ExprView) -> bool
    decreases e,
{
    match e {
        ExprView::Ident(id) => id.span.start <= id.span.end,
        ExprView::Literal(LiteralView::Array(items, span)) => {
            &&& span.start <= span.end
            &&& forall|i: int|
                0 <= i < items.len() ==> covers(span, (#[trigger] items[i]).span()) && expr_nested(
                    items[i],
                )
        },
        ExprView::Literal(lit) => lit.span().start <= lit.span().end,
        ExprView::UnaryOp(op) => covers(op.span, op.expr.span()) && expr_nested(op.expr),
        ExprView::BinaryOp(op) => {
            &&& covers(op.span, op.lhs.span())
            &&& covers(op.span, op.rhs.span())
            &&& op.lhs.span().end <= op.rhs.span().start
            &&& expr_nested(op.lhs)
            &&& expr_nested(op.rhs)
        },
        ExprView::Call(call) => {
            &&& covers(call.span, call.callee.span())
            &&& expr_nested(call.callee)
            &&& match call.kind {
                CallKindView::Field(name) => covers(call.span, name.span)
                    && call.callee.span().end <= name.span.start,
                CallKindView::Fn(args) => forall|i: int|
                    0 <= i < args.len() ==> {
                        &&& covers(call.span, (#[trigger] args[i]).span())
                        &&& call.callee.span().end <= args[i].span().start
                        &&& expr_nested(args[i])
                    },
            }
        },
    }
}

/// What the laws of this module say of a rule that yields an expression
/// from `pos`: it takes at least one token, ends inside the tokens, and its
/// span lies within the tokens taken and is nested.
pub open spec fn expr_placed(toks: Seq<TokenView>, pos: nat, step: Step<ExprView>) -> bool {
    step.result matches Ok(e) ==> {
        &&& step.consumed >= 1
        &&& pos + step.consumed <= toks.len()
        &&& covers(extent(toks, pos, step.consumed), e.span())
        &&& expr_nested(e)
    }
}

/// What the laws of this module say of a list of expressions from `pos`:
/// the list ends inside the tokens, with the token that closes it, and
/// every item lies within the tokens taken and is nested.
pub open spec fn items_placed(
    toks: Seq<TokenView>,
    pos: nat,
    step: Step<Seq<ExprView>>,
) -> bool {
    step.result matches Ok(list) ==> {
        &&& step.consumed >= 1
        &&& pos + step.consumed <= toks.len()
        &&& forall|i: int|
            0 <= i < list.len() ==> {
                &&& covers(extent(toks, pos, step.consumed), (#[trigger] list[i]).span())
                &&& list[i].span().end <= span_of(toks, (pos + step.consumed - 1) as nat).start
                &&& expr_nested(list[i])
            }
    }
}

/// An expression lies within the tokens it is made of, and is nested.
pub proof fn lemma_expression_spans(toks: Seq<TokenView>, pos: nat)
    requires
        spans_ordered(toks),
        pos <= toks.len(),
    ensures
        expr_placed(toks, pos, parse_expression(toks, pos)),
    decreases tokens_left(toks, pos), 27nat,
{
    lemma_binary_spans(toks, pos, 0);
}

/// What [`lemma_expression_spans`] says, of every level of binary operators.
pub proof fn lemma_binary_spans(toks: Seq<TokenView>, pos: nat, level: nat)
    requires
        spans_ordered(toks),
        pos <= toks.len(),
    ensures
        expr_placed(toks, pos, parse_binary(toks, pos, level)),
    decreases tokens_left(toks, pos),
        (if level < 6 {
            26 - level
        } else {
            20
        }) as nat,
{
    if level >= binary_levels() {
        lemma_unary_spans(toks, pos);
    } else {
        lemma_binary_spans(toks, pos, level + 1);
        let first = parse_binary(toks, pos, level + 1);
        if let Ok(lhs) = first.result {
            lemma_binary_tail_spans(toks, pos, pos + first.consumed, level, lhs);
        }
    }
}

/// What [`lemma_expression_spans`] says, of an operand `lhs` made of the
/// tokens from `start` up to `pos` and the operators that follow it.
pub proof fn lemma_binary_tail_spans(
    toks: Seq<TokenView>,
    start: nat,
    pos: nat,
    level: nat,
    lhs: ExprView,
)
    requires
        spans_ordered(toks),
        start < pos <= toks.len(),
        covers(extent(toks, start, (pos - start) as nat), lhs.span()),
        expr_nested(lhs),
    ensures
        expr_placed(
            toks,
            start,
            parse_binary_tail(toks, pos, level, lhs).after((pos - start) as nat),
        ),
    decreases tokens_left(toks, pos), 0nat,
{
    if let Some(kind) = operator_at(toks, pos, level) {
        lemma_binary_spans(toks, pos + 1, level + 1);
        lemma_binary_in_bounds(toks, pos + 1, level + 1);
        let operand = parse_binary(toks, pos + 1, level + 1);
        if let Ok(rhs) = operand.result {
            let node = binary_node(lhs, kind, rhs);
            let next = pos + 1 + operand.consumed;
            assert(lhs.span().end <= span_of(toks, (pos - 1) as nat).end);
            assert(span_of(toks, pos + 1).start <= rhs.span().start);
            assert(rhs.span().end <= span_of(toks, (next - 1) as nat).end);
            assert(expr_nested(node));
            lemma_binary_tail_spans(toks, start, next, level, node);
        }
    }
}

/// What [`lemma_expression_spans`] says, of prefix operators.
pub proof fn lemma_unary_spans(toks: Seq<TokenView>, pos: nat)
    requires
        spans_ordered(toks),
        pos <= toks.len(),
    ensures
        expr_placed(toks, pos, parse_unary(toks, pos)),
    decreases tokens_left(toks, pos), 15nat,
{
    if prefix_at(toks, pos) is Some {
        lemma_unary_spans(toks, pos + 1);
        lemma_unary_in_bounds(toks, pos + 1);
    } else {
        lemma_call_spans(toks, pos);
    }
}

/// What [`lemma_expression_spans`] says, of a chain of accesses and invocations.
pub proof fn lemma_call_spans(toks: Seq<TokenView>, pos: nat)
    requires
        spans_ordered(toks),
        pos <= toks.len(),
    ensures
        expr_placed(toks, pos, parse_call(toks, pos)),
    decreases tokens_left(toks, pos), 14nat,
{
    lemma_primary_spans(toks, pos);
    let first = parse_primary(toks, pos);
    if let Ok(callee) = first.result {
        lemma_call_tail_spans(toks, pos, pos + first.consumed, callee);
    }
}

/// What [`lemma_expression_spans`] says, of a callee made of the tokens
/// from `start` up to `pos` and what follows it.
pub proof fn lemma_call_tail_spans(toks: Seq<TokenView>, start: nat, pos: nat, callee: ExprView)
    requires
        spans_ordered(toks),
        start < pos <= toks.len(),
        covers(extent(toks, start, (pos - start) as nat), callee.span()),
        expr_nested(callee),
    ensures
        expr_placed(
            toks,
            start,
            parse_call_tail(toks, pos, callee).after((pos - start) as nat),
        ),
    decreases tokens_left(toks, pos), 0nat,
{
    match kind_at(toks, pos) {
        Some(TokenTypeView::Dot) => {
            if let Some(name) = ident_at(toks, pos + 1) {
                let node = ExprView::Call(
                    Box::new(
                        CallView {
                            callee,
                            span: callee.span().to(name.span),
                            kind: CallKindView::Field(name),
                        },
                    ),
                );
                assert(callee.span().end <= span_of(toks, (pos - 1) as nat).end);
                assert(name.span == span_of(toks, pos + 1));
                assert(expr_nested(node));
                lemma_call_tail_spans(toks, start, pos + 2, node);
            }
        },
        Some(TokenTypeView::ParenO) => {
            lemma_items_spans(toks, pos + 1, Closer::Paren);
            let args = parse_items(toks, pos + 1, Closer::Paren);
            if let Ok(list) = args.result {
                let close = span_of(toks, pos + args.consumed);
                let node = ExprView::Call(
                    Box::new(
                        CallView {
                            callee,
                            span: callee.span().to(close),
                            kind: CallKindView::Fn(list),
                        },
                    ),
                );
                assert(callee.span().end <= span_of(toks, (pos - 1) as nat).end);
                assert(span_of(toks, (pos - 1) as nat).end <= span_of(toks, pos + 1).start);
                assert forall|i: int| 0 <= i < list.len() implies {
                    &&& covers(node.span(), (#[trigger] list[i]).span())
                    &&& callee.span().end <= list[i].span().start
                    &&& expr_nested(list[i])
                } by {
                    assert(covers(extent(toks, pos + 1, args.consumed), list[i].span()));
                }
                assert(expr_nested(node));
                lemma_call_tail_spans(toks, start, pos + 1 + args.consumed, node);
            }
        },
        _ => {},
    }
}

/// What [`lemma_expression_spans`] says, of a primary expression.
pub proof fn lemma_primary_spans(toks: Seq<TokenView>, pos: nat)
    requires
        spans_ordered(toks),
        pos <= toks.len(),
    ensures
        expr_placed(toks, pos, parse_primary(toks, pos)),
    decreases tokens_left(toks, pos), 10nat,
{
    match kind_at(toks, pos) {
        Some(TokenTypeView::BracketO) => {
            lemma_array_spans(toks, pos);
        },
        Some(TokenTypeView::ParenO) => {
            lemma_group_spans(toks, pos);
        },
        Some(TokenTypeView::BraceO) => {
            if kind_at(toks, pos + 1) == Some(TokenTypeView::BraceC) {
                lemma_extent_covers(toks, pos, 2, pos, 2);
            }
        },
        _ => {
            if parse_primary(toks, pos).result is Ok {
                lemma_extent_covers(toks, pos, 1, pos, 1);
            }
        },
    }
}

/// What [`lemma_expression_spans`] says, of an array literal.
pub proof fn lemma_array_spans(toks: Seq<TokenView>, pos: nat)
    requires
        spans_ordered(toks),
        pos < toks.len(),
        kind_at(toks, pos) == Some(TokenTypeView::BracketO),
    ensures
        expr_placed(toks, pos, parse_primary(toks, pos)),
    decreases tokens_left(toks, pos), 9nat,
{
    lemma_items_spans(toks, pos + 1, Closer::Bracket);
    let items = parse_items(toks, pos + 1, Closer::Bracket);
    if let Ok(list) = items.result {
        let n = 1 + items.consumed;
        let span = span_of(toks, pos).to(span_of(toks, pos + items.consumed));
        assert(parse_primary(toks, pos) == done(
            ExprView::Literal(LiteralView::Array(list, span)),
            n,
        ));
        lemma_extent_covers(toks, pos, n, pos, n);
        assert(span == extent(toks, pos, n));
        assert forall|i: int| 0 <= i < list.len() implies covers(
            span,
            (#[trigger] list[i]).span(),
        ) && expr_nested(list[i]) by {
            assert(covers(extent(toks, pos + 1, items.consumed), list[i].span()));
            lemma_extent_covers(toks, pos, n, pos + 1, items.consumed);
        }
    }
}

/// What [`lemma_expression_spans`] says, of an expression in parentheses.
pub proof fn lemma_group_spans(toks: Seq<TokenView>, pos: nat)
    requires
        spans_ordered(toks),
        pos < toks.len(),
        kind_at(toks, pos) == Some(TokenTypeView::ParenO),
    ensures
        expr_placed(toks, pos, parse_primary(toks, pos)),
    decreases tokens_left(toks, pos), 9nat,
{
    lemma_expression_spans(toks, pos + 1);
    let inner = parse_expression(toks, pos + 1);
    if let Ok(expr) = inner.result {
        if kind_at(toks, pos + 1 + inner.consumed) == Some(TokenTypeView::ParenC) {
            assert(parse_primary(toks, pos) == done(expr, inner.consumed + 2));
            lemma_extent_covers(toks, pos, inner.consumed + 2, pos + 1, inner.consumed);
        }
    }
}

/// What [`lemma_expression_spans`] says, of a list of expressions.
#[verifier::rlimit(40)]
pub proof fn lemma_items_spans(toks: Seq<TokenView>, pos: nat, closer: Closer)
    requires
        spans_ordered(toks),
        pos <= toks.len(),
    ensures
        items_placed(toks, pos, parse_items(toks, pos, closer)),
    decreases tokens_left(toks, pos), 30nat,
{
    if !closer.closes(kind_at(toks, pos)) {
        lemma_expression_spans(toks, pos);
        let first = parse_expression(toks, pos);
        if let Ok(item) = first.result {
            let next = pos + first.consumed;
            if kind_at(toks, next) == Some(TokenTypeView::Comma) {
                lemma_items_spans(toks, next + 1, closer);
                lemma_items_in_bounds(toks, next + 1, closer);
                let more = parse_items(toks, next + 1, closer);
                if let Ok(rest) = more.result {
                    let all = seq![item] + rest;
                    let n = first.consumed + 1 + more.consumed;
                    let last = span_of(toks, (pos + n - 1) as nat);
                    assert(parse_items(toks, pos, closer) == done(all, n));
                    assert forall|i: int| 0 <= i < all.len() implies {
                        &&& covers(extent(toks, pos, n), (#[trigger] all[i]).span())
                        &&& all[i].span().end <= last.start
                        &&& expr_nested(all[i])
                    } by {
                        if i == 0 {
                            assert(item.span().end <= span_of(toks, (next - 1) as nat).end);
                        } else {
                            assert(all[i] == rest[i - 1]);
                            assert(covers(extent(toks, next + 1, more.consumed), rest[i - 1].span()));
                        }
                    }
                }
            } else if closer.closes(kind_at(toks, next)) {
                let all = seq![item];
                assert(item.span().end <= span_of(toks, (next - 1) as nat).end);
                assert forall|i: int| 0 <= i < all.len() implies {
                    &&& covers(extent(toks, pos, first.consumed + 1), (#[trigger] all[i]).span())
                    &&& all[i].span().end <= span_of(toks, next).start
                    &&& expr_nested(all[i])
                } by {
                    assert(all[i] == item);
                }
            }
        }
    }
}


/// Every node of `s` covers its parts.
pub open spec fn stmt_nested(s: StmtView) -> bool
    decreases s,
{
    match s {
        StmtView::Declaration(d) => {
            &&& covers(d.span, d.name.span)
            &&& covers(d.span, d.init.span())
            &&& d.name.span.end <= d.init.span().start
            &&& expr_nested(d.init)
        },
        StmtView::Assignment(a) => {
            &&& covers(a.span, a.lhs.span())
            &&& covers(a.span, a.rhs.span())
            &&& a.lhs.span().end <= a.rhs.span().start
            &&& expr_nested(a.lhs)
            &&& expr_nested(a.rhs)
        },
        StmtView::FnDecl(f) => {
            &&& covers(f.span, f.name.span)
            &&& forall|i: int| 0 <= i < f.params.len() ==> covers(f.span, (#[trigger] f.params[i]).span)
            &&& covers(f.span, f.body.span)
            &&& f.name.span.end <= f.body.span.start
            &&& block_nested(f.body)
        },
        StmtView::If(i) => if_nested(i),
        StmtView::Loop(body, span) => covers(span, body.span) && block_nested(body),
        StmtView::While(w) => {
            &&& covers(w.span, w.cond.span())
            &&& covers(w.span, w.body.span)
            &&& w.cond.span().end <= w.body.span.start
            &&& expr_nested(w.cond)
            &&& block_nested(w.body)
        },
        StmtView::Break(span) => span.start <= span.end,
        StmtView::Return(value, span) => {
            &&& span.start <= span.end
            &&& value matches Some(e) ==> covers(span, e.span()) && expr_nested(e)
        },
        StmtView::Block(b) => block_nested(b),
        StmtView::Expr(e) => expr_nested(e),
    }
}

/// The block covers its statements, and every node of them covers its parts.
pub open spec fn block_nested(b: BlockView) -> bool
    decreases b,
{
    &&& b.span.start <= b.span.end
    &&& forall|i: int|
        0 <= i < b.stmts.len() ==> covers(b.span, (#[trigger] b.stmts[i]).span()) && stmt_nested(
            b.stmts[i],
        )
}

/// The `if` statement covers its condition, its body and what follows its
/// `else`, in this order, and every node of them covers its parts.
pub open spec fn if_nested(i: IfStmtView) -> bool
    decreases i,
{
    &&& covers(i.span, i.cond.span())
    &&& covers(i.span, i.body.span)
    &&& i.cond.span().end <= i.body.span.start
    &&& expr_nested(i.cond)
    &&& block_nested(i.body)
    &&& match i.else_part {
        None => true,
        Some(part) => {
            &&& covers(i.span, part.span())
            &&& i.body.span.end <= part.span().start
            &&& match *part {
                ElsePartView::Else(block, span) => covers(span, block.span) && block_nested(block),
                ElsePartView::ElseIf(nested, span) => covers(span, nested.span) && if_nested(
                    nested,
                ),
            }
        },
    }
}

/// What the laws of this module say of a rule that yields a statement from
/// `pos`: it takes at least one token, ends inside the tokens, and its span
/// lies within the tokens taken and is nested.
pub open spec fn stmt_placed(toks: Seq<TokenView>, pos: nat, step: Step<StmtView>) -> bool {
    step.result matches Ok(s) ==> {
        &&& step.consumed >= 1
        &&& pos + step.consumed <= toks.len()
        &&& covers(extent(toks, pos, step.consumed), s.span())
        &&& stmt_nested(s)
    }
}

/// What the laws of this module say of a block from `pos`: its span is
/// that of the tokens taken, and it is nested.
pub open spec fn block_placed(toks: Seq<TokenView>, pos: nat, step: Step<BlockView>) -> bool {
    step.result matches Ok(b) ==> {
        &&& step.consumed >= 2
        &&& pos + step.consumed <= toks.len()
        &&& b.span == extent(toks, pos, step.consumed)
        &&& block_nested(b)
    }
}

/// What the laws of this module say of an `if` statement from `pos`: its
/// span is that of the tokens taken, and it is nested.
pub open spec fn if_placed(toks: Seq<TokenView>, pos: nat, step: Step<IfStmtView>) -> bool {
    step.result matches Ok(i) ==> {
        &&& step.consumed >= 1
        &&& pos + step.consumed <= toks.len()
        &&& i.span == extent(toks, pos, step.consumed)
        &&& if_nested(i)
    }
}

/// What the laws of this module say of statements from `pos`: each lies
/// within the tokens taken and is nested.
pub open spec fn stmts_placed(
    toks: Seq<TokenView>,
    pos: nat,
    step: Step<Seq<StmtView>>,
) -> bool {
    step.result matches Ok(list) ==> {
        &&& pos + step.consumed <= toks.len()
        &&& forall|i: int|
            0 <= i < list.len() ==> {
                &&& step.consumed >= 1
                &&& covers(extent(toks, pos, step.consumed), (#[trigger] list[i]).span())
                &&& stmt_nested(list[i])
            }
    }
}

/// What the laws of this module say of parameters from `pos`: the list
/// ends inside the tokens, and every name lies within the tokens taken.
pub open spec fn params_placed(
    toks: Seq<TokenView>,
    pos: nat,
    step: Step<Seq<IdentView>>,
) -> bool {
    step.result matches Ok(list) ==> {
        &&& step.consumed >= 1
        &&& pos + step.consumed <= toks.len()
        &&& forall|i: int|
            0 <= i < list.len() ==> covers(
                extent(toks, pos, step.consumed),
                (#[trigger] list[i]).span,
            )
    }
}

/// The tokens from `inner` on, `m` of them, lie within the `n` tokens from
/// `pos` on when they are among them.
pub proof fn lemma_extent_covers(toks: Seq<TokenView>, pos: nat, n: nat, inner: nat, m: nat)
    requires
        spans_ordered(toks),
        m >= 1,
        pos <= inner,
        inner + m <= pos + n <= toks.len(),
    ensures
        covers(extent(toks, pos, n), extent(toks, inner, m)),
{
    assert(toks[pos as int].span.start <= toks[inner as int].span.start) by {
        if pos < inner {
            assert(toks[pos as int].span.end <= toks[inner as int].span.start);
        }
    }
    assert(toks[inner as int].span.start <= toks[inner + m - 1].span.end) by {
        if m > 1 {
            assert(toks[inner as int].span.end <= toks[inner + m - 1].span.start);
        }
    }
    assert(toks[inner + m - 1].span.end <= toks[pos + n - 1].span.end) by {
        if inner + m < pos + n {
            assert(toks[inner + m - 1].span.end <= toks[pos + n - 1].span.start);
        }
    }
}

/// The names of a list of parameters lie within the tokens of the list.
pub proof fn lemma_params_spans(toks: Seq<TokenView>, pos: nat)
    requires
        spans_ordered(toks),
        pos <= toks.len(),
    ensures
        params_placed(toks, pos, parse_params(toks, pos)),
    decreases tokens_left(toks, pos),
{
    if kind_at(toks, pos) != Some(TokenTypeView::ParenC) {
        if let Some(name) = ident_at(toks, pos) {
            if kind_at(toks, pos + 1) == Some(TokenTypeView::Comma) {
                lemma_params_spans(toks, pos + 2);
                lemma_params_in_bounds(toks, pos + 2);
                let more = parse_params(toks, pos + 2);
                if let Ok(rest) = more.result {
                    let all = seq![name] + rest;
                    let n = 2 + more.consumed;
                    assert(parse_params(toks, pos) == done(all, n));
                    assert forall|i: int| 0 <= i < all.len() implies covers(
                        extent(toks, pos, n),
                        (#[trigger] all[i]).span,
                    ) by {
                        if i == 0 {
                            lemma_extent_covers(toks, pos, n, pos, 1);
                        } else {
                            assert(all[i] == rest[i - 1]);
                            lemma_extent_covers(toks, pos, n, pos + 2, more.consumed);
                        }
                    }
                }
            } else if kind_at(toks, pos + 1) == Some(TokenTypeView::ParenC) {
                let all = seq![name];
                assert forall|i: int| 0 <= i < all.len() implies covers(
                    extent(toks, pos, 2),
                    (#[trigger] all[i]).span,
                ) by {
                    lemma_extent_covers(toks, pos, 2, pos, 1);
                }
            }
        }
    }
}

/// A declaration lies within the tokens it is made of, and is nested.
pub proof fn lemma_declaration_spans(toks: Seq<TokenView>, pos: nat)
    requires
        spans_ordered(toks),
        pos < toks.len(),
    ensures
        stmt_placed(toks, pos, parse_declaration(toks, pos)),
{
    let step = parse_declaration(toks, pos);
    if step.result is Ok {
        let n = step.consumed;
        lemma_expression_spans(toks, pos + 3);
        lemma_expression_in_bounds(toks, pos + 3);
        let init = parse_expression(toks, pos + 3);
        lemma_extent_covers(toks, pos, n, pos + 1, 1);
        lemma_extent_covers(toks, pos, n, pos + 3, init.consumed);
        lemma_extent_covers(toks, pos, n, pos + 1, 2);
    }
}

/// A `break` statement is nested and spans its two tokens.
pub proof fn lemma_break_spans(toks: Seq<TokenView>, pos: nat, loop_depth: nat)
    requires
        spans_ordered(toks),
        pos < toks.len(),
    ensures
        stmt_placed(toks, pos, parse_break(toks, pos, loop_depth)),
{
    if parse_break(toks, pos, loop_depth).result is Ok {
        lemma_extent_covers(toks, pos, 2, pos, 1);
    }
}

/// A `return` statement lies within the tokens it is made of, and is nested.
pub proof fn lemma_return_spans(toks: Seq<TokenView>, pos: nat, fn_depth: nat)
    requires
        spans_ordered(toks),
        pos < toks.len(),
    ensures
        stmt_placed(toks, pos, parse_return(toks, pos, fn_depth)),
{
    let step = parse_return(toks, pos, fn_depth);
    if step.result is Ok {
        let n = step.consumed;
        if kind_at(toks, pos + 1) == Some(TokenTypeView::Semi) {
            lemma_extent_covers(toks, pos, 2, pos, 1);
        } else {
            lemma_expression_spans(toks, pos + 1);
            lemma_expression_in_bounds(toks, pos + 1);
            let value = parse_expression(toks, pos + 1);
            lemma_extent_covers(toks, pos, n, pos, 1);
            lemma_extent_covers(toks, pos, n, pos + 1, value.consumed);
        }
    }
}

/// An assignment and an expression statement lie within the tokens they
/// are made of, and are nested.
#[verifier::rlimit(40)]
pub proof fn lemma_expression_statement_spans(toks: Seq<TokenView>, pos: nat)
    requires
        spans_ordered(toks),
        pos <= toks.len(),
    ensures
        stmt_placed(toks, pos, parse_expression_statement(toks, pos)),
{
    let step = parse_expression_statement(toks, pos);
    if step.result is Ok {
        let n = step.consumed;
        lemma_expression_spans(toks, pos);
        lemma_expression_in_bounds(toks, pos);
        let first = parse_expression(toks, pos);
        let next = pos + first.consumed;
        lemma_extent_covers(toks, pos, n, pos, first.consumed);
        if kind_at(toks, next) == Some(TokenTypeView::Equal) {
            lemma_expression_spans(toks, next + 1);
            lemma_expression_in_bounds(toks, next + 1);
            let second = parse_expression(toks, next + 1);
            lemma_extent_covers(toks, pos, n, next + 1, second.consumed);
            lemma_extent_covers(toks, pos, n, next, 2);
            lemma_extent_covers(toks, pos, n, pos, first.consumed + 1);
        }
    }
}

/// A statement lies within the tokens it is made of, and is nested.
pub proof fn lemma_statement_spans(
    toks: Seq<TokenView>,
    pos: nat,
    fn_depth: nat,
    loop_depth: nat,
)
    requires
        spans_ordered(toks),
        pos <= toks.len(),
    ensures
        stmt_placed(toks, pos, parse_statement(toks, pos, fn_depth, loop_depth)),
    decreases tokens_left(toks, pos), 50nat,
{
    match kind_at(toks, pos) {
        Some(TokenTypeView::Let) => {
            lemma_declaration_spans(toks, pos);
        },
        Some(TokenTypeView::Fn) => {
            lemma_fn_decl_spans(toks, pos, fn_depth, loop_depth);
        },
        Some(TokenTypeView::If) => {
            lemma_if_spans(toks, pos, fn_depth, loop_depth);
        },
        Some(TokenTypeView::Loop) => {
            lemma_loop_spans(toks, pos, fn_depth, loop_depth);
        },
        Some(TokenTypeView::While) => {
            lemma_while_spans(toks, pos, fn_depth, loop_depth);
        },
        Some(TokenTypeView::Break) => {
            lemma_break_spans(toks, pos, loop_depth);
        },
        Some(TokenTypeView::Return) => {
            lemma_return_spans(toks, pos, fn_depth);
        },
        Some(TokenTypeView::BraceO) => {
            lemma_block_spans(toks, pos, fn_depth, loop_depth);
        },
        _ => {
            lemma_expression_statement_spans(toks, pos);
        },
    }
}

/// What [`lemma_statement_spans`] says, of a `loop` statement.
pub proof fn lemma_loop_spans(toks: Seq<TokenView>, pos: nat, fn_depth: nat, loop_depth: nat)
    requires
        spans_ordered(toks),
        pos <= toks.len(),
    ensures
        stmt_placed(toks, pos, parse_loop(toks, pos, fn_depth, loop_depth)),
    decreases tokens_left(toks, pos), 45nat,
{
    let step = parse_loop(toks, pos, fn_depth, loop_depth);
    if step.result is Ok {
        lemma_block_spans(toks, pos + 1, fn_depth, loop_depth + 1);
        let body = parse_block(toks, pos + 1, fn_depth, loop_depth + 1);
        lemma_extent_covers(toks, pos, step.consumed, pos + 1, body.consumed);
    }
}

/// What [`lemma_statement_spans`] says, of a function declaration.
pub proof fn lemma_fn_decl_spans(
    toks: Seq<TokenView>,
    pos: nat,
    fn_depth: nat,
    loop_depth: nat,
)
    requires
        spans_ordered(toks),
        pos <= toks.len(),
    ensures
        stmt_placed(toks, pos, parse_fn_decl(toks, pos, fn_depth, loop_depth)),
    decreases tokens_left(toks, pos), 45nat,
{
    let step = parse_fn_decl(toks, pos, fn_depth, loop_depth);
    if let Ok(StmtView::FnDecl(f)) = step.result {
        let n = step.consumed;
        lemma_params_spans(toks, pos + 3);
        let params = parse_params(toks, pos + 3);
        let at = pos + 3 + params.consumed;
        lemma_block_spans(toks, at, fn_depth + 1, loop_depth);
        let body = parse_block(toks, at, fn_depth + 1, loop_depth);
        lemma_extent_covers(toks, pos, n, pos + 1, 1);
        lemma_extent_covers(toks, pos, n, at, body.consumed);
        lemma_extent_covers(toks, pos, n, pos + 1, (at - pos) as nat);
        assert forall|i: int| 0 <= i < f.params.len() implies covers(
            f.span,
            (#[trigger] f.params[i]).span,
        ) by {
            lemma_extent_covers(toks, pos, n, pos + 3, params.consumed);
        }
    }
}

/// What [`lemma_statement_spans`] says, of an `if` statement.
#[verifier::rlimit(40)]
pub proof fn lemma_if_spans(toks: Seq<TokenView>, pos: nat, fn_depth: nat, loop_depth: nat)
    requires
        spans_ordered(toks),
        pos <= toks.len(),
    ensures
        if_placed(toks, pos, parse_if(toks, pos, fn_depth, loop_depth)),
    decreases tokens_left(toks, pos), 45nat,
{
    let step = parse_if(toks, pos, fn_depth, loop_depth);
    lemma_if_in_bounds(toks, pos, fn_depth, loop_depth);
    if step.result is Ok {
        let n = step.consumed;
        lemma_expression_spans(toks, pos + 1);
        let cond = parse_expression(toks, pos + 1);
        let at = pos + 1 + cond.consumed;
        lemma_block_spans(toks, at, fn_depth, loop_depth);
        let body = parse_block(toks, at, fn_depth, loop_depth);
        let next = at + body.consumed;
        lemma_extent_covers(toks, pos, n, pos + 1, cond.consumed);
        lemma_extent_covers(toks, pos, n, at, body.consumed);
        lemma_extent_covers(toks, pos, n, pos + 1, (next - pos - 1) as nat);
        if kind_at(toks, next) == Some(TokenTypeView::Else) {
            if kind_at(toks, next + 1) == Some(TokenTypeView::If) {
                lemma_if_spans(toks, next + 1, fn_depth, loop_depth);
                let chained = parse_if(toks, next + 1, fn_depth, loop_depth);
                lemma_extent_covers(toks, pos, n, next, 1 + chained.consumed);
                lemma_extent_covers(toks, next, 1 + chained.consumed, next + 1, chained.consumed);
                lemma_extent_covers(toks, pos, n, at, body.consumed + 1);
            } else {
                lemma_block_spans(toks, next + 1, fn_depth, loop_depth);
                let last = parse_block(toks, next + 1, fn_depth, loop_depth);
                lemma_extent_covers(toks, pos, n, next, 1 + last.consumed);
                lemma_extent_covers(toks, next, 1 + last.consumed, next + 1, last.consumed);
                lemma_extent_covers(toks, pos, n, at, body.consumed + 1);
            }
        }
    }
}

/// What [`lemma_statement_spans`] says, of a `while` statement.
pub proof fn lemma_while_spans(
    toks: Seq<TokenView>,
    pos: nat,
    fn_depth: nat,
    loop_depth: nat,
)
    requires
        spans_ordered(toks),
        pos <= toks.len(),
    ensures
        stmt_placed(toks, pos, parse_while(toks, pos, fn_depth, loop_depth)),
    decreases tokens_left(toks, pos), 45nat,
{
    let step = parse_while(toks, pos, fn_depth, loop_depth);
    if step.result is Ok {
        let n = step.consumed;
        lemma_expression_spans(toks, pos + 1);
        let cond = parse_expression(toks, pos + 1);
        let at = pos + 1 + cond.consumed;
        lemma_block_spans(toks, at, fn_depth, loop_depth + 1);
        let body = parse_block(toks, at, fn_depth, loop_depth + 1);
        lemma_extent_covers(toks, pos, n, pos + 1, cond.consumed);
        lemma_extent_covers(toks, pos, n, at, body.consumed);
        lemma_extent_covers(toks, pos, n, pos + 1, (n - 1) as nat);
    }
}

/// What [`lemma_statement_spans`] says, of a block.
pub proof fn lemma_block_spans(toks: Seq<TokenView>, pos: nat, fn_depth: nat, loop_depth: nat)
    requires
        spans_ordered(toks),
        pos <= toks.len(),
    ensures
        block_placed(toks, pos, parse_block(toks, pos, fn_depth, loop_depth)),
    decreases tokens_left(toks, pos), 40nat,
{
    let step = parse_block(toks, pos, fn_depth, loop_depth);
    if let Ok(b) = step.result {
        lemma_block_items_spans(toks, pos + 1, fn_depth, loop_depth);
        lemma_block_items_in_bounds(toks, pos + 1, fn_depth, loop_depth);
        let items = parse_block_items(toks, pos + 1, fn_depth, loop_depth);
        let n = step.consumed;
        lemma_extent_covers(toks, pos, n, pos, 1);
        assert forall|i: int| 0 <= i < b.stmts.len() implies covers(
            b.span,
            (#[trigger] b.stmts[i]).span(),
        ) && stmt_nested(b.stmts[i]) by {
            lemma_extent_covers(toks, pos, n, pos + 1, items.consumed);
        }
    }
}

/// What [`lemma_statement_spans`] says, of the statements of a block.
pub proof fn lemma_block_items_spans(
    toks: Seq<TokenView>,
    pos: nat,
    fn_depth: nat,
    loop_depth: nat,
)
    requires
        spans_ordered(toks),
        pos <= toks.len(),
    ensures
        stmts_placed(toks, pos, parse_block_items(toks, pos, fn_depth, loop_depth)),
        parse_block_items(toks, pos, fn_depth, loop_depth).result is Ok ==> parse_block_items(
            toks,
            pos,
            fn_depth,
            loop_depth,
        ).consumed >= 1,
    decreases tokens_left(toks, pos), 60nat,
{
    lemma_block_items_in_bounds(toks, pos, fn_depth, loop_depth);
    if kind_at(toks, pos) != Some(TokenTypeView::BraceC) && pos < toks.len() {
        lemma_statement_spans(toks, pos, fn_depth, loop_depth);
        let first = parse_statement(toks, pos, fn_depth, loop_depth);
        if let Ok(stmt) = first.result {
            let next = pos + first.consumed;
            lemma_block_items_spans(toks, next, fn_depth, loop_depth);
            let more = parse_block_items(toks, next, fn_depth, loop_depth);
            if let Ok(rest) = more.result {
                let all = seq![stmt] + rest;
                let n = first.consumed + more.consumed;
                assert(parse_block_items(toks, pos, fn_depth, loop_depth) == done(all, n));
                assert forall|i: int| 0 <= i < all.len() implies {
                    &&& covers(extent(toks, pos, n), (#[trigger] all[i]).span())
                    &&& stmt_nested(all[i])
                } by {
                    if i == 0 {
                        lemma_extent_covers(toks, pos, n, pos, first.consumed);
                    } else {
                        assert(all[i] == rest[i - 1]);
                        lemma_extent_covers(toks, pos, n, next, more.consumed);
                    }
                }
            }
        }
    }
}

/// The statements of a program lie within the tokens, and every node of
/// them covers its parts.
pub proof fn lemma_program_spans(toks: Seq<TokenView>, pos: nat)
    requires
        spans_ordered(toks),
        pos <= toks.len(),
    ensures
        stmts_placed(toks, pos, parse_program_items(toks, pos)),
    decreases tokens_left(toks, pos),
{
    if pos < toks.len() {
        lemma_statement_spans(toks, pos, 0, 0);
        let first = parse_statement(toks, pos, 0, 0);
        if let Ok(stmt) = first.result {
            let next = pos + first.consumed;
            lemma_program_spans(toks, next);
            let more = parse_program_items(toks, next);
            if let Ok(rest) = more.result {
                let all = seq![stmt] + rest;
                let n = first.consumed + more.consumed;
                assert(parse_program_items(toks, pos) == done(all, n));
                assert forall|i: int| 0 <= i < all.len() implies {
                    &&& covers(extent(toks, pos, n), (#[trigger] all[i]).span())
                    &&& stmt_nested(all[i])
                } by {
                    if i == 0 {
                        lemma_extent_covers(toks, pos, n, pos, first.consumed);
                    } else {
                        assert(all[i] == rest[i - 1]);
                        lemma_extent_covers(toks, pos, n, next, more.consumed);
                    }
                }
            }
        }
    }
}

/// The spans of the scanner's tokens follow one another.
pub proof fn lemma_lexed_spans_ordered(src: Seq<char>)
    requires
        src.len() <= usize::MAX,
    ensures
        spec_lex(src) matches Ok(toks) ==> spans_ordered(toks),
{
    lemma_token_spans_in_order(src, 0);
}

/// The spans of a program that was scanned and parsed lie in the source
/// text, and every node covers its parts.
pub proof fn lemma_source_spans(src: Seq<char>)
    requires
        src.len() <= usize::MAX,
    ensures
        spec_parse_source(src) matches Ok(program) ==> forall|i: int|
            0 <= i < program.0.len() ==> {
                &&& stmt_nested(#[trigger] program.0[i])
                &&& program.0[i].span().start <= program.0[i].span().end <= src.len()
            },
{
    lemma_token_spans_in_order(src, 0);
    if let Ok(toks) = spec_lex(src) {
        lemma_program_spans(toks, 0);
    }
}

} // verus!
