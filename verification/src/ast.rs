//! The syntax tree that the parser builds.
//!
//! Every type here has a mathematical value, its view, in which a `Vec` is a
//! `Seq` and a `String` is a `Seq<char>`. The grammar is stated over the
//! views; the parser's contracts relate the trees it builds to them.
//!
//! A tree is built bottom-up, owned by its root, and never changed afterwards.

use vstd::prelude::*;
use crate::errors::Span;

verus! {

/// A name, with the place where it is written.
#[derive(Debug, PartialEq, Eq, Hash)]
pub struct Ident {
    pub name: String,
    pub span: Span,
}

impl Clone for Ident {
    fn clone(&self) -> (copy: Self)
        ensures
            copy == *self,
    {
        Ident { name: self.name.clone(), span: self.span }
    }
}

/// A whole source text: its statements in order.
#[derive(Debug, PartialEq)]
pub struct Program(pub Vec<Stmt>);

/// `{`, statements, `}`.
#[derive(Debug, PartialEq)]
pub struct Block {
    pub stmts: Vec<Stmt>,
    pub span: Span,
}

#[derive(Debug, PartialEq)]
pub enum Stmt {
    Declaration(Declaration),
    Assignment(Assignment),
    FnDecl(FnDecl),
    If(IfStmt),
    /// `loop` and its body.
    Loop(Block, Span),
    While(WhileStmt),
    /// `break;`
    Break(Span),
    /// `return;` or `return` with a value.
    Return(Option<Expr>, Span),
    Block(Block),
    /// An expression followed by `;`.
    Expr(Expr),
}

/// `let name = init;`. A declaration always binds a value.
#[derive(Debug, PartialEq)]
pub struct Declaration {
    pub span: Span,
    pub name: Ident,
    pub init: Expr,
}

/// `lhs = rhs;`. Any expression may stand on the left: whether it names a
/// place that can be assigned to is not a question of syntax.
#[derive(Debug, PartialEq)]
pub struct Assignment {
    pub span: Span,
    pub lhs: Expr,
    pub rhs: Expr,
}

/// `fn name(params) { .. }`
#[derive(Debug, PartialEq)]
pub struct FnDecl {
    pub span: Span,
    pub name: Ident,
    pub params: Vec<Ident>,
    pub body: Block,
}

/// `if cond { .. }`, with what follows an `else`, if there is one.
#[derive(Debug, PartialEq)]
pub struct IfStmt {
    pub span: Span,
    pub cond: Expr,
    pub body: Block,
    pub else_part: Option<Box<ElsePart>>,
}

/// What follows `else`: a block, or another `if`. The span starts at `else`.
#[derive(Debug, PartialEq)]
pub enum ElsePart {
    Else(Block, Span),
    ElseIf(IfStmt, Span),
}

/// `while cond { .. }`
#[derive(Debug, PartialEq)]
pub struct WhileStmt {
    pub span: Span,
    pub cond: Expr,
    pub body: Block,
}

#[derive(Debug, PartialEq)]
pub enum Expr {
    Ident(Ident),
    Literal(Literal),
    UnaryOp(Box<UnaryOp>),
    BinaryOp(Box<BinaryOp>),
    Call(Box<Call>),
}

#[derive(Debug, PartialEq)]
pub enum Literal {
    String(String, Span),
    /// A number, as its decimal text.
    Number(String, Span),
    /// `[`, expressions separated by commas, `]`.
    Array(Vec<Expr>, Span),
    /// `{}`: an object without entries.
    Object(Span),
    Boolean(bool, Span),
    Null(Span),
}

/// An operator in front of its operand.
#[derive(Debug, PartialEq)]
pub struct UnaryOp {
    pub span: Span,
    pub expr: Expr,
    pub kind: UnaryOpKind,
}

#[derive(Debug, Clone, Copy, PartialEq, Eq, Structural)]
pub enum UnaryOpKind {
    /// `!`
    Not,
    /// `-`
    Neg,
}

/// An operator between two operands.
#[derive(Debug, PartialEq)]
pub struct BinaryOp {
    pub span: Span,
    pub lhs: Expr,
    pub rhs: Expr,
    pub kind: BinaryOpKind,
}

#[derive(Debug, Clone, Copy, PartialEq, Eq, Structural)]
pub enum BinaryOpKind {
    And,
    Or,
    Equal,
    GreaterEqual,
    Greater,
    LessEqual,
    Less,
    NotEqual,
    Add,
    Sub,
    Mul,
    Div,
    Mod,
}

/// A member access or an invocation applied to `callee`. Chains such as
/// `a.b.c()` nest: each link has the links before it as its callee.
#[derive(Debug, PartialEq)]
pub struct Call {
    pub callee: Expr,
    pub span: Span,
    pub kind: CallKind,
}

#[derive(Debug, PartialEq)]
pub enum CallKind {
    /// `.name`
    Field(Ident),
    /// `(`, arguments separated by commas, `)`.
    Fn(Vec<Expr>),
}

/// The value of an [`Ident`].
pub struct IdentView {
    pub name: Seq<char>,
    pub span: Span,
}

/// The value of a [`Program`].
pub struct ProgramView(pub Seq<StmtView>);

/// The value of a [`Block`].
pub struct BlockView {
    pub stmts: Seq<StmtView>,
    pub span: Span,
}

/// The value of a [`Stmt`].
pub enum StmtView {
    Declaration(DeclarationView),
    Assignment(AssignmentView),
    FnDecl(FnDeclView),
    If(IfStmtView),
    Loop(BlockView, Span),
    While(WhileStmtView),
    Break(Span),
    Return(Option<ExprView>, Span),
    Block(BlockView),
    Expr(ExprView),
}

/// The value of a [`Declaration`].
pub struct DeclarationView {
    pub span: Span,
    pub name: IdentView,
    pub init: ExprView,
}

/// The value of an [`Assignment`].
pub struct AssignmentView {
    pub span: Span,
    pub lhs: ExprView,
    pub rhs: ExprView,
}

/// The value of a [`FnDecl`].
pub struct FnDeclView {
    pub span: Span,
    pub name: IdentView,
    pub params: Seq<IdentView>,
    pub body: BlockView,
}

/// The value of an [`IfStmt`].
pub struct IfStmtView {
    pub span: Span,
    pub cond: ExprView,
    pub body: BlockView,
    pub else_part: Option<Box<ElsePartView>>,
}

/// The value of an [`ElsePart`].
pub enum ElsePartView {
    Else(BlockView, Span),
    ElseIf(IfStmtView, Span),
}

/// The value of a [`WhileStmt`].
pub struct WhileStmtView {
    pub span: Span,
    pub cond: ExprView,
    pub body: BlockView,
}

/// The value of an [`Expr`].
pub enum ExprView {
    Ident(IdentView),
    Literal(LiteralView),
    UnaryOp(Box<UnaryOpView>),
    BinaryOp(Box<BinaryOpView>),
    Call(Box<CallView>),
}

/// The value of a [`Literal`].
pub enum LiteralView {
    String(Seq<char>, Span),
    Number(Seq<char>, Span),
    Array(Seq<ExprView>, Span),
    Object(Span),
    Boolean(bool, Span),
    Null(Span),
}

/// The value of a [`UnaryOp`].
pub struct UnaryOpView {
    pub span: Span,
    pub expr: ExprView,
    pub kind: UnaryOpKind,
}

/// The value of a [`BinaryOp`].
pub struct BinaryOpView {
    pub span: Span,
    pub lhs: ExprView,
    pub rhs: ExprView,
    pub kind: BinaryOpKind,
}

/// The value of a [`Call`].
pub struct CallView {
    pub callee: ExprView,
    pub span: Span,
    pub kind: CallKindView,
}

/// The value of a [`CallKind`].
pub enum CallKindView {
    Field(IdentView),
    Fn(Seq<ExprView>),
}

impl View for Ident {
    type V = IdentView;

    open spec fn view(&self) -> IdentView {
        IdentView { name: self.name@, span: self.span }
    }
}

/// The values of a sequence of names, one by one.
pub open spec fn ident_views(idents: Seq<Ident>) -> Seq<IdentView> {
    idents.map_values(|id: Ident| id@)
}

/// The value of an expression.
pub open spec fn expr_view(e: Expr) -> ExprView
    decreases e,
{
    match e {
        Expr::Ident(id) => ExprView::Ident(id@),
        Expr::Literal(Literal::String(text, span)) => ExprView::Literal(
            LiteralView::String(text@, span),
        ),
        Expr::Literal(Literal::Number(text, span)) => ExprView::Literal(
            LiteralView::Number(text@, span),
        ),
        Expr::Literal(Literal::Array(items, span)) => ExprView::Literal(
            LiteralView::Array(
                Seq::new(
                    items@.len(),
                    |i: int|
                        if 0 <= i < items@.len() {
                            expr_view(items@[i])
                        } else {
                            arbitrary()
                        },
                ),
                span,
            ),
        ),
        Expr::Literal(Literal::Object(span)) => ExprView::Literal(LiteralView::Object(span)),
        Expr::Literal(Literal::Boolean(value, span)) => ExprView::Literal(
            LiteralView::Boolean(value, span),
        ),
        Expr::Literal(Literal::Null(span)) => ExprView::Literal(LiteralView::Null(span)),
        Expr::UnaryOp(op) => ExprView::UnaryOp(
            Box::new(UnaryOpView { span: op.span, expr: expr_view(op.expr), kind: op.kind }),
        ),
        Expr::BinaryOp(op) => ExprView::BinaryOp(
            Box::new(
                BinaryOpView {
                    span: op.span,
                    lhs: expr_view(op.lhs),
                    rhs: expr_view(op.rhs),
                    kind: op.kind,
                },
            ),
        ),
        Expr::Call(call) => ExprView::Call(
            Box::new(
                CallView {
                    callee: expr_view(call.callee),
                    span: call.span,
                    kind: match call.kind {
                        CallKind::Field(id) => CallKindView::Field(id@),
                        CallKind::Fn(args) => CallKindView::Fn(
                            Seq::new(
                                args@.len(),
                                |i: int|
                                    if 0 <= i < args@.len() {
                                        expr_view(args@[i])
                                    } else {
                                        arbitrary()
                                    },
                            ),
                        ),
                    },
                },
            ),
        ),
    }
}

/// The values of a sequence of expressions, one by one.
pub open spec fn expr_views(exprs: Seq<Expr>) -> Seq<ExprView> {
    Seq::new(exprs.len(), |i: int| expr_view(exprs[i]))
}

/// The value of a literal.
pub open spec fn literal_view(lit: Literal) -> LiteralView {
    match lit {
        Literal::String(text, span) => LiteralView::String(text@, span),
        Literal::Number(text, span) => LiteralView::Number(text@, span),
        Literal::Array(items, span) => LiteralView::Array(expr_views(items@), span),
        Literal::Object(span) => LiteralView::Object(span),
        Literal::Boolean(value, span) => LiteralView::Boolean(value, span),
        Literal::Null(span) => LiteralView::Null(span),
    }
}

/// The value of a statement.
pub open spec fn stmt_view(s: Stmt) -> StmtView
    decreases s,
{
    match s {
        Stmt::Declaration(d) => StmtView::Declaration(
            DeclarationView { span: d.span, name: d.name@, init: expr_view(d.init) },
        ),
        Stmt::Assignment(a) => StmtView::Assignment(
            AssignmentView { span: a.span, lhs: expr_view(a.lhs), rhs: expr_view(a.rhs) },
        ),
        Stmt::FnDecl(f) => StmtView::FnDecl(
            FnDeclView {
                span: f.span,
                name: f.name@,
                params: ident_views(f.params@),
                body: block_view(f.body),
            },
        ),
        Stmt::If(i) => StmtView::If(if_view(i)),
        Stmt::Loop(body, span) => StmtView::Loop(block_view(body), span),
        Stmt::While(w) => StmtView::While(
            WhileStmtView { span: w.span, cond: expr_view(w.cond), body: block_view(w.body) },
        ),
        Stmt::Break(span) => StmtView::Break(span),
        Stmt::Return(value, span) => StmtView::Return(
            match value {
                Some(e) => Some(expr_view(e)),
                None => None,
            },
            span,
        ),
        Stmt::Block(b) => StmtView::Block(block_view(b)),
        Stmt::Expr(e) => StmtView::Expr(expr_view(e)),
    }
}

/// The value of a block.
pub open spec fn block_view(b: Block) -> BlockView
    decreases b,
{
    BlockView {
        stmts: Seq::new(
            b.stmts@.len(),
            |i: int|
                if 0 <= i < b.stmts@.len() {
                    stmt_view(b.stmts@[i])
                } else {
                    arbitrary()
                },
        ),
        span: b.span,
    }
}

/// The value of an `if` statement.
pub open spec fn if_view(i: IfStmt) -> IfStmtView
    decreases i,
{
    IfStmtView {
        span: i.span,
        cond: expr_view(i.cond),
        body: block_view(i.body),
        else_part: match i.else_part {
            Some(part) => Some(
                Box::new(
                    match *part {
                        ElsePart::Else(block, span) => ElsePartView::Else(block_view(block), span),
                        ElsePart::ElseIf(nested, span) => ElsePartView::ElseIf(
                            if_view(nested),
                            span,
                        ),
                    },
                ),
            ),
            None => None,
        },
    }
}

/// The value of what follows an `else`.
pub open spec fn else_view(part: ElsePart) -> ElsePartView {
    match part {
        ElsePart::Else(block, span) => ElsePartView::Else(block_view(block), span),
        ElsePart::ElseIf(nested, span) => ElsePartView::ElseIf(if_view(nested), span),
    }
}

/// The values of a sequence of statements, one by one.
pub open spec fn stmt_views(stmts: Seq<Stmt>) -> Seq<StmtView> {
    Seq::new(stmts.len(), |i: int| stmt_view(stmts[i]))
}

impl View for Expr {
    type V = ExprView;

    open spec fn view(&self) -> ExprView {
        expr_view(*self)
    }
}

impl View for Literal {
    type V = LiteralView;

    open spec fn view(&self) -> LiteralView {
        literal_view(*self)
    }
}

impl View for Stmt {
    type V = StmtView;

    open spec fn view(&self) -> StmtView {
        stmt_view(*self)
    }
}

impl View for Block {
    type V = BlockView;

    open spec fn view(&self) -> BlockView {
        block_view(*self)
    }
}

impl View for IfStmt {
    type V = IfStmtView;

    open spec fn view(&self) -> IfStmtView {
        if_view(*self)
    }
}

impl View for ElsePart {
    type V = ElsePartView;

    open spec fn view(&self) -> ElsePartView {
        else_view(*self)
    }
}

impl View for Program {
    type V = ProgramView;

    open spec fn view(&self) -> ProgramView {
        ProgramView(stmt_views(self.0@))
    }
}

impl LiteralView {
    /// The place where the literal is written.
    pub open spec fn span(self) -> Span {
        match self {
            LiteralView::String(_, span) => span,
            LiteralView::Number(_, span) => span,
            LiteralView::Array(_, span) => span,
            LiteralView::Object(span) => span,
            LiteralView::Boolean(_, span) => span,
            LiteralView::Null(span) => span,
        }
    }
}

impl ExprView {
    /// The place where the expression is written.
    pub open spec fn span(self) -> Span {
        match self {
            ExprView::Ident(id) => id.span,
            ExprView::Literal(lit) => lit.span(),
            ExprView::UnaryOp(op) => op.span,
            ExprView::BinaryOp(op) => op.span,
            ExprView::Call(call) => call.span,
        }
    }
}

impl StmtView {
    /// The place where the statement is written. An expression statement
    /// has the span of its expression.
    pub open spec fn span(self) -> Span {
        match self {
            StmtView::Declaration(d) => d.span,
            StmtView::Assignment(a) => a.span,
            StmtView::FnDecl(f) => f.span,
            StmtView::If(i) => i.span,
            StmtView::Loop(_, span) => span,
            StmtView::While(w) => w.span,
            StmtView::Break(span) => span,
            StmtView::Return(_, span) => span,
            StmtView::Block(b) => b.span,
            StmtView::Expr(e) => e.span(),
        }
    }
}

impl ElsePartView {
    /// The place where the `else` part is written.
    pub open spec fn span(self) -> Span {
        match self {
            ElsePartView::Else(_, span) => span,
            ElsePartView::ElseIf(_, span) => span,
        }
    }
}

impl ElsePart {
    /// The place where the `else` part is written.
    pub fn span(&self) -> (span: Span)
        ensures
            span == self@.span(),
    {
        match self {
            ElsePart::Else(_, span) => *span,
            ElsePart::ElseIf(_, span) => *span,
        }
    }
}

impl Expr {
    /// The place where the expression is written.
    pub fn span(&self) -> (span: Span)
        ensures
            span == self@.span(),
    {
        match self {
            Expr::Literal(lit) => lit.span(),
            Expr::UnaryOp(unary) => unary.span,
            Expr::BinaryOp(binary) => binary.span,
            Expr::Ident(id) => id.span,
            Expr::Call(call) => call.span,
        }
    }
}

impl Literal {
    /// The place where the literal is written.
    pub fn span(&self) -> (span: Span)
        ensures
            span == self@.span(),
    {
        match self {
            Literal::String(_, span) => *span,
            Literal::Number(_, span) => *span,
            Literal::Array(_, span) => *span,
            Literal::Object(span) => *span,
            Literal::Boolean(_, span) => *span,
            Literal::Null(span) => *span,
        }
    }
}

/// The value of an array literal holds the values of its items.
pub proof fn lemma_array_view(items: Vec<Expr>, span: Span)
    ensures
        Expr::Literal(Literal::Array(items, span))@ == ExprView::Literal(
            LiteralView::Array(expr_views(items@), span),
        ),
{
    assert(Expr::Literal(Literal::Array(items, span))@->Literal_0->Array_0 =~= expr_views(items@));
}

/// The value of an invocation holds the values of its arguments.
pub proof fn lemma_args_view(callee: Expr, span: Span, args: Vec<Expr>)
    ensures
        Expr::Call(Box::new(Call { callee, span, kind: CallKind::Fn(args) }))@ == ExprView::Call(
            Box::new(CallView { callee: callee@, span, kind: CallKindView::Fn(expr_views(args@)) }),
        ),
{
    let built = Expr::Call(Box::new(Call { callee, span, kind: CallKind::Fn(args) }))@;
    assert(built->Call_0.kind->Fn_0 =~= expr_views(args@));
}

/// An expression that is a literal has the literal's value.
pub proof fn lemma_literal_view(lit: Literal)
    ensures
        Expr::Literal(lit)@ == ExprView::Literal(lit@),
{
    if let Literal::Array(items, span) = lit {
        lemma_array_view(items, span);
    }
}

/// In `BlockView` a block holds the values of its statements.
pub proof fn lemma_block_view(b: Block)
    ensures
        b@ == (BlockView { stmts: stmt_views(b.stmts@), span: b.span }),
{
    assert(block_view(b).stmts =~= stmt_views(b.stmts@));
}

/// The values of a sequence with one more expression at its end.
pub proof fn lemma_expr_views_push(exprs: Seq<Expr>, e: Expr)
    ensures
        expr_views(exprs.push(e)) == expr_views(exprs).push(e@),
{
    assert(expr_views(exprs.push(e)) =~= expr_views(exprs).push(e@));
}

/// The values of a sequence with one more statement at its end.
pub proof fn lemma_stmt_views_push(stmts: Seq<Stmt>, s: Stmt)
    ensures
        stmt_views(stmts.push(s)) == stmt_views(stmts).push(s@),
{
    assert(stmt_views(stmts.push(s)) =~= stmt_views(stmts).push(s@));
}

/// The values of a sequence with one more name at its end.
pub proof fn lemma_ident_views_push(idents: Seq<Ident>, id: Ident)
    ensures
        ident_views(idents.push(id)) == ident_views(idents).push(id@),
{
    assert(ident_views(idents.push(id)) =~= ident_views(idents).push(id@));
}

} // verus!
