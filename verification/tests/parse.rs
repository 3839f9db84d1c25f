use script_lang::ast::{
    BinaryOp, BinaryOpKind, Block, ElsePart, Expr, Ident, IfStmt, Literal, Stmt, UnaryOp,
    UnaryOpKind, WhileStmt,
};
use script_lang::errors::Span;
use script_lang::lex::{token, Token, TokenType};
use script_lang::parse::parser;

fn num(value: f64) -> TokenType {
    TokenType::Number(format!("{}", value))
}

fn tokens(kinds: Vec<TokenType>) -> Vec<Token> {
    kinds.into_iter().map(token).collect()
}

fn num_lit(value: f64) -> Expr {
    Expr::Literal(Literal::Number(format!("{}", value), Span::dummy()))
}

fn empty_block() -> Block {
    Block { stmts: vec![], span: Span::dummy() }
}

fn test_literal_bin_op<F: FnOnce(Vec<Token>) -> Expr>(
    token_type: TokenType,
    expected_op_kind: BinaryOpKind,
    parse: F,
) {
    let tokens = tokens(vec![num(10.0), token_type, num(4.0)]);
    let factor = parse(tokens);
    assert_eq!(
        Expr::BinaryOp(Box::new(BinaryOp {
            span: Span::dummy(),
            lhs: num_lit(10.0),
            rhs: num_lit(4.0),
            kind: expected_op_kind
        })),
        factor
    );
}

fn check_number_literal<F: FnOnce(Vec<Token>) -> Expr>(parse: F) {
    let tokens = tokens(vec![num(10.0)]);
    let unary = parse(tokens);
    assert_eq!(num_lit(10.0), unary);
}

fn parse_if(tokens: Vec<Token>) -> IfStmt {
    let mut parser = parser(tokens);
    parser.if_stmt().unwrap()
}

#[test]
fn empty() {
    let tokens =
        tokens(vec![TokenType::If, TokenType::True, TokenType::BraceO, TokenType::BraceC]);
    let ast = parse_if(tokens);
    assert_eq!(
        IfStmt {
            span: Span::dummy(),
            cond: Expr::Literal(Literal::Boolean(true, Span::dummy())),
            body: empty_block(),
            else_part: None
        },
        ast
    );
}

#[test]
fn if_else() {
    let tokens = tokens(vec![
        TokenType::If,
        TokenType::True,
        TokenType::BraceO,
        TokenType::BraceC,
        TokenType::Else,
        TokenType::BraceO,
        TokenType::BraceC,
    ]);
    let ast = parse_if(tokens);
    assert_eq!(
        IfStmt {
            span: Span::dummy(),
            cond: Expr::Literal(Literal::Boolean(true, Span::dummy())),
            body: empty_block(),
            else_part: Some(Box::new(ElsePart::Else(empty_block(), Span::dummy())))
        },
        ast
    );
}

#[test]
fn if_else_if() {
    let tokens = tokens(vec![
        TokenType::If,
        TokenType::True,
        TokenType::BraceO,
        TokenType::BraceC,
        TokenType::Else,
        TokenType::If,
        TokenType::True,
        TokenType::BraceO,
        TokenType::BraceC,
    ]);
    let ast = parse_if(tokens);
    assert_eq!(
        IfStmt {
            span: Span::dummy(),
            cond: Expr::Literal(Literal::Boolean(true, Span::dummy())),
            body: empty_block(),
            else_part: Some(Box::new(ElsePart::ElseIf(
                IfStmt {
                    span: Span::dummy(),
                    cond: Expr::Literal(Literal::Boolean(true, Span::dummy())),
                    body: empty_block(),
                    else_part: None
                },
                Span::dummy()
            )))
        },
        ast
    );
}

#[test]
fn if_else_if_else() {
    let tokens = tokens(vec![
        TokenType::If,
        TokenType::True,
        TokenType::BraceO,
        TokenType::BraceC,
        TokenType::Else,
        TokenType::If,
        TokenType::True,
        TokenType::BraceO,
        TokenType::BraceC,
        TokenType::Else,
        TokenType::BraceO,
        TokenType::BraceC,
    ]);
    let ast = parse_if(tokens);
    assert_eq!(
        IfStmt {
            span: Span::dummy(),
            cond: Expr::Literal(Literal::Boolean(true, Span::dummy())),
            body: empty_block(),
            else_part: Some(Box::new(ElsePart::ElseIf(
                IfStmt {
                    span: Span::dummy(),
                    cond: Expr::Literal(Literal::Boolean(true, Span::dummy())),
                    body: empty_block(),
                    else_part: Some(Box::new(ElsePart::Else(empty_block(), Span::dummy())))
                },
                Span::dummy()
            )))
        },
        ast
    );
}

fn parse_while(tokens: Vec<Token>) -> Stmt {
    let mut parser = parser(tokens);
    parser.while_stmt().unwrap()
}

#[test]
fn test_empty() {
    let tokens =
        tokens(vec![TokenType::While, TokenType::True, TokenType::BraceO, TokenType::BraceC]);
    let ast = parse_while(tokens);
    assert_eq!(
        Stmt::While(WhileStmt {
            span: Span::dummy(),
            cond: Expr::Literal(Literal::Boolean(true, Span::dummy())),
            body: empty_block()
        }),
        ast
    );
}

#[test]
fn or_condition_break() {
    let tokens = tokens(vec![
        TokenType::While,
        TokenType::False,
        TokenType::Or,
        TokenType::True,
        TokenType::BraceO,
        TokenType::Break,
        TokenType::Semi,
        TokenType::BraceC,
    ]);
    let ast = parse_while(tokens);
    assert_eq!(
        Stmt::While(WhileStmt {
            span: Span::dummy(),
            cond: Expr::BinaryOp(Box::new(BinaryOp {
                span: Span::dummy(),
                lhs: Expr::Literal(Literal::Boolean(false, Span::dummy())),
                rhs: Expr::Literal(Literal::Boolean(true, Span::dummy())),
                kind: BinaryOpKind::Or
            })),
            body: Block { stmts: vec![Stmt::Break(Span::dummy())], span: Span::dummy() }
        }),
        ast
    );
}

fn parse_loop(tokens: Vec<Token>) -> Stmt {
    let mut parser = parser(tokens);
    parser.loop_stmt().unwrap()
}

#[test]
fn loop_empty() {
    let tokens = tokens(vec![TokenType::Loop, TokenType::BraceO, TokenType::BraceC]);
    let ast = parse_loop(tokens);
    assert_eq!(Stmt::Loop(empty_block(), Span::dummy()), ast);
}

#[test]
fn with_break() {
    let tokens = tokens(vec![
        TokenType::Loop,
        TokenType::BraceO,
        TokenType::Break,
        TokenType::Semi,
        TokenType::BraceC,
    ]);
    let ast = parse_loop(tokens);
    assert_eq!(
        Stmt::Loop(
            Block { stmts: vec![Stmt::Break(Span::dummy())], span: Default::default() },
            Span::dummy()
        ),
        ast
    );
}

#[test]
fn break_after_inner() {
    let tokens = tokens(vec![
        TokenType::Loop,
        TokenType::BraceO,
        TokenType::Loop,
        TokenType::BraceO,
        TokenType::BraceC,
        TokenType::Break,
        TokenType::Semi,
        TokenType::BraceC,
    ]);
    let ast = parse_loop(tokens);
    assert_eq!(
        Stmt::Loop(
            Block {
                stmts: vec![
                    Stmt::Loop(empty_block(), Span::dummy()),
                    Stmt::Break(Span::dummy())
                ],
                span: Span::dummy()
            },
            Span::dummy()
        ),
        ast
    );
}

fn parse_block(tokens: Vec<Token>) -> Block {
    let mut parser = parser(tokens);
    parser.block().unwrap()
}

#[test]
fn block_empty() {
    let tokens = tokens(vec![TokenType::BraceO, TokenType::BraceC]);
    let ast = parse_block(tokens);
    assert_eq!(empty_block(), ast);
}

#[test]
fn two_expressions() {
    let tokens = tokens(vec![
        TokenType::BraceO,
        num(10.0),
        TokenType::Semi,
        num(20.0),
        TokenType::Semi,
        TokenType::BraceC,
    ]);
    let ast = parse_block(tokens);
    assert_eq!(
        Block {
            stmts: vec![Stmt::Expr(num_lit(10.0)), Stmt::Expr(num_lit(20.0)),],
            span: Span::dummy()
        },
        ast
    );
}

#[test]
fn nested() {
    let tokens = tokens(vec![
        TokenType::BraceO,
        TokenType::BraceO,
        TokenType::BraceC,
        TokenType::BraceC,
    ]);
    let ast = parse_block(tokens);
    assert_eq!(Block { stmts: vec![Stmt::Block(empty_block())], span: Span::dummy() }, ast);
}

fn parse_expr(tokens: Vec<Token>) -> Expr {
    let mut parser = parser(tokens);
    parser.expression().unwrap()
}

#[test]
fn number_literal() {
    check_number_literal(parse_expr);
}

#[test]
fn add_multiply() {
    let tokens = tokens(vec![
        num(10.0),
        TokenType::Plus,
        num(20.0),
        TokenType::Asterisk,
        num(100.0),
    ]);
    let expr = parse_expr(tokens);
    assert_eq!(
        Expr::BinaryOp(Box::new(BinaryOp {
            span: Span::dummy(),
            lhs: num_lit(10.0),
            rhs: Expr::BinaryOp(Box::new(BinaryOp {
                span: Span::dummy(),
                lhs: num_lit(20.0),
                rhs: num_lit(100.0),

                kind: BinaryOpKind::Mul
            })),
            kind: BinaryOpKind::Add
        })),
        expr
    );
}

#[test]
fn equal_unary() {
    let tokens =
        tokens(vec![num(10.0), TokenType::EqualEqual, TokenType::Minus, num(10.0)]);
    let expr = parse_expr(tokens);
    assert_eq!(
        Expr::BinaryOp(Box::new(BinaryOp {
            span: Span::dummy(),
            lhs: num_lit(10.0),
            rhs: Expr::UnaryOp(Box::new(UnaryOp {
                span: Span::dummy(),
                expr: num_lit(10.0),
                kind: UnaryOpKind::Neg
            })),
            kind: BinaryOpKind::Equal
        })),
        expr
    );
}

#[test]
fn parentheses_mul_add() {
    let tokens = tokens(vec![
        num(10.0),
        TokenType::Asterisk,
        TokenType::ParenO,
        num(20.0),
        TokenType::Plus,
        num(30.0),
        TokenType::ParenC,
    ]);
    let expr = parse_expr(tokens);
    assert_eq!(
        Expr::BinaryOp(Box::new(BinaryOp {
            span: Span::dummy(),
            lhs: num_lit(10.0),
            rhs: Expr::BinaryOp(Box::new(BinaryOp {
                span: Span::dummy(),
                lhs: num_lit(20.0),
                rhs: num_lit(30.0),

                kind: BinaryOpKind::Add
            })),
            kind: BinaryOpKind::Mul
        })),
        expr
    );
}

fn parse_logical_or(tokens: Vec<Token>) -> Expr {
    let mut parser = parser(tokens);
    parser.logical_or().unwrap()
}

#[test]
fn test_number_literal() {
    check_number_literal(parse_logical_or);
}

#[test]
fn and() {
    test_literal_bin_op(TokenType::Or, BinaryOpKind::Or, parse_logical_or);
}

fn parse_logical_and(tokens: Vec<Token>) -> Expr {
    let mut parser = parser(tokens);
    parser.logical_and().unwrap()
}

#[test]
fn logical_and_number_literal() {
    check_number_literal(parse_logical_and);
}

#[test]
fn test_and() {
    test_literal_bin_op(TokenType::And, BinaryOpKind::And, parse_logical_and);
}

fn parse_equality(tokens: Vec<Token>) -> Expr {
    let mut parser = parser(tokens);
    parser.equality().unwrap()
}

#[test]
fn equality_number_literal() {
    check_number_literal(parse_equality);
}

#[test]
fn not_equal() {
    test_literal_bin_op(TokenType::BangEqual, BinaryOpKind::NotEqual, parse_equality);
}

#[test]
fn equal() {
    test_literal_bin_op(TokenType::EqualEqual, BinaryOpKind::Equal, parse_equality);
}

fn parse_comparison(tokens: Vec<Token>) -> Expr {
    let mut parser = parser(tokens);
    parser.comparison().unwrap()
}

#[test]
fn comparison_number_literal() {
    check_number_literal(parse_comparison);
}

#[test]
fn greater() {
    test_literal_bin_op(TokenType::Greater, BinaryOpKind::Greater, parse_comparison);
}

#[test]
fn greater_equal() {
    test_literal_bin_op(TokenType::GreaterEqual, BinaryOpKind::GreaterEqual, parse_comparison);
}

#[test]
fn less() {
    test_literal_bin_op(TokenType::Less, BinaryOpKind::Less, parse_comparison);
}

#[test]
fn less_equal() {
    test_literal_bin_op(TokenType::LessEqual, BinaryOpKind::LessEqual, parse_comparison);
}

fn parse_term(tokens: Vec<Token>) -> Expr {
    let mut parser = parser(tokens);
    parser.term().unwrap()
}

#[test]
fn term_number_literal() {
    check_number_literal(parse_term);
}

#[test]
fn add() {
    test_literal_bin_op(TokenType::Plus, BinaryOpKind::Add, parse_term);
}

#[test]
fn sub() {
    test_literal_bin_op(TokenType::Minus, BinaryOpKind::Sub, parse_term);
}

fn parse_factor(tokens: Vec<Token>) -> Expr {
    let mut parser = parser(tokens);
    parser.factor().unwrap()
}

#[test]
fn factor_number_literal() {
    check_number_literal(parse_factor);
}

#[test]
fn multiply() {
    test_literal_bin_op(TokenType::Asterisk, BinaryOpKind::Mul, parse_factor);
}

#[test]
fn divide() {
    test_literal_bin_op(TokenType::Slash, BinaryOpKind::Div, parse_factor);
}

#[test]
fn modulo() {
    test_literal_bin_op(TokenType::Percent, BinaryOpKind::Mod, parse_factor);
}

fn parse_unary(tokens: Vec<Token>) -> Expr {
    let mut parser = parser(tokens);
    parser.unary().unwrap()
}

#[test]
fn unary_number_literal() {
    check_number_literal(parse_unary);
}

#[test]
fn not() {
    let tokens = tokens(vec![TokenType::Not, TokenType::True]);
    let unary = parse_unary(tokens);
    assert_eq!(
        Expr::UnaryOp(Box::new(UnaryOp {
            span: Span::dummy(),
            expr: Expr::Literal(Literal::Boolean(true, Span::dummy())),
            kind: UnaryOpKind::Not
        })),
        unary
    );
}

#[test]
fn neg() {
    let tokens = tokens(vec![TokenType::Minus, num(10.0)]);
    let unary = parse_unary(tokens);
    assert_eq!(
        Expr::UnaryOp(Box::new(UnaryOp {
            span: Span::dummy(),
            expr: num_lit(10.0),
            kind: UnaryOpKind::Neg
        })),
        unary
    );
}

fn parse_primary(tokens: Vec<Token>) -> Expr {
    let mut parser = parser(tokens);
    parser.primary().unwrap()
}

#[test]
fn ident() {
    let tokens = tokens(vec![TokenType::Ident("tokens".to_string())]);
    let literal = parse_primary(tokens);
    assert_eq!(Expr::Ident(Ident { name: "tokens".to_string(), span: Span::dummy() }), literal);
}

#[test]
fn string() {
    let tokens = tokens(vec![num(10.0)]);
    let literal = parse_primary(tokens);
    assert_eq!(num_lit(10.0), literal);
}

#[test]
fn number() {
    let tokens = tokens(vec![TokenType::String("uwu".to_string())]);
    let literal = parse_primary(tokens);
    assert_eq!(Expr::Literal(Literal::String("uwu".to_string(), Span::dummy())), literal);
}

#[test]
fn empty_object() {
    let tokens = tokens(vec![TokenType::BraceO, TokenType::BraceC]);
    let literal = parse_primary(tokens);
    assert_eq!(Expr::Literal(Literal::Object(Span::dummy())), literal);
}

#[test]
fn empty_array() {
    let tokens = tokens(vec![TokenType::BracketO, TokenType::BracketC]);
    let literal = parse_primary(tokens);
    assert_eq!(Expr::Literal(Literal::Array(Vec::new(), Span::dummy())), literal);
}

#[test]
fn primary_false() {
    let tokens = tokens(vec![TokenType::False]);
    let literal = parse_primary(tokens);
    assert_eq!(Expr::Literal(Literal::Boolean(false, Span::dummy())), literal);
}

#[test]
fn primary_true() {
    let tokens = tokens(vec![TokenType::True]);
    let literal = parse_primary(tokens);
    assert_eq!(Expr::Literal(Literal::Boolean(true, Span::dummy())), literal);
}

#[test]
fn null() {
    let tokens = tokens(vec![TokenType::Null]);
    let literal = parse_primary(tokens);
    assert_eq!(Expr::Literal(Literal::Null(Span::dummy())), literal);
}
