use std::marker::PhantomData;

use script_lang::ast::{
    Assignment, BinaryOp, BinaryOpKind, Block, Call, CallKind, Declaration, ElsePart, Expr,
    FnDecl, Ident, IfStmt, Literal, Program, Stmt, UnaryOp, UnaryOpKind, WhileStmt,
};
use script_lang::errors::{Error, Expected, LexError, ParseError, Span};
use script_lang::grammar::Closer;
use script_lang::lex::{lex, token, Token, TokenType};
use script_lang::parse::{parse, parser, Parser};
use script_lang::{foo, parse_source, requires_parent_fulfill_cool_trait, Parent};

fn sp(start: usize, end: usize) -> Span {
    Span::new(start, end)
}

fn name(text: &str, start: usize, end: usize) -> Ident {
    Ident { name: text.to_string(), span: sp(start, end) }
}

fn var(text: &str, start: usize, end: usize) -> Expr {
    Expr::Ident(name(text, start, end))
}

fn num(text: &str, start: usize, end: usize) -> Expr {
    Expr::Literal(Literal::Number(text.to_string(), sp(start, end)))
}

fn binary(kind: BinaryOpKind, lhs: Expr, rhs: Expr) -> Expr {
    let span = lhs.span().to(rhs.span());
    Expr::BinaryOp(Box::new(BinaryOp { span, lhs, rhs, kind }))
}

fn expression(source: &str) -> Result<Expr, ParseError> {
    parser(lex(source).unwrap()).expression()
}

fn program(source: &str) -> Result<Program, ParseError> {
    parse(lex(source).unwrap())
}

fn found(kind: TokenType, start: usize, end: usize) -> Token {
    Token::new(kind, sp(start, end))
}

#[test]
fn no_tokens_make_the_empty_program() {
    assert_eq!(parse(vec![]), Ok(Program(vec![])));
    assert_eq!(parse_source(""), Ok(Program(vec![])));
    assert_eq!(parse_source("  // only a comment"), Ok(Program(vec![])));
}

#[test]
fn multiplication_binds_tighter_than_addition() {
    assert_eq!(
        expression("10 + 20 * 100"),
        Ok(binary(
            BinaryOpKind::Add,
            num("10", 0, 2),
            binary(BinaryOpKind::Mul, num("20", 5, 7), num("100", 10, 13))
        ))
    );
    assert_eq!(
        expression("10 * 20 + 100"),
        Ok(binary(
            BinaryOpKind::Add,
            binary(BinaryOpKind::Mul, num("10", 0, 2), num("20", 5, 7)),
            num("100", 10, 13)
        ))
    );
}

#[test]
fn every_level_binds_tighter_than_the_one_before() {
    assert_eq!(
        expression("a || b && c == d < e + f * g"),
        Ok(binary(
            BinaryOpKind::Or,
            var("a", 0, 1),
            binary(
                BinaryOpKind::And,
                var("b", 5, 6),
                binary(
                    BinaryOpKind::Equal,
                    var("c", 10, 11),
                    binary(
                        BinaryOpKind::Less,
                        var("d", 15, 16),
                        binary(
                            BinaryOpKind::Add,
                            var("e", 19, 20),
                            binary(BinaryOpKind::Mul, var("f", 23, 24), var("g", 27, 28))
                        )
                    )
                )
            )
        ))
    );
}

#[test]
fn subtraction_associates_to_the_left() {
    assert_eq!(
        expression("a - b - c"),
        Ok(binary(
            BinaryOpKind::Sub,
            binary(BinaryOpKind::Sub, var("a", 0, 1), var("b", 4, 5)),
            var("c", 8, 9)
        ))
    );
}

#[test]
fn operators_of_one_level_mix_from_the_left() {
    assert_eq!(
        expression("a / b % c * d"),
        Ok(binary(
            BinaryOpKind::Mul,
            binary(
                BinaryOpKind::Mod,
                binary(BinaryOpKind::Div, var("a", 0, 1), var("b", 4, 5)),
                var("c", 8, 9)
            ),
            var("d", 12, 13)
        ))
    );
    assert_eq!(
        expression("a == b != c"),
        Ok(binary(
            BinaryOpKind::NotEqual,
            binary(BinaryOpKind::Equal, var("a", 0, 1), var("b", 5, 6)),
            var("c", 10, 11)
        ))
    );
}

#[test]
fn prefix_operators_nest_to_the_right() {
    assert_eq!(
        expression("!-x"),
        Ok(Expr::UnaryOp(Box::new(UnaryOp {
            span: sp(0, 3),
            expr: Expr::UnaryOp(Box::new(UnaryOp {
                span: sp(1, 3),
                expr: var("x", 2, 3),
                kind: UnaryOpKind::Neg
            })),
            kind: UnaryOpKind::Not
        })))
    );
}

#[test]
fn a_prefix_operator_binds_tighter_than_any_binary_one() {
    assert_eq!(
        expression("10 == -10"),
        Ok(binary(
            BinaryOpKind::Equal,
            num("10", 0, 2),
            Expr::UnaryOp(Box::new(UnaryOp {
                span: sp(6, 9),
                expr: num("10", 7, 9),
                kind: UnaryOpKind::Neg
            }))
        ))
    );
    assert_eq!(
        expression("-a * b"),
        Ok(binary(
            BinaryOpKind::Mul,
            Expr::UnaryOp(Box::new(UnaryOp {
                span: sp(0, 2),
                expr: var("a", 1, 2),
                kind: UnaryOpKind::Neg
            })),
            var("b", 5, 6)
        ))
    );
}

#[test]
fn parentheses_group_and_leave_no_node() {
    assert_eq!(expression("((a))"), Ok(var("a", 2, 3)));
    assert_eq!(
        expression("(a + b) * c"),
        Ok(binary(
            BinaryOpKind::Mul,
            binary(BinaryOpKind::Add, var("a", 1, 2), var("b", 5, 6)),
            var("c", 10, 11)
        ))
    );
}

#[test]
fn member_accesses_and_invocations_chain_from_the_left() {
    let a_b = Expr::Call(Box::new(Call {
        callee: var("a", 0, 1),
        span: sp(0, 3),
        kind: CallKind::Field(name("b", 2, 3)),
    }));
    let a_b_c = Expr::Call(Box::new(Call {
        callee: a_b,
        span: sp(0, 5),
        kind: CallKind::Field(name("c", 4, 5)),
    }));
    let called = Expr::Call(Box::new(Call {
        callee: a_b_c,
        span: sp(0, 7),
        kind: CallKind::Fn(vec![]),
    }));
    assert_eq!(expression("a.b.c()"), Ok(called));

    let f = Expr::Call(Box::new(Call {
        callee: var("f", 0, 1),
        span: sp(0, 4),
        kind: CallKind::Fn(vec![num("1", 2, 3)]),
    }));
    let ff = Expr::Call(Box::new(Call {
        callee: f,
        span: sp(0, 10),
        kind: CallKind::Fn(vec![var("x", 5, 6), var("y", 8, 9)]),
    }));
    assert_eq!(expression("f(1)(x, y)"), Ok(ff));
}

#[test]
fn a_comma_may_follow_the_last_item() {
    let items = vec![num("1", 1, 2), num("2", 4, 5)];
    assert_eq!(
        expression("[1, 2]"),
        Ok(Expr::Literal(Literal::Array(items, sp(0, 6))))
    );
    let items = vec![num("1", 1, 2), num("2", 4, 5)];
    assert_eq!(
        expression("[1, 2,]"),
        Ok(Expr::Literal(Literal::Array(items, sp(0, 7))))
    );
    assert_eq!(
        expression("f(a,)"),
        Ok(Expr::Call(Box::new(Call {
            callee: var("f", 0, 1),
            span: sp(0, 5),
            kind: CallKind::Fn(vec![var("a", 2, 3)]),
        })))
    );
}

#[test]
fn a_comma_needs_an_item_in_front_of_it() {
    assert_eq!(
        expression("[,]"),
        Err(ParseError::UnexpectedToken {
            expected: Expected::Expression,
            found: found(TokenType::Comma, 1, 2)
        })
    );
    assert_eq!(
        expression("[1,,]"),
        Err(ParseError::UnexpectedToken {
            expected: Expected::Expression,
            found: found(TokenType::Comma, 3, 4)
        })
    );
}

#[test]
fn items_need_a_comma_between_them() {
    assert_eq!(
        expression("[1 2]"),
        Err(ParseError::UnexpectedToken {
            expected: Expected::BracketC,
            found: found(TokenType::Number("2".to_string()), 3, 4)
        })
    );
    assert_eq!(
        expression("f(1 2)"),
        Err(ParseError::UnexpectedToken {
            expected: Expected::ParenC,
            found: found(TokenType::Number("2".to_string()), 4, 5)
        })
    );
    assert_eq!(Closer::Paren.expected(), Expected::ParenC);
    assert_eq!(Closer::Bracket.expected(), Expected::BracketC);
}

#[test]
fn literals() {
    assert_eq!(
        expression("\"uwu\""),
        Ok(Expr::Literal(Literal::String("uwu".to_string(), sp(0, 5))))
    );
    assert_eq!(expression("1.50"), Ok(num("1.50", 0, 4)));
    assert_eq!(expression("true"), Ok(Expr::Literal(Literal::Boolean(true, sp(0, 4)))));
    assert_eq!(expression("false"), Ok(Expr::Literal(Literal::Boolean(false, sp(0, 5)))));
    assert_eq!(expression("null"), Ok(Expr::Literal(Literal::Null(sp(0, 4)))));
    assert_eq!(expression("{ }"), Ok(Expr::Literal(Literal::Object(sp(0, 3)))));
    assert_eq!(expression("[]"), Ok(Expr::Literal(Literal::Array(vec![], sp(0, 2)))));
}

#[test]
fn an_object_literal_has_no_entries() {
    assert_eq!(
        expression("{ a }"),
        Err(ParseError::UnexpectedToken {
            expected: Expected::BraceC,
            found: found(TokenType::Ident("a".to_string()), 2, 3)
        })
    );
}

#[test]
fn an_expression_stops_where_it_ends() {
    let mut p = parser(lex("a + b c").unwrap());
    assert_eq!(
        p.expression(),
        Ok(binary(BinaryOpKind::Add, var("a", 0, 1), var("b", 4, 5)))
    );
    assert_eq!(p.position(), 3);
    assert!(!p.is_at_end());
    assert_eq!(p.expression(), Ok(var("c", 6, 7)));
    assert!(p.is_at_end());
}

#[test]
fn a_level_leaves_looser_operators_alone() {
    let mut p = parser(lex("a * b + c").unwrap());
    assert_eq!(p.factor(), Ok(binary(BinaryOpKind::Mul, var("a", 0, 1), var("b", 4, 5))));
    assert_eq!(p.position(), 3);
    let mut p = parser(lex("a + b").unwrap());
    assert_eq!(p.factor(), Ok(var("a", 0, 1)));
    assert_eq!(p.position(), 1);
    let mut p = parser(lex("a.b + c").unwrap());
    assert_eq!(
        p.call(),
        Ok(Expr::Call(Box::new(Call {
            callee: var("a", 0, 1),
            span: sp(0, 3),
            kind: CallKind::Field(name("b", 2, 3)),
        })))
    );
    assert_eq!(p.position(), 3);
    let mut p = parser(lex("a.b").unwrap());
    assert_eq!(p.primary(), Ok(var("a", 0, 1)));
    assert_eq!(p.position(), 1);
}

#[test]
fn if_without_else() {
    assert_eq!(
        parser(lex("if true {}").unwrap()).if_stmt(),
        Ok(IfStmt {
            span: sp(0, 10),
            cond: Expr::Literal(Literal::Boolean(true, sp(3, 7))),
            body: Block { stmts: vec![], span: sp(8, 10) },
            else_part: None
        })
    );
}

#[test]
fn else_if_wraps_a_nested_if() {
    assert_eq!(
        parser(lex("if true {} else if true {}").unwrap()).if_stmt(),
        Ok(IfStmt {
            span: sp(0, 26),
            cond: Expr::Literal(Literal::Boolean(true, sp(3, 7))),
            body: Block { stmts: vec![], span: sp(8, 10) },
            else_part: Some(Box::new(ElsePart::ElseIf(
                IfStmt {
                    span: sp(16, 26),
                    cond: Expr::Literal(Literal::Boolean(true, sp(19, 23))),
                    body: Block { stmts: vec![], span: sp(24, 26) },
                    else_part: None
                },
                sp(11, 26)
            )))
        })
    );
}

#[test]
fn else_takes_a_block() {
    let parsed = parser(lex("if a {} else {}").unwrap()).if_stmt().unwrap();
    let part = parsed.else_part.unwrap();
    assert_eq!(*part, ElsePart::Else(Block { stmts: vec![], span: sp(13, 15) }, sp(8, 15)));
    assert_eq!(part.span(), sp(8, 15));
    assert_eq!(
        parser(lex("if a {} else b").unwrap()).if_stmt(),
        Err(ParseError::UnexpectedToken {
            expected: Expected::BraceO,
            found: found(TokenType::Ident("b".to_string()), 13, 14)
        })
    );
}

#[test]
fn break_is_legal_inside_a_loop() {
    assert_eq!(
        program("loop { break; }"),
        Ok(Program(vec![Stmt::Loop(
            Block { stmts: vec![Stmt::Break(sp(7, 13))], span: sp(5, 15) },
            sp(0, 15)
        )]))
    );
    assert!(program("while true { break; }").is_ok());
    assert!(program("loop { if a { break; } }").is_ok());
    assert!(program("loop { fn f() { break; } }").is_ok());
}

#[test]
fn break_outside_a_loop_fails() {
    assert_eq!(program("break;"), Err(ParseError::BreakOutsideLoop(sp(0, 5))));
    assert_eq!(program("break"), Err(ParseError::BreakOutsideLoop(sp(0, 5))));
    assert_eq!(program("if a { break; }"), Err(ParseError::BreakOutsideLoop(sp(7, 12))));
    assert_eq!(program("loop {} break;"), Err(ParseError::BreakOutsideLoop(sp(8, 13))));
    assert_eq!(
        program("while break {}"),
        Err(ParseError::UnexpectedToken {
            expected: Expected::Expression,
            found: found(TokenType::Break, 6, 11)
        })
    );
}

#[test]
fn return_is_legal_inside_a_function() {
    assert_eq!(
        program("fn f(a, b,) { return a; return; }"),
        Ok(Program(vec![Stmt::FnDecl(FnDecl {
            span: sp(0, 33),
            name: name("f", 3, 4),
            params: vec![name("a", 5, 6), name("b", 8, 9)],
            body: Block {
                stmts: vec![
                    Stmt::Return(Some(var("a", 21, 22)), sp(14, 23)),
                    Stmt::Return(None, sp(24, 31)),
                ],
                span: sp(12, 33)
            }
        })]))
    );
    assert!(program("fn f() { loop { return 1; } }").is_ok());
    assert!(program("fn f() { fn g() { return; } return; }").is_ok());
}

#[test]
fn return_outside_a_function_fails() {
    assert_eq!(program("return;"), Err(ParseError::ReturnOutsideFunction(sp(0, 6))));
    assert_eq!(program("return 1;"), Err(ParseError::ReturnOutsideFunction(sp(0, 6))));
    assert_eq!(program("loop { return; }"), Err(ParseError::ReturnOutsideFunction(sp(7, 13))));
    assert_eq!(
        program("fn f() {} return;"),
        Err(ParseError::ReturnOutsideFunction(sp(10, 16)))
    );
}

#[test]
fn the_depths_are_restored_after_success_and_after_failure() {
    let mut p = parser(lex("loop { break; } fn f() { return; } loop { 1 }").unwrap());
    assert!(p.loop_stmt().is_ok());
    assert_eq!((p.inside_fn_depth(), p.inside_loop_depth()), (0, 0));
    assert!(p.statement().is_ok());
    assert_eq!((p.inside_fn_depth(), p.inside_loop_depth()), (0, 0));
    assert_eq!(
        p.loop_stmt(),
        Err(ParseError::UnexpectedToken {
            expected: Expected::Semi,
            found: found(TokenType::BraceC, 44, 45)
        })
    );
    assert_eq!((p.inside_fn_depth(), p.inside_loop_depth()), (0, 0));
    let mut p = parser(lex("fn f() { while 1 { ( } }").unwrap());
    assert!(p.statement().is_err());
    assert_eq!((p.inside_fn_depth(), p.inside_loop_depth()), (0, 0));
}

#[test]
fn the_cursor_rests_on_the_offending_token() {
    let mut p = parser(lex("let x = ;").unwrap());
    assert_eq!(
        p.statement(),
        Err(ParseError::UnexpectedToken {
            expected: Expected::Expression,
            found: found(TokenType::Semi, 8, 9)
        })
    );
    assert_eq!(p.position(), 3);
    let mut p = parser(lex("break;").unwrap());
    assert!(p.statement().is_err());
    assert_eq!(p.position(), 0);
    let mut p = parser(lex("a.").unwrap());
    assert!(p.expression().is_err());
    assert_eq!(p.position(), 2);
    assert!(p.is_at_end());
}

#[test]
fn blocks_nest() {
    assert_eq!(
        parser(lex("{}").unwrap()).block(),
        Ok(Block { stmts: vec![], span: sp(0, 2) })
    );
    assert_eq!(
        parser(lex("{{}}").unwrap()).block(),
        Ok(Block {
            stmts: vec![Stmt::Block(Block { stmts: vec![], span: sp(1, 3) })],
            span: sp(0, 4)
        })
    );
    assert_eq!(
        program("{ a; }"),
        Ok(Program(vec![Stmt::Block(Block {
            stmts: vec![Stmt::Expr(var("a", 2, 3))],
            span: sp(0, 6)
        })]))
    );
}

#[test]
fn a_block_must_be_closed() {
    assert_eq!(
        parser(lex("{ a;").unwrap()).block(),
        Err(ParseError::UnexpectedEof { expected: Expected::BraceC, span: sp(4, 4) })
    );
    assert_eq!(
        parser(lex("a").unwrap()).block(),
        Err(ParseError::UnexpectedToken {
            expected: Expected::BraceO,
            found: found(TokenType::Ident("a".to_string()), 0, 1)
        })
    );
}

#[test]
fn a_declaration_binds_a_value() {
    assert_eq!(
        program("let x = 1 + 2;"),
        Ok(Program(vec![Stmt::Declaration(Declaration {
            span: sp(0, 14),
            name: name("x", 4, 5),
            init: binary(BinaryOpKind::Add, num("1", 8, 9), num("2", 12, 13)),
        })]))
    );
    assert_eq!(
        program("let x;"),
        Err(ParseError::UnexpectedToken {
            expected: Expected::Equal,
            found: found(TokenType::Semi, 5, 6)
        })
    );
    assert_eq!(
        program("let 1 = 2;"),
        Err(ParseError::UnexpectedToken {
            expected: Expected::Identifier,
            found: found(TokenType::Number("1".to_string()), 4, 5)
        })
    );
    assert_eq!(
        program("let x = 1"),
        Err(ParseError::UnexpectedEof { expected: Expected::Semi, span: sp(9, 9) })
    );
}

#[test]
fn any_expression_may_be_assigned_to() {
    assert_eq!(
        program("10 = 20;"),
        Ok(Program(vec![Stmt::Assignment(Assignment {
            span: sp(0, 8),
            lhs: num("10", 0, 2),
            rhs: num("20", 5, 7),
        })]))
    );
    assert_eq!(
        program("a.b = c;"),
        Ok(Program(vec![Stmt::Assignment(Assignment {
            span: sp(0, 8),
            lhs: Expr::Call(Box::new(Call {
                callee: var("a", 0, 1),
                span: sp(0, 3),
                kind: CallKind::Field(name("b", 2, 3)),
            })),
            rhs: var("c", 6, 7),
        })]))
    );
    assert_eq!(
        program("a = b = c;"),
        Err(ParseError::UnexpectedToken {
            expected: Expected::Semi,
            found: found(TokenType::Equal, 6, 7)
        })
    );
}

#[test]
fn an_expression_statement_needs_its_semicolon() {
    assert_eq!(program("a;"), Ok(Program(vec![Stmt::Expr(var("a", 0, 1))])));
    assert_eq!(
        program("a"),
        Err(ParseError::UnexpectedEof { expected: Expected::Semi, span: sp(1, 1) })
    );
    assert_eq!(
        program("a b;"),
        Err(ParseError::UnexpectedToken {
            expected: Expected::Semi,
            found: found(TokenType::Ident("b".to_string()), 2, 3)
        })
    );
}

#[test]
fn while_takes_a_condition_and_a_block() {
    assert_eq!(
        program("while a < 3 { a = a + 1; }"),
        Ok(Program(vec![Stmt::While(WhileStmt {
            span: sp(0, 26),
            cond: binary(BinaryOpKind::Less, var("a", 6, 7), num("3", 10, 11)),
            body: Block {
                stmts: vec![Stmt::Assignment(Assignment {
                    span: sp(14, 24),
                    lhs: var("a", 14, 15),
                    rhs: binary(BinaryOpKind::Add, var("a", 18, 19), num("1", 22, 23)),
                })],
                span: sp(12, 26)
            }
        })]))
    );
}

#[test]
fn a_function_declaration_needs_all_its_parts() {
    assert_eq!(
        program("fn () {}"),
        Err(ParseError::UnexpectedToken {
            expected: Expected::Identifier,
            found: found(TokenType::ParenO, 3, 4)
        })
    );
    assert_eq!(
        program("fn f {}"),
        Err(ParseError::UnexpectedToken {
            expected: Expected::ParenO,
            found: found(TokenType::BraceO, 5, 6)
        })
    );
    assert_eq!(
        program("fn f(a b) {}"),
        Err(ParseError::UnexpectedToken {
            expected: Expected::ParenC,
            found: found(TokenType::Ident("b".to_string()), 7, 8)
        })
    );
    assert_eq!(
        program("fn f(1) {}"),
        Err(ParseError::UnexpectedToken {
            expected: Expected::Identifier,
            found: found(TokenType::Number("1".to_string()), 5, 6)
        })
    );
    assert_eq!(
        program("fn f()"),
        Err(ParseError::UnexpectedEof { expected: Expected::BraceO, span: sp(6, 6) })
    );
}

#[test]
fn a_rule_fails_where_its_keyword_is_missing() {
    assert_eq!(
        parser(lex("while a {}").unwrap()).if_stmt(),
        Err(ParseError::UnexpectedToken {
            expected: Expected::If,
            found: found(TokenType::While, 0, 5)
        })
    );
    assert_eq!(
        parser(lex("if a {}").unwrap()).while_stmt(),
        Err(ParseError::UnexpectedToken {
            expected: Expected::While,
            found: found(TokenType::If, 0, 2)
        })
    );
    assert_eq!(
        parser(vec![]).loop_stmt(),
        Err(ParseError::UnexpectedEof { expected: Expected::Loop, span: Span::dummy() })
    );
    assert_eq!(
        parser(lex("f() {}").unwrap()).fn_decl(),
        Err(ParseError::UnexpectedToken {
            expected: Expected::Fn,
            found: found(TokenType::Ident("f".to_string()), 0, 1)
        })
    );
}

#[test]
fn a_function_declaration_parses_on_its_own() {
    let mut p = parser(lex("fn id(x) { return x; } y").unwrap());
    assert_eq!(
        p.fn_decl(),
        Ok(Stmt::FnDecl(FnDecl {
            span: sp(0, 22),
            name: name("id", 3, 5),
            params: vec![name("x", 6, 7)],
            body: Block {
                stmts: vec![Stmt::Return(Some(var("x", 18, 19)), sp(11, 20))],
                span: sp(9, 22)
            }
        }))
    );
    assert_eq!(p.position(), 10);
    assert_eq!(p.inside_fn_depth(), 0);
}

#[test]
fn a_cloned_name_equals_the_first() {
    let id = name("abc", 1, 4);
    assert_eq!(id.clone(), id);
}

#[test]
fn tokens_that_no_statement_takes_fail_the_parse() {
    assert_eq!(
        program("a; }"),
        Err(ParseError::UnexpectedToken {
            expected: Expected::Expression,
            found: found(TokenType::BraceC, 3, 4)
        })
    );
    assert_eq!(
        program("a; )"),
        Err(ParseError::UnexpectedToken {
            expected: Expected::Expression,
            found: found(TokenType::ParenC, 3, 4)
        })
    );
}

#[test]
fn the_first_failure_ends_the_parse() {
    assert_eq!(
        program("let = 1; break;"),
        Err(ParseError::UnexpectedToken {
            expected: Expected::Identifier,
            found: found(TokenType::Equal, 4, 5)
        })
    );
}

#[test]
fn the_tokens_may_end_too_early() {
    assert_eq!(
        expression("1 +"),
        Err(ParseError::UnexpectedEof { expected: Expected::Expression, span: sp(3, 3) })
    );
    assert_eq!(
        expression("(1"),
        Err(ParseError::UnexpectedEof { expected: Expected::ParenC, span: sp(2, 2) })
    );
    assert_eq!(
        expression("a."),
        Err(ParseError::UnexpectedEof { expected: Expected::Identifier, span: sp(2, 2) })
    );
    assert_eq!(
        Parser::new(vec![]).expression(),
        Err(ParseError::UnexpectedEof { expected: Expected::Expression, span: Span::dummy() })
    );
}

#[test]
fn a_parse_error_knows_its_span() {
    let unexpected =
        ParseError::UnexpectedToken { expected: Expected::Semi, found: found(TokenType::Dot, 4, 5) };
    assert_eq!(unexpected.span(), sp(4, 5));
    let eof = ParseError::UnexpectedEof { expected: Expected::Semi, span: sp(9, 9) };
    assert_eq!(eof.span(), sp(9, 9));
    assert_eq!(ParseError::BreakOutsideLoop(sp(1, 6)).span(), sp(1, 6));
    assert_eq!(ParseError::ReturnOutsideFunction(sp(2, 8)).span(), sp(2, 8));
}

#[test]
fn a_node_spans_its_first_to_its_last_part() {
    let parsed = expression("a + (b)").unwrap();
    assert_eq!(parsed.span(), sp(0, 6));
    let parsed = expression("[1, 2]").unwrap();
    assert_eq!(parsed.span(), sp(0, 6));
    if let Expr::Literal(lit) = parsed {
        assert_eq!(lit.span(), sp(0, 6));
    } else {
        panic!("an array literal was expected");
    }
    assert_eq!(expression("!x").unwrap().span(), sp(0, 2));
    assert_eq!(expression("f(x)").unwrap().span(), sp(0, 4));
    assert_eq!(expression("x").unwrap().span(), sp(0, 1));
}

#[test]
fn source_text_is_scanned_and_then_parsed() {
    assert_eq!(
        parse_source("x = 1; // set\n"),
        Ok(Program(vec![Stmt::Assignment(Assignment {
            span: sp(0, 6),
            lhs: var("x", 0, 1),
            rhs: num("1", 4, 5),
        })]))
    );
    assert_eq!(
        parse_source("x = #;"),
        Err(Error::Lex(LexError::UnexpectedCharacter('#', sp(4, 5))))
    );
    assert_eq!(
        parse_source("x = ;"),
        Err(Error::Parse(ParseError::UnexpectedToken {
            expected: Expected::Expression,
            found: found(TokenType::Semi, 4, 5)
        }))
    );
    assert_eq!(
        parse_source("break; \"open"),
        Err(Error::Lex(LexError::UnterminatedString(sp(7, 12))))
    );
}

#[test]
fn synthetic_tokens_give_dummy_spans() {
    let tokens = vec![
        token(TokenType::Ident("a".to_string())),
        token(TokenType::Minus),
        token(TokenType::Ident("b".to_string())),
        token(TokenType::Minus),
        token(TokenType::Ident("c".to_string())),
    ];
    assert_eq!(
        parser(tokens).expression(),
        Ok(binary(
            BinaryOpKind::Sub,
            binary(BinaryOpKind::Sub, var("a", 0, 0), var("b", 0, 0)),
            var("c", 0, 0)
        ))
    );
}

#[test]
fn the_marker_is_on_parent() {
    foo(Parent::Boo(PhantomData));
    requires_parent_fulfill_cool_trait(Parent::Boo(PhantomData));
    requires_parent_fulfill_cool_trait(&Parent::Boo(PhantomData));
}

fn within(outer: Span, inner: Span) -> bool {
    outer.start <= inner.start && inner.start <= inner.end && inner.end <= outer.end
}

fn check_expr(e: &Expr) {
    match e {
        Expr::Ident(id) => assert!(id.span.start < id.span.end),
        Expr::Literal(Literal::Array(items, span)) => {
            for item in items {
                assert!(within(*span, item.span()));
                check_expr(item);
            }
        }
        Expr::Literal(lit) => assert!(lit.span().start < lit.span().end),
        Expr::UnaryOp(op) => {
            assert!(within(op.span, op.expr.span()));
            check_expr(&op.expr);
        }
        Expr::BinaryOp(op) => {
            assert!(within(op.span, op.lhs.span()));
            assert!(within(op.span, op.rhs.span()));
            assert!(op.lhs.span().end <= op.rhs.span().start);
            check_expr(&op.lhs);
            check_expr(&op.rhs);
        }
        Expr::Call(call) => {
            assert!(within(call.span, call.callee.span()));
            check_expr(&call.callee);
            match &call.kind {
                CallKind::Field(id) => assert!(within(call.span, id.span)),
                CallKind::Fn(args) => {
                    for arg in args {
                        assert!(within(call.span, arg.span()));
                        check_expr(arg);
                    }
                }
            }
        }
    }
}

fn check_block(b: &Block, outer: Span) {
    assert!(within(outer, b.span));
    for s in &b.stmts {
        check_stmt(s, b.span);
    }
}

fn check_if(i: &IfStmt, outer: Span) {
    assert!(within(outer, i.span));
    assert!(within(i.span, i.cond.span()));
    check_expr(&i.cond);
    check_block(&i.body, i.span);
    match i.else_part.as_deref() {
        None => {}
        Some(ElsePart::Else(block, span)) => {
            assert!(within(i.span, *span));
            check_block(block, *span);
        }
        Some(ElsePart::ElseIf(nested, span)) => {
            assert!(within(i.span, *span));
            check_if(nested, *span);
        }
    }
}

fn check_stmt(s: &Stmt, outer: Span) {
    match s {
        Stmt::Declaration(d) => {
            assert!(within(outer, d.span));
            assert!(within(d.span, d.name.span));
            assert!(within(d.span, d.init.span()));
            check_expr(&d.init);
        }
        Stmt::Assignment(a) => {
            assert!(within(outer, a.span));
            assert!(within(a.span, a.lhs.span()));
            assert!(within(a.span, a.rhs.span()));
            check_expr(&a.lhs);
            check_expr(&a.rhs);
        }
        Stmt::FnDecl(f) => {
            assert!(within(outer, f.span));
            assert!(within(f.span, f.name.span));
            for p in &f.params {
                assert!(within(f.span, p.span));
            }
            check_block(&f.body, f.span);
        }
        Stmt::If(i) => check_if(i, outer),
        Stmt::Loop(body, span) => {
            assert!(within(outer, *span));
            check_block(body, *span);
        }
        Stmt::While(w) => {
            assert!(within(outer, w.span));
            assert!(within(w.span, w.cond.span()));
            check_expr(&w.cond);
            check_block(&w.body, w.span);
        }
        Stmt::Break(span) => assert!(within(outer, *span)),
        Stmt::Return(value, span) => {
            assert!(within(outer, *span));
            if let Some(e) = value {
                assert!(within(*span, e.span()));
                check_expr(e);
            }
        }
        Stmt::Block(b) => check_block(b, outer),
        Stmt::Expr(e) => {
            assert!(within(outer, e.span()));
            check_expr(e);
        }
    }
}

#[test]
fn every_node_covers_its_parts() {
    let source = "fn f(a, b) {\n  let xs = [a, (b + 1) * -2, g(a)(b).c];\n  \
                  while !(a >= b) || xs.len() == 0 { if a { break; } else if b { a = {}; } \
                  else { return \"s\"; } }\n  loop { { f(1, 2,); } break; }\n  return;\n}\n\
                  (f)(1.5, null) ;";
    let program = parse_source(source).unwrap();
    let whole = Span::new(0, source.chars().count());
    assert_eq!(program.0.len(), 2);
    for s in &program.0 {
        check_stmt(s, whole);
    }
}
