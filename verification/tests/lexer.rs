use script_lang::errors::{LexError, Span};
use script_lang::lex::{lex, token, CharClass, Lexer, Token, TokenType};

fn kinds(source: &str) -> Vec<TokenType> {
    lex(source).unwrap().into_iter().map(|t| t.kind).collect()
}

fn ident(name: &str) -> TokenType {
    TokenType::Ident(name.to_string())
}

fn number(text: &str) -> TokenType {
    TokenType::Number(text.to_string())
}

#[test]
fn empty_source_has_no_tokens() {
    assert_eq!(lex(""), Ok(vec![]));
}

#[test]
fn blanks_and_comments_alone_have_no_tokens() {
    assert_eq!(lex(" \t\r\n// nothing here\n  // nor here"), Ok(vec![]));
}

#[test]
fn every_keyword_is_recognised() {
    assert_eq!(
        kinds("let fn if else while loop break return true false null"),
        vec![
            TokenType::Let,
            TokenType::Fn,
            TokenType::If,
            TokenType::Else,
            TokenType::While,
            TokenType::Loop,
            TokenType::Break,
            TokenType::Return,
            TokenType::True,
            TokenType::False,
            TokenType::Null,
        ]
    );
}

#[test]
fn a_keyword_needs_the_exact_spelling() {
    assert_eq!(
        kinds("iffy If _if if_ let1 nulls"),
        vec![ident("iffy"), ident("If"), ident("_if"), ident("if_"), ident("let1"), ident("nulls")]
    );
}

#[test]
fn names_hold_letters_digits_and_underscores() {
    assert_eq!(kinds("_ a1_b2 Zz9"), vec![ident("_"), ident("a1_b2"), ident("Zz9")]);
}

#[test]
fn every_punctuation_is_recognised() {
    assert_eq!(
        kinds("{ } ( ) [ ] ; , ."),
        vec![
            TokenType::BraceO,
            TokenType::BraceC,
            TokenType::ParenO,
            TokenType::ParenC,
            TokenType::BracketO,
            TokenType::BracketC,
            TokenType::Semi,
            TokenType::Comma,
            TokenType::Dot,
        ]
    );
}

#[test]
fn every_operator_is_recognised() {
    assert_eq!(
        kinds("+ - * / % = == ! != > >= < <= && ||"),
        vec![
            TokenType::Plus,
            TokenType::Minus,
            TokenType::Asterisk,
            TokenType::Slash,
            TokenType::Percent,
            TokenType::Equal,
            TokenType::EqualEqual,
            TokenType::Not,
            TokenType::BangEqual,
            TokenType::Greater,
            TokenType::GreaterEqual,
            TokenType::Less,
            TokenType::LessEqual,
            TokenType::And,
            TokenType::Or,
        ]
    );
}

#[test]
fn the_longer_operator_wins() {
    assert_eq!(
        kinds("===!=!<=<>=>"),
        vec![
            TokenType::EqualEqual,
            TokenType::Equal,
            TokenType::BangEqual,
            TokenType::Not,
            TokenType::LessEqual,
            TokenType::Less,
            TokenType::GreaterEqual,
            TokenType::Greater,
        ]
    );
}

#[test]
fn whole_numbers_and_fractions() {
    assert_eq!(kinds("10 4.5 007 0.25"), vec![
        number("10"),
        number("4.5"),
        number("007"),
        number("0.25")
    ]);
}

#[test]
fn a_second_point_ends_the_number() {
    assert_eq!(kinds("1.5.2"), vec![number("1.5"), TokenType::Dot, number("2")]);
}

#[test]
fn a_letter_ends_the_number() {
    assert_eq!(kinds("12ab"), vec![number("12"), ident("ab")]);
}

#[test]
fn a_point_without_digits_is_an_invalid_number() {
    assert_eq!(lex("12."), Err(LexError::InvalidNumber(Span::new(0, 3))));
    assert_eq!(lex("x = 1.foo"), Err(LexError::InvalidNumber(Span::new(4, 6))));
}

#[test]
fn a_string_holds_what_is_between_the_quotes() {
    assert_eq!(
        lex("\"uwu\""),
        Ok(vec![Token::new(TokenType::String("uwu".to_string()), Span::new(0, 5))])
    );
    assert_eq!(kinds("\"\""), vec![TokenType::String(String::new())]);
}

#[test]
fn a_string_keeps_blanks_comments_and_backslashes() {
    assert_eq!(
        kinds("\"a // b\\n\nc\""),
        vec![TokenType::String("a // b\\n\nc".to_string())]
    );
}

#[test]
fn an_open_string_is_unterminated() {
    assert_eq!(lex("\"abc"), Err(LexError::UnterminatedString(Span::new(0, 4))));
    assert_eq!(lex("x \""), Err(LexError::UnterminatedString(Span::new(2, 3))));
}

#[test]
fn a_character_that_starts_nothing_is_unexpected() {
    assert_eq!(lex("a # b"), Err(LexError::UnexpectedCharacter('#', Span::new(2, 3))));
    assert_eq!(lex("@"), Err(LexError::UnexpectedCharacter('@', Span::new(0, 1))));
    assert_eq!(lex("\u{e9}"), Err(LexError::UnexpectedCharacter('\u{e9}', Span::new(0, 1))));
}

#[test]
fn a_single_ampersand_or_bar_is_unexpected() {
    assert_eq!(lex("a & b"), Err(LexError::UnexpectedCharacter('&', Span::new(2, 3))));
    assert_eq!(lex("a |"), Err(LexError::UnexpectedCharacter('|', Span::new(2, 3))));
    assert_eq!(lex("&|"), Err(LexError::UnexpectedCharacter('&', Span::new(0, 1))));
}

#[test]
fn the_first_failure_is_reported() {
    assert_eq!(lex("1. \"open"), Err(LexError::InvalidNumber(Span::new(0, 2))));
    assert_eq!(lex("# 1."), Err(LexError::UnexpectedCharacter('#', Span::new(0, 1))));
}

#[test]
fn spans_are_half_open_character_ranges() {
    assert_eq!(
        lex("let x1 = 10.5;"),
        Ok(vec![
            Token::new(TokenType::Let, Span::new(0, 3)),
            Token::new(ident("x1"), Span::new(4, 6)),
            Token::new(TokenType::Equal, Span::new(7, 8)),
            Token::new(number("10.5"), Span::new(9, 13)),
            Token::new(TokenType::Semi, Span::new(13, 14)),
        ])
    );
}

#[test]
fn spans_count_characters_not_bytes() {
    assert_eq!(
        lex("\"\u{e9}\u{4e16}\" x"),
        Ok(vec![
            Token::new(TokenType::String("\u{e9}\u{4e16}".to_string()), Span::new(0, 4)),
            Token::new(ident("x"), Span::new(5, 6)),
        ])
    );
}

#[test]
fn a_comment_runs_to_the_end_of_the_line() {
    assert_eq!(
        lex("a // b c\nd / e"),
        Ok(vec![
            Token::new(ident("a"), Span::new(0, 1)),
            Token::new(ident("d"), Span::new(9, 10)),
            Token::new(TokenType::Slash, Span::new(11, 12)),
            Token::new(ident("e"), Span::new(13, 14)),
        ])
    );
    assert_eq!(kinds("a//"), vec![ident("a")]);
}

#[test]
fn tokens_need_no_blank_between_them() {
    assert_eq!(
        kinds("f(a,b)[0].c"),
        vec![
            ident("f"),
            TokenType::ParenO,
            ident("a"),
            TokenType::Comma,
            ident("b"),
            TokenType::ParenC,
            TokenType::BracketO,
            number("0"),
            TokenType::BracketC,
            TokenType::Dot,
            ident("c"),
        ]
    );
}

#[test]
fn lexing_again_gives_the_same_tokens() {
    let source = "while a >= 1.5 { b = \"s\"; } // done";
    assert_eq!(lex(source), lex(source));
    let copy = source.to_string();
    assert_eq!(lex(source), lex(&copy));
    assert_eq!(lex("1."), lex("1."));
}

#[test]
fn token_spans_neither_overlap_nor_leave_the_text() {
    let source = "fn f(a, b) { return a.b(1.5, \"x\") != !c; } // end";
    let tokens = lex(source).unwrap();
    let len = source.chars().count();
    let mut last = 0;
    for t in tokens {
        assert!(last <= t.span.start);
        assert!(t.span.start < t.span.end);
        assert!(t.span.end <= len);
        last = t.span.end;
    }
}

#[test]
fn the_lexer_hands_out_one_token_at_a_time() {
    let mut lexer = Lexer::new("a  + // x\n 1");
    assert_eq!(lexer.next_token(), Some(Ok(Token::new(ident("a"), Span::new(0, 1)))));
    assert_eq!(lexer.next_token(), Some(Ok(Token::new(TokenType::Plus, Span::new(3, 4)))));
    assert_eq!(lexer.next_token(), Some(Ok(Token::new(number("1"), Span::new(11, 12)))));
    assert_eq!(lexer.next_token(), None);
    assert_eq!(lexer.next_token(), None);
}

#[test]
fn the_lexer_is_used_up_after_a_failure() {
    let mut lexer = Lexer::new("a # b");
    assert_eq!(lexer.next_token(), Some(Ok(Token::new(ident("a"), Span::new(0, 1)))));
    assert_eq!(
        lexer.next_token(),
        Some(Err(LexError::UnexpectedCharacter('#', Span::new(2, 3))))
    );
    assert_eq!(lexer.next_token(), None);
}

#[test]
fn a_synthetic_token_has_the_dummy_span() {
    assert_eq!(token(TokenType::If), Token::new(TokenType::If, Span::new(0, 0)));
    assert_eq!(token(TokenType::If).span, Span::dummy());
}

#[test]
fn a_cloned_token_equals_the_original() {
    let first = Token::new(ident("name"), Span::new(3, 7));
    assert_eq!(first.clone(), first);
    let text = Token::new(TokenType::String("s".to_string()), Span::new(0, 3));
    assert_eq!(text.clone(), text);
    assert_eq!(TokenType::Comma.clone(), TokenType::Comma);
}

#[test]
fn same_compares_kind_and_text() {
    assert!(TokenType::Semi.same(&TokenType::Semi));
    assert!(!TokenType::Semi.same(&TokenType::Comma));
    assert!(ident("a").same(&ident("a")));
    assert!(!ident("a").same(&ident("b")));
    assert!(!ident("1").same(&number("1")));
    assert!(!number("1").same(&TokenType::String("1".to_string())));
    assert!(number("1.0").same(&number("1.0")));
    assert!(!number("1.0").same(&number("1")));
}

#[test]
fn character_classes() {
    assert!(CharClass::Digit.contains('0') && CharClass::Digit.contains('9'));
    assert!(!CharClass::Digit.contains('a') && !CharClass::Digit.contains('/'));
    assert!(!CharClass::Digit.contains(':'));
    assert!(CharClass::Word.contains('_') && CharClass::Word.contains('z'));
    assert!(CharClass::Word.contains('A') && CharClass::Word.contains('5'));
    assert!(!CharClass::Word.contains('-') && !CharClass::Word.contains('\u{e9}'));
    assert!(CharClass::Line.contains(' ') && !CharClass::Line.contains('\n'));
    assert!(CharClass::Quoted.contains('\n') && !CharClass::Quoted.contains('"'));
}

#[test]
fn span_arithmetic() {
    assert_eq!(Span::new(2, 5), Span { start: 2, end: 5 });
    assert_eq!(Span::dummy(), Span { start: 0, end: 0 });
    assert_eq!(Span::default(), Span::dummy());
    assert_eq!(Span::new(2, 5).to(Span::new(7, 9)), Span::new(2, 9));
    assert_eq!(Span::new(2, 5).after(), Span::new(5, 5));
    assert_eq!(Span::dummy().to(Span::dummy()), Span::dummy());
}

#[test]
fn a_lex_error_knows_its_span() {
    assert_eq!(LexError::UnterminatedString(Span::new(1, 2)).span(), Span::new(1, 2));
    assert_eq!(LexError::UnexpectedCharacter('#', Span::new(3, 4)).span(), Span::new(3, 4));
    assert_eq!(LexError::InvalidNumber(Span::new(5, 7)).span(), Span::new(5, 7));
}

#[test]
fn tokens_behind_blanks_are_the_same_up_to_their_spans() {
    let text = "while a >= 1.5 { b = \"s\"; }";
    let plain = lex(text).unwrap();
    let moved = lex(&format!(" \n\t{}", text)).unwrap();
    assert_eq!(plain.len(), moved.len());
    for (p, m) in plain.iter().zip(moved.iter()) {
        assert_eq!(p.kind, m.kind);
        assert_eq!(Span::new(p.span.start + 3, p.span.end + 3), m.span);
    }
    assert_eq!(lex("12."), Err(LexError::InvalidNumber(Span::new(0, 3))));
    assert_eq!(lex("  12."), Err(LexError::InvalidNumber(Span::new(2, 5))));
}
