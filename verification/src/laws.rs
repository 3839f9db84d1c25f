//! What holds of the scanner and of the grammar, for every input.

use vstd::prelude::*;
use crate::ast::{CallKindView, CallView, ExprView, ProgramView, StmtView, UnaryOpView};
use crate::errors::{LexError, ParseErrorView, Span};
use crate::grammar::{
    binary_levels, binary_node, done, failed, ident_at, kind_at, lemma_statement_takes_a_token,
    operator, operator_at, parse_binary, parse_binary_tail, parse_block, parse_block_items,
    parse_call, parse_call_tail, parse_expression, parse_fn_decl, parse_if, parse_items,
    parse_params, parse_primary, parse_program, parse_program_items, parse_statement,
    parse_unary, parse_while, prefix_at, span_of, tokens_left, Closer,
};
use crate::lex::{
    comment_at, is_digit, is_letter, is_whitespace, keyword, lexeme_at, run_len, span_at,
    spec_lex, tokens_from, trivia_len, CharClass, Lexeme, TokenTypeView, TokenView,
};

verus! {

/// The tokens depend on the characters of the text and on nothing else: two
/// texts with the same characters have the same tokens, spans included, or
/// the same failure.
pub proof fn lemma_lex_is_stable(first: Seq<char>, second: Seq<char>)
    requires
        first =~= second,
    ensures
        spec_lex(first) == spec_lex(second),
{
}

/// The empty text has no tokens.
pub proof fn lemma_lex_empty()
    ensures
        spec_lex(Seq::<char>::empty()) == Ok::<Seq<TokenView>, LexError>(Seq::empty()),
{
}

/// No tokens make the empty program.
pub proof fn lemma_parse_empty()
    ensures
        parse_program(Seq::<TokenView>::empty()) == Ok::<ProgramView, ParseErrorView>(
            ProgramView(Seq::empty()),
        ),
{
}

/// A run ends inside the text.
pub proof fn lemma_run_in_bounds(src: Seq<char>, from: int, class: CharClass)
    requires
        0 <= from <= src.len(),
    ensures
        from + run_len(src, from, class) <= src.len(),
    decreases src.len() - from,
{
    if from < src.len() && class.contains(src[from]) {
        lemma_run_in_bounds(src, from + 1, class);
    }
}

/// Blanks and comments end inside the text.
pub proof fn lemma_trivia_in_bounds(src: Seq<char>, from: int)
    requires
        0 <= from <= src.len(),
    ensures
        from + trivia_len(src, from) <= src.len(),
    decreases src.len() - from,
{
    if from < src.len() && is_whitespace(src[from]) {
        lemma_trivia_in_bounds(src, from + 1);
    } else if comment_at(src, from) {
        lemma_run_in_bounds(src, from + 2, CharClass::Line);
        let comment = 2 + run_len(src, from + 2, CharClass::Line);
        lemma_trivia_in_bounds(src, from + comment);
    }
}

/// A token takes at least one character and ends inside the text.
pub proof fn lemma_lexeme_in_bounds(src: Seq<char>, at: int)
    requires
        0 <= at < src.len(),
    ensures
        lexeme_at(src, at) matches Lexeme::Token { len, .. } ==> 1 <= len && at + len <= src.len(),
{
    lemma_run_in_bounds(src, at + 1, CharClass::Digit);
    lemma_run_in_bounds(src, at + 1, CharClass::Word);
    lemma_run_in_bounds(src, at + 1, CharClass::Quoted);
    let whole = 1 + run_len(src, at + 1, CharClass::Digit);
    if at + whole < src.len() {
        lemma_run_in_bounds(src, at + whole + 1, CharClass::Digit);
    }
}

/// The spans of the tokens lie in the text, in the order of the tokens and
/// without overlap, and none of them is empty.
pub proof fn lemma_token_spans_in_order(src: Seq<char>, from: int)
    requires
        0 <= from <= src.len(),
        src.len() <= usize::MAX,
    ensures
        tokens_from(src, from) matches Ok(tokens) ==> {
            &&& forall|i: int|
                0 <= i < tokens.len() ==> from <= (#[trigger] tokens[i]).span.start
                    < tokens[i].span.end <= src.len()
            &&& forall|i: int, j: int|
                0 <= i < j < tokens.len() ==> (#[trigger] tokens[i]).span.end
                    <= (#[trigger] tokens[j]).span.start
        },
    decreases src.len() - from,
{
    lemma_trivia_in_bounds(src, from);
    let at = from + trivia_len(src, from);
    if at < src.len() {
        lemma_lexeme_in_bounds(src, at);
        if let Lexeme::Token { kind, len } = lexeme_at(src, at) {
            lemma_token_spans_in_order(src, at + len);
            if let Ok(rest) = tokens_from(src, at + len) {
                let tokens = tokens_from(src, from)->Ok_0;
                assert(tokens == seq![TokenView { kind, span: span_at(at, len as int) }]
                    + rest);
                assert forall|i: int| 0 <= i < tokens.len() implies from <= (
                #[trigger] tokens[i]).span.start < tokens[i].span.end <= src.len() by {
                    if i > 0 {
                        assert(tokens[i] == rest[i - 1]);
                    }
                }
                assert forall|i: int, j: int| 0 <= i < j < tokens.len() implies (
                #[trigger] tokens[i]).span.end <= (#[trigger] tokens[j]).span.start by {
                    assert(tokens[j] == rest[j - 1]);
                    if i > 0 {
                        assert(tokens[i] == rest[i - 1]);
                    }
                }
            }
        }
    }
}

/// A run holds characters of its class only, and is as long as can be: the
/// character behind it, if there is one, is not of the class.
pub proof fn lemma_run_is_maximal(src: Seq<char>, from: int, class: CharClass)
    requires
        0 <= from <= src.len(),
    ensures
        forall|k: int|
            from <= k < from + run_len(src, from, class) ==> class.contains(#[trigger] src[k]),
        from + run_len(src, from, class) < src.len() ==> !class.contains(
            src[from + run_len(src, from, class)],
        ),
    decreases src.len() - from,
{
    if from < src.len() && class.contains(src[from]) {
        lemma_run_is_maximal(src, from + 1, class);
    }
}

/// What the text of a number looks like: digits, with at most one point
/// among them, which stands neither first nor last.
pub open spec fn number_text(text: Seq<char>) -> bool {
    &&& text.len() >= 1
    &&& is_digit(text.first())
    &&& is_digit(text.last())
    &&& forall|k: int| 0 <= k < text.len() ==> is_digit(#[trigger] text[k]) || text[k] == '.'
    &&& forall|i: int, j: int|
        0 <= i < j < text.len() ==> !(#[trigger] text[i] == '.' && #[trigger] text[j] == '.')
}

/// What the text of a name looks like: a letter or `_`, then letters,
/// digits and `_`; and it is no keyword.
pub open spec fn name_text(text: Seq<char>) -> bool {
    &&& text.len() >= 1
    &&& is_letter(text.first())
    &&& forall|k: int| 0 <= k < text.len() ==> CharClass::Word.contains(#[trigger] text[k])
    &&& keyword(text) is None
}

/// A token that carries text carries the text of its span: a name and a
/// number all of it, a string literal what is between its quotes. The text
/// has the shape of its kind.
pub open spec fn token_from_source(src: Seq<char>, token: TokenView) -> bool {
    let start = token.span.start as int;
    let end = token.span.end as int;
    match token.kind {
        TokenTypeView::Ident(text) => text == src.subrange(start, end) && name_text(text),
        TokenTypeView::Number(text) => text == src.subrange(start, end) && number_text(text),
        TokenTypeView::String(text) => {
            &&& text == src.subrange(start + 1, end - 1)
            &&& src[start] == '"'
            &&& src[end - 1] == '"'
            &&& forall|k: int| 0 <= k < text.len() ==> #[trigger] text[k] != '"'
        },
        _ => true,
    }
}

/// What [`lemma_tokens_from_source`] says, of one token.
#[verifier::rlimit(40)]
pub proof fn lemma_lexeme_from_source(src: Seq<char>, at: int)
    requires
        0 <= at < src.len(),
        src.len() <= usize::MAX,
    ensures
        lexeme_at(src, at) matches Lexeme::Token { kind, len } ==> token_from_source(
            src,
            TokenView { kind, span: span_at(at, len as int) },
        ),
{
    lemma_lexeme_in_bounds(src, at);
    if let Lexeme::Token { kind, len } = lexeme_at(src, at) {
        let c = src[at];
        if is_digit(c) {
            lemma_run_is_maximal(src, at + 1, CharClass::Digit);
            lemma_run_in_bounds(src, at + 1, CharClass::Digit);
            let whole = 1 + run_len(src, at + 1, CharClass::Digit);
            let text = src.subrange(at, at + len);
            if at + whole < src.len() && src[at + whole] == '.' {
                lemma_run_is_maximal(src, at + whole + 1, CharClass::Digit);
                assert forall|k: int| 0 <= k < text.len() implies is_digit(#[trigger] text[k])
                    || text[k] == '.' by {
                    assert(text[k] == src[at + k]);
                }
                assert forall|i: int, j: int| 0 <= i < j < text.len() implies !(#[trigger] text[i]
                    == '.' && #[trigger] text[j] == '.') by {
                    assert(text[i] == src[at + i]);
                    assert(text[j] == src[at + j]);
                    if i != whole {
                        assert(is_digit(src[at + i]));
                    }
                    if j != whole {
                        assert(is_digit(src[at + j]));
                    }
                }
                assert(text.last() == src[at + len - 1]);
                assert(is_digit(src[at + len - 1]));
            } else {
                assert forall|k: int| 0 <= k < text.len() implies is_digit(#[trigger] text[k])
                    || text[k] == '.' by {
                    assert(text[k] == src[at + k]);
                }
                assert forall|i: int, j: int| 0 <= i < j < text.len() implies !(#[trigger] text[i]
                    == '.' && #[trigger] text[j] == '.') by {
                    assert(text[i] == src[at + i]);
                    assert(is_digit(src[at + i]));
                }
                assert(text.last() == src[at + len - 1]);
                assert(is_digit(src[at + len - 1]));
            }
        } else if is_letter(c) {
            lemma_run_is_maximal(src, at + 1, CharClass::Word);
            let text = src.subrange(at, at + len);
            if kind is Ident {
                assert forall|k: int| 0 <= k < text.len() implies CharClass::Word.contains(
                    #[trigger] text[k],
                ) by {
                    assert(text[k] == src[at + k]);
                }
            }
        } else if c == '"' {
            lemma_run_is_maximal(src, at + 1, CharClass::Quoted);
            let text = src.subrange(at + 1, at + len - 1);
            assert forall|k: int| 0 <= k < text.len() implies #[trigger] text[k] != '"' by {
                assert(text[k] == src[at + 1 + k]);
            }
        }
    }
}

/// The tokens that carry text carry the text of their spans, in the shape
/// of their kind: see [`token_from_source`].
pub proof fn lemma_tokens_from_source(src: Seq<char>, from: int)
    requires
        0 <= from <= src.len(),
        src.len() <= usize::MAX,
    ensures
        tokens_from(src, from) matches Ok(tokens) ==> forall|i: int|
            0 <= i < tokens.len() ==> token_from_source(src, #[trigger] tokens[i]),
    decreases src.len() - from,
{
    lemma_trivia_in_bounds(src, from);
    let at = from + trivia_len(src, from);
    if at < src.len() {
        lemma_lexeme_in_bounds(src, at);
        lemma_lexeme_from_source(src, at);
        if let Lexeme::Token { kind, len } = lexeme_at(src, at) {
            lemma_tokens_from_source(src, at + len);
            if let Ok(rest) = tokens_from(src, at + len) {
                let tokens = tokens_from(src, from)->Ok_0;
                assert(tokens == seq![TokenView { kind, span: span_at(at, len as int) }] + rest);
                assert forall|i: int| 0 <= i < tokens.len() implies token_from_source(
                    src,
                    #[trigger] tokens[i],
                ) by {
                    if i > 0 {
                        assert(tokens[i] == rest[i - 1]);
                    }
                }
            }
        }
    }
}

/// `span`, moved `by` characters towards the end of the text.
pub open spec fn shift_span(span: Span, by: nat) -> Span {
    Span { start: (span.start + by) as usize, end: (span.end + by) as usize }
}

/// The failure `e`, with its span moved `by` characters towards the end.
pub open spec fn shift_error(e: LexError, by: nat) -> LexError {
    match e {
        LexError::UnterminatedString(span) => LexError::UnterminatedString(shift_span(span, by)),
        LexError::UnexpectedCharacter(c, span) => LexError::UnexpectedCharacter(
            c,
            shift_span(span, by),
        ),
        LexError::InvalidNumber(span) => LexError::InvalidNumber(shift_span(span, by)),
    }
}

/// What the scanner yields, with every span moved `by` characters towards
/// the end: kinds and texts stay as they are.
pub open spec fn shift_tokens(found: Result<Seq<TokenView>, LexError>, by: nat) -> Result<
    Seq<TokenView>,
    LexError,
> {
    match found {
        Ok(tokens) => Ok(
            tokens.map_values(
                |t: TokenView| TokenView { kind: t.kind, span: shift_span(t.span, by) },
            ),
        ),
        Err(e) => Err(shift_error(e, by)),
    }
}

/// A run is as long behind a prefix as without it.
pub proof fn lemma_run_shift(prefix: Seq<char>, src: Seq<char>, from: int, class: CharClass)
    requires
        0 <= from,
    ensures
        run_len(prefix + src, prefix.len() + from, class) == run_len(src, from, class),
    decreases src.len() - from,
{
    if from < src.len() {
        assert((prefix + src)[prefix.len() + from] == src[from]);
        if class.contains(src[from]) {
            lemma_run_shift(prefix, src, from + 1, class);
        }
    }
}

/// Blanks and comments are as long behind a prefix as without it.
pub proof fn lemma_trivia_shift(prefix: Seq<char>, src: Seq<char>, from: int)
    requires
        0 <= from,
    ensures
        trivia_len(prefix + src, prefix.len() + from) == trivia_len(src, from),
    decreases src.len() - from,
{
    let whole = prefix + src;
    let k = prefix.len() as int;
    if from < src.len() {
        assert(whole[k + from] == src[from]);
        if from + 1 < src.len() {
            assert(whole[k + from + 1] == src[from + 1]);
        }
        if is_whitespace(src[from]) {
            lemma_trivia_shift(prefix, src, from + 1);
        } else if comment_at(src, from) {
            lemma_run_shift(prefix, src, from + 2, CharClass::Line);
            let comment = 2 + run_len(src, from + 2, CharClass::Line);
            lemma_run_in_bounds(src, from + 2, CharClass::Line);
            lemma_trivia_shift(prefix, src, from + comment);
        }
    }
}

/// What stands at a place is the same behind a prefix as without it; only
/// the span of a failure moves.
pub proof fn lemma_lexeme_shift(prefix: Seq<char>, src: Seq<char>, at: int)
    requires
        0 <= at < src.len(),
        prefix.len() + src.len() <= usize::MAX,
    ensures
        lexeme_at(prefix + src, prefix.len() + at) == match lexeme_at(src, at) {
            Lexeme::Token { kind, len } => Lexeme::Token { kind, len },
            Lexeme::Error(e) => Lexeme::Error(shift_error(e, prefix.len())),
        },
{
    let whole = prefix + src;
    let k = prefix.len() as int;
    assert(whole[k + at] == src[at]);
    if at + 1 < src.len() {
        assert(whole[k + at + 1] == src[at + 1]);
    }
    lemma_run_shift(prefix, src, at + 1, CharClass::Digit);
    lemma_run_shift(prefix, src, at + 1, CharClass::Word);
    lemma_run_shift(prefix, src, at + 1, CharClass::Quoted);
    lemma_run_in_bounds(src, at + 1, CharClass::Digit);
    lemma_run_in_bounds(src, at + 1, CharClass::Word);
    lemma_run_in_bounds(src, at + 1, CharClass::Quoted);
    let c = src[at];
    if is_digit(c) {
        let whole_part = 1 + run_len(src, at + 1, CharClass::Digit);
        if at + whole_part < src.len() {
            assert(whole[k + at + whole_part] == src[at + whole_part]);
            lemma_run_shift(prefix, src, at + whole_part + 1, CharClass::Digit);
            lemma_run_in_bounds(src, at + whole_part + 1, CharClass::Digit);
            let fraction = run_len(src, at + whole_part + 1, CharClass::Digit);
            assert(whole.subrange(k + at, k + at + whole_part + 1 + fraction) =~= src.subrange(
                at,
                at + whole_part + 1 + fraction,
            ));
        }
        assert(whole.subrange(k + at, k + at + whole_part) =~= src.subrange(at, at + whole_part));
    } else if is_letter(c) {
        let len = 1 + run_len(src, at + 1, CharClass::Word);
        assert(whole.subrange(k + at, k + at + len) =~= src.subrange(at, at + len));
    } else if c == '"' {
        let body = run_len(src, at + 1, CharClass::Quoted);
        assert(whole.subrange(k + at + 1, k + at + 1 + body) =~= src.subrange(
            at + 1,
            at + 1 + body,
        ));
    }
}

/// The tokens of a text are the same wherever the text stands: behind a
/// prefix of `k` characters the scanner finds the same kinds and texts, or
/// the same failure, and every span is moved by `k`.
pub proof fn lemma_lex_is_stable_under_shift(prefix: Seq<char>, src: Seq<char>, from: int)
    requires
        0 <= from <= src.len(),
        prefix.len() + src.len() <= usize::MAX,
    ensures
        tokens_from(prefix + src, prefix.len() + from) == shift_tokens(
            tokens_from(src, from),
            prefix.len(),
        ),
    decreases src.len() - from,
{
    let whole = prefix + src;
    let k = prefix.len();
    lemma_trivia_shift(prefix, src, from);
    lemma_trivia_in_bounds(src, from);
    let at = from + trivia_len(src, from);
    if at < src.len() {
        lemma_lexeme_shift(prefix, src, at);
        lemma_lexeme_in_bounds(src, at);
        match lexeme_at(src, at) {
            Lexeme::Error(e) => {},
            Lexeme::Token { kind, len } => {
                lemma_lex_is_stable_under_shift(prefix, src, at + len);
                if let Ok(rest) = tokens_from(src, at + len) {
                    let first = TokenView { kind, span: span_at(at, len as int) };
                    let moved = TokenView { kind, span: span_at(k + at, len as int) };
                    let shift = |t: TokenView| TokenView { kind: t.kind, span: shift_span(t.span, k) };
                    assert(shift(first) == moved);
                    assert((seq![first] + rest).map_values(shift) =~= seq![moved] + rest.map_values(
                        shift,
                    ));
                }
            },
        }
    } else {
        assert(Seq::<TokenView>::empty().map_values(
            |t: TokenView| TokenView { kind: t.kind, span: shift_span(t.span, k) },
        ) =~= Seq::<TokenView>::empty());
    }
}

/// Whether a binary operator of level `level` or tighter stands at `pos`.
pub open spec fn binds_from(toks: Seq<TokenView>, pos: nat, level: nat) -> bool {
    match kind_at(toks, pos) {
        Some(kind) => match operator(kind) {
            Some((l, _)) => l >= level,
            None => false,
        },
        None => false,
    }
}

/// An operand stands alone: where no operator of level `level` or tighter
/// follows it, every level from `level` on yields the operand itself.
pub proof fn lemma_operand_alone(toks: Seq<TokenView>, pos: nat, level: nat)
    requires
        parse_unary(toks, pos).result is Ok,
        !binds_from(toks, pos + parse_unary(toks, pos).consumed, level),
    ensures
        parse_binary(toks, pos, level) == parse_unary(toks, pos),
    decreases binary_levels() - level,
{
    if level < binary_levels() {
        lemma_operand_alone(toks, pos, level + 1);
        let operand = parse_unary(toks, pos);
        assert(operator_at(toks, pos + operand.consumed, level) is None);
        assert(parse_binary_tail(toks, pos + operand.consumed, level, operand.result->Ok_0) == done(
            operand.result->Ok_0,
            0,
        ));
    }
}

/// One operator between two operands: where the operator has level `tight`
/// and no operator of level `level` or tighter follows the second operand,
/// every level from `level` up to `tight` yields the one node.
pub proof fn lemma_single_operator(toks: Seq<TokenView>, pos: nat, level: nat, tight: nat)
    requires
        level <= tight < binary_levels(),
        parse_unary(toks, pos).result is Ok,
        operator_at(toks, pos + parse_unary(toks, pos).consumed, tight) is Some,
        parse_unary(toks, pos + parse_unary(toks, pos).consumed + 1).result is Ok,
        !binds_from(
            toks,
            pos + parse_unary(toks, pos).consumed + 1 + parse_unary(
                toks,
                pos + parse_unary(toks, pos).consumed + 1,
            ).consumed,
            level,
        ),
    ensures
        ({
            let lhs = parse_unary(toks, pos);
            let at = pos + lhs.consumed;
            let rhs = parse_unary(toks, at + 1);
            parse_binary(toks, pos, level) == done(
                binary_node(
                    lhs.result->Ok_0,
                    operator_at(toks, at, tight)->Some_0,
                    rhs.result->Ok_0,
                ),
                lhs.consumed + 1 + rhs.consumed,
            )
        }),
    decreases tight - level,
{
    let lhs = parse_unary(toks, pos);
    let at = pos + lhs.consumed;
    let rhs = parse_unary(toks, at + 1);
    let end = at + 1 + rhs.consumed;
    let kind = operator_at(toks, at, tight)->Some_0;
    let node = binary_node(lhs.result->Ok_0, kind, rhs.result->Ok_0);
    if level == tight {
        lemma_operand_alone(toks, pos, level + 1);
        lemma_operand_alone(toks, at + 1, level + 1);
        assert(operator_at(toks, end, level) is None);
        assert(parse_binary_tail(toks, end, level, node) == done(node, 0));
        assert(parse_binary_tail(toks, at, level, lhs.result->Ok_0) == done(
            node,
            1 + rhs.consumed,
        ));
    } else {
        lemma_single_operator(toks, pos, level + 1, tight);
        assert(operator_at(toks, end, level) is None);
        assert(parse_binary_tail(toks, end, level, node) == done(node, 0));
    }
}

/// Operators of one level associate to the left: in `a - b - c`, where the
/// operands belong to the next level, the first operator is folded before
/// the second one is read, which gives `(a - b) - c`.
pub proof fn lemma_left_associative(toks: Seq<TokenView>, pos: nat, level: nat)
    requires
        level < binary_levels(),
        ({
            let a = parse_binary(toks, pos, level + 1);
            let first = pos + a.consumed;
            let b = parse_binary(toks, first + 1, level + 1);
            let second = first + 1 + b.consumed;
            let c = parse_binary(toks, second + 1, level + 1);
            &&& a.result is Ok
            &&& operator_at(toks, first, level) is Some
            &&& b.result is Ok
            &&& operator_at(toks, second, level) is Some
            &&& c.result is Ok
            &&& operator_at(toks, second + 1 + c.consumed, level) is None
        }),
    ensures
        ({
            let a = parse_binary(toks, pos, level + 1);
            let first = pos + a.consumed;
            let b = parse_binary(toks, first + 1, level + 1);
            let second = first + 1 + b.consumed;
            let c = parse_binary(toks, second + 1, level + 1);
            parse_binary(toks, pos, level) == done(
                binary_node(
                    binary_node(
                        a.result->Ok_0,
                        operator_at(toks, first, level)->Some_0,
                        b.result->Ok_0,
                    ),
                    operator_at(toks, second, level)->Some_0,
                    c.result->Ok_0,
                ),
                a.consumed + 1 + b.consumed + 1 + c.consumed,
            )
        }),
{
    let a = parse_binary(toks, pos, level + 1);
    let first = pos + a.consumed;
    let b = parse_binary(toks, first + 1, level + 1);
    let second = first + 1 + b.consumed;
    let c = parse_binary(toks, second + 1, level + 1);
    let end = second + 1 + c.consumed;
    let inner = binary_node(
        a.result->Ok_0,
        operator_at(toks, first, level)->Some_0,
        b.result->Ok_0,
    );
    let outer = binary_node(inner, operator_at(toks, second, level)->Some_0, c.result->Ok_0);
    assert(parse_binary_tail(toks, end, level, outer) == done(outer, 0));
    assert(parse_binary_tail(toks, second, level, inner) == done(outer, 1 + c.consumed));
    assert(parse_binary_tail(toks, first, level, a.result->Ok_0) == done(
        outer,
        1 + b.consumed + 1 + c.consumed,
    ));
}

/// The tighter operator binds first, wherever it stands. With three
/// operands `a`, `b`, `c`, an operator of level `loose` and one of a tighter
/// level `tight`, and nothing of level `loose` or tighter behind them:
/// `a loose b tight c` is `a loose (b tight c)`.
pub proof fn lemma_tighter_binds_first_on_the_right(
    toks: Seq<TokenView>,
    pos: nat,
    loose: nat,
    tight: nat,
)
    requires
        loose < tight < binary_levels(),
        ({
            let a = parse_unary(toks, pos);
            let first = pos + a.consumed;
            let b = parse_unary(toks, first + 1);
            let second = first + 1 + b.consumed;
            let c = parse_unary(toks, second + 1);
            &&& a.result is Ok
            &&& operator_at(toks, first, loose) is Some
            &&& b.result is Ok
            &&& operator_at(toks, second, tight) is Some
            &&& c.result is Ok
            &&& !binds_from(toks, second + 1 + c.consumed, loose)
        }),
    ensures
        ({
            let a = parse_unary(toks, pos);
            let first = pos + a.consumed;
            let b = parse_unary(toks, first + 1);
            let second = first + 1 + b.consumed;
            let c = parse_unary(toks, second + 1);
            parse_binary(toks, pos, loose) == done(
                binary_node(
                    a.result->Ok_0,
                    operator_at(toks, first, loose)->Some_0,
                    binary_node(
                        b.result->Ok_0,
                        operator_at(toks, second, tight)->Some_0,
                        c.result->Ok_0,
                    ),
                ),
                a.consumed + 1 + b.consumed + 1 + c.consumed,
            )
        }),
{
    let a = parse_unary(toks, pos);
    let first = pos + a.consumed;
    let b = parse_unary(toks, first + 1);
    let second = first + 1 + b.consumed;
    let c = parse_unary(toks, second + 1);
    let end = second + 1 + c.consumed;
    let inner = binary_node(
        b.result->Ok_0,
        operator_at(toks, second, tight)->Some_0,
        c.result->Ok_0,
    );
    let outer = binary_node(a.result->Ok_0, operator_at(toks, first, loose)->Some_0, inner);
    lemma_operand_alone(toks, pos, loose + 1);
    lemma_single_operator(toks, first + 1, loose + 1, tight);
    assert(operator_at(toks, end, loose) is None);
    assert(parse_binary_tail(toks, end, loose, outer) == done(outer, 0));
    assert(parse_binary_tail(toks, first, loose, a.result->Ok_0) == done(
        outer,
        1 + b.consumed + 1 + c.consumed,
    ));
}

/// The tighter operator binds first, wherever it stands: under the
/// conditions of [`lemma_tighter_binds_first_on_the_right`] with the two
/// operators exchanged, `a tight b loose c` is `(a tight b) loose c`.
pub proof fn lemma_tighter_binds_first_on_the_left(
    toks: Seq<TokenView>,
    pos: nat,
    loose: nat,
    tight: nat,
)
    requires
        loose < tight < binary_levels(),
        ({
            let a = parse_unary(toks, pos);
            let first = pos + a.consumed;
            let b = parse_unary(toks, first + 1);
            let second = first + 1 + b.consumed;
            let c = parse_unary(toks, second + 1);
            &&& a.result is Ok
            &&& operator_at(toks, first, tight) is Some
            &&& b.result is Ok
            &&& operator_at(toks, second, loose) is Some
            &&& c.result is Ok
            &&& !binds_from(toks, second + 1 + c.consumed, loose)
        }),
    ensures
        ({
            let a = parse_unary(toks, pos);
            let first = pos + a.consumed;
            let b = parse_unary(toks, first + 1);
            let second = first + 1 + b.consumed;
            let c = parse_unary(toks, second + 1);
            parse_binary(toks, pos, loose) == done(
                binary_node(
                    binary_node(
                        a.result->Ok_0,
                        operator_at(toks, first, tight)->Some_0,
                        b.result->Ok_0,
                    ),
                    operator_at(toks, second, loose)->Some_0,
                    c.result->Ok_0,
                ),
                a.consumed + 1 + b.consumed + 1 + c.consumed,
            )
        }),
{
    let a = parse_unary(toks, pos);
    let first = pos + a.consumed;
    let b = parse_unary(toks, first + 1);
    let second = first + 1 + b.consumed;
    let c = parse_unary(toks, second + 1);
    let end = second + 1 + c.consumed;
    let inner = binary_node(
        a.result->Ok_0,
        operator_at(toks, first, tight)->Some_0,
        b.result->Ok_0,
    );
    let outer = binary_node(inner, operator_at(toks, second, loose)->Some_0, c.result->Ok_0);
    lemma_single_operator(toks, pos, loose + 1, tight);
    lemma_operand_alone(toks, second + 1, loose + 1);
    assert(operator_at(toks, end, loose) is None);
    assert(parse_binary_tail(toks, end, loose, outer) == done(outer, 0));
    assert(parse_binary_tail(toks, second, loose, inner) == done(outer, 1 + c.consumed));
}

/// A prefix operator binds tighter than every binary operator: in `-a * b`
/// the prefix operator applies to `a` alone, whatever the level of the
/// binary operator, so the result is `(-a) * b`.
pub proof fn lemma_prefix_binds_tighter(toks: Seq<TokenView>, pos: nat, level: nat)
    requires
        level < binary_levels(),
        prefix_at(toks, pos) is Some,
        ({
            let a = parse_unary(toks, pos + 1);
            let at = pos + 1 + a.consumed;
            let b = parse_unary(toks, at + 1);
            &&& a.result is Ok
            &&& operator_at(toks, at, level) is Some
            &&& b.result is Ok
            &&& !binds_from(toks, at + 1 + b.consumed, 0)
        }),
    ensures
        ({
            let a = parse_unary(toks, pos + 1);
            let at = pos + 1 + a.consumed;
            let b = parse_unary(toks, at + 1);
            parse_binary(toks, pos, 0) == done(
                binary_node(
                    ExprView::UnaryOp(
                        Box::new(
                            UnaryOpView {
                                span: span_of(toks, pos).to(a.result->Ok_0.span()),
                                expr: a.result->Ok_0,
                                kind: prefix_at(toks, pos)->Some_0,
                            },
                        ),
                    ),
                    operator_at(toks, at, level)->Some_0,
                    b.result->Ok_0,
                ),
                1 + a.consumed + 1 + b.consumed,
            )
        }),
{
    lemma_single_operator(toks, pos, 0, level);
}

/// `break` is a failure outside every loop body, whatever follows it, and
/// inside a loop body `break;` is a statement.
pub proof fn lemma_break_needs_a_loop(
    toks: Seq<TokenView>,
    pos: nat,
    fn_depth: nat,
    loop_depth: nat,
)
    requires
        kind_at(toks, pos) == Some(TokenTypeView::Break),
    ensures
        loop_depth == 0 ==> parse_statement(toks, pos, fn_depth, loop_depth) == failed::<StmtView>(
            ParseErrorView::BreakOutsideLoop(span_of(toks, pos)),
            0,
        ),
        loop_depth > 0 && kind_at(toks, pos + 1) == Some(TokenTypeView::Semi) ==> parse_statement(
            toks,
            pos,
            fn_depth,
            loop_depth,
        ) == done(StmtView::Break(span_of(toks, pos).to(span_of(toks, pos + 1))), 2),
{
}

/// `return` is a failure outside every function body, whatever follows it.
pub proof fn lemma_return_needs_a_function(toks: Seq<TokenView>, pos: nat, loop_depth: nat)
    requires
        kind_at(toks, pos) == Some(TokenTypeView::Return),
    ensures
        parse_statement(toks, pos, 0, loop_depth) == failed::<StmtView>(
            ParseErrorView::ReturnOutsideFunction(span_of(toks, pos)),
            0,
        ),
{
}

/// A program that parses takes every token: none is left over.
pub proof fn lemma_program_takes_all(toks: Seq<TokenView>, pos: nat)
    requires
        pos <= toks.len(),
    ensures
        parse_program_items(toks, pos).result is Ok ==> pos + parse_program_items(
            toks,
            pos,
        ).consumed == toks.len(),
    decreases toks.len() - pos,
{
    if pos < toks.len() {
        let first = parse_statement(toks, pos, 0, 0);
        if first.result is Ok {
            lemma_statement_takes_a_token(toks, pos, 0, 0);
            lemma_statement_in_bounds(toks, pos, 0, 0);
            lemma_program_takes_all(toks, pos + first.consumed);
        }
    }
}


/// An expression ends inside the tokens, and so does a failed attempt at one.
pub proof fn lemma_expression_in_bounds(toks: Seq<TokenView>, pos: nat)
    requires
        pos <= toks.len(),
    ensures
        pos + parse_expression(toks, pos).consumed <= toks.len(),
    decreases tokens_left(toks, pos), 27nat,
{
    lemma_binary_in_bounds(toks, pos, 0);
}

/// What [`lemma_expression_in_bounds`] says, of every level of binary operators.
pub proof fn lemma_binary_in_bounds(toks: Seq<TokenView>, pos: nat, level: nat)
    requires
        pos <= toks.len(),
    ensures
        pos + parse_binary(toks, pos, level).consumed <= toks.len(),
    decreases tokens_left(toks, pos),
        (if level < 6 {
            26 - level
        } else {
            20
        }) as nat,
{
    if level >= binary_levels() {
        lemma_unary_in_bounds(toks, pos);
    } else {
        lemma_binary_in_bounds(toks, pos, level + 1);
        let first = parse_binary(toks, pos, level + 1);
        if let Ok(lhs) = first.result {
            lemma_binary_tail_in_bounds(toks, pos + first.consumed, level, lhs);
        }
    }
}

/// What [`lemma_expression_in_bounds`] says, of the operators behind an operand.
pub proof fn lemma_binary_tail_in_bounds(
    toks: Seq<TokenView>,
    pos: nat,
    level: nat,
    lhs: ExprView,
)
    requires
        pos <= toks.len(),
    ensures
        pos + parse_binary_tail(toks, pos, level, lhs).consumed <= toks.len(),
    decreases tokens_left(toks, pos), 0nat,
{
    if let Some(kind) = operator_at(toks, pos, level) {
        lemma_binary_in_bounds(toks, pos + 1, level + 1);
        let operand = parse_binary(toks, pos + 1, level + 1);
        if let Ok(rhs) = operand.result {
            lemma_binary_tail_in_bounds(
                toks,
                pos + 1 + operand.consumed,
                level,
                binary_node(lhs, kind, rhs),
            );
        }
    }
}

/// What [`lemma_expression_in_bounds`] says, of prefix operators.
pub proof fn lemma_unary_in_bounds(toks: Seq<TokenView>, pos: nat)
    requires
        pos <= toks.len(),
    ensures
        pos + parse_unary(toks, pos).consumed <= toks.len(),
    decreases tokens_left(toks, pos), 15nat,
{
    if prefix_at(toks, pos) is Some {
        lemma_unary_in_bounds(toks, pos + 1);
    } else {
        lemma_call_in_bounds(toks, pos);
    }
}

/// What [`lemma_expression_in_bounds`] says, of a chain of accesses and invocations.
pub proof fn lemma_call_in_bounds(toks: Seq<TokenView>, pos: nat)
    requires
        pos <= toks.len(),
    ensures
        pos + parse_call(toks, pos).consumed <= toks.len(),
    decreases tokens_left(toks, pos), 14nat,
{
    lemma_primary_in_bounds(toks, pos);
    let first = parse_primary(toks, pos);
    if let Ok(callee) = first.result {
        lemma_call_tail_in_bounds(toks, pos + first.consumed, callee);
    }
}

/// What [`lemma_expression_in_bounds`] says, of what follows a callee.
pub proof fn lemma_call_tail_in_bounds(toks: Seq<TokenView>, pos: nat, callee: ExprView)
    requires
        pos <= toks.len(),
    ensures
        pos + parse_call_tail(toks, pos, callee).consumed <= toks.len(),
    decreases tokens_left(toks, pos), 0nat,
{
    match kind_at(toks, pos) {
        Some(TokenTypeView::Dot) => {
            if let Some(name) = ident_at(toks, pos + 1) {
                lemma_call_tail_in_bounds(
                    toks,
                    pos + 2,
                    ExprView::Call(
                        Box::new(
                            CallView {
                                callee,
                                span: callee.span().to(name.span),
                                kind: CallKindView::Field(name),
                            },
                        ),
                    ),
                );
            }
        },
        Some(TokenTypeView::ParenO) => {
            lemma_items_in_bounds(toks, pos + 1, Closer::Paren);
            let args = parse_items(toks, pos + 1, Closer::Paren);
            if let Ok(list) = args.result {
                lemma_call_tail_in_bounds(
                    toks,
                    pos + 1 + args.consumed,
                    ExprView::Call(
                        Box::new(
                            CallView {
                                callee,
                                span: callee.span().to(span_of(toks, pos + args.consumed)),
                                kind: CallKindView::Fn(list),
                            },
                        ),
                    ),
                );
            }
        },
        _ => {},
    }
}

/// What [`lemma_expression_in_bounds`] says, of a primary expression.
pub proof fn lemma_primary_in_bounds(toks: Seq<TokenView>, pos: nat)
    requires
        pos <= toks.len(),
    ensures
        pos + parse_primary(toks, pos).consumed <= toks.len(),
    decreases tokens_left(toks, pos), 10nat,
{
    match kind_at(toks, pos) {
        Some(TokenTypeView::BracketO) => {
            lemma_items_in_bounds(toks, pos + 1, Closer::Bracket);
        },
        Some(TokenTypeView::ParenO) => {
            lemma_expression_in_bounds(toks, pos + 1);
        },
        _ => {},
    }
}

/// What [`lemma_expression_in_bounds`] says, of a list of expressions.
pub proof fn lemma_items_in_bounds(toks: Seq<TokenView>, pos: nat, closer: Closer)
    requires
        pos <= toks.len(),
    ensures
        pos + parse_items(toks, pos, closer).consumed <= toks.len(),
    decreases tokens_left(toks, pos), 30nat,
{
    if !closer.closes(kind_at(toks, pos)) {
        lemma_expression_in_bounds(toks, pos);
        let first = parse_expression(toks, pos);
        if first.result is Ok {
            let next = pos + first.consumed;
            if kind_at(toks, next) == Some(TokenTypeView::Comma) {
                lemma_items_in_bounds(toks, next + 1, closer);
            }
        }
    }
}

/// A list of parameters ends inside the tokens.
pub proof fn lemma_params_in_bounds(toks: Seq<TokenView>, pos: nat)
    requires
        pos <= toks.len(),
    ensures
        pos + parse_params(toks, pos).consumed <= toks.len(),
    decreases tokens_left(toks, pos),
{
    if kind_at(toks, pos) != Some(TokenTypeView::ParenC) && ident_at(toks, pos) is Some && kind_at(
        toks,
        pos + 1,
    ) == Some(TokenTypeView::Comma) {
        lemma_params_in_bounds(toks, pos + 2);
    }
}

/// A statement ends inside the tokens, and so does a failed attempt at one.
pub proof fn lemma_statement_in_bounds(
    toks: Seq<TokenView>,
    pos: nat,
    fn_depth: nat,
    loop_depth: nat,
)
    requires
        pos <= toks.len(),
    ensures
        pos + parse_statement(toks, pos, fn_depth, loop_depth).consumed <= toks.len(),
    decreases tokens_left(toks, pos), 50nat,
{
    match kind_at(toks, pos) {
        Some(TokenTypeView::Let) => {
            if pos + 3 <= toks.len() {
                lemma_expression_in_bounds(toks, pos + 3);
            }
        },
        Some(TokenTypeView::Fn) => {
            lemma_fn_decl_in_bounds(toks, pos, fn_depth, loop_depth);
        },
        Some(TokenTypeView::If) => {
            lemma_if_in_bounds(toks, pos, fn_depth, loop_depth);
        },
        Some(TokenTypeView::Loop) => {
            lemma_block_in_bounds(toks, pos + 1, fn_depth, loop_depth + 1);
        },
        Some(TokenTypeView::While) => {
            lemma_while_in_bounds(toks, pos, fn_depth, loop_depth);
        },
        Some(TokenTypeView::Break) => {},
        Some(TokenTypeView::Return) => {
            lemma_expression_in_bounds(toks, pos + 1);
        },
        Some(TokenTypeView::BraceO) => {
            lemma_block_in_bounds(toks, pos, fn_depth, loop_depth);
        },
        _ => {
            lemma_expression_in_bounds(toks, pos);
            let first = parse_expression(toks, pos);
            let next = pos + first.consumed;
            if first.result is Ok && kind_at(toks, next) == Some(TokenTypeView::Equal) {
                lemma_expression_in_bounds(toks, next + 1);
            }
        },
    }
}

/// What [`lemma_statement_in_bounds`] says, of a function declaration.
pub proof fn lemma_fn_decl_in_bounds(
    toks: Seq<TokenView>,
    pos: nat,
    fn_depth: nat,
    loop_depth: nat,
)
    requires
        pos <= toks.len(),
    ensures
        pos + parse_fn_decl(toks, pos, fn_depth, loop_depth).consumed <= toks.len(),
    decreases tokens_left(toks, pos), 45nat,
{
    if kind_at(toks, pos) == Some(TokenTypeView::Fn) && ident_at(toks, pos + 1) is Some && kind_at(
        toks,
        pos + 2,
    ) == Some(TokenTypeView::ParenO) {
        lemma_params_in_bounds(toks, pos + 3);
        let params = parse_params(toks, pos + 3);
        if params.result is Ok {
            lemma_block_in_bounds(toks, pos + 3 + params.consumed, fn_depth + 1, loop_depth);
        }
    }
}

/// What [`lemma_statement_in_bounds`] says, of an `if` statement.
pub proof fn lemma_if_in_bounds(toks: Seq<TokenView>, pos: nat, fn_depth: nat, loop_depth: nat)
    requires
        pos <= toks.len(),
    ensures
        pos + parse_if(toks, pos, fn_depth, loop_depth).consumed <= toks.len(),
    decreases tokens_left(toks, pos), 45nat,
{
    if kind_at(toks, pos) == Some(TokenTypeView::If) {
        lemma_expression_in_bounds(toks, pos + 1);
        let cond = parse_expression(toks, pos + 1);
        if cond.result is Ok {
            lemma_block_in_bounds(toks, pos + 1 + cond.consumed, fn_depth, loop_depth);
            let body = parse_block(toks, pos + 1 + cond.consumed, fn_depth, loop_depth);
            if body.result is Ok {
                let next = pos + 1 + cond.consumed + body.consumed;
                if kind_at(toks, next) == Some(TokenTypeView::Else) {
                    if kind_at(toks, next + 1) == Some(TokenTypeView::If) {
                        lemma_if_in_bounds(toks, next + 1, fn_depth, loop_depth);
                    } else {
                        lemma_block_in_bounds(toks, next + 1, fn_depth, loop_depth);
                    }
                }
            }
        }
    }
}

/// What [`lemma_statement_in_bounds`] says, of a `while` statement.
pub proof fn lemma_while_in_bounds(
    toks: Seq<TokenView>,
    pos: nat,
    fn_depth: nat,
    loop_depth: nat,
)
    requires
        pos <= toks.len(),
    ensures
        pos + parse_while(toks, pos, fn_depth, loop_depth).consumed <= toks.len(),
    decreases tokens_left(toks, pos), 45nat,
{
    if kind_at(toks, pos) == Some(TokenTypeView::While) {
        lemma_expression_in_bounds(toks, pos + 1);
        let cond = parse_expression(toks, pos + 1);
        if cond.result is Ok {
            lemma_block_in_bounds(toks, pos + 1 + cond.consumed, fn_depth, loop_depth + 1);
        }
    }
}

/// What [`lemma_statement_in_bounds`] says, of a block.
pub proof fn lemma_block_in_bounds(
    toks: Seq<TokenView>,
    pos: nat,
    fn_depth: nat,
    loop_depth: nat,
)
    requires
        pos <= toks.len(),
    ensures
        pos + parse_block(toks, pos, fn_depth, loop_depth).consumed <= toks.len(),
    decreases tokens_left(toks, pos), 40nat,
{
    if kind_at(toks, pos) == Some(TokenTypeView::BraceO) {
        lemma_block_items_in_bounds(toks, pos + 1, fn_depth, loop_depth);
    }
}

/// What [`lemma_statement_in_bounds`] says, of the statements of a block.
pub proof fn lemma_block_items_in_bounds(
    toks: Seq<TokenView>,
    pos: nat,
    fn_depth: nat,
    loop_depth: nat,
)
    requires
        pos <= toks.len(),
    ensures
        pos + parse_block_items(toks, pos, fn_depth, loop_depth).consumed <= toks.len(),
    decreases tokens_left(toks, pos), 60nat,
{
    if kind_at(toks, pos) != Some(TokenTypeView::BraceC) && pos < toks.len() {
        lemma_statement_in_bounds(toks, pos, fn_depth, loop_depth);
        lemma_statement_takes_a_token(toks, pos, fn_depth, loop_depth);
        let first = parse_statement(toks, pos, fn_depth, loop_depth);
        if first.result is Ok {
            lemma_block_items_in_bounds(toks, pos + first.consumed, fn_depth, loop_depth);
        }
    }
}

} // verus!
