//! Tokens and the scanner that makes them from source text.

use vstd::prelude::*;
use crate::errors::{LexError, Span};

verus! {

/// What a token is. Keywords, punctuation and operators are told apart when
/// the text is scanned; the last three kinds carry their text.
#[derive(Debug, PartialEq, Eq)]
pub enum TokenType {
    /// `let`
    Let,
    /// `fn`
    Fn,
    /// `if`
    If,
    /// `else`
    Else,
    /// `while`
    While,
    /// `loop`
    Loop,
    /// `break`
    Break,
    /// `return`
    Return,
    /// `true`
    True,
    /// `false`
    False,
    /// `null`
    Null,
    /// `{`
    BraceO,
    /// `}`
    BraceC,
    /// `(`
    ParenO,
    /// `)`
    ParenC,
    /// `[`
    BracketO,
    /// `]`
    BracketC,
    /// `;`
    Semi,
    /// `,`
    Comma,
    /// `.`
    Dot,
    /// `+`
    Plus,
    /// `-`
    Minus,
    /// `*`
    Asterisk,
    /// `/`
    Slash,
    /// `%`
    Percent,
    /// `=`
    Equal,
    /// `==`
    EqualEqual,
    /// `!`
    Not,
    /// `!=`
    BangEqual,
    /// `>`
    Greater,
    /// `>=`
    GreaterEqual,
    /// `<`
    Less,
    /// `<=`
    LessEqual,
    /// `&&`
    And,
    /// `||`
    Or,
    /// A name that is no keyword.
    Ident(String),
    /// A number, as the decimal text it was written with: digits, and
    /// optionally a point and more digits.
    Number(String),
    /// A string literal: the characters between the quotes.
    String(String),
}

/// The mathematical value of a [`TokenType`].
pub enum TokenTypeView {
    Let,
    Fn,
    If,
    Else,
    While,
    Loop,
    Break,
    Return,
    True,
    False,
    Null,
    BraceO,
    BraceC,
    ParenO,
    ParenC,
    BracketO,
    BracketC,
    Semi,
    Comma,
    Dot,
    Plus,
    Minus,
    Asterisk,
    Slash,
    Percent,
    Equal,
    EqualEqual,
    Not,
    BangEqual,
    Greater,
    GreaterEqual,
    Less,
    LessEqual,
    And,
    Or,
    Ident(Seq<char>),
    Number(Seq<char>),
    String(Seq<char>),
}

impl View for TokenType {
    type V = TokenTypeView;

    open spec fn view(&self) -> TokenTypeView {
        match self {
            TokenType::Let => TokenTypeView::Let,
            TokenType::Fn => TokenTypeView::Fn,
            TokenType::If => TokenTypeView::If,
            TokenType::Else => TokenTypeView::Else,
            TokenType::While => TokenTypeView::While,
            TokenType::Loop => TokenTypeView::Loop,
            TokenType::Break => TokenTypeView::Break,
            TokenType::Return => TokenTypeView::Return,
            TokenType::True => TokenTypeView::True,
            TokenType::False => TokenTypeView::False,
            TokenType::Null => TokenTypeView::Null,
            TokenType::BraceO => TokenTypeView::BraceO,
            TokenType::BraceC => TokenTypeView::BraceC,
            TokenType::ParenO => TokenTypeView::ParenO,
            TokenType::ParenC => TokenTypeView::ParenC,
            TokenType::BracketO => TokenTypeView::BracketO,
            TokenType::BracketC => TokenTypeView::BracketC,
            TokenType::Semi => TokenTypeView::Semi,
            TokenType::Comma => TokenTypeView::Comma,
            TokenType::Dot => TokenTypeView::Dot,
            TokenType::Plus => TokenTypeView::Plus,
            TokenType::Minus => TokenTypeView::Minus,
            TokenType::Asterisk => TokenTypeView::Asterisk,
            TokenType::Slash => TokenTypeView::Slash,
            TokenType::Percent => TokenTypeView::Percent,
            TokenType::Equal => TokenTypeView::Equal,
            TokenType::EqualEqual => TokenTypeView::EqualEqual,
            TokenType::Not => TokenTypeView::Not,
            TokenType::BangEqual => TokenTypeView::BangEqual,
            TokenType::Greater => TokenTypeView::Greater,
            TokenType::GreaterEqual => TokenTypeView::GreaterEqual,
            TokenType::Less => TokenTypeView::Less,
            TokenType::LessEqual => TokenTypeView::LessEqual,
            TokenType::And => TokenTypeView::And,
            TokenType::Or => TokenTypeView::Or,
            TokenType::Ident(text) => TokenTypeView::Ident(text@),
            TokenType::Number(text) => TokenTypeView::Number(text@),
            TokenType::String(text) => TokenTypeView::String(text@),
        }
    }
}

impl Clone for TokenType {
    fn clone(&self) -> (copy: Self)
        ensures
            copy == *self,
    {
        match self {
            TokenType::Let => TokenType::Let,
            TokenType::Fn => TokenType::Fn,
            TokenType::If => TokenType::If,
            TokenType::Else => TokenType::Else,
            TokenType::While => TokenType::While,
            TokenType::Loop => TokenType::Loop,
            TokenType::Break => TokenType::Break,
            TokenType::Return => TokenType::Return,
            TokenType::True => TokenType::True,
            TokenType::False => TokenType::False,
            TokenType::Null => TokenType::Null,
            TokenType::BraceO => TokenType::BraceO,
            TokenType::BraceC => TokenType::BraceC,
            TokenType::ParenO => TokenType::ParenO,
            TokenType::ParenC => TokenType::ParenC,
            TokenType::BracketO => TokenType::BracketO,
            TokenType::BracketC => TokenType::BracketC,
            TokenType::Semi => TokenType::Semi,
            TokenType::Comma => TokenType::Comma,
            TokenType::Dot => TokenType::Dot,
            TokenType::Plus => TokenType::Plus,
            TokenType::Minus => TokenType::Minus,
            TokenType::Asterisk => TokenType::Asterisk,
            TokenType::Slash => TokenType::Slash,
            TokenType::Percent => TokenType::Percent,
            TokenType::Equal => TokenType::Equal,
            TokenType::EqualEqual => TokenType::EqualEqual,
            TokenType::Not => TokenType::Not,
            TokenType::BangEqual => TokenType::BangEqual,
            TokenType::Greater => TokenType::Greater,
            TokenType::GreaterEqual => TokenType::GreaterEqual,
            TokenType::Less => TokenType::Less,
            TokenType::LessEqual => TokenType::LessEqual,
            TokenType::And => TokenType::And,
            TokenType::Or => TokenType::Or,
            TokenType::Ident(text) => TokenType::Ident(text.clone()),
            TokenType::Number(text) => TokenType::Number(text.clone()),
            TokenType::String(text) => TokenType::String(text.clone()),
        }
    }
}

/// Whether two texts are the same, character by character.
fn same_text(a: &String, b: &String) -> (same: bool)
    ensures
        same == (a@ == b@),
{
    *a == *b
}

impl TokenType {
    /// Whether `self` and `other` are the same kind of token, with the same
    /// text where they carry one.
    pub fn same(&self, other: &TokenType) -> (same: bool)
        ensures
            same == (self@ == other@),
    {
        match self {
            TokenType::Let => matches!(other, TokenType::Let),
            TokenType::Fn => matches!(other, TokenType::Fn),
            TokenType::If => matches!(other, TokenType::If),
            TokenType::Else => matches!(other, TokenType::Else),
            TokenType::While => matches!(other, TokenType::While),
            TokenType::Loop => matches!(other, TokenType::Loop),
            TokenType::Break => matches!(other, TokenType::Break),
            TokenType::Return => matches!(other, TokenType::Return),
            TokenType::True => matches!(other, TokenType::True),
            TokenType::False => matches!(other, TokenType::False),
            TokenType::Null => matches!(other, TokenType::Null),
            TokenType::BraceO => matches!(other, TokenType::BraceO),
            TokenType::BraceC => matches!(other, TokenType::BraceC),
            TokenType::ParenO => matches!(other, TokenType::ParenO),
            TokenType::ParenC => matches!(other, TokenType::ParenC),
            TokenType::BracketO => matches!(other, TokenType::BracketO),
            TokenType::BracketC => matches!(other, TokenType::BracketC),
            TokenType::Semi => matches!(other, TokenType::Semi),
            TokenType::Comma => matches!(other, TokenType::Comma),
            TokenType::Dot => matches!(other, TokenType::Dot),
            TokenType::Plus => matches!(other, TokenType::Plus),
            TokenType::Minus => matches!(other, TokenType::Minus),
            TokenType::Asterisk => matches!(other, TokenType::Asterisk),
            TokenType::Slash => matches!(other, TokenType::Slash),
            TokenType::Percent => matches!(other, TokenType::Percent),
            TokenType::Equal => matches!(other, TokenType::Equal),
            TokenType::EqualEqual => matches!(other, TokenType::EqualEqual),
            TokenType::Not => matches!(other, TokenType::Not),
            TokenType::BangEqual => matches!(other, TokenType::BangEqual),
            TokenType::Greater => matches!(other, TokenType::Greater),
            TokenType::GreaterEqual => matches!(other, TokenType::GreaterEqual),
            TokenType::Less => matches!(other, TokenType::Less),
            TokenType::LessEqual => matches!(other, TokenType::LessEqual),
            TokenType::And => matches!(other, TokenType::And),
            TokenType::Or => matches!(other, TokenType::Or),
            TokenType::Ident(text) => match other {
                TokenType::Ident(t) => same_text(text, t),
                _ => false,
            },
            TokenType::Number(text) => match other {
                TokenType::Number(t) => same_text(text, t),
                _ => false,
            },
            TokenType::String(text) => match other {
                TokenType::String(t) => same_text(text, t),
                _ => false,
            },
        }
    }
}

/// A classified piece of source text together with the place it came from.
#[derive(Debug, PartialEq, Eq)]
pub struct Token {
    pub kind: TokenType,
    pub span: Span,
}

/// The mathematical value of a [`Token`].
pub struct TokenView {
    pub kind: TokenTypeView,
    pub span: Span,
}

impl View for Token {
    type V = TokenView;

    open spec fn view(&self) -> TokenView {
        TokenView { kind: self.kind@, span: self.span }
    }
}

impl Clone for Token {
    fn clone(&self) -> (copy: Self)
        ensures
            copy == *self,
    {
        Token { kind: self.kind.clone(), span: self.span }
    }
}

impl Token {
    /// The token of kind `kind` at `span`.
    pub fn new(kind: TokenType, span: Span) -> (token: Token)
        ensures
            token == (Token { kind, span }),
    {
        Token { kind, span }
    }
}

/// A token of kind `kind` that comes from no source text: its span is the
/// dummy span.
pub fn token(kind: TokenType) -> (token: Token)
    ensures
        token == (Token { kind, span: Span::dummy() }),
{
    Token { kind, span: Span::dummy() }
}

/// The values of a sequence of tokens, one by one.
pub open spec fn token_views(tokens: Seq<Token>) -> Seq<TokenView> {
    tokens.map_values(|t: Token| t@)
}


/// The character classes that a run of the scanner is made of.
#[derive(Debug, Clone, Copy, PartialEq, Eq, Structural)]
pub enum CharClass {
    /// `0` to `9`.
    Digit,
    /// What a name goes on with: ASCII letters, `_` and digits.
    Word,
    /// Everything but a line feed: the body of a comment.
    Line,
    /// Everything but `"`: the body of a string literal.
    Quoted,
}

/// Blanks between tokens: space, tab, line feed, carriage return.
pub open spec fn is_whitespace(c: char) -> bool {
    c == ' ' || c == '\t' || c == '\n' || c == '\r'
}

/// `0` to `9`.
pub open spec fn is_digit(c: char) -> bool {
    '0' <= c && c <= '9'
}

/// What a name starts with: an ASCII letter or `_`.
pub open spec fn is_letter(c: char) -> bool {
    ('a' <= c && c <= 'z') || ('A' <= c && c <= 'Z') || c == '_'
}

impl CharClass {
    /// Whether `c` belongs to the class.
    pub open spec fn spec_contains(self, c: char) -> bool {
        match self {
            CharClass::Digit => is_digit(c),
            CharClass::Word => is_letter(c) || is_digit(c),
            CharClass::Line => c != '\n',
            CharClass::Quoted => c != '"',
        }
    }

    /// Whether `c` belongs to the class.
    #[verifier::when_used_as_spec(spec_contains)]
    pub fn contains(self, c: char) -> (member: bool)
        ensures
            member == self.spec_contains(c),
    {
        match self {
            CharClass::Digit => char_is_digit(c),
            CharClass::Word => char_is_letter(c) || char_is_digit(c),
            CharClass::Line => c != '\n',
            CharClass::Quoted => c != '"',
        }
    }
}

fn char_is_whitespace(c: char) -> (yes: bool)
    ensures
        yes == is_whitespace(c),
{
    c == ' ' || c == '\t' || c == '\n' || c == '\r'
}

fn char_is_digit(c: char) -> (yes: bool)
    ensures
        yes == is_digit(c),
{
    '0' <= c && c <= '9'
}

fn char_is_letter(c: char) -> (yes: bool)
    ensures
        yes == is_letter(c),
{
    ('a' <= c && c <= 'z') || ('A' <= c && c <= 'Z') || c == '_'
}

/// How many characters of `src` stand at `from` and behind it; 0 outside `src`.
pub open spec fn left(src: Seq<char>, from: int) -> nat {
    if 0 <= from < src.len() {
        (src.len() - from) as nat
    } else {
        0
    }
}

/// The length of the longest run of characters of `class` that starts at `from`.
pub open spec fn run_len(src: Seq<char>, from: int, class: CharClass) -> nat
    decreases left(src, from),
{
    if 0 <= from < src.len() && class.contains(src[from]) {
        1 + run_len(src, from + 1, class)
    } else {
        0
    }
}

/// Whether a comment starts at `at`: two slashes. It runs to the end of the line.
pub open spec fn comment_at(src: Seq<char>, at: int) -> bool {
    0 <= at && at + 1 < src.len() && src[at] == '/' && src[at + 1] == '/'
}

/// The length of what separates tokens at `from`: blanks and comments, as
/// many as follow one another.
pub open spec fn trivia_len(src: Seq<char>, from: int) -> nat
    decreases left(src, from),
{
    if 0 <= from < src.len() && is_whitespace(src[from]) {
        1 + trivia_len(src, from + 1)
    } else if comment_at(src, from) {
        let comment = 2 + run_len(src, from + 2, CharClass::Line);
        comment + trivia_len(src, from + comment)
    } else {
        0
    }
}

/// The keyword that is spelled `text`, if there is one.
pub open spec fn keyword(text: Seq<char>) -> Option<TokenTypeView> {
    if text == "let"@ {
        Some(TokenTypeView::Let)
    } else if text == "fn"@ {
        Some(TokenTypeView::Fn)
    } else if text == "if"@ {
        Some(TokenTypeView::If)
    } else if text == "else"@ {
        Some(TokenTypeView::Else)
    } else if text == "while"@ {
        Some(TokenTypeView::While)
    } else if text == "loop"@ {
        Some(TokenTypeView::Loop)
    } else if text == "break"@ {
        Some(TokenTypeView::Break)
    } else if text == "return"@ {
        Some(TokenTypeView::Return)
    } else if text == "true"@ {
        Some(TokenTypeView::True)
    } else if text == "false"@ {
        Some(TokenTypeView::False)
    } else if text == "null"@ {
        Some(TokenTypeView::Null)
    } else {
        None
    }
}

/// What a word is: the keyword of that spelling, else a name.
pub open spec fn word_kind(text: Seq<char>) -> TokenTypeView {
    match keyword(text) {
        Some(kind) => kind,
        None => TokenTypeView::Ident(text),
    }
}

/// The operator or punctuation that starts with `first`, and its length.
/// `second` is the character behind `first`, if any: the longer spelling
/// wins, so `==` is one token and not two. `&` and `|` only exist doubled.
pub open spec fn symbol(first: char, second: Option<char>) -> Option<(TokenTypeView, nat)> {
    let followed_by_equal = second == Some('=');
    if first == '{' {
        Some((TokenTypeView::BraceO, 1))
    } else if first == '}' {
        Some((TokenTypeView::BraceC, 1))
    } else if first == '(' {
        Some((TokenTypeView::ParenO, 1))
    } else if first == ')' {
        Some((TokenTypeView::ParenC, 1))
    } else if first == '[' {
        Some((TokenTypeView::BracketO, 1))
    } else if first == ']' {
        Some((TokenTypeView::BracketC, 1))
    } else if first == ';' {
        Some((TokenTypeView::Semi, 1))
    } else if first == ',' {
        Some((TokenTypeView::Comma, 1))
    } else if first == '.' {
        Some((TokenTypeView::Dot, 1))
    } else if first == '+' {
        Some((TokenTypeView::Plus, 1))
    } else if first == '-' {
        Some((TokenTypeView::Minus, 1))
    } else if first == '*' {
        Some((TokenTypeView::Asterisk, 1))
    } else if first == '/' {
        Some((TokenTypeView::Slash, 1))
    } else if first == '%' {
        Some((TokenTypeView::Percent, 1))
    } else if first == '=' {
        if followed_by_equal {
            Some((TokenTypeView::EqualEqual, 2))
        } else {
            Some((TokenTypeView::Equal, 1))
        }
    } else if first == '!' {
        if followed_by_equal {
            Some((TokenTypeView::BangEqual, 2))
        } else {
            Some((TokenTypeView::Not, 1))
        }
    } else if first == '>' {
        if followed_by_equal {
            Some((TokenTypeView::GreaterEqual, 2))
        } else {
            Some((TokenTypeView::Greater, 1))
        }
    } else if first == '<' {
        if followed_by_equal {
            Some((TokenTypeView::LessEqual, 2))
        } else {
            Some((TokenTypeView::Less, 1))
        }
    } else if first == '&' && second == Some('&') {
        Some((TokenTypeView::And, 2))
    } else if first == '|' && second == Some('|') {
        Some((TokenTypeView::Or, 2))
    } else {
        None
    }
}

/// The span of `len` characters at `at`.
pub open spec fn span_at(at: int, len: int) -> Span {
    Span { start: at as usize, end: (at + len) as usize }
}

/// What the scanner finds at one place: a token kind and the number of
/// characters it takes, or a failure.
pub enum Lexeme {
    Token { kind: TokenTypeView, len: nat },
    Error(LexError),
}

/// What stands at `at`, a place inside `src` where no blank and no comment starts.
///
/// - A digit starts a number: digits, then optionally a point and at least
///   one more digit. A point with no digit behind it makes the number
///   invalid. A second point is not part of the number.
/// - A letter or `_` starts a word, which is a keyword or a name.
/// - `"` starts a string literal, which runs to the next `"`; there are no
///   escape sequences.
/// - Anything else is an operator, punctuation, or unexpected.
pub open spec fn lexeme_at(src: Seq<char>, at: int) -> Lexeme
    recommends
        0 <= at < src.len(),
{
    let c = src[at];
    if is_digit(c) {
        let whole = 1 + run_len(src, at + 1, CharClass::Digit);
        if at + whole < src.len() && src[at + whole] == '.' {
            let fraction = run_len(src, at + whole + 1, CharClass::Digit);
            if fraction == 0 {
                Lexeme::Error(LexError::InvalidNumber(span_at(at, (whole + 1) as int)))
            } else {
                Lexeme::Token {
                    kind: TokenTypeView::Number(src.subrange(at, at + whole + 1 + fraction)),
                    len: whole + 1 + fraction,
                }
            }
        } else {
            Lexeme::Token { kind: TokenTypeView::Number(src.subrange(at, at + whole)), len: whole }
        }
    } else if is_letter(c) {
        let len = 1 + run_len(src, at + 1, CharClass::Word);
        Lexeme::Token { kind: word_kind(src.subrange(at, at + len)), len }
    } else if c == '"' {
        let body = run_len(src, at + 1, CharClass::Quoted);
        if at + 1 + body < src.len() {
            Lexeme::Token {
                kind: TokenTypeView::String(src.subrange(at + 1, at + 1 + body)),
                len: body + 2,
            }
        } else {
            Lexeme::Error(LexError::UnterminatedString(span_at(at, src.len() - at)))
        }
    } else {
        match symbol(c, if at + 1 < src.len() { Some(src[at + 1]) } else { None }) {
            Some((kind, len)) => Lexeme::Token { kind, len },
            None => Lexeme::Error(LexError::UnexpectedCharacter(c, span_at(at, 1))),
        }
    }
}

/// The tokens of `src` from `from` on, or the first failure.
pub open spec fn tokens_from(src: Seq<char>, from: int) -> Result<Seq<TokenView>, LexError>
    decreases left(src, from),
{
    let at = from + trivia_len(src, from);
    if 0 <= from && at < src.len() {
        match lexeme_at(src, at) {
            Lexeme::Error(e) => Err(e),
            Lexeme::Token { kind, len } => match tokens_from(src, at + len) {
                Err(e) => Err(e),
                Ok(rest) => Ok(seq![TokenView { kind, span: span_at(at, len as int) }] + rest),
            },
        }
    } else {
        Ok(Seq::empty())
    }
}

/// The tokens of the source text `src`, or the first failure.
pub open spec fn spec_lex(src: Seq<char>) -> Result<Seq<TokenView>, LexError> {
    tokens_from(src, 0)
}

/// `String::push` of the standard library appends one character to the end
/// of the string and leaves the rest as it was.
pub assume_specification[ std::string::String::push ](text: &mut std::string::String, c: char)
    ensures
        final(text)@ == old(text)@.push(c),
;

/// The characters of `source`, one by one.
fn chars_of(source: &str) -> (chars: Vec<char>)
    ensures
        chars@ == source@,
{
    let mut chars: Vec<char> = Vec::new();
    for c in iter: source.chars()
        invariant
            iter.seq() == source@,
            chars@ == iter.seq().take(iter.index()),
    {
        chars.push(c);
    }
    chars
}

/// The characters of `chars` from `from` up to `to`, as a string.
fn text_of(chars: &Vec<char>, from: usize, to: usize) -> (text: String)
    requires
        from <= to <= chars.len(),
    ensures
        text@ == chars@.subrange(from as int, to as int),
{
    let mut text = String::new();
    let mut i: usize = from;
    while i < to
        invariant
            from <= i <= to <= chars.len(),
            text@ == chars@.subrange(from as int, i as int),
        decreases to - i,
    {
        text.push(chars[i]);
        i += 1;
    }
    text
}

/// Whether the characters of `chars` from `from` up to `to` spell `word`.
fn is_word(chars: &Vec<char>, from: usize, to: usize, word: &str) -> (same: bool)
    requires
        from <= to <= chars.len(),
    ensures
        same == (chars@.subrange(from as int, to as int) == word@),
{
    let len = word.unicode_len();
    if to - from != len {
        return false;
    }
    let mut i: usize = 0;
    while i < len
        invariant
            from <= to <= chars.len(),
            to - from == len,
            len == word@.len(),
            i <= len,
            chars@.subrange(from as int, from + i) == word@.take(i as int),
        decreases len - i,
    {
        if chars[from + i] != word.get_char(i) {
            assert(chars@.subrange(from as int, to as int)[i as int] != word@[i as int]);
            return false;
        }
        i += 1;
        assert(chars@.subrange(from as int, from + i) =~= word@.take(i as int)) by {
            assert(chars@.subrange(from as int, from + i - 1) == word@.take(i - 1));
            assert forall|k: int| 0 <= k < i implies chars@.subrange(from as int, from + i)[k]
                == word@.take(i as int)[k] by {
                if k < i - 1 {
                    assert(chars@.subrange(from as int, from + i - 1)[k] == word@.take(i - 1)[k]);
                }
            }
        }
    }
    assert(word@.take(len as int) =~= word@);
    true
}

/// The length of the longest run of characters of `class` at `from`.
fn scan_run(chars: &Vec<char>, from: usize, class: CharClass) -> (len: usize)
    requires
        from <= chars.len(),
    ensures
        len == run_len(chars@, from as int, class),
        from + len <= chars.len(),
{
    let mut i: usize = from;
    while i < chars.len() && class.contains(chars[i])
        invariant
            from <= i <= chars.len(),
            run_len(chars@, from as int, class) == (i - from) + run_len(chars@, i as int, class),
        decreases chars.len() - i,
    {
        i += 1;
    }
    i - from
}

/// The first place at or behind `from` where no blank and no comment starts.
fn skip_trivia(chars: &Vec<char>, from: usize) -> (at: usize)
    requires
        from <= chars.len(),
    ensures
        at == from + trivia_len(chars@, from as int),
        at <= chars.len(),
{
    let mut i: usize = from;
    loop
        invariant
            from <= i <= chars.len(),
            trivia_len(chars@, from as int) == (i - from) + trivia_len(chars@, i as int),
        ensures
            from <= i <= chars.len(),
            trivia_len(chars@, from as int) == i - from,
        decreases chars.len() - i,
    {
        if i < chars.len() && char_is_whitespace(chars[i]) {
            i += 1;
        } else if i < chars.len() && i + 1 < chars.len() && chars[i] == '/' && chars[i + 1] == '/' {
            let body = scan_run(chars, i + 2, CharClass::Line);
            i = i + 2 + body;
        } else {
            break;
        }
    }
    i
}

/// The keyword or name that the characters from `from` up to `to` spell.
fn word_token(chars: &Vec<char>, from: usize, to: usize) -> (kind: TokenType)
    requires
        from <= to <= chars.len(),
    ensures
        kind@ == word_kind(chars@.subrange(from as int, to as int)),
{
    if is_word(chars, from, to, "let") {
        TokenType::Let
    } else if is_word(chars, from, to, "fn") {
        TokenType::Fn
    } else if is_word(chars, from, to, "if") {
        TokenType::If
    } else if is_word(chars, from, to, "else") {
        TokenType::Else
    } else if is_word(chars, from, to, "while") {
        TokenType::While
    } else if is_word(chars, from, to, "loop") {
        TokenType::Loop
    } else if is_word(chars, from, to, "break") {
        TokenType::Break
    } else if is_word(chars, from, to, "return") {
        TokenType::Return
    } else if is_word(chars, from, to, "true") {
        TokenType::True
    } else if is_word(chars, from, to, "false") {
        TokenType::False
    } else if is_word(chars, from, to, "null") {
        TokenType::Null
    } else {
        TokenType::Ident(text_of(chars, from, to))
    }
}

/// The operator or punctuation that starts with `first`, and its length.
fn symbol_token(first: char, second: Option<char>) -> (found: Option<(TokenType, usize)>)
    ensures
        match found {
            Some((kind, len)) => symbol(first, second) == Some((kind@, len as nat)),
            None => symbol(first, second) is None,
        },
{
    let followed_by_equal = match second {
        Some(c) => c == '=',
        None => false,
    };
    let doubled = match second {
        Some(c) => c == first,
        None => false,
    };
    if first == '{' {
        Some((TokenType::BraceO, 1usize))
    } else if first == '}' {
        Some((TokenType::BraceC, 1usize))
    } else if first == '(' {
        Some((TokenType::ParenO, 1usize))
    } else if first == ')' {
        Some((TokenType::ParenC, 1usize))
    } else if first == '[' {
        Some((TokenType::BracketO, 1usize))
    } else if first == ']' {
        Some((TokenType::BracketC, 1usize))
    } else if first == ';' {
        Some((TokenType::Semi, 1usize))
    } else if first == ',' {
        Some((TokenType::Comma, 1usize))
    } else if first == '.' {
        Some((TokenType::Dot, 1usize))
    } else if first == '+' {
        Some((TokenType::Plus, 1usize))
    } else if first == '-' {
        Some((TokenType::Minus, 1usize))
    } else if first == '*' {
        Some((TokenType::Asterisk, 1usize))
    } else if first == '/' {
        Some((TokenType::Slash, 1usize))
    } else if first == '%' {
        Some((TokenType::Percent, 1usize))
    } else if first == '=' {
        if followed_by_equal {
            Some((TokenType::EqualEqual, 2usize))
        } else {
            Some((TokenType::Equal, 1usize))
        }
    } else if first == '!' {
        if followed_by_equal {
            Some((TokenType::BangEqual, 2usize))
        } else {
            Some((TokenType::Not, 1usize))
        }
    } else if first == '>' {
        if followed_by_equal {
            Some((TokenType::GreaterEqual, 2usize))
        } else {
            Some((TokenType::Greater, 1usize))
        }
    } else if first == '<' {
        if followed_by_equal {
            Some((TokenType::LessEqual, 2usize))
        } else {
            Some((TokenType::Less, 1usize))
        }
    } else if first == '&' && doubled {
        Some((TokenType::And, 2usize))
    } else if first == '|' && doubled {
        Some((TokenType::Or, 2usize))
    } else {
        None
    }
}

/// A scanner over one source text. It hands out the tokens one at a time and
/// is used up once it has reached the end or failed.
pub struct Lexer {
    chars: Vec<char>,
    pos: usize,
}

impl Lexer {
    /// The text that is scanned.
    pub closed spec fn source(&self) -> Seq<char> {
        self.chars@
    }

    /// How many characters are behind the scanner.
    pub closed spec fn position(&self) -> nat {
        self.pos as nat
    }

    /// The scanner stands inside its text or at its end.
    pub closed spec fn wf(&self) -> bool {
        self.pos <= self.chars.len()
    }

    /// A scanner at the start of `source`.
    pub fn new(source: &str) -> (lexer: Lexer)
        ensures
            lexer.wf(),
            lexer.source() == source@,
            lexer.position() == 0,
    {
        Lexer { chars: chars_of(source), pos: 0 }
    }

    /// The next token. Blanks and comments in front of it are passed over.
    /// `None` at the end of the text. After a failure the scanner stands at
    /// the end of the text and gives `None` from then on.
    pub fn next_token(&mut self) -> (next: Option<Result<Token, LexError>>)
        requires
            old(self).wf(),
        ensures
            final(self).wf(),
            final(self).source() == old(self).source(),
            ({
                let src = old(self).source();
                let at = old(self).position() + trivia_len(src, old(self).position() as int);
                if at < src.len() {
                    match lexeme_at(src, at as int) {
                        Lexeme::Token { kind, len } => {
                            &&& next matches Some(Ok(token))
                            &&& token@ == (TokenView { kind, span: span_at(at as int, len as int) })
                            &&& final(self).position() == at + len
                        },
                        Lexeme::Error(e) => {
                            &&& next == Some::<Result<Token, LexError>>(Err(e))
                            &&& final(self).position() == src.len()
                        },
                    }
                } else {
                    &&& next is None
                    &&& final(self).position() == src.len()
                }
            }),
    {
        let len = self.chars.len();
        let at = skip_trivia(&self.chars, self.pos);
        if at >= len {
            self.pos = len;
            return None;
        }
        let c = self.chars[at];
        let ghost src = self.chars@;
        if char_is_digit(c) {
            let whole = 1 + scan_run(&self.chars, at + 1, CharClass::Digit);
            if at + whole < len && self.chars[at + whole] == '.' {
                let fraction = scan_run(&self.chars, at + whole + 1, CharClass::Digit);
                if fraction == 0 {
                    self.pos = len;
                    return Some(Err(LexError::InvalidNumber(Span::new(at, at + whole + 1))));
                }
                let end = at + whole + 1 + fraction;
                let kind = TokenType::Number(text_of(&self.chars, at, end));
                self.pos = end;
                return Some(Ok(Token::new(kind, Span::new(at, end))));
            }
            let end = at + whole;
            let kind = TokenType::Number(text_of(&self.chars, at, end));
            self.pos = end;
            return Some(Ok(Token::new(kind, Span::new(at, end))));
        }
        if char_is_letter(c) {
            let end = at + 1 + scan_run(&self.chars, at + 1, CharClass::Word);
            let kind = word_token(&self.chars, at, end);
            self.pos = end;
            return Some(Ok(Token::new(kind, Span::new(at, end))));
        }
        if c == '"' {
            let body = scan_run(&self.chars, at + 1, CharClass::Quoted);
            if at + 1 + body < len {
                let end = at + body + 2;
                let kind = TokenType::String(text_of(&self.chars, at + 1, at + 1 + body));
                self.pos = end;
                return Some(Ok(Token::new(kind, Span::new(at, end))));
            }
            self.pos = len;
            return Some(Err(LexError::UnterminatedString(Span::new(at, len))));
        }
        let second = if at + 1 < len {
            Some(self.chars[at + 1])
        } else {
            None
        };
        match symbol_token(c, second) {
            Some((kind, width)) => {
                let end = at + width;
                self.pos = end;
                Some(Ok(Token::new(kind, Span::new(at, end))))
            },
            None => {
                self.pos = len;
                Some(Err(LexError::UnexpectedCharacter(c, Span::new(at, at + 1))))
            },
        }
    }
}

/// `done` in front of what `rest` holds, or the failure of `rest`.
spec fn tokens_then(done: Seq<TokenView>, rest: Result<Seq<TokenView>, LexError>) -> Result<
    Seq<TokenView>,
    LexError,
> {
    match rest {
        Ok(tokens) => Ok(done + tokens),
        Err(e) => Err(e),
    }
}

/// Scans `source` from start to end: all its tokens in order, or the first failure.
pub fn lex(source: &str) -> (res: Result<Vec<Token>, LexError>)
    ensures
        match res {
            Ok(tokens) => spec_lex(source@) == Ok::<Seq<TokenView>, LexError>(token_views(tokens@)),
            Err(e) => spec_lex(source@) == Err::<Seq<TokenView>, LexError>(e),
        },
{
    let mut lexer = Lexer::new(source);
    let mut tokens: Vec<Token> = Vec::new();
    assert(token_views(tokens@) =~= Seq::<TokenView>::empty());
    assert(tokens_then(Seq::empty(), tokens_from(source@, 0)) == tokens_from(source@, 0)) by {
        match tokens_from(source@, 0) {
            Ok(all) => assert(Seq::<TokenView>::empty() + all =~= all),
            Err(_) => {},
        }
    }
    loop
        invariant
            lexer.wf(),
            lexer.source() == source@,
            spec_lex(source@) == tokens_then(
                token_views(tokens@),
                tokens_from(source@, lexer.position() as int),
            ),
        decreases source@.len() - lexer.position(),
    {
        let ghost before = lexer.position() as int;
        let ghost done = token_views(tokens@);
        match lexer.next_token() {
            None => {
                assert(done + Seq::<TokenView>::empty() =~= done);
                return Ok(tokens);
            },
            Some(Err(e)) => {
                return Err(e);
            },
            Some(Ok(token)) => {
                let ghost first = token@;
                tokens.push(token);
                proof {
                    let rest = tokens_from(source@, lexer.position() as int);
                    assert(token_views(tokens@) =~= done.push(first));
                    match rest {
                        Ok(more) => assert(done + (seq![first] + more) =~= done.push(first) + more),
                        Err(_) => {},
                    }
                }
            },
        }
    }
}

} // verus!
