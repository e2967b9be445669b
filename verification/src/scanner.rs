use crate::error::{diagnostics_view, DiagnosticModel, SimpleErrorHandler};
use crate::num::{num_parse, number_of_lexeme, number_shape, spec_is_digit};
use crate::token::{tokens_view, Literal, LiteralModel, Token, TokenModel, TokenType};
use vstd::prelude::*;
use vstd::string::StringExecFns;

verus! {

/// Whether `c` has the Unicode `Alphabetic` property.
pub uninterp spec fn alphabetic(c: char) -> bool;

/// Relies on `char::is_alphabetic` (the Unicode `Alphabetic` property, a
/// pure function of the character; on ASCII it holds exactly of the
/// letters).
#[verifier::external_body]
pub(crate) fn char_is_alphabetic(c: char) -> (r: bool)
    ensures
        r == alphabetic(c),
{
    c.is_alphabetic()
}

/// Relies on `str::chars`: the characters of a string, in order, are its
/// view.
#[verifier::external_body]
pub(crate) fn chars_vec(s: &str) -> (v: Vec<char>)
    ensures
        v@ == s@,
{
    s.chars().collect()
}

/// Relies on `String::from_iter` over characters: the built string's
/// characters are exactly those given.
#[verifier::external_body]
pub(crate) fn string_from_chars(v: &Vec<char>) -> (s: String)
    ensures
        s@ == v@,
{
    v.iter().collect()
}

/// Whether `c` can start an identifier: alphabetic or `_`.
pub open spec fn is_identifier_start(c: char) -> bool {
    alphabetic(c) || c == '_'
}

/// Whether `c` can continue an identifier: alphanumeric or `_`.
pub open spec fn is_identifier_part(c: char) -> bool {
    alphabetic(c) || spec_is_digit(c) || c == '_'
}

/// The first position at or after `i` whose character is not a digit.
pub open spec fn digits_end(src: Seq<char>, i: int) -> int
    decreases src.len() - i,
{
    if i < 0 {
        0
    } else if i >= src.len() {
        src.len() as int
    } else if spec_is_digit(src[i]) {
        digits_end(src, i + 1)
    } else {
        i
    }
}

/// The first position at or after `i` whose character cannot continue an
/// identifier.
pub open spec fn ident_end(src: Seq<char>, i: int) -> int
    decreases src.len() - i,
{
    if i < 0 {
        0
    } else if i >= src.len() {
        src.len() as int
    } else if is_identifier_part(src[i]) {
        ident_end(src, i + 1)
    } else {
        i
    }
}

/// The first position at or after `i` holding a double quote, or the end.
pub open spec fn find_quote(src: Seq<char>, i: int) -> int
    decreases src.len() - i,
{
    if i < 0 {
        0
    } else if i >= src.len() {
        src.len() as int
    } else if src[i] == '"' {
        i
    } else {
        find_quote(src, i + 1)
    }
}

/// The first position at or after `i` holding a newline, or the end.
pub open spec fn find_newline(src: Seq<char>, i: int) -> int
    decreases src.len() - i,
{
    if i < 0 {
        0
    } else if i >= src.len() {
        src.len() as int
    } else if src[i] == '\n' {
        i
    } else {
        find_newline(src, i + 1)
    }
}

/// How many newlines `src` holds in positions `[i, j)`.
pub open spec fn count_newlines(src: Seq<char>, i: int, j: int) -> int
    decreases j - i,
{
    if j <= i {
        0
    } else {
        count_newlines(src, i, j - 1) + if 0 <= j - 1 < src.len() && src[j - 1] == '\n' {
            1int
        } else {
            0int
        }
    }
}

/// The keyword a piece of identifier-shaped text spells, if any.
pub open spec fn spec_keyword(text: Seq<char>) -> Option<TokenType> {
    if text == "and"@ {
        Option::Some(TokenType::And)
    } else if text == "class"@ {
        Option::Some(TokenType::Class)
    } else if text == "else"@ {
        Option::Some(TokenType::Else)
    } else if text == "false"@ {
        Option::Some(TokenType::False)
    } else if text == "for"@ {
        Option::Some(TokenType::For)
    } else if text == "fun"@ {
        Option::Some(TokenType::Fun)
    } else if text == "if"@ {
        Option::Some(TokenType::If)
    } else if text == "nil"@ {
        Option::Some(TokenType::Nil)
    } else if text == "or"@ {
        Option::Some(TokenType::Or)
    } else if text == "print"@ {
        Option::Some(TokenType::Print)
    } else if text == "return"@ {
        Option::Some(TokenType::Return)
    } else if text == "super"@ {
        Option::Some(TokenType::Super)
    } else if text == "this"@ {
        Option::Some(TokenType::This)
    } else if text == "true"@ {
        Option::Some(TokenType::True)
    } else if text == "var"@ {
        Option::Some(TokenType::Var)
    } else if text == "while"@ {
        Option::Some(TokenType::While)
    } else {
        Option::None
    }
}

/// What scanning one lexeme from position `pos` at line `line` yields: at
/// most one token, at most one lexical error, and the next position and
/// line.
pub struct ScanStep {
    pub token: Option<TokenModel>,
    pub error: Option<(u32, Seq<char>)>,
    pub pos: int,
    pub line: u32,
}

/// A token of `kind` without a literal, spanning `[from, to)`.
pub open spec fn simple_token(
    src: Seq<char>,
    kind: TokenType,
    from: int,
    to: int,
    line: u32,
) -> TokenModel {
    TokenModel {
        token_type: kind,
        lexeme: src.subrange(from, to),
        literal: Option::None,
        line,
    }
}

/// A step producing the single token `t` and consuming up to `pos`.
pub open spec fn token_step(t: TokenModel, pos: int, line: u32) -> ScanStep {
    ScanStep { token: Option::Some(t), error: Option::None, pos, line }
}

/// A step producing nothing and consuming up to `pos`.
pub open spec fn silent_step(pos: int, line: u32) -> ScanStep {
    ScanStep { token: Option::None, error: Option::None, pos, line }
}

/// One step of the scanner: how the lexeme starting at `pos` is read.
/// Single characters map directly; `!` `=` `<` `>` pair with a following
/// `=`; `//` discards the rest of the line; whitespace is dropped and a
/// newline counts the line up; `"` opens a string literal, whose token
/// carries the line the literal opened on even when it spans lines, and an
/// unterminated one is an error; a digit opens a number (`.` continues it only with a
/// digit after it); an alphabetic or `_` opens an identifier, checked
/// against the keyword table; anything else is an "Unexpected character"
/// error.
pub open spec fn scan_step(src: Seq<char>, pos: int, line: u32) -> ScanStep {
    let c = src[pos];
    if c == '(' {
        token_step(simple_token(src, TokenType::LeftParen, pos, pos + 1, line), pos + 1, line)
    } else if c == ')' {
        token_step(simple_token(src, TokenType::RightParen, pos, pos + 1, line), pos + 1, line)
    } else if c == '{' {
        token_step(simple_token(src, TokenType::LeftBrace, pos, pos + 1, line), pos + 1, line)
    } else if c == '}' {
        token_step(simple_token(src, TokenType::RightBrace, pos, pos + 1, line), pos + 1, line)
    } else if c == ',' {
        token_step(simple_token(src, TokenType::Comma, pos, pos + 1, line), pos + 1, line)
    } else if c == '.' {
        token_step(simple_token(src, TokenType::Dot, pos, pos + 1, line), pos + 1, line)
    } else if c == '-' {
        token_step(simple_token(src, TokenType::Minus, pos, pos + 1, line), pos + 1, line)
    } else if c == '+' {
        token_step(simple_token(src, TokenType::Plus, pos, pos + 1, line), pos + 1, line)
    } else if c == ';' {
        token_step(simple_token(src, TokenType::Semicolon, pos, pos + 1, line), pos + 1, line)
    } else if c == '*' {
        token_step(simple_token(src, TokenType::Star, pos, pos + 1, line), pos + 1, line)
    } else if c == '!' {
        if pos + 1 < src.len() && src[pos + 1] == '=' {
            token_step(simple_token(src, TokenType::BangEqual, pos, pos + 2, line), pos + 2, line)
        } else {
            token_step(simple_token(src, TokenType::Bang, pos, pos + 1, line), pos + 1, line)
        }
    } else if c == '=' {
        if pos + 1 < src.len() && src[pos + 1] == '=' {
            token_step(simple_token(src, TokenType::EqualEqual, pos, pos + 2, line), pos + 2, line)
        } else {
            token_step(simple_token(src, TokenType::Equal, pos, pos + 1, line), pos + 1, line)
        }
    } else if c == '<' {
        if pos + 1 < src.len() && src[pos + 1] == '=' {
            token_step(simple_token(src, TokenType::LessEqual, pos, pos + 2, line), pos + 2, line)
        } else {
            token_step(simple_token(src, TokenType::Less, pos, pos + 1, line), pos + 1, line)
        }
    } else if c == '>' {
        if pos + 1 < src.len() && src[pos + 1] == '=' {
            token_step(
                simple_token(src, TokenType::GreaterEqual, pos, pos + 2, line),
                pos + 2,
                line,
            )
        } else {
            token_step(simple_token(src, TokenType::Greater, pos, pos + 1, line), pos + 1, line)
        }
    } else if c == '/' {
        if pos + 1 < src.len() && src[pos + 1] == '/' {
            silent_step(find_newline(src, pos + 2), line)
        } else {
            token_step(simple_token(src, TokenType::Slash, pos, pos + 1, line), pos + 1, line)
        }
    } else if c == ' ' || c == '\r' || c == '\t' {
        silent_step(pos + 1, line)
    } else if c == '\n' {
        silent_step(pos + 1, (line + 1) as u32)
    } else if c == '"' {
        let q = find_quote(src, pos + 1);
        let nl = count_newlines(src, pos + 1, q);
        let line2 = (line + nl) as u32;
        if q >= src.len() {
            ScanStep {
                token: Option::None,
                error: Option::Some((line2, "Unterminated string."@)),
                pos: src.len() as int,
                line: line2,
            }
        } else {
            token_step(
                TokenModel {
                    token_type: TokenType::Str,
                    lexeme: src.subrange(pos, q + 1),
                    literal: Option::Some(LiteralModel::Str(src.subrange(pos + 1, q))),
                    line,
                },
                q + 1,
                line2,
            )
        }
    } else if spec_is_digit(c) {
        let d1 = digits_end(src, pos);
        let end = if d1 < src.len() && src[d1] == '.' && d1 + 1 < src.len() && spec_is_digit(
            src[d1 + 1],
        ) {
            digits_end(src, d1 + 1)
        } else {
            d1
        };
        token_step(
            TokenModel {
                token_type: TokenType::Number,
                lexeme: src.subrange(pos, end),
                literal: Option::Some(
                    LiteralModel::Number(number_of_lexeme(src.subrange(pos, end))),
                ),
                line,
            },
            end,
            line,
        )
    } else if is_identifier_start(c) {
        let end = ident_end(src, pos + 1);
        let text = src.subrange(pos, end);
        let kind = match spec_keyword(text) {
            Option::Some(k) => k,
            Option::None => TokenType::Identifier,
        };
        token_step(
            TokenModel { token_type: kind, lexeme: text, literal: Option::None, line },
            end,
            line,
        )
    } else {
        ScanStep {
            token: Option::None,
            error: Option::Some((line, "Unexpected character"@)),
            pos: pos + 1,
            line,
        }
    }
}

/// The tokens and lexical errors of scanning from `pos` at `line` to the
/// end; the token list always ends with the end-of-input marker carrying
/// the final line.
pub open spec fn scan_rest(src: Seq<char>, pos: int, line: u32) -> (
    Seq<TokenModel>,
    Seq<(u32, Seq<char>)>,
)
    decreases src.len() - pos,
{
    if pos < 0 || pos >= src.len() {
        (
            seq![
                TokenModel { token_type: TokenType::EOF, lexeme: ""@, literal: Option::None, line },
            ],
            Seq::empty(),
        )
    } else {
        let step = scan_step(src, pos, line);
        let next = if pos < step.pos <= src.len() {
            step.pos
        } else {
            pos + 1
        };
        let rest = scan_rest(src, next, step.line);
        (
            match step.token {
                Option::Some(t) => seq![t] + rest.0,
                Option::None => rest.0,
            },
            match step.error {
                Option::Some(e) => seq![e] + rest.1,
                Option::None => rest.1,
            },
        )
    }
}

/// The whole scan of a source text: from its start, at line 1.
pub open spec fn scan_spec(src: Seq<char>) -> (Seq<TokenModel>, Seq<(u32, Seq<char>)>) {
    scan_rest(src, 0, 1)
}

/// The diagnostics that a sequence of lexical errors becomes.
pub open spec fn lex_reports(errs: Seq<(u32, Seq<char>)>) -> Seq<DiagnosticModel> {
    errs.map(
        |i: int, e: (u32, Seq<char>)|
            DiagnosticModel::Report { line: e.0, location: ""@, message: e.1 },
    )
}

/// The string of the characters of `v` in positions `[from, to)`.
fn copy_chars(v: &Vec<char>, from: usize, to: usize) -> (s: String)
    requires
        from <= to <= v@.len(),
    ensures
        s@ == v@.subrange(from as int, to as int),
{
    let mut chars: Vec<char> = Vec::new();
    let mut i = from;
    while i < to
        invariant
            from <= i <= to <= v@.len(),
            chars@ == v@.subrange(from as int, i as int),
        decreases to - i,
    {
        chars.push(v[i]);
        proof {
            assert(chars@ =~= v@.subrange(from as int, i as int + 1));
        }
        i = i + 1;
    }
    string_from_chars(&chars)
}

/// The keyword `kw` spells, if any.
fn keywords(kw: &str) -> (r: Option<TokenType>)
    ensures
        r == spec_keyword(kw@),
{
    let k = kw.to_owned();
    if k.eq(&"and".to_owned()) {
        Option::Some(TokenType::And)
    } else if k.eq(&"class".to_owned()) {
        Option::Some(TokenType::Class)
    } else if k.eq(&"else".to_owned()) {
        Option::Some(TokenType::Else)
    } else if k.eq(&"false".to_owned()) {
        Option::Some(TokenType::False)
    } else if k.eq(&"for".to_owned()) {
        Option::Some(TokenType::For)
    } else if k.eq(&"fun".to_owned()) {
        Option::Some(TokenType::Fun)
    } else if k.eq(&"if".to_owned()) {
        Option::Some(TokenType::If)
    } else if k.eq(&"nil".to_owned()) {
        Option::Some(TokenType::Nil)
    } else if k.eq(&"or".to_owned()) {
        Option::Some(TokenType::Or)
    } else if k.eq(&"print".to_owned()) {
        Option::Some(TokenType::Print)
    } else if k.eq(&"return".to_owned()) {
        Option::Some(TokenType::Return)
    } else if k.eq(&"super".to_owned()) {
        Option::Some(TokenType::Super)
    } else if k.eq(&"this".to_owned()) {
        Option::Some(TokenType::This)
    } else if k.eq(&"true".to_owned()) {
        Option::Some(TokenType::True)
    } else if k.eq(&"var".to_owned()) {
        Option::Some(TokenType::Var)
    } else if k.eq(&"while".to_owned()) {
        Option::Some(TokenType::While)
    } else {
        Option::None
    }
}

/// Converts raw source text into the flat token sequence `scan_spec`
/// describes, in one left-to-right pass, reporting lexical errors to the
/// error handler as it goes and never aborting on them.
pub struct Scanner {
    pub source: Vec<char>,
    pub tokens: Vec<Token>,
    pub start: usize,
    pub current: usize,
    pub line: u32,
}

impl Scanner {
    /// A scanner over `source`, ready at its first character.
    pub fn new(source: &str) -> (r: Scanner)
        ensures
            r.source@ == source@,
            r.tokens@ == Seq::<Token>::empty(),
            r.start == 0,
            r.current == 0,
            r.line == 1,
    {
        Scanner { source: chars_vec(source), tokens: Vec::new(), start: 0, current: 0, line: 1 }
    }

    fn add_token(&mut self, token_type: TokenType, literal: Option<Literal>, line: u32)
        requires
            old(self).start <= old(self).current <= old(self).source@.len(),
        ensures
            final(self).source == old(self).source,
            final(self).start == old(self).start,
            final(self).current == old(self).current,
            final(self).line == old(self).line,
            tokens_view(final(self).tokens@) == tokens_view(old(self).tokens@).push(
                TokenModel {
                    token_type,
                    lexeme: old(self).source@.subrange(
                        old(self).start as int,
                        old(self).current as int,
                    ),
                    literal: match literal {
                        Option::Some(l) => Option::Some(l@),
                        Option::None => Option::None,
                    },
                    line,
                },
            ),
    {
        let ghost before = self.tokens@;
        let text = copy_chars(&self.source, self.start, self.current);
        let ghost t = TokenModel {
            token_type,
            lexeme: self.source@.subrange(self.start as int, self.current as int),
            literal: match &literal {
                Option::Some(l) => Option::Some(l@),
                Option::None => Option::None,
            },
            line,
        };
        self.tokens.push(Token::new(token_type, text, literal, line));
        proof {
            assert(tokens_view(self.tokens@) =~= tokens_view(before).push(t));
        }
    }

    /// Scan the single lexeme starting at `current`, exactly as one
    /// `scan_step` describes: its token is appended to `tokens`, its error
    /// reported to the handler, and `current` and `line` move on.
    fn scan_token(&mut self, handler: &mut SimpleErrorHandler)
        requires
            old(self).start == old(self).current,
            old(self).current < old(self).source@.len(),
            old(self).line as int <= 1 + old(self).current as int,
            old(self).source@.len() < u32::MAX as int,
        ensures
            ({
                let step = scan_step(
                    old(self).source@,
                    old(self).current as int,
                    old(self).line,
                );
                &&& final(self).source@ == old(self).source@
                &&& final(self).current as int == step.pos
                &&& old(self).current < final(self).current <= final(self).source@.len()
                &&& final(self).line == step.line
                &&& final(self).line as int <= 1 + final(self).current as int
                &&& tokens_view(final(self).tokens@) == (match step.token {
                    Option::Some(t) => tokens_view(old(self).tokens@).push(t),
                    Option::None => tokens_view(old(self).tokens@),
                })
                &&& diagnostics_view(final(handler).diagnostics@) == (match step.error {
                    Option::Some(e) => diagnostics_view(old(handler).diagnostics@).push(
                        DiagnosticModel::Report { line: e.0, location: ""@, message: e.1 },
                    ),
                    Option::None => diagnostics_view(old(handler).diagnostics@),
                })
                &&& final(handler).had_error == (old(handler).had_error || step.error is Some)
                &&& final(handler).had_runtime_error == old(handler).had_runtime_error
            }),
    {
        let ghost src = self.source@;
        let ghost pos = self.current as int;
        let ghost line0 = self.line;
        let c = self.source[self.current];
        self.current = self.current + 1;
        if c == '(' {
            self.add_token(TokenType::LeftParen, Option::None, self.line);
        } else if c == ')' {
            self.add_token(TokenType::RightParen, Option::None, self.line);
        } else if c == '{' {
            self.add_token(TokenType::LeftBrace, Option::None, self.line);
        } else if c == '}' {
            self.add_token(TokenType::RightBrace, Option::None, self.line);
        } else if c == ',' {
            self.add_token(TokenType::Comma, Option::None, self.line);
        } else if c == '.' {
            self.add_token(TokenType::Dot, Option::None, self.line);
        } else if c == '-' {
            self.add_token(TokenType::Minus, Option::None, self.line);
        } else if c == '+' {
            self.add_token(TokenType::Plus, Option::None, self.line);
        } else if c == ';' {
            self.add_token(TokenType::Semicolon, Option::None, self.line);
        } else if c == '*' {
            self.add_token(TokenType::Star, Option::None, self.line);
        } else if c == '!' {
            if self.match_char('=') {
                self.add_token(TokenType::BangEqual, Option::None, self.line);
            } else {
                self.add_token(TokenType::Bang, Option::None, self.line);
            }
        } else if c == '=' {
            if self.match_char('=') {
                self.add_token(TokenType::EqualEqual, Option::None, self.line);
            } else {
                self.add_token(TokenType::Equal, Option::None, self.line);
            }
        } else if c == '<' {
            if self.match_char('=') {
                self.add_token(TokenType::LessEqual, Option::None, self.line);
            } else {
                self.add_token(TokenType::Less, Option::None, self.line);
            }
        } else if c == '>' {
            if self.match_char('=') {
                self.add_token(TokenType::GreaterEqual, Option::None, self.line);
            } else {
                self.add_token(TokenType::Greater, Option::None, self.line);
            }
        } else if c == '/' {
            if self.match_char('/') {
                // A line comment runs to the end of the line and is dropped.
                while self.current < self.source.len() && self.source[self.current] != '\n'
                    invariant
                        self.source@ == src,
                        self.start == old(self).start,
                        self.tokens == old(self).tokens,
                        self.line == old(self).line,
                        pos + 2 <= self.current as int <= src.len(),
                        find_newline(src, pos + 2) == find_newline(src, self.current as int),
                    decreases src.len() - self.current,
                {
                    self.current = self.current + 1;
                }
                proof {
                    assert(find_newline(src, self.current as int) == self.current as int);
                }
            } else {
                self.add_token(TokenType::Slash, Option::None, self.line);
            }
        } else if c == ' ' || c == '\r' || c == '\t' {
            // Whitespace is dropped.
        } else if c == '\n' {
            self.line = self.line + 1;
        } else if c == '"' {
            let token_line = self.line;
            let ghost p1 = self.current as int;
            while self.current < self.source.len() && self.source[self.current] != '"'
                invariant
                    self.source@ == src,
                    self.start == old(self).start,
                    self.tokens == old(self).tokens,
                    self.start == pos,
                    p1 == pos + 1,
                    p1 <= self.current as int <= src.len(),
                    src.len() < u32::MAX as int,
                    find_quote(src, p1) == find_quote(src, self.current as int),
                    self.line as int == line0 as int + count_newlines(
                        src,
                        p1,
                        self.current as int,
                    ),
                    line0 as int <= 1 + pos,
                    self.line as int <= 1 + self.current as int,
                decreases src.len() - self.current,
            {
                if self.source[self.current] == '\n' {
                    self.line = self.line + 1;
                }
                self.current = self.current + 1;
            }
            proof {
                assert(find_quote(src, self.current as int) == if self.current
                    < self.source.len() {
                    self.current as int
                } else {
                    src.len() as int
                });
                assert(find_quote(src, p1) == if self.current < self.source.len() {
                    self.current as int
                } else {
                    src.len() as int
                });
            }
            if self.current >= self.source.len() {
                handler.error(self.line, "Unterminated string.");
            } else {
                // Consume the closing quote; the literal drops both quotes.
                // The token carries the line the literal opened on, not the
                // line where it ends.
                self.current = self.current + 1;
                let value = copy_chars(&self.source, self.start + 1, self.current - 1);
                self.add_token(TokenType::Str, Option::Some(Literal::Str(value)), token_line);
            }
        } else if is_digit(c) {
            while self.current < self.source.len() && is_digit(self.source[self.current])
                invariant
                    self.source@ == src,
                    self.start == old(self).start,
                    self.tokens == old(self).tokens,
                    self.line == old(self).line,
                    self.start == pos,
                    pos < self.current as int <= src.len(),
                    digits_end(src, pos) == digits_end(src, self.current as int),
                decreases src.len() - self.current,
            {
                self.current = self.current + 1;
            }
            proof {
                assert(digits_end(src, self.current as int) == self.current as int);
            }
            let ghost d1 = self.current as int;
            // A fractional part only counts when a digit follows the dot.
            if self.current < self.source.len() && self.source[self.current] == '.' && self.current
                + 1 < self.source.len() && is_digit(self.source[self.current + 1]) {
                self.current = self.current + 1;
                while self.current < self.source.len() && is_digit(self.source[self.current])
                    invariant
                        self.source@ == src,
                        self.start == old(self).start,
                        self.tokens == old(self).tokens,
                        self.line == old(self).line,
                        self.start == pos,
                        0 <= pos < d1,
                        d1 < self.current as int <= src.len(),
                        d1 < src.len() && src[d1] == '.',
                        d1 + 1 < src.len() && spec_is_digit(src[d1 + 1]),
                        digits_end(src, d1 + 1) == digits_end(src, self.current as int),
                    decreases src.len() - self.current,
                {
                    self.current = self.current + 1;
                }
                proof {
                    assert(digits_end(src, self.current as int) == self.current as int);
                }
            }
            let text = copy_chars(&self.source, self.start, self.current);
            proof {
                let cur = self.current as int;
                let k = d1 - pos;
                lemma_digits_end_digits(src, pos);
                if d1 + 1 <= src.len() {
                    lemma_digits_end_digits(src, d1 + 1);
                }
                assert(text@ == src.subrange(pos, cur));
                assert forall|i: int| 0 <= i < k implies spec_is_digit(#[trigger] text@[i]) by {
                    assert(text@[i] == src[pos + i]);
                }
                if k < text@.len() {
                    assert(cur > d1);
                    assert(text@[k] == src[d1]);
                    assert forall|i: int| k < i < text@.len() implies spec_is_digit(
                        #[trigger] text@[i],
                    ) by {
                        assert(text@[i] == src[pos + i]);
                    }
                }
                assert(number_shape(text@, k));
            }
            let bits = num_parse(text.as_str());
            self.add_token(TokenType::Number, Option::Some(Literal::Number(bits)), self.line);
        } else if is_identifier_start_exec(c) {
            while self.current < self.source.len() && is_identifier_part_exec(
                self.source[self.current],
            )
                invariant
                    self.source@ == src,
                    self.start == old(self).start,
                    self.tokens == old(self).tokens,
                    self.line == old(self).line,
                    self.start == pos,
                    pos < self.current as int <= src.len(),
                    ident_end(src, pos + 1) == ident_end(src, self.current as int),
                decreases src.len() - self.current,
            {
                self.current = self.current + 1;
            }
            proof {
                assert(ident_end(src, self.current as int) == self.current as int);
            }
            let text = copy_chars(&self.source, self.start, self.current);
            match keywords(text.as_str()) {
                Option::Some(kind) => self.add_token(kind, Option::None, self.line),
                Option::None => self.add_token(TokenType::Identifier, Option::None, self.line),
            }
        } else {
            handler.error(self.line, "Unexpected character");
        }
    }

    fn match_char(&mut self, expected: char) -> (r: bool)
        requires
            old(self).current <= old(self).source@.len(),
        ensures
            final(self).source == old(self).source,
            final(self).start == old(self).start,
            final(self).tokens == old(self).tokens,
            final(self).line == old(self).line,
            r == (old(self).current < old(self).source@.len() && old(self).source@[old(
                self,
            ).current as int] == expected),
            final(self).current == if r {
                old(self).current + 1
            } else {
                old(self).current as int
            },
    {
        if self.current >= self.source.len() {
            return false;
        }
        if self.source[self.current] != expected {
            return false;
        }
        self.current = self.current + 1;
        true
    }

    /// Scan the whole source: the returned tokens and the reported
    /// lexical errors are exactly those of `scan_spec`, the tokens ending
    /// with the end-of-input marker. Scanning never aborts: after an error
    /// it continues with the next character.
    pub fn scan_tokens(&mut self, handler: &mut SimpleErrorHandler) -> (r: Vec<Token>)
        requires
            old(self).tokens@ == Seq::<Token>::empty(),
            old(self).start == 0,
            old(self).current == 0,
            old(self).line == 1,
            old(self).source@.len() < u32::MAX as int,
        ensures
            tokens_view(r@) == scan_spec(old(self).source@).0,
            diagnostics_view(final(handler).diagnostics@) == diagnostics_view(
                old(handler).diagnostics@,
            ) + lex_reports(scan_spec(old(self).source@).1),
            final(handler).had_error == (old(handler).had_error || scan_spec(
                old(self).source@,
            ).1.len() > 0),
            final(handler).had_runtime_error == old(handler).had_runtime_error,
    {
        let ghost src = self.source@;
        let ghost full = scan_spec(src);
        let ghost mut errs_acc: Seq<(u32, Seq<char>)> = Seq::empty();
        proof {
            assert(lex_reports(errs_acc) =~= Seq::<DiagnosticModel>::empty());
            assert(diagnostics_view(handler.diagnostics@) =~= diagnostics_view(
                handler.diagnostics@,
            ) + lex_reports(errs_acc));
            assert(full.0 =~= tokens_view(self.tokens@) + scan_rest(src, 0, 1).0);
            assert(full.1 =~= errs_acc + scan_rest(src, 0, 1).1);
        }
        while self.current < self.source.len()
            invariant
                self.source@ == src,
                src.len() < u32::MAX as int,
                self.current <= src.len(),
                self.line as int <= 1 + self.current as int,
                full == scan_spec(src),
                full.0 == tokens_view(self.tokens@) + scan_rest(
                    src,
                    self.current as int,
                    self.line,
                ).0,
                full.1 == errs_acc + scan_rest(src, self.current as int, self.line).1,
                diagnostics_view(handler.diagnostics@) == diagnostics_view(
                    old(handler).diagnostics@,
                ) + lex_reports(errs_acc),
                handler.had_error == (old(handler).had_error || errs_acc.len() > 0),
                handler.had_runtime_error == old(handler).had_runtime_error,
            decreases src.len() - self.current,
        {
            self.start = self.current;
            let ghost cur0 = self.current as int;
            let ghost line_before = self.line;
            let ghost toks_before = tokens_view(self.tokens@);
            let ghost diags_before = diagnostics_view(handler.diagnostics@);
            self.scan_token(handler);
            proof {
                let step = scan_step(src, cur0, line_before);
                let rest = scan_rest(src, self.current as int, self.line);
                assert(scan_rest(src, cur0, line_before).0 == (match step.token {
                    Option::Some(t) => seq![t] + rest.0,
                    Option::None => rest.0,
                }));
                assert(scan_rest(src, cur0, line_before).1 == (match step.error {
                    Option::Some(e) => seq![e] + rest.1,
                    Option::None => rest.1,
                }));
                match step.token {
                    Option::Some(t) => {
                        assert(toks_before.push(t) + rest.0 =~= toks_before + (seq![t] + rest.0));
                    },
                    Option::None => {},
                }
                match step.error {
                    Option::Some(e) => {
                        let d = DiagnosticModel::Report {
                            line: e.0,
                            location: ""@,
                            message: e.1,
                        };
                        assert(errs_acc.push(e) + rest.1 =~= errs_acc + (seq![e] + rest.1));
                        assert(lex_reports(errs_acc.push(e)) =~= lex_reports(errs_acc).push(d));
                        errs_acc = errs_acc.push(e);
                    },
                    Option::None => {},
                }
            }
        }
        let ghost line_end = self.line;
        self.add_token_eof();
        proof {
            assert(scan_rest(src, self.current as int, line_end).0 =~= seq![
                TokenModel {
                    token_type: TokenType::EOF,
                    lexeme: ""@,
                    literal: Option::None,
                    line: line_end,
                },
            ]);
            assert(tokens_view(self.tokens@) =~= full.0);
        }
        self.tokens.split_off(0)
    }

    fn add_token_eof(&mut self)
        ensures
            final(self).source == old(self).source,
            final(self).current == old(self).current,
            final(self).line == old(self).line,
            tokens_view(final(self).tokens@) == tokens_view(old(self).tokens@).push(
                TokenModel {
                    token_type: TokenType::EOF,
                    lexeme: ""@,
                    literal: Option::None,
                    line: old(self).line,
                },
            ),
    {
        let ghost before = self.tokens@;
        self.tokens.push(Token::new(TokenType::EOF, "".to_owned(), Option::None, self.line));
        proof {
            assert(tokens_view(self.tokens@) =~= tokens_view(before).push(
                TokenModel {
                    token_type: TokenType::EOF,
                    lexeme: ""@,
                    literal: Option::None,
                    line: self.line,
                },
            ));
        }
    }
}

/// Whether `c` is an ASCII decimal digit.
fn is_digit(c: char) -> (r: bool)
    ensures
        r == spec_is_digit(c),
{
    let n = c as u32;
    48 <= n && n <= 57
}

/// Whether `c` can start an identifier.
fn is_identifier_start_exec(c: char) -> (r: bool)
    ensures
        r == is_identifier_start(c),
{
    char_is_alphabetic(c) || c == '_'
}

/// Whether `c` can continue an identifier.
fn is_identifier_part_exec(c: char) -> (r: bool)
    ensures
        r == is_identifier_part(c),
{
    char_is_alphabetic(c) || is_digit(c) || c == '_'
}

/// Every position in `[i, digits_end(src, i))` holds a digit.
pub proof fn lemma_digits_end_digits(src: Seq<char>, i: int)
    requires
        0 <= i <= src.len(),
    ensures
        i <= digits_end(src, i) <= src.len(),
        forall|k: int| i <= k < digits_end(src, i) ==> spec_is_digit(#[trigger] src[k]),
    decreases src.len() - i,
{
    if i < src.len() && spec_is_digit(src[i]) {
        lemma_digits_end_digits(src, i + 1);
    }
}

} // verus!
