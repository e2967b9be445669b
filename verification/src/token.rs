use vstd::prelude::*;

verus! {

/// The closed set of token kinds the scanner can produce: punctuation,
/// operators, literal markers, keywords, identifiers and the end-of-input
/// marker.
#[derive(Clone, Copy, PartialEq, Eq, Structural, Debug)]
pub enum TokenType {
    LeftParen,
    RightParen,
    LeftBrace,
    RightBrace,
    Comma,
    Dot,
    Minus,
    Plus,
    Semicolon,
    Slash,
    Star,
    Bang,
    BangEqual,
    Equal,
    EqualEqual,
    Greater,
    GreaterEqual,
    Less,
    LessEqual,
    Identifier,
    Str,
    Number,
    And,
    Class,
    Else,
    False,
    Fun,
    For,
    If,
    Nil,
    Or,
    Print,
    Return,
    Super,
    This,
    True,
    Var,
    While,
    EOF,
}

/// A literal value attached to a number or string token by the scanner; the
/// boolean and nil variants are synthesized by the parser from keyword tokens.
/// A number is carried as the bit pattern of the IEEE double it denotes.
pub enum Literal {
    Number(u64),
    Str(String),
    True,
    False,
    Nil,
}

/// The mathematical shape of a `Literal`: a string literal is a sequence of
/// characters.
pub enum LiteralModel {
    Number(u64),
    Str(Seq<char>),
    True,
    False,
    Nil,
}

impl View for Literal {
    type V = LiteralModel;

    open spec fn view(&self) -> LiteralModel {
        match self {
            Literal::Number(bits) => LiteralModel::Number(*bits),
            Literal::Str(s) => LiteralModel::Str(s@),
            Literal::True => LiteralModel::True,
            Literal::False => LiteralModel::False,
            Literal::Nil => LiteralModel::Nil,
        }
    }
}

impl Literal {
    /// A deep copy; the derived `Clone` would say nothing about the copy.
    pub fn duplicate(&self) -> (r: Literal)
        ensures
            r@ == self@,
    {
        match self {
            Literal::Number(bits) => Literal::Number(*bits),
            Literal::Str(s) => Literal::Str(s.clone()),
            Literal::True => Literal::True,
            Literal::False => Literal::False,
            Literal::Nil => Literal::Nil,
        }
    }
}

/// A classified lexeme: its kind, the exact source text it was scanned from,
/// its literal value if it has one, and the 1-based source line it started on.
pub struct Token {
    pub token_type: TokenType,
    pub lexeme: String,
    pub literal: Option<Literal>,
    pub line: u32,
}

/// The mathematical shape of a `Token`.
pub struct TokenModel {
    pub token_type: TokenType,
    pub lexeme: Seq<char>,
    pub literal: Option<LiteralModel>,
    pub line: u32,
}

impl View for Token {
    type V = TokenModel;

    open spec fn view(&self) -> TokenModel {
        TokenModel {
            token_type: self.token_type,
            lexeme: self.lexeme@,
            literal: match self.literal {
                Option::Some(lit) => Option::Some(lit@),
                Option::None => Option::None,
            },
            line: self.line,
        }
    }
}

impl Token {
    pub fn new(token_type: TokenType, lexeme: String, literal: Option<Literal>, line: u32) -> (r:
        Token)
        ensures
            r@ == (TokenModel {
                token_type,
                lexeme: lexeme@,
                literal: match literal {
                    Option::Some(lit) => Option::Some(lit@),
                    Option::None => Option::None,
                },
                line,
            }),
    {
        Token { token_type, lexeme, literal, line }
    }

    /// A deep copy; the derived `Clone` would say nothing about the copy.
    pub fn duplicate(&self) -> (r: Token)
        ensures
            r@ == self@,
    {
        Token {
            token_type: self.token_type,
            lexeme: self.lexeme.clone(),
            literal: match &self.literal {
                Option::Some(lit) => Option::Some(lit.duplicate()),
                Option::None => Option::None,
            },
            line: self.line,
        }
    }
}

/// The sequence of token models under a sequence of tokens.
pub open spec fn tokens_view(tokens: Seq<Token>) -> Seq<TokenModel> {
    tokens.map(|i: int, t: Token| t@)
}

} // verus!
