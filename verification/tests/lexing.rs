use rlox::ast_printer;
use rlox::error::{Diagnostic, SimpleErrorHandler};
use rlox::expr::{Binary, Expr, Grouping, LiteralExpr, Unary};
use rlox::scanner::Scanner;
use rlox::token::{Literal, Token, TokenType};

fn scan(source: &str) -> (Vec<Token>, SimpleErrorHandler) {
    let mut handler = SimpleErrorHandler::new();
    let mut scanner = Scanner::new(source);
    let tokens = scanner.scan_tokens(&mut handler);
    (tokens, handler)
}

fn kinds(tokens: &[Token]) -> Vec<TokenType> {
    tokens.iter().map(|t| t.token_type).collect()
}

#[test]
fn single_and_double_character_tokens() {
    let (tokens, handler) = scan("(){},.-+;*/! != = == < <= > >=");
    assert!(!handler.had_error);
    assert_eq!(
        kinds(&tokens),
        vec![
            TokenType::LeftParen,
            TokenType::RightParen,
            TokenType::LeftBrace,
            TokenType::RightBrace,
            TokenType::Comma,
            TokenType::Dot,
            TokenType::Minus,
            TokenType::Plus,
            TokenType::Semicolon,
            TokenType::Star,
            TokenType::Slash,
            TokenType::Bang,
            TokenType::BangEqual,
            TokenType::Equal,
            TokenType::EqualEqual,
            TokenType::Less,
            TokenType::LessEqual,
            TokenType::Greater,
            TokenType::GreaterEqual,
            TokenType::EOF,
        ]
    );
}

#[test]
fn keywords_and_identifiers() {
    let (tokens, _) = scan("and class else false for fun if nil or print return super this true var while foo _bar a1");
    let mut expected = vec![
        TokenType::And,
        TokenType::Class,
        TokenType::Else,
        TokenType::False,
        TokenType::For,
        TokenType::Fun,
        TokenType::If,
        TokenType::Nil,
        TokenType::Or,
        TokenType::Print,
        TokenType::Return,
        TokenType::Super,
        TokenType::This,
        TokenType::True,
        TokenType::Var,
        TokenType::While,
        TokenType::Identifier,
        TokenType::Identifier,
        TokenType::Identifier,
    ];
    expected.push(TokenType::EOF);
    assert_eq!(kinds(&tokens), expected);
    assert_eq!(tokens[16].lexeme, "foo");
    assert_eq!(tokens[17].lexeme, "_bar");
    assert_eq!(tokens[18].lexeme, "a1");
}

#[test]
fn number_literals_parse_to_doubles() {
    let (tokens, _) = scan("123 45.67");
    match tokens[0].literal {
        Some(Literal::Number(bits)) => assert_eq!(f64::from_bits(bits), 123.0),
        _ => panic!("expected a number literal"),
    }
    match tokens[1].literal {
        Some(Literal::Number(bits)) => assert_eq!(f64::from_bits(bits), 45.67),
        _ => panic!("expected a number literal"),
    }
    assert_eq!(tokens[0].lexeme, "123");
    assert_eq!(tokens[1].lexeme, "45.67");
}

#[test]
fn a_trailing_dot_is_not_part_of_the_number() {
    let (tokens, handler) = scan("123.");
    assert!(!handler.had_error);
    assert_eq!(kinds(&tokens), vec![TokenType::Number, TokenType::Dot, TokenType::EOF]);
}

#[test]
fn string_literals_drop_their_quotes() {
    let (tokens, _) = scan("\"hello\"");
    assert_eq!(tokens[0].lexeme, "\"hello\"");
    match &tokens[0].literal {
        Some(Literal::Str(s)) => assert_eq!(s, "hello"),
        _ => panic!("expected a string literal"),
    }
}

#[test]
fn multi_line_strings_count_their_lines() {
    let (tokens, _) = scan("\"a\nb\" x");
    assert_eq!(tokens[0].line, 1);
    assert_eq!(tokens[1].line, 2);
}

#[test]
fn unterminated_string_is_an_error_not_a_token() {
    let (tokens, handler) = scan("\"abc");
    assert!(handler.had_error);
    assert_eq!(kinds(&tokens), vec![TokenType::EOF]);
    match &handler.diagnostics[0] {
        Diagnostic::Report { line, message, .. } => {
            assert_eq!(*line, 1);
            assert_eq!(message, "Unterminated string.");
        },
        Diagnostic::Runtime { .. } => panic!("expected a lexical error"),
    }
}

#[test]
fn unexpected_character_is_reported_and_skipped() {
    let (tokens, handler) = scan("@ 1");
    assert!(handler.had_error);
    assert_eq!(kinds(&tokens), vec![TokenType::Number, TokenType::EOF]);
    match &handler.diagnostics[0] {
        Diagnostic::Report { message, .. } => assert_eq!(message, "Unexpected character"),
        Diagnostic::Runtime { .. } => panic!("expected a lexical error"),
    }
}

#[test]
fn comments_run_to_the_end_of_the_line() {
    let (tokens, handler) = scan("1 // two three\n2");
    assert!(!handler.had_error);
    assert_eq!(kinds(&tokens), vec![TokenType::Number, TokenType::Number, TokenType::EOF]);
    assert_eq!(tokens[0].line, 1);
    assert_eq!(tokens[1].line, 2);
}

#[test]
fn tokens_carry_their_source_line() {
    let (tokens, _) = scan("1\n2\n\n3");
    assert_eq!(tokens[0].line, 1);
    assert_eq!(tokens[1].line, 2);
    assert_eq!(tokens[2].line, 4);
    assert_eq!(tokens[3].line, 4);
}

fn sample_tree() -> Expr {
    Expr::Binary(Binary {
        left: Box::new(Expr::Unary(Unary {
            operator: Token::new(TokenType::Minus, String::from("-"), None, 1),
            right: Box::new(Expr::Literal(LiteralExpr {
                value: Literal::Number(123.0f64.to_bits()),
            })),
        })),
        operator: Token::new(TokenType::Star, String::from("*"), None, 1),
        right: Box::new(Expr::Grouping(Grouping {
            expression: Box::new(Expr::Literal(LiteralExpr {
                value: Literal::Number(45.67f64.to_bits()),
            })),
        })),
    })
}

#[test]
fn printer_renders_the_parenthesized_prefix_form() {
    let tree = sample_tree();
    assert_eq!(ast_printer::print(&tree), "(* (- 123) (group 45.67))");
}

#[test]
fn printer_is_stable_across_repeated_calls() {
    let tree = sample_tree();
    let first = ast_printer::print(&tree);
    let second = ast_printer::print(&tree);
    assert_eq!(first, second);
    assert_eq!(second, "(* (- 123) (group 45.67))");
}
