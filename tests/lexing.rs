use rlox::scanner::{Scanner, Token, TokenType};

fn all_tokens(source: &str) -> Vec<Token> {
    let mut scanner = Scanner::new(String::from(source));
    let mut tokens = Vec::new();
    while let Some(t) = scanner.next() {
        tokens.push(t);
    }
    tokens
}

#[test]
fn decimal_literal_is_one_number_token() {
    let tokens = all_tokens("3.4");
    assert_eq!(tokens.len(), 1);
    assert_eq!(tokens[0].token_type, TokenType::Number);
    assert_eq!(tokens[0].lexeme, "3.4");
    assert_eq!(tokens[0].line, 1);
}

#[test]
fn number_lexemes_parse_back_to_their_values() {
    let tokens = all_tokens("0 12 3.25 007 1.5");
    let values: Vec<f64> = tokens.iter().map(|t| t.lexeme.parse::<f64>().unwrap()).collect();
    assert_eq!(values, vec![0.0, 12.0, 3.25, 7.0, 1.5]);
    assert!(tokens.iter().all(|t| t.token_type == TokenType::Number));
}

#[test]
fn trailing_dot_is_not_part_of_a_number() {
    let tokens = all_tokens("1.");
    assert_eq!(tokens.len(), 2);
    assert_eq!(tokens[0].token_type, TokenType::Number);
    assert_eq!(tokens[0].lexeme, "1");
    assert_eq!(tokens[1].token_type, TokenType::Dot);
}

#[test]
fn unterminated_string_is_a_single_error_token() {
    let mut scanner = Scanner::new(String::from("\"abc\ndef"));
    let t = scanner.next().unwrap();
    assert_eq!(t.token_type, TokenType::Error);
    assert_eq!(t.lexeme, "Unterminated String");
    assert_eq!(t.line, 2);
    assert!(scanner.next().is_none());
    assert!(scanner.next().is_none());
}

#[test]
fn terminated_string_keeps_its_quotes() {
    let tokens = all_tokens("\"hi\" x");
    assert_eq!(tokens[0].token_type, TokenType::String);
    assert_eq!(tokens[0].lexeme, "\"hi\"");
    assert_eq!(tokens[1].token_type, TokenType::Identifier);
}

#[test]
fn unexpected_character_is_an_error_token() {
    let tokens = all_tokens("@");
    assert_eq!(tokens.len(), 1);
    assert_eq!(tokens[0].token_type, TokenType::Error);
    assert_eq!(tokens[0].lexeme, "unexpected character");
}

#[test]
fn operators_of_one_and_two_characters() {
    let kinds: Vec<TokenType> = all_tokens("!= == <= >= ! = < >").iter().map(|t| t.token_type).collect();
    assert_eq!(
        kinds,
        vec![
            TokenType::BangEqual,
            TokenType::EqualEqual,
            TokenType::LessEqual,
            TokenType::GreaterEqual,
            TokenType::Bang,
            TokenType::Equal,
            TokenType::Less,
            TokenType::Greater,
        ]
    );
}

#[test]
fn comments_are_skipped_and_lines_counted() {
    let tokens = all_tokens("// first line\n  1 // more\n+ 2");
    assert_eq!(tokens.len(), 3);
    assert_eq!(tokens[0].line, 2);
    assert_eq!(tokens[1].token_type, TokenType::Plus);
    assert_eq!(tokens[1].line, 3);
}

#[test]
fn every_keyword_and_near_misses() {
    let kinds: Vec<TokenType> = all_tokens(
        "and class else false for fun if nil or print return super this true var while an classy _x f t",
    )
    .iter()
    .map(|t| t.token_type)
    .collect();
    assert_eq!(
        kinds,
        vec![
            TokenType::And,
            TokenType::Class,
            TokenType::Else,
            TokenType::False,
            TokenType::For,
            TokenType::Fun,
            TokenType::If,
            TokenType::Nil,
            TokenType::Or,
            TokenType::Print,
            TokenType::Return,
            TokenType::Super,
            TokenType::This,
            TokenType::True,
            TokenType::Var,
            TokenType::While,
            TokenType::Identifier,
            TokenType::Identifier,
            TokenType::Identifier,
            TokenType::Identifier,
            TokenType::Identifier,
        ]
    );
}

#[test]
fn empty_and_blank_sources_have_no_tokens() {
    assert!(all_tokens("").is_empty());
    assert!(all_tokens(" \t\r\n // only a comment").is_empty());
}

#[test]
fn scanner_line_follows_newlines() {
    let mut scanner = Scanner::new(String::from("\n\n"));
    assert!(scanner.next().is_none());
    assert_eq!(scanner.line(), 3);
}
