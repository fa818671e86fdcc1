use monkey_lexer::lexer::{tokenize, Lexer};
use monkey_lexer::parser::Parser;
use monkey_lexer::types::Token;

fn lexer(input: &str) -> Lexer {
    Lexer::new(String::from(input))
}

#[test]
fn assign() {
    let mut lexer = lexer("=");

    assert_eq!(lexer.next_token(), Token::Assign);
}

#[test]
fn eq() {
    let mut lexer = lexer("==");

    assert_eq!(lexer.next_token(), Token::Eq);
}

#[test]
fn read_char() {
    let mut lexer = lexer("999+ ! (){},;hello lEt = Hello == != \"string hello\"");

    assert_eq!(lexer.next_token(), Token::Int(String::from("999")));
    assert_eq!(lexer.next_token(), Token::Plus);
    assert_eq!(lexer.next_token(), Token::Bang);
    assert_eq!(lexer.next_token(), Token::LParen);
    assert_eq!(lexer.next_token(), Token::RParen);
    assert_eq!(lexer.next_token(), Token::LBrace);
    assert_eq!(lexer.next_token(), Token::RBrace);
    assert_eq!(lexer.next_token(), Token::Comma);
    assert_eq!(lexer.next_token(), Token::Semicolon);
    assert_eq!(lexer.next_token(), Token::Ident("hello".to_string()));
    assert_eq!(lexer.next_token(), Token::Let);
    assert_eq!(lexer.next_token(), Token::Assign);
    assert_eq!(lexer.next_token(), Token::Ident("Hello".to_string()));
    assert_eq!(lexer.next_token(), Token::Eq);
    assert_eq!(lexer.next_token(), Token::NotEq);
    assert_eq!(
        lexer.next_token(),
        Token::String("string hello".to_string())
    );
}

#[test]
fn assign_then_end_of_input() {
    let mut lexer = lexer("=");
    assert_eq!(lexer.next_token(), Token::Assign);
    assert_eq!(lexer.next_token(), Token::Eof);
}

#[test]
fn equality_then_end_of_input() {
    let mut lexer = lexer("==");
    assert_eq!(lexer.next_token(), Token::Eq);
    assert_eq!(lexer.next_token(), Token::Eof);
}

#[test]
fn inequality_then_end_of_input() {
    let mut lexer = lexer("!=");
    assert_eq!(lexer.next_token(), Token::NotEq);
    assert_eq!(lexer.next_token(), Token::Eof);
}

#[test]
fn mixed_line() {
    let mut lexer = lexer("999+(){},;hello let Hello");
    let expected = vec![
        Token::Int("999".to_string()),
        Token::Plus,
        Token::LParen,
        Token::RParen,
        Token::LBrace,
        Token::RBrace,
        Token::Comma,
        Token::Semicolon,
        Token::Ident("hello".to_string()),
        Token::Let,
        Token::Ident("Hello".to_string()),
    ];
    for token in expected {
        assert_eq!(lexer.next_token(), token);
    }
    assert_eq!(lexer.next_token(), Token::Eof);
}

#[test]
fn string_literal_alone() {
    let mut lexer = lexer("\"string hello\"");
    assert_eq!(lexer.next_token(), Token::String("string hello".to_string()));
    assert_eq!(lexer.next_token(), Token::Eof);
}

#[test]
fn end_of_input_repeats() {
    let mut lexer = lexer("let x");
    assert_eq!(lexer.next_token(), Token::Let);
    assert_eq!(lexer.next_token(), Token::Ident("x".to_string()));
    for _ in 0..5 {
        assert_eq!(lexer.next_token(), Token::Eof);
    }
}

#[test]
fn empty_input_is_end_of_input() {
    let mut lexer = lexer("");
    assert_eq!(lexer.next_token(), Token::Eof);
    assert_eq!(lexer.next_token(), Token::Eof);
    assert_eq!(tokenize(""), Vec::<Token>::new());
}

#[test]
fn blanks_only_is_end_of_input() {
    let mut lexer = lexer(" \t\r\n  ");
    assert_eq!(lexer.next_token(), Token::Eof);
}

#[test]
fn other_whitespace_is_skipped() {
    assert_eq!(
        tokenize("let\tx\n=\r\n5"),
        vec![
            Token::Let,
            Token::Ident("x".to_string()),
            Token::Assign,
            Token::Int("5".to_string()),
        ]
    );
}

#[test]
fn unknown_word_keeps_its_spelling() {
    assert_eq!(tokenize("foobar"), vec![Token::Ident("foobar".to_string())]);
    assert_eq!(tokenize("FooBar"), vec![Token::Ident("FooBar".to_string())]);
}

#[test]
fn digit_run_keeps_every_digit() {
    let tokens = tokenize("0012345678901234567890;");
    assert_eq!(
        tokens,
        vec![
            Token::Int("0012345678901234567890".to_string()),
            Token::Semicolon,
        ]
    );
    if let Token::Int(text) = &tokens[0] {
        assert_eq!(text.len(), 22);
        assert_eq!(text.parse::<u128>().unwrap(), 12345678901234567890u128);
    }
}

#[test]
fn digits_then_letters_split() {
    assert_eq!(
        tokenize("12ab"),
        vec![Token::Int("12".to_string()), Token::Ident("ab".to_string())]
    );
}

#[test]
fn keywords_in_any_case() {
    assert_eq!(
        tokenize("fn let true false if else return FN Let TRUE fAlSe IF Else RETURN"),
        vec![
            Token::Function,
            Token::Let,
            Token::True,
            Token::False,
            Token::If,
            Token::Else,
            Token::Return,
            Token::Function,
            Token::Let,
            Token::True,
            Token::False,
            Token::If,
            Token::Else,
            Token::Return,
        ]
    );
}

#[test]
fn keyword_prefix_is_identifier() {
    assert_eq!(
        tokenize("lets iff fnx"),
        vec![
            Token::Ident("lets".to_string()),
            Token::Ident("iff".to_string()),
            Token::Ident("fnx".to_string()),
        ]
    );
}

#[test]
fn get_keyword_table() {
    assert_eq!(Token::get_keyword("fn"), Token::Function);
    assert_eq!(Token::get_keyword("RETURN"), Token::Return);
    assert_eq!(Token::get_keyword("elsE"), Token::Else);
    assert_eq!(Token::get_keyword("Hello"), Token::Ident("Hello".to_string()));
    assert_eq!(Token::get_keyword(""), Token::Ident(String::new()));
}

#[test]
fn all_punctuation() {
    assert_eq!(
        tokenize("(){}[],;:+-*/<>"),
        vec![
            Token::LParen,
            Token::RParen,
            Token::LBrace,
            Token::RBrace,
            Token::LBracket,
            Token::RBracket,
            Token::Comma,
            Token::Semicolon,
            Token::Colon,
            Token::Plus,
            Token::Minus,
            Token::Asterisk,
            Token::Slash,
            Token::Lt,
            Token::Gt,
        ]
    );
}

#[test]
fn single_char_operators_consume_one_character() {
    assert_eq!(
        tokenize("=x!y=!"),
        vec![
            Token::Assign,
            Token::Ident("x".to_string()),
            Token::Bang,
            Token::Ident("y".to_string()),
            Token::Assign,
            Token::Bang,
        ]
    );
    assert_eq!(tokenize("==="), vec![Token::Eq, Token::Assign]);
    assert_eq!(tokenize("!=="), vec![Token::NotEq, Token::Assign]);
    assert_eq!(tokenize("!!"), vec![Token::Bang, Token::Bang]);
}

#[test]
fn illegal_characters() {
    assert_eq!(
        tokenize("a?b é _"),
        vec![
            Token::Ident("a".to_string()),
            Token::Illegal,
            Token::Ident("b".to_string()),
            Token::Illegal,
            Token::Illegal,
        ]
    );
}

#[test]
fn non_ascii_letters_are_not_identifiers() {
    assert_eq!(
        tokenize("aéb"),
        vec![
            Token::Ident("a".to_string()),
            Token::Illegal,
            Token::Ident("b".to_string()),
        ]
    );
}

#[test]
fn string_literals() {
    assert_eq!(
        tokenize("\"\" \"a b\"x \"héllo=\""),
        vec![
            Token::String(String::new()),
            Token::String("a b".to_string()),
            Token::Ident("x".to_string()),
            Token::String("héllo=".to_string()),
        ]
    );
}

#[test]
fn unterminated_string_keeps_its_text() {
    let mut lexer = lexer("x = \"abc def");
    assert_eq!(lexer.next_token(), Token::Ident("x".to_string()));
    assert_eq!(lexer.next_token(), Token::Assign);
    assert_eq!(lexer.next_token(), Token::String("abc def".to_string()));
    assert_eq!(lexer.next_token(), Token::Eof);
    assert_eq!(tokenize("\""), vec![Token::String(String::new())]);
}

#[test]
fn parser_takes_two_tokens() {
    let parser = Parser::new(lexer("let 1"));
    assert_eq!(parser.cur_token, Token::Let);
    assert_eq!(parser.next_token, Token::Int("1".to_string()));
    let mut rest = parser.lexer;
    assert_eq!(rest.next_token(), Token::Eof);
}

#[test]
fn parser_on_short_input() {
    let parser = Parser::new(lexer("x"));
    assert_eq!(parser.cur_token, Token::Ident("x".to_string()));
    assert_eq!(parser.next_token, Token::Eof);
}
