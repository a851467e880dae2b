use std::hint::black_box;
use std::time::Instant;

use sqlfront::lexer::SimpleLexer;
use sqlfront::token::Token;

#[test]
fn ptest_read() {
    let start = Instant::now();
    for _ in 0..1_000_000 {
        let mut lexer = SimpleLexer::new("1234567890123456789012345678901234567890123456789012345678901234567890123456789012345678901234567890".to_string());
        let mut reulst_vec = Vec::new();
        for _ in 0..100 {
            lexer.read_char();
            let c = lexer.ch;
            black_box(reulst_vec.push(c));
        }
    }
    println!("FINSIH: {:?}", start.elapsed());
}

#[test]
fn test_tokenize() {
    let test_cases: Vec<(String, Vec<Token>)> = vec![
        (
            "SELECT * FROM table_name WHERE column_name = 'value';".to_owned(),
            vec![
                Token::Select,
                Token::Asterisk,
                Token::From,
                Token::Identifier("table_name".to_string()),
                Token::Where,
                Token::Identifier("column_name".to_string()),
                Token::Equal,
                Token::StringLiteral("value".to_string()),
                Token::Semicolon,
                Token::EOF,
            ],
        ),
        (
            "var_name = 123;".to_owned(),
            vec![
                Token::Identifier("var_name".to_string()),
                Token::Equal,
                Token::NumericLiteral("123".to_string()),
                Token::Semicolon,
                Token::EOF,
            ],
        ),
        (
            "CREATE TABLE users (id, name);".to_owned(),
            vec![
                Token::Create,
                Token::Table,
                Token::Identifier("users".to_string()),
                Token::LeftParen,
                Token::Identifier("id".to_string()),
                Token::Comma,
                Token::Identifier("name".to_string()),
                Token::RightParen,
                Token::Semicolon,
                Token::EOF,
            ],
        ),
        (
            "SELECT * FROM users;".to_owned(),
            vec![
                Token::Select,
                Token::Asterisk,
                Token::From,
                Token::Identifier("users".to_string()),
                Token::Semicolon,
                Token::EOF,
            ],
        ),
        (
            "UPDATE users SET name = 'John Doe' WHERE id = 1;".to_owned(),
            vec![
                Token::Update,
                Token::Identifier("users".to_string()),
                Token::SetKw,
                Token::Identifier("name".to_string()),
                Token::Equal,
                Token::StringLiteral("John Doe".to_string()),
                Token::Where,
                Token::Identifier("id".to_string()),
                Token::Equal,
                Token::NumericLiteral("1".to_string()),
                Token::Semicolon,
                Token::EOF,
            ],
        ),
        (
            "DELETE FROM users WHERE id = 1;".to_owned(),
            vec![
                Token::Delete,
                Token::From,
                Token::Identifier("users".to_string()),
                Token::Where,
                Token::Identifier("id".to_string()),
                Token::Equal,
                Token::NumericLiteral("1".to_string()),
                Token::Semicolon,
                Token::EOF,
            ],
        ),
        (
            "INSERT INTO table_name (column1, column2) VALUES ('value1', 123);".to_owned(),
            vec![
                Token::Insert,
                Token::Into,
                Token::Identifier("table_name".to_string()),
                Token::LeftParen,
                Token::Identifier("column1".to_string()),
                Token::Comma,
                Token::Identifier("column2".to_string()),
                Token::RightParen,
                Token::Values,
                Token::LeftParen,
                Token::StringLiteral("value1".to_string()),
                Token::Comma,
                Token::NumericLiteral("123".to_string()),
                Token::RightParen,
                Token::Semicolon,
                Token::EOF,
            ],
        ),
        (
            "SELECT column1 FROM table_name;".to_owned(),
            vec![
                Token::Select,
                Token::Identifier("column1".to_string()),
                Token::From,
                Token::Identifier("table_name".to_string()),
                Token::Semicolon,
                Token::EOF,
            ],
        ),
        (
            "UPDATE table_name SET column1 = 'new_value' WHERE column2 = 123;".to_owned(),
            vec![
                Token::Update,
                Token::Identifier("table_name".to_string()),
                Token::SetKw,
                Token::Identifier("column1".to_string()),
                Token::Equal,
                Token::StringLiteral("new_value".to_string()),
                Token::Where,
                Token::Identifier("column2".to_string()),
                Token::Equal,
                Token::NumericLiteral("123".to_string()),
                Token::Semicolon,
                Token::EOF,
            ],
        ),
        (
            "DELETE FROM table_name WHERE column1 = 'value1';".to_owned(),
            vec![
                Token::Delete,
                Token::From,
                Token::Identifier("table_name".to_string()),
                Token::Where,
                Token::Identifier("column1".to_string()),
                Token::Equal,
                Token::StringLiteral("value1".to_string()),
                Token::Semicolon,
                Token::EOF,
            ],
        ),
    ];
    let mut case_num = 0;
    for (input, expected_tokens) in test_cases {
        case_num += 1;
        println!("case: {}", case_num);
        let mut lexer = SimpleLexer::new(input);
        for expected in expected_tokens {
            let token = lexer.next_token().unwrap();
            assert_eq!(expected, token);
        }
    }
}
