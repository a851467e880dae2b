use sqlfront::ast::{SQLStatement, SelectStatement};
use sqlfront::parser::create_table::CreateStatementParser;
use sqlfront::parser::delete::DeleteStatementParser;
use sqlfront::parser::drop_table::DropStatementParser;
use sqlfront::parser::insert::InsertStatementParser;
use sqlfront::parser::parser::{ParserError, SimpleParser};
use sqlfront::parser::select::SelectStatementParser;
use sqlfront::parser::update::UpdateStatementParser;
use sqlfront::token::Token;

#[test]
fn create_table_test() {
    let tokens = vec![
        Token::Create,
        Token::Table,
        Token::Identifier("my_table".to_string()),
        Token::LeftParen,
        Token::Identifier("id".to_string()),
        Token::Comma,
        Token::Identifier("name".to_string()),
        Token::RightParen,
        Token::Semicolon,
    ];
    let mut parser = SimpleParser::new(tokens);
    let ast: Result<SQLStatement, ParserError> = CreateStatementParser::parse(&mut parser);
    println!("{:?}", ast.unwrap());
}

#[test]
fn drop_table_test() {
    let tokens = vec![
        Token::Drop,
        Token::Table,
        Token::Identifier("my_table".to_string()),
        Token::Semicolon,
    ];
    let mut parser = SimpleParser::new(tokens);
    let ast: Result<SQLStatement, ParserError> = DropStatementParser::parse(&mut parser);
    println!("{:?}", ast.unwrap());
}

#[test]
fn delete_test() {
    let tokens = vec![
        Token::Delete,
        Token::From,
        Token::Identifier("my_table".to_string()),
        Token::Semicolon,
    ];
    let mut parser = SimpleParser::new(tokens);
    let ast: Result<SQLStatement, ParserError> = DeleteStatementParser::parse(&mut parser);
    println!("{:?}", ast.unwrap());
}

#[test]
fn test2() {
    let tokens = vec![
        Token::Delete,
        Token::From,
        Token::Identifier("my_table".to_string()),
        Token::Where,
        Token::Identifier("column_name".to_string()),
        Token::Equal,
        Token::StringLiteral("value".to_string()),
        Token::Semicolon,
    ];
    let mut parser = SimpleParser::new(tokens);
    let ast: Result<SQLStatement, ParserError> = DeleteStatementParser::parse(&mut parser);
    println!("{:?}", ast.unwrap());
}

#[test]
fn insert_test() {
    let tokens = vec![
        Token::Insert,
        Token::Into,
        Token::Identifier("my_table".to_string()),
        Token::LeftParen,
        Token::Identifier("id".to_string()),
        Token::Comma,
        Token::Identifier("name".to_string()),
        Token::RightParen,
        Token::Values,
        Token::LeftParen,
        Token::StringLiteral("id value".to_string()),
        Token::Comma,
        Token::StringLiteral("name value".to_string()),
        Token::RightParen,
        Token::Semicolon,
    ];
    let mut parser = SimpleParser::new(tokens);
    let ast: Result<SQLStatement, ParserError> = InsertStatementParser::parse(&mut parser);
    println!("{:?}", ast.unwrap());
}

#[test]
fn test_select_parser() {
    let test_cases = vec![
        (
            vec![
                Token::Select,
                Token::Identifier("column1".to_string()),
                Token::Comma,
                Token::Identifier("column2".to_string()),
                Token::From,
                Token::Identifier("table_name".to_string()),
                Token::Semicolon,
            ],
            Ok(SQLStatement::Select(SelectStatement::new(
                "table_name".to_string(),
                vec!["column1".to_string(), "column2".to_string()],
            ))),
        ),
        (
            vec![
                Token::Select,
                Token::Identifier("column3".to_string()),
                Token::From,
                Token::Identifier("another_table".to_string()),
                Token::Semicolon,
            ],
            Ok(SQLStatement::Select(SelectStatement::new(
                "another_table".to_string(),
                vec!["column3".to_string()],
            ))),
        ),
        (
            vec![
                Token::Select,
                Token::Identifier("column1".to_string()),
                Token::Comma,
                Token::Identifier("column4".to_string()),
                Token::Comma,
                Token::Identifier("column5".to_string()),
                Token::From,
                Token::Identifier("table_name".to_string()),
                Token::Semicolon,
            ],
            Ok(SQLStatement::Select(SelectStatement::new(
                "table_name".to_string(),
                vec![
                    "column1".to_string(),
                    "column4".to_string(),
                    "column5".to_string(),
                ],
            ))),
        ),
    ];

    for (tokens, expected) in test_cases {
        let mut parser = SimpleParser::new(tokens);
        let result: Result<SQLStatement, ParserError> = SelectStatementParser::parse(&mut parser);
        assert_eq!(result, expected);
        println!("{:?}", result.unwrap());
    }
}

#[test]
fn update_test() {
    let test_cases = vec![
        vec![
            Token::Update,
            Token::Identifier("my_table".to_string()),
            Token::SetKw,
            Token::Identifier("name".to_string()),
            Token::Equal,
            Token::StringLiteral("name_value".to_string()),
            Token::Comma,
            Token::Identifier("city".to_string()),
            Token::Equal,
            Token::StringLiteral("city_value".to_string()),
            Token::Where,
            Token::Identifier("id".to_string()),
            Token::Equal,
            Token::NumericLiteral("1".to_string()),
            Token::Semicolon,
        ],
        vec![
            Token::Update,
            Token::Identifier("my_table".to_string()),
            Token::SetKw,
            Token::Identifier("name".to_string()),
            Token::Equal,
            Token::StringLiteral("name_value".to_string()),
            Token::Comma,
            Token::Identifier("city".to_string()),
            Token::Equal,
            Token::StringLiteral("city_value".to_string()),
            Token::Semicolon,
        ],
        vec![
            Token::Update,
            Token::Identifier("my_table".to_string()),
            Token::SetKw,
            Token::Identifier("name".to_string()),
            Token::Equal,
            Token::StringLiteral("name_value".to_string()),
            Token::Where,
            Token::Identifier("id".to_string()),
            Token::Equal,
            Token::StringLiteral("uuid".to_string()),
            Token::Semicolon,
        ],
    ];
    for tokens in test_cases {
        let mut parser = SimpleParser::new(tokens);
        let ast: Result<SQLStatement, ParserError> = UpdateStatementParser::parse(&mut parser);
        println!("{:?}", ast.unwrap());
    }
}
