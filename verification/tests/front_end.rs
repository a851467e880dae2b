use sqlfront::ast::{
    ColumnDefinition, CreateStatement, DeleteStatement, Expression, InsertStatement,
    SQLStatement, UpdateStatement, SetClause, SelectStatement, Value, WhereClause,
};
use sqlfront::lexer::SimpleLexer;
use sqlfront::parse_sql;
use sqlfront::parser::parser::{parse_statement, ErrorKind, ParserError, SimpleParser};
use sqlfront::token::Token;
use sqlfront::types::DBError;

#[test]
fn tokenize_select_star_where() {
    let tokens =
        SimpleLexer::tokenize("SELECT * FROM table_name WHERE column_name = 'value';".to_string())
            .unwrap();
    assert_eq!(
        tokens,
        vec![
            Token::Select,
            Token::Asterisk,
            Token::From,
            Token::Identifier("table_name".to_string()),
            Token::Where,
            Token::Identifier("column_name".to_string()),
            Token::Equal,
            Token::StringLiteral("value".to_string()),
            Token::Semicolon,
        ]
    );
}

#[test]
fn tokenize_keywords_case_insensitive() {
    for word in ["select", "SeLeCt", "SELECT"] {
        let tokens = SimpleLexer::tokenize(format!("{} x;", word)).unwrap();
        assert_eq!(tokens[0], Token::Select);
    }
    // identifier text preserves the original casing
    let tokens = SimpleLexer::tokenize("Users".to_string()).unwrap();
    assert_eq!(tokens, vec![Token::Identifier("Users".to_string())]);
}

#[test]
fn tokenize_twice_is_idempotent() {
    let input = "UPDATE users SET name = 'John Doe' WHERE id = 1;";
    let first = SimpleLexer::tokenize(input.to_string()).unwrap();
    let second = SimpleLexer::tokenize(input.to_string()).unwrap();
    assert_eq!(first, second);
}

#[test]
fn tokenize_empty_input() {
    assert_eq!(SimpleLexer::tokenize(String::new()).unwrap(), vec![]);
}

#[test]
fn tokenize_unknown_character() {
    let tokens = SimpleLexer::tokenize("@ #".to_string()).unwrap();
    assert_eq!(tokens, vec![Token::Unknown('@'), Token::Unknown('#')]);
}

#[test]
fn tokenize_unterminated_string() {
    let tokens = SimpleLexer::tokenize("'abc".to_string()).unwrap();
    assert_eq!(tokens, vec![Token::StringLiteral("abc".to_string())]);
}

#[test]
fn tokenize_string_closed_by_other_quote() {
    let tokens = SimpleLexer::tokenize("\"abc'".to_string()).unwrap();
    assert_eq!(tokens, vec![Token::StringLiteral("abc".to_string())]);
}

#[test]
fn tokenize_numeric_with_one_point() {
    let tokens = SimpleLexer::tokenize("12.5 7.".to_string()).unwrap();
    assert_eq!(
        tokens,
        vec![
            Token::NumericLiteral("12.5".to_string()),
            Token::NumericLiteral("7.".to_string()),
        ]
    );
}

#[test]
fn tokenize_numeric_with_two_points_is_lexical_error() {
    let err = SimpleLexer::tokenize("1.2.3;".to_string()).unwrap_err();
    assert_eq!(err.kind, ErrorKind::Lexical);
}

#[test]
fn token_is_eof() {
    assert!(Token::EOF.is_eof());
    assert!(!Token::Semicolon.is_eof());
}

#[test]
fn parse_sql_create_table() {
    let ast = parse_sql("CREATE TABLE my_table (id, name);".to_string()).unwrap();
    assert_eq!(
        ast,
        SQLStatement::CreateTable(CreateStatement::new(
            "my_table".to_string(),
            vec![
                ColumnDefinition::new("id".to_string()),
                ColumnDefinition::new("name".to_string()),
            ],
        ))
    );
}

#[test]
fn parse_sql_drop_table() {
    let ast = parse_sql("DROP TABLE my_table;".to_string()).unwrap();
    assert_eq!(
        ast,
        SQLStatement::DropTable(sqlfront::ast::DropStatement::new("my_table".to_string()))
    );
}

#[test]
fn parse_sql_delete_without_predicate() {
    let ast = parse_sql("DELETE FROM my_table;".to_string()).unwrap();
    assert_eq!(
        ast,
        SQLStatement::Delete(DeleteStatement::new("my_table".to_string(), None))
    );
}

#[test]
fn parse_sql_delete_with_predicate() {
    let ast = parse_sql("DELETE FROM my_table WHERE column_name = 'value';".to_string()).unwrap();
    assert_eq!(
        ast,
        SQLStatement::Delete(DeleteStatement::new(
            "my_table".to_string(),
            Some(WhereClause::new(Expression::new(
                "column_name".to_string(),
                Value::StrValue("value".to_string()),
            ))),
        ))
    );
}

#[test]
fn parse_sql_insert_with_mixed_values() {
    let ast = parse_sql(
        "INSERT INTO table_name (column1, column2) VALUES ('value1', 123);".to_string(),
    )
    .unwrap();
    assert_eq!(
        ast,
        SQLStatement::Insert(InsertStatement::new(
            "table_name".to_string(),
            vec!["column1".to_string(), "column2".to_string()],
            vec![
                Value::StrValue("value1".to_string()),
                Value::NumValue("123".to_string()),
            ],
        ))
    );
}

#[test]
fn parse_sql_select_star_has_empty_columns() {
    let ast = parse_sql("SELECT * FROM users;".to_string()).unwrap();
    assert_eq!(
        ast,
        SQLStatement::Select(SelectStatement::new("users".to_string(), vec![]))
    );
}

#[test]
fn parse_sql_update_with_numeric_predicate() {
    let ast = parse_sql("UPDATE users SET name = 'John Doe' WHERE id = 1;".to_string()).unwrap();
    assert_eq!(
        ast,
        SQLStatement::Update(UpdateStatement::new(
            "users".to_string(),
            vec![SetClause::new(
                "name".to_string(),
                Value::StrValue("John Doe".to_string()),
            )],
            Some(WhereClause::new(Expression::new(
                "id".to_string(),
                Value::NumValue("1".to_string()),
            ))),
        ))
    );
}

#[test]
fn parse_sql_missing_delimiter_is_parse_error() {
    let err = parse_sql("CREATE TABLE t (a, b;".to_string()).unwrap_err();
    assert_eq!(err.kind, ErrorKind::Parse);
}

#[test]
fn parse_sql_lexical_error_reaches_caller() {
    let err = parse_sql("UPDATE t SET a = 1.2.3;".to_string()).unwrap_err();
    assert_eq!(err.kind, ErrorKind::Lexical);
}

#[test]
fn parse_sql_missing_semicolon_is_parse_error() {
    let err = parse_sql("DROP TABLE t".to_string()).unwrap_err();
    assert_eq!(err.kind, ErrorKind::Parse);
}

#[test]
fn parse_statement_rejects_unknown_leading_token() {
    let mut parser = SimpleParser::new(vec![Token::Semicolon]);
    let err = parse_statement(&mut parser).unwrap_err();
    assert_eq!(err.kind, ErrorKind::Parse);
}

#[test]
fn parse_statement_rejects_empty_input() {
    let mut parser = SimpleParser::new(vec![]);
    assert!(parse_statement(&mut parser).is_err());
}

#[test]
fn cursor_operations() {
    let mut parser = SimpleParser::new(vec![Token::Comma, Token::Asterisk]);
    assert_eq!(parser.peek_token(), Some(&Token::Comma));
    assert_eq!(parser.next_token(), Some(Token::Comma));
    assert!(parser.consume_token());
    assert_eq!(parser.next_token(), None);
    assert!(!parser.consume_token());
    assert_eq!(parser.peek_token(), None);
}

#[test]
fn tokenize_whitespace_only_input() {
    assert_eq!(SimpleLexer::tokenize("   \t\n  ".to_string()).unwrap(), vec![]);
}

#[test]
fn tokenize_mixed_whitespace_between_tokens() {
    let tokens = SimpleLexer::tokenize("SELECT\n\tx ;".to_string()).unwrap();
    assert_eq!(
        tokens,
        vec![
            Token::Select,
            Token::Identifier("x".to_string()),
            Token::Semicolon,
        ]
    );
}

#[test]
fn tokenize_identifier_with_underscore_and_digits() {
    let tokens = SimpleLexer::tokenize("a_1b2".to_string()).unwrap();
    assert_eq!(tokens, vec![Token::Identifier("a_1b2".to_string())]);
}

#[test]
fn error_messages_append_context() {
    let e = ParserError::cause("first").and_cause(" second");
    assert_eq!(e.kind, ErrorKind::Parse);
    assert_eq!(e.msg, "first second");
    let e2: ParserError = DBError::cause("base");
    let e2 = e2.and_cause(" more");
    assert_eq!(e2.msg, "base more");
    let e3 = ParserError::lexical("bad number");
    assert_eq!(e3.kind, ErrorKind::Lexical);
}
