//! The INSERT grammar.

use vstd::prelude::*;

use crate::ast::{InsertStatement, SQLStatement, StatementV};
use crate::parser::parser::{
    parse_ident_list, parse_value_list, spec_ident_list, spec_value_list, ErrorKind, ParserError,
    SimpleParser,
};
use crate::token::{Token, TokenV};

verus! {

broadcast use SimpleParser::lemma_pos_nonneg;

/// The grammar
/// `INSERT INTO Identifier '(' Identifier (',' Identifier)* ')'
///  VALUES '(' Literal (',' Literal)* ')' ';'`
/// at position `i`: the statement it derives, or `None` when the tokens from
/// `i` match no such statement.
pub open spec fn spec_parse_insert(ts: Seq<TokenV>, i: int) -> Option<StatementV> {
    if i < 0 || i + 3 >= ts.len() || ts[i] != TokenV::Insert || ts[i + 1] != TokenV::Into || ts[i
        + 3] != TokenV::LeftParen {
        None
    } else {
        match ts[i + 2] {
            TokenV::Identifier(tn) => match spec_ident_list(ts, i + 4) {
                Some((cols, j)) => {
                    if j + 2 < ts.len() && ts[j] == TokenV::RightParen && ts[j + 1]
                        == TokenV::Values && ts[j + 2] == TokenV::LeftParen {
                        match spec_value_list(ts, j + 3) {
                            Some((vals, k)) => {
                                if k + 1 < ts.len() && ts[k] == TokenV::RightParen && ts[k + 1]
                                    == TokenV::Semicolon {
                                    Some(
                                        StatementV::Insert {
                                            table_name: tn,
                                            columns: cols,
                                            values: vals,
                                        },
                                    )
                                } else {
                                    None
                                }
                            },
                            None => None,
                        }
                    } else {
                        None
                    }
                },
                None => None,
            },
            _ => None,
        }
    }
}

/// The grammar parser for INSERT.
pub struct InsertStatementParser;

impl InsertStatementParser {
    /// Consumes one INSERT statement from the cursor and returns its
    /// statement tree, or a parse error when the tokens at the cursor match
    /// no INSERT statement.
    pub fn parse(parser: &mut SimpleParser) -> (r: Result<SQLStatement, ParserError>)
        ensures
            final(parser).toks() == old(parser).toks(),
            match r {
                Ok(st) => Some(st@) == spec_parse_insert(old(parser).toks(), old(parser).pos()),
                Err(e) => spec_parse_insert(old(parser).toks(), old(parser).pos()) is None
                    && e.kind == ErrorKind::Parse,
            },
    {
        match parser.next_token() {
            Some(Token::Insert) => {},
            _ => {
                return Err(ParserError::cause("expected INSERT"));
            },
        }
        match parser.next_token() {
            Some(Token::Into) => {},
            _ => {
                return Err(ParserError::cause("expected INTO after INSERT"));
            },
        }
        let table_name = match parser.next_token() {
            Some(Token::Identifier(s)) => s,
            _ => {
                return Err(ParserError::cause("expected a table name after INSERT INTO"));
            },
        };
        match parser.next_token() {
            Some(Token::LeftParen) => {},
            _ => {
                return Err(ParserError::cause("expected '(' before the column list"));
            },
        }
        let columns = match parse_ident_list(parser) {
            Ok(v) => v,
            Err(e) => {
                return Err(e);
            },
        };
        match parser.next_token() {
            Some(Token::RightParen) => {},
            _ => {
                return Err(ParserError::cause("expected ')' after the column list"));
            },
        }
        match parser.next_token() {
            Some(Token::Values) => {},
            _ => {
                return Err(ParserError::cause("expected VALUES after the column list"));
            },
        }
        match parser.next_token() {
            Some(Token::LeftParen) => {},
            _ => {
                return Err(ParserError::cause("expected '(' before the value list"));
            },
        }
        let values = match parse_value_list(parser) {
            Ok(v) => v,
            Err(e) => {
                return Err(e);
            },
        };
        match parser.next_token() {
            Some(Token::RightParen) => {},
            _ => {
                return Err(ParserError::cause("expected ')' after the value list"));
            },
        }
        match parser.next_token() {
            Some(Token::Semicolon) => {},
            _ => {
                return Err(ParserError::cause("expected ';' to end INSERT"));
            },
        }
        Ok(SQLStatement::Insert(InsertStatement::new(table_name, columns, values)))
    }
}

} // verus!
