//! The DELETE grammar.

use vstd::prelude::*;

use crate::ast::{DeleteStatement, SQLStatement, StatementV, WhereClause};
use crate::parser::parser::{
    parse_predicate, spec_predicate, ErrorKind, ParserError, SimpleParser,
};
use crate::token::{Token, TokenV};

verus! {

broadcast use SimpleParser::lemma_pos_nonneg;

/// The grammar `DELETE FROM Identifier (WHERE Identifier '=' Literal)? ';'`
/// at position `i`: the statement it derives, or `None` when the tokens from
/// `i` match no such statement.
pub open spec fn spec_parse_delete(ts: Seq<TokenV>, i: int) -> Option<StatementV> {
    if i < 0 || i + 2 >= ts.len() || ts[i] != TokenV::Delete || ts[i + 1] != TokenV::From {
        None
    } else {
        match ts[i + 2] {
            TokenV::Identifier(tn) => {
                if i + 3 < ts.len() && ts[i + 3] == TokenV::Semicolon {
                    Some(StatementV::Delete { table_name: tn, where_clause: None })
                } else {
                    match spec_predicate(ts, i + 3) {
                        Some((e, k)) => {
                            if k < ts.len() && ts[k] == TokenV::Semicolon {
                                Some(StatementV::Delete { table_name: tn, where_clause: Some(e) })
                            } else {
                                None
                            }
                        },
                        None => None,
                    }
                }
            },
            _ => None,
        }
    }
}

/// The grammar parser for DELETE.
pub struct DeleteStatementParser;

impl DeleteStatementParser {
    /// Consumes one DELETE statement from the cursor and returns its
    /// statement tree, or a parse error when the tokens at the cursor match
    /// no DELETE statement.
    pub fn parse(parser: &mut SimpleParser) -> (r: Result<SQLStatement, ParserError>)
        ensures
            final(parser).toks() == old(parser).toks(),
            match r {
                Ok(st) => Some(st@) == spec_parse_delete(old(parser).toks(), old(parser).pos()),
                Err(e) => spec_parse_delete(old(parser).toks(), old(parser).pos()) is None
                    && e.kind == ErrorKind::Parse,
            },
    {
        match parser.next_token() {
            Some(Token::Delete) => {},
            _ => {
                return Err(ParserError::cause("expected DELETE"));
            },
        }
        match parser.next_token() {
            Some(Token::From) => {},
            _ => {
                return Err(ParserError::cause("expected FROM after DELETE"));
            },
        }
        let table_name = match parser.next_token() {
            Some(Token::Identifier(s)) => s,
            _ => {
                return Err(ParserError::cause("expected a table name after DELETE FROM"));
            },
        };
        let semi = match parser.peek_token() {
            Some(Token::Semicolon) => true,
            _ => false,
        };
        if semi {
            parser.consume_token();
            return Ok(SQLStatement::Delete(DeleteStatement::new(table_name, None)));
        }
        let condition = match parse_predicate(parser) {
            Ok(e) => e,
            Err(e) => {
                return Err(e);
            },
        };
        match parser.next_token() {
            Some(Token::Semicolon) => {},
            _ => {
                return Err(ParserError::cause("expected ';' to end DELETE"));
            },
        }
        Ok(
            SQLStatement::Delete(
                DeleteStatement::new(table_name, Some(WhereClause::new(condition))),
            ),
        )
    }
}

} // verus!
