//! The DROP TABLE grammar.

use vstd::prelude::*;

use crate::ast::{DropStatement, SQLStatement, StatementV};
use crate::parser::parser::{ErrorKind, ParserError, SimpleParser};
use crate::token::{Token, TokenV};

verus! {

broadcast use SimpleParser::lemma_pos_nonneg;

/// The grammar `DROP TABLE Identifier ';'` at position `i`: the statement it
/// derives, or `None` when the tokens from `i` match no such statement.
pub open spec fn spec_parse_drop(ts: Seq<TokenV>, i: int) -> Option<StatementV> {
    if i >= 0 && i + 3 < ts.len() && ts[i] == TokenV::Drop && ts[i + 1] == TokenV::Table && ts[i
        + 3] == TokenV::Semicolon {
        match ts[i + 2] {
            TokenV::Identifier(tn) => Some(StatementV::DropTable { table_name: tn }),
            _ => None,
        }
    } else {
        None
    }
}

/// The grammar parser for DROP TABLE.
pub struct DropStatementParser;

impl DropStatementParser {
    /// Consumes one DROP TABLE statement from the cursor and returns its
    /// statement tree, or a parse error when the tokens at the cursor match
    /// no DROP TABLE statement.
    pub fn parse(parser: &mut SimpleParser) -> (r: Result<SQLStatement, ParserError>)
        ensures
            final(parser).toks() == old(parser).toks(),
            match r {
                Ok(st) => Some(st@) == spec_parse_drop(old(parser).toks(), old(parser).pos()),
                Err(e) => spec_parse_drop(old(parser).toks(), old(parser).pos()) is None && e.kind
                    == ErrorKind::Parse,
            },
    {
        match parser.next_token() {
            Some(Token::Drop) => {},
            _ => {
                return Err(ParserError::cause("expected DROP"));
            },
        }
        match parser.next_token() {
            Some(Token::Table) => {},
            _ => {
                return Err(ParserError::cause("expected TABLE after DROP"));
            },
        }
        let table_name = match parser.next_token() {
            Some(Token::Identifier(s)) => s,
            _ => {
                return Err(ParserError::cause("expected a table name after DROP TABLE"));
            },
        };
        match parser.next_token() {
            Some(Token::Semicolon) => {},
            _ => {
                return Err(ParserError::cause("expected ';' to end DROP TABLE"));
            },
        }
        Ok(SQLStatement::DropTable(DropStatement::new(table_name)))
    }
}

} // verus!
