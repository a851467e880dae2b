//! The CREATE TABLE grammar.

use vstd::prelude::*;

use crate::ast::{ColumnDefinition, CreateStatement, SQLStatement, StatementV};
use crate::parser::parser::{
    spec_ident_list, parse_ident_list, ErrorKind, ParserError, SimpleParser,
};
use crate::token::{Token, TokenV};

verus! {

broadcast use SimpleParser::lemma_pos_nonneg;

/// The grammar `CREATE TABLE Identifier '(' Identifier (',' Identifier)* ')' ';'`
/// at position `i`: the statement it derives, or `None` when the tokens from
/// `i` match no such statement.
pub open spec fn spec_parse_create(ts: Seq<TokenV>, i: int) -> Option<StatementV> {
    if i >= 0 && i + 3 < ts.len() && ts[i] == TokenV::Create && ts[i + 1] == TokenV::Table && ts[i
        + 3] == TokenV::LeftParen {
        match ts[i + 2] {
            TokenV::Identifier(tn) => match spec_ident_list(ts, i + 4) {
                Some((cols, j)) => {
                    if j + 1 < ts.len() && ts[j] == TokenV::RightParen && ts[j + 1]
                        == TokenV::Semicolon {
                        Some(StatementV::CreateTable { table_name: tn, columns: cols })
                    } else {
                        None
                    }
                },
                None => None,
            },
            _ => None,
        }
    } else {
        None
    }
}

/// The grammar parser for CREATE TABLE.
pub struct CreateStatementParser;

impl CreateStatementParser {
    /// Consumes one CREATE TABLE statement from the cursor and returns its
    /// statement tree, or a parse error when the tokens at the cursor match
    /// no CREATE TABLE statement.
    pub fn parse(parser: &mut SimpleParser) -> (r: Result<SQLStatement, ParserError>)
        ensures
            final(parser).toks() == old(parser).toks(),
            match r {
                Ok(st) => Some(st@) == spec_parse_create(old(parser).toks(), old(parser).pos()),
                Err(e) => spec_parse_create(old(parser).toks(), old(parser).pos()) is None
                    && e.kind == ErrorKind::Parse,
            },
    {
        match parser.next_token() {
            Some(Token::Create) => {},
            _ => {
                return Err(ParserError::cause("expected CREATE"));
            },
        }
        match parser.next_token() {
            Some(Token::Table) => {},
            _ => {
                return Err(ParserError::cause("expected TABLE after CREATE"));
            },
        }
        let table_name = match parser.next_token() {
            Some(Token::Identifier(s)) => s,
            _ => {
                return Err(ParserError::cause("expected a table name after CREATE TABLE"));
            },
        };
        match parser.next_token() {
            Some(Token::LeftParen) => {},
            _ => {
                return Err(ParserError::cause("expected '(' before the column list"));
            },
        }
        let ids = match parse_ident_list(parser) {
            Ok(v) => v,
            Err(e) => {
                return Err(e);
            },
        };
        match parser.next_token() {
            Some(Token::RightParen) => {},
            _ => {
                return Err(ParserError::cause("expected ')' after the column list"));
            },
        }
        match parser.next_token() {
            Some(Token::Semicolon) => {},
            _ => {
                return Err(ParserError::cause("expected ';' to end CREATE TABLE"));
            },
        }
        let mut columns: Vec<ColumnDefinition> = Vec::new();
        let mut k: usize = 0;
        while k < ids.len()
            invariant
                k <= ids.len(),
                columns@.len() == k,
                forall|i: int| 0 <= i < k ==> columns@[i]@ == ids@[i]@,
            decreases ids.len() - k,
        {
            let name = ids[k].clone();
            columns.push(ColumnDefinition::new(name));
            k = k + 1;
        }
        proof {
            assert(columns.deep_view() =~= ids.deep_view());
        }
        Ok(SQLStatement::CreateTable(CreateStatement::new(table_name, columns)))
    }
}

} // verus!
