//! The UPDATE grammar.

use vstd::prelude::*;

use crate::ast::{SQLStatement, StatementV, UpdateStatement, WhereClause};
use crate::parser::parser::{
    parse_predicate, parse_set_clause_list, spec_predicate, spec_set_clause_list, ErrorKind,
    ParserError, SimpleParser,
};
use crate::token::{Token, TokenV};

verus! {

broadcast use SimpleParser::lemma_pos_nonneg;

/// The grammar
/// `UPDATE Identifier SET Identifier '=' Literal (',' Identifier '=' Literal)*
///  (WHERE Identifier '=' Literal)? ';'`
/// at position `i`: the statement it derives, or `None` when the tokens from
/// `i` match no such statement.
pub open spec fn spec_parse_update(ts: Seq<TokenV>, i: int) -> Option<StatementV> {
    if i < 0 || i + 2 >= ts.len() || ts[i] != TokenV::Update || ts[i + 2] != TokenV::SetKw {
        None
    } else {
        match ts[i + 1] {
            TokenV::Identifier(tn) => match spec_set_clause_list(ts, i + 3) {
                Some((scs, j)) => {
                    if j < ts.len() && ts[j] == TokenV::Semicolon {
                        Some(
                            StatementV::Update {
                                table_name: tn,
                                set_clauses: scs,
                                where_clause: None,
                            },
                        )
                    } else {
                        match spec_predicate(ts, j) {
                            Some((e, k)) => {
                                if k < ts.len() && ts[k] == TokenV::Semicolon {
                                    Some(
                                        StatementV::Update {
                                            table_name: tn,
                                            set_clauses: scs,
                                            where_clause: Some(e),
                                        },
                                    )
                                } else {
                                    None
                                }
                            },
                            None => None,
                        }
                    }
                },
                None => None,
            },
            _ => None,
        }
    }
}

/// The grammar parser for UPDATE.
pub struct UpdateStatementParser;

impl UpdateStatementParser {
    /// Consumes one UPDATE statement from the cursor and returns its
    /// statement tree, or a parse error when the tokens at the cursor match
    /// no UPDATE statement.
    pub fn parse(parser: &mut SimpleParser) -> (r: Result<SQLStatement, ParserError>)
        ensures
            final(parser).toks() == old(parser).toks(),
            match r {
                Ok(st) => Some(st@) == spec_parse_update(old(parser).toks(), old(parser).pos()),
                Err(e) => spec_parse_update(old(parser).toks(), old(parser).pos()) is None
                    && e.kind == ErrorKind::Parse,
            },
    {
        match parser.next_token() {
            Some(Token::Update) => {},
            _ => {
                return Err(ParserError::cause("expected UPDATE"));
            },
        }
        let table_name = match parser.next_token() {
            Some(Token::Identifier(s)) => s,
            _ => {
                return Err(ParserError::cause("expected a table name after UPDATE"));
            },
        };
        match parser.next_token() {
            Some(Token::SetKw) => {},
            _ => {
                return Err(ParserError::cause("expected SET after the table name"));
            },
        }
        let set_clauses = match parse_set_clause_list(parser) {
            Ok(v) => v,
            Err(e) => {
                return Err(e);
            },
        };
        let semi = match parser.peek_token() {
            Some(Token::Semicolon) => true,
            _ => false,
        };
        if semi {
            parser.consume_token();
            return Ok(SQLStatement::Update(UpdateStatement::new(table_name, set_clauses, None)));
        }
        let condition = match parse_predicate(parser) {
            Ok(e) => e,
            Err(e) => {
                return Err(e);
            },
        };
        match parser.next_token() {
            Some(Token::Semicolon) => {},
            _ => {
                return Err(ParserError::cause("expected ';' to end UPDATE"));
            },
        }
        Ok(
            SQLStatement::Update(
                UpdateStatement::new(table_name, set_clauses, Some(WhereClause::new(condition))),
            ),
        )
    }
}

} // verus!
