//! The SELECT grammar.

use vstd::prelude::*;

use crate::ast::{SQLStatement, SelectStatement, StatementV};
use crate::parser::parser::{
    parse_ident_list, spec_ident_list, ErrorKind, ParserError, SimpleParser,
};
use crate::token::{Token, TokenV};

verus! {

broadcast use SimpleParser::lemma_pos_nonneg;

/// The `FROM Identifier ';'` tail that both SELECT forms share, with the
/// column list already read.
pub open spec fn spec_select_from(ts: Seq<TokenV>, j: int, cols: Seq<Seq<char>>) -> Option<
    StatementV,
> {
    if j >= 0 && j + 2 < ts.len() && ts[j] == TokenV::From && ts[j + 2] == TokenV::Semicolon {
        match ts[j + 1] {
            TokenV::Identifier(tn) => Some(StatementV::Select { table_name: tn, columns: cols }),
            _ => None,
        }
    } else {
        None
    }
}

/// The grammar `SELECT ('*' | Identifier (',' Identifier)*) FROM Identifier ';'`
/// at position `i`; the `'*'` form yields an empty column list.
pub open spec fn spec_parse_select(ts: Seq<TokenV>, i: int) -> Option<StatementV> {
    if i < 0 || i >= ts.len() || ts[i] != TokenV::Select {
        None
    } else if i + 1 < ts.len() && ts[i + 1] == TokenV::Asterisk {
        spec_select_from(ts, i + 2, Seq::empty())
    } else {
        match spec_ident_list(ts, i + 1) {
            Some((cols, j)) => spec_select_from(ts, j, cols),
            None => None,
        }
    }
}

/// The grammar parser for SELECT.
pub struct SelectStatementParser;

impl SelectStatementParser {
    /// Consumes one SELECT statement from the cursor and returns its
    /// statement tree, or a parse error when the tokens at the cursor match
    /// no SELECT statement.
    pub fn parse(parser: &mut SimpleParser) -> (r: Result<SQLStatement, ParserError>)
        ensures
            final(parser).toks() == old(parser).toks(),
            match r {
                Ok(st) => Some(st@) == spec_parse_select(old(parser).toks(), old(parser).pos()),
                Err(e) => spec_parse_select(old(parser).toks(), old(parser).pos()) is None
                    && e.kind == ErrorKind::Parse,
            },
    {
        match parser.next_token() {
            Some(Token::Select) => {},
            _ => {
                return Err(ParserError::cause("expected SELECT"));
            },
        }
        let star = match parser.peek_token() {
            Some(Token::Asterisk) => true,
            _ => false,
        };
        let columns: Vec<String>;
        if star {
            parser.consume_token();
            columns = Vec::new();
            proof {
                assert(columns.deep_view() =~= Seq::<Seq<char>>::empty());
            }
        } else {
            columns =
            match parse_ident_list(parser) {
                Ok(v) => v,
                Err(e) => {
                    return Err(e);
                },
            };
        }
        match parser.next_token() {
            Some(Token::From) => {},
            _ => {
                return Err(ParserError::cause("expected FROM after the column list"));
            },
        }
        let table_name = match parser.next_token() {
            Some(Token::Identifier(s)) => s,
            _ => {
                return Err(ParserError::cause("expected a table name after FROM"));
            },
        };
        match parser.next_token() {
            Some(Token::Semicolon) => {},
            _ => {
                return Err(ParserError::cause("expected ';' to end SELECT"));
            },
        }
        Ok(SQLStatement::Select(SelectStatement::new(table_name, columns)))
    }
}

} // verus!
