//! A textual front end for a small SQL dialect: a lexer that turns a
//! statement string into a token sequence, and a recursive-descent parser
//! that turns the token sequence into a typed statement tree covering
//! CREATE TABLE, DROP TABLE, SELECT, INSERT, UPDATE and DELETE.

pub mod ast;
pub mod lexer;
pub mod token;
pub mod parser;
pub mod types;

use vstd::prelude::*;

use crate::ast::SQLStatement;
use crate::lexer::{spec_tokenize, SimpleLexer};
use crate::parser::parser::{
    parse_statement, spec_parse_statement, ErrorKind, ParserError, SimpleParser,
};

verus! {

/// Parses one SQL statement text end to end: the text is tokenized and the
/// token sequence is parsed, dispatching on the leading keyword.  The result
/// is exactly the statement the text denotes; a lexical error when the text
/// holds a malformed numeric literal, and a parse error when its token
/// sequence matches no statement grammar.
pub fn parse_sql(input: String) -> (r: Result<SQLStatement, ParserError>)
    ensures
        (match spec_tokenize(input@) {
            None => (match r {
                Ok(_) => false,
                Err(e) => e.kind == ErrorKind::Lexical,
            }),
            Some(toks) => (match spec_parse_statement(toks, 0) {
                Some(st) => (match r {
                    Ok(out) => out@ == st,
                    Err(_) => false,
                }),
                None => (match r {
                    Ok(_) => false,
                    Err(e) => e.kind == ErrorKind::Parse,
                }),
            }),
        }),
{
    let tokens = match SimpleLexer::tokenize(input) {
        Ok(v) => v,
        Err(e) => {
            return Err(e);
        },
    };
    let mut parser = SimpleParser::new(tokens);
    parse_statement(&mut parser)
}

} // verus!
