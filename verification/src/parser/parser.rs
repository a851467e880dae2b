//! The parser cursor, the concrete error type, the shared comma-separated
//! sub-grammars, and the statement-kind dispatch.

use vstd::prelude::*;

use crate::ast::{SQLStatement, SetClause, Value, ValueV, SetClauseV, Expression, ExpressionV, StatementV};
use crate::parser::create_table::{spec_parse_create, CreateStatementParser};
use crate::parser::delete::{spec_parse_delete, DeleteStatementParser};
use crate::parser::drop_table::{spec_parse_drop, DropStatementParser};
use crate::parser::insert::{spec_parse_insert, InsertStatementParser};
use crate::parser::select::{spec_parse_select, spec_select_from, SelectStatementParser};
use crate::parser::update::{spec_parse_update, UpdateStatementParser};
use crate::token::{Token, TokenV};
use crate::types::DBError;
use vstd::string::StringExecFns;

verus! {

/// Which stage of the front end rejected the input.
#[derive(Debug, Clone, Copy, PartialEq, Eq, Structural)]
pub enum ErrorKind {
    /// A numeric literal was malformed (more than one decimal point, or a
    /// numeric character that opens no digit run).
    Lexical,
    /// An expected keyword, punctuation or identifier was absent at the
    /// current cursor position.
    Parse,
}

/// The concrete diagnostic carrier of the front end: an error kind and a
/// human-readable message that can be extended by appending further context.
#[derive(Debug, PartialEq)]
pub struct ParserError {
    pub kind: ErrorKind,
    pub msg: String,
}

impl ParserError {
    /// Creates a parse error from a first message.
    pub fn cause(msg: &str) -> (r: Self)
        ensures
            r.kind == ErrorKind::Parse,
            r.msg@ == msg@,
    {
        ParserError { kind: ErrorKind::Parse, msg: msg.to_owned() }
    }

    /// Creates a lexical error from a first message.
    pub fn lexical(msg: &str) -> (r: Self)
        ensures
            r.kind == ErrorKind::Lexical,
            r.msg@ == msg@,
    {
        ParserError { kind: ErrorKind::Lexical, msg: msg.to_owned() }
    }

    /// Appends additional context to the message, keeping the kind.
    pub fn and_cause(self, msg: &str) -> (r: Self)
        ensures
            r.kind == self.kind,
            r.msg@ == self.msg@ + msg@,
    {
        let mut out = self;
        out.msg.append(msg);
        out
    }
}

impl DBError for ParserError {
    fn cause(msg: &str) -> Self {
        ParserError::cause(msg)
    }

    fn and_cause(self, msg: &str) -> Self {
        ParserError::and_cause(self, msg)
    }
}

/// A stateful cursor over a token sequence, exposing exactly three
/// operations: peek, consume-and-return, and consume.
pub struct SimpleParser {
    tokens: Vec<Token>,
    position: usize,
}

impl SimpleParser {
    /// The token sequence under the cursor, as token images.
    pub closed spec fn toks(&self) -> Seq<TokenV> {
        self.tokens.deep_view()
    }

    /// The current cursor position.
    pub closed spec fn pos(&self) -> int {
        self.position as int
    }

    /// The cursor position is never negative.
    pub broadcast proof fn lemma_pos_nonneg(&self)
        ensures
            #[trigger] self.pos() >= 0,
    {
    }

    pub fn new(tokens: Vec<Token>) -> (r: Self)
        ensures
            r.toks() == tokens.deep_view(),
            r.pos() == 0,
    {
        SimpleParser { tokens, position: 0 }
    }

    /// Reads the current token, advances, and returns it; `None` past the end.
    pub fn next_token(&mut self) -> (r: Option<Token>)
        ensures
            final(self).toks() == old(self).toks(),
            match r {
                Some(t) => old(self).pos() < old(self).toks().len() && t@ == old(self).toks()[old(
                    self,
                ).pos()] && final(self).pos() == old(self).pos() + 1,
                None => old(self).pos() >= old(self).toks().len() && final(self).pos() == old(
                    self,
                ).pos(),
            },
    {
        if self.position < self.tokens.len() {
            let token = self.tokens[self.position].clone();
            assert(self.toks()[self.position as int] == self.tokens@[self.position as int]@);
            self.position = self.position + 1;
            Some(token)
        } else {
            None
        }
    }

    /// Reads the token at the current position without advancing; `None` past
    /// the end.
    pub fn peek_token(&self) -> (r: Option<&Token>)
        ensures
            match r {
                Some(t) => self.pos() < self.toks().len() && t@ == self.toks()[self.pos()],
                None => self.pos() >= self.toks().len(),
            },
    {
        if self.position < self.tokens.len() {
            assert(self.toks()[self.position as int] == self.tokens@[self.position as int]@);
            Some(&self.tokens[self.position])
        } else {
            None
        }
    }

    /// Advances one position without returning a value; reports whether
    /// advancement occurred.
    pub fn consume_token(&mut self) -> (r: bool)
        ensures
            final(self).toks() == old(self).toks(),
            r == (old(self).pos() < old(self).toks().len()),
            r ==> final(self).pos() == old(self).pos() + 1,
            !r ==> final(self).pos() == old(self).pos(),
    {
        if self.position < self.tokens.len() {
            self.position = self.position + 1;
            true
        } else {
            false
        }
    }
}

/// The literal a token denotes, if it denotes one.
pub open spec fn spec_literal(t: TokenV) -> Option<ValueV> {
    match t {
        TokenV::StringLiteral(s) => Some(ValueV::StrValue(s)),
        TokenV::NumericLiteral(s) => Some(ValueV::NumValue(s)),
        _ => None,
    }
}

/// The comma-separated identifier list sub-grammar `Identifier (',' Identifier)*`,
/// read greedily from position `i`: the identifiers in order and the position
/// just past the list, or `None` when no such list starts at `i`.
pub open spec fn spec_ident_list(ts: Seq<TokenV>, i: int) -> Option<(Seq<Seq<char>>, int)>
    decreases ts.len() - i,
{
    if i < 0 || i >= ts.len() {
        None
    } else {
        match ts[i] {
            TokenV::Identifier(name) => {
                if i + 1 < ts.len() && ts[i + 1] == TokenV::Comma {
                    match spec_ident_list(ts, i + 2) {
                        Some((rest, j)) => Some((seq![name] + rest, j)),
                        None => None,
                    }
                } else {
                    Some((seq![name], i + 1))
                }
            },
            _ => None,
        }
    }
}

/// The comma-separated literal list sub-grammar `Literal (',' Literal)*`.
pub open spec fn spec_value_list(ts: Seq<TokenV>, i: int) -> Option<(Seq<ValueV>, int)>
    decreases ts.len() - i,
{
    if i < 0 || i >= ts.len() {
        None
    } else {
        match spec_literal(ts[i]) {
            Some(v) => {
                if i + 1 < ts.len() && ts[i + 1] == TokenV::Comma {
                    match spec_value_list(ts, i + 2) {
                        Some((rest, j)) => Some((seq![v] + rest, j)),
                        None => None,
                    }
                } else {
                    Some((seq![v], i + 1))
                }
            },
            None => None,
        }
    }
}

/// The assignment list sub-grammar
/// `Identifier '=' Literal (',' Identifier '=' Literal)*`.
pub open spec fn spec_set_clause_list(ts: Seq<TokenV>, i: int) -> Option<(Seq<SetClauseV>, int)>
    decreases ts.len() - i,
{
    if i < 0 || i + 2 >= ts.len() {
        None
    } else {
        match (ts[i], spec_literal(ts[i + 2])) {
            (TokenV::Identifier(field), Some(v)) => {
                if ts[i + 1] == TokenV::Equal {
                    if i + 3 < ts.len() && ts[i + 3] == TokenV::Comma {
                        match spec_set_clause_list(ts, i + 4) {
                            Some((rest, j)) => Some(
                                (seq![SetClauseV { field, value: v }] + rest, j),
                            ),
                            None => None,
                        }
                    } else {
                        Some((seq![SetClauseV { field, value: v }], i + 3))
                    }
                } else {
                    None
                }
            },
            _ => None,
        }
    }
}

/// The equality-predicate sub-grammar `WHERE Identifier '=' Literal`.
pub open spec fn spec_predicate(ts: Seq<TokenV>, i: int) -> Option<(ExpressionV, int)> {
    if i < 0 || i + 3 >= ts.len() {
        None
    } else {
        match (ts[i], ts[i + 1], ts[i + 2], spec_literal(ts[i + 3])) {
            (TokenV::Where, TokenV::Identifier(column), TokenV::Equal, Some(v)) => Some(
                (ExpressionV { column, value: v }, i + 4),
            ),
            _ => None,
        }
    }
}

/// Reads one literal token and returns it as a `Value`.
pub fn next_literal(parser: &mut SimpleParser) -> (r: Result<Value, ParserError>)
    ensures
        final(parser).toks() == old(parser).toks(),
        match r {
            Ok(v) => old(parser).pos() < old(parser).toks().len() && spec_literal(
                old(parser).toks()[old(parser).pos()],
            ) == Some(v@) && final(parser).pos() == old(parser).pos() + 1,
            Err(e) => (old(parser).pos() >= old(parser).toks().len() || spec_literal(
                old(parser).toks()[old(parser).pos()],
            ) is None) && e.kind == ErrorKind::Parse,
        },
{
    match parser.next_token() {
        Some(Token::StringLiteral(s)) => Ok(Value::StrValue(s)),
        Some(Token::NumericLiteral(s)) => Ok(Value::NumValue(s)),
        _ => Err(ParserError::cause("expected a literal value")),
    }
}

/// Reads the comma-separated identifier list that starts at the cursor.
pub fn parse_ident_list(parser: &mut SimpleParser) -> (r: Result<Vec<String>, ParserError>)
    ensures
        final(parser).toks() == old(parser).toks(),
        match r {
            Ok(ids) => spec_ident_list(old(parser).toks(), old(parser).pos()) == Some(
                (ids.deep_view(), final(parser).pos()),
            ),
            Err(e) => spec_ident_list(old(parser).toks(), old(parser).pos()) is None && e.kind
                == ErrorKind::Parse,
        },
{
    let ghost ts = parser.toks();
    let ghost start = parser.pos();
    let mut ids: Vec<String> = Vec::new();
    proof {
        assert(ids.deep_view() =~= Seq::<Seq<char>>::empty());
        match spec_ident_list(ts, start) {
            Some((rest, j)) => {
                assert(ids.deep_view() + rest =~= rest);
            },
            None => {},
        }
    }
    loop
        invariant
            ts == old(parser).toks(),
            start == old(parser).pos(),
            parser.toks() == ts,
            (match spec_ident_list(ts, parser.pos()) {
                Some((rest, j)) => spec_ident_list(ts, start) == Some(
                    (ids.deep_view() + rest, j),
                ),
                None => spec_ident_list(ts, start) is None,
            }),
        decreases ts.len() - parser.pos(),
    {
        let ghost cur = parser.pos();
        let ghost dv0 = ids.deep_view();
        match parser.next_token() {
            Some(Token::Identifier(name)) => {
                let ghost namev = name@;
                ids.push(name);
                proof {
                    assert(ids.deep_view() =~= dv0 + seq![namev]);
                    assert(ts[cur] == TokenV::Identifier(namev));
                }
                let comma_next = match parser.peek_token() {
                    Some(Token::Comma) => true,
                    _ => false,
                };
                if comma_next {
                    parser.consume_token();
                    proof {
                        assert(ts[cur + 1] == TokenV::Comma);
                        match spec_ident_list(ts, cur + 2) {
                            Some((rest, j)) => {
                                assert(spec_ident_list(ts, cur) == Some(
                                    (seq![namev] + rest, j),
                                ));
                                assert(dv0 + (seq![namev] + rest) =~= (dv0 + seq![namev])
                                    + rest);
                            },
                            None => {
                                assert(spec_ident_list(ts, cur) is None);
                            },
                        }
                    }
                } else {
                    proof {
                        assert(spec_ident_list(ts, cur) == Some((seq![namev], cur + 1)));
                        assert(dv0 + seq![namev] =~= ids.deep_view());
                    }
                    return Ok(ids);
                }
            },
            _ => {
                return Err(ParserError::cause("expected an identifier"));
            },
        }
    }
}

/// Reads the comma-separated literal list that starts at the cursor.
pub fn parse_value_list(parser: &mut SimpleParser) -> (r: Result<Vec<Value>, ParserError>)
    ensures
        final(parser).toks() == old(parser).toks(),
        match r {
            Ok(vals) => spec_value_list(old(parser).toks(), old(parser).pos()) == Some(
                (vals.deep_view(), final(parser).pos()),
            ),
            Err(e) => spec_value_list(old(parser).toks(), old(parser).pos()) is None && e.kind
                == ErrorKind::Parse,
        },
{
    let ghost ts = parser.toks();
    let ghost start = parser.pos();
    let mut vals: Vec<Value> = Vec::new();
    proof {
        assert(vals.deep_view() =~= Seq::<ValueV>::empty());
        match spec_value_list(ts, start) {
            Some((rest, j)) => {
                assert(vals.deep_view() + rest =~= rest);
            },
            None => {},
        }
    }
    loop
        invariant
            ts == old(parser).toks(),
            start == old(parser).pos(),
            parser.toks() == ts,
            (match spec_value_list(ts, parser.pos()) {
                Some((rest, j)) => spec_value_list(ts, start) == Some(
                    (vals.deep_view() + rest, j),
                ),
                None => spec_value_list(ts, start) is None,
            }),
        decreases ts.len() - parser.pos(),
    {
        let ghost cur = parser.pos();
        let ghost dv0 = vals.deep_view();
        match next_literal(parser) {
            Ok(v) => {
                let ghost vv = v@;
                vals.push(v);
                proof {
                    assert(vals.deep_view() =~= dv0 + seq![vv]);
                    assert(spec_literal(ts[cur]) == Some(vv));
                }
                let comma_next = match parser.peek_token() {
                    Some(Token::Comma) => true,
                    _ => false,
                };
                if comma_next {
                    parser.consume_token();
                    proof {
                        assert(ts[cur + 1] == TokenV::Comma);
                        match spec_value_list(ts, cur + 2) {
                            Some((rest, j)) => {
                                assert(spec_value_list(ts, cur) == Some((seq![vv] + rest, j)));
                                assert(dv0 + (seq![vv] + rest) =~= (dv0 + seq![vv]) + rest);
                            },
                            None => {
                                assert(spec_value_list(ts, cur) is None);
                            },
                        }
                    }
                } else {
                    proof {
                        assert(spec_value_list(ts, cur) == Some((seq![vv], cur + 1)));
                        assert(dv0 + seq![vv] =~= vals.deep_view());
                    }
                    return Ok(vals);
                }
            },
            Err(e) => {
                return Err(e);
            },
        }
    }
}

/// Reads the comma-separated assignment list that starts at the cursor.
pub fn parse_set_clause_list(parser: &mut SimpleParser) -> (r: Result<
    Vec<SetClause>,
    ParserError,
>)
    ensures
        final(parser).toks() == old(parser).toks(),
        match r {
            Ok(clauses) => spec_set_clause_list(old(parser).toks(), old(parser).pos()) == Some(
                (clauses.deep_view(), final(parser).pos()),
            ),
            Err(e) => spec_set_clause_list(old(parser).toks(), old(parser).pos()) is None
                && e.kind == ErrorKind::Parse,
        },
{
    let ghost ts = parser.toks();
    let ghost start = parser.pos();
    let mut clauses: Vec<SetClause> = Vec::new();
    proof {
        assert(clauses.deep_view() =~= Seq::<SetClauseV>::empty());
        match spec_set_clause_list(ts, start) {
            Some((rest, j)) => {
                assert(clauses.deep_view() + rest =~= rest);
            },
            None => {},
        }
    }
    loop
        invariant
            ts == old(parser).toks(),
            start == old(parser).pos(),
            parser.toks() == ts,
            (match spec_set_clause_list(ts, parser.pos()) {
                Some((rest, j)) => spec_set_clause_list(ts, start) == Some(
                    (clauses.deep_view() + rest, j),
                ),
                None => spec_set_clause_list(ts, start) is None,
            }),
        decreases ts.len() - parser.pos(),
    {
        let ghost cur = parser.pos();
        let ghost dv0 = clauses.deep_view();
        let field = match parser.next_token() {
            Some(Token::Identifier(name)) => name,
            _ => {
                return Err(ParserError::cause("expected a column name"));
            },
        };
        let ghost fieldv = field@;
        match parser.next_token() {
            Some(Token::Equal) => {},
            _ => {
                return Err(ParserError::cause("expected '=' after the column name"));
            },
        }
        let v = match next_literal(parser) {
            Ok(v) => v,
            Err(e) => {
                return Err(e);
            },
        };
        let ghost vv = v@;
        let ghost item = (SetClauseV { field: fieldv, value: vv });
        clauses.push(SetClause::new(field, v));
        proof {
            assert(clauses.deep_view() =~= dv0 + seq![item]);
            assert(ts[cur] == TokenV::Identifier(fieldv));
            assert(ts[cur + 1] == TokenV::Equal);
            assert(spec_literal(ts[cur + 2]) == Some(vv));
        }
        let comma_next = match parser.peek_token() {
            Some(Token::Comma) => true,
            _ => false,
        };
        if comma_next {
            parser.consume_token();
            proof {
                assert(ts[cur + 3] == TokenV::Comma);
                match spec_set_clause_list(ts, cur + 4) {
                    Some((rest, j)) => {
                        assert(spec_set_clause_list(ts, cur) == Some((seq![item] + rest, j)));
                        assert(dv0 + (seq![item] + rest) =~= (dv0 + seq![item]) + rest);
                    },
                    None => {
                        assert(spec_set_clause_list(ts, cur) is None);
                    },
                }
            }
        } else {
            proof {
                assert(spec_set_clause_list(ts, cur) == Some((seq![item], cur + 3)));
                assert(dv0 + seq![item] =~= clauses.deep_view());
            }
            return Ok(clauses);
        }
    }
}

/// Reads one `WHERE Identifier '=' Literal` predicate that starts at the
/// cursor.
pub fn parse_predicate(parser: &mut SimpleParser) -> (r: Result<Expression, ParserError>)
    ensures
        final(parser).toks() == old(parser).toks(),
        match r {
            Ok(e) => spec_predicate(old(parser).toks(), old(parser).pos()) == Some(
                (e@, final(parser).pos()),
            ),
            Err(e) => spec_predicate(old(parser).toks(), old(parser).pos()) is None && e.kind
                == ErrorKind::Parse,
        },
{
    match parser.next_token() {
        Some(Token::Where) => {},
        _ => {
            return Err(ParserError::cause("expected WHERE"));
        },
    }
    let column = match parser.next_token() {
        Some(Token::Identifier(name)) => name,
        _ => {
            return Err(ParserError::cause("expected a column name after WHERE"));
        },
    };
    match parser.next_token() {
        Some(Token::Equal) => {},
        _ => {
            return Err(ParserError::cause("expected '=' in the WHERE predicate"));
        },
    }
    let v = match next_literal(parser) {
        Ok(v) => v,
        Err(e) => {
            return Err(e);
        },
    };
    Ok(Expression::new(column, v))
}

/// The token that carries a literal value.
pub open spec fn value_token(v: ValueV) -> TokenV {
    match v {
        ValueV::StrValue(s) => TokenV::StringLiteral(s),
        ValueV::NumValue(s) => TokenV::NumericLiteral(s),
    }
}

/// The canonical token run of a comma-separated identifier list.
pub open spec fn ident_list_tokens(ids: Seq<Seq<char>>) -> Seq<TokenV>
    decreases ids.len(),
{
    if ids.len() == 0 {
        Seq::empty()
    } else if ids.len() == 1 {
        seq![TokenV::Identifier(ids[0])]
    } else {
        seq![TokenV::Identifier(ids[0]), TokenV::Comma] + ident_list_tokens(ids.drop_first())
    }
}

/// The canonical token run of a comma-separated literal list.
pub open spec fn value_list_tokens(vals: Seq<ValueV>) -> Seq<TokenV>
    decreases vals.len(),
{
    if vals.len() == 0 {
        Seq::empty()
    } else if vals.len() == 1 {
        seq![value_token(vals[0])]
    } else {
        seq![value_token(vals[0]), TokenV::Comma] + value_list_tokens(vals.drop_first())
    }
}

/// The canonical token run of one assignment.
pub open spec fn set_clause_tokens(sc: SetClauseV) -> Seq<TokenV> {
    seq![TokenV::Identifier(sc.field), TokenV::Equal, value_token(sc.value)]
}

/// The canonical token run of a comma-separated assignment list.
pub open spec fn set_list_tokens(scs: Seq<SetClauseV>) -> Seq<TokenV>
    decreases scs.len(),
{
    if scs.len() == 0 {
        Seq::empty()
    } else if scs.len() == 1 {
        set_clause_tokens(scs[0])
    } else {
        set_clause_tokens(scs[0]) + seq![TokenV::Comma] + set_list_tokens(scs.drop_first())
    }
}

/// The canonical token run of an equality predicate.
pub open spec fn predicate_tokens(e: ExpressionV) -> Seq<TokenV> {
    seq![TokenV::Where, TokenV::Identifier(e.column), TokenV::Equal, value_token(e.value)]
}

pub proof fn lemma_ident_list_tokens_len(ids: Seq<Seq<char>>)
    ensures
        ids.len() == 0 ==> ident_list_tokens(ids).len() == 0,
        ids.len() >= 1 ==> ident_list_tokens(ids).len() == 2 * ids.len() - 1,
    decreases ids.len(),
{
    if ids.len() >= 2 {
        lemma_ident_list_tokens_len(ids.drop_first());
    }
}

pub proof fn lemma_value_list_tokens_len(vals: Seq<ValueV>)
    ensures
        vals.len() == 0 ==> value_list_tokens(vals).len() == 0,
        vals.len() >= 1 ==> value_list_tokens(vals).len() == 2 * vals.len() - 1,
    decreases vals.len(),
{
    if vals.len() >= 2 {
        lemma_value_list_tokens_len(vals.drop_first());
    }
}

pub proof fn lemma_set_list_tokens_len(scs: Seq<SetClauseV>)
    ensures
        scs.len() == 0 ==> set_list_tokens(scs).len() == 0,
        scs.len() >= 1 ==> set_list_tokens(scs).len() == 4 * scs.len() - 1,
    decreases scs.len(),
{
    if scs.len() >= 2 {
        lemma_set_list_tokens_len(scs.drop_first());
    }
}

/// An identifier list's canonical token run, laid inside a larger sequence
/// and not followed by a comma, is read back exactly, ending just past the
/// run.
pub proof fn lemma_ident_list_complete(ts: Seq<TokenV>, i: int, ids: Seq<Seq<char>>)
    requires
        ids.len() >= 1,
        0 <= i,
        i + ident_list_tokens(ids).len() <= ts.len(),
        ts.subrange(i, i + ident_list_tokens(ids).len()) == ident_list_tokens(ids),
        i + ident_list_tokens(ids).len() < ts.len() ==> ts[i + ident_list_tokens(ids).len()]
            != TokenV::Comma,
    ensures
        spec_ident_list(ts, i) == Some((ids, i + ident_list_tokens(ids).len())),
    decreases ids.len(),
{
    lemma_ident_list_tokens_len(ids);
    let l = ident_list_tokens(ids);
    assert(ts.subrange(i, i + l.len())[0] == ts[i]);
    if ids.len() == 1 {
        assert(l[0] == TokenV::Identifier(ids[0]));
        assert(ts[i] == TokenV::Identifier(ids[0]));
        assert(seq![ids[0]] =~= ids);
    } else {
        let rest = ident_list_tokens(ids.drop_first());
        lemma_ident_list_tokens_len(ids.drop_first());
        assert(ts.subrange(i, i + l.len())[1] == ts[i + 1]);
        assert(l[0] == TokenV::Identifier(ids[0]));
        assert(l[1] == TokenV::Comma);
        assert(ts[i] == TokenV::Identifier(ids[0]));
        assert(ts[i + 1] == TokenV::Comma);
        assert(ts.subrange(i + 2, i + 2 + rest.len()) =~= rest) by {
            assert forall|q: int| 0 <= q < rest.len() implies ts.subrange(
                i + 2,
                i + 2 + rest.len(),
            )[q] == rest[q] by {
                assert(ts.subrange(i + 2, i + 2 + rest.len())[q] == ts[i + 2 + q]);
                assert(ts.subrange(i, i + l.len())[2 + q] == ts[i + 2 + q]);
                assert(l[2 + q] == rest[q]);
            }
        }
        lemma_ident_list_complete(ts, i + 2, ids.drop_first());
        assert(seq![ids[0]] + ids.drop_first() =~= ids);
    }
}

/// A literal list's canonical token run, laid inside a larger sequence and
/// not followed by a comma, is read back exactly.
pub proof fn lemma_value_list_complete(ts: Seq<TokenV>, i: int, vals: Seq<ValueV>)
    requires
        vals.len() >= 1,
        0 <= i,
        i + value_list_tokens(vals).len() <= ts.len(),
        ts.subrange(i, i + value_list_tokens(vals).len()) == value_list_tokens(vals),
        i + value_list_tokens(vals).len() < ts.len() ==> ts[i + value_list_tokens(vals).len()]
            != TokenV::Comma,
    ensures
        spec_value_list(ts, i) == Some((vals, i + value_list_tokens(vals).len())),
    decreases vals.len(),
{
    lemma_value_list_tokens_len(vals);
    let l = value_list_tokens(vals);
    assert(ts.subrange(i, i + l.len())[0] == ts[i]);
    if vals.len() == 1 {
        assert(l[0] == value_token(vals[0]));
        assert(ts[i] == value_token(vals[0]));
        assert(spec_literal(value_token(vals[0])) == Some(vals[0]));
        assert(seq![vals[0]] =~= vals);
    } else {
        let rest = value_list_tokens(vals.drop_first());
        lemma_value_list_tokens_len(vals.drop_first());
        assert(ts.subrange(i, i + l.len())[1] == ts[i + 1]);
        assert(l[0] == value_token(vals[0]));
        assert(l[1] == TokenV::Comma);
        assert(ts[i] == value_token(vals[0]));
        assert(spec_literal(value_token(vals[0])) == Some(vals[0]));
        assert(ts[i + 1] == TokenV::Comma);
        assert(ts.subrange(i + 2, i + 2 + rest.len()) =~= rest) by {
            assert forall|q: int| 0 <= q < rest.len() implies ts.subrange(
                i + 2,
                i + 2 + rest.len(),
            )[q] == rest[q] by {
                assert(ts.subrange(i + 2, i + 2 + rest.len())[q] == ts[i + 2 + q]);
                assert(ts.subrange(i, i + l.len())[2 + q] == ts[i + 2 + q]);
                assert(l[2 + q] == rest[q]);
            }
        }
        lemma_value_list_complete(ts, i + 2, vals.drop_first());
        assert(seq![vals[0]] + vals.drop_first() =~= vals);
    }
}

/// An assignment list's canonical token run, laid inside a larger sequence
/// and not followed by a comma, is read back exactly.
pub proof fn lemma_set_list_complete(ts: Seq<TokenV>, i: int, scs: Seq<SetClauseV>)
    requires
        scs.len() >= 1,
        0 <= i,
        i + set_list_tokens(scs).len() <= ts.len(),
        ts.subrange(i, i + set_list_tokens(scs).len()) == set_list_tokens(scs),
        i + set_list_tokens(scs).len() < ts.len() ==> ts[i + set_list_tokens(scs).len()]
            != TokenV::Comma,
    ensures
        spec_set_clause_list(ts, i) == Some((scs, i + set_list_tokens(scs).len())),
    decreases scs.len(),
{
    lemma_set_list_tokens_len(scs);
    let l = set_list_tokens(scs);
    assert(ts.subrange(i, i + l.len())[0] == ts[i]);
    assert(ts.subrange(i, i + l.len())[1] == ts[i + 1]);
    assert(ts.subrange(i, i + l.len())[2] == ts[i + 2]);
    if scs.len() == 1 {
        assert(l[0] == TokenV::Identifier(scs[0].field));
        assert(l[1] == TokenV::Equal);
        assert(l[2] == value_token(scs[0].value));
        assert(ts[i] == TokenV::Identifier(scs[0].field));
        assert(ts[i + 1] == TokenV::Equal);
        assert(ts[i + 2] == value_token(scs[0].value));
        assert(spec_literal(value_token(scs[0].value)) == Some(scs[0].value));
        assert((SetClauseV { field: scs[0].field, value: scs[0].value }) == scs[0]);
        assert(seq![scs[0]] =~= scs);
    } else {
        let rest = set_list_tokens(scs.drop_first());
        lemma_set_list_tokens_len(scs.drop_first());
        assert(ts.subrange(i, i + l.len())[3] == ts[i + 3]);
        assert(l[0] == TokenV::Identifier(scs[0].field));
        assert(l[1] == TokenV::Equal);
        assert(l[2] == value_token(scs[0].value));
        assert(l[3] == TokenV::Comma);
        assert(ts[i] == TokenV::Identifier(scs[0].field));
        assert(ts[i + 1] == TokenV::Equal);
        assert(ts[i + 2] == value_token(scs[0].value));
        assert(spec_literal(value_token(scs[0].value)) == Some(scs[0].value));
        assert(ts[i + 3] == TokenV::Comma);
        assert(ts.subrange(i + 4, i + 4 + rest.len()) =~= rest) by {
            assert forall|q: int| 0 <= q < rest.len() implies ts.subrange(
                i + 4,
                i + 4 + rest.len(),
            )[q] == rest[q] by {
                assert(ts.subrange(i + 4, i + 4 + rest.len())[q] == ts[i + 4 + q]);
                assert(ts.subrange(i, i + l.len())[4 + q] == ts[i + 4 + q]);
                assert(l[4 + q] == rest[q]);
            }
        }
        lemma_set_list_complete(ts, i + 4, scs.drop_first());
        assert((SetClauseV { field: scs[0].field, value: scs[0].value }) == scs[0]);
        assert(seq![scs[0]] + scs.drop_first() =~= scs);
    }
}

/// A predicate's canonical token run, laid inside a larger sequence, is
/// read back exactly.
pub proof fn lemma_predicate_complete(ts: Seq<TokenV>, i: int, e: ExpressionV)
    requires
        0 <= i,
        i + 4 <= ts.len(),
        ts.subrange(i, i + 4) == predicate_tokens(e),
    ensures
        spec_predicate(ts, i) == Some((e, i + 4)),
{
    let l = predicate_tokens(e);
    assert(ts.subrange(i, i + 4)[0] == ts[i]);
    assert(ts.subrange(i, i + 4)[1] == ts[i + 1]);
    assert(ts.subrange(i, i + 4)[2] == ts[i + 2]);
    assert(ts.subrange(i, i + 4)[3] == ts[i + 3]);
    assert(l[0] == TokenV::Where);
    assert(l[1] == TokenV::Identifier(e.column));
    assert(l[2] == TokenV::Equal);
    assert(l[3] == value_token(e.value));
    assert(ts[i] == TokenV::Where);
    assert(ts[i + 1] == TokenV::Identifier(e.column));
    assert(ts[i + 2] == TokenV::Equal);
    assert(ts[i + 3] == value_token(e.value));
    assert(spec_literal(value_token(e.value)) == Some(e.value));
    assert((ExpressionV { column: e.column, value: e.value }) == e);
}

/// The canonical token sequence of a statement tree: the token run that the
/// grammars of the six statement kinds lay down for it, terminal `';'`
/// included.
pub open spec fn stmt_tokens(st: StatementV) -> Seq<TokenV> {
    match st {
        StatementV::CreateTable { table_name, columns } => seq![
            TokenV::Create,
            TokenV::Table,
            TokenV::Identifier(table_name),
            TokenV::LeftParen,
        ] + ident_list_tokens(columns) + seq![TokenV::RightParen, TokenV::Semicolon],
        StatementV::DropTable { table_name } => seq![
            TokenV::Drop,
            TokenV::Table,
            TokenV::Identifier(table_name),
            TokenV::Semicolon,
        ],
        StatementV::Select { table_name, columns } => seq![TokenV::Select] + (if columns.len()
            == 0 {
            seq![TokenV::Asterisk]
        } else {
            ident_list_tokens(columns)
        }) + seq![TokenV::From, TokenV::Identifier(table_name), TokenV::Semicolon],
        StatementV::Insert { table_name, columns, values } => seq![
            TokenV::Insert,
            TokenV::Into,
            TokenV::Identifier(table_name),
            TokenV::LeftParen,
        ] + ident_list_tokens(columns) + seq![
            TokenV::RightParen,
            TokenV::Values,
            TokenV::LeftParen,
        ] + value_list_tokens(values) + seq![TokenV::RightParen, TokenV::Semicolon],
        StatementV::Update { table_name, set_clauses, where_clause } => seq![
            TokenV::Update,
            TokenV::Identifier(table_name),
            TokenV::SetKw,
        ] + set_list_tokens(set_clauses) + (match where_clause {
            Some(e) => predicate_tokens(e),
            None => Seq::empty(),
        }) + seq![TokenV::Semicolon],
        StatementV::Delete { table_name, where_clause } => seq![
            TokenV::Delete,
            TokenV::From,
            TokenV::Identifier(table_name),
        ] + (match where_clause {
            Some(e) => predicate_tokens(e),
            None => Seq::empty(),
        }) + seq![TokenV::Semicolon],
    }
}

/// A statement tree the grammars can express: every comma-separated list it
/// holds is non-empty (an empty SELECT column list stands for `'*'` and is
/// always expressible).
pub open spec fn wf_stmt(st: StatementV) -> bool {
    match st {
        StatementV::CreateTable { table_name, columns } => columns.len() >= 1,
        StatementV::DropTable { table_name } => true,
        StatementV::Select { table_name, columns } => true,
        StatementV::Insert { table_name, columns, values } => columns.len() >= 1 && values.len()
            >= 1,
        StatementV::Update { table_name, set_clauses, where_clause } => set_clauses.len() >= 1,
        StatementV::Delete { table_name, where_clause } => true,
    }
}

/// The statement a token sequence derives from position `i`: the leading
/// keyword token selects which grammar applies; no other dispatch logic
/// exists.
pub open spec fn spec_parse_statement(ts: Seq<TokenV>, i: int) -> Option<StatementV> {
    if i < 0 || i >= ts.len() {
        None
    } else {
        match ts[i] {
            TokenV::Create => spec_parse_create(ts, i),
            TokenV::Drop => spec_parse_drop(ts, i),
            TokenV::Select => spec_parse_select(ts, i),
            TokenV::Insert => spec_parse_insert(ts, i),
            TokenV::Update => spec_parse_update(ts, i),
            TokenV::Delete => spec_parse_delete(ts, i),
            _ => None,
        }
    }
}

/// Consumes one statement from the cursor, dispatching on the leading
/// keyword, and returns its statement tree; a parse error when the tokens at
/// the cursor match no statement grammar.
pub fn parse_statement(parser: &mut SimpleParser) -> (r: Result<SQLStatement, ParserError>)
    ensures
        final(parser).toks() == old(parser).toks(),
        match r {
            Ok(st) => Some(st@) == spec_parse_statement(old(parser).toks(), old(parser).pos()),
            Err(e) => spec_parse_statement(old(parser).toks(), old(parser).pos()) is None
                && e.kind == ErrorKind::Parse,
        },
{
    let lead: u8 = match parser.peek_token() {
        Some(Token::Create) => 1,
        Some(Token::Drop) => 2,
        Some(Token::Select) => 3,
        Some(Token::Insert) => 4,
        Some(Token::Update) => 5,
        Some(Token::Delete) => 6,
        _ => 0,
    };
    if lead == 1 {
        CreateStatementParser::parse(parser)
    } else if lead == 2 {
        DropStatementParser::parse(parser)
    } else if lead == 3 {
        SelectStatementParser::parse(parser)
    } else if lead == 4 {
        InsertStatementParser::parse(parser)
    } else if lead == 5 {
        UpdateStatementParser::parse(parser)
    } else if lead == 6 {
        DeleteStatementParser::parse(parser)
    } else {
        Err(ParserError::cause("expected a statement keyword"))
    }
}

/// A CREATE TABLE tree with at least one column is parsed back exactly from
/// its canonical token sequence.
pub proof fn lemma_create_complete(table_name: Seq<char>, columns: Seq<Seq<char>>)
    requires
        columns.len() >= 1,
    ensures
        spec_parse_create(stmt_tokens(StatementV::CreateTable { table_name, columns }), 0)
            == Some(StatementV::CreateTable { table_name, columns }),
{
    let pre = seq![
        TokenV::Create,
        TokenV::Table,
        TokenV::Identifier(table_name),
        TokenV::LeftParen,
    ];
    let l = ident_list_tokens(columns);
    let post = seq![TokenV::RightParen, TokenV::Semicolon];
    let ts = stmt_tokens(StatementV::CreateTable { table_name, columns });
    lemma_ident_list_tokens_len(columns);
    let ln = l.len() as int;
    assert(ts == pre + l + post);
    assert(ts.len() == 6 + ln);
    assert(ts[0] == TokenV::Create);
    assert(ts[1] == TokenV::Table);
    assert(ts[2] == TokenV::Identifier(table_name));
    assert(ts[3] == TokenV::LeftParen);
    assert(ts[4 + ln] == TokenV::RightParen);
    assert(ts[5 + ln] == TokenV::Semicolon);
    assert(ts.subrange(4, 4 + ln) =~= l) by {
        assert forall|q: int| 0 <= q < ln implies ts.subrange(4, 4 + ln)[q] == l[q] by {
            assert(ts.subrange(4, 4 + ln)[q] == ts[4 + q]);
            assert(ts[4 + q] == l[q]);
        }
    }
    lemma_ident_list_complete(ts, 4, columns);
}

/// A DROP TABLE tree is parsed back exactly from its canonical token
/// sequence.
pub proof fn lemma_drop_complete(table_name: Seq<char>)
    ensures
        spec_parse_drop(stmt_tokens(StatementV::DropTable { table_name }), 0) == Some(
            StatementV::DropTable { table_name },
        ),
{
}

/// A SELECT tree is parsed back exactly from its canonical token sequence;
/// an empty column list takes the `'*'` form.
pub proof fn lemma_select_complete(table_name: Seq<char>, columns: Seq<Seq<char>>)
    ensures
        spec_parse_select(stmt_tokens(StatementV::Select { table_name, columns }), 0) == Some(
            StatementV::Select { table_name, columns },
        ),
{
    let mid = if columns.len() == 0 {
        seq![TokenV::Asterisk]
    } else {
        ident_list_tokens(columns)
    };
    let post = seq![TokenV::From, TokenV::Identifier(table_name), TokenV::Semicolon];
    let ts = stmt_tokens(StatementV::Select { table_name, columns });
    lemma_ident_list_tokens_len(columns);
    let ln = mid.len() as int;
    assert(ts == seq![TokenV::Select] + mid + post);
    assert(ts.len() == 4 + ln);
    assert(ts[0] == TokenV::Select);
    assert(ts[1 + ln] == TokenV::From);
    assert(ts[2 + ln] == TokenV::Identifier(table_name));
    assert(ts[3 + ln] == TokenV::Semicolon);
    if columns.len() == 0 {
        assert(ts[1] == TokenV::Asterisk);
        assert(spec_select_from(ts, 2, Seq::empty()) == Some(
            StatementV::Select { table_name, columns },
        ));
    } else {
        assert(ts[1] == mid[0]);
        assert(mid[0] == TokenV::Identifier(columns[0]));
        assert(ts.subrange(1, 1 + ln) =~= mid) by {
            assert forall|q: int| 0 <= q < ln implies ts.subrange(1, 1 + ln)[q] == mid[q] by {
                assert(ts.subrange(1, 1 + ln)[q] == ts[1 + q]);
                assert(ts[1 + q] == mid[q]);
            }
        }
        lemma_ident_list_complete(ts, 1, columns);
        assert(spec_select_from(ts, 1 + ln, columns) == Some(
            StatementV::Select { table_name, columns },
        ));
    }
}

/// An INSERT tree with at least one column and one value is parsed back
/// exactly from its canonical token sequence.
pub proof fn lemma_insert_complete(
    table_name: Seq<char>,
    columns: Seq<Seq<char>>,
    values: Seq<ValueV>,
)
    requires
        columns.len() >= 1,
        values.len() >= 1,
    ensures
        spec_parse_insert(stmt_tokens(StatementV::Insert { table_name, columns, values }), 0)
            == Some(StatementV::Insert { table_name, columns, values }),
{
    let pre = seq![
        TokenV::Insert,
        TokenV::Into,
        TokenV::Identifier(table_name),
        TokenV::LeftParen,
    ];
    let l = ident_list_tokens(columns);
    let mid = seq![TokenV::RightParen, TokenV::Values, TokenV::LeftParen];
    let vl = value_list_tokens(values);
    let post = seq![TokenV::RightParen, TokenV::Semicolon];
    let ts = stmt_tokens(StatementV::Insert { table_name, columns, values });
    lemma_ident_list_tokens_len(columns);
    lemma_value_list_tokens_len(values);
    let ln = l.len() as int;
    let vn = vl.len() as int;
    assert(ts == pre + l + mid + vl + post);
    assert(ts.len() == 9 + ln + vn);
    let j = 4 + ln;
    let k = j + 3 + vn;
    assert(ts[0] == TokenV::Insert);
    assert(ts[1] == TokenV::Into);
    assert(ts[2] == TokenV::Identifier(table_name));
    assert(ts[3] == TokenV::LeftParen);
    assert(ts[j] == TokenV::RightParen);
    assert(ts[j + 1] == TokenV::Values);
    assert(ts[j + 2] == TokenV::LeftParen);
    assert(ts[k] == TokenV::RightParen);
    assert(ts[k + 1] == TokenV::Semicolon);
    assert(ts.subrange(4, 4 + ln) =~= l) by {
        assert forall|q: int| 0 <= q < ln implies ts.subrange(4, 4 + ln)[q] == l[q] by {
            assert(ts.subrange(4, 4 + ln)[q] == ts[4 + q]);
            assert(ts[4 + q] == l[q]);
        }
    }
    lemma_ident_list_complete(ts, 4, columns);
    assert(ts.subrange(j + 3, j + 3 + vn) =~= vl) by {
        assert forall|q: int| 0 <= q < vn implies ts.subrange(j + 3, j + 3 + vn)[q] == vl[q] by {
            assert(ts.subrange(j + 3, j + 3 + vn)[q] == ts[j + 3 + q]);
            assert(ts[j + 3 + q] == vl[q]);
        }
    }
    lemma_value_list_complete(ts, j + 3, values);
}

/// An UPDATE tree with at least one assignment is parsed back exactly from
/// its canonical token sequence, with or without a predicate.
pub proof fn lemma_update_complete(
    table_name: Seq<char>,
    set_clauses: Seq<SetClauseV>,
    where_clause: Option<ExpressionV>,
)
    requires
        set_clauses.len() >= 1,
    ensures
        spec_parse_update(
            stmt_tokens(StatementV::Update { table_name, set_clauses, where_clause }),
            0,
        ) == Some(StatementV::Update { table_name, set_clauses, where_clause }),
{
    let pre = seq![TokenV::Update, TokenV::Identifier(table_name), TokenV::SetKw];
    let sl = set_list_tokens(set_clauses);
    let wpart = match where_clause {
        Some(e) => predicate_tokens(e),
        None => Seq::empty(),
    };
    let ts = stmt_tokens(StatementV::Update { table_name, set_clauses, where_clause });
    lemma_set_list_tokens_len(set_clauses);
    let sn = sl.len() as int;
    let wn = wpart.len() as int;
    assert(ts == pre + sl + wpart + seq![TokenV::Semicolon]);
    assert(ts.len() == 4 + sn + wn);
    let j = 3 + sn;
    assert(ts[0] == TokenV::Update);
    assert(ts[1] == TokenV::Identifier(table_name));
    assert(ts[2] == TokenV::SetKw);
    assert(ts[j + wn] == TokenV::Semicolon);
    assert(ts.subrange(3, 3 + sn) =~= sl) by {
        assert forall|q: int| 0 <= q < sn implies ts.subrange(3, 3 + sn)[q] == sl[q] by {
            assert(ts.subrange(3, 3 + sn)[q] == ts[3 + q]);
            assert(ts[3 + q] == sl[q]);
        }
    }
    match where_clause {
        None => {
            assert(ts[j] == TokenV::Semicolon);
            lemma_set_list_complete(ts, 3, set_clauses);
        },
        Some(e) => {
            assert(ts[j] == wpart[0]);
            assert(wpart[0] == TokenV::Where);
            lemma_set_list_complete(ts, 3, set_clauses);
            assert(ts.subrange(j, j + 4) =~= predicate_tokens(e)) by {
                assert forall|q: int| 0 <= q < 4 implies ts.subrange(j, j + 4)[q]
                    == predicate_tokens(e)[q] by {
                    assert(ts.subrange(j, j + 4)[q] == ts[j + q]);
                    assert(ts[j + q] == wpart[q]);
                }
            }
            lemma_predicate_complete(ts, j, e);
            assert(ts[j + 4] == TokenV::Semicolon);
        },
    }
}

/// A DELETE tree is parsed back exactly from its canonical token sequence,
/// with or without a predicate.
pub proof fn lemma_delete_complete(table_name: Seq<char>, where_clause: Option<ExpressionV>)
    ensures
        spec_parse_delete(stmt_tokens(StatementV::Delete { table_name, where_clause }), 0)
            == Some(StatementV::Delete { table_name, where_clause }),
{
    let pre = seq![TokenV::Delete, TokenV::From, TokenV::Identifier(table_name)];
    let wpart = match where_clause {
        Some(e) => predicate_tokens(e),
        None => Seq::empty(),
    };
    let ts = stmt_tokens(StatementV::Delete { table_name, where_clause });
    let wn = wpart.len() as int;
    assert(ts == pre + wpart + seq![TokenV::Semicolon]);
    assert(ts.len() == 4 + wn);
    assert(ts[0] == TokenV::Delete);
    assert(ts[1] == TokenV::From);
    assert(ts[2] == TokenV::Identifier(table_name));
    assert(ts[3 + wn] == TokenV::Semicolon);
    match where_clause {
        None => {
            assert(ts[3] == TokenV::Semicolon);
        },
        Some(e) => {
            assert(ts[3] == wpart[0]);
            assert(wpart[0] == TokenV::Where);
            assert(ts.subrange(3int, 7int) =~= predicate_tokens(e)) by {
                assert forall|q: int| 0 <= q < 4 implies ts.subrange(3int, 7int)[q]
                    == predicate_tokens(e)[q] by {
                    assert(ts.subrange(3int, 7int)[q] == ts[3 + q]);
                    assert(ts[3 + q] == wpart[q]);
                }
            }
            lemma_predicate_complete(ts, 3, e);
            assert(ts[7] == TokenV::Semicolon);
        },
    }
}

/// Completeness of the whole parser: every well-formed statement tree is
/// parsed back exactly from its canonical token sequence — the same table
/// name, column lists, value lists, assignments and predicate, in their
/// original order.
pub proof fn theorem_parse_complete(st: StatementV)
    requires
        wf_stmt(st),
    ensures
        spec_parse_statement(stmt_tokens(st), 0) == Some(st),
{
    let ts = stmt_tokens(st);
    match st {
        StatementV::CreateTable { table_name, columns } => {
            lemma_create_complete(table_name, columns);
            assert(ts[0] == TokenV::Create);
        },
        StatementV::DropTable { table_name } => {
            lemma_drop_complete(table_name);
            assert(ts[0] == TokenV::Drop);
        },
        StatementV::Select { table_name, columns } => {
            lemma_select_complete(table_name, columns);
            assert(ts[0] == TokenV::Select);
        },
        StatementV::Insert { table_name, columns, values } => {
            lemma_insert_complete(table_name, columns, values);
            assert(ts[0] == TokenV::Insert);
        },
        StatementV::Update { table_name, set_clauses, where_clause } => {
            lemma_update_complete(table_name, set_clauses, where_clause);
            assert(ts[0] == TokenV::Update);
        },
        StatementV::Delete { table_name, where_clause } => {
            lemma_delete_complete(table_name, where_clause);
            assert(ts[0] == TokenV::Delete);
        },
    }
}

} // verus!
