//! The lexer: converts a statement string into an ordered token sequence.
//!
//! The specification side is a character-level model of one greedy,
//! left-to-right pass: `spec_tokenize` says exactly which token sequence a
//! given text denotes, or that the text has a lexical error (a malformed
//! numeric literal).

use vstd::prelude::*;

use crate::parser::parser::{ErrorKind, ParserError};
use crate::token::{Token, TokenV};
use vstd::string::StrSliceExecFns;

verus! {

/// Whether a character counts as whitespace, exactly as the Unicode
/// `White_Space` property used by the standard library has it.
pub uninterp spec fn is_unicode_whitespace(c: char) -> bool;

/// Whether a character is alphabetic in the Unicode sense of the standard
/// library.
pub uninterp spec fn is_unicode_alphabetic(c: char) -> bool;

/// Whether a character is numeric in the Unicode sense of the standard
/// library.
pub uninterp spec fn is_unicode_numeric(c: char) -> bool;

/// Relies on char::is_whitespace: the result depends on the character alone,
/// by the Unicode `White_Space` property.
#[verifier::external_body]
fn ch_is_whitespace(c: char) -> (r: bool)
    ensures
        r == is_unicode_whitespace(c),
{
    c.is_whitespace()
}

/// Relies on char::is_alphabetic: the result depends on the character alone,
/// by its Unicode general category.
#[verifier::external_body]
fn ch_is_alphabetic(c: char) -> (r: bool)
    ensures
        r == is_unicode_alphabetic(c),
{
    c.is_alphabetic()
}

/// Relies on char::is_numeric: the result depends on the character alone, by
/// its Unicode general category.
#[verifier::external_body]
fn ch_is_numeric(c: char) -> (r: bool)
    ensures
        r == is_unicode_numeric(c),
{
    c.is_numeric()
}

/// Relies on char::is_alphanumeric, which its documentation defines as
/// char::is_alphabetic or char::is_numeric.
#[verifier::external_body]
fn ch_is_alphanumeric(c: char) -> (r: bool)
    ensures
        r == (is_unicode_alphabetic(c) || is_unicode_numeric(c)),
{
    c.is_alphanumeric()
}

/// Relies on str::chars and Iterator::collect: the characters of the text in
/// order.  The length bound holds because a `Vec` never allocates more than
/// `isize::MAX` bytes and each `char` occupies four.
#[verifier::external_body]
fn chars_of(s: &str) -> (v: Vec<char>)
    ensures
        v@ == s@,
        v@.len() <= usize::MAX / 4,
{
    s.chars().collect()
}

/// Relies on Iterator::collect for String: the string made of exactly the
/// given characters in order.
#[verifier::external_body]
fn string_from_chars(v: &Vec<char>) -> (s: String)
    ensures
        s@ == v@,
{
    v.iter().collect()
}

/// A character continues an identifier when it is alphanumeric or `_`.
pub open spec fn is_ident_char(c: char) -> bool {
    is_unicode_alphabetic(c) || is_unicode_numeric(c) || c == '_'
}

fn is_ident_char_exec(c: char) -> (r: bool)
    ensures
        r == is_ident_char(c),
{
    ch_is_alphanumeric(c) || c == '_'
}

/// A decimal digit `0` to `9`.
pub open spec fn is_digit_char(c: char) -> bool {
    48 <= c as u32 && c as u32 <= 57
}

/// A character continues a numeric literal when it is a decimal digit or `.`.
pub open spec fn is_number_char(c: char) -> bool {
    is_digit_char(c) || c == '.'
}

fn is_number_char_exec(c: char) -> (r: bool)
    ensures
        r == is_number_char(c),
{
    let u = c as u32;
    (48 <= u && u <= 57) || c == '.'
}

/// A character ends a quoted string: a quote of either kind, or the NUL
/// character that also stands for the end of the input.
pub open spec fn is_value_end_char(c: char) -> bool {
    c == '"' || c == '\'' || c == '\0'
}

/// The character at position `p`, with NUL standing for any position past
/// the end.
pub open spec fn char_at(s: Seq<char>, p: int) -> char {
    if 0 <= p < s.len() {
        s[p]
    } else {
        '\0'
    }
}

/// The first position at or after `i` that does not hold whitespace.
pub open spec fn ws_end(s: Seq<char>, i: int) -> int
    decreases s.len() - i,
{
    if i < 0 || i >= s.len() {
        i
    } else if is_unicode_whitespace(s[i]) {
        ws_end(s, i + 1)
    } else {
        i
    }
}

/// The first position at or after `i` that does not continue an identifier.
pub open spec fn ident_end(s: Seq<char>, i: int) -> int
    decreases s.len() - i,
{
    if i < 0 || i >= s.len() {
        i
    } else if is_ident_char(s[i]) {
        ident_end(s, i + 1)
    } else {
        i
    }
}

/// The first position at or after `i` that does not continue a numeric
/// literal.
pub open spec fn num_end(s: Seq<char>, i: int) -> int
    decreases s.len() - i,
{
    if i < 0 || i >= s.len() {
        i
    } else if is_number_char(s[i]) {
        num_end(s, i + 1)
    } else {
        i
    }
}

/// The first position at or after `i` that ends a quoted string.
pub open spec fn value_end(s: Seq<char>, i: int) -> int
    decreases s.len() - i,
{
    if i < 0 || i >= s.len() {
        i
    } else if is_value_end_char(s[i]) {
        i
    } else {
        value_end(s, i + 1)
    }
}

proof fn lemma_ws_end_bounds(s: Seq<char>, i: int)
    ensures
        i <= ws_end(s, i),
        i <= s.len() ==> ws_end(s, i) <= s.len(),
        i > s.len() ==> ws_end(s, i) == i,
    decreases s.len() - i,
{
    if 0 <= i < s.len() && is_unicode_whitespace(s[i]) {
        lemma_ws_end_bounds(s, i + 1);
    }
}

proof fn lemma_ident_end_bounds(s: Seq<char>, i: int)
    ensures
        i <= ident_end(s, i),
        i <= s.len() ==> ident_end(s, i) <= s.len(),
    decreases s.len() - i,
{
    if 0 <= i < s.len() && is_ident_char(s[i]) {
        lemma_ident_end_bounds(s, i + 1);
    }
}

proof fn lemma_num_end_bounds(s: Seq<char>, i: int)
    ensures
        i <= num_end(s, i),
        i <= s.len() ==> num_end(s, i) <= s.len(),
    decreases s.len() - i,
{
    if 0 <= i < s.len() && is_number_char(s[i]) {
        lemma_num_end_bounds(s, i + 1);
    }
}

proof fn lemma_value_end_bounds(s: Seq<char>, i: int)
    ensures
        i <= value_end(s, i),
        i <= s.len() ==> value_end(s, i) <= s.len(),
    decreases s.len() - i,
{
    if 0 <= i < s.len() && !is_value_end_char(s[i]) {
        lemma_value_end_bounds(s, i + 1);
    }
}

/// The ASCII upper-case image of a character: letters `a` to `z` are folded,
/// every other character is kept.
pub open spec fn upper_char(c: char) -> char {
    if 97 <= c as u32 && c as u32 <= 122 {
        (c as u32 - 32) as char
    } else {
        c
    }
}

/// The character-wise ASCII upper-case image of a word.
pub open spec fn to_upper(w: Seq<char>) -> Seq<char> {
    w.map_values(|c: char| upper_char(c))
}

fn upper_char_exec(c: char) -> (r: char)
    ensures
        r == upper_char(c),
{
    let u = c as u32;
    if 97 <= u && u <= 122 {
        (((u - 32) as u8)) as char
    } else {
        c
    }
}

/// The keyword token a word denotes, if any: the lookup is case-insensitive,
/// by ASCII upper-case folding.
pub open spec fn keyword_token(w: Seq<char>) -> Option<TokenV> {
    let u = to_upper(w);
    if u == "TABLE"@ {
        Some(TokenV::Table)
    } else if u == "CREATE"@ {
        Some(TokenV::Create)
    } else if u == "DROP"@ {
        Some(TokenV::Drop)
    } else if u == "INSERT"@ {
        Some(TokenV::Insert)
    } else if u == "SELECT"@ {
        Some(TokenV::Select)
    } else if u == "UPDATE"@ {
        Some(TokenV::Update)
    } else if u == "DELETE"@ {
        Some(TokenV::Delete)
    } else if u == "INTO"@ {
        Some(TokenV::Into)
    } else if u == "FROM"@ {
        Some(TokenV::From)
    } else if u == "WHERE"@ {
        Some(TokenV::Where)
    } else if u == "SET"@ {
        Some(TokenV::SetKw)
    } else if u == "VALUES"@ {
        Some(TokenV::Values)
    } else {
        None
    }
}

/// The token an identifier word denotes: its keyword token when the word is
/// a keyword up to letter case, else an identifier carrying the word with
/// its original casing.
pub open spec fn lookup_word(w: Seq<char>) -> TokenV {
    match keyword_token(w) {
        Some(t) => t,
        None => TokenV::Identifier(w),
    }
}

/// Keyword lookup is case-insensitive: two words with the same upper-case
/// folding denote the same keyword, or both none.
pub proof fn lemma_keyword_lookup_case_insensitive(w1: Seq<char>, w2: Seq<char>)
    requires
        to_upper(w1) == to_upper(w2),
    ensures
        keyword_token(w1) == keyword_token(w2),
{
}

/// Whether a word equals a keyword up to ASCII upper-case folding.
fn is_keyword(word: &str, kw: &str) -> (r: bool)
    ensures
        r == (to_upper(word@) == kw@),
{
    let n = word.unicode_len();
    if n != kw.unicode_len() {
        proof {
            assert(to_upper(word@).len() == word@.len());
            assert(to_upper(word@) != kw@);
        }
        return false;
    }
    let mut i: usize = 0;
    while i < n
        invariant
            i <= n,
            n == word@.len(),
            n == kw@.len(),
            forall|q: int| 0 <= q < i ==> upper_char(word@[q]) == kw@[q],
        decreases n - i,
    {
        let c = upper_char_exec(word.get_char(i));
        let kc = kw.get_char(i);
        if c != kc {
            proof {
                assert(to_upper(word@)[i as int] != kw@[i as int]);
            }
            return false;
        }
        i = i + 1;
    }
    proof {
        assert(to_upper(word@) =~= kw@);
    }
    true
}

/// The number of `.` characters in a run.
pub open spec fn count_dots(s: Seq<char>) -> nat
    decreases s.len(),
{
    if s.len() == 0 {
        0
    } else {
        count_dots(s.drop_last()) + (if s.last() == '.' {
            1nat
        } else {
            0nat
        })
    }
}

/// A numeric run is well formed when it is non-empty and holds at most one
/// decimal point; this is exactly when it reads as one decimal number.
pub open spec fn num_run_ok(s: Seq<char>, j: int) -> bool {
    let k = num_end(s, j);
    k > j && count_dots(s.subrange(j, k)) <= 1
}

/// One step of the lexer at position `i`: the token read after skipping
/// whitespace together with the position just past it, the end of the input,
/// or a lexical failure.
pub ghost enum LexStep {
    Tok(TokenV, int),
    End,
    Fail,
}

/// What one greedy step of the lexer yields at position `i`.
pub open spec fn lex_step(s: Seq<char>, i: int) -> LexStep {
    let j = ws_end(s, i);
    if j < 0 || j >= s.len() || s[j] == '\0' {
        LexStep::End
    } else {
        let c = s[j];
        if c == '=' {
            LexStep::Tok(TokenV::Equal, j + 1)
        } else if c == ';' {
            LexStep::Tok(TokenV::Semicolon, j + 1)
        } else if c == ',' {
            LexStep::Tok(TokenV::Comma, j + 1)
        } else if c == '(' {
            LexStep::Tok(TokenV::LeftParen, j + 1)
        } else if c == ')' {
            LexStep::Tok(TokenV::RightParen, j + 1)
        } else if c == '*' {
            LexStep::Tok(TokenV::Asterisk, j + 1)
        } else if c == '"' || c == '\'' {
            let k = value_end(s, j + 1);
            LexStep::Tok(
                TokenV::StringLiteral(s.subrange(j + 1, k)),
                if k < s.len() {
                    k + 1
                } else {
                    k
                },
            )
        } else if is_unicode_alphabetic(c) {
            let k = ident_end(s, j);
            LexStep::Tok(lookup_word(s.subrange(j, k)), k)
        } else if is_unicode_numeric(c) {
            let k = num_end(s, j);
            if num_run_ok(s, j) {
                LexStep::Tok(TokenV::NumericLiteral(s.subrange(j, k)), k)
            } else {
                LexStep::Fail
            }
        } else {
            LexStep::Tok(TokenV::Unknown(c), j + 1)
        }
    }
}

/// A lexer step from a non-negative position reads at least one character
/// and stays within the input.
pub proof fn lemma_lex_step_bounds(s: Seq<char>, i: int)
    requires
        0 <= i,
    ensures
        match lex_step(s, i) {
            LexStep::Tok(t, j) => i < j <= s.len(),
            _ => true,
        },
{
    lemma_ws_end_bounds(s, i);
    let j = ws_end(s, i);
    if !(j < 0 || j >= s.len() || s[j] == '\0') {
        let c = s[j];
        if c == '"' || c == '\'' {
            lemma_value_end_bounds(s, j + 1);
        } else if is_unicode_alphabetic(c) && c != '=' && c != ';' && c != ',' && c != '(' && c
            != ')' && c != '*' {
            lemma_ident_end_bounds(s, j + 1);
            assert(ident_end(s, j) == ident_end(s, j + 1));
        } else if is_unicode_numeric(c) {
            lemma_num_end_bounds(s, j);
        }
    }
}

/// The token sequence the text denotes from position `i` on, or `None` on a
/// lexical error.  The end-of-input sentinel is not part of the sequence.
pub open spec fn spec_tokens(s: Seq<char>, i: int) -> Option<Seq<TokenV>>
    decreases s.len() + 1 - i,
    via spec_tokens_decreases
{
    match lex_step(s, i) {
        LexStep::End => Some(Seq::empty()),
        LexStep::Fail => None,
        LexStep::Tok(t, j) => {
            if i < j <= s.len() {
                match spec_tokens(s, j) {
                    Some(rest) => Some(seq![t] + rest),
                    None => None,
                }
            } else {
                None
            }
        },
    }
}

#[via_fn]
proof fn spec_tokens_decreases(s: Seq<char>, i: int) {
    if i >= 0 {
        lemma_lex_step_bounds(s, i);
    }
}

/// The token sequence a whole text denotes, or `None` on a lexical error.
pub open spec fn spec_tokenize(s: Seq<char>) -> Option<Seq<TokenV>> {
    spec_tokens(s, 0)
}

/// A token a lexer step reads is never the end-of-input sentinel.
proof fn lemma_lex_step_not_eof(s: Seq<char>, i: int)
    ensures
        match lex_step(s, i) {
            LexStep::Tok(t, j) => t != TokenV::EOF,
            _ => true,
        },
{
}

/// The lexer state over one tokenize call: the characters of the input, the
/// index one past the current position, and the current character, with NUL
/// standing for the end of the input.
pub struct SimpleLexer {
    chars: Vec<char>,
    index: usize,
    pub ch: char,
}

impl SimpleLexer {
    /// The input text.
    pub closed spec fn src(&self) -> Seq<char> {
        self.chars@
    }

    /// The index one past the current position.
    pub closed spec fn idx(&self) -> int {
        self.index as int
    }

    /// The current character.
    pub closed spec fn current_char(&self) -> char {
        self.ch
    }

    /// The current position in the input.
    pub open spec fn cur(&self) -> int {
        self.idx() - 1
    }

    /// A well-formed lexer: the index stays within one past the input, the
    /// input is small enough that the index cannot overflow, and the current
    /// character is the one at the current position.
    pub closed spec fn wf(&self) -> bool {
        &&& 1 <= self.idx() <= self.src().len() + 1
        &&& self.src().len() <= usize::MAX / 4
        &&& self.ch == char_at(self.src(), self.idx() - 1)
    }

    /// Makes a lexer over the given input, positioned on its first
    /// character.
    pub fn new(input: String) -> (r: Self)
        ensures
            r.wf(),
            r.src() == input@,
            r.cur() == 0,
    {
        let chars = chars_of(input.as_str());
        let mut lexer = SimpleLexer { chars, index: 0, ch: '\0' };
        lexer.read_char();
        lexer
    }

    /// Advances one position and loads the character there, with NUL past
    /// the end of the input.
    pub fn read_char(&mut self)
        requires
            old(self).idx() <= old(self).src().len(),
            old(self).src().len() <= usize::MAX / 4,
        ensures
            final(self).src() == old(self).src(),
            final(self).idx() == old(self).idx() + 1,
            final(self).current_char() == char_at(old(self).src(), old(self).idx()),
    {
        self.ch = if self.index < self.chars.len() {
            self.chars[self.index]
        } else {
            '\0'
        };
        self.index = self.index + 1;
    }

    /// Skips the run of whitespace at the current position.
    pub fn skip_whitespace(&mut self)
        requires
            old(self).wf(),
        ensures
            final(self).wf(),
            final(self).src() == old(self).src(),
            final(self).cur() == ws_end(old(self).src(), old(self).cur()),
    {
        let ghost s = self.src();
        while self.index <= self.chars.len() && ch_is_whitespace(self.ch)
            invariant
                self.wf(),
                self.src() == s,
                s == old(self).src(),
                ws_end(s, old(self).cur()) == ws_end(s, self.cur()),
            decreases s.len() + 1 - self.idx(),
        {
            self.read_char();
        }
        proof {
            assert(ws_end(s, self.cur()) == self.cur());
        }
    }

    /// Reads the identifier run (alphanumeric or `_`) at the current
    /// position, preserving its original casing.
    pub fn read_identifier(&mut self) -> (r: String)
        requires
            old(self).wf(),
        ensures
            final(self).wf(),
            final(self).src() == old(self).src(),
            final(self).cur() == ident_end(old(self).src(), old(self).cur()),
            r@ == old(self).src().subrange(old(self).cur(), final(self).cur()),
    {
        let ghost s = self.src();
        let ghost start = self.cur();
        let mut word: Vec<char> = Vec::new();
        proof {
            assert(word@ =~= s.subrange(start, start));
        }
        while self.index <= self.chars.len() && is_ident_char_exec(self.ch)
            invariant
                self.wf(),
                self.src() == s,
                s == old(self).src(),
                start == old(self).cur(),
                0 <= start <= self.cur(),
                word@ == s.subrange(start, self.cur()),
                ident_end(s, start) == ident_end(s, self.cur()),
            decreases s.len() + 1 - self.idx(),
        {
            word.push(self.ch);
            self.read_char();
            proof {
                assert(word@ =~= s.subrange(start, self.cur()));
            }
        }
        proof {
            assert(ident_end(s, self.cur()) == self.cur());
        }
        string_from_chars(&word)
    }

    /// Reads the quoted-string contents that start one past the current
    /// position: the characters up to, but not including, the next quote of
    /// either kind, or the end of the input when no closing quote follows.
    /// No escape sequence exists: an embedded quote cannot be represented.
    pub fn read_value(&mut self) -> (r: String)
        requires
            old(self).wf(),
            old(self).cur() < old(self).src().len(),
        ensures
            final(self).wf(),
            final(self).src() == old(self).src(),
            final(self).cur() == value_end(old(self).src(), old(self).cur() + 1),
            r@ == old(self).src().subrange(old(self).cur() + 1, final(self).cur()),
    {
        let ghost s = self.src();
        let ghost start = self.cur() + 1;
        let mut word: Vec<char> = Vec::new();
        self.read_char();
        proof {
            assert(word@ =~= s.subrange(start, start));
        }
        while self.ch != '"' && self.ch != '\'' && self.ch != '\0'
            invariant
                self.wf(),
                self.src() == s,
                s == old(self).src(),
                start == old(self).cur() + 1,
                0 <= start <= self.cur(),
                word@ == s.subrange(start, self.cur()),
                value_end(s, start) == value_end(s, self.cur()),
            decreases s.len() + 1 - self.idx(),
        {
            word.push(self.ch);
            self.read_char();
            proof {
                assert(word@ =~= s.subrange(start, self.cur()));
            }
        }
        proof {
            assert(value_end(s, self.cur()) == self.cur());
        }
        string_from_chars(&word)
    }

    /// Reads the numeric run (decimal digits and `.`) at the current
    /// position and returns its text; a lexical error when the run is empty
    /// or holds more than one decimal point, the explicit rule for a numeric
    /// literal that reads as one decimal number.
    pub fn read_number(&mut self) -> (r: Result<String, ParserError>)
        requires
            old(self).wf(),
        ensures
            final(self).wf(),
            final(self).src() == old(self).src(),
            match r {
                Ok(text) => num_run_ok(old(self).src(), old(self).cur()) && text@ == old(
                    self,
                ).src().subrange(
                    old(self).cur(),
                    num_end(old(self).src(), old(self).cur()),
                ) && final(self).cur() == num_end(old(self).src(), old(self).cur()),
                Err(e) => !num_run_ok(old(self).src(), old(self).cur()) && e.kind
                    == ErrorKind::Lexical,
            },
    {
        let ghost s = self.src();
        let ghost start = self.cur();
        let mut run: Vec<char> = Vec::new();
        proof {
            assert(run@ =~= s.subrange(start, start));
        }
        while self.index <= self.chars.len() && is_number_char_exec(self.ch)
            invariant
                self.wf(),
                self.src() == s,
                s == old(self).src(),
                start == old(self).cur(),
                0 <= start <= self.cur(),
                run@ == s.subrange(start, self.cur()),
                num_end(s, start) == num_end(s, self.cur()),
            decreases s.len() + 1 - self.idx(),
        {
            run.push(self.ch);
            self.read_char();
            proof {
                assert(run@ =~= s.subrange(start, self.cur()));
            }
        }
        proof {
            assert(num_end(s, self.cur()) == self.cur());
        }
        let mut dots: usize = 0;
        let mut q: usize = 0;
        proof {
            assert(run@.subrange(0, 0) =~= Seq::<char>::empty());
        }
        while q < run.len()
            invariant
                q <= run.len(),
                dots <= q,
                dots == count_dots(run@.subrange(0, q as int)),
            decreases run.len() - q,
        {
            proof {
                assert(run@.subrange(0, q + 1).drop_last() =~= run@.subrange(0, q as int));
                assert(run@.subrange(0, q + 1).last() == run@[q as int]);
            }
            if run[q] == '.' {
                dots = dots + 1;
            }
            q = q + 1;
        }
        proof {
            assert(run@.subrange(0, run.len() as int) =~= run@);
        }
        if run.len() > 0 && dots <= 1 {
            Ok(string_from_chars(&run))
        } else {
            Err(ParserError::lexical("error read_number"))
        }
    }

    /// Looks an identifier word up in the keyword table, case-insensitively;
    /// a word that is no keyword yields an identifier token carrying the
    /// word with its original casing.
    pub fn lookup_identifier(&self, identifier: &str) -> (t: Token)
        ensures
            t@ == lookup_word(identifier@),
    {
        if is_keyword(identifier, "TABLE") {
            Token::Table
        } else if is_keyword(identifier, "CREATE") {
            Token::Create
        } else if is_keyword(identifier, "DROP") {
            Token::Drop
        } else if is_keyword(identifier, "INSERT") {
            Token::Insert
        } else if is_keyword(identifier, "SELECT") {
            Token::Select
        } else if is_keyword(identifier, "UPDATE") {
            Token::Update
        } else if is_keyword(identifier, "DELETE") {
            Token::Delete
        } else if is_keyword(identifier, "INTO") {
            Token::Into
        } else if is_keyword(identifier, "FROM") {
            Token::From
        } else if is_keyword(identifier, "WHERE") {
            Token::Where
        } else if is_keyword(identifier, "SET") {
            Token::SetKw
        } else if is_keyword(identifier, "VALUES") {
            Token::Values
        } else {
            Token::Identifier(identifier.to_owned())
        }
    }

    /// Reads the next token at the current position, after skipping
    /// whitespace: exactly what one greedy lexer step denotes there, the
    /// end-of-input sentinel included; a lexical error exactly when the step
    /// fails on a malformed numeric literal.
    pub fn next_token(&mut self) -> (r: Result<Token, ParserError>)
        requires
            old(self).wf(),
        ensures
            final(self).wf(),
            final(self).src() == old(self).src(),
            match r {
                Ok(t) => (match lex_step(old(self).src(), old(self).cur()) {
                    LexStep::Tok(tv, j) => t@ == tv && final(self).cur() == j,
                    LexStep::End => t@ == TokenV::EOF,
                    LexStep::Fail => false,
                }),
                Err(e) => lex_step(old(self).src(), old(self).cur()) is Fail && e.kind
                    == ErrorKind::Lexical,
            },
    {
        self.skip_whitespace();
        let c = self.ch;
        if c == '\0' {
            return Ok(Token::EOF);
        }
        if c == '=' {
            self.read_char();
            return Ok(Token::Equal);
        }
        if c == ';' {
            self.read_char();
            return Ok(Token::Semicolon);
        }
        if c == ',' {
            self.read_char();
            return Ok(Token::Comma);
        }
        if c == '(' {
            self.read_char();
            return Ok(Token::LeftParen);
        }
        if c == ')' {
            self.read_char();
            return Ok(Token::RightParen);
        }
        if c == '*' {
            self.read_char();
            return Ok(Token::Asterisk);
        }
        if c == '"' || c == '\'' {
            let text = self.read_value();
            if self.index <= self.chars.len() {
                self.read_char();
            }
            return Ok(Token::StringLiteral(text));
        }
        if ch_is_alphabetic(c) {
            let identifier = self.read_identifier();
            let t = self.lookup_identifier(identifier.as_str());
            return Ok(t);
        }
        if ch_is_numeric(c) {
            match self.read_number() {
                Ok(text) => {
                    return Ok(Token::NumericLiteral(text));
                },
                Err(e) => {
                    return Err(e);
                },
            }
        }
        let t = Token::Unknown(c);
        self.read_char();
        Ok(t)
    }

    /// Tokenizes a whole statement text: the ordered token sequence the text
    /// denotes, ending at (but not including) the end-of-input sentinel; a
    /// lexical error exactly when the text holds a malformed numeric
    /// literal.
    pub fn tokenize(input: String) -> (r: Result<Vec<Token>, ParserError>)
        ensures
            match r {
                Ok(v) => spec_tokenize(input@) == Some(v.deep_view()),
                Err(e) => spec_tokenize(input@) is None && e.kind == ErrorKind::Lexical,
            },
    {
        let ghost inp = input@;
        let mut lexer = SimpleLexer::new(input);
        let mut tokens: Vec<Token> = Vec::new();
        proof {
            assert(tokens.deep_view() =~= Seq::<TokenV>::empty());
            match spec_tokens(inp, 0) {
                Some(rest) => {
                    assert(tokens.deep_view() + rest =~= rest);
                },
                None => {},
            }
        }
        loop
            invariant
                inp == input@,
                lexer.wf(),
                lexer.src() == inp,
                0 <= lexer.cur(),
                (match spec_tokens(inp, lexer.cur()) {
                    Some(rest) => spec_tokens(inp, 0) == Some(tokens.deep_view() + rest),
                    None => spec_tokens(inp, 0) is None,
                }),
            decreases inp.len() + 1 - lexer.cur(),
        {
            let ghost cur = lexer.cur();
            let ghost dv0 = tokens.deep_view();
            let token = match lexer.next_token() {
                Ok(t) => t,
                Err(e) => {
                    return Err(e);
                },
            };
            if token.is_eof() {
                return Ok(tokens);
            }
            tokens.push(token);
            proof {
                lemma_lex_step_bounds(inp, cur);
                lemma_lex_step_not_eof(inp, cur);
                match lex_step(inp, cur) {
                    LexStep::Tok(tv, j2) => {
                        assert(tokens.deep_view() =~= dv0 + seq![tv]);
                        match spec_tokens(inp, j2) {
                            Some(rest) => {
                                assert(spec_tokens(inp, cur) == Some(seq![tv] + rest));
                                assert(dv0 + (seq![tv] + rest) =~= (dv0 + seq![tv]) + rest);
                            },
                            None => {
                                assert(spec_tokens(inp, cur) is None);
                            },
                        }
                    },
                    _ => {
                        assert(false);
                    },
                }
            }
        }
    }
}

/// Tokenization is a pure function of the input text: any two token
/// sequences obtained from the same text are equal.  This is what makes
/// re-tokenizing the same string idempotent.
pub proof fn lemma_tokenize_deterministic(
    s: Seq<char>,
    r1: Option<Seq<TokenV>>,
    r2: Option<Seq<TokenV>>,
)
    requires
        r1 == spec_tokenize(s),
        r2 == spec_tokenize(s),
    ensures
        r1 == r2,
{
}

} // verus!
