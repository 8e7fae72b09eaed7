//! The lexer: a single left-to-right scan that turns a character sequence
//! into a flat token list with line, column and byte-span metadata.
//!
//! The behaviour of the scan is stated by the specification functions
//! [`lex_step`] (one token or skipped whitespace character) and [`lex_from`]
//! (the whole remaining input, ending in the end-of-input sentinel), and the
//! executable [`Tokenizer`] is proved to compute exactly that.

use vstd::prelude::*;

use crate::error::ParseError;
use crate::text;
use crate::token_stream::TokenStream;

verus! {

/// The classification of one token.
#[derive(Debug, Clone, Copy, PartialEq, Eq, Structural)]
pub enum TokenKind {
    String,
    Number,
    Boolean,
    LeftBrace,
    RightBrace,
    LeftBracket,
    RightBracket,
    Comma,
    Colon,
    Null,
    Identifier,
    EndOfFile,
}

/// Half-open byte span `[start, end)` of a token in the source.
#[derive(Debug, Clone, PartialEq, Eq, Copy, Structural)]
pub struct Span(pub usize, pub usize);

/// One token: its kind, decoded text, and position metadata.
#[derive(Debug)]
pub struct Token {
    pub kind: TokenKind,
    pub lexeme: String,
    pub line: usize,
    pub column: usize,
    pub span: Span,
}

/// The mathematical model of a span.
pub struct SpecSpan {
    pub lo: int,
    pub hi: int,
}

/// The mathematical model of a token.
pub struct SpecToken {
    pub kind: TokenKind,
    pub lexeme: Seq<char>,
    pub line: int,
    pub column: int,
    pub span: SpecSpan,
}

impl View for Span {
    type V = SpecSpan;

    open spec fn view(&self) -> SpecSpan {
        SpecSpan { lo: self.0 as int, hi: self.1 as int }
    }
}

impl View for Token {
    type V = SpecToken;

    open spec fn view(&self) -> SpecToken {
        SpecToken {
            kind: self.kind,
            lexeme: self.lexeme@,
            line: self.line as int,
            column: self.column as int,
            span: self.span@,
        }
    }
}

impl Clone for Token {
    /// A clone models the same token.
    fn clone(&self) -> (r: Token)
        ensures
            r@ == self@,
    {
        Token {
            kind: self.kind,
            lexeme: self.lexeme.clone(),
            line: self.line,
            column: self.column,
            span: self.span,
        }
    }
}

impl Token {
    /// A token from its parts.
    pub fn new(kind: TokenKind, lexeme: String, line: usize, column: usize, span: Span) -> (r:
        Token)
        ensures
            r@ == (SpecToken {
                kind,
                lexeme: lexeme@,
                line: line as int,
                column: column as int,
                span: span@,
            }),
    {
        Token { kind, lexeme, line, column, span }
    }

    /// A placeholder identifier token carrying only a text, used where a
    /// token value is needed outside any real scan.
    pub fn new_synthetic(lexeme: &str) -> (r: Token)
        ensures
            r@ == (SpecToken {
                kind: TokenKind::Identifier,
                lexeme: lexeme@,
                line: 0,
                column: 0,
                span: SpecSpan { lo: 0, hi: 1 },
            }),
    {
        Token {
            kind: TokenKind::Identifier,
            lexeme: lexeme.to_owned(),
            line: 0,
            column: 0,
            span: Span(0, 1),
        }
    }
}

/// A lexical fault: either a character no token can start with, or an
/// unterminated string literal.
pub enum LexErr {
    InvalidChar { c: char, line: int },
    Unterminated { line: int },
}

/// The display message of a lexical fault.
pub open spec fn lex_err_msg(e: LexErr) -> Seq<char> {
    match e {
        LexErr::InvalidChar { c, line } => "Invalid character '"@ + seq![c] + "' at line "@
            + text::dec_rep(line as nat),
        LexErr::Unterminated { line } => "Unterminated string at line "@ + text::dec_rep(
            line as nat,
        ) + "."@,
    }
}

/// A scan position: index into the source plus the line and column counters.
pub struct LexState {
    pub i: int,
    pub line: int,
    pub col: int,
}

/// The outcome of scanning one leading character: whitespace skipped, a token
/// emitted, or a lexical fault.
pub enum LexStep {
    Skip { next: LexState },
    Emit { t: SpecToken, next: LexState },
    Fail { e: LexErr },
}

/// The number of consecutive ASCII digits at offset `i`.
pub open spec fn digits_run(src: Seq<char>, i: int) -> nat
    decreases src.len() - i,
{
    if 0 <= i < src.len() && text::is_digit_char(src[i]) {
        (digits_run(src, i + 1) + 1) as nat
    } else {
        0
    }
}

/// The number of consecutive ASCII letters or digits at offset `i`.
pub open spec fn alnum_run(src: Seq<char>, i: int) -> nat
    decreases src.len() - i,
{
    if 0 <= i < src.len() && (text::is_digit_char(src[i]) || text::is_alpha_char(src[i])) {
        (alnum_run(src, i + 1) + 1) as nat
    } else {
        0
    }
}

/// Whether a digit stands at offset `i`; positions past the end count as
/// non-digits, as the scanner's lookahead reads them as a NUL sentinel.
pub open spec fn digit_at(src: Seq<char>, i: int) -> bool {
    0 <= i < src.len() && text::is_digit_char(src[i])
}

/// The end of a numeric lexeme whose first character stands just before
/// offset `j`: the remaining digits, then a fractional part only when a dot
/// is directly followed by a digit.
pub open spec fn number_end(src: Seq<char>, j: int) -> int {
    let d1 = j + digits_run(src, j);
    if d1 < src.len() && src[d1] == '.' && digit_at(src, d1 + 1) {
        d1 + 1 + digits_run(src, d1 + 1)
    } else {
        d1
    }
}

/// What a character denotes when it follows a backslash in a string literal:
/// the usual escapes for newline, tab and carriage return, any other
/// character standing for itself.
pub open spec fn esc_char(c: char) -> char {
    if c == 'n' {
        '\n'
    } else if c == 't' {
        '\t'
    } else if c == 'r' {
        '\r'
    } else {
        c
    }
}

/// The outcome of scanning a string literal body: the decoded text and the
/// position of the closing quote, or the line on which the input ended first.
pub enum StrScan {
    Closed { value: Seq<char>, at: int, line: int, col: int },
    Unterminated { line: int },
}

/// Scans the body of a string literal from offset `i`, decoding escapes,
/// until the unescaped closing quote. The column counter advances twice per
/// character, matching the scanner's bookkeeping inside literals; a newline
/// resets it.
pub open spec fn scan_str(
    src: Seq<char>,
    i: int,
    line: int,
    col: int,
    quote: char,
    escaped: bool,
    acc: Seq<char>,
) -> StrScan
    decreases src.len() - i,
{
    if i < 0 || i >= src.len() {
        StrScan::Unterminated { line }
    } else {
        let c = src[i];
        if !escaped && c == quote {
            StrScan::Closed { value: acc, at: i, line, col }
        } else {
            let acc2 = if escaped {
                acc.push(esc_char(c))
            } else if c == '\\' {
                acc
            } else {
                acc.push(c)
            };
            let esc2 = !escaped && c == '\\';
            let line2 = if c == '\n' {
                line + 1
            } else {
                line
            };
            let col2 = if c == '\n' {
                1
            } else {
                col + 2
            };
            scan_str(src, i + 1, line2, col2, quote, esc2, acc2)
        }
    }
}

/// The keyword texts recognised by the scanner.
pub open spec fn kw_true() -> Seq<char> {
    seq!['t', 'r', 'u', 'e']
}

/// The keyword text `false`.
pub open spec fn kw_false() -> Seq<char> {
    seq!['f', 'a', 'l', 's', 'e']
}

/// The keyword text `null`.
pub open spec fn kw_null() -> Seq<char> {
    seq!['n', 'u', 'l', 'l']
}

/// The kind of a bare word: a keyword kind for `true`, `false` and `null`,
/// otherwise a bare identifier.
pub open spec fn keyword_kind(lexeme: Seq<char>) -> TokenKind {
    if lexeme == kw_true() || lexeme == kw_false() {
        TokenKind::Boolean
    } else if lexeme == kw_null() {
        TokenKind::Null
    } else {
        TokenKind::Identifier
    }
}

/// The error for a character no token can start with, naming it and its line.
fn invalid_char_error(c: char, line: usize) -> (r: ParseError)
    ensures
        r.message@ == lex_err_msg(LexErr::InvalidChar { c, line: line as int }),
{
    let mut msg = String::new();
    msg.append("Invalid character '");
    crate::text::push_char(&mut msg, c);
    msg.append("' at line ");
    let line_str = crate::text::dec_string(line);
    msg.append(line_str.as_str());
    proof {
        assert(msg@ =~= lex_err_msg(LexErr::InvalidChar { c, line: line as int }));
    }
    ParseError::new(msg.as_str())
}

/// Copies a token list, preserving each token's model.
fn clone_tokens(v: &Vec<Token>) -> (r: Vec<Token>)
    ensures
        r@.map_values(|t: Token| t@) == v@.map_values(|t: Token| t@),
{
    let mut r: Vec<Token> = Vec::new();
    let mut i: usize = 0;
    while i < v.len()
        invariant
            i <= v@.len(),
            r@.len() == i,
            forall|k: int| 0 <= k < i ==> r@[k]@ == v@[k]@,
        decreases v@.len() - i,
    {
        r.push(v[i].clone());
        i = i + 1;
    }
    proof {
        assert(r@.map_values(|t: Token| t@) =~= v@.map_values(|t: Token| t@));
    }
    r
}

/// Classifies a scanned word as a keyword kind or a bare identifier.
fn classify_word(cs: &[char]) -> (k: TokenKind)
    ensures
        k == keyword_kind(cs@),
{
    if cs.len() == 4 && cs[0] == 't' && cs[1] == 'r' && cs[2] == 'u' && cs[3] == 'e' {
        proof {
            assert(cs@ =~= kw_true());
        }
        TokenKind::Boolean
    } else if cs.len() == 5 && cs[0] == 'f' && cs[1] == 'a' && cs[2] == 'l' && cs[3] == 's'
        && cs[4] == 'e' {
        proof {
            assert(cs@ =~= kw_false());
        }
        TokenKind::Boolean
    } else if cs.len() == 4 && cs[0] == 'n' && cs[1] == 'u' && cs[2] == 'l' && cs[3] == 'l' {
        proof {
            assert(cs@ =~= kw_null());
        }
        TokenKind::Null
    } else {
        proof {
            if cs@ == kw_true() {
                assert(cs@.len() == 4 && cs@[0] == 't' && cs@[1] == 'r' && cs@[2] == 'u' && cs@[3]
                    == 'e');
            }
            if cs@ == kw_false() {
                assert(cs@.len() == 5 && cs@[0] == 'f' && cs@[1] == 'a' && cs@[2] == 'l' && cs@[3]
                    == 's' && cs@[4] == 'e');
            }
            if cs@ == kw_null() {
                assert(cs@.len() == 4 && cs@[0] == 'n' && cs@[1] == 'u' && cs@[2] == 'l' && cs@[3]
                    == 'l');
            }
        }
        TokenKind::Identifier
    }
}

/// A single-character token of the given kind at offset `i`.
pub open spec fn single_tok(src: Seq<char>, kind: TokenKind, i: int, line: int, col: int) -> LexStep {
    LexStep::Emit {
        t: SpecToken {
            kind,
            lexeme: seq![src[i]],
            line,
            column: col + 1,
            span: SpecSpan { lo: i, hi: i + 1 },
        },
        next: LexState { i: i + 1, line, col: col + 1 },
    }
}

/// A numeric token whose first character stands at offset `i`.
pub open spec fn number_tok(src: Seq<char>, i: int, line: int, col: int) -> LexStep {
    let end = number_end(src, i + 1);
    LexStep::Emit {
        t: SpecToken {
            kind: TokenKind::Number,
            lexeme: src.subrange(i, end),
            line,
            column: col + (end - i),
            span: SpecSpan { lo: i, hi: end },
        },
        next: LexState { i: end, line, col: col + (end - i) },
    }
}

/// One step of the scan at offset `i` (which must lie inside the source):
/// whitespace is skipped, every other character either starts exactly one
/// token or is a lexical fault.
pub open spec fn lex_step(src: Seq<char>, i: int, line: int, col: int) -> LexStep {
    let c = src[i];
    if c == '\n' {
        LexStep::Skip { next: LexState { i: i + 1, line: line + 1, col: 1 } }
    } else if c == ' ' || c == '\t' || c == '\r' {
        LexStep::Skip { next: LexState { i: i + 1, line, col: col + 1 } }
    } else if c == '[' {
        single_tok(src, TokenKind::LeftBracket, i, line, col)
    } else if c == ']' {
        single_tok(src, TokenKind::RightBracket, i, line, col)
    } else if c == '{' {
        single_tok(src, TokenKind::LeftBrace, i, line, col)
    } else if c == '}' {
        single_tok(src, TokenKind::RightBrace, i, line, col)
    } else if c == ',' {
        single_tok(src, TokenKind::Comma, i, line, col)
    } else if c == ':' {
        single_tok(src, TokenKind::Colon, i, line, col)
    } else if c == '"' || c == '\'' {
        match scan_str(src, i + 1, line, col + 1, c, false, Seq::empty()) {
            StrScan::Closed { value, at, line: l2, col: c2 } => LexStep::Emit {
                t: SpecToken {
                    kind: TokenKind::String,
                    lexeme: value,
                    line: l2,
                    column: c2 + 1,
                    span: SpecSpan { lo: i, hi: at + 1 },
                },
                next: LexState { i: at + 1, line: l2, col: c2 + 1 },
            },
            StrScan::Unterminated { line: l2 } => LexStep::Fail {
                e: LexErr::Unterminated { line: l2 },
            },
        }
    } else if c == '-' {
        if digit_at(src, i + 1) {
            number_tok(src, i, line, col)
        } else {
            LexStep::Fail { e: LexErr::InvalidChar { c, line } }
        }
    } else if text::is_digit_char(c) {
        number_tok(src, i, line, col)
    } else if text::is_alpha_char(c) {
        let end = i + 1 + alnum_run(src, i + 1);
        let lexeme = src.subrange(i, end);
        LexStep::Emit {
            t: SpecToken {
                kind: keyword_kind(lexeme),
                lexeme,
                line,
                column: col + (end - i),
                span: SpecSpan { lo: i, hi: end },
            },
            next: LexState { i: end, line, col: col + (end - i) },
        }
    } else {
        LexStep::Fail { e: LexErr::InvalidChar { c, line } }
    }
}

/// The end-of-input sentinel token: emitted once, after the last real token,
/// spanning from that token's start to the end of the source.
pub open spec fn eof_tok(src: Seq<char>, line: int, col: int, prev: int) -> SpecToken {
    SpecToken {
        kind: TokenKind::EndOfFile,
        lexeme: seq!['\0'],
        line,
        column: col,
        span: SpecSpan { lo: prev, hi: src.len() as int },
    }
}

/// Closing quotes stand at or after the scan start, inside the source.
pub proof fn scan_str_at_bound(
    src: Seq<char>,
    i: int,
    line: int,
    col: int,
    quote: char,
    escaped: bool,
    acc: Seq<char>,
)
    ensures
        scan_str(src, i, line, col, quote, escaped, acc) matches StrScan::Closed { at, .. }
            ==> i <= at < src.len(),
    decreases src.len() - i,
{
    if 0 <= i < src.len() {
        let c = src[i];
        if !(!escaped && c == quote) {
            let acc2 = if escaped {
                acc.push(esc_char(c))
            } else if c == '\\' {
                acc
            } else {
                acc.push(c)
            };
            let esc2 = !escaped && c == '\\';
            let line2 = if c == '\n' {
                line + 1
            } else {
                line
            };
            let col2 = if c == '\n' {
                1
            } else {
                col + 2
            };
            scan_str_at_bound(src, i + 1, line2, col2, quote, esc2, acc2);
        }
    }
}

/// Every step that does not fail moves the scan strictly forward, and never
/// past the end of the source.
pub proof fn lex_step_advances(src: Seq<char>, i: int, line: int, col: int)
    ensures
        0 <= i < src.len() ==> match lex_step(src, i, line, col) {
            LexStep::Skip { next } => i < next.i <= src.len(),
            LexStep::Emit { t, next } => i < next.i <= src.len(),
            LexStep::Fail { e } => true,
        },
{
    if 0 <= i < src.len() {
        let c = src[i];
        if c == '"' || c == '\'' {
            scan_str_at_bound(src, i + 1, line, col + 1, c, false, Seq::empty());
        } else {
            digits_run_bound(src, i + 1);
            let d1 = i + 1 + digits_run(src, i + 1);
            digits_run_bound(src, d1 + 1);
            alnum_run_bound(src, i + 1);
        }
    }
}

/// A digit run never reaches past the end of the source.
pub proof fn digits_run_bound(src: Seq<char>, i: int)
    ensures
        0 <= i <= src.len() ==> i + digits_run(src, i) <= src.len(),
    decreases src.len() - i,
{
    if 0 <= i < src.len() && text::is_digit_char(src[i]) {
        digits_run_bound(src, i + 1);
    }
}

/// A letter-or-digit run never reaches past the end of the source.
pub proof fn alnum_run_bound(src: Seq<char>, i: int)
    ensures
        0 <= i <= src.len() ==> i + alnum_run(src, i) <= src.len(),
    decreases src.len() - i,
{
    if 0 <= i < src.len() && (text::is_digit_char(src[i]) || text::is_alpha_char(src[i])) {
        alnum_run_bound(src, i + 1);
    }
}

/// The token list produced by scanning from offset `i` with the given line
/// and column counters, ending in the end-of-input sentinel, or the first
/// lexical fault. `prev` is the start offset of the most recent scan step,
/// which the sentinel's span begins at.
pub open spec fn lex_from(src: Seq<char>, i: int, line: int, col: int, prev: int) -> Result<
    Seq<SpecToken>,
    LexErr,
>
    decreases src.len() - i,
{
    if i < 0 {
        Err(LexErr::InvalidChar { c: '\0', line })
    } else if i >= src.len() {
        Ok(seq![eof_tok(src, line, col, prev)])
    } else {
        proof {
            lex_step_advances(src, i, line, col);
        }
        match lex_step(src, i, line, col) {
            LexStep::Skip { next } => lex_from(src, next.i, next.line, next.col, i),
            LexStep::Emit { t, next } => match lex_from(src, next.i, next.line, next.col, i) {
                Ok(rest) => Ok(seq![t] + rest),
                Err(e) => Err(e),
            },
            LexStep::Fail { e } => Err(e),
        }
    }
}

/// The full scan of a source text: tokens from the beginning, with the line
/// and column counters starting at one.
pub open spec fn lex(src: Seq<char>) -> Result<Seq<SpecToken>, LexErr> {
    lex_from(src, 0, 1, 1, 0)
}

/// The shape every successful scan has: at least one token, the last and
/// only the last of kind end-of-input.
pub open spec fn eof_shape(toks: Seq<SpecToken>) -> bool {
    &&& toks.len() >= 1
    &&& toks.last().kind == TokenKind::EndOfFile
    &&& forall|i: int| 0 <= i < toks.len() - 1 ==> toks[i].kind != TokenKind::EndOfFile
}

/// Every successful scan has the end-of-input shape.
pub proof fn lemma_lex_shape(src: Seq<char>, i: int, line: int, col: int, prev: int)
    ensures
        lex_from(src, i, line, col, prev) matches Ok(s) ==> eof_shape(s),
    decreases src.len() - i,
{
    if i < 0 {
    } else if i >= src.len() {
    } else {
        lex_step_advances(src, i, line, col);
        match lex_step(src, i, line, col) {
            LexStep::Skip { next } => {
                lemma_lex_shape(src, next.i, next.line, next.col, i);
            },
            LexStep::Emit { t, next } => {
                lemma_lex_shape(src, next.i, next.line, next.col, i);
                match lex_from(src, next.i, next.line, next.col, i) {
                    Ok(rest) => {
                        assert(t.kind != TokenKind::EndOfFile);
                        let s = seq![t] + rest;
                        assert(s.last() == rest.last());
                        assert forall|j: int| 0 <= j < s.len() - 1 implies s[j].kind
                            != TokenKind::EndOfFile by {
                            if j >= 1 {
                                assert(s[j] == rest[j - 1]);
                            }
                        }
                    },
                    Err(_) => {},
                }
            },
            LexStep::Fail { e } => {},
        }
    }
}

/// Tokens already emitted, prepended to the outcome of the remaining scan.
pub open spec fn lex_combine(pre: Seq<SpecToken>, rest: Result<Seq<SpecToken>, LexErr>) -> Result<
    Seq<SpecToken>,
    LexErr,
> {
    match rest {
        Ok(s) => Ok(pre + s),
        Err(e) => Err(e),
    }
}

/// The largest source length the scanner accepts; it keeps the line and
/// column counters, which can grow twice per character, within `usize`.
pub const MAX_SOURCE_LEN: usize = (usize::MAX - 1) / 2;

/// The scanner: a start/length cursor pair over an owned character sequence,
/// accumulating tokens.
pub struct Tokenizer {
    pub(crate) source: Vec<char>,
    pub(crate) line: usize,
    pub(crate) column: usize,
    pub(crate) start: usize,
    pub(crate) length: usize,
    pub(crate) tokens: Vec<Token>,
}

impl Tokenizer {
    /// The source characters being scanned.
    pub closed spec fn src(&self) -> Seq<char> {
        self.source@
    }

    /// The offset of the next character to examine.
    pub closed spec fn cursor(&self) -> int {
        self.start + self.length
    }

    spec fn line_no(&self) -> int {
        self.line as int
    }

    spec fn col_no(&self) -> int {
        self.column as int
    }

    spec fn start_at(&self) -> int {
        self.start as int
    }

    spec fn toks_out(&self) -> Seq<SpecToken> {
        self.tokens@.map_values(|t: Token| t@)
    }

    spec fn wf_inner(&self) -> bool {
        &&& self.source@.len() <= MAX_SOURCE_LEN
        &&& self.start + self.length <= self.source@.len()
        &&& 1 <= self.line
        &&& self.line <= 1 + self.start + self.length
        &&& self.column <= 1 + 2 * (self.start + self.length)
    }

    /// A scanner that has emitted nothing and stands at the very start.
    pub closed spec fn fresh(&self) -> bool {
        &&& self.line == 1
        &&& self.column == 1
        &&& self.start == 0
        &&& self.length == 0
        &&& self.tokens@.len() == 0
        &&& self.source@.len() <= MAX_SOURCE_LEN
    }

    /// A scanner over the given source text, at the start of the text.
    pub fn new(source: String) -> (r: Tokenizer)
        requires
            source@.len() <= MAX_SOURCE_LEN,
        ensures
            r.src() == source@,
            r.fresh(),
    {
        Tokenizer {
            source: text::chars_vec(source.as_str()),
            line: 1,
            column: 1,
            start: 0,
            length: 0,
            tokens: Vec::new(),
        }
    }

    fn is_at_end(&self) -> (r: bool)
        requires
            self.wf_inner(),
        ensures
            r == (self.cursor() >= self.src().len()),
    {
        self.start + self.length >= self.source.len()
    }

    fn peek(&self) -> (r: char)
        requires
            self.wf_inner(),
        ensures
            r == (if self.cursor() < self.src().len() {
                self.src()[self.cursor()]
            } else {
                '\0'
            }),
    {
        let i = self.start + self.length;
        if i < self.source.len() {
            self.source[i]
        } else {
            '\0'
        }
    }

    fn peek_next(&self) -> (r: char)
        requires
            self.wf_inner(),
        ensures
            r == (if self.cursor() + 1 < self.src().len() {
                self.src()[self.cursor() + 1]
            } else {
                '\0'
            }),
    {
        let i = self.start + self.length;
        if i + 1 < self.source.len() {
            self.source[i + 1]
        } else {
            '\0'
        }
    }

    fn check(&self, c: char) -> (r: bool)
        requires
            self.wf_inner(),
        ensures
            r == (self.cursor() < self.src().len() && self.src()[self.cursor()] == c),
    {
        if self.is_at_end() {
            return false;
        }
        c == self.peek()
    }

    fn is_digit(&self, c: char) -> (r: bool)
        ensures
            r == text::is_digit_char(c),
    {
        text::digit_char(c)
    }

    fn is_alpha(&self, c: char) -> (r: bool)
        ensures
            r == text::is_alpha_char(c),
    {
        text::alpha_char(c)
    }

    fn is_alpha_numeric(&self, c: char) -> (r: bool)
        ensures
            r == (text::is_digit_char(c) || text::is_alpha_char(c)),
    {
        self.is_digit(c) || self.is_alpha(c)
    }

    fn advance(&mut self) -> (r: Option<char>)
        requires
            old(self).start + old(self).length <= old(self).src().len(),
            old(self).src().len() <= usize::MAX,
            old(self).column < usize::MAX,
        ensures
            final(self).source == old(self).source,
            final(self).start == old(self).start,
            final(self).line == old(self).line,
            final(self).tokens == old(self).tokens,
            if old(self).cursor() < old(self).src().len() {
                &&& r == Some(old(self).src()[old(self).cursor()])
                &&& final(self).length == old(self).length + 1
                &&& final(self).column == old(self).column + 1
            } else {
                &&& r is None
                &&& final(self).length == old(self).length
                &&& final(self).column == old(self).column
            },
    {
        let n = self.source.len();
        if self.start + self.length >= n {
            return None;
        }
        let c = self.source[self.start + self.length];
        self.length = self.length + 1;
        self.column = self.column + 1;
        Some(c)
    }

    fn sync_cursors(&mut self)
        requires
            old(self).wf_inner(),
        ensures
            final(self).source == old(self).source,
            final(self).line == old(self).line,
            final(self).column == old(self).column,
            final(self).tokens == old(self).tokens,
            final(self).start == old(self).start + old(self).length,
            final(self).length == 0,
            final(self).wf_inner(),
    {
        self.start = self.start + self.length;
        self.length = 0;
    }

    fn make_token_with_lexeme(&mut self, kind: TokenKind, lexeme: String)
        requires
            old(self).wf_inner(),
        ensures
            final(self).source == old(self).source,
            final(self).line == old(self).line,
            final(self).column == old(self).column,
            final(self).start == old(self).start,
            final(self).length == old(self).length,
            final(self).wf_inner(),
            final(self).toks_out() == old(self).toks_out().push(
                SpecToken {
                    kind,
                    lexeme: lexeme@,
                    line: old(self).line_no(),
                    column: old(self).col_no(),
                    span: SpecSpan {
                        lo: old(self).start_at(),
                        hi: old(self).start_at() + old(self).length,
                    },
                },
            ),
    {
        let span = Span(self.start, self.start + self.length);
        let token = Token::new(kind, lexeme, self.line, self.column, span);
        self.tokens.push(token);
        proof {
            assert(self.toks_out() =~= old(self).toks_out().push(
                SpecToken {
                    kind,
                    lexeme: lexeme@,
                    line: old(self).line_no(),
                    column: old(self).col_no(),
                    span: SpecSpan {
                        lo: old(self).start_at(),
                        hi: old(self).start_at() + old(self).length,
                    },
                },
            ));
        }
    }

    fn current_lexeme(&self) -> (r: String)
        requires
            self.wf_inner(),
        ensures
            r@ == self.src().subrange(self.start_at(), self.cursor()),
    {
        let cs = vstd::slice::slice_subrange(
            self.source.as_slice(),
            self.start,
            self.start + self.length,
        );
        text::string_from_chars(cs)
    }

    #[verifier::loop_isolation(false)]
    fn number(&mut self)
        requires
            old(self).wf_inner(),
            old(self).length >= 1,
        ensures
            final(self).src() == old(self).src(),
            final(self).start == old(self).start,
            final(self).line == old(self).line,
            final(self).wf_inner(),
            final(self).cursor() == number_end(old(self).src(), old(self).cursor()),
            final(self).column == old(self).column + (final(self).cursor() - old(self).cursor()),
            final(self).toks_out() == old(self).toks_out().push(
                SpecToken {
                    kind: TokenKind::Number,
                    lexeme: old(self).src().subrange(old(self).start_at(), final(self).cursor()),
                    line: old(self).line_no(),
                    column: old(self).col_no() + (final(self).cursor() - old(self).cursor()),
                    span: SpecSpan { lo: old(self).start_at(), hi: final(self).cursor() },
                },
            ),
    {
        let ghost src = self.src();
        let ghost j0 = self.cursor();
        let ghost col0 = self.col_no();
        let ghost start0 = self.start;
        let ghost line0 = self.line;
        let ghost toks0 = self.tokens@;
        while self.is_digit(self.peek())
            invariant
                self.wf_inner(),
                self.source@ == src,
                self.start == start0,
                self.line == line0,
                self.tokens@ == toks0,
                self.length >= 1,
                j0 <= self.cursor(),
                self.col_no() == col0 + (self.cursor() - j0),
                digits_run(src, j0) == (self.cursor() - j0) + digits_run(src, self.cursor()),
            decreases src.len() - self.cursor(),
        {
            proof {
                assert(digits_run(src, self.cursor()) == 1 + digits_run(src, self.cursor() + 1));
            }
            self.advance();
        }
        proof {
            assert(digits_run(src, self.cursor()) == 0);
            assert(self.cursor() == j0 + digits_run(src, j0));
        }
        let ghost d1 = self.cursor();
        if self.check('.') && self.is_digit(self.peek_next()) {
            self.advance();
            let ghost j1 = self.cursor();
            while self.is_digit(self.peek())
                invariant
                    self.wf_inner(),
                    self.source@ == src,
                    self.start == start0,
                    self.line == line0,
                    self.tokens@ == toks0,
                    self.length >= 1,
                    j1 <= self.cursor(),
                    self.col_no() == col0 + (self.cursor() - j0),
                    digits_run(src, j1) == (self.cursor() - j1) + digits_run(src, self.cursor()),
                decreases src.len() - self.cursor(),
            {
                proof {
                    assert(digits_run(src, self.cursor()) == 1 + digits_run(src, self.cursor()
                        + 1));
                }
                self.advance();
            }
            proof {
                assert(digits_run(src, self.cursor()) == 0);
                assert(self.cursor() == j1 + digits_run(src, j1));
                assert(self.cursor() == number_end(src, j0));
            }
        } else {
            proof {
                assert(d1 == number_end(src, j0));
            }
        }
        self.make_token(TokenKind::Number);
    }

    #[verifier::loop_isolation(false)]
    fn string(&mut self, end: char) -> (r: Result<(), ParseError>)
        requires
            old(self).wf_inner(),
            old(self).length >= 1,
            end == '"' || end == '\'',
        ensures
            match scan_str(
                old(self).src(),
                old(self).cursor(),
                old(self).line_no(),
                old(self).col_no(),
                end,
                false,
                Seq::empty(),
            ) {
                StrScan::Closed { value, at, line, col } => {
                    &&& r is Ok
                    &&& final(self).src() == old(self).src()
                    &&& final(self).start == old(self).start
                    &&& final(self).wf_inner()
                    &&& final(self).cursor() == at + 1
                    &&& final(self).line_no() == line
                    &&& final(self).col_no() == col + 1
                    &&& final(self).toks_out() == old(self).toks_out().push(
                        SpecToken {
                            kind: TokenKind::String,
                            lexeme: value,
                            line,
                            column: col + 1,
                            span: SpecSpan { lo: old(self).start_at(), hi: at + 1 },
                        },
                    )
                },
                StrScan::Unterminated { line } => {
                    &&& final(self).src() == old(self).src()
                    &&& r matches Err(e) && e.message@ == lex_err_msg(
                        LexErr::Unterminated { line },
                    )
                },
            },
    {
        let ghost src = self.src();
        let ghost j0 = self.cursor();
        let ghost l0 = self.line_no();
        let ghost c0 = self.col_no();
        let ghost start0 = self.start;
        let ghost toks0 = self.tokens@;
        let mut value = String::new();
        let mut escaped = false;
        proof {
            assert(value@ =~= Seq::<char>::empty());
        }
        loop
            invariant
                self.wf_inner(),
                self.source@ == src,
                self.start == start0,
                self.tokens@ == toks0,
                self.length >= 1,
                j0 <= self.cursor(),
                scan_str(src, self.cursor(), self.line_no(), self.col_no(), end, escaped, value@)
                    == scan_str(src, j0, l0, c0, end, false, Seq::empty()),
            decreases src.len() - self.cursor(),
        {
            if self.is_at_end() {
                let mut msg = String::new();
                msg.append("Unterminated string at line ");
                let line_str = text::dec_string(self.line);
                msg.append(line_str.as_str());
                msg.append(".");
                proof {
                    assert(msg@ =~= lex_err_msg(LexErr::Unterminated { line: self.line_no() }));
                }
                return Err(ParseError::new(msg.as_str()));
            }
            let c = self.peek();
            let ghost pre = *self;
            let ghost pre_value = value@;
            let ghost pre_escaped = escaped;
            if escaped {
                let escape_char = match c {
                    'n' => '\n',
                    't' => '\t',
                    'r' => '\r',
                    '\\' => '\\',
                    '"' => '"',
                    '\'' => '\'',
                    other => other,
                };
                proof {
                    assert(escape_char == esc_char(c));
                }
                text::push_char(&mut value, escape_char);
                escaped = false;
            } else if c == '\\' {
                escaped = true;
            } else if c == end {
                self.advance();
                self.make_token_with_lexeme(TokenKind::String, value);
                return Ok(());
            } else {
                text::push_char(&mut value, c);
            }
            if c == '\n' {
                self.line = self.line + 1;
                self.column = 0;
            } else {
                self.column = self.column + 1;
            }
            self.advance();
            proof {
                let i = pre.cursor();
                assert(0 <= i < src.len());
                assert(src[i] == c);
                assert(!(!pre_escaped && c == end));
                if pre_escaped {
                    assert(value@ == pre_value.push(esc_char(c)));
                    assert(!escaped);
                } else if c == '\\' {
                    assert(value@ == pre_value);
                    assert(escaped);
                } else {
                    assert(value@ == pre_value.push(c));
                    assert(!escaped);
                }
                assert(self.cursor() == i + 1);
                if c == '\n' {
                    assert(self.line_no() == pre.line_no() + 1);
                    assert(self.col_no() == 1);
                } else {
                    assert(self.line_no() == pre.line_no());
                    assert(self.col_no() == pre.col_no() + 2);
                }
                assert(scan_str(
                    src,
                    pre.cursor(),
                    pre.line_no(),
                    pre.col_no(),
                    end,
                    pre_escaped,
                    pre_value,
                ) == scan_str(
                    src,
                    self.cursor(),
                    self.line_no(),
                    self.col_no(),
                    end,
                    escaped,
                    value@,
                ));
            }
        }
    }

    #[verifier::loop_isolation(false)]
    fn identifier_or_keyword(&mut self)
        requires
            old(self).wf_inner(),
            old(self).length >= 1,
        ensures
            final(self).src() == old(self).src(),
            final(self).start == old(self).start,
            final(self).line == old(self).line,
            final(self).wf_inner(),
            final(self).cursor() == old(self).cursor() + alnum_run(
                old(self).src(),
                old(self).cursor(),
            ),
            final(self).column == old(self).column + (final(self).cursor() - old(self).cursor()),
            final(self).toks_out() == old(self).toks_out().push(
                SpecToken {
                    kind: keyword_kind(
                        old(self).src().subrange(old(self).start_at(), final(self).cursor()),
                    ),
                    lexeme: old(self).src().subrange(old(self).start_at(), final(self).cursor()),
                    line: old(self).line_no(),
                    column: old(self).col_no() + (final(self).cursor() - old(self).cursor()),
                    span: SpecSpan { lo: old(self).start_at(), hi: final(self).cursor() },
                },
            ),
    {
        let ghost src = self.src();
        let ghost j0 = self.cursor();
        let ghost col0 = self.col_no();
        let ghost start0 = self.start;
        let ghost line0 = self.line;
        let ghost toks0 = self.tokens@;
        while self.is_alpha_numeric(self.peek())
            invariant
                self.wf_inner(),
                self.source@ == src,
                self.start == start0,
                self.line == line0,
                self.tokens@ == toks0,
                self.length >= 1,
                j0 <= self.cursor(),
                self.col_no() == col0 + (self.cursor() - j0),
                alnum_run(src, j0) == (self.cursor() - j0) + alnum_run(src, self.cursor()),
            decreases src.len() - self.cursor(),
        {
            proof {
                assert(alnum_run(src, self.cursor()) == 1 + alnum_run(src, self.cursor() + 1));
            }
            self.advance();
        }
        proof {
            assert(alnum_run(src, self.cursor()) == 0);
            assert(self.cursor() == j0 + alnum_run(src, j0));
        }
        let cs = vstd::slice::slice_subrange(
            self.source.as_slice(),
            self.start,
            self.start + self.length,
        );
        let kind = classify_word(cs);
        let lexeme = text::string_from_chars(cs);
        self.make_token_with_lexeme(kind, lexeme);
    }

    fn scan_token(&mut self) -> (r: Result<(), ParseError>)
        requires
            old(self).wf_inner(),
            old(self).cursor() < old(self).src().len(),
        ensures
            final(self).src() == old(self).src(),
            match lex_step(
                old(self).src(),
                old(self).cursor(),
                old(self).line_no(),
                old(self).col_no(),
            ) {
                LexStep::Skip { next } => {
                    &&& r is Ok
                    &&& final(self).wf_inner()
                    &&& final(self).toks_out() == old(self).toks_out()
                    &&& final(self).cursor() == next.i
                    &&& final(self).line_no() == next.line
                    &&& final(self).col_no() == next.col
                    &&& final(self).start_at() == old(self).cursor()
                },
                LexStep::Emit { t, next } => {
                    &&& r is Ok
                    &&& final(self).wf_inner()
                    &&& final(self).toks_out() == old(self).toks_out().push(t)
                    &&& final(self).cursor() == next.i
                    &&& final(self).line_no() == next.line
                    &&& final(self).col_no() == next.col
                    &&& final(self).start_at() == old(self).cursor()
                },
                LexStep::Fail { e } => r matches Err(pe) && pe.message@ == lex_err_msg(e),
            },
    {
        self.sync_cursors();
        let ghost src = self.src();
        let ghost i0 = self.cursor();
        let ghost l0 = self.line_no();
        let ghost cl0 = self.col_no();
        let c: char = match self.advance() {
            Some(c) => c,
            None => '\0',
        };
        proof {
            assert(c == src[i0]);
            assert(src.subrange(i0, i0 + 1) =~= seq![src[i0]]);
        }
        match c {
            '\n' => {
                self.column = 1;
                self.line = self.line + 1;
                Ok(())
            },
            ' ' | '\t' | '\r' => Ok(()),
            '[' => {
                self.make_token(TokenKind::LeftBracket);
                Ok(())
            },
            ']' => {
                self.make_token(TokenKind::RightBracket);
                Ok(())
            },
            '{' => {
                self.make_token(TokenKind::LeftBrace);
                Ok(())
            },
            '}' => {
                self.make_token(TokenKind::RightBrace);
                Ok(())
            },
            ',' => {
                self.make_token(TokenKind::Comma);
                Ok(())
            },
            ':' => {
                self.make_token(TokenKind::Colon);
                Ok(())
            },
            '"' => self.string('"'),
            '\'' => self.string('\''),
            '-' => {
                let p = self.peek();
                if self.is_digit(p) {
                    self.number();
                    Ok(())
                } else {
                    Err(invalid_char_error(c, self.line))
                }
            },
            _ => {
                if self.is_digit(c) {
                    self.number();
                    Ok(())
                } else if self.is_alpha(c) {
                    self.identifier_or_keyword();
                    Ok(())
                } else {
                    Err(invalid_char_error(c, self.line))
                }
            },
        }
    }

    /// Tokenizes the whole source: an ordered token list terminated by
    /// exactly one end-of-input token, or the first lexical fault. The
    /// outcome is exactly what the specification scan [`lex`] gives on the
    /// source text.
    #[verifier::loop_isolation(false)]
    pub fn scan_tokens(&mut self) -> (r: Result<TokenStream, ParseError>)
        requires
            old(self).fresh(),
        ensures
            match r {
                Ok(ts) => lex(old(self).src()) matches Ok(toks) && ts.toks() == toks && ts.pos()
                    == 0,
                Err(e) => lex(old(self).src()) matches Err(le) && e.message@ == lex_err_msg(le),
            },
    {
        let ghost src = self.src();
        proof {
            assert(self.toks_out() =~= Seq::<SpecToken>::empty());
            match lex_from(src, 0, 1, 1, 0) {
                Ok(s) => {
                    assert(Seq::<SpecToken>::empty() + s =~= s);
                },
                Err(_) => {},
            }
        }
        while !self.is_at_end()
            invariant
                self.wf_inner(),
                self.source@ == src,
                lex(src) == lex_combine(
                    self.toks_out(),
                    lex_from(src, self.cursor(), self.line_no(), self.col_no(), self.start_at()),
                ),
            decreases src.len() - self.cursor(),
        {
            let ghost pre = *self;
            let step_result = self.scan_token();
            proof {
                lex_step_advances(src, pre.cursor(), pre.line_no(), pre.col_no());
            }
            match step_result {
                Ok(()) => {
                    proof {
                        match lex_step(src, pre.cursor(), pre.line_no(), pre.col_no()) {
                            LexStep::Skip { next } => {},
                            LexStep::Emit { t, next } => {
                                match lex_from(src, next.i, next.line, next.col, pre.cursor()) {
                                    Ok(rest) => {
                                        assert(pre.toks_out() + (seq![t] + rest)
                                            =~= pre.toks_out().push(t) + rest);
                                    },
                                    Err(_) => {},
                                }
                            },
                            LexStep::Fail { e } => {},
                        }
                    }
                },
                Err(e) => {
                    return Err(e);
                },
            }
        }
        let ghost line_end = self.line_no();
        let ghost col_end = self.col_no();
        let ghost start_end = self.start_at();
        let ghost toks_end = self.toks_out();
        proof {
            assert(lex_from(src, self.cursor(), line_end, col_end, start_end)
                == Ok::<Seq<SpecToken>, LexErr>(seq![eof_tok(src, line_end, col_end, start_end)]));
        }
        let mut eof_lexeme = String::new();
        text::push_char(&mut eof_lexeme, '\0');
        proof {
            assert(eof_lexeme@ =~= seq!['\0']);
        }
        self.make_token_with_lexeme(TokenKind::EndOfFile, eof_lexeme);
        proof {
            assert(toks_end + seq![eof_tok(src, line_end, col_end, start_end)] =~= self.toks_out());
        }
        let copied = clone_tokens(&self.tokens);
        Ok(TokenStream::new(copied))
    }

    fn make_token(&mut self, kind: TokenKind)
        requires
            old(self).wf_inner(),
        ensures
            final(self).source == old(self).source,
            final(self).line == old(self).line,
            final(self).column == old(self).column,
            final(self).start == old(self).start,
            final(self).length == old(self).length,
            final(self).wf_inner(),
            final(self).toks_out() == old(self).toks_out().push(
                SpecToken {
                    kind,
                    lexeme: old(self).src().subrange(old(self).start_at(), old(self).cursor()),
                    line: old(self).line_no(),
                    column: old(self).col_no(),
                    span: SpecSpan { lo: old(self).start_at(), hi: old(self).cursor() },
                },
            ),
    {
        let lexeme = self.current_lexeme();
        self.make_token_with_lexeme(kind, lexeme);
    }
}


/// Whether a character is skipped between tokens: space, tab, carriage
/// return or newline.
pub open spec fn is_ws_char(c: char) -> bool {
    c == ' ' || c == '\t' || c == '\r' || c == '\n'
}

/// A digit run is unmoved by an added prefix.
pub proof fn lemma_digits_run_shift(pre: Seq<char>, src: Seq<char>, i: int)
    requires
        0 <= i,
    ensures
        digits_run(pre + src, pre.len() + i) == digits_run(src, i),
    decreases src.len() - i,
{
    let full = pre + src;
    if i < src.len() {
        assert(full[pre.len() + i] == src[i]);
        if text::is_digit_char(src[i]) {
            lemma_digits_run_shift(pre, src, i + 1);
        }
    }
}

/// A letter-or-digit run is unmoved by an added prefix.
pub proof fn lemma_alnum_run_shift(pre: Seq<char>, src: Seq<char>, i: int)
    requires
        0 <= i,
    ensures
        alnum_run(pre + src, pre.len() + i) == alnum_run(src, i),
    decreases src.len() - i,
{
    let full = pre + src;
    if i < src.len() {
        assert(full[pre.len() + i] == src[i]);
        if text::is_digit_char(src[i]) || text::is_alpha_char(src[i]) {
            lemma_alnum_run_shift(pre, src, i + 1);
        }
    }
}

/// A string-literal scan is unmoved by an added prefix: the decoded text is
/// the same, closing at the shifted position, and it runs off the end of
/// one input exactly when it runs off the end of the other.
pub proof fn lemma_scan_str_shift(
    pre: Seq<char>,
    src: Seq<char>,
    i: int,
    l1: int,
    c1: int,
    l2: int,
    c2: int,
    quote: char,
    escaped: bool,
    acc: Seq<char>,
)
    requires
        0 <= i,
    ensures
        match (
            scan_str(pre + src, pre.len() + i, l1, c1, quote, escaped, acc),
            scan_str(src, i, l2, c2, quote, escaped, acc),
        ) {
            (StrScan::Closed { value: v1, at: a1, .. }, StrScan::Closed { value: v2, at: a2, .. }) => v1
                == v2 && a1 == pre.len() + a2,
            (StrScan::Unterminated { .. }, StrScan::Unterminated { .. }) => true,
            _ => false,
        },
    decreases src.len() - i,
{
    let full = pre + src;
    if i < src.len() {
        assert(full[pre.len() + i] == src[i]);
        let c = src[i];
        if !(!escaped && c == quote) {
            let acc2 = if escaped {
                acc.push(esc_char(c))
            } else if c == '\\' {
                acc
            } else {
                acc.push(c)
            };
            let esc2 = !escaped && c == '\\';
            lemma_scan_str_shift(
                pre,
                src,
                i + 1,
                if c == '\n' {
                    l1 + 1
                } else {
                    l1
                },
                if c == '\n' {
                    1
                } else {
                    c1 + 2
                },
                if c == '\n' {
                    l2 + 1
                } else {
                    l2
                },
                if c == '\n' {
                    1
                } else {
                    c2 + 2
                },
                quote,
                esc2,
                acc2,
            );
        }
    }
}

/// The scan from a position is unmoved by an added prefix: the same token
/// kinds and decoded texts come out in the same order, and one scan faults
/// exactly when the other does. Line and column counters are free on both
/// sides: they never steer the scan.
pub proof fn lemma_lex_shift(
    pre: Seq<char>,
    src: Seq<char>,
    i: int,
    l1: int,
    c1: int,
    p1: int,
    l2: int,
    c2: int,
    p2: int,
)
    requires
        0 <= i,
    ensures
        match (lex_from(pre + src, pre.len() + i, l1, c1, p1), lex_from(src, i, l2, c2, p2)) {
            (Ok(a), Ok(b)) => crate::json::toks_equiv(a, b),
            (Err(_), Err(_)) => true,
            _ => false,
        },
    decreases src.len() - i,
{
    let full = pre + src;
    if i >= src.len() {
        let a = seq![eof_tok(full, l1, c1, p1)];
        let b = seq![eof_tok(src, l2, c2, p2)];
        assert(crate::json::toks_equiv(a, b));
    } else {
        assert(full[pre.len() + i] == src[i]);
        let c = src[i];
        lex_step_advances(full, pre.len() + i, l1, c1);
        lex_step_advances(src, i, l2, c2);
        if c == '"' || c == '\'' {
            lemma_scan_str_shift(pre, src, i + 1, l1, c1 + 1, l2, c2 + 1, c, false, Seq::empty());
            scan_str_at_bound(full, pre.len() + i + 1, l1, c1 + 1, c, false, Seq::empty());
            scan_str_at_bound(src, i + 1, l2, c2 + 1, c, false, Seq::empty());
            match (
                scan_str(full, pre.len() + i + 1, l1, c1 + 1, c, false, Seq::empty()),
                scan_str(src, i + 1, l2, c2 + 1, c, false, Seq::empty()),
            ) {
                (
                    StrScan::Closed { value: v1, at: a1, line: sl1, col: sc1 },
                    StrScan::Closed { value: v2, at: a2, line: sl2, col: sc2 },
                ) => {
                    lemma_lex_shift(pre, src, a2 + 1, sl1, sc1 + 1, pre.len() + i, sl2, sc2 + 1, i);
                },
                _ => {},
            }
        } else if c == '-' || text::is_digit_char(c) {
            lemma_digits_run_shift(pre, src, i + 1);
            let d1 = i + 1 + digits_run(src, i + 1);
            lemma_digits_run_shift(pre, src, d1 + 1);
            if d1 < src.len() {
                assert(full[pre.len() + d1] == src[d1]);
            }
            if 0 <= d1 + 1 < src.len() {
                assert(full[pre.len() + d1 + 1] == src[d1 + 1]);
            }
            if 0 <= i + 1 < src.len() {
                assert(full[pre.len() + i + 1] == src[i + 1]);
            }
            assert(digit_at(full, pre.len() + i + 1) == digit_at(src, i + 1));
            if c == '-' && !digit_at(src, i + 1) {
            } else {
                let end = number_end(src, i + 1);
                assert(number_end(full, pre.len() + i + 1) == pre.len() + end);
                digits_run_bound(src, i + 1);
                digits_run_bound(src, d1 + 1);
                assert(full.subrange(pre.len() + i, pre.len() + end) =~= src.subrange(i, end));
                lemma_lex_shift(
                    pre,
                    src,
                    end,
                    l1,
                    c1 + (end - i),
                    pre.len() + i,
                    l2,
                    c2 + (end - i),
                    i,
                );
            }
        } else if text::is_alpha_char(c) {
            lemma_alnum_run_shift(pre, src, i + 1);
            let end = i + 1 + alnum_run(src, i + 1);
            alnum_run_bound(src, i + 1);
            assert(full.subrange(pre.len() + i, pre.len() + end) =~= src.subrange(i, end));
            lemma_lex_shift(
                pre,
                src,
                end,
                l1,
                c1 + (end - i),
                pre.len() + i,
                l2,
                c2 + (end - i),
                i,
            );
        } else if is_ws_char(c) {
            if c == '\n' {
                lemma_lex_shift(pre, src, i + 1, l1 + 1, 1, pre.len() + i, l2 + 1, 1, i);
            } else {
                lemma_lex_shift(pre, src, i + 1, l1, c1 + 1, pre.len() + i, l2, c2 + 1, i);
            }
        } else if c == '[' || c == ']' || c == '{' || c == '}' || c == ',' || c == ':' {
            assert(full.subrange(pre.len() + i, pre.len() + i + 1) =~= src.subrange(i, i + 1));
            lemma_lex_shift(pre, src, i + 1, l1, c1 + 1, pre.len() + i, l2, c2 + 1, i);
        } else {
        }
        match (lex_step(full, pre.len() + i, l1, c1), lex_step(src, i, l2, c2)) {
            (LexStep::Emit { t: t1, next: n1 }, LexStep::Emit { t: t2, next: n2 }) => {
                assert(crate::json::same_essence(t1, t2));
                match (
                    lex_from(full, n1.i, n1.line, n1.col, pre.len() + i),
                    lex_from(src, n2.i, n2.line, n2.col, i),
                ) {
                    (Ok(ra), Ok(rb)) => {
                        lemma_cons_equiv(t1, t2, ra, rb);
                    },
                    _ => {},
                }
            },
            _ => {},
        }
    }
}

/// Prepending tokens that agree on kind and text to equivalent token lists
/// keeps the lists equivalent.
proof fn lemma_cons_equiv(t1: SpecToken, t2: SpecToken, ra: Seq<SpecToken>, rb: Seq<SpecToken>)
    requires
        crate::json::same_essence(t1, t2),
        crate::json::toks_equiv(ra, rb),
    ensures
        crate::json::toks_equiv(seq![t1] + ra, seq![t2] + rb),
{
    let sa = seq![t1] + ra;
    let sb = seq![t2] + rb;
    assert forall|k: int| 0 <= k < sa.len() implies crate::json::same_essence(sa[k], sb[k]) by {
        if k >= 1 {
            assert(sa[k] == ra[k - 1] && sb[k] == rb[k - 1]);
        }
    }
}

} // verus!
