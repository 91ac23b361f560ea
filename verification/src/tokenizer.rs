//! The tokenizer: classifies raw text into a sequence of typed lexical
//! tokens, ending with an end-of-input marker.
//!
//! `spec_tokenize` is the mathematical description: it says, for any source
//! text, exactly which token sequence (or which failure) tokenizing yields.
//! `Tokenizer::tokenize` is proved to return exactly that.

use crate::errors::{ErrorView, ParseError};
use crate::fold::is_alphanum_char;
use crate::fold::is_alphanum_;
use crate::position::{PosView, Position};
use vstd::prelude::*;

verus! {

/// The kind of one lexical token: end-of-input, a whitespace run, one of the
/// seven single-character reserved symbols, a quoted string literal, or a
/// generic text run.
#[derive(Debug, Clone, Copy, PartialEq, Eq, Structural)]
pub enum TokenKind {
    Eof,
    Whitespace,
    TagBegin,
    TagEnd,
    Excl,
    Assign,
    Hyphen,
    Slash,
    Amp,
    StringLit,
    Text,
}

/// One lexical token: its kind, the scanner's position just after it was
/// consumed, and its text payload. Whitespace, symbol and end-of-input
/// tokens carry an empty payload; a string token carries the text between
/// the quotes; a text token carries the run itself.
#[derive(Debug, Clone, PartialEq)]
pub struct Token {
    pub kind: TokenKind,
    pub pos: Position,
    pub s: String,
}

/// The mathematical value of a `Token`.
pub struct TokenView {
    pub kind: TokenKind,
    pub pos: PosView,
    pub text: Seq<char>,
}

impl View for Token {
    type V = TokenView;

    open spec fn view(&self) -> TokenView {
        TokenView { kind: self.kind, pos: self.pos@, text: self.s@ }
    }
}

impl Token {
    pub fn new(kind: TokenKind, pos: Position, s: String) -> (t: Token)
        ensures
            t.kind == kind && t.pos == pos && t.s == s,
    {
        Token { kind, pos, s }
    }
}

/// The views of a whole token buffer.
pub open spec fn views(ts: Seq<Token>) -> Seq<TokenView> {
    ts.map_values(|t: Token| t@)
}

/// What the parser relies on of a tokenizer result: at least one token, the
/// last one the end-of-input marker, and no end-of-input marker anywhere
/// before it.
pub open spec fn wf_token_stream(ts: Seq<TokenView>) -> bool {
    &&& ts.len() >= 1
    &&& ts[ts.len() - 1].kind == TokenKind::Eof
    &&& forall|i: int| 0 <= i < ts.len() - 1 ==> ts[i].kind != TokenKind::Eof
}

/// Whitespace: space, tab or newline.
pub open spec fn is_ws_char(c: char) -> bool {
    c == '\n' || c == '\t' || c == ' '
}

/// Whether a character is whitespace.
pub fn is_ws(c: char) -> (r: bool)
    ensures
        r == is_ws_char(c),
{
    c == '\n' || c == '\t' || c == ' '
}

/// The seven reserved single-character symbols.
pub open spec fn is_reserved_char(c: char) -> bool {
    c == '<' || c == '>' || c == '!' || c == '=' || c == '-' || c == '/' || c == '&'
}

/// Whether a character is one of the seven reserved symbols.
pub fn is_reserved_symbol(c: char) -> (r: bool)
    ensures
        r == is_reserved_char(c),
{
    c == '<' || c == '>' || c == '!' || c == '=' || c == '-' || c == '/' || c == '&'
}

/// The token kind of a reserved symbol character. On a character that is no
/// reserved symbol the classification is never used; it falls back to `Amp`.
pub open spec fn symbol_kind(c: char) -> TokenKind {
    if c == '<' {
        TokenKind::TagBegin
    } else if c == '>' {
        TokenKind::TagEnd
    } else if c == '!' {
        TokenKind::Excl
    } else if c == '=' {
        TokenKind::Assign
    } else if c == '-' {
        TokenKind::Hyphen
    } else if c == '/' {
        TokenKind::Slash
    } else {
        TokenKind::Amp
    }
}

/// Maps a reserved symbol character to its token kind.
pub fn str_to_symbol_kind(c: char) -> (k: TokenKind)
    ensures
        k == symbol_kind(c),
{
    if c == '<' {
        TokenKind::TagBegin
    } else if c == '>' {
        TokenKind::TagEnd
    } else if c == '!' {
        TokenKind::Excl
    } else if c == '=' {
        TokenKind::Assign
    } else if c == '-' {
        TokenKind::Hyphen
    } else if c == '/' {
        TokenKind::Slash
    } else {
        TokenKind::Amp
    }
}

/// Scans a whitespace run from `i`, tracking line and column: returns the
/// index of the first non-whitespace character (or the length), with the line
/// number and column reached.
pub open spec fn ws_scan(src: Seq<char>, i: int, line: int, col: int) -> (int, int, int)
    decreases src.len() - i,
{
    if 0 <= i < src.len() && is_ws_char(src[i]) {
        if src[i] == '\n' {
            ws_scan(src, i + 1, line + 1, 0)
        } else {
            ws_scan(src, i + 1, line, col + 1)
        }
    } else {
        (i, line, col)
    }
}

/// The end of a maximal alphanumeric-or-underscore run starting at `i`.
pub open spec fn text_end(src: Seq<char>, i: int) -> int
    decreases src.len() - i,
{
    if 0 <= i < src.len() && is_alphanum_char(src[i]) {
        text_end(src, i + 1)
    } else {
        i
    }
}

/// The index of the first occurrence of the quote `q` at or after `i`, or the
/// length of the text if there is none.
pub open spec fn string_end(src: Seq<char>, i: int, q: char) -> int
    decreases src.len() - i,
{
    if 0 <= i < src.len() {
        if src[i] == q {
            i
        } else {
            string_end(src, i + 1, q)
        }
    } else {
        i
    }
}

/// The partner-quote search neither moves backwards nor runs past the end.
pub proof fn lemma_string_end_bounds(src: Seq<char>, i: int, q: char)
    requires
        0 <= i <= src.len(),
    ensures
        i <= string_end(src, i, q) <= src.len(),
    decreases src.len() - i,
{
    if i < src.len() && src[i] != q {
        lemma_string_end_bounds(src, i + 1, q);
    }
}

/// The token sequence of the source text from offset `i` on, with the scanner
/// at line `line` and column `col`: classification picks, in priority order,
/// a whitespace run, a reserved symbol, a quoted string literal, a maximal
/// alphanumeric-or-underscore run, or a single other character. The sequence
/// ends with the end-of-input marker; an unterminated string literal is the
/// one failure.
pub open spec fn spec_tokenize_from(src: Seq<char>, i: int, line: int, col: int) -> Result<
    Seq<TokenView>,
    ErrorView,
>
    decreases src.len() - i,
{
    if !(0 <= i < src.len()) {
        Ok(
            seq![
                TokenView {
                    kind: TokenKind::Eof,
                    pos: PosView { line, col, off: i },
                    text: Seq::empty(),
                },
            ],
        )
    } else {
        let c = src[i];
        if is_ws_char(c) {
            let (j0, l2, c2) = ws_scan(src, i, line, col);
            let j = if j0 <= i {
                i + 1
            } else if j0 > src.len() {
                src.len() as int
            } else {
                j0
            };
            let tok = TokenView {
                kind: TokenKind::Whitespace,
                pos: PosView { line: l2, col: c2, off: j },
                text: Seq::empty(),
            };
            match spec_tokenize_from(src, j, l2, c2) {
                Ok(rest) => Ok(seq![tok] + rest),
                Err(e) => Err(e),
            }
        } else if is_reserved_char(c) {
            let tok = TokenView {
                kind: symbol_kind(c),
                pos: PosView { line, col: col + 1, off: i + 1 },
                text: Seq::empty(),
            };
            match spec_tokenize_from(src, i + 1, line, col + 1) {
                Ok(rest) => Ok(seq![tok] + rest),
                Err(e) => Err(e),
            }
        } else if c == '\'' || c == '"' {
            let j0 = string_end(src, i + 1, c);
            let j = if j0 < i + 1 {
                i + 1
            } else {
                j0
            };
            if j >= src.len() {
                Err(ErrorView::UnterminatedString { pos: PosView { line, col, off: i } })
            } else {
                let tok = TokenView {
                    kind: TokenKind::StringLit,
                    pos: PosView { line, col: col + (j + 1 - i), off: j + 1 },
                    text: src.subrange(i + 1, j),
                };
                match spec_tokenize_from(src, j + 1, line, col + (j + 1 - i)) {
                    Ok(rest) => Ok(seq![tok] + rest),
                    Err(e) => Err(e),
                }
            }
        } else if is_alphanum_char(c) {
            let j0 = text_end(src, i);
            let j = if j0 <= i {
                i + 1
            } else if j0 > src.len() {
                src.len() as int
            } else {
                j0
            };
            let tok = TokenView {
                kind: TokenKind::Text,
                pos: PosView { line, col: col + (j - i), off: j },
                text: src.subrange(i, j),
            };
            match spec_tokenize_from(src, j, line, col + (j - i)) {
                Ok(rest) => Ok(seq![tok] + rest),
                Err(e) => Err(e),
            }
        } else {
            let tok = TokenView {
                kind: TokenKind::Text,
                pos: PosView { line, col: col + 1, off: i + 1 },
                text: src.subrange(i, i + 1),
            };
            match spec_tokenize_from(src, i + 1, line, col + 1) {
                Ok(rest) => Ok(seq![tok] + rest),
                Err(e) => Err(e),
            }
        }
    }
}

/// The token sequence (or failure) of a whole source text.
pub open spec fn spec_tokenize(src: Seq<char>) -> Result<Seq<TokenView>, ErrorView> {
    spec_tokenize_from(src, 0, 1, 0)
}

/// The scanner. It owns the text and a cursor position; `tokenize` drives it
/// over the whole text once.
pub struct Tokenizer {
    pub target: String,
    pub len: usize,
    pub pos: Position,
}

impl Tokenizer {
    /// The scanner's invariant: the recorded length is the character length
    /// of the text, the cursor is within bounds, and the line and column
    /// bookkeeping cannot overflow.
    pub open spec fn wf(&self) -> bool {
        &&& self.len == self.target@.len()
        &&& self.target@.len() < usize::MAX
        &&& self.pos.at_whole <= self.len
        &&& self.pos.at_line <= self.pos.at_whole
        &&& 1 <= self.pos.line_no <= 1 + self.pos.at_whole
    }

    pub fn new(target: &str) -> (t: Tokenizer)
        requires
            target@.len() < usize::MAX,
        ensures
            t.wf(),
            t.target@ == target@,
            t.pos == (Position { line_no: 1, at_line: 0, at_whole: 0 }),
    {
        let len = target.unicode_len();
        Tokenizer { target: String::from_str(target), len, pos: Position::new(1, 0, 0) }
    }

    /// Whether the cursor is at or past the end of the text.
    pub fn is_eof(&self) -> (r: bool)
        requires
            self.wf(),
        ensures
            r == (self.pos.at_whole >= self.target@.len()),
    {
        self.pos.at_whole >= self.len
    }

    /// Advances the cursor `n` characters within the current line.
    fn move_horizon(&mut self, n: usize)
        requires
            old(self).wf(),
            old(self).pos.at_whole + n <= old(self).target@.len(),
        ensures
            final(self).wf(),
            final(self).target == old(self).target,
            final(self).len == old(self).len,
            final(self).pos.at_whole == old(self).pos.at_whole + n,
            final(self).pos.at_line == old(self).pos.at_line + n,
            final(self).pos.line_no == old(self).pos.line_no,
    {
        self.pos.at_line = self.pos.at_line + n;
        self.pos.at_whole = self.pos.at_whole + n;
    }

    /// Advances the cursor over a newline: next line, column reset.
    fn next_line(&mut self)
        requires
            old(self).wf(),
            old(self).pos.at_whole < old(self).target@.len(),
        ensures
            final(self).wf(),
            final(self).target == old(self).target,
            final(self).len == old(self).len,
            final(self).pos.at_whole == old(self).pos.at_whole + 1,
            final(self).pos.at_line == 0,
            final(self).pos.line_no == old(self).pos.line_no + 1,
    {
        self.pos.at_whole = self.pos.at_whole + 1;
        self.pos.line_no = self.pos.line_no + 1;
        self.pos.at_line = 0;
    }

    /// The character under the cursor.
    pub fn current_char(&self) -> (c: char)
        requires
            self.wf(),
            self.pos.at_whole < self.target@.len(),
        ensures
            c == self.target@[self.pos.at_whole as int],
    {
        self.target.as_str().get_char(self.pos.at_whole)
    }

    /// The character `n` places past the cursor, without consuming anything.
    pub fn peek(&self, n: usize) -> (c: char)
        requires
            self.wf(),
            self.pos.at_whole + n < self.target@.len(),
        ensures
            c == self.target@[self.pos.at_whole + n],
    {
        self.target.as_str().get_char(self.pos.at_whole + n)
    }

    /// Whether the text at the cursor starts with the given word. Looking
    /// past the end of the text is no match.
    pub fn start_with(&self, word: &str) -> (r: bool)
        requires
            self.wf(),
        ensures
            r == (self.pos.at_whole + word@.len() <= self.target@.len()
                && self.target@.subrange(
                self.pos.at_whole as int,
                self.pos.at_whole + word@.len(),
            ) == word@),
    {
        let n = word.unicode_len();
        if self.len - self.pos.at_whole < n {
            proof {
                assert(self.pos.at_whole + word@.len() > self.target@.len());
            }
            return false;
        }
        let ghost sub = self.target@.subrange(
            self.pos.at_whole as int,
            self.pos.at_whole + word@.len(),
        );
        let mut k: usize = 0;
        while k < n
            invariant
                self.wf(),
                n == word@.len(),
                self.pos.at_whole + n <= self.target@.len(),
                k <= n,
                sub == self.target@.subrange(
                    self.pos.at_whole as int,
                    self.pos.at_whole + word@.len(),
                ),
                forall|m: int| 0 <= m < k ==> sub[m] == word@[m],
            decreases n - k,
        {
            if self.peek(k) != word.get_char(k) {
                proof {
                    assert(sub[k as int] != word@[k as int]);
                    assert(sub != word@);
                }
                return false;
            }
            k = k + 1;
        }
        proof {
            assert(sub =~= word@);
        }
        true
    }

    /// Consumes a quoted string literal: the cursor sits on the opening
    /// quote; on success the cursor sits past the closing quote and the
    /// content between the quotes is returned. When the text ends before the
    /// partner quote, nothing is consumed and the failure names the opening
    /// quote's position.
    fn consume_string(&mut self, is_single: bool) -> (r: Result<String, ParseError>)
        requires
            old(self).wf(),
            old(self).pos.at_whole < old(self).target@.len(),
            old(self).target@[old(self).pos.at_whole as int] == (if is_single {
                '\''
            } else {
                '"'
            }),
        ensures
            final(self).wf(),
            final(self).target == old(self).target,
            final(self).len == old(self).len,
            ({
                let q = if is_single {
                    '\''
                } else {
                    '"'
                };
                let start = old(self).pos.at_whole as int;
                let j = string_end(old(self).target@, start + 1, q);
                match r {
                    Ok(s) => {
                        &&& j < old(self).target@.len()
                        &&& s@ == old(self).target@.subrange(start + 1, j)
                        &&& final(self).pos.at_whole == j + 1
                        &&& final(self).pos.at_line == old(self).pos.at_line + (j + 1 - start)
                        &&& final(self).pos.line_no == old(self).pos.line_no
                    },
                    Err(e) => {
                        &&& j >= old(self).target@.len()
                        &&& e@ == (ErrorView::UnterminatedString { pos: old(self).pos@ })
                        &&& *final(self) == *old(self)
                    },
                }
            }),
    {
        let q = if is_single {
            '\''
        } else {
            '"'
        };
        let start = self.pos.at_whole;
        let mut j: usize = start + 1;
        while j < self.len && self.target.as_str().get_char(j) != q
            invariant
                self.wf(),
                start + 1 <= j <= self.len,
                string_end(self.target@, start + 1, q) == string_end(self.target@, j as int, q),
            decreases self.len - j,
        {
            j = j + 1;
        }
        if j >= self.len {
            proof {
                assert(string_end(self.target@, start + 1, q) == j as int);
            }
            return Err(ParseError::UnterminatedString { pos: self.pos });
        }
        proof {
            assert(string_end(self.target@, start + 1, q) == j as int);
        }
        let s = String::from_str(self.target.as_str().substring_char(start + 1, j));
        self.move_horizon(j + 1 - start);
        Ok(s)
    }

    /// Consumes a maximal whitespace run, keeping the line and column
    /// bookkeeping in step, and returns the run.
    fn consume_ws(&mut self) -> (s: String)
        requires
            old(self).wf(),
            old(self).pos.at_whole < old(self).target@.len(),
            is_ws_char(old(self).target@[old(self).pos.at_whole as int]),
        ensures
            final(self).wf(),
            final(self).target == old(self).target,
            final(self).len == old(self).len,
            ({
                let (j, l2, c2) = ws_scan(
                    old(self).target@,
                    old(self).pos.at_whole as int,
                    old(self).pos.line_no as int,
                    old(self).pos.at_line as int,
                );
                &&& final(self).pos.at_whole == j
                &&& final(self).pos.line_no == l2
                &&& final(self).pos.at_line == c2
            }),
            final(self).pos.at_whole > old(self).pos.at_whole,
            s@ == old(self).target@.subrange(
                old(self).pos.at_whole as int,
                final(self).pos.at_whole as int,
            ),
    {
        let start = self.pos.at_whole;
        while !self.is_eof() && is_ws(self.current_char())
            invariant
                self.wf(),
                self.target == old(self).target,
                self.len == old(self).len,
                start == old(self).pos.at_whole,
                start <= self.pos.at_whole,
                self.pos.at_whole == start ==> self.pos == old(self).pos,
                ws_scan(
                    self.target@,
                    old(self).pos.at_whole as int,
                    old(self).pos.line_no as int,
                    old(self).pos.at_line as int,
                ) == ws_scan(
                    self.target@,
                    self.pos.at_whole as int,
                    self.pos.line_no as int,
                    self.pos.at_line as int,
                ),
            decreases self.target@.len() - self.pos.at_whole,
        {
            let c = self.current_char();
            let ghost mid = *self;
            if c == '\n' {
                self.next_line();
            } else {
                self.move_horizon(1);
            }
            proof {
                assert(ws_scan(
                    self.target@,
                    mid.pos.at_whole as int,
                    mid.pos.line_no as int,
                    mid.pos.at_line as int,
                ) == ws_scan(
                    self.target@,
                    self.pos.at_whole as int,
                    self.pos.line_no as int,
                    self.pos.at_line as int,
                ));
            }
        }
        proof {
            assert(ws_scan(
                self.target@,
                self.pos.at_whole as int,
                self.pos.line_no as int,
                self.pos.at_line as int,
            ) == (self.pos.at_whole as int, self.pos.line_no as int, self.pos.at_line as int));
            if self.pos.at_whole == start {
                assert(is_ws_char(self.target@[start as int]));
                assert(false);
            }
        }
        String::from_str(self.target.as_str().substring_char(start, self.pos.at_whole))
    }

    /// Consumes one reserved symbol character and returns it as text.
    fn consume_symbol(&mut self) -> (s: String)
        requires
            old(self).wf(),
            old(self).pos.at_whole < old(self).target@.len(),
        ensures
            final(self).wf(),
            final(self).target == old(self).target,
            final(self).len == old(self).len,
            final(self).pos.at_whole == old(self).pos.at_whole + 1,
            final(self).pos.at_line == old(self).pos.at_line + 1,
            final(self).pos.line_no == old(self).pos.line_no,
            s@ == old(self).target@.subrange(
                old(self).pos.at_whole as int,
                old(self).pos.at_whole + 1,
            ),
    {
        let start = self.pos.at_whole;
        let s = String::from_str(self.target.as_str().substring_char(start, start + 1));
        self.move_horizon(1);
        s
    }

    /// Consumes a text run: a maximal alphanumeric-or-underscore run when the
    /// cursor sits on such a character, otherwise the single character under
    /// the cursor.
    fn consume_text(&mut self) -> (s: String)
        requires
            old(self).wf(),
            old(self).pos.at_whole < old(self).target@.len(),
        ensures
            final(self).wf(),
            final(self).target == old(self).target,
            final(self).len == old(self).len,
            final(self).pos.line_no == old(self).pos.line_no,
            ({
                let start = old(self).pos.at_whole as int;
                let j = if is_alphanum_char(old(self).target@[start]) {
                    text_end(old(self).target@, start)
                } else {
                    start + 1
                };
                &&& final(self).pos.at_whole == j
                &&& final(self).pos.at_line == old(self).pos.at_line + (j - start)
                &&& final(self).pos.at_whole > old(self).pos.at_whole
                &&& s@ == old(self).target@.subrange(start, j)
            }),
    {
        let start = self.pos.at_whole;
        if !is_alphanum_(self.current_char()) {
            let s = String::from_str(self.target.as_str().substring_char(start, start + 1));
            self.move_horizon(1);
            return s;
        }
        while !self.is_eof() && is_alphanum_(self.current_char())
            invariant
                self.wf(),
                self.target == old(self).target,
                self.len == old(self).len,
                start <= self.pos.at_whole,
                self.pos.line_no == old(self).pos.line_no,
                self.pos.at_line == old(self).pos.at_line + (self.pos.at_whole - start),
                text_end(self.target@, start as int) == text_end(
                    self.target@,
                    self.pos.at_whole as int,
                ),
            decreases self.target@.len() - self.pos.at_whole,
        {
            self.move_horizon(1);
        }
        String::from_str(self.target.as_str().substring_char(start, self.pos.at_whole))
    }

    /// Tokenizes the whole text: returns exactly the token sequence that
    /// `spec_tokenize` gives the text, or its failure. The sequence is
    /// nonempty, ends with the end-of-input marker, and has the marker
    /// nowhere else.
    pub fn tokenize(&mut self) -> (r: Result<Vec<Token>, ParseError>)
        requires
            old(self).wf(),
            old(self).pos == (Position { line_no: 1, at_line: 0, at_whole: 0 }),
        ensures
            match r {
                Ok(toks) => {
                    &&& spec_tokenize(old(self).target@) == Ok::<Seq<TokenView>, ErrorView>(
                        views(toks@),
                    )
                    &&& wf_token_stream(views(toks@))
                },
                Err(e) => spec_tokenize(old(self).target@) == Err::<Seq<TokenView>, ErrorView>(e@),
            },
    {
        let mut toks: Vec<Token> = Vec::new();
        proof {
            assert(views(toks@) =~= Seq::<TokenView>::empty());
        }
        while !self.is_eof()
            invariant
                self.wf(),
                self.target == old(self).target,
                self.len == old(self).len,
                forall|k: int| 0 <= k < toks@.len() ==> views(toks@)[k].kind != TokenKind::Eof,
                spec_tokenize(old(self).target@) == (match spec_tokenize_from(
                    self.target@,
                    self.pos.at_whole as int,
                    self.pos.line_no as int,
                    self.pos.at_line as int,
                ) {
                    Ok(rest) => Ok::<Seq<TokenView>, ErrorView>(views(toks@) + rest),
                    Err(e) => Err(e),
                }),
            decreases self.target@.len() - self.pos.at_whole,
        {
            let ghost pre = *self;
            let ghost src = self.target@;
            let ghost i = pre.pos.at_whole as int;
            let ghost l = pre.pos.line_no as int;
            let ghost cc = pre.pos.at_line as int;
            let c = self.current_char();
            let tok: Token;
            if is_ws(c) {
                let _ws = self.consume_ws();
                tok = Token::new(TokenKind::Whitespace, self.pos, String::new());
            } else if is_reserved_symbol(c) {
                let _sym = self.consume_symbol();
                tok = Token::new(str_to_symbol_kind(c), self.pos, String::new());
            } else if c == '\'' || c == '"' {
                let s = match self.consume_string(c == '\'') {
                    Ok(s) => s,
                    Err(e) => {
                        proof {
                            lemma_string_end_bounds(src, i + 1, c);
                            assert(spec_tokenize_from(src, i, l, cc) == Err::<
                                Seq<TokenView>,
                                ErrorView,
                            >(e@));
                        }
                        return Err(e);
                    },
                };
                proof {
                    lemma_string_end_bounds(src, i + 1, c);
                }
                tok = Token::new(TokenKind::StringLit, self.pos, s);
            } else {
                let t = self.consume_text();
                tok = Token::new(TokenKind::Text, self.pos, t);
            }
            let ghost old_toks = toks@;
            toks.push(tok);
            proof {
                assert(tok@.text =~= tok.s@);
                let step = spec_tokenize_from(src, i, l, cc);
                let next = spec_tokenize_from(
                    src,
                    self.pos.at_whole as int,
                    self.pos.line_no as int,
                    self.pos.at_line as int,
                );
                if is_ws_char(c) {
                    assert(tok@.text =~= Seq::<char>::empty());
                } else if is_reserved_char(c) {
                    assert(tok@.text =~= Seq::<char>::empty());
                }
                assert(step == (match next {
                    Ok(rest) => Ok::<Seq<TokenView>, ErrorView>(seq![tok@] + rest),
                    Err(e) => Err(e),
                }));
                assert(views(toks@) =~= views(old_toks) + seq![tok@]);
                match next {
                    Ok(rest) => {
                        assert(views(old_toks) + (seq![tok@] + rest) =~= views(toks@) + rest);
                    },
                    Err(_) => {},
                }
            }
        }
        let eof_tok = Token::new(TokenKind::Eof, self.pos, String::new());
        let ghost old_toks = toks@;
        toks.push(eof_tok);
        proof {
            assert(eof_tok@.text =~= Seq::<char>::empty());
            assert(spec_tokenize_from(
                self.target@,
                self.pos.at_whole as int,
                self.pos.line_no as int,
                self.pos.at_line as int,
            ) == Ok::<Seq<TokenView>, ErrorView>(seq![eof_tok@]));
            assert(views(toks@) =~= views(old_toks) + seq![eof_tok@]);
            assert(wf_token_stream(views(toks@)));
        }
        Ok(toks)
    }
}

} // verus!
