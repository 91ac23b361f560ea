//! The parser: consumes the token sequence with one forward cursor and
//! builds the forest of syntax nodes by recursive descent, or stops at the
//! first failure.
//!
//! The grammar, over token kinds plus case-folded literal text:
//!
//! ```text
//! document := node*
//! node     := tag | text_run
//! tag      := "<" ( decl | element )
//! decl     := "!" ( comment | doctype )
//! comment  := "-" "-" comment_body "--" ">"
//! doctype  := text("doctype", fold-case) ws text ">"
//! element  := identifier ws? attrs? ws? ( "/" ">" | ">" node* "/" identifier ">" )
//! attrs    := ( identifier "=" string ws? )*
//! text_run := text_token+
//! ```
//!
//! Each `sp_` function is the mathematical description of one grammar rule:
//! a pure function of the token sequence and a cursor to the parsed value
//! and the new cursor, or the failure. The executable methods are proved to
//! return exactly what these functions say.

use crate::errors::{ErrorView, ParseError};
use crate::fold::{lower_seq, to_lower};
use crate::node::{node_views, Node, NodeView};
use crate::tokenizer::{views, wf_token_stream, Token, TokenKind, TokenView};
use vstd::prelude::*;

verus! {

/// Elements may nest at most this deep; deeper input fails with
/// `NestingTooDeep` instead of exhausting the call stack.
pub const MAX_NESTING_DEPTH: usize = 256;

/// One whitespace token is skipped, if the cursor sits on one.
pub open spec fn sp_skip_ws(toks: Seq<TokenView>, c: int) -> int {
    if 0 <= c < toks.len() && toks[c].kind == TokenKind::Whitespace {
        c + 1
    } else {
        c
    }
}

/// A demanded text token, matched against a literal: consumed when its
/// payload equals the literal (case-folded unless `cs`), otherwise the
/// failure names what was demanded and what was found.
pub open spec fn sp_expect_text(toks: Seq<TokenView>, c: int, expected: Seq<char>, cs: bool) -> Result<
    int,
    ErrorView,
> {
    let cur = toks[c];
    if !(0 <= c < toks.len() && cur.kind == TokenKind::Text) {
        Err(ErrorView::UnexpectedToken { expected: TokenKind::Text, found: cur })
    } else if (cs && cur.text == expected) || (!cs && lower_seq(cur.text) == expected) {
        Ok(c + 1)
    } else {
        Err(ErrorView::UnexpectedText { expected, found: Some(cur) })
    }
}

/// A text run: the concatenation of the text tokens from the cursor up to
/// the first token that is neither text nor whitespace; the whitespace
/// between them is discarded. Returns the concatenation and the new cursor.
pub open spec fn sp_text_scan(toks: Seq<TokenView>, c: int) -> (Seq<char>, int)
    decreases toks.len() - c,
{
    if 0 <= c < toks.len() && (toks[c].kind == TokenKind::Text || toks[c].kind
        == TokenKind::Whitespace) {
        let (rest, j) = sp_text_scan(toks, c + 1);
        (
            if toks[c].kind == TokenKind::Text {
                toks[c].text + rest
            } else {
                rest
            },
            j,
        )
    } else {
        (Seq::empty(), c)
    }
}

/// A text node: the run must start with a text token; otherwise the failure
/// names the token found.
pub open spec fn sp_text(toks: Seq<TokenView>, c: int) -> Result<(NodeView, int), ErrorView> {
    if 0 <= c < toks.len() && toks[c].kind == TokenKind::Text {
        let (text, j) = sp_text_scan(toks, c);
        Ok((NodeView::Text { text }, j))
    } else {
        Err(ErrorView::UnexpectedToken { expected: TokenKind::Text, found: toks[c] })
    }
}

/// A comment body scan. `Closed` carries the collapsed text and the cursor
/// past the closing `-->`; `Unclosed` the cursor at the end-of-input marker
/// when the comment never closes. Whitespace runs collapse to one space;
/// one or two hyphens not closing the comment are kept as text; any other
/// token contributes its payload.
pub enum CommentScan {
    Closed { text: Seq<char>, next: int },
    Unclosed { next: int },
}

pub open spec fn sp_comment_body(toks: Seq<TokenView>, c: int) -> CommentScan
    decreases toks.len() - c,
{
    if !(0 <= c < toks.len()) || toks[c].kind == TokenKind::Eof {
        CommentScan::Unclosed { next: c }
    } else if toks[c].kind == TokenKind::Hyphen {
        if c + 1 < toks.len() && toks[c + 1].kind == TokenKind::Hyphen {
            if c + 2 < toks.len() && toks[c + 2].kind == TokenKind::TagEnd {
                CommentScan::Closed { text: Seq::empty(), next: c + 3 }
            } else {
                match sp_comment_body(toks, c + 2) {
                    CommentScan::Closed { text, next } => CommentScan::Closed {
                        text: seq!['-', '-'] + text,
                        next,
                    },
                    CommentScan::Unclosed { next } => CommentScan::Unclosed { next },
                }
            }
        } else {
            match sp_comment_body(toks, c + 1) {
                CommentScan::Closed { text, next } => CommentScan::Closed {
                    text: seq!['-'] + text,
                    next,
                },
                CommentScan::Unclosed { next } => CommentScan::Unclosed { next },
            }
        }
    } else if toks[c].kind == TokenKind::Whitespace {
        match sp_comment_body(toks, c + 1) {
            CommentScan::Closed { text, next } => CommentScan::Closed {
                text: seq![' '] + text,
                next,
            },
            CommentScan::Unclosed { next } => CommentScan::Unclosed { next },
        }
    } else {
        match sp_comment_body(toks, c + 1) {
            CommentScan::Closed { text, next } => CommentScan::Closed {
                text: toks[c].text + text,
                next,
            },
            CommentScan::Unclosed { next } => CommentScan::Unclosed { next },
        }
    }
}

/// A doctype declaration: the literal `doctype` in any case, one whitespace
/// token, the type name (stored lower-cased), and `>`.
pub open spec fn sp_doctype(toks: Seq<TokenView>, c: int) -> Result<(NodeView, int), ErrorView> {
    match sp_expect_text(toks, c, "doctype"@, false) {
        Err(e) => Err(e),
        Ok(c1) => {
            if !(c1 < toks.len() && toks[c1].kind == TokenKind::Whitespace) {
                Err(
                    ErrorView::UnexpectedToken {
                        expected: TokenKind::Whitespace,
                        found: toks[c1],
                    },
                )
            } else {
                let c2 = c1 + 1;
                if !(c2 < toks.len() && toks[c2].kind == TokenKind::Text) {
                    Err(ErrorView::UnexpectedToken { expected: TokenKind::Text, found: toks[c2] })
                } else {
                    let c3 = c2 + 1;
                    if !(c3 < toks.len() && toks[c3].kind == TokenKind::TagEnd) {
                        Err(
                            ErrorView::UnexpectedToken {
                                expected: TokenKind::TagEnd,
                                found: toks[c3],
                            },
                        )
                    } else {
                        Ok((NodeView::DoctypeTag { name: lower_seq(toks[c2].text) }, c3 + 1))
                    }
                }
            }
        },
    }
}

/// A declaration tag, after `<!`: two hyphens open a comment; anything else
/// is tried as a doctype. A comment that never closes runs to the end of the
/// input and what follows is tried as a doctype there, which fails on the
/// end-of-input marker.
pub open spec fn sp_decl(toks: Seq<TokenView>, c: int) -> Result<(NodeView, int), ErrorView> {
    if 0 <= c < toks.len() && toks[c].kind == TokenKind::Hyphen {
        if c + 1 < toks.len() && toks[c + 1].kind == TokenKind::Hyphen {
            match sp_comment_body(toks, c + 2) {
                CommentScan::Closed { text, next } => Ok((NodeView::CommentTag { text }, next)),
                CommentScan::Unclosed { next } => sp_doctype(toks, next),
            }
        } else {
            Err(ErrorView::UnexpectedToken { expected: TokenKind::Hyphen, found: toks[c + 1] })
        }
    } else {
        sp_doctype(toks, c)
    }
}

/// The attribute list of a tag: `name = "value"` groups with optional
/// whitespace, until `>` or `/` (or the end of the input). Names are stored
/// lower-cased; values must be quoted strings.
pub open spec fn sp_params(toks: Seq<TokenView>, c: int) -> Result<
    (Seq<NodeView>, int),
    ErrorView,
>
    decreases toks.len() - c,
{
    if !(0 <= c < toks.len()) || toks[c].kind == TokenKind::Eof {
        Ok((Seq::empty(), c))
    } else {
        let c1 = sp_skip_ws(toks, c);
        if c1 < toks.len() && (toks[c1].kind == TokenKind::TagEnd || toks[c1].kind
            == TokenKind::Slash) {
            Ok((Seq::empty(), c1))
        } else {
            let c2 = sp_skip_ws(toks, c1);
            if c2 < toks.len() && toks[c2].kind == TokenKind::Text {
                let c3 = c2 + 1;
                if c3 < toks.len() && toks[c3].kind == TokenKind::Assign {
                    let c4 = c3 + 1;
                    if c4 < toks.len() && toks[c4].kind == TokenKind::StringLit {
                        let c5 = sp_skip_ws(toks, c4 + 1);
                        let param = NodeView::Parameter {
                            name: Box::new(
                                NodeView::Identifier { name: lower_seq(toks[c2].text) },
                            ),
                            value: Box::new(NodeView::StringLit { value: toks[c4].text }),
                        };
                        match sp_params(toks, c5) {
                            Ok((rest, cf)) => Ok((seq![param] + rest, cf)),
                            Err(e) => Err(e),
                        }
                    } else {
                        Err(
                            ErrorView::UnexpectedToken {
                                expected: TokenKind::StringLit,
                                found: toks[c4],
                            },
                        )
                    }
                } else {
                    Err(
                        ErrorView::UnexpectedToken {
                            expected: TokenKind::Assign,
                            found: toks[c3],
                        },
                    )
                }
            } else {
                Err(ErrorView::UnexpectedToken { expected: TokenKind::Text, found: toks[c2] })
            }
        }
    }
}

/// The attribute list as a node: absent when there are no attributes.
pub open spec fn opt_params(ps: Seq<NodeView>) -> Option<Box<NodeView>> {
    if ps.len() == 0 {
        None
    } else {
        Some(Box::new(NodeView::Parameters { children: ps }))
    }
}

/// The child list as a field: absent when there are no children.
pub open spec fn opt_children(cs: Seq<NodeView>) -> Option<Seq<NodeView>> {
    if cs.len() == 0 {
        None
    } else {
        Some(cs)
    }
}

/// A tag, after `<`. `Ok((None, c))` reports a close tag: the cursor still
/// sits on its `/` and nothing was consumed. A `!` hands over to the
/// declaration rule; otherwise the element rule runs: name, attributes,
/// then either `/>` (a solo tag) or `>`, the children, and the matching
/// close tag, whose case-folded name must equal the open name.
pub open spec fn sp_tag(toks: Seq<TokenView>, c: int, depth: int) -> Result<
    (Option<NodeView>, int),
    ErrorView,
>
    decreases toks.len() - c, 0int,
{
    if 0 <= c < toks.len() && toks[c].kind == TokenKind::Excl {
        match sp_decl(toks, c + 1) {
            Ok((node, cf)) => Ok((Some(node), cf)),
            Err(e) => Err(e),
        }
    } else if 0 <= c < toks.len() && toks[c].kind == TokenKind::Slash {
        Ok((None, c))
    } else if 0 <= c < toks.len() && toks[c].kind == TokenKind::Text {
        let name = lower_seq(toks[c].text);
        let c1 = sp_skip_ws(toks, c + 1);
        match sp_params(toks, c1) {
            Err(e) => Err(e),
            Ok((params, c2raw)) => {
                let c2 = if c2raw < c1 {
                    c1
                } else if c2raw > toks.len() {
                    toks.len() as int
                } else {
                    c2raw
                };
                let c3 = sp_skip_ws(toks, c2);
                if c3 < toks.len() && toks[c3].kind == TokenKind::Slash {
                    if c3 + 1 < toks.len() && toks[c3 + 1].kind == TokenKind::TagEnd {
                        Ok((Some(NodeView::SoloTag { name, params: opt_params(params) }), c3 + 2))
                    } else {
                        Err(
                            ErrorView::UnexpectedToken {
                                expected: TokenKind::TagEnd,
                                found: toks[c3 + 1],
                            },
                        )
                    }
                } else if c3 < toks.len() && toks[c3].kind == TokenKind::TagEnd {
                    match sp_nodes(toks, c3 + 1, depth + 1) {
                        Err(e) => Err(e),
                        Ok((children, c4)) => {
                            if c4 < toks.len() && toks[c4].kind == TokenKind::Slash {
                                let c5 = c4 + 1;
                                if c5 < toks.len() && toks[c5].kind == TokenKind::Text {
                                    let close = lower_seq(toks[c5].text);
                                    if c5 + 1 < toks.len() && toks[c5 + 1].kind
                                        == TokenKind::TagEnd {
                                        if name != close {
                                            Err(ErrorView::TagMissMatch { open: name, close })
                                        } else {
                                            Ok(
                                                (
                                                    Some(
                                                        NodeView::Tag {
                                                            name,
                                                            params: opt_params(params),
                                                            children: opt_children(children),
                                                        },
                                                    ),
                                                    c5 + 2,
                                                ),
                                            )
                                        }
                                    } else {
                                        Err(
                                            ErrorView::UnexpectedToken {
                                                expected: TokenKind::TagEnd,
                                                found: toks[c5 + 1],
                                            },
                                        )
                                    }
                                } else {
                                    Err(
                                        ErrorView::UnexpectedToken {
                                            expected: TokenKind::Text,
                                            found: toks[c5],
                                        },
                                    )
                                }
                            } else {
                                Err(
                                    ErrorView::UnexpectedToken {
                                        expected: TokenKind::Slash,
                                        found: toks[c4],
                                    },
                                )
                            }
                        },
                    }
                } else {
                    Err(ErrorView::UnexpectedToken { expected: TokenKind::TagEnd, found: toks[c3] })
                }
            },
        }
    } else {
        Err(ErrorView::UnexpectedToken { expected: TokenKind::Text, found: toks[c] })
    }
}

/// A run of sibling nodes at one nesting depth, until the end of the input
/// or a close tag. Past the depth bound the parse fails instead of
/// recursing further.
pub open spec fn sp_nodes(toks: Seq<TokenView>, c: int, depth: int) -> Result<
    (Seq<NodeView>, int),
    ErrorView,
>
    decreases toks.len() - c, 1int,
{
    if depth > MAX_NESTING_DEPTH {
        Err(ErrorView::NestingTooDeep)
    } else if !(0 <= c < toks.len()) || toks[c].kind == TokenKind::Eof {
        Ok((Seq::empty(), c))
    } else {
        let c1 = sp_skip_ws(toks, c);
        if !(c1 < toks.len()) || toks[c1].kind == TokenKind::Eof {
            Ok((Seq::empty(), c1))
        } else if toks[c1].kind == TokenKind::TagBegin {
            match sp_tag(toks, c1 + 1, depth) {
                Err(e) => Err(e),
                Ok((None, c2)) => Ok((Seq::empty(), c2)),
                Ok((Some(node), c2raw)) => {
                    let c2a = if c2raw <= c1 + 1 {
                        c1 + 2
                    } else {
                        c2raw
                    };
                    let c2 = if c2a > toks.len() {
                        toks.len() as int
                    } else {
                        c2a
                    };
                    let c3 = sp_skip_ws(toks, c2);
                    match sp_nodes(toks, c3, depth) {
                        Ok((rest, cf)) => Ok((seq![node] + rest, cf)),
                        Err(e) => Err(e),
                    }
                },
            }
        } else {
            match sp_text(toks, c1) {
                Err(e) => Err(e),
                Ok((node, c2raw)) => {
                    let c2a = if c2raw <= c1 {
                        c1 + 1
                    } else {
                        c2raw
                    };
                    let c2 = if c2a > toks.len() {
                        toks.len() as int
                    } else {
                        c2a
                    };
                    let c3 = sp_skip_ws(toks, c2);
                    match sp_nodes(toks, c3, depth) {
                        Ok((rest, cf)) => Ok((seq![node] + rest, cf)),
                        Err(e) => Err(e),
                    }
                },
            }
        }
    }
}

/// The whole document: the forest of top-level siblings, absent rather than
/// empty when there are none.
pub open spec fn sp_parse(toks: Seq<TokenView>) -> Result<Option<Seq<NodeView>>, ErrorView> {
    match sp_nodes(toks, 0, 0) {
        Ok((nodes, _)) => Ok(
            if nodes.len() == 0 {
                None
            } else {
                Some(nodes)
            },
        ),
        Err(e) => Err(e),
    }
}

/// The parser: the token buffer and one forward cursor. The buffer is set
/// by `parse` and consumed monotonically; parsing never revisits an earlier
/// token.
pub struct Parser {
    pub tokens: Vec<Token>,
    pub cursor: usize,
}

impl Parser {
    /// The views of the held token buffer.
    pub open spec fn toks(&self) -> Seq<TokenView> {
        views(self.tokens@)
    }

    /// The parser's invariant while a parse runs: the buffer is a
    /// well-formed token stream and the cursor sits on a token.
    pub open spec fn wf(&self) -> bool {
        &&& wf_token_stream(self.toks())
        &&& self.cursor < self.tokens@.len()
    }

    pub fn new() -> (p: Parser)
        ensures
            p.tokens@.len() == 0,
            p.cursor == 0,
    {
        Parser { tokens: Vec::new(), cursor: 0 }
    }

    /// The token under the cursor.
    fn current_token(&self) -> (t: &Token)
        requires
            self.wf(),
        ensures
            *t == self.tokens@[self.cursor as int],
    {
        &self.tokens[self.cursor]
    }

    /// Whether the cursor sits on the end-of-input marker.
    fn is_eof(&self) -> (r: bool)
        requires
            self.wf(),
        ensures
            r == (self.toks()[self.cursor as int].kind == TokenKind::Eof),
    {
        self.tokens[self.cursor].kind == TokenKind::Eof
    }

    /// Consumes the token under the cursor, which must not be the
    /// end-of-input marker, and returns a copy of it.
    fn consume(&mut self) -> (t: Token)
        requires
            old(self).wf(),
            old(self).toks()[old(self).cursor as int].kind != TokenKind::Eof,
        ensures
            final(self).wf(),
            final(self).tokens == old(self).tokens,
            final(self).cursor == old(self).cursor + 1,
            t@ == old(self).toks()[old(self).cursor as int],
    {
        let t = copy_token(&self.tokens[self.cursor]);
        let n = self.tokens.len();
        proof {
            assert(self.toks()[self.toks().len() - 1].kind == TokenKind::Eof);
            assert(self.cursor < n);
        }
        self.cursor = self.cursor + 1;
        t
    }

    /// Consumes the token under the cursor when it has the wanted kind;
    /// otherwise consumes nothing and returns nothing.
    fn consume_kind(&mut self, kind: TokenKind) -> (r: Option<Token>)
        requires
            old(self).wf(),
            kind != TokenKind::Eof,
        ensures
            final(self).wf(),
            final(self).tokens == old(self).tokens,
            ({
                let cur = old(self).toks()[old(self).cursor as int];
                if cur.kind == kind {
                    &&& final(self).cursor == old(self).cursor + 1
                    &&& match r {
                        Some(t) => t@ == cur,
                        None => false,
                    }
                } else {
                    &&& *final(self) == *old(self)
                    &&& r is None
                }
            }),
    {
        if self.tokens[self.cursor].kind == kind {
            Some(self.consume())
        } else {
            None
        }
    }

    /// Demands a token of the wanted kind: consumes and returns it, or fails
    /// with `UnexpectedToken` naming the kind demanded and the token found.
    fn expect_kind(&mut self, kind: TokenKind) -> (r: Result<Token, ParseError>)
        requires
            old(self).wf(),
            kind != TokenKind::Eof,
        ensures
            final(self).wf(),
            final(self).tokens == old(self).tokens,
            ({
                let cur = old(self).toks()[old(self).cursor as int];
                if cur.kind == kind {
                    &&& final(self).cursor == old(self).cursor + 1
                    &&& match r {
                        Ok(t) => t@ == cur,
                        Err(_) => false,
                    }
                } else {
                    &&& *final(self) == *old(self)
                    &&& match r {
                        Ok(_) => false,
                        Err(e) => e@ == (ErrorView::UnexpectedToken {
                            expected: kind,
                            found: cur,
                        }),
                    }
                }
            }),
    {
        if self.tokens[self.cursor].kind == kind {
            Ok(self.consume())
        } else {
            Err(
                ParseError::UnexpectedToken {
                    expected: kind,
                    found: copy_token(&self.tokens[self.cursor]),
                },
            )
        }
    }

    /// Demands a text token whose payload equals the given literal, either
    /// exactly or under the case fold.
    fn expect_text(&mut self, text: &str, case_sensitive: bool) -> (r: Result<(), ParseError>)
        requires
            old(self).wf(),
        ensures
            final(self).wf(),
            final(self).tokens == old(self).tokens,
            match r {
                Ok(_) => sp_expect_text(
                    old(self).toks(),
                    old(self).cursor as int,
                    text@,
                    case_sensitive,
                ) == Ok::<int, ErrorView>(final(self).cursor as int),
                Err(e) => sp_expect_text(
                    old(self).toks(),
                    old(self).cursor as int,
                    text@,
                    case_sensitive,
                ) == Err::<int, ErrorView>(e@),
            },
    {
        match self.expect_kind(TokenKind::Text) {
            Err(e) => Err(e),
            Ok(tok) => {
                let expected = String::from_str(text);
                if case_sensitive && tok.s.eq(&expected) {
                    return Ok(());
                }
                if !case_sensitive && to_lower(tok.s.as_str()).eq(&expected) {
                    return Ok(());
                }
                Err(ParseError::UnexpectedText { expected, found: Some(Box::new(tok)) })
            },
        }
    }
}

/// An owned copy of a token.
fn copy_token(t: &Token) -> (r: Token)
    ensures
        r == *t,
{
    Token { kind: t.kind, pos: t.pos, s: t.s.clone() }
}

/// The attribute pairs inside an optional attribute-list node.
pub open spec fn params_view(p: Option<Box<Node>>) -> Seq<NodeView> {
    match p {
        None => Seq::empty(),
        Some(b) => match (*b)@ {
            NodeView::Parameters { children } => children,
            _ => Seq::empty(),
        },
    }
}

/// The view of an optional attribute-list node.
pub open spec fn params_node_view(p: Option<Box<Node>>) -> Option<Box<NodeView>> {
    match p {
        None => None,
        Some(b) => Some(Box::new((*b)@)),
    }
}

/// The nodes of an optional forest.
pub open spec fn forest_view(f: Option<Vec<Node>>) -> Seq<NodeView> {
    match f {
        None => Seq::empty(),
        Some(v) => node_views(v@),
    }
}

impl Parser {
    /// Parses a text run: concatenates the payloads of the text tokens up
    /// to the next token of another kind, discarding the whitespace between
    /// them. The run must start with a text token.
    fn parse_text(&mut self) -> (r: Result<Node, ParseError>)
        requires
            old(self).wf(),
        ensures
            final(self).wf(),
            final(self).tokens == old(self).tokens,
            match r {
                Ok(node) => {
                    &&& sp_text(old(self).toks(), old(self).cursor as int) == Ok::<
                        (NodeView, int),
                        ErrorView,
                    >((node@, final(self).cursor as int))
                    &&& final(self).cursor > old(self).cursor
                },
                Err(e) => sp_text(old(self).toks(), old(self).cursor as int) == Err::<
                    (NodeView, int),
                    ErrorView,
                >(e@),
            },
    {
        let ghost t0 = self.toks();
        let ghost c0 = self.cursor as int;
        if self.current_token().kind != TokenKind::Text {
            return Err(
                ParseError::UnexpectedToken {
                    expected: TokenKind::Text,
                    found: copy_token(self.current_token()),
                },
            );
        }
        let mut text = String::new();
        while self.current_token().kind == TokenKind::Text || self.current_token().kind
            == TokenKind::Whitespace
            invariant
                self.wf(),
                self.tokens == old(self).tokens,
                t0 == self.toks(),
                old(self).cursor <= self.cursor,
                sp_text_scan(t0, c0).0 == text@ + sp_text_scan(t0, self.cursor as int).0,
                sp_text_scan(t0, c0).1 == sp_text_scan(t0, self.cursor as int).1,
            decreases self.tokens@.len() - self.cursor,
        {
            let ghost mid = *self;
            let ghost textmid = text@;
            match self.consume_kind(TokenKind::Text) {
                Some(t) => {
                    text.append(t.s.as_str());
                    proof {
                        let cm = mid.cursor as int;
                        let cp = self.cursor as int;
                        assert(sp_text_scan(t0, cm).0 == t0[cm].text + sp_text_scan(t0, cp).0);
                        assert(sp_text_scan(t0, cm).1 == sp_text_scan(t0, cp).1);
                        assert(textmid + (t0[cm].text + sp_text_scan(t0, cp).0) =~= text@
                            + sp_text_scan(t0, cp).0);
                    }
                },
                None => {
                    let _ = self.consume_kind(TokenKind::Whitespace);
                    proof {
                        let cm = mid.cursor as int;
                        let cp = self.cursor as int;
                        assert(sp_text_scan(t0, cm).0 == sp_text_scan(t0, cp).0);
                        assert(sp_text_scan(t0, cm).1 == sp_text_scan(t0, cp).1);
                    }
                },
            }
        }
        proof {
            let cf = self.cursor as int;
            assert(sp_text_scan(t0, cf).0 == Seq::<char>::empty());
            assert(sp_text_scan(t0, cf).1 == cf);
            assert(text@ + Seq::<char>::empty() =~= text@);
            if self.cursor == old(self).cursor {
                assert(t0[c0].kind == TokenKind::Text);
                assert(false);
            }
        }
        Ok(Node::Text { text })
    }

    /// Parses a declaration tag, after `<!`: a comment opened by two
    /// hyphens, or a doctype declaration. A comment's whitespace runs
    /// collapse to single spaces, and hyphens that do not close it are kept
    /// as text.
    fn parse_decl_tag(&mut self) -> (r: Result<Node, ParseError>)
        requires
            old(self).wf(),
        ensures
            final(self).wf(),
            final(self).tokens == old(self).tokens,
            match r {
                Ok(node) => {
                    &&& sp_decl(old(self).toks(), old(self).cursor as int) == Ok::<
                        (NodeView, int),
                        ErrorView,
                    >((node@, final(self).cursor as int))
                    &&& final(self).cursor > old(self).cursor
                },
                Err(e) => sp_decl(old(self).toks(), old(self).cursor as int) == Err::<
                    (NodeView, int),
                    ErrorView,
                >(e@),
            },
    {
        let ghost t0 = self.toks();
        let ghost c0 = self.cursor as int;
        match self.consume_kind(TokenKind::Hyphen) {
            Some(_) => {
                match self.expect_kind(TokenKind::Hyphen) {
                    Err(e) => {
                        return Err(e);
                    },
                    Ok(_) => {
                        let ghost cb = self.cursor as int;
                        let mut comment = String::new();
                        while !self.is_eof()
                            invariant
                                self.wf(),
                                self.tokens == old(self).tokens,
                                t0 == self.toks(),
                                c0 == old(self).cursor as int,
                                0 <= c0,
                                c0 + 1 < t0.len(),
                                t0[c0].kind == TokenKind::Hyphen,
                                t0[c0 + 1].kind == TokenKind::Hyphen,
                                cb == c0 + 2,
                                cb <= self.cursor,
                                sp_comment_body(t0, cb) == (match sp_comment_body(
                                    t0,
                                    self.cursor as int,
                                ) {
                                    CommentScan::Closed { text, next } => CommentScan::Closed {
                                        text: comment@ + text,
                                        next,
                                    },
                                    CommentScan::Unclosed { next } => CommentScan::Unclosed {
                                        next,
                                    },
                                }),
                            decreases self.tokens@.len() - self.cursor,
                        {
                            let ghost mid = *self;
                            let ghost commentmid = comment@;
                            match self.consume_kind(TokenKind::Hyphen) {
                                Some(_) => {
                                    match self.consume_kind(TokenKind::Hyphen) {
                                        Some(_) => {
                                            match self.consume_kind(TokenKind::TagEnd) {
                                                Some(_) => {
                                                    proof {
                                                        let cm = mid.cursor as int;
                                                        let cp = self.cursor as int;
                                                        assert(sp_comment_body(t0, cm)
                                                            == (CommentScan::Closed {
                                                            text: Seq::<char>::empty(),
                                                            next: cp,
                                                        }));
                                                        assert(comment@ + Seq::<char>::empty()
                                                            =~= comment@);
                                                        assert(sp_decl(t0, c0) == Ok::<
                                                            (NodeView, int),
                                                            ErrorView,
                                                        >(
                                                            (
                                                                NodeView::CommentTag {
                                                                    text: comment@,
                                                                },
                                                                cp,
                                                            ),
                                                        ));
                                                    }
                                                    return Ok(Node::CommentTag { text: comment });
                                                },
                                                None => {
                                                    comment.append("--");
                                                    proof {
                                                        reveal_strlit("--");
                                                        let cm = mid.cursor as int;
                                                        let cp = self.cursor as int;
                                                        assert(("--")@ =~= seq!['-', '-']);
                                                        match sp_comment_body(t0, cp) {
                                                            CommentScan::Closed { text, next } => {
                                                                assert(commentmid + (seq![
                                                                    '-',
                                                                    '-',
                                                                ] + text) =~= comment@ + text);
                                                            },
                                                            CommentScan::Unclosed { .. } => {},
                                                        }
                                                    }
                                                },
                                            }
                                        },
                                        None => {
                                            comment.append("-");
                                            proof {
                                                reveal_strlit("-");
                                                let cm = mid.cursor as int;
                                                let cp = self.cursor as int;
                                                assert(("-")@ =~= seq!['-']);
                                                match sp_comment_body(t0, cp) {
                                                    CommentScan::Closed { text, next } => {
                                                        assert(commentmid + (seq!['-'] + text)
                                                            =~= comment@ + text);
                                                    },
                                                    CommentScan::Unclosed { .. } => {},
                                                }
                                            }
                                        },
                                    }
                                },
                                None => {
                                    match self.consume_kind(TokenKind::Whitespace) {
                                        Some(_) => {
                                            comment.append(" ");
                                            proof {
                                                reveal_strlit(" ");
                                                let cm = mid.cursor as int;
                                                let cp = self.cursor as int;
                                                assert((" ")@ =~= seq![' ']);
                                                match sp_comment_body(t0, cp) {
                                                    CommentScan::Closed { text, next } => {
                                                        assert(commentmid + (seq![' '] + text)
                                                            =~= comment@ + text);
                                                    },
                                                    CommentScan::Unclosed { .. } => {},
                                                }
                                            }
                                        },
                                        None => {
                                            let t = self.consume();
                                            comment.append(t.s.as_str());
                                            proof {
                                                let cm = mid.cursor as int;
                                                let cp = self.cursor as int;
                                                match sp_comment_body(t0, cp) {
                                                    CommentScan::Closed { text, next } => {
                                                        assert(commentmid + (t0[cm].text + text)
                                                            =~= comment@ + text);
                                                    },
                                                    CommentScan::Unclosed { .. } => {},
                                                }
                                            }
                                        },
                                    }
                                },
                            }
                        }
                        proof {
                            assert(sp_comment_body(t0, self.cursor as int)
                                == (CommentScan::Unclosed { next: self.cursor as int }));
                        }
                    },
                }
            },
            None => {},
        }
        let ghost cd = self.cursor as int;
        proof {
            assert(sp_decl(t0, c0) == sp_doctype(t0, cd));
        }
        match self.expect_text("doctype", false) {
            Err(e) => {
                return Err(e);
            },
            Ok(_) => {},
        }
        match self.expect_kind(TokenKind::Whitespace) {
            Err(e) => {
                return Err(e);
            },
            Ok(_) => {},
        }
        let name_tok = match self.expect_kind(TokenKind::Text) {
            Err(e) => {
                return Err(e);
            },
            Ok(t) => t,
        };
        let node = Node::DoctypeTag { name: to_lower(name_tok.s.as_str()) };
        match self.expect_kind(TokenKind::TagEnd) {
            Err(e) => {
                return Err(e);
            },
            Ok(_) => {},
        }
        Ok(node)
    }

    /// Parses the attribute list of a tag: `name = "value"` groups with
    /// optional whitespace, until `>` or `/`. With no attributes the list
    /// is absent, not empty.
    fn parse_tag_parameters(&mut self) -> (r: Result<Option<Box<Node>>, ParseError>)
        requires
            old(self).wf(),
        ensures
            final(self).wf(),
            final(self).tokens == old(self).tokens,
            final(self).cursor >= old(self).cursor,
            match r {
                Ok(params) => {
                    &&& sp_params(old(self).toks(), old(self).cursor as int) == Ok::<
                        (Seq<NodeView>, int),
                        ErrorView,
                    >((params_view(params), final(self).cursor as int))
                    &&& params_node_view(params) == opt_params(params_view(params))
                },
                Err(e) => sp_params(old(self).toks(), old(self).cursor as int) == Err::<
                    (Seq<NodeView>, int),
                    ErrorView,
                >(e@),
            },
    {
        let ghost t0 = self.toks();
        let ghost c0 = self.cursor as int;
        let mut children: Vec<Node> = Vec::new();
        proof {
            assert(node_views(children@) =~= Seq::<NodeView>::empty());
        }
        loop
            invariant_except_break
                sp_params(t0, c0) == (match sp_params(t0, self.cursor as int) {
                    Ok((rest, cf)) => Ok::<(Seq<NodeView>, int), ErrorView>(
                        (node_views(children@) + rest, cf),
                    ),
                    Err(e) => Err(e),
                }),
            invariant
                self.wf(),
                self.tokens == old(self).tokens,
                t0 == self.toks(),
                c0 == old(self).cursor as int,
                old(self).cursor <= self.cursor,
            ensures
                self.wf(),
                self.tokens == old(self).tokens,
                old(self).cursor <= self.cursor,
                sp_params(t0, c0) == Ok::<(Seq<NodeView>, int), ErrorView>(
                    (node_views(children@), self.cursor as int),
                ),
            decreases self.tokens@.len() - self.cursor,
        {
            let ghost citer = self.cursor as int;
            if self.is_eof() {
                proof {
                    assert(sp_params(t0, citer) == Ok::<(Seq<NodeView>, int), ErrorView>(
                        (Seq::empty(), citer),
                    ));
                    assert(node_views(children@) + Seq::<NodeView>::empty() =~= node_views(
                        children@,
                    ));
                }
                break ;
            }
            let _ = self.consume_kind(TokenKind::Whitespace);
            if self.current_token().kind == TokenKind::TagEnd || self.current_token().kind
                == TokenKind::Slash {
                proof {
                    let cp = self.cursor as int;
                    assert(sp_params(t0, citer) == Ok::<(Seq<NodeView>, int), ErrorView>(
                        (Seq::empty(), cp),
                    ));
                    assert(node_views(children@) + Seq::<NodeView>::empty() =~= node_views(
                        children@,
                    ));
                }
                break ;
            }
            let _ = self.consume_kind(TokenKind::Whitespace);
            let ghost cn = self.cursor as int;
            let name_tok = match self.consume_kind(TokenKind::Text) {
                Some(t) => t,
                None => {
                    let e = ParseError::UnexpectedToken {
                        expected: TokenKind::Text,
                        found: copy_token(self.current_token()),
                    };
                    proof {
                        assert(sp_params(t0, c0) == Err::<(Seq<NodeView>, int), ErrorView>(e@));
                    }
                    return Err(e);
                },
            };
            match self.expect_kind(TokenKind::Assign) {
                Ok(_) => {},
                Err(e) => {
                    return Err(e);
                },
            }
            let value_tok = match self.expect_kind(TokenKind::StringLit) {
                Ok(t) => t,
                Err(e) => {
                    return Err(e);
                },
            };
            let lhs = Node::Identifier { name: to_lower(name_tok.s.as_str()) };
            let ghost lhs_v = lhs@;
            let rhs = Node::StringLit { value: value_tok.s };
            let ghost rhs_v = rhs@;
            let param = Node::Parameter { name: Box::new(lhs), value: Box::new(rhs) };
            let ghost param_v = param@;
            let ghost old_children = children@;
            children.push(param);
            let _ = self.consume_kind(TokenKind::Whitespace);
            proof {
                let cp = self.cursor as int;
                assert(lhs_v == (NodeView::Identifier { name: lower_seq(t0[cn].text) }));
                assert(rhs_v == (NodeView::StringLit { value: t0[cn + 2].text }));
                assert(param_v == (NodeView::Parameter {
                    name: Box::new(lhs_v),
                    value: Box::new(rhs_v),
                }));
                assert(sp_params(t0, citer) == (match sp_params(t0, cp) {
                    Ok((rest, cf)) => Ok::<(Seq<NodeView>, int), ErrorView>(
                        (seq![param_v] + rest, cf),
                    ),
                    Err(e) => Err(e),
                }));
                assert(node_views(children@) =~= node_views(old_children) + seq![param_v]);
                match sp_params(t0, cp) {
                    Ok((rest, cf)) => {
                        assert(node_views(old_children) + (seq![param_v] + rest) =~= node_views(
                            children@,
                        ) + rest);
                    },
                    Err(_) => {},
                }
            }
        }
        if children.len() == 0 {
            proof {
                assert(node_views(children@) =~= Seq::<NodeView>::empty());
                assert(params_view(None::<Box<Node>>) =~= node_views(children@));
            }
            return Ok(None);
        }
        let ghost cviews = node_views(children@);
        let ghost clen = children@.len();
        let pnode = Node::Parameters { children };
        let ghost pview = pnode@;
        proof {
            match &pnode {
                Node::Parameters { children: cvec } => {
                    crate::node::lemma_nodes_view_vec(*cvec);
                },
                _ => {},
            }
            assert(pview == (NodeView::Parameters { children: cviews }));
        }
        let r = Some(Box::new(pnode));
        proof {
            assert(params_view(r) == cviews);
            assert(clen > 0);
            assert(params_node_view(r) == opt_params(params_view(r)));
        }
        Ok(r)
    }

    /// Parses a tag, after `<`. `Ok(None)` reports a close tag, with
    /// nothing consumed. `!` hands over to the declaration rule; otherwise
    /// the element rule runs: name, attributes, then `/>` for a solo tag,
    /// or `>`, the children one level deeper, and the matching close tag.
    fn parse_tag(&mut self, depth: usize) -> (r: Result<Option<Node>, ParseError>)
        requires
            old(self).wf(),
            depth <= MAX_NESTING_DEPTH,
        ensures
            final(self).wf(),
            final(self).tokens == old(self).tokens,
            match r {
                Ok(Some(node)) => {
                    &&& sp_tag(old(self).toks(), old(self).cursor as int, depth as int) == Ok::<
                        (Option<NodeView>, int),
                        ErrorView,
                    >((Some(node@), final(self).cursor as int))
                    &&& final(self).cursor >= old(self).cursor + 2
                },
                Ok(None) => {
                    &&& sp_tag(old(self).toks(), old(self).cursor as int, depth as int) == Ok::<
                        (Option<NodeView>, int),
                        ErrorView,
                    >((None, final(self).cursor as int))
                    &&& *final(self) == *old(self)
                },
                Err(e) => sp_tag(old(self).toks(), old(self).cursor as int, depth as int) == Err::<
                    (Option<NodeView>, int),
                    ErrorView,
                >(e@),
            },
        decreases self.tokens@.len() - self.cursor, 0int,
    {
        let ghost t0 = self.toks();
        let ghost c0 = self.cursor as int;
        let ghost d = depth as int;
        match self.consume_kind(TokenKind::Excl) {
            Some(_) => {
                return match self.parse_decl_tag() {
                    Ok(node) => Ok(Some(node)),
                    Err(e) => Err(e),
                };
            },
            None => {},
        }
        if self.current_token().kind == TokenKind::Slash {
            return Ok(None);
        }
        let name_tok = match self.expect_kind(TokenKind::Text) {
            Ok(t) => t,
            Err(e) => {
                return Err(e);
            },
        };
        let tag_name = to_lower(name_tok.s.as_str());
        let _ = self.consume_kind(TokenKind::Whitespace);
        let ghost c1g = self.cursor as int;
        proof {
            assert(c1g == sp_skip_ws(t0, c0 + 1));
        }
        let params = match self.parse_tag_parameters() {
            Ok(p) => p,
            Err(e) => {
                return Err(e);
            },
        };
        let ghost psv = params_view(params);
        let ghost c2g = self.cursor as int;
        let _ = self.consume_kind(TokenKind::Whitespace);
        let ghost c3g = self.cursor as int;
        proof {
            assert(c3g == sp_skip_ws(t0, c2g));
        }
        match self.consume_kind(TokenKind::Slash) {
            Some(_) => {
                match self.expect_kind(TokenKind::TagEnd) {
                    Ok(_) => {
                        let node = Node::SoloTag { name: tag_name, params };
                        proof {
                            assert(node@ == (NodeView::SoloTag {
                                name: lower_seq(t0[c0].text),
                                params: opt_params(psv),
                            }));
                        }
                        Ok(Some(node))
                    },
                    Err(e) => Err(e),
                }
            },
            None => {
                match self.expect_kind(TokenKind::TagEnd) {
                    Ok(_) => {},
                    Err(e) => {
                        return Err(e);
                    },
                }
                let children = match self.parse_(depth + 1) {
                    Ok(c) => c,
                    Err(e) => {
                        return Err(e);
                    },
                };
                let ghost csv = forest_view(children);
                proof {
                    match &children {
                        Some(v) => {
                            crate::node::lemma_nodes_view_vec(*v);
                        },
                        None => {},
                    }
                }
                match self.expect_kind(TokenKind::Slash) {
                    Ok(_) => {},
                    Err(e) => {
                        return Err(e);
                    },
                }
                let ghost c5g = self.cursor as int;
                let close_tok = match self.expect_kind(TokenKind::Text) {
                    Ok(t) => t,
                    Err(e) => {
                        return Err(e);
                    },
                };
                let close_name = to_lower(close_tok.s.as_str());
                match self.expect_kind(TokenKind::TagEnd) {
                    Ok(_) => {},
                    Err(e) => {
                        return Err(e);
                    },
                }
                if !tag_name.eq(&close_name) {
                    return Err(ParseError::TagMissMatch { open: tag_name, close: close_name });
                }
                let node = Node::Tag { name: tag_name, params, children };
                proof {
                    assert(node@ == (NodeView::Tag {
                        name: lower_seq(t0[c0].text),
                        params: opt_params(psv),
                        children: opt_children(csv),
                    }));
                }
                Ok(Some(node))
            },
        }
    }

    /// Parses a run of sibling nodes at one nesting depth, until the end of
    /// the input or a close tag. With no nodes the forest is absent, not
    /// empty. Past the depth bound the parse fails.
    fn parse_(&mut self, depth: usize) -> (r: Result<Option<Vec<Node>>, ParseError>)
        requires
            old(self).wf(),
        ensures
            final(self).wf(),
            final(self).tokens == old(self).tokens,
            match r {
                Ok(forest) => {
                    &&& sp_nodes(old(self).toks(), old(self).cursor as int, depth as int) == Ok::<
                        (Seq<NodeView>, int),
                        ErrorView,
                    >((forest_view(forest), final(self).cursor as int))
                    &&& match forest {
                        Some(v) => v@.len() > 0,
                        None => true,
                    }
                    &&& final(self).cursor >= old(self).cursor
                },
                Err(e) => sp_nodes(old(self).toks(), old(self).cursor as int, depth as int)
                    == Err::<(Seq<NodeView>, int), ErrorView>(e@),
            },
        decreases self.tokens@.len() - self.cursor, 1int,
    {
        if depth > MAX_NESTING_DEPTH {
            return Err(ParseError::NestingTooDeep);
        }
        let ghost t0 = self.toks();
        let ghost c0 = self.cursor as int;
        let ghost d = depth as int;
        let mut nodes: Vec<Node> = Vec::new();
        proof {
            assert(node_views(nodes@) =~= Seq::<NodeView>::empty());
        }
        loop
            invariant_except_break
                sp_nodes(t0, c0, d) == (match sp_nodes(t0, self.cursor as int, d) {
                    Ok((rest, cf)) => Ok::<(Seq<NodeView>, int), ErrorView>(
                        (node_views(nodes@) + rest, cf),
                    ),
                    Err(e) => Err(e),
                }),
            invariant
                self.wf(),
                self.tokens == old(self).tokens,
                t0 == self.toks(),
                c0 == old(self).cursor as int,
                d == depth as int,
                depth <= MAX_NESTING_DEPTH,
                old(self).cursor <= self.cursor,
            ensures
                self.wf(),
                self.tokens == old(self).tokens,
                old(self).cursor <= self.cursor,
                sp_nodes(t0, c0, d) == Ok::<(Seq<NodeView>, int), ErrorView>(
                    (node_views(nodes@), self.cursor as int),
                ),
            decreases self.tokens@.len() - self.cursor,
        {
            let ghost citer = self.cursor as int;
            if self.is_eof() {
                proof {
                    assert(sp_nodes(t0, citer, d) == Ok::<(Seq<NodeView>, int), ErrorView>(
                        (Seq::empty(), citer),
                    ));
                    assert(node_views(nodes@) + Seq::<NodeView>::empty() =~= node_views(nodes@));
                }
                break ;
            }
            let _ = self.consume_kind(TokenKind::Whitespace);
            if self.is_eof() {
                proof {
                    let cp = self.cursor as int;
                    assert(sp_nodes(t0, citer, d) == Ok::<(Seq<NodeView>, int), ErrorView>(
                        (Seq::empty(), cp),
                    ));
                    assert(node_views(nodes@) + Seq::<NodeView>::empty() =~= node_views(nodes@));
                }
                break ;
            }
            let ghost c1g = self.cursor as int;
            match self.consume_kind(TokenKind::TagBegin) {
                Some(_) => {
                    match self.parse_tag(depth) {
                        Err(e) => {
                            return Err(e);
                        },
                        Ok(None) => {
                            proof {
                                let cp = self.cursor as int;
                                assert(sp_nodes(t0, citer, d) == Ok::<
                                    (Seq<NodeView>, int),
                                    ErrorView,
                                >((Seq::empty(), cp)));
                                assert(node_views(nodes@) + Seq::<NodeView>::empty() =~= node_views(
                                    nodes@,
                                ));
                            }
                            break ;
                        },
                        Ok(Some(node)) => {
                            let ghost node_v = node@;
                            let ghost c2g = self.cursor as int;
                            let _ = self.consume_kind(TokenKind::Whitespace);
                            let ghost old_nodes = nodes@;
                            nodes.push(node);
                            proof {
                                let cp = self.cursor as int;
                                assert(sp_nodes(t0, citer, d) == (match sp_nodes(t0, cp, d) {
                                    Ok((rest, cf)) => Ok::<(Seq<NodeView>, int), ErrorView>(
                                        (seq![node_v] + rest, cf),
                                    ),
                                    Err(e) => Err(e),
                                }));
                                assert(node_views(nodes@) =~= node_views(old_nodes) + seq![node_v]);
                                match sp_nodes(t0, cp, d) {
                                    Ok((rest, cf)) => {
                                        assert(node_views(old_nodes) + (seq![node_v] + rest)
                                            =~= node_views(nodes@) + rest);
                                    },
                                    Err(_) => {},
                                }
                            }
                        },
                    }
                },
                None => {
                    match self.parse_text() {
                        Err(e) => {
                            return Err(e);
                        },
                        Ok(node) => {
                            let ghost node_v = node@;
                            let ghost c2g = self.cursor as int;
                            let _ = self.consume_kind(TokenKind::Whitespace);
                            let ghost old_nodes = nodes@;
                            nodes.push(node);
                            proof {
                                let cp = self.cursor as int;
                                assert(sp_nodes(t0, citer, d) == (match sp_nodes(t0, cp, d) {
                                    Ok((rest, cf)) => Ok::<(Seq<NodeView>, int), ErrorView>(
                                        (seq![node_v] + rest, cf),
                                    ),
                                    Err(e) => Err(e),
                                }));
                                assert(node_views(nodes@) =~= node_views(old_nodes) + seq![node_v]);
                                match sp_nodes(t0, cp, d) {
                                    Ok((rest, cf)) => {
                                        assert(node_views(old_nodes) + (seq![node_v] + rest)
                                            =~= node_views(nodes@) + rest);
                                    },
                                    Err(_) => {},
                                }
                            }
                        },
                    }
                },
            }
        }
        if nodes.len() == 0 {
            proof {
                assert(node_views(nodes@) =~= Seq::<NodeView>::empty());
            }
            return Ok(None);
        }
        let ghost nv = node_views(nodes@);
        let r = Some(nodes);
        proof {
            assert(forest_view(r) == nv);
        }
        Ok(r)
    }

    /// Parses a whole token sequence — as the tokenizer produces it,
    /// terminated by one end-of-input marker — into the ordered forest of
    /// top-level sibling nodes, or the first failure met. The result is
    /// exactly what `sp_parse` gives the sequence: an absent forest for an
    /// empty document, otherwise the nonempty node list.
    pub fn parse(&mut self, tokens: Vec<Token>) -> (r: Result<Option<Vec<Node>>, ParseError>)
        requires
            wf_token_stream(views(tokens@)),
        ensures
            match r {
                Ok(forest) => {
                    &&& sp_parse(views(tokens@)) == Ok::<Option<Seq<NodeView>>, ErrorView>(
                        match forest {
                            Some(v) => Some(node_views(v@)),
                            None => None,
                        },
                    )
                    &&& match forest {
                        Some(v) => v@.len() > 0,
                        None => true,
                    }
                },
                Err(e) => sp_parse(views(tokens@)) == Err::<Option<Seq<NodeView>>, ErrorView>(e@),
            },
    {
        let ghost tv = views(tokens@);
        self.tokens = tokens;
        self.cursor = 0;
        match self.parse_(0) {
            Ok(forest) => {
                proof {
                    match &forest {
                        Some(v) => {
                            assert(forest_view(forest) == node_views(v@));
                        },
                        None => {},
                    }
                }
                Ok(forest)
            },
            Err(e) => Err(e),
        }
    }
}

} // verus!
