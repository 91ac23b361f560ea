//! General properties of the grammar, stated over the mathematical parser
//! and proved once for all inputs of the given shape. Token positions and
//! payloads not named below are arbitrary: the properties hold whatever
//! they are.

use crate::errors::ErrorView;
use crate::fold::{lemma_lower_seq_idempotent, lower_seq};
use crate::node::{wf_node, wf_param, NodeView};
use crate::parser::{
    opt_children,
    opt_params,
    sp_decl,
    sp_doctype,
    sp_expect_text,
    sp_nodes,
    sp_params,
    sp_parse,
    sp_tag,
    sp_text,
    MAX_NESTING_DEPTH,
};
use crate::tokenizer::{TokenKind, TokenView};
use vstd::prelude::*;

verus! {

/// A self-closing tag with one quoted attribute parses to a solo node
/// carrying exactly that one pair: the name folded, the value exactly as
/// written, whatever the names and the value are.
pub proof fn lemma_solo_tag_one_attribute(
    toks: Seq<TokenView>,
    n: Seq<char>,
    k: Seq<char>,
    v: Seq<char>,
)
    requires
        toks.len() == 9,
        toks[0].kind == TokenKind::TagBegin,
        toks[1].kind == TokenKind::Text,
        toks[1].text == n,
        toks[2].kind == TokenKind::Whitespace,
        toks[3].kind == TokenKind::Text,
        toks[3].text == k,
        toks[4].kind == TokenKind::Assign,
        toks[5].kind == TokenKind::StringLit,
        toks[5].text == v,
        toks[6].kind == TokenKind::Slash,
        toks[7].kind == TokenKind::TagEnd,
        toks[8].kind == TokenKind::Eof,
    ensures
        sp_parse(toks) == Ok::<Option<Seq<NodeView>>, ErrorView>(
            Some(
                seq![
                    NodeView::SoloTag {
                        name: lower_seq(n),
                        params: Some(
                            Box::new(
                                NodeView::Parameters {
                                    children: seq![
                                        NodeView::Parameter {
                                            name: Box::new(
                                                NodeView::Identifier { name: lower_seq(k) },
                                            ),
                                            value: Box::new(NodeView::StringLit { value: v }),
                                        },
                                    ],
                                },
                            ),
                        ),
                    },
                ],
            ),
        ),
{
    let param = NodeView::Parameter {
        name: Box::new(NodeView::Identifier { name: lower_seq(k) }),
        value: Box::new(NodeView::StringLit { value: v }),
    };
    let node = NodeView::SoloTag { name: lower_seq(n), params: opt_params(seq![param]) };
    assert(sp_params(toks, 6) == Ok::<(Seq<NodeView>, int), ErrorView>((Seq::empty(), 6)));
    assert(seq![param] + Seq::<NodeView>::empty() =~= seq![param]);
    assert(sp_params(toks, 3) == Ok::<(Seq<NodeView>, int), ErrorView>((seq![param], 6)));
    assert(sp_tag(toks, 1, 0) == Ok::<(Option<NodeView>, int), ErrorView>((Some(node), 8)));
    assert(sp_nodes(toks, 8, 0) == Ok::<(Seq<NodeView>, int), ErrorView>((Seq::empty(), 8)));
    assert(seq![node] + Seq::<NodeView>::empty() =~= seq![node]);
    assert(sp_nodes(toks, 0, 0) == Ok::<(Seq<NodeView>, int), ErrorView>((seq![node], 8)));
}

/// A quoted literal whose partner quote is missing makes the whole scan
/// fail with `UnterminatedString` naming the opening quote's position —
/// never a crash and never a silent truncation.
pub proof fn lemma_unterminated_string(src: Seq<char>, i: int, line: int, col: int)
    requires
        0 <= i < src.len(),
        src[i] == '\'' || src[i] == '"',
        crate::tokenizer::string_end(src, i + 1, src[i]) >= src.len(),
    ensures
        crate::tokenizer::spec_tokenize_from(src, i, line, col) == Err::<
            Seq<crate::tokenizer::TokenView>,
            ErrorView,
        >(
            ErrorView::UnterminatedString {
                pos: crate::position::PosView { line, col, off: i },
            },
        ),
{
}

/// An element whose close tag is missing fails with `UnexpectedToken`
/// demanding the `/` of the close tag and finding the end-of-input marker:
/// a failure kind distinct from the unterminated-literal one.
pub proof fn lemma_missing_close_tag(toks: Seq<TokenView>, an: Seq<char>)
    requires
        toks.len() == 4,
        toks[0].kind == TokenKind::TagBegin,
        toks[1].kind == TokenKind::Text,
        toks[1].text == an,
        toks[2].kind == TokenKind::TagEnd,
        toks[3].kind == TokenKind::Eof,
    ensures
        sp_parse(toks) == Err::<Option<Seq<NodeView>>, ErrorView>(
            ErrorView::UnexpectedToken { expected: TokenKind::Slash, found: toks[3] },
        ),
{
    let e = ErrorView::UnexpectedToken { expected: TokenKind::Slash, found: toks[3] };
    assert(sp_params(toks, 2) == Ok::<(Seq<NodeView>, int), ErrorView>((Seq::empty(), 2)));
    assert(sp_nodes(toks, 3, 1) == Ok::<(Seq<NodeView>, int), ErrorView>((Seq::empty(), 3)));
    assert(sp_tag(toks, 1, 0) == Err::<(Option<NodeView>, int), ErrorView>(e));
    assert(sp_nodes(toks, 0, 0) == Err::<(Seq<NodeView>, int), ErrorView>(e));
}

/// Every attribute pair an attribute list parses to is well-formed: an
/// identifier name stored lower-cased, paired with a string value.
pub proof fn lemma_sp_params_wf(toks: Seq<TokenView>, c: int)
    ensures
        match sp_params(toks, c) {
            Ok((ps, _)) => forall|k: int| 0 <= k < ps.len() ==> wf_param(#[trigger] ps[k]),
            Err(_) => true,
        },
    decreases toks.len() - c,
{
    if !(0 <= c < toks.len()) || toks[c].kind == TokenKind::Eof {
    } else {
        let c1 = crate::parser::sp_skip_ws(toks, c);
        if c1 < toks.len() && (toks[c1].kind == TokenKind::TagEnd || toks[c1].kind
            == TokenKind::Slash) {
        } else {
            let c2 = crate::parser::sp_skip_ws(toks, c1);
            if c2 < toks.len() && toks[c2].kind == TokenKind::Text {
                let c3 = c2 + 1;
                if c3 < toks.len() && toks[c3].kind == TokenKind::Assign {
                    let c4 = c3 + 1;
                    if c4 < toks.len() && toks[c4].kind == TokenKind::StringLit {
                        let c5 = crate::parser::sp_skip_ws(toks, c4 + 1);
                        lemma_lower_seq_idempotent(toks[c2].text);
                        lemma_sp_params_wf(toks, c5);
                    }
                }
            }
        }
    }
}

/// Every node a declaration parses to is well-formed: a comment, or a
/// doctype whose name is stored lower-cased.
pub proof fn lemma_sp_decl_wf(toks: Seq<TokenView>, c: int)
    ensures
        match sp_decl(toks, c) {
            Ok((node, _)) => wf_node(node),
            Err(_) => true,
        },
{
    match sp_decl(toks, c) {
        Ok((node, _)) => {
            match node {
                NodeView::DoctypeTag { name } => {
                    if 0 <= c < toks.len() && toks[c].kind == TokenKind::Hyphen {
                        match sp_comment_unclosed_doctype(toks, c) {
                            Some(cd) => {
                                lemma_doctype_name_folded(toks, cd);
                            },
                            None => {},
                        }
                    } else {
                        lemma_doctype_name_folded(toks, c);
                    }
                },
                _ => {},
            }
        },
        Err(_) => {},
    }
}

/// The cursor where a declaration that opened a comment falls through to
/// the doctype rule, when it does.
spec fn sp_comment_unclosed_doctype(toks: Seq<TokenView>, c: int) -> Option<int> {
    if c + 1 < toks.len() && toks[c + 1].kind == TokenKind::Hyphen {
        match crate::parser::sp_comment_body(toks, c + 2) {
            crate::parser::CommentScan::Closed { .. } => None,
            crate::parser::CommentScan::Unclosed { next } => Some(next),
        }
    } else {
        None
    }
}

/// A parsed doctype node stores its name lower-cased.
proof fn lemma_doctype_name_folded(toks: Seq<TokenView>, c: int)
    ensures
        match sp_doctype(toks, c) {
            Ok((node, _)) => wf_node(node),
            Err(_) => true,
        },
{
    match sp_expect_text(toks, c, "doctype"@, false) {
        Err(_) => {},
        Ok(c1) => {
            let c2 = c1 + 1;
            if c1 < toks.len() && toks[c1].kind == TokenKind::Whitespace && c2 < toks.len()
                && toks[c2].kind == TokenKind::Text {
                lemma_lower_seq_idempotent(toks[c2].text);
            }
        },
    }
}

/// Every node a tag parses to is well-formed: names are stored
/// lower-cased, attribute lists are absent or nonempty and well-formed,
/// child lists are absent or nonempty with well-formed nodes, and a solo
/// tag never has children.
pub proof fn lemma_sp_tag_wf(toks: Seq<TokenView>, c: int, depth: int)
    ensures
        match sp_tag(toks, c, depth) {
            Ok((Some(node), _)) => wf_node(node),
            _ => true,
        },
    decreases toks.len() - c, 0int,
{
    if 0 <= c < toks.len() && toks[c].kind == TokenKind::Excl {
        lemma_sp_decl_wf(toks, c + 1);
    } else if 0 <= c < toks.len() && toks[c].kind == TokenKind::Slash {
    } else if 0 <= c < toks.len() && toks[c].kind == TokenKind::Text {
        lemma_lower_seq_idempotent(toks[c].text);
        let c1 = crate::parser::sp_skip_ws(toks, c + 1);
        lemma_sp_params_wf(toks, c1);
        match sp_params(toks, c1) {
            Err(_) => {},
            Ok((params, c2raw)) => {
                let c2 = if c2raw < c1 {
                    c1
                } else if c2raw > toks.len() {
                    toks.len() as int
                } else {
                    c2raw
                };
                let c3 = crate::parser::sp_skip_ws(toks, c2);
                if c3 < toks.len() && toks[c3].kind == TokenKind::Slash {
                } else if c3 < toks.len() && toks[c3].kind == TokenKind::TagEnd {
                    lemma_sp_nodes_wf(toks, c3 + 1, depth + 1);
                }
            },
        }
    }
}

/// Every node in a parsed sibling run is well-formed.
pub proof fn lemma_sp_nodes_wf(toks: Seq<TokenView>, c: int, depth: int)
    ensures
        match sp_nodes(toks, c, depth) {
            Ok((ns, _)) => forall|k: int| 0 <= k < ns.len() ==> wf_node(#[trigger] ns[k]),
            Err(_) => true,
        },
    decreases toks.len() - c, 1int,
{
    if depth > MAX_NESTING_DEPTH {
    } else if !(0 <= c < toks.len()) || toks[c].kind == TokenKind::Eof {
    } else {
        let c1 = crate::parser::sp_skip_ws(toks, c);
        if !(c1 < toks.len()) || toks[c1].kind == TokenKind::Eof {
        } else if toks[c1].kind == TokenKind::TagBegin {
            lemma_sp_tag_wf(toks, c1 + 1, depth);
            match sp_tag(toks, c1 + 1, depth) {
                Err(_) => {},
                Ok((None, _)) => {},
                Ok((Some(node), c2raw)) => {
                    let c2a = if c2raw <= c1 + 1 {
                        c1 + 2
                    } else {
                        c2raw
                    };
                    let c2 = if c2a > toks.len() {
                        toks.len() as int
                    } else {
                        c2a
                    };
                    let c3 = crate::parser::sp_skip_ws(toks, c2);
                    lemma_sp_nodes_wf(toks, c3, depth);
                },
            }
        } else {
            match sp_text(toks, c1) {
                Err(_) => {},
                Ok((node, c2raw)) => {
                    let c2a = if c2raw <= c1 {
                        c1 + 1
                    } else {
                        c2raw
                    };
                    let c2 = if c2a > toks.len() {
                        toks.len() as int
                    } else {
                        c2a
                    };
                    let c3 = crate::parser::sp_skip_ws(toks, c2);
                    lemma_sp_nodes_wf(toks, c3, depth);
                },
            }
        }
    }
}

/// Every node in a parsed forest is well-formed: an invariant of the whole
/// front end, whatever the token sequence was.
pub proof fn lemma_parse_wf(toks: Seq<TokenView>)
    ensures
        match sp_parse(toks) {
            Ok(Some(ns)) => forall|k: int| 0 <= k < ns.len() ==> wf_node(#[trigger] ns[k]),
            _ => true,
        },
{
    lemma_sp_nodes_wf(toks, 0, 0);
}

/// The token shape of `<a></b>`: an open tag named `an` directly followed
/// by a close tag named `bn`, then the end of the input.
pub open spec fn open_close_tokens(toks: Seq<TokenView>, an: Seq<char>, bn: Seq<char>) -> bool {
    &&& toks.len() == 8
    &&& toks[0].kind == TokenKind::TagBegin
    &&& toks[1].kind == TokenKind::Text
    &&& toks[1].text == an
    &&& toks[2].kind == TokenKind::TagEnd
    &&& toks[3].kind == TokenKind::TagBegin
    &&& toks[4].kind == TokenKind::Slash
    &&& toks[5].kind == TokenKind::Text
    &&& toks[5].text == bn
    &&& toks[6].kind == TokenKind::TagEnd
    &&& toks[7].kind == TokenKind::Eof
}

/// When the open and close names of `<a></b>` differ under the case fold,
/// the parse fails with a tag mismatch carrying exactly the two folded
/// names, whatever the names and positions are.
pub proof fn lemma_tag_mismatch(toks: Seq<TokenView>, an: Seq<char>, bn: Seq<char>)
    requires
        open_close_tokens(toks, an, bn),
        lower_seq(an) != lower_seq(bn),
    ensures
        sp_parse(toks) == Err::<Option<Seq<NodeView>>, ErrorView>(
            ErrorView::TagMissMatch { open: lower_seq(an), close: lower_seq(bn) },
        ),
{
    let e = ErrorView::TagMissMatch { open: lower_seq(an), close: lower_seq(bn) };
    assert(sp_params(toks, 2) == Ok::<(Seq<NodeView>, int), ErrorView>((Seq::empty(), 2)));
    assert(sp_tag(toks, 4, 1) == Ok::<(Option<NodeView>, int), ErrorView>((None, 4)));
    assert(sp_nodes(toks, 3, 1) == Ok::<(Seq<NodeView>, int), ErrorView>((Seq::empty(), 4)));
    assert(sp_tag(toks, 1, 0) == Err::<(Option<NodeView>, int), ErrorView>(e));
    assert(sp_nodes(toks, 0, 0) == Err::<(Seq<NodeView>, int), ErrorView>(e));
}

/// When the open and close names of `<a></b>` agree under the case fold,
/// the parse succeeds with one empty element carrying the folded name:
/// name matching is case-insensitive.
pub proof fn lemma_tag_case_fold(toks: Seq<TokenView>, an: Seq<char>, bn: Seq<char>)
    requires
        open_close_tokens(toks, an, bn),
        lower_seq(an) == lower_seq(bn),
    ensures
        sp_parse(toks) == Ok::<Option<Seq<NodeView>>, ErrorView>(
            Some(
                seq![NodeView::Tag { name: lower_seq(an), params: None, children: None }],
            ),
        ),
{
    let node = NodeView::Tag { name: lower_seq(an), params: None, children: None };
    assert(sp_params(toks, 2) == Ok::<(Seq<NodeView>, int), ErrorView>((Seq::empty(), 2)));
    assert(sp_tag(toks, 4, 1) == Ok::<(Option<NodeView>, int), ErrorView>((None, 4)));
    assert(sp_nodes(toks, 3, 1) == Ok::<(Seq<NodeView>, int), ErrorView>((Seq::empty(), 4)));
    assert(sp_tag(toks, 1, 0) == Ok::<(Option<NodeView>, int), ErrorView>((Some(node), 7)));
    assert(sp_nodes(toks, 7, 0) == Ok::<(Seq<NodeView>, int), ErrorView>((Seq::empty(), 7)));
    assert(seq![node] + Seq::<NodeView>::empty() =~= seq![node]);
    assert(sp_nodes(toks, 0, 0) == Ok::<(Seq<NodeView>, int), ErrorView>((seq![node], 7)));
}

/// A doctype declaration whose literal spells `doctype` in any case parses
/// to a doctype node carrying the folded type name, whatever the case of
/// either word.
pub proof fn lemma_doctype_any_case(toks: Seq<TokenView>, d: Seq<char>, t: Seq<char>)
    requires
        toks.len() == 7,
        toks[0].kind == TokenKind::TagBegin,
        toks[1].kind == TokenKind::Excl,
        toks[2].kind == TokenKind::Text,
        toks[2].text == d,
        toks[3].kind == TokenKind::Whitespace,
        toks[4].kind == TokenKind::Text,
        toks[4].text == t,
        toks[5].kind == TokenKind::TagEnd,
        toks[6].kind == TokenKind::Eof,
        lower_seq(d) == "doctype"@,
    ensures
        sp_parse(toks) == Ok::<Option<Seq<NodeView>>, ErrorView>(
            Some(seq![NodeView::DoctypeTag { name: lower_seq(t) }]),
        ),
{
    let node = NodeView::DoctypeTag { name: lower_seq(t) };
    assert(sp_expect_text(toks, 2, "doctype"@, false) == Ok::<int, ErrorView>(3));
    assert(sp_doctype(toks, 2) == Ok::<(NodeView, int), ErrorView>((node, 6)));
    assert(sp_decl(toks, 2) == Ok::<(NodeView, int), ErrorView>((node, 6)));
    assert(sp_tag(toks, 1, 0) == Ok::<(Option<NodeView>, int), ErrorView>((Some(node), 6)));
    assert(sp_nodes(toks, 6, 0) == Ok::<(Seq<NodeView>, int), ErrorView>((Seq::empty(), 6)));
    assert(seq![node] + Seq::<NodeView>::empty() =~= seq![node]);
    assert(sp_nodes(toks, 0, 0) == Ok::<(Seq<NodeView>, int), ErrorView>((seq![node], 6)));
}

/// A self-closing tag consumes exactly its own four tokens: whatever
/// follows the `/>` — in particular a closing tag — is left untouched, at
/// any nesting depth.
pub proof fn lemma_solo_tag_stops(toks: Seq<TokenView>, c: int, depth: int, an: Seq<char>)
    requires
        0 <= c,
        c + 2 < toks.len(),
        toks[c].kind == TokenKind::Text,
        toks[c].text == an,
        toks[c + 1].kind == TokenKind::Slash,
        toks[c + 2].kind == TokenKind::TagEnd,
    ensures
        sp_tag(toks, c, depth) == Ok::<(Option<NodeView>, int), ErrorView>(
            (Some(NodeView::SoloTag { name: lower_seq(an), params: None }), c + 3),
        ),
{
    assert(sp_params(toks, c + 1) == Ok::<(Seq<NodeView>, int), ErrorView>((Seq::empty(), c + 1)));
}

/// Two self-closing tags in sequence parse as two sibling nodes: the first
/// never consumes the second.
pub proof fn lemma_sibling_solo_tags(toks: Seq<TokenView>, an: Seq<char>, bn: Seq<char>)
    requires
        toks.len() == 9,
        toks[0].kind == TokenKind::TagBegin,
        toks[1].kind == TokenKind::Text,
        toks[1].text == an,
        toks[2].kind == TokenKind::Slash,
        toks[3].kind == TokenKind::TagEnd,
        toks[4].kind == TokenKind::TagBegin,
        toks[5].kind == TokenKind::Text,
        toks[5].text == bn,
        toks[6].kind == TokenKind::Slash,
        toks[7].kind == TokenKind::TagEnd,
        toks[8].kind == TokenKind::Eof,
    ensures
        sp_parse(toks) == Ok::<Option<Seq<NodeView>>, ErrorView>(
            Some(
                seq![
                    NodeView::SoloTag { name: lower_seq(an), params: None },
                    NodeView::SoloTag { name: lower_seq(bn), params: None },
                ],
            ),
        ),
{
    let s1 = NodeView::SoloTag { name: lower_seq(an), params: None };
    let s2 = NodeView::SoloTag { name: lower_seq(bn), params: None };
    lemma_solo_tag_stops(toks, 1, 0, an);
    lemma_solo_tag_stops(toks, 5, 0, bn);
    assert(sp_nodes(toks, 8, 0) == Ok::<(Seq<NodeView>, int), ErrorView>((Seq::empty(), 8)));
    assert(seq![s2] + Seq::<NodeView>::empty() =~= seq![s2]);
    assert(sp_nodes(toks, 4, 0) == Ok::<(Seq<NodeView>, int), ErrorView>((seq![s2], 8)));
    assert(seq![s1] + seq![s2] =~= seq![s1, s2]);
    assert(sp_nodes(toks, 0, 0) == Ok::<(Seq<NodeView>, int), ErrorView>((seq![s1, s2], 8)));
}

/// The tree of a chain of `n` elements each holding exactly the next: `n`
/// nested tag nodes of the given folded name, childless at the bottom.
pub open spec fn nested_chain(name: Seq<char>, n: int) -> NodeView
    decreases n,
{
    if n <= 1 {
        NodeView::Tag { name, params: None, children: None }
    } else {
        NodeView::Tag { name, params: None, children: Some(seq![nested_chain(name, n - 1)]) }
    }
}

/// Three tokens opening an element named `an` at index `i`: `<`, the name,
/// `>`.
pub open spec fn opener_at(toks: Seq<TokenView>, an: Seq<char>, i: int) -> bool {
    &&& toks[i].kind == TokenKind::TagBegin
    &&& toks[i + 1].kind == TokenKind::Text
    &&& toks[i + 1].text == an
    &&& toks[i + 2].kind == TokenKind::TagEnd
}

/// Four tokens closing an element at index `i` under a name that folds to
/// the same as `an`: `<`, `/`, the name, `>`.
pub open spec fn closer_at(toks: Seq<TokenView>, an: Seq<char>, i: int) -> bool {
    &&& toks[i].kind == TokenKind::TagBegin
    &&& toks[i + 1].kind == TokenKind::Slash
    &&& toks[i + 2].kind == TokenKind::Text
    &&& lower_seq(toks[i + 2].text) == lower_seq(an)
    &&& toks[i + 3].kind == TokenKind::TagEnd
}

/// Balanced, case-consistent nesting of any depth parses to a tree that
/// mirrors the nesting exactly: `n` openers followed by their `n` matching
/// closers yield a chain of `n` nested tag nodes. The cursor `t` sits on
/// the first opener's name; the tag rule returns the chain and stops right
/// after the last closer.
pub proof fn lemma_nested_chain(toks: Seq<TokenView>, t: int, d: int, n: int, an: Seq<char>)
    requires
        n >= 1,
        1 <= t,
        t - 1 + 7 * n <= toks.len(),
        0 <= d,
        d + n <= MAX_NESTING_DEPTH,
        forall|j: int| 0 <= j < n ==> #[trigger] opener_at(toks, an, t - 1 + 3 * j),
        forall|j: int| 0 <= j < n ==> #[trigger] closer_at(toks, an, t - 1 + 3 * n + 4 * j),
    ensures
        sp_tag(toks, t, d) == Ok::<(Option<NodeView>, int), ErrorView>(
            (Some(nested_chain(lower_seq(an), n)), t - 1 + 7 * n),
        ),
    decreases n,
{
    assert(opener_at(toks, an, t - 1 + 3 * 0));
    assert(closer_at(toks, an, t - 1 + 3 * n + 4 * (n - 1)));
    assert(sp_params(toks, t + 1) == Ok::<(Seq<NodeView>, int), ErrorView>((Seq::empty(), t + 1)));
    if n == 1 {
        assert(sp_tag(toks, t + 3, d + 1) == Ok::<(Option<NodeView>, int), ErrorView>(
            (None, t + 3),
        ));
        assert(sp_nodes(toks, t + 2, d + 1) == Ok::<(Seq<NodeView>, int), ErrorView>(
            (Seq::empty(), t + 3),
        ));
        assert(sp_tag(toks, t, d) == Ok::<(Option<NodeView>, int), ErrorView>(
            (Some(nested_chain(lower_seq(an), 1)), t + 6),
        ));
    } else {
        assert forall|j: int| 0 <= j < n - 1 implies #[trigger] opener_at(
            toks,
            an,
            (t + 3) - 1 + 3 * j,
        ) by {
            assert(opener_at(toks, an, t - 1 + 3 * (j + 1)));
        }
        assert forall|j: int| 0 <= j < n - 1 implies #[trigger] closer_at(
            toks,
            an,
            (t + 3) - 1 + 3 * (n - 1) + 4 * j,
        ) by {
            assert(closer_at(toks, an, t - 1 + 3 * n + 4 * j));
        }
        lemma_nested_chain(toks, t + 3, d + 1, n - 1, an);
        assert(opener_at(toks, an, t - 1 + 3 * 1));
        let inner = nested_chain(lower_seq(an), n - 1);
        let e1 = t + 2 + 7 * (n - 1);
        assert(e1 == t - 1 + 3 * n + 4 * (n - 1));
        assert(sp_tag(toks, e1 + 1, d + 1) == Ok::<(Option<NodeView>, int), ErrorView>(
            (None, e1 + 1),
        ));
        assert(sp_nodes(toks, e1, d + 1) == Ok::<(Seq<NodeView>, int), ErrorView>(
            (Seq::empty(), e1 + 1),
        ));
        assert(sp_nodes(toks, t + 2, d + 1) == Ok::<(Seq<NodeView>, int), ErrorView>(
            (seq![inner] + Seq::<NodeView>::empty(), e1 + 1),
        ));
        assert(seq![inner] + Seq::<NodeView>::empty() =~= seq![inner]);
        assert(sp_tag(toks, t, d) == Ok::<(Option<NodeView>, int), ErrorView>(
            (Some(nested_chain(lower_seq(an), n)), t - 1 + 7 * n),
        ));
    }
}

/// A whole document that is one balanced chain of `n` nested elements
/// parses to exactly the mirrored chain, for any depth within the bound.
pub proof fn lemma_nested_chain_parses(toks: Seq<TokenView>, n: int, an: Seq<char>)
    requires
        n >= 1,
        toks.len() == 7 * n + 1,
        n <= MAX_NESTING_DEPTH,
        forall|j: int| 0 <= j < n ==> #[trigger] opener_at(toks, an, 3 * j),
        forall|j: int| 0 <= j < n ==> #[trigger] closer_at(toks, an, 3 * n + 4 * j),
        toks[7 * n].kind == TokenKind::Eof,
    ensures
        sp_parse(toks) == Ok::<Option<Seq<NodeView>>, ErrorView>(
            Some(seq![nested_chain(lower_seq(an), n)]),
        ),
{
    assert forall|j: int| 0 <= j < n implies #[trigger] opener_at(toks, an, 1 - 1 + 3 * j) by {
        assert(opener_at(toks, an, 3 * j));
    }
    assert forall|j: int| 0 <= j < n implies #[trigger] closer_at(
        toks,
        an,
        1 - 1 + 3 * n + 4 * j,
    ) by {
        assert(closer_at(toks, an, 3 * n + 4 * j));
    }
    lemma_nested_chain(toks, 1, 0, n, an);
    let node = nested_chain(lower_seq(an), n);
    assert(opener_at(toks, an, 3 * 0int));
    assert(sp_nodes(toks, 7 * n, 0) == Ok::<(Seq<NodeView>, int), ErrorView>(
        (Seq::empty(), 7 * n),
    ));
    assert(seq![node] + Seq::<NodeView>::empty() =~= seq![node]);
    assert(sp_nodes(toks, 0, 0) == Ok::<(Seq<NodeView>, int), ErrorView>((seq![node], 7 * n)));
}

/// Balanced, case-consistent nesting parses to a tree that mirrors the
/// nesting: one element directly inside another yields one child node
/// inside one top-level node, with both folded names in place.
pub proof fn lemma_nested_pair(
    toks: Seq<TokenView>,
    an: Seq<char>,
    bn: Seq<char>,
    bn2: Seq<char>,
    an2: Seq<char>,
)
    requires
        toks.len() == 15,
        toks[0].kind == TokenKind::TagBegin,
        toks[1].kind == TokenKind::Text,
        toks[1].text == an,
        toks[2].kind == TokenKind::TagEnd,
        toks[3].kind == TokenKind::TagBegin,
        toks[4].kind == TokenKind::Text,
        toks[4].text == bn,
        toks[5].kind == TokenKind::TagEnd,
        toks[6].kind == TokenKind::TagBegin,
        toks[7].kind == TokenKind::Slash,
        toks[8].kind == TokenKind::Text,
        toks[8].text == bn2,
        toks[9].kind == TokenKind::TagEnd,
        toks[10].kind == TokenKind::TagBegin,
        toks[11].kind == TokenKind::Slash,
        toks[12].kind == TokenKind::Text,
        toks[12].text == an2,
        toks[13].kind == TokenKind::TagEnd,
        toks[14].kind == TokenKind::Eof,
        lower_seq(bn2) == lower_seq(bn),
        lower_seq(an2) == lower_seq(an),
    ensures
        sp_parse(toks) == Ok::<Option<Seq<NodeView>>, ErrorView>(
            Some(
                seq![
                    NodeView::Tag {
                        name: lower_seq(an),
                        params: None,
                        children: Some(
                            seq![
                                NodeView::Tag {
                                    name: lower_seq(bn),
                                    params: None,
                                    children: None,
                                },
                            ],
                        ),
                    },
                ],
            ),
        ),
{
    let inner = NodeView::Tag { name: lower_seq(bn), params: None, children: None };
    let outer = NodeView::Tag {
        name: lower_seq(an),
        params: None,
        children: Some(seq![inner]),
    };
    assert(sp_params(toks, 2) == Ok::<(Seq<NodeView>, int), ErrorView>((Seq::empty(), 2)));
    assert(sp_params(toks, 5) == Ok::<(Seq<NodeView>, int), ErrorView>((Seq::empty(), 5)));
    assert(sp_tag(toks, 7, 2) == Ok::<(Option<NodeView>, int), ErrorView>((None, 7)));
    assert(sp_nodes(toks, 6, 2) == Ok::<(Seq<NodeView>, int), ErrorView>((Seq::empty(), 7)));
    assert(sp_tag(toks, 4, 1) == Ok::<(Option<NodeView>, int), ErrorView>((Some(inner), 10)));
    assert(sp_tag(toks, 11, 1) == Ok::<(Option<NodeView>, int), ErrorView>((None, 11)));
    assert(sp_nodes(toks, 10, 1) == Ok::<(Seq<NodeView>, int), ErrorView>((Seq::empty(), 11)));
    assert(seq![inner] + Seq::<NodeView>::empty() =~= seq![inner]);
    assert(sp_nodes(toks, 3, 1) == Ok::<(Seq<NodeView>, int), ErrorView>((seq![inner], 11)));
    assert(sp_tag(toks, 1, 0) == Ok::<(Option<NodeView>, int), ErrorView>((Some(outer), 14)));
    assert(sp_nodes(toks, 14, 0) == Ok::<(Seq<NodeView>, int), ErrorView>((Seq::empty(), 14)));
    assert(seq![outer] + Seq::<NodeView>::empty() =~= seq![outer]);
    assert(sp_nodes(toks, 0, 0) == Ok::<(Seq<NodeView>, int), ErrorView>((seq![outer], 14)));
}

} // verus!
