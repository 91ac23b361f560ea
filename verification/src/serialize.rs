//! Re-serializing a forest to markup text. `sp_serialize_nodes` says exactly
//! which text a forest yields; the executable functions are proved to return
//! it. An attribute value is quoted with `"`, or with `'` when the value
//! itself contains `"`.

use crate::node::{node_views, Node, NodeView};
use vstd::prelude::*;

verus! {

broadcast use vstd::seq::axiom_seq_index_decreases, vstd::seq::axiom_seq_subrange_decreases, vstd::std_specs::vec::axiom_vec_index_decreases;

/// Whether a character occurs in a sequence.
pub open spec fn has_char(s: Seq<char>, c: char) -> bool {
    exists|i: int| 0 <= i < s.len() && s[i] == c
}

/// The quote used around an attribute value.
pub open spec fn quote_for(v: Seq<char>) -> char {
    if has_char(v, '"') {
        '\''
    } else {
        '"'
    }
}

/// The markup of one attribute pair, with its leading space.
pub open spec fn sp_serialize_param(p: NodeView) -> Seq<char> {
    match p {
        NodeView::Parameter { name, value } => {
            let n = match *name {
                NodeView::Identifier { name: s } => s,
                _ => Seq::empty(),
            };
            let v = match *value {
                NodeView::StringLit { value: s } => s,
                _ => Seq::empty(),
            };
            let q = quote_for(v);
            seq![' '] + n + seq!['='] + seq![q] + v + seq![q]
        },
        _ => Seq::empty(),
    }
}

/// The markup of an attribute list, from pair `i` on.
pub open spec fn sp_serialize_params_from(ps: Seq<NodeView>, i: int) -> Seq<char>
    decreases ps.len() - i,
{
    if 0 <= i < ps.len() {
        sp_serialize_param(ps[i]) + sp_serialize_params_from(ps, i + 1)
    } else {
        Seq::empty()
    }
}

/// The markup of an optional attribute-list node.
pub open spec fn sp_serialize_params(p: Option<Box<NodeView>>) -> Seq<char> {
    match p {
        Some(b) => match *b {
            NodeView::Parameters { children } => sp_serialize_params_from(children, 0),
            _ => Seq::empty(),
        },
        None => Seq::empty(),
    }
}

/// The markup of one node.
pub open spec fn sp_serialize_node(n: NodeView) -> Seq<char>
    decreases n, 1int,
{
    match n {
        NodeView::Tag { name, params, children } => {
            let inner = match children {
                Some(cs) => sp_serialize_nodes_from(cs, 0),
                None => Seq::empty(),
            };
            seq!['<'] + name + sp_serialize_params(params) + seq!['>'] + inner + seq!['<', '/']
                + name + seq!['>']
        },
        NodeView::SoloTag { name, params } => seq!['<'] + name + sp_serialize_params(params)
            + seq!['/', '>'],
        NodeView::CommentTag { text } => seq!['<', '!', '-', '-'] + text + seq!['-', '-', '>'],
        NodeView::DoctypeTag { name } => seq!['<', '!', 'd', 'o', 'c', 't', 'y', 'p', 'e', ' ']
            + name + seq!['>'],
        NodeView::Text { text } => text,
        _ => Seq::empty(),
    }
}

/// The markup of a forest, from node `i` on.
pub open spec fn sp_serialize_nodes_from(ns: Seq<NodeView>, i: int) -> Seq<char>
    decreases ns, ns.len() - i,
{
    if 0 <= i < ns.len() {
        sp_serialize_node(ns[i]) + sp_serialize_nodes_from(ns, i + 1)
    } else {
        Seq::empty()
    }
}

/// The markup of a whole forest.
pub open spec fn sp_serialize_nodes(ns: Seq<NodeView>) -> Seq<char> {
    sp_serialize_nodes_from(ns, 0)
}

/// Whether the character occurs in the string.
fn str_has_char(s: &str, c: char) -> (r: bool)
    ensures
        r == has_char(s@, c),
{
    let n = s.unicode_len();
    let mut i: usize = 0;
    while i < n
        invariant
            n == s@.len(),
            i <= n,
            forall|k: int| 0 <= k < i ==> s@[k] != c,
        decreases n - i,
    {
        if s.get_char(i) == c {
            return true;
        }
        i = i + 1;
    }
    false
}

/// Serializes one attribute pair, with its leading space.
fn serialize_param(p: &Node) -> (r: String)
    ensures
        r@ == sp_serialize_param(p@),
{
    match p {
        Node::Parameter { name, value } => {
            let n_str: &str = match &**name {
                Node::Identifier { name: s } => s.as_str(),
                _ => "",
            };
            let v_str: &str = match &**value {
                Node::StringLit { value: s } => s.as_str(),
                _ => "",
            };
            let mut out = String::new();
            out.append(" ");
            out.append(n_str);
            out.append("=");
            if str_has_char(v_str, '"') {
                out.append("'");
                out.append(v_str);
                out.append("'");
            } else {
                out.append("\"");
                out.append(v_str);
                out.append("\"");
            }
            proof {
                reveal_strlit(" ");
                reveal_strlit("=");
                reveal_strlit("'");
                reveal_strlit("\"");
                reveal_strlit("");
                match &**name {
                    Node::Identifier { name: s } => {
                        assert((**name)@ == (NodeView::Identifier { name: s@ }));
                    },
                    _ => {
                        assert(!((**name)@ is Identifier));
                    },
                }
                match &**value {
                    Node::StringLit { value: s } => {
                        assert((**value)@ == (NodeView::StringLit { value: s@ }));
                    },
                    _ => {
                        assert(!((**value)@ is StringLit));
                    },
                }
                assert(out@ =~= sp_serialize_param(p@));
            }
            out
        },
        _ => {
            let r = String::new();
            proof {
                assert(r@ =~= sp_serialize_param(p@));
            }
            r
        },
    }
}

/// Serializes an optional attribute-list node.
fn serialize_params(p: &Option<Box<Node>>) -> (r: String)
    ensures
        r@ == sp_serialize_params(crate::parser::params_node_view(*p)),
{
    match p {
        Some(b) => {
            match &**b {
                Node::Parameters { children } => {
                    let ghost csv = node_views(children@);
                    proof {
                        crate::node::lemma_nodes_view_vec(*children);
                    }
                    let mut out = String::new();
                    let n = children.len();
                    let mut i: usize = 0;
                    while i < n
                        invariant
                            n == children@.len(),
                            i <= n,
                            csv == node_views(children@),
                            csv.len() == n,
                            sp_serialize_params_from(csv, 0) == out@ + sp_serialize_params_from(
                                csv,
                                i as int,
                            ),
                        decreases n - i,
                    {
                        let piece = serialize_param(&children[i]);
                        let ghost outmid = out@;
                        out.append(piece.as_str());
                        proof {
                            let k = i as int;
                            assert(sp_serialize_params_from(csv, k) == sp_serialize_param(csv[k])
                                + sp_serialize_params_from(csv, k + 1));
                            assert(piece@ == sp_serialize_param(csv[k]));
                            assert(outmid + (sp_serialize_param(csv[k])
                                + sp_serialize_params_from(csv, k + 1)) =~= out@
                                + sp_serialize_params_from(csv, k + 1));
                        }
                        i = i + 1;
                    }
                    proof {
                        assert(sp_serialize_params_from(csv, n as int) == Seq::<char>::empty());
                        assert(out@ + Seq::<char>::empty() =~= out@);
                    }
                    out
                },
                _ => {
                    let r = String::new();
                    proof {
                        assert(r@ =~= sp_serialize_params(crate::parser::params_node_view(*p)));
                    }
                    r
                },
            }
        },
        None => {
            let r = String::new();
            proof {
                assert(r@ =~= sp_serialize_params(crate::parser::params_node_view(*p)));
            }
            r
        },
    }
}

/// Serializes one node to markup text.
pub fn serialize_node(n: &Node) -> (r: String)
    ensures
        r@ == sp_serialize_node(n@),
    decreases n,
{
    match n {
        Node::Tag { name, params, children } => {
            let mut out = String::new();
            out.append("<");
            out.append(name.as_str());
            let ps = serialize_params(params);
            out.append(ps.as_str());
            out.append(">");
            match children {
                Some(v) => {
                    let ghost csv = node_views(v@);
                    proof {
                        crate::node::lemma_nodes_view_vec(*v);
                    }
                    let ghost out0 = out@;
                    let cn = v.len();
                    let mut i: usize = 0;
                    while i < cn
                        invariant
                            cn == v@.len(),
                            i <= cn,
                            csv == node_views(v@),
                            csv.len() == cn,
                            decreases_to!(*n => *v),
                            out0 + sp_serialize_nodes_from(csv, 0) == out@
                                + sp_serialize_nodes_from(csv, i as int),
                        decreases cn - i,
                    {
                        proof {
                            assert(decreases_to!(*v => (*v)[i as int]));
                            assert(decreases_to!(*n => (*v)[i as int]));
                        }
                        let piece = serialize_node(&v[i]);
                        let ghost outmid = out@;
                        out.append(piece.as_str());
                        proof {
                            let k = i as int;
                            assert(sp_serialize_nodes_from(csv, k) == sp_serialize_node(csv[k])
                                + sp_serialize_nodes_from(csv, k + 1));
                            assert(piece@ == sp_serialize_node(csv[k]));
                            assert(outmid + (sp_serialize_node(csv[k]) + sp_serialize_nodes_from(
                                csv,
                                k + 1,
                            )) =~= out@ + sp_serialize_nodes_from(csv, k + 1));
                        }
                        i = i + 1;
                    }
                    proof {
                        assert(sp_serialize_nodes_from(csv, cn as int) == Seq::<char>::empty());
                        assert(out@ + Seq::<char>::empty() =~= out@);
                        assert(out@ =~= out0 + sp_serialize_nodes_from(csv, 0));
                    }
                },
                None => {},
            }
            out.append("</");
            out.append(name.as_str());
            out.append(">");
            proof {
                reveal_strlit("<");
                reveal_strlit(">");
                reveal_strlit("</");
                assert(out@ =~= sp_serialize_node(n@));
            }
            out
        },
        Node::SoloTag { name, params } => {
            let mut out = String::new();
            out.append("<");
            out.append(name.as_str());
            let ps = serialize_params(params);
            out.append(ps.as_str());
            out.append("/>");
            proof {
                reveal_strlit("<");
                reveal_strlit("/>");
                assert(out@ =~= sp_serialize_node(n@));
            }
            out
        },
        Node::CommentTag { text } => {
            let mut out = String::new();
            out.append("<!--");
            out.append(text.as_str());
            out.append("-->");
            proof {
                reveal_strlit("<!--");
                reveal_strlit("-->");
                assert(out@ =~= sp_serialize_node(n@));
            }
            out
        },
        Node::DoctypeTag { name } => {
            let mut out = String::new();
            out.append("<!doctype ");
            out.append(name.as_str());
            out.append(">");
            proof {
                reveal_strlit("<!doctype ");
                reveal_strlit(">");
                assert(out@ =~= sp_serialize_node(n@));
            }
            out
        },
        Node::Text { text } => {
            let mut out = String::new();
            out.append(text.as_str());
            proof {
                assert(out@ =~= sp_serialize_node(n@));
            }
            out
        },
        _ => {
            let r = String::new();
            proof {
                assert(r@ =~= sp_serialize_node(n@));
            }
            r
        },
    }
}

/// Serializes a forest of sibling nodes to markup text.
pub fn serialize_nodes(ns: &Vec<Node>) -> (r: String)
    ensures
        r@ == sp_serialize_nodes(node_views(ns@)),
{
    let ghost csv = node_views(ns@);
    let mut out = String::new();
    let n = ns.len();
    let mut i: usize = 0;
    while i < n
        invariant
            n == ns@.len(),
            i <= n,
            csv == node_views(ns@),
            csv.len() == n,
            sp_serialize_nodes_from(csv, 0) == out@ + sp_serialize_nodes_from(csv, i as int),
        decreases n - i,
    {
        let piece = serialize_node(&ns[i]);
        let ghost outmid = out@;
        out.append(piece.as_str());
        proof {
            let k = i as int;
            assert(sp_serialize_nodes_from(csv, k) == sp_serialize_node(csv[k])
                + sp_serialize_nodes_from(csv, k + 1));
            assert(piece@ == sp_serialize_node(csv[k]));
            assert(outmid + (sp_serialize_node(csv[k]) + sp_serialize_nodes_from(csv, k + 1))
                =~= out@ + sp_serialize_nodes_from(csv, k + 1));
        }
        i = i + 1;
    }
    proof {
        assert(sp_serialize_nodes_from(csv, n as int) == Seq::<char>::empty());
        assert(out@ + Seq::<char>::empty() =~= out@);
    }
    out
}

/// Serializes an optional forest, as `parse` returns it: an absent forest
/// yields the empty text.
pub fn serialize_forest(f: &Option<Vec<Node>>) -> (r: String)
    ensures
        r@ == sp_serialize_nodes(crate::parser::forest_view(*f)),
{
    match f {
        Some(v) => {
            let r = serialize_nodes(v);
            proof {
                assert(sp_serialize_nodes(node_views(v@)) == sp_serialize_nodes(
                    crate::parser::forest_view(*f),
                ));
            }
            r
        },
        None => {
            let r = String::new();
            proof {
                assert(r@ =~= sp_serialize_nodes(crate::parser::forest_view(*f)));
            }
            r
        },
    }
}

} // verus!
