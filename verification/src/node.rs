//! The syntax-tree node model: one tagged variant per node kind, each
//! carrying exactly the fields that kind needs. A node with zero attributes
//! carries an absent (not empty) attribute list, and a self-closing tag has
//! no children at all.

use crate::fold::lower_seq;
use vstd::prelude::*;

verus! {

broadcast use vstd::seq::axiom_seq_index_decreases, vstd::std_specs::vec::axiom_vec_index_decreases;

/// The kind of a syntax node.
#[derive(Debug, Clone, Copy, PartialEq, Eq, Structural)]
pub enum NodeKind {
    Tag,
    SoloTag,
    CommentTag,
    DoctypeTag,
    Text,
    Parameters,
    Parameter,
    Identifier,
    StringLit,
}

/// A syntax node.
///
/// `Tag` is an element with a matching close tag; its children are absent
/// when the element is empty. `SoloTag` is a self-closing element and never
/// has children. `CommentTag` holds a comment's collapsed text, `DoctypeTag`
/// the declared type name, `Text` a concatenated text run. An attribute list
/// is a `Parameters` node holding `Parameter` nodes, each pairing an
/// `Identifier` (the name, stored lower-cased) with a `StringLit` (the
/// value, stored as written).
#[derive(Debug, PartialEq)]
pub enum Node {
    Tag { name: String, params: Option<Box<Node>>, children: Option<Vec<Node>> },
    SoloTag { name: String, params: Option<Box<Node>> },
    CommentTag { text: String },
    DoctypeTag { name: String },
    Text { text: String },
    Parameters { children: Vec<Node> },
    Parameter { name: Box<Node>, value: Box<Node> },
    Identifier { name: String },
    StringLit { value: String },
}

/// The mathematical value of a `Node`.
pub enum NodeView {
    Tag { name: Seq<char>, params: Option<Box<NodeView>>, children: Option<Seq<NodeView>> },
    SoloTag { name: Seq<char>, params: Option<Box<NodeView>> },
    CommentTag { text: Seq<char> },
    DoctypeTag { name: Seq<char> },
    Text { text: Seq<char> },
    Parameters { children: Seq<NodeView> },
    Parameter { name: Box<NodeView>, value: Box<NodeView> },
    Identifier { name: Seq<char> },
    StringLit { value: Seq<char> },
}

/// The view of one node, recursively.
pub open spec fn node_view(n: Node) -> NodeView
    decreases n, 0int,
{
    match n {
        Node::Tag { name, params, children } => NodeView::Tag {
            name: name@,
            params: match params {
                Some(p) => Some(Box::new(node_view(*p))),
                None => None,
            },
            children: match children {
                Some(v) => Some(nodes_view_vec(v)),
                None => None,
            },
        },
        Node::SoloTag { name, params } => NodeView::SoloTag {
            name: name@,
            params: match params {
                Some(p) => Some(Box::new(node_view(*p))),
                None => None,
            },
        },
        Node::CommentTag { text } => NodeView::CommentTag { text: text@ },
        Node::DoctypeTag { name } => NodeView::DoctypeTag { name: name@ },
        Node::Text { text } => NodeView::Text { text: text@ },
        Node::Parameters { children } => NodeView::Parameters {
            children: nodes_view_vec(children),
        },
        Node::Parameter { name, value } => NodeView::Parameter {
            name: Box::new(node_view(*name)),
            value: Box::new(node_view(*value)),
        },
        Node::Identifier { name } => NodeView::Identifier { name: name@ },
        Node::StringLit { value } => NodeView::StringLit { value: value@ },
    }
}

/// The views of the nodes of a vector, from index `i` on.
pub open spec fn nodes_view_from(v: Vec<Node>, i: int) -> Seq<NodeView>
    decreases v, v@.len() - i,
{
    if 0 <= i < v@.len() {
        seq![node_view(v[i])] + nodes_view_from(v, i + 1)
    } else {
        Seq::empty()
    }
}

/// The views of the nodes of a vector.
pub open spec fn nodes_view_vec(v: Vec<Node>) -> Seq<NodeView>
    decreases v, v@.len() + 1,
{
    nodes_view_from(v, 0)
}

impl View for Node {
    type V = NodeView;

    open spec fn view(&self) -> NodeView {
        node_view(*self)
    }
}

/// `nodes_view_from` walks the vector element by element.
pub proof fn lemma_nodes_view_from(v: Vec<Node>, i: int)
    requires
        0 <= i <= v@.len(),
    ensures
        nodes_view_from(v, i).len() == v@.len() - i,
        forall|k: int|
            0 <= k < v@.len() - i ==> #[trigger] nodes_view_from(v, i)[k] == node_view(v@[i + k]),
    decreases v@.len() - i,
{
    if i < v@.len() {
        lemma_nodes_view_from(v, i + 1);
    }
}

/// The two ways of viewing a vector of nodes agree.
pub proof fn lemma_nodes_view_vec(v: Vec<Node>)
    ensures
        nodes_view_vec(v) == node_views(v@),
{
    lemma_nodes_view_from(v, 0);
    assert(nodes_view_vec(v) =~= node_views(v@));
}

/// The views of a sequence of nodes.
pub open spec fn node_views(ns: Seq<Node>) -> Seq<NodeView> {
    Seq::new(ns.len(), |k: int| ns[k]@)
}

impl Node {
    /// The kind tag of this node.
    pub open spec fn spec_kind(&self) -> NodeKind {
        match self {
            Node::Tag { .. } => NodeKind::Tag,
            Node::SoloTag { .. } => NodeKind::SoloTag,
            Node::CommentTag { .. } => NodeKind::CommentTag,
            Node::DoctypeTag { .. } => NodeKind::DoctypeTag,
            Node::Text { .. } => NodeKind::Text,
            Node::Parameters { .. } => NodeKind::Parameters,
            Node::Parameter { .. } => NodeKind::Parameter,
            Node::Identifier { .. } => NodeKind::Identifier,
            Node::StringLit { .. } => NodeKind::StringLit,
        }
    }

    /// Returns the kind tag of this node.
    pub fn kind(&self) -> (k: NodeKind)
        ensures
            k == self.spec_kind(),
    {
        match self {
            Node::Tag { .. } => NodeKind::Tag,
            Node::SoloTag { .. } => NodeKind::SoloTag,
            Node::CommentTag { .. } => NodeKind::CommentTag,
            Node::DoctypeTag { .. } => NodeKind::DoctypeTag,
            Node::Text { .. } => NodeKind::Text,
            Node::Parameters { .. } => NodeKind::Parameters,
            Node::Parameter { .. } => NodeKind::Parameter,
            Node::Identifier { .. } => NodeKind::Identifier,
            Node::StringLit { .. } => NodeKind::StringLit,
        }
    }
}

/// A well-formed attribute pair: an `Identifier` name, stored lower-cased,
/// and a `StringLit` value.
pub open spec fn wf_param(p: NodeView) -> bool {
    match p {
        NodeView::Parameter { name, value } => {
            &&& match *name {
                NodeView::Identifier { name: n } => n == lower_seq(n),
                _ => false,
            }
            &&& (*value) is StringLit
        },
        _ => false,
    }
}

/// A well-formed attribute list: a nonempty `Parameters` node whose children
/// are all well-formed attribute pairs.
pub open spec fn wf_params(p: NodeView) -> bool {
    match p {
        NodeView::Parameters { children } => {
            &&& children.len() >= 1
            &&& forall|k: int| 0 <= k < children.len() ==> wf_param(children[k])
        },
        _ => false,
    }
}

/// A well-formed forest node, as the parser builds them: tag and doctype
/// names are stored lower-cased, an attribute list is absent or well-formed
/// and nonempty, a child list is absent or nonempty with well-formed nodes,
/// and the attribute-shape kinds never stand on their own.
pub open spec fn wf_node(n: NodeView) -> bool
    decreases n,
{
    match n {
        NodeView::Tag { name, params, children } => {
            &&& name == lower_seq(name)
            &&& match params {
                Some(p) => wf_params(*p),
                None => true,
            }
            &&& match children {
                Some(cs) => cs.len() >= 1 && forall|k: int|
                    0 <= k < cs.len() ==> wf_node(#[trigger] cs[k]),
                None => true,
            }
        },
        NodeView::SoloTag { name, params } => {
            &&& name == lower_seq(name)
            &&& match params {
                Some(p) => wf_params(*p),
                None => true,
            }
        },
        NodeView::CommentTag { .. } => true,
        NodeView::DoctypeTag { name } => name == lower_seq(name),
        NodeView::Text { .. } => true,
        _ => false,
    }
}

} // verus!

