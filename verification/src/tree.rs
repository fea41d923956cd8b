use vstd::prelude::*;
use vstd::utf8::{decode_utf8, valid_utf8};
use crate::model::{NodeType, TSNodeView, TSRange, TokenView};
use crate::native::SyntaxNode;

verus! {

/// The classification that four flags give: the first that is set decides,
/// in the order error, extra, missing, named; with none set the node is
/// anonymous.
pub open spec fn classify_flags(is_error: bool, is_extra: bool, is_missing: bool, is_named: bool) -> NodeType {
    if is_error {
        NodeType::Error
    } else if is_extra {
        NodeType::Extra
    } else if is_missing {
        NodeType::Missing
    } else if is_named {
        NodeType::Named
    } else {
        NodeType::Anonymous
    }
}

/// The classification of a node.
pub open spec fn classify(node: SyntaxNode) -> NodeType {
    classify_flags(node.is_error, node.is_extra, node.is_missing, node.is_named)
}

/// The text of the source between two byte offsets: present where the
/// offsets lie in the source, in order, and the bytes between them are UTF-8.
pub open spec fn span_text(source: Seq<u8>, start: int, end: int) -> Option<Seq<char>> {
    if 0 <= start <= end <= source.len() && valid_utf8(source.subrange(start, end)) {
        Some(decode_utf8(source.subrange(start, end)))
    } else {
        None
    }
}

/// The bytes of the source from `start` up to `end`; none where that is no
/// part of the source.
pub fn span_bytes(source: &[u8], start: usize, end: usize) -> (bytes: &[u8])
    ensures
        bytes@ == if start <= end <= source@.len() {
            source@.subrange(start as int, end as int)
        } else {
            Seq::<u8>::empty()
        },
{
    if start <= end && end <= source.len() {
        vstd::slice::slice_subrange(source, start, end)
    } else {
        vstd::slice::slice_subrange(source, 0, 0)
    }
}

/// The text that a node covers in the source.
pub open spec fn node_span_text(node: SyntaxNode, source: Seq<u8>) -> Option<Seq<char>> {
    span_text(source, node.range.start_byte as int, node.range.end_byte as int)
}

/// The portable form of a node over a source: the node's own identifier,
/// kind, range and classification, its children in order, and its text if
/// it has no children.
pub open spec fn materialize(node: SyntaxNode, source: Seq<u8>) -> TSNodeView
    decreases node,
{
    TSNodeView {
        id: node.id,
        kind: node.kind,
        range: node.range,
        children: materialize_all(node.children, source),
        node_type: classify(node),
        value: if node.children.len() == 0 {
            node_span_text(node, source)
        } else {
            None
        },
    }
}

/// The portable forms of a sequence of nodes, in order.
pub open spec fn materialize_all(nodes: Seq<SyntaxNode>, source: Seq<u8>) -> Seq<TSNodeView>
    decreases nodes,
{
    if nodes.len() == 0 {
        Seq::empty()
    } else {
        materialize_all(nodes.drop_last(), source).push(materialize(nodes.last(), source))
    }
}

/// The token for a node without children: its kind, the text it covers
/// (empty where that text is absent) and its classification.
pub open spec fn token_of(node: SyntaxNode, source: Seq<u8>) -> TokenView {
    TokenView {
        kind: node.kind,
        value: match node_span_text(node, source) {
            Some(text) => text,
            None => Seq::empty(),
        },
        node_type: classify(node),
    }
}

/// The tokens of a tree: its nodes without children, depth first and left
/// to right.
pub open spec fn tokens_of(node: SyntaxNode, source: Seq<u8>) -> Seq<TokenView>
    decreases node,
{
    if node.children.len() == 0 {
        seq![token_of(node, source)]
    } else {
        tokens_of_all(node.children, source)
    }
}

/// The tokens of a sequence of trees, one tree after the other.
pub open spec fn tokens_of_all(nodes: Seq<SyntaxNode>, source: Seq<u8>) -> Seq<TokenView>
    decreases nodes,
{
    if nodes.len() == 0 {
        Seq::empty()
    } else {
        tokens_of_all(nodes.drop_last(), source) + tokens_of(nodes.last(), source)
    }
}

/// The token for a portable node without children.
pub open spec fn leaf_token(node: TSNodeView) -> TokenView {
    TokenView {
        kind: node.kind,
        value: match node.value {
            Some(text) => text,
            None => Seq::empty(),
        },
        node_type: node.node_type,
    }
}

/// The tokens of a portable tree: its nodes without children, depth first
/// and left to right.
pub open spec fn leaf_tokens(node: TSNodeView) -> Seq<TokenView>
    decreases node,
{
    if node.children.len() == 0 {
        seq![leaf_token(node)]
    } else {
        leaf_tokens_all(node.children)
    }
}

/// The tokens of a sequence of portable trees, one tree after the other.
pub open spec fn leaf_tokens_all(nodes: Seq<TSNodeView>) -> Seq<TokenView>
    decreases nodes,
{
    if nodes.len() == 0 {
        Seq::empty()
    } else {
        leaf_tokens_all(nodes.drop_last()) + leaf_tokens(nodes.last())
    }
}

/// Whether the bytes of a range are the union of the bytes of some parts:
/// from the least start among the parts to their greatest end. No parts
/// ask nothing of the range.
pub open spec fn spans(range: TSRange, parts: Seq<TSRange>) -> bool {
    parts.len() > 0 ==> {
        &&& forall|i: int|
            0 <= i < parts.len() ==> range.start_byte <= (#[trigger] parts[i]).start_byte
                && parts[i].end_byte <= range.end_byte
        &&& exists|i: int| 0 <= i < parts.len() && (#[trigger] parts[i]).start_byte == range.start_byte
        &&& exists|i: int| 0 <= i < parts.len() && (#[trigger] parts[i]).end_byte == range.end_byte
    }
}

/// Whether each node of a parsed tree that has children spans them.
pub open spec fn syntax_spans_children(node: SyntaxNode) -> bool
    decreases node,
{
    &&& spans(node.range, node.children.map_values(|child: SyntaxNode| child.range))
    &&& forall|i: int|
        0 <= i < node.children.len() ==> syntax_spans_children(#[trigger] node.children[i])
}

/// Whether each node of a portable tree that has children spans them.
pub open spec fn portable_spans_children(node: TSNodeView) -> bool
    decreases node,
{
    &&& spans(node.range, node.children.map_values(|child: TSNodeView| child.range))
    &&& forall|i: int|
        0 <= i < node.children.len() ==> portable_spans_children(#[trigger] node.children[i])
}

/// Whether in a portable tree only nodes without children carry text, and
/// each that does carries the text of the source that its range covers.
pub open spec fn text_sits_on_leaves(node: TSNodeView, source: Seq<u8>) -> bool
    decreases node,
{
    &&& node.children.len() > 0 ==> node.value is None
    &&& node.value is Some ==> node.value == span_text(
        source,
        node.range.start_byte as int,
        node.range.end_byte as int,
    )
    &&& forall|i: int|
        0 <= i < node.children.len() ==> text_sits_on_leaves(#[trigger] node.children[i], source)
}

/// The identifiers of a portable node and of all the nodes below it, depth
/// first and left to right.
pub open spec fn portable_ids(node: TSNodeView) -> Seq<usize>
    decreases node,
{
    seq![node.id] + portable_ids_all(node.children)
}

/// The identifiers of the nodes of a sequence of portable trees, one tree
/// after the other.
pub open spec fn portable_ids_all(nodes: Seq<TSNodeView>) -> Seq<usize>
    decreases nodes,
{
    if nodes.len() == 0 {
        Seq::empty()
    } else {
        portable_ids_all(nodes.drop_last()) + portable_ids(nodes.last())
    }
}

/// Whether no two nodes of a portable tree have the same identifier.
pub open spec fn ids_differ(node: TSNodeView) -> bool {
    portable_ids(node).no_duplicates()
}

/// A portable tree with every identifier set to zero.
pub open spec fn without_ids(node: TSNodeView) -> TSNodeView
    decreases node,
{
    TSNodeView { id: 0, children: without_ids_all(node.children), ..node }
}

/// `without_ids` on each tree of a sequence.
pub open spec fn without_ids_all(nodes: Seq<TSNodeView>) -> Seq<TSNodeView>
    decreases nodes,
{
    if nodes.len() == 0 {
        Seq::empty()
    } else {
        without_ids_all(nodes.drop_last()).push(without_ids(nodes.last()))
    }
}

/// `materialize_all` keeps the number of nodes.
pub proof fn lemma_materialize_all_len(nodes: Seq<SyntaxNode>, source: Seq<u8>)
    ensures
        materialize_all(nodes, source).len() == nodes.len(),
    decreases nodes.len(),
{
    if nodes.len() > 0 {
        lemma_materialize_all_len(nodes.drop_last(), source);
    }
}

} // verus!
