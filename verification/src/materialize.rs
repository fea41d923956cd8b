use vstd::prelude::*;
use crate::model::{NodeType, TSNode, TSRange, Token, TokenView, portable_views};
use crate::native::{
    SyntaxNode, cursor_node, cursor_on_tree, cursor_path, cursor_root, goto_first_child, goto_next_sibling,
    goto_parent, node_at, node_child_count, node_id, node_is_error, node_is_extra,
    node_is_missing, node_is_named, node_kind, node_range, node_syntax, node_text,
    same_place, stands_on_child, walk,
};
use crate::tree::{
    classify, classify_flags, leaf_tokens, materialize, materialize_all, node_span_text,
    token_of, tokens_of, tokens_of_all,
};

verus! {

/// The views of a sequence of tokens, in order.
pub open spec fn tokens_view(tokens: Seq<Token>) -> Seq<TokenView> {
    tokens.map_values(|t: Token| t@)
}

impl NodeType {
    /// The classification that four flags give: the first that is set
    /// decides, in the order error, extra, missing, named; with none set it
    /// is anonymous.
    pub fn from_flags(is_error: bool, is_extra: bool, is_missing: bool, is_named: bool) -> (t: NodeType)
        ensures
            t == classify_flags(is_error, is_extra, is_missing, is_named),
    {
        if is_error {
            NodeType::Error
        } else if is_extra {
            NodeType::Extra
        } else if is_missing {
            NodeType::Missing
        } else if is_named {
            NodeType::Named
        } else {
            NodeType::Anonymous
        }
    }
}

/// The classification of a node: error before extra before missing before
/// named, and anonymous where the node is none of these.
pub fn node_type(node: tree_sitter::Node) -> (t: NodeType)
    ensures
        t == classify(node_syntax(node)),
{
    NodeType::from_flags(
        node_is_error(&node),
        node_is_extra(&node),
        node_is_missing(&node),
        node_is_named(&node),
    )
}

/// The text that a node covers in the source, where it has any.
fn covered_text(node: &tree_sitter::Node, source: &[u8]) -> (text: Option<String>)
    ensures
        match text {
            Some(t) => node_span_text(node_syntax(*node), source@) == Some(t@),
            None => node_span_text(node_syntax(*node), source@) is None,
        },
{
    let range: TSRange = node_range(node);
    if range.start_byte <= range.end_byte && range.end_byte <= source.len() {
        node_text(node, source)
    } else {
        None
    }
}

impl TSNode {
    /// Converts a node of a parsed tree, with everything below it, into
    /// portable form.
    pub fn from(node: tree_sitter::Node, corpus: &[u8]) -> (portable: TSNode)
        ensures
            portable@ == materialize(node_syntax(node), corpus@),
        decreases node_syntax(node),
    {
        let ghost root = node_syntax(node);
        let mut children: Vec<TSNode> = Vec::new();
        let mut cursor = walk(&node);
        proof {
            assert(cursor_path(cursor) =~= Seq::<int>::empty());
        }
        if goto_first_child(&mut cursor) {
            proof {
                assert(root.children.subrange(0, 0) =~= Seq::<SyntaxNode>::empty());
            }
            loop
                invariant_except_break
                    root == node_syntax(node),
                    same_place(cursor_root(cursor), root),
                    children@.len() < root.children.len(),
                    cursor_path(cursor) == seq![children@.len() as int],
                    portable_views(children@) == materialize_all(
                        root.children.subrange(0, children@.len() as int),
                        corpus@,
                    ),
                ensures
                    portable_views(children@) == materialize_all(root.children, corpus@),
                decreases root.children.len() - children@.len(),
            {
                let ghost done = children@;
                let ghost path = cursor_path(cursor);
                let child = cursor_node(&cursor);
                proof {
                    assert(path.drop_last() =~= Seq::<int>::empty());
                    assert(node_at(cursor_root(cursor), path.drop_last()) == cursor_root(cursor));
                    assert(node_syntax(child) == root.children[done.len() as int]);
                }
                let portable = TSNode::from(child, corpus);
                children.push(portable);
                proof {
                    let upto = root.children.subrange(0, children@.len() as int);
                    assert(children@.drop_last() =~= done);
                    assert(upto.drop_last() =~= root.children.subrange(0, done.len() as int));
                }
                let moved = goto_next_sibling(&mut cursor);
                proof {
                    assert(path.drop_last().push(path.last() + 1) =~= seq![children@.len() as int]);
                }
                if !moved {
                    proof {
                        assert(root.children.subrange(0, children@.len() as int) =~= root.children);
                    }
                    break;
                }
            }
        }
        let range = node_range(&node);
        let value = if node_child_count(&node) == 0 {
            covered_text(&node, corpus)
        } else {
            None
        };
        TSNode {
            id: node_id(&node),
            kind: node_kind(&node).to_owned(),
            node_type: node_type(node),
            range,
            value,
            children,
        }
    }
}

/// The nodes that a walk from a cursor's place still has to visit on the
/// place's own level: the node at `path` and the siblings after it. On the
/// root, that is the root alone.
pub open spec fn remaining_siblings(root: SyntaxNode, path: Seq<int>) -> Seq<SyntaxNode> {
    if path.len() == 0 {
        seq![root]
    } else {
        let parent = node_at(root, path.drop_last());
        parent.children.subrange(path.last(), parent.children.len() as int)
    }
}

/// The token for a node without children.
fn make_token(node: tree_sitter::Node, source: &[u8]) -> (token: Token)
    ensures
        token@ == token_of(node_syntax(node), source@),
{
    let value = match covered_text(&node, source) {
        Some(text) => text,
        None => String::new(),
    };
    Token { kind: node_kind(&node).to_owned(), value, node_type: node_type(node) }
}

/// Collects the tokens of the node the cursor stands on and of the siblings
/// after it, each with everything below it, depth first and left to right.
/// The cursor ends on the last of these siblings. The cursor has to be one
/// that was made on the root of a tree: another may not find its way back
/// up.
pub fn collect_tokens(source: &[u8], cursor: &mut tree_sitter::TreeCursor) -> (tokens: Vec<Token>)
    requires
        cursor_on_tree(*old(cursor)),
    ensures
        cursor_on_tree(*final(cursor)),
        tokens_view(tokens@) == tokens_of_all(
            remaining_siblings(cursor_root(*old(cursor)), cursor_path(*old(cursor))),
            source@,
        ),
        cursor_root(*final(cursor)) == cursor_root(*old(cursor)),
        cursor_path(*final(cursor)) == ({
            let path = cursor_path(*old(cursor));
            if path.len() == 0 {
                path
            } else {
                path.drop_last().push(
                    node_at(cursor_root(*old(cursor)), path.drop_last()).children.len() - 1,
                )
            }
        }),
    decreases remaining_siblings(cursor_root(*old(cursor)), cursor_path(*old(cursor))),
{
    let ghost root = cursor_root(*cursor);
    let ghost start = cursor_path(*cursor);
    let ghost siblings = remaining_siblings(root, start);
    let ghost mut done: int = 0;
    let mut node = cursor_node(cursor);
    let mut tokens: Vec<Token> = Vec::new();
    proof {
        assert(siblings.subrange(0, 0) =~= Seq::<SyntaxNode>::empty());
        assert(tokens_view(tokens@) =~= Seq::<TokenView>::empty());
        if start.len() > 0 {
            assert(start.drop_last().push(start.last() + 0) =~= start);
        }
    }
    loop
        invariant_except_break
            root == cursor_root(*old(cursor)),
            start == cursor_path(*old(cursor)),
            cursor_root(*cursor) == root,
            cursor_on_tree(*cursor),
            siblings == remaining_siblings(root, start),
            stands_on_child(root, start),
            0 <= done < siblings.len(),
            node_syntax(node) == node_at(root, cursor_path(*cursor)),
            cursor_path(*cursor) == if start.len() == 0 {
                start
            } else {
                start.drop_last().push(start.last() + done)
            },
            tokens_view(tokens@) == tokens_of_all(siblings.subrange(0, done), source@),
        ensures
            cursor_root(*cursor) == root,
            cursor_on_tree(*cursor),
            tokens_view(tokens@) == tokens_of_all(siblings, source@),
            cursor_path(*cursor) == if start.len() == 0 {
                start
            } else {
                start.drop_last().push(node_at(root, start.drop_last()).children.len() - 1)
            },
        decreases siblings.len() - done,
    {
        let ghost path = cursor_path(*cursor);
        let ghost before = tokens_view(tokens@);
        let ghost current = siblings[done];
        proof {
            if start.len() > 0 {
                assert(path.drop_last() =~= start.drop_last());
            }
            assert(node_syntax(node) == current);
        }
        if node_child_count(&node) == 0 {
            let token = make_token(node, source);
            tokens.push(token);
            proof {
                assert(tokens_view(tokens@) =~= before + seq![token_of(current, source@)]);
                assert(tokens_view(tokens@) == before + tokens_of(current, source@));
            }
        }
        if goto_first_child(cursor) {
            proof {
                assert(path.push(0).drop_last() =~= path);
                assert(remaining_siblings(root, path.push(0)) =~= current.children);
                assert(decreases_to!(siblings => siblings[done]));
                assert(decreases_to!(current => current.children));
            }
            let ghost mid = tokens_view(tokens@);
            let mut child_tokens = collect_tokens(source, cursor);
            let ghost below = tokens_view(child_tokens@);
            tokens.append(&mut child_tokens);
            proof {
                assert(tokens_view(tokens@) =~= mid + below);
                assert(below == tokens_of(current, source@));
                assert(tokens_view(tokens@) == before + tokens_of(current, source@));
            }
            goto_parent(cursor);
            proof {
                assert(path.push(0).drop_last().push(current.children.len() - 1).drop_last() =~= path);
            }
        }
        proof {
            let upto = siblings.subrange(0, done + 1);
            assert(upto.drop_last() =~= siblings.subrange(0, done));
            assert(upto.last() == current);
            assert(tokens_view(tokens@) == before + tokens_of(current, source@));
            assert(tokens_view(tokens@) == tokens_of_all(upto, source@));
        }
        let moved = goto_next_sibling(cursor);
        proof {
            if start.len() > 0 {
                assert(path.drop_last().push(path.last() + 1) =~= start.drop_last().push(
                    start.last() + (done + 1),
                ));
            }
            if !moved {
                assert(siblings.subrange(0, done + 1) =~= siblings);
            }
            done = done + 1;
        }
        if !moved {
            break;
        }
        node = cursor_node(cursor);
    }
    tokens
}

impl TSNode {
    /// The tokens of a portable tree: its nodes without children, depth
    /// first and left to right, each with its text, or with no text where
    /// the node carries none.
    pub fn tokens(&self) -> (tokens: Vec<Token>)
        ensures
            tokens_view(tokens@) == leaf_tokens(self@),
        decreases self,
    {
        let mut tokens: Vec<Token> = Vec::new();
        if self.children.len() == 0 {
            let value = match &self.value {
                Some(text) => text.clone(),
                None => String::new(),
            };
            tokens.push(Token { kind: self.kind.clone(), value, node_type: self.node_type });
            proof {
                assert(portable_views(self.children@) =~= Seq::<crate::model::TSNodeView>::empty());
                assert(tokens_view(tokens@) =~= leaf_tokens(self@));
            }
        } else {
            let mut index: usize = 0;
            proof {
                assert(self.children@.subrange(0, 0) =~= Seq::<TSNode>::empty());
                assert(tokens_view(tokens@) =~= Seq::<TokenView>::empty());
            }
            while index < self.children.len()
                invariant
                    index <= self.children@.len(),
                    tokens_view(tokens@) == crate::tree::leaf_tokens_all(
                        portable_views(self.children@.subrange(0, index as int)),
                    ),
                decreases self.children@.len() - index,
            {
                let ghost before = tokens_view(tokens@);
                let mut below = self.children[index].tokens();
                let ghost added = tokens_view(below@);
                tokens.append(&mut below);
                proof {
                    let upto = self.children@.subrange(0, index + 1);
                    assert(tokens_view(tokens@) =~= before + added);
                    assert(upto.drop_last() =~= self.children@.subrange(0, index as int));
                    assert(portable_views(upto).drop_last() =~= portable_views(upto.drop_last()));
                }
                index = index + 1;
            }
            proof {
                assert(self.children@.subrange(0, index as int) =~= self.children@);
                crate::model::lemma_portable_views_len(self.children@);
            }
        }
        tokens
    }
}

} // verus!
