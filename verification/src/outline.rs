use vstd::prelude::*;
use crate::materialize::remaining_siblings;
use crate::model::{TSPoint, TSRange};
use crate::native::{
    SyntaxNode, cursor_node, cursor_on_tree, cursor_path, cursor_root, goto_first_child, goto_next_sibling,
    goto_parent, node_at, node_child_count, node_kind, node_range, node_syntax, node_text,
    stands_on_child, tree_syntax, tree_walk,
};
use crate::tree::node_span_text;

verus! {

/// One line of the outline of a tree: how deep the node lies, its kind,
/// where it starts and ends, and, for a node without children, its text.
#[derive(Debug, PartialEq, Eq)]
pub struct OutlineEntry {
    pub depth: usize,
    pub kind: String,
    pub start: TSPoint,
    pub end: TSPoint,
    pub text: Option<String>,
}

/// An `OutlineEntry` with its strings as sequences of characters.
pub ghost struct OutlineEntryView {
    pub depth: usize,
    pub kind: Seq<char>,
    pub start: TSPoint,
    pub end: TSPoint,
    pub text: Option<Seq<char>>,
}

impl View for OutlineEntry {
    type V = OutlineEntryView;

    open spec fn view(&self) -> OutlineEntryView {
        OutlineEntryView {
            depth: self.depth,
            kind: self.kind@,
            start: self.start,
            end: self.end,
            text: match self.text {
                Some(text) => Some(text@),
                None => None,
            },
        }
    }
}

/// The views of a sequence of outline entries, in order.
pub open spec fn outline_view(entries: Seq<OutlineEntry>) -> Seq<OutlineEntryView> {
    entries.map_values(|e: OutlineEntry| e@)
}

/// The depth one level below `depth`; it stays at the largest number.
pub open spec fn below(depth: usize) -> usize {
    if depth < usize::MAX {
        (depth + 1) as usize
    } else {
        depth
    }
}

/// The outline entry of one node at a depth.
pub open spec fn entry_of(node: SyntaxNode, source: Seq<u8>, depth: usize) -> OutlineEntryView {
    OutlineEntryView {
        depth,
        kind: node.kind,
        start: node.range.start_point,
        end: node.range.end_point,
        text: if node.children.len() == 0 {
            node_span_text(node, source)
        } else {
            None
        },
    }
}

/// The outline of a tree: an entry for the node at `depth`, then the
/// outlines of its children, one level below, from left to right.
pub open spec fn outline_of(node: SyntaxNode, source: Seq<u8>, depth: usize) -> Seq<OutlineEntryView>
    decreases node,
{
    seq![entry_of(node, source, depth)] + outline_of_all(node.children, source, below(depth))
}

/// The outlines of a sequence of trees at one depth, one tree after the
/// other.
pub open spec fn outline_of_all(nodes: Seq<SyntaxNode>, source: Seq<u8>, depth: usize) -> Seq<OutlineEntryView>
    decreases nodes,
{
    if nodes.len() == 0 {
        Seq::empty()
    } else {
        outline_of_all(nodes.drop_last(), source, depth) + outline_of(nodes.last(), source, depth)
    }
}

/// The outline entry of the node a handle stands for.
fn make_entry(node: tree_sitter::Node, source: &[u8], depth: usize) -> (entry: OutlineEntry)
    ensures
        entry@ == entry_of(node_syntax(node), source@, depth),
{
    let range: TSRange = node_range(&node);
    let text = if node_child_count(&node) == 0 && range.start_byte <= range.end_byte
        && range.end_byte <= source.len() {
        node_text(&node, source)
    } else {
        None
    };
    OutlineEntry {
        depth,
        kind: node_kind(&node).to_owned(),
        start: range.start_point,
        end: range.end_point,
        text,
    }
}

/// The outline of the node the cursor stands on and of the siblings after
/// it, each with everything below it, with the cursor's node at `depth`.
/// The cursor ends on the last of these siblings. The cursor has to be one
/// that was made on the root of a tree: another may not find its way back
/// up.
pub fn outline(source: &[u8], cursor: &mut tree_sitter::TreeCursor, depth: usize) -> (entries: Vec<OutlineEntry>)
    requires
        cursor_on_tree(*old(cursor)),
    ensures
        cursor_on_tree(*final(cursor)),
        outline_view(entries@) == outline_of_all(
            remaining_siblings(cursor_root(*old(cursor)), cursor_path(*old(cursor))),
            source@,
            depth,
        ),
        cursor_root(*final(cursor)) == cursor_root(*old(cursor)),
        cursor_path(*final(cursor)) == ({
            let path = cursor_path(*old(cursor));
            if path.len() == 0 {
                path
            } else {
                path.drop_last().push(
                    node_at(cursor_root(*old(cursor)), path.drop_last()).children.len() - 1,
                )
            }
        }),
    decreases remaining_siblings(cursor_root(*old(cursor)), cursor_path(*old(cursor))),
{
    let ghost root = cursor_root(*cursor);
    let ghost start = cursor_path(*cursor);
    let ghost siblings = remaining_siblings(root, start);
    let ghost mut done: int = 0;
    let mut node = cursor_node(cursor);
    let deeper: usize = if depth < usize::MAX {
        depth + 1
    } else {
        depth
    };
    let mut entries: Vec<OutlineEntry> = Vec::new();
    proof {
        assert(siblings.subrange(0, 0) =~= Seq::<SyntaxNode>::empty());
        assert(outline_view(entries@) =~= Seq::<OutlineEntryView>::empty());
        if start.len() > 0 {
            assert(start.drop_last().push(start.last() + 0) =~= start);
        }
    }
    loop
        invariant_except_break
            root == cursor_root(*old(cursor)),
            start == cursor_path(*old(cursor)),
            cursor_root(*cursor) == root,
            cursor_on_tree(*cursor),
            siblings == remaining_siblings(root, start),
            stands_on_child(root, start),
            deeper == below(depth),
            0 <= done < siblings.len(),
            node_syntax(node) == node_at(root, cursor_path(*cursor)),
            cursor_path(*cursor) == if start.len() == 0 {
                start
            } else {
                start.drop_last().push(start.last() + done)
            },
            outline_view(entries@) == outline_of_all(siblings.subrange(0, done), source@, depth),
        ensures
            cursor_root(*cursor) == root,
            cursor_on_tree(*cursor),
            outline_view(entries@) == outline_of_all(siblings, source@, depth),
            cursor_path(*cursor) == if start.len() == 0 {
                start
            } else {
                start.drop_last().push(node_at(root, start.drop_last()).children.len() - 1)
            },
        decreases siblings.len() - done,
    {
        let ghost path = cursor_path(*cursor);
        let ghost before = outline_view(entries@);
        let ghost current = siblings[done];
        proof {
            if start.len() > 0 {
                assert(path.drop_last() =~= start.drop_last());
            }
            assert(node_syntax(node) == current);
        }
        let entry = make_entry(node, source, depth);
        entries.push(entry);
        let ghost own = outline_view(entries@);
        proof {
            assert(own =~= before + seq![entry_of(current, source@, depth)]);
        }
        if goto_first_child(cursor) {
            proof {
                assert(path.push(0).drop_last() =~= path);
                assert(remaining_siblings(root, path.push(0)) =~= current.children);
                assert(decreases_to!(siblings => siblings[done]));
                assert(decreases_to!(current => current.children));
            }
            let mut inner = outline(source, cursor, deeper);
            let ghost inner_view = outline_view(inner@);
            entries.append(&mut inner);
            proof {
                assert(outline_view(entries@) =~= own + inner_view);
            }
            goto_parent(cursor);
            proof {
                assert(path.push(0).drop_last().push(current.children.len() - 1).drop_last() =~= path);
            }
        } else {
            proof {
                assert(current.children =~= Seq::<SyntaxNode>::empty());
                assert(outline_of_all(current.children, source@, deeper) =~= Seq::<
                    OutlineEntryView,
                >::empty());
            }
        }
        proof {
            let upto = siblings.subrange(0, done + 1);
            assert(upto.drop_last() =~= siblings.subrange(0, done));
            assert(upto.last() == current);
            assert(outline_view(entries@) =~= before + outline_of(current, source@, depth));
            assert(outline_view(entries@) == outline_of_all(upto, source@, depth));
        }
        let moved = goto_next_sibling(cursor);
        proof {
            if start.len() > 0 {
                assert(path.drop_last().push(path.last() + 1) =~= start.drop_last().push(
                    start.last() + (done + 1),
                ));
            }
            if !moved {
                assert(siblings.subrange(0, done + 1) =~= siblings);
            }
            done = done + 1;
        }
        if !moved {
            break;
        }
        node = cursor_node(cursor);
    }
    entries
}

/// The outline of a whole tree, with its root at `depth`.
pub fn tree_outline(source: &[u8], tree: &tree_sitter::Tree, depth: usize) -> (entries: Vec<OutlineEntry>)
    ensures
        outline_view(entries@) == outline_of(tree_syntax(*tree), source@, depth),
{
    let mut cursor = tree_walk(tree);
    proof {
        let alone = seq![tree_syntax(*tree)];
        assert(cursor_path(cursor) =~= Seq::<int>::empty());
        assert(alone.drop_last() =~= Seq::<SyntaxNode>::empty());
        assert(outline_of_all(alone.drop_last(), source@, depth) =~= Seq::empty());
        assert(outline_of_all(alone, source@, depth) =~= outline_of(
            tree_syntax(*tree),
            source@,
            depth,
        ));
    }
    outline(source, &mut cursor, depth)
}

} // verus!
