use vstd::prelude::*;
use vstd::utf8::{decode_utf8, valid_utf8};
use crate::tree::span_bytes;
use crate::model::{
    QueryHit, QueryHitView, QuerySetting, QuerySettingView, TSPoint, TSRange, hits_view,
    settings_view,
};

verus! {

#[verifier::external_type_specification]
#[verifier::external_body]
pub struct ExLanguage(tree_sitter::Language);

#[verifier::external_type_specification]
#[verifier::external_body]
pub struct ExParser(tree_sitter::Parser);

#[verifier::external_type_specification]
#[verifier::external_body]
pub struct ExTree(tree_sitter::Tree);

#[verifier::external_type_specification]
#[verifier::external_body]
pub struct ExNode<'a>(tree_sitter::Node<'a>);

#[verifier::external_type_specification]
#[verifier::external_body]
pub struct ExTreeCursor<'a>(tree_sitter::TreeCursor<'a>);

#[verifier::external_type_specification]
#[verifier::external_body]
pub struct ExQuery(tree_sitter::Query);

#[verifier::external_type_specification]
#[verifier::external_body]
pub struct ExQueryCursor(tree_sitter::QueryCursor);

/// What a node of a parsed tree shows of itself, and the nodes below it.
pub ghost struct SyntaxNode {
    pub id: usize,
    pub kind: Seq<char>,
    pub range: TSRange,
    pub is_error: bool,
    pub is_extra: bool,
    pub is_missing: bool,
    pub is_named: bool,
    pub sexp: Seq<char>,
    pub children: Seq<SyntaxNode>,
}

/// A tree with every identifier set to zero. Identifiers are addresses, so
/// two parses of one text agree only up to them.
pub open spec fn erase_ids(node: SyntaxNode) -> SyntaxNode
    decreases node,
{
    SyntaxNode { id: 0, children: erase_ids_all(node.children), ..node }
}

/// `erase_ids` on each tree of a sequence.
pub open spec fn erase_ids_all(nodes: Seq<SyntaxNode>) -> Seq<SyntaxNode>
    decreases nodes,
{
    if nodes.len() == 0 {
        Seq::empty()
    } else {
        erase_ids_all(nodes.drop_last()).push(erase_ids(nodes.last()))
    }
}

/// The identifiers of a node and of all the nodes below it, depth first
/// and left to right.
pub open spec fn syntax_ids(node: SyntaxNode) -> Seq<usize>
    decreases node,
{
    seq![node.id] + syntax_ids_all(node.children)
}

/// The identifiers of the nodes of a sequence of trees, one tree after the
/// other.
pub open spec fn syntax_ids_all(nodes: Seq<SyntaxNode>) -> Seq<usize>
    decreases nodes,
{
    if nodes.len() == 0 {
        Seq::empty()
    } else {
        syntax_ids_all(nodes.drop_last()) + syntax_ids(nodes.last())
    }
}

/// Whether no two nodes of a tree have the same identifier.
pub open spec fn ids_distinct(node: SyntaxNode) -> bool {
    syntax_ids(node).no_duplicates()
}

/// Whether a parser accepts ranges to parse within: each starts at or after
/// the end of the one before it, and none ends before it starts.
pub open spec fn ranges_ordered(ranges: Seq<TSRange>) -> bool {
    forall|i: int|
        0 <= i < ranges.len() ==> {
            &&& (#[trigger] ranges[i]).start_byte <= ranges[i].end_byte
            &&& i > 0 ==> ranges[i - 1].end_byte <= ranges[i].start_byte
        }
}

/// Whether every number of a range fits in 32 bits.
pub open spec fn range_fits(range: TSRange) -> bool {
    &&& range.start_byte <= u32::MAX
    &&& range.end_byte <= u32::MAX
    &&& range.start_point.row <= u32::MAX
    &&& range.start_point.column <= u32::MAX
    &&& range.end_point.row <= u32::MAX
    &&& range.end_point.column <= u32::MAX
}

/// Whether a parser can be handed the ranges at all: their number and every
/// number in them fit in 32 bits.
pub open spec fn ranges_fit(ranges: Seq<TSRange>) -> bool {
    &&& ranges.len() <= u32::MAX
    &&& forall|i: int| 0 <= i < ranges.len() ==> range_fits(#[trigger] ranges[i])
}

/// The version of the parser interface that a grammar was generated for.
pub uninterp spec fn abi_version(language: tree_sitter::Language) -> nat;

/// The grammar a parser is set to, if any.
pub uninterp spec fn parser_language(parser: tree_sitter::Parser) -> Option<tree_sitter::Language>;

/// The ranges a parser is restricted to; none means the whole text.
pub uninterp spec fn parser_ranges(parser: tree_sitter::Parser) -> Seq<TSRange>;

/// Whether a parser is free to parse a text to its end: it has no time
/// limit and no cancellation flag, and no parse of its own left unfinished.
pub uninterp spec fn parser_ready(parser: tree_sitter::Parser) -> bool;

/// The tree that a parser that is free to parse to the end produces for a
/// text under a grammar, within the given ranges, with its identifiers
/// erased.
pub uninterp spec fn parse_outcome(
    language: tree_sitter::Language,
    ranges: Seq<TSRange>,
    text: Seq<u8>,
) -> SyntaxNode;

/// The root of a tree, with everything below it.
pub uninterp spec fn tree_syntax(tree: tree_sitter::Tree) -> SyntaxNode;

/// What a tree was parsed from: a text, under a grammar, within ranges.
pub ghost struct ParseInput {
    pub language: tree_sitter::Language,
    pub ranges: Seq<TSRange>,
    pub text: Seq<u8>,
}

/// What a tree was parsed from.
pub uninterp spec fn tree_origin(tree: tree_sitter::Tree) -> ParseInput;

/// What a query was compiled from: a text, for a grammar.
pub ghost struct QueryInput {
    pub language: tree_sitter::Language,
    pub source: Seq<char>,
}

/// What a query was compiled from.
pub uninterp spec fn query_origin(query: tree_sitter::Query) -> QueryInput;

/// The matches of a query text, compiled for a grammar, on the tree of a
/// text parsed under that grammar within the given ranges, in the order in
/// which the query engine finds them.
pub uninterp spec fn match_outcome(
    language: tree_sitter::Language,
    query: Seq<char>,
    ranges: Seq<TSRange>,
    text: Seq<u8>,
) -> Seq<QueryHitView>;

/// The node a handle stands for, with everything below it.
pub uninterp spec fn node_syntax(node: tree_sitter::Node) -> SyntaxNode;

/// The node that a cursor shows where it was made, with everything below
/// it. It is the node the cursor was made on, but for its kind and flags:
/// a node that bears the name of another rule shows there under its own.
pub uninterp spec fn cursor_root(cursor: tree_sitter::TreeCursor) -> SyntaxNode;

/// Whether a cursor was made on the root of a tree.
pub uninterp spec fn cursor_on_tree(cursor: tree_sitter::TreeCursor) -> bool;

/// Whether a query cursor is as it was made: no limit on its matches and no
/// range to match within has been set.
pub uninterp spec fn query_cursor_fresh(cursor: tree_sitter::QueryCursor) -> bool;

/// Where a cursor stands: the child indices that lead from its root to its
/// current node.
pub uninterp spec fn cursor_path(cursor: tree_sitter::TreeCursor) -> Seq<int>;

/// The properties that each pattern of a query sets, pattern by pattern.
pub uninterp spec fn query_settings(query: tree_sitter::Query) -> Seq<Seq<QuerySettingView>>;

/// What compiling a query text for a grammar gives: the properties its
/// patterns set, or the compiler's message.
pub uninterp spec fn compile_outcome(language: tree_sitter::Language, source: Seq<char>) -> Result<
    Seq<Seq<QuerySettingView>>,
    Seq<char>,
>;

/// Whether a character may belong to a name in a query: a letter or a
/// digit, `_` or `-`. Every character beyond ASCII counts as one.
pub open spec fn is_name_char(c: char) -> bool {
    ||| 'a' <= c <= 'z'
    ||| 'A' <= c <= 'Z'
    ||| '0' <= c <= '9'
    ||| c == '_'
    ||| c == '-'
    ||| c > '\u{7f}'
}

/// Whether a query text ends in a character that may belong to a name.
pub open spec fn ends_in_name(source: Seq<char>) -> bool {
    source.len() > 0 && is_name_char(source.last())
}

/// The node that a path of child indices leads to from a root.
pub open spec fn node_at(root: SyntaxNode, path: Seq<int>) -> SyntaxNode
    decreases path.len(),
{
    if path.len() == 0 {
        root
    } else {
        node_at(root, path.drop_last()).children[path.last()]
    }
}

/// Whether a path's last step is a child index of the node before it.
pub open spec fn stands_on_child(root: SyntaxNode, path: Seq<int>) -> bool {
    path.len() > 0 ==> 0 <= path.last() < node_at(root, path.drop_last()).children.len()
}

/// Whether two nodes are one node of a tree as far as its place goes: the
/// same identifier, the same range and the same children.
pub open spec fn same_place(one: SyntaxNode, other: SyntaxNode) -> bool {
    &&& one.id == other.id
    &&& one.range == other.range
    &&& one.children == other.children
}

/// Whether a node is the one that a path leads to from a root: the root for
/// the empty path, else a child of the node that the path without its last
/// step leads to, at the index that the last step gives.
pub open spec fn stands_at(node: SyntaxNode, root: SyntaxNode, path: Seq<int>) -> bool {
    &&& node == node_at(root, path)
    &&& stands_on_child(root, path)
}

/// `tree_sitter_javascript::language`: the JavaScript grammar, generated for
/// version 14 of the parser interface.
#[verifier::external_body]
pub(crate) fn javascript_grammar() -> (grammar: tree_sitter::Language)
    ensures
        abi_version(grammar) == 14,
{
    tree_sitter_javascript::language()
}

/// `tree_sitter_html::language`: the HTML grammar, generated for version 14
/// of the parser interface.
#[verifier::external_body]
pub(crate) fn html_grammar() -> (grammar: tree_sitter::Language)
    ensures
        abi_version(grammar) == 14,
{
    tree_sitter_html::language()
}

/// `tree_sitter_css::language`: the CSS grammar, generated for version 14
/// of the parser interface.
#[verifier::external_body]
pub(crate) fn css_grammar() -> (grammar: tree_sitter::Language)
    ensures
        abi_version(grammar) == 14,
{
    tree_sitter_css::language()
}

/// `Parser::new`: a parser with no grammar, not restricted to any range,
/// and free to parse to the end.
#[verifier::external_body]
pub(crate) fn new_parser() -> (parser: tree_sitter::Parser)
    ensures
        parser_language(parser) is None,
        parser_ranges(parser).len() == 0,
        parser_ready(parser),
{
    tree_sitter::Parser::new()
}

/// `Parser::set_language`: accepts a grammar exactly when its interface
/// version is 13 or 14, and then parses under it; the ranges stay, and a
/// parser that was free to parse to the end still is.
#[verifier::external_body]
pub(crate) fn set_language(parser: &mut tree_sitter::Parser, language: tree_sitter::Language) -> (ok: bool)
    ensures
        ok == (13 <= abi_version(language) <= 14),
        parser_language(*final(parser)) == if ok {
            Some(language)
        } else {
            parser_language(*old(parser))
        },
        parser_ranges(*final(parser)) == parser_ranges(*old(parser)),
        parser_ready(*old(parser)) ==> parser_ready(*final(parser)),
{
    parser.set_language(language).is_ok()
}

/// `Parser::set_included_ranges`: accepts the ranges exactly when they are
/// ordered, and then parses within them; the grammar stays, and a parser
/// that was free to parse to the end still is.
#[verifier::external_body]
pub(crate) fn set_included_ranges(parser: &mut tree_sitter::Parser, ranges: &Vec<TSRange>) -> (ok: bool)
    requires
        ranges_fit(ranges@),
    ensures
        ok == ranges_ordered(ranges@),
        parser_ranges(*final(parser)) == if ok {
            ranges@
        } else {
            parser_ranges(*old(parser))
        },
        parser_language(*final(parser)) == parser_language(*old(parser)),
        parser_ready(*old(parser)) ==> parser_ready(*final(parser)),
{
    let native: Vec<tree_sitter::Range> = ranges.iter().map(|r| tree_sitter::Range {
        start_byte: r.start_byte,
        end_byte: r.end_byte,
        start_point: tree_sitter::Point { row: r.start_point.row, column: r.start_point.column },
        end_point: tree_sitter::Point { row: r.end_point.row, column: r.end_point.column },
    }).collect();
    parser.set_included_ranges(&native).is_ok()
}

/// `Parser::parse`, with no earlier tree, on a parser that has a grammar and
/// is free to parse to the end: there is a tree, that for the text under the
/// parser's grammar and within its ranges, and it is one parsed from these.
/// No two nodes of the tree have the same identifier. The parser keeps its
/// grammar and ranges and is free again.
#[verifier::external_body]
pub(crate) fn parse(parser: &mut tree_sitter::Parser, text: &[u8]) -> (tree: Option<tree_sitter::Tree>)
    requires
        parser_language(*old(parser)) is Some,
        parser_ready(*old(parser)),
    ensures
        tree matches Some(t) && erase_ids(tree_syntax(t)) == parse_outcome(
            parser_language(*old(parser))->0,
            parser_ranges(*old(parser)),
            text@,
        ) && tree_origin(t) == (ParseInput {
            language: parser_language(*old(parser))->0,
            ranges: parser_ranges(*old(parser)),
            text: text@,
        }),
        tree is Some && ids_distinct(tree_syntax(tree->0)),
        parser_language(*final(parser)) == parser_language(*old(parser)),
        parser_ranges(*final(parser)) == parser_ranges(*old(parser)),
        parser_ready(*final(parser)),
{
    parser.parse(text, None)
}

/// `Tree::root_node`: a handle on the root of the tree.
#[verifier::external_body]
pub(crate) fn root_node<'a>(tree: &'a tree_sitter::Tree) -> (node: tree_sitter::Node<'a>)
    ensures
        node_syntax(node) == tree_syntax(*tree),
{
    tree.root_node()
}

/// `Node::id`: the node's identifier.
#[verifier::external_body]
pub(crate) fn node_id(node: &tree_sitter::Node) -> (id: usize)
    ensures
        id == node_syntax(*node).id,
{
    node.id()
}

/// `Node::kind`: the node's kind.
#[verifier::external_body]
pub(crate) fn node_kind(node: &tree_sitter::Node) -> (kind: &'static str)
    ensures
        kind@ == node_syntax(*node).kind,
{
    node.kind()
}

/// `Node::range`: the part of the text that the node covers.
#[verifier::external_body]
pub(crate) fn node_range(node: &tree_sitter::Node) -> (range: TSRange)
    ensures
        range == node_syntax(*node).range,
{
    let r = node.range();
    TSRange {
        start_byte: r.start_byte,
        end_byte: r.end_byte,
        start_point: TSPoint { row: r.start_point.row, column: r.start_point.column },
        end_point: TSPoint { row: r.end_point.row, column: r.end_point.column },
    }
}

/// `Node::is_error`: whether the node is a syntax error.
#[verifier::external_body]
pub(crate) fn node_is_error(node: &tree_sitter::Node) -> (flag: bool)
    ensures
        flag == node_syntax(*node).is_error,
{
    node.is_error()
}

/// `Node::is_extra`: whether the node is an extra, such as a comment.
#[verifier::external_body]
pub(crate) fn node_is_extra(node: &tree_sitter::Node) -> (flag: bool)
    ensures
        flag == node_syntax(*node).is_extra,
{
    node.is_extra()
}

/// `Node::is_missing`: whether the parser put the node in to recover from
/// an error.
#[verifier::external_body]
pub(crate) fn node_is_missing(node: &tree_sitter::Node) -> (flag: bool)
    ensures
        flag == node_syntax(*node).is_missing,
{
    node.is_missing()
}

/// `Node::is_named`: whether the node stands for a named rule of the grammar.
#[verifier::external_body]
pub(crate) fn node_is_named(node: &tree_sitter::Node) -> (flag: bool)
    ensures
        flag == node_syntax(*node).is_named,
{
    node.is_named()
}

/// `Node::child_count`: the number of the node's children.
#[verifier::external_body]
pub(crate) fn node_child_count(node: &tree_sitter::Node) -> (count: usize)
    ensures
        count == node_syntax(*node).children.len(),
{
    node.child_count()
}

/// `Node::utf8_text`: the text that the node covers, where those bytes of
/// the source are UTF-8.
#[verifier::external_body]
pub(crate) fn node_text(node: &tree_sitter::Node, source: &[u8]) -> (text: Option<String>)
    requires
        node_syntax(*node).range.start_byte <= node_syntax(*node).range.end_byte <= source@.len(),
    ensures
        ({
            let range = node_syntax(*node).range;
            let bytes = source@.subrange(range.start_byte as int, range.end_byte as int);
            match text {
                Some(t) => valid_utf8(bytes) && t@ == decode_utf8(bytes),
                None => !valid_utf8(bytes),
            }
        }),
{
    node.utf8_text(source).ok().map(|s| s.to_owned())
}

/// `Node::to_sexp`: the node and what is below it as an S-expression.
#[verifier::external_body]
pub(crate) fn node_sexp(node: &tree_sitter::Node) -> (sexp: String)
    ensures
        sexp@ == node_syntax(*node).sexp,
{
    node.to_sexp()
}

/// `Node::walk`: a cursor that stands on the node and cannot leave it
/// upwards. What it shows there has the node's identifier, range and
/// children.
#[verifier::external_body]
pub(crate) fn walk<'a>(node: &tree_sitter::Node<'a>) -> (cursor: tree_sitter::TreeCursor<'a>)
    ensures
        same_place(cursor_root(cursor), node_syntax(*node)),
        cursor_path(cursor).len() == 0,
{
    node.walk()
}

/// `Tree::walk`: a cursor that stands on the root of the tree, and shows it
/// as it is.
#[verifier::external_body]
pub(crate) fn tree_walk<'a>(tree: &'a tree_sitter::Tree) -> (cursor: tree_sitter::TreeCursor<'a>)
    ensures
        cursor_root(cursor) == tree_syntax(*tree),
        cursor_path(cursor).len() == 0,
        cursor_on_tree(cursor),
{
    tree.walk()
}

/// `TreeCursor::node`: a handle on the node the cursor stands on: its root,
/// or the child that the last step of its path picks of the node above.
#[verifier::external_body]
pub(crate) fn cursor_node<'a>(cursor: &tree_sitter::TreeCursor<'a>) -> (node: tree_sitter::Node<'a>)
    ensures
        stands_at(node_syntax(node), cursor_root(*cursor), cursor_path(*cursor)),
{
    cursor.node()
}

/// `TreeCursor::goto_first_child`: moves to the first child of the current
/// node and says so; stays where the node has no children.
#[verifier::external_body]
pub(crate) fn goto_first_child(cursor: &mut tree_sitter::TreeCursor) -> (moved: bool)
    ensures
        cursor_root(*final(cursor)) == cursor_root(*old(cursor)),
        moved == (node_at(cursor_root(*old(cursor)), cursor_path(*old(cursor))).children.len() > 0),
        cursor_path(*final(cursor)) == if moved {
            cursor_path(*old(cursor)).push(0)
        } else {
            cursor_path(*old(cursor))
        },
        cursor_on_tree(*final(cursor)) == cursor_on_tree(*old(cursor)),
{
    cursor.goto_first_child()
}

/// `TreeCursor::goto_next_sibling`: moves to the next child of the parent
/// and says so; stays on a last child, and on the cursor's root.
#[verifier::external_body]
pub(crate) fn goto_next_sibling(cursor: &mut tree_sitter::TreeCursor) -> (moved: bool)
    ensures
        cursor_root(*final(cursor)) == cursor_root(*old(cursor)),
        ({
            let root = cursor_root(*old(cursor));
            let path = cursor_path(*old(cursor));
            &&& moved == (path.len() > 0 && path.last() + 1 < node_at(root, path.drop_last()).children.len())
            &&& cursor_path(*final(cursor)) == if moved {
                path.drop_last().push(path.last() + 1)
            } else {
                path
            }
        }),
        cursor_on_tree(*final(cursor)) == cursor_on_tree(*old(cursor)),
{
    cursor.goto_next_sibling()
}

/// `TreeCursor::goto_parent`: moves to the parent of the current node and
/// says so, or stays. It stays on the cursor's root. A cursor that was made
/// on the root of a tree moves from every other node.
#[verifier::external_body]
pub(crate) fn goto_parent(cursor: &mut tree_sitter::TreeCursor) -> (moved: bool)
    ensures
        cursor_root(*final(cursor)) == cursor_root(*old(cursor)),
        cursor_path(*old(cursor)).len() == 0 ==> !moved,
        cursor_on_tree(*old(cursor)) && cursor_path(*old(cursor)).len() > 0 ==> moved,
        cursor_path(*final(cursor)) == if moved {
            cursor_path(*old(cursor)).drop_last()
        } else {
            cursor_path(*old(cursor))
        },
        cursor_on_tree(*final(cursor)) == cursor_on_tree(*old(cursor)),
{
    cursor.goto_parent()
}

/// `Query::new`: the query compiled from the text for the grammar, or the
/// compiler's message. On a text that ends in an unknown name it does not
/// return, so the text may not end in a character of a name.
#[verifier::external_body]
pub(crate) fn compile_query(language: tree_sitter::Language, source: &str) -> (query: Result<
    tree_sitter::Query,
    String,
>)
    requires
        !ends_in_name(source@),
    ensures
        match query {
            Ok(q) => compile_outcome(language, source@) == Ok::<Seq<Seq<QuerySettingView>>, Seq<char>>(
                query_settings(q),
            ) && query_origin(q) == (QueryInput { language, source: source@ }),
            Err(message) => compile_outcome(language, source@) == Err::<
                Seq<Seq<QuerySettingView>>,
                Seq<char>,
            >(message@),
        },
{
    tree_sitter::Query::new(language, source).map_err(|e| e.message)
}

/// `Query::pattern_count`: the number of patterns in the query.
#[verifier::external_body]
pub(crate) fn pattern_count(query: &tree_sitter::Query) -> (count: usize)
    ensures
        count == query_settings(*query).len(),
{
    query.pattern_count()
}

/// `Query::property_settings`: the properties that one pattern sets.
#[verifier::external_body]
pub(crate) fn property_settings(query: &tree_sitter::Query, index: usize) -> (settings: Vec<QuerySetting>)
    requires
        index < query_settings(*query).len(),
    ensures
        settings_view(settings@) == query_settings(*query)[index as int],
{
    query.property_settings(index).iter().map(|p| QuerySetting {
        key: p.key.to_string(),
        value: p.value.as_ref().map(|v| v.to_string()),
    }).collect()
}

/// `QueryCursor::new`: a cursor to run queries with, as it is made.
#[verifier::external_body]
pub(crate) fn new_query_cursor() -> (cursor: tree_sitter::QueryCursor)
    ensures
        query_cursor_fresh(cursor),
{
    tree_sitter::QueryCursor::new()
}

/// `QueryCursor::matches`, with a cursor that is as it was made, on
/// the root of a tree (`Tree::root_node`), reading the text of a node
/// through `span_bytes`: the matches in the order in which the query engine
/// finds them, each with the ranges of the nodes it captured. Where the
/// query was compiled for the grammar of the tree and `source` is the text
/// the tree was parsed from, they are the matches of the one on the other.
#[verifier::external_body]
pub(crate) fn query_matches(
    cursor: &mut tree_sitter::QueryCursor,
    query: &tree_sitter::Query,
    tree: &tree_sitter::Tree,
    source: &[u8],
) -> (hits: Vec<QueryHit>)
    requires
        query_cursor_fresh(*old(cursor)),
    ensures
        query_origin(*query).language == tree_origin(*tree).language && source@ == tree_origin(
            *tree,
        ).text ==> hits_view(hits@) == match_outcome(
            tree_origin(*tree).language,
            query_origin(*query).source,
            tree_origin(*tree).ranges,
            source@,
        ),
{
    let text = |n: tree_sitter::Node| std::iter::once(span_bytes(source, n.start_byte(), n.end_byte()));
    cursor.matches(query, tree.root_node(), text).map(|m| QueryHit {
        pattern_index: m.pattern_index,
        ranges: m.captures.iter().map(|c| node_range(&c.node)).collect(),
    }).collect()
}

} // verus!
