use vstd::prelude::*;
use vstd::utf8::encode_utf8;
use crate::injection::{
    check_ranges_fit, compiled_text, injection_targets, language_ranges, query_patterns,
    query_text, ranges_for, resolve_targets, unknown_injection_language,
};
use crate::laws::{law_ids_are_kept, lemma_materialize_erased};
use crate::model::{
    GrammarId, GrammarMap, ParseError, ParseErrorView, QueryHit, QueryHitView, TSNode, TSRange,
    hits_view,
};
use crate::native::{
    SyntaxNode, compile_outcome, compile_query, erase_ids, ids_distinct, match_outcome,
    new_parser,
    new_query_cursor, parse, parser_ranges, parser_ready, query_matches, root_node,
    set_included_ranges,
    set_language, tree_syntax,
};
use crate::parser::{Grammars, get_language, parse_result};
use crate::tree::{ids_differ, materialize, without_ids};

verus! {

/// The trees after the injected grammars in `order` have been parsed, one
/// after the other, into `trees`: a grammar with ranges to parse gets the
/// tree of the text within those ranges, in place of any tree it had; a
/// grammar without ranges gets none. The first parse that fails ends it.
pub open spec fn inject_all(
    grammars: Grammars,
    text: Seq<u8>,
    targets: Seq<Option<GrammarId>>,
    hits: Seq<QueryHitView>,
    trees: Map<GrammarId, SyntaxNode>,
    order: Seq<GrammarId>,
) -> Result<Map<GrammarId, SyntaxNode>, ParseErrorView>
    decreases order.len(),
{
    if order.len() == 0 {
        Ok(trees)
    } else {
        match inject_all(grammars, text, targets, hits, trees, order.drop_last()) {
            Err(error) => Err(error),
            Ok(parsed) => {
                let ranges = language_ranges(targets, hits, order.last());
                if ranges.len() == 0 {
                    Ok(parsed)
                } else {
                    match parse_result(grammars, order.last(), ranges, text) {
                        Err(error) => Err(error),
                        Ok(tree) => Ok(parsed.insert(order.last(), tree)),
                    }
                }
            },
        }
    }
}

/// The matches of a query on the tree of a text under the base grammar;
/// none where that grammar cannot be used.
pub open spec fn base_matches(grammars: Grammars, base: GrammarId, text: Seq<u8>, query: Seq<char>) -> Seq<
    QueryHitView,
> {
    match grammars.usable(base) {
        Some(grammar) => match_outcome(grammar, compiled_text(query), Seq::empty(), text),
        None => Seq::empty(),
    }
}

/// What parsing a text with its embedded languages comes to: the tree of the
/// whole text under the base grammar, and for each grammar that the query's
/// patterns inject and that has ranges to parse, the tree of the text within
/// those ranges. It is the base parse's error where that fails, a
/// `QueryError` with the compiler's message where the query does not
/// compile, a `QueryError` where a pattern names no known grammar, and the
/// error of the first parse within ranges that fails.
pub open spec fn embedded_result(grammars: Grammars, base: GrammarId, text: Seq<u8>, query: Seq<char>) -> Result<
    Map<GrammarId, SyntaxNode>,
    ParseErrorView,
> {
    match parse_result(grammars, base, Seq::empty(), text) {
        Err(error) => Err(error),
        Ok(tree) => match compile_outcome(grammars.usable(base)->0, compiled_text(query)) {
            Err(message) => Err(ParseErrorView::QueryError { message }),
            Ok(patterns) => match injection_targets(patterns) {
                None => Err(unknown_injection_language()),
                Some(targets) => inject_all(
                    grammars,
                    text,
                    targets,
                    base_matches(grammars, base, text, query),
                    Map::empty().insert(base, tree),
                    GrammarId::all(),
                ),
            },
        },
    }
}

/// Whether parsed trees are the expected ones, grammar by grammar, up to
/// their identifiers.
pub open spec fn trees_agree(found: GrammarMap<tree_sitter::Tree>, expected: Map<GrammarId, SyntaxNode>) -> bool {
    forall|language: GrammarId|
        match #[trigger] found.lookup(language) {
            Some(tree) => expected.contains_key(language) && erase_ids(tree_syntax(tree))
                == expected[language],
            None => !expected.contains_key(language),
        }
}

/// Whether portable trees are the portable forms of the expected trees over
/// a text, grammar by grammar, up to their identifiers.
pub open spec fn nodes_agree(found: GrammarMap<TSNode>, expected: Map<GrammarId, SyntaxNode>, text: Seq<u8>) -> bool {
    forall|language: GrammarId|
        match #[trigger] found.lookup(language) {
            Some(node) => expected.contains_key(language) && without_ids(node@) == materialize(
                expected[language],
                text,
            ),
            None => !expected.contains_key(language),
        }
}

/// Whether in each tree of a map no two nodes have the same identifier.
pub open spec fn trees_ids_differ(trees: GrammarMap<tree_sitter::Tree>) -> bool {
    forall|language: GrammarId|
        #[trigger] trees.lookup(language) matches Some(tree) ==> ids_distinct(tree_syntax(tree))
}

/// Whether in each portable tree of a map no two nodes have the same
/// identifier.
pub open spec fn nodes_ids_differ(nodes: GrammarMap<TSNode>) -> bool {
    forall|language: GrammarId|
        #[trigger] nodes.lookup(language) matches Some(node) ==> ids_differ(node@)
}

/// Whether trees, or an error, are what parsing a text with its embedded
/// languages comes to.
pub open spec fn embedded_trees_from(
    found: Result<GrammarMap<tree_sitter::Tree>, ParseError>,
    grammars: Grammars,
    base: GrammarId,
    text: Seq<u8>,
    query: Seq<char>,
) -> bool {
    match embedded_result(grammars, base, text, query) {
        Ok(expected) => found matches Ok(trees) && trees_agree(trees, expected),
        Err(error) => found matches Err(e) && e@ == error,
    }
}

/// Whether portable trees, or an error, are what parsing a text with its
/// embedded languages comes to.
pub open spec fn embedded_nodes_from(
    found: Result<GrammarMap<TSNode>, ParseError>,
    grammars: Grammars,
    base: GrammarId,
    text: Seq<u8>,
    query: Seq<char>,
) -> bool {
    match embedded_result(grammars, base, text, query) {
        Ok(expected) => found matches Ok(nodes) && nodes_agree(nodes, expected, text),
        Err(error) => found matches Err(e) && e@ == error,
    }
}

/// Sets a parser to a grammar and to ranges, and parses the text within
/// them. No ranges stand for the whole text. The parser has to be free to
/// parse to the end, as one from `get_parser` is, and is so afterwards.
pub fn parse_within(
    parser: &mut tree_sitter::Parser,
    language: GrammarId,
    ranges: &Vec<TSRange>,
    source: &[u8],
    grammars: &Grammars,
) -> (tree: Result<tree_sitter::Tree, ParseError>)
    requires
        parser_ready(*old(parser)),
    ensures
        match parse_result(*grammars, language, ranges@, source@) {
            Ok(expected) => tree matches Ok(t) && erase_ids(tree_syntax(t)) == expected
                && ids_distinct(tree_syntax(t)),
            Err(error) => tree matches Err(e) && e@ == error,
        },
        parser_ready(*final(parser)),
{
    let grammar = match get_language(&language, grammars) {
        Some(grammar) => grammar,
        None => {
            return Err(ParseError::LanguageError);
        },
    };
    if !set_language(parser, grammar) {
        return Err(ParseError::LanguageError);
    }
    if !check_ranges_fit(ranges) {
        return Err(ParseError::ParseError);
    }
    if !set_included_ranges(parser, ranges) {
        return Err(ParseError::ParseError);
    }
    match parse(parser, source) {
        Some(tree) => Ok(tree),
        None => Err(ParseError::ParseError),
    }
}

/// The trees of a map as what the parser's contracts speak of: each tree
/// with its identifiers erased.
pub open spec fn tree_views(trees: GrammarMap<tree_sitter::Tree>) -> Map<GrammarId, SyntaxNode> {
    Map::new(
        |language: GrammarId| trees.lookup(language) is Some,
        |language: GrammarId| erase_ids(tree_syntax(trees.lookup(language)->0)),
    )
}

/// A failure among the first grammars of an order is the failure of the
/// whole order.
proof fn lemma_inject_all_fails(
    grammars: Grammars,
    text: Seq<u8>,
    targets: Seq<Option<GrammarId>>,
    hits: Seq<QueryHitView>,
    trees: Map<GrammarId, SyntaxNode>,
    order: Seq<GrammarId>,
    upto: int,
)
    requires
        0 <= upto <= order.len(),
        inject_all(grammars, text, targets, hits, trees, order.subrange(0, upto)) is Err,
    ensures
        inject_all(grammars, text, targets, hits, trees, order) == inject_all(
            grammars,
            text,
            targets,
            hits,
            trees,
            order.subrange(0, upto),
        ),
    decreases order.len() - upto,
{
    if upto < order.len() {
        assert(order.subrange(0, upto + 1).drop_last() =~= order.subrange(0, upto));
        lemma_inject_all_fails(grammars, text, targets, hits, trees, order, upto + 1);
    } else {
        assert(order.subrange(0, upto) =~= order);
    }
}

/// Parses the text once more for each grammar that the patterns inject and
/// that has ranges to parse, within those ranges, and puts each tree into
/// `trees` under its grammar. The grammars are taken in the order in which
/// they are declared; the first parse that fails ends it. The parser has to
/// be free to parse to the end, as one from `get_parser` is, and is so
/// afterwards. Where within each tree handed in the identifiers differ from
/// node to node, they do so within each tree handed back.
pub fn inject_trees(
    parser: &mut tree_sitter::Parser,
    trees: GrammarMap<tree_sitter::Tree>,
    targets: &Vec<Option<GrammarId>>,
    hits: &Vec<QueryHit>,
    source: &[u8],
    grammars: &Grammars,
) -> (injected: Result<GrammarMap<tree_sitter::Tree>, ParseError>)
    requires
        parser_ready(*old(parser)),
    ensures
        parser_ready(*final(parser)),
        trees_ids_differ(trees) ==> (injected matches Ok(found) ==> trees_ids_differ(found)),
        match inject_all(
            *grammars,
            source@,
            targets@,
            hits_view(hits@),
            tree_views(trees),
            GrammarId::all(),
        ) {
            Ok(expected) => injected matches Ok(found) && trees_agree(found, expected),
            Err(error) => injected matches Err(e) && e@ == error,
        },
{
    let ghost start = tree_views(trees);
    let ghost all = hits_view(hits@);
    let order = GrammarId::list();
    let mut out = trees;
    let mut index: usize = 0;
    proof {
        assert(order@.subrange(0, 0) =~= Seq::<GrammarId>::empty());
    }
    while index < order.len()
        invariant
            index <= order@.len(),
            order@ == GrammarId::all(),
            all == hits_view(hits@),
            start == tree_views(trees),
            parser_ready(*parser),
            trees_ids_differ(trees) ==> trees_ids_differ(out),
            inject_all(*grammars, source@, targets@, all, start, order@.subrange(0, index as int))
                matches Ok(expected) && trees_agree(out, expected),
        decreases order@.len() - index,
    {
        let language = order[index];
        let ghost before = inject_all(
            *grammars,
            source@,
            targets@,
            all,
            start,
            order@.subrange(0, index as int),
        )->Ok_0;
        proof {
            assert(order@.subrange(0, index + 1).drop_last() =~= order@.subrange(0, index as int));
        }
        let ranges = ranges_for(targets, hits, language);
        if ranges.len() > 0 {
            match parse_within(parser, language, &ranges, source, grammars) {
                Err(error) => {
                    proof {
                        let next = order@.subrange(0, index + 1);
                        assert(next.last() == language);
                        assert(inject_all(*grammars, source@, targets@, all, start, next) == Err::<
                            Map<GrammarId, SyntaxNode>,
                            ParseErrorView,
                        >(error@));
                        lemma_inject_all_fails(
                            *grammars,
                            source@,
                            targets@,
                            all,
                            start,
                            order@,
                            index + 1,
                        );
                    }
                    return Err(error);
                },
                Ok(tree) => {
                    let ghost parsed = out;
                    out.insert(language, tree);
                    proof {
                        parsed.lemma_with(language, tree);
                        assert(trees_agree(out, before.insert(language, erase_ids(tree_syntax(tree)))));
                    }
                },
            }
        }
        index = index + 1;
    }
    proof {
        assert(order@.subrange(0, index as int) =~= order@);
    }
    Ok(out)
}

/// Parses a text under a base grammar, finds with a query the parts that
/// belong to other grammars, and parses those parts under their grammars.
/// Gives the tree of each grammar. The identifiers of a tree's nodes are
/// the parser's: within a tree they differ from node to node.
pub fn do_parse_embedded(corpus: &str, language: &GrammarId, query: &str, grammars: &Grammars) -> (trees: Result<
    GrammarMap<tree_sitter::Tree>,
    ParseError,
>)
    ensures
        embedded_trees_from(trees, *grammars, *language, encode_utf8(corpus@), query@),
        trees matches Ok(found) ==> trees_ids_differ(found),
{
    let source = corpus.as_bytes();
    let grammar = match get_language(language, grammars) {
        Some(grammar) => grammar,
        None => {
            return Err(ParseError::LanguageError);
        },
    };
    let mut parser = new_parser();
    if !set_language(&mut parser, grammar) {
        return Err(ParseError::LanguageError);
    }
    proof {
        assert(parser_ranges(parser) =~= Seq::<TSRange>::empty());
    }
    let tree = match parse(&mut parser, source) {
        Some(tree) => tree,
        None => {
            return Err(ParseError::ParseError);
        },
    };
    let text = query_text(query);
    let compiled = match compile_query(grammar, text.as_str()) {
        Ok(compiled) => compiled,
        Err(message) => {
            return Err(ParseError::QueryError { message });
        },
    };
    let patterns = query_patterns(&compiled);
    let targets = match resolve_targets(&patterns) {
        Ok(targets) => targets,
        Err(error) => {
            return Err(error);
        },
    };
    let mut cursor = new_query_cursor();
    let hits = query_matches(&mut cursor, &compiled, &tree, source);
    let ghost base = erase_ids(tree_syntax(tree));
    let mut out: GrammarMap<tree_sitter::Tree> = GrammarMap::new();
    let ghost blank = out;
    out.insert(*language, tree);
    proof {
        blank.lemma_with(*language, tree);
        assert(tree_views(out) =~= Map::<GrammarId, SyntaxNode>::empty().insert(*language, base));
    }
    inject_trees(&mut parser, out, &targets, &hits, source, grammars)
}

/// The portable form of a tree, where there is one.
fn materialize_tree(tree: &Option<tree_sitter::Tree>, source: &[u8]) -> (node: Option<TSNode>)
    ensures
        match *tree {
            Some(t) => node matches Some(n) && n@ == materialize(tree_syntax(t), source@),
            None => node is None,
        },
{
    match tree {
        Some(t) => Some(TSNode::from(root_node(t), source)),
        None => None,
    }
}

/// Whether portable trees are the portable forms of trees over a text,
/// grammar by grammar, identifier for identifier.
pub open spec fn materialized(nodes: GrammarMap<TSNode>, trees: GrammarMap<tree_sitter::Tree>, text: Seq<u8>) -> bool {
    forall|language: GrammarId|
        match #[trigger] trees.lookup(language) {
            Some(tree) => nodes.lookup(language) matches Some(node) && node@ == materialize(
                tree_syntax(tree),
                text,
            ),
            None => nodes.lookup(language) is None,
        }
}

/// Gives each tree of a map in portable form, over the text that the trees
/// were parsed from.
pub fn materialize_trees(trees: &GrammarMap<tree_sitter::Tree>, source: &[u8]) -> (nodes: GrammarMap<TSNode>)
    ensures
        materialized(nodes, *trees, source@),
{
    GrammarMap {
        javascript: materialize_tree(&trees.javascript, source),
        html: materialize_tree(&trees.html, source),
        css: materialize_tree(&trees.css, source),
        liquid: materialize_tree(&trees.liquid, source),
        liquid_template: materialize_tree(&trees.liquid_template, source),
    }
}

/// Parses a text with its embedded languages, as `do_parse_embedded` does,
/// and gives the tree of each grammar in portable form. The identifiers of
/// a tree's nodes are the parser's: within a tree they differ from node to
/// node.
pub fn parse_embedded(corpus: &str, language: GrammarId, query: &str, grammars: &Grammars) -> (nodes: Result<
    GrammarMap<TSNode>,
    ParseError,
>)
    ensures
        embedded_nodes_from(nodes, *grammars, language, encode_utf8(corpus@), query@),
        nodes matches Ok(found) ==> nodes_ids_differ(found),
{
    let source = corpus.as_bytes();
    match do_parse_embedded(corpus, &language, query, grammars) {
        Err(error) => Err(error),
        Ok(trees) => {
            let nodes = materialize_trees(&trees, source);
            proof {
                let expected = embedded_result(*grammars, language, source@, query@)->Ok_0;
                assert forall|id: GrammarId|
                    match #[trigger] nodes.lookup(id) {
                        Some(node) => expected.contains_key(id) && without_ids(node@)
                            == materialize(expected[id], source@),
                        None => !expected.contains_key(id),
                    } by {
                    if let Some(tree) = trees.lookup(id) {
                        lemma_materialize_erased(tree_syntax(tree), source@);
                    }
                }
                assert forall|id: GrammarId| #[trigger]
                    nodes.lookup(id) is Some implies ids_differ(nodes.lookup(id)->0@) by {
                    if let Some(tree) = trees.lookup(id) {
                        law_ids_are_kept(tree_syntax(tree), source@);
                    }
                }
            }
            Ok(nodes)
        },
    }
}

} // verus!
