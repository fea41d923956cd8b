use vstd::prelude::*;
use vstd::utf8::encode_utf8;
use crate::embedded::{base_matches, embedded_result, embedded_trees_from, inject_all};
use crate::injection::{compiled_text, injection_targets, language_ranges, pattern_ranges};
use crate::model::{GrammarId, GrammarMap, ParseError, QueryHitView, TSNodeView, TokenView};
use crate::native::{
    SyntaxNode, compile_outcome, erase_ids, erase_ids_all, syntax_ids, syntax_ids_all,
};
use crate::parser::{Grammars, parse_result};
use crate::tree::{
    leaf_tokens, leaf_tokens_all, lemma_materialize_all_len, materialize, materialize_all,
    portable_ids, portable_ids_all, portable_spans_children, syntax_spans_children, text_sits_on_leaves, tokens_of,
    tokens_of_all, without_ids, without_ids_all,
};

verus! {

/// The tokens of a tree are the leaves of its portable form, one for one and
/// in the same order: kind, text and classification all agree.
pub proof fn law_tokens_are_leaves(node: SyntaxNode, source: Seq<u8>)
    ensures
        leaf_tokens(materialize(node, source)) == tokens_of(node, source),
    decreases node,
{
    lemma_materialize_all_len(node.children, source);
    if node.children.len() > 0 {
        law_tokens_are_leaves_all(node.children, source);
    }
}

/// `law_tokens_are_leaves` for a sequence of trees.
pub proof fn law_tokens_are_leaves_all(nodes: Seq<SyntaxNode>, source: Seq<u8>)
    ensures
        leaf_tokens_all(materialize_all(nodes, source)) == tokens_of_all(nodes, source),
    decreases nodes,
{
    if nodes.len() > 0 {
        let portable = materialize_all(nodes, source);
        assert(portable.drop_last() =~= materialize_all(nodes.drop_last(), source));
        law_tokens_are_leaves_all(nodes.drop_last(), source);
        law_tokens_are_leaves(nodes.last(), source);
    }
}

/// In the portable form of a tree only nodes without children carry text,
/// and the text is that of the source that the node's range covers.
pub proof fn law_text_sits_on_leaves(node: SyntaxNode, source: Seq<u8>)
    ensures
        text_sits_on_leaves(materialize(node, source), source),
    decreases node,
{
    let portable = materialize(node, source);
    lemma_materialize_all_len(node.children, source);
    assert forall|i: int| 0 <= i < portable.children.len() implies text_sits_on_leaves(
        #[trigger] portable.children[i],
        source,
    ) by {
        lemma_materialize_all_index(node.children, source, i);
        law_text_sits_on_leaves(node.children[i], source);
    }
}

/// Where each node of a parsed tree that has children spans them, so does
/// each node of its portable form. Whether the parser's trees are so is the
/// parser's.
pub proof fn law_spans_are_kept(node: SyntaxNode, source: Seq<u8>)
    requires
        syntax_spans_children(node),
    ensures
        portable_spans_children(materialize(node, source)),
    decreases node,
{
    let portable = materialize(node, source);
    lemma_materialize_all_len(node.children, source);
    assert forall|i: int| 0 <= i < portable.children.len() implies portable.children[i].range
        == node.children[i].range && portable_spans_children(#[trigger] portable.children[i]) by {
        lemma_materialize_all_index(node.children, source, i);
        law_spans_are_kept(node.children[i], source);
    }
    assert(portable.children.map_values(|child: TSNodeView| child.range) =~= node.children.map_values(
        |child: SyntaxNode| child.range,
    ));
}

/// `materialize_all` gives at each place the portable form of the node at
/// that place.
pub proof fn lemma_materialize_all_index(nodes: Seq<SyntaxNode>, source: Seq<u8>, i: int)
    requires
        0 <= i < nodes.len(),
    ensures
        materialize_all(nodes, source).len() == nodes.len(),
        materialize_all(nodes, source)[i] == materialize(nodes[i], source),
    decreases nodes.len(),
{
    lemma_materialize_all_len(nodes, source);
    lemma_materialize_all_len(nodes.drop_last(), source);
    if i < nodes.len() - 1 {
        lemma_materialize_all_index(nodes.drop_last(), source, i);
    }
}

/// The portable form of a tree has the identifiers of the tree, node for
/// node.
pub proof fn law_ids_are_kept(node: SyntaxNode, source: Seq<u8>)
    ensures
        portable_ids(materialize(node, source)) == syntax_ids(node),
    decreases node,
{
    law_ids_are_kept_all(node.children, source);
}

/// `law_ids_are_kept` for a sequence of trees.
pub proof fn law_ids_are_kept_all(nodes: Seq<SyntaxNode>, source: Seq<u8>)
    ensures
        portable_ids_all(materialize_all(nodes, source)) == syntax_ids_all(nodes),
    decreases nodes,
{
    if nodes.len() > 0 {
        assert(materialize_all(nodes, source).drop_last() =~= materialize_all(
            nodes.drop_last(),
            source,
        ));
        law_ids_are_kept_all(nodes.drop_last(), source);
        law_ids_are_kept(nodes.last(), source);
    }
}

/// Identifiers play no part in the tokens of a portable tree.
pub proof fn law_leaves_ignore_ids(node: TSNodeView)
    ensures
        leaf_tokens(without_ids(node)) == leaf_tokens(node),
    decreases node,
{
    lemma_without_ids_all_len(node.children);
    if node.children.len() > 0 {
        law_leaves_ignore_ids_all(node.children);
    }
}

/// `law_leaves_ignore_ids` for a sequence of trees.
pub proof fn law_leaves_ignore_ids_all(nodes: Seq<TSNodeView>)
    ensures
        leaf_tokens_all(without_ids_all(nodes)) == leaf_tokens_all(nodes),
    decreases nodes,
{
    if nodes.len() > 0 {
        assert(without_ids_all(nodes).drop_last() =~= without_ids_all(nodes.drop_last()));
        law_leaves_ignore_ids_all(nodes.drop_last());
        law_leaves_ignore_ids(nodes.last());
    }
}

/// `without_ids_all` keeps the number of trees.
pub proof fn lemma_without_ids_all_len(nodes: Seq<TSNodeView>)
    ensures
        without_ids_all(nodes).len() == nodes.len(),
    decreases nodes.len(),
{
    if nodes.len() > 0 {
        lemma_without_ids_all_len(nodes.drop_last());
    }
}

/// `erase_ids_all` keeps the number of trees.
pub proof fn lemma_erase_ids_all_len(nodes: Seq<SyntaxNode>)
    ensures
        erase_ids_all(nodes).len() == nodes.len(),
    decreases nodes.len(),
{
    if nodes.len() > 0 {
        lemma_erase_ids_all_len(nodes.drop_last());
    }
}

/// Erasing the identifiers of a tree and then taking its portable form gives
/// the portable form of the tree without its identifiers.
pub proof fn lemma_materialize_erased(node: SyntaxNode, source: Seq<u8>)
    ensures
        materialize(erase_ids(node), source) == without_ids(materialize(node, source)),
    decreases node,
{
    lemma_erase_ids_all_len(node.children);
    lemma_materialize_erased_all(node.children, source);
}

/// `lemma_materialize_erased` for a sequence of trees.
pub proof fn lemma_materialize_erased_all(nodes: Seq<SyntaxNode>, source: Seq<u8>)
    ensures
        materialize_all(erase_ids_all(nodes), source) == without_ids_all(materialize_all(nodes, source)),
    decreases nodes,
{
    if nodes.len() > 0 {
        assert(erase_ids_all(nodes).drop_last() =~= erase_ids_all(nodes.drop_last()));
        assert(materialize_all(nodes, source).drop_last() =~= materialize_all(
            nodes.drop_last(),
            source,
        ));
        lemma_materialize_erased_all(nodes.drop_last(), source);
        lemma_materialize_erased(nodes.last(), source);
    }
}

/// Identifiers play no part in the tokens of a tree.
pub proof fn lemma_tokens_erased(node: SyntaxNode, source: Seq<u8>)
    ensures
        tokens_of(erase_ids(node), source) == tokens_of(node, source),
    decreases node,
{
    lemma_erase_ids_all_len(node.children);
    if node.children.len() > 0 {
        lemma_tokens_erased_all(node.children, source);
    }
}

/// `lemma_tokens_erased` for a sequence of trees.
pub proof fn lemma_tokens_erased_all(nodes: Seq<SyntaxNode>, source: Seq<u8>)
    ensures
        tokens_of_all(erase_ids_all(nodes), source) == tokens_of_all(nodes, source),
    decreases nodes,
{
    if nodes.len() > 0 {
        assert(erase_ids_all(nodes).drop_last() =~= erase_ids_all(nodes.drop_last()));
        lemma_tokens_erased_all(nodes.drop_last(), source);
        lemma_tokens_erased(nodes.last(), source);
    }
}

/// With a grammar that can be used, parsing a whole text gives a tree,
/// whatever the text: what is wrong in the text shows in the tree.
pub proof fn law_parse_gives_a_tree(grammars: Grammars, language: GrammarId, text: Seq<u8>)
    requires
        grammars.usable(language) is Some,
    ensures
        parse_result(grammars, language, Seq::empty(), text) is Ok,
{
}

/// Tokenizing a text gives, token for token, the leaves of the portable
/// tree that parsing the same text under the same grammar gives.
pub proof fn law_tokens_match_parsed_leaves(
    grammars: Grammars,
    language: GrammarId,
    corpus: Seq<char>,
    node: TSNodeView,
    tokens: Seq<TokenView>,
)
    requires
        parse_result(grammars, language, Seq::empty(), encode_utf8(corpus)) matches Ok(tree)
            && without_ids(node) == materialize(tree, encode_utf8(corpus)) && tokens == tokens_of(
            tree,
            encode_utf8(corpus),
        ),
    ensures
        tokens == leaf_tokens(node),
{
    let tree = parse_result(grammars, language, Seq::empty(), encode_utf8(corpus))->Ok_0;
    law_tokens_are_leaves(tree, encode_utf8(corpus));
    law_leaves_ignore_ids(node);
}

/// The grammars that the patterns of a query inject, pattern by pattern,
/// where the base grammar is usable, the query compiles for it and every
/// pattern names a known grammar.
pub open spec fn query_targets(grammars: Grammars, base: GrammarId, query: Seq<char>) -> Option<Seq<Option<GrammarId>>> {
    match grammars.usable(base) {
        None => None,
        Some(grammar) => match compile_outcome(grammar, compiled_text(query)) {
            Err(_) => None,
            Ok(patterns) => injection_targets(patterns),
        },
    }
}

/// Whether a match falls on a pattern that injects a grammar.
pub open spec fn hit_injects(targets: Seq<Option<GrammarId>>, hit: QueryHitView) -> bool {
    hit.pattern_index < targets.len() && targets[hit.pattern_index as int] is Some
}

/// A pattern on which no match falls has no ranges.
proof fn lemma_pattern_without_hits(hits: Seq<QueryHitView>, pattern: int)
    requires
        forall|i: int| 0 <= i < hits.len() ==> (#[trigger] hits[i]).pattern_index != pattern,
    ensures
        pattern_ranges(hits, pattern).len() == 0,
    decreases hits.len(),
{
    if hits.len() > 0 {
        assert(hits.last() == hits[hits.len() - 1]);
        lemma_pattern_without_hits(hits.drop_last(), pattern);
    }
}

/// Where no match falls on a pattern that injects a grammar, no grammar has
/// ranges to parse.
proof fn lemma_no_injecting_hit(
    targets: Seq<Option<GrammarId>>,
    upto: int,
    hits: Seq<QueryHitView>,
    language: GrammarId,
)
    requires
        0 <= upto <= targets.len(),
        forall|i: int| 0 <= i < hits.len() ==> !hit_injects(targets, #[trigger] hits[i]),
    ensures
        language_ranges(targets.subrange(0, upto), hits, language).len() == 0,
    decreases upto,
{
    let first = targets.subrange(0, upto);
    if upto > 0 {
        assert(first.drop_last() =~= targets.subrange(0, upto - 1));
        lemma_no_injecting_hit(targets, upto - 1, hits, language);
        if first.last() == Some(language) {
            assert forall|i: int| 0 <= i < hits.len() implies (#[trigger] hits[i]).pattern_index
                != upto - 1 by {
                assert(!hit_injects(targets, hits[i]));
            }
            lemma_pattern_without_hits(hits, upto - 1);
        }
    }
}

/// After the injected grammars of an order have been parsed, a grammar has a
/// tree exactly if it had one before or is in the order and has ranges to
/// parse; a grammar that is not in the order or has no ranges keeps what
/// it had.
pub proof fn lemma_inject_all_keys(
    grammars: Grammars,
    text: Seq<u8>,
    targets: Seq<Option<GrammarId>>,
    hits: Seq<QueryHitView>,
    trees: Map<GrammarId, SyntaxNode>,
    order: Seq<GrammarId>,
)
    ensures
        inject_all(grammars, text, targets, hits, trees, order) matches Ok(parsed) ==> forall|
            language: GrammarId,
        |
            {
                &&& #[trigger] parsed.contains_key(language) <==> trees.contains_key(language) || (
                order.contains(language) && language_ranges(targets, hits, language).len() > 0)
                &&& !(order.contains(language) && language_ranges(targets, hits, language).len()
                    > 0) && trees.contains_key(language) ==> parsed[language] == trees[language]
            },
    decreases order.len(),
{
    if order.len() > 0 {
        lemma_inject_all_keys(grammars, text, targets, hits, trees, order.drop_last());
        if let Ok(parsed) = inject_all(grammars, text, targets, hits, trees, order) {
            let before = inject_all(grammars, text, targets, hits, trees, order.drop_last())->Ok_0;
            assert forall|language: GrammarId|
                {
                    &&& #[trigger] parsed.contains_key(language) <==> trees.contains_key(language)
                        || (order.contains(language) && language_ranges(
                        targets,
                        hits,
                        language,
                    ).len() > 0)
                    &&& !(order.contains(language) && language_ranges(
                        targets,
                        hits,
                        language,
                    ).len() > 0) && trees.contains_key(language) ==> parsed[language]
                        == trees[language]
                } by {
                assert(before.contains_key(language) <==> trees.contains_key(language) || (
                order.drop_last().contains(language) && language_ranges(
                    targets,
                    hits,
                    language,
                ).len() > 0));
                assert(order.last() == order[order.len() - 1]);
                if order.contains(language) {
                    let at = choose|i: int| 0 <= i < order.len() && order[i] == language;
                    if at < order.len() - 1 {
                        assert(order.drop_last()[at] == language);
                    }
                }
                if order.drop_last().contains(language) {
                    let at = choose|i: int|
                        0 <= i < order.drop_last().len() && order.drop_last()[i] == language;
                    assert(order[at] == language);
                }
            }
        }
    }
}

/// The result of parsing a text with its embedded languages holds a tree for
/// the base grammar and for each grammar that has ranges to parse, and for
/// no other. Unless the base grammar has ranges of its own to parse, its
/// tree is that of the whole text.
pub proof fn law_embedded_grammars(grammars: Grammars, base: GrammarId, text: Seq<u8>, query: Seq<char>)
    ensures
        embedded_result(grammars, base, text, query) matches Ok(trees) ==> {
            let hits = base_matches(grammars, base, text, query);
            &&& query_targets(grammars, base, query) matches Some(targets)
            &&& forall|language: GrammarId| #[trigger]
                trees.contains_key(language) <==> language == base || language_ranges(
                    targets,
                    hits,
                    language,
                ).len() > 0
            &&& language_ranges(targets, hits, base).len() == 0 ==> parse_result(
                grammars,
                base,
                Seq::empty(),
                text,
            ) == Ok::<SyntaxNode, crate::model::ParseErrorView>(trees[base])
        },
{
    if let Ok(trees) = embedded_result(grammars, base, text, query) {
        let hits = base_matches(grammars, base, text, query);
        let tree = parse_result(grammars, base, Seq::empty(), text)->Ok_0;
        let targets = query_targets(grammars, base, query)->0;
        let start = Map::<GrammarId, SyntaxNode>::empty().insert(base, tree);
        lemma_inject_all_keys(grammars, text, targets, hits, start, GrammarId::all());
        assert forall|language: GrammarId| #[trigger]
            trees.contains_key(language) <==> language == base || language_ranges(
                targets,
                hits,
                language,
            ).len() > 0 by {
            lemma_all_grammars(language);
        }
        assert(trees.contains_key(base));
    }
}

/// Every identifier is among `GrammarId::all()`.
pub proof fn lemma_all_grammars(language: GrammarId)
    ensures
        GrammarId::all().contains(language),
{
    let all = GrammarId::all();
    match language {
        GrammarId::Javascript => assert(all[0] == language),
        GrammarId::Html => assert(all[1] == language),
        GrammarId::Css => assert(all[2] == language),
        GrammarId::Liquid => assert(all[3] == language),
        GrammarId::LiquidTemplate => assert(all[4] == language),
    }
}

/// Where no match falls on a pattern that injects a grammar, parsing a text
/// with its embedded languages gives exactly one tree: that of the whole
/// text under the base grammar.
pub proof fn law_no_injection_base_only(
    found: Result<GrammarMap<tree_sitter::Tree>, ParseError>,
    grammars: Grammars,
    base: GrammarId,
    text: Seq<u8>,
    query: Seq<char>,
)
    requires
        embedded_trees_from(found, grammars, base, text, query),
        query_targets(grammars, base, query) matches Some(targets) ==> forall|i: int|
            0 <= i < base_matches(grammars, base, text, query).len() ==> !hit_injects(
                targets,
                #[trigger] base_matches(grammars, base, text, query)[i],
            ),
    ensures
        found matches Ok(trees) ==> {
            &&& trees.count() == 1
            &&& trees.lookup(base) matches Some(tree)
            &&& parse_result(grammars, base, Seq::empty(), text) == Ok::<
                SyntaxNode,
                crate::model::ParseErrorView,
            >(erase_ids(crate::native::tree_syntax(tree)))
        },
{
    if let Ok(trees) = found {
        let hits = base_matches(grammars, base, text, query);
        let expected = embedded_result(grammars, base, text, query)->Ok_0;
        let targets = query_targets(grammars, base, query)->0;
        law_embedded_grammars(grammars, base, text, query);
        assert forall|language: GrammarId|
            language_ranges(targets, hits, language).len() == 0 by {
            lemma_no_injecting_hit(targets, targets.len() as int, hits, language);
            assert(targets.subrange(0, targets.len() as int) =~= targets);
        }
        assert(trees.lookup(GrammarId::Javascript) is Some <==> expected.contains_key(
            GrammarId::Javascript,
        ));
        assert(trees.lookup(GrammarId::Html) is Some <==> expected.contains_key(GrammarId::Html));
        assert(trees.lookup(GrammarId::Css) is Some <==> expected.contains_key(GrammarId::Css));
        assert(trees.lookup(GrammarId::Liquid) is Some <==> expected.contains_key(
            GrammarId::Liquid,
        ));
        assert(trees.lookup(GrammarId::LiquidTemplate) is Some <==> expected.contains_key(
            GrammarId::LiquidTemplate,
        ));
        assert(trees.lookup(base) is Some);
    }
}

/// A query in which some pattern names an unknown grammar fails the whole
/// call, whatever it matches: with the error of the base parse where that
/// fails, else with a `QueryError`.
pub proof fn law_unknown_injection_fails(grammars: Grammars, base: GrammarId, text: Seq<u8>, query: Seq<char>)
    requires
        grammars.usable(base) matches Some(grammar) && compile_outcome(
            grammar,
            compiled_text(query),
        ) matches Ok(patterns) && injection_targets(patterns) is None,
    ensures
        embedded_result(grammars, base, text, query) is Err,
        parse_result(grammars, base, Seq::empty(), text) is Ok ==> embedded_result(
            grammars,
            base,
            text,
            query,
        ) == Err::<Map<GrammarId, SyntaxNode>, crate::model::ParseErrorView>(
            crate::injection::unknown_injection_language(),
        ),
{
}

} // verus!
