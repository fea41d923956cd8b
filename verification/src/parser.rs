use vstd::prelude::*;
use vstd::utf8::encode_utf8;
use crate::laws::{law_ids_are_kept, lemma_materialize_erased, lemma_tokens_erased};
use crate::materialize::{collect_tokens, tokens_view};
use crate::model::{GrammarId, GrammarMap, ParseError, ParseErrorView, TSNode, TSRange, Token};
use crate::native::{
    SyntaxNode, abi_version, css_grammar, cursor_path, html_grammar,
    javascript_grammar, new_parser, node_sexp, parse, parse_outcome, parser_language,
    parser_ranges, parser_ready, ranges_fit, ranges_ordered, root_node, set_language,
    tree_syntax, tree_walk,
};
use crate::tree::{ids_differ, materialize, tokens_of, tokens_of_all, without_ids};

verus! {

/// The grammars that are at hand, each in the place of its identifier. A
/// grammar that does not come with the library is put in its place by
/// whoever links it.
pub type Grammars = GrammarMap<tree_sitter::Language>;

impl GrammarMap<tree_sitter::Language> {
    /// The grammar for an identifier, where one is at hand and a parser
    /// accepts it.
    pub open spec fn usable(self, language: GrammarId) -> Option<tree_sitter::Language> {
        match self.lookup(language) {
            Some(grammar) => if 13 <= abi_version(grammar) <= 14 {
                Some(grammar)
            } else {
                None
            },
            None => None,
        }
    }

    /// The grammars that come with the library: JavaScript, HTML and CSS.
    /// A parser accepts each of them.
    pub fn bundled() -> (grammars: Grammars)
        ensures
            grammars.javascript is Some,
            grammars.html is Some,
            grammars.css is Some,
            grammars.usable(GrammarId::Javascript) is Some,
            grammars.usable(GrammarId::Html) is Some,
            grammars.usable(GrammarId::Css) is Some,
            grammars.liquid is None,
            grammars.liquid_template is None,
    {
        GrammarMap {
            javascript: Some(javascript_grammar()),
            html: Some(html_grammar()),
            css: Some(css_grammar()),
            liquid: None,
            liquid_template: None,
        }
    }
}

/// What parsing a text under a grammar, within the given ranges, comes to:
/// the tree, with its identifiers erased, or the error. It is a
/// `LanguageError` where the grammar is not at hand or no parser accepts it,
/// and a `ParseError` where the ranges are not ordered or do not fit. No
/// ranges stand for the whole text, and with them there is always a tree
/// where the grammar can be used, whatever the text.
pub open spec fn parse_result(
    grammars: Grammars,
    language: GrammarId,
    ranges: Seq<TSRange>,
    text: Seq<u8>,
) -> Result<SyntaxNode, ParseErrorView> {
    match grammars.usable(language) {
        None => Err(ParseErrorView::LanguageError),
        Some(grammar) => if !(ranges_fit(ranges) && ranges_ordered(ranges)) {
            Err(ParseErrorView::ParseError)
        } else {
            Ok(parse_outcome(grammar, ranges, text))
        },
    }
}

/// The grammar for an identifier, if it is at hand.
pub fn get_language(language: &GrammarId, grammars: &Grammars) -> (grammar: Option<tree_sitter::Language>)
    ensures
        grammar == grammars.lookup(*language),
{
    match language {
        GrammarId::Javascript => grammars.javascript,
        GrammarId::Html => grammars.html,
        GrammarId::Css => grammars.css,
        GrammarId::Liquid => grammars.liquid,
        GrammarId::LiquidTemplate => grammars.liquid_template,
    }
}

/// A parser set to the grammar of an identifier, for the whole of a text,
/// and free to parse to the end. Fails with `LanguageError` where the
/// grammar is not at hand or the parser does not accept it.
pub fn get_parser(language: GrammarId, grammars: &Grammars) -> (parser: Result<tree_sitter::Parser, ParseError>)
    ensures
        match grammars.usable(language) {
            Some(grammar) => parser matches Ok(p) && parser_language(p) == Some(grammar)
                && parser_ranges(p).len() == 0 && parser_ready(p),
            None => parser matches Err(e) && e@ == ParseErrorView::LanguageError,
        },
{
    match get_language(&language, grammars) {
        None => Err(ParseError::LanguageError),
        Some(grammar) => {
            let mut parser = new_parser();
            if set_language(&mut parser, grammar) {
                Ok(parser)
            } else {
                Err(ParseError::LanguageError)
            }
        },
    }
}

/// Parses a text under a grammar and gives the tree in portable form. The
/// identifiers of its nodes are the parser's: they differ from node to node,
/// and from one parse to the next.
pub fn do_parse(corpus: String, language: GrammarId, grammars: &Grammars) -> (node: Result<TSNode, ParseError>)
    ensures
        match parse_result(*grammars, language, Seq::empty(), encode_utf8(corpus@)) {
            Ok(tree) => node matches Ok(n) && without_ids(n@) == materialize(
                tree,
                encode_utf8(corpus@),
            ) && ids_differ(n@),
            Err(error) => node matches Err(e) && e@ == error,
        },
{
    let source = corpus.as_str().as_bytes();
    match get_parser(language, grammars) {
        Err(error) => Err(error),
        Ok(mut parser) => {
            proof {
                assert(parser_ranges(parser) =~= Seq::<TSRange>::empty());
            }
            match parse(&mut parser, source) {
                None => Err(ParseError::ParseError),
                Some(tree) => {
                    proof {
                        lemma_materialize_erased(tree_syntax(tree), source@);
                        law_ids_are_kept(tree_syntax(tree), source@);
                    }
                    Ok(TSNode::from(root_node(&tree), source))
                },
            }
        },
    }
}

/// Parses a text under a grammar and gives the tokens of the tree.
pub fn do_to_tokens(corpus: String, language: GrammarId, grammars: &Grammars) -> (tokens: Result<
    Vec<Token>,
    ParseError,
>)
    ensures
        match parse_result(*grammars, language, Seq::empty(), encode_utf8(corpus@)) {
            Ok(tree) => tokens matches Ok(t) && tokens_view(t@) == tokens_of(
                tree,
                encode_utf8(corpus@),
            ),
            Err(error) => tokens matches Err(e) && e@ == error,
        },
{
    let source = corpus.as_str().as_bytes();
    match get_parser(language, grammars) {
        Err(error) => Err(error),
        Ok(mut parser) => {
            proof {
                assert(parser_ranges(parser) =~= Seq::<TSRange>::empty());
            }
            match parse(&mut parser, source) {
                None => Err(ParseError::ParseError),
                Some(tree) => {
                    let mut cursor = tree_walk(&tree);
                    proof {
                        lemma_tokens_erased(tree_syntax(tree), source@);
                        assert(cursor_path(cursor) =~= Seq::<int>::empty());
                        let alone = seq![tree_syntax(tree)];
                        assert(alone.drop_last() =~= Seq::<SyntaxNode>::empty());
                        assert(tokens_of_all(alone.drop_last(), source@) =~= Seq::empty());
                        assert(tokens_of_all(alone, source@) =~= tokens_of(tree_syntax(tree), source@));
                    }
                    Ok(collect_tokens(source, &mut cursor))
                },
            }
        },
    }
}

/// Parses a text under a grammar and gives the tree as an S-expression.
pub fn to_sexp(corpus: String, language: GrammarId, grammars: &Grammars) -> (sexp: Result<String, ParseError>)
    ensures
        match parse_result(*grammars, language, Seq::empty(), encode_utf8(corpus@)) {
            Ok(tree) => sexp matches Ok(s) && s@ == tree.sexp,
            Err(error) => sexp matches Err(e) && e@ == error,
        },
{
    let source = corpus.as_str().as_bytes();
    match get_parser(language, grammars) {
        Err(error) => Err(error),
        Ok(mut parser) => {
            proof {
                assert(parser_ranges(parser) =~= Seq::<TSRange>::empty());
            }
            match parse(&mut parser, source) {
                None => Err(ParseError::ParseError),
                Some(tree) => Ok(node_sexp(&root_node(&tree))),
            }
        },
    }
}

} // verus!
