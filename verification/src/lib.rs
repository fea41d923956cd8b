//! Grammar-driven parsing of a text into a portable syntax tree or a list of
//! tokens, and of a text that embeds other languages into one tree for each
//! grammar. The parser, its trees and its queries are tree-sitter's; what this
//! library makes of them is verified against the contracts in `native`.

pub mod model;
pub mod native;
pub mod tree;
pub mod materialize;
pub mod outline;
pub mod parser;
pub mod injection;
pub mod embedded;
pub mod laws;

pub use embedded::{
    do_parse_embedded, inject_trees, materialize_trees, parse_embedded, parse_within,
};
pub use injection::{
    check_ranges_fit, collect_pattern_ranges, get_language_from_string, query_patterns,
    query_text, ranges_for, resolve_pattern, resolve_targets,
};
pub use materialize::{collect_tokens, node_type};
pub use model::{
    GrammarId, GrammarMap, NodeType, ParseError, QueryHit, QuerySetting, TSNode, TSPoint, TSRange,
    Token,
};
pub use outline::{OutlineEntry, outline, tree_outline};
pub use parser::{Grammars, do_parse, do_to_tokens, get_language, get_parser, to_sexp};
pub use tree::span_bytes;
