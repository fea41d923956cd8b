use elixir_tree_sitter::{
    check_ranges_fit, collect_pattern_ranges, get_language, get_language_from_string, get_parser,
    inject_trees, parse_within, query_patterns, query_text, ranges_for, resolve_pattern,
    resolve_targets, span_bytes,
};
use elixir_tree_sitter::{
    GrammarId, GrammarMap, Grammars, ParseError, QueryHit, QuerySetting, TSPoint, TSRange,
};

fn unknown_language() -> ParseError {
    ParseError::QueryError { message: String::from("Unknown injection language") }
}

fn setting(key: &str, value: Option<&str>) -> QuerySetting {
    QuerySetting { key: String::from(key), value: value.map(String::from) }
}

fn range(start_byte: usize, end_byte: usize) -> TSRange {
    TSRange {
        start_byte,
        end_byte,
        start_point: TSPoint { row: 0, column: start_byte },
        end_point: TSPoint { row: 0, column: end_byte },
    }
}

fn hit(pattern_index: usize, ranges: Vec<TSRange>) -> QueryHit {
    QueryHit { pattern_index, ranges }
}

#[test]
fn language_names() {
    assert_eq!(get_language_from_string("html"), Ok(GrammarId::Html));
    assert_eq!(get_language_from_string("liquid"), Ok(GrammarId::Liquid));
    assert_eq!(get_language_from_string("css"), Err(unknown_language()));
    assert_eq!(get_language_from_string("HTML"), Err(unknown_language()));
    assert_eq!(get_language_from_string(""), Err(unknown_language()));
    assert_eq!(get_language_from_string("liquid "), Err(unknown_language()));
}

#[test]
fn pattern_without_injection_setting_injects_nothing() {
    assert_eq!(resolve_pattern(&vec![]), Ok(None));
    assert_eq!(resolve_pattern(&vec![setting("other", Some("html"))]), Ok(None));
    assert_eq!(resolve_pattern(&vec![setting("injection.content", None)]), Ok(None));
}

#[test]
fn pattern_injects_the_language_its_setting_names() {
    assert_eq!(
        resolve_pattern(&vec![setting("injection.language", Some("html"))]),
        Ok(Some(GrammarId::Html))
    );
    assert_eq!(
        resolve_pattern(&vec![
            setting("a", None),
            setting("injection.language", Some("liquid")),
            setting("b", Some("html")),
        ]),
        Ok(Some(GrammarId::Liquid))
    );
}

#[test]
fn first_injection_setting_decides() {
    assert_eq!(
        resolve_pattern(&vec![
            setting("injection.language", Some("liquid")),
            setting("injection.language", Some("html")),
        ]),
        Ok(Some(GrammarId::Liquid))
    );
    assert_eq!(
        resolve_pattern(&vec![
            setting("injection.language", Some("html")),
            setting("x", Some("ruby")),
            setting("injection.language", Some("html")),
        ]),
        Ok(Some(GrammarId::Html))
    );
    assert_eq!(
        resolve_pattern(&vec![
            setting("injection.language", Some("ruby")),
            setting("injection.language", Some("html")),
        ]),
        Err(unknown_language())
    );
}

#[test]
fn a_later_injection_setting_without_a_known_language_fails_too() {
    assert_eq!(
        resolve_pattern(&vec![
            setting("injection.language", Some("html")),
            setting("injection.language", Some("ruby")),
        ]),
        Err(unknown_language())
    );
    assert_eq!(
        resolve_pattern(&vec![
            setting("injection.language", Some("liquid")),
            setting("other", None),
            setting("injection.language", None),
        ]),
        Err(unknown_language())
    );
    let patterns = vec![
        vec![setting("injection.language", Some("html"))],
        vec![setting("injection.language", Some("liquid")), setting("injection.language", Some(""))],
    ];
    assert_eq!(resolve_targets(&patterns), Err(unknown_language()));
}

#[test]
fn injection_setting_without_a_known_language_fails() {
    assert_eq!(resolve_pattern(&vec![setting("injection.language", None)]), Err(unknown_language()));
    assert_eq!(
        resolve_pattern(&vec![setting("injection.language", Some("javascript"))]),
        Err(unknown_language())
    );
}

#[test]
fn targets_pattern_by_pattern() {
    assert_eq!(resolve_targets(&vec![]), Ok(vec![]));
    let patterns = vec![
        vec![setting("injection.language", Some("html"))],
        vec![],
        vec![setting("x", None), setting("injection.language", Some("liquid"))],
        vec![setting("injection.language", Some("html"))],
    ];
    assert_eq!(
        resolve_targets(&patterns),
        Ok(vec![Some(GrammarId::Html), None, Some(GrammarId::Liquid), Some(GrammarId::Html)])
    );
}

#[test]
fn one_unknown_language_fails_all_targets() {
    let patterns = vec![
        vec![setting("injection.language", Some("html"))],
        vec![setting("injection.language", Some("ruby"))],
        vec![setting("injection.language", Some("liquid"))],
    ];
    assert_eq!(resolve_targets(&patterns), Err(unknown_language()));
}

#[test]
fn ranges_of_a_pattern_in_the_order_of_matches_and_captures() {
    let hits = vec![
        hit(0, vec![range(1, 2), range(3, 4)]),
        hit(1, vec![range(5, 6)]),
        hit(0, vec![]),
        hit(0, vec![range(7, 8)]),
    ];
    let mut ranges = vec![range(0, 1)];
    collect_pattern_ranges(&hits, 0, &mut ranges);
    assert_eq!(ranges, vec![range(0, 1), range(1, 2), range(3, 4), range(7, 8)]);
    let mut other = vec![];
    collect_pattern_ranges(&hits, 1, &mut other);
    assert_eq!(other, vec![range(5, 6)]);
    let mut none = vec![];
    collect_pattern_ranges(&hits, 2, &mut none);
    assert_eq!(none, vec![]);
}

#[test]
fn ranges_for_a_language_pattern_after_pattern() {
    let targets = vec![Some(GrammarId::Html), Some(GrammarId::Liquid), None, Some(GrammarId::Html)];
    let hits = vec![
        hit(3, vec![range(20, 30)]),
        hit(1, vec![range(5, 6)]),
        hit(0, vec![range(1, 2)]),
        hit(2, vec![range(9, 10)]),
        hit(0, vec![range(1, 2)]),
        hit(7, vec![range(40, 50)]),
    ];
    assert_eq!(
        ranges_for(&targets, &hits, GrammarId::Html),
        vec![range(1, 2), range(1, 2), range(20, 30)]
    );
    assert_eq!(ranges_for(&targets, &hits, GrammarId::Liquid), vec![range(5, 6)]);
    assert_eq!(ranges_for(&targets, &hits, GrammarId::Css), vec![]);
    assert_eq!(ranges_for(&vec![], &hits, GrammarId::Html), vec![]);
    assert_eq!(ranges_for(&targets, &vec![], GrammarId::Html), vec![]);
}

#[test]
fn ranges_fit_in_32_bits() {
    assert!(check_ranges_fit(&vec![]));
    assert!(check_ranges_fit(&vec![range(0, 1), range(5, 0xffff_ffff)]));
    let mut wide = range(0, 1);
    wide.end_point.row = 0xffff_ffff;
    assert!(check_ranges_fit(&vec![wide]));
}

#[test]
fn span_bytes_is_the_part_or_nothing() {
    let source = b"hello world";
    assert_eq!(span_bytes(source, 0, 5), b"hello");
    assert_eq!(span_bytes(source, 6, 11), b"world");
    assert_eq!(span_bytes(source, 3, 3), b"");
    assert_eq!(span_bytes(source, 6, 12), b"");
    assert_eq!(span_bytes(source, 5, 4), b"");
    assert_eq!(span_bytes(source, 12, 12), b"");
}

#[test]
fn grammar_map_holds_one_value_for_each_grammar() {
    let mut map: GrammarMap<u32> = GrammarMap::new();
    assert_eq!(map.len(), 0);
    assert_eq!(map.get(&GrammarId::Html), None);
    assert!(!map.contains_key(&GrammarId::Html));
    map.insert(GrammarId::Html, 1);
    map.insert(GrammarId::LiquidTemplate, 2);
    assert_eq!(map.len(), 2);
    assert_eq!(map.get(&GrammarId::Html), Some(&1));
    assert_eq!(map.get(&GrammarId::LiquidTemplate), Some(&2));
    assert_eq!(map.get(&GrammarId::Liquid), None);
    map.insert(GrammarId::Html, 3);
    assert_eq!(map.len(), 2);
    assert_eq!(map.get(&GrammarId::Html), Some(&3));
    map.insert(GrammarId::Javascript, 4);
    map.insert(GrammarId::Css, 5);
    map.insert(GrammarId::Liquid, 6);
    assert_eq!(map.len(), 5);
    assert!(map.contains_key(&GrammarId::Css));
}

#[test]
fn all_grammar_identifiers() {
    assert_eq!(
        GrammarId::list(),
        vec![
            GrammarId::Javascript,
            GrammarId::Html,
            GrammarId::Css,
            GrammarId::Liquid,
            GrammarId::LiquidTemplate,
        ]
    );
}

#[test]
fn bundled_grammars() {
    let grammars = Grammars::bundled();
    assert_eq!(grammars.len(), 3);
    assert_eq!(get_language(&GrammarId::Javascript, &grammars), Some(tree_sitter_javascript::language()));
    assert_eq!(get_language(&GrammarId::Html, &grammars), Some(tree_sitter_html::language()));
    assert_eq!(get_language(&GrammarId::Css, &grammars), Some(tree_sitter_css::language()));
    assert_eq!(get_language(&GrammarId::Liquid, &grammars), None);
    assert_eq!(get_language(&GrammarId::LiquidTemplate, &grammars), None);
}

#[test]
fn parser_for_a_grammar() {
    let grammars = Grammars::bundled();
    let parser = get_parser(GrammarId::Css, &grammars).unwrap();
    assert_eq!(parser.language(), Some(tree_sitter_css::language()));
    assert_eq!(get_parser(GrammarId::Liquid, &grammars).err(), Some(ParseError::LanguageError));
}

#[test]
fn settings_of_each_pattern_of_a_query() {
    let query = tree_sitter::Query::new(
        tree_sitter_html::language(),
        r#"
        ((element) @a (#set! injection.language "html") (#set! other))
        (text) @b
        ((comment) @c (#set! injection.language))
        "#,
    )
    .unwrap();
    assert_eq!(
        query_patterns(&query),
        vec![
            vec![setting("injection.language", Some("html")), setting("other", None)],
            vec![],
            vec![setting("injection.language", None)],
        ]
    );
}

#[test]
fn parse_within_ranges_keeps_positions_of_the_whole_text() {
    let grammars = Grammars::bundled();
    let mut parser = tree_sitter::Parser::new();
    let source = b"<style>a{}</style>";
    let tree = parse_within(&mut parser, GrammarId::Css, &vec![range(7, 10)], source, &grammars).unwrap();
    assert_eq!(tree.root_node().to_sexp(), "(stylesheet (rule_set (selectors (tag_name)) (block)))");
    assert_eq!(tree.root_node().start_byte(), 7);
    assert_eq!(tree.root_node().end_byte(), 10);
}

#[test]
fn parse_within_no_ranges_is_the_whole_text() {
    let grammars = Grammars::bundled();
    let mut parser = tree_sitter::Parser::new();
    let source = b"a{}";
    let first = parse_within(&mut parser, GrammarId::Css, &vec![range(0, 1)], source, &grammars).unwrap();
    assert_eq!(first.root_node().end_byte(), 1);
    let whole = parse_within(&mut parser, GrammarId::Css, &vec![], source, &grammars).unwrap();
    assert_eq!(whole.root_node().to_sexp(), "(stylesheet (rule_set (selectors (tag_name)) (block)))");
    assert_eq!(whole.root_node().end_byte(), 3);
}

#[test]
fn parse_within_fails_on_ranges_out_of_order() {
    let grammars = Grammars::bundled();
    let mut parser = tree_sitter::Parser::new();
    let source = b"a{} b{}";
    let backwards = vec![range(4, 7), range(0, 3)];
    assert_eq!(
        parse_within(&mut parser, GrammarId::Css, &backwards, source, &grammars).err(),
        Some(ParseError::ParseError)
    );
    let overlapping = vec![range(0, 4), range(3, 7)];
    assert_eq!(
        parse_within(&mut parser, GrammarId::Css, &overlapping, source, &grammars).err(),
        Some(ParseError::ParseError)
    );
    let inverted = vec![range(3, 0)];
    assert_eq!(
        parse_within(&mut parser, GrammarId::Css, &inverted, source, &grammars).err(),
        Some(ParseError::ParseError)
    );
    let touching = vec![range(0, 3), range(3, 7)];
    assert!(parse_within(&mut parser, GrammarId::Css, &touching, source, &grammars).is_ok());
}

#[test]
fn parse_within_fails_without_the_grammar() {
    let grammars = Grammars::bundled();
    let mut parser = tree_sitter::Parser::new();
    assert_eq!(
        parse_within(&mut parser, GrammarId::Liquid, &vec![range(4, 7), range(0, 3)], b"x", &grammars).err(),
        Some(ParseError::LanguageError)
    );
}

#[test]
fn inject_trees_parses_each_language_that_has_ranges() {
    let grammars = Grammars::bundled();
    let source = b"<style>a{}</style><b>x</b>";
    let mut parser = tree_sitter::Parser::new();
    parser.set_language(tree_sitter_html::language()).unwrap();
    let base = parser.parse(source, None).unwrap();
    let mut trees: GrammarMap<tree_sitter::Tree> = GrammarMap::new();
    trees.insert(GrammarId::Javascript, base);
    let targets = vec![Some(GrammarId::Html), None, Some(GrammarId::Liquid)];
    let hits = vec![hit(1, vec![range(7, 10)]), hit(0, vec![range(18, 26)]), hit(2, vec![])];
    let injected = inject_trees(&mut parser, trees, &targets, &hits, source, &grammars).unwrap();
    assert_eq!(injected.len(), 2);
    assert_eq!(injected.get(&GrammarId::Javascript).unwrap().root_node().kind(), "fragment");
    let html = injected.get(&GrammarId::Html).unwrap();
    assert_eq!(html.root_node().to_sexp(), "(fragment (element (start_tag (tag_name)) (text) (end_tag (tag_name))))");
    assert_eq!(html.root_node().start_byte(), 18);
    assert!(!injected.contains_key(&GrammarId::Liquid));
}

#[test]
fn inject_trees_fails_on_the_first_language_that_fails() {
    let grammars = Grammars::bundled();
    let source = b"<b>x</b><i>y</i>";
    let mut parser = tree_sitter::Parser::new();
    let targets = vec![Some(GrammarId::Html), Some(GrammarId::Liquid), Some(GrammarId::Html)];
    let out_of_order = vec![hit(2, vec![range(0, 8)]), hit(0, vec![range(8, 16)]), hit(1, vec![range(0, 1)])];
    assert_eq!(
        inject_trees(&mut parser, GrammarMap::new(), &targets, &out_of_order, source, &grammars).err(),
        Some(ParseError::ParseError)
    );
    let in_order = vec![hit(0, vec![range(0, 8)]), hit(2, vec![range(8, 16)]), hit(1, vec![range(0, 1)])];
    assert_eq!(
        inject_trees(&mut parser, GrammarMap::new(), &targets, &in_order, source, &grammars).err(),
        Some(ParseError::LanguageError)
    );
}

#[test]
fn query_text_ends_a_trailing_name() {
    assert_eq!(query_text(""), "");
    assert_eq!(query_text("(element)"), "(element)");
    assert_eq!(query_text("(element) @e\n"), "(element) @e\n");
    assert_eq!(query_text("(element) @e "), "(element) @e ");
    assert_eq!(query_text("(element) @e"), "(element) @e ");
    assert_eq!(query_text("(element) @E"), "(element) @E ");
    assert_eq!(query_text("(element) @e9"), "(element) @e9 ");
    assert_eq!(query_text("(element) @e_"), "(element) @e_ ");
    assert_eq!(query_text("(element) @e-"), "(element) @e- ");
    assert_eq!(query_text("(nosuch\u{e9}"), "(nosuch\u{e9} ");
    assert_eq!(query_text("\"a\""), "\"a\"");
    assert_eq!(query_text("(a) ; z{"), "(a) ; z{");
    assert_eq!(query_text("(a) @b`"), "(a) @b`");
    assert_eq!(query_text("(a) @"), "(a) @");
    assert_eq!(query_text("(a) /"), "(a) /");
    assert_eq!(query_text("(a) :"), "(a) :");
    assert_eq!(query_text("(a) ["), "(a) [");
    assert_eq!(query_text("(a) \u{7f}"), "(a) \u{7f}");
}

#[test]
fn a_parser_accepts_each_bundled_grammar() {
    let grammars = Grammars::bundled();
    for language in [GrammarId::Javascript, GrammarId::Html, GrammarId::Css] {
        let grammar = get_language(&language, &grammars).unwrap();
        assert_eq!(grammar.version(), 14);
        assert!(get_parser(language, &grammars).is_ok());
    }
}
