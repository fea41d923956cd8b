use elixir_tree_sitter::{collect_tokens, do_parse, do_to_tokens, node_type, outline, tree_outline};
use elixir_tree_sitter::{GrammarId, Grammars, NodeType, OutlineEntry, TSNode, TSPoint, TSRange, Token};

fn parse_with(language: tree_sitter::Language, text: &[u8]) -> tree_sitter::Tree {
    let mut parser = tree_sitter::Parser::new();
    parser.set_language(language).unwrap();
    parser.parse(text, None).unwrap()
}

fn all_nodes(node: &TSNode) -> Vec<&TSNode> {
    let mut nodes = vec![node];
    for child in &node.children {
        nodes.extend(all_nodes(child));
    }
    nodes
}

fn leaf(kind: &str, value: Option<&str>, node_type: NodeType) -> TSNode {
    let point = TSPoint { row: 0, column: 0 };
    TSNode {
        id: 0,
        kind: String::from(kind),
        range: TSRange { start_byte: 0, end_byte: 0, start_point: point, end_point: point },
        children: vec![],
        node_type,
        value: value.map(String::from),
    }
}

fn inner(kind: &str, children: Vec<TSNode>) -> TSNode {
    let point = TSPoint { row: 0, column: 0 };
    TSNode {
        id: 0,
        kind: String::from(kind),
        range: TSRange { start_byte: 0, end_byte: 0, start_point: point, end_point: point },
        children,
        node_type: NodeType::Named,
        value: None,
    }
}

fn token(kind: &str, value: &str, node_type: NodeType) -> Token {
    Token { kind: String::from(kind), value: String::from(value), node_type }
}

#[test]
fn classification_takes_the_first_flag_that_is_set() {
    assert_eq!(NodeType::from_flags(true, true, true, true), NodeType::Error);
    assert_eq!(NodeType::from_flags(true, false, false, false), NodeType::Error);
    assert_eq!(NodeType::from_flags(false, true, true, true), NodeType::Extra);
    assert_eq!(NodeType::from_flags(false, true, false, false), NodeType::Extra);
    assert_eq!(NodeType::from_flags(false, false, true, true), NodeType::Missing);
    assert_eq!(NodeType::from_flags(false, false, true, false), NodeType::Missing);
    assert_eq!(NodeType::from_flags(false, false, false, true), NodeType::Named);
    assert_eq!(NodeType::from_flags(false, false, false, false), NodeType::Anonymous);
}

#[test]
fn tokens_of_a_portable_tree_are_its_leaves_in_order() {
    let tree = inner(
        "root",
        vec![
            leaf("a", Some("1"), NodeType::Anonymous),
            inner(
                "mid",
                vec![leaf("b", Some("2"), NodeType::Named), leaf("c", None, NodeType::Missing)],
            ),
            leaf("d", Some("4"), NodeType::Extra),
        ],
    );
    assert_eq!(
        tree.tokens(),
        vec![
            token("a", "1", NodeType::Anonymous),
            token("b", "2", NodeType::Named),
            token("c", "", NodeType::Missing),
            token("d", "4", NodeType::Extra),
        ]
    );
}

#[test]
fn tokens_of_a_single_leaf() {
    let tree = leaf("only", Some("x"), NodeType::Named);
    assert_eq!(tree.tokens(), vec![token("only", "x", NodeType::Named)]);
}

#[test]
fn portable_tree_of_javascript() {
    let text = b"let x = 1;";
    let tree = parse_with(tree_sitter_javascript::language(), text);
    let root = TSNode::from(tree.root_node(), text);
    assert_eq!(root.id, tree.root_node().id());
    assert_eq!(root.kind, "program");
    assert_eq!(root.node_type, NodeType::Named);
    assert_eq!(root.value, None);
    assert_eq!(root.children.len(), 1);
    let declaration = &root.children[0];
    assert_eq!(declaration.kind, "lexical_declaration");
    assert_eq!(declaration.id, tree.root_node().child(0).unwrap().id());
    let kinds: Vec<&str> = declaration.children.iter().map(|c| c.kind.as_str()).collect();
    assert_eq!(kinds, vec!["let", "variable_declarator", ";"]);
    let keyword = &declaration.children[0];
    assert_eq!(keyword.node_type, NodeType::Anonymous);
    assert_eq!(keyword.value, Some(String::from("let")));
    assert_eq!(
        keyword.range,
        TSRange {
            start_byte: 0,
            end_byte: 3,
            start_point: TSPoint { row: 0, column: 0 },
            end_point: TSPoint { row: 0, column: 3 },
        }
    );
    let declarator = &declaration.children[1];
    assert_eq!(declarator.value, None);
    assert_eq!(declarator.range.start_byte, 4);
    assert_eq!(declarator.range.end_byte, 9);
    let number = &declarator.children[2];
    assert_eq!(number.kind, "number");
    assert_eq!(number.node_type, NodeType::Named);
    assert_eq!(number.value, Some(String::from("1")));
}

#[test]
fn positions_count_rows_and_columns() {
    let text = b"let x;\nlet yy;";
    let tree = parse_with(tree_sitter_javascript::language(), text);
    let root = TSNode::from(tree.root_node(), text);
    let second = &root.children[1];
    assert_eq!(second.range.start_byte, 7);
    assert_eq!(second.range.end_byte, 14);
    assert_eq!(second.range.start_point, TSPoint { row: 1, column: 0 });
    assert_eq!(second.range.end_point, TSPoint { row: 1, column: 7 });
}

#[test]
fn only_leaves_carry_text() {
    let text = "<div class=\"a\"><p>hi</p><!-- c --></div>";
    let root = do_parse(String::from(text), GrammarId::Html, &Grammars::bundled()).unwrap();
    for node in all_nodes(&root) {
        if node.children.is_empty() {
            let expected = &text[node.range.start_byte..node.range.end_byte];
            assert_eq!(node.value.as_deref(), Some(expected));
        } else {
            assert_eq!(node.value, None);
        }
    }
}

#[test]
fn node_ids_are_distinct_within_a_tree() {
    let root = do_parse(String::from("a { b: c; d: e }"), GrammarId::Css, &Grammars::bundled()).unwrap();
    let mut ids: Vec<usize> = all_nodes(&root).iter().map(|n| n.id).collect();
    let count = ids.len();
    ids.sort();
    ids.dedup();
    assert_eq!(ids.len(), count);
}

#[test]
fn inner_node_spans_its_children() {
    let texts = ["let x = 1;", "function f(a, b) { return a + b; }", "x = [1, 2, {a: 3}];"];
    for text in texts {
        let root = do_parse(String::from(text), GrammarId::Javascript, &Grammars::bundled()).unwrap();
        for node in all_nodes(&root) {
            if !node.children.is_empty() {
                let start = node.children.iter().map(|c| c.range.start_byte).min().unwrap();
                let end = node.children.iter().map(|c| c.range.end_byte).max().unwrap();
                assert_eq!(node.range.start_byte, start);
                assert_eq!(node.range.end_byte, end);
            }
        }
    }
}

#[test]
fn root_range_is_the_whole_text() {
    let cases = [
        ("let x = 1;", GrammarId::Javascript),
        ("<html></html>", GrammarId::Html),
        ("body .a .b {}", GrammarId::Css),
    ];
    for (text, language) in cases {
        let root = do_parse(String::from(text), language, &Grammars::bundled()).unwrap();
        assert_eq!(root.range.start_byte, 0);
        assert_eq!(root.range.end_byte, text.len());
    }
}

#[test]
fn tokenize_gives_the_leaves_of_parse() {
    let cases = [
        ("let x = 1;", GrammarId::Javascript),
        ("f(1, 'two', [3]) // done", GrammarId::Javascript),
        ("<html><body class=\"c\">text</body></html>", GrammarId::Html),
        ("body .a .b { color: red; }", GrammarId::Css),
        ("let = = ;", GrammarId::Javascript),
        ("", GrammarId::Javascript),
    ];
    let grammars = Grammars::bundled();
    for (text, language) in cases {
        let root = do_parse(String::from(text), language, &grammars).unwrap();
        let tokens = do_to_tokens(String::from(text), language, &grammars).unwrap();
        assert_eq!(root.tokens(), tokens);
    }
}

#[test]
fn collected_tokens_are_the_leaves_of_the_same_tree() {
    let text = b"a { b: c } /* d */";
    let tree = parse_with(tree_sitter_css::language(), text);
    let root = TSNode::from(tree.root_node(), text);
    let tokens = collect_tokens(text, &mut tree.walk());
    assert_eq!(root.tokens(), tokens);
    let values: Vec<&str> = tokens.iter().map(|t| t.value.as_str()).collect();
    assert_eq!(values, vec!["a", "{", "b", ":", "c", "}", "/* d */"]);
}

#[test]
fn collect_tokens_goes_on_from_where_the_cursor_stands() {
    let text = b"let x = 1;";
    let tree = parse_with(tree_sitter_javascript::language(), text);
    let mut cursor = tree.walk();
    assert!(cursor.goto_first_child());
    assert!(cursor.goto_first_child());
    assert!(cursor.goto_next_sibling());
    assert_eq!(cursor.node().kind(), "variable_declarator");
    let tokens = collect_tokens(text, &mut cursor);
    let values: Vec<&str> = tokens.iter().map(|t| t.value.as_str()).collect();
    assert_eq!(values, vec!["x", "=", "1", ";"]);
    assert_eq!(cursor.node().kind(), ";");
}

#[test]
fn malformed_text_gives_error_nodes_not_a_failure() {
    let root = do_parse(String::from("let = ;"), GrammarId::Javascript, &Grammars::bundled()).unwrap();
    assert!(all_nodes(&root).iter().any(|n| n.node_type == NodeType::Error));
}

#[test]
fn comments_are_extra() {
    let root = do_parse(String::from("// note\nlet x;"), GrammarId::Javascript, &Grammars::bundled()).unwrap();
    let comment = &root.children[0];
    assert_eq!(comment.kind, "comment");
    assert_eq!(comment.node_type, NodeType::Extra);
    assert_eq!(comment.value, Some(String::from("// note")));
}

#[test]
fn a_node_the_parser_put_in_is_missing() {
    let root = do_parse(String::from("a { b: c"), GrammarId::Css, &Grammars::bundled()).unwrap();
    let missing: Vec<&TSNode> =
        all_nodes(&root).into_iter().filter(|n| n.node_type == NodeType::Missing).collect();
    assert_eq!(missing.len(), 1);
    assert_eq!(missing[0].kind, "}");
    assert_eq!(missing[0].range.start_byte, 8);
    assert_eq!(missing[0].range.end_byte, 8);
    assert_eq!(missing[0].value, Some(String::new()));
}

#[test]
fn node_type_of_native_nodes() {
    let text = b"let x = 1;";
    let tree = parse_with(tree_sitter_javascript::language(), text);
    let root = tree.root_node();
    assert_eq!(node_type(root), NodeType::Named);
    let keyword = root.child(0).unwrap().child(0).unwrap();
    assert_eq!(node_type(keyword), NodeType::Anonymous);
}

#[test]
fn text_that_is_not_utf8_is_absent() {
    let text = b"'\xff'";
    let tree = parse_with(tree_sitter_javascript::language(), text);
    let root = TSNode::from(tree.root_node(), text);
    let leaves: Vec<&TSNode> =
        all_nodes(&root).into_iter().filter(|n| n.children.is_empty()).collect();
    assert!(leaves.iter().any(|n| n.value.is_none()));
    let tokens = collect_tokens(text, &mut tree.walk());
    assert_eq!(root.tokens(), tokens);
    assert!(tokens.iter().any(|t| t.value.is_empty()));
}

#[test]
fn text_beyond_the_source_is_absent() {
    let text = b"let x = 1;";
    let tree = parse_with(tree_sitter_javascript::language(), text);
    let root = TSNode::from(tree.root_node(), &text[..5]);
    let declaration = &root.children[0];
    assert_eq!(declaration.children[0].value, Some(String::from("let")));
    assert_eq!(declaration.children[2].kind, ";");
    assert_eq!(declaration.children[2].value, None);
    let tokens = collect_tokens(&text[..5], &mut tree.walk());
    let values: Vec<&str> = tokens.iter().map(|t| t.value.as_str()).collect();
    assert_eq!(values, vec!["let", "x", "", "", ""]);
}

#[test]
fn outline_lists_each_node_with_its_depth() {
    let text = b"let x;";
    let tree = parse_with(tree_sitter_javascript::language(), text);
    let entries = outline(text, &mut tree.walk(), 0);
    let shape: Vec<(usize, &str, Option<&str>)> =
        entries.iter().map(|e| (e.depth, e.kind.as_str(), e.text.as_deref())).collect();
    assert_eq!(
        shape,
        vec![
            (0, "program", None),
            (1, "lexical_declaration", None),
            (2, "let", Some("let")),
            (2, "variable_declarator", None),
            (3, "identifier", Some("x")),
            (2, ";", Some(";")),
        ]
    );
    assert_eq!(
        entries[4],
        OutlineEntry {
            depth: 3,
            kind: String::from("identifier"),
            start: TSPoint { row: 0, column: 4 },
            end: TSPoint { row: 0, column: 5 },
            text: Some(String::from("x")),
        }
    );
}

#[test]
fn outline_depth_stays_at_the_largest_number() {
    let text = b"let x;";
    let tree = parse_with(tree_sitter_javascript::language(), text);
    let entries = outline(text, &mut tree.walk(), usize::MAX - 1);
    let depths: Vec<usize> = entries.iter().map(|e| e.depth).collect();
    assert_eq!(
        depths,
        vec![usize::MAX - 1, usize::MAX, usize::MAX, usize::MAX, usize::MAX, usize::MAX]
    );
}

#[test]
fn ranges_are_the_parser_s_own() {
    let text = "  let x;  ";
    let root = do_parse(String::from(text), GrammarId::Javascript, &Grammars::bundled()).unwrap();
    assert_eq!(root.kind, "program");
    assert_eq!((root.range.start_byte, root.range.end_byte), (2, 10));
    assert_eq!(root.children.len(), 1);
    let declaration = &root.children[0];
    assert_eq!((declaration.range.start_byte, declaration.range.end_byte), (2, 8));
}

#[test]
fn empty_text_has_an_empty_root() {
    let root = do_parse(String::new(), GrammarId::Css, &Grammars::bundled()).unwrap();
    assert_eq!(root.kind, "stylesheet");
    assert_eq!((root.range.start_byte, root.range.end_byte), (0, 0));
    assert_eq!(root.children.len(), 0);
    assert_eq!(root.value, Some(String::new()));
    let tokens = do_to_tokens(String::new(), GrammarId::Css, &Grammars::bundled()).unwrap();
    assert_eq!(tokens, vec![Token { kind: String::from("stylesheet"), value: String::new(), node_type: NodeType::Named }]);
}

#[test]
fn outline_of_a_whole_tree() {
    let text = b"a{}";
    let tree = parse_with(tree_sitter_css::language(), text);
    let entries = tree_outline(text, &tree, 2);
    let shape: Vec<(usize, &str, Option<&str>)> =
        entries.iter().map(|e| (e.depth, e.kind.as_str(), e.text.as_deref())).collect();
    assert_eq!(
        shape,
        vec![
            (2, "stylesheet", None),
            (3, "rule_set", None),
            (4, "selectors", None),
            (5, "tag_name", Some("a")),
            (4, "block", None),
            (5, "{", Some("{")),
            (5, "}", Some("}")),
        ]
    );
    assert_eq!(entries, outline(text, &mut tree.walk(), 2));
}

#[test]
fn a_node_that_bears_another_rule_s_name_keeps_it() {
    let text = "body .a .b {}";
    let root = do_parse(String::from(text), GrammarId::Css, &Grammars::bundled()).unwrap();
    let tags: Vec<&TSNode> =
        all_nodes(&root).into_iter().filter(|n| n.value.as_deref() == Some("body")).collect();
    assert_eq!(tags.len(), 1);
    assert_eq!(tags[0].kind, "tag_name");
    assert_eq!(tags[0].node_type, NodeType::Named);
    let tokens = do_to_tokens(String::from(text), GrammarId::Css, &Grammars::bundled()).unwrap();
    assert_eq!(tokens[0], Token { kind: String::from("tag_name"), value: String::from("body"), node_type: NodeType::Named });
}

#[test]
fn portable_form_of_a_node_that_bears_another_rule_s_name() {
    let text = b"body .a .b {}";
    let tree = parse_with(tree_sitter_css::language(), text);
    let mut cursor = tree.walk();
    while cursor.node().child_count() > 0 {
        assert!(cursor.goto_first_child());
    }
    let native = cursor.node();
    assert_eq!(native.kind(), "tag_name");
    let portable = TSNode::from(native, text);
    assert_eq!(portable.kind, "tag_name");
    assert_eq!(portable.id, native.id());
    assert_eq!(portable.value, Some(String::from("body")));
    assert_eq!(portable.node_type, node_type(native));
}

#[test]
fn node_ids_differ_in_large_and_malformed_trees() {
    let mut long = String::new();
    for i in 0..200 {
        long.push_str(&format!("function f{}(a, b) {{ return [a, b, {{k: {}}}, `t${{a}}`]; }}\n", i, i));
    }
    let cases = [
        (long.as_str(), GrammarId::Javascript),
        ("let = = ; f(1 ( [ } x = (1 + 2", GrammarId::Javascript),
        ("a { b: c", GrammarId::Css),
        ("<div><p>x<b></div></p><<<", GrammarId::Html),
        ("", GrammarId::Html),
        ("  let x;  ", GrammarId::Javascript),
    ];
    for (text, language) in cases {
        let root = do_parse(String::from(text), language, &Grammars::bundled()).unwrap();
        let mut ids: Vec<usize> = all_nodes(&root).iter().map(|n| n.id).collect();
        let count = ids.len();
        ids.sort();
        ids.dedup();
        assert_eq!(ids.len(), count);
    }
}
