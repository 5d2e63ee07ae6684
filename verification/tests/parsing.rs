use java_class_model::grammar::{classify, looks_below};
use java_class_model::model::JavaClass;
use java_class_model::parser::syntax_tree;
use java_class_model::syntax::SyntaxNode;

const SOURCES: [&str; 12] = [
    "",
    " \n\t",
    "package a.b; import java.util.*; class C<T> extends D implements I, J { int x = 1, y; }",
    "class A { class B { class C { void f() { int z = (1 + (2 * (3 - 4))); } } } }",
    "class { }",
    "class C { int ; }",
    "class C { int x }",
    "}{ ;; class",
    "import ; package ; class C implements { }",
    "@Deprecated public final class Ünï { String s = \"é€\"; // tail\n }",
    "interface I { } enum E { A, B } record R(int x) { }",
    "/* open comment",
];

fn same_nodes(lowered: &SyntaxNode, parsed: tree_sitter::Node) {
    assert_eq!(lowered.kind, parsed.kind());
    assert_eq!(lowered.start_byte, parsed.start_byte());
    assert_eq!(lowered.end_byte, parsed.end_byte());
    assert_eq!(lowered.named, parsed.is_named());
    if !looks_below(classify(parsed.kind())) {
        assert!(lowered.children.is_empty());
        return;
    }
    assert_eq!(lowered.children.len(), parsed.child_count());
    let mut cursor = parsed.walk();
    for (child, parsed_child) in lowered.children.iter().zip(parsed.children(&mut cursor)) {
        same_nodes(child, parsed_child);
    }
}

#[test]
fn syntax_tree_agrees_with_the_parser_node_by_node() {
    let mut parser = tree_sitter::Parser::new();
    parser.set_language(tree_sitter_java::language()).unwrap();
    for text in SOURCES {
        let parsed = parser.parse(text, None).unwrap();
        let lowered = syntax_tree(text).unwrap();
        same_nodes(&lowered, parsed.root_node());
    }
}

#[test]
fn nodes_that_are_never_entered_come_without_children() {
    let text = "class C { void f() { int y; } int x = 1 + 2; }";
    let root = syntax_tree(text).unwrap();
    let body = &root.children[0].children[2];
    let kinds: Vec<&str> = body.children.iter().map(|c| c.kind.as_str()).collect();
    assert_eq!(kinds, vec!["{", "method_declaration", "field_declaration", "}"]);
    assert!(body.children[1].children.is_empty());
    let field = &body.children[2];
    let kinds: Vec<&str> = field.children.iter().map(|c| c.kind.as_str()).collect();
    assert_eq!(kinds, vec!["integral_type", "variable_declarator", ";"]);
    assert!(field.children[1].children.is_empty());
    assert_eq!((field.children[1].start_byte, field.children[1].end_byte), (34, 43));
}

#[test]
fn deep_expressions_do_not_deepen_the_tree() {
    let depth = 100_000;
    let text = format!("class C {{ int x = {}1{}; }}", "(".repeat(depth), ")".repeat(depth));
    let root = syntax_tree(&text).unwrap();
    let (class, diagnostics) = JavaClass::new_from_tree(&root, &text);
    let class = class.unwrap();
    assert_eq!(class.name, Some("C".to_string()));
    assert_eq!(class.fields.len(), 1);
    assert_eq!(class.fields[0].field.len(), 2 * depth + 5);
    assert!(diagnostics.is_empty());
}

#[test]
fn every_parsed_tree_fits_its_text() {
    for text in SOURCES {
        assert!(syntax_tree(text).unwrap().fits(text));
    }
}

#[test]
fn same_text_parses_to_the_same_tree() {
    for text in SOURCES {
        assert_eq!(syntax_tree(text), syntax_tree(text));
    }
}

#[test]
fn malformed_sources_still_have_an_outcome() {
    for text in SOURCES {
        let root = syntax_tree(text).unwrap();
        let (class, _) = JavaClass::new_from_tree(&root, text);
        if let Ok(class) = class {
            assert_eq!(class.text, text);
            assert_eq!(class.superclass, None);
        }
    }
}
