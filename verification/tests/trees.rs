use java_class_model::model::{Field, JavaClass, JavaType, Standing};
use java_class_model::report::{Diagnostic, ExtractError, Scope, Violation};
use java_class_model::syntax::SyntaxNode;

fn named(kind: &str, start_byte: usize, end_byte: usize, children: Vec<SyntaxNode>) -> SyntaxNode {
    SyntaxNode { kind: kind.to_string(), start_byte, end_byte, named: true, children }
}

fn token(kind: &str, start_byte: usize, end_byte: usize) -> SyntaxNode {
    SyntaxNode { kind: kind.to_string(), start_byte, end_byte, named: false, children: vec![] }
}

fn int_field(name: &str) -> Field {
    Field { java_type: JavaType::IntegralType("int".to_string()), field: name.to_string() }
}

#[test]
fn tree_that_leaves_the_text_does_not_fit() {
    let text = "héllo";
    assert!(named("program", 0, 6, vec![]).fits(text));
    assert!(!named("program", 0, 7, vec![]).fits(text));
    assert!(!named("program", 3, 2, vec![]).fits(text));
    assert!(!named("program", 0, 2, vec![]).fits(text));
    assert!(!named("program", 2, 6, vec![]).fits(text));
    assert!(named("program", 1, 3, vec![]).fits(text));
    assert!(!named("program", 0, 6, vec![named("identifier", 0, 2, vec![])]).fits(text));
    assert!(named("program", 0, 6, vec![named("identifier", 3, 3, vec![])]).fits(text));
}

#[test]
fn second_identifier_before_the_body_is_an_error() {
    let text = "class A B { }";
    let declaration = named(
        "class_declaration",
        0,
        13,
        vec![
            token("class", 0, 5),
            named("identifier", 6, 7, vec![]),
            named("identifier", 8, 9, vec![]),
            named("class_body", 10, 13, vec![]),
        ],
    );
    let (class, diagnostics) = JavaClass::new_from_tree(&declaration, text);
    assert_eq!(
        class,
        Err(ExtractError {
            violation: Violation::TwoIdentifiers,
            kind: "identifier".to_string(),
            phrase: "B".to_string(),
        })
    );
    assert!(diagnostics.is_empty());
}

#[test]
fn identifier_after_the_body_is_no_second_name() {
    let text = "class A { } B";
    let declaration = named(
        "class_declaration",
        0,
        13,
        vec![
            named("identifier", 6, 7, vec![]),
            named("class_body", 8, 11, vec![]),
            named("identifier", 12, 13, vec![]),
        ],
    );
    let (class, _) = JavaClass::new_from_tree(&declaration, text);
    assert_eq!(class.unwrap().name, Some("A".to_string()));
}

#[test]
fn unknown_child_before_the_name_is_reported_and_after_it_is_not() {
    let text = "@X class A<T> { }";
    let declaration = named(
        "class_declaration",
        0,
        17,
        vec![
            named("marker_annotation", 0, 2, vec![]),
            named("class", 3, 8, vec![]),
            named("modifiers", 3, 3, vec![]),
            named("identifier", 9, 10, vec![]),
            named("type_parameters", 10, 13, vec![]),
            named("class_body", 14, 17, vec![]),
        ],
    );
    let mut class = JavaClass::new(text);
    let mut diagnostics = Vec::new();
    assert_eq!(class.retrieve_class_name(&declaration, &mut diagnostics), Ok(()));
    assert_eq!(class.name, Some("A".to_string()));
    assert_eq!(
        diagnostics,
        vec![Diagnostic {
            scope: Scope::ClassName,
            kind: "marker_annotation".to_string(),
            phrase: "@X".to_string(),
        }]
    );
}

#[test]
fn second_type_in_a_field_is_an_error() {
    let text = "int long x;";
    let field = named(
        "field_declaration",
        0,
        11,
        vec![
            named("integral_type", 0, 3, vec![]),
            named("integral_type", 4, 8, vec![]),
            named("variable_declarator", 9, 10, vec![]),
        ],
    );
    let mut class = JavaClass::new(text);
    let mut diagnostics = Vec::new();
    assert_eq!(
        class.retrieve_field(&field, &mut diagnostics),
        Err(ExtractError {
            violation: Violation::TwoTypes,
            kind: "integral_type".to_string(),
            phrase: "long".to_string(),
        })
    );
    assert!(class.fields.is_empty());
}

#[test]
fn name_before_the_type_is_an_error() {
    let text = "x int;";
    let field = named(
        "field_declaration",
        0,
        6,
        vec![named("variable_declarator", 0, 1, vec![]), named("integral_type", 2, 5, vec![])],
    );
    let mut class = JavaClass::new(text);
    let mut diagnostics = Vec::new();
    assert_eq!(
        class.retrieve_field(&field, &mut diagnostics),
        Err(ExtractError {
            violation: Violation::MissingType,
            kind: "variable_declarator".to_string(),
            phrase: "x".to_string(),
        })
    );
}

#[test]
fn field_without_a_type_is_an_error() {
    let text = "static;";
    let field = named("field_declaration", 0, 7, vec![named("modifiers", 0, 6, vec![])]);
    let mut class = JavaClass::new(text);
    let mut diagnostics = Vec::new();
    assert_eq!(
        class.retrieve_field(&field, &mut diagnostics),
        Err(ExtractError {
            violation: Violation::MissingType,
            kind: "field_declaration".to_string(),
            phrase: "static;".to_string(),
        })
    );
}

#[test]
fn failing_field_leaves_the_earlier_fields_alone() {
    let text = "int a; int";
    let bad = named("field_declaration", 7, 10, vec![named("integral_type", 7, 10, vec![])]);
    let mut class = JavaClass::new(text);
    class.fields.push(int_field("a"));
    let mut diagnostics = Vec::new();
    let result = class.retrieve_field(&bad, &mut diagnostics);
    assert_eq!(result.unwrap_err().violation, Violation::NoDeclarators);
    assert_eq!(class.fields, vec![int_field("a")]);
}

#[test]
fn fields_join_the_ones_before() {
    let text = "int a; int b, c;";
    let field = named(
        "field_declaration",
        7,
        16,
        vec![
            named("integral_type", 7, 10, vec![]),
            named("variable_declarator", 11, 12, vec![]),
            token(",", 12, 13),
            named("variable_declarator", 14, 15, vec![]),
            token(";", 15, 16),
        ],
    );
    let mut class = JavaClass::new(text);
    class.fields.push(int_field("a"));
    let mut diagnostics = Vec::new();
    assert_eq!(class.retrieve_field(&field, &mut diagnostics), Ok(()));
    assert_eq!(class.fields, vec![int_field("a"), int_field("b"), int_field("c")]);
    assert!(diagnostics.is_empty());
}

#[test]
fn unknown_child_of_a_field_is_reported() {
    let text = "int[] a;";
    let field = named(
        "field_declaration",
        0,
        8,
        vec![
            named("integral_type", 0, 3, vec![]),
            named("dimensions", 3, 5, vec![]),
            named(";", 7, 8, vec![]),
            named("variable_declarator", 6, 7, vec![]),
        ],
    );
    let mut class = JavaClass::new(text);
    let mut diagnostics = Vec::new();
    assert_eq!(class.retrieve_field(&field, &mut diagnostics), Ok(()));
    assert_eq!(class.fields, vec![int_field("a")]);
    assert_eq!(
        diagnostics,
        vec![Diagnostic {
            scope: Scope::Field,
            kind: "dimensions".to_string(),
            phrase: "[]".to_string(),
        }]
    );
}

#[test]
fn error_ends_the_walk_and_keeps_what_was_read() {
    let text = "int a; int long b; int c;";
    let good = named(
        "field_declaration",
        0,
        6,
        vec![named("integral_type", 0, 3, vec![]), named("variable_declarator", 4, 5, vec![])],
    );
    let bad = named(
        "field_declaration",
        7,
        18,
        vec![
            named("integral_type", 7, 10, vec![]),
            named("integral_type", 11, 15, vec![]),
            named("variable_declarator", 16, 17, vec![]),
        ],
    );
    let late = named(
        "field_declaration",
        19,
        25,
        vec![named("integral_type", 19, 22, vec![]), named("variable_declarator", 23, 24, vec![])],
    );
    let root = named("program", 0, 25, vec![good, named("wild", 6, 7, vec![]), bad, late]);
    let mut class = JavaClass::new(text);
    let mut diagnostics = Vec::new();
    let result = class.from_tree(&root, Standing::TopLevel, &mut diagnostics);
    assert_eq!(result.unwrap_err().violation, Violation::TwoTypes);
    assert_eq!(class.fields, vec![int_field("a")]);
    assert_eq!(
        diagnostics,
        vec![Diagnostic { scope: Scope::Dispatch, kind: "wild".to_string(), phrase: " ".to_string() }]
    );
}

#[test]
fn error_in_a_nested_class_ends_the_extraction() {
    let text = "class A { class B { int } }";
    let inner_field = named("field_declaration", 20, 23, vec![named("integral_type", 20, 23, vec![])]);
    let inner = named(
        "class_declaration",
        10,
        25,
        vec![
            named("identifier", 16, 17, vec![]),
            named("class_body", 18, 25, vec![inner_field]),
        ],
    );
    let outer = named(
        "class_declaration",
        0,
        27,
        vec![named("identifier", 6, 7, vec![]), named("class_body", 8, 27, vec![inner])],
    );
    let mut class = JavaClass::new(text);
    let mut diagnostics = Vec::new();
    let result = class.from_tree(&outer, Standing::TopLevel, &mut diagnostics);
    assert_eq!(
        result,
        Err(ExtractError {
            violation: Violation::NoDeclarators,
            kind: "field_declaration".to_string(),
            phrase: "int".to_string(),
        })
    );
    assert_eq!(class.name, Some("A".to_string()));
    assert!(class.composition.is_empty());
}

#[test]
fn anonymous_children_are_not_scanned() {
    let text = "package a.b;";
    let declaration = named(
        "package_declaration",
        0,
        12,
        vec![
            token("wild", 0, 7),
            SyntaxNode {
                kind: "scoped_identifier".to_string(),
                start_byte: 8,
                end_byte: 11,
                named: false,
                children: vec![],
            },
        ],
    );
    let mut class = JavaClass::new(text);
    let mut diagnostics = Vec::new();
    class.retrieve_package(&declaration, Standing::TopLevel, &mut diagnostics);
    assert_eq!(class.package, "");
    assert!(diagnostics.is_empty());
}

#[test]
fn package_scan_reports_unknown_children_wherever_they_stand() {
    let text = "x package a.b y";
    let declaration = named(
        "package_declaration",
        0,
        15,
        vec![
            named("wild", 0, 1, vec![]),
            named("package", 2, 9, vec![]),
            named("scoped_identifier", 10, 13, vec![]),
            named("wild", 14, 15, vec![]),
        ],
    );
    let mut class = JavaClass::new(text);
    let mut diagnostics = Vec::new();
    class.retrieve_package(&declaration, Standing::TopLevel, &mut diagnostics);
    assert_eq!(class.package, "a.b");
    assert_eq!(
        diagnostics,
        vec![
            Diagnostic { scope: Scope::Package, kind: "wild".to_string(), phrase: "x".to_string() },
            Diagnostic { scope: Scope::Package, kind: "wild".to_string(), phrase: "y".to_string() },
        ]
    );
}

#[test]
fn first_dotted_name_of_a_declaration_is_the_package() {
    let text = "package a.b c.d";
    let declaration = named(
        "package_declaration",
        0,
        15,
        vec![
            named("scoped_identifier", 8, 11, vec![]),
            named("scoped_identifier", 12, 15, vec![]),
        ],
    );
    let mut class = JavaClass::new(text);
    let mut diagnostics = Vec::new();
    class.retrieve_package(&declaration, Standing::TopLevel, &mut diagnostics);
    assert_eq!(class.package, "a.b");
    assert!(diagnostics.is_empty());
}

#[test]
fn package_declaration_replaces_the_package_of_a_top_level_class() {
    let text = "package c.d;";
    let declaration =
        named("package_declaration", 0, 12, vec![named("scoped_identifier", 8, 11, vec![])]);
    let mut class = JavaClass::new(text);
    class.package = "a".to_string();
    class.name = Some("K".to_string());
    let mut diagnostics = Vec::new();
    class.retrieve_package(&declaration, Standing::TopLevel, &mut diagnostics);
    assert_eq!(class.package, "c.d");
    assert!(diagnostics.is_empty());
}

#[test]
fn package_declaration_is_refused_for_a_nested_class() {
    let text = "package c.d;";
    let declaration =
        named("package_declaration", 0, 12, vec![named("scoped_identifier", 8, 11, vec![])]);
    let mut class = JavaClass::new(text);
    class.package = ".A".to_string();
    let mut diagnostics = Vec::new();
    class.retrieve_package(&declaration, Standing::Nested, &mut diagnostics);
    assert_eq!(class.package, ".A");
    assert_eq!(
        diagnostics,
        vec![Diagnostic {
            scope: Scope::Package,
            kind: "package_declaration".to_string(),
            phrase: "package c.d;".to_string(),
        }]
    );
}

#[test]
fn package_declaration_replaces_the_package_of_a_class_that_holds_classes() {
    let text = "package c.d;";
    let declaration =
        named("package_declaration", 0, 12, vec![named("scoped_identifier", 8, 11, vec![])]);
    let mut class = JavaClass::new(text);
    class.package = "a".to_string();
    class.name = Some("K".to_string());
    let mut inner = JavaClass::new(text);
    inner.package = "a.K".to_string();
    class.composition.push(Box::new(inner));
    let mut diagnostics = Vec::new();
    class.retrieve_package(&declaration, Standing::TopLevel, &mut diagnostics);
    assert_eq!(class.package, "c.d");
    assert_eq!(class.composition[0].package, "a.K");
    assert!(diagnostics.is_empty());
}

#[test]
fn class_joins_in_the_package_of_the_moment() {
    let text = "package a.b; class A { class B { } } package c.d; class C { }";
    let package = |start: usize| {
        named(
            "package_declaration",
            start,
            start + 12,
            vec![named("scoped_identifier", start + 8, start + 11, vec![])],
        )
    };
    let class = |start: usize, end: usize, body: Vec<SyntaxNode>| {
        named(
            "class_declaration",
            start,
            end,
            vec![
                named("identifier", start + 6, start + 7, vec![]),
                named("class_body", start + 8, end, body),
            ],
        )
    };
    let root = named(
        "program",
        0,
        61,
        vec![
            package(0),
            class(13, 36, vec![class(23, 34, vec![])]),
            package(37),
            class(50, 61, vec![]),
        ],
    );
    assert!(root.fits(text));
    let (outer, _) = JavaClass::new_from_tree(&root, text);
    let outer = outer.unwrap();
    assert_eq!(outer.package, "c.d");
    assert_eq!(outer.name, Some("A".to_string()));
    let made_in: Vec<&str> = outer.composition.iter().map(|c| c.package.as_str()).collect();
    assert_eq!(made_in, vec!["a.b.A", "c.d.A"]);
}

#[test]
fn nested_class_keeps_its_package() {
    let text = "class A { class B { package x.y; } }";
    let declaration = named(
        "package_declaration",
        20,
        32,
        vec![named("scoped_identifier", 28, 31, vec![])],
    );
    let inner = named(
        "class_declaration",
        10,
        34,
        vec![
            named("identifier", 16, 17, vec![]),
            named("class_body", 18, 34, vec![declaration]),
        ],
    );
    let outer = named(
        "class_declaration",
        0,
        36,
        vec![named("identifier", 6, 7, vec![]), named("class_body", 8, 36, vec![inner])],
    );
    let (class, _) = JavaClass::new_from_tree(&outer, text);
    let class = class.unwrap();
    assert_eq!(class.composition[0].package, ".A");
}

#[test]
fn unknown_child_of_an_implements_clause_is_reported() {
    let text = "implements I ?";
    let clause = named(
        "super_interfaces",
        0,
        14,
        vec![
            named("implements", 0, 10, vec![]),
            named(
                "type_list",
                11,
                12,
                vec![token(",", 11, 11), named("type_identifier", 11, 12, vec![])],
            ),
            named("wild", 13, 14, vec![]),
        ],
    );
    let mut class = JavaClass::new(text);
    class.implements.push("H".to_string());
    let mut diagnostics = Vec::new();
    class.retrieve_interfaces(&clause, &mut diagnostics);
    assert_eq!(class.implements, vec!["H".to_string(), "I".to_string()]);
    assert_eq!(
        diagnostics,
        vec![Diagnostic {
            scope: Scope::Interfaces,
            kind: "wild".to_string(),
            phrase: "?".to_string(),
        }]
    );
}

#[test]
fn match_grammar_says_which_nodes_to_enter() {
    let text = "{}";
    let mut class = JavaClass::new(text);
    let mut diagnostics = Vec::new();
    let enter = ["program", "class_declaration", "class_body"];
    let pass = [
        "package_declaration",
        "import_declaration",
        ";",
        "{",
        "}",
        "line_comment",
        "block_comment",
        "class",
        "modifiers",
        "identifier",
        "super_interfaces",
        "method_declaration",
    ];
    for kind in enter {
        let node = named(kind, 0, 2, vec![]);
        assert_eq!(class.match_grammar(&node, Standing::TopLevel, &mut diagnostics), Ok(true));
    }
    for kind in pass {
        let node = named(kind, 0, 2, vec![]);
        assert_eq!(class.match_grammar(&node, Standing::TopLevel, &mut diagnostics), Ok(false));
    }
    assert!(diagnostics.is_empty());
    assert_eq!(class, JavaClass::new(text));
    for kind in [",", "scoped_identifier", "asterisk", "type_list", "package", "block"] {
        let node = named(kind, 0, 2, vec![]);
        assert_eq!(class.match_grammar(&node, Standing::TopLevel, &mut diagnostics), Ok(false));
        let last = diagnostics.last().unwrap();
        assert_eq!((last.scope, last.kind.as_str(), last.phrase.as_str()), (Scope::Dispatch, kind, "{}"));
    }
    assert_eq!(diagnostics.len(), 6);
}

#[test]
fn nodes_are_walked_in_source_order_and_once() {
    let text = "abcdefgh";
    let leaf = |i: usize| named("wild", i, i + 1, vec![]);
    let root = named(
        "program",
        0,
        8,
        vec![
            leaf(0),
            named("class_body", 1, 4, vec![leaf(1), named("class_body", 2, 3, vec![leaf(2)]), leaf(3)]),
            named("method_declaration", 4, 6, vec![leaf(4), leaf(5)]),
            leaf(6),
            named("wilder", 7, 8, vec![leaf(7)]),
        ],
    );
    let mut class = JavaClass::new(text);
    let mut diagnostics = Vec::new();
    assert_eq!(class.recursive_search(&root, Standing::TopLevel, &mut diagnostics), Ok(()));
    let seen: Vec<&str> = diagnostics.iter().map(|d| d.phrase.as_str()).collect();
    assert_eq!(seen, vec!["a", "b", "c", "d", "g", "h"]);
    assert_eq!(class, JavaClass::new(text));
}
