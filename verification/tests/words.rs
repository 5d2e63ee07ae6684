use java_class_model::grammar::{classify, enters, looks_below, Label};
use java_class_model::model::{Field, FieldData, JavaType};
use java_class_model::report::{Diagnostic, Scope};
use java_class_model::sources::{directory_from, java_pattern};
use java_class_model::text::{can_slice, same_text, slice_text};

#[test]
fn same_text_compares_characters() {
    assert!(same_text("", ""));
    assert!(same_text("class_body", "class_body"));
    assert!(!same_text("class_body", "class_bodY"));
    assert!(!same_text("class", "class_body"));
    assert!(!same_text("class_body", "class"));
    assert!(same_text("é", "\u{e9}"));
    assert!(!same_text("é", "e"));
}

#[test]
fn ranges_resolve_on_character_boundaries_only() {
    let text = "aé€b";
    assert!(can_slice(text, 0, 0));
    assert!(can_slice(text, 0, 7));
    assert!(can_slice(text, 7, 7));
    assert!(can_slice(text, 1, 3));
    assert!(can_slice(text, 3, 6));
    assert!(!can_slice(text, 2, 3));
    assert!(!can_slice(text, 1, 2));
    assert!(!can_slice(text, 3, 5));
    assert!(!can_slice(text, 4, 4));
    assert!(!can_slice(text, 0, 8));
    assert!(!can_slice(text, 3, 1));
    assert!(!can_slice(text, 8, 8));
}

#[test]
fn slices_are_the_characters_of_the_range() {
    let text = "aé€b";
    assert_eq!(slice_text(text, 0, 7), "aé€b");
    assert_eq!(slice_text(text, 1, 3), "é");
    assert_eq!(slice_text(text, 3, 6), "€");
    assert_eq!(slice_text(text, 1, 6), "é€");
    assert_eq!(slice_text(text, 6, 7), "b");
    assert_eq!(slice_text(text, 3, 3), "");
    assert_eq!(slice_text(text, 7, 7), "");
}

#[test]
fn labels_are_classified() {
    let known = [
        ("program", Label::Program),
        ("package_declaration", Label::PackageDeclaration),
        ("import_declaration", Label::ImportDeclaration),
        ("class_declaration", Label::ClassDeclaration),
        (";", Label::Punctuation),
        ("{", Label::Punctuation),
        ("}", Label::Punctuation),
        (",", Label::Comma),
        ("line_comment", Label::Comment),
        ("block_comment", Label::Comment),
        ("class", Label::ClassKeyword),
        ("modifiers", Label::Modifiers),
        ("identifier", Label::Identifier),
        ("class_body", Label::ClassBody),
        ("super_interfaces", Label::SuperInterfaces),
        ("method_declaration", Label::MethodDeclaration),
        ("field_declaration", Label::FieldDeclaration),
        ("package", Label::PackageKeyword),
        ("import", Label::ImportKeyword),
        ("implements", Label::ImplementsKeyword),
        ("scoped_identifier", Label::ScopedIdentifier),
        ("asterisk", Label::Asterisk),
        ("integral_type", Label::IntegralType),
        ("type_identifier", Label::TypeIdentifier),
        ("generic_type", Label::GenericType),
        ("variable_declarator", Label::VariableDeclarator),
        ("type_list", Label::TypeList),
    ];
    for (kind, label) in known {
        assert_eq!(classify(kind), label);
    }
    for kind in ["", "Program", "program ", "annotation", "enum_declaration", "*", "."] {
        assert_eq!(classify(kind), Label::Unrecognized);
    }
}

#[test]
fn three_categories_are_entered() {
    assert!(enters(Label::Program));
    assert!(enters(Label::ClassDeclaration));
    assert!(enters(Label::ClassBody));
    for label in [
        Label::PackageDeclaration,
        Label::ImportDeclaration,
        Label::Punctuation,
        Label::Comma,
        Label::Comment,
        Label::ClassKeyword,
        Label::Modifiers,
        Label::Identifier,
        Label::SuperInterfaces,
        Label::MethodDeclaration,
        Label::FieldDeclaration,
        Label::PackageKeyword,
        Label::ImportKeyword,
        Label::ImplementsKeyword,
        Label::ScopedIdentifier,
        Label::Asterisk,
        Label::IntegralType,
        Label::TypeIdentifier,
        Label::GenericType,
        Label::VariableDeclarator,
        Label::TypeList,
        Label::Unrecognized,
    ] {
        assert!(!enters(label));
    }
}

#[test]
fn eight_categories_have_their_children_read() {
    let read = [
        Label::Program,
        Label::ClassDeclaration,
        Label::ClassBody,
        Label::PackageDeclaration,
        Label::ImportDeclaration,
        Label::SuperInterfaces,
        Label::FieldDeclaration,
        Label::TypeList,
    ];
    for label in read {
        assert!(looks_below(label));
    }
    for label in [
        Label::Punctuation,
        Label::Comma,
        Label::Comment,
        Label::ClassKeyword,
        Label::Modifiers,
        Label::Identifier,
        Label::MethodDeclaration,
        Label::PackageKeyword,
        Label::ImportKeyword,
        Label::ImplementsKeyword,
        Label::ScopedIdentifier,
        Label::Asterisk,
        Label::IntegralType,
        Label::TypeIdentifier,
        Label::GenericType,
        Label::VariableDeclarator,
        Label::Unrecognized,
    ] {
        assert!(!looks_below(label));
    }
}

#[test]
fn field_data_expands_to_one_field_per_name() {
    let data = FieldData {
        java_type: Some(JavaType::GenericType("Map<K, V>".to_string())),
        fields: vec!["m".to_string(), "n".to_string()],
    };
    assert_eq!(
        data.into(),
        vec![
            Field { java_type: JavaType::GenericType("Map<K, V>".to_string()), field: "m".to_string() },
            Field { java_type: JavaType::GenericType("Map<K, V>".to_string()), field: "n".to_string() },
        ]
    );
    let none = FieldData { java_type: Some(JavaType::IntegralType("int".to_string())), fields: vec![] };
    assert_eq!(none.into(), vec![]);
}

#[test]
fn duplicate_keeps_kind_and_text() {
    for java_type in [
        JavaType::IntegralType("int".to_string()),
        JavaType::IdentifiedType("int".to_string()),
        JavaType::GenericType("G<int>".to_string()),
    ] {
        assert_eq!(java_type.duplicate(), java_type);
    }
}

#[test]
fn directory_comes_from_the_arguments() {
    let args = |n: usize| -> Vec<String> { (0..n).map(|i| format!("arg{}", i)).collect() };
    assert_eq!(directory_from(&args(0)), None);
    assert_eq!(directory_from(&args(1)), Some(".".to_string()));
    assert_eq!(directory_from(&args(2)), Some("arg1".to_string()));
    assert_eq!(directory_from(&args(3)), None);
}

#[test]
fn pattern_reaches_every_depth() {
    assert_eq!(java_pattern("."), "./**/*.java");
    assert_eq!(java_pattern("src/main"), "src/main/**/*.java");
    assert_eq!(java_pattern(""), "/**/*.java");
}

#[test]
fn diagnostic_lines_name_their_scope() {
    let line = |scope: Scope| {
        Diagnostic { scope, kind: "wild".to_string(), phrase: "a b".to_string() }.line()
    };
    assert_eq!(line(Scope::Dispatch), "wild : a b");
    assert_eq!(line(Scope::Package), "package: wild : a b");
    assert_eq!(line(Scope::ClassName), "class_name: wild : a b");
    assert_eq!(line(Scope::Import), "import: wild : a b");
    assert_eq!(line(Scope::Field), "field: wild : a b");
    assert_eq!(line(Scope::Interfaces), "wild : a b");
}
