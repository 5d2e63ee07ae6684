use java_class_model::model::{Field, JavaClass, JavaType};
use java_class_model::parser::syntax_tree;
use java_class_model::render::convert_to_dot;

struct Shown<'a>(&'a JavaClass);

impl std::fmt::Debug for Shown<'_> {
    fn fmt(&self, f: &mut std::fmt::Formatter<'_>) -> std::fmt::Result {
        let composition: Vec<Shown> = self.0.composition.iter().map(|c| Shown(c)).collect();
        f.debug_struct("JavaClass")
            .field("package", &self.0.package)
            .field("name", &self.0.name)
            .field("superclass", &self.0.superclass)
            .field("implements", &self.0.implements)
            .field("fields", &self.0.fields)
            .field("composition", &composition)
            .field("dependencies", &self.0.imports)
            .finish()
    }
}

fn built_in(classes: &Vec<JavaClass>) -> String {
    let shown: Vec<Shown> = classes.iter().map(Shown).collect();
    format!("{:#?}", shown)
}

fn class_of(text: &str) -> JavaClass {
    let root = syntax_tree(text).unwrap();
    JavaClass::new_from_tree(&root, text).0.unwrap()
}

#[test]
fn no_classes_render_as_an_empty_list() {
    assert_eq!(convert_to_dot(&vec![]), "[]");
}

#[test]
fn blank_class_renders_line_by_line() {
    let expected = "[
    JavaClass {
        package: \"\",
        name: None,
        superclass: None,
        implements: [],
        fields: [],
        composition: [],
        dependencies: [],
    },
]";
    assert_eq!(convert_to_dot(&vec![JavaClass::new("class C { }")]), expected);
}

#[test]
fn single_class_renders_on_its_own() {
    let expected = "JavaClass {
    package: \"a.b\",
    name: Some(
        \"C\",
    ),
    superclass: None,
    implements: [],
    fields: [
        Field {
            java_type: IntegralType(
                \"int\",
            ),
            field: \"x\",
        },
    ],
    composition: [],
    dependencies: [],
}";
    assert_eq!(class_of("package a.b; class C { int x; }").render(), expected);
}

#[test]
fn rendering_agrees_with_the_built_in_formatter() {
    let classes = vec![
        class_of("package a.b; class C { int x; }"),
        class_of(
            "package p; import java.util.*; import q.R;
             class A implements I, J<K> { long n, m; String s; List<A> l;
               class B { class C { int deep; } }
               class D { }
             }",
        ),
        JavaClass::new(""),
    ];
    assert_eq!(convert_to_dot(&classes), built_in(&classes));
}

#[test]
fn special_characters_are_escaped() {
    let mut class = JavaClass::new("");
    class.package = "a\"b\\c\nd\te'f\u{0}g\u{301}h\u{1f600}".to_string();
    class.name = Some("\r\u{7f}".to_string());
    class.superclass = Some("plain".to_string());
    class.implements = vec!["\"".to_string(), "".to_string()];
    class.imports = vec!["a\n.*".to_string()];
    class.fields = vec![Field {
        java_type: JavaType::IdentifiedType("Ty\tpe".to_string()),
        field: "na\\me".to_string(),
    }];
    let mut inner = JavaClass::new("");
    inner.name = Some("\u{e9}".to_string());
    class.composition.push(Box::new(inner));
    let classes = vec![class];
    let text = convert_to_dot(&classes);
    assert_eq!(text, built_in(&classes));
    assert!(text.contains("package: \"a\\\"b\\\\c\\nd\\te'f\\0g\\u{301}h\u{1f600}\","));
    assert_eq!(classes[0].render(), format!("{:#?}", Shown(&classes[0])));
}

#[test]
fn single_class_renders_on_one_line() {
    let expected = "JavaClass { package: \"a.b\", name: Some(\"C\"), superclass: None, \
        implements: [], fields: [Field { java_type: IntegralType(\"int\"), field: \"x\" }], \
        composition: [], dependencies: [] }";
    assert_eq!(class_of("package a.b; class C { int x; }").render_line(), expected);
}

#[test]
fn one_line_rendering_agrees_with_the_built_in_formatter() {
    let mut odd = JavaClass::new("");
    odd.package = "a\"b\\c\nd".to_string();
    odd.superclass = Some("S\t".to_string());
    odd.implements = vec!["".to_string()];
    let classes = vec![
        class_of("package a.b; class C { int x; }"),
        class_of(
            "package p; import java.util.*; import q.R;
             class A implements I, J<K> { long n, m; String s; List<A> l;
               class B { class C { int deep; } }
               class D { }
             }",
        ),
        JavaClass::new("ignored"),
        odd,
    ];
    for class in &classes {
        assert_eq!(class.render_line(), format!("{:?}", Shown(class)));
    }
}
