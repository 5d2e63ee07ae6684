//! The class models as text, indented or on one line.
//!
//! A class is written as a record of its parts; a list is written in square
//! brackets; a text is written in double quotes with its special characters
//! escaped. The source text of a class is left out, and its imports go by
//! the name `dependencies`. In the indented form each part and each item
//! has a line of its own, each level of nesting indented by four spaces
//! more. In the form on one line parts and items are separated by a comma
//! and a space.

use vstd::prelude::*;
use vstd::string::*;
use crate::model::{
    class_views,
    field_views,
    lemma_class_views,
    text_opt,
    texts,
    ClassView,
    Field,
    FieldView,
    JavaClass,
    JavaType,
    TypeView,
};

verus! {

/// A text as Rust writes it for debugging: in double quotes, with the
/// characters escaped that a string literal cannot hold as they are.
pub uninterp spec fn debug_text(s: Seq<char>) -> Seq<char>;

/// `format!` with `{:?}` on a string slice, which is `<str as Debug>::fmt`:
/// the text in double quotes, escaped. The result depends on the text
/// alone.
#[verifier::external_body]
fn quote(s: &str) -> (quoted: String)
    ensures
        quoted@ == debug_text(s@),
{
    format!("{:?}", s)
}

/// One level of indentation.
pub open spec fn step() -> Seq<char> {
    "    "@
}

/// An optional text, at the indentation `indent`.
pub open spec fn option_text(value: Option<Seq<char>>, indent: Seq<char>) -> Seq<char> {
    match value {
        None => "None"@,
        Some(s) => "Some(\n"@ + indent + step() + debug_text(s) + ",\n"@ + indent + ")"@,
    }
}

/// The lines of a list of texts, each at the indentation `indent`.
pub open spec fn string_lines(values: Seq<Seq<char>>, indent: Seq<char>) -> Seq<char>
    decreases values.len(),
{
    if values.len() == 0 {
        Seq::empty()
    } else {
        string_lines(values.drop_last(), indent) + indent + debug_text(values.last()) + ",\n"@
    }
}

/// A list of texts, at the indentation `indent`.
pub open spec fn strings_text(values: Seq<Seq<char>>, indent: Seq<char>) -> Seq<char> {
    if values.len() == 0 {
        "[]"@
    } else {
        "[\n"@ + string_lines(values, indent + step()) + indent + "]"@
    }
}

/// The name of the kind of a declared type.
pub open spec fn type_tag(java_type: TypeView) -> Seq<char> {
    match java_type {
        TypeView::IntegralType(_) => "IntegralType"@,
        TypeView::IdentifiedType(_) => "IdentifiedType"@,
        TypeView::GenericType(_) => "GenericType"@,
    }
}

/// The text of a declared type as the source has it.
pub open spec fn written_type(java_type: TypeView) -> Seq<char> {
    match java_type {
        TypeView::IntegralType(s) => s,
        TypeView::IdentifiedType(s) => s,
        TypeView::GenericType(s) => s,
    }
}

/// A declared type, at the indentation `indent`.
pub open spec fn type_text(java_type: TypeView, indent: Seq<char>) -> Seq<char> {
    type_tag(java_type) + "(\n"@ + indent + step() + debug_text(written_type(java_type)) + ",\n"@
        + indent + ")"@
}

/// A field, at the indentation `indent`.
pub open spec fn field_text(field: FieldView, indent: Seq<char>) -> Seq<char> {
    "Field {\n"@ + indent + step() + "java_type: "@ + type_text(field.java_type, indent + step())
        + ",\n"@ + indent + step() + "field: "@ + debug_text(field.field) + ",\n"@ + indent + "}"@
}

/// The lines of a list of fields, each at the indentation `indent`.
pub open spec fn field_lines(fields: Seq<FieldView>, indent: Seq<char>) -> Seq<char>
    decreases fields.len(),
{
    if fields.len() == 0 {
        Seq::empty()
    } else {
        field_lines(fields.drop_last(), indent) + indent + field_text(fields.last(), indent)
            + ",\n"@
    }
}

/// A list of fields, at the indentation `indent`.
pub open spec fn fields_text(fields: Seq<FieldView>, indent: Seq<char>) -> Seq<char> {
    if fields.len() == 0 {
        "[]"@
    } else {
        "[\n"@ + field_lines(fields, indent + step()) + indent + "]"@
    }
}

/// A class, at the indentation `indent`.
pub open spec fn class_text(class: ClassView, indent: Seq<char>) -> Seq<char>
    decreases class, 2int,
{
    let inner = indent + step();
    "JavaClass {\n"@ + inner + "package: "@ + debug_text(class.package) + ",\n"@ + inner
        + "name: "@ + option_text(class.name, inner) + ",\n"@ + inner + "superclass: "@
        + option_text(class.superclass, inner) + ",\n"@ + inner + "implements: "@ + strings_text(
        class.implements,
        inner,
    ) + ",\n"@ + inner + "fields: "@ + fields_text(class.fields, inner) + ",\n"@ + inner
        + "composition: "@ + classes_text(class.composition, inner) + ",\n"@ + inner
        + "dependencies: "@ + strings_text(class.imports, inner) + ",\n"@ + indent + "}"@
}

/// The lines of a list of classes, each at the indentation `indent`.
pub open spec fn class_lines(classes: Seq<ClassView>, indent: Seq<char>) -> Seq<char>
    decreases classes, 0int,
{
    if classes.len() == 0 {
        Seq::empty()
    } else {
        class_lines(classes.drop_last(), indent) + indent + class_text(classes.last(), indent)
            + ",\n"@
    }
}

/// A list of classes, at the indentation `indent`.
pub open spec fn classes_text(classes: Seq<ClassView>, indent: Seq<char>) -> Seq<char>
    decreases classes, 1int,
{
    if classes.len() == 0 {
        "[]"@
    } else {
        "[\n"@ + class_lines(classes, indent + step()) + indent + "]"@
    }
}

/// The mathematical values of a run of classes.
pub open spec fn all_views(classes: Seq<JavaClass>) -> Seq<ClassView> {
    classes.map_values(|c: JavaClass| c@)
}

fn render_option(value: &Option<String>, indent: &str) -> (out: String)
    ensures
        out@ == option_text(text_opt(*value), indent@),
{
    match value {
        None => "None".to_owned(),
        Some(s) => {
            let mut out = "Some(\n".to_owned();
            out.append(indent);
            out.append("    ");
            out.append(quote(s.as_str()).as_str());
            out.append(",\n");
            out.append(indent);
            out.append(")");
            out
        },
    }
}

fn render_strings(values: &Vec<String>, indent: &str) -> (out: String)
    ensures
        out@ == strings_text(texts(values@), indent@),
{
    if values.len() == 0 {
        return "[]".to_owned();
    }
    let inner = indent.to_owned().concat("    ");
    let mut lines = String::new();
    let mut i: usize = 0;
    assert(texts(values@).take(0) == Seq::<Seq<char>>::empty());
    while i < values.len()
        invariant
            i <= values@.len(),
            lines@ == string_lines(texts(values@).take(i as int), inner@),
        decreases values@.len() - i,
    {
        proof {
            let before = texts(values@).take(i as int);
            let now = texts(values@).take(i + 1);
            assert(now.drop_last() == before);
            assert(now.last() == values@[i as int]@);
        }
        lines.append(inner.as_str());
        lines.append(quote(values[i].as_str()).as_str());
        lines.append(",\n");
        i += 1;
    }
    assert(texts(values@).take(values@.len() as int) == texts(values@));
    let mut out = "[\n".to_owned();
    out.append(lines.as_str());
    out.append(indent);
    out.append("]");
    out
}

fn render_type(java_type: &JavaType, indent: &str) -> (out: String)
    ensures
        out@ == type_text(java_type@, indent@),
{
    let (mut out, name) = match java_type {
        JavaType::IntegralType(s) => ("IntegralType".to_owned(), s),
        JavaType::IdentifiedType(s) => ("IdentifiedType".to_owned(), s),
        JavaType::GenericType(s) => ("GenericType".to_owned(), s),
    };
    out.append("(\n");
    out.append(indent);
    out.append("    ");
    out.append(quote(name.as_str()).as_str());
    out.append(",\n");
    out.append(indent);
    out.append(")");
    out
}

fn render_field(field: &Field, indent: &str) -> (out: String)
    ensures
        out@ == field_text(field@, indent@),
{
    let inner = indent.to_owned().concat("    ");
    let mut out = "Field {\n".to_owned();
    out.append(indent);
    out.append("    ");
    out.append("java_type: ");
    out.append(render_type(&field.java_type, inner.as_str()).as_str());
    out.append(",\n");
    out.append(indent);
    out.append("    ");
    out.append("field: ");
    out.append(quote(field.field.as_str()).as_str());
    out.append(",\n");
    out.append(indent);
    out.append("}");
    out
}

fn render_fields(fields: &Vec<Field>, indent: &str) -> (out: String)
    ensures
        out@ == fields_text(field_views(fields@), indent@),
{
    if fields.len() == 0 {
        return "[]".to_owned();
    }
    let inner = indent.to_owned().concat("    ");
    let mut lines = String::new();
    let mut i: usize = 0;
    assert(field_views(fields@).take(0) == Seq::<FieldView>::empty());
    while i < fields.len()
        invariant
            i <= fields@.len(),
            lines@ == field_lines(field_views(fields@).take(i as int), inner@),
        decreases fields@.len() - i,
    {
        proof {
            let before = field_views(fields@).take(i as int);
            let now = field_views(fields@).take(i + 1);
            assert(now.drop_last() == before);
            assert(now.last() == fields@[i as int]@);
        }
        lines.append(inner.as_str());
        lines.append(render_field(&fields[i], inner.as_str()).as_str());
        lines.append(",\n");
        i += 1;
    }
    assert(field_views(fields@).take(fields@.len() as int) == field_views(fields@));
    let mut out = "[\n".to_owned();
    out.append(lines.as_str());
    out.append(indent);
    out.append("]");
    out
}

fn render_composition(classes: &Vec<Box<JavaClass>>, indent: &str) -> (out: String)
    ensures
        out@ == classes_text(class_views(classes@), indent@),
    decreases classes,
{
    proof {
        lemma_class_views(classes@);
    }
    if classes.len() == 0 {
        return "[]".to_owned();
    }
    let inner = indent.to_owned().concat("    ");
    let mut lines = String::new();
    let mut i: usize = 0;
    assert(class_views(classes@).take(0) == Seq::<ClassView>::empty());
    while i < classes.len()
        invariant
            i <= classes@.len(),
            class_views(classes@).len() == classes@.len(),
            forall|k: int|
                0 <= k < classes@.len() ==> (#[trigger] class_views(classes@)[k]) == classes@[k]@,
            lines@ == class_lines(class_views(classes@).take(i as int), inner@),
        decreases classes@.len() - i,
    {
        proof {
            let before = class_views(classes@).take(i as int);
            let now = class_views(classes@).take(i + 1);
            assert(now.drop_last() == before);
            assert(now.last() == classes@[i as int]@);
        }
        lines.append(inner.as_str());
        lines.append(classes[i].render_at(inner.as_str()).as_str());
        lines.append(",\n");
        i += 1;
    }
    assert(class_views(classes@).take(classes@.len() as int) == class_views(classes@));
    let mut out = "[\n".to_owned();
    out.append(lines.as_str());
    out.append(indent);
    out.append("]");
    out
}

impl JavaClass {
    /// This class as indented text, at the indentation `indent`.
    fn render_at(&self, indent: &str) -> (out: String)
        ensures
            out@ == class_text(self@, indent@),
        decreases self,
    {
        let inner = indent.to_owned().concat("    ");
        let mut out = "JavaClass {\n".to_owned();
        out.append(inner.as_str());
        out.append("package: ");
        out.append(quote(self.package.as_str()).as_str());
        out.append(",\n");
        out.append(inner.as_str());
        out.append("name: ");
        out.append(render_option(&self.name, inner.as_str()).as_str());
        out.append(",\n");
        out.append(inner.as_str());
        out.append("superclass: ");
        out.append(render_option(&self.superclass, inner.as_str()).as_str());
        out.append(",\n");
        out.append(inner.as_str());
        out.append("implements: ");
        out.append(render_strings(&self.implements, inner.as_str()).as_str());
        out.append(",\n");
        out.append(inner.as_str());
        out.append("fields: ");
        out.append(render_fields(&self.fields, inner.as_str()).as_str());
        out.append(",\n");
        out.append(inner.as_str());
        out.append("composition: ");
        out.append(render_composition(&self.composition, inner.as_str()).as_str());
        out.append(",\n");
        out.append(inner.as_str());
        out.append("dependencies: ");
        out.append(render_strings(&self.imports, inner.as_str()).as_str());
        out.append(",\n");
        out.append(indent);
        out.append("}");
        out
    }

    /// This class as indented text.
    pub fn render(&self) -> (out: String)
        ensures
            out@ == class_text(self@, Seq::empty()),
    {
        proof {
            reveal_strlit("");
            assert(""@ == Seq::<char>::empty());
        }
        self.render_at("")
    }
}

// On one line

/// What stands before the next item of a list on one line: the items so
/// far, and a separator if there are any.
pub open spec fn and_then(items: Seq<char>, count: nat) -> Seq<char> {
    if count == 0 {
        items
    } else {
        items + ", "@
    }
}

/// An optional text on one line.
pub open spec fn option_line(value: Option<Seq<char>>) -> Seq<char> {
    match value {
        None => "None"@,
        Some(s) => "Some("@ + debug_text(s) + ")"@,
    }
}

/// The items of a list of texts on one line.
pub open spec fn string_items(values: Seq<Seq<char>>) -> Seq<char>
    decreases values.len(),
{
    if values.len() == 0 {
        Seq::empty()
    } else {
        and_then(string_items(values.drop_last()), values.drop_last().len()) + debug_text(
            values.last(),
        )
    }
}

/// A list of texts on one line.
pub open spec fn strings_line(values: Seq<Seq<char>>) -> Seq<char> {
    "["@ + string_items(values) + "]"@
}

/// A declared type on one line.
pub open spec fn type_line(java_type: TypeView) -> Seq<char> {
    type_tag(java_type) + "("@ + debug_text(written_type(java_type)) + ")"@
}

/// A field on one line.
pub open spec fn field_line(field: FieldView) -> Seq<char> {
    "Field { java_type: "@ + type_line(field.java_type) + ", field: "@ + debug_text(field.field)
        + " }"@
}

/// The items of a list of fields on one line.
pub open spec fn field_items(fields: Seq<FieldView>) -> Seq<char>
    decreases fields.len(),
{
    if fields.len() == 0 {
        Seq::empty()
    } else {
        and_then(field_items(fields.drop_last()), fields.drop_last().len()) + field_line(
            fields.last(),
        )
    }
}

/// A list of fields on one line.
pub open spec fn fields_line(fields: Seq<FieldView>) -> Seq<char> {
    "["@ + field_items(fields) + "]"@
}

/// A class on one line.
pub open spec fn class_line(class: ClassView) -> Seq<char>
    decreases class, 2int,
{
    "JavaClass { package: "@ + debug_text(class.package) + ", name: "@ + option_line(class.name)
        + ", superclass: "@ + option_line(class.superclass) + ", implements: "@ + strings_line(
        class.implements,
    ) + ", fields: "@ + fields_line(class.fields) + ", composition: "@ + classes_line(
        class.composition,
    ) + ", dependencies: "@ + strings_line(class.imports) + " }"@
}

/// The items of a list of classes on one line.
pub open spec fn class_items(classes: Seq<ClassView>) -> Seq<char>
    decreases classes, 0int,
{
    if classes.len() == 0 {
        Seq::empty()
    } else {
        and_then(class_items(classes.drop_last()), classes.drop_last().len()) + class_line(
            classes.last(),
        )
    }
}

/// A list of classes on one line.
pub open spec fn classes_line(classes: Seq<ClassView>) -> Seq<char>
    decreases classes, 1int,
{
    "["@ + class_items(classes) + "]"@
}

fn line_option(value: &Option<String>) -> (out: String)
    ensures
        out@ == option_line(text_opt(*value)),
{
    match value {
        None => "None".to_owned(),
        Some(s) => {
            let mut out = "Some(".to_owned();
            out.append(quote(s.as_str()).as_str());
            out.append(")");
            out
        },
    }
}

fn line_strings(values: &Vec<String>) -> (out: String)
    ensures
        out@ == strings_line(texts(values@)),
{
    let mut items = String::new();
    let mut i: usize = 0;
    assert(texts(values@).take(0) == Seq::<Seq<char>>::empty());
    while i < values.len()
        invariant
            i <= values@.len(),
            items@ == string_items(texts(values@).take(i as int)),
        decreases values@.len() - i,
    {
        proof {
            let before = texts(values@).take(i as int);
            let now = texts(values@).take(i + 1);
            assert(now.drop_last() == before);
            assert(now.last() == values@[i as int]@);
        }
        if i > 0 {
            items.append(", ");
        }
        items.append(quote(values[i].as_str()).as_str());
        i += 1;
    }
    assert(texts(values@).take(values@.len() as int) == texts(values@));
    let mut out = "[".to_owned();
    out.append(items.as_str());
    out.append("]");
    out
}

fn line_type(java_type: &JavaType) -> (out: String)
    ensures
        out@ == type_line(java_type@),
{
    let (mut out, name) = match java_type {
        JavaType::IntegralType(s) => ("IntegralType".to_owned(), s),
        JavaType::IdentifiedType(s) => ("IdentifiedType".to_owned(), s),
        JavaType::GenericType(s) => ("GenericType".to_owned(), s),
    };
    out.append("(");
    out.append(quote(name.as_str()).as_str());
    out.append(")");
    out
}

fn line_field(field: &Field) -> (out: String)
    ensures
        out@ == field_line(field@),
{
    let mut out = "Field { java_type: ".to_owned();
    out.append(line_type(&field.java_type).as_str());
    out.append(", field: ");
    out.append(quote(field.field.as_str()).as_str());
    out.append(" }");
    out
}

fn line_fields(fields: &Vec<Field>) -> (out: String)
    ensures
        out@ == fields_line(field_views(fields@)),
{
    let mut items = String::new();
    let mut i: usize = 0;
    assert(field_views(fields@).take(0) == Seq::<FieldView>::empty());
    while i < fields.len()
        invariant
            i <= fields@.len(),
            items@ == field_items(field_views(fields@).take(i as int)),
        decreases fields@.len() - i,
    {
        proof {
            let before = field_views(fields@).take(i as int);
            let now = field_views(fields@).take(i + 1);
            assert(now.drop_last() == before);
            assert(now.last() == fields@[i as int]@);
        }
        if i > 0 {
            items.append(", ");
        }
        items.append(line_field(&fields[i]).as_str());
        i += 1;
    }
    assert(field_views(fields@).take(fields@.len() as int) == field_views(fields@));
    let mut out = "[".to_owned();
    out.append(items.as_str());
    out.append("]");
    out
}

fn line_composition(classes: &Vec<Box<JavaClass>>) -> (out: String)
    ensures
        out@ == classes_line(class_views(classes@)),
    decreases classes,
{
    proof {
        lemma_class_views(classes@);
    }
    let mut items = String::new();
    let mut i: usize = 0;
    assert(class_views(classes@).take(0) == Seq::<ClassView>::empty());
    while i < classes.len()
        invariant
            i <= classes@.len(),
            class_views(classes@).len() == classes@.len(),
            forall|k: int|
                0 <= k < classes@.len() ==> (#[trigger] class_views(classes@)[k]) == classes@[k]@,
            items@ == class_items(class_views(classes@).take(i as int)),
        decreases classes@.len() - i,
    {
        proof {
            let before = class_views(classes@).take(i as int);
            let now = class_views(classes@).take(i + 1);
            assert(now.drop_last() == before);
            assert(now.last() == classes@[i as int]@);
        }
        if i > 0 {
            items.append(", ");
        }
        items.append(classes[i].render_line().as_str());
        i += 1;
    }
    assert(class_views(classes@).take(classes@.len() as int) == class_views(classes@));
    let mut out = "[".to_owned();
    out.append(items.as_str());
    out.append("]");
    out
}

impl JavaClass {
    /// This class as text on one line.
    pub fn render_line(&self) -> (out: String)
        ensures
            out@ == class_line(self@),
        decreases self,
    {
        let mut out = "JavaClass { package: ".to_owned();
        out.append(quote(self.package.as_str()).as_str());
        out.append(", name: ");
        out.append(line_option(&self.name).as_str());
        out.append(", superclass: ");
        out.append(line_option(&self.superclass).as_str());
        out.append(", implements: ");
        out.append(line_strings(&self.implements).as_str());
        out.append(", fields: ");
        out.append(line_fields(&self.fields).as_str());
        out.append(", composition: ");
        out.append(line_composition(&self.composition).as_str());
        out.append(", dependencies: ");
        out.append(line_strings(&self.imports).as_str());
        out.append(" }");
        out
    }
}

/// A list of classes as indented text, at the indentation `indent`.
fn render_classes(classes: &Vec<JavaClass>, indent: &str) -> (out: String)
    ensures
        out@ == classes_text(all_views(classes@), indent@),
{
    if classes.len() == 0 {
        return "[]".to_owned();
    }
    let inner = indent.to_owned().concat("    ");
    let mut lines = String::new();
    let mut i: usize = 0;
    assert(all_views(classes@).take(0) == Seq::<ClassView>::empty());
    while i < classes.len()
        invariant
            i <= classes@.len(),
            lines@ == class_lines(all_views(classes@).take(i as int), inner@),
        decreases classes@.len() - i,
    {
        proof {
            let before = all_views(classes@).take(i as int);
            let now = all_views(classes@).take(i + 1);
            assert(now.drop_last() == before);
            assert(now.last() == classes@[i as int]@);
        }
        lines.append(inner.as_str());
        lines.append(classes[i].render_at(inner.as_str()).as_str());
        lines.append(",\n");
        i += 1;
    }
    assert(all_views(classes@).take(classes@.len() as int) == all_views(classes@));
    let mut out = "[\n".to_owned();
    out.append(lines.as_str());
    out.append(indent);
    out.append("]");
    out
}

/// The class models as indented text, in a list.
pub fn convert_to_dot(class_descriptions: &Vec<JavaClass>) -> (out: String)
    ensures
        out@ == classes_text(all_views(class_descriptions@), Seq::empty()),
{
    proof {
        reveal_strlit("");
        assert(""@ == Seq::<char>::empty());
    }
    render_classes(class_descriptions, "")
}

} // verus!
