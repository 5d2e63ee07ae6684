//! The class model: what is known of one Java class, and its mathematical
//! view.

use vstd::prelude::*;

verus! {

/// The declared type of a field.
#[derive(Debug, Clone, PartialEq, PartialOrd)]
pub enum JavaType {
    /// A primitive integer type, such as `int` or `long`.
    IntegralType(String),
    /// A type known by its name.
    IdentifiedType(String),
    /// A parameterized type, kept as it is written in the source.
    GenericType(String),
}

/// One declared field: its type and its name.
#[derive(Debug, PartialEq, PartialOrd)]
pub struct Field {
    pub java_type: JavaType,
    pub field: String,
}

/// What one field statement declares: a shared type and the declared names,
/// in source order.
#[derive(Debug, PartialEq, PartialOrd)]
pub struct FieldData {
    pub java_type: Option<JavaType>,
    pub fields: Vec<String>,
}

/// What is known of one Java class, top-level or nested.
#[derive(Debug, PartialEq, PartialOrd)]
pub struct JavaClass {
    /// Dotted package name; empty for the default package.
    pub package: String,
    /// Name of the class, once its declaration has been read.
    pub name: Option<String>,
    /// Name of the extended class, if one is known. No extraction action
    /// sets it.
    pub superclass: Option<String>,
    /// The implemented interfaces, in source order.
    pub implements: Vec<String>,
    /// The declared fields, in source order.
    pub fields: Vec<Field>,
    /// The classes declared inside this one, static or not, in source order.
    pub composition: Vec<Box<JavaClass>>,
    /// The imported names, in source order.
    pub imports: Vec<String>,
    /// The source text that the byte ranges of the syntax tree refer to.
    pub text: String,
}

/// Where a class stands: at the top of its file, or inside another class.
#[derive(Debug, Clone, Copy, PartialEq, Eq)]
pub enum Standing {
    /// The class is the one that its file declares.
    TopLevel,
    /// The class is declared inside another one, which gave it its package.
    Nested,
}

/// The mathematical value of a [`JavaType`].
pub enum TypeView {
    IntegralType(Seq<char>),
    IdentifiedType(Seq<char>),
    GenericType(Seq<char>),
}

/// The mathematical value of a [`Field`].
pub struct FieldView {
    pub java_type: TypeView,
    pub field: Seq<char>,
}

/// The mathematical value of a [`JavaClass`].
#[verifier::ext_equal]
pub struct ClassView {
    pub package: Seq<char>,
    pub name: Option<Seq<char>>,
    pub superclass: Option<Seq<char>>,
    pub implements: Seq<Seq<char>>,
    pub fields: Seq<FieldView>,
    pub composition: Seq<ClassView>,
    pub imports: Seq<Seq<char>>,
    pub text: Seq<char>,
}

impl View for JavaType {
    type V = TypeView;

    open spec fn view(&self) -> TypeView {
        match self {
            JavaType::IntegralType(s) => TypeView::IntegralType(s@),
            JavaType::IdentifiedType(s) => TypeView::IdentifiedType(s@),
            JavaType::GenericType(s) => TypeView::GenericType(s@),
        }
    }
}

impl View for Field {
    type V = FieldView;

    open spec fn view(&self) -> FieldView {
        FieldView { java_type: self.java_type@, field: self.field@ }
    }
}

/// The character sequences of a run of strings.
pub open spec fn texts(strings: Seq<String>) -> Seq<Seq<char>> {
    strings.map_values(|s: String| s@)
}

/// The mathematical values of a run of fields.
pub open spec fn field_views(fields: Seq<Field>) -> Seq<FieldView> {
    fields.map_values(|f: Field| f@)
}

/// The character sequence of an optional string.
pub open spec fn text_opt(s: Option<String>) -> Option<Seq<char>> {
    match s {
        Some(s) => Some(s@),
        None => None,
    }
}

/// The mathematical values of a run of classes, in the same order.
pub open spec fn class_views(classes: Seq<Box<JavaClass>>) -> Seq<ClassView>
    decreases classes, 0int,
{
    if classes.len() == 0 {
        Seq::empty()
    } else {
        class_views(classes.drop_last()).push(class_view(*classes.last()))
    }
}

/// The mathematical value of a class.
pub open spec fn class_view(class: JavaClass) -> ClassView
    decreases class, 1int,
{
    ClassView {
        package: class.package@,
        name: text_opt(class.name),
        superclass: text_opt(class.superclass),
        implements: texts(class.implements@),
        fields: field_views(class.fields@),
        composition: class_views(class.composition@),
        imports: texts(class.imports@),
        text: class.text@,
    }
}

impl View for JavaClass {
    type V = ClassView;

    open spec fn view(&self) -> ClassView {
        class_view(*self)
    }
}

/// The class of which nothing is known yet but its source text.
pub open spec fn blank(text: Seq<char>) -> ClassView {
    ClassView {
        package: Seq::empty(),
        name: None,
        superclass: None,
        implements: Seq::empty(),
        fields: Seq::empty(),
        composition: Seq::empty(),
        imports: Seq::empty(),
        text,
    }
}

/// One pair per declared name, each with the shared type, in the order of
/// the names.
pub open spec fn pairs(java_type: TypeView, names: Seq<Seq<char>>) -> Seq<FieldView> {
    names.map_values(|name: Seq<char>| FieldView { java_type, field: name })
}

/// `class_views` works class by class.
pub proof fn lemma_class_views(classes: Seq<Box<JavaClass>>)
    ensures
        class_views(classes).len() == classes.len(),
        forall|i: int| 0 <= i < classes.len() ==> (#[trigger] class_views(classes)[i]) == classes[i]@,
    decreases classes.len(),
{
    if classes.len() > 0 {
        lemma_class_views(classes.drop_last());
    }
}

/// `texts` works string by string.
pub proof fn lemma_texts_push(strings: Seq<String>, s: String)
    ensures
        texts(strings.push(s)) == texts(strings).push(s@),
{
    assert(texts(strings.push(s)) =~= texts(strings).push(s@));
}

/// `field_views` works field by field.
pub proof fn lemma_field_views_push(fields: Seq<Field>, f: Field)
    ensures
        field_views(fields.push(f)) == field_views(fields).push(f@),
{
    assert(field_views(fields.push(f)) =~= field_views(fields).push(f@));
}

/// `field_views` works run by run.
pub proof fn lemma_field_views_append(fields: Seq<Field>, more: Seq<Field>)
    ensures
        field_views(fields + more) == field_views(fields) + field_views(more),
{
    assert(field_views(fields + more) =~= field_views(fields) + field_views(more));
}

/// `pairs` works name by name.
pub proof fn lemma_pairs_push(java_type: TypeView, names: Seq<Seq<char>>, name: Seq<char>)
    ensures
        pairs(java_type, names.push(name)) == pairs(java_type, names).push(
            FieldView { java_type, field: name },
        ),
{
    assert(pairs(java_type, names.push(name)) =~= pairs(java_type, names).push(
        FieldView { java_type, field: name },
    ));
}

/// Nothing maps to nothing.
pub proof fn lemma_views_of_nothing()
    ensures
        texts(Seq::<String>::empty()) == Seq::<Seq<char>>::empty(),
        field_views(Seq::<Field>::empty()) == Seq::<FieldView>::empty(),
        forall|java_type: TypeView| #[trigger]
            pairs(java_type, Seq::empty()) == Seq::<FieldView>::empty(),
{
    assert(texts(Seq::<String>::empty()) =~= Seq::<Seq<char>>::empty());
    assert(field_views(Seq::<Field>::empty()) =~= Seq::<FieldView>::empty());
    assert forall|java_type: TypeView| #[trigger]
        pairs(java_type, Seq::empty()) == Seq::<FieldView>::empty() by {
        assert(pairs(java_type, Seq::empty()) =~= Seq::<FieldView>::empty());
    }
}

impl FieldData {
    /// Expands the statement into one field per declared name.
    pub fn into(self) -> (fields: Vec<Field>)
        requires
            self.java_type is Some,
        ensures
            field_views(fields@) == pairs(self.java_type->0@, texts(self.fields@)),
    {
        let FieldData { java_type, fields: names } = self;
        let java_type = java_type.unwrap();
        let mut fields: Vec<Field> = Vec::new();
        let mut i: usize = 0;
        proof {
            lemma_views_of_nothing();
            assert(names@.take(0) == Seq::<String>::empty());
        }
        while i < names.len()
            invariant
                i <= names@.len(),
                field_views(fields@) == pairs(java_type@, texts(names@.take(i as int))),
            decreases names@.len() - i,
        {
            let name = names[i].clone();
            let declared = java_type.duplicate();
            proof {
                assert(names@.take(i + 1) == names@.take(i as int).push(names@[i as int]));
                lemma_texts_push(names@.take(i as int), names@[i as int]);
                lemma_pairs_push(java_type@, texts(names@.take(i as int)), name@);
                lemma_field_views_push(fields@, Field { java_type: declared, field: name });
            }
            fields.push(Field { java_type: declared, field: name });
            i += 1;
        }
        proof {
            assert(names@.take(names@.len() as int) == names@);
        }
        fields
    }
}

impl JavaType {
    /// A copy of this declared type: the same kind, the same text.
    pub fn duplicate(&self) -> (copy: JavaType)
        ensures
            copy@ == self@,
    {
        match self {
            JavaType::IntegralType(s) => JavaType::IntegralType(s.clone()),
            JavaType::IdentifiedType(s) => JavaType::IdentifiedType(s.clone()),
            JavaType::GenericType(s) => JavaType::GenericType(s.clone()),
        }
    }
}

impl JavaClass {
    /// The class of which nothing is known yet but its source text.
    pub fn new(text: &str) -> (class: JavaClass)
        ensures
            class@ == blank(text@),
    {
        proof {
            lemma_views_of_nothing();
        }
        JavaClass {
            package: String::new(),
            name: None,
            superclass: None,
            implements: Vec::new(),
            fields: Vec::new(),
            composition: Vec::new(),
            imports: Vec::new(),
            text: text.to_owned(),
        }
    }
}

} // verus!
