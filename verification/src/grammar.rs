//! The grammar categories that the extraction knows, and the dispatch
//! decision that depends on the category alone.

use vstd::prelude::*;
use crate::text::same_text;

verus! {

/// A grammar category label, classified.
#[derive(Debug, Clone, Copy, PartialEq, Eq)]
pub enum Label {
    /// `program`, the root of a file.
    Program,
    /// `package_declaration`.
    PackageDeclaration,
    /// `import_declaration`.
    ImportDeclaration,
    /// `class_declaration`.
    ClassDeclaration,
    /// One of the punctuation tokens `;`, `{` and `}`.
    Punctuation,
    /// The separator `,`.
    Comma,
    /// `line_comment` or `block_comment`.
    Comment,
    /// The keyword `class`.
    ClassKeyword,
    /// `modifiers`, the modifier list of a declaration.
    Modifiers,
    /// `identifier`, a bare name.
    Identifier,
    /// `class_body`.
    ClassBody,
    /// `super_interfaces`, the `implements` clause of a class.
    SuperInterfaces,
    /// `method_declaration`.
    MethodDeclaration,
    /// `field_declaration`.
    FieldDeclaration,
    /// The keyword `package`.
    PackageKeyword,
    /// The keyword `import`.
    ImportKeyword,
    /// The keyword `implements`.
    ImplementsKeyword,
    /// `scoped_identifier`, a dotted name.
    ScopedIdentifier,
    /// `asterisk`, the wildcard that ends an on-demand import.
    Asterisk,
    /// `integral_type`, a primitive integer type.
    IntegralType,
    /// `type_identifier`, a named type.
    TypeIdentifier,
    /// `generic_type`, a parameterized type.
    GenericType,
    /// `variable_declarator`, one declared name of a field statement.
    VariableDeclarator,
    /// `type_list`, the list of types of an `implements` clause.
    TypeList,
    /// Any label that the extraction does not know.
    Unrecognized,
}

/// The category that a label names.
pub open spec fn label_of(kind: Seq<char>) -> Label {
    if kind == "program"@ {
        Label::Program
    } else if kind == "package_declaration"@ {
        Label::PackageDeclaration
    } else if kind == "import_declaration"@ {
        Label::ImportDeclaration
    } else if kind == "class_declaration"@ {
        Label::ClassDeclaration
    } else if kind == ";"@ || kind == "{"@ || kind == "}"@ {
        Label::Punctuation
    } else if kind == ","@ {
        Label::Comma
    } else if kind == "line_comment"@ || kind == "block_comment"@ {
        Label::Comment
    } else if kind == "class"@ {
        Label::ClassKeyword
    } else if kind == "modifiers"@ {
        Label::Modifiers
    } else if kind == "identifier"@ {
        Label::Identifier
    } else if kind == "class_body"@ {
        Label::ClassBody
    } else if kind == "super_interfaces"@ {
        Label::SuperInterfaces
    } else if kind == "method_declaration"@ {
        Label::MethodDeclaration
    } else if kind == "field_declaration"@ {
        Label::FieldDeclaration
    } else if kind == "package"@ {
        Label::PackageKeyword
    } else if kind == "import"@ {
        Label::ImportKeyword
    } else if kind == "implements"@ {
        Label::ImplementsKeyword
    } else if kind == "scoped_identifier"@ {
        Label::ScopedIdentifier
    } else if kind == "asterisk"@ {
        Label::Asterisk
    } else if kind == "integral_type"@ {
        Label::IntegralType
    } else if kind == "type_identifier"@ {
        Label::TypeIdentifier
    } else if kind == "generic_type"@ {
        Label::GenericType
    } else if kind == "variable_declarator"@ {
        Label::VariableDeclarator
    } else if kind == "type_list"@ {
        Label::TypeList
    } else {
        Label::Unrecognized
    }
}

/// Whether the traversal enters the children of a node of this category.
pub open spec fn descends(label: Label) -> bool {
    label is Program || label is ClassDeclaration || label is ClassBody
}

/// Whether the extraction reads the children of a node of this category:
/// the traversal enters them, or the extraction action for the node, or for
/// the node above it, scans them.
pub open spec fn reads_children(label: Label) -> bool {
    descends(label) || label is PackageDeclaration || label is ImportDeclaration
        || label is SuperInterfaces || label is FieldDeclaration || label is TypeList
}

/// Classifies a grammar category label.
pub fn classify(kind: &str) -> (label: Label)
    ensures
        label == label_of(kind@),
{
    if same_text(kind, "program") {
        Label::Program
    } else if same_text(kind, "package_declaration") {
        Label::PackageDeclaration
    } else if same_text(kind, "import_declaration") {
        Label::ImportDeclaration
    } else if same_text(kind, "class_declaration") {
        Label::ClassDeclaration
    } else if same_text(kind, ";") || same_text(kind, "{") || same_text(kind, "}") {
        Label::Punctuation
    } else if same_text(kind, ",") {
        Label::Comma
    } else if same_text(kind, "line_comment") || same_text(kind, "block_comment") {
        Label::Comment
    } else if same_text(kind, "class") {
        Label::ClassKeyword
    } else if same_text(kind, "modifiers") {
        Label::Modifiers
    } else if same_text(kind, "identifier") {
        Label::Identifier
    } else if same_text(kind, "class_body") {
        Label::ClassBody
    } else if same_text(kind, "super_interfaces") {
        Label::SuperInterfaces
    } else if same_text(kind, "method_declaration") {
        Label::MethodDeclaration
    } else if same_text(kind, "field_declaration") {
        Label::FieldDeclaration
    } else if same_text(kind, "package") {
        Label::PackageKeyword
    } else if same_text(kind, "import") {
        Label::ImportKeyword
    } else if same_text(kind, "implements") {
        Label::ImplementsKeyword
    } else if same_text(kind, "scoped_identifier") {
        Label::ScopedIdentifier
    } else if same_text(kind, "asterisk") {
        Label::Asterisk
    } else if same_text(kind, "integral_type") {
        Label::IntegralType
    } else if same_text(kind, "type_identifier") {
        Label::TypeIdentifier
    } else if same_text(kind, "generic_type") {
        Label::GenericType
    } else if same_text(kind, "variable_declarator") {
        Label::VariableDeclarator
    } else if same_text(kind, "type_list") {
        Label::TypeList
    } else {
        Label::Unrecognized
    }
}

/// Whether the traversal enters the children of a node of this category.
pub fn enters(label: Label) -> (r: bool)
    ensures
        r == descends(label),
{
    match label {
        Label::Program | Label::ClassDeclaration | Label::ClassBody => true,
        _ => false,
    }
}

/// Whether the extraction reads the children of a node of this category.
pub fn looks_below(label: Label) -> (r: bool)
    ensures
        r == reads_children(label),
{
    match label {
        Label::Program
        | Label::ClassDeclaration
        | Label::ClassBody
        | Label::PackageDeclaration
        | Label::ImportDeclaration
        | Label::SuperInterfaces
        | Label::FieldDeclaration
        | Label::TypeList => true,
        _ => false,
    }
}

} // verus!
