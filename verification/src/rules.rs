//! What the extraction computes, stated over the mathematical values of the
//! syntax tree and of the class model.
//!
//! A pass carries a class, the diagnostics reported so far and the error
//! that ended it, if any. Each extraction action maps a node and a pass to
//! the pass that follows; the traversal chains them in source order and
//! stops at the first error.

use vstd::prelude::*;
use crate::grammar::{descends, label_of, Label};
use crate::model::{blank, pairs, ClassView, Standing, TypeView};
use crate::report::{DiagnosticView, ErrorView, Scope, Violation};
use crate::syntax::Syntax;
use crate::text::phrase;

verus! {

/// The state of an extraction.
#[verifier::ext_equal]
pub struct Pass {
    /// The class as far as it is known.
    pub class: ClassView,
    /// The diagnostics reported so far, oldest first.
    pub diagnostics: Seq<DiagnosticView>,
    /// The error that ended the extraction.
    pub error: Option<ErrorView>,
}

/// The source text that `node` spans.
pub open spec fn spanned(node: Syntax, text: Seq<char>) -> Seq<char> {
    phrase(text, node.start, node.end)
}

/// The diagnostic that reports `node` as skipped.
pub open spec fn skipped(scope: Scope, node: Syntax, text: Seq<char>) -> DiagnosticView {
    DiagnosticView { scope, kind: node.kind, phrase: spanned(node, text) }
}

/// The error that names `node` as offending.
pub open spec fn offending(violation: Violation, node: Syntax, text: Seq<char>) -> ErrorView {
    ErrorView { violation, kind: node.kind, phrase: spanned(node, text) }
}

/// The package of a class nested in a class of this package and name.
pub open spec fn nested_package(package: Seq<char>, name: Seq<char>) -> Seq<char> {
    package + "."@ + name
}

// Package declarations

/// The state of the scan of a package declaration.
pub struct PackageScan {
    /// The first dotted name, once it is found.
    pub found: Option<Seq<char>>,
    pub diagnostics: Seq<DiagnosticView>,
}

/// One child of a package declaration.
pub open spec fn package_step(child: Syntax, text: Seq<char>, scan: PackageScan) -> PackageScan {
    if !child.named {
        scan
    } else {
        match label_of(child.kind) {
            Label::PackageKeyword => scan,
            Label::ScopedIdentifier => if scan.found is None {
                PackageScan { found: Some(spanned(child, text)), ..scan }
            } else {
                scan
            },
            _ => PackageScan {
                diagnostics: scan.diagnostics.push(skipped(Scope::Package, child, text)),
                ..scan
            },
        }
    }
}

/// The children of a package declaration from the `i`-th on.
pub open spec fn package_scan(
    children: Seq<Syntax>,
    i: int,
    text: Seq<char>,
    scan: PackageScan,
) -> PackageScan
    decreases children.len() - i,
{
    if i < 0 || i >= children.len() {
        scan
    } else {
        package_scan(children, i + 1, text, package_step(children[i], text, scan))
    }
}

/// Whether a package declaration sets the package of a class of this
/// standing. It does for a top-level class, whatever the class holds. The
/// package of a nested class was made when the class was, and stays.
pub open spec fn package_open(standing: Standing) -> bool {
    standing is TopLevel
}

/// A package declaration: the first dotted name among its named children
/// becomes the package of a top-level class, in place of the one it had.
/// Every named child that is neither the keyword nor a dotted name is
/// reported, wherever it stands. A nested class keeps its package, and the
/// declaration is reported.
pub open spec fn with_package(node: Syntax, standing: Standing, pass: Pass) -> Pass {
    let text = pass.class.text;
    let scan = package_scan(
        node.children,
        0,
        text,
        PackageScan { found: None, diagnostics: pass.diagnostics },
    );
    match scan.found {
        Some(name) => if package_open(standing) {
            Pass {
                class: ClassView { package: name, ..pass.class },
                diagnostics: scan.diagnostics,
                ..pass
            }
        } else {
            Pass {
                diagnostics: scan.diagnostics.push(skipped(Scope::Package, node, text)),
                ..pass
            }
        },
        None => Pass { diagnostics: scan.diagnostics, ..pass },
    }
}

// Import declarations

/// The state of the scan of an import declaration.
pub struct ImportScan {
    pub imports: Seq<Seq<char>>,
    pub diagnostics: Seq<DiagnosticView>,
}

/// One child of an import declaration.
pub open spec fn import_step(child: Syntax, text: Seq<char>, scan: ImportScan) -> ImportScan {
    if !child.named {
        scan
    } else {
        match label_of(child.kind) {
            Label::ImportKeyword => scan,
            Label::ScopedIdentifier => ImportScan {
                imports: scan.imports.push(spanned(child, text)),
                ..scan
            },
            Label::Asterisk => if scan.imports.len() > 0 {
                ImportScan {
                    imports: scan.imports.drop_last().push(scan.imports.last() + ".*"@),
                    ..scan
                }
            } else {
                ImportScan {
                    diagnostics: scan.diagnostics.push(skipped(Scope::Import, child, text)),
                    ..scan
                }
            },
            _ => ImportScan {
                diagnostics: scan.diagnostics.push(skipped(Scope::Import, child, text)),
                ..scan
            },
        }
    }
}

/// The children of an import declaration from the `i`-th on.
pub open spec fn import_scan(
    children: Seq<Syntax>,
    i: int,
    text: Seq<char>,
    scan: ImportScan,
) -> ImportScan
    decreases children.len() - i,
{
    if i < 0 || i >= children.len() {
        scan
    } else {
        import_scan(children, i + 1, text, import_step(children[i], text, scan))
    }
}

/// An import declaration: each dotted name among its named children is a
/// new import; a wildcard is no import of its own but extends the latest
/// import by `.*`.
pub open spec fn with_import(node: Syntax, pass: Pass) -> Pass {
    let scan = import_scan(
        node.children,
        0,
        pass.class.text,
        ImportScan { imports: pass.class.imports, diagnostics: pass.diagnostics },
    );
    Pass {
        class: ClassView { imports: scan.imports, ..pass.class },
        diagnostics: scan.diagnostics,
        ..pass
    }
}

// Implemented interfaces

/// The named members of a type list from the `i`-th on, each by its source
/// text.
pub open spec fn type_list_scan(
    members: Seq<Syntax>,
    i: int,
    text: Seq<char>,
    names: Seq<Seq<char>>,
) -> Seq<Seq<char>>
    decreases members.len() - i,
{
    if i < 0 || i >= members.len() {
        names
    } else {
        type_list_scan(
            members,
            i + 1,
            text,
            if members[i].named {
                names.push(spanned(members[i], text))
            } else {
                names
            },
        )
    }
}

/// The state of the scan of an `implements` clause.
pub struct InterfaceScan {
    pub implements: Seq<Seq<char>>,
    pub diagnostics: Seq<DiagnosticView>,
}

/// One child of an `implements` clause.
pub open spec fn interface_step(
    child: Syntax,
    text: Seq<char>,
    scan: InterfaceScan,
) -> InterfaceScan {
    if !child.named {
        scan
    } else {
        match label_of(child.kind) {
            Label::ImplementsKeyword => scan,
            Label::TypeList => InterfaceScan {
                implements: type_list_scan(child.children, 0, text, scan.implements),
                ..scan
            },
            _ => InterfaceScan {
                diagnostics: scan.diagnostics.push(skipped(Scope::Interfaces, child, text)),
                ..scan
            },
        }
    }
}

/// The children of an `implements` clause from the `i`-th on.
pub open spec fn interface_scan(
    children: Seq<Syntax>,
    i: int,
    text: Seq<char>,
    scan: InterfaceScan,
) -> InterfaceScan
    decreases children.len() - i,
{
    if i < 0 || i >= children.len() {
        scan
    } else {
        interface_scan(children, i + 1, text, interface_step(children[i], text, scan))
    }
}

/// An `implements` clause: the named members of its type list are the
/// interfaces of the class, in source order.
pub open spec fn with_interfaces(node: Syntax, pass: Pass) -> Pass {
    let scan = interface_scan(
        node.children,
        0,
        pass.class.text,
        InterfaceScan { implements: pass.class.implements, diagnostics: pass.diagnostics },
    );
    Pass {
        class: ClassView { implements: scan.implements, ..pass.class },
        diagnostics: scan.diagnostics,
        ..pass
    }
}

// Field declarations

/// The state of the scan of a field declaration.
pub struct FieldScan {
    /// The declared type, once it is found.
    pub java_type: Option<TypeView>,
    /// The declared names so far.
    pub names: Seq<Seq<char>>,
    pub diagnostics: Seq<DiagnosticView>,
    pub error: Option<ErrorView>,
}

/// The declared type that a type-bearing node of this category and text
/// stands for.
pub open spec fn declared_type(label: Label, phrase: Seq<char>) -> TypeView {
    match label {
        Label::IntegralType => TypeView::IntegralType(phrase),
        Label::TypeIdentifier => TypeView::IdentifiedType(phrase),
        _ => TypeView::GenericType(phrase),
    }
}

/// One child of a field declaration.
pub open spec fn field_step(child: Syntax, text: Seq<char>, scan: FieldScan) -> FieldScan {
    if !child.named {
        scan
    } else {
        match label_of(child.kind) {
            Label::Punctuation | Label::Comma | Label::Modifiers => scan,
            Label::IntegralType | Label::TypeIdentifier | Label::GenericType => if scan.java_type
                is None {
                FieldScan {
                    java_type: Some(declared_type(label_of(child.kind), spanned(child, text))),
                    ..scan
                }
            } else {
                FieldScan { error: Some(offending(Violation::TwoTypes, child, text)), ..scan }
            },
            Label::VariableDeclarator => if scan.java_type is None {
                FieldScan { error: Some(offending(Violation::MissingType, child, text)), ..scan }
            } else {
                FieldScan { names: scan.names.push(spanned(child, text)), ..scan }
            },
            _ => FieldScan {
                diagnostics: scan.diagnostics.push(skipped(Scope::Field, child, text)),
                ..scan
            },
        }
    }
}

/// The children of a field declaration from the `i`-th on, up to the first
/// error.
pub open spec fn field_scan(
    children: Seq<Syntax>,
    i: int,
    text: Seq<char>,
    scan: FieldScan,
) -> FieldScan
    decreases children.len() - i,
{
    if i < 0 || i >= children.len() || scan.error is Some {
        scan
    } else {
        field_scan(children, i + 1, text, field_step(children[i], text, scan))
    }
}

/// A field declaration: one type, and one field of that type for each
/// declared name. A second type, a name before the type, no type and no
/// name are errors, and then the class keeps the fields it had.
pub open spec fn with_field(node: Syntax, pass: Pass) -> Pass {
    let text = pass.class.text;
    let scan = field_scan(
        node.children,
        0,
        text,
        FieldScan {
            java_type: None,
            names: Seq::empty(),
            diagnostics: pass.diagnostics,
            error: None,
        },
    );
    if scan.error is Some {
        Pass { diagnostics: scan.diagnostics, error: scan.error, ..pass }
    } else if scan.java_type is None {
        Pass {
            diagnostics: scan.diagnostics,
            error: Some(offending(Violation::MissingType, node, text)),
            ..pass
        }
    } else if scan.names.len() == 0 {
        Pass {
            diagnostics: scan.diagnostics,
            error: Some(offending(Violation::NoDeclarators, node, text)),
            ..pass
        }
    } else {
        Pass {
            class: ClassView {
                fields: pass.class.fields + pairs(scan.java_type->0, scan.names),
                ..pass.class
            },
            diagnostics: scan.diagnostics,
            ..pass
        }
    }
}

// Class declarations

/// The state of the scan of a class declaration for its name.
pub struct NameScan {
    /// The name, once it is found.
    pub name: Option<Seq<char>>,
    /// Whether the scan has reached the body of the class.
    pub closed: bool,
    pub diagnostics: Seq<DiagnosticView>,
    pub error: Option<ErrorView>,
}

/// One child of a class declaration.
pub open spec fn name_step(child: Syntax, text: Seq<char>, scan: NameScan) -> NameScan {
    if !child.named {
        scan
    } else {
        match label_of(child.kind) {
            Label::ClassBody => NameScan { closed: true, ..scan },
            Label::ClassKeyword | Label::Modifiers => scan,
            Label::Identifier => if scan.name is None {
                NameScan { name: Some(spanned(child, text)), ..scan }
            } else {
                NameScan {
                    error: Some(offending(Violation::TwoIdentifiers, child, text)),
                    ..scan
                }
            },
            _ => if scan.name is None {
                NameScan {
                    diagnostics: scan.diagnostics.push(skipped(Scope::ClassName, child, text)),
                    ..scan
                }
            } else {
                scan
            },
        }
    }
}

/// The children of a class declaration from the `i`-th on, up to the body
/// of the class or the first error.
pub open spec fn name_scan(
    children: Seq<Syntax>,
    i: int,
    text: Seq<char>,
    scan: NameScan,
) -> NameScan
    decreases children.len() - i,
{
    if i < 0 || i >= children.len() || scan.closed || scan.error is Some {
        scan
    } else {
        name_scan(children, i + 1, text, name_step(children[i], text, scan))
    }
}

/// The declaration of the class itself: the first bare identifier among the
/// named children before the body is the name of the class. Children before
/// the name that are neither the keyword nor the modifiers are reported; a
/// second identifier before the body is an error.
pub open spec fn with_name(node: Syntax, pass: Pass) -> Pass {
    let scan = name_scan(
        node.children,
        0,
        pass.class.text,
        NameScan { name: None, closed: false, diagnostics: pass.diagnostics, error: None },
    );
    if scan.error is Some {
        Pass { diagnostics: scan.diagnostics, error: scan.error, ..pass }
    } else {
        Pass {
            class: ClassView { name: scan.name, ..pass.class },
            diagnostics: scan.diagnostics,
            ..pass
        }
    }
}

/// The class that a declaration nested in `outer` starts from: blank, over
/// the same source text, in the package that `outer` and its name make.
pub open spec fn nested_blank(outer: ClassView) -> ClassView
    recommends
        outer.name is Some,
{
    ClassView { package: nested_package(outer.package, outer.name->0), ..blank(outer.text) }
}

// Traversal

/// 1 for a pass whose class has its name, 0 for one that has not: a class
/// declaration starts a nested pass in the first case only.
pub open spec fn rank(pass: Pass) -> int {
    if pass.class.name is Some {
        1
    } else {
        0
    }
}

/// A class declaration. For a class without a name it is the declaration of
/// that class. For a class that has its name it declares a nested class:
/// the whole extraction runs on the declaration, from the nested blank
/// class, and the class that comes out joins the composition.
pub open spec fn with_class(node: Syntax, pass: Pass) -> Pass
    decreases node, rank(pass), 0int,
{
    if pass.class.name is None {
        with_name(node, pass)
    } else {
        let inner = visit(
            node,
            Standing::Nested,
            Pass { class: nested_blank(pass.class), diagnostics: pass.diagnostics, error: None },
        );
        if inner.error is Some {
            Pass { diagnostics: inner.diagnostics, error: inner.error, ..pass }
        } else {
            Pass {
                class: ClassView {
                    composition: pass.class.composition.push(inner.class),
                    ..pass.class
                },
                diagnostics: inner.diagnostics,
                ..pass
            }
        }
    }
}

/// The extraction action for `node`, by its category. A category without
/// an action of its own and outside the known ones is reported and skipped.
pub open spec fn dispatch(node: Syntax, standing: Standing, pass: Pass) -> Pass
    decreases node, rank(pass), 1int,
{
    match label_of(node.kind) {
        Label::PackageDeclaration => with_package(node, standing, pass),
        Label::ImportDeclaration => with_import(node, pass),
        Label::ClassDeclaration => with_class(node, pass),
        Label::SuperInterfaces => with_interfaces(node, pass),
        Label::FieldDeclaration => with_field(node, pass),
        Label::Program
        | Label::Punctuation
        | Label::Comment
        | Label::ClassKeyword
        | Label::Modifiers
        | Label::Identifier
        | Label::ClassBody
        | Label::MethodDeclaration => pass,
        _ => Pass {
            diagnostics: pass.diagnostics.push(skipped(Scope::Dispatch, node, pass.class.text)),
            ..pass
        },
    }
}

/// The traversal of `node` and what lies below it: the action for the node,
/// then, if its category is one to enter, its children in source order.
pub open spec fn visit(node: Syntax, standing: Standing, pass: Pass) -> Pass
    decreases node, rank(pass), 2int,
{
    let after = dispatch(node, standing, pass);
    if after.error is Some || !descends(label_of(node.kind)) {
        after
    } else {
        visit_all(node.children, 0, standing, after)
    }
}

/// The traversal of the nodes from the `i`-th on, one after the other, up
/// to the first error.
pub open spec fn visit_all(nodes: Seq<Syntax>, i: int, standing: Standing, pass: Pass) -> Pass
    decreases nodes, nodes.len() - i, 0int,
{
    if i < 0 || i >= nodes.len() || pass.error is Some {
        pass
    } else {
        visit_all(nodes, i + 1, standing, visit(nodes[i], standing, pass))
    }
}

/// The pass that an extraction over `text` starts from.
pub open spec fn start(text: Seq<char>) -> Pass {
    Pass { class: blank(text), diagnostics: Seq::empty(), error: None }
}

/// The extraction of the tree under `root`, a tree of the source `text`.
pub open spec fn extract(root: Syntax, text: Seq<char>) -> Pass {
    visit(root, Standing::TopLevel, start(text))
}

} // verus!
