//! The extraction: a depth-first walk over a syntax tree that fills a class
//! model, reports what it skips and stops at the first structure that the
//! model cannot hold.

use vstd::prelude::*;
use vstd::string::*;
use crate::grammar::{classify, descends, enters, label_of, Label};
use crate::laws::{
    has_label,
    law_default_package,
    law_nested_packages,
    law_nesting_below_the_top,
    nests_well,
    nests_well_below,
    repackages,
};
use crate::model::{
    lemma_class_views,
    lemma_field_views_append,
    lemma_texts_push,
    lemma_views_of_nothing,
    text_opt,
    texts,
    FieldData,
    JavaClass,
    JavaType,
    Standing,
    TypeView,
};
use crate::report::{
    diagnostic_views,
    lemma_diagnostic_views_push,
    Diagnostic,
    ErrorView,
    ExtractError,
    Scope,
    Violation,
};
use crate::rules::{
    dispatch,
    extract,
    field_scan,
    import_scan,
    interface_scan,
    name_scan,
    nested_blank,
    offending,
    package_scan,
    rank,
    skipped,
    spanned,
    start,
    type_list_scan,
    visit,
    visit_all,
    with_class,
    with_field,
    with_import,
    with_interfaces,
    with_name,
    with_package,
    FieldScan,
    ImportScan,
    InterfaceScan,
    NameScan,
    PackageScan,
    Pass,
};
use crate::syntax::SyntaxNode;
use crate::text::{resolves, slice_text};

verus! {

/// The pass that stands at `class` with these diagnostics reported.
pub open spec fn pass_at(class: JavaClass, diagnostics: Vec<Diagnostic>) -> Pass {
    Pass { class: class@, diagnostics: diagnostic_views(diagnostics@), error: None }
}

/// The pass that ended at `class` with these diagnostics reported and with
/// this result.
pub open spec fn pass_after<T>(
    class: JavaClass,
    diagnostics: Vec<Diagnostic>,
    result: Result<T, ExtractError>,
) -> Pass {
    Pass {
        class: class@,
        diagnostics: diagnostic_views(diagnostics@),
        error: match result {
            Ok(_) => None,
            Err(e) => Some(e@),
        },
    }
}

/// The mathematical value of an optional declared type.
spec fn type_opt(java_type: Option<JavaType>) -> Option<TypeView> {
    match java_type {
        Some(t) => Some(t@),
        None => None,
    }
}

/// The mathematical value of an optional error.
spec fn error_opt(error: Option<ExtractError>) -> Option<ErrorView> {
    match error {
        Some(e) => Some(e@),
        None => None,
    }
}

/// The source text that `node` spans.
pub fn get_phrase_from_node<'a>(text: &'a str, node: &SyntaxNode) -> (phrase: &'a str)
    requires
        resolves(text@, node.start_byte as int, node.end_byte as int),
    ensures
        phrase@ == spanned(node@, text@),
{
    slice_text(text, node.start_byte, node.end_byte)
}

/// Reports `node` as skipped.
fn report(diagnostics: &mut Vec<Diagnostic>, scope: Scope, node: &SyntaxNode, text: &str)
    requires
        resolves(text@, node.start_byte as int, node.end_byte as int),
    ensures
        diagnostic_views(final(diagnostics)@) == diagnostic_views(old(diagnostics)@).push(
            skipped(scope, node@, text@),
        ),
{
    let diagnostic = Diagnostic {
        scope,
        kind: node.kind.clone(),
        phrase: get_phrase_from_node(text, node).to_owned(),
    };
    proof {
        lemma_diagnostic_views_push(diagnostics@, diagnostic);
    }
    diagnostics.push(diagnostic);
}

/// The error that names `node` as offending.
fn offence(violation: Violation, node: &SyntaxNode, text: &str) -> (error: ExtractError)
    requires
        resolves(text@, node.start_byte as int, node.end_byte as int),
    ensures
        error@ == offending(violation, node@, text@),
{
    ExtractError {
        violation,
        kind: node.kind.clone(),
        phrase: get_phrase_from_node(text, node).to_owned(),
    }
}

/// Appends the source text of each named member of a type list.
fn list_types(list: &SyntaxNode, text: &str, names: &mut Vec<String>)
    requires
        list@.fits(text@),
    ensures
        texts(final(names)@) == type_list_scan(list@.children, 0, text@, texts(old(names)@)),
{
    let mut i: usize = 0;
    proof {
        list.lemma_children_agree();
    }
    while i < list.children.len()
        invariant
            i <= list.children@.len(),
            list.children_agree(),
            list@.fits(text@),
            type_list_scan(list@.children, 0, text@, texts(old(names)@)) == type_list_scan(
                list@.children,
                i as int,
                text@,
                texts(names@),
            ),
        decreases list.children@.len() - i,
    {
        let member = &list.children[i];
        assert(list@.children[i as int].fits(text@));
        if member.named {
            let name = get_phrase_from_node(text, member).to_owned();
            proof {
                lemma_texts_push(names@, name);
            }
            names.push(name);
        }
        i += 1;
    }
}

impl JavaClass {
    /// The source text that `node` spans.
    pub fn get_phrase_from_node<'a>(&'a self, node: &SyntaxNode) -> (phrase: &'a str)
        requires
            resolves(self.text@, node.start_byte as int, node.end_byte as int),
        ensures
            phrase@ == spanned(node@, self.text@),
    {
        get_phrase_from_node(self.text.as_str(), node)
    }

    /// Reads a package declaration, for a class of this standing.
    pub fn retrieve_package(
        &mut self,
        node: &SyntaxNode,
        standing: Standing,
        diagnostics: &mut Vec<Diagnostic>,
    )
        requires
            node@.fits(old(self).text@),
        ensures
            pass_at(*final(self), *final(diagnostics)) == with_package(
                node@,
                standing,
                pass_at(*old(self), *old(diagnostics)),
            ),
    {
        let ghost text = self.text@;
        let ghost first = PackageScan { found: None, diagnostics: diagnostic_views(diagnostics@) };
        let mut found: Option<String> = None;
        let mut i: usize = 0;
        proof {
            node.lemma_children_agree();
        }
        while i < node.children.len()
            invariant
                i <= node.children@.len(),
                node.children_agree(),
                node@.fits(text),
                *self == *old(self),
                text == self.text@,
                package_scan(node@.children, 0, text, first) == package_scan(
                    node@.children,
                    i as int,
                    text,
                    PackageScan {
                        found: text_opt(found),
                        diagnostics: diagnostic_views(diagnostics@),
                    },
                ),
            decreases node.children@.len() - i,
        {
            let child = &node.children[i];
            assert(node@.children[i as int].fits(text));
            if child.named {
                match classify(child.kind.as_str()) {
                    Label::PackageKeyword => {},
                    Label::ScopedIdentifier => {
                        if found.is_none() {
                            found = Some(
                                get_phrase_from_node(self.text.as_str(), child).to_owned(),
                            );
                        }
                    },
                    _ => {
                        report(diagnostics, Scope::Package, child, self.text.as_str());
                    },
                }
            }
            i += 1;
        }
        match found {
            Some(name) => {
                if matches!(standing, Standing::TopLevel) {
                    self.package = name;
                } else {
                    report(diagnostics, Scope::Package, node, self.text.as_str());
                }
            },
            None => {},
        }
        proof {
            lemma_class_views(self.composition@);
            lemma_class_views(old(self).composition@);
            assert(pass_at(*final(self), *final(diagnostics)) =~~= with_package(
                node@,
                standing,
                pass_at(*old(self), *old(diagnostics)),
            ));
        }
    }

    /// Reads an import declaration.
    pub fn retrieve_import(&mut self, node: &SyntaxNode, diagnostics: &mut Vec<Diagnostic>)
        requires
            node@.fits(old(self).text@),
        ensures
            pass_at(*final(self), *final(diagnostics)) == with_import(
                node@,
                pass_at(*old(self), *old(diagnostics)),
            ),
    {
        let ghost text = self.text@;
        let ghost first = ImportScan {
            imports: texts(self.imports@),
            diagnostics: diagnostic_views(diagnostics@),
        };
        let mut i: usize = 0;
        proof {
            node.lemma_children_agree();
        }
        while i < node.children.len()
            invariant
                i <= node.children@.len(),
                node.children_agree(),
                node@.fits(text),
                text == self.text@,
                self.package == old(self).package,
                self.name == old(self).name,
                self.superclass == old(self).superclass,
                self.implements == old(self).implements,
                self.fields == old(self).fields,
                self.composition == old(self).composition,
                self.text == old(self).text,
                import_scan(node@.children, 0, text, first) == import_scan(
                    node@.children,
                    i as int,
                    text,
                    ImportScan {
                        imports: texts(self.imports@),
                        diagnostics: diagnostic_views(diagnostics@),
                    },
                ),
            decreases node.children@.len() - i,
        {
            let child = &node.children[i];
            assert(node@.children[i as int].fits(text));
            if child.named {
                match classify(child.kind.as_str()) {
                    Label::ImportKeyword => {},
                    Label::ScopedIdentifier => {
                        let name = get_phrase_from_node(self.text.as_str(), child).to_owned();
                        proof {
                            lemma_texts_push(self.imports@, name);
                        }
                        self.imports.push(name);
                    },
                    Label::Asterisk => {
                        let ghost before = self.imports@;
                        match self.imports.pop() {
                            Some(latest) => {
                                let ghost rest = self.imports@;
                                let extended = latest.concat(".*");
                                proof {
                                    assert(before == rest.push(latest));
                                    lemma_texts_push(rest, latest);
                                    lemma_texts_push(rest, extended);
                                    assert(texts(before).drop_last() == texts(rest));
                                }
                                self.imports.push(extended);
                            },
                            None => {
                                report(diagnostics, Scope::Import, child, self.text.as_str());
                            },
                        }
                    },
                    _ => {
                        report(diagnostics, Scope::Import, child, self.text.as_str());
                    },
                }
            }
            i += 1;
        }
        proof {
            assert(pass_at(*final(self), *final(diagnostics)) =~~= with_import(
                node@,
                pass_at(*old(self), *old(diagnostics)),
            ));
        }
    }

    /// Reads an `implements` clause.
    pub fn retrieve_interfaces(&mut self, node: &SyntaxNode, diagnostics: &mut Vec<Diagnostic>)
        requires
            node@.fits(old(self).text@),
        ensures
            pass_at(*final(self), *final(diagnostics)) == with_interfaces(
                node@,
                pass_at(*old(self), *old(diagnostics)),
            ),
    {
        let ghost text = self.text@;
        let ghost first = InterfaceScan {
            implements: texts(self.implements@),
            diagnostics: diagnostic_views(diagnostics@),
        };
        let mut i: usize = 0;
        proof {
            node.lemma_children_agree();
        }
        while i < node.children.len()
            invariant
                i <= node.children@.len(),
                node.children_agree(),
                node@.fits(text),
                text == self.text@,
                self.package == old(self).package,
                self.name == old(self).name,
                self.superclass == old(self).superclass,
                self.fields == old(self).fields,
                self.composition == old(self).composition,
                self.imports == old(self).imports,
                self.text == old(self).text,
                interface_scan(node@.children, 0, text, first) == interface_scan(
                    node@.children,
                    i as int,
                    text,
                    InterfaceScan {
                        implements: texts(self.implements@),
                        diagnostics: diagnostic_views(diagnostics@),
                    },
                ),
            decreases node.children@.len() - i,
        {
            let child = &node.children[i];
            assert(node@.children[i as int].fits(text));
            if child.named {
                match classify(child.kind.as_str()) {
                    Label::ImplementsKeyword => {},
                    Label::TypeList => {
                        list_types(child, self.text.as_str(), &mut self.implements);
                    },
                    _ => {
                        report(diagnostics, Scope::Interfaces, child, self.text.as_str());
                    },
                }
            }
            i += 1;
        }
        proof {
            assert(pass_at(*final(self), *final(diagnostics)) =~~= with_interfaces(
                node@,
                pass_at(*old(self), *old(diagnostics)),
            ));
        }
    }

    /// Reads a field declaration.
    pub fn retrieve_field(&mut self, node: &SyntaxNode, diagnostics: &mut Vec<Diagnostic>) -> (result:
        Result<(), ExtractError>)
        requires
            node@.fits(old(self).text@),
        ensures
            pass_after(*final(self), *final(diagnostics), result) == with_field(
                node@,
                pass_at(*old(self), *old(diagnostics)),
            ),
    {
        let ghost text = self.text@;
        let ghost first = FieldScan {
            java_type: None,
            names: Seq::empty(),
            diagnostics: diagnostic_views(diagnostics@),
            error: None,
        };
        let mut field_data = FieldData { java_type: None, fields: Vec::new() };
        let mut failure: Option<ExtractError> = None;
        let mut i: usize = 0;
        proof {
            node.lemma_children_agree();
            lemma_views_of_nothing();
        }
        while i < node.children.len() && failure.is_none()
            invariant
                i <= node.children@.len(),
                node.children_agree(),
                node@.fits(text),
                text == self.text@,
                *self == *old(self),
                field_scan(node@.children, 0, text, first) == field_scan(
                    node@.children,
                    i as int,
                    text,
                    FieldScan {
                        java_type: type_opt(field_data.java_type),
                        names: texts(field_data.fields@),
                        diagnostics: diagnostic_views(diagnostics@),
                        error: error_opt(failure),
                    },
                ),
            decreases node.children@.len() - i,
        {
            let child = &node.children[i];
            assert(node@.children[i as int].fits(text));
            if child.named {
                let label = classify(child.kind.as_str());
                match label {
                    Label::Punctuation | Label::Comma | Label::Modifiers => {},
                    Label::IntegralType | Label::TypeIdentifier | Label::GenericType => {
                        if field_data.java_type.is_some() {
                            failure = Some(offence(Violation::TwoTypes, child, self.text.as_str()));
                        } else {
                            let type_text = get_phrase_from_node(
                                self.text.as_str(),
                                child,
                            ).to_owned();
                            field_data.java_type = Some(
                                match label {
                                    Label::IntegralType => JavaType::IntegralType(type_text),
                                    Label::TypeIdentifier => JavaType::IdentifiedType(type_text),
                                    _ => JavaType::GenericType(type_text),
                                },
                            );
                        }
                    },
                    Label::VariableDeclarator => {
                        if field_data.java_type.is_none() {
                            failure = Some(
                                offence(Violation::MissingType, child, self.text.as_str()),
                            );
                        } else {
                            let name = get_phrase_from_node(self.text.as_str(), child).to_owned();
                            proof {
                                lemma_texts_push(field_data.fields@, name);
                            }
                            field_data.fields.push(name);
                        }
                    },
                    _ => {
                        report(diagnostics, Scope::Field, child, self.text.as_str());
                    },
                }
            }
            i += 1;
        }
        if let Some(error) = failure {
            return Err(error);
        }
        if field_data.java_type.is_none() {
            return Err(offence(Violation::MissingType, node, self.text.as_str()));
        }
        if field_data.fields.len() == 0 {
            return Err(offence(Violation::NoDeclarators, node, self.text.as_str()));
        }
        let mut declared = field_data.into();
        proof {
            lemma_field_views_append(self.fields@, declared@);
        }
        self.fields.append(&mut declared);
        proof {
            assert(pass_after(*final(self), *final(diagnostics), Ok::<(), ExtractError>(()))
                =~~= with_field(
                node@,
                pass_at(*old(self), *old(diagnostics)),
            ));
        }
        Ok(())
    }

    /// Reads the name of the class off its declaration.
    fn name_class(&mut self, node: &SyntaxNode, diagnostics: &mut Vec<Diagnostic>) -> (result:
        Result<(), ExtractError>)
        requires
            node@.fits(old(self).text@),
            old(self).name is None,
        ensures
            pass_after(*final(self), *final(diagnostics), result) == with_name(
                node@,
                pass_at(*old(self), *old(diagnostics)),
            ),
            final(self).text@ == old(self).text@,
    {
        let ghost text = self.text@;
        let ghost first = NameScan {
            name: None,
            closed: false,
            diagnostics: diagnostic_views(diagnostics@),
            error: None,
        };
        let mut name: Option<String> = None;
        let mut closed = false;
        let mut failure: Option<ExtractError> = None;
        let mut i: usize = 0;
        proof {
            node.lemma_children_agree();
        }
        while i < node.children.len() && !closed && failure.is_none()
            invariant
                i <= node.children@.len(),
                node.children_agree(),
                node@.fits(text),
                text == self.text@,
                *self == *old(self),
                name_scan(node@.children, 0, text, first) == name_scan(
                    node@.children,
                    i as int,
                    text,
                    NameScan {
                        name: text_opt(name),
                        closed,
                        diagnostics: diagnostic_views(diagnostics@),
                        error: error_opt(failure),
                    },
                ),
            decreases node.children@.len() - i,
        {
            let child = &node.children[i];
            assert(node@.children[i as int].fits(text));
            if child.named {
                match classify(child.kind.as_str()) {
                    Label::ClassBody => {
                        closed = true;
                    },
                    Label::ClassKeyword | Label::Modifiers => {},
                    Label::Identifier => {
                        if name.is_none() {
                            name = Some(get_phrase_from_node(self.text.as_str(), child).to_owned());
                        } else {
                            failure = Some(
                                offence(Violation::TwoIdentifiers, child, self.text.as_str()),
                            );
                        }
                    },
                    _ => {
                        if name.is_none() {
                            report(diagnostics, Scope::ClassName, child, self.text.as_str());
                        }
                    },
                }
            }
            i += 1;
        }
        if let Some(error) = failure {
            return Err(error);
        }
        self.name = name;
        proof {
            assert(pass_after(*final(self), *final(diagnostics), Ok::<(), ExtractError>(()))
                =~~= with_name(node@, pass_at(*old(self), *old(diagnostics))));
        }
        Ok(())
    }

    /// Reads a class declaration: the declaration of this class if it has no
    /// name yet, that of a nested class otherwise.
    pub fn retrieve_class_name(
        &mut self,
        node: &SyntaxNode,
        diagnostics: &mut Vec<Diagnostic>,
    ) -> (result: Result<(), ExtractError>)
        requires
            node@.fits(old(self).text@),
        ensures
            pass_after(*final(self), *final(diagnostics), result) == with_class(
                node@,
                pass_at(*old(self), *old(diagnostics)),
            ),
            final(self).text@ == old(self).text@,
        decreases node@, rank(pass_at(*old(self), *old(diagnostics))), 0int,
    {
        match &self.name {
            None => self.name_class(node, diagnostics),
            Some(name) => {
                let mut inner = JavaClass::new(self.text.as_str());
                inner.package = self.package.clone().concat(".").concat(name.as_str());
                assert(inner@ =~~= nested_blank(self@));
                match inner.from_tree(node, Standing::Nested, diagnostics) {
                    Err(error) => Err(error),
                    Ok(()) => {
                        proof {
                            assert(self.composition@.push(Box::new(inner)).drop_last()
                                == self.composition@);
                        }
                        self.composition.push(Box::new(inner));
                        proof {
                            assert(pass_after(
                                *final(self),
                                *final(diagnostics),
                                Ok::<(), ExtractError>(()),
                            ) =~~= with_class(node@, pass_at(*old(self), *old(diagnostics))));
                        }
                        Ok(())
                    },
                }
            },
        }
    }

    /// Performs the extraction action for `node` and says whether the
    /// traversal is to enter its children.
    pub fn match_grammar(
        &mut self,
        node: &SyntaxNode,
        standing: Standing,
        diagnostics: &mut Vec<Diagnostic>,
    ) -> (result: Result<bool, ExtractError>)
        requires
            node@.fits(old(self).text@),
        ensures
            pass_after(*final(self), *final(diagnostics), result) == dispatch(
                node@,
                standing,
                pass_at(*old(self), *old(diagnostics)),
            ),
            result matches Ok(descend) ==> descend == descends(label_of(node@.kind)),
            final(self).text@ == old(self).text@,
        decreases node@, rank(pass_at(*old(self), *old(diagnostics))), 1int,
    {
        let label = classify(node.kind.as_str());
        match label {
            Label::PackageDeclaration => {
                self.retrieve_package(node, standing, diagnostics);
            },
            Label::ImportDeclaration => {
                self.retrieve_import(node, diagnostics);
            },
            Label::ClassDeclaration => {
                match self.retrieve_class_name(node, diagnostics) {
                    Err(error) => {
                        return Err(error);
                    },
                    Ok(()) => {},
                }
            },
            Label::SuperInterfaces => {
                self.retrieve_interfaces(node, diagnostics);
            },
            Label::FieldDeclaration => {
                match self.retrieve_field(node, diagnostics) {
                    Err(error) => {
                        return Err(error);
                    },
                    Ok(()) => {},
                }
            },
            Label::Program
            | Label::Punctuation
            | Label::Comment
            | Label::ClassKeyword
            | Label::Modifiers
            | Label::Identifier
            | Label::ClassBody
            | Label::MethodDeclaration => {},
            _ => {
                report(diagnostics, Scope::Dispatch, node, self.text.as_str());
            },
        }
        Ok(enters(label))
    }

    /// Walks `node` and what lies below it, depth first and in source order.
    pub fn recursive_search(
        &mut self,
        node: &SyntaxNode,
        standing: Standing,
        diagnostics: &mut Vec<Diagnostic>,
    ) -> (result: Result<(), ExtractError>)
        requires
            node@.fits(old(self).text@),
        ensures
            pass_after(*final(self), *final(diagnostics), result) == visit(
                node@,
                standing,
                pass_at(*old(self), *old(diagnostics)),
            ),
            final(self).text@ == old(self).text@,
        decreases node@, rank(pass_at(*old(self), *old(diagnostics))), 2int,
    {
        let descend = match self.match_grammar(node, standing, diagnostics) {
            Err(error) => {
                return Err(error);
            },
            Ok(descend) => descend,
        };
        if !descend {
            return Ok(());
        }
        let ghost text = self.text@;
        let ghost after = pass_at(*self, *diagnostics);
        let mut failure: Option<ExtractError> = None;
        let mut i: usize = 0;
        proof {
            node.lemma_children_agree();
        }
        while i < node.children.len() && failure.is_none()
            invariant
                i <= node.children@.len(),
                node.children_agree(),
                node@.fits(text),
                text == self.text@,
                visit_all(node@.children, 0, standing, after) == visit_all(
                    node@.children,
                    i as int,
                    standing,
                    Pass {
                        class: self@,
                        diagnostics: diagnostic_views(diagnostics@),
                        error: error_opt(failure),
                    },
                ),
            decreases node.children@.len() - i,
        {
            let child = &node.children[i];
            assert(node@.children[i as int].fits(text));
            match self.recursive_search(child, standing, diagnostics) {
                Err(error) => {
                    failure = Some(error);
                },
                Ok(()) => {},
            }
            i += 1;
        }
        match failure {
            Some(error) => Err(error),
            None => Ok(()),
        }
    }

    /// Fills this class, a class of this standing, from the tree under
    /// `root`.
    ///
    /// The diagnostics of the extraction join `diagnostics`. On an error the
    /// class holds what was read before the offending node.
    pub fn from_tree(
        &mut self,
        root: &SyntaxNode,
        standing: Standing,
        diagnostics: &mut Vec<Diagnostic>,
    ) -> (result: Result<(), ExtractError>)
        requires
            root@.fits(old(self).text@),
        ensures
            pass_after(*final(self), *final(diagnostics), result) == visit(
                root@,
                standing,
                pass_at(*old(self), *old(diagnostics)),
            ),
            final(self).text@ == old(self).text@,
        decreases root@, rank(pass_at(*old(self), *old(diagnostics))), 3int,
    {
        self.recursive_search(root, standing, diagnostics)
    }

    /// The class that the tree under `root` describes, a tree of the source
    /// `text`, with the diagnostics of the extraction.
    ///
    /// Every nested class was made in the package that the class around it
    /// had at that moment. Below the top the nesting is therefore in order
    /// at every depth, and at the top it is where no package declaration is
    /// dispatched after a nested class has joined. Where the tree holds no
    /// package declaration, the class is in the default package.
    pub fn new_from_tree(root: &SyntaxNode, text: &str) -> (outcome: (
        Result<JavaClass, ExtractError>,
        Vec<Diagnostic>,
    ))
        requires
            root@.fits(text@),
        ensures
            diagnostic_views(outcome.1@) == extract(root@, text@).diagnostics,
            match outcome.0 {
                Ok(class) => extract(root@, text@).error is None && class@ == extract(
                    root@,
                    text@,
                ).class,
                Err(error) => extract(root@, text@).error == Some(error@),
            },
            outcome.0 matches Ok(class) ==> nests_well_below(class@),
            outcome.0 matches Ok(class) ==> !repackages(root@, Standing::TopLevel, start(text@))
                ==> nests_well(class@),
            outcome.0 matches Ok(class) ==> !has_label(root@, Label::PackageDeclaration)
                ==> class.package@ == Seq::<char>::empty(),
    {
        let mut java_class = JavaClass::new(text);
        let mut diagnostics: Vec<Diagnostic> = Vec::new();
        assert(pass_at(java_class, diagnostics) =~~= start(text@));
        proof {
            law_nesting_below_the_top(root@, text@);
            if !repackages(root@, Standing::TopLevel, start(text@)) {
                law_nested_packages(root@, text@);
            }
            if !has_label(root@, Label::PackageDeclaration) {
                law_default_package(root@, text@);
            }
        }
        match java_class.from_tree(root, Standing::TopLevel, &mut diagnostics) {
            Ok(()) => (Ok(java_class), diagnostics),
            Err(error) => (Err(error), diagnostics),
        }
    }
}

} // verus!
