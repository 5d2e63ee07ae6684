//! What an extraction reports beside the model: diagnostics for what it
//! skipped, and the error that ended it.

use vstd::prelude::*;
use vstd::string::*;

verus! {

/// The part of the extraction that met a node it does not know.
#[derive(Debug, Clone, Copy, PartialEq, Eq)]
pub enum Scope {
    /// The traversal itself.
    Dispatch,
    /// The scan of a package declaration.
    Package,
    /// The scan of a class declaration for its name.
    ClassName,
    /// The scan of an import declaration.
    Import,
    /// The scan of a field declaration.
    Field,
    /// The scan of an `implements` clause.
    Interfaces,
}

/// A node that the extraction skipped: its category and the source text it
/// spans.
#[derive(Debug, PartialEq, Eq)]
pub struct Diagnostic {
    pub scope: Scope,
    pub kind: String,
    pub phrase: String,
}

/// A structure that the model cannot hold.
#[derive(Debug, Clone, Copy, PartialEq, Eq)]
pub enum Violation {
    /// A class declaration has a second name before its body.
    TwoIdentifiers,
    /// A field statement has a second type.
    TwoTypes,
    /// A field statement declares a name before any type, or has no type.
    MissingType,
    /// A field statement has a type and declares no name.
    NoDeclarators,
}

/// The error that ends an extraction: the violation, and the category and
/// source text of the offending node.
#[derive(Debug, PartialEq, Eq)]
pub struct ExtractError {
    pub violation: Violation,
    pub kind: String,
    pub phrase: String,
}

/// The mathematical value of a [`Diagnostic`].
pub struct DiagnosticView {
    pub scope: Scope,
    pub kind: Seq<char>,
    pub phrase: Seq<char>,
}

/// The mathematical value of an [`ExtractError`].
pub struct ErrorView {
    pub violation: Violation,
    pub kind: Seq<char>,
    pub phrase: Seq<char>,
}

impl View for Diagnostic {
    type V = DiagnosticView;

    open spec fn view(&self) -> DiagnosticView {
        DiagnosticView { scope: self.scope, kind: self.kind@, phrase: self.phrase@ }
    }
}

impl View for ExtractError {
    type V = ErrorView;

    open spec fn view(&self) -> ErrorView {
        ErrorView { violation: self.violation, kind: self.kind@, phrase: self.phrase@ }
    }
}

/// The words that name a scope at the head of a diagnostic line.
pub open spec fn scope_prefix(scope: Scope) -> Seq<char> {
    match scope {
        Scope::Dispatch => ""@,
        Scope::Package => "package: "@,
        Scope::ClassName => "class_name: "@,
        Scope::Import => "import: "@,
        Scope::Field => "field: "@,
        Scope::Interfaces => ""@,
    }
}

/// A diagnostic as one line: scope, category, and source text.
pub open spec fn diagnostic_line(diagnostic: DiagnosticView) -> Seq<char> {
    scope_prefix(diagnostic.scope) + diagnostic.kind + " : "@ + diagnostic.phrase
}

impl Diagnostic {
    /// This diagnostic as one line of text.
    pub fn line(&self) -> (line: String)
        ensures
            line@ == diagnostic_line(self@),
    {
        let mut line = match self.scope {
            Scope::Dispatch => "".to_owned(),
            Scope::Package => "package: ".to_owned(),
            Scope::ClassName => "class_name: ".to_owned(),
            Scope::Import => "import: ".to_owned(),
            Scope::Field => "field: ".to_owned(),
            Scope::Interfaces => "".to_owned(),
        };
        line.append(self.kind.as_str());
        line.append(" : ");
        line.append(self.phrase.as_str());
        line
    }
}

/// The mathematical values of a run of diagnostics.
pub open spec fn diagnostic_views(diagnostics: Seq<Diagnostic>) -> Seq<DiagnosticView> {
    diagnostics.map_values(|d: Diagnostic| d@)
}

/// `diagnostic_views` works diagnostic by diagnostic.
pub proof fn lemma_diagnostic_views_push(diagnostics: Seq<Diagnostic>, d: Diagnostic)
    ensures
        diagnostic_views(diagnostics.push(d)) == diagnostic_views(diagnostics).push(d@),
{
    assert(diagnostic_views(diagnostics.push(d)) =~= diagnostic_views(diagnostics).push(d@));
}

} // verus!
