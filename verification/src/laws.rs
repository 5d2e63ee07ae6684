//! Laws of the extraction: what holds of its result on every syntax tree.

use vstd::prelude::*;
use crate::grammar::{descends, label_of, Label};
use crate::model::{ClassView, Standing};
use crate::rules::{
    dispatch,
    extract,
    field_scan,
    field_step,
    import_scan,
    import_step,
    interface_scan,
    interface_step,
    name_scan,
    name_step,
    nested_blank,
    nested_package,
    package_scan,
    package_step,
    rank,
    spanned,
    start,
    type_list_scan,
    visit,
    visit_all,
    with_class,
    with_name,
    with_package,
    FieldScan,
    ImportScan,
    InterfaceScan,
    NameScan,
    PackageScan,
    Pass,
};
use crate::syntax::{lemma_skeletons, skeleton, skeletons, Syntax};

verus! {

/// Whether `node` or a node below it is of the category `label`.
pub open spec fn has_label(node: Syntax, label: Label) -> bool
    decreases node,
{
    label_of(node.kind) == label || exists|i: int|
        0 <= i < node.children.len() && has_label(#[trigger] node.children[i], label)
}

/// Every class of the composition lies in the package that the package and
/// the name of the class around it make, and so on down the nesting.
pub open spec fn nests_well(class: ClassView) -> bool
    decreases class,
{
    forall|i: int|
        0 <= i < class.composition.len() ==> {
            &&& class.name is Some
            &&& (#[trigger] class.composition[i]).package == nested_package(
                class.package,
                class.name->0,
            )
            &&& nests_well(class.composition[i])
        }
}

// Without a package declaration the package stays as it is.

proof fn lemma_dispatch_keeps_package(node: Syntax, standing: Standing, pass: Pass)
    requires
        label_of(node.kind) != Label::PackageDeclaration,
    ensures
        dispatch(node, standing, pass).class.package == pass.class.package,
{
}

proof fn lemma_visit_keeps_package(node: Syntax, standing: Standing, pass: Pass)
    requires
        !has_label(node, Label::PackageDeclaration),
    ensures
        visit(node, standing, pass).class.package == pass.class.package,
    decreases node, 1int,
{
    lemma_dispatch_keeps_package(node, standing, pass);
    let after = dispatch(node, standing, pass);
    if !(after.error is Some || !descends(label_of(node.kind))) {
        lemma_visit_all_keeps_package(node.children, 0, standing, after);
    }
}

proof fn lemma_visit_all_keeps_package(nodes: Seq<Syntax>, i: int, standing: Standing, pass: Pass)
    requires
        0 <= i,
        forall|k: int|
            0 <= k < nodes.len() ==> !has_label(#[trigger] nodes[k], Label::PackageDeclaration),
    ensures
        visit_all(nodes, i, standing, pass).class.package == pass.class.package,
    decreases nodes, nodes.len() - i,
{
    if i < nodes.len() && pass.error is None {
        lemma_visit_keeps_package(nodes[i], standing, pass);
        lemma_visit_all_keeps_package(nodes, i + 1, standing, visit(nodes[i], standing, pass));
    }
}

/// A source without a package declaration leaves the class in the default
/// package: where no node of the tree is a package declaration, the package
/// of the extracted class is empty.
pub proof fn law_default_package(root: Syntax, text: Seq<char>)
    requires
        !has_label(root, Label::PackageDeclaration),
    ensures
        extract(root, text).class.package == Seq::<char>::empty(),
{
    lemma_visit_keeps_package(root, Standing::TopLevel, start(text));
}

// Nested classes lie in the package that the class around them makes.

/// The nested classes of `class` have their own nesting in order.
pub open spec fn nests_well_below(class: ClassView) -> bool {
    forall|i: int| 0 <= i < class.composition.len() ==> nests_well(#[trigger] class.composition[i])
}

/// Whether the walk over `node` dispatches a package declaration for a
/// top-level class at a moment when the class holds a nested class. Such a
/// declaration gives the class a package that its nested classes were not
/// made from.
pub open spec fn repackages(node: Syntax, standing: Standing, pass: Pass) -> bool
    decreases node, 1int,
{
    ||| {
        &&& standing is TopLevel
        &&& label_of(node.kind) == Label::PackageDeclaration
        &&& pass.class.composition.len() > 0
    }
    ||| {
        &&& dispatch(node, standing, pass).error is None
        &&& descends(label_of(node.kind))
        &&& repackages_among(node.children, 0, standing, dispatch(node, standing, pass))
    }
}

/// Whether the walk over the nodes from the `i`-th on dispatches such a
/// package declaration.
pub open spec fn repackages_among(
    nodes: Seq<Syntax>,
    i: int,
    standing: Standing,
    pass: Pass,
) -> bool
    decreases nodes, nodes.len() - i,
{
    &&& 0 <= i < nodes.len()
    &&& pass.error is None
    &&& {
        ||| repackages(nodes[i], standing, pass)
        ||| repackages_among(nodes, i + 1, standing, visit(nodes[i], standing, pass))
    }
}

proof fn lemma_nested_walk_repackages_nothing(node: Syntax, pass: Pass)
    ensures
        !repackages(node, Standing::Nested, pass),
    decreases node, 1int,
{
    lemma_nested_walks_repackage_nothing(
        node.children,
        0,
        dispatch(node, Standing::Nested, pass),
    );
}

proof fn lemma_nested_walks_repackage_nothing(nodes: Seq<Syntax>, i: int, pass: Pass)
    ensures
        !repackages_among(nodes, i, Standing::Nested, pass),
    decreases nodes, nodes.len() - i,
{
    if 0 <= i < nodes.len() {
        lemma_nested_walk_repackages_nothing(nodes[i], pass);
        lemma_nested_walks_repackage_nothing(
            nodes,
            i + 1,
            visit(nodes[i], Standing::Nested, pass),
        );
    }
}

/// A class with the composition, the package and the name of a class whose
/// nesting is in order has its nesting in order too.
proof fn lemma_same_nesting(before: ClassView, after: ClassView)
    requires
        after.composition == before.composition,
        after.package == before.package,
        after.name == before.name,
    ensures
        nests_well(before) ==> nests_well(after),
        nests_well_below(before) ==> nests_well_below(after),
{
    if nests_well(before) {
        assert forall|i: int| 0 <= i < after.composition.len() implies {
            &&& after.name is Some
            &&& (#[trigger] after.composition[i]).package == nested_package(
                after.package,
                after.name->0,
            )
            &&& nests_well(after.composition[i])
        } by {
            assert(after.composition[i] == before.composition[i]);
        }
    }
}

/// What every step of a walk keeps of the nesting: below the class it is
/// always in order; at the class itself it stays in order unless the step
/// repackages; a name stays, and so does the package of a nested class.
spec fn nesting_kept(standing: Standing, before: Pass, after: Pass, repackaged: bool) -> bool {
    &&& nests_well_below(after.class)
    &&& nests_well(before.class) && !repackaged ==> nests_well(after.class)
    &&& standing is Nested ==> after.class.package == before.class.package
    &&& before.class.name is Some ==> after.class.name == before.class.name
}

proof fn lemma_package_keeps_nesting(node: Syntax, standing: Standing, pass: Pass)
    requires
        nests_well_below(pass.class),
    ensures
        nesting_kept(
            standing,
            pass,
            with_package(node, standing, pass),
            standing is TopLevel && pass.class.composition.len() > 0,
        ),
{
    let after = with_package(node, standing, pass).class;
    assert(after.composition == pass.class.composition);
    if after.package == pass.class.package {
        lemma_same_nesting(pass.class, after);
    }
}

proof fn lemma_name_keeps_nesting(node: Syntax, standing: Standing, pass: Pass)
    requires
        nests_well_below(pass.class),
        pass.class.name is None,
    ensures
        nesting_kept(standing, pass, with_name(node, pass), false),
{
    let after = with_name(node, pass).class;
    assert(after.composition == pass.class.composition);
    if nests_well(pass.class) {
        assert(pass.class.composition.len() == 0) by {
            if pass.class.composition.len() > 0 {
                let first = pass.class.composition[0];
            }
        }
    }
}

proof fn lemma_class_keeps_nesting(node: Syntax, standing: Standing, pass: Pass)
    requires
        nests_well_below(pass.class),
    ensures
        nesting_kept(standing, pass, with_class(node, pass), false),
        pass.class.name is Some && with_class(node, pass).error is None ==> {
            let joined = with_class(node, pass).class.composition.last();
            &&& with_class(node, pass).class.composition == pass.class.composition.push(joined)
            &&& joined.package == nested_package(pass.class.package, pass.class.name->0)
            &&& nests_well(joined)
        },
    decreases node, rank(pass), 0int,
{
    if pass.class.name is None {
        lemma_name_keeps_nesting(node, standing, pass);
    } else {
        let blank = Pass {
            class: nested_blank(pass.class),
            diagnostics: pass.diagnostics,
            error: None,
        };
        let inner = visit(node, Standing::Nested, blank);
        lemma_nested_walk_repackages_nothing(node, blank);
        lemma_visit_keeps_nesting(node, Standing::Nested, blank);
        let after = with_class(node, pass).class;
        if inner.error is None {
            assert forall|i: int| 0 <= i < after.composition.len() implies nests_well(
                #[trigger] after.composition[i],
            ) by {
                if i < pass.class.composition.len() {
                    assert(after.composition[i] == pass.class.composition[i]);
                }
            }
            if nests_well(pass.class) {
                assert forall|i: int| 0 <= i < after.composition.len() implies {
                    &&& after.name is Some
                    &&& (#[trigger] after.composition[i]).package == nested_package(
                        after.package,
                        after.name->0,
                    )
                    &&& nests_well(after.composition[i])
                } by {
                    if i < pass.class.composition.len() {
                        assert(after.composition[i] == pass.class.composition[i]);
                    }
                }
            }
        } else {
            lemma_same_nesting(pass.class, after);
        }
    }
}

proof fn lemma_dispatch_keeps_nesting(node: Syntax, standing: Standing, pass: Pass)
    requires
        nests_well_below(pass.class),
    ensures
        nesting_kept(
            standing,
            pass,
            dispatch(node, standing, pass),
            standing is TopLevel && label_of(node.kind) == Label::PackageDeclaration
                && pass.class.composition.len() > 0,
        ),
    decreases node, rank(pass), 1int,
{
    match label_of(node.kind) {
        Label::PackageDeclaration => lemma_package_keeps_nesting(node, standing, pass),
        Label::ClassDeclaration => lemma_class_keeps_nesting(node, standing, pass),
        _ => lemma_same_nesting(pass.class, dispatch(node, standing, pass).class),
    }
}

proof fn lemma_visit_keeps_nesting(node: Syntax, standing: Standing, pass: Pass)
    requires
        nests_well_below(pass.class),
    ensures
        nesting_kept(
            standing,
            pass,
            visit(node, standing, pass),
            repackages(node, standing, pass),
        ),
    decreases node, rank(pass), 2int,
{
    lemma_dispatch_keeps_nesting(node, standing, pass);
    let after = dispatch(node, standing, pass);
    if !(after.error is Some || !descends(label_of(node.kind))) {
        lemma_visit_all_keeps_nesting(node.children, 0, standing, after);
    }
}

proof fn lemma_visit_all_keeps_nesting(nodes: Seq<Syntax>, i: int, standing: Standing, pass: Pass)
    requires
        0 <= i,
        nests_well_below(pass.class),
    ensures
        nesting_kept(
            standing,
            pass,
            visit_all(nodes, i, standing, pass),
            repackages_among(nodes, i, standing, pass),
        ),
    decreases nodes, nodes.len() - i, 0int,
{
    if i < nodes.len() && pass.error is None {
        lemma_visit_keeps_nesting(nodes[i], standing, pass);
        lemma_visit_all_keeps_nesting(nodes, i + 1, standing, visit(nodes[i], standing, pass));
    }
}

/// A nested class is made in the package that the class around it has at
/// that moment: where a class declaration is read for a class that has its
/// name, and no error ends the reading, one class joins the composition;
/// its package is the package of the class around it, a dot, and the name
/// of the class around it; and its own nesting is in order at every depth.
pub proof fn law_nested_class_joins_in_place(node: Syntax, pass: Pass)
    requires
        nests_well_below(pass.class),
        pass.class.name is Some,
        with_class(node, pass).error is None,
    ensures
        with_class(node, pass).class.composition == pass.class.composition.push(
            with_class(node, pass).class.composition.last(),
        ),
        with_class(node, pass).class.composition.last().package == nested_package(
            pass.class.package,
            pass.class.name->0,
        ),
        nests_well(with_class(node, pass).class.composition.last()),
{
    lemma_class_keeps_nesting(node, Standing::TopLevel, pass);
}

/// The traversal keeps the nesting in order: a class whose nested classes
/// lie in the packages that their surrounding classes make still is such a
/// class after any node has been walked, whether the walk ends in an error
/// or not, unless the walk repackages the class.
pub proof fn law_nesting_is_kept(node: Syntax, standing: Standing, pass: Pass)
    requires
        nests_well(pass.class),
        !repackages(node, standing, pass),
    ensures
        nests_well(visit(node, standing, pass).class),
{
    assert(nests_well_below(pass.class));
    lemma_visit_keeps_nesting(node, standing, pass);
}

/// Below the top, the nesting is always in order: for every class nested
/// in a class that is itself nested in the extracted class, at every depth,
/// the package is the package of the class around it, a dot, and the name
/// of the class around it.
pub proof fn law_nesting_below_the_top(root: Syntax, text: Seq<char>)
    ensures
        nests_well_below(extract(root, text).class),
{
    lemma_visit_keeps_nesting(root, Standing::TopLevel, start(text));
}

/// For every nested class of an extracted class, at every depth, the
/// package is the package of the class around it, a dot, and the name of
/// the class around it, where no package declaration is dispatched after a
/// nested class has joined the extracted class.
pub proof fn law_nested_packages(root: Syntax, text: Seq<char>)
    requires
        !repackages(root, Standing::TopLevel, start(text)),
    ensures
        nests_well(extract(root, text).class),
{
    lemma_visit_keeps_nesting(root, Standing::TopLevel, start(text));
}

// What is known is kept.

/// `after` holds all that `before` holds: the same source text and
/// superclass, the name if `before` has one, and the interfaces, fields and
/// nested classes of `before` at the head of its own, in the same order; it
/// has no fewer imports. The package is the same for a nested class, and for
/// a class that holds nested classes.
pub open spec fn keeps(standing: Standing, before: ClassView, after: ClassView) -> bool {
    &&& after.text == before.text
    &&& after.superclass == before.superclass
    &&& before.name is Some ==> after.name == before.name
    &&& standing is Nested ==> after.package == before.package
    &&& before.implements.is_prefix_of(after.implements)
    &&& before.fields.is_prefix_of(after.fields)
    &&& before.composition.is_prefix_of(after.composition)
    &&& before.imports.len() <= after.imports.len()
}

/// `after` holds all of `before`, and the diagnostics of `before` head its
/// own.
pub open spec fn follows(standing: Standing, before: Pass, after: Pass) -> bool {
    keeps(standing, before.class, after.class) && before.diagnostics.is_prefix_of(
        after.diagnostics,
    )
}

proof fn lemma_follows_chain(standing: Standing, a: Pass, b: Pass, c: Pass)
    requires
        follows(standing, a, b),
        follows(standing, b, c),
    ensures
        follows(standing, a, c),
{
}

proof fn lemma_package_scan_adds(
    children: Seq<Syntax>,
    i: int,
    text: Seq<char>,
    scan: PackageScan,
)
    requires
        0 <= i,
    ensures
        scan.diagnostics.is_prefix_of(package_scan(children, i, text, scan).diagnostics),
    decreases children.len() - i,
{
    if i < children.len() {
        lemma_package_scan_adds(children, i + 1, text, package_step(children[i], text, scan));
    }
}

proof fn lemma_import_scan_adds(
    children: Seq<Syntax>,
    i: int,
    text: Seq<char>,
    scan: ImportScan,
)
    requires
        0 <= i,
    ensures
        scan.diagnostics.is_prefix_of(import_scan(children, i, text, scan).diagnostics),
        scan.imports.len() <= import_scan(children, i, text, scan).imports.len(),
    decreases children.len() - i,
{
    if i < children.len() {
        lemma_import_scan_adds(children, i + 1, text, import_step(children[i], text, scan));
    }
}

proof fn lemma_type_list_scan_adds(
    members: Seq<Syntax>,
    i: int,
    text: Seq<char>,
    names: Seq<Seq<char>>,
)
    requires
        0 <= i,
    ensures
        names.is_prefix_of(type_list_scan(members, i, text, names)),
    decreases members.len() - i,
{
    if i < members.len() {
        let next = if members[i].named {
            names.push(spanned(members[i], text))
        } else {
            names
        };
        lemma_type_list_scan_adds(members, i + 1, text, next);
    }
}

proof fn lemma_interface_scan_adds(
    children: Seq<Syntax>,
    i: int,
    text: Seq<char>,
    scan: InterfaceScan,
)
    requires
        0 <= i,
    ensures
        scan.diagnostics.is_prefix_of(interface_scan(children, i, text, scan).diagnostics),
        scan.implements.is_prefix_of(interface_scan(children, i, text, scan).implements),
    decreases children.len() - i,
{
    if i < children.len() {
        let next = interface_step(children[i], text, scan);
        if children[i].named && label_of(children[i].kind) == Label::TypeList {
            lemma_type_list_scan_adds(children[i].children, 0, text, scan.implements);
        }
        lemma_interface_scan_adds(children, i + 1, text, next);
    }
}

proof fn lemma_field_scan_adds(
    children: Seq<Syntax>,
    i: int,
    text: Seq<char>,
    scan: FieldScan,
)
    requires
        0 <= i,
    ensures
        scan.diagnostics.is_prefix_of(field_scan(children, i, text, scan).diagnostics),
    decreases children.len() - i,
{
    if i < children.len() && scan.error is None {
        lemma_field_scan_adds(children, i + 1, text, field_step(children[i], text, scan));
    }
}

proof fn lemma_name_scan_adds(
    children: Seq<Syntax>,
    i: int,
    text: Seq<char>,
    scan: NameScan,
)
    requires
        0 <= i,
    ensures
        scan.diagnostics.is_prefix_of(name_scan(children, i, text, scan).diagnostics),
    decreases children.len() - i,
{
    if i < children.len() && !scan.closed && scan.error is None {
        lemma_name_scan_adds(children, i + 1, text, name_step(children[i], text, scan));
    }
}

proof fn lemma_class_follows(node: Syntax, standing: Standing, pass: Pass)
    ensures
        follows(standing, pass, with_class(node, pass)),
    decreases node, rank(pass), 0int,
{
    if pass.class.name is None {
        lemma_name_scan_adds(
            node.children,
            0,
            pass.class.text,
            NameScan {
                name: None,
                closed: false,
                diagnostics: pass.diagnostics,
                error: None,
            },
        );
    } else {
        let blank = Pass {
            class: nested_blank(pass.class),
            diagnostics: pass.diagnostics,
            error: None,
        };
        lemma_visit_follows(node, Standing::Nested, blank);
    }
}

proof fn lemma_dispatch_follows(node: Syntax, standing: Standing, pass: Pass)
    ensures
        follows(standing, pass, dispatch(node, standing, pass)),
    decreases node, rank(pass), 1int,
{
    let text = pass.class.text;
    match label_of(node.kind) {
        Label::PackageDeclaration => {
            lemma_package_scan_adds(
                node.children,
                0,
                text,
                PackageScan { found: None, diagnostics: pass.diagnostics },
            );
        },
        Label::ImportDeclaration => {
            lemma_import_scan_adds(
                node.children,
                0,
                text,
                ImportScan {
                    imports: pass.class.imports,
                    diagnostics: pass.diagnostics,
                },
            );
        },
        Label::ClassDeclaration => {
            lemma_class_follows(node, standing, pass);
        },
        Label::SuperInterfaces => {
            lemma_interface_scan_adds(
                node.children,
                0,
                text,
                InterfaceScan {
                    implements: pass.class.implements,
                    diagnostics: pass.diagnostics,
                },
            );
        },
        Label::FieldDeclaration => {
            lemma_field_scan_adds(
                node.children,
                0,
                text,
                FieldScan {
                    java_type: None,
                    names: Seq::empty(),
                    diagnostics: pass.diagnostics,
                    error: None,
                },
            );
        },
        _ => {},
    }
}

proof fn lemma_visit_follows(node: Syntax, standing: Standing, pass: Pass)
    ensures
        follows(standing, pass, visit(node, standing, pass)),
    decreases node, rank(pass), 2int,
{
    lemma_dispatch_follows(node, standing, pass);
    let after = dispatch(node, standing, pass);
    if !(after.error is Some || !descends(label_of(node.kind))) {
        lemma_visit_all_follows(node.children, 0, standing, after);
        lemma_follows_chain(
            standing,
            pass,
            after,
            visit_all(node.children, 0, standing, after),
        );
    }
}

proof fn lemma_visit_all_follows(nodes: Seq<Syntax>, i: int, standing: Standing, pass: Pass)
    requires
        0 <= i,
    ensures
        follows(standing, pass, visit_all(nodes, i, standing, pass)),
    decreases nodes, nodes.len() - i, 0int,
{
    if i < nodes.len() && pass.error is None {
        let next = visit(nodes[i], standing, pass);
        lemma_visit_follows(nodes[i], standing, pass);
        lemma_visit_all_follows(nodes, i + 1, standing, next);
        lemma_follows_chain(standing, pass, next, visit_all(nodes, i + 1, standing, next));
    }
}

/// The traversal only adds. Whether it ends in an error or not, the class
/// keeps its source text, its name once it has one, and the interfaces,
/// fields and nested classes it had, in their places; new ones and new
/// diagnostics come after those that were there. A nested class keeps its
/// package.
pub proof fn law_walk_only_adds(node: Syntax, standing: Standing, pass: Pass)
    ensures
        follows(standing, pass, visit(node, standing, pass)),
{
    lemma_visit_follows(node, standing, pass);
}

// The skeleton of a tree is all that the extraction reads.

proof fn lemma_package_scan_of_skeletons(
    children: Seq<Syntax>,
    i: int,
    text: Seq<char>,
    scan: PackageScan,
)
    requires
        0 <= i,
    ensures
        package_scan(skeletons(children), i, text, scan) == package_scan(children, i, text, scan),
    decreases children.len() - i,
{
    lemma_skeletons(children);
    if i < children.len() {
        lemma_package_scan_of_skeletons(children, i + 1, text, package_step(children[i], text, scan));
    }
}

proof fn lemma_import_scan_of_skeletons(
    children: Seq<Syntax>,
    i: int,
    text: Seq<char>,
    scan: ImportScan,
)
    requires
        0 <= i,
    ensures
        import_scan(skeletons(children), i, text, scan) == import_scan(children, i, text, scan),
    decreases children.len() - i,
{
    lemma_skeletons(children);
    if i < children.len() {
        lemma_import_scan_of_skeletons(children, i + 1, text, import_step(children[i], text, scan));
    }
}

proof fn lemma_type_list_scan_of_skeletons(
    members: Seq<Syntax>,
    i: int,
    text: Seq<char>,
    names: Seq<Seq<char>>,
)
    requires
        0 <= i,
    ensures
        type_list_scan(skeletons(members), i, text, names) == type_list_scan(
            members,
            i,
            text,
            names,
        ),
    decreases members.len() - i,
{
    lemma_skeletons(members);
    if i < members.len() {
        let next = if members[i].named {
            names.push(spanned(members[i], text))
        } else {
            names
        };
        lemma_type_list_scan_of_skeletons(members, i + 1, text, next);
    }
}

proof fn lemma_interface_scan_of_skeletons(
    children: Seq<Syntax>,
    i: int,
    text: Seq<char>,
    scan: InterfaceScan,
)
    requires
        0 <= i,
    ensures
        interface_scan(skeletons(children), i, text, scan) == interface_scan(
            children,
            i,
            text,
            scan,
        ),
    decreases children.len() - i,
{
    lemma_skeletons(children);
    if i < children.len() {
        if children[i].named && label_of(children[i].kind) == Label::TypeList {
            lemma_type_list_scan_of_skeletons(children[i].children, 0, text, scan.implements);
        }
        lemma_interface_scan_of_skeletons(
            children,
            i + 1,
            text,
            interface_step(children[i], text, scan),
        );
    }
}

proof fn lemma_field_scan_of_skeletons(
    children: Seq<Syntax>,
    i: int,
    text: Seq<char>,
    scan: FieldScan,
)
    requires
        0 <= i,
    ensures
        field_scan(skeletons(children), i, text, scan) == field_scan(children, i, text, scan),
    decreases children.len() - i,
{
    lemma_skeletons(children);
    if i < children.len() && scan.error is None {
        lemma_field_scan_of_skeletons(children, i + 1, text, field_step(children[i], text, scan));
    }
}

proof fn lemma_name_scan_of_skeletons(
    children: Seq<Syntax>,
    i: int,
    text: Seq<char>,
    scan: NameScan,
)
    requires
        0 <= i,
    ensures
        name_scan(skeletons(children), i, text, scan) == name_scan(children, i, text, scan),
    decreases children.len() - i,
{
    lemma_skeletons(children);
    if i < children.len() && !scan.closed && scan.error is None {
        lemma_name_scan_of_skeletons(children, i + 1, text, name_step(children[i], text, scan));
    }
}

proof fn lemma_class_of_skeleton(node: Syntax, pass: Pass)
    requires
        label_of(node.kind) == Label::ClassDeclaration,
    ensures
        with_class(skeleton(node), pass) == with_class(node, pass),
    decreases node, rank(pass), 0int,
{
    if pass.class.name is None {
        lemma_name_scan_of_skeletons(
            node.children,
            0,
            pass.class.text,
            NameScan { name: None, closed: false, diagnostics: pass.diagnostics, error: None },
        );
    } else {
        lemma_visit_of_skeleton(
            node,
            Standing::Nested,
            Pass { class: nested_blank(pass.class), diagnostics: pass.diagnostics, error: None },
        );
    }
}

proof fn lemma_dispatch_of_skeleton(node: Syntax, standing: Standing, pass: Pass)
    ensures
        dispatch(skeleton(node), standing, pass) == dispatch(node, standing, pass),
    decreases node, rank(pass), 1int,
{
    let text = pass.class.text;
    match label_of(node.kind) {
        Label::PackageDeclaration => {
            lemma_package_scan_of_skeletons(
                node.children,
                0,
                text,
                PackageScan { found: None, diagnostics: pass.diagnostics },
            );
        },
        Label::ImportDeclaration => {
            lemma_import_scan_of_skeletons(
                node.children,
                0,
                text,
                ImportScan { imports: pass.class.imports, diagnostics: pass.diagnostics },
            );
        },
        Label::ClassDeclaration => {
            lemma_class_of_skeleton(node, pass);
        },
        Label::SuperInterfaces => {
            lemma_interface_scan_of_skeletons(
                node.children,
                0,
                text,
                InterfaceScan { implements: pass.class.implements, diagnostics: pass.diagnostics },
            );
        },
        Label::FieldDeclaration => {
            lemma_field_scan_of_skeletons(
                node.children,
                0,
                text,
                FieldScan {
                    java_type: None,
                    names: Seq::empty(),
                    diagnostics: pass.diagnostics,
                    error: None,
                },
            );
        },
        _ => {},
    }
}

proof fn lemma_visit_of_skeleton(node: Syntax, standing: Standing, pass: Pass)
    ensures
        visit(skeleton(node), standing, pass) == visit(node, standing, pass),
    decreases node, rank(pass), 2int,
{
    lemma_dispatch_of_skeleton(node, standing, pass);
    let after = dispatch(node, standing, pass);
    if !(after.error is Some || !descends(label_of(node.kind))) {
        lemma_visit_all_of_skeletons(node.children, 0, standing, after);
    }
}

proof fn lemma_visit_all_of_skeletons(
    nodes: Seq<Syntax>,
    i: int,
    standing: Standing,
    pass: Pass,
)
    requires
        0 <= i,
    ensures
        visit_all(skeletons(nodes), i, standing, pass) == visit_all(nodes, i, standing, pass),
    decreases nodes, nodes.len() - i, 0int,
{
    lemma_skeletons(nodes);
    if i < nodes.len() && pass.error is None {
        lemma_visit_of_skeleton(nodes[i], standing, pass);
        lemma_visit_all_of_skeletons(nodes, i + 1, standing, visit(nodes[i], standing, pass));
    }
}

/// The skeleton of a tree is all that the extraction reads of it: the
/// walk over the skeleton ends as the walk over the whole tree does, in the
/// same class, with the same diagnostics and the same error.
pub proof fn law_skeleton_suffices(node: Syntax, standing: Standing, pass: Pass)
    ensures
        visit(skeleton(node), standing, pass) == visit(node, standing, pass),
{
    lemma_visit_of_skeleton(node, standing, pass);
}

} // verus!
