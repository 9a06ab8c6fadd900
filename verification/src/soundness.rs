//! Why the second pass finds every class it looks for, and why its result
//! carries no wrong tag.
use vstd::prelude::*;
use crate::builder::{lemma_signature_of_refers, signature_refers};
use crate::error::CoreErrorView;
use crate::namespace::{names_class, refers_to_classes, Export, Item, Namespace, NamespaceOutput};
use crate::sign::{
    corrected_signature, corrected_tree, corrected_ty, lemma_corrected_ty, raw_signatures, resolvable, signature_resolvable, signed_entries,
    signed_modules, signed_namespace, signed_resolvable, signed_tree, tree_resolvable,
};
use crate::signature::{
    has_signature, signature_at, ClassSignatureView, SignatureView, SignedTreeView, SignedView,
};
use crate::tree::Tree;
use crate::ty::{DefinedType, TyNameView, TyView};

verus! {

/// Whether every reference to a class in `ty` names a signature of `tree` and
/// carries the kind of that signature.
pub open spec fn well_tagged(tree: SignedTreeView, ty: TyView) -> bool
    decreases ty,
{
    &&& match ty.name {
        TyNameView::Defined(path, kind) => has_signature(tree, path) && kind == signature_at(
            tree,
            path,
        ).kind(),
        TyNameView::Builtin(_) => true,
    }
    &&& forall|i: int| 0 <= i < ty.args.len() ==> well_tagged(tree, #[trigger] ty.args[i])
}

/// Whether every field, parameter and return type of `signature` is well
/// tagged in `tree`. Base types, which are kept as written, are not asked.
pub open spec fn signature_well_tagged(tree: SignedTreeView, signature: SignatureView) -> bool {
    match signature {
        SignatureView::Class(ClassSignatureView::Struct(class)) => forall|name: Seq<char>|
            class.fields.contains_key(name) ==> well_tagged(tree, #[trigger] class.fields[name]),
        SignatureView::Function(function) => {
            &&& forall|i: int|
                0 <= i < function.params.len() ==> well_tagged(
                    tree,
                    (#[trigger] function.params[i]).1,
                )
            &&& well_tagged(tree, function.returns)
        },
        _ => true,
    }
}

/// Whether every signature of `tree` is well tagged in `tree` itself.
pub open spec fn tree_well_tagged(tree: SignedTreeView) -> bool {
    forall|path: Seq<Seq<char>>, name: Seq<char>|
        tree.contains_key(path) && tree[path].contains_key(name) ==> signature_well_tagged(
            tree,
            #[trigger] tree[path][name],
        )
}

/// What signing a prefix of a namespace yields: signatures whose references
/// name defined classes, and one under the name of every definition.
pub proof fn lemma_signed_entries(
    root: Tree<Namespace>,
    namespace: Namespace,
    abs: Seq<Seq<char>>,
    n: nat,
)
    requires
        n <= namespace.names().len(),
        signed_entries(root, namespace, abs, n) is Ok,
    ensures
        forall|name: Seq<char>|
            signed_entries(root, namespace, abs, n)->Ok_0.contains_key(name) ==> signature_refers(
                root,
                #[trigger] signed_entries(root, namespace, abs, n)->Ok_0[name],
            ),
        forall|i: int|
            0 <= i < n && (#[trigger] namespace.values()[i] matches Export::Item(Item::Defined(_)))
                ==> signed_entries(root, namespace, abs, n)->Ok_0.contains_key(
                namespace.names()[i],
            ),
    decreases n,
{
    if n > 0 {
        lemma_signed_entries(root, namespace, abs, (n - 1) as nat);
        match namespace.values()[n - 1] {
            Export::Item(Item::Defined(def)) => {
                lemma_signature_of_refers(root, def, abs);
            },
            _ => {},
        }
    }
}

/// What signing a prefix of the modules yields: under the path of each module
/// signed so far, the signatures of that module, and nothing under any other
/// path.
pub proof fn lemma_signed_modules(root: Tree<Namespace>, n: nat)
    requires
        root.wf(),
        n <= root.paths().len(),
        signed_modules(root, n) is Ok,
    ensures
        forall|i: int|
            0 <= i < n ==> signed_modules(root, n)->Ok_0.contains_key(#[trigger] root.paths()[i])
                && signed_namespace(root, root.values()[i], root.paths()[i]) == Ok::<
                SignedView,
                CoreErrorView,
            >(signed_modules(root, n)->Ok_0[root.paths()[i]]),
        forall|path: Seq<Seq<char>>| #[trigger]
            signed_modules(root, n)->Ok_0.contains_key(path) ==> root.paths().contains(path)
                && root.paths().index_of(path) < n,
    decreases n,
{
    if n > 0 {
        lemma_signed_modules(root, (n - 1) as nat);
        let before = signed_modules(root, (n - 1) as nat)->Ok_0;
        let after = signed_modules(root, n)->Ok_0;
        let last = root.paths()[n - 1];
        assert forall|i: int| 0 <= i < n implies after.contains_key(#[trigger] root.paths()[i])
            && signed_namespace(root, root.values()[i], root.paths()[i]) == Ok::<
            SignedView,
            CoreErrorView,
        >(after[root.paths()[i]]) by {
            if i < n - 1 {
                assert(root.paths()[i] != last);
            }
        }
        assert forall|path: Seq<Seq<char>>| #[trigger] after.contains_key(path) implies root.paths().contains(
            path,
        ) && root.paths().index_of(path) < n by {
            if path == last {
                assert(root.paths().contains(path));
                let j = root.paths().index_of(path);
                assert(0 <= j < root.paths().len() && root.paths()[j] == root.paths()[n - 1]);
            }
        }
    }
}

/// Where the first pass succeeds, every class that `root` defines has a raw
/// signature under its path.
pub proof fn lemma_classes_are_signed(
    root: Tree<Namespace>,
    raw: SignedTreeView,
    path: Seq<Seq<char>>,
)
    requires
        root.wf(),
        raw_signatures(root) == Ok::<SignedTreeView, CoreErrorView>(raw),
        names_class(root, path),
    ensures
        has_signature(raw, path),
{
    let module = path.drop_last();
    let name = path.last();
    assert(root.paths().contains(module));
    let i = root.paths().index_of(module);
    assert(0 <= i < root.paths().len() && root.paths()[i] == module);
    lemma_signed_modules(root, root.paths().len());
    let namespace = root.values()[i];
    assert(root@[module] == namespace);
    assert(namespace.names().contains(name));
    let j = namespace.names().index_of(name);
    assert(0 <= j < namespace.names().len() && namespace.names()[j] == name);
    assert(namespace@[name] == namespace.values()[j]);
    lemma_signed_entries(root, namespace, module, namespace.names().len());
    assert(namespace.values()[j] matches Export::Item(Item::Defined(_)));
}

/// A type whose references name defined classes is resolvable among the raw
/// signatures.
pub proof fn lemma_refers_resolvable(root: Tree<Namespace>, raw: SignedTreeView, ty: TyView)
    requires
        root.wf(),
        raw_signatures(root) == Ok::<SignedTreeView, CoreErrorView>(raw),
        refers_to_classes(root, ty),
    ensures
        resolvable(raw, ty),
    decreases ty,
{
    match ty.name {
        TyNameView::Defined(path, _) => {
            lemma_classes_are_signed(root, raw, path);
        },
        TyNameView::Builtin(_) => {},
    }
    assert forall|i: int| 0 <= i < ty.args.len() implies resolvable(raw, #[trigger] ty.args[i]) by {
        lemma_refers_resolvable(root, raw, ty.args[i]);
    }
}

/// A signature whose references name defined classes is resolvable among the
/// raw signatures.
pub proof fn lemma_signature_refers_resolvable(
    root: Tree<Namespace>,
    raw: SignedTreeView,
    signature: SignatureView,
)
    requires
        root.wf(),
        raw_signatures(root) == Ok::<SignedTreeView, CoreErrorView>(raw),
        signature_refers(root, signature),
    ensures
        signature_resolvable(raw, signature),
{
    match signature {
        SignatureView::Class(ClassSignatureView::Struct(class)) => {
            assert forall|name: Seq<char>| class.fields.contains_key(name) implies #[trigger] resolvable(
                raw,
                class.fields[name],
            ) by {
                lemma_refers_resolvable(root, raw, class.fields[name]);
            }
        },
        SignatureView::Function(function) => {
            assert forall|i: int| 0 <= i < function.params.len() implies #[trigger] resolvable(
                raw,
                function.params[i].1,
            ) by {
                lemma_refers_resolvable(root, raw, function.params[i].1);
            }
            lemma_refers_resolvable(root, raw, function.returns);
        },
        _ => {},
    }
}

/// Where the first pass succeeds, the second finds every class it looks for.
pub proof fn lemma_raw_signatures_resolvable(root: Tree<Namespace>, raw: SignedTreeView)
    requires
        root.wf(),
        raw_signatures(root) == Ok::<SignedTreeView, CoreErrorView>(raw),
    ensures
        tree_resolvable(raw),
{
    lemma_signed_modules(root, root.paths().len());
    assert forall|path: Seq<Seq<char>>| raw.contains_key(path) implies #[trigger] signed_resolvable(
        raw,
        raw[path],
    ) by {
        let i = root.paths().index_of(path);
        assert(0 <= i < root.paths().len() && root.paths()[i] == path);
        let namespace = root.values()[i];
        lemma_signed_entries(root, namespace, path, namespace.names().len());
        assert forall|name: Seq<char>| raw[path].contains_key(name) implies #[trigger] signature_resolvable(
            raw,
            raw[path][name],
        ) by {
            lemma_signature_refers_resolvable(root, raw, raw[path][name]);
        }
    }
}

/// Whether every reference to a class in `ty` names a signature of `tree` and
/// is tagged as a struct, as the first pass tags it.
pub open spec fn tagged_as_struct(tree: SignedTreeView, ty: TyView) -> bool
    decreases ty,
{
    &&& match ty.name {
        TyNameView::Defined(path, kind) => has_signature(tree, path) && kind
            == DefinedType::Struct,
        TyNameView::Builtin(_) => true,
    }
    &&& forall|i: int| 0 <= i < ty.args.len() ==> tagged_as_struct(tree, #[trigger] ty.args[i])
}

/// Whether the base types of `signature` are as the first pass left them:
/// each reference in them names a signature of `tree` and is tagged as a
/// struct, whatever the kind of the class it names.
pub open spec fn bases_as_written(tree: SignedTreeView, signature: SignatureView) -> bool {
    match signature {
        SignatureView::Class(ClassSignatureView::Struct(class)) => forall|i: int|
            0 <= i < class.bases.len() ==> tagged_as_struct(tree, #[trigger] class.bases[i]),
        _ => true,
    }
}

/// Whether the base types of every signature of `tree` are as the first pass
/// left them.
pub open spec fn tree_bases_as_written(tree: SignedTreeView) -> bool {
    forall|path: Seq<Seq<char>>, name: Seq<char>|
        tree.contains_key(path) && tree[path].contains_key(name) ==> bases_as_written(
            tree,
            #[trigger] tree[path][name],
        )
}

/// A type whose references name defined classes is, among the signatures of
/// the signed tree, tagged as a struct throughout.
pub proof fn lemma_refers_tagged_as_struct(root: Tree<Namespace>, raw: SignedTreeView, ty: TyView)
    requires
        root.wf(),
        raw_signatures(root) == Ok::<SignedTreeView, CoreErrorView>(raw),
        refers_to_classes(root, ty),
    ensures
        tagged_as_struct(corrected_tree(raw), ty),
    decreases ty,
{
    match ty.name {
        TyNameView::Defined(path, _) => {
            lemma_classes_are_signed(root, raw, path);
        },
        TyNameView::Builtin(_) => {},
    }
    assert forall|i: int| 0 <= i < ty.args.len() implies tagged_as_struct(
        corrected_tree(raw),
        #[trigger] ty.args[i],
    ) by {
        lemma_refers_tagged_as_struct(root, raw, ty.args[i]);
    }
}

/// Correcting a signature leaves its kind as it was.
pub proof fn lemma_corrected_kind(raw: SignedTreeView, signature: SignatureView)
    ensures
        corrected_signature(raw, signature).kind() == signature.kind(),
{
}

/// Correcting a resolvable type leaves no wrong tag in it.
pub proof fn lemma_corrected_ty_well_tagged(raw: SignedTreeView, ty: TyView)
    requires
        resolvable(raw, ty),
    ensures
        well_tagged(corrected_tree(raw), corrected_ty(raw, ty)),
    decreases ty,
{
    lemma_corrected_ty(raw, ty);
    let out = corrected_ty(raw, ty);
    match ty.name {
        TyNameView::Defined(path, _) => {
            lemma_corrected_kind(raw, signature_at(raw, path));
        },
        TyNameView::Builtin(_) => {},
    }
    assert forall|i: int| 0 <= i < out.args.len() implies well_tagged(
        corrected_tree(raw),
        #[trigger] out.args[i],
    ) by {
        assert(resolvable(raw, ty.args[i]));
        lemma_corrected_ty_well_tagged(raw, ty.args[i]);
    }
}

/// Correcting a resolvable tree of raw signatures leaves no wrong tag in it.
pub proof fn lemma_corrected_tree_well_tagged(raw: SignedTreeView)
    requires
        tree_resolvable(raw),
    ensures
        tree_well_tagged(corrected_tree(raw)),
{
    let out = corrected_tree(raw);
    assert forall|path: Seq<Seq<char>>, name: Seq<char>|
        out.contains_key(path) && out[path].contains_key(name) implies signature_well_tagged(
        out,
        #[trigger] out[path][name],
    ) by {
        assert(signed_resolvable(raw, raw[path]));
        let before = raw[path][name];
        assert(signature_resolvable(raw, before));
        match before {
            SignatureView::Class(ClassSignatureView::Struct(class)) => {
                assert forall|field: Seq<char>| class.fields.contains_key(field) implies well_tagged(
                    out,
                    corrected_ty(raw, #[trigger] class.fields[field]),
                ) by {
                    lemma_corrected_ty_well_tagged(raw, class.fields[field]);
                }
            },
            SignatureView::Function(function) => {
                assert forall|i: int| 0 <= i < function.params.len() implies well_tagged(
                    out,
                    corrected_ty(raw, (#[trigger] function.params[i]).1),
                ) by {
                    lemma_corrected_ty_well_tagged(raw, function.params[i].1);
                }
                lemma_corrected_ty_well_tagged(raw, function.returns);
            },
            _ => {},
        }
    }
}

/// Signing never leaves a wrong tag: wherever it succeeds, every reference to
/// a class in a field, parameter or return type of the signed tree names a
/// signature of that tree and carries the kind of that signature.
pub proof fn theorem_signed_tree_well_tagged(registry: NamespaceOutput)
    requires
        registry.tree.wf(),
        signed_tree(registry) is Ok,
    ensures
        tree_well_tagged(signed_tree(registry)->Ok_0),
{
    let raw = raw_signatures(registry.tree)->Ok_0;
    lemma_raw_signatures_resolvable(registry.tree, raw);
    lemma_corrected_tree_well_tagged(raw);
}

/// The signed tree mirrors the namespaces: wherever signing succeeds, the
/// signed tree has a module at exactly the paths at which the namespaces
/// have one.
pub proof fn theorem_same_modules(registry: NamespaceOutput)
    requires
        registry.tree.wf(),
        signed_tree(registry) is Ok,
    ensures
        signed_tree(registry)->Ok_0.dom() == registry.tree@.dom(),
{
    let root = registry.tree;
    let out = signed_tree(registry)->Ok_0;
    lemma_signed_modules(root, root.paths().len());
    assert forall|path: Seq<Seq<char>>| root.paths().contains(path) implies out.contains_key(
        path,
    ) by {
        let i = root.paths().index_of(path);
        assert(0 <= i < root.paths().len() && root.paths()[i] == path);
    }
    assert(out.dom() =~= root@.dom());
}

/// Base types are kept as the first pass left them: wherever signing
/// succeeds, every reference to a class in a base type of the signed tree
/// names a signature of that tree and is tagged as a struct. Such a
/// reference carries the kind of its class exactly where that class is a
/// plain struct.
pub proof fn theorem_bases_as_written(registry: NamespaceOutput)
    requires
        registry.tree.wf(),
        signed_tree(registry) is Ok,
    ensures
        tree_bases_as_written(signed_tree(registry)->Ok_0),
{
    let root = registry.tree;
    let raw = raw_signatures(root)->Ok_0;
    let out = corrected_tree(raw);
    lemma_signed_modules(root, root.paths().len());
    assert forall|path: Seq<Seq<char>>, name: Seq<char>|
        out.contains_key(path) && out[path].contains_key(name) implies bases_as_written(
        out,
        #[trigger] out[path][name],
    ) by {
        let m = root.paths().index_of(path);
        assert(0 <= m < root.paths().len() && root.paths()[m] == path);
        let namespace = root.values()[m];
        lemma_signed_entries(root, namespace, path, namespace.names().len());
        let before = raw[path][name];
        assert(signature_refers(root, before));
        match before {
            SignatureView::Class(ClassSignatureView::Struct(class)) => {
                assert forall|i: int| 0 <= i < class.bases.len() implies tagged_as_struct(
                    out,
                    #[trigger] class.bases[i],
                ) by {
                    lemma_refers_tagged_as_struct(root, raw, class.bases[i]);
                }
            },
            _ => {},
        }
    }
}

/// A reference to a class that turns out to be an account is tagged as an
/// account, wherever the class is defined: in a signed tree, a field whose
/// type refers to `path`, where `path` holds a struct that is an account,
/// carries the tag `Account`.
pub proof fn theorem_reference_to_account(
    registry: NamespaceOutput,
    module: Seq<Seq<char>>,
    class: Seq<char>,
    field: Seq<char>,
    path: Seq<Seq<char>>,
    kind: DefinedType,
)
    requires
        registry.tree.wf(),
        signed_tree(registry) is Ok,
        signed_tree(registry)->Ok_0.contains_key(module),
        signed_tree(registry)->Ok_0[module].contains_key(class),
        signed_tree(registry)->Ok_0[module][class] matches SignatureView::Class(
            ClassSignatureView::Struct(signature),
        ) && signature.fields.contains_key(field) && signature.fields[field].name
            == TyNameView::Defined(path, kind),
    ensures
        has_signature(signed_tree(registry)->Ok_0, path),
        (signature_at(signed_tree(registry)->Ok_0, path) matches SignatureView::Class(
            ClassSignatureView::Struct(target),
        ) && target.is_account) ==> kind == DefinedType::Account,
{
    theorem_signed_tree_well_tagged(registry);
    let tree = signed_tree(registry)->Ok_0;
    assert(signature_well_tagged(tree, tree[module][class]));
}

/// Signing is a function of the namespaces alone: the same namespaces give
/// the same signed tree, or the same error.
pub proof fn theorem_signing_is_deterministic(first: NamespaceOutput, second: NamespaceOutput)
    requires
        first.tree == second.tree,
    ensures
        signed_tree(first) == signed_tree(second),
{
}

} // verus!
