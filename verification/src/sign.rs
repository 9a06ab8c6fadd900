//! The two passes of the signing phase. The first gives every definition its
//! raw signature, in which each reference to a class is tagged as a struct.
//! The second looks every such reference up among the raw signatures and
//! tags it with the kind of the class it names.
use vstd::prelude::*;
use vstd::std_specs::convert::TryFromSpecImpl;
use crate::builder::{build_signature, signature_of};
use crate::error::{CResult, CoreError, CoreErrorView};
use crate::name_map::NameMap;
use crate::namespace::{Export, Item, Namespace, NamespaceOutput};
use crate::signature::{
    fields_view, has_signature, params_view, signature_at, signed_tree_view, signed_view,
    ClassSignature, ClassSignatureView, FunctionSignature, FunctionSignatureView, SignOutput,
    Signature, SignatureView, Signed, SignedTreeView, SignedView, StructSignature,
    StructSignatureView,
};
use crate::soundness::{
    lemma_corrected_tree_well_tagged, lemma_raw_signatures_resolvable, tree_well_tagged,
};
use crate::tree::{clone_path, Tree};
use crate::ty::{clone_tys, ParamType, Ty, TyName, TyNameView, TyView};

verus! {

/// The raw signatures of the first `n` entries of `namespace`, the export
/// table of the module at `abs`, or the first failure among them. A
/// definition is signed under the name it is exported by, an intrinsic under
/// its own name, an import not at all; a later entry replaces an earlier one
/// of the same name.
pub open spec fn signed_entries(
    root: Tree<Namespace>,
    namespace: Namespace,
    abs: Seq<Seq<char>>,
    n: nat,
) -> Result<SignedView, CoreErrorView>
    decreases n,
{
    if n == 0 || n > namespace.names().len() {
        Ok(Map::empty())
    } else {
        match signed_entries(root, namespace, abs, (n - 1) as nat) {
            Err(error) => Err(error),
            Ok(signed) => match namespace.values()[n - 1] {
                Export::Item(Item::Defined(def)) => match signature_of(root, def, abs) {
                    Ok(signature) => Ok(signed.insert(namespace.names()[n - 1], signature)),
                    Err(error) => Err(error),
                },
                Export::Item(Item::Builtin(builtin)) => Ok(
                    signed.insert(builtin@.name(), SignatureView::Builtin(builtin@)),
                ),
                Export::Import(_) => Ok(signed),
            },
        }
    }
}

/// The raw signatures of a whole namespace.
pub open spec fn signed_namespace(
    root: Tree<Namespace>,
    namespace: Namespace,
    abs: Seq<Seq<char>>,
) -> Result<SignedView, CoreErrorView> {
    signed_entries(root, namespace, abs, namespace.names().len())
}

/// The raw signatures of the first `n` modules of `root`, or the first
/// failure among them.
pub open spec fn signed_modules(root: Tree<Namespace>, n: nat) -> Result<
    SignedTreeView,
    CoreErrorView,
>
    decreases n,
{
    if n == 0 || n > root.paths().len() {
        Ok(Map::empty())
    } else {
        match signed_modules(root, (n - 1) as nat) {
            Err(error) => Err(error),
            Ok(tree) => match signed_namespace(root, root.values()[n - 1], root.paths()[n - 1]) {
                Ok(signed) => Ok(tree.insert(root.paths()[n - 1], signed)),
                Err(error) => Err(error),
            },
        }
    }
}

/// What the first pass makes of `root`: the raw signatures of all its
/// modules, or the first failure.
pub open spec fn raw_signatures(root: Tree<Namespace>) -> Result<SignedTreeView, CoreErrorView> {
    signed_modules(root, root.paths().len())
}

/// Once a prefix of a namespace has failed, every longer prefix fails the same way.
pub proof fn lemma_signed_entries_failure_stays(
    root: Tree<Namespace>,
    namespace: Namespace,
    abs: Seq<Seq<char>>,
    n: nat,
    m: nat,
)
    requires
        n <= m <= namespace.names().len(),
        signed_entries(root, namespace, abs, n) is Err,
    ensures
        signed_entries(root, namespace, abs, m) == signed_entries(root, namespace, abs, n),
    decreases m,
{
    if n < m {
        lemma_signed_entries_failure_stays(root, namespace, abs, n, (m - 1) as nat);
    }
}

/// Once a prefix of the modules has failed, every longer prefix fails the same way.
pub proof fn lemma_signed_modules_failure_stays(root: Tree<Namespace>, n: nat, m: nat)
    requires
        n <= m <= root.paths().len(),
        signed_modules(root, n) is Err,
    ensures
        signed_modules(root, m) == signed_modules(root, n),
    decreases m,
{
    if n < m {
        lemma_signed_modules_failure_stays(root, n, (m - 1) as nat);
    }
}

/// A head with its tag set right: a reference to a class takes the kind of
/// the signature found at its path, an intrinsic stays as it is.
pub open spec fn corrected_name(tree: SignedTreeView, name: TyNameView) -> TyNameView {
    match name {
        TyNameView::Defined(path, _) => TyNameView::Defined(path, signature_at(tree, path).kind()),
        TyNameView::Builtin(_) => name,
    }
}

/// A type with every tag in it set right, in the head and in all arguments.
pub open spec fn corrected_ty(tree: SignedTreeView, ty: TyView) -> TyView
    decreases ty,
{
    TyView {
        name: corrected_name(tree, ty.name),
        args: Seq::new(
            ty.args.len(),
            |i: int|
                if 0 <= i < ty.args.len() {
                    corrected_ty(tree, ty.args[i])
                } else {
                    arbitrary()
                },
        ),
    }
}

/// Each of `tys` with every tag in it set right.
pub open spec fn corrected_tys(tree: SignedTreeView, tys: Seq<TyView>) -> Seq<TyView> {
    Seq::new(tys.len(), |i: int| corrected_ty(tree, tys[i]))
}

/// Correcting a type corrects its head and each of its arguments.
pub proof fn lemma_corrected_ty(tree: SignedTreeView, ty: TyView)
    ensures
        corrected_ty(tree, ty) == (TyView {
            name: corrected_name(tree, ty.name),
            args: corrected_tys(tree, ty.args),
        }),
{
    reveal_with_fuel(corrected_ty, 2);
    assert(corrected_ty(tree, ty).args =~= corrected_tys(tree, ty.args));
}

/// Whether every reference to a class in `ty` names a signature of `tree`.
pub open spec fn resolvable(tree: SignedTreeView, ty: TyView) -> bool
    decreases ty,
{
    &&& match ty.name {
        TyNameView::Defined(path, _) => has_signature(tree, path),
        TyNameView::Builtin(_) => true,
    }
    &&& forall|i: int| 0 <= i < ty.args.len() ==> resolvable(tree, #[trigger] ty.args[i])
}

/// A resolvable type has resolvable arguments.
pub proof fn lemma_resolvable_arg(tree: SignedTreeView, ty: TyView, i: int)
    requires
        resolvable(tree, ty),
        0 <= i < ty.args.len(),
    ensures
        resolvable(tree, ty.args[i]),
{
    reveal_with_fuel(resolvable, 2);
}

/// A signature with every tag in its field, parameter and return types set
/// right. Base types stay as written, and so do enums and intrinsics, which
/// hold no types.
pub open spec fn corrected_signature(tree: SignedTreeView, signature: SignatureView) -> SignatureView {
    match signature {
        SignatureView::Class(ClassSignatureView::Struct(class)) => SignatureView::Class(
            ClassSignatureView::Struct(
                StructSignatureView {
                    is_account: class.is_account,
                    bases: class.bases,
                    fields: Map::new(
                        |name: Seq<char>| class.fields.contains_key(name),
                        |name: Seq<char>| corrected_ty(tree, class.fields[name]),
                    ),
                },
            ),
        ),
        SignatureView::Function(function) => SignatureView::Function(
            FunctionSignatureView {
                params: Seq::new(
                    function.params.len(),
                    |i: int|
                        (
                            function.params[i].0,
                            corrected_ty(tree, function.params[i].1),
                            function.params[i].2,
                        ),
                ),
                returns: corrected_ty(tree, function.returns),
            },
        ),
        _ => signature,
    }
}

/// The signatures of a namespace, each corrected.
pub open spec fn corrected_signed(tree: SignedTreeView, signed: SignedView) -> SignedView {
    Map::new(
        |name: Seq<char>| signed.contains_key(name),
        |name: Seq<char>| corrected_signature(tree, signed[name]),
    )
}

/// What the second pass makes of the raw signatures `tree`: every signature
/// corrected against `tree` itself.
pub open spec fn corrected_tree(tree: SignedTreeView) -> SignedTreeView {
    Map::new(
        |path: Seq<Seq<char>>| tree.contains_key(path),
        |path: Seq<Seq<char>>| corrected_signed(tree, tree[path]),
    )
}

/// Whether every reference to a class in the field, parameter and return
/// types of `signature` names a signature of `tree`.
pub open spec fn signature_resolvable(tree: SignedTreeView, signature: SignatureView) -> bool {
    match signature {
        SignatureView::Class(ClassSignatureView::Struct(class)) => forall|name: Seq<char>|
            class.fields.contains_key(name) ==> #[trigger] resolvable(tree, class.fields[name]),
        SignatureView::Function(function) => {
            &&& forall|i: int|
                0 <= i < function.params.len() ==> #[trigger] resolvable(
                    tree,
                    function.params[i].1,
                )
            &&& resolvable(tree, function.returns)
        },
        _ => true,
    }
}

/// Whether every signature of `signed` is resolvable in `tree`.
pub open spec fn signed_resolvable(tree: SignedTreeView, signed: SignedView) -> bool {
    forall|name: Seq<char>|
        signed.contains_key(name) ==> #[trigger] signature_resolvable(tree, signed[name])
}

/// Whether every signature of `tree` is resolvable in `tree` itself.
pub open spec fn tree_resolvable(tree: SignedTreeView) -> bool {
    forall|path: Seq<Seq<char>>|
        tree.contains_key(path) ==> #[trigger] signed_resolvable(tree, tree[path])
}

/// What signing makes of `registry`: the raw signatures of its modules, each
/// corrected against all of them; or the first failure of the first pass.
pub open spec fn signed_tree(registry: NamespaceOutput) -> Result<SignedTreeView, CoreErrorView> {
    match raw_signatures(registry.tree) {
        Ok(raw) => Ok(corrected_tree(raw)),
        Err(error) => Err(error),
    }
}

/// Signs one namespace: the raw signature of every definition and intrinsic
/// that the module at `abs` exports.
pub fn sign_namespace(namespace: &Namespace, abs: &Vec<String>, root: &Tree<Namespace>) -> (r:
    CResult<Signed>)
    ensures
        match r {
            Ok(signed) => signed_namespace(*root, *namespace, abs.deep_view()) == Ok::<
                SignedView,
                CoreErrorView,
            >(signed_view(signed)),
            Err(error) => signed_namespace(*root, *namespace, abs.deep_view()) == Err::<
                SignedView,
                CoreErrorView,
            >(error@),
        },
{
    let mut signatures: Signed = NameMap::new();
    let n = namespace.len();
    let mut i: usize = 0;
    assert(signed_view(signatures) =~= Map::<Seq<char>, SignatureView>::empty());
    while i < n
        invariant
            i <= n,
            n == namespace.names().len(),
            signed_entries(*root, *namespace, abs.deep_view(), i as nat) == Ok::<
                SignedView,
                CoreErrorView,
            >(signed_view(signatures)),
        decreases n - i,
    {
        let ghost before = signed_view(signatures);
        match namespace.value_at(i) {
            Export::Item(Item::Defined(def)) => {
                match build_signature(def, abs, root) {
                    Ok(signature) => {
                        signatures.insert(namespace.name_at(i).clone(), signature);
                        assert(signed_view(signatures) =~= before.insert(
                            namespace.names()[i as int],
                            signature@,
                        ));
                    },
                    Err(error) => {
                        proof {
                            lemma_signed_entries_failure_stays(
                                *root,
                                *namespace,
                                abs.deep_view(),
                                (i + 1) as nat,
                                n as nat,
                            );
                        }
                        return Err(error);
                    },
                }
            },
            Export::Item(Item::Builtin(builtin)) => {
                signatures.insert(builtin.name(), Signature::Builtin(builtin.clone()));
                assert(signed_view(signatures) =~= before.insert(
                    builtin@.name(),
                    SignatureView::Builtin(builtin@),
                ));
            },
            Export::Import(_) => {},
        }
        i += 1;
    }
    Ok(signatures)
}

/// The first pass: signs every module of `root`.
pub fn sign_modules(root: &Tree<Namespace>) -> (r: CResult<Tree<Signed>>)
    ensures
        match r {
            Ok(tree) => raw_signatures(*root) == Ok::<SignedTreeView, CoreErrorView>(
                signed_tree_view(tree),
            ),
            Err(error) => raw_signatures(*root) == Err::<SignedTreeView, CoreErrorView>(error@),
        },
{
    let mut raw: Tree<Signed> = Tree::new();
    let n = root.len();
    let mut i: usize = 0;
    assert(signed_tree_view(raw) =~= Map::<Seq<Seq<char>>, SignedView>::empty());
    while i < n
        invariant
            i <= n,
            n == root.paths().len(),
            signed_modules(*root, i as nat) == Ok::<SignedTreeView, CoreErrorView>(
                signed_tree_view(raw),
            ),
        decreases n - i,
    {
        let abs = root.path_at(i);
        match sign_namespace(root.value_at(i), abs, root) {
            Ok(signed) => {
                let ghost before = signed_tree_view(raw);
                raw.insert(clone_path(abs), signed);
                assert(signed_tree_view(raw) =~= before.insert(
                    root.paths()[i as int],
                    signed_view(signed),
                ));
            },
            Err(error) => {
                proof {
                    lemma_signed_modules_failure_stays(*root, (i + 1) as nat, n as nat);
                }
                return Err(error);
            },
        }
        i += 1;
    }
    Ok(raw)
}

impl Tree<Signed> {
    /// Corrects `ty` against the signatures of this tree.
    #[verifier::loop_isolation(false)]
    fn correct_ref(&self, ty: &Ty) -> (r: Ty)
        requires
            resolvable(signed_tree_view(*self), ty@),
        ensures
            r@ == corrected_ty(signed_tree_view(*self), ty@),
        decreases ty,
    {
        let ghost tree = signed_tree_view(*self);
        match ty {
            Ty::Generic(name, params) => {
                proof {
                    ty.lemma_view();
                    lemma_corrected_ty(tree, ty@);
                }
                let head = match name {
                    TyName::Defined(path, _) => match self.get_leaf_ext(path) {
                        Some(signature) => TyName::Defined(clone_path(path), signature.kind()),
                        None => unreached(),
                    },
                    TyName::Builtin(builtin) => TyName::Builtin(builtin.clone()),
                };
                let mut args: Vec<Ty> = Vec::new();
                let mut i: usize = 0;
                while i < params.len()
                    invariant
                        i <= params@.len(),
                        args@.len() == i,
                        forall|j: int| 0 <= j < i ==> args@[j]@ == corrected_ty(tree, params@[j]@),
                    decreases params@.len() - i,
                {
                    assert(decreases_to!(params => params[i as int]));
                    proof {
                        lemma_resolvable_arg(tree, ty@, i as int);
                    }
                    args.push(self.correct_ref(&params[i]));
                    i += 1;
                }
                let r = Ty::Generic(head, args);
                proof {
                    r.lemma_view();
                    assert(r@.args =~= corrected_tys(tree, ty@.args));
                }
                r
            },
        }
    }

    /// Corrects typenames: gives every reference to a class in `ty` the kind
    /// of the class it names in this tree of raw signatures.
    pub fn correct(&self, ty: Ty) -> (r: Ty)
        requires
            resolvable(signed_tree_view(*self), ty@),
        ensures
            r@ == corrected_ty(signed_tree_view(*self), ty@),
    {
        self.correct_ref(&ty)
    }
}

/// Corrects the field types of a struct.
fn correct_fields(raw: &Tree<Signed>, fields: &NameMap<Ty>) -> (r: NameMap<Ty>)
    requires
        forall|name: Seq<char>|
            fields_view(*fields).contains_key(name) ==> #[trigger] resolvable(
                signed_tree_view(*raw),
                fields_view(*fields)[name],
            ),
    ensures
        fields_view(r) == Map::new(
            |name: Seq<char>| fields_view(*fields).contains_key(name),
            |name: Seq<char>| corrected_ty(signed_tree_view(*raw), fields_view(*fields)[name]),
        ),
{
    let ghost tree = signed_tree_view(*raw);
    let mut out: NameMap<Ty> = NameMap::new();
    let n = fields.len();
    let mut i: usize = 0;
    assert(out.names() =~= fields.names().take(0));
    while i < n
        invariant
            i <= n,
            n == fields.names().len(),
            fields.wf(),
            tree == signed_tree_view(*raw),
            out.names() == fields.names().take(i as int),
            out.values().len() == i,
            forall|j: int| 0 <= j < i ==> out.values()[j]@ == corrected_ty(tree, fields.values()[j]@),
            forall|name: Seq<char>|
                fields_view(*fields).contains_key(name) ==> #[trigger] resolvable(
                    tree,
                    fields_view(*fields)[name],
                ),
        decreases n - i,
    {
        let name = fields.name_at(i);
        let ty = fields.value_at(i);
        assert(resolvable(tree, fields_view(*fields)[name@]));
        let corrected = raw.correct_ref(ty);
        assert(!out.names().contains(name@)) by {
            if out.names().contains(name@) {
                let j = out.names().index_of(name@);
                assert(fields.names()[j] == fields.names()[i as int]);
            }
        }
        let ghost before = out.values();
        out.insert(name.clone(), corrected);
        assert(out.names() =~= fields.names().take(i + 1));
        assert(out.values() == before.push(corrected));
        i += 1;
    }
    assert(out.names() =~= fields.names());
    assert(fields_view(out) =~= Map::new(
        |name: Seq<char>| fields_view(*fields).contains_key(name),
        |name: Seq<char>| corrected_ty(tree, fields_view(*fields)[name]),
    )) by {
        assert forall|name: Seq<char>| fields.names().contains(name) implies #[trigger] fields_view(
            out,
        )[name] == corrected_ty(tree, fields_view(*fields)[name]) by {
            let j = fields.names().index_of(name);
            assert(0 <= j < fields.names().len() && fields.names()[j] == name);
        }
    }
    out
}

/// Corrects the parameter types of a function.
fn correct_params(raw: &Tree<Signed>, params: &Vec<(String, Ty, ParamType)>) -> (r: Vec<
    (String, Ty, ParamType),
>)
    requires
        forall|i: int|
            0 <= i < params@.len() ==> #[trigger] resolvable(
                signed_tree_view(*raw),
                params_view(params@)[i].1,
            ),
    ensures
        params_view(r@) == Seq::new(
            params_view(params@).len(),
            |i: int|
                (
                    params_view(params@)[i].0,
                    corrected_ty(signed_tree_view(*raw), params_view(params@)[i].1),
                    params_view(params@)[i].2,
                ),
        ),
{
    let ghost tree = signed_tree_view(*raw);
    let mut out: Vec<(String, Ty, ParamType)> = Vec::new();
    let mut i: usize = 0;
    while i < params.len()
        invariant
            i <= params@.len(),
            out@.len() == i,
            tree == signed_tree_view(*raw),
            forall|j: int|
                0 <= j < i ==> out@[j].0@ == params@[j].0@ && out@[j].1@ == corrected_ty(
                    tree,
                    params@[j].1@,
                ) && out@[j].2 == params@[j].2,
            forall|j: int|
                0 <= j < params@.len() ==> #[trigger] resolvable(tree, params_view(params@)[j].1),
        decreases params@.len() - i,
    {
        assert(resolvable(tree, params_view(params@)[i as int].1));
        let corrected = raw.correct_ref(&params[i].1);
        out.push((params[i].0.clone(), corrected, params[i].2));
        i += 1;
    }
    assert(params_view(out@) =~= Seq::new(
        params_view(params@).len(),
        |i: int|
            (
                params_view(params@)[i].0,
                corrected_ty(tree, params_view(params@)[i].1),
                params_view(params@)[i].2,
            ),
    ));
    out
}

/// Corrects one signature against the raw signatures `raw`.
fn correct_signature(raw: &Tree<Signed>, signature: &Signature) -> (r: Signature)
    requires
        signature_resolvable(signed_tree_view(*raw), signature@),
    ensures
        r@ == corrected_signature(signed_tree_view(*raw), signature@),
{
    match signature {
        Signature::Class(ClassSignature::Struct(class)) => {
            let fields = correct_fields(raw, &class.fields);
            Signature::Class(
                ClassSignature::Struct(
                    StructSignature {
                        is_account: class.is_account,
                        bases: clone_tys(&class.bases),
                        fields,
                    },
                ),
            )
        },
        Signature::Class(ClassSignature::Enum(class)) => Signature::Class(
            ClassSignature::Enum(class.clone()),
        ),
        Signature::Function(function) => {
            let params = correct_params(raw, &function.params);
            let ret = raw.correct_ref(&function.returns);
            Signature::Function(FunctionSignature { params, returns: ret })
        },
        Signature::Builtin(builtin) => Signature::Builtin(builtin.clone()),
    }
}

/// Corrects the signatures of one namespace against the raw signatures `raw`.
fn correct_signed(raw: &Tree<Signed>, signed: &Signed) -> (r: Signed)
    requires
        signed_resolvable(signed_tree_view(*raw), signed_view(*signed)),
    ensures
        signed_view(r) == corrected_signed(signed_tree_view(*raw), signed_view(*signed)),
{
    let ghost tree = signed_tree_view(*raw);
    let mut out: Signed = NameMap::new();
    let n = signed.len();
    let mut i: usize = 0;
    assert(out.names() =~= signed.names().take(0));
    while i < n
        invariant
            i <= n,
            n == signed.names().len(),
            signed.wf(),
            tree == signed_tree_view(*raw),
            out.names() == signed.names().take(i as int),
            out.values().len() == i,
            forall|j: int|
                0 <= j < i ==> out.values()[j]@ == corrected_signature(tree, signed.values()[j]@),
            signed_resolvable(tree, signed_view(*signed)),
        decreases n - i,
    {
        let name = signed.name_at(i);
        let signature = signed.value_at(i);
        assert(signature_resolvable(tree, signed_view(*signed)[name@]));
        let corrected = correct_signature(raw, signature);
        assert(!out.names().contains(name@)) by {
            if out.names().contains(name@) {
                let j = out.names().index_of(name@);
                assert(signed.names()[j] == signed.names()[i as int]);
            }
        }
        let ghost before = out.values();
        out.insert(name.clone(), corrected);
        assert(out.names() =~= signed.names().take(i + 1));
        assert(out.values() == before.push(corrected));
        i += 1;
    }
    assert(out.names() =~= signed.names());
    assert(signed_view(out) =~= corrected_signed(tree, signed_view(*signed))) by {
        assert forall|name: Seq<char>| signed.names().contains(name) implies #[trigger] signed_view(
            out,
        )[name] == corrected_signature(tree, signed_view(*signed)[name]) by {
            let j = signed.names().index_of(name);
            assert(0 <= j < signed.names().len() && signed.names()[j] == name);
        }
    }
    out
}

/// The second pass: corrects every signature of `raw` against `raw` itself.
pub fn correct_tree(raw: &Tree<Signed>) -> (r: Tree<Signed>)
    requires
        tree_resolvable(signed_tree_view(*raw)),
    ensures
        signed_tree_view(r) == corrected_tree(signed_tree_view(*raw)),
{
    let ghost tree = signed_tree_view(*raw);
    let mut out: Tree<Signed> = Tree::new();
    let n = raw.len();
    let mut i: usize = 0;
    assert(out.paths() =~= raw.paths().take(0));
    while i < n
        invariant
            i <= n,
            n == raw.paths().len(),
            raw.wf(),
            tree == signed_tree_view(*raw),
            out.paths() == raw.paths().take(i as int),
            out.values().len() == i,
            forall|j: int|
                0 <= j < i ==> signed_view(out.values()[j]) == corrected_signed(
                    tree,
                    signed_view(raw.values()[j]),
                ),
            tree_resolvable(tree),
        decreases n - i,
    {
        let path = raw.path_at(i);
        let signed = raw.value_at(i);
        assert(signed_resolvable(tree, tree[path.deep_view()]));
        let corrected = correct_signed(raw, signed);
        assert(!out.paths().contains(path.deep_view())) by {
            if out.paths().contains(path.deep_view()) {
                let j = out.paths().index_of(path.deep_view());
                assert(raw.paths()[j] == raw.paths()[i as int]);
            }
        }
        let ghost before = out.values();
        out.insert(clone_path(path), corrected);
        assert(out.paths() =~= raw.paths().take(i + 1));
        assert(out.values() == before.push(corrected));
        i += 1;
    }
    assert(out.paths() =~= raw.paths());
    assert(signed_tree_view(out) =~= corrected_tree(tree)) by {
        assert forall|path: Seq<Seq<char>>| raw.paths().contains(path) implies #[trigger] signed_tree_view(
            out,
        )[path] == corrected_signed(tree, tree[path]) by {
            let j = raw.paths().index_of(path);
            assert(0 <= j < raw.paths().len() && raw.paths()[j] == path);
        }
    }
    out
}

impl TryFrom<NamespaceOutput> for SignOutput {
    type Error = CoreError;

    /// Signs the namespaces: runs the first pass over all of them, and, where
    /// it succeeds, the second pass over its result. The first failure of the
    /// first pass is returned as it is, and no tree with it.
    fn try_from(namespace_output: NamespaceOutput) -> (r: CResult<SignOutput>)
        ensures
            match r {
                Ok(output) => {
                    &&& signed_tree(namespace_output) == Ok::<SignedTreeView, CoreErrorView>(
                        signed_tree_view(output.tree),
                    )
                    &&& output.namespace_output == namespace_output
                    &&& tree_well_tagged(signed_tree_view(output.tree))
                },
                Err(error) => signed_tree(namespace_output) == Err::<
                    SignedTreeView,
                    CoreErrorView,
                >(error@),
            },
    {
        let raw_tree = match sign_modules(&namespace_output.tree) {
            Ok(raw_tree) => raw_tree,
            Err(error) => {
                return Err(error);
            },
        };
        proof {
            use_type_invariant(&namespace_output.tree);
            lemma_raw_signatures_resolvable(namespace_output.tree, signed_tree_view(raw_tree));
            lemma_corrected_tree_well_tagged(signed_tree_view(raw_tree));
        }
        let tree = correct_tree(&raw_tree);
        Ok(SignOutput { namespace_output, tree })
    }
}

impl TryFromSpecImpl<NamespaceOutput> for SignOutput {
    /// What the conversion returns is stated by its own contract, over the
    /// views of its results.
    open spec fn obeys_try_from_spec() -> bool {
        false
    }

    open spec fn try_from_spec(namespace_output: NamespaceOutput) -> Result<Self, CoreError> {
        arbitrary()
    }
}

/// Signs the namespaces of `registry`: gives every definition in them its
/// signature, with every reference to a class tagged by the kind of the
/// class.
pub fn sign(registry: NamespaceOutput) -> (r: Result<SignOutput, CoreError>)
    ensures
        match r {
            Ok(output) => {
                &&& signed_tree(registry) == Ok::<SignedTreeView, CoreErrorView>(
                    signed_tree_view(output.tree),
                )
                &&& output.namespace_output == registry
                &&& tree_well_tagged(signed_tree_view(output.tree))
            },
            Err(error) => signed_tree(registry) == Err::<SignedTreeView, CoreErrorView>(error@),
        },
{
    SignOutput::try_from(registry)
}

} // verus!
