//! Namespaces: what each module exports, and what a name in a module stands for.
use vstd::prelude::*;
use crate::ast::{TopLevelStatement, TopLevelStatementObj, TyExpression, TyExpressionObj};
use crate::error::{view_result, CResult, CoreErrorView, Error, ErrorView};
use crate::name_map::NameMap;
use crate::source::Located;
use crate::tree::{child_path, clone_path, Tree};
use crate::ty::{tys_view, Builtin, DefinedType, Ty, TyName, TyNameView, TyView};

verus! {

/// Something a module holds itself.
#[derive(Debug)]
pub enum Item {
    /// A class or a function defined in the module.
    Defined(TopLevelStatement),
    /// An intrinsic.
    Builtin(Builtin),
}

/// An entry of a module's export table.
#[derive(Debug)]
pub enum Export {
    /// A name taken from another module: the absolute path of the item it
    /// stands for.
    Import(Vec<String>),
    /// An item of the module itself.
    Item(Item),
}

/// The export table of a module.
pub type Namespace = NameMap<Export>;

/// What namespace resolution hands to the signing phase.
#[derive(Debug)]
pub struct NamespaceOutput {
    pub tree: Tree<Namespace>,
}

/// The head of the type that `item`, found at `path`, stands for: intrinsics
/// stand for themselves, classes for a reference to their path, provisionally
/// tagged as a struct. Functions are no types.
pub open spec fn item_ty_name(item: Item, path: Seq<Seq<char>>) -> Option<TyNameView> {
    match item {
        Item::Builtin(builtin) => Some(TyNameView::Builtin(builtin@)),
        Item::Defined(def) => if def.1 is ClassDef {
            Some(TyNameView::Defined(path, DefinedType::Struct))
        } else {
            None
        },
    }
}

/// The head of the type that `name` stands for in the module at `abs`: the
/// item of that name in the module's export table, or, where the entry is an
/// import, the item at the path it gives.
pub open spec fn resolve_name(root: Tree<Namespace>, abs: Seq<Seq<char>>, name: Seq<char>) -> Option<
    TyNameView,
> {
    if root@.contains_key(abs) && root@[abs]@.contains_key(name) {
        match root@[abs]@[name] {
            Export::Item(item) => item_ty_name(item, abs.push(name)),
            Export::Import(target) => if root.has_leaf(target.deep_view()) {
                match root.leaf(target.deep_view()) {
                    Export::Item(item) => item_ty_name(item, target.deep_view()),
                    Export::Import(_) => None,
                }
            } else {
                None
            },
        }
    } else {
        None
    }
}

/// The type that the annotation `expr` stands for in the module at `abs`. The
/// head is resolved first, then the arguments from left to right; the first
/// failure is the result.
pub open spec fn resolve(root: Tree<Namespace>, expr: TyExpression, abs: Seq<Seq<char>>) -> Result<
    TyView,
    CoreErrorView,
>
    decreases expr, 0nat,
{
    match expr.1 {
        TyExpressionObj::Generic { base, params } => match resolve_name(root, abs, base@) {
            None => Err(ErrorView::UnresolvedType(base@).located(expr.0)),
            Some(name) => match resolve_all(root, params@, abs, params@.len()) {
                Ok(args) => Ok(TyView { name, args }),
                Err(error) => Err(error),
            },
        },
    }
}

/// The types that the first `n` of `exprs` stand for, or the first failure
/// among them.
pub open spec fn resolve_all(
    root: Tree<Namespace>,
    exprs: Seq<TyExpression>,
    abs: Seq<Seq<char>>,
    n: nat,
) -> Result<Seq<TyView>, CoreErrorView>
    decreases exprs, n,
{
    if n == 0 || n > exprs.len() {
        Ok(Seq::empty())
    } else {
        match resolve_all(root, exprs, abs, (n - 1) as nat) {
            Err(error) => Err(error),
            Ok(tys) => match resolve(root, exprs[n - 1], abs) {
                Ok(ty) => Ok(tys.push(ty)),
                Err(error) => Err(error),
            },
        }
    }
}

/// Once a prefix of `exprs` has failed, every longer prefix fails the same way.
pub proof fn lemma_resolve_all_failure_stays(
    root: Tree<Namespace>,
    exprs: Seq<TyExpression>,
    abs: Seq<Seq<char>>,
    n: nat,
    m: nat,
)
    requires
        n <= m <= exprs.len(),
        resolve_all(root, exprs, abs, n) is Err,
    ensures
        resolve_all(root, exprs, abs, m) == resolve_all(root, exprs, abs, n),
    decreases m,
{
    if n < m {
        lemma_resolve_all_failure_stays(root, exprs, abs, n, (m - 1) as nat);
    }
}

/// Whether `path` names a class that some module of `root` defines.
pub open spec fn names_class(root: Tree<Namespace>, path: Seq<Seq<char>>) -> bool {
    &&& root.has_leaf(path)
    &&& root.leaf(path) matches Export::Item(Item::Defined(def)) && def.1 is ClassDef
}

/// Whether every reference to a class in `ty` names a class that `root`
/// defines, and is tagged as a struct.
pub open spec fn refers_to_classes(root: Tree<Namespace>, ty: TyView) -> bool
    decreases ty,
{
    &&& match ty.name {
        TyNameView::Defined(path, kind) => names_class(root, path) && kind == DefinedType::Struct,
        TyNameView::Builtin(_) => true,
    }
    &&& forall|i: int| 0 <= i < ty.args.len() ==> refers_to_classes(root, #[trigger] ty.args[i])
}

/// A name resolves to a reference only where a class is defined at the
/// referenced path.
pub proof fn lemma_resolve_name_refers(root: Tree<Namespace>, abs: Seq<Seq<char>>, name: Seq<char>)
    ensures
        match resolve_name(root, abs, name) {
            Some(TyNameView::Defined(path, kind)) => names_class(root, path) && kind
                == DefinedType::Struct,
            _ => true,
        },
{
    assert(abs.push(name).drop_last() =~= abs);
    assert(abs.push(name).last() == name);
}

/// An annotation resolves only to types whose references name defined classes.
pub proof fn lemma_resolve_refers(root: Tree<Namespace>, expr: TyExpression, abs: Seq<Seq<char>>)
    requires
        resolve(root, expr, abs) is Ok,
    ensures
        refers_to_classes(root, resolve(root, expr, abs)->Ok_0),
    decreases expr, 0nat,
{
    match expr.1 {
        TyExpressionObj::Generic { base, params } => {
            lemma_resolve_name_refers(root, abs, base@);
            lemma_resolve_all_refers(root, params@, abs, params@.len());
        },
    }
}

/// Annotations resolve only to types whose references name defined classes.
pub proof fn lemma_resolve_all_refers(
    root: Tree<Namespace>,
    exprs: Seq<TyExpression>,
    abs: Seq<Seq<char>>,
    n: nat,
)
    requires
        n <= exprs.len(),
        resolve_all(root, exprs, abs, n) is Ok,
    ensures
        resolve_all(root, exprs, abs, n)->Ok_0.len() == n,
        forall|i: int|
            0 <= i < n ==> refers_to_classes(
                root,
                #[trigger] resolve_all(root, exprs, abs, n)->Ok_0[i],
            ),
    decreases exprs, n,
{
    if n > 0 {
        lemma_resolve_all_refers(root, exprs, abs, (n - 1) as nat);
        lemma_resolve_refers(root, exprs[n - 1], abs);
    }
}

/// The head that `item`, found at `path`, stands for.
fn item_head(item: &Item, path: Vec<String>) -> (r: Option<TyName>)
    ensures
        match r {
            Some(name) => item_ty_name(*item, path.deep_view()) == Some(name@),
            None => item_ty_name(*item, path.deep_view()) is None,
        },
{
    match item {
        Item::Builtin(builtin) => Some(TyName::Builtin(builtin.clone())),
        Item::Defined(def) => match &def.1 {
            TopLevelStatementObj::ClassDef { .. } => Some(TyName::Defined(path, DefinedType::Struct)),
            TopLevelStatementObj::FunctionDef(_) => None,
        },
    }
}

impl Tree<Namespace> {
    /// The head of the type that `name` stands for in the module at `abs`.
    pub fn build_ty_name(&self, abs: &Vec<String>, name: &String) -> (r: Option<TyName>)
        ensures
            match r {
                Some(head) => resolve_name(*self, abs.deep_view(), name@) == Some(head@),
                None => resolve_name(*self, abs.deep_view(), name@) is None,
            },
    {
        match self.get(abs) {
            None => None,
            Some(namespace) => match namespace.get(name) {
                None => None,
                Some(Export::Item(item)) => item_head(item, child_path(abs, name)),
                Some(Export::Import(target)) => match self.get_leaf_ext(target) {
                    Some(Export::Item(item)) => item_head(item, clone_path(target)),
                    Some(Export::Import(_)) => None,
                    None => None,
                },
            },
        }
    }

    /// Resolves the annotation `ty`, written in the module at `abs`, to the
    /// type it stands for.
    #[verifier::loop_isolation(false)]
    pub fn build_ty(&self, ty: &TyExpression, abs: &Vec<String>) -> (r: CResult<Ty>)
        ensures
            view_result(r) == resolve(*self, *ty, abs.deep_view()),
        decreases ty,
    {
        let Located(loc, obj) = ty;
        match obj {
            TyExpressionObj::Generic { base, params } => {
                let name = match self.build_ty_name(abs, base) {
                    Some(name) => name,
                    None => {
                        return Err(Error::UnresolvedType(base.clone()).core_error(loc));
                    },
                };
                let mut args: Vec<Ty> = Vec::new();
                let mut i: usize = 0;
                assert(tys_view(args@) =~= Seq::<TyView>::empty());
                while i < params.len()
                    invariant
                        i <= params@.len(),
                        resolve_all(*self, params@, abs.deep_view(), i as nat) == Ok::<
                            Seq<TyView>,
                            CoreErrorView,
                        >(tys_view(args@)),
                    decreases params@.len() - i,
                {
                    assert(decreases_to!(params => params[i as int]));
                    match self.build_ty(&params[i], abs) {
                        Ok(arg) => {
                            let ghost before = tys_view(args@);
                            args.push(arg);
                            assert(tys_view(args@) =~= before.push(arg@));
                        },
                        Err(error) => {
                            proof {
                                lemma_resolve_all_failure_stays(
                                    *self,
                                    params@,
                                    abs.deep_view(),
                                    (i + 1) as nat,
                                    params@.len(),
                                );
                            }
                            return Err(error);
                        },
                    }
                    i += 1;
                }
                let r = Ty::Generic(name, args);
                proof {
                    r.lemma_view();
                }
                Ok(r)
            },
        }
    }
}

} // verus!
