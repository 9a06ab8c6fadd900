//! Types as the signatures record them.
use vstd::prelude::*;
use crate::tree::clone_path;

verus! {

/// A handle to something the compiler itself provides.
#[derive(Debug, PartialEq, Eq)]
pub enum Builtin {
    /// The marker base of on-chain accounts.
    Account,
    /// The marker base of enums.
    Enum,
    /// The type of functions that return nothing.
    NoneType,
    /// Any other intrinsic, known by its name.
    Other(String),
}

/// What a `Builtin` is, as a mathematical value.
pub enum BuiltinView {
    Account,
    Enum,
    NoneType,
    Other(Seq<char>),
}

impl BuiltinView {
    /// The name under which the intrinsic is exported.
    pub open spec fn name(self) -> Seq<char> {
        match self {
            BuiltinView::Account => "Account"@,
            BuiltinView::Enum => "Enum"@,
            BuiltinView::NoneType => "None"@,
            BuiltinView::Other(name) => name,
        }
    }
}

impl View for Builtin {
    type V = BuiltinView;

    open spec fn view(&self) -> BuiltinView {
        match self {
            Builtin::Account => BuiltinView::Account,
            Builtin::Enum => BuiltinView::Enum,
            Builtin::NoneType => BuiltinView::NoneType,
            Builtin::Other(name) => BuiltinView::Other(name@),
        }
    }
}

impl Clone for Builtin {
    fn clone(&self) -> (r: Self)
        ensures
            r@ == self@,
    {
        match self {
            Builtin::Account => Builtin::Account,
            Builtin::Enum => Builtin::Enum,
            Builtin::NoneType => Builtin::NoneType,
            Builtin::Other(name) => Builtin::Other(name.clone()),
        }
    }
}

impl Builtin {
    /// The name under which the intrinsic is exported.
    pub fn name(&self) -> (r: String)
        ensures
            r@ == self@.name(),
    {
        match self {
            Builtin::Account => "Account".to_owned(),
            Builtin::Enum => "Enum".to_owned(),
            Builtin::NoneType => "None".to_owned(),
            Builtin::Other(name) => name.clone(),
        }
    }
}

/// The kind of a user-defined class.
#[derive(Clone, Copy, Debug, PartialEq, Eq, Structural)]
pub enum DefinedType {
    Struct,
    Account,
    Enum,
}

/// How a parameter is passed.
#[derive(Clone, Copy, Debug, PartialEq, Eq, Structural)]
pub enum ParamType {
    Required,
}

/// The head of a type: an intrinsic, or a class by its absolute path and kind.
#[derive(Debug, PartialEq, Eq)]
pub enum TyName {
    Builtin(Builtin),
    Defined(Vec<String>, DefinedType),
}

/// What a `TyName` is, as a mathematical value.
pub enum TyNameView {
    Builtin(BuiltinView),
    Defined(Seq<Seq<char>>, DefinedType),
}

impl View for TyName {
    type V = TyNameView;

    open spec fn view(&self) -> TyNameView {
        match self {
            TyName::Builtin(builtin) => TyNameView::Builtin(builtin@),
            TyName::Defined(path, kind) => TyNameView::Defined(path.deep_view(), *kind),
        }
    }
}

impl Clone for TyName {
    fn clone(&self) -> (r: Self)
        ensures
            r@ == self@,
    {
        match self {
            TyName::Builtin(builtin) => TyName::Builtin(builtin.clone()),
            TyName::Defined(path, kind) => TyName::Defined(clone_path(path), *kind),
        }
    }
}

/// A type: a head applied to type arguments.
#[derive(Debug, PartialEq, Eq)]
pub enum Ty {
    Generic(TyName, Vec<Ty>),
}

/// What a `Ty` is, as a mathematical value.
pub struct TyView {
    pub name: TyNameView,
    pub args: Seq<TyView>,
}

/// The mathematical value of `ty`: its head, and the values of its arguments.
pub open spec fn ty_view(ty: Ty) -> TyView
    decreases ty,
{
    match ty {
        Ty::Generic(name, params) => TyView {
            name: name@,
            args: Seq::new(
                params@.len(),
                |i: int|
                    if 0 <= i < params@.len() {
                        ty_view(params@[i])
                    } else {
                        arbitrary()
                    },
            ),
        },
    }
}

impl View for Ty {
    type V = TyView;

    open spec fn view(&self) -> TyView {
        ty_view(*self)
    }
}

/// The views of a sequence of types.
pub open spec fn tys_view(tys: Seq<Ty>) -> Seq<TyView> {
    Seq::new(tys.len(), |i: int| tys[i]@)
}

impl Ty {
    /// The view of a type is the view of its head applied to the views of
    /// its arguments.
    pub proof fn lemma_view(self)
        ensures
            self matches Ty::Generic(name, params) && self@ == (TyView {
                name: name@,
                args: tys_view(params@),
            }),
    {
        reveal_with_fuel(ty_view, 2);
        match self {
            Ty::Generic(name, params) => {
                assert(self@.args =~= tys_view(params@));
            },
        }
    }
}

impl Clone for Ty {
    #[verifier::loop_isolation(false)]
    fn clone(&self) -> (r: Self)
        ensures
            r@ == self@,
        decreases self,
    {
        match self {
            Ty::Generic(name, params) => {
                let mut args: Vec<Ty> = Vec::new();
                let mut i: usize = 0;
                while i < params.len()
                    invariant
                        i <= params@.len(),
                        args@.len() == i,
                        forall|j: int| 0 <= j < i ==> args@[j]@ == params@[j]@,
                    decreases params@.len() - i,
                {
                    assert(decreases_to!(params => params[i as int]));
                    args.push(params[i].clone());
                    i += 1;
                }
                let r = Ty::Generic(name.clone(), args);
                assert(r@.args =~= self@.args);
                r
            },
        }
    }
}

/// A copy of `tys`, type by type.
pub fn clone_tys(tys: &Vec<Ty>) -> (r: Vec<Ty>)
    ensures
        tys_view(r@) == tys_view(tys@),
{
    let mut out: Vec<Ty> = Vec::new();
    let mut i: usize = 0;
    while i < tys.len()
        invariant
            i <= tys@.len(),
            out@.len() == i,
            forall|j: int| 0 <= j < i ==> out@[j]@ == tys@[j]@,
        decreases tys@.len() - i,
    {
        out.push(tys[i].clone());
        i += 1;
    }
    assert(tys_view(out@) =~= tys_view(tys@));
    out
}

} // verus!
