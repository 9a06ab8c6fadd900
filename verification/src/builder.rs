//! The first pass: from one definition to its raw signature.
use vstd::prelude::*;
use crate::ast::{
    ClassDefStatement, ClassDefStatementObj, FunctionDef, Param, TopLevelStatement,
    TopLevelStatementObj, TyExpression,
};
use crate::error::{view_result, CResult, CoreErrorView, Error, ErrorView};
use crate::name_map::NameMap;
use crate::namespace::{lemma_resolve_refers, refers_to_classes, resolve, Namespace};
use crate::signature::{
    fields_view, params_view, ClassSignature, ClassSignatureView, EnumSignature,
    EnumSignatureView, FunctionSignature, FunctionSignatureView, Signature, SignatureView,
    StructSignature, StructSignatureView,
};
use crate::source::{Located, Location};
use crate::tree::Tree;
use crate::ty::{
    tys_view, Builtin, BuiltinView, ParamType, Ty, TyName, TyNameView, TyView,
};

verus! {

/// What the bases of a class say of it.
pub struct Bases {
    /// Whether `Account` is among them.
    pub is_account: bool,
    /// Whether `Enum` is among them.
    pub is_enum: bool,
    /// The `Account` bases, as resolved, in the order written.
    pub accounts: Seq<TyView>,
}

/// Whether `ty` is the marker base of accounts, whatever its arguments.
pub open spec fn is_account_marker(ty: TyView) -> bool {
    ty.name == TyNameView::Builtin(BuiltinView::Account)
}

/// Whether `ty` is the marker base of enums, whatever its arguments.
pub open spec fn is_enum_marker(ty: TyView) -> bool {
    ty.name == TyNameView::Builtin(BuiltinView::Enum)
}

/// What the first `n` bases of a class written at `loc` say of it, or the
/// first failure among them: a base that does not resolve, or one that
/// resolves to something other than the two markers.
pub open spec fn scan_bases(
    root: Tree<Namespace>,
    bases: Seq<TyExpression>,
    abs: Seq<Seq<char>>,
    loc: Location,
    n: nat,
) -> Result<Bases, CoreErrorView>
    decreases n,
{
    if n == 0 || n > bases.len() {
        Ok(Bases { is_account: false, is_enum: false, accounts: Seq::empty() })
    } else {
        match scan_bases(root, bases, abs, loc, (n - 1) as nat) {
            Err(error) => Err(error),
            Ok(seen) => match resolve(root, bases[n - 1], abs) {
                Err(error) => Err(error),
                Ok(ty) => if is_account_marker(ty) {
                    Ok(
                        Bases {
                            is_account: true,
                            is_enum: seen.is_enum,
                            accounts: seen.accounts.push(ty),
                        },
                    )
                } else if is_enum_marker(ty) {
                    Ok(Bases { is_account: seen.is_account, is_enum: true, accounts: seen.accounts })
                } else {
                    Err(ErrorView::InvalidBase(ty).located(loc))
                },
            },
        }
    }
}

/// Whether a statement has the shape of an enum variant: `name = value`.
pub open spec fn is_variant(statement: ClassDefStatement) -> bool {
    match statement.1 {
        ClassDefStatementObj::FieldDef { name, ty, value } => ty is None && value is Some,
    }
}

/// Whether a statement has the shape of a struct field: `name: Type`.
pub open spec fn is_field(statement: ClassDefStatement) -> bool {
    match statement.1 {
        ClassDefStatementObj::FieldDef { name, ty, value } => ty is Some && value is None,
    }
}

/// The name that a statement defines.
pub open spec fn statement_name(statement: ClassDefStatement) -> Seq<char> {
    match statement.1 {
        ClassDefStatementObj::FieldDef { name, ty, value } => name@,
    }
}

/// The annotation of a statement that has one.
pub open spec fn statement_ty(statement: ClassDefStatement) -> TyExpression {
    match statement.1 {
        ClassDefStatementObj::FieldDef { name, ty, value } => ty->0,
    }
}

/// The variant names that the first `n` statements of an enum define, or the
/// first failure among them: a statement that is no variant.
pub open spec fn scan_variants(body: Seq<ClassDefStatement>, n: nat) -> Result<
    Set<Seq<char>>,
    CoreErrorView,
>
    decreases n,
{
    if n == 0 || n > body.len() {
        Ok(Set::empty())
    } else {
        match scan_variants(body, (n - 1) as nat) {
            Err(error) => Err(error),
            Ok(variants) => if is_variant(body[n - 1]) {
                Ok(variants.insert(statement_name(body[n - 1])))
            } else {
                Err(ErrorView::InvalidEnumVariant.located(body[n - 1].0))
            },
        }
    }
}

/// The fields that the first `n` statements of a struct define, each with
/// its resolved type, a later statement replacing an earlier one of the same
/// name; or the first failure among them: a statement that is no field, or an
/// annotation that does not resolve.
pub open spec fn scan_fields(
    root: Tree<Namespace>,
    body: Seq<ClassDefStatement>,
    abs: Seq<Seq<char>>,
    n: nat,
) -> Result<Map<Seq<char>, TyView>, CoreErrorView>
    decreases n,
{
    if n == 0 || n > body.len() {
        Ok(Map::empty())
    } else {
        match scan_fields(root, body, abs, (n - 1) as nat) {
            Err(error) => Err(error),
            Ok(fields) => if is_field(body[n - 1]) {
                match resolve(root, statement_ty(body[n - 1]), abs) {
                    Ok(ty) => Ok(fields.insert(statement_name(body[n - 1]), ty)),
                    Err(error) => Err(error),
                }
            } else {
                Err(ErrorView::InvalidClassField.located(body[n - 1].0))
            },
        }
    }
}

/// The first `n` parameters of a function, each with its resolved type and
/// all of them required, or the first annotation among them that does not
/// resolve.
pub open spec fn scan_params(
    root: Tree<Namespace>,
    params: Seq<Param>,
    abs: Seq<Seq<char>>,
    n: nat,
) -> Result<Seq<(Seq<char>, TyView, ParamType)>, CoreErrorView>
    decreases n,
{
    if n == 0 || n > params.len() {
        Ok(Seq::empty())
    } else {
        match scan_params(root, params, abs, (n - 1) as nat) {
            Err(error) => Err(error),
            Ok(seen) => match resolve(root, params[n - 1].1.annotation, abs) {
                Ok(ty) => Ok(seen.push((params[n - 1].1.arg@, ty, ParamType::Required))),
                Err(error) => Err(error),
            },
        }
    }
}

/// The type of a function that declares no return type.
pub open spec fn none_ty() -> TyView {
    TyView { name: TyNameView::Builtin(BuiltinView::NoneType), args: Seq::empty() }
}

/// The raw signature of a class written at `loc`. Its bases decide its kind:
/// with `Enum` among them its statements are variants, otherwise they are
/// fields, and it is an account exactly if `Account` is among them. Both
/// markers together are refused.
pub open spec fn class_signature(
    root: Tree<Namespace>,
    loc: Location,
    body: Seq<ClassDefStatement>,
    bases: Seq<TyExpression>,
    abs: Seq<Seq<char>>,
) -> Result<SignatureView, CoreErrorView> {
    match scan_bases(root, bases, abs, loc, bases.len()) {
        Err(error) => Err(error),
        Ok(seen) => if seen.is_account && seen.is_enum {
            Err(ErrorView::EnumAccount.located(loc))
        } else if seen.is_enum {
            match scan_variants(body, body.len()) {
                Err(error) => Err(error),
                Ok(variants) => Ok(
                    SignatureView::Class(ClassSignatureView::Enum(EnumSignatureView { variants })),
                ),
            }
        } else {
            match scan_fields(root, body, abs, body.len()) {
                Err(error) => Err(error),
                Ok(fields) => Ok(
                    SignatureView::Class(
                        ClassSignatureView::Struct(
                            StructSignatureView {
                                is_account: seen.is_account,
                                bases: seen.accounts,
                                fields,
                            },
                        ),
                    ),
                ),
            }
        },
    }
}

/// The raw signature of a function: its parameters in order, then its return
/// type, which is the none type where none is declared.
pub open spec fn function_signature(
    root: Tree<Namespace>,
    function: FunctionDef,
    abs: Seq<Seq<char>>,
) -> Result<SignatureView, CoreErrorView> {
    match scan_params(root, function.params.params@, abs, function.params.params@.len()) {
        Err(error) => Err(error),
        Ok(params) => match function.returns {
            None => Ok(
                SignatureView::Function(FunctionSignatureView { params, returns: none_ty() }),
            ),
            Some(annotation) => match resolve(root, annotation, abs) {
                Err(error) => Err(error),
                Ok(ty) => Ok(
                    SignatureView::Function(FunctionSignatureView { params, returns: ty }),
                ),
            },
        },
    }
}

/// The raw signature of the definition `def`, written in the module at `abs`.
pub open spec fn signature_of(root: Tree<Namespace>, def: TopLevelStatement, abs: Seq<Seq<char>>) -> Result<
    SignatureView,
    CoreErrorView,
> {
    match def.1 {
        TopLevelStatementObj::ClassDef { name, body, bases } => class_signature(
            root,
            def.0,
            body@,
            bases@,
            abs,
        ),
        TopLevelStatementObj::FunctionDef(function) => function_signature(root, function, abs),
    }
}

/// Once a prefix of the bases has failed, every longer prefix fails the same way.
pub proof fn lemma_scan_bases_failure_stays(
    root: Tree<Namespace>,
    bases: Seq<TyExpression>,
    abs: Seq<Seq<char>>,
    loc: Location,
    n: nat,
    m: nat,
)
    requires
        n <= m <= bases.len(),
        scan_bases(root, bases, abs, loc, n) is Err,
    ensures
        scan_bases(root, bases, abs, loc, m) == scan_bases(root, bases, abs, loc, n),
    decreases m,
{
    if n < m {
        lemma_scan_bases_failure_stays(root, bases, abs, loc, n, (m - 1) as nat);
    }
}

/// Once a prefix of the variants has failed, every longer prefix fails the same way.
pub proof fn lemma_scan_variants_failure_stays(body: Seq<ClassDefStatement>, n: nat, m: nat)
    requires
        n <= m <= body.len(),
        scan_variants(body, n) is Err,
    ensures
        scan_variants(body, m) == scan_variants(body, n),
    decreases m,
{
    if n < m {
        lemma_scan_variants_failure_stays(body, n, (m - 1) as nat);
    }
}

/// Once a prefix of the fields has failed, every longer prefix fails the same way.
pub proof fn lemma_scan_fields_failure_stays(
    root: Tree<Namespace>,
    body: Seq<ClassDefStatement>,
    abs: Seq<Seq<char>>,
    n: nat,
    m: nat,
)
    requires
        n <= m <= body.len(),
        scan_fields(root, body, abs, n) is Err,
    ensures
        scan_fields(root, body, abs, m) == scan_fields(root, body, abs, n),
    decreases m,
{
    if n < m {
        lemma_scan_fields_failure_stays(root, body, abs, n, (m - 1) as nat);
    }
}

/// Once a prefix of the parameters has failed, every longer prefix fails the same way.
pub proof fn lemma_scan_params_failure_stays(
    root: Tree<Namespace>,
    params: Seq<Param>,
    abs: Seq<Seq<char>>,
    n: nat,
    m: nat,
)
    requires
        n <= m <= params.len(),
        scan_params(root, params, abs, n) is Err,
    ensures
        scan_params(root, params, abs, m) == scan_params(root, params, abs, n),
    decreases m,
{
    if n < m {
        lemma_scan_params_failure_stays(root, params, abs, n, (m - 1) as nat);
    }
}

/// Whether every reference to a class in the field, base, parameter and
/// return types of `signature` names a class that `root` defines.
pub open spec fn signature_refers(root: Tree<Namespace>, signature: SignatureView) -> bool {
    match signature {
        SignatureView::Class(ClassSignatureView::Struct(class)) => {
            &&& forall|name: Seq<char>|
                class.fields.contains_key(name) ==> refers_to_classes(
                    root,
                    #[trigger] class.fields[name],
                )
            &&& forall|i: int|
                0 <= i < class.bases.len() ==> refers_to_classes(root, #[trigger] class.bases[i])
        },
        SignatureView::Function(function) => {
            &&& forall|i: int|
                0 <= i < function.params.len() ==> refers_to_classes(
                    root,
                    (#[trigger] function.params[i]).1,
                )
            &&& refers_to_classes(root, function.returns)
        },
        _ => true,
    }
}

/// The bases kept of a class hold only types whose references name defined
/// classes.
pub proof fn lemma_scan_bases_refers(
    root: Tree<Namespace>,
    bases: Seq<TyExpression>,
    abs: Seq<Seq<char>>,
    loc: Location,
    n: nat,
)
    requires
        n <= bases.len(),
        scan_bases(root, bases, abs, loc, n) is Ok,
    ensures
        forall|i: int|
            0 <= i < scan_bases(root, bases, abs, loc, n)->Ok_0.accounts.len()
                ==> refers_to_classes(
                root,
                #[trigger] scan_bases(root, bases, abs, loc, n)->Ok_0.accounts[i],
            ),
    decreases n,
{
    if n > 0 {
        lemma_scan_bases_refers(root, bases, abs, loc, (n - 1) as nat);
        lemma_resolve_refers(root, bases[n - 1], abs);
    }
}

/// The fields of a struct hold only types whose references name defined classes.
pub proof fn lemma_scan_fields_refers(
    root: Tree<Namespace>,
    body: Seq<ClassDefStatement>,
    abs: Seq<Seq<char>>,
    n: nat,
)
    requires
        n <= body.len(),
        scan_fields(root, body, abs, n) is Ok,
    ensures
        forall|name: Seq<char>|
            scan_fields(root, body, abs, n)->Ok_0.contains_key(name) ==> refers_to_classes(
                root,
                #[trigger] scan_fields(root, body, abs, n)->Ok_0[name],
            ),
    decreases n,
{
    if n > 0 {
        lemma_scan_fields_refers(root, body, abs, (n - 1) as nat);
        lemma_resolve_refers(root, statement_ty(body[n - 1]), abs);
    }
}

/// The parameters of a function hold only types whose references name
/// defined classes.
pub proof fn lemma_scan_params_refers(
    root: Tree<Namespace>,
    params: Seq<Param>,
    abs: Seq<Seq<char>>,
    n: nat,
)
    requires
        n <= params.len(),
        scan_params(root, params, abs, n) is Ok,
    ensures
        scan_params(root, params, abs, n)->Ok_0.len() == n,
        forall|i: int|
            0 <= i < n ==> refers_to_classes(
                root,
                (#[trigger] scan_params(root, params, abs, n)->Ok_0[i]).1,
            ),
    decreases n,
{
    if n > 0 {
        lemma_scan_params_refers(root, params, abs, (n - 1) as nat);
        lemma_resolve_refers(root, params[n - 1].1.annotation, abs);
    }
}

/// A raw signature holds only types whose references name defined classes.
pub proof fn lemma_signature_of_refers(
    root: Tree<Namespace>,
    def: TopLevelStatement,
    abs: Seq<Seq<char>>,
)
    requires
        signature_of(root, def, abs) is Ok,
    ensures
        signature_refers(root, signature_of(root, def, abs)->Ok_0),
{
    match def.1 {
        TopLevelStatementObj::ClassDef { name, body, bases } => {
            let seen = scan_bases(root, bases@, abs, def.0, bases@.len())->Ok_0;
            if !seen.is_enum {
                lemma_scan_fields_refers(root, body@, abs, body@.len());
                lemma_scan_bases_refers(root, bases@, abs, def.0, bases@.len());
            }
        },
        TopLevelStatementObj::FunctionDef(function) => {
            lemma_scan_params_refers(
                root,
                function.params.params@,
                abs,
                function.params.params@.len(),
            );
            match function.returns {
                Some(annotation) => {
                    lemma_resolve_refers(root, annotation, abs);
                },
                None => {},
            }
        },
    }
}

/// Which marker `ty` is, if any: `Some(true)` for `Account`, `Some(false)`
/// for `Enum`.
fn marker(ty: &Ty) -> (r: Option<bool>)
    ensures
        r == Some(true) <==> is_account_marker(ty@),
        r == Some(false) <==> is_enum_marker(ty@),
{
    match ty {
        Ty::Generic(TyName::Builtin(Builtin::Account), _) => Some(true),
        Ty::Generic(TyName::Builtin(Builtin::Enum), _) => Some(false),
        _ => None,
    }
}

/// Resolves the bases of a class written at `loc` and says what they make of it.
fn build_bases(
    bases: &Vec<TyExpression>,
    loc: &Location,
    abs: &Vec<String>,
    root: &Tree<Namespace>,
) -> (r: CResult<(bool, bool, Vec<Ty>)>)
    ensures
        match r {
            Ok(seen) => scan_bases(*root, bases@, abs.deep_view(), *loc, bases@.len()) == Ok::<
                Bases,
                CoreErrorView,
            >(Bases { is_account: seen.0, is_enum: seen.1, accounts: tys_view(seen.2@) }),
            Err(error) => scan_bases(*root, bases@, abs.deep_view(), *loc, bases@.len()) == Err::<
                Bases,
                CoreErrorView,
            >(error@),
        },
{
    let mut is_account = false;
    let mut is_enum = false;
    let mut accounts: Vec<Ty> = Vec::new();
    let mut i: usize = 0;
    assert(tys_view(accounts@) =~= Seq::<TyView>::empty());
    while i < bases.len()
        invariant
            i <= bases@.len(),
            scan_bases(*root, bases@, abs.deep_view(), *loc, i as nat) == Ok::<
                Bases,
                CoreErrorView,
            >(Bases { is_account, is_enum, accounts: tys_view(accounts@) }),
        decreases bases@.len() - i,
    {
        match root.build_ty(&bases[i], abs) {
            Err(error) => {
                proof {
                    lemma_scan_bases_failure_stays(
                        *root,
                        bases@,
                        abs.deep_view(),
                        *loc,
                        (i + 1) as nat,
                        bases@.len(),
                    );
                }
                return Err(error);
            },
            Ok(base) => {
                match marker(&base) {
                    Some(true) => {
                        let ghost before = tys_view(accounts@);
                        accounts.push(base);
                        assert(tys_view(accounts@) =~= before.push(base@));
                        is_account = true;
                    },
                    Some(false) => {
                        is_enum = true;
                    },
                    None => {
                        proof {
                            lemma_scan_bases_failure_stays(
                                *root,
                                bases@,
                                abs.deep_view(),
                                *loc,
                                (i + 1) as nat,
                                bases@.len(),
                            );
                        }
                        return Err(Error::InvalidBase(base).core_error(loc));
                    },
                }
            },
        }
        i += 1;
    }
    Ok((is_account, is_enum, accounts))
}

/// Collects the variants of an enum.
fn build_variants(body: &Vec<ClassDefStatement>) -> (r: CResult<NameMap<()>>)
    ensures
        match r {
            Ok(variants) => scan_variants(body@, body@.len()) == Ok::<Set<Seq<char>>, CoreErrorView>(
                variants@.dom(),
            ),
            Err(error) => scan_variants(body@, body@.len()) == Err::<Set<Seq<char>>, CoreErrorView>(
                error@,
            ),
        },
{
    let mut variants: NameMap<()> = NameMap::new();
    let mut i: usize = 0;
    assert(variants@.dom() =~= Set::<Seq<char>>::empty());
    while i < body.len()
        invariant
            i <= body@.len(),
            scan_variants(body@, i as nat) == Ok::<Set<Seq<char>>, CoreErrorView>(variants@.dom()),
        decreases body@.len() - i,
    {
        let Located(loc, obj) = &body[i];
        match obj {
            ClassDefStatementObj::FieldDef { name, ty, value } => {
                if ty.is_some() || value.is_none() {
                    proof {
                        lemma_scan_variants_failure_stays(body@, (i + 1) as nat, body@.len());
                    }
                    return Err(Error::InvalidEnumVariant.core_error(loc));
                }
                let ghost before = variants@.dom();
                variants.insert(name.clone(), ());
                assert(variants@.dom() =~= before.insert(name@));
            },
        }
        i += 1;
    }
    Ok(variants)
}

/// Collects the fields of a struct, each with its resolved type.
fn build_fields(body: &Vec<ClassDefStatement>, abs: &Vec<String>, root: &Tree<Namespace>) -> (r:
    CResult<NameMap<Ty>>)
    ensures
        match r {
            Ok(fields) => scan_fields(*root, body@, abs.deep_view(), body@.len()) == Ok::<
                Map<Seq<char>, TyView>,
                CoreErrorView,
            >(fields_view(fields)),
            Err(error) => scan_fields(*root, body@, abs.deep_view(), body@.len()) == Err::<
                Map<Seq<char>, TyView>,
                CoreErrorView,
            >(error@),
        },
{
    let mut fields: NameMap<Ty> = NameMap::new();
    let mut i: usize = 0;
    assert(fields_view(fields) =~= Map::<Seq<char>, TyView>::empty());
    while i < body.len()
        invariant
            i <= body@.len(),
            scan_fields(*root, body@, abs.deep_view(), i as nat) == Ok::<
                Map<Seq<char>, TyView>,
                CoreErrorView,
            >(fields_view(fields)),
        decreases body@.len() - i,
    {
        let Located(loc, obj) = &body[i];
        match obj {
            ClassDefStatementObj::FieldDef { name, ty, value } => {
                let annotation = match ty {
                    Some(annotation) if value.is_none() => annotation,
                    _ => {
                        proof {
                            lemma_scan_fields_failure_stays(
                                *root,
                                body@,
                                abs.deep_view(),
                                (i + 1) as nat,
                                body@.len(),
                            );
                        }
                        return Err(Error::InvalidClassField.core_error(loc));
                    },
                };
                match root.build_ty(annotation, abs) {
                    Err(error) => {
                        proof {
                            lemma_scan_fields_failure_stays(
                                *root,
                                body@,
                                abs.deep_view(),
                                (i + 1) as nat,
                                body@.len(),
                            );
                        }
                        return Err(error);
                    },
                    Ok(resolved) => {
                        let ghost before = fields_view(fields);
                        fields.insert(name.clone(), resolved);
                        assert(fields_view(fields) =~= before.insert(name@, resolved@));
                    },
                }
            },
        }
        i += 1;
    }
    Ok(fields)
}

/// Resolves the parameters of a function.
fn build_params(params: &Vec<Param>, abs: &Vec<String>, root: &Tree<Namespace>) -> (r: CResult<
    Vec<(String, Ty, ParamType)>,
>)
    ensures
        match r {
            Ok(seen) => scan_params(*root, params@, abs.deep_view(), params@.len()) == Ok::<
                Seq<(Seq<char>, TyView, ParamType)>,
                CoreErrorView,
            >(params_view(seen@)),
            Err(error) => scan_params(*root, params@, abs.deep_view(), params@.len()) == Err::<
                Seq<(Seq<char>, TyView, ParamType)>,
                CoreErrorView,
            >(error@),
        },
{
    let mut seen: Vec<(String, Ty, ParamType)> = Vec::new();
    let mut i: usize = 0;
    assert(params_view(seen@) =~= Seq::<(Seq<char>, TyView, ParamType)>::empty());
    while i < params.len()
        invariant
            i <= params@.len(),
            scan_params(*root, params@, abs.deep_view(), i as nat) == Ok::<
                Seq<(Seq<char>, TyView, ParamType)>,
                CoreErrorView,
            >(params_view(seen@)),
        decreases params@.len() - i,
    {
        let Located(_, param) = &params[i];
        match root.build_ty(&param.annotation, abs) {
            Err(error) => {
                proof {
                    lemma_scan_params_failure_stays(
                        *root,
                        params@,
                        abs.deep_view(),
                        (i + 1) as nat,
                        params@.len(),
                    );
                }
                return Err(error);
            },
            Ok(ty) => {
                let ghost before = params_view(seen@);
                seen.push((param.arg.clone(), ty, ParamType::Required));
                assert(params_view(seen@) =~= before.push((param.arg@, ty@, ParamType::Required)));
            },
        }
        i += 1;
    }
    Ok(seen)
}

/// Builds the raw signature of the definition `def`, written in the module at
/// `abs`, resolving its annotations in `root`. Every reference to a class is
/// tagged as a struct for now.
pub fn build_signature(def: &TopLevelStatement, abs: &Vec<String>, root: &Tree<Namespace>) -> (r:
    CResult<Signature>)
    ensures
        view_result(r) == signature_of(*root, *def, abs.deep_view()),
{
    let Located(loc, obj) = def;
    match obj {
        TopLevelStatementObj::ClassDef { body, bases, .. } => {
            let (is_account, is_enum, accounts) = match build_bases(bases, loc, abs, root) {
                Ok(seen) => seen,
                Err(error) => {
                    return Err(error);
                },
            };
            if is_account && is_enum {
                return Err(Error::EnumAccount.core_error(loc));
            }
            if is_enum {
                match build_variants(body) {
                    Ok(variants) => Ok(
                        Signature::Class(ClassSignature::Enum(EnumSignature { variants })),
                    ),
                    Err(error) => Err(error),
                }
            } else {
                match build_fields(body, abs, root) {
                    Ok(fields) => Ok(
                        Signature::Class(
                            ClassSignature::Struct(
                                StructSignature { is_account, fields, bases: accounts },
                            ),
                        ),
                    ),
                    Err(error) => Err(error),
                }
            }
        },
        TopLevelStatementObj::FunctionDef(function) => {
            let params = match build_params(&function.params.params, abs, root) {
                Ok(params) => params,
                Err(error) => {
                    return Err(error);
                },
            };
            let ret = match &function.returns {
                Some(annotation) => match root.build_ty(annotation, abs) {
                    Ok(ty) => ty,
                    Err(error) => {
                        return Err(error);
                    },
                },
                None => {
                    let ty = Ty::Generic(TyName::Builtin(Builtin::NoneType), Vec::new());
                    proof {
                        ty.lemma_view();
                        assert(ty@.args =~= Seq::<TyView>::empty());
                    }
                    ty
                },
            };
            Ok(Signature::Function(FunctionSignature { params, returns: ret }))
        },
    }
}

} // verus!
