//! What the bases and the statements of a class decide: which classes are
//! refused and with which error, and what the signature of an accepted class
//! holds.
use vstd::prelude::*;
use crate::ast::{ClassDefStatement, TyExpression};
use crate::builder::{
    class_signature, is_account_marker, is_enum_marker, is_field, is_variant,
    lemma_scan_bases_failure_stays, lemma_scan_fields_failure_stays,
    lemma_scan_variants_failure_stays, scan_bases, scan_fields, scan_variants, statement_name,
    statement_ty,
};
use crate::error::{CoreErrorView, ErrorView};
use crate::namespace::{resolve, Namespace};
use crate::signature::{ClassSignatureView, SignatureView};
use crate::source::Location;
use crate::tree::Tree;

verus! {

/// Whether the `i`-th base resolves to the marker of accounts.
pub open spec fn account_base(
    root: Tree<Namespace>,
    bases: Seq<TyExpression>,
    abs: Seq<Seq<char>>,
    i: int,
) -> bool {
    resolve(root, bases[i], abs) matches Ok(ty) && is_account_marker(ty)
}

/// Whether the `i`-th base resolves to the marker of enums.
pub open spec fn enum_base(
    root: Tree<Namespace>,
    bases: Seq<TyExpression>,
    abs: Seq<Seq<char>>,
    i: int,
) -> bool {
    resolve(root, bases[i], abs) matches Ok(ty) && is_enum_marker(ty)
}

/// Whether each of the first `n` bases resolves to one of the two markers.
pub open spec fn all_markers(
    root: Tree<Namespace>,
    bases: Seq<TyExpression>,
    abs: Seq<Seq<char>>,
    n: int,
) -> bool {
    forall|i: int|
        0 <= i < n ==> #[trigger] account_base(root, bases, abs, i) || enum_base(
            root,
            bases,
            abs,
            i,
        )
}

/// Whether each of the first `n` statements is a field whose annotation resolves.
pub open spec fn all_fields(
    root: Tree<Namespace>,
    body: Seq<ClassDefStatement>,
    abs: Seq<Seq<char>>,
    n: int,
) -> bool {
    forall|i: int|
        0 <= i < n ==> is_field(#[trigger] body[i]) && resolve(root, statement_ty(body[i]), abs)
            is Ok
}

/// Whether each of the first `n` statements is a variant.
pub open spec fn all_variants(body: Seq<ClassDefStatement>, n: int) -> bool {
    forall|i: int| 0 <= i < n ==> is_variant(#[trigger] body[i])
}

/// Bases that all resolve to markers are accepted, and what is recorded of
/// them is which markers occur.
pub proof fn lemma_scan_bases_of_markers(
    root: Tree<Namespace>,
    bases: Seq<TyExpression>,
    abs: Seq<Seq<char>>,
    loc: Location,
    n: nat,
)
    requires
        n <= bases.len(),
        all_markers(root, bases, abs, n as int),
    ensures
        scan_bases(root, bases, abs, loc, n) is Ok,
        scan_bases(root, bases, abs, loc, n)->Ok_0.is_account <==> exists|i: int|
            0 <= i < n && #[trigger] account_base(root, bases, abs, i),
        scan_bases(root, bases, abs, loc, n)->Ok_0.is_enum <==> exists|i: int|
            0 <= i < n && #[trigger] enum_base(root, bases, abs, i),
    decreases n,
{
    if n > 0 {
        lemma_scan_bases_of_markers(root, bases, abs, loc, (n - 1) as nat);
        let last = n - 1;
        assert(account_base(root, bases, abs, last) || enum_base(root, bases, abs, last));
        let before = scan_bases(root, bases, abs, loc, (n - 1) as nat)->Ok_0;
        let after = scan_bases(root, bases, abs, loc, n)->Ok_0;
        if after.is_account {
            if account_base(root, bases, abs, last) {
            } else {
                let i = choose|i: int| 0 <= i < n - 1 && #[trigger] account_base(root, bases, abs, i);
                assert(0 <= i < n && account_base(root, bases, abs, i));
            }
        }
        if exists|i: int| 0 <= i < n && #[trigger] account_base(root, bases, abs, i) {
            let i = choose|i: int| 0 <= i < n && #[trigger] account_base(root, bases, abs, i);
            if i < n - 1 {
                assert(0 <= i < n - 1 && account_base(root, bases, abs, i));
            }
        }
        if after.is_enum {
            if enum_base(root, bases, abs, last) {
            } else {
                let i = choose|i: int| 0 <= i < n - 1 && #[trigger] enum_base(root, bases, abs, i);
                assert(0 <= i < n && enum_base(root, bases, abs, i));
            }
        }
        if exists|i: int| 0 <= i < n && #[trigger] enum_base(root, bases, abs, i) {
            let i = choose|i: int| 0 <= i < n && #[trigger] enum_base(root, bases, abs, i);
            if i < n - 1 {
                assert(0 <= i < n - 1 && enum_base(root, bases, abs, i));
            }
        }
    }
}

/// Statements that are all fields with resolving annotations are accepted.
pub proof fn lemma_scan_fields_of_fields(
    root: Tree<Namespace>,
    body: Seq<ClassDefStatement>,
    abs: Seq<Seq<char>>,
    n: nat,
)
    requires
        n <= body.len(),
        all_fields(root, body, abs, n as int),
    ensures
        scan_fields(root, body, abs, n) is Ok,
    decreases n,
{
    if n > 0 {
        lemma_scan_fields_of_fields(root, body, abs, (n - 1) as nat);
        assert(is_field(body[n - 1]));
    }
}

/// Statements that are all variants are accepted.
pub proof fn lemma_scan_variants_of_variants(body: Seq<ClassDefStatement>, n: nat)
    requires
        n <= body.len(),
        all_variants(body, n as int),
    ensures
        scan_variants(body, n) is Ok,
    decreases n,
{
    if n > 0 {
        lemma_scan_variants_of_variants(body, (n - 1) as nat);
        assert(is_variant(body[n - 1]));
    }
}

/// Whether no statement after the `j`-th, among the first `n`, defines the
/// name that the `j`-th defines.
pub open spec fn last_of_name(body: Seq<ClassDefStatement>, n: int, j: int) -> bool {
    forall|k: int| j < k < n ==> statement_name(#[trigger] body[k]) != statement_name(body[j])
}

/// Whether one of the first `n` statements defines `name`.
pub open spec fn defines(body: Seq<ClassDefStatement>, n: int, name: Seq<char>) -> bool {
    exists|j: int| 0 <= j < n && statement_name(#[trigger] body[j]) == name
}

/// What accepted fields hold of the `j`-th statement: it is a field whose
/// annotation resolves, its name is a key, and the key's type is its own
/// unless a later statement defines the name again.
pub proof fn lemma_scan_fields_at(
    root: Tree<Namespace>,
    body: Seq<ClassDefStatement>,
    abs: Seq<Seq<char>>,
    n: nat,
    j: int,
)
    requires
        n <= body.len(),
        scan_fields(root, body, abs, n) is Ok,
        0 <= j < n,
    ensures
        is_field(body[j]),
        resolve(root, statement_ty(body[j]), abs) is Ok,
        scan_fields(root, body, abs, n)->Ok_0.contains_key(statement_name(body[j])),
        last_of_name(body, n as int, j) ==> scan_fields(root, body, abs, n)->Ok_0[statement_name(
            body[j],
        )] == resolve(root, statement_ty(body[j]), abs)->Ok_0,
    decreases n,
{
    if j < n - 1 {
        lemma_scan_fields_at(root, body, abs, (n - 1) as nat, j);
        if last_of_name(body, n as int, j) {
            assert(statement_name(body[n - 1]) != statement_name(body[j]));
            assert(last_of_name(body, n - 1, j));
        }
    }
}

/// Accepted fields hold no name that no statement defines.
pub proof fn lemma_scan_fields_keys(
    root: Tree<Namespace>,
    body: Seq<ClassDefStatement>,
    abs: Seq<Seq<char>>,
    n: nat,
    name: Seq<char>,
)
    requires
        n <= body.len(),
        scan_fields(root, body, abs, n) is Ok,
        scan_fields(root, body, abs, n)->Ok_0.contains_key(name),
    ensures
        defines(body, n as int, name),
    decreases n,
{
    if n > 0 {
        if name == statement_name(body[n - 1]) {
        } else {
            lemma_scan_fields_keys(root, body, abs, (n - 1) as nat, name);
            let j = choose|j: int| 0 <= j < n - 1 && statement_name(#[trigger] body[j]) == name;
            assert(0 <= j < n && statement_name(body[j]) == name);
        }
    }
}

/// What accepted variants hold of the `j`-th statement: it is a variant, and
/// its name is in the set.
pub proof fn lemma_scan_variants_at(body: Seq<ClassDefStatement>, n: nat, j: int)
    requires
        n <= body.len(),
        scan_variants(body, n) is Ok,
        0 <= j < n,
    ensures
        is_variant(body[j]),
        scan_variants(body, n)->Ok_0.contains(statement_name(body[j])),
    decreases n,
{
    if j < n - 1 {
        lemma_scan_variants_at(body, (n - 1) as nat, j);
    }
}

/// Accepted variants hold no name that no statement defines.
pub proof fn lemma_scan_variants_keys(body: Seq<ClassDefStatement>, n: nat, name: Seq<char>)
    requires
        n <= body.len(),
        scan_variants(body, n) is Ok,
        scan_variants(body, n)->Ok_0.contains(name),
    ensures
        defines(body, n as int, name),
    decreases n,
{
    if n > 0 {
        if name == statement_name(body[n - 1]) {
        } else {
            lemma_scan_variants_keys(body, (n - 1) as nat, name);
            let j = choose|j: int| 0 <= j < n - 1 && statement_name(#[trigger] body[j]) == name;
            assert(0 <= j < n && statement_name(body[j]) == name);
        }
    }
}

/// A class inherits from nothing but `Account` and `Enum`: where the bases
/// before the `j`-th resolve to markers and the `j`-th resolves to anything
/// else, the class is refused with `InvalidBase` of that type, raised at the
/// class.
pub proof fn theorem_invalid_base(
    root: Tree<Namespace>,
    loc: Location,
    body: Seq<ClassDefStatement>,
    bases: Seq<TyExpression>,
    abs: Seq<Seq<char>>,
    j: int,
)
    requires
        0 <= j < bases.len(),
        all_markers(root, bases, abs, j),
        resolve(root, bases[j], abs) is Ok,
        !account_base(root, bases, abs, j),
        !enum_base(root, bases, abs, j),
    ensures
        class_signature(root, loc, body, bases, abs) == Err::<SignatureView, CoreErrorView>(
            ErrorView::InvalidBase(resolve(root, bases[j], abs)->Ok_0).located(loc),
        ),
{
    lemma_scan_bases_of_markers(root, bases, abs, loc, j as nat);
    assert(scan_bases(root, bases, abs, loc, (j + 1) as nat) is Err);
    lemma_scan_bases_failure_stays(root, bases, abs, loc, (j + 1) as nat, bases.len());
}

/// No class is both an account and an enum: where all bases resolve to
/// markers and both markers occur, the class is refused with `EnumAccount`,
/// raised at the class.
pub proof fn theorem_enum_account(
    root: Tree<Namespace>,
    loc: Location,
    body: Seq<ClassDefStatement>,
    bases: Seq<TyExpression>,
    abs: Seq<Seq<char>>,
    a: int,
    b: int,
)
    requires
        all_markers(root, bases, abs, bases.len() as int),
        0 <= a < bases.len(),
        account_base(root, bases, abs, a),
        0 <= b < bases.len(),
        enum_base(root, bases, abs, b),
    ensures
        class_signature(root, loc, body, bases, abs) == Err::<SignatureView, CoreErrorView>(
            ErrorView::EnumAccount.located(loc),
        ),
{
    lemma_scan_bases_of_markers(root, bases, abs, loc, bases.len());
}

/// In a class without the `Enum` base every statement is a field: where the
/// statements before the `j`-th are fields whose annotations resolve and the
/// `j`-th has a value or no annotation, the class is refused with
/// `InvalidClassField`, raised at that statement.
pub proof fn theorem_invalid_class_field(
    root: Tree<Namespace>,
    loc: Location,
    body: Seq<ClassDefStatement>,
    bases: Seq<TyExpression>,
    abs: Seq<Seq<char>>,
    j: int,
)
    requires
        all_markers(root, bases, abs, bases.len() as int),
        forall|i: int| 0 <= i < bases.len() ==> !#[trigger] enum_base(root, bases, abs, i),
        0 <= j < body.len(),
        all_fields(root, body, abs, j),
        !is_field(body[j]),
    ensures
        class_signature(root, loc, body, bases, abs) == Err::<SignatureView, CoreErrorView>(
            ErrorView::InvalidClassField.located(body[j].0),
        ),
{
    lemma_scan_bases_of_markers(root, bases, abs, loc, bases.len());
    lemma_scan_fields_of_fields(root, body, abs, j as nat);
    assert(scan_fields(root, body, abs, (j + 1) as nat) is Err);
    lemma_scan_fields_failure_stays(root, body, abs, (j + 1) as nat, body.len());
}

/// A class without the `Enum` base whose statements are all fields with
/// resolving annotations is accepted as a struct. It is an account exactly
/// if `Account` is among its bases, and each field stands in its mapping
/// with the resolved type of the last statement of its name.
pub proof fn theorem_struct_fields(
    root: Tree<Namespace>,
    loc: Location,
    body: Seq<ClassDefStatement>,
    bases: Seq<TyExpression>,
    abs: Seq<Seq<char>>,
)
    requires
        all_markers(root, bases, abs, bases.len() as int),
        forall|i: int| 0 <= i < bases.len() ==> !#[trigger] enum_base(root, bases, abs, i),
        all_fields(root, body, abs, body.len() as int),
    ensures
        class_signature(root, loc, body, bases, abs) matches Ok(
            SignatureView::Class(ClassSignatureView::Struct(class)),
        ) && {
            &&& class.is_account <==> exists|i: int|
                0 <= i < bases.len() && #[trigger] account_base(root, bases, abs, i)
            &&& forall|j: int|
                0 <= j < body.len() ==> class.fields.contains_key(
                    statement_name(#[trigger] body[j]),
                )
            &&& forall|j: int|
                0 <= j < body.len() && #[trigger] last_of_name(body, body.len() as int, j)
                    ==> class.fields[statement_name(body[j])] == resolve(
                    root,
                    statement_ty(body[j]),
                    abs,
                )->Ok_0
            &&& forall|name: Seq<char>| #[trigger]
                class.fields.contains_key(name) ==> defines(body, body.len() as int, name)
        },
{
    lemma_scan_bases_of_markers(root, bases, abs, loc, bases.len());
    lemma_scan_fields_of_fields(root, body, abs, body.len());
    let fields = scan_fields(root, body, abs, body.len())->Ok_0;
    assert forall|j: int| 0 <= j < body.len() implies fields.contains_key(
        statement_name(#[trigger] body[j]),
    ) by {
        lemma_scan_fields_at(root, body, abs, body.len(), j);
    }
    assert forall|j: int|
        0 <= j < body.len() && #[trigger] last_of_name(
            body,
            body.len() as int,
            j,
        ) implies fields[statement_name(body[j])] == resolve(
        root,
        statement_ty(body[j]),
        abs,
    )->Ok_0 by {
        lemma_scan_fields_at(root, body, abs, body.len(), j);
    }
    assert forall|name: Seq<char>| #[trigger] fields.contains_key(name) implies defines(
        body,
        body.len() as int,
        name,
    ) by {
        lemma_scan_fields_keys(root, body, abs, body.len(), name);
    }
}

/// In a class with the `Enum` base every statement is a variant: where
/// `Account` is not among the bases, the statements before the `j`-th are
/// variants and the `j`-th has an annotation or no value, the class is
/// refused with `InvalidEnumVariant`, raised at that statement.
pub proof fn theorem_invalid_enum_variant(
    root: Tree<Namespace>,
    loc: Location,
    body: Seq<ClassDefStatement>,
    bases: Seq<TyExpression>,
    abs: Seq<Seq<char>>,
    e: int,
    j: int,
)
    requires
        all_markers(root, bases, abs, bases.len() as int),
        forall|i: int| 0 <= i < bases.len() ==> !#[trigger] account_base(root, bases, abs, i),
        0 <= e < bases.len(),
        enum_base(root, bases, abs, e),
        0 <= j < body.len(),
        all_variants(body, j),
        !is_variant(body[j]),
    ensures
        class_signature(root, loc, body, bases, abs) == Err::<SignatureView, CoreErrorView>(
            ErrorView::InvalidEnumVariant.located(body[j].0),
        ),
{
    lemma_scan_bases_of_markers(root, bases, abs, loc, bases.len());
    lemma_scan_variants_of_variants(body, j as nat);
    assert(scan_variants(body, (j + 1) as nat) is Err);
    lemma_scan_variants_failure_stays(body, (j + 1) as nat, body.len());
}

/// A class with the `Enum` base and without the `Account` base whose
/// statements are all variants is accepted as an enum, and its variants are
/// exactly the names of its statements.
pub proof fn theorem_enum_variants(
    root: Tree<Namespace>,
    loc: Location,
    body: Seq<ClassDefStatement>,
    bases: Seq<TyExpression>,
    abs: Seq<Seq<char>>,
    e: int,
)
    requires
        all_markers(root, bases, abs, bases.len() as int),
        forall|i: int| 0 <= i < bases.len() ==> !#[trigger] account_base(root, bases, abs, i),
        0 <= e < bases.len(),
        enum_base(root, bases, abs, e),
        all_variants(body, body.len() as int),
    ensures
        class_signature(root, loc, body, bases, abs) matches Ok(
            SignatureView::Class(ClassSignatureView::Enum(class)),
        ) && {
            &&& forall|j: int|
                0 <= j < body.len() ==> class.variants.contains(
                    statement_name(#[trigger] body[j]),
                )
            &&& forall|name: Seq<char>| #[trigger]
                class.variants.contains(name) ==> defines(body, body.len() as int, name)
        },
{
    lemma_scan_bases_of_markers(root, bases, abs, loc, bases.len());
    lemma_scan_variants_of_variants(body, body.len());
    let variants = scan_variants(body, body.len())->Ok_0;
    assert forall|j: int| 0 <= j < body.len() implies variants.contains(
        statement_name(#[trigger] body[j]),
    ) by {
        lemma_scan_variants_at(body, body.len(), j);
    }
    assert forall|name: Seq<char>| #[trigger] variants.contains(name) implies defines(
        body,
        body.len() as int,
        name,
    ) by {
        lemma_scan_variants_keys(body, body.len(), name);
    }
}

} // verus!
