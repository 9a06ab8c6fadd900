use seahorse_sign::ast::{
    ClassDefStatementObj, ExpressionObj, FunctionDef, ParamObj, Params, TopLevelStatement,
    TopLevelStatementObj, TyExpression, TyExpressionObj,
};
use seahorse_sign::builder::build_signature;
use seahorse_sign::error::{CoreError, Error};
use seahorse_sign::name_map::NameMap;
use seahorse_sign::namespace::{Export, Item, Namespace, NamespaceOutput};
use seahorse_sign::sign::sign;
use seahorse_sign::signature::{ClassSignature, Signature};
use seahorse_sign::source::{Located, Location};
use seahorse_sign::tree::Tree;
use seahorse_sign::ty::{Builtin, DefinedType, Ty, TyName};

fn at(line: u64, column: u64) -> Location {
    Location { line, column }
}

fn s(text: &str) -> String {
    text.to_string()
}

fn path(segments: &[&str]) -> Vec<String> {
    segments.iter().map(|segment| segment.to_string()).collect()
}

fn name(base: &str) -> TyExpression {
    Located(at(90, 9), TyExpressionObj::Generic { base: s(base), params: vec![] })
}

fn statement(
    line: u64,
    field_name: &str,
    ty: Option<&str>,
    value: Option<i64>,
) -> Located<ClassDefStatementObj> {
    Located(
        at(line, 5),
        ClassDefStatementObj::FieldDef {
            name: s(field_name),
            ty: ty.map(name),
            value: value.map(|value| Located(at(line, 20), ExpressionObj::Int(value))),
        },
    )
}

fn class(line: u64, bases: &[&str], body: Vec<Located<ClassDefStatementObj>>) -> TopLevelStatement {
    Located(
        at(line, 1),
        TopLevelStatementObj::ClassDef {
            name: s("X"),
            body,
            bases: bases.iter().map(|base| name(base)).collect(),
        },
    )
}

fn root() -> Tree<Namespace> {
    let mut namespace: Namespace = NameMap::new();
    namespace.insert(s("Account"), Export::Item(Item::Builtin(Builtin::Account)));
    namespace.insert(s("Enum"), Export::Item(Item::Builtin(Builtin::Enum)));
    namespace.insert(s("Pubkey"), Export::Item(Item::Builtin(Builtin::Other(s("Pubkey")))));
    namespace.insert(s("SomeStruct"), Export::Item(Item::Defined(class(50, &[], vec![]))));
    namespace.insert(
        s("helper"),
        Export::Item(Item::Defined(Located(
            at(60, 1),
            TopLevelStatementObj::FunctionDef(FunctionDef {
                name: s("helper"),
                params: Params { params: vec![] },
                returns: None,
            }),
        ))),
    );
    namespace.insert(s("Gone"), Export::Import(path(&["elsewhere", "Gone"])));
    namespace.insert(s("Chained"), Export::Import(path(&["m", "Gone"])));
    namespace.insert(s("Marker"), Export::Import(path(&["lib", "Account"])));
    let mut lib: Namespace = NameMap::new();
    lib.insert(s("Account"), Export::Item(Item::Builtin(Builtin::Account)));
    let mut tree: Tree<Namespace> = Tree::new();
    tree.insert(path(&["m"]), namespace);
    tree.insert(path(&["lib"]), lib);
    tree
}

fn build(def: &TopLevelStatement) -> Result<Signature, CoreError> {
    build_signature(def, &path(&["m"]), &root())
}

fn refused(def: &TopLevelStatement) -> CoreError {
    build(def).expect_err("the definition is refused")
}

#[test]
fn a_base_that_is_a_struct_is_refused() {
    let error = refused(&class(3, &["SomeStruct"], vec![]));
    assert_eq!(
        error.kind,
        Error::InvalidBase(Ty::Generic(
            TyName::Defined(path(&["m", "SomeStruct"]), DefinedType::Struct),
            vec![]
        ))
    );
    assert_eq!(error.location, at(3, 1));
    assert_eq!(
        error.help.as_deref(),
        Some("Help: inheritance in this version of Seahorse is limited to a few builtin types (Account and Enum). This will change in a future release.")
    );
}

#[test]
fn a_base_that_is_another_intrinsic_is_refused() {
    let error = refused(&class(3, &["Account", "Pubkey", "SomeStruct"], vec![]));
    assert_eq!(
        error.kind,
        Error::InvalidBase(Ty::Generic(TyName::Builtin(Builtin::Other(s("Pubkey"))), vec![]))
    );
}

#[test]
fn a_base_is_refused_through_the_whole_signing_too() {
    let mut tree = root();
    let mut namespace: Namespace = NameMap::new();
    namespace.insert(s("Base"), Export::Import(path(&["m", "SomeStruct"])));
    namespace.insert(
        s("X"),
        Export::Item(Item::Defined(class(7, &["Base"], vec![]))),
    );
    tree.insert(path(&["n"]), namespace);
    let error = sign(NamespaceOutput { tree }).expect_err("refused");
    assert_eq!(
        error.kind,
        Error::InvalidBase(Ty::Generic(
            TyName::Defined(path(&["m", "SomeStruct"]), DefinedType::Struct),
            vec![]
        ))
    );
    assert_eq!(error.location, at(7, 1));
}

#[test]
fn account_and_enum_together_are_refused() {
    for bases in [["Account", "Enum"], ["Enum", "Account"]] {
        let error = refused(&class(4, &bases, vec![]));
        assert_eq!(error.kind, Error::EnumAccount);
        assert_eq!(error.location, at(4, 1));
        assert_eq!(error.help, None);
    }
}

#[test]
fn account_and_enum_are_refused_before_the_body_is_read() {
    let error = refused(&class(4, &["Account", "Enum"], vec![statement(5, "x", None, None)]));
    assert_eq!(error.kind, Error::EnumAccount);
}

#[test]
fn a_field_with_a_value_is_refused() {
    let error = refused(&class(
        1,
        &[],
        vec![statement(2, "fine", Some("Pubkey"), None), statement(3, "x", Some("Pubkey"), Some(1))],
    ));
    assert_eq!(error.kind, Error::InvalidClassField);
    assert_eq!(error.location, at(3, 5));
    assert_eq!(
        error.help.as_deref(),
        Some("Help: make sure your field has nothing but a type annotation:\n\n    field_name: Type")
    );
}

#[test]
fn a_field_without_an_annotation_is_refused() {
    let error = refused(&class(1, &["Account"], vec![statement(2, "x", None, None)]));
    assert_eq!(error.kind, Error::InvalidClassField);
    assert_eq!(error.location, at(2, 5));
    let error = refused(&class(1, &[], vec![statement(2, "x", None, Some(0))]));
    assert_eq!(error.kind, Error::InvalidClassField);
}

#[test]
fn a_well_formed_field_is_recorded_with_its_type() {
    match build(&class(1, &["Account"], vec![statement(2, "owner", Some("Pubkey"), None)])) {
        Ok(Signature::Class(ClassSignature::Struct(signature))) => {
            assert!(signature.is_account);
            assert_eq!(signature.fields.len(), 1);
            assert_eq!(
                signature.fields.get(&s("owner")),
                Some(&Ty::Generic(TyName::Builtin(Builtin::Other(s("Pubkey"))), vec![]))
            );
        }
        other => panic!("no struct: {:?}", other),
    }
}

#[test]
fn a_raw_signature_tags_every_class_as_a_struct() {
    let mut tree = root();
    let mut namespace: Namespace = NameMap::new();
    namespace.insert(s("Acc"), Export::Item(Item::Defined(class(1, &["Marker"], vec![]))));
    namespace.insert(s("Marker"), Export::Import(path(&["lib", "Account"])));
    tree.insert(path(&["n"]), namespace);
    let holder = class(2, &[], vec![statement(3, "acc", Some("Acc"), None)]);
    match build_signature(&holder, &path(&["n"]), &tree) {
        Ok(Signature::Class(ClassSignature::Struct(signature))) => {
            assert_eq!(
                signature.fields.get(&s("acc")),
                Some(&Ty::Generic(TyName::Defined(path(&["n", "Acc"]), DefinedType::Struct), vec![]))
            );
        }
        other => panic!("no struct: {:?}", other),
    }
}

#[test]
fn account_bases_are_kept_as_resolved() {
    match build(&class(1, &["Account", "Marker"], vec![])) {
        Ok(Signature::Class(ClassSignature::Struct(signature))) => {
            assert!(signature.is_account);
            assert_eq!(
                signature.bases,
                vec![
                    Ty::Generic(TyName::Builtin(Builtin::Account), vec![]),
                    Ty::Generic(TyName::Builtin(Builtin::Account), vec![]),
                ]
            );
        }
        other => panic!("no struct: {:?}", other),
    }
}

#[test]
fn a_variant_with_an_annotation_is_refused() {
    let error = refused(&class(
        1,
        &["Enum"],
        vec![statement(2, "A", None, Some(0)), statement(3, "B", Some("Pubkey"), Some(1))],
    ));
    assert_eq!(error.kind, Error::InvalidEnumVariant);
    assert_eq!(error.location, at(3, 5));
    assert_eq!(
        error.help.as_deref(),
        Some("Help: `Enum` is a special type in Seahorse - you may only define variants like this:\n\n    variant_name = <unique int>")
    );
}

#[test]
fn a_variant_without_a_value_is_refused() {
    let error = refused(&class(1, &["Enum"], vec![statement(2, "A", None, None)]));
    assert_eq!(error.kind, Error::InvalidEnumVariant);
    assert_eq!(error.location, at(2, 5));
    let error = refused(&class(1, &["Enum"], vec![statement(2, "A", Some("Pubkey"), None)]));
    assert_eq!(error.kind, Error::InvalidEnumVariant);
}

#[test]
fn a_variant_with_an_unknown_annotation_is_refused_as_a_variant() {
    let error = refused(&class(1, &["Enum"], vec![statement(2, "A", Some("Nowhere"), Some(1))]));
    assert_eq!(error.kind, Error::InvalidEnumVariant);
}

#[test]
fn well_formed_variants_are_recorded() {
    match build(&class(
        1,
        &["Enum"],
        vec![statement(2, "A", None, Some(0)), statement(3, "B", None, Some(0)), statement(4, "A", None, Some(7))],
    )) {
        Ok(Signature::Class(ClassSignature::Enum(signature))) => {
            assert_eq!(signature.variants.len(), 2);
            assert_eq!(signature.variants.name_at(0), "A");
            assert_eq!(signature.variants.name_at(1), "B");
        }
        other => panic!("no enum: {:?}", other),
    }
}

#[test]
fn a_variant_may_have_any_value() {
    let body = vec![Located(
        at(2, 5),
        ClassDefStatementObj::FieldDef {
            name: s("A"),
            ty: None,
            value: Some(Located(at(2, 9), ExpressionObj::Id(s("whatever")))),
        },
    )];
    assert!(matches!(build(&class(1, &["Enum"], body)), Ok(Signature::Class(ClassSignature::Enum(_)))));
}

#[test]
fn an_unknown_name_does_not_resolve() {
    let error = refused(&class(1, &[], vec![statement(2, "x", Some("Nowhere"), None)]));
    assert_eq!(error.kind, Error::UnresolvedType(s("Nowhere")));
    assert_eq!(error.location, at(90, 9));
    assert_eq!(error.help, None);
}

#[test]
fn a_function_is_no_type() {
    let error = refused(&class(1, &[], vec![statement(2, "x", Some("helper"), None)]));
    assert_eq!(error.kind, Error::UnresolvedType(s("helper")));
}

#[test]
fn an_import_of_nothing_does_not_resolve() {
    let error = refused(&class(1, &["Gone"], vec![]));
    assert_eq!(error.kind, Error::UnresolvedType(s("Gone")));
    let error = refused(&class(1, &["Chained"], vec![]));
    assert_eq!(error.kind, Error::UnresolvedType(s("Chained")));
}

#[test]
fn a_name_in_an_unknown_module_does_not_resolve() {
    let def = class(1, &["Account"], vec![]);
    let error = build_signature(&def, &path(&["nowhere"]), &root()).expect_err("refused");
    assert_eq!(error.kind, Error::UnresolvedType(s("Account")));
}

#[test]
fn an_unresolved_argument_fails_the_whole_annotation() {
    let annotation = Located(
        at(8, 3),
        TyExpressionObj::Generic {
            base: s("Pubkey"),
            params: vec![
                name("Pubkey"),
                Located(at(8, 12), TyExpressionObj::Generic { base: s("Nowhere"), params: vec![] }),
                name("AlsoNowhere"),
            ],
        },
    );
    let error = root().build_ty(&annotation, &path(&["m"])).expect_err("refused");
    assert_eq!(error.kind, Error::UnresolvedType(s("Nowhere")));
    assert_eq!(error.location, at(8, 12));
}

#[test]
fn an_unresolved_parameter_fails_the_function() {
    let def = Located(
        at(1, 1),
        TopLevelStatementObj::FunctionDef(FunctionDef {
            name: s("f"),
            params: Params {
                params: vec![
                    Located(at(1, 7), ParamObj { arg: s("a"), annotation: name("Pubkey") }),
                    Located(at(1, 17), ParamObj { arg: s("b"), annotation: name("Nowhere") }),
                ],
            },
            returns: Some(name("AlsoNowhere")),
        }),
    );
    assert_eq!(refused(&def).kind, Error::UnresolvedType(s("Nowhere")));
}

#[test]
fn an_unresolved_return_type_fails_the_function() {
    let def = Located(
        at(1, 1),
        TopLevelStatementObj::FunctionDef(FunctionDef {
            name: s("f"),
            params: Params { params: vec![] },
            returns: Some(name("Nowhere")),
        }),
    );
    assert_eq!(refused(&def).kind, Error::UnresolvedType(s("Nowhere")));
}

#[test]
fn every_kind_of_error_carries_its_advice() {
    let loc = at(11, 22);
    let cases = [
        (Error::EnumAccount, None),
        (Error::UnresolvedType(s("T")), None),
        (
            Error::InvalidEnumVariant,
            Some("Help: `Enum` is a special type in Seahorse - you may only define variants like this:\n\n    variant_name = <unique int>"),
        ),
        (
            Error::InvalidClassField,
            Some("Help: make sure your field has nothing but a type annotation:\n\n    field_name: Type"),
        ),
    ];
    for (kind, help) in cases {
        let error = kind.core_error(&loc);
        assert_eq!(error.location, loc);
        assert_eq!(error.help.as_deref(), help);
    }
    let error = Error::InvalidClassField.core_error(&loc);
    assert_eq!(error.kind, Error::InvalidClassField);
}
