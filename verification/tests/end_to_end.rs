use seahorse_sign::ast::{
    ClassDefStatementObj, ExpressionObj, FunctionDef, ParamObj, Params, TopLevelStatement,
    TopLevelStatementObj, TyExpression, TyExpressionObj,
};
use seahorse_sign::error::Error;
use seahorse_sign::name_map::NameMap;
use seahorse_sign::namespace::{Export, Item, Namespace, NamespaceOutput};
use seahorse_sign::sign::sign;
use seahorse_sign::signature::{ClassSignature, SignOutput, Signature};
use seahorse_sign::source::{Located, Location};
use seahorse_sign::tree::Tree;
use seahorse_sign::ty::{Builtin, DefinedType, ParamType, Ty, TyName};

fn at(line: u64) -> Location {
    Location { line, column: 1 }
}

fn s(text: &str) -> String {
    text.to_string()
}

fn path(segments: &[&str]) -> Vec<String> {
    segments.iter().map(|segment| segment.to_string()).collect()
}

fn name(base: &str, line: u64) -> TyExpression {
    Located(at(line), TyExpressionObj::Generic { base: s(base), params: vec![] })
}

fn applied(base: &str, params: Vec<TyExpression>, line: u64) -> TyExpression {
    Located(at(line), TyExpressionObj::Generic { base: s(base), params })
}

fn field(field_name: &str, ty: &str, line: u64) -> Located<ClassDefStatementObj> {
    Located(
        at(line),
        ClassDefStatementObj::FieldDef { name: s(field_name), ty: Some(name(ty, line)), value: None },
    )
}

fn variant(variant_name: &str, value: i64, line: u64) -> Located<ClassDefStatementObj> {
    Located(
        at(line),
        ClassDefStatementObj::FieldDef {
            name: s(variant_name),
            ty: None,
            value: Some(Located(at(line), ExpressionObj::Int(value))),
        },
    )
}

fn class(
    class_name: &str,
    bases: &[&str],
    body: Vec<Located<ClassDefStatementObj>>,
    line: u64,
) -> TopLevelStatement {
    Located(
        at(line),
        TopLevelStatementObj::ClassDef {
            name: s(class_name),
            body,
            bases: bases.iter().map(|base| name(base, line)).collect(),
        },
    )
}

fn function(
    function_name: &str,
    params: Vec<(&str, TyExpression)>,
    returns: Option<TyExpression>,
    line: u64,
) -> TopLevelStatement {
    Located(
        at(line),
        TopLevelStatementObj::FunctionDef(FunctionDef {
            name: s(function_name),
            params: Params {
                params: params
                    .into_iter()
                    .map(|(arg, annotation)| Located(at(line), ParamObj { arg: s(arg), annotation }))
                    .collect(),
            },
            returns,
        }),
    )
}

fn prelude() -> Namespace {
    let mut namespace: Namespace = NameMap::new();
    namespace.insert(s("Account"), Export::Item(Item::Builtin(Builtin::Account)));
    namespace.insert(s("Enum"), Export::Item(Item::Builtin(Builtin::Enum)));
    namespace.insert(s("Pubkey"), Export::Item(Item::Builtin(Builtin::Other(s("Pubkey")))));
    namespace.insert(s("Array"), Export::Item(Item::Builtin(Builtin::Other(s("Array")))));
    namespace
}

fn define(namespace: &mut Namespace, export_name: &str, def: TopLevelStatement) {
    namespace.insert(s(export_name), Export::Item(Item::Defined(def)));
}

fn registry(modules: Vec<(Vec<String>, Namespace)>) -> NamespaceOutput {
    let mut tree: Tree<Namespace> = Tree::new();
    for (module, namespace) in modules {
        tree.insert(module, namespace);
    }
    NamespaceOutput { tree }
}

fn builtin(builtin: Builtin) -> Ty {
    Ty::Generic(TyName::Builtin(builtin), vec![])
}

fn defined(segments: &[&str], kind: DefinedType) -> Ty {
    Ty::Generic(TyName::Defined(path(segments), kind), vec![])
}

fn program() -> NamespaceOutput {
    let mut namespace = prelude();
    define(&mut namespace, "Acc", class("Acc", &["Account"], vec![field("owner", "Pubkey", 2)], 1));
    define(&mut namespace, "E", class("E", &["Enum"], vec![variant("A", 0, 4), variant("B", 1, 5)], 3));
    define(&mut namespace, "S", class("S", &[], vec![field("acc", "Acc", 7), field("tag", "E", 8)], 6));
    define(
        &mut namespace,
        "f",
        function("f", vec![("x", name("S", 9))], Some(name("E", 9)), 9),
    );
    registry(vec![(path(&["dot", "program"]), namespace)])
}

fn signature_of<'a>(output: &'a SignOutput, module: &[&str], export_name: &str) -> &'a Signature {
    output
        .tree
        .get(&path(module))
        .expect("the module is signed")
        .get(&s(export_name))
        .expect("the name is signed")
}

#[test]
fn signs_the_whole_program() {
    let output = sign(program()).expect("the program is valid");
    let module = ["dot", "program"];

    match signature_of(&output, &module, "Acc") {
        Signature::Class(ClassSignature::Struct(signature)) => {
            assert!(signature.is_account);
            assert_eq!(signature.fields.len(), 1);
            assert_eq!(signature.fields.get(&s("owner")), Some(&builtin(Builtin::Other(s("Pubkey")))));
            assert_eq!(signature.bases, vec![builtin(Builtin::Account)]);
        }
        other => panic!("Acc is no struct: {:?}", other),
    }
    match signature_of(&output, &module, "E") {
        Signature::Class(ClassSignature::Enum(signature)) => {
            assert_eq!(signature.variants.len(), 2);
            assert!(signature.variants.get(&s("A")).is_some());
            assert!(signature.variants.get(&s("B")).is_some());
            assert!(signature.variants.get(&s("C")).is_none());
        }
        other => panic!("E is no enum: {:?}", other),
    }
    match signature_of(&output, &module, "S") {
        Signature::Class(ClassSignature::Struct(signature)) => {
            assert!(!signature.is_account);
            assert!(signature.bases.is_empty());
            assert_eq!(signature.fields.len(), 2);
            assert_eq!(
                signature.fields.get(&s("acc")),
                Some(&defined(&["dot", "program", "Acc"], DefinedType::Account))
            );
            assert_eq!(
                signature.fields.get(&s("tag")),
                Some(&defined(&["dot", "program", "E"], DefinedType::Enum))
            );
        }
        other => panic!("S is no struct: {:?}", other),
    }
    match signature_of(&output, &module, "f") {
        Signature::Function(signature) => {
            assert_eq!(
                signature.params,
                vec![(s("x"), defined(&["dot", "program", "S"], DefinedType::Struct), ParamType::Required)]
            );
            assert_eq!(signature.returns, defined(&["dot", "program", "E"], DefinedType::Enum));
        }
        other => panic!("f is no function: {:?}", other),
    }
}

#[test]
fn signs_intrinsics_under_their_own_names() {
    let mut namespace: Namespace = NameMap::new();
    namespace.insert(s("Acct"), Export::Item(Item::Builtin(Builtin::Account)));
    namespace.insert(s("Key"), Export::Item(Item::Builtin(Builtin::Other(s("Pubkey")))));
    namespace.insert(s("Nothing"), Export::Item(Item::Builtin(Builtin::NoneType)));
    let output = sign(registry(vec![(path(&["m"]), namespace)])).expect("valid");
    let signed = output.tree.get(&path(&["m"])).expect("signed");
    assert_eq!(signed.len(), 3);
    assert!(matches!(signed.get(&s("Account")), Some(Signature::Builtin(Builtin::Account))));
    assert!(matches!(signed.get(&s("Pubkey")), Some(Signature::Builtin(Builtin::Other(_)))));
    assert!(matches!(signed.get(&s("None")), Some(Signature::Builtin(Builtin::NoneType))));
    assert!(signed.get(&s("Acct")).is_none());
}

#[test]
fn keeps_the_namespaces_beside_the_signatures() {
    let output = sign(program()).expect("valid");
    assert_eq!(output.namespace_output.tree.len(), 1);
    assert_eq!(output.namespace_output.tree.path_at(0), &path(&["dot", "program"]));
    assert_eq!(output.namespace_output.tree.value_at(0).len(), 8);
    assert_eq!(output.tree.len(), 1);
    assert_eq!(output.tree.path_at(0), &path(&["dot", "program"]));
}

#[test]
fn signing_twice_gives_the_same_tree() {
    let first = sign(program()).expect("valid");
    let second = sign(program()).expect("valid");
    assert_eq!(format!("{:?}", first.tree), format!("{:?}", second.tree));
}

#[test]
fn failing_twice_gives_the_same_error() {
    let build = || {
        let mut namespace = prelude();
        define(&mut namespace, "X", class("X", &["Account", "Enum"], vec![], 3));
        registry(vec![(path(&["m"]), namespace)])
    };
    let first = sign(build()).expect_err("refused");
    let second = sign(build()).expect_err("refused");
    assert_eq!(first, second);
}

#[test]
fn forward_reference_in_the_same_module_is_tagged_as_account() {
    let mut namespace = prelude();
    define(&mut namespace, "A", class("A", &[], vec![field("b", "B", 2)], 1));
    define(&mut namespace, "B", class("B", &["Account"], vec![field("owner", "Pubkey", 4)], 3));
    let output = sign(registry(vec![(path(&["m"]), namespace)])).expect("valid");
    match signature_of(&output, &["m"], "A") {
        Signature::Class(ClassSignature::Struct(signature)) => {
            assert_eq!(signature.fields.get(&s("b")), Some(&defined(&["m", "B"], DefinedType::Account)));
        }
        other => panic!("A is no struct: {:?}", other),
    }
}

#[test]
fn forward_reference_to_a_later_module_is_tagged_as_account() {
    let mut first = prelude();
    first.insert(s("B"), Export::Import(path(&["lib", "accounts", "B"])));
    define(&mut first, "A", class("A", &[], vec![field("b", "B", 2)], 1));
    let mut second = prelude();
    define(&mut second, "B", class("B", &["Account"], vec![], 1));
    let output = sign(registry(vec![
        (path(&["main"]), first),
        (path(&["lib", "accounts"]), second),
    ]))
    .expect("valid");
    match signature_of(&output, &["main"], "A") {
        Signature::Class(ClassSignature::Struct(signature)) => {
            assert_eq!(
                signature.fields.get(&s("b")),
                Some(&defined(&["lib", "accounts", "B"], DefinedType::Account))
            );
        }
        other => panic!("A is no struct: {:?}", other),
    }
    let main = output.tree.get(&path(&["main"])).expect("signed");
    assert!(main.get(&s("B")).is_none());
}

#[test]
fn references_inside_type_arguments_are_tagged_too() {
    let mut namespace = prelude();
    define(
        &mut namespace,
        "S",
        Located(
            at(1),
            TopLevelStatementObj::ClassDef {
                name: s("S"),
                bases: vec![],
                body: vec![Located(
                    at(2),
                    ClassDefStatementObj::FieldDef {
                        name: s("all"),
                        ty: Some(applied(
                            "Array",
                            vec![applied("Array", vec![name("Acc", 2), name("E", 2)], 2), name("S", 2)],
                            2,
                        )),
                        value: None,
                    },
                )],
            },
        ),
    );
    define(&mut namespace, "Acc", class("Acc", &["Account"], vec![], 3));
    define(&mut namespace, "E", class("E", &["Enum"], vec![], 4));
    let output = sign(registry(vec![(path(&["m"]), namespace)])).expect("valid");
    let array = |args: Vec<Ty>| Ty::Generic(TyName::Builtin(Builtin::Other(s("Array"))), args);
    match signature_of(&output, &["m"], "S") {
        Signature::Class(ClassSignature::Struct(signature)) => {
            assert_eq!(
                signature.fields.get(&s("all")),
                Some(&array(vec![
                    array(vec![
                        defined(&["m", "Acc"], DefinedType::Account),
                        defined(&["m", "E"], DefinedType::Enum),
                    ]),
                    defined(&["m", "S"], DefinedType::Struct),
                ]))
            );
        }
        other => panic!("S is no struct: {:?}", other),
    }
}

#[test]
fn a_function_without_a_return_annotation_returns_none() {
    let mut namespace = prelude();
    define(&mut namespace, "g", function("g", vec![], None, 1));
    define(
        &mut namespace,
        "h",
        function("h", vec![("a", name("Pubkey", 2)), ("b", name("Acc", 2))], None, 2),
    );
    define(&mut namespace, "Acc", class("Acc", &["Account"], vec![], 3));
    let output = sign(registry(vec![(path(&["m"]), namespace)])).expect("valid");
    match signature_of(&output, &["m"], "g") {
        Signature::Function(signature) => {
            assert!(signature.params.is_empty());
            assert_eq!(signature.returns, builtin(Builtin::NoneType));
        }
        other => panic!("g is no function: {:?}", other),
    }
    match signature_of(&output, &["m"], "h") {
        Signature::Function(signature) => {
            assert_eq!(
                signature.params,
                vec![
                    (s("a"), builtin(Builtin::Other(s("Pubkey"))), ParamType::Required),
                    (s("b"), defined(&["m", "Acc"], DefinedType::Account), ParamType::Required),
                ]
            );
        }
        other => panic!("h is no function: {:?}", other),
    }
}

#[test]
fn a_later_field_of_the_same_name_replaces_the_earlier() {
    let mut namespace = prelude();
    define(
        &mut namespace,
        "S",
        class("S", &[], vec![field("x", "Pubkey", 2), field("y", "Pubkey", 3), field("x", "T", 4)], 1),
    );
    define(&mut namespace, "T", class("T", &[], vec![], 5));
    let output = sign(registry(vec![(path(&["m"]), namespace)])).expect("valid");
    match signature_of(&output, &["m"], "S") {
        Signature::Class(ClassSignature::Struct(signature)) => {
            assert_eq!(signature.fields.len(), 2);
            assert_eq!(signature.fields.get(&s("x")), Some(&defined(&["m", "T"], DefinedType::Struct)));
        }
        other => panic!("S is no struct: {:?}", other),
    }
}

#[test]
fn the_first_failure_is_the_one_reported() {
    let mut first = prelude();
    define(&mut first, "Fine", class("Fine", &[], vec![], 1));
    define(&mut first, "Bad", class("Bad", &["Account", "Enum"], vec![], 2));
    define(&mut first, "Worse", class("Worse", &[], vec![variant("v", 1, 4)], 3));
    let mut second = prelude();
    define(&mut second, "Other", class("Other", &["Enum"], vec![field("f", "Pubkey", 2)], 1));
    let error = sign(registry(vec![(path(&["a"]), first), (path(&["b"]), second)])).expect_err("refused");
    assert_eq!(error.kind, Error::EnumAccount);
    assert_eq!(error.location, at(2));
}

#[test]
fn an_empty_tree_signs_to_an_empty_tree() {
    let output = sign(registry(vec![])).expect("valid");
    assert_eq!(output.tree.len(), 0);
    let output = SignOutput::try_from(registry(vec![(path(&["m"]), NameMap::new())])).expect("valid");
    assert_eq!(output.tree.len(), 1);
    assert_eq!(output.tree.get(&path(&["m"])).expect("signed").len(), 0);
}

#[test]
fn base_types_keep_the_tags_of_the_first_pass() {
    let mut namespace = prelude();
    define(
        &mut namespace,
        "X",
        Located(
            at(1),
            TopLevelStatementObj::ClassDef {
                name: s("X"),
                body: vec![field("y", "Y", 2)],
                bases: vec![applied("Account", vec![name("Y", 1)], 1)],
            },
        ),
    );
    define(&mut namespace, "Y", class("Y", &["Account"], vec![], 3));
    let output = sign(registry(vec![(path(&["m"]), namespace)])).expect("valid");
    match signature_of(&output, &["m"], "X") {
        Signature::Class(ClassSignature::Struct(signature)) => {
            assert!(signature.is_account);
            assert_eq!(
                signature.bases,
                vec![Ty::Generic(
                    TyName::Builtin(Builtin::Account),
                    vec![defined(&["m", "Y"], DefinedType::Struct)]
                )]
            );
            assert_eq!(signature.fields.get(&s("y")), Some(&defined(&["m", "Y"], DefinedType::Account)));
        }
        other => panic!("X is no struct: {:?}", other),
    }
}

#[test]
fn signatures_and_errors_are_cloned_in_depth() {
    let output = sign(program()).expect("valid");
    let tree = output.tree.clone();
    assert_eq!(format!("{:?}", tree), format!("{:?}", output.tree));
    let error = Error::InvalidBase(defined(&["m", "T"], DefinedType::Struct)).core_error(&at(3));
    assert_eq!(error.clone(), error);
}
