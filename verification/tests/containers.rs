use seahorse_sign::name_map::NameMap;
use seahorse_sign::signature::{
    ClassSignature, EnumSignature, FunctionSignature, Signature, Signed, StructSignature,
};
use seahorse_sign::tree::{child_path, clone_path, path_is_prefix, Tree};
use seahorse_sign::ty::{clone_tys, Builtin, DefinedType, ParamType, Ty, TyName};

fn s(text: &str) -> String {
    text.to_string()
}

fn path(segments: &[&str]) -> Vec<String> {
    segments.iter().map(|segment| segment.to_string()).collect()
}

fn defined(segments: &[&str], kind: DefinedType) -> Ty {
    Ty::Generic(TyName::Defined(path(segments), kind), vec![])
}

fn raw_tree() -> Tree<Signed> {
    let mut signed: Signed = NameMap::new();
    signed.insert(
        s("Acc"),
        Signature::Class(ClassSignature::Struct(StructSignature {
            is_account: true,
            bases: vec![],
            fields: NameMap::new(),
        })),
    );
    signed.insert(
        s("Plain"),
        Signature::Class(ClassSignature::Struct(StructSignature {
            is_account: false,
            bases: vec![],
            fields: NameMap::new(),
        })),
    );
    signed.insert(s("E"), Signature::Class(ClassSignature::Enum(EnumSignature { variants: NameMap::new() })));
    signed.insert(
        s("f"),
        Signature::Function(FunctionSignature {
            params: vec![(s("x"), defined(&["m", "Acc"], DefinedType::Struct), ParamType::Required)],
            returns: Ty::Generic(TyName::Builtin(Builtin::NoneType), vec![]),
        }),
    );
    signed.insert(s("Pubkey"), Signature::Builtin(Builtin::Other(s("Pubkey"))));
    let mut tree: Tree<Signed> = Tree::new();
    tree.insert(path(&["m"]), signed);
    tree
}

#[test]
fn a_name_map_keeps_the_last_value_and_the_first_place() {
    let mut map: NameMap<u32> = NameMap::new();
    assert_eq!(map.len(), 0);
    assert_eq!(map.get(&s("a")), None);
    map.insert(s("a"), 1);
    map.insert(s("b"), 2);
    map.insert(s("a"), 3);
    assert_eq!(map.len(), 2);
    assert_eq!(map.get(&s("a")), Some(&3));
    assert_eq!(map.get(&s("b")), Some(&2));
    assert_eq!(map.get(&s("c")), None);
    assert_eq!(map.name_at(0), "a");
    assert_eq!(map.value_at(0), &3);
    assert_eq!(map.name_at(1), "b");
    assert_eq!(map.value_at(1), &2);
}

#[test]
fn a_tree_finds_modules_by_their_exact_path() {
    let mut tree: Tree<u32> = Tree::new();
    tree.insert(path(&["a", "b"]), 1);
    tree.insert(path(&["a"]), 2);
    tree.insert(path(&[]), 3);
    tree.insert(path(&["a", "b"]), 4);
    assert_eq!(tree.len(), 3);
    assert_eq!(tree.get(&path(&["a", "b"])), Some(&4));
    assert_eq!(tree.get(&path(&["a"])), Some(&2));
    assert_eq!(tree.get(&path(&[])), Some(&3));
    assert_eq!(tree.get(&path(&["b"])), None);
    assert_eq!(tree.get(&path(&["a", "b", "c"])), None);
    assert_eq!(tree.get_prefix(&path(&["a", "b", "c"]), 2), Some(&4));
    assert_eq!(tree.get_prefix(&path(&["a", "b", "c"]), 1), Some(&2));
    assert_eq!(tree.get_prefix(&path(&["a", "b", "c"]), 0), Some(&3));
    assert_eq!(tree.path_at(0), &path(&["a", "b"]));
    assert_eq!(tree.value_at(1), &2);
}

#[test]
fn a_tree_of_name_maps_finds_entries_by_their_path() {
    let mut names: NameMap<u32> = NameMap::new();
    names.insert(s("x"), 7);
    let mut tree: Tree<NameMap<u32>> = Tree::new();
    tree.insert(path(&["a", "b"]), names);
    assert_eq!(tree.get_leaf_ext(&path(&["a", "b", "x"])), Some(&7));
    assert_eq!(tree.get_leaf_ext(&path(&["a", "b", "y"])), None);
    assert_eq!(tree.get_leaf_ext(&path(&["a", "x"])), None);
    assert_eq!(tree.get_leaf_ext(&path(&["a", "b"])), None);
    assert_eq!(tree.get_leaf_ext(&path(&[])), None);
}

#[test]
fn paths_are_compared_segment_by_segment() {
    assert!(path_is_prefix(&path(&["a", "b"]), &path(&["a", "b", "c"]), 2));
    assert!(path_is_prefix(&path(&[]), &path(&["a"]), 0));
    assert!(path_is_prefix(&path(&["a"]), &path(&["a"]), 1));
    assert!(!path_is_prefix(&path(&["a", "x"]), &path(&["a", "b", "c"]), 2));
    assert!(!path_is_prefix(&path(&["a"]), &path(&["a", "b", "c"]), 2));
    assert!(!path_is_prefix(&path(&["a", "b", "c"]), &path(&["a", "b", "c"]), 2));
    assert_eq!(clone_path(&path(&["a", "b"])), path(&["a", "b"]));
    assert_eq!(child_path(&path(&["a", "b"]), &s("c")), path(&["a", "b", "c"]));
    assert_eq!(child_path(&path(&[]), &s("c")), path(&["c"]));
}

#[test]
fn correcting_a_type_sets_every_tag() {
    let tree = raw_tree();
    assert_eq!(
        tree.correct(defined(&["m", "Acc"], DefinedType::Struct)),
        defined(&["m", "Acc"], DefinedType::Account)
    );
    assert_eq!(tree.correct(defined(&["m", "E"], DefinedType::Struct)), defined(&["m", "E"], DefinedType::Enum));
    assert_eq!(
        tree.correct(defined(&["m", "Plain"], DefinedType::Enum)),
        defined(&["m", "Plain"], DefinedType::Struct)
    );
    assert_eq!(tree.correct(defined(&["m", "f"], DefinedType::Account)), defined(&["m", "f"], DefinedType::Struct));
    assert_eq!(
        tree.correct(defined(&["m", "Pubkey"], DefinedType::Enum)),
        defined(&["m", "Pubkey"], DefinedType::Struct)
    );
    let nested = Ty::Generic(
        TyName::Builtin(Builtin::Other(s("Array"))),
        vec![
            Ty::Generic(
                TyName::Defined(path(&["m", "Plain"]), DefinedType::Struct),
                vec![defined(&["m", "E"], DefinedType::Struct)],
            ),
            defined(&["m", "Acc"], DefinedType::Struct),
        ],
    );
    assert_eq!(
        tree.correct(nested),
        Ty::Generic(
            TyName::Builtin(Builtin::Other(s("Array"))),
            vec![
                Ty::Generic(
                    TyName::Defined(path(&["m", "Plain"]), DefinedType::Struct),
                    vec![defined(&["m", "E"], DefinedType::Enum)],
                ),
                defined(&["m", "Acc"], DefinedType::Account),
            ],
        )
    );
}

#[test]
fn the_kind_of_a_signature_is_what_references_to_it_are_tagged_with() {
    let tree = raw_tree();
    let signed = tree.get(&path(&["m"])).expect("held");
    assert_eq!(signed.get(&s("Acc")).expect("held").kind(), DefinedType::Account);
    assert_eq!(signed.get(&s("Plain")).expect("held").kind(), DefinedType::Struct);
    assert_eq!(signed.get(&s("E")).expect("held").kind(), DefinedType::Enum);
    assert_eq!(signed.get(&s("f")).expect("held").kind(), DefinedType::Struct);
    assert_eq!(signed.get(&s("Pubkey")).expect("held").kind(), DefinedType::Struct);
}

#[test]
fn intrinsics_have_names() {
    assert_eq!(Builtin::Account.name(), "Account");
    assert_eq!(Builtin::Enum.name(), "Enum");
    assert_eq!(Builtin::NoneType.name(), "None");
    assert_eq!(Builtin::Other(s("Pubkey")).name(), "Pubkey");
}

#[test]
fn types_are_cloned_in_depth() {
    let ty = Ty::Generic(
        TyName::Builtin(Builtin::Other(s("Array"))),
        vec![defined(&["m", "Acc"], DefinedType::Account), Ty::Generic(TyName::Builtin(Builtin::Enum), vec![])],
    );
    assert_eq!(ty.clone(), ty);
    assert_eq!(clone_tys(&vec![ty.clone(), ty.clone()]), vec![ty.clone(), ty]);
}
