//! Signatures: what the signing phase records of each definition.
use vstd::prelude::*;
use crate::name_map::NameMap;
use crate::namespace::NamespaceOutput;
use crate::tree::Tree;
use crate::ty::{
    clone_tys, tys_view, Builtin, BuiltinView, DefinedType, ParamType, Ty, TyView,
};

verus! {

/// Signature for a class that gets treated as a struct.
#[derive(Debug)]
pub struct StructSignature {
    pub is_account: bool,
    pub bases: Vec<Ty>,
    pub fields: NameMap<Ty>,
}

/// What a `StructSignature` is, as a mathematical value.
pub struct StructSignatureView {
    pub is_account: bool,
    pub bases: Seq<TyView>,
    pub fields: Map<Seq<char>, TyView>,
}

/// The field types of a struct, by field name.
pub open spec fn fields_view(fields: NameMap<Ty>) -> Map<Seq<char>, TyView> {
    Map::new(|name: Seq<char>| fields@.contains_key(name), |name: Seq<char>| fields@[name]@)
}

impl View for StructSignature {
    type V = StructSignatureView;

    open spec fn view(&self) -> StructSignatureView {
        StructSignatureView {
            is_account: self.is_account,
            bases: tys_view(self.bases@),
            fields: fields_view(self.fields),
        }
    }
}

impl Clone for StructSignature {
    fn clone(&self) -> (r: Self)
        ensures
            r@ == self@,
    {
        let fields = self.fields.clone();
        proof {
            assert(fields_view(fields) =~= fields_view(self.fields)) by {
                assert forall|name: Seq<char>| self.fields.names().contains(name) implies #[trigger] fields_view(
                    fields,
                )[name] == fields_view(self.fields)[name] by {
                    let j = self.fields.names().index_of(name);
                    assert(0 <= j < self.fields.names().len() && self.fields.names()[j] == name);
                    assert(cloned::<Ty>(self.fields.values()[j], fields.values()[j]));
                }
            }
        }
        StructSignature { is_account: self.is_account, bases: clone_tys(&self.bases), fields }
    }
}

/// Signature for a class that gets treated as an enum.
#[derive(Debug)]
pub struct EnumSignature {
    pub variants: NameMap<()>,
}

/// What an `EnumSignature` is, as a mathematical value.
pub struct EnumSignatureView {
    pub variants: Set<Seq<char>>,
}

impl View for EnumSignature {
    type V = EnumSignatureView;

    open spec fn view(&self) -> EnumSignatureView {
        EnumSignatureView { variants: self.variants@.dom() }
    }
}

impl Clone for EnumSignature {
    fn clone(&self) -> (r: Self)
        ensures
            r@ == self@,
    {
        let variants = self.variants.clone();
        assert(variants@.dom() =~= self.variants@.dom());
        EnumSignature { variants }
    }
}

/// Signature for a class.
#[derive(Debug)]
pub enum ClassSignature {
    Struct(StructSignature),
    Enum(EnumSignature),
}

/// What a `ClassSignature` is, as a mathematical value.
pub enum ClassSignatureView {
    Struct(StructSignatureView),
    Enum(EnumSignatureView),
}

impl View for ClassSignature {
    type V = ClassSignatureView;

    open spec fn view(&self) -> ClassSignatureView {
        match self {
            ClassSignature::Struct(signature) => ClassSignatureView::Struct(signature@),
            ClassSignature::Enum(signature) => ClassSignatureView::Enum(signature@),
        }
    }
}

impl Clone for ClassSignature {
    fn clone(&self) -> (r: Self)
        ensures
            r@ == self@,
    {
        match self {
            ClassSignature::Struct(signature) => ClassSignature::Struct(signature.clone()),
            ClassSignature::Enum(signature) => ClassSignature::Enum(signature.clone()),
        }
    }
}

/// Signature for a function.
#[derive(Debug)]
pub struct FunctionSignature {
    pub params: Vec<(String, Ty, ParamType)>,
    pub returns: Ty,
}

/// What a `FunctionSignature` is, as a mathematical value.
pub struct FunctionSignatureView {
    pub params: Seq<(Seq<char>, TyView, ParamType)>,
    pub returns: TyView,
}

/// The parameters of a function as mathematical values, in order.
pub open spec fn params_view(params: Seq<(String, Ty, ParamType)>) -> Seq<
    (Seq<char>, TyView, ParamType),
> {
    Seq::new(params.len(), |i: int| (params[i].0@, params[i].1@, params[i].2))
}

impl View for FunctionSignature {
    type V = FunctionSignatureView;

    open spec fn view(&self) -> FunctionSignatureView {
        FunctionSignatureView { params: params_view(self.params@), returns: self.returns@ }
    }
}

impl Clone for FunctionSignature {
    fn clone(&self) -> (r: Self)
        ensures
            r@ == self@,
    {
        let mut params: Vec<(String, Ty, ParamType)> = Vec::new();
        let mut i: usize = 0;
        while i < self.params.len()
            invariant
                i <= self.params@.len(),
                params@.len() == i,
                forall|j: int|
                    0 <= j < i ==> params@[j].0@ == self.params@[j].0@ && params@[j].1@
                        == self.params@[j].1@ && params@[j].2 == self.params@[j].2,
            decreases self.params@.len() - i,
        {
            params.push((self.params[i].0.clone(), self.params[i].1.clone(), self.params[i].2));
            i += 1;
        }
        assert(params_view(params@) =~= params_view(self.params@));
        FunctionSignature { params, returns: self.returns.clone() }
    }
}

/// Signature of an object.
#[derive(Debug)]
pub enum Signature {
    Class(ClassSignature),
    Function(FunctionSignature),
    Builtin(Builtin),
}

/// What a `Signature` is, as a mathematical value.
pub enum SignatureView {
    Class(ClassSignatureView),
    Function(FunctionSignatureView),
    Builtin(BuiltinView),
}

impl View for Signature {
    type V = SignatureView;

    open spec fn view(&self) -> SignatureView {
        match self {
            Signature::Class(signature) => SignatureView::Class(signature@),
            Signature::Function(signature) => SignatureView::Function(signature@),
            Signature::Builtin(builtin) => SignatureView::Builtin(builtin@),
        }
    }
}

impl Clone for Signature {
    fn clone(&self) -> (r: Self)
        ensures
            r@ == self@,
    {
        match self {
            Signature::Class(signature) => Signature::Class(signature.clone()),
            Signature::Function(signature) => Signature::Function(signature.clone()),
            Signature::Builtin(builtin) => Signature::Builtin(builtin.clone()),
        }
    }
}

impl SignatureView {
    /// The kind under which a reference to the object is tagged: `Account`
    /// for a struct that is an account, `Enum` for an enum, `Struct` for
    /// everything else.
    pub open spec fn kind(self) -> DefinedType {
        match self {
            SignatureView::Class(ClassSignatureView::Struct(signature)) => if signature.is_account {
                DefinedType::Account
            } else {
                DefinedType::Struct
            },
            SignatureView::Class(ClassSignatureView::Enum(_)) => DefinedType::Enum,
            _ => DefinedType::Struct,
        }
    }
}

impl Signature {
    /// The kind under which a reference to the object is tagged.
    pub fn kind(&self) -> (r: DefinedType)
        ensures
            r == self@.kind(),
    {
        match self {
            Signature::Class(ClassSignature::Struct(signature)) => if signature.is_account {
                DefinedType::Account
            } else {
                DefinedType::Struct
            },
            Signature::Class(ClassSignature::Enum(_)) => DefinedType::Enum,
            _ => DefinedType::Struct,
        }
    }
}

/// Signatures associated with every object defined in a namespace.
pub type Signed = NameMap<Signature>;

/// The signatures of a namespace as mathematical values, by name.
pub type SignedView = Map<Seq<char>, SignatureView>;

/// The signatures of a whole tree as mathematical values, by module path.
pub type SignedTreeView = Map<Seq<Seq<char>>, SignedView>;

/// The signatures of a namespace, by name.
pub open spec fn signed_view(signed: Signed) -> SignedView {
    Map::new(|name: Seq<char>| signed@.contains_key(name), |name: Seq<char>| signed@[name]@)
}

/// The signatures of a tree, by module path and name.
pub open spec fn signed_tree_view(tree: Tree<Signed>) -> SignedTreeView {
    Map::new(
        |path: Seq<Seq<char>>| tree@.contains_key(path),
        |path: Seq<Seq<char>>| signed_view(tree@[path]),
    )
}

/// Whether `path` names a signature of `tree`: its last segment a name of the
/// module at the segments before it.
pub open spec fn has_signature(tree: SignedTreeView, path: Seq<Seq<char>>) -> bool {
    &&& path.len() > 0
    &&& tree.contains_key(path.drop_last())
    &&& tree[path.drop_last()].contains_key(path.last())
}

/// The signature that `path` names in `tree`.
pub open spec fn signature_at(tree: SignedTreeView, path: Seq<Seq<char>>) -> SignatureView {
    tree[path.drop_last()][path.last()]
}

/// The output of the signing phase: the namespaces it was given, and beside
/// them the signature of every object they define.
#[derive(Debug)]
pub struct SignOutput {
    pub namespace_output: NamespaceOutput,
    pub tree: Tree<Signed>,
}

} // verus!
