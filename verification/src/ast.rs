//! The syntax that reaches the signing phase.
use vstd::prelude::*;
use crate::source::Located;

verus! {

/// A definition at the top level of a module.
pub type TopLevelStatement = Located<TopLevelStatementObj>;

#[derive(Debug)]
pub enum TopLevelStatementObj {
    /// `class name(bases): body`
    ClassDef { name: String, body: Vec<ClassDefStatement>, bases: Vec<TyExpression> },
    /// `def name(params) -> returns: ...`
    FunctionDef(FunctionDef),
}

/// A statement in the body of a class.
pub type ClassDefStatement = Located<ClassDefStatementObj>;

#[derive(Debug)]
pub enum ClassDefStatementObj {
    /// `name: ty = value`, where the annotation and the value may each be absent.
    FieldDef { name: String, ty: Option<TyExpression>, value: Option<Expression> },
}

/// The header of a function.
#[derive(Debug)]
pub struct FunctionDef {
    pub name: String,
    pub params: Params,
    pub returns: Option<TyExpression>,
}

/// The parameters of a function, in order.
#[derive(Debug)]
pub struct Params {
    pub params: Vec<Param>,
}

/// One parameter of a function.
pub type Param = Located<ParamObj>;

#[derive(Debug)]
pub struct ParamObj {
    pub arg: String,
    pub annotation: TyExpression,
}

/// A type annotation as written.
pub type TyExpression = Located<TyExpressionObj>;

#[derive(Debug)]
pub enum TyExpressionObj {
    /// `base[params]`: a name applied to type arguments.
    Generic { base: String, params: Vec<TyExpression> },
}

/// A value expression. The signing phase only asks whether one is present.
pub type Expression = Located<ExpressionObj>;

#[derive(Debug)]
pub enum ExpressionObj {
    Int(i64),
    Id(String),
}

} // verus!
