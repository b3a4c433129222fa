use vstd::prelude::*;

use crate::errors::CheckError;
use crate::types::Type;

verus! {

/// A region of the source text.
#[derive(Clone, Copy, PartialEq, Eq, Structural, Debug)]
pub struct Span {
    pub start: usize,
    pub end: usize,
}

/// A syntax tree node together with the source region it was parsed from.
pub struct Node<T> {
    pub value: T,
    pub span: Span,
}

/// An expression, as the statement checker sees it: the type that checking the
/// expression produced, or `None` when it produced no value; the names of the
/// variables it reads; and the error that checking it handed back, if it failed.
pub struct Expression {
    pub resolved: Option<Type>,
    pub reads: Vec<String>,
    pub failure: Option<CheckError>,
}

/// The two declaration forms: `T x = v;` / `T x;` and `let x: T = v;` / `let x = v;`.
pub enum VariableDeclarationKind {
    Typed { var_type: Node<Type>, value: Option<Node<Expression>> },
    Let { var_type: Option<Node<Type>>, value: Node<Expression> },
}

/// A `{ ... }` block of statements.
pub struct Block {
    pub statements: Vec<Node<Statement>>,
    pub span: Span,
}

/// One subject of a `switch`, optionally bound to a name (`switch (e as x)`).
pub struct SwitchExpression {
    pub expression: Node<Expression>,
    pub alias: Option<Node<String>>,
}

/// One `case` of a `switch`: a boolean condition and its block.
pub struct SwitchCase {
    pub condition: Node<Expression>,
    pub block: Block,
}

/// One arm of a `match`: `Enum::Variant(binding) { ... }`.
pub struct MatchArm {
    pub enum_name: Node<String>,
    pub variant_name: Node<String>,
    pub variant_value: Option<Node<String>>,
    pub block: Block,
}

/// A function parameter.
pub struct Parameter {
    pub identifier: Node<String>,
    pub param_type: Node<Type>,
}

/// A function declaration.
pub struct FunctionDeclaration {
    pub identifier: Node<String>,
    pub parameters: Vec<Parameter>,
    pub return_type: Node<Type>,
    pub body: Block,
}

/// The statements of the language.
pub enum Statement {
    Declaration { identifier: Node<String>, kind: VariableDeclarationKind },
    Assignment {
        identifier: Node<String>,
        accessors: Vec<Node<Expression>>,
        value: Node<Expression>,
    },
    Conditional { condition: Node<Expression>, if_block: Block, else_block: Option<Block> },
    WhileLoop { condition: Node<Expression>, block: Block },
    ForLoop {
        declaration: Option<Box<Node<Statement>>>,
        condition: Node<Expression>,
        assignment: Option<Box<Node<Statement>>>,
        block: Block,
    },
    Switch { expressions: Vec<Node<SwitchExpression>>, cases: Vec<Node<SwitchCase>> },
    Return(Option<Node<Expression>>),
    Break,
    Continue,
    Match { expression: Node<Expression>, match_arms: Vec<Node<MatchArm>>, rest_arm: Option<Block> },
    Expression(Node<Expression>),
    Function(FunctionDeclaration),
}

} // verus!
