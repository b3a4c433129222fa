use vstd::prelude::*;

use crate::ast::Span;
use crate::types::{Type, TypeModel};

verus! {

/// How serious a reported problem is: `High` problems reject the program,
/// `Low` ones are warnings.
#[derive(Clone, Copy, PartialEq, Eq, Structural, Debug)]
pub enum Severity {
    High,
    Low,
}

/// The statement whose condition is checked to be a `bool`.
#[derive(Clone, Copy, PartialEq, Eq, Structural, Debug)]
pub enum ConditionContext {
    If,
    While,
    ForLoop,
    SwitchCase,
}

/// What the variable stack refuses. `S` is the representation of names,
/// `T` that of types (the executable ones, or their models).
#[derive(Debug, PartialEq, Eq)]
pub enum StackError<S, T> {
    AlreadyDeclared { name: S },
    Undeclared { name: S },
    TypeMismatch { name: S, expected: T, actual: T },
}

/// The problems that the statement checker reports.
#[derive(Debug, PartialEq, Eq)]
pub enum ErrorKind<S, T> {
    DeclarationTypeMismatch { name: S, declared: T, actual: T },
    Stack(StackError<S, T>),
    EmptyVectorInference { name: S },
    VoidAssignment { name: S },
    NoValueProduced { name: S },
    ConditionNotBool { context: ConditionContext, actual: T },
    ReturnOutsideFunction,
    VoidFunctionReturnsValue { function: S },
    ReturnTypeMismatch { function: S, expected: T, actual: T },
    BreakOutsideLoop,
    ContinueOutsideLoop,
    MatchOnNonEnum { actual: T },
    MatchEnumMismatch { expected: S, actual: S },
    DuplicateMatchArm { variant: S },
    UnknownVariant { enum_name: S, variant: S },
    VariantWithoutValue { enum_name: S, variant: S },
    UnnecessaryRestArm,
    MissingVariant { variant: S },
    UnknownType { name: S },
    IndexNotInteger { actual: T },
    NotIndexable { name: S, actual: T },
    MissingResult,
    UnusedVariable { name: S },
}

/// A reported problem: its severity, what it is, and where.
#[derive(Debug, PartialEq, Eq)]
pub struct Diagnostic<S, T> {
    pub severity: Severity,
    pub kind: ErrorKind<S, T>,
    pub span: Span,
}

/// A problem as the checker reports it.
pub type CheckError = Diagnostic<String, Type>;

/// The model of a `CheckError`.
pub type CheckErrorModel = Diagnostic<Seq<char>, TypeModel>;

/// The model of a `StackError`.
pub type StackErrorModel = StackError<Seq<char>, TypeModel>;

impl View for StackError<String, Type> {
    type V = StackErrorModel;

    open spec fn view(&self) -> StackErrorModel {
        match self {
            StackError::AlreadyDeclared { name } => StackError::AlreadyDeclared { name: name@ },
            StackError::Undeclared { name } => StackError::Undeclared { name: name@ },
            StackError::TypeMismatch { name, expected, actual } => StackError::TypeMismatch {
                name: name@,
                expected: expected@,
                actual: actual@,
            },
        }
    }
}

impl View for ErrorKind<String, Type> {
    type V = ErrorKind<Seq<char>, TypeModel>;

    open spec fn view(&self) -> ErrorKind<Seq<char>, TypeModel> {
        match self {
            ErrorKind::DeclarationTypeMismatch { name, declared, actual } =>
                ErrorKind::DeclarationTypeMismatch {
                    name: name@,
                    declared: declared@,
                    actual: actual@,
                },
            ErrorKind::Stack(e) => ErrorKind::Stack(e@),
            ErrorKind::EmptyVectorInference { name } => ErrorKind::EmptyVectorInference {
                name: name@,
            },
            ErrorKind::VoidAssignment { name } => ErrorKind::VoidAssignment { name: name@ },
            ErrorKind::NoValueProduced { name } => ErrorKind::NoValueProduced { name: name@ },
            ErrorKind::ConditionNotBool { context, actual } => ErrorKind::ConditionNotBool {
                context: *context,
                actual: actual@,
            },
            ErrorKind::ReturnOutsideFunction => ErrorKind::ReturnOutsideFunction,
            ErrorKind::VoidFunctionReturnsValue { function } =>
                ErrorKind::VoidFunctionReturnsValue { function: function@ },
            ErrorKind::ReturnTypeMismatch { function, expected, actual } =>
                ErrorKind::ReturnTypeMismatch {
                    function: function@,
                    expected: expected@,
                    actual: actual@,
                },
            ErrorKind::BreakOutsideLoop => ErrorKind::BreakOutsideLoop,
            ErrorKind::ContinueOutsideLoop => ErrorKind::ContinueOutsideLoop,
            ErrorKind::MatchOnNonEnum { actual } => ErrorKind::MatchOnNonEnum { actual: actual@ },
            ErrorKind::MatchEnumMismatch { expected, actual } => ErrorKind::MatchEnumMismatch {
                expected: expected@,
                actual: actual@,
            },
            ErrorKind::DuplicateMatchArm { variant } => ErrorKind::DuplicateMatchArm {
                variant: variant@,
            },
            ErrorKind::UnknownVariant { enum_name, variant } => ErrorKind::UnknownVariant {
                enum_name: enum_name@,
                variant: variant@,
            },
            ErrorKind::VariantWithoutValue { enum_name, variant } =>
                ErrorKind::VariantWithoutValue { enum_name: enum_name@, variant: variant@ },
            ErrorKind::UnnecessaryRestArm => ErrorKind::UnnecessaryRestArm,
            ErrorKind::MissingVariant { variant } => ErrorKind::MissingVariant {
                variant: variant@,
            },
            ErrorKind::UnknownType { name } => ErrorKind::UnknownType { name: name@ },
            ErrorKind::IndexNotInteger { actual } => ErrorKind::IndexNotInteger {
                actual: actual@,
            },
            ErrorKind::NotIndexable { name, actual } => ErrorKind::NotIndexable {
                name: name@,
                actual: actual@,
            },
            ErrorKind::MissingResult => ErrorKind::MissingResult,
            ErrorKind::UnusedVariable { name } => ErrorKind::UnusedVariable { name: name@ },
        }
    }
}

impl View for Diagnostic<String, Type> {
    type V = CheckErrorModel;

    open spec fn view(&self) -> CheckErrorModel {
        Diagnostic { severity: self.severity, kind: self.kind@, span: self.span }
    }
}

/// A `High` problem of the given kind at the given place.
pub open spec fn high(kind: ErrorKind<Seq<char>, TypeModel>, span: Span) -> CheckErrorModel {
    Diagnostic { severity: Severity::High, kind, span }
}

impl Diagnostic<String, Type> {
    /// A `High` problem of the given kind at the given place.
    pub fn high(kind: ErrorKind<String, Type>, span: Span) -> (r: CheckError)
        ensures
            r@ == high(kind@, span),
    {
        Diagnostic { severity: Severity::High, kind, span }
    }
}

} // verus!

verus! {

impl StackError<String, Type> {
    pub fn duplicate(&self) -> (r: StackError<String, Type>)
        ensures
            r@ == self@,
    {
        match self {
            StackError::AlreadyDeclared { name } => StackError::AlreadyDeclared { name: name.clone() },
            StackError::Undeclared { name } => StackError::Undeclared { name: name.clone() },
            StackError::TypeMismatch { name, expected, actual } => StackError::TypeMismatch {
                name: name.clone(),
                expected: expected.duplicate(),
                actual: actual.duplicate(),
            },
        }
    }
}

impl ErrorKind<String, Type> {
    pub fn duplicate(&self) -> (r: ErrorKind<String, Type>)
        ensures
            r@ == self@,
    {
        match self {
            ErrorKind::DeclarationTypeMismatch { name, declared, actual } => ErrorKind::DeclarationTypeMismatch { name: name.clone(), declared: declared.duplicate(), actual: actual.duplicate() },
            ErrorKind::Stack(e) => ErrorKind::Stack(e.duplicate()),
            ErrorKind::EmptyVectorInference { name } => ErrorKind::EmptyVectorInference { name: name.clone() },
            ErrorKind::VoidAssignment { name } => ErrorKind::VoidAssignment { name: name.clone() },
            ErrorKind::NoValueProduced { name } => ErrorKind::NoValueProduced { name: name.clone() },
            ErrorKind::ConditionNotBool { context, actual } => ErrorKind::ConditionNotBool { context: *context, actual: actual.duplicate() },
            ErrorKind::ReturnOutsideFunction => ErrorKind::ReturnOutsideFunction,
            ErrorKind::VoidFunctionReturnsValue { function } => ErrorKind::VoidFunctionReturnsValue { function: function.clone() },
            ErrorKind::ReturnTypeMismatch { function, expected, actual } => ErrorKind::ReturnTypeMismatch { function: function.clone(), expected: expected.duplicate(), actual: actual.duplicate() },
            ErrorKind::BreakOutsideLoop => ErrorKind::BreakOutsideLoop,
            ErrorKind::ContinueOutsideLoop => ErrorKind::ContinueOutsideLoop,
            ErrorKind::MatchOnNonEnum { actual } => ErrorKind::MatchOnNonEnum { actual: actual.duplicate() },
            ErrorKind::MatchEnumMismatch { expected, actual } => ErrorKind::MatchEnumMismatch { expected: expected.clone(), actual: actual.clone() },
            ErrorKind::DuplicateMatchArm { variant } => ErrorKind::DuplicateMatchArm { variant: variant.clone() },
            ErrorKind::UnknownVariant { enum_name, variant } => ErrorKind::UnknownVariant { enum_name: enum_name.clone(), variant: variant.clone() },
            ErrorKind::VariantWithoutValue { enum_name, variant } => ErrorKind::VariantWithoutValue { enum_name: enum_name.clone(), variant: variant.clone() },
            ErrorKind::UnnecessaryRestArm => ErrorKind::UnnecessaryRestArm,
            ErrorKind::MissingVariant { variant } => ErrorKind::MissingVariant { variant: variant.clone() },
            ErrorKind::UnknownType { name } => ErrorKind::UnknownType { name: name.clone() },
            ErrorKind::IndexNotInteger { actual } => ErrorKind::IndexNotInteger { actual: actual.duplicate() },
            ErrorKind::NotIndexable { name, actual } => ErrorKind::NotIndexable { name: name.clone(), actual: actual.duplicate() },
            ErrorKind::MissingResult => ErrorKind::MissingResult,
            ErrorKind::UnusedVariable { name } => ErrorKind::UnusedVariable { name: name.clone() },
        }
    }
}

impl Diagnostic<String, Type> {
    /// A copy of this problem.
    pub fn duplicate(&self) -> (r: CheckError)
        ensures
            r@ == self@,
    {
        Diagnostic { severity: self.severity, kind: self.kind.duplicate(), span: self.span }
    }
}

} // verus!
