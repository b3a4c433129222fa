//! What checking each statement does to the checker's state, stated over models.
use vstd::prelude::*;

use crate::ast::{
    Block, Expression, MatchArm, Node, Parameter, Span, Statement,
    SwitchCase, SwitchExpression, VariableDeclarationKind,
};
use crate::checker::{CheckerModel, DefinitionInfo, FunctionModel};
use crate::errors::{high, CheckErrorModel, ConditionContext, Diagnostic, ErrorKind, Severity, StackError};
use crate::stack::{lookup, VariableModel};
use crate::types::{compatible, EnumVariantModel, TypeDefinitionModel, TypeModel};

verus! {

/// The outcome of checking a statement: nothing, or an error handed back to the caller.
pub type Outcome = Result<(), CheckErrorModel>;

// ---------------------------------------------------------------------------
// Types

/// The first user type declaration of that name.
pub open spec fn find_type(types: Seq<TypeDefinitionModel>, name: Seq<char>) -> Option<TypeDefinitionModel>
    decreases types.len(),
{
    if types.len() == 0 {
        None
    } else if types[0].name() == name {
        Some(types[0])
    } else {
        find_type(types.drop_first(), name)
    }
}

/// Resolving a type: every named type becomes the struct or enum it names;
/// an unknown name is reported back.
pub open spec fn resolve(types: Seq<TypeDefinitionModel>, t: TypeModel) -> Result<TypeModel, Seq<char>>
    decreases t,
{
    match t {
        TypeModel::Named(name) => match find_type(types, name) {
            Some(TypeDefinitionModel::Struct { .. }) => Ok(TypeModel::Struct(name)),
            Some(TypeDefinitionModel::Enum { .. }) => Ok(TypeModel::Enum(name)),
            None => Err(name),
        },
        TypeModel::Vector(inner) => match resolve(types, *inner) {
            Ok(r) => Ok(TypeModel::Vector(Box::new(r))),
            Err(name) => Err(name),
        },
        _ => Ok(t),
    }
}

/// The variants of the enum of that name; none when no enum has that name.
pub open spec fn enum_variants(types: Seq<TypeDefinitionModel>, name: Seq<char>) -> Seq<EnumVariantModel> {
    match find_type(types, name) {
        Some(TypeDefinitionModel::Enum { variants, .. }) => variants,
        _ => Seq::empty(),
    }
}

/// The first variant of that name.
pub open spec fn find_variant(variants: Seq<EnumVariantModel>, name: Seq<char>) -> Option<EnumVariantModel>
    decreases variants.len(),
{
    if variants.len() == 0 {
        None
    } else if variants[0].name == name {
        Some(variants[0])
    } else {
        find_variant(variants.drop_first(), name)
    }
}

/// Every variant is among the visited names.
pub open spec fn all_covered(variants: Seq<EnumVariantModel>, visited: Seq<Seq<char>>) -> bool {
    forall|i: int| 0 <= i < variants.len() ==> visited.contains(#[trigger] variants[i].name)
}

/// The first variant, in declaration order, that is not among the visited names.
pub open spec fn first_missing(variants: Seq<EnumVariantModel>, visited: Seq<Seq<char>>) -> Option<EnumVariantModel>
    decreases variants.len(),
{
    if variants.len() == 0 {
        None
    } else if !visited.contains(variants[0].name) {
        Some(variants[0])
    } else {
        first_missing(variants.drop_first(), visited)
    }
}

/// The error that checking an expression handed back, if it failed.
pub open spec fn expr_failure(e: Node<Expression>) -> Option<CheckErrorModel> {
    match e.value.failure {
        Some(f) => Some(f@),
        None => None,
    }
}

/// The type that an expression produced.
pub open spec fn expr_type(e: Node<Expression>) -> Option<TypeModel> {
    match e.value.resolved {
        Some(t) => Some(t@),
        None => None,
    }
}

/// The type of the elements reached by indexing `depth` times into a value of type
/// `t`; `Err` holds the type that cannot be indexed.
pub open spec fn element_type(t: TypeModel, depth: nat) -> Result<TypeModel, TypeModel>
    decreases depth,
{
    if depth == 0 {
        Ok(t)
    } else {
        match t {
            TypeModel::Vector(inner) => element_type(*inner, (depth - 1) as nat),
            _ => Err(t),
        }
    }
}

pub open spec fn void_vector() -> TypeModel {
    TypeModel::Vector(Box::new(TypeModel::Void))
}

// ---------------------------------------------------------------------------
// Steps shared by several statements

/// Reading the first `n` of the given names: each that denotes a variable
/// records that variable's declaration as used.
pub open spec fn use_names(m: CheckerModel, names: Seq<String>, n: nat) -> CheckerModel
    decreases n,
{
    if n == 0 || n > names.len() {
        m
    } else {
        let m1 = use_names(m, names, (n - 1) as nat);
        match lookup(m1.stack.scopes, names[n - 1]@) {
            Some(v) => m1.mark_used(v.span),
            None => m1,
        }
    }
}

/// Visiting an expression records the variables it reads as used.
pub open spec fn visit_expr(m: CheckerModel, e: Node<Expression>) -> CheckerModel {
    use_names(m, e.value.reads@, e.value.reads@.len())
}

/// Recording uses changes nothing but the uses.
proof fn lemma_use_names(m: CheckerModel, names: Seq<String>, n: nat)
    ensures
        ({
            let r = use_names(m, names, n);
            &&& r.stack == m.stack
            &&& r.errors == m.errors
            &&& r.hovers == m.hovers
            &&& r.definitions == m.definitions
            &&& r.function == m.function
            &&& r.types == m.types
        }),
    decreases n,
{
    if n > 0 && n <= names.len() {
        lemma_use_names(m, names, (n - 1) as nat);
    }
}

/// Visiting an expression changes nothing but the uses.
pub broadcast proof fn lemma_visit_expr(m: CheckerModel, e: Node<Expression>)
    ensures
        #[trigger] visit_expr(m, e).stack == m.stack,
        visit_expr(m, e).errors == m.errors,
        visit_expr(m, e).hovers == m.hovers,
        visit_expr(m, e).definitions == m.definitions,
        visit_expr(m, e).function == m.function,
        visit_expr(m, e).types == m.types,
{
    lemma_use_names(m, e.value.reads@, e.value.reads@.len());
}

/// Warning, in order, of each of the first `n` variables of `scope` that has
/// not been read.
pub open spec fn warn_unused_prefix(m: CheckerModel, scope: Seq<VariableModel>, n: nat) -> CheckerModel
    decreases n,
{
    if n == 0 || n > scope.len() {
        m
    } else {
        let m1 = warn_unused_prefix(m, scope, (n - 1) as nat);
        let v = scope[n - 1];
        if m1.used.contains(v.span) {
            m1
        } else {
            m1.report(Diagnostic { severity: Severity::Low, kind: ErrorKind::UnusedVariable { name: v.name }, span: v.span })
        }
    }
}

/// Warning of every variable of the innermost scope that has not been read.
pub open spec fn warn_unused(m: CheckerModel) -> CheckerModel {
    warn_unused_prefix(m, m.stack.top(), m.stack.top().len())
}

/// Resolving a written type; an unknown name is reported at `span`.
pub open spec fn resolve_checked(m: CheckerModel, t: TypeModel, span: Span) -> (CheckerModel, Result<TypeModel, CheckErrorModel>) {
    match resolve(m.types, t) {
        Ok(r) => (m, Ok(r)),
        Err(name) => {
            let e = high(ErrorKind::UnknownType { name }, span);
            (m.report(e), Err(e))
        },
    }
}

/// Resolving the type written at a node; `None` when it is unknown.
pub open spec fn visit_type(m: CheckerModel, t: Node<crate::types::Type>) -> (CheckerModel, Option<TypeModel>) {
    let (m1, r) = resolve_checked(m, t.value@, t.span);
    (m1, match r {
        Ok(ty) => Some(ty),
        Err(_) => None,
    })
}

/// A condition must be a `bool`; one of another known type is reported at its span.
pub open spec fn check_condition(m: CheckerModel, condition: Node<Expression>, context: ConditionContext) -> CheckerModel {
    let m0 = visit_expr(m, condition);
    match expr_type(condition) {
        Some(t) => if t != TypeModel::Bool {
            m0.report(high(ErrorKind::ConditionNotBool { context, actual: t }, condition.span))
        } else {
            m0
        },
        None => m0,
    }
}

/// Declaring a variable in the innermost scope; a refusal is reported at `report_span`.
pub open spec fn declare_or_report(m: CheckerModel, name: Seq<char>, ty: TypeModel, span: Span, report_span: Span) -> CheckerModel {
    let (stack, r) = m.stack.declare(name, ty, span);
    match r {
        Ok(()) => m.with_stack(stack),
        Err(e) => m.with_stack(stack).report(high(ErrorKind::Stack(e), report_span)),
    }
}

/// A declared type refusing the value's type is reported at `span`.
pub open spec fn check_value_type(m: CheckerModel, name: Seq<char>, declared: TypeModel, actual: TypeModel, span: Span) -> CheckerModel {
    if compatible(declared, actual) {
        m
    } else {
        m.report(high(ErrorKind::DeclarationTypeMismatch { name, declared, actual }, span))
    }
}

// ---------------------------------------------------------------------------
// Statements that hold no block

/// `T x = v;`, `T x;`, `let x: T = v;` and `let x = v;`.
pub open spec fn declaration(m: CheckerModel, s: Node<Statement>) -> CheckerModel {
    match s.value {
        Statement::Declaration { identifier, kind } => {
            let name = identifier.value@;
            match kind {
                VariableDeclarationKind::Typed { var_type, value } => {
                    let (m1, declared) = visit_type(m, var_type);
                    match declared {
                        None => m1,
                        Some(dt) => {
                            let (m2, resolved) = match value {
                                Some(v) => match expr_type(v) {
                                    Some(at) => (check_value_type(visit_expr(m1, v), name, dt, at, s.span), Some(dt)),
                                    None => (visit_expr(m1, v), None),
                                },
                                None => (m1, Some(dt)),
                            };
                            match resolved {
                                Some(rt) => declare_or_report(m2, name, rt, identifier.span, s.span).hover(
                                    rt,
                                    name,
                                    identifier.span,
                                ),
                                None => m2.hover(TypeModel::Void, name, identifier.span),
                            }
                        },
                    }
                },
                VariableDeclarationKind::Let { var_type, value } => {
                    let resolved = expr_type(value);
                    let m = visit_expr(m, value);
                    match var_type {
                        Some(vt) => {
                            let (m1, declared) = visit_type(m, vt);
                            match declared {
                                None => m1,
                                Some(dt) => {
                                    let m2 = match resolved {
                                        Some(rt) => check_value_type(m1, name, dt, rt, s.span),
                                        None => m1,
                                    };
                                    declare_or_report(m2, name, dt, identifier.span, s.span).hover(
                                        dt,
                                        name,
                                        identifier.span,
                                    )
                                },
                            }
                        },
                        None => match resolved {
                            Some(rt) => {
                                let m1 = if rt == void_vector() {
                                    m.report(high(ErrorKind::EmptyVectorInference { name }, s.span))
                                } else if rt == TypeModel::Void {
                                    m.report(high(ErrorKind::VoidAssignment { name }, s.span))
                                } else {
                                    declare_or_report(m, name, rt, identifier.span, s.span)
                                };
                                m1.hover(rt, name, identifier.span)
                            },
                            None => m.hover(TypeModel::Void, name, identifier.span),
                        },
                    }
                },
            }
        },
        _ => m,
    }
}

/// The index expressions of an indexed assignment must be `i64`s.
pub open spec fn check_accessors(m: CheckerModel, accessors: Seq<Node<Expression>>, n: nat) -> CheckerModel
    decreases n,
{
    if n == 0 || n > accessors.len() {
        m
    } else {
        let m1 = check_accessors(m, accessors, (n - 1) as nat);
        let a = accessors[n - 1];
        let m2 = visit_expr(m1, a);
        match expr_type(a) {
            Some(t) => if t != TypeModel::I64 {
                m2.report(high(ErrorKind::IndexNotInteger { actual: t }, a.span))
            } else {
                m2
            },
            None => m2,
        }
    }
}

/// `x[i]...[k] = v;`
pub open spec fn index_assignment(m: CheckerModel, identifier: Node<String>, accessors: Seq<Node<Expression>>, value: Node<Expression>, span: Span) -> CheckerModel {
    let name = identifier.value@;
    let m1 = check_accessors(m, accessors, accessors.len());
    match lookup(m1.stack.scopes, name) {
        None => m1.report(high(ErrorKind::Stack(StackError::Undeclared { name }), span)),
        Some(v) => match element_type(v.ty, accessors.len()) {
            Err(t) => m1.report(high(ErrorKind::NotIndexable { name, actual: t }, span)),
            Ok(et) => match expr_type(value) {
                Some(vt) => if compatible(et, vt) {
                    visit_expr(m1, value)
                } else {
                    visit_expr(m1, value).report(
                        high(
                            ErrorKind::Stack(
                                StackError::TypeMismatch { name, expected: et, actual: vt },
                            ),
                            span,
                        ),
                    )
                },
                None => visit_expr(m1, value),
            },
        },
    }
}

/// `x = v;` and `x[i] = v;`
pub open spec fn assignment(m: CheckerModel, s: Node<Statement>) -> (CheckerModel, Outcome) {
    match s.value {
        Statement::Assignment { identifier, accessors, value } => {
            let name = identifier.value@;
            if accessors@.len() == 0 {
                let m = visit_expr(m, value);
                match (expr_failure(value), expr_type(value)) {
                    (Some(f), _) => (m, Err(f)),
                    (None, None) => {
                        let e = high(ErrorKind::NoValueProduced { name }, s.span);
                        (m.report(e), Err(e))
                    },
                    (None, Some(vt)) => {
                        let m1 = match m.stack.assign(name, vt) {
                            Ok(()) => m,
                            Err(e) => m.report(high(ErrorKind::Stack(e), s.span)),
                        };
                        let m2 = m1.hover(vt, name, identifier.span);
                        let m3 = match lookup(m2.stack.scopes, name) {
                            Some(v) => m2.define(
                                DefinitionInfo { def_span: v.span, use_span: identifier.span },
                            ),
                            None => m2,
                        };
                        (m3, Ok(()))
                    },
                }
            } else {
                (index_assignment(m, identifier, accessors@, value, s.span), Ok(()))
            }
        },
        _ => (m, Ok(())),
    }
}

/// `return;` and `return v;`
pub open spec fn return_statement(m: CheckerModel, s: Node<Statement>) -> CheckerModel {
    match s.value {
        Statement::Return(value) => {
            let m1 = if m.stack.scopes.len() <= 1 {
                m.report(high(ErrorKind::ReturnOutsideFunction, s.span))
            } else {
                m
            };
            let actual = match value {
                Some(v) => expr_type(v),
                None => None,
            };
            let m1 = match value {
                Some(v) => visit_expr(m1, v),
                None => m1,
            };
            match m1.function {
                None => m1,
                Some(f) => {
                    let m2 = if f.return_type == TypeModel::Void && value is Some {
                        m1.report(high(ErrorKind::VoidFunctionReturnsValue { function: f.name }, s.span))
                    } else {
                        m1
                    };
                    let ok = match actual {
                        None => f.return_type == TypeModel::Void,
                        Some(t) => compatible(f.return_type, t),
                    };
                    if ok {
                        m2
                    } else {
                        m2.report(
                            high(
                                ErrorKind::ReturnTypeMismatch {
                                    function: f.name,
                                    expected: f.return_type,
                                    actual: match actual {
                                        Some(t) => t,
                                        None => TypeModel::Void,
                                    },
                                },
                                s.span,
                            ),
                        )
                    }
                },
            }
        },
        _ => m,
    }
}

/// `break;` is accepted inside a loop or a switch case.
pub open spec fn break_statement(m: CheckerModel, s: Node<Statement>) -> CheckerModel {
    if m.stack.breakable > 0 {
        m
    } else {
        m.report(high(ErrorKind::BreakOutsideLoop, s.span))
    }
}

/// `continue;` is accepted inside a loop.
pub open spec fn continue_statement(m: CheckerModel, s: Node<Statement>) -> CheckerModel {
    if m.stack.continuable > 0 {
        m
    } else {
        m.report(high(ErrorKind::ContinueOutsideLoop, s.span))
    }
}

/// A subject of a `switch`: its alias, if any, is declared with the subject's type.
pub open spec fn switch_expression(m: CheckerModel, se: Node<SwitchExpression>) -> CheckerModel {
    let m = visit_expr(m, se.value.expression);
    match expr_type(se.value.expression) {
        Some(t) => match se.value.alias {
            Some(id) => declare_or_report(m, id.value@, t, id.span, se.span),
            None => m,
        },
        None => m,
    }
}

/// The subjects of a `switch`, in order.
pub open spec fn switch_expressions(m: CheckerModel, es: Seq<Node<SwitchExpression>>, n: nat) -> CheckerModel
    decreases n,
{
    if n == 0 || n > es.len() {
        m
    } else {
        switch_expression(switch_expressions(m, es, (n - 1) as nat), es[n - 1])
    }
}

/// The parameters of a function, declared in order in the function's scope.
pub open spec fn parameters(m: CheckerModel, ps: Seq<Parameter>, n: nat) -> CheckerModel
    decreases n,
{
    if n == 0 || n > ps.len() {
        m
    } else {
        let m1 = parameters(m, ps, (n - 1) as nat);
        let p = ps[n - 1];
        let (m2, t) = visit_type(m1, p.param_type);
        match t {
            Some(ty) => declare_or_report(m2, p.identifier.value@, ty, p.identifier.span, p.identifier.span),
            None => m2,
        }
    }
}

/// What a match arm leaves: whether checking stops here, and with which outcome.
pub type ArmState = (CheckerModel, Seq<Seq<char>>, Option<Outcome>);

// ---------------------------------------------------------------------------
// Statements that hold blocks

/// Checking one statement.
pub open spec fn step(m: CheckerModel, s: Node<Statement>) -> (CheckerModel, Outcome)
    decreases s, 3nat,
{
    match s.value {
        Statement::Declaration { .. } => (declaration(m, s), Ok(())),
        Statement::Assignment { .. } => assignment(m, s),
        Statement::Conditional { .. } => (conditional(m, s), Ok(())),
        Statement::WhileLoop { .. } => (while_loop(m, s), Ok(())),
        Statement::ForLoop { .. } => (for_loop(m, s), Ok(())),
        Statement::Switch { .. } => (switch(m, s), Ok(())),
        Statement::Return(..) => (return_statement(m, s), Ok(())),
        Statement::Break => (break_statement(m, s), Ok(())),
        Statement::Continue => (continue_statement(m, s), Ok(())),
        Statement::Match { .. } => match_statement(m, s),
        Statement::Expression(e) => (visit_expr(m, e), Ok(())),
        Statement::Function(..) => (function(m, s), Ok(())),
    }
}

/// A block opens a scope, checks its statements in order, and closes the scope;
/// an error handed back by a statement does not stop the block.
pub open spec fn block(m: CheckerModel, b: Block) -> CheckerModel
    decreases b, b.statements@.len() + 1,
{
    let m1 = m.with_stack(m.stack.push_scope());
    let m2 = block_prefix(m1, b, b.statements@.len());
    m2.with_stack(m2.stack.pop_scope())
}

/// Checking the first `n` statements of a block, in order.
pub open spec fn block_prefix(m: CheckerModel, b: Block, n: nat) -> CheckerModel
    decreases b, n,
{
    if n == 0 || n > b.statements@.len() {
        m
    } else {
        step(block_prefix(m, b, (n - 1) as nat), b.statements@[n - 1]).0
    }
}

/// `if (c) { ... } else { ... }`
pub open spec fn conditional(m: CheckerModel, s: Node<Statement>) -> CheckerModel
    decreases s, 2nat,
{
    match s.value {
        Statement::Conditional { condition, if_block, else_block } => {
            let m1 = check_condition(m, condition, ConditionContext::If);
            let m2 = block(m1, if_block);
            match else_block {
                Some(b) => block(m2, b),
                None => m2,
            }
        },
        _ => m,
    }
}

/// `while (c) { ... }`
pub open spec fn while_loop(m: CheckerModel, s: Node<Statement>) -> CheckerModel
    decreases s, 2nat,
{
    match s.value {
        Statement::WhileLoop { condition, block: body } => {
            let m1 = check_condition(m, condition, ConditionContext::While);
            let m2 = m1.with_stack(m1.stack.enter_breakable().enter_continuable());
            let m3 = block(m2, body);
            m3.with_stack(m3.stack.exit_breakable().exit_continuable())
        },
        _ => m,
    }
}

/// `for (declaration; condition; assignment) { ... }`
pub open spec fn for_loop(m: CheckerModel, s: Node<Statement>) -> CheckerModel
    decreases s, 2nat,
{
    match s.value {
        Statement::ForLoop { declaration, condition, assignment, block: body } => {
            let m1 = m.with_stack(m.stack.push_scope());
            let m2 = match declaration {
                Some(d) => step(m1, *d).0,
                None => m1,
            };
            let m3 = check_condition(m2, condition, ConditionContext::ForLoop);
            let m4 = match assignment {
                Some(a) => step(m3, *a).0,
                None => m3,
            };
            let m5 = m4.with_stack(m4.stack.enter_breakable().enter_continuable());
            let m6 = block(m5, body);
            m6.with_stack(m6.stack.exit_breakable().exit_continuable().pop_scope())
        },
        _ => m,
    }
}

/// A `case` of a `switch`: a `bool` condition and a block that accepts `break`.
pub open spec fn switch_case(m: CheckerModel, c: Node<SwitchCase>) -> CheckerModel
    decreases c, 1nat,
{
    let m1 = check_condition(m, c.value.condition, ConditionContext::SwitchCase);
    let m2 = m1.with_stack(m1.stack.enter_breakable());
    let m3 = block(m2, c.value.block);
    m3.with_stack(m3.stack.exit_breakable())
}

/// The first `n` cases of a `switch`, in order.
pub open spec fn switch_cases(m: CheckerModel, cases: Seq<Node<SwitchCase>>, n: nat) -> CheckerModel
    decreases cases, n,
{
    if n == 0 || n > cases.len() {
        m
    } else {
        switch_case(switch_cases(m, cases, (n - 1) as nat), cases[n - 1])
    }
}

/// `switch (subjects) { cases }`
pub open spec fn switch(m: CheckerModel, s: Node<Statement>) -> CheckerModel
    decreases s, 2nat,
{
    match s.value {
        Statement::Switch { expressions, cases } => {
            let m1 = switch_expressions(m, expressions@, expressions@.len());
            switch_cases(m1, cases@, cases@.len())
        },
        _ => m,
    }
}

/// One arm of a `match` on a value of the enum `enum_name`.
pub open spec fn match_arm(m: CheckerModel, visited: Seq<Seq<char>>, enum_name: Seq<char>, variants: Seq<EnumVariantModel>, span: Span, arm: Node<MatchArm>) -> ArmState
    decreases arm, 1nat,
{
    let a = arm.value;
    let variant = a.variant_name.value@;
    if a.enum_name.value@ != enum_name {
        (
            m.report(
                high(ErrorKind::MatchEnumMismatch { expected: enum_name, actual: a.enum_name.value@ }, span),
            ),
            visited,
            None,
        )
    } else {
        let m1 = if visited.contains(variant) {
            m.report(high(ErrorKind::DuplicateMatchArm { variant }, span))
        } else {
            m
        };
        let visited2 = visited.push(variant);
        match find_variant(variants, variant) {
            None => (m1.report(high(ErrorKind::UnknownVariant { enum_name, variant }, span)), visited2, None),
            Some(declared) => match (declared.payload, a.variant_value) {
                (None, Some(_)) => (
                    m1.report(
                        high(ErrorKind::VariantWithoutValue { enum_name, variant }, a.variant_name.span),
                    ),
                    visited2,
                    Some(Ok(())),
                ),
                (Some(t), Some(binding)) => {
                    let (m2, r) = resolve_checked(m1, t, binding.span);
                    match r {
                        Err(e) => (m2, visited2, Some(Err(e))),
                        Ok(rt) => {
                            let m3 = m2.with_stack(m2.stack.push_scope());
                            let (stack, d) = m3.stack.declare(binding.value@, rt, binding.span);
                            match d {
                                Err(e) => (m3, visited2, Some(Err(high(ErrorKind::Stack(e), binding.span)))),
                                Ok(()) => {
                                    let m4 = m3.with_stack(stack).hover(rt, binding.value@, binding.span);
                                    let m5 = warn_unused(block(m4, a.block));
                                    (m5.with_stack(m5.stack.pop_scope()), visited2, None)
                                },
                            }
                        },
                    }
                },
                _ => (block(m1, a.block), visited2, None),
            },
        }
    }
}

/// The first `n` arms of a `match`, in order, until one stops the check.
pub open spec fn match_arms(m: CheckerModel, enum_name: Seq<char>, variants: Seq<EnumVariantModel>, span: Span, arms: Seq<Node<MatchArm>>, n: nat) -> ArmState
    decreases arms, n,
{
    if n == 0 || n > arms.len() {
        (m, Seq::empty(), None)
    } else {
        let (m1, visited, stop) = match_arms(m, enum_name, variants, span, arms, (n - 1) as nat);
        if stop is Some {
            (m1, visited, stop)
        } else {
            match_arm(m1, visited, enum_name, variants, span, arms[n - 1])
        }
    }
}

/// Once an arm stops the check of a `match`, the later arms change nothing.
pub proof fn lemma_match_arms_stopped(m: CheckerModel, enum_name: Seq<char>, variants: Seq<EnumVariantModel>, span: Span, arms: Seq<Node<MatchArm>>, i: nat, n: nat)
    requires
        i <= n <= arms.len(),
        match_arms(m, enum_name, variants, span, arms, i).2 is Some,
    ensures
        match_arms(m, enum_name, variants, span, arms, n) == match_arms(m, enum_name, variants, span, arms, i),
    decreases n,
{
    if n > i {
        lemma_match_arms_stopped(m, enum_name, variants, span, arms, i, (n - 1) as nat);
    }
}

/// The `rest` arm, or the check that every variant has an arm.
pub open spec fn rest_arm(m: CheckerModel, variants: Seq<EnumVariantModel>, visited: Seq<Seq<char>>, rest: Option<Block>, span: Span) -> CheckerModel
    decreases rest, 1nat,
{
    match rest {
        Some(b) => {
            let m1 = if all_covered(variants, visited) {
                m.report(Diagnostic { severity: Severity::Low, kind: ErrorKind::UnnecessaryRestArm, span: b.span })
            } else {
                m
            };
            block(m1, b)
        },
        None => match first_missing(variants, visited) {
            Some(v) => m.report(high(ErrorKind::MissingVariant { variant: v.name }, span)),
            None => m,
        },
    }
}

/// `match (e) { Enum::Variant(x) { ... } ... rest { ... } }`
pub open spec fn match_statement(m: CheckerModel, s: Node<Statement>) -> (CheckerModel, Outcome)
    decreases s, 2nat,
{
    match s.value {
        Statement::Match { expression, match_arms: arms, rest_arm: rest } => match (expr_failure(expression), expr_type(expression)) {
            (Some(f), _) => (visit_expr(m, expression), Err(f)),
            (None, None) => (visit_expr(m, expression), Err(high(ErrorKind::MissingResult, expression.span))),
            (None, Some(at)) => {
                let (m1, r) = resolve_checked(visit_expr(m, expression), at, expression.span);
                match r {
                    Err(e) => (m1, Err(e)),
                    Ok(TypeModel::Enum(enum_name)) => {
                        let variants = enum_variants(m1.types, enum_name);
                        let (m2, visited, stop) = match_arms(m1, enum_name, variants, expression.span, arms@, arms@.len());
                        match stop {
                            Some(outcome) => (m2, outcome),
                            None => (rest_arm(m2, variants, visited, rest, s.span), Ok(())),
                        }
                    },
                    Ok(rt) => (m1.report(high(ErrorKind::MatchOnNonEnum { actual: rt }, expression.span)), Ok(())),
                }
            },
        },
        _ => (m, Ok(())),
    }
}

/// A function declaration: its body is checked with the function as the current one,
/// in a scope that holds its parameters.
pub open spec fn function(m: CheckerModel, s: Node<Statement>) -> CheckerModel
    decreases s, 2nat,
{
    match s.value {
        Statement::Function(f) => {
            let saved = m.function;
            let (m1, rt) = visit_type(m, f.return_type);
            let ret = match rt {
                Some(t) => t,
                None => f.return_type.value@,
            };
            let m2 = m1.with_function(Some(FunctionModel { name: f.identifier.value@, return_type: ret }));
            let m3 = m2.with_stack(m2.stack.push_scope());
            let m4 = parameters(m3, f.parameters@, f.parameters@.len());
            let m5 = block(m4, f.body);
            let m6 = m5.with_function(saved);
            m6.with_stack(m6.stack.pop_scope())
        },
        _ => m,
    }
}

} // verus!
