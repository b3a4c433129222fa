//! What the checker asks of the types of values: in declarations, assignments,
//! conditions, `return` and `match`, proved over the statement semantics.
use vstd::prelude::*;

use crate::ast::{Block, Expression, MatchArm, Node, Statement, VariableDeclarationKind};
use crate::checker::{CheckerModel, FunctionModel};
use crate::errors::{high, ConditionContext, ErrorKind, StackError};
use crate::laws::{added, lemma_block_frame, lemma_step_frame};
use crate::semantics::{check_condition, expr_failure, expr_type, resolve, step, visit_expr};
use crate::stack::{find_in_scope, lookup, VariableModel};
use crate::types::{compatible, Type, TypeModel};

verus! {

broadcast use crate::semantics::lemma_visit_expr;

// ---------------------------------------------------------------------------
// Which types accept which

/// A type that is not a vector accepts only itself, and never the empty vector;
/// a vector type accepts a vector exactly when the element types are equal or
/// the value is the empty vector `[]`, and accepts nothing that is not a vector.
pub proof fn lemma_compatible_cases(expected: TypeModel, actual: TypeModel)
    ensures
        !(expected is Vector) ==> (compatible(expected, actual) <==> expected == actual),
        expected is Vector && !(actual is Vector) ==> !compatible(expected, actual),
        forall|a: TypeModel, b: TypeModel|
            #[trigger] compatible(TypeModel::Vector(Box::new(a)), TypeModel::Vector(Box::new(b)))
                <==> (a == b || b == TypeModel::Void),
{
}

// ---------------------------------------------------------------------------
// Declarations

/// A declaration `let x: T = v;` or `T x = v;` whose written type resolves to
/// `declared` and whose value has the known type `actual` reports, as its first
/// error, that `declared` does not accept `actual` exactly when it does not, and
/// otherwise reports no such mismatch; where the innermost scope did not declare
/// `x`, afterwards `x` is a variable of type `declared`, and where it did, the
/// last error is that `x` is declared already and the variables stay as they were.
pub proof fn lemma_declaration_type_checked(
    m: CheckerModel,
    s: Node<Statement>,
    identifier: Node<String>,
    var_type: Node<Type>,
    value: Node<Expression>,
    declared: TypeModel,
    actual: TypeModel,
)
    requires
        m.wf(),
        s.value == (Statement::Declaration {
            identifier,
            kind: VariableDeclarationKind::Typed { var_type, value: Some(value) },
        }) || s.value == (Statement::Declaration {
            identifier,
            kind: VariableDeclarationKind::Let { var_type: Some(var_type), value },
        }),
        resolve(m.types, var_type.value@) == Ok::<TypeModel, Seq<char>>(declared),
        expr_type(value) == Some(actual),
    ensures
        !compatible(declared, actual) ==> step(m, s).0.errors.len() > m.errors.len()
            && step(m, s).0.errors[m.errors.len() as int] == high(
                ErrorKind::DeclarationTypeMismatch { name: identifier.value@, declared, actual },
                s.span,
            ),
        compatible(declared, actual) ==> forall|i: int|
            m.errors.len() <= i < step(m, s).0.errors.len()
                ==> !(#[trigger] step(m, s).0.errors[i].kind is DeclarationTypeMismatch),
        find_in_scope(m.stack.top(), identifier.value@) is None ==> lookup(step(m, s).0.stack.scopes, identifier.value@)
            == Some(VariableModel { name: identifier.value@, ty: declared, span: identifier.span }),
        find_in_scope(m.stack.top(), identifier.value@) is Some ==> step(m, s).0.stack == m.stack
            && step(m, s).0.errors.len() > m.errors.len() && step(m, s).0.errors.last() == high(
            ErrorKind::Stack(StackError::AlreadyDeclared { name: identifier.value@ }),
            s.span,
        ),
{
    crate::laws::lemma_declare_then_lookup(m.stack, identifier.value@, declared, identifier.span);
}

/// `let x = v;` with a value of known type `t`: the empty vector `[]` gives no
/// type to infer and a `void` value cannot be held, and either is reported with
/// nothing declared; any other value declares `x` with type `t` where the
/// innermost scope did not declare it, and is otherwise reported as declared twice.
pub proof fn lemma_inferred_declaration(
    m: CheckerModel,
    s: Node<Statement>,
    identifier: Node<String>,
    value: Node<Expression>,
    t: TypeModel,
)
    requires
        m.wf(),
        s.value == (Statement::Declaration {
            identifier,
            kind: VariableDeclarationKind::Let { var_type: None, value },
        }),
        expr_type(value) == Some(t),
    ensures
        t == TypeModel::Vector(Box::new(TypeModel::Void)) ==> step(m, s).0.stack == m.stack
            && step(m, s).0.errors == m.errors.push(
            high(ErrorKind::EmptyVectorInference { name: identifier.value@ }, s.span),
        ),
        t == TypeModel::Void ==> step(m, s).0.stack == m.stack && step(m, s).0.errors == m.errors.push(
            high(ErrorKind::VoidAssignment { name: identifier.value@ }, s.span),
        ),
        t != TypeModel::Vector(Box::new(TypeModel::Void)) && t != TypeModel::Void && find_in_scope(
            m.stack.top(),
            identifier.value@,
        ) is None ==> step(m, s).0.errors == m.errors && lookup(step(m, s).0.stack.scopes, identifier.value@)
            == Some(VariableModel { name: identifier.value@, ty: t, span: identifier.span }),
        t != TypeModel::Vector(Box::new(TypeModel::Void)) && t != TypeModel::Void && find_in_scope(
            m.stack.top(),
            identifier.value@,
        ) is Some ==> step(m, s).0.stack == m.stack && step(m, s).0.errors == m.errors.push(
            high(ErrorKind::Stack(StackError::AlreadyDeclared { name: identifier.value@ }), s.span),
        ),
{
    crate::laws::lemma_declare_then_lookup(m.stack, identifier.value@, t, identifier.span);
}

/// A declaration whose written type names no known type reports that name as
/// unknown at the written type, as its only error, and declares nothing.
pub proof fn lemma_declaration_unknown_type(
    m: CheckerModel,
    s: Node<Statement>,
    identifier: Node<String>,
    kind: VariableDeclarationKind,
    var_type: Node<Type>,
    unknown: Seq<char>,
)
    requires
        s.value == (Statement::Declaration { identifier, kind }),
        (kind is Typed && kind->Typed_var_type == var_type) || (kind is Let && kind->Let_var_type == Some(var_type)),
        resolve(m.types, var_type.value@) == Err::<TypeModel, Seq<char>>(unknown),
    ensures
        step(m, s).0.stack == m.stack,
        step(m, s).0.errors == m.errors.push(high(ErrorKind::UnknownType { name: unknown }, var_type.span)),
{
}

// ---------------------------------------------------------------------------
// Assignments

/// `x = v;` with a value of known type `actual`, to a variable `x` of type
/// `T`, reports a type mismatch naming `x`, `T` and `actual` exactly when `T`
/// does not accept `actual`, and nothing otherwise; to a name that denotes no
/// variable, it reports that the name is undeclared. Either way the statement
/// hands back no error and the variables stay as they were.
pub proof fn lemma_assignment_type_checked(
    m: CheckerModel,
    s: Node<Statement>,
    identifier: Node<String>,
    accessors: Vec<Node<Expression>>,
    value: Node<Expression>,
    actual: TypeModel,
)
    requires
        s.value == (Statement::Assignment { identifier, accessors, value }),
        accessors@.len() == 0,
        expr_failure(value) is None,
        expr_type(value) == Some(actual),
    ensures
        step(m, s).1 is Ok,
        step(m, s).0.stack == m.stack,
        lookup(m.stack.scopes, identifier.value@) matches Some(v) ==> step(m, s).0.errors == (if compatible(v.ty, actual) {
            m.errors
        } else {
            m.errors.push(
                high(
                    ErrorKind::Stack(StackError::TypeMismatch { name: identifier.value@, expected: v.ty, actual }),
                    s.span,
                ),
            )
        }),
        lookup(m.stack.scopes, identifier.value@) is None ==> step(m, s).0.errors == m.errors.push(
            high(ErrorKind::Stack(StackError::Undeclared { name: identifier.value@ }), s.span),
        ),
{
}

// ---------------------------------------------------------------------------
// Conditions

/// A condition of a known type other than `bool` adds exactly one error, that
/// the condition is not a `bool`, with its context and type, at its span; a
/// `bool` condition, or one of unknown type, adds none. This holds in every context.
pub proof fn lemma_condition_must_be_bool(m: CheckerModel, condition: Node<Expression>, context: ConditionContext)
    ensures
        expr_type(condition) is Some && expr_type(condition)->0 != TypeModel::Bool ==> check_condition(
            m,
            condition,
            context,
        ).errors == m.errors.push(
            high(ErrorKind::ConditionNotBool { context, actual: expr_type(condition)->0 }, condition.span),
        ),
        (expr_type(condition) is None || expr_type(condition) == Some(TypeModel::Bool)) ==> check_condition(
            m,
            condition,
            context,
        ).errors == m.errors,
{
}

/// The first error of a `while` loop whose condition has a known type other
/// than `bool` is that the condition is not a `bool`.
pub proof fn lemma_while_condition_checked(m: CheckerModel, s: Node<Statement>, condition: Node<Expression>, body: Block, t: TypeModel)
    requires
        m.wf(),
        s.value == (Statement::WhileLoop { condition, block: body }),
        expr_type(condition) == Some(t),
        t != TypeModel::Bool,
    ensures
        step(m, s).0.errors.len() > m.errors.len(),
        step(m, s).0.errors[m.errors.len() as int] == high(
            ErrorKind::ConditionNotBool { context: ConditionContext::While, actual: t },
            condition.span,
        ),
{
    let m1 = check_condition(m, condition, ConditionContext::While);
    let m2 = m1.with_stack(m1.stack.enter_breakable().enter_continuable());
    lemma_block_frame(m2, body);
    assert(step(m, s).0.errors[m.errors.len() as int] == m1.errors[m.errors.len() as int]);
}

/// The first error of an `if` whose condition has a known type other than
/// `bool` is that the condition is not a `bool`.
pub proof fn lemma_if_condition_checked(
    m: CheckerModel,
    s: Node<Statement>,
    condition: Node<Expression>,
    if_block: Block,
    else_block: Option<Block>,
    t: TypeModel,
)
    requires
        m.wf(),
        s.value == (Statement::Conditional { condition, if_block, else_block }),
        expr_type(condition) == Some(t),
        t != TypeModel::Bool,
    ensures
        step(m, s).0.errors.len() > m.errors.len(),
        step(m, s).0.errors[m.errors.len() as int] == high(
            ErrorKind::ConditionNotBool { context: ConditionContext::If, actual: t },
            condition.span,
        ),
{
    let m1 = check_condition(m, condition, ConditionContext::If);
    lemma_block_frame(m1, if_block);
    let m2 = crate::semantics::block(m1, if_block);
    assert(m2.errors[m.errors.len() as int] == m1.errors[m.errors.len() as int]);
    match else_block {
        Some(b) => {
            lemma_block_frame(m2, b);
            assert(step(m, s).0.errors[m.errors.len() as int] == m2.errors[m.errors.len() as int]);
        },
        None => {},
    }
}

/// A `for` loop whose condition has a known type other than `bool` reports
/// that the condition is not a `bool`.
pub proof fn lemma_for_condition_checked(
    m: CheckerModel,
    s: Node<Statement>,
    declaration: Option<Box<Node<Statement>>>,
    condition: Node<Expression>,
    assignment: Option<Box<Node<Statement>>>,
    body: Block,
    t: TypeModel,
)
    requires
        m.wf(),
        s.value == (Statement::ForLoop { declaration, condition, assignment, block: body }),
        expr_type(condition) == Some(t),
        t != TypeModel::Bool,
    ensures
        added(
            m.errors,
            step(m, s).0.errors,
            high(ErrorKind::ConditionNotBool { context: ConditionContext::ForLoop, actual: t }, condition.span),
        ),
{
    let e = high(ErrorKind::ConditionNotBool { context: ConditionContext::ForLoop, actual: t }, condition.span);
    let m1 = m.with_stack(m.stack.push_scope());
    let m2 = match declaration {
        Some(d) => step(m1, *d).0,
        None => m1,
    };
    match declaration {
        Some(d) => lemma_step_frame(m1, *d),
        None => {},
    }
    let m3 = check_condition(m2, condition, ConditionContext::ForLoop);
    let k = m2.errors.len() as int;
    assert(m3.errors[k] == e);
    let m4 = match assignment {
        Some(a) => step(m3, *a).0,
        None => m3,
    };
    match assignment {
        Some(a) => lemma_step_frame(m3, *a),
        None => {},
    }
    assert(m4.errors[k] == e);
    let m5 = m4.with_stack(m4.stack.enter_breakable().enter_continuable());
    lemma_block_frame(m5, body);
    assert(step(m, s).0.errors[k] == e);
}

/// The first error of a `switch` case whose condition has a known type other
/// than `bool` is that the condition is not a `bool`.
pub proof fn lemma_switch_case_condition_checked(m: CheckerModel, c: Node<crate::ast::SwitchCase>, t: TypeModel)
    requires
        m.wf(),
        expr_type(c.value.condition) == Some(t),
        t != TypeModel::Bool,
    ensures
        crate::semantics::switch_case(m, c).errors.len() > m.errors.len(),
        crate::semantics::switch_case(m, c).errors[m.errors.len() as int] == high(
            ErrorKind::ConditionNotBool { context: ConditionContext::SwitchCase, actual: t },
            c.value.condition.span,
        ),
{
    let m1 = check_condition(m, c.value.condition, ConditionContext::SwitchCase);
    let m2 = m1.with_stack(m1.stack.enter_breakable());
    lemma_block_frame(m2, c.value.block);
    assert(crate::semantics::switch_case(m, c).errors[m.errors.len() as int] == m1.errors[m.errors.len() as int]);
}

// ---------------------------------------------------------------------------
// Return

/// Inside a function declared to return `R`, `return v;` with a value of known
/// type `actual` reports that the return type does not match, naming the
/// function, `R` and `actual`, exactly when `R` does not accept `actual`,
/// whatever scopes are open around it.
pub proof fn lemma_return_type_checked(m: CheckerModel, s: Node<Statement>, value: Node<Expression>, f: FunctionModel, actual: TypeModel)
    requires
        s.value == Statement::Return(Some(value)),
        m.function == Some(f),
        expr_type(value) == Some(actual),
    ensures
        !compatible(f.return_type, actual) ==> added(
            m.errors,
            step(m, s).0.errors,
            high(ErrorKind::ReturnTypeMismatch { function: f.name, expected: f.return_type, actual }, s.span),
        ),
        compatible(f.return_type, actual) ==> forall|i: int|
            m.errors.len() <= i < step(m, s).0.errors.len()
                ==> !(#[trigger] step(m, s).0.errors[i].kind is ReturnTypeMismatch),
{
    let r = step(m, s).0;
    if !compatible(f.return_type, actual) {
        assert(r.errors.last() == high(
            ErrorKind::ReturnTypeMismatch { function: f.name, expected: f.return_type, actual },
            s.span,
        ));
        assert(r.errors[r.errors.len() - 1] == r.errors.last());
    }
}

/// Inside a function declared to return `R`, a bare `return;` reports that the
/// return type does not match (with `void` as the returned type) exactly when
/// `R` is not `void`.
pub proof fn lemma_bare_return_checked(m: CheckerModel, s: Node<Statement>, f: FunctionModel)
    requires
        s.value == Statement::Return(None),
        m.function == Some(f),
    ensures
        f.return_type != TypeModel::Void ==> added(
            m.errors,
            step(m, s).0.errors,
            high(
                ErrorKind::ReturnTypeMismatch { function: f.name, expected: f.return_type, actual: TypeModel::Void },
                s.span,
            ),
        ),
        f.return_type == TypeModel::Void ==> forall|i: int|
            m.errors.len() <= i < step(m, s).0.errors.len()
                ==> !(#[trigger] step(m, s).0.errors[i].kind is ReturnTypeMismatch),
{
    let r = step(m, s).0;
    if f.return_type != TypeModel::Void {
        assert(r.errors[r.errors.len() - 1] == r.errors.last());
    }
}

/// `return` is refused as outside any function exactly when only the global
/// scope is open, and a value returned from a function declared to return
/// `void` is refused exactly then.
pub proof fn lemma_return_placement(m: CheckerModel, s: Node<Statement>, value: Option<Node<Expression>>)
    requires
        s.value == Statement::Return(value),
    ensures
        m.stack.scopes.len() <= 1 ==> step(m, s).0.errors.len() > m.errors.len()
            && step(m, s).0.errors[m.errors.len() as int] == high(ErrorKind::ReturnOutsideFunction, s.span),
        m.stack.scopes.len() > 1 ==> forall|i: int|
            m.errors.len() <= i < step(m, s).0.errors.len()
                ==> !(#[trigger] step(m, s).0.errors[i].kind is ReturnOutsideFunction),
        m.function matches Some(f) ==> (added(
            m.errors,
            step(m, s).0.errors,
            high(ErrorKind::VoidFunctionReturnsValue { function: f.name }, s.span),
        ) <==> (f.return_type == TypeModel::Void && value is Some)),
{
    let r = step(m, s).0;
    if let Some(f) = m.function {
        if f.return_type == TypeModel::Void && value is Some {
            let k: int = if m.stack.scopes.len() <= 1 { m.errors.len() as int + 1 } else { m.errors.len() as int };
            assert(r.errors[k] == high(ErrorKind::VoidFunctionReturnsValue { function: f.name }, s.span));
        }
    }
}

// ---------------------------------------------------------------------------
// Match

/// A `match` whose subject checked without failure and has a type that resolves
/// to anything but an enum (a struct included) adds exactly one error, that a
/// value of that type cannot be matched, at the subject's span; it checks no
/// arm, leaves the variables as they were and hands back no error.
pub proof fn lemma_match_on_non_enum(
    m: CheckerModel,
    s: Node<Statement>,
    expression: Node<Expression>,
    arms: Vec<Node<MatchArm>>,
    rest: Option<Block>,
    actual: TypeModel,
    resolved: TypeModel,
)
    requires
        s.value == (Statement::Match { expression, match_arms: arms, rest_arm: rest }),
        expr_failure(expression) is None,
        expr_type(expression) == Some(actual),
        resolve(m.types, actual) == Ok::<TypeModel, Seq<char>>(resolved),
        !(resolved is Enum),
    ensures
        step(m, s).1 is Ok,
        step(m, s).0.errors == m.errors.push(high(ErrorKind::MatchOnNonEnum { actual: resolved }, expression.span)),
        step(m, s).0.stack == m.stack,
        step(m, s).0.hovers == visit_expr(m, expression).hovers,
{
}

/// A `match` whose subject failed hands that failure back, and one whose subject
/// produced no value hands back that a value is missing; neither adds an error.
/// A subject whose type names no known type reports that name as unknown at the
/// subject and hands that error back.
pub proof fn lemma_match_subject_checked(m: CheckerModel, s: Node<Statement>, expression: Node<Expression>, arms: Vec<Node<MatchArm>>, rest: Option<Block>)
    requires
        s.value == (Statement::Match { expression, match_arms: arms, rest_arm: rest }),
    ensures
        expr_failure(expression) matches Some(f) ==> step(m, s).1 == Err::<(), crate::errors::CheckErrorModel>(f)
            && step(m, s).0.errors == m.errors,
        expr_failure(expression) is None && expr_type(expression) is None ==> step(m, s).1 == Err::<
            (),
            crate::errors::CheckErrorModel,
        >(high(ErrorKind::MissingResult, expression.span)) && step(m, s).0.errors == m.errors,
        expr_failure(expression) is None && expr_type(expression) is Some && resolve(m.types, expr_type(expression)->0) is Err
            ==> step(m, s).1 == Err::<(), crate::errors::CheckErrorModel>(
            high(ErrorKind::UnknownType { name: resolve(m.types, expr_type(expression)->0)->Err_0 }, expression.span),
        ) && step(m, s).0.errors == m.errors.push(
            high(ErrorKind::UnknownType { name: resolve(m.types, expr_type(expression)->0)->Err_0 }, expression.span),
        ),
{
}

} // verus!
