//! Properties of the checker as a whole, proved over the statement semantics.
use vstd::prelude::*;

use crate::ast::{Block, Expression, MatchArm, Node, Parameter, Span, Statement, SwitchCase, SwitchExpression};
use crate::checker::CheckerModel;
use crate::errors::{CheckErrorModel, ErrorKind};
use crate::semantics::{
    block, block_prefix, check_accessors, check_condition, conditional, declare_or_report,
    declaration, for_loop, function, index_assignment, match_arm, match_arms, match_statement,
    parameters, rest_arm, resolve_checked, step, switch, switch_case, switch_cases,
    switch_expressions, visit_type, while_loop, assignment, break_statement, continue_statement,
};
use crate::semantics::{
    all_covered, first_missing, lemma_match_arms_stopped, visit_expr, warn_unused,
    warn_unused_prefix,
};
use crate::stack::{find_in_scope, lookup, StackModel, VariableModel};
use crate::types::{compatible, EnumVariantModel, TypeDefinitionModel, TypeModel};

verus! {

broadcast use crate::semantics::lemma_visit_expr;

/// `b` holds `a` as its first elements.
pub open spec fn grows<A>(a: Seq<A>, b: Seq<A>) -> bool {
    a.len() <= b.len() && forall|i: int| 0 <= i < a.len() ==> #[trigger] b[i] == a[i]
}

/// No error of kind `kind` was added between `a` and `b`.
pub open spec fn none_added(a: Seq<CheckErrorModel>, b: Seq<CheckErrorModel>, kind: ErrorKind<Seq<char>, TypeModel>) -> bool {
    forall|i: int| a.len() <= i < b.len() ==> #[trigger] b[i].kind != kind
}

/// What checking a statement keeps: the number of scopes, every scope but the
/// innermost, the `break`/`continue` contexts, the current function and the
/// user types; what was reported and gathered is only added to. Where `break`
/// (`continue`) is accepted, no `break` (`continue`) is refused, at any depth.
pub open spec fn frame_kept(a: CheckerModel, b: CheckerModel) -> bool {
    &&& b.stack.scopes.len() == a.stack.scopes.len()
    &&& forall|i: int| 0 <= i < a.stack.scopes.len() - 1 ==> #[trigger] b.stack.scopes[i] == a.stack.scopes[i]
    &&& b.stack.breakable == a.stack.breakable
    &&& b.stack.continuable == a.stack.continuable
    &&& b.function == a.function
    &&& b.types == a.types
    &&& grows(a.errors, b.errors)
    &&& grows(a.hovers, b.hovers)
    &&& grows(a.definitions, b.definitions)
    &&& (a.stack.breakable > 0 ==> none_added(a.errors, b.errors, ErrorKind::BreakOutsideLoop))
    &&& (a.stack.continuable > 0 ==> none_added(a.errors, b.errors, ErrorKind::ContinueOutsideLoop))
}

/// Warning of unused variables only adds warnings of that kind.
proof fn lemma_warn_unused_prefix(m: CheckerModel, scope: Seq<VariableModel>, n: nat)
    ensures
        frame_kept(m, warn_unused_prefix(m, scope, n)),
        warn_unused_prefix(m, scope, n).stack == m.stack,
        warn_unused_prefix(m, scope, n).used == m.used,
    decreases n,
{
    if n > 0 && n <= scope.len() {
        lemma_warn_unused_prefix(m, scope, (n - 1) as nat);
        let m1 = warn_unused_prefix(m, scope, (n - 1) as nat);
        lemma_frame_trans(m, m1, warn_unused_prefix(m, scope, n));
    }
}

proof fn lemma_frame_refl(a: CheckerModel)
    ensures
        frame_kept(a, a),
{
}

proof fn lemma_frame_trans(a: CheckerModel, b: CheckerModel, c: CheckerModel)
    requires
        frame_kept(a, b),
        frame_kept(b, c),
    ensures
        frame_kept(a, c),
{
    assert forall|i: int| 0 <= i < a.stack.scopes.len() - 1 implies #[trigger] c.stack.scopes[i] == a.stack.scopes[i] by {
        assert(c.stack.scopes[i] == b.stack.scopes[i]);
    }
    assert forall|i: int| 0 <= i < a.errors.len() implies #[trigger] c.errors[i] == a.errors[i] by {
        assert(c.errors[i] == b.errors[i]);
    }
    assert forall|i: int| 0 <= i < a.hovers.len() implies #[trigger] c.hovers[i] == a.hovers[i] by {
        assert(c.hovers[i] == b.hovers[i]);
    }
    assert forall|i: int| 0 <= i < a.definitions.len() implies #[trigger] c.definitions[i] == a.definitions[i] by {
        assert(c.definitions[i] == b.definitions[i]);
    }
    if a.stack.breakable > 0 {
        assert forall|i: int| a.errors.len() <= i < c.errors.len() implies #[trigger] c.errors[i].kind != ErrorKind::<Seq<char>, TypeModel>::BreakOutsideLoop by {
            if i < b.errors.len() {
                assert(c.errors[i] == b.errors[i]);
            }
        }
    }
    if a.stack.continuable > 0 {
        assert forall|i: int| a.errors.len() <= i < c.errors.len() implies #[trigger] c.errors[i].kind != ErrorKind::<Seq<char>, TypeModel>::ContinueOutsideLoop by {
            if i < b.errors.len() {
                assert(c.errors[i] == b.errors[i]);
            }
        }
    }
}

proof fn lemma_declare_frame(m: CheckerModel, name: Seq<char>, ty: TypeModel, span: Span, report_span: Span)
    requires
        m.wf(),
    ensures
        frame_kept(m, declare_or_report(m, name, ty, span, report_span)),
{
}

proof fn lemma_condition_frame(m: CheckerModel, c: Node<Expression>, ctx: crate::errors::ConditionContext)
    ensures
        frame_kept(m, check_condition(m, c, ctx)),
{
}

proof fn lemma_resolve_frame(m: CheckerModel, t: TypeModel, span: Span)
    ensures
        frame_kept(m, resolve_checked(m, t, span).0),
{
}

proof fn lemma_declaration_frame(m: CheckerModel, s: Node<Statement>)
    requires
        m.wf(),
    ensures
        frame_kept(m, declaration(m, s)),
{
}

proof fn lemma_accessors_frame(m: CheckerModel, accessors: Seq<Node<Expression>>, n: nat)
    ensures
        frame_kept(m, check_accessors(m, accessors, n)),
    decreases n,
{
    if n > 0 && n <= accessors.len() {
        lemma_accessors_frame(m, accessors, (n - 1) as nat);
        let m1 = check_accessors(m, accessors, (n - 1) as nat);
        lemma_frame_trans(m, m1, check_accessors(m, accessors, n));
    }
}

proof fn lemma_assignment_frame(m: CheckerModel, s: Node<Statement>)
    requires
        m.wf(),
    ensures
        frame_kept(m, assignment(m, s).0),
{
    match s.value {
        Statement::Assignment { identifier, accessors, value } => {
            if accessors@.len() != 0 {
                let m1 = check_accessors(m, accessors@, accessors@.len());
                lemma_accessors_frame(m, accessors@, accessors@.len());
                lemma_frame_trans(m, m1, index_assignment(m, identifier, accessors@, value, s.span));
            }
        },
        _ => {},
    }
}

proof fn lemma_switch_expressions_frame(m: CheckerModel, es: Seq<Node<SwitchExpression>>, n: nat)
    requires
        m.wf(),
    ensures
        frame_kept(m, switch_expressions(m, es, n)),
    decreases n,
{
    if n > 0 && n <= es.len() {
        lemma_switch_expressions_frame(m, es, (n - 1) as nat);
        let m1 = switch_expressions(m, es, (n - 1) as nat);
        lemma_frame_trans(m, m1, switch_expressions(m, es, n));
    }
}

proof fn lemma_parameters_frame(m: CheckerModel, ps: Seq<Parameter>, n: nat)
    requires
        m.wf(),
    ensures
        frame_kept(m, parameters(m, ps, n)),
    decreases n,
{
    if n > 0 && n <= ps.len() {
        lemma_parameters_frame(m, ps, (n - 1) as nat);
        let m1 = parameters(m, ps, (n - 1) as nat);
        let p = ps[n - 1];
        let (m2, t) = visit_type(m1, p.param_type);
        lemma_frame_trans(m, m1, m2);
        lemma_frame_trans(m, m2, parameters(m, ps, n));
    }
}

/// Checking a statement keeps the frame of the state it starts from.
pub proof fn lemma_step_frame(m: CheckerModel, s: Node<Statement>)
    requires
        m.wf(),
    ensures
        frame_kept(m, step(m, s).0),
    decreases s, 3nat,
{
    match s.value {
        Statement::Declaration { .. } => lemma_declaration_frame(m, s),
        Statement::Assignment { .. } => lemma_assignment_frame(m, s),
        Statement::Conditional { .. } => lemma_conditional_frame(m, s),
        Statement::WhileLoop { .. } => lemma_while_frame(m, s),
        Statement::ForLoop { .. } => lemma_for_frame(m, s),
        Statement::Switch { .. } => lemma_switch_frame(m, s),
        Statement::Match { .. } => lemma_match_frame(m, s),
        Statement::Function(..) => lemma_function_frame(m, s),
        _ => {},
    }
}

/// A block leaves the variable stack as it found it, and keeps the frame.
pub proof fn lemma_block_frame(m: CheckerModel, b: Block)
    requires
        m.wf(),
    ensures
        frame_kept(m, block(m, b)),
        block(m, b).stack == m.stack,
    decreases b, b.statements@.len() + 1,
{
    let m1 = m.with_stack(m.stack.push_scope());
    lemma_block_prefix_frame(m1, b, b.statements@.len());
    let m2 = block_prefix(m1, b, b.statements@.len());
    let m3 = m2.with_stack(m2.stack.pop_scope());
    assert(m3.stack.scopes =~= m.stack.scopes) by {
        assert forall|i: int| 0 <= i < m.stack.scopes.len() implies m3.stack.scopes[i] == m.stack.scopes[i] by {
            assert(m2.stack.scopes[i] == m1.stack.scopes[i]);
        }
    }
    assert(m3.stack == m.stack);
}

proof fn lemma_block_prefix_frame(m: CheckerModel, b: Block, n: nat)
    requires
        m.wf(),
    ensures
        frame_kept(m, block_prefix(m, b, n)),
    decreases b, n,
{
    if n > 0 && n <= b.statements@.len() {
        lemma_block_prefix_frame(m, b, (n - 1) as nat);
        let m1 = block_prefix(m, b, (n - 1) as nat);
        lemma_step_frame(m1, b.statements@[n - 1]);
        lemma_frame_trans(m, m1, block_prefix(m, b, n));
    }
}

proof fn lemma_conditional_frame(m: CheckerModel, s: Node<Statement>)
    requires
        m.wf(),
    ensures
        frame_kept(m, conditional(m, s)),
    decreases s, 2nat,
{
    match s.value {
        Statement::Conditional { condition, if_block, else_block } => {
            let m1 = check_condition(m, condition, crate::errors::ConditionContext::If);
            lemma_block_frame(m1, if_block);
            let m2 = block(m1, if_block);
            lemma_frame_trans(m, m1, m2);
            match else_block {
                Some(b) => {
                    lemma_block_frame(m2, b);
                    lemma_frame_trans(m, m2, block(m2, b));
                },
                None => {},
            }
        },
        _ => {},
    }
}

proof fn lemma_while_frame(m: CheckerModel, s: Node<Statement>)
    requires
        m.wf(),
    ensures
        frame_kept(m, while_loop(m, s)),
    decreases s, 2nat,
{
    match s.value {
        Statement::WhileLoop { condition, block: body } => {
            let m1 = check_condition(m, condition, crate::errors::ConditionContext::While);
            let m2 = m1.with_stack(m1.stack.enter_breakable().enter_continuable());
            lemma_block_frame(m2, body);
            let m3 = block(m2, body);
            let m4 = m3.with_stack(m3.stack.exit_breakable().exit_continuable());
            assert(m4.stack == m1.stack);
            assert(frame_kept(m1, m4));
            lemma_frame_trans(m, m1, m4);
        },
        _ => {},
    }
}

proof fn lemma_for_frame(m: CheckerModel, s: Node<Statement>)
    requires
        m.wf(),
    ensures
        frame_kept(m, for_loop(m, s)),
    decreases s, 2nat,
{
    match s.value {
        Statement::ForLoop { declaration, condition, assignment, block: body } => {
            let m1 = m.with_stack(m.stack.push_scope());
            let m2 = match declaration {
                Some(d) => step(m1, *d).0,
                None => m1,
            };
            match declaration {
                Some(d) => lemma_step_frame(m1, *d),
                None => {},
            }
            let m3 = check_condition(m2, condition, crate::errors::ConditionContext::ForLoop);
            lemma_frame_trans(m1, m2, m3);
            let m4 = match assignment {
                Some(a) => step(m3, *a).0,
                None => m3,
            };
            match assignment {
                Some(a) => lemma_step_frame(m3, *a),
                None => {},
            }
            lemma_frame_trans(m1, m3, m4);
            let m5 = m4.with_stack(m4.stack.enter_breakable().enter_continuable());
            lemma_block_frame(m5, body);
            let m6 = block(m5, body);
            let m7 = m6.with_stack(m6.stack.exit_breakable().exit_continuable().pop_scope());
            assert(m7.stack.scopes =~= m.stack.scopes) by {
                assert forall|i: int| 0 <= i < m.stack.scopes.len() implies m7.stack.scopes[i] == m.stack.scopes[i] by {
                    assert(m4.stack.scopes[i] == m1.stack.scopes[i]);
                }
            }
            assert(m7.stack == m.stack);
            assert(grows(m.errors, m7.errors));
            assert(grows(m.hovers, m7.hovers));
            assert(grows(m.definitions, m7.definitions));
        },
        _ => {},
    }
}

proof fn lemma_switch_case_frame(m: CheckerModel, c: Node<SwitchCase>)
    requires
        m.wf(),
    ensures
        frame_kept(m, switch_case(m, c)),
    decreases c, 1nat,
{
    let m1 = check_condition(m, c.value.condition, crate::errors::ConditionContext::SwitchCase);
    let m2 = m1.with_stack(m1.stack.enter_breakable());
    lemma_block_frame(m2, c.value.block);
    let m3 = block(m2, c.value.block);
    let m4 = m3.with_stack(m3.stack.exit_breakable());
    assert(m4.stack == m1.stack);
    assert(frame_kept(m1, m4));
    lemma_frame_trans(m, m1, m4);
}

proof fn lemma_switch_cases_frame(m: CheckerModel, cases: Seq<Node<SwitchCase>>, n: nat)
    requires
        m.wf(),
    ensures
        frame_kept(m, switch_cases(m, cases, n)),
    decreases cases, n,
{
    if n > 0 && n <= cases.len() {
        lemma_switch_cases_frame(m, cases, (n - 1) as nat);
        let m1 = switch_cases(m, cases, (n - 1) as nat);
        lemma_switch_case_frame(m1, cases[n - 1]);
        lemma_frame_trans(m, m1, switch_cases(m, cases, n));
    }
}

proof fn lemma_switch_frame(m: CheckerModel, s: Node<Statement>)
    requires
        m.wf(),
    ensures
        frame_kept(m, switch(m, s)),
    decreases s, 2nat,
{
    match s.value {
        Statement::Switch { expressions, cases } => {
            lemma_switch_expressions_frame(m, expressions@, expressions@.len());
            let m1 = switch_expressions(m, expressions@, expressions@.len());
            lemma_switch_cases_frame(m1, cases@, cases@.len());
            lemma_frame_trans(m, m1, switch_cases(m1, cases@, cases@.len()));
        },
        _ => {},
    }
}

proof fn lemma_match_arm_frame(
    m: CheckerModel,
    visited: Seq<Seq<char>>,
    enum_name: Seq<char>,
    variants: Seq<EnumVariantModel>,
    span: Span,
    arm: Node<MatchArm>,
)
    requires
        m.wf(),
    ensures
        frame_kept(m, match_arm(m, visited, enum_name, variants, span, arm).0),
    decreases arm, 1nat,
{
    let a = arm.value;
    let variant = a.variant_name.value@;
    if a.enum_name.value@ == enum_name {
        let m1 = if visited.contains(variant) {
            m.report(crate::errors::high(crate::errors::ErrorKind::DuplicateMatchArm { variant }, span))
        } else {
            m
        };
        match crate::semantics::find_variant(variants, variant) {
            None => {},
            Some(declared) => match (declared.payload, a.variant_value) {
                (None, Some(_)) => {},
                (Some(t), Some(binding)) => {
                    lemma_resolve_frame(m1, t, binding.span);
                    let (m2, r) = resolve_checked(m1, t, binding.span);
                    lemma_frame_trans(m, m1, m2);
                    match r {
                        Err(_) => {},
                        Ok(rt) => {
                            let m3 = m2.with_stack(m2.stack.push_scope());
                            assert(m3.stack.top() =~= Seq::empty());
                            assert(find_in_scope(m3.stack.top(), binding.value@) is None);
                            let (stack, d) = m3.stack.declare(binding.value@, rt, binding.span);
                            assert(d is Ok);
                            let m4 = m3.with_stack(stack).hover(rt, binding.value@, binding.span);
                            lemma_block_frame(m4, a.block);
                            let m5a = block(m4, a.block);
                            lemma_warn_unused_prefix(m5a, m5a.stack.top(), m5a.stack.top().len());
                            let m5 = warn_unused(m5a);
                            lemma_frame_trans(m4, m5a, m5);
                            let m6 = m5.with_stack(m5.stack.pop_scope());
                            assert(m6.stack.scopes =~= m2.stack.scopes) by {
                                assert forall|i: int| 0 <= i < m2.stack.scopes.len() implies m6.stack.scopes[i] == m2.stack.scopes[i] by {
                                    assert(m4.stack.scopes[i] == m3.stack.scopes[i]);
                                }
                            }
                            assert(m6.stack == m2.stack);
                            assert(grows(m2.hovers, m6.hovers));
                            assert(frame_kept(m2, m6));
                            lemma_frame_trans(m, m2, m6);
                        },
                    }
                },
                _ => {
                    lemma_block_frame(m1, a.block);
                    lemma_frame_trans(m, m1, block(m1, a.block));
                },
            },
        }
    }
}

proof fn lemma_match_arms_frame(
    m: CheckerModel,
    enum_name: Seq<char>,
    variants: Seq<EnumVariantModel>,
    span: Span,
    arms: Seq<Node<MatchArm>>,
    n: nat,
)
    requires
        m.wf(),
    ensures
        frame_kept(m, match_arms(m, enum_name, variants, span, arms, n).0),
    decreases arms, n,
{
    if n > 0 && n <= arms.len() {
        lemma_match_arms_frame(m, enum_name, variants, span, arms, (n - 1) as nat);
        let (m1, visited, stop) = match_arms(m, enum_name, variants, span, arms, (n - 1) as nat);
        if stop is None {
            lemma_match_arm_frame(m1, visited, enum_name, variants, span, arms[n - 1]);
            lemma_frame_trans(m, m1, match_arm(m1, visited, enum_name, variants, span, arms[n - 1]).0);
        }
    }
}

proof fn lemma_rest_arm_frame(
    m: CheckerModel,
    variants: Seq<EnumVariantModel>,
    visited: Seq<Seq<char>>,
    rest: Option<Block>,
    span: Span,
)
    requires
        m.wf(),
    ensures
        frame_kept(m, rest_arm(m, variants, visited, rest, span)),
    decreases rest, 1nat,
{
    match rest {
        Some(b) => {
            let m1 = if crate::semantics::all_covered(variants, visited) {
                m.report(
                    crate::errors::Diagnostic {
                        severity: crate::errors::Severity::Low,
                        kind: crate::errors::ErrorKind::UnnecessaryRestArm,
                        span: b.span,
                    },
                )
            } else {
                m
            };
            lemma_block_frame(m1, b);
            lemma_frame_trans(m, m1, block(m1, b));
        },
        None => {},
    }
}

proof fn lemma_match_frame(m: CheckerModel, s: Node<Statement>)
    requires
        m.wf(),
    ensures
        frame_kept(m, match_statement(m, s).0),
    decreases s, 2nat,
{
    match s.value {
        Statement::Match { expression, match_arms: arms, rest_arm: rest } => match crate::semantics::expr_type(expression) {
            None => {},
            Some(at) => {
                let m0 = visit_expr(m, expression);
                lemma_resolve_frame(m0, at, expression.span);
                let (m1, r) = resolve_checked(m0, at, expression.span);
                lemma_frame_trans(m, m0, m1);
                match r {
                    Ok(TypeModel::Enum(enum_name)) => {
                        let variants = crate::semantics::enum_variants(m1.types, enum_name);
                        lemma_match_arms_frame(m1, enum_name, variants, expression.span, arms@, arms@.len());
                        let (m2, visited, stop) = match_arms(m1, enum_name, variants, expression.span, arms@, arms@.len());
                        lemma_frame_trans(m, m1, m2);
                        if stop is None {
                            lemma_rest_arm_frame(m2, variants, visited, rest, s.span);
                            lemma_frame_trans(m, m2, rest_arm(m2, variants, visited, rest, s.span));
                        }
                    },
                    _ => {},
                }
            },
        },
        _ => {},
    }
}

proof fn lemma_function_frame(m: CheckerModel, s: Node<Statement>)
    requires
        m.wf(),
    ensures
        frame_kept(m, function(m, s)),
    decreases s, 2nat,
{
    match s.value {
        Statement::Function(f) => {
            let saved = m.function;
            let (m1, rt) = visit_type(m, f.return_type);
            let ret = match rt {
                Some(t) => t,
                None => f.return_type.value@,
            };
            let m2 = m1.with_function(Some(crate::checker::FunctionModel { name: f.identifier.value@, return_type: ret }));
            let m3 = m2.with_stack(m2.stack.push_scope());
            lemma_parameters_frame(m3, f.parameters@, f.parameters@.len());
            let m4 = parameters(m3, f.parameters@, f.parameters@.len());
            lemma_block_frame(m4, f.body);
            let m5 = block(m4, f.body);
            lemma_frame_trans(m3, m4, m5);
            let m6 = m5.with_function(saved);
            let m7 = m6.with_stack(m6.stack.pop_scope());
            assert(m7.stack.scopes =~= m.stack.scopes) by {
                assert forall|i: int| 0 <= i < m.stack.scopes.len() implies m7.stack.scopes[i] == m.stack.scopes[i] by {
                    assert(m5.stack.scopes[i] == m3.stack.scopes[i]);
                }
            }
            assert(m7.stack == m.stack);
            assert(grows(m.errors, m7.errors));
            assert(grows(m.hovers, m7.hovers));
            assert(grows(m.definitions, m7.definitions));
        },
        _ => {},
    }
}

// ---------------------------------------------------------------------------
// Variables

/// A successful declaration is what the name denotes afterwards, and a
/// declaration is refused exactly when the innermost scope already declares the name.
pub proof fn lemma_declare_then_lookup(st: StackModel, name: Seq<char>, ty: TypeModel, span: Span)
    requires
        st.wf(),
    ensures
        st.declare(name, ty, span).1 is Err <==> find_in_scope(st.top(), name) is Some,
        st.declare(name, ty, span).1 is Ok ==> lookup(st.declare(name, ty, span).0.scopes, name)
            == Some(VariableModel { name, ty, span }),
        st.declare(name, ty, span).0.wf(),
{
    let (st2, r) = st.declare(name, ty, span);
    if r is Ok {
        let v = VariableModel { name, ty, span };
        assert(st2.scopes.last() == st.top().push(v));
        assert(st2.scopes.last().last() == v);
    }
}

/// After a successful declaration of `name` with type `ty`, assigning a value
/// of type `t` to `name` is accepted exactly when `ty` accepts `t`.
pub proof fn lemma_declare_then_assign(st: StackModel, name: Seq<char>, ty: TypeModel, span: Span, t: TypeModel)
    requires
        st.wf(),
        st.declare(name, ty, span).1 is Ok,
    ensures
        st.declare(name, ty, span).0.assign(name, t) is Ok <==> compatible(ty, t),
{
    lemma_declare_then_lookup(st, name, ty, span);
}

/// A name declared in an outer scope can be declared again in a new inner
/// scope, and then denotes the inner variable.
pub proof fn lemma_shadowing(st: StackModel, name: Seq<char>, ty: TypeModel, span: Span)
    requires
        st.wf(),
    ensures
        st.push_scope().declare(name, ty, span).1 is Ok,
        lookup(st.push_scope().declare(name, ty, span).0.scopes, name) == Some(VariableModel { name, ty, span }),
{
    assert(st.push_scope().top() =~= Seq::empty());
    lemma_declare_then_lookup(st.push_scope(), name, ty, span);
}

// ---------------------------------------------------------------------------
// Types

/// Every type accepts itself, and every vector type accepts the empty vector `[]`.
pub proof fn lemma_compatible(t: TypeModel)
    ensures
        compatible(t, t),
        t is Vector ==> compatible(t, TypeModel::Vector(Box::new(TypeModel::Void))),
{
}

// ---------------------------------------------------------------------------
// Match exhaustiveness

/// Some of the first `n` arms names `variant` of the enum `enum_name`.
pub open spec fn covered(arms: Seq<Node<MatchArm>>, n: nat, enum_name: Seq<char>, variant: Seq<char>) -> bool {
    exists|i: int|
        0 <= i < n && #[trigger] arms[i].value.enum_name.value@ == enum_name
            && arms[i].value.variant_name.value@ == variant
}

/// The variants visited by the arms of a `match` that no arm stopped are those
/// that some arm names together with the matched enum.
pub proof fn lemma_match_arms_visited(
    m: CheckerModel,
    enum_name: Seq<char>,
    variants: Seq<EnumVariantModel>,
    span: Span,
    arms: Seq<Node<MatchArm>>,
    n: nat,
    variant: Seq<char>,
)
    requires
        n <= arms.len(),
        match_arms(m, enum_name, variants, span, arms, n).2 is None,
    ensures
        match_arms(m, enum_name, variants, span, arms, n).1.contains(variant) <==> covered(
            arms,
            n,
            enum_name,
            variant,
        ),
    decreases n,
{
    if n > 0 {
        let (m1, visited, stop) = match_arms(m, enum_name, variants, span, arms, (n - 1) as nat);
        if stop is Some {
            lemma_match_arms_stopped(m, enum_name, variants, span, arms, (n - 1) as nat, n);
        }
        assert(stop is None);
        lemma_match_arms_visited(m, enum_name, variants, span, arms, (n - 1) as nat, variant);
        let a = arms[n - 1].value;
        assert(match_arms(m, enum_name, variants, span, arms, n) == match_arm(m1, visited, enum_name, variants, span, arms[n - 1]));
        let visited2 = match_arm(m1, visited, enum_name, variants, span, arms[n - 1]).1;
        if a.enum_name.value@ == enum_name {
            assert(visited2 == visited.push(a.variant_name.value@));
        } else {
            assert(visited2 == visited);
        }
        if visited2.contains(variant) {
            if visited.contains(variant) {
                let i = choose|i: int|
                    0 <= i < n - 1 && #[trigger] arms[i].value.enum_name.value@ == enum_name
                        && arms[i].value.variant_name.value@ == variant;
                assert(arms[i].value.enum_name.value@ == enum_name);
            } else {
                let k = choose|k: int| 0 <= k < visited2.len() && visited2[k] == variant;
                assert(k == visited.len());
                assert(arms[n - 1].value.enum_name.value@ == enum_name);
            }
        }
        if covered(arms, n, enum_name, variant) {
            let i = choose|i: int|
                0 <= i < n && #[trigger] arms[i].value.enum_name.value@ == enum_name
                    && arms[i].value.variant_name.value@ == variant;
            if i < n - 1 {
                assert(covered(arms, (n - 1) as nat, enum_name, variant));
                let k = choose|k: int| 0 <= k < visited.len() && visited[k] == variant;
                assert(visited2[k] == variant);
            } else {
                assert(visited2[visited.len() as int] == variant);
            }
        }
    }
}

/// `first_missing` finds the first variant, in declaration order, that is not
/// visited, and finds none exactly when every variant is visited.
pub proof fn lemma_first_missing(variants: Seq<EnumVariantModel>, visited: Seq<Seq<char>>)
    ensures
        first_missing(variants, visited) is None <==> all_covered(variants, visited),
        first_missing(variants, visited) matches Some(v) ==> exists|k: int|
            0 <= k < variants.len() && variants[k] == v && !visited.contains(v.name) && forall|j: int|
                0 <= j < k ==> visited.contains(#[trigger] variants[j].name),
    decreases variants.len(),
{
    if variants.len() > 0 {
        let rest = variants.drop_first();
        lemma_first_missing(rest, visited);
        if visited.contains(variants[0].name) {
            assert forall|j: int| 0 <= j < rest.len() implies #[trigger] rest[j] == variants[j + 1] by {}
            if all_covered(rest, visited) {
                assert forall|i: int| 0 <= i < variants.len() implies visited.contains(#[trigger] variants[i].name) by {
                    if i > 0 {
                        assert(variants[i] == rest[i - 1]);
                    }
                }
            }
            if all_covered(variants, visited) {
                assert forall|i: int| 0 <= i < rest.len() implies visited.contains(#[trigger] rest[i].name) by {
                    assert(rest[i] == variants[i + 1]);
                }
            }
            match first_missing(rest, visited) {
                Some(v) => {
                    let k = choose|k: int|
                        0 <= k < rest.len() && rest[k] == v && !visited.contains(v.name) && forall|j: int|
                            0 <= j < k ==> visited.contains(#[trigger] rest[j].name);
                    assert(variants[k + 1] == v);
                    assert forall|j: int| 0 <= j < k + 1 implies visited.contains(#[trigger] variants[j].name) by {
                        if j > 0 {
                            assert(variants[j] == rest[j - 1]);
                        }
                    }
                },
                None => {},
            }
        } else {
            assert(!visited.contains(variants[0].name));
        }
    }
}

/// A `match` on an enum value without a `rest` arm, whose arms do not stop the
/// check, reports a missing variant exactly when some declared variant has no
/// arm; the variant reported is the first such in declaration order.
pub proof fn lemma_match_exhaustive(m: CheckerModel, s: Node<Statement>, enum_name: Seq<char>)
    requires
        s.value matches Statement::Match { expression, match_arms: arms, rest_arm: rest } && rest is None
            && crate::semantics::expr_failure(expression) is None
            && (match crate::semantics::expr_type(expression) {
            Some(t) => crate::semantics::resolve(m.types, t) == Ok::<TypeModel, Seq<char>>(TypeModel::Enum(enum_name)),
            None => false,
        }) && match_arms(
            visit_expr(m, expression),
            enum_name,
            crate::semantics::enum_variants(m.types, enum_name),
            expression.span,
            arms@,
            arms@.len(),
        ).2 is None,
    ensures
        ({
            let (expression, arms) = match s.value {
                Statement::Match { expression, match_arms, .. } => (expression, match_arms@),
                _ => arbitrary(),
            };
            let variants = crate::semantics::enum_variants(m.types, enum_name);
            let arms_state = match_arms(visit_expr(m, expression), enum_name, variants, expression.span, arms, arms.len()).0;
            &&& (forall|i: int| 0 <= i < variants.len() ==> covered(arms, arms.len(), enum_name, #[trigger] variants[i].name))
                ==> match_statement(m, s) == (arms_state, Ok::<(), crate::errors::CheckErrorModel>(()))
            &&& (exists|i: int| 0 <= i < variants.len() && !covered(arms, arms.len(), enum_name, #[trigger] variants[i].name))
                ==> exists|k: int|
                0 <= k < variants.len() && !covered(arms, arms.len(), enum_name, variants[k].name)
                    && (forall|j: int| 0 <= j < k ==> covered(arms, arms.len(), enum_name, #[trigger] variants[j].name))
                    && match_statement(m, s) == (
                    arms_state.report(
                        crate::errors::high(crate::errors::ErrorKind::MissingVariant { variant: variants[k].name }, s.span),
                    ),
                    Ok::<(), crate::errors::CheckErrorModel>(()),
                )
        }),
{
    let (expression, arms) = match s.value {
        Statement::Match { expression, match_arms, .. } => (expression, match_arms@),
        _ => arbitrary(),
    };
    let variants = crate::semantics::enum_variants(m.types, enum_name);
    let (arms_state, visited, stop) = match_arms(visit_expr(m, expression), enum_name, variants, expression.span, arms, arms.len());
    assert forall|v: Seq<char>| visited.contains(v) <==> covered(arms, arms.len(), enum_name, v) by {
        lemma_match_arms_visited(visit_expr(m, expression), enum_name, variants, expression.span, arms, arms.len(), v);
    }
    lemma_first_missing(variants, visited);
    if forall|i: int| 0 <= i < variants.len() ==> covered(arms, arms.len(), enum_name, #[trigger] variants[i].name) {
        assert(all_covered(variants, visited));
    }
    if exists|i: int| 0 <= i < variants.len() && !covered(arms, arms.len(), enum_name, #[trigger] variants[i].name) {
        let i = choose|i: int| 0 <= i < variants.len() && !covered(arms, arms.len(), enum_name, #[trigger] variants[i].name);
        assert(!visited.contains(variants[i].name));
        assert(!all_covered(variants, visited));
        let v = first_missing(variants, visited).unwrap();
        let k = choose|k: int|
            0 <= k < variants.len() && variants[k] == v && !visited.contains(v.name) && forall|j: int|
                0 <= j < k ==> visited.contains(#[trigger] variants[j].name);
        assert forall|j: int| 0 <= j < k implies covered(arms, arms.len(), enum_name, #[trigger] variants[j].name) by {
            assert(visited.contains(variants[j].name));
        }
    }
}

/// A `rest` arm of a `match` on an enum value, whose arms do not stop the
/// check, is flagged as unnecessary exactly when every declared variant has an
/// arm; its block is checked either way.
pub proof fn lemma_match_rest_arm(m: CheckerModel, s: Node<Statement>, enum_name: Seq<char>, rest: Block)
    requires
        s.value matches Statement::Match { expression, match_arms: arms, rest_arm: r } && r == Some(rest)
            && crate::semantics::expr_failure(expression) is None
            && (match crate::semantics::expr_type(expression) {
            Some(t) => crate::semantics::resolve(m.types, t) == Ok::<TypeModel, Seq<char>>(TypeModel::Enum(enum_name)),
            None => false,
        }) && match_arms(
            visit_expr(m, expression),
            enum_name,
            crate::semantics::enum_variants(m.types, enum_name),
            expression.span,
            arms@,
            arms@.len(),
        ).2 is None,
    ensures
        ({
            let (expression, arms) = match s.value {
                Statement::Match { expression, match_arms, .. } => (expression, match_arms@),
                _ => arbitrary(),
            };
            let variants = crate::semantics::enum_variants(m.types, enum_name);
            let arms_state = match_arms(visit_expr(m, expression), enum_name, variants, expression.span, arms, arms.len()).0;
            let flagged = arms_state.report(
                crate::errors::Diagnostic {
                    severity: crate::errors::Severity::Low,
                    kind: crate::errors::ErrorKind::UnnecessaryRestArm,
                    span: rest.span,
                },
            );
            &&& (forall|i: int| 0 <= i < variants.len() ==> covered(arms, arms.len(), enum_name, #[trigger] variants[i].name))
                ==> match_statement(m, s) == (block(flagged, rest), Ok::<(), crate::errors::CheckErrorModel>(()))
            &&& (exists|i: int| 0 <= i < variants.len() && !covered(arms, arms.len(), enum_name, #[trigger] variants[i].name))
                ==> match_statement(m, s) == (block(arms_state, rest), Ok::<(), crate::errors::CheckErrorModel>(()))
        }),
{
    let (expression, arms) = match s.value {
        Statement::Match { expression, match_arms, .. } => (expression, match_arms@),
        _ => arbitrary(),
    };
    let variants = crate::semantics::enum_variants(m.types, enum_name);
    let (arms_state, visited, stop) = match_arms(visit_expr(m, expression), enum_name, variants, expression.span, arms, arms.len());
    assert forall|v: Seq<char>| visited.contains(v) <==> covered(arms, arms.len(), enum_name, v) by {
        lemma_match_arms_visited(visit_expr(m, expression), enum_name, variants, expression.span, arms, arms.len(), v);
    }
    if exists|i: int| 0 <= i < variants.len() && !covered(arms, arms.len(), enum_name, #[trigger] variants[i].name) {
        let i = choose|i: int| 0 <= i < variants.len() && !covered(arms, arms.len(), enum_name, #[trigger] variants[i].name);
        assert(!visited.contains(variants[i].name));
    }
}

// ---------------------------------------------------------------------------
// break and continue

/// The error that refuses a `break` (`is_break`) or a `continue`.
pub open spec fn jump_error(is_break: bool) -> ErrorKind<Seq<char>, TypeModel> {
    if is_break {
        ErrorKind::BreakOutsideLoop
    } else {
        ErrorKind::ContinueOutsideLoop
    }
}

/// How many enclosing constructs accept a `break` (`is_break`) or a `continue`.
pub open spec fn accepting(m: CheckerModel, is_break: bool) -> nat {
    if is_break {
        m.stack.breakable
    } else {
        m.stack.continuable
    }
}

/// Where `break` (`continue`) is accepted, checking a statement refuses no
/// `break` (`continue`) anywhere inside it, at any depth.
pub proof fn lemma_jump_accepted_inside(m: CheckerModel, s: Node<Statement>, is_break: bool)
    requires
        m.wf(),
        accepting(m, is_break) > 0,
    ensures
        none_added(m.errors, step(m, s).0.errors, jump_error(is_break)),
{
    lemma_step_frame(m, s);
}

/// A `while` loop refuses no `break` and no `continue` inside its body, at any
/// depth, wherever it stands.
pub proof fn lemma_while_accepts_jumps(m: CheckerModel, s: Node<Statement>, is_break: bool)
    requires
        m.wf(),
        s.value is WhileLoop,
    ensures
        none_added(m.errors, while_loop(m, s).errors, jump_error(is_break)),
{
    let (condition, body) = match s.value {
        Statement::WhileLoop { condition, block } => (condition, block),
        _ => arbitrary(),
    };
    let m1 = check_condition(m, condition, crate::errors::ConditionContext::While);
    let m2 = m1.with_stack(m1.stack.enter_breakable().enter_continuable());
    lemma_block_frame(m2, body);
    let m3 = block(m2, body);
    assert forall|i: int| m.errors.len() <= i < m3.errors.len() implies #[trigger] m3.errors[i].kind != jump_error(is_break) by {
        if i >= m2.errors.len() {
            assert(accepting(m2, is_break) > 0);
        } else {
            assert(m3.errors[i] == m1.errors[i]);
        }
    }
}

/// The body of a `for` loop refuses no `break` and no `continue`, at any
/// depth, wherever the loop stands; so does a loop whose initial declaration
/// and step are a declaration and an assignment.
pub proof fn lemma_for_accepts_jumps(m: CheckerModel, s: Node<Statement>, is_break: bool)
    requires
        m.wf(),
        s.value matches Statement::ForLoop { declaration, assignment, .. } && (declaration matches Some(d) ==> d.value is Declaration)
            && (assignment matches Some(a) ==> a.value is Assignment),
    ensures
        none_added(m.errors, for_loop(m, s).errors, jump_error(is_break)),
{
    let (declaration, condition, assignment, body) = match s.value {
        Statement::ForLoop { declaration, condition, assignment, block } => (declaration, condition, assignment, block),
        _ => arbitrary(),
    };
    let m1 = m.with_stack(m.stack.push_scope());
    let m2 = match declaration {
        Some(d) => step(m1, *d).0,
        None => m1,
    };
    match declaration {
        Some(d) => {
            lemma_simple_adds_no_jump_error(m1, *d, is_break);
            lemma_step_frame(m1, *d);
        },
        None => {},
    }
    let m3 = check_condition(m2, condition, crate::errors::ConditionContext::ForLoop);
    let m4 = match assignment {
        Some(a) => step(m3, *a).0,
        None => m3,
    };
    lemma_frame_trans(m1, m2, m3);
    match assignment {
        Some(a) => {
            lemma_simple_adds_no_jump_error(m3, *a, is_break);
            lemma_step_frame(m3, *a);
        },
        None => {},
    }
    lemma_frame_trans(m1, m3, m4);
    let m5 = m4.with_stack(m4.stack.enter_breakable().enter_continuable());
    lemma_block_frame(m5, body);
    let m6 = block(m5, body);
    assert forall|i: int| m.errors.len() <= i < m6.errors.len() implies #[trigger] m6.errors[i].kind != jump_error(is_break) by {
        if i >= m5.errors.len() {
            assert(accepting(m5, is_break) > 0);
        } else if i >= m3.errors.len() {
            assert(m6.errors[i] == m4.errors[i]);
        } else if i >= m2.errors.len() {
            assert(m6.errors[i] == m3.errors[i]);
        } else {
            assert(m6.errors[i] == m2.errors[i]);
        }
    }
}

proof fn lemma_accessors_no_jump_error(m: CheckerModel, accessors: Seq<Node<Expression>>, n: nat, is_break: bool)
    ensures
        none_added(m.errors, check_accessors(m, accessors, n).errors, jump_error(is_break)),
    decreases n,
{
    if n > 0 && n <= accessors.len() {
        lemma_accessors_no_jump_error(m, accessors, (n - 1) as nat, is_break);
        lemma_accessors_frame(m, accessors, (n - 1) as nat);
        let m1 = check_accessors(m, accessors, (n - 1) as nat);
        let m2 = check_accessors(m, accessors, n);
        assert forall|i: int| m.errors.len() <= i < m2.errors.len() implies #[trigger] m2.errors[i].kind != jump_error(is_break) by {
            if i < m1.errors.len() {
                assert(m2.errors[i] == m1.errors[i]);
            }
        }
    }
}

/// Declarations and assignments refuse no `break` and no `continue`.
proof fn lemma_simple_adds_no_jump_error(m: CheckerModel, s: Node<Statement>, is_break: bool)
    requires
        m.wf(),
        s.value is Declaration || s.value is Assignment,
    ensures
        none_added(m.errors, step(m, s).0.errors, jump_error(is_break)),
{
    match s.value {
        Statement::Assignment { identifier, accessors, value } => {
            if accessors@.len() != 0 {
                lemma_accessors_no_jump_error(m, accessors@, accessors@.len(), is_break);
                lemma_accessors_frame(m, accessors@, accessors@.len());
            }
        },
        _ => {},
    }
}

/// A `switch` case refuses no `break` inside its block, at any depth; it
/// refuses no `continue` there when the `switch` stands where `continue` is
/// accepted.
pub proof fn lemma_switch_case_accepts_break(m: CheckerModel, c: Node<SwitchCase>)
    requires
        m.wf(),
    ensures
        none_added(m.errors, switch_case(m, c).errors, ErrorKind::BreakOutsideLoop),
        m.stack.continuable > 0 ==> none_added(m.errors, switch_case(m, c).errors, ErrorKind::ContinueOutsideLoop),
{
    let m1 = check_condition(m, c.value.condition, crate::errors::ConditionContext::SwitchCase);
    let m2 = m1.with_stack(m1.stack.enter_breakable());
    lemma_block_frame(m2, c.value.block);
    let m3 = block(m2, c.value.block);
    assert forall|i: int| m.errors.len() <= i < m3.errors.len() implies #[trigger] m3.errors[i].kind != ErrorKind::<Seq<char>, TypeModel>::BreakOutsideLoop by {
        if i < m2.errors.len() {
            assert(m3.errors[i] == m1.errors[i]);
        }
    }
    if m.stack.continuable > 0 {
        assert forall|i: int| m.errors.len() <= i < m3.errors.len() implies #[trigger] m3.errors[i].kind != ErrorKind::<Seq<char>, TypeModel>::ContinueOutsideLoop by {
            if i < m2.errors.len() {
                assert(m3.errors[i] == m1.errors[i]);
            }
        }
    }
}

/// `s` is a `break` (`is_break`) or `continue` at `span`, or holds one that
/// the check of `s` reaches without entering a construct that accepts it:
/// through `if`/`else` blocks, function bodies, the declaration and step of a
/// `for` loop, the blocks of the `match` arms that the check reaches and the
/// `rest` arm, and, for `continue`, through the cases of a `switch`. `types`
/// are the user types, which decide which `match` arms are reached.
pub open spec fn reaches_jump(types: Seq<TypeDefinitionModel>, s: Node<Statement>, span: Span, is_break: bool) -> bool
    decreases s, 3nat,
{
    match s.value {
        Statement::Break => is_break && s.span == span,
        Statement::Continue => !is_break && s.span == span,
        Statement::Conditional { if_block, else_block, .. } => block_reaches_jump(types, if_block, span, is_break) || match else_block {
            Some(b) => block_reaches_jump(types, b, span, is_break),
            None => false,
        },
        Statement::Function(f) => block_reaches_jump(types, f.body, span, is_break),
        Statement::Switch { cases, .. } => !is_break && cases_reach_jump(types, cases@, cases@.len(), span),
        Statement::ForLoop { declaration, assignment, .. } => (match declaration {
            Some(d) => reaches_jump(types, *d, span, is_break),
            None => false,
        }) || match assignment {
            Some(a) => reaches_jump(types, *a, span, is_break),
            None => false,
        },
        Statement::Match { expression, match_arms, rest_arm } => crate::semantics::expr_failure(expression) is None
            && match crate::semantics::expr_type(expression) {
            Some(at) => match crate::semantics::resolve(types, at) {
                Ok(TypeModel::Enum(enum_name)) => {
                    let variants = crate::semantics::enum_variants(types, enum_name);
                    arms_reach_jump(types, enum_name, variants, match_arms@, match_arms@.len(), span, is_break) || (
                    arms_never_stop(types, enum_name, variants, match_arms@, match_arms@.len()) && match rest_arm {
                        Some(b) => block_reaches_jump(types, b, span, is_break),
                        None => false,
                    })
                },
                _ => false,
            },
            None => false,
        },
        _ => false,
    }
}

/// A `match` arm stops the check of its `match`: it names the matched enum and
/// one of its variants, and binds a value the variant does not carry, or the
/// type of the value it binds cannot be resolved.
pub open spec fn arm_stops(types: Seq<TypeDefinitionModel>, enum_name: Seq<char>, variants: Seq<EnumVariantModel>, arm: Node<MatchArm>) -> bool {
    let a = arm.value;
    a.enum_name.value@ == enum_name && match crate::semantics::find_variant(variants, a.variant_name.value@) {
        Some(declared) => match (declared.payload, a.variant_value) {
            (None, Some(_)) => true,
            (Some(t), Some(_)) => crate::semantics::resolve(types, t) is Err,
            _ => false,
        },
        None => false,
    }
}

/// None of the first `n` arms stops the check.
pub open spec fn arms_never_stop(types: Seq<TypeDefinitionModel>, enum_name: Seq<char>, variants: Seq<EnumVariantModel>, arms: Seq<Node<MatchArm>>, n: nat) -> bool {
    forall|i: int| 0 <= i < n ==> !arm_stops(types, enum_name, variants, #[trigger] arms[i])
}

/// The block of a `match` arm is checked, and reaches the jump.
pub open spec fn arm_reaches_jump(types: Seq<TypeDefinitionModel>, enum_name: Seq<char>, variants: Seq<EnumVariantModel>, arm: Node<MatchArm>, span: Span, is_break: bool) -> bool
    decreases arm, 1nat,
{
    &&& arm.value.enum_name.value@ == enum_name
    &&& crate::semantics::find_variant(variants, arm.value.variant_name.value@) is Some
    &&& !arm_stops(types, enum_name, variants, arm)
    &&& block_reaches_jump(types, arm.value.block, span, is_break)
}

/// One of the first `n` arms is reached, its block is checked, and it reaches the jump.
pub open spec fn arms_reach_jump(types: Seq<TypeDefinitionModel>, enum_name: Seq<char>, variants: Seq<EnumVariantModel>, arms: Seq<Node<MatchArm>>, n: nat, span: Span, is_break: bool) -> bool
    decreases arms, n,
{
    if n == 0 || n > arms.len() {
        false
    } else {
        arms_reach_jump(types, enum_name, variants, arms, (n - 1) as nat, span, is_break) || (arms_never_stop(
            types,
            enum_name,
            variants,
            arms,
            (n - 1) as nat,
        ) && arm_reaches_jump(types, enum_name, variants, arms[n - 1], span, is_break))
    }
}

/// Some statement of the block reaches the jump.
pub open spec fn block_reaches_jump(types: Seq<TypeDefinitionModel>, b: Block, span: Span, is_break: bool) -> bool
    decreases b, b.statements@.len() + 1,
{
    prefix_reaches_jump(types, b, b.statements@.len(), span, is_break)
}

/// Some of the first `n` statements of the block reaches the jump.
pub open spec fn prefix_reaches_jump(types: Seq<TypeDefinitionModel>, b: Block, n: nat, span: Span, is_break: bool) -> bool
    decreases b, n,
{
    if n == 0 || n > b.statements@.len() {
        false
    } else {
        prefix_reaches_jump(types, b, (n - 1) as nat, span, is_break) || reaches_jump(types, b.statements@[n - 1], span, is_break)
    }
}

/// The block of one of the first `n` cases reaches a `continue` at `span`.
pub open spec fn cases_reach_jump(types: Seq<TypeDefinitionModel>, cases: Seq<Node<SwitchCase>>, n: nat, span: Span) -> bool
    decreases cases, n,
{
    if n == 0 || n > cases.len() {
        false
    } else {
        cases_reach_jump(types, cases, (n - 1) as nat, span) || block_reaches_jump(types, cases[n - 1].value.block, span, false)
    }
}

/// Error `e` was added between `a` and `b`.
pub open spec fn added(a: Seq<CheckErrorModel>, b: Seq<CheckErrorModel>, e: CheckErrorModel) -> bool {
    exists|k: int| a.len() <= k < b.len() && #[trigger] b[k] == e
}

proof fn lemma_added_trans(a: CheckerModel, b: CheckerModel, c: CheckerModel, e: CheckErrorModel)
    requires
        added(a.errors, b.errors, e),
        grows(a.errors, b.errors),
        grows(b.errors, c.errors),
    ensures
        added(a.errors, c.errors, e),
{
    let k = choose|k: int| a.errors.len() <= k < b.errors.len() && #[trigger] b.errors[k] == e;
    assert(c.errors[k] == e);
}

proof fn lemma_added_later(a: CheckerModel, b: CheckerModel, c: CheckerModel, e: CheckErrorModel)
    requires
        added(b.errors, c.errors, e),
        grows(a.errors, b.errors),
    ensures
        added(a.errors, c.errors, e),
{
    let k = choose|k: int| b.errors.len() <= k < c.errors.len() && #[trigger] c.errors[k] == e;
    assert(c.errors[k] == e);
}

/// Where `break` (`continue`) is not accepted, every `break` (`continue`) that
/// the check of a statement reaches outside the constructs that accept it
/// (see `reaches_jump`), at any depth, is refused at its place.
pub proof fn lemma_jump_refused_outside(m: CheckerModel, s: Node<Statement>, span: Span, is_break: bool)
    requires
        m.wf(),
        accepting(m, is_break) == 0,
        reaches_jump(m.types, s, span, is_break),
    ensures
        added(m.errors, step(m, s).0.errors, crate::errors::high(jump_error(is_break), span)),
    decreases s, 3nat,
{
    let e = crate::errors::high(jump_error(is_break), span);
    match s.value {
        Statement::Break => {
            assert(step(m, s).0.errors[m.errors.len() as int] == e);
        },
        Statement::Continue => {
            assert(step(m, s).0.errors[m.errors.len() as int] == e);
        },
        Statement::Conditional { condition, if_block, else_block } => {
            let m1 = check_condition(m, condition, crate::errors::ConditionContext::If);
            lemma_block_frame(m1, if_block);
            let m2 = block(m1, if_block);
            if block_reaches_jump(m.types, if_block, span, is_break) {
                lemma_block_jump_refused(m1, if_block, span, is_break);
                lemma_added_later(m, m1, m2, e);
                match else_block {
                    Some(b) => {
                        lemma_block_frame(m2, b);
                        lemma_added_trans(m, m2, block(m2, b), e);
                    },
                    None => {},
                }
            } else {
                let b = else_block.unwrap();
                lemma_block_jump_refused(m2, b, span, is_break);
                lemma_frame_trans(m, m1, m2);
                lemma_added_later(m, m2, block(m2, b), e);
            }
        },
        Statement::Function(f) => {
            let saved = m.function;
            let (m1, rt) = visit_type(m, f.return_type);
            let ret = match rt {
                Some(t) => t,
                None => f.return_type.value@,
            };
            let m2 = m1.with_function(Some(crate::checker::FunctionModel { name: f.identifier.value@, return_type: ret }));
            let m3 = m2.with_stack(m2.stack.push_scope());
            lemma_parameters_frame(m3, f.parameters@, f.parameters@.len());
            let m4 = parameters(m3, f.parameters@, f.parameters@.len());
            lemma_block_jump_refused(m4, f.body, span, is_break);
            lemma_block_frame(m4, f.body);
            let m5 = block(m4, f.body);
            lemma_added_later(m, m4, m5, e);
        },
        Statement::Switch { expressions, cases } => {
            lemma_switch_expressions_frame(m, expressions@, expressions@.len());
            let m1 = switch_expressions(m, expressions@, expressions@.len());
            lemma_cases_continue_refused(m1, cases@, cases@.len(), span);
            lemma_added_later(m, m1, switch_cases(m1, cases@, cases@.len()), e);
        },
        Statement::ForLoop { declaration, condition, assignment, block: body } => {
            let m1 = m.with_stack(m.stack.push_scope());
            let m2 = match declaration {
                Some(d) => step(m1, *d).0,
                None => m1,
            };
            match declaration {
                Some(d) => lemma_step_frame(m1, *d),
                None => {},
            }
            let m3 = check_condition(m2, condition, crate::errors::ConditionContext::ForLoop);
            lemma_condition_frame(m2, condition, crate::errors::ConditionContext::ForLoop);
            let m4 = match assignment {
                Some(a) => step(m3, *a).0,
                None => m3,
            };
            match assignment {
                Some(a) => lemma_step_frame(m3, *a),
                None => {},
            }
            lemma_frame_trans(m1, m2, m3);
            lemma_frame_trans(m2, m3, m4);
            lemma_frame_trans(m1, m3, m4);
            let m5 = m4.with_stack(m4.stack.enter_breakable().enter_continuable());
            lemma_block_frame(m5, body);
            let m6 = block(m5, body);
            let reached_in_declaration = match declaration {
                Some(d) => reaches_jump(m.types, *d, span, is_break),
                None => false,
            };
            if reached_in_declaration {
                let d = declaration.unwrap();
                lemma_jump_refused_outside(m1, *d, span, is_break);
                lemma_added_trans(m1, m2, m4, e);
            } else {
                let a = assignment.unwrap();
                lemma_jump_refused_outside(m3, *a, span, is_break);
                lemma_added_later(m1, m3, m4, e);
            }
            lemma_added_trans(m1, m4, m6, e);
            assert(for_loop(m, s).errors == m6.errors);
        },
        Statement::Match { expression, match_arms: arms, rest_arm: rest } => {
            let m0 = visit_expr(m, expression);
            let at = crate::semantics::expr_type(expression).unwrap();
            let (m1, r) = resolve_checked(m0, at, expression.span);
            let enum_name = match r {
                Ok(TypeModel::Enum(n)) => n,
                _ => arbitrary(),
            };
            let variants = crate::semantics::enum_variants(m1.types, enum_name);
            lemma_match_arms_frame(m1, enum_name, variants, expression.span, arms@, arms@.len());
            let (m2, visited, stop) = match_arms(m1, enum_name, variants, expression.span, arms@, arms@.len());
            if arms_reach_jump(m.types, enum_name, variants, arms@, arms@.len(), span, is_break) {
                lemma_arms_jump_refused(m1, enum_name, variants, expression.span, arms@, arms@.len(), span, is_break);
                if stop is None {
                    lemma_rest_arm_frame(m2, variants, visited, rest, s.span);
                    lemma_added_trans(m1, m2, rest_arm(m2, variants, visited, rest, s.span), e);
                }
            } else {
                lemma_arms_no_stop(m1, enum_name, variants, expression.span, arms@, arms@.len());
                let b = rest.unwrap();
                let m2b = if all_covered(variants, visited) {
                    m2.report(
                        crate::errors::Diagnostic {
                            severity: crate::errors::Severity::Low,
                            kind: ErrorKind::UnnecessaryRestArm,
                            span: b.span,
                        },
                    )
                } else {
                    m2
                };
                lemma_block_jump_refused(m2b, b, span, is_break);
                lemma_added_later(m1, m2b, block(m2b, b), e);
            }
        },
        _ => {},
    }
}

/// Whether an arm stops the check of its `match` depends only on the user types.
proof fn lemma_arm_stop(m: CheckerModel, visited: Seq<Seq<char>>, enum_name: Seq<char>, variants: Seq<EnumVariantModel>, span: Span, arm: Node<MatchArm>)
    requires
        m.wf(),
    ensures
        match_arm(m, visited, enum_name, variants, span, arm).2 is Some <==> arm_stops(m.types, enum_name, variants, arm),
{
    let a = arm.value;
    let variant = a.variant_name.value@;
    if a.enum_name.value@ == enum_name {
        let m1 = if visited.contains(variant) {
            m.report(crate::errors::high(ErrorKind::DuplicateMatchArm { variant }, span))
        } else {
            m
        };
        match crate::semantics::find_variant(variants, variant) {
            Some(declared) => match (declared.payload, a.variant_value) {
                (Some(t), Some(binding)) => {
                    let (m2, r) = resolve_checked(m1, t, binding.span);
                    match r {
                        Ok(rt) => {
                            let m3 = m2.with_stack(m2.stack.push_scope());
                            assert(m3.stack.top() =~= Seq::empty());
                            let (stack, d) = m3.stack.declare(binding.value@, rt, binding.span);
                            assert(d is Ok);
                        },
                        Err(_) => {},
                    }
                },
                _ => {},
            },
            None => {},
        }
    }
}

/// No arm among the first `n` stops the check when none of them stops it by
/// the user types.
proof fn lemma_arms_no_stop(m: CheckerModel, enum_name: Seq<char>, variants: Seq<EnumVariantModel>, span: Span, arms: Seq<Node<MatchArm>>, n: nat)
    requires
        m.wf(),
        n <= arms.len(),
        arms_never_stop(m.types, enum_name, variants, arms, n),
    ensures
        match_arms(m, enum_name, variants, span, arms, n).2 is None,
    decreases n,
{
    if n > 0 {
        lemma_arms_no_stop(m, enum_name, variants, span, arms, (n - 1) as nat);
        lemma_match_arms_frame(m, enum_name, variants, span, arms, (n - 1) as nat);
        let (m1, visited, stop) = match_arms(m, enum_name, variants, span, arms, (n - 1) as nat);
        lemma_arm_stop(m1, visited, enum_name, variants, span, arms[n - 1]);
    }
}

proof fn lemma_arms_jump_refused(
    m: CheckerModel,
    enum_name: Seq<char>,
    variants: Seq<EnumVariantModel>,
    span: Span,
    arms: Seq<Node<MatchArm>>,
    n: nat,
    jump: Span,
    is_break: bool,
)
    requires
        m.wf(),
        accepting(m, is_break) == 0,
        arms_reach_jump(m.types, enum_name, variants, arms, n, jump, is_break),
    ensures
        added(m.errors, match_arms(m, enum_name, variants, span, arms, n).0.errors, crate::errors::high(jump_error(is_break), jump)),
    decreases arms, n,
{
    let e = crate::errors::high(jump_error(is_break), jump);
    lemma_match_arms_frame(m, enum_name, variants, span, arms, (n - 1) as nat);
    let (m1, visited, stop) = match_arms(m, enum_name, variants, span, arms, (n - 1) as nat);
    if arms_reach_jump(m.types, enum_name, variants, arms, (n - 1) as nat, jump, is_break) {
        lemma_arms_jump_refused(m, enum_name, variants, span, arms, (n - 1) as nat, jump, is_break);
        if stop is None {
            lemma_match_arm_frame(m1, visited, enum_name, variants, span, arms[n - 1]);
            lemma_added_trans(m, m1, match_arm(m1, visited, enum_name, variants, span, arms[n - 1]).0, e);
        }
    } else {
        lemma_arms_no_stop(m, enum_name, variants, span, arms, (n - 1) as nat);
        lemma_arm_jump_refused(m1, visited, enum_name, variants, span, arms[n - 1], jump, is_break);
        lemma_added_later(m, m1, match_arm(m1, visited, enum_name, variants, span, arms[n - 1]).0, e);
    }
}

proof fn lemma_arm_jump_refused(
    m: CheckerModel,
    visited: Seq<Seq<char>>,
    enum_name: Seq<char>,
    variants: Seq<EnumVariantModel>,
    span: Span,
    arm: Node<MatchArm>,
    jump: Span,
    is_break: bool,
)
    requires
        m.wf(),
        accepting(m, is_break) == 0,
        arm_reaches_jump(m.types, enum_name, variants, arm, jump, is_break),
    ensures
        added(m.errors, match_arm(m, visited, enum_name, variants, span, arm).0.errors, crate::errors::high(jump_error(is_break), jump)),
    decreases arm, 1nat,
{
    let e = crate::errors::high(jump_error(is_break), jump);
    let a = arm.value;
    let variant = a.variant_name.value@;
    let m1 = if visited.contains(variant) {
        m.report(crate::errors::high(ErrorKind::DuplicateMatchArm { variant }, span))
    } else {
        m
    };
    let declared = crate::semantics::find_variant(variants, variant).unwrap();
    match (declared.payload, a.variant_value) {
        (Some(t), Some(binding)) => {
            let (m2, r) = resolve_checked(m1, t, binding.span);
            let rt = match r {
                Ok(rt) => rt,
                Err(_) => arbitrary(),
            };
            let m3 = m2.with_stack(m2.stack.push_scope());
            assert(m3.stack.top() =~= Seq::empty());
            let (stack, d) = m3.stack.declare(binding.value@, rt, binding.span);
            assert(d is Ok);
            let m4 = m3.with_stack(stack).hover(rt, binding.value@, binding.span);
            lemma_block_jump_refused(m4, a.block, jump, is_break);
            lemma_block_frame(m4, a.block);
            let m5a = block(m4, a.block);
            lemma_warn_unused_prefix(m5a, m5a.stack.top(), m5a.stack.top().len());
            let m5 = warn_unused(m5a);
            lemma_added_trans(m4, m5a, m5, e);
            lemma_added_later(m, m4, m5, e);
        },
        _ => {
            lemma_block_jump_refused(m1, a.block, jump, is_break);
            lemma_added_later(m, m1, block(m1, a.block), e);
        },
    }
}

proof fn lemma_block_jump_refused(m: CheckerModel, b: Block, span: Span, is_break: bool)
    requires
        m.wf(),
        accepting(m, is_break) == 0,
        block_reaches_jump(m.types, b, span, is_break),
    ensures
        added(m.errors, block(m, b).errors, crate::errors::high(jump_error(is_break), span)),
    decreases b, b.statements@.len() + 1,
{
    let m1 = m.with_stack(m.stack.push_scope());
    lemma_prefix_jump_refused(m1, b, b.statements@.len(), span, is_break);
}

proof fn lemma_prefix_jump_refused(m: CheckerModel, b: Block, n: nat, span: Span, is_break: bool)
    requires
        m.wf(),
        accepting(m, is_break) == 0,
        prefix_reaches_jump(m.types, b, n, span, is_break),
    ensures
        added(m.errors, block_prefix(m, b, n).errors, crate::errors::high(jump_error(is_break), span)),
    decreases b, n,
{
    let e = crate::errors::high(jump_error(is_break), span);
    lemma_block_prefix_frame(m, b, (n - 1) as nat);
    let p = block_prefix(m, b, (n - 1) as nat);
    lemma_step_frame(p, b.statements@[n - 1]);
    let q = block_prefix(m, b, n);
    if prefix_reaches_jump(m.types, b, (n - 1) as nat, span, is_break) {
        lemma_prefix_jump_refused(m, b, (n - 1) as nat, span, is_break);
        lemma_added_trans(m, p, q, e);
    } else {
        lemma_jump_refused_outside(p, b.statements@[n - 1], span, is_break);
        lemma_added_later(m, p, q, e);
    }
}

proof fn lemma_cases_continue_refused(m: CheckerModel, cases: Seq<Node<SwitchCase>>, n: nat, span: Span)
    requires
        m.wf(),
        m.stack.continuable == 0,
        cases_reach_jump(m.types, cases, n, span),
    ensures
        added(m.errors, switch_cases(m, cases, n).errors, crate::errors::high(ErrorKind::ContinueOutsideLoop, span)),
    decreases cases, n,
{
    let e = crate::errors::high(ErrorKind::ContinueOutsideLoop, span);
    lemma_switch_cases_frame(m, cases, (n - 1) as nat);
    let p = switch_cases(m, cases, (n - 1) as nat);
    lemma_switch_case_frame(p, cases[n - 1]);
    let q = switch_cases(m, cases, n);
    if cases_reach_jump(m.types, cases, (n - 1) as nat, span) {
        lemma_cases_continue_refused(m, cases, (n - 1) as nat, span);
        lemma_added_trans(m, p, q, e);
    } else {
        let c = cases[n - 1];
        let m1 = check_condition(p, c.value.condition, crate::errors::ConditionContext::SwitchCase);
        let m2 = m1.with_stack(m1.stack.enter_breakable());
        lemma_block_jump_refused(m2, c.value.block, span, false);
        lemma_block_frame(m2, c.value.block);
        lemma_added_later(m, m2, block(m2, c.value.block), e);
    }
}

// ---------------------------------------------------------------------------
// Unused variables

/// The warning for an unread variable of that name, declared there.
pub open spec fn unused_warning(name: Seq<char>, declared_at: Span) -> CheckErrorModel {
    crate::errors::Diagnostic {
        severity: crate::errors::Severity::Low,
        kind: ErrorKind::UnusedVariable { name },
        span: declared_at,
    }
}

proof fn lemma_warn_unused_prefix_exact(m: CheckerModel, scope: Seq<VariableModel>, n: nat, name: Seq<char>, declared_at: Span)
    requires
        n <= scope.len(),
    ensures
        added(m.errors, warn_unused_prefix(m, scope, n).errors, unused_warning(name, declared_at)) <==> (exists|j: int|
            0 <= j < n && #[trigger] scope[j].name == name && scope[j].span == declared_at)
            && !m.used.contains(declared_at),
    decreases n,
{
    if n > 0 {
        lemma_warn_unused_prefix_exact(m, scope, (n - 1) as nat, name, declared_at);
        lemma_warn_unused_prefix(m, scope, (n - 1) as nat);
        let m1 = warn_unused_prefix(m, scope, (n - 1) as nat);
        let m2 = warn_unused_prefix(m, scope, n);
        let e = unused_warning(name, declared_at);
        if added(m.errors, m2.errors, e) {
            let k = choose|k: int| m.errors.len() <= k < m2.errors.len() && #[trigger] m2.errors[k] == e;
            if k < m1.errors.len() {
                assert(m1.errors[k] == e);
            } else {
                assert(scope[n - 1].name == name);
            }
        }
        if (exists|j: int| 0 <= j < n && #[trigger] scope[j].name == name && scope[j].span == declared_at)
            && !m.used.contains(declared_at) {
            let j = choose|j: int| 0 <= j < n && #[trigger] scope[j].name == name && scope[j].span == declared_at;
            if j < n - 1 {
                let k = choose|k: int| m.errors.len() <= k < m1.errors.len() && #[trigger] m1.errors[k] == e;
                assert(m2.errors[k] == e);
            } else {
                assert(m2.errors[m1.errors.len() as int] == e);
            }
        }
    }
}

/// Warning of unused variables warns of a variable of the innermost scope
/// exactly when no expression has read it since it was declared.
pub proof fn lemma_warn_unused_exact(m: CheckerModel, name: Seq<char>, declared_at: Span)
    ensures
        added(m.errors, warn_unused(m).errors, unused_warning(name, declared_at)) <==> (exists|j: int|
            0 <= j < m.stack.top().len() && #[trigger] m.stack.top()[j].name == name && m.stack.top()[j].span
                == declared_at) && !m.used.contains(declared_at),
{
    lemma_warn_unused_prefix_exact(m, m.stack.top(), m.stack.top().len(), name, declared_at);
}

// ---------------------------------------------------------------------------
// Scopes of match bindings and switch aliases

/// Where a `match` arm's block is checked: in a new scope holding only the
/// arm's binding, of type `ty`, with the binding hovered.
pub open spec fn binding_scope(m: CheckerModel, binding: Node<String>, ty: TypeModel) -> CheckerModel {
    let m1 = m.with_stack(m.stack.push_scope());
    m1.with_stack(m1.stack.declare(binding.value@, ty, binding.span).0).hover(ty, binding.value@, binding.span)
}

/// An arm that names the matched enum and a variant carrying a value of
/// resolvable type, and binds it, has its block checked in a scope of its own
/// where the binding, and only it, is declared with the resolved type; the
/// binding is hovered with that type; after the arm the variable stack is as
/// it was before, so the binding is visible neither in later arms nor after
/// the `match`.
pub proof fn lemma_match_arm_binding(
    m: CheckerModel,
    visited: Seq<Seq<char>>,
    enum_name: Seq<char>,
    variants: Seq<EnumVariantModel>,
    span: Span,
    arm: Node<MatchArm>,
    payload: TypeModel,
    binding: Node<String>,
)
    requires
        m.wf(),
        arm.value.enum_name.value@ == enum_name,
        crate::semantics::find_variant(variants, arm.value.variant_name.value@) matches Some(d) && d.payload == Some(payload),
        arm.value.variant_value == Some(binding),
        crate::semantics::resolve(m.types, payload) is Ok,
    ensures
        ({
            let variant = arm.value.variant_name.value@;
            let ty = crate::semantics::resolve(m.types, payload)->Ok_0;
            let entry = if visited.contains(variant) {
                m.report(crate::errors::high(ErrorKind::DuplicateMatchArm { variant }, span))
            } else {
                m
            };
            let inner = binding_scope(entry, binding, ty);
            let after = warn_unused(block(inner, arm.value.block));
            &&& inner.stack.scopes.len() == m.stack.scopes.len() + 1
            &&& inner.stack.scopes.drop_last() == m.stack.scopes
            &&& inner.stack.top() == seq![VariableModel { name: binding.value@, ty, span: binding.span }]
            &&& lookup(inner.stack.scopes, binding.value@) == Some(VariableModel { name: binding.value@, ty, span: binding.span })
            &&& inner.hovers == entry.hovers.push(crate::checker::HoverModel { ty, name: binding.value@, span: binding.span })
            &&& match_arm(m, visited, enum_name, variants, span, arm) == (
                after.with_stack(after.stack.pop_scope()),
                visited.push(variant),
                None::<crate::semantics::Outcome>,
            )
            &&& match_arm(m, visited, enum_name, variants, span, arm).0.stack == m.stack
        }),
{
    let variant = arm.value.variant_name.value@;
    let ty = crate::semantics::resolve(m.types, payload)->Ok_0;
    let entry = if visited.contains(variant) {
        m.report(crate::errors::high(ErrorKind::DuplicateMatchArm { variant }, span))
    } else {
        m
    };
    let m3 = entry.with_stack(entry.stack.push_scope());
    assert(m3.stack.top() =~= Seq::empty());
    let v = VariableModel { name: binding.value@, ty, span: binding.span };
    let inner = binding_scope(entry, binding, ty);
    assert(inner.stack.top() =~= seq![v]);
    assert(inner.stack.scopes.drop_last() =~= m.stack.scopes);
    assert(find_in_scope(inner.stack.top(), binding.value@) == Some(v)) by {
        assert(inner.stack.top().last() == v);
    }
    lemma_block_frame(inner, arm.value.block);
    let b = block(inner, arm.value.block);
    lemma_warn_unused_prefix(b, b.stack.top(), b.stack.top().len());
    let after = warn_unused(b);
    assert(after.stack.pop_scope().scopes =~= m.stack.scopes);
}

proof fn lemma_switch_case_stack(m: CheckerModel, c: Node<SwitchCase>)
    requires
        m.wf(),
    ensures
        switch_case(m, c).stack == m.stack,
{
    let m1 = check_condition(m, c.value.condition, crate::errors::ConditionContext::SwitchCase);
    let m2 = m1.with_stack(m1.stack.enter_breakable());
    lemma_block_frame(m2, c.value.block);
}

proof fn lemma_switch_cases_stack(m: CheckerModel, cases: Seq<Node<SwitchCase>>, n: nat)
    requires
        m.wf(),
    ensures
        switch_cases(m, cases, n).stack == m.stack,
    decreases n,
{
    if n > 0 && n <= cases.len() {
        lemma_switch_cases_stack(m, cases, (n - 1) as nat);
        lemma_switch_case_stack(switch_cases(m, cases, (n - 1) as nat), cases[n - 1]);
    }
}

/// Once the innermost scope declares `name`, the later subjects of a `switch`
/// leave that declaration in place.
proof fn lemma_switch_expressions_keep(m: CheckerModel, es: Seq<Node<SwitchExpression>>, i: nat, n: nat, v: VariableModel)
    requires
        m.wf(),
        i <= n <= es.len(),
        find_in_scope(switch_expressions(m, es, i).stack.top(), v.name) == Some(v),
    ensures
        find_in_scope(switch_expressions(m, es, n).stack.top(), v.name) == Some(v),
        switch_expressions(m, es, n).wf(),
    decreases n,
{
    lemma_switch_expressions_frame(m, es, n);
    if n > i {
        lemma_switch_expressions_keep(m, es, i, (n - 1) as nat, v);
        lemma_switch_expressions_frame(m, es, (n - 1) as nat);
        let x = switch_expressions(m, es, (n - 1) as nat);
        let x0 = visit_expr(x, es[n - 1].value.expression);
        match crate::semantics::expr_type(es[n - 1].value.expression) {
            Some(t) => match es[n - 1].value.alias {
                Some(id) => {
                    let (st, r) = x0.stack.declare(id.value@, t, id.span);
                    if r is Ok {
                        let w = VariableModel { name: id.value@, ty: t, span: id.span };
                        assert(st.top() == x0.stack.top().push(w));
                        assert(st.top().drop_last() =~= x0.stack.top());
                    }
                },
                None => {},
            },
            None => {},
        }
    }
}

/// A `switch` subject's alias, when the innermost scope did not declare it
/// before, is declared with the subject's type and stays visible with that
/// type at the start of every case and where each case's block begins.
pub proof fn lemma_switch_alias_visible(m: CheckerModel, s: Node<Statement>, i: int, alias: Node<String>, ty: TypeModel, j: int)
    requires
        m.wf(),
        s.value matches Statement::Switch { expressions, cases } && 0 <= i < expressions@.len() && 0 <= j < cases@.len()
            && expressions@[i].value.alias == Some(alias)
            && crate::semantics::expr_type(expressions@[i].value.expression) == Some(ty)
            && find_in_scope(switch_expressions(m, expressions@, i as nat).stack.top(), alias.value@) is None,
    ensures
        ({
            let (es, cases) = match s.value {
                Statement::Switch { expressions, cases } => (expressions@, cases@),
                _ => arbitrary(),
            };
            let v = VariableModel { name: alias.value@, ty, span: alias.span };
            let at_case = switch_cases(switch_expressions(m, es, es.len()), cases, j as nat);
            let c = check_condition(at_case, cases[j].value.condition, crate::errors::ConditionContext::SwitchCase);
            let in_block = c.with_stack(c.stack.enter_breakable().push_scope());
            &&& lookup(at_case.stack.scopes, alias.value@) == Some(v)
            &&& lookup(in_block.stack.scopes, alias.value@) == Some(v)
        }),
{
    let (es, cases) = match s.value {
        Statement::Switch { expressions, cases } => (expressions@, cases@),
        _ => arbitrary(),
    };
    let v = VariableModel { name: alias.value@, ty, span: alias.span };
    lemma_switch_expressions_frame(m, es, i as nat);
    let x = switch_expressions(m, es, i as nat);
    let x0 = visit_expr(x, es[i].value.expression);
    lemma_declare_then_lookup(x0.stack, alias.value@, ty, alias.span);
    let (st, r) = x0.stack.declare(alias.value@, ty, alias.span);
    assert(st.top().last() == v);
    assert(switch_expressions(m, es, (i + 1) as nat).stack == st);
    lemma_switch_expressions_keep(m, es, (i + 1) as nat, es.len(), v);
    let m1 = switch_expressions(m, es, es.len());
    lemma_switch_cases_stack(m1, cases, j as nat);
    let at_case = switch_cases(m1, cases, j as nat);
    let c = check_condition(at_case, cases[j].value.condition, crate::errors::ConditionContext::SwitchCase);
    let in_block = c.with_stack(c.stack.enter_breakable().push_scope());
    assert(in_block.stack.scopes.drop_last() =~= m1.stack.scopes);
    assert(in_block.stack.scopes.last() =~= Seq::empty());
}

} // verus!
