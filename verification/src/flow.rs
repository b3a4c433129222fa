//! Checking the statements that hold blocks, and blocks themselves.
use vstd::prelude::*;

use crate::ast::{Block, MatchArm, Node, Span, Statement};
use crate::checker::{FunctionSignature, SemanticChecker};
use crate::errors::{CheckError, ConditionContext, Diagnostic, ErrorKind, Severity};
use crate::semantics::{
    all_covered, block, block_prefix, conditional, find_variant, first_missing, for_loop,
    function, match_arm, match_arms, parameters, rest_arm, step, switch,
    switch_case, switch_cases, switch_expressions, while_loop, Outcome,
};
use crate::stack::result_view;
use crate::types::{variants_view, EnumVariant, Type};

verus! {

broadcast use crate::semantics::lemma_visit_expr;

/// The names, as character sequences.
pub open spec fn names(v: Seq<String>) -> Seq<Seq<char>> {
    v.map_values(|s: String| s@)
}

/// The model of what a match arm hands back: keep going, or stop with an outcome.
pub open spec fn stop_view(r: Option<Result<(), CheckError>>) -> Option<Outcome> {
    match r {
        None => None,
        Some(o) => Some(result_view(o)),
    }
}

/// Whether a name is among the given ones.
fn contains_name(visited: &Vec<String>, name: &String) -> (r: bool)
    ensures
        r == names(visited@).contains(name@),
{
    let mut i: usize = 0;
    while i < visited.len()
        invariant
            i <= visited@.len(),
            forall|j: int| 0 <= j < i ==> visited@[j]@ != name@,
        decreases visited@.len() - i,
    {
        if visited[i] == *name {
            assert(names(visited@)[i as int] == name@);
            return true;
        }
        i = i + 1;
    }
    proof {
        if names(visited@).contains(name@) {
            let k = choose|k: int| 0 <= k < names(visited@).len() && names(visited@)[k] == name@;
            assert(visited@[k]@ == name@);
        }
    }
    false
}

/// Where the first variant of that name is.
fn find_variant_index(variants: &Vec<EnumVariant>, name: &String) -> (r: Option<usize>)
    ensures
        match r {
            Some(k) => k < variants@.len() && find_variant(variants_view(variants@), name@) == Some(
                variants@[k as int]@,
            ),
            None => find_variant(variants_view(variants@), name@) is None,
        },
{
    let ghost vm = variants_view(variants@);
    let mut i: usize = 0;
    assert(vm.skip(0) =~= vm);
    while i < variants.len()
        invariant
            i <= variants@.len(),
            vm == variants_view(variants@),
            find_variant(vm.skip(i as int), name@) == find_variant(vm, name@),
        decreases variants@.len() - i,
    {
        proof {
            assert(vm.skip(i as int)[0] == variants@[i as int]@);
            assert(vm.skip(i as int).drop_first() =~= vm.skip(i + 1));
        }
        if variants[i].name == *name {
            return Some(i);
        }
        i = i + 1;
    }
    None
}

/// Whether every variant has an arm.
fn all_variants_covered(variants: &Vec<EnumVariant>, visited: &Vec<String>) -> (r: bool)
    ensures
        r == all_covered(variants_view(variants@), names(visited@)),
{
    let ghost vm = variants_view(variants@);
    let mut i: usize = 0;
    while i < variants.len()
        invariant
            i <= variants@.len(),
            vm == variants_view(variants@),
            forall|j: int| 0 <= j < i ==> names(visited@).contains(#[trigger] vm[j].name),
        decreases variants@.len() - i,
    {
        if !contains_name(visited, &variants[i].name) {
            assert(!names(visited@).contains(vm[i as int].name));
            return false;
        }
        i = i + 1;
    }
    true
}

/// Where the first variant without an arm is.
fn first_missing_index(variants: &Vec<EnumVariant>, visited: &Vec<String>) -> (r: Option<usize>)
    ensures
        match r {
            Some(k) => k < variants@.len() && first_missing(variants_view(variants@), names(visited@))
                == Some(variants@[k as int]@),
            None => first_missing(variants_view(variants@), names(visited@)) is None,
        },
{
    let ghost vm = variants_view(variants@);
    let ghost seen = names(visited@);
    let mut i: usize = 0;
    assert(vm.skip(0) =~= vm);
    while i < variants.len()
        invariant
            i <= variants@.len(),
            vm == variants_view(variants@),
            seen == names(visited@),
            first_missing(vm.skip(i as int), seen) == first_missing(vm, seen),
        decreases variants@.len() - i,
    {
        proof {
            assert(vm.skip(i as int)[0] == variants@[i as int]@);
            assert(vm.skip(i as int).drop_first() =~= vm.skip(i + 1));
        }
        if !contains_name(visited, &variants[i].name) {
            return Some(i);
        }
        i = i + 1;
    }
    None
}

impl SemanticChecker {
    /// Checks one statement.
    pub fn check_statement(&mut self, statement: &Node<Statement>) -> (r: Result<(), CheckError>)
        requires
            old(self)@.wf(),
        ensures
            final(self)@ == step(old(self)@, *statement).0,
            result_view(r) == step(old(self)@, *statement).1,
            final(self)@.wf(),
        decreases *statement, 3nat,
    {
        match &statement.value {
            Statement::Declaration { .. } => self.check_declaration(statement),
            Statement::Assignment { .. } => self.check_assignment(statement),
            Statement::Conditional { .. } => self.check_conditional(statement),
            Statement::WhileLoop { .. } => self.check_while_loop(statement),
            Statement::ForLoop { .. } => self.check_for_loop(statement),
            Statement::Switch { .. } => self.check_switch(statement),
            Statement::Return(..) => self.check_return(statement),
            Statement::Break => self.check_break(statement),
            Statement::Continue => self.check_continue(statement),
            Statement::Match { .. } => self.check_match_statement(statement),
            Statement::Expression(e) => {
                let _ = self.visit_expression(e);
                Ok(())
            },
            Statement::Function(..) => self.check_function_declaration(statement),
        }
    }

    /// Checks a block: its statements in order, in a scope of their own. A
    /// statement whose check hands back an error does not stop the block: its
    /// problem is reported or handed back to this call, and the following
    /// statements are still checked.
    pub fn visit_block(&mut self, b: &Block)
        requires
            old(self)@.wf(),
        ensures
            final(self)@ == block(old(self)@, *b),
            final(self)@.wf(),
        decreases *b, b.statements@.len() + 1,
    {
        self.push_scope();
        let ghost m1 = self@;
        let mut i: usize = 0;
        while i < b.statements.len()
            invariant
                i <= b.statements@.len(),
                self@ == block_prefix(m1, *b, i as nat),
                self@.wf(),
            decreases b.statements@.len() - i,
        {
            let _ = self.check_statement(&b.statements[i]);
            i = i + 1;
        }
        self.pop_scope();
    }

    /// Checks a program: its top-level statements in order, in the global scope.
    pub fn check_program(&mut self, program: &Block)
        requires
            old(self)@.wf(),
        ensures
            final(self)@ == block_prefix(old(self)@, *program, program.statements@.len()),
            final(self)@.wf(),
    {
        let ghost m0 = self@;
        let mut i: usize = 0;
        while i < program.statements.len()
            invariant
                i <= program.statements@.len(),
                self@ == block_prefix(m0, *program, i as nat),
                self@.wf(),
            decreases program.statements@.len() - i,
        {
            let _ = self.check_statement(&program.statements[i]);
            i = i + 1;
        }
    }

    /// Checks `if (c) { ... } else { ... }`: the condition must be a `bool`.
    pub fn check_conditional(&mut self, statement: &Node<Statement>) -> (r: Result<(), CheckError>)
        requires
            old(self)@.wf(),
        ensures
            final(self)@ == conditional(old(self)@, *statement),
            final(self)@.wf(),
            r is Ok,
        decreases *statement, 2nat,
    {
        let (condition, if_block, else_block) = match &statement.value {
            Statement::Conditional { condition, if_block, else_block } => (condition, if_block, else_block),
            _ => {
                return Ok(());
            },
        };
        self.check_condition(condition, ConditionContext::If);
        self.visit_block(if_block);
        match else_block {
            Some(else_blk) => self.visit_block(else_blk),
            None => {},
        }
        Ok(())
    }

    /// Checks `while (c) { ... }`: the condition must be a `bool`, and the body
    /// accepts `break` and `continue`.
    pub fn check_while_loop(&mut self, statement: &Node<Statement>) -> (r: Result<(), CheckError>)
        requires
            old(self)@.wf(),
        ensures
            final(self)@ == while_loop(old(self)@, *statement),
            final(self)@.wf(),
            r is Ok,
        decreases *statement, 2nat,
    {
        let (condition, body) = match &statement.value {
            Statement::WhileLoop { condition, block } => (condition, block),
            _ => {
                return Ok(());
            },
        };
        self.check_condition(condition, ConditionContext::While);
        self.enter_breakable();
        self.enter_continuable();
        self.visit_block(body);
        self.exit_breakable();
        self.exit_continuable();
        Ok(())
    }

    /// Checks `for (declaration; condition; assignment) { ... }` in a scope of its
    /// own: the condition must be a `bool`, and the body accepts `break` and
    /// `continue`.
    pub fn check_for_loop(&mut self, statement: &Node<Statement>) -> (r: Result<(), CheckError>)
        requires
            old(self)@.wf(),
        ensures
            final(self)@ == for_loop(old(self)@, *statement),
            final(self)@.wf(),
            r is Ok,
        decreases *statement, 2nat,
    {
        let (declaration, condition, assignment, body) = match &statement.value {
            Statement::ForLoop { declaration, condition, assignment, block } => (
                declaration,
                condition,
                assignment,
                block,
            ),
            _ => {
                return Ok(());
            },
        };
        self.push_scope();
        match declaration {
            Some(decl) => {
                let _ = self.check_statement(&**decl);
            },
            None => {},
        }
        self.check_condition(condition, ConditionContext::ForLoop);
        match assignment {
            Some(assign) => {
                let _ = self.check_statement(&**assign);
            },
            None => {},
        }
        self.enter_breakable();
        self.enter_continuable();
        self.visit_block(body);
        self.exit_breakable();
        self.exit_continuable();
        self.pop_scope();
        Ok(())
    }

    /// Checks `switch`: its subjects, then its cases, in order.
    #[verifier::loop_isolation(false)]
    pub fn check_switch(&mut self, statement: &Node<Statement>) -> (r: Result<(), CheckError>)
        requires
            old(self)@.wf(),
        ensures
            final(self)@ == switch(old(self)@, *statement),
            final(self)@.wf(),
            r is Ok,
        decreases *statement, 2nat,
    {
        let (expressions, cases) = match &statement.value {
            Statement::Switch { expressions, cases } => (expressions, cases),
            _ => {
                return Ok(());
            },
        };
        let ghost m0 = self@;
        let mut i: usize = 0;
        while i < expressions.len()
            invariant
                i <= expressions@.len(),
                self@ == switch_expressions(m0, expressions@, i as nat),
                self@.wf(),
            decreases expressions@.len() - i,
        {
            let _ = self.check_switch_expression(&expressions[i]);
            i = i + 1;
        }
        let ghost m1 = self@;
        let mut j: usize = 0;
        while j < cases.len()
            invariant
                j <= cases@.len(),
                self@ == switch_cases(m1, cases@, j as nat),
                self@.wf(),
            decreases cases@.len() - j,
        {
            let _ = self.check_switch_case(&cases[j]);
            j = j + 1;
        }
        Ok(())
    }

    /// Checks a `case` of a `switch`: the condition must be a `bool`, and the
    /// block accepts `break`.
    pub fn check_switch_case(&mut self, switch_case: &Node<crate::ast::SwitchCase>) -> (r: Result<(), CheckError>)
        requires
            old(self)@.wf(),
        ensures
            final(self)@ == crate::semantics::switch_case(old(self)@, *switch_case),
            final(self)@.wf(),
            r is Ok,
        decreases *switch_case, 1nat,
    {
        self.check_condition(&switch_case.value.condition, ConditionContext::SwitchCase);
        self.enter_breakable();
        self.visit_block(&switch_case.value.block);
        self.exit_breakable();
        Ok(())
    }

    /// Checks one arm of a `match` on a value of the enum `enum_name`, and
    /// records its variant as visited. `Some` when the check of the `match`
    /// stops here.
    fn check_match_arm(
        &mut self,
        visited: &mut Vec<String>,
        enum_name: &String,
        variants: &Vec<EnumVariant>,
        span: Span,
        arm: &Node<MatchArm>,
    ) -> (r: Option<Result<(), CheckError>>)
        requires
            old(self)@.wf(),
        ensures
            (final(self)@, names(final(visited)@), stop_view(r)) == match_arm(
                old(self)@,
                names(old(visited)@),
                enum_name@,
                variants_view(variants@),
                span,
                *arm,
            ),
            final(self)@.wf(),
        decreases *arm, 1nat,
    {
        let a = &arm.value;
        let ghost before = visited@;
        if a.enum_name.value != *enum_name {
            self.report(
                Diagnostic::high(
                    ErrorKind::MatchEnumMismatch {
                        expected: enum_name.clone(),
                        actual: a.enum_name.value.clone(),
                    },
                    span,
                ),
            );
            return None;
        }
        if contains_name(visited, &a.variant_name.value) {
            self.report(
                Diagnostic::high(ErrorKind::DuplicateMatchArm { variant: a.variant_name.value.clone() }, span),
            );
        }
        visited.push(a.variant_name.value.clone());
        assert(names(visited@) =~= names(before).push(a.variant_name.value@));
        match find_variant_index(variants, &a.variant_name.value) {
            None => {
                self.report(
                    Diagnostic::high(
                        ErrorKind::UnknownVariant {
                            enum_name: enum_name.clone(),
                            variant: a.variant_name.value.clone(),
                        },
                        span,
                    ),
                );
                None
            },
            Some(k) => match (&variants[k].payload, &a.variant_value) {
                (None, Some(_)) => {
                    self.report(
                        Diagnostic::high(
                            ErrorKind::VariantWithoutValue {
                                enum_name: enum_name.clone(),
                                variant: a.variant_name.value.clone(),
                            },
                            a.variant_name.span,
                        ),
                    );
                    Some(Ok(()))
                },
                (Some(t), Some(binding)) => {
                    let rt = match self.resolve_type_fully_checked(t, binding.span) {
                        Ok(rt) => rt,
                        Err(e) => {
                            return Some(Err(e));
                        },
                    };
                    self.push_scope();
                    match self.declare(&binding.value, rt.duplicate(), binding.span) {
                        Ok(()) => {},
                        Err(e) => {
                            return Some(Err(Diagnostic::high(ErrorKind::Stack(e), binding.span)));
                        },
                    }
                    self.push_hover(rt, binding.value.clone(), binding.span);
                    self.visit_block(&a.block);
                    self.unused_variables_in_last_scope_warn();
                    self.pop_scope();
                    None
                },
                _ => {
                    self.visit_block(&a.block);
                    None
                },
            },
        }
    }

    /// Checks the `rest` arm of a `match`, or, without one, that every variant
    /// has an arm.
    fn check_rest_arm(&mut self, variants: &Vec<EnumVariant>, visited: &Vec<String>, rest: &Option<Block>, span: Span)
        requires
            old(self)@.wf(),
        ensures
            final(self)@ == rest_arm(old(self)@, variants_view(variants@), names(visited@), *rest, span),
            final(self)@.wf(),
        decreases *rest, 1nat,
    {
        match rest {
            Some(b) => {
                if all_variants_covered(variants, visited) {
                    self.report(
                        Diagnostic { severity: Severity::Low, kind: ErrorKind::UnnecessaryRestArm, span: b.span },
                    );
                }
                self.visit_block(b);
            },
            None => match first_missing_index(variants, visited) {
                Some(k) => {
                    self.report(
                        Diagnostic::high(ErrorKind::MissingVariant { variant: variants[k].name.clone() }, span),
                    );
                },
                None => {},
            },
        }
    }

    /// Checks a `match`: the value must be of an enum type, each arm must name
    /// that enum and one of its variants, once, with a binding only for a
    /// variant that carries a value; without a `rest` arm every variant needs
    /// an arm, and a `rest` arm after arms for every variant is flagged. A
    /// variable bound by an arm lives in a scope of its own while the arm's
    /// block is checked; if nothing in the block reads it, it is flagged as
    /// unused.
    #[verifier::loop_isolation(false)]
    pub fn check_match_statement(&mut self, match_statement: &Node<Statement>) -> (r: Result<(), CheckError>)
        requires
            old(self)@.wf(),
            match_statement.value is Match,
        ensures
            final(self)@ == crate::semantics::match_statement(old(self)@, *match_statement).0,
            result_view(r) == crate::semantics::match_statement(old(self)@, *match_statement).1,
            final(self)@.wf(),
        decreases *match_statement, 2nat,
    {
        let (expression, arms, rest) = match &match_statement.value {
            Statement::Match { expression, match_arms, rest_arm } => (expression, match_arms, rest_arm),
            _ => {
                proof {
                    assert(false);
                }
                return Ok(());
            },
        };
        let visited = self.visit_expression(expression);
        match &expression.value.failure {
            Some(f) => {
                return Err(f.duplicate());
            },
            None => {},
        }
        let actual = match visited {
            Some(t) => t,
            None => {
                return Err(Diagnostic::high(ErrorKind::MissingResult, expression.span));
            },
        };
        let resolved = match self.resolve_type_fully_checked(&actual, expression.span) {
            Ok(t) => t,
            Err(e) => {
                return Err(e);
            },
        };
        let enum_name = match resolved {
            Type::Enum(name) => name,
            other => {
                proof {
                    crate::types::lemma_model_variant(other);
                }
                self.report(Diagnostic::high(ErrorKind::MatchOnNonEnum { actual: other }, expression.span));
                return Ok(());
            },
        };
        let variants = self.enum_variants(&enum_name);
        let ghost m1 = self@;
        let mut visited: Vec<String> = Vec::new();
        assert(names(visited@) =~= Seq::<Seq<char>>::empty());
        let mut i: usize = 0;
        while i < arms.len()
            invariant
                i <= arms@.len(),
                (self@, names(visited@), None::<Outcome>) == match_arms(
                    m1,
                    enum_name@,
                    variants_view(variants@),
                    expression.span,
                    arms@,
                    i as nat,
                ),
                self@.wf(),
            decreases arms@.len() - i,
        {
            match self.check_match_arm(&mut visited, &enum_name, &variants, expression.span, &arms[i]) {
                Some(outcome) => {
                    proof {
                        crate::semantics::lemma_match_arms_stopped(
                            m1,
                            enum_name@,
                            variants_view(variants@),
                            expression.span,
                            arms@,
                            (i + 1) as nat,
                            arms@.len(),
                        );
                    }
                    return outcome;
                },
                None => {},
            }
            i = i + 1;
        }
        self.check_rest_arm(&variants, &visited, rest, match_statement.span);
        Ok(())
    }

    /// Checks a function declaration: the body is checked with this function as
    /// the current one, in a scope holding its parameters.
    #[verifier::loop_isolation(false)]
    pub fn check_function_declaration(&mut self, statement: &Node<Statement>) -> (r: Result<(), CheckError>)
        requires
            old(self)@.wf(),
        ensures
            final(self)@ == function(old(self)@, *statement),
            final(self)@.wf(),
            r is Ok,
        decreases *statement, 2nat,
    {
        let f = match &statement.value {
            Statement::Function(f) => f,
            _ => {
                return Ok(());
            },
        };
        let saved = self.current_function();
        let ret = match self.visit_type(&f.return_type) {
            Some(t) => t,
            None => f.return_type.value.duplicate(),
        };
        self.set_current_function(Some(FunctionSignature { name: f.identifier.value.clone(), return_type: ret }));
        self.push_scope();
        let ghost m3 = self@;
        let mut i: usize = 0;
        while i < f.parameters.len()
            invariant
                i <= f.parameters@.len(),
                self@ == parameters(m3, f.parameters@, i as nat),
                self@.wf(),
            decreases f.parameters@.len() - i,
        {
            let p = &f.parameters[i];
            match self.visit_type(&p.param_type) {
                Some(t) => {
                    self.declare_or_report(&p.identifier.value, t, p.identifier.span, p.identifier.span);
                },
                None => {},
            }
            i = i + 1;
        }
        self.visit_block(&f.body);
        self.set_current_function(saved);
        self.pop_scope();
        Ok(())
    }
}

} // verus!
