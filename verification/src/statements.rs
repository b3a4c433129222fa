//! Checking statements: declarations, assignments, conditionals, loops,
//! switches, returns, breaks, continues and matches.
use vstd::prelude::*;

use crate::ast::{Expression, Node, Span, Statement, SwitchExpression, VariableDeclarationKind};
use crate::checker::{DefinitionInfo, SemanticChecker};
use crate::errors::{CheckError, Diagnostic, ErrorKind, StackError};
use crate::semantics::{
    assignment, break_statement, check_accessors, continue_statement, declaration, element_type,
    index_assignment, return_statement,
};
use crate::stack::result_view;
use crate::types::Type;

verus! {

broadcast use crate::semantics::lemma_visit_expr;

/// The type of the elements reached by indexing `depth` times into a value of
/// type `t`; `Err` holds the type that cannot be indexed.
fn element_type_of(t: &Type, depth: usize) -> (r: Result<Type, Type>)
    ensures
        (match r {
            Ok(e) => Ok(e@),
            Err(e) => Err(e@),
        }) == element_type(t@, depth as nat),
    decreases depth,
{
    if depth == 0 {
        Ok(t.duplicate())
    } else {
        match t {
            Type::Vector(inner) => element_type_of(&**inner, depth - 1),
            _ => {
                proof {
                    crate::types::lemma_model_variant(*t);
                }
                Err(t.duplicate())
            },
        }
    }
}

impl SemanticChecker {
    /// Checks a variable declaration: the declared type must accept the value,
    /// `let` without a type needs a value of a known, non-empty-vector, non-void
    /// type, and the name must be new to the innermost scope. The variable's
    /// type is recorded for hovering. Reading a written type resolves it fully
    /// (see `visit_type`), so a declared type needs no second resolution and
    /// the check never hands back an error.
    pub fn check_declaration(&mut self, statement: &Node<Statement>) -> (r: Result<(), CheckError>)
        requires
            old(self)@.wf(),
        ensures
            final(self)@ == declaration(old(self)@, *statement),
            final(self)@.wf(),
            r is Ok,
    {
        let (identifier, kind) = match &statement.value {
            Statement::Declaration { identifier, kind } => (identifier, kind),
            _ => {
                return Ok(());
            },
        };
        match kind {
            VariableDeclarationKind::Typed { var_type, value } => {
                let declared = match self.visit_type(var_type) {
                    Some(t) => t,
                    None => {
                        return Ok(());
                    },
                };
                let resolved: Option<Type> = match value {
                    Some(v) => match self.visit_expression(v) {
                        Some(actual) => {
                            self.check_value_type(&identifier.value, &declared, &actual, statement.span);
                            Some(declared)
                        },
                        None => None,
                    },
                    None => Some(declared),
                };
                match resolved {
                    Some(rt) => {
                        self.declare_or_report(&identifier.value, rt.duplicate(), identifier.span, statement.span);
                        self.push_hover(rt, identifier.value.clone(), identifier.span);
                    },
                    None => {
                        self.push_hover(Type::Void, identifier.value.clone(), identifier.span);
                    },
                }
            },
            VariableDeclarationKind::Let { var_type, value } => {
                let resolved = self.visit_expression(value);
                match var_type {
                    Some(vt) => {
                        let declared = match self.visit_type(vt) {
                            Some(t) => t,
                            None => {
                                return Ok(());
                            },
                        };
                        match &resolved {
                            Some(rt) => {
                                self.check_value_type(&identifier.value, &declared, rt, statement.span);
                            },
                            None => {},
                        }
                        self.declare_or_report(&identifier.value, declared.duplicate(), identifier.span, statement.span);
                        self.push_hover(declared, identifier.value.clone(), identifier.span);
                    },
                    None => match resolved {
                        Some(rt) => {
                            if rt.is_empty_vector() {
                                self.report(
                                    Diagnostic::high(
                                        ErrorKind::EmptyVectorInference { name: identifier.value.clone() },
                                        statement.span,
                                    ),
                                );
                            } else if rt.is_void() {
                                self.report(
                                    Diagnostic::high(
                                        ErrorKind::VoidAssignment { name: identifier.value.clone() },
                                        statement.span,
                                    ),
                                );
                            } else {
                                self.declare_or_report(&identifier.value, rt.duplicate(), identifier.span, statement.span);
                            }
                            self.push_hover(rt, identifier.value.clone(), identifier.span);
                        },
                        None => {
                            self.push_hover(Type::Void, identifier.value.clone(), identifier.span);
                        },
                    },
                }
            },
        }
        Ok(())
    }

    /// Checks an assignment. Without indices: the value must exist (else the
    /// error is reported and handed back), the name must denote a variable
    /// whose type accepts the value, and the use is linked to the declaration.
    pub fn check_assignment(&mut self, statement: &Node<Statement>) -> (r: Result<(), CheckError>)
        requires
            old(self)@.wf(),
        ensures
            final(self)@ == assignment(old(self)@, *statement).0,
            result_view(r) == assignment(old(self)@, *statement).1,
            final(self)@.wf(),
    {
        let (identifier, accessors, value) = match &statement.value {
            Statement::Assignment { identifier, accessors, value } => (identifier, accessors, value),
            _ => {
                return Ok(());
            },
        };
        if accessors.len() == 0 {
            let visited = self.visit_expression(value);
            match &value.value.failure {
                Some(f) => {
                    return Err(f.duplicate());
                },
                None => {},
            }
            match visited {
                None => {
                    let e = Diagnostic::high(
                        ErrorKind::NoValueProduced { name: identifier.value.clone() },
                        statement.span,
                    );
                    self.report(
                        Diagnostic::high(
                            ErrorKind::NoValueProduced { name: identifier.value.clone() },
                            statement.span,
                        ),
                    );
                    return Err(e);
                },
                Some(vt) => {
                    match self.stack().assign_variable(&identifier.value, &vt) {
                        Ok(()) => {},
                        Err(e) => {
                            self.report(Diagnostic::high(ErrorKind::Stack(e), statement.span));
                        },
                    }
                    self.push_hover(vt, identifier.value.clone(), identifier.span);
                    match self.stack().get_variable_declaration_span(&identifier.value) {
                        Some(def_span) => {
                            self.push_definition(DefinitionInfo { def_span, use_span: identifier.span });
                        },
                        None => {},
                    }
                },
            }
        } else {
            self.check_index_assignment(identifier, accessors, value, statement.span);
        }
        Ok(())
    }

    /// Checks `x[i]...[k] = v;`: the indices must be `i64`s, `x` must be a
    /// variable that can be indexed that many times, and the element type must
    /// accept the value.
    pub fn check_index_assignment(
        &mut self,
        identifier: &Node<String>,
        accessors: &Vec<Node<Expression>>,
        value: &Node<Expression>,
        span: Span,
    )
        requires
            old(self)@.wf(),
        ensures
            final(self)@ == index_assignment(old(self)@, *identifier, accessors@, *value, span),
            final(self)@.wf(),
    {
        let ghost m0 = self@;
        let mut i: usize = 0;
        while i < accessors.len()
            invariant
                i <= accessors@.len(),
                self@ == check_accessors(m0, accessors@, i as nat),
                self@.wf(),
            decreases accessors@.len() - i,
        {
            match self.visit_expression(&accessors[i]) {
                Some(t) => {
                    if !t.is_i64() {
                        self.report(Diagnostic::high(ErrorKind::IndexNotInteger { actual: t }, accessors[i].span));
                    }
                },
                None => {},
            }
            i = i + 1;
        }
        let found: Option<Type> = match self.stack().find_variable(&identifier.value) {
            Some(v) => Some(v.ty.duplicate()),
            None => None,
        };
        match found {
            None => {
                self.report(
                    Diagnostic::high(
                        ErrorKind::Stack(StackError::Undeclared { name: identifier.value.clone() }),
                        span,
                    ),
                );
            },
            Some(vty) => match element_type_of(&vty, accessors.len()) {
                Err(t) => {
                    self.report(
                        Diagnostic::high(
                            ErrorKind::NotIndexable { name: identifier.value.clone(), actual: t },
                            span,
                        ),
                    );
                },
                Ok(et) => match self.visit_expression(value) {
                    Some(vt) => {
                        if !et.is_compatible(&vt) {
                            self.report(
                                Diagnostic::high(
                                    ErrorKind::Stack(
                                        StackError::TypeMismatch {
                                            name: identifier.value.clone(),
                                            expected: et,
                                            actual: vt,
                                        },
                                    ),
                                    span,
                                ),
                            );
                        }
                    },
                    None => {},
                },
            },
        }
    }

    /// Checks a `return`: it must stand inside a function, a `void` function
    /// returns no value, and the declared return type must accept the value.
    pub fn check_return(&mut self, statement: &Node<Statement>) -> (r: Result<(), CheckError>)
        requires
            old(self)@.wf(),
        ensures
            final(self)@ == return_statement(old(self)@, *statement),
            final(self)@.wf(),
            r is Ok,
    {
        let value = match &statement.value {
            Statement::Return(value) => value,
            _ => {
                return Ok(());
            },
        };
        if self.stack().size() <= 1 {
            self.report(Diagnostic::high(ErrorKind::ReturnOutsideFunction, statement.span));
        }
        let actual: Option<Type> = match value {
            Some(v) => self.visit_expression(v),
            None => None,
        };
        match self.current_function() {
            None => {},
            Some(f) => {
                if f.return_type.is_void() && value.is_some() {
                    self.report(
                        Diagnostic::high(
                            ErrorKind::VoidFunctionReturnsValue { function: f.name.clone() },
                            statement.span,
                        ),
                    );
                }
                let is_ok = match &actual {
                    None => f.return_type.is_void(),
                    Some(t) => f.return_type.is_compatible(t),
                };
                if !is_ok {
                    let got = match actual {
                        Some(t) => t,
                        None => Type::Void,
                    };
                    self.report(
                        Diagnostic::high(
                            ErrorKind::ReturnTypeMismatch {
                                function: f.name,
                                expected: f.return_type,
                                actual: got,
                            },
                            statement.span,
                        ),
                    );
                }
            },
        }
        Ok(())
    }

    /// Checks a `break`: it must stand inside a loop or a switch case.
    pub fn check_break(&mut self, statement: &Node<Statement>) -> (r: Result<(), CheckError>)
        requires
            old(self)@.wf(),
        ensures
            final(self)@ == break_statement(old(self)@, *statement),
            final(self)@.wf(),
            r is Ok,
    {
        if !self.stack().is_in_breakable() {
            self.report(Diagnostic::high(ErrorKind::BreakOutsideLoop, statement.span));
        }
        Ok(())
    }

    /// Checks a `continue`: it must stand inside a loop.
    pub fn check_continue(&mut self, statement: &Node<Statement>) -> (r: Result<(), CheckError>)
        requires
            old(self)@.wf(),
        ensures
            final(self)@ == continue_statement(old(self)@, *statement),
            final(self)@.wf(),
            r is Ok,
    {
        if !self.stack().is_in_continuable() {
            self.report(Diagnostic::high(ErrorKind::ContinueOutsideLoop, statement.span));
        }
        Ok(())
    }

    /// Checks a subject of a `switch`: its alias, if any, is declared with the
    /// subject's type.
    pub fn check_switch_expression(&mut self, switch_expression: &Node<SwitchExpression>) -> (r: Result<(), CheckError>)
        requires
            old(self)@.wf(),
        ensures
            final(self)@ == crate::semantics::switch_expression(old(self)@, *switch_expression),
            final(self)@.wf(),
            r is Ok,
    {
        match self.visit_expression(&switch_expression.value.expression) {
            Some(t) => match &switch_expression.value.alias {
                None => {},
                Some(id) => {
                    self.declare_or_report(&id.value, t, id.span, switch_expression.span);
                },
            },
            None => {},
        }
        Ok(())
    }
}

} // verus!
