use vstd::prelude::*;

use crate::ast::Span;
use crate::errors::{StackError, StackErrorModel};
use crate::types::{compatible, Type, TypeModel};

verus! {

/// A declared variable: its name, type and the place of its declaration.
#[derive(Debug, PartialEq, Eq)]
pub struct Variable {
    pub name: String,
    pub ty: Type,
    pub span: Span,
}

/// The model of a `Variable`.
pub struct VariableModel {
    pub name: Seq<char>,
    pub ty: TypeModel,
    pub span: Span,
}

impl View for Variable {
    type V = VariableModel;

    open spec fn view(&self) -> VariableModel {
        VariableModel { name: self.name@, ty: self.ty@, span: self.span }
    }
}

/// The variables in scope, innermost scope last, and how many enclosing
/// constructs accept a `break` and a `continue`.
pub struct Stack {
    scopes: Vec<Vec<Variable>>,
    breakable: Vec<()>,
    continuable: Vec<()>,
}

/// The model of a `Stack`.
pub struct StackModel {
    pub scopes: Seq<Seq<VariableModel>>,
    pub breakable: nat,
    pub continuable: nat,
}

/// The variable of that name in one scope, the latest declared first.
pub open spec fn find_in_scope(scope: Seq<VariableModel>, name: Seq<char>) -> Option<VariableModel>
    decreases scope.len(),
{
    if scope.len() == 0 {
        None
    } else if scope.last().name == name {
        Some(scope.last())
    } else {
        find_in_scope(scope.drop_last(), name)
    }
}

/// The variable that a name denotes: the one in the innermost scope that declares it.
pub open spec fn lookup(scopes: Seq<Seq<VariableModel>>, name: Seq<char>) -> Option<VariableModel>
    decreases scopes.len(),
{
    if scopes.len() == 0 {
        None
    } else {
        match find_in_scope(scopes.last(), name) {
            Some(v) => Some(v),
            None => lookup(scopes.drop_last(), name),
        }
    }
}

pub open spec fn scope_model(scope: Vec<Variable>) -> Seq<VariableModel> {
    scope@.map_values(|v: Variable| v@)
}

impl View for Stack {
    type V = StackModel;

    closed spec fn view(&self) -> StackModel {
        StackModel {
            scopes: self.scopes@.map_values(|s: Vec<Variable>| scope_model(s)),
            breakable: self.breakable@.len(),
            continuable: self.continuable@.len(),
        }
    }
}

impl StackModel {
    /// There is always a global scope.
    pub open spec fn wf(self) -> bool {
        self.scopes.len() >= 1
    }

    pub open spec fn top(self) -> Seq<VariableModel> {
        self.scopes.last()
    }

    /// Declaring a name in the innermost scope: refused when that scope already declares it.
    pub open spec fn declare(self, name: Seq<char>, ty: TypeModel, span: Span) -> (StackModel, Result<(), StackErrorModel>) {
        if find_in_scope(self.top(), name) is Some {
            (self, Err(StackError::AlreadyDeclared { name }))
        } else {
            let v = VariableModel { name, ty, span };
            (
                StackModel {
                    scopes: self.scopes.update(self.scopes.len() - 1, self.top().push(v)),
                    ..self
                },
                Ok(()),
            )
        }
    }

    /// Assigning a value of type `ty` to a name: the name must denote a variable
    /// whose type accepts `ty`. The stack does not change.
    pub open spec fn assign(self, name: Seq<char>, ty: TypeModel) -> Result<(), StackErrorModel> {
        match lookup(self.scopes, name) {
            None => Err(StackError::Undeclared { name }),
            Some(v) => if compatible(v.ty, ty) {
                Ok(())
            } else {
                Err(StackError::TypeMismatch { name, expected: v.ty, actual: ty })
            },
        }
    }

    pub open spec fn push_scope(self) -> StackModel {
        StackModel { scopes: self.scopes.push(Seq::empty()), ..self }
    }

    /// Leaving a scope; the global scope is never left.
    pub open spec fn pop_scope(self) -> StackModel {
        if self.scopes.len() > 1 {
            StackModel { scopes: self.scopes.drop_last(), ..self }
        } else {
            self
        }
    }

    pub open spec fn enter_breakable(self) -> StackModel {
        StackModel { breakable: self.breakable + 1, ..self }
    }

    pub open spec fn exit_breakable(self) -> StackModel {
        StackModel { breakable: if self.breakable > 0 { (self.breakable - 1) as nat } else { 0 }, ..self }
    }

    pub open spec fn enter_continuable(self) -> StackModel {
        StackModel { continuable: self.continuable + 1, ..self }
    }

    pub open spec fn exit_continuable(self) -> StackModel {
        StackModel {
            continuable: if self.continuable > 0 { (self.continuable - 1) as nat } else { 0 },
            ..self
        }
    }
}

/// The model of a result whose error has a view.
pub open spec fn result_view<E: View>(r: Result<(), E>) -> Result<(), E::V> {
    match r {
        Ok(()) => Ok(()),
        Err(e) => Err(e@),
    }
}

/// The position of the variable of that name in one scope, searching from the latest declared.
fn find_in(scope: &Vec<Variable>, name: &String) -> (r: Option<usize>)
    ensures
        match r {
            Some(i) => i < scope@.len() && find_in_scope(scope_model(*scope), name@) == Some(
                scope@[i as int]@,
            ),
            None => find_in_scope(scope_model(*scope), name@) is None,
        },
{
    let ghost m = scope_model(*scope);
    let mut i = scope.len();
    assert(m.take(i as int) =~= m);
    while i > 0
        invariant
            i <= scope@.len(),
            m == scope_model(*scope),
            find_in_scope(m.take(i as int), name@) == find_in_scope(m, name@),
        decreases i,
    {
        proof {
            assert(m.take(i as int).last() == scope@[i - 1]@);
            assert(m.take(i as int).drop_last() =~= m.take(i - 1));
        }
        if scope[i - 1].name == *name {
            return Some(i - 1);
        }
        i = i - 1;
    }
    assert(m.take(0) =~= Seq::<VariableModel>::empty());
    None
}

impl Stack {
    /// A stack holding only the global scope, outside any loop or switch case.
    pub fn new() -> (r: Stack)
        ensures
            r@ == (StackModel { scopes: seq![Seq::empty()], breakable: 0, continuable: 0 }),
    {
        let mut scopes: Vec<Vec<Variable>> = Vec::new();
        let global: Vec<Variable> = Vec::new();
        assert(scope_model(global) =~= Seq::<VariableModel>::empty());
        scopes.push(global);
        let r = Stack { scopes, breakable: Vec::new(), continuable: Vec::new() };
        assert(r@.scopes =~= seq![Seq::empty()]);
        r
    }

    /// The number of scopes, the global one included.
    pub fn size(&self) -> (r: usize)
        ensures
            r == self@.scopes.len(),
    {
        self.scopes.len()
    }

    /// Whether a `break` is accepted here.
    pub fn is_in_breakable(&self) -> (r: bool)
        ensures
            r == (self@.breakable > 0),
    {
        self.breakable.len() > 0
    }

    /// Whether a `continue` is accepted here.
    pub fn is_in_continuable(&self) -> (r: bool)
        ensures
            r == (self@.continuable > 0),
    {
        self.continuable.len() > 0
    }

    pub fn enter_breakable(&mut self)
        ensures
            final(self)@ == old(self)@.enter_breakable(),
    {
        self.breakable.push(());
    }

    pub fn exit_breakable(&mut self)
        ensures
            final(self)@ == old(self)@.exit_breakable(),
    {
        let _ = self.breakable.pop();
    }

    pub fn enter_continuable(&mut self)
        ensures
            final(self)@ == old(self)@.enter_continuable(),
    {
        self.continuable.push(());
    }

    pub fn exit_continuable(&mut self)
        ensures
            final(self)@ == old(self)@.exit_continuable(),
    {
        let _ = self.continuable.pop();
    }

    /// Where the variable that `name` denotes is: scope and position in it.
    fn locate(&self, name: &String) -> (r: Option<(usize, usize)>)
        ensures
            match r {
                Some((i, j)) => i < self.scopes@.len() && j < self.scopes@[i as int]@.len()
                    && lookup(self@.scopes, name@) == Some(self.scopes@[i as int]@[j as int]@),
                None => lookup(self@.scopes, name@) is None,
            },
    {
        let ghost m = self@.scopes;
        let mut i = self.scopes.len();
        assert(m.take(i as int) =~= m);
        while i > 0
            invariant
                i <= self.scopes@.len(),
                m == self@.scopes,
                lookup(m.take(i as int), name@) == lookup(m, name@),
            decreases i,
        {
            proof {
                assert(m.take(i as int).last() == scope_model(self.scopes@[i - 1]));
                assert(m.take(i as int).drop_last() =~= m.take(i - 1));
            }
            match find_in(&self.scopes[i - 1], name) {
                Some(j) => {
                    return Some((i - 1, j));
                },
                None => {},
            }
            i = i - 1;
        }
        assert(m.take(0) =~= Seq::<Seq<VariableModel>>::empty());
        None
    }

    /// The variable that `name` denotes.
    pub fn find_variable(&self, name: &String) -> (r: Option<&Variable>)
        ensures
            match r {
                Some(v) => lookup(self@.scopes, name@) == Some(v@),
                None => lookup(self@.scopes, name@) is None,
            },
    {
        match self.locate(name) {
            Some((i, j)) => Some(&self.scopes[i][j]),
            None => None,
        }
    }

    /// Where the variable that `name` denotes was declared.
    pub fn get_variable_declaration_span(&self, name: &String) -> (r: Option<Span>)
        ensures
            r == (match lookup(self@.scopes, name@) {
                Some(v) => Some(v.span),
                None => None::<Span>,
            }),
    {
        match self.find_variable(name) {
            Some(v) => Some(v.span),
            None => None,
        }
    }

    /// Declares `name` with type `ty` in the innermost scope, unless that scope declares it already.
    pub fn declare_variable(&mut self, name: &String, ty: Type, span: Span) -> (r: Result<(), StackError<String, Type>>)
        requires
            old(self)@.wf(),
        ensures
            final(self)@ == old(self)@.declare(name@, ty@, span).0,
            result_view(r) == old(self)@.declare(name@, ty@, span).1,
            final(self)@.wf(),
    {
        let top = self.scopes.len() - 1;
        proof {
            assert(self@.top() == scope_model(self.scopes@[top as int]));
        }
        if find_in(&self.scopes[top], name).is_some() {
            return Err(StackError::AlreadyDeclared { name: name.clone() });
        }
        let ghost old_scopes = self@.scopes;
        let mut scope = self.scopes.pop().unwrap();
        let v = Variable { name: name.clone(), ty, span };
        scope.push(v);
        proof {
            assert(scope_model(scope) =~= old_scopes.last().push(v@));
        }
        self.scopes.push(scope);
        proof {
            assert(self@.scopes =~= old_scopes.update(old_scopes.len() - 1, old_scopes.last().push(v@)));
        }
        Ok(())
    }

    /// Checks an assignment of a value of type `ty` to `name`.
    pub fn assign_variable(&self, name: &String, ty: &Type) -> (r: Result<(), StackError<String, Type>>)
        ensures
            result_view(r) == self@.assign(name@, ty@),
    {
        match self.find_variable(name) {
            None => Err(StackError::Undeclared { name: name.clone() }),
            Some(v) => {
                if v.ty.is_compatible(ty) {
                    Ok(())
                } else {
                    Err(StackError::TypeMismatch {
                        name: name.clone(),
                        expected: v.ty.duplicate(),
                        actual: ty.duplicate(),
                    })
                }
            },
        }
    }

    /// The number of variables declared in the innermost scope.
    pub fn top_len(&self) -> (r: usize)
        requires
            self@.wf(),
        ensures
            r == self@.top().len(),
    {
        let t = self.scopes.len() - 1;
        proof {
            assert(self@.top() == scope_model(self.scopes@[t as int]));
        }
        self.scopes[t].len()
    }

    /// The name and declaration place of the `k`-th variable of the innermost scope.
    pub fn top_variable(&self, k: usize) -> (r: (String, Span))
        requires
            self@.wf(),
            k < self@.top().len(),
        ensures
            r.0@ == self@.top()[k as int].name,
            r.1 == self@.top()[k as int].span,
    {
        let t = self.scopes.len() - 1;
        proof {
            assert(self@.top() == scope_model(self.scopes@[t as int]));
        }
        (self.scopes[t][k].name.clone(), self.scopes[t][k].span)
    }

    pub fn push_scope(&mut self)
        ensures
            final(self)@ == old(self)@.push_scope(),
    {
        let scope: Vec<Variable> = Vec::new();
        assert(scope_model(scope) =~= Seq::<VariableModel>::empty());
        self.scopes.push(scope);
        assert(self@.scopes =~= old(self)@.scopes.push(Seq::empty()));
    }

    pub fn pop_scope(&mut self)
        ensures
            final(self)@ == old(self)@.pop_scope(),
    {
        if self.scopes.len() > 1 {
            let _ = self.scopes.pop();
            assert(self@.scopes =~= old(self)@.scopes.drop_last());
        }
    }
}

} // verus!
