use vstd::prelude::*;

use crate::ast::{Expression, Node, Span};
use crate::errors::{
    high, CheckError, CheckErrorModel, ConditionContext, Diagnostic, ErrorKind, Severity, StackError,
};
use crate::semantics::{
    check_condition, check_value_type, declare_or_report, enum_variants, expr_type, find_type,
    resolve, resolve_checked, use_names, visit_expr, visit_type, warn_unused, warn_unused_prefix,
};
use crate::stack::{result_view, Stack, StackModel};
use crate::types::{
    variants_view, EnumVariant, Type, TypeDefinition, TypeDefinitionModel, TypeModel,
};

verus! {

/// What an editor shows when hovering over a name: its type.
#[derive(Debug, PartialEq, Eq)]
pub struct HoverInfo {
    pub ty: Type,
    pub name: String,
    pub span: Span,
}

/// The model of a `HoverInfo`.
pub struct HoverModel {
    pub ty: TypeModel,
    pub name: Seq<char>,
    pub span: Span,
}

impl View for HoverInfo {
    type V = HoverModel;

    open spec fn view(&self) -> HoverModel {
        HoverModel { ty: self.ty@, name: self.name@, span: self.span }
    }
}

/// A use of a name, linked to the declaration it denotes.
#[derive(Clone, Copy, PartialEq, Eq, Structural, Debug)]
pub struct DefinitionInfo {
    pub def_span: Span,
    pub use_span: Span,
}

/// The function whose body is being checked: its name and return type.
pub struct FunctionSignature {
    pub name: String,
    pub return_type: Type,
}

/// The model of a `FunctionSignature`.
pub struct FunctionModel {
    pub name: Seq<char>,
    pub return_type: TypeModel,
}

impl View for FunctionSignature {
    type V = FunctionModel;

    open spec fn view(&self) -> FunctionModel {
        FunctionModel { name: self.name@, return_type: self.return_type@ }
    }
}

impl FunctionSignature {
    pub fn duplicate(&self) -> (r: FunctionSignature)
        ensures
            r@ == self@,
    {
        FunctionSignature { name: self.name.clone(), return_type: self.return_type.duplicate() }
    }
}

/// The statement checker: the variables in scope, what it has reported, the
/// editor information it has gathered, the function being checked and the
/// user types declared so far.
pub struct SemanticChecker {
    stack: Stack,
    errors: Vec<CheckError>,
    hovers: Vec<HoverInfo>,
    definitions: Vec<DefinitionInfo>,
    current_function_declaration: Option<FunctionSignature>,
    type_definitions: Vec<TypeDefinition>,
    used_variables: Vec<Span>,
}

/// The model of the checker's state.
pub struct CheckerModel {
    pub stack: StackModel,
    pub errors: Seq<CheckErrorModel>,
    pub hovers: Seq<HoverModel>,
    pub definitions: Seq<DefinitionInfo>,
    pub function: Option<FunctionModel>,
    pub types: Seq<TypeDefinitionModel>,
    /// The declaration places of the variables read so far.
    pub used: Seq<Span>,
}

impl CheckerModel {
    pub open spec fn wf(self) -> bool {
        self.stack.wf()
    }

    pub open spec fn report(self, e: CheckErrorModel) -> CheckerModel {
        CheckerModel { errors: self.errors.push(e), ..self }
    }

    pub open spec fn hover(self, ty: TypeModel, name: Seq<char>, span: Span) -> CheckerModel {
        CheckerModel { hovers: self.hovers.push(HoverModel { ty, name, span }), ..self }
    }

    pub open spec fn define(self, d: DefinitionInfo) -> CheckerModel {
        CheckerModel { definitions: self.definitions.push(d), ..self }
    }

    pub open spec fn with_stack(self, stack: StackModel) -> CheckerModel {
        CheckerModel { stack, ..self }
    }

    pub open spec fn with_function(self, function: Option<FunctionModel>) -> CheckerModel {
        CheckerModel { function, ..self }
    }

    pub open spec fn mark_used(self, declared_at: Span) -> CheckerModel {
        CheckerModel { used: self.used.push(declared_at), ..self }
    }
}

/// The model of an optional type.
pub open spec fn option_view(t: Option<Type>) -> Option<TypeModel> {
    match t {
        Some(t) => Some(t@),
        None => None,
    }
}

impl View for SemanticChecker {
    type V = CheckerModel;

    closed spec fn view(&self) -> CheckerModel {
        CheckerModel {
            stack: self.stack@,
            errors: self.errors@.map_values(|e: CheckError| e@),
            hovers: self.hovers@.map_values(|h: HoverInfo| h@),
            definitions: self.definitions@,
            function: match self.current_function_declaration {
                Some(f) => Some(f@),
                None => None,
            },
            types: self.type_definitions@.map_values(|d: TypeDefinition| d@),
            used: self.used_variables@,
        }
    }
}

impl SemanticChecker {
    /// A checker in the global scope, with nothing reported and no user types.
    pub fn new() -> (r: SemanticChecker)
        ensures
            r@ == (CheckerModel {
                stack: StackModel { scopes: seq![Seq::empty()], breakable: 0, continuable: 0 },
                errors: Seq::empty(),
                hovers: Seq::empty(),
                definitions: Seq::empty(),
                function: None,
                types: Seq::empty(),
                used: Seq::empty(),
            }),
            r@.wf(),
    {
        let r = SemanticChecker {
            stack: Stack::new(),
            errors: Vec::new(),
            hovers: Vec::new(),
            definitions: Vec::new(),
            current_function_declaration: None,
            type_definitions: Vec::new(),
            used_variables: Vec::new(),
        };
        assert(r@.errors =~= Seq::empty());
        assert(r@.hovers =~= Seq::empty());
        assert(r@.types =~= Seq::empty());
        r
    }

    /// Makes a struct or enum declaration known to the checker.
    pub fn define_type(&mut self, definition: TypeDefinition)
        ensures
            final(self)@ == (CheckerModel { types: old(self)@.types.push(definition@), ..old(self)@ }),
    {
        let ghost d = definition@;
        self.type_definitions.push(definition);
        assert(self@.types =~= old(self)@.types.push(d));
    }

    /// The problems reported so far, in order.
    pub fn errors(&self) -> (r: &Vec<CheckError>)
        ensures
            r@.map_values(|e: CheckError| e@) == self@.errors,
    {
        &self.errors
    }

    /// The hover information gathered so far, in order.
    pub fn hovers(&self) -> (r: &Vec<HoverInfo>)
        ensures
            r@.map_values(|h: HoverInfo| h@) == self@.hovers,
    {
        &self.hovers
    }

    /// The links from uses to declarations gathered so far, in order.
    pub fn definitions(&self) -> (r: &Vec<DefinitionInfo>)
        ensures
            r@ == self@.definitions,
    {
        &self.definitions
    }

    /// The number of scopes open, the global one included.
    pub fn scope_depth(&self) -> (r: usize)
        ensures
            r == self@.stack.scopes.len(),
    {
        self.stack.size()
    }

    /// The variable that a name denotes here, if any.
    pub fn find_variable(&self, name: &String) -> (r: Option<&crate::stack::Variable>)
        ensures
            match r {
                Some(v) => crate::stack::lookup(self@.stack.scopes, name@) == Some(v@),
                None => crate::stack::lookup(self@.stack.scopes, name@) is None,
            },
    {
        self.stack.find_variable(name)
    }

    pub(crate) fn stack(&self) -> (r: &Stack)
        ensures
            r@ == self@.stack,
    {
        &self.stack
    }

    pub(crate) fn report(&mut self, e: CheckError)
        ensures
            final(self)@ == old(self)@.report(e@),
    {
        let ghost em = e@;
        self.errors.push(e);
        assert(self@.errors =~= old(self)@.errors.push(em));
    }

    pub(crate) fn push_hover(&mut self, ty: Type, name: String, span: Span)
        ensures
            final(self)@ == old(self)@.hover(ty@, name@, span),
    {
        let h = HoverInfo { ty, name, span };
        let ghost hm = h@;
        self.hovers.push(h);
        assert(self@.hovers =~= old(self)@.hovers.push(hm));
    }

    pub(crate) fn push_definition(&mut self, d: DefinitionInfo)
        ensures
            final(self)@ == old(self)@.define(d),
    {
        self.definitions.push(d);
    }

    pub(crate) fn push_scope(&mut self)
        ensures
            final(self)@ == old(self)@.with_stack(old(self)@.stack.push_scope()),
    {
        self.stack.push_scope();
    }

    pub(crate) fn pop_scope(&mut self)
        requires
            old(self)@.wf(),
        ensures
            final(self)@ == old(self)@.with_stack(old(self)@.stack.pop_scope()),
            final(self)@.wf(),
    {
        self.stack.pop_scope();
    }

    pub(crate) fn enter_breakable(&mut self)
        ensures
            final(self)@ == old(self)@.with_stack(old(self)@.stack.enter_breakable()),
    {
        self.stack.enter_breakable();
    }

    pub(crate) fn exit_breakable(&mut self)
        ensures
            final(self)@ == old(self)@.with_stack(old(self)@.stack.exit_breakable()),
    {
        self.stack.exit_breakable();
    }

    pub(crate) fn enter_continuable(&mut self)
        ensures
            final(self)@ == old(self)@.with_stack(old(self)@.stack.enter_continuable()),
    {
        self.stack.enter_continuable();
    }

    pub(crate) fn exit_continuable(&mut self)
        ensures
            final(self)@ == old(self)@.with_stack(old(self)@.stack.exit_continuable()),
    {
        self.stack.exit_continuable();
    }

    pub(crate) fn current_function(&self) -> (r: Option<FunctionSignature>)
        ensures
            (match r {
                Some(f) => Some(f@),
                None => None,
            }) == self@.function,
    {
        match &self.current_function_declaration {
            Some(f) => Some(f.duplicate()),
            None => None,
        }
    }

    pub(crate) fn set_current_function(&mut self, f: Option<FunctionSignature>)
        ensures
            final(self)@ == old(self)@.with_function(
                match f {
                    Some(f) => Some(f@),
                    None => None,
                },
            ),
    {
        self.current_function_declaration = f;
    }

    /// Declares a variable in the innermost scope; a refusal is reported at `report_span`.
    pub(crate) fn declare_or_report(&mut self, name: &String, ty: Type, span: Span, report_span: Span)
        requires
            old(self)@.wf(),
        ensures
            final(self)@ == declare_or_report(old(self)@, name@, ty@, span, report_span),
            final(self)@.wf(),
    {
        match self.stack.declare_variable(name, ty, span) {
            Ok(()) => {},
            Err(e) => {
                self.report(Diagnostic::high(ErrorKind::Stack(e), report_span));
            },
        }
    }

    /// Declares a variable in the innermost scope.
    pub(crate) fn declare(&mut self, name: &String, ty: Type, span: Span) -> (r: Result<(), StackError<String, Type>>)
        requires
            old(self)@.wf(),
        ensures
            final(self)@ == old(self)@.with_stack(old(self)@.stack.declare(name@, ty@, span).0),
            result_view(r) == old(self)@.stack.declare(name@, ty@, span).1,
            final(self)@.wf(),
    {
        self.stack.declare_variable(name, ty, span)
    }

    /// A copy of the variants of the enum of that name; none when no enum has that name.
    pub(crate) fn enum_variants(&self, name: &String) -> (r: Vec<EnumVariant>)
        ensures
            variants_view(r@) == enum_variants(self@.types, name@),
    {
        let mut r: Vec<EnumVariant> = Vec::new();
        match self.find_type(name) {
            Some(i) => match &self.type_definitions[i] {
                TypeDefinition::Enum { variants, .. } => {
                    let ghost vs = variants@;
                    let mut j: usize = 0;
                    while j < variants.len()
                        invariant
                            j <= vs.len(),
                            vs == variants@,
                            variants_view(r@) =~= variants_view(vs.take(j as int)),
                        decreases vs.len() - j,
                    {
                        let d = variants[j].duplicate();
                        let ghost before = r@;
                        r.push(d);
                        assert(variants_view(r@) =~= variants_view(before).push(vs[j as int]@));
                        assert(vs.take(j + 1) =~= vs.take(j as int).push(vs[j as int]));
                        assert(variants_view(vs.take(j + 1)) =~= variants_view(vs.take(j as int)).push(vs[j as int]@));
                        j = j + 1;
                    }
                    assert(vs.take(vs.len() as int) =~= vs);
                },
                TypeDefinition::Struct { .. } => {},
            },
            None => {},
        }
        proof {
            assert(variants_view(Seq::<EnumVariant>::empty()) =~= Seq::<crate::types::EnumVariantModel>::empty());
        }
        r
    }

    /// The type that an expression produced, if any; the variables it reads
    /// are recorded as used.
    pub fn visit_expression(&mut self, e: &Node<Expression>) -> (r: Option<Type>)
        ensures
            final(self)@ == visit_expr(old(self)@, *e),
            final(self)@.stack == old(self)@.stack,
            option_view(r) == expr_type(*e),
    {
        proof {
            crate::semantics::lemma_visit_expr(self@, *e);
        }
        let ghost m0 = self@;
        let reads = &e.value.reads;
        let mut i: usize = 0;
        while i < reads.len()
            invariant
                i <= reads@.len(),
                reads == &e.value.reads,
                self@ == use_names(m0, reads@, i as nat),
            decreases reads@.len() - i,
        {
            match self.stack.get_variable_declaration_span(&reads[i]) {
                Some(declared_at) => {
                    self.used_variables.push(declared_at);
                },
                None => {},
            }
            i = i + 1;
        }
        match &e.value.resolved {
            Some(t) => Some(t.duplicate()),
            None => None,
        }
    }

    /// Whether the variable declared at that place has been read.
    fn is_used(&self, declared_at: Span) -> (r: bool)
        ensures
            r == self@.used.contains(declared_at),
    {
        let mut i: usize = 0;
        while i < self.used_variables.len()
            invariant
                i <= self.used_variables@.len(),
                forall|j: int| 0 <= j < i ==> self.used_variables@[j] != declared_at,
            decreases self.used_variables@.len() - i,
        {
            if self.used_variables[i] == declared_at {
                return true;
            }
            i = i + 1;
        }
        false
    }

    /// Warns of every variable of the innermost scope that has not been read.
    pub fn unused_variables_in_last_scope_warn(&mut self)
        requires
            old(self)@.wf(),
        ensures
            final(self)@ == warn_unused(old(self)@),
            final(self)@.wf(),
    {
        let ghost m0 = self@;
        let n = self.stack.top_len();
        let mut k: usize = 0;
        while k < n
            invariant
                k <= n,
                n == m0.stack.top().len(),
                self@ == warn_unused_prefix(m0, m0.stack.top(), k as nat),
                self@.stack == m0.stack,
                self@.used == m0.used,
                self@.wf(),
            decreases n - k,
        {
            let (name, declared_at) = self.stack.top_variable(k);
            if !self.is_used(declared_at) {
                self.report(Diagnostic { severity: Severity::Low, kind: ErrorKind::UnusedVariable { name }, span: declared_at });
            }
            k = k + 1;
        }
    }

    /// The first user type declaration of that name.
    fn find_type(&self, name: &String) -> (r: Option<usize>)
        ensures
            match r {
                Some(i) => i < self.type_definitions@.len() && find_type(self@.types, name@)
                    == Some(self@.types[i as int]),
                None => find_type(self@.types, name@) is None,
            },
    {
        let ghost ts = self@.types;
        let mut i: usize = 0;
        assert(ts.skip(0) =~= ts);
        while i < self.type_definitions.len()
            invariant
                i <= self.type_definitions@.len(),
                ts == self@.types,
                find_type(ts.skip(i as int), name@) == find_type(ts, name@),
            decreases self.type_definitions@.len() - i,
        {
            proof {
                assert(ts.skip(i as int)[0] == ts[i as int]);
                assert(ts.skip(i as int).drop_first() =~= ts.skip(i + 1));
            }
            let found = match &self.type_definitions[i] {
                TypeDefinition::Struct { name: n } => *n == *name,
                TypeDefinition::Enum { name: n, .. } => *n == *name,
            };
            if found {
                return Some(i);
            }
            i = i + 1;
        }
        None
    }

    /// Resolves a written type: named types become the struct or enum they name.
    /// An unknown name is reported at `span` and handed back.
    pub fn resolve_type_fully_checked(&mut self, t: &Type, span: Span) -> (r: Result<Type, CheckError>)
        ensures
            final(self)@ == resolve_checked(old(self)@, t@, span).0,
            (match r {
                Ok(ty) => Ok(ty@),
                Err(e) => Err(e@),
            }) == resolve_checked(old(self)@, t@, span).1,
    {
        match self.resolve_type(t) {
            Ok(ty) => Ok(ty),
            Err(name) => {
                let e = Diagnostic::high(ErrorKind::UnknownType { name: name.clone() }, span);
                self.report(Diagnostic::high(ErrorKind::UnknownType { name }, span));
                Err(e)
            },
        }
    }

    fn resolve_type(&self, t: &Type) -> (r: Result<Type, String>)
        ensures
            (match r {
                Ok(ty) => Ok(ty@),
                Err(name) => Err(name@),
            }) == resolve(self@.types, t@),
        decreases t,
    {
        match t {
            Type::Named(name) => match self.find_type(name) {
                Some(i) => match &self.type_definitions[i] {
                    TypeDefinition::Struct { .. } => Ok(Type::Struct(name.clone())),
                    TypeDefinition::Enum { .. } => Ok(Type::Enum(name.clone())),
                },
                None => Err(name.clone()),
            },
            Type::Vector(inner) => match self.resolve_type(&**inner) {
                Ok(r) => Ok(Type::Vector(Box::new(r))),
                Err(name) => Err(name),
            },
            _ => Ok(t.duplicate()),
        }
    }

    /// Resolves the type written at a node; `None` when it is unknown.
    pub fn visit_type(&mut self, t: &Node<Type>) -> (r: Option<Type>)
        ensures
            final(self)@ == visit_type(old(self)@, *t).0,
            option_view(r) == visit_type(old(self)@, *t).1,
    {
        match self.resolve_type_fully_checked(&t.value, t.span) {
            Ok(ty) => Some(ty),
            Err(_) => None,
        }
    }

    /// Reports a condition of a known type other than `bool`.
    pub(crate) fn check_condition(&mut self, condition: &Node<Expression>, context: ConditionContext)
        ensures
            final(self)@ == check_condition(old(self)@, *condition, context),
    {
        match self.visit_expression(condition) {
            Some(t) => {
                if !t.is_bool() {
                    self.report(
                        Diagnostic::high(ErrorKind::ConditionNotBool { context, actual: t }, condition.span),
                    );
                }
            },
            None => {},
        }
    }

    /// Reports a declared type that refuses the value's type.
    pub(crate) fn check_value_type(&mut self, name: &String, declared: &Type, actual: &Type, span: Span)
        ensures
            final(self)@ == check_value_type(old(self)@, name@, declared@, actual@, span),
    {
        if !declared.is_compatible(actual) {
            self.report(
                Diagnostic::high(
                    ErrorKind::DeclarationTypeMismatch {
                        name: name.clone(),
                        declared: declared.duplicate(),
                        actual: actual.duplicate(),
                    },
                    span,
                ),
            );
        }
    }
}

} // verus!
