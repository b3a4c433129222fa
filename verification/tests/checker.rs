use lib::ast::{
    Block, Expression, FunctionDeclaration, MatchArm, Node, Parameter, Span, Statement, SwitchCase,
    SwitchExpression, VariableDeclarationKind,
};
use lib::checker::{DefinitionInfo, SemanticChecker};
use lib::errors::{CheckError, ConditionContext, Diagnostic, ErrorKind, Severity, StackError};
use lib::types::{EnumVariant, Type, TypeDefinition};

fn sp(n: usize) -> Span {
    Span { start: n, end: n + 1 }
}

fn ident(s: &str, at: usize) -> Node<String> {
    Node { value: s.to_string(), span: sp(at) }
}

fn expr(t: Option<Type>, at: usize) -> Node<Expression> {
    Node { value: Expression { resolved: t, reads: vec![], failure: None }, span: sp(at) }
}

/// An expression of type `t` that reads the named variables.
fn expr_reading(t: Option<Type>, names: &[&str], at: usize) -> Node<Expression> {
    Node { value: Expression { resolved: t, reads: names.iter().map(|n| n.to_string()).collect(), failure: None }, span: sp(at) }
}

fn ty(t: Type, at: usize) -> Node<Type> {
    Node { value: t, span: sp(at) }
}

fn st(s: Statement, at: usize) -> Node<Statement> {
    Node { value: s, span: sp(at) }
}

fn blk(statements: Vec<Node<Statement>>, at: usize) -> Block {
    Block { statements, span: sp(at) }
}

fn vec_of(t: Type) -> Type {
    Type::Vector(Box::new(t))
}

fn named(s: &str) -> Type {
    Type::Named(s.to_string())
}

fn high(kind: ErrorKind<String, Type>, at: usize) -> CheckError {
    Diagnostic { severity: Severity::High, kind, span: sp(at) }
}

/// `T name = value;` (`value` is `None` for `T name;`).
fn typed_decl(name: &str, t: Type, value: Option<Option<Type>>, at: usize) -> Node<Statement> {
    st(
        Statement::Declaration {
            identifier: ident(name, at + 1),
            kind: VariableDeclarationKind::Typed {
                var_type: ty(t, at + 2),
                value: value.map(|v| expr(v, at + 3)),
            },
        },
        at,
    )
}

/// `let name: T = value;` / `let name = value;`
fn let_decl(name: &str, t: Option<Type>, value: Option<Type>, at: usize) -> Node<Statement> {
    st(
        Statement::Declaration {
            identifier: ident(name, at + 1),
            kind: VariableDeclarationKind::Let {
                var_type: t.map(|t| ty(t, at + 2)),
                value: expr(value, at + 3),
            },
        },
        at,
    )
}

/// `name = value;`
fn assign(name: &str, value: Option<Type>, at: usize) -> Node<Statement> {
    st(
        Statement::Assignment { identifier: ident(name, at + 1), accessors: vec![], value: expr(value, at + 2) },
        at,
    )
}

/// `name[i]...[k] = value;`
fn index_assign(name: &str, indices: Vec<Option<Type>>, value: Option<Type>, at: usize) -> Node<Statement> {
    let accessors = indices.into_iter().enumerate().map(|(k, t)| expr(t, at + 10 + k)).collect();
    st(Statement::Assignment { identifier: ident(name, at + 1), accessors, value: expr(value, at + 2) }, at)
}

fn while_loop(condition: Option<Type>, body: Vec<Node<Statement>>, at: usize) -> Node<Statement> {
    st(Statement::WhileLoop { condition: expr(condition, at + 1), block: blk(body, at + 2) }, at)
}

fn if_else(condition: Option<Type>, then: Vec<Node<Statement>>, otherwise: Option<Vec<Node<Statement>>>, at: usize) -> Node<Statement> {
    st(
        Statement::Conditional {
            condition: expr(condition, at + 1),
            if_block: blk(then, at + 2),
            else_block: otherwise.map(|b| blk(b, at + 3)),
        },
        at,
    )
}

fn for_loop(
    declaration: Option<Node<Statement>>,
    condition: Option<Type>,
    assignment: Option<Node<Statement>>,
    body: Vec<Node<Statement>>,
    at: usize,
) -> Node<Statement> {
    st(
        Statement::ForLoop {
            declaration: declaration.map(Box::new),
            condition: expr(condition, at + 1),
            assignment: assignment.map(Box::new),
            block: blk(body, at + 2),
        },
        at,
    )
}

fn func(name: &str, params: Vec<(&str, Type)>, ret: Type, body: Vec<Node<Statement>>, at: usize) -> Node<Statement> {
    let parameters = params
        .into_iter()
        .enumerate()
        .map(|(k, (n, t))| Parameter { identifier: ident(n, at + 10 + 2 * k), param_type: ty(t, at + 11 + 2 * k) })
        .collect();
    st(
        Statement::Function(FunctionDeclaration {
            identifier: ident(name, at + 1),
            parameters,
            return_type: ty(ret, at + 2),
            body: blk(body, at + 3),
        }),
        at,
    )
}

fn ret(value: Option<Option<Type>>, at: usize) -> Node<Statement> {
    st(Statement::Return(value.map(|v| expr(v, at + 1))), at)
}

fn call(t: Option<Type>, at: usize) -> Node<Statement> {
    st(Statement::Expression(expr(t, at + 1)), at)
}

fn arm(enum_name: &str, variant: &str, binding: Option<&str>, body: Vec<Node<Statement>>, at: usize) -> Node<MatchArm> {
    Node {
        value: MatchArm {
            enum_name: ident(enum_name, at + 1),
            variant_name: ident(variant, at + 2),
            variant_value: binding.map(|b| ident(b, at + 3)),
            block: blk(body, at + 4),
        },
        span: sp(at),
    }
}

fn match_on(subject: Option<Type>, arms: Vec<Node<MatchArm>>, rest: Option<Vec<Node<Statement>>>, at: usize) -> Node<Statement> {
    st(
        Statement::Match {
            expression: expr(subject, at + 1),
            match_arms: arms,
            rest_arm: rest.map(|b| blk(b, at + 2)),
        },
        at,
    )
}

fn program(statements: Vec<Node<Statement>>) -> Block {
    blk(statements, 0)
}

/// A checker that knows `enum Shape { Circle(f64), Square(f64), Dot }` and `struct Point`.
fn checker_with_shapes() -> SemanticChecker {
    let mut c = SemanticChecker::new();
    c.define_type(TypeDefinition::Enum {
        name: "Shape".to_string(),
        variants: vec![
            EnumVariant { name: "Circle".to_string(), payload: Some(Type::F64) },
            EnumVariant { name: "Square".to_string(), payload: Some(Type::F64) },
            EnumVariant { name: "Dot".to_string(), payload: None },
        ],
    });
    c.define_type(TypeDefinition::Struct { name: "Point".to_string() });
    c
}

fn shape() -> Option<Type> {
    Some(Type::Enum("Shape".to_string()))
}

/// The statements of the `buckets` program, with the types the expression
/// checker gives its expressions; the program must pass the statement checker
/// without diagnostics (running it, which prints "20", is the interpreter's
/// business).
#[test]
fn buckets() {
    let mut c = SemanticChecker::new();
    // struct Bucket { i64[] items, str label };
    c.define_type(TypeDefinition::Struct { name: "Bucket".to_string() });
    let bucket = || Type::Struct("Bucket".to_string());
    let program = program(vec![
        // fn make_bucket(i64 n): Bucket { ... }
        func(
            "make_bucket",
            vec![("n", Type::I64)],
            named("Bucket"),
            vec![
                let_decl("items", Some(vec_of(Type::I64)), Some(vec_of(Type::Void)), 100),
                let_decl("i", Some(Type::I64), Some(Type::I64), 110),
                while_loop(
                    Some(Type::Bool),
                    vec![call(Some(Type::Void), 130), assign("i", Some(Type::I64), 140)],
                    120,
                ),
                ret(Some(Some(bucket())), 150),
            ],
            50,
        ),
        // fn sum_items(Bucket[] b): i64 { ... }
        func(
            "sum_items",
            vec![("b", vec_of(named("Bucket")))],
            Type::I64,
            vec![
                let_decl("total", Some(Type::I64), Some(Type::I64), 300),
                let_decl("i", Some(Type::I64), Some(Type::I64), 310),
                while_loop(
                    Some(Type::Bool),
                    vec![
                        let_decl("bucket", Some(named("Bucket")), Some(bucket()), 330),
                        let_decl("j", Some(Type::I64), Some(Type::I64), 340),
                        while_loop(
                            Some(Type::Bool),
                            vec![assign("total", Some(Type::I64), 360), assign("j", Some(Type::I64), 370)],
                            350,
                        ),
                        assign("i", Some(Type::I64), 380),
                    ],
                    320,
                ),
                ret(Some(Some(Type::I64)), 390),
            ],
            250,
        ),
        // fn main(): void { ... }
        func(
            "main",
            vec![],
            Type::Void,
            vec![
                let_decl("buckets", Some(vec_of(named("Bucket"))), Some(vec_of(Type::Void)), 500),
                let_decl("k", Some(Type::I64), Some(Type::I64), 510),
                while_loop(
                    Some(Type::Bool),
                    vec![
                        let_decl("b", Some(named("Bucket")), Some(bucket()), 530),
                        call(Some(Type::Void), 540),
                        assign("k", Some(Type::I64), 550),
                    ],
                    520,
                ),
                let_decl("result", Some(Type::I64), Some(Type::I64), 560),
                call(Some(Type::Void), 570),
            ],
            450,
        ),
        // main();
        call(Some(Type::Void), 600),
    ]);
    c.check_program(&program);
    assert_eq!(c.errors().len(), 0, "{:?}", c.errors());
    assert_eq!(c.scope_depth(), 1);
    let result_hover = c.hovers().iter().find(|h| h.name == "result").unwrap();
    assert_eq!(result_hover.ty, Type::I64);
    let bucket_hover = c.hovers().iter().find(|h| h.name == "bucket").unwrap();
    assert_eq!(bucket_hover.ty, Type::Struct("Bucket".to_string()));
}

#[test]
fn typed_declaration_is_declared_and_hovered() {
    let mut c = SemanticChecker::new();
    c.check_program(&program(vec![typed_decl("x", Type::I64, Some(Some(Type::I64)), 10), assign("x", Some(Type::I64), 20)]));
    assert!(c.errors().is_empty());
    let v = c.find_variable(&"x".to_string()).unwrap();
    assert_eq!(v.ty, Type::I64);
    assert_eq!(v.span, sp(11));
    assert_eq!(c.hovers().len(), 2);
    assert_eq!(c.hovers()[0].ty, Type::I64);
    assert_eq!(c.hovers()[0].span, sp(11));
    assert_eq!(c.definitions(), &vec![DefinitionInfo { def_span: sp(11), use_span: sp(21) }]);
}

#[test]
fn typed_declaration_without_value() {
    let mut c = SemanticChecker::new();
    c.check_program(&program(vec![typed_decl("s", Type::Str, None, 10)]));
    assert!(c.errors().is_empty());
    assert_eq!(c.find_variable(&"s".to_string()).unwrap().ty, Type::Str);
}

#[test]
fn typed_declaration_type_mismatch() {
    let mut c = SemanticChecker::new();
    c.check_program(&program(vec![typed_decl("x", Type::I64, Some(Some(Type::Str)), 10)]));
    assert_eq!(
        c.errors(),
        &vec![high(
            ErrorKind::DeclarationTypeMismatch { name: "x".to_string(), declared: Type::I64, actual: Type::Str },
            10,
        )]
    );
    // The variable is still declared, with its declared type.
    assert_eq!(c.find_variable(&"x".to_string()).unwrap().ty, Type::I64);
}

#[test]
fn declared_vector_accepts_empty_vector() {
    let mut c = SemanticChecker::new();
    c.check_program(&program(vec![
        typed_decl("v", vec_of(Type::I64), Some(Some(vec_of(Type::Void))), 10),
        let_decl("w", Some(vec_of(vec_of(Type::Str))), Some(vec_of(Type::Void)), 20),
    ]));
    assert!(c.errors().is_empty());
    assert_eq!(c.find_variable(&"w".to_string()).unwrap().ty, vec_of(vec_of(Type::Str)));
}

#[test]
fn typed_declaration_value_without_result() {
    let mut c = SemanticChecker::new();
    c.check_program(&program(vec![typed_decl("x", Type::I64, Some(None), 10)]));
    assert!(c.errors().is_empty());
    assert!(c.find_variable(&"x".to_string()).is_none());
    assert_eq!(c.hovers()[0].ty, Type::Void);
}

#[test]
fn unknown_declared_type() {
    let mut c = SemanticChecker::new();
    c.check_program(&program(vec![typed_decl("p", named("Nowhere"), Some(Some(Type::I64)), 10)]));
    assert_eq!(c.errors(), &vec![high(ErrorKind::UnknownType { name: "Nowhere".to_string() }, 12)]);
    assert!(c.find_variable(&"p".to_string()).is_none());
    assert!(c.hovers().is_empty());
}

#[test]
fn declared_struct_type_is_resolved() {
    let mut c = checker_with_shapes();
    c.check_program(&program(vec![
        let_decl("p", Some(named("Point")), Some(Type::Struct("Point".to_string())), 10),
        let_decl("q", Some(vec_of(named("Shape"))), Some(vec_of(Type::Void)), 20),
    ]));
    assert!(c.errors().is_empty());
    assert_eq!(c.find_variable(&"p".to_string()).unwrap().ty, Type::Struct("Point".to_string()));
    assert_eq!(c.find_variable(&"q".to_string()).unwrap().ty, vec_of(Type::Enum("Shape".to_string())));
}

#[test]
fn let_infers_value_type() {
    let mut c = SemanticChecker::new();
    c.check_program(&program(vec![let_decl("b", None, Some(Type::Bool), 10)]));
    assert!(c.errors().is_empty());
    assert_eq!(c.find_variable(&"b".to_string()).unwrap().ty, Type::Bool);
    assert_eq!(c.hovers()[0].ty, Type::Bool);
}

#[test]
fn let_cannot_infer_empty_vector() {
    let mut c = SemanticChecker::new();
    c.check_program(&program(vec![let_decl("v", None, Some(vec_of(Type::Void)), 10)]));
    assert_eq!(c.errors(), &vec![high(ErrorKind::EmptyVectorInference { name: "v".to_string() }, 10)]);
    assert!(c.find_variable(&"v".to_string()).is_none());
}

#[test]
fn let_refuses_void_value() {
    let mut c = SemanticChecker::new();
    c.check_program(&program(vec![let_decl("v", None, Some(Type::Void), 10)]));
    assert_eq!(c.errors(), &vec![high(ErrorKind::VoidAssignment { name: "v".to_string() }, 10)]);
    assert!(c.find_variable(&"v".to_string()).is_none());
}

#[test]
fn let_without_result_hovers_void() {
    let mut c = SemanticChecker::new();
    c.check_program(&program(vec![let_decl("v", None, None, 10)]));
    assert!(c.errors().is_empty());
    assert_eq!(c.hovers()[0].ty, Type::Void);
}

#[test]
fn let_with_type_mismatch() {
    let mut c = SemanticChecker::new();
    c.check_program(&program(vec![let_decl("x", Some(Type::Bool), Some(Type::F64), 10)]));
    assert_eq!(
        c.errors(),
        &vec![high(
            ErrorKind::DeclarationTypeMismatch { name: "x".to_string(), declared: Type::Bool, actual: Type::F64 },
            10,
        )]
    );
    assert_eq!(c.find_variable(&"x".to_string()).unwrap().ty, Type::Bool);
}

#[test]
fn redeclaration_in_same_scope_is_refused() {
    let mut c = SemanticChecker::new();
    c.check_program(&program(vec![let_decl("x", None, Some(Type::I64), 10), let_decl("x", None, Some(Type::Str), 20)]));
    assert_eq!(
        c.errors(),
        &vec![high(ErrorKind::Stack(StackError::AlreadyDeclared { name: "x".to_string() }), 20)]
    );
    assert_eq!(c.find_variable(&"x".to_string()).unwrap().ty, Type::I64);
}

#[test]
fn shadowing_in_inner_block() {
    let mut c = SemanticChecker::new();
    c.check_program(&program(vec![
        let_decl("x", None, Some(Type::I64), 10),
        if_else(Some(Type::Bool), vec![let_decl("x", None, Some(Type::Str), 30), assign("x", Some(Type::Str), 40)], None, 20),
        assign("x", Some(Type::I64), 50),
    ]));
    assert!(c.errors().is_empty(), "{:?}", c.errors());
    assert_eq!(c.find_variable(&"x".to_string()).unwrap().ty, Type::I64);
    // The assignment inside the block links to the inner declaration.
    assert_eq!(c.definitions()[0], DefinitionInfo { def_span: sp(31), use_span: sp(41) });
    assert_eq!(c.definitions()[1], DefinitionInfo { def_span: sp(11), use_span: sp(51) });
}

#[test]
fn block_declarations_do_not_outlive_the_block() {
    let mut c = SemanticChecker::new();
    c.check_program(&program(vec![
        while_loop(Some(Type::Bool), vec![let_decl("inner", None, Some(Type::I64), 30)], 20),
        assign("inner", Some(Type::I64), 50),
    ]));
    assert_eq!(
        c.errors(),
        &vec![high(ErrorKind::Stack(StackError::Undeclared { name: "inner".to_string() }), 50)]
    );
    assert_eq!(c.scope_depth(), 1);
    assert!(c.definitions().is_empty());
}

#[test]
fn assignment_without_value_is_reported_and_handed_back() {
    let mut c = SemanticChecker::new();
    let s = assign("x", None, 10);
    let r = c.check_assignment(&s);
    let expected = high(ErrorKind::NoValueProduced { name: "x".to_string() }, 10);
    assert_eq!(r, Err(expected));
    assert_eq!(c.errors(), &vec![high(ErrorKind::NoValueProduced { name: "x".to_string() }, 10)]);
    assert!(c.hovers().is_empty());
}

#[test]
fn assignment_type_mismatch() {
    let mut c = SemanticChecker::new();
    c.check_program(&program(vec![let_decl("x", None, Some(Type::I64), 10), assign("x", Some(Type::Str), 20)]));
    assert_eq!(
        c.errors(),
        &vec![high(
            ErrorKind::Stack(StackError::TypeMismatch { name: "x".to_string(), expected: Type::I64, actual: Type::Str }),
            20,
        )]
    );
    // The hover shows the assigned value's type, and the use is still linked.
    assert_eq!(c.hovers()[1].ty, Type::Str);
    assert_eq!(c.definitions().len(), 1);
}

#[test]
fn assignment_of_empty_vector_to_vector_variable() {
    let mut c = SemanticChecker::new();
    c.check_program(&program(vec![let_decl("v", Some(vec_of(Type::I64)), Some(vec_of(Type::I64)), 10), assign("v", Some(vec_of(Type::Void)), 20)]));
    assert!(c.errors().is_empty());
}

#[test]
fn index_assignment_checks() {
    let mut c = SemanticChecker::new();
    c.check_program(&program(vec![
        let_decl("grid", Some(vec_of(vec_of(Type::I64))), Some(vec_of(Type::Void)), 10),
        index_assign("grid", vec![Some(Type::I64), Some(Type::I64)], Some(Type::I64), 100),
        index_assign("grid", vec![Some(Type::I64)], Some(vec_of(Type::Void)), 200),
        index_assign("grid", vec![Some(Type::Str)], Some(vec_of(Type::I64)), 300),
        index_assign("grid", vec![Some(Type::I64), Some(Type::I64), Some(Type::I64)], Some(Type::I64), 400),
        index_assign("grid", vec![Some(Type::I64), Some(Type::I64)], Some(Type::Bool), 500),
        index_assign("nothing", vec![Some(Type::I64)], Some(Type::I64), 600),
    ]));
    assert_eq!(
        c.errors(),
        &vec![
            high(ErrorKind::IndexNotInteger { actual: Type::Str }, 310),
            high(ErrorKind::NotIndexable { name: "grid".to_string(), actual: Type::I64 }, 400),
            high(
                ErrorKind::Stack(StackError::TypeMismatch {
                    name: "grid".to_string(),
                    expected: Type::I64,
                    actual: Type::Bool,
                }),
                500,
            ),
            high(ErrorKind::Stack(StackError::Undeclared { name: "nothing".to_string() }), 600),
        ]
    );
}

#[test]
fn conditions_must_be_bool() {
    let mut c = SemanticChecker::new();
    let case = Node {
        value: SwitchCase { condition: expr(Some(Type::Str), 81), block: blk(vec![], 82) },
        span: sp(80),
    };
    c.check_program(&program(vec![
        if_else(Some(Type::I64), vec![], Some(vec![]), 10),
        while_loop(Some(Type::F64), vec![], 20),
        for_loop(None, Some(vec_of(Type::Bool)), None, vec![], 30),
        st(Statement::Switch { expressions: vec![], cases: vec![case] }, 70),
        if_else(Some(Type::Bool), vec![], None, 90),
        while_loop(None, vec![], 95),
    ]));
    assert_eq!(
        c.errors(),
        &vec![
            high(ErrorKind::ConditionNotBool { context: ConditionContext::If, actual: Type::I64 }, 11),
            high(ErrorKind::ConditionNotBool { context: ConditionContext::While, actual: Type::F64 }, 21),
            high(ErrorKind::ConditionNotBool { context: ConditionContext::ForLoop, actual: vec_of(Type::Bool) }, 31),
            high(ErrorKind::ConditionNotBool { context: ConditionContext::SwitchCase, actual: Type::Str }, 81),
        ]
    );
}

#[test]
fn else_block_is_checked() {
    let mut c = SemanticChecker::new();
    c.check_program(&program(vec![if_else(Some(Type::Bool), vec![], Some(vec![st(Statement::Break, 40)]), 10)]));
    assert_eq!(c.errors(), &vec![high(ErrorKind::BreakOutsideLoop, 40)]);
}

#[test]
fn break_and_continue_outside_loops() {
    let mut c = SemanticChecker::new();
    c.check_program(&program(vec![st(Statement::Break, 10), st(Statement::Continue, 20)]));
    assert_eq!(
        c.errors(),
        &vec![high(ErrorKind::BreakOutsideLoop, 10), high(ErrorKind::ContinueOutsideLoop, 20)]
    );
}

#[test]
fn break_and_continue_inside_loops() {
    let mut c = SemanticChecker::new();
    c.check_program(&program(vec![
        while_loop(Some(Type::Bool), vec![st(Statement::Break, 11), st(Statement::Continue, 12)], 10),
        for_loop(None, Some(Type::Bool), None, vec![st(Statement::Break, 31), st(Statement::Continue, 32)], 30),
        while_loop(
            Some(Type::Bool),
            vec![if_else(Some(Type::Bool), vec![st(Statement::Break, 43)], None, 42)],
            40,
        ),
    ]));
    assert!(c.errors().is_empty(), "{:?}", c.errors());
    // After the loops, break is refused again.
    c.check_program(&program(vec![st(Statement::Break, 50)]));
    assert_eq!(c.errors(), &vec![high(ErrorKind::BreakOutsideLoop, 50)]);
}

#[test]
fn switch_case_accepts_break_but_not_continue() {
    let mut c = SemanticChecker::new();
    let case = Node {
        value: SwitchCase {
            condition: expr(Some(Type::Bool), 21),
            block: blk(vec![st(Statement::Break, 23), st(Statement::Continue, 24)], 22),
        },
        span: sp(20),
    };
    c.check_program(&program(vec![st(Statement::Switch { expressions: vec![], cases: vec![case] }, 10)]));
    assert_eq!(c.errors(), &vec![high(ErrorKind::ContinueOutsideLoop, 24)]);
}

#[test]
fn switch_expression_alias_is_declared() {
    let mut c = SemanticChecker::new();
    let subject = |alias: &str, t: Type, at: usize| Node {
        value: SwitchExpression { expression: expr(Some(t), at + 1), alias: Some(ident(alias, at + 2)) },
        span: sp(at),
    };
    let no_alias = Node { value: SwitchExpression { expression: expr(Some(Type::I64), 41), alias: None }, span: sp(40) };
    c.check_program(&program(vec![st(
        Statement::Switch {
            expressions: vec![subject("n", Type::I64, 20), subject("n", Type::Str, 30), no_alias],
            cases: vec![],
        },
        10,
    )]));
    assert_eq!(
        c.errors(),
        &vec![high(ErrorKind::Stack(StackError::AlreadyDeclared { name: "n".to_string() }), 30)]
    );
    assert_eq!(c.find_variable(&"n".to_string()).unwrap().ty, Type::I64);
}

#[test]
fn for_loop_variable_is_scoped_to_the_loop() {
    let mut c = SemanticChecker::new();
    c.check_program(&program(vec![
        for_loop(
            Some(let_decl("i", Some(Type::I64), Some(Type::I64), 20)),
            Some(Type::Bool),
            Some(assign("i", Some(Type::I64), 30)),
            vec![assign("i", Some(Type::I64), 40)],
            10,
        ),
        assign("i", Some(Type::I64), 50),
    ]));
    assert_eq!(
        c.errors(),
        &vec![high(ErrorKind::Stack(StackError::Undeclared { name: "i".to_string() }), 50)]
    );
    assert_eq!(c.definitions().len(), 2);
    assert_eq!(c.scope_depth(), 1);
}

#[test]
fn return_outside_function() {
    let mut c = SemanticChecker::new();
    c.check_program(&program(vec![ret(None, 10)]));
    assert_eq!(c.errors(), &vec![high(ErrorKind::ReturnOutsideFunction, 10)]);
}

#[test]
fn return_checks_against_declared_type() {
    let mut c = SemanticChecker::new();
    c.check_program(&program(vec![
        func(
            "f",
            vec![],
            Type::I64,
            vec![ret(Some(Some(Type::I64)), 100), ret(Some(Some(Type::Str)), 110), ret(None, 120)],
            10,
        ),
        func("g", vec![], Type::Void, vec![ret(None, 200), ret(Some(Some(Type::I64)), 210)], 20),
        func("h", vec![], vec_of(Type::I64), vec![ret(Some(Some(vec_of(Type::Void))), 300)], 30),
    ]));
    assert_eq!(
        c.errors(),
        &vec![
            high(
                ErrorKind::ReturnTypeMismatch { function: "f".to_string(), expected: Type::I64, actual: Type::Str },
                110,
            ),
            high(
                ErrorKind::ReturnTypeMismatch { function: "f".to_string(), expected: Type::I64, actual: Type::Void },
                120,
            ),
            high(ErrorKind::VoidFunctionReturnsValue { function: "g".to_string() }, 210),
            high(
                ErrorKind::ReturnTypeMismatch { function: "g".to_string(), expected: Type::Void, actual: Type::I64 },
                210,
            ),
        ]
    );
}

#[test]
fn return_type_is_resolved() {
    let mut c = checker_with_shapes();
    c.check_program(&program(vec![func("origin", vec![], named("Point"), vec![ret(Some(Some(Type::Struct("Point".to_string()))), 100)], 10)]));
    assert!(c.errors().is_empty(), "{:?}", c.errors());
}

#[test]
fn function_parameters_are_declared() {
    let mut c = SemanticChecker::new();
    c.check_program(&program(vec![
        func(
            "f",
            vec![("a", Type::I64), ("b", Type::Str), ("a", Type::Bool)],
            Type::Void,
            vec![assign("a", Some(Type::I64), 100), assign("b", Some(Type::Str), 110)],
            10,
        ),
        assign("a", Some(Type::I64), 200),
    ]));
    assert_eq!(
        c.errors(),
        &vec![
            high(ErrorKind::Stack(StackError::AlreadyDeclared { name: "a".to_string() }), 24),
            high(ErrorKind::Stack(StackError::Undeclared { name: "a".to_string() }), 200),
        ]
    );
    // After the function, `return` is outside any function again.
    c.check_program(&program(vec![ret(None, 300)]));
    assert_eq!(c.errors()[2], high(ErrorKind::ReturnOutsideFunction, 300));
}

#[test]
fn match_on_non_enum() {
    let mut c = checker_with_shapes();
    let r = c.check_match_statement(&match_on(Some(Type::I64), vec![], None, 10));
    assert_eq!(r, Ok(()));
    assert_eq!(c.errors(), &vec![high(ErrorKind::MatchOnNonEnum { actual: Type::I64 }, 11)]);
}

#[test]
fn match_without_value_hands_back_an_error() {
    let mut c = checker_with_shapes();
    let r = c.check_match_statement(&match_on(None, vec![], None, 10));
    assert_eq!(r, Err(high(ErrorKind::MissingResult, 11)));
    assert!(c.errors().is_empty());
}

#[test]
fn match_on_unknown_named_type() {
    let mut c = checker_with_shapes();
    let r = c.check_match_statement(&match_on(Some(named("Colour")), vec![], None, 10));
    assert_eq!(r, Err(high(ErrorKind::UnknownType { name: "Colour".to_string() }, 11)));
    assert_eq!(c.errors(), &vec![high(ErrorKind::UnknownType { name: "Colour".to_string() }, 11)]);
}

#[test]
fn exhaustive_match_is_accepted() {
    let mut c = checker_with_shapes();
    c.check_program(&program(vec![match_on(
        Some(named("Shape")),
        vec![
            arm("Shape", "Dot", None, vec![], 100),
            arm(
                "Shape",
                "Circle",
                Some("r"),
                vec![st(
                    Statement::Assignment {
                        identifier: ident("r", 161),
                        accessors: vec![],
                        value: expr_reading(Some(Type::F64), &["r"], 162),
                    },
                    160,
                )],
                150,
            ),
            arm("Shape", "Square", None, vec![], 200),
        ],
        None,
        10,
    )]));
    assert!(c.errors().is_empty(), "{:?}", c.errors());
    // The binding is hovered with the payload type and scoped to its arm.
    assert_eq!(c.hovers()[0].name, "r");
    assert_eq!(c.hovers()[0].ty, Type::F64);
    assert_eq!(c.definitions(), &vec![DefinitionInfo { def_span: sp(153), use_span: sp(161) }]);
    assert!(c.find_variable(&"r".to_string()).is_none());
    assert_eq!(c.scope_depth(), 1);
}

#[test]
fn match_reports_first_missing_variant() {
    let mut c = checker_with_shapes();
    c.check_program(&program(vec![match_on(shape(), vec![arm("Shape", "Circle", None, vec![], 100)], None, 10)]));
    assert_eq!(c.errors(), &vec![high(ErrorKind::MissingVariant { variant: "Square".to_string() }, 10)]);
}

#[test]
fn match_arm_problems() {
    let mut c = checker_with_shapes();
    c.check_program(&program(vec![match_on(
        shape(),
        vec![
            arm("Point", "Dot", None, vec![], 100),
            arm("Shape", "Dot", None, vec![], 110),
            arm("Shape", "Dot", None, vec![], 120),
            arm("Shape", "Triangle", None, vec![], 130),
        ],
        Some(vec![]),
        10,
    )]));
    assert_eq!(
        c.errors(),
        &vec![
            high(ErrorKind::MatchEnumMismatch { expected: "Shape".to_string(), actual: "Point".to_string() }, 11),
            high(ErrorKind::DuplicateMatchArm { variant: "Dot".to_string() }, 11),
            high(
                ErrorKind::UnknownVariant { enum_name: "Shape".to_string(), variant: "Triangle".to_string() },
                11,
            ),
        ]
    );
}

#[test]
fn match_binding_on_variant_without_value_stops() {
    let mut c = checker_with_shapes();
    let r = c.check_match_statement(&match_on(
        shape(),
        vec![arm("Shape", "Dot", Some("d"), vec![], 100), arm("Shape", "Oval", None, vec![], 110)],
        None,
        10,
    ));
    assert_eq!(r, Ok(()));
    // The check stops at the first arm: neither the unknown variant nor the
    // missing variants are reported.
    assert_eq!(
        c.errors(),
        &vec![high(
            ErrorKind::VariantWithoutValue { enum_name: "Shape".to_string(), variant: "Dot".to_string() },
            102,
        )]
    );
}

#[test]
fn unnecessary_rest_arm_is_a_warning() {
    let mut c = checker_with_shapes();
    c.check_program(&program(vec![match_on(
        shape(),
        vec![
            arm("Shape", "Circle", None, vec![], 100),
            arm("Shape", "Square", None, vec![], 110),
            arm("Shape", "Dot", None, vec![], 120),
        ],
        Some(vec![st(Statement::Continue, 30)]),
        10,
    )]));
    assert_eq!(
        c.errors(),
        &vec![
            Diagnostic { severity: Severity::Low, kind: ErrorKind::UnnecessaryRestArm, span: sp(12) },
            high(ErrorKind::ContinueOutsideLoop, 30),
        ]
    );
}

#[test]
fn rest_arm_covers_missing_variants() {
    let mut c = checker_with_shapes();
    c.check_program(&program(vec![match_on(shape(), vec![arm("Shape", "Dot", None, vec![], 100)], Some(vec![]), 10)]));
    assert!(c.errors().is_empty());
}

#[test]
fn match_binding_with_unknown_payload_type() {
    let mut c = SemanticChecker::new();
    c.define_type(TypeDefinition::Enum {
        name: "Wrap".to_string(),
        variants: vec![EnumVariant { name: "Item".to_string(), payload: Some(named("Missing")) }],
    });
    let r = c.check_match_statement(&match_on(
        Some(Type::Enum("Wrap".to_string())),
        vec![arm("Wrap", "Item", Some("x"), vec![], 100)],
        None,
        10,
    ));
    let e = high(ErrorKind::UnknownType { name: "Missing".to_string() }, 103);
    assert_eq!(r, Err(high(ErrorKind::UnknownType { name: "Missing".to_string() }, 103)));
    assert_eq!(c.errors(), &vec![e]);
    assert_eq!(c.scope_depth(), 1);
}

#[test]
fn checking_keeps_the_scope_depth() {
    let mut c = checker_with_shapes();
    let statements = vec![
        let_decl("x", None, Some(Type::I64), 10),
        while_loop(Some(Type::Bool), vec![let_decl("y", None, Some(Type::I64), 30)], 20),
        for_loop(Some(let_decl("i", None, Some(Type::I64), 50)), Some(Type::Bool), None, vec![], 40),
        match_on(
            shape(),
            vec![arm("Shape", "Circle", Some("r"), vec![st(Statement::Expression(expr_reading(None, &["r"], 75)), 74)], 70)],
            Some(vec![]),
            60,
        ),
        func("f", vec![("p", Type::I64)], Type::Void, vec![], 80),
    ];
    for s in statements.iter() {
        let before_errors = c.errors().len();
        let _ = c.check_statement(s);
        assert_eq!(c.scope_depth(), 1);
        assert!(c.errors().len() >= before_errors);
    }
    assert!(c.errors().is_empty(), "{:?}", c.errors());
    assert_eq!(c.find_variable(&"x".to_string()).unwrap().ty, Type::I64);
    assert!(c.find_variable(&"y".to_string()).is_none());
    assert!(c.find_variable(&"i".to_string()).is_none());
    assert!(c.find_variable(&"p".to_string()).is_none());
}

#[test]
fn single_statement_checks_ignore_other_statements() {
    let mut c = SemanticChecker::new();
    let brk = st(Statement::Break, 10);
    assert_eq!(c.check_declaration(&brk), Ok(()));
    assert_eq!(c.check_assignment(&brk), Ok(()));
    assert_eq!(c.check_conditional(&brk), Ok(()));
    assert_eq!(c.check_while_loop(&brk), Ok(()));
    assert_eq!(c.check_for_loop(&brk), Ok(()));
    assert_eq!(c.check_switch(&brk), Ok(()));
    assert_eq!(c.check_return(&brk), Ok(()));
    assert!(c.errors().is_empty());
    assert_eq!(c.check_continue(&brk), Ok(()));
    assert_eq!(c.errors(), &vec![high(ErrorKind::ContinueOutsideLoop, 10)]);
}

#[test]
fn unused_match_binding_is_a_warning() {
    let mut c = checker_with_shapes();
    c.check_program(&program(vec![match_on(
        shape(),
        vec![
            arm("Shape", "Circle", Some("r"), vec![], 100),
            // Reading a shadowing variable of the same name does not use the binding.
            arm(
                "Shape",
                "Square",
                Some("side"),
                vec![
                    let_decl("side", None, Some(Type::I64), 120),
                    st(Statement::Expression(expr_reading(None, &["side"], 131)), 130),
                ],
                110,
            ),
            arm("Shape", "Dot", None, vec![], 140),
        ],
        None,
        10,
    )]));
    assert_eq!(
        c.errors(),
        &vec![
            Diagnostic { severity: Severity::Low, kind: ErrorKind::UnusedVariable { name: "r".to_string() }, span: sp(103) },
            Diagnostic {
                severity: Severity::Low,
                kind: ErrorKind::UnusedVariable { name: "side".to_string() },
                span: sp(113),
            },
        ]
    );
}

#[test]
fn match_binding_read_in_nested_block_is_used() {
    let mut c = checker_with_shapes();
    c.check_program(&program(vec![match_on(
        shape(),
        vec![arm(
            "Shape",
            "Circle",
            Some("r"),
            vec![while_loop(
                Some(Type::Bool),
                vec![st(Statement::Expression(expr_reading(Some(Type::F64), &["r"], 131)), 130)],
                120,
            )],
            100,
        )],
        Some(vec![]),
        10,
    )]));
    assert!(c.errors().is_empty(), "{:?}", c.errors());
}

#[test]
fn jumps_at_depth() {
    let mut c = SemanticChecker::new();
    c.check_program(&program(vec![
        // break and continue nested in an if inside a for loop inside a function: accepted.
        func(
            "f",
            vec![],
            Type::Void,
            vec![for_loop(
                None,
                Some(Type::Bool),
                None,
                vec![if_else(
                    Some(Type::Bool),
                    vec![if_else(Some(Type::Bool), vec![st(Statement::Break, 103), st(Statement::Continue, 104)], None, 102)],
                    None,
                    101,
                )],
                100,
            )],
            10,
        ),
        // break nested in an if inside a function, with no loop around: refused.
        func("g", vec![], Type::Void, vec![if_else(Some(Type::Bool), vec![], Some(vec![st(Statement::Break, 203)]), 201)], 20),
        // continue nested in an if inside a switch case, with no loop around: refused.
        st(
            Statement::Switch {
                expressions: vec![],
                cases: vec![Node {
                    value: SwitchCase {
                        condition: expr(Some(Type::Bool), 301),
                        block: blk(
                            vec![if_else(Some(Type::Bool), vec![st(Statement::Continue, 304), st(Statement::Break, 305)], None, 303)],
                            302,
                        ),
                    },
                    span: sp(300),
                }],
            },
            30,
        ),
    ]));
    assert_eq!(
        c.errors(),
        &vec![high(ErrorKind::BreakOutsideLoop, 203), high(ErrorKind::ContinueOutsideLoop, 304)]
    );
}

/// An expression whose check failed, handing back `e`.
fn failed_expr(e: CheckError, at: usize) -> Node<Expression> {
    Node { value: Expression { resolved: None, reads: vec![], failure: Some(e) }, span: sp(at) }
}

#[test]
fn failed_expression_stops_assignment() {
    let mut c = SemanticChecker::new();
    let s = st(
        Statement::Assignment {
            identifier: ident("x", 11),
            accessors: vec![],
            value: failed_expr(high(ErrorKind::UnknownType { name: "Q".to_string() }, 5), 12),
        },
        10,
    );
    assert_eq!(c.check_assignment(&s), Err(high(ErrorKind::UnknownType { name: "Q".to_string() }, 5)));
    // Nothing is reported by the assignment itself, and nothing is hovered.
    assert!(c.errors().is_empty());
    assert!(c.hovers().is_empty());
}

#[test]
fn failed_expression_stops_match() {
    let mut c = checker_with_shapes();
    let s = st(
        Statement::Match {
            expression: failed_expr(high(ErrorKind::MissingResult, 7), 11),
            match_arms: vec![arm("Shape", "Dot", None, vec![st(Statement::Break, 30)], 20)],
            rest_arm: None,
        },
        10,
    );
    assert_eq!(c.check_match_statement(&s), Err(high(ErrorKind::MissingResult, 7)));
    assert!(c.errors().is_empty());
}

#[test]
fn match_binding_is_not_visible_in_later_arms() {
    let mut c = checker_with_shapes();
    c.check_program(&program(vec![match_on(
        shape(),
        vec![
            arm(
                "Shape",
                "Circle",
                Some("r"),
                vec![st(Statement::Expression(expr_reading(None, &["r"], 105)), 104)],
                100,
            ),
            arm("Shape", "Square", None, vec![assign("r", Some(Type::F64), 120)], 110),
        ],
        Some(vec![]),
        10,
    )]));
    assert_eq!(
        c.errors(),
        &vec![high(ErrorKind::Stack(StackError::Undeclared { name: "r".to_string() }), 120)]
    );
    assert_eq!(c.hovers()[0].name, "r");
    assert_eq!(c.hovers()[0].ty, Type::F64);
}

#[test]
fn switch_alias_is_visible_in_every_case() {
    let mut c = SemanticChecker::new();
    let case = |at: usize| Node {
        value: SwitchCase {
            condition: expr(Some(Type::Bool), at + 1),
            block: blk(vec![assign("n", Some(Type::I64), at + 3)], at + 2),
        },
        span: sp(at),
    };
    let subject = Node {
        value: SwitchExpression { expression: expr(Some(Type::I64), 21), alias: Some(ident("n", 22)) },
        span: sp(20),
    };
    c.check_program(&program(vec![st(Statement::Switch { expressions: vec![subject], cases: vec![case(30), case(40)] }, 10)]));
    assert!(c.errors().is_empty(), "{:?}", c.errors());
    assert_eq!(
        c.definitions(),
        &vec![DefinitionInfo { def_span: sp(22), use_span: sp(34) }, DefinitionInfo { def_span: sp(22), use_span: sp(44) }]
    );
}

#[test]
fn jumps_in_match_arms_and_for_headers() {
    let mut c = checker_with_shapes();
    c.check_program(&program(vec![
        // A break in a reached match arm, with no loop around: refused.
        match_on(shape(), vec![arm("Shape", "Dot", None, vec![st(Statement::Break, 104)], 100)], Some(vec![st(Statement::Continue, 12)]), 10),
        // A continue in a for loop's step is checked before the loop accepts it.
        for_loop(None, Some(Type::Bool), Some(st(Statement::Continue, 201)), vec![st(Statement::Continue, 202)], 200),
    ]));
    assert_eq!(
        c.errors(),
        &vec![
            high(ErrorKind::BreakOutsideLoop, 104),
            high(ErrorKind::ContinueOutsideLoop, 12),
            high(ErrorKind::ContinueOutsideLoop, 201),
        ]
    );
}
