use lang_eval::ast::{ArithmeticOpcode, CondBlock, Expr, ListItem, Opcode, Prog, Stmt};
use lang_eval::env::Env;
use lang_eval::error::RunError;
use lang_eval::eval::{run_expr, NoNatives};
use lang_eval::exec::{run_prog, run_prog_with_budget};
use lang_eval::value::{apply_binop, compare, values_equal, Value};
use std::cmp::Ordering;

fn ident(s: &str) -> Expr {
    Expr::Ident(s.to_string())
}

fn num(i: i64) -> Expr {
    Expr::Int(i)
}

fn text(s: &str) -> Expr {
    Expr::StrLiteral(s.to_string())
}

fn item(e: Expr) -> ListItem {
    ListItem { expr: e, is_spread: false }
}

fn spread(e: Expr) -> ListItem {
    ListItem { expr: e, is_spread: true }
}

fn ints(v: &[i64]) -> Expr {
    Expr::List(v.iter().map(|i| item(num(*i))).collect())
}

fn op(l: Expr, r: Expr, opcode: Opcode) -> Expr {
    Expr::Op { lhs: Box::new(l), rhs: Box::new(r), opcode }
}

fn assign(lhs: Expr, rhs: Expr) -> Stmt {
    Stmt::Assign { lhs, rhs }
}

fn run(env: &mut Env, stmts: Vec<Stmt>) -> Result<(), RunError> {
    run_prog(env, &Prog::Body(stmts), &NoNatives)
}

fn eval_op(l: Expr, r: Expr, opcode: Opcode) -> Result<Value, RunError> {
    let env = Env::new();
    run_expr(&env, &NoNatives, &op(l, r, opcode))
}

fn int_of(env: &Env, name: &str) -> Option<i64> {
    match env.get(name) {
        Some(Value::Int(i)) => Some(i),
        _ => None,
    }
}

fn ints_of(env: &Env, name: &str) -> Option<Vec<i64>> {
    match env.get(name) {
        Some(Value::List(items)) => {
            let mut out = Vec::new();
            for v in items {
                match v {
                    Value::Int(i) => out.push(i),
                    _ => return None,
                }
            }
            Some(out)
        }
        _ => None,
    }
}

fn as_int(r: Result<Value, RunError>) -> Option<i64> {
    match r {
        Ok(Value::Int(i)) => Some(i),
        _ => None,
    }
}

fn as_bool(r: Result<Value, RunError>) -> Option<bool> {
    match r {
        Ok(Value::Boolean(b)) => Some(b),
        _ => None,
    }
}

fn err_of(r: Result<Value, RunError>) -> Option<RunError> {
    match r {
        Err(e) => Some(e),
        Ok(_) => None,
    }
}

#[test]
fn division_by_nonzero_truncates() {
    assert_eq!(as_int(eval_op(num(7), num(2), Opcode::Div)), Some(3));
    assert_eq!(as_int(eval_op(num(-7), num(2), Opcode::Div)), Some(-3));
    assert_eq!(as_int(eval_op(num(7), num(-2), Opcode::Div)), Some(-3));
    assert_eq!(as_int(eval_op(num(-7), num(2), Opcode::Mod)), Some(-1));
    assert_eq!(as_int(eval_op(num(7), num(-2), Opcode::Mod)), Some(1));
    assert_eq!(as_int(eval_op(num(i64::MIN), num(-1), Opcode::Div)), Some(i64::MIN));
    assert_eq!(as_int(eval_op(num(i64::MIN), num(-1), Opcode::Mod)), Some(0));
}

#[test]
fn division_and_modulo_by_zero_fail() {
    assert_eq!(err_of(eval_op(num(5), num(0), Opcode::Div)), Some(RunError::DivisionOrModuloByZero));
    assert_eq!(err_of(eval_op(num(5), num(0), Opcode::Mod)), Some(RunError::DivisionOrModuloByZero));
}

#[test]
fn arithmetic_wraps() {
    assert_eq!(as_int(eval_op(num(i64::MAX), num(1), Opcode::Add)), Some(i64::MIN));
    assert_eq!(as_int(eval_op(num(i64::MIN), num(1), Opcode::Sub)), Some(i64::MAX));
    assert_eq!(as_int(eval_op(num(6), num(7), Opcode::Mul)), Some(42));
    assert_eq!(as_int(eval_op(num(6), num(7), Opcode::Sub)), Some(-1));
}

#[test]
fn equality_across_variants_is_type_mismatch() {
    assert_eq!(err_of(eval_op(num(1), text("1"), Opcode::Eq)), Some(RunError::TypeMismatch));
    assert_eq!(err_of(eval_op(num(1), text("1"), Opcode::Neq)), Some(RunError::TypeMismatch));
    assert_eq!(err_of(eval_op(op(num(1), num(1), Opcode::Eq), num(1), Opcode::Eq)), Some(RunError::TypeMismatch));
    assert_eq!(err_of(eval_op(num(1), ints(&[1]), Opcode::Lt)), Some(RunError::TypeMismatch));
}

#[test]
fn comparisons_on_like_values() {
    assert_eq!(as_bool(eval_op(num(1), num(2), Opcode::Lt)), Some(true));
    assert_eq!(as_bool(eval_op(num(2), num(2), Opcode::Lte)), Some(true));
    assert_eq!(as_bool(eval_op(num(2), num(2), Opcode::Gt)), Some(false));
    assert_eq!(as_bool(eval_op(num(3), num(2), Opcode::Gte)), Some(true));
    assert_eq!(as_bool(eval_op(num(3), num(2), Opcode::Neq)), Some(true));
    assert_eq!(as_bool(eval_op(text("abc"), text("abd"), Opcode::Lt)), Some(true));
    assert_eq!(as_bool(eval_op(text("b"), text("abc"), Opcode::Gt)), Some(true));
    assert_eq!(as_bool(eval_op(text("ab"), text("ab"), Opcode::Eq)), Some(true));
    assert_eq!(as_bool(eval_op(ints(&[1]), ints(&[1]), Opcode::Eq)), Some(false));
    assert_eq!(as_bool(eval_op(ints(&[1]), ints(&[1]), Opcode::Lte)), Some(false));
    assert_eq!(err_of(eval_op(text("a"), text("b"), Opcode::Add)), Some(RunError::TypeMismatch));
}

#[test]
fn value_model_functions() {
    let t = Value::Boolean(true);
    let f = Value::Boolean(false);
    assert_eq!(compare(&f, &t), Some(Ordering::Less));
    assert_eq!(compare(&Value::StrLiteral("b".to_string()), &Value::StrLiteral("a".to_string())), Some(Ordering::Greater));
    assert_eq!(compare(&Value::Unit, &Value::Unit), None);
    assert!(values_equal(&Value::Unit, &Value::Unit));
    assert!(!values_equal(&Value::Func(1), &Value::Func(1)));
    assert!(!values_equal(&Value::Int(1), &Value::Boolean(true)));
    assert!(matches!(apply_binop(Opcode::Add, &Value::Int(2), &Value::Int(3)), Ok(Value::Int(5))));
}

#[test]
fn value_operators() {
    assert!(Value::Int(1) == Value::Int(1));
    assert!(Value::Int(1) != Value::Int(2));
    assert!(Value::Int(1) != Value::Boolean(true));
    assert!(Value::List(vec![]) != Value::List(vec![]));
    assert!(Value::Int(1) < Value::Int(2));
    assert!(Value::StrLiteral("a".to_string()) < Value::StrLiteral("b".to_string()));
    assert!(!(Value::Unit <= Value::Unit));
    assert_eq!(Value::Int(1).partial_cmp(&Value::StrLiteral("1".to_string())), None);
}

#[test]
fn invalid_assignment_targets() {
    let targets = vec![
        num(1),
        text("s"),
        Expr::Call { func: "f".to_string(), args: vec![] },
        op(num(1), num(2), Opcode::Add),
    ];
    for lhs in targets {
        let mut env = Env::new();
        assert_eq!(run(&mut env, vec![assign(lhs, ident("undefined"))]), Err(RunError::InvalidAssignmentTarget));
        assert!(!env.contains("undefined"));
    }
}

#[test]
fn destructure_too_many_values() {
    let mut env = Env::new();
    let lhs = Expr::List(vec![item(ident("a")), item(ident("b"))]);
    assert_eq!(run(&mut env, vec![assign(lhs, ints(&[1, 2, 3]))]), Err(RunError::NonExhaustiveCoverage));
    assert!(!env.contains("a"));
}

#[test]
fn destructure_too_few_values() {
    let mut env = Env::new();
    let lhs = Expr::List(vec![item(ident("a")), item(ident("b")), item(ident("c"))]);
    assert_eq!(run(&mut env, vec![assign(lhs, ints(&[1, 2]))]), Err(RunError::NonExhaustiveCoverage));
    assert!(!env.contains("a"));
}

#[test]
fn destructure_head_and_rest() {
    let mut env = Env::new();
    let lhs = Expr::List(vec![item(ident("a")), spread(ident("rest"))]);
    assert_eq!(run(&mut env, vec![assign(lhs, ints(&[1, 2, 3, 4]))]), Ok(()));
    assert_eq!(int_of(&env, "a"), Some(1));
    assert_eq!(ints_of(&env, "rest"), Some(vec![2, 3, 4]));
}

#[test]
fn destructure_spread_in_the_middle() {
    let mut env = Env::new();
    let lhs = Expr::List(vec![item(ident("a")), spread(ident("mid")), item(ident("b"))]);
    assert_eq!(run(&mut env, vec![assign(lhs, ints(&[1, 2, 3, 4, 5]))]), Ok(()));
    assert_eq!(int_of(&env, "a"), Some(1));
    assert_eq!(ints_of(&env, "mid"), Some(vec![2, 3, 4]));
    assert_eq!(int_of(&env, "b"), Some(5));
}

#[test]
fn destructure_two_spreads_refused() {
    let mut env = Env::new();
    let lhs = Expr::List(vec![spread(ident("a")), spread(ident("b"))]);
    assert_eq!(run(&mut env, vec![assign(lhs, ints(&[1, 2]))]), Err(RunError::MultipleSpreadTargets));
    assert!(!env.contains("a"));
    assert!(!env.contains("b"));
}

#[test]
fn destructure_single_spread_takes_all() {
    let mut env = Env::new();
    let lhs = Expr::List(vec![spread(ident("a"))]);
    assert_eq!(run(&mut env, vec![assign(lhs, ints(&[1, 2, 3]))]), Ok(()));
    assert_eq!(ints_of(&env, "a"), Some(vec![1, 2, 3]));
}

#[test]
fn destructure_spread_takes_nothing() {
    let mut env = Env::new();
    let lhs = Expr::List(vec![item(ident("a")), spread(ident("r")), item(ident("b"))]);
    assert_eq!(run(&mut env, vec![assign(lhs, ints(&[1, 2]))]), Ok(()));
    assert_eq!(int_of(&env, "a"), Some(1));
    assert_eq!(ints_of(&env, "r"), Some(vec![]));
    assert_eq!(int_of(&env, "b"), Some(2));
}

#[test]
fn destructure_with_discard_and_source_name() {
    let mut env = Env::new();
    let stmts = vec![
        assign(ident("xs"), ints(&[7, 8, 9])),
        assign(Expr::List(vec![item(Expr::Underscore), item(ident("y")), item(Expr::Underscore)]), ident("xs")),
    ];
    assert_eq!(run(&mut env, stmts), Ok(()));
    assert_eq!(int_of(&env, "y"), Some(8));
}

#[test]
fn destructure_spread_source_items() {
    let mut env = Env::new();
    let stmts = vec![
        assign(ident("xs"), ints(&[2, 3])),
        assign(
            Expr::List(vec![item(ident("a")), item(ident("b")), item(ident("c"))]),
            Expr::List(vec![item(num(1)), spread(ident("xs"))]),
        ),
    ];
    assert_eq!(run(&mut env, stmts), Ok(()));
    assert_eq!(int_of(&env, "a"), Some(1));
    assert_eq!(int_of(&env, "b"), Some(2));
    assert_eq!(int_of(&env, "c"), Some(3));
}

#[test]
fn destructure_errors() {
    let mut env = Env::new();
    assert_eq!(run(&mut env, vec![assign(Expr::List(vec![]), ints(&[1]))]), Err(RunError::EmptyTargets));
    let lhs = Expr::List(vec![item(num(1))]);
    assert_eq!(run(&mut env, vec![assign(lhs, ints(&[1]))]), Err(RunError::NonIdentifierTarget));
    let lhs = Expr::List(vec![item(ident("a"))]);
    assert_eq!(run(&mut env, vec![assign(lhs, Expr::List(vec![]))]), Err(RunError::EmptySource));
    let lhs = Expr::List(vec![item(ident("a"))]);
    assert_eq!(run(&mut env, vec![assign(lhs, num(3))]), Err(RunError::NotDestructurable));
    let lhs = Expr::List(vec![item(ident("a")), item(ident("b"))]);
    let rhs = Expr::List(vec![item(num(1)), item(Expr::Underscore)]);
    assert_eq!(run(&mut env, vec![assign(lhs, rhs)]), Err(RunError::UnderscoreInSource));
    let lhs = Expr::List(vec![spread(ident("a"))]);
    let rhs = Expr::List(vec![spread(num(1))]);
    assert_eq!(run(&mut env, vec![assign(lhs, rhs)]), Err(RunError::SpreadOnNonList));
    let stmts = vec![
        assign(ident("n"), num(4)),
        assign(Expr::List(vec![item(ident("a"))]), ident("n")),
    ];
    assert_eq!(run(&mut env, stmts), Err(RunError::NotDestructurable));
    let stmts = vec![
        assign(ident("e"), Expr::List(vec![])),
        assign(Expr::List(vec![item(ident("a"))]), ident("e")),
    ];
    assert_eq!(run(&mut env, stmts), Err(RunError::EmptySource));
    assert!(!env.contains("a"));
}

#[test]
fn while_false_and_if_true() {
    let mut env = Env::new();
    let stmts = vec![
        assign(ident("x"), num(0)),
        Stmt::While(CondBlock {
            cond: op(num(1), num(2), Opcode::Eq),
            stmts: vec![Stmt::ArithmeticAssign { name: "x".to_string(), opcode: ArithmeticOpcode::AddAssign, rhs: num(1) }],
        }),
    ];
    assert_eq!(run(&mut env, stmts), Ok(()));
    assert_eq!(int_of(&env, "x"), Some(0));
    let stmts = vec![Stmt::IfElse {
        if_block: CondBlock { cond: op(num(1), num(1), Opcode::Eq), stmts: vec![assign(ident("x"), num(1))] },
        else_if_blocks: vec![],
        else_block: Some(vec![assign(ident("x"), num(2))]),
    }];
    assert_eq!(run(&mut env, stmts), Ok(()));
    assert_eq!(int_of(&env, "x"), Some(1));
}

#[test]
fn while_loop_counts() {
    let mut env = Env::new();
    let stmts = vec![
        assign(ident("i"), num(0)),
        assign(ident("sum"), num(0)),
        Stmt::While(CondBlock {
            cond: op(ident("i"), num(5), Opcode::Lt),
            stmts: vec![
                Stmt::ArithmeticAssign { name: "i".to_string(), opcode: ArithmeticOpcode::AddAssign, rhs: num(1) },
                Stmt::ArithmeticAssign { name: "sum".to_string(), opcode: ArithmeticOpcode::AddAssign, rhs: ident("i") },
            ],
        }),
    ];
    assert_eq!(run(&mut env, stmts), Ok(()));
    assert_eq!(int_of(&env, "i"), Some(5));
    assert_eq!(int_of(&env, "sum"), Some(15));
}

#[test]
fn else_if_chain_runs_first_true_branch() {
    let mut env = Env::new();
    let stmts = vec![
        assign(ident("x"), num(0)),
        Stmt::IfElse {
            if_block: CondBlock { cond: op(num(1), num(2), Opcode::Gt), stmts: vec![assign(ident("x"), num(1))] },
            else_if_blocks: vec![
                CondBlock { cond: op(num(1), num(1), Opcode::Neq), stmts: vec![assign(ident("x"), num(2))] },
                CondBlock { cond: op(num(1), num(1), Opcode::Eq), stmts: vec![assign(ident("x"), num(3))] },
                CondBlock { cond: op(num(2), num(2), Opcode::Eq), stmts: vec![assign(ident("x"), num(4))] },
            ],
            else_block: Some(vec![assign(ident("x"), num(5))]),
        },
    ];
    assert_eq!(run(&mut env, stmts), Ok(()));
    assert_eq!(int_of(&env, "x"), Some(3));
}

#[test]
fn conditions_must_be_boolean() {
    let mut env = Env::new();
    let stmts = vec![Stmt::IfElse {
        if_block: CondBlock { cond: num(1), stmts: vec![] },
        else_if_blocks: vec![],
        else_block: None,
    }];
    assert_eq!(run(&mut env, stmts), Err(RunError::NonBooleanCondition));
    let stmts = vec![Stmt::While(CondBlock { cond: ident("nothing"), stmts: vec![] })];
    assert_eq!(run(&mut env, stmts), Err(RunError::UndefinedIdentifier));
    let stmts = vec![Stmt::IfElse {
        if_block: CondBlock { cond: op(num(1), num(2), Opcode::Eq), stmts: vec![] },
        else_if_blocks: vec![CondBlock { cond: text("yes"), stmts: vec![] }],
        else_block: None,
    }];
    assert_eq!(run(&mut env, stmts), Err(RunError::NonBooleanCondition));
}

#[test]
fn compound_assignment_to_undefined_name() {
    let mut env = Env::new();
    let stmts = vec![Stmt::ArithmeticAssign { name: "x".to_string(), opcode: ArithmeticOpcode::AddAssign, rhs: num(1) }];
    assert_eq!(run(&mut env, stmts), Err(RunError::UndefinedIdentifier));
    assert!(!env.contains("x"));
}

#[test]
fn compound_assignment_operators() {
    let mut env = Env::new();
    let ca = |name: &str, opcode: ArithmeticOpcode, v: i64| Stmt::ArithmeticAssign { name: name.to_string(), opcode, rhs: num(v) };
    let stmts = vec![
        assign(ident("x"), num(10)),
        ca("x", ArithmeticOpcode::SubAssign, 3),
        ca("x", ArithmeticOpcode::MulAssign, 4),
        ca("x", ArithmeticOpcode::DivAssign, 5),
        ca("x", ArithmeticOpcode::ModAssign, 4),
    ];
    assert_eq!(run(&mut env, stmts), Ok(()));
    assert_eq!(int_of(&env, "x"), Some(1));
    let stmts = vec![assign(ident("s"), text("a")), ca("s", ArithmeticOpcode::AddAssign, 1)];
    assert_eq!(run(&mut env, stmts), Err(RunError::TypeMismatch));
    let stmts = vec![ca("x", ArithmeticOpcode::DivAssign, 0)];
    assert_eq!(run(&mut env, stmts), Err(RunError::DivisionOrModuloByZero));
    assert_eq!(int_of(&env, "x"), Some(1));
}

#[test]
fn errors_stop_the_program() {
    let mut env = Env::new();
    let stmts = vec![
        assign(ident("a"), num(1)),
        assign(ident("b"), ident("missing")),
        assign(ident("c"), num(3)),
    ];
    assert_eq!(run(&mut env, stmts), Err(RunError::UndefinedIdentifier));
    assert_eq!(int_of(&env, "a"), Some(1));
    assert!(!env.contains("b"));
    assert!(!env.contains("c"));
}

#[test]
fn calls_and_lists() {
    let mut env = Env::new();
    let stmts = vec![
        assign(ident("n"), num(3)),
        Stmt::Expr(Expr::Call { func: "n".to_string(), args: vec![] }),
    ];
    assert_eq!(run(&mut env, stmts), Err(RunError::NotCallable));
    let stmts = vec![Stmt::Expr(Expr::Call { func: "nope".to_string(), args: vec![num(1)] })];
    assert_eq!(run(&mut env, stmts), Err(RunError::UndefinedIdentifier));
    let stmts = vec![Stmt::Expr(Expr::Call { func: "nope".to_string(), args: vec![ident("bad")] })];
    assert_eq!(run(&mut env, stmts), Err(RunError::UndefinedIdentifier));
    env.register_native("f".to_string(), 9);
    let stmts = vec![Stmt::Expr(Expr::Call { func: "f".to_string(), args: vec![] })];
    assert_eq!(run(&mut env, stmts), Err(RunError::NotCallable));
    let stmts = vec![
        assign(ident("xs"), ints(&[1, 2])),
        assign(ident("ys"), Expr::List(vec![spread(ident("xs")), item(num(3)), spread(ints(&[4]))])),
        assign(Expr::Underscore, num(0)),
    ];
    assert_eq!(run(&mut env, stmts), Ok(()));
    assert_eq!(ints_of(&env, "ys"), Some(vec![1, 2, 3, 4]));
    assert!(!env.contains("_"));
}

#[test]
fn step_budget_bounds_endless_loop() {
    let mut env = Env::new();
    let prog = Prog::Body(vec![Stmt::While(CondBlock { cond: op(num(1), num(1), Opcode::Eq), stmts: vec![] })]);
    assert_eq!(run_prog_with_budget(&mut env, &prog, &NoNatives, 50), Err(RunError::StepBudgetExhausted));
}
