use vstd::prelude::*;
use crate::ast::{ArithmeticOpcode, CondBlock, Expr, Opcode, Prog, Stmt};
use crate::destructure::{destructure, destructure_list};
use crate::env::Env;
use crate::error::RunError;
use crate::eval::{NativeHost, eval, run_expr};
use crate::value::{Val, Value, val_binop, apply_binop};

verus! {

/// The binary operator behind a compound assignment.
pub open spec fn arith_op(op: ArithmeticOpcode) -> Opcode {
    match op {
        ArithmeticOpcode::AddAssign => Opcode::Add,
        ArithmeticOpcode::SubAssign => Opcode::Sub,
        ArithmeticOpcode::MulAssign => Opcode::Mul,
        ArithmeticOpcode::DivAssign => Opcode::Div,
        ArithmeticOpcode::ModAssign => Opcode::Mod,
    }
}

fn arith_opcode(op: ArithmeticOpcode) -> (r: Opcode)
    ensures
        r == arith_op(op),
{
    match op {
        ArithmeticOpcode::AddAssign => Opcode::Add,
        ArithmeticOpcode::SubAssign => Opcode::Sub,
        ArithmeticOpcode::MulAssign => Opcode::Mul,
        ArithmeticOpcode::DivAssign => Opcode::Div,
        ArithmeticOpcode::ModAssign => Opcode::Mod,
    }
}

/// What `lhs = rhs` does: the environment after it and whether it succeeded.
pub open spec fn assign<H: NativeHost>(h: H, env: Map<Seq<char>, Val>, lhs: Expr, rhs: Expr) -> (
    Map<Seq<char>, Val>,
    Result<(), RunError>,
) {
    match lhs {
        Expr::Ident(name) => match eval(h, env, rhs) {
            Ok(v) => (env.insert(name@, v), Ok(())),
            Err(x) => (env, Err(x)),
        },
        Expr::Underscore => match eval(h, env, rhs) {
            Ok(_) => (env, Ok(())),
            Err(x) => (env, Err(x)),
        },
        Expr::List(targets) => destructure(h, env, targets@, rhs),
        _ => (env, Err(RunError::InvalidAssignmentTarget)),
    }
}

/// What `name op= rhs` does: `rhs` first, then `name` must be bound.
pub open spec fn compound_assign<H: NativeHost>(
    h: H,
    env: Map<Seq<char>, Val>,
    name: Seq<char>,
    op: ArithmeticOpcode,
    rhs: Expr,
) -> (Map<Seq<char>, Val>, Result<(), RunError>) {
    match eval(h, env, rhs) {
        Err(x) => (env, Err(x)),
        Ok(v) => if !env.contains_key(name) {
            (env, Err(RunError::UndefinedIdentifier))
        } else {
            match val_binop(arith_op(op), env[name], v) {
                Ok(n) => (env.insert(name, n), Ok(())),
                Err(x) => (env, Err(x)),
            }
        },
    }
}

/// What a statement does with `fuel` steps at most: each statement, each loop turn and
/// each branch that is tried takes one step.
pub open spec fn exec_stmt<H: NativeHost>(h: H, fuel: nat, env: Map<Seq<char>, Val>, s: Stmt) -> (
    Map<Seq<char>, Val>,
    Result<(), RunError>,
)
    decreases fuel, 0nat,
{
    if fuel == 0 {
        (env, Err(RunError::StepBudgetExhausted))
    } else {
        match s {
            Stmt::Expr(e) => match eval(h, env, e) {
                Ok(_) => (env, Ok(())),
                Err(x) => (env, Err(x)),
            },
            Stmt::Assign { lhs, rhs } => assign(h, env, lhs, rhs),
            Stmt::ArithmeticAssign { name, opcode, rhs } => compound_assign(h, env, name@, opcode, rhs),
            Stmt::IfElse { if_block, else_if_blocks, else_block } => match eval(h, env, if_block.cond) {
                Ok(Val::Boolean(true)) => exec_block(h, (fuel - 1) as nat, env, if_block.stmts@, 0),
                Ok(Val::Boolean(false)) => exec_branches(
                    h,
                    (fuel - 1) as nat,
                    env,
                    else_if_blocks@,
                    0,
                    else_block,
                ),
                Ok(_) => (env, Err(RunError::NonBooleanCondition)),
                Err(x) => (env, Err(x)),
            },
            Stmt::While(cb) => exec_while(h, (fuel - 1) as nat, env, cb),
        }
    }
}

/// The statements from index `i` on, in order, up to the first that fails.
pub open spec fn exec_block<H: NativeHost>(
    h: H,
    fuel: nat,
    env: Map<Seq<char>, Val>,
    stmts: Seq<Stmt>,
    i: int,
) -> (Map<Seq<char>, Val>, Result<(), RunError>)
    decreases fuel, 1nat,
{
    if i < 0 || i >= stmts.len() {
        (env, Ok(()))
    } else if fuel == 0 {
        (env, Err(RunError::StepBudgetExhausted))
    } else {
        let (next, r) = exec_stmt(h, (fuel - 1) as nat, env, stmts[i]);
        if r is Err {
            (next, r)
        } else {
            exec_block(h, (fuel - 1) as nat, next, stmts, i + 1)
        }
    }
}

/// The `else if` branches from index `i` on, then the `else` block: the first branch
/// whose condition holds runs, and no other.
pub open spec fn exec_branches<H: NativeHost>(
    h: H,
    fuel: nat,
    env: Map<Seq<char>, Val>,
    blocks: Seq<CondBlock>,
    i: int,
    else_block: Option<Vec<Stmt>>,
) -> (Map<Seq<char>, Val>, Result<(), RunError>)
    decreases fuel, 2nat,
{
    if fuel == 0 {
        (env, Err(RunError::StepBudgetExhausted))
    } else if i < 0 || i >= blocks.len() {
        match else_block {
            Some(b) => exec_block(h, (fuel - 1) as nat, env, b@, 0),
            None => (env, Ok(())),
        }
    } else {
        match eval(h, env, blocks[i].cond) {
            Ok(Val::Boolean(true)) => exec_block(h, (fuel - 1) as nat, env, blocks[i].stmts@, 0),
            Ok(Val::Boolean(false)) => exec_branches(h, (fuel - 1) as nat, env, blocks, i + 1, else_block),
            Ok(_) => (env, Err(RunError::NonBooleanCondition)),
            Err(x) => (env, Err(x)),
        }
    }
}

/// A `while` loop: the body runs while the condition is `true`.
pub open spec fn exec_while<H: NativeHost>(
    h: H,
    fuel: nat,
    env: Map<Seq<char>, Val>,
    cb: CondBlock,
) -> (Map<Seq<char>, Val>, Result<(), RunError>)
    decreases fuel, 3nat,
{
    if fuel == 0 {
        (env, Err(RunError::StepBudgetExhausted))
    } else {
        match eval(h, env, cb.cond) {
            Ok(Val::Boolean(true)) => {
                let (next, r) = exec_block(h, (fuel - 1) as nat, env, cb.stmts@, 0);
                if r is Err {
                    (next, r)
                } else {
                    exec_while(h, (fuel - 1) as nat, next, cb)
                }
            },
            Ok(Val::Boolean(false)) => (env, Ok(())),
            Ok(_) => (env, Err(RunError::NonBooleanCondition)),
            Err(x) => (env, Err(x)),
        }
    }
}

/// What a program does with `fuel` steps at most.
pub open spec fn exec_prog<H: NativeHost>(h: H, fuel: nat, env: Map<Seq<char>, Val>, p: Prog) -> (
    Map<Seq<char>, Val>,
    Result<(), RunError>,
) {
    match p {
        Prog::Body(stmts) => exec_block(h, fuel, env, stmts@, 0),
    }
}

/// Runs a program with no bound on its steps but that of a 64-bit counter.
pub fn run_prog<H: NativeHost>(env: &mut Env, prog: &Prog, host: &H) -> (r: Result<(), RunError>)
    ensures
        (final(env).model(), r) == exec_prog(*host, u64::MAX as nat, old(env).model(), *prog),
{
    run_prog_with_budget(env, prog, host, u64::MAX)
}

/// Runs a program with at most `budget` steps.
pub fn run_prog_with_budget<H: NativeHost>(env: &mut Env, prog: &Prog, host: &H, budget: u64) -> (r:
    Result<(), RunError>)
    ensures
        (final(env).model(), r) == exec_prog(*host, budget as nat, old(env).model(), *prog),
{
    match prog {
        Prog::Body(stmts) => run_block(env, host, stmts, budget),
    }
}

/// Runs statements in order, up to the first that fails.
pub fn run_block<H: NativeHost>(env: &mut Env, host: &H, stmts: &Vec<Stmt>, fuel: u64) -> (r: Result<
    (),
    RunError,
>)
    ensures
        (final(env).model(), r) == exec_block(*host, fuel as nat, old(env).model(), stmts@, 0),
    decreases fuel, 1nat,
{
    let ghost goal = exec_block(*host, fuel as nat, env.model(), stmts@, 0);
    let mut i: usize = 0;
    let mut f: u64 = fuel;
    while i < stmts.len()
        invariant
            i <= stmts.len(),
            f <= fuel,
            exec_block(*host, f as nat, env.model(), stmts@, i as int) == goal,
            goal == exec_block(*host, fuel as nat, old(env).model(), stmts@, 0),
        decreases stmts.len() - i,
    {
        if f == 0 {
            return Err(RunError::StepBudgetExhausted);
        }
        let r = run_stmt(env, host, &stmts[i], f - 1);
        if r.is_err() {
            return r;
        }
        f = f - 1;
        i += 1;
    }
    Ok(())
}

/// Runs one statement.
pub fn run_stmt<H: NativeHost>(env: &mut Env, host: &H, stmt: &Stmt, fuel: u64) -> (r: Result<
    (),
    RunError,
>)
    ensures
        (final(env).model(), r) == exec_stmt(*host, fuel as nat, old(env).model(), *stmt),
    decreases fuel, 0nat,
{
    if fuel == 0 {
        return Err(RunError::StepBudgetExhausted);
    }
    match stmt {
        Stmt::Expr(e) => match run_expr(env, host, e) {
            Ok(_) => Ok(()),
            Err(x) => Err(x),
        },
        Stmt::Assign { lhs, rhs } => match lhs {
            Expr::Ident(name) => {
                let v = run_expr(env, host, rhs)?;
                env.set(name.clone(), v);
                Ok(())
            },
            Expr::Underscore => match run_expr(env, host, rhs) {
                Ok(_) => Ok(()),
                Err(x) => Err(x),
            },
            Expr::List(targets) => destructure_list(env, host, targets, rhs),
            _ => Err(RunError::InvalidAssignmentTarget),
        },
        Stmt::ArithmeticAssign { name, opcode, rhs } => {
            let v = run_expr(env, host, rhs)?;
            let old_value = match env.get(name.as_str()) {
                Some(o) => o,
                None => return Err(RunError::UndefinedIdentifier),
            };
            let n = apply_binop(arith_opcode(*opcode), &old_value, &v)?;
            env.set(name.clone(), n);
            Ok(())
        },
        Stmt::IfElse { if_block, else_if_blocks, else_block } => match run_expr(env, host, &if_block.cond) {
            Ok(Value::Boolean(true)) => run_block(env, host, &if_block.stmts, fuel - 1),
            Ok(Value::Boolean(false)) => run_branches(env, host, else_if_blocks, 0, else_block, fuel - 1),
            Ok(_) => Err(RunError::NonBooleanCondition),
            Err(x) => Err(x),
        },
        Stmt::While(cb) => run_while(env, host, cb, fuel - 1),
    }
}

/// Runs the `else if` branches from index `i` on, then the `else` block.
pub fn run_branches<H: NativeHost>(
    env: &mut Env,
    host: &H,
    blocks: &Vec<CondBlock>,
    i: usize,
    else_block: &Option<Vec<Stmt>>,
    fuel: u64,
) -> (r: Result<(), RunError>)
    requires
        i <= blocks.len(),
    ensures
        (final(env).model(), r) == exec_branches(
            *host,
            fuel as nat,
            old(env).model(),
            blocks@,
            i as int,
            *else_block,
        ),
    decreases fuel, 2nat,
{
    if fuel == 0 {
        return Err(RunError::StepBudgetExhausted);
    }
    if i >= blocks.len() {
        return match else_block {
            Some(b) => run_block(env, host, b, fuel - 1),
            None => Ok(()),
        };
    }
    match run_expr(env, host, &blocks[i].cond) {
        Ok(Value::Boolean(true)) => run_block(env, host, &blocks[i].stmts, fuel - 1),
        Ok(Value::Boolean(false)) => run_branches(env, host, blocks, i + 1, else_block, fuel - 1),
        Ok(_) => Err(RunError::NonBooleanCondition),
        Err(x) => Err(x),
    }
}

/// Runs a `while` loop.
pub fn run_while<H: NativeHost>(env: &mut Env, host: &H, cb: &CondBlock, fuel: u64) -> (r: Result<
    (),
    RunError,
>)
    ensures
        (final(env).model(), r) == exec_while(*host, fuel as nat, old(env).model(), *cb),
    decreases fuel, 3nat,
{
    let ghost goal = exec_while(*host, fuel as nat, env.model(), *cb);
    let mut f: u64 = fuel;
    loop
        invariant
            f <= fuel,
            exec_while(*host, f as nat, env.model(), *cb) == goal,
            goal == exec_while(*host, fuel as nat, old(env).model(), *cb),
        decreases f,
    {
        if f == 0 {
            return Err(RunError::StepBudgetExhausted);
        }
        match run_expr(env, host, &cb.cond) {
            Ok(Value::Boolean(true)) => {
                let r = run_block(env, host, &cb.stmts, f - 1);
                if r.is_err() {
                    return r;
                }
            },
            Ok(Value::Boolean(false)) => return Ok(()),
            Ok(_) => return Err(RunError::NonBooleanCondition),
            Err(x) => return Err(x),
        }
        f = f - 1;
    }
}

} // verus!
