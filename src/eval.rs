use vstd::prelude::*;
use crate::ast::{Expr, ListItem};
use crate::env::Env;
use crate::error::RunError;
use crate::value::{Val, Value, views, lemma_views, res_model, val_binop, apply_binop};

verus! {

/// The models of the arguments of a native call.
pub type NativeArgs = Seq<Val>;

/// The host's native functions, found by handle. A native function sees only its
/// arguments: it cannot touch the environment.
pub trait NativeHost {
    /// What the native function `handle` returns on `args`: the contract of `invoke`.
    /// A host implemented outside verified code states it without a body that runs;
    /// what is proved of calls then rests on `invoke` keeping to it.
    spec fn reply(&self, handle: u64, args: NativeArgs) -> Result<Val, RunError>;

    /// Calls the native function `handle` on `args`.
    fn invoke(&self, handle: u64, args: Vec<Value>) -> (r: Result<Value, RunError>)
        ensures
            res_model(r) == self.reply(handle, views(args, args.len() as nat)),
    ;
}

/// A host with no native functions: every call of a handle is refused.
pub struct NoNatives;

impl NativeHost for NoNatives {
    open spec fn reply(&self, handle: u64, args: Seq<Val>) -> Result<Val, RunError> {
        Err(RunError::NotCallable)
    }

    fn invoke(&self, handle: u64, args: Vec<Value>) -> (r: Result<Value, RunError>) {
        Err(RunError::NotCallable)
    }
}

/// What an expression evaluates to.
pub open spec fn eval<H: NativeHost>(h: H, env: Map<Seq<char>, Val>, e: Expr) -> Result<Val, RunError>
    decreases e, 0nat,
{
    match e {
        Expr::Ident(n) => if env.contains_key(n@) {
            Ok(env[n@])
        } else {
            Err(RunError::UndefinedIdentifier)
        },
        Expr::Underscore => Ok(Val::Unit),
        Expr::Int(i) => Ok(Val::Int(i)),
        Expr::StrLiteral(s) => Ok(Val::Str(s@)),
        Expr::List(items) => match eval_items(h, env, items, items.len() as nat) {
            Ok(s) => Ok(Val::List(s)),
            Err(x) => Err(x),
        },
        Expr::Call { func, args } => match eval_args(h, env, args, args.len() as nat) {
            Err(x) => Err(x),
            Ok(vals) => if !env.contains_key(func@) {
                Err(RunError::UndefinedIdentifier)
            } else {
                match env[func@] {
                    Val::Native(handle) => h.reply(handle, vals),
                    _ => Err(RunError::NotCallable),
                }
            },
        },
        Expr::Op { lhs, rhs, opcode } => match eval(h, env, *lhs) {
            Err(x) => Err(x),
            Ok(a) => match eval(h, env, *rhs) {
                Err(x) => Err(x),
                Ok(b) => val_binop(opcode, a, b),
            },
        },
    }
}

/// The values of the first `n` items of a list literal, left to right, a spread item
/// giving the elements of its list.
pub open spec fn eval_items<H: NativeHost>(
    h: H,
    env: Map<Seq<char>, Val>,
    items: Vec<ListItem>,
    n: nat,
) -> Result<Seq<Val>, RunError>
    decreases items, n,
{
    if n == 0 || n > items.len() {
        Ok(Seq::empty())
    } else {
        match eval_items(h, env, items, (n - 1) as nat) {
            Err(x) => Err(x),
            Ok(prefix) => match eval(h, env, items[n - 1].expr) {
                Err(x) => Err(x),
                Ok(v) => if items[n - 1].is_spread {
                    match v {
                        Val::List(s) => Ok(prefix + s),
                        _ => Err(RunError::SpreadOnNonList),
                    }
                } else {
                    Ok(prefix.push(v))
                },
            },
        }
    }
}

/// The values of the first `n` arguments of a call, left to right.
pub open spec fn eval_args<H: NativeHost>(
    h: H,
    env: Map<Seq<char>, Val>,
    args: Vec<Expr>,
    n: nat,
) -> Result<Seq<Val>, RunError>
    decreases args, n,
{
    if n == 0 || n > args.len() {
        Ok(Seq::empty())
    } else {
        match eval_args(h, env, args, (n - 1) as nat) {
            Err(x) => Err(x),
            Ok(prefix) => match eval(h, env, args[n - 1]) {
                Err(x) => Err(x),
                Ok(v) => Ok(prefix.push(v)),
            },
        }
    }
}

/// Once an item of a list literal fails, the whole literal fails with its error.
pub proof fn lemma_items_err_stays<H: NativeHost>(
    h: H,
    env: Map<Seq<char>, Val>,
    items: Vec<ListItem>,
    n: nat,
    m: nat,
)
    requires
        0 < n <= m <= items.len(),
        eval_items(h, env, items, n) is Err,
    ensures
        eval_items(h, env, items, m) == eval_items(h, env, items, n),
    decreases m,
{
    if m > n {
        lemma_items_err_stays(h, env, items, n, (m - 1) as nat);
    }
}

/// Once an argument of a call fails, all the arguments fail with its error.
pub proof fn lemma_args_err_stays<H: NativeHost>(
    h: H,
    env: Map<Seq<char>, Val>,
    args: Vec<Expr>,
    n: nat,
    m: nat,
)
    requires
        0 < n <= m <= args.len(),
        eval_args(h, env, args, n) is Err,
    ensures
        eval_args(h, env, args, m) == eval_args(h, env, args, n),
    decreases m,
{
    if m > n {
        lemma_args_err_stays(h, env, args, n, (m - 1) as nat);
    }
}

/// Evaluates an expression against the environment.
pub fn run_expr<H: NativeHost>(env: &Env, host: &H, expr: &Expr) -> (r: Result<Value, RunError>)
    ensures
        res_model(r) == eval(*host, env.model(), *expr),
    decreases expr, 0nat,
{
    match expr {
        Expr::Ident(name) => match env.get(name.as_str()) {
            Some(v) => Ok(v),
            None => Err(RunError::UndefinedIdentifier),
        },
        Expr::Underscore => Ok(Value::Unit),
        Expr::Int(i) => Ok(Value::Int(*i)),
        Expr::StrLiteral(s) => Ok(Value::StrLiteral(s.clone())),
        Expr::List(items) => match run_items(env, host, items) {
            Ok(vals) => {
                proof {
                    lemma_views(vals, vals.len() as nat);
                }
                Ok(Value::List(vals))
            },
            Err(x) => Err(x),
        },
        Expr::Call { func, args } => {
            let vals = match run_args(env, host, args) {
                Ok(vals) => vals,
                Err(x) => return Err(x),
            };
            match env.get(func.as_str()) {
                None => Err(RunError::UndefinedIdentifier),
                Some(Value::Func(handle)) => host.invoke(handle, vals),
                Some(_) => Err(RunError::NotCallable),
            }
        },
        Expr::Op { lhs, rhs, opcode } => {
            let a = run_expr(env, host, lhs)?;
            let b = run_expr(env, host, rhs)?;
            apply_binop(*opcode, &a, &b)
        },
    }
}

/// Evaluates the items of a list literal, left to right, expanding spread items.
pub fn run_items<H: NativeHost>(env: &Env, host: &H, items: &Vec<ListItem>) -> (r: Result<
    Vec<Value>,
    RunError,
>)
    ensures
        match (r, eval_items(*host, env.model(), *items, items.len() as nat)) {
            (Ok(v), Ok(s)) => views(v, v.len() as nat) == s,
            (Err(x), Err(y)) => x == y,
            _ => false,
        },
    decreases items, items.len(),
{
    let mut vals: Vec<Value> = Vec::new();
    let mut i: usize = 0;
    while i < items.len()
        invariant
            i <= items.len(),
            eval_items(*host, env.model(), *items, i as nat) == Ok::<Seq<Val>, RunError>(
                views(vals, vals.len() as nat),
            ),
        decreases items.len() - i,
    {
        proof {
            assert(decreases_to!(items => items@[i as int]));
            lemma_views(vals, vals.len() as nat);
        }
        let ghost prefix = views(vals, vals.len() as nat);
        let v = run_expr(env, host, &items[i].expr);
        proof {
            if v is Err || (items[i as int].is_spread && !(v->Ok_0 is List)) {
                lemma_items_err_stays(*host, env.model(), *items, (i + 1) as nat, items.len() as nat);
            }
        }
        match v {
            Err(x) => return Err(x),
            Ok(v) => {
                if items[i].is_spread {
                    match v {
                        Value::List(mut inner) => {
                            proof {
                                lemma_views(inner, inner.len() as nat);
                            }
                            let ghost inner_views = views(inner, inner.len() as nat);
                            vals.append(&mut inner);
                            proof {
                                lemma_views(vals, vals.len() as nat);
                                assert(views(vals, vals.len() as nat) =~= prefix + inner_views);
                            }
                        },
                        _ => return Err(RunError::SpreadOnNonList),
                    }
                } else {
                    vals.push(v);
                    proof {
                        lemma_views(vals, vals.len() as nat);
                        assert(views(vals, vals.len() as nat) =~= prefix.push(vals@[vals.len() - 1].model()));
                    }
                }
            },
        }
        i += 1;
    }
    Ok(vals)
}

/// Evaluates the arguments of a call, left to right.
pub fn run_args<H: NativeHost>(env: &Env, host: &H, args: &Vec<Expr>) -> (r: Result<
    Vec<Value>,
    RunError,
>)
    ensures
        match (r, eval_args(*host, env.model(), *args, args.len() as nat)) {
            (Ok(v), Ok(s)) => views(v, v.len() as nat) == s,
            (Err(x), Err(y)) => x == y,
            _ => false,
        },
    decreases args, args.len(),
{
    let mut vals: Vec<Value> = Vec::new();
    let mut i: usize = 0;
    while i < args.len()
        invariant
            i <= args.len(),
            eval_args(*host, env.model(), *args, i as nat) == Ok::<Seq<Val>, RunError>(
                views(vals, vals.len() as nat),
            ),
        decreases args.len() - i,
    {
        proof {
            assert(decreases_to!(args => args@[i as int]));
            lemma_views(vals, vals.len() as nat);
        }
        let ghost prefix = views(vals, vals.len() as nat);
        let v = run_expr(env, host, &args[i]);
        proof {
            if v is Err {
                lemma_args_err_stays(*host, env.model(), *args, (i + 1) as nat, args.len() as nat);
            }
        }
        match v {
            Err(x) => return Err(x),
            Ok(v) => {
                vals.push(v);
                proof {
                    lemma_views(vals, vals.len() as nat);
                    assert(views(vals, vals.len() as nat) =~= prefix.push(vals@[vals.len() - 1].model()));
                }
            },
        }
        i += 1;
    }
    Ok(vals)
}

} // verus!
