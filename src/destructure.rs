use vstd::prelude::*;
use crate::ast::{Expr, ListItem};
use crate::env::Env;
use crate::error::RunError;
use crate::eval::{NativeHost, eval_items, run_items};
use crate::value::{Val, Value, views, lemma_views, clone_value};

verus! {

/// Whether an expression may stand as a destructuring target: a name or `_`.
pub open spec fn is_target(e: Expr) -> bool {
    e is Ident || e is Underscore
}

/// How many of the items from index `i` on carry the spread marker.
pub open spec fn spreads_from(t: Seq<ListItem>, i: int) -> nat
    decreases t.len() - i,
{
    if i < 0 || i >= t.len() {
        0
    } else {
        spreads_from(t, i + 1) + if t[i].is_spread { 1nat } else { 0nat }
    }
}

/// How many values the targets from index `i` on consume, a spread target taking `take`.
pub open spec fn consumed(t: Seq<ListItem>, i: int, take: int) -> int
    decreases t.len() - i,
{
    if i < 0 || i >= t.len() {
        0
    } else {
        consumed(t, i + 1, take) + if t[i].is_spread { take } else { 1 }
    }
}

/// Whether `_` stands among the items of a list literal.
pub open spec fn has_underscore(items: Seq<ListItem>) -> bool {
    exists|i: int| 0 <= i < items.len() && (#[trigger] items[i]).expr is Underscore
}

/// The values that a destructuring source stands for: a list literal's elements, or the
/// elements of the list that a name is bound to.
pub open spec fn source_values<H: NativeHost>(h: H, env: Map<Seq<char>, Val>, rhs: Expr) -> Result<
    Seq<Val>,
    RunError,
> {
    match rhs {
        Expr::List(items) => if items.len() == 0 {
            Err(RunError::EmptySource)
        } else if has_underscore(items@) {
            Err(RunError::UnderscoreInSource)
        } else {
            eval_items(h, env, items, items.len() as nat)
        },
        Expr::Ident(n) => if !env.contains_key(n@) {
            Err(RunError::UndefinedIdentifier)
        } else {
            match env[n@] {
                Val::List(s) => if s.len() == 0 {
                    Err(RunError::EmptySource)
                } else {
                    Ok(s)
                },
                _ => Err(RunError::NotDestructurable),
            }
        },
        _ => Err(RunError::NotDestructurable),
    }
}

/// The environment after the targets from index `i` on have taken their values, the
/// next unclaimed value being `vals[p]` and a spread target taking `take` values.
pub open spec fn bind(
    env: Map<Seq<char>, Val>,
    t: Seq<ListItem>,
    i: int,
    vals: Seq<Val>,
    p: int,
    take: int,
) -> Map<Seq<char>, Val>
    decreases t.len() - i,
{
    if i < 0 || i >= t.len() {
        env
    } else {
        let item = t[i];
        let n = if item.is_spread { take } else { 1 };
        let next = match item.expr {
            Expr::Ident(name) => env.insert(
                name@,
                if item.is_spread { Val::List(vals.subrange(p, p + take)) } else { vals[p] },
            ),
            _ => env,
        };
        bind(next, t, i + 1, vals, p + n, take)
    }
}

/// What `targets = rhs` does with a list of targets: the checks in order, then the
/// bindings, left to right. The number of values must equal the number of targets
/// without the spread marker, or exceed it where one target carries the marker; a
/// source with too few values is refused too.
pub open spec fn destructure<H: NativeHost>(
    h: H,
    env: Map<Seq<char>, Val>,
    t: Seq<ListItem>,
    rhs: Expr,
) -> (Map<Seq<char>, Val>, Result<(), RunError>) {
    if t.len() == 0 {
        (env, Err(RunError::EmptyTargets))
    } else if exists|i: int| 0 <= i < t.len() && !is_target((#[trigger] t[i]).expr) {
        (env, Err(RunError::NonIdentifierTarget))
    } else if spreads_from(t, 0) > 1 {
        (env, Err(RunError::MultipleSpreadTargets))
    } else {
        match source_values(h, env, rhs) {
            Err(x) => (env, Err(x)),
            Ok(vals) => {
                let fixed = t.len() - spreads_from(t, 0);
                if vals.len() < fixed || (spreads_from(t, 0) == 0 && vals.len() > fixed) {
                    (env, Err(RunError::NonExhaustiveCoverage))
                } else {
                    (bind(env, t, 0, vals, 0, vals.len() - fixed), Ok(()))
                }
            },
        }
    }
}

proof fn lemma_consumed(t: Seq<ListItem>, i: int, take: int)
    requires
        0 <= i <= t.len(),
        spreads_from(t, i) <= 1,
    ensures
        spreads_from(t, i) == 0 ==> consumed(t, i, take) == t.len() - i,
        spreads_from(t, i) == 1 ==> consumed(t, i, take) == t.len() - i - 1 + take,
    decreases t.len() - i,
{
    if i < t.len() {
        lemma_consumed(t, i + 1, take);
    }
}

proof fn lemma_spreads_bound(t: Seq<ListItem>, i: int)
    requires
        0 <= i <= t.len(),
    ensures
        spreads_from(t, i) <= t.len() - i,
        i < t.len() ==> spreads_from(t, i + 1) <= spreads_from(t, i),
    decreases t.len() - i,
{
    if i < t.len() {
        lemma_spreads_bound(t, i + 1);
    }
}

/// How many targets carry the spread marker.
fn count_spreads(t: &Vec<ListItem>) -> (r: usize)
    ensures
        r == spreads_from(t@, 0),
{
    let mut j: usize = t.len();
    let mut count: usize = 0;
    while j > 0
        invariant
            j <= t.len(),
            count == spreads_from(t@, j as int),
            count <= t.len() - j,
        decreases j,
    {
        proof {
            lemma_spreads_bound(t@, j as int - 1);
        }
        j -= 1;
        if t[j].is_spread {
            count += 1;
        }
    }
    count
}

/// Whether `_` stands among the items.
fn any_underscore(items: &Vec<ListItem>) -> (r: bool)
    ensures
        r == has_underscore(items@),
{
    let mut i: usize = 0;
    while i < items.len()
        invariant
            i <= items.len(),
            forall|j: int| 0 <= j < i ==> !((#[trigger] items@[j]).expr is Underscore),
        decreases items.len() - i,
    {
        if matches!(items[i].expr, Expr::Underscore) {
            assert(items@[i as int].expr is Underscore);
            return true;
        }
        i += 1;
    }
    false
}

/// The values of a destructuring source, as `source_values` states them.
fn read_source<H: NativeHost>(env: &Env, host: &H, rhs: &Expr) -> (r: Result<Vec<Value>, RunError>)
    ensures
        match (r, source_values(*host, env.model(), *rhs)) {
            (Ok(v), Ok(s)) => views(v, v.len() as nat) == s,
            (Err(x), Err(y)) => x == y,
            _ => false,
        },
{
    match rhs {
        Expr::List(items) => {
            if items.len() == 0 {
                return Err(RunError::EmptySource);
            }
            if any_underscore(items) {
                return Err(RunError::UnderscoreInSource);
            }
            run_items(env, host, items)
        },
        Expr::Ident(name) => match env.get(name.as_str()) {
            None => Err(RunError::UndefinedIdentifier),
            Some(Value::List(vals)) => {
                proof {
                    lemma_views(vals, vals.len() as nat);
                }
                if vals.len() == 0 {
                    Err(RunError::EmptySource)
                } else {
                    Ok(vals)
                }
            },
            Some(_) => Err(RunError::NotDestructurable),
        },
        _ => Err(RunError::NotDestructurable),
    }
}

/// Copies of `vals[p..p + take]`.
fn slice_values(vals: &Vec<Value>, p: usize, take: usize) -> (r: Vec<Value>)
    requires
        p + take <= vals.len(),
    ensures
        views(r, r.len() as nat) == views(*vals, vals.len() as nat).subrange(p as int, p + take),
{
    let mut out: Vec<Value> = Vec::new();
    let mut k: usize = 0;
    while k < take
        invariant
            k <= take,
            p + take <= vals.len(),
            out.len() == k,
            forall|j: int| 0 <= j < k ==> #[trigger] out@[j].model() == vals@[p + j].model(),
        decreases take - k,
    {
        out.push(clone_value(&vals[p + k]));
        k += 1;
    }
    proof {
        lemma_views(out, out.len() as nat);
        lemma_views(*vals, vals.len() as nat);
        assert(views(out, out.len() as nat) =~= views(*vals, vals.len() as nat).subrange(
            p as int,
            p + take,
        ));
    }
    out
}

/// Binds the targets to `vals`, left to right, a spread target taking `take` values.
fn bind_targets(env: &mut Env, t: &Vec<ListItem>, vals: &Vec<Value>, take: usize)
    requires
        consumed(t@, 0, take as int) == vals.len(),
        spreads_from(t@, 0) <= 1,
        forall|i: int| 0 <= i < t.len() ==> is_target((#[trigger] t@[i]).expr),
    ensures
        final(env).model() == bind(old(env).model(), t@, 0, views(*vals, vals.len() as nat), 0, take as int),
{
    let ghost vm = views(*vals, vals.len() as nat);
    let ghost goal = bind(env.model(), t@, 0, vm, 0, take as int);
    proof {
        lemma_views(*vals, vals.len() as nat);
    }
    let mut i: usize = 0;
    let mut p: usize = 0;
    while i < t.len()
        invariant
            i <= t.len(),
            p + consumed(t@, i as int, take as int) == vals.len(),
            spreads_from(t@, i as int) <= 1,
            forall|i: int| 0 <= i < t.len() ==> is_target((#[trigger] t@[i]).expr),
            bind(env.model(), t@, i as int, vm, p as int, take as int) == goal,
            vm == views(*vals, vals.len() as nat),
            vm.len() == vals.len(),
            forall|j: int| 0 <= j < vals.len() ==> #[trigger] vm[j] == vals@[j].model(),
        decreases t.len() - i,
    {
        proof {
            lemma_spreads_bound(t@, i as int);
            lemma_consumed(t@, i as int + 1, take as int);
        }
        let item = &t[i];
        if item.is_spread {
            if let Expr::Ident(name) = &item.expr {
                let part = slice_values(vals, p, take);
                env.set(name.clone(), Value::List(part));
            }
            p += take;
        } else {
            if let Expr::Ident(name) = &item.expr {
                env.set(name.clone(), clone_value(&vals[p]));
            }
            p += 1;
        }
        i += 1;
    }
}

/// Runs `targets = rhs` where the targets are a list: checks the targets, then the
/// source, then that the counts agree, and only then binds.
pub fn destructure_list<H: NativeHost>(
    env: &mut Env,
    host: &H,
    targets: &Vec<ListItem>,
    rhs: &Expr,
) -> (r: Result<(), RunError>)
    ensures
        (final(env).model(), r) == destructure(*host, old(env).model(), targets@, *rhs),
{
    if targets.len() == 0 {
        return Err(RunError::EmptyTargets);
    }
    let mut i: usize = 0;
    while i < targets.len()
        invariant
            i <= targets.len(),
            forall|j: int| 0 <= j < i ==> is_target((#[trigger] targets@[j]).expr),
        decreases targets.len() - i,
    {
        if !matches!(targets[i].expr, Expr::Ident(_) | Expr::Underscore) {
            return Err(RunError::NonIdentifierTarget);
        }
        i += 1;
    }
    let spreads = count_spreads(targets);
    if spreads > 1 {
        return Err(RunError::MultipleSpreadTargets);
    }
    let vals = read_source(env, host, rhs)?;
    proof {
        lemma_views(vals, vals.len() as nat);
        lemma_spreads_bound(targets@, 0);
    }
    let fixed = targets.len() - spreads;
    if vals.len() < fixed || (spreads == 0 && vals.len() > fixed) {
        return Err(RunError::NonExhaustiveCoverage);
    }
    let take = vals.len() - fixed;
    proof {
        lemma_consumed(targets@, 0, take as int);
    }
    bind_targets(env, targets, &vals, take);
    Ok(())
}

} // verus!
