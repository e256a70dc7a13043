use vstd::prelude::*;
use crate::ast::{ArithmeticOpcode, CondBlock, Expr, ListItem, Stmt};
use crate::error::RunError;
use crate::eval::{NativeHost, eval};
use crate::destructure::{destructure, is_target, spreads_from};
use crate::exec::{assign, compound_assign, exec_stmt, exec_while};
use crate::value::{Val, same_variant, div_wrapping, rem_trunc};

verus! {

/// Division and remainder of two integers never fail when the divisor is not zero, and
/// fail with `DivisionOrModuloByZero` when it is.
pub proof fn law_division_by_nonzero_succeeds<H: NativeHost>(
    h: H,
    env: Map<Seq<char>, Val>,
    e: Expr,
)
    requires
        e is Op,
        e->opcode is Div || e->opcode is Mod,
        eval(h, env, *e->Op_lhs) is Ok && eval(h, env, *e->Op_lhs)->Ok_0 is Int,
        eval(h, env, *e->Op_rhs) is Ok && eval(h, env, *e->Op_rhs)->Ok_0 is Int,
    ensures
        ({
            let a = eval(h, env, *e->Op_lhs)->Ok_0->Int_0;
            let b = eval(h, env, *e->Op_rhs)->Ok_0->Int_0;
            &&& b != 0 && e->opcode is Div ==> eval(h, env, e) == Ok::<Val, RunError>(
                Val::Int(div_wrapping(a, b)),
            )
            &&& b != 0 && e->opcode is Mod ==> eval(h, env, e) == Ok::<Val, RunError>(
                Val::Int(rem_trunc(a, b)),
            )
            &&& b == 0 ==> eval(h, env, e) == Err::<Val, RunError>(RunError::DivisionOrModuloByZero)
        }),
{
}

/// `==` and `!=` on operands of different variants fail with `TypeMismatch`.
pub proof fn law_equality_across_variants_mismatches<H: NativeHost>(
    h: H,
    env: Map<Seq<char>, Val>,
    e: Expr,
)
    requires
        e is Op,
        e->opcode is Eq || e->opcode is Neq,
        eval(h, env, *e->Op_lhs) is Ok,
        eval(h, env, *e->Op_rhs) is Ok,
        !same_variant(eval(h, env, *e->Op_lhs)->Ok_0, eval(h, env, *e->Op_rhs)->Ok_0),
    ensures
        eval(h, env, e) == Err::<Val, RunError>(RunError::TypeMismatch),
{
}

/// A literal, a call or an operation on the left of `=` fails with
/// `InvalidAssignmentTarget`, whatever the right-hand side, and changes nothing.
pub proof fn law_invalid_assignment_target<H: NativeHost>(
    h: H,
    fuel: nat,
    env: Map<Seq<char>, Val>,
    lhs: Expr,
    rhs: Expr,
)
    requires
        lhs is Int || lhs is StrLiteral || lhs is Call || lhs is Op,
    ensures
        assign(h, env, lhs, rhs) == (env, Err::<(), RunError>(RunError::InvalidAssignmentTarget)),
        fuel > 0 ==> exec_stmt(h, fuel, env, Stmt::Assign { lhs, rhs }) == (
            env,
            Err::<(), RunError>(RunError::InvalidAssignmentTarget),
        ),
{
}

/// A compound assignment to an unbound name fails with `UndefinedIdentifier` and leaves
/// the environment as it was, once its right-hand side has evaluated.
pub proof fn law_compound_assign_to_unbound<H: NativeHost>(
    h: H,
    env: Map<Seq<char>, Val>,
    name: Seq<char>,
    op: ArithmeticOpcode,
    rhs: Expr,
)
    requires
        !env.contains_key(name),
        eval(h, env, rhs) is Ok,
    ensures
        compound_assign(h, env, name, op, rhs) == (env, Err::<(), RunError>(RunError::UndefinedIdentifier)),
{
}

/// A `while` loop whose condition is `false` runs its body no time and changes nothing.
pub proof fn law_while_false_runs_nothing<H: NativeHost>(
    h: H,
    fuel: nat,
    env: Map<Seq<char>, Val>,
    cb: CondBlock,
)
    requires
        fuel > 0,
        eval(h, env, cb.cond) == Ok::<Val, RunError>(Val::Boolean(false)),
    ensures
        exec_while(h, fuel, env, cb) == (env, Ok::<(), RunError>(())),
{
}

/// Destructuring with two or more spread targets fails with `MultipleSpreadTargets`
/// before the source is looked at or anything is bound.
pub proof fn law_several_spreads_refused<H: NativeHost>(
    h: H,
    env: Map<Seq<char>, Val>,
    targets: Seq<ListItem>,
    rhs: Expr,
)
    requires
        forall|i: int| 0 <= i < targets.len() ==> is_target((#[trigger] targets[i]).expr),
        spreads_from(targets, 0) > 1,
    ensures
        destructure(h, env, targets, rhs) == (env, Err::<(), RunError>(RunError::MultipleSpreadTargets)),
{
}

} // verus!
