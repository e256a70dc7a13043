use vstd::prelude::*;
use crate::ast::Opcode;
use crate::error::RunError;
use core::cmp::Ordering;

verus! {

/// The mathematical model of a runtime value.
pub enum Val {
    Unit,
    Int(i64),
    Boolean(bool),
    Str(Seq<char>),
    List(Seq<Val>),
    Native(u64),
}

/// A runtime value. A native function is a handle that the host resolves.
#[derive(Debug)]
pub enum Value {
    Unit,
    Int(i64),
    Boolean(bool),
    StrLiteral(String),
    List(Vec<Value>),
    Func(u64),
}

/// The first `n` items of `v`, each by its model.
pub open spec fn views(v: Vec<Value>, n: nat) -> Seq<Val>
    decreases v, n,
{
    if n == 0 || n > v.len() {
        Seq::empty()
    } else {
        views(v, (n - 1) as nat).push(v[n - 1].model())
    }
}

impl Value {
    /// The mathematical model of the value.
    pub open spec fn model(self) -> Val
        decreases self, 0nat,
    {
        match self {
            Value::Unit => Val::Unit,
            Value::Int(i) => Val::Int(i),
            Value::Boolean(b) => Val::Boolean(b),
            Value::StrLiteral(s) => Val::Str(s@),
            Value::List(v) => Val::List(views(v, v.len() as nat)),
            Value::Func(h) => Val::Native(h),
        }
    }
}

/// Division truncated toward zero, on mathematical integers.
pub open spec fn trunc_div(a: int, b: int) -> int {
    let q = abs(a) / abs(b);
    if (a < 0) == (b < 0) { q } else { -q }
}

/// The absolute value of `a`.
pub open spec fn abs(a: int) -> int {
    if a < 0 { -a } else { a }
}

/// `a / b` on 64-bit integers, wrapping on the one overflowing case `MIN / -1`.
pub open spec fn div_wrapping(a: i64, b: i64) -> i64 {
    if a == i64::MIN && b == -1 { i64::MIN } else { trunc_div(a as int, b as int) as i64 }
}

/// `a % b` on 64-bit integers: the remainder of truncated division, of the sign of `a`.
pub open spec fn rem_trunc(a: i64, b: i64) -> i64 {
    let r = abs(a as int) % abs(b as int);
    (if a < 0 { -r } else { r }) as i64
}

/// The arithmetic of the language on two integers: wrapping two's complement,
/// with division and remainder by zero refused.
pub open spec fn int_arith(op: Opcode, a: i64, b: i64) -> Result<i64, RunError> {
    match op {
        Opcode::Add => Ok(a.wrapping_add(b)),
        Opcode::Sub => Ok(a.wrapping_sub(b)),
        Opcode::Mul => Ok(a.wrapping_mul(b)),
        Opcode::Div => if b == 0 { Err(RunError::DivisionOrModuloByZero) } else { Ok(div_wrapping(a, b)) },
        Opcode::Mod => if b == 0 { Err(RunError::DivisionOrModuloByZero) } else { Ok(rem_trunc(a, b)) },
        _ => Err(RunError::TypeMismatch),
    }
}

/// Arithmetic on two values: defined on two integers only.
pub open spec fn val_arith(op: Opcode, a: Val, b: Val) -> Result<Val, RunError> {
    match (a, b) {
        (Val::Int(x), Val::Int(y)) => match int_arith(op, x, y) {
            Ok(r) => Ok(Val::Int(r)),
            Err(e) => Err(e),
        },
        _ => Err(RunError::TypeMismatch),
    }
}

fn int_div(a: i64, b: i64) -> (r: i64)
    requires
        b != 0,
    ensures
        r == div_wrapping(a, b),
{
    if a == i64::MIN && b == -1 {
        return i64::MIN;
    }
    let ua: i128 = if a < 0 { -(a as i128) } else { a as i128 };
    let ub: i128 = if b < 0 { -(b as i128) } else { b as i128 };
    let q: i128 = ua / ub;
    proof {
        assert(q <= ua) by (nonlinear_arith)
            requires ua >= 0, ub >= 1, q == ua / ub;
        assert(q * ub <= ua) by (nonlinear_arith)
            requires ua >= 0, ub >= 1, q == ua / ub;
        assert(ub >= 2 ==> q * 2 <= ua) by (nonlinear_arith)
            requires ua >= 0, ub >= 1, q >= 0, q * ub <= ua;
    }
    if (a < 0) == (b < 0) {
        q as i64
    } else {
        (-q) as i64
    }
}

fn int_rem(a: i64, b: i64) -> (r: i64)
    requires
        b != 0,
    ensures
        r == rem_trunc(a, b),
{
    let ua: i128 = if a < 0 { -(a as i128) } else { a as i128 };
    let ub: i128 = if b < 0 { -(b as i128) } else { b as i128 };
    let m: i128 = ua % ub;
    if a < 0 {
        (-m) as i64
    } else {
        m as i64
    }
}

/// Whether two values are of one variant.
pub open spec fn same_variant(a: Val, b: Val) -> bool {
    match (a, b) {
        (Val::Unit, Val::Unit) => true,
        (Val::Int(_), Val::Int(_)) => true,
        (Val::Boolean(_), Val::Boolean(_)) => true,
        (Val::Str(_), Val::Str(_)) => true,
        (Val::List(_), Val::List(_)) => true,
        (Val::Native(_), Val::Native(_)) => true,
        _ => false,
    }
}

/// Equality of values: by content for integers, booleans and strings; `Unit` equals
/// `Unit`; lists and native functions equal nothing.
pub open spec fn val_eq(a: Val, b: Val) -> bool {
    match (a, b) {
        (Val::Unit, Val::Unit) => true,
        (Val::Int(x), Val::Int(y)) => x == y,
        (Val::Boolean(x), Val::Boolean(y)) => x == y,
        (Val::Str(x), Val::Str(y)) => x == y,
        _ => false,
    }
}

/// Lexicographic order of two character sequences.
pub open spec fn seq_cmp(a: Seq<char>, b: Seq<char>) -> Ordering
    decreases a.len(),
{
    if a.len() == 0 {
        if b.len() == 0 { Ordering::Equal } else { Ordering::Less }
    } else if b.len() == 0 {
        Ordering::Greater
    } else if (a[0] as u32) < (b[0] as u32) {
        Ordering::Less
    } else if (a[0] as u32) > (b[0] as u32) {
        Ordering::Greater
    } else {
        seq_cmp(a.drop_first(), b.drop_first())
    }
}

pub open spec fn ord_of_int(x: int, y: int) -> Ordering {
    if x < y { Ordering::Less } else if x > y { Ordering::Greater } else { Ordering::Equal }
}

/// The order of values: integers, booleans (`false` first) and strings are ordered;
/// all other pairs are incomparable.
pub open spec fn val_cmp(a: Val, b: Val) -> Option<Ordering> {
    match (a, b) {
        (Val::Int(x), Val::Int(y)) => Some(ord_of_int(x as int, y as int)),
        (Val::Boolean(x), Val::Boolean(y)) => Some(
            ord_of_int(if x { 1 } else { 0 }, if y { 1 } else { 0 }),
        ),
        (Val::Str(x), Val::Str(y)) => Some(seq_cmp(x, y)),
        _ => None,
    }
}

/// What a comparison operator yields on an order (`None`: incomparable, always false).
pub open spec fn cmp_holds(op: Opcode, o: Option<Ordering>) -> bool {
    match o {
        None => false,
        Some(o) => match op {
            Opcode::Lt => o is Less,
            Opcode::Gt => o is Greater,
            Opcode::Lte => !(o is Greater),
            Opcode::Gte => !(o is Less),
            _ => false,
        },
    }
}

/// The binary operators on values. Operands of different variants are a type mismatch,
/// whatever the operator.
pub open spec fn val_binop(op: Opcode, a: Val, b: Val) -> Result<Val, RunError> {
    if !same_variant(a, b) {
        Err(RunError::TypeMismatch)
    } else {
        match op {
            Opcode::Eq => Ok(Val::Boolean(val_eq(a, b))),
            Opcode::Neq => Ok(Val::Boolean(!val_eq(a, b))),
            Opcode::Lt | Opcode::Gt | Opcode::Lte | Opcode::Gte => Ok(
                Val::Boolean(cmp_holds(op, val_cmp(a, b))),
            ),
            _ => val_arith(op, a, b),
        }
    }
}

/// The model of an evaluation's outcome.
pub open spec fn res_model(r: Result<Value, RunError>) -> Result<Val, RunError> {
    match r {
        Ok(v) => Ok(v.model()),
        Err(e) => Err(e),
    }
}

/// Relies on std's `Ord for String`: lexicographic order, which on UTF-8 text is the
/// order of the characters' code points.
#[verifier::external_body]
fn str_cmp(a: &String, b: &String) -> (r: Ordering)
    ensures
        r == seq_cmp(a@, b@),
{
    a.cmp(b)
}

fn int_cmp(x: i64, y: i64) -> (r: Ordering)
    ensures
        r == ord_of_int(x as int, y as int),
{
    if x < y {
        Ordering::Less
    } else if x > y {
        Ordering::Greater
    } else {
        Ordering::Equal
    }
}

fn holds(op: Opcode, o: Option<Ordering>) -> (r: bool)
    ensures
        r == cmp_holds(op, o),
{
    match o {
        None => false,
        Some(o) => match op {
            Opcode::Lt => matches!(o, Ordering::Less),
            Opcode::Gt => matches!(o, Ordering::Greater),
            Opcode::Lte => !matches!(o, Ordering::Greater),
            Opcode::Gte => !matches!(o, Ordering::Less),
            _ => false,
        },
    }
}

/// Whether two values are of one variant.
pub fn same_kind(a: &Value, b: &Value) -> (r: bool)
    ensures
        r == same_variant(a.model(), b.model()),
{
    match (a, b) {
        (Value::Unit, Value::Unit) => true,
        (Value::Int(_), Value::Int(_)) => true,
        (Value::Boolean(_), Value::Boolean(_)) => true,
        (Value::StrLiteral(_), Value::StrLiteral(_)) => true,
        (Value::List(_), Value::List(_)) => true,
        (Value::Func(_), Value::Func(_)) => true,
        _ => false,
    }
}

/// Equality of values, as `val_eq` states it.
pub fn values_equal(a: &Value, b: &Value) -> (r: bool)
    ensures
        r == val_eq(a.model(), b.model()),
{
    match (a, b) {
        (Value::Unit, Value::Unit) => true,
        (Value::Int(x), Value::Int(y)) => *x == *y,
        (Value::Boolean(x), Value::Boolean(y)) => *x == *y,
        (Value::StrLiteral(x), Value::StrLiteral(y)) => *x == *y,
        _ => false,
    }
}

/// The order of two values, as `val_cmp` states it.
pub fn compare(a: &Value, b: &Value) -> (r: Option<Ordering>)
    ensures
        r == val_cmp(a.model(), b.model()),
{
    match (a, b) {
        (Value::Int(x), Value::Int(y)) => Some(int_cmp(*x, *y)),
        (Value::Boolean(x), Value::Boolean(y)) => Some(
            int_cmp(if *x { 1 } else { 0 }, if *y { 1 } else { 0 }),
        ),
        (Value::StrLiteral(x), Value::StrLiteral(y)) => Some(str_cmp(x, y)),
        _ => None,
    }
}

impl PartialEq for Value {
    fn eq(&self, other: &Value) -> (r: bool) {
        values_equal(self, other)
    }
}

impl vstd::std_specs::cmp::PartialEqSpecImpl for Value {
    open spec fn obeys_eq_spec() -> bool {
        true
    }

    open spec fn eq_spec(&self, other: &Value) -> bool {
        val_eq(self.model(), other.model())
    }
}

impl PartialOrd for Value {
    fn partial_cmp(&self, other: &Value) -> (r: Option<Ordering>) {
        compare(self, other)
    }
}

impl vstd::std_specs::cmp::PartialOrdSpecImpl for Value {
    open spec fn obeys_partial_cmp_spec() -> bool {
        true
    }

    open spec fn partial_cmp_spec(&self, other: &Value) -> Option<Ordering> {
        val_cmp(self.model(), other.model())
    }
}

/// Applies a binary operator to two values.
pub fn apply_binop(op: Opcode, a: &Value, b: &Value) -> (r: Result<Value, RunError>)
    ensures
        res_model(r) == val_binop(op, a.model(), b.model()),
{
    if !same_kind(a, b) {
        return Err(RunError::TypeMismatch);
    }
    match op {
        Opcode::Eq => Ok(Value::Boolean(values_equal(a, b))),
        Opcode::Neq => Ok(Value::Boolean(!values_equal(a, b))),
        Opcode::Lt | Opcode::Gt | Opcode::Lte | Opcode::Gte => Ok(
            Value::Boolean(holds(op, compare(a, b))),
        ),
        _ => match (a, b) {
            (Value::Int(x), Value::Int(y)) => {
                let (x, y) = (*x, *y);
                match op {
                    Opcode::Add => Ok(Value::Int(x.wrapping_add(y))),
                    Opcode::Sub => Ok(Value::Int(x.wrapping_sub(y))),
                    Opcode::Mul => Ok(Value::Int(x.wrapping_mul(y))),
                    Opcode::Div => if y == 0 {
                        Err(RunError::DivisionOrModuloByZero)
                    } else {
                        Ok(Value::Int(int_div(x, y)))
                    },
                    _ => if y == 0 {
                        Err(RunError::DivisionOrModuloByZero)
                    } else {
                        Ok(Value::Int(int_rem(x, y)))
                    },
                }
            },
            _ => Err(RunError::TypeMismatch),
        },
    }
}

/// The first `n` models of `v`, item by item.
pub proof fn lemma_views(v: Vec<Value>, n: nat)
    requires
        n <= v.len(),
    ensures
        views(v, n).len() == n,
        forall|j: int| 0 <= j < n ==> #[trigger] views(v, n)[j] == v@[j].model(),
    decreases n,
{
    if n > 0 {
        lemma_views(v, (n - 1) as nat);
    }
}

/// A copy of a value, item by item.
pub fn clone_value(v: &Value) -> (r: Value)
    ensures
        r.model() == v.model(),
    decreases v,
{
    match v {
        Value::Unit => Value::Unit,
        Value::Int(i) => Value::Int(*i),
        Value::Boolean(b) => Value::Boolean(*b),
        Value::StrLiteral(s) => Value::StrLiteral(s.clone()),
        Value::Func(h) => Value::Func(*h),
        Value::List(items) => Value::List(clone_items(items)),
    }
}

/// A copy of a sequence of values, item by item.
pub fn clone_items(items: &Vec<Value>) -> (r: Vec<Value>)
    ensures
        views(r, r.len() as nat) == views(*items, items.len() as nat),
        r.len() == items.len(),
    decreases items,
{
    let mut out: Vec<Value> = Vec::new();
    let mut i: usize = 0;
    while i < items.len()
        invariant
            i <= items.len(),
            out.len() == i,
            forall|j: int| 0 <= j < i ==> #[trigger] out@[j].model() == items@[j].model(),
        decreases items.len() - i,
    {
        proof {
            assert(decreases_to!(items => items@[i as int]));
        }
        out.push(clone_value(&items[i]));
        i += 1;
    }
    proof {
        lemma_views(out, out.len() as nat);
        lemma_views(*items, items.len() as nat);
        assert(views(out, out.len() as nat) =~= views(*items, items.len() as nat));
    }
    out
}

} // verus!
